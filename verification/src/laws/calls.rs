//! What single calls give back.

use crate::app::manager::{self, PollFailure};
use crate::app::supervisor::ConfigRole;
use crate::appearance::{self, Appearance, ColorPreference, ColorScheme, WindowTheme};
use crate::cli::{self, Row};
use crate::config::files::{self, FileEvent};
use crate::config::Config;
use crate::dashboard::{self, Contents, Retry, RowPlan};
use crate::discovery::backoff;
use crate::doctor::{self, Check, Status};
use crate::domain::display::DisplayMode;
use crate::domain::double;
use crate::domain::estimate::{self, Estimate};
use crate::domain::primary::PrimaryStatus;
use crate::domain::time::{BootTime, Duration};
use crate::domain::types::{
    BatteryReading, ChargeState, DeviceKind, DeviceState, PollOutcome, Presence,
};
use crate::i18n::Lang;
use crate::icon::cache::IconKey;
use crate::icon::{self, Layer, Theme};
use crate::invocation::{self, Invocation, LogProfile};
use crate::ipc::DeviceCard;
use crate::laws::charge;
use crate::laws::icons;
use crate::laws::lines;
use crate::laws::rounding;
use crate::laws::settings;
use crate::laws::words;
use crate::strings;
use crate::tray;
use vstd::prelude::*;

verus! {

/// A poll that brought a reading is told by that reading, a refused one as one
/// without access, and any other as failed, also one that never finished.
pub proof fn a_poll_is_told_by_what_it_brought(
    polled: Option<Result<BatteryReading, PollFailure>>,
    r: PollOutcome,
)
    requires
        call_ensures(cli::poll_outcome, (polled,), r),
    ensures
        r is Reading <==> polled is Some && polled->0 is Ok,
        r matches PollOutcome::Reading(reading) ==> polled == Some(
            Ok::<BatteryReading, PollFailure>(reading),
        ),
        r is NoAccess <==> polled == Some(
            Err::<BatteryReading, PollFailure>(PollFailure::AccessDenied),
        ),
{
}

/// A reading has the percent and the state it was made of, and no more than a
/// whole battery.
pub proof fn a_reading_is_what_it_was_made_of(
    percent: u8,
    state: ChargeState,
    exact: BatteryReading,
    coarse: BatteryReading,
)
    requires
        call_ensures(BatteryReading::new, (percent, state), exact),
        call_ensures(BatteryReading::new_coarse, (percent, state), coarse),
    ensures
        exact.percent == settings::at_most_full(percent),
        coarse.percent == exact.percent,
        exact.state == state && coarse.state == state,
        !exact.coarse && coarse.coarse,
{
}

/// A device's icon is drawn from what was read of it, by its own threshold, and
/// from its kind.
pub proof fn an_icon_is_drawn_from_what_was_read(
    device: DeviceState,
    cfg: Config,
    theme: Theme,
    key: IconKey,
)
    requires
        call_ensures(tray::icon_key, (&device, &cfg, theme), key),
    ensures
        device.last_reading is Some ==> icons::carried(key.status) == Some(
            device.last_reading->0.percent,
        ),
        key.status is Low ==> device.last_reading->0.percent <= settings::own_threshold(
            cfg@,
            device.info.name@,
        ),
        key.status is Normal ==> device.last_reading->0.percent > settings::own_threshold(
            cfg@,
            device.info.name@,
        ),
        key.kind == Some(device.info.kind),
        key.theme == theme,
        key.mode == cfg.display_mode,
{
    settings::thresholds_are_the_settings(cfg@, device.info.name@);
}

/// The window shows rows exactly if it was told of devices, and scrolls past ten.
pub proof fn the_window_shows_what_it_was_told(devices: Option<usize>, r: Contents)
    requires
        call_ensures(dashboard::contents, (devices,), r),
    ensures
        (r is NoTray) == (devices is None),
        (r is NoDevices) == (devices == Some(0usize)),
        (r is Rows) == (devices is Some && devices->0 > 0),
        r matches Contents::Rows { scrolls } ==> scrolls == (devices->0 > 10),
{
}

/// A restarted tray is asked until it answers, ten times at most.
pub proof fn a_restarted_tray_is_asked_ten_times(tries: u32, got: bool, r: Retry)
    requires
        call_ensures(dashboard::after_fetch, (tries, got), r),
    ensures
        (r == Retry::Done) == got,
        (r == Retry::Again) == (!got && tries < 10),
        (r == Retry::GiveUp) == (!got && tries >= 10),
{
}

/// A refresh is waited for five seconds, unless its call failed.
pub proof fn a_refresh_is_waited_for(since: Option<Duration>, failed: bool, r: bool)
    requires
        call_ensures(dashboard::refresh_in_flight, (since, failed), r),
    ensures
        r ==> since is Some && since->0@ < 5_000_000_000 && !failed,
        since is Some && since->0@ < 5_000_000_000 && !failed ==> r,
{
}

/// The session is light only for who asks for it, and a forced theme wins over
/// that without touching accent or scale.
pub proof fn a_forced_theme_wins(
    preference: ColorPreference,
    scheme: ColorScheme,
    a: Appearance,
    theme: WindowTheme,
    r: Appearance,
)
    requires
        call_ensures(appearance::map_scheme, (preference,), scheme),
        call_ensures(Appearance::with_theme, (a, theme), r),
    ensures
        (scheme == ColorScheme::Light) == (preference == ColorPreference::PreferLight),
        theme == WindowTheme::System ==> r.scheme == a.scheme,
        theme == WindowTheme::Dark ==> r.scheme == ColorScheme::Dark,
        theme == WindowTheme::Light ==> r.scheme == ColorScheme::Light,
        r.accent == a.accent,
        r.text_scale_bits == a.text_scale_bits,
{
}

/// Only the owner of the config file converts and saves it.
pub proof fn only_the_owner_saves(role: ConfigRole, loaded: Config, cfg: Config, saves: bool)
    requires
        call_ensures(manager::config_to_convert, (role, loaded), cfg),
        call_ensures(manager::may_save, (role,), saves),
    ensures
        saves == (role == ConfigRole::Owner),
        role == ConfigRole::Owner ==> cfg@.shown == loaded@.shown,
        role == ConfigRole::Reader ==> cfg@.shown.len() == 0,
        cfg@.hidden == loaded@.hidden,
        cfg@.overrides == loaded@.overrides,
        cfg@.primary == loaded@.primary,
        cfg@.low_threshold == loaded@.low_threshold,
{
}

/// The program's own variable wins over the general one, and either over the
/// default.
pub proof fn the_own_variable_wins(
    profile: LogProfile,
    own: Option<&str>,
    general: Option<&str>,
    r: String,
)
    requires
        call_ensures(invocation::resolve_filter_directive, (profile, own, general), r),
    ensures
        own is Some ==> r@ == own->0@,
        own is None && general is Some ==> r@ == general->0@,
        own is None && general is None ==> r@ == (if profile == LogProfile::Daemon {
            "info"@
        } else {
            "warn"@
        }),
{
}

/// What is answered without running ends well, what is refused ends with an
/// error, and anything else runs.
pub proof fn refusals_end_with_an_error(invocation: Invocation, code: Option<i32>)
    requires
        call_ensures(invocation::exit_early, (&invocation,), code),
    ensures
        (code == Some(0i32)) == (invocation is Help || invocation is Version),
        (code == Some(2i32)) == (invocation is Unknown || invocation is UsageError),
        code is Some ==> code == Some(0i32) || code == Some(2i32),
{
}

/// The doctor's exit code is one exactly if something failed.
pub proof fn only_a_failure_fails(checks: &[Check], code: i32)
    requires
        call_ensures(doctor::exit_code, (checks,), code),
    ensures
        code == 0 || code == 1,
        code == 0 <==> forall|i: int|
            0 <= i < checks@.len() ==> (#[trigger] checks@[i]).status != Status::Fail,
{
}

/// Reading the file, or touching what is not its content, does not make it load
/// again; writing, creating or renaming it does.
pub proof fn only_content_loads_again(event: FileEvent, r: bool)
    requires
        call_ensures(files::is_content_change, (event,), r),
    ensures
        event is Access || event is Metadata || event is Remove || event is Other ==> !r,
        event is Create || event is Data || event is Name || event is Modified ==> r,
{
}

/// A watcher that ran for a minute was working.
pub proof fn a_minute_is_a_working_session(ran: Duration, r: bool)
    requires
        call_ensures(backoff::is_healthy_run, (ran,), r),
    ensures
        r <==> ran@ >= 60_000_000_000,
{
}

/// An estimate is made of a history since its first steady edge: it divides by
/// the percent lost from there to the last edge, over the time between the two,
/// and there is none for less than half an hour of it, for a coarse reading or
/// for a device that does not discharge.
pub proof fn an_estimate_is_made_of_the_percent_lost(
    history: &[(BootTime, u8)],
    current: BatteryReading,
    start: int,
    r: Estimate,
) -> (left: nat)
    requires
        call_ensures(estimate::estimate, (history, current), r),
        charge::steady_since(history@, start),
        0 <= history@.last().0@ - history@[start].0@ <= i64::MAX,
    ensures
        r is Remaining <==> {
            &&& current.state == ChargeState::Discharging
            &&& !current.coarse
            &&& start < history@.len() - 1
            &&& history@.last().0@ - history@[start].0@ >= 1_800_000_000_000
        },
        !(r is Remaining) ==> r is Unknown,
        r is Remaining ==> {
            let span = history@.last().0@ - history@[start].0@;
            let lost = history@[start].1 - history@.last().1;
            let fine = 0x8_0000_0000_0000int;
            let mins = left as int / 60_000_000_000;
            let shown = r->Remaining_0@ as int;
            &&& lost > 0
            &&& (2 * (left * lost) - lost) * fine <= 2 * (current.percent * span) * (fine + 7)
            &&& 2 * (current.percent * span) * fine <= (2 * (left * lost) + lost) * (fine + 7)
            &&& mins >= 45 ==> shown % 3_600_000_000_000 == 0 && (mins - 30) * 60_000_000_000
                < shown <= (mins + 30) * 60_000_000_000
            &&& 8 <= mins < 45 ==> shown % 900_000_000_000 == 0 && (mins - 7) * 60_000_000_000
                <= shown <= (mins + 7) * 60_000_000_000
            &&& mins < 8 ==> shown == 900_000_000_000
        },
{
    let h = history@;
    charge::the_rate_is_the_percent_lost_over_the_time_it_took(h, current, start);
    let span = (h.last().0@ - h[start].0@) as nat;
    let lost = (h[start].1 - h.last().1) as nat;
    let left = double::time_left(current.percent as nat, span, lost);
    if estimate::has_evidence(h, current) {
        rounding::the_time_left_is_the_quotient(current.percent as nat, span, lost);
        charge::shown_times_are_the_nearest(left);
    }
    left
}

/// A plan of an icon shows the percentage of its status, once.
pub proof fn a_plan_shows_the_percentage(
    status: PrimaryStatus,
    kind: Option<DeviceKind>,
    mode: DisplayMode,
    stale: bool,
    percent: u8,
    r: Vec<Layer>,
) -> (at: int)
    requires
        call_ensures(icon::plan, (status, kind, mode, stale), r),
        icons::carried(status) == Some(percent),
    ensures
        0 <= at < r@.len(),
        icons::shown_percent(r@[at]) == Some(percent),
        forall|k: int|
            0 <= k < r@.len() && k != at ==> icons::shown_percent(#[trigger] r@[k]) is None,
{
    icons::an_icon_shows_the_charge_it_was_given(status, kind, mode, stale, percent)
}

/// A printed table has a line for every device, with its name and what was read
/// of it.
pub proof fn a_printed_table_tells_every_device(rows: &[Row], i: int, out: String) -> (r: (
    Seq<char>,
    nat,
    Seq<char>,
))
    requires
        call_ensures(cli::print_table, (rows,), out),
        0 <= i < rows@.len(),
    ensures
        lines::has_line(
            out@,
            r.0,
            rows@[i].0.name@ + strings::spaces(r.1) + lines::told(rows@[i].1),
            r.2,
        ),
        r.1 >= 2,
{
    lines::a_line_tells_name_percent_and_state(rows@, i)
}

/// A row of the window shows the percentage of its card in its bar.
pub proof fn a_row_shows_the_percentage_of_its_card(
    card: DeviceCard,
    lang: Lang,
    elapsed: u64,
    r: RowPlan,
)
    requires
        call_ensures(dashboard::row_plan, (&card, lang, elapsed), r),
        card.presence == Presence::Online,
        card.percent is Some,
        card.charge != Some(ChargeState::Full),
    ensures
        r.bar is Some && r.bar->0.percent == card.percent->0,
        r.value@ == words::sign_of(card.status) + strings::decimal(card.percent->0 as nat) + "%"@,
{
    words::a_live_row_shows_its_percentage(card, lang);
}

} // verus!
