use rigbat::domain::estimate::Estimate;
use rigbat::domain::text::format_device_entry;
use rigbat::domain::time::{BootTime, Duration};
use rigbat::domain::types::{DeviceInfo, DeviceKind, DeviceState, Presence, Transport};
use rigbat::i18n::{from_env, phrase, resolve, Lang, Phrase};

#[test]
fn each_language_renders_from_its_own_catalogue() {
    assert_eq!(phrase(Phrase::Quit, Lang::En), "Quit");
    assert_eq!(phrase(Phrase::Quit, Lang::Ru), "Выход");
}

#[test]
fn substitutions_carry_no_isolation_marks() {
    let device = DeviceState {
        info: DeviceInfo {
            name: "MX Master 3".to_owned(),
            kind: DeviceKind::Mouse,
            transport: Transport::Bluetooth,
            locator: None,
        },
        last_reading: None,
        last_seen: None,
        presence: Presence::Disconnected,
        estimate: Estimate::Unknown,
    };
    let now = BootTime::from_boot(Duration::from_secs(1));
    assert_eq!(
        format_device_entry(&device, now, Lang::Ru),
        "MX Master 3: не на связи"
    );
}

#[test]
fn from_tag_reads_tags_and_locale_names() {
    for (tag, expected) in [
        ("en", Some(Lang::En)),
        ("ru", Some(Lang::Ru)),
        ("ru-RU", Some(Lang::Ru)),
        ("ru_RU.UTF-8", Some(Lang::Ru)),
        ("ru_RU@euro", Some(Lang::Ru)),
        ("RU", Some(Lang::Ru)),
        ("en_GB.UTF-8", Some(Lang::En)),
        ("de_DE.UTF-8", None),
        ("C", None),
        ("", None),
    ] {
        assert_eq!(Lang::from_tag(tag), expected, "{tag:?}");
    }
}

#[test]
fn tag_round_trips() {
    for lang in Lang::ALL {
        assert_eq!(Lang::from_tag(lang.tag()), Some(lang));
    }
}

fn session(vars: &[(&str, &str)]) -> Lang {
    let var = |key: &str| vars.iter().find(|(k, _)| *k == key).map(|(_, v)| *v);
    from_env(
        var("LC_ALL"),
        var("LC_MESSAGES"),
        var("LANG"),
        var("LANGUAGE"),
    )
}

#[test]
fn from_env_follows_gettext_precedence() {
    for (vars, expected) in [
        (&[][..], Lang::En),
        (&[("LANG", "ru_RU.UTF-8")][..], Lang::Ru),
        (&[("LANG", "de_DE.UTF-8")][..], Lang::En),
        (&[("LANG", "C.UTF-8")][..], Lang::En),
        (&[("LC_ALL", "C"), ("LANG", "ru_RU.UTF-8")][..], Lang::En),
        (
            &[("LC_ALL", "en_US.UTF-8"), ("LANG", "ru_RU.UTF-8")][..],
            Lang::En,
        ),
        (&[("LC_ALL", ""), ("LANG", "ru_RU.UTF-8")][..], Lang::Ru),
        (
            &[("LC_MESSAGES", "ru_RU.UTF-8"), ("LANG", "en_US.UTF-8")][..],
            Lang::Ru,
        ),
        (
            &[("LANGUAGE", "de:ru:en"), ("LANG", "en_US.UTF-8")][..],
            Lang::Ru,
        ),
        (&[("LANGUAGE", "ru"), ("LANG", "C")][..], Lang::En),
        (&[("LANGUAGE", "ru")][..], Lang::En),
    ] {
        assert_eq!(session(vars), expected, "{vars:?}");
    }
}

#[test]
fn resolve_prefers_the_configured_language() {
    for system in Lang::ALL {
        assert_eq!(resolve(Some("ru"), system), Lang::Ru);
        assert_eq!(resolve(Some("en"), system), Lang::En);
    }
}

#[test]
fn resolve_falls_back_to_the_session_language() {
    for system in Lang::ALL {
        assert_eq!(resolve(Some("de"), system), system);
        assert_eq!(resolve(None, system), system);
    }
}

#[test]
fn native_names() {
    assert_eq!(Lang::En.native_name(), "English");
    assert_eq!(Lang::Ru.native_name(), "Русский");
}
