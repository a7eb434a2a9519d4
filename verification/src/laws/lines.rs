//! What the one-shot commands print of a device.

use crate::cli::{self, Row};
use crate::domain::types::{ChargeState, DeviceKind, PollOutcome, Transport};
use crate::strings;
use vstd::prelude::*;

verus! {

// --- numbers -----------------------------------------------------------------

/// The number that a text of digits stands for, the last digit counting ones.
pub open spec fn number_read(digits: Seq<char>) -> int
    decreases digits.len(),
{
    if digits.len() == 0 {
        0
    } else {
        10 * number_read(digits.drop_last()) + (digits.last() as int - '0' as int)
    }
}

/// A number in decimal is made of digits alone, reads as that number, and does
/// not start with a zero unless it is zero.
pub proof fn decimals_read_as_their_number(n: nat)
    ensures
        number_read(strings::decimal(n)) == n,
        forall|i: int|
            0 <= i < strings::decimal(n).len() ==> '0' <= #[trigger] strings::decimal(n)[i] <= '9',
        strings::decimal(n)[0] == '0' ==> n == 0,
    decreases n,
{
    strings::decimal_has_only_digits(n);
    reveal_with_fuel(number_read, 2);
    let text = strings::decimal(n);
    if n < 10 {
        assert(text.drop_last() =~= Seq::empty());
    } else {
        decimals_read_as_their_number(n / 10);
        strings::decimal_has_only_digits(n / 10);
        assert(text.drop_last() =~= strings::decimal(n / 10));
        assert(text[0] == strings::decimal(n / 10)[0]);
    }
}

/// Two texts that open with a number and go on with the same sign that is no
/// digit are the same only if the numbers are.
pub proof fn numbers_show(a: nat, b: nat, sign: char, rest: Seq<char>, other: Seq<char>)
    requires
        !strings::is_digit(sign),
        rest.len() > 0,
        other.len() > 0,
        rest[0] == sign,
        other[0] == sign,
        strings::decimal(a) + rest == strings::decimal(b) + other,
    ensures
        a == b,
{
    let x = strings::decimal(a);
    let y = strings::decimal(b);
    strings::decimal_has_only_digits(a);
    strings::decimal_has_only_digits(b);
    if x.len() < y.len() {
        assert((x + rest)[x.len() as int] == sign);
        assert((y + other)[x.len() as int] == y[x.len() as int]);
        assert(strings::is_digit(y[x.len() as int]));
    } else if y.len() < x.len() {
        assert((y + other)[y.len() as int] == sign);
        assert((x + rest)[y.len() as int] == x[y.len() as int]);
        assert(strings::is_digit(x[y.len() as int]));
    } else {
        assert forall|i: int| 0 <= i < x.len() implies x[i] == y[i] by {
            assert((x + rest)[i] == x[i]);
            assert((y + other)[i] == y[i]);
        }
        assert(x =~= y);
        strings::decimal_is_injective(a, b);
    }
}

// --- words -------------------------------------------------------------------

/// The word for a charge state.
pub open spec fn charge_word(state: ChargeState) -> Seq<char> {
    match state {
        ChargeState::Charging => "charging"@,
        ChargeState::Discharging => "discharging"@,
        ChargeState::Full => "full"@,
    }
}

/// The word for a kind of device.
pub open spec fn kind_word(kind: DeviceKind) -> Seq<char> {
    match kind {
        DeviceKind::Mouse => "mouse"@,
        DeviceKind::Keyboard => "keyboard"@,
        DeviceKind::Headset => "headset"@,
        DeviceKind::Controller => "controller"@,
        DeviceKind::Other => "other"@,
    }
}

/// The word for how a device is reached.
pub open spec fn transport_word(transport: Transport) -> Seq<char> {
    match transport {
        Transport::Sysfs => "sysfs"@,
        Transport::Bluetooth => "bluetooth"@,
        Transport::Hidraw => "hidraw"@,
    }
}

/// What the table says of a poll: the percent and the state of a reading, else
/// why there is none.
pub open spec fn told(outcome: PollOutcome) -> Seq<char> {
    match outcome {
        PollOutcome::Reading(r) => strings::decimal(r.percent as nat) + "%  "@ + charge_word(
            r.state,
        ),
        PollOutcome::Failed => "offline"@,
        PollOutcome::NoAccess => "no access"@,
    }
}

/// Whether `line` is a whole line that stands somewhere in `text`: what is before
/// it is nothing or ends a line.
pub open spec fn has_line(
    text: Seq<char>,
    before: Seq<char>,
    line: Seq<char>,
    after: Seq<char>,
) -> bool {
    &&& text == before + line + "\n"@ + after
    &&& before.len() == 0 || before.last() == '\n'
}

// --- the table ---------------------------------------------------------------

proof fn lines_end(rows: Seq<Row>, width: nat)
    ensures
        cli::table_lines(rows, width).len() == 0 || cli::table_lines(rows, width).last() == '\n',
{
    reveal_strlit("\n");
}

proof fn a_row_has_its_line(rows: Seq<Row>, width: nat, i: int) -> (r: (Seq<char>, Seq<char>))
    requires
        0 <= i < rows.len(),
    ensures
        has_line(
            cli::table_lines(rows, width),
            r.0,
            strings::padded(rows[i].0.name@, width) + "  "@ + told(rows[i].1),
            r.1,
        ),
    decreases rows.len(),
{
    let earlier = rows.drop_last();
    let line = strings::padded(rows[i].0.name@, width) + "  "@ + told(rows[i].1);
    if i == rows.len() - 1 {
        let before = cli::table_lines(earlier, width);
        lines_end(earlier, width);
        assert(cli::table_lines(rows, width) =~= before + line + "\n"@ + Seq::empty());
        (before, Seq::empty())
    } else {
        let (before, after) = a_row_has_its_line(earlier, width, i);
        let last = strings::padded(rows.last().0.name@, width) + "  "@ + cli::status_text(
            rows.last().1,
        ) + "\n"@;
        assert(earlier[i] == rows[i]);
        assert(cli::table_lines(rows, width) =~= before + line + "\n"@ + (after + last));
        (before, after + last)
    }
}

/// The table has a line for every device: its name, at least two spaces, then
/// the percent in decimal with a percent sign and the word for the charge state
/// of one that was read, and why there is no reading of one that was not.
pub proof fn a_line_tells_name_percent_and_state(rows: Seq<Row>, i: int) -> (r: (
    Seq<char>,
    nat,
    Seq<char>,
))
    requires
        0 <= i < rows.len(),
    ensures
        has_line(
            cli::table_text(rows),
            r.0,
            rows[i].0.name@ + strings::spaces(r.1) + told(rows[i].1),
            r.2,
        ),
        r.1 >= 2,
{
    let width = cli::widest(cli::row_names(rows), 0);
    let (before, after) = a_row_has_its_line(rows, width, i);
    let name = rows[i].0.name@;
    let gap = if name.len() >= width {
        2
    } else {
        (width - name.len() + 2) as nat
    };
    reveal_strlit("  ");
    assert(strings::padded(name, width) + "  "@ =~= name + strings::spaces(gap));
    assert(strings::padded(name, width) + "  "@ + told(rows[i].1) =~= name + strings::spaces(gap)
        + told(rows[i].1));
    (before, gap, after)
}

/// What the table says of two readings of different percent differs, and so do
/// the tables of one device that reads one or the other.
pub proof fn two_percentages_read_differently(row: Row, other: Row)
    requires
        row.0.name@ == other.0.name@,
        row.1 is Reading,
        other.1 is Reading,
        row.1->0.percent != other.1->0.percent,
    ensures
        cli::status_text(row.1) != cli::status_text(other.1),
        cli::table_text(seq![row]) != cli::table_text(seq![other]),
{
    let a = row.1->0;
    let b = other.1->0;
    reveal_strlit("%  ");
    let rest = "%  "@ + charge_word(a.state);
    let more = "%  "@ + charge_word(b.state);
    assert(cli::status_text(row.1) =~= strings::decimal(a.percent as nat) + rest);
    assert(cli::status_text(other.1) =~= strings::decimal(b.percent as nat) + more);
    if cli::status_text(row.1) == cli::status_text(other.1) {
        numbers_show(a.percent as nat, b.percent as nat, '%', rest, more);
    }
    let x = seq![row];
    let y = seq![other];
    assert(cli::row_names(x) =~= cli::row_names(y));
    let width = cli::widest(cli::row_names(x), 0);
    assert(x.drop_last() =~= Seq::empty());
    assert(y.drop_last() =~= Seq::empty());
    let lead = strings::padded(row.0.name@, width) + "  "@;
    assert(cli::table_lines(Seq::<Row>::empty(), width) =~= Seq::empty());
    reveal_strlit("\n");
    assert(cli::table_text(x) =~= lead + cli::status_text(row.1) + "\n"@);
    assert(cli::table_text(y) =~= lead + cli::status_text(other.1) + "\n"@);
    if cli::table_text(x) == cli::table_text(y) {
        let s = cli::status_text(row.1);
        let t = cli::status_text(other.1);
        assert(s.len() == t.len());
        assert forall|k: int| 0 <= k < s.len() implies s[k] == t[k] by {
            assert(cli::table_text(x)[lead.len() + k] == s[k]);
            assert(cli::table_text(y)[lead.len() + k] == t[k]);
        }
        assert(s =~= t);
    }
}

/// The second column of the table starts at the same place in every line: right
/// after the longest name and two spaces.
pub proof fn columns_line_up(rows: Seq<Row>, i: int)
    requires
        0 <= i < rows.len(),
    ensures
        strings::padded(rows[i].0.name@, cli::widest(cli::row_names(rows), 0)).len() == cli::widest(
            cli::row_names(rows),
            0,
        ),
        forall|k: int|
            0 <= k < rows.len() ==> (#[trigger] rows[k]).0.name@.len() <= cli::widest(
                cli::row_names(rows),
                0,
            ),
        exists|k: int|
            0 <= k < rows.len() && (#[trigger] rows[k]).0.name@.len() == cli::widest(
                cli::row_names(rows),
                0,
            ),
{
    let names = cli::row_names(rows);
    the_widest_is_the_longest(names, 0);
    assert forall|k: int| 0 <= k < rows.len() implies (#[trigger] rows[k]).0.name@.len()
        <= cli::widest(names, 0) by {
        assert(names[k] == rows[k].0.name@);
    }
    if cli::widest(names, 0) == 0 {
        assert(rows[i].0.name@.len() == 0);
    } else {
        let k = choose|k: int| 0 <= k < names.len() && (#[trigger] names[k]).len() == cli::widest(
            names,
            0,
        );
        assert(rows[k].0.name@.len() == cli::widest(names, 0));
    }
}

/// The widest is at least as wide as each, and as wide as one of them or as the
/// least that was asked for.
pub proof fn the_widest_is_the_longest(list: Seq<Seq<char>>, least: nat)
    ensures
        cli::widest(list, least) >= least,
        forall|k: int| 0 <= k < list.len() ==> (#[trigger] list[k]).len() <= cli::widest(list, least),
        cli::widest(list, least) == least || exists|k: int|
            0 <= k < list.len() && (#[trigger] list[k]).len() == cli::widest(list, least),
    decreases list.len(),
{
    if list.len() > 0 {
        let earlier = list.drop_last();
        the_widest_is_the_longest(earlier, least);
        assert forall|k: int| 0 <= k < list.len() implies (#[trigger] list[k]).len()
            <= cli::widest(list, least) by {
            if k < earlier.len() {
                assert(earlier[k] == list[k]);
            }
        }
        if list.last().len() > cli::widest(earlier, least) {
            assert(list[list.len() - 1].len() == cli::widest(list, least));
        } else if cli::widest(earlier, least) != least {
            let k = choose|k: int|
                0 <= k < earlier.len() && (#[trigger] earlier[k]).len() == cli::widest(
                    earlier,
                    least,
                );
            assert(list[k].len() == cli::widest(list, least));
        }
    }
}

// --- the wide table ----------------------------------------------------------

/// A wide line: six cells, each followed by as many spaces as `gaps` says.
pub open spec fn six_cells(cells: Seq<Seq<char>>, gaps: Seq<nat>) -> Seq<char> {
    cells[0] + strings::spaces(gaps[0]) + cells[1] + strings::spaces(gaps[1]) + cells[2]
        + strings::spaces(gaps[2]) + cells[3] + strings::spaces(gaps[3]) + cells[4]
        + strings::spaces(gaps[4]) + cells[5] + strings::spaces(gaps[5])
}

/// What the wide table tells of a device, in its order: name, kind, transport,
/// locator, percent and state, a dash for what there is none of.
pub open spec fn six_told(row: Row) -> Seq<Seq<char>> {
    seq![
        row.0.name@,
        kind_word(row.0.kind),
        transport_word(row.0.transport),
        if row.0.locator is Some {
            row.0.locator->0@
        } else {
            "-"@
        },
        if row.1 is Reading {
            strings::decimal(row.1->0.percent as nat) + "%"@
        } else {
            "-"@
        },
        match row.1 {
            PollOutcome::Reading(r) => charge_word(r.state),
            PollOutcome::Failed => "offline"@,
            PollOutcome::NoAccess => "no access"@,
        },
    ]
}

proof fn padding_is_spaces(cell: Seq<char>, width: nat) -> (gap: nat)
    ensures
        strings::padded(cell, width) == cell + strings::spaces(gap),
        width >= cell.len() ==> gap == width - cell.len(),
        width < cell.len() ==> gap == 0,
{
    let gap = if cell.len() >= width {
        0
    } else {
        (width - cell.len()) as nat
    };
    assert(strings::padded(cell, width) =~= cell + strings::spaces(gap));
    gap
}

proof fn six_are_joined(parts: Seq<Seq<char>>, sep: Seq<char>)
    requires
        parts.len() == 6,
    ensures
        strings::joined(parts, sep) == parts[0] + sep + parts[1] + sep + parts[2] + sep + parts[3]
            + sep + parts[4] + sep + parts[5],
{
    let p5 = parts.drop_last();
    let p4 = p5.drop_last();
    let p3 = p4.drop_last();
    let p2 = p3.drop_last();
    let p1 = p2.drop_last();
    assert(strings::joined(p1, sep) == parts[0]);
    assert(strings::joined(p2, sep) == parts[0] + sep + parts[1]);
    assert(strings::joined(p3, sep) == parts[0] + sep + parts[1] + sep + parts[2]);
    assert(strings::joined(p4, sep) == parts[0] + sep + parts[1] + sep + parts[2] + sep + parts[3]);
    assert(strings::joined(p5, sep) == parts[0] + sep + parts[1] + sep + parts[2] + sep + parts[3]
        + sep + parts[4]);
}

proof fn a_wide_line_has_its_cells(cells: Seq<Seq<char>>, widths: Seq<nat>) -> (gaps: Seq<nat>)
    requires
        cells.len() == 6,
        widths.len() == 6,
        forall|c: int| 0 <= c < 6 ==> (#[trigger] cells[c]).len() <= widths[c],
    ensures
        cli::wide_line(cells, widths) == six_cells(cells, gaps) + "\n"@,
        gaps.len() == 6,
        forall|c: int|
            0 <= c < 5 ==> (#[trigger] cells[c]).len() + gaps[c] == widths[c] + 2,
{
    let parts = Seq::new(6, |c: int| strings::padded(cells[c], widths[c]));
    six_are_joined(parts, "  "@);
    reveal_strlit("  ");
    let g0 = padding_is_spaces(cells[0], widths[0]);
    let g1 = padding_is_spaces(cells[1], widths[1]);
    let g2 = padding_is_spaces(cells[2], widths[2]);
    let g3 = padding_is_spaces(cells[3], widths[3]);
    let g4 = padding_is_spaces(cells[4], widths[4]);
    let g5 = padding_is_spaces(cells[5], widths[5]);
    let gaps = seq![g0 + 2, g1 + 2, g2 + 2, g3 + 2, g4 + 2, g5];
    assert(strings::joined(parts, "  "@) =~= six_cells(cells, gaps));
    gaps
}

proof fn cells_fit(rows: Seq<Row>, i: int, c: int)
    requires
        0 <= i < rows.len(),
        0 <= c < 6,
    ensures
        cli::cell_texts(rows[i])[c].len() <= cli::widths(rows)[c],
        cli::headers()[c].len() <= cli::widths(rows)[c],
{
    let column = cli::column(rows, c);
    the_widest_is_the_longest(column, cli::headers()[c].len());
    assert(column[i] == cli::cell_texts(rows[i])[c]);
}

proof fn wide_lines_end(rows: Seq<Row>, widths: Seq<nat>)
    ensures
        cli::wide_lines(rows, widths).len() == 0 || cli::wide_lines(rows, widths).last() == '\n',
{
    reveal_strlit("\n");
}

proof fn a_row_has_its_wide_line(rows: Seq<Row>, widths: Seq<nat>, i: int) -> (r: (
    Seq<char>,
    Seq<char>,
))
    requires
        0 <= i < rows.len(),
    ensures
        cli::wide_lines(rows, widths) == r.0 + cli::wide_line(cli::cell_texts(rows[i]), widths)
            + r.1,
        r.0.len() == 0 || r.0.last() == '\n',
    decreases rows.len(),
{
    let earlier = rows.drop_last();
    let line = cli::wide_line(cli::cell_texts(rows[i]), widths);
    if i == rows.len() - 1 {
        let before = cli::wide_lines(earlier, widths);
        wide_lines_end(earlier, widths);
        assert(cli::wide_lines(rows, widths) =~= before + line + Seq::empty());
        (before, Seq::empty())
    } else {
        let (before, after) = a_row_has_its_wide_line(earlier, widths, i);
        let last = cli::wide_line(cli::cell_texts(rows.last()), widths);
        assert(earlier[i] == rows[i]);
        assert(cli::wide_lines(rows, widths) =~= before + line + (after + last));
        (before, after + last)
    }
}

/// The wide table has a line for every device that tells its name, kind,
/// transport, locator, percent and state in this order, and each column is as
/// wide in every line.
pub proof fn a_wide_line_tells_everything(rows: Seq<Row>, i: int) -> (r: (
    Seq<char>,
    Seq<nat>,
    Seq<char>,
))
    requires
        0 <= i < rows.len(),
    ensures
        has_line(cli::wide_table_text(rows), r.0, six_cells(six_told(rows[i]), r.1), r.2),
        r.1.len() == 6,
        forall|c: int|
            0 <= c < 5 ==> (#[trigger] six_told(rows[i])[c]).len() + r.1[c] == cli::widths(rows)[c]
                + 2,
{
    let widths = cli::widths(rows);
    let cells = cli::cell_texts(rows[i]);
    assert forall|c: int| 0 <= c < 6 implies (#[trigger] cells[c]).len() <= widths[c] by {
        cells_fit(rows, i, c);
    }
    let gaps = a_wide_line_has_its_cells(cells, widths);
    assert(cells =~= six_told(rows[i]));
    let (before, after) = a_row_has_its_wide_line(rows, widths, i);
    let head = cli::wide_line(cli::headers(), widths);
    assert(head.last() == '\n') by {
        reveal_strlit("\n");
    }
    let text = cli::wide_table_text(rows);
    assert(text =~= (head + before) + six_cells(six_told(rows[i]), gaps) + "\n"@ + after);
    (head + before, gaps, after)
}

/// The wide table opens with its heads, over their columns.
pub proof fn the_wide_table_opens_with_its_heads(rows: Seq<Row>) -> (r: (Seq<nat>, Seq<char>))
    requires
        rows.len() > 0,
    ensures
        cli::wide_table_text(rows) == six_cells(
            seq!["NAME"@, "KIND"@, "TRANSPORT"@, "LOCATOR"@, "PERCENT"@, "STATE"@],
            r.0,
        ) + "\n"@ + r.1,
        r.0.len() == 6,
{
    let widths = cli::widths(rows);
    let cells = cli::headers();
    assert forall|c: int| 0 <= c < 6 implies (#[trigger] cells[c]).len() <= widths[c] by {
        cells_fit(rows, 0, c);
    }
    let gaps = a_wide_line_has_its_cells(cells, widths);
    let rest = cli::wide_lines(rows, widths);
    assert(cells =~= seq!["NAME"@, "KIND"@, "TRANSPORT"@, "LOCATOR"@, "PERCENT"@, "STATE"@]);
    (gaps, rest)
}

/// With no device there is one line, which says so.
pub proof fn no_device_is_said_so(rows: Seq<Row>)
    requires
        rows.len() == 0,
    ensures
        cli::table_text(rows) == "No devices found\n"@,
        cli::wide_table_text(rows) == "No devices found\n"@,
{
}

} // verus!
