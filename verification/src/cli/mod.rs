//! What the one-shot commands print.

pub mod json;
pub mod waybar;

use crate::app::manager::PollFailure;
use crate::cli::json::{Json, JsonObject, JsonValue};
use crate::domain::roster;
use crate::domain::text;
use crate::domain::types::{self, BatteryReading, DeviceInfo, PollOutcome};
use crate::strings;
use vstd::prelude::*;
use vstd::string::*;

verus! {

/// One device and what its poll brought.
pub type Row = (DeviceInfo, PollOutcome);

// --- rows --------------------------------------------------------------------

/// What a one-shot poll amounts to. `None` is a poll that never finished.
pub fn poll_outcome(polled: Option<Result<BatteryReading, PollFailure>>) -> (r: PollOutcome)
    ensures
        r == match polled {
            Some(Ok(reading)) => PollOutcome::Reading(reading),
            Some(Err(PollFailure::AccessDenied)) => PollOutcome::NoAccess,
            Some(Err(_)) | None => PollOutcome::Failed,
        },
{
    match polled {
        Some(Ok(reading)) => PollOutcome::Reading(reading),
        Some(Err(PollFailure::AccessDenied)) => PollOutcome::NoAccess,
        Some(Err(_)) | None => PollOutcome::Failed,
    }
}

/// The sort keys that order rows by name alone.
pub open spec fn name_keys(rows: Seq<Row>) -> Seq<(bool, Seq<char>)> {
    rows.map_values(|r: Row| (false, r.0.name@))
}

/// Whether `list` are the rows in the order of their names, rows of the same
/// name in the order they came.
pub open spec fn is_sorted(rows: Seq<Row>, list: Seq<Row>) -> bool {
    exists|p: Seq<usize>| #[trigger] is_sorted_by(rows, list, p)
}

/// As `is_sorted`, where place `i` of the list is row `p[i]`.
pub open spec fn is_sorted_by(rows: Seq<Row>, list: Seq<Row>, p: Seq<usize>) -> bool {
    &&& roster::is_roster_order(name_keys(rows), Seq::new(rows.len(), |i: int| true), p)
    &&& list == p.map_values(|k: usize| rows[k as int])
}

/// Sorts rows by device name, for stable output whatever order the polls
/// finished in.
pub fn sort_rows(rows: &Vec<Row>) -> (list: Vec<Row>)
    ensures
        is_sorted(rows@, list@),
{
    let mut keys: Vec<(bool, String)> = Vec::new();
    let mut keep: Vec<bool> = Vec::new();
    let mut i: usize = 0;
    while i < rows.len()
        invariant
            i <= rows@.len(),
            keys@.len() == i,
            keep@.len() == i,
            roster::key_texts(keys@) == name_keys(rows@).take(i as int),
            forall|k: int| 0 <= k < i ==> #[trigger] keep@[k],
        decreases rows@.len() - i,
    {
        keys.push((false, rows[i].0.name.clone()));
        keep.push(true);
        assert(roster::key_texts(keys@) =~= name_keys(rows@).take(i + 1));
        i += 1;
    }
    assert(name_keys(rows@).take(i as int) =~= name_keys(rows@));
    assert(keep@ =~= Seq::new(rows@.len(), |i: int| true));
    let p = roster::order_kept(&keys, &keep);
    let mut list: Vec<Row> = Vec::new();
    let mut j: usize = 0;
    while j < p.len()
        invariant
            j <= p@.len(),
            forall|k: int| 0 <= k < p@.len() ==> (#[trigger] p@[k]) < rows@.len(),
            list@.len() == j,
            forall|k: int| 0 <= k < j ==> #[trigger] list@[k] == rows@[p@[k] as int],
        decreases p@.len() - j,
    {
        let row = &rows[p[j]];
        list.push((row.0.clone(), row.1));
        j += 1;
    }
    assert(list@ =~= p@.map_values(|k: usize| rows@[k as int]));
    assert(is_sorted_by(rows@, list@, p@));
    list
}

// --- words -------------------------------------------------------------------

/// The STATE column's word.
pub open spec fn outcome_word(outcome: PollOutcome) -> Seq<char> {
    match outcome {
        PollOutcome::Reading(r) => text::state_word(r.state),
        PollOutcome::Failed => "offline"@,
        PollOutcome::NoAccess => "no access"@,
    }
}

/// STATE column word; never translated, like `state_str`.
pub fn state_word(outcome: PollOutcome) -> (r: &'static str)
    ensures
        r@ == outcome_word(outcome),
{
    match outcome {
        PollOutcome::Reading(r) => text::state_str(r.state),
        PollOutcome::Failed => "offline",
        PollOutcome::NoAccess => "no access",
    }
}

// --- JSON --------------------------------------------------------------------

/// One row as a JSON object: its keys are part of the `--json` contract.
/// `coarse` is there only where the reading is.
pub open spec fn row_fields(row: Row) -> Seq<(Seq<char>, Json)> {
    let reading = match row.1 {
        PollOutcome::Reading(r) => Some(r),
        _ => None,
    };
    let fields = seq![
        ("name"@, Json::Text(row.0.name@)),
        ("kind"@, Json::Text(row.0.kind.spelling())),
        ("transport"@, Json::Text(row.0.transport.spelling())),
        (
            "locator"@,
            match row.0.locator {
                Some(l) => Json::Text(l@),
                None => Json::Null,
            },
        ),
        ("online"@, Json::Bool(reading is Some)),
        ("presence"@, Json::Text(row.1.shown_presence().spelling())),
        (
            "percent"@,
            match reading {
                Some(r) => Json::Number(r.percent as nat),
                None => Json::Null,
            },
        ),
        (
            "state"@,
            match reading {
                Some(r) => Json::Text(text::state_word(r.state)),
                None => Json::Null,
            },
        ),
    ];
    if reading is Some && reading->0.coarse {
        fields.push(("coarse"@, Json::Bool(true)))
    } else {
        fields
    }
}

fn row_object(row: &Row) -> (o: JsonObject)
    ensures
        o@ == row_fields(*row),
{
    let reading = row.1.reading();
    let mut o = JsonObject::new();
    o.put("name", JsonValue::Text(row.0.name.clone()));
    o.put("kind", JsonValue::Text(row.0.kind.as_str().to_owned()));
    o.put("transport", JsonValue::Text(row.0.transport.as_str().to_owned()));
    o.put(
        "locator",
        match &row.0.locator {
            Some(l) => JsonValue::Text(l.clone()),
            None => JsonValue::Null,
        },
    );
    o.put("online", JsonValue::Bool(reading.is_some()));
    o.put("presence", JsonValue::Text(row.1.presence().as_str().to_owned()));
    match reading {
        Some(r) => {
            o.put("percent", JsonValue::Number(r.percent as u64));
            o.put("state", JsonValue::Text(text::state_str(r.state).to_owned()));
            if r.coarse {
                o.put("coarse", JsonValue::Bool(true));
            }
        },
        None => {
            o.put("percent", JsonValue::Null);
            o.put("state", JsonValue::Null);
        },
    }
    assert(o@ =~= row_fields(*row));
    o
}

/// The rows as JSON objects.
pub fn to_json(rows: &[Row]) -> (objects: Vec<JsonObject>)
    ensures
        json::object_texts(objects@) == rows@.map_values(|r: Row| row_fields(r)),
{
    let mut objects: Vec<JsonObject> = Vec::new();
    let mut i: usize = 0;
    while i < rows.len()
        invariant
            i <= rows@.len(),
            objects@.len() == i,
            forall|k: int| 0 <= k < i ==> (#[trigger] objects@[k])@ == row_fields(rows@[k]),
        decreases rows@.len() - i,
    {
        objects.push(row_object(&rows[i]));
        i += 1;
    }
    assert(json::object_texts(objects@) =~= rows@.map_values(|r: Row| row_fields(r)));
    objects
}

/// What `--json` prints: the rows as an indented JSON array, or an empty array
/// where that cannot be written.
pub fn print_json(rows: &[Row]) -> (out: String)
    ensures
        out@ == match json::pretty_json(rows@.map_values(|r: Row| row_fields(r))) {
            Some(t) => t,
            None => "[]"@,
        },
{
    let objects = to_json(rows);
    json::text_or(json::pretty_text(&objects), "[]")
}

// --- tables ------------------------------------------------------------------

/// The length of the longest text, at least `least`.
pub open spec fn widest(list: Seq<Seq<char>>, least: nat) -> nat
    decreases list.len(),
{
    if list.len() == 0 {
        least
    } else {
        let before = widest(list.drop_last(), least);
        if list.last().len() > before {
            list.last().len()
        } else {
            before
        }
    }
}

fn widest_of(list: &Vec<String>, least: usize) -> (n: usize)
    ensures
        n == widest(strings::texts(list@), least as nat),
{
    let ghost all = strings::texts(list@);
    let mut n: usize = least;
    let mut i: usize = 0;
    while i < list.len()
        invariant
            all == strings::texts(list@),
            i <= list@.len(),
            n == widest(all.take(i as int), least as nat),
        decreases list@.len() - i,
    {
        assert(all.take(i + 1).drop_last() == all.take(i as int));
        assert(all.take(i + 1).last() == list@[i as int]@);
        let w: usize = strings::width(list[i].as_str());
        if w > n {
            n = w;
        }
        i += 1;
    }
    assert(all.take(i as int) == all);
    n
}

/// What a row's second column says.
pub open spec fn status_text(outcome: PollOutcome) -> Seq<char> {
    match outcome {
        PollOutcome::Reading(r) => strings::decimal(r.percent as nat) + "%  "@ + text::state_word(
            r.state,
        ),
        _ => outcome_word(outcome),
    }
}

/// The names of the rows.
pub open spec fn row_names(rows: Seq<Row>) -> Seq<Seq<char>> {
    rows.map_values(|r: Row| r.0.name@)
}

/// The table's lines for these rows, the first column `width` characters wide.
pub open spec fn table_lines(rows: Seq<Row>, width: nat) -> Seq<char>
    decreases rows.len(),
{
    if rows.len() == 0 {
        Seq::empty()
    } else {
        table_lines(rows.drop_last(), width) + strings::padded(rows.last().0.name@, width) + "  "@
            + status_text(rows.last().1) + "\n"@
    }
}

/// The table: one line per row, the second column aligned.
pub open spec fn table_text(rows: Seq<Row>) -> Seq<char> {
    if rows.len() == 0 {
        "No devices found\n"@
    } else {
        table_lines(rows, widest(row_names(rows), 0))
    }
}

fn status_of(outcome: PollOutcome) -> (r: String)
    ensures
        r@ == status_text(outcome),
{
    match outcome {
        PollOutcome::Reading(reading) => {
            let mut r = strings::decimal_text(reading.percent as u64);
            r.append("%  ");
            r.append(text::state_str(reading.state));
            r
        },
        _ => state_word(outcome).to_owned(),
    }
}

fn names_of(rows: &[Row]) -> (names: Vec<String>)
    ensures
        strings::texts(names@) == row_names(rows@),
{
    let mut names: Vec<String> = Vec::new();
    let mut i: usize = 0;
    while i < rows.len()
        invariant
            i <= rows@.len(),
            names@.len() == i,
            forall|k: int| 0 <= k < i ==> (#[trigger] names@[k])@ == rows@[k].0.name@,
        decreases rows@.len() - i,
    {
        names.push(rows[i].0.name.clone());
        i += 1;
    }
    assert(strings::texts(names@) =~= row_names(rows@));
    names
}

/// What `list` prints. Columns are aligned by characters, not bytes: names come
/// from the hardware and can be non-ASCII.
pub fn print_table(rows: &[Row]) -> (out: String)
    ensures
        out@ == table_text(rows@),
{
    if rows.len() == 0 {
        return "No devices found\n".to_owned();
    }
    let names = names_of(rows);
    let width: usize = widest_of(&names, 0);
    let mut out = String::new();
    let mut i: usize = 0;
    assert(out@ == table_lines(rows@.take(0), width as nat));
    while i < rows.len()
        invariant
            i <= rows@.len(),
            out@ == table_lines(rows@.take(i as int), width as nat),
        decreases rows@.len() - i,
    {
        assert(rows@.take(i + 1).drop_last() == rows@.take(i as int));
        assert(rows@.take(i + 1).last() == rows@[i as int]);
        out.append(strings::pad(rows[i].0.name.as_str(), width).as_str());
        out.append("  ");
        out.append(status_of(rows[i].1).as_str());
        out.append("\n");
        i += 1;
    }
    assert(rows@.take(i as int) == rows@);
    out
}

/// The wide table's column heads.
pub open spec fn headers() -> Seq<Seq<char>> {
    seq!["NAME"@, "KIND"@, "TRANSPORT"@, "LOCATOR"@, "PERCENT"@, "STATE"@]
}

/// A row's cells in the wide table.
pub open spec fn cell_texts(row: Row) -> Seq<Seq<char>> {
    seq![
        row.0.name@,
        row.0.kind.spelling(),
        row.0.transport.spelling(),
        match row.0.locator {
            Some(l) => l@,
            None => "-"@,
        },
        match row.1 {
            PollOutcome::Reading(r) => strings::decimal(r.percent as nat) + "%"@,
            _ => "-"@,
        },
        outcome_word(row.1),
    ]
}

/// One column's cells.
pub open spec fn column(rows: Seq<Row>, c: int) -> Seq<Seq<char>> {
    rows.map_values(|r: Row| cell_texts(r)[c])
}

/// How wide a column is: as wide as its head and its widest cell.
pub open spec fn column_width(rows: Seq<Row>, c: int) -> nat {
    widest(column(rows, c), headers()[c].len())
}

/// The widths of all columns.
pub open spec fn widths(rows: Seq<Row>) -> Seq<nat> {
    Seq::new(6, |c: int| column_width(rows, c))
}

/// Cells on one line, each padded to its column.
pub open spec fn wide_line(cells: Seq<Seq<char>>, widths: Seq<nat>) -> Seq<char> {
    strings::joined(
        Seq::new(6, |c: int| strings::padded(cells[c], widths[c])),
        "  "@,
    ) + "\n"@
}

/// The wide table's lines for these rows.
pub open spec fn wide_lines(rows: Seq<Row>, widths: Seq<nat>) -> Seq<char>
    decreases rows.len(),
{
    if rows.len() == 0 {
        Seq::empty()
    } else {
        wide_lines(rows.drop_last(), widths) + wide_line(cell_texts(rows.last()), widths)
    }
}

/// The wide table: its heads, then one line per row, every column aligned.
pub open spec fn wide_table_text(rows: Seq<Row>) -> Seq<char> {
    if rows.len() == 0 {
        "No devices found\n"@
    } else {
        wide_line(headers(), widths(rows)) + wide_lines(rows, widths(rows))
    }
}

fn header_cells() -> (r: Vec<String>)
    ensures
        strings::texts(r@) == headers(),
{
    let mut r: Vec<String> = Vec::new();
    r.push("NAME".to_owned());
    r.push("KIND".to_owned());
    r.push("TRANSPORT".to_owned());
    r.push("LOCATOR".to_owned());
    r.push("PERCENT".to_owned());
    r.push("STATE".to_owned());
    assert(strings::texts(r@) =~= headers());
    r
}

fn cells_of(row: &Row) -> (r: Vec<String>)
    ensures
        strings::texts(r@) == cell_texts(*row),
{
    let mut r: Vec<String> = Vec::new();
    r.push(row.0.name.clone());
    r.push(row.0.kind.as_str().to_owned());
    r.push(row.0.transport.as_str().to_owned());
    r.push(
        match &row.0.locator {
            Some(l) => l.clone(),
            None => "-".to_owned(),
        },
    );
    r.push(
        match row.1.reading() {
            Some(reading) => {
                let mut percent = strings::decimal_text(reading.percent as u64);
                percent.append("%");
                percent
            },
            None => "-".to_owned(),
        },
    );
    r.push(state_word(row.1).to_owned());
    assert(strings::texts(r@) =~= cell_texts(*row));
    r
}

fn column_of(rows: &[Row], c: usize) -> (r: Vec<String>)
    requires
        c < 6,
    ensures
        strings::texts(r@) == column(rows@, c as int),
{
    let mut r: Vec<String> = Vec::new();
    let mut i: usize = 0;
    while i < rows.len()
        invariant
            c < 6,
            i <= rows@.len(),
            r@.len() == i,
            forall|k: int| 0 <= k < i ==> (#[trigger] r@[k])@ == cell_texts(rows@[k])[c as int],
        decreases rows@.len() - i,
    {
        let cells = cells_of(&rows[i]);
        assert(strings::texts(cells@).len() == 6);
        assert(strings::texts(cells@)[c as int] == cells@[c as int]@);
        r.push(cells[c].clone());
        i += 1;
    }
    assert(strings::texts(r@) =~= column(rows@, c as int));
    r
}

/// The numbers of a list.
spec fn numbers(list: Seq<usize>) -> Seq<nat> {
    list.map_values(|n: usize| n as nat)
}

fn line_of(cells: &Vec<String>, widths: &Vec<usize>) -> (r: String)
    requires
        cells@.len() == 6,
        widths@.len() == 6,
    ensures
        r@ == wide_line(strings::texts(cells@), numbers(widths@)),
{
    let ghost texts = strings::texts(cells@);
    let ghost sizes = numbers(widths@);
    let mut padded: Vec<String> = Vec::new();
    let mut c: usize = 0;
    while c < 6
        invariant
            cells@.len() == 6,
            widths@.len() == 6,
            texts == strings::texts(cells@),
            sizes == numbers(widths@),
            c <= 6,
            padded@.len() == c,
            forall|k: int|
                0 <= k < c ==> (#[trigger] padded@[k])@ == strings::padded(texts[k], sizes[k]),
        decreases 6 - c,
    {
        padded.push(strings::pad(cells[c].as_str(), widths[c]));
        c += 1;
    }
    assert(strings::texts(padded@) =~= Seq::new(
        6,
        |c: int| strings::padded(texts[c], sizes[c]),
    ));
    let mut r = strings::join(&padded, "  ");
    r.append("\n");
    r
}

/// What `list --wide` prints.
pub fn print_table_wide(rows: &[Row]) -> (out: String)
    ensures
        out@ == wide_table_text(rows@),
{
    if rows.len() == 0 {
        return "No devices found\n".to_owned();
    }
    let heads = header_cells();
    let mut sizes: Vec<usize> = Vec::new();
    let mut c: usize = 0;
    assert(heads@.len() == headers().len());
    while c < 6
        invariant
            strings::texts(heads@) == headers(),
            heads@.len() == 6,
            c <= 6,
            sizes@.len() == c,
            forall|k: int| 0 <= k < c ==> (#[trigger] sizes@[k]) == column_width(rows@, k),
        decreases 6 - c,
    {
        let cells = column_of(rows, c);
        assert(strings::texts(heads@)[c as int] == heads@[c as int]@);
        sizes.push(widest_of(&cells, strings::width(heads[c].as_str())));
        c += 1;
    }
    assert(numbers(sizes@) =~= widths(rows@));
    let mut out = line_of(&heads, &sizes);
    let ghost head = out@;
    let mut i: usize = 0;
    assert(head + wide_lines(rows@.take(0), widths(rows@)) =~= head);
    while i < rows.len()
        invariant
            sizes@.len() == 6,
            numbers(sizes@) == widths(rows@),
            i <= rows@.len(),
            out@ == head + wide_lines(rows@.take(i as int), widths(rows@)),
        decreases rows@.len() - i,
    {
        assert(rows@.take(i + 1).drop_last() == rows@.take(i as int));
        assert(rows@.take(i + 1).last() == rows@[i as int]);
        let cells = cells_of(&rows[i]);
        assert(cells@.len() == cell_texts(rows@[i as int]).len());
        let line = line_of(&cells, &sizes);
        out.append(line.as_str());
        assert(out@ =~= head + wide_lines(rows@.take(i + 1), widths(rows@)));
        i += 1;
    }
    assert(rows@.take(i as int) == rows@);
    out
}

// --- laws --------------------------------------------------------------------

/// Every column is at least as wide as its head and each of its cells, so no
/// cell runs into the next.
pub proof fn columns_are_wide_enough(rows: Seq<Row>, i: int, c: int)
    requires
        0 <= i < rows.len(),
        0 <= c < 6,
    ensures
        cell_texts(rows[i])[c].len() <= widths(rows)[c],
        headers()[c].len() <= widths(rows)[c],
{
    widest_bounds(column(rows, c), headers()[c].len(), i);
    assert(column(rows, c)[i] == cell_texts(rows[i])[c]);
}

proof fn widest_bounds(list: Seq<Seq<char>>, least: nat, i: int)
    requires
        0 <= i < list.len(),
    ensures
        list[i].len() <= widest(list, least),
        least <= widest(list, least),
    decreases list.len(),
{
    if i < list.len() - 1 {
        widest_bounds(list.drop_last(), least, i);
    } else if list.len() > 1 {
        widest_bounds(list.drop_last(), least, 0);
    }
}

/// Without a reading there is no percentage and no state, and with one there
/// are both.
pub proof fn only_a_reading_has_numbers(row: Row)
    ensures
        (row_fields(row)[6].1 is Null) == !(row.1 is Reading),
        (row_fields(row)[7].1 is Null) == !(row.1 is Reading),
        row_fields(row)[4].1 == Json::Bool(row.1 is Reading),
{
}

} // verus!
