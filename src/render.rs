use vstd::prelude::*;
use vstd::string::StringExecFns;
use crate::forecast::{
    ForecastTime, MeasuredValue, NamedValue, ForecastEntry, lookup, upcoming, select_upcoming, lemma_select_upcoming,
};
use crate::table::{
    padded_left, padded_right, join, texts, gutter, time_label, pad_left, pad_right, join_cells,
    format_time,
};
use crate::weather_code::{description_of, get_description};
use crate::clock::local_now;

verus! {

/// Which columns the table shows.
#[derive(Clone, Copy, Debug, PartialEq, Eq, Structural)]
pub enum DisplayMode {
    /// Date, temperature, humidity, precipitation probability and amount.
    Basic,
    /// The basic columns and a description of the weather code.
    Described,
}

/// Why an entry cannot be rendered.
#[derive(Clone, Debug, PartialEq)]
pub enum RenderError {
    /// The entry holds no value under this name.
    MissingField(String),
    /// The value under this name lacks its unit, or is not a weather code.
    MalformedValue(String),
}

/// A rendering failure, as the name it concerns.
pub enum Fault {
    MissingField(Seq<char>),
    MalformedValue(Seq<char>),
}

impl View for RenderError {
    type V = Fault;

    open spec fn view(&self) -> Fault {
        match self {
            RenderError::MissingField(n) => Fault::MissingField(n@),
            RenderError::MalformedValue(n) => Fault::MalformedValue(n@),
        }
    }
}

/// A rendered line, or the failure, as characters.
pub open spec fn line_result(r: Result<String, RenderError>) -> Result<Seq<char>, Fault> {
    match r {
        Ok(s) => Ok(s@),
        Err(e) => Err(e@),
    }
}

/// Rendered lines, or the failure, as characters.
pub open spec fn lines_result(r: Result<Vec<String>, RenderError>) -> Result<Seq<Seq<char>>, Fault> {
    match r {
        Ok(v) => Ok(texts(v@)),
        Err(e) => Err(e@),
    }
}

// ---------------------------------------------------------------------------
// Field names
// ---------------------------------------------------------------------------

/// The hourly values that a mode reads, in column order.
pub open spec fn field_names(mode: DisplayMode) -> Seq<Seq<char>> {
    let basic = seq![
        "temperature_2m"@,
        "relativehumidity_2m"@,
        "precipitation_probability"@,
        "precipitation"@,
    ];
    match mode {
        DisplayMode::Basic => basic,
        DisplayMode::Described => basic.push("weathercode"@),
    }
}

/// The hourly values that a mode reads, in column order; these are the
/// values to request from the provider.
pub fn hourly_fields(mode: DisplayMode) -> (r: Vec<String>)
    ensures
        texts(r@) == field_names(mode),
{
    let mut r: Vec<String> = Vec::new();
    r.push(String::from_str("temperature_2m"));
    r.push(String::from_str("relativehumidity_2m"));
    r.push(String::from_str("precipitation_probability"));
    r.push(String::from_str("precipitation"));
    if mode == DisplayMode::Described {
        r.push(String::from_str("weathercode"));
    }
    assert(texts(r@) =~= field_names(mode));
    r
}

// ---------------------------------------------------------------------------
// Field extraction
// ---------------------------------------------------------------------------

/// The first of `names[from..]` under which `values` holds nothing.
pub open spec fn first_missing(values: Seq<NamedValue>, names: Seq<Seq<char>>, from: int) -> Option<Seq<char>>
    decreases names.len() - from,
{
    if from < 0 || from >= names.len() {
        None
    } else if lookup(values, names[from]) is None {
        Some(names[from])
    } else {
        first_missing(values, names, from + 1)
    }
}

/// Looks up each name in order. Fails with `MissingField` on the first name
/// under which the entry holds nothing; no default is put in its place.
pub fn extract(entry: &ForecastEntry, names: &Vec<String>) -> (r: Result<Vec<NamedValue>, RenderError>)
    ensures
        r is Ok <==> first_missing(entry.values@, texts(names@), 0) is None,
        r matches Ok(rs) ==> rs@.len() == names@.len() && forall|i: int| 0 <= i < rs@.len() ==> {
            &&& #[trigger] rs@[i].name@ == names@[i]@
            &&& lookup(entry.values@, names@[i]@) == Some(rs@[i].value)
        },
        r matches Err(e) ==> Some(e@->MissingField_0) == first_missing(entry.values@, texts(names@), 0)
            && e is MissingField,
{
    let mut out: Vec<NamedValue> = Vec::new();
    let mut i: usize = 0;
    while i < names.len()
        invariant
            i <= names@.len(),
            first_missing(entry.values@, texts(names@), 0) == first_missing(entry.values@, texts(names@), i as int),
            out@.len() == i,
            forall|j: int| 0 <= j < i ==> {
                &&& #[trigger] out@[j].name@ == names@[j]@
                &&& lookup(entry.values@, names@[j]@) == Some(out@[j].value)
            },
        decreases names@.len() - i,
    {
        match entry.get(&names[i]) {
            Some(v) => {
                out.push(NamedValue { name: names[i].clone(), value: v.duplicate() });
            },
            None => {
                return Err(RenderError::MissingField(names[i].clone()));
            },
        }
        i = i + 1;
    }
    Ok(out)
}

// ---------------------------------------------------------------------------
// Header and rows
// ---------------------------------------------------------------------------

/// The header cells of a mode.
pub open spec fn header_cells(mode: DisplayMode) -> Seq<Seq<char>> {
    let basic = seq![
        padded_right("Date"@, 11),
        padded_right("Temperat"@, 8),
        padded_right("Humi%"@, 5),
        padded_right("Prec%"@, 5),
        padded_right("Precipi"@, 7),
    ];
    match mode {
        DisplayMode::Basic => basic,
        DisplayMode::Described => basic.push("Description"@),
    }
}

/// The header line of a mode.
pub open spec fn header_text(mode: DisplayMode) -> Seq<char> {
    join(header_cells(mode), gutter())
}

/// The header line: the column titles left-justified in their widths, three
/// spaces apart; the description title comes last and unpadded.
pub fn render_header(mode: DisplayMode) -> (r: String)
    ensures
        r@ == header_text(mode),
{
    let mut cells: Vec<String> = Vec::new();
    cells.push(pad_right("Date", 11));
    cells.push(pad_right("Temperat", 8));
    cells.push(pad_right("Humi%", 5));
    cells.push(pad_right("Prec%", 5));
    cells.push(pad_right("Precipi", 7));
    if mode == DisplayMode::Described {
        cells.push(String::from_str("Description"));
    }
    assert(texts(cells@) =~= header_cells(mode));
    join_cells(&cells, "   ")
}

/// The width in which the value of measured column `i` is right-justified.
pub open spec fn value_width(i: int) -> nat {
    if i == 0 { 5 } else if i == 1 { 3 } else if i == 2 { 3 } else { 4 }
}

fn column_width(i: usize) -> (r: usize)
    ensures
        r as nat == value_width(i as int),
{
    if i == 0 { 5 } else if i == 1 { 3 } else if i == 2 { 3 } else { 4 }
}

/// The unit's characters, empty where the unit is absent.
pub open spec fn unit_text(v: MeasuredValue) -> Seq<char> {
    match v.unit {
        Some(u) => u@,
        None => Seq::empty(),
    }
}

/// A measured cell: the value right-justified in `width`, a space, the unit.
pub open spec fn value_cell(v: MeasuredValue, width: nat) -> Seq<char> {
    padded_left(v.text@, width) + " "@ + unit_text(v)
}

/// The cells of a row: time label, one cell per measured value, and the
/// description behind a space where there is one.
pub open spec fn row_cells(t: ForecastTime, values: Seq<MeasuredValue>, description: Option<Seq<char>>) -> Seq<Seq<char>> {
    let measured = seq![time_label(t)] + Seq::new(values.len(), |i: int| value_cell(values[i], value_width(i)));
    match description {
        Some(d) => measured.push(" "@ + d),
        None => measured,
    }
}

/// The first of `names[from..]` whose value in `values` has no unit.
pub open spec fn first_without_unit(names: Seq<Seq<char>>, values: Seq<MeasuredValue>, from: int) -> Option<Seq<char>>
    decreases values.len() - from,
{
    if from < 0 || from >= values.len() {
        None
    } else if values[from].unit is None {
        Some(names[from])
    } else {
        first_without_unit(names, values, from + 1)
    }
}

/// A row, or the name of the first measured value without a unit.
pub open spec fn row_text(
    t: ForecastTime,
    names: Seq<Seq<char>>,
    values: Seq<MeasuredValue>,
    description: Option<Seq<char>>,
) -> Result<Seq<char>, Fault> {
    match first_without_unit(names, values, 0) {
        Some(n) => Err(Fault::MalformedValue(n)),
        None => Ok(join(row_cells(t, values, description), gutter())),
    }
}

/// The names of the readings.
pub open spec fn reading_names(rs: Seq<NamedValue>) -> Seq<Seq<char>> {
    rs.map_values(|r: NamedValue| r.name@)
}

/// The values of the readings.
pub open spec fn reading_values(rs: Seq<NamedValue>) -> Seq<MeasuredValue> {
    rs.map_values(|r: NamedValue| r.value)
}

/// One table row from the four measured readings (temperature, humidity,
/// precipitation probability, precipitation) and an optional description.
/// Fails with `MalformedValue` on the first reading without a unit.
pub fn render_row(time: &ForecastTime, readings: &Vec<NamedValue>, description: Option<&str>) -> (r: Result<String, RenderError>)
    requires
        time.wf(),
        readings@.len() == 4,
    ensures
        line_result(r) == row_text(
            *time,
            reading_names(readings@),
            reading_values(readings@),
            match description {
                Some(d) => Some(d@),
                None => None,
            },
        ),
{
    let ghost names = reading_names(readings@);
    let ghost values = reading_values(readings@);
    let mut cells: Vec<String> = Vec::new();
    cells.push(format_time(time));
    let mut i: usize = 0;
    while i < readings.len()
        invariant
            i <= readings@.len() == 4,
            names == reading_names(readings@),
            values == reading_values(readings@),
            first_without_unit(names, values, 0) == first_without_unit(names, values, i as int),
            texts(cells@) == seq![time_label(*time)] + Seq::new(i as nat, |j: int| value_cell(values[j], value_width(j))),
        decreases readings@.len() - i,
    {
        let rd = &readings[i];
        match &rd.value.unit {
            None => {
                return Err(RenderError::MalformedValue(rd.name.clone()));
            },
            Some(u) => {
                let mut c = pad_left(rd.value.text.as_str(), column_width(i));
                c.append(" ");
                c.append(u.as_str());
                let ghost before = texts(cells@);
                cells.push(c);
                proof {
                    assert(texts(cells@) =~= before.push(c@));
                    assert(Seq::new((i + 1) as nat, |j: int| value_cell(values[j], value_width(j)))
                        =~= Seq::new(i as nat, |j: int| value_cell(values[j], value_width(j))).push(c@));
                }
            },
        }
        i = i + 1;
    }
    let ghost measured = texts(cells@);
    match description {
        Some(d) => {
            let mut c = String::from_str(" ");
            c.append(d);
            cells.push(c);
            assert(texts(cells@) =~= measured.push(c@));
        },
        None => {},
    }
    assert(texts(cells@) =~= row_cells(*time, values, match description {
        Some(d) => Some(d@),
        None => None,
    }));
    Ok(join_cells(&cells, "   "))
}

// ---------------------------------------------------------------------------
// Entries and the table
// ---------------------------------------------------------------------------

/// The row of an entry in a mode, or why it cannot be rendered: a missing
/// field comes first, then a weather code that is not an unsigned integer,
/// then a measured value without its unit.
pub open spec fn entry_text(entry: ForecastEntry, mode: DisplayMode) -> Result<Seq<char>, Fault> {
    let names = field_names(mode);
    match first_missing(entry.values@, names, 0) {
        Some(n) => Err(Fault::MissingField(n)),
        None => {
            let values = Seq::new(names.len(), |i: int| lookup(entry.values@, names[i])->Some_0);
            if mode == DisplayMode::Described && values[4].whole is None {
                Err(Fault::MalformedValue(names[4]))
            } else {
                let description = if mode == DisplayMode::Described {
                    Some(description_of(values[4].whole->Some_0))
                } else {
                    None
                };
                row_text(entry.time, names.take(4), values.take(4), description)
            }
        },
    }
}

/// The row of one entry in a mode.
pub fn render_entry(entry: &ForecastEntry, mode: DisplayMode) -> (r: Result<String, RenderError>)
    requires
        entry.time.wf(),
    ensures
        line_result(r) == entry_text(*entry, mode),
{
    let names = hourly_fields(mode);
    let mut readings = match extract(entry, &names) {
        Ok(rs) => rs,
        Err(e) => {
            return Err(e);
        },
    };
    let ghost all = readings@;
    let ghost values = Seq::new(
        field_names(mode).len(),
        |i: int| lookup(entry.values@, field_names(mode)[i])->Some_0,
    );
    assert forall|i: int| 0 <= i < all.len() implies #[trigger] all[i].value == values[i] by {
        assert(all[i].name@ == names@[i]@);
        assert(texts(names@)[i] == names@[i]@);
        assert(field_names(mode)[i] == names@[i]@);
    }
    assert(reading_values(all) =~= values);
    assert(reading_names(all) =~= field_names(mode));
    let description = if mode == DisplayMode::Described {
        let code = readings.pop();
        assert(readings@ == all.take(4));
        match code {
            Some(wc) => match wc.value.whole {
                Some(c) => Some(get_description(c)),
                None => {
                    return Err(RenderError::MalformedValue(wc.name));
                },
            },
            None => None,
        }
    } else {
        assert(readings@ == all.take(4));
        None
    };
    assert(reading_values(readings@) =~= values.take(4));
    assert(reading_names(readings@) =~= field_names(mode).take(4));
    render_row(&entry.time, &readings, description)
}

/// The rows of the entries in order, or the failure of the first entry that
/// cannot be rendered.
pub open spec fn rows_text(entries: Seq<ForecastEntry>, mode: DisplayMode) -> Result<Seq<Seq<char>>, Fault>
    decreases entries.len(),
{
    if entries.len() == 0 {
        Ok(Seq::empty())
    } else {
        match rows_text(entries.drop_last(), mode) {
            Err(f) => Err(f),
            Ok(rows) => match entry_text(entries.last(), mode) {
                Err(f) => Err(f),
                Ok(row) => Ok(rows.push(row)),
            },
        }
    }
}

/// A failure in the rows of a prefix is the failure of the whole sequence.
proof fn lemma_failed_prefix(entries: Seq<ForecastEntry>, k: int, mode: DisplayMode)
    requires
        0 <= k <= entries.len(),
        rows_text(entries.take(k), mode) is Err,
    ensures
        rows_text(entries, mode) == rows_text(entries.take(k), mode),
    decreases entries.len() - k,
{
    if k == entries.len() {
        assert(entries.take(k) =~= entries);
    } else {
        assert(entries.take(k + 1).drop_last() =~= entries.take(k));
        lemma_failed_prefix(entries, k + 1, mode);
    }
}

/// The whole table at `now`: the header line, then one row per upcoming
/// entry in order; or the failure of the first upcoming entry that cannot
/// be rendered.
pub open spec fn table_text(entries: Seq<ForecastEntry>, now: ForecastTime, mode: DisplayMode) -> Result<Seq<Seq<char>>, Fault> {
    match rows_text(upcoming(entries, now), mode) {
        Err(f) => Err(f),
        Ok(rows) => Ok(seq![header_text(mode)] + rows),
    }
}

/// Every entry's time lies in its calendar ranges.
pub open spec fn times_wf(entries: Seq<ForecastEntry>) -> bool {
    forall|i: int| 0 <= i < entries.len() ==> (#[trigger] entries[i]).time.wf()
}

/// Renders the table at `now`, line by line: the header, then the rows of
/// the upcoming entries in order.
pub fn render_table(entries: Vec<ForecastEntry>, now: ForecastTime, mode: DisplayMode) -> (r: Result<Vec<String>, RenderError>)
    requires
        times_wf(entries@),
    ensures
        lines_result(r) == table_text(entries@, now, mode),
{
    let ghost all = entries@;
    let shown = select_upcoming(entries, now);
    proof {
        lemma_select_upcoming(all, now);
        assert forall|i: int| 0 <= i < shown@.len() implies (#[trigger] shown@[i]).time.wf() by {
            assert(all.contains(shown@[i]));
        }
    }
    let mut lines: Vec<String> = Vec::new();
    lines.push(render_header(mode));
    let mut i: usize = 0;
    assert(shown@.take(0) =~= Seq::<ForecastEntry>::empty());
    while i < shown.len()
        invariant
            i <= shown@.len(),
            all == entries@,
            shown@ == upcoming(all, now),
            times_wf(shown@),
            rows_text(shown@.take(i as int), mode) matches Ok(rows) && texts(lines@) == seq![header_text(mode)] + rows,
        decreases shown@.len() - i,
    {
        assert(shown@.take(i + 1).drop_last() =~= shown@.take(i as int));
        match render_entry(&shown[i], mode) {
            Ok(row) => {
                let ghost before = texts(lines@);
                lines.push(row);
                assert(texts(lines@) =~= before.push(row@));
            },
            Err(e) => {
                proof {
                    assert(shown@.take(i + 1).last() == shown@[i as int]);
                    assert(rows_text(shown@.take(i + 1), mode) == Err::<Seq<Seq<char>>, Fault>(e@));
                    lemma_failed_prefix(shown@, i + 1, mode);
                }
                return Err(e);
            },
        }
        i = i + 1;
    }
    assert(shown@.take(i as int) =~= shown@);
    Ok(lines)
}

/// Renders the table at the local wall-clock time, read once.
pub fn render_table_now(entries: Vec<ForecastEntry>, mode: DisplayMode) -> (r: Result<Vec<String>, RenderError>)
    requires
        times_wf(entries@),
    ensures
        exists|now: ForecastTime| now.wf() && lines_result(r) == #[trigger] table_text(entries@, now, mode),
{
    let now = local_now();
    render_table(entries, now, mode)
}

// ---------------------------------------------------------------------------
// Laws
// ---------------------------------------------------------------------------

/// The header has five columns in basic mode and six in described mode, and
/// every row that renders is made of as many cells as the header of its mode.
pub proof fn lemma_row_matches_header(entry: ForecastEntry, mode: DisplayMode)
    ensures
        header_cells(mode).len() == if mode == DisplayMode::Basic { 5nat } else { 6nat },
        entry_text(entry, mode) matches Ok(line) ==> exists|cells: Seq<Seq<char>>|
            cells.len() == header_cells(mode).len() && line == #[trigger] join(cells, gutter()),
{
    let names = field_names(mode);
    if first_missing(entry.values@, names, 0) is None {
        let values = Seq::new(names.len(), |i: int| lookup(entry.values@, names[i])->Some_0);
        if !(mode == DisplayMode::Described && values[4].whole is None) {
            let description = if mode == DisplayMode::Described {
                Some(description_of(values[4].whole->Some_0))
            } else {
                None
            };
            let cells = row_cells(entry.time, values.take(4), description);
            assert(cells.len() == header_cells(mode).len());
        }
    }
}

proof fn lemma_missing_from(values: Seq<NamedValue>, names: Seq<Seq<char>>, from: int, i: int)
    requires
        0 <= from <= i < names.len(),
        lookup(values, names[i]) is None,
    ensures
        first_missing(values, names, from) matches Some(n) && lookup(values, n) is None,
    decreases i - from,
{
    if lookup(values, names[from]) is Some {
        lemma_missing_from(values, names, from + 1, i);
    }
}

/// Where any requested name is absent from an entry, extraction reports a
/// missing field, and the name it reports is absent too: no default value
/// stands in for it.
pub proof fn lemma_missing_name_reported(values: Seq<NamedValue>, names: Seq<Seq<char>>, i: int)
    requires
        0 <= i < names.len(),
        lookup(values, names[i]) is None,
    ensures
        first_missing(values, names, 0) matches Some(n) && lookup(values, n) is None,
{
    lemma_missing_from(values, names, 0, i);
}

/// A table of no entries is its header line alone.
pub proof fn lemma_empty_table(now: ForecastTime, mode: DisplayMode)
    ensures
        table_text(Seq::empty(), now, mode) == Ok::<Seq<Seq<char>>, Fault>(seq![header_text(mode)]),
{
    reveal(Seq::filter);
    assert(upcoming(Seq::empty(), now) =~= Seq::<ForecastEntry>::empty());
    assert(seq![header_text(mode)] + Seq::<Seq<char>>::empty() =~= seq![header_text(mode)]);
}

} // verus!
