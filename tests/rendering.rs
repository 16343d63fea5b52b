use meteocli::forecast::{select_upcoming, ForecastEntry, ForecastTime, MeasuredValue};
use meteocli::render::{
    extract, hourly_fields, render_entry, render_header, render_row, render_table,
    render_table_now, DisplayMode, RenderError,
};
use meteocli::table::{format_time, join_cells, pad_left, pad_right};
use meteocli::weather_code::get_description;

fn at(month: u32, day: u32, hour: u32) -> ForecastTime {
    ForecastTime::new(month, day, hour).unwrap()
}

fn sample_entry(time: ForecastTime, with_code: bool) -> ForecastEntry {
    let mut e = ForecastEntry::new(time);
    e.insert("temperature_2m", MeasuredValue::measured("21.5", "°C"));
    e.insert("relativehumidity_2m", MeasuredValue::measured("55", "%"));
    e.insert("precipitation_probability", MeasuredValue::measured("10", "%"));
    e.insert("precipitation", MeasuredValue::measured("0.2", "mm"));
    if with_code {
        e.insert("weathercode", MeasuredValue::code(61, "61"));
    }
    e
}

const BASIC_HEADER: &str = "Date          Temperat   Humi%   Prec%   Precipi";
const BASIC_ROW: &str = "Jan 05, 14h    21.5 °C    55 %    10 %    0.2 mm";

#[test]
fn describes_every_published_code() {
    let table: [(u64, &str); 28] = [
        (0, "Clear sky"),
        (1, "Mainly clear"),
        (2, "Partly cloudy"),
        (3, "Overcast"),
        (45, "Fog"),
        (48, "Deposition rime fog"),
        (51, "Drizzle: Light intensity"),
        (53, "Drizzle: Moderate intensity"),
        (55, "Drizzle: Dense intensity"),
        (56, "Freezing Drizzle: Light intensity"),
        (57, "Freezing Drizzle: Dense intensity"),
        (61, "Rain: Slight intensity"),
        (63, "Rain: Moderate intensity"),
        (65, "Rain: Heavy intensity"),
        (66, "Freezing Rain: Light intensity"),
        (67, "Freezing Rain: Heavy intensity"),
        (71, "Snow fall: Slight intensity"),
        (73, "Snow fall: Moderate intensity"),
        (75, "Snow fall: Heavy intensity"),
        (77, "Snow grains"),
        (80, "Rain showers: Slight"),
        (81, "Rain showers: Moderate"),
        (82, "Rain showers: Violent"),
        (85, "Snow showers slight"),
        (86, "Snow showers heavy"),
        (95, "Thunderstorms: Slight or heavy"),
        (96, "Thunderstorms with slight hail"),
        (99, "Thunderstorms with heavy hail"),
    ];
    for (code, phrase) in table.iter() {
        assert_eq!(get_description(*code), *phrase);
    }
}

#[test]
fn unknown_codes_get_the_fallback() {
    for code in [4u64, 44, 100, 200, u64::MAX] {
        assert_eq!(get_description(code), "Uknown weather code...");
    }
}

#[test]
fn time_label_pads_day_and_hour() {
    assert_eq!(format_time(&at(1, 5, 14)), "Jan 05, 14h");
    assert_eq!(format_time(&at(12, 31, 0)), "Dec 31, 00h");
    assert_eq!(format_time(&at(9, 10, 9)), "Sep 10, 09h");
}

#[test]
fn time_fields_out_of_range_are_refused() {
    assert!(ForecastTime::new(0, 5, 14).is_none());
    assert!(ForecastTime::new(13, 5, 14).is_none());
    assert!(ForecastTime::new(1, 0, 14).is_none());
    assert!(ForecastTime::new(1, 32, 14).is_none());
    assert!(ForecastTime::new(1, 5, 24).is_none());
    assert_eq!(ForecastTime::new(2, 29, 23), Some(ForecastTime { month: 2, day: 29, hour: 23 }));
}

#[test]
fn padding_counts_characters() {
    assert_eq!(pad_left("21.5", 5), " 21.5");
    assert_eq!(pad_left("123456", 5), "123456");
    assert_eq!(pad_left("°", 3), "  °");
    assert_eq!(pad_right("Date", 11), "Date       ");
    assert_eq!(pad_right("Description", 3), "Description");
}

#[test]
fn joins_cells_with_separator() {
    let cells = vec!["a".to_string(), "bc".to_string(), "d".to_string()];
    assert_eq!(join_cells(&cells, "   "), "a   bc   d");
    assert_eq!(join_cells(&vec!["x".to_string()], "--"), "x");
    assert_eq!(join_cells(&Vec::new(), "--"), "");
}

#[test]
fn header_lines_per_mode() {
    assert_eq!(render_header(DisplayMode::Basic), BASIC_HEADER);
    assert_eq!(
        render_header(DisplayMode::Described),
        format!("{}   Description", BASIC_HEADER)
    );
}

#[test]
fn requested_fields_per_mode() {
    assert_eq!(
        hourly_fields(DisplayMode::Basic),
        vec!["temperature_2m", "relativehumidity_2m", "precipitation_probability", "precipitation"]
    );
    let described = hourly_fields(DisplayMode::Described);
    assert_eq!(described.len(), 5);
    assert_eq!(described[4], "weathercode");
}

#[test]
fn basic_row_of_sample_entry() {
    let e = sample_entry(at(1, 5, 14), false);
    let line = render_entry(&e, DisplayMode::Basic).unwrap();
    assert_eq!(line, BASIC_ROW);
    assert!(line.starts_with("Jan 05, 14h"));
    let t = line.find("21.5 °C").unwrap();
    let h = line.find("55 %").unwrap();
    let p = line.find("10 %").unwrap();
    let a = line.find("0.2 mm").unwrap();
    assert!(t < h && h < p && p < a);
}

#[test]
fn described_row_ends_with_description() {
    let e = sample_entry(at(1, 5, 14), true);
    let line = render_entry(&e, DisplayMode::Described).unwrap();
    assert_eq!(line, format!("{}    Rain: Slight intensity", BASIC_ROW));
    assert!(line.ends_with("Rain: Slight intensity"));
}

#[test]
fn header_and_row_have_equal_column_counts() {
    let e = sample_entry(at(1, 5, 14), true);
    let basic_row = render_entry(&e, DisplayMode::Basic).unwrap();
    let described_row = render_entry(&e, DisplayMode::Described).unwrap();
    let basic_header = render_header(DisplayMode::Basic);
    let described_header = render_header(DisplayMode::Described);
    let columns = |line: &str| line.split("   ").filter(|p| !p.trim().is_empty()).count();
    assert_eq!(columns(&basic_row), 5);
    assert_eq!(columns(&basic_header), 5);
    assert_eq!(columns(&described_row), 6);
    assert_eq!(columns(&described_header), 6);
}

#[test]
fn row_from_readings() {
    let e = sample_entry(at(1, 5, 14), false);
    let readings = extract(&e, &hourly_fields(DisplayMode::Basic)).unwrap();
    assert_eq!(render_row(&e.time, &readings, None).unwrap(), BASIC_ROW);
    assert_eq!(
        render_row(&e.time, &readings, Some("Fog")).unwrap(),
        format!("{}    Fog", BASIC_ROW)
    );
}

#[test]
fn extraction_keeps_requested_order() {
    let e = sample_entry(at(1, 5, 14), true);
    let names = vec!["weathercode".to_string(), "temperature_2m".to_string()];
    let got = extract(&e, &names).unwrap();
    assert_eq!(got.len(), 2);
    assert_eq!(got[0].name, "weathercode");
    assert_eq!(got[0].value.whole, Some(61));
    assert_eq!(got[1].value.text, "21.5");
    assert_eq!(got[1].value.unit.as_deref(), Some("°C"));
}

#[test]
fn missing_field_is_reported() {
    let mut e = ForecastEntry::new(at(1, 5, 14));
    e.insert("temperature_2m", MeasuredValue::measured("21.5", "°C"));
    e.insert("relativehumidity_2m", MeasuredValue::measured("55", "%"));
    let got = extract(&e, &hourly_fields(DisplayMode::Basic));
    assert_eq!(got, Err(RenderError::MissingField("precipitation_probability".to_string())));
    assert_eq!(
        render_entry(&e, DisplayMode::Basic),
        Err(RenderError::MissingField("precipitation_probability".to_string()))
    );
}

#[test]
fn described_mode_needs_weather_code() {
    let e = sample_entry(at(1, 5, 14), false);
    assert_eq!(
        render_entry(&e, DisplayMode::Described),
        Err(RenderError::MissingField("weathercode".to_string()))
    );
}

#[test]
fn weather_code_must_be_an_integer() {
    let mut e = sample_entry(at(1, 5, 14), false);
    e.insert(
        "weathercode",
        MeasuredValue { text: "6.5".to_string(), whole: None, unit: None },
    );
    assert_eq!(
        render_entry(&e, DisplayMode::Described),
        Err(RenderError::MalformedValue("weathercode".to_string()))
    );
}

#[test]
fn measured_value_without_unit_is_malformed() {
    let mut e = sample_entry(at(1, 5, 14), false);
    e.insert(
        "relativehumidity_2m",
        MeasuredValue { text: "55".to_string(), whole: Some(55), unit: None },
    );
    assert_eq!(
        render_entry(&e, DisplayMode::Basic),
        Err(RenderError::MalformedValue("relativehumidity_2m".to_string()))
    );
}

#[test]
fn later_insert_replaces_value() {
    let mut e = sample_entry(at(1, 5, 14), false);
    e.insert("temperature_2m", MeasuredValue::measured("-3", "°C"));
    let got = e.get(&"temperature_2m".to_string()).unwrap();
    assert_eq!(got.text, "-3");
    assert!(e.get(&"snowfall".to_string()).is_none());
}

#[test]
fn selection_keeps_order_and_applies_day_hour_rule() {
    let now = at(1, 5, 14);
    let entries = vec![
        sample_entry(at(1, 4, 10), false),
        sample_entry(at(1, 4, 15), false),
        sample_entry(at(1, 5, 13), false),
        sample_entry(at(1, 5, 14), false),
        sample_entry(at(1, 5, 20), false),
        sample_entry(at(1, 6, 2), false),
    ];
    let kept: Vec<ForecastTime> = select_upcoming(entries, now).iter().map(|e| e.time).collect();
    assert_eq!(kept, vec![at(1, 4, 15), at(1, 5, 14), at(1, 5, 20), at(1, 6, 2)]);
}

#[test]
fn selection_ignores_month() {
    let now = at(1, 31, 22);
    let entries = vec![sample_entry(at(2, 1, 3), false), sample_entry(at(1, 31, 23), false)];
    let kept: Vec<ForecastTime> = select_upcoming(entries, now).iter().map(|e| e.time).collect();
    assert_eq!(kept, vec![at(1, 31, 23)]);
}

#[test]
fn selection_of_nothing_is_empty() {
    assert!(select_upcoming(Vec::new(), at(1, 5, 14)).is_empty());
}

#[test]
fn empty_forecast_is_header_only() {
    assert_eq!(
        render_table(Vec::new(), at(1, 5, 14), DisplayMode::Basic),
        Ok(vec![BASIC_HEADER.to_string()])
    );
    let lines = render_table(Vec::new(), at(7, 1, 0), DisplayMode::Described).unwrap();
    assert_eq!(lines.len(), 1);
    assert!(lines[0].ends_with("Description"));
}

#[test]
fn table_renders_upcoming_rows_in_order() {
    let now = at(1, 5, 14);
    let entries = vec![
        sample_entry(at(1, 5, 13), true),
        sample_entry(at(1, 5, 14), true),
        sample_entry(at(1, 5, 15), true),
    ];
    let lines = render_table(entries, now, DisplayMode::Basic).unwrap();
    assert_eq!(lines.len(), 3);
    assert_eq!(lines[0], BASIC_HEADER);
    assert_eq!(lines[1], BASIC_ROW);
    assert!(lines[2].starts_with("Jan 05, 15h"));
}

#[test]
fn table_stops_at_first_failing_row() {
    let now = at(1, 5, 14);
    let mut broken = ForecastEntry::new(at(1, 5, 16));
    broken.insert("temperature_2m", MeasuredValue::measured("20", "°C"));
    let entries = vec![
        sample_entry(at(1, 5, 10), false),
        sample_entry(at(1, 5, 15), false),
        broken,
    ];
    assert_eq!(
        render_table(entries, now, DisplayMode::Basic),
        Err(RenderError::MissingField("relativehumidity_2m".to_string()))
    );
}

#[test]
fn past_failing_rows_are_not_rendered() {
    let now = at(1, 5, 14);
    let broken = ForecastEntry::new(at(1, 5, 3));
    let lines = render_table(vec![broken], now, DisplayMode::Basic).unwrap();
    assert_eq!(lines, vec![BASIC_HEADER.to_string()]);
}

#[test]
fn table_at_clock_time_shows_last_hour_of_month_end() {
    let entries = vec![sample_entry(at(1, 31, 23), true)];
    let lines = render_table_now(entries, DisplayMode::Described).unwrap();
    assert_eq!(lines.len(), 2);
    assert!(lines[1].starts_with("Jan 31, 23h"));
    assert!(lines[1].ends_with("Rain: Slight intensity"));
}
