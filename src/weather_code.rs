use vstd::prelude::*;

verus! {

/// The phrase published for each recognised weather code, and the fallback
/// phrase for every other code.
pub open spec fn description_of(code: u64) -> Seq<char> {
    match code {
        0 => "Clear sky"@,
        1 => "Mainly clear"@,
        2 => "Partly cloudy"@,
        3 => "Overcast"@,
        45 => "Fog"@,
        48 => "Deposition rime fog"@,
        51 => "Drizzle: Light intensity"@,
        53 => "Drizzle: Moderate intensity"@,
        55 => "Drizzle: Dense intensity"@,
        56 => "Freezing Drizzle: Light intensity"@,
        57 => "Freezing Drizzle: Dense intensity"@,
        61 => "Rain: Slight intensity"@,
        63 => "Rain: Moderate intensity"@,
        65 => "Rain: Heavy intensity"@,
        66 => "Freezing Rain: Light intensity"@,
        67 => "Freezing Rain: Heavy intensity"@,
        71 => "Snow fall: Slight intensity"@,
        73 => "Snow fall: Moderate intensity"@,
        75 => "Snow fall: Heavy intensity"@,
        77 => "Snow grains"@,
        80 => "Rain showers: Slight"@,
        81 => "Rain showers: Moderate"@,
        82 => "Rain showers: Violent"@,
        85 => "Snow showers slight"@,
        86 => "Snow showers heavy"@,
        95 => "Thunderstorms: Slight or heavy"@,
        96 => "Thunderstorms with slight hail"@,
        99 => "Thunderstorms with heavy hail"@,
        _ => unknown_code_phrase(),
    }
}

/// The phrase given for a code outside the published set.
pub open spec fn unknown_code_phrase() -> Seq<char> {
    "Uknown weather code..."@
}

/// Translates a weather code into its descriptive phrase; every code outside
/// the published set gets the fallback phrase.
pub fn get_description(weathercode: u64) -> (r: &'static str)
    ensures
        r@ == description_of(weathercode),
{
    match weathercode {
        0 => "Clear sky",
        1 => "Mainly clear",
        2 => "Partly cloudy",
        3 => "Overcast",
        45 => "Fog",
        48 => "Deposition rime fog",
        51 => "Drizzle: Light intensity",
        53 => "Drizzle: Moderate intensity",
        55 => "Drizzle: Dense intensity",
        56 => "Freezing Drizzle: Light intensity",
        57 => "Freezing Drizzle: Dense intensity",
        61 => "Rain: Slight intensity",
        63 => "Rain: Moderate intensity",
        65 => "Rain: Heavy intensity",
        66 => "Freezing Rain: Light intensity",
        67 => "Freezing Rain: Heavy intensity",
        71 => "Snow fall: Slight intensity",
        73 => "Snow fall: Moderate intensity",
        75 => "Snow fall: Heavy intensity",
        77 => "Snow grains",
        80 => "Rain showers: Slight",
        81 => "Rain showers: Moderate",
        82 => "Rain showers: Violent",
        85 => "Snow showers slight",
        86 => "Snow showers heavy",
        95 => "Thunderstorms: Slight or heavy",
        96 => "Thunderstorms with slight hail",
        99 => "Thunderstorms with heavy hail",
        _ => "Uknown weather code...",
    }
}

} // verus!
