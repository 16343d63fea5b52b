//! Forecast table rendering: weather-code descriptions, selection of the
//! upcoming hourly entries, field extraction and column layout.

pub mod weather_code;
pub mod forecast;
pub mod table;
mod clock;
pub mod render;
