//! Text for weather reports.
//!
//! The upstream forecast encodes conditions as symbol codes and wind as
//! degrees; these functions turn both into the fixed wording the
//! reports use.  The caller reads wind degrees as a whole number before
//! asking for a compass direction.

use vstd::prelude::*;
use crate::conv::{has_prefix, is_prefix};

verus! {

/// The wording for a weather symbol code, chosen by the first matching
/// prefix; an unrecognized code reads "Unknown".
pub open spec fn spec_weather_description(s: Seq<char>) -> Seq<char> {
    if is_prefix("clearsky"@, s) { "Clear sky ☀️"@ }
    else if is_prefix("fair"@, s) { "Fair 🌤️"@ }
    else if is_prefix("partlycloudy"@, s) { "Partly cloudy ⛅"@ }
    else if is_prefix("cloudy"@, s) { "Cloudy ☁️"@ }
    else if is_prefix("lightrain"@, s) { "Light rain 🌦️"@ }
    else if is_prefix("rain"@, s) { "Rain 🌧️"@ }
    else if is_prefix("heavyrain"@, s) { "Heavy rain ⛈️"@ }
    else if is_prefix("lightsnow"@, s) { "Light snow 🌨️"@ }
    else if is_prefix("snow"@, s) { "Snow ❄️"@ }
    else if is_prefix("heavysnow"@, s) { "Heavy snow 🌨️❄️"@ }
    else if is_prefix("fog"@, s) { "Fog 🌫️"@ }
    else { "Unknown"@ }
}

/// Converts a weather symbol code to a human-readable description.
pub fn get_weather_description(symbol_code: &str) -> (r: &'static str)
    ensures
        r@ == spec_weather_description(symbol_code@),
{
    if has_prefix(symbol_code, "clearsky") { "Clear sky ☀️" }
    else if has_prefix(symbol_code, "fair") { "Fair 🌤️" }
    else if has_prefix(symbol_code, "partlycloudy") { "Partly cloudy ⛅" }
    else if has_prefix(symbol_code, "cloudy") { "Cloudy ☁️" }
    else if has_prefix(symbol_code, "lightrain") { "Light rain 🌦️" }
    else if has_prefix(symbol_code, "rain") { "Rain 🌧️" }
    else if has_prefix(symbol_code, "heavyrain") { "Heavy rain ⛈️" }
    else if has_prefix(symbol_code, "lightsnow") { "Light snow 🌨️" }
    else if has_prefix(symbol_code, "snow") { "Snow ❄️" }
    else if has_prefix(symbol_code, "heavysnow") { "Heavy snow 🌨️❄️" }
    else if has_prefix(symbol_code, "fog") { "Fog 🌫️" }
    else { "Unknown" }
}

/// The compass direction for a wind bearing in whole degrees.
pub open spec fn spec_wind_direction(d: int) -> Seq<char> {
    if d < 23 || d >= 338 { "North"@ }
    else if d < 68 { "Northeast"@ }
    else if d < 113 { "East"@ }
    else if d < 158 { "Southeast"@ }
    else if d < 203 { "South"@ }
    else if d < 248 { "Southwest"@ }
    else if d < 293 { "West"@ }
    else { "Northwest"@ }
}

/// Converts a wind bearing in whole degrees to a compass direction.
pub fn get_wind_direction(degrees: i32) -> (r: &'static str)
    ensures
        r@ == spec_wind_direction(degrees as int),
{
    if degrees < 23 || degrees >= 338 { "North" }
    else if degrees < 68 { "Northeast" }
    else if degrees < 113 { "East" }
    else if degrees < 158 { "Southeast" }
    else if degrees < 203 { "South" }
    else if degrees < 248 { "Southwest" }
    else if degrees < 293 { "West" }
    else { "Northwest" }
}

} // verus!
