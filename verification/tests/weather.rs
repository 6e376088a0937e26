use yr_weather_mcp::weather::{get_weather_description, get_wind_direction};

#[test]
fn symbol_codes_map_by_prefix() {
    assert_eq!(get_weather_description("clearsky_day"), "Clear sky \u{2600}\u{fe0f}");
    assert_eq!(get_weather_description("fair_night"), "Fair \u{1f324}\u{fe0f}");
    assert_eq!(get_weather_description("partlycloudy_day"), "Partly cloudy \u{26c5}");
    assert_eq!(get_weather_description("cloudy"), "Cloudy \u{2601}\u{fe0f}");
    assert_eq!(get_weather_description("lightrain_showers"), "Light rain \u{1f326}\u{fe0f}");
    assert_eq!(get_weather_description("rain"), "Rain \u{1f327}\u{fe0f}");
    assert_eq!(get_weather_description("heavyrain"), "Heavy rain \u{26c8}\u{fe0f}");
    assert_eq!(get_weather_description("lightsnow"), "Light snow \u{1f328}\u{fe0f}");
    assert_eq!(get_weather_description("snow"), "Snow \u{2744}\u{fe0f}");
    assert_eq!(
        get_weather_description("heavysnow"),
        "Heavy snow \u{1f328}\u{fe0f}\u{2744}\u{fe0f}"
    );
    assert_eq!(get_weather_description("fog"), "Fog \u{1f32b}\u{fe0f}");
    assert_eq!(get_weather_description("thunderstorm"), "Unknown");
    assert_eq!(get_weather_description(""), "Unknown");
}

#[test]
fn wind_directions_follow_the_compass() {
    assert_eq!(get_wind_direction(0), "North");
    assert_eq!(get_wind_direction(22), "North");
    assert_eq!(get_wind_direction(23), "Northeast");
    assert_eq!(get_wind_direction(67), "Northeast");
    assert_eq!(get_wind_direction(68), "East");
    assert_eq!(get_wind_direction(112), "East");
    assert_eq!(get_wind_direction(113), "Southeast");
    assert_eq!(get_wind_direction(157), "Southeast");
    assert_eq!(get_wind_direction(158), "South");
    assert_eq!(get_wind_direction(202), "South");
    assert_eq!(get_wind_direction(203), "Southwest");
    assert_eq!(get_wind_direction(247), "Southwest");
    assert_eq!(get_wind_direction(248), "West");
    assert_eq!(get_wind_direction(292), "West");
    assert_eq!(get_wind_direction(293), "Northwest");
    assert_eq!(get_wind_direction(337), "Northwest");
    assert_eq!(get_wind_direction(338), "North");
    assert_eq!(get_wind_direction(360), "North");
}
