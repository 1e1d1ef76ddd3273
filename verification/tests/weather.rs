use drakonix::api::weather::{
    build_weather, day_label, forecast_url, location_label, wmo_description, wmo_icon,
    CurrentReport, DailyReport, ForecastReport,
};

#[test]
fn wmo_codes() {
    assert_eq!(wmo_description(0), "Clear sky");
    assert_eq!(wmo_description(48), "Fog");
    assert_eq!(wmo_description(65), "Rain");
    assert_eq!(wmo_description(99), "Tstorm + hail");
    assert_eq!(wmo_description(4), "Unknown");
    assert_eq!(wmo_icon(0), "☀");
    assert_eq!(wmo_icon(2), "⛅");
    assert_eq!(wmo_icon(57), "🌦");
    assert_eq!(wmo_icon(81), "🌦");
    assert_eq!(wmo_icon(63), "🌧");
    assert_eq!(wmo_icon(86), "❄");
    assert_eq!(wmo_icon(97), "⛈");
    assert_eq!(wmo_icon(100), "?");
}

#[test]
fn forecast_request() {
    assert_eq!(
        forecast_url("40.71", "-74.01"),
        "https://api.open-meteo.com/v1/forecast?latitude=40.71&longitude=-74.01\
         &current=temperature_2m,apparent_temperature,relative_humidity_2m,wind_speed_10m,weather_code\
         &daily=temperature_2m_max,temperature_2m_min,weather_code,precipitation_sum,wind_speed_10m_max\
         &temperature_unit=fahrenheit&wind_speed_unit=mph&precipitation_unit=inch&timezone=auto&forecast_days=7"
    );
}

#[test]
fn location_and_day_labels() {
    assert_eq!(location_label("1", "2", ""), "1, 2");
    assert_eq!(location_label("1", "2", "Home"), "Home");
    assert_eq!(day_label("2025-01-13"), "Mon Jan 13");
    assert_eq!(day_label("soon"), "soon");
}

#[test]
fn report_becomes_weather() {
    let report = ForecastReport {
        current: CurrentReport {
            temperature_2m_bits: 71.5f64.to_bits(),
            apparent_temperature_bits: 70.0f64.to_bits(),
            relative_humidity_2m: 55,
            wind_speed_10m_bits: 3.25f64.to_bits(),
            weather_code: 3,
        },
        daily: DailyReport {
            time: vec!["2025-01-13".to_string(), "2025-01-14".to_string()],
            temperature_2m_max_bits: vec![80.0f64.to_bits(), 81.0f64.to_bits()],
            temperature_2m_min_bits: vec![60.0f64.to_bits()],
            weather_code: vec![61],
            precipitation_sum_bits: vec![0.25f64.to_bits(), 0.0f64.to_bits()],
            wind_speed_10m_max_bits: vec![],
        },
    };
    let w = build_weather(&report, "1", "2", "");
    assert_eq!(w.location, "1, 2");
    assert_eq!(f64::from_bits(w.temp_f_bits), 71.5);
    assert_eq!(w.humidity, 55);
    assert_eq!(w.description, "Overcast");
    assert_eq!(w.icon, "☁");
    assert_eq!(w.forecast.len(), 2);
    assert_eq!(w.forecast[0].date, "Mon Jan 13");
    assert_eq!(w.forecast[0].description, "Rain");
    assert_eq!(f64::from_bits(w.forecast[0].high_f_bits), 80.0);
    assert_eq!(w.forecast[1].date, "Tue Jan 14");
    assert_eq!(w.forecast[1].description, "Clear sky");
    assert_eq!(f64::from_bits(w.forecast[1].low_f_bits), 0.0);
    assert_eq!(f64::from_bits(w.forecast[1].wind_max_mph_bits), 0.0);
}
