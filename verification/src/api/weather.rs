use vstd::prelude::*;

use crate::api::timefmt::{date_reformatted, day_name_format, iso_date_format, reformat_date};

verus! {

broadcast use vstd::string::group_string_axioms;

/// One day of the forecast. Readings are kept as the IEEE-754 bit patterns of
/// the `f64` values the service reported.
#[derive(Debug)]
pub struct DayForecast {
    /// E.g. "Mon Jan 13".
    pub date: String,
    pub high_f_bits: u64,
    pub low_f_bits: u64,
    pub precip_in_bits: u64,
    pub wind_max_mph_bits: u64,
    pub description: String,
    pub icon: &'static str,
}

/// Current conditions and the daily forecast (index 0 = today). Readings are
/// kept as the IEEE-754 bit patterns of the `f64` values the service reported.
#[derive(Debug)]
pub struct WeatherData {
    pub location: String,
    pub temp_f_bits: u64,
    pub feels_like_f_bits: u64,
    pub humidity: u64,
    pub wind_mph_bits: u64,
    pub description: String,
    pub icon: &'static str,
    pub forecast: Vec<DayForecast>,
}

/// Current conditions as the forecast service reports them.
#[derive(Debug, Clone)]
pub struct CurrentReport {
    pub temperature_2m_bits: u64,
    pub apparent_temperature_bits: u64,
    pub relative_humidity_2m: u64,
    pub wind_speed_10m_bits: u64,
    pub weather_code: u64,
}

/// The daily series as the forecast service reports them; entry `i` of each
/// series belongs to day `time[i]`.
#[derive(Debug, Clone)]
pub struct DailyReport {
    pub time: Vec<String>,
    pub temperature_2m_max_bits: Vec<u64>,
    pub temperature_2m_min_bits: Vec<u64>,
    pub weather_code: Vec<u64>,
    pub precipitation_sum_bits: Vec<u64>,
    pub wind_speed_10m_max_bits: Vec<u64>,
}

/// The forecast service's answer.
#[derive(Debug, Clone)]
pub struct ForecastReport {
    pub current: CurrentReport,
    pub daily: DailyReport,
}

/// Description of a WMO weather interpretation code.
pub open spec fn wmo_description_of(code: u64) -> Seq<char> {
    if false {
        Seq::empty()
    } else if code == 0 {
        "Clear sky"@
    } else if code == 1 {
        "Mainly clear"@
    } else if code == 2 {
        "Partly cloudy"@
    } else if code == 3 {
        "Overcast"@
    } else if code == 45 || code == 48 {
        "Fog"@
    } else if code == 51 || code == 53 || code == 55 {
        "Drizzle"@
    } else if code == 56 || code == 57 {
        "Freezing drizzle"@
    } else if code == 61 || code == 63 || code == 65 {
        "Rain"@
    } else if code == 66 || code == 67 {
        "Freezing rain"@
    } else if code == 71 || code == 73 || code == 75 {
        "Snow"@
    } else if code == 77 {
        "Snow grains"@
    } else if code == 80 || code == 81 || code == 82 {
        "Showers"@
    } else if code == 85 || code == 86 {
        "Snow showers"@
    } else if code == 95 {
        "Thunderstorm"@
    } else if code == 96 || code == 99 {
        "Tstorm + hail"@
    } else {
        "Unknown"@
    }
}

/// Icon of a WMO weather interpretation code.
pub open spec fn wmo_icon_of(code: u64) -> Seq<char> {
    if false {
        Seq::empty()
    } else if code == 0 {
        "☀"@
    } else if code == 1 || code == 2 {
        "⛅"@
    } else if code == 3 {
        "☁"@
    } else if code == 45 || code == 48 {
        "🌫"@
    } else if (51 <= code && code <= 57) || (80 <= code && code <= 82) {
        "🌦"@
    } else if (61 <= code && code <= 67) {
        "🌧"@
    } else if (71 <= code && code <= 77) || code == 85 || code == 86 {
        "❄"@
    } else if (95 <= code && code <= 99) {
        "⛈"@
    } else {
        "?"@
    }
}

/// The WMO weather codes the forecast service sends, grouped as the dashboard
/// names them.
pub open spec fn known_wmo_code(code: u64) -> bool {
    code == 0 || code == 1 || code == 2 || code == 3 || code == 45 || code == 48 || code == 51 || code == 53 || code == 55 || code == 56 || code == 57 || code == 61 || code == 63 || code == 65 || code == 66 || code == 67 || code == 71 || code == 73 || code == 75 || code == 77 || code == 80 || code == 81 || code == 82 || code == 85 || code == 86 || code == 95 || code == 96 || code == 99
}

/// The description of each WMO code: clear, cloud, fog, drizzle, rain, snow,
/// showers and thunderstorms with their kinds, and "Unknown" for any other
/// code.
pub proof fn law_wmo_descriptions(code: u64)
    ensures
        code == 0 ==> wmo_description_of(code) == "Clear sky"@,
        code == 1 ==> wmo_description_of(code) == "Mainly clear"@,
        code == 2 ==> wmo_description_of(code) == "Partly cloudy"@,
        code == 3 ==> wmo_description_of(code) == "Overcast"@,
        (code == 45 || code == 48) ==> wmo_description_of(code) == "Fog"@,
        (code == 51 || code == 53 || code == 55) ==> wmo_description_of(code) == "Drizzle"@,
        (code == 56 || code == 57) ==> wmo_description_of(code) == "Freezing drizzle"@,
        (code == 61 || code == 63 || code == 65) ==> wmo_description_of(code) == "Rain"@,
        (code == 66 || code == 67) ==> wmo_description_of(code) == "Freezing rain"@,
        (code == 71 || code == 73 || code == 75) ==> wmo_description_of(code) == "Snow"@,
        code == 77 ==> wmo_description_of(code) == "Snow grains"@,
        (code == 80 || code == 81 || code == 82) ==> wmo_description_of(code) == "Showers"@,
        (code == 85 || code == 86) ==> wmo_description_of(code) == "Snow showers"@,
        code == 95 ==> wmo_description_of(code) == "Thunderstorm"@,
        (code == 96 || code == 99) ==> wmo_description_of(code) == "Tstorm + hail"@,
        !known_wmo_code(code) ==> wmo_description_of(code) == "Unknown"@,
{
}

/// The icon of each WMO code: sun, sun behind cloud, cloud, fog, sun behind
/// rain (drizzle and showers), rain, snow, thunderstorm, and "?" for any
/// other code.
pub proof fn law_wmo_icons(code: u64)
    ensures
        code == 0 ==> wmo_icon_of(code) == "☀"@,
        (code == 1 || code == 2) ==> wmo_icon_of(code) == "⛅"@,
        code == 3 ==> wmo_icon_of(code) == "☁"@,
        (code == 45 || code == 48) ==> wmo_icon_of(code) == "🌫"@,
        ((51 <= code && code <= 57) || (80 <= code && code <= 82)) ==> wmo_icon_of(code) == "🌦"@,
        (61 <= code && code <= 67) ==> wmo_icon_of(code) == "🌧"@,
        ((71 <= code && code <= 77) || code == 85 || code == 86) ==> wmo_icon_of(code) == "❄"@,
        (95 <= code && code <= 99) ==> wmo_icon_of(code) == "⛈"@,
        !(code <= 3 || code == 45 || code == 48 || (51 <= code && code <= 57) || (61 <= code && code
            <= 67) || (71 <= code && code <= 77) || (80 <= code && code <= 82) || code == 85 || code
            == 86 || (95 <= code && code <= 99)) ==> wmo_icon_of(code) == "?"@,
{
}

/// The place is shown by its name, or as "lat, lon" when it has none.
pub proof fn law_location_label(lat: Seq<char>, lon: Seq<char>, name: Seq<char>)
    ensures
        name.len() > 0 ==> location_label_of(lat, lon, name) == name,
        name.len() == 0 ==> location_label_of(lat, lon, name) == lat + seq![',', ' '] + lon,
{
    if name.len() == 0 {
        reveal_strlit(", ");
        assert(", "@ =~= seq![',', ' ']);
    }
}

pub fn wmo_description(code: u64) -> (s: &'static str)
    ensures
        s@ == wmo_description_of(code),
{
    match code {
        0 => "Clear sky",
        1 => "Mainly clear",
        2 => "Partly cloudy",
        3 => "Overcast",
        45 | 48 => "Fog",
        51 | 53 | 55 => "Drizzle",
        56 | 57 => "Freezing drizzle",
        61 | 63 | 65 => "Rain",
        66 | 67 => "Freezing rain",
        71 | 73 | 75 => "Snow",
        77 => "Snow grains",
        80 | 81 | 82 => "Showers",
        85 | 86 => "Snow showers",
        95 => "Thunderstorm",
        96 | 99 => "Tstorm + hail",
        _ => "Unknown",
    }
}

pub fn wmo_icon(code: u64) -> (s: &'static str)
    ensures
        s@ == wmo_icon_of(code),
{
    match code {
        0 => "☀",
        1 | 2 => "⛅",
        3 => "☁",
        45 | 48 => "🌫",
        51..=57 | 80..=82 => "🌦",
        61..=67 => "🌧",
        71..=77 | 85 | 86 => "❄",
        95..=99 => "⛈",
        _ => "?",
    }
}

/// The forecast request for a place: current conditions and seven days, in
/// Fahrenheit, mph and inches, in the place's time zone.
pub open spec fn forecast_url_of(lat: Seq<char>, lon: Seq<char>) -> Seq<char> {
    "https://api.open-meteo.com/v1/forecast?latitude="@ + lat + "&longitude="@ + lon
        + "&current=temperature_2m,apparent_temperature,relative_humidity_2m,wind_speed_10m,weather_code&daily=temperature_2m_max,temperature_2m_min,weather_code,precipitation_sum,wind_speed_10m_max&temperature_unit=fahrenheit&wind_speed_unit=mph&precipitation_unit=inch&timezone=auto&forecast_days=7"@
}

pub fn forecast_url(lat: &str, lon: &str) -> (url: String)
    ensures
        url@ == forecast_url_of(lat@, lon@),
{
    let mut url = String::from_str("https://api.open-meteo.com/v1/forecast?latitude=");
    url.append(lat);
    url.append("&longitude=");
    url.append(lon);
    url.append(
        "&current=temperature_2m,apparent_temperature,relative_humidity_2m,wind_speed_10m,weather_code&daily=temperature_2m_max,temperature_2m_min,weather_code,precipitation_sum,wind_speed_10m_max&temperature_unit=fahrenheit&wind_speed_unit=mph&precipitation_unit=inch&timezone=auto&forecast_days=7",
    );
    url
}

/// The place name shown: the configured name, or "lat, lon" when it is empty.
pub open spec fn location_label_of(lat: Seq<char>, lon: Seq<char>, name: Seq<char>) -> Seq<char> {
    if name.len() == 0 {
        lat + ", "@ + lon
    } else {
        name
    }
}

pub fn location_label(lat: &str, lon: &str, name: &str) -> (s: String)
    ensures
        s@ == location_label_of(lat@, lon@, name@),
{
    if name.unicode_len() == 0 {
        let mut s = String::from_str(lat);
        s.append(", ");
        s.append(lon);
        s
    } else {
        String::from_str(name)
    }
}

/// The name of a forecast day: the service's `YYYY-MM-DD` date written as
/// "Mon Jan 13", or the date as it came when it does not read as a date.
pub open spec fn day_label_of(date: Seq<char>) -> Seq<char> {
    match date_reformatted(date, iso_date_format(), day_name_format()) {
        Some(l) => l,
        None => date,
    }
}

pub fn day_label(date: &str) -> (s: String)
    ensures
        s@ == day_label_of(date@),
{
    match reformat_date(date, "%Y-%m-%d", "%a %b %d") {
        Some(l) => l,
        None => String::from_str(date),
    }
}

/// Entry `i` of a series, or `dflt` when the series is shorter.
pub open spec fn entry_or(v: Seq<u64>, i: int, dflt: u64) -> u64 {
    if 0 <= i < v.len() {
        v[i]
    } else {
        dflt
    }
}

fn get_or(v: &Vec<u64>, i: usize, dflt: u64) -> (x: u64)
    ensures
        x == entry_or(v@, i as int, dflt),
{
    if i < v.len() {
        v[i]
    } else {
        dflt
    }
}

/// `d` is day `i` of the daily report: its name, its readings (the bit
/// pattern of 0.0 where a series is shorter) and the description and icon of
/// its weather code (code 0 where that series is shorter).
pub open spec fn forecast_day_of(r: DailyReport, i: int, d: DayForecast) -> bool {
    let code = entry_or(r.weather_code@, i, 0);
    &&& d.date@ == day_label_of(r.time@[i]@)
    &&& d.high_f_bits == entry_or(r.temperature_2m_max_bits@, i, 0)
    &&& d.low_f_bits == entry_or(r.temperature_2m_min_bits@, i, 0)
    &&& d.precip_in_bits == entry_or(r.precipitation_sum_bits@, i, 0)
    &&& d.wind_max_mph_bits == entry_or(r.wind_speed_10m_max_bits@, i, 0)
    &&& d.description@ == wmo_description_of(code)
    &&& d.icon@ == wmo_icon_of(code)
}

/// `w` is what the dashboard shows for report `r` of the place `lat, lon` named `name`.
pub open spec fn weather_of(r: ForecastReport, lat: Seq<char>, lon: Seq<char>, name: Seq<char>, w: WeatherData) -> bool {
    &&& w.location@ == location_label_of(lat, lon, name)
    &&& w.temp_f_bits == r.current.temperature_2m_bits
    &&& w.feels_like_f_bits == r.current.apparent_temperature_bits
    &&& w.humidity == r.current.relative_humidity_2m
    &&& w.wind_mph_bits == r.current.wind_speed_10m_bits
    &&& w.description@ == wmo_description_of(r.current.weather_code)
    &&& w.icon@ == wmo_icon_of(r.current.weather_code)
    &&& w.forecast@.len() == r.daily.time@.len()
    &&& forall|i: int| 0 <= i < w.forecast@.len() ==> forecast_day_of(r.daily, i, #[trigger] w.forecast@[i])
}

/// The forecast has one day per date of the report, in its order. Day `i`
/// takes entry `i` of each series, and where a series stops short the reading
/// is 0.0 (bit pattern 0) and the code 0 ("Clear sky"); the description and
/// icon of the current conditions and of each day follow their codes.
pub proof fn law_forecast_days(r: ForecastReport, lat: Seq<char>, lon: Seq<char>, name: Seq<char>, w: WeatherData, i: int)
    requires
        weather_of(r, lat, lon, name, w),
        0 <= i < r.daily.time@.len(),
    ensures
        w.forecast@.len() == r.daily.time@.len(),
        w.forecast@[i].date@ == day_label_of(r.daily.time@[i]@),
        i < r.daily.temperature_2m_max_bits@.len() ==> w.forecast@[i].high_f_bits
            == r.daily.temperature_2m_max_bits@[i],
        i >= r.daily.temperature_2m_max_bits@.len() ==> w.forecast@[i].high_f_bits == 0,
        i < r.daily.temperature_2m_min_bits@.len() ==> w.forecast@[i].low_f_bits
            == r.daily.temperature_2m_min_bits@[i],
        i >= r.daily.temperature_2m_min_bits@.len() ==> w.forecast@[i].low_f_bits == 0,
        i < r.daily.precipitation_sum_bits@.len() ==> w.forecast@[i].precip_in_bits
            == r.daily.precipitation_sum_bits@[i],
        i >= r.daily.precipitation_sum_bits@.len() ==> w.forecast@[i].precip_in_bits == 0,
        i < r.daily.wind_speed_10m_max_bits@.len() ==> w.forecast@[i].wind_max_mph_bits
            == r.daily.wind_speed_10m_max_bits@[i],
        i >= r.daily.wind_speed_10m_max_bits@.len() ==> w.forecast@[i].wind_max_mph_bits == 0,
        i < r.daily.weather_code@.len() ==> w.forecast@[i].description@ == wmo_description_of(
            r.daily.weather_code@[i],
        ) && w.forecast@[i].icon@ == wmo_icon_of(r.daily.weather_code@[i]),
        i >= r.daily.weather_code@.len() ==> w.forecast@[i].description@ == "Clear sky"@
            && w.forecast@[i].icon@ == "☀"@,
        w.description@ == wmo_description_of(r.current.weather_code),
        w.icon@ == wmo_icon_of(r.current.weather_code),
        w.temp_f_bits == r.current.temperature_2m_bits,
        w.feels_like_f_bits == r.current.apparent_temperature_bits,
        w.humidity == r.current.relative_humidity_2m,
        w.wind_mph_bits == r.current.wind_speed_10m_bits,
{
    assert(forecast_day_of(r.daily, i, w.forecast@[i]));
}

/// The weather shown for a forecast report.
pub fn build_weather(report: &ForecastReport, lat: &str, lon: &str, name: &str) -> (w: WeatherData)
    ensures
        weather_of(*report, lat@, lon@, name@, w),
{
    let daily = &report.daily;
    let mut forecast: Vec<DayForecast> = Vec::new();
    let mut i: usize = 0;
    while i < daily.time.len()
        invariant
            i <= daily.time@.len(),
            forecast@.len() == i,
            forall|k: int| 0 <= k < i ==> forecast_day_of(*daily, k, #[trigger] forecast@[k]),
        decreases daily.time.len() - i,
    {
        let code = get_or(&daily.weather_code, i, 0);
        let day = DayForecast {
            date: day_label(daily.time[i].as_str()),
            high_f_bits: get_or(&daily.temperature_2m_max_bits, i, 0),
            low_f_bits: get_or(&daily.temperature_2m_min_bits, i, 0),
            precip_in_bits: get_or(&daily.precipitation_sum_bits, i, 0),
            wind_max_mph_bits: get_or(&daily.wind_speed_10m_max_bits, i, 0),
            description: String::from_str(wmo_description(code)),
            icon: wmo_icon(code),
        };
        forecast.push(day);
        i = i + 1;
    }
    let cur = &report.current;
    WeatherData {
        location: location_label(lat, lon, name),
        temp_f_bits: cur.temperature_2m_bits,
        feels_like_f_bits: cur.apparent_temperature_bits,
        humidity: cur.relative_humidity_2m,
        wind_mph_bits: cur.wind_speed_10m_bits,
        description: String::from_str(wmo_description(cur.weather_code)),
        icon: wmo_icon(cur.weather_code),
        forecast,
    }
}

} // verus!
