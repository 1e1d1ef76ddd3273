//! Data from the outside services and the pure logic around fetching it.

pub mod calendar;
pub mod rss;
pub mod timefmt;
pub mod urlcodec;
pub mod weather;

use vstd::prelude::*;

use self::calendar::CalendarEvent;
use self::rss::RssItem;
use self::weather::WeatherData;

verus! {

/// A result of a background fetch, handed back to the application state.
#[derive(Debug)]
pub enum ApiUpdate {
    Weather(WeatherData),
    Rss(Vec<RssItem>),
    Calendar(Vec<CalendarEvent>),
    /// Sent while waiting for the user to authorize in their browser.
    CalendarNeedAuth(String),
    WeatherError(String),
    RssError(String),
    CalendarError(String),
}

} // verus!
