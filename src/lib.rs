//! Forecast normalization: turns a provider's loosely typed forecast payload
//! into time-aligned per-day records and a flattened multi-day view.
//!
//! Numbers are exact: a real payload is held in thousandths, and a time of day
//! in whole seconds past local midnight.
mod bounds;
mod cache;
mod clock;
mod day;
mod long;
mod numeric;
mod payload;
mod series;
mod settings;
mod text;
mod url;

pub use bounds::{
    highest, lowest, round_lower, round_rain, round_upper, HIGH_START, LOW_START, RAIN_FLOOR,
};
pub use cache::{is_pdf_cached, pdf_path};
pub use clock::{
    epoch_seconds, seconds_of_day, timestamp_to_time, CLOCK_RANGE_MILLIS, CLOCK_RANGE_SECONDS, DAY_SECONDS,
    MILLIS_LIMIT,
};
pub use day::{Forecast, ForecastBuilder, ForecastDay, ForecastDayBuilder};
pub use long::{fix, fix_icon, fix_timestamps, remove_duplicate, remove_every_second, ForecastLong};
pub use numeric::{BuildError, NumericCell, MILLI};
pub use payload::{
    ForecastGustBuilder, ForecastSymbolBuilder, ForecastWindBuilder, ForecastWindSymbolBuilder,
};
pub use series::{
    align_direct, align_ranged, localize_series, ForecastIcon, ForecastValue, ForecastValueMinMax,
    ForecastWind, Timestamped,
};
pub use text::decimal;
pub use url::{find_from, forecast_json_url, json_url_from_section, UrlError};
pub use settings::{expandable, Settings};
