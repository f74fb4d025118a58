//! Day-ahead electricity spot-price pipeline: a streaming market-document
//! parser that reconstructs hourly price points, a local-calendar-day filter,
//! fixed-point currency/VAT conversion, aggregate statistics, and a
//! locale-to-bundle resolver feeding rendering and posting collaborators.
//!
//! Prices are carried as fixed-point integers: raw market values in
//! thousandths of the reference currency per energy unit, currency
//! multipliers in millionths, VAT in tenths of a percent, and converted
//! values scaled by `CONVERTED_SCALE`. Timestamps are UTC seconds since the
//! Unix epoch.

pub mod mathutil;
pub mod text;
pub mod timestamp;
pub mod events;
pub mod series;
pub mod parser;
pub mod tz;
pub mod transform;
pub mod locale;
pub mod post;
pub mod pipeline;
