//! Timestamped measurements, their chronological log, and trend analytics.
//!
//! A measurement is a value and a time of day, both read from text. The log
//! keeps measurements in the order of their timestamps. From the log come
//! the rows of a list, the points of a chart and a projection of when the
//! value will cross a threshold. Rates and spans of time are exact ratios.

pub mod app;
pub mod error;
pub mod log;
pub mod meassurement;
pub mod projection;
pub mod ratio;
pub mod strings;
pub mod text;
pub mod time;

pub use crate::app::{App, Flow, InputMode, Key};
pub use crate::error::ParseError;
pub use crate::log::{MeassurementLog, Row};
pub use crate::meassurement::Meassurement;
pub use crate::projection::{Direction, Projection};
pub use crate::ratio::Ratio;
pub use crate::time::Time;
