//! Market data streams, request limits and chart time axes.
pub mod axis_x;
pub mod calendar;
pub mod client;
pub mod comparison;
pub mod error;
pub mod json;
pub mod limiter;
pub mod listing;
pub mod market;
pub mod mexc;
pub mod okex;
pub mod stream;
pub mod text;
pub mod ticker;
pub mod time_label;
pub mod timeframe;
pub mod timezone;
pub mod unique_streams;
