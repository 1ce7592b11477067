//! Health metrics of a PHP instance and the reporting of meter data.
//!
//! `snapshot` reads the `/proc` files of the PHP process, `phm` and `extended`
//! keep the gauges that are made of them, and `formula` says what a gauge
//! holds. `meter_batch`, `auth` and `meter_filter` are the way of the meters to
//! their collector: they are taken out of the stream of collected items, and
//! sent in batches.
//!
//! The library decides and computes; it reads no file, sends nothing and waits
//! for nothing.

pub mod auth;
pub mod clock;
pub mod extended;
pub mod formula;
pub mod laws;
pub mod meter_batch;
pub mod meter_filter;
pub mod metric;
pub mod phm;
pub mod snapshot;
pub mod text;
