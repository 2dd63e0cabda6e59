//! Verified core of the satellite telemetry frontend: request addresses,
//! the counting of newly received measurements, chart layout decisions,
//! the polling state machines of the pages, and the text they display.

pub mod numfmt;
pub mod reading;
pub mod counter;
pub mod text;
pub mod chart;
pub mod api;
pub mod names;
pub mod poll;
pub mod satellite;
pub mod health;
pub mod admin;
