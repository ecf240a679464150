//! The decision logic of a packet firewall that watches traffic per source
//! address, judges each source once a second and blocks the anomalous ones for
//! a minute.
//!
//! The kernel program, the control program around it and the trainer of the
//! anomaly model perform the input and output, and compute in floating point:
//! the features of traffic, their distances from the model's clusters, and the
//! clusters themselves. What they decide on these and on everything else is
//! decided here.

pub mod alert;
pub mod attach;
pub mod clock;
pub mod controller;
pub mod dashboard;
pub mod events;
pub mod filter;
pub mod headers;
pub mod input;
pub mod metrics;
pub mod model;
pub mod packet;
pub mod request;
pub mod sweep;
pub mod text;
pub mod units;
