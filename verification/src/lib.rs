//! Control plane for a programmable L2 switch: static forwarding, traffic
//! diversion, flow learning and heavy-hitter detection.
//!
//! The managers in this crate model the match-action tables they drive and
//! return records of the device operations a caller must apply; the vendor
//! switch library itself is bound outside the library.

pub mod api;
pub mod bf;
pub mod config;
pub mod features;
pub mod flows;
pub mod hhd;
pub mod hw;
pub mod ip;
pub mod l2;
pub mod label;
pub mod metrics;
