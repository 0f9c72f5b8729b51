//! Telemetry from the solar car to the chase vehicle: CAN frames are batched,
//! encoded, radioed, decoded and shown. This crate holds the rules of that
//! pipeline; sockets, serial ports, keys, clocks and windows stay outside it.
//!
//! - [`wire`]: the batch format that both vehicles share.
//! - [`outside`]: the calls into other crates, each with the contract it is
//!   trusted to meet.
//! - [`text`]: numbers and lists in text form, written and read.
//! - [`clock`]: times and intervals.
//! - [`config`]: settings given as text.
//! - [`bridge`]: the car side, from bus frames to batches ready to send.
//! - [`receiver`]: the headless chase side, from batches to candump lines.
//! - [`decode`]: frames applied to the dashboard model.
//! - [`radio`]: the state of the chase-side radio link.
//! - [`dashboard`]: what the dashboard shows for a given model.

pub mod bridge;
pub mod clock;
pub mod config;
pub mod dashboard;
pub mod decode;
pub mod outside;
pub mod radio;
pub mod receiver;
pub mod text;
pub mod wire;
