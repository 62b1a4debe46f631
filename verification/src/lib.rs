//! Sharing one keyboard and mouse between machines: the decisions of the
//! capturing side and of the uinput emulation backend, with their contracts.
//!
//! - [`switching`]: entry serials and the hooks that report a switch.
//! - [`event`], [`position`], [`proto`]: input events, screen sides, messages.
//! - [`model`]: the mathematical model of the capture task.
//! - [`capture`]: the capture task as a state machine that verified code runs.
//! - [`laws`]: what holds of every run of the capture task.
//! - [`reactions`]: what the capture task does about each outcome of its work.
//! - [`uinput`]: the events that the virtual keyboard and mouse emit.
//! - [`devices`]: what these events add up to.

pub mod capture;
pub mod devices;
pub mod event;
pub mod laws;
pub mod model;
pub mod position;
pub mod proto;
pub mod reactions;
pub mod switching;
pub mod uinput;
