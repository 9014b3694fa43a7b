//! The verified core of an event bridge.
//!
//! Two adapters, one for a retro-console emulator and one for a control
//! surface of streaming software, turn what their producers send into
//! events and publish them on one hub; a gateway relays every broadcast to
//! the consumers that are connected.
//!
//! The crate holds the decisions and leaves input and output to its caller.
//! Each adapter is a state machine: the caller reports what happened and is
//! told what to publish and what to do next.
//!
//! - [`text`]: separators, tokens and decimal numbers.
//! - [`frame`]: the frame decoder of the emulator's wire protocol.
//! - [`event`]: events, their namespaces and payloads.
//! - [`connection`]: the life of an adapter's link to its producer.
//! - [`listener`]: the emulator listener.
//! - [`surface`]: the control-surface client.
//! - [`hub`]: the broadcast point.
//! - [`gateway`]: the fan-out to consumers.
//! - [`config`]: values taken from the configuration.

pub mod config;
pub mod connection;
pub mod event;
pub mod frame;
pub mod gateway;
pub mod hub;
pub mod listener;
pub mod surface;
pub mod text;
