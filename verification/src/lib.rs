//! Session and fan-out core of a two-topic event streaming service.
//!
//! Clients connect over a bidirectional socket and choose which event
//! topics (heartbeat pulses, financial transactions) they want delivered.
//! This crate holds the verified logic of that core: the per-connection
//! subscription registry, the command and envelope wire codec, the
//! bounded multi-subscriber broadcast hub with slow-consumer isolation,
//! the per-event delivery decision, the session lifecycle state machine,
//! and the producer loop's cooperative-cancellation step. The socket,
//! timer and task plumbing around it is ordinary async code and lives in
//! the accompanying application crate.

pub mod domain;
pub mod health;
pub mod hub;
pub mod parse;
pub mod producer;
pub mod registry;
pub mod session;
pub mod text;
pub mod wire;
