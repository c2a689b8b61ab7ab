//! Delayed events of a chat server.
//!
//! A client may ask the server to send an event later: after a delay that can be
//! restarted, unless it is cancelled or sent before. This library holds the
//! rules: what is scheduled and refused, when an event is due, who may touch it,
//! which policy it has to meet when it is sent, and what requests are answered.
//!
//! The library neither reads nor writes anything itself. A function takes what
//! was read, and what the clock said, and gives its result together with what
//! is to be written ([`store::Write`]). Where a decision depends on the rest of
//! the server, the function gives the question ([`policy::Question`]).
//!
//! [`service_laws`], [`policy_laws`] and [`request_laws`] state what each
//! operation does, [`laws`] what holds of the operations together, [`history`]
//! what holds over any number of calls, and [`view_laws`] what the values stand
//! for.
pub mod config;
pub mod content;
pub mod delay_id;
pub mod error;
pub mod event;
pub mod history;
pub mod json;
pub mod laws;
pub mod messages;
pub mod policy;
pub mod policy_laws;
pub mod query;
pub mod request_laws;
pub mod requests;
pub mod room_state;
pub mod scheduling;
pub mod sending;
pub mod service;
pub mod service_laws;
pub mod store;
pub mod text;
pub mod view_laws;
pub mod worker;
