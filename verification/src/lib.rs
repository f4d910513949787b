//! Client engine for a home-automation device protocol: a single persistent,
//! length-framed, multiplexed-by-type message stream over a byte channel.
//!
//! The crate is organised bottom-up:
//! - [`varint`]: the variable-length integer encoding used by the wire format;
//! - [`fields`]: the tag/value field layer of message payloads;
//! - [`messages`]: the typed messages and their payload codecs;
//! - [`frame`]: the envelope (marker, length, type tag, payload);
//! - [`model`]: message registry, entities, states, errors and events;
//! - [`peer`]: the in-memory byte channel the engine reads and writes;
//! - [`connection`]: the engine itself (send, request, push interception);
//! - [`device`]: the session phases (connected, authenticated) and enumeration.

pub mod fields;
pub mod frame;
pub mod messages;
pub mod model;
pub mod peer;
pub mod connection;
pub mod device;
pub mod varint;
