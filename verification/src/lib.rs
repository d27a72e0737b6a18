//! A synthetic access-log record generator with a verified wire codec and a
//! verified streaming-session state machine.
//!
//! The library produces structured records whose every field lies in a
//! declared domain, renders them as a self-describing text document, parses
//! that document back, and models the lifecycle of one streaming connection.

pub mod rng;
pub mod record;
pub mod timeutil;
pub mod generator;
pub mod codec;
pub mod parse;
pub mod roundtrip;
pub mod session;
pub mod geo;
