//! Node runtime pieces and a gossip-based broadcast service for a
//! line-oriented message protocol.
//!
//! The library holds the decision logic: message envelopes and replies, the
//! handshake and the runtime's phases, the flat record encoding of payloads,
//! and the broadcast node's state machine with its dissemination rounds.
//! Reading and writing lines, timers and threads are left to the program that
//! drives it.
pub mod broadcast;
pub mod echo;
pub mod protocol;
pub mod unique_id;
pub mod wire;

pub use broadcast::{BroadcastNode, InjectedPayload, Payload, StepError};
pub use protocol::{handshake, Body, Event, Init, InitPayload, Message};
pub use wire::{decode, decode_init, encode, encode_init, DecodeError, Field, Record};
