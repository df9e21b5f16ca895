use vstd::prelude::*;

use crate::protocol::{into_reply_spec, Body, Event, Init, Message};

verus! {

/// Payloads of the echo service.
#[derive(Clone, Debug, PartialEq, Eq)]
pub enum Payload {
    Echo { echo: String },
    EchoOk { echo: String },
}

/// A node that answers each echo request with the same text.
pub struct EchoNode {
    /// The next local message id.
    pub id: usize,
}

impl EchoNode {
    /// A fresh node; local ids start at 1, after the handshake's 0.
    pub fn from_init(_init: Init) -> (r: Self)
        ensures
            r.id == 1,
    {
        EchoNode { id: 1 }
    }

    /// Answers `Echo` with `EchoOk` carrying the same text; anything else
    /// gives no output.
    pub fn step(&mut self, input: Event<Payload, ()>) -> (r: Vec<Message<Payload>>)
        requires
            old(self).id < usize::MAX,
        ensures
            match input {
                Event::Message(m) => match m.body.payload {
                    Payload::Echo { echo } => r@ == seq![into_reply_spec(m, Some(old(self).id), Payload::EchoOk { echo })]
                        && final(self).id == old(self).id + 1,
                    Payload::EchoOk { .. } => r@.len() == 0 && final(self).id == old(self).id,
                },
                _ => r@.len() == 0 && final(self).id == old(self).id,
            },
    {
        match input {
            Event::Message(m) => {
                let Message { src, dst, body } = m;
                let Body { id, in_reply_to, payload } = body;
                match payload {
                    Payload::Echo { echo } => {
                        let reply = Message { src, dst, body: Body { id, in_reply_to, payload: Payload::EchoOk { echo } } };
                        vec![reply.into_reply(Some(&mut self.id))]
                    },
                    Payload::EchoOk { .. } => Vec::new(),
                }
            },
            _ => Vec::new(),
        }
    }
}

} // verus!
