use vstd::prelude::*;
use vstd::string::StringExecFns;

use crate::protocol::{Body, Event, Init, Message};

verus! {

/// Payloads of the unique-id service.
#[derive(Clone, Debug, PartialEq, Eq)]
pub enum Payload {
    Generate,
    GenerateOk { guid: String },
}

/// A node that hands out ids unique across the cluster: its own id, a dash,
/// and its local counter.
pub struct UniqueNode {
    pub node: String,
    /// The next local message id.
    pub id: usize,
}

/// The character of decimal digit `d`.
pub open spec fn digit_char(d: nat) -> char {
    if d == 0 {
        '0'
    } else if d == 1 {
        '1'
    } else if d == 2 {
        '2'
    } else if d == 3 {
        '3'
    } else if d == 4 {
        '4'
    } else if d == 5 {
        '5'
    } else if d == 6 {
        '6'
    } else if d == 7 {
        '7'
    } else if d == 8 {
        '8'
    } else {
        '9'
    }
}

/// `n` in decimal, without leading zeros.
pub open spec fn decimal(n: nat) -> Seq<char>
    decreases n,
{
    if n < 10 {
        seq![digit_char(n)]
    } else {
        decimal(n / 10).push(digit_char(n % 10))
    }
}

/// Relies on `ToString::to_string` for `usize`, through its `Display` impl:
/// the number in decimal, with no sign, padding or leading zeros.
#[verifier::external_body]
fn decimal_string(n: usize) -> (r: String)
    ensures
        r@ == decimal(n as nat),
{
    n.to_string()
}

/// The id handed out by `node` when its counter stands at `id`.
pub open spec fn guid_spec(node: Seq<char>, id: usize) -> Seq<char> {
    node + "-"@ + decimal(id as nat)
}

impl UniqueNode {
    /// A fresh node for the roster's own id; local ids start at 1.
    pub fn from_init(init: Init) -> (r: Self)
        ensures
            r.node == init.node_id,
            r.id == 1,
    {
        UniqueNode { node: init.node_id, id: 1 }
    }

    /// Answers `Generate` with a fresh id; anything else gives no output.
    pub fn step(&mut self, input: Event<Payload, ()>) -> (r: Vec<Message<Payload>>)
        requires
            old(self).id < usize::MAX,
        ensures
            final(self).node == old(self).node,
            match input {
                Event::Message(m) => match m.body.payload {
                    Payload::Generate => {
                        &&& final(self).id == old(self).id + 1
                        &&& r@.len() == 1
                        &&& r@[0].src == m.dst
                        &&& r@[0].dst == m.src
                        &&& r@[0].body.id == Some(old(self).id)
                        &&& r@[0].body.in_reply_to == m.body.id
                        &&& r@[0].body.payload matches Payload::GenerateOk { guid }
                        &&& guid@ == guid_spec(old(self).node@, final(self).id)
                    },
                    Payload::GenerateOk { .. } => r@.len() == 0 && final(self).id == old(self).id,
                },
                _ => r@.len() == 0 && final(self).id == old(self).id,
            },
    {
        match input {
            Event::Message(m) => {
                let Message { src, dst, body } = m;
                let Body { id, in_reply_to, payload } = body;
                match payload {
                    Payload::Generate => {
                        let reply = Message { src, dst, body: Body { id, in_reply_to, payload: Payload::Generate } };
                        let mut reply = reply.into_reply(Some(&mut self.id));
                        let mut guid = self.node.clone();
                        guid.append("-");
                        let digits = decimal_string(self.id);
                        guid.append(digits.as_str());
                        reply.body.payload = Payload::GenerateOk { guid };
                        vec![reply]
                    },
                    Payload::GenerateOk { .. } => Vec::new(),
                }
            },
            _ => Vec::new(),
        }
    }
}

} // verus!
