use vstd::prelude::*;

verus! {

/// The roster a node learns at the handshake: its own id and every participant.
#[derive(Clone, Debug, PartialEq, Eq)]
pub struct Init {
    pub node_id: String,
    pub node_ids: Vec<String>,
}

/// The fields every message body carries beside its payload.
#[derive(Clone, Debug, PartialEq, Eq)]
pub struct Body<Payload> {
    /// Local id, present only when an acknowledgement is expected.
    pub id: Option<usize>,
    /// The id of the message this one answers.
    pub in_reply_to: Option<usize>,
    pub payload: Payload,
}

/// A directed message between two nodes.
#[derive(Clone, Debug, PartialEq, Eq)]
pub struct Message<Payload> {
    pub src: String,
    pub dst: String,
    pub body: Body<Payload>,
}

/// Payloads of the handshake.
#[derive(Clone, Debug, PartialEq, Eq)]
pub enum InitPayload {
    Init(Init),
    InitOk,
}

/// What the consumer hands to a node's step function.
pub enum Event<Payload, InjectedPayload = ()> {
    Message(Message<Payload>),
    Injected(InjectedPayload),
    EOF,
}

/// The reply to `m` that carries payload `p` and local id `id`.
pub open spec fn into_reply_spec<Payload>(m: Message<Payload>, id: Option<usize>, p: Payload) -> Message<Payload> {
    Message {
        src: m.dst,
        dst: m.src,
        body: Body { id: id, in_reply_to: m.body.id, payload: p },
    }
}

impl<Payload> Message<Payload> {
    /// Turns a received message into the skeleton of its reply: source and
    /// destination swap, the received id becomes the correlation id, and,
    /// where a counter is given, its current value becomes the reply's own id
    /// and the counter moves on by one.
    pub fn into_reply(self, id: Option<&mut usize>) -> (r: Self)
        requires
            id matches Some(c) ==> *c < usize::MAX,
        ensures
            id matches Some(c) ==> r == into_reply_spec(self, Some(*c), self.body.payload)
                && *final(c) == *c + 1,
            id is None ==> r == into_reply_spec(self, None, self.body.payload),
    {
        let fresh = match id {
            Some(c) => {
                let mid = *c;
                *c = *c + 1;
                Some(mid)
            },
            None => None,
        };
        Message {
            src: self.dst,
            dst: self.src,
            body: Body { id: fresh, in_reply_to: self.body.id, payload: self.body.payload },
        }
    }
}

/// Why the handshake fails.
#[derive(Clone, Copy, Debug, PartialEq, Eq)]
pub enum HandshakeError {
    /// The first message is not an init request.
    NotInit,
}

/// The handshake: the first message must be an init request. Returns the
/// roster it carries and the acknowledgement, which answers it with local id 0.
pub fn handshake(msg: Message<InitPayload>) -> (r: Result<(Init, Message<InitPayload>), HandshakeError>)
    ensures
        match msg.body.payload {
            InitPayload::Init(init) => r matches Ok((roster, ack)) && roster == init && ack
                == into_reply_spec(msg, Some(0usize), InitPayload::InitOk),
            InitPayload::InitOk => r matches Err(HandshakeError::NotInit),
        },
{
    let Message { src, dst, body } = msg;
    let Body { id, in_reply_to: _, payload } = body;
    match payload {
        InitPayload::Init(init) => {
            let ack = Message { src: dst, dst: src, body: Body { id: Some(0), in_reply_to: id, payload: InitPayload::InitOk } };
            Ok((init, ack))
        },
        InitPayload::InitOk => Err(HandshakeError::NotInit),
    }
}

/// Where the runtime stands.
#[derive(Clone, Copy, Debug, PartialEq, Eq)]
pub enum Phase {
    /// Waiting for the first line, which must be the handshake.
    AwaitingHandshake,
    /// Feeding events to the node, one at a time.
    Running,
    /// The input has ended; the reader is joined.
    Draining,
    /// Nothing more happens.
    Terminated,
}

/// What the runtime observes.
#[derive(Clone, Copy, Debug, PartialEq, Eq)]
pub enum Signal {
    /// A line decoded into a message.
    Line,
    /// A periodic tick.
    Tick,
    /// The input stream ended.
    EndOfStream,
    /// A read, decode or step failed.
    Failure,
}

/// What the runtime does next.
#[derive(Clone, Copy, Debug, PartialEq, Eq)]
pub enum Action {
    /// Build the node from the handshake and acknowledge it.
    Acknowledge,
    /// Hand the event to the node's step function.
    Step,
    /// Join the reader and stop pulling events.
    Join,
    /// Drop the event.
    Ignore,
    /// End the process with an error.
    Fail,
}

/// The runtime's transitions: the first line must be the handshake; while
/// running, lines and ticks are stepped in order; the end of the input is
/// stepped once more and leads to draining; any failure is fatal.
pub open spec fn next_spec(phase: Phase, signal: Signal) -> (Phase, Action) {
    match (phase, signal) {
        (_, Signal::Failure) => (Phase::Terminated, Action::Fail),
        (Phase::AwaitingHandshake, Signal::Line) => (Phase::Running, Action::Acknowledge),
        (Phase::AwaitingHandshake, _) => (Phase::Terminated, Action::Fail),
        (Phase::Running, Signal::EndOfStream) => (Phase::Draining, Action::Step),
        (Phase::Running, _) => (Phase::Running, Action::Step),
        (Phase::Draining, Signal::Tick) => (Phase::Draining, Action::Ignore),
        (Phase::Draining, _) => (Phase::Terminated, Action::Join),
        (Phase::Terminated, _) => (Phase::Terminated, Action::Ignore),
    }
}

/// One transition of the runtime.
pub fn next(phase: Phase, signal: Signal) -> (r: (Phase, Action))
    ensures
        r == next_spec(phase, signal),
{
    match signal {
        Signal::Failure => (Phase::Terminated, Action::Fail),
        Signal::Line => match phase {
            Phase::AwaitingHandshake => (Phase::Running, Action::Acknowledge),
            Phase::Running => (Phase::Running, Action::Step),
            Phase::Draining => (Phase::Terminated, Action::Join),
            Phase::Terminated => (Phase::Terminated, Action::Ignore),
        },
        Signal::Tick => match phase {
            Phase::AwaitingHandshake => (Phase::Terminated, Action::Fail),
            Phase::Running => (Phase::Running, Action::Step),
            Phase::Draining => (Phase::Draining, Action::Ignore),
            Phase::Terminated => (Phase::Terminated, Action::Ignore),
        },
        Signal::EndOfStream => match phase {
            Phase::AwaitingHandshake => (Phase::Terminated, Action::Fail),
            Phase::Running => (Phase::Draining, Action::Step),
            Phase::Draining => (Phase::Terminated, Action::Join),
            Phase::Terminated => (Phase::Terminated, Action::Ignore),
        },
    }
}

} // verus!
