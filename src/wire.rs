use vstd::prelude::*;
use vstd::string::StringExecFns;

use crate::broadcast::Payload;
use crate::echo;
use crate::unique_id;
use crate::protocol::{Body, Init, InitPayload, Message};

verus! {

/// One value of a flat record.
#[derive(Clone, Debug, PartialEq, Eq)]
pub enum Field {
    Num(usize),
    Nums(Vec<usize>),
    Text(String),
    Texts(Vec<String>),
    Graph(Vec<(String, Vec<String>)>),
}

/// A record as it travels: source, destination and one flat body, in which
/// the payload's discriminator (`type`) stands beside the other fields.
#[derive(Clone, Debug, PartialEq, Eq)]
pub struct Record {
    pub src: String,
    pub dest: String,
    pub body: Vec<(String, Field)>,
}

/// What a field holds.
pub enum FieldView {
    Num(usize),
    Nums(Seq<usize>),
    Text(Seq<char>),
    Texts(Seq<Seq<char>>),
    Graph(Seq<(Seq<char>, Seq<Seq<char>>)>),
}

/// What a record holds.
pub struct RecordView {
    pub src: Seq<char>,
    pub dest: Seq<char>,
    pub body: Seq<(Seq<char>, FieldView)>,
}

/// What a broadcast payload holds.
pub enum PayloadView {
    Broadcast { message: usize },
    BroadcastOk,
    Read,
    ReadOk { messages: Seq<usize> },
    Topology { topology: Seq<(Seq<char>, Seq<Seq<char>>)> },
    TopologyOk,
    Gossip { seen: Seq<usize> },
}

/// What a message holds.
pub struct MessageView<P> {
    pub src: Seq<char>,
    pub dst: Seq<char>,
    pub id: Option<usize>,
    pub in_reply_to: Option<usize>,
    pub payload: P,
}

/// What a handshake payload holds.
pub enum InitView {
    Init { node_id: Seq<char>, node_ids: Seq<Seq<char>> },
    InitOk,
}

/// Why a record is not a broadcast message.
#[derive(Clone, Copy, Debug, PartialEq, Eq)]
pub enum DecodeError {
    /// No `type` field.
    MissingType,
    /// A `type` that names no payload.
    UnknownType,
    /// A field that the payload needs is absent.
    MissingField,
    /// A field holds a value of the wrong kind.
    WrongField,
}

/// The texts of a list of strings.
pub open spec fn strings_view(v: Seq<String>) -> Seq<Seq<char>> {
    v.map_values(|s: String| s@)
}

/// The texts of an adjacency list.
pub open spec fn graph_view(g: Seq<(String, Vec<String>)>) -> Seq<(Seq<char>, Seq<Seq<char>>)> {
    g.map_values(|e: (String, Vec<String>)| (e.0@, strings_view(e.1@)))
}

impl View for Field {
    type V = FieldView;

    open spec fn view(&self) -> FieldView {
        match self {
            Field::Num(n) => FieldView::Num(*n),
            Field::Nums(v) => FieldView::Nums(v@),
            Field::Text(s) => FieldView::Text(s@),
            Field::Texts(v) => FieldView::Texts(strings_view(v@)),
            Field::Graph(g) => FieldView::Graph(graph_view(g@)),
        }
    }
}

/// The names and contents of a record body.
pub open spec fn body_view(b: Seq<(String, Field)>) -> Seq<(Seq<char>, FieldView)> {
    b.map_values(|e: (String, Field)| (e.0@, e.1@))
}

impl View for Record {
    type V = RecordView;

    open spec fn view(&self) -> RecordView {
        RecordView { src: self.src@, dest: self.dest@, body: body_view(self.body@) }
    }
}

/// The contents of a broadcast payload.
pub open spec fn payload_view(p: Payload) -> PayloadView {
    match p {
        Payload::Broadcast { message } => PayloadView::Broadcast { message },
        Payload::BroadcastOk => PayloadView::BroadcastOk,
        Payload::Read => PayloadView::Read,
        Payload::ReadOk { messages } => PayloadView::ReadOk { messages: messages@ },
        Payload::Topology { topology } => PayloadView::Topology { topology: graph_view(topology@) },
        Payload::TopologyOk => PayloadView::TopologyOk,
        Payload::Gossip { seen } => PayloadView::Gossip { seen: seen@ },
    }
}

/// The contents of a broadcast message.
pub open spec fn message_view(m: Message<Payload>) -> MessageView<PayloadView> {
    MessageView {
        src: m.src@,
        dst: m.dst@,
        id: m.body.id,
        in_reply_to: m.body.in_reply_to,
        payload: payload_view(m.body.payload),
    }
}

/// The discriminator of each payload variant.
pub open spec fn tag(p: PayloadView) -> Seq<char> {
    match p {
        PayloadView::Broadcast { .. } => "broadcast"@,
        PayloadView::BroadcastOk => "broadcast_ok"@,
        PayloadView::Read => "read"@,
        PayloadView::ReadOk { .. } => "read_ok"@,
        PayloadView::Topology { .. } => "topology"@,
        PayloadView::TopologyOk => "topology_ok"@,
        PayloadView::Gossip { .. } => "gossip"@,
    }
}

/// The discriminator, then the payload's own field if it has one.
pub open spec fn payload_fields(p: PayloadView) -> Seq<(Seq<char>, FieldView)> {
    let t = seq![("type"@, FieldView::Text(tag(p)))];
    match p {
        PayloadView::Broadcast { message } => t.push(("message"@, FieldView::Num(message))),
        PayloadView::ReadOk { messages } => t.push(("messages"@, FieldView::Nums(messages))),
        PayloadView::Topology { topology } => t.push(("topology"@, FieldView::Graph(topology))),
        PayloadView::Gossip { seen } => t.push(("seen"@, FieldView::Nums(seen))),
        _ => t,
    }
}

/// A numeric field named `k` where `o` holds a number; nothing otherwise.
pub open spec fn opt_field(k: Seq<char>, o: Option<usize>) -> Seq<(Seq<char>, FieldView)> {
    match o {
        Some(n) => seq![(k, FieldView::Num(n))],
        None => seq![],
    }
}

/// The record of a message: `msg_id` and `in_reply_to` only where present.
pub open spec fn encode_spec(m: MessageView<PayloadView>) -> RecordView {
    RecordView {
        src: m.src,
        dest: m.dst,
        body: opt_field("msg_id"@, m.id) + opt_field("in_reply_to"@, m.in_reply_to) + payload_fields(
            m.payload,
        ),
    }
}

/// The first field of `b` named `k`.
pub open spec fn lookup(b: Seq<(Seq<char>, FieldView)>, k: Seq<char>) -> Option<FieldView>
    decreases b.len(),
{
    if b.len() == 0 {
        None
    } else if b[0].0 == k {
        Some(b[0].1)
    } else {
        lookup(b.drop_first(), k)
    }
}

/// An optional id: absent, or a number.
pub open spec fn decode_id(f: Option<FieldView>) -> Result<Option<usize>, DecodeError> {
    match f {
        None => Ok(None),
        Some(FieldView::Num(n)) => Ok(Some(n)),
        Some(_) => Err(DecodeError::WrongField),
    }
}

/// A required number.
pub open spec fn decode_num(f: Option<FieldView>) -> Result<usize, DecodeError> {
    match f {
        None => Err(DecodeError::MissingField),
        Some(FieldView::Num(n)) => Ok(n),
        Some(_) => Err(DecodeError::WrongField),
    }
}

/// A required list of numbers.
pub open spec fn decode_nums(f: Option<FieldView>) -> Result<Seq<usize>, DecodeError> {
    match f {
        None => Err(DecodeError::MissingField),
        Some(FieldView::Nums(v)) => Ok(v),
        Some(_) => Err(DecodeError::WrongField),
    }
}

/// A required adjacency list.
pub open spec fn decode_graph(f: Option<FieldView>) -> Result<
    Seq<(Seq<char>, Seq<Seq<char>>)>,
    DecodeError,
> {
    match f {
        None => Err(DecodeError::MissingField),
        Some(FieldView::Graph(g)) => Ok(g),
        Some(_) => Err(DecodeError::WrongField),
    }
}

/// The payload a record body describes, chosen by its `type` field.
pub open spec fn decode_payload_spec(b: Seq<(Seq<char>, FieldView)>) -> Result<PayloadView, DecodeError> {
    match lookup(b, "type"@) {
        None => Err(DecodeError::MissingType),
        Some(FieldView::Text(t)) => {
            if t == "broadcast"@ {
                match decode_num(lookup(b, "message"@)) {
                    Ok(n) => Ok(PayloadView::Broadcast { message: n }),
                    Err(e) => Err(e),
                }
            } else if t == "broadcast_ok"@ {
                Ok(PayloadView::BroadcastOk)
            } else if t == "read"@ {
                Ok(PayloadView::Read)
            } else if t == "read_ok"@ {
                match decode_nums(lookup(b, "messages"@)) {
                    Ok(v) => Ok(PayloadView::ReadOk { messages: v }),
                    Err(e) => Err(e),
                }
            } else if t == "topology"@ {
                match decode_graph(lookup(b, "topology"@)) {
                    Ok(g) => Ok(PayloadView::Topology { topology: g }),
                    Err(e) => Err(e),
                }
            } else if t == "topology_ok"@ {
                Ok(PayloadView::TopologyOk)
            } else if t == "gossip"@ {
                match decode_nums(lookup(b, "seen"@)) {
                    Ok(v) => Ok(PayloadView::Gossip { seen: v }),
                    Err(e) => Err(e),
                }
            } else {
                Err(DecodeError::UnknownType)
            }
        },
        Some(_) => Err(DecodeError::WrongField),
    }
}

/// The message a record describes: its payload first, then its ids.
pub open spec fn decode_spec(r: RecordView) -> Result<MessageView<PayloadView>, DecodeError> {
    match decode_payload_spec(r.body) {
        Err(e) => Err(e),
        Ok(p) => match decode_id(lookup(r.body, "msg_id"@)) {
            Err(e) => Err(e),
            Ok(id) => match decode_id(lookup(r.body, "in_reply_to"@)) {
                Err(e) => Err(e),
                Ok(irt) => Ok(MessageView { src: r.src, dst: r.dest, id, in_reply_to: irt, payload: p }),
            },
        },
    }
}

/// A lookup in a concatenation finds the first part's field if it has one.
proof fn lemma_lookup_append(a: Seq<(Seq<char>, FieldView)>, b: Seq<(Seq<char>, FieldView)>, k: Seq<char>)
    ensures
        lookup(a + b, k) == (match lookup(a, k) {
            Some(f) => Some(f),
            None => lookup(b, k),
        }),
    decreases a.len(),
{
    if a.len() == 0 {
        assert(a + b =~= b);
    } else {
        assert((a + b).drop_first() =~= a.drop_first() + b);
        lemma_lookup_append(a.drop_first(), b, k);
    }
}

/// Decoding the record of any message gives that message back, so that
/// re-encoding a decoded record yields the same record.
pub proof fn lemma_round_trip(m: MessageView<PayloadView>)
    ensures
        decode_spec(encode_spec(m)) == Ok::<MessageView<PayloadView>, DecodeError>(m),
        encode_spec(decode_spec(encode_spec(m))->Ok_0) == encode_spec(m),
{
    reveal_strlit("msg_id");
    reveal_strlit("in_reply_to");
    reveal_strlit("type");
    reveal_strlit("message");
    reveal_strlit("messages");
    reveal_strlit("topology");
    reveal_strlit("seen");
    reveal_strlit("broadcast");
    reveal_strlit("broadcast_ok");
    reveal_strlit("read");
    reveal_strlit("read_ok");
    reveal_strlit("topology_ok");
    reveal_strlit("gossip");
    reveal_with_fuel(lookup, 3);
    let o1 = opt_field("msg_id"@, m.id);
    let o2 = opt_field("in_reply_to"@, m.in_reply_to);
    let pf = payload_fields(m.payload);
    let b = encode_spec(m).body;
    assert(b == (o1 + o2) + pf);
    let keys = seq![
        "msg_id"@,
        "in_reply_to"@,
        "type"@,
        "message"@,
        "messages"@,
        "topology"@,
        "seen"@,
    ];
    assert forall|i: int| 0 <= i < keys.len() implies lookup(b, #[trigger] keys[i]) == (match lookup(o1, keys[i]) {
        Some(f) => Some(f),
        None => match lookup(o2, keys[i]) {
            Some(f) => Some(f),
            None => lookup(pf, keys[i]),
        },
    }) by {
        lemma_lookup_append(o1 + o2, pf, keys[i]);
        lemma_lookup_append(o1, o2, keys[i]);
    }
    assert(keys[0] == "msg_id"@);
    assert(keys[1] == "in_reply_to"@);
    assert(keys[2] == "type"@);
    assert(keys[3] == "message"@);
    assert(keys[4] == "messages"@);
    assert(keys[5] == "topology"@);
    assert(keys[6] == "seen"@);
    assert(lookup(o1, "msg_id"@) == (match m.id { Some(n) => Some(FieldView::Num(n)), None => None::<FieldView> }));
    assert("msg_id"@.len() == 6);
    assert("in_reply_to"@.len() == 11);
    assert("in_reply_to"@ != "msg_id"@);
    assert(lookup(o2, "msg_id"@) is None);
    assert(lookup(pf, "msg_id"@) is None);
    assert(lookup(b, "msg_id"@) == (match m.id { Some(n) => Some(FieldView::Num(n)), None => None::<FieldView> }));
    assert(decode_id(lookup(b, "msg_id"@)) == Ok::<Option<usize>, DecodeError>(m.id));
    assert(lookup(o1, "in_reply_to"@) is None);
    assert(decode_id(lookup(b, "in_reply_to"@)) == Ok::<Option<usize>, DecodeError>(m.in_reply_to));
    assert(lookup(o1, "type"@) is None);
    assert(lookup(o2, "type"@) is None);
    assert(lookup(b, "type"@) == Some(FieldView::Text(tag(m.payload))));
    assert("type"@.len() == 4);
    assert("message"@.len() == 7);
    assert("messages"@.len() == 8);
    assert("topology"@.len() == 8);
    assert("seen"@.len() == 4);
    assert("type"@[0] != "seen"@[0]);
    assert("messages"@[0] != "topology"@[0]);
    assert("broadcast"@.len() == 9 && "broadcast_ok"@.len() == 12 && "read"@.len() == 4);
    assert("read_ok"@.len() == 7 && "topology_ok"@.len() == 11 && "gossip"@.len() == 6);
    match m.payload {
        PayloadView::Broadcast { message } => {
            assert(lookup(b, "message"@) == Some(FieldView::Num(message)));
        },
        PayloadView::ReadOk { messages } => {
            assert(lookup(b, "messages"@) == Some(FieldView::Nums(messages)));
        },
        PayloadView::Topology { topology } => {
            assert(lookup(b, "topology"@) == Some(FieldView::Graph(topology)));
        },
        PayloadView::Gossip { seen } => {
            assert(lookup(b, "seen"@) == Some(FieldView::Nums(seen)));
        },
        _ => {},
    }
    assert(decode_payload_spec(b) == Ok::<PayloadView, DecodeError>(m.payload));
}

/// `t` spells `s`.
fn is_text(t: &String, s: &str) -> (r: bool)
    ensures
        r == (t@ == s@),
{
    *t == String::from_str(s)
}

/// The first field of `b` named `k`.
fn find_field(b: &Vec<(String, Field)>, k: &str) -> (r: Option<usize>)
    ensures
        match r {
            Some(i) => i < b@.len() && lookup(body_view(b@), k@) == Some(b@[i as int].1@),
            None => lookup(body_view(b@), k@) is None,
        },
{
    let ghost bv = body_view(b@);
    assert(bv.subrange(0, bv.len() as int) =~= bv);
    let mut i: usize = 0;
    while i < b.len()
        invariant
            i <= b@.len(),
            bv == body_view(b@),
            lookup(bv, k@) == lookup(bv.subrange(i as int, bv.len() as int), k@),
        decreases b.len() - i,
    {
        let ghost rest = bv.subrange(i as int, bv.len() as int);
        assert(rest[0] == bv[i as int]);
        if is_text(&b[i].0, k) {
            return Some(i);
        }
        assert(rest.drop_first() =~= bv.subrange(i + 1, bv.len() as int));
        i = i + 1;
    }
    None
}

/// A copy of a list of strings.
fn copy_strings(v: &Vec<String>) -> (r: Vec<String>)
    ensures
        strings_view(r@) == strings_view(v@),
{
    let r = v.clone();
    assert(r@ =~= v@);
    r
}

/// A copy of an adjacency list.
fn copy_graph(g: &Vec<(String, Vec<String>)>) -> (r: Vec<(String, Vec<String>)>)
    ensures
        graph_view(r@) == graph_view(g@),
{
    let mut r: Vec<(String, Vec<String>)> = Vec::new();
    let mut i: usize = 0;
    while i < g.len()
        invariant
            i <= g@.len(),
            r@.len() == i,
            forall|j: int|
                0 <= j < i ==> (#[trigger] r@[j]).0@ == g@[j].0@ && strings_view(r@[j].1@)
                    == strings_view(g@[j].1@),
        decreases g.len() - i,
    {
        r.push((g[i].0.clone(), copy_strings(&g[i].1)));
        i = i + 1;
    }
    assert(graph_view(r@) =~= graph_view(g@));
    r
}

/// The required number named `k`.
fn decode_num_field(b: &Vec<(String, Field)>, k: &str) -> (r: Result<usize, DecodeError>)
    ensures
        r == decode_num(lookup(body_view(b@), k@)),
{
    match find_field(b, k) {
        None => Err(DecodeError::MissingField),
        Some(i) => match &b[i].1 {
            Field::Num(n) => Ok(*n),
            _ => Err(DecodeError::WrongField),
        },
    }
}

/// The optional id named `k`.
fn decode_id_field(b: &Vec<(String, Field)>, k: &str) -> (r: Result<Option<usize>, DecodeError>)
    ensures
        r == decode_id(lookup(body_view(b@), k@)),
{
    match find_field(b, k) {
        None => Ok(None),
        Some(i) => match &b[i].1 {
            Field::Num(n) => Ok(Some(*n)),
            _ => Err(DecodeError::WrongField),
        },
    }
}

/// The required list of numbers named `k`.
fn decode_nums_field(b: &Vec<(String, Field)>, k: &str) -> (r: Result<Vec<usize>, DecodeError>)
    ensures
        match decode_nums(lookup(body_view(b@), k@)) {
            Ok(s) => r matches Ok(v) && v@ == s,
            Err(e) => r matches Err(e2) && e2 == e,
        },
{
    match find_field(b, k) {
        None => Err(DecodeError::MissingField),
        Some(i) => match &b[i].1 {
            Field::Nums(v) => {
                let c = v.clone();
                assert(c@ =~= v@);
                Ok(c)
            },
            _ => Err(DecodeError::WrongField),
        },
    }
}

/// The required adjacency list named `k`.
fn decode_graph_field(b: &Vec<(String, Field)>, k: &str) -> (r: Result<Vec<(String, Vec<String>)>, DecodeError>)
    ensures
        match decode_graph(lookup(body_view(b@), k@)) {
            Ok(s) => r matches Ok(g) && graph_view(g@) == s,
            Err(e) => r matches Err(e2) && e2 == e,
        },
{
    match find_field(b, k) {
        None => Err(DecodeError::MissingField),
        Some(i) => match &b[i].1 {
            Field::Graph(g) => Ok(copy_graph(g)),
            _ => Err(DecodeError::WrongField),
        },
    }
}

/// The payload that a record body describes.
pub fn decode_payload(b: &Vec<(String, Field)>) -> (r: Result<Payload, DecodeError>)
    ensures
        match decode_payload_spec(body_view(b@)) {
            Ok(pv) => r matches Ok(p) && payload_view(p) == pv,
            Err(e) => r matches Err(e2) && e2 == e,
        },
{
    match find_field(b, "type") {
        None => Err(DecodeError::MissingType),
        Some(i) => match &b[i].1 {
            Field::Text(t) => {
                if is_text(t, "broadcast") {
                    match decode_num_field(b, "message") {
                        Ok(n) => Ok(Payload::Broadcast { message: n }),
                        Err(e) => Err(e),
                    }
                } else if is_text(t, "broadcast_ok") {
                    Ok(Payload::BroadcastOk)
                } else if is_text(t, "read") {
                    Ok(Payload::Read)
                } else if is_text(t, "read_ok") {
                    match decode_nums_field(b, "messages") {
                        Ok(v) => Ok(Payload::ReadOk { messages: v }),
                        Err(e) => Err(e),
                    }
                } else if is_text(t, "topology") {
                    match decode_graph_field(b, "topology") {
                        Ok(g) => Ok(Payload::Topology { topology: g }),
                        Err(e) => Err(e),
                    }
                } else if is_text(t, "topology_ok") {
                    Ok(Payload::TopologyOk)
                } else if is_text(t, "gossip") {
                    match decode_nums_field(b, "seen") {
                        Ok(v) => Ok(Payload::Gossip { seen: v }),
                        Err(e) => Err(e),
                    }
                } else {
                    Err(DecodeError::UnknownType)
                }
            },
            _ => Err(DecodeError::WrongField),
        },
    }
}

/// The broadcast message that a record describes.
pub fn decode(r: &Record) -> (res: Result<Message<Payload>, DecodeError>)
    ensures
        match decode_spec(r@) {
            Ok(mv) => res matches Ok(m) && message_view(m) == mv,
            Err(e) => res matches Err(e2) && e2 == e,
        },
{
    let payload = match decode_payload(&r.body) {
        Ok(p) => p,
        Err(e) => return Err(e),
    };
    let id = match decode_id_field(&r.body, "msg_id") {
        Ok(id) => id,
        Err(e) => return Err(e),
    };
    let in_reply_to = match decode_id_field(&r.body, "in_reply_to") {
        Ok(v) => v,
        Err(e) => return Err(e),
    };
    Ok(Message { src: r.src.clone(), dst: r.dest.clone(), body: Body { id, in_reply_to, payload } })
}

/// The record of a broadcast message.
pub fn encode(m: Message<Payload>) -> (r: Record)
    ensures
        r@ == encode_spec(message_view(m)),
{
    let ghost mv = message_view(m);
    let Message { src, dst, body } = m;
    let Body { id, in_reply_to, payload } = body;
    let mut fields: Vec<(String, Field)> = Vec::new();
    if let Some(n) = id {
        fields.push((String::from_str("msg_id"), Field::Num(n)));
    }
    if let Some(n) = in_reply_to {
        fields.push((String::from_str("in_reply_to"), Field::Num(n)));
    }
    assert(body_view(fields@) =~= opt_field("msg_id"@, mv.id) + opt_field("in_reply_to"@, mv.in_reply_to));
    let ghost head = fields@;
    let (t, extra): (&str, Option<(&str, Field)>) = match payload {
        Payload::Broadcast { message } => ("broadcast", Some(("message", Field::Num(message)))),
        Payload::BroadcastOk => ("broadcast_ok", None),
        Payload::Read => ("read", None),
        Payload::ReadOk { messages } => ("read_ok", Some(("messages", Field::Nums(messages)))),
        Payload::Topology { topology } => ("topology", Some(("topology", Field::Graph(topology)))),
        Payload::TopologyOk => ("topology_ok", None),
        Payload::Gossip { seen } => ("gossip", Some(("seen", Field::Nums(seen)))),
    };
    assert(t@ == tag(mv.payload));
    fields.push((String::from_str("type"), Field::Text(String::from_str(t))));
    if let Some((k, f)) = extra {
        fields.push((String::from_str(k), f));
    }
    assert(body_view(fields@) =~= body_view(head) + payload_fields(mv.payload));
    Record { src, dest: dst, body: fields }
}

/// The contents of a handshake payload.
pub open spec fn init_view(p: InitPayload) -> InitView {
    match p {
        InitPayload::Init(i) => InitView::Init { node_id: i.node_id@, node_ids: strings_view(i.node_ids@) },
        InitPayload::InitOk => InitView::InitOk,
    }
}

/// The contents of a handshake message.
pub open spec fn init_message_view(m: Message<InitPayload>) -> MessageView<InitView> {
    MessageView {
        src: m.src@,
        dst: m.dst@,
        id: m.body.id,
        in_reply_to: m.body.in_reply_to,
        payload: init_view(m.body.payload),
    }
}

/// The discriminator, then the roster for an init request.
pub open spec fn init_fields(p: InitView) -> Seq<(Seq<char>, FieldView)> {
    match p {
        InitView::Init { node_id, node_ids } => seq![
            ("type"@, FieldView::Text("init"@)),
            ("node_id"@, FieldView::Text(node_id)),
            ("node_ids"@, FieldView::Texts(node_ids)),
        ],
        InitView::InitOk => seq![("type"@, FieldView::Text("init_ok"@))],
    }
}

/// The record of a handshake message.
pub open spec fn encode_init_spec(m: MessageView<InitView>) -> RecordView {
    RecordView {
        src: m.src,
        dest: m.dst,
        body: opt_field("msg_id"@, m.id) + opt_field("in_reply_to"@, m.in_reply_to) + init_fields(
            m.payload,
        ),
    }
}

/// A required text.
pub open spec fn decode_text(f: Option<FieldView>) -> Result<Seq<char>, DecodeError> {
    match f {
        None => Err(DecodeError::MissingField),
        Some(FieldView::Text(t)) => Ok(t),
        Some(_) => Err(DecodeError::WrongField),
    }
}

/// A list of texts; an empty list of numbers is an empty list as well.
pub open spec fn decode_texts(f: Option<FieldView>) -> Result<Seq<Seq<char>>, DecodeError> {
    match f {
        None => Err(DecodeError::MissingField),
        Some(FieldView::Texts(v)) => Ok(v),
        Some(FieldView::Nums(v)) => if v.len() == 0 {
            Ok(Seq::empty())
        } else {
            Err(DecodeError::WrongField)
        },
        Some(_) => Err(DecodeError::WrongField),
    }
}

/// The handshake payload a record body describes.
pub open spec fn decode_init_payload_spec(b: Seq<(Seq<char>, FieldView)>) -> Result<InitView, DecodeError> {
    match lookup(b, "type"@) {
        None => Err(DecodeError::MissingType),
        Some(FieldView::Text(t)) => {
            if t == "init"@ {
                match decode_text(lookup(b, "node_id"@)) {
                    Err(e) => Err(e),
                    Ok(node_id) => match decode_texts(lookup(b, "node_ids"@)) {
                        Err(e) => Err(e),
                        Ok(node_ids) => Ok(InitView::Init { node_id, node_ids }),
                    },
                }
            } else if t == "init_ok"@ {
                Ok(InitView::InitOk)
            } else {
                Err(DecodeError::UnknownType)
            }
        },
        Some(_) => Err(DecodeError::WrongField),
    }
}

/// The handshake message a record describes: its payload first, then its ids.
pub open spec fn decode_init_spec(r: RecordView) -> Result<MessageView<InitView>, DecodeError> {
    match decode_init_payload_spec(r.body) {
        Err(e) => Err(e),
        Ok(p) => match decode_id(lookup(r.body, "msg_id"@)) {
            Err(e) => Err(e),
            Ok(id) => match decode_id(lookup(r.body, "in_reply_to"@)) {
                Err(e) => Err(e),
                Ok(irt) => Ok(MessageView { src: r.src, dst: r.dest, id, in_reply_to: irt, payload: p }),
            },
        },
    }
}

/// Decoding the record of any handshake message gives that message back.
pub proof fn lemma_init_round_trip(m: MessageView<InitView>)
    ensures
        decode_init_spec(encode_init_spec(m)) == Ok::<MessageView<InitView>, DecodeError>(m),
{
    reveal_strlit("msg_id");
    reveal_strlit("in_reply_to");
    reveal_strlit("type");
    reveal_strlit("node_id");
    reveal_strlit("node_ids");
    reveal_strlit("init");
    reveal_strlit("init_ok");
    reveal_with_fuel(lookup, 4);
    let o1 = opt_field("msg_id"@, m.id);
    let o2 = opt_field("in_reply_to"@, m.in_reply_to);
    let pf = init_fields(m.payload);
    let b = encode_init_spec(m).body;
    assert(b == (o1 + o2) + pf);
    assert("msg_id"@.len() == 6 && "in_reply_to"@.len() == 11 && "type"@.len() == 4);
    assert("node_id"@.len() == 7 && "node_ids"@.len() == 8);
    assert("init"@.len() == 4 && "init_ok"@.len() == 7);
    let keys = seq!["msg_id"@, "in_reply_to"@, "type"@, "node_id"@, "node_ids"@];
    assert forall|i: int| 0 <= i < keys.len() implies lookup(b, #[trigger] keys[i]) == (match lookup(o1, keys[i]) {
        Some(f) => Some(f),
        None => match lookup(o2, keys[i]) {
            Some(f) => Some(f),
            None => lookup(pf, keys[i]),
        },
    }) by {
        lemma_lookup_append(o1 + o2, pf, keys[i]);
        lemma_lookup_append(o1, o2, keys[i]);
    }
    assert(keys[0] == "msg_id"@ && keys[1] == "in_reply_to"@ && keys[2] == "type"@);
    assert(keys[3] == "node_id"@ && keys[4] == "node_ids"@);
}

/// The required text named `k`.
fn decode_text_field(b: &Vec<(String, Field)>, k: &str) -> (r: Result<String, DecodeError>)
    ensures
        match decode_text(lookup(body_view(b@), k@)) {
            Ok(t) => r matches Ok(s) && s@ == t,
            Err(e) => r matches Err(e2) && e2 == e,
        },
{
    match find_field(b, k) {
        None => Err(DecodeError::MissingField),
        Some(i) => match &b[i].1 {
            Field::Text(t) => Ok(t.clone()),
            _ => Err(DecodeError::WrongField),
        },
    }
}

/// The required list of texts named `k`.
fn decode_texts_field(b: &Vec<(String, Field)>, k: &str) -> (r: Result<Vec<String>, DecodeError>)
    ensures
        match decode_texts(lookup(body_view(b@), k@)) {
            Ok(t) => r matches Ok(v) && strings_view(v@) == t,
            Err(e) => r matches Err(e2) && e2 == e,
        },
{
    match find_field(b, k) {
        None => Err(DecodeError::MissingField),
        Some(i) => match &b[i].1 {
            Field::Texts(v) => Ok(copy_strings(v)),
            Field::Nums(v) => {
                if v.len() == 0 {
                    let r: Vec<String> = Vec::new();
                    assert(strings_view(r@) =~= Seq::<Seq<char>>::empty());
                    Ok(r)
                } else {
                    Err(DecodeError::WrongField)
                }
            },
            _ => Err(DecodeError::WrongField),
        },
    }
}

/// The handshake message that a record describes.
pub fn decode_init(r: &Record) -> (res: Result<Message<InitPayload>, DecodeError>)
    ensures
        match decode_init_spec(r@) {
            Ok(mv) => res matches Ok(m) && init_message_view(m) == mv,
            Err(e) => res matches Err(e2) && e2 == e,
        },
{
    let payload = match find_field(&r.body, "type") {
        None => return Err(DecodeError::MissingType),
        Some(i) => match &r.body[i].1 {
            Field::Text(t) => {
                if is_text(t, "init") {
                    let node_id = match decode_text_field(&r.body, "node_id") {
                        Ok(s) => s,
                        Err(e) => return Err(e),
                    };
                    let node_ids = match decode_texts_field(&r.body, "node_ids") {
                        Ok(v) => v,
                        Err(e) => return Err(e),
                    };
                    InitPayload::Init(Init { node_id, node_ids })
                } else if is_text(t, "init_ok") {
                    InitPayload::InitOk
                } else {
                    return Err(DecodeError::UnknownType);
                }
            },
            _ => return Err(DecodeError::WrongField),
        },
    };
    let id = match decode_id_field(&r.body, "msg_id") {
        Ok(id) => id,
        Err(e) => return Err(e),
    };
    let in_reply_to = match decode_id_field(&r.body, "in_reply_to") {
        Ok(v) => v,
        Err(e) => return Err(e),
    };
    Ok(Message { src: r.src.clone(), dst: r.dest.clone(), body: Body { id, in_reply_to, payload } })
}

/// The record of a handshake message.
pub fn encode_init(m: Message<InitPayload>) -> (r: Record)
    ensures
        r@ == encode_init_spec(init_message_view(m)),
{
    let ghost mv = init_message_view(m);
    let Message { src, dst, body } = m;
    let Body { id, in_reply_to, payload } = body;
    let mut fields: Vec<(String, Field)> = Vec::new();
    if let Some(n) = id {
        fields.push((String::from_str("msg_id"), Field::Num(n)));
    }
    if let Some(n) = in_reply_to {
        fields.push((String::from_str("in_reply_to"), Field::Num(n)));
    }
    assert(body_view(fields@) =~= opt_field("msg_id"@, mv.id) + opt_field("in_reply_to"@, mv.in_reply_to));
    let ghost head = fields@;
    match payload {
        InitPayload::Init(init) => {
            fields.push((String::from_str("type"), Field::Text(String::from_str("init"))));
            fields.push((String::from_str("node_id"), Field::Text(init.node_id)));
            fields.push((String::from_str("node_ids"), Field::Texts(init.node_ids)));
        },
        InitPayload::InitOk => {
            fields.push((String::from_str("type"), Field::Text(String::from_str("init_ok"))));
        },
    }
    assert(body_view(fields@) =~= body_view(head) + init_fields(mv.payload));
    Record { src, dest: dst, body: fields }
}

/// The message that a record whose payload decoded to `p` describes: its ids
/// come next.
pub open spec fn with_header<P>(r: RecordView, p: P) -> Result<MessageView<P>, DecodeError> {
    match decode_id(lookup(r.body, "msg_id"@)) {
        Err(e) => Err(e),
        Ok(id) => match decode_id(lookup(r.body, "in_reply_to"@)) {
            Err(e) => Err(e),
            Ok(irt) => Ok(MessageView { src: r.src, dst: r.dest, id, in_reply_to: irt, payload: p }),
        },
    }
}

/// The record of a message whose payload gives `fields`.
pub open spec fn record_of<P>(m: MessageView<P>, fields: Seq<(Seq<char>, FieldView)>) -> RecordView {
    RecordView {
        src: m.src,
        dest: m.dst,
        body: opt_field("msg_id"@, m.id) + opt_field("in_reply_to"@, m.in_reply_to) + fields,
    }
}

/// Reads the ids of `r` around an already decoded payload.
fn decode_header<P>(r: &Record, payload: P) -> (res: Result<Message<P>, DecodeError>)
    ensures
        match with_header(r@, payload) {
            Ok(mv) => res matches Ok(m) && m.src@ == mv.src && m.dst@ == mv.dst && m.body.id == mv.id
                && m.body.in_reply_to == mv.in_reply_to && m.body.payload == payload,
            Err(e) => res matches Err(e2) && e2 == e,
        },
{
    let id = match decode_id_field(&r.body, "msg_id") {
        Ok(id) => id,
        Err(e) => return Err(e),
    };
    let in_reply_to = match decode_id_field(&r.body, "in_reply_to") {
        Ok(v) => v,
        Err(e) => return Err(e),
    };
    Ok(Message { src: r.src.clone(), dst: r.dest.clone(), body: Body { id, in_reply_to, payload } })
}

/// The id fields of a record: `msg_id` and `in_reply_to`, where present.
fn header_fields(id: Option<usize>, in_reply_to: Option<usize>) -> (r: Vec<(String, Field)>)
    ensures
        body_view(r@) == opt_field("msg_id"@, id) + opt_field("in_reply_to"@, in_reply_to),
{
    let mut fields: Vec<(String, Field)> = Vec::new();
    if let Some(n) = id {
        fields.push((String::from_str("msg_id"), Field::Num(n)));
    }
    if let Some(n) = in_reply_to {
        fields.push((String::from_str("in_reply_to"), Field::Num(n)));
    }
    assert(body_view(fields@) =~= opt_field("msg_id"@, id) + opt_field("in_reply_to"@, in_reply_to));
    fields
}

/// What an echo payload holds.
pub enum EchoView {
    Echo { echo: Seq<char> },
    EchoOk { echo: Seq<char> },
}

/// The contents of an echo payload.
pub open spec fn echo_view(p: echo::Payload) -> EchoView {
    match p {
        echo::Payload::Echo { echo } => EchoView::Echo { echo: echo@ },
        echo::Payload::EchoOk { echo } => EchoView::EchoOk { echo: echo@ },
    }
}

/// The discriminator, then the text.
pub open spec fn echo_fields(p: EchoView) -> Seq<(Seq<char>, FieldView)> {
    match p {
        EchoView::Echo { echo } => seq![("type"@, FieldView::Text("echo"@)), ("echo"@, FieldView::Text(echo))],
        EchoView::EchoOk { echo } => seq![("type"@, FieldView::Text("echo_ok"@)), ("echo"@, FieldView::Text(echo))],
    }
}

/// The echo payload a record body describes.
pub open spec fn decode_echo_spec(b: Seq<(Seq<char>, FieldView)>) -> Result<EchoView, DecodeError> {
    match lookup(b, "type"@) {
        None => Err(DecodeError::MissingType),
        Some(FieldView::Text(t)) => {
            if t == "echo"@ || t == "echo_ok"@ {
                match decode_text(lookup(b, "echo"@)) {
                    Err(e) => Err(e),
                    Ok(e) => if t == "echo"@ {
                        Ok(EchoView::Echo { echo: e })
                    } else {
                        Ok(EchoView::EchoOk { echo: e })
                    },
                }
            } else {
                Err(DecodeError::UnknownType)
            }
        },
        Some(_) => Err(DecodeError::WrongField),
    }
}

/// The echo message that a record describes.
pub fn decode_echo(r: &Record) -> (res: Result<Message<echo::Payload>, DecodeError>)
    ensures
        match decode_echo_spec(r@.body) {
            Err(e) => res matches Err(e2) && e2 == e,
            Ok(pv) => match with_header(r@, pv) {
                Ok(mv) => res matches Ok(m) && m.src@ == mv.src && m.dst@ == mv.dst && m.body.id == mv.id
                    && m.body.in_reply_to == mv.in_reply_to && echo_view(m.body.payload) == pv,
                Err(e) => res matches Err(e2) && e2 == e,
            },
        },
{
    let payload = match find_field(&r.body, "type") {
        None => return Err(DecodeError::MissingType),
        Some(i) => match &r.body[i].1 {
            Field::Text(t) => {
                let request = is_text(t, "echo");
                if request || is_text(t, "echo_ok") {
                    let text = match decode_text_field(&r.body, "echo") {
                        Ok(s) => s,
                        Err(e) => return Err(e),
                    };
                    if request {
                        echo::Payload::Echo { echo: text }
                    } else {
                        echo::Payload::EchoOk { echo: text }
                    }
                } else {
                    return Err(DecodeError::UnknownType);
                }
            },
            _ => return Err(DecodeError::WrongField),
        },
    };
    decode_header(r, payload)
}

/// The record of an echo message.
pub fn encode_echo(m: Message<echo::Payload>) -> (r: Record)
    ensures
        r@ == record_of(
            MessageView { src: m.src@, dst: m.dst@, id: m.body.id, in_reply_to: m.body.in_reply_to, payload: () },
            echo_fields(echo_view(m.body.payload)),
        ),
{
    let ghost pv = echo_view(m.body.payload);
    let Message { src, dst, body } = m;
    let Body { id, in_reply_to, payload } = body;
    let mut fields = header_fields(id, in_reply_to);
    let ghost head = fields@;
    let (t, text) = match payload {
        echo::Payload::Echo { echo } => ("echo", echo),
        echo::Payload::EchoOk { echo } => ("echo_ok", echo),
    };
    fields.push((String::from_str("type"), Field::Text(String::from_str(t))));
    fields.push((String::from_str("echo"), Field::Text(text)));
    assert(body_view(fields@) =~= body_view(head) + echo_fields(pv));
    Record { src, dest: dst, body: fields }
}

/// What a unique-id payload holds.
pub enum GenerateView {
    Generate,
    GenerateOk { guid: Seq<char> },
}

/// The contents of a unique-id payload.
pub open spec fn generate_view(p: unique_id::Payload) -> GenerateView {
    match p {
        unique_id::Payload::Generate => GenerateView::Generate,
        unique_id::Payload::GenerateOk { guid } => GenerateView::GenerateOk { guid: guid@ },
    }
}

/// The discriminator, then the new id under the name `id`.
pub open spec fn generate_fields(p: GenerateView) -> Seq<(Seq<char>, FieldView)> {
    match p {
        GenerateView::Generate => seq![("type"@, FieldView::Text("generate"@))],
        GenerateView::GenerateOk { guid } => seq![
            ("type"@, FieldView::Text("generate_ok"@)),
            ("id"@, FieldView::Text(guid)),
        ],
    }
}

/// The unique-id payload a record body describes.
pub open spec fn decode_generate_spec(b: Seq<(Seq<char>, FieldView)>) -> Result<GenerateView, DecodeError> {
    match lookup(b, "type"@) {
        None => Err(DecodeError::MissingType),
        Some(FieldView::Text(t)) => {
            if t == "generate"@ {
                Ok(GenerateView::Generate)
            } else if t == "generate_ok"@ {
                match decode_text(lookup(b, "id"@)) {
                    Err(e) => Err(e),
                    Ok(g) => Ok(GenerateView::GenerateOk { guid: g }),
                }
            } else {
                Err(DecodeError::UnknownType)
            }
        },
        Some(_) => Err(DecodeError::WrongField),
    }
}

/// The unique-id message that a record describes.
pub fn decode_generate(r: &Record) -> (res: Result<Message<unique_id::Payload>, DecodeError>)
    ensures
        match decode_generate_spec(r@.body) {
            Err(e) => res matches Err(e2) && e2 == e,
            Ok(pv) => match with_header(r@, pv) {
                Ok(mv) => res matches Ok(m) && m.src@ == mv.src && m.dst@ == mv.dst && m.body.id == mv.id
                    && m.body.in_reply_to == mv.in_reply_to && generate_view(m.body.payload) == pv,
                Err(e) => res matches Err(e2) && e2 == e,
            },
        },
{
    let payload = match find_field(&r.body, "type") {
        None => return Err(DecodeError::MissingType),
        Some(i) => match &r.body[i].1 {
            Field::Text(t) => {
                if is_text(t, "generate") {
                    unique_id::Payload::Generate
                } else if is_text(t, "generate_ok") {
                    match decode_text_field(&r.body, "id") {
                        Ok(g) => unique_id::Payload::GenerateOk { guid: g },
                        Err(e) => return Err(e),
                    }
                } else {
                    return Err(DecodeError::UnknownType);
                }
            },
            _ => return Err(DecodeError::WrongField),
        },
    };
    decode_header(r, payload)
}

/// The record of a unique-id message.
pub fn encode_generate(m: Message<unique_id::Payload>) -> (r: Record)
    ensures
        r@ == record_of(
            MessageView { src: m.src@, dst: m.dst@, id: m.body.id, in_reply_to: m.body.in_reply_to, payload: () },
            generate_fields(generate_view(m.body.payload)),
        ),
{
    let ghost pv = generate_view(m.body.payload);
    let Message { src, dst, body } = m;
    let Body { id, in_reply_to, payload } = body;
    let mut fields = header_fields(id, in_reply_to);
    let ghost head = fields@;
    match payload {
        unique_id::Payload::Generate => {
            fields.push((String::from_str("type"), Field::Text(String::from_str("generate"))));
        },
        unique_id::Payload::GenerateOk { guid } => {
            fields.push((String::from_str("type"), Field::Text(String::from_str("generate_ok"))));
            fields.push((String::from_str("id"), Field::Text(guid)));
        },
    }
    assert(body_view(fields@) =~= body_view(head) + generate_fields(pv));
    Record { src, dest: dst, body: fields }
}

/// Decoding the record of any echo or unique-id message gives that message
/// back.
pub proof fn lemma_service_round_trip(m: MessageView<()>, e: EchoView, g: GenerateView)
    ensures
        decode_echo_spec(record_of(m, echo_fields(e)).body) == Ok::<EchoView, DecodeError>(e),
        with_header(record_of(m, echo_fields(e)), e) == Ok::<MessageView<EchoView>, DecodeError>(
            MessageView { src: m.src, dst: m.dst, id: m.id, in_reply_to: m.in_reply_to, payload: e },
        ),
        decode_generate_spec(record_of(m, generate_fields(g)).body) == Ok::<GenerateView, DecodeError>(g),
        with_header(record_of(m, generate_fields(g)), g) == Ok::<MessageView<GenerateView>, DecodeError>(
            MessageView { src: m.src, dst: m.dst, id: m.id, in_reply_to: m.in_reply_to, payload: g },
        ),
{
    reveal_strlit("msg_id");
    reveal_strlit("in_reply_to");
    reveal_strlit("type");
    reveal_strlit("echo");
    reveal_strlit("echo_ok");
    reveal_strlit("id");
    reveal_strlit("generate");
    reveal_strlit("generate_ok");
    reveal_with_fuel(lookup, 3);
    assert("msg_id"@.len() == 6 && "in_reply_to"@.len() == 11 && "type"@.len() == 4);
    assert("echo"@.len() == 4 && "echo_ok"@.len() == 7 && "id"@.len() == 2);
    assert("generate"@.len() == 8 && "generate_ok"@.len() == 11);
    assert("type"@[0] != "echo"@[0]);
    let o1 = opt_field("msg_id"@, m.id);
    let o2 = opt_field("in_reply_to"@, m.in_reply_to);
    let keys = seq!["msg_id"@, "in_reply_to"@, "type"@, "echo"@, "id"@];
    let fs = seq![echo_fields(e), generate_fields(g)];
    assert forall|i: int, f: int| 0 <= i < keys.len() && 0 <= f < fs.len() implies lookup(
        (o1 + o2) + #[trigger] fs[f],
        #[trigger] keys[i],
    ) == (match lookup(o1, keys[i]) {
        Some(x) => Some(x),
        None => match lookup(o2, keys[i]) {
            Some(x) => Some(x),
            None => lookup(fs[f], keys[i]),
        },
    }) by {
        lemma_lookup_append(o1 + o2, fs[f], keys[i]);
        lemma_lookup_append(o1, o2, keys[i]);
    }
    assert(keys[0] == "msg_id"@ && keys[1] == "in_reply_to"@ && keys[2] == "type"@);
    assert(keys[3] == "echo"@ && keys[4] == "id"@);
    assert(fs[0] == echo_fields(e) && fs[1] == generate_fields(g));
    assert(record_of(m, echo_fields(e)).body == (o1 + o2) + fs[0]);
    assert(record_of(m, generate_fields(g)).body == (o1 + o2) + fs[1]);
}

} // verus!
