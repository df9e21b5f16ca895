use maelstrom_rust::protocol::{next, Action, HandshakeError, Phase, Signal};
use maelstrom_rust::{
    decode, decode_init, encode, encode_init, handshake, Body, DecodeError, Field, Init, InitPayload, Message,
    Payload, Record,
};

fn s(x: &str) -> String {
    x.to_string()
}

fn msg(payload: Payload, id: Option<usize>, in_reply_to: Option<usize>) -> Message<Payload> {
    Message { src: s("n1"), dst: s("n2"), body: Body { id, in_reply_to, payload } }
}

fn record(body: Vec<(&str, Field)>) -> Record {
    Record { src: s("c1"), dest: s("n1"), body: body.into_iter().map(|(k, f)| (s(k), f)).collect() }
}

#[test]
fn into_reply_swaps_and_correlates() {
    let m = msg(Payload::Read, Some(7), None);
    let mut counter = 4usize;
    let r = m.into_reply(Some(&mut counter));
    assert_eq!(r.src, "n2");
    assert_eq!(r.dst, "n1");
    assert_eq!(r.body.id, Some(4));
    assert_eq!(r.body.in_reply_to, Some(7));
    assert_eq!(r.body.payload, Payload::Read);
    assert_eq!(counter, 5);
}

#[test]
fn into_reply_without_counter_has_no_id() {
    let r = msg(Payload::Read, Some(7), Some(1)).into_reply(None);
    assert_eq!(r.body.id, None);
    assert_eq!(r.body.in_reply_to, Some(7));
}

#[test]
fn every_payload_round_trips() {
    let payloads = vec![
        Payload::Broadcast { message: 12 },
        Payload::BroadcastOk,
        Payload::Read,
        Payload::ReadOk { messages: vec![1, 2, 3] },
        Payload::Topology { topology: vec![(s("n1"), vec![s("n2"), s("n3")]), (s("n2"), vec![])] },
        Payload::TopologyOk,
        Payload::Gossip { seen: vec![] },
    ];
    for p in payloads {
        for (id, irt) in [(None, None), (Some(3), None), (Some(4), Some(2)), (None, Some(8))] {
            let m = msg(p.clone(), id, irt);
            let r = encode(m.clone());
            assert_eq!(decode(&r), Ok(m.clone()));
            assert_eq!(encode(decode(&r).unwrap()), r);
        }
    }
}

#[test]
fn encode_is_flat_with_discriminator() {
    let r = encode(msg(Payload::Broadcast { message: 5 }, Some(1), None));
    assert_eq!(r.src, "n1");
    assert_eq!(r.dest, "n2");
    assert_eq!(
        r.body,
        vec![(s("msg_id"), Field::Num(1)), (s("type"), Field::Text(s("broadcast"))), (s("message"), Field::Num(5))]
    );
    let g = encode(msg(Payload::Gossip { seen: vec![9] }, None, None));
    assert_eq!(g.body, vec![(s("type"), Field::Text(s("gossip"))), (s("seen"), Field::Nums(vec![9]))]);
}

#[test]
fn decode_ignores_field_order() {
    let r = record(vec![("message", Field::Num(5)), ("msg_id", Field::Num(2)), ("type", Field::Text(s("broadcast")))]);
    let m = decode(&r).unwrap();
    assert_eq!(m.src, "c1");
    assert_eq!(m.dst, "n1");
    assert_eq!(m.body.id, Some(2));
    assert_eq!(m.body.in_reply_to, None);
    assert_eq!(m.body.payload, Payload::Broadcast { message: 5 });
}

#[test]
fn decode_errors() {
    assert_eq!(decode(&record(vec![("message", Field::Num(5))])), Err(DecodeError::MissingType));
    assert_eq!(decode(&record(vec![("type", Field::Text(s("echo")))])), Err(DecodeError::UnknownType));
    assert_eq!(decode(&record(vec![("type", Field::Text(s("broadcast")))])), Err(DecodeError::MissingField));
    assert_eq!(
        decode(&record(vec![("type", Field::Text(s("read_ok"))), ("messages", Field::Num(1))])),
        Err(DecodeError::WrongField)
    );
    assert_eq!(decode(&record(vec![("type", Field::Num(1))])), Err(DecodeError::WrongField));
    assert_eq!(
        decode(&record(vec![("type", Field::Text(s("read"))), ("msg_id", Field::Text(s("x")))])),
        Err(DecodeError::WrongField)
    );
}

#[test]
fn init_decodes_and_round_trips() {
    let r = record(vec![
        ("type", Field::Text(s("init"))),
        ("msg_id", Field::Num(1)),
        ("node_id", Field::Text(s("n3"))),
        ("node_ids", Field::Texts(vec![s("n1"), s("n2"), s("n3")])),
    ]);
    let m = decode_init(&r).unwrap();
    assert_eq!(m.body.id, Some(1));
    assert_eq!(m.body.payload, InitPayload::Init(Init { node_id: s("n3"), node_ids: vec![s("n1"), s("n2"), s("n3")] }));
    assert_eq!(decode_init(&encode_init(m.clone())), Ok(m));
    let empty = record(vec![("type", Field::Text(s("init"))), ("node_id", Field::Text(s("n1"))), ("node_ids", Field::Nums(vec![]))]);
    assert_eq!(decode_init(&empty).unwrap().body.payload, InitPayload::Init(Init { node_id: s("n1"), node_ids: vec![] }));
    assert_eq!(decode_init(&record(vec![("type", Field::Text(s("init")))])), Err(DecodeError::MissingField));
}

#[test]
fn handshake_acknowledges_with_id_zero() {
    let init = Init { node_id: s("n1"), node_ids: vec![s("n1"), s("n2")] };
    let m = Message { src: s("c0"), dst: s("n1"), body: Body { id: Some(17), in_reply_to: None, payload: InitPayload::Init(init.clone()) } };
    let (roster, ack) = handshake(m).unwrap();
    assert_eq!(roster, init);
    assert_eq!(ack.src, "n1");
    assert_eq!(ack.dst, "c0");
    assert_eq!(ack.body, Body { id: Some(0), in_reply_to: Some(17), payload: InitPayload::InitOk });
    let r = encode_init(ack);
    assert_eq!(
        r.body,
        vec![(s("msg_id"), Field::Num(0)), (s("in_reply_to"), Field::Num(17)), (s("type"), Field::Text(s("init_ok")))]
    );
}

#[test]
fn handshake_rejects_other_first_message() {
    let m = Message { src: s("c0"), dst: s("n1"), body: Body { id: None, in_reply_to: None, payload: InitPayload::InitOk } };
    assert_eq!(handshake(m), Err(HandshakeError::NotInit));
}

#[test]
fn runtime_phases() {
    assert_eq!(next(Phase::AwaitingHandshake, Signal::Line), (Phase::Running, Action::Acknowledge));
    assert_eq!(next(Phase::AwaitingHandshake, Signal::EndOfStream), (Phase::Terminated, Action::Fail));
    assert_eq!(next(Phase::Running, Signal::Line), (Phase::Running, Action::Step));
    assert_eq!(next(Phase::Running, Signal::Tick), (Phase::Running, Action::Step));
    assert_eq!(next(Phase::Running, Signal::EndOfStream), (Phase::Draining, Action::Step));
    assert_eq!(next(Phase::Running, Signal::Failure), (Phase::Terminated, Action::Fail));
    assert_eq!(next(Phase::Draining, Signal::Tick), (Phase::Draining, Action::Ignore));
    assert_eq!(next(Phase::Draining, Signal::EndOfStream), (Phase::Terminated, Action::Join));
    assert_eq!(next(Phase::Terminated, Signal::Line), (Phase::Terminated, Action::Ignore));
}
