use maelstrom_rust::echo::{self, EchoNode};
use maelstrom_rust::unique_id::{self, UniqueNode};
use maelstrom_rust::wire::{decode_echo, decode_generate, encode_echo, encode_generate};
use maelstrom_rust::{Body, DecodeError, Event, Field, Init, Message, Record};

fn init(id: &str) -> Init {
    Init { node_id: id.to_string(), node_ids: vec![id.to_string()] }
}

fn request<P>(payload: P, id: usize) -> Event<P, ()> {
    Event::Message(Message { src: "c1".to_string(), dst: "n1".to_string(), body: Body { id: Some(id), in_reply_to: None, payload } })
}

#[test]
fn echo_replies_with_same_text() {
    let mut n = EchoNode::from_init(init("n1"));
    let out = n.step(request(echo::Payload::Echo { echo: "hello".to_string() }, 4));
    assert_eq!(out.len(), 1);
    assert_eq!(out[0].src, "n1");
    assert_eq!(out[0].dst, "c1");
    assert_eq!(out[0].body, Body { id: Some(1), in_reply_to: Some(4), payload: echo::Payload::EchoOk { echo: "hello".to_string() } });
    assert_eq!(n.id, 2);
    assert!(n.step(Event::EOF).is_empty());
}

#[test]
fn unique_ids_are_distinct() {
    let mut n = UniqueNode::from_init(init("n1"));
    let a = n.step(request(unique_id::Payload::Generate, 1));
    let b = n.step(request(unique_id::Payload::Generate, 2));
    assert_eq!(a[0].body.payload, unique_id::Payload::GenerateOk { guid: "n1-2".to_string() });
    assert_eq!(b[0].body.payload, unique_id::Payload::GenerateOk { guid: "n1-3".to_string() });
    assert_eq!(a[0].body.id, Some(1));
    assert_eq!(b[0].body.in_reply_to, Some(2));
}

#[test]
fn unique_id_uses_decimal_counter() {
    let mut n = UniqueNode::from_init(init("n7"));
    n.id = 9;
    let out = n.step(request(unique_id::Payload::Generate, 1));
    assert_eq!(out[0].body.payload, unique_id::Payload::GenerateOk { guid: "n7-10".to_string() });
    assert!(n.step(request(unique_id::Payload::GenerateOk { guid: "x".to_string() }, 3)).is_empty());
}

#[test]
fn echo_records_round_trip() {
    let m = Message {
        src: "n1".to_string(),
        dst: "c1".to_string(),
        body: Body { id: Some(3), in_reply_to: Some(2), payload: echo::Payload::EchoOk { echo: "hi".to_string() } },
    };
    let r = encode_echo(m.clone());
    assert_eq!(
        r.body,
        vec![
            ("msg_id".to_string(), Field::Num(3)),
            ("in_reply_to".to_string(), Field::Num(2)),
            ("type".to_string(), Field::Text("echo_ok".to_string())),
            ("echo".to_string(), Field::Text("hi".to_string())),
        ]
    );
    assert_eq!(decode_echo(&r), Ok(m));
}

#[test]
fn generate_records_round_trip() {
    let m = Message {
        src: "n1".to_string(),
        dst: "c1".to_string(),
        body: Body { id: None, in_reply_to: Some(2), payload: unique_id::Payload::GenerateOk { guid: "n1-2".to_string() } },
    };
    let r = encode_generate(m.clone());
    assert_eq!(r.body[2], ("id".to_string(), Field::Text("n1-2".to_string())));
    assert_eq!(decode_generate(&r), Ok(m));
    let bad = Record { src: "c".to_string(), dest: "n".to_string(), body: vec![("type".to_string(), Field::Text("generate_ok".to_string()))] };
    assert_eq!(decode_generate(&bad), Err(DecodeError::MissingField));
}
