use rand::Rng;

use maelstrom_rust::broadcast::{resample, resample_ratio, select_drawn};
use maelstrom_rust::{Body, BroadcastNode, Event, Init, InjectedPayload, Message, Payload, StepError};

fn s(x: &str) -> String {
    x.to_string()
}

fn node(id: &str, roster: &[&str]) -> BroadcastNode {
    BroadcastNode::from_init(Init { node_id: s(id), node_ids: roster.iter().map(|r| s(r)).collect() })
}

fn request(src: &str, dst: &str, id: Option<usize>, payload: Payload) -> Event<Payload, InjectedPayload> {
    Event::Message(Message { src: s(src), dst: s(dst), body: Body { id, in_reply_to: None, payload } })
}

fn sorted(mut v: Vec<usize>) -> Vec<usize> {
    v.sort();
    v
}

#[test]
fn from_init_sets_up_roster() {
    let n = node("n1", &["n1", "n2", "n3"]);
    assert_eq!(n.node, "n1");
    assert_eq!(n.id, 1);
    assert!(n.messages.is_empty());
    assert!(n.neighbors.is_empty());
    assert_eq!(n.known.len(), 3);
    assert_eq!(n.known[1], (s("n2"), vec![]));
}

#[test]
fn from_init_keeps_one_estimate_per_peer() {
    let n = node("n1", &["n1", "n2", "n1", "n2", "n3"]);
    let keys: Vec<&str> = n.known.iter().map(|(k, _)| k.as_str()).collect();
    assert_eq!(keys, vec!["n1", "n2", "n3"]);
}

#[test]
fn exhausted_counter_still_reports_missing_topology() {
    let mut n = node("n1", &["n1", "n2"]);
    n.id = usize::MAX;
    let topology = vec![(s("n2"), vec![s("n1")])];
    let r = n.step(request("c1", "n1", Some(5), Payload::Topology { topology }));
    assert_eq!(r, Err(StepError::MissingTopology { node: s("n1") }));
    assert!(n.step(Event::Injected(InjectedPayload::Gossip)).unwrap().is_empty());
}

#[test]
fn repeated_broadcast_is_idempotent() {
    let mut n = node("n1", &["n1"]);
    for k in 0..3 {
        let out = n.step(request("c1", "n1", Some(k + 1), Payload::Broadcast { message: 7 })).unwrap();
        assert_eq!(out.len(), 1);
        assert_eq!(out[0].body.payload, Payload::BroadcastOk);
    }
    let out = n.step(request("c1", "n1", Some(10), Payload::Read)).unwrap();
    assert_eq!(out.len(), 1);
    assert_eq!(out[0].body.payload, Payload::ReadOk { messages: vec![7] });
}

#[test]
fn read_returns_every_value_once() {
    let mut n = node("n1", &["n1"]);
    for v in [3usize, 1, 3, 2, 1] {
        n.step(request("c1", "n1", Some(1), Payload::Broadcast { message: v })).unwrap();
    }
    let out = n.step(request("c1", "n1", Some(9), Payload::Read)).unwrap();
    assert_eq!(out[0].body.payload, Payload::ReadOk { messages: vec![3, 1, 2] });
}

#[test]
fn replies_are_correlated_with_fresh_ids() {
    let mut n = node("n1", &["n1"]);
    let a = n.step(request("c1", "n1", Some(42), Payload::Broadcast { message: 1 })).unwrap();
    let b = n.step(request("c2", "n1", Some(42), Payload::Read)).unwrap();
    assert_eq!(a.len(), 1);
    assert_eq!(a[0].src, "n1");
    assert_eq!(a[0].dst, "c1");
    assert_eq!(a[0].body.in_reply_to, Some(42));
    assert_eq!(a[0].body.id, Some(1));
    assert_eq!(b[0].dst, "c2");
    assert_eq!(b[0].body.in_reply_to, Some(42));
    assert_eq!(b[0].body.id, Some(2));
    assert_eq!(n.id, 3);
}

#[test]
fn topology_sets_neighbors() {
    let mut n = node("n1", &["n1", "n2", "n3"]);
    let topology = vec![(s("n1"), vec![s("n2"), s("n3")]), (s("n2"), vec![s("n1")])];
    let out = n.step(request("c1", "n1", Some(5), Payload::Topology { topology })).unwrap();
    assert_eq!(out.len(), 1);
    assert_eq!(out[0].body.payload, Payload::TopologyOk);
    assert_eq!(out[0].body.in_reply_to, Some(5));
    assert_eq!(n.neighbors, vec![s("n2"), s("n3")]);
}

#[test]
fn topology_without_self_is_fatal() {
    let mut n = node("n1", &["n1", "n2"]);
    let topology = vec![(s("n2"), vec![s("n1")])];
    let r = n.step(request("c1", "n1", Some(5), Payload::Topology { topology }));
    assert_eq!(r, Err(StepError::MissingTopology { node: s("n1") }));
    assert!(n.neighbors.is_empty());
    assert_eq!(n.id, 1);
}

#[test]
fn gossip_merges_values_and_estimate() {
    let mut n = node("n1", &["n1", "n2"]);
    n.step(request("c1", "n1", Some(1), Payload::Broadcast { message: 4 })).unwrap();
    let out = n.step(request("n2", "n1", None, Payload::Gossip { seen: vec![4, 5, 6] })).unwrap();
    assert!(out.is_empty());
    assert_eq!(n.messages, vec![4, 5, 6]);
    assert_eq!(n.known[1], (s("n2"), vec![4, 5, 6]));
    assert_eq!(n.id, 2);
}

#[test]
fn gossip_from_unknown_peer_is_fatal() {
    let mut n = node("n1", &["n1", "n2"]);
    let r = n.step(request("n9", "n1", None, Payload::Gossip { seen: vec![1] }));
    assert_eq!(r, Err(StepError::UnknownPeer { peer: s("n9") }));
    assert!(n.messages.is_empty());
}

#[test]
fn acknowledgements_received_are_ignored() {
    let mut n = node("n1", &["n1"]);
    let out = n.step(request("n2", "n1", None, Payload::BroadcastOk)).unwrap();
    assert!(out.is_empty());
    assert_eq!(n.id, 1);
}

#[test]
fn end_of_stream_sends_nothing() {
    let mut n = node("n1", &["n1"]);
    let out = n.step(Event::EOF).unwrap();
    assert!(out.is_empty());
}

#[test]
fn tick_offers_unknown_values_to_each_neighbor() {
    let mut n = node("n1", &["n1", "n2", "n3"]);
    let topology = vec![(s("n1"), vec![s("n2"), s("n3")])];
    n.step(request("c1", "n1", Some(1), Payload::Topology { topology })).unwrap();
    for v in [1usize, 2, 3] {
        n.step(request("c1", "n1", Some(2), Payload::Broadcast { message: v })).unwrap();
    }
    n.step(request("n2", "n1", None, Payload::Gossip { seen: vec![2] })).unwrap();
    let out = n.step(Event::Injected(InjectedPayload::Gossip)).unwrap();
    assert_eq!(out.len(), 2);
    assert_eq!(out[0].src, "n1");
    assert_eq!(out[0].dst, "n2");
    assert_eq!(out[0].body.id, None);
    assert_eq!(out[0].body.in_reply_to, None);
    // The two unknown values come first; the known one is resent with odds 2 in 10.
    match &out[0].body.payload {
        Payload::Gossip { seen } => assert!(seen == &vec![1, 3] || seen == &vec![1, 3, 2], "{seen:?}"),
        other => panic!("unexpected {other:?}"),
    }
    assert_eq!(out[1].dst, "n3");
    assert_eq!(out[1].body.payload, Payload::Gossip { seen: vec![1, 2, 3] });
    // Sending does not credit the neighbor.
    assert_eq!(n.known[1], (s("n2"), vec![2]));
}

#[test]
fn tick_with_neighbor_outside_roster_is_fatal() {
    let mut n = node("n1", &["n1", "n2"]);
    let topology = vec![(s("n1"), vec![s("n2"), s("n7")])];
    n.step(request("c1", "n1", Some(1), Payload::Topology { topology })).unwrap();
    let r = n.step(Event::Injected(InjectedPayload::Gossip));
    assert_eq!(r, Err(StepError::UnknownPeer { peer: s("n7") }));
}

#[test]
fn tick_without_neighbors_sends_nothing() {
    let mut n = node("n1", &["n1"]);
    n.step(request("c1", "n1", Some(1), Payload::Broadcast { message: 9 })).unwrap();
    let out = n.step(Event::Injected(InjectedPayload::Gossip)).unwrap();
    assert!(out.is_empty());
}

#[test]
fn resample_ratio_values() {
    assert_eq!(resample_ratio(0, 0), (0, 0));
    assert_eq!(resample_ratio(0, 7), (0, 0));
    assert_eq!(resample_ratio(5, 9), (9, 50));
    assert_eq!(resample_ratio(5, 10), (10, 50));
    assert_eq!(resample_ratio(3, 5), (5, 30));
    assert_eq!(resample_ratio(100, 305), (305, 1000));
    assert_eq!(resample_ratio(3, 1000), (30, 30));
}

#[test]
fn resample_extremes() {
    let known = vec![10usize, 20, 30];
    assert!(resample(&known, 0).is_empty());
    assert_eq!(resample(&known, 30), known);
    assert_eq!(resample(&known, 1000), known);
    assert!(resample(&vec![], 50).is_empty());
}

#[test]
fn resample_mean_for_few_unknown_values() {
    // Three known and five unknown values: odds 5 in 30, half a value per round.
    let known = vec![1usize, 2, 3];
    let trials = 20000;
    let total: usize = (0..trials).map(|_| resample(&known, 5).len()).sum();
    let mean = total as f64 / trials as f64;
    assert!((mean - 0.5).abs() < 0.05, "mean={mean}");
}

#[test]
fn select_drawn_keeps_true_draws() {
    assert_eq!(select_drawn(&vec![1, 2, 3, 4], &vec![true, false, true]), vec![1, 3]);
    assert_eq!(select_drawn(&vec![1, 2], &vec![]), Vec::<usize>::new());
}

#[test]
fn resample_mean_matches_target() {
    let mut rng = rand::thread_rng();
    for _ in 0..20 {
        let a: usize = rng.gen_range(1..200);
        let u: usize = rng.gen_range(0..2500);
        let known: Vec<usize> = (0..a).collect();
        let trials = 400;
        let mut total = 0usize;
        for _ in 0..trials {
            let r = resample(&known, u);
            assert!(r.windows(2).all(|w| w[0] < w[1]));
            total += r.len();
        }
        let mean = total as f64 / trials as f64;
        let target = (0.1 * u as f64).min(a as f64);
        let p = target / a as f64;
        let sd = (a as f64 * p * (1.0 - p) / trials as f64).sqrt();
        assert!((mean - target).abs() <= 5.0 * sd + 1e-9, "a={a} u={u} mean={mean} target={target}");
    }
}

#[test]
fn gossip_rounds_converge_on_a_line() {
    let roster = ["n1", "n2", "n3"];
    let mut nodes: Vec<BroadcastNode> = roster.iter().map(|id| node(id, &roster)).collect();
    let topology = vec![
        (s("n1"), vec![s("n2")]),
        (s("n2"), vec![s("n1"), s("n3")]),
        (s("n3"), vec![s("n2")]),
    ];
    for (i, id) in roster.iter().enumerate() {
        nodes[i].step(request("c", id, Some(1), Payload::Topology { topology: topology.clone() })).unwrap();
    }
    nodes[0].step(request("c", "n1", Some(2), Payload::Broadcast { message: 100 })).unwrap();
    nodes[2].step(request("c", "n3", Some(2), Payload::Broadcast { message: 300 })).unwrap();
    for _ in 0..3 {
        let mut mail = vec![];
        for n in nodes.iter_mut() {
            mail.extend(n.step(Event::Injected(InjectedPayload::Gossip)).unwrap());
        }
        for m in mail {
            let i = roster.iter().position(|r| *r == m.dst).unwrap();
            nodes[i].step(Event::Message(m)).unwrap();
        }
    }
    for n in nodes.iter_mut() {
        let out = n.step(request("c", "x", Some(9), Payload::Read)).unwrap();
        match &out[0].body.payload {
            Payload::ReadOk { messages } => assert_eq!(sorted(messages.clone()), vec![100, 300]),
            other => panic!("unexpected {:?}", other),
        }
    }
}
