use rand::Rng;
use vstd::prelude::*;

use crate::protocol::{into_reply_spec, Body, Event, Init, Message};

verus! {

/// Payloads understood by the broadcast service.
#[derive(Clone, Debug, PartialEq, Eq)]
pub enum Payload {
    Broadcast { message: usize },
    BroadcastOk,
    Read,
    ReadOk { messages: Vec<usize> },
    /// Adjacency lists keyed by node id, as an association list: vstd gives
    /// a map keyed by `String` no usable specification, so lookups here go
    /// by the first entry with a key.
    Topology { topology: Vec<(String, Vec<String>)> },
    TopologyOk,
    /// Fire-and-forget offer of values; only which values occur matters,
    /// and merging them ignores repeats.
    Gossip { seen: Vec<usize> },
}

/// The events the runtime injects by itself.
#[derive(Clone, Copy, Debug, PartialEq, Eq)]
pub enum InjectedPayload {
    /// One periodic dissemination round.
    Gossip,
}

/// Why a step of the broadcast node cannot go on.
#[derive(Clone, Debug, PartialEq, Eq)]
pub enum StepError {
    /// A topology that gives no neighbor list for the receiving node.
    MissingTopology { node: String },
    /// Gossip from, or a neighbor that is, a peer outside the roster.
    UnknownPeer { peer: String },
    /// A value set too large for a resampling round.
    TooManyValues,
}

/// State of one broadcast node.
pub struct BroadcastNode {
    /// This node's id.
    pub node: String,
    /// Every value this node knows, without repeats.
    pub messages: Vec<usize>,
    /// The peers this node gossips to.
    pub neighbors: Vec<String>,
    /// The next local message id.
    pub id: usize,
    /// For each participant, the values it is known to hold: an association
    /// list with one entry per peer (see `wf`), since vstd gives a map keyed
    /// by `String` no usable specification.
    pub known: Vec<(String, Vec<usize>)>,
}

/// `s` with `v` added at the end unless it is already there.
pub open spec fn insert_value(s: Seq<usize>, v: usize) -> Seq<usize> {
    if s.contains(v) {
        s
    } else {
        s.push(v)
    }
}

/// `s` after `v` was broadcast `k` times.
pub open spec fn broadcast_times(s: Seq<usize>, v: usize, k: nat) -> Seq<usize>
    decreases k,
{
    if k == 0 {
        s
    } else {
        insert_value(broadcast_times(s, v, (k - 1) as nat), v)
    }
}

/// `s` with each element of `vs` added in turn.
pub open spec fn merge_values(s: Seq<usize>, vs: Seq<usize>) -> Seq<usize>
    decreases vs.len(),
{
    if vs.len() == 0 {
        s
    } else {
        insert_value(merge_values(s, vs.drop_last()), vs.last())
    }
}

/// Index `i` holds the first entry of `s` whose key is `key`.
pub open spec fn first_key<V>(s: Seq<(String, V)>, key: Seq<char>, i: int) -> bool {
    &&& 0 <= i < s.len()
    &&& s[i].0@ == key
    &&& forall|j: int| 0 <= j < i ==> s[j].0@ != key
}

/// No two entries of `s` share a key.
pub open spec fn keys_distinct<V>(s: Seq<(String, V)>) -> bool {
    forall|i: int, j: int| 0 <= i < j < s.len() ==> s[i].0@ != s[j].0@
}

/// Some entry of `s` has key `key`.
pub open spec fn has_key<V>(s: Seq<(String, V)>, key: Seq<char>) -> bool {
    exists|i: int| 0 <= i < s.len() && s[i].0@ == key
}

/// Adding a value adds exactly `v` to the set, and keeps a sequence free of
/// repeats.
pub proof fn lemma_insert_value(s: Seq<usize>, v: usize)
    ensures
        s.no_duplicates() ==> insert_value(s, v).no_duplicates(),
        insert_value(s, v).to_set() == s.to_set().insert(v),
{
    if !s.contains(v) {
        assert forall|i: int, j: int|
            s.no_duplicates() && 0 <= i < s.push(v).len() && 0 <= j < s.push(v).len() && i != j implies s.push(v)[i]
            != s.push(v)[j] by {
            if i == s.len() as int {
                assert(s.push(v)[j] == s[j]);
            } else if j == s.len() as int {
                assert(s.push(v)[i] == s[i]);
            }
        }
        s.lemma_push_to_set_commute(v);
    } else {
        assert(s.to_set().insert(v) =~= s.to_set());
    }
}

/// Merging yields the union of the two sets, and keeps a sequence free of
/// repeats.
pub proof fn lemma_merge_values(s: Seq<usize>, vs: Seq<usize>)
    ensures
        s.no_duplicates() ==> merge_values(s, vs).no_duplicates(),
        merge_values(s, vs).to_set() == s.to_set().union(vs.to_set()),
    decreases vs.len(),
{
    if vs.len() == 0 {
        assert(vs.to_set() =~= Set::empty());
        assert(s.to_set().union(vs.to_set()) =~= s.to_set());
    } else {
        let rest = vs.drop_last();
        lemma_merge_values(s, rest);
        lemma_insert_value(merge_values(s, rest), vs.last());
        assert(vs == rest.push(vs.last()));
        rest.lemma_push_to_set_commute(vs.last());
        assert(s.to_set().union(rest.to_set()).insert(vs.last()) =~= s.to_set().union(
            vs.to_set(),
        ));
    }
}

/// Broadcasting a value that is already held changes nothing, and a value
/// set, however often a value was broadcast, holds exactly one copy of it.
pub proof fn lemma_broadcast_idempotent(s: Seq<usize>, v: usize)
    requires
        s.no_duplicates(),
    ensures
        insert_value(insert_value(s, v), v) == insert_value(s, v),
        insert_value(s, v).contains(v),
        insert_value(s, v).no_duplicates(),
{
    lemma_insert_value(s, v);
    if !s.contains(v) {
        assert(s.push(v)[s.len() as int] == v);
    }
}

/// However many times a value is broadcast, the value set afterwards is the
/// one after a single broadcast: it holds the value exactly once, besides
/// what it held before.
pub proof fn lemma_broadcast_repeated(s: Seq<usize>, v: usize, k: nat)
    requires
        s.no_duplicates(),
        k >= 1,
    ensures
        broadcast_times(s, v, k) == insert_value(s, v),
        broadcast_times(s, v, k).no_duplicates(),
        broadcast_times(s, v, k).contains(v),
        broadcast_times(s, v, k).to_set() == s.to_set().insert(v),
    decreases k,
{
    lemma_broadcast_idempotent(s, v);
    lemma_insert_value(s, v);
    if k == 1 {
        assert(broadcast_times(s, v, 0) == s);
    } else {
        lemma_broadcast_repeated(s, v, (k - 1) as nat);
        assert(broadcast_times(s, v, k) == insert_value(broadcast_times(s, v, (k - 1) as nat), v));
    }
}

/// `x` occurs in `v`.
fn contains_value(v: &Vec<usize>, x: usize) -> (r: bool)
    ensures
        r == v@.contains(x),
{
    let mut i: usize = 0;
    while i < v.len()
        invariant
            i <= v.len(),
            forall|j: int| 0 <= j < i ==> v@[j] != x,
        decreases v.len() - i,
    {
        if v[i] == x {
            return true;
        }
        i = i + 1;
    }
    false
}

/// Adds `x` to `v` unless it is there already.
pub fn insert_value_exec(v: &mut Vec<usize>, x: usize)
    ensures
        final(v)@ == insert_value(old(v)@, x),
{
    if !contains_value(v, x) {
        v.push(x);
    }
}

/// Adds every element of `xs`, in order, to `v`.
pub fn merge_values_exec(v: &mut Vec<usize>, xs: &Vec<usize>)
    ensures
        final(v)@ == merge_values(old(v)@, xs@),
{
    let ghost start = v@;
    let mut i: usize = 0;
    while i < xs.len()
        invariant
            i <= xs.len(),
            v@ == merge_values(start, xs@.subrange(0, i as int)),
        decreases xs.len() - i,
    {
        assert(xs@.subrange(0, i + 1).drop_last() =~= xs@.subrange(0, i as int));
        insert_value_exec(v, xs[i]);
        i = i + 1;
    }
    assert(xs@.subrange(0, xs.len() as int) =~= xs@);
}

/// The first entry of `s` whose key is `key`, if any.
fn find_key<V>(s: &Vec<(String, V)>, key: &String) -> (r: Option<usize>)
    ensures
        r matches Some(i) ==> first_key(s@, key@, i as int),
        r is None <==> !has_key(s@, key@),
{
    let mut i: usize = 0;
    while i < s.len()
        invariant
            i <= s.len(),
            forall|j: int| 0 <= j < i ==> s@[j].0@ != key@,
        decreases s.len() - i,
    {
        if s[i].0 == *key {
            return Some(i);
        }
        i = i + 1;
    }
    None
}

/// The elements of `m` that `kn` does not hold, in order.
pub open spec fn unknown_part(m: Seq<usize>, kn: Set<usize>) -> Seq<usize>
    decreases m.len(),
{
    if m.len() == 0 {
        seq![]
    } else if kn.contains(m.last()) {
        unknown_part(m.drop_last(), kn)
    } else {
        unknown_part(m.drop_last(), kn).push(m.last())
    }
}

/// The elements of `m` that `kn` holds, in order.
pub open spec fn known_part(m: Seq<usize>, kn: Set<usize>) -> Seq<usize>
    decreases m.len(),
{
    if m.len() == 0 {
        seq![]
    } else if kn.contains(m.last()) {
        known_part(m.drop_last(), kn).push(m.last())
    } else {
        known_part(m.drop_last(), kn)
    }
}

/// The elements `s[i]` for which draw `d[i]` came out true, in order.
pub open spec fn select(s: Seq<usize>, d: Seq<bool>) -> Seq<usize>
    decreases s.len(),
{
    if s.len() == 0 {
        seq![]
    } else if s.len() - 1 < d.len() && d[s.len() - 1] {
        select(s.drop_last(), d).push(s.last())
    } else {
        select(s.drop_last(), d)
    }
}

/// The largest value set a dissemination round handles: ten times it must
/// fit the `u32` odds of a draw.
pub const MAX_VALUES: usize = 429_496_729;

/// The numerator of the odds that one already known value is resent, out of
/// `10 * a` where `a` values are already known and `u` are not: `min(u, 10a)`.
/// The odds are thus `min(0.1 u, a) / a`, and a round resends on average a
/// tenth of `u` known values, at most `a`.
pub open spec fn resample_numerator(a: nat, u: nat) -> nat {
    if u <= 10 * a {
        u
    } else {
        10 * a
    }
}

/// `seen` is a possible offer of the values `m` to a peer estimated to hold `kn`:
/// every value it may lack, then a resampled part of those it holds.
pub open spec fn gossip_offer(m: Seq<usize>, kn: Set<usize>, seen: Seq<usize>) -> bool {
    let a = known_part(m, kn);
    let u = unknown_part(m, kn);
    &&& exists|d: Seq<bool>| d.len() == a.len() && seen == u + select(a, d)
    &&& u.len() == 0 ==> seen == u
    &&& u.len() >= 10 * a.len() ==> seen == u + a
}

/// The values known to a peer are at most all values.
proof fn known_part_len(m: Seq<usize>, kn: Set<usize>)
    ensures
        known_part(m, kn).len() <= m.len(),
    decreases m.len(),
{
    if m.len() > 0 {
        known_part_len(m.drop_last(), kn);
    }
}

/// A selection keeps everything where every draw is true, nothing where none is.
proof fn lemma_select_all(s: Seq<usize>, d: Seq<bool>)
    ensures
        d.len() == s.len() && (forall|i: int| 0 <= i < d.len() ==> d[i]) ==> select(s, d) == s,
        (forall|i: int| 0 <= i < d.len() ==> !d[i]) ==> select(s, d) == Seq::<usize>::empty(),
    decreases s.len(),
{
    if s.len() > 0 {
        lemma_select_all(s.drop_last(), d);
        if d.len() == s.len() && (forall|i: int| 0 <= i < d.len() ==> d[i]) {
            lemma_select_all(s.drop_last(), d.drop_last());
            assert(select(s.drop_last(), d.drop_last()) == select(s.drop_last(), d)) by {
                lemma_select_prefix(s.drop_last(), d);
            }
            assert(s.drop_last().push(s.last()) =~= s);
        }
    }
}

/// Draws past the end of `s` do not matter.
proof fn lemma_select_prefix(s: Seq<usize>, d: Seq<bool>)
    requires
        s.len() < d.len(),
    ensures
        select(s, d.drop_last()) == select(s, d),
    decreases s.len(),
{
    if s.len() > 0 {
        lemma_select_prefix(s.drop_last(), d);
    }
}

/// Splits `m` into the values that `kn` holds and those it does not.
fn partition(m: &Vec<usize>, kn: &Vec<usize>) -> (r: (Vec<usize>, Vec<usize>))
    ensures
        r.0@ == known_part(m@, kn@.to_set()),
        r.1@ == unknown_part(m@, kn@.to_set()),
{
    let mut already: Vec<usize> = Vec::new();
    let mut notify: Vec<usize> = Vec::new();
    let mut i: usize = 0;
    while i < m.len()
        invariant
            i <= m.len(),
            already@ == known_part(m@.subrange(0, i as int), kn@.to_set()),
            notify@ == unknown_part(m@.subrange(0, i as int), kn@.to_set()),
        decreases m.len() - i,
    {
        assert(m@.subrange(0, i + 1).drop_last() =~= m@.subrange(0, i as int));
        if contains_value(kn, m[i]) {
            already.push(m[i]);
        } else {
            notify.push(m[i]);
        }
        i = i + 1;
    }
    assert(m@.subrange(0, m.len() as int) =~= m@);
    (already, notify)
}

/// The odds of one resampling draw: `min(U, 10 A)` out of `10 A`, that is
/// `min(0.1 U, A) / A`, for `A` already known and `U` not yet known values.
pub fn resample_ratio(already_known: usize, not_yet_known: usize) -> (r: (u32, u32))
    requires
        10 * already_known <= u32::MAX,
    ensures
        r.0 == resample_numerator(already_known as nat, not_yet_known as nat),
        r.1 == 10 * already_known,
{
    let den = 10 * already_known;
    if not_yet_known <= den {
        (not_yet_known as u32, den as u32)
    } else {
        (den as u32, den as u32)
    }
}

/// Relies on rand's `Rng::gen_ratio` on the thread-local generator: true with
/// odds `numerator` in `denominator`, which its documentation guarantees to be
/// false for a zero numerator and true for a numerator equal to the
/// denominator; it panics on a zero denominator or a larger numerator.
#[verifier::external_body]
fn draw_ratio(numerator: u32, denominator: u32) -> (r: bool)
    requires
        0 < denominator,
        numerator <= denominator,
    ensures
        numerator == 0 ==> !r,
        numerator == denominator ==> r,
{
    rand::thread_rng().gen_ratio(numerator, denominator)
}

/// The elements `s[i]` for which `draws[i]` is true, in order.
pub fn select_drawn(s: &Vec<usize>, draws: &Vec<bool>) -> (r: Vec<usize>)
    ensures
        r@ == select(s@, draws@),
{
    let mut r: Vec<usize> = Vec::new();
    let mut i: usize = 0;
    while i < s.len()
        invariant
            i <= s.len(),
            r@ == select(s@.subrange(0, i as int), draws@),
        decreases s.len() - i,
    {
        assert(s@.subrange(0, i + 1).drop_last() =~= s@.subrange(0, i as int));
        if i < draws.len() && draws[i] {
            r.push(s[i]);
        }
        i = i + 1;
    }
    assert(s@.subrange(0, s.len() as int) =~= s@);
    r
}

/// Picks each of the `already_known` values independently with odds
/// `min(0.1 U, A) / A`, where `A` is their number and `U` is `not_yet_known`:
/// on average `min(0.1 U, A)` of them.
pub fn resample(already_known: &Vec<usize>, not_yet_known: usize) -> (r: Vec<usize>)
    requires
        already_known@.len() <= MAX_VALUES,
    ensures
        exists|d: Seq<bool>| d.len() == already_known@.len() && r@ == select(already_known@, d),
        not_yet_known == 0 ==> r@.len() == 0,
        not_yet_known >= 10 * already_known@.len() ==> r@ == already_known@,
{
    let (num, den) = resample_ratio(already_known.len(), not_yet_known);
    let mut draws: Vec<bool> = Vec::new();
    let mut i: usize = 0;
    while i < already_known.len()
        invariant
            i <= already_known.len(),
            den == 10 * already_known.len(),
            num <= den,
            num == resample_numerator(already_known@.len(), not_yet_known as nat),
            draws@.len() == i,
            num == 0 ==> forall|j: int| 0 <= j < i ==> !draws@[j],
            num == den ==> forall|j: int| 0 <= j < i ==> draws@[j],
        decreases already_known.len() - i,
    {
        draws.push(draw_ratio(num, den));
        i = i + 1;
    }
    proof {
        lemma_select_all(already_known@, draws@);
    }
    select_drawn(already_known, &draws)
}

/// Index `j` holds the first of `neighbors` that has no entry in `known`.
pub open spec fn first_unknown(neighbors: Seq<String>, known: Seq<(String, Vec<usize>)>, j: int) -> bool {
    &&& 0 <= j < neighbors.len()
    &&& !has_key(known, neighbors[j]@)
    &&& forall|k: int| 0 <= k < j ==> has_key(known, neighbors[k]@)
}

/// Every neighbor has an entry in `known`.
pub open spec fn all_known(neighbors: Seq<String>, known: Seq<(String, Vec<usize>)>) -> bool {
    forall|k: int| 0 <= k < neighbors.len() ==> has_key(known, #[trigger] neighbors[k]@)
}

/// `node` replies to a message with payload `p`, and so draws a local id:
/// broadcasts, reads, and topologies that give it a neighbor list.
pub open spec fn answers(node: BroadcastNode, p: Payload) -> bool {
    match p {
        Payload::Broadcast { .. } => true,
        Payload::Read => true,
        Payload::Topology { topology } => has_key(topology@, node.node@),
        _ => false,
    }
}

/// `r` answers `m` with local id `id`.
pub open spec fn is_reply(r: Message<Payload>, m: Message<Payload>, id: usize) -> bool {
    &&& r.src == m.dst
    &&& r.dst == m.src
    &&& r.body.id == Some(id)
    &&& r.body.in_reply_to == m.body.id
}

/// `r` is what one dissemination round of `node` returns: an error for an
/// oversized value set or for the first neighbor outside the roster, else one
/// gossip message per neighbor.
pub open spec fn round_result(node: BroadcastNode, r: Result<Vec<Message<Payload>>, StepError>) -> bool {
    if node.messages@.len() > MAX_VALUES {
        r matches Err(StepError::TooManyValues)
    } else if !all_known(node.neighbors@, node.known@) {
        &&& r matches Err(StepError::UnknownPeer { peer })
        &&& exists|j: int| first_unknown(node.neighbors@, node.known@, j) && peer == node.neighbors@[j]
    } else {
        &&& r matches Ok(out)
        &&& out@.len() == node.neighbors@.len()
        &&& forall|j: int| 0 <= j < out@.len() ==> node.gossip_to(node.neighbors@[j], #[trigger] out@[j])
    }
}

/// `post` and `r` are the state and the result after `pre` handles `msg`.
pub open spec fn handled(
    pre: BroadcastNode,
    post: BroadcastNode,
    msg: Message<Payload>,
    r: Result<Vec<Message<Payload>>, StepError>,
) -> bool {
    match msg.body.payload {
        Payload::Broadcast { message } => {
            &&& r matches Ok(out) && out@.len() == 1 && is_reply(out@[0], msg, pre.id)
                && out@[0].body.payload is BroadcastOk
            &&& post.messages@ == insert_value(pre.messages@, message)
            &&& post.id == pre.id + 1
            &&& post.node == pre.node
            &&& post.neighbors == pre.neighbors
            &&& post.known == pre.known
        },
        Payload::Read => {
            &&& r matches Ok(out) && out@.len() == 1 && is_reply(out@[0], msg, pre.id)
                && (out@[0].body.payload matches Payload::ReadOk { messages }
                && messages@ == pre.messages@)
            &&& post.id == pre.id + 1
            &&& post.same_but_id(&pre)
        },
        Payload::Topology { topology } => {
            if has_key(topology@, pre.node@) {
                &&& r matches Ok(out) && out@.len() == 1 && is_reply(out@[0], msg, pre.id)
                    && out@[0].body.payload is TopologyOk
                &&& forall|i: int| #[trigger] first_key(topology@, pre.node@, i)
                    ==> post.neighbors == topology@[i].1
                &&& post.id == pre.id + 1
                &&& post.node == pre.node
                &&& post.messages == pre.messages
                &&& post.known == pre.known
            } else {
                &&& r matches Err(StepError::MissingTopology { node }) && node == pre.node
                &&& post == pre
            }
        },
        Payload::Gossip { seen } => {
            if has_key(pre.known@, msg.src@) {
                &&& r matches Ok(out) && out@.len() == 0
                &&& post.messages@ == merge_values(pre.messages@, seen@)
                &&& post.known@.len() == pre.known@.len()
                &&& forall|i: int| #[trigger] first_key(pre.known@, msg.src@, i) ==> {
                    &&& post.known@[i].0 == pre.known@[i].0
                    &&& post.known@[i].1@ == merge_values(pre.known@[i].1@, seen@)
                    &&& forall|j: int| 0 <= j < pre.known@.len() && j != i
                        ==> post.known@[j] == pre.known@[j]
                }
                &&& post.id == pre.id
                &&& post.node == pre.node
                &&& post.neighbors == pre.neighbors
            } else {
                &&& r matches Err(StepError::UnknownPeer { peer }) && peer == msg.src
                &&& post == pre
            }
        },
        _ => {
            &&& r matches Ok(out) && out@.len() == 0
            &&& post == pre
        },
    }
}

impl BroadcastNode {
    /// The value set holds no repeats, and each peer has one estimate.
    pub open spec fn wf(&self) -> bool {
        &&& self.messages@.no_duplicates()
        &&& keys_distinct(self.known@)
    }

    /// `self` equals `other` but for the id counter.
    pub open spec fn same_but_id(&self, other: &BroadcastNode) -> bool {
        &&& self.node == other.node
        &&& self.messages == other.messages
        &&& self.neighbors == other.neighbors
        &&& self.known == other.known
    }

    /// A node just after the handshake: its id, an empty value set, no
    /// neighbors yet, one empty estimate for each participant of the roster
    /// (a repeated id gets one), and local ids from 1 on (0 went to the
    /// handshake's acknowledgement).
    pub fn from_init(init: Init) -> (r: Self)
        ensures
            r.wf(),
            r.node == init.node_id,
            r.messages@.len() == 0,
            r.neighbors@.len() == 0,
            r.id == 1,
            forall|x: Seq<char>|
                has_key(r.known@, x) <==> exists|j: int| 0 <= j < init.node_ids@.len() && #[trigger] init.node_ids@[j]@ == x,
            forall|i: int| 0 <= i < r.known@.len() ==> (#[trigger] r.known@[i]).1@.len() == 0,
    {
        let mut known: Vec<(String, Vec<usize>)> = Vec::new();
        let mut i: usize = 0;
        while i < init.node_ids.len()
            invariant
                i <= init.node_ids.len(),
                keys_distinct(known@),
                forall|k: int| 0 <= k < known@.len() ==> (#[trigger] known@[k]).1@.len() == 0,
                forall|x: Seq<char>|
                    has_key(known@, x) <==> exists|j: int| 0 <= j < i && #[trigger] init.node_ids@[j]@ == x,
            decreases init.node_ids.len() - i,
        {
            let id = &init.node_ids[i];
            let ghost prev = known@;
            if find_key(&known, id).is_none() {
                known.push((id.clone(), Vec::new()));
                assert forall|x: Seq<char>| has_key(known@, x) <==> exists|j: int|
                    0 <= j < i + 1 && #[trigger] init.node_ids@[j]@ == x by {
                    if has_key(known@, x) {
                        let k = choose|k: int| 0 <= k < known@.len() && known@[k].0@ == x;
                        if k < prev.len() {
                            assert(prev[k] == known@[k]);
                            assert(has_key(prev, x));
                        } else {
                            assert(init.node_ids@[i as int]@ == x);
                        }
                    }
                    if exists|j: int| 0 <= j < i + 1 && #[trigger] init.node_ids@[j]@ == x {
                        let j = choose|j: int| 0 <= j < i + 1 && #[trigger] init.node_ids@[j]@ == x;
                        if j < i {
                            assert(has_key(prev, x));
                            let k = choose|k: int| 0 <= k < prev.len() && prev[k].0@ == x;
                            assert(known@[k] == prev[k]);
                        } else {
                            assert(known@[prev.len() as int].0@ == x);
                        }
                    }
                }
            } else {
                assert forall|x: Seq<char>| has_key(known@, x) <==> exists|j: int|
                    0 <= j < i + 1 && #[trigger] init.node_ids@[j]@ == x by {
                    if exists|j: int| 0 <= j < i + 1 && #[trigger] init.node_ids@[j]@ == x {
                        let j = choose|j: int| 0 <= j < i + 1 && #[trigger] init.node_ids@[j]@ == x;
                        if j == i {
                            assert(has_key(known@, id@));
                        }
                    }
                }
            }
            i = i + 1;
        }
        BroadcastNode {
            node: init.node_id,
            messages: Vec::new(),
            neighbors: Vec::new(),
            id: 1,
            known,
        }
    }

    /// `g` is a gossip message from this node to `n` that offers what `n`
    /// may lack, per the estimate this node keeps for it.
    pub open spec fn gossip_to(&self, n: String, g: Message<Payload>) -> bool {
        &&& g.src == self.node
        &&& g.dst == n
        &&& g.body.id is None
        &&& g.body.in_reply_to is None
        &&& g.body.payload matches Payload::Gossip { seen } && forall|i: int|
            #[trigger] first_key(self.known@, n@, i) ==> gossip_offer(
                self.messages@,
                self.known@[i].1@.to_set(),
                seen@,
            )
    }

    /// One dissemination round: a gossip message to each neighbor, in order.
    /// The estimates are left as they are.
    pub fn gossip_round(&self) -> (r: Result<Vec<Message<Payload>>, StepError>)
        ensures
            round_result(*self, r),
    {
        if self.messages.len() > MAX_VALUES {
            return Err(StepError::TooManyValues);
        }
        let mut out: Vec<Message<Payload>> = Vec::new();
        let mut j: usize = 0;
        while j < self.neighbors.len()
            invariant
                j <= self.neighbors.len(),
                self.messages@.len() <= MAX_VALUES,
                out@.len() == j,
                forall|k: int| 0 <= k < j ==> has_key(self.known@, #[trigger] self.neighbors@[k]@),
                forall|k: int| 0 <= k < j ==> self.gossip_to(self.neighbors@[k], #[trigger] out@[k]),
            decreases self.neighbors.len() - j,
        {
            let n = &self.neighbors[j];
            match find_key(&self.known, n) {
                None => {
                    assert(first_unknown(self.neighbors@, self.known@, j as int));
                    return Err(StepError::UnknownPeer { peer: n.clone() });
                },
                Some(i) => {
                    let (already, mut seen) = partition(&self.messages, &self.known[i].1);
                    proof {
                        known_part_len(self.messages@, self.known@[i as int].1@.to_set());
                    }
                    let ghost u = seen@;
                    let mut extra = resample(&already, seen.len());
                    let ghost e = extra@;
                    seen.append(&mut extra);
                    proof {
                        let a = already@;
                        let d = choose|d: Seq<bool>| d.len() == a.len() && e == select(a, d);
                        assert(seen@ == u + select(a, d));
                        if u.len() == 0 {
                            assert(seen@ =~= u);
                        }
                        assert(first_key(self.known@, n@, i as int));
                        assert forall|i2: int| #[trigger] first_key(self.known@, n@, i2) implies i2 == i by {
                            if i2 < i {
                                assert(self.known@[i2].0@ != n@);
                            } else if i2 > i {
                                assert(self.known@[i as int].0@ != n@);
                            }
                        }
                    }
                    out.push(Message {
                        src: self.node.clone(),
                        dst: n.clone(),
                        body: Body { id: None, in_reply_to: None, payload: Payload::Gossip { seen } },
                    });
                },
            }
            j = j + 1;
        }
        Ok(out)
    }

    /// Handles one received message; returns the replies to send.
    pub fn handle_message(&mut self, msg: Message<Payload>) -> (r: Result<Vec<Message<Payload>>, StepError>)
        requires
            old(self).wf(),
            answers(*old(self), msg.body.payload) ==> old(self).id < usize::MAX,
        ensures
            final(self).wf(),
            handled(*old(self), *final(self), msg, r),
    {
        let Message { src, dst, body } = msg;
        let Body { id: msg_id, in_reply_to, payload } = body;
        match payload {
            Payload::Broadcast { message } => {
                insert_value_exec(&mut self.messages, message);
                proof {
                    lemma_insert_value(old(self).messages@, message);
                }
                let m = Message { src, dst, body: Body { id: msg_id, in_reply_to, payload: Payload::BroadcastOk } };
                Ok(vec![m.into_reply(Some(&mut self.id))])
            },
            Payload::Read => {
                let m = Message {
                    src,
                    dst,
                    body: Body { id: msg_id, in_reply_to, payload: Payload::ReadOk { messages: self.messages.clone() } },
                };
                Ok(vec![m.into_reply(Some(&mut self.id))])
            },
            Payload::Topology { mut topology } => {
                match find_key(&topology, &self.node) {
                    Some(i) => {
                        let (_, neighbors) = topology.remove(i);
                        self.neighbors = neighbors;
                        let m = Message { src, dst, body: Body { id: msg_id, in_reply_to, payload: Payload::TopologyOk } };
                        Ok(vec![m.into_reply(Some(&mut self.id))])
                    },
                    None => Err(StepError::MissingTopology { node: self.node.clone() }),
                }
            },
            Payload::Gossip { seen } => {
                match find_key(&self.known, &src) {
                    Some(i) => {
                        merge_values_exec(&mut self.known[i].1, &seen);
                        merge_values_exec(&mut self.messages, &seen);
                        proof {
                            lemma_merge_values(old(self).messages@, seen@);
                        }
                        Ok(Vec::new())
                    },
                    None => Err(StepError::UnknownPeer { peer: src }),
                }
            },
            _ => Ok(Vec::new()),
        }
    }

    /// Consumes one event: a received message is handled, a tick runs one
    /// dissemination round, and the end of the input stream does nothing.
    pub fn step(&mut self, input: Event<Payload, InjectedPayload>) -> (r: Result<Vec<Message<Payload>>, StepError>)
        requires
            old(self).wf(),
            input matches Event::Message(m) ==> (answers(*old(self), m.body.payload) ==> old(self).id
                < usize::MAX),
        ensures
            final(self).wf(),
            match input {
                Event::Message(m) => handled(*old(self), *final(self), m, r),
                Event::Injected(_) => *final(self) == *old(self) && round_result(*old(self), r),
                Event::EOF => *final(self) == *old(self) && (r matches Ok(out) && out@.len() == 0),
            },
    {
        match input {
            Event::Message(m) => self.handle_message(m),
            Event::Injected(_) => self.gossip_round(),
            Event::EOF => Ok(Vec::new()),
        }
    }
}

/// A request that carries an id (a broadcast, a read, or a topology that
/// names the receiver) is answered by exactly one reply, which correlates to
/// that id and carries the counter's current value as its own id; the counter
/// then moves past it, so every later id is greater.
pub proof fn lemma_reply_correlation(
    pre: BroadcastNode,
    post: BroadcastNode,
    msg: Message<Payload>,
    r: Result<Vec<Message<Payload>>, StepError>,
)
    requires
        handled(pre, post, msg, r),
        msg.body.id is Some,
        msg.body.payload is Broadcast || msg.body.payload is Read || (msg.body.payload matches Payload::Topology {
            topology,
        } && has_key(topology@, pre.node@)),
    ensures
        r matches Ok(out) && out@.len() == 1 && out@[0].body.in_reply_to == msg.body.id
            && out@[0].body.id == Some(pre.id) && out@[0].dst == msg.src,
        post.id == pre.id + 1,
{
}

/// Ids drawn from one counter never repeat: where each reply takes the
/// counter's value and moves it on by one (as `into_reply` does), the ids of
/// successive replies strictly increase, and after `k` replies the counter
/// stands `k` past where it started.
pub proof fn lemma_fresh_ids(counters: Seq<usize>, ids: Seq<usize>)
    requires
        counters.len() == ids.len() + 1,
        forall|i: int|
            0 <= i < ids.len() ==> #[trigger] ids[i] == counters[i] && counters[i + 1] == counters[i] + 1,
    ensures
        forall|i: int, j: int| 0 <= i < j < ids.len() ==> ids[i] < ids[j],
        counters.last() == counters[0] + ids.len(),
{
    assert forall|k: int| 0 <= k < counters.len() - 1 implies #[trigger] counters[k + 1] == counters[k] + 1 by {
        assert(ids[k] == counters[k]);
    }
    assert forall|i: int, j: int| 0 <= i < j < ids.len() implies ids[i] < ids[j] by {
        assert(ids[i] == counters[i]);
        assert(ids[j] == counters[j]);
        lemma_counter_grows(counters, i, j);
    }
    lemma_counter_grows(counters, 0, ids.len() as int);
}

/// A counter that moves on by one each step only grows.
proof fn lemma_counter_grows(c: Seq<usize>, i: int, j: int)
    requires
        0 <= i <= j < c.len(),
        forall|k: int| 0 <= k < c.len() - 1 ==> #[trigger] c[k + 1] == c[k] + 1,
    ensures
        c[j] == c[i] + (j - i),
    decreases j - i,
{
    if i < j {
        lemma_counter_grows(c, i, j - 1);
        assert(c[(j - 1) + 1] == c[j - 1] + 1);
    }
}

/// Some entry with a key means a first entry with that key.
proof fn lemma_first_key_exists<V>(s: Seq<(String, V)>, key: Seq<char>)
    requires
        has_key(s, key),
    ensures
        exists|i: int| first_key(s, key, i),
    decreases s.len(),
{
    if has_key(s.drop_last(), key) {
        lemma_first_key_exists(s.drop_last(), key);
        let i = choose|i: int| first_key(s.drop_last(), key, i);
        assert forall|j: int| 0 <= j <= i implies s[j] == s.drop_last()[j] by {}
        assert(first_key(s, key, i));
    } else {
        let last = s.len() - 1;
        assert forall|j: int| 0 <= j < last implies s[j].0@ != key by {
            assert(s.drop_last()[j] == s[j]);
        }
        assert(first_key(s, key, last));
    }
}

/// Every value of `m` that `kn` lacks is in the unknown part.
proof fn lemma_unknown_part_covers(m: Seq<usize>, kn: Set<usize>, x: usize)
    requires
        m.contains(x),
        !kn.contains(x),
    ensures
        unknown_part(m, kn).contains(x),
    decreases m.len(),
{
    if m.last() == x {
        assert(unknown_part(m, kn).last() == x);
    } else {
        let k = choose|k: int| 0 <= k < m.len() && m[k] == x;
        assert(m.drop_last()[k] == x);
        lemma_unknown_part_covers(m.drop_last(), kn, x);
        let u = unknown_part(m.drop_last(), kn);
        let k2 = choose|k2: int| 0 <= k2 < u.len() && u[k2] == x;
        if !kn.contains(m.last()) {
            assert(u.push(m.last())[k2] == x);
        }
    }
}

/// One step towards convergence: where a node's estimate for a neighbor is
/// sound (the neighbor holds every value credited to it), delivering the
/// message of one dissemination round to that neighbor leaves the neighbor
/// holding every value of the node, beside all it held before.
pub proof fn lemma_gossip_delivery(
    sender: BroadcastNode,
    round: Result<Vec<Message<Payload>>, StepError>,
    j: int,
    pre: BroadcastNode,
    post: BroadcastNode,
    r: Result<Vec<Message<Payload>>, StepError>,
)
    requires
        round_result(sender, round),
        round matches Ok(out) && 0 <= j < out@.len() && handled(pre, post, out@[j], r),
        pre.wf(),
        has_key(pre.known@, sender.node@),
        forall|i: int|
            #[trigger] first_key(sender.known@, sender.neighbors@[j]@, i) ==> sender.known@[i].1@.to_set().subset_of(
                pre.messages@.to_set(),
            ),
    ensures
        sender.messages@.to_set().subset_of(post.messages@.to_set()),
        pre.messages@.to_set().subset_of(post.messages@.to_set()),
{
    let out = round->Ok_0;
    let g = out@[j];
    assert(sender.messages@.len() <= MAX_VALUES);
    assert(all_known(sender.neighbors@, sender.known@));
    assert(sender.gossip_to(sender.neighbors@[j], g));
    let n = sender.neighbors@[j];
    assert(has_key(sender.known@, n@));
    lemma_first_key_exists(sender.known@, n@);
    let i = choose|i: int| first_key(sender.known@, n@, i);
    let kn = sender.known@[i].1@.to_set();
    let seen = g.body.payload->Gossip_seen;
    assert(gossip_offer(sender.messages@, kn, seen@));
    let a = known_part(sender.messages@, kn);
    let u = unknown_part(sender.messages@, kn);
    let d = choose|d: Seq<bool>| d.len() == a.len() && seen@ == u + select(a, d);
    lemma_merge_values(pre.messages@, seen@);
    assert(post.messages@.to_set() == pre.messages@.to_set().union(seen@.to_set()));
    assert forall|x: usize| sender.messages@.to_set().contains(x) implies post.messages@.to_set().contains(x) by {
        if !kn.contains(x) {
            lemma_unknown_part_covers(sender.messages@, kn, x);
            let k = choose|k: int| 0 <= k < u.len() && u[k] == x;
            assert(seen@[k] == x);
            assert(seen@.to_set().contains(x));
        }
    }
}

/// Both parts of a partition hold only values of `m`.
proof fn lemma_parts_within(m: Seq<usize>, kn: Set<usize>)
    ensures
        unknown_part(m, kn).to_set().subset_of(m.to_set()),
        known_part(m, kn).to_set().subset_of(m.to_set()),
    decreases m.len(),
{
    if m.len() > 0 {
        let p = m.drop_last();
        lemma_parts_within(p, kn);
        assert(m == p.push(m.last()));
        p.lemma_push_to_set_commute(m.last());
        unknown_part(p, kn).lemma_push_to_set_commute(m.last());
        known_part(p, kn).lemma_push_to_set_commute(m.last());
    }
}

/// A selection holds only values of `s`.
proof fn lemma_select_within(s: Seq<usize>, d: Seq<bool>)
    ensures
        select(s, d).to_set().subset_of(s.to_set()),
    decreases s.len(),
{
    if s.len() > 0 {
        let p = s.drop_last();
        lemma_select_within(p, d);
        assert(s == p.push(s.last()));
        p.lemma_push_to_set_commute(s.last());
        select(p, d).lemma_push_to_set_commute(s.last());
    }
}

/// What a node offers a neighbor in a dissemination round are values it holds.
pub proof fn lemma_offer_within(m: Seq<usize>, kn: Set<usize>, seen: Seq<usize>)
    requires
        gossip_offer(m, kn, seen),
    ensures
        seen.to_set().subset_of(m.to_set()),
{
    let a = known_part(m, kn);
    let u = unknown_part(m, kn);
    let d = choose|d: Seq<bool>| d.len() == a.len() && seen == u + select(a, d);
    lemma_parts_within(m, kn);
    lemma_select_within(a, d);
    assert forall|x: usize| seen.to_set().contains(x) implies m.to_set().contains(x) by {
        let k = choose|k: int| 0 <= k < seen.len() && seen[k] == x;
        if k < u.len() {
            assert(u[k] == x);
            assert(u.to_set().contains(x));
        } else {
            assert(select(a, d)[k - u.len()] == x);
            assert(select(a, d).to_set().contains(x));
        }
    }
}

/// Estimates stay sound: where a node's estimate for a peer holds only values
/// that the peer holds, it still does after the node receives that peer's
/// gossip from one dissemination round.
pub proof fn lemma_estimate_stays_sound(
    sender: BroadcastNode,
    round: Result<Vec<Message<Payload>>, StepError>,
    j: int,
    pre: BroadcastNode,
    post: BroadcastNode,
    r: Result<Vec<Message<Payload>>, StepError>,
)
    requires
        round_result(sender, round),
        round matches Ok(out) && 0 <= j < out@.len() && handled(pre, post, out@[j], r),
        has_key(pre.known@, sender.node@),
        forall|i: int|
            #[trigger] first_key(pre.known@, sender.node@, i) ==> pre.known@[i].1@.to_set().subset_of(
                sender.messages@.to_set(),
            ),
    ensures
        forall|i: int|
            #[trigger] first_key(post.known@, sender.node@, i) ==> post.known@[i].1@.to_set().subset_of(
                sender.messages@.to_set(),
            ),
{
    let out = round->Ok_0;
    let g = out@[j];
    assert(sender.messages@.len() <= MAX_VALUES);
    assert(all_known(sender.neighbors@, sender.known@));
    assert(sender.gossip_to(sender.neighbors@[j], g));
    let n = sender.neighbors@[j];
    assert(has_key(sender.known@, n@));
    lemma_first_key_exists(sender.known@, n@);
    let k = choose|k: int| first_key(sender.known@, n@, k);
    let seen = g.body.payload->Gossip_seen;
    lemma_offer_within(sender.messages@, sender.known@[k].1@.to_set(), seen@);
    lemma_first_key_exists(pre.known@, sender.node@);
    let i = choose|i: int| first_key(pre.known@, sender.node@, i);
    lemma_merge_values(pre.known@[i].1@, seen@);
    assert forall|i2: int| #[trigger] first_key(post.known@, sender.node@, i2) implies i2 == i by {
        if i2 < i {
            assert(post.known@[i2] == pre.known@[i2]);
        } else if i2 > i {
            assert(post.known@[i].0 == pre.known@[i].0);
        }
    }
}

} // verus!
