//! Per-client subscription tracking and topic routing: topic data goes only to
//! the clients subscribed to its topic, and each topic's messages and bytes
//! are counted per statistics window.
use vstd::prelude::*;

use crate::assoc::{assoc_map, has_key, keys_distinct, lemma_assoc_empty, lemma_assoc_index, lemma_assoc_push, lemma_assoc_remove, lemma_assoc_update};
use crate::protocol::messages::Response;
use crate::protocol::types::{lemma_array_view, lemma_leaf_view, lemma_struct_view, DynValue, DynView};
use crate::session::server::{find_str, views, ProtocolSession};
use crate::text::{chars_of, owned};

verus! {

pub type ClientId = u64;

/// Per-client backlog of undelivered topic frames. A client that falls further
/// behind loses new frames instead of growing agent memory without bound.
pub const CLIENT_QUEUE_CAPACITY: usize = 1024;

/// The sum of a sequence of naturals.
pub open spec fn sum_nat(s: Seq<nat>) -> nat
    decreases s.len(),
{
    if s.len() == 0 {
        0
    } else {
        sum_nat(s.drop_last()) + s.last()
    }
}

/// The bytes of one char in UTF-8.
pub open spec fn utf8_width(c: char) -> nat {
    let u = c as u32;
    if u < 0x80 {
        1
    } else if u < 0x800 {
        2
    } else if u < 0x10000 {
        3
    } else {
        4
    }
}

/// The bytes of a string in UTF-8, i.e. `str::len`.
pub open spec fn utf8_len(s: Seq<char>) -> nat {
    sum_nat(s.map_values(|c: char| utf8_width(c)))
}

/// Roughly the CDR payload of a message: the sizes of its numbers, the UTF-8
/// bytes of its strings, its byte blobs, summed over arrays and fields (no
/// length prefixes or alignment padding).
pub open spec fn payload_size(v: DynView) -> nat
    decreases v,
{
    match v {
        DynView::Bool(_) | DynView::I8(_) | DynView::U8(_) => 1,
        DynView::I16(_) | DynView::U16(_) => 2,
        DynView::I32(_) | DynView::U32(_) | DynView::F32(_) => 4,
        DynView::I64(_) | DynView::U64(_) | DynView::F64(_) => 8,
        DynView::String(s) => utf8_len(s),
        DynView::Bytes(b) => b.len(),
        DynView::Array(items) => sum_nat(item_sizes(items)),
        DynView::Struct { fields, .. } => sum_nat(field_sizes(fields)),
    }
}

/// The payload sizes of a list of values.
pub open spec fn item_sizes(items: Seq<DynView>) -> Seq<nat>
    decreases items,
{
    Seq::new(
        items.len(),
        |i: int|
            if 0 <= i < items.len() {
                payload_size(items[i])
            } else {
                0
            },
    )
}

/// The payload sizes of the values of a list of fields.
pub open spec fn field_sizes(fields: Seq<(Seq<char>, DynView)>) -> Seq<nat>
    decreases fields,
{
    Seq::new(
        fields.len(),
        |i: int|
            if 0 <= i < fields.len() {
                payload_size(fields[i].1)
            } else {
                0
            },
    )
}

proof fn lemma_sum_nat_prefix(s: Seq<nat>, i: int)
    requires
        0 <= i < s.len(),
    ensures
        sum_nat(s.take(i + 1)) == sum_nat(s.take(i)) + s[i],
        sum_nat(s.take(i + 1)) >= s[i],
{
    assert(s.take(i + 1).drop_last() =~= s.take(i));
}

proof fn lemma_sum_nat_take_le(s: Seq<nat>, i: int)
    requires
        0 <= i <= s.len(),
    ensures
        sum_nat(s.take(i)) <= sum_nat(s),
    decreases s.len() - i,
{
    if i < s.len() {
        lemma_sum_nat_prefix(s, i);
        lemma_sum_nat_take_le(s, i + 1);
    } else {
        assert(s.take(i) =~= s);
    }
}

/// Sums `sizes` with overflow checks: `Some` of the sum when it fits in a
/// `usize`.
proof fn lemma_sum_all(s: Seq<nat>)
    ensures
        s.take(s.len() as int) == s,
{
    assert(s.take(s.len() as int) =~= s);
}

/// The UTF-8 length of `s`, or `None` if it does not fit a `usize`.
fn checked_utf8_len(s: &str) -> (r: Option<usize>)
    ensures
        match r {
            Some(n) => n == utf8_len(s@),
            None => utf8_len(s@) > usize::MAX,
        },
{
    let v = chars_of(s);
    let ghost widths = v@.map_values(|c: char| utf8_width(c));
    let mut total: usize = 0;
    let mut i: usize = 0;
    while i < v.len()
        invariant
            v@ == s@,
            widths == v@.map_values(|c: char| utf8_width(c)),
            i <= v@.len(),
            total == sum_nat(widths.take(i as int)),
        decreases v@.len() - i,
    {
        let u = v[i] as u32;
        let w: usize = if u < 0x80 {
            1
        } else if u < 0x800 {
            2
        } else if u < 0x10000 {
            3
        } else {
            4
        };
        proof {
            lemma_sum_nat_prefix(widths, i as int);
        }
        if total > usize::MAX - w {
            proof {
                lemma_sum_nat_take_le(widths, i + 1);
            }
            return None;
        }
        total = total + w;
        i = i + 1;
    }
    proof {
        lemma_sum_all(widths);
    }
    Some(total)
}

/// The summed payload of `items`, or `None` when it does not fit a `usize`.
fn checked_items_size(items: &Vec<DynValue>) -> (r: Option<usize>)
    ensures
        match r {
            Some(n) => n == sum_nat(item_sizes(items@.map_values(|v: DynValue| v@))),
            None => sum_nat(item_sizes(items@.map_values(|v: DynValue| v@))) > usize::MAX,
        },
    decreases items,
{
    let ghost m = items@.map_values(|v: DynValue| v@);
    let ghost sizes = item_sizes(m);
    let mut total: usize = 0;
    let mut i: usize = 0;
    while i < items.len()
        invariant
            i <= items@.len(),
            m == items@.map_values(|v: DynValue| v@),
            sizes == item_sizes(m),
            total == sum_nat(sizes.take(i as int)),
        decreases items@.len() - i,
    {
        proof {
            lemma_sum_nat_prefix(sizes, i as int);
            assert(decreases_to!(*items => items@));
            assert(decreases_to!(items@ => items@[i as int]));
        }
        match checked_payload_size(&items[i]) {
            Some(n) => {
                assert(sizes[i as int] == n);
                if total > usize::MAX - n {
                    proof {
                        lemma_sum_nat_take_le(sizes, i + 1);
                    }
                    return None;
                }
                total = total + n;
            },
            None => {
                proof {
                    lemma_sum_nat_take_le(sizes, i + 1);
                }
                return None;
            },
        }
        i = i + 1;
    }
    proof {
        lemma_sum_all(sizes);
    }
    Some(total)
}

/// The summed payload of the values of `fields`, or `None` when it does not
/// fit a `usize`.
fn checked_fields_size(fields: &Vec<(String, DynValue)>) -> (r: Option<usize>)
    ensures
        match r {
            Some(n) => n == sum_nat(
                field_sizes(fields@.map_values(|f: (String, DynValue)| (f.0@, f.1@))),
            ),
            None => sum_nat(field_sizes(fields@.map_values(|f: (String, DynValue)| (f.0@, f.1@))))
                > usize::MAX,
        },
    decreases fields,
{
    let ghost m = fields@.map_values(|f: (String, DynValue)| (f.0@, f.1@));
    let ghost sizes = field_sizes(m);
    let mut total: usize = 0;
    let mut i: usize = 0;
    while i < fields.len()
        invariant
            i <= fields@.len(),
            m == fields@.map_values(|f: (String, DynValue)| (f.0@, f.1@)),
            sizes == field_sizes(m),
            total == sum_nat(sizes.take(i as int)),
        decreases fields@.len() - i,
    {
        proof {
            lemma_sum_nat_prefix(sizes, i as int);
            assert(decreases_to!(*fields => fields@));
            assert(decreases_to!(fields@ => fields@[i as int]));
            assert(decreases_to!(fields@[i as int] => fields@[i as int].1));
        }
        match checked_payload_size(&fields[i].1) {
            Some(n) => {
                assert(sizes[i as int] == n);
                if total > usize::MAX - n {
                    proof {
                        lemma_sum_nat_take_le(sizes, i + 1);
                    }
                    return None;
                }
                total = total + n;
            },
            None => {
                proof {
                    lemma_sum_nat_take_le(sizes, i + 1);
                }
                return None;
            },
        }
        i = i + 1;
    }
    proof {
        lemma_sum_all(sizes);
    }
    Some(total)
}

/// The approximate payload of `value`, or `None` when it does not fit a
/// `usize`.
pub fn checked_payload_size(value: &DynValue) -> (r: Option<usize>)
    ensures
        match r {
            Some(n) => n == payload_size(value@),
            None => payload_size(value@) > usize::MAX,
        },
    decreases value,
{
    proof {
        lemma_leaf_view(*value);
    }
    match value {
        DynValue::Bool(_) | DynValue::I8(_) | DynValue::U8(_) => Some(1),
        DynValue::I16(_) | DynValue::U16(_) => Some(2),
        DynValue::I32(_) | DynValue::U32(_) | DynValue::F32(_) => Some(4),
        DynValue::I64(_) | DynValue::U64(_) | DynValue::F64(_) => Some(8),
        DynValue::String(s) => checked_utf8_len(s.as_str()),
        DynValue::Bytes(b) => Some(b.len()),
        DynValue::Array(items) => {
            proof {
                lemma_array_view(*items);
                assert(decreases_to!(*value => value->Array_0));
            }
            checked_items_size(items)
        },
        DynValue::Struct { struct_type, fields } => {
            proof {
                lemma_struct_view(*struct_type, *fields);
                assert(decreases_to!(*value => value->fields));
            }
            checked_fields_size(fields)
        },
    }
}

/// Size of the message's data, roughly its CDR payload without length
/// prefixes or alignment padding.
pub fn approx_payload_size(value: &DynValue) -> (n: usize)
    requires
        payload_size(value@) <= usize::MAX,
    ensures
        n == payload_size(value@),
{
    match checked_payload_size(value) {
        Some(n) => n,
        None => 0,
    }
}

/// Messages and bytes that one topic carried in a statistics window.
#[derive(Debug, Clone, PartialEq, Eq)]
pub struct WindowCount {
    pub topic: String,
    pub msgs: u64,
    pub bytes: u64,
}

/// The (client, subscriptions) pairs of a list of sessions.
pub open spec fn client_pairs(s: Seq<(ClientId, ProtocolSession)>) -> Seq<(ClientId, Set<Seq<char>>)> {
    s.map_values(|c: (ClientId, ProtocolSession)| (c.0, c.1@))
}

/// The (topic, counts) pairs of a list of windows.
pub open spec fn window_pairs(s: Seq<(String, (u64, u64))>) -> Seq<(Seq<char>, (u64, u64))> {
    s.map_values(|w: (String, (u64, u64))| (w.0@, w.1))
}

/// The counts a topic has in a window map: none yet when absent.
pub open spec fn counts_of(windows: Map<Seq<char>, (u64, u64)>, topic: Seq<char>) -> (u64, u64) {
    if windows.dom().contains(topic) {
        windows[topic]
    } else {
        (0, 0)
    }
}

/// The clients of `clients` subscribed to `topic`.
pub open spec fn subscribers(clients: Map<ClientId, Set<Seq<char>>>, topic: Seq<char>) -> Set<ClientId> {
    Set::new(|id: ClientId| clients.dom().contains(id) && clients[id].contains(topic))
}

/// Manages per-client subscriptions and counts the data routed per topic.
///
/// The agent keeps one router behind a lock, shared between the task that
/// receives topic data and the client handler tasks.
pub struct TopicRouter {
    clients: Vec<(ClientId, ProtocolSession)>,
    next_id: ClientId,
    windows: Vec<(String, (u64, u64))>,
}

impl TopicRouter {
    /// Each registered client with the topics it is subscribed to.
    pub closed spec fn clients(&self) -> Map<ClientId, Set<Seq<char>>> {
        assoc_map(client_pairs(self.clients@))
    }

    /// The identifier the next registered client gets.
    pub closed spec fn next_id(&self) -> ClientId {
        self.next_id
    }

    /// Each topic seen so far with its (messages, bytes) in the current window.
    pub closed spec fn windows(&self) -> Map<Seq<char>, (u64, u64)> {
        assoc_map(window_pairs(self.windows@))
    }

    /// Well-formed: one entry per client and per topic, every session
    /// well-formed, and every identifier handed out below `next_id`.
    pub closed spec fn wf(&self) -> bool {
        &&& keys_distinct(client_pairs(self.clients@))
        &&& keys_distinct(window_pairs(self.windows@))
        &&& forall|i: int| 0 <= i < self.clients@.len() ==> (#[trigger] self.clients@[i]).1.wf()
        &&& forall|i: int|
            0 <= i < self.clients@.len() ==> (#[trigger] self.clients@[i]).0 < self.next_id
    }

    /// A router with no clients and no statistics.
    pub fn new() -> (r: Self)
        ensures
            r.wf(),
            r.clients() == Map::<ClientId, Set<Seq<char>>>::empty(),
            r.next_id() == 0,
            r.windows() == Map::<Seq<char>, (u64, u64)>::empty(),
    {
        let r = TopicRouter { clients: Vec::new(), next_id: 0, windows: Vec::new() };
        proof {
            lemma_assoc_empty(client_pairs(r.clients@));
            lemma_assoc_empty(window_pairs(r.windows@));
        }
        r
    }

    /// The identifier the next registered client gets.
    pub fn peek_next_id(&self) -> (id: ClientId)
        ensures
            id == self.next_id(),
    {
        self.next_id
    }

    /// Registers a new client with no subscriptions and returns its identifier.
    pub fn register(&mut self) -> (id: ClientId)
        requires
            old(self).wf(),
            old(self).next_id() < u64::MAX,
        ensures
            final(self).wf(),
            id == old(self).next_id(),
            !old(self).clients().dom().contains(id),
            final(self).clients() == old(self).clients().insert(id, Set::<Seq<char>>::empty()),
            final(self).next_id() == old(self).next_id() + 1,
            final(self).windows() == old(self).windows(),
    {
        let id = self.next_id;
        let ghost before = client_pairs(self.clients@);
        proof {
            if has_key(before, id) {
                let i = choose|i: int| 0 <= i < before.len() && before[i].0 == id;
                assert(self.clients@[i].0 < self.next_id);
            }
        }
        let session = ProtocolSession::new();
        self.clients.push((id, session));
        self.next_id = id + 1;
        proof {
            lemma_assoc_push(before, id, Set::<Seq<char>>::empty());
            assert(client_pairs(self.clients@) =~= before.push((id, Set::<Seq<char>>::empty())));
            assert forall|i: int| 0 <= i < before.len() implies !(before[i].0 == id) by {}
        }
        id
    }

    fn client_index(&self, id: ClientId) -> (r: Option<usize>)
        requires
            self.wf(),
        ensures
            match r {
                Some(i) => i < self.clients@.len() && self.clients@[i as int].0 == id,
                None => !self.clients().dom().contains(id),
            },
    {
        let mut i: usize = 0;
        while i < self.clients.len()
            invariant
                i <= self.clients@.len(),
                forall|k: int| 0 <= k < i ==> self.clients@[k].0 != id,
            decreases self.clients@.len() - i,
        {
            if self.clients[i].0 == id {
                return Some(i);
            }
            i = i + 1;
        }
        proof {
            let pairs = client_pairs(self.clients@);
            if has_key(pairs, id) {
                let k = choose|k: int| 0 <= k < pairs.len() && pairs[k].0 == id;
                assert(self.clients@[k].0 == id);
            }
        }
        None
    }

    /// Forgets a client and its subscriptions.
    pub fn deregister(&mut self, id: ClientId)
        requires
            old(self).wf(),
        ensures
            final(self).wf(),
            final(self).clients() == old(self).clients().remove(id),
            final(self).next_id() == old(self).next_id(),
            final(self).windows() == old(self).windows(),
    {
        match self.client_index(id) {
            Some(i) => {
                let ghost before = self.clients@;
                self.clients.remove(i);
                proof {
                    lemma_assoc_remove(client_pairs(before), i as int);
                    assert(client_pairs(self.clients@) =~= client_pairs(before).remove(i as int));
                    assert forall|k: int| 0 <= k < self.clients@.len() implies (
                    #[trigger] self.clients@[k]).1.wf() && self.clients@[k].0 < self.next_id by {
                        if k < i {
                            assert(self.clients@[k] == before[k]);
                        } else {
                            assert(self.clients@[k] == before[k + 1]);
                        }
                    }
                }
            },
            None => {
                assert(self.clients().remove(id) =~= self.clients());
            },
        }
    }

    /// Adds topics to a client's subscription set (nothing happens for an
    /// unknown client).
    pub fn subscribe(&mut self, id: ClientId, topics: Vec<String>)
        requires
            old(self).wf(),
        ensures
            final(self).wf(),
            old(self).clients().dom().contains(id) ==> final(self).clients() == old(
                self,
            ).clients().insert(id, old(self).clients()[id].union(views(topics@).to_set())),
            !old(self).clients().dom().contains(id) ==> final(self).clients() == old(
                self,
            ).clients(),
            final(self).next_id() == old(self).next_id(),
            final(self).windows() == old(self).windows(),
    {
        match self.client_index(id) {
            Some(i) => {
                let ghost before = self.clients@;
                proof {
                    lemma_assoc_index(client_pairs(before), i as int);
                }
                let mut entry = self.clients.remove(i);
                entry.1.subscribe(topics);
                self.clients.insert(i, entry);
                proof {
                    assert(self.clients@ =~= before.update(i as int, entry));
                    lemma_assoc_update(client_pairs(before), i as int, entry.1@);
                    assert(client_pairs(self.clients@) =~= client_pairs(before).update(
                        i as int,
                        (id, entry.1@),
                    ));
                }
            },
            None => {},
        }
    }

    /// Removes topics from a client's subscription set (nothing happens for an
    /// unknown client).
    pub fn unsubscribe(&mut self, id: ClientId, topics: &[String])
        requires
            old(self).wf(),
        ensures
            final(self).wf(),
            old(self).clients().dom().contains(id) ==> final(self).clients() == old(
                self,
            ).clients().insert(id, old(self).clients()[id].difference(views(topics@).to_set())),
            !old(self).clients().dom().contains(id) ==> final(self).clients() == old(
                self,
            ).clients(),
            final(self).next_id() == old(self).next_id(),
            final(self).windows() == old(self).windows(),
    {
        match self.client_index(id) {
            Some(i) => {
                let ghost before = self.clients@;
                proof {
                    lemma_assoc_index(client_pairs(before), i as int);
                }
                let mut entry = self.clients.remove(i);
                entry.1.unsubscribe(topics);
                self.clients.insert(i, entry);
                proof {
                    assert(self.clients@ =~= before.update(i as int, entry));
                    lemma_assoc_update(client_pairs(before), i as int, entry.1@);
                    assert(client_pairs(self.clients@) =~= client_pairs(before).update(
                        i as int,
                        (id, entry.1@),
                    ));
                }
            },
            None => {},
        }
    }

    /// The clients subscribed to `topic`, each once.
    pub fn subscribers_of(&self, topic: &str) -> (r: Vec<ClientId>)
        requires
            self.wf(),
        ensures
            r@.to_set() == subscribers(self.clients(), topic@),
            r@.no_duplicates(),
    {
        let ghost pairs = client_pairs(self.clients@);
        let mut r: Vec<ClientId> = Vec::new();
        let mut i: usize = 0;
        while i < self.clients.len()
            invariant
                i <= self.clients@.len(),
                pairs == client_pairs(self.clients@),
                keys_distinct(pairs),
                r@.no_duplicates(),
                forall|id: ClientId| #[trigger]
                    r@.contains(id) <==> exists|k: int|
                        0 <= k < i && pairs[k].0 == id && pairs[k].1.contains(topic@),
            decreases self.clients@.len() - i,
        {
            proof {
                assert(pairs[i as int] == (self.clients@[i as int].0, self.clients@[i as int].1@));
            }
            if self.clients[i].1.is_subscribed(topic) {
                let ghost before = r@;
                let id = self.clients[i].0;
                proof {
                    assert(!before.contains(id)) by {
                        if before.contains(id) {
                            let k = choose|k: int|
                                0 <= k < i && pairs[k].0 == id && pairs[k].1.contains(topic@);
                            assert(pairs[i as int].0 == id);
                        }
                    }
                }
                r.push(id);
                proof {
                    assert(pairs[i as int] == (id, self.clients@[i as int].1@));
                    assert(r@ == before.push(id));
                    assert forall|x: ClientId| #[trigger] r@.contains(x) <==> exists|k: int|
                        0 <= k < i + 1 && pairs[k].0 == x && pairs[k].1.contains(topic@) by {
                        if r@.contains(x) {
                            let j = choose|j: int| 0 <= j < r@.len() && r@[j] == x;
                            if j < before.len() {
                                assert(before[j] == x);
                                assert(before.contains(x));
                            } else {
                                assert(x == id);
                                assert(pairs[i as int].0 == x && pairs[i as int].1.contains(topic@));
                            }
                        }
                        if exists|k: int|
                            0 <= k < i + 1 && pairs[k].0 == x && pairs[k].1.contains(topic@) {
                            let k = choose|k: int|
                                0 <= k < i + 1 && pairs[k].0 == x && pairs[k].1.contains(topic@);
                            if k < i {
                                assert(before.contains(x));
                                let j = choose|j: int| 0 <= j < before.len() && before[j] == x;
                                assert(r@[j] == x);
                            } else {
                                assert(r@[before.len() as int] == x);
                            }
                        }
                    }
                }
            } else {
                proof {
                    assert forall|x: ClientId| #[trigger] r@.contains(x) <==> exists|k: int|
                        0 <= k < i + 1 && pairs[k].0 == x && pairs[k].1.contains(topic@) by {
                        if exists|k: int|
                            0 <= k < i + 1 && pairs[k].0 == x && pairs[k].1.contains(topic@) {
                            let k = choose|k: int|
                                0 <= k < i + 1 && pairs[k].0 == x && pairs[k].1.contains(topic@);
                            assert(k != i);
                        }
                    }
                }
            }
            i = i + 1;
        }
        proof {
            assert forall|id: ClientId| #[trigger]
                r@.to_set().contains(id) <==> subscribers(self.clients(), topic@).contains(id) by {
                if r@.contains(id) {
                    let k = choose|k: int|
                        0 <= k < pairs.len() && pairs[k].0 == id && pairs[k].1.contains(topic@);
                    lemma_assoc_index(pairs, k);
                }
                if subscribers(self.clients(), topic@).contains(id) {
                    let k = choose|k: int| 0 <= k < pairs.len() && pairs[k].0 == id;
                    lemma_assoc_index(pairs, k);
                }
            }
            assert(r@.to_set() =~= subscribers(self.clients(), topic@));
        }
        r
    }

    /// Whether routing `response` keeps every count within its type: the
    /// payload size fits a `usize` and the topic's counts stay below
    /// `u64::MAX`.
    pub open spec fn route_fits(&self, response: &Response) -> bool {
        match response {
            Response::TopicData { topic, data, .. } => {
                &&& payload_size(data@) <= usize::MAX
                &&& counts_of(self.windows(), topic@).0 < u64::MAX
                &&& counts_of(self.windows(), topic@).1 + payload_size(data@) <= u64::MAX
            },
            _ => true,
        }
    }

    fn window_index(&self, topic: &str) -> (r: Option<usize>)
        requires
            self.wf(),
        ensures
            match r {
                Some(i) => i < self.windows@.len() && self.windows@[i as int].0@ == topic@,
                None => !self.windows().dom().contains(topic@),
            },
    {
        let mut i: usize = 0;
        while i < self.windows.len()
            invariant
                i <= self.windows@.len(),
                forall|k: int| 0 <= k < i ==> self.windows@[k].0@ != topic@,
            decreases self.windows@.len() - i,
        {
            if crate::text::str_eq(self.windows[i].0.as_str(), topic) {
                return Some(i);
            }
            i = i + 1;
        }
        proof {
            let pairs = window_pairs(self.windows@);
            if has_key(pairs, topic@) {
                let k = choose|k: int| 0 <= k < pairs.len() && pairs[k].0 == topic@;
                assert(self.windows@[k].0@ == topic@);
            }
        }
        None
    }

    /// Whether `route` may be called with `response`.
    pub fn can_route(&self, response: &Response) -> (r: bool)
        requires
            self.wf(),
        ensures
            r == self.route_fits(response),
    {
        match response {
            Response::TopicData { topic, data, .. } => {
                let size = match checked_payload_size(data) {
                    Some(n) => n,
                    None => {
                        return false;
                    },
                };
                match self.window_index(topic.as_str()) {
                    Some(i) => {
                        proof {
                            lemma_assoc_index(window_pairs(self.windows@), i as int);
                        }
                        let (msgs, bytes) = self.windows[i].1;
                        msgs < u64::MAX && (size as u64) <= u64::MAX - bytes
                    },
                    None => true,
                }
            },
            _ => true,
        }
    }

    /// Counts a `TopicData` response in its topic's window and returns the
    /// clients subscribed to its topic, to which it should be delivered.
    /// Other responses are not routed: nothing is counted and no client is
    /// returned.
    pub fn route(&mut self, response: &Response) -> (r: Vec<ClientId>)
        requires
            old(self).wf(),
            old(self).route_fits(response),
        ensures
            final(self).wf(),
            final(self).clients() == old(self).clients(),
            final(self).next_id() == old(self).next_id(),
            r@.no_duplicates(),
            match response {
                Response::TopicData { topic, data, .. } => {
                    &&& final(self).windows() == old(self).windows().insert(
                        topic@,
                        (
                            (counts_of(old(self).windows(), topic@).0 + 1) as u64,
                            (counts_of(old(self).windows(), topic@).1 + payload_size(
                                data@,
                            )) as u64,
                        ),
                    )
                    &&& r@.to_set() == subscribers(old(self).clients(), topic@)
                },
                _ => final(self).windows() == old(self).windows() && r@.len() == 0,
            },
    {
        match response {
            Response::TopicData { topic, data, .. } => {
                let size = approx_payload_size(data) as u64;
                let ghost before = self.windows@;
                match self.window_index(topic.as_str()) {
                    Some(i) => {
                        proof {
                            lemma_assoc_index(window_pairs(before), i as int);
                        }
                        let (msgs, bytes) = self.windows[i].1;
                        let name = self.windows[i].0.clone();
                        let new_msgs: u64 = msgs + 1;
                        let new_bytes: u64 = bytes + size;
                        self.windows.set(i, (name, (new_msgs, new_bytes)));
                        proof {
                            lemma_assoc_update(window_pairs(before), i as int, (new_msgs, new_bytes));
                            assert(window_pairs(self.windows@) =~= window_pairs(before).update(
                                i as int,
                                (window_pairs(before)[i as int].0, (new_msgs, new_bytes)),
                            ));
                        }
                    },
                    None => {
                        let name = owned(topic.as_str());
                        self.windows.push((name, (1, size)));
                        proof {
                            assert(!has_key(window_pairs(before), topic@)) by {
                                if has_key(window_pairs(before), topic@) {
                                    let k = choose|k: int|
                                        0 <= k < window_pairs(before).len() && window_pairs(
                                            before,
                                        )[k].0 == topic@;
                                    lemma_assoc_index(window_pairs(before), k);
                                }
                            }
                            lemma_assoc_push(window_pairs(before), topic@, (1u64, size));
                            assert(window_pairs(self.windows@) =~= window_pairs(before).push(
                                (topic@, (1u64, size)),
                            ));
                        }
                    },
                }
                self.subscribers_of(topic.as_str())
            },
            _ => Vec::new(),
        }
    }

    /// Closes the current statistics window: returns every topic seen so far
    /// with its counts in the window, and starts a new window with all counts
    /// at zero.
    pub fn close_window(&mut self) -> (r: Vec<WindowCount>)
        requires
            old(self).wf(),
        ensures
            final(self).wf(),
            final(self).clients() == old(self).clients(),
            final(self).next_id() == old(self).next_id(),
            keys_distinct(r@.map_values(|w: WindowCount| (w.topic@, (w.msgs, w.bytes)))),
            assoc_map(r@.map_values(|w: WindowCount| (w.topic@, (w.msgs, w.bytes)))) == old(
                self,
            ).windows(),
            final(self).windows().dom() == old(self).windows().dom(),
            forall|t: Seq<char>| #[trigger]
                final(self).windows().dom().contains(t) ==> final(self).windows()[t] == (0u64, 0u64),
    {
        let ghost before = self.windows@;
        let ghost clients_before = self.clients@;
        let ghost next_before = self.next_id;
        let mut r: Vec<WindowCount> = Vec::new();
        let mut i: usize = 0;
        while i < self.windows.len()
            invariant
                self.clients@ == clients_before,
                self.next_id == next_before,
                i <= self.windows@.len(),
                self.windows@.len() == before.len(),
                r@.len() == i,
                forall|k: int| 0 <= k < i ==> (#[trigger] r@[k]).topic@ == before[k].0@ && r@[k].msgs
                    == before[k].1.0 && r@[k].bytes == before[k].1.1,
                forall|k: int| 0 <= k < i ==> (#[trigger] self.windows@[k]).0@ == before[k].0@
                    && self.windows@[k].1 == (0u64, 0u64),
                forall|k: int| i <= k < before.len() ==> #[trigger] self.windows@[k] == before[k],
            decreases before.len() - i,
        {
            let name = self.windows[i].0.clone();
            let (msgs, bytes) = self.windows[i].1;
            r.push(WindowCount { topic: self.windows[i].0.clone(), msgs, bytes });
            self.windows.set(i, (name, (0, 0)));
            i = i + 1;
        }
        proof {
            let rp = r@.map_values(|w: WindowCount| (w.topic@, (w.msgs, w.bytes)));
            let wp = window_pairs(self.windows@);
            let bp = window_pairs(before);
            assert(rp =~= bp);
            assert forall|a: int, b: int| 0 <= a < wp.len() && 0 <= b < wp.len() && a != b implies wp[a].0
                != wp[b].0 by {
                assert(wp[a].0 == bp[a].0 && wp[b].0 == bp[b].0);
            }
            assert forall|t: Seq<char>| #[trigger] assoc_map(wp).dom().contains(t) <==> assoc_map(
                bp,
            ).dom().contains(t) by {
                if has_key(wp, t) {
                    let k = choose|k: int| 0 <= k < wp.len() && wp[k].0 == t;
                    assert(bp[k].0 == t);
                }
                if has_key(bp, t) {
                    let k = choose|k: int| 0 <= k < bp.len() && bp[k].0 == t;
                    assert(wp[k].0 == t);
                }
            }
            assert(assoc_map(wp).dom() =~= assoc_map(bp).dom());
            assert forall|t: Seq<char>| #[trigger] assoc_map(wp).dom().contains(t) implies assoc_map(
                wp,
            )[t] == (0u64, 0u64) by {
                let k = choose|k: int| 0 <= k < wp.len() && wp[k].0 == t;
                lemma_assoc_index(wp, k);
            }
        }
        r
    }

}

impl Default for TopicRouter {
    /// A router with no clients and no statistics.
    fn default() -> (r: Self)
        ensures
            r.wf(),
            r.clients() == Map::<ClientId, Set<Seq<char>>>::empty(),
            r.next_id() == 0,
            r.windows() == Map::<Seq<char>, (u64, u64)>::empty(),
    {
        Self::new()
    }
}

/// A registered client that subscribes to topics (among them `t`) is a
/// subscriber of `t`: data routed on `t` afterwards is delivered to it.
pub proof fn lemma_subscribed_client_receives(
    clients: Map<ClientId, Set<Seq<char>>>,
    id: ClientId,
    topics: Seq<Seq<char>>,
    t: Seq<char>,
)
    requires
        clients.dom().contains(id),
        topics.contains(t),
    ensures
        subscribers(clients.insert(id, clients[id].union(topics.to_set())), t).contains(id),
{
}

/// A client that unsubscribes from topics (among them `t`) is no subscriber
/// of `t`: data routed on `t` afterwards is not delivered to it.
pub proof fn lemma_unsubscribed_client_receives_nothing(
    clients: Map<ClientId, Set<Seq<char>>>,
    id: ClientId,
    topics: Seq<Seq<char>>,
    t: Seq<char>,
)
    requires
        clients.dom().contains(id),
        topics.contains(t),
    ensures
        !subscribers(clients.insert(id, clients[id].difference(topics.to_set())), t).contains(id),
{
}

/// One client's subscribing or unsubscribing does not change who else
/// receives a topic.
pub proof fn lemma_other_clients_unchanged(
    clients: Map<ClientId, Set<Seq<char>>>,
    id: ClientId,
    topics: Set<Seq<char>>,
    other: ClientId,
    t: Seq<char>,
)
    requires
        clients.dom().contains(id),
        other != id,
    ensures
        subscribers(clients.insert(id, clients[id].union(topics)), t).contains(other)
            == subscribers(clients, t).contains(other),
        subscribers(clients.insert(id, clients[id].difference(topics)), t).contains(other)
            == subscribers(clients, t).contains(other),
{
}

/// A deregistered client receives nothing.
pub proof fn lemma_deregistered_client_receives_nothing(
    clients: Map<ClientId, Set<Seq<char>>>,
    id: ClientId,
    t: Seq<char>,
)
    ensures
        !subscribers(clients.remove(id), t).contains(id),
{
}

/// Data is delivered only where it was asked for: every subscriber of a
/// topic is a registered client subscribed to that topic.
pub proof fn lemma_only_subscribers_receive(
    clients: Map<ClientId, Set<Seq<char>>>,
    id: ClientId,
    t: Seq<char>,
)
    ensures
        subscribers(clients, t).contains(id) <==> (clients.dom().contains(id) && clients[id].contains(
            t,
        )),
{
}

} // verus!
