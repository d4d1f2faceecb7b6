//! The per-topic data streams the agent keeps open towards one QUIC client,
//! keyed by topic: at most one stream per topic.
use vstd::prelude::*;

use crate::assoc::{
    assoc_map, has_key, keys_distinct, lemma_assoc_empty, lemma_assoc_index, lemma_assoc_len, lemma_assoc_push,
    lemma_assoc_remove, lemma_assoc_update,
};
use crate::session::server::views;
use crate::text::str_eq;

verus! {

/// The (topic, stream) pairs of a list of entries.
pub open spec fn stream_pairs<S>(s: Seq<(String, S)>) -> Seq<(Seq<char>, S)> {
    s.map_values(|e: (String, S)| (e.0@, e.1))
}

/// The streams that taking `topics` out of `m` one after another yields, in
/// that order: a topic yields its stream the first time it is taken, and
/// nothing when it has none.
pub open spec fn taken_in_order<S>(m: Map<Seq<char>, S>, topics: Seq<Seq<char>>) -> Seq<S>
    decreases topics.len(),
{
    if topics.len() == 0 {
        Seq::empty()
    } else if m.dom().contains(topics[0]) {
        seq![m[topics[0]]] + taken_in_order(m.remove(topics[0]), topics.drop_first())
    } else {
        taken_in_order(m, topics.drop_first())
    }
}

/// `s` is the stream of one of the topics of `m`.
pub open spec fn is_stream_of<S>(m: Map<Seq<char>, S>, s: S) -> bool {
    exists|k: Seq<char>| #[trigger] m.dom().contains(k) && m[k] == s
}

/// Open data streams keyed by topic; `S` is the stream handle.
pub struct DataStreams<S> {
    entries: Vec<(String, S)>,
}

impl<S> View for DataStreams<S> {
    type V = Map<Seq<char>, S>;

    closed spec fn view(&self) -> Map<Seq<char>, S> {
        assoc_map(stream_pairs(self.entries@))
    }
}

impl<S> DataStreams<S> {
    /// Well-formed: one entry per topic.
    pub closed spec fn wf(&self) -> bool {
        keys_distinct(stream_pairs(self.entries@))
    }

    /// No streams.
    pub fn new() -> (r: Self)
        ensures
            r.wf(),
            r@ == Map::<Seq<char>, S>::empty(),
    {
        let r = DataStreams { entries: Vec::new() };
        proof {
            lemma_assoc_empty(stream_pairs(r.entries@));
        }
        r
    }

    fn index_of(&self, topic: &str) -> (r: Option<usize>)
        requires
            self.wf(),
        ensures
            match r {
                Some(i) => i < self.entries@.len() && self.entries@[i as int].0@ == topic@,
                None => !self@.dom().contains(topic@),
            },
    {
        let ghost pairs = stream_pairs(self.entries@);
        let mut i: usize = 0;
        while i < self.entries.len()
            invariant
                pairs == stream_pairs(self.entries@),
                i <= self.entries@.len(),
                forall|k: int| 0 <= k < i ==> self.entries@[k].0@ != topic@,
            decreases self.entries@.len() - i,
        {
            if str_eq(self.entries[i].0.as_str(), topic) {
                return Some(i);
            }
            i = i + 1;
        }
        proof {
            if has_key(pairs, topic@) {
                let k = choose|k: int| 0 <= k < pairs.len() && pairs[k].0 == topic@;
                assert(self.entries@[k].0@ == topic@);
            }
        }
        None
    }

    /// Whether a stream for `topic` is open.
    pub fn contains(&self, topic: &str) -> (r: bool)
        requires
            self.wf(),
        ensures
            r == self@.dom().contains(topic@),
    {
        match self.index_of(topic) {
            Some(i) => {
                proof {
                    lemma_assoc_index(stream_pairs(self.entries@), i as int);
                }
                true
            },
            None => false,
        }
    }

    /// Records `stream` as the stream for `topic`, handing back the one it
    /// replaces, if any.
    pub fn insert(&mut self, topic: String, stream: S) -> (r: Option<S>)
        requires
            old(self).wf(),
        ensures
            final(self).wf(),
            final(self)@ == old(self)@.insert(topic@, stream),
            old(self)@.dom().contains(topic@) ==> r == Some(old(self)@[topic@]),
            !old(self)@.dom().contains(topic@) ==> r is None,
    {
        let ghost before = self.entries@;
        let ghost t = topic@;
        match self.index_of(topic.as_str()) {
            Some(i) => {
                proof {
                    lemma_assoc_index(stream_pairs(before), i as int);
                    lemma_assoc_update(stream_pairs(before), i as int, stream);
                }
                let (_, previous) = self.entries.remove(i);
                self.entries.insert(i, (topic, stream));
                proof {
                    assert(stream_pairs(self.entries@) =~= stream_pairs(before).update(
                        i as int,
                        (t, stream),
                    ));
                }
                Some(previous)
            },
            None => {
                proof {
                    if has_key(stream_pairs(before), t) {
                        let k = choose|k: int|
                            0 <= k < stream_pairs(before).len() && stream_pairs(before)[k].0 == t;
                        lemma_assoc_index(stream_pairs(before), k);
                    }
                    lemma_assoc_push(stream_pairs(before), t, stream);
                }
                self.entries.push((topic, stream));
                proof {
                    assert(stream_pairs(self.entries@) =~= stream_pairs(before).push((t, stream)));
                }
                None
            },
        }
    }

    /// Takes out the stream for `topic`, if one is open.
    pub fn remove(&mut self, topic: &str) -> (r: Option<S>)
        requires
            old(self).wf(),
        ensures
            final(self).wf(),
            final(self)@ == old(self)@.remove(topic@),
            old(self)@.dom().contains(topic@) ==> r == Some(old(self)@[topic@]),
            !old(self)@.dom().contains(topic@) ==> r is None,
    {
        let ghost before = self.entries@;
        match self.index_of(topic) {
            Some(i) => {
                proof {
                    lemma_assoc_index(stream_pairs(before), i as int);
                    lemma_assoc_remove(stream_pairs(before), i as int);
                }
                let (_, stream) = self.entries.remove(i);
                proof {
                    assert(stream_pairs(self.entries@) =~= stream_pairs(before).remove(i as int));
                }
                Some(stream)
            },
            None => {
                assert(self@.remove(topic@) =~= self@);
                None
            },
        }
    }

    /// Takes out the streams of `topics`, in the order the topics come.
    pub fn remove_all(&mut self, topics: &Vec<String>) -> (r: Vec<S>)
        requires
            old(self).wf(),
        ensures
            final(self).wf(),
            final(self)@ == old(self)@.remove_keys(views(topics@).to_set()),
            r@ == taken_in_order(old(self)@, views(topics@)),
    {
        let ghost start = self@;
        let ghost all = views(topics@);
        let mut r: Vec<S> = Vec::new();
        let mut i: usize = 0;
        proof {
            assert(all.skip(0) =~= all);
            assert(all.take(0).to_set() =~= Set::<Seq<char>>::empty());
            assert(start.remove_keys(Set::<Seq<char>>::empty()) =~= start);
            assert(r@ + taken_in_order(start, all) =~= taken_in_order(start, all));
        }
        while i < topics.len()
            invariant
                all == views(topics@),
                i <= topics@.len(),
                self.wf(),
                self@ == start.remove_keys(all.take(i as int).to_set()),
                r@ + taken_in_order(self@, all.skip(i as int)) == taken_in_order(start, all),
            decreases topics@.len() - i,
        {
            let ghost m = self@;
            let ghost rest = all.skip(i as int);
            proof {
                assert(rest[0] == topics@[i as int]@);
                assert(rest.drop_first() =~= all.skip(i + 1));
                assert(all.take(i + 1).to_set() =~= all.take(i as int).to_set().insert(
                    topics@[i as int]@,
                )) by {
                    assert(all.take(i + 1) =~= all.take(i as int).push(topics@[i as int]@));
                    all.take(i as int).lemma_push_to_set_commute(topics@[i as int]@);
                }
            }
            let ghost before_r = r@;
            let ghost t = topics@[i as int]@;
            match self.remove(topics[i].as_str()) {
                Some(s) => {
                    r.push(s);
                    proof {
                        assert(taken_in_order(m, rest) == seq![m[t]] + taken_in_order(
                            m.remove(t),
                            rest.drop_first(),
                        ));
                        assert(before_r.push(s) + taken_in_order(self@, all.skip(i + 1)) =~= before_r
                            + (seq![s] + taken_in_order(self@, all.skip(i + 1))));
                    }
                },
                None => {
                    proof {
                        assert(m.remove(t) =~= m);
                        assert(taken_in_order(m, rest) == taken_in_order(m, rest.drop_first()));
                    }
                },
            }
            proof {
                assert(self@ =~= start.remove_keys(all.take(i + 1).to_set()));
            }
            i = i + 1;
        }
        proof {
            assert(all.take(topics@.len() as int) =~= all);
            assert(all.skip(topics@.len() as int) =~= Seq::<Seq<char>>::empty());
            assert(r@ + Seq::<S>::empty() =~= r@);
        }
        r
    }

    /// All open streams, each once; the map is used up.
    pub fn into_streams(self) -> (r: Vec<S>)
        requires
            self.wf(),
        ensures
            forall|k: Seq<char>| #[trigger] self@.dom().contains(k) ==> r@.contains(self@[k]),
            forall|i: int| 0 <= i < r@.len() ==> is_stream_of(self@, #[trigger] r@[i]),
            r@.len() == self@.dom().len(),
    {
        let ghost pairs = stream_pairs(self.entries@);
        let ghost m = self@;
        let mut entries = self.entries;
        let mut rev: Vec<S> = Vec::new();
        while entries.len() > 0
            invariant
                entries@.len() + rev@.len() == pairs.len(),
                forall|j: int| 0 <= j < entries@.len() ==> #[trigger] entries@[j].1 == pairs[j].1,
                forall|j: int|
                    0 <= j < rev@.len() ==> #[trigger] rev@[j] == pairs[pairs.len() - 1 - j].1,
            decreases entries@.len(),
        {
            let (_, s) = entries.pop().unwrap();
            rev.push(s);
        }
        proof {
            lemma_assoc_len(pairs);
            assert forall|k: Seq<char>| #[trigger] m.dom().contains(k) implies rev@.contains(m[k]) by {
                let i = choose|i: int| 0 <= i < pairs.len() && pairs[i].0 == k;
                lemma_assoc_index(pairs, i);
                assert(rev@[pairs.len() - 1 - i] == pairs[i].1);
            }
            assert forall|j: int| 0 <= j < rev@.len() implies is_stream_of(m, #[trigger] rev@[j]) by {
                let i = pairs.len() - 1 - j;
                lemma_assoc_index(pairs, i);
                assert(m.dom().contains(pairs[i].0) && m[pairs[i].0] == rev@[j]);
            }
        }
        rev
    }
}

} // verus!
