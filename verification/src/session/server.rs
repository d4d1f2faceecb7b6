//! Server-side session state: which topics one client has subscribed to.
use vstd::prelude::*;

use crate::text::str_eq;

verus! {

/// The string views of a list of strings.
pub open spec fn views(v: Seq<String>) -> Seq<Seq<char>> {
    v.map_values(|s: String| s@)
}

/// The first position in `v` holding the chars of `t`, if any.
pub fn find_str(v: &Vec<String>, t: &str) -> (r: Option<usize>)
    ensures
        match r {
            Some(i) => i < v@.len() && v@[i as int]@ == t@ && forall|k: int|
                0 <= k < i ==> v@[k]@ != t@,
            None => forall|k: int| 0 <= k < v@.len() ==> v@[k]@ != t@,
        },
{
    let mut i: usize = 0;
    while i < v.len()
        invariant
            i <= v@.len(),
            forall|k: int| 0 <= k < i ==> v@[k]@ != t@,
        decreases v@.len() - i,
    {
        if str_eq(v[i].as_str(), t) {
            return Some(i);
        }
        i = i + 1;
    }
    None
}

/// Per-client session state managed by the agent: the set of topics this
/// client has subscribed to, so that topic data is routed only where it was
/// asked for.
pub struct ProtocolSession {
    subscriptions: Vec<String>,
}

impl View for ProtocolSession {
    type V = Set<Seq<char>>;

    closed spec fn view(&self) -> Set<Seq<char>> {
        views(self.subscriptions@).to_set()
    }
}

impl ProtocolSession {
    /// Well-formed: each topic is recorded once.
    pub closed spec fn wf(&self) -> bool {
        views(self.subscriptions@).no_duplicates()
    }

    /// A session with no subscriptions.
    pub fn new() -> (s: Self)
        ensures
            s.wf(),
            s@ == Set::<Seq<char>>::empty(),
    {
        let s = ProtocolSession { subscriptions: Vec::new() };
        assert(views(s.subscriptions@).to_set() =~= Set::<Seq<char>>::empty());
        s
    }

    /// Adds one topic.
    pub fn subscribe_one(&mut self, topic: String)
        requires
            old(self).wf(),
        ensures
            final(self).wf(),
            final(self)@ == old(self)@.insert(topic@),
    {
        let ghost before = views(self.subscriptions@);
        match find_str(&self.subscriptions, topic.as_str()) {
            Some(i) => {
                proof {
                    assert(before[i as int] == topic@);
                    assert(before.to_set().insert(topic@) =~= before.to_set());
                }
            },
            None => {
                let ghost t = topic@;
                self.subscriptions.push(topic);
                proof {
                    let after = views(self.subscriptions@);
                    assert(after =~= before.push(t));
                    assert(!before.contains(t));
                    before.lemma_push_to_set_commute(t);
                }
            },
        }
    }

    /// Records a subscription for each of `topics`.
    pub fn subscribe(&mut self, topics: Vec<String>)
        requires
            old(self).wf(),
        ensures
            final(self).wf(),
            final(self)@ == old(self)@.union(views(topics@).to_set()),
    {
        let ghost start = self@;
        let ghost all = views(topics@);
        let mut rest = topics;
        let ghost mut done: Seq<Seq<char>> = Seq::empty();
        while rest.len() > 0
            invariant
                done + views(rest@) == all,
                self@ == start.union(done.to_set()),
                self.wf(),
            decreases rest@.len(),
        {
            let ghost before_rest = rest@;
            let t = rest.remove(0);
            proof {
                assert(rest@ =~= before_rest.drop_first());
                assert(views(rest@) =~= views(before_rest).drop_first());
                assert(views(before_rest)[0] == t@);
                assert(done.push(t@) + views(rest@) =~= done + views(before_rest));
            }
            let ghost tv = t@;
            self.subscribe_one(t);
            proof {
                done.lemma_push_to_set_commute(tv);
                done = done.push(tv);
            }
        }
        assert(done =~= all);
        assert(self@ =~= start.union(all.to_set()));
    }

    /// Removes the subscriptions for `topics`.
    pub fn unsubscribe(&mut self, topics: &[String])
        requires
            old(self).wf(),
        ensures
            final(self).wf(),
            final(self)@ == old(self)@.difference(views(topics@).to_set()),
    {
        let ghost start = self@;
        let mut i: usize = 0;
        while i < topics.len()
            invariant
                i <= topics@.len(),
                self.wf(),
                self@ == start.difference(views(topics@.take(i as int)).to_set()),
            decreases topics@.len() - i,
        {
            self.unsubscribe_one(topics[i].as_str());
            proof {
                assert(views(topics@.take(i + 1)) =~= views(topics@.take(i as int)).push(
                    topics@[i as int]@,
                ));
                views(topics@.take(i as int)).lemma_push_to_set_commute(topics@[i as int]@);
            }
            i = i + 1;
        }
        assert(topics@.take(topics@.len() as int) =~= topics@);
    }

    /// Removes one topic.
    pub fn unsubscribe_one(&mut self, topic: &str)
        requires
            old(self).wf(),
        ensures
            final(self).wf(),
            final(self)@ == old(self)@.remove(topic@),
    {
        let ghost before = views(self.subscriptions@);
        match find_str(&self.subscriptions, topic) {
            Some(i) => {
                self.subscriptions.remove(i);
                proof {
                    let after = views(self.subscriptions@);
                    assert(after =~= before.remove(i as int));
                    assert forall|k: int| 0 <= k < after.len() implies after[k] != topic@ by {
                        if k < i {
                            assert(after[k] == before[k]);
                            assert(before[k] != before[i as int]);
                        } else {
                            assert(after[k] == before[k + 1]);
                            assert(before[k + 1] != before[i as int]);
                        }
                    }
                    assert forall|x: Seq<char>| after.to_set().contains(x) <==> before.to_set().remove(
                        topic@,
                    ).contains(x) by {
                        if after.contains(x) {
                            let k = choose|k: int| 0 <= k < after.len() && after[k] == x;
                            if k < i {
                                assert(before[k] == x);
                            } else {
                                assert(before[k + 1] == x);
                            }
                        }
                        if before.contains(x) && x != topic@ {
                            let k = choose|k: int| 0 <= k < before.len() && before[k] == x;
                            if k < i {
                                assert(after[k] == x);
                            } else {
                                assert(k != i);
                                assert(after[k - 1] == x);
                            }
                        }
                    }
                    assert(after.to_set() =~= before.to_set().remove(topic@));
                    assert(after.no_duplicates());
                }
            },
            None => {
                proof {
                    assert(!before.contains(topic@));
                    assert(before.to_set().remove(topic@) =~= before.to_set());
                }
            },
        }
    }

    /// Whether the client is subscribed to `topic`.
    pub fn is_subscribed(&self, topic: &str) -> (r: bool)
        ensures
            r == self@.contains(topic@),
    {
        match find_str(&self.subscriptions, topic) {
            Some(i) => {
                assert(views(self.subscriptions@)[i as int] == topic@);
                true
            },
            None => {
                assert(!views(self.subscriptions@).contains(topic@));
                false
            },
        }
    }

    /// All currently subscribed topics, each once, in the order they were
    /// first subscribed.
    pub fn subscriptions(&self) -> (r: Vec<String>)
        requires
            self.wf(),
        ensures
            views(r@).to_set() == self@,
            views(r@).no_duplicates(),
    {
        let r = self.subscriptions.clone();
        assert(views(r@) =~= views(self.subscriptions@));
        r
    }
}

impl Default for ProtocolSession {
    fn default() -> (s: Self)
        ensures
            s.wf(),
            s@ == Set::<Seq<char>>::empty(),
    {
        Self::new()
    }
}

} // verus!
