//! Answers about the ROS graph: topic and node lists, sorted for display,
//! with the configured subscriptions as the fallback topic list.
use vstd::prelude::*;

use crate::config::{AgentConfig, SubscriptionConfig};
use crate::protocol::messages::Response;
use crate::protocol::types::{EndpointInfo, NodeInfo, TopicInfo, TopicStats};
use crate::sort::{keys_lt, sort_by_key, sorted_by_key, strictly_sorted_by_key, Keyed};
use crate::text::{concat2, concat3, owned, join, join_spec, lemma_lex_lt_trichotomy, lex_lt, str_eq, str_lt};

verus! {

broadcast use vstd::seq_lib::group_to_multiset_ensures;

impl Keyed for TopicInfo {
    open spec fn sort_key(&self) -> Seq<Seq<char>> {
        seq![self.name@]
    }

    fn key_lt(&self, other: &Self) -> (r: bool) {
        let r = str_lt(self.name.as_str(), other.name.as_str());
        proof {
            lemma_single_key(self.name@, other.name@);
        }
        r
    }
}

impl Keyed for TopicStats {
    open spec fn sort_key(&self) -> Seq<Seq<char>> {
        seq![self.topic@]
    }

    fn key_lt(&self, other: &Self) -> (r: bool) {
        let r = str_lt(self.topic.as_str(), other.topic.as_str());
        proof {
            lemma_single_key(self.topic@, other.topic@);
        }
        r
    }
}

impl Keyed for NodeInfo {
    open spec fn sort_key(&self) -> Seq<Seq<char>> {
        seq![self.namespace@, self.name@]
    }

    fn key_lt(&self, other: &Self) -> (r: bool) {
        let ns_lt = str_lt(self.namespace.as_str(), other.namespace.as_str());
        let ns_eq = str_eq(self.namespace.as_str(), other.namespace.as_str());
        let name_lt = str_lt(self.name.as_str(), other.name.as_str());
        proof {
            let a = seq![self.namespace@, self.name@];
            let b = seq![other.namespace@, other.name@];
            lemma_single_key(self.name@, other.name@);
            lemma_lex_lt_trichotomy(self.namespace@, other.namespace@);
            assert(a.drop_first() =~= seq![self.name@]);
            assert(b.drop_first() =~= seq![other.name@]);
            assert(a[0] == self.namespace@ && b[0] == other.namespace@);
        }
        ns_lt || (ns_eq && name_lt)
    }
}

/// A key of one string orders as that string.
pub proof fn lemma_single_key(a: Seq<char>, b: Seq<char>)
    ensures
        keys_lt(seq![a], seq![b]) == lex_lt(a, b),
{
    lemma_lex_lt_trichotomy(a, b);
    assert(seq![a].drop_first() =~= Seq::<Seq<char>>::empty());
    assert(seq![b].drop_first() =~= Seq::<Seq<char>>::empty());
    assert(!keys_lt(Seq::<Seq<char>>::empty(), Seq::<Seq<char>>::empty()));
    assert(seq![a][0] == a);
    assert(seq![b][0] == b);
}

/// The message types of a topic as one string, separated by ", ".
pub fn format_type_names(types: Vec<String>) -> (r: String)
    ensures
        r@ == join_spec(types@.map_values(|s: String| s@), ", "@),
{
    join(&types, ", ")
}

/// The names that a node publishes, subscribes or serves, sorted; none when
/// the graph query failed.
pub fn graph_names_for_node(result: Result<Vec<String>, String>) -> (r: Vec<String>)
    ensures
        match result {
            Ok(names) => sorted_by_key(r@) && r@.to_multiset() == names@.to_multiset(),
            Err(_) => r@.len() == 0,
        },
{
    match result {
        Ok(names) => sort_by_key(names),
        Err(_) => Vec::new(),
    }
}

/// The topic a subscription entry describes, with no endpoint counts.
pub open spec fn configured_topic(s: SubscriptionConfig) -> TopicInfo {
    TopicInfo { name: s.topic, msg_type: s.msg_type, publisher_count: 0, subscriber_count: 0 }
}

/// The configured subscriptions as a topic list, sorted by name.
pub fn configured_topics(config: &AgentConfig) -> (r: Vec<TopicInfo>)
    ensures
        sorted_by_key(r@),
        r@.to_multiset() == config.subscriptions@.map_values(
            |s: SubscriptionConfig| configured_topic(s),
        ).to_multiset(),
{
    let mut topics: Vec<TopicInfo> = Vec::new();
    let mut i: usize = 0;
    while i < config.subscriptions.len()
        invariant
            i <= config.subscriptions@.len(),
            topics@ == config.subscriptions@.take(i as int).map_values(
                |s: SubscriptionConfig| configured_topic(s),
            ),
        decreases config.subscriptions@.len() - i,
    {
        let s = &config.subscriptions[i];
        topics.push(
            TopicInfo {
                name: s.topic.clone(),
                msg_type: s.msg_type.clone(),
                publisher_count: 0,
                subscriber_count: 0,
            },
        );
        proof {
            assert(config.subscriptions@.take(i + 1) =~= config.subscriptions@.take(i as int).push(
                config.subscriptions@[i as int],
            ));
            assert(topics@ =~= config.subscriptions@.take(i + 1).map_values(
                |s: SubscriptionConfig| configured_topic(s),
            ));
        }
        i = i + 1;
    }
    assert(config.subscriptions@.take(config.subscriptions@.len() as int) =~= config.subscriptions@);
    sort_by_key(topics)
}

/// One topic of the ROS graph as the graph reports it: its name, its types,
/// and its publisher and subscription counts (absent when a count query
/// failed).
pub struct GraphTopic {
    pub name: String,
    pub types: Vec<String>,
    pub publishers: Option<usize>,
    pub subscribers: Option<usize>,
}

/// A count as the topic list shows it: a failed count query reads as 0.
pub open spec fn count_or_zero(n: Option<usize>) -> usize {
    match n {
        Some(n) => n,
        None => 0,
    }
}

/// The reply to `ListTopics`: the graph's topics sorted by name, their types
/// joined by ", "; or, when the graph is unavailable or its query failed, the
/// configured subscriptions.
pub fn list_topics_response(graph: Option<Result<Vec<GraphTopic>, String>>, config: &AgentConfig) -> (r: Response)
    ensures
        graph matches Some(Ok(topics)) ==> (r matches Response::TopicList(list) && topic_list_from(
            list@,
            topics@,
        )),
        !(graph matches Some(Ok(_))) ==> (r matches Response::TopicList(list) && sorted_by_key(
            list@,
        ) && list@.to_multiset() == config.subscriptions@.map_values(
            |s: SubscriptionConfig| configured_topic(s),
        ).to_multiset()),
{
    match graph {
        Some(Ok(topics)) => {
            let ghost src = topics@;
            let mut list: Vec<TopicInfo> = Vec::new();
            let mut rest = topics;
            let ghost mut done: int = 0;
            while rest.len() > 0
                invariant
                    0 <= done <= src.len(),
                    rest@ == src.skip(done),
                    list@.len() == done,
                    forall|i: int| 0 <= i < done ==> topic_entry_of(#[trigger] list@[i], src[i]),
                decreases rest@.len(),
            {
                let t = rest.remove(0);
                proof {
                    assert(t == src[done]);
                    assert(rest@ =~= src.skip(done + 1));
                }
                let publisher_count = match t.publishers {
                    Some(n) => n,
                    None => 0,
                };
                let subscriber_count = match t.subscribers {
                    Some(n) => n,
                    None => 0,
                };
                list.push(
                    TopicInfo {
                        name: t.name,
                        msg_type: format_type_names(t.types),
                        publisher_count,
                        subscriber_count,
                    },
                );
                proof {
                    done = done + 1;
                }
            }
            assert(done == src.len());
            let sorted = sort_by_key(list);
            proof {
                assert(topic_entries(list@, src));
                if topic_names_distinct(src) {
                    assert forall|a: int, b: int|
                        0 <= a < list@.len() && 0 <= b < list@.len() && a != b implies list@[a].sort_key()
                        != list@[b].sort_key() by {
                        assert(topic_entry_of(list@[a], src[a]));
                        assert(topic_entry_of(list@[b], src[b]));
                        if list@[a].sort_key() == list@[b].sort_key() {
                            assert(list@[a].sort_key()[0] == list@[a].name@);
                            assert(list@[b].sort_key()[0] == list@[b].name@);
                        }
                    }
                }
            }
            assert(topic_list_from(sorted@, src));
            Response::TopicList(sorted)
        },
        _ => Response::TopicList(configured_topics(config)),
    }
}

/// One node of the ROS graph as the graph reports it, with the results of
/// its publisher, subscription and service queries.
pub struct GraphNode {
    pub name: String,
    pub namespace: String,
    pub publishers: Result<Vec<String>, String>,
    pub subscribers: Result<Vec<String>, String>,
    pub services: Result<Vec<String>, String>,
}

/// The reply to `ListNodes`: an empty list when the graph is unavailable, an
/// error when the node query failed, and otherwise the nodes sorted by
/// namespace and then name, each with its names sorted.
pub fn list_nodes_response(graph: Option<Result<Vec<GraphNode>, String>>) -> (r: Response)
    ensures
        graph is None ==> (r matches Response::NodeList(l) && l@.len() == 0),
        graph matches Some(Err(e)) ==> (r matches Response::Error(m) && m@
            == "failed to query ROS graph nodes: "@ + e@),
        graph matches Some(Ok(nodes)) ==> (r matches Response::NodeList(list) && node_list_from(
            list@,
            nodes@,
        )),
{
    match graph {
        None => Response::NodeList(Vec::new()),
        Some(Err(e)) => Response::Error(concat2("failed to query ROS graph nodes: ", e.as_str())),
        Some(Ok(nodes)) => {
            let ghost src = nodes@;
            let mut list: Vec<NodeInfo> = Vec::new();
            let mut rest = nodes;
            let ghost mut done: int = 0;
            while rest.len() > 0
                invariant
                    0 <= done <= src.len(),
                    rest@ == src.skip(done),
                    list@.len() == done,
                    forall|i: int| 0 <= i < done ==> node_entry_of(#[trigger] list@[i], src[i]),
                decreases rest@.len(),
            {
                let n = rest.remove(0);
                proof {
                    assert(n == src[done]);
                    assert(rest@ =~= src.skip(done + 1));
                }
                let publishers = graph_names_for_node(n.publishers);
                let subscribers = graph_names_for_node(n.subscribers);
                let services = graph_names_for_node(n.services);
                list.push(
                    NodeInfo { name: n.name, namespace: n.namespace, publishers, subscribers, services },
                );
                proof {
                    done = done + 1;
                }
            }
            let sorted = sort_by_key(list);
            proof {
                assert(node_entries(list@, src));
                if node_names_distinct(src) {
                    assert forall|a: int, b: int|
                        0 <= a < list@.len() && 0 <= b < list@.len() && a != b implies list@[a].sort_key()
                        != list@[b].sort_key() by {
                        assert(node_entry_of(list@[a], src[a]));
                        assert(node_entry_of(list@[b], src[b]));
                        if list@[a].sort_key() == list@[b].sort_key() {
                            assert(list@[a].sort_key()[0] == list@[a].namespace@);
                            assert(list@[b].sort_key()[0] == list@[b].namespace@);
                            assert(list@[a].sort_key()[1] == list@[a].name@);
                            assert(list@[b].sort_key()[1] == list@[b].name@);
                        }
                    }
                }
            }
            assert(node_list_from(sorted@, src));
            Response::NodeList(sorted)
        },
    }
}

/// `list` is the node list for the graph nodes `nodes`: the entries of all
/// the nodes, each once, with their names sorted, reordered by namespace and
/// name.
pub open spec fn node_list_from(list: Seq<NodeInfo>, nodes: Seq<GraphNode>) -> bool {
    &&& sorted_by_key(list)
    &&& list.len() == nodes.len()
    &&& exists|l: Seq<NodeInfo>| #[trigger] node_entries(l, nodes) && list.to_multiset()
        == l.to_multiset()
    &&& node_names_distinct(nodes) ==> strictly_sorted_by_key(list)
}

/// No two graph nodes have the same namespace and name.
pub open spec fn node_names_distinct(nodes: Seq<GraphNode>) -> bool {
    forall|i: int, j: int|
        0 <= i < nodes.len() && 0 <= j < nodes.len() && i != j ==> !(nodes[i].namespace@
            == nodes[j].namespace@ && nodes[i].name@ == nodes[j].name@)
}

/// `l` holds the node list entry of each of `nodes`, in the same order.
pub open spec fn node_entries(l: Seq<NodeInfo>, nodes: Seq<GraphNode>) -> bool {
    &&& l.len() == nodes.len()
    &&& forall|k: int| 0 <= k < l.len() ==> #[trigger] node_entry_of(l[k], nodes[k])
}

/// `e` is the node list entry of `n`.
pub open spec fn node_entry_of(e: NodeInfo, n: GraphNode) -> bool {
    &&& e.name == n.name
    &&& e.namespace == n.namespace
    &&& names_from(e.publishers, n.publishers)
    &&& names_from(e.subscribers, n.subscribers)
    &&& names_from(e.services, n.services)
}

/// `list` is the topic list for the graph topics `topics`: the entries of all
/// the topics, each once, with their types joined by ", ", reordered by name.
pub open spec fn topic_list_from(list: Seq<TopicInfo>, topics: Seq<GraphTopic>) -> bool {
    &&& sorted_by_key(list)
    &&& list.len() == topics.len()
    &&& exists|l: Seq<TopicInfo>| #[trigger] topic_entries(l, topics) && list.to_multiset()
        == l.to_multiset()
    &&& topic_names_distinct(topics) ==> strictly_sorted_by_key(list)
}

/// No two graph topics have the same name.
pub open spec fn topic_names_distinct(topics: Seq<GraphTopic>) -> bool {
    forall|i: int, j: int|
        0 <= i < topics.len() && 0 <= j < topics.len() && i != j ==> topics[i].name@
            != topics[j].name@
}

/// `l` holds the topic list entry of each of `topics`, in the same order.
pub open spec fn topic_entries(l: Seq<TopicInfo>, topics: Seq<GraphTopic>) -> bool {
    &&& l.len() == topics.len()
    &&& forall|k: int| 0 <= k < l.len() ==> #[trigger] topic_entry_of(l[k], topics[k])
}

/// `e` is the topic list entry of `t`: its name, its types joined by ", ",
/// and its counts (0 where a count query failed).
pub open spec fn topic_entry_of(e: TopicInfo, t: GraphTopic) -> bool {
    &&& e.name == t.name
    &&& e.msg_type@ == join_spec(t.types@.map_values(|s: String| s@), ", "@)
    &&& e.publisher_count == count_or_zero(t.publishers)
    &&& e.subscriber_count == count_or_zero(t.subscribers)
}

/// `names` is what `graph_names_for_node` gives for `result`.
pub open spec fn names_from(names: Vec<String>, result: Result<Vec<String>, String>) -> bool {
    match result {
        Ok(found) => sorted_by_key(names@) && names@.to_multiset() == found@.to_multiset(),
        Err(_) => names@.len() == 0,
    }
}

/// The reply to `GetTopicEndpoints` for `topic`, from the graph's
/// publisher and subscription queries (`None` while no ROS node is up): the
/// endpoints when both queries succeeded, else the first query's error.
pub fn topic_endpoints_response(
    topic: &str,
    graph: Option<(Result<Vec<EndpointInfo>, String>, Result<Vec<EndpointInfo>, String>)>,
) -> (r: Response)
    ensures
        graph is None ==> (r matches Response::Error(m) && m@ == "ROS 2 node not available yet"@),
        graph matches Some((Ok(p), Ok(s))) ==> (r matches Response::TopicEndpoints {
            topic: t,
            publishers,
            subscribers,
        } && t@ == topic@ && publishers == p && subscribers == s),
        graph matches Some((Err(e), _)) ==> (r matches Response::Error(m) && m@
            == "failed to query endpoints of '"@ + topic@ + "': "@ + e@),
        graph matches Some((Ok(_), Err(e))) ==> (r matches Response::Error(m) && m@
            == "failed to query endpoints of '"@ + topic@ + "': "@ + e@),
{
    match graph {
        None => Response::Error(owned("ROS 2 node not available yet")),
        Some((Ok(publishers), Ok(subscribers))) => Response::TopicEndpoints {
            topic: owned(topic),
            publishers,
            subscribers,
        },
        Some((Err(e), _)) | Some((_, Err(e))) => {
            let head = concat3("failed to query endpoints of '", topic, "': ");
            Response::Error(concat2(head.as_str(), e.as_str()))
        },
    }
}

} // verus!
