//! Joint control: the configured poses, and what a joint command request
//! asks the agent to publish.
use vstd::prelude::*;

use crate::agent::graph::lemma_single_key;
use crate::config::AgentConfig;
use crate::protocol::messages::Response;
use crate::protocol::params::ParamValue;
use crate::protocol::types::PoseInfo;
use crate::session::server::find_str;
use crate::sort::{keys_distinct, sort_by_key, sorted_by_key, strictly_sorted_by_key, Keyed};
use crate::text::{concat2, concat3, owned, str_lt};

verus! {

broadcast use vstd::seq_lib::group_to_multiset_ensures;

impl Keyed for (String, u64) {
    open spec fn sort_key(&self) -> Seq<Seq<char>> {
        seq![self.0@]
    }

    fn key_lt(&self, other: &Self) -> (r: bool) {
        let r = str_lt(self.0.as_str(), other.0.as_str());
        proof {
            lemma_single_key(self.0@, other.0@);
        }
        r
    }
}

impl Keyed for PoseInfo {
    open spec fn sort_key(&self) -> Seq<Seq<char>> {
        seq![self.name@]
    }

    fn key_lt(&self, other: &Self) -> (r: bool) {
        let r = str_lt(self.name.as_str(), other.name.as_str());
        proof {
            lemma_single_key(self.name@, other.name@);
        }
        r
    }
}

/// `p` is the pose list entry of the configured pose `c`: the same name, and
/// the same joint targets sorted by joint name (strictly, when the pose names
/// each joint once).
pub open spec fn pose_entry_of(p: PoseInfo, c: (String, Vec<(String, u64)>)) -> bool {
    &&& p.name == c.0
    &&& sorted_by_key(p.positions@)
    &&& p.positions@.to_multiset() == c.1@.to_multiset()
    &&& keys_distinct(c.1@) ==> strictly_sorted_by_key(p.positions@)
}

/// `l` holds the pose list entry of each configured pose, in the order of
/// the configuration.
pub open spec fn pose_entries(l: Seq<PoseInfo>, poses: Seq<(String, Vec<(String, u64)>)>) -> bool {
    &&& l.len() == poses.len()
    &&& forall|k: int| 0 <= k < l.len() ==> #[trigger] pose_entry_of(l[k], poses[k])
}

/// No two configured poses have the same name (as in a map keyed by name).
pub open spec fn pose_names_distinct(poses: Seq<(String, Vec<(String, u64)>)>) -> bool {
    forall|i: int, j: int|
        0 <= i < poses.len() && 0 <= j < poses.len() && i != j ==> poses[i].0@ != poses[j].0@
}

/// `r` is the pose list of `poses`: the entries of all configured poses, each
/// once, reordered by name (strictly increasing when the names are distinct).
pub open spec fn pose_list_of(r: Seq<PoseInfo>, poses: Seq<(String, Vec<(String, u64)>)>) -> bool {
    &&& sorted_by_key(r)
    &&& r.len() == poses.len()
    &&& exists|l: Seq<PoseInfo>| #[trigger] pose_entries(l, poses) && r.to_multiset() == l.to_multiset()
    &&& pose_names_distinct(poses) ==> strictly_sorted_by_key(r)
}

/// The configured poses sorted by name, each with its joints sorted by name.
pub fn configured_poses(config: &AgentConfig) -> (r: Vec<PoseInfo>)
    ensures
        pose_list_of(r@, config.poses@),
{
    let ghost src = config.poses@;
    let mut list: Vec<PoseInfo> = Vec::new();
    let mut i: usize = 0;
    while i < config.poses.len()
        invariant
            src == config.poses@,
            i <= src.len(),
            list@.len() == i,
            forall|k: int| 0 <= k < i ==> pose_entry_of(#[trigger] list@[k], src[k]),
        decreases src.len() - i,
    {
        let mut positions: Vec<(String, u64)> = Vec::new();
        let mut j: usize = 0;
        while j < config.poses[i].1.len()
            invariant
                src == config.poses@,
                i < src.len(),
                j <= src[i as int].1@.len(),
                positions@ == src[i as int].1@.take(j as int),
            decreases src[i as int].1@.len() - j,
        {
            let entry = &config.poses[i].1[j];
            positions.push((entry.0.clone(), entry.1));
            assert(positions@ =~= src[i as int].1@.take(j + 1));
            j = j + 1;
        }
        assert(positions@ =~= src[i as int].1@);
        let sorted_positions = sort_by_key(positions);
        list.push(PoseInfo { name: config.poses[i].0.clone(), positions: sorted_positions });
        i = i + 1;
    }
    let sorted = sort_by_key(list);
    proof {
        assert(pose_entries(list@, src));
        if pose_names_distinct(src) {
            assert forall|a: int, b: int|
                0 <= a < list@.len() && 0 <= b < list@.len() && a != b implies list@[a].sort_key()
                != list@[b].sort_key() by {
                assert(pose_entry_of(list@[a], src[a]));
                assert(pose_entry_of(list@[b], src[b]));
                if list@[a].sort_key() == list@[b].sort_key() {
                    assert(list@[a].sort_key()[0] == list@[a].name@);
                    assert(list@[b].sort_key()[0] == list@[b].name@);
                }
            }
        }
    }
    sorted
}

/// What a control request asks of the agent: an immediate reply, a look at
/// the ROS graph (topics, nodes, a topic's endpoints), a joint state to
/// publish (joint names and `f64`-bit positions) with the text to answer once
/// it is published, the bridged topics' statistics, or a call of a node's
/// parameter or logger services.
pub enum ControlAction {
    Reply(Response),
    QueryTopics,
    QueryNodes,
    PublishJoints { names: Vec<String>, positions: Vec<u64>, done: String },
    ReportTopicStats,
    QueryEndpoints { topic: String },
    ListParameters { node: String },
    GetParameters { node: String, names: Vec<String> },
    SetParameter { node: String, name: String, value: ParamValue },
    GetLoggerLevel { node: String, logger: String },
    SetLoggerLevel { node: String, logger: String, level: u32 },
}

/// The first configured pose named `name`.
pub open spec fn find_pose(poses: Seq<(String, Vec<(String, u64)>)>, name: Seq<char>) -> Option<int> {
    if exists|i: int| 0 <= i < poses.len() && poses[i].0@ == name {
        Some(choose|i: int| 0 <= i < poses.len() && poses[i].0@ == name && forall|k: int| 0 <= k < i ==> poses[k].0@ != name)
    } else {
        None
    }
}

/// `SetJointPosition`: publish the one joint, if control is configured.
pub fn plan_set_joint_position(config: &AgentConfig, joint: &str, position: u64) -> (r: ControlAction)
    ensures
        config.control is None ==> (r matches ControlAction::Reply(Response::Error(m)) && m@
            == "control not configured"@),
        config.control is Some ==> (r matches ControlAction::PublishJoints { names, positions, done }
            && names@.len() == 1 && names@[0]@ == joint@ && positions@ == seq![position] && done@
            == "joint command published"@),
{
    if config.control.is_none() {
        return ControlAction::Reply(Response::Error(owned("control not configured")));
    }
    let mut names: Vec<String> = Vec::new();
    names.push(owned(joint));
    let mut positions: Vec<u64> = Vec::new();
    positions.push(position);
    assert(positions@ =~= seq![position]);
    ControlAction::PublishJoints { names, positions, done: owned("joint command published") }
}

/// `ExecutePose`: publish every joint target of the named pose, if control is
/// configured and the pose exists.
pub fn plan_execute_pose(config: &AgentConfig, name: &str) -> (r: ControlAction)
    ensures
        config.control is None ==> (r matches ControlAction::Reply(Response::Error(m)) && m@
            == "control not configured"@),
        config.control is Some ==> (find_pose(config.poses@, name@) is None ==> (r matches ControlAction::Reply(
            Response::Error(m),
        ) && m@ == "unknown pose: "@ + name@)),
        config.control is Some ==> (find_pose(config.poses@, name@) matches Some(k) ==> (
        r matches ControlAction::PublishJoints { names, positions, done } && names@.len()
            == config.poses@[k].1@.len() && positions@.len() == config.poses@[k].1@.len() && (forall|j: int|
            0 <= j < names@.len() ==> #[trigger] names@[j]@ == config.poses@[k].1@[j].0@
                && positions@[j] == config.poses@[k].1@[j].1) && done@ == "pose '"@ + name@
            + "' published"@)),
{
    if config.control.is_none() {
        return ControlAction::Reply(Response::Error(owned("control not configured")));
    }
    let mut k: usize = 0;
    while k < config.poses.len() && !crate::text::str_eq(config.poses[k].0.as_str(), name)
        invariant
            k <= config.poses@.len(),
            forall|j: int| 0 <= j < k ==> config.poses@[j].0@ != name@,
        decreases config.poses@.len() - k,
    {
        k = k + 1;
    }
    if k == config.poses.len() {
        return ControlAction::Reply(Response::Error(concat2("unknown pose: ", name)));
    }
    proof {
        let f = find_pose(config.poses@, name@);
        assert(config.poses@[k as int].0@ == name@);
        let c = choose|i: int| 0 <= i < config.poses@.len() && config.poses@[i].0@ == name@ && forall|j: int| 0 <= j < i ==> config.poses@[j].0@ != name@;
        assert(c == k) by {
            if c < k {
                assert(config.poses@[c].0@ != name@);
            }
            if c > k {
                assert(config.poses@[k as int].0@ != name@);
            }
        }
    }
    let pose = &config.poses[k].1;
    let mut names: Vec<String> = Vec::new();
    let mut positions: Vec<u64> = Vec::new();
    let mut j: usize = 0;
    while j < pose.len()
        invariant
            j <= pose@.len(),
            names@.len() == j,
            positions@.len() == j,
            forall|m: int| 0 <= m < j ==> #[trigger] names@[m]@ == pose@[m].0@ && positions@[m] == pose@[m].1,
        decreases pose@.len() - j,
    {
        let ghost old_names = names@;
        let ghost old_positions = positions@;
        names.push(pose[j].0.clone());
        positions.push(pose[j].1);
        assert forall|m: int| 0 <= m < j + 1 implies #[trigger] names@[m]@ == pose@[m].0@
            && positions@[m] == pose@[m].1 by {
            if m < j {
                assert(names@[m] == old_names[m]);
                assert(positions@[m] == old_positions[m]);
            }
        }
        j = j + 1;
    }
    ControlAction::PublishJoints { names, positions, done: concat3("pose '", name, "' published") }
}

/// The reply once a joint state was handed to the publisher: `None` when no
/// publisher exists yet, otherwise the publisher's outcome.
pub fn joint_publish_reply(outcome: Option<Result<(), String>>, done: String) -> (r: Response)
    ensures
        outcome is None ==> (r matches Response::Error(m) && m@ == "joint publisher not ready"@),
        outcome matches Some(Ok(_)) ==> r == Response::Done(done),
        outcome matches Some(Err(e)) ==> (r matches Response::Error(m) && m@ == "publish failed: "@
            + e@),
{
    match outcome {
        None => Response::Error(owned("joint publisher not ready")),
        Some(Ok(())) => Response::Done(done),
        Some(Err(e)) => Response::Error(concat2("publish failed: ", e.as_str())),
    }
}

} // verus!
