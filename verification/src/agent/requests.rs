//! Dispatching a client's request: subscriptions change the router at once,
//! everything else becomes a control action.
use vstd::prelude::*;

use crate::agent::control::{
    configured_poses, plan_execute_pose, plan_set_joint_position, pose_list_of, ControlAction,
    find_pose,
};
use crate::agent::router::{ClientId, TopicRouter};
use crate::config::{AgentConfig, SubscriptionConfig};
use crate::protocol::messages::{Request, Response};
use crate::protocol::types::TopicSub;
use crate::session::server::views;
use crate::sort::sorted_by_key;
use crate::text::{clone_strings, owned, str_eq};

verus! {

/// The position of the first configured subscription for `topic`.
pub open spec fn first_subscription(subs: Seq<SubscriptionConfig>, topic: Seq<char>) -> Option<int> {
    if exists|i: int| 0 <= i < subs.len() && subs[i].topic@ == topic {
        Some(
            choose|i: int|
                0 <= i < subs.len() && subs[i].topic@ == topic && forall|k: int|
                    0 <= k < i ==> subs[k].topic@ != topic,
        )
    } else {
        None
    }
}

/// The confirmations for a subscribe request: for each requested topic that
/// is configured, in request order, its topic and message type as the first
/// matching subscription gives them.
pub open spec fn confirmed(subs: Seq<SubscriptionConfig>, topics: Seq<Seq<char>>) -> Seq<(Seq<char>, Seq<char>)>
    decreases topics.len(),
{
    if topics.len() == 0 {
        Seq::empty()
    } else {
        let rest = confirmed(subs, topics.drop_last());
        match first_subscription(subs, topics.last()) {
            Some(k) => rest.push((subs[k].topic@, subs[k].msg_type@)),
            None => rest,
        }
    }
}

/// A confirmation as plain text: topic and message type.
pub open spec fn sub_view(s: TopicSub) -> (Seq<char>, Seq<char>) {
    (s.topic@, s.msg_type@)
}

/// Confirmations as plain text.
pub open spec fn sub_views(s: Seq<TopicSub>) -> Seq<(Seq<char>, Seq<char>)> {
    s.map_values(|x: TopicSub| sub_view(x))
}

proof fn lemma_sub_views_push(s: Seq<TopicSub>, x: TopicSub)
    ensures
        sub_views(s.push(x)) == sub_views(s).push(sub_view(x)),
{
    assert(sub_views(s.push(x)) =~= sub_views(s).push(sub_view(x)));
}

/// The first configured subscription for `topic`.
pub fn find_subscription(config: &AgentConfig, topic: &str) -> (r: Option<usize>)
    ensures
        r matches Some(i) ==> i < config.subscriptions@.len() && config.subscriptions@[i as int].topic@
            == topic@ && first_subscription(config.subscriptions@, topic@) == Some(i as int),
        r is None ==> first_subscription(config.subscriptions@, topic@) is None,
{
    let ghost subs = config.subscriptions@;
    let mut k: usize = 0;
    while k < config.subscriptions.len()
        invariant
            subs == config.subscriptions@,
            k <= subs.len(),
            forall|j: int| 0 <= j < k ==> subs[j].topic@ != topic@,
        decreases subs.len() - k,
    {
        if str_eq(config.subscriptions[k].topic.as_str(), topic) {
            proof {
                let c = choose|i: int|
                    0 <= i < subs.len() && subs[i].topic@ == topic@ && forall|j: int|
                        0 <= j < i ==> subs[j].topic@ != topic@;
                assert(c == k) by {
                    if c < k {
                        assert(subs[c].topic@ != topic@);
                    }
                    if c > k {
                        assert(subs[k as int].topic@ != topic@);
                    }
                }
            }
            return Some(k);
        }
        k = k + 1;
    }
    None
}

/// What the agent confirms for a subscribe request: each requested topic that
/// the configuration bridges, with its message type; topics it does not
/// bridge are left out.
pub fn confirm_subscriptions(config: &AgentConfig, topics: &Vec<String>) -> (r: Vec<TopicSub>)
    ensures
        sub_views(r@) == confirmed(config.subscriptions@, views(topics@)),
{
    let ghost subs = config.subscriptions@;
    let ghost all = views(topics@);
    let mut r: Vec<TopicSub> = Vec::new();
    let mut i: usize = 0;
    while i < topics.len()
        invariant
            subs == config.subscriptions@,
            all == views(topics@),
            i <= topics@.len(),
            sub_views(r@) == confirmed(subs, all.take(i as int)),
        decreases topics@.len() - i,
    {
        let ghost next = all.take(i + 1);
        proof {
            assert(next.drop_last() =~= all.take(i as int));
            assert(next.last() == topics@[i as int]@);
        }
        let found = find_subscription(config, topics[i].as_str());
        match found {
            Some(k) => {
                let s = &config.subscriptions[k];
                let t = TopicSub { topic: s.topic.clone(), msg_type: s.msg_type.clone() };
                let ghost before = r@;
                r.push(t);
                proof {
                    lemma_sub_views_push(before, t);
                }
            },
            None => {},
        }
        i = i + 1;
    }
    assert(all.take(topics@.len() as int) =~= all);
    r
}

/// `r` is what the control request `request` asks of the agent under
/// `config`: a graph query for the topic and node lists, the configured poses
/// (sorted by name, joints sorted by name) for the pose list, a joint state to
/// publish for a joint command when control is configured (and the pose
/// exists), the statistics, endpoint, parameter and logger actions with the
/// request's own arguments, and otherwise the error reply that says why.
pub open spec fn plans_control(request: Request, config: AgentConfig, r: ControlAction) -> bool {
    match request {
        Request::ListTopics => r is QueryTopics,
        Request::ListNodes => r is QueryNodes,
        Request::ListPoses => r matches ControlAction::Reply(Response::PoseList(poses))
            && pose_list_of(poses@, config.poses@),
        Request::SetJointPosition { joint, position } => if config.control is None {
            r matches ControlAction::Reply(Response::Error(m)) && m@ == "control not configured"@
        } else {
            r matches ControlAction::PublishJoints { names, positions, done } && names@.len() == 1
                && names@[0]@ == joint@ && positions@ == seq![position] && done@
                == "joint command published"@
        },
        Request::ExecutePose { name } => if config.control is None {
            r matches ControlAction::Reply(Response::Error(m)) && m@ == "control not configured"@
        } else {
            match find_pose(config.poses@, name@) {
                None => r matches ControlAction::Reply(Response::Error(m)) && m@ == "unknown pose: "@
                    + name@,
                Some(k) => r matches ControlAction::PublishJoints { names, positions, done }
                    && names@.len() == config.poses@[k].1@.len() && positions@.len()
                    == config.poses@[k].1@.len() && (forall|j: int|
                    0 <= j < names@.len() ==> #[trigger] names@[j]@ == config.poses@[k].1@[j].0@
                        && positions@[j] == config.poses@[k].1@[j].1) && done@ == "pose '"@ + name@
                    + "' published"@,
            }
        },
        Request::GetTopicStats => r is ReportTopicStats,
        Request::GetTopicEndpoints { topic } => r matches ControlAction::QueryEndpoints { topic: t }
            && t@ == topic@,
        Request::ListParameters { node } => r matches ControlAction::ListParameters { node: n }
            && n@ == node@,
        Request::GetParameters { node, names } => r matches ControlAction::GetParameters {
            node: n,
            names: ns,
        } && n@ == node@ && ns@ == names@,
        Request::SetParameter { node, name, value } => r matches ControlAction::SetParameter {
            node: n,
            name: k,
            value: v,
        } && n@ == node@ && k@ == name@ && v@ == value@,
        Request::GetLoggerLevel { node, logger } => r matches ControlAction::GetLoggerLevel {
            node: n,
            logger: l,
        } && n@ == node@ && l@ == logger@,
        Request::SetLoggerLevel { node, logger, level } => r matches ControlAction::SetLoggerLevel {
            node: n,
            logger: l,
            level: x,
        } && n@ == node@ && l@ == logger@ && x == level,
        _ => r matches ControlAction::Reply(Response::Error(m)) && m@ == "unexpected request"@,
    }
}

/// What a control request (anything but subscribing and unsubscribing) asks
/// of the agent.
pub fn plan_control_request(request: &Request, config: &AgentConfig) -> (r: ControlAction)
    ensures
        plans_control(*request, *config, r),
{
    match request {
        Request::ListTopics => ControlAction::QueryTopics,
        Request::ListNodes => ControlAction::QueryNodes,
        Request::ListPoses => ControlAction::Reply(Response::PoseList(configured_poses(config))),
        Request::SetJointPosition { joint, position } => plan_set_joint_position(
            config,
            joint.as_str(),
            *position,
        ),
        Request::ExecutePose { name } => plan_execute_pose(config, name.as_str()),
        Request::GetTopicStats => ControlAction::ReportTopicStats,
        Request::GetTopicEndpoints { topic } => ControlAction::QueryEndpoints { topic: topic.clone() },
        Request::ListParameters { node } => ControlAction::ListParameters { node: node.clone() },
        Request::GetParameters { node, names } => ControlAction::GetParameters {
            node: node.clone(),
            names: clone_strings(names),
        },
        Request::SetParameter { node, name, value } => ControlAction::SetParameter {
            node: node.clone(),
            name: name.clone(),
            value: value.duplicate(),
        },
        Request::GetLoggerLevel { node, logger } => ControlAction::GetLoggerLevel {
            node: node.clone(),
            logger: logger.clone(),
        },
        Request::SetLoggerLevel { node, logger, level } => ControlAction::SetLoggerLevel {
            node: node.clone(),
            logger: logger.clone(),
            level: *level,
        },
        _ => ControlAction::Reply(Response::Error(owned("unexpected request"))),
    }
}

/// Handles one request of client `client_id`: a subscribe or unsubscribe
/// request changes the router and is answered at once (a subscribe request
/// records every requested topic, configured or not, and confirms the
/// configured ones); any other request is planned as a control request.
pub fn handle_request(
    request: &Request,
    config: &AgentConfig,
    router: &mut TopicRouter,
    client_id: ClientId,
) -> (r: ControlAction)
    requires
        old(router).wf(),
    ensures
        final(router).wf(),
        final(router).next_id() == old(router).next_id(),
        final(router).windows() == old(router).windows(),
        request matches Request::Subscribe { topics } ==> ((old(router).clients().dom().contains(
            client_id,
        ) ==> final(router).clients() == old(router).clients().insert(
            client_id,
            old(router).clients()[client_id].union(views(topics@).to_set()),
        )) && (!old(router).clients().dom().contains(client_id) ==> final(router).clients() == old(
            router,
        ).clients()) && (r matches ControlAction::Reply(Response::Subscribed { topics: subs })
            && sub_views(subs@) == confirmed(
            config.subscriptions@,
            views(topics@),
        ))),
        request matches Request::Unsubscribe { topics } ==> ((old(router).clients().dom().contains(
            client_id,
        ) ==> final(router).clients() == old(router).clients().insert(
            client_id,
            old(router).clients()[client_id].difference(views(topics@).to_set()),
        )) && (!old(router).clients().dom().contains(client_id) ==> final(router).clients() == old(
            router,
        ).clients()) && (r matches ControlAction::Reply(Response::Unsubscribed { topics: gone })
            && views(gone@) == views(topics@))),
        !(request is Subscribe || request is Unsubscribe) ==> final(router).clients() == old(
            router,
        ).clients(),
        !(request is Subscribe || request is Unsubscribe) ==> plans_control(*request, *config, r),
{
    match request {
        Request::Subscribe { topics } => {
            let subs = confirm_subscriptions(config, topics);
            router.subscribe(client_id, clone_strings(topics));
            ControlAction::Reply(Response::Subscribed { topics: subs })
        },
        Request::Unsubscribe { topics } => {
            router.unsubscribe(client_id, topics.as_slice());
            ControlAction::Reply(Response::Unsubscribed { topics: clone_strings(topics) })
        },
        _ => plan_control_request(request, config),
    }
}

} // verus!
