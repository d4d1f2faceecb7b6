//! Requests a client sends to the agent and the agent's responses.
use vstd::prelude::*;

use super::params::{ParamInfo, ParamValue};
use super::types::{
    DynValue, EndpointInfo, NodeInfo, PoseInfo, Timestamp, TopicFrame, TopicInfo, TopicStats,
    TopicSub,
};

verus! {

#[derive(Debug, PartialEq)]
pub enum Request {
    ListTopics,
    ListNodes,
    ListPoses,
    /// Move one joint; the position is an `f64` bit pattern.
    SetJointPosition { joint: String, position: u64 },
    ExecutePose { name: String },
    Subscribe { topics: Vec<String> },
    Unsubscribe { topics: Vec<String> },
    /// List all parameters of a node (names with their current values).
    ListParameters { node: String },
    /// Get the current values of specific parameters of a node.
    GetParameters { node: String, names: Vec<String> },
    /// Set a single parameter value on a node.
    SetParameter { node: String, name: String, value: ParamValue },
    /// Agent-side rate/bandwidth/latency for every bridged topic.
    GetTopicStats,
    /// Publishers and subscriptions on `topic`, with their QoS.
    GetTopicEndpoints { topic: String },
    /// Level of a node's logger; an empty `logger` means the node's own logger.
    GetLoggerLevel { node: String, logger: String },
    /// Set the level of a node's logger; an empty `logger` means the node's own logger.
    SetLoggerLevel { node: String, logger: String, level: u32 },
}

#[derive(Debug, PartialEq)]
#[allow(inconsistent_fields)]
pub enum Response {
    TopicList(Vec<TopicInfo>),
    NodeList(Vec<NodeInfo>),
    TopicData { topic: String, msg_type: String, stamp: Timestamp, data: DynValue },
    PoseList(Vec<PoseInfo>),
    Subscribed { topics: Vec<TopicSub> },
    Unsubscribed { topics: Vec<String> },
    /// Parameter names with values, for both `ListParameters` and `GetParameters`.
    Parameters { node: String, parameters: Vec<ParamInfo> },
    /// Result of a `SetParameter` request.
    ParameterSet { node: String, name: String, successful: bool, reason: String },
    /// A request was carried out; the text says what was done.
    Done(String),
    Error(String),
    /// Reply to `GetTopicStats`.
    TopicStats(Vec<TopicStats>),
    /// Reply to `GetTopicEndpoints`.
    TopicEndpoints {
        topic: String,
        publishers: Vec<EndpointInfo>,
        subscribers: Vec<EndpointInfo>,
    },
    /// Reply to `GetLoggerLevel`, with the resolved logger name.
    LoggerLevel { node: String, logger: String, level: u32 },
    /// Reply to `SetLoggerLevel`.
    LoggerLevelSet { node: String, logger: String, successful: bool, reason: String },
}

/// Splits a topic data response into its topic and the frame a data stream
/// carries (the message type is dropped); any other response is handed back.
pub fn topic_frame_of(response: Response) -> (r: Result<(String, TopicFrame), Response>)
    ensures
        match response {
            Response::TopicData { topic, msg_type, stamp, data } => r == Ok::<
                (String, TopicFrame),
                Response,
            >((topic, TopicFrame { stamp, data })),
            _ => r == Err::<(String, TopicFrame), Response>(response),
        },
{
    match response {
        Response::TopicData { topic, msg_type, stamp, data } => Ok((topic, TopicFrame { stamp, data })),
        other => Err(other),
    }
}

} // verus!
