//! The command-line client's reading of the agent's replies: what each
//! command shows, or the error it stops with.
use vstd::prelude::*;

use crate::number::{parse_u8, parse_u8_spec};
use crate::protocol::messages::{Request, Response};
use crate::protocol::params::ParamInfo;
use crate::protocol::types::{
    logger_level_name, logger_level_name_spec, NodeInfo, TopicInfo, TopicStats,
};
use crate::text::{concat2, concat3, decimal, decimal_spec, owned, str_eq};

verus! {

/// The error a command stops with when the agent answers with a response of
/// the wrong kind.
pub open spec fn unexpected_text() -> Seq<char> {
    "unexpected response"@
}

/// The topics of a topic list reply; the agent's error, or "unexpected
/// response" for any other reply.
pub fn topics_outcome(response: Response) -> (r: Result<Vec<TopicInfo>, String>)
    ensures
        match response {
            Response::TopicList(topics) => r == Ok::<Vec<TopicInfo>, String>(topics),
            Response::Error(e) => r matches Err(m) && m@ == e@,
            _ => r matches Err(m) && m@ == unexpected_text(),
        },
{
    match response {
        Response::TopicList(topics) => Ok(topics),
        Response::Error(e) => Err(e),
        _ => Err(owned("unexpected response")),
    }
}

/// The nodes of a node list reply; the agent's error, or "unexpected
/// response" for any other reply.
pub fn nodes_outcome(response: Response) -> (r: Result<Vec<NodeInfo>, String>)
    ensures
        match response {
            Response::NodeList(nodes) => r == Ok::<Vec<NodeInfo>, String>(nodes),
            Response::Error(e) => r matches Err(m) && m@ == e@,
            _ => r matches Err(m) && m@ == unexpected_text(),
        },
{
    match response {
        Response::NodeList(nodes) => Ok(nodes),
        Response::Error(e) => Err(e),
        _ => Err(owned("unexpected response")),
    }
}

/// The node and parameters of a parameter list reply; the agent's error, or
/// "unexpected response" for any other reply.
pub fn list_params_outcome(response: Response) -> (r: Result<(String, Vec<ParamInfo>), String>)
    ensures
        match response {
            Response::Parameters { node, parameters } => r == Ok::<
                (String, Vec<ParamInfo>),
                String,
            >((node, parameters)),
            Response::Error(e) => r matches Err(m) && m@ == e@,
            _ => r matches Err(m) && m@ == unexpected_text(),
        },
{
    match response {
        Response::Parameters { node, parameters } => Ok((node, parameters)),
        Response::Error(e) => Err(e),
        _ => Err(owned("unexpected response")),
    }
}

/// The parameters of a parameter reply to a get request; the agent's error,
/// or "unexpected response" for any other reply.
pub fn get_params_outcome(response: Response) -> (r: Result<Vec<ParamInfo>, String>)
    ensures
        match response {
            Response::Parameters { node, parameters } => r == Ok::<Vec<ParamInfo>, String>(
                parameters,
            ),
            Response::Error(e) => r matches Err(m) && m@ == e@,
            _ => r matches Err(m) && m@ == unexpected_text(),
        },
{
    match response {
        Response::Parameters { parameters, .. } => Ok(parameters),
        Response::Error(e) => Err(e),
        _ => Err(owned("unexpected response")),
    }
}

/// The outcome of a set request for a parameter: "set <node> <name>" when
/// the node accepted it, "failed to set '<name>': <reason>" when it did not,
/// the agent's error, or "unexpected response".
pub fn set_param_outcome(response: Response) -> (r: Result<String, String>)
    ensures
        match response {
            Response::ParameterSet { node, name, successful, reason } => if successful {
                r matches Ok(m) && m@ == "set "@ + node@ + " "@ + name@
            } else {
                r matches Err(m) && m@ == "failed to set '"@ + name@ + "': "@ + reason@
            },
            Response::Error(e) => r matches Err(m) && m@ == e@,
            _ => r matches Err(m) && m@ == unexpected_text(),
        },
{
    match response {
        Response::ParameterSet { node, name, successful, reason } => {
            if successful {
                let head = concat3("set ", node.as_str(), " ");
                Ok(concat2(head.as_str(), name.as_str()))
            } else {
                let head = concat3("failed to set '", name.as_str(), "': ");
                Err(concat2(head.as_str(), reason.as_str()))
            }
        },
        Response::Error(e) => Err(e),
        _ => Err(owned("unexpected response")),
    }
}

/// How a logger level is shown: its name, or its number when it has none.
pub open spec fn level_label_spec(level: u32) -> Seq<char> {
    match logger_level_name_spec(level) {
        Some(n) => n,
        None => decimal_spec(level as nat),
    }
}

/// How a logger level is shown: its name, or its number when it has none.
pub fn level_label(level: u32) -> (r: String)
    ensures
        r@ == level_label_spec(level),
{
    match logger_level_name(level) {
        Some(n) => owned(n),
        None => decimal(level as u64),
    }
}

/// The level a name stands for: one of the ROS level names (`unset`,
/// `debug`, `info`, `warn`, `error`, `fatal`).
pub open spec fn parse_logger_level_spec(name: Seq<char>) -> Option<u32> {
    if name == "unset"@ {
        Some(0)
    } else if name == "debug"@ {
        Some(10)
    } else if name == "info"@ {
        Some(20)
    } else if name == "warn"@ {
        Some(30)
    } else if name == "error"@ {
        Some(40)
    } else if name == "fatal"@ {
        Some(50)
    } else {
        None
    }
}

/// The level a name stands for, if it is a ROS level name.
pub fn parse_logger_level(name: &str) -> (r: Option<u32>)
    ensures
        r == parse_logger_level_spec(name@),
{
    if str_eq(name, "unset") {
        Some(0)
    } else if str_eq(name, "debug") {
        Some(10)
    } else if str_eq(name, "info") {
        Some(20)
    } else if str_eq(name, "warn") {
        Some(30)
    } else if str_eq(name, "error") {
        Some(40)
    } else if str_eq(name, "fatal") {
        Some(50)
    } else {
        None
    }
}

/// A level name reads back as its level, and a level read from a name is
/// shown by that name.
pub proof fn lemma_level_names_round_trip(level: u32, name: Seq<char>)
    ensures
        logger_level_name_spec(level) matches Some(n) ==> parse_logger_level_spec(n) == Some(level),
        parse_logger_level_spec(name) matches Some(l) ==> logger_level_name_spec(l) == Some(name),
{
    reveal_strlit("unset");
    reveal_strlit("debug");
    reveal_strlit("info");
    reveal_strlit("warn");
    reveal_strlit("error");
    reveal_strlit("fatal");
    assert("unset"@[0] == 'u' && "debug"@[0] == 'd' && "info"@[0] == 'i' && "warn"@[0] == 'w'
        && "error"@[0] == 'e' && "fatal"@[0] == 'f');
}

/// The request of the log level command: set the level when one is given
/// (which must be a level name), read it otherwise.
pub fn logger_request(node: String, logger: String, level: Option<String>) -> (r: Result<Request, String>)
    ensures
        match level {
            None => r == Ok::<Request, String>(Request::GetLoggerLevel { node, logger }),
            Some(l) => match parse_logger_level_spec(l@) {
                Some(n) => r == Ok::<Request, String>(
                    Request::SetLoggerLevel { node, logger, level: n },
                ),
                None => r matches Err(m) && m@ == "unknown level '"@ + l@
                    + "' (expected unset, debug, info, warn, error or fatal)"@,
            },
        },
{
    match level {
        None => Ok(Request::GetLoggerLevel { node, logger }),
        Some(l) => match parse_logger_level(l.as_str()) {
            Some(n) => Ok(Request::SetLoggerLevel { node, logger, level: n }),
            None => Err(
                concat3(
                    "unknown level '",
                    l.as_str(),
                    "' (expected unset, debug, info, warn, error or fatal)",
                ),
            ),
        },
    }
}

/// The outcome of the log level command: "<logger>: <level>" for a level
/// reply, "set <logger>" when a set was accepted, "failed to set
/// '<logger>': <reason>" when it was not, the agent's error, or "unexpected
/// response".
pub fn log_level_outcome(response: Response) -> (r: Result<String, String>)
    ensures
        match response {
            Response::LoggerLevel { node, logger, level } => r matches Ok(m) && m@ == logger@
                + ": "@ + level_label_spec(level),
            Response::LoggerLevelSet { node, logger, successful, reason } => if successful {
                r matches Ok(m) && m@ == "set "@ + logger@
            } else {
                r matches Err(m) && m@ == "failed to set '"@ + logger@ + "': "@ + reason@
            },
            Response::Error(e) => r matches Err(m) && m@ == e@,
            _ => r matches Err(m) && m@ == unexpected_text(),
        },
{
    match response {
        Response::LoggerLevel { logger, level, .. } => {
            let label = level_label(level);
            Ok(concat3(logger.as_str(), ": ", label.as_str()))
        },
        Response::LoggerLevelSet { logger, successful, reason, .. } => {
            if successful {
                Ok(concat2("set ", logger.as_str()))
            } else {
                let head = concat3("failed to set '", logger.as_str(), "': ");
                Err(concat2(head.as_str(), reason.as_str()))
            }
        },
        Response::Error(e) => Err(e),
        _ => Err(owned("unexpected response")),
    }
}

/// The statistics of a stats reply; the agent's error, or "unexpected
/// response" for any other reply.
pub fn stats_outcome(response: Response) -> (r: Result<Vec<TopicStats>, String>)
    ensures
        match response {
            Response::TopicStats(stats) => r == Ok::<Vec<TopicStats>, String>(stats),
            Response::Error(e) => r matches Err(m) && m@ == e@,
            _ => r matches Err(m) && m@ == unexpected_text(),
        },
{
    match response {
        Response::TopicStats(stats) => Ok(stats),
        Response::Error(e) => Err(e),
        _ => Err(owned("unexpected response")),
    }
}

/// The position of the first statistics entry for `topic`.
pub fn find_topic_stats(stats: &Vec<TopicStats>, topic: &str) -> (r: Option<usize>)
    ensures
        match r {
            Some(i) => i < stats@.len() && stats@[i as int].topic@ == topic@ && forall|k: int|
                0 <= k < i ==> stats@[k].topic@ != topic@,
            None => forall|k: int| 0 <= k < stats@.len() ==> stats@[k].topic@ != topic@,
        },
{
    let mut i: usize = 0;
    while i < stats.len()
        invariant
            i <= stats@.len(),
            forall|k: int| 0 <= k < i ==> stats@[k].topic@ != topic@,
        decreases stats@.len() - i,
    {
        if str_eq(stats[i].topic.as_str(), topic) {
            return Some(i);
        }
        i = i + 1;
    }
    None
}

} // verus!
