//! Reading and setting a node's logger levels: which logger a request names
//! and what the agent answers.
use vstd::prelude::*;

use crate::agent::parameters::{normalize_node_name, normalized_node_name};
use crate::protocol::messages::Response;
use crate::text::{
    concat3, owned, replace_char, replace_char_spec, trim, trim_spec, trim_start_char,
    trim_start_char_spec,
};

verus! {

/// The logger a request names: `logger` trimmed, or, when that is empty, the
/// node's own logger: the fully qualified node name without its leading `/`s,
/// with each remaining `/` replaced by `.` (`/ns/foo` becomes `ns.foo`).
pub open spec fn resolve_logger_spec(base: Seq<char>, logger: Seq<char>) -> Seq<char> {
    let l = trim_spec(logger);
    if l.len() == 0 {
        replace_char_spec(trim_start_char_spec(base, '/'), '/', '.')
    } else {
        l
    }
}

/// `logger`, or the node's own logger name when empty.
pub fn resolve_logger(base: &str, logger: &str) -> (r: String)
    ensures
        r@ == resolve_logger_spec(base@, logger@),
{
    let l = trim(logger);
    if l.unicode_len() == 0 {
        let dot = ".";
        proof {
            reveal_strlit(".");
        }
        replace_char(trim_start_char(base, '/'), '/', dot)
    } else {
        owned(l)
    }
}

/// The error given when a node does not offer the logger services.
pub fn unavailable(base: &str) -> (r: String)
    ensures
        r@ == "logger services for '"@ + base@
            + "' are not available (the node must enable them, e.g. rclcpp NodeOptions().enable_logger_service(true))"@,
{
    concat3(
        "logger services for '",
        base,
        "' are not available (the node must enable them, e.g. rclcpp NodeOptions().enable_logger_service(true))",
    )
}

/// The node and logger a logger request is about, or the error to answer.
pub fn prepare_logger_request(node_available: bool, node: &str, logger: &str) -> (r: Result<(String, String), Response>)
    ensures
        !node_available ==> (r matches Err(Response::Error(m)) && m@ == "ROS 2 node not available yet"@),
        node_available && normalized_node_name(node@) is None ==> (r matches Err(Response::Error(m))
            && m@ == "node name must not be empty"@),
        node_available ==> (normalized_node_name(node@) matches Some(base) ==> (r matches Ok(p)
            && p.0@ == base && p.1@ == resolve_logger_spec(base, logger@))),
{
    if !node_available {
        return Err(Response::Error(owned("ROS 2 node not available yet")));
    }
    match normalize_node_name(node) {
        Some(base) => {
            let l = resolve_logger(base.as_str(), logger);
            Ok((base, l))
        },
        None => Err(Response::Error(owned("node name must not be empty"))),
    }
}

/// The reply to `GetLoggerLevel` once the service answered with `levels`.
pub fn logger_level_reply(base: String, logger: String, levels: Vec<u32>) -> (r: Response)
    ensures
        levels@.len() > 0 ==> r == (Response::LoggerLevel { node: base, logger, level: levels@[0] }),
        levels@.len() == 0 ==> (r matches Response::Error(m) && m@
            == "get_logger_levels returned no level"@),
{
    if levels.len() > 0 {
        Response::LoggerLevel { node: base, logger, level: levels[0] }
    } else {
        Response::Error(owned("get_logger_levels returned no level"))
    }
}

/// The reply to `SetLoggerLevel` once the service answered with `results`
/// (success flag and reason for each logger set).
pub fn logger_level_set_reply(base: String, logger: String, results: Vec<(bool, String)>) -> (r: Response)
    ensures
        results@.len() > 0 ==> r == (Response::LoggerLevelSet {
            node: base,
            logger,
            successful: results@[0].0,
            reason: results@[0].1,
        }),
        results@.len() == 0 ==> (r matches Response::Error(m) && m@
            == "set_logger_levels returned no result"@),
{
    let mut results = results;
    if results.len() > 0 {
        let (successful, reason) = results.remove(0);
        Response::LoggerLevelSet { node: base, logger, successful, reason }
    } else {
        Response::Error(owned("set_logger_levels returned no result"))
    }
}

} // verus!
