//! The agent's decisions: routing topic data to subscribed clients and
//! answering requests.
pub mod router;
pub mod graph;
pub mod logger_levels;
pub mod parameters;
pub mod control;
pub mod requests;
pub mod streams;
pub mod ros_msgs;
pub mod conversions;
pub mod dynamic;
pub mod walker;
