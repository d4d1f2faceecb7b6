//! Per-connection protocol state: the agent's record of what a client
//! subscribed to, and a client's sorting of control replies from topic data.
pub mod client;
pub mod server;
