//! The agent's configuration model (read from TOML by the agent binary).
use vstd::prelude::*;

use crate::text::owned;

verus! {

/// The socket the agent listens on when nothing else is configured.
pub open spec fn default_socket_path() -> Seq<char> {
    "/tmp/talos.sock"@
}

/// The QUIC address the agent binds when none is given.
pub open spec fn default_bind_addr() -> Seq<char> {
    "0.0.0.0:4433"@
}

/// The whole agent configuration.
#[derive(Debug, Clone, PartialEq)]
pub struct AgentConfig {
    pub transport: TransportSettings,
    pub subscriptions: Vec<SubscriptionConfig>,
    pub control: Option<ControlConfig>,
    /// Named poses: each name with its joint targets (`f64` bit patterns).
    pub poses: Vec<(String, Vec<(String, u64)>)>,
}

/// Top-level transport settings. Both `uds` and `quic` are optional; at least
/// one should be configured for the agent to accept connections.
#[derive(Debug, Clone, PartialEq)]
pub struct TransportSettings {
    pub uds: Option<UdsTransportConfig>,
    pub quic: Option<QuicTransportConfig>,
}

#[derive(Debug, Clone, PartialEq)]
pub struct UdsTransportConfig {
    pub socket_path: String,
}

#[derive(Debug, Clone, PartialEq)]
pub struct QuicTransportConfig {
    pub bind_addr: String,
    pub cert_path: Option<String>,
    pub key_path: Option<String>,
}

/// QoS profile for a subscription: the rclrs default (reliable) or the
/// sensor-data profile (best effort, depth 5).
#[derive(Debug, Clone, Copy, PartialEq, Eq)]
pub enum QosProfile {
    Default,
    SensorData,
}

#[derive(Debug, Clone, PartialEq)]
pub struct SubscriptionConfig {
    pub topic: String,
    pub msg_type: String,
    pub qos: QosProfile,
}

#[derive(Debug, Clone, PartialEq)]
pub struct ControlConfig {
    pub method: ControlMethod,
    pub topic: String,
    pub msg_type: String,
}

#[derive(Debug, Clone, Copy, PartialEq, Eq)]
pub enum ControlMethod {
    Topic,
    Action,
}

impl Default for UdsTransportConfig {
    fn default() -> (c: Self)
        ensures
            c.socket_path@ == default_socket_path(),
    {
        UdsTransportConfig { socket_path: owned("/tmp/talos.sock") }
    }
}

impl Default for QuicTransportConfig {
    fn default() -> (c: Self)
        ensures
            c.bind_addr@ == default_bind_addr(),
            c.cert_path is None,
            c.key_path is None,
    {
        QuicTransportConfig { bind_addr: owned("0.0.0.0:4433"), cert_path: None, key_path: None }
    }
}

impl Default for TransportSettings {
    /// UDS on the default socket, no QUIC.
    fn default() -> (t: Self)
        ensures
            t.uds is Some,
            t.uds->0.socket_path@ == default_socket_path(),
            t.quic is None,
    {
        TransportSettings { uds: Some(UdsTransportConfig::default()), quic: None }
    }
}

impl Default for QosProfile {
    fn default() -> (q: Self)
        ensures
            q == QosProfile::Default,
    {
        QosProfile::Default
    }
}

impl Default for AgentConfig {
    /// UDS on the default socket, no subscriptions, no control, no poses.
    fn default() -> (c: Self)
        ensures
            c.transport.uds is Some,
            c.transport.uds->0.socket_path@ == default_socket_path(),
            c.transport.quic is None,
            c.subscriptions@.len() == 0,
            c.control is None,
            c.poses@.len() == 0,
    {
        AgentConfig {
            transport: TransportSettings::default(),
            subscriptions: Vec::new(),
            control: None,
            poses: Vec::new(),
        }
    }
}

impl AgentConfig {
    /// The UDS socket path, if UDS transport is configured.
    pub fn uds_socket_path(&self) -> (p: Option<&str>)
        ensures
            match self.transport.uds {
                Some(u) => p is Some && p->0@ == u.socket_path@,
                None => p is None,
            },
    {
        match &self.transport.uds {
            Some(u) => Some(u.socket_path.as_str()),
            None => None,
        }
    }
}

} // verus!
