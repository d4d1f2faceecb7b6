use talos::config::{AgentConfig, QosProfile, QuicTransportConfig, TransportSettings, UdsTransportConfig};

#[test]
fn uds_socket_path_helper() {
    let config = AgentConfig::default();
    assert_eq!(config.uds_socket_path(), Some("/tmp/talos.sock"));
}

#[test]
fn defaults() {
    assert_eq!(UdsTransportConfig::default().socket_path, "/tmp/talos.sock");
    let quic = QuicTransportConfig::default();
    assert_eq!(quic.bind_addr, "0.0.0.0:4433");
    assert_eq!(quic.cert_path, None);
    let t = TransportSettings::default();
    assert!(t.quic.is_none());
    assert_eq!(QosProfile::default(), QosProfile::Default);
    let mut config = AgentConfig::default();
    config.transport.uds = None;
    assert_eq!(config.uds_socket_path(), None);
}
