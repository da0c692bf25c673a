use rust_tunnel::config::RustTunnelConfig;

#[test]
fn default_configuration() {
    let c = RustTunnelConfig::default();
    assert_eq!(c.port, 2222);
    assert!(c.server_keys.is_empty());
    assert_eq!(c.inactivity_timeout, 3600);
    assert_eq!(c.rejection_time, 3);
    assert!(c.routes.is_empty());
}

#[test]
fn command_line_port_overrides_configured_port() {
    let c = RustTunnelConfig::default();
    assert_eq!(c.listen_port(Some(8022)), 8022);
    assert_eq!(c.listen_port(None), 2222);
}
