use frpc::config::{ClientCommonConfig, ClientTcpConfig, ClientWebConfig, Config, ConfigError};
use frpc::frpc::{parse_port, FrpcProps};

fn props(protocol: &str) -> FrpcProps {
    FrpcProps::new(protocol.to_string(), 8080, 6000, "example.org".to_string(), "tok".to_string())
}

#[test]
fn defaults() {
    let common = ClientCommonConfig::new();
    assert_eq!(common.server_addr, "127.0.0.1");
    assert_eq!(common.server_port, 7000);
    assert_eq!(common.token, "");
    let tcp = ClientTcpConfig::new();
    assert_eq!(tcp.service_type, "tcp");
    assert_eq!(tcp.local_ip, "127.0.0.1");
    assert_eq!((tcp.local_port, tcp.remote_port), (0, 0));
    let config = Config::new();
    assert_eq!(config.server_addr(), "127.0.0.1");
    assert_eq!(config.server_port(), 7000);
    assert_eq!(config.auth_token(), "");
    assert!(config.tcp_configs.is_empty());
    assert!(config.web_configs.is_empty());
}

#[test]
fn resolves_the_loaded_service() {
    let mut config = Config::new();
    assert_eq!(config.load_config(&props("tcp")), Ok(()));
    assert_eq!(config.server_addr(), "example.org");
    assert_eq!(config.server_port(), 6000);
    assert_eq!(config.auth_token(), "tok");
    assert_eq!(config.tcp_configs.len(), 1);
    assert_eq!(config.tcp_configs[0].1.remote_port, 6000);
    let p = config.get_proxy("service").unwrap();
    assert_eq!(p.server_addr, "127.0.0.1");
    assert_eq!(p.server_port, 8080);
    assert_eq!(p.proxy_type, "tcp");
    assert_eq!(config.get_proxy("missing").err(), Some(ConfigError::NotFound));
}

#[test]
fn web_protocol_loads_a_web_service() {
    let mut config = Config::new();
    assert_eq!(config.load_config(&props("http")), Ok(()));
    assert!(config.tcp_configs.is_empty());
    assert_eq!(config.web_configs.len(), 1);
    assert_eq!(config.web_configs[0].0, "service");
    let web = &config.web_configs[0].1;
    assert_eq!(web.service_type, "http");
    assert_eq!((web.local_ip.as_str(), web.local_port), ("127.0.0.1", 8080));
    assert!(!web.check());
    assert_eq!(config.server_addr(), "example.org");
    let p = config.get_proxy("service").unwrap();
    assert_eq!((p.server_port, p.proxy_type.as_str()), (8080, "web"));
}

#[test]
fn other_protocols_load_a_tcp_service() {
    let mut config = Config::new();
    assert_eq!(config.load_config(&props("udp")), Ok(()));
    assert_eq!(config.tcp_configs.len(), 1);
    assert!(config.web_configs.is_empty());
    let p = config.get_proxy("service").unwrap();
    assert_eq!((p.server_port, p.proxy_type.as_str()), (8080, "tcp"));
}

#[test]
fn reloading_replaces_the_service() {
    let mut config = Config::new();
    assert_eq!(config.load_config(&props("https")), Ok(()));
    assert_eq!(config.load_config(&props("tcp")), Ok(()));
    assert_eq!(config.tcp_configs.len(), 1);
    assert!(config.web_configs.is_empty());
}

#[test]
fn web_proxies_resolve_after_tcp() {
    let mut config = Config::new();
    let mut web = ClientWebConfig::new("http".to_string());
    web.local_port = 80;
    web.subdomain = Some("www".to_string());
    config.web_configs.push(("site".to_string(), web));
    let p = config.get_proxy("site").unwrap();
    assert_eq!((p.server_addr.as_str(), p.server_port, p.proxy_type.as_str()), ("127.0.0.1", 80, "web"));
    let mut tcp = ClientTcpConfig::new();
    tcp.local_port = 22;
    config.tcp_configs.push(("site".to_string(), tcp));
    let p = config.get_proxy("site").unwrap();
    assert_eq!((p.server_port, p.proxy_type.as_str()), (22, "tcp"));
}

#[test]
fn web_config_needs_a_hostname() {
    let mut web = ClientWebConfig::new("https".to_string());
    assert_eq!(web.service_type, "https");
    assert!(!web.check());
    web.custom_domains = Some("example.org".to_string());
    assert!(web.check());
    web.custom_domains = None;
    web.subdomain = Some("app".to_string());
    assert!(web.check());
    web.custom_domains = Some("example.org".to_string());
    assert!(web.check());
}

#[test]
fn missing_remote_port_is_invalid() {
    let r = FrpcProps::parse(
        None,
        Some("8080".to_string()),
        None,
        Some("example.org".to_string()),
        None,
    );
    assert!(matches!(r, Err(ConfigError::Invalid)));
}

#[test]
fn parse_fills_defaults() {
    let p = FrpcProps::parse(
        None,
        Some("8080".to_string()),
        Some("6000".to_string()),
        Some("example.org".to_string()),
        None,
    )
    .unwrap();
    assert_eq!(p.protocol, "tcp");
    assert_eq!(p.token, "");
    assert_eq!((p.local_port, p.remote_port), (8080, 6000));
    assert_eq!(p.remote_addr, "example.org");
}

#[test]
fn malformed_ports_are_invalid() {
    let bad = FrpcProps::parse(
        Some("tcp".to_string()),
        Some("80x".to_string()),
        Some("6000".to_string()),
        Some("example.org".to_string()),
        Some("t".to_string()),
    );
    assert!(matches!(bad, Err(ConfigError::Invalid)));
    let missing_addr = FrpcProps::parse(None, Some("1".to_string()), Some("2".to_string()), None, None);
    assert!(matches!(missing_addr, Err(ConfigError::Invalid)));
}

#[test]
fn port_text() {
    assert_eq!(parse_port("0"), Some(0));
    assert_eq!(parse_port("8080"), Some(8080));
    assert_eq!(parse_port("065535"), Some(65535));
    assert_eq!(parse_port("65536"), None);
    assert_eq!(parse_port("999999"), None);
    assert_eq!(parse_port(""), None);
    assert_eq!(parse_port("-1"), None);
    assert_eq!(parse_port(" 80"), None);
    assert_eq!(parse_port("+80"), Some(80));
    assert_eq!(parse_port("+"), None);
    assert_eq!(parse_port("++1"), None);
    assert_eq!(parse_port("+65536"), None);
}
