use interlink::common::config::{config_file_path, Config, Environment};
use interlink::proxy::config::{default_mux_true, ProxyConfig};

fn env() -> Environment {
    Environment::default()
}

#[test]
fn test_default_config() {
    let cfg = Config::default();
    assert_eq!(cfg.trust_domain, "cluster.local");
    assert!(cfg.identity.is_none());
    assert_eq!(cfg.max_connections, 1024);
}

#[test]
fn test_config_from_env() {
    let cfg = Config::load(
        None,
        Environment {
            trust_domain: Some("env.local".into()),
            max_connections: Some("512".into()),
            ..env()
        },
    )
    .unwrap();
    assert_eq!(cfg.trust_domain, "env.local");
    assert_eq!(cfg.max_connections, 512);
    assert!(cfg.identity.is_none());
}

#[test]
fn test_config_invalid_identity() {
    let cfg = Config {
        identity: Some("not-a-spiffe-id".into()),
        ..Config::default()
    };
    assert!(cfg.validate().is_err());
}

#[test]
fn test_config_empty_trust_domain() {
    let cfg = Config {
        trust_domain: "".into(),
        ..Config::default()
    };
    assert!(cfg.validate().is_err());
}

#[test]
fn defaults_are_those_of_the_manual() {
    let cfg = Config::default();
    assert_eq!(cfg.proxy_inbound_port, 4143);
    assert_eq!(cfg.proxy_outbound_port, 4140);
    assert_eq!(cfg.metrics_port, 4190);
    assert_eq!(cfg.log_level, "info");
    assert!(cfg.mux);
    assert!(cfg.default_upstream.is_none());
    assert!(cfg.validate().is_ok());
    let proxy = ProxyConfig::default();
    assert_eq!(proxy.trust_domain, "cluster.local");
    assert_eq!(proxy.max_connections, Some(1024));
    assert!(proxy.mux && default_mux_true());
    assert_eq!(config_file_path(None), "/etc/interlink/config.json");
    assert_eq!(config_file_path(Some(String::new())), "/etc/interlink/config.json");
    assert_eq!(config_file_path(Some("/x.json".into())), "/x.json");
}

#[test]
fn each_fault_has_its_error() {
    let message = |cfg: Config| cfg.validate().unwrap_err().message();
    assert_eq!(
        message(Config { trust_domain: String::new(), ..Config::default() }),
        "Configuration error: trust_domain must not be empty"
    );
    assert_eq!(
        message(Config { max_connections: 0, ..Config::default() }),
        "Configuration error: max_connections must be > 0"
    );
    assert_eq!(
        message(Config { identity: Some("spiffe:".into()), ..Config::default() }),
        "Configuration error: invalid INTERLINK_IDENTITY: Identity error: invalid URI: missing URI scheme separator"
    );
    let load = |env: Environment| Config::load(None, env).unwrap_err().message();
    assert_eq!(
        load(Environment { proxy_inbound_port: Some("abc".into()), ..env() }),
        "Configuration error: invalid port 'abc': invalid digit found in string"
    );
    assert_eq!(
        load(Environment { proxy_outbound_port: Some("".into()), ..env() }),
        "Configuration error: invalid port '': cannot parse integer from empty string"
    );
    assert_eq!(
        load(Environment { metrics_port: Some("65536".into()), ..env() }),
        "Configuration error: invalid port '65536': number too large to fit in target type"
    );
    assert_eq!(
        load(Environment { max_connections: Some("-1".into()), ..env() }),
        "Configuration error: INTERLINK_MAX_CONNECTIONS: invalid digit found in string"
    );
    assert_eq!(
        load(Environment { mux: Some("yes".into()), ..env() }),
        "Configuration error: INTERLINK_MUX: provided string was not `true` or `false`"
    );
    assert_eq!(
        load(Environment { max_connections: Some("0".into()), ..env() }),
        "Configuration error: max_connections must be > 0"
    );
}

#[test]
fn the_environment_comes_before_the_file_and_the_file_before_the_defaults() {
    let file = Config {
        trust_domain: "file.local".into(),
        proxy_inbound_port: 1,
        metrics_port: 3,
        cert_path: Some("file.crt".into()),
        key_path: None,
        mux: false,
        ..Config::default()
    };
    let cfg = Config::load(
        Some(file.clone()),
        Environment {
            trust_domain: Some("env.local".into()),
            proxy_inbound_port: Some("+65535".into()),
            proxy_outbound_port: Some("0".into()),
            key_path: Some("env.key".into()),
            default_upstream: Some("localhost:80".into()),
            identity: Some("spiffe://env.local/ns/a/sa/b".into()),
            log_level: Some("debug".into()),
            ca_bundle_path: Some("env.ca".into()),
            ..env()
        },
    )
    .unwrap();
    assert_eq!(cfg.trust_domain, "env.local");
    assert_eq!(cfg.proxy_inbound_port, 65535);
    assert_eq!(cfg.proxy_outbound_port, 0);
    assert_eq!(cfg.metrics_port, 3);
    assert_eq!(cfg.cert_path.as_deref(), Some("file.crt"));
    assert_eq!(cfg.key_path.as_deref(), Some("env.key"));
    assert_eq!(cfg.ca_bundle_path.as_deref(), Some("env.ca"));
    assert_eq!(cfg.log_level, "debug");
    assert!(!cfg.mux);

    let proxy = cfg.to_proxy_config();
    assert_eq!(proxy.trust_domain, "env.local");
    assert_eq!(proxy.identity.as_deref(), Some("spiffe://env.local/ns/a/sa/b"));
    assert_eq!(proxy.default_upstream.as_deref(), Some("localhost:80"));
    assert_eq!(proxy.max_connections, Some(1024));
    assert!(!proxy.mux);

    let cfg = Config::load(Some(file), Environment { mux: Some("true".into()), ..env() }).unwrap();
    assert!(cfg.mux);
    assert_eq!(cfg.proxy_outbound_port, 4140);
    assert_eq!(cfg.to_proxy_config().clone().default_upstream, None);
}
