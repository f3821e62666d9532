use std::collections::HashMap;

use tent_backend::config::{
    parse_bool, parse_port, Config, ConfigError, RootConfig, BACKEND_HOST_VAR, BACKEND_PORT_VAR,
    ENABLE_EXPERIMENTAL_VAR, LOG_LEVEL_VAR,
};

fn config_from(entries: &[(&str, &str)]) -> Result<Config, ConfigError> {
    let values: HashMap<&str, String> = entries
        .iter()
        .map(|(key, value)| (*key, (*value).to_string()))
        .collect();
    let lookup = |name: &str| values.get(name).cloned();
    Config::from_lookup(
        lookup(BACKEND_HOST_VAR),
        lookup(BACKEND_PORT_VAR),
        lookup(LOG_LEVEL_VAR),
        lookup(ENABLE_EXPERIMENTAL_VAR),
    )
}

#[test]
fn from_env_defaults_are_safe_for_local_development() {
    assert_eq!(
        config_from(&[]).unwrap(),
        Config {
            host: "0.0.0.0".into(),
            port: 8080,
            log_level: "info".into(),
            enable_experimental: false,
        }
    );
}

#[test]
fn from_env_accepts_valid_overrides() {
    assert_eq!(
        config_from(&[
            ("TOT_BACKEND_HOST", "127.0.0.1"),
            ("TOT_BACKEND_PORT", "18080"),
            ("TOT_LOG_LEVEL", "debug"),
            ("TOT_ENABLE_EXPERIMENTAL", "yes"),
        ])
        .unwrap(),
        Config {
            host: "127.0.0.1".into(),
            port: 18080,
            log_level: "debug".into(),
            enable_experimental: true,
        }
    );
}

#[test]
fn from_env_rejects_invalid_ports() {
    assert_eq!(
        config_from(&[("TOT_BACKEND_PORT", "70000")]).unwrap_err(),
        ConfigError::InvalidPort {
            name: "TOT_BACKEND_PORT",
            value: "70000".into(),
        }
    );

    assert_eq!(
        config_from(&[("TOT_BACKEND_PORT", "0")]).unwrap_err(),
        ConfigError::InvalidPort {
            name: "TOT_BACKEND_PORT",
            value: "0".into(),
        }
    );
}

#[test]
fn from_env_rejects_invalid_booleans() {
    assert_eq!(
        config_from(&[("TOT_ENABLE_EXPERIMENTAL", "maybe")]).unwrap_err(),
        ConfigError::InvalidBool {
            name: "TOT_ENABLE_EXPERIMENTAL",
            value: "maybe".into(),
        }
    );
}

#[test]
fn default_config_matches_unset_environment() {
    assert_eq!(config_from(&[]).unwrap(), Config::default());
}

#[test]
fn port_error_is_reported_before_boolean_error() {
    assert_eq!(
        config_from(&[("TOT_BACKEND_PORT", "x"), ("TOT_ENABLE_EXPERIMENTAL", "maybe")])
            .unwrap_err(),
        ConfigError::InvalidPort {
            name: "TOT_BACKEND_PORT",
            value: "x".into(),
        }
    );
}

#[test]
fn parse_port_follows_unsigned_parsing() {
    assert_eq!(parse_port("P", "1"), Ok(1));
    assert_eq!(parse_port("P", "65535"), Ok(65535));
    assert_eq!(parse_port("P", "+443"), Ok(443));
    assert_eq!(parse_port("P", "0080"), Ok(80));
    assert_eq!(parse_port("P", "00000000000000000000080"), Ok(80));
    for bad in ["", "+", "-1", "-0", "65536", "99999999999", " 80", "80 ", "8o", "0", "+0"] {
        assert_eq!(
            parse_port("P", bad),
            Err(ConfigError::InvalidPort {
                name: "P",
                value: bad.into()
            }),
            "{bad:?}"
        );
    }
}

#[test]
fn every_port_in_decimal_round_trips() {
    for p in 1..=u16::MAX {
        assert_eq!(parse_port("P", &p.to_string()), Ok(p));
        assert_eq!(parse_port("P", &format!("+{p}")), Ok(p));
    }
}

#[test]
fn parse_bool_accepts_the_documented_words() {
    for word in ["true", "1", "yes", "on", "TRUE", "Yes", " On\t", "\u{a0}tRuE\u{3000}"] {
        assert_eq!(parse_bool("B", word), Ok(true), "{word:?}");
    }
    for word in ["false", "0", "no", "off", "FALSE", " No ", "oFF\n"] {
        assert_eq!(parse_bool("B", word), Ok(false), "{word:?}");
    }
    for word in ["", "maybe", "y", "t r u e", "10", "yes!", "\u{130}"] {
        assert_eq!(
            parse_bool("B", word),
            Err(ConfigError::InvalidBool {
                name: "B",
                value: word.into()
            }),
            "{word:?}"
        );
    }
}

#[test]
fn root_config_defaults() {
    let config = RootConfig::default();
    assert_eq!(config.service.name, "tent-backend");
    assert_eq!(config.service.version, "0.1.0");
    assert_eq!(config.service.host, "0.0.0.0");
    assert_eq!(config.service.port, 8080);
    assert!(!config.service.tls_enabled);
    assert_eq!(config.service.tls_cert_path, None);
    assert_eq!(config.service.tls_key_path, None);
    assert_eq!(config.registry.backend, "etcd");
    assert_eq!(config.registry.endpoints, vec!["localhost:2379".to_string()]);
    assert_eq!(config.registry.heartbeat_interval_ms, 5000);
    assert_eq!(config.registry.ttl_seconds, 30);
    assert_eq!(config.registry.replication_factor, 3);
    assert_eq!(config.discovery.provider, "consul");
    assert_eq!(config.discovery.namespace, "tent");
    assert_eq!(
        config.discovery.tags,
        vec!["microservice".to_string(), "orchestration".to_string()]
    );
    assert_eq!(config.discovery.health_check_path, "/health");
    assert_eq!(config.discovery.health_check_interval_ms, 10000);
    assert_eq!(config.messaging.broker_type, "kafka");
    assert_eq!(config.messaging.uris, vec!["localhost:9092".to_string()]);
    assert_eq!(config.messaging.consumer_group, "tent-consumers");
    assert_eq!(config.messaging.max_retries, 3);
    assert_eq!(config.messaging.retry_backoff_ms, 1000);
    assert_eq!(config.messaging.batch_size, 500);
    assert_eq!(config.messaging.compression, "snappy");
}

#[test]
fn runtime_config_overrides_the_file_and_tags_once() {
    let runtime = config_from(&[
        ("TOT_BACKEND_HOST", "10.0.0.1"),
        ("TOT_BACKEND_PORT", "9000"),
        ("TOT_ENABLE_EXPERIMENTAL", "on"),
    ])
    .unwrap();
    let mut config = RootConfig::default();
    config.apply_runtime_config(&runtime);
    assert_eq!(config.service.host, "10.0.0.1");
    assert_eq!(config.service.port, 9000);
    assert_eq!(
        config.discovery.tags,
        vec![
            "microservice".to_string(),
            "orchestration".to_string(),
            "experimental".to_string()
        ]
    );
    config.apply_runtime_config(&runtime);
    assert_eq!(config.discovery.tags.len(), 3);

    let mut plain = RootConfig::default();
    plain.apply_runtime_config(&Config::default());
    assert_eq!(plain.discovery.tags.len(), 2);
}
