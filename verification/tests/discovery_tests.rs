use tent_backend::config::RootConfig;
use tent_backend::discovery::{HealthStatus, ServiceDiscovery};

fn registry() -> ServiceDiscovery {
    let root = RootConfig::default();
    ServiceDiscovery::new(root.discovery, root.service)
}

#[test]
fn announce_publishes_the_node() {
    let mut discovery = registry();
    assert!(discovery.get_instances().is_empty());
    discovery.announce("node-0", "1.2.3");
    let instances = discovery.get_instances();
    assert_eq!(instances.len(), 1);
    let i = &instances[0];
    assert_eq!(i.id, "node-0");
    assert_eq!(i.name, "tent");
    assert_eq!(i.address, "0.0.0.0");
    assert_eq!(i.port, 8080);
    assert_eq!(i.tags, vec!["microservice".to_string(), "orchestration".to_string()]);
    assert!(matches!(i.status, HealthStatus::Healthy));
    let meta: Vec<(&str, &str)> = i.meta.iter().map(|(k, v)| (k.as_str(), v.as_str())).collect();
    assert_eq!(
        meta,
        vec![
            ("version", "1.2.3"),
            ("runtime", "rust"),
            ("protocol", "grpc"),
            ("service", "tent-backend")
        ]
    );
}

#[test]
fn announce_replaces_and_withdraw_removes() {
    let mut discovery = registry();
    discovery.announce("a", "1");
    discovery.announce("b", "1");
    discovery.announce("a", "2");
    let instances = discovery.get_instances();
    assert_eq!(instances.len(), 2);
    let a = instances.iter().find(|i| i.id == "a").unwrap();
    assert_eq!(a.meta[0].1, "2");
    discovery.withdraw("a");
    let ids: Vec<String> = discovery.get_instances().into_iter().map(|i| i.id).collect();
    assert_eq!(ids, vec!["b".to_string()]);
    discovery.withdraw("missing");
    assert_eq!(discovery.get_instances().len(), 1);
    discovery.withdraw("b");
    assert!(discovery.get_instances().is_empty());
}
