use ausha::net::Endpoint;
use ausha::registry::{Attached, Registry};

fn at(ip: &str, port: u16) -> Endpoint {
    Endpoint { ip: ip.to_string(), port, is_ipv6: false }
}

fn texts(targets: &[Endpoint]) -> Vec<String> {
    targets.iter().map(|e| format!("{}:{}", e.ip, e.port)).collect()
}

#[test]
fn a_punch_makes_a_session_a_target() {
    let mut registry = Registry::new();
    registry.open_with(7, "phone".to_string());
    assert!(registry.targets().is_empty(), "not reachable before its punch");
    assert!(matches!(registry.attach_media(7, at("10.0.0.2", 5000)), Attached::First));
    assert_eq!(texts(&registry.targets()), ["10.0.0.2:5000"]);
}

#[test]
fn only_the_first_punch_wakes_the_handshake() {
    let mut registry = Registry::new();
    registry.open_with(7, "phone".to_string());
    assert!(matches!(registry.attach_media(7, at("10.0.0.2", 5000)), Attached::First));
    assert!(matches!(registry.attach_media(7, at("10.0.0.2", 5001)), Attached::Updated));
    assert_eq!(texts(&registry.targets()), ["10.0.0.2:5001"], "a NAT rebinding moves it");
}

#[test]
fn an_unknown_session_is_refused() {
    let mut registry = Registry::new();
    assert!(matches!(registry.attach_media(9, at("10.0.0.9", 1)), Attached::Unknown));
    assert!(registry.targets().is_empty());
}

#[test]
fn static_targets_come_first_and_closing_ends_a_session() {
    let mut registry = Registry::new();
    registry.open_with(1, "a".to_string());
    registry.open_with(2, "b".to_string());
    registry.attach_media(2, at("10.0.0.3", 3));
    registry.attach_media(1, at("10.0.0.4", 4));
    registry.add_static_target(at("10.0.0.1", 1));
    assert_eq!(texts(&registry.targets()), ["10.0.0.1:1", "10.0.0.4:4", "10.0.0.3:3"]);
    assert_eq!(registry.close(1), Some("a".to_string()));
    assert_eq!(registry.close(1), None);
    assert_eq!(texts(&registry.targets()), ["10.0.0.1:1", "10.0.0.3:3"]);
}

#[test]
fn reopening_an_id_starts_the_session_afresh() {
    let mut registry = Registry::new();
    registry.open_with(5, "old".to_string());
    registry.attach_media(5, at("10.0.0.5", 5));
    registry.open_with(5, "new".to_string());
    assert!(registry.targets().is_empty());
    assert_eq!(registry.close(5), Some("new".to_string()));
}

#[test]
fn a_fresh_session_gets_a_random_id() {
    let mut registry = Registry::new();
    let id = registry.open("phone".to_string()).unwrap();
    assert!(matches!(registry.attach_media(id, at("10.0.0.2", 2)), Attached::First));
}
