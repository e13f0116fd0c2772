use cef_agent::{AgentError, DeliveryError, WatchError};

#[test]
fn missing_or_refused_paths_are_invalid_targets() {
    for e in [WatchError::PathNotFound, WatchError::Unsupported] {
        let err = AgentError::from_watch_error(e, String::from("/var/log/x"));
        assert!(matches!(&err, AgentError::WatchPathInvalid(p) if p == "/var/log/x"));
        assert!(!err.is_fatal());
    }
}

#[test]
fn closed_watch_channel_is_fatal() {
    let err = AgentError::from_watch_error(WatchError::Disconnected, String::from("/x"));
    assert!(matches!(err, AgentError::WatchSourceDisconnected));
    assert!(err.is_fatal());
}

#[test]
fn delivery_failures_are_recoverable_but_rejected_registration_is_not() {
    assert!(!AgentError::Delivery(DeliveryError::Transport(String::from("t"))).is_fatal());
    assert!(!AgentError::Delivery(DeliveryError::IoRead(String::from("t"))).is_fatal());
    assert!(!AgentError::Delivery(DeliveryError::Rejected(500, String::new())).is_fatal());
    assert!(AgentError::Delivery(DeliveryError::RegistrationRejected(String::new())).is_fatal());
    assert!(AgentError::ConfigurationMissing.is_fatal());
}
