use cef_agent::{Action, AgentLoop, ChangeEvent, ChangeKind, DeliveryError, Timestamp};

fn at(millis: i64) -> Timestamp {
    Timestamp { millis }
}

fn change(path: &str, kind: ChangeKind) -> ChangeEvent {
    ChangeEvent { path: String::from(path), kind }
}

fn upload_of(action: &Action) -> Option<String> {
    match action {
        Action::Upload(p) => Some(p.clone()),
        _ => None,
    }
}

fn rejected(body: &str) -> Result<(), DeliveryError> {
    Err(DeliveryError::Rejected(500, String::from(body)))
}

/// Drives one failed upload of `path` through the loop.
fn fail_once(agent: &mut AgentLoop, path: &str, body: &str, time: i64) {
    let a = agent.on_change(change(path, ChangeKind::Modified));
    assert_eq!(upload_of(&a).as_deref(), Some(path));
    let a = agent.on_upload_finished(rejected(body), at(time));
    assert!(matches!(a, Action::Nothing));
}

#[test]
fn txt_change_makes_no_delivery_call() {
    let mut agent = AgentLoop::new(String::from(".log"));
    assert!(matches!(agent.on_change(change("/var/log/app.txt", ChangeKind::Created)), Action::Nothing));
    assert!(matches!(agent.on_change(change("/var/log/app.txt", ChangeKind::Modified)), Action::Nothing));
    assert!(matches!(agent.on_change(change("/var/log/app.log", ChangeKind::Removed)), Action::Nothing));
    assert!(agent.store().snapshot_failed().is_empty());
}

#[test]
fn sweep_retries_each_failed_path_once() {
    let mut agent = AgentLoop::new(String::from(".log"));
    fail_once(&mut agent, "/a.log", "first a", 10);
    fail_once(&mut agent, "/b.log", "first b", 20);

    assert!(matches!(agent.on_tick(), Action::SendHeartbeat));
    let first = agent.on_heartbeat_finished(Ok(()));
    let mut uploads = vec![upload_of(&first).expect("sweep starts")];
    let second = agent.on_upload_finished(Ok(()), at(100));
    uploads.push(upload_of(&second).expect("sweep goes on"));
    let last = agent.on_upload_finished(rejected("second b"), at(200));
    assert!(matches!(last, Action::Nothing));
    assert_eq!(uploads, vec![String::from("/a.log"), String::from("/b.log")]);

    let a = agent.store().get(&String::from("/a.log")).unwrap();
    assert!(!a.upload_failed);
    assert_eq!(a.last_successful_upload, at(100));
    let b = agent.store().get(&String::from("/b.log")).unwrap();
    assert!(b.upload_failed);
    assert_eq!(b.last_error, Some(String::from("rejected by the ingestion service: second b")));
    assert_eq!(agent.store().snapshot_failed(), vec![String::from("/b.log")]);
}

#[test]
fn heartbeat_failure_skips_the_sweep() {
    let mut agent = AgentLoop::new(String::from(".log"));
    fail_once(&mut agent, "/a.log", "down", 10);
    assert!(matches!(agent.on_tick(), Action::SendHeartbeat));
    let a = agent.on_heartbeat_finished(Err(DeliveryError::Transport(String::from("timeout"))));
    assert!(matches!(a, Action::Nothing));
    assert!(matches!(agent.on_tick(), Action::SendHeartbeat));
}

#[test]
fn heartbeat_with_nothing_failed_returns_to_idle() {
    let mut agent = AgentLoop::new(String::from(".log"));
    assert!(matches!(agent.on_tick(), Action::SendHeartbeat));
    assert!(matches!(agent.on_heartbeat_finished(Ok(())), Action::Nothing));
    let a = agent.on_change(change("/x.log", ChangeKind::Created));
    assert_eq!(upload_of(&a).as_deref(), Some("/x.log"));
}

#[test]
fn vanished_file_is_recorded_as_failed() {
    let mut agent = AgentLoop::new(String::from(".log"));
    let a = agent.on_change(change("/var/log/app.log", ChangeKind::Created));
    assert_eq!(upload_of(&a).as_deref(), Some("/var/log/app.log"));
    let read = Err(DeliveryError::IoRead(String::from("No such file or directory")));
    agent.on_upload_finished(read, at(777));
    let rec = agent.store().get(&String::from("/var/log/app.log")).unwrap();
    assert!(rec.upload_failed);
    assert!(!rec.last_error.clone().unwrap().is_empty());
    assert_eq!(rec.last_successful_upload, at(777));
}

#[test]
fn events_during_an_upload_are_not_started() {
    let mut agent = AgentLoop::new(String::from(".log"));
    agent.on_change(change("/a.log", ChangeKind::Created));
    assert!(matches!(agent.on_change(change("/b.log", ChangeKind::Created)), Action::Nothing));
    assert!(matches!(agent.on_tick(), Action::Nothing));
}

#[test]
fn disconnect_stops_the_loop() {
    let mut agent = AgentLoop::new(String::from(".log"));
    assert!(matches!(agent.on_disconnect(), Action::Stop));
    assert!(agent.is_stopped());
    assert!(matches!(agent.on_tick(), Action::Nothing));
}
