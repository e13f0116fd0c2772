use cef_agent::{
    file_name, is_relevant, matches_suffix, select_watch_targets, ChangeEvent, ChangeKind,
};

fn event(path: &str, kind: ChangeKind) -> ChangeEvent {
    ChangeEvent { path: String::from(path), kind }
}

#[test]
fn file_name_is_last_segment() {
    assert_eq!(file_name("/var/log/app.log"), "app.log");
    assert_eq!(file_name("app.log"), "app.log");
    assert_eq!(file_name("/var/log/"), "");
    assert_eq!(file_name(""), "");
}

#[test]
fn suffix_must_follow_a_name() {
    assert!(matches_suffix("/var/log/app.log", ".log"));
    assert!(matches_suffix("a.tar.log", ".log"));
    assert!(!matches_suffix("/var/log/.log", ".log"));
    assert!(!matches_suffix("/var/log/app.txt", ".log"));
    assert!(!matches_suffix("/var/app.log/notes", ".log"));
}

#[test]
fn txt_events_are_never_uploaded_under_log_suffix() {
    for kind in [ChangeKind::Created, ChangeKind::Modified, ChangeKind::Removed] {
        assert!(!is_relevant(&event("/var/log/app.txt", kind), ".log"));
    }
}

#[test]
fn created_and_modified_logs_are_relevant() {
    assert!(is_relevant(&event("/var/log/app.log", ChangeKind::Created), ".log"));
    assert!(is_relevant(&event("/var/log/app.log", ChangeKind::Modified), ".log"));
    assert!(!is_relevant(&event("/var/log/app.log", ChangeKind::Removed), ".log"));
}

#[test]
fn only_existing_paths_are_watched() {
    let paths = vec![String::from("/a"), String::from("/missing"), String::from("/c")];
    let exists = vec![true, false, true];
    let targets = select_watch_targets(&paths, &exists);
    let names: Vec<String> = targets.iter().map(|t| t.path.clone()).collect();
    assert_eq!(names, vec![String::from("/a"), String::from("/c")]);
    assert!(targets.iter().all(|t| !t.recursive));
}
