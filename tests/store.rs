use cef_agent::{Timestamp, UploadStateStore};

fn at(millis: i64) -> Timestamp {
    Timestamp { millis }
}

#[test]
fn success_after_repeated_failures_clears_flag() {
    for n in 0..5 {
        let mut store = UploadStateStore::new();
        let path = String::from("/var/log/app.log");
        for k in 0..n {
            store.record_failure(&path, format!("failure {}", k), at(100 + k as i64));
        }
        store.record_success(&path, at(5_000));
        let rec = store.get(&path).expect("record present");
        assert!(!rec.upload_failed);
        assert_eq!(rec.last_successful_upload, at(5_000));
        assert_eq!(rec.last_error, None);
        assert!(store.snapshot_failed().is_empty());
    }
}

#[test]
fn failure_keeps_last_success_time() {
    let mut store = UploadStateStore::new();
    let path = String::from("/a.log");
    store.record_success(&path, at(1_000));
    store.record_failure(&path, String::from("first"), at(2_000));
    store.record_failure(&path, String::from("second"), at(3_000));
    let rec = store.get(&path).unwrap();
    assert!(rec.upload_failed);
    assert_eq!(rec.last_successful_upload, at(1_000));
    assert_eq!(rec.last_error, Some(String::from("second")));
}

#[test]
fn first_failure_seeds_time_with_now() {
    let mut store = UploadStateStore::new();
    let path = String::from("/new.log");
    store.record_failure(&path, String::from("gone"), at(42));
    let rec = store.get(&path).unwrap();
    assert!(rec.upload_failed);
    assert_eq!(rec.last_successful_upload, at(42));
    assert_eq!(rec.last_error, Some(String::from("gone")));
}

#[test]
fn unknown_path_has_no_record() {
    let store = UploadStateStore::new();
    assert!(store.get(&String::from("/nothing.log")).is_none());
    assert!(store.snapshot_failed().is_empty());
}

#[test]
fn snapshot_lists_failed_paths_once_in_creation_order() {
    let mut store = UploadStateStore::new();
    let a = String::from("/a.log");
    let b = String::from("/b.log");
    let c = String::from("/c.log");
    store.record_failure(&a, String::from("x"), at(1));
    store.record_success(&b, at(2));
    store.record_failure(&c, String::from("y"), at(3));
    store.record_failure(&a, String::from("z"), at(4));
    assert_eq!(store.snapshot_failed(), vec![a.clone(), c.clone()]);
}

#[test]
fn snapshot_is_a_copy_taken_at_one_moment() {
    let mut store = UploadStateStore::new();
    let a = String::from("/a.log");
    let b = String::from("/b.log");
    store.record_failure(&a, String::from("x"), at(1));
    store.record_failure(&b, String::from("y"), at(1));
    let before = store.snapshot_failed();
    store.record_success(&a, at(9));
    let after = store.snapshot_failed();
    assert_eq!(before, vec![a.clone(), b.clone()]);
    assert_eq!(after, vec![b.clone()]);
}

#[test]
fn now_reads_a_time_after_the_epoch() {
    assert!(Timestamp::now().millis > 0);
}
