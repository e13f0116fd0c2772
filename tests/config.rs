use cef_agent::{
    is_done_word, take_watch_path_answer, url_or_default, AgentConfig, AgentIdentity,
    PromptStep,
};

fn config() -> AgentConfig {
    AgentConfig {
        agent_id: String::from("agent"),
        api_key: String::from("key"),
        host_id: String::from("host"),
        account_id: String::from("acct"),
        watch_paths: vec![String::from("/a"), String::from("/b"), String::from("/a")],
        siem_url: String::from("http://localhost:4200"),
    }
}

#[test]
fn add_path_only_when_it_exists() {
    let mut c = config();
    assert!(c.add_path(String::from("/c"), true));
    assert!(!c.add_path(String::from("/d"), false));
    assert_eq!(c.watch_paths, vec!["/a", "/b", "/a", "/c"]);
}

#[test]
fn remove_path_drops_every_copy() {
    let mut c = config();
    c.remove_path(&String::from("/a"));
    assert_eq!(c.watch_paths, vec!["/b"]);
    c.remove_path(&String::from("/zzz"));
    assert_eq!(c.watch_paths, vec!["/b"]);
}

#[test]
fn set_url_replaces_url() {
    let mut c = config();
    c.set_url(String::from("http://siem:9000"));
    assert_eq!(c.siem_url, "http://siem:9000");
    assert_eq!(c.api_key, "key");
}

#[test]
fn config_from_identity_keeps_fields() {
    let id = AgentIdentity {
        agent_id: String::from("g"),
        api_key: String::from("k"),
        host_id: String::from("h"),
        account_id: String::from("a"),
    };
    let c = AgentConfig::from_identity(id, vec![String::from("/x")], String::from("u"));
    assert_eq!(c.agent_id, "g");
    assert_eq!(c.api_key, "k");
    assert_eq!(c.host_id, "h");
    assert_eq!(c.account_id, "a");
    assert_eq!(c.watch_paths, vec!["/x"]);
    assert_eq!(c.siem_url, "u");
    let back = c.identity();
    assert_eq!(back.api_key, "k");
}

#[test]
fn done_in_any_case_ends_the_prompt() {
    assert!(is_done_word("done"));
    assert!(is_done_word("DONE"));
    assert!(is_done_word("DoNe"));
    assert!(!is_done_word("don"));
    assert!(!is_done_word("done!"));
    assert!(!is_done_word("/done"));
}

#[test]
fn prompt_answers_fill_the_list() {
    let mut paths = Vec::new();
    assert_eq!(take_watch_path_answer(&mut paths, String::from("/var/log"), true), PromptStep::Added);
    assert_eq!(take_watch_path_answer(&mut paths, String::from("/nope"), false), PromptStep::Missing);
    assert_eq!(take_watch_path_answer(&mut paths, String::from("Done"), true), PromptStep::Finished);
    assert_eq!(paths, vec!["/var/log"]);
}

#[test]
fn empty_url_answer_means_default() {
    assert_eq!(url_or_default(String::new()), "http://localhost:4200");
    assert_eq!(url_or_default(String::from("http://x")), "http://x");
}
