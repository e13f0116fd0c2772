use cef_agent::{
    delivery_result, heartbeat_body, json_object, registration_result, upload_form,
    AgentIdentity, AgentRegistration, DeliveryError, HttpReply, RegistrationResponse,
};

fn identity() -> AgentIdentity {
    AgentIdentity {
        agent_id: String::from("agent-1"),
        api_key: String::from("key-1"),
        host_id: String::from("host-1"),
        account_id: String::from("acct-1"),
    }
}

fn response(status: u16, body: &str) -> HttpReply {
    HttpReply::Response { status, body: String::from(body) }
}

#[test]
fn heartbeat_body_holds_the_key() {
    assert_eq!(heartbeat_body(&identity()), "{\"api_key\":\"key-1\"}");
}

#[test]
fn heartbeat_body_escapes_the_key() {
    let mut id = identity();
    id.api_key = String::from("a\"b");
    assert_eq!(heartbeat_body(&id), "{\"api_key\":\"a\\\"b\"}");
}

#[test]
fn registration_body_lists_the_announced_fields() {
    let reg = AgentRegistration::new(
        String::from("h"),
        String::from("a"),
        String::from("n"),
    );
    assert_eq!(
        reg.to_json(),
        "{\"host_id\":\"h\",\"account_id\":\"a\",\"hostname\":\"n\",\"ip_address\":\"127.0.0.1\",\"status\":\"Active\"}"
    );
    let parsed: serde_json::Value = serde_json::from_str(&reg.to_json()).unwrap();
    assert_eq!(parsed["status"], "Active");
}

#[test]
fn registration_body_writes_null_for_missing_fields() {
    let mut reg = AgentRegistration::new(String::from("h"), String::from("a"), String::from("n"));
    reg.hostname = None;
    reg.ip_address = None;
    assert_eq!(
        reg.to_json(),
        "{\"host_id\":\"h\",\"account_id\":\"a\",\"hostname\":null,\"ip_address\":null,\"status\":\"Active\"}"
    );
}

#[test]
fn json_object_joins_members() {
    assert_eq!(json_object(&vec![]), "{}");
    let fields = vec![
        (String::from("x"), String::from("1")),
        (String::from("y"), String::from("\"z\"")),
    ];
    assert_eq!(json_object(&fields), "{\"x\":1,\"y\":\"z\"}");
}

#[test]
fn duplicate_host_registration_is_rejected() {
    let r = registration_result(
        response(409, "duplicate host"),
        None,
        String::from("h"),
        String::from("a"),
    );
    match r {
        Err(DeliveryError::RegistrationRejected(text)) => assert_eq!(text, "duplicate host"),
        other => panic!("unexpected outcome: {:?}", other),
    }
}

#[test]
fn accepted_registration_yields_identity() {
    let answer = RegistrationResponse {
        status: String::from("ok"),
        agent_id: String::from("agent-9"),
        api_key: String::from("key-9"),
    };
    let id = registration_result(
        response(201, "{}"),
        Some(answer),
        String::from("h"),
        String::from("a"),
    )
    .unwrap();
    assert_eq!(id.agent_id, "agent-9");
    assert_eq!(id.api_key, "key-9");
    assert_eq!(id.host_id, "h");
    assert_eq!(id.account_id, "a");
}

#[test]
fn unreadable_registration_answer_is_reported() {
    let r = registration_result(response(200, "oops"), None, String::from("h"), String::from("a"));
    assert!(matches!(r, Err(DeliveryError::MalformedResponse(t)) if t == "oops"));
}

#[test]
fn unreachable_registration_is_transport_error() {
    let r = registration_result(
        HttpReply::Unreachable { detail: String::from("refused") },
        None,
        String::from("h"),
        String::from("a"),
    );
    assert!(matches!(r, Err(DeliveryError::Transport(t)) if t == "refused"));
}

#[test]
fn delivery_result_reads_status() {
    assert!(delivery_result(response(200, "")).is_ok());
    assert!(delivery_result(response(299, "")).is_ok());
    assert!(matches!(
        delivery_result(response(503, "busy")),
        Err(DeliveryError::Rejected(503, t)) if t == "busy"
    ));
    assert!(matches!(
        delivery_result(response(199, "")),
        Err(DeliveryError::Rejected(199, _))
    ));
    assert!(matches!(
        delivery_result(HttpReply::Unreachable { detail: String::from("timeout") }),
        Err(DeliveryError::Transport(t)) if t == "timeout"
    ));
}

#[test]
fn upload_form_carries_basename_and_identity() {
    let form = upload_form("/var/log/app.log", &identity()).unwrap();
    assert_eq!(form.file_name, "app.log");
    assert_eq!(form.account_id, "acct-1");
    assert_eq!(form.host_id, "host-1");
    assert_eq!(form.api_key, "key-1");
    assert!(upload_form("/var/log/", &identity()).is_none());
}

#[test]
fn descriptions_name_the_kind_and_detail() {
    assert_eq!(
        DeliveryError::IoRead(String::from("no such file")).describe(),
        "file could not be read: no such file"
    );
    assert_eq!(
        DeliveryError::Rejected(500, String::from("boom")).describe(),
        "rejected by the ingestion service: boom"
    );
    assert_eq!(
        DeliveryError::RegistrationRejected(String::new()).describe(),
        "registration rejected: "
    );
}

#[test]
fn heartbeat_body_escapes_control_characters() {
    let mut id = identity();
    id.api_key = String::from("a\\b\nc\u{1}d\u{1f}é");
    assert_eq!(heartbeat_body(&id), "{\"api_key\":\"a\\\\b\\nc\\u0001d\\u001fé\"}");
}
