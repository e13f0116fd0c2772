use vstd::prelude::*;
use crate::state::opt_view;
use crate::watch::{file_name, file_name_of};

verus! {

/// The credentials and identifiers established at registration, passed to
/// every delivery call.
#[derive(Clone, Debug)]
pub struct AgentIdentity {
    pub agent_id: String,
    pub api_key: String,
    pub host_id: String,
    pub account_id: String,
}

/// What the agent announces of itself when it registers.
#[derive(Clone, Debug)]
pub struct AgentRegistration {
    pub id: String,
    pub api_key: String,
    pub host_id: String,
    pub account_id: String,
    pub ip_address: Option<String>,
    pub hostname: Option<String>,
    pub status: String,
}

/// The service's answer to a successful registration.
#[derive(Clone, Debug)]
pub struct RegistrationResponse {
    pub status: String,
    pub agent_id: String,
    pub api_key: String,
}

/// Why a call to the ingestion service did not succeed.
#[derive(Clone, Debug)]
pub enum DeliveryError {
    /// Registration answered with a non-success status; the reply's text.
    RegistrationRejected(String),
    /// A non-success status, with the reply's text.
    Rejected(u16, String),
    /// No reply: the connection failed or the call timed out.
    Transport(String),
    /// The file to upload could not be read.
    IoRead(String),
    /// A success status whose reply could not be understood.
    MalformedResponse(String),
}

/// How a call to the ingestion service ended, as the transport saw it.
#[derive(Clone, Debug)]
pub enum HttpReply {
    Response { status: u16, body: String },
    Unreachable { detail: String },
}

/// The parts of an upload besides the file's bytes.
#[derive(Clone, Debug)]
pub struct UploadForm {
    pub file_name: String,
    pub account_id: String,
    pub host_id: String,
    pub api_key: String,
}

/// A hexadecimal digit, lower case, for `n` in 0..16.
pub open spec fn hex_digit(n: int) -> char {
    seq!['0', '1', '2', '3', '4', '5', '6', '7', '8', '9', 'a', 'b', 'c', 'd', 'e', 'f'][n]
}

/// How one character stands inside a JSON string: quote and backslash are
/// escaped, the control characters with a short form get it, the other
/// control characters become `\u00XX`, and everything else stands as it is.
pub open spec fn escape_char(c: char) -> Seq<char> {
    if c == '"' {
        seq!['\\', '"']
    } else if c == '\\' {
        seq!['\\', '\\']
    } else if c == '\x08' {
        seq!['\\', 'b']
    } else if c == '\t' {
        seq!['\\', 't']
    } else if c == '\n' {
        seq!['\\', 'n']
    } else if c == '\x0c' {
        seq!['\\', 'f']
    } else if c == '\r' {
        seq!['\\', 'r']
    } else if (c as int) < 0x20 {
        seq!['\\', 'u', '0', '0', hex_digit((c as int) / 16), hex_digit((c as int) % 16)]
    } else {
        seq![c]
    }
}

/// The characters of `s`, each escaped.
pub open spec fn escape_chars(s: Seq<char>) -> Seq<char>
    decreases s.len(),
{
    if s.len() == 0 {
        Seq::empty()
    } else {
        escape_chars(s.drop_last()) + escape_char(s.last())
    }
}

/// The JSON string literal that stands for `s`.
pub open spec fn json_quoted(s: Seq<char>) -> Seq<char> {
    seq!['"'] + escape_chars(s) + seq!['"']
}

/// Relies on serde_json::to_string applied to a string slice: the JSON string
/// literal for `s`, between quotes, each character escaped as serde_json's
/// escape table and compact formatter do it (see `escape_char`). Serialising
/// a `str` into serde_json's byte buffer has no failing path, so the error
/// arm is not taken.
#[verifier::external_body]
fn json_string(s: &str) -> (r: String)
    ensures
        r@ == json_quoted(s@),
{
    match serde_json::to_string(s) {
        Ok(t) => t,
        Err(_) => String::new(),
    }
}

pub open spec fn is_success(status: u16) -> bool {
    200 <= status <= 299
}

/// One member of a JSON object: the quoted key, a colon, the encoded value.
pub open spec fn member_text(m: (Seq<char>, Seq<char>)) -> Seq<char> {
    seq!['"'] + m.0 + seq!['"', ':'] + m.1
}

/// The members, separated by commas.
pub open spec fn members_text(ms: Seq<(Seq<char>, Seq<char>)>) -> Seq<char>
    decreases ms.len(),
{
    if ms.len() == 0 {
        Seq::empty()
    } else if ms.len() == 1 {
        member_text(ms[0])
    } else {
        members_text(ms.drop_last()) + seq![','] + member_text(ms.last())
    }
}

/// A JSON object with the given members, in order.
pub open spec fn object_text(ms: Seq<(Seq<char>, Seq<char>)>) -> Seq<char> {
    seq!['{'] + members_text(ms) + seq!['}']
}

pub open spec fn pairs_view(fields: Seq<(String, String)>) -> Seq<(Seq<char>, Seq<char>)> {
    fields.map_values(|f: (String, String)| (f.0@, f.1@))
}

/// The encoding of an optional string: its literal, or `null`.
pub open spec fn json_optional(o: Option<Seq<char>>) -> Seq<char> {
    match o {
        Some(s) => json_quoted(s),
        None => seq!['n', 'u', 'l', 'l'],
    }
}

pub open spec fn registration_members(r: AgentRegistration) -> Seq<(Seq<char>, Seq<char>)> {
    seq![
        ("host_id"@, json_quoted(r.host_id@)),
        ("account_id"@, json_quoted(r.account_id@)),
        ("hostname"@, json_optional(opt_view(r.hostname))),
        ("ip_address"@, json_optional(opt_view(r.ip_address))),
        ("status"@, json_quoted(r.status@)),
    ]
}

/// Appends `s` to `out`.
fn push_chars(out: &mut String, s: &str)
    ensures
        final(out)@ == old(out)@ + s@,
{
    out.append(s);
}

/// A JSON object whose members are `fields`, each a key and its value
/// already encoded as JSON. Keys are written between quotes as they are.
pub fn json_object(fields: &Vec<(String, String)>) -> (r: String)
    ensures
        r@ == object_text(pairs_view(fields@)),
{
    proof {
        reveal_strlit("{");
        assert("{"@ =~= seq!['{']);
    }
    let mut out = String::from_str("{");
    let mut i: usize = 0;
    while i < fields.len()
        invariant
            i <= fields@.len(),
            out@ == seq!['{'] + members_text(pairs_view(fields@.subrange(0, i as int))),
        decreases fields@.len() - i,
    {
        let ghost before = out@;
        if i > 0 {
            push_chars(&mut out, ",");
        }
        push_chars(&mut out, "\"");
        push_chars(&mut out, fields[i].0.as_str());
        push_chars(&mut out, "\":");
        push_chars(&mut out, fields[i].1.as_str());
        proof {
            reveal_strlit(",");
            reveal_strlit("\"");
            reveal_strlit("\":");
            assert(","@ =~= seq![',']);
            assert("\""@ =~= seq!['"']);
            assert("\":"@ =~= seq!['"', ':']);
            let prev = pairs_view(fields@.subrange(0, i as int));
            let next = pairs_view(fields@.subrange(0, i + 1));
            assert(next.drop_last() =~= prev);
            assert(next.last() == (fields@[i as int].0@, fields@[i as int].1@));
            if i == 0 {
                assert(next.len() == 1);
                assert(out@ =~= seq!['{'] + member_text(next[0]));
            } else {
                assert(out@ =~= seq!['{'] + (members_text(prev) + seq![','] + member_text(
                    next.last(),
                )));
            }
        }
        i = i + 1;
    }
    assert(fields@.subrange(0, fields@.len() as int) =~= fields@);
    push_chars(&mut out, "}");
    proof {
        reveal_strlit("}");
        assert("}"@ =~= seq!['}']);
    }
    assert(out@ =~= object_text(pairs_view(fields@)));
    out
}

fn json_optional_string(o: &Option<String>) -> (r: String)
    ensures
        r@ == json_optional(opt_view(*o)),
{
    proof {
        reveal_strlit("null");
    }
    match o {
        Some(s) => json_string(s.as_str()),
        None => String::from_str("null"),
    }
}

impl AgentRegistration {
    /// The announcement of a new agent: no id or key yet, the loopback
    /// address, and the status `Active`.
    pub fn new(host_id: String, account_id: String, hostname: String) -> (r: AgentRegistration)
        ensures
            r.id@.len() == 0,
            r.api_key@.len() == 0,
            r.host_id@ == host_id@,
            r.account_id@ == account_id@,
            opt_view(r.ip_address) == Some("127.0.0.1"@),
            opt_view(r.hostname) == Some(hostname@),
            r.status@ == "Active"@,
    {
        AgentRegistration {
            id: String::new(),
            api_key: String::new(),
            host_id,
            account_id,
            ip_address: Some(String::from_str("127.0.0.1")),
            hostname: Some(hostname),
            status: String::from_str("Active"),
        }
    }

    /// The JSON body of the registration call.
    pub fn to_json(&self) -> (r: String)
        ensures
            r@ == object_text(registration_members(*self)),
    {
        let mut fields: Vec<(String, String)> = Vec::new();
        fields.push((String::from_str("host_id"), json_string(self.host_id.as_str())));
        fields.push((String::from_str("account_id"), json_string(self.account_id.as_str())));
        fields.push((String::from_str("hostname"), json_optional_string(&self.hostname)));
        fields.push((String::from_str("ip_address"), json_optional_string(&self.ip_address)));
        fields.push((String::from_str("status"), json_string(self.status.as_str())));
        let r = json_object(&fields);
        assert(pairs_view(fields@) =~= registration_members(*self));
        r
    }
}

/// The JSON body of the heartbeat call: the agent's key alone.
pub fn heartbeat_body(identity: &AgentIdentity) -> (r: String)
    ensures
        r@ == object_text(seq![("api_key"@, json_quoted(identity.api_key@))]),
{
    let mut fields: Vec<(String, String)> = Vec::new();
    fields.push((String::from_str("api_key"), json_string(identity.api_key.as_str())));
    let r = json_object(&fields);
    assert(pairs_view(fields@) =~= seq![("api_key"@, json_quoted(identity.api_key@))]);
    r
}

/// Whether an HTTP status reports success (the 2xx range).
pub fn is_success_status(status: u16) -> (r: bool)
    ensures
        r == is_success(status),
{
    200 <= status && status <= 299
}

/// The outcome of an upload or heartbeat call, read from the transport's
/// view of it.
pub fn delivery_result(reply: HttpReply) -> (r: Result<(), DeliveryError>)
    ensures
        match reply {
            HttpReply::Response { status, body } => if is_success(status) {
                r is Ok
            } else {
                r matches Err(DeliveryError::Rejected(s, b)) && s == status && b@ == body@
            },
            HttpReply::Unreachable { detail } => r matches Err(DeliveryError::Transport(d))
                && d@ == detail@,
        },
{
    match reply {
        HttpReply::Response { status, body } => {
            if is_success_status(status) {
                Ok(())
            } else {
                Err(DeliveryError::Rejected(status, body))
            }
        },
        HttpReply::Unreachable { detail } => Err(DeliveryError::Transport(detail)),
    }
}

/// The outcome of the registration call. `parsed` is the reply's body read
/// as a registration answer, when it could be read as one. A rejection
/// carries the reply's text and yields no identity.
pub fn registration_result(
    reply: HttpReply,
    parsed: Option<RegistrationResponse>,
    host_id: String,
    account_id: String,
) -> (r: Result<AgentIdentity, DeliveryError>)
    ensures
        match reply {
            HttpReply::Response { status, body } => if !is_success(status) {
                r matches Err(DeliveryError::RegistrationRejected(t)) && t@ == body@
            } else {
                match parsed {
                    Some(p) => r matches Ok(id) && id.agent_id@ == p.agent_id@ && id.api_key@
                        == p.api_key@ && id.host_id@ == host_id@ && id.account_id@
                        == account_id@,
                    None => r matches Err(DeliveryError::MalformedResponse(t)) && t@ == body@,
                }
            },
            HttpReply::Unreachable { detail } => r matches Err(DeliveryError::Transport(d))
                && d@ == detail@,
        },
{
    match reply {
        HttpReply::Response { status, body } => {
            if !is_success_status(status) {
                Err(DeliveryError::RegistrationRejected(body))
            } else {
                match parsed {
                    Some(p) => Ok(
                        AgentIdentity {
                            agent_id: p.agent_id,
                            api_key: p.api_key,
                            host_id,
                            account_id,
                        },
                    ),
                    None => Err(DeliveryError::MalformedResponse(body)),
                }
            }
        },
        HttpReply::Unreachable { detail } => Err(DeliveryError::Transport(detail)),
    }
}

/// The form fields of an upload of `path`: the file's name and the agent's
/// identifiers. None when `path` ends in `/` and so names no file.
pub fn upload_form(path: &str, identity: &AgentIdentity) -> (r: Option<UploadForm>)
    ensures
        match r {
            Some(f) => file_name_of(path@).len() > 0 && f.file_name@ == file_name_of(path@)
                && f.account_id@ == identity.account_id@ && f.host_id@ == identity.host_id@
                && f.api_key@ == identity.api_key@,
            None => file_name_of(path@).len() == 0,
        },
{
    let name = file_name(path);
    if name.as_str().unicode_len() == 0 {
        return None;
    }
    Some(
        UploadForm {
            file_name: name,
            account_id: identity.account_id.clone(),
            host_id: identity.host_id.clone(),
            api_key: identity.api_key.clone(),
        },
    )
}

/// The text that describes `e`: a fixed phrase for its kind, then its detail.
pub open spec fn description(e: DeliveryError) -> Seq<char> {
    match e {
        DeliveryError::RegistrationRejected(t) => "registration rejected: "@ + t@,
        DeliveryError::Rejected(_, t) => "rejected by the ingestion service: "@ + t@,
        DeliveryError::Transport(t) => "ingestion service unreachable: "@ + t@,
        DeliveryError::IoRead(t) => "file could not be read: "@ + t@,
        DeliveryError::MalformedResponse(t) => "unreadable reply: "@ + t@,
    }
}

impl DeliveryError {
    /// A one-line description, never empty.
    pub fn describe(&self) -> (r: String)
        ensures
            r@ == description(*self),
            r@.len() > 0,
    {
        let (mut out, detail) = match self {
            DeliveryError::RegistrationRejected(t) => (
                String::from_str("registration rejected: "),
                t,
            ),
            DeliveryError::Rejected(_, t) => (
                String::from_str("rejected by the ingestion service: "),
                t,
            ),
            DeliveryError::Transport(t) => (String::from_str("ingestion service unreachable: "), t),
            DeliveryError::IoRead(t) => (String::from_str("file could not be read: "), t),
            DeliveryError::MalformedResponse(t) => (String::from_str("unreadable reply: "), t),
        };
        proof {
            reveal_strlit("registration rejected: ");
            reveal_strlit("rejected by the ingestion service: ");
            reveal_strlit("ingestion service unreachable: ");
            reveal_strlit("file could not be read: ");
            reveal_strlit("unreadable reply: ");
        }
        push_chars(&mut out, detail.as_str());
        out
    }
}

} // verus!
