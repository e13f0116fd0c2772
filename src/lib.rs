//! Change detection, delivery and retry core of a log-forwarding host agent.
//!
//! The library holds the decisions: which filesystem events lead to an
//! upload, what is sent to the ingestion service and how its replies are
//! read, how per-file delivery state evolves, and when failed uploads are
//! retried. The surrounding program performs the network and filesystem work
//! and feeds the outcomes back.

mod agent;
mod config;
mod delivery;
mod error;
mod model;
mod state;
mod time;
mod watch;

pub use state::{
    after_failures, distinct_strings, failed_in, failed_set, failure_record, order_after,
    lemma_failures_keep_last_success, lemma_snapshot_after_failure, lemma_snapshot_after_success,
    lemma_success_after_failures, opt_view, success_record, RecordView, UploadRecord,
    UploadStateStore,
};
pub use time::Timestamp;
pub use watch::{
    existing_paths, file_name, file_name_of, has_log_suffix, is_relevant,
    lemma_other_suffix_ignored, lemma_txt_not_uploaded_under_log, matches_suffix,
    select_watch_targets, triggers_upload, ChangeEvent, ChangeKind, WatchError, WatchTarget,
};
pub use delivery::{
    delivery_result, description, heartbeat_body, is_success, is_success_status, json_object,
    escape_char, escape_chars, hex_digit, json_optional, json_quoted, member_text, members_text, object_text, pairs_view,
    registration_members, registration_result, upload_form, AgentIdentity, AgentRegistration,
    DeliveryError, HttpReply, RegistrationResponse, UploadForm,
};
pub use config::{
    default_url, is_done_text, is_done_word, strings_view, take_watch_path_answer,
    url_or_default, without, AgentConfig, PromptStep,
};
pub use agent::{
    action_view, sweep_covers, upload_input, uploads, Action, AgentLoop, Phase, PhaseView,
};
pub use error::AgentError;
pub use model::{
    advance, lemma_ignored_changes_make_no_difference, requests, run, step, without_ignored,
    ActionView, LoopInput, LoopView, ignored,
};
