use vstd::prelude::*;
use crate::delivery::DeliveryError;
use crate::watch::WatchError;

verus! {

/// Everything that can stop or trouble the agent.
#[derive(Clone, Debug)]
pub enum AgentError {
    /// No stored configuration where one is needed.
    ConfigurationMissing,
    /// A configured watch path could not be watched; that path is skipped.
    WatchPathInvalid(String),
    /// The watch source went away; the agent cannot go on.
    WatchSourceDisconnected,
    /// A call to the ingestion service failed.
    Delivery(DeliveryError),
    /// Reading or writing local data failed.
    Io(String),
}

impl AgentError {
    /// The error for a watch failure on `path`: a path that is missing or
    /// refused is an invalid target, which is skipped; a closed event channel
    /// ends the agent.
    pub fn from_watch_error(e: WatchError, path: String) -> (r: AgentError)
        ensures
            e == WatchError::Disconnected ==> r is WatchSourceDisconnected,
            e != WatchError::Disconnected ==> (r matches AgentError::WatchPathInvalid(p) && p@
                == path@),
    {
        match e {
            WatchError::PathNotFound | WatchError::Unsupported => AgentError::WatchPathInvalid(path),
            WatchError::Disconnected => AgentError::WatchSourceDisconnected,
        }
    }

    /// Whether the agent cannot go on after this error. Invalid watch targets
    /// and failed deliveries are recovered from; a lost watch source, missing
    /// configuration, a rejected registration and local I/O failures are not.
    pub fn is_fatal(&self) -> (r: bool)
        ensures
            r == match self {
                AgentError::WatchPathInvalid(_) => false,
                AgentError::Delivery(d) => d is RegistrationRejected,
                _ => true,
            },
    {
        match self {
            AgentError::WatchPathInvalid(_) => false,
            AgentError::Delivery(DeliveryError::RegistrationRejected(_)) => true,
            AgentError::Delivery(_) => false,
            _ => true,
        }
    }
}

} // verus!
