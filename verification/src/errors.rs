//! Failures of registry and control operations.

use vstd::prelude::*;
use vstd::string::*;

use crate::ids::{id_digits, AgentId};

verus! {

/// Failure of a registry or control operation.
#[derive(Debug, PartialEq, Eq)]
pub enum ControlError {
    /// No agent thread is registered under the id. Also returned for an id
    /// the caller is not allowed to reach, so absence and denial read alike.
    ThreadNotFound(AgentId),
    /// A newly spawned thread produced something other than the expected
    /// configuration acknowledgment as its first event.
    SessionConfiguredNotFirstEvent,
    /// The capability handle outlived the registry it pointed at.
    UnsupportedOperation(String),
}

/// The rendered text of an error.
pub open spec fn control_err_text(e: ControlError) -> Seq<char> {
    match e {
        ControlError::ThreadNotFound(id) => "thread not found: "@ + id_digits(id.value),
        ControlError::SessionConfiguredNotFirstEvent => "expected SessionConfigured to be the first event"@,
        ControlError::UnsupportedOperation(m) => "unsupported operation: "@ + m@,
    }
}

impl ControlError {
    /// One-line description of the failure.
    pub fn message(&self) -> (r: String)
        ensures
            r@ == control_err_text(*self),
    {
        match self {
            ControlError::ThreadNotFound(id) => {
                let mut s = String::from_str("thread not found: ");
                s.append(id.text().as_str());
                s
            },
            ControlError::SessionConfiguredNotFirstEvent => {
                String::from_str("expected SessionConfigured to be the first event")
            },
            ControlError::UnsupportedOperation(m) => {
                let mut s = String::from_str("unsupported operation: ");
                s.append(m.as_str());
                s
            },
        }
    }
}

impl Clone for ControlError {
    fn clone(&self) -> (r: Self)
        ensures
            r == *self,
    {
        match self {
            ControlError::ThreadNotFound(id) => ControlError::ThreadNotFound(*id),
            ControlError::SessionConfiguredNotFirstEvent => ControlError::SessionConfiguredNotFirstEvent,
            ControlError::UnsupportedOperation(m) => ControlError::UnsupportedOperation(m.clone()),
        }
    }
}

/// Failure of a collaboration tool call.
#[derive(Debug, PartialEq, Eq)]
pub enum FunctionCallError {
    /// A violated precondition, rendered for the calling model so that it can
    /// correct itself.
    RespondToModel(String),
    /// An unrecoverable failure of the control plane itself.
    Fatal(String),
}

impl FunctionCallError {
    /// The carried text.
    pub fn message(&self) -> (r: String)
        ensures
            (match *self {
                FunctionCallError::RespondToModel(m) => r@ == m@,
                FunctionCallError::Fatal(m) => r@ == m@,
            }),
    {
        match self {
            FunctionCallError::RespondToModel(m) => m.clone(),
            FunctionCallError::Fatal(m) => m.clone(),
        }
    }
}

impl Clone for FunctionCallError {
    fn clone(&self) -> (r: Self)
        ensures
            r == *self,
    {
        match self {
            FunctionCallError::RespondToModel(m) => FunctionCallError::RespondToModel(m.clone()),
            FunctionCallError::Fatal(m) => FunctionCallError::Fatal(m.clone()),
        }
    }
}

} // verus!
