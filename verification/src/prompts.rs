//! Prompt broker contracts for user decisions that the UI or CLI answers.

use vstd::prelude::*;

verus! {

/// Request to confirm replacement of an existing destination.
#[derive(Clone, Debug, PartialEq, Eq)]
pub struct OverwritePrompt {
    pub source: String,
    pub destination: String,
    pub source_size: Option<u64>,
    pub destination_size: Option<u64>,
}

/// Request for a credential secret.
#[derive(Clone, Debug, PartialEq, Eq)]
pub struct CredentialPrompt {
    pub profile_name: String,
    pub username: Option<String>,
    pub message: String,
}

/// Request to verify a remote host key.
#[derive(Clone, Debug, PartialEq, Eq)]
pub struct HostKeyPrompt {
    pub host: String,
    pub fingerprint: String,
    pub algorithm: String,
    pub expected_fingerprint: Option<String>,
    pub expected_algorithm: Option<String>,
}

/// Prompt request variants shared by protocol adapters and transfer executors.
#[derive(Clone, Debug, PartialEq, Eq)]
pub enum PromptRequest {
    Overwrite(OverwritePrompt),
    Credential(CredentialPrompt),
    HostKey(HostKeyPrompt),
    Confirm { title: String, message: String },
}

/// User or broker response to a prompt.
#[derive(Clone, Copy, Debug, PartialEq, Eq, Structural)]
pub enum PromptResponse {
    Accept,
    Reject,
    Cancel,
    AcceptAll,
    RejectAll,
    RememberAccepted,
}

/// Prompt broker failure.
#[derive(Clone, Copy, Debug, PartialEq, Eq, Structural)]
pub enum PromptError {
    Unavailable,
    Cancelled,
    UnsupportedPrompt,
}

impl PromptError {
    pub open spec fn text(self) -> Seq<char> {
        match self {
            PromptError::Unavailable => "prompt broker unavailable"@,
            PromptError::Cancelled => "prompt cancelled"@,
            PromptError::UnsupportedPrompt => "prompt type unsupported"@,
        }
    }

    /// The error message, as the error's `Display` writes it.
    pub fn message(&self) -> (r: &'static str)
        ensures
            r@ == self.text(),
    {
        match self {
            PromptError::Unavailable => "prompt broker unavailable",
            PromptError::Cancelled => "prompt cancelled",
            PromptError::UnsupportedPrompt => "prompt type unsupported",
        }
    }
}

/// A broker that answers prompts on behalf of the user. `answers` says which
/// outcomes a broker may give to a request; each broker defines it.
pub trait PromptBroker {
    open spec fn answers(&self, request: PromptRequest, response: Result<PromptResponse, PromptError>) -> bool {
        true
    }

    fn prompt(&self, request: PromptRequest) -> (r: Result<PromptResponse, PromptError>)
        ensures
            self.answers(request, r),
    ;
}

/// Non-interactive broker that gives the same answer to every prompt.
#[derive(Clone, Copy, Debug)]
pub struct FixedPromptBroker {
    response: Result<PromptResponse, PromptError>,
}

impl FixedPromptBroker {
    pub closed spec fn fixed_response(&self) -> Result<PromptResponse, PromptError> {
        self.response
    }

    /// A broker that accepts every prompt.
    pub fn accept() -> (r: Self)
        ensures
            r.fixed_response() == Ok::<PromptResponse, PromptError>(PromptResponse::Accept),
    {
        FixedPromptBroker { response: Ok(PromptResponse::Accept) }
    }

    /// A broker that rejects every prompt.
    pub fn reject() -> (r: Self)
        ensures
            r.fixed_response() == Ok::<PromptResponse, PromptError>(PromptResponse::Reject),
    {
        FixedPromptBroker { response: Ok(PromptResponse::Reject) }
    }

    /// A broker that cancels every prompt.
    pub fn cancel() -> (r: Self)
        ensures
            r.fixed_response() == Ok::<PromptResponse, PromptError>(PromptResponse::Cancel),
    {
        FixedPromptBroker { response: Ok(PromptResponse::Cancel) }
    }
}

impl PromptBroker for FixedPromptBroker {
    open spec fn answers(&self, request: PromptRequest, response: Result<PromptResponse, PromptError>) -> bool {
        response == self.fixed_response()
    }

    fn prompt(&self, request: PromptRequest) -> (r: Result<PromptResponse, PromptError>) {
        self.response
    }
}

} // verus!
