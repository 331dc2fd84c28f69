//! The push request's headers and the classification of its outcome.
use vstd::prelude::*;
use vstd::string::StringExecFns;

verus! {

/// Why a push was not accepted.
#[derive(Clone, Debug, PartialEq, Eq)]
pub enum PushError {
    /// The backend answered with a status outside 2xx.
    Rejected { status: u16, body: String },
    /// No answer came: connection, timeout or name resolution failed.
    Transport(String),
}

/// Why one tick's export failed.
#[derive(Clone, Debug, PartialEq, Eq)]
pub enum ExportError {
    /// Serializing the request failed.
    Encode,
    /// Compressing the serialized request failed.
    Compression,
    Push(PushError),
}

/// The content encoding announced for the body.
pub open spec fn snappy_word() -> Seq<char> {
    seq!['s', 'n', 'a', 'p', 'p', 'y']
}

pub open spec fn bearer_prefix() -> Seq<char> {
    seq!['B', 'e', 'a', 'r', 'e', 'r', ' ']
}

pub open spec fn undecodable_prefix() -> Seq<char> {
    "couldn't decode response body; "@
}

/// Whether a status is one of success (2xx).
pub open spec fn is_success_status(status: u16) -> bool {
    200 <= status <= 299
}

pub fn is_success(status: u16) -> (r: bool)
    ensures
        r == is_success_status(status),
{
    200 <= status && status <= 299
}

/// The value of the `Authorization` header: `Bearer <token>`.
pub fn bearer_header(token: &String) -> (r: String)
    ensures
        r@ == bearer_prefix() + token@,
{
    proof {
        reveal_strlit("Bearer ");
        assert("Bearer "@ =~= bearer_prefix());
    }
    String::from_str("Bearer ").concat(token.as_str())
}

/// The outcome of a push answered with `status`; `body` is the response text,
/// or why it could not be read.
pub fn push_outcome(status: u16, body: Result<String, String>) -> (r: Result<(), PushError>)
    ensures
        r is Ok <==> is_success_status(status),
        !is_success_status(status) ==> (r matches Err(PushError::Rejected { status: s, body: b })
            && s == status && b@ == match body {
            Ok(t) => t@,
            Err(e) => undecodable_prefix() + e@,
        }),
{
    if is_success(status) {
        Ok(())
    } else {
        let text = match body {
            Ok(t) => t,
            Err(e) => String::from_str("couldn't decode response body; ").concat(e.as_str()),
        };
        Err(PushError::Rejected { status, body: text })
    }
}

impl PushError {
    /// Whether this failure calls for a fresh network client: only a transport
    /// failure does.
    pub open spec fn spec_needs_new_client(&self) -> bool {
        self is Transport
    }
}

impl ExportError {
    pub open spec fn spec_needs_new_client(&self) -> bool {
        match self {
            ExportError::Push(p) => p.spec_needs_new_client(),
            _ => false,
        }
    }

    pub fn needs_new_client(&self) -> (r: bool)
        ensures
            r == self.spec_needs_new_client(),
    {
        match self {
            ExportError::Push(PushError::Transport(_)) => true,
            _ => false,
        }
    }
}

} // verus!
