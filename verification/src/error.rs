//! The error taxonomy of the integration layer.

use vstd::prelude::*;
use vstd::string::StringExecFns;

verus! {

/// Failure categories surfaced to front ends.
#[derive(Debug, Clone)]
pub enum FetchError {
    /// Opaque failure inside the transfer engine.
    Engine(String),
    /// Any storage-layer failure.
    Database(String),
    /// A value rejected before reaching the engine.
    InvalidInput(String),
    /// An identifier no transfer answers to.
    NotFound(String),
    /// A network probe that did not succeed.
    Network(String),
    /// A send or receive on a closed channel.
    Channel(String),
}

/// The label each category is displayed under.
pub open spec fn error_label(e: FetchError) -> Seq<char> {
    match e {
        FetchError::Engine(_) => "download engine error: "@,
        FetchError::Database(_) => "database error: "@,
        FetchError::InvalidInput(_) => "invalid input: "@,
        FetchError::NotFound(_) => "not found: "@,
        FetchError::Network(_) => "network error: "@,
        FetchError::Channel(_) => "channel error: "@,
    }
}

pub open spec fn error_detail(e: FetchError) -> Seq<char> {
    match e {
        FetchError::Engine(m) => m@,
        FetchError::Database(m) => m@,
        FetchError::InvalidInput(m) => m@,
        FetchError::NotFound(m) => m@,
        FetchError::Network(m) => m@,
        FetchError::Channel(m) => m@,
    }
}

impl FetchError {
    /// The user-facing message: category label, then detail.
    pub fn to_text(&self) -> (r: String)
        ensures
            r@ == error_label(*self) + error_detail(*self),
    {
        let label: &'static str = match self {
            FetchError::Engine(_) => "download engine error: ",
            FetchError::Database(_) => "database error: ",
            FetchError::InvalidInput(_) => "invalid input: ",
            FetchError::NotFound(_) => "not found: ",
            FetchError::Channel(_) => "channel error: ",
            FetchError::Network(_) => "network error: ",
        };
        let detail: &String = match self {
            FetchError::Engine(m) => m,
            FetchError::Database(m) => m,
            FetchError::InvalidInput(m) => m,
            FetchError::NotFound(m) => m,
            FetchError::Network(m) => m,
            FetchError::Channel(m) => m,
        };
        let mut out = String::from_str(label);
        out.append(detail.as_str());
        out
    }
}

/// The engine's failure report, flattened to plain values at the boundary.
#[derive(Debug, Clone)]
pub enum EngineFailure {
    NotFound(String),
    InvalidInput { field: String, message: String },
    Network { message: String, retryable: bool },
    Storage(String),
    Other(String),
}

/// Fold an engine failure into the layer's own taxonomy: not-found and
/// invalid-input keep their category (the invalid field is prefixed to its
/// message), network failures keep the message, storage failures become
/// database errors, everything else is an opaque engine error.
pub fn error_from_engine(e: EngineFailure) -> (r: FetchError)
    ensures
        (match e {
            EngineFailure::NotFound(m) => r == FetchError::NotFound(m),
            EngineFailure::InvalidInput { field, message } => r is InvalidInput
                && error_detail(r) == field@ + ": "@ + message@,
            EngineFailure::Network { message, retryable: _ } => r == FetchError::Network(message),
            EngineFailure::Storage(m) => r == FetchError::Database(m),
            EngineFailure::Other(m) => r == FetchError::Engine(m),
        }),
{
    match e {
        EngineFailure::NotFound(m) => FetchError::NotFound(m),
        EngineFailure::InvalidInput { field, message } => {
            let mut out = field;
            out.append(": ");
            out.append(message.as_str());
            proof {
                reveal_strlit(": ");
            }
            FetchError::InvalidInput(out)
        },
        EngineFailure::Network { message, retryable: _ } => FetchError::Network(message),
        EngineFailure::Storage(m) => FetchError::Database(m),
        EngineFailure::Other(m) => FetchError::Engine(m),
    }
}

} // verus!
