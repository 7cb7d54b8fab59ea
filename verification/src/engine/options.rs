//! Where the engine keeps its files, and what can keep it from running.

use vstd::prelude::*;
use vstd::string::*;

use crate::discovery::{SocketAddress, SocketModel};
use crate::paths::{below_parts, join, PathPart};
use crate::text::{cat2, cat4};

verus! {

#[derive(Debug, PartialEq)]
pub enum EngineError {
    NotRunning,
    NoRuntime,
    Other(String),
}

pub type Result<T, E = EngineError> = std::result::Result<T, E>;

/// The sentence shown for an engine error.
pub open spec fn engine_error_sentence(error: EngineError) -> Seq<char> {
    match error {
        EngineError::NotRunning => "the engine is not running"@,
        EngineError::NoRuntime => "the engine must be started from inside a Tokio runtime"@,
        EngineError::Other(text) => text@,
    }
}

impl EngineError {
    /// The sentence shown for the error.
    pub fn message(&self) -> (out: String)
        ensures
            out@ == engine_error_sentence(*self),
    {
        match self {
            EngineError::NotRunning => "the engine is not running".to_owned(),
            EngineError::NoRuntime => {
                "the engine must be started from inside a Tokio runtime".to_owned()
            },
            EngineError::Other(text) => text.clone(),
        }
    }
}

/// Where the engine keeps its files.
#[derive(Debug, PartialEq)]
pub struct EngineOptions {
    pub identity_path: Vec<PathPart>,
    pub settings_path: Vec<PathPart>,
    pub peers_path: Vec<PathPart>,
}

impl EngineOptions {
    /// The files in the given directory.
    pub fn in_dir(dir: &Vec<PathPart>) -> (out: Self)
        ensures
            out.identity_path.deep_view() == below_parts(dir.deep_view(), "identity.json"@),
            out.settings_path.deep_view() == below_parts(dir.deep_view(), "settings.json"@),
            out.peers_path.deep_view() == below_parts(dir.deep_view(), "peers.json"@),
    {
        EngineOptions {
            identity_path: join(dir, "identity.json"),
            settings_path: join(dir, "settings.json"),
            peers_path: join(dir, "peers.json"),
        }
    }
}

/// Why a machine could not be dialled.
#[derive(Debug, PartialEq)]
pub enum DialFailure {
    /// The connection was refused or failed, for the given reason.
    Unreachable(String),
    TimedOut,
    /// The handshake failed, for the given reason.
    Handshake(String),
}

/// What is said of a machine that could not be dialled.
pub open spec fn dial_sentence(
    failure: DialFailure,
    name: Option<Seq<char>>,
    address: SocketModel,
) -> Seq<char> {
    match failure {
        DialFailure::Unreachable(reason) => "Could not reach "@ + (match name {
            Some(text) => text,
            None => address.shown(),
        }) + ": "@ + reason@,
        DialFailure::TimedOut => "Timed out reaching "@ + address.shown(),
        DialFailure::Handshake(reason) => "Handshake failed: "@ + reason@,
    }
}

/// Says why a machine could not be dialled.
pub fn dial_message(
    failure: &DialFailure,
    name: &Option<String>,
    address: &SocketAddress,
) -> (out: String)
    ensures
        out@ == dial_sentence(*failure, name.deep_view(), address.deep_view()),
{
    match failure {
        DialFailure::Unreachable(reason) => {
            let whom = match name {
                Some(text) => text.clone(),
                None => address.display(),
            };
            cat4("Could not reach ", whom.as_str(), ": ", reason.as_str())
        },
        DialFailure::TimedOut => cat2("Timed out reaching ", address.display().as_str()),
        DialFailure::Handshake(reason) => cat2("Handshake failed: ", reason.as_str()),
    }
}

} // verus!
