//! What can go wrong between two machines.

use vstd::prelude::*;
use vstd::string::*;

use crate::error::ErrorModel as CoreErrorModel;
use crate::text::{cat2, cat5, decimal, format_decimal};

verus! {

/// Errors of a connection.
#[derive(Debug)]
pub enum Error {
    /// Reading or writing failed, for the given reason.
    Io(String),
    Protocol(String),
    Crypto(String),
    Version { local: u32, remote: u32 },
    IdentityChanged { expected: String, actual: String },
    PairRejected(String),
    Closed(String),
    Range(String),
    Other(String),
}

pub type Result<T, E = Error> = std::result::Result<T, E>;

/// A connection error, by its contents.
#[verifier::ext_equal]
pub enum ErrorModel {
    Io(Seq<char>),
    Protocol(Seq<char>),
    Crypto(Seq<char>),
    Version { local: u32, remote: u32 },
    IdentityChanged { expected: Seq<char>, actual: Seq<char> },
    PairRejected(Seq<char>),
    Closed(Seq<char>),
    Range(Seq<char>),
    Other(Seq<char>),
}

impl DeepView for Error {
    type V = ErrorModel;

    open spec fn deep_view(&self) -> ErrorModel {
        match self {
            Error::Io(text) => ErrorModel::Io(text@),
            Error::Protocol(text) => ErrorModel::Protocol(text@),
            Error::Crypto(text) => ErrorModel::Crypto(text@),
            Error::Version { local, remote } => ErrorModel::Version {
                local: *local,
                remote: *remote,
            },
            Error::IdentityChanged { expected, actual } => ErrorModel::IdentityChanged {
                expected: expected@,
                actual: actual@,
            },
            Error::PairRejected(text) => ErrorModel::PairRejected(text@),
            Error::Closed(text) => ErrorModel::Closed(text@),
            Error::Range(text) => ErrorModel::Range(text@),
            Error::Other(text) => ErrorModel::Other(text@),
        }
    }
}

impl ErrorModel {
    /// The sentence shown for an error.
    pub open spec fn sentence(self) -> Seq<char> {
        match self {
            ErrorModel::Io(text) => "i/o error: "@ + text,
            ErrorModel::Protocol(text) => "protocol error: "@ + text,
            ErrorModel::Crypto(text) => "cryptographic error: "@ + text,
            ErrorModel::Version { local, remote } =>
            "the remote peer spoke an incompatible protocol version ("@ + decimal(remote as nat)
                + ", we speak "@ + decimal(local as nat) + ")"@,
            ErrorModel::IdentityChanged { expected, actual } =>
            "the peer identity changed: expected key "@ + expected + ", received "@ + actual,
            ErrorModel::PairRejected(text) => "pairing was rejected: "@ + text,
            ErrorModel::Closed(text) => "connection closed: "@ + text,
            ErrorModel::Range(text) => "value is out of range: "@ + text,
            ErrorModel::Other(text) => text,
        }
    }
}

/// How an error of the shared types is seen on a connection.
pub open spec fn from_core(error: CoreErrorModel) -> ErrorModel {
    match error {
        CoreErrorModel::Json(text) => ErrorModel::Protocol(text),
        CoreErrorModel::Io(text) => ErrorModel::Io(text),
        other => ErrorModel::Other(other.sentence()),
    }
}

impl Error {
    pub fn protocol(msg: &str) -> (out: Self)
        ensures
            out.deep_view() == ErrorModel::Protocol(msg@),
    {
        Error::Protocol(msg.to_owned())
    }

    pub fn crypto(msg: &str) -> (out: Self)
        ensures
            out.deep_view() == ErrorModel::Crypto(msg@),
    {
        Error::Crypto(msg.to_owned())
    }

    /// Takes over an error of the shared types.
    pub fn from_shared(value: crate::error::Error) -> (out: Self)
        ensures
            out.deep_view() == from_core(value.deep_view()),
    {
        match value {
            crate::error::Error::Json(text) => Error::Protocol(text),
            crate::error::Error::Io(text) => Error::Io(text),
            other => Error::Other(other.message()),
        }
    }

    /// The sentence shown for the error.
    pub fn message(&self) -> (out: String)
        ensures
            out@ == self.deep_view().sentence(),
    {
        match self {
            Error::Io(text) => cat2("i/o error: ", text.as_str()),
            Error::Protocol(text) => cat2("protocol error: ", text.as_str()),
            Error::Crypto(text) => cat2("cryptographic error: ", text.as_str()),
            Error::Version { local, remote } => cat5(
                "the remote peer spoke an incompatible protocol version (",
                format_decimal(*remote as u64).as_str(),
                ", we speak ",
                format_decimal(*local as u64).as_str(),
                ")",
            ),
            Error::IdentityChanged { expected, actual } => {
                let head = cat2("the peer identity changed: expected key ", expected.as_str());
                let tail = cat2(", received ", actual.as_str());
                let out = cat2(head.as_str(), tail.as_str());
                assert(out@ =~= self.deep_view().sentence());
                out
            },
            Error::PairRejected(text) => cat2("pairing was rejected: ", text.as_str()),
            Error::Closed(text) => cat2("connection closed: ", text.as_str()),
            Error::Range(text) => cat2("value is out of range: ", text.as_str()),
            Error::Other(text) => text.clone(),
        }
    }
}

} // verus!
