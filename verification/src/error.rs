//! What can go wrong with keys, arguments and stored configuration.

use vstd::prelude::*;
use vstd::string::*;

use crate::encoding::Base64Fault;
use crate::text::{cat2, cat4, cat5, decimal, format_decimal};

verus! {

/// Errors of the shared types.
#[derive(Debug)]
pub enum Error {
    /// Reading or writing failed, for the given reason.
    Io(String),
    /// A value could not be written or read as JSON, for the given reason.
    Json(String),
    /// A configuration file is broken.
    Config { path: String, source: Box<Error> },
    Base64(Base64Fault),
    Hex(String),
    Key(String),
    Invalid(String),
    UnknownPeer(String),
    Other(String),
}

pub type Result<T, E = Error> = std::result::Result<T, E>;

/// An error, by its contents.
#[verifier::ext_equal]
pub enum ErrorModel {
    Io(Seq<char>),
    Json(Seq<char>),
    Config { path: Seq<char>, source: Box<ErrorModel> },
    Base64(Base64Fault),
    Hex(Seq<char>),
    Key(Seq<char>),
    Invalid(Seq<char>),
    UnknownPeer(Seq<char>),
    Other(Seq<char>),
}

/// The contents of an error.
pub open spec fn model_of(error: Error) -> ErrorModel
    decreases error,
{
    match error {
        Error::Io(text) => ErrorModel::Io(text@),
        Error::Json(text) => ErrorModel::Json(text@),
        Error::Config { path, source } => ErrorModel::Config {
            path: path@,
            source: Box::new(model_of(*source)),
        },
        Error::Base64(fault) => ErrorModel::Base64(fault),
        Error::Hex(text) => ErrorModel::Hex(text@),
        Error::Key(text) => ErrorModel::Key(text@),
        Error::Invalid(text) => ErrorModel::Invalid(text@),
        Error::UnknownPeer(text) => ErrorModel::UnknownPeer(text@),
        Error::Other(text) => ErrorModel::Other(text@),
    }
}

impl DeepView for Error {
    type V = ErrorModel;

    open spec fn deep_view(&self) -> ErrorModel {
        model_of(*self)
    }
}

impl ErrorModel {
    /// The sentence shown for an error.
    pub open spec fn sentence(self) -> Seq<char>
        decreases self,
    {
        match self {
            ErrorModel::Io(text) => "i/o error: "@ + text,
            ErrorModel::Json(text) => "serialization error: "@ + text,
            ErrorModel::Config { path, source } => "invalid configuration at "@ + path + ": "@
                + source.sentence(),
            ErrorModel::Base64(fault) => "invalid base64 payload: "@ + fault_text(fault),
            ErrorModel::Hex(text) => "invalid hex payload: "@ + text,
            ErrorModel::Key(text) => "invalid key material: "@ + text,
            ErrorModel::Invalid(text) => "invalid argument: "@ + text,
            ErrorModel::UnknownPeer(text) => "peer not found: "@ + text,
            ErrorModel::Other(text) => text,
        }
    }
}

/// What is wrong with a base64 text, in words.
pub open spec fn fault_text(fault: Base64Fault) -> Seq<char> {
    match fault {
        Base64Fault::InvalidByte { offset, byte } => "Invalid symbol "@ + decimal(byte as nat)
            + ", offset "@ + decimal(offset as nat) + "."@,
        Base64Fault::InvalidLength { length } => "Invalid input length: "@ + decimal(
            length as nat,
        ),
        Base64Fault::InvalidLastSymbol { offset, byte } => "Invalid last symbol "@ + decimal(
            byte as nat,
        ) + ", offset "@ + decimal(offset as nat) + "."@,
        Base64Fault::InvalidPadding => "Invalid padding"@,
    }
}

impl Base64Fault {
    /// The fault in words.
    pub fn message(&self) -> (out: String)
        ensures
            out@ == fault_text(*self),
    {
        match *self {
            Base64Fault::InvalidByte { offset, byte } => cat5(
                "Invalid symbol ",
                format_decimal(byte as u64).as_str(),
                ", offset ",
                format_decimal(offset as u64).as_str(),
                ".",
            ),
            Base64Fault::InvalidLength { length } => cat2(
                "Invalid input length: ",
                format_decimal(length as u64).as_str(),
            ),
            Base64Fault::InvalidLastSymbol { offset, byte } => cat5(
                "Invalid last symbol ",
                format_decimal(byte as u64).as_str(),
                ", offset ",
                format_decimal(offset as u64).as_str(),
                ".",
            ),
            Base64Fault::InvalidPadding => "Invalid padding".to_owned(),
        }
    }
}

impl Error {
    pub fn invalid(msg: &str) -> (out: Self)
        ensures
            out.deep_view() == ErrorModel::Invalid(msg@),
    {
        Error::Invalid(msg.to_owned())
    }

    pub fn other(msg: &str) -> (out: Self)
        ensures
            out.deep_view() == ErrorModel::Other(msg@),
    {
        Error::Other(msg.to_owned())
    }

    /// The sentence shown for the error.
    pub fn message(&self) -> (out: String)
        ensures
            out@ == self.deep_view().sentence(),
        decreases self,
    {
        match self {
            Error::Io(text) => cat2("i/o error: ", text.as_str()),
            Error::Json(text) => cat2("serialization error: ", text.as_str()),
            Error::Config { path, source } => {
                let cause = (**source).message();
                cat4("invalid configuration at ", path.as_str(), ": ", cause.as_str())
            },
            Error::Base64(fault) => cat2("invalid base64 payload: ", fault.message().as_str()),
            Error::Hex(text) => cat2("invalid hex payload: ", text.as_str()),
            Error::Key(text) => cat2("invalid key material: ", text.as_str()),
            Error::Invalid(text) => cat2("invalid argument: ", text.as_str()),
            Error::UnknownPeer(text) => cat2("peer not found: ", text.as_str()),
            Error::Other(text) => text.clone(),
        }
    }
}

} // verus!
