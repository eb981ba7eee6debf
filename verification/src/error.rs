//! Errors of the library.
use vstd::prelude::*;
use vstd::string::*;
use crate::text::{append_decimal, decimal};

verus! {

/// `std::num::ParseIntError`, which is carried along and never looked into.
#[verifier::external_type_specification]
#[verifier::external_body]
pub struct ExParseIntError(std::num::ParseIntError);

/// Errors that can occur during operations on block devices.
#[derive(Debug)]
pub enum Error {
    AlreadyExists,
    SpdkBdevNotFound(String),
    SpdkBdevDelete(i32),
    SpdkBdevCreate(i32),
    SpdkBdevOpen(i32),
    RpcCmdUnknown(String),
    InvalidArguments,
    InvalidField(String),
    NoMemory,
    UnsupportedFeature,
    SharedBufferModification,
    UnsupportedOperation,
    OutOfRange,
    IntDowncast,
    IntParseError(std::num::ParseIntError),
}

impl Error {
    /// The text that tells a user of the error.
    pub open spec fn text(&self) -> Seq<char> {
        match self {
            Error::AlreadyExists => "This entity already exists"@,
            Error::SpdkBdevNotFound(name) => "SPDK block device '"@ + name@ + "' not found"@,
            Error::SpdkBdevDelete(rc) => "Failed to delete SPDK block device: "@ + decimal(*rc as int),
            Error::SpdkBdevCreate(rc) => "Failed to create SPDK block device: "@ + decimal(*rc as int),
            Error::SpdkBdevOpen(rc) => "Failed to open SPDK block device: "@ + decimal(*rc as int),
            Error::RpcCmdUnknown(name) => "Unknown RPC command '"@ + name@,
            Error::InvalidArguments => "Invalid arguments"@,
            Error::InvalidField(name) => "Invalid field '"@ + name@ + "'"@,
            Error::NoMemory => "Out of memory"@,
            Error::UnsupportedFeature => "Unsupported feature"@,
            Error::SharedBufferModification => "Attempt to modify shared buffer"@,
            Error::UnsupportedOperation => "Unsupported operation"@,
            Error::OutOfRange => "Out of range"@,
            Error::IntDowncast => "Integer downcast error"@,
            Error::IntParseError(_) => "Integer parse error"@,
        }
    }

    /// Returns the text that tells a user of the error.
    pub fn message(&self) -> (text: String)
        ensures
            text@ == self.text(),
    {
        match self {
            Error::AlreadyExists => "This entity already exists".to_owned(),
            Error::SpdkBdevNotFound(name) => quoted("SPDK block device '", name.as_str(), "' not found"),
            Error::SpdkBdevDelete(rc) => numbered("Failed to delete SPDK block device: ", *rc),
            Error::SpdkBdevCreate(rc) => numbered("Failed to create SPDK block device: ", *rc),
            Error::SpdkBdevOpen(rc) => numbered("Failed to open SPDK block device: ", *rc),
            Error::RpcCmdUnknown(name) => prefixed("Unknown RPC command '", name.as_str()),
            Error::InvalidArguments => "Invalid arguments".to_owned(),
            Error::InvalidField(name) => quoted("Invalid field '", name.as_str(), "'"),
            Error::NoMemory => "Out of memory".to_owned(),
            Error::UnsupportedFeature => "Unsupported feature".to_owned(),
            Error::SharedBufferModification => "Attempt to modify shared buffer".to_owned(),
            Error::UnsupportedOperation => "Unsupported operation".to_owned(),
            Error::OutOfRange => "Out of range".to_owned(),
            Error::IntDowncast => "Integer downcast error".to_owned(),
            Error::IntParseError(_) => "Integer parse error".to_owned(),
        }
    }
}

impl From<std::num::ParseIntError> for Error {
    fn from(e: std::num::ParseIntError) -> (err: Error) {
        Error::IntParseError(e)
    }
}

impl vstd::std_specs::convert::FromSpecImpl<std::num::ParseIntError> for Error {
    open spec fn obeys_from_spec() -> bool {
        true
    }

    open spec fn from_spec(e: std::num::ParseIntError) -> Error {
        Error::IntParseError(e)
    }
}

/// `name` behind `before`.
pub(crate) fn prefixed(before: &str, name: &str) -> (text: String)
    ensures
        text@ == before@ + name@,
{
    let mut text = before.to_owned();
    text.append(name);
    text
}

/// `name` between `before` and `after`.
pub(crate) fn quoted(before: &str, name: &str, after: &str) -> (text: String)
    ensures
        text@ == before@ + name@ + after@,
{
    let mut text = before.to_owned();
    text.append(name);
    text.append(after);
    text
}

/// The number `rc` behind `before`.
pub(crate) fn numbered(before: &str, rc: i32) -> (text: String)
    ensures
        text@ == before@ + decimal(rc as int),
{
    let mut text = before.to_owned();
    append_decimal(&mut text, rc);
    text
}

} // verus!
