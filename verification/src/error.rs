//! The failures an operation can end in.

use vstd::prelude::*;
use vstd::string::to_string_from_display_ensures;
use crate::text::{decimal, decimal_string};

verus! {

/// `std::io::Error`: what the system says when a process cannot be started
/// or a file cannot be opened. It is carried along; nothing is known of what
/// it holds.
#[verifier::external_type_specification]
#[verifier::external_body]
pub struct ExIoError(std::io::Error);

/// `regex::Error`: why the engine refused a pattern. It is carried along;
/// nothing is known of what it holds.
#[verifier::external_type_specification]
#[verifier::external_body]
pub struct ExRegexError(regex::Error);

/// `nix::errno::Errno`: the code of a failed system call. It is carried
/// along; nothing is known of it but what a trusted test tells.
#[verifier::external_type_specification]
#[verifier::external_body]
pub struct ExErrno(nix::errno::Errno);

/// `std::num::ParseIntError`: why a text is no number. It is carried along;
/// nothing is known of what it holds.
#[verifier::external_type_specification]
#[verifier::external_body]
pub struct ExParseIntError(std::num::ParseIntError);

/// Why an operation failed.
#[derive(Debug)]
pub enum IPTError {
    /// A process could not be started, or the lock file could not be opened.
    Io(std::io::Error),
    /// The engine refused a regular expression.
    Regex(regex::Error),
    /// The lock file could not be locked, for a reason other than that
    /// somebody else holds the lock.
    Nix(nix::errno::Errno),
    /// A part of the version is no number.
    Parse(std::num::ParseIntError),
    /// The tool ended with this exit code, which is not zero.
    BadExitStatus(i32),
    /// The request itself is at fault; the message says how.
    Other(&'static str),
}

/// What an operation gives: its value, or why it failed.
pub type IPTResult<T> = Result<T, IPTError>;

/// The cause of a failure, without what the system said about it.
#[derive(Debug, Clone, Copy, PartialEq, Eq)]
pub enum ErrorKind {
    /// See [`IPTError::Io`].
    Io,
    /// See [`IPTError::Regex`].
    Regex,
    /// See [`IPTError::Nix`].
    Nix,
    /// See [`IPTError::Parse`].
    Parse,
    /// The tool ended with this exit code.
    BadExitStatus(i32),
    /// The request itself is at fault.
    Other(&'static str),
}

impl IPTError {
    /// The cause of this failure.
    pub open spec fn kind_spec(&self) -> ErrorKind {
        match *self {
            IPTError::Io(_) => ErrorKind::Io,
            IPTError::Regex(_) => ErrorKind::Regex,
            IPTError::Nix(_) => ErrorKind::Nix,
            IPTError::Parse(_) => ErrorKind::Parse,
            IPTError::BadExitStatus(code) => ErrorKind::BadExitStatus(code),
            IPTError::Other(message) => ErrorKind::Other(message),
        }
    }

    /// The cause of this failure.
    #[verifier::when_used_as_spec(kind_spec)]
    pub fn kind(&self) -> (kind: ErrorKind)
        ensures
            kind == self.kind_spec(),
    {
        match self {
            IPTError::Io(_) => ErrorKind::Io,
            IPTError::Regex(_) => ErrorKind::Regex,
            IPTError::Nix(_) => ErrorKind::Nix,
            IPTError::Parse(_) => ErrorKind::Parse,
            IPTError::BadExitStatus(code) => ErrorKind::BadExitStatus(*code),
            IPTError::Other(message) => ErrorKind::Other(*message),
        }
    }

    /// The text that describes this failure: what a failure from outside
    /// displays as, the exit code in decimal, or the fixed message.
    pub fn message(&self) -> (text: String)
        ensures
            match *self {
                IPTError::Io(err) => to_string_from_display_ensures::<std::io::Error>(&err, text),
                IPTError::Regex(err) => to_string_from_display_ensures::<regex::Error>(&err, text),
                IPTError::Nix(err) => to_string_from_display_ensures::<nix::errno::Errno>(
                    &err,
                    text,
                ),
                IPTError::Parse(err) => to_string_from_display_ensures::<std::num::ParseIntError>(
                    &err,
                    text,
                ),
                IPTError::BadExitStatus(code) => text@ == decimal(code as int),
                IPTError::Other(message) => text@ == message@,
            },
    {
        match self {
            IPTError::Io(err) => err.to_string(),
            IPTError::Regex(err) => err.to_string(),
            IPTError::Nix(err) => err.to_string(),
            IPTError::Parse(err) => err.to_string(),
            IPTError::BadExitStatus(code) => decimal_string(*code),
            IPTError::Other(message) => String::from_str(*message),
        }
    }
}

/// A result with the failure reduced to its cause.
pub open spec fn by_kind<T>(result: IPTResult<T>) -> Result<T, ErrorKind> {
    match result {
        Ok(value) => Ok(value),
        Err(e) => Err(e.kind_spec()),
    }
}

/// A result with the value reduced to its meaning and the failure to its
/// cause.
pub open spec fn deep_by_kind<T: DeepView>(result: IPTResult<T>) -> Result<T::V, ErrorKind> {
    match result {
        Ok(value) => Ok(value.deep_view()),
        Err(e) => Err(e.kind_spec()),
    }
}

/// A result with the value reduced to its view and the failure to its cause.
pub open spec fn view_by_kind<T: View>(result: IPTResult<T>) -> Result<T::V, ErrorKind> {
    match result {
        Ok(value) => Ok(value@),
        Err(e) => Err(e.kind_spec()),
    }
}

impl From<std::io::Error> for IPTError {
    /// A failure of the system to run a process or open a file.
    fn from(err: std::io::Error) -> (e: IPTError) {
        IPTError::Io(err)
    }
}

impl vstd::std_specs::convert::FromSpecImpl<std::io::Error> for IPTError {
    open spec fn obeys_from_spec() -> bool {
        true
    }

    open spec fn from_spec(err: std::io::Error) -> IPTError {
        IPTError::Io(err)
    }
}

impl From<regex::Error> for IPTError {
    /// A pattern that the engine refused.
    fn from(err: regex::Error) -> (e: IPTError) {
        IPTError::Regex(err)
    }
}

impl vstd::std_specs::convert::FromSpecImpl<regex::Error> for IPTError {
    open spec fn obeys_from_spec() -> bool {
        true
    }

    open spec fn from_spec(err: regex::Error) -> IPTError {
        IPTError::Regex(err)
    }
}

impl From<nix::errno::Errno> for IPTError {
    /// A failure to lock.
    fn from(err: nix::errno::Errno) -> (e: IPTError) {
        IPTError::Nix(err)
    }
}

impl vstd::std_specs::convert::FromSpecImpl<nix::errno::Errno> for IPTError {
    open spec fn obeys_from_spec() -> bool {
        true
    }

    open spec fn from_spec(err: nix::errno::Errno) -> IPTError {
        IPTError::Nix(err)
    }
}

impl From<std::num::ParseIntError> for IPTError {
    /// Text that is no number.
    fn from(err: std::num::ParseIntError) -> (e: IPTError) {
        IPTError::Parse(err)
    }
}

impl vstd::std_specs::convert::FromSpecImpl<std::num::ParseIntError> for IPTError {
    open spec fn obeys_from_spec() -> bool {
        true
    }

    open spec fn from_spec(err: std::num::ParseIntError) -> IPTError {
        IPTError::Parse(err)
    }
}

impl From<&'static str> for IPTError {
    /// A fixed message.
    fn from(err: &'static str) -> (e: IPTError) {
        IPTError::Other(err)
    }
}

impl vstd::std_specs::convert::FromSpecImpl<&'static str> for IPTError {
    open spec fn obeys_from_spec() -> bool {
        true
    }

    open spec fn from_spec(err: &'static str) -> IPTError {
        IPTError::Other(err)
    }
}

} // verus!
