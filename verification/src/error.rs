//! The closed error taxonomy of the crate.
//!
//! Every internal failure source collapses into one [`Error`] carrying a
//! tagged [`ErrorKind`] plus the causal text of the underlying failure.
//! At the FFI boundary an error is erased to a single catch-all numeric
//! code plus its human-readable message; no error ever unwinds past it.

use vstd::prelude::*;
use vstd::string::StringExecFns;

use crate::common::{decimal_string, spec_decimal};

verus! {

/// A list enumerating the categories of errors in this crate.
///
/// Each category stands for one underlying failure source; an
/// [`Error`] is only ever built through a total conversion from such a
/// source (or from a kind directly), never assembled freely by callers.
#[derive(Copy, Clone, Debug, PartialEq, Eq, Structural)]
pub enum ErrorKind {
    /// Lifetime conversion failed, carrying the rejected raw value.
    Lifetime(i32),
    /// A stale or unknown handle was used.
    Handle,
    /// An I/O error occurred.
    IoError,
    /// The durable key-value store reported an error.
    Rkv,
    /// A JSON (de)serialization error occurred.
    Json,
    /// TimeUnit conversion failed, carrying the rejected raw value.
    TimeUnit(i32),
}

/// The stable message belonging to an error kind; this is the text that
/// crosses the FFI boundary.
pub open spec fn kind_message(kind: ErrorKind) -> Seq<char> {
    match kind {
        ErrorKind::Lifetime(v) => "Lifetime conversion from "@ + spec_decimal(v as int)
            + " failed"@,
        ErrorKind::Handle => "Invalid handle"@,
        ErrorKind::IoError => "An I/O error occurred."@,
        ErrorKind::Rkv => "An Rkv error occurred."@,
        ErrorKind::Json => "A JSON error occurred."@,
        ErrorKind::TimeUnit(v) => "TimeUnit conversion from "@ + spec_decimal(v as int)
            + " failed"@,
    }
}

/// The single catch-all numeric code reported for every failing
/// boundary call.
pub const EXTERN_ERROR_CODE: i32 = 42;

/// A specialized error type for this crate's operations: a tagged kind
/// together with the causal text of the underlying failure, kept for
/// local diagnostics only.
#[derive(Clone, Debug)]
pub struct Error {
    /// The category of this error.
    pub kind: ErrorKind,
    /// The message text of the underlying failure this error was
    /// converted from; empty when the error was built from a kind alone.
    pub cause: String,
}

impl Error {
    /// Access the [`ErrorKind`] member.
    pub fn kind(&self) -> (kind: &ErrorKind)
        ensures
            kind == &self.kind,
    {
        &self.kind
    }

    /// The preserved message text of the underlying failure this error
    /// was converted from, kept for local diagnostics only.
    pub fn cause(&self) -> (cause: &str)
        ensures
            cause@ == self.cause@,
    {
        self.cause.as_str()
    }

    /// Total conversion from a kind into an error, with no causal text.
    pub fn from_kind(kind: ErrorKind) -> (error: Error)
        ensures
            error.kind == kind,
            error.cause@ == Seq::<char>::empty(),
    {
        Error { kind, cause: String::new() }
    }

    /// The stable, human-readable message of this error.
    pub fn message(&self) -> (message: String)
        ensures
            message@ == kind_message(self.kind),
    {
        match self.kind {
            ErrorKind::Lifetime(v) => {
                let mut message = String::from_str("Lifetime conversion from ");
                let rendered = decimal_string(v);
                message.append(rendered.as_str());
                message.append(" failed");
                message
            },
            ErrorKind::Handle => String::from_str("Invalid handle"),
            ErrorKind::IoError => String::from_str("An I/O error occurred."),
            ErrorKind::Rkv => String::from_str("An Rkv error occurred."),
            ErrorKind::Json => String::from_str("A JSON error occurred."),
            ErrorKind::TimeUnit(v) => {
                let mut message = String::from_str("TimeUnit conversion from ");
                let rendered = decimal_string(v);
                message.append(rendered.as_str());
                message.append(" failed");
                message
            },
        }
    }

    /// Erase this error for the FFI boundary: the catch-all code `42`
    /// and the stable message.  This is the single point where typed
    /// errors lose their tag.
    pub fn extern_parts(&self) -> (parts: (i32, String))
        ensures
            parts.0 == EXTERN_ERROR_CODE,
            parts.1@ == kind_message(self.kind),
    {
        (EXTERN_ERROR_CODE, self.message())
    }
}

#[verifier::external_type_specification]
#[verifier::external_body]
pub struct ExHandleError(ffi_support::HandleError);

/// Total conversion from a handle-map failure into an [`Error`].
///
/// Relies on `ffi_support::HandleError`'s `Display` implementation for
/// the causal text; the tag is always the `Handle` kind.
#[verifier::external_body]
pub fn from_handle_error(error: ffi_support::HandleError) -> (r: Error)
    ensures
        r.kind == ErrorKind::Handle,
{
    Error { kind: ErrorKind::Handle, cause: format!("{}", error) }
}

} // verus!
