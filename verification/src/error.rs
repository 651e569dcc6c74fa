//! The errors of reading and parsing an MSDM table, and the messages that tell them.
use vstd::prelude::*;
use vstd::string::{to_string_from_display_ensures, StringExecFns};

use crate::decode::{string_from_utf8_lossy, utf8_lossy};
use crate::format::{append_decimal, decimal};

verus! {

#[verifier::external_type_specification]
#[verifier::external_body]
pub struct ExIoError(std::io::Error);

/// Why the product key could not be read.
#[derive(Debug)]
#[allow(inconsistent_fields)]
pub enum MsdmError {
    NotFound,
    PermissionDenied,
    InvalidSignature { got: [u8; 4] },
    TableTooShort { expected: usize, got: usize },
    InvalidUtf8 { field: &'static str },
    InvalidKeyFormat { key: String, reason: &'static str },
    Io(std::io::Error),
    Registry(String),
}

/// The kinds of I/O error that the tool tells apart.
#[derive(Debug, Clone, Copy, PartialEq, Eq)]
pub enum IoErrorClass {
    NotFound,
    PermissionDenied,
    Other,
}

/// Calls `std::io::Error::kind` and sorts the kind into an `IoErrorClass`.
/// Nothing is stated of the result: the kind of an I/O error depends on the system.
#[verifier::external_body]
fn io_error_class(err: &std::io::Error) -> IoErrorClass {
    match err.kind() {
        std::io::ErrorKind::NotFound => IoErrorClass::NotFound,
        std::io::ErrorKind::PermissionDenied => IoErrorClass::PermissionDenied,
        _ => IoErrorClass::Other,
    }
}

/// The message that tells each error, but for an I/O error, whose text comes from
/// the system.
pub open spec fn error_message(e: MsdmError) -> Seq<char> {
    match e {
        MsdmError::NotFound => "MSDM table not found: no Windows product key in firmware."@,
        MsdmError::PermissionDenied =>
            "Permission denied: reading the MSDM table requires root privileges. Try running with sudo."@,
        MsdmError::InvalidSignature { got } => "Invalid MSDM table: expected signature \"MSDM\", got \""@
            + utf8_lossy(got@) + "\"."@,
        MsdmError::TableTooShort { expected, got } => "Invalid MSDM table: expected at least "@
            + decimal(expected as nat) + " bytes, got "@ + decimal(got as nat) + "."@,
        MsdmError::InvalidUtf8 { field } => "Invalid MSDM table: "@ + field@
            + " contains invalid UTF-8."@,
        MsdmError::InvalidKeyFormat { key, reason } => "Invalid product key \""@ + key@ + "\": "@
            + reason@ + "."@,
        MsdmError::Io(_) => "I/O error: "@,
        MsdmError::Registry(msg) => "Registry error: "@ + msg@,
    }
}

impl MsdmError {
    /// Sorts an I/O error: a missing table and a refused read have errors of their
    /// own, any other I/O error is kept as it is.
    pub fn from_io_class(class: IoErrorClass, err: std::io::Error) -> (r: MsdmError)
        ensures
            match class {
                IoErrorClass::NotFound => r is NotFound,
                IoErrorClass::PermissionDenied => r is PermissionDenied,
                IoErrorClass::Other => r == MsdmError::Io(err),
            },
    {
        match class {
            IoErrorClass::NotFound => MsdmError::NotFound,
            IoErrorClass::PermissionDenied => MsdmError::PermissionDenied,
            IoErrorClass::Other => MsdmError::Io(err),
        }
    }

    /// The error for an I/O error, sorted by its kind.
    pub fn from_io(err: std::io::Error) -> (r: MsdmError)
        ensures
            r is NotFound || r is PermissionDenied || r == MsdmError::Io(err),
    {
        let class = io_error_class(&err);
        Self::from_io_class(class, err)
    }

    /// Sorts an error of the registry: a missing key or value is `NotFound`; a refused
    /// access is `PermissionDenied` when opening the key (`opening`); anything else
    /// is a registry error that tells `detail`.
    pub fn from_registry_class(class: IoErrorClass, detail: String, opening: bool) -> (r:
        MsdmError)
        ensures
            match class {
                IoErrorClass::NotFound => r is NotFound,
                IoErrorClass::PermissionDenied => if opening {
                    r is PermissionDenied
                } else {
                    r == MsdmError::Registry(detail)
                },
                IoErrorClass::Other => r == MsdmError::Registry(detail),
            },
    {
        match class {
            IoErrorClass::NotFound => MsdmError::NotFound,
            IoErrorClass::PermissionDenied => if opening {
                MsdmError::PermissionDenied
            } else {
                MsdmError::Registry(detail)
            },
            IoErrorClass::Other => MsdmError::Registry(detail),
        }
    }

    /// The error for an error of the registry, sorted by its kind; a registry error
    /// tells the error's own text.
    pub fn from_registry_error(err: std::io::Error, opening: bool) -> (r: MsdmError)
        ensures
            r is NotFound || (opening && r is PermissionDenied) || (r matches MsdmError::Registry(
                msg,
            ) && to_string_from_display_ensures::<std::io::Error>(&err, msg)),
    {
        let class = io_error_class(&err);
        let detail = err.to_string();
        Self::from_registry_class(class, detail, opening)
    }

    /// The underlying I/O error, if there is one.
    pub fn source(&self) -> (r: Option<&std::io::Error>)
        ensures
            match self {
                MsdmError::Io(e) => r == Some(e),
                _ => r is None,
            },
    {
        match self {
            MsdmError::Io(e) => Some(e),
            _ => None,
        }
    }

    /// The message that tells this error.
    pub fn to_string(&self) -> (r: String)
        ensures
            self matches MsdmError::Io(e) ==> exists|detail: String|
                to_string_from_display_ensures::<std::io::Error>(&e, detail) && r@ == error_message(
                    *self,
                ) + detail@,
            !(self is Io) ==> r@ == error_message(*self),
    {
        match self {
            MsdmError::NotFound => String::from_str(
                "MSDM table not found: no Windows product key in firmware.",
            ),
            MsdmError::PermissionDenied => String::from_str(
                "Permission denied: reading the MSDM table requires root privileges. Try running with sudo.",
            ),
            MsdmError::InvalidSignature { got } => {
                let sig = string_from_utf8_lossy(got.as_slice());
                let mut s = String::from_str(
                    "Invalid MSDM table: expected signature \"MSDM\", got \"",
                );
                s.append(sig.as_str());
                s.append("\".");
                s
            },
            MsdmError::TableTooShort { expected, got } => {
                let mut s = String::from_str("Invalid MSDM table: expected at least ");
                append_decimal(&mut s, *expected);
                s.append(" bytes, got ");
                append_decimal(&mut s, *got);
                s.append(".");
                s
            },
            MsdmError::InvalidUtf8 { field } => {
                let mut s = String::from_str("Invalid MSDM table: ");
                s.append(field);
                s.append(" contains invalid UTF-8.");
                s
            },
            MsdmError::InvalidKeyFormat { key, reason } => {
                let mut s = String::from_str("Invalid product key \"");
                s.append(key.as_str());
                s.append("\": ");
                s.append(reason);
                s.append(".");
                s
            },
            MsdmError::Io(err) => {
                let mut s = String::from_str("I/O error: ");
                let detail = err.to_string();
                s.append(detail.as_str());
                assert(to_string_from_display_ensures::<std::io::Error>(err, detail));
                s
            },
            MsdmError::Registry(msg) => {
                let mut s = String::from_str("Registry error: ");
                s.append(msg.as_str());
                s
            },
        }
    }
}

} // verus!
