//! The error taxonomy of a probe run.

use vstd::prelude::*;
use vstd::string::StringExecFns;

verus! {

/// Everything that can go wrong in one attempt, or before the run starts.
///
/// `InvalidUrl`, `MissingHost` and `InvalidPort` arise while resolving the
/// target; `InvalidHeader` is detected at argument time and aborts the
/// whole run; the remaining kinds describe transport failures and are
/// produced at the I/O boundary.
#[derive(Clone, Copy, Debug, PartialEq, Eq, Structural)]
pub enum ProbeError {
    InvalidUrl,
    MissingHost,
    InvalidPort,
    InvalidHeader,
    ConnectionError,
    TlsError,
    IoError,
}

/// The message shown for each error kind.
pub open spec fn describe_spec(e: ProbeError) -> Seq<char> {
    match e {
        ProbeError::InvalidUrl => "invalid URL"@,
        ProbeError::MissingHost => "Invalid URL: missing host. Use -h for help."@,
        ProbeError::InvalidPort => "Invalid port"@,
        ProbeError::InvalidHeader => "Invalid header format"@,
        ProbeError::ConnectionError => "connection failed"@,
        ProbeError::TlsError => "TLS handshake failed"@,
        ProbeError::IoError => "read or write failed"@,
    }
}

impl ProbeError {
    /// A human-readable description of the error.
    pub fn describe(&self) -> (r: String)
        ensures
            r@ == describe_spec(*self),
    {
        match self {
            ProbeError::InvalidUrl => String::from_str("invalid URL"),
            ProbeError::MissingHost => String::from_str(
                "Invalid URL: missing host. Use -h for help.",
            ),
            ProbeError::InvalidPort => String::from_str("Invalid port"),
            ProbeError::InvalidHeader => String::from_str("Invalid header format"),
            ProbeError::ConnectionError => String::from_str("connection failed"),
            ProbeError::TlsError => String::from_str("TLS handshake failed"),
            ProbeError::IoError => String::from_str("read or write failed"),
        }
    }
}

} // verus!
