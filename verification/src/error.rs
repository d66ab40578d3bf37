//! Classified errors for the library API.
//!
//! `GirthError` classifies the cases that drive retry or fail decisions:
//! transient path conditions (`Timeout`) are retryable; `AuthDenied`,
//! `NotFound`, `VersionMismatch` and `Integrity` are terminal.

use crate::text::{contains, joined, to_lower};
use vstd::prelude::*;
use vstd::std_specs::convert::FromSpecImpl;

verus! {

/// The kinds of I/O failure that decisions depend on.
#[derive(Debug, Clone, Copy, PartialEq, Eq, Structural)]
pub enum IoKind {
    NotFound,
    TimedOut,
    WouldBlock,
    UnexpectedEof,
    ConnectionReset,
    InvalidInput,
    AddrNotAvailable,
    /// The caller asked the transfer to end.
    Stopped,
    /// The peer sent what is no control message.
    Malformed,
    Other,
}

/// An I/O failure: its kind and what to tell the user.
#[derive(Debug)]
pub struct IoError {
    pub kind: IoKind,
    pub message: String,
}

impl IoError {
    /// A failure of the given kind.
    pub fn new(kind: IoKind, message: &str) -> (r: IoError)
        ensures
            r.kind == kind,
            r.message@ == message@,
    {
        IoError { kind, message: message.to_owned() }
    }

    /// A failure of no particular kind.
    pub fn other(message: &str) -> (r: IoError)
        ensures
            r.kind == IoKind::Other,
            r.message@ == message@,
    {
        IoError::new(IoKind::Other, message)
    }
}

/// Whether a receive failed only because its timeout passed.
pub open spec fn timed_out(kind: IoKind) -> bool {
    kind == IoKind::WouldBlock || kind == IoKind::TimedOut
}

/// A classified transfer error.
#[derive(Debug)]
#[non_exhaustive]
pub enum GirthError {
    /// The control or data plane timed out (retryable).
    Timeout,
    /// The caller's cancellation flag fired.
    Stopped,
    /// The peer or authorizer rejected the session's auth token (terminal).
    AuthDenied,
    /// The requested object does not exist on the server (terminal).
    NotFound,
    /// Protocol version mismatch between peers (terminal).
    VersionMismatch,
    /// End-to-end CRC32C mismatch: the moved bytes are corrupt (terminal).
    Integrity,
    /// A malformed control message or peer protocol violation (terminal).
    Protocol(String),
    /// An underlying I/O error (socket, source, or sink).
    Io(IoError),
}

/// What the user is told of an error.
pub open spec fn error_text(e: GirthError) -> Seq<char> {
    match e {
        GirthError::Timeout => "transfer timed out"@,
        GirthError::Stopped => "transfer cancelled"@,
        GirthError::AuthDenied => "authentication denied"@,
        GirthError::NotFound => "object not found"@,
        GirthError::VersionMismatch => "protocol version mismatch"@,
        GirthError::Integrity => "integrity check failed (crc32c mismatch)"@,
        GirthError::Protocol(s) => "protocol error: "@ + s@,
        GirthError::Io(e) => "io error: "@ + e.message@,
    }
}

/// Whether a server's rejection says that the protocol versions differ.
pub open spec fn says_version_mismatch(msg: Seq<char>) -> bool {
    crate::text::occurs(crate::text::lowered(msg), "version mismatch"@)
}

/// Whether a server's rejection speaks of authentication.
pub open spec fn says_auth_denied(msg: Seq<char>) -> bool {
    let m = crate::text::lowered(msg);
    crate::text::occurs(m, "auth"@) || crate::text::occurs(m, "denied"@) || crate::text::occurs(
        m,
        "unauthorized"@,
    )
}

/// Whether a server's rejection says that the object does not exist.
pub open spec fn says_not_found(msg: Seq<char>) -> bool {
    let m = crate::text::lowered(msg);
    crate::text::occurs(m, "no such file"@) || crate::text::occurs(m, "not found"@)
        || crate::text::occurs(m, "notfound"@)
}

/// Whether `e` is how a server's rejection `msg` is classified.
pub open spec fn classifies(msg: Seq<char>, e: GirthError) -> bool {
    if says_version_mismatch(msg) {
        e is VersionMismatch
    } else if says_auth_denied(msg) {
        e is AuthDenied
    } else if says_not_found(msg) {
        e is NotFound
    } else {
        e is Protocol && e->Protocol_0@ == msg
    }
}

impl GirthError {
    /// Reports whether retrying the transfer is sensible. Only transient
    /// conditions are retryable.
    pub fn is_retryable(&self) -> (r: bool)
        ensures
            r == (*self is Timeout),
    {
        matches!(self, GirthError::Timeout)
    }

    /// Classifies a server's rejection text into a typed error; unknown text
    /// becomes `Protocol`.
    pub fn from_server_err(msg: &str) -> (r: GirthError)
        ensures
            classifies(msg@, r),
    {
        let m = to_lower(msg);
        if contains(m.as_slice(), "version mismatch") {
            GirthError::VersionMismatch
        } else if contains(m.as_slice(), "auth") || contains(m.as_slice(), "denied") || contains(
            m.as_slice(),
            "unauthorized",
        ) {
            GirthError::AuthDenied
        } else if contains(m.as_slice(), "no such file") || contains(m.as_slice(), "not found")
            || contains(m.as_slice(), "notfound") {
            GirthError::NotFound
        } else {
            GirthError::Protocol(msg.to_owned())
        }
    }

    /// What the user is told.
    pub fn message(&self) -> (r: String)
        ensures
            r@ == error_text(*self),
    {
        match self {
            GirthError::Timeout => "transfer timed out".to_owned(),
            GirthError::Stopped => "transfer cancelled".to_owned(),
            GirthError::AuthDenied => "authentication denied".to_owned(),
            GirthError::NotFound => "object not found".to_owned(),
            GirthError::VersionMismatch => "protocol version mismatch".to_owned(),
            GirthError::Integrity => "integrity check failed (crc32c mismatch)".to_owned(),
            GirthError::Protocol(s) => joined("protocol error: ", s.as_str()),
            GirthError::Io(e) => joined("io error: ", e.message.as_str()),
        }
    }

    /// The I/O failure inside, or the error as an I/O failure of no particular
    /// kind.
    pub fn into_io(self) -> (r: IoError)
        ensures
            match self {
                GirthError::Io(e) => r == e,
                _ => r.kind == IoKind::Other && r.message@ == error_text(self),
            },
    {
        match self {
            GirthError::Io(e) => e,
            other => IoError { kind: IoKind::Other, message: other.message() },
        }
    }
}

/// How an I/O failure is classified: timeouts, absent objects, stops and malformed
/// messages by what they mean for a transfer, the rest as they are.
pub open spec fn from_io(e: IoError) -> GirthError {
    match e.kind {
        IoKind::TimedOut => GirthError::Timeout,
        IoKind::WouldBlock => GirthError::Timeout,
        IoKind::NotFound => GirthError::NotFound,
        IoKind::Stopped => GirthError::Stopped,
        IoKind::Malformed => GirthError::Protocol(e.message),
        _ => GirthError::Io(e),
    }
}

impl From<IoError> for GirthError {
    fn from(e: IoError) -> (r: GirthError) {
        match e.kind {
            IoKind::TimedOut => GirthError::Timeout,
            IoKind::WouldBlock => GirthError::Timeout,
            IoKind::NotFound => GirthError::NotFound,
            IoKind::Stopped => GirthError::Stopped,
            IoKind::Malformed => GirthError::Protocol(e.message),
            _ => GirthError::Io(e),
        }
    }
}

impl FromSpecImpl<IoError> for GirthError {
    open spec fn obeys_from_spec() -> bool {
        true
    }

    open spec fn from_spec(e: IoError) -> GirthError {
        from_io(e)
    }
}

/// Law: an I/O failure leads to a retry exactly when it is a timeout.
pub proof fn io_failure_retryable_iff_timeout(e: IoError)
    ensures
        (from_io(e) is Timeout) == timed_out(e.kind),
{
}

/// Law: an I/O failure tells that the caller asked to end exactly when it came
/// from that.
pub proof fn stop_is_told_iff_stopped(e: IoError)
    ensures
        (from_io(e) is Stopped) == (e.kind == IoKind::Stopped),
{
}

/// Law: a server's rejection never leads to a retry; each one is terminal.
pub proof fn rejections_are_terminal(msg: Seq<char>, e: GirthError)
    requires
        classifies(msg, e),
    ensures
        !(e is Timeout),
{
}

} // verus!
