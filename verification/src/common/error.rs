//! The error type of the library.

use vstd::prelude::*;

verus! {

/// Everything that can go wrong in the proxy, with a message for the operator.
#[derive(Debug, Clone, PartialEq, Eq)]
pub enum InterlinkError {
    /// A TLS failure; the message is that of the TLS stack.
    Tls(String),
    /// An I/O failure.
    Io(String),
    Protocol(String),
    Identity(String),
    PolicyViolation(String),
    DnsResolution(String),
    Config(String),
}

/// The category of an error.
pub enum ErrorKind {
    Tls,
    Io,
    Protocol,
    Identity,
    PolicyViolation,
    DnsResolution,
    Config,
}

/// An error as a value.
pub struct Fault {
    pub kind: ErrorKind,
    pub message: Seq<char>,
}

impl View for InterlinkError {
    type V = Fault;

    open spec fn view(&self) -> Fault {
        match self {
            InterlinkError::Tls(m) => Fault { kind: ErrorKind::Tls, message: m@ },
            InterlinkError::Io(m) => Fault { kind: ErrorKind::Io, message: m@ },
            InterlinkError::Protocol(m) => Fault { kind: ErrorKind::Protocol, message: m@ },
            InterlinkError::Identity(m) => Fault { kind: ErrorKind::Identity, message: m@ },
            InterlinkError::PolicyViolation(m) => Fault {
                kind: ErrorKind::PolicyViolation,
                message: m@,
            },
            InterlinkError::DnsResolution(m) => Fault {
                kind: ErrorKind::DnsResolution,
                message: m@,
            },
            InterlinkError::Config(m) => Fault { kind: ErrorKind::Config, message: m@ },
        }
    }
}

/// The text shown to an operator: the category of the error, then its message.
pub open spec fn error_text(error: InterlinkError) -> Seq<char> {
    match error {
        InterlinkError::Tls(m) => "TLS error: "@ + m@,
        InterlinkError::Io(m) => "I/O error: "@ + m@,
        InterlinkError::Protocol(m) => "Protocol error: "@ + m@,
        InterlinkError::Identity(m) => "Identity error: "@ + m@,
        InterlinkError::PolicyViolation(m) => "Policy violation: "@ + m@,
        InterlinkError::DnsResolution(m) => "DNS resolution failed: "@ + m@,
        InterlinkError::Config(m) => "Configuration error: "@ + m@,
    }
}

impl InterlinkError {
    /// Renders the error for an operator.
    pub fn message(&self) -> (text: String)
        ensures
            text@ == error_text(*self),
    {
        match self {
            InterlinkError::Tls(m) => "TLS error: ".to_owned().concat(m.as_str()),
            InterlinkError::Io(m) => "I/O error: ".to_owned().concat(m.as_str()),
            InterlinkError::Protocol(m) => "Protocol error: ".to_owned().concat(m.as_str()),
            InterlinkError::Identity(m) => "Identity error: ".to_owned().concat(m.as_str()),
            InterlinkError::PolicyViolation(m) => "Policy violation: ".to_owned().concat(
                m.as_str(),
            ),
            InterlinkError::DnsResolution(m) => "DNS resolution failed: ".to_owned().concat(
                m.as_str(),
            ),
            InterlinkError::Config(m) => "Configuration error: ".to_owned().concat(m.as_str()),
        }
    }
}

} // verus!
