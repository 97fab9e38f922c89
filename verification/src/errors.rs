//! The error type shared by the workers.

use vstd::prelude::*;
use crate::text::{append_chars, from_chars, to_chars};

verus! {

/// What can go wrong in a worker. Each kind carries the words of the
/// failure as the failing system gave them.
#[derive(Debug)]
pub enum Error {
    /// An SMTP operation failed.
    Smtp(String),
    /// An IMAP operation failed.
    Imap(String),
    /// A message-bus socket failed.
    Zmq(String),
    /// A secure connection could not be set up.
    Tls(String),
    /// The store failed.
    Repository(String),
    /// The store's connection pool could not be built or gave no connection.
    Pool(String),
    /// The environment or a hub's configuration is incomplete.
    Config(String),
    /// The message-bus sender failed.
    ZmqSender(String),
    /// A message could not be parsed as MIME.
    Parse(String),
}

impl Error {
    /// The words that introduce an error of this kind.
    pub open spec fn prefix(self) -> Seq<char> {
        match self {
            Error::Smtp(_) => "smtp error: "@,
            Error::Imap(_) => "imap error: "@,
            Error::Zmq(_) => "zmq error: "@,
            Error::Tls(_) => "tls error: "@,
            Error::Repository(_) => "repository error: "@,
            Error::Pool(_) => "database pool error: "@,
            Error::Config(_) => "configuration error: "@,
            Error::ZmqSender(_) => "zmq sender error: "@,
            Error::Parse(_) => "parse error: "@,
        }
    }

    /// The words of the failure.
    pub open spec fn detail(self) -> Seq<char> {
        match self {
            Error::Smtp(m) => m@,
            Error::Imap(m) => m@,
            Error::Zmq(m) => m@,
            Error::Tls(m) => m@,
            Error::Repository(m) => m@,
            Error::Pool(m) => m@,
            Error::Config(m) => m@,
            Error::ZmqSender(m) => m@,
            Error::Parse(m) => m@,
        }
    }

    /// The error in one line: its kind, then the words of the failure.
    pub fn message(&self) -> (text: String)
        ensures
            text@ == self.prefix() + self.detail(),
    {
        let (prefix, detail) = match self {
            Error::Smtp(m) => ("smtp error: ", m),
            Error::Imap(m) => ("imap error: ", m),
            Error::Zmq(m) => ("zmq error: ", m),
            Error::Tls(m) => ("tls error: ", m),
            Error::Repository(m) => ("repository error: ", m),
            Error::Pool(m) => ("database pool error: ", m),
            Error::Config(m) => ("configuration error: ", m),
            Error::ZmqSender(m) => ("zmq sender error: ", m),
            Error::Parse(m) => ("parse error: ", m),
        };
        let mut out = to_chars(prefix);
        let tail = to_chars(detail.as_str());
        append_chars(&mut out, &tail);
        from_chars(&out)
    }
}

} // verus!
