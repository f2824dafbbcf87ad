use vstd::prelude::*;

verus! {

/// What went wrong, by kind.
#[derive(PartialEq, Eq, Structural, Clone, Copy, Debug)]
pub enum ErrorKind {
    /// The provider handed to a transport is of another protocol.
    WrongProvider,
    /// The provider lacks something the transport needs (a command, a URL, a base path).
    MissingConfiguration,
    /// The configured command line holds no word.
    EmptyCommand,
    /// The transport cannot stream results.
    StreamingUnsupported,
    /// The credentials are of a kind or location this transport cannot send.
    UnsupportedAuth,
    /// The HTTP method is none of GET, POST, PUT, DELETE, PATCH.
    UnsupportedMethod,
    /// No script for the tool was found.
    ScriptNotFound,
    /// A local tool process exited with failure.
    ToolFailed,
    /// The remote side answered with a failure status.
    RequestFailed,
    /// The remote side reported an error in its reply.
    RemoteError,
    /// A reply lacks what the protocol requires in it.
    InvalidResponse,
    /// A reply or stream item is not valid JSON.
    Parse,
    /// The stream was cut in the middle of a JSON value.
    IncompleteFrame,
    /// A URL could not be parsed.
    InvalidUrl,
}

/// An error of a transport: its kind and its human-readable message.
#[derive(Clone, Debug, PartialEq)]
pub struct TransportError {
    pub kind: ErrorKind,
    pub message: String,
}

impl TransportError {
    /// An error of kind `kind` whose message is `message`.
    pub fn new(kind: ErrorKind, message: &str) -> (r: TransportError)
        ensures
            r.kind == kind,
            r.message@ == message@,
    {
        TransportError { kind, message: crate::chars::owned(message) }
    }

    /// An error of kind `kind` whose message is already built.
    pub fn with_message(kind: ErrorKind, message: String) -> (r: TransportError)
        ensures
            r.kind == kind,
            r.message@ == message@,
    {
        TransportError { kind, message }
    }

    /// A copy of this error.
    pub fn duplicate(&self) -> (r: TransportError)
        ensures
            r.kind == self.kind,
            r.message@ == self.message@,
    {
        TransportError { kind: self.kind, message: self.message.clone() }
    }

    /// The error message.
    pub fn message(&self) -> (r: String)
        ensures
            r@ == self.message@,
    {
        self.message.clone()
    }
}

/// Whether `r` is an error of kind `k` with message `m`.
pub open spec fn is_error<T>(r: Result<T, TransportError>, k: ErrorKind, m: Seq<char>) -> bool {
    r matches Err(e) && e.kind == k && e.message@ == m
}

} // verus!
