//! Internal failure categories and bounded human-readable errors.

use vstd::prelude::*;

verus! {

/// Internal failure category before conversion to a Nushell error.
///
/// These names are internal and are not a stable machine-readable public API.
#[derive(Debug, Clone, Copy, PartialEq, Eq, Structural)]
pub enum ErrorKind {
    InvalidPath,
    UnsupportedPlatform,
    InvalidHerdrContext,
    InvalidConfiguration,
    IncompatibleHerdr,
    HerdrTimeout,
    HerdrTransport,
    HerdrProtocol,
    HerdrAction,
}

/// The snake-case name of each error kind.
pub open spec fn kind_name(kind: ErrorKind) -> Seq<char> {
    match kind {
        ErrorKind::InvalidPath => "invalid_path"@,
        ErrorKind::UnsupportedPlatform => "unsupported_platform"@,
        ErrorKind::InvalidHerdrContext => "invalid_herdr_context"@,
        ErrorKind::InvalidConfiguration => "invalid_configuration"@,
        ErrorKind::IncompatibleHerdr => "incompatible_herdr"@,
        ErrorKind::HerdrTimeout => "herdr_timeout"@,
        ErrorKind::HerdrTransport => "herdr_transport"@,
        ErrorKind::HerdrProtocol => "herdr_protocol"@,
        ErrorKind::HerdrAction => "herdr_action"@,
    }
}

impl ErrorKind {
    pub fn as_str(self) -> (s: &'static str)
        ensures
            s@ == kind_name(self),
    {
        match self {
            Self::InvalidPath => "invalid_path",
            Self::UnsupportedPlatform => "unsupported_platform",
            Self::InvalidHerdrContext => "invalid_herdr_context",
            Self::InvalidConfiguration => "invalid_configuration",
            Self::IncompatibleHerdr => "incompatible_herdr",
            Self::HerdrTimeout => "herdr_timeout",
            Self::HerdrTransport => "herdr_transport",
            Self::HerdrProtocol => "herdr_protocol",
            Self::HerdrAction => "herdr_action",
        }
    }

    /// The kind's name as an owned string.
    pub fn to_string(self) -> (s: String)
        ensures
            s@ == kind_name(self),
    {
        String::from_str(self.as_str())
    }
}

/// Domain failure with an internal kind and a bounded human-readable message.
#[derive(Debug, Clone, PartialEq, Eq)]
pub struct Error {
    kind: ErrorKind,
    message: String,
}

/// Abstract value of an error: its kind and the characters of its message.
pub struct ErrorView {
    pub kind: ErrorKind,
    pub message: Seq<char>,
}

impl View for Error {
    type V = ErrorView;

    closed spec fn view(&self) -> ErrorView {
        ErrorView { kind: self.kind, message: self.message@ }
    }
}

impl Error {
    pub fn new(kind: ErrorKind, message: String) -> (e: Self)
        ensures
            e@ == (ErrorView { kind, message: message@ }),
    {
        Self { kind, message }
    }

    pub fn invalid_path(message: String) -> (e: Self)
        ensures
            e@ == (ErrorView { kind: ErrorKind::InvalidPath, message: message@ }),
    {
        Self::new(ErrorKind::InvalidPath, message)
    }

    pub fn unsupported_platform(message: String) -> (e: Self)
        ensures
            e@ == (ErrorView { kind: ErrorKind::UnsupportedPlatform, message: message@ }),
    {
        Self::new(ErrorKind::UnsupportedPlatform, message)
    }

    pub fn invalid_herdr_context(message: String) -> (e: Self)
        ensures
            e@ == (ErrorView { kind: ErrorKind::InvalidHerdrContext, message: message@ }),
    {
        Self::new(ErrorKind::InvalidHerdrContext, message)
    }

    pub fn invalid_configuration(message: String) -> (e: Self)
        ensures
            e@ == (ErrorView { kind: ErrorKind::InvalidConfiguration, message: message@ }),
    {
        Self::new(ErrorKind::InvalidConfiguration, message)
    }

    pub fn incompatible_herdr(message: String) -> (e: Self)
        ensures
            e@ == (ErrorView { kind: ErrorKind::IncompatibleHerdr, message: message@ }),
    {
        Self::new(ErrorKind::IncompatibleHerdr, message)
    }

    pub fn herdr_timeout(message: String) -> (e: Self)
        ensures
            e@ == (ErrorView { kind: ErrorKind::HerdrTimeout, message: message@ }),
    {
        Self::new(ErrorKind::HerdrTimeout, message)
    }

    pub fn herdr_transport(message: String) -> (e: Self)
        ensures
            e@ == (ErrorView { kind: ErrorKind::HerdrTransport, message: message@ }),
    {
        Self::new(ErrorKind::HerdrTransport, message)
    }

    pub fn herdr_protocol(message: String) -> (e: Self)
        ensures
            e@ == (ErrorView { kind: ErrorKind::HerdrProtocol, message: message@ }),
    {
        Self::new(ErrorKind::HerdrProtocol, message)
    }

    pub fn herdr_action(message: String) -> (e: Self)
        ensures
            e@ == (ErrorView { kind: ErrorKind::HerdrAction, message: message@ }),
    {
        Self::new(ErrorKind::HerdrAction, message)
    }

    pub fn kind(&self) -> (k: ErrorKind)
        ensures
            k == self@.kind,
    {
        self.kind
    }

    pub fn message(&self) -> (m: &str)
        ensures
            m@ == self@.message,
    {
        self.message.as_str()
    }

    /// A copy of this error.
    pub fn duplicate(&self) -> (e: Self)
        ensures
            e@ == self@,
    {
        Self { kind: self.kind, message: self.message.clone() }
    }
}

/// Failure of one bounded Herdr step, including an interruption that must
/// surface as Nushell's interrupt error.
#[derive(Debug, Clone, PartialEq, Eq)]
pub enum RunError {
    Failed(Error),
    Interrupted,
}

/// Abstract value of a run failure.
pub enum RunErrorView {
    Failed(ErrorView),
    Interrupted,
}

impl View for RunError {
    type V = RunErrorView;

    open spec fn view(&self) -> RunErrorView {
        match self {
            RunError::Failed(e) => RunErrorView::Failed(e@),
            RunError::Interrupted => RunErrorView::Interrupted,
        }
    }
}

/// Source span of a Nushell value or call head.
#[derive(Debug, Clone, Copy, PartialEq, Eq, Structural)]
pub struct Span {
    pub start: usize,
    pub end: usize,
}

impl Span {
    pub fn new(start: usize, end: usize) -> (s: Self)
        ensures
            s == (Span { start, end }),
    {
        Span { start, end }
    }
}

} // verus!
