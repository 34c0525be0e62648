//! Failures of the session and of the steps that it plans.

use vstd::prelude::*;

verus! {

/// What went wrong, by who can mend it.
#[derive(Clone, Copy, Debug, PartialEq, Eq, Structural)]
pub enum ErrorKind {
    /// A dependency was asked for by a name that no lock file gave.
    NotDeclared,
    /// The operation is not available for this kind of dependency.
    Unsupported,
    /// A lock file holds something that cannot be read.
    Invalid,
    /// The file system or the version control tool failed.
    Environment,
    /// A job was driven against its own instructions.
    Misuse,
}

/// A failure: its kind, a message, and the messages of the failures that led
/// to it, the nearest first.
#[derive(Debug, PartialEq, Eq)]
pub struct Error {
    pub kind: ErrorKind,
    pub msg: String,
    pub causes: Vec<String>,
}

/// The mathematical value of an [`Error`].
pub struct ErrorView {
    pub kind: ErrorKind,
    pub msg: Seq<char>,
    pub causes: Seq<Seq<char>>,
}

impl View for Error {
    type V = ErrorView;

    open spec fn view(&self) -> ErrorView {
        ErrorView { kind: self.kind, msg: self.msg@, causes: self.causes.deep_view() }
    }
}

impl DeepView for Error {
    type V = ErrorView;

    open spec fn deep_view(&self) -> ErrorView {
        self@
    }
}

/// A failure with `msg` that `cause` led to: it keeps the message of
/// `cause` and of everything that led to `cause`.
pub open spec fn chained(msg: Seq<char>, cause: ErrorView) -> ErrorView {
    ErrorView { kind: ErrorKind::Environment, msg: msg, causes: seq![cause.msg] + cause.causes }
}

impl Error {
    /// A failure that nothing led to.
    pub fn new(kind: ErrorKind, msg: String) -> (r: Error)
        ensures
            r@ == (ErrorView { kind: kind, msg: msg@, causes: Seq::empty() }),
    {
        let r = Error { kind: kind, msg: msg, causes: Vec::new() };
        assert(r.causes.deep_view() =~= Seq::<Seq<char>>::empty());
        r
    }

    /// A failure of the environment that `cause` led to.
    pub fn chain(msg: String, cause: Error) -> (r: Error)
        ensures
            r@ == chained(msg@, cause@),
    {
        let mut causes = cause.causes;
        let ghost earlier = causes.deep_view();
        let ghost first = cause.msg@;
        causes.insert(0, cause.msg);
        assert(causes.deep_view() =~= seq![first] + earlier);
        Error { kind: ErrorKind::Environment, msg: msg, causes: causes }
    }
}

} // verus!
