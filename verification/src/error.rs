//! Errors of the storage layer.

use vstd::prelude::*;

verus! {

/// Category of an [`Error`].
#[derive(Clone, Copy, Debug, PartialEq, Eq, Structural)]
pub enum ErrorKind {
    Unexpected,
    Unsupported,
    ConfigInvalid,
    NotFound,
    PermissionDenied,
    IsADirectory,
    NotADirectory,
    AlreadyExists,
    RateLimited,
    IsSameFile,
    ConditionNotMatch,
    RangeNotSatisfied,
    Conflict,
}

/// What an [`Error`] says.
#[verifier::ext_equal]
pub struct ErrorView {
    pub kind: ErrorKind,
    pub message: Seq<char>,
    pub context: Seq<(Seq<char>, Seq<char>)>,
}

impl ErrorView {
    /// An error without context.
    pub open spec fn plain(kind: ErrorKind, message: Seq<char>) -> Self {
        ErrorView { kind, message, context: Seq::empty() }
    }

    /// The error with one more piece of context.
    pub open spec fn with(self, key: Seq<char>, value: Seq<char>) -> Self {
        ErrorView { context: self.context.push((key, value)), ..self }
    }
}

/// An error of the storage layer: a category, a message, and named pieces of
/// context in the order in which they were added.
#[derive(Debug)]
pub struct Error {
    pub kind: ErrorKind,
    pub message: String,
    pub context: Vec<(&'static str, String)>,
}

impl View for Error {
    type V = ErrorView;

    open spec fn view(&self) -> ErrorView {
        ErrorView {
            kind: self.kind,
            message: self.message@,
            context: self.context@.map_values(|c: (&'static str, String)| (c.0@, c.1@)),
        }
    }
}

impl Error {
    /// An error with neither context nor source.
    pub fn new(kind: ErrorKind, message: String) -> (r: Self)
        ensures
            r@ == ErrorView::plain(kind, message@),
    {
        let r = Error { kind, message, context: Vec::new() };
        assert(r@.context =~= Seq::empty());
        r
    }

    /// The error with one more piece of context.
    pub fn with_context(self, key: &'static str, value: String) -> (r: Self)
        ensures
            r@ == self@.with(key@, value@),
    {
        let mut context = self.context;
        context.push((key, value));
        let r = Error { kind: self.kind, message: self.message, context };
        assert(r@.context =~= self@.context.push((key@, value@)));
        r
    }

    /// The category of the error.
    pub fn kind(&self) -> (r: ErrorKind)
        ensures
            r == self@.kind,
    {
        self.kind
    }
}

// ── Laws ────────────────────────────────────────────────────────────────────

/// An error keeps its category and message while context is added to it, and
/// keeps its context in the order in which it was added.
pub proof fn law_context_is_added_last(
    kind: ErrorKind,
    message: String,
    e: Error,
    key: &'static str,
    value: String,
    r: Error,
)
    requires
        call_ensures(Error::new, (kind, message), e),
        call_ensures(Error::with_context, (e, key, value), r),
    ensures
        e.kind == kind && e.message@ == message@ && e.context@.len() == 0,
        r.kind == kind && r.message@ == message@ && r.context@.len() == 1,
        r.context@[0].0@ == key@ && r.context@[0].1@ == value@,
{
    assert(e@.context.len() == 0);
    assert(r@.context.len() == 1);
    assert(r@.context[0] == (key@, value@));
}

} // verus!
