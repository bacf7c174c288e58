//! Outcomes reported to callers of the service, and failures reported by the
//! storage layer.

use vstd::prelude::*;

verus! {

/// Category of a [`Status`].
#[derive(Clone, Copy, Debug, PartialEq, Eq, Structural)]
pub enum Code {
    InvalidArgument,
    NotFound,
    PermissionDenied,
    ResourceExhausted,
    Internal,
}

/// What a [`Status`] says.
#[verifier::ext_equal]
pub struct StatusView {
    pub code: Code,
    pub message: Seq<char>,
}

/// Why a request was refused: a category and a message for the caller.
#[derive(Debug)]
pub struct Status {
    pub code: Code,
    pub message: String,
}

impl View for Status {
    type V = StatusView;

    open spec fn view(&self) -> StatusView {
        StatusView { code: self.code, message: self.message@ }
    }
}

/// The request makes no sense.
pub open spec fn invalid(message: Seq<char>) -> StatusView {
    StatusView { code: Code::InvalidArgument, message }
}

/// What was asked for is not there.
pub open spec fn missing(message: Seq<char>) -> StatusView {
    StatusView { code: Code::NotFound, message }
}

/// What was asked for is not allowed.
pub open spec fn denied(message: Seq<char>) -> StatusView {
    StatusView { code: Code::PermissionDenied, message }
}

/// A limit would be exceeded.
pub open spec fn exhausted(message: Seq<char>) -> StatusView {
    StatusView { code: Code::ResourceExhausted, message }
}

/// Something below the service failed.
pub open spec fn failed(message: Seq<char>) -> StatusView {
    StatusView { code: Code::Internal, message }
}

impl Status {
    pub fn invalid_argument(message: String) -> (r: Self)
        ensures
            r@ == invalid(message@),
    {
        Status { code: Code::InvalidArgument, message }
    }

    pub fn not_found(message: String) -> (r: Self)
        ensures
            r@ == missing(message@),
    {
        Status { code: Code::NotFound, message }
    }

    pub fn permission_denied(message: String) -> (r: Self)
        ensures
            r@ == denied(message@),
    {
        Status { code: Code::PermissionDenied, message }
    }

    pub fn resource_exhausted(message: String) -> (r: Self)
        ensures
            r@ == exhausted(message@),
    {
        Status { code: Code::ResourceExhausted, message }
    }

    pub fn internal(message: String) -> (r: Self)
        ensures
            r@ == failed(message@),
    {
        Status { code: Code::Internal, message }
    }
}

/// The kinds of input/output failure that are told apart.
#[derive(Clone, Copy, Debug, PartialEq, Eq, Structural)]
pub enum IoErrorKind {
    NotFound,
    PermissionDenied,
    Other,
}

/// The category under which an input/output failure is reported.
pub open spec fn io_code(kind: IoErrorKind) -> Code {
    match kind {
        IoErrorKind::NotFound => Code::NotFound,
        IoErrorKind::PermissionDenied => Code::PermissionDenied,
        IoErrorKind::Other => Code::Internal,
    }
}

/// Maps an I/O failure, given by its kind and its text, to the closest
/// matching status.
pub fn io_status(kind: IoErrorKind, text: String) -> (r: Status)
    ensures
        r@ == (StatusView { code: io_code(kind), message: text@ }),
{
    match kind {
        IoErrorKind::NotFound => Status::not_found(text),
        IoErrorKind::PermissionDenied => Status::permission_denied(text),
        IoErrorKind::Other => Status::internal(text),
    }
}

// ── Laws ────────────────────────────────────────────────────────────────────

/// A failure is reported with its own text, and as one that a caller can act
/// on only where it is.
pub proof fn law_io_failures_keep_their_kind(kind: IoErrorKind, text: String, r: Status)
    requires
        call_ensures(io_status, (kind, text), r),
    ensures
        r.message@ == text@,
        r.code == Code::NotFound <==> kind == IoErrorKind::NotFound,
        r.code == Code::PermissionDenied <==> kind == IoErrorKind::PermissionDenied,
        r.code == Code::Internal <==> kind == IoErrorKind::Other,
{
}

/// Each way to refuse a request keeps the message and has a category of its
/// own.
pub proof fn law_refusals_have_their_category(
    message: String,
    a: Status,
    b: Status,
    c: Status,
    d: Status,
    e: Status,
)
    requires
        call_ensures(Status::invalid_argument, (message,), a),
        call_ensures(Status::not_found, (message,), b),
        call_ensures(Status::permission_denied, (message,), c),
        call_ensures(Status::resource_exhausted, (message,), d),
        call_ensures(Status::internal, (message,), e),
    ensures
        a.code == Code::InvalidArgument && a.message@ == message@,
        b.code == Code::NotFound && b.message@ == message@,
        c.code == Code::PermissionDenied && c.message@ == message@,
        d.code == Code::ResourceExhausted && d.message@ == message@,
        e.code == Code::Internal && e.message@ == message@,
{
}

} // verus!
