//! A guard that refuses every change to a store.

use crate::error::{Error, ErrorKind, ErrorView};
use crate::vfs::Operation;
use vstd::prelude::*;

verus! {

/// Whether `op` changes a store.
pub open spec fn changes(op: Operation) -> bool {
    match op {
        Operation::CreateDir
        | Operation::Write
        | Operation::Delete
        | Operation::Copy
        | Operation::Rename => true,
        Operation::Stat | Operation::Read | Operation::List | Operation::Presign => false,
    }
}

/// What is answered to a change.
pub open spec fn read_only_view() -> ErrorView {
    ErrorView::plain(ErrorKind::PermissionDenied, "read-only mount point"@).with(
        "layer"@,
        "ReadOnlyLayer"@,
    )
}

/// Rejects all changes with [`ErrorKind::PermissionDenied`], and passes
/// everything else on to the guarded store.
#[derive(Clone, Copy, Debug, PartialEq, Eq, Structural)]
pub struct ReadOnlyLayer;

impl ReadOnlyLayer {
    /// Whether `op` is passed on.
    pub fn check(&self, op: Operation) -> (r: Result<(), Error>)
        ensures
            match r {
                Ok(_) => !changes(op),
                Err(e) => changes(op) && e@ == read_only_view(),
            },
    {
        match op {
            Operation::CreateDir
            | Operation::Write
            | Operation::Delete
            | Operation::Copy
            | Operation::Rename => Err(
                Error::new(
                    ErrorKind::PermissionDenied,
                    "read-only mount point".to_owned(),
                ).with_context("layer", "ReadOnlyLayer".to_owned()),
            ),
            Operation::Stat | Operation::Read | Operation::List | Operation::Presign => Ok(()),
        }
    }
}

// ── Laws ────────────────────────────────────────────────────────────────────

/// What is only read is passed on, and every change is denied.
pub proof fn law_every_change_is_denied(l: &ReadOnlyLayer, op: Operation, r: Result<(), Error>)
    requires
        call_ensures(ReadOnlyLayer::check, (l, op), r),
    ensures
        r is Err <==> op == Operation::CreateDir || op == Operation::Write || op
            == Operation::Delete || op == Operation::Copy || op == Operation::Rename,
        r matches Err(e) ==> e.kind == ErrorKind::PermissionDenied && e.message@
            == "read-only mount point"@,
{
}

} // verus!
