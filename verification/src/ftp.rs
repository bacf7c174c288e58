//! Logging in, and uploads.

use crate::model::{VfsPoint, VfsUser};
use crate::text::same;
use crate::utils::{data_path, is_local, is_local_scheme, resolve_data_path};
use vstd::prelude::*;

verus! {

/// Why a login was refused.
#[derive(Clone, Copy, Debug, PartialEq, Eq, Structural)]
pub enum LoginError {
    BadUser,
    BadPassword,
}

/// Checks a login: the user must exist, and the password must be its own. No
/// password counts as an empty one.
pub fn authenticate(user: Option<&VfsUser>, password: &Option<String>) -> (r: Result<
    (),
    LoginError,
>)
    ensures
        r == match user {
            None => Err::<(), LoginError>(LoginError::BadUser),
            Some(u) => {
                let given = match *password {
                    Some(p) => p@,
                    None => Seq::empty(),
                };
                if u@.password == given {
                    Ok::<(), LoginError>(())
                } else {
                    Err::<(), LoginError>(LoginError::BadPassword)
                }
            },
        },
{
    match user {
        None => Err(LoginError::BadUser),
        Some(u) => {
            let matches = match password {
                Some(p) => same(u.password.as_str(), p.as_str()),
                None => {
                    assert(u.password@.len() == 0 ==> u.password@ =~= Seq::<char>::empty());
                    u.password.as_str().is_empty()
                },
            };
            if matches {
                Ok(())
            } else {
                Err(LoginError::BadPassword)
            }
        },
    }
}

/// The point on local disk that an upload to `path` lands in and its limit,
/// where both are there: it must be measured first.
pub fn limited_point<'a>(user: &'a VfsUser, path: &str) -> (r: Option<(&'a VfsPoint, u64)>)
    ensures
        match r {
            Some((point, max)) => data_path(user@.points, path@) matches Ok(found) && found.0
                == point@ && is_local(point@.scheme) && point@.max_bytes == Some(max),
            None => data_path(user@.points, path@) matches Ok(found) ==> !is_local(found.0.scheme)
                || found.0.max_bytes is None,
        },
{
    match resolve_data_path(user, path) {
        Ok((point, _)) => {
            if !is_local_scheme(point.scheme.as_str()) {
                return None;
            }
            match point.max_bytes {
                Some(max) => Some((point, max)),
                None => None,
            }
        },
        Err(_) => None,
    }
}

/// Checks that a point on local disk that holds `used` bytes is not full. An
/// upload has no known size, so no more can be checked before it starts.
pub fn check_upload(point: &VfsPoint, used: u64, max: u64) -> (r: Result<(), String>)
    ensures
        match r {
            Ok(_) => used < max,
            Err(text) => used >= max && text@ == "point '"@ + point@.name
                + "' is already at or over its byte quota"@,
        },
{
    if used >= max {
        Err(
            "point '".to_owned().concat(point.name.as_str()).concat(
                "' is already at or over its byte quota",
            ),
        )
    } else {
        Ok(())
    }
}

// ── Laws ────────────────────────────────────────────────────────────────────

/// A user logs in with its own password and no other; where none is given, only
/// a user without a password does. Nobody logs in as a user that is not there.
pub proof fn law_only_the_own_password_logs_in(
    user: Option<&VfsUser>,
    password: &Option<String>,
    r: Result<(), LoginError>,
)
    requires
        call_ensures(authenticate, (user, password), r),
    ensures
        user is None <==> r == Err::<(), LoginError>(LoginError::BadUser),
        user matches Some(u) ==> match *password {
            Some(p) => r is Ok <==> p@ == u.password@,
            None => r is Ok <==> u.password@.len() == 0,
        },
        user is Some && r is Err ==> r == Err::<(), LoginError>(LoginError::BadPassword),
{
    if let Some(u) = user {
        if u.password@.len() == 0 {
            assert(u.password@ =~= Seq::<char>::empty());
        }
    }
}

/// An upload is measured first exactly where it lands in a point on local disk
/// that has a limit, and against that limit.
pub proof fn law_uploads_are_measured_under_a_limit<'a>(
    user: &'a VfsUser,
    path: &str,
    at: Result<(&'a VfsPoint, String), crate::status::Status>,
    r: Option<(&'a VfsPoint, u64)>,
)
    requires
        call_ensures(resolve_data_path, (user, path), at),
        call_ensures(limited_point, (user, path), r),
    ensures
        at is Err ==> r is None,
        at matches Ok((p, _)) ==> (r is Some <==> p.scheme@ == seq!['f', 's'] && p.max_bytes
            is Some),
        r matches Some((p, max)) ==> (at matches Ok((q, _)) && p@ == q@ && q.max_bytes == Some(
            max,
        )),
{
    reveal_strlit("fs");
    assert("fs"@ =~= seq!['f', 's']);
}

/// An upload is let in exactly while the point is not full.
pub proof fn law_full_points_take_no_upload(
    point: &VfsPoint,
    used: u64,
    max: u64,
    r: Result<(), String>,
)
    requires
        call_ensures(check_upload, (point, used, max), r),
    ensures
        r is Ok <==> used < max,
        r matches Err(text) ==> text@ == "point '"@ + point.name@
            + "' is already at or over its byte quota"@,
{
}

} // verus!
