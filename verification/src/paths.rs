//! Absolute paths as texts.

use vstd::prelude::*;

use crate::error;
use crate::error::{ClassifiedError, ErrorKind};
use crate::text;

verus! {

pub const MAX_PATH_BYTES: usize = 4 * 1024;

/// Whether a path is bounded: not empty, not too long, without NUL.
pub open spec fn bounded_path(path: Seq<char>) -> bool {
    path.len() > 0 && text::byte_len(path) <= MAX_PATH_BYTES && !path.contains('\0')
}

/// Whether a path is bounded and absolute.
pub open spec fn absolute_path(path: Seq<char>) -> bool {
    bounded_path(path) && path[0] == '/'
}

/// A relative path below a directory.
pub open spec fn path_below(directory: Seq<char>, rest: Seq<char>) -> Seq<char> {
    if directory.len() > 0 && directory.last() == '/' {
        directory + rest
    } else {
        directory + "/"@ + rest
    }
}

/// Checks that a path is bounded.
pub fn validate_path_bound(path: &str) -> (r: Result<(), ClassifiedError>)
    ensures
        match r {
            Ok(_) => bounded_path(path@),
            Err(e) => !bounded_path(path@) && e == error::plain(ErrorKind::Api),
        },
{
    let chars = text::chars_of(path);
    let nul = text::position(chars.as_slice(), '\0', 0);
    proof {
        text::lemma_find_char_bounds(path@, '\0', 0);
        if nul is Some {
            assert(path@[nul->0 as int] == '\0');
        }
    }
    if chars.len() == 0 || path.len() > MAX_PATH_BYTES || nul.is_some() {
        return Err(ClassifiedError::new(ErrorKind::Api));
    }
    Ok(())
}

/// Checks that a path is bounded and absolute.
pub fn validated_absolute_path(path: &str) -> (r: Result<String, ClassifiedError>)
    ensures
        match r {
            Ok(checked) => absolute_path(path@) && checked@ == path@,
            Err(e) => !absolute_path(path@) && e == error::plain(ErrorKind::Api),
        },
{
    if let Err(e) = validate_path_bound(path) {
        return Err(e);
    }
    let chars = text::chars_of(path);
    if chars[0] != '/' {
        return Err(ClassifiedError::new(ErrorKind::Api));
    }
    Ok(path.to_owned())
}

/// A relative path below a directory.
pub fn join(directory: &str, rest: &str) -> (r: String)
    ensures
        r@ == path_below(directory@, rest@),
{
    let chars = text::chars_of(directory);
    let mut r = directory.to_owned();
    let n: usize = chars.len();
    if !(n > 0 && chars[n - 1] == '/') {
        r.append("/");
    }
    r.append(rest);
    r
}

} // verus!
