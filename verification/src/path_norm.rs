//! Caller-supplied path validation and normalization.
//!
//! Paths are byte strings, `/`-separated.  A file path may carry one leading
//! slash, which is stripped; backslashes, trailing slashes and the segments
//! ``, `.` and `..` are rejected.  Directory resolution additionally accepts
//! the root spellings `` and `/`, and a single trailing slash.

use vstd::prelude::*;
use crate::bytes::copy_bytes;
use crate::bytes::copy_range;
use crate::error::VfsError;

verus! {

/// The `/` path separator.
pub const SLASH: u8 = 47;

/// The `\` byte, never accepted in a path.
pub const BACKSLASH: u8 = 92;

/// The `.` byte, used to spot the `.` and `..` segments.
pub const DOT: u8 = 46;

/// Whether `s` holds the byte `b` anywhere.
pub open spec fn contains_byte(s: Seq<u8>, b: u8) -> bool {
    exists|i: int| 0 <= i < s.len() && s[i] == b
}

/// Whether the half-open range `i .. j` delimits one `/`-separated segment
/// of `s`: it touches a boundary on both sides and holds no separator.
pub open spec fn is_segment(s: Seq<u8>, i: int, j: int) -> bool {
    &&& 0 <= i <= j <= s.len()
    &&& (i == 0 || s[i - 1] == SLASH)
    &&& (j == s.len() || s[j] == SLASH)
    &&& forall|k: int| i <= k < j ==> s[k] != SLASH
}

/// Whether the segment `i .. j` of `s` is empty, `.` or `..`.
pub open spec fn is_bad_segment(s: Seq<u8>, i: int, j: int) -> bool {
    ||| j == i
    ||| (j == i + 1 && s[i] == DOT)
    ||| (j == i + 2 && s[i] == DOT && s[i + 1] == DOT)
}

/// Whether some segment of `s` is empty, `.` or `..`.
pub open spec fn has_bad_segment(s: Seq<u8>) -> bool {
    exists|i: int, j: int| is_segment(s, i, j) && is_bad_segment(s, i, j)
}

/// `s` with one leading slash removed, if it carries one.
pub open spec fn strip_lead(s: Seq<u8>) -> Seq<u8> {
    if s.len() > 0 && s[0] == SLASH {
        s.drop_first()
    } else {
        s
    }
}

/// Whether `orig` is accepted when a file is being resolved.
pub open spec fn file_norm_ok(orig: Seq<u8>) -> bool {
    &&& !contains_byte(orig, BACKSLASH)
    &&& !(orig.len() > 0 && orig.last() == SLASH)
    &&& !has_bad_segment(strip_lead(orig))
}

/// Whether `orig` spells the root directory (`` or `/`).
pub open spec fn spells_root(orig: Seq<u8>) -> bool {
    orig.len() == 0 || (orig.len() == 1 && orig[0] == SLASH)
}

/// Whether `orig` is accepted when a directory or a file is being resolved.
pub open spec fn dir_norm_ok(orig: Seq<u8>) -> bool {
    if spells_root(orig) {
        true
    } else if orig.last() == SLASH {
        file_norm_ok(orig.drop_last())
    } else {
        file_norm_ok(orig)
    }
}

/// The normalized path a directory-or-file resolution yields.
pub open spec fn dir_norm_path(orig: Seq<u8>) -> Seq<u8> {
    if spells_root(orig) {
        Seq::empty()
    } else if orig.last() == SLASH {
        strip_lead(orig.drop_last())
    } else {
        strip_lead(orig)
    }
}

/// Whether a directory-or-file resolution marks the path as
/// directory-context (the root, or a trailing slash).
pub open spec fn dir_norm_is_dir(orig: Seq<u8>) -> bool {
    spells_root(orig) || orig.last() == SLASH
}

/// Decide whether `v` holds the byte `b`.
pub fn find_byte(v: &Vec<u8>, b: u8) -> (r: bool)
    ensures
        r == contains_byte(v@, b),
{
    let mut i: usize = 0;
    while i < v.len()
        invariant
            i <= v@.len(),
            forall|j: int| 0 <= j < i ==> v@[j] != b,
        decreases v@.len() - i,
    {
        if v[i] == b {
            return true;
        }
        i = i + 1;
    }
    false
}

/// Decide whether some segment of `v` is empty, `.` or `..`.
fn scan_bad_segments(v: &Vec<u8>) -> (r: bool)
    ensures
        r == has_bad_segment(v@),
{
    let ghost s = v@;
    let mut seg_start: usize = 0;
    let mut i: usize = 0;
    loop
        invariant
            seg_start <= i <= s.len(),
            s == v@,
            seg_start == 0 || s[seg_start - 1] == SLASH,
            forall|k: int| seg_start <= k < i ==> s[k] != SLASH,
            forall|a: int, b: int|
                is_segment(s, a, b) && b < i ==> !is_bad_segment(s, a, b),
        decreases s.len() - i,
    {
        if i == v.len() || v[i] == SLASH {
            // The segment ending here is exactly `seg_start .. i`.
            proof {
                assert(is_segment(s, seg_start as int, i as int));
                assert forall|a: int, b: int|
                    is_segment(s, a, b) && b == i implies a == seg_start by {
                    if a < seg_start {
                        assert(s[seg_start - 1] == SLASH);
                    }
                    if a > seg_start {
                        assert(s[a - 1] != SLASH);
                    }
                }
            }
            let seg_len = i - seg_start;
            if seg_len == 0 {
                return true;
            }
            if seg_len == 1 && v[seg_start] == DOT {
                return true;
            }
            if seg_len == 2 && v[seg_start] == DOT && v[seg_start + 1] == DOT {
                return true;
            }
            if i == v.len() {
                proof {
                    assert forall|a: int, b: int|
                        is_segment(s, a, b) && is_bad_segment(s, a, b) implies false by {
                        if b < i {
                        } else {
                            assert(b == i);
                        }
                    }
                }
                return false;
            }
            i = i + 1;
            seg_start = i;
        } else {
            proof {
                assert forall|a: int, b: int|
                    is_segment(s, a, b) && b < i + 1 implies !is_bad_segment(s, a, b) by {
                    if b == i {
                        assert(s[b] != SLASH);
                        assert(false);
                    }
                }
            }
            i = i + 1;
        }
    }
}

/// Resolve a caller path to a file: reject backslashes, a trailing slash
/// and the segments ``, `.` and `..`; strip one leading slash.
pub fn normalize_file(orig: &Vec<u8>) -> (r: Result<Vec<u8>, VfsError>)
    ensures
        match r {
            Ok(p) => file_norm_ok(orig@) && p@ == strip_lead(orig@),
            Err(e) => !file_norm_ok(orig@) && (match e {
                VfsError::InvalidPath { path } => path@ == orig@,
                _ => false,
            }),
        },
{
    if find_byte(orig, BACKSLASH) || (orig.len() > 0 && orig[orig.len() - 1] == SLASH) {
        return Err(VfsError::InvalidPath { path: copy_bytes(orig) });
    }
    let start: usize = if orig.len() > 0 && orig[0] == SLASH {
        1
    } else {
        0
    };
    let p = copy_range(orig, start, orig.len());
    proof {
        assert(p@ =~= strip_lead(orig@));
    }
    if scan_bad_segments(&p) {
        return Err(VfsError::InvalidPath { path: copy_bytes(orig) });
    }
    Ok(p)
}

/// Resolve a caller path to a directory or a file: `` and `/` name the
/// root, one trailing slash marks directory context, and the rest follows
/// file resolution.
pub fn normalize_path_dir(orig: &Vec<u8>) -> (r: Result<(Vec<u8>, bool), VfsError>)
    ensures
        match r {
            Ok((p, dir)) => dir_norm_ok(orig@) && p@ == dir_norm_path(orig@) && dir
                == dir_norm_is_dir(orig@),
            Err(e) => !dir_norm_ok(orig@) && (e matches VfsError::InvalidPath { .. }),
        },
{
    if orig.len() == 0 || (orig.len() == 1 && orig[0] == SLASH) {
        return Ok((Vec::new(), true));
    }
    if orig[orig.len() - 1] == SLASH {
        let trimmed = copy_range(orig, 0, orig.len() - 1);
        proof {
            assert(trimmed@ =~= orig@.drop_last());
        }
        let p = normalize_file(&trimmed)?;
        Ok((p, true))
    } else {
        let p = normalize_file(orig)?;
        Ok((p, false))
    }
}

} // verus!
