//! Absolute seek-position arithmetic, shared by every component that offers
//! a stream-like view over a random-access source.

use vstd::prelude::*;
use crate::error::{Error, IoKind};

verus! {

/// A seek target, relative to the start, the end, or the current position
/// of a stream.
#[derive(Clone, Copy)]
pub enum SeekFrom {
    /// An absolute offset from the start.
    Start(u64),
    /// A signed offset from the end.
    End(i64),
    /// A signed offset from the current position.
    Current(i64),
}

/// An absolute position within a stream.
pub struct AbsSeekPos(pub u64);

/// The sign and magnitude of a signed offset.
enum Pzn {
    Positive(u64),
    Zero,
    Negative(u64),
}

/// Whether `cur + off` stays within `0 ..= u64::MAX`.
pub open spec fn seek_add_in_range(cur: u64, off: i64) -> bool {
    0 <= cur + off <= u64::MAX
}

/// The absolute position a seek request asks for, before any bounds check.
pub open spec fn seek_target(cur: u64, pos: SeekFrom, end: u64) -> int {
    match pos {
        SeekFrom::Start(n) => n as int,
        SeekFrom::End(n) => end + n,
        SeekFrom::Current(n) => cur + n,
    }
}

/// Whether an error is the invalid-input I/O error seek arithmetic reports.
pub open spec fn is_invalid_input(e: Error) -> bool {
    match e {
        Error::Io { kind, .. } => kind is InvalidInput,
        _ => false,
    }
}

impl Pzn {
    /// Split a signed offset into sign and magnitude.
    fn of_i64(value: i64) -> (r: Pzn)
        ensures
            match r {
                Pzn::Positive(n) => value > 0 && n == value,
                Pzn::Zero => value == 0,
                Pzn::Negative(n) => value < 0 && n == -(value as int),
            },
    {
        if value > 0 {
            Pzn::Positive(value as u64)
        } else if value < 0 {
            let neg: u64 = (-(value + 1)) as u64 + 1;
            Pzn::Negative(neg)
        } else {
            Pzn::Zero
        }
    }
}

impl AbsSeekPos {
    /// Resolve a seek request against this position, demanding that the
    /// target lies in `0 ..= end`.
    pub fn offset_bounded(&self, pos: SeekFrom, end: u64) -> (r: Result<AbsSeekPos, Error>)
        ensures
            match r {
                Ok(p) => 0 <= seek_target(self.0, pos, end) <= end && p.0
                    == seek_target(self.0, pos, end),
                Err(e) => !(0 <= seek_target(self.0, pos, end) <= end) && is_invalid_input(e),
            },
    {
        let cur = self.0;
        let target = match pos {
            SeekFrom::Start(n) => n,
            SeekFrom::End(n) => Self::add(end, n)?,
            SeekFrom::Current(n) => Self::add(cur, n)?,
        };
        if target > end {
            Err(Error::Io {
                kind: IoKind::InvalidInput,
                message: "attempted to seek past the end of the stream".to_owned(),
            })
        } else {
            Ok(AbsSeekPos(target))
        }
    }

    /// Resolve a seek request against this position, allowing any target
    /// in `0 ..= u64::MAX`; `end` only anchors end-relative requests.
    pub fn offset_unbounded(&self, pos: SeekFrom, end: u64) -> (r: Result<AbsSeekPos, Error>)
        ensures
            match r {
                Ok(p) => 0 <= seek_target(self.0, pos, end) <= u64::MAX && p.0
                    == seek_target(self.0, pos, end),
                Err(e) => !(0 <= seek_target(self.0, pos, end) <= u64::MAX) && is_invalid_input(
                    e,
                ),
            },
    {
        let cur = self.0;
        let target = match pos {
            SeekFrom::Start(n) => n,
            SeekFrom::End(n) => Self::add(end, n)?,
            SeekFrom::Current(n) => Self::add(cur, n)?,
        };
        Ok(AbsSeekPos(target))
    }

    /// Add a signed offset to an absolute position, reporting an
    /// invalid-input error when the result leaves `0 ..= u64::MAX`.
    pub fn add(cur: u64, off: i64) -> (r: Result<u64, Error>)
        ensures
            match r {
                Ok(n) => seek_add_in_range(cur, off) && n == cur + off,
                Err(e) => !seek_add_in_range(cur, off) && is_invalid_input(e),
            },
    {
        match Pzn::of_i64(off) {
            Pzn::Positive(n) => {
                if cur <= u64::MAX - n {
                    Ok(cur + n)
                } else {
                    Err(Error::Io {
                        kind: IoKind::InvalidInput,
                        message: "attempted to seek past the end of the stream".to_owned(),
                    })
                }
            },
            Pzn::Zero => Ok(cur),
            Pzn::Negative(n) => {
                if cur >= n {
                    Ok(cur - n)
                } else {
                    Err(Error::Io {
                        kind: IoKind::InvalidInput,
                        message: "attempted to seek before the start of the stream".to_owned(),
                    })
                }
            },
        }
    }
}

} // verus!
