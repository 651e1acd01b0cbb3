//! A sequential, seekable stream view over an offset-addressable source:
//! a cursor plus a fixed length, with all seek arithmetic delegated to the
//! shared absolute-position helper.

use vstd::prelude::*;
use crate::abs_seek_pos::{AbsSeekPos, SeekFrom, is_invalid_input, seek_target};
use crate::error::{Error, IoKind};
use crate::read_at_len::ReadAt;

verus! {

/// A cursor over an offset-addressable source, bounded by a fixed length.
pub struct ReadAtCursor<RA: ReadAt> {
    ra: RA,
    offset: u64,
    length: u64,
}

impl<RA: ReadAt> ReadAtCursor<RA> {
    /// The bytes of the underlying source.
    pub closed spec fn content(&self) -> Seq<u8> {
        self.ra.content()
    }

    /// The fixed length the cursor is bounded by.
    pub closed spec fn limit(&self) -> u64 {
        self.length
    }

    /// The current position.
    pub closed spec fn pos(&self) -> u64 {
        self.offset
    }

    /// Whether reads through this cursor are pinned down by `content()`:
    /// the source is faithful and the bound is its whole length.
    pub closed spec fn transparent(&self) -> bool {
        self.ra.faithful() && self.length == self.ra.content().len()
    }

    /// Whether the cursor is within its bound.
    pub closed spec fn wf(&self) -> bool {
        self.offset <= self.length
    }

    /// A transparent cursor's bound is its content's whole length.
    pub proof fn lemma_transparent_len(&self)
        requires
            self.transparent(),
        ensures
            self.limit() == self.content().len(),
    {
    }

    /// Place a cursor at the start of a source, bounded by `length`.
    pub fn new(ra: RA, length: u64) -> (r: ReadAtCursor<RA>)
        ensures
            r.wf(),
            r.pos() == 0,
            r.limit() == length,
            r.content() == ra.content(),
            r.transparent() == (ra.faithful() && length == ra.content().len()),
    {
        ReadAtCursor { ra, offset: 0, length }
    }

    /// Read up to `len` bytes at the cursor, advancing it by what was
    /// actually read.  Through a transparent cursor this returns exactly
    /// the bytes of `content()` at the old position, short only at the
    /// end of the data.
    pub fn read(&mut self, len: usize) -> (r: Result<Vec<u8>, Error>)
        requires
            old(self).wf(),
        ensures
            final(self).wf(),
            final(self).content() == old(self).content(),
            final(self).limit() == old(self).limit(),
            final(self).transparent() == old(self).transparent(),
            match r {
                Ok(v) => {
                    &&& v@.len() <= len
                    &&& final(self).pos() == (if old(self).pos() + v@.len() <= old(
                        self,
                    ).limit() {
                        old(self).pos() + v@.len()
                    } else {
                        old(self).limit() as int
                    })
                },
                Err(_) => final(self).pos() == old(self).pos(),
            },
            old(self).transparent() ==> match r {
                Ok(v) => {
                    &&& v@.len() == (if old(self).pos() + len <= old(self).content().len() {
                        len as int
                    } else {
                        old(self).content().len() - old(self).pos()
                    })
                    &&& v@ == old(self).content().subrange(
                        old(self).pos() as int,
                        old(self).pos() + v@.len(),
                    )
                },
                Err(_) => false,
            },
    {
        if self.offset >= self.length {
            // At or past the bound: the end of the stream, zero bytes.
            return Ok(Vec::new());
        }
        let v = self.ra.read_at(self.offset, len)?;
        if v.len() as u64 > u64::MAX - self.offset {
            return Err(Error::Io {
                kind: IoKind::InvalidInput,
                message: "stream position overflow".to_owned(),
            });
        }
        let n = v.len();
        self.offset = self.offset + n as u64;
        if self.offset > self.length {
            // An unfaithful source may overshoot the bound; clamp back so
            // the cursor invariant is kept.
            self.offset = self.length;
        }
        Ok(v)
    }

    /// Read exactly `len` bytes at the cursor, advancing it by `len`.
    /// Through a transparent cursor this succeeds exactly when the
    /// request lies within the data.
    pub fn read_exact(&mut self, len: usize) -> (r: Result<Vec<u8>, Error>)
        requires
            old(self).wf(),
        ensures
            final(self).wf(),
            final(self).content() == old(self).content(),
            final(self).limit() == old(self).limit(),
            final(self).transparent() == old(self).transparent(),
            (r matches Ok(v) ==> v@.len() == len),
            (r matches Ok(v) ==> final(self).pos() == (if old(self).pos() + len <= old(
                self,
            ).limit() {
                old(self).pos() + len
            } else {
                old(self).limit() as int
            })),
            (r matches Err(_) ==> final(self).pos() == old(self).pos()),
            old(self).transparent() ==> match r {
                Ok(v) => old(self).pos() + len <= old(self).content().len() && v@ == old(
                    self,
                ).content().subrange(old(self).pos() as int, old(self).pos() + len),
                Err(_) => old(self).pos() + len > old(self).content().len(),
            },
    {
        let v = self.ra.read_exact_at(self.offset, len)?;
        if len as u64 > u64::MAX - self.offset {
            return Err(Error::Io {
                kind: IoKind::InvalidInput,
                message: "stream position overflow".to_owned(),
            });
        }
        self.offset = self.offset + len as u64;
        if self.offset > self.length {
            self.offset = self.length;
        }
        Ok(v)
    }

    /// Resolve a seek request against the cursor's bound: the target must
    /// lie in `0 ..= limit`, and the new position is returned.
    pub fn seek(&mut self, pos: SeekFrom) -> (r: Result<u64, Error>)
        requires
            old(self).wf(),
        ensures
            final(self).wf(),
            final(self).content() == old(self).content(),
            final(self).limit() == old(self).limit(),
            final(self).transparent() == old(self).transparent(),
            match r {
                Ok(n) => {
                    &&& 0 <= seek_target(old(self).pos(), pos, old(self).limit()) <= old(
                        self,
                    ).limit()
                    &&& n == seek_target(old(self).pos(), pos, old(self).limit())
                    &&& final(self).pos() == n
                },
                Err(e) => {
                    &&& !(0 <= seek_target(old(self).pos(), pos, old(self).limit()) <= old(
                        self,
                    ).limit())
                    &&& is_invalid_input(e)
                    &&& final(self).pos() == old(self).pos()
                },
            },
    {
        let cur = AbsSeekPos(self.offset);
        let target = cur.offset_bounded(pos, self.length)?;
        self.offset = target.0;
        Ok(self.offset)
    }
}

} // verus!
