//! A view of one contiguous sub-interval of an offset-addressable source:
//! all offsets are translated by the range's start and clamped to its
//! length, so a reader sees exactly one archive entry's bytes.

use vstd::prelude::*;
use core::ops::Range;
use crate::abs_seek_pos::{AbsSeekPos, SeekFrom, is_invalid_input, seek_target};
use crate::error::{Error, IoKind};
use crate::read_at_len::ReadAt;

verus! {

/// A half-open byte range over a source, with its own cursor.
pub struct ReadRange<RA: ReadAt> {
    ra: RA,
    start: u64,
    length: u64,
    pos: u64,
}

impl<RA: ReadAt> ReadRange<RA> {
    /// The bytes of the underlying source.
    pub closed spec fn src_content(&self) -> Seq<u8> {
        self.ra.content()
    }

    /// Where the range starts in the source.
    pub closed spec fn start_spec(&self) -> u64 {
        self.start
    }

    /// The number of bytes the range spans.
    pub closed spec fn limit(&self) -> u64 {
        self.length
    }

    /// The current position, relative to the range's start.
    pub closed spec fn pos(&self) -> u64 {
        self.pos
    }

    /// Whether reads through this view are pinned down: the source is
    /// faithful and the range lies within its data.
    pub closed spec fn transparent(&self) -> bool {
        self.ra.faithful() && self.start + self.length <= self.ra.content().len()
    }

    /// The bytes the range spans, meaningful when it lies within the
    /// source's data.
    pub closed spec fn range_content(&self) -> Seq<u8> {
        let hi: int = if self.start + self.length <= self.ra.content().len() {
            self.start + self.length
        } else {
            self.ra.content().len() as int
        };
        self.ra.content().subrange(self.start as int, hi)
    }

    /// Whether the view's cursor and bounds are consistent.
    pub closed spec fn wf(&self) -> bool {
        self.pos <= self.length && self.start + self.length <= u64::MAX
    }

    /// A well-formed view's cursor lies within its length.
    pub proof fn lemma_range_wf(&self)
        requires
            self.wf(),
        ensures
            self.pos() <= self.limit(),
    {
    }

    /// A transparent view spans exactly `limit()` bytes, all within the
    /// source's data.
    pub proof fn lemma_transparent_len(&self)
        requires
            self.transparent(),
        ensures
            self.range_content().len() == self.limit(),
            self.start_spec() + self.limit() <= self.src_content().len(),
    {
    }

    /// Restrict a source to `range`, with the cursor at the range start.
    pub fn new(ra: RA, range: Range<u64>) -> (r: ReadRange<RA>)
        requires
            range.start <= range.end,
        ensures
            r.wf(),
            r.pos() == 0,
            r.start_spec() == range.start,
            r.limit() == range.end - range.start,
            r.src_content() == ra.content(),
            r.transparent() == (ra.faithful() && range.end <= ra.content().len()),
            range.end <= ra.content().len() ==> r.range_content() == ra.content().subrange(
                range.start as int,
                range.end as int,
            ),
    {
        let start = range.start;
        let length = range.end - range.start;
        ReadRange { ra, start, length, pos: 0 }
    }

    /// Read up to `len` bytes at `offset` within the range, leaving the
    /// cursor alone.  An offset past the range's length fails; in-range
    /// reads are truncated so that they never cross its end.
    pub fn read_at(&self, offset: u64, len: usize) -> (r: Result<Vec<u8>, Error>)
        requires
            self.wf(),
        ensures
            (r matches Ok(v) ==> v@.len() <= len),
            self.transparent() ==> match r {
                Ok(v) => {
                    &&& offset <= self.limit()
                    &&& self.start_spec() + offset < self.src_content().len()
                    &&& v@.len() == (if offset + len <= self.limit() {
                        len as int
                    } else {
                        self.limit() - offset
                    })
                    &&& v@ == self.range_content().subrange(offset as int, offset + v@.len())
                },
                Err(_) => offset > self.limit() || self.start_spec() + offset
                    >= self.src_content().len(),
            },
    {
        if offset > self.length {
            return Err(Error::Io {
                kind: IoKind::InvalidInput,
                message: "attempted to read past the end of the range".to_owned(),
            });
        }
        let remaining = self.length - offset;
        let want: usize = if (len as u64) <= remaining {
            len
        } else {
            remaining as usize
        };
        let v = self.ra.read_at(self.start + offset, want)?;
        proof {
            if self.transparent() {
                assert(v@ =~= self.range_content().subrange(offset as int, offset + v@.len()));
            }
        }
        Ok(v)
    }

    /// Read up to `len` bytes at the cursor, advancing it by what was
    /// read.
    pub fn read(&mut self, len: usize) -> (r: Result<Vec<u8>, Error>)
        requires
            old(self).wf(),
        ensures
            final(self).wf(),
            final(self).src_content() == old(self).src_content(),
            final(self).start_spec() == old(self).start_spec(),
            final(self).limit() == old(self).limit(),
            final(self).transparent() == old(self).transparent(),
            final(self).range_content() == old(self).range_content(),
            match r {
                Ok(v) => {
                    &&& v@.len() <= len
                    &&& final(self).pos() == old(self).pos() + v@.len()
                },
                Err(_) => final(self).pos() == old(self).pos(),
            },
            old(self).transparent() ==> match r {
                Ok(v) => {
                    &&& v@.len() == (if old(self).pos() + len <= old(self).limit() {
                        len as int
                    } else {
                        old(self).limit() - old(self).pos()
                    })
                    &&& v@ == old(self).range_content().subrange(
                        old(self).pos() as int,
                        old(self).pos() + v@.len(),
                    )
                },
                Err(_) => false,
            },
    {
        if self.pos >= self.length || len == 0 {
            // At the range's end, or an empty request: zero bytes.
            proof {
                if old(self).transparent() {
                    self.lemma_transparent_len();
                    assert(Seq::<u8>::empty() =~= old(self).range_content().subrange(
                        old(self).pos() as int,
                        old(self).pos() as int,
                    ));
                }
            }
            return Ok(Vec::new());
        }
        let remaining = self.length - self.pos;
        let want: usize = if (len as u64) <= remaining {
            len
        } else {
            remaining as usize
        };
        let v = self.ra.read_at(self.start + self.pos, want)?;
        let n = v.len();
        proof {
            if old(self).transparent() {
                assert(v@ =~= old(self).range_content().subrange(
                    old(self).pos() as int,
                    old(self).pos() + v@.len(),
                ));
            }
        }
        if n as u64 > remaining {
            return Err(Error::Io {
                kind: IoKind::InvalidInput,
                message: "source returned more bytes than the range spans".to_owned(),
            });
        }
        self.pos = self.pos + n as u64;
        Ok(v)
    }

    /// Resolve a seek request within the range: the target must lie in
    /// `0 ..= limit`, and the new range-relative position is returned.
    pub fn seek(&mut self, pos: SeekFrom) -> (r: Result<u64, Error>)
        requires
            old(self).wf(),
        ensures
            final(self).wf(),
            final(self).src_content() == old(self).src_content(),
            final(self).start_spec() == old(self).start_spec(),
            final(self).limit() == old(self).limit(),
            final(self).transparent() == old(self).transparent(),
            final(self).range_content() == old(self).range_content(),
            match r {
                Ok(n) => {
                    &&& 0 <= seek_target(old(self).pos(), pos, old(self).limit()) <= old(
                        self,
                    ).limit()
                    &&& n == seek_target(old(self).pos(), pos, old(self).limit())
                    &&& final(self).pos() == n
                },
                Err(e) => {
                    &&& !(0 <= seek_target(old(self).pos(), pos, old(self).limit()) <= old(
                        self,
                    ).limit())
                    &&& is_invalid_input(e)
                    &&& final(self).pos() == old(self).pos()
                },
            },
    {
        let cur = AbsSeekPos(self.pos);
        let target = cur.offset_bounded(pos, self.length)?;
        self.pos = target.0;
        Ok(self.pos)
    }
}

} // verus!
