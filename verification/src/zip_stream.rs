//! Streaming decompression of one entry's bytes: a range view over the
//! compressed data feeds a raw decompressor chunk by chunk.  The loop and
//! all buffer bookkeeping are verified; only the single decompression step
//! is trusted.

use vstd::prelude::*;
use crate::abs_seek_pos::SeekFrom;
use crate::error::{Error, IoKind};
use crate::read_at_len::ReadAt;
use crate::read_range::ReadRange;

verus! {

#[verifier::external_type_specification]
#[verifier::external_body]
pub struct ExFlateDecompress(flate2::Decompress);

#[verifier::external_type_specification]
#[verifier::external_body]
pub struct ExBzDecompress(bzip2::Decompress);

/// How many compressed bytes are pulled from the source per refill.
pub const STREAM_CHUNK: usize = 16384;

/// Relies on `flate2::Decompress::new`: a raw deflate decompressor.
#[verifier::external_body]
fn inflate_new() -> (r: flate2::Decompress) {
    flate2::Decompress::new(false)
}

/// Relies on `bzip2::Decompress::new`: a bzip2 decompressor.
#[verifier::external_body]
fn bz_new() -> (r: bzip2::Decompress) {
    bzip2::Decompress::new(false)
}

/// Relies on `flate2::Decompress::decompress`: feed it `input[from..]`
/// and up to `room` bytes of output space, reporting how much input it
/// consumed, what it produced, and whether the stream ended.  The bounds
/// hold by construction: the output buffer is `room` bytes, and the
/// consumed count is clamped to what was offered.
#[verifier::external_body]
fn inflate_step(st: &mut flate2::Decompress, input: &Vec<u8>, from: usize, room: usize) -> (r:
    Result<(usize, Vec<u8>, bool), Error>)
    requires
        from <= input@.len(),
    ensures
        r matches Ok((used, v, done)) ==> used <= input@.len() - from && v@.len() <= room,
{
    let before = st.total_in();
    let out_before = st.total_out();
    let mut buf = vec![0u8; room];
    let status = st.decompress(&input[from..], &mut buf, flate2::FlushDecompress::None).map_err(
        |e| Error::Io { kind: IoKind::InvalidData, message: e.to_string() },
    )?;
    let used = ((st.total_in() - before) as usize).min(input.len() - from);
    buf.truncate(((st.total_out() - out_before) as usize).min(room));
    Ok((used, buf, status == flate2::Status::StreamEnd))
}

/// Relies on `bzip2::Decompress::decompress`: one decompression step, as
/// for the deflate variant.
#[verifier::external_body]
fn bz_step(st: &mut bzip2::Decompress, input: &Vec<u8>, from: usize, room: usize) -> (r: Result<
    (usize, Vec<u8>, bool),
    Error,
>)
    requires
        from <= input@.len(),
    ensures
        r matches Ok((used, v, done)) ==> used <= input@.len() - from && v@.len() <= room,
{
    let before = st.total_in();
    let out_before = st.total_out();
    let mut buf = vec![0u8; room];
    let status = st.decompress(&input[from..], &mut buf).map_err(
        |e| Error::Io { kind: IoKind::InvalidData, message: e.to_string() },
    )?;
    let used = ((st.total_in() - before) as usize).min(input.len() - from);
    buf.truncate(((st.total_out() - out_before) as usize).min(room));
    Ok((used, buf, status == bzip2::Status::StreamEnd))
}

/// The decompressor driving a stream, one per supported method.
enum DecoderState {
    Deflate(flate2::Decompress),
    Bz(bzip2::Decompress),
}

/// A readable, non-seekable stream of one entry's decompressed bytes.
pub struct ZipStreamReader<RA: ReadAt> {
    range: ReadRange<RA>,
    state: DecoderState,
    inbuf: Vec<u8>,
    inpos: usize,
    done: bool,
    input_exhausted: bool,
}

impl<RA: ReadAt> ZipStreamReader<RA> {
    /// Whether the reader's buffers are consistent.
    pub closed spec fn wf(&self) -> bool {
        &&& self.inpos <= self.inbuf@.len()
        &&& self.range.wf()
        &&& (self.input_exhausted ==> self.inpos == self.inbuf@.len())
    }

    /// A deflate stream over the given compressed byte range.
    pub fn new_deflate(range: ReadRange<RA>) -> (r: ZipStreamReader<RA>)
        requires
            range.wf(),
        ensures
            r.wf(),
    {
        ZipStreamReader {
            range,
            state: DecoderState::Deflate(inflate_new()),
            inbuf: Vec::new(),
            inpos: 0,
            done: false,
            input_exhausted: false,
        }
    }

    /// A bzip2 stream over the given compressed byte range.
    pub fn new_bzip2(range: ReadRange<RA>) -> (r: ZipStreamReader<RA>)
        requires
            range.wf(),
        ensures
            r.wf(),
    {
        ZipStreamReader {
            range,
            state: DecoderState::Bz(bz_new()),
            inbuf: Vec::new(),
            inpos: 0,
            done: false,
            input_exhausted: false,
        }
    }

    /// Read up to `len` decompressed bytes, short only when the stream
    /// ends.  An empty request never touches the decompressor and always
    /// succeeds.
    pub fn read(&mut self, len: usize) -> (r: Result<Vec<u8>, Error>)
        requires
            old(self).wf(),
        ensures
            final(self).wf(),
            r matches Ok(v) ==> v@.len() <= len,
            len == 0 ==> r is Ok,
    {
        let mut out: Vec<u8> = Vec::new();
        proof {
            self.range.lemma_range_wf();
        }
        loop
            invariant
                self.wf(),
                out@.len() <= len,
                self.range.pos() <= self.range.limit(),
            decreases 2 * (self.range.limit() - self.range.pos()) + (self.inbuf@.len()
                - self.inpos) + 2 * (len - out@.len()) + (if self.done {
                0int
            } else {
                1int
            }) + (if self.input_exhausted {
                0int
            } else {
                1int
            }),
        {
            if self.done || out.len() == len {
                return Ok(out);
            }
            if self.inpos == self.inbuf.len() && !self.input_exhausted {
                let chunk = self.range.read(STREAM_CHUNK)?;
                if chunk.len() == 0 {
                    self.input_exhausted = true;
                }
                self.inbuf = chunk;
                self.inpos = 0;
            }
            let room = len - out.len();
            let step = match &mut self.state {
                DecoderState::Deflate(st) => inflate_step(st, &self.inbuf, self.inpos, room),
                DecoderState::Bz(st) => bz_step(st, &self.inbuf, self.inpos, room),
            };
            let (used, mut piece, done) = step?;
            self.inpos = self.inpos + used;
            let produced = piece.len();
            out.append(&mut piece);
            if done {
                self.done = true;
            } else if used == 0 && produced == 0 {
                if self.input_exhausted && self.inpos == self.inbuf.len() {
                    return Err(Error::Io {
                        kind: IoKind::InvalidData,
                        message: "compressed stream ended unexpectedly".to_owned(),
                    });
                }
                if !self.input_exhausted && self.inpos < self.inbuf.len() {
                    return Err(Error::Io {
                        kind: IoKind::InvalidData,
                        message: "decompressor made no progress".to_owned(),
                    });
                }
            }
            proof {
                self.range.lemma_range_wf();
            }
        }
    }

    /// Seeking within a compressed stream is not possible; every request
    /// fails.
    pub fn seek(&mut self, pos: SeekFrom) -> (r: Result<u64, Error>)
        requires
            old(self).wf(),
        ensures
            final(self).wf(),
            r is Err,
    {
        let _ = pos;
        Err(Error::Io {
            kind: IoKind::OtherIo,
            message: "cannot seek within a compressed stream".to_owned(),
        })
    }
}

} // verus!
