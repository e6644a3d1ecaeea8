//! The pull reader for decompression: a file-like `read` over a source of
//! compressed input.
//!
//! A read of `n` bytes feeds input to the codec until `n` bytes of output
//! are there, a frame ends, or the source is exhausted. Unless the reader
//! spans frames, the end of a frame ends the stream: what follows in the
//! source is never decoded. Seeking goes forward only, by decoding and
//! dropping output.

use crate::compression_writer::close_asks;
use crate::compression_reader::read_refusal;
use crate::constants::{READALL_SIZE, SEEK_CUR, SEEK_END, SEEK_SET};
use crate::drain::copy_into;
use crate::exceptions::{Context, Fault, ZstdError};
use crate::stream::{is_source_error, InBufferSource};
use crate::zstd_safe::{continues, dstream_out_size, settled_since, DCtx};
use vstd::prelude::*;

verus! {

/// Whether `e` is the failure of a decompression step: the codec's own, a
/// step without progress, or a count that does not fit.
pub open spec fn is_step_error(e: ZstdError) -> bool {
    e matches ZstdError::Codec { context: Context::Decompress, fault } && (fault is Code || fault
        == Fault::NoProgress || fault == Fault::CounterOverflow)
}

/// Whether `e` is a failure that reading can meet once a read has been
/// accepted: that of the source or of a step.
pub open spec fn is_read_error(e: ZstdError) -> bool {
    is_source_error(e) || is_step_error(e)
}

/// Decompresses a source as it is read from.
pub struct ZstdDecompressionReader<'a, S: InBufferSource> {
    dctx: DCtx<'a>,
    source: S,
    read_across_frames: bool,
    closefd: bool,
    entered: bool,
    closed: bool,
    bytes_decompressed: usize,
    finished_output: bool,
}

/// How many bytes a seek has to pass over, from `position`, or why the seek
/// is refused. An origin that names neither the start, the current position
/// nor the end passes over nothing.
pub open spec fn seek_amount(position: usize, pos: isize, whence: i32) -> Result<usize, ZstdError> {
    if whence == SEEK_SET {
        if pos < 0 {
            Err(ZstdError::SeekNegative)
        } else if pos < position {
            Err(ZstdError::SeekBackwards)
        } else {
            Ok((pos - position) as usize)
        }
    } else if whence == SEEK_CUR {
        if pos < 0 {
            Err(ZstdError::SeekBackwards)
        } else {
            Ok(pos as usize)
        }
    } else if whence == SEEK_END {
        Err(ZstdError::SeekFromEnd)
    } else {
        Ok(0)
    }
}

/// The origin of a seek: the start of the stream where none is given.
pub open spec fn origin(whence: Option<i32>) -> i32 {
    match whence {
        Some(w) => w,
        None => SEEK_SET,
    }
}

/// How many bytes a seek has to pass over, or why it is refused.
pub fn resolve_seek(position: usize, pos: isize, whence: i32) -> (res: Result<usize, ZstdError>)
    ensures
        res == seek_amount(position, pos, whence),
{
    if whence == SEEK_SET {
        if pos < 0 {
            Err(ZstdError::SeekNegative)
        } else if (pos as usize) < position {
            Err(ZstdError::SeekBackwards)
        } else {
            Ok(pos as usize - position)
        }
    } else if whence == SEEK_CUR {
        if pos < 0 {
            Err(ZstdError::SeekBackwards)
        } else {
            Ok(pos as usize)
        }
    } else if whence == SEEK_END {
        Err(ZstdError::SeekFromEnd)
    } else {
        Ok(0)
    }
}

/// The size that a read asks for: -1, which stands for everything, where
/// none is given.
pub open spec fn requested(size: Option<isize>) -> int {
    match size {
        Some(n) => n as int,
        None => -1,
    }
}

/// Whether a step hands its output back at once: it does if there is any
/// and either the buffer is full or a frame has ended that the reader does
/// not read past.
pub open spec fn emits(len: nat, capacity: nat, frame_ended: bool, read_across_frames: bool) -> bool {
    len != 0 && (len == capacity || (frame_ended && !read_across_frames))
}

/// Whether a step of which `remaining` is left over ends the stream: it
/// does if it ends a frame, which is what no remainder means, and the
/// reader does not read past frames.
pub open spec fn ends_stream(remaining: usize, read_across_frames: bool) -> bool {
    remaining == 0 && !read_across_frames
}

/// What a reader does after a step that has left `len` bytes in a buffer of
/// `capacity` bytes with `remaining` left over: whether it hands the buffer
/// back at once, and whether the stream has ended.
pub fn after_step(len: usize, capacity: usize, remaining: usize, read_across_frames: bool) -> (decision: (
    bool,
    bool,
))
    ensures
        decision.0 == emits(len as nat, capacity as nat, remaining == 0, read_across_frames),
        decision.1 == ends_stream(remaining, read_across_frames),
{
    let ends = remaining == 0 && !read_across_frames;
    (len != 0 && (len == capacity || ends), ends)
}

impl<'a, S: InBufferSource> ZstdDecompressionReader<'a, S> {
    /// Whether the source is well-formed.
    pub closed spec fn wf(self) -> bool {
        self.source.wf()
    }

    /// The source.
    pub closed spec fn input(self) -> S {
        self.source
    }

    /// Whether reading goes on past the end of a frame.
    pub closed spec fn spans_frames(self) -> bool {
        self.read_across_frames
    }

    /// Whether closing the reader closes the source.
    pub closed spec fn owns_source(self) -> bool {
        self.closefd
    }

    /// Whether the reader is closed.
    pub closed spec fn is_closed(self) -> bool {
        self.closed
    }

    /// Whether the reader is entered as a scoped resource.
    pub closed spec fn is_entered(self) -> bool {
        self.entered
    }

    /// The number of decompressed bytes handed out or passed over so far.
    pub closed spec fn position(self) -> usize {
        self.bytes_decompressed
    }

    /// Whether the stream has ended at the end of a frame.
    pub closed spec fn is_finished(self) -> bool {
        self.finished_output
    }

    /// Whether `self` differs from `before` in nothing but what reading
    /// changes: the codec, the source, the position and the end of output,
    /// which is never taken back and never set where frames are spanned.
    pub open spec fn reads_from(self, before: Self) -> bool {
        &&& self.wf()
        &&& self.spans_frames() == before.spans_frames()
        &&& self.owns_source() == before.owns_source()
        &&& self.is_closed() == before.is_closed()
        &&& self.is_entered() == before.is_entered()
        &&& before.is_finished() ==> self.is_finished()
        &&& self.is_finished() ==> before.is_finished() || !self.spans_frames()
        &&& self.input().budget() <= before.input().budget()
        &&& self.input().size() == before.input().size()
        &&& before.input().is_finished() ==> self.input() == before.input()
        &&& self.position() >= before.position()
        &&& continues(before.codec().steps(), self.codec().steps())
        &&& self.codec().taken().len() + self.input().budget() == before.codec().taken().len()
            + before.input().budget()
        &&& !before.is_finished() && self.is_finished() ==> settled_since(
            self.codec().steps(),
            before.codec().steps().len() as int,
        )
    }

    /// Whether `self` has kept to the frame since it was `before`: unless
    /// the reader spans frames, a step that reported the end of a frame has
    /// ended the stream.
    pub open spec fn frame_kept(self, before: Self) -> bool {
        !self.spans_frames() && settled_since(self.codec().steps(), before.codec().steps().len() as int)
            ==> self.is_finished()
    }

    /// What reading changes twice, it changes; and a reader that has kept
    /// to the frame twice has kept to it.
    pub proof fn lemma_reads_twice(last: Self, mid: Self, first: Self)
        requires
            mid.reads_from(first),
            last.reads_from(mid),
        ensures
            last.reads_from(first),
            mid.frame_kept(first) && last.frame_kept(mid) ==> last.frame_kept(first),
    {
        let steps = last.codec().steps();
        assert forall|i: int| 0 <= i < first.codec().steps().len() implies #[trigger] steps[i]
            == first.codec().steps()[i] by {
            assert(steps[i] == mid.codec().steps()[i]);
        }
        if !first.is_finished() && last.is_finished() {
            if mid.is_finished() {
                let i = choose|i: int|
                    first.codec().steps().len() <= i < mid.codec().steps().len() && (#[trigger] mid.codec().steps()[i]).remaining
                        == 0;
                assert(steps[i] == mid.codec().steps()[i]);
            } else {
                let i = choose|i: int|
                    mid.codec().steps().len() <= i < steps.len() && (#[trigger] steps[i]).remaining == 0;
                assert(steps[i].remaining == 0);
            }
        }
        if mid.frame_kept(first) && last.frame_kept(mid) && !last.spans_frames() && settled_since(
            steps,
            first.codec().steps().len() as int,
        ) {
            let i = choose|i: int| first.codec().steps().len() <= i < steps.len() && (#[trigger] steps[i]).remaining == 0;
            if i < mid.codec().steps().len() {
                assert(mid.codec().steps()[i] == steps[i]);
                assert(mid.is_finished());
            } else {
                assert(steps[i].remaining == 0);
            }
        }
    }

    /// The context that the reader decompresses with.
    pub closed spec fn codec(self) -> DCtx<'a> {
        self.dctx
    }

    /// Whether a read of `size` bytes from `before` may fail with `e`: a
    /// refused read fails with its refusal, and an accepted one with a
    /// failure of reading, which is that of a step where the source had
    /// finished before. No read fails after the stream has ended.
    pub open spec fn read_fails(before: Self, size: int, e: ZstdError) -> bool {
        match read_refusal(before.is_closed(), size) {
            Some(refusal) => e == refusal,
            None => {
                &&& !before.is_finished()
                &&& is_read_error(e)
                &&& before.input().is_finished() ==> is_step_error(e)
            },
        }
    }

    /// A reader over `source`.
    pub fn new(dctx: DCtx<'a>, source: S, read_across_frames: bool, closefd: bool) -> (r: ZstdDecompressionReader<
        'a,
        S,
    >)
        requires
            source.wf(),
        ensures
            r.wf(),
            r.codec() == dctx,
            r.input() == source,
            r.spans_frames() == read_across_frames,
            r.owns_source() == closefd,
            !r.is_closed(),
            !r.is_entered(),
            !r.is_finished(),
            r.position() == 0,
    {
        ZstdDecompressionReader {
            dctx,
            source,
            read_across_frames,
            closefd,
            entered: false,
            closed: false,
            bytes_decompressed: 0,
            finished_output: false,
        }
    }

    /// Enters the reader as a scoped resource. A reader that is entered
    /// already and a closed one refuse, in this order.
    pub fn enter(&mut self) -> (res: Result<(), ZstdError>)
        ensures
            match res {
                Ok(()) => {
                    &&& !old(self).is_entered()
                    &&& !old(self).is_closed()
                    &&& final(self).is_entered()
                    &&& final(self).input() == old(self).input()
                    &&& final(self).position() == old(self).position()
                    &&& final(self).is_finished() == old(self).is_finished()
                    &&& final(self).is_closed() == old(self).is_closed()
                    &&& final(self).owns_source() == old(self).owns_source()
                    &&& final(self).spans_frames() == old(self).spans_frames()
                },
                Err(e) => {
                    &&& *final(self) == *old(self)
                    &&& old(self).is_entered() ==> e == ZstdError::ReaderEnteredTwice
                    &&& !old(self).is_entered() ==> old(self).is_closed() && e == ZstdError::StreamClosed
                },
            },
    {
        if self.entered {
            Err(ZstdError::ReaderEnteredTwice)
        } else if self.closed {
            Err(ZstdError::StreamClosed)
        } else {
            self.entered = true;
            Ok(())
        }
    }

    /// Leaves the scope and closes the reader. The result is that of
    /// `close`.
    pub fn exit(&mut self) -> (close_source: bool)
        ensures
            !final(self).is_entered(),
            final(self).is_closed(),
            close_source == close_asks(old(self).is_closed(), old(self).owns_source()),
            final(self).input() == old(self).input(),
            final(self).position() == old(self).position(),
    {
        self.entered = false;
        self.close()
    }

    /// Closes the reader, and says whether the source is to be closed as
    /// well: it is, the first time, if the reader owns it. On a closed
    /// reader this does nothing.
    pub fn close(&mut self) -> (close_source: bool)
        ensures
            final(self).is_closed(),
            close_source == close_asks(old(self).is_closed(), old(self).owns_source()),
            old(self).is_closed() ==> *final(self) == *old(self),
            final(self).input() == old(self).input(),
            final(self).position() == old(self).position(),
            final(self).is_entered() == old(self).is_entered(),
            final(self).is_finished() == old(self).is_finished(),
            final(self).owns_source() == old(self).owns_source(),
            final(self).spans_frames() == old(self).spans_frames(),
    {
        if self.closed {
            return false;
        }
        self.closed = true;
        self.closefd
    }

    /// Whether the reader is closed.
    pub fn closed(&self) -> (closed: bool)
        ensures
            closed == self.is_closed(),
    {
        self.closed
    }

    /// The number of decompressed bytes handed out or passed over so far.
    pub fn tell(&self) -> (position: usize)
        ensures
            position == self.position(),
    {
        self.bytes_decompressed
    }

    /// Adds `produced` to the count of decompressed bytes.
    fn advance(&mut self, produced: usize) -> (res: Result<(), ZstdError>)
        ensures
            final(self).dctx == old(self).dctx,
            final(self).source == old(self).source,
            final(self).read_across_frames == old(self).read_across_frames,
            final(self).closefd == old(self).closefd,
            final(self).closed == old(self).closed,
            final(self).entered == old(self).entered,
            final(self).finished_output == old(self).finished_output,
            match res {
                Ok(()) => final(self).bytes_decompressed == old(self).bytes_decompressed + produced,
                Err(e) => {
                    &&& old(self).bytes_decompressed + produced > usize::MAX
                    &&& final(self).bytes_decompressed == old(self).bytes_decompressed
                    &&& e == (ZstdError::Codec { context: Context::Decompress, fault: Fault::CounterOverflow })
                },
            },
    {
        match self.bytes_decompressed.checked_add(produced) {
            Some(sum) => {
                self.bytes_decompressed = sum;
                Ok(())
            },
            None => Err(ZstdError::Codec { context: Context::Decompress, fault: Fault::CounterOverflow }),
        }
    }

    /// Pulls a view from the source, if it has one, and runs one step on
    /// it, into `dest`. The result says whether to hand `dest` back at once.
    ///
    /// Unless frames are spanned, a frame that ends here ends the stream. A
    /// step on a view has read or written at least one byte. A source that
    /// has finished before is left alone; it is not asked either while it
    /// has input in hand, and a failure is then that of the step.
    fn decompress_into_vec(&mut self, dest: &mut Vec<u8>, capacity: usize) -> (res: Result<bool, ZstdError>)
        requires
            old(self).wf(),
            old(dest)@.len() <= capacity,
        ensures
            final(self).reads_from(*old(self)),
            old(dest)@.len() <= final(dest)@.len() <= capacity,
            match res {
                Ok(emit) => {
                    &&& final(self).frame_kept(*old(self))
                    &&& final(self).codec().given() == old(self).codec().given() + final(dest)@.skip(
                        old(dest)@.len() as int,
                    )
                    &&& final(dest)@.subrange(0, old(dest)@.len() as int) == old(dest)@
                    &&& final(self).codec().steps().len() == old(self).codec().steps().len() + 1
                    &&& final(self).codec().steps().last().given == final(dest)@.skip(old(dest)@.len() as int)
                    &&& emit ==> final(dest)@.len() != 0
                    &&& emit && final(dest)@.len() < capacity ==> final(self).is_finished()
                    &&& !emit && final(dest)@.len() != 0 ==> final(dest)@.len() < capacity
                    &&& final(self).position() == old(self).position() + final(dest)@.len() - old(dest)@.len()
                    &&& old(self).input().is_finished() || final(self).input().is_finished() || final(self).input().budget() + old(dest)@.len() < old(self).input().budget() + final(dest)@.len()
                        || final(self).input().budget() < old(self).input().budget()
                },
                Err(e) => {
                    &&& is_read_error(e)
                    &&& old(self).input().is_finished() || old(self).input().pending().len() > 0 ==> is_step_error(e)
                },
            },
    {
        let empty: Vec<u8> = Vec::new();
        let pulled = self.source.input_buffer();
        let (view, has_view) = match pulled {
            Err(e) => {
                return Err(e);
            },
            Ok(None) => (empty.as_slice(), false),
            Ok(Some(view)) => (view, true),
        };
        let step = self.dctx.decompress_into_vec(dest, capacity, view);
        match step {
            Err(fault) => Err(ZstdError::Codec { context: Context::Decompress, fault }),
            Ok(p) => {
                proof {
                    if !has_view {
                        assert(view@.subrange(0, p.consumed as int) =~= Seq::<u8>::empty());
                    }
                    assert(self.dctx.steps().last().remaining == p.remaining);
                }
                if has_view {
                    self.source.record_bytes_read(p.consumed);
                    if p.consumed == 0 && p.produced == 0 {
                        return Err(ZstdError::Codec { context: Context::Decompress, fault: Fault::NoProgress });
                    }
                }
                let (emit, ends) = after_step(dest.len(), capacity, p.remaining, self.read_across_frames);
                if ends {
                    self.finished_output = true;
                }
                match self.advance(p.produced) {
                    Ok(()) => Ok(emit),
                    Err(e) => Err(e),
                }
            },
        }
    }

    /// A read into a buffer of `capacity` bytes: at most that many bytes of
    /// output. Fewer come only when the stream or the source has ended. On
    /// a source that has finished before, the read is one step on what the
    /// codec holds back: the source is left alone, and a failure is that of
    /// the step.
    fn read_bounded(&mut self, capacity: usize) -> (res: Result<Vec<u8>, ZstdError>)
        requires
            old(self).wf(),
        ensures
            final(self).reads_from(*old(self)),
            match res {
                Ok(data) => {
                    &&& data@.len() <= capacity
                    &&& final(self).position() == old(self).position() + data@.len()
                    &&& data@.len() < capacity ==> final(self).input().is_finished() || final(self).is_finished()
                    &&& final(self).frame_kept(*old(self))
                    &&& final(self).codec().given() == old(self).codec().given() + data@
                },
                Err(e) => is_read_error(e) && (old(self).input().is_finished() ==> is_step_error(e)),
            },
    {
        let mut dest: Vec<u8> = Vec::new();
        match self.decompress_into_vec(&mut dest, capacity) {
            Err(e) => {
                return Err(e);
            },
            Ok(emit) => {
                assert(dest@.skip(0) =~= dest@);
                if emit {
                    return Ok(dest);
                }
            },
        }
        while !self.source.finished() && !self.finished_output
            invariant
                self.reads_from(*old(self)),
                self.frame_kept(*old(self)),
                self.codec().given() == old(self).codec().given() + dest@,
                dest@.len() <= capacity,
                dest@.len() != 0 ==> dest@.len() < capacity,
                self.position() == old(self).position() + dest@.len(),
            decreases
                    self.source.budget() + (capacity - dest@.len()) + (if self.source.is_finished() {
                        0nat
                    } else {
                        1nat
                    }),
        {
            let ghost mid = *self;
            let ghost held = dest@;
            let stepped = self.decompress_into_vec(&mut dest, capacity);
            proof {
                Self::lemma_reads_twice(*self, mid, *old(self));
            }
            match stepped {
                Err(e) => {
                    return Err(e);
                },
                Ok(emit) => {
                    proof {
                        assert(held + dest@.skip(held.len() as int) =~= dest@);
                        assert(old(self).codec().given() + held + dest@.skip(held.len() as int) =~= old(self).codec().given() + dest@);
                    }
                    if emit {
                        return Ok(dest);
                    }
                },
            }
        }
        Ok(dest)
    }

    /// Reads until a read comes back empty, and hands back everything.
    pub fn readall(&mut self) -> (res: Result<Vec<u8>, ZstdError>)
        requires
            old(self).wf(),
        ensures
            final(self).reads_from(*old(self)),
            old(self).is_closed() ==> res == Err::<Vec<u8>, ZstdError>(ZstdError::StreamClosed) && *final(self)
                == *old(self),
            !old(self).is_closed() && old(self).is_finished() ==> (res matches Ok(data) && data@.len() == 0)
                && *final(self) == *old(self),
            match res {
                Ok(data) => {
                    &&& !old(self).is_closed()
                    &&& final(self).position() == old(self).position() + data@.len()
                    &&& final(self).input().is_finished() || final(self).is_finished()
                    &&& final(self).frame_kept(*old(self))
                    &&& final(self).codec().given() == old(self).codec().given() + data@
                },
                Err(e) => Self::read_fails(*old(self), -1, e),
            },
    {
        if self.closed {
            return Err(ZstdError::StreamClosed);
        }
        let mut all: Vec<u8> = Vec::new();
        assert(self.dctx.given() + all@ =~= self.dctx.given());
        loop
            invariant
                !old(self).closed,
                self.reads_from(*old(self)),
                self.frame_kept(*old(self)),
                self.codec().given() == old(self).codec().given() + all@,
                self.position() == old(self).position() + all@.len(),
                old(self).is_finished() ==> *self == *old(self) && all@.len() == 0,
            decreases usize::MAX - self.position(),
        {
            if self.finished_output {
                return Ok(all);
            }
            let ghost mid = *self;
            let ghost held = all@;
            let read = self.read_bounded(READALL_SIZE);
            proof {
                Self::lemma_reads_twice(*self, mid, *old(self));
            }
            let mut chunk = match read {
                Err(e) => {
                    return Err(e);
                },
                Ok(chunk) => chunk,
            };
            assert(self.codec().given() =~= old(self).codec().given() + (held + chunk@));
            if chunk.len() == 0 {
                assert(held + chunk@ =~= held);
                return Ok(all);
            }
            all.append(&mut chunk);
        }
    }

    /// Reads up to `size` bytes of decompressed output, or everything where
    /// `size` is -1 or not given.
    ///
    /// A closed reader refuses with `StreamClosed`, and then a size below
    /// -1 with `NegativeReadSize`. A read of zero bytes, and any read after
    /// the stream has ended, is empty and changes nothing. Otherwise fewer
    /// than `size` bytes come only when the stream or the source has ended.
    pub fn read(&mut self, size: Option<isize>) -> (res: Result<Vec<u8>, ZstdError>)
        requires
            old(self).wf(),
        ensures
            final(self).reads_from(*old(self)),
            old(self).is_closed() ==> res == Err::<Vec<u8>, ZstdError>(ZstdError::StreamClosed) && *final(self)
                == *old(self),
            !old(self).is_closed() && requested(size) < -1 ==> res == Err::<Vec<u8>, ZstdError>(
                ZstdError::NegativeReadSize,
            ) && *final(self) == *old(self),
            !old(self).is_closed() && requested(size) >= -1 && (old(self).is_finished() || requested(size) == 0) ==> (
            res matches Ok(data) && data@.len() == 0 && *final(self) == *old(self)),
            match res {
                Ok(data) => {
                    &&& !old(self).is_closed()
                    &&& requested(size) >= -1
                    &&& final(self).position() == old(self).position() + data@.len()
                    &&& requested(size) >= 0 ==> data@.len() <= requested(size)
                    &&& requested(size) == -1 || data@.len() < requested(size) ==> final(self).input().is_finished()
                        || final(self).is_finished()
                    &&& final(self).frame_kept(*old(self))
                    &&& final(self).codec().given() == old(self).codec().given() + data@
                },
                Err(e) => Self::read_fails(*old(self), requested(size), e) && (requested(size) == 0 ==> old(self).is_closed()),
            },
    {
        if self.closed {
            return Err(ZstdError::StreamClosed);
        }
        let size = match size {
            Some(n) => n,
            None => -1,
        };
        if size < -1 {
            return Err(ZstdError::NegativeReadSize);
        }
        if size == -1 {
            return self.readall();
        }
        if self.finished_output || size == 0 {
            return Ok(Vec::new());
        }
        self.read_bounded(size as usize)
    }

    /// A read that returns as soon as there is any output, into a buffer of
    /// `capacity` bytes. Once the source or the stream has ended there is
    /// nothing to ask of the codec: the read is empty and changes nothing.
    fn read1_bounded(&mut self, capacity: usize) -> (res: Result<Vec<u8>, ZstdError>)
        requires
            old(self).wf(),
        ensures
            old(self).input().is_finished() || old(self).is_finished() ==> (res matches Ok(data) && data@.len() == 0
                && *final(self) == *old(self)),
            final(self).reads_from(*old(self)),
            match res {
                Ok(data) => {
                    &&& data@.len() <= capacity
                    &&& final(self).position() == old(self).position() + data@.len()
                    &&& data@.len() == 0 ==> final(self).input().is_finished() || final(self).is_finished()
                    &&& final(self).frame_kept(*old(self))
                    &&& final(self).codec().given() == old(self).codec().given() + data@
                    &&& forall|i: int|
                        old(self).codec().steps().len() <= i < final(self).codec().steps().len() - 1 ==> (
                        #[trigger] final(self).codec().steps()[i]).given.len() == 0
                },
                Err(e) => is_read_error(e),
            },
    {
        let mut dest: Vec<u8> = Vec::new();
        assert(self.dctx.given() + dest@ =~= self.dctx.given());
        while !self.source.finished() && !self.finished_output && dest.len() == 0
            invariant
                old(self).input().is_finished() || old(self).is_finished() ==> *self == *old(self) && dest@.len()
                    == 0,
                self.reads_from(*old(self)),
                self.frame_kept(*old(self)),
                self.codec().given() == old(self).codec().given() + dest@,
                forall|i: int|
                    old(self).codec().steps().len() <= i < self.codec().steps().len() - 1 ==> (
                    #[trigger] self.codec().steps()[i]).given.len() == 0,
                dest@.len() == 0 && old(self).codec().steps().len() < self.codec().steps().len() ==> self.codec().steps().last().given.len()
                    == 0,
                dest@.len() <= capacity,
                self.position() == old(self).position() + dest@.len(),
            decreases
                    self.source.budget() + (capacity - dest@.len()) + (if self.source.is_finished() {
                        0nat
                    } else {
                        1nat
                    }),
        {
            let ghost mid = *self;
            let stepped = self.decompress_into_vec(&mut dest, capacity);
            proof {
                Self::lemma_reads_twice(*self, mid, *old(self));
            }
            match stepped {
                Err(e) => {
                    return Err(e);
                },
                Ok(_) => {
                    proof {
                        assert(dest@.skip(0) =~= dest@);
                        assert(old(self).codec().given() + Seq::<u8>::empty() + dest@ =~= old(self).codec().given()
                            + dest@);
                        assert forall|i: int|
                            old(self).codec().steps().len() <= i < self.codec().steps().len() - 1 implies (
                        #[trigger] self.codec().steps()[i]).given.len() == 0 by {
                            if i < mid.codec().steps().len() {
                                assert(self.codec().steps()[i] == mid.codec().steps()[i]);
                            }
                        }
                    }
                },
            }
        }
        Ok(dest)
    }

    /// Reads up to `size` bytes, and returns as soon as any output exists.
    /// A size of -1, or none, stands for the output size that the codec
    /// recommends.
    ///
    /// Refusals and empty reads are those of `read`, and a read on a source
    /// that has ended is empty as well and changes nothing. No more input
    /// is pulled than it takes to get some output.
    pub fn read1(&mut self, size: Option<isize>) -> (res: Result<Vec<u8>, ZstdError>)
        requires
            old(self).wf(),
        ensures
            final(self).reads_from(*old(self)),
            old(self).is_closed() ==> res == Err::<Vec<u8>, ZstdError>(ZstdError::StreamClosed) && *final(self)
                == *old(self),
            !old(self).is_closed() && requested(size) < -1 ==> res == Err::<Vec<u8>, ZstdError>(
                ZstdError::NegativeReadSize,
            ) && *final(self) == *old(self),
            !old(self).is_closed() && requested(size) >= -1 && (old(self).is_finished() || requested(size) == 0
                || old(self).input().is_finished()) ==> (res matches Ok(data) && data@.len() == 0 && *final(self)
                == *old(self)),
            match res {
                Ok(data) => {
                    &&& !old(self).is_closed()
                    &&& requested(size) >= -1
                    &&& final(self).position() == old(self).position() + data@.len()
                    &&& requested(size) >= 0 ==> data@.len() <= requested(size)
                    &&& requested(size) != 0 && data@.len() == 0 ==> final(self).input().is_finished() || final(self).is_finished()
                    &&& final(self).frame_kept(*old(self))
                    &&& final(self).codec().given() == old(self).codec().given() + data@
                    &&& forall|i: int|
                        old(self).codec().steps().len() <= i < final(self).codec().steps().len() - 1 ==> (
                        #[trigger] final(self).codec().steps()[i]).given.len() == 0
                },
                Err(e) => Self::read_fails(*old(self), requested(size), e) && (requested(size) == 0 ==> old(self).is_closed()),
            },
    {
        if self.closed {
            return Err(ZstdError::StreamClosed);
        }
        let size = match size {
            Some(n) => n,
            None => -1,
        };
        if size < -1 {
            return Err(ZstdError::NegativeReadSize);
        }
        if self.finished_output || size == 0 {
            return Ok(Vec::new());
        }
        let capacity = if size == -1 {
            dstream_out_size()
        } else {
            size as usize
        };
        self.read1_bounded(capacity)
    }

    /// Reads into `buffer`, from its start, at most as many bytes as it
    /// holds. The result is the number of bytes read; the rest of `buffer`
    /// stays as it was.
    ///
    /// A closed reader refuses with `StreamClosed`. After the stream has
    /// ended the result is zero and nothing changes.
    pub fn readinto(&mut self, buffer: &mut Vec<u8>) -> (res: Result<usize, ZstdError>)
        requires
            old(self).wf(),
        ensures
            final(self).reads_from(*old(self)),
            final(buffer)@.len() == old(buffer)@.len(),
            old(self).is_closed() ==> res == Err::<usize, ZstdError>(ZstdError::StreamClosed) && *final(self)
                == *old(self) && final(buffer)@ == old(buffer)@,
            !old(self).is_closed() && old(self).is_finished() ==> res == Ok::<usize, ZstdError>(0) && *final(self)
                == *old(self) && final(buffer)@ == old(buffer)@,
            match res {
                Ok(count) => {
                    &&& !old(self).is_closed()
                    &&& count <= old(buffer)@.len()
                    &&& final(self).position() == old(self).position() + count
                    &&& final(buffer)@.subrange(count as int, old(buffer)@.len() as int) == old(buffer)@.subrange(
                        count as int,
                        old(buffer)@.len() as int,
                    )
                    &&& count < old(buffer)@.len() ==> final(self).input().is_finished() || final(self).is_finished()
                    &&& final(self).frame_kept(*old(self))
                    &&& final(self).codec().given() == old(self).codec().given() + final(buffer)@.subrange(
                        0,
                        count as int,
                    )
                },
                Err(e) => final(buffer)@ == old(buffer)@ && Self::read_fails(*old(self), 0, e),
            },
    {
        if self.closed {
            return Err(ZstdError::StreamClosed);
        }
        if self.finished_output {
            assert(buffer@.subrange(0, buffer@.len() as int) =~= buffer@);
            return Ok(0);
        }
        match self.read_bounded(buffer.len()) {
            Err(e) => Err(e),
            Ok(data) => {
                copy_into(buffer, &data);
                Ok(data.len())
            },
        }
    }

    /// Reads into `buffer` as `readinto` does, and returns as soon as any
    /// output exists. On a source that has ended nothing is read and
    /// nothing changes.
    pub fn readinto1(&mut self, buffer: &mut Vec<u8>) -> (res: Result<usize, ZstdError>)
        requires
            old(self).wf(),
        ensures
            final(self).reads_from(*old(self)),
            final(buffer)@.len() == old(buffer)@.len(),
            old(self).is_closed() ==> res == Err::<usize, ZstdError>(ZstdError::StreamClosed) && *final(self)
                == *old(self) && final(buffer)@ == old(buffer)@,
            !old(self).is_closed() && (old(self).is_finished() || old(self).input().is_finished()) ==> res == Ok::<
                usize,
                ZstdError,
            >(0) && *final(self) == *old(self) && final(buffer)@ == old(buffer)@,
            match res {
                Ok(count) => {
                    &&& !old(self).is_closed()
                    &&& count <= old(buffer)@.len()
                    &&& final(self).position() == old(self).position() + count
                    &&& final(buffer)@.subrange(count as int, old(buffer)@.len() as int) == old(buffer)@.subrange(
                        count as int,
                        old(buffer)@.len() as int,
                    )
                    &&& count == 0 ==> final(self).input().is_finished() || final(self).is_finished()
                    &&& final(self).frame_kept(*old(self))
                    &&& final(self).codec().given() == old(self).codec().given() + final(buffer)@.subrange(
                        0,
                        count as int,
                    )
                },
                Err(e) => final(buffer)@ == old(buffer)@ && Self::read_fails(*old(self), 0, e),
            },
    {
        if self.closed {
            return Err(ZstdError::StreamClosed);
        }
        if self.finished_output {
            assert(buffer@.subrange(0, buffer@.len() as int) =~= buffer@);
            return Ok(0);
        }
        match self.read1_bounded(buffer.len()) {
            Err(e) => Err(e),
            Ok(data) => {
                let ghost before = buffer@;
                copy_into(buffer, &data);
                assert(data@.len() == 0 ==> buffer@ =~= before) by {
                    if data@.len() == 0 {
                        assert(buffer@.subrange(0, before.len() as int) =~= buffer@);
                        assert(before.subrange(0, before.len() as int) =~= before);
                    }
                }
                Ok(data.len())
            },
        }
    }

    /// Moves forward to a position by decoding output and dropping it. The
    /// result is the position reached, which is short of the target only
    /// where the stream ends before it.
    ///
    /// `whence` names the origin of `pos` and stands for the start of the
    /// stream where it is not given. A closed reader refuses with
    /// `StreamClosed`; a seek backwards, to a negative position or from the
    /// end is refused as `seek_amount` says, and changes nothing.
    pub fn seek(&mut self, pos: isize, whence: Option<i32>) -> (res: Result<usize, ZstdError>)
        requires
            old(self).wf(),
        ensures
            final(self).reads_from(*old(self)),
            old(self).is_closed() ==> res == Err::<usize, ZstdError>(ZstdError::StreamClosed) && *final(self)
                == *old(self),
            !old(self).is_closed() ==> match seek_amount(old(self).position(), pos, origin(whence)) {
                Err(e) => res == Err::<usize, ZstdError>(e) && *final(self) == *old(self),
                Ok(amount) => {
                    &&& amount == 0 || old(self).is_finished() ==> res == Ok::<usize, ZstdError>(old(self).position())
                        && *final(self) == *old(self)
                    &&& match res {
                        Ok(reached) => {
                            &&& reached == final(self).position()
                            &&& final(self).frame_kept(*old(self))
                            &&& final(self).codec().given().len() == old(self).codec().given().len() + reached
                                - old(self).position()
                            &&& old(self).position() <= reached <= old(self).position() + amount
                            &&& reached < old(self).position() + amount ==> final(self).input().is_finished()
                                || final(self).is_finished()
                        },
                        Err(e) => amount > 0 && Self::read_fails(*old(self), 0, e),
                    }
                },
            },
            res matches Err(e) ==> {
                ||| e == ZstdError::StreamClosed && old(self).is_closed()
                ||| !old(self).is_closed() && seek_amount(old(self).position(), pos, origin(whence)) == Err::<
                    usize,
                    ZstdError,
                >(e)
                ||| !old(self).is_closed() && seek_amount(old(self).position(), pos, origin(whence)) is Ok
                    && is_read_error(e)
            },
    {
        if self.closed {
            return Err(ZstdError::StreamClosed);
        }
        let from = match whence {
            Some(w) => w,
            None => SEEK_SET,
        };
        let amount = match resolve_seek(self.bytes_decompressed, pos, from) {
            Ok(amount) => amount,
            Err(e) => {
                return Err(e);
            },
        };
        let step_size = dstream_out_size();
        let mut left = amount;
        while left > 0
            invariant
                !old(self).closed,
                seek_amount(old(self).position(), pos, origin(whence)) == Ok::<usize, ZstdError>(amount),
                self.reads_from(*old(self)),
                self.frame_kept(*old(self)),
                self.codec().given().len() == old(self).codec().given().len() + self.position() - old(self).position(),
                left <= amount,
                self.position() + left == old(self).position() + amount,
                amount == 0 || old(self).is_finished() ==> *self == *old(self),
            ensures
                amount == 0 || old(self).is_finished() ==> *self == *old(self),
                left > 0 ==> self.input().is_finished() || self.is_finished(),
                self.reads_from(*old(self)),
                self.frame_kept(*old(self)),
                self.codec().given().len() == old(self).codec().given().len() + self.position() - old(self).position(),
                left <= amount,
                self.position() + left == old(self).position() + amount,
            decreases left,
        {
            if self.finished_output {
                break ;
            }
            let want = if step_size == 0 || left < step_size {
                left
            } else {
                step_size
            };
            let ghost mid = *self;
            let read = self.read_bounded(want);
            proof {
                Self::lemma_reads_twice(*self, mid, *old(self));
            }
            let chunk = match read {
                Ok(chunk) => chunk,
                Err(e) => {
                    return Err(e);
                },
            };
            if chunk.len() == 0 {
                break ;
            }
            left = left - chunk.len();
        }
        Ok(self.bytes_decompressed)
    }
}

} // verus!
