//! The pull reader for compression: a file-like `read` over a source of
//! uncompressed input.
//!
//! A read of `n` bytes feeds input to the codec until `n` bytes of output
//! are there or the source is exhausted; then it ends the frame and returns
//! what that produced as well. A read of everything is made of bounded
//! reads. `read1` returns as soon as any output exists.

use crate::compression_writer::close_asks;
use crate::constants::READALL_SIZE;
use crate::drain::copy_into;
use crate::exceptions::{Context, Fault, ZstdError};
use crate::stream::{is_source_error, InBufferSource};
use crate::zstd_safe::{continues, cstream_out_size, CCtx, EndDirective, StepRecord};
use vstd::prelude::*;

verus! {

/// Whether `e` is the failure of a compression step: the codec's own, a
/// step without progress, or a count that does not fit.
pub open spec fn is_step_error(e: ZstdError) -> bool {
    e matches ZstdError::Codec { context: Context::Compress, fault } && (fault is Code || fault == Fault::NoProgress
        || fault == Fault::CounterOverflow)
}

/// Whether `e` is the failure of the step that ends the frame: the codec's
/// own, or a count that does not fit.
pub open spec fn is_end_error(e: ZstdError) -> bool {
    e matches ZstdError::Codec { context: Context::EndStream, fault: Fault::Code(_) } || e == (ZstdError::Codec {
        context: Context::Compress,
        fault: Fault::CounterOverflow,
    })
}

/// Whether `e` is a failure that reading can meet once a read has been
/// accepted: that of the source, of a step, or of the step that ends the
/// frame.
pub open spec fn is_read_error(e: ZstdError) -> bool {
    is_source_error(e) || is_step_error(e) || is_end_error(e)
}

/// The error with which a read of `size` bytes is refused before anything is
/// asked of the source or the codec, if it is: a closed reader refuses every
/// read, and an open one a size below -1.
pub open spec fn read_refusal(closed: bool, size: int) -> Option<ZstdError> {
    if closed {
        Some(ZstdError::StreamClosed)
    } else if size < -1 {
        Some(ZstdError::NegativeReadSize)
    } else {
        None
    }
}

/// How a read goes on.
#[derive(Clone, Copy, Debug, PartialEq, Eq, Structural)]
pub enum ReadNext {
    /// The read hands back what it has.
    Return,
    /// The source is pulled and a step fed with what it has.
    Pull,
    /// The frame is ended, and the read hands back what it then has.
    End,
}

/// How a read goes on that has `len` bytes in a buffer of `capacity` bytes:
/// it returns with a full buffer, else feeds while the source has input,
/// else ends the frame.
pub open spec fn read_next(len: usize, capacity: usize, source_finished: bool) -> ReadNext {
    if len > 0 && len == capacity {
        ReadNext::Return
    } else if !source_finished {
        ReadNext::Pull
    } else {
        ReadNext::End
    }
}

/// Decides how a read goes on.
pub fn decide_read(len: usize, capacity: usize, source_finished: bool) -> (next: ReadNext)
    ensures
        next == read_next(len, capacity, source_finished),
{
    if len > 0 && len == capacity {
        ReadNext::Return
    } else if !source_finished {
        ReadNext::Pull
    } else {
        ReadNext::End
    }
}

/// How a read goes on that returns as soon as there is output, with `len`
/// bytes in a buffer of `capacity` bytes: it feeds only while it has
/// nothing and the source has input; it returns with a full buffer, and
/// with any output while the source has input; else it ends the frame.
pub open spec fn read1_next(len: usize, capacity: usize, source_finished: bool) -> ReadNext {
    if !source_finished && len == 0 {
        ReadNext::Pull
    } else if len == capacity || !source_finished {
        ReadNext::Return
    } else {
        ReadNext::End
    }
}

/// Decides how a read goes on that returns as soon as there is output.
pub fn decide_read1(len: usize, capacity: usize, source_finished: bool) -> (next: ReadNext)
    ensures
        next == read1_next(len, capacity, source_finished),
{
    if !source_finished && len == 0 {
        ReadNext::Pull
    } else if len == capacity || !source_finished {
        ReadNext::Return
    } else {
        ReadNext::End
    }
}

/// Whether the steps of `steps` from index `from` on are those of one
/// read: feeding steps, but for the last, which may end the frame.
pub open spec fn one_read(steps: Seq<StepRecord>, from: int) -> bool {
    &&& forall|i: int| from <= i < steps.len() - 1 ==> (#[trigger] steps[i]).mode == EndDirective::Continue
    &&& forall|i: int| from <= i < steps.len() ==> (#[trigger] steps[i]).mode != EndDirective::Flush
}

/// Whether feeding has stopped at the first output among the steps of
/// `steps` from index `from` on: a step that is followed by a feeding step
/// has produced nothing.
pub open spec fn stops_at_output(steps: Seq<StepRecord>, from: int) -> bool {
    forall|i: int, j: int|
        from <= i < j < steps.len() && (#[trigger] steps[j]).mode == EndDirective::Continue ==> (
        #[trigger] steps[i]).given.len() == 0
}

/// Whether one of the steps of `steps` from index `from` on has ended the
/// frame and left nothing behind.
pub open spec fn ended_since(steps: Seq<StepRecord>, from: int) -> bool {
    exists|i: int|
        from <= i < steps.len() && (#[trigger] steps[i]).mode == EndDirective::End && steps[i].remaining == 0
}

/// Compresses a source as it is read from.
pub struct ZstdCompressionReader<'a, S: InBufferSource> {
    cctx: CCtx<'a>,
    source: S,
    closefd: bool,
    closed: bool,
    entered: bool,
    bytes_compressed: usize,
    finished_output: bool,
}

impl<'a, S: InBufferSource> ZstdCompressionReader<'a, S> {
    /// Whether the source is well-formed, and has finished if the frame
    /// has been ended.
    pub closed spec fn wf(self) -> bool {
        self.source.wf() && (self.finished_output ==> self.source.is_finished())
    }

    /// The frame is ended only after the source has finished.
    pub proof fn lemma_finished(self)
        requires
            self.wf(),
        ensures
            self.input().wf(),
            self.is_finished() ==> self.input().is_finished(),
    {
    }

    /// Whether a read of `size` bytes from `before` may fail with `e`: a
    /// refused read fails with its refusal, and an accepted one with a
    /// failure of reading, which is that of the step that ends the frame
    /// where the source had finished before. No read fails after the frame
    /// has ended.
    pub open spec fn read_fails(before: Self, size: int, e: ZstdError) -> bool {
        match read_refusal(before.is_closed(), size) {
            Some(refusal) => e == refusal,
            None => {
                &&& !before.is_finished()
                &&& is_read_error(e)
                &&& before.input().is_finished() ==> is_end_error(e)
            },
        }
    }

    /// The source.
    pub closed spec fn input(self) -> S {
        self.source
    }

    /// Whether closing the reader closes the source.
    pub closed spec fn owns_source(self) -> bool {
        self.closefd
    }

    /// Whether the reader is closed.
    pub closed spec fn is_closed(self) -> bool {
        self.closed
    }

    /// Whether the reader is entered as a scoped resource.
    pub closed spec fn is_entered(self) -> bool {
        self.entered
    }

    /// The number of compressed bytes handed out so far.
    pub closed spec fn position(self) -> usize {
        self.bytes_compressed
    }

    /// Whether the frame has been ended and all of it handed out.
    pub closed spec fn is_finished(self) -> bool {
        self.finished_output
    }

    /// Whether `self` differs from `before` in nothing but what reading
    /// changes: the codec, the source, the position and the end of output,
    /// which is never taken back.
    pub open spec fn reads_from(self, before: Self) -> bool {
        &&& self.wf()
        &&& self.owns_source() == before.owns_source()
        &&& self.is_closed() == before.is_closed()
        &&& self.is_entered() == before.is_entered()
        &&& before.is_finished() ==> self.is_finished()
        &&& !before.is_finished() && self.is_finished() ==> self.input().is_finished()
        &&& self.input().budget() <= before.input().budget()
        &&& self.input().size() == before.input().size()
        &&& before.input().is_finished() ==> self.input() == before.input()
        &&& continues(before.codec().steps(), self.codec().steps())
        &&& self.codec().taken().len() + self.input().budget() == before.codec().taken().len()
            + before.input().budget()
        &&& forall|i: int|
            before.codec().steps().len() <= i < self.codec().steps().len() ==> {
                &&& (#[trigger] self.codec().steps()[i]).mode != EndDirective::Flush
                &&& self.codec().steps()[i].mode == EndDirective::End ==> self.input().is_finished()
            }
        &&& !before.is_finished() && self.is_finished() ==> ended_since(
            self.codec().steps(),
            before.codec().steps().len() as int,
        )
    }

    /// What reading changes twice, it changes.
    pub proof fn lemma_reads_twice(last: Self, mid: Self, first: Self)
        requires
            mid.reads_from(first),
            last.reads_from(mid),
        ensures
            last.reads_from(first),
    {
        let steps = last.codec().steps();
        assert forall|i: int| 0 <= i < first.codec().steps().len() implies #[trigger] steps[i]
            == first.codec().steps()[i] by {
            assert(steps[i] == mid.codec().steps()[i]);
        }
        assert forall|i: int| first.codec().steps().len() <= i < steps.len() implies {
            &&& (#[trigger] steps[i]).mode != EndDirective::Flush
            &&& steps[i].mode == EndDirective::End ==> last.input().is_finished()
        } by {
            if i < mid.codec().steps().len() {
                assert(steps[i] == mid.codec().steps()[i]);
            }
        }
        if !first.is_finished() && last.is_finished() {
            if mid.is_finished() {
                let i = choose|i: int|
                    first.codec().steps().len() <= i < mid.codec().steps().len() && (#[trigger] mid.codec().steps()[i]).mode
                        == EndDirective::End && mid.codec().steps()[i].remaining == 0;
                assert(steps[i] == mid.codec().steps()[i]);
            } else {
                let i = choose|i: int|
                    mid.codec().steps().len() <= i < steps.len() && (#[trigger] steps[i]).mode == EndDirective::End
                        && steps[i].remaining == 0;
                assert(steps[i].mode == EndDirective::End);
            }
        }
    }

    /// The context that the reader compresses with.
    pub closed spec fn codec(self) -> CCtx<'a> {
        self.cctx
    }

    /// A reader over `source`. The size declared to the codec is that of
    /// the source where the source knows it, else `size`.
    pub fn new(cctx: CCtx<'a>, source: S, size: u64, closefd: bool) -> (res: Result<
        ZstdCompressionReader<'a, S>,
        ZstdError,
    >)
        requires
            source.wf(),
        ensures
            match res {
                Ok(r) => {
                    &&& r.wf()
                    &&& r.codec().steps() == cctx.steps()
                    &&& r.input() == source
                    &&& r.owns_source() == closefd
                    &&& !r.is_closed()
                    &&& !r.is_entered()
                    &&& !r.is_finished()
                    &&& r.position() == 0
                },
                Err(e) => e matches ZstdError::Codec { context: Context::SourceSize, fault: Fault::Code(_) },
            },
    {
        let mut cctx = cctx;
        let size = match source.source_size() {
            Some(known) => known as u64,
            None => size,
        };
        match cctx.set_pledged_source_size(size) {
            Ok(()) => {},
            Err(fault) => {
                return Err(ZstdError::Codec { context: Context::SourceSize, fault });
            },
        }
        Ok(
            ZstdCompressionReader {
                cctx,
                source,
                closefd,
                closed: false,
                entered: false,
                bytes_compressed: 0,
                finished_output: false,
            },
        )
    }

    /// Enters the reader as a scoped resource. A reader that is entered
    /// already and a closed one refuse, in this order.
    pub fn enter(&mut self) -> (res: Result<(), ZstdError>)
        ensures
            match res {
                Ok(()) => {
                    &&& !old(self).is_entered()
                    &&& !old(self).is_closed()
                    &&& final(self).is_entered()
                    &&& final(self).input() == old(self).input()
                    &&& final(self).position() == old(self).position()
                    &&& final(self).is_finished() == old(self).is_finished()
                    &&& final(self).is_closed() == old(self).is_closed()
                    &&& final(self).owns_source() == old(self).owns_source()
                },
                Err(e) => {
                    &&& *final(self) == *old(self)
                    &&& old(self).is_entered() ==> e == ZstdError::ReaderEnteredTwice
                    &&& !old(self).is_entered() ==> old(self).is_closed() && e == ZstdError::StreamClosed
                },
            },
    {
        if self.entered {
            Err(ZstdError::ReaderEnteredTwice)
        } else if self.closed {
            Err(ZstdError::StreamClosed)
        } else {
            self.entered = true;
            Ok(())
        }
    }

    /// Leaves the scope and closes the reader. The result is that of
    /// `close`.
    pub fn exit(&mut self) -> (close_source: bool)
        ensures
            !final(self).is_entered(),
            final(self).is_closed(),
            close_source == close_asks(old(self).is_closed(), old(self).owns_source()),
            final(self).input() == old(self).input(),
            final(self).position() == old(self).position(),
    {
        self.entered = false;
        self.close()
    }

    /// Closes the reader, and says whether the source is to be closed as
    /// well: it is, the first time, if the reader owns it. On a closed
    /// reader this does nothing.
    pub fn close(&mut self) -> (close_source: bool)
        ensures
            final(self).is_closed(),
            close_source == close_asks(old(self).is_closed(), old(self).owns_source()),
            old(self).is_closed() ==> *final(self) == *old(self),
            final(self).input() == old(self).input(),
            final(self).position() == old(self).position(),
            final(self).is_entered() == old(self).is_entered(),
            final(self).is_finished() == old(self).is_finished(),
            final(self).owns_source() == old(self).owns_source(),
    {
        if self.closed {
            return false;
        }
        self.closed = true;
        self.closefd
    }

    /// Whether the reader is closed.
    pub fn closed(&self) -> (closed: bool)
        ensures
            closed == self.is_closed(),
    {
        self.closed
    }

    /// The number of compressed bytes handed out so far.
    pub fn tell(&self) -> (position: usize)
        ensures
            position == self.position(),
    {
        self.bytes_compressed
    }

    /// Adds `produced` to the count of compressed bytes.
    fn advance(&mut self, produced: usize) -> (res: Result<(), ZstdError>)
        ensures
            final(self).cctx == old(self).cctx,
            final(self).source == old(self).source,
            final(self).closefd == old(self).closefd,
            final(self).closed == old(self).closed,
            final(self).entered == old(self).entered,
            final(self).finished_output == old(self).finished_output,
            match res {
                Ok(()) => final(self).bytes_compressed == old(self).bytes_compressed + produced,
                Err(e) => {
                    &&& old(self).bytes_compressed + produced > usize::MAX
                    &&& final(self).bytes_compressed == old(self).bytes_compressed
                    &&& e == (ZstdError::Codec { context: Context::Compress, fault: Fault::CounterOverflow })
                },
            },
    {
        match self.bytes_compressed.checked_add(produced) {
            Some(sum) => {
                self.bytes_compressed = sum;
                Ok(())
            },
            None => Err(ZstdError::Codec { context: Context::Compress, fault: Fault::CounterOverflow }),
        }
    }

    /// Pulls a view from the source and runs one step on it, into `dest`.
    /// The result says whether `dest` is full.
    ///
    /// When the source has nothing more, nothing happens and the source has
    /// finished. Otherwise the step has read or written at least one byte.
    /// On a source that has finished before, neither the source nor the
    /// codec is asked: the call succeeds and changes nothing. With input in
    /// hand the source is not asked, and a failure is that of the step.
    fn compress_into_vec(&mut self, dest: &mut Vec<u8>, capacity: usize) -> (res: Result<bool, ZstdError>)
        requires
            old(self).wf(),
            old(dest)@.len() <= capacity,
        ensures
            old(self).input().is_finished() ==> res == Ok::<bool, ZstdError>(
                old(dest)@.len() > 0 && old(dest)@.len() == capacity,
            ) && final(dest)@ == old(dest)@ && *final(self) == *old(self),
            final(self).reads_from(*old(self)),
            final(self).is_finished() == old(self).is_finished(),
            old(dest)@.len() <= final(dest)@.len() <= capacity,
            final(self).codec().steps().len() <= old(self).codec().steps().len() + 1,
            forall|i: int|
                old(self).codec().steps().len() <= i < final(self).codec().steps().len() ==> (
                #[trigger] final(self).codec().steps()[i]).mode == EndDirective::Continue,
            match res {
                Ok(full) => {
                    &&& full == (final(dest)@.len() > 0 && final(dest)@.len() == capacity)
                    &&& final(self).position() == old(self).position() + final(dest)@.len() - old(dest)@.len()
                    &&& final(self).input().is_finished() || final(self).input().budget() + old(dest)@.len()
                        < old(self).input().budget() + final(dest)@.len()
                        || final(self).input().budget() < old(self).input().budget()
                    &&& final(self).codec().given() == old(self).codec().given() + final(dest)@.skip(
                        old(dest)@.len() as int,
                    )
                    &&& final(dest)@.subrange(0, old(dest)@.len() as int) == old(dest)@
                    &&& final(self).codec().steps().len() == old(self).codec().steps().len() ==> final(dest)@ == old(dest)@
                    &&& final(self).codec().steps().len() > old(self).codec().steps().len() ==> final(self).codec().steps().last().given == final(dest)@.skip(old(dest)@.len() as int)
                },
                Err(e) => {
                    &&& !old(self).input().is_finished()
                    &&& is_source_error(e) || is_step_error(e)
                    &&& old(self).input().pending().len() > 0 ==> is_step_error(e)
                },
            },
    {
        let pulled = self.source.input_buffer();
        let view = match pulled {
            Err(e) => {
                return Err(e);
            },
            Ok(None) => {
                proof {
                    assert(dest@.skip(dest@.len() as int) =~= Seq::<u8>::empty());
                    assert(self.cctx.given() + Seq::<u8>::empty() =~= self.cctx.given());
                    assert(dest@.subrange(0, dest@.len() as int) =~= dest@);
                }
                return Ok(dest.len() > 0 && dest.len() == capacity);
            },
            Ok(Some(view)) => view,
        };
        let step = self.cctx.compress_into_vec(dest, capacity, view, EndDirective::Continue);
        match step {
            Err(fault) => Err(ZstdError::Codec { context: Context::Compress, fault }),
            Ok(p) => {
                self.source.record_bytes_read(p.consumed);
                if p.consumed == 0 && p.produced == 0 {
                    return Err(ZstdError::Codec { context: Context::Compress, fault: Fault::NoProgress });
                }
                match self.advance(p.produced) {
                    Ok(()) => Ok(dest.len() > 0 && dest.len() == capacity),
                    Err(e) => Err(e),
                }
            },
        }
    }

    /// Ends the frame, into `dest`, and notes whether all of it is out. The
    /// source is left alone; a failure is that of the one step.
    fn end_into_vec(&mut self, dest: &mut Vec<u8>, capacity: usize) -> (res: Result<(), ZstdError>)
        requires
            old(self).wf(),
            old(self).input().is_finished(),
            old(dest)@.len() <= capacity,
        ensures
            final(self).reads_from(*old(self)),
            final(self).input() == old(self).input(),
            old(dest)@.len() <= final(dest)@.len() <= capacity,
            final(self).codec().steps().len() <= old(self).codec().steps().len() + 1,
            forall|i: int|
                old(self).codec().steps().len() <= i < final(self).codec().steps().len() ==> (
                #[trigger] final(self).codec().steps()[i]).mode == EndDirective::End,
            match res {
                Ok(()) => {
                    &&& final(self).position() == old(self).position() + final(dest)@.len() - old(dest)@.len()
                    &&& final(self).codec().steps().len() == old(self).codec().steps().len() + 1
                    &&& final(self).codec().given() == old(self).codec().given() + final(dest)@.skip(
                        old(dest)@.len() as int,
                    )
                    &&& final(dest)@.subrange(0, old(dest)@.len() as int) == old(dest)@
                    &&& final(self).codec().steps().last().given == final(dest)@.skip(old(dest)@.len() as int)
                    &&& final(self).is_finished() == (old(self).is_finished() || final(self).codec().steps().last().remaining == 0)
                },
                Err(e) => is_end_error(e) && final(self).position() == old(self).position() && final(self).is_finished() == old(self).is_finished(),
            },
    {
        let empty: Vec<u8> = Vec::new();
        let step = self.cctx.compress_into_vec(dest, capacity, empty.as_slice(), EndDirective::End);
        match step {
            Err(fault) => Err(ZstdError::Codec { context: Context::EndStream, fault }),
            Ok(p) => {
                assert(empty@.subrange(0, p.consumed as int) =~= Seq::<u8>::empty());
                match self.advance(p.produced) {
                    Ok(()) => {},
                    Err(e) => {
                        return Err(e);
                    },
                }
                if p.remaining == 0 {
                    self.finished_output = true;
                }
                Ok(())
            },
        }
    }

    /// A read into a buffer of `capacity` bytes: at most that many bytes of
    /// output. Fewer come only when the source is exhausted. On a source
    /// that has finished before, the read is the one step that ends the
    /// frame: the source is left alone, and a failure is that of the step.
    ///
    /// Before each step `decide_read` says how the read goes on. What is
    /// handed back is what the steps of the read have produced.
    fn read_bounded(&mut self, capacity: usize) -> (res: Result<Vec<u8>, ZstdError>)
        requires
            old(self).wf(),
        ensures
            final(self).reads_from(*old(self)),
            match res {
                Ok(data) => {
                    &&& data@.len() <= capacity
                    &&& final(self).position() == old(self).position() + data@.len()
                    &&& data@.len() < capacity ==> final(self).input().is_finished()
                    &&& final(self).codec().given() == old(self).codec().given() + data@
                    &&& one_read(final(self).codec().steps(), old(self).codec().steps().len() as int)
                },
                Err(e) => is_read_error(e) && (old(self).input().is_finished() ==> is_end_error(e)),
            },
    {
        let mut dest: Vec<u8> = Vec::new();
        proof {
            assert(self.cctx.given() + dest@ =~= self.cctx.given());
        }
        loop
            invariant
                old(self).input().is_finished() ==> *self == *old(self),
                self.reads_from(*old(self)),
                dest@.len() <= capacity,
                self.position() == old(self).position() + dest@.len(),
                self.codec().given() == old(self).codec().given() + dest@,
                forall|i: int|
                    old(self).codec().steps().len() <= i < self.codec().steps().len() ==> (
                    #[trigger] self.codec().steps()[i]).mode == EndDirective::Continue,
            decreases
                    self.source.budget() + (capacity - dest@.len()) + (if self.source.is_finished() {
                        0nat
                    } else {
                        1nat
                    }),
        {
            let ghost mid = *self;
            let ghost held = dest@;
            match decide_read(dest.len(), capacity, self.source.finished()) {
                ReadNext::Return => {
                    return Ok(dest);
                },
                ReadNext::Pull => {
                    let pulled = self.compress_into_vec(&mut dest, capacity);
                    proof {
                        Self::lemma_reads_twice(*self, mid, *old(self));
                    }
                    match pulled {
                        Err(e) => {
                            return Err(e);
                        },
                        Ok(_) => {
                            proof {
                                assert(held + dest@.skip(held.len() as int) =~= dest@);
                                assert(old(self).codec().given() + held + dest@.skip(held.len() as int) =~= old(self).codec().given() + dest@);
                            }
                        },
                    }
                },
                ReadNext::End => {
                    let ended = self.end_into_vec(&mut dest, capacity);
                    proof {
                        Self::lemma_reads_twice(*self, mid, *old(self));
                        if ended is Ok {
                            assert(held + dest@.skip(held.len() as int) =~= dest@);
                            assert(old(self).codec().given() + held + dest@.skip(held.len() as int) =~= old(self).codec().given() + dest@);
                            assert forall|i: int|
                                old(self).codec().steps().len() <= i < self.codec().steps().len() - 1 implies (
                            #[trigger] self.codec().steps()[i]).mode == EndDirective::Continue by {
                                assert(self.codec().steps()[i] == mid.codec().steps()[i]);
                            }
                        }
                    }
                    return match ended {
                        Err(e) => Err(e),
                        Ok(()) => Ok(dest),
                    };
                },
            }
        }
    }

    /// Reads until a read comes back empty, and hands back everything.
    pub fn readall(&mut self) -> (res: Result<Vec<u8>, ZstdError>)
        requires
            old(self).wf(),
        ensures
            final(self).reads_from(*old(self)),
            old(self).is_closed() ==> res == Err::<Vec<u8>, ZstdError>(ZstdError::StreamClosed) && *final(self)
                == *old(self),
            !old(self).is_closed() && old(self).is_finished() ==> (res matches Ok(data) && data@.len() == 0)
                && *final(self) == *old(self),
            match res {
                Ok(data) => {
                    &&& !old(self).is_closed()
                    &&& final(self).position() == old(self).position() + data@.len()
                    &&& final(self).input().is_finished()
                    &&& final(self).codec().given() == old(self).codec().given() + data@
                },
                Err(e) => Self::read_fails(*old(self), -1, e),
            },
    {
        if self.closed {
            return Err(ZstdError::StreamClosed);
        }
        let mut all: Vec<u8> = Vec::new();
        assert(self.cctx.given() + all@ =~= self.cctx.given());
        loop
            invariant
                !old(self).closed,
                self.reads_from(*old(self)),
                self.position() == old(self).position() + all@.len(),
                old(self).is_finished() ==> *self == *old(self) && all@.len() == 0,
                self.codec().given() == old(self).codec().given() + all@,
            decreases usize::MAX - self.position(),
        {
            if self.finished_output {
                return Ok(all);
            }
            let ghost mid = *self;
            let ghost held = all@;
            let read = self.read_bounded(READALL_SIZE);
            proof {
                Self::lemma_reads_twice(*self, mid, *old(self));
            }
            let mut chunk = match read {
                Err(e) => {
                    return Err(e);
                },
                Ok(chunk) => chunk,
            };
            assert(self.codec().given() =~= old(self).codec().given() + (held + chunk@));
            if chunk.len() == 0 {
                assert(held + chunk@ =~= held);
                return Ok(all);
            }
            all.append(&mut chunk);
        }
    }

    /// Reads up to `size` bytes of compressed output, or everything where
    /// `size` is -1.
    ///
    /// A closed reader refuses with `StreamClosed`, and then a size below
    /// -1 with `NegativeReadSize`. A read of zero bytes, and any read after
    /// the frame has ended, is empty and changes nothing. Otherwise fewer
    /// than `size` bytes come only when the source is exhausted.
    pub fn read(&mut self, size: isize) -> (res: Result<Vec<u8>, ZstdError>)
        requires
            old(self).wf(),
        ensures
            final(self).reads_from(*old(self)),
            old(self).is_closed() ==> res == Err::<Vec<u8>, ZstdError>(ZstdError::StreamClosed) && *final(self)
                == *old(self),
            !old(self).is_closed() && size < -1 ==> res == Err::<Vec<u8>, ZstdError>(ZstdError::NegativeReadSize)
                && *final(self) == *old(self),
            !old(self).is_closed() && size >= -1 && (old(self).is_finished() || size == 0) ==> (res matches Ok(data)
                && data@.len() == 0 && *final(self) == *old(self)),
            match res {
                Ok(data) => {
                    &&& !old(self).is_closed()
                    &&& size >= -1
                    &&& final(self).position() == old(self).position() + data@.len()
                    &&& size >= 0 ==> data@.len() <= size
                    &&& size == -1 || data@.len() < size ==> final(self).input().is_finished()
                    &&& final(self).codec().given() == old(self).codec().given() + data@
                    &&& size >= 0 ==> one_read(final(self).codec().steps(), old(self).codec().steps().len() as int)
                },
                Err(e) => Self::read_fails(*old(self), size as int, e) && (size == 0 ==> old(self).is_closed()),
            },
    {
        if self.closed {
            return Err(ZstdError::StreamClosed);
        }
        if size < -1 {
            return Err(ZstdError::NegativeReadSize);
        }
        if size == -1 {
            return self.readall();
        }
        if self.finished_output || size == 0 {
            return Ok(Vec::new());
        }
        self.read_bounded(size as usize)
    }

    /// A read that returns as soon as there is any output, into a buffer of
    /// `capacity` bytes. With no room at all and a source that has finished
    /// there is nothing to ask of the codec: the read is empty and changes
    /// nothing.
    ///
    /// Before each step `decide_read1` says how the read goes on. So input
    /// is fed only while there is no output, and a step that is followed
    /// by a feeding step has produced nothing.
    fn read1_bounded(&mut self, capacity: usize) -> (res: Result<Vec<u8>, ZstdError>)
        requires
            old(self).wf(),
        ensures
            old(self).input().is_finished() && capacity == 0 ==> (res matches Ok(data) && data@.len() == 0
                && *final(self) == *old(self)),
            final(self).reads_from(*old(self)),
            match res {
                Ok(data) => {
                    &&& data@.len() <= capacity
                    &&& final(self).position() == old(self).position() + data@.len()
                    &&& data@.len() == 0 && capacity > 0 ==> final(self).input().is_finished()
                    &&& final(self).codec().given() == old(self).codec().given() + data@
                    &&& one_read(final(self).codec().steps(), old(self).codec().steps().len() as int)
                    &&& stops_at_output(final(self).codec().steps(), old(self).codec().steps().len() as int)
                },
                Err(e) => is_read_error(e) && (old(self).input().is_finished() ==> is_end_error(e)),
            },
    {
        let mut dest: Vec<u8> = Vec::new();
        proof {
            assert(self.cctx.given() + dest@ =~= self.cctx.given());
        }
        loop
            invariant
                old(self).input().is_finished() ==> *self == *old(self) && dest@.len() == 0,
                self.reads_from(*old(self)),
                dest@.len() <= capacity,
                self.position() == old(self).position() + dest@.len(),
                self.codec().given() == old(self).codec().given() + dest@,
                forall|i: int|
                    old(self).codec().steps().len() <= i < self.codec().steps().len() ==> (
                    #[trigger] self.codec().steps()[i]).mode == EndDirective::Continue,
                forall|i: int|
                    old(self).codec().steps().len() <= i < self.codec().steps().len() - 1 ==> (
                    #[trigger] self.codec().steps()[i]).given.len() == 0,
                dest@.len() == 0 && old(self).codec().steps().len() < self.codec().steps().len() ==> self.codec().steps().last().given.len()
                    == 0,
            decreases
                    self.source.budget() + (capacity - dest@.len()) + (if self.source.is_finished() {
                        0nat
                    } else {
                        1nat
                    }),
        {
            let ghost mid = *self;
            let ghost held = dest@;
            match decide_read1(dest.len(), capacity, self.source.finished()) {
                ReadNext::Return => {
                    return Ok(dest);
                },
                ReadNext::Pull => {
                    let pulled = self.compress_into_vec(&mut dest, capacity);
                    proof {
                        Self::lemma_reads_twice(*self, mid, *old(self));
                    }
                    match pulled {
                        Err(e) => {
                            return Err(e);
                        },
                        Ok(_) => {
                            proof {
                                assert(held.len() == 0);
                                assert(dest@.skip(0) =~= dest@);
                                assert(old(self).codec().given() + held + dest@ =~= old(self).codec().given()
                                    + dest@);
                                assert forall|i: int|
                                    old(self).codec().steps().len() <= i < self.codec().steps().len()
                                        - 1 implies (#[trigger] self.codec().steps()[i]).given.len() == 0 by {
                                    if i < mid.codec().steps().len() {
                                        assert(self.codec().steps()[i] == mid.codec().steps()[i]);
                                    }
                                }
                                assert forall|i: int|
                                    old(self).codec().steps().len() <= i < self.codec().steps().len() implies (
                                #[trigger] self.codec().steps()[i]).mode == EndDirective::Continue by {
                                    if i < mid.codec().steps().len() {
                                        assert(self.codec().steps()[i] == mid.codec().steps()[i]);
                                    }
                                }
                            }
                        },
                    }
                },
                ReadNext::End => {
                    let ended = self.end_into_vec(&mut dest, capacity);
                    proof {
                        Self::lemma_reads_twice(*self, mid, *old(self));
                        if ended is Ok {
                            assert(held + dest@.skip(held.len() as int) =~= dest@);
                            assert(old(self).codec().given() + held + dest@.skip(held.len() as int) =~= old(self).codec().given() + dest@);
                            assert forall|i: int|
                                old(self).codec().steps().len() <= i < self.codec().steps().len() - 1 implies (
                            #[trigger] self.codec().steps()[i]).mode == EndDirective::Continue by {
                                assert(self.codec().steps()[i] == mid.codec().steps()[i]);
                            }
                        }
                    }
                    return match ended {
                        Err(e) => Err(e),
                        Ok(()) => Ok(dest),
                    };
                },
            }
        }
    }

    /// Reads up to `size` bytes, and returns as soon as any output exists.
    /// A size of -1 stands for the output size that the codec recommends.
    ///
    /// Refusals and empty reads are those of `read`. No more input is
    /// pulled than it takes to get some output.
    pub fn read1(&mut self, size: isize) -> (res: Result<Vec<u8>, ZstdError>)
        requires
            old(self).wf(),
        ensures
            final(self).reads_from(*old(self)),
            old(self).is_closed() ==> res == Err::<Vec<u8>, ZstdError>(ZstdError::StreamClosed) && *final(self)
                == *old(self),
            !old(self).is_closed() && size < -1 ==> res == Err::<Vec<u8>, ZstdError>(ZstdError::NegativeReadSize)
                && *final(self) == *old(self),
            !old(self).is_closed() && size >= -1 && (old(self).is_finished() || size == 0) ==> (res matches Ok(data)
                && data@.len() == 0 && *final(self) == *old(self)),
            match res {
                Ok(data) => {
                    &&& !old(self).is_closed()
                    &&& size >= -1
                    &&& final(self).position() == old(self).position() + data@.len()
                    &&& size >= 0 ==> data@.len() <= size
                    &&& size > 0 && data@.len() == 0 ==> final(self).input().is_finished()
                    &&& final(self).codec().given() == old(self).codec().given() + data@
                    &&& one_read(final(self).codec().steps(), old(self).codec().steps().len() as int)
                    &&& stops_at_output(final(self).codec().steps(), old(self).codec().steps().len() as int)
                },
                Err(e) => Self::read_fails(*old(self), size as int, e) && (size == 0 ==> old(self).is_closed()),
            },
    {
        if self.closed {
            return Err(ZstdError::StreamClosed);
        }
        if size < -1 {
            return Err(ZstdError::NegativeReadSize);
        }
        if self.finished_output || size == 0 {
            return Ok(Vec::new());
        }
        let capacity = if size == -1 {
            cstream_out_size()
        } else {
            size as usize
        };
        self.read1_bounded(capacity)
    }

    /// Reads into `buffer`, from its start, at most as many bytes as it
    /// holds. The result is the number of bytes read; the rest of `buffer`
    /// stays as it was.
    ///
    /// A closed reader refuses with `StreamClosed`. After the frame has
    /// ended the result is zero and nothing changes.
    pub fn readinto(&mut self, buffer: &mut Vec<u8>) -> (res: Result<usize, ZstdError>)
        requires
            old(self).wf(),
        ensures
            final(self).reads_from(*old(self)),
            final(buffer)@.len() == old(buffer)@.len(),
            old(self).is_closed() ==> res == Err::<usize, ZstdError>(ZstdError::StreamClosed) && *final(self)
                == *old(self) && final(buffer)@ == old(buffer)@,
            !old(self).is_closed() && old(self).is_finished() ==> res == Ok::<usize, ZstdError>(0) && *final(self)
                == *old(self) && final(buffer)@ == old(buffer)@,
            match res {
                Ok(count) => {
                    &&& !old(self).is_closed()
                    &&& count <= old(buffer)@.len()
                    &&& final(self).position() == old(self).position() + count
                    &&& final(buffer)@.subrange(count as int, old(buffer)@.len() as int) == old(buffer)@.subrange(
                        count as int,
                        old(buffer)@.len() as int,
                    )
                    &&& count < old(buffer)@.len() ==> final(self).input().is_finished()
                    &&& final(self).codec().given() == old(self).codec().given() + final(buffer)@.subrange(
                        0,
                        count as int,
                    )
                    &&& one_read(final(self).codec().steps(), old(self).codec().steps().len() as int)
                },
                Err(e) => final(buffer)@ == old(buffer)@ && Self::read_fails(*old(self), 0, e),
            },
    {
        if self.closed {
            return Err(ZstdError::StreamClosed);
        }
        if self.finished_output {
            assert(buffer@.subrange(0, buffer@.len() as int) =~= buffer@);
            return Ok(0);
        }
        match self.read_bounded(buffer.len()) {
            Err(e) => Err(e),
            Ok(data) => {
                copy_into(buffer, &data);
                Ok(data.len())
            },
        }
    }

    /// Reads into `buffer` as `readinto` does, and returns as soon as any
    /// output exists.
    pub fn readinto1(&mut self, buffer: &mut Vec<u8>) -> (res: Result<usize, ZstdError>)
        requires
            old(self).wf(),
        ensures
            final(self).reads_from(*old(self)),
            final(buffer)@.len() == old(buffer)@.len(),
            old(self).is_closed() ==> res == Err::<usize, ZstdError>(ZstdError::StreamClosed) && *final(self)
                == *old(self) && final(buffer)@ == old(buffer)@,
            !old(self).is_closed() && old(self).is_finished() ==> res == Ok::<usize, ZstdError>(0) && *final(self)
                == *old(self) && final(buffer)@ == old(buffer)@,
            match res {
                Ok(count) => {
                    &&& !old(self).is_closed()
                    &&& count <= old(buffer)@.len()
                    &&& final(self).position() == old(self).position() + count
                    &&& final(buffer)@.subrange(count as int, old(buffer)@.len() as int) == old(buffer)@.subrange(
                        count as int,
                        old(buffer)@.len() as int,
                    )
                    &&& count == 0 && old(buffer)@.len() > 0 ==> final(self).input().is_finished()
                    &&& final(self).codec().given() == old(self).codec().given() + final(buffer)@.subrange(
                        0,
                        count as int,
                    )
                    &&& one_read(final(self).codec().steps(), old(self).codec().steps().len() as int)
                    &&& stops_at_output(final(self).codec().steps(), old(self).codec().steps().len() as int)
                },
                Err(e) => final(buffer)@ == old(buffer)@ && Self::read_fails(*old(self), 0, e),
            },
    {
        if self.closed {
            return Err(ZstdError::StreamClosed);
        }
        if self.finished_output {
            assert(buffer@.subrange(0, buffer@.len() as int) =~= buffer@);
            return Ok(0);
        }
        match self.read1_bounded(buffer.len()) {
            Err(e) => Err(e),
            Ok(data) => {
                copy_into(buffer, &data);
                Ok(data.len())
            },
        }
    }
}

} // verus!
