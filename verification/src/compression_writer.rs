//! The push writer for compression.
//!
//! Input pushed with `write` goes through the context at once, and what
//! comes out is queued for the downstream sink in chunks of at most the
//! write size. The writer performs no output itself: each operation appends
//! to a queue that the caller forwards, and says whether the sink is to be
//! flushed or closed afterwards.

use crate::constants::{FLUSH_BLOCK, FLUSH_FRAME};
use crate::drain::{chunks_len, compress_to_chunks, extends, flush_to_chunks, joined};
use crate::compression_reader::is_step_error;
use crate::exceptions::{Context, Fault, ZstdError};
use crate::zstd_safe::{continues, CCtx, EndDirective};
use vstd::prelude::*;

verus! {

/// What a flush asks of the caller.
#[derive(Clone, Copy, Debug, PartialEq, Eq, Structural)]
pub struct Flushed {
    /// Bytes that the flush queued.
    pub written: usize,
    /// Whether the sink is to be flushed too.
    pub flush_sink: bool,
}

/// The end directive of a writer flush mode, if the mode exists.
pub open spec fn flush_directive(flush_mode: usize) -> Option<EndDirective> {
    if flush_mode == FLUSH_BLOCK {
        Some(EndDirective::Flush)
    } else if flush_mode == FLUSH_FRAME {
        Some(EndDirective::End)
    } else {
        None
    }
}

/// Whether a call of `close` that succeeds asks for the sink to be closed:
/// it does on a writer that is open and owns its sink.
pub open spec fn close_asks(closed: bool, owns_sink: bool) -> bool {
    !closed && owns_sink
}

/// How many of `calls` calls of `close` in a row, each of which succeeds,
/// ask for the sink to be closed, on a writer that is closed or not and
/// owns its sink or not. Every call leaves the writer closed and its hold
/// on the sink as it was.
pub open spec fn closes_asked(closed: bool, owns_sink: bool, calls: nat) -> nat
    decreases calls,
{
    if calls == 0 {
        0
    } else {
        (if close_asks(closed, owns_sink) {
            1nat
        } else {
            0nat
        }) + closes_asked(true, owns_sink, (calls - 1) as nat)
    }
}

/// However often `close` is called, the sink is asked to be closed once
/// if the writer was open and owns it, by the first call, and never
/// otherwise.
pub proof fn lemma_closed_once(closed: bool, owns_sink: bool, calls: nat)
    ensures
        closes_asked(closed, owns_sink, calls) == (if calls > 0 && close_asks(closed, owns_sink) {
            1nat
        } else {
            0nat
        }),
        closes_asked(true, owns_sink, calls) == 0,
    decreases calls,
{
    if calls > 0 {
        lemma_closed_once(true, owns_sink, (calls - 1) as nat);
    }
}

/// Compresses what is written to it.
pub struct ZstdCompressionWriter<'a> {
    cctx: CCtx<'a>,
    write_size: usize,
    write_return_read: bool,
    closefd: bool,
    entered: bool,
    closed: bool,
    bytes_compressed: usize,
}

impl<'a> ZstdCompressionWriter<'a> {
    /// The largest size of a queued chunk.
    pub closed spec fn chunk_limit(self) -> usize {
        self.write_size
    }

    /// Whether `write` reports the bytes taken in rather than those queued.
    pub closed spec fn returns_read(self) -> bool {
        self.write_return_read
    }

    /// Whether closing the writer closes the sink.
    pub closed spec fn owns_sink(self) -> bool {
        self.closefd
    }

    /// Whether the writer is entered as a scoped resource.
    pub closed spec fn is_entered(self) -> bool {
        self.entered
    }

    /// Whether the writer is closed.
    pub closed spec fn is_closed(self) -> bool {
        self.closed
    }

    /// The number of compressed bytes queued so far.
    pub closed spec fn position(self) -> usize {
        self.bytes_compressed
    }

    /// The context that the writer compresses with.
    pub closed spec fn codec(self) -> CCtx<'a> {
        self.cctx
    }

    /// Whether `self` has flushed in `mode` since it was `before`: it has
    /// made steps in `mode` that took nothing in, at least one, and the
    /// last of them, and only the last, reported that nothing is left; what
    /// they produced is queued as `queued`.
    pub open spec fn flushed(self, before: Self, mode: EndDirective, queued: Seq<Vec<u8>>) -> bool {
        &&& self.stepped(before, mode, queued)
        &&& self.codec().taken() == before.codec().taken()
        &&& before.codec().steps().len() < self.codec().steps().len()
        &&& self.codec().steps().last().remaining == 0
        &&& forall|i: int|
            before.codec().steps().len() <= i < self.codec().steps().len() - 1 ==> (
            #[trigger] self.codec().steps()[i]).remaining != 0
    }

    /// Whether `self` has made steps in `mode`, and no others, since it was
    /// `before`, and has queued as `queued` all that they produced.
    pub open spec fn stepped(self, before: Self, mode: EndDirective, queued: Seq<Vec<u8>>) -> bool {
        &&& continues(before.codec().steps(), self.codec().steps())
        &&& forall|i: int|
            before.codec().steps().len() <= i < self.codec().steps().len() ==> (#[trigger] self.codec().steps()[i]).mode
                == mode
        &&& self.codec().given() == before.codec().given() + joined(queued)
    }

    /// A writer over `cctx`, after declaring `source_size` bytes of input.
    pub fn new(cctx: CCtx<'a>, source_size: u64, write_size: usize, write_return_read: bool, closefd: bool) -> (res:
        Result<ZstdCompressionWriter<'a>, ZstdError>)
        ensures
            match res {
                Ok(w) => {
                    &&& w.codec().steps() == cctx.steps()
                    &&& w.chunk_limit() == write_size
                    &&& w.returns_read() == write_return_read
                    &&& w.owns_sink() == closefd
                    &&& !w.is_entered()
                    &&& !w.is_closed()
                    &&& w.position() == 0
                },
                Err(e) => e matches ZstdError::Codec { context: Context::SourceSize, fault: Fault::Code(_) },
            },
    {
        let mut cctx = cctx;
        match cctx.set_pledged_source_size(source_size) {
            Ok(()) => {},
            Err(fault) => {
                return Err(ZstdError::Codec { context: Context::SourceSize, fault });
            },
        }
        Ok(
            ZstdCompressionWriter {
                cctx,
                write_size,
                write_return_read,
                closefd,
                entered: false,
                closed: false,
                bytes_compressed: 0,
            },
        )
    }

    /// Enters the writer as a scoped resource. A closed writer and one that
    /// is entered already refuse, in this order.
    pub fn enter(&mut self) -> (res: Result<(), ZstdError>)
        ensures
            match res {
                Ok(()) => !old(self).is_closed() && !old(self).is_entered() && final(self).is_entered(),
                Err(e) => {
                    &&& *final(self) == *old(self)
                    &&& old(self).is_closed() ==> e == ZstdError::StreamClosed
                    &&& !old(self).is_closed() ==> old(self).is_entered() && e == ZstdError::WriterEnteredTwice
                },
            },
            final(self).is_closed() == old(self).is_closed(),
            final(self).position() == old(self).position(),
            final(self).chunk_limit() == old(self).chunk_limit(),
            final(self).owns_sink() == old(self).owns_sink(),
            final(self).returns_read() == old(self).returns_read(),
    {
        if self.closed {
            Err(ZstdError::StreamClosed)
        } else if self.entered {
            Err(ZstdError::WriterEnteredTwice)
        } else {
            self.entered = true;
            Ok(())
        }
    }

    /// Leaves the scope: the writer is closed, whatever the reason for
    /// leaving. The result is that of `close`.
    pub fn exit(&mut self, out: &mut Vec<Vec<u8>>) -> (res: Result<bool, ZstdError>)
        ensures
            !final(self).is_entered(),
            final(self).is_closed(),
            final(self).owns_sink() == old(self).owns_sink(),
            final(self).chunk_limit() == old(self).chunk_limit(),
            extends(old(out)@, final(out)@, old(self).chunk_limit() as nat),
            old(self).is_closed() ==> res == Ok::<bool, ZstdError>(false) && final(out)@ == old(out)@,
            res matches Ok(close_sink) ==> close_sink == (!old(self).is_closed() && old(self).owns_sink()),
    {
        self.entered = false;
        self.close(out)
    }

    /// The memory the context holds at the moment.
    pub fn memory_size(&self) -> usize {
        self.cctx.memory_size()
    }

    /// Whether the writer is closed.
    pub fn closed(&self) -> (closed: bool)
        ensures
            closed == self.is_closed(),
    {
        self.closed
    }

    /// The number of compressed bytes queued so far.
    pub fn tell(&self) -> (position: usize)
        ensures
            position == self.position(),
    {
        self.bytes_compressed
    }

    /// Adds `written` to the count of compressed bytes.
    fn advance(&mut self, written: usize) -> (res: Result<(), ZstdError>)
        ensures
            final(self).cctx == old(self).cctx,
            final(self).write_size == old(self).write_size,
            final(self).write_return_read == old(self).write_return_read,
            final(self).closefd == old(self).closefd,
            final(self).entered == old(self).entered,
            final(self).closed == old(self).closed,
            match res {
                Ok(()) => final(self).bytes_compressed == old(self).bytes_compressed + written,
                Err(e) => {
                    &&& old(self).bytes_compressed + written > usize::MAX
                    &&& final(self).bytes_compressed == old(self).bytes_compressed
                    &&& e == (ZstdError::Codec { context: Context::Compress, fault: Fault::CounterOverflow })
                },
            },
    {
        match self.bytes_compressed.checked_add(written) {
            Some(sum) => {
                self.bytes_compressed = sum;
                Ok(())
            },
            None => Err(ZstdError::Codec { context: Context::Compress, fault: Fault::CounterOverflow }),
        }
    }

    /// Compresses `data` and queues what comes out.
    ///
    /// A closed writer refuses with `StreamClosed` and queues nothing. The
    /// result of a successful write is the length of `data` if the writer
    /// reports what it read, else the number of bytes queued. What was
    /// queued before a fault stays queued and counted.
    pub fn write(&mut self, data: &[u8], out: &mut Vec<Vec<u8>>) -> (res: Result<usize, ZstdError>)
        ensures
            extends(old(out)@, final(out)@, old(self).chunk_limit() as nat),
            final(self).is_closed() == old(self).is_closed(),
            final(self).is_entered() == old(self).is_entered(),
            final(self).chunk_limit() == old(self).chunk_limit(),
            final(self).owns_sink() == old(self).owns_sink(),
            final(self).returns_read() == old(self).returns_read(),
            old(self).is_closed() ==> res == Err::<usize, ZstdError>(ZstdError::StreamClosed) && final(out)@ == old(out)@
                && *final(self) == *old(self),
            !old(self).is_closed() ==> continues(old(self).codec().steps(), final(self).codec().steps()),
            !old(self).is_closed() && data@.len() == 0 ==> res == Ok::<usize, ZstdError>(0) && final(out)@ == old(out)@
                && final(self).position() == old(self).position() && final(self).codec().steps() == old(self).codec().steps(),
            match res {
                Ok(n) => {
                    &&& !old(self).is_closed()
                    &&& final(self).codec().taken() == old(self).codec().taken() + data@
                    &&& final(self).stepped(
                        *old(self),
                        EndDirective::Continue,
                        final(out)@.skip(old(out)@.len() as int),
                    )
                    &&& final(self).position() == old(self).position() + chunks_len(
                        final(out)@,
                        old(out)@.len() as int,
                    )
                    &&& n == if old(self).returns_read() {
                        data@.len()
                    } else {
                        chunks_len(final(out)@, old(out)@.len() as int)
                    }
                },
                Err(e) => if old(self).is_closed() {
                    e == ZstdError::StreamClosed
                } else {
                    data@.len() > 0 && is_step_error(e)
                },
            },
    {
        if self.closed {
            assert(out@.subrange(0, out@.len() as int) =~= out@);
            return Err(ZstdError::StreamClosed);
        }
        let run = compress_to_chunks(&mut self.cctx, data, self.write_size, out);
        assert(data@.subrange(0, data@.len() as int) =~= data@);
        match self.advance(run.written) {
            Ok(()) => {},
            Err(e) => {
                return Err(e);
            },
        }
        if let Some(fault) = run.fault {
            return Err(ZstdError::Codec { context: Context::Compress, fault });
        }
        if self.write_return_read {
            Ok(run.consumed)
        } else {
            Ok(run.written)
        }
    }

    /// Runs the context in `end_mode` until nothing is left to flush.
    fn drain(&mut self, end_mode: EndDirective, out: &mut Vec<Vec<u8>>) -> (res: Result<usize, ZstdError>)
        ensures
            extends(old(out)@, final(out)@, old(self).chunk_limit() as nat),
            continues(old(self).codec().steps(), final(self).codec().steps()),
            res is Ok ==> final(self).flushed(*old(self), end_mode, final(out)@.skip(old(out)@.len() as int)),
            final(self).write_size == old(self).write_size,
            final(self).write_return_read == old(self).write_return_read,
            final(self).closefd == old(self).closefd,
            final(self).entered == old(self).entered,
            final(self).closed == old(self).closed,
            match res {
                Ok(n) => {
                    &&& n == chunks_len(final(out)@, old(out)@.len() as int)
                    &&& final(self).position() == old(self).position() + n
                },
                Err(e) => is_step_error(e),
            },
    {
        let run = flush_to_chunks(&mut self.cctx, end_mode, self.write_size, out);
        proof {
            assert(Seq::<u8>::empty().subrange(0, 0) =~= Seq::<u8>::empty());
            assert(old(self).cctx.taken() + Seq::<u8>::empty() =~= old(self).cctx.taken());
        }
        match self.advance(run.written) {
            Ok(()) => {},
            Err(e) => {
                return Err(e);
            },
        }
        match run.fault {
            Some(fault) => Err(ZstdError::Codec { context: Context::Compress, fault }),
            None => Ok(run.written),
        }
    }

    /// Flushes the context: `FLUSH_BLOCK` emits what was taken in and keeps
    /// the frame open, `FLUSH_FRAME` ends the frame.
    ///
    /// Any other mode is refused with `UnknownFlushMode`, and then a closed
    /// writer with `StreamClosed`; neither queues anything. After a
    /// successful flush the sink is to be flushed as well.
    pub fn flush(&mut self, flush_mode: usize, out: &mut Vec<Vec<u8>>) -> (res: Result<Flushed, ZstdError>)
        ensures
            extends(old(out)@, final(out)@, old(self).chunk_limit() as nat),
            final(self).is_closed() == old(self).is_closed(),
            final(self).is_entered() == old(self).is_entered(),
            final(self).chunk_limit() == old(self).chunk_limit(),
            final(self).owns_sink() == old(self).owns_sink(),
            final(self).returns_read() == old(self).returns_read(),
            flush_directive(flush_mode) is None ==> res == Err::<Flushed, ZstdError>(
                ZstdError::UnknownFlushMode { mode: flush_mode },
            ),
            flush_directive(flush_mode) is Some && old(self).is_closed() ==> res == Err::<Flushed, ZstdError>(
                ZstdError::StreamClosed,
            ),
            flush_directive(flush_mode) is None || old(self).is_closed() ==> final(out)@ == old(out)@ && *final(self)
                == *old(self),
            continues(old(self).codec().steps(), final(self).codec().steps()),
            match res {
                Ok(flushed) => {
                    &&& flush_directive(flush_mode) is Some
                    &&& !old(self).is_closed()
                    &&& final(self).flushed(
                        *old(self),
                        flush_directive(flush_mode)->0,
                        final(out)@.skip(old(out)@.len() as int),
                    )
                    &&& flushed.flush_sink
                    &&& flushed.written == chunks_len(final(out)@, old(out)@.len() as int)
                    &&& final(self).position() == old(self).position() + flushed.written
                },
                Err(e) => if flush_directive(flush_mode) is None {
                    e == (ZstdError::UnknownFlushMode { mode: flush_mode })
                } else if old(self).is_closed() {
                    e == ZstdError::StreamClosed
                } else {
                    is_step_error(e)
                },
            },
    {
        assert(out@.subrange(0, out@.len() as int) =~= out@);
        let end_mode = if flush_mode == FLUSH_BLOCK {
            EndDirective::Flush
        } else if flush_mode == FLUSH_FRAME {
            EndDirective::End
        } else {
            return Err(ZstdError::UnknownFlushMode { mode: flush_mode });
        };
        if self.closed {
            return Err(ZstdError::StreamClosed);
        }
        match self.drain(end_mode, out) {
            Ok(written) => Ok(Flushed { written, flush_sink: true }),
            Err(e) => Err(e),
        }
    }

    /// Closes the writer: ends the frame, and says whether the sink is to be
    /// closed as well.
    ///
    /// On a closed writer this does nothing at all and the answer is no. On
    /// an open one the writer is closed even if ending the frame fails; the
    /// answer after a success is whether the writer owns the sink. So of any
    /// number of calls at most one asks for the sink to be closed.
    pub fn close(&mut self, out: &mut Vec<Vec<u8>>) -> (res: Result<bool, ZstdError>)
        ensures
            extends(old(out)@, final(out)@, old(self).chunk_limit() as nat),
            final(self).is_closed(),
            final(self).is_entered() == old(self).is_entered(),
            final(self).chunk_limit() == old(self).chunk_limit(),
            final(self).owns_sink() == old(self).owns_sink(),
            final(self).returns_read() == old(self).returns_read(),
            old(self).is_closed() ==> res == Ok::<bool, ZstdError>(false) && *final(self) == *old(self) && final(out)@
                == old(out)@,
            continues(old(self).codec().steps(), final(self).codec().steps()),
            match res {
                Ok(close_sink) => {
                    &&& close_sink == close_asks(old(self).is_closed(), old(self).owns_sink())
                    &&& !old(self).is_closed() ==> final(self).flushed(
                        *old(self),
                        EndDirective::End,
                        final(out)@.skip(old(out)@.len() as int),
                    )
                    &&& final(self).position() == old(self).position() + chunks_len(
                        final(out)@,
                        old(out)@.len() as int,
                    )
                },
                Err(e) => !old(self).is_closed() && is_step_error(e),
            },
    {
        if self.closed {
            assert(out@.subrange(0, out@.len() as int) =~= out@);
            assert(chunks_len(out@, out@.len() as int) == 0);
            return Ok(false);
        }
        let res = self.drain(EndDirective::End, out);
        self.closed = true;
        match res {
            Ok(_) => Ok(self.closefd),
            Err(e) => Err(e),
        }
    }
}

} // verus!
