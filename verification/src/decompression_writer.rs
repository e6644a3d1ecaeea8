//! The push writer for decompression.
//!
//! Compressed input pushed with `write` is decoded at once, and what comes
//! out is queued for the downstream sink in chunks of at most the write
//! size. As with the compression writer, the caller forwards the queue and
//! flushes or closes the sink when told to.

use crate::compression_writer::close_asks;
use crate::decompression_reader::is_step_error;
use crate::drain::{chunks_len, decompress_to_chunks, extends, joined};
use crate::exceptions::{Context, ZstdError};
use crate::zstd_safe::{continues, DCtx};
use vstd::prelude::*;

verus! {

/// Decompresses what is written to it.
pub struct ZstdDecompressionWriter<'a> {
    dctx: DCtx<'a>,
    write_size: usize,
    write_return_read: bool,
    closefd: bool,
    entered: bool,
    closed: bool,
}

impl<'a> ZstdDecompressionWriter<'a> {
    /// The largest size of a queued chunk.
    pub closed spec fn chunk_limit(self) -> usize {
        self.write_size
    }

    /// Whether `write` reports the bytes taken in rather than those queued.
    pub closed spec fn returns_read(self) -> bool {
        self.write_return_read
    }

    /// Whether closing the writer closes the sink.
    pub closed spec fn owns_sink(self) -> bool {
        self.closefd
    }

    /// Whether the writer is entered as a scoped resource.
    pub closed spec fn is_entered(self) -> bool {
        self.entered
    }

    /// Whether the writer is closed.
    pub closed spec fn is_closed(self) -> bool {
        self.closed
    }

    /// The context that the writer decompresses with.
    pub closed spec fn codec(self) -> DCtx<'a> {
        self.dctx
    }

    /// A writer over `dctx`.
    pub fn new(dctx: DCtx<'a>, write_size: usize, write_return_read: bool, closefd: bool) -> (w:
        ZstdDecompressionWriter<'a>)
        ensures
            w.codec() == dctx,
            w.chunk_limit() == write_size,
            w.returns_read() == write_return_read,
            w.owns_sink() == closefd,
            !w.is_entered(),
            !w.is_closed(),
    {
        ZstdDecompressionWriter { dctx, write_size, write_return_read, closefd, entered: false, closed: false }
    }

    /// Enters the writer as a scoped resource. A closed writer and one that
    /// is entered already refuse, in this order.
    pub fn enter(&mut self) -> (res: Result<(), ZstdError>)
        ensures
            match res {
                Ok(()) => !old(self).is_closed() && !old(self).is_entered() && final(self).is_entered(),
                Err(e) => {
                    &&& *final(self) == *old(self)
                    &&& old(self).is_closed() ==> e == ZstdError::StreamClosed
                    &&& !old(self).is_closed() ==> old(self).is_entered() && e == ZstdError::WriterEnteredTwice
                },
            },
            final(self).is_closed() == old(self).is_closed(),
            final(self).chunk_limit() == old(self).chunk_limit(),
            final(self).owns_sink() == old(self).owns_sink(),
            final(self).returns_read() == old(self).returns_read(),
    {
        if self.closed {
            Err(ZstdError::StreamClosed)
        } else if self.entered {
            Err(ZstdError::WriterEnteredTwice)
        } else {
            self.entered = true;
            Ok(())
        }
    }

    /// Leaves the scope and closes the writer. The result is that of
    /// `close`.
    pub fn exit(&mut self) -> (close_sink: bool)
        ensures
            !final(self).is_entered(),
            final(self).is_closed(),
            close_sink == (!old(self).is_closed() && old(self).owns_sink()),
            final(self).chunk_limit() == old(self).chunk_limit(),
            final(self).owns_sink() == old(self).owns_sink(),
            final(self).returns_read() == old(self).returns_read(),
    {
        self.entered = false;
        self.close()
    }

    /// The memory the context holds at the moment.
    pub fn memory_size(&self) -> usize {
        self.dctx.memory_size()
    }

    /// Whether the writer is closed.
    pub fn closed(&self) -> (closed: bool)
        ensures
            closed == self.is_closed(),
    {
        self.closed
    }

    /// Closes the writer, and says whether the sink is to be closed as well:
    /// it is, the first time, if the writer owns it. On a closed writer this
    /// does nothing. Closing does not flush the sink.
    pub fn close(&mut self) -> (close_sink: bool)
        ensures
            final(self).is_closed(),
            close_sink == close_asks(old(self).is_closed(), old(self).owns_sink()),
            old(self).is_closed() ==> *final(self) == *old(self),
            final(self).codec() == old(self).codec(),
            final(self).is_entered() == old(self).is_entered(),
            final(self).chunk_limit() == old(self).chunk_limit(),
            final(self).owns_sink() == old(self).owns_sink(),
            final(self).returns_read() == old(self).returns_read(),
    {
        if self.closed {
            return false;
        }
        self.closed = true;
        self.closefd
    }

    /// Asks for the sink to be flushed; the codec holds nothing back that a
    /// flush could release. A closed writer refuses with `StreamClosed`.
    pub fn flush(&self) -> (res: Result<bool, ZstdError>)
        ensures
            res == if self.is_closed() {
                Err::<bool, ZstdError>(ZstdError::StreamClosed)
            } else {
                Ok::<bool, ZstdError>(true)
            },
    {
        if self.closed {
            Err(ZstdError::StreamClosed)
        } else {
            Ok(true)
        }
    }

    /// Decompresses `data` and queues what comes out.
    ///
    /// A closed writer refuses with `StreamClosed` and queues nothing. The
    /// result of a successful write is the length of `data` if the writer
    /// reports what it read, else the number of bytes queued. What was
    /// queued before a fault stays queued.
    pub fn write(&mut self, data: &[u8], out: &mut Vec<Vec<u8>>) -> (res: Result<usize, ZstdError>)
        ensures
            extends(old(out)@, final(out)@, old(self).chunk_limit() as nat),
            final(self).is_closed() == old(self).is_closed(),
            final(self).is_entered() == old(self).is_entered(),
            final(self).chunk_limit() == old(self).chunk_limit(),
            final(self).owns_sink() == old(self).owns_sink(),
            final(self).returns_read() == old(self).returns_read(),
            old(self).is_closed() ==> res == Err::<usize, ZstdError>(ZstdError::StreamClosed) && final(out)@ == old(out)@ && *final(self) == *old(self),
            !old(self).is_closed() && data@.len() == 0 ==> res == Ok::<usize, ZstdError>(0) && final(out)@ == old(out)@,
            continues(old(self).codec().steps(), final(self).codec().steps()),
            match res {
                Ok(n) => {
                    &&& !old(self).is_closed()
                    &&& final(self).codec().taken() == old(self).codec().taken() + data@
                    &&& final(self).codec().given() == old(self).codec().given() + joined(
                        final(out)@.skip(old(out)@.len() as int),
                    )
                    &&& n == if old(self).returns_read() {
                        data@.len()
                    } else {
                        chunks_len(final(out)@, old(out)@.len() as int)
                    }
                },
                Err(e) => if old(self).is_closed() {
                    e == ZstdError::StreamClosed
                } else {
                    data@.len() > 0 && is_step_error(e)
                },
            },
    {
        if self.closed {
            assert(out@.subrange(0, out@.len() as int) =~= out@);
            return Err(ZstdError::StreamClosed);
        }
        let run = decompress_to_chunks(&mut self.dctx, data, self.write_size, out);
        assert(data@.subrange(0, data@.len() as int) =~= data@);
        if let Some(fault) = run.fault {
            return Err(ZstdError::Codec { context: Context::Decompress, fault });
        }
        if self.write_return_read {
            Ok(run.consumed)
        } else {
            Ok(run.written)
        }
    }
}

} // verus!
