//! The one-shot incremental compressor: `compress` as often as needed, then
//! `flush`.

use crate::compression_reader::is_step_error;
use crate::constants::{COMPRESSOBJ_FLUSH_BLOCK, COMPRESSOBJ_FLUSH_FINISH};
use crate::drain::{compress_to_chunks, flush_to_chunks, join_chunks};
use crate::exceptions::{Context, ZstdError};
use crate::zstd_safe::{continues, cstream_out_size, CCtx, EndDirective};
use vstd::prelude::*;

verus! {

/// The end directive of a flush mode of the object: ending the frame where
/// none is given, nothing where the mode does not exist.
pub open spec fn object_flush_directive(flush_mode: Option<i32>) -> Option<EndDirective> {
    match flush_mode {
        None => Some(EndDirective::End),
        Some(mode) => if mode == COMPRESSOBJ_FLUSH_FINISH {
            Some(EndDirective::End)
        } else if mode == COMPRESSOBJ_FLUSH_BLOCK {
            Some(EndDirective::Flush)
        } else {
            None
        },
    }
}

/// Compresses one frame, piece by piece.
pub struct ZstdCompressionObj<'a> {
    cctx: CCtx<'a>,
    finished: bool,
}

impl<'a> ZstdCompressionObj<'a> {
    /// Whether the frame has been ended.
    pub closed spec fn is_finished(self) -> bool {
        self.finished
    }

    /// The context that the object compresses with.
    pub closed spec fn codec(self) -> CCtx<'a> {
        self.cctx
    }

    /// Whether `self` has made steps in `mode`, and no others, since it was
    /// `before`, which have taken in `input` and produced `output`.
    pub open spec fn stepped(self, before: Self, mode: EndDirective, input: Seq<u8>, output: Seq<u8>) -> bool {
        &&& continues(before.codec().steps(), self.codec().steps())
        &&& forall|i: int|
            before.codec().steps().len() <= i < self.codec().steps().len() ==> (#[trigger] self.codec().steps()[i]).mode
                == mode
        &&& self.codec().taken() == before.codec().taken() + input
        &&& self.codec().given() == before.codec().given() + output
    }

    /// An object that has compressed nothing yet.
    pub fn new(cctx: CCtx<'a>) -> (obj: ZstdCompressionObj<'a>)
        ensures
            obj.codec() == cctx,
            !obj.is_finished(),
    {
        ZstdCompressionObj { cctx, finished: false }
    }

    /// Compresses `data` and hands back what the codec lets go of.
    ///
    /// Fails with `CompressAfterFinished` once the frame has been ended,
    /// else only on a codec fault.
    pub fn compress(&mut self, data: &[u8]) -> (res: Result<Vec<u8>, ZstdError>)
        ensures
            final(self).is_finished() == old(self).is_finished(),
            old(self).is_finished() ==> res == Err::<Vec<u8>, ZstdError>(ZstdError::CompressAfterFinished)
                && *final(self) == *old(self),
            res matches Err(e) ==> if old(self).is_finished() {
                e == ZstdError::CompressAfterFinished
            } else {
                data@.len() > 0 && is_step_error(e)
            },
            !old(self).is_finished() && data@.len() == 0 ==> (res matches Ok(out) && out@.len() == 0),
            continues(old(self).codec().steps(), final(self).codec().steps()),
            res matches Ok(out) ==> final(self).stepped(*old(self), EndDirective::Continue, data@, out@),
    {
        if self.finished {
            return Err(ZstdError::CompressAfterFinished);
        }
        let write_size = cstream_out_size();
        let mut chunks: Vec<Vec<u8>> = Vec::new();
        let run = compress_to_chunks(&mut self.cctx, data, write_size, &mut chunks);
        proof {
            assert(chunks@.skip(0) =~= chunks@);
            assert(data@.subrange(0, data@.len() as int) =~= data@);
        }
        match run.fault {
            Some(fault) => Err(ZstdError::Codec { context: Context::Compress, fault }),
            None => Ok(join_chunks(&chunks)),
        }
    }

    /// Flushes the codec and hands back what comes out. Ending the frame,
    /// which is what happens where no mode is given, finishes the object.
    ///
    /// A mode that does not exist is refused with `FlushModeNotRecognized`,
    /// and then a finished object with `AlreadyFinished`; neither changes
    /// the object.
    pub fn flush(&mut self, flush_mode: Option<i32>) -> (res: Result<Vec<u8>, ZstdError>)
        ensures
            object_flush_directive(flush_mode) is None ==> res == Err::<Vec<u8>, ZstdError>(
                ZstdError::FlushModeNotRecognized,
            ) && *final(self) == *old(self),
            object_flush_directive(flush_mode) is Some && old(self).is_finished() ==> res == Err::<
                Vec<u8>,
                ZstdError,
            >(ZstdError::AlreadyFinished) && *final(self) == *old(self),
            object_flush_directive(flush_mode) is Some && !old(self).is_finished() ==> {
                &&& final(self).is_finished() == (object_flush_directive(flush_mode) == Some(EndDirective::End))
                &&& res matches Err(e) ==> (e matches ZstdError::Codec { context: Context::EndStream, fault }
                    && !(fault is PartialFrameFlush))
                &&& res matches Ok(out) ==> {
                    &&& final(self).stepped(
                        *old(self),
                        object_flush_directive(flush_mode)->0,
                        Seq::<u8>::empty(),
                        out@,
                    )
                    &&& old(self).codec().steps().len() < final(self).codec().steps().len()
                    &&& final(self).codec().steps().last().remaining == 0
                    &&& forall|i: int|
                        old(self).codec().steps().len() <= i < final(self).codec().steps().len() - 1 ==> (
                        #[trigger] final(self).codec().steps()[i]).remaining != 0
                }
            },
            continues(old(self).codec().steps(), final(self).codec().steps()),
    {
        let end_mode = match flush_mode {
            None => EndDirective::End,
            Some(mode) => if mode == COMPRESSOBJ_FLUSH_FINISH {
                EndDirective::End
            } else if mode == COMPRESSOBJ_FLUSH_BLOCK {
                EndDirective::Flush
            } else {
                return Err(ZstdError::FlushModeNotRecognized);
            },
        };
        if self.finished {
            return Err(ZstdError::AlreadyFinished);
        }
        if let EndDirective::End = end_mode {
            self.finished = true;
        }
        let write_size = cstream_out_size();
        let mut chunks: Vec<Vec<u8>> = Vec::new();
        let run = flush_to_chunks(&mut self.cctx, end_mode, write_size, &mut chunks);
        proof {
            assert(chunks@.skip(0) =~= chunks@);
            assert(Seq::<u8>::empty().subrange(0, 0) =~= Seq::<u8>::empty());
        }
        match run.fault {
            Some(fault) => Err(ZstdError::Codec { context: Context::EndStream, fault }),
            None => Ok(join_chunks(&chunks)),
        }
    }
}

} // verus!
