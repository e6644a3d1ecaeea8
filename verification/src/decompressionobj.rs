//! The one-shot incremental decompressor: `decompress` piece by piece until
//! the frame ends.

use crate::decompression_reader::is_step_error;
use crate::exceptions::{Context, Fault, ZstdError};
use crate::zstd_safe::{continues, lemma_continues_twice, settled_since, DCtx};
use vstd::prelude::*;

verus! {

/// What follows a step of `decompress`.
#[derive(Clone, Copy, Debug, PartialEq, Eq, Structural)]
pub enum AfterStep {
    /// The frame has ended and the object with it; the input that is left
    /// is kept as unused.
    Finish,
    /// The call returns what it has.
    Return,
    /// Another step follows.
    Continue,
}

/// What follows a step that has produced `produced` bytes into a buffer of
/// `write_size` bytes, with `left` bytes of input left and `remaining` left
/// over in the codec.
///
/// No remainder means that a frame has ended. That finishes the object
/// unless it spans frames; if it does, the call returns when the input is
/// used up and goes on otherwise. Within a frame the call returns when the
/// input is used up and the step did not fill its buffer, and goes on
/// otherwise.
pub open spec fn step_outcome(remaining: usize, read_across_frames: bool, left: usize, produced: usize, write_size: usize) -> AfterStep {
    if remaining == 0 && !read_across_frames {
        AfterStep::Finish
    } else if remaining == 0 {
        if left == 0 {
            AfterStep::Return
        } else {
            AfterStep::Continue
        }
    } else if left == 0 && produced < write_size {
        AfterStep::Return
    } else {
        AfterStep::Continue
    }
}

/// What follows a step of `decompress`.
pub fn after_step(remaining: usize, read_across_frames: bool, left: usize, produced: usize, write_size: usize) -> (outcome:
    AfterStep)
    ensures
        outcome == step_outcome(remaining, read_across_frames, left, produced, write_size),
{
    if remaining == 0 && !read_across_frames {
        AfterStep::Finish
    } else if remaining == 0 {
        if left == 0 {
            AfterStep::Return
        } else {
            AfterStep::Continue
        }
    } else if left == 0 && produced < write_size {
        AfterStep::Return
    } else {
        AfterStep::Continue
    }
}

/// Decompresses one frame, or a run of frames, piece by piece.
pub struct ZstdDecompressionObj<'a> {
    dctx: DCtx<'a>,
    write_size: usize,
    read_across_frames: bool,
    finished: bool,
    unused_data: Vec<u8>,
}

impl<'a> ZstdDecompressionObj<'a> {
    /// The size of the output buffer of one step.
    pub closed spec fn chunk_limit(self) -> usize {
        self.write_size
    }

    /// Whether decoding goes on past the end of a frame.
    pub closed spec fn spans_frames(self) -> bool {
        self.read_across_frames
    }

    /// Whether a frame has ended, after which the object decodes no more.
    pub closed spec fn is_finished(self) -> bool {
        self.finished
    }

    /// The input that followed the end of the frame.
    pub closed spec fn unused(self) -> Seq<u8> {
        self.unused_data@
    }

    /// The context that the object decompresses with.
    pub closed spec fn codec(self) -> DCtx<'a> {
        self.dctx
    }

    /// An object that has decoded nothing yet.
    pub fn new(dctx: DCtx<'a>, write_size: usize, read_across_frames: bool) -> (obj: ZstdDecompressionObj<'a>)
        ensures
            obj.codec() == dctx,
            obj.chunk_limit() == write_size,
            obj.spans_frames() == read_across_frames,
            !obj.is_finished(),
            obj.unused().len() == 0,
    {
        ZstdDecompressionObj { dctx, write_size, read_across_frames, finished: false, unused_data: Vec::new() }
    }

    /// Decompresses `data` and hands back what comes out.
    ///
    /// A finished object refuses with `DecompressObjReused`; no input means
    /// no output and no change. Where frames are not spanned, the end of a
    /// frame finishes the object, and the rest of `data` is kept as unused.
    /// Where they are spanned, the object never finishes.
    ///
    /// What is handed back is what the steps of the call have produced, and
    /// what they have taken in is `data` without what is kept as unused. An
    /// object that does not span frames finishes exactly when one of the
    /// steps reports the end of a frame, and that step is the last.
    pub fn decompress(&mut self, data: &[u8]) -> (res: Result<Vec<u8>, ZstdError>)
        ensures
            continues(old(self).codec().steps(), final(self).codec().steps()),
            old(self).is_finished() || data@.len() == 0 ==> final(self).codec().steps() == old(self).codec().steps(),
            !old(self).is_finished() && !old(self).spans_frames() ==> (final(self).is_finished() <==> res is Ok
                && settled_since(final(self).codec().steps(), old(self).codec().steps().len() as int)),
            res matches Ok(out) ==> {
                &&& final(self).codec().given() == old(self).codec().given() + out@
                &&& final(self).codec().taken() == old(self).codec().taken() + data@.subrange(
                    0,
                    if final(self).is_finished() {
                        data@.len() - final(self).unused().len()
                    } else {
                        data@.len() as int
                    },
                )
                &&& forall|i: int|
                    old(self).codec().steps().len() <= i < final(self).codec().steps().len() - 1 ==> (
                    #[trigger] final(self).codec().steps()[i]).remaining != 0 || old(self).spans_frames()
                &&& final(self).is_finished() ==> final(self).codec().steps().last().remaining == 0
            },
            final(self).chunk_limit() == old(self).chunk_limit(),
            final(self).spans_frames() == old(self).spans_frames(),
            old(self).is_finished() ==> res == Err::<Vec<u8>, ZstdError>(ZstdError::DecompressObjReused)
                && *final(self) == *old(self),
            !old(self).is_finished() && data@.len() == 0 ==> (res matches Ok(out) && out@.len() == 0 && *final(self)
                == *old(self)),
            final(self).is_finished() ==> old(self).is_finished() || !old(self).spans_frames(),
            !old(self).is_finished() && final(self).is_finished() ==> {
                &&& res is Ok
                &&& final(self).unused().len() <= data@.len()
                &&& final(self).unused() == data@.skip(data@.len() - final(self).unused().len())
            },
            !final(self).is_finished() ==> final(self).unused() == old(self).unused(),
            res matches Err(e) ==> if old(self).is_finished() {
                e == ZstdError::DecompressObjReused
            } else {
                data@.len() > 0 && is_step_error(e) && !final(self).is_finished()
            },
    {
        if self.finished {
            return Err(ZstdError::DecompressObjReused);
        }
        if data.len() == 0 {
            proof {
                assert(data@.subrange(0, 0) =~= Seq::<u8>::empty());
                assert(self.dctx.taken() + Seq::<u8>::empty() =~= self.dctx.taken());
                assert(self.dctx.given() + Seq::<u8>::empty() =~= self.dctx.given());
            }
            return Ok(Vec::new());
        }
        let mut result: Vec<u8> = Vec::new();
        let mut pos: usize = 0;
        proof {
            assert(data@.subrange(0, 0) =~= Seq::<u8>::empty());
            assert(self.dctx.taken() + Seq::<u8>::empty() =~= self.dctx.taken());
            assert(self.dctx.given() + Seq::<u8>::empty() =~= self.dctx.given());
        }
        loop
            invariant
                continues(old(self).dctx.steps(), self.dctx.steps()),
                forall|i: int|
                    old(self).dctx.steps().len() <= i < self.dctx.steps().len() ==> (
                    #[trigger] self.dctx.steps()[i]).remaining != 0 || self.read_across_frames,
                self.dctx.taken() == old(self).dctx.taken() + data@.subrange(0, pos as int),
                self.dctx.given() == old(self).dctx.given() + result@,
                pos <= data@.len(),
                data@.len() > 0,
                !self.finished,
                !old(self).finished,
                self.write_size == old(self).write_size,
                self.read_across_frames == old(self).read_across_frames,
                self.unused_data == old(self).unused_data,
            decreases data@.len() - pos + (usize::MAX - result@.len()),
        {
            let view = vstd::slice::slice_subrange(data, pos, data.len());
            let ghost before = self.dctx.steps();
            let step = match self.dctx.decompress_buffers(view, self.write_size) {
                Ok(step) => step,
                Err(fault) => {
                    return Err(ZstdError::Codec { context: Context::Decompress, fault });
                },
            };
            let produced = step.output.len();
            let consumed = step.consumed;
            let remaining = step.remaining;
            proof {
                lemma_continues_twice(old(self).dctx.steps(), before, self.dctx.steps());
                assert(data@.subrange(0, pos as int) + view@.subrange(0, consumed as int) =~= data@.subrange(
                    0,
                    pos + consumed,
                ));
                assert(self.dctx.taken() =~= old(self).dctx.taken() + data@.subrange(0, pos + consumed));
                assert(self.dctx.given() =~= old(self).dctx.given() + (result@ + step.output@));
                assert forall|i: int| old(self).dctx.steps().len() <= i < self.dctx.steps().len() - 1 implies (
                #[trigger] self.dctx.steps()[i]).remaining != 0 || self.read_across_frames by {
                    assert(self.dctx.steps()[i] == before[i]);
                }
                assert(self.dctx.steps().last().remaining == remaining);
            }
            if produced > usize::MAX - result.len() {
                return Err(ZstdError::Codec { context: Context::Decompress, fault: Fault::CounterOverflow });
            }
            let mut output = step.output;
            result.append(&mut output);
            pos = pos + consumed;
            match after_step(remaining, self.read_across_frames, data.len() - pos, produced, self.write_size) {
                AfterStep::Finish => {
                    self.finished = true;
                    let rest = vstd::slice::slice_subrange(data, pos, data.len());
                    self.unused_data = vstd::slice::slice_to_vec(rest);
                    assert(self.unused_data@ =~= data@.skip(data@.len() - self.unused_data@.len()));
                    return Ok(result);
                },
                AfterStep::Return => {
                    assert(data@.subrange(0, pos as int) =~= data@.subrange(0, data@.len() as int));
                    return Ok(result);
                },
                AfterStep::Continue => {
                    if consumed == 0 && produced == 0 {
                        return Err(ZstdError::Codec { context: Context::Decompress, fault: Fault::NoProgress });
                    }
                },
            }
        }
    }

    /// Hands back nothing: the object holds no output back.
    pub fn flush(&self) -> (out: Vec<u8>)
        ensures
            out@.len() == 0,
    {
        Vec::new()
    }

    /// The input that followed the end of the frame.
    pub fn unused_data(&self) -> (bytes: &[u8])
        ensures
            bytes@ == self.unused(),
    {
        self.unused_data.as_slice()
    }

    /// Whether a frame has ended.
    pub fn eof(&self) -> (eof: bool)
        ensures
            eof == self.is_finished(),
    {
        self.finished
    }
}

} // verus!
