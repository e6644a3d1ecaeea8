//! The pull iterator for decompression: chunk after chunk of decoded
//! output, for as long as the source has input.

use crate::exceptions::{Context, Fault, ZstdError};
use crate::stream::{is_source_error, InBufferSource};
use crate::zstd_safe::{continues, lemma_continues_twice, settled_since, DCtx};
use vstd::prelude::*;

verus! {

/// How the iterator goes on after a step.
#[derive(Clone, Copy, Debug, PartialEq, Eq, Structural)]
pub enum Next {
    /// The step produced output: it is handed out.
    Emit,
    /// The step neither took input nor produced output: the call fails.
    Stalled,
    /// The step took input and produced nothing: more input is fed.
    Again,
}

/// What the iterator does after a step.
#[derive(Clone, Copy, Debug, PartialEq, Eq, Structural)]
pub struct AfterStep {
    /// Whether the step has seen the end of a frame.
    pub frame_ended: bool,
    /// How the call goes on.
    pub next: Next,
}

/// What follows a step that took `consumed` bytes, produced `produced`
/// bytes and left `remaining` bytes of the frame to come.
pub open spec fn step_outcome(consumed: usize, produced: usize, remaining: usize) -> AfterStep {
    AfterStep {
        frame_ended: remaining == 0,
        next: if produced != 0 {
            Next::Emit
        } else if consumed == 0 {
            Next::Stalled
        } else {
            Next::Again
        },
    }
}

/// Decides what follows a step.
pub fn after_step(consumed: usize, produced: usize, remaining: usize) -> (res: AfterStep)
    ensures
        res == step_outcome(consumed, produced, remaining),
{
    let next = if produced != 0 {
        Next::Emit
    } else if consumed == 0 {
        Next::Stalled
    } else {
        Next::Again
    };
    AfterStep { frame_ended: remaining == 0, next }
}

/// Whether `e` is a failure that the codec reported for a step, or a step
/// without progress.
pub open spec fn is_step_error(e: ZstdError) -> bool {
    e matches ZstdError::Codec { context: Context::Decompress, fault } && (fault is Code || fault
        == Fault::NoProgress)
}

/// Decompresses a source, one chunk of output at a time.
pub struct ZstdDecompressorIterator<'a, S: InBufferSource> {
    dctx: DCtx<'a>,
    source: S,
    write_size: usize,
    finished_output: bool,
}

impl<'a, S: InBufferSource> ZstdDecompressorIterator<'a, S> {
    /// Whether the source is well-formed.
    pub closed spec fn wf(self) -> bool {
        self.source.wf()
    }

    /// The source.
    pub closed spec fn input(self) -> S {
        self.source
    }

    /// The largest size of a chunk.
    pub closed spec fn chunk_limit(self) -> usize {
        self.write_size
    }

    /// The context that the iterator decompresses with.
    pub closed spec fn codec(self) -> DCtx<'a> {
        self.dctx
    }

    /// Whether `self` has made the steps of one call since it was `before`:
    /// steps that have taken in what the source has handed over, of which
    /// none but the last has produced anything; and the end of a frame has
    /// been seen exactly if it had been seen before or one of the steps
    /// has reported it.
    pub open spec fn stepped(self, before: Self) -> bool {
        let steps = self.codec().steps();
        let from = before.codec().steps().len();
        &&& continues(before.codec().steps(), steps)
        &&& self.codec().taken().len() + self.input().budget() == before.codec().taken().len()
            + before.input().budget()
        &&& forall|i: int| from <= i < steps.len() - 1 ==> (#[trigger] steps[i]).given.len() == 0
        &&& self.is_finished() == (before.is_finished() || settled_since(steps, from as int))
    }

    /// Whether the end of a frame has been seen.
    pub closed spec fn is_finished(self) -> bool {
        self.finished_output
    }

    /// An iterator over `source` that passes over the first `skip_bytes`
    /// bytes of input.
    ///
    /// Fails with `SkipBytesBeyondChunk` if the source ends before that many
    /// bytes, and with the source's error if the source fails.
    pub fn new(dctx: DCtx<'a>, source: S, write_size: usize, skip_bytes: usize) -> (res: Result<
        ZstdDecompressorIterator<'a, S>,
        ZstdError,
    >)
        requires
            source.wf(),
        ensures
            match res {
                Ok(it) => {
                    &&& it.wf()
                    &&& it.codec() == dctx
                    &&& it.chunk_limit() == write_size
                    &&& !it.is_finished()
                    &&& it.input().budget() + skip_bytes == source.budget()
                    &&& it.input().size() == source.size()
                    &&& skip_bytes == 0 ==> it.input() == source
                },
                Err(e) => skip_bytes > 0 && (is_source_error(e) || e == ZstdError::SkipBytesBeyondChunk),
            },
            source.is_finished() && skip_bytes > 0 ==> res matches Err(ZstdError::SkipBytesBeyondChunk),
    {
        let mut input = source;
        let ghost start = source;
        let mut left = skip_bytes;
        while left > 0
            invariant
                input.wf(),
                left <= skip_bytes,
                input.budget() + (skip_bytes - left) == start.budget(),
                input.size() == start.size(),
                skip_bytes == 0 ==> input == start,
                left == skip_bytes ==> input == start,
                start.is_finished() ==> left == skip_bytes,
                start == source,
            decreases left,
        {
            let pulled = input.input_buffer();
            let available = match pulled {
                Err(e) => {
                    return Err(e);
                },
                Ok(None) => {
                    return Err(ZstdError::SkipBytesBeyondChunk);
                },
                Ok(Some(view)) => view.len(),
            };
            let read = if left < available {
                left
            } else {
                available
            };
            input.record_bytes_read(read);
            left = left - read;
        }
        Ok(ZstdDecompressorIterator { dctx, source: input, write_size, finished_output: false })
    }

    /// The next chunk, or `None` when there is none.
    ///
    /// Input is fed to the codec until output appears, which is handed out
    /// at once. Once the end of a frame has been seen, later calls hand out
    /// nothing. A chunk is never empty and never longer than the write size.
    pub fn next(&mut self) -> (res: Result<Option<Vec<u8>>, ZstdError>)
        requires
            old(self).wf(),
        ensures
            final(self).wf(),
            final(self).chunk_limit() == old(self).chunk_limit(),
            old(self).is_finished() ==> res == Ok::<Option<Vec<u8>>, ZstdError>(None) && *final(self) == *old(self),
            old(self).is_finished() ==> final(self).is_finished(),
            old(self).input().is_finished() ==> res == Ok::<Option<Vec<u8>>, ZstdError>(None) && *final(self) == *old(self),
            final(self).input().budget() <= old(self).input().budget(),
            final(self).input().size() == old(self).input().size(),
            final(self).stepped(*old(self)),
            match res {
                Ok(Some(chunk)) => 0 < chunk@.len() <= old(self).chunk_limit() && final(self).codec().given() == old(self).codec().given() + chunk@,
                Ok(None) => (old(self).is_finished() || final(self).input().is_finished()) && final(self).codec().given() == old(self).codec().given(),
                Err(e) => {
                    &&& !old(self).is_finished() && !old(self).input().is_finished()
                    &&& is_source_error(e) || is_step_error(e)
                },
            },
    {
        if self.finished_output {
            return Ok(None);
        }
        if self.source.finished() {
            return Ok(None);
        }
        let mut dest: Vec<u8> = Vec::new();
        loop
            invariant
                continues(old(self).dctx.steps(), self.dctx.steps()),
                self.dctx.taken().len() + self.source.budget() == old(self).dctx.taken().len() + old(self).source.budget(),
                self.dctx.given() == old(self).dctx.given(),
                forall|i: int|
                    old(self).dctx.steps().len() <= i < self.dctx.steps().len() ==> (#[trigger] self.dctx.steps()[i]).given.len()
                        == 0,
                self.finished_output == settled_since(self.dctx.steps(), old(self).dctx.steps().len() as int),
                self.source.wf(),
                self.write_size == old(self).write_size,
                !old(self).finished_output,
                self.source.budget() <= old(self).source.budget(),
                self.source.size() == old(self).source.size(),
                !old(self).source.is_finished(),
                dest@.len() == 0,
            ensures
                self.source.is_finished(),
            decreases self.source.budget(),
        {
            let pulled = self.source.input_buffer();
            let view = match pulled {
                Err(e) => {
                    return Err(e);
                },
                Ok(None) => {
                    break ;
                },
                Ok(Some(view)) => view,
            };
            let ghost before = self.dctx.steps();
            let step = self.dctx.decompress_into_vec(&mut dest, self.write_size, view);
            match step {
                Err(fault) => {
                    return Err(ZstdError::Codec { context: Context::Decompress, fault });
                },
                Ok(p) => {
                    self.source.record_bytes_read(p.consumed);
                    let after = after_step(p.consumed, p.produced, p.remaining);
                    if after.frame_ended {
                        self.finished_output = true;
                    }
                    proof {
                        let from = old(self).dctx.steps().len() as int;
                        let steps = self.dctx.steps();
                        lemma_continues_twice(old(self).dctx.steps(), before, steps);
                        assert(dest@.skip(0) =~= dest@);
                        assert forall|i: int| from <= i < steps.len() - 1 implies (#[trigger] steps[i]).given.len()
                            == 0 by {
                            assert(steps[i] == before[i]);
                        }
                        if p.produced == 0 {
                            assert(self.dctx.given() =~= old(self).dctx.given());
                        }
                        assert(steps.last().remaining == p.remaining);
                        if settled_since(before, from) {
                            let i = choose|i: int| from <= i < before.len() && (#[trigger] before[i]).remaining == 0;
                            assert(steps[i] == before[i]);
                        }
                        if settled_since(steps, from) && !settled_since(before, from) {
                            let i = choose|i: int| from <= i < steps.len() && (#[trigger] steps[i]).remaining == 0;
                            if i < before.len() {
                                assert(steps[i] == before[i]);
                                assert(before[i].remaining == 0);
                            }
                        }
                    }
                    match after.next {
                        Next::Emit => {
                            return Ok(Some(dest));
                        },
                        Next::Stalled => {
                            return Err(ZstdError::Codec { context: Context::Decompress, fault: Fault::NoProgress });
                        },
                        Next::Again => {},
                    }
                },
            }
        }
        Ok(None)
    }
}

} // verus!
