//! The pull iterator for compression: chunk after chunk of compressed
//! output, for as long as the source has input.

use crate::exceptions::{Context, Fault, ZstdError};
use crate::stream::{is_source_error, InBufferSource};
use crate::zstd_safe::{continues, lemma_continues_twice, CCtx, EndDirective};
use vstd::prelude::*;

verus! {

/// What the iterator does after a step that fed input to the codec.
#[derive(Clone, Copy, Debug, PartialEq, Eq, Structural)]
pub enum AfterFeed {
    /// The step produced output: it is handed out.
    Emit,
    /// The step neither took input nor produced output: the call fails.
    Stalled,
    /// The step took input and produced nothing: more input is fed.
    Again,
}

/// What follows a feeding step that took `consumed` bytes and produced
/// `produced` bytes.
pub open spec fn feed_outcome(consumed: usize, produced: usize) -> AfterFeed {
    if produced != 0 {
        AfterFeed::Emit
    } else if consumed == 0 {
        AfterFeed::Stalled
    } else {
        AfterFeed::Again
    }
}

/// Decides what follows a feeding step.
pub fn after_feed(consumed: usize, produced: usize) -> (res: AfterFeed)
    ensures
        res == feed_outcome(consumed, produced),
{
    if produced != 0 {
        AfterFeed::Emit
    } else if consumed == 0 {
        AfterFeed::Stalled
    } else {
        AfterFeed::Again
    }
}

/// What the iterator does after the step that ends the frame.
#[derive(Clone, Copy, Debug, PartialEq, Eq, Structural)]
pub struct AfterEnd {
    /// Whether the iterator has finished.
    pub finished: bool,
    /// Whether what the step produced is handed out.
    pub emit: bool,
}

/// What follows an ending step that produced `produced` bytes and left
/// `remaining` bytes to flush: the iterator has finished when nothing is
/// left, and output is handed out whenever there is any.
pub open spec fn end_outcome(remaining: usize, produced: usize) -> AfterEnd {
    AfterEnd { finished: remaining == 0, emit: produced != 0 }
}

/// Decides what follows the step that ends the frame.
pub fn after_end(remaining: usize, produced: usize) -> (res: AfterEnd)
    ensures
        res == end_outcome(remaining, produced),
{
    AfterEnd { finished: remaining == 0, emit: produced != 0 }
}

/// Whether `e` is a failure that the codec reported for a feeding step, or a
/// feeding step without progress.
pub open spec fn is_feed_error(e: ZstdError) -> bool {
    e matches ZstdError::Codec { context: Context::Compress, fault } && (fault is Code || fault == Fault::NoProgress)
}

/// Whether `e` is a failure that the codec reported for the step that ends
/// the frame.
pub open spec fn is_end_error(e: ZstdError) -> bool {
    e matches ZstdError::Codec { context: Context::EndStream, fault: Fault::Code(_) }
}

/// Compresses a source, one chunk of output at a time.
pub struct ZstdCompressorIterator<'a, S: InBufferSource> {
    cctx: CCtx<'a>,
    source: S,
    write_size: usize,
    finished_output: bool,
}

impl<'a, S: InBufferSource> ZstdCompressorIterator<'a, S> {
    /// Whether the source is well-formed.
    pub closed spec fn wf(self) -> bool {
        self.source.wf()
    }

    /// The source.
    pub closed spec fn input(self) -> S {
        self.source
    }

    /// The largest size of a chunk.
    pub closed spec fn chunk_limit(self) -> usize {
        self.write_size
    }

    /// The context that the iterator compresses with.
    pub closed spec fn codec(self) -> CCtx<'a> {
        self.cctx
    }

    /// Whether `self` has made the steps of one call since it was `before`:
    /// feeding steps that have taken in what the source has handed over, of
    /// which none but the last has produced anything, and then at most one
    /// step that ends the frame, which is made only when the source has
    /// finished.
    pub open spec fn stepped(self, before: Self) -> bool {
        let steps = self.codec().steps();
        let from = before.codec().steps().len();
        &&& continues(before.codec().steps(), steps)
        &&& self.codec().taken().len() + self.input().budget() == before.codec().taken().len()
            + before.input().budget()
        &&& forall|i: int| from <= i < steps.len() - 1 ==> (#[trigger] steps[i]).given.len() == 0
        &&& forall|i: int| from <= i < steps.len() - 1 ==> (#[trigger] steps[i]).mode == EndDirective::Continue
        &&& forall|i: int|
            from <= i < steps.len() ==> (#[trigger] steps[i]).mode != EndDirective::Flush && (steps[i].mode
                == EndDirective::End ==> self.input().is_finished())
    }

    /// Whether the frame has been ended and all of it handed out.
    pub closed spec fn is_finished(self) -> bool {
        self.finished_output
    }

    /// An iterator over `source`. The size declared to the codec is that of
    /// the source where the source knows it, else `size`.
    pub fn new(cctx: CCtx<'a>, source: S, size: u64, write_size: usize) -> (res: Result<
        ZstdCompressorIterator<'a, S>,
        ZstdError,
    >)
        requires
            source.wf(),
        ensures
            match res {
                Ok(it) => {
                    &&& it.wf()
                    &&& it.codec().steps() == cctx.steps()
                    &&& it.input() == source
                    &&& it.chunk_limit() == write_size
                    &&& !it.is_finished()
                },
                Err(e) => e matches ZstdError::Codec { context: Context::SourceSize, fault: Fault::Code(_) },
            },
    {
        let mut cctx = cctx;
        let size = match source.source_size() {
            Some(known) => known as u64,
            None => size,
        };
        match cctx.set_pledged_source_size(size) {
            Ok(()) => {},
            Err(fault) => {
                return Err(ZstdError::Codec { context: Context::SourceSize, fault });
            },
        }
        Ok(ZstdCompressorIterator { cctx, source, write_size, finished_output: false })
    }

    /// The next chunk, or `None` when there is none.
    ///
    /// Input is fed to the codec until output appears, which is handed out
    /// at once. When the source is exhausted the frame is ended, and what
    /// that step produces is the chunk; once a step reports that nothing is
    /// left, the iterator has finished and hands out nothing more. A chunk
    /// is never empty and never longer than the write size.
    pub fn next(&mut self) -> (res: Result<Option<Vec<u8>>, ZstdError>)
        requires
            old(self).wf(),
        ensures
            final(self).wf(),
            final(self).chunk_limit() == old(self).chunk_limit(),
            old(self).is_finished() ==> res == Ok::<Option<Vec<u8>>, ZstdError>(None) && *final(self) == *old(self),
            old(self).is_finished() ==> final(self).is_finished(),
            final(self).input().budget() <= old(self).input().budget(),
            final(self).input().size() == old(self).input().size(),
            final(self).stepped(*old(self)),
            !old(self).is_finished() && final(self).is_finished() ==> old(self).codec().steps().len() < final(self).codec().steps().len() && final(self).codec().steps().last().mode == EndDirective::End && final(self).codec().steps().last().remaining == 0,
            match res {
                Ok(Some(chunk)) => 0 < chunk@.len() <= old(self).chunk_limit() && final(self).codec().given() == old(self).codec().given() + chunk@,
                Ok(None) => (old(self).is_finished() || final(self).input().is_finished()) && final(self).codec().given() == old(self).codec().given(),
                Err(e) => {
                    &&& !old(self).is_finished() && !final(self).is_finished()
                    &&& is_source_error(e) || is_feed_error(e) || is_end_error(e)
                    &&& is_end_error(e) ==> final(self).input().is_finished()
                    &&& is_source_error(e) || is_feed_error(e) ==> !old(self).input().is_finished()
                },
            },
    {
        if self.finished_output {
            return Ok(None);
        }
        let mut dest: Vec<u8> = Vec::new();
        loop
            invariant
                continues(old(self).cctx.steps(), self.cctx.steps()),
                self.cctx.taken().len() + self.source.budget() == old(self).cctx.taken().len() + old(self).source.budget(),
                self.cctx.given() == old(self).cctx.given(),
                forall|i: int|
                    old(self).cctx.steps().len() <= i < self.cctx.steps().len() ==> (#[trigger] self.cctx.steps()[i]).mode
                        == EndDirective::Continue && self.cctx.steps()[i].given.len() == 0,
                self.source.wf(),
                self.write_size == old(self).write_size,
                !self.finished_output,
                !old(self).finished_output,
                dest@.len() == 0,
                self.source.budget() <= old(self).source.budget(),
                self.source.size() == old(self).source.size(),
                !old(self).source.is_finished() || self.source == old(self).source,
            ensures
                self.source.is_finished(),
            decreases self.source.budget(),
        {
            let pulled = self.source.input_buffer();
            let view = match pulled {
                Err(e) => {
                    return Err(e);
                },
                Ok(None) => {
                    break ;
                },
                Ok(Some(view)) => view,
            };
            let ghost before = self.cctx.steps();
            let step = self.cctx.compress_into_vec(&mut dest, self.write_size, view, EndDirective::Continue);
            match step {
                Err(fault) => {
                    return Err(ZstdError::Codec { context: Context::Compress, fault });
                },
                Ok(p) => {
                    self.source.record_bytes_read(p.consumed);
                    proof {
                        lemma_continues_twice(old(self).cctx.steps(), before, self.cctx.steps());
                        assert(dest@.skip(0) =~= dest@);
                        assert forall|i: int|
                            old(self).cctx.steps().len() <= i < self.cctx.steps().len() - 1 implies (
                        #[trigger] self.cctx.steps()[i]).mode == EndDirective::Continue
                            && self.cctx.steps()[i].given.len() == 0 by {
                            assert(self.cctx.steps()[i] == before[i]);
                        }
                        if p.produced == 0 {
                            assert(self.cctx.given() =~= old(self).cctx.given());
                        }
                    }
                    match after_feed(p.consumed, p.produced) {
                        AfterFeed::Emit => {
                            return Ok(Some(dest));
                        },
                        AfterFeed::Stalled => {
                            return Err(ZstdError::Codec { context: Context::Compress, fault: Fault::NoProgress });
                        },
                        AfterFeed::Again => {},
                    }
                },
            }
        }
        let empty: Vec<u8> = Vec::new();
        let ghost before = self.cctx.steps();
        let step = self.cctx.compress_into_vec(&mut dest, self.write_size, empty.as_slice(), EndDirective::End);
        match step {
            Err(fault) => Err(ZstdError::Codec { context: Context::EndStream, fault }),
            Ok(p) => {
                proof {
                    lemma_continues_twice(old(self).cctx.steps(), before, self.cctx.steps());
                    assert(dest@.skip(0) =~= dest@);
                    assert(empty@.subrange(0, p.consumed as int) =~= Seq::<u8>::empty());
                    assert forall|i: int|
                        old(self).cctx.steps().len() <= i < self.cctx.steps().len() - 1 implies (
                    #[trigger] self.cctx.steps()[i]).mode == EndDirective::Continue && self.cctx.steps()[i].given.len()
                        == 0 by {
                        assert(self.cctx.steps()[i] == before[i]);
                    }
                    if p.produced == 0 {
                        assert(self.cctx.given() =~= old(self).cctx.given());
                    }
                }
                let next = after_end(p.remaining, p.produced);
                self.finished_output = next.finished;
                if next.emit {
                    Ok(Some(dest))
                } else {
                    Ok(None)
                }
            },
        }
    }
}

} // verus!
