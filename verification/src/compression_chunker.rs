//! The chunker: compressed output in chunks of one fixed size.
//!
//! `compress`, `flush` and `finish` each start a sub-iteration, and
//! `next_chunk` steps through it. Every chunk of a sub-iteration has exactly
//! the configured size, but for the last one of a flush or a finish. Output
//! that does not fill a chunk stays in the chunker and is the start of the
//! next chunk, so the rule holds across sub-iterations too.

use crate::compressor_iterator::is_feed_error;
use crate::exceptions::{ChunkerOp, Context, Fault, ZstdError};
use crate::stream::{BufferSource, InBufferSource};
use crate::zstd_safe::{continues, lemma_continues_twice, CCtx, EndDirective};
use vstd::prelude::*;

verus! {

/// What a sub-iteration does when its input is used up.
#[derive(Clone, Copy, Debug, PartialEq, Eq, Structural)]
pub enum IteratorMode {
    /// Stop, and keep what the codec holds back.
    Normal,
    /// Emit everything taken in so far.
    Flush,
    /// Emit everything and end the frame.
    Finish,
}

/// What follows a flush or finish step that has left `len` bytes in the
/// chunk with `remaining` left over in the codec.
#[derive(Clone, Copy, Debug, PartialEq, Eq, Structural)]
pub enum AfterFlush {
    /// Nothing came out: the sub-iteration has ended without a chunk.
    Ended,
    /// The chunk is handed out and is the last of the sub-iteration.
    LastChunk,
    /// The chunk is handed out and more follows.
    Chunk,
}

/// What follows a flush or finish step: with no bytes in the chunk the
/// sub-iteration has ended; else the chunk is handed out, as the last one
/// if the codec holds nothing back or if the chunk is not full.
pub open spec fn flush_outcome(len: usize, chunk_size: usize, remaining: usize) -> AfterFlush {
    if len == 0 {
        AfterFlush::Ended
    } else if remaining == 0 || len < chunk_size {
        AfterFlush::LastChunk
    } else {
        AfterFlush::Chunk
    }
}

/// What follows a flush or finish step.
pub fn after_flush(len: usize, chunk_size: usize, remaining: usize) -> (outcome: AfterFlush)
    ensures
        outcome == flush_outcome(len, chunk_size, remaining),
{
    if len == 0 {
        AfterFlush::Ended
    } else if remaining == 0 || len < chunk_size {
        AfterFlush::LastChunk
    } else {
        AfterFlush::Chunk
    }
}

/// A sub-iteration in progress.
struct Iteration {
    source: BufferSource,
    mode: IteratorMode,
}

/// Compresses input into chunks of one size.
pub struct ZstdCompressionChunker<'a> {
    cctx: CCtx<'a>,
    chunk_size: usize,
    finished: bool,
    iteration: Option<Iteration>,
    dest_buffer: Vec<u8>,
    taken: Ghost<nat>,
}

/// Whether `held` is the end of `given`.
pub open spec fn holds_back(given: Seq<u8>, held: Seq<u8>) -> bool {
    held.len() <= given.len() && given.skip(given.len() - held.len()) == held
}

/// What is held back stays the end of what was given when a step adds
/// `output` to both, and what was given before it stays the same.
pub proof fn lemma_holds_more(given: Seq<u8>, held: Seq<u8>, output: Seq<u8>)
    requires
        holds_back(given, held),
    ensures
        holds_back(given + output, held + output),
        (given + output).subrange(0, given.len() - held.len()) == given.subrange(0, given.len() - held.len()),
        holds_back(given, Seq::<u8>::empty()),
        given.subrange(0, given.len() as int) == given,
        given == given.subrange(0, given.len() - held.len()) + held,
{
    assert((given + output).skip(given.len() + output.len() - (held.len() + output.len())) =~= held + output) by {
        assert(given.skip(given.len() - held.len()) == held);
        assert forall|i: int| 0 <= i < held.len() + output.len() implies (given + output).skip(
            given.len() - held.len(),
        )[i] == (held + output)[i] by {
            if i < held.len() {
                assert(given.skip(given.len() - held.len())[i] == held[i]);
            }
        }
    }
    assert((given + output).subrange(0, given.len() - held.len()) =~= given.subrange(0, given.len() - held.len()));
    assert(given.skip(given.len() as int) =~= Seq::<u8>::empty());
    assert(given.subrange(0, given.len() as int) =~= given);
    assert(given =~= given.subrange(0, given.len() - held.len()) + given.skip(given.len() - held.len()));
}

/// Whether `rest` is the end of `whole`.
pub open spec fn is_tail(rest: Seq<u8>, whole: Seq<u8>) -> bool {
    rest.len() <= whole.len() && rest == whole.skip(whole.len() - rest.len())
}

impl<'a> ZstdCompressionChunker<'a> {
    /// Whether the chunker is in a state its own operations can leave it in:
    /// the chunk size is positive, and the output held back is less than a
    /// chunk.
    pub closed spec fn wf(self) -> bool {
        &&& self.chunk_size > 0
        &&& self.dest_buffer@.len() < self.chunk_size
        &&& self.iteration matches Some(it) ==> it.source.wf()
        &&& holds_back(self.cctx.given(), self.dest_buffer@)
    }

    /// The context that the chunker compresses with.
    pub closed spec fn codec(self) -> CCtx<'a> {
        self.cctx
    }

    /// What the context has produced and the chunker has handed out: all
    /// but what is held back.
    pub open spec fn handed(self) -> Seq<u8> {
        self.codec().given().subrange(0, self.codec().given().len() - self.held().len())
    }

    /// What is held back is the end of what the context has produced: no
    /// byte is lost between the context and the chunks.
    pub proof fn lemma_held(self)
        requires
            self.wf(),
        ensures
            holds_back(self.codec().given(), self.held()),
            self.codec().given() == self.handed() + self.held(),
    {
        assert(self.codec().given() =~= self.handed() + self.held());
    }

    /// The size of a chunk.
    pub closed spec fn chunk_len(self) -> usize {
        self.chunk_size
    }

    /// Whether a finish has run to its end.
    pub closed spec fn is_finished(self) -> bool {
        self.finished
    }

    /// Whether a sub-iteration is in progress.
    pub closed spec fn is_iterating(self) -> bool {
        self.iteration is Some
    }

    /// The mode of the sub-iteration in progress.
    pub closed spec fn mode(self) -> IteratorMode
        recommends
            self.is_iterating(),
    {
        self.iteration->0.mode
    }

    /// The output that is held back for the next chunk.
    pub closed spec fn held(self) -> Seq<u8> {
        self.dest_buffer@
    }

    /// The input of the sub-iteration in progress that the codec has not
    /// taken in yet; nothing where no sub-iteration is in progress.
    pub closed spec fn left(self) -> Seq<u8> {
        match self.iteration {
            Some(it) => it.source.pending(),
            None => Seq::empty(),
        }
    }

    /// The number of bytes of input that the codec has taken in, over all
    /// sub-iterations.
    pub closed spec fn taken(self) -> nat {
        self.taken@
    }

    /// A chunker that writes chunks of `chunk_size` bytes through `cctx`.
    /// A chunk size of zero is refused.
    pub fn new(cctx: CCtx<'a>, chunk_size: usize) -> (res: Result<ZstdCompressionChunker<'a>, ZstdError>)
        ensures
            match res {
                Ok(c) => {
                    &&& chunk_size > 0
                    &&& c.wf()
                    &&& c.codec() == cctx
                    &&& c.chunk_len() == chunk_size
                    &&& !c.is_finished()
                    &&& !c.is_iterating()
                    &&& c.held().len() == 0
                    &&& c.left().len() == 0
                    &&& c.taken() == 0
                },
                Err(e) => chunk_size == 0 && e == ZstdError::ZeroBufferSize,
            },
    {
        if chunk_size == 0 {
            return Err(ZstdError::ZeroBufferSize);
        }
        proof {
            assert(cctx.given().skip(cctx.given().len() as int) =~= Seq::<u8>::empty());
        }
        Ok(
            ZstdCompressionChunker {
                cctx,
                chunk_size,
                finished: false,
                iteration: None,
                dest_buffer: Vec::new(),
                taken: Ghost(0),
            },
        )
    }

    /// Starts a sub-iteration in `mode` over `data`, unless the chunker has
    /// finished or is busy.
    fn start(&mut self, op: ChunkerOp, mode: IteratorMode, data: Vec<u8>) -> (res: Result<(), ZstdError>)
        requires
            old(self).wf(),
        ensures
            final(self).wf(),
            final(self).chunk_len() == old(self).chunk_len(),
            final(self).held() == old(self).held(),
            final(self).is_finished() == old(self).is_finished(),
            final(self).taken() == old(self).taken(),
            final(self).codec() == old(self).codec(),
            match res {
                Ok(()) => {
                    &&& !old(self).is_finished()
                    &&& !old(self).is_iterating()
                    &&& final(self).is_iterating()
                    &&& final(self).mode() == mode
                    &&& final(self).left() == data@
                },
                Err(e) => {
                    &&& *final(self) == *old(self)
                    &&& old(self).is_finished() ==> e == (ZstdError::ChunkerFinished { op })
                    &&& !old(self).is_finished() ==> old(self).is_iterating() && e == (ZstdError::ChunkerBusy {
                        op,
                    })
                },
            },
    {
        if self.finished {
            return Err(ZstdError::ChunkerFinished { op });
        }
        if self.iteration.is_some() {
            return Err(ZstdError::ChunkerBusy { op });
        }
        self.iteration = Some(Iteration { source: BufferSource::new(data), mode });
        Ok(())
    }

    /// Starts a sub-iteration that compresses `data` and stops when `data` is
    /// used up.
    ///
    /// Fails with `ChunkerFinished` after a finish has run to its end, else
    /// with `ChunkerBusy` while the previous sub-iteration has not run to its
    /// end; a failed call changes nothing.
    pub fn compress(&mut self, data: Vec<u8>) -> (res: Result<(), ZstdError>)
        requires
            old(self).wf(),
        ensures
            final(self).wf(),
            final(self).chunk_len() == old(self).chunk_len(),
            final(self).held() == old(self).held(),
            final(self).is_finished() == old(self).is_finished(),
            final(self).taken() == old(self).taken(),
            final(self).codec() == old(self).codec(),
            match res {
                Ok(()) => {
                    &&& !old(self).is_finished()
                    &&& !old(self).is_iterating()
                    &&& final(self).is_iterating()
                    &&& final(self).mode() == IteratorMode::Normal
                    &&& final(self).left() == data@
                },
                Err(e) => {
                    &&& *final(self) == *old(self)
                    &&& old(self).is_finished() ==> e == (ZstdError::ChunkerFinished { op: ChunkerOp::Compress })
                    &&& !old(self).is_finished() ==> old(self).is_iterating() && e == (ZstdError::ChunkerBusy {
                        op: ChunkerOp::Compress,
                    })
                },
            },
    {
        self.start(ChunkerOp::Compress, IteratorMode::Normal, data)
    }

    /// Starts a sub-iteration that emits everything taken in so far.
    ///
    /// Fails as `compress` does.
    pub fn flush(&mut self) -> (res: Result<(), ZstdError>)
        requires
            old(self).wf(),
        ensures
            final(self).wf(),
            final(self).chunk_len() == old(self).chunk_len(),
            final(self).held() == old(self).held(),
            final(self).is_finished() == old(self).is_finished(),
            final(self).taken() == old(self).taken(),
            final(self).codec() == old(self).codec(),
            match res {
                Ok(()) => {
                    &&& !old(self).is_finished()
                    &&& !old(self).is_iterating()
                    &&& final(self).is_iterating()
                    &&& final(self).mode() == IteratorMode::Flush
                    &&& final(self).left() == Seq::<u8>::empty()
                },
                Err(e) => {
                    &&& *final(self) == *old(self)
                    &&& old(self).is_finished() ==> e == (ZstdError::ChunkerFinished { op: ChunkerOp::Flush })
                    &&& !old(self).is_finished() ==> old(self).is_iterating() && e == (ZstdError::ChunkerBusy {
                        op: ChunkerOp::Flush,
                    })
                },
            },
    {
        self.start(ChunkerOp::Flush, IteratorMode::Flush, Vec::new())
    }

    /// Starts the sub-iteration that ends the frame.
    ///
    /// Fails as `compress` does.
    pub fn finish(&mut self) -> (res: Result<(), ZstdError>)
        requires
            old(self).wf(),
        ensures
            final(self).wf(),
            final(self).chunk_len() == old(self).chunk_len(),
            final(self).held() == old(self).held(),
            final(self).is_finished() == old(self).is_finished(),
            final(self).taken() == old(self).taken(),
            final(self).codec() == old(self).codec(),
            match res {
                Ok(()) => {
                    &&& !old(self).is_finished()
                    &&& !old(self).is_iterating()
                    &&& final(self).is_iterating()
                    &&& final(self).mode() == IteratorMode::Finish
                    &&& final(self).left() == Seq::<u8>::empty()
                },
                Err(e) => {
                    &&& *final(self) == *old(self)
                    &&& old(self).is_finished() ==> e == (ZstdError::ChunkerFinished { op: ChunkerOp::Finish })
                    &&& !old(self).is_finished() ==> old(self).is_iterating() && e == (ZstdError::ChunkerBusy {
                        op: ChunkerOp::Finish,
                    })
                },
            },
    {
        self.start(ChunkerOp::Finish, IteratorMode::Finish, Vec::new())
    }

    /// Takes the output that is held back, as a chunk.
    fn take_chunk(&mut self) -> (chunk: Vec<u8>)
        ensures
            chunk@ == old(self).dest_buffer@,
            final(self).dest_buffer@.len() == 0,
            final(self).cctx == old(self).cctx,
            final(self).chunk_size == old(self).chunk_size,
            final(self).finished == old(self).finished,
            final(self).iteration == old(self).iteration,
            final(self).taken == old(self).taken,
    {
        let mut chunk: Vec<u8> = Vec::new();
        std::mem::swap(&mut chunk, &mut self.dest_buffer);
        chunk
    }

    /// The next chunk of the sub-iteration in progress, or `None` when it has
    /// run to its end (or when none is in progress).
    ///
    /// A chunk is never empty and never longer than the chunk size. A chunk
    /// shorter than that is the last of its sub-iteration, which is then a
    /// flush or a finish. When the sub-iteration of a finish ends, the
    /// chunker has finished. A codec fault leaves the sub-iteration in
    /// progress.
    ///
    /// Output that was held back is the start of the next chunk, and stays
    /// held, in front of what is added, while no chunk is handed out. The
    /// input that is left is always the end of what was left before, and
    /// the sub-iteration ends only when none is left. A sub-iteration that
    /// compresses goes on after each of its chunks, and makes no step but
    /// feeding steps. What the chunks hold, one after the other, is what the
    /// context has produced, but for what is held back.
    pub fn next_chunk(&mut self) -> (res: Result<Option<Vec<u8>>, ZstdError>)
        requires
            old(self).wf(),
        ensures
            final(self).wf(),
            final(self).chunk_len() == old(self).chunk_len(),
            !old(self).is_iterating() ==> res == Ok::<Option<Vec<u8>>, ZstdError>(None) && *final(self) == *old(self),
            final(self).is_iterating() ==> old(self).is_iterating() && final(self).mode() == old(self).mode(),
            final(self).is_finished() == (old(self).is_finished() || (old(self).is_iterating() && old(self).mode() == IteratorMode::Finish && !final(self).is_iterating())),
            is_tail(final(self).left(), old(self).left()),
            final(self).taken() + final(self).left().len() == old(self).taken() + old(self).left().len(),
            !final(self).is_iterating() ==> final(self).left().len() == 0 && final(self).taken() == old(self).taken()
                + old(self).left().len(),
            continues(old(self).codec().steps(), final(self).codec().steps()),
            final(self).codec().taken() == old(self).codec().taken() + old(self).left().subrange(
                0,
                old(self).left().len() - final(self).left().len(),
            ),
            old(self).is_iterating() && old(self).mode() == IteratorMode::Normal ==> forall|i: int|
                old(self).codec().steps().len() <= i < final(self).codec().steps().len() ==> (
                #[trigger] final(self).codec().steps()[i]).mode == EndDirective::Continue,
            final(self).handed() == old(self).handed() + match res {
                Ok(Some(chunk)) => chunk@,
                _ => Seq::<u8>::empty(),
            },
            match res {
                Ok(Some(chunk)) => {
                    &&& 0 < chunk@.len() <= old(self).chunk_len()
                    &&& chunk@.len() < old(self).chunk_len() ==> !final(self).is_iterating() && old(self).mode()
                        != IteratorMode::Normal
                    &&& old(self).mode() == IteratorMode::Normal ==> final(self).is_iterating()
                    &&& final(self).held().len() == 0
                    &&& old(self).held().len() <= chunk@.len()
                    &&& chunk@.subrange(0, old(self).held().len() as int) == old(self).held()
                },
                Ok(None) => {
                    &&& !final(self).is_iterating()
                    &&& old(self).held().len() <= final(self).held().len()
                    &&& final(self).held().subrange(0, old(self).held().len() as int) == old(self).held()
                    &&& old(self).is_iterating() && old(self).mode() != IteratorMode::Normal ==> final(self).held().len() == 0
                },
                Err(e) => {
                    &&& final(self).is_iterating() && final(self).mode() == old(self).mode()
                    &&& is_feed_error(e)
                    &&& old(self).held().len() <= final(self).held().len()
                    &&& final(self).held().subrange(0, old(self).held().len() as int) == old(self).held()
                },
            },
    {
        let mut it = match self.iteration.take() {
            None => {
                assert(self.dest_buffer@.subrange(0, self.dest_buffer@.len() as int) =~= self.dest_buffer@);
                assert(self.left() =~= self.left().skip(0));
                assert(self.left().subrange(0, 0) =~= Seq::<u8>::empty());
                assert(self.cctx.taken() + Seq::<u8>::empty() =~= self.cctx.taken());
                assert(self.handed() + Seq::<u8>::empty() =~= self.handed());
                return Ok(None);
            },
            Some(it) => it,
        };
        let ghost mode = it.mode;
        let ghost input = it.source.pending();
        proof {
            it.source.lemma_left();
            assert(self.dest_buffer@.subrange(0, self.dest_buffer@.len() as int) =~= self.dest_buffer@);
            assert(input =~= input.skip(0));
            assert(input.subrange(0, 0) =~= Seq::<u8>::empty());
            assert(self.cctx.taken() + Seq::<u8>::empty() =~= self.cctx.taken());
            assert(old(self).handed() + Seq::<u8>::empty() =~= old(self).handed());
        }
        loop
            invariant
                continues(old(self).cctx.steps(), self.cctx.steps()),
                forall|i: int|
                    old(self).cctx.steps().len() <= i < self.cctx.steps().len() ==> (#[trigger] self.cctx.steps()[i]).mode
                        == EndDirective::Continue,
                self.cctx.taken() == old(self).cctx.taken() + input.subrange(
                    0,
                    input.len() - it.source.pending().len(),
                ),
                holds_back(self.cctx.given(), self.dest_buffer@),
                self.cctx.given().subrange(0, self.cctx.given().len() - self.dest_buffer@.len()) == old(self).handed(),
                old(self).left() == input,
                is_tail(it.source.pending(), input),
                self.taken@ + it.source.pending().len() == old(self).taken@ + input.len(),
                old(self).dest_buffer@.len() <= self.dest_buffer@.len(),
                self.dest_buffer@.subrange(0, old(self).dest_buffer@.len() as int) == old(self).dest_buffer@,
                self.chunk_size > 0,
                self.chunk_size == old(self).chunk_size,
                self.dest_buffer@.len() < self.chunk_size,
                self.finished == old(self).finished,
                self.iteration is None,
                it.source.wf(),
                it.mode == mode,
                old(self).iteration matches Some(old_it) && old_it.mode == mode,
            ensures
                it.source.pending().len() == 0,
            decreases it.source.budget() + self.chunk_size - self.dest_buffer@.len(),
        {
            let pulled = it.source.input_buffer();
            let view = match pulled {
                Err(e) => {
                    self.iteration = Some(it);
                    return Err(e);
                },
                Ok(None) => {
                    break ;
                },
                Ok(Some(view)) => view,
            };
            let ghost before = self.cctx.steps();
            let ghost given = self.cctx.given();
            let ghost held = self.dest_buffer@;
            let ghost left = view@;
            let step = self.cctx.compress_into_vec(
                &mut self.dest_buffer,
                self.chunk_size,
                view,
                EndDirective::Continue,
            );
            match step {
                Err(fault) => {
                    self.iteration = Some(it);
                    proof {
                        assert(old(self).handed() + Seq::<u8>::empty() =~= old(self).handed());
                    }
                    return Err(ZstdError::Codec { context: Context::Compress, fault });
                },
                Ok(p) => {
                    it.source.record_bytes_read(p.consumed);
                    proof {
                        let output = self.dest_buffer@.skip(held.len() as int);
                        lemma_continues_twice(old(self).cctx.steps(), before, self.cctx.steps());
                        assert(self.dest_buffer@ =~= held + output);
                        lemma_holds_more(given, held, output);
                        assert(self.cctx.given().len() - self.dest_buffer@.len() == given.len() - held.len());
                        assert(input.subrange(0, input.len() - left.len()) + left.subrange(0, p.consumed as int)
                            =~= input.subrange(0, input.len() - left.len() + p.consumed)) by {
                            assert(left == input.skip(input.len() - left.len()));
                        }
                        assert(self.cctx.taken() =~= old(self).cctx.taken() + input.subrange(
                            0,
                            input.len() - left.len() + p.consumed,
                        ));
                        assert forall|i: int|
                            old(self).cctx.steps().len() <= i < self.cctx.steps().len() implies (
                        #[trigger] self.cctx.steps()[i]).mode == EndDirective::Continue by {
                            if i < before.len() {
                                assert(self.cctx.steps()[i] == before[i]);
                            }
                        }
                        self.taken@ = self.taken@ + p.consumed as nat;
                        assert(it.source.pending() =~= input.skip(input.len() - it.source.pending().len()));
                        assert(self.dest_buffer@.subrange(0, old(self).dest_buffer@.len() as int) =~= old(self).dest_buffer@);
                    }
                    if self.dest_buffer.len() == self.chunk_size {
                        proof {
                            lemma_holds_more(self.cctx.given(), self.dest_buffer@, Seq::<u8>::empty());
                        }
                        let chunk = self.take_chunk();
                        assert(self.dest_buffer@ =~= Seq::<u8>::empty());
                        self.iteration = Some(it);
                        return Ok(Some(chunk));
                    }
                    if p.consumed == 0 && p.produced == 0 {
                        self.iteration = Some(it);
                        proof {
                            assert(old(self).handed() + Seq::<u8>::empty() =~= old(self).handed());
                        }
                        return Err(ZstdError::Codec { context: Context::Compress, fault: Fault::NoProgress });
                    }
                },
            }
        }
        proof {
            assert(Seq::<u8>::empty() =~= input.skip(input.len() as int));
            assert(old(self).handed() + Seq::<u8>::empty() =~= old(self).handed());
            assert(input.subrange(0, input.len() - it.source.pending().len()) =~= input.subrange(
                0,
                input.len() as int,
            ));
        }
        let end_mode = match it.mode {
            IteratorMode::Normal => {
                return Ok(None);
            },
            IteratorMode::Flush => EndDirective::Flush,
            IteratorMode::Finish => EndDirective::End,
        };
        let empty: Vec<u8> = Vec::new();
        let ghost before = self.cctx.steps();
        let ghost given = self.cctx.given();
        let ghost held = self.dest_buffer@;
        let ghost taken = self.cctx.taken();
        let step = self.cctx.compress_into_vec(&mut self.dest_buffer, self.chunk_size, empty.as_slice(), end_mode);
        let p = match step {
            Err(fault) => {
                self.iteration = Some(it);
                return Err(ZstdError::Codec { context: Context::Compress, fault });
            },
            Ok(p) => p,
        };
        proof {
            let output = self.dest_buffer@.skip(held.len() as int);
            lemma_continues_twice(old(self).cctx.steps(), before, self.cctx.steps());
            assert(self.dest_buffer@ =~= held + output);
            lemma_holds_more(given, held, output);
            lemma_holds_more(self.cctx.given(), self.dest_buffer@, Seq::<u8>::empty());
            assert(self.cctx.given().len() - self.dest_buffer@.len() == given.len() - held.len());
            assert(empty@.subrange(0, p.consumed as int) =~= Seq::<u8>::empty());
            assert(self.cctx.taken() =~= taken);
        }
        match after_flush(self.dest_buffer.len(), self.chunk_size, p.remaining) {
            AfterFlush::Ended => {
                if let IteratorMode::Finish = it.mode {
                    self.finished = true;
                }
                Ok(None)
            },
            AfterFlush::LastChunk => {
                let chunk = self.take_chunk();
                assert(self.dest_buffer@ =~= Seq::<u8>::empty());
                if let IteratorMode::Finish = it.mode {
                    self.finished = true;
                }
                Ok(Some(chunk))
            },
            AfterFlush::Chunk => {
                let chunk = self.take_chunk();
                assert(self.dest_buffer@ =~= Seq::<u8>::empty());
                self.iteration = Some(it);
                Ok(Some(chunk))
            },
        }
    }
}

} // verus!
