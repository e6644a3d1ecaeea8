//! Driving a context until a piece of work is done.
//!
//! Each function here runs one context over one input view, step after
//! step, and appends what comes out to a queue of chunks, none of them empty
//! and none longer than the given size. The queue keeps what was produced
//! before a fault. A step that neither reads nor writes while work is left
//! ends the run with `Fault::NoProgress`, so every run ends.

use crate::exceptions::Fault;
use crate::zstd_safe::{
    continues, given_by, lemma_continues_twice, taken_by, CCtx, DCtx, EndDirective, StepRecord,
};
use vstd::prelude::*;

verus! {

/// The number of bytes in the chunks of `chunks` from index `from` on.
pub open spec fn chunks_len(chunks: Seq<Vec<u8>>, from: int) -> nat
    decreases chunks.len() - from,
{
    if from < 0 || from >= chunks.len() {
        0
    } else {
        chunks[from]@.len() + chunks_len(chunks, from + 1)
    }
}

/// Whether `after` is `before` with chunks added at its end, each of them
/// with at least one byte and at most `limit`.
pub open spec fn extends(before: Seq<Vec<u8>>, after: Seq<Vec<u8>>, limit: nat) -> bool {
    &&& before.len() <= after.len()
    &&& after.subrange(0, before.len() as int) == before
    &&& forall|i: int| before.len() <= i < after.len() ==> 0 < (#[trigger] after[i])@.len() <= limit
}

/// Adding a chunk at the end adds its length to the count from any index.
pub proof fn lemma_chunks_len_push(chunks: Seq<Vec<u8>>, chunk: Vec<u8>, from: int)
    requires
        0 <= from <= chunks.len(),
    ensures
        chunks_len(chunks.push(chunk), from) == chunks_len(chunks, from) + chunk@.len(),
    decreases chunks.len() - from,
{
    let longer = chunks.push(chunk);
    if from < chunks.len() {
        lemma_chunks_len_push(chunks, chunk, from + 1);
        assert(longer[from] == chunks[from]);
    } else {
        assert(longer[from] == chunk);
        assert(chunks_len(longer, from + 1) == 0);
    }
}

/// Chunks added to a queue do not change the queue's first part, and the
/// count from the old end is the count of what was added.
pub proof fn lemma_extends_push(before: Seq<Vec<u8>>, middle: Seq<Vec<u8>>, chunk: Vec<u8>, limit: nat)
    requires
        extends(before, middle, limit),
        0 < chunk@.len() <= limit,
    ensures
        extends(before, middle.push(chunk), limit),
        chunks_len(middle.push(chunk), before.len() as int) == chunks_len(middle, before.len() as int)
            + chunk@.len(),
{
    let after = middle.push(chunk);
    assert(after.subrange(0, before.len() as int) =~= middle.subrange(0, before.len() as int));
    lemma_chunks_len_push(middle, chunk, before.len() as int);
}

/// The bytes of `chunks`, one chunk after the other.
pub open spec fn joined(chunks: Seq<Vec<u8>>) -> Seq<u8>
    decreases chunks.len(),
{
    if chunks.len() == 0 {
        Seq::empty()
    } else {
        joined(chunks.drop_last()) + chunks.last()@
    }
}

/// How a run over one input view ended.
#[derive(Clone, Copy, Debug, PartialEq, Eq, Structural)]
pub struct Drained {
    /// Bytes of the view that were taken in.
    pub consumed: usize,
    /// Bytes that were queued.
    pub written: usize,
    /// The fault that ended the run early, if one did.
    pub fault: Option<Fault>,
}

/// What every run promises: the queue has grown by chunks of the right
/// size, `written` counts their bytes, and a run without a fault has taken
/// in all `available` bytes.
pub open spec fn drained_ok(
    run: Drained,
    before: Seq<Vec<u8>>,
    after: Seq<Vec<u8>>,
    available: nat,
    write_size: nat,
) -> bool {
    &&& extends(before, after, write_size)
    &&& run.written == chunks_len(after, before.len() as int)
    &&& run.consumed <= available
    &&& run.fault is None ==> run.consumed == available
    &&& run.fault matches Some(fault) ==> fault is Code || fault is NoProgress || fault is CounterOverflow
}

/// What a run does to the record of a context whose steps were `before`
/// and are `after`: steps are added, each of them in `mode`; they have
/// taken in the first `consumed` bytes of `data`, and what they have
/// produced is what was queued. A run that ends because a count does not
/// fit has made a step more than it has queued.
pub open spec fn recorded(
    run: Drained,
    before: Seq<StepRecord>,
    after: Seq<StepRecord>,
    mode: EndDirective,
    data: Seq<u8>,
    queued: Seq<Vec<u8>>,
) -> bool {
    &&& continues(before, after)
    &&& forall|i: int| before.len() <= i < after.len() ==> (#[trigger] after[i]).mode == mode
    &&& run.fault != Some(Fault::CounterOverflow) ==> {
        &&& run.consumed <= data.len()
        &&& taken_by(after) == taken_by(before) + data.subrange(0, run.consumed as int)
        &&& given_by(after) == given_by(before) + joined(queued)
    }
    &&& run.fault == Some(Fault::NoProgress) ==> {
        &&& before.len() < after.len()
        &&& after.last().taken.len() == 0
        &&& after.last().given.len() == 0
    }
}

/// Whether a step that took in `consumed` bytes and produced `produced`
/// bytes has made no progress.
pub open spec fn stalls(consumed: usize, produced: usize) -> bool {
    consumed == 0 && produced == 0
}

/// Whether a feeding step has made no progress, which ends the run.
pub fn is_stalled(consumed: usize, produced: usize) -> (stalled: bool)
    ensures
        stalled == stalls(consumed, produced),
{
    consumed == 0 && produced == 0
}

/// How a run without input goes on after a step.
#[derive(Clone, Copy, Debug, PartialEq, Eq, Structural)]
pub enum FlushNext {
    /// Nothing is left: the run has ended.
    Done,
    /// Something is left and nothing came: the run fails.
    Stalled,
    /// Something is left and something came: another step follows.
    Again,
}

/// How a run without input goes on after a step that produced `produced`
/// bytes and reported `remaining` as left.
pub open spec fn flush_next(remaining: usize, produced: usize) -> FlushNext {
    if remaining == 0 {
        FlushNext::Done
    } else if produced == 0 {
        FlushNext::Stalled
    } else {
        FlushNext::Again
    }
}

/// Decides how a run without input goes on after a step.
pub fn after_flush_step(remaining: usize, produced: usize) -> (next: FlushNext)
    ensures
        next == flush_next(remaining, produced),
{
    if remaining == 0 {
        FlushNext::Done
    } else if produced == 0 {
        FlushNext::Stalled
    } else {
        FlushNext::Again
    }
}

/// A chunk added at the end adds its bytes at the end.
pub proof fn lemma_joined_push(chunks: Seq<Vec<u8>>, chunk: Vec<u8>)
    ensures
        joined(chunks.push(chunk)) == joined(chunks) + chunk@,
{
    assert(chunks.push(chunk).drop_last() =~= chunks);
}

/// The bytes of a grown queue from `start` on are those of the old queue
/// from there on and those that were added.
pub proof fn lemma_joined_added(start: int, before: Seq<Vec<u8>>, after: Seq<Vec<u8>>)
    requires
        0 <= start <= before.len() <= after.len(),
        after.subrange(0, before.len() as int) == before,
    ensures
        joined(after.skip(start)) == joined(before.skip(start)) + joined(after.skip(before.len() as int)),
    decreases after.len(),
{
    if after.len() == before.len() {
        assert(after.subrange(0, before.len() as int) =~= after);
        assert(after.skip(before.len() as int) =~= Seq::<Vec<u8>>::empty());
        assert(joined(before.skip(start)) + Seq::<u8>::empty() =~= joined(before.skip(start)));
    } else {
        let shorter = after.drop_last();
        assert(shorter.subrange(0, before.len() as int) =~= after.subrange(0, before.len() as int));
        lemma_joined_added(start, before, shorter);
        assert(after.skip(start).drop_last() =~= shorter.skip(start));
        assert(after.skip(before.len() as int).drop_last() =~= shorter.skip(before.len() as int));
        assert(after.skip(start).last() == after.last());
        assert(after.skip(before.len() as int).last() == after.last());
        assert(joined(after.skip(start)) =~= joined(before.skip(start)) + joined(
            after.skip(before.len() as int),
        ));
    }
}

/// Feeds all of `data` to `cctx` with more input to follow, and queues the
/// output in chunks of at most `write_size` bytes.
///
/// Every step is made with more input to follow. Unless a fault ends the
/// run, the context has then taken in all of `data`; what it has produced
/// is what was queued.
pub fn compress_to_chunks(cctx: &mut CCtx<'_>, data: &[u8], write_size: usize, out: &mut Vec<Vec<u8>>) -> (run:
    Drained)
    ensures
        drained_ok(run, old(out)@, final(out)@, data@.len(), write_size as nat),
        recorded(
            run,
            old(cctx).steps(),
            final(cctx).steps(),
            EndDirective::Continue,
            data@,
            final(out)@.skip(old(out)@.len() as int),
        ),
        data@.len() == 0 ==> run == (Drained { consumed: 0, written: 0, fault: None }) && final(out)@ == old(out)@
            && final(cctx).steps() == old(cctx).steps(),
{
    let ghost start = out@;
    let mut written: usize = 0;
    let mut pos: usize = 0;
    proof {
        assert(out@.subrange(0, start.len() as int) =~= start);
        assert(out@.skip(start.len() as int) =~= Seq::<Vec<u8>>::empty());
        assert(data@.subrange(0, 0) =~= Seq::<u8>::empty());
        assert(cctx.taken() + Seq::<u8>::empty() =~= cctx.taken());
        assert(cctx.given() + Seq::<u8>::empty() =~= cctx.given());
    }
    while pos < data.len()
        invariant
            pos <= data@.len(),
            data@.len() == 0 ==> out@ == start && written == 0 && pos == 0 && cctx.steps() == old(cctx).steps(),
            start == old(out)@,
            extends(start, out@, write_size as nat),
            written == chunks_len(out@, start.len() as int),
            continues(old(cctx).steps(), cctx.steps()),
            forall|i: int|
                old(cctx).steps().len() <= i < cctx.steps().len() ==> (#[trigger] cctx.steps()[i]).mode
                    == EndDirective::Continue,
            cctx.taken() == old(cctx).taken() + data@.subrange(0, pos as int),
            cctx.given() == old(cctx).given() + joined(out@.skip(start.len() as int)),
        decreases data@.len() - pos + (usize::MAX - written),
    {
        let view = vstd::slice::slice_subrange(data, pos, data.len());
        let ghost before = cctx.steps();
        let step = match cctx.compress_buffers(view, write_size, EndDirective::Continue) {
            Ok(step) => step,
            Err(fault) => {
                return Drained { consumed: pos, written, fault: Some(fault) };
            },
        };
        proof {
            lemma_continues_twice(old(cctx).steps(), before, cctx.steps());
            assert(data@.subrange(0, pos as int) + view@.subrange(0, step.consumed as int) =~= data@.subrange(
                0,
                pos + step.consumed,
            ));
            assert(cctx.taken() =~= old(cctx).taken() + data@.subrange(0, pos + step.consumed));
        }
        let produced = step.output.len();
        if is_stalled(step.consumed, produced) {
            assert(cctx.given() =~= old(cctx).given() + joined(out@.skip(start.len() as int)));
            return Drained { consumed: pos, written, fault: Some(Fault::NoProgress) };
        }
        if produced > usize::MAX - written {
            return Drained { consumed: pos, written, fault: Some(Fault::CounterOverflow) };
        }
        pos = pos + step.consumed;
        if produced > 0 {
            proof {
                lemma_extends_push(start, out@, step.output, write_size as nat);
                lemma_joined_push(out@.skip(start.len() as int), step.output);
                assert(out@.push(step.output).skip(start.len() as int) =~= out@.skip(start.len() as int).push(
                    step.output,
                ));
                assert(cctx.given() =~= old(cctx).given() + joined(
                    out@.push(step.output).skip(start.len() as int),
                ));
            }
            written = written + produced;
            out.push(step.output);
        } else {
            assert(cctx.given() =~= old(cctx).given() + joined(out@.skip(start.len() as int)));
        }
    }
    assert(data@.subrange(0, pos as int) =~= data@.subrange(0, data@.len() as int));
    Drained { consumed: pos, written, fault: None }
}

/// Runs `cctx` without input in `end_mode` until nothing is left to flush,
/// and queues the output in chunks of at most `write_size` bytes.
///
/// Every step is made in `end_mode` and takes nothing in. After each step
/// `after_flush_step` decides: the run ends without a fault with the step
/// that reports nothing as left, and only with it; it fails with the step
/// that leaves something and produces nothing.
pub fn flush_to_chunks(cctx: &mut CCtx<'_>, end_mode: EndDirective, write_size: usize, out: &mut Vec<Vec<u8>>) -> (run:
    Drained)
    ensures
        drained_ok(run, old(out)@, final(out)@, 0, write_size as nat),
        recorded(
            run,
            old(cctx).steps(),
            final(cctx).steps(),
            end_mode,
            Seq::<u8>::empty(),
            final(out)@.skip(old(out)@.len() as int),
        ),
        forall|i: int|
            old(cctx).steps().len() <= i < final(cctx).steps().len() - 1 ==> (#[trigger] final(cctx).steps()[i]).remaining
                != 0,
        run.fault is None ==> old(cctx).steps().len() < final(cctx).steps().len() && final(cctx).steps().last().remaining == 0,
        run.fault == Some(Fault::NoProgress) ==> final(cctx).steps().last().remaining != 0,
{
    let ghost start = out@;
    let mut written: usize = 0;
    let empty: Vec<u8> = Vec::new();
    proof {
        assert(out@.subrange(0, start.len() as int) =~= start);
        assert(out@.skip(start.len() as int) =~= Seq::<Vec<u8>>::empty());
        assert(Seq::<u8>::empty().subrange(0, 0) =~= Seq::<u8>::empty());
        assert(cctx.taken() + Seq::<u8>::empty() =~= cctx.taken());
        assert(cctx.given() + Seq::<u8>::empty() =~= cctx.given());
    }
    loop
        invariant
            empty@.len() == 0,
            start == old(out)@,
            extends(start, out@, write_size as nat),
            written == chunks_len(out@, start.len() as int),
            continues(old(cctx).steps(), cctx.steps()),
            forall|i: int|
                old(cctx).steps().len() <= i < cctx.steps().len() ==> (#[trigger] cctx.steps()[i]).mode == end_mode
                    && cctx.steps()[i].remaining != 0,
            cctx.taken() == old(cctx).taken(),
            cctx.given() == old(cctx).given() + joined(out@.skip(start.len() as int)),
        decreases usize::MAX - written,
    {
        let ghost before = cctx.steps();
        let step = match cctx.compress_buffers(empty.as_slice(), write_size, end_mode) {
            Ok(step) => step,
            Err(fault) => {
                proof {
                    assert(cctx.taken() =~= old(cctx).taken() + Seq::<u8>::empty().subrange(0, 0));
                }
                return Drained { consumed: 0, written, fault: Some(fault) };
            },
        };
        proof {
            lemma_continues_twice(old(cctx).steps(), before, cctx.steps());
            assert(empty@.subrange(0, step.consumed as int) =~= Seq::<u8>::empty());
            assert(cctx.taken() =~= old(cctx).taken());
            assert(cctx.taken() =~= old(cctx).taken() + Seq::<u8>::empty().subrange(0, 0));
            assert forall|i: int| old(cctx).steps().len() <= i < cctx.steps().len() - 1 implies (
            #[trigger] cctx.steps()[i]).remaining != 0 && cctx.steps()[i].mode == end_mode by {
                assert(cctx.steps()[i] == before[i]);
            }
        }
        let produced = step.output.len();
        let remaining = step.remaining;
        if produced > usize::MAX - written {
            return Drained { consumed: 0, written, fault: Some(Fault::CounterOverflow) };
        }
        if produced > 0 {
            proof {
                lemma_extends_push(start, out@, step.output, write_size as nat);
                lemma_joined_push(out@.skip(start.len() as int), step.output);
                assert(out@.push(step.output).skip(start.len() as int) =~= out@.skip(start.len() as int).push(
                    step.output,
                ));
                assert(cctx.given() =~= old(cctx).given() + joined(
                    out@.push(step.output).skip(start.len() as int),
                ));
            }
            written = written + produced;
            out.push(step.output);
        } else {
            assert(cctx.given() =~= old(cctx).given() + joined(out@.skip(start.len() as int)));
        }
        match after_flush_step(remaining, produced) {
            FlushNext::Done => {
                return Drained { consumed: 0, written, fault: None };
            },
            FlushNext::Stalled => {
                return Drained { consumed: 0, written, fault: Some(Fault::NoProgress) };
            },
            FlushNext::Again => {},
        }
    }
}

/// Feeds all of `data` to `dctx`, and queues the output in chunks of at most
/// `write_size` bytes.
///
/// Unless a fault ends the run, the context has then taken in all of
/// `data`; what it has produced is what was queued.
pub fn decompress_to_chunks(dctx: &mut DCtx<'_>, data: &[u8], write_size: usize, out: &mut Vec<Vec<u8>>) -> (run:
    Drained)
    ensures
        drained_ok(run, old(out)@, final(out)@, data@.len(), write_size as nat),
        recorded(
            run,
            old(dctx).steps(),
            final(dctx).steps(),
            EndDirective::Continue,
            data@,
            final(out)@.skip(old(out)@.len() as int),
        ),
        data@.len() == 0 ==> run == (Drained { consumed: 0, written: 0, fault: None }) && final(out)@ == old(out)@
            && final(dctx).steps() == old(dctx).steps(),
{
    let ghost start = out@;
    let mut written: usize = 0;
    let mut pos: usize = 0;
    proof {
        assert(out@.subrange(0, start.len() as int) =~= start);
        assert(out@.skip(start.len() as int) =~= Seq::<Vec<u8>>::empty());
        assert(data@.subrange(0, 0) =~= Seq::<u8>::empty());
        assert(dctx.taken() + Seq::<u8>::empty() =~= dctx.taken());
        assert(dctx.given() + Seq::<u8>::empty() =~= dctx.given());
    }
    while pos < data.len()
        invariant
            pos <= data@.len(),
            data@.len() == 0 ==> out@ == start && written == 0 && pos == 0 && dctx.steps() == old(dctx).steps(),
            start == old(out)@,
            extends(start, out@, write_size as nat),
            written == chunks_len(out@, start.len() as int),
            continues(old(dctx).steps(), dctx.steps()),
            forall|i: int|
                old(dctx).steps().len() <= i < dctx.steps().len() ==> (#[trigger] dctx.steps()[i]).mode
                    == EndDirective::Continue,
            dctx.taken() == old(dctx).taken() + data@.subrange(0, pos as int),
            dctx.given() == old(dctx).given() + joined(out@.skip(start.len() as int)),
        decreases data@.len() - pos + (usize::MAX - written),
    {
        let view = vstd::slice::slice_subrange(data, pos, data.len());
        let ghost before = dctx.steps();
        let step = match dctx.decompress_buffers(view, write_size) {
            Ok(step) => step,
            Err(fault) => {
                return Drained { consumed: pos, written, fault: Some(fault) };
            },
        };
        proof {
            lemma_continues_twice(old(dctx).steps(), before, dctx.steps());
            assert(data@.subrange(0, pos as int) + view@.subrange(0, step.consumed as int) =~= data@.subrange(
                0,
                pos + step.consumed,
            ));
            assert(dctx.taken() =~= old(dctx).taken() + data@.subrange(0, pos + step.consumed));
        }
        let produced = step.output.len();
        if is_stalled(step.consumed, produced) {
            assert(dctx.given() =~= old(dctx).given() + joined(out@.skip(start.len() as int)));
            return Drained { consumed: pos, written, fault: Some(Fault::NoProgress) };
        }
        if produced > usize::MAX - written {
            return Drained { consumed: pos, written, fault: Some(Fault::CounterOverflow) };
        }
        pos = pos + step.consumed;
        if produced > 0 {
            proof {
                lemma_extends_push(start, out@, step.output, write_size as nat);
                lemma_joined_push(out@.skip(start.len() as int), step.output);
                assert(out@.push(step.output).skip(start.len() as int) =~= out@.skip(start.len() as int).push(
                    step.output,
                ));
                assert(dctx.given() =~= old(dctx).given() + joined(
                    out@.push(step.output).skip(start.len() as int),
                ));
            }
            written = written + produced;
            out.push(step.output);
        } else {
            assert(dctx.given() =~= old(dctx).given() + joined(out@.skip(start.len() as int)));
        }
    }
    assert(data@.subrange(0, pos as int) =~= data@.subrange(0, data@.len() as int));
    Drained { consumed: pos, written, fault: None }
}

/// The bytes of `chunks`, one chunk after the other.
pub fn join_chunks(chunks: &Vec<Vec<u8>>) -> (bytes: Vec<u8>)
    ensures
        bytes@ == joined(chunks@),
{
    let mut bytes: Vec<u8> = Vec::new();
    let mut i: usize = 0;
    while i < chunks.len()
        invariant
            0 <= i <= chunks@.len(),
            bytes@ == joined(chunks@.subrange(0, i as int)),
        decreases chunks@.len() - i,
    {
        let mut piece = chunks[i].clone();
        assert(piece@ == chunks@[i as int]@);
        proof {
            let next = chunks@.subrange(0, i + 1);
            assert(next.drop_last() =~= chunks@.subrange(0, i as int));
            assert(next.last() == chunks@[i as int]);
        }
        bytes.append(&mut piece);
        i = i + 1;
    }
    assert(chunks@.subrange(0, i as int) =~= chunks@);
    bytes
}

/// Copies `data` to the start of `buffer`, and leaves the rest of `buffer`
/// as it was.
pub fn copy_into(buffer: &mut Vec<u8>, data: &Vec<u8>)
    requires
        data@.len() <= old(buffer)@.len(),
    ensures
        final(buffer)@.len() == old(buffer)@.len(),
        final(buffer)@.subrange(0, data@.len() as int) == data@,
        final(buffer)@.subrange(data@.len() as int, old(buffer)@.len() as int) == old(buffer)@.subrange(
            data@.len() as int,
            old(buffer)@.len() as int,
        ),
{
    let mut i: usize = 0;
    while i < data.len()
        invariant
            0 <= i <= data@.len() <= buffer@.len(),
            buffer@.len() == old(buffer)@.len(),
            buffer@.subrange(0, i as int) == data@.subrange(0, i as int),
            buffer@.subrange(i as int, buffer@.len() as int) == old(buffer)@.subrange(
                i as int,
                buffer@.len() as int,
            ),
        decreases data@.len() - i,
    {
        let ghost before = buffer@;
        buffer.set(i, data[i]);
        assert(buffer@.subrange(0, i + 1) =~= data@.subrange(0, i + 1)) by {
            assert(before.subrange(0, i as int) == data@.subrange(0, i as int));
            assert forall|k: int| 0 <= k < i implies buffer@[k] == data@[k] by {
                assert(before.subrange(0, i as int)[k] == data@.subrange(0, i as int)[k]);
            }
        }
        assert(buffer@.subrange(i + 1, buffer@.len() as int) =~= old(buffer)@.subrange(
            i + 1,
            buffer@.len() as int,
        )) by {
            assert forall|k: int| i + 1 <= k < buffer@.len() implies buffer@[k] == old(buffer)@[k] by {
                assert(before.subrange(i as int, buffer@.len() as int)[k - i] == old(buffer)@.subrange(
                    i as int,
                    buffer@.len() as int,
                )[k - i]);
            }
        }
        i = i + 1;
    }
    assert(data@.subrange(0, data@.len() as int) =~= data@);
}

} // verus!
