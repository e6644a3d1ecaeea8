//! Transform contexts: the codec behind a bounded step interface.
//!
//! A context owns one codec handle. A step hands it a view of input and an
//! amount of room for output, and learns how much of each was used and
//! whether work is left. Nothing else about the codec is known here: every
//! function that calls it states only what holds of each outcome.
//!
//! Beside its handle a context keeps a record of the steps it has made:
//! for each step its mode, the bytes it took in, the bytes it produced and
//! what it reported as left. The record is what the contracts of the
//! adapters speak of: which bytes went into the codec, in which steps, and
//! that what they hand out is what came out of it.

use crate::compression_parameters::{
    int_to_strategy, strategy_numbered, CCtxParams, Parameter, ParameterValue, Strategy,
};
use crate::exceptions::{Context, Fault, ZstdError};
use vstd::arithmetic::power2::{lemma2_to64, lemma_pow2_strictly_increases, lemma_pow2_unfold, pow2};
use vstd::prelude::*;

verus! {

#[verifier::external_type_specification]
#[verifier::external_body]
pub struct ExCStream<'a>(::zstd_safe::CStream<'a>);

#[verifier::external_type_specification]
#[verifier::external_body]
pub struct ExDStream<'a>(::zstd_safe::DStream<'a>);

#[verifier::external_type_specification]
#[verifier::external_body]
pub struct ExCDict<'a>(::zstd_safe::CDict<'a>);

#[verifier::external_type_specification]
#[verifier::external_body]
pub struct ExDDict<'a>(::zstd_safe::DDict<'a>);

/// What a compression step does once the input view is taken in.
#[derive(Clone, Copy, Debug, PartialEq, Eq, Structural)]
pub enum EndDirective {
    /// More input follows; the codec may hold data back.
    Continue,
    /// Emit everything taken in so far, and keep the frame open.
    Flush,
    /// Emit everything and end the frame.
    End,
}

/// What one step of a context did.
pub struct Step {
    /// Bytes of the input view that were taken in.
    pub consumed: usize,
    /// The bytes that were produced.
    pub output: Vec<u8>,
    /// Zero when nothing is left to flush (compression) or when a frame has
    /// just ended (decompression). Any other value only says "not yet".
    pub remaining: usize,
}

/// The record of one step of a context: the mode it was made in, the bytes
/// of the input view that it took in, the bytes that it produced, and what
/// it reported as left. A decompression step has no mode of its own, and is
/// recorded as one with more input to follow.
pub struct StepRecord {
    pub mode: EndDirective,
    pub taken: Seq<u8>,
    pub given: Seq<u8>,
    pub remaining: usize,
}

/// The bytes that `steps` took in, one step after the other.
pub open spec fn taken_by(steps: Seq<StepRecord>) -> Seq<u8>
    decreases steps.len(),
{
    if steps.len() == 0 {
        Seq::empty()
    } else {
        taken_by(steps.drop_last()) + steps.last().taken
    }
}

/// The bytes that `steps` produced, one step after the other.
pub open spec fn given_by(steps: Seq<StepRecord>) -> Seq<u8>
    decreases steps.len(),
{
    if steps.len() == 0 {
        Seq::empty()
    } else {
        given_by(steps.drop_last()) + steps.last().given
    }
}

/// Whether `after` is `before` with steps added at its end.
pub open spec fn continues(before: Seq<StepRecord>, after: Seq<StepRecord>) -> bool {
    before.len() <= after.len() && forall|i: int| 0 <= i < before.len() ==> #[trigger] after[i] == before[i]
}

/// Whether one of the steps of `steps` from index `from` on reported that
/// nothing is left: that all is flushed, or that a frame has ended.
pub open spec fn settled_since(steps: Seq<StepRecord>, from: int) -> bool {
    exists|i: int| from <= i < steps.len() && (#[trigger] steps[i]).remaining == 0
}

/// One more step adds what it took in and what it produced.
pub proof fn lemma_step_added(steps: Seq<StepRecord>, step: StepRecord)
    ensures
        taken_by(steps.push(step)) == taken_by(steps) + step.taken,
        given_by(steps.push(step)) == given_by(steps) + step.given,
        continues(steps, steps.push(step)),
        continues(steps, steps),
{
    assert(steps.push(step).drop_last() =~= steps);
}

/// Steps added to steps that were added are steps added.
pub proof fn lemma_continues_twice(first: Seq<StepRecord>, second: Seq<StepRecord>, third: Seq<StepRecord>)
    requires
        continues(first, second),
        continues(second, third),
    ensures
        continues(first, third),
{
    assert forall|i: int| 0 <= i < first.len() implies #[trigger] third[i] == first[i] by {
        assert(third[i] == second[i]);
        assert(second[i] == first[i]);
    }
}

/// How far the frame in progress has come.
#[derive(Clone, Copy, Debug, PartialEq, Eq, Structural)]
pub struct FrameProgression {
    pub ingested: u64,
    pub consumed: u64,
    pub produced: u64,
}

/// The text the codec has for an error code.
pub uninterp spec fn error_name(code: usize) -> Seq<char>;

/// `zstd_safe::get_error_name`: the text for `code`, which the codec looks up
/// in a fixed table.
#[verifier::external_body]
pub(crate) fn get_error_name(code: usize) -> (name: String)
    ensures
        name@ == error_name(code),
{
    ::zstd_safe::get_error_name(code).to_string()
}

/// The codec's bound on the size of one frame made of `src_size` bytes.
pub uninterp spec fn frame_bound(src_size: usize) -> usize;

/// `zstd_safe::compress_bound`: the codec's bound on the size of one frame
/// made of `src_size` bytes, which it works out from that number alone.
#[verifier::external_body]
pub(crate) fn compress_bound(src_size: usize) -> (bound: usize)
    ensures
        bound == frame_bound(src_size),
{
    ::zstd_safe::compress_bound(src_size)
}

/// `zstd_safe::max_c_level`: the largest compression level of this build of
/// the codec.
#[verifier::external_body]
pub(crate) fn max_c_level() -> i32 {
    ::zstd_safe::max_c_level()
}

/// `zstd_safe::CCtx::in_size`: the input size the codec recommends for a
/// compression step.
#[verifier::external_body]
pub(crate) fn cstream_in_size() -> usize {
    ::zstd_safe::CStream::in_size()
}

/// `zstd_safe::CCtx::out_size`: the output size the codec recommends for a
/// compression step.
#[verifier::external_body]
pub(crate) fn cstream_out_size() -> usize {
    ::zstd_safe::CStream::out_size()
}

/// `zstd_safe::DCtx::in_size`: the input size the codec recommends for a
/// decompression step.
#[verifier::external_body]
pub(crate) fn dstream_in_size() -> usize {
    ::zstd_safe::DStream::in_size()
}

/// `zstd_safe::DCtx::out_size`: the output size the codec recommends for a
/// decompression step.
#[verifier::external_body]
pub(crate) fn dstream_out_size() -> usize {
    ::zstd_safe::DStream::out_size()
}

/// `zstd_safe::CCtx::try_create` (`CStream` is that crate's other name for
/// `CCtx`, as `DStream` is for `DCtx`).
#[verifier::external_body]
fn cctx_try_create() -> Option<::zstd_safe::CStream<'static>> {
    ::zstd_safe::CStream::try_create()
}

/// `zstd_safe::CCtx::compress_stream2` on a fresh output buffer of `room`
/// bytes. The call moves both positions forward within their buffers, so what
/// was read is no more than `src` and what was written no more than `room`.
/// A vector of more than `isize::MAX` bytes cannot be made, so such a
/// `room` is left out.
#[verifier::external_body]
fn cctx_compress_stream2(
    cctx: &mut ::zstd_safe::CStream<'_>,
    src: &[u8],
    room: usize,
    end_mode: EndDirective,
) -> (res: Result<Step, usize>)
    requires
        room <= isize::MAX,
    ensures
        res matches Ok(step) ==> step.consumed <= src@.len() && step.output@.len() <= room,
{
    let end_op = match end_mode {
        EndDirective::Continue => ::zstd_sys::ZSTD_EndDirective::ZSTD_e_continue,
        EndDirective::Flush => ::zstd_sys::ZSTD_EndDirective::ZSTD_e_flush,
        EndDirective::End => ::zstd_sys::ZSTD_EndDirective::ZSTD_e_end,
    };
    let mut dest = vec![0u8; room];
    let mut output = ::zstd_safe::OutBuffer::around(&mut dest[..]);
    let mut input = ::zstd_safe::InBuffer::around(src);
    let res = cctx.compress_stream2(&mut output, &mut input, end_op);
    let (produced, consumed) = (output.pos(), input.pos());
    dest.truncate(produced);
    res.map(|remaining| Step { consumed, output: dest, remaining })
}

/// `zstd_safe::CCtx::reset`, for the session only.
#[verifier::external_body]
fn cctx_reset_session(cctx: &mut ::zstd_safe::CStream<'_>) -> Result<usize, usize> {
    cctx.reset(::zstd_safe::ResetDirective::SessionOnly)
}

/// `zstd_safe::CCtx::set_pledged_src_size`.
#[verifier::external_body]
fn cctx_set_pledged_src_size(cctx: &mut ::zstd_safe::CStream<'_>, size: u64) -> Result<usize, usize> {
    cctx.set_pledged_src_size(Some(size))
}

/// `zstd_safe::CCtx::sizeof`.
#[verifier::external_body]
fn cctx_sizeof(cctx: &::zstd_safe::CStream<'_>) -> usize {
    cctx.sizeof()
}

/// `zstd_safe::CCtx::load_dictionary`.
#[verifier::external_body]
fn cctx_load_dictionary(cctx: &mut ::zstd_safe::CStream<'_>, data: &[u8]) -> Result<usize, usize> {
    cctx.load_dictionary(data)
}

/// `zstd_safe::CCtx::ref_cdict`.
#[verifier::external_body]
fn cctx_ref_cdict<'a>(cctx: &mut ::zstd_safe::CStream<'a>, cdict: &'a ::zstd_safe::CDict<'static>) -> Result<
    usize,
    usize,
> {
    cctx.ref_cdict(cdict)
}

/// `zstd_safe::CCtx::get_frame_progression`.
#[verifier::external_body]
fn cctx_get_frame_progression(cctx: &::zstd_safe::CStream<'_>) -> FrameProgression {
    let progression = cctx.get_frame_progression();
    FrameProgression {
        ingested: progression.ingested,
        consumed: progression.consumed,
        produced: progression.produced,
    }
}

/// `zstd_safe::CDict::try_create`.
#[verifier::external_body]
fn cdict_try_create(data: &[u8], level: i32) -> Option<::zstd_safe::CDict<'static>> {
    ::zstd_safe::CDict::try_create(data, level)
}

/// `zstd_safe::DDict::try_create`.
#[verifier::external_body]
fn ddict_try_create(data: &[u8]) -> Option<::zstd_safe::DDict<'static>> {
    ::zstd_safe::DDict::try_create(data)
}

/// A dictionary prepared for compression.
pub struct PreparedCDict {
    inner: ::zstd_safe::CDict<'static>,
}

impl PreparedCDict {
    /// Prepares `data` for compression at `level`. Fails with
    /// `Fault::CompressionContext` when the codec hands nothing back.
    pub fn from_data(data: &[u8], level: i32) -> (res: Result<PreparedCDict, Fault>)
        ensures
            res matches Err(fault) ==> fault == Fault::CompressionContext,
    {
        match cdict_try_create(data, level) {
            Some(inner) => Ok(PreparedCDict { inner }),
            None => Err(Fault::CompressionContext),
        }
    }
}

/// A dictionary prepared for decompression.
pub struct PreparedDDict {
    inner: ::zstd_safe::DDict<'static>,
}

impl PreparedDDict {
    /// Prepares `data` for decompression. Fails with
    /// `Fault::DecompressionContext` when the codec hands nothing back.
    pub fn from_data(data: &[u8]) -> (res: Result<PreparedDDict, Fault>)
        ensures
            res matches Err(fault) ==> fault == Fault::DecompressionContext,
    {
        match ddict_try_create(data) {
            Some(inner) => Ok(PreparedDDict { inner }),
            None => Err(Fault::DecompressionContext),
        }
    }
}

/// The room that a step works with: no buffer holds more than `isize::MAX`
/// bytes.
fn bounded_room(room: usize) -> (bounded: usize)
    ensures
        bounded <= room,
        bounded <= isize::MAX,
        room <= isize::MAX ==> bounded == room,
{
    if room > isize::MAX as usize {
        isize::MAX as usize
    } else {
        room
    }
}

/// Maps the codec's result of a setter, whose success value says nothing.
fn settled(res: Result<usize, usize>) -> (r: Result<(), Fault>)
    ensures
        r == match res {
            Ok(_) => Ok::<(), Fault>(()),
            Err(code) => Err::<(), Fault>(Fault::Code(code)),
        },
{
    match res {
        Ok(_) => Ok(()),
        Err(code) => Err(Fault::Code(code)),
    }
}

/// The room left in a buffer of `len` bytes that may grow to `capacity`.
pub open spec fn room_in(len: int, capacity: int) -> int {
    if len < capacity {
        capacity - len
    } else {
        0
    }
}

/// What a step into a buffer did, without the bytes.
#[derive(Clone, Copy, Debug, PartialEq, Eq, Structural)]
pub struct Progress {
    /// Bytes of the input view that were taken in.
    pub consumed: usize,
    /// Bytes that were appended to the buffer.
    pub produced: usize,
    /// Zero when nothing is left to flush, or when a frame has just ended.
    pub remaining: usize,
}

/// Appends the output of `step` to `dest`, and says what the step did.
fn append_step(dest: &mut Vec<u8>, step: Step) -> (p: Progress)
    requires
        old(dest)@.len() + step.output@.len() <= usize::MAX,
    ensures
        final(dest)@ == old(dest)@ + step.output@,
        p.consumed == step.consumed,
        p.produced == step.output@.len(),
        p.remaining == step.remaining,
{
    let mut step = step;
    let produced = step.output.len();
    dest.append(&mut step.output);
    Progress { consumed: step.consumed, produced, remaining: step.remaining }
}

/// The result of the one step that makes a frame: the frame, unless the
/// step has left data behind.
pub open spec fn one_shot(output: Seq<u8>, remaining: usize) -> Result<Seq<u8>, Fault> {
    if remaining > 0 {
        Err(Fault::PartialFrameFlush)
    } else {
        Ok(output)
    }
}

/// Takes the frame that one step has made, unless the step has left data
/// behind.
pub fn finish_one_shot(step: Step) -> (res: Result<Vec<u8>, Fault>)
    ensures
        match one_shot(step.output@, step.remaining) {
            Ok(frame) => res matches Ok(bytes) && bytes@ == frame,
            Err(fault) => res == Err::<Vec<u8>, Fault>(fault),
        },
{
    if step.remaining > 0 {
        Err(Fault::PartialFrameFlush)
    } else {
        Ok(step.output)
    }
}

/// A compression context, and the record of the steps it has made.
pub struct CCtx<'a> {
    inner: ::zstd_safe::CStream<'a>,
    steps: Ghost<Seq<StepRecord>>,
}

impl<'a> CCtx<'a> {
    /// The steps that the context has made since it was made or last reset,
    /// in their order. A step that failed is not among them.
    pub closed spec fn steps(self) -> Seq<StepRecord> {
        self.steps@
    }

    /// The bytes that the context has taken in since it was made or last
    /// reset.
    pub open spec fn taken(self) -> Seq<u8> {
        taken_by(self.steps())
    }

    /// The bytes that the context has produced since it was made or last
    /// reset.
    pub open spec fn given(self) -> Seq<u8> {
        given_by(self.steps())
    }

    /// A fresh context with the codec's default parameters. Fails with
    /// `Fault::CompressionContext` when the codec cannot allocate one.
    pub fn new() -> (res: Result<CCtx<'static>, Fault>)
        ensures
            res matches Ok(cctx) ==> cctx.steps().len() == 0,
            res matches Err(fault) ==> fault == Fault::CompressionContext,
    {
        match cctx_try_create() {
            Some(inner) => Ok(CCtx { inner, steps: Ghost(Seq::empty()) }),
            None => Err(Fault::CompressionContext),
        }
    }

    /// The memory the context holds at the moment.
    pub fn memory_size(&self) -> usize {
        cctx_sizeof(&self.inner)
    }

    /// Drops the frame in progress and keeps the parameters. The record of
    /// steps starts anew.
    pub fn reset(&mut self) -> (res: Result<(), Fault>)
        ensures
            final(self).steps().len() == 0,
            res matches Err(fault) ==> fault is Code,
    {
        proof {
            self.steps@ = Seq::empty();
        }
        settled(cctx_reset_session(&mut self.inner))
    }

    /// Declares how many bytes the next frame will be made of.
    pub fn set_pledged_source_size(&mut self, size: u64) -> (res: Result<(), Fault>)
        ensures
            final(self).steps() == old(self).steps(),
            res matches Err(fault) ==> fault is Code,
    {
        settled(cctx_set_pledged_src_size(&mut self.inner, size))
    }

    /// Makes later frames use the prepared dictionary `cdict`.
    pub fn load_computed_dict(&mut self, cdict: &'a PreparedCDict) -> (res: Result<(), Fault>)
        ensures
            final(self).steps() == old(self).steps(),
            res matches Err(fault) ==> fault is Code,
    {
        settled(cctx_ref_cdict(&mut self.inner, &cdict.inner))
    }

    /// Makes later frames use the dictionary bytes `data`.
    pub fn load_dict_data(&mut self, data: &[u8]) -> (res: Result<(), Fault>)
        ensures
            final(self).steps() == old(self).steps(),
            res matches Err(fault) ==> fault is Code,
    {
        settled(cctx_load_dictionary(&mut self.inner, data))
    }

    /// How far the frame in progress has come.
    pub fn get_frame_progression(&self) -> FrameProgression {
        cctx_get_frame_progression(&self.inner)
    }

    /// One step: takes in some of `source` and produces at most `room`
    /// bytes, and never more than `isize::MAX`. A step that the codec has
    /// made is added to the record; a failed one leaves the record as it
    /// was.
    pub fn compress_buffers(&mut self, source: &[u8], room: usize, end_mode: EndDirective) -> (res: Result<
        Step,
        Fault,
    >)
        ensures
            match res {
                Ok(step) => {
                    &&& step.consumed <= source@.len()
                    &&& step.output@.len() <= room
                    &&& final(self).steps() == old(self).steps().push(
                        (StepRecord {
                            mode: end_mode,
                            taken: source@.subrange(0, step.consumed as int),
                            given: step.output@,
                            remaining: step.remaining,
                        }),
                    )
                    &&& final(self).taken() == old(self).taken() + source@.subrange(0, step.consumed as int)
                    &&& final(self).given() == old(self).given() + step.output@
                    &&& continues(old(self).steps(), final(self).steps())
                },
                Err(fault) => fault is Code && final(self).steps() == old(self).steps(),
            },
    {
        match cctx_compress_stream2(&mut self.inner, source, bounded_room(room), end_mode) {
            Ok(step) => {
                proof {
                    let record = StepRecord {
                        mode: end_mode,
                        taken: source@.subrange(0, step.consumed as int),
                        given: step.output@,
                        remaining: step.remaining,
                    };
                    lemma_step_added(self.steps@, record);
                    self.steps@ = self.steps@.push(record);
                }
                Ok(step)
            },
            Err(code) => Err(Fault::Code(code)),
        }
    }

    /// One step whose output is appended to `dest`, which grows to at most
    /// `capacity` bytes. A failed step leaves `dest` as it was.
    pub fn compress_into_vec(
        &mut self,
        dest: &mut Vec<u8>,
        capacity: usize,
        source: &[u8],
        end_mode: EndDirective,
    ) -> (res: Result<Progress, Fault>)
        ensures
            match res {
                Ok(p) => {
                    &&& p.consumed <= source@.len()
                    &&& p.produced <= room_in(old(dest)@.len() as int, capacity as int)
                    &&& final(dest)@.len() == old(dest)@.len() + p.produced
                    &&& final(dest)@.subrange(0, old(dest)@.len() as int) == old(dest)@
                    &&& final(self).steps() == old(self).steps().push(
                        (StepRecord {
                            mode: end_mode,
                            taken: source@.subrange(0, p.consumed as int),
                            given: final(dest)@.skip(old(dest)@.len() as int),
                            remaining: p.remaining,
                        }),
                    )
                    &&& final(self).taken() == old(self).taken() + source@.subrange(0, p.consumed as int)
                    &&& final(self).given() == old(self).given() + final(dest)@.skip(old(dest)@.len() as int)
                    &&& continues(old(self).steps(), final(self).steps())
                },
                Err(fault) => final(dest)@ == old(dest)@ && fault is Code && final(self).steps() == old(self).steps(),
            },
    {
        let room = if dest.len() < capacity {
            capacity - dest.len()
        } else {
            0
        };
        match self.compress_buffers(source, room, end_mode) {
            Ok(step) => {
                let ghost before = dest@;
                let ghost output = step.output@;
                let p = append_step(dest, step);
                assert(dest@.subrange(0, before.len() as int) =~= before);
                assert(dest@.skip(before.len() as int) =~= output);
                Ok(p)
            },
            Err(fault) => Err(fault),
        }
    }

    /// Compresses the rest of `source` for one call: the bytes produced, the
    /// part of `source` that was not taken in, and whether work is left.
    pub fn compress_chunk<'b>(&mut self, source: &'b [u8], end_mode: EndDirective, output_size: usize) -> (res:
        Result<(Vec<u8>, &'b [u8], bool), Fault>)
        ensures
            match res {
                Ok((data, rest, more)) => {
                    &&& data@.len() <= output_size
                    &&& rest@.len() <= source@.len()
                    &&& rest@ == source@.skip(source@.len() - rest@.len())
                    &&& final(self).taken() == old(self).taken() + source@.subrange(
                        0,
                        source@.len() - rest@.len(),
                    )
                    &&& final(self).given() == old(self).given() + data@
                    &&& continues(old(self).steps(), final(self).steps())
                    &&& final(self).steps().len() == old(self).steps().len() + 1
                    &&& final(self).steps().last().mode == end_mode
                    &&& more == (final(self).steps().last().remaining != 0)
                },
                Err(fault) => fault is Code && final(self).steps() == old(self).steps(),
            },
    {
        match self.compress_buffers(source, output_size, end_mode) {
            Ok(step) => {
                let rest = vstd::slice::slice_subrange(source, step.consumed, source.len());
                assert(rest@ =~= source@.skip(source@.len() - rest@.len()));
                Ok((step.output, rest, step.remaining != 0))
            },
            Err(fault) => Err(fault),
        }
    }

    /// Compresses `source` into one frame.
    ///
    /// The session is reset, the size of `source` declared, and the frame
    /// ended in a single step with room for the codec's bound. The result is
    /// `Err(Fault::PartialFrameFlush)` if that step leaves data behind.
    ///
    /// So a frame is all that the one step has produced, is no longer than
    /// the bound, and comes only where the step has left nothing behind;
    /// the context has then taken in a first part of `source`, in that one
    /// step.
    pub fn compress(&mut self, source: &[u8]) -> (res: Result<Vec<u8>, Fault>)
        ensures
            final(self).steps().len() <= 1,
            match res {
                Ok(frame) => {
                    &&& frame@.len() <= frame_bound(source.len())
                    &&& final(self).steps().len() == 1
                    &&& final(self).steps()[0].mode == EndDirective::End
                    &&& final(self).steps()[0].remaining == 0
                    &&& final(self).given() == frame@
                    &&& final(self).taken().len() <= source@.len()
                    &&& final(self).taken() == source@.subrange(0, final(self).taken().len() as int)
                },
                Err(fault) => {
                    ||| fault is Code
                    ||| fault is PartialFrameFlush && final(self).steps().len() == 1 && final(self).steps()[0].remaining
                        > 0
                },
            },
    {
        let _ = self.reset();
        let dest_len = compress_bound(source.len());
        let pledged = self.set_pledged_source_size(source.len() as u64);
        if let Err(fault) = pledged {
            return Err(fault);
        }
        match self.compress_buffers(source, dest_len, EndDirective::End) {
            Ok(step) => {
                proof {
                    let record = self.steps()[0];
                    assert(self.steps().drop_last() =~= Seq::<StepRecord>::empty());
                    assert(taken_by(self.steps()) =~= record.taken);
                    assert(given_by(self.steps()) =~= record.given);
                }
                finish_one_shot(step)
            },
            Err(fault) => Err(fault),
        }
    }
}

/// The layout of the frames a context reads or writes.
#[derive(Clone, Copy, Debug, PartialEq, Eq, Structural)]
pub enum FrameFormat {
    /// Frames that start with the magic number.
    Zstd1,
    /// Frames without the magic number.
    Zstd1Magicless,
}

/// What the header at the start of `src` says of the frame's content size:
/// `Err` for a header that is damaged or cut short, `Ok(None)` for one that
/// names no size.
pub uninterp spec fn frame_content_size(src: Seq<u8>) -> Result<Option<u64>, ()>;

/// `zstd_safe::get_frame_content_size`: the content size that the frame
/// header in `src` declares. The codec reads it from the bytes alone.
#[verifier::external_body]
pub(crate) fn get_frame_content_size(src: &[u8]) -> (size: Result<Option<u64>, ()>)
    ensures
        size == frame_content_size(src@),
{
    ::zstd_safe::get_frame_content_size(src).map_err(|_| ())
}

/// `zstd_safe::DCtx::try_create`.
#[verifier::external_body]
fn dctx_try_create() -> Option<::zstd_safe::DStream<'static>> {
    ::zstd_safe::DStream::try_create()
}

/// `zstd_safe::DCtx::try_clone`.
#[verifier::external_body]
#[allow(deprecated)]
fn dctx_try_clone<'a>(dctx: &::zstd_safe::DStream<'a>) -> Result<::zstd_safe::DStream<'a>, usize> {
    dctx.try_clone()
}

/// `zstd_safe::DCtx::decompress_stream` on a fresh output buffer of `room`
/// bytes. The call moves both positions forward within their buffers, so what
/// was read is no more than `src` and what was written no more than `room`.
/// A vector of more than `isize::MAX` bytes cannot be made, so such a
/// `room` is left out.
#[verifier::external_body]
fn dctx_decompress_stream(dctx: &mut ::zstd_safe::DStream<'_>, src: &[u8], room: usize) -> (res: Result<
    Step,
    usize,
>)
    requires
        room <= isize::MAX,
    ensures
        res matches Ok(step) ==> step.consumed <= src@.len() && step.output@.len() <= room,
{
    let mut dest = vec![0u8; room];
    let mut output = ::zstd_safe::OutBuffer::around(&mut dest[..]);
    let mut input = ::zstd_safe::InBuffer::around(src);
    let res = dctx.decompress_stream(&mut output, &mut input);
    let (produced, consumed) = (output.pos(), input.pos());
    dest.truncate(produced);
    res.map(|remaining| Step { consumed, output: dest, remaining })
}

/// `zstd_safe::DCtx::reset`, for the session only.
#[verifier::external_body]
fn dctx_reset_session(dctx: &mut ::zstd_safe::DStream<'_>) -> Result<usize, usize> {
    dctx.reset(::zstd_safe::ResetDirective::SessionOnly)
}

/// `zstd_safe::DCtx::sizeof`.
#[verifier::external_body]
fn dctx_sizeof(dctx: &::zstd_safe::DStream<'_>) -> usize {
    dctx.sizeof()
}

/// `zstd_safe::DCtx::set_parameter` with `DParameter::WindowLogMax`.
#[verifier::external_body]
fn dctx_set_window_log_max(dctx: &mut ::zstd_safe::DStream<'_>, log: u32) -> Result<usize, usize> {
    dctx.set_parameter(::zstd_safe::DParameter::WindowLogMax(log))
}

/// `zstd_safe::DCtx::set_parameter` with `DParameter::Format`.
#[verifier::external_body]
fn dctx_set_format(dctx: &mut ::zstd_safe::DStream<'_>, format: FrameFormat) -> Result<usize, usize> {
    dctx.set_parameter(::zstd_safe::DParameter::Format(match format {
        FrameFormat::Zstd1 => ::zstd_safe::FrameFormat::One,
        FrameFormat::Zstd1Magicless => ::zstd_safe::FrameFormat::Magicless,
    }))
}

/// `zstd_safe::DCtx::load_dictionary`.
#[verifier::external_body]
fn dctx_load_dictionary(dctx: &mut ::zstd_safe::DStream<'_>, data: &[u8]) -> Result<usize, usize> {
    dctx.load_dictionary(data)
}

/// `zstd_safe::DCtx::ref_ddict`.
#[verifier::external_body]
fn dctx_ref_ddict<'a>(dctx: &mut ::zstd_safe::DStream<'a>, ddict: &'a ::zstd_safe::DDict<'static>) -> Result<
    usize,
    usize,
> {
    dctx.ref_ddict(ddict)
}

/// The number of times `n` can be halved before it is at most one.
pub open spec fn floor_log2(n: nat) -> nat
    decreases n,
{
    if n <= 1 {
        0
    } else {
        1 + floor_log2(n / 2)
    }
}

/// The exponent of the largest power of two that is not above `size`.
pub fn window_log_of(size: usize) -> (log: u32)
    ensures
        log == floor_log2(size as nat),
        log < 64,
{
    let mut log: u32 = 0;
    let mut rest: usize = size;
    proof {
        lemma2_to64();
    }
    while rest > 1
        invariant
            floor_log2(size as nat) == log + floor_log2(rest as nat),
            rest as nat * pow2(log as nat) <= size,
            log < 64,
        decreases rest,
    {
        proof {
            let p = pow2(log as nat);
            lemma_pow2_unfold((log + 1) as nat);
            assert((rest / 2) as nat * (2 * p) <= rest as nat * p) by (nonlinear_arith)
                requires
                    p >= 0,
                    rest >= 0,
            ;
            assert(2 * p <= (rest / 2) as nat * (2 * p)) by (nonlinear_arith)
                requires
                    p >= 0,
                    rest / 2 >= 1,
            ;
            lemma2_to64();
            if log + 1 >= 64 {
                if log + 1 > 64 {
                    lemma_pow2_strictly_increases(64, (log + 1) as nat);
                }
                assert(false);
            }
        }
        rest = rest / 2;
        log = log + 1;
    }
    log
}

/// A decompression context, and the record of the steps it has made.
pub struct DCtx<'a> {
    inner: ::zstd_safe::DStream<'a>,
    steps: Ghost<Seq<StepRecord>>,
}

impl<'a> DCtx<'a> {
    /// The steps that the context has made since it was made or last reset,
    /// in their order. A step that failed is not among them.
    pub closed spec fn steps(self) -> Seq<StepRecord> {
        self.steps@
    }

    /// The bytes that the context has taken in since it was made or last
    /// reset.
    pub open spec fn taken(self) -> Seq<u8> {
        taken_by(self.steps())
    }

    /// The bytes that the context has produced since it was made or last
    /// reset.
    pub open spec fn given(self) -> Seq<u8> {
        given_by(self.steps())
    }

    /// A fresh context. Fails with `Fault::DecompressionContext` when the
    /// codec cannot allocate one.
    pub fn new() -> (res: Result<DCtx<'static>, Fault>)
        ensures
            res matches Ok(dctx) ==> dctx.steps().len() == 0,
            res matches Err(fault) ==> fault == Fault::DecompressionContext,
    {
        match dctx_try_create() {
            Some(inner) => Ok(DCtx { inner, steps: Ghost(Seq::empty()) }),
            None => Err(Fault::DecompressionContext),
        }
    }

    /// A second context with the settings of this one, at the start of a
    /// frame.
    pub fn try_clone(&self) -> (res: Result<DCtx<'a>, Fault>)
        ensures
            res matches Ok(copy) ==> copy.steps().len() == 0,
            res matches Err(fault) ==> fault is Code,
    {
        match dctx_try_clone(&self.inner) {
            Ok(inner) => Ok(DCtx { inner, steps: Ghost(Seq::empty()) }),
            Err(code) => Err(Fault::Code(code)),
        }
    }

    /// The memory the context holds at the moment.
    pub fn memory_size(&self) -> usize {
        dctx_sizeof(&self.inner)
    }

    /// Drops the frame in progress and keeps the parameters.
    pub fn reset(&mut self) -> (res: Result<(), Fault>)
        ensures
            final(self).steps().len() == 0,
            res matches Err(fault) ==> fault is Code,
    {
        proof {
            self.steps@ = Seq::empty();
        }
        settled(dctx_reset_session(&mut self.inner))
    }

    /// Refuses frames that need a window above the largest power of two that
    /// is not above `size`.
    pub fn set_max_window_size(&mut self, size: usize) -> (res: Result<(), Fault>)
        ensures
            final(self).steps() == old(self).steps(),
            res matches Err(fault) ==> fault is Code,
    {
        settled(dctx_set_window_log_max(&mut self.inner, window_log_of(size)))
    }

    /// Chooses the layout of the frames to decode.
    pub fn set_format(&mut self, format: FrameFormat) -> (res: Result<(), Fault>)
        ensures
            final(self).steps() == old(self).steps(),
            res matches Err(fault) ==> fault is Code,
    {
        settled(dctx_set_format(&mut self.inner, format))
    }

    /// Makes later frames use the prepared dictionary `ddict`.
    pub fn load_prepared_dict(&mut self, ddict: &'a PreparedDDict) -> (res: Result<(), Fault>)
        ensures
            final(self).steps() == old(self).steps(),
            res matches Err(fault) ==> fault is Code,
    {
        settled(dctx_ref_ddict(&mut self.inner, &ddict.inner))
    }

    /// Makes later frames use the dictionary bytes `data`.
    pub fn load_dict_data(&mut self, data: &[u8]) -> (res: Result<(), Fault>)
        ensures
            final(self).steps() == old(self).steps(),
            res matches Err(fault) ==> fault is Code,
    {
        settled(dctx_load_dictionary(&mut self.inner, data))
    }

    /// One step: takes in some of `source` and produces at most `room`
    /// bytes, and never more than `isize::MAX`. `remaining` is zero exactly
    /// when the codec reports the end of a frame.
    /// A step that the codec has made is added to the record; a failed one
    /// leaves the record as it was.
    pub fn decompress_buffers(&mut self, source: &[u8], room: usize) -> (res: Result<Step, Fault>)
        ensures
            match res {
                Ok(step) => {
                    &&& step.consumed <= source@.len()
                    &&& step.output@.len() <= room
                    &&& final(self).steps() == old(self).steps().push(
                        (StepRecord {
                            mode: EndDirective::Continue,
                            taken: source@.subrange(0, step.consumed as int),
                            given: step.output@,
                            remaining: step.remaining,
                        }),
                    )
                    &&& final(self).taken() == old(self).taken() + source@.subrange(0, step.consumed as int)
                    &&& final(self).given() == old(self).given() + step.output@
                    &&& continues(old(self).steps(), final(self).steps())
                },
                Err(fault) => fault is Code && final(self).steps() == old(self).steps(),
            },
    {
        match dctx_decompress_stream(&mut self.inner, source, bounded_room(room)) {
            Ok(step) => {
                proof {
                    let record = StepRecord {
                        mode: EndDirective::Continue,
                        taken: source@.subrange(0, step.consumed as int),
                        given: step.output@,
                        remaining: step.remaining,
                    };
                    lemma_step_added(self.steps@, record);
                    self.steps@ = self.steps@.push(record);
                }
                Ok(step)
            },
            Err(code) => Err(Fault::Code(code)),
        }
    }

    /// One step whose output is appended to `dest`, which grows to at most
    /// `capacity` bytes. A failed step leaves `dest` as it was.
    pub fn decompress_into_vec(&mut self, dest: &mut Vec<u8>, capacity: usize, source: &[u8]) -> (res: Result<
        Progress,
        Fault,
    >)
        ensures
            match res {
                Ok(p) => {
                    &&& p.consumed <= source@.len()
                    &&& p.produced <= room_in(old(dest)@.len() as int, capacity as int)
                    &&& final(dest)@.len() == old(dest)@.len() + p.produced
                    &&& final(dest)@.subrange(0, old(dest)@.len() as int) == old(dest)@
                    &&& final(self).steps() == old(self).steps().push(
                        (StepRecord {
                            mode: EndDirective::Continue,
                            taken: source@.subrange(0, p.consumed as int),
                            given: final(dest)@.skip(old(dest)@.len() as int),
                            remaining: p.remaining,
                        }),
                    )
                    &&& final(self).taken() == old(self).taken() + source@.subrange(0, p.consumed as int)
                    &&& final(self).given() == old(self).given() + final(dest)@.skip(old(dest)@.len() as int)
                    &&& continues(old(self).steps(), final(self).steps())
                },
                Err(fault) => final(dest)@ == old(dest)@ && fault is Code && final(self).steps() == old(self).steps(),
            },
    {
        let room = if dest.len() < capacity {
            capacity - dest.len()
        } else {
            0
        };
        match self.decompress_buffers(source, room) {
            Ok(step) => {
                let ghost before = dest@;
                let ghost output = step.output@;
                let p = append_step(dest, step);
                assert(dest@.subrange(0, before.len() as int) =~= before);
                assert(dest@.skip(before.len() as int) =~= output);
                Ok(p)
            },
            Err(fault) => Err(fault),
        }
    }
}

/// The parameters of the match finder.
#[derive(Clone, Copy, Debug, PartialEq, Eq, Structural)]
pub enum MatchParameter {
    WindowLog,
    HashLog,
    ChainLog,
    SearchLog,
    MinMatch,
    TargetLength,
}

/// The parameters of the worker threads and of long distance matching.
#[derive(Clone, Copy, Debug, PartialEq, Eq, Structural)]
pub enum TuningParameter {
    NbWorkers,
    JobSize,
    OverlapSizeLog,
    LdmHashLog,
    LdmMinMatch,
    LdmBucketSizeLog,
    LdmHashRateLog,
}

/// The parameters that are either on or off.
#[derive(Clone, Copy, Debug, PartialEq, Eq, Structural)]
pub enum FlagParameter {
    ContentSizeFlag,
    ChecksumFlag,
    DictIdFlag,
    ForceMaxWindow,
    EnableLongDistanceMatching,
}

/// `zstd_safe::CCtx::set_parameter` with `CParameter::CompressionLevel`.
#[verifier::external_body]
fn cctx_set_level(cctx: &mut ::zstd_safe::CStream<'_>, level: i32) -> Result<usize, usize> {
    cctx.set_parameter(::zstd_safe::CParameter::CompressionLevel(level))
}

/// `zstd_safe::CCtx::set_parameter` with a parameter of the match finder.
/// That crate takes the number as a `u32` and hands the same bits to the
/// codec as a C `int`.
#[verifier::external_body]
fn cctx_set_match_parameter(cctx: &mut ::zstd_safe::CStream<'_>, parameter: MatchParameter, value: i32) -> Result<
    usize,
    usize,
> {
    let number = value as u32;
    cctx.set_parameter(
        match parameter {
            MatchParameter::WindowLog => ::zstd_safe::CParameter::WindowLog(number),
            MatchParameter::HashLog => ::zstd_safe::CParameter::HashLog(number),
            MatchParameter::ChainLog => ::zstd_safe::CParameter::ChainLog(number),
            MatchParameter::SearchLog => ::zstd_safe::CParameter::SearchLog(number),
            MatchParameter::MinMatch => ::zstd_safe::CParameter::MinMatch(number),
            MatchParameter::TargetLength => ::zstd_safe::CParameter::TargetLength(number),
        },
    )
}

/// `zstd_safe::CCtx::set_parameter` with a parameter of the worker threads
/// or of long distance matching. That crate takes the number as a `u32` and
/// hands the same bits to the codec as a C `int`.
#[verifier::external_body]
fn cctx_set_tuning_parameter(cctx: &mut ::zstd_safe::CStream<'_>, parameter: TuningParameter, value: i32) -> Result<
    usize,
    usize,
> {
    let number = value as u32;
    cctx.set_parameter(
        match parameter {
            TuningParameter::NbWorkers => ::zstd_safe::CParameter::NbWorkers(number),
            TuningParameter::JobSize => ::zstd_safe::CParameter::JobSize(number),
            TuningParameter::OverlapSizeLog => ::zstd_safe::CParameter::OverlapSizeLog(number),
            TuningParameter::LdmHashLog => ::zstd_safe::CParameter::LdmHashLog(number),
            TuningParameter::LdmMinMatch => ::zstd_safe::CParameter::LdmMinMatch(number),
            TuningParameter::LdmBucketSizeLog => ::zstd_safe::CParameter::LdmBucketSizeLog(number),
            TuningParameter::LdmHashRateLog => ::zstd_safe::CParameter::LdmHashRateLog(number),
        },
    )
}

/// `zstd_safe::CCtx::set_parameter` with a parameter that is on or off.
#[verifier::external_body]
fn cctx_set_flag(cctx: &mut ::zstd_safe::CStream<'_>, parameter: FlagParameter, on: bool) -> Result<usize, usize> {
    cctx.set_parameter(
        match parameter {
            FlagParameter::ContentSizeFlag => ::zstd_safe::CParameter::ContentSizeFlag(on),
            FlagParameter::ChecksumFlag => ::zstd_safe::CParameter::ChecksumFlag(on),
            FlagParameter::DictIdFlag => ::zstd_safe::CParameter::DictIdFlag(on),
            FlagParameter::ForceMaxWindow => ::zstd_safe::CParameter::ForceMaxWindow(on),
            FlagParameter::EnableLongDistanceMatching => ::zstd_safe::CParameter::EnableLongDistanceMatching(on),
        },
    )
}

/// `zstd_safe::CCtx::set_parameter` with `CParameter::Strategy`.
#[verifier::external_body]
fn cctx_set_strategy(cctx: &mut ::zstd_safe::CStream<'_>, strategy: Strategy) -> Result<usize, usize> {
    cctx.set_parameter(
        ::zstd_safe::CParameter::Strategy(
            match strategy {
                Strategy::Fast => ::zstd_safe::Strategy::ZSTD_fast,
                Strategy::Dfast => ::zstd_safe::Strategy::ZSTD_dfast,
                Strategy::Greedy => ::zstd_safe::Strategy::ZSTD_greedy,
                Strategy::Lazy => ::zstd_safe::Strategy::ZSTD_lazy,
                Strategy::Lazy2 => ::zstd_safe::Strategy::ZSTD_lazy2,
                Strategy::Btlazy2 => ::zstd_safe::Strategy::ZSTD_btlazy2,
                Strategy::Btopt => ::zstd_safe::Strategy::ZSTD_btopt,
                Strategy::Btultra => ::zstd_safe::Strategy::ZSTD_btultra,
                Strategy::Btultra2 => ::zstd_safe::Strategy::ZSTD_btultra2,
            },
        ),
    )
}

/// `zstd_safe::CCtx::set_parameter` with `CParameter::Format`.
#[verifier::external_body]
fn cctx_set_format(cctx: &mut ::zstd_safe::CStream<'_>, format: FrameFormat) -> Result<usize, usize> {
    cctx.set_parameter(
        ::zstd_safe::CParameter::Format(
            match format {
                FrameFormat::Zstd1 => ::zstd_safe::FrameFormat::One,
                FrameFormat::Zstd1Magicless => ::zstd_safe::FrameFormat::Magicless,
            },
        ),
    )
}

/// The frame format that `value` numbers.
pub open spec fn format_numbered(value: int) -> Option<FrameFormat> {
    if value == 0 {
        Some(FrameFormat::Zstd1)
    } else if value == 1 {
        Some(FrameFormat::Zstd1Magicless)
    } else {
        None
    }
}

/// The frame format that `value` numbers; any number but 0 and 1 is refused
/// with `InvalidFormat`.
pub fn int_to_format(value: u32) -> (res: Result<FrameFormat, ZstdError>)
    ensures
        res == match format_numbered(value as int) {
            Some(f) => Ok::<FrameFormat, ZstdError>(f),
            None => Err::<FrameFormat, ZstdError>(ZstdError::InvalidFormat),
        },
{
    if value == 0 {
        Ok(FrameFormat::Zstd1)
    } else if value == 1 {
        Ok(FrameFormat::Zstd1Magicless)
    } else {
        Err(ZstdError::InvalidFormat)
    }
}

/// Whether `parameter` is on or off.
pub open spec fn is_flag(parameter: Parameter) -> bool {
    parameter == Parameter::WriteContentSize || parameter == Parameter::WriteChecksum || parameter
        == Parameter::WriteDictId || parameter == Parameter::ForceMaxWindow || parameter == Parameter::EnableLdm
}

/// Why a setting is refused before the codec sees it, if it is: a flag that
/// is neither 0 nor 1, a format that is neither 0 nor 1, a strategy that is
/// not within 0 to 9.
pub open spec fn refusal(parameter: Parameter, value: i32) -> Option<ZstdError> {
    if is_flag(parameter) && value != 0 && value != 1 {
        Some(ZstdError::ParameterOutOfRange)
    } else if parameter == Parameter::Format && format_numbered(value as int) is None {
        Some(ZstdError::InvalidFormat)
    } else if parameter == Parameter::Strategy && value != 0 && (value < 0 || strategy_numbered(value as u32)
        is None) {
        Some(ZstdError::UnknownStrategy)
    } else {
        None
    }
}

/// Whether none of `settings` is refused before the codec sees it.
pub open spec fn accepted(settings: Seq<ParameterValue>) -> bool {
    forall|i: int| 0 <= i < settings.len() ==> refusal((#[trigger] settings[i]).parameter, settings[i].value) is None
}

/// The setting of a flag as on or off.
fn flag_value(value: i32) -> (res: Result<bool, ZstdError>)
    ensures
        res == if value == 0 {
            Ok::<bool, ZstdError>(false)
        } else if value == 1 {
            Ok::<bool, ZstdError>(true)
        } else {
            Err::<bool, ZstdError>(ZstdError::ParameterOutOfRange)
        },
{
    if value == 0 {
        Ok(false)
    } else if value == 1 {
        Ok(true)
    } else {
        Err(ZstdError::ParameterOutOfRange)
    }
}

/// Maps the codec's answer to a setting.
fn set_result(res: Result<usize, usize>) -> (r: Result<(), ZstdError>)
    ensures
        r == match res {
            Ok(_) => Ok::<(), ZstdError>(()),
            Err(code) => Err::<(), ZstdError>(
                ZstdError::Codec { context: Context::SetParameter, fault: Fault::Code(code) },
            ),
        },
{
    match res {
        Ok(_) => Ok(()),
        Err(code) => Err(ZstdError::Codec { context: Context::SetParameter, fault: Fault::Code(code) }),
    }
}

impl<'a> CCtx<'a> {
    /// Sets a flag of the context.
    fn set_flag(&mut self, parameter: FlagParameter, value: i32) -> (res: Result<(), ZstdError>)
        ensures
            final(self).steps() == old(self).steps(),
            value != 0 && value != 1 ==> res == Err::<(), ZstdError>(ZstdError::ParameterOutOfRange),
            value == 0 || value == 1 ==> res is Ok || res matches Err(
                ZstdError::Codec { context: Context::SetParameter, fault: Fault::Code(_) },
            ),
    {
        match flag_value(value) {
            Err(e) => Err(e),
            Ok(on) => set_result(cctx_set_flag(&mut self.inner, parameter, on)),
        }
    }

    /// Sets one parameter of the context.
    ///
    /// A strategy of zero keeps the codec's choice. A setting that
    /// `refusal` names is refused as it says and never reaches the codec;
    /// any other fails only if the codec refuses it.
    pub fn set_parameter(&mut self, parameter: Parameter, value: i32) -> (res: Result<(), ZstdError>)
        ensures
            final(self).steps() == old(self).steps(),
            match refusal(parameter, value) {
                Some(e) => res == Err::<(), ZstdError>(e),
                None => res is Ok || res matches Err(
                    ZstdError::Codec { context: Context::SetParameter, fault: Fault::Code(_) },
                ),
            },
    {
        match parameter {
            Parameter::CompressionLevel => set_result(cctx_set_level(&mut self.inner, value)),
            Parameter::WindowLog => set_result(
                cctx_set_match_parameter(&mut self.inner, MatchParameter::WindowLog, value),
            ),
            Parameter::HashLog => set_result(
                cctx_set_match_parameter(&mut self.inner, MatchParameter::HashLog, value),
            ),
            Parameter::ChainLog => set_result(
                cctx_set_match_parameter(&mut self.inner, MatchParameter::ChainLog, value),
            ),
            Parameter::SearchLog => set_result(
                cctx_set_match_parameter(&mut self.inner, MatchParameter::SearchLog, value),
            ),
            Parameter::MinMatch => set_result(
                cctx_set_match_parameter(&mut self.inner, MatchParameter::MinMatch, value),
            ),
            Parameter::TargetLength => set_result(
                cctx_set_match_parameter(&mut self.inner, MatchParameter::TargetLength, value),
            ),
            Parameter::Threads => set_result(
                cctx_set_tuning_parameter(&mut self.inner, TuningParameter::NbWorkers, value),
            ),
            Parameter::JobSize => set_result(
                cctx_set_tuning_parameter(&mut self.inner, TuningParameter::JobSize, value),
            ),
            Parameter::OverlapLog => set_result(
                cctx_set_tuning_parameter(&mut self.inner, TuningParameter::OverlapSizeLog, value),
            ),
            Parameter::LdmHashLog => set_result(
                cctx_set_tuning_parameter(&mut self.inner, TuningParameter::LdmHashLog, value),
            ),
            Parameter::LdmMinMatch => set_result(
                cctx_set_tuning_parameter(&mut self.inner, TuningParameter::LdmMinMatch, value),
            ),
            Parameter::LdmBucketSizeLog => set_result(
                cctx_set_tuning_parameter(&mut self.inner, TuningParameter::LdmBucketSizeLog, value),
            ),
            Parameter::LdmHashRateLog => set_result(
                cctx_set_tuning_parameter(&mut self.inner, TuningParameter::LdmHashRateLog, value),
            ),
            Parameter::WriteContentSize => self.set_flag(FlagParameter::ContentSizeFlag, value),
            Parameter::WriteChecksum => self.set_flag(FlagParameter::ChecksumFlag, value),
            Parameter::WriteDictId => self.set_flag(FlagParameter::DictIdFlag, value),
            Parameter::ForceMaxWindow => self.set_flag(FlagParameter::ForceMaxWindow, value),
            Parameter::EnableLdm => self.set_flag(FlagParameter::EnableLongDistanceMatching, value),
            Parameter::Format => {
                if value < 0 {
                    return Err(ZstdError::InvalidFormat);
                }
                match int_to_format(value as u32) {
                    Err(e) => Err(e),
                    Ok(format) => set_result(cctx_set_format(&mut self.inner, format)),
                }
            },
            Parameter::Strategy => {
                if value == 0 {
                    return Ok(());
                }
                if value < 0 {
                    return Err(ZstdError::UnknownStrategy);
                }
                match int_to_strategy(value as u32) {
                    Err(e) => Err(e),
                    Ok(strategy) => set_result(cctx_set_strategy(&mut self.inner, strategy)),
                }
            },
        }
    }

    /// Pushes `params` into the context, setting after setting, and stops
    /// at the first one that fails.
    ///
    /// Succeeds if there are no settings. Fails as `refusal` says on the
    /// first setting that it names, unless the codec has refused an earlier
    /// one.
    pub fn set_parameters(&mut self, params: &CCtxParams) -> (res: Result<(), ZstdError>)
        ensures
            final(self).steps() == old(self).steps(),
            params@.len() == 0 ==> res is Ok,
            res is Ok ==> forall|i: int|
                0 <= i < params@.len() ==> refusal((#[trigger] params@[i]).parameter, params@[i].value) is None,
            res matches Err(e) ==> (e matches ZstdError::Codec { context: Context::SetParameter, fault: Fault::Code(_) })
                || exists|i: int|
                0 <= i < params@.len() && refusal((#[trigger] params@[i]).parameter, params@[i].value) == Some(e),
    {
        let mut i: usize = 0;
        while i < params.len()
            invariant
                self.steps() == old(self).steps(),
                0 <= i <= params@.len(),
                forall|k: int| 0 <= k < i ==> refusal((#[trigger] params@[k]).parameter, params@[k].value) is None,
            decreases params@.len() - i,
        {
            let setting = params.get(i);
            match self.set_parameter(setting.parameter, setting.value) {
                Ok(()) => {},
                Err(e) => {
                    return Err(e);
                },
            }
            i = i + 1;
        }
        Ok(())
    }
}

} // verus!
