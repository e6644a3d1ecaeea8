//! The batch transform for compression: many buffers in, one frame for
//! each in a collection, in the order of the inputs.

use crate::batch::{
    collect_results, lemma_order_fixed, order_results, resolve_pool_size, thread_count, worker_slot, Direction,
    WorkerError, WorkerResult,
};
use crate::buffers::{is_whole, ZstdBufferWithSegments, ZstdBufferWithSegmentsCollection};
use crate::compression_dict::ZstdCompressionDict;
use crate::compression_parameters::{CCtxParams, ParameterValue};
use crate::exceptions::{Context, Fault, ZstdError};
use crate::zstd_safe::{accepted, frame_bound, refusal, CCtx};
use rayon::iter::{IndexedParallelIterator, IntoParallelRefIterator, ParallelIterator};
use vstd::prelude::*;

verus! {

/// Whether `result` can be the result of compressing input `index`: it
/// carries that index, and a failure is the codec's.
pub open spec fn is_compress_result(result: WorkerResult, index: int) -> bool {
    &&& result.source_offset == index
    &&& result.outcome matches Err(error) ==> (error matches WorkerError::Zstd(fault) && (fault is Code || fault
        is PartialFrameFlush))
}

/// Whether `e` is the failure of one of `inputs` inputs of a batch: the
/// codec's failure to compress that input.
pub open spec fn item_fails(e: ZstdError, inputs: nat) -> bool {
    e matches ZstdError::ItemCompress { index, fault } && index < inputs && (fault is Code || fault
        is PartialFrameFlush)
}

/// Compresses input `index` into one frame.
///
/// The frame is what the one step of the context has produced, and is no
/// longer than the codec's bound for `data`.
pub fn compress_item(cctx: &mut CCtx<'_>, index: usize, data: &[u8]) -> (result: WorkerResult)
    ensures
        is_compress_result(result, index as int),
        final(cctx).steps().len() <= 1,
        result.outcome matches Ok(frame) ==> frame@.len() <= frame_bound(data.len()) && final(cctx).steps().len()
            == 1 && final(cctx).given() == frame@ && final(cctx).steps()[0].remaining == 0,
{
    match cctx.compress(data) {
        Ok(frame) => WorkerResult { source_offset: index, outcome: Ok(frame) },
        Err(fault) => WorkerResult { source_offset: index, outcome: Err(WorkerError::Zstd(fault)) },
    }
}

/// Runs `compress_item` on each of `sources` in a `rayon` thread pool of as
/// many threads as there are contexts (`ThreadPoolBuilder::num_threads`,
/// `build`, `ThreadPool::install`, `par_iter`, `enumerate`, `map`,
/// `collect`). Each call locks the context that `worker_slot` picks for
/// the thread it runs on (`current_thread_index`).
///
/// `enumerate` numbers the inputs in their order, `map` calls the closure
/// once for each, and `collect` fills a vector of as many places as there
/// are inputs, each place with the result for its input. So a pool that
/// could be built gives one result for each input, in the order of the
/// inputs, and each is a result of `compress_item` for its index. An error
/// is the failure to build the pool.
#[verifier::external_body]
fn compress_in_pool<'a>(cctxs: Vec<CCtx<'a>>, sources: &Vec<&[u8]>) -> (res: Result<Vec<WorkerResult>, ()>)
    requires
        cctxs@.len() > 0,
    ensures
        res matches Ok(results) ==> results@.len() == sources@.len() && forall|i: int|
            0 <= i < results@.len() ==> is_compress_result(#[trigger] results@[i], i),
{
    let pool = ::rayon::ThreadPoolBuilder::new().num_threads(cctxs.len()).build().map_err(|_| ())?;
    let slots: Vec<std::sync::Mutex<CCtx<'a>>> = cctxs.into_iter().map(std::sync::Mutex::new).collect();
    Ok(pool.install(|| {
        sources.par_iter().enumerate().map(|(index, source)| {
            let slot = &slots[worker_slot(::rayon::current_thread_index(), slots.len())];
            compress_item(&mut slot.lock().unwrap(), index, source)
        }).collect()
    }))
}

/// The bytes of each segment of `buffer`, as inputs of a batch.
pub fn sources_of_buffer<'b>(buffer: &'b ZstdBufferWithSegments) -> (sources: Vec<&'b [u8]>)
    requires
        buffer.wf(),
    ensures
        sources@.len() == buffer.items().len(),
        forall|i: int| 0 <= i < sources@.len() ==> (#[trigger] sources@[i])@ == buffer.items()[i],
{
    let mut sources: Vec<&'b [u8]> = Vec::new();
    let mut i: usize = 0;
    while i < buffer.len()
        invariant
            buffer.wf(),
            0 <= i <= buffer.segs().len(),
            sources@.len() == i,
            forall|k: int| 0 <= k < i ==> (#[trigger] sources@[k])@ == buffer.items()[k],
        decreases buffer.segs().len() - i,
    {
        sources.push(buffer.get_segment_slice(i));
        i = i + 1;
    }
    sources
}

/// The bytes of each segment of `collection`, as inputs of a batch.
pub fn sources_of_collection<'b>(collection: &'b ZstdBufferWithSegmentsCollection) -> (sources: Vec<&'b [u8]>)
    requires
        collection.wf(),
    ensures
        sources@.len() == collection.items().len(),
        forall|i: int| 0 <= i < sources@.len() ==> (#[trigger] sources@[i])@ == collection.items()[i],
{
    let mut sources: Vec<&'b [u8]> = Vec::new();
    let count = collection.len();
    let mut i: usize = 0;
    while i < count
        invariant
            collection.wf(),
            count == collection.items().len(),
            0 <= i <= count,
            sources@.len() == i,
            forall|k: int| 0 <= k < i ==> (#[trigger] sources@[k])@ == collection.items()[k],
        decreases count - i,
    {
        let (b, local) = collection.locate(i);
        sources.push(collection.buffer(b).get_segment_slice(local));
        i = i + 1;
    }
    sources
}

/// Whether every one of `sources` is empty.
pub fn all_empty(sources: &Vec<&[u8]>) -> (empty: bool)
    ensures
        empty == forall|i: int| 0 <= i < sources@.len() ==> (#[trigger] sources@[i])@.len() == 0,
{
    let mut i: usize = 0;
    while i < sources.len()
        invariant
            0 <= i <= sources@.len(),
            forall|k: int| 0 <= k < i ==> (#[trigger] sources@[k])@.len() == 0,
        decreases sources@.len() - i,
    {
        if sources[i].len() != 0 {
            return false;
        }
        i = i + 1;
    }
    true
}

/// Whether `e` is a failure to make a compression context and configure
/// it: the codec has no context to give, refuses a setting or cannot load
/// the dictionary, or a setting is refused before the codec sees it.
pub open spec fn is_cctx_setup_error(e: ZstdError) -> bool {
    ||| e == (ZstdError::Codec { context: Context::Create, fault: Fault::CompressionContext })
    ||| e matches ZstdError::Codec { context: Context::SetParameter, fault: Fault::Code(_) }
    ||| e matches ZstdError::Codec { context: Context::LoadCompressionDict, fault: Fault::Code(_) }
    ||| e == ZstdError::ParameterOutOfRange
    ||| e == ZstdError::InvalidFormat
    ||| e == ZstdError::UnknownStrategy
}

/// Whether making a context with `settings`, and with a dictionary or
/// without, can fail with `e`: the codec has no context to give or refuses a
/// setting, it cannot load the dictionary there is, or one of the settings
/// is refused with `e` before the codec sees it.
pub open spec fn cctx_setup_fails(settings: Seq<ParameterValue>, has_dict: bool, e: ZstdError) -> bool {
    &&& is_cctx_setup_error(e)
    &&& {
        ||| e == (ZstdError::Codec { context: Context::Create, fault: Fault::CompressionContext })
        ||| e matches ZstdError::Codec { context: Context::SetParameter, fault: Fault::Code(_) }
        ||| has_dict && e matches ZstdError::Codec { context: Context::LoadCompressionDict, fault: Fault::Code(_) }
        ||| exists|i: int|
            0 <= i < settings.len() && refusal((#[trigger] settings[i]).parameter, settings[i].value) == Some(e)
    }
}

/// A fresh context with `params` pushed into it and `dict` loaded.
///
/// A setting that is refused before the codec sees it fails the call, with
/// its own error unless the codec has failed before it. Any other failure is
/// the codec's: no context, a setting it refuses, or a dictionary it cannot
/// load.
pub fn configured_cctx<'a>(params: &CCtxParams, dict: Option<&'a ZstdCompressionDict>) -> (res: Result<
    CCtx<'a>,
    ZstdError,
>)
    ensures
        res is Ok ==> accepted(params@),
        res matches Ok(cctx) ==> cctx.steps().len() == 0,
        res matches Err(e) ==> cctx_setup_fails(params@, dict is Some, e),
{
    let mut cctx: CCtx<'a> = match CCtx::new() {
        Ok(cctx) => cctx,
        Err(fault) => {
            return Err(ZstdError::Codec { context: Context::Create, fault: Fault::CompressionContext });
        },
    };
    match cctx.set_parameters(params) {
        Ok(()) => {},
        Err(e) => {
            return Err(e);
        },
    }
    if let Some(dict) = dict {
        match dict.load_into_cctx(&mut cctx) {
            Ok(()) => {},
            Err(e) => {
                return Err(e);
            },
        }
    }
    Ok(cctx)
}

/// Compresses each of `sources` with one of `thread_count` workers, each
/// with a context of its own, and collects the frames in input order. There
/// are never more workers than inputs, and always one.
///
/// If any input fails, the batch fails with `ItemCompress` for the first
/// one, in input order, that did. A setting that is refused before the codec
/// sees it fails the batch before any input is looked at. A batch of no
/// inputs always fails: there is nothing to collect.
pub fn compress_from_datasources<'a>(
    params: &CCtxParams,
    dict: Option<&'a ZstdCompressionDict>,
    sources: &Vec<&[u8]>,
    thread_count: usize,
) -> (res: Result<ZstdBufferWithSegmentsCollection, ZstdError>)
    ensures
        !accepted(params@) ==> (res matches Err(e) && cctx_setup_fails(params@, dict is Some, e)),
        match res {
            Ok(c) => holds_frames(c, sources@.len()) && accepted(params@) && sources@.len() > 0,
            Err(e) => {
                ||| cctx_setup_fails(params@, dict is Some, e)
                ||| accepted(params@) && e == ZstdError::ThreadPool
                ||| accepted(params@) && item_fails(e, sources@.len())
                ||| accepted(params@) && e == ZstdError::CollectionNoArguments && sources@.len() == 0
                ||| accepted(params@) && e == ZstdError::CollectionEmptyBuffer && sources@.len() > 0
            },
        },
{
    let count = resolve_pool_size(thread_count, sources.len());
    let mut cctxs: Vec<CCtx<'a>> = Vec::new();
    let mut i: usize = 0;
    while i < count
        invariant
            0 <= i <= count,
            count > 0,
            cctxs@.len() == i,
            i > 0 ==> accepted(params@),
        decreases count - i,
    {
        match configured_cctx(params, dict) {
            Ok(cctx) => {
                cctxs.push(cctx);
            },
            Err(e) => {
                return Err(e);
            },
        }
        i = i + 1;
    }
    let results = match compress_in_pool(cctxs, sources) {
        Ok(results) => results,
        Err(_) => {
            return Err(ZstdError::ThreadPool);
        },
    };
    let sorted = match order_results(results, sources.len()) {
        Some(sorted) => sorted,
        None => {
            return Err(ZstdError::ThreadPool);
        },
    };
    proof {
        lemma_order_fixed(results@, sorted@);
    }
    collect_results(&sorted, Direction::Compress)
}

/// Whether `c` holds one frame for each of `inputs` inputs: as many
/// buffers, each of them one segment that is not empty, and so as many
/// items.
pub open spec fn holds_frames(c: ZstdBufferWithSegmentsCollection, inputs: nat) -> bool {
    &&& c.wf()
    &&& c.items().len() == inputs
    &&& c.parts().len() == inputs
    &&& forall|k: int| 0 <= k < inputs ==> is_whole(#[trigger] c.parts()[k], c.items()[k]) && c.items()[k].len() > 0
}

/// Whether `res` can be what compressing `sources` with `settings`, and
/// with a dictionary or without, gives.
///
/// A collection holds one frame for each input, and comes only where none
/// of the settings is refused before the codec sees it. A batch of no
/// inputs is refused, and so is one whose inputs are all empty. Any other
/// failure is one to make a context, to build the pool or to compress one
/// of the inputs, or an empty frame.
pub open spec fn is_batch(
    res: Result<ZstdBufferWithSegmentsCollection, ZstdError>,
    settings: Seq<ParameterValue>,
    has_dict: bool,
    sources: Seq<&[u8]>,
) -> bool {
    match res {
        Ok(c) => holds_frames(c, sources.len()) && accepted(settings) && sources.len() > 0,
        Err(e) => {
            ||| e == ZstdError::NoSourceElements && sources.len() == 0
            ||| e == ZstdError::SourceElementsEmpty && sources.len() > 0 && forall|i: int|
                0 <= i < sources.len() ==> (#[trigger] sources[i])@.len() == 0
            ||| sources.len() > 0 && {
                ||| cctx_setup_fails(settings, has_dict, e)
                ||| accepted(settings) && e == ZstdError::ThreadPool
                ||| accepted(settings) && item_fails(e, sources.len())
                ||| accepted(settings) && e == ZstdError::CollectionEmptyBuffer
            }
        },
    }
}

/// Compresses each of `sources` into a frame of its own, with up to
/// `threads` workers, and collects the frames in input order.
///
/// A batch of no inputs is refused with `NoSourceElements`, and one whose
/// inputs are all empty with `SourceElementsEmpty`. After that a setting
/// that is refused before the codec sees it fails the batch.
pub fn multi_compress_to_buffer<'a>(
    params: &CCtxParams,
    dict: Option<&'a ZstdCompressionDict>,
    sources: &Vec<&[u8]>,
    threads: isize,
) -> (res: Result<ZstdBufferWithSegmentsCollection, ZstdError>)
    ensures
        sources@.len() == 0 ==> res == Err::<ZstdBufferWithSegmentsCollection, ZstdError>(
            ZstdError::NoSourceElements,
        ),
        sources@.len() > 0 && (forall|i: int| 0 <= i < sources@.len() ==> (#[trigger] sources@[i])@.len() == 0)
            ==> res == Err::<ZstdBufferWithSegmentsCollection, ZstdError>(ZstdError::SourceElementsEmpty),
        sources@.len() > 0 && !accepted(params@) && (exists|i: int|
            0 <= i < sources@.len() && (#[trigger] sources@[i])@.len() > 0) ==> (res matches Err(e)
            && cctx_setup_fails(params@, dict is Some, e)),
        is_batch(res, params@, dict is Some, sources@),
{
    if sources.len() == 0 {
        return Err(ZstdError::NoSourceElements);
    }
    if all_empty(sources) {
        return Err(ZstdError::SourceElementsEmpty);
    }
    let workers = thread_count(threads, sources.len());
    compress_from_datasources(params, dict, sources, workers)
}

} // verus!
