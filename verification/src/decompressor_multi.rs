//! The batch transform for decompression: many frames in, the content of
//! each in a collection, in the order of the inputs.

use crate::batch::{
    collect_results, item_error, lemma_order_fixed, order_results, outputs, resolve_pool_size, thread_count,
    worker_slot, Direction, WorkerError, WorkerResult,
};
use crate::buffers::{is_whole, ZstdBufferWithSegmentsCollection};
use crate::exceptions::{Context, Fault, ZstdError};
use crate::zstd_safe::{continues, frame_content_size, get_frame_content_size, DCtx};
use rayon::iter::{IndexedParallelIterator, IntoParallelRefIterator, ParallelIterator};
use vstd::bytes::{spec_u64_from_le_bytes, u64_from_le_bytes};
use vstd::prelude::*;

verus! {

/// One frame of a batch, and the size of its content if the caller knows
/// it; zero stands for "look in the frame header".
pub struct DataSource<'a> {
    pub data: &'a [u8],
    pub decompressed_size: usize,
}

/// The size of the content of a frame: the one given unless it is zero,
/// else the one that the frame header declares, if it declares one that a
/// `usize` can hold.
pub open spec fn output_size(data: Seq<u8>, given: usize) -> Option<usize> {
    if given != 0 {
        Some(given)
    } else {
        match frame_content_size(data) {
            Ok(Some(size)) => if size <= usize::MAX {
                Some(size as usize)
            } else {
                None
            },
            _ => None,
        }
    }
}

/// The size of the content of the frame of `source`.
pub fn resolve_output_size(source: &DataSource<'_>) -> (size: Option<usize>)
    ensures
        size == output_size(source.data@, source.decompressed_size),
{
    if source.decompressed_size != 0 {
        Some(source.decompressed_size)
    } else {
        match get_frame_content_size(source.data) {
            Ok(Some(size)) => if size <= usize::MAX as u64 {
                Some(size as usize)
            } else {
                None
            },
            _ => None,
        }
    }
}

/// The size of the content of the frame of `source`.
pub open spec fn size_of(source: DataSource<'_>) -> Option<usize> {
    output_size(source.data@, source.decompressed_size)
}

/// Whether `result` can be the result of decompressing `source` as input
/// `index`: it carries that index; an input whose size cannot be told fails
/// with `NoSize`, and only such an input does; any other failure is the
/// codec's; and the output is never longer than the size.
pub open spec fn is_decompress_result(result: WorkerResult, index: int, source: DataSource<'_>) -> bool {
    &&& result.source_offset == index
    &&& match result.outcome {
        Ok(data) => size_of(source) matches Some(size) && data@.len() <= size,
        Err(WorkerError::NoSize) => size_of(source) is None,
        Err(WorkerError::Zstd(fault)) => size_of(source) is Some && fault is Code,
    }
}

/// The first of `sources`, in their order, whose size cannot be told, or
/// their number if there is none.
pub open spec fn first_without_size(sources: Seq<DataSource<'_>>) -> int
    decreases sources.len(),
{
    if sources.len() == 0 {
        0
    } else if size_of(sources[0]) is None {
        0
    } else {
        1 + first_without_size(sources.skip(1))
    }
}

/// The first input whose size cannot be told stands within the inputs or
/// at their end, has no size if it stands within, and every input before it
/// has one.
pub proof fn lemma_first_without_size(sources: Seq<DataSource<'_>>)
    ensures
        0 <= first_without_size(sources) <= sources.len(),
        first_without_size(sources) < sources.len() ==> size_of(sources[first_without_size(sources)]) is None,
        forall|m: int| 0 <= m < first_without_size(sources) ==> size_of(#[trigger] sources[m]) is Some,
    decreases sources.len(),
{
    if sources.len() > 0 && size_of(sources[0]) is Some {
        let rest = sources.skip(1);
        lemma_first_without_size(rest);
        assert forall|m: int| 0 <= m < first_without_size(sources) implies size_of(#[trigger] sources[m])
            is Some by {
            if m > 0 {
                assert(rest[m - 1] == sources[m]);
            }
        }
        if first_without_size(sources) < sources.len() {
            assert(rest[first_without_size(rest)] == sources[first_without_size(sources)]);
        }
    }
}

/// Whether `e` is the failure of one of `sources` as an input of a batch:
/// `ItemNoSize` for the first input whose size cannot be told, or the
/// codec's failure to decompress an input before that one.
pub open spec fn item_fails(e: ZstdError, sources: Seq<DataSource<'_>>) -> bool {
    match e {
        ZstdError::ItemNoSize { index } => index == first_without_size(sources) && index < sources.len(),
        ZstdError::ItemDecompress { index, fault } => index < first_without_size(sources) && fault is Code,
        _ => false,
    }
}

/// Decompresses frame `index` in one step, into a buffer of the size of
/// its content. An input whose size cannot be told fails with `NoSize`, and
/// only such an input does.
///
/// The content is what the one step of the context has produced, and an
/// input whose size cannot be told is not shown to the context.
pub fn decompress_item(dctx: &mut DCtx<'_>, index: usize, source: &DataSource<'_>) -> (result: WorkerResult)
    ensures
        is_decompress_result(result, index as int, *source),
        continues(old(dctx).steps(), final(dctx).steps()),
        size_of(*source) is None ==> final(dctx).steps() == old(dctx).steps(),
        result.outcome matches Ok(data) ==> final(dctx).steps().len() == old(dctx).steps().len() + 1 && final(dctx).steps().last().given == data@ && final(dctx).given() == old(dctx).given() + data@,
{
    let size = match resolve_output_size(source) {
        Some(size) => size,
        None => {
            return WorkerResult { source_offset: index, outcome: Err(WorkerError::NoSize) };
        },
    };
    let mut dest: Vec<u8> = Vec::new();
    match dctx.decompress_into_vec(&mut dest, size, source.data) {
        Ok(_) => {
            assert(dest@.skip(0) =~= dest@);
            WorkerResult { source_offset: index, outcome: Ok(dest) }
        },
        Err(fault) => WorkerResult { source_offset: index, outcome: Err(WorkerError::Zstd(fault)) },
    }
}

/// Runs `decompress_item` on each of `sources` in a `rayon` thread pool of
/// as many threads as there are contexts (`ThreadPoolBuilder::num_threads`,
/// `build`, `ThreadPool::install`, `par_iter`, `enumerate`, `map`,
/// `collect`). Each call locks the context that `worker_slot` picks for
/// the thread it runs on (`current_thread_index`).
///
/// `enumerate` numbers the inputs in their order, `map` calls the closure
/// once for each, and `collect` fills a vector of as many places as there
/// are inputs, each place with the result for its input. So a pool that
/// could be built gives one result for each input, in the order of the
/// inputs, and each is a result of `decompress_item` for its index and its
/// input. An error is the failure to build the pool.
#[verifier::external_body]
fn decompress_in_pool<'a>(dctxs: Vec<DCtx<'a>>, sources: &Vec<DataSource<'_>>) -> (res: Result<
    Vec<WorkerResult>,
    (),
>)
    requires
        dctxs@.len() > 0,
    ensures
        res matches Ok(results) ==> results@.len() == sources@.len() && forall|i: int|
            0 <= i < results@.len() ==> is_decompress_result(#[trigger] results@[i], i, sources@[i]),
{
    let pool = ::rayon::ThreadPoolBuilder::new().num_threads(dctxs.len()).build().map_err(|_| ())?;
    let slots: Vec<std::sync::Mutex<DCtx<'a>>> = dctxs.into_iter().map(std::sync::Mutex::new).collect();
    Ok(pool.install(|| {
        sources.par_iter().enumerate().map(|(index, source)| {
            let slot = &slots[worker_slot(::rayon::current_thread_index(), slots.len())];
            decompress_item(&mut slot.lock().unwrap(), index, source)
        }).collect()
    }))
}

/// The sizes that the whole 8-byte records of `table` hold, each an
/// unsigned integer in little-endian order.
pub open spec fn parse_sizes(table: Seq<u8>) -> Seq<u64> {
    Seq::new((table.len() / 8) as nat, |i: int| spec_u64_from_le_bytes(table.subrange(8 * i, 8 * i + 8)))
}

/// The size that goes with a frame: its entry in the list, as far as a
/// `usize` holds it, and zero where the list has no entry for it.
pub open spec fn size_for(sizes: Seq<u64>, i: int) -> usize {
    if 0 <= i < sizes.len() && sizes[i] <= usize::MAX {
        sizes[i] as usize
    } else {
        0
    }
}

/// Why a list of sizes does not go with `frames` frames, if it does not: it
/// does not hold as many sizes.
pub open spec fn sizes_mismatch(frames: nat, decompressed_sizes: Option<&[u8]>) -> Option<ZstdError> {
    match decompressed_sizes {
        Some(table) => if table@.len() / 8 != frames {
            Some(ZstdError::SizesMismatch { expected: frames as usize, got: (table@.len() / 8) as usize })
        } else {
            None
        },
        None => None,
    }
}

/// The size that goes with frame `i`.
pub open spec fn given_size(decompressed_sizes: Option<&[u8]>, i: int) -> usize {
    match decompressed_sizes {
        Some(table) => size_for(parse_sizes(table@), i),
        None => 0,
    }
}

/// The failure of a batch whose frames came as a list, for the failure
/// `e` of the batch: a table of sizes that does not go with a list of
/// frames has a failure of its own, and every other failure is the same.
pub open spec fn listed(e: ZstdError) -> ZstdError {
    match e {
        ZstdError::SizesMismatch { expected, got } => ZstdError::ListSizesMismatch { expected, got },
        _ => e,
    }
}

/// The failure of a batch whose frames came as a list.
pub fn as_listed(e: ZstdError) -> (res: ZstdError)
    ensures
        res == listed(e),
{
    match e {
        ZstdError::SizesMismatch { expected, got } => ZstdError::ListSizesMismatch { expected, got },
        other => other,
    }
}

/// Pairs each of `frames` with its size from `decompressed_sizes`.
///
/// Where a list of sizes is given, it has to hold as many sizes as there
/// are frames, else the batch is refused with `SizesMismatch`. Where none
/// is given every size is zero, which stands for "look in the frame
/// header".
pub fn attach_sizes<'b>(frames: &Vec<&'b [u8]>, decompressed_sizes: Option<&[u8]>) -> (res: Result<
    Vec<DataSource<'b>>,
    ZstdError,
>)
    ensures
        match sizes_mismatch(frames@.len(), decompressed_sizes) {
            Some(e) => res == Err::<Vec<DataSource<'b>>, ZstdError>(e),
            None => res matches Ok(sources) && sources@.len() == frames@.len() && forall|i: int|
                0 <= i < sources@.len() ==> (#[trigger] sources@[i]).data@ == frames@[i]@
                    && sources@[i].decompressed_size == given_size(decompressed_sizes, i),
        },
{
    let empty: Vec<u8> = Vec::new();
    let (table, given) = match decompressed_sizes {
        Some(table) => (table, true),
        None => (empty.as_slice(), false),
    };
    let count = table.len() / 8;
    if given && count != frames.len() {
        return Err(ZstdError::SizesMismatch { expected: frames.len(), got: count });
    }
    let mut sources: Vec<DataSource<'b>> = Vec::new();
    let mut i: usize = 0;
    while i < frames.len()
        invariant
            0 <= i <= frames@.len(),
            count == table@.len() / 8,
            given ==> count == frames@.len(),
            !given ==> count == 0,
            sources@.len() == i,
            table@.len() <= usize::MAX,
            given ==> decompressed_sizes == Some(table),
            !given ==> decompressed_sizes is None,
            forall|k: int|
                0 <= k < i ==> (#[trigger] sources@[k]).data@ == frames@[k]@ && sources@[k].decompressed_size
                    == given_size(decompressed_sizes, k),
        decreases frames@.len() - i,
    {
        let size = if i < count {
            let start = i * 8;
            let wide = u64_from_le_bytes(vstd::slice::slice_subrange(table, start, start + 8));
            if wide <= usize::MAX as u64 {
                wide as usize
            } else {
                0
            }
        } else {
            0
        };
        sources.push(DataSource { data: frames[i], decompressed_size: size });
        i = i + 1;
    }
    Ok(sources)
}

/// Decompresses each of `sources` with one of `thread_count` workers, each
/// with a copy of `dctx`, and collects the contents in input order. There
/// are never more workers than inputs, and always one.
///
/// If any input fails, the batch fails for the first one, in input order,
/// that did: with `ItemNoSize` where its size cannot be told, else with
/// `ItemDecompress`. So a batch with an input whose size cannot be told
/// always fails, and never for an input that comes after it.
pub fn decompress_from_datasources(dctx: &DCtx<'_>, sources: &Vec<DataSource<'_>>, thread_count: usize) -> (res:
    Result<ZstdBufferWithSegmentsCollection, ZstdError>)
    ensures
        sources@.len() == 0 ==> res == Err::<ZstdBufferWithSegmentsCollection, ZstdError>(
            ZstdError::CollectionNoArguments,
        ),
        first_without_size(sources@) < sources@.len() ==> res is Err,
        match res {
            Ok(c) => {
                &&& c.wf()
                &&& sources@.len() > 0
                &&& first_without_size(sources@) == sources@.len()
                &&& c.items().len() == sources@.len()
                &&& c.parts().len() == sources@.len()
                &&& forall|k: int|
                    0 <= k < sources@.len() ==> {
                        &&& is_whole(#[trigger] c.parts()[k], c.items()[k])
                        &&& 0 < c.items()[k].len() <= size_of(sources@[k])->0
                    }
            },
            Err(e) => {
                ||| e == ZstdError::CollectionNoArguments && sources@.len() == 0
                ||| sources@.len() > 0 && {
                    ||| e matches ZstdError::Codec { context: Context::Create, fault: Fault::Code(_) }
                    ||| e == ZstdError::ThreadPool
                    ||| item_fails(e, sources@)
                    ||| e == ZstdError::CollectionEmptyBuffer && first_without_size(sources@) == sources@.len()
                }
            },
        },
{
    if sources.len() == 0 {
        let none: Vec<WorkerResult> = Vec::new();
        return collect_results(&none, Direction::Decompress);
    }
    let count = resolve_pool_size(thread_count, sources.len());
    let mut dctxs = Vec::new();
    let mut i: usize = 0;
    while i < count
        invariant
            0 <= i <= count,
            sources@.len() > 0,
            dctxs@.len() == i,
        decreases count - i,
    {
        match dctx.try_clone() {
            Ok(copy) => {
                dctxs.push(copy);
            },
            Err(fault) => {
                return Err(ZstdError::Codec { context: Context::Create, fault });
            },
        }
        i = i + 1;
    }
    let results = match decompress_in_pool(dctxs, sources) {
        Ok(results) => results,
        Err(_) => {
            return Err(ZstdError::ThreadPool);
        },
    };
    let sorted = match order_results(results, sources.len()) {
        Some(sorted) => sorted,
        None => {
            return Err(ZstdError::ThreadPool);
        },
    };
    proof {
        lemma_order_fixed(results@, sorted@);
        lemma_first_without_size(sources@);
    }
    let res = collect_results(&sorted, Direction::Decompress);
    proof {
        let first = first_without_size(sources@);
        if first < sources@.len() {
            assert(is_decompress_result(sorted@[first], first, sources@[first]));
        }
        match &res {
            Ok(c) => {
                assert forall|k: int| 0 <= k < sources@.len() implies 0 < (#[trigger] c.items()[k]).len()
                    <= size_of(sources@[k])->0 by {
                    assert(is_decompress_result(sorted@[k], k, sources@[k]));
                    assert(outputs(sorted@)[k].len() > 0);
                }
            },
            Err(e) => {
                if exists|k: int| 0 <= k < sorted@.len() && (#[trigger] sorted@[k]).outcome is Err {
                    let k = choose|k: int|
                        {
                            &&& 0 <= k < sorted@.len()
                            &&& (#[trigger] sorted@[k]).outcome matches Err(error)
                            &&& *e == item_error(Direction::Decompress, k as usize, error)
                            &&& forall|m: int| 0 <= m < k ==> (#[trigger] sorted@[m]).outcome is Ok
                        };
                    assert(is_decompress_result(sorted@[k], k, sources@[k]));
                    if first < k {
                        assert(sorted@[first].outcome is Ok);
                    }
                }
            },
        }
    }
    res
}

/// Whether `res` can be what decompressing `frames`, with the sizes of
/// `decompressed_sizes`, gives.
///
/// A collection holds the content of each frame in a buffer of its own,
/// whose one segment is all of it; no content is empty or longer than the
/// size of its frame, which every frame then has. A list of sizes that does
/// not go with the frames is refused, and then a batch of no frames. Any
/// other failure is one to copy the context, to build the pool or to
/// decompress one of the frames, or an empty content.
pub open spec fn is_batch(
    res: Result<ZstdBufferWithSegmentsCollection, ZstdError>,
    frames: Seq<&[u8]>,
    decompressed_sizes: Option<&[u8]>,
) -> bool {
    match res {
        Ok(c) => {
            &&& c.wf()
            &&& sizes_mismatch(frames.len(), decompressed_sizes) is None
            &&& c.items().len() == frames.len()
            &&& c.parts().len() == frames.len()
            &&& forall|k: int|
                0 <= k < frames.len() ==> {
                    &&& is_whole(#[trigger] c.parts()[k], c.items()[k])
                    &&& output_size(frames[k]@, given_size(decompressed_sizes, k)) is Some
                    &&& 0 < c.items()[k].len() <= output_size(frames[k]@, given_size(decompressed_sizes, k))->0
                }
        },
        Err(e) => {
            ||| sizes_mismatch(frames.len(), decompressed_sizes) == Some(e)
            ||| sizes_mismatch(frames.len(), decompressed_sizes) is None && {
                ||| e == ZstdError::CollectionNoArguments && frames.len() == 0
                ||| e matches ZstdError::Codec { context: Context::Create, fault: Fault::Code(_) }
                ||| e == ZstdError::ThreadPool
                ||| e matches ZstdError::ItemNoSize { index } && index < frames.len()
                ||| e matches ZstdError::ItemDecompress { index, .. } && index < frames.len()
                ||| e == ZstdError::CollectionEmptyBuffer
            }
        },
    }
}

/// Decompresses each of `frames` with up to `threads` workers, and
/// collects the contents in input order.
///
/// `decompressed_sizes`, where given, is a table of one 8-byte size for
/// each frame; a table of another length is refused with `SizesMismatch`.
pub fn multi_decompress_to_buffer(
    dctx: &DCtx<'_>,
    frames: &Vec<&[u8]>,
    decompressed_sizes: Option<&[u8]>,
    threads: isize,
) -> (res: Result<ZstdBufferWithSegmentsCollection, ZstdError>)
    ensures
        sizes_mismatch(frames@.len(), decompressed_sizes) matches Some(e) ==> res == Err::<
            ZstdBufferWithSegmentsCollection,
            ZstdError,
        >(e),
        sizes_mismatch(frames@.len(), decompressed_sizes) is None && frames@.len() == 0 ==> res == Err::<
            ZstdBufferWithSegmentsCollection,
            ZstdError,
        >(ZstdError::CollectionNoArguments),
        is_batch(res, frames@, decompressed_sizes),
        sizes_mismatch(frames@.len(), decompressed_sizes) is None && (exists|k: int|
            0 <= k < frames@.len() && output_size(#[trigger] frames@[k]@, given_size(decompressed_sizes, k))
                is None) ==> res is Err,
{
    let sources = match attach_sizes(frames, decompressed_sizes) {
        Ok(sources) => sources,
        Err(e) => {
            return Err(e);
        },
    };
    let workers = thread_count(threads, sources.len());
    let res = decompress_from_datasources(dctx, &sources, workers);
    proof {
        lemma_first_without_size(sources@);
        assert forall|k: int| 0 <= k < frames@.len() implies size_of(#[trigger] sources@[k]) == output_size(
            frames@[k]@,
            given_size(decompressed_sizes, k),
        ) by {}
        if res is Ok {
            assert forall|k: int| 0 <= k < frames@.len() implies output_size(
                #[trigger] frames@[k]@,
                given_size(decompressed_sizes, k),
            ) is Some by {
                assert(size_of(sources@[k]) is Some);
            }
        }
    }
    res
}

} // verus!
