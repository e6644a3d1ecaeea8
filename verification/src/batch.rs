//! What the two batch transforms share: the number of workers, the results
//! of the workers, and putting the results back in the order of the inputs.
//!
//! Workers finish in any order. Each result carries the index of its input,
//! and [`order_results`] puts result `i` at place `i`, whatever order the
//! results arrive in. A batch fails as a whole: the first input, in input
//! order, whose transform failed decides the error.

use crate::buffers::{
    flatten, is_whole, lemma_whole_buffers, ZstdBufferWithSegments, ZstdBufferWithSegmentsCollection,
};
use crate::compression_parameters::cpu_count;
use crate::exceptions::{Fault, ZstdError};
use vstd::prelude::*;

verus! {

/// Why the transform of one input failed.
#[derive(Clone, Copy, Debug, PartialEq, Eq, Structural)]
pub enum WorkerError {
    /// The size of the output is neither given nor in the frame header.
    NoSize,
    /// The codec failed.
    Zstd(Fault),
}

/// The result of the transform of one input.
pub struct WorkerResult {
    /// The index of the input.
    pub source_offset: usize,
    /// The output, or why there is none.
    pub outcome: Result<Vec<u8>, WorkerError>,
}

/// Which of the two transforms a batch applies.
#[derive(Clone, Copy, Debug, PartialEq, Eq, Structural)]
pub enum Direction {
    Compress,
    Decompress,
}

/// The number of workers for `threads` as asked, on a machine of `cpus`
/// processors, for `inputs` inputs: all processors for a negative number,
/// one worker for zero and one, else the number asked for; and never more
/// workers than inputs.
pub open spec fn worker_count(threads: isize, cpus: usize, inputs: usize) -> usize {
    let wanted = if threads < 0 {
        cpus
    } else if threads < 2 {
        1usize
    } else {
        threads as usize
    };
    if wanted < inputs {
        wanted
    } else {
        inputs
    }
}

/// The number of workers for `threads` as asked, on a machine of `cpus`
/// processors, for `inputs` inputs.
pub fn resolve_workers(threads: isize, cpus: usize, inputs: usize) -> (count: usize)
    ensures
        count == worker_count(threads, cpus, inputs),
        count <= inputs,
        inputs > 0 && cpus > 0 ==> count > 0,
{
    let wanted = if threads < 0 {
        cpus
    } else if threads < 2 {
        1
    } else {
        threads as usize
    };
    if wanted < inputs {
        wanted
    } else {
        inputs
    }
}

/// The number of workers for `threads` as asked and `inputs` inputs, on
/// this machine. With a number of threads that is not negative the machine
/// has no say.
pub fn thread_count(threads: isize, inputs: usize) -> (count: usize)
    ensures
        threads >= 0 ==> count == worker_count(threads, 1, inputs),
        count <= inputs,
        inputs > 0 ==> count > 0,
{
    let cpus = if threads < 0 {
        cpu_count()
    } else {
        1
    };
    resolve_workers(threads, cpus, inputs)
}

/// The number of contexts that a batch of `inputs` inputs is run with
/// where `workers` are asked for: never more than there are inputs, and
/// always one.
pub open spec fn pool_size(workers: usize, inputs: usize) -> usize {
    if workers == 0 || inputs == 0 {
        1
    } else if workers < inputs {
        workers
    } else {
        inputs
    }
}

/// The number of contexts that a batch of `inputs` inputs is run with
/// where `workers` are asked for.
pub fn resolve_pool_size(workers: usize, inputs: usize) -> (count: usize)
    ensures
        count == pool_size(workers, inputs),
        count >= 1,
{
    if workers == 0 || inputs == 0 {
        1
    } else if workers < inputs {
        workers
    } else {
        inputs
    }
}

/// The context that a worker uses: the one with the number of its thread
/// in the pool, and the first one for a thread that has no number among the
/// contexts.
pub open spec fn slot_of(thread: Option<usize>, slots: usize) -> usize {
    match thread {
        Some(number) => if number < slots {
            number
        } else {
            0
        },
        None => 0,
    }
}

/// The context that a worker uses, of `slots` contexts.
pub fn worker_slot(thread: Option<usize>, slots: usize) -> (slot: usize)
    requires
        slots > 0,
    ensures
        slot == slot_of(thread, slots),
        slot < slots,
{
    match thread {
        Some(number) => if number < slots {
            number
        } else {
            0
        },
        None => 0,
    }
}

/// Whether `results` holds exactly one result for each index below its
/// length.
pub open spec fn complete(results: Seq<WorkerResult>) -> bool {
    &&& forall|j: int| 0 <= j < results.len() ==> (#[trigger] results[j]).source_offset < results.len()
    &&& forall|i: int, j: int|
        0 <= i < j < results.len() ==> (#[trigger] results[i]).source_offset != (#[trigger] results[j]).source_offset
}

/// Whether `sorted` holds the results of `results` in the order of their
/// inputs: each result stands at the place of its index.
pub open spec fn ordered(results: Seq<WorkerResult>, sorted: Seq<WorkerResult>) -> bool {
    &&& sorted.len() == results.len()
    &&& forall|j: int|
        0 <= j < results.len() ==> (#[trigger] results[j]).source_offset < sorted.len()
            && sorted[results[j].source_offset as int] == results[j]
}

/// Among complete results each place below the length is the index of one
/// of them.
pub proof fn lemma_hit(results: Seq<WorkerResult>, place: int) -> (j: int)
    requires
        complete(results),
        0 <= place < results.len(),
    ensures
        0 <= j < results.len(),
        results[j].source_offset == place,
{
    let n = results.len() as int;
    let offsets = Seq::new(n as nat, |i: int| results[i].source_offset as int);
    assert forall|i: int, k: int| 0 <= i < offsets.len() && 0 <= k < offsets.len() && i != k implies offsets[i]
        != offsets[k] by {
        if i < k {
            assert(results[i].source_offset != results[k].source_offset);
        } else {
            assert(results[k].source_offset != results[i].source_offset);
        }
    }
    assert(offsets.no_duplicates());
    offsets.unique_seq_to_set();
    let taken = offsets.to_set();
    let all = vstd::set_lib::set_int_range(0, n);
    vstd::set_lib::lemma_int_range(0, n);
    assert forall|p: int| taken.contains(p) implies all.contains(p) by {
        let i = choose|i: int| 0 <= i < offsets.len() && offsets[i] == p;
        assert(results[i].source_offset < n);
    }
    vstd::set_lib::lemma_subset_equality(taken, all);
    assert(all.contains(place));
    assert(taken.contains(place));
    let j = choose|j: int| 0 <= j < offsets.len() && offsets[j] == place;
    j
}

/// In an ordering of complete results, place `k` holds the result of input
/// `k`.
pub proof fn lemma_place(results: Seq<WorkerResult>, sorted: Seq<WorkerResult>, k: int)
    requires
        complete(results),
        ordered(results, sorted),
        0 <= k < sorted.len(),
    ensures
        sorted[k].source_offset == k,
        exists|j: int| 0 <= j < results.len() && sorted[k] == results[j],
{
    let j = lemma_hit(results, k);
    assert(sorted[results[j].source_offset as int] == results[j]);
}

/// The order of completion does not matter: two runs that hold the same
/// results, in whatever order, are put in the same order, in which item `i`
/// is the result of input `i`. `places` says where each result of the
/// first run stands in the second.
pub proof fn lemma_order_preserved(
    first: Seq<WorkerResult>,
    second: Seq<WorkerResult>,
    places: Seq<int>,
    first_sorted: Seq<WorkerResult>,
    second_sorted: Seq<WorkerResult>,
)
    requires
        complete(first),
        ordered(first, first_sorted),
        ordered(second, second_sorted),
        first.len() == second.len(),
        places.len() == first.len(),
        forall|i: int|
            0 <= i < first.len() ==> 0 <= #[trigger] places[i] < second.len() && first[i] == second[places[i]],
    ensures
        first_sorted == second_sorted,
        forall|k: int| 0 <= k < first_sorted.len() ==> (#[trigger] first_sorted[k]).source_offset == k,
{
    assert forall|k: int| 0 <= k < first_sorted.len() implies first_sorted[k] == second_sorted[k]
        && first_sorted[k].source_offset == k by {
        let i = lemma_hit(first, k);
        assert(first_sorted[first[i].source_offset as int] == first[i]);
        let j = places[i];
        assert(second_sorted[second[j].source_offset as int] == second[j]);
    }
    assert(first_sorted =~= second_sorted);
}

/// Puts `results` in the order of their inputs, or says that they do not
/// hold one result for each of `count` inputs.
pub fn order_results(results: Vec<WorkerResult>, count: usize) -> (sorted: Option<Vec<WorkerResult>>)
    ensures
        match sorted {
            Some(sorted) => {
                &&& results@.len() == count
                &&& complete(results@)
                &&& ordered(results@, sorted@)
                &&& forall|k: int| 0 <= k < sorted@.len() ==> (#[trigger] sorted@[k]).source_offset == k
            },
            None => results@.len() != count || !complete(results@),
        },
{
    if results.len() != count {
        return None;
    }
    let ghost given = results@;
    let mut rest = results;
    let mut slots: Vec<Option<WorkerResult>> = Vec::new();
    let mut i: usize = 0;
    while i < count
        invariant
            0 <= i <= count,
            slots@.len() == i,
            forall|k: int| 0 <= k < i ==> slots@[k] is None,
        decreases count - i,
    {
        slots.push(None);
        i = i + 1;
    }
    // Take the results from the end, and put each at the place of its index.
    let mut left: usize = count;
    while left > 0
        invariant
            given == results@,
            given.len() == count,
            slots@.len() == count,
            left <= count,
            rest@ == given.subrange(0, left as int),
            forall|j: int|
                left <= j < count ==> (#[trigger] given[j]).source_offset < count
                    && slots@[given[j].source_offset as int] == Some(given[j]),
            forall|k: int|
                0 <= k < count ==> (#[trigger] slots@[k]) is Some ==> exists|j: int|
                    left <= j < count && given[j] == slots@[k]->0 && given[j].source_offset == k,
            forall|a: int, b: int|
                left <= a < b < count ==> (#[trigger] given[a]).source_offset != (#[trigger] given[b]).source_offset,
        decreases left,
    {
        let result = match rest.pop() {
            Some(result) => result,
            None => {
                return None;
            },
        };
        assert(result == given[left - 1]);
        let place = result.source_offset;
        if place >= count {
            return None;
        }
        if slots[place].is_some() {
            proof {
                let j = choose|j: int| left <= j < count && given[j] == slots@[place as int]->0
                    && given[j].source_offset == place;
                assert(given[left - 1].source_offset == given[j].source_offset);
            }
            return None;
        }
        let ghost before = slots@;
        slots.set(place, Some(result));
        left = left - 1;
        proof {
            assert(rest@ =~= given.subrange(0, left as int));
            assert forall|j: int| left <= j < count implies (#[trigger] given[j]).source_offset < count
                && slots@[given[j].source_offset as int] == Some(given[j]) by {
                if j > left {
                    assert(before[given[j].source_offset as int] == Some(given[j]));
                }
            }
            assert forall|k: int| 0 <= k < count && (#[trigger] slots@[k]) is Some implies exists|j: int|
                left <= j < count && given[j] == slots@[k]->0 && given[j].source_offset == k by {
                if k == place {
                    assert(given[left as int] == slots@[k]->0);
                } else {
                    assert(before[k] is Some);
                    let j = choose|j: int| left + 1 <= j < count && given[j] == before[k]->0
                        && given[j].source_offset == k;
                    assert(given[j] == slots@[k]->0);
                }
            }
            assert forall|a: int, b: int| left <= a < b < count implies (#[trigger] given[a]).source_offset != (
            #[trigger] given[b]).source_offset by {
                if a == left {
                    assert(before[given[b].source_offset as int] == Some(given[b]));
                }
            }
        }
    }
    // Every place is taken now; hand the results out in order.
    let mut sorted: Vec<WorkerResult> = Vec::new();
    let mut taken: Vec<Option<WorkerResult>> = Vec::new();
    std::mem::swap(&mut taken, &mut slots);
    let ghost filled = taken@;
    let mut k: usize = count;
    let mut reversed: Vec<WorkerResult> = Vec::new();
    while k > 0
        invariant
            k <= count,
            given == results@,
            given.len() == count,
            forall|j: int|
                0 <= j < count ==> (#[trigger] given[j]).source_offset < count
                    && filled[given[j].source_offset as int] == Some(given[j]),
            filled.len() == count,
            taken@ == filled.subrange(0, k as int),
            reversed@.len() == count - k,
            forall|m: int| 0 <= m < reversed@.len() ==> filled[count - 1 - m] == Some(#[trigger] reversed@[m]),
        decreases k,
    {
        let slot = taken.pop();
        assert(slot == Some(filled[k - 1]));
        match slot {
            Some(Some(result)) => {
                reversed.push(result);
            },
            _ => {
                proof {
                    // A complete set of results leaves no place empty.
                    if complete(given) {
                        let j = lemma_hit(given, k - 1);
                        assert(filled[given[j].source_offset as int] == Some(given[j]));
                    }
                }
                return None;
            },
        }
        k = k - 1;
        assert(taken@ =~= filled.subrange(0, k as int));
    }
    let mut m: usize = count;
    while m > 0
        invariant
            m <= count,
            reversed@.len() == m,
            sorted@.len() == count - m,
            filled.len() == count,
            forall|p: int| 0 <= p < sorted@.len() ==> filled[p] == Some(#[trigger] sorted@[p]),
            forall|q: int| 0 <= q < m ==> filled[count - 1 - q] == Some(#[trigger] reversed@[q]),
        decreases m,
    {
        let ghost before = reversed@;
        let result = reversed.pop();
        match result {
            Some(result) => {
                assert(result == before[m - 1]);
                sorted.push(result);
            },
            None => {
                return None;
            },
        }
        m = m - 1;
        assert forall|q: int| 0 <= q < m implies filled[count - 1 - q] == Some(#[trigger] reversed@[q]) by {
            assert(reversed@[q] == before[q]);
        }
    }
    proof {
        assert forall|j: int| 0 <= j < given.len() implies (#[trigger] given[j]).source_offset < sorted@.len()
            && sorted@[given[j].source_offset as int] == given[j] by {
            assert(filled[given[j].source_offset as int] == Some(given[j]));
        }
        assert forall|kk: int| 0 <= kk < sorted@.len() implies (#[trigger] sorted@[kk]).source_offset == kk by {
            assert(filled[kk] == Some(sorted@[kk]));
            assert(filled[kk] is Some);
        }
    }
    Some(sorted)
}

/// The error of a batch whose item `index` failed with `error`.
pub open spec fn item_error(direction: Direction, index: usize, error: WorkerError) -> ZstdError {
    match error {
        WorkerError::NoSize => ZstdError::ItemNoSize { index },
        WorkerError::Zstd(fault) => match direction {
            Direction::Compress => ZstdError::ItemCompress { index, fault },
            Direction::Decompress => ZstdError::ItemDecompress { index, fault },
        },
    }
}

/// The error of a batch whose item `index` failed with `error`.
pub fn batch_error(direction: Direction, index: usize, error: WorkerError) -> (e: ZstdError)
    ensures
        e == item_error(direction, index, error),
{
    match error {
        WorkerError::NoSize => ZstdError::ItemNoSize { index },
        WorkerError::Zstd(fault) => match direction {
            Direction::Compress => ZstdError::ItemCompress { index, fault },
            Direction::Decompress => ZstdError::ItemDecompress { index, fault },
        },
    }
}

/// The outputs of `sorted`, where every transform succeeded.
pub open spec fn outputs(sorted: Seq<WorkerResult>) -> Seq<Seq<u8>> {
    Seq::new(sorted.len(), |i: int| sorted[i].outcome->Ok_0@)
}

/// Buffers that each hold one segment make a flat sequence of their
/// regions.
proof fn lemma_flatten_whole(buffers: Seq<ZstdBufferWithSegments>, regions: Seq<Seq<u8>>)
    requires
        buffers.len() == regions.len(),
        forall|i: int| 0 <= i < buffers.len() ==> (#[trigger] buffers[i]).items() == seq![regions[i]],
    ensures
        flatten(buffers) == regions,
    decreases buffers.len(),
{
    if buffers.len() > 0 {
        lemma_flatten_whole(buffers.drop_last(), regions.drop_last());
        assert(buffers.last().items() == seq![regions.last()]);
        assert(flatten(buffers) =~= regions.drop_last() + seq![regions.last()]);
        assert(regions =~= regions.drop_last() + seq![regions.last()]);
    } else {
        assert(flatten(buffers) =~= regions);
    }
}

/// Results that stand in the order of their inputs come out of an ordering
/// as they went in.
pub proof fn lemma_order_fixed(results: Seq<WorkerResult>, sorted: Seq<WorkerResult>)
    requires
        ordered(results, sorted),
        forall|k: int| 0 <= k < results.len() ==> (#[trigger] results[k]).source_offset == k,
    ensures
        complete(results),
        sorted == results,
{
    assert forall|k: int| 0 <= k < results.len() implies sorted[k] == results[k] by {
        assert(sorted[results[k].source_offset as int] == results[k]);
    }
    assert(sorted =~= results);
}

/// Whether a batch whose results are `sorted` yields a collection: it has
/// a result, every transform succeeded, and no output is empty.
pub open spec fn collects(sorted: Seq<WorkerResult>) -> bool {
    &&& sorted.len() > 0
    &&& forall|k: int| 0 <= k < sorted.len() ==> (#[trigger] sorted[k]).outcome is Ok
    &&& forall|k: int| 0 <= k < sorted.len() ==> (#[trigger] outputs(sorted)[k]).len() > 0
}

/// Makes a collection of results that stand in the order of their inputs.
///
/// If any transform failed, the batch fails with the error of the first
/// one that did, in input order, and its index. Otherwise item `i` of the
/// collection is the output of input `i`, in a buffer of its own whose one
/// segment is all of it; so the collection holds as many bytes as the
/// outputs have. A batch with an empty output cannot be held by a
/// collection and fails with `CollectionEmptyBuffer`, one without items
/// with `CollectionNoArguments`.
pub fn collect_results(sorted: &Vec<WorkerResult>, direction: Direction) -> (res: Result<
    ZstdBufferWithSegmentsCollection,
    ZstdError,
>)
    requires
        forall|k: int| 0 <= k < sorted@.len() ==> (#[trigger] sorted@[k]).source_offset == k,
    ensures
        res is Ok <==> collects(sorted@),
        match res {
            Ok(c) => {
                &&& c.wf()
                &&& forall|k: int| 0 <= k < sorted@.len() ==> (#[trigger] sorted@[k]).outcome is Ok
                &&& c.items() == outputs(sorted@)
                &&& c.parts().len() == sorted@.len()
                &&& forall|k: int| 0 <= k < sorted@.len() ==> is_whole(#[trigger] c.parts()[k], outputs(sorted@)[k])
            },
            Err(e) => {
                ||| exists|k: int|
                    {
                        &&& 0 <= k < sorted@.len()
                        &&& (#[trigger] sorted@[k]).outcome matches Err(error)
                        &&& e == item_error(direction, k as usize, error)
                        &&& forall|m: int| 0 <= m < k ==> (#[trigger] sorted@[m]).outcome is Ok
                    }
                ||| {
                    &&& forall|k: int| 0 <= k < sorted@.len() ==> (#[trigger] sorted@[k]).outcome is Ok
                    &&& (e == ZstdError::CollectionNoArguments && sorted@.len() == 0) || (e
                        == ZstdError::CollectionEmptyBuffer && exists|k: int|
                        0 <= k < sorted@.len() && (#[trigger] outputs(sorted@)[k]).len() == 0)
                }
            },
        },
        sorted@.len() == 0 ==> res == Err::<ZstdBufferWithSegmentsCollection, ZstdError>(
            ZstdError::CollectionNoArguments,
        ),
{
    let mut buffers: Vec<ZstdBufferWithSegments> = Vec::new();
    let mut i: usize = 0;
    while i < sorted.len()
        invariant
            0 <= i <= sorted@.len(),
            buffers@.len() == i,
            forall|k: int| 0 <= k < sorted@.len() ==> (#[trigger] sorted@[k]).source_offset == k,
            forall|k: int| 0 <= k < i ==> (#[trigger] sorted@[k]).outcome is Ok,
            forall|k: int|
                0 <= k < i ==> {
                    &&& (#[trigger] buffers@[k]).wf()
                    &&& buffers@[k].items() == seq![outputs(sorted@)[k]]
                    &&& is_whole(buffers@[k], outputs(sorted@)[k])
                },
        decreases sorted@.len() - i,
    {
        match &sorted[i].outcome {
            Err(error) => {
                return Err(batch_error(direction, sorted[i].source_offset, *error));
            },
            Ok(data) => {
                let copy = data.clone();
                let buffer = ZstdBufferWithSegments::whole(copy);
                buffers.push(buffer);
            },
        }
        i = i + 1;
    }
    proof {
        lemma_flatten_whole(buffers@, outputs(sorted@));
        lemma_whole_buffers(buffers@, outputs(sorted@), buffers@.len() as int);
    }
    match ZstdBufferWithSegmentsCollection::new(buffers) {
        Ok(c) => {
            proof {
                assert forall|k: int| 0 <= k < sorted@.len() implies (#[trigger] outputs(sorted@)[k]).len() > 0 by {
                    assert(buffers@[k].data().len() > 0);
                }
            }
            Ok(c)
        },
        Err(e) => {
            proof {
                if e == ZstdError::CollectionEmptyBuffer {
                    let k = choose|k: int|
                        0 <= k < buffers@.len() && ((#[trigger] buffers@[k]).segs().len() == 0
                            || buffers@[k].data().len() == 0);
                    assert(outputs(sorted@)[k].len() == 0);
                }
            }
            Err(e)
        },
    }
}

} // verus!
