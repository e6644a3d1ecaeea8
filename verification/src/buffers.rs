//! Segment buffers: bounds-checked views into contiguous byte regions.
//!
//! A [`ZstdBufferWithSegments`] owns one byte region and a table of segments,
//! each an `(offset, length)` pair that was checked against the region when
//! the buffer was built. A [`ZstdBufferWithSegmentsCollection`] strings
//! several buffers together and numbers all their segments in one index
//! space.
//!
//! On the wire a segment table is a flat run of 16-byte records: the offset
//! and then the length, each an unsigned 64-bit integer in little-endian
//! order.

use crate::exceptions::ZstdError;
use vstd::bytes::{
    lemma_auto_spec_u64_to_from_le_bytes, spec_u64_from_le_bytes, spec_u64_to_le_bytes, u64_from_le_bytes,
    u64_to_le_bytes,
};
use vstd::prelude::*;

verus! {

/// The number of bytes of one segment record.
pub const SEGMENT_RECORD_SIZE: usize = 16;

/// A sub-range of a backing byte region.
#[derive(Clone, Copy, Debug, PartialEq, Eq, Structural)]
pub struct BufferSegment {
    pub offset: u64,
    pub length: u64,
}

impl BufferSegment {
    /// Whether the segment lies within a region of `size` bytes.
    pub open spec fn fits(self, size: nat) -> bool {
        self.offset + self.length <= size
    }

    /// The bytes of `region` that the segment covers.
    pub open spec fn of(self, region: Seq<u8>) -> Seq<u8> {
        region.subrange(self.offset as int, self.offset + self.length)
    }

    /// The record of the segment.
    pub open spec fn record(self) -> Seq<u8> {
        spec_u64_to_le_bytes(self.offset) + spec_u64_to_le_bytes(self.length)
    }
}

/// The segment that record `i` of `table` holds.
pub open spec fn record_at(table: Seq<u8>, i: int) -> BufferSegment {
    BufferSegment {
        offset: spec_u64_from_le_bytes(table.subrange(16 * i, 16 * i + 8)),
        length: spec_u64_from_le_bytes(table.subrange(16 * i + 8, 16 * i + 16)),
    }
}

/// The segments that the whole records of `table` hold.
pub open spec fn parse_records(table: Seq<u8>) -> Seq<BufferSegment> {
    Seq::new((table.len() / 16) as nat, |i: int| record_at(table, i))
}

/// The table that holds `segments`, record after record.
pub open spec fn encode_records(segments: Seq<BufferSegment>) -> Seq<u8>
    decreases segments.len(),
{
    if segments.len() == 0 {
        Seq::empty()
    } else {
        encode_records(segments.drop_last()) + segments.last().record()
    }
}

/// Whether every one of `segments` lies within a region of `size` bytes.
pub open spec fn all_fit(segments: Seq<BufferSegment>, size: nat) -> bool {
    forall|i: int| 0 <= i < segments.len() ==> (#[trigger] segments[i]).fits(size)
}

/// The sum of the lengths of `segments`.
pub open spec fn total_length(segments: Seq<BufferSegment>) -> nat
    decreases segments.len(),
{
    if segments.len() == 0 {
        0
    } else {
        total_length(segments.drop_last()) + segments.last().length as nat
    }
}

/// A table of `segments` has sixteen bytes for each of them.
pub proof fn lemma_encode_len(segments: Seq<BufferSegment>)
    ensures
        encode_records(segments).len() == 16 * segments.len(),
    decreases segments.len(),
{
    lemma_auto_spec_u64_to_from_le_bytes();

    if segments.len() > 0 {
        lemma_encode_len(segments.drop_last());
    }
}

/// Reading a table back gives the segments it was written from.
pub proof fn lemma_parse_encode(segments: Seq<BufferSegment>)
    ensures
        parse_records(encode_records(segments)) == segments,
    decreases segments.len(),
{
    lemma_auto_spec_u64_to_from_le_bytes();

    lemma_encode_len(segments);
    let table = encode_records(segments);
    if segments.len() > 0 {
        let front = segments.drop_last();
        let last = segments.last();
        lemma_parse_encode(front);
        lemma_encode_len(front);
        let front_table = encode_records(front);
        assert forall|i: int| 0 <= i < segments.len() implies parse_records(table)[i] == segments[i] by {
            if i < front.len() {
                assert(table.subrange(16 * i, 16 * i + 8) =~= front_table.subrange(16 * i, 16 * i + 8));
                assert(table.subrange(16 * i + 8, 16 * i + 16) =~= front_table.subrange(
                    16 * i + 8,
                    16 * i + 16,
                ));
                assert(parse_records(front_table)[i] == front[i]);
            } else {
                assert(table.subrange(16 * i, 16 * i + 8) =~= spec_u64_to_le_bytes(last.offset));
                assert(table.subrange(16 * i + 8, 16 * i + 16) =~= spec_u64_to_le_bytes(last.length));
            }
        }
    }
    assert(parse_records(table) =~= segments);
}

/// A view of one segment of a buffer.
#[derive(Clone, Copy, Debug)]
pub struct ZstdBufferSegment<'a> {
    buffer: &'a [u8],
    offset: usize,
    len: usize,
}

impl<'a> ZstdBufferSegment<'a> {
    /// Whether the view lies within its region.
    pub closed spec fn wf(self) -> bool {
        self.offset + self.len <= self.buffer@.len()
    }

    /// The bytes the view covers.
    pub closed spec fn view(self) -> Seq<u8> {
        self.buffer@.subrange(self.offset as int, self.offset + self.len)
    }

    /// Where in its region the view starts.
    pub closed spec fn start(self) -> usize {
        self.offset
    }

    /// The bytes the view covers.
    pub fn as_slice(&self) -> (bytes: &'a [u8])
        requires
            self.wf(),
        ensures
            bytes@ == self@,
    {
        let size = self.buffer.len();
        assert(self.offset + self.len <= size);
        vstd::slice::slice_subrange(self.buffer, self.offset, self.offset + self.len)
    }

    /// Where in its region the view starts.
    pub fn offset(&self) -> (offset: usize)
        ensures
            offset == self.start(),
    {
        self.offset
    }

    /// The number of bytes the view covers.
    pub fn len(&self) -> (len: usize)
        requires
            self.wf(),
        ensures
            len == self@.len(),
    {
        self.len
    }

    /// A copy of the bytes the view covers.
    pub fn tobytes(&self) -> (bytes: Vec<u8>)
        requires
            self.wf(),
        ensures
            bytes@ == self@,
    {
        vstd::slice::slice_to_vec(self.as_slice())
    }
}

/// The segment table of a buffer, in its wire layout.
pub struct ZstdBufferSegments {
    table: Vec<u8>,
}

impl ZstdBufferSegments {
    /// The bytes of the table.
    pub closed spec fn view(self) -> Seq<u8> {
        self.table@
    }

    /// The bytes of the table.
    pub fn as_slice(&self) -> (bytes: &[u8])
        ensures
            bytes@ == self@,
    {
        self.table.as_slice()
    }
}

/// A byte region and the segments that were checked against it.
pub struct ZstdBufferWithSegments {
    buffer: Vec<u8>,
    segments: Vec<BufferSegment>,
}

impl ZstdBufferWithSegments {
    /// Whether every segment lies within the region.
    pub closed spec fn wf(self) -> bool {
        all_fit(self.segments@, self.buffer@.len())
    }

    /// The backing region.
    pub closed spec fn data(self) -> Seq<u8> {
        self.buffer@
    }

    /// The segments, in order.
    pub closed spec fn segs(self) -> Seq<BufferSegment> {
        self.segments@
    }

    /// The bytes of each segment, in order.
    pub open spec fn items(self) -> Seq<Seq<u8>> {
        Seq::new(self.segs().len(), |i: int| self.segs()[i].of(self.data()))
    }

    /// A buffer over `data` with the segments that `table` holds.
    ///
    /// The table is copied and each segment is checked against `data`: a
    /// buffer exists only with segments that lie within its region.
    pub fn new(data: Vec<u8>, table: &[u8]) -> (res: Result<ZstdBufferWithSegments, ZstdError>)
        ensures
            match res {
                Ok(b) => {
                    &&& table@.len() % 16 == 0
                    &&& all_fit(parse_records(table@), data@.len())
                    &&& b.wf()
                    &&& b.data() == data@
                    &&& b.segs() == parse_records(table@)
                },
                Err(e) => {
                    &&& table@.len() % 16 != 0 ==> e == ZstdError::SegmentsSizeNotMultiple
                    &&& table@.len() % 16 == 0 ==> e == ZstdError::SegmentOutOfBounds && !all_fit(
                        parse_records(table@),
                        data@.len(),
                    )
                },
            },
    {
        if table.len() % SEGMENT_RECORD_SIZE != 0 {
            return Err(ZstdError::SegmentsSizeNotMultiple);
        }
        let count = table.len() / SEGMENT_RECORD_SIZE;
        let size = data.len();
        let ghost parsed = parse_records(table@);
        let mut segments: Vec<BufferSegment> = Vec::new();
        let mut i: usize = 0;
        while i < count
            invariant
                count == table@.len() / 16,
                table@.len() % 16 == 0,
                table@.len() <= usize::MAX,
                parsed == parse_records(table@),
                size == data@.len(),
                0 <= i <= count,
                segments@ == parsed.subrange(0, i as int),
                all_fit(segments@, size as nat),
            decreases count - i,
        {
            assert(16 * (i + 1) <= table@.len());
            let start = i * 16;
            let offset = u64_from_le_bytes(vstd::slice::slice_subrange(table, start, start + 8));
            let length = u64_from_le_bytes(vstd::slice::slice_subrange(table, start + 8, start + 16));
            let segment = BufferSegment { offset, length };
            assert(segment == parsed[i as int]);
            let fits = match offset.checked_add(length) {
                Some(end) => end <= size as u64,
                None => false,
            };
            if !fits {
                assert(!parsed[i as int].fits(size as nat));
                return Err(ZstdError::SegmentOutOfBounds);
            }
            segments.push(segment);
            assert(segments@ =~= parsed.subrange(0, i + 1));
            i = i + 1;
        }
        assert(segments@ =~= parsed);
        Ok(ZstdBufferWithSegments { buffer: data, segments })
    }

    /// A buffer over `data` whose one segment covers all of it.
    pub fn whole(data: Vec<u8>) -> (b: ZstdBufferWithSegments)
        ensures
            b.wf(),
            b.data() == data@,
            b.segs() == seq![BufferSegment { offset: 0, length: data@.len() as u64 }],
            b.items() == seq![data@],
            is_whole(b, data@),
    {
        let length = data.len() as u64;
        let mut segments: Vec<BufferSegment> = Vec::new();
        segments.push(BufferSegment { offset: 0, length });
        let b = ZstdBufferWithSegments { buffer: data, segments };
        assert(b.segs() =~= seq![BufferSegment { offset: 0, length: data@.len() as u64 }]);
        assert(b.segs()[0].of(b.data()) =~= data@);
        assert(b.items() =~= seq![data@]);
        b
    }

    /// The number of bytes of the backing region.
    pub fn size(&self) -> (size: usize)
        ensures
            size == self.data().len(),
    {
        self.buffer.len()
    }

    /// The number of segments.
    pub fn len(&self) -> (len: usize)
        ensures
            len == self.segs().len(),
    {
        self.segments.len()
    }

    /// The whole backing region.
    pub fn as_slice(&self) -> (bytes: &[u8])
        ensures
            bytes@ == self.data(),
    {
        self.buffer.as_slice()
    }

    /// A copy of the whole backing region.
    pub fn tobytes(&self) -> (bytes: Vec<u8>)
        ensures
            bytes@ == self.data(),
    {
        vstd::slice::slice_to_vec(self.buffer.as_slice())
    }

    /// The segment table in its wire layout.
    pub fn segments(&self) -> (table: ZstdBufferSegments)
        ensures
            table@ == encode_records(self.segs()),
            parse_records(table@) == self.segs(),
    {
        let mut bytes: Vec<u8> = Vec::new();
        let mut i: usize = 0;
        while i < self.segments.len()
            invariant
                0 <= i <= self.segments@.len(),
                bytes@ == encode_records(self.segments@.subrange(0, i as int)),
            decreases self.segments@.len() - i,
        {
            let segment = self.segments[i];
            let mut offset = u64_to_le_bytes(segment.offset);
            let mut length = u64_to_le_bytes(segment.length);
            bytes.append(&mut offset);
            bytes.append(&mut length);
            proof {
                let next = self.segments@.subrange(0, i + 1);
                assert(next.drop_last() =~= self.segments@.subrange(0, i as int));
                assert(next.last() == segment);
                assert(bytes@ =~= encode_records(next.drop_last()) + segment.record());
            }
            i = i + 1;
        }
        proof {
            assert(self.segments@.subrange(0, i as int) =~= self.segments@);
            lemma_parse_encode(self.segments@);
        }
        ZstdBufferSegments { table: bytes }
    }

    /// The bytes of segment `i`.
    pub fn get_segment_slice(&self, i: usize) -> (bytes: &[u8])
        requires
            self.wf(),
            i < self.segs().len(),
        ensures
            bytes@ == self.items()[i as int],
    {
        let segment = self.segment_at(i);
        segment.as_slice()
    }

    /// The view of segment `key`.
    pub fn get(&self, key: isize) -> (res: Result<ZstdBufferSegment<'_>, ZstdError>)
        requires
            self.wf(),
        ensures
            match res {
                Ok(segment) => {
                    &&& 0 <= key < self.segs().len()
                    &&& segment.wf()
                    &&& segment@ == self.items()[key as int]
                    &&& segment.start() == self.segs()[key as int].offset
                },
                Err(e) => {
                    &&& key < 0 ==> e == ZstdError::NegativeOffset
                    &&& key >= 0 ==> key >= self.segs().len() && e == (ZstdError::OffsetOutOfRange {
                        len: self.segs().len() as usize,
                    })
                },
            },
    {
        if key < 0 {
            return Err(ZstdError::NegativeOffset);
        }
        let index = key as usize;
        if index >= self.segments.len() {
            return Err(ZstdError::OffsetOutOfRange { len: self.segments.len() });
        }
        Ok(self.segment_at(index))
    }

    /// The view of segment `index`.
    pub fn segment_at(&self, index: usize) -> (segment: ZstdBufferSegment<'_>)
        requires
            self.wf(),
            index < self.segs().len(),
        ensures
            segment.wf(),
            segment@ == self.items()[index as int],
            segment.start() == self.segs()[index as int].offset,
    {
        let record = &self.segments[index];
        let size = self.buffer.len();
        assert(self.segments@[index as int].fits(size as nat));
        ZstdBufferSegment {
            buffer: self.buffer.as_slice(),
            offset: record.offset as usize,
            len: record.length as usize,
        }
    }
}

/// The segments of `buffers`, one buffer after the other.
pub open spec fn flatten(buffers: Seq<ZstdBufferWithSegments>) -> Seq<Seq<u8>>
    decreases buffers.len(),
{
    if buffers.len() == 0 {
        Seq::empty()
    } else {
        flatten(buffers.drop_last()) + buffers.last().items()
    }
}

/// The number of segments of the first `n` of `buffers`.
pub open spec fn count_before(buffers: Seq<ZstdBufferWithSegments>, n: int) -> int
    decreases n,
{
    if n <= 0 {
        0
    } else {
        count_before(buffers, n - 1) + buffers[n - 1].segs().len()
    }
}

/// The sum of the lengths of all segments of the first `n` of `buffers`.
pub open spec fn bytes_before(buffers: Seq<ZstdBufferWithSegments>, n: int) -> int
    decreases n,
{
    if n <= 0 {
        0
    } else {
        bytes_before(buffers, n - 1) + total_length(buffers[n - 1].segs())
    }
}

/// The flattened sequence has one entry for each segment, and segment
/// `local` of buffer `b` stands at `count_before(b) + local`.
pub proof fn lemma_flatten_index(buffers: Seq<ZstdBufferWithSegments>, b: int, local: int)
    requires
        0 <= b < buffers.len(),
        0 <= local < buffers[b].segs().len(),
    ensures
        flatten(buffers).len() == count_before(buffers, buffers.len() as int),
        0 <= count_before(buffers, b),
        count_before(buffers, b + 1) <= count_before(buffers, buffers.len() as int),
        flatten(buffers)[count_before(buffers, b) + local] == buffers[b].items()[local],
    decreases buffers.len(),
{
    let n = buffers.len() as int;
    let front = buffers.drop_last();
    lemma_flatten_len(buffers);
    lemma_flatten_len(front);
    lemma_count_prefix(buffers, front, n - 1);
    lemma_count_nonneg(buffers, b);
    if b == n - 1 {
        lemma_count_prefix(buffers, front, b);
    } else {
        lemma_flatten_index(front, b, local);
        lemma_count_prefix(buffers, front, b);
        lemma_count_prefix(buffers, front, b + 1);
        lemma_count_monotonic(buffers, b + 1, n);
    }
}

/// The flattened sequence has one entry for each segment.
pub proof fn lemma_flatten_len(buffers: Seq<ZstdBufferWithSegments>)
    ensures
        flatten(buffers).len() == count_before(buffers, buffers.len() as int),
    decreases buffers.len(),
{
    if buffers.len() > 0 {
        let front = buffers.drop_last();
        lemma_flatten_len(front);
        lemma_count_prefix(buffers, front, buffers.len() - 1);
    }
}

proof fn lemma_count_prefix(buffers: Seq<ZstdBufferWithSegments>, front: Seq<ZstdBufferWithSegments>, n: int)
    requires
        front.len() <= buffers.len(),
        forall|i: int| 0 <= i < front.len() ==> front[i] == buffers[i],
        n <= front.len(),
    ensures
        count_before(front, n) == count_before(buffers, n),
    decreases n,
{
    if n > 0 {
        lemma_count_prefix(buffers, front, n - 1);
    }
}

proof fn lemma_count_nonneg(buffers: Seq<ZstdBufferWithSegments>, n: int)
    ensures
        0 <= count_before(buffers, n),
    decreases n,
{
    if n > 0 {
        lemma_count_nonneg(buffers, n - 1);
    }
}

pub proof fn lemma_count_monotonic(buffers: Seq<ZstdBufferWithSegments>, a: int, b: int)
    requires
        a <= b,
    ensures
        count_before(buffers, a) <= count_before(buffers, b),
    decreases b - a,
{
    if a < b {
        lemma_count_monotonic(buffers, a, b - 1);
        lemma_count_nonneg(buffers, b - 1);
    } else {
        lemma_count_nonneg(buffers, a);
    }
}

/// An ordered run of buffers whose segments share one index space.
pub struct ZstdBufferWithSegmentsCollection {
    buffers: Vec<ZstdBufferWithSegments>,
    first_elements: Vec<usize>,
}

/// Whether `buffer` holds `bytes` as its one segment, which is all of it.
pub open spec fn is_whole(buffer: ZstdBufferWithSegments, bytes: Seq<u8>) -> bool {
    &&& buffer.wf()
    &&& buffer.data() == bytes
    &&& buffer.segs() == seq![BufferSegment { offset: 0, length: bytes.len() as u64 }]
    &&& buffer.items() == seq![bytes]
    &&& bytes.len() <= u64::MAX
}

/// The number of bytes of the first `n` of `regions`.
pub open spec fn bytes_of(regions: Seq<Seq<u8>>, n: int) -> int
    decreases n,
{
    if n <= 0 {
        0
    } else {
        bytes_of(regions, n - 1) + regions[n - 1].len()
    }
}

/// Buffers that each hold one region as their one segment hold as many
/// segments as there are buffers, and as many bytes as the regions have.
pub proof fn lemma_whole_buffers(buffers: Seq<ZstdBufferWithSegments>, regions: Seq<Seq<u8>>, n: int)
    requires
        buffers.len() == regions.len(),
        0 <= n <= buffers.len(),
        forall|i: int| 0 <= i < buffers.len() ==> is_whole(#[trigger] buffers[i], regions[i]),
    ensures
        count_before(buffers, n) == n,
        bytes_before(buffers, n) == bytes_of(regions, n),
    decreases n,
{
    if n > 0 {
        lemma_whole_buffers(buffers, regions, n - 1);
        let segs = buffers[n - 1].segs();
        assert(is_whole(buffers[n - 1], regions[n - 1]));
        assert(segs.drop_last() =~= Seq::<BufferSegment>::empty());
        assert(total_length(segs.drop_last()) == 0);
        assert(total_length(segs) == regions[n - 1].len());
    }
}

/// Whether each of `buffers` holds at least one segment and one byte.
pub open spec fn all_filled(buffers: Seq<ZstdBufferWithSegments>) -> bool {
    forall|i: int| 0 <= i < buffers.len() ==> (#[trigger] buffers[i]).segs().len() > 0 && buffers[i].data().len() > 0
}

impl ZstdBufferWithSegmentsCollection {
    /// Whether the cumulative counts match the buffers, each of which is
    /// well-formed and holds at least one byte and one segment.
    pub closed spec fn wf(self) -> bool {
        &&& self.buffers@.len() > 0
        &&& self.first_elements@.len() == self.buffers@.len()
        &&& forall|i: int|
            0 <= i < self.buffers@.len() ==> {
                &&& (#[trigger] self.buffers@[i]).wf()
                &&& self.buffers@[i].segs().len() > 0
                &&& self.buffers@[i].data().len() > 0
            }
        &&& forall|i: int|
            0 <= i < self.buffers@.len() ==> #[trigger] self.first_elements@[i] == count_before(
                self.buffers@,
                i + 1,
            )
    }

    /// The buffers, in order.
    pub closed spec fn parts(self) -> Seq<ZstdBufferWithSegments> {
        self.buffers@
    }

    /// The bytes of every segment, in the one index space.
    pub open spec fn items(self) -> Seq<Seq<u8>> {
        flatten(self.parts())
    }

    /// A collection holds at least one buffer, and each of its buffers
    /// holds at least one segment and one byte.
    pub proof fn lemma_filled(self)
        requires
            self.wf(),
        ensures
            self.parts().len() > 0,
            all_filled(self.parts()),
            forall|i: int| 0 <= i < self.parts().len() ==> (#[trigger] self.parts()[i]).wf(),
    {
    }

    /// A collection of `buffers`, in their order.
    ///
    /// The collection is made exactly if there is a buffer, each buffer
    /// holds at least one segment and one byte, and the segments can be
    /// counted. No buffers are refused with `CollectionNoArguments`, a
    /// buffer without a segment or a byte with `CollectionEmptyBuffer`, and
    /// more segments than can be counted with `TooManySegments`.
    pub fn new(buffers: Vec<ZstdBufferWithSegments>) -> (res: Result<ZstdBufferWithSegmentsCollection, ZstdError>)
        requires
            forall|i: int| 0 <= i < buffers@.len() ==> (#[trigger] buffers@[i]).wf(),
        ensures
            res is Ok <==> buffers@.len() > 0 && all_filled(buffers@) && count_before(
                buffers@,
                buffers@.len() as int,
            ) <= usize::MAX,
            match res {
                Ok(c) => {
                    &&& c.wf()
                    &&& c.parts() == buffers@
                },
                Err(e) => {
                    &&& e == ZstdError::CollectionNoArguments <==> buffers@.len() == 0
                    &&& e == ZstdError::CollectionEmptyBuffer ==> buffers@.len() > 0 && exists|i: int|
                        0 <= i < buffers@.len() && ((#[trigger] buffers@[i]).segs().len() == 0
                            || buffers@[i].data().len() == 0)
                    &&& e == ZstdError::CollectionNoArguments || e == ZstdError::CollectionEmptyBuffer || e
                        == ZstdError::TooManySegments
                    &&& e == ZstdError::TooManySegments ==> count_before(buffers@, buffers@.len() as int)
                        > usize::MAX
                },
            },
    {
        if buffers.len() == 0 {
            return Err(ZstdError::CollectionNoArguments);
        }
        let mut first_elements: Vec<usize> = Vec::new();
        let mut offset: usize = 0;
        let mut i: usize = 0;
        while i < buffers.len()
            invariant
                0 <= i <= buffers@.len(),
                buffers@.len() > 0,
                first_elements@.len() == i,
                offset == count_before(buffers@, i as int),
                forall|j: int| 0 <= j < buffers@.len() ==> (#[trigger] buffers@[j]).wf(),
                forall|j: int|
                    0 <= j < i ==> (#[trigger] buffers@[j]).segs().len() > 0 && buffers@[j].data().len() > 0,
                forall|j: int| 0 <= j < i ==> #[trigger] first_elements@[j] == count_before(buffers@, j + 1),
            decreases buffers@.len() - i,
        {
            let buffer = &buffers[i];
            if buffer.len() == 0 || buffer.size() == 0 {
                return Err(ZstdError::CollectionEmptyBuffer);
            }
            offset = match offset.checked_add(buffer.len()) {
                Some(sum) => sum,
                None => {
                    proof {
                        lemma_count_monotonic(buffers@, i + 1, buffers@.len() as int);
                    }
                    return Err(ZstdError::TooManySegments);
                },
            };
            first_elements.push(offset);
            i = i + 1;
        }
        Ok(ZstdBufferWithSegmentsCollection { buffers, first_elements })
    }

    /// The number of segments of all buffers.
    pub fn len(&self) -> (len: usize)
        requires
            self.wf(),
        ensures
            len == self.items().len(),
            len > 0,
    {
        proof {
            lemma_flatten_len(self.buffers@);
            lemma_count_nonneg(self.buffers@, self.buffers@.len() - 1);
        }
        self.first_elements[self.first_elements.len() - 1]
    }

    /// The number of buffers.
    pub fn buffer_count(&self) -> (count: usize)
        ensures
            count == self.parts().len(),
    {
        self.buffers.len()
    }

    /// Buffer `i`.
    pub fn buffer(&self, i: usize) -> (b: &ZstdBufferWithSegments)
        requires
            self.wf(),
            i < self.parts().len(),
        ensures
            *b == self.parts()[i as int],
            b.wf(),
    {
        &self.buffers[i]
    }

    /// The sum of the lengths of all segments, or `None` where a `usize`
    /// cannot hold it.
    pub fn size(&self) -> (size: Option<usize>)
        requires
            self.wf(),
        ensures
            match size {
                Some(n) => n == bytes_before(self.parts(), self.parts().len() as int),
                None => bytes_before(self.parts(), self.parts().len() as int) > usize::MAX,
            },
    {
        let mut size: usize = 0;
        let mut i: usize = 0;
        while i < self.buffers.len()
            invariant
                self.wf(),
                0 <= i <= self.buffers@.len(),
                size == bytes_before(self.buffers@, i as int),
            decreases self.buffers@.len() - i,
        {
            let buffer = &self.buffers[i];
            let ghost segs = buffer.segments@;
            let mut part: usize = 0;
            let mut j: usize = 0;
            while j < buffer.segments.len()
                invariant
                    segs == buffer.segments@,
                    buffer.wf(),
                    0 <= j <= segs.len(),
                    part == total_length(segs.subrange(0, j as int)),
                    forall|k: int| j <= k <= segs.len() ==> total_length(segs.subrange(0, j as int))
                        <= #[trigger] total_length(segs.subrange(0, k)),
                    size + part <= usize::MAX,
                    size == bytes_before(self.buffers@, i as int),
                    buffer == self.buffers@[i as int],
                    i < self.buffers@.len(),
                decreases segs.len() - j,
            {
                let region = buffer.buffer.len();
                assert(segs[j as int].fits(region as nat));
                let length = buffer.segments[j].length as usize;
                proof {
                    let next = segs.subrange(0, j + 1);
                    assert(next.drop_last() =~= segs.subrange(0, j as int));
                    assert(next.last() == segs[j as int]);
                    assert(total_length(next) == total_length(next.drop_last()) + segs[j as int].length);
                    assert forall|k: int| j + 1 <= k <= segs.len() implies total_length(next)
                        <= #[trigger] total_length(segs.subrange(0, k)) by {
                        lemma_total_monotonic(segs, j + 1, k);
                    }
                    lemma_total_monotonic(segs, j + 1, segs.len() as int);
                    assert(segs.subrange(0, segs.len() as int) =~= segs);
                }
                if length > usize::MAX - size - part {
                    proof {
                        lemma_bytes_monotonic(self.buffers@, i + 1, self.buffers@.len() as int);
                    }
                    return None;
                }
                part = part + length;
                j = j + 1;
            }
            assert(segs.subrange(0, j as int) =~= segs);
            size = size + part;
            i = i + 1;
        }
        Some(size)
    }

    /// The buffer that holds segment `key` of the index space, and the
    /// segment's number within that buffer.
    pub fn locate(&self, key: usize) -> (place: (usize, usize))
        requires
            self.wf(),
            key < self.items().len(),
        ensures
            place.0 < self.parts().len(),
            place.1 < self.parts()[place.0 as int].segs().len(),
            key == count_before(self.parts(), place.0 as int) + place.1,
            self.items()[key as int] == self.parts()[place.0 as int].items()[place.1 as int],
    {
        proof {
            lemma_flatten_len(self.buffers@);
        }
        let count = self.buffers.len();
        let mut i: usize = 0;
        while self.first_elements[i] <= key
            invariant
                self.wf(),
                count == self.buffers@.len(),
                0 <= i < self.buffers@.len(),
                key < count_before(self.buffers@, self.buffers@.len() as int),
                count_before(self.buffers@, i as int) <= key,
            decreases self.buffers@.len() - i,
        {
            assert(self.first_elements@[i as int] == count_before(self.buffers@, i + 1));
            i = i + 1;
        }
        assert(self.first_elements@[i as int] == count_before(self.buffers@, i + 1));
        let offset = if i > 0 {
            assert(self.first_elements@[i - 1] == count_before(self.buffers@, i as int));
            self.first_elements[i - 1]
        } else {
            0
        };
        proof {
            lemma_flatten_index(self.buffers@, i as int, key - offset);
        }
        (i, key - offset)
    }

    /// The view of segment `key` of the index space.
    pub fn get(&self, key: isize) -> (res: Result<ZstdBufferSegment<'_>, ZstdError>)
        requires
            self.wf(),
        ensures
            match res {
                Ok(segment) => {
                    &&& 0 <= key < self.items().len()
                    &&& segment.wf()
                    &&& segment@ == self.items()[key as int]
                },
                Err(e) => {
                    &&& key < 0 ==> e == ZstdError::NegativeOffset
                    &&& key >= 0 ==> key >= self.items().len() && e == (ZstdError::OffsetOutOfRange {
                        len: self.items().len() as usize,
                    })
                },
            },
    {
        if key < 0 {
            return Err(ZstdError::NegativeOffset);
        }
        let index = key as usize;
        let len = self.len();
        if index >= len {
            return Err(ZstdError::OffsetOutOfRange { len });
        }
        let (b, local) = self.locate(index);
        let buffer = &self.buffers[b];
        assert(buffer.wf());
        Ok(buffer.segment_at(local))
    }
}

proof fn lemma_total_monotonic(segments: Seq<BufferSegment>, a: int, b: int)
    requires
        0 <= a <= b <= segments.len(),
    ensures
        total_length(segments.subrange(0, a)) <= total_length(segments.subrange(0, b)),
    decreases b - a,
{
    if a < b {
        lemma_total_monotonic(segments, a, b - 1);
        assert(segments.subrange(0, b).drop_last() =~= segments.subrange(0, b - 1));
    }
}

proof fn lemma_bytes_monotonic(buffers: Seq<ZstdBufferWithSegments>, a: int, b: int)
    requires
        0 <= a <= b,
    ensures
        bytes_before(buffers, a) <= bytes_before(buffers, b),
    decreases b - a,
{
    if a < b {
        lemma_bytes_monotonic(buffers, a, b - 1);
    }
}

} // verus!
