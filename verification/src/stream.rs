//! Input sources: bytes on demand, as a sequence of views.
//!
//! A source hands out the unconsumed rest of the chunk it holds, is told how
//! much of it a transform step used, and says when nothing more will come.
//! [`BufferSource`] walks a buffer that is all there; [`ReadSource`] pulls
//! chunk after chunk from a [`ReadCallback`].

use crate::exceptions::ZstdError;
use vstd::prelude::*;

verus! {

/// A caller-controlled read operation. A result of no bytes means that the
/// data has ended; nothing else is assumed of an implementation.
pub trait ReadCallback {
    /// Up to `size` more bytes of the data, or a code for the reader's
    /// failure.
    fn read(&mut self, size: usize) -> Result<Vec<u8>, usize>;
}

/// Whether `e` is a failure of a source: of its reader, or of the count of
/// the bytes it has delivered.
pub open spec fn is_source_error(e: ZstdError) -> bool {
    e is Source || e == ZstdError::SourceTooLong
}

/// A source of input views for a transform step.
pub trait InBufferSource: Sized {
    /// Whether the source is in a state its own operations can leave it in.
    spec fn wf(&self) -> bool;

    /// The bytes of the chunk in hand that no step has used yet.
    spec fn pending(&self) -> Seq<u8>;

    /// Whether the source has reported its end.
    spec fn is_finished(&self) -> bool;

    /// How many more bytes can be recorded as read. It bounds every loop that
    /// drains the source.
    spec fn budget(&self) -> nat;

    /// The total size of the input, where it is known up front.
    spec fn size(&self) -> Option<usize>;

    /// The total size of the input, where it is known up front.
    fn source_size(&self) -> (size: Option<usize>)
        requires
            self.wf(),
        ensures
            size == self.size(),
    ;

    /// The next view of unconsumed input, or `None` once the source is
    /// exhausted.
    ///
    /// A chunk in hand is handed out again until it is used up; only then is
    /// more input pulled. A view is never empty.
    fn input_buffer(&mut self) -> (view: Result<Option<&[u8]>, ZstdError>)
        requires
            old(self).wf(),
        ensures
            final(self).wf(),
            final(self).budget() == old(self).budget(),
            final(self).size() == old(self).size(),
            old(self).is_finished() ==> view == Ok::<Option<&[u8]>, ZstdError>(None) && *final(self) == *old(self),
            !old(self).is_finished() && old(self).pending().len() > 0 ==> view is Ok && *final(self) == *old(self),
            match view {
                Ok(Some(bytes)) => {
                    &&& bytes@ == final(self).pending()
                    &&& 0 < bytes@.len() <= final(self).budget()
                    &&& !final(self).is_finished()
                },
                Ok(None) => final(self).is_finished() && final(self).pending().len() == 0,
                Err(e) => {
                    &&& is_source_error(e)
                    &&& !old(self).is_finished() && old(self).pending().len() == 0
                    &&& !final(self).is_finished() && final(self).pending().len() == 0
                },
            },
    ;

    /// Records that a step used the first `count` bytes of the view.
    fn record_bytes_read(&mut self, count: usize)
        requires
            old(self).wf(),
            count <= old(self).pending().len(),
        ensures
            final(self).wf(),
            final(self).pending() == old(self).pending().skip(count as int),
            final(self).budget() == old(self).budget() - count,
            final(self).size() == old(self).size(),
            old(self).is_finished() ==> final(self).is_finished(),
            final(self).is_finished() ==> final(self).pending().len() == 0,
    ;

    /// Whether the source has reported its end.
    fn finished(&self) -> (done: bool)
        requires
            self.wf(),
        ensures
            done == self.is_finished(),
            done ==> self.pending().len() == 0,
            self.pending().len() <= self.budget(),
    ;
}

/// A source over a buffer that is all there from the start.
pub struct BufferSource {
    buffer: Vec<u8>,
    offset: usize,
}

impl BufferSource {
    /// The bytes the source was made over.
    pub closed spec fn data(self) -> Seq<u8> {
        self.buffer@
    }

    /// How many bytes have been recorded as read.
    pub closed spec fn position(self) -> nat {
        self.offset as nat
    }

    /// A source has finished exactly when nothing of its buffer is left,
    /// and what is left is what can still be recorded as read: the buffer
    /// from the position on.
    pub proof fn lemma_left(self)
        requires
            self.wf(),
        ensures
            self.is_finished() <==> self.pending().len() == 0,
            self.budget() == self.pending().len(),
            self.position() <= self.data().len(),
            self.pending() == self.data().skip(self.position() as int),
            self.size() == Some(self.data().len() as usize),
    {
    }

    /// A source at the start of `buffer`.
    pub fn new(buffer: Vec<u8>) -> (source: BufferSource)
        ensures
            source.wf(),
            source.data() == buffer@,
            source.position() == 0,
            source.pending() == buffer@,
            source.budget() == buffer@.len(),
            source.is_finished() == (buffer@.len() == 0),
            source.size() == Some(buffer.len()),
    {
        BufferSource { buffer, offset: 0 }
    }
}

impl InBufferSource for BufferSource {
    closed spec fn wf(&self) -> bool {
        self.offset <= self.buffer@.len()
    }

    closed spec fn pending(&self) -> Seq<u8> {
        if self.offset <= self.buffer@.len() {
            self.buffer@.skip(self.offset as int)
        } else {
            Seq::empty()
        }
    }

    closed spec fn is_finished(&self) -> bool {
        self.offset >= self.buffer@.len()
    }

    closed spec fn budget(&self) -> nat {
        if self.offset <= self.buffer@.len() {
            (self.buffer@.len() - self.offset) as nat
        } else {
            0
        }
    }

    closed spec fn size(&self) -> Option<usize> {
        Some(self.buffer.len())
    }

    fn source_size(&self) -> (size: Option<usize>) {
        Some(self.buffer.len())
    }

    fn input_buffer(&mut self) -> (view: Result<Option<&[u8]>, ZstdError>)
        ensures
            view is Ok,
            *final(self) == *old(self),
            view matches Ok(None) <==> old(self).pending().len() == 0,
    {
        if self.offset >= self.buffer.len() {
            Ok(None)
        } else {
            let bytes = vstd::slice::slice_subrange(self.buffer.as_slice(), self.offset, self.buffer.len());
            assert(bytes@ =~= self.buffer@.skip(self.offset as int));
            Ok(Some(bytes))
        }
    }

    fn record_bytes_read(&mut self, count: usize)
        ensures
            final(self).data() == old(self).data(),
            final(self).position() == old(self).position() + count,
    {
        let ghost before = self.pending();
        assert(before.len() == self.buffer.len() - self.offset);
        self.offset = self.offset + count;
        assert(self.pending() =~= before.skip(count as int));
    }

    fn finished(&self) -> (done: bool) {
        self.offset >= self.buffer.len()
    }
}

/// A chunk that was pulled, and how much of it has been used.
struct Chunk {
    data: Vec<u8>,
    offset: usize,
}

impl Chunk {
    spec fn rest(self) -> Seq<u8> {
        if self.offset <= self.data@.len() {
            self.data@.skip(self.offset as int)
        } else {
            Seq::empty()
        }
    }
}

/// A source that pulls its input from a reader, one chunk at a time.
pub struct ReadSource<R: ReadCallback> {
    reader: R,
    read_size: usize,
    chunk: Chunk,
    ended: bool,
    consumed: usize,
}

impl<R: ReadCallback> ReadSource<R> {
    /// The reader that the source pulls from.
    pub closed spec fn callback(self) -> R {
        self.reader
    }

    /// The size asked of the reader at each pull.
    pub closed spec fn chunk_size(self) -> usize {
        self.read_size
    }

    /// How many bytes have been recorded as read, over all chunks.
    pub closed spec fn position(self) -> nat {
        self.consumed as nat
    }

    /// A source that has pulled nothing yet and asks `reader` for `read_size`
    /// bytes at a time.
    pub fn new(reader: R, read_size: usize) -> (source: ReadSource<R>)
        ensures
            source.wf(),
            source.callback() == reader,
            source.chunk_size() == read_size,
            source.position() == 0,
            source.pending().len() == 0,
            !source.is_finished(),
            source.budget() == usize::MAX,
            source.size() == None::<usize>,
    {
        ReadSource { reader, read_size, chunk: Chunk { data: Vec::new(), offset: 0 }, ended: false, consumed: 0 }
    }

    /// The length of a reader's data is never known in advance.
    pub proof fn lemma_no_size(self)
        ensures
            self.size() is None,
    {
    }

    /// Gives the reader back.
    pub fn into_reader(self) -> (reader: R)
        ensures
            reader == self.callback(),
    {
        self.reader
    }

    /// Takes what the reader has delivered for a source that is not
    /// finished and has no input in hand.
    ///
    /// No bytes mean that the data has ended: the source has finished. Bytes
    /// that can still be counted become the chunk in hand, and the view is
    /// all of them. More bytes than can be counted are refused with
    /// `SourceTooLong`, and the source stays as it was.
    pub fn accept(&mut self, data: Vec<u8>) -> (view: Result<Option<&[u8]>, ZstdError>)
        requires
            old(self).wf(),
            !old(self).is_finished(),
            old(self).pending().len() == 0,
        ensures
            final(self).wf(),
            final(self).callback() == old(self).callback(),
            final(self).chunk_size() == old(self).chunk_size(),
            final(self).position() == old(self).position(),
            final(self).budget() == old(self).budget(),
            data@.len() == 0 ==> view == Ok::<Option<&[u8]>, ZstdError>(None) && final(self).is_finished()
                && final(self).pending().len() == 0,
            0 < data@.len() <= old(self).budget() ==> (view matches Ok(Some(bytes)) && bytes@ == data@)
                && final(self).pending() == data@ && !final(self).is_finished(),
            data@.len() > old(self).budget() ==> view == Err::<Option<&[u8]>, ZstdError>(ZstdError::SourceTooLong)
                && *final(self) == *old(self),
    {
        if data.len() == 0 {
            self.ended = true;
            return Ok(None);
        }
        if data.len() > usize::MAX - self.consumed {
            return Err(ZstdError::SourceTooLong);
        }
        self.chunk = Chunk { data, offset: 0 };
        let bytes = self.chunk.data.as_slice();
        assert(bytes@ =~= self.chunk.rest());
        Ok(Some(bytes))
    }
}

impl<R: ReadCallback> InBufferSource for ReadSource<R> {
    closed spec fn wf(&self) -> bool {
        &&& self.chunk.offset <= self.chunk.data@.len()
        &&& self.chunk.data@.len() - self.chunk.offset <= usize::MAX - self.consumed
        &&& self.ended ==> self.chunk.offset == self.chunk.data@.len()
    }

    closed spec fn pending(&self) -> Seq<u8> {
        self.chunk.rest()
    }

    closed spec fn is_finished(&self) -> bool {
        self.ended
    }

    closed spec fn budget(&self) -> nat {
        (usize::MAX - self.consumed) as nat
    }

    closed spec fn size(&self) -> Option<usize> {
        None
    }

    fn source_size(&self) -> (size: Option<usize>) {
        None
    }

    fn input_buffer(&mut self) -> (view: Result<Option<&[u8]>, ZstdError>)
        ensures
            final(self).chunk_size() == old(self).chunk_size(),
            final(self).position() == old(self).position(),
            old(self).pending().len() > 0 ==> *final(self) == *old(self),
    {
        if self.ended {
            return Ok(None);
        }
        if self.chunk.offset >= self.chunk.data.len() {
            assert(self.pending().len() == 0);
            return match self.reader.read(self.read_size) {
                Ok(data) => self.accept(data),
                Err(code) => Err(ZstdError::Source { code }),
            };
        }
        let bytes = vstd::slice::slice_subrange(
            self.chunk.data.as_slice(),
            self.chunk.offset,
            self.chunk.data.len(),
        );
        assert(bytes@ =~= self.chunk.rest());
        Ok(Some(bytes))
    }

    fn record_bytes_read(&mut self, count: usize)
        ensures
            final(self).is_finished() == old(self).is_finished(),
            final(self).position() == old(self).position() + count,
            final(self).chunk_size() == old(self).chunk_size(),
            final(self).callback() == old(self).callback(),
    {
        let ghost before = self.pending();
        assert(before.len() == self.chunk.data.len() - self.chunk.offset);
        self.chunk.offset = self.chunk.offset + count;
        self.consumed = self.consumed + count;
        assert(self.pending() =~= before.skip(count as int));
    }

    fn finished(&self) -> (done: bool) {
        self.ended
    }
}

/// A source of either kind: one that pulls from a reader, or one over a
/// buffer that is all there.
pub enum AnySource<R: ReadCallback> {
    Read(ReadSource<R>),
    Buffer(BufferSource),
}

/// The source for what a caller handed in: a reader is pulled from with
/// reads of `read_size` bytes; without a reader the buffer is walked; with
/// neither there is no source, and the result is `None`.
pub fn make_in_buffer_source<R: ReadCallback>(reader: Option<R>, buffer: Option<Vec<u8>>, read_size: usize) -> (source:
    Option<AnySource<R>>)
    ensures
        match source {
            Some(AnySource::Read(s)) => reader is Some && s.wf() && s.callback() == reader->0 && s.chunk_size()
                == read_size && s.position() == 0,
            Some(AnySource::Buffer(s)) => reader is None && buffer is Some && s.wf() && s.data() == buffer->0@
                && s.position() == 0,
            None => reader is None && buffer is None,
        },
        source matches Some(s) ==> {
            &&& s.wf()
            &&& s.size() == (if reader is Some {
                None
            } else {
                Some(buffer->0@.len() as usize)
            })
            &&& s.pending() == (if reader is Some {
                Seq::<u8>::empty()
            } else {
                buffer->0@
            })
            &&& s.is_finished() == (reader is None && buffer->0@.len() == 0)
            &&& s.budget() == (if reader is Some {
                usize::MAX as nat
            } else {
                buffer->0@.len()
            })
        },
{
    match reader {
        Some(reader) => Some(AnySource::Read(ReadSource::new(reader, read_size))),
        None => match buffer {
            Some(buffer) => Some(AnySource::Buffer(BufferSource::new(buffer))),
            None => None,
        },
    }
}

impl<R: ReadCallback> InBufferSource for AnySource<R> {
    open spec fn wf(&self) -> bool {
        match self {
            AnySource::Read(s) => s.wf(),
            AnySource::Buffer(s) => s.wf(),
        }
    }

    open spec fn pending(&self) -> Seq<u8> {
        match self {
            AnySource::Read(s) => s.pending(),
            AnySource::Buffer(s) => s.pending(),
        }
    }

    open spec fn is_finished(&self) -> bool {
        match self {
            AnySource::Read(s) => s.is_finished(),
            AnySource::Buffer(s) => s.is_finished(),
        }
    }

    open spec fn budget(&self) -> nat {
        match self {
            AnySource::Read(s) => s.budget(),
            AnySource::Buffer(s) => s.budget(),
        }
    }

    open spec fn size(&self) -> Option<usize> {
        match self {
            AnySource::Read(s) => s.size(),
            AnySource::Buffer(s) => s.size(),
        }
    }

    fn source_size(&self) -> (size: Option<usize>) {
        match self {
            AnySource::Read(s) => s.source_size(),
            AnySource::Buffer(s) => s.source_size(),
        }
    }

    fn input_buffer(&mut self) -> (view: Result<Option<&[u8]>, ZstdError>) {
        match self {
            AnySource::Read(s) => s.input_buffer(),
            AnySource::Buffer(s) => s.input_buffer(),
        }
    }

    fn record_bytes_read(&mut self, count: usize) {
        match self {
            AnySource::Read(s) => s.record_bytes_read(count),
            AnySource::Buffer(s) => s.record_bytes_read(count),
        }
    }

    fn finished(&self) -> (done: bool) {
        match self {
            AnySource::Read(s) => s.finished(),
            AnySource::Buffer(s) => s.finished(),
        }
    }
}

} // verus!
