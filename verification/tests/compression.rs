use zstandard::compression_chunker::{after_flush, AfterFlush, ZstdCompressionChunker};
use zstandard::compression_reader::ZstdCompressionReader;
use zstandard::compression_writer::ZstdCompressionWriter;
use zstandard::compressionobj::ZstdCompressionObj;
use zstandard::compressor::ZstdCompressor;
use zstandard::compressor_iterator::ZstdCompressorIterator;
use zstandard::constants::{FLUSH_BLOCK, FLUSH_FRAME};
use zstandard::decompressor::ZstdDecompressor;
use zstandard::exceptions::{ChunkerOp, ZstdError};
use zstandard::stream::{BufferSource, ReadCallback, ReadSource};
use zstandard::zstd_safe::{CCtx, DCtx, EndDirective};

struct SliceReader {
    data: Vec<u8>,
    pos: usize,
    reads: usize,
}

impl SliceReader {
    fn new(data: &[u8]) -> Self {
        SliceReader { data: data.to_vec(), pos: 0, reads: 0 }
    }
}

impl ReadCallback for SliceReader {
    fn read(&mut self, size: usize) -> Result<Vec<u8>, usize> {
        self.reads += 1;
        let end = (self.pos + size).min(self.data.len());
        let out = self.data[self.pos..end].to_vec();
        self.pos = end;
        Ok(out)
    }
}

struct FailingReader;

impl ReadCallback for FailingReader {
    fn read(&mut self, _size: usize) -> Result<Vec<u8>, usize> {
        Err(7)
    }
}

fn sample(len: usize) -> Vec<u8> {
    (0..len).map(|i| ((i * 31 + i / 7) % 251) as u8).collect()
}

fn decompress(frame: &[u8]) -> Vec<u8> {
    let mut d = ZstdDecompressor::new(None, 0, 0).unwrap();
    let mut out = Vec::new();
    let mut reader = SliceReader::new(frame);
    d.copy_stream(&mut reader, &mut out, Some(64), Some(64)).unwrap();
    out.concat()
}

fn plain_compressor() -> ZstdCompressor<'static> {
    ZstdCompressor::new(3, None, None, None, None, None, 0).unwrap()
}

#[test]
fn one_shot_round_trip() {
    let mut c = plain_compressor();
    let mut d = ZstdDecompressor::new(None, 0, 0).unwrap();
    for len in [0usize, 1, 9, 100, 5000, 200_000] {
        let data = sample(len);
        let frame = c.compress(&data).unwrap();
        assert!(!frame.is_empty());
        if len > 0 {
            assert_ne!(frame, data);
        }
        assert_eq!(d.decompress(&frame, 0).unwrap(), data);
    }
}

#[test]
fn context_compress_is_one_frame() {
    let mut cctx = CCtx::new().unwrap();
    let data = sample(1000);
    let frame = cctx.compress(&data).unwrap();
    assert_eq!(&frame[..4], &[0x28, 0xb5, 0x2f, 0xfd]);
    assert_eq!(decompress(&frame), data);
    let again = cctx.compress(&data).unwrap();
    assert_eq!(again, frame);
}

#[test]
fn step_bounds_hold() {
    let mut cctx = CCtx::new().unwrap();
    let data = sample(10_000);
    let step = cctx.compress_buffers(&data, 7, EndDirective::End).unwrap();
    assert!(step.consumed <= data.len());
    assert!(step.output.len() <= 7);
    assert!(step.remaining > 0);
    let mut dest = vec![1u8, 2, 3];
    let p = cctx.compress_into_vec(&mut dest, 10, &[], EndDirective::End).unwrap();
    assert_eq!(&dest[..3], &[1, 2, 3]);
    assert_eq!(dest.len(), 3 + p.produced);
    assert!(dest.len() <= 10);
    let mut full = vec![0u8; 5];
    let p = cctx.compress_into_vec(&mut full, 5, &[], EndDirective::End).unwrap();
    assert_eq!(p.produced, 0);
    assert_eq!(full.len(), 5);
}

#[test]
fn compress_chunk_hands_back_the_rest() {
    let mut cctx = CCtx::new().unwrap();
    let data = sample(300_000);
    let (out, rest, _more) = cctx.compress_chunk(&data, EndDirective::Continue, 16).unwrap();
    assert!(out.len() <= 16);
    assert!(rest.len() <= data.len());
    assert_eq!(rest, &data[data.len() - rest.len()..]);
}

fn drain(chunker: &mut ZstdCompressionChunker<'static>) -> Vec<Vec<u8>> {
    let mut chunks = Vec::new();
    while let Some(chunk) = chunker.next_chunk().unwrap() {
        chunks.push(chunk);
    }
    chunks
}

#[test]
fn chunks_of_four_then_a_shorter_one() {
    let cctx = CCtx::new().unwrap();
    let mut chunker = ZstdCompressionChunker::new(cctx, 4).unwrap();
    chunker.compress(b"ABCDEFGHI".to_vec()).unwrap();
    let mut chunks = drain(&mut chunker);
    for chunk in &chunks {
        assert_eq!(chunk.len(), 4);
    }
    chunker.finish().unwrap();
    chunks.extend(drain(&mut chunker));
    assert!(chunks.len() >= 3);
    for chunk in &chunks[..chunks.len() - 1] {
        assert_eq!(chunk.len(), 4);
    }
    let last = chunks.last().unwrap();
    assert!(!last.is_empty() && last.len() <= 4);
    assert_eq!(decompress(&chunks.concat()), b"ABCDEFGHI".to_vec());
}

#[test]
fn chunker_keeps_the_chunk_size_across_calls() {
    let data = sample(70_000);
    for chunk_size in [1usize, 3, 64, 1000, 100_000] {
        let c = plain_compressor();
        let mut chunker = c.chunker(None, Some(chunk_size)).unwrap();
        let mut chunks = Vec::new();
        for piece in data.chunks(9_999) {
            chunker.compress(piece.to_vec()).unwrap();
            let got = drain(&mut chunker);
            for chunk in &got {
                assert_eq!(chunk.len(), chunk_size);
            }
            chunks.extend(got);
        }
        chunker.flush().unwrap();
        let flushed = drain(&mut chunker);
        for chunk in flushed.iter().rev().skip(1) {
            assert_eq!(chunk.len(), chunk_size);
        }
        chunks.extend(flushed);
        chunker.finish().unwrap();
        let finished = drain(&mut chunker);
        for chunk in finished.iter().rev().skip(1) {
            assert_eq!(chunk.len(), chunk_size);
        }
        chunks.extend(finished);
        for chunk in &chunks {
            assert!(!chunk.is_empty() && chunk.len() <= chunk_size);
        }
        assert_eq!(decompress(&chunks.concat()), data);
    }
}

#[test]
fn flush_step_decisions() {
    assert_eq!(after_flush(0, 4, 0), AfterFlush::Ended);
    assert_eq!(after_flush(0, 4, 9), AfterFlush::Ended);
    assert_eq!(after_flush(3, 4, 9), AfterFlush::LastChunk);
    assert_eq!(after_flush(4, 4, 0), AfterFlush::LastChunk);
    assert_eq!(after_flush(4, 4, 9), AfterFlush::Chunk);
}

#[test]
fn chunker_refuses_out_of_turn() {
    assert!(matches!(ZstdCompressionChunker::new(CCtx::new().unwrap(), 0), Err(ZstdError::ZeroBufferSize)));
    let mut chunker = ZstdCompressionChunker::new(CCtx::new().unwrap(), 8).unwrap();
    assert_eq!(chunker.next_chunk().unwrap(), None);
    chunker.compress(b"abc".to_vec()).unwrap();
    assert_eq!(chunker.compress(b"x".to_vec()), Err(ZstdError::ChunkerBusy { op: ChunkerOp::Compress }));
    assert_eq!(chunker.flush(), Err(ZstdError::ChunkerBusy { op: ChunkerOp::Flush }));
    assert_eq!(chunker.finish(), Err(ZstdError::ChunkerBusy { op: ChunkerOp::Finish }));
    drain(&mut chunker);
    chunker.finish().unwrap();
    drain(&mut chunker);
    assert_eq!(chunker.compress(b"x".to_vec()), Err(ZstdError::ChunkerFinished { op: ChunkerOp::Compress }));
    assert_eq!(chunker.flush(), Err(ZstdError::ChunkerFinished { op: ChunkerOp::Flush }));
    assert_eq!(chunker.finish(), Err(ZstdError::ChunkerFinished { op: ChunkerOp::Finish }));
    assert_eq!(chunker.next_chunk().unwrap(), None);
}

#[test]
fn reader_read_of_any_size_gives_the_same_frame() {
    let data = sample(50_000);
    let c = plain_compressor();
    let mut all = c.stream_reader(BufferSource::new(data.clone()), None, true).unwrap();
    let everything = all.read(-1).unwrap();
    assert_eq!(all.tell(), everything.len());
    assert_eq!(decompress(&everything), data);
    assert_eq!(all.read(-1).unwrap(), Vec::<u8>::new());
    for k in [1isize, 2, 7, 100, 4096, 1 << 20] {
        let mut reader = c.stream_reader(BufferSource::new(data.clone()), None, true).unwrap();
        let mut joined = Vec::new();
        loop {
            let chunk = reader.read(k).unwrap();
            assert!(chunk.len() <= k as usize);
            if chunk.is_empty() {
                break;
            }
            joined.extend(chunk);
            assert_eq!(reader.tell(), joined.len());
        }
        assert_eq!(joined, everything);
    }
}

#[test]
fn reader_over_a_callback_source() {
    let data = sample(30_000);
    let c = plain_compressor();
    let source = ReadSource::new(SliceReader::new(&data), 1000);
    let mut reader = c.stream_reader(source, None, false).unwrap();
    let mut joined = Vec::new();
    loop {
        let chunk = reader.read(333).unwrap();
        if chunk.is_empty() {
            break;
        }
        joined.extend(chunk);
    }
    assert_eq!(decompress(&joined), data);
    assert!(!reader.close());
    assert_eq!(reader.read(1), Err(ZstdError::StreamClosed));
}

#[test]
fn reader_refusals_and_empty_reads() {
    let c = plain_compressor();
    let mut reader = c.stream_reader(BufferSource::new(b"hello".to_vec()), None, true).unwrap();
    assert_eq!(reader.read(-2), Err(ZstdError::NegativeReadSize));
    assert_eq!(reader.read1(-2), Err(ZstdError::NegativeReadSize));
    assert_eq!(reader.read(0).unwrap(), Vec::<u8>::new());
    assert_eq!(reader.tell(), 0);
    reader.enter().unwrap();
    assert_eq!(reader.enter(), Err(ZstdError::ReaderEnteredTwice));
    assert!(reader.exit());
    assert!(reader.closed());
    assert!(!reader.close());
    assert_eq!(reader.enter(), Err(ZstdError::StreamClosed));
    assert_eq!(reader.read(5), Err(ZstdError::StreamClosed));
    assert_eq!(reader.readall(), Err(ZstdError::StreamClosed));
    let mut buffer = vec![0u8; 4];
    assert_eq!(reader.readinto(&mut buffer), Err(ZstdError::StreamClosed));
    assert_eq!(reader.readinto1(&mut buffer), Err(ZstdError::StreamClosed));
}

#[test]
fn reader_read1_and_readinto() {
    let data = sample(20_000);
    let c = plain_compressor();
    let mut reader = c.stream_reader(ReadSource::new(SliceReader::new(&data), 512), None, true).unwrap();
    let mut joined = Vec::new();
    loop {
        let chunk = reader.read1(-1).unwrap();
        if chunk.is_empty() {
            break;
        }
        joined.extend(chunk);
    }
    assert_eq!(decompress(&joined), data);

    let mut reader = c.stream_reader(BufferSource::new(data.clone()), None, true).unwrap();
    let mut joined = Vec::new();
    let mut buffer = vec![0xAAu8; 100];
    loop {
        let n = reader.readinto(&mut buffer).unwrap();
        assert_eq!(buffer.len(), 100);
        if n == 0 {
            break;
        }
        joined.extend_from_slice(&buffer[..n]);
    }
    assert_eq!(decompress(&joined), data);

    let mut reader = c.stream_reader(BufferSource::new(data.clone()), None, true).unwrap();
    let mut joined = Vec::new();
    loop {
        let mut buffer = vec![0x55u8; 64];
        let n = reader.readinto1(&mut buffer).unwrap();
        if n == 0 {
            break;
        }
        for byte in &buffer[n..] {
            assert_eq!(*byte, 0x55);
        }
        joined.extend_from_slice(&buffer[..n]);
    }
    assert_eq!(decompress(&joined), data);
}

#[test]
fn source_failure_comes_through() {
    let c = plain_compressor();
    let mut reader = c.stream_reader(ReadSource::new(FailingReader, 10), None, true).unwrap();
    assert_eq!(reader.read(10), Err(ZstdError::Source { code: 7 }));
    let mut it = c.read_to_iter(ReadSource::new(FailingReader, 10), None, Some(10)).unwrap();
    assert_eq!(it.next(), Err(ZstdError::Source { code: 7 }));
}

#[test]
fn writer_round_trip_and_counts() {
    let data = sample(60_000);
    for (write_size, return_read) in [(1usize, true), (5, false), (1000, true), (1 << 17, false)] {
        let c = plain_compressor();
        let mut writer = c.stream_writer(None, Some(write_size), return_read, true).unwrap();
        let mut out = Vec::new();
        for piece in data.chunks(7_000) {
            let before: usize = out.iter().map(|c: &Vec<u8>| c.len()).sum();
            let n = writer.write(piece, &mut out).unwrap();
            let after: usize = out.iter().map(|c: &Vec<u8>| c.len()).sum();
            if return_read {
                assert_eq!(n, piece.len());
            } else {
                assert_eq!(n, after - before);
            }
            assert_eq!(writer.tell(), after);
        }
        let flushed = writer.flush(FLUSH_BLOCK, &mut out).unwrap();
        assert!(flushed.flush_sink);
        assert!(flushed.written > 0);
        assert!(writer.close(&mut out).unwrap());
        for chunk in &out {
            assert!(!chunk.is_empty() && chunk.len() <= write_size);
        }
        let total: usize = out.iter().map(|c| c.len()).sum();
        assert_eq!(writer.tell(), total);
        assert_eq!(decompress(&out.concat()), data);
    }
}

#[test]
fn writer_close_is_idempotent() {
    for closefd in [true, false] {
        let c = plain_compressor();
        let mut writer = c.stream_writer(None, Some(100), true, closefd).unwrap();
        let mut out = Vec::new();
        writer.write(b"some bytes", &mut out).unwrap();
        let mut asked = 0;
        if writer.close(&mut out).unwrap() {
            asked += 1;
        }
        let frame = out.clone();
        let position = writer.tell();
        for _ in 0..5 {
            if writer.close(&mut out).unwrap() {
                asked += 1;
            }
            assert_eq!(out, frame);
            assert_eq!(writer.tell(), position);
            assert!(writer.closed());
        }
        assert_eq!(asked, if closefd { 1 } else { 0 });
        assert_eq!(decompress(&out.concat()), b"some bytes".to_vec());
        assert_eq!(writer.write(b"x", &mut out), Err(ZstdError::StreamClosed));
        assert_eq!(writer.flush(FLUSH_FRAME, &mut out), Err(ZstdError::StreamClosed));
        assert_eq!(writer.flush(9, &mut out), Err(ZstdError::UnknownFlushMode { mode: 9 }));
        assert_eq!(writer.enter(), Err(ZstdError::StreamClosed));
        assert_eq!(out, frame);
    }
}

#[test]
fn writer_scope() {
    let c = plain_compressor();
    let mut writer = c.stream_writer(Some(3), Some(100), true, true).unwrap();
    writer.enter().unwrap();
    assert_eq!(writer.enter(), Err(ZstdError::WriterEnteredTwice));
    let mut out = Vec::new();
    assert_eq!(writer.write(b"abc", &mut out).unwrap(), 3);
    assert_eq!(writer.flush(2, &mut out), Err(ZstdError::UnknownFlushMode { mode: 2 }));
    assert!(writer.exit(&mut out).unwrap());
    assert!(writer.closed());
    assert!(!writer.exit(&mut out).unwrap());
    assert_eq!(decompress(&out.concat()), b"abc".to_vec());
    assert!(writer.memory_size() > 0);
}

#[test]
fn compressobj_round_trip() {
    let data = sample(40_000);
    let c = plain_compressor();
    let mut obj = c.compressobj(None).unwrap();
    let mut frame = Vec::new();
    for piece in data.chunks(3_000) {
        frame.extend(obj.compress(piece).unwrap());
    }
    frame.extend(obj.flush(Some(1)).unwrap());
    frame.extend(obj.compress(b"tail").unwrap());
    assert_eq!(obj.flush(Some(5)), Err(ZstdError::FlushModeNotRecognized));
    frame.extend(obj.flush(None).unwrap());
    assert_eq!(obj.compress(b"x"), Err(ZstdError::CompressAfterFinished));
    assert_eq!(obj.flush(Some(0)), Err(ZstdError::AlreadyFinished));
    assert_eq!(obj.flush(Some(5)), Err(ZstdError::FlushModeNotRecognized));
    let mut expected = data.clone();
    expected.extend_from_slice(b"tail");
    assert_eq!(decompress(&frame), expected);
    let mut direct = ZstdCompressionObj::new(CCtx::new().unwrap());
    let mut frame = direct.compress(b"abc").unwrap();
    frame.extend(direct.flush(Some(0)).unwrap());
    assert_eq!(decompress(&frame), b"abc".to_vec());
}

#[test]
fn compressor_iterator_round_trip() {
    let data = sample(90_000);
    let c = plain_compressor();
    for write_size in [1usize, 33, 5000] {
        let mut it = c.read_to_iter(ReadSource::new(SliceReader::new(&data), 4096), None, Some(write_size)).unwrap();
        let mut frame = Vec::new();
        while let Some(chunk) = it.next().unwrap() {
            assert!(!chunk.is_empty() && chunk.len() <= write_size);
            frame.extend(chunk);
        }
        assert_eq!(it.next().unwrap(), None);
        assert_eq!(decompress(&frame), data);
    }
    let mut it = ZstdCompressorIterator::new(CCtx::new().unwrap(), BufferSource::new(data.clone()), 0, 100).unwrap();
    let mut frame = Vec::new();
    while let Some(chunk) = it.next().unwrap() {
        frame.extend(chunk);
    }
    assert_eq!(zstandard::frame_parameters::frame_content_size(&frame), Ok(data.len() as i64));
    assert_eq!(decompress(&frame), data);
}

#[test]
fn copy_stream_counts_both_ways() {
    let data = sample(123_456);
    let mut c = plain_compressor();
    let mut out = Vec::new();
    let mut reader = SliceReader::new(&data);
    let (read, written) = c.copy_stream(&mut reader, &mut out, None, Some(5000), Some(777)).unwrap();
    assert_eq!(read, data.len());
    assert_eq!(written, out.iter().map(|c| c.len()).sum::<usize>());
    for chunk in &out {
        assert!(!chunk.is_empty() && chunk.len() <= 777);
    }
    let frame = out.concat();
    let mut d = ZstdDecompressor::new(None, 0, 0).unwrap();
    let mut back = Vec::new();
    let mut reader = SliceReader::new(&frame);
    let (read, written) = d.copy_stream(&mut reader, &mut back, Some(100), Some(999)).unwrap();
    assert_eq!(read, frame.len());
    assert_eq!(written, data.len());
    for chunk in &back {
        assert!(!chunk.is_empty() && chunk.len() <= 999);
    }
    assert_eq!(back.concat(), data);
    let mut failing = FailingReader;
    assert_eq!(c.copy_stream(&mut failing, &mut out, None, None, None), Err(ZstdError::Source { code: 7 }));
}

#[test]
fn reader_new_declares_the_source_size() {
    let cctx = CCtx::new().unwrap();
    let mut reader = ZstdCompressionReader::new(cctx, BufferSource::new(b"12345".to_vec()), 99, true).unwrap();
    let frame = reader.read(-1).unwrap();
    assert_eq!(zstandard::frame_parameters::frame_content_size(&frame), Ok(5));
    let cctx = CCtx::new().unwrap();
    let mut writer = ZstdCompressionWriter::new(cctx, 4, 100, true, true).unwrap();
    let mut out = Vec::new();
    assert!(matches!(
        writer.write(b"12345", &mut out),
        Err(ZstdError::Codec { context: zstandard::exceptions::Context::Compress, .. })
    ));
    assert!(writer.close(&mut out).is_err());
    assert!(writer.closed());
    assert!(!writer.close(&mut out).unwrap());
    let mut dctx = DCtx::new().unwrap();
    assert!(dctx.decompress_buffers(b"not a frame at all", 10).is_err());
}

#[test]
fn worker_threads_keep_streams_going() {
    let data = sample(3_000_000);
    let c = ZstdCompressor::new(3, None, None, None, None, None, 2).unwrap();
    let mut writer = c.stream_writer(None, Some(4096), true, true).unwrap();
    let mut out = Vec::new();
    for piece in data.chunks(100_000) {
        assert_eq!(writer.write(piece, &mut out).unwrap(), piece.len());
    }
    assert!(writer.flush(FLUSH_BLOCK, &mut out).unwrap().flush_sink);
    assert!(writer.close(&mut out).unwrap());
    assert_eq!(decompress(&out.concat()), data);

    let mut chunker = c.chunker(None, Some(1000)).unwrap();
    chunker.compress(data.clone()).unwrap();
    let mut chunks = drain(&mut chunker);
    chunker.finish().unwrap();
    chunks.extend(drain(&mut chunker));
    for chunk in &chunks[..chunks.len() - 1] {
        assert_eq!(chunk.len(), 1000);
    }
    assert_eq!(decompress(&chunks.concat()), data);

    let mut reader = c.stream_reader(BufferSource::new(data.clone()), None, true).unwrap();
    let mut joined = Vec::new();
    loop {
        let chunk = reader.read(50_000).unwrap();
        if chunk.is_empty() {
            break;
        }
        joined.extend(chunk);
    }
    assert_eq!(decompress(&joined), data);

    let mut it = c.read_to_iter(ReadSource::new(SliceReader::new(&data), 65_536), None, Some(10_000)).unwrap();
    let mut frame = Vec::new();
    while let Some(chunk) = it.next().unwrap() {
        frame.extend(chunk);
    }
    assert_eq!(decompress(&frame), data);
}

#[test]
fn nothing_in_nothing_out() {
    let c = plain_compressor();
    let mut writer = c.stream_writer(None, Some(100), false, true).unwrap();
    let mut out = Vec::new();
    assert_eq!(writer.write(b"", &mut out), Ok(0));
    assert!(out.is_empty());
    assert_eq!(writer.tell(), 0);
    let mut counting = c.stream_writer(None, Some(100), true, true).unwrap();
    assert_eq!(counting.write(b"", &mut out), Ok(0));
    assert!(out.is_empty());
    let mut obj = c.compressobj(None).unwrap();
    assert_eq!(obj.compress(b"").unwrap(), Vec::<u8>::new());
    let d = ZstdDecompressor::new(None, 0, 0).unwrap();
    let mut decoding = d.stream_writer(Some(100), false, true).unwrap();
    assert_eq!(decoding.write(b"", &mut out), Ok(0));
    assert!(out.is_empty());
    let mut cctx = CCtx::new().unwrap();
    let run = zstandard::drain::compress_to_chunks(&mut cctx, b"", 10, &mut out);
    assert_eq!((run.consumed, run.written, run.fault), (0, 0, None));
    let mut dctx = DCtx::new().unwrap();
    let run = zstandard::drain::decompress_to_chunks(&mut dctx, b"", 10, &mut out);
    assert_eq!((run.consumed, run.written, run.fault), (0, 0, None));
    let run = zstandard::drain::flush_to_chunks(&mut cctx, EndDirective::End, 3, &mut out);
    assert_eq!(run.fault, None);
    assert_eq!(run.written, out.iter().map(|c| c.len()).sum::<usize>());
    assert!(out.iter().all(|c| !c.is_empty() && c.len() <= 3));
    assert_eq!(zstandard::drain::join_chunks(&out), out.concat());
    let mut buffer = vec![1u8, 2, 3, 4];
    zstandard::drain::copy_into(&mut buffer, &vec![9, 8]);
    assert_eq!(buffer, vec![9, 8, 3, 4]);
}
