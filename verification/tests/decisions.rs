use zstandard::batch::{collect_results, resolve_pool_size, worker_slot, Direction, WorkerError, WorkerResult};
use zstandard::buffers::{ZstdBufferWithSegments, ZstdBufferWithSegmentsCollection};
use zstandard::compression_chunker::ZstdCompressionChunker;
use zstandard::compression_dict::{ZstdCompressionDict, DICT_MAGIC};
use zstandard::compression_parameters::{Keyword, ZstdCompressionParameters};
use zstandard::compression_reader::ZstdCompressionReader;
use zstandard::compression_writer::ZstdCompressionWriter;
use zstandard::compressor::{check_level, resolve_threads, ZstdCompressor};
use zstandard::compressor_iterator::{after_end, after_feed, AfterEnd, AfterFeed};
use zstandard::constants::FLUSH_FRAME;
use zstandard::decompression_reader::ZstdDecompressionReader;
use zstandard::decompression_writer::ZstdDecompressionWriter;
use zstandard::decompressionobj::ZstdDecompressionObj;
use zstandard::decompressor::ZstdDecompressor;
use zstandard::decompressor_iterator::{after_step, AfterStep, Next, ZstdDecompressorIterator};
use zstandard::decompressor_multi::{decompress_from_datasources, multi_decompress_to_buffer, DataSource};
use zstandard::exceptions::{Setting, ZstdError};
use zstandard::stream::{make_in_buffer_source, AnySource, BufferSource, InBufferSource, ReadCallback, ReadSource};
use zstandard::zstd_safe::{CCtx, DCtx};

struct Script {
    answers: Vec<Result<Vec<u8>, usize>>,
    asked: Vec<usize>,
}

impl Script {
    fn new(answers: Vec<Result<Vec<u8>, usize>>) -> Self {
        Script { answers, asked: Vec::new() }
    }
}

impl ReadCallback for Script {
    fn read(&mut self, size: usize) -> Result<Vec<u8>, usize> {
        self.asked.push(size);
        if self.answers.is_empty() {
            Ok(Vec::new())
        } else {
            self.answers.remove(0)
        }
    }
}

fn frame(data: &[u8]) -> Vec<u8> {
    ZstdCompressor::new(3, None, None, None, None, None, 0).unwrap().compress(data).unwrap()
}

fn noise(len: usize) -> Vec<u8> {
    let mut state: u32 = 12345;
    (0..len)
        .map(|_| {
            state = state.wrapping_mul(1664525).wrapping_add(1013904223);
            (state >> 24) as u8
        })
        .collect()
}

#[test]
fn a_feeding_step_is_followed_by_output_a_failure_or_more_input() {
    assert_eq!(after_feed(0, 5), AfterFeed::Emit);
    assert_eq!(after_feed(9, 5), AfterFeed::Emit);
    assert_eq!(after_feed(0, 0), AfterFeed::Stalled);
    assert_eq!(after_feed(9, 0), AfterFeed::Again);
}

#[test]
fn an_ending_step_finishes_when_nothing_is_left() {
    assert_eq!(after_end(0, 0), AfterEnd { finished: true, emit: false });
    assert_eq!(after_end(0, 7), AfterEnd { finished: true, emit: true });
    assert_eq!(after_end(3, 7), AfterEnd { finished: false, emit: true });
    assert_eq!(after_end(3, 0), AfterEnd { finished: false, emit: false });
}

#[test]
fn a_decompression_step_notes_the_end_of_a_frame() {
    assert_eq!(after_step(4, 6, 0), AfterStep { frame_ended: true, next: Next::Emit });
    assert_eq!(after_step(4, 6, 2), AfterStep { frame_ended: false, next: Next::Emit });
    assert_eq!(after_step(4, 0, 2), AfterStep { frame_ended: false, next: Next::Again });
    assert_eq!(after_step(4, 0, 0), AfterStep { frame_ended: true, next: Next::Again });
    assert_eq!(after_step(0, 0, 2), AfterStep { frame_ended: false, next: Next::Stalled });
}

#[test]
fn a_pull_source_takes_what_the_reader_delivers() {
    let mut source = ReadSource::new(Script::new(vec![]), 16);
    assert_eq!(source.accept(b"abc".to_vec()), Ok(Some(&b"abc"[..])));
    assert!(!source.finished());
    source.record_bytes_read(3);
    assert!(!source.finished());
    assert_eq!(source.accept(Vec::new()), Ok(None));
    assert!(source.finished());
    assert_eq!(source.input_buffer(), Ok(None));
    assert!(source.into_reader().asked.is_empty());
}

#[test]
fn a_pull_source_reads_once_for_each_chunk() {
    let script = Script::new(vec![Ok(b"hello".to_vec()), Ok(b"you".to_vec()), Ok(Vec::new())]);
    let mut source = ReadSource::new(script, 8);
    assert_eq!(source.source_size(), None);
    assert_eq!(source.input_buffer(), Ok(Some(&b"hello"[..])));
    assert_eq!(source.input_buffer(), Ok(Some(&b"hello"[..])));
    source.record_bytes_read(2);
    assert_eq!(source.input_buffer(), Ok(Some(&b"llo"[..])));
    source.record_bytes_read(3);
    assert!(!source.finished());
    assert_eq!(source.input_buffer(), Ok(Some(&b"you"[..])));
    source.record_bytes_read(3);
    assert_eq!(source.input_buffer(), Ok(None));
    assert!(source.finished());
    assert_eq!(source.input_buffer(), Ok(None));
    assert_eq!(source.into_reader().asked, vec![8, 8, 8]);
}

#[test]
fn a_failed_read_leaves_the_pull_source_as_it_was() {
    let script = Script::new(vec![Err(42), Ok(b"late".to_vec())]);
    let mut source = ReadSource::new(script, 4);
    assert_eq!(source.input_buffer(), Err(ZstdError::Source { code: 42 }));
    assert!(!source.finished());
    assert_eq!(source.input_buffer(), Ok(Some(&b"late"[..])));
    assert_eq!(source.into_reader().asked, vec![4, 4]);
}

#[test]
fn a_buffer_source_has_nothing_exactly_at_its_end() {
    let mut source = BufferSource::new(b"abcd".to_vec());
    assert_eq!(source.source_size(), Some(4));
    assert!(!source.finished());
    assert_eq!(source.input_buffer(), Ok(Some(&b"abcd"[..])));
    source.record_bytes_read(3);
    assert_eq!(source.input_buffer(), Ok(Some(&b"d"[..])));
    assert!(!source.finished());
    source.record_bytes_read(1);
    assert!(source.finished());
    assert_eq!(source.input_buffer(), Ok(None));
    let mut empty = BufferSource::new(Vec::new());
    assert!(empty.finished());
    assert_eq!(empty.input_buffer(), Ok(None));
}

#[test]
fn a_new_source_knows_its_size_and_its_end() {
    let pulled = make_in_buffer_source(Some(Script::new(vec![])), Some(b"xy".to_vec()), 32).unwrap();
    assert!(matches!(pulled, AnySource::Read(_)));
    assert_eq!(pulled.source_size(), None);
    assert!(!pulled.finished());
    let walked = make_in_buffer_source::<Script>(None, Some(b"xy".to_vec()), 32).unwrap();
    assert!(matches!(walked, AnySource::Buffer(_)));
    assert_eq!(walked.source_size(), Some(2));
    assert!(!walked.finished());
    let empty = make_in_buffer_source::<Script>(None, Some(Vec::new()), 32).unwrap();
    assert_eq!(empty.source_size(), Some(0));
    assert!(empty.finished());
    assert!(make_in_buffer_source::<Script>(None, None, 32).is_none());
}

#[test]
fn the_dictionary_id_stands_behind_the_magic() {
    assert_eq!(DICT_MAGIC, 0xEC30A437);
    let mut data = vec![0x37, 0xA4, 0x30, 0xEC, 0x78, 0x56, 0x34, 0x12];
    assert_eq!(ZstdCompressionDict::new(data.clone(), None).unwrap().dict_id(), 0x12345678);
    data.extend_from_slice(b"and the rest of it");
    assert_eq!(ZstdCompressionDict::new(data.clone(), None).unwrap().dict_id(), 0x12345678);
    assert_eq!(ZstdCompressionDict::new(data[..7].to_vec(), None).unwrap().dict_id(), 0);
    data[0] = 0x38;
    assert_eq!(ZstdCompressionDict::new(data, None).unwrap().dict_id(), 0);
    assert_eq!(ZstdCompressionDict::new(Vec::new(), None).unwrap().dict_id(), 0);
    assert_eq!(ZstdCompressionDict::new(b"raw content, no header".to_vec(), None).unwrap().dict_id(), 0);
}

#[test]
fn a_level_above_the_largest_is_refused() {
    assert_eq!(check_level(22, 22), Ok(()));
    assert_eq!(check_level(-5, 22), Ok(()));
    assert_eq!(check_level(23, 22), Err(ZstdError::LevelTooHigh { max: 22 }));
    assert_eq!(
        ZstdCompressor::with_limits(10, 1, 11, None, None, None, None, None, 0).err(),
        Some(ZstdError::LevelTooHigh { max: 10 })
    );
    assert!(ZstdCompressor::with_limits(10, 1, 10, None, None, None, None, None, 0).is_ok());
    let max = zstd_safe::max_c_level();
    assert_eq!(
        ZstdCompressor::new(max + 1, None, None, None, None, None, 0).err(),
        Some(ZstdError::LevelTooHigh { max })
    );
    assert!(ZstdCompressor::new(max, None, None, None, None, None, 0).is_ok());
}

#[test]
fn the_level_is_looked_at_before_a_conflict() {
    let level = Keyword { name: "compression_level".to_string(), value: 2 };
    let set = ZstdCompressionParameters::set_parameters(&vec![level]).unwrap();
    assert_eq!(
        ZstdCompressor::with_limits(10, 4, 11, None, Some(&set), Some(true), None, None, -1).err(),
        Some(ZstdError::LevelTooHigh { max: 10 })
    );
    assert_eq!(
        ZstdCompressor::with_limits(10, 4, 3, None, Some(&set), None, None, Some(false), -1).err(),
        Some(ZstdError::ParametersConflict { setting: Setting::WriteDictId })
    );
    assert_eq!(
        ZstdCompressor::with_limits(10, 4, 3, None, Some(&set), None, None, None, -1).err(),
        Some(ZstdError::ParametersConflict { setting: Setting::Threads })
    );
    assert!(ZstdCompressor::with_limits(10, 4, 3, None, Some(&set), None, None, None, 0).is_ok());
}

#[test]
fn a_negative_number_of_threads_stands_for_all_processors() {
    assert_eq!(resolve_threads(0, 8), 0);
    assert_eq!(resolve_threads(3, 8), 3);
    assert_eq!(resolve_threads(-1, 8), 8);
    assert_eq!(resolve_threads(-7, 1), 1);
    assert_eq!(resolve_threads(-1, usize::MAX), i32::MAX);
}

#[test]
fn a_batch_runs_with_at_least_one_context_and_no_more_than_inputs() {
    assert_eq!(resolve_pool_size(0, 5), 1);
    assert_eq!(resolve_pool_size(4, 0), 1);
    assert_eq!(resolve_pool_size(3, 5), 3);
    assert_eq!(resolve_pool_size(5, 5), 5);
    assert_eq!(resolve_pool_size(9, 5), 5);
}

#[test]
fn a_worker_uses_the_context_of_its_thread() {
    assert_eq!(worker_slot(Some(0), 4), 0);
    assert_eq!(worker_slot(Some(3), 4), 3);
    assert_eq!(worker_slot(Some(4), 4), 0);
    assert_eq!(worker_slot(None, 4), 0);
    assert_eq!(worker_slot(Some(7), 1), 0);
}

#[test]
fn the_decompressor_iterator_stays_at_its_end() {
    let source = BufferSource::new(frame(b"some content to hand out"));
    let mut it = ZstdDecompressorIterator::new(DCtx::new().unwrap(), source, 7, 0).unwrap();
    let mut all = Vec::new();
    while let Some(chunk) = it.next().unwrap() {
        assert!(!chunk.is_empty() && chunk.len() <= 7);
        all.extend(chunk);
    }
    assert_eq!(all, b"some content to hand out");
    assert_eq!(it.next(), Ok(None));
    assert_eq!(it.next(), Ok(None));
    let cut = frame(&noise(300));
    let source = BufferSource::new(cut[..cut.len() - 40].to_vec());
    let mut it = ZstdDecompressorIterator::new(DCtx::new().unwrap(), source, 64, 0).unwrap();
    while let Some(chunk) = it.next().unwrap() {
        assert!(!chunk.is_empty());
    }
    assert_eq!(it.next(), Ok(None));
    assert_eq!(it.next(), Ok(None));
}

#[test]
fn skipping_past_the_end_of_the_source_is_refused() {
    let source = BufferSource::new(Vec::new());
    assert_eq!(
        ZstdDecompressorIterator::new(DCtx::new().unwrap(), source, 8, 1).err(),
        Some(ZstdError::SkipBytesBeyondChunk)
    );
    let source = BufferSource::new(b"abc".to_vec());
    assert_eq!(
        ZstdDecompressorIterator::new(DCtx::new().unwrap(), source, 8, 4).err(),
        Some(ZstdError::SkipBytesBeyondChunk)
    );
}

#[test]
fn held_output_is_the_start_of_the_next_chunk() {
    let data = noise(1000);
    let whole = frame(&data);
    let cctx = CCtx::new().unwrap();
    let mut chunker = ZstdCompressionChunker::new(cctx, 64).unwrap();
    let mut out = Vec::new();
    for piece in data.chunks(100) {
        chunker.compress(piece.to_vec()).unwrap();
        while let Some(chunk) = chunker.next_chunk().unwrap() {
            assert_eq!(chunk.len(), 64);
            out.extend(chunk);
        }
    }
    chunker.finish().unwrap();
    let mut last = false;
    while let Some(chunk) = chunker.next_chunk().unwrap() {
        assert!(!last && !chunk.is_empty() && chunk.len() <= 64);
        last = chunk.len() < 64;
        out.extend(chunk);
    }
    let mut d = ZstdDecompressor::new(None, 0, 0).unwrap();
    assert_eq!(d.decompress(&out, data.len()).unwrap(), data);
    assert!(out.len() >= whole.len() / 2);
}

#[test]
fn a_read_of_everything_after_the_end_is_empty() {
    let mut both = frame(b"first");
    both.extend(frame(b"second"));
    let source = BufferSource::new(both);
    let mut reader = ZstdDecompressionReader::new(DCtx::new().unwrap(), source, false, true);
    assert_eq!(reader.read(Some(-1)), Ok(b"first".to_vec()));
    assert_eq!(reader.tell(), 5);
    assert_eq!(reader.read(Some(-1)), Ok(Vec::new()));
    assert_eq!(reader.read(None), Ok(Vec::new()));
    assert_eq!(reader.readall(), Ok(Vec::new()));
    assert_eq!(reader.read(Some(10)), Ok(Vec::new()));
    assert_eq!(reader.read1(Some(-1)), Ok(Vec::new()));
    assert_eq!(reader.seek(100, None), Ok(5));
    assert_eq!(reader.tell(), 5);
    let source = BufferSource::new(b"input".to_vec());
    let mut reader = ZstdCompressionReader::new(CCtx::new().unwrap(), source, 0, true).unwrap();
    let all = reader.read(-1).unwrap();
    assert!(!all.is_empty());
    let end = reader.tell();
    assert_eq!(reader.read(-1), Ok(Vec::new()));
    assert_eq!(reader.readall(), Ok(Vec::new()));
    assert_eq!(reader.read1(-1), Ok(Vec::new()));
    assert_eq!(reader.tell(), end);
}

#[test]
fn only_a_closed_stream_says_that_it_is_closed() {
    let source = BufferSource::new(frame(b"abc"));
    let mut reader = ZstdDecompressionReader::new(DCtx::new().unwrap(), source, false, true);
    assert_eq!(reader.read(Some(-2)), Err(ZstdError::NegativeReadSize));
    assert_eq!(reader.read1(Some(-2)), Err(ZstdError::NegativeReadSize));
    assert_eq!(reader.seek(-1, None), Err(ZstdError::SeekNegative));
    assert_eq!(reader.read(Some(2)), Ok(b"ab".to_vec()));
    assert_eq!(reader.seek(1, None), Err(ZstdError::SeekBackwards));
    assert_eq!(reader.seek(3, None), Ok(3));
    reader.close();
    assert_eq!(reader.read(Some(-2)), Err(ZstdError::StreamClosed));
    assert_eq!(reader.read(Some(0)), Err(ZstdError::StreamClosed));
    assert_eq!(reader.seek(5, None), Err(ZstdError::StreamClosed));
    let mut writer = ZstdCompressionWriter::new(CCtx::new().unwrap(), 3, 32, true, true).unwrap();
    let mut out = Vec::new();
    assert_eq!(writer.write(b"abc", &mut out), Ok(3));
    assert_eq!(writer.flush(9, &mut out).err(), Some(ZstdError::UnknownFlushMode { mode: 9 }));
    assert!(writer.flush(FLUSH_FRAME, &mut out).is_ok());
    assert_eq!(writer.close(&mut out), Ok(true));
    assert_eq!(writer.flush(9, &mut out).err(), Some(ZstdError::UnknownFlushMode { mode: 9 }));
    assert_eq!(writer.flush(FLUSH_FRAME, &mut out).err(), Some(ZstdError::StreamClosed));
    assert_eq!(writer.write(b"abc", &mut out), Err(ZstdError::StreamClosed));
    let mut sink = ZstdDecompressionWriter::new(DCtx::new().unwrap(), 32, true, true);
    let mut content = Vec::new();
    assert_eq!(sink.write(&out.concat(), &mut content), Ok(out.concat().len()));
    assert_eq!(content.concat(), b"abc");
    sink.close();
    assert_eq!(sink.write(b"abc", &mut content), Err(ZstdError::StreamClosed));
    let mut obj = ZstdDecompressionObj::new(DCtx::new().unwrap(), 32, false);
    assert_eq!(obj.decompress(&frame(b"abc")), Ok(b"abc".to_vec()));
    assert_eq!(obj.decompress(b"more"), Err(ZstdError::DecompressObjReused));
}

#[test]
fn an_empty_buffer_makes_no_collection() {
    let filled = ZstdBufferWithSegments::whole(b"abc".to_vec());
    let hollow = ZstdBufferWithSegments::whole(Vec::new());
    let bare = ZstdBufferWithSegments::new(b"abc".to_vec(), &[]).unwrap();
    assert_eq!(ZstdBufferWithSegmentsCollection::new(Vec::new()).err(), Some(ZstdError::CollectionNoArguments));
    assert_eq!(
        ZstdBufferWithSegmentsCollection::new(vec![filled, hollow]).err(),
        Some(ZstdError::CollectionEmptyBuffer)
    );
    assert_eq!(ZstdBufferWithSegmentsCollection::new(vec![bare]).err(), Some(ZstdError::CollectionEmptyBuffer));
    let one = ZstdBufferWithSegments::whole(b"abc".to_vec());
    let two = ZstdBufferWithSegments::whole(b"de".to_vec());
    let collection = ZstdBufferWithSegmentsCollection::new(vec![one, two]).unwrap();
    assert_eq!(collection.buffer_count(), 2);
    assert_eq!(collection.len(), 2);
    assert_eq!(collection.size(), Some(5));
}

#[test]
fn each_result_of_a_batch_is_a_buffer_of_its_own() {
    let frames = [frame(b"foo"), frame(b"barbaz"), frame(b"x")];
    let views: Vec<&[u8]> = frames.iter().map(|f| &f[..]).collect();
    let dctx = DCtx::new().unwrap();
    let collection = multi_decompress_to_buffer(&dctx, &views, None, 4).unwrap();
    assert_eq!(collection.len(), 3);
    assert_eq!(collection.buffer_count(), 3);
    assert_eq!(collection.size(), Some(10));
    assert_eq!(collection.buffer(0).tobytes(), b"foo");
    assert_eq!(collection.buffer(1).tobytes(), b"barbaz");
    assert_eq!(collection.buffer(1).len(), 1);
    assert_eq!(collection.buffer(2).tobytes(), b"x");
    let results = vec![
        WorkerResult { source_offset: 0, outcome: Ok(b"ab".to_vec()) },
        WorkerResult { source_offset: 1, outcome: Ok(b"cde".to_vec()) },
    ];
    let collection = collect_results(&results, Direction::Decompress).unwrap();
    assert_eq!(collection.buffer_count(), 2);
    assert_eq!(collection.size(), Some(5));
    let results = vec![
        WorkerResult { source_offset: 0, outcome: Ok(b"ab".to_vec()) },
        WorkerResult { source_offset: 1, outcome: Ok(Vec::new()) },
    ];
    assert_eq!(collect_results(&results, Direction::Compress).err(), Some(ZstdError::CollectionEmptyBuffer));
    let results = vec![
        WorkerResult { source_offset: 0, outcome: Ok(Vec::new()) },
        WorkerResult { source_offset: 1, outcome: Err(WorkerError::NoSize) },
    ];
    assert_eq!(collect_results(&results, Direction::Decompress).err(), Some(ZstdError::ItemNoSize { index: 1 }));
}

#[test]
fn the_first_frame_without_a_size_fails_the_batch() {
    let good = frame(b"content");
    let sources = vec![
        DataSource { data: &good, decompressed_size: 0 },
        DataSource { data: b"no frame", decompressed_size: 0 },
        DataSource { data: b"neither", decompressed_size: 0 },
    ];
    let dctx = DCtx::new().unwrap();
    for workers in 0..5 {
        assert_eq!(
            decompress_from_datasources(&dctx, &sources, workers).err(),
            Some(ZstdError::ItemNoSize { index: 1 })
        );
    }
    let none: Vec<DataSource<'_>> = Vec::new();
    assert_eq!(decompress_from_datasources(&dctx, &none, 3).err(), Some(ZstdError::CollectionNoArguments));
}

#[test]
fn a_copy_is_made_of_rounds() {
    let data = noise(5000);
    let mut c = ZstdCompressor::new(3, None, None, None, None, None, 0).unwrap();
    let mut reader = Script::new(data.chunks(1000).map(|piece| Ok(piece.to_vec())).collect());
    let mut whole = Vec::new();
    let (read, written) = c.copy_stream(&mut reader, &mut whole, None, Some(1000), Some(100)).unwrap();
    assert_eq!(read, 5000);
    assert_eq!(written, whole.concat().len());
    assert!(whole.iter().all(|chunk| !chunk.is_empty() && chunk.len() <= 100));
    assert_eq!(reader.asked, vec![1000; 6]);
    let mut reader = Script::new(data.chunks(1000).map(|piece| Ok(piece.to_vec())).collect());
    let mut rounds = Vec::new();
    let mut total = 0;
    c.copy_begin(None).unwrap();
    loop {
        let before = rounds.len();
        let (read, written) = c.copy_round(&mut reader, &mut rounds, 1000, 100).unwrap();
        assert_eq!(written, rounds[before..].concat().len());
        total += read;
        if read == 0 {
            break;
        }
    }
    assert_eq!(total, 5000);
    assert_eq!(rounds.concat(), whole.concat());
    let mut d = ZstdDecompressor::new(None, 0, 0).unwrap();
    let mut reader = Script::new(whole.concat().chunks(300).map(|piece| Ok(piece.to_vec())).collect());
    let mut content = Vec::new();
    let (read, written) = d.copy_stream(&mut reader, &mut content, Some(300), Some(512)).unwrap();
    assert_eq!(read, whole.concat().len());
    assert_eq!(written, 5000);
    assert_eq!(content.concat(), data);
    assert_eq!(d.copy_data(b"", &mut content, 512), Ok(0));
    let mut failing = Script::new(vec![Ok(whole.concat()[..50].to_vec()), Err(3)]);
    let mut partial = Vec::new();
    assert_eq!(d.copy_stream(&mut failing, &mut partial, None, None), Err(ZstdError::Source { code: 3 }));
}
