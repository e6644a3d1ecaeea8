use zstandard::compression_dict::read_dict_id;
use zstandard::compression_reader::{decide_read, decide_read1, ReadNext, ZstdCompressionReader};
use zstandard::compression_writer::ZstdCompressionWriter;
use zstandard::compressor::ZstdCompressor;
use zstandard::decompression_reader::ZstdDecompressionReader;
use zstandard::decompression_writer::ZstdDecompressionWriter;
use zstandard::decompressionobj::ZstdDecompressionObj;
use zstandard::decompressor::ZstdDecompressor;
use zstandard::decompressor_multi::as_listed;
use zstandard::drain::{after_flush_step, compress_to_chunks, flush_to_chunks, is_stalled, FlushNext};
use zstandard::exceptions::{Fault, ZstdError};
use zstandard::stream::{BufferSource, ReadCallback, ReadSource};
use zstandard::zstd_safe::{finish_one_shot, CCtx, DCtx, EndDirective, Step};

struct Counted {
    pieces: Vec<Vec<u8>>,
    reads: usize,
}

impl ReadCallback for Counted {
    fn read(&mut self, _size: usize) -> Result<Vec<u8>, usize> {
        self.reads += 1;
        if self.pieces.is_empty() {
            Ok(Vec::new())
        } else {
            Ok(self.pieces.remove(0))
        }
    }
}

fn noise(len: usize) -> Vec<u8> {
    let mut state: u32 = 2463534242;
    (0..len)
        .map(|_| {
            state ^= state << 13;
            state ^= state >> 17;
            state ^= state << 5;
            (state >> 16) as u8
        })
        .collect()
}

fn frame(data: &[u8]) -> Vec<u8> {
    ZstdCompressor::new(3, None, None, None, None, None, 0).unwrap().compress(data).unwrap()
}

#[test]
fn a_read_returns_when_full_feeds_while_it_can_and_then_ends_the_frame() {
    assert_eq!(decide_read(0, 8, false), ReadNext::Pull);
    assert_eq!(decide_read(3, 8, false), ReadNext::Pull);
    assert_eq!(decide_read(8, 8, false), ReadNext::Return);
    assert_eq!(decide_read(8, 8, true), ReadNext::Return);
    assert_eq!(decide_read(3, 8, true), ReadNext::End);
    assert_eq!(decide_read(0, 8, true), ReadNext::End);
    assert_eq!(decide_read(0, 0, false), ReadNext::Pull);
    assert_eq!(decide_read(0, 0, true), ReadNext::End);
}

#[test]
fn a_first_read_feeds_only_while_it_has_nothing() {
    assert_eq!(decide_read1(0, 8, false), ReadNext::Pull);
    assert_eq!(decide_read1(3, 8, false), ReadNext::Return);
    assert_eq!(decide_read1(8, 8, false), ReadNext::Return);
    assert_eq!(decide_read1(8, 8, true), ReadNext::Return);
    assert_eq!(decide_read1(3, 8, true), ReadNext::End);
    assert_eq!(decide_read1(0, 8, true), ReadNext::End);
    assert_eq!(decide_read1(0, 0, false), ReadNext::Pull);
    assert_eq!(decide_read1(0, 0, true), ReadNext::Return);
}

#[test]
fn a_flush_ends_with_the_step_that_leaves_nothing() {
    assert_eq!(after_flush_step(0, 0), FlushNext::Done);
    assert_eq!(after_flush_step(0, 9), FlushNext::Done);
    assert_eq!(after_flush_step(4, 0), FlushNext::Stalled);
    assert_eq!(after_flush_step(4, 9), FlushNext::Again);
    assert!(is_stalled(0, 0));
    assert!(!is_stalled(1, 0));
    assert!(!is_stalled(0, 1));
}

#[test]
fn one_step_makes_a_frame_unless_it_leaves_data_behind() {
    assert_eq!(finish_one_shot(Step { consumed: 3, output: b"abc".to_vec(), remaining: 0 }), Ok(b"abc".to_vec()));
    assert_eq!(
        finish_one_shot(Step { consumed: 3, output: b"abc".to_vec(), remaining: 1 }),
        Err(Fault::PartialFrameFlush)
    );
    assert_eq!(finish_one_shot(Step { consumed: 0, output: Vec::new(), remaining: 0 }), Ok(Vec::new()));
}

#[test]
fn a_frame_is_no_longer_than_the_bound() {
    let mut c = ZstdCompressor::new(1, None, None, None, None, None, 0).unwrap();
    for len in [0usize, 1, 100, 5000, 200_000] {
        let data = noise(len);
        let frame = c.compress(&data).unwrap();
        assert!(!frame.is_empty());
        assert!(frame.len() <= zstd_safe::compress_bound(len));
        let mut d = ZstdDecompressor::new(None, 0, 0).unwrap();
        assert_eq!(d.decompress(&frame, len.max(1)).unwrap(), data);
    }
}

#[test]
fn the_dictionary_id_is_the_one_the_codec_reads() {
    let mut samples: Vec<Vec<u8>> = vec![
        Vec::new(),
        vec![0x37, 0xA4, 0x30],
        vec![0x37, 0xA4, 0x30, 0xEC, 1, 2, 3],
        vec![0x37, 0xA4, 0x30, 0xEC, 1, 2, 3, 4],
        vec![0x37, 0xA4, 0x30, 0xEC, 0, 0, 0, 0],
        vec![0x37, 0xA4, 0x30, 0xEC, 0xFF, 0xFF, 0xFF, 0xFF, 9, 9],
        vec![0x28, 0xB5, 0x2F, 0xFD, 1, 2, 3, 4],
        vec![0xEC, 0x30, 0xA4, 0x37, 1, 2, 3, 4],
    ];
    samples.push(noise(64));
    for sample in &samples {
        let theirs = zstd_safe::get_dict_id(sample).map_or(0, |id| id.get());
        assert_eq!(read_dict_id(sample), theirs);
    }
    assert_eq!(read_dict_id(&samples[3]), 0x04030201);
    assert_eq!(read_dict_id(&samples[5]), 0xFFFFFFFF);
}

#[test]
fn a_list_of_frames_has_its_own_mismatch() {
    assert_eq!(
        as_listed(ZstdError::SizesMismatch { expected: 2, got: 5 }),
        ZstdError::ListSizesMismatch { expected: 2, got: 5 }
    );
    assert_eq!(as_listed(ZstdError::ThreadPool), ZstdError::ThreadPool);
    assert_eq!(as_listed(ZstdError::ItemNoSize { index: 4 }), ZstdError::ItemNoSize { index: 4 });
    assert_eq!(
        as_listed(ZstdError::SizesMismatch { expected: 2, got: 5 }).message(),
        "decompressed_sizes size mismatch; expected 2; got 5"
    );
    assert_eq!(
        ZstdError::SizesMismatch { expected: 2, got: 5 }.message(),
        "decompressed_sizes size mismatch; expected 2, got 5"
    );
}

#[test]
fn a_first_read_stops_pulling_at_the_first_output() {
    let data = noise(400_000);
    let pieces: Vec<Vec<u8>> = data.chunks(1000).map(|piece| piece.to_vec()).collect();
    let source = ReadSource::new(Counted { pieces: pieces.clone(), reads: 0 }, 1000);
    let mut first = ZstdCompressionReader::new(CCtx::new().unwrap(), source, u64::MAX, true).unwrap();
    let out = first.read1(16).unwrap();
    assert!(!out.is_empty() && out.len() <= 16);
    assert_eq!(first.tell(), out.len());
    let source = ReadSource::new(Counted { pieces, reads: 0 }, 1000);
    let mut whole = ZstdCompressionReader::new(CCtx::new().unwrap(), source, u64::MAX, true).unwrap();
    let all = whole.read(-1).unwrap();
    assert_eq!(&all[..out.len()], &out[..]);
    assert_eq!(whole.tell(), all.len());
    let mut d = ZstdDecompressor::new(None, 0, 0).unwrap();
    assert_eq!(d.decompress(&all, data.len()).unwrap(), data);
    let mut rest = out;
    loop {
        let more = first.read1(4096).unwrap();
        if more.is_empty() {
            break;
        }
        rest.extend(more);
    }
    assert_eq!(rest, all);
}

#[test]
fn a_run_takes_in_all_it_is_given_and_queues_what_comes_out() {
    let data = noise(300_000);
    let mut cctx = CCtx::new().unwrap();
    let mut queue = Vec::new();
    for piece in data.chunks(1000) {
        let before = queue.len();
        let run = compress_to_chunks(&mut cctx, piece, 64, &mut queue);
        assert_eq!(run.fault, None);
        assert_eq!(run.consumed, piece.len());
        assert_eq!(run.written, queue[before..].concat().len());
    }
    let before = queue.len();
    let run = flush_to_chunks(&mut cctx, EndDirective::End, 64, &mut queue);
    assert_eq!(run.fault, None);
    assert_eq!(run.consumed, 0);
    assert_eq!(run.written, queue[before..].concat().len());
    assert!(queue.iter().all(|chunk| !chunk.is_empty() && chunk.len() <= 64));
    let mut d = ZstdDecompressor::new(None, 0, 0).unwrap();
    assert_eq!(d.decompress(&queue.concat(), data.len()).unwrap(), data);
}

#[test]
fn the_end_of_a_frame_ends_a_stream_that_does_not_span_frames() {
    let mut both = frame(b"first frame");
    both.extend(frame(b"second frame"));
    let mut obj = ZstdDecompressionObj::new(DCtx::new().unwrap(), 64, false);
    assert_eq!(obj.decompress(&both), Ok(b"first frame".to_vec()));
    assert!(obj.eof());
    assert_eq!(obj.unused_data(), &frame(b"second frame")[..]);
    assert_eq!(obj.decompress(b"x"), Err(ZstdError::DecompressObjReused));
    let mut spanning = ZstdDecompressionObj::new(DCtx::new().unwrap(), 64, true);
    assert_eq!(spanning.decompress(&both), Ok(b"first framesecond frame".to_vec()));
    assert!(!spanning.eof());
    assert!(spanning.unused_data().is_empty());
    for size in [1isize, 3, 64] {
        let source = BufferSource::new(both.clone());
        let mut reader = ZstdDecompressionReader::new(DCtx::new().unwrap(), source, false, true);
        let mut all = Vec::new();
        loop {
            let piece = reader.read(Some(size)).unwrap();
            if piece.is_empty() {
                break;
            }
            all.extend(piece);
        }
        assert_eq!(all, b"first frame");
        assert_eq!(reader.read(Some(size)), Ok(Vec::new()));
        assert_eq!(reader.tell(), 11);
        let source = BufferSource::new(both.clone());
        let mut reader = ZstdDecompressionReader::new(DCtx::new().unwrap(), source, true, true);
        assert_eq!(reader.read(Some(-1)), Ok(b"first framesecond frame".to_vec()));
    }
}

#[test]
fn however_often_a_writer_is_closed_the_sink_is_closed_once() {
    for owns in [true, false] {
        let mut writer = ZstdCompressionWriter::new(CCtx::new().unwrap(), 5, 32, true, owns).unwrap();
        let mut out = Vec::new();
        writer.write(b"hello", &mut out).unwrap();
        let mut asked = 0;
        let mut queued = Vec::new();
        for _ in 0..5 {
            if writer.close(&mut out).unwrap() {
                asked += 1;
            }
            queued.push(out.len());
        }
        assert_eq!(asked, if owns { 1 } else { 0 });
        assert!(queued.iter().all(|len| *len == queued[0]));
        assert!(writer.closed());
        assert_eq!(
            ZstdDecompressor::new(None, 0, 0).unwrap().decompress(&out.concat(), 5).unwrap(),
            b"hello".to_vec()
        );
        let mut sink = ZstdDecompressionWriter::new(DCtx::new().unwrap(), 32, true, owns);
        let mut asked = 0;
        for _ in 0..5 {
            if sink.close() {
                asked += 1;
            }
        }
        assert_eq!(asked, if owns { 1 } else { 0 });
        assert!(sink.closed());
    }
}
