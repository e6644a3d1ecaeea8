use zstandard::compressor::ZstdCompressor;
use zstandard::constants::{SEEK_CUR, SEEK_END, SEEK_SET};
use zstandard::decompression_reader::{after_step, resolve_seek, ZstdDecompressionReader};
use zstandard::decompressionobj::ZstdDecompressionObj;
use zstandard::decompressor::{check_decompressed, plan_decompress, ZstdDecompressor};
use zstandard::decompressor_iterator::ZstdDecompressorIterator;
use zstandard::exceptions::{Context, Fault, ZstdError};
use zstandard::frame_parameters::{content_size_signed, frame_content_size, FrameParameters};
use zstandard::stream::{BufferSource, InBufferSource, ReadCallback, ReadSource};
use zstandard::zstd_safe::{window_log_of, DCtx, FrameFormat};
use zstd_safe::{get_error_name, get_frame_content_size};

struct Pieces {
    data: Vec<u8>,
    pos: usize,
}

impl ReadCallback for Pieces {
    fn read(&mut self, size: usize) -> Result<Vec<u8>, usize> {
        let end = (self.pos + size).min(self.data.len());
        let out = self.data[self.pos..end].to_vec();
        self.pos = end;
        Ok(out)
    }
}

fn text(len: usize) -> Vec<u8> {
    (0..len).map(|i| b"the quick brown fox "[(i * 7 + i / 13) % 20]).collect()
}

fn frame_of(data: &[u8]) -> Vec<u8> {
    ZstdCompressor::new(3, None, None, None, None, None, 0).unwrap().compress(data).unwrap()
}

fn two_frames() -> Vec<u8> {
    let mut both = frame_of(b"foo");
    both.extend(frame_of(b"bar"));
    both
}

fn decompressor() -> ZstdDecompressor<'static> {
    ZstdDecompressor::new(None, 0, 0).unwrap()
}

#[test]
fn reader_stops_at_the_frame_boundary() {
    let d = decompressor();
    let mut reader = d.stream_reader(BufferSource::new(two_frames()), false, true).unwrap();
    assert_eq!(reader.read(None).unwrap(), b"foo".to_vec());
    assert_eq!(reader.read(Some(10)).unwrap(), Vec::<u8>::new());
    assert_eq!(reader.tell(), 3);
    let mut reader = d.stream_reader(BufferSource::new(two_frames()), false, true).unwrap();
    assert_eq!(reader.read(Some(2)).unwrap(), b"fo".to_vec());
    assert_eq!(reader.read(Some(2)).unwrap(), b"o".to_vec());
    assert_eq!(reader.read(Some(2)).unwrap(), Vec::<u8>::new());
    assert_eq!(reader.readall().unwrap(), Vec::<u8>::new());
}

#[test]
fn reader_spans_frames_when_asked() {
    let d = decompressor();
    let mut reader = d.stream_reader(BufferSource::new(two_frames()), true, true).unwrap();
    assert_eq!(reader.read(Some(-1)).unwrap(), b"foobar".to_vec());
    assert_eq!(reader.tell(), 6);
    let mut reader = d.stream_reader(BufferSource::new(two_frames()), true, true).unwrap();
    assert_eq!(reader.read(Some(2)).unwrap(), b"fo".to_vec());
    assert_eq!(reader.read(Some(2)).unwrap(), b"ob".to_vec());
    assert_eq!(reader.read(Some(2)).unwrap(), b"ar".to_vec());
    assert_eq!(reader.read(Some(2)).unwrap(), Vec::<u8>::new());
}

#[test]
fn reader_read_of_any_size_gives_the_content() {
    let data = text(70_000);
    let frame = frame_of(&data);
    let d = decompressor();
    let mut all = d.stream_reader(BufferSource::new(frame.clone()), false, true).unwrap();
    let everything = all.read(Some(-1)).unwrap();
    assert_eq!(everything, data);
    for k in [1isize, 3, 1000, 65_536, 1 << 21] {
        let source = ReadSource::new(Pieces { data: frame.clone(), pos: 0 }, 1234);
        let mut reader = d.stream_reader(source, false, false).unwrap();
        let mut joined = Vec::new();
        loop {
            let chunk = reader.read(Some(k)).unwrap();
            assert!(chunk.len() <= k as usize);
            if chunk.is_empty() {
                break;
            }
            joined.extend(chunk);
            assert_eq!(reader.tell(), joined.len());
        }
        assert_eq!(joined, everything);
    }
}

#[test]
fn reader_read1_readinto_and_refusals() {
    let data = text(10_000);
    let frame = frame_of(&data);
    let d = decompressor();
    let mut reader = d.stream_reader(BufferSource::new(frame.clone()), false, true).unwrap();
    let mut joined = Vec::new();
    loop {
        let chunk = reader.read1(None).unwrap();
        if chunk.is_empty() {
            break;
        }
        joined.extend(chunk);
    }
    assert_eq!(joined, data);
    let mut reader = d.stream_reader(BufferSource::new(frame.clone()), false, true).unwrap();
    let mut joined = Vec::new();
    loop {
        let mut buffer = vec![9u8; 77];
        let n = reader.readinto(&mut buffer).unwrap();
        assert_eq!(buffer.len(), 77);
        assert!(buffer[n..].iter().all(|b| *b == 9));
        if n == 0 {
            break;
        }
        joined.extend_from_slice(&buffer[..n]);
    }
    assert_eq!(joined, data);
    let mut reader = d.stream_reader(BufferSource::new(frame.clone()), false, true).unwrap();
    let mut buffer = vec![0u8; 50];
    let n = reader.readinto1(&mut buffer).unwrap();
    assert!(n > 0 && n <= 50);
    assert_eq!(&buffer[..n], &data[..n]);
    assert_eq!(reader.read(Some(-5)), Err(ZstdError::NegativeReadSize));
    assert_eq!(reader.read1(Some(-5)), Err(ZstdError::NegativeReadSize));
    assert_eq!(reader.read(Some(0)).unwrap(), Vec::<u8>::new());
    reader.enter().unwrap();
    assert_eq!(reader.enter(), Err(ZstdError::ReaderEnteredTwice));
    assert!(reader.exit());
    assert!(!reader.close());
    assert!(reader.closed());
    assert_eq!(reader.read(None), Err(ZstdError::StreamClosed));
    assert_eq!(reader.read1(None), Err(ZstdError::StreamClosed));
    assert_eq!(reader.seek(0, None), Err(ZstdError::StreamClosed));
    assert_eq!(reader.readinto(&mut buffer), Err(ZstdError::StreamClosed));
    assert_eq!(reader.enter(), Err(ZstdError::StreamClosed));
}

#[test]
fn reader_seeks_forward_only() {
    let data = text(300_000);
    let frame = frame_of(&data);
    let mut reader = ZstdDecompressionReader::new(DCtx::new().unwrap(), BufferSource::new(frame), false, true);
    assert_eq!(reader.seek(10, None).unwrap(), 10);
    assert_eq!(reader.read(Some(5)).unwrap(), data[10..15].to_vec());
    assert_eq!(reader.seek(200_000, Some(SEEK_CUR)).unwrap(), 200_015);
    assert_eq!(reader.read(Some(5)).unwrap(), data[200_015..200_020].to_vec());
    assert_eq!(reader.seek(3, Some(SEEK_SET)), Err(ZstdError::SeekBackwards));
    assert_eq!(reader.seek(-1, Some(SEEK_SET)), Err(ZstdError::SeekNegative));
    assert_eq!(reader.seek(-1, Some(SEEK_CUR)), Err(ZstdError::SeekBackwards));
    assert_eq!(reader.seek(0, Some(SEEK_END)), Err(ZstdError::SeekFromEnd));
    assert_eq!(reader.seek(5, Some(77)).unwrap(), 200_020);
    assert_eq!(reader.tell(), 200_020);
    assert_eq!(reader.seek(1_000_000, Some(SEEK_SET)).unwrap(), 300_000);
    assert_eq!(reader.read(Some(5)).unwrap(), Vec::<u8>::new());
}

#[test]
fn step_decisions() {
    assert_eq!(after_step(0, 10, 0, false), (false, true));
    assert_eq!(after_step(0, 10, 0, true), (false, false));
    assert_eq!(after_step(3, 10, 5, false), (false, false));
    assert_eq!(after_step(3, 10, 0, false), (true, true));
    assert_eq!(after_step(3, 10, 0, true), (false, false));
    assert_eq!(after_step(10, 10, 5, false), (true, false));
    assert_eq!(after_step(10, 10, 5, true), (true, false));
    assert_eq!(after_step(10, 10, 0, true), (true, false));
}

#[test]
fn seek_amounts() {
    assert_eq!(resolve_seek(10, 25, SEEK_SET), Ok(15));
    assert_eq!(resolve_seek(10, 10, SEEK_SET), Ok(0));
    assert_eq!(resolve_seek(10, 9, SEEK_SET), Err(ZstdError::SeekBackwards));
    assert_eq!(resolve_seek(10, -1, SEEK_SET), Err(ZstdError::SeekNegative));
    assert_eq!(resolve_seek(10, 7, SEEK_CUR), Ok(7));
    assert_eq!(resolve_seek(10, -7, SEEK_CUR), Err(ZstdError::SeekBackwards));
    assert_eq!(resolve_seek(10, 0, SEEK_END), Err(ZstdError::SeekFromEnd));
    assert_eq!(resolve_seek(10, 7, 3), Ok(0));
}

#[test]
fn writer_decodes_what_is_written() {
    let data = text(100_000);
    let frame = frame_of(&data);
    let d = decompressor();
    for (write_size, return_read) in [(1usize << 17, true), (100, false), (1, false)] {
        let mut writer = d.stream_writer(Some(write_size), return_read, true).unwrap();
        let mut out = Vec::new();
        let mut total = 0;
        for piece in frame.chunks(500) {
            let before: usize = out.iter().map(|c: &Vec<u8>| c.len()).sum();
            let n = writer.write(piece, &mut out).unwrap();
            let after: usize = out.iter().map(|c: &Vec<u8>| c.len()).sum();
            total += after - before;
            assert_eq!(n, if return_read { piece.len() } else { after - before });
        }
        assert_eq!(total, data.len());
        for chunk in &out {
            assert!(!chunk.is_empty() && chunk.len() <= write_size);
        }
        assert_eq!(out.concat(), data);
        assert_eq!(writer.flush(), Ok(true));
        writer.enter().unwrap();
        assert_eq!(writer.enter(), Err(ZstdError::WriterEnteredTwice));
        assert!(writer.exit());
        assert!(!writer.close());
        assert!(writer.closed());
        assert_eq!(writer.flush(), Err(ZstdError::StreamClosed));
        assert_eq!(writer.write(b"x", &mut out), Err(ZstdError::StreamClosed));
        assert_eq!(writer.enter(), Err(ZstdError::StreamClosed));
        assert!(writer.memory_size() > 0);
    }
    let mut keeps = d.stream_writer(None, true, false).unwrap();
    assert!(!keeps.close());
    let mut writer = d.stream_writer(Some(10), true, true).unwrap();
    let mut out = Vec::new();
    assert!(matches!(
        writer.write(b"this is no frame", &mut out),
        Err(ZstdError::Codec { context: Context::Decompress, fault: Fault::Code(_) })
    ));
}

#[test]
fn decompressobj_keeps_what_follows_the_frame() {
    let d = decompressor();
    let mut obj = d.decompressobj(None, false).unwrap();
    let mut input = frame_of(b"first");
    input.extend_from_slice(b"trailing bytes");
    assert_eq!(obj.decompress(&[]).unwrap(), Vec::<u8>::new());
    assert!(!obj.eof());
    assert_eq!(obj.decompress(&input).unwrap(), b"first".to_vec());
    assert!(obj.eof());
    assert_eq!(obj.unused_data(), b"trailing bytes");
    assert_eq!(obj.flush(), Vec::<u8>::new());
    assert_eq!(obj.decompress(b"more"), Err(ZstdError::DecompressObjReused));
    assert_eq!(obj.decompress(&[]), Err(ZstdError::DecompressObjReused));

    let data = text(50_000);
    let frame = frame_of(&data);
    let mut obj = d.decompressobj(Some(100), false).unwrap();
    let mut out = Vec::new();
    for piece in frame.chunks(777) {
        out.extend(obj.decompress(piece).unwrap());
    }
    assert_eq!(out, data);
    assert!(obj.eof());
    assert_eq!(obj.unused_data(), b"");

    let mut spanning = ZstdDecompressionObj::new(DCtx::new().unwrap(), 4, true);
    assert_eq!(spanning.decompress(&two_frames()).unwrap(), b"foobar".to_vec());
    assert!(!spanning.eof());
    assert_eq!(spanning.decompress(&frame_of(b"baz")).unwrap(), b"baz".to_vec());
    assert_eq!(d.decompressobj(Some(0), false).err(), Some(ZstdError::WriteSizeNotPositive));
}

#[test]
fn iterator_skips_and_decodes() {
    let data = text(80_000);
    let frame = frame_of(&data);
    let mut padded = b"JUNK".to_vec();
    padded.extend_from_slice(&frame);
    let d = decompressor();
    for write_size in [1usize, 100, 1 << 17] {
        let source = ReadSource::new(Pieces { data: padded.clone(), pos: 0 }, 1000);
        let mut it = d.read_to_iter(source, Some(1000), Some(write_size), Some(4)).unwrap();
        let mut out = Vec::new();
        while let Some(chunk) = it.next().unwrap() {
            assert!(!chunk.is_empty() && chunk.len() <= write_size);
            out.extend(chunk);
        }
        assert_eq!(out, data);
        assert_eq!(it.next().unwrap(), None);
    }
    let source = BufferSource::new(frame.clone());
    assert_eq!(
        d.read_to_iter(source, Some(10), None, Some(10)).err(),
        Some(ZstdError::SkipBytesTooLarge)
    );
    let short = ReadSource::new(Pieces { data: b"ab".to_vec(), pos: 0 }, 10);
    assert_eq!(
        ZstdDecompressorIterator::new(DCtx::new().unwrap(), short, 10, 5).err(),
        Some(ZstdError::SkipBytesBeyondChunk)
    );
    let mut it = ZstdDecompressorIterator::new(DCtx::new().unwrap(), BufferSource::new(b"garbage!".to_vec()), 10, 0)
        .unwrap();
    assert!(matches!(it.next(), Err(ZstdError::Codec { context: Context::Decompress, .. })));
}

#[test]
fn one_step_decompress_plans_and_checks() {
    assert_eq!(plan_decompress(Err(()), 10), Err(ZstdError::FrameContentSizeError));
    assert_eq!(plan_decompress(Ok(Some(0)), 10), Ok(None));
    assert_eq!(plan_decompress(Ok(Some(42)), 10), Ok(Some((42, 42))));
    assert_eq!(plan_decompress(Ok(None), 0), Err(ZstdError::FrameContentSizeUnknown));
    assert_eq!(plan_decompress(Ok(None), 10), Ok(Some((10, 0))));
    assert_eq!(check_decompressed(5, 1, 5), Err(ZstdError::PartialFrame));
    assert_eq!(check_decompressed(5, 0, 6), Err(ZstdError::SizeMismatch { got: 5, declared: 6 }));
    assert_eq!(check_decompressed(5, 0, 5), Ok(()));
    assert_eq!(check_decompressed(5, 0, 0), Ok(()));

    let mut d = decompressor();
    assert_eq!(d.decompress(b"junk", 0), Err(ZstdError::FrameContentSizeError));
    assert_eq!(d.decompress(&frame_of(b""), 0).unwrap(), Vec::<u8>::new());
    let c = ZstdCompressor::new(3, None, None, None, Some(false), None, 0).unwrap();
    let mut obj = c.compressobj(None).unwrap();
    let mut sizeless = obj.compress(&text(1000)).unwrap();
    sizeless.extend(obj.flush(None).unwrap());
    assert_eq!(get_frame_content_size(&sizeless).unwrap(), None);
    assert_eq!(d.decompress(&sizeless, 0), Err(ZstdError::FrameContentSizeUnknown));
    assert_eq!(d.decompress(&sizeless, 5000).unwrap(), text(1000));
    assert_eq!(d.decompress(&sizeless, 10), Err(ZstdError::PartialFrame));
    let frame = frame_of(&text(1000));
    assert!(matches!(
        d.decompress(&frame[..frame.len() - 3], 0),
        Err(ZstdError::PartialFrame) | Err(ZstdError::SizeMismatch { .. })
    ));
    assert!(d.memory_size() > 0);
}

#[test]
fn frame_chain_hands_back_the_last_content() {
    let mut d = decompressor();
    assert_eq!(d.decompress_content_dict_chain(&vec![]), Err(ZstdError::EmptyInputChain));
    assert_eq!(
        d.decompress_content_dict_chain(&vec![b"junk".to_vec()]),
        Err(ZstdError::ChunkInvalidFrame { index: 0 })
    );
    let frames = vec![frame_of(b"one"), frame_of(b"two"), frame_of(b"three")];
    assert_eq!(d.decompress_content_dict_chain(&frames).unwrap(), b"three".to_vec());
    assert_eq!(d.decompress_content_dict_chain(&frames[..1].to_vec()).unwrap(), b"one".to_vec());
    let broken = vec![frame_of(b"one"), b"nope".to_vec()];
    assert_eq!(d.decompress_content_dict_chain(&broken), Err(ZstdError::ChunkInvalidFrame { index: 1 }));
    let c = ZstdCompressor::new(3, None, None, None, Some(false), None, 0).unwrap();
    let mut obj = c.compressobj(None).unwrap();
    let mut sizeless = obj.compress(b"x").unwrap();
    sizeless.extend(obj.flush(None).unwrap());
    assert_eq!(
        d.decompress_content_dict_chain(&vec![frame_of(b"one"), sizeless]),
        Err(ZstdError::ChunkMissingContentSize { index: 1 })
    );
    let mut cut = frame_of(&text(5000));
    cut.truncate(cut.len() - 4);
    assert!(matches!(
        d.decompress_content_dict_chain(&vec![cut]),
        Err(ZstdError::ChunkPartialFrame { index: 0 }) | Err(ZstdError::ChunkDecompress { index: 0, .. })
    ));
}

#[test]
fn decompressor_settings() {
    assert_eq!(ZstdDecompressor::new(None, 0, 2).err(), Some(ZstdError::InvalidFormat));
    let mut magicless = ZstdDecompressor::new(None, 1 << 20, 1).unwrap();
    assert!(magicless.decompress(&frame_of(b"abc"), 0).is_err());
    let mut dctx = DCtx::new().unwrap();
    dctx.set_format(FrameFormat::Zstd1).unwrap();
    dctx.set_max_window_size(1 << 20).unwrap();
    dctx.reset().unwrap();
    let copy = dctx.try_clone().unwrap();
    assert!(copy.memory_size() > 0);
    assert_eq!(window_log_of(0), 0);
    assert_eq!(window_log_of(1), 0);
    assert_eq!(window_log_of(2), 1);
    assert_eq!(window_log_of(3), 1);
    assert_eq!(window_log_of(1024), 10);
    assert_eq!(window_log_of(1025), 10);
    assert_eq!(window_log_of(usize::MAX), 63);
    let mut small = ZstdDecompressor::new(None, 1024, 0).unwrap();
    let big = ZstdCompressor::new(3, None, None, None, None, None, 0).unwrap().compress(&text(1 << 20)).unwrap();
    let mut out = Vec::new();
    let mut reader = Pieces { data: big, pos: 0 };
    assert!(matches!(
        small.copy_stream(&mut reader, &mut out, None, None),
        Err(ZstdError::Codec { context: Context::Decompress, fault: Fault::Code(_) })
    ));
}

#[test]
fn frame_header_facts() {
    assert_eq!(frame_content_size(&frame_of(&text(1234))), Ok(1234));
    assert_eq!(frame_content_size(b"xx"), Err(ZstdError::FrameContentSizeError));
    assert_eq!(content_size_signed(Ok(None)), Ok(-1));
    assert_eq!(content_size_signed(Ok(Some(7))), Ok(7));
    assert_eq!(content_size_signed(Ok(Some(u64::MAX - 5))), Err(ZstdError::FrameContentSizeError));
    assert_eq!(content_size_signed(Err(())), Err(ZstdError::FrameContentSizeError));
    let parameters = FrameParameters::from_header(10, 1024, 3, 1);
    assert_eq!(parameters, FrameParameters { content_size: 10, window_size: 1024, dict_id: 3, has_checksum: true });
    assert!(!FrameParameters::from_header(0, 0, 0, 0).has_checksum);
    assert_eq!(get_error_name(0), "No error detected");
    assert_ne!(get_error_name(usize::MAX - 71), get_error_name(0));
}

#[test]
fn sources_hand_out_views() {
    let mut source = BufferSource::new(b"abcdef".to_vec());
    assert_eq!(source.source_size(), Some(6));
    assert!(!source.finished());
    assert_eq!(source.input_buffer().unwrap(), Some(&b"abcdef"[..]));
    source.record_bytes_read(2);
    assert_eq!(source.input_buffer().unwrap(), Some(&b"cdef"[..]));
    source.record_bytes_read(0);
    assert_eq!(source.input_buffer().unwrap(), Some(&b"cdef"[..]));
    source.record_bytes_read(4);
    assert!(source.finished());
    assert_eq!(source.input_buffer().unwrap(), None);
    let mut empty = BufferSource::new(Vec::new());
    assert!(empty.finished());
    assert_eq!(empty.input_buffer().unwrap(), None);

    let mut pulled = ReadSource::new(Pieces { data: b"abcdef".to_vec(), pos: 0 }, 4);
    assert_eq!(pulled.source_size(), None);
    assert!(!pulled.finished());
    assert_eq!(pulled.input_buffer().unwrap(), Some(&b"abcd"[..]));
    assert_eq!(pulled.input_buffer().unwrap(), Some(&b"abcd"[..]));
    pulled.record_bytes_read(3);
    assert_eq!(pulled.input_buffer().unwrap(), Some(&b"d"[..]));
    pulled.record_bytes_read(1);
    assert!(!pulled.finished());
    assert_eq!(pulled.input_buffer().unwrap(), Some(&b"ef"[..]));
    pulled.record_bytes_read(2);
    assert!(!pulled.finished());
    assert_eq!(pulled.input_buffer().unwrap(), None);
    assert!(pulled.finished());
    assert_eq!(pulled.input_buffer().unwrap(), None);
    let reader = pulled.into_reader();
    assert_eq!(reader.pos, 6);
}

#[test]
fn object_step_decisions() {
    let finish = zstandard::decompressionobj::AfterStep::Finish;
    let back = zstandard::decompressionobj::AfterStep::Return;
    let on = zstandard::decompressionobj::AfterStep::Continue;
    let decide = zstandard::decompressionobj::after_step;
    assert_eq!(decide(0, false, 10, 5, 8), finish);
    assert_eq!(decide(0, false, 0, 0, 8), finish);
    assert_eq!(decide(0, true, 0, 5, 8), back);
    assert_eq!(decide(0, true, 3, 5, 8), on);
    assert_eq!(decide(7, false, 0, 5, 8), back);
    assert_eq!(decide(7, true, 0, 5, 8), back);
    assert_eq!(decide(7, false, 0, 8, 8), on);
    assert_eq!(decide(7, false, 3, 5, 8), on);
}

#[test]
fn one_step_reads_on_an_ended_source_are_empty() {
    let d = decompressor();
    let mut reader = d.stream_reader(BufferSource::new(frame_of(b"foo")), true, true).unwrap();
    assert_eq!(reader.read(Some(10)).unwrap(), b"foo".to_vec());
    assert_eq!(reader.tell(), 3);
    assert_eq!(reader.read1(Some(10)).unwrap(), Vec::<u8>::new());
    assert_eq!(reader.read1(None).unwrap(), Vec::<u8>::new());
    let mut buffer = vec![7u8; 4];
    assert_eq!(reader.readinto1(&mut buffer), Ok(0));
    assert_eq!(buffer, vec![7u8; 4]);
    assert_eq!(reader.tell(), 3);
    let mut empty = d.stream_reader(BufferSource::new(Vec::new()), false, true).unwrap();
    assert_eq!(empty.read1(Some(5)).unwrap(), Vec::<u8>::new());
    assert_eq!(empty.tell(), 0);
}

#[test]
fn batch_method_refusals() {
    let mut d = decompressor();
    let frames: Vec<&[u8]> = vec![b"a", b"b"];
    assert_eq!(
        d.multi_decompress_to_buffer(&frames, Some(&[0u8; 8]), 2).err(),
        Some(ZstdError::SizesMismatch { expected: 2, got: 1 })
    );
    let none: Vec<&[u8]> = vec![];
    assert_eq!(d.multi_decompress_to_buffer(&none, None, 2).err(), Some(ZstdError::CollectionNoArguments));
    assert_eq!(
        d.multi_decompress_to_buffer(&none, Some(&[0u8; 8]), 2).err(),
        Some(ZstdError::SizesMismatch { expected: 0, got: 1 })
    );
}
