use zstandard::buffers::{BufferSegment, ZstdBufferWithSegments, ZstdBufferWithSegmentsCollection};
use zstandard::exceptions::{ChunkerOp, Context, ErrorKind, Fault, Setting, ZstdError};

fn record(offset: u64, length: u64) -> Vec<u8> {
    let mut bytes = offset.to_le_bytes().to_vec();
    bytes.extend_from_slice(&length.to_le_bytes());
    bytes
}

fn table(segments: &[(u64, u64)]) -> Vec<u8> {
    segments.iter().flat_map(|(o, l)| record(*o, *l)).collect()
}

#[test]
fn segment_table_layout_is_sixteen_bytes_little_endian() {
    let bytes = table(&[(1, 2), (0x0102030405060708, 3)]);
    assert_eq!(bytes.len(), 32);
    assert_eq!(&bytes[..8], &[1, 0, 0, 0, 0, 0, 0, 0]);
    assert_eq!(&bytes[8..16], &[2, 0, 0, 0, 0, 0, 0, 0]);
    assert_eq!(&bytes[16..24], &[8, 7, 6, 5, 4, 3, 2, 1]);
    let buffer = ZstdBufferWithSegments::new(b"abcdefgh".to_vec(), &table(&[(1, 2), (3, 5)])).unwrap();
    assert_eq!(buffer.segments().as_slice(), &table(&[(1, 2), (3, 5)])[..]);
}

#[test]
fn buffer_checks_its_segments() {
    let data = b"0123456789".to_vec();
    let buffer = ZstdBufferWithSegments::new(data.clone(), &table(&[(0, 3), (3, 7), (10, 0), (2, 2)])).unwrap();
    assert_eq!(buffer.len(), 4);
    assert_eq!(buffer.size(), 10);
    assert_eq!(buffer.as_slice(), &data[..]);
    assert_eq!(buffer.tobytes(), data);
    assert_eq!(buffer.get_segment_slice(0), b"012");
    assert_eq!(buffer.get_segment_slice(1), b"3456789");
    assert_eq!(buffer.get_segment_slice(2), b"");
    assert_eq!(buffer.get_segment_slice(3), b"23");
    let segment = buffer.get(1).unwrap();
    assert_eq!(segment.offset(), 3);
    assert_eq!(segment.len(), 7);
    assert_eq!(segment.as_slice(), b"3456789");
    assert_eq!(segment.tobytes(), b"3456789".to_vec());
    assert_eq!(buffer.segment_at(3).as_slice(), b"23");
    assert_eq!(buffer.get(-1).err(), Some(ZstdError::NegativeOffset));
    assert_eq!(buffer.get(4).err(), Some(ZstdError::OffsetOutOfRange { len: 4 }));

    assert_eq!(
        ZstdBufferWithSegments::new(data.clone(), &[0u8; 17]).err(),
        Some(ZstdError::SegmentsSizeNotMultiple)
    );
    assert_eq!(
        ZstdBufferWithSegments::new(data.clone(), &table(&[(0, 11)])).err(),
        Some(ZstdError::SegmentOutOfBounds)
    );
    assert_eq!(
        ZstdBufferWithSegments::new(data.clone(), &table(&[(0, 1), (11, 0)])).err(),
        Some(ZstdError::SegmentOutOfBounds)
    );
    assert_eq!(
        ZstdBufferWithSegments::new(data.clone(), &table(&[(u64::MAX, 2)])).err(),
        Some(ZstdError::SegmentOutOfBounds)
    );
    assert_eq!(
        ZstdBufferWithSegments::new(data.clone(), &table(&[(5, u64::MAX - 4)])).err(),
        Some(ZstdError::SegmentOutOfBounds)
    );
    let none = ZstdBufferWithSegments::new(data, &[]).unwrap();
    assert_eq!(none.len(), 0);
}

#[test]
fn whole_buffer_has_one_segment() {
    let buffer = ZstdBufferWithSegments::whole(b"xyz".to_vec());
    assert_eq!(buffer.len(), 1);
    assert_eq!(buffer.get_segment_slice(0), b"xyz");
    assert_eq!(buffer.segments().as_slice(), &table(&[(0, 3)])[..]);
    let segment = BufferSegment { offset: 0, length: 3 };
    assert_eq!(segment, BufferSegment { offset: 0, length: 3 });
}

#[test]
fn collection_numbers_all_segments() {
    let a = ZstdBufferWithSegments::new(b"aaabbb".to_vec(), &table(&[(0, 3), (3, 3)])).unwrap();
    let b = ZstdBufferWithSegments::new(b"c".to_vec(), &table(&[(0, 1)])).unwrap();
    let c = ZstdBufferWithSegments::new(b"ddeeff".to_vec(), &table(&[(0, 2), (2, 2), (4, 2)])).unwrap();
    let collection = ZstdBufferWithSegmentsCollection::new(vec![a, b, c]).unwrap();
    assert_eq!(collection.len(), 6);
    assert_eq!(collection.buffer_count(), 3);
    assert_eq!(collection.size(), Some(13));
    let expected: [&[u8]; 6] = [b"aaa", b"bbb", b"c", b"dd", b"ee", b"ff"];
    let places = [(0, 0), (0, 1), (1, 0), (2, 0), (2, 1), (2, 2)];
    for i in 0..6 {
        assert_eq!(collection.get(i as isize).unwrap().as_slice(), expected[i]);
        assert_eq!(collection.locate(i), places[i]);
    }
    assert_eq!(collection.buffer(1).as_slice(), b"c");
    assert_eq!(collection.get(-1).err(), Some(ZstdError::NegativeOffset));
    assert_eq!(collection.get(6).err(), Some(ZstdError::OffsetOutOfRange { len: 6 }));
}

#[test]
fn collection_refuses_empty_parts() {
    assert_eq!(
        ZstdBufferWithSegmentsCollection::new(vec![]).err(),
        Some(ZstdError::CollectionNoArguments)
    );
    let empty_data = ZstdBufferWithSegments::whole(Vec::new());
    assert_eq!(
        ZstdBufferWithSegmentsCollection::new(vec![ZstdBufferWithSegments::whole(b"a".to_vec()), empty_data]).err(),
        Some(ZstdError::CollectionEmptyBuffer)
    );
    let no_segments = ZstdBufferWithSegments::new(b"abc".to_vec(), &[]).unwrap();
    assert_eq!(
        ZstdBufferWithSegmentsCollection::new(vec![no_segments]).err(),
        Some(ZstdError::CollectionEmptyBuffer)
    );
}

#[test]
fn error_kinds() {
    assert_eq!(ZstdError::NegativeOffset.kind(), ErrorKind::Index);
    assert_eq!(ZstdError::OffsetOutOfRange { len: 1 }.kind(), ErrorKind::Index);
    assert_eq!(ZstdError::StreamClosed.kind(), ErrorKind::Value);
    assert_eq!(ZstdError::SegmentOutOfBounds.kind(), ErrorKind::Value);
    assert_eq!(ZstdError::SeekBackwards.kind(), ErrorKind::Os);
    assert_eq!(ZstdError::WriterEnteredTwice.kind(), ErrorKind::Zstd);
    assert_eq!(ZstdError::ReaderEnteredTwice.kind(), ErrorKind::Value);
    assert_eq!(ZstdError::InvalidKeyword { name: "speed".to_string() }.kind(), ErrorKind::Type);
    assert_eq!(
        ZstdError::InvalidKeyword { name: "speed".to_string() }.message(),
        "'speed' is an invalid keyword argument"
    );
    assert_eq!(
        ZstdError::ListSizesMismatch { expected: 3, got: 20 }.message(),
        "decompressed_sizes size mismatch; expected 3; got 20"
    );
    assert_eq!(ZstdError::ListSizesMismatch { expected: 3, got: 20 }.kind(), ErrorKind::Value);
    assert_eq!(ZstdError::Source { code: 1 }.kind(), ErrorKind::Source);
    assert_eq!(
        ZstdError::Codec { context: Context::Create, fault: Fault::DecompressionContext }
        .kind(),
        ErrorKind::Memory
    );
    assert_eq!(
        ZstdError::Codec { context: Context::Compress, fault: Fault::Code(3) }
        .kind(),
        ErrorKind::Zstd
    );
}

#[test]
fn error_messages() {
    assert_eq!(ZstdError::StreamClosed.message(), "stream is closed");
    assert_eq!(ZstdError::ReaderEnteredTwice.message(), "cannot __enter__ multiple times");
    assert_eq!(ZstdError::NegativeReadSize.message(), "cannot read negative amounts less than -1");
    assert_eq!(ZstdError::UnknownFlushMode { mode: 12 }.message(), "unknown flush_mode: 12");
    assert_eq!(ZstdError::OffsetOutOfRange { len: 4 }.message(), "offset must be less than 4");
    assert_eq!(
        ZstdError::SizesMismatch { expected: 3, got: 20 }.message(),
        "decompressed_sizes size mismatch; expected 3, got 20"
    );
    assert_eq!(ZstdError::LevelTooHigh { max: 22 }.message(), "level must be less than 23");
    assert_eq!(ZstdError::LevelTooHigh { max: i32::MAX }.message(), "level must be less than 2147483648");
    assert_eq!(
        ZstdError::ChunkerFinished { op: ChunkerOp::Flush }.message(),
        "cannot call flush() after compression finished"
    );
    assert_eq!(
        ZstdError::ChunkerBusy { op: ChunkerOp::Finish }.message(),
        "cannot call finish() before consuming output from previous operation"
    );
    assert_eq!(
        ZstdError::ParametersConflict { setting: Setting::WriteDictId }.message(),
        "cannot define compression_params and write_dict_id"
    );
    assert_eq!(
        ZstdError::InvalidDictType { value: 9 }.message(),
        "invalid dictionary load mode: 9; must use DICT_TYPE_* constants"
    );
    assert_eq!(
        ZstdError::SizeMismatch { got: 5, declared: u64::MAX }.message(),
        "decompression error: decompressed 5 bytes; expected 18446744073709551615"
    );
    assert_eq!(ZstdError::ItemNoSize { index: 2 }.message(), "could not determine decompressed size of item 2");
    let code = usize::MAX - 71;
    let name = zstd_safe::get_error_name(code);
    assert!(!name.is_empty());
    assert_eq!(Fault::Code(code).message(), name);
    assert_eq!(Fault::PartialFrameFlush.message(), "unexpected partial frame flush");
    assert_eq!(
        ZstdError::Codec { context: Context::Compress, fault: Fault::Code(code) }.message(),
        format!("zstd compress error: {}", name)
    );
    assert_eq!(
        ZstdError::Codec { context: Context::EndStream, fault: Fault::Code(code) }.message(),
        format!("error ending compression stream: {}", name)
    );
    assert_eq!(
        ZstdError::ItemDecompress { index: 1, fault: Fault::Code(code) }.message(),
        format!("error decompressing item 1: {}", name)
    );
    assert_eq!(
        ZstdError::ChunkDecompress { index: 7, fault: Fault::NoProgress }.message(),
        "could not decompress chunk 7: the codec made no progress"
    );
    assert_eq!(Context::SourceSize.to_prefix(), "error setting source size: ");
    assert_eq!(ChunkerOp::Compress.to_name(), "compress");
    assert_eq!(Setting::Threads.to_name(), "threads");
}
