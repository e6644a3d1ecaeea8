use zstandard::batch::{
    batch_error, collect_results, order_results, resolve_workers, thread_count, Direction, WorkerError, WorkerResult,
};
use zstandard::buffers::{ZstdBufferWithSegments, ZstdBufferWithSegmentsCollection};
use zstandard::compressor::ZstdCompressor;
use zstandard::compressor_multi::{
    all_empty, compress_from_datasources, compress_item, multi_compress_to_buffer, sources_of_buffer,
    sources_of_collection,
};
use zstandard::compression_parameters::CCtxParams;
use zstandard::decompressor::ZstdDecompressor;
use zstandard::decompressor_multi::{
    attach_sizes, decompress_from_datasources, decompress_item, multi_decompress_to_buffer, resolve_output_size,
    DataSource,
};
use zstandard::exceptions::{Fault, ZstdError};
use zstandard::zstd_safe::{CCtx, DCtx};

fn item(index: usize, data: &[u8]) -> WorkerResult {
    WorkerResult { source_offset: index, outcome: Ok(data.to_vec()) }
}

fn failed(index: usize, error: WorkerError) -> WorkerResult {
    WorkerResult { source_offset: index, outcome: Err(error) }
}

fn contents(collection: &ZstdBufferWithSegmentsCollection) -> Vec<Vec<u8>> {
    (0..collection.len()).map(|i| collection.get(i as isize).unwrap().tobytes()).collect()
}

fn inputs() -> Vec<Vec<u8>> {
    vec![
        b"A is the first input".repeat(50),
        b"B".to_vec(),
        b"C comes last and is somewhat longer than the others".repeat(400),
    ]
}

#[test]
fn worker_counts() {
    assert_eq!(resolve_workers(-1, 8, 100), 8);
    assert_eq!(resolve_workers(-1, 8, 3), 3);
    assert_eq!(resolve_workers(0, 8, 3), 1);
    assert_eq!(resolve_workers(1, 8, 3), 1);
    assert_eq!(resolve_workers(2, 8, 3), 2);
    assert_eq!(resolve_workers(4, 8, 3), 3);
    assert_eq!(resolve_workers(4, 8, 0), 0);
    assert_eq!(thread_count(4, 3), 3);
    assert_eq!(thread_count(0, 3), 1);
    let all = thread_count(-1, 1000);
    assert!(all >= 1 && all <= 1000);
}

#[test]
fn results_are_put_in_input_order_whatever_order_they_come_in() {
    let orders: [[usize; 3]; 6] = [[0, 1, 2], [0, 2, 1], [1, 0, 2], [1, 2, 0], [2, 0, 1], [2, 1, 0]];
    let data: [&[u8]; 3] = [b"A", b"BB", b"CCC"];
    for order in orders {
        let results: Vec<WorkerResult> = order.iter().map(|i| item(*i, data[*i])).collect();
        let sorted = order_results(results, 3).unwrap();
        for (i, result) in sorted.iter().enumerate() {
            assert_eq!(result.source_offset, i);
            assert_eq!(result.outcome, Ok(data[i].to_vec()));
        }
        let collection = collect_results(&sorted, Direction::Compress).unwrap();
        assert_eq!(contents(&collection), vec![b"A".to_vec(), b"BB".to_vec(), b"CCC".to_vec()]);
    }
}

#[test]
fn incomplete_results_are_refused() {
    assert!(order_results(vec![item(0, b"a"), item(0, b"b")], 2).is_none());
    assert!(order_results(vec![item(0, b"a"), item(2, b"b")], 2).is_none());
    assert!(order_results(vec![item(0, b"a")], 2).is_none());
    assert!(order_results(vec![item(1, b"a"), item(0, b"b"), item(2, b"c")], 2).is_none());
    assert_eq!(order_results(vec![], 0).unwrap().len(), 0);
}

#[test]
fn the_first_failure_in_input_order_decides() {
    let results = vec![
        failed(2, WorkerError::Zstd(Fault::Code(9))),
        item(0, b"fine"),
        failed(1, WorkerError::NoSize),
    ];
    let sorted = order_results(results, 3).unwrap();
    assert_eq!(collect_results(&sorted, Direction::Decompress).err(), Some(ZstdError::ItemNoSize { index: 1 }));
    let results = vec![failed(1, WorkerError::Zstd(Fault::Code(9))), item(0, b"fine")];
    let sorted = order_results(results, 2).unwrap();
    assert_eq!(
        collect_results(&sorted, Direction::Compress).err(),
        Some(ZstdError::ItemCompress { index: 1, fault: Fault::Code(9) })
    );
    assert_eq!(
        collect_results(&sorted, Direction::Decompress).err(),
        Some(ZstdError::ItemDecompress { index: 1, fault: Fault::Code(9) })
    );
    assert_eq!(batch_error(Direction::Compress, 4, WorkerError::NoSize), ZstdError::ItemNoSize { index: 4 });
    assert_eq!(collect_results(&vec![], Direction::Compress).err(), Some(ZstdError::CollectionNoArguments));
    assert_eq!(
        collect_results(&vec![item(0, b"a"), item(1, b"")], Direction::Decompress).err(),
        Some(ZstdError::CollectionEmptyBuffer)
    );
}

#[test]
fn batch_round_trip_keeps_the_order() {
    let data = inputs();
    let sources: Vec<&[u8]> = data.iter().map(|d| &d[..]).collect();
    let c = ZstdCompressor::new(3, None, None, None, None, None, 0).unwrap();
    let mut d = ZstdDecompressor::new(None, 0, 0).unwrap();
    for threads in [-1isize, 0, 1, 2, 4, 64] {
        let frames = c.multi_compress_to_buffer(&sources, threads).unwrap();
        assert_eq!(frames.len(), 3);
        let frames = contents(&frames);
        let mut single = ZstdCompressor::new(3, None, None, None, None, None, 0).unwrap();
        for i in 0..3 {
            assert_eq!(frames[i], single.compress(&data[i]).unwrap());
        }
        let frame_views: Vec<&[u8]> = frames.iter().map(|f| &f[..]).collect();
        let back = d.multi_decompress_to_buffer(&frame_views, None, threads).unwrap();
        assert_eq!(contents(&back), data);
        let mut sizes = Vec::new();
        for piece in &data {
            sizes.extend_from_slice(&(piece.len() as u64).to_le_bytes());
        }
        let back = d.multi_decompress_to_buffer(&frame_views, Some(&sizes), threads).unwrap();
        assert_eq!(contents(&back), data);
    }
}

#[test]
fn a_damaged_frame_fails_the_batch_with_its_index() {
    let data = inputs();
    let c = ZstdCompressor::new(3, None, None, Some(true), None, None, 0).unwrap();
    let sources: Vec<&[u8]> = data.iter().map(|d| &d[..]).collect();
    let mut frames = contents(&c.multi_compress_to_buffer(&sources, 4).unwrap());
    let last = frames[1].len() - 1;
    frames[1][last] ^= 0xff;
    let views: Vec<&[u8]> = frames.iter().map(|f| &f[..]).collect();
    let mut d = ZstdDecompressor::new(None, 0, 0).unwrap();
    for threads in [1isize, 4] {
        match d.multi_decompress_to_buffer(&views, None, threads) {
            Err(ZstdError::ItemDecompress { index, fault: Fault::Code(code) }) => {
                assert_eq!(index, 1);
                assert!(!zstd_safe::get_error_name(code).is_empty());
            }
            other => panic!("unexpected {:?}", other.err()),
        }
    }
    let mut headless = frames.clone();
    headless[2] = b"xx".to_vec();
    headless[1][last] ^= 0xff;
    let views: Vec<&[u8]> = headless.iter().map(|f| &f[..]).collect();
    assert_eq!(d.multi_decompress_to_buffer(&views, None, 4).err(), Some(ZstdError::ItemNoSize { index: 2 }));
}

#[test]
fn batch_refusals() {
    let params = CCtxParams::create();
    let none: Vec<&[u8]> = vec![];
    assert_eq!(multi_compress_to_buffer(&params, None, &none, 2).err(), Some(ZstdError::NoSourceElements));
    let empties: Vec<&[u8]> = vec![b"", b""];
    assert!(all_empty(&empties));
    assert_eq!(multi_compress_to_buffer(&params, None, &empties, 2).err(), Some(ZstdError::SourceElementsEmpty));
    let some: Vec<&[u8]> = vec![b"", b"x"];
    assert!(!all_empty(&some));
    assert_eq!(multi_compress_to_buffer(&params, None, &some, 2).unwrap().len(), 2);
    assert_eq!(compress_from_datasources(&params, None, &some, 5).unwrap().len(), 2);

    let dctx = DCtx::new().unwrap();
    assert_eq!(multi_decompress_to_buffer(&dctx, &none, None, 2).err(), Some(ZstdError::CollectionNoArguments));
    let frames: Vec<&[u8]> = vec![b"a", b"b"];
    assert_eq!(
        multi_decompress_to_buffer(&dctx, &frames, Some(&[0u8; 8]), 2).err(),
        Some(ZstdError::SizesMismatch { expected: 2, got: 1 })
    );
    assert_eq!(
        attach_sizes(&frames, Some(&[0u8; 31])).err(),
        Some(ZstdError::SizesMismatch { expected: 2, got: 3 })
    );
    let mut sizes = 5u64.to_le_bytes().to_vec();
    sizes.extend_from_slice(&0u64.to_le_bytes());
    let sources = attach_sizes(&frames, Some(&sizes)).unwrap();
    assert_eq!(sources[0].decompressed_size, 5);
    assert_eq!(sources[1].decompressed_size, 0);
    assert_eq!(sources[1].data, b"b");
    let sources = attach_sizes(&frames, None).unwrap();
    assert_eq!(sources[0].decompressed_size, 0);
    assert_eq!(decompress_from_datasources(&dctx, &vec![], 3).err(), Some(ZstdError::CollectionNoArguments));
}

#[test]
fn single_items() {
    let mut cctx = CCtx::new().unwrap();
    let result = compress_item(&mut cctx, 7, b"payload");
    assert_eq!(result.source_offset, 7);
    let frame = result.outcome.unwrap();
    let mut dctx = DCtx::new().unwrap();
    let source = DataSource { data: &frame, decompressed_size: 0 };
    assert_eq!(resolve_output_size(&source), Some(7));
    let back = decompress_item(&mut dctx, 3, &source);
    assert_eq!(back.source_offset, 3);
    assert_eq!(back.outcome, Ok(b"payload".to_vec()));
    let given = DataSource { data: &frame, decompressed_size: 100 };
    assert_eq!(resolve_output_size(&given), Some(100));
    assert_eq!(decompress_item(&mut dctx, 0, &given).outcome, Ok(b"payload".to_vec()));
    let junk = DataSource { data: b"zz", decompressed_size: 0 };
    assert_eq!(resolve_output_size(&junk), None);
    assert_eq!(decompress_item(&mut dctx, 1, &junk).outcome, Err(WorkerError::NoSize));
    let sized_junk = DataSource { data: b"zzzzzzzz", decompressed_size: 4 };
    assert!(matches!(decompress_item(&mut dctx, 1, &sized_junk).outcome, Err(WorkerError::Zstd(Fault::Code(_)))));
}

#[test]
fn batches_from_segment_buffers() {
    let mut table = Vec::new();
    for (offset, length) in [(0u64, 4u64), (4, 6)] {
        table.extend_from_slice(&offset.to_le_bytes());
        table.extend_from_slice(&length.to_le_bytes());
    }
    let buffer = ZstdBufferWithSegments::new(b"aaaabbbbbb".to_vec(), &table).unwrap();
    let sources = sources_of_buffer(&buffer);
    assert_eq!(sources, vec![&b"aaaa"[..], &b"bbbbbb"[..]]);
    let c = ZstdCompressor::new(1, None, None, None, None, None, 0).unwrap();
    let frames = c.multi_compress_to_buffer(&sources, 2).unwrap();
    let frame_sources = sources_of_collection(&frames);
    assert_eq!(frame_sources.len(), 2);
    let mut d = ZstdDecompressor::new(None, 0, 0).unwrap();
    let back = d.multi_decompress_to_buffer(&frame_sources, None, 2).unwrap();
    assert_eq!(contents(&back), vec![b"aaaa".to_vec(), b"bbbbbb".to_vec()]);
    assert_eq!(back.size(), Some(10));
}
