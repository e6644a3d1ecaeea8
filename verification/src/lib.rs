//! A streaming transform engine around the Zstandard codec: input sources,
//! a chunker, pull readers and iterators, push writers, and a batch transform
//! over many independent buffers.

pub mod batch;
pub mod buffers;
pub mod compression_chunker;
pub mod compression_dict;
pub mod compression_parameters;
pub mod compression_reader;
pub mod compression_writer;
pub mod compressionobj;
pub mod compressor;
pub mod compressor_iterator;
pub mod compressor_multi;
pub mod constants;
pub mod decompression_reader;
pub mod decompression_writer;
pub mod decompressionobj;
pub mod decompressor;
pub mod decompressor_iterator;
pub mod decompressor_multi;
pub mod drain;
pub mod exceptions;
pub mod frame_parameters;
pub mod stream;
pub mod zstd_safe;
