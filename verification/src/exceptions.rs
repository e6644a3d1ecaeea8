//! The error type of the streaming engine.
//!
//! Every failure is a value of [`ZstdError`]. A variant names what went wrong
//! and carries the numbers a message needs; [`ZstdError::kind`] sorts the
//! variants into the classes a host language raises them as.

use crate::zstd_safe::{error_name, get_error_name};
use vstd::prelude::*;
use vstd::string::StringExecFns;

verus! {

/// The class a failure belongs to.
#[derive(Clone, Copy, Debug, PartialEq, Eq, Structural)]
pub enum ErrorKind {
    /// A fault of the codec, or a method called in a state that forbids it.
    Zstd,
    /// An argument with a value that is never accepted.
    Value,
    /// An argument of a kind that is never accepted.
    Type,
    /// An index outside a collection.
    Index,
    /// A seek the stream cannot perform.
    Os,
    /// A context or buffer could not be allocated.
    Memory,
    /// The byte source failed to deliver.
    Source,
}

/// What the codec, or the layer right above it, reported.
#[derive(Clone, Copy, Debug, PartialEq, Eq, Structural)]
pub enum Fault {
    /// An error code of the codec; `get_error_name` gives its text.
    Code(usize),
    /// No compression context could be allocated.
    CompressionContext,
    /// No decompression context could be allocated.
    DecompressionContext,
    /// Ending a frame in one step left data behind.
    PartialFrameFlush,
    /// A step with room on both sides neither read nor wrote a byte while
    /// work was left.
    NoProgress,
    /// A byte counter would have passed the largest `usize`.
    CounterOverflow,
}

/// The operation a codec fault interrupted; it decides the words put before
/// the codec's own message.
#[derive(Clone, Copy, Debug, PartialEq, Eq, Structural)]
pub enum Context {
    /// A streaming compression step.
    Compress,
    /// The step that ends a compressed frame.
    EndStream,
    /// Declaring the size of the source.
    SourceSize,
    /// A streaming decompression step.
    Decompress,
    /// Compressing one buffer into one frame.
    OneShotCompress,
    /// Decompressing one frame into one buffer.
    OneShotDecompress,
    /// Creating a context.
    Create,
    /// Pushing a parameter set into a compression context.
    SetParameters,
    /// Setting one compression parameter.
    SetParameter,
    /// Loading a dictionary into a compression context.
    LoadCompressionDict,
    /// Referencing a prepared dictionary from a decompression context.
    LoadDecompressionDict,
    /// Resetting a decompression context.
    ResetDecompression,
    /// Limiting the window of a decompression context.
    MaxWindowSize,
    /// Choosing the frame format of a decompression context.
    DecodingFormat,
}

/// The three sub-iterations of a chunker.
#[derive(Clone, Copy, Debug, PartialEq, Eq, Structural)]
pub enum ChunkerOp {
    Compress,
    Flush,
    Finish,
}

/// One of the settings that cannot be given next to a full parameter set.
#[derive(Clone, Copy, Debug, PartialEq, Eq, Structural)]
pub enum Setting {
    WriteChecksum,
    WriteContentSize,
    WriteDictId,
    Threads,
}

/// Every way an operation of this library fails.
#[derive(Debug, PartialEq, Eq)]
pub enum ZstdError {
    /// The codec refused or failed `context`.
    Codec { context: Context, fault: Fault },
    /// The byte source failed; `code` is the source's own.
    Source { code: usize },
    /// The pulled input would exceed what a `usize` can count.
    SourceTooLong,
    /// The stream was closed before the call.
    StreamClosed,
    /// A reader was entered while entered.
    ReaderEnteredTwice,
    /// A writer was entered while entered.
    WriterEnteredTwice,
    /// A read of fewer than -1 bytes was asked for.
    NegativeReadSize,
    /// A writer was asked to flush in a mode that does not exist.
    UnknownFlushMode { mode: usize },
    /// A one-shot object was asked to flush in a mode that does not exist.
    FlushModeNotRecognized,
    /// `compress()` on a one-shot object that has ended its frame.
    CompressAfterFinished,
    /// `flush()` on a one-shot object that has ended its frame.
    AlreadyFinished,
    /// A decompression object was used after its frame ended.
    DecompressObjReused,
    /// A chunker operation after `finish()` has run to its end.
    ChunkerFinished { op: ChunkerOp },
    /// A chunker operation while the previous one still has output.
    ChunkerBusy { op: ChunkerOp },
    /// A buffer size of zero where output has to fit.
    ZeroBufferSize,
    /// A segment table whose byte length is no multiple of a record.
    SegmentsSizeNotMultiple,
    /// A segment that reaches past the end of its backing region.
    SegmentOutOfBounds,
    /// A negative index.
    NegativeOffset,
    /// An index at or past `len`.
    OffsetOutOfRange { len: usize },
    /// A collection built from no buffers.
    CollectionNoArguments,
    /// A collection built from a buffer with no bytes or no segments.
    CollectionEmptyBuffer,
    /// More segments than a `usize` can count.
    TooManySegments,
    /// A batch of no inputs.
    NoSourceElements,
    /// A batch whose inputs hold no bytes at all.
    SourceElementsEmpty,
    /// A size list that does not match the number of frames.
    SizesMismatch { expected: usize, got: usize },
    /// A list of frames came with a table of `got` sizes, not `expected`.
    ListSizesMismatch { expected: usize, got: usize },
    /// The worker pool could not be started, or returned a result set that
    /// does not hold each input once.
    ThreadPool,
    /// Compressing input `index` of a batch failed.
    ItemCompress { index: usize, fault: Fault },
    /// Decompressing input `index` of a batch failed.
    ItemDecompress { index: usize, fault: Fault },
    /// The decompressed size of input `index` of a batch is not known.
    ItemNoSize { index: usize },
    /// A compression level above the largest, `max`.
    LevelTooHigh { max: i32 },
    /// A full parameter set together with a single setting.
    ParametersConflict { setting: Setting },
    /// A frame format number that names no format.
    InvalidFormat,
    /// A dictionary type number that names no type.
    InvalidDictType { value: u32 },
    /// Keyword `index` of a parameter list names no parameter.
    InvalidKeyword { name: String },
    /// A strategy number that names no strategy.
    UnknownStrategy,
    /// A parameter value that the parameter's type cannot hold.
    ParameterOutOfRange,
    /// The frame header is damaged or cut short.
    FrameContentSizeError,
    /// The frame header names no content size and no limit was given.
    FrameContentSizeUnknown,
    /// One step did not decode a whole frame.
    PartialFrame,
    /// The decoded size differs from the one the header names.
    SizeMismatch { got: usize, declared: u64 },
    /// A chain of no frames.
    EmptyInputChain,
    /// Frame `index` of a chain has a damaged header.
    ChunkInvalidFrame { index: usize },
    /// Frame `index` of a chain does not name its content size.
    ChunkMissingContentSize { index: usize },
    /// Frame `index` of a chain could not be decoded.
    ChunkDecompress { index: usize, fault: Fault },
    /// Frame `index` of a chain did not decode as a whole.
    ChunkPartialFrame { index: usize },
    /// An output size of zero for a decompression object.
    WriteSizeNotPositive,
    /// More bytes to skip than one read delivers.
    SkipBytesTooLarge,
    /// More bytes to skip than the first input chunk holds.
    SkipBytesBeyondChunk,
    /// A seek to a negative absolute position.
    SeekNegative,
    /// A seek to a position already passed.
    SeekBackwards,
    /// A seek relative to the end of the stream.
    SeekFromEnd,
    /// Both a level and a parameter set given for a prepared dictionary.
    PrecomputeBoth,
    /// Neither a level nor a parameter set given for a prepared dictionary.
    PrecomputeNeither,
}

impl ZstdError {
    /// The class of `self`, as a specification.
    pub open spec fn spec_kind(self) -> ErrorKind {
        match self {
            ZstdError::Codec { context, fault } => match fault {
                Fault::DecompressionContext => ErrorKind::Memory,
                _ => ErrorKind::Zstd,
            },
            ZstdError::Source { .. } | ZstdError::SourceTooLong => ErrorKind::Source,
            ZstdError::WriterEnteredTwice
            | ZstdError::CompressAfterFinished
            | ZstdError::AlreadyFinished
            | ZstdError::DecompressObjReused
            | ZstdError::ChunkerFinished { .. }
            | ZstdError::ChunkerBusy { .. }
            | ZstdError::ThreadPool
            | ZstdError::ItemCompress { .. }
            | ZstdError::ItemDecompress { .. }
            | ZstdError::FrameContentSizeError
            | ZstdError::FrameContentSizeUnknown
            | ZstdError::PartialFrame
            | ZstdError::SizeMismatch { .. }
            | ZstdError::ChunkDecompress { .. }
            | ZstdError::ChunkPartialFrame { .. } => ErrorKind::Zstd,
            ZstdError::InvalidKeyword { .. } => ErrorKind::Type,
            ZstdError::ListSizesMismatch { .. } => ErrorKind::Value,
            ZstdError::NegativeOffset | ZstdError::OffsetOutOfRange { .. } => ErrorKind::Index,
            ZstdError::SeekNegative | ZstdError::SeekBackwards | ZstdError::SeekFromEnd => ErrorKind::Os,
            _ => ErrorKind::Value,
        }
    }

    /// The class of `self`.
    pub fn kind(&self) -> (k: ErrorKind)
        ensures
            k == self.spec_kind(),
    {
        match self {
            ZstdError::Codec { context: _, fault } => match fault {
                Fault::DecompressionContext => ErrorKind::Memory,
                _ => ErrorKind::Zstd,
            },
            ZstdError::Source { .. } | ZstdError::SourceTooLong => ErrorKind::Source,
            ZstdError::WriterEnteredTwice
            | ZstdError::CompressAfterFinished
            | ZstdError::AlreadyFinished
            | ZstdError::DecompressObjReused
            | ZstdError::ChunkerFinished { .. }
            | ZstdError::ChunkerBusy { .. }
            | ZstdError::ThreadPool
            | ZstdError::ItemCompress { .. }
            | ZstdError::ItemDecompress { .. }
            | ZstdError::FrameContentSizeError
            | ZstdError::FrameContentSizeUnknown
            | ZstdError::PartialFrame
            | ZstdError::SizeMismatch { .. }
            | ZstdError::ChunkDecompress { .. }
            | ZstdError::ChunkPartialFrame { .. } => ErrorKind::Zstd,
            ZstdError::InvalidKeyword { .. } => ErrorKind::Type,
            ZstdError::ListSizesMismatch { .. } => ErrorKind::Value,
            ZstdError::NegativeOffset | ZstdError::OffsetOutOfRange { .. } => ErrorKind::Index,
            ZstdError::SeekNegative | ZstdError::SeekBackwards | ZstdError::SeekFromEnd => ErrorKind::Os,
            _ => ErrorKind::Value,
        }
    }
}

/// The digit `d`, as text.
pub open spec fn digit_text(d: int) -> Seq<char> {
    if d == 0 {
        "0"@
    } else if d == 1 {
        "1"@
    } else if d == 2 {
        "2"@
    } else if d == 3 {
        "3"@
    } else if d == 4 {
        "4"@
    } else if d == 5 {
        "5"@
    } else if d == 6 {
        "6"@
    } else if d == 7 {
        "7"@
    } else if d == 8 {
        "8"@
    } else {
        "9"@
    }
}

/// The decimal digits of `n`, without leading zeros.
pub open spec fn natural_text(n: nat) -> Seq<char>
    decreases n,
{
    if n < 10 {
        digit_text(n as int)
    } else {
        natural_text(n / 10) + digit_text((n % 10) as int)
    }
}

/// The decimal digits of `n`, with a minus sign before them where `n` is
/// negative.
pub open spec fn decimal_text(n: i128) -> Seq<char> {
    if n < 0 {
        "-"@ + natural_text((-n) as nat)
    } else {
        natural_text(n as nat)
    }
}

/// The digit `d`, as text.
fn digit(d: u128) -> (text: &'static str)
    requires
        d < 10,
    ensures
        text@ == digit_text(d as int),
{
    if d == 0 {
        "0"
    } else if d == 1 {
        "1"
    } else if d == 2 {
        "2"
    } else if d == 3 {
        "3"
    } else if d == 4 {
        "4"
    } else if d == 5 {
        "5"
    } else if d == 6 {
        "6"
    } else if d == 7 {
        "7"
    } else if d == 8 {
        "8"
    } else {
        "9"
    }
}

/// The decimal digits of `n`, without leading zeros.
fn natural(n: u128) -> (text: String)
    ensures
        text@ == natural_text(n as nat),
    decreases n,
{
    if n < 10 {
        String::from_str(digit(n))
    } else {
        let mut text = natural(n / 10);
        text.append(digit(n % 10));
        text
    }
}

/// The decimal digits of `n`, with a minus sign before them where `n` is
/// negative.
fn decimal(n: i128) -> (text: String)
    ensures
        text@ == decimal_text(n),
{
    if n < 0 {
        let magnitude: u128 = if n == i128::MIN {
            0x8000_0000_0000_0000_0000_0000_0000_0000u128
        } else {
            (-n) as u128
        };
        let mut text = String::from_str("-");
        let digits = natural(magnitude);
        text.append(digits.as_str());
        text
    } else {
        natural(n as u128)
    }
}

impl ChunkerOp {
    /// The name of the operation.
    pub open spec fn name(self) -> Seq<char> {
        match self {
            ChunkerOp::Compress => "compress"@,
            ChunkerOp::Flush => "flush"@,
            ChunkerOp::Finish => "finish"@,
        }
    }

    /// The name of the operation.
    pub fn to_name(&self) -> (text: String)
        ensures
            text@ == self.name(),
    {
        match self {
            ChunkerOp::Compress => String::from_str("compress"),
            ChunkerOp::Flush => String::from_str("flush"),
            ChunkerOp::Finish => String::from_str("finish"),
        }
    }
}

impl Setting {
    /// The name of the setting.
    pub open spec fn name(self) -> Seq<char> {
        match self {
            Setting::WriteChecksum => "write_checksum"@,
            Setting::WriteContentSize => "write_content_size"@,
            Setting::WriteDictId => "write_dict_id"@,
            Setting::Threads => "threads"@,
        }
    }

    /// The name of the setting.
    pub fn to_name(&self) -> (text: String)
        ensures
            text@ == self.name(),
    {
        match self {
            Setting::WriteChecksum => String::from_str("write_checksum"),
            Setting::WriteContentSize => String::from_str("write_content_size"),
            Setting::WriteDictId => String::from_str("write_dict_id"),
            Setting::Threads => String::from_str("threads"),
        }
    }
}

impl Context {
    /// The words put before what the codec said.
    pub open spec fn prefix(self) -> Seq<char> {
        match self {
            Context::Compress => "zstd compress error: "@,
            Context::EndStream => "error ending compression stream: "@,
            Context::SourceSize => "error setting source size: "@,
            Context::Decompress => "zstd decompress error: "@,
            Context::OneShotCompress => "cannot compress: "@,
            Context::OneShotDecompress => "decompression error: "@,
            Context::Create => "cannot create context: "@,
            Context::SetParameters => "could not set compression parameters: "@,
            Context::SetParameter => "unable to set compression context parameter: "@,
            Context::LoadCompressionDict => "could not load compression dictionary: "@,
            Context::LoadDecompressionDict => "unable to reference prepared dictionary: "@,
            Context::ResetDecompression => "unable to reset decompression context: "@,
            Context::MaxWindowSize => "unable to set max window size: "@,
            Context::DecodingFormat => "unable to set decoding format: "@,
        }
    }

    /// The words put before what the codec said.
    pub fn to_prefix(&self) -> (text: String)
        ensures
            text@ == self.prefix(),
    {
        match self {
            Context::Compress => String::from_str("zstd compress error: "),
            Context::EndStream => String::from_str("error ending compression stream: "),
            Context::SourceSize => String::from_str("error setting source size: "),
            Context::Decompress => String::from_str("zstd decompress error: "),
            Context::OneShotCompress => String::from_str("cannot compress: "),
            Context::OneShotDecompress => String::from_str("decompression error: "),
            Context::Create => String::from_str("cannot create context: "),
            Context::SetParameters => String::from_str("could not set compression parameters: "),
            Context::SetParameter => String::from_str("unable to set compression context parameter: "),
            Context::LoadCompressionDict => String::from_str("could not load compression dictionary: "),
            Context::LoadDecompressionDict => String::from_str("unable to reference prepared dictionary: "),
            Context::ResetDecompression => String::from_str("unable to reset decompression context: "),
            Context::MaxWindowSize => String::from_str("unable to set max window size: "),
            Context::DecodingFormat => String::from_str("unable to set decoding format: "),
        }
    }
}

impl Fault {
    /// What the codec said: for a code, the codec's own text for it.
    pub open spec fn text(self) -> Seq<char> {
        match self {
            Fault::Code(code) => error_name(code),
            Fault::CompressionContext => "could not allocate ZSTD_CCtx instance"@,
            Fault::DecompressionContext => "could not allocate ZSTD_DCtx instance"@,
            Fault::PartialFrameFlush => "unexpected partial frame flush"@,
            Fault::NoProgress => "the codec made no progress"@,
            Fault::CounterOverflow => "byte count does not fit"@,
        }
    }

    /// What the codec said: for a code, the codec's own text for it.
    pub fn message(&self) -> (text: String)
        ensures
            text@ == self.text(),
    {
        match self {
            Fault::Code(code) => get_error_name(*code),
            Fault::CompressionContext => String::from_str("could not allocate ZSTD_CCtx instance"),
            Fault::DecompressionContext => String::from_str("could not allocate ZSTD_DCtx instance"),
            Fault::PartialFrameFlush => String::from_str("unexpected partial frame flush"),
            Fault::NoProgress => String::from_str("the codec made no progress"),
            Fault::CounterOverflow => String::from_str("byte count does not fit"),
        }
    }
}

impl ZstdError {
    /// The message of the failure.
    pub open spec fn text(self) -> Seq<char> {
        match self {
            ZstdError::Codec { context, fault } => context.prefix() + fault.text(),
            ZstdError::Source { code } => "error reading from source: "@ + decimal_text(code as i128),
            ZstdError::SourceTooLong => "source holds more bytes than can be counted"@,
            ZstdError::StreamClosed => "stream is closed"@,
            ZstdError::ReaderEnteredTwice => "cannot __enter__ multiple times"@,
            ZstdError::WriterEnteredTwice => "cannot __enter__ multiple times"@,
            ZstdError::NegativeReadSize => "cannot read negative amounts less than -1"@,
            ZstdError::UnknownFlushMode { mode } => "unknown flush_mode: "@ + decimal_text(mode as i128),
            ZstdError::FlushModeNotRecognized => "flush mode not recognized"@,
            ZstdError::CompressAfterFinished => "cannot call compress() after compressor finished"@,
            ZstdError::AlreadyFinished => "compressor object already finished"@,
            ZstdError::DecompressObjReused => "cannot use a decompressobj multiple times"@,
            ZstdError::ChunkerFinished { op } => "cannot call "@ + op.name() + "() after compression finished"@,
            ZstdError::ChunkerBusy { op } => "cannot call "@ + op.name() + "() before consuming output from previous operation"@,
            ZstdError::ZeroBufferSize => "buffer size must be positive"@,
            ZstdError::SegmentsSizeNotMultiple => "segments array size is not a multiple of 16"@,
            ZstdError::SegmentOutOfBounds => "offset within segments array references memory outside buffer"@,
            ZstdError::NegativeOffset => "offset must be non-negative"@,
            ZstdError::OffsetOutOfRange { len } => "offset must be less than "@ + decimal_text(len as i128),
            ZstdError::CollectionNoArguments => "must pass at least 1 argument"@,
            ZstdError::CollectionEmptyBuffer => "ZstdBufferWithSegments cannot be empty"@,
            ZstdError::TooManySegments => "too many segments"@,
            ZstdError::NoSourceElements => "no source elements found"@,
            ZstdError::SourceElementsEmpty => "source elements are empty"@,
            ZstdError::SizesMismatch { expected, got } => "decompressed_sizes size mismatch; expected "@ + decimal_text(expected as i128) + ", got "@ + decimal_text(got as i128),
            ZstdError::ListSizesMismatch { expected, got } => "decompressed_sizes size mismatch; expected "@ + decimal_text(expected as i128) + "; got "@ + decimal_text(got as i128),
            ZstdError::ThreadPool => "error initializing thread pool"@,
            ZstdError::ItemCompress { index, fault } => "error compressing item "@ + decimal_text(index as i128) + ": "@ + fault.text(),
            ZstdError::ItemDecompress { index, fault } => "error decompressing item "@ + decimal_text(index as i128) + ": "@ + fault.text(),
            ZstdError::ItemNoSize { index } => "could not determine decompressed size of item "@ + decimal_text(index as i128),
            ZstdError::LevelTooHigh { max } => "level must be less than "@ + decimal_text((max + 1) as i128),
            ZstdError::ParametersConflict { setting } => "cannot define compression_params and "@ + setting.name(),
            ZstdError::InvalidFormat => "invalid format value"@,
            ZstdError::InvalidDictType { value } => "invalid dictionary load mode: "@ + decimal_text(value as i128) + "; must use DICT_TYPE_* constants"@,
            ZstdError::InvalidKeyword { name } => "'"@ + name@ + "' is an invalid keyword argument"@,
            ZstdError::UnknownStrategy => "unknown compression strategy"@,
            ZstdError::ParameterOutOfRange => "parameter value is out of range"@,
            ZstdError::FrameContentSizeError => "error determining content size from frame header"@,
            ZstdError::FrameContentSizeUnknown => "could not determine content size in frame header"@,
            ZstdError::PartialFrame => "decompression error: did not decompress full frame"@,
            ZstdError::SizeMismatch { got, declared } => "decompression error: decompressed "@ + decimal_text(got as i128) + " bytes; expected "@ + decimal_text(declared as i128),
            ZstdError::EmptyInputChain => "empty input chain"@,
            ZstdError::ChunkInvalidFrame { index } => "chunk "@ + decimal_text(index as i128) + " is not a valid zstd frame"@,
            ZstdError::ChunkMissingContentSize { index } => "chunk "@ + decimal_text(index as i128) + " missing content size in frame"@,
            ZstdError::ChunkDecompress { index, fault } => "could not decompress chunk "@ + decimal_text(index as i128) + ": "@ + fault.text(),
            ZstdError::ChunkPartialFrame { index } => "chunk "@ + decimal_text(index as i128) + " did not decompress full frame"@,
            ZstdError::WriteSizeNotPositive => "write_size must be positive"@,
            ZstdError::SkipBytesTooLarge => "skip_bytes must be smaller than read_size"@,
            ZstdError::SkipBytesBeyondChunk => "skip_bytes larger than first input chunk"@,
            ZstdError::SeekNegative => "cannot seek to negative position with SEEK_SET"@,
            ZstdError::SeekBackwards => "cannot seek zstd decompression stream backwards"@,
            ZstdError::SeekFromEnd => "zstd decompression streams cannot be seeked with SEEK_END"@,
            ZstdError::PrecomputeBoth => "must only specify one of level or compression_params"@,
            ZstdError::PrecomputeNeither => "must specify one of level or compression_params"@,
        }
    }

    /// The message of the failure.
    pub fn message(&self) -> (text: String)
        ensures
            text@ == self.text(),
    {
        match self {
            ZstdError::Codec { context, fault } => {
                let mut text = String::new();
                text.append(context.to_prefix().as_str());
                text.append(fault.message().as_str());
                assert(text@ =~= self.text());
                text
            },
            ZstdError::Source { code } => {
                let mut text = String::from_str("error reading from source: ");
                text.append(decimal(*code as i128).as_str());
                assert(text@ =~= self.text());
                text
            },
            ZstdError::SourceTooLong => String::from_str("source holds more bytes than can be counted"),
            ZstdError::StreamClosed => String::from_str("stream is closed"),
            ZstdError::ReaderEnteredTwice => String::from_str("cannot __enter__ multiple times"),
            ZstdError::WriterEnteredTwice => String::from_str("cannot __enter__ multiple times"),
            ZstdError::NegativeReadSize => String::from_str("cannot read negative amounts less than -1"),
            ZstdError::UnknownFlushMode { mode } => {
                let mut text = String::from_str("unknown flush_mode: ");
                text.append(decimal(*mode as i128).as_str());
                assert(text@ =~= self.text());
                text
            },
            ZstdError::FlushModeNotRecognized => String::from_str("flush mode not recognized"),
            ZstdError::CompressAfterFinished => String::from_str("cannot call compress() after compressor finished"),
            ZstdError::AlreadyFinished => String::from_str("compressor object already finished"),
            ZstdError::DecompressObjReused => String::from_str("cannot use a decompressobj multiple times"),
            ZstdError::ChunkerFinished { op } => {
                let mut text = String::from_str("cannot call ");
                text.append(op.to_name().as_str());
                text.append("() after compression finished");
                assert(text@ =~= self.text());
                text
            },
            ZstdError::ChunkerBusy { op } => {
                let mut text = String::from_str("cannot call ");
                text.append(op.to_name().as_str());
                text.append("() before consuming output from previous operation");
                assert(text@ =~= self.text());
                text
            },
            ZstdError::ZeroBufferSize => String::from_str("buffer size must be positive"),
            ZstdError::SegmentsSizeNotMultiple => String::from_str("segments array size is not a multiple of 16"),
            ZstdError::SegmentOutOfBounds => String::from_str("offset within segments array references memory outside buffer"),
            ZstdError::NegativeOffset => String::from_str("offset must be non-negative"),
            ZstdError::OffsetOutOfRange { len } => {
                let mut text = String::from_str("offset must be less than ");
                text.append(decimal(*len as i128).as_str());
                assert(text@ =~= self.text());
                text
            },
            ZstdError::CollectionNoArguments => String::from_str("must pass at least 1 argument"),
            ZstdError::CollectionEmptyBuffer => String::from_str("ZstdBufferWithSegments cannot be empty"),
            ZstdError::TooManySegments => String::from_str("too many segments"),
            ZstdError::NoSourceElements => String::from_str("no source elements found"),
            ZstdError::SourceElementsEmpty => String::from_str("source elements are empty"),
            ZstdError::SizesMismatch { expected, got } => {
                let mut text = String::from_str("decompressed_sizes size mismatch; expected ");
                text.append(decimal(*expected as i128).as_str());
                text.append(", got ");
                text.append(decimal(*got as i128).as_str());
                assert(text@ =~= self.text());
                text
            },
            ZstdError::ListSizesMismatch { expected, got } => {
                let mut text = String::from_str("decompressed_sizes size mismatch; expected ");
                text.append(decimal(*expected as i128).as_str());
                text.append("; got ");
                text.append(decimal(*got as i128).as_str());
                assert(text@ =~= self.text());
                text
            },
            ZstdError::ThreadPool => String::from_str("error initializing thread pool"),
            ZstdError::ItemCompress { index, fault } => {
                let mut text = String::from_str("error compressing item ");
                text.append(decimal(*index as i128).as_str());
                text.append(": ");
                text.append(fault.message().as_str());
                assert(text@ =~= self.text());
                text
            },
            ZstdError::ItemDecompress { index, fault } => {
                let mut text = String::from_str("error decompressing item ");
                text.append(decimal(*index as i128).as_str());
                text.append(": ");
                text.append(fault.message().as_str());
                assert(text@ =~= self.text());
                text
            },
            ZstdError::ItemNoSize { index } => {
                let mut text = String::from_str("could not determine decompressed size of item ");
                text.append(decimal(*index as i128).as_str());
                assert(text@ =~= self.text());
                text
            },
            ZstdError::LevelTooHigh { max } => {
                let mut text = String::from_str("level must be less than ");
                text.append(decimal(*max as i128 + 1).as_str());
                assert(text@ =~= self.text());
                text
            },
            ZstdError::ParametersConflict { setting } => {
                let mut text = String::from_str("cannot define compression_params and ");
                text.append(setting.to_name().as_str());
                assert(text@ =~= self.text());
                text
            },
            ZstdError::InvalidFormat => String::from_str("invalid format value"),
            ZstdError::InvalidDictType { value } => {
                let mut text = String::from_str("invalid dictionary load mode: ");
                text.append(decimal(*value as i128).as_str());
                text.append("; must use DICT_TYPE_* constants");
                assert(text@ =~= self.text());
                text
            },
            ZstdError::InvalidKeyword { name } => {
                let mut text = String::from_str("'");
                text.append(name.as_str());
                text.append("' is an invalid keyword argument");
                assert(text@ =~= self.text());
                text
            },
            ZstdError::UnknownStrategy => String::from_str("unknown compression strategy"),
            ZstdError::ParameterOutOfRange => String::from_str("parameter value is out of range"),
            ZstdError::FrameContentSizeError => String::from_str("error determining content size from frame header"),
            ZstdError::FrameContentSizeUnknown => String::from_str("could not determine content size in frame header"),
            ZstdError::PartialFrame => String::from_str("decompression error: did not decompress full frame"),
            ZstdError::SizeMismatch { got, declared } => {
                let mut text = String::from_str("decompression error: decompressed ");
                text.append(decimal(*got as i128).as_str());
                text.append(" bytes; expected ");
                text.append(decimal(*declared as i128).as_str());
                assert(text@ =~= self.text());
                text
            },
            ZstdError::EmptyInputChain => String::from_str("empty input chain"),
            ZstdError::ChunkInvalidFrame { index } => {
                let mut text = String::from_str("chunk ");
                text.append(decimal(*index as i128).as_str());
                text.append(" is not a valid zstd frame");
                assert(text@ =~= self.text());
                text
            },
            ZstdError::ChunkMissingContentSize { index } => {
                let mut text = String::from_str("chunk ");
                text.append(decimal(*index as i128).as_str());
                text.append(" missing content size in frame");
                assert(text@ =~= self.text());
                text
            },
            ZstdError::ChunkDecompress { index, fault } => {
                let mut text = String::from_str("could not decompress chunk ");
                text.append(decimal(*index as i128).as_str());
                text.append(": ");
                text.append(fault.message().as_str());
                assert(text@ =~= self.text());
                text
            },
            ZstdError::ChunkPartialFrame { index } => {
                let mut text = String::from_str("chunk ");
                text.append(decimal(*index as i128).as_str());
                text.append(" did not decompress full frame");
                assert(text@ =~= self.text());
                text
            },
            ZstdError::WriteSizeNotPositive => String::from_str("write_size must be positive"),
            ZstdError::SkipBytesTooLarge => String::from_str("skip_bytes must be smaller than read_size"),
            ZstdError::SkipBytesBeyondChunk => String::from_str("skip_bytes larger than first input chunk"),
            ZstdError::SeekNegative => String::from_str("cannot seek to negative position with SEEK_SET"),
            ZstdError::SeekBackwards => String::from_str("cannot seek zstd decompression stream backwards"),
            ZstdError::SeekFromEnd => String::from_str("zstd decompression streams cannot be seeked with SEEK_END"),
            ZstdError::PrecomputeBoth => String::from_str("must only specify one of level or compression_params"),
            ZstdError::PrecomputeNeither => String::from_str("must specify one of level or compression_params"),
        }
    }
}

} // verus!
