//! The decompressor: a dictionary, a window limit and a frame format, from
//! which contexts and adapters are made.
//!
//! Every adapter gets a context of its own, configured like the
//! decompressor's; the decompressor keeps one for the operations it
//! performs itself.

use crate::buffers::ZstdBufferWithSegmentsCollection;
use crate::compression_dict::ZstdCompressionDict;
use crate::compressor::lemma_extends_twice;
use crate::decompression_reader::ZstdDecompressionReader;
use crate::decompression_writer::ZstdDecompressionWriter;
use crate::decompressionobj::ZstdDecompressionObj;
use crate::decompressor_iterator::ZstdDecompressorIterator;
use crate::decompressor_multi::{given_size, is_batch, multi_decompress_to_buffer, output_size, sizes_mismatch};
use crate::drain::{chunks_len, decompress_to_chunks, extends, joined, lemma_joined_added};
use crate::exceptions::{Context, Fault, ZstdError};
use crate::stream::{is_source_error, InBufferSource, ReadCallback};
use crate::zstd_safe::{
    continues, dstream_in_size, dstream_out_size, format_numbered, frame_content_size, get_frame_content_size,
    int_to_format, DCtx, FrameFormat,
};
use vstd::prelude::*;

verus! {

/// What a one-step decompression works with, going by what the frame
/// header says of the content size: nothing to do for a size of zero; a
/// buffer of the declared size, which the output has to match; or, where
/// none is declared, a buffer of `max_output_size` bytes and no size to
/// match. A header that cannot be read is refused with
/// `FrameContentSizeError`, and one that declares no size with
/// `FrameContentSizeUnknown` if no limit is given either.
pub open spec fn decompress_plan(header: Result<Option<u64>, ()>, max_output_size: usize) -> Result<
    Option<(usize, u64)>,
    ZstdError,
> {
    match header {
        Err(_) => Err(ZstdError::FrameContentSizeError),
        Ok(Some(size)) => if size == 0 {
            Ok(None)
        } else if size > usize::MAX {
            Err(ZstdError::Codec { context: Context::OneShotDecompress, fault: Fault::CounterOverflow })
        } else {
            Ok(Some((size as usize, size)))
        },
        Ok(None) => if max_output_size == 0 {
            Err(ZstdError::FrameContentSizeUnknown)
        } else {
            Ok(Some((max_output_size, 0u64)))
        },
    }
}

/// What a one-step decompression works with.
pub fn plan_decompress(header: Result<Option<u64>, ()>, max_output_size: usize) -> (plan: Result<
    Option<(usize, u64)>,
    ZstdError,
>)
    ensures
        plan == decompress_plan(header, max_output_size),
{
    match header {
        Err(_) => Err(ZstdError::FrameContentSizeError),
        Ok(Some(size)) => if size == 0 {
            Ok(None)
        } else if size > usize::MAX as u64 {
            Err(ZstdError::Codec { context: Context::OneShotDecompress, fault: Fault::CounterOverflow })
        } else {
            Ok(Some((size as usize, size)))
        },
        Ok(None) => if max_output_size == 0 {
            Err(ZstdError::FrameContentSizeUnknown)
        } else {
            Ok(Some((max_output_size, 0)))
        },
    }
}

/// The content size that a header declares, and zero where it declares
/// none.
pub open spec fn declared(header: Result<Option<u64>, ()>) -> u64 {
    match header {
        Ok(Some(size)) => size,
        _ => 0,
    }
}

/// Whether the outcome of a one-step decompression is accepted: the step
/// has to end the frame, else it is refused with `PartialFrame`; and where
/// a size is declared the output has to have it, else it is refused with
/// `SizeMismatch`.
pub open spec fn decompressed_check(len: usize, remaining: usize, declared: u64) -> Result<(), ZstdError> {
    if remaining != 0 {
        Err(ZstdError::PartialFrame)
    } else if declared != 0 && len != declared {
        Err(ZstdError::SizeMismatch { got: len, declared })
    } else {
        Ok(())
    }
}

/// Whether the outcome of a one-step decompression is accepted.
pub fn check_decompressed(len: usize, remaining: usize, declared: u64) -> (res: Result<(), ZstdError>)
    ensures
        res == decompressed_check(len, remaining, declared),
{
    if remaining != 0 {
        Err(ZstdError::PartialFrame)
    } else if declared != 0 && len as u64 != declared {
        Err(ZstdError::SizeMismatch { got: len, declared })
    } else {
        Ok(())
    }
}

/// Whether `e` is a failure to set a context up.
pub open spec fn is_setup_error(e: ZstdError) -> bool {
    e matches ZstdError::Codec { context, .. } && (context == Context::Create || context
        == Context::ResetDecompression || context == Context::MaxWindowSize || context == Context::DecodingFormat
        || context == Context::LoadDecompressionDict)
}

/// Whether `e` is a failure of copying a stream through a decompressor: of
/// setting the context up, of the reader, or of a step on what was read.
pub open spec fn is_copy_error(e: ZstdError) -> bool {
    ||| is_setup_error(e)
    ||| is_source_error(e)
    ||| e matches ZstdError::Codec { context: Context::Decompress, fault } && !(fault is PartialFrameFlush)
}

/// Whether `e` is a failure of one of the steps that set a context up: of
/// the reset or of the choice of format; of the window limit, which is set
/// unless it is zero; or of the dictionary, where one is loaded.
pub open spec fn is_step_failure(e: ZstdError, max_window_size: usize, loads_dict: bool) -> bool {
    e matches ZstdError::Codec { context, fault: Fault::Code(_) } && (context == Context::ResetDecompression || (context
        == Context::MaxWindowSize && max_window_size != 0) || context == Context::DecodingFormat || (context
        == Context::LoadDecompressionDict && loads_dict))
}

/// Sets `dctx` up: resets it, limits its window unless the limit is zero,
/// chooses its format, and loads the dictionary if there is one and it is
/// asked for. Each step may fail at the codec, with an error that names
/// the step; steps that are left out do not fail.
pub fn configure_dctx<'a>(
    dctx: &mut DCtx<'a>,
    dict_data: Option<&'a ZstdCompressionDict>,
    max_window_size: usize,
    format: FrameFormat,
    load_dict: bool,
) -> (res: Result<(), ZstdError>)
    ensures
        final(dctx).steps().len() == 0,
        res matches Err(e) ==> is_setup_error(e) && is_step_failure(e, max_window_size, load_dict && dict_data is Some),
{
    match dctx.reset() {
        Ok(()) => {},
        Err(fault) => {
            return Err(ZstdError::Codec { context: Context::ResetDecompression, fault });
        },
    }
    if max_window_size != 0 {
        match dctx.set_max_window_size(max_window_size) {
            Ok(()) => {},
            Err(fault) => {
                return Err(ZstdError::Codec { context: Context::MaxWindowSize, fault });
            },
        }
    }
    match dctx.set_format(format) {
        Ok(()) => {},
        Err(fault) => {
            return Err(ZstdError::Codec { context: Context::DecodingFormat, fault });
        },
    }
    if load_dict {
        if let Some(dict) = dict_data {
            return dict.load_into_dctx(dctx);
        }
    }
    Ok(())
}

/// A decompressor.
pub struct ZstdDecompressor<'a> {
    dict_data: Option<&'a ZstdCompressionDict>,
    max_window_size: usize,
    format: FrameFormat,
    dctx: DCtx<'a>,
}

impl<'a> ZstdDecompressor<'a> {
    /// The frame format.
    pub closed spec fn frame_format(self) -> FrameFormat {
        self.format
    }

    /// The window limit; zero stands for the codec's own.
    pub closed spec fn window_limit(self) -> usize {
        self.max_window_size
    }

    /// Whether the decompressor has a dictionary.
    pub closed spec fn has_dict(self) -> bool {
        self.dict_data is Some
    }

    /// The context of the operations that the decompressor performs
    /// itself.
    pub closed spec fn codec(self) -> DCtx<'a> {
        self.dctx
    }

    /// Whether `self` has made a copy that read `total_read` bytes and
    /// queued `total_write` bytes, which made `after` of the queue
    /// `before`: the context has taken in as many bytes as were read, in
    /// steps that began with the copy, and what it has produced is what
    /// was queued.
    pub open spec fn copied(self, total_read: usize, total_write: usize, before: Seq<Vec<u8>>, after: Seq<Vec<u8>>) -> bool {
        &&& total_write == chunks_len(after, before.len() as int)
        &&& total_read == self.codec().taken().len()
        &&& self.codec().given() == joined(after.skip(before.len() as int))
    }

    /// A decompressor. A format number that names no format is refused
    /// with `InvalidFormat`.
    pub fn new(dict_data: Option<&'a ZstdCompressionDict>, max_window_size: usize, format: u32) -> (res: Result<
        ZstdDecompressor<'a>,
        ZstdError,
    >)
        ensures
            format_numbered(format as int) is None ==> res == Err::<ZstdDecompressor<'a>, ZstdError>(
                ZstdError::InvalidFormat,
            ),
            res matches Ok(d) ==> Some(d.frame_format()) == format_numbered(format as int) && d.window_limit()
                == max_window_size && d.has_dict() == (dict_data is Some),
            res matches Err(e) ==> e == ZstdError::InvalidFormat || e == (ZstdError::Codec {
                context: Context::Create,
                fault: Fault::DecompressionContext,
            }),
            res matches Err(ZstdError::InvalidFormat) ==> format_numbered(format as int) is None,
    {
        let format = match int_to_format(format) {
            Ok(format) => format,
            Err(e) => {
                return Err(e);
            },
        };
        let dctx: DCtx<'a> = match DCtx::new() {
            Ok(dctx) => dctx,
            Err(_) => {
                return Err(ZstdError::Codec { context: Context::Create, fault: Fault::DecompressionContext });
            },
        };
        Ok(ZstdDecompressor { dict_data, max_window_size, format, dctx })
    }

    /// Sets the decompressor's own context up for a new operation, as
    /// `configure_dctx` does, with the dictionary if `load_dict` says so.
    pub fn setup_dctx(&mut self, load_dict: bool) -> (res: Result<(), ZstdError>)
        ensures
            final(self).frame_format() == old(self).frame_format(),
            final(self).window_limit() == old(self).window_limit(),
            final(self).has_dict() == old(self).has_dict(),
            final(self).codec().steps().len() == 0,
            res matches Err(e) ==> is_setup_error(e) && is_step_failure(
                e,
                old(self).window_limit(),
                load_dict && old(self).has_dict(),
            ),
    {
        configure_dctx(&mut self.dctx, self.dict_data, self.max_window_size, self.format, load_dict)
    }

    /// A fresh context set up like the decompressor's, with its dictionary.
    /// The call fails where the codec has no context to give, or at one of
    /// the steps of `configure_dctx`.
    fn fresh_dctx(&self) -> (res: Result<DCtx<'a>, ZstdError>)
        ensures
            res matches Ok(dctx) ==> dctx.steps().len() == 0,
            res matches Err(e) ==> is_setup_error(e) && (e == (ZstdError::Codec {
                context: Context::Create,
                fault: Fault::DecompressionContext,
            }) || is_step_failure(e, self.window_limit(), self.has_dict())),
    {
        let mut dctx: DCtx<'a> = match DCtx::new() {
            Ok(dctx) => dctx,
            Err(_) => {
                return Err(ZstdError::Codec { context: Context::Create, fault: Fault::DecompressionContext });
            },
        };
        match configure_dctx(&mut dctx, self.dict_data, self.max_window_size, self.format, true) {
            Ok(()) => Ok(dctx),
            Err(e) => Err(e),
        }
    }

    /// The memory the decompressor's context holds at the moment.
    pub fn memory_size(&self) -> usize {
        self.dctx.memory_size()
    }

    /// Decompresses everything that `ifh` delivers and queues the content
    /// in chunks of at most `write_size` bytes. The result is the number of
    /// bytes read and the number of bytes queued.
    ///
    /// The reads ask for `read_size` bytes, or for the input size that the
    /// codec recommends; the chunks are of the output size that it
    /// recommends where no `write_size` is given. What was queued before
    /// stays as it was, no chunk that is added is empty, and what was
    /// queued before a failure stays queued.
    pub fn copy_stream<R: ReadCallback>(
        &mut self,
        ifh: &mut R,
        out: &mut Vec<Vec<u8>>,
        read_size: Option<usize>,
        write_size: Option<usize>,
    ) -> (res: Result<(usize, usize), ZstdError>)
        ensures
            final(self).frame_format() == old(self).frame_format(),
            final(self).window_limit() == old(self).window_limit(),
            final(self).has_dict() == old(self).has_dict(),
            extends(
                old(out)@,
                final(out)@,
                match write_size {
                    Some(n) => n as nat,
                    None => usize::MAX as nat,
                },
            ),
            match res {
                Ok((total_read, total_write)) => final(self).copied(
                    total_read,
                    total_write,
                    old(out)@,
                    final(out)@,
                ),
                Err(e) => is_copy_error(e),
            },
    {
        let (read_size, write_size) = Self::copy_sizes(read_size, write_size);
        self.copy_sized(ifh, out, read_size, write_size)
    }

    /// The sizes of the reads and of the chunks of a copy: those given, else
    /// the input size and the output size that the codec recommends.
    pub fn copy_sizes(read_size: Option<usize>, write_size: Option<usize>) -> (sizes: (usize, usize))
        ensures
            read_size matches Some(n) ==> sizes.0 == n,
            write_size matches Some(n) ==> sizes.1 == n,
    {
        let read_size = match read_size {
            Some(n) => n,
            None => dstream_in_size(),
        };
        let write_size = match write_size {
            Some(n) => n,
            None => dstream_out_size(),
        };
        (read_size, write_size)
    }

    /// Takes what one read of a copy has delivered: decompresses it, and
    /// queues what comes out in chunks of at most `chunk_size` bytes. The
    /// result is the number of bytes queued; no bytes queue nothing.
    pub fn copy_data(&mut self, data: &[u8], out: &mut Vec<Vec<u8>>, chunk_size: usize) -> (res: Result<
        usize,
        ZstdError,
    >)
        ensures
            final(self).frame_format() == old(self).frame_format(),
            final(self).window_limit() == old(self).window_limit(),
            final(self).has_dict() == old(self).has_dict(),
            extends(old(out)@, final(out)@, chunk_size as nat),
            data@.len() == 0 ==> res == Ok::<usize, ZstdError>(0) && final(out)@ == old(out)@ && final(self).codec().steps() == old(self).codec().steps(),
            continues(old(self).codec().steps(), final(self).codec().steps()),
            match res {
                Ok(written) => {
                    &&& written == chunks_len(final(out)@, old(out)@.len() as int)
                    &&& final(self).codec().taken() == old(self).codec().taken() + data@
                    &&& final(self).codec().given() == old(self).codec().given() + joined(
                        final(out)@.skip(old(out)@.len() as int),
                    )
                },
                Err(e) => is_copy_error(e) && e matches ZstdError::Codec { context: Context::Decompress, .. },
            },
    {
        assert(data@.subrange(0, data@.len() as int) =~= data@);
        let run = decompress_to_chunks(&mut self.dctx, data, chunk_size, out);
        match run.fault {
            Some(fault) => Err(ZstdError::Codec { context: Context::Decompress, fault }),
            None => Ok(run.written),
        }
    }

    /// One round of a copy: reads `read_size` bytes from `ifh` and takes
    /// what the read delivers, as `copy_data` does. The result is the
    /// number of bytes read and the number of bytes queued; a round that
    /// has read nothing is the last.
    pub fn copy_round<R: ReadCallback>(
        &mut self,
        ifh: &mut R,
        out: &mut Vec<Vec<u8>>,
        read_size: usize,
        chunk_size: usize,
    ) -> (res: Result<(usize, usize), ZstdError>)
        ensures
            final(self).frame_format() == old(self).frame_format(),
            final(self).window_limit() == old(self).window_limit(),
            final(self).has_dict() == old(self).has_dict(),
            extends(old(out)@, final(out)@, chunk_size as nat),
            continues(old(self).codec().steps(), final(self).codec().steps()),
            match res {
                Ok((read, written)) => {
                    &&& written == chunks_len(final(out)@, old(out)@.len() as int)
                    &&& read == 0 ==> final(out)@ == old(out)@ && final(self).codec().steps() == old(self).codec().steps()
                    &&& final(self).codec().taken().len() == old(self).codec().taken().len() + read
                    &&& final(self).codec().given() == old(self).codec().given() + joined(
                        final(out)@.skip(old(out)@.len() as int),
                    )
                },
                Err(e) => is_copy_error(e) && !is_setup_error(e),
            },
            res matches Err(e) && e is Source ==> final(out)@ == old(out)@ && final(self).codec().steps() == old(self).codec().steps(),
    {
        let data = match ifh.read(read_size) {
            Ok(data) => data,
            Err(code) => {
                assert(out@.subrange(0, out@.len() as int) =~= out@);
                return Err(ZstdError::Source { code });
            },
        };
        match self.copy_data(data.as_slice(), out, chunk_size) {
            Ok(written) => Ok((data.len(), written)),
            Err(e) => Err(e),
        }
    }

    /// Decompresses everything that `ifh` delivers, in reads of `read_size`
    /// bytes, and queues the content in chunks of at most `chunk_size`
    /// bytes. The result is the number of bytes read and the number of
    /// bytes queued.
    ///
    /// The context is set up first. Then the copy is made of rounds until
    /// one has read nothing. What was queued before stays as it was, and
    /// what was queued before a failure stays queued.
    pub fn copy_sized<R: ReadCallback>(
        &mut self,
        ifh: &mut R,
        out: &mut Vec<Vec<u8>>,
        read_size: usize,
        chunk_size: usize,
    ) -> (res: Result<(usize, usize), ZstdError>)
        ensures
            final(self).frame_format() == old(self).frame_format(),
            final(self).window_limit() == old(self).window_limit(),
            final(self).has_dict() == old(self).has_dict(),
            extends(old(out)@, final(out)@, chunk_size as nat),
            match res {
                Ok((total_read, total_write)) => final(self).copied(
                    total_read,
                    total_write,
                    old(out)@,
                    final(out)@,
                ),
                Err(e) => is_copy_error(e),
            },
    {
        let ghost start = out@;
        assert(out@.subrange(0, start.len() as int) =~= start);
        assert(out@.skip(start.len() as int) =~= Seq::<Vec<u8>>::empty());
        match self.setup_dctx(true) {
            Ok(()) => {},
            Err(e) => {
                return Err(e);
            },
        }
        let mut total_read: usize = 0;
        let mut total_write: usize = 0;
        loop
            invariant
                start == old(out)@,
                extends(start, out@, chunk_size as nat),
                total_write == chunks_len(out@, start.len() as int),
                self.frame_format() == old(self).frame_format(),
                self.window_limit() == old(self).window_limit(),
                self.has_dict() == old(self).has_dict(),
                self.codec().taken().len() == total_read,
                self.codec().given() == joined(out@.skip(start.len() as int)),
            decreases usize::MAX - total_read,
        {
            let ghost before = out@;
            let round = self.copy_round(ifh, out, read_size, chunk_size);
            proof {
                lemma_extends_twice(start, before, out@, chunk_size as nat);
                lemma_joined_added(start.len() as int, before, out@);
                if round is Ok {
                    assert(self.codec().given() =~= joined(out@.skip(start.len() as int)));
                }
            }
            let (read, written) = match round {
                Ok(counts) => counts,
                Err(e) => {
                    return Err(e);
                },
            };
            if written > usize::MAX - total_write {
                return Err(ZstdError::Codec { context: Context::Decompress, fault: Fault::CounterOverflow });
            }
            total_write = total_write + written;
            if read == 0 {
                return Ok((total_read, total_write));
            }
            if read > usize::MAX - total_read {
                return Err(ZstdError::SourceTooLong);
            }
            total_read = total_read + read;
        }
    }

    /// Decompresses the frame at the start of `buffer` in one step.
    ///
    /// Going by the content size in the frame header, `decompress_plan`
    /// says what happens: an empty result, a refusal, or a step into a
    /// buffer of the declared size or of `max_output_size` bytes.
    /// `decompressed_check` says whether the outcome of that step is
    /// accepted. Setting the context up comes first and may fail before any
    /// of this.
    pub fn decompress(&mut self, buffer: &[u8], max_output_size: usize) -> (res: Result<Vec<u8>, ZstdError>)
        ensures
            final(self).frame_format() == old(self).frame_format(),
            final(self).window_limit() == old(self).window_limit(),
            match decompress_plan(frame_content_size(buffer@), max_output_size) {
                Err(refusal) => res matches Err(e) && (e == refusal || is_setup_error(e)),
                Ok(None) => match res {
                    Ok(data) => data@.len() == 0 && final(self).codec().steps().len() == 0,
                    Err(e) => is_setup_error(e),
                },
                Ok(Some((capacity, declared))) => match res {
                    Ok(data) => {
                        &&& data@.len() <= capacity
                        &&& declared != 0 ==> data@.len() == declared
                        &&& final(self).codec().steps().len() == 1
                        &&& final(self).codec().steps()[0].given == data@
                        &&& final(self).codec().steps()[0].remaining == 0
                        &&& final(self).codec().steps()[0].taken == buffer@.subrange(
                            0,
                            final(self).codec().steps()[0].taken.len() as int,
                        )
                    },
                    Err(e) => is_setup_error(e) || e == ZstdError::PartialFrame || e is SizeMismatch
                        || e matches ZstdError::Codec { context: Context::OneShotDecompress, .. },
                },
            },
    {
        match self.setup_dctx(true) {
            Ok(()) => {},
            Err(e) => {
                return Err(e);
            },
        }
        let header = get_frame_content_size(buffer);
        let (capacity, declared) = match plan_decompress(header, max_output_size) {
            Err(e) => {
                return Err(e);
            },
            Ok(None) => {
                return Ok(Vec::new());
            },
            Ok(Some(plan)) => plan,
        };
        let mut dest: Vec<u8> = Vec::new();
        let progress = match self.dctx.decompress_into_vec(&mut dest, capacity, buffer) {
            Ok(progress) => progress,
            Err(fault) => {
                return Err(ZstdError::Codec { context: Context::OneShotDecompress, fault });
            },
        };
        proof {
            assert(dest@.skip(0) =~= dest@);
            let taken = self.dctx.steps()[0].taken;
            assert(taken =~= buffer@.subrange(0, taken.len() as int));
        }
        match check_decompressed(dest.len(), progress.remaining, declared) {
            Ok(()) => Ok(dest),
            Err(e) => Err(e),
        }
    }

    /// Decodes each frame of `frames`, first to last, with one context, and
    /// hands back the content of the last one.
    ///
    /// A chain of no frames is refused with `EmptyInputChain`. Each frame
    /// has to declare its content size: a header that cannot be read is
    /// refused with `ChunkInvalidFrame`, one without a size with
    /// `ChunkMissingContentSize`, and a frame that one step does not decode
    /// as a whole with `ChunkPartialFrame`, each with the index of the
    /// frame.
    pub fn decompress_content_dict_chain(&mut self, frames: &Vec<Vec<u8>>) -> (res: Result<Vec<u8>, ZstdError>)
        ensures
            final(self).frame_format() == old(self).frame_format(),
            final(self).window_limit() == old(self).window_limit(),
            frames@.len() == 0 ==> res == Err::<Vec<u8>, ZstdError>(ZstdError::EmptyInputChain),
            frames@.len() > 0 && frame_content_size(frames@[0]@) is Err ==> res == Err::<Vec<u8>, ZstdError>(
                ZstdError::ChunkInvalidFrame { index: 0 },
            ),
            frames@.len() > 0 && frame_content_size(frames@[0]@) == Ok::<Option<u64>, ()>(None) ==> res == Err::<
                Vec<u8>,
                ZstdError,
            >(ZstdError::ChunkMissingContentSize { index: 0 }),
            res is Ok ==> forall|i: int|
                0 <= i < frames@.len() ==> (#[trigger] frame_content_size(frames@[i]@)) matches Ok(Some(_)),
            res matches Ok(data) ==> frames@.len() > 0 && data@.len() <= declared(
                frame_content_size(frames@[frames@.len() - 1]@),
            ),
            res matches Ok(data) ==> {
                &&& final(self).codec().steps().len() == frames@.len()
                &&& final(self).codec().steps().last().given == data@
                &&& forall|i: int|
                    0 <= i < frames@.len() ==> {
                        &&& (#[trigger] final(self).codec().steps()[i]).remaining == 0
                        &&& final(self).codec().steps()[i].taken == frames@[i]@.subrange(
                            0,
                            final(self).codec().steps()[i].taken.len() as int,
                        )
                    }
            },
    {
        if frames.len() == 0 {
            return Err(ZstdError::EmptyInputChain);
        }
        let mut last: Vec<u8> = Vec::new();
        let mut i: usize = 0;
        while i < frames.len()
            invariant
                0 <= i <= frames@.len(),
                frames@.len() > 0,
                self.format == old(self).format,
                self.max_window_size == old(self).max_window_size,
                forall|k: int| 0 <= k < i ==> (#[trigger] frame_content_size(frames@[k]@)) matches Ok(Some(_)),
                i > 0 ==> last@.len() <= declared(frame_content_size(frames@[i - 1]@)),
                i > 0 ==> self.dctx.steps().len() == i && self.dctx.steps().last().given == last@,
                forall|k: int|
                    0 <= k < i ==> i == self.dctx.steps().len() && {
                        &&& (#[trigger] self.dctx.steps()[k]).remaining == 0
                        &&& self.dctx.steps()[k].taken == frames@[k]@.subrange(
                            0,
                            self.dctx.steps()[k].taken.len() as int,
                        )
                    },
            decreases frames@.len() - i,
        {
            let chunk = frames[i].as_slice();
            let size = match get_frame_content_size(chunk) {
                Err(_) => {
                    return Err(ZstdError::ChunkInvalidFrame { index: i });
                },
                Ok(None) => {
                    return Err(ZstdError::ChunkMissingContentSize { index: i });
                },
                Ok(Some(size)) => size,
            };
            if i == 0 {
                match self.setup_dctx(false) {
                    Ok(()) => {},
                    Err(e) => {
                        return Err(e);
                    },
                }
            }
            let capacity = if size > usize::MAX as u64 {
                usize::MAX
            } else {
                size as usize
            };
            let mut dest: Vec<u8> = Vec::new();
            let ghost before = self.dctx.steps();
            match self.dctx.decompress_into_vec(&mut dest, capacity, chunk) {
                Err(fault) => {
                    return Err(ZstdError::ChunkDecompress { index: i, fault });
                },
                Ok(progress) => {
                    if progress.remaining != 0 {
                        return Err(ZstdError::ChunkPartialFrame { index: i });
                    }
                    proof {
                        assert(dest@.skip(0) =~= dest@);
                        let taken = self.dctx.steps().last().taken;
                        assert(taken =~= chunk@.subrange(0, taken.len() as int));
                        assert forall|k: int| 0 <= k < i implies (#[trigger] self.dctx.steps()[k]) == before[k] by {}
                    }
                },
            }
            last = dest;
            i = i + 1;
        }
        Ok(last)
    }

    /// A one-shot incremental decompressor with steps of `write_size`
    /// bytes of output, or of the output size that the codec recommends. A
    /// size of zero is refused with `WriteSizeNotPositive`.
    pub fn decompressobj(&self, write_size: Option<usize>, read_across_frames: bool) -> (res: Result<
        ZstdDecompressionObj<'a>,
        ZstdError,
    >)
        ensures
            write_size == Some(0usize) ==> res == Err::<ZstdDecompressionObj<'a>, ZstdError>(
                ZstdError::WriteSizeNotPositive,
            ),
            res matches Ok(obj) ==> !obj.is_finished() && obj.spans_frames() == read_across_frames && (
            write_size matches Some(n) ==> obj.chunk_limit() == n) && obj.codec().steps().len() == 0,
            res matches Err(e) ==> e == ZstdError::WriteSizeNotPositive || is_setup_error(e),
            res matches Err(ZstdError::WriteSizeNotPositive) ==> write_size == Some(0usize),
    {
        let write_size = match write_size {
            Some(n) => {
                if n < 1 {
                    return Err(ZstdError::WriteSizeNotPositive);
                }
                n
            },
            None => dstream_out_size(),
        };
        match self.fresh_dctx() {
            Ok(dctx) => Ok(ZstdDecompressionObj::new(dctx, write_size, read_across_frames)),
            Err(e) => Err(e),
        }
    }

    /// Decompresses each of `frames` with up to `threads` workers, and
    /// collects the contents in input order.
    ///
    /// The context is set up first. After that a list of sizes that does
    /// not hold one size for each frame is refused with `SizesMismatch`,
    /// and a batch of no frames with `CollectionNoArguments`.
    pub fn multi_decompress_to_buffer(&mut self, frames: &Vec<&[u8]>, decompressed_sizes: Option<&[u8]>, threads: isize) -> (res:
        Result<ZstdBufferWithSegmentsCollection, ZstdError>)
        ensures
            final(self).frame_format() == old(self).frame_format(),
            final(self).window_limit() == old(self).window_limit(),
            final(self).has_dict() == old(self).has_dict(),
            match sizes_mismatch(frames@.len(), decompressed_sizes) {
                Some(mismatch) => res matches Err(e) && (e == mismatch || is_setup_error(e)),
                None => frames@.len() == 0 ==> (res matches Err(e) && (e == ZstdError::CollectionNoArguments
                    || is_setup_error(e))),
            },
            (res matches Err(e) && is_setup_error(e) && is_step_failure(
                e,
                old(self).window_limit(),
                old(self).has_dict(),
            )) || is_batch(res, frames@, decompressed_sizes),
            sizes_mismatch(frames@.len(), decompressed_sizes) is None && (exists|k: int|
                0 <= k < frames@.len() && output_size(#[trigger] frames@[k]@, given_size(decompressed_sizes, k))
                    is None) ==> res is Err,
    {
        match self.setup_dctx(true) {
            Ok(()) => {},
            Err(e) => {
                return Err(e);
            },
        }
        multi_decompress_to_buffer(&self.dctx, frames, decompressed_sizes, threads)
    }

    /// An iterator over the content of `source`, in chunks of at most
    /// `write_size` bytes, that passes over the first `skip_bytes` bytes of
    /// input.
    ///
    /// `read_size` is the size of the reads that `source` was made for, or
    /// the input size that the codec recommends; as many bytes to skip, or
    /// more, are refused with `SkipBytesTooLarge`.
    pub fn read_to_iter<S: InBufferSource>(
        &self,
        source: S,
        read_size: Option<usize>,
        write_size: Option<usize>,
        skip_bytes: Option<usize>,
    ) -> (res: Result<ZstdDecompressorIterator<'a, S>, ZstdError>)
        requires
            source.wf(),
        ensures
            read_size is Some && skip_bytes is Some && skip_bytes->0 >= read_size->0 ==> res == Err::<
                ZstdDecompressorIterator<'a, S>,
                ZstdError,
            >(ZstdError::SkipBytesTooLarge),
            res matches Ok(it) ==> it.wf() && !it.is_finished() && (write_size matches Some(n) ==> it.chunk_limit()
                == n) && it.codec().steps().len() == 0,
    {
        let read_size = match read_size {
            Some(n) => n,
            None => dstream_in_size(),
        };
        let write_size = match write_size {
            Some(n) => n,
            None => dstream_out_size(),
        };
        let skip_bytes = match skip_bytes {
            Some(n) => n,
            None => 0,
        };
        if skip_bytes >= read_size {
            return Err(ZstdError::SkipBytesTooLarge);
        }
        let dctx = match self.fresh_dctx() {
            Ok(dctx) => dctx,
            Err(e) => {
                return Err(e);
            },
        };
        ZstdDecompressorIterator::new(dctx, source, write_size, skip_bytes)
    }

    /// A reader of the content of `source`.
    pub fn stream_reader<S: InBufferSource>(&self, source: S, read_across_frames: bool, closefd: bool) -> (res:
        Result<ZstdDecompressionReader<'a, S>, ZstdError>)
        requires
            source.wf(),
        ensures
            res matches Ok(r) ==> r.wf() && r.input() == source && r.spans_frames() == read_across_frames
                && r.owns_source() == closefd && !r.is_closed() && !r.is_entered() && !r.is_finished()
                && r.position() == 0 && r.codec().steps().len() == 0,
            res matches Err(e) ==> is_setup_error(e),
    {
        match self.fresh_dctx() {
            Ok(dctx) => Ok(ZstdDecompressionReader::new(dctx, source, read_across_frames, closefd)),
            Err(e) => Err(e),
        }
    }

    /// A writer that decompresses what is written to it, in chunks of at
    /// most `write_size` bytes, or of the output size that the codec
    /// recommends.
    pub fn stream_writer(&self, write_size: Option<usize>, write_return_read: bool, closefd: bool) -> (res: Result<
        ZstdDecompressionWriter<'a>,
        ZstdError,
    >)
        ensures
            res matches Ok(w) ==> w.returns_read() == write_return_read && w.owns_sink() == closefd && !w.is_closed()
                && !w.is_entered() && (write_size matches Some(n) ==> w.chunk_limit() == n) && w.codec().steps().len()
                == 0,
            res matches Err(e) ==> is_setup_error(e),
    {
        let write_size = match write_size {
            Some(n) => n,
            None => dstream_out_size(),
        };
        match self.fresh_dctx() {
            Ok(dctx) => Ok(ZstdDecompressionWriter::new(dctx, write_size, write_return_read, closefd)),
            Err(e) => Err(e),
        }
    }
}

} // verus!
