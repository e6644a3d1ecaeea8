//! The compressor: one set of parameters and an optional dictionary, from
//! which contexts and adapters are made.
//!
//! Every adapter gets a context of its own, configured like the
//! compressor's; the compressor keeps one for the operations it performs
//! itself.

use crate::buffers::ZstdBufferWithSegmentsCollection;
use crate::compression_chunker::ZstdCompressionChunker;
use crate::compression_dict::ZstdCompressionDict;
use crate::compression_parameters::{
    cpu_count, settings_of, CCtxParams, Parameter, ParameterValue, ZstdCompressionParameters,
};
use crate::compression_reader::ZstdCompressionReader;
use crate::compression_writer::ZstdCompressionWriter;
use crate::compressionobj::ZstdCompressionObj;
use crate::compressor_iterator::ZstdCompressorIterator;
use crate::compressor_multi::{
    cctx_setup_fails, configured_cctx, is_batch, is_cctx_setup_error, multi_compress_to_buffer,
};
use crate::constants::CONTENTSIZE_UNKNOWN;
use crate::drain::{chunks_len, compress_to_chunks, extends, flush_to_chunks, joined, lemma_joined_added};
use crate::exceptions::{Context, Fault, Setting, ZstdError};
use crate::stream::{is_source_error, InBufferSource, ReadCallback};
use crate::zstd_safe::{
    accepted, continues, cstream_in_size, cstream_out_size, frame_bound, max_c_level, CCtx, EndDirective,
    FrameProgression,
};
use vstd::prelude::*;

verus! {

/// The first of the single settings that was given, in the order in which
/// they are looked at.
pub open spec fn conflict(
    write_checksum: Option<bool>,
    write_content_size: Option<bool>,
    write_dict_id: Option<bool>,
    threads: i32,
) -> Option<Setting> {
    if write_checksum is Some {
        Some(Setting::WriteChecksum)
    } else if write_content_size is Some {
        Some(Setting::WriteContentSize)
    } else if write_dict_id is Some {
        Some(Setting::WriteDictId)
    } else if threads != 0 {
        Some(Setting::Threads)
    } else {
        None
    }
}

/// The number of a flag: the one given, else `default`.
pub open spec fn flag_number(flag: Option<bool>, default: bool) -> i32 {
    let on = match flag {
        Some(on) => on,
        None => default,
    };
    if on {
        1
    } else {
        0
    }
}

/// The settings of a compressor without a parameter set: the level; the
/// content size, which is written unless turned off; the checksum, which is
/// written only if turned on; the dictionary id, which is written unless
/// turned off; and the number of workers, unless it is zero.
pub open spec fn plain_settings(
    level: i32,
    write_checksum: Option<bool>,
    write_content_size: Option<bool>,
    write_dict_id: Option<bool>,
    threads: i32,
) -> Seq<ParameterValue> {
    let fixed = seq![
        ParameterValue { parameter: Parameter::CompressionLevel, value: level },
        ParameterValue { parameter: Parameter::WriteContentSize, value: flag_number(write_content_size, true) },
        ParameterValue { parameter: Parameter::WriteChecksum, value: flag_number(write_checksum, false) },
        ParameterValue { parameter: Parameter::WriteDictId, value: flag_number(write_dict_id, true) },
    ];
    if threads != 0 {
        fixed.push(ParameterValue { parameter: Parameter::Threads, value: threads })
    } else {
        fixed
    }
}

/// The number of a flag: the one given, else `default`.
fn flag_or(flag: Option<bool>, default: bool) -> (number: i32)
    ensures
        number == flag_number(flag, default),
{
    let on = match flag {
        Some(on) => on,
        None => default,
    };
    if on {
        1
    } else {
        0
    }
}

/// The settings of a compressor.
///
/// With a parameter set the settings are those of the set, and giving any
/// single setting besides is refused with `ParametersConflict`, for the
/// first one in the order checksum, content size, dictionary id, threads.
/// Without one they are `plain_settings`.
pub fn compressor_params(
    level: i32,
    compression_params: Option<&ZstdCompressionParameters>,
    write_checksum: Option<bool>,
    write_content_size: Option<bool>,
    write_dict_id: Option<bool>,
    threads: i32,
) -> (res: Result<CCtxParams, ZstdError>)
    ensures
        match compression_params {
            Some(set) => match conflict(write_checksum, write_content_size, write_dict_id, threads) {
                Some(setting) => res matches Err(e) && e == (ZstdError::ParametersConflict { setting }),
                None => res matches Ok(params) && params@ == settings_of(*set),
            },
            None => res matches Ok(params) && params@ == plain_settings(
                level,
                write_checksum,
                write_content_size,
                write_dict_id,
                threads,
            ),
        },
{
    let mut params = CCtxParams::create();
    match compression_params {
        Some(set) => {
            if write_checksum.is_some() {
                return Err(ZstdError::ParametersConflict { setting: Setting::WriteChecksum });
            }
            if write_content_size.is_some() {
                return Err(ZstdError::ParametersConflict { setting: Setting::WriteContentSize });
            }
            if write_dict_id.is_some() {
                return Err(ZstdError::ParametersConflict { setting: Setting::WriteDictId });
            }
            if threads != 0 {
                return Err(ZstdError::ParametersConflict { setting: Setting::Threads });
            }
            params.apply_compression_parameters(set);
            assert(params@ =~= settings_of(*set));
        },
        None => {
            params.set_parameter(Parameter::CompressionLevel, level);
            params.set_parameter(Parameter::WriteContentSize, flag_or(write_content_size, true));
            params.set_parameter(Parameter::WriteChecksum, flag_or(write_checksum, false));
            params.set_parameter(Parameter::WriteDictId, flag_or(write_dict_id, true));
            if threads != 0 {
                params.set_parameter(Parameter::Threads, threads);
            }
            assert(params@ =~= plain_settings(level, write_checksum, write_content_size, write_dict_id, threads));
        },
    }
    Ok(params)
}

/// Why `level` is refused where `max` is the largest level of the codec, if
/// it is: it is above `max`.
pub open spec fn level_refusal(level: i32, max: i32) -> Option<ZstdError> {
    if level > max {
        Some(ZstdError::LevelTooHigh { max })
    } else {
        None
    }
}

/// Refuses a level above `max`, the largest level of the codec.
pub fn check_level(level: i32, max: i32) -> (res: Result<(), ZstdError>)
    ensures
        res == match level_refusal(level, max) {
            Some(e) => Err::<(), ZstdError>(e),
            None => Ok::<(), ZstdError>(()),
        },
{
    if level > max {
        Err(ZstdError::LevelTooHigh { max })
    } else {
        Ok(())
    }
}

/// The number of worker threads for `threads` as asked, on a machine of
/// `cpus` processors: all processors, as far as the number can be held, for
/// a negative number, else the number asked for.
pub open spec fn worker_threads(threads: i32, cpus: usize) -> i32 {
    if threads >= 0 {
        threads
    } else if cpus > i32::MAX {
        i32::MAX
    } else {
        cpus as i32
    }
}

/// The number of worker threads for `threads` as asked, on a machine of
/// `cpus` processors.
pub fn resolve_threads(threads: i32, cpus: usize) -> (workers: i32)
    ensures
        workers == worker_threads(threads, cpus),
{
    if threads >= 0 {
        threads
    } else if cpus > i32::MAX as usize {
        i32::MAX
    } else {
        cpus as i32
    }
}

/// The settings of a compressor that could be made: those of the parameter
/// set where one is given, else `plain_settings`.
pub open spec fn compressor_settings(
    level: i32,
    compression_params: Option<&ZstdCompressionParameters>,
    write_checksum: Option<bool>,
    write_content_size: Option<bool>,
    write_dict_id: Option<bool>,
    workers: i32,
) -> Seq<ParameterValue> {
    match compression_params {
        Some(set) => settings_of(*set),
        None => plain_settings(level, write_checksum, write_content_size, write_dict_id, workers),
    }
}

/// Why settings are refused as a whole, if they are: for the first single
/// setting that is given beside a parameter set.
pub open spec fn conflict_refusal(
    compression_params: Option<&ZstdCompressionParameters>,
    write_checksum: Option<bool>,
    write_content_size: Option<bool>,
    write_dict_id: Option<bool>,
    threads: i32,
) -> Option<ZstdError> {
    if compression_params is Some {
        match conflict(write_checksum, write_content_size, write_dict_id, threads) {
            Some(setting) => Some(ZstdError::ParametersConflict { setting }),
            None => None,
        }
    } else {
        None
    }
}

/// Why a compressor is refused before a context is asked for, if it is: for
/// its level, and then for a single setting given beside a parameter set.
pub open spec fn compressor_refusal(
    level: i32,
    max: i32,
    compression_params: Option<&ZstdCompressionParameters>,
    write_checksum: Option<bool>,
    write_content_size: Option<bool>,
    write_dict_id: Option<bool>,
    threads: i32,
) -> Option<ZstdError> {
    if level > max {
        Some(ZstdError::LevelTooHigh { max })
    } else {
        conflict_refusal(compression_params, write_checksum, write_content_size, write_dict_id, threads)
    }
}

/// The source size to declare: the one given, else "not known".
pub open spec fn declared_size(size: Option<u64>) -> u64 {
    match size {
        Some(size) => size,
        None => CONTENTSIZE_UNKNOWN,
    }
}

/// The source size to declare: the one given, else "not known".
pub fn size_or_unknown(size: Option<u64>) -> (declared: u64)
    ensures
        declared == declared_size(size),
{
    match size {
        Some(size) => size,
        None => CONTENTSIZE_UNKNOWN,
    }
}

/// Whether `e` is a failure to make a context, configure it and declare the
/// size of the source to it.
pub open spec fn is_pledge_error(e: ZstdError) -> bool {
    is_cctx_setup_error(e) || e matches ZstdError::Codec { context: Context::SourceSize, fault: Fault::Code(_) }
}

/// Whether `e` is a failure of copying a stream through a compressor: of
/// declaring the size of the source, of the reader, of a step on what was
/// read, or of the steps that end the frame.
pub open spec fn is_copy_error(e: ZstdError) -> bool {
    ||| e matches ZstdError::Codec { context: Context::SourceSize, fault: Fault::Code(_) }
    ||| is_source_error(e)
    ||| e matches ZstdError::Codec { context: Context::Compress, fault } && !(fault is PartialFrameFlush)
    ||| e matches ZstdError::Codec { context: Context::EndStream, fault } && !(fault is PartialFrameFlush)
}

/// A compressor.
pub struct ZstdCompressor<'a> {
    threads: i32,
    dict: Option<&'a ZstdCompressionDict>,
    params: CCtxParams,
    cctx: CCtx<'a>,
}

impl<'a> ZstdCompressor<'a> {
    /// The settings that every context of the compressor is made with.
    pub closed spec fn settings(self) -> Seq<ParameterValue> {
        self.params@
    }

    /// The number of worker threads, with "all processors" resolved.
    pub closed spec fn workers(self) -> i32 {
        self.threads
    }

    /// Whether the compressor has a dictionary.
    pub closed spec fn has_dict(self) -> bool {
        self.dict is Some
    }

    /// The context of the operations that the compressor performs itself.
    pub closed spec fn codec(self) -> CCtx<'a> {
        self.cctx
    }

    /// Whether `res` can be what making a compressor gives where `max` is
    /// the largest level of the codec and the machine has `cpus`
    /// processors.
    ///
    /// A compressor that is refused before a context is asked for fails
    /// with its refusal. Any other has the workers and the settings that
    /// were asked for, none of which is refused before the codec sees it,
    /// or fails as making its context does.
    pub open spec fn made(
        res: Result<ZstdCompressor<'a>, ZstdError>,
        max: i32,
        cpus: usize,
        level: i32,
        has_dict: bool,
        compression_params: Option<&ZstdCompressionParameters>,
        write_checksum: Option<bool>,
        write_content_size: Option<bool>,
        write_dict_id: Option<bool>,
        threads: i32,
    ) -> bool {
        let workers = worker_threads(threads, cpus);
        let settings = compressor_settings(
            level,
            compression_params,
            write_checksum,
            write_content_size,
            write_dict_id,
            workers,
        );
        match compressor_refusal(
            level,
            max,
            compression_params,
            write_checksum,
            write_content_size,
            write_dict_id,
            threads,
        ) {
            Some(refusal) => res matches Err(e) && e == refusal,
            None => match res {
                Ok(c) => c.workers() == workers && c.settings() == settings && accepted(settings),
                Err(e) => cctx_setup_fails(settings, has_dict, e),
            },
        }
    }

    /// A compressor, where `max` is the largest level of the codec and the
    /// machine has `cpus` processors, of which there is at least one.
    ///
    /// A level above `max` is refused with `LevelTooHigh`, then a conflict
    /// of settings as `compressor_params` says. A negative number of
    /// threads stands for all processors. The settings are pushed into a
    /// context at once, so that a value the codec refuses fails here.
    pub fn with_limits(
        max: i32,
        cpus: usize,
        level: i32,
        dict_data: Option<&'a ZstdCompressionDict>,
        compression_params: Option<&ZstdCompressionParameters>,
        write_checksum: Option<bool>,
        write_content_size: Option<bool>,
        write_dict_id: Option<bool>,
        threads: i32,
    ) -> (res: Result<ZstdCompressor<'a>, ZstdError>)
        requires
            cpus >= 1,
        ensures
            Self::made(
                res,
                max,
                cpus,
                level,
                dict_data is Some,
                compression_params,
                write_checksum,
                write_content_size,
                write_dict_id,
                threads,
            ),
    {
        match check_level(level, max) {
            Ok(()) => {},
            Err(e) => {
                return Err(e);
            },
        }
        let workers = resolve_threads(threads, cpus);
        let params = match compressor_params(
            level,
            compression_params,
            write_checksum,
            write_content_size,
            write_dict_id,
            workers,
        ) {
            Ok(params) => params,
            Err(e) => {
                return Err(e);
            },
        };
        match configured_cctx(&params, dict_data) {
            Ok(cctx) => Ok(ZstdCompressor { threads: workers, dict: dict_data, params, cctx }),
            Err(e) => Err(e),
        }
    }

    /// A compressor.
    ///
    /// The largest level is the codec's, and the number of processors that
    /// of the machine: the compressor is made as `with_limits` makes it
    /// for the two. So a level above the largest is refused with
    /// `LevelTooHigh`, and only such a level is; a single setting given
    /// beside a parameter set is refused with `ParametersConflict` unless
    /// the level is; and nothing else is refused before a context is asked
    /// for.
    pub fn new(
        level: i32,
        dict_data: Option<&'a ZstdCompressionDict>,
        compression_params: Option<&ZstdCompressionParameters>,
        write_checksum: Option<bool>,
        write_content_size: Option<bool>,
        write_dict_id: Option<bool>,
        threads: i32,
    ) -> (res: Result<ZstdCompressor<'a>, ZstdError>)
        ensures
            exists|max: i32, cpus: usize|
                cpus >= 1 && #[trigger] Self::made(
                    res,
                    max,
                    cpus,
                    level,
                    dict_data is Some,
                    compression_params,
                    write_checksum,
                    write_content_size,
                    write_dict_id,
                    threads,
                ),
            match res {
                Ok(c) => {
                    &&& threads >= 0 ==> c.workers() == threads
                    &&& threads < 0 ==> c.workers() >= 1
                    &&& conflict_refusal(
                        compression_params,
                        write_checksum,
                        write_content_size,
                        write_dict_id,
                        threads,
                    ) is None
                    &&& c.settings() == compressor_settings(
                        level,
                        compression_params,
                        write_checksum,
                        write_content_size,
                        write_dict_id,
                        c.workers(),
                    )
                    &&& accepted(c.settings())
                },
                Err(e) => {
                    ||| e matches ZstdError::LevelTooHigh { max } && level > max
                    ||| conflict_refusal(
                        compression_params,
                        write_checksum,
                        write_content_size,
                        write_dict_id,
                        threads,
                    ) == Some(e)
                    ||| is_cctx_setup_error(e) && conflict_refusal(
                        compression_params,
                        write_checksum,
                        write_content_size,
                        write_dict_id,
                        threads,
                    ) is None
                },
            },
    {
        let max = max_c_level();
        let cpus = if threads < 0 {
            cpu_count()
        } else {
            1
        };
        Self::with_limits(
            max,
            cpus,
            level,
            dict_data,
            compression_params,
            write_checksum,
            write_content_size,
            write_dict_id,
            threads,
        )
    }

    /// A fresh context configured like the compressor's. The call fails if
    /// one of the settings is refused before the codec sees it, and else
    /// only where the codec fails.
    pub fn setup_cctx(&self) -> (res: Result<CCtx<'a>, ZstdError>)
        ensures
            res is Ok ==> accepted(self.settings()),
            res matches Ok(cctx) ==> cctx.steps().len() == 0,
            res matches Err(e) ==> cctx_setup_fails(self.settings(), self.has_dict(), e),
    {
        configured_cctx(&self.params, self.dict)
    }

    /// A fresh context configured like the compressor's, with `size`
    /// declared as the size of the source. The call fails where
    /// `setup_cctx` does, or where the codec refuses the size.
    fn pledged_cctx(&self, size: Option<u64>) -> (res: Result<CCtx<'a>, ZstdError>)
        ensures
            res is Ok ==> accepted(self.settings()),
            res matches Ok(cctx) ==> cctx.steps().len() == 0,
            res matches Err(e) ==> is_pledge_error(e),
    {
        let mut cctx = match self.setup_cctx() {
            Ok(cctx) => cctx,
            Err(e) => {
                return Err(e);
            },
        };
        match cctx.set_pledged_source_size(size_or_unknown(size)) {
            Ok(()) => Ok(cctx),
            Err(fault) => Err(ZstdError::Codec { context: Context::SourceSize, fault }),
        }
    }

    /// The memory the compressor's context holds at the moment.
    pub fn memory_size(&self) -> usize {
        self.cctx.memory_size()
    }

    /// How far the frame in progress has come: the bytes taken in, the
    /// bytes compressed and the bytes produced.
    pub fn frame_progression(&self) -> (progress: (u64, u64, u64)) {
        let progression: FrameProgression = self.cctx.get_frame_progression();
        (progression.ingested, progression.consumed, progression.produced)
    }

    /// Compresses `data` into one frame.
    ///
    /// The frame is all that the one step of the compressor's context has
    /// produced, is never longer than the codec's bound for `data`, and
    /// comes only where that step has left nothing behind.
    pub fn compress(&mut self, data: &[u8]) -> (res: Result<Vec<u8>, ZstdError>)
        ensures
            final(self).settings() == old(self).settings(),
            final(self).workers() == old(self).workers(),
            final(self).has_dict() == old(self).has_dict(),
            final(self).codec().steps().len() <= 1,
            match res {
                Ok(frame) => {
                    &&& frame@.len() <= frame_bound(data.len())
                    &&& final(self).codec().steps().len() == 1
                    &&& final(self).codec().steps()[0].mode == EndDirective::End
                    &&& final(self).codec().steps()[0].remaining == 0
                    &&& final(self).codec().given() == frame@
                    &&& final(self).codec().taken().len() <= data@.len()
                    &&& final(self).codec().taken() == data@.subrange(0, final(self).codec().taken().len() as int)
                },
                Err(e) => e matches ZstdError::Codec { context: Context::OneShotCompress, fault } && (fault is Code
                    || (fault is PartialFrameFlush && final(self).codec().steps().len() == 1 && final(self).codec().steps()[0].remaining > 0)),
            },
    {
        match self.cctx.compress(data) {
            Ok(frame) => Ok(frame),
            Err(fault) => Err(ZstdError::Codec { context: Context::OneShotCompress, fault }),
        }
    }

    /// A chunker with chunks of `chunk_size` bytes, or of the output size
    /// that the codec recommends.
    ///
    /// A chunk size of zero is refused with `ZeroBufferSize`, once a context
    /// is there; any other failure is one to make that context, configure it
    /// and declare `size` to it.
    pub fn chunker(&self, size: Option<u64>, chunk_size: Option<usize>) -> (res: Result<
        ZstdCompressionChunker<'a>,
        ZstdError,
    >)
        ensures
            res matches Ok(c) ==> c.wf() && !c.is_finished() && !c.is_iterating() && (chunk_size matches Some(n)
                ==> c.chunk_len() == n) && c.codec().steps().len() == 0,
            chunk_size == Some(0usize) ==> res is Err,
            res matches Err(e) ==> is_pledge_error(e) || (e == ZstdError::ZeroBufferSize && !(chunk_size matches Some(n)
                && n > 0)),
    {
        let cctx = match self.pledged_cctx(size) {
            Ok(cctx) => cctx,
            Err(e) => {
                return Err(e);
            },
        };
        let chunk_size = match chunk_size {
            Some(n) => n,
            None => cstream_out_size(),
        };
        ZstdCompressionChunker::new(cctx, chunk_size)
    }

    /// A one-shot incremental compressor. The call fails only where no
    /// context can be made, configured and told `size`.
    pub fn compressobj(&self, size: Option<u64>) -> (res: Result<ZstdCompressionObj<'a>, ZstdError>)
        ensures
            res matches Ok(obj) ==> !obj.is_finished() && obj.codec().steps().len() == 0,
            res matches Err(e) ==> is_pledge_error(e),
    {
        match self.pledged_cctx(size) {
            Ok(cctx) => Ok(ZstdCompressionObj::new(cctx)),
            Err(e) => Err(e),
        }
    }

    /// An iterator over the compressed form of `source`, in chunks of at
    /// most `write_size` bytes, or of the output size that the codec
    /// recommends.
    pub fn read_to_iter<S: InBufferSource>(&self, source: S, size: Option<u64>, write_size: Option<usize>) -> (res:
        Result<ZstdCompressorIterator<'a, S>, ZstdError>)
        requires
            source.wf(),
        ensures
            res matches Ok(it) ==> it.wf() && it.input() == source && !it.is_finished() && (write_size matches Some(n)
                ==> it.chunk_limit() == n) && it.codec().steps().len() == 0,
            res matches Err(e) ==> is_pledge_error(e),
    {
        let cctx = match self.setup_cctx() {
            Ok(cctx) => cctx,
            Err(e) => {
                return Err(e);
            },
        };
        let write_size = match write_size {
            Some(n) => n,
            None => cstream_out_size(),
        };
        ZstdCompressorIterator::new(cctx, source, size_or_unknown(size), write_size)
    }

    /// A reader of the compressed form of `source`.
    pub fn stream_reader<S: InBufferSource>(&self, source: S, size: Option<u64>, closefd: bool) -> (res: Result<
        ZstdCompressionReader<'a, S>,
        ZstdError,
    >)
        requires
            source.wf(),
        ensures
            res matches Ok(r) ==> r.wf() && r.input() == source && r.owns_source() == closefd && !r.is_closed()
                && !r.is_entered() && !r.is_finished() && r.position() == 0 && r.codec().steps().len() == 0,
            res matches Err(e) ==> is_pledge_error(e),
    {
        let cctx = match self.setup_cctx() {
            Ok(cctx) => cctx,
            Err(e) => {
                return Err(e);
            },
        };
        ZstdCompressionReader::new(cctx, source, size_or_unknown(size), closefd)
    }

    /// A writer that compresses what is written to it, in chunks of at
    /// most `write_size` bytes, or of the output size that the codec
    /// recommends.
    pub fn stream_writer(&self, size: Option<u64>, write_size: Option<usize>, write_return_read: bool, closefd: bool) -> (res:
        Result<ZstdCompressionWriter<'a>, ZstdError>)
        ensures
            res matches Ok(w) ==> w.returns_read() == write_return_read && w.owns_sink() == closefd && !w.is_closed()
                && !w.is_entered() && w.position() == 0 && (write_size matches Some(n) ==> w.chunk_limit() == n)
                && w.codec().steps().len() == 0,
            res matches Err(e) ==> is_pledge_error(e),
    {
        let cctx = match self.setup_cctx() {
            Ok(cctx) => cctx,
            Err(e) => {
                return Err(e);
            },
        };
        let write_size = match write_size {
            Some(n) => n,
            None => cstream_out_size(),
        };
        ZstdCompressionWriter::new(cctx, size_or_unknown(size), write_size, write_return_read, closefd)
    }

    /// Compresses everything that `ifh` delivers and queues the frame in
    /// chunks of at most `write_size` bytes. The result is the number of
    /// bytes read and the number of bytes queued.
    ///
    /// The reads ask for `read_size` bytes, or for the input size that the
    /// codec recommends; the chunks are of the output size that it
    /// recommends where no `write_size` is given. What was queued before
    /// stays as it was, no chunk that is added is empty, and what was
    /// queued before a failure stays queued.
    pub fn copy_stream<R: ReadCallback>(
        &mut self,
        ifh: &mut R,
        out: &mut Vec<Vec<u8>>,
        size: Option<u64>,
        read_size: Option<usize>,
        write_size: Option<usize>,
    ) -> (res: Result<(usize, usize), ZstdError>)
        ensures
            final(self).settings() == old(self).settings(),
            final(self).workers() == old(self).workers(),
            final(self).has_dict() == old(self).has_dict(),
            extends(
                old(out)@,
                final(out)@,
                match write_size {
                    Some(n) => n as nat,
                    None => usize::MAX as nat,
                },
            ),
            match res {
                Ok((total_read, total_write)) => final(self).copied(
                    total_read,
                    total_write,
                    old(out)@,
                    final(out)@,
                ),
                Err(e) => is_copy_error(e),
            },
    {
        let (read_size, write_size) = Self::copy_sizes(read_size, write_size);
        self.copy_sized(ifh, out, size, read_size, write_size)
    }

    /// Whether `self` has made a copy that read `total_read` bytes and
    /// queued `total_write` bytes, which made `after` of the queue
    /// `before`: the context has taken in as many bytes as were read, in
    /// steps that began with the copy, and what it has produced is what
    /// was queued, to the last byte.
    pub open spec fn copied(self, total_read: usize, total_write: usize, before: Seq<Vec<u8>>, after: Seq<Vec<u8>>) -> bool {
        &&& total_write == chunks_len(after, before.len() as int)
        &&& total_read == self.codec().taken().len()
        &&& self.codec().given() == joined(after.skip(before.len() as int))
        &&& self.codec().steps().len() > 0
        &&& self.codec().steps().last().mode == EndDirective::End
        &&& self.codec().steps().last().remaining == 0
    }

    /// The sizes of the reads and of the chunks of a copy: those given, else
    /// the input size and the output size that the codec recommends.
    pub fn copy_sizes(read_size: Option<usize>, write_size: Option<usize>) -> (sizes: (usize, usize))
        ensures
            read_size matches Some(n) ==> sizes.0 == n,
            write_size matches Some(n) ==> sizes.1 == n,
    {
        let read_size = match read_size {
            Some(n) => n,
            None => cstream_in_size(),
        };
        let write_size = match write_size {
            Some(n) => n,
            None => cstream_out_size(),
        };
        (read_size, write_size)
    }

    /// Starts a copy: drops the frame in progress and declares `size` as
    /// the size of the source.
    pub fn copy_begin(&mut self, size: Option<u64>) -> (res: Result<(), ZstdError>)
        ensures
            final(self).settings() == old(self).settings(),
            final(self).workers() == old(self).workers(),
            final(self).has_dict() == old(self).has_dict(),
            final(self).codec().steps().len() == 0,
            res matches Err(e) ==> e matches ZstdError::Codec { context: Context::SourceSize, fault: Fault::Code(_) },
    {
        let _ = self.cctx.reset();
        match self.cctx.set_pledged_source_size(size_or_unknown(size)) {
            Ok(()) => Ok(()),
            Err(fault) => Err(ZstdError::Codec { context: Context::SourceSize, fault }),
        }
    }

    /// Takes what one read of a copy has delivered, and queues what comes
    /// out in chunks of at most `chunk_size` bytes. The result is the
    /// number of bytes queued.
    ///
    /// Bytes are compressed; no bytes mean that the source has ended, and
    /// end the frame. A failure is that of a step on the bytes, or of the
    /// steps that end the frame.
    pub fn copy_data(&mut self, data: &[u8], out: &mut Vec<Vec<u8>>, chunk_size: usize) -> (res: Result<
        usize,
        ZstdError,
    >)
        ensures
            final(self).settings() == old(self).settings(),
            final(self).workers() == old(self).workers(),
            final(self).has_dict() == old(self).has_dict(),
            extends(old(out)@, final(out)@, chunk_size as nat),
            continues(old(self).codec().steps(), final(self).codec().steps()),
            match res {
                Ok(written) => {
                    &&& written == chunks_len(final(out)@, old(out)@.len() as int)
                    &&& final(self).codec().taken() == old(self).codec().taken() + data@
                    &&& final(self).codec().given() == old(self).codec().given() + joined(
                        final(out)@.skip(old(out)@.len() as int),
                    )
                    &&& data@.len() == 0 ==> old(self).codec().steps().len() < final(self).codec().steps().len()
                        && final(self).codec().steps().last().mode == EndDirective::End && final(self).codec().steps().last().remaining == 0
                },
                Err(e) => is_copy_error(e) && (e matches ZstdError::Codec { context, .. } && context == (if data@.len()
                    == 0 {
                    Context::EndStream
                } else {
                    Context::Compress
                })),
            },
    {
        proof {
            assert(data@.subrange(0, data@.len() as int) =~= data@);
            assert(Seq::<u8>::empty().subrange(0, 0) =~= Seq::<u8>::empty());
            if data@.len() == 0 {
                assert(data@ =~= Seq::<u8>::empty());
                assert(self.cctx.taken() + data@ =~= self.cctx.taken());
            }
        }
        if data.len() == 0 {
            let run = flush_to_chunks(&mut self.cctx, EndDirective::End, chunk_size, out);
            match run.fault {
                Some(fault) => Err(ZstdError::Codec { context: Context::EndStream, fault }),
                None => Ok(run.written),
            }
        } else {
            let run = compress_to_chunks(&mut self.cctx, data, chunk_size, out);
            match run.fault {
                Some(fault) => Err(ZstdError::Codec { context: Context::Compress, fault }),
                None => Ok(run.written),
            }
        }
    }

    /// One round of a copy: reads `read_size` bytes from `ifh` and takes
    /// what the read delivers, as `copy_data` does. The result is the
    /// number of bytes read and the number of bytes queued; a round that
    /// has read nothing has ended the frame, and is the last.
    pub fn copy_round<R: ReadCallback>(
        &mut self,
        ifh: &mut R,
        out: &mut Vec<Vec<u8>>,
        read_size: usize,
        chunk_size: usize,
    ) -> (res: Result<(usize, usize), ZstdError>)
        ensures
            final(self).settings() == old(self).settings(),
            final(self).workers() == old(self).workers(),
            final(self).has_dict() == old(self).has_dict(),
            extends(old(out)@, final(out)@, chunk_size as nat),
            continues(old(self).codec().steps(), final(self).codec().steps()),
            match res {
                Ok((read, written)) => {
                    &&& written == chunks_len(final(out)@, old(out)@.len() as int)
                    &&& final(self).codec().taken().len() == old(self).codec().taken().len() + read
                    &&& final(self).codec().given() == old(self).codec().given() + joined(
                        final(out)@.skip(old(out)@.len() as int),
                    )
                    &&& read == 0 ==> final(self).codec().taken() == old(self).codec().taken() && old(self).codec().steps().len() < final(self).codec().steps().len() && final(self).codec().steps().last().mode == EndDirective::End && final(self).codec().steps().last().remaining
                        == 0
                },
                Err(e) => is_copy_error(e) && !(e matches ZstdError::Codec { context: Context::SourceSize, .. }),
            },
            res matches Err(e) && e is Source ==> final(out)@ == old(out)@ && final(self).codec().steps() == old(self).codec().steps(),
    {
        let data = match ifh.read(read_size) {
            Ok(data) => data,
            Err(code) => {
                assert(out@.subrange(0, out@.len() as int) =~= out@);
                return Err(ZstdError::Source { code });
            },
        };
        match self.copy_data(data.as_slice(), out, chunk_size) {
            Ok(written) => {
                proof {
                    if data@.len() == 0 {
                        assert(data@ =~= Seq::<u8>::empty());
                        assert(old(self).cctx.taken() + data@ =~= old(self).cctx.taken());
                    }
                }
                Ok((data.len(), written))
            },
            Err(e) => Err(e),
        }
    }

    /// Compresses everything that `ifh` delivers, in reads of `read_size`
    /// bytes, and queues the frame in chunks of at most `chunk_size` bytes.
    /// The result is the number of bytes read and the number of bytes
    /// queued.
    ///
    /// The copy is begun, and then made of rounds until one has read
    /// nothing. What was queued before stays as it was, and what was queued
    /// before a failure stays queued.
    pub fn copy_sized<R: ReadCallback>(
        &mut self,
        ifh: &mut R,
        out: &mut Vec<Vec<u8>>,
        size: Option<u64>,
        read_size: usize,
        chunk_size: usize,
    ) -> (res: Result<(usize, usize), ZstdError>)
        ensures
            final(self).settings() == old(self).settings(),
            final(self).workers() == old(self).workers(),
            final(self).has_dict() == old(self).has_dict(),
            extends(old(out)@, final(out)@, chunk_size as nat),
            match res {
                Ok((total_read, total_write)) => final(self).copied(
                    total_read,
                    total_write,
                    old(out)@,
                    final(out)@,
                ),
                Err(e) => is_copy_error(e),
            },
    {
        let ghost start = out@;
        assert(out@.subrange(0, start.len() as int) =~= start);
        assert(out@.skip(start.len() as int) =~= Seq::<Vec<u8>>::empty());
        match self.copy_begin(size) {
            Ok(()) => {},
            Err(e) => {
                return Err(e);
            },
        }
        let mut total_read: usize = 0;
        let mut total_write: usize = 0;
        loop
            invariant
                start == old(out)@,
                extends(start, out@, chunk_size as nat),
                total_write == chunks_len(out@, start.len() as int),
                self.settings() == old(self).settings(),
                self.workers() == old(self).workers(),
                self.has_dict() == old(self).has_dict(),
                self.codec().taken().len() == total_read,
                self.codec().given() == joined(out@.skip(start.len() as int)),
            decreases usize::MAX - total_read,
        {
            let ghost before = out@;
            let ghost given = self.codec().given();
            let round = self.copy_round(ifh, out, read_size, chunk_size);
            proof {
                lemma_extends_twice(start, before, out@, chunk_size as nat);
                lemma_joined_added(start.len() as int, before, out@);
                if round is Ok {
                    assert(self.codec().given() =~= joined(out@.skip(start.len() as int)));
                }
            }
            let (read, written) = match round {
                Ok(counts) => counts,
                Err(e) => {
                    return Err(e);
                },
            };
            if written > usize::MAX - total_write {
                return Err(ZstdError::Codec { context: Context::Compress, fault: Fault::CounterOverflow });
            }
            total_write = total_write + written;
            if read == 0 {
                return Ok((total_read, total_write));
            }
            if read > usize::MAX - total_read {
                return Err(ZstdError::SourceTooLong);
            }
            total_read = total_read + read;
        }
    }

    /// Compresses each of `data` into a frame of its own, with up to
    /// `threads` workers, and collects the frames in input order.
    pub fn multi_compress_to_buffer(&self, data: &Vec<&[u8]>, threads: isize) -> (res: Result<
        ZstdBufferWithSegmentsCollection,
        ZstdError,
    >)
        ensures
            data@.len() == 0 ==> res == Err::<ZstdBufferWithSegmentsCollection, ZstdError>(
                ZstdError::NoSourceElements,
            ),
            data@.len() > 0 && (forall|i: int| 0 <= i < data@.len() ==> (#[trigger] data@[i])@.len() == 0) ==> res
                == Err::<ZstdBufferWithSegmentsCollection, ZstdError>(ZstdError::SourceElementsEmpty),
            is_batch(res, self.settings(), self.has_dict(), data@),
    {
        multi_compress_to_buffer(&self.params, self.dict, data, threads)
    }
}

/// A queue that grows twice has grown, and the bytes added add up.
pub proof fn lemma_extends_twice(start: Seq<Vec<u8>>, middle: Seq<Vec<u8>>, end: Seq<Vec<u8>>, limit: nat)
    requires
        extends(start, middle, limit),
        extends(middle, end, limit),
    ensures
        extends(start, end, limit),
        chunks_len(end, start.len() as int) == chunks_len(middle, start.len() as int) + chunks_len(
            end,
            middle.len() as int,
        ),
{
    assert(end.subrange(0, start.len() as int) =~= start) by {
        assert forall|i: int| 0 <= i < start.len() implies end[i] == start[i] by {
            assert(end.subrange(0, middle.len() as int)[i] == middle[i]);
            assert(middle.subrange(0, start.len() as int)[i] == start[i]);
        }
    }
    assert forall|i: int| start.len() <= i < end.len() implies 0 < (#[trigger] end[i])@.len() <= limit by {
        if i < middle.len() {
            assert(end.subrange(0, middle.len() as int)[i] == middle[i]);
        }
    }
    lemma_chunks_len_split(middle, end, start.len() as int);
}

/// The bytes of a grown queue from `from` on are those of the old queue
/// from there on and those that were added.
proof fn lemma_chunks_len_split(middle: Seq<Vec<u8>>, end: Seq<Vec<u8>>, from: int)
    requires
        0 <= from <= middle.len() <= end.len(),
        end.subrange(0, middle.len() as int) == middle,
    ensures
        chunks_len(end, from) == chunks_len(middle, from) + chunks_len(end, middle.len() as int),
    decreases middle.len() - from,
{
    if from < middle.len() {
        lemma_chunks_len_split(middle, end, from + 1);
        assert(end.subrange(0, middle.len() as int)[from] == middle[from]);
    }
}

} // verus!
