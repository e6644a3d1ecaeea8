use zstandard::compression_dict::{collect_samples, resolve_training, ZstdCompressionDict};
use zstandard::compression_parameters::{
    contains_parameter, int_to_strategy, parameter_named, CCtxParams, Keyword, Parameter, ParameterValue, Strategy,
    ZstdCompressionParameters,
};
use zstandard::compressor::{compressor_params, size_or_unknown, ZstdCompressor};
use zstandard::constants::CONTENTSIZE_UNKNOWN;
use zstandard::decompressor::ZstdDecompressor;
use zstandard::exceptions::{Context, Fault, Setting, ZstdError};
use zstandard::zstd_safe::{int_to_format, CCtx, DCtx, FrameFormat, PreparedCDict, PreparedDDict};
use zstd_safe::max_c_level;

fn keyword(name: &str, value: i32) -> Keyword {
    Keyword { name: name.to_string(), value }
}

#[test]
fn keywords_name_parameters() {
    assert_eq!(parameter_named(&"format".to_string()), Some(Parameter::Format));
    assert_eq!(parameter_named(&"compression_level".to_string()), Some(Parameter::CompressionLevel));
    assert_eq!(parameter_named(&"ldm_hash_rate_log".to_string()), Some(Parameter::LdmHashRateLog));
    assert_eq!(parameter_named(&"threads".to_string()), Some(Parameter::Threads));
    assert_eq!(parameter_named(&"Threads".to_string()), None);
    assert_eq!(parameter_named(&"".to_string()), None);
    let names = [
        "format", "compression_level", "window_log", "hash_log", "chain_log", "search_log", "min_match",
        "target_length", "strategy", "write_content_size", "write_checksum", "write_dict_id", "job_size",
        "overlap_log", "force_max_window", "enable_ldm", "ldm_hash_log", "ldm_min_match", "ldm_bucket_size_log",
        "ldm_hash_rate_log", "threads",
    ];
    let mut seen = Vec::new();
    for name in names {
        let parameter = parameter_named(&name.to_string()).unwrap();
        assert!(!seen.contains(&parameter));
        seen.push(parameter);
    }
}

#[test]
fn parameter_sets_from_keywords() {
    let initial = ZstdCompressionParameters::from_keywords(&vec![]).unwrap();
    assert_eq!(initial, ZstdCompressionParameters::defaults());
    assert_eq!(initial.write_content_size, 1);
    assert_eq!(initial.strategy, -1);
    assert_eq!(initial.overlap_log, -1);
    assert_eq!(initial.ldm_hash_rate_log, -1);
    assert_eq!(initial.compression_level, 0);
    let set = ZstdCompressionParameters::set_parameters(&vec![]).unwrap();
    assert_eq!(set.strategy, 0);
    assert_eq!(set.overlap_log, 0);
    assert_eq!(set.ldm_hash_rate_log, 0);
    assert_eq!(set.threads, 0);
    let set = ZstdCompressionParameters::set_parameters(&vec![
        keyword("compression_level", 7),
        keyword("window_log", 20),
        keyword("strategy", 5),
        keyword("compression_level", 9),
        keyword("threads", 2),
        keyword("overlap_log", 6),
    ])
    .unwrap();
    assert_eq!(set.compression_level, 9);
    assert_eq!(set.get_parameter(Parameter::WindowLog), 20);
    assert_eq!(set.strategy, 5);
    assert_eq!(set.threads, 2);
    assert_eq!(set.overlap_log, 6);
    assert_eq!(
        ZstdCompressionParameters::set_parameters(&vec![keyword("hash_log", 1), keyword("bogus", 2), keyword("x", 3)])
            .err(),
        Some(ZstdError::InvalidKeyword { name: "bogus".to_string() })
    );
    let all = ZstdCompressionParameters::set_parameters(&vec![keyword("threads", -1)]).unwrap();
    assert!(all.threads >= 1);
    assert_eq!(all.threads as usize, num_cpus::get().min(i32::MAX as usize));
    let resolved = ZstdCompressionParameters::defaults().resolve(12);
    assert_eq!(resolved.threads, 0);
    let mut negative = ZstdCompressionParameters::defaults();
    negative.set_parameter(Parameter::Threads, -3);
    assert_eq!(negative.resolve(12).threads, 12);
    assert_eq!(negative.resolve(usize::MAX).threads, i32::MAX);
}

#[test]
fn level_defaults_fill_what_was_not_given() {
    let mut chosen = ZstdCompressionParameters::defaults();
    chosen.set_parameter(Parameter::WindowLog, 11);
    chosen.set_parameter(Parameter::CompressionLevel, 4);
    let mut level = ZstdCompressionParameters::defaults();
    level.window_log = 21;
    level.chain_log = 16;
    level.hash_log = 17;
    level.search_log = 1;
    level.min_match = 5;
    level.target_length = 0;
    level.strategy = 2;
    level.compression_level = 99;
    let given = vec![Parameter::WindowLog];
    assert!(contains_parameter(&given, Parameter::WindowLog));
    assert!(!contains_parameter(&given, Parameter::HashLog));
    let set = chosen.with_level_defaults(&level, &given);
    assert_eq!(set.window_log, 11);
    assert_eq!(set.chain_log, 16);
    assert_eq!(set.hash_log, 17);
    assert_eq!(set.search_log, 1);
    assert_eq!(set.min_match, 5);
    assert_eq!(set.strategy, 2);
    assert_eq!(set.compression_level, 4);
    assert_eq!(set.write_content_size, 1);
}

#[test]
fn strategies_and_formats() {
    assert_eq!(int_to_strategy(0), Err(ZstdError::UnknownStrategy));
    assert_eq!(int_to_strategy(1), Ok(Strategy::Fast));
    assert_eq!(int_to_strategy(2), Ok(Strategy::Dfast));
    assert_eq!(int_to_strategy(3), Ok(Strategy::Greedy));
    assert_eq!(int_to_strategy(4), Ok(Strategy::Lazy));
    assert_eq!(int_to_strategy(5), Ok(Strategy::Lazy2));
    assert_eq!(int_to_strategy(6), Ok(Strategy::Btlazy2));
    assert_eq!(int_to_strategy(7), Ok(Strategy::Btopt));
    assert_eq!(int_to_strategy(8), Ok(Strategy::Btultra));
    assert_eq!(int_to_strategy(9), Ok(Strategy::Btultra2));
    assert_eq!(int_to_strategy(10), Err(ZstdError::UnknownStrategy));
    assert_eq!(int_to_format(0), Ok(FrameFormat::Zstd1));
    assert_eq!(int_to_format(1), Ok(FrameFormat::Zstd1Magicless));
    assert_eq!(int_to_format(2), Err(ZstdError::InvalidFormat));
}

#[test]
fn settings_reach_the_context() {
    let mut cctx = CCtx::new().unwrap();
    cctx.set_parameter(Parameter::CompressionLevel, 5).unwrap();
    cctx.set_parameter(Parameter::WindowLog, 20).unwrap();
    cctx.set_parameter(Parameter::Strategy, 0).unwrap();
    cctx.set_parameter(Parameter::Strategy, 3).unwrap();
    cctx.set_parameter(Parameter::WriteChecksum, 1).unwrap();
    cctx.set_parameter(Parameter::EnableLdm, 1).unwrap();
    cctx.set_parameter(Parameter::Threads, 2).unwrap();
    cctx.set_parameter(Parameter::Format, 1).unwrap();
    assert_eq!(cctx.set_parameter(Parameter::WriteChecksum, 2), Err(ZstdError::ParameterOutOfRange));
    assert_eq!(cctx.set_parameter(Parameter::WriteDictId, -1), Err(ZstdError::ParameterOutOfRange));
    assert_eq!(cctx.set_parameter(Parameter::Format, 2), Err(ZstdError::InvalidFormat));
    assert_eq!(cctx.set_parameter(Parameter::Format, -1), Err(ZstdError::InvalidFormat));
    assert_eq!(cctx.set_parameter(Parameter::Strategy, 10), Err(ZstdError::UnknownStrategy));
    assert_eq!(cctx.set_parameter(Parameter::Strategy, -1), Err(ZstdError::UnknownStrategy));
    assert!(matches!(
        cctx.set_parameter(Parameter::WindowLog, 1000),
        Err(ZstdError::Codec { context: Context::SetParameter, fault: Fault::Code(_) })
    ));
    assert!(matches!(
        cctx.set_parameter(Parameter::WindowLog, -5),
        Err(ZstdError::Codec { context: Context::SetParameter, fault: Fault::Code(_) })
    ));
    let magicless = cctx.compress(b"abc").unwrap();
    assert_ne!(&magicless[..4], &[0x28, 0xb5, 0x2f, 0xfd]);
    let mut d = ZstdDecompressor::new(None, 0, 1).unwrap();
    assert_eq!(d.decompress(&magicless, 100), Err(ZstdError::FrameContentSizeError));
    assert_eq!(d.decompressobj(None, false).unwrap().decompress(&magicless).unwrap(), b"abc".to_vec());

    let mut params = CCtxParams::create();
    assert_eq!(params.len(), 0);
    let mut plain = CCtx::new().unwrap();
    plain.set_parameters(&params).unwrap();
    params.set_parameter(Parameter::CompressionLevel, 1);
    params.set_parameter(Parameter::WriteChecksum, 7);
    params.set_parameter(Parameter::Format, 9);
    assert_eq!(params.len(), 3);
    assert_eq!(params.get(1), ParameterValue { parameter: Parameter::WriteChecksum, value: 7 });
    assert_eq!(plain.set_parameters(&params), Err(ZstdError::ParameterOutOfRange));
}

#[test]
fn a_parameter_set_is_pushed_in_a_fixed_order() {
    let mut set = ZstdCompressionParameters::defaults().resolve(1);
    set.set_parameter(Parameter::CompressionLevel, 3);
    set.set_parameter(Parameter::Threads, 2);
    set.set_parameter(Parameter::JobSize, 1 << 20);
    let mut params = CCtxParams::create();
    params.apply_compression_parameters(&set);
    assert_eq!(params.len(), 21);
    assert_eq!(params.get(0), ParameterValue { parameter: Parameter::Threads, value: 2 });
    assert_eq!(params.get(1), ParameterValue { parameter: Parameter::Format, value: 0 });
    assert_eq!(params.get(2), ParameterValue { parameter: Parameter::CompressionLevel, value: 3 });
    assert_eq!(params.get(13), ParameterValue { parameter: Parameter::JobSize, value: 1 << 20 });
    assert_eq!(params.get(14).parameter, Parameter::OverlapLog);
    assert_eq!(params.get(15).parameter, Parameter::ForceMaxWindow);
    assert_eq!(params.get(16).parameter, Parameter::EnableLdm);
    assert_eq!(params.get(20), ParameterValue { parameter: Parameter::LdmHashRateLog, value: 0 });
    let mut cctx = CCtx::new().unwrap();
    cctx.set_parameters(&params).unwrap();
    assert!(!cctx.compress(b"abcabcabc").unwrap().is_empty());
}

#[test]
fn compressor_settings() {
    let params = compressor_params(5, None, None, None, None, 0).unwrap();
    assert_eq!(params.len(), 4);
    assert_eq!(params.get(0), ParameterValue { parameter: Parameter::CompressionLevel, value: 5 });
    assert_eq!(params.get(1), ParameterValue { parameter: Parameter::WriteContentSize, value: 1 });
    assert_eq!(params.get(2), ParameterValue { parameter: Parameter::WriteChecksum, value: 0 });
    assert_eq!(params.get(3), ParameterValue { parameter: Parameter::WriteDictId, value: 1 });
    let params = compressor_params(5, None, Some(true), Some(false), Some(false), 3).unwrap();
    assert_eq!(params.len(), 5);
    assert_eq!(params.get(1).value, 0);
    assert_eq!(params.get(2).value, 1);
    assert_eq!(params.get(3).value, 0);
    assert_eq!(params.get(4), ParameterValue { parameter: Parameter::Threads, value: 3 });
    let set = ZstdCompressionParameters::set_parameters(&vec![keyword("compression_level", 2)]).unwrap();
    assert_eq!(compressor_params(5, Some(&set), None, None, None, 0).unwrap().len(), 21);
    let conflicts = [
        (Some(true), None, None, 0, Setting::WriteChecksum),
        (Some(true), Some(true), Some(true), 1, Setting::WriteChecksum),
        (None, Some(false), Some(true), 1, Setting::WriteContentSize),
        (None, None, Some(true), 1, Setting::WriteDictId),
        (None, None, None, 1, Setting::Threads),
    ];
    for (checksum, content_size, dict_id, threads, setting) in conflicts {
        assert_eq!(
            compressor_params(5, Some(&set), checksum, content_size, dict_id, threads).err(),
            Some(ZstdError::ParametersConflict { setting })
        );
        assert_eq!(
            ZstdCompressor::new(5, None, Some(&set), checksum, content_size, dict_id, threads).err(),
            Some(ZstdError::ParametersConflict { setting })
        );
    }
    let max = max_c_level();
    assert!(max >= 19);
    assert_eq!(
        ZstdCompressor::new(max + 1, None, None, None, None, None, 0).err(),
        Some(ZstdError::LevelTooHigh { max })
    );
    let c = ZstdCompressor::new(max, None, None, None, None, None, -1).unwrap();
    assert!(c.memory_size() > 0);
    let mut threaded = ZstdCompressor::new(3, None, None, Some(true), None, None, 2).unwrap();
    let frame = threaded.compress(&b"abc".repeat(100_000)).unwrap();
    let (ingested, _consumed, _produced) = threaded.frame_progression();
    assert!(ingested == 0 || ingested == 300_000);
    let mut d = ZstdDecompressor::new(None, 0, 0).unwrap();
    assert_eq!(d.decompress(&frame, 0).unwrap(), b"abc".repeat(100_000));
    let mut bad = ZstdCompressionParameters::defaults().resolve(1);
    bad.set_parameter(Parameter::WindowLog, 99);
    assert!(matches!(
        ZstdCompressor::new(3, None, Some(&bad), None, None, None, 0),
        Err(ZstdError::Codec { context: Context::SetParameter, fault: Fault::Code(_) })
    ));
    assert_eq!(size_or_unknown(None), CONTENTSIZE_UNKNOWN);
    assert_eq!(size_or_unknown(Some(5)), 5);
}

#[test]
fn context_basics() {
    let mut cctx = CCtx::new().unwrap();
    assert!(cctx.memory_size() > 0);
    cctx.set_pledged_source_size(3).unwrap();
    cctx.reset().unwrap();
    let progression = cctx.get_frame_progression();
    assert_eq!(progression.ingested, 0);
    let mut dctx = DCtx::new().unwrap();
    dctx.load_dict_data(b"some raw content to prime the window").unwrap();
}

#[test]
fn dictionaries() {
    let content = b"the quick brown fox jumps over the lazy dog ".repeat(20);
    assert_eq!(
        ZstdCompressionDict::new(content.clone(), Some(3)).err(),
        Some(ZstdError::InvalidDictType { value: 3 })
    );
    for kind in [None, Some(0), Some(1)] {
        let mut dict = ZstdCompressionDict::new(content.clone(), kind).unwrap();
        assert_eq!(dict.len(), content.len());
        assert_eq!(dict.as_bytes(), &content[..]);
        assert_eq!(dict.dict_id(), 0);
        assert_eq!(dict.k(), 0);
        assert_eq!(dict.d(), 0);
        assert_eq!(dict.precompute_compress(None, None), Err(ZstdError::PrecomputeNeither));
        let set = ZstdCompressionParameters::defaults().resolve(1);
        assert_eq!(dict.precompute_compress(Some(3), Some(&set)), Err(ZstdError::PrecomputeBoth));
        if kind == Some(1) {
            dict.precompute_compress(Some(3), None).unwrap();
            dict.ensure_ddict().unwrap();
            dict.ensure_ddict().unwrap();
        }
        let input = b"the lazy dog jumps over the quick brown fox".to_vec();
        let frame = {
            let mut c = ZstdCompressor::new(3, Some(&dict), None, None, None, None, 0).unwrap();
            c.compress(&input).unwrap()
        };
        let without = ZstdCompressor::new(3, None, None, None, None, None, 0).unwrap().compress(&input).unwrap();
        assert!(frame.len() < without.len());
        let mut d = ZstdDecompressor::new(Some(&dict), 0, 0).unwrap();
        assert_eq!(d.decompress(&frame, 0).unwrap(), input);
        let mut plain = ZstdDecompressor::new(None, 0, 0).unwrap();
        assert!(plain.decompress(&frame, 0).is_err() || plain.decompress(&frame, 0).unwrap() != input);
    }
    let trained = ZstdCompressionDict::trained(content.clone(), 5, 6);
    assert_eq!((trained.k(), trained.d()), (5, 6));
    assert!(PreparedCDict::from_data(&content, 3).is_ok());
    assert!(PreparedDDict::from_data(&content).is_ok());
}

#[test]
fn training_inputs() {
    assert_eq!(resolve_training(0, 0, 0, 0), (8, 4, 3));
    assert_eq!(resolve_training(6, 0, 9, 0), (6, 4, 9));
    assert_eq!(resolve_training(0, 5, 0, 0), (0, 5, 0));
    assert_eq!(resolve_training(0, 0, 0, 2), (0, 0, 0));
    let samples = vec![b"ab".to_vec(), Vec::new(), b"cde".to_vec()];
    let (buffer, sizes) = collect_samples(&samples).unwrap();
    assert_eq!(buffer, b"abcde".to_vec());
    assert_eq!(sizes, vec![2, 0, 3]);
    assert_eq!(collect_samples(&vec![]).unwrap(), (Vec::new(), Vec::new()));
}

#[test]
fn refused_settings_fail_the_context() {
    let mut params = CCtxParams::create();
    params.set_parameter(Parameter::CompressionLevel, 3);
    params.set_parameter(Parameter::Strategy, 11);
    assert_eq!(
        zstandard::compressor_multi::configured_cctx(&params, None).err(),
        Some(ZstdError::UnknownStrategy)
    );
    let sources: Vec<&[u8]> = vec![b"abc"];
    assert_eq!(
        zstandard::compressor_multi::compress_from_datasources(&params, None, &sources, 2).err(),
        Some(ZstdError::UnknownStrategy)
    );
    let c = ZstdCompressor::new(3, None, None, None, None, None, 0).unwrap();
    assert_eq!(c.chunker(None, Some(0)).err(), Some(ZstdError::ZeroBufferSize));
    assert!(c.chunker(Some(10), Some(1)).is_ok());
    assert!(c.setup_cctx().is_ok());
    assert!(c.compressobj(Some(4)).is_ok());
}
