//! Compression parameters as plain values.
//!
//! A [`ZstdCompressionParameters`] holds one number for each parameter of
//! the codec. A [`CCtxParams`] is the list of settings that is pushed into a
//! context, in the order in which they were made; the codec checks each
//! value when it is pushed.

use crate::exceptions::ZstdError;
use vstd::prelude::*;
use vstd::string::StringExecFns;

verus! {

/// A parameter of the codec.
#[derive(Clone, Copy, Debug, PartialEq, Eq, Structural)]
pub enum Parameter {
    Format,
    CompressionLevel,
    WindowLog,
    HashLog,
    ChainLog,
    SearchLog,
    MinMatch,
    TargetLength,
    Strategy,
    WriteContentSize,
    WriteChecksum,
    WriteDictId,
    JobSize,
    OverlapLog,
    ForceMaxWindow,
    EnableLdm,
    LdmHashLog,
    LdmMinMatch,
    LdmBucketSizeLog,
    LdmHashRateLog,
    Threads,
}

/// A match strategy of the codec, from the fastest to the strongest.
#[derive(Clone, Copy, Debug, PartialEq, Eq, Structural)]
pub enum Strategy {
    Fast,
    Dfast,
    Greedy,
    Lazy,
    Lazy2,
    Btlazy2,
    Btopt,
    Btultra,
    Btultra2,
}

/// The strategy that `value` numbers, from 1 to 9.
pub open spec fn strategy_numbered(value: u32) -> Option<Strategy> {
    if value == 1 {
        Some(Strategy::Fast)
    } else if value == 2 {
        Some(Strategy::Dfast)
    } else if value == 3 {
        Some(Strategy::Greedy)
    } else if value == 4 {
        Some(Strategy::Lazy)
    } else if value == 5 {
        Some(Strategy::Lazy2)
    } else if value == 6 {
        Some(Strategy::Btlazy2)
    } else if value == 7 {
        Some(Strategy::Btopt)
    } else if value == 8 {
        Some(Strategy::Btultra)
    } else if value == 9 {
        Some(Strategy::Btultra2)
    } else {
        None
    }
}

/// The strategy that `value` numbers; any number but 1 to 9 is refused with
/// `UnknownStrategy`.
pub fn int_to_strategy(value: u32) -> (res: Result<Strategy, ZstdError>)
    ensures
        res == match strategy_numbered(value) {
            Some(s) => Ok::<Strategy, ZstdError>(s),
            None => Err::<Strategy, ZstdError>(ZstdError::UnknownStrategy),
        },
{
    if value == 1 {
        Ok(Strategy::Fast)
    } else if value == 2 {
        Ok(Strategy::Dfast)
    } else if value == 3 {
        Ok(Strategy::Greedy)
    } else if value == 4 {
        Ok(Strategy::Lazy)
    } else if value == 5 {
        Ok(Strategy::Lazy2)
    } else if value == 6 {
        Ok(Strategy::Btlazy2)
    } else if value == 7 {
        Ok(Strategy::Btopt)
    } else if value == 8 {
        Ok(Strategy::Btultra)
    } else if value == 9 {
        Ok(Strategy::Btultra2)
    } else {
        Err(ZstdError::UnknownStrategy)
    }
}

/// The parameter that the keyword `name` stands for.
pub open spec fn parameter_of(name: Seq<char>) -> Option<Parameter> {
    if name == "format"@ {
        Some(Parameter::Format)
    } else if name == "compression_level"@ {
        Some(Parameter::CompressionLevel)
    } else if name == "window_log"@ {
        Some(Parameter::WindowLog)
    } else if name == "hash_log"@ {
        Some(Parameter::HashLog)
    } else if name == "chain_log"@ {
        Some(Parameter::ChainLog)
    } else if name == "search_log"@ {
        Some(Parameter::SearchLog)
    } else if name == "min_match"@ {
        Some(Parameter::MinMatch)
    } else if name == "target_length"@ {
        Some(Parameter::TargetLength)
    } else if name == "strategy"@ {
        Some(Parameter::Strategy)
    } else if name == "write_content_size"@ {
        Some(Parameter::WriteContentSize)
    } else if name == "write_checksum"@ {
        Some(Parameter::WriteChecksum)
    } else if name == "write_dict_id"@ {
        Some(Parameter::WriteDictId)
    } else if name == "job_size"@ {
        Some(Parameter::JobSize)
    } else if name == "overlap_log"@ {
        Some(Parameter::OverlapLog)
    } else if name == "force_max_window"@ {
        Some(Parameter::ForceMaxWindow)
    } else if name == "enable_ldm"@ {
        Some(Parameter::EnableLdm)
    } else if name == "ldm_hash_log"@ {
        Some(Parameter::LdmHashLog)
    } else if name == "ldm_min_match"@ {
        Some(Parameter::LdmMinMatch)
    } else if name == "ldm_bucket_size_log"@ {
        Some(Parameter::LdmBucketSizeLog)
    } else if name == "ldm_hash_rate_log"@ {
        Some(Parameter::LdmHashRateLog)
    } else if name == "threads"@ {
        Some(Parameter::Threads)
    } else {
        None
    }
}

/// Whether `name` is the keyword `word`.
fn is_word(name: &String, word: &str) -> (same: bool)
    ensures
        same == (name@ == word@),
{
    let word = String::from_str(word);
    name.eq(&word)
}

/// The parameter that the keyword `name` stands for.
pub fn parameter_named(name: &String) -> (parameter: Option<Parameter>)
    ensures
        parameter == parameter_of(name@),
{
    if is_word(name, "format") {
        Some(Parameter::Format)
    } else if is_word(name, "compression_level") {
        Some(Parameter::CompressionLevel)
    } else if is_word(name, "window_log") {
        Some(Parameter::WindowLog)
    } else if is_word(name, "hash_log") {
        Some(Parameter::HashLog)
    } else if is_word(name, "chain_log") {
        Some(Parameter::ChainLog)
    } else if is_word(name, "search_log") {
        Some(Parameter::SearchLog)
    } else if is_word(name, "min_match") {
        Some(Parameter::MinMatch)
    } else if is_word(name, "target_length") {
        Some(Parameter::TargetLength)
    } else if is_word(name, "strategy") {
        Some(Parameter::Strategy)
    } else if is_word(name, "write_content_size") {
        Some(Parameter::WriteContentSize)
    } else if is_word(name, "write_checksum") {
        Some(Parameter::WriteChecksum)
    } else if is_word(name, "write_dict_id") {
        Some(Parameter::WriteDictId)
    } else if is_word(name, "job_size") {
        Some(Parameter::JobSize)
    } else if is_word(name, "overlap_log") {
        Some(Parameter::OverlapLog)
    } else if is_word(name, "force_max_window") {
        Some(Parameter::ForceMaxWindow)
    } else if is_word(name, "enable_ldm") {
        Some(Parameter::EnableLdm)
    } else if is_word(name, "ldm_hash_log") {
        Some(Parameter::LdmHashLog)
    } else if is_word(name, "ldm_min_match") {
        Some(Parameter::LdmMinMatch)
    } else if is_word(name, "ldm_bucket_size_log") {
        Some(Parameter::LdmBucketSizeLog)
    } else if is_word(name, "ldm_hash_rate_log") {
        Some(Parameter::LdmHashRateLog)
    } else if is_word(name, "threads") {
        Some(Parameter::Threads)
    } else {
        None
    }
}

/// One keyword argument of a parameter set.
pub struct Keyword {
    pub name: String,
    pub value: i32,
}

/// One setting: a parameter and the number it is set to.
#[derive(Clone, Copy, Debug, PartialEq, Eq, Structural)]
pub struct ParameterValue {
    pub parameter: Parameter,
    pub value: i32,
}

/// A number for each parameter of the codec.
#[derive(Clone, Copy, Debug, PartialEq, Eq, Structural)]
pub struct ZstdCompressionParameters {
    pub format: i32,
    pub compression_level: i32,
    pub window_log: i32,
    pub hash_log: i32,
    pub chain_log: i32,
    pub search_log: i32,
    pub min_match: i32,
    pub target_length: i32,
    pub strategy: i32,
    pub write_content_size: i32,
    pub write_checksum: i32,
    pub write_dict_id: i32,
    pub job_size: i32,
    pub overlap_log: i32,
    pub force_max_window: i32,
    pub enable_ldm: i32,
    pub ldm_hash_log: i32,
    pub ldm_min_match: i32,
    pub ldm_bucket_size_log: i32,
    pub ldm_hash_rate_log: i32,
    pub threads: i32,
}

/// The number of worker threads that stands for `cpus` processors.
pub open spec fn cpus_as_threads(cpus: usize) -> i32 {
    if cpus > i32::MAX {
        i32::MAX
    } else {
        cpus as i32
    }
}

/// `num_cpus::get`: the number of processors that this process may use,
/// which the crate documents to be at least one.
#[verifier::external_body]
pub(crate) fn cpu_count() -> (cpus: usize)
    ensures
        cpus >= 1,
{
    ::num_cpus::get()
}

impl ZstdCompressionParameters {
    /// The set that keywords are applied to: every parameter at zero, but
    /// the content size, which is written, and the three parameters for
    /// which -1 stands for "not given".
    pub open spec fn initial() -> ZstdCompressionParameters {
        ZstdCompressionParameters {
            format: 0,
            compression_level: 0,
            window_log: 0,
            hash_log: 0,
            chain_log: 0,
            search_log: 0,
            min_match: 0,
            target_length: 0,
            strategy: -1i32,
            write_content_size: 1,
            write_checksum: 0,
            write_dict_id: 0,
            job_size: 0,
            overlap_log: -1i32,
            force_max_window: 0,
            enable_ldm: 0,
            ldm_hash_log: 0,
            ldm_min_match: 0,
            ldm_bucket_size_log: 0,
            ldm_hash_rate_log: -1i32,
            threads: 0,
        }
    }

    /// The number of `parameter`.
    pub open spec fn value_of(self, parameter: Parameter) -> i32 {
        match parameter {
            Parameter::Format => self.format,
            Parameter::CompressionLevel => self.compression_level,
            Parameter::WindowLog => self.window_log,
            Parameter::HashLog => self.hash_log,
            Parameter::ChainLog => self.chain_log,
            Parameter::SearchLog => self.search_log,
            Parameter::MinMatch => self.min_match,
            Parameter::TargetLength => self.target_length,
            Parameter::Strategy => self.strategy,
            Parameter::WriteContentSize => self.write_content_size,
            Parameter::WriteChecksum => self.write_checksum,
            Parameter::WriteDictId => self.write_dict_id,
            Parameter::JobSize => self.job_size,
            Parameter::OverlapLog => self.overlap_log,
            Parameter::ForceMaxWindow => self.force_max_window,
            Parameter::EnableLdm => self.enable_ldm,
            Parameter::LdmHashLog => self.ldm_hash_log,
            Parameter::LdmMinMatch => self.ldm_min_match,
            Parameter::LdmBucketSizeLog => self.ldm_bucket_size_log,
            Parameter::LdmHashRateLog => self.ldm_hash_rate_log,
            Parameter::Threads => self.threads,
        }
    }

    /// The set with `parameter` at `value`.
    pub open spec fn with(self, parameter: Parameter, value: i32) -> ZstdCompressionParameters {
        match parameter {
            Parameter::Format => ZstdCompressionParameters { format: value, ..self },
            Parameter::CompressionLevel => ZstdCompressionParameters { compression_level: value, ..self },
            Parameter::WindowLog => ZstdCompressionParameters { window_log: value, ..self },
            Parameter::HashLog => ZstdCompressionParameters { hash_log: value, ..self },
            Parameter::ChainLog => ZstdCompressionParameters { chain_log: value, ..self },
            Parameter::SearchLog => ZstdCompressionParameters { search_log: value, ..self },
            Parameter::MinMatch => ZstdCompressionParameters { min_match: value, ..self },
            Parameter::TargetLength => ZstdCompressionParameters { target_length: value, ..self },
            Parameter::Strategy => ZstdCompressionParameters { strategy: value, ..self },
            Parameter::WriteContentSize => ZstdCompressionParameters { write_content_size: value, ..self },
            Parameter::WriteChecksum => ZstdCompressionParameters { write_checksum: value, ..self },
            Parameter::WriteDictId => ZstdCompressionParameters { write_dict_id: value, ..self },
            Parameter::JobSize => ZstdCompressionParameters { job_size: value, ..self },
            Parameter::OverlapLog => ZstdCompressionParameters { overlap_log: value, ..self },
            Parameter::ForceMaxWindow => ZstdCompressionParameters { force_max_window: value, ..self },
            Parameter::EnableLdm => ZstdCompressionParameters { enable_ldm: value, ..self },
            Parameter::LdmHashLog => ZstdCompressionParameters { ldm_hash_log: value, ..self },
            Parameter::LdmMinMatch => ZstdCompressionParameters { ldm_min_match: value, ..self },
            Parameter::LdmBucketSizeLog => ZstdCompressionParameters { ldm_bucket_size_log: value, ..self },
            Parameter::LdmHashRateLog => ZstdCompressionParameters { ldm_hash_rate_log: value, ..self },
            Parameter::Threads => ZstdCompressionParameters { threads: value, ..self },
        }
    }

    /// The set that the first `n` of `kwargs` make of the initial one, or
    /// the index of the first of them that names no parameter.
    pub open spec fn of_keywords(kwargs: Seq<Keyword>, n: int) -> Result<ZstdCompressionParameters, int>
        decreases n,
    {
        if n <= 0 {
            Ok(Self::initial())
        } else {
            match Self::of_keywords(kwargs, n - 1) {
                Err(index) => Err(index),
                Ok(set) => match parameter_of(kwargs[n - 1].name@) {
                    None => Err(n - 1),
                    Some(parameter) => Ok(set.with(parameter, kwargs[n - 1].value)),
                },
            }
        }
    }

    /// The set with what stands for "not given" resolved: a negative number
    /// of threads becomes `cpus`, and -1 for the strategy, the overlap and
    /// the hash rate becomes zero.
    pub open spec fn resolved(self, cpus: i32) -> ZstdCompressionParameters {
        ZstdCompressionParameters {
            threads: if self.threads < 0 {
                cpus
            } else {
                self.threads
            },
            strategy: if self.strategy == -1 {
                0
            } else {
                self.strategy
            },
            overlap_log: if self.overlap_log == -1 {
                0
            } else {
                self.overlap_log
            },
            ldm_hash_rate_log: if self.ldm_hash_rate_log == -1 {
                0
            } else {
                self.ldm_hash_rate_log
            },
            ..self
        }
    }

    /// The set that keywords are applied to.
    pub fn defaults() -> (set: ZstdCompressionParameters)
        ensures
            set == Self::initial(),
    {
        ZstdCompressionParameters {
            format: 0,
            compression_level: 0,
            window_log: 0,
            hash_log: 0,
            chain_log: 0,
            search_log: 0,
            min_match: 0,
            target_length: 0,
            strategy: -1,
            write_content_size: 1,
            write_checksum: 0,
            write_dict_id: 0,
            job_size: 0,
            overlap_log: -1,
            force_max_window: 0,
            enable_ldm: 0,
            ldm_hash_log: 0,
            ldm_min_match: 0,
            ldm_bucket_size_log: 0,
            ldm_hash_rate_log: -1,
            threads: 0,
        }
    }

    /// The number of `parameter`.
    pub fn get_parameter(&self, parameter: Parameter) -> (value: i32)
        ensures
            value == self.value_of(parameter),
    {
        match parameter {
            Parameter::Format => self.format,
            Parameter::CompressionLevel => self.compression_level,
            Parameter::WindowLog => self.window_log,
            Parameter::HashLog => self.hash_log,
            Parameter::ChainLog => self.chain_log,
            Parameter::SearchLog => self.search_log,
            Parameter::MinMatch => self.min_match,
            Parameter::TargetLength => self.target_length,
            Parameter::Strategy => self.strategy,
            Parameter::WriteContentSize => self.write_content_size,
            Parameter::WriteChecksum => self.write_checksum,
            Parameter::WriteDictId => self.write_dict_id,
            Parameter::JobSize => self.job_size,
            Parameter::OverlapLog => self.overlap_log,
            Parameter::ForceMaxWindow => self.force_max_window,
            Parameter::EnableLdm => self.enable_ldm,
            Parameter::LdmHashLog => self.ldm_hash_log,
            Parameter::LdmMinMatch => self.ldm_min_match,
            Parameter::LdmBucketSizeLog => self.ldm_bucket_size_log,
            Parameter::LdmHashRateLog => self.ldm_hash_rate_log,
            Parameter::Threads => self.threads,
        }
    }

    /// Sets `parameter` to `value`.
    pub fn set_parameter(&mut self, parameter: Parameter, value: i32)
        ensures
            *final(self) == old(self).with(parameter, value),
    {
        match parameter {
            Parameter::Format => {
                self.format = value;
            },
            Parameter::CompressionLevel => {
                self.compression_level = value;
            },
            Parameter::WindowLog => {
                self.window_log = value;
            },
            Parameter::HashLog => {
                self.hash_log = value;
            },
            Parameter::ChainLog => {
                self.chain_log = value;
            },
            Parameter::SearchLog => {
                self.search_log = value;
            },
            Parameter::MinMatch => {
                self.min_match = value;
            },
            Parameter::TargetLength => {
                self.target_length = value;
            },
            Parameter::Strategy => {
                self.strategy = value;
            },
            Parameter::WriteContentSize => {
                self.write_content_size = value;
            },
            Parameter::WriteChecksum => {
                self.write_checksum = value;
            },
            Parameter::WriteDictId => {
                self.write_dict_id = value;
            },
            Parameter::JobSize => {
                self.job_size = value;
            },
            Parameter::OverlapLog => {
                self.overlap_log = value;
            },
            Parameter::ForceMaxWindow => {
                self.force_max_window = value;
            },
            Parameter::EnableLdm => {
                self.enable_ldm = value;
            },
            Parameter::LdmHashLog => {
                self.ldm_hash_log = value;
            },
            Parameter::LdmMinMatch => {
                self.ldm_min_match = value;
            },
            Parameter::LdmBucketSizeLog => {
                self.ldm_bucket_size_log = value;
            },
            Parameter::LdmHashRateLog => {
                self.ldm_hash_rate_log = value;
            },
            Parameter::Threads => {
                self.threads = value;
            },
        }
    }

    /// The set that `kwargs` make of the initial one, before anything is
    /// resolved. A keyword that names no parameter is refused with
    /// `InvalidKeyword` and its name; of several, the first one counts.
    pub fn from_keywords(kwargs: &Vec<Keyword>) -> (res: Result<ZstdCompressionParameters, ZstdError>)
        ensures
            match Self::of_keywords(kwargs@, kwargs@.len() as int) {
                Ok(set) => res == Ok::<ZstdCompressionParameters, ZstdError>(set),
                Err(index) => 0 <= index < kwargs@.len() && res == Err::<ZstdCompressionParameters, ZstdError>(
                    ZstdError::InvalidKeyword { name: kwargs@[index].name },
                ),
            },
    {
        let mut set = Self::defaults();
        let mut i: usize = 0;
        while i < kwargs.len()
            invariant
                0 <= i <= kwargs@.len(),
                Self::of_keywords(kwargs@, i as int) == Ok::<ZstdCompressionParameters, int>(set),
            decreases kwargs@.len() - i,
        {
            match parameter_named(&kwargs[i].name) {
                None => {
                    proof {
                        Self::lemma_first_unknown(kwargs@, i as int, kwargs@.len() as int);
                    }
                    return Err(ZstdError::InvalidKeyword { name: kwargs[i].name.clone() });
                },
                Some(parameter) => {
                    set.set_parameter(parameter, kwargs[i].value);
                },
            }
            i = i + 1;
        }
        Ok(set)
    }

    /// Once a keyword names no parameter, more keywords change nothing.
    proof fn lemma_first_unknown(kwargs: Seq<Keyword>, index: int, n: int)
        requires
            0 <= index < n <= kwargs.len(),
            Self::of_keywords(kwargs, index) is Ok,
            parameter_of(kwargs[index].name@) is None,
        ensures
            Self::of_keywords(kwargs, n) == Err::<ZstdCompressionParameters, int>(index),
        decreases n - index,
    {
        if n > index + 1 {
            Self::lemma_first_unknown(kwargs, index, n - 1);
        }
    }

    /// The set with what stands for "not given" resolved, for a machine of
    /// `cpus` processors.
    pub fn resolve(&self, cpus: usize) -> (set: ZstdCompressionParameters)
        ensures
            set == self.resolved(cpus_as_threads(cpus)),
    {
        let mut set = *self;
        if set.threads < 0 {
            set.threads = if cpus > i32::MAX as usize {
                i32::MAX
            } else {
                cpus as i32
            };
        }
        if set.strategy == -1 {
            set.strategy = 0;
        }
        if set.overlap_log == -1 {
            set.overlap_log = 0;
        }
        if set.ldm_hash_rate_log == -1 {
            set.ldm_hash_rate_log = 0;
        }
        set
    }

    /// The parameter set of `kwargs`: the initial set with each keyword
    /// applied, and then resolved for this machine.
    ///
    /// Fails only on a keyword that names no parameter. Where no negative
    /// number of threads is given, the result does not depend on the
    /// machine.
    pub fn set_parameters(kwargs: &Vec<Keyword>) -> (res: Result<ZstdCompressionParameters, ZstdError>)
        ensures
            match Self::of_keywords(kwargs@, kwargs@.len() as int) {
                Ok(set) => match res {
                    Ok(got) => {
                        &&& got == set.resolved(got.threads)
                        &&& set.threads < 0 ==> got.threads >= 1
                    },
                    Err(_) => false,
                },
                Err(index) => 0 <= index < kwargs@.len() && res == Err::<ZstdCompressionParameters, ZstdError>(
                    ZstdError::InvalidKeyword { name: kwargs@[index].name },
                ),
            },
    {
        match Self::from_keywords(kwargs) {
            Err(e) => Err(e),
            Ok(set) => Ok(set.resolve(cpu_count())),
        }
    }

    /// The set in which each of the seven parameters that a compression
    /// level decides is that of `level_set`, unless `given` says that the
    /// caller chose it.
    pub fn with_level_defaults(&self, level_set: &ZstdCompressionParameters, given: &Vec<Parameter>) -> (set:
        ZstdCompressionParameters)
        ensures
            forall|p: Parameter| #[trigger]
                set.value_of(p) == if level_decides(p) && !given@.contains(p) {
                    level_set.value_of(p)
                } else {
                    self.value_of(p)
                },
    {
        let mut set = *self;
        let decided = [
            Parameter::WindowLog,
            Parameter::ChainLog,
            Parameter::HashLog,
            Parameter::SearchLog,
            Parameter::MinMatch,
            Parameter::TargetLength,
            Parameter::Strategy,
        ];
        let mut i: usize = 0;
        while i < 7
            invariant
                0 <= i <= 7,
                decided@ == seq![
                    Parameter::WindowLog,
                    Parameter::ChainLog,
                    Parameter::HashLog,
                    Parameter::SearchLog,
                    Parameter::MinMatch,
                    Parameter::TargetLength,
                    Parameter::Strategy,
                ],
                forall|p: Parameter| #[trigger]
                    set.value_of(p) == if level_decides(p) && !given@.contains(p) && decided@.subrange(
                        0,
                        i as int,
                    ).contains(p) {
                        level_set.value_of(p)
                    } else {
                        self.value_of(p)
                    },
            decreases 7 - i,
        {
            let p = decided[i];
            let ghost before = set;
            let ghost done = decided@.subrange(0, i as int);
            if !contains_parameter(given, p) {
                set.set_parameter(p, level_set.get_parameter(p));
            }
            proof {
                let next = decided@.subrange(0, i + 1);
                assert(next =~= done.push(p));
                assert(!done.contains(p)) by {
                    if done.contains(p) {
                        let k = choose|k: int| 0 <= k < done.len() && done[k] == p;
                        assert(decided@[k] == decided@[i as int]);
                    }
                }
                assert forall|q: Parameter| #[trigger]
                    set.value_of(q) == if level_decides(q) && !given@.contains(q) && next.contains(q) {
                        level_set.value_of(q)
                    } else {
                        self.value_of(q)
                    } by {
                    assert(next.contains(q) <==> (done.contains(q) || q == p)) by {
                        if done.contains(q) {
                            let k = choose|k: int| 0 <= k < done.len() && done[k] == q;
                            assert(next[k] == q);
                        }
                        if q == p {
                            assert(next[i as int] == p);
                        }
                    }
                    assert(before.value_of(q) == if level_decides(q) && !given@.contains(q) && done.contains(q) {
                        level_set.value_of(q)
                    } else {
                        self.value_of(q)
                    });
                }
            }
            i = i + 1;
        }
        proof {
            assert(decided@.subrange(0, 7) =~= decided@);
            assert forall|p: Parameter| level_decides(p) implies decided@.contains(p) by {
                assert(decided@[0] == Parameter::WindowLog);
                assert(decided@[1] == Parameter::ChainLog);
                assert(decided@[2] == Parameter::HashLog);
                assert(decided@[3] == Parameter::SearchLog);
                assert(decided@[4] == Parameter::MinMatch);
                assert(decided@[5] == Parameter::TargetLength);
                assert(decided@[6] == Parameter::Strategy);
            }
        }
        set
    }
}

/// Whether a compression level decides `parameter`.
pub open spec fn level_decides(parameter: Parameter) -> bool {
    parameter == Parameter::WindowLog || parameter == Parameter::ChainLog || parameter == Parameter::HashLog
        || parameter == Parameter::SearchLog || parameter == Parameter::MinMatch || parameter
        == Parameter::TargetLength || parameter == Parameter::Strategy
}

/// Whether `parameter` is among `list`.
pub fn contains_parameter(list: &Vec<Parameter>, parameter: Parameter) -> (found: bool)
    ensures
        found == list@.contains(parameter),
{
    let mut i: usize = 0;
    while i < list.len()
        invariant
            0 <= i <= list@.len(),
            forall|k: int| 0 <= k < i ==> list@[k] != parameter,
        decreases list@.len() - i,
    {
        if list[i] == parameter {
            return true;
        }
        i = i + 1;
    }
    false
}

/// The parameters in the order in which a set is pushed into a context,
/// each of them once. The number of workers goes first, since setting it
/// resets the job size and the overlap.
pub open spec fn push_order() -> Seq<Parameter> {
    seq![
        Parameter::Threads,
        Parameter::Format,
        Parameter::CompressionLevel,
        Parameter::WindowLog,
        Parameter::HashLog,
        Parameter::ChainLog,
        Parameter::SearchLog,
        Parameter::MinMatch,
        Parameter::TargetLength,
        Parameter::Strategy,
        Parameter::WriteContentSize,
        Parameter::WriteChecksum,
        Parameter::WriteDictId,
        Parameter::JobSize,
        Parameter::OverlapLog,
        Parameter::ForceMaxWindow,
        Parameter::EnableLdm,
        Parameter::LdmHashLog,
        Parameter::LdmMinMatch,
        Parameter::LdmBucketSizeLog,
        Parameter::LdmHashRateLog,
    ]
}

/// The place of `parameter` in the push order.
pub open spec fn push_place(parameter: Parameter) -> int {
    match parameter {
        Parameter::Threads => 0,
        Parameter::Format => 1,
        Parameter::CompressionLevel => 2,
        Parameter::WindowLog => 3,
        Parameter::HashLog => 4,
        Parameter::ChainLog => 5,
        Parameter::SearchLog => 6,
        Parameter::MinMatch => 7,
        Parameter::TargetLength => 8,
        Parameter::Strategy => 9,
        Parameter::WriteContentSize => 10,
        Parameter::WriteChecksum => 11,
        Parameter::WriteDictId => 12,
        Parameter::JobSize => 13,
        Parameter::OverlapLog => 14,
        Parameter::ForceMaxWindow => 15,
        Parameter::EnableLdm => 16,
        Parameter::LdmHashLog => 17,
        Parameter::LdmMinMatch => 18,
        Parameter::LdmBucketSizeLog => 19,
        Parameter::LdmHashRateLog => 20,
    }
}

/// Every parameter is pushed, and pushed once: it stands at its place in
/// the push order and nowhere else.
pub proof fn lemma_pushed_once(parameter: Parameter, i: int)
    requires
        0 <= i < push_order().len(),
    ensures
        push_order().len() == 21,
        0 <= push_place(parameter) < push_order().len(),
        push_order()[push_place(parameter)] == parameter,
        push_order()[i] == parameter ==> i == push_place(parameter),
{
}

/// The settings that push `set` into a context.
pub open spec fn settings_of(set: ZstdCompressionParameters) -> Seq<ParameterValue> {
    Seq::new(
        push_order().len(),
        |i: int| ParameterValue { parameter: push_order()[i], value: set.value_of(push_order()[i]) },
    )
}

/// The settings for a context, in the order in which they were made.
pub struct CCtxParams {
    settings: Vec<ParameterValue>,
}

impl CCtxParams {
    /// The settings, in order.
    pub closed spec fn view(self) -> Seq<ParameterValue> {
        self.settings@
    }

    /// No settings: a context keeps the codec's defaults.
    pub fn create() -> (params: CCtxParams)
        ensures
            params@.len() == 0,
    {
        CCtxParams { settings: Vec::new() }
    }

    /// Adds the setting of `parameter` to `value` at the end.
    pub fn set_parameter(&mut self, parameter: Parameter, value: i32)
        ensures
            final(self)@ == old(self)@.push(ParameterValue { parameter, value }),
    {
        self.settings.push(ParameterValue { parameter, value });
    }

    /// Adds the settings that push `set` into a context.
    pub fn apply_compression_parameters(&mut self, set: &ZstdCompressionParameters)
        ensures
            final(self)@ == old(self)@ + settings_of(*set),
    {
        let order = [
            Parameter::Threads,
            Parameter::Format,
            Parameter::CompressionLevel,
            Parameter::WindowLog,
            Parameter::HashLog,
            Parameter::ChainLog,
            Parameter::SearchLog,
            Parameter::MinMatch,
            Parameter::TargetLength,
            Parameter::Strategy,
            Parameter::WriteContentSize,
            Parameter::WriteChecksum,
            Parameter::WriteDictId,
            Parameter::JobSize,
            Parameter::OverlapLog,
            Parameter::ForceMaxWindow,
            Parameter::EnableLdm,
            Parameter::LdmHashLog,
            Parameter::LdmMinMatch,
            Parameter::LdmBucketSizeLog,
            Parameter::LdmHashRateLog,
        ];
        assert(order@ =~= push_order());
        let mut i: usize = 0;
        while i < 21
            invariant
                0 <= i <= 21,
                order@ == push_order(),
                self@ == old(self)@ + settings_of(*set).subrange(0, i as int),
            decreases 21 - i,
        {
            let parameter = order[i];
            self.set_parameter(parameter, set.get_parameter(parameter));
            assert(self@ =~= old(self)@ + settings_of(*set).subrange(0, i + 1));
            i = i + 1;
        }
        assert(settings_of(*set).subrange(0, 21) =~= settings_of(*set));
    }

    /// Setting `index`.
    pub fn get(&self, index: usize) -> (setting: ParameterValue)
        requires
            index < self@.len(),
        ensures
            setting == self@[index as int],
    {
        self.settings[index]
    }

    /// The number of settings.
    pub fn len(&self) -> (len: usize)
        ensures
            len == self@.len(),
    {
        self.settings.len()
    }
}

} // verus!
