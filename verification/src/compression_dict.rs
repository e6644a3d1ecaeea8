//! Dictionaries: the bytes, their type, and the prepared forms that
//! contexts reference.

use crate::compression_parameters::ZstdCompressionParameters;
use crate::exceptions::{Context, Fault, ZstdError};
use crate::zstd_safe::{CCtx, DCtx, PreparedCDict, PreparedDDict};
use vstd::bytes::{spec_u32_from_le_bytes, u32_from_le_bytes};
use vstd::prelude::*;

verus! {

/// How the bytes of a dictionary are to be read.
#[derive(Clone, Copy, Debug, PartialEq, Eq, Structural)]
pub enum DictContentType {
    /// A structured dictionary if the bytes start like one, else raw content.
    Auto,
    /// Raw content.
    RawContent,
    /// A structured dictionary.
    FullDict,
}

/// The dictionary type that `value` numbers; the automatic one where none
/// is given.
pub open spec fn dict_type_numbered(value: Option<u32>) -> Option<DictContentType> {
    match value {
        None => Some(DictContentType::Auto),
        Some(n) => if n == 0 {
            Some(DictContentType::Auto)
        } else if n == 1 {
            Some(DictContentType::RawContent)
        } else if n == 2 {
            Some(DictContentType::FullDict)
        } else {
            None
        },
    }
}

/// The number that a structured dictionary starts with, as an unsigned
/// integer in little-endian order.
pub const DICT_MAGIC: u32 = 0xEC30_A437;

/// The dictionary id in the header of `data`: the unsigned integer that
/// bytes 4 to 7 hold in little-endian order, or zero where `data` is
/// shorter than 8 bytes or does not start with the dictionary magic.
pub open spec fn dict_id_of(data: Seq<u8>) -> u32 {
    if data.len() < 8 || spec_u32_from_le_bytes(data.subrange(0, 4)) != DICT_MAGIC {
        0
    } else {
        spec_u32_from_le_bytes(data.subrange(4, 8))
    }
}

/// Reads the dictionary id in the header of `data`, as the codec does.
pub fn read_dict_id(data: &[u8]) -> (id: u32)
    ensures
        id == dict_id_of(data@),
{
    if data.len() < 8 {
        return 0;
    }
    let magic = u32_from_le_bytes(vstd::slice::slice_subrange(data, 0, 4));
    if magic != DICT_MAGIC {
        return 0;
    }
    u32_from_le_bytes(vstd::slice::slice_subrange(data, 4, 8))
}

/// A dictionary for compression and decompression.
pub struct ZstdCompressionDict {
    content_type: DictContentType,
    k: u32,
    d: u32,
    data: Vec<u8>,
    cdict: Option<PreparedCDict>,
    ddict: Option<PreparedDDict>,
}

impl ZstdCompressionDict {
    /// The bytes of the dictionary.
    pub closed spec fn view(self) -> Seq<u8> {
        self.data@
    }

    /// How the bytes are to be read.
    pub closed spec fn kind(self) -> DictContentType {
        self.content_type
    }

    /// The segment size and the dmer size the dictionary was trained with.
    pub closed spec fn training(self) -> (u32, u32) {
        (self.k, self.d)
    }

    /// Whether a form prepared for compression is at hand.
    pub closed spec fn has_cdict(self) -> bool {
        self.cdict is Some
    }

    /// Whether a form prepared for decompression is at hand.
    pub closed spec fn has_ddict(self) -> bool {
        self.ddict is Some
    }

    /// A dictionary of `data`, of the type that `dict_type` numbers. A
    /// number that names no type is refused with `InvalidDictType`.
    pub fn new(data: Vec<u8>, dict_type: Option<u32>) -> (res: Result<ZstdCompressionDict, ZstdError>)
        ensures
            match dict_type_numbered(dict_type) {
                Some(kind) => res matches Ok(dict) && dict@ == data@ && dict.kind() == kind && dict.training() == (
                    0u32,
                    0u32,
                ) && !dict.has_cdict() && !dict.has_ddict(),
                None => res matches Err(e) && e == (ZstdError::InvalidDictType { value: dict_type->0 }),
            },
    {
        let content_type = match dict_type {
            None => DictContentType::Auto,
            Some(n) => if n == 0 {
                DictContentType::Auto
            } else if n == 1 {
                DictContentType::RawContent
            } else if n == 2 {
                DictContentType::FullDict
            } else {
                return Err(ZstdError::InvalidDictType { value: n });
            },
        };
        Ok(ZstdCompressionDict { content_type, k: 0, d: 0, data, cdict: None, ddict: None })
    }

    /// A trained dictionary of `data`, which is a structured one.
    pub fn trained(data: Vec<u8>, k: u32, d: u32) -> (dict: ZstdCompressionDict)
        ensures
            dict@ == data@,
            dict.kind() == DictContentType::FullDict,
            dict.training() == (k, d),
            !dict.has_cdict(),
            !dict.has_ddict(),
    {
        ZstdCompressionDict { content_type: DictContentType::FullDict, k, d, data, cdict: None, ddict: None }
    }

    /// The number of bytes of the dictionary.
    pub fn len(&self) -> (len: usize)
        ensures
            len == self@.len(),
    {
        self.data.len()
    }

    /// The bytes of the dictionary.
    pub fn as_bytes(&self) -> (bytes: &[u8])
        ensures
            bytes@ == self@,
    {
        self.data.as_slice()
    }

    /// The segment size the dictionary was trained with.
    pub fn k(&self) -> (k: u32)
        ensures
            k == self.training().0,
    {
        self.k
    }

    /// The dmer size the dictionary was trained with.
    pub fn d(&self) -> (d: u32)
        ensures
            d == self.training().1,
    {
        self.d
    }

    /// The id in the header of the dictionary, or zero.
    pub fn dict_id(&self) -> (id: u32)
        ensures
            id == dict_id_of(self@),
    {
        read_dict_id(self.data.as_slice())
    }

    /// Prepares the dictionary for compression, at `level` or at the level
    /// of `compression_params`.
    ///
    /// Exactly one of the two has to be given: both are refused with
    /// `PrecomputeBoth`, neither with `PrecomputeNeither`, and the
    /// dictionary stays as it was.
    pub fn precompute_compress(&mut self, level: Option<i32>, compression_params: Option<&ZstdCompressionParameters>) -> (res:
        Result<(), ZstdError>)
        ensures
            final(self)@ == old(self)@,
            final(self).kind() == old(self).kind(),
            final(self).training() == old(self).training(),
            final(self).has_ddict() == old(self).has_ddict(),
            level is Some && compression_params is Some ==> res == Err::<(), ZstdError>(ZstdError::PrecomputeBoth)
                && final(self).has_cdict() == old(self).has_cdict(),
            level is None && compression_params is None ==> res == Err::<(), ZstdError>(
                ZstdError::PrecomputeNeither,
            ) && final(self).has_cdict() == old(self).has_cdict(),
            res is Ok ==> final(self).has_cdict() && (level is Some) != (compression_params is Some),
            res matches Err(e) ==> e == (if level is Some && compression_params is Some {
                ZstdError::PrecomputeBoth
            } else if level is None && compression_params is None {
                ZstdError::PrecomputeNeither
            } else {
                ZstdError::Codec { context: Context::LoadCompressionDict, fault: Fault::CompressionContext }
            }),
    {
        let level = match level {
            Some(level) => {
                if compression_params.is_some() {
                    return Err(ZstdError::PrecomputeBoth);
                }
                level
            },
            None => match compression_params {
                Some(params) => params.compression_level,
                None => {
                    return Err(ZstdError::PrecomputeNeither);
                },
            },
        };
        match PreparedCDict::from_data(self.data.as_slice(), level) {
            Ok(cdict) => {
                self.cdict = Some(cdict);
                Ok(())
            },
            Err(_) => Err(
                ZstdError::Codec { context: Context::LoadCompressionDict, fault: Fault::CompressionContext },
            ),
        }
    }

    /// Makes `cctx` use the dictionary: the prepared form if there is one,
    /// else the bytes.
    pub fn load_into_cctx<'a>(&'a self, cctx: &mut CCtx<'a>) -> (res: Result<(), ZstdError>)
        ensures
            final(cctx).steps() == old(cctx).steps(),
            res matches Err(e) ==> e matches ZstdError::Codec {
                context: Context::LoadCompressionDict,
                fault: Fault::Code(_),
            },
    {
        let loaded = match &self.cdict {
            Some(cdict) => cctx.load_computed_dict(cdict),
            None => cctx.load_dict_data(self.data.as_slice()),
        };
        match loaded {
            Ok(()) => Ok(()),
            Err(fault) => Err(ZstdError::Codec { context: Context::LoadCompressionDict, fault }),
        }
    }

    /// Prepares the dictionary for decompression, unless it is prepared.
    pub fn ensure_ddict(&mut self) -> (res: Result<(), ZstdError>)
        ensures
            final(self)@ == old(self)@,
            final(self).kind() == old(self).kind(),
            final(self).training() == old(self).training(),
            final(self).has_cdict() == old(self).has_cdict(),
            old(self).has_ddict() ==> res is Ok && *final(self) == *old(self),
            res is Ok ==> final(self).has_ddict(),
            res matches Err(e) ==> e == (ZstdError::Codec {
                context: Context::LoadDecompressionDict,
                fault: Fault::DecompressionContext,
            }) && !final(self).has_ddict(),
    {
        if self.ddict.is_some() {
            return Ok(());
        }
        match PreparedDDict::from_data(self.data.as_slice()) {
            Ok(ddict) => {
                self.ddict = Some(ddict);
                Ok(())
            },
            Err(_) => Err(
                ZstdError::Codec { context: Context::LoadDecompressionDict, fault: Fault::DecompressionContext },
            ),
        }
    }

    /// Makes `dctx` use the dictionary: the prepared form if there is one,
    /// else the bytes.
    pub fn load_into_dctx<'a>(&'a self, dctx: &mut DCtx<'a>) -> (res: Result<(), ZstdError>)
        ensures
            final(dctx).steps() == old(dctx).steps(),
            res matches Err(e) ==> e matches ZstdError::Codec {
                context: Context::LoadDecompressionDict,
                fault: Fault::Code(_),
            },
    {
        let loaded = match &self.ddict {
            Some(ddict) => dctx.load_prepared_dict(ddict),
            None => dctx.load_dict_data(self.data.as_slice()),
        };
        match loaded {
            Ok(()) => Ok(()),
            Err(fault) => Err(ZstdError::Codec { context: Context::LoadDecompressionDict, fault }),
        }
    }
}

/// The dmer size, the number of steps and the level that dictionary
/// training runs with: where neither steps nor threads are given, the
/// dmer size is 8 and the level 3 unless given, and the steps are 4.
pub open spec fn training_defaults(d: u32, steps: u32, level: i32, threads: u32) -> (u32, u32, i32) {
    if steps == 0 && threads == 0 {
        (
            if d != 0 {
                d
            } else {
                8
            },
            4u32,
            if level != 0 {
                level
            } else {
                3
            },
        )
    } else {
        (d, steps, level)
    }
}

/// The dmer size, the number of steps and the level that dictionary
/// training runs with.
pub fn resolve_training(d: u32, steps: u32, level: i32, threads: u32) -> (res: (u32, u32, i32))
    ensures
        res == training_defaults(d, steps, level, threads),
{
    if steps == 0 && threads == 0 {
        (
            if d != 0 {
                d
            } else {
                8
            },
            4,
            if level != 0 {
                level
            } else {
                3
            },
        )
    } else {
        (d, steps, level)
    }
}

/// The samples one after the other.
pub open spec fn samples_joined(samples: Seq<Vec<u8>>) -> Seq<u8>
    decreases samples.len(),
{
    if samples.len() == 0 {
        Seq::empty()
    } else {
        samples_joined(samples.drop_last()) + samples.last()@
    }
}

/// The first samples, joined, are no longer than more of them.
proof fn lemma_joined_grows(samples: Seq<Vec<u8>>, a: int, b: int)
    requires
        0 <= a <= b <= samples.len(),
    ensures
        samples_joined(samples.subrange(0, a)).len() <= samples_joined(samples.subrange(0, b)).len(),
    decreases b - a,
{
    if a < b {
        lemma_joined_grows(samples, a, b - 1);
        assert(samples.subrange(0, b).drop_last() =~= samples.subrange(0, b - 1));
    }
}

/// The samples one after the other, and the size of each: what training
/// takes. The result is `None` exactly where the samples together hold more
/// bytes than a `usize` counts.
pub fn collect_samples(samples: &Vec<Vec<u8>>) -> (res: Option<(Vec<u8>, Vec<usize>)>)
    ensures
        res is Some <==> samples_joined(samples@).len() <= usize::MAX,
        res matches Some((buffer, sizes)) ==> {
            &&& buffer@ == samples_joined(samples@)
            &&& sizes@.len() == samples@.len()
            &&& forall|i: int| 0 <= i < sizes@.len() ==> #[trigger] sizes@[i] == samples@[i]@.len()
        },
{
    let mut buffer: Vec<u8> = Vec::new();
    let mut sizes: Vec<usize> = Vec::new();
    let mut i: usize = 0;
    while i < samples.len()
        invariant
            0 <= i <= samples@.len(),
            buffer@ == samples_joined(samples@.subrange(0, i as int)),
            sizes@.len() == i,
            forall|k: int| 0 <= k < i ==> #[trigger] sizes@[k] == samples@[k]@.len(),
        decreases samples@.len() - i,
    {
        let mut sample = samples[i].clone();
        proof {
            let next = samples@.subrange(0, i + 1);
            assert(next.drop_last() =~= samples@.subrange(0, i as int));
            assert(next.last() == samples@[i as int]);
        }
        if sample.len() > usize::MAX - buffer.len() {
            proof {
                lemma_joined_grows(samples@, i + 1, samples@.len() as int);
                assert(samples@.subrange(0, samples@.len() as int) =~= samples@);
            }
            return None;
        }
        sizes.push(sample.len());
        buffer.append(&mut sample);
        i = i + 1;
    }
    assert(samples@.subrange(0, i as int) =~= samples@);
    assert(buffer@.len() == buffer.len());
    Some((buffer, sizes))
}

} // verus!
