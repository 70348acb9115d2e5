//! Deterministic bucketing hash: an entity id and a seed map to a bucket
//! position in `[0, 1)`, written in billionths (`UNIT` is one whole).
use vstd::prelude::*;
use vstd::string::*;
use vstd::utf8::encode_utf8;
use crate::text::{nat_text, push_nat_text};

verus! {

/// One whole of the bucketing space, in billionths.
pub const UNIT: u64 = 1_000_000_000;

/// FNV-1a with a 32-bit state: start from the offset basis, then for each
/// byte xor it in and multiply by the FNV prime, modulo 2^32.
pub open spec fn fnv1a32_spec(data: Seq<u8>) -> u32
    decreases data.len(),
{
    if data.len() == 0 {
        0x811c9dc5u32
    } else {
        let h = fnv1a32_spec(data.drop_last());
        (((h ^ (data.last() as u32)) as int * 16777619int) % 0x1_0000_0000int) as u32
    }
}

/// Bucket position of version 1: FNV-1a of `input ++ seed`, modulo 1000, in
/// thousandths.
pub open spec fn hash_v1_spec(input: Seq<char>, seed: Seq<char>) -> u64 {
    ((fnv1a32_spec(encode_utf8(input + seed)) % 1000) as int * 1_000_000) as u64
}

/// Bucket position of version 2: FNV-1a of the decimal text of
/// FNV-1a(`seed ++ input`), modulo 10000, in ten-thousandths.
pub open spec fn hash_v2_spec(input: Seq<char>, seed: Seq<char>) -> u64 {
    let first = fnv1a32_spec(encode_utf8(seed + input));
    ((fnv1a32_spec(encode_utf8(nat_text(first as nat))) % 10000) as int * 100_000) as u64
}

/// Algorithm version of the bucketing hash.
#[derive(Clone, Copy, Debug, PartialEq, Eq, Structural)]
pub enum HashCodeVersion {
    V1,
    V2,
    Invalid,
}

/// The version that a wire number names: 1 and 2 are known, anything else
/// is invalid.
pub open spec fn version_of(value: i64) -> HashCodeVersion {
    if value == 1 { HashCodeVersion::V1 } else if value == 2 { HashCodeVersion::V2 } else { HashCodeVersion::Invalid }
}

/// The version that an optional wire number names; absent means version 1.
pub open spec fn version_of_option(value: Option<i64>) -> HashCodeVersion {
    match value {
        None => HashCodeVersion::V1,
        Some(v) => version_of(v),
    }
}

/// The bucket position of `input` under `seed` and `version`; none for an
/// invalid version.
pub open spec fn hash_spec(input: Seq<char>, seed: Seq<char>, version: HashCodeVersion) -> Option<u64> {
    match version {
        HashCodeVersion::V1 => Some(hash_v1_spec(input, seed)),
        HashCodeVersion::V2 => Some(hash_v2_spec(input, seed)),
        HashCodeVersion::Invalid => None,
    }
}

impl HashCodeVersion {
    pub fn from_i64(value: i64) -> (r: HashCodeVersion)
        ensures
            r == version_of(value),
    {
        if value == 1 {
            HashCodeVersion::V1
        } else if value == 2 {
            HashCodeVersion::V2
        } else {
            HashCodeVersion::Invalid
        }
    }

    pub fn from_option(value: Option<i64>) -> (r: HashCodeVersion)
        ensures
            r == version_of_option(value),
    {
        match value {
            None => HashCodeVersion::V1,
            Some(v) => HashCodeVersion::from_i64(v),
        }
    }
}

/// Relies on hashers::fnv::fnv1a32: the 32-bit FNV-1a of the bytes, widened
/// to u64 by the hasher's `finish`.
#[verifier::external_body]
fn fnv1a_32(data: &str) -> (r: u32)
    ensures
        r == fnv1a32_spec(data.spec_bytes()),
{
    hashers::fnv::fnv1a32(data.as_bytes()) as u32
}

pub struct HashCode;

impl HashCode {
    /// The bucket position of `input` under `seed`, as `hash_spec` states;
    /// always below one whole.
    pub fn hash_code(input: &str, seed: &str, version: HashCodeVersion) -> (r: Option<u64>)
        ensures
            r == hash_spec(input@, seed@, version),
            r matches Some(h) ==> h < UNIT,
    {
        match version {
            HashCodeVersion::V1 => Some(Self::hash_v1(input, seed)),
            HashCodeVersion::V2 => Some(Self::hash_v2(input, seed)),
            HashCodeVersion::Invalid => None,
        }
    }

    fn hash_v1(input: &str, seed: &str) -> (r: u64)
        ensures
            r == hash_v1_spec(input@, seed@),
            r < UNIT,
    {
        let mut concatenated = String::from_str(input);
        concatenated.append(seed);
        let hash_value = fnv1a_32(concatenated.as_str());
        let remainder = (hash_value % 1000) as u64;
        remainder * 1_000_000
    }

    fn hash_v2(input: &str, seed: &str) -> (r: u64)
        ensures
            r == hash_v2_spec(input@, seed@),
            r < UNIT,
    {
        let mut concatenated = String::from_str(seed);
        concatenated.append(input);
        let first = fnv1a_32(concatenated.as_str());
        let mut first_as_string = String::new();
        push_nat_text(&mut first_as_string, first as u64);
        assert(first_as_string@ =~= nat_text(first as nat));
        let second = fnv1a_32(first_as_string.as_str());
        let remainder = (second % 10000) as u64;
        remainder * 100_000
    }
}

} // verus!
