//! The supported hash algorithms and their detection from a digest's length.

use vstd::prelude::*;
use vstd::string::*;

verus! {

/// A supported hash algorithm.
#[derive(Clone, Copy, PartialEq, Eq, Debug, Structural)]
pub enum HashType {
    MD5,
    SHA1,
    SHA256,
    SHA512,
}

impl HashType {
    /// Number of bytes in a digest of this algorithm.
    pub open spec fn digest_len(self) -> nat {
        match self {
            HashType::MD5 => 16,
            HashType::SHA1 => 20,
            HashType::SHA256 => 32,
            HashType::SHA512 => 64,
        }
    }

    /// Number of characters in the hexadecimal text of a digest.
    pub open spec fn hex_len(self) -> nat {
        2 * self.digest_len()
    }

    /// The text of the algorithm's name.
    pub open spec fn label(self) -> Seq<char> {
        match self {
            HashType::MD5 => "MD5"@,
            HashType::SHA1 => "SHA1"@,
            HashType::SHA256 => "SHA256"@,
            HashType::SHA512 => "SHA512"@,
        }
    }

    /// The algorithm's conventional name.
    pub fn name(self) -> (r: &'static str)
        ensures
            r@ == self.label(),
    {
        match self {
            HashType::MD5 => "MD5",
            HashType::SHA1 => "SHA1",
            HashType::SHA256 => "SHA256",
            HashType::SHA512 => "SHA512",
        }
    }
}

/// The algorithm whose hexadecimal digests are `len` bytes long, if any.
pub open spec fn algorithm_for_len(len: nat) -> Option<HashType> {
    if len == 32 {
        Some(HashType::MD5)
    } else if len == 40 {
        Some(HashType::SHA1)
    } else if len == 64 {
        Some(HashType::SHA256)
    } else if len == 128 {
        Some(HashType::SHA512)
    } else {
        None
    }
}

/// Picks the algorithm from the byte length of the digest text alone.
pub fn detect_hash_type(hash: &str) -> (r: Option<HashType>)
    ensures
        r == algorithm_for_len(hash.spec_bytes().len()),
{
    let n: usize = hash.as_bytes().len();
    if n == 32 {
        Some(HashType::MD5)
    } else if n == 40 {
        Some(HashType::SHA1)
    } else if n == 64 {
        Some(HashType::SHA256)
    } else if n == 128 {
        Some(HashType::SHA512)
    } else {
        None
    }
}

/// Detection inverts `hex_len`: a text as long as an algorithm's digests is
/// detected as that algorithm, and nothing else is detected as it.
pub proof fn detection_matches_hex_len(len: nat, algo: HashType)
    ensures
        algorithm_for_len(len) == Some(algo) <==> len == algo.hex_len(),
{
}

} // verus!
