//! Change detection over what a content provider returned.

use vstd::prelude::*;

verus! {

/// Why an input could not be served.
#[derive(Debug, Clone, Copy, PartialEq, Eq, Structural, Hash)]
pub enum ErrorKind {
    /// No input of that name exists.
    NotFound,
    /// The input exists but may not be read.
    AccessDenied,
    /// The name denotes a directory, not an input.
    IsDirectory,
    /// The input was asked for as text and is not valid UTF-8.
    InvalidText,
    /// The provider failed for a reason of its own, which it numbers.
    Io(u32),
}

/// What a provider hands back for one identifier, as mathematical values.
pub type Loaded = Result<Seq<u8>, ErrorKind>;

/// The view of an executable load result.
pub open spec fn loaded_view(loaded: Result<Vec<u8>, ErrorKind>) -> Loaded {
    match loaded {
        Ok(bytes) => Ok(bytes@),
        Err(kind) => Err(kind),
    }
}

/// A 128-bit digest of a load result. Equal digests are taken to mean equal
/// content; the digest is not meant to resist an adversary.
#[derive(Debug, Clone, Copy, PartialEq, Eq, Structural, Hash)]
pub struct Fingerprint {
    pub digest: u128,
}

/// Offset basis of the 128-bit FNV-1a hash.
pub const FNV_OFFSET: u128 = 0x6c62272e07bb014262b821756295c58d;

/// Prime of the 128-bit FNV-1a hash.
pub const FNV_PRIME: u128 = 0x0000000001000000000000000000013b;

/// One FNV-1a round: mix a byte into the state.
pub open spec fn fnv_round(state: u128, byte: u8) -> u128 {
    (state ^ (byte as u128)).wrapping_mul(FNV_PRIME)
}

/// FNV-1a over `bytes`, started from `state`.
pub open spec fn fnv_fold(state: u128, bytes: Seq<u8>) -> u128
    decreases bytes.len(),
{
    if bytes.len() == 0 {
        state
    } else {
        fnv_round(fnv_fold(state, bytes.drop_last()), bytes.last())
    }
}

/// The number under which an error kind enters the digest.
pub open spec fn kind_tag(kind: ErrorKind) -> u8 {
    match kind {
        ErrorKind::NotFound => 1,
        ErrorKind::AccessDenied => 2,
        ErrorKind::IsDirectory => 3,
        ErrorKind::InvalidText => 4,
        ErrorKind::Io(_) => 5,
    }
}

/// The bytes that stand for an error kind in the digest: its tag, and for a
/// provider's own failure the four bytes of its code, lowest first.
pub open spec fn kind_bytes(kind: ErrorKind) -> Seq<u8> {
    match kind {
        ErrorKind::Io(code) => seq![
            5u8,
            (code & 0xff) as u8,
            ((code >> 8) & 0xff) as u8,
            ((code >> 16) & 0xff) as u8,
            ((code >> 24) & 0xff) as u8,
        ],
        _ => seq![kind_tag(kind)],
    }
}

/// The digest of a load result: FNV-1a over a leading 0 and the content, or
/// over a leading 1 and the bytes of the error kind.
pub open spec fn spec_fingerprint(loaded: Loaded) -> Fingerprint {
    match loaded {
        Ok(bytes) => Fingerprint { digest: fnv_fold(fnv_round(FNV_OFFSET, 0), bytes) },
        Err(kind) => Fingerprint { digest: fnv_fold(fnv_round(FNV_OFFSET, 1), kind_bytes(kind)) },
    }
}

/// Mixes `bytes` into `state`.
fn fold_bytes(state: u128, bytes: &[u8]) -> (digest: u128)
    ensures
        digest == fnv_fold(state, bytes@),
{
    let mut digest: u128 = state;
    let mut i: usize = 0;
    while i < bytes.len()
        invariant
            i <= bytes.len(),
            digest == fnv_fold(state, bytes@.take(i as int)),
        decreases bytes.len() - i,
    {
        proof {
            let next = bytes@.take(i + 1);
            assert(next.drop_last() == bytes@.take(i as int));
            assert(next.last() == bytes@[i as int]);
        }
        digest = (digest ^ (bytes[i] as u128)).wrapping_mul(FNV_PRIME);
        i += 1;
    }
    proof {
        assert(bytes@.take(bytes.len() as int) == bytes@);
    }
    digest
}

/// The bytes under which an error kind enters the digest.
fn encode_kind(kind: ErrorKind) -> (bytes: Vec<u8>)
    ensures
        bytes@ == kind_bytes(kind),
{
    match kind {
        ErrorKind::NotFound => vec![1u8],
        ErrorKind::AccessDenied => vec![2u8],
        ErrorKind::IsDirectory => vec![3u8],
        ErrorKind::InvalidText => vec![4u8],
        ErrorKind::Io(code) => vec![
            5u8,
            (code & 0xff) as u8,
            ((code >> 8) & 0xff) as u8,
            ((code >> 16) & 0xff) as u8,
            ((code >> 24) & 0xff) as u8,
        ],
    }
}

impl Fingerprint {
    /// The digest that a slot holds before anything was loaded into it.
    pub fn blank() -> (fingerprint: Fingerprint)
        ensures
            fingerprint.digest == 0,
    {
        Fingerprint { digest: 0 }
    }

    /// The digest of a load result, a failed one included.
    pub fn of(loaded: &Result<Vec<u8>, ErrorKind>) -> (fingerprint: Fingerprint)
        ensures
            fingerprint == spec_fingerprint(loaded_view(*loaded)),
    {
        match loaded {
            Ok(bytes) => {
                let start = (FNV_OFFSET ^ 0u128).wrapping_mul(FNV_PRIME);
                Fingerprint { digest: fold_bytes(start, bytes.as_slice()) }
            },
            Err(kind) => {
                let start = (FNV_OFFSET ^ 1u128).wrapping_mul(FNV_PRIME);
                let encoded = encode_kind(*kind);
                Fingerprint { digest: fold_bytes(start, encoded.as_slice()) }
            },
        }
    }

    /// Whether both digests are the same number.
    pub fn matches(&self, other: &Fingerprint) -> (equal: bool)
        ensures
            equal == (*self == *other),
    {
        self.digest == other.digest
    }
}

} // verus!
