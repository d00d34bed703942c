//! Calls into the hashing crates: the path fingerprint, the per-path key digest,
//! the keyed perfect-hash triple and the perfect-hash table generator.
use vstd::prelude::*;
use vstd::string::StringSliceAdditionalSpecFns;
use sha2::Digest;
use crate::map::places_all;

verus! {

/// The 64-bit FNV-1a offset basis.
pub const FNV_OFFSET_BASIS: u64 = 0xcbf2_9ce4_8422_2325;

/// The 64-bit FNV prime.
pub const FNV_PRIME: u64 = 0x0000_0100_0000_01b3;

/// The 64-bit FNV-1a hash of a byte string: from the offset basis, each byte in turn is
/// XORed in and the state multiplied by the prime, wrapping at 64 bits.
pub open spec fn fnv1a_of(data: Seq<u8>) -> u64
    decreases data.len(),
{
    if data.len() == 0 {
        FNV_OFFSET_BASIS
    } else {
        (((fnv1a_of(data.drop_last()) ^ (data.last() as u64)) as int * FNV_PRIME as int)
            % 0x1_0000_0000_0000_0000int) as u64
    }
}

/// The SHA-256 digest of a byte string.
pub uninterp spec fn sha256_of(data: Seq<u8>) -> Seq<u8>;

/// The `(g, f1, f2)` triple of the keyed perfect-hash function for a byte string.
pub uninterp spec fn phf_hashes_of(data: Seq<u8>, salt: u64) -> (u32, u32, u32);

/// The `(salt, displacements, slot map)` that the perfect-hash generator picks for a key list
/// on a platform whose largest machine word is `word_max`: its random salts come from a
/// generator whose algorithm depends on the pointer width.
pub uninterp spec fn phf_state_of(keys: Seq<Seq<u8>>, word_max: int) -> (
    u64,
    Seq<(u32, u32)>,
    Seq<usize>,
);

/// The generator's result for a key list on this platform.
pub open spec fn generated_state(keys: Seq<Seq<u8>>) -> (u64, Seq<(u32, u32)>, Seq<usize>) {
    phf_state_of(keys, usize::MAX as int)
}

/// Relies on const_fnv1a_hash::fnv1a_hash_str_64: the FNV-1a hash of the path's UTF-8 bytes.
#[verifier::external_body]
pub(crate) fn fingerprint(path: &str) -> (r: u64)
    ensures
        r == fnv1a_of(path.spec_bytes()),
{
    const_fnv1a_hash::fnv1a_hash_str_64(path)
}

/// Relies on sha2::Sha256::digest: a 32-byte digest of the path's UTF-8 bytes.
#[verifier::external_body]
pub(crate) fn path_digest(path: &str) -> (r: [u8; 32])
    ensures
        r@ == sha256_of(path.spec_bytes()),
{
    sha2::Sha256::digest(path.as_bytes()).into()
}

/// Relies on phf_shared::hash: SipHash-1-3 keyed with `(0, salt)` over the bytes,
/// split into the `(g, f1, f2)` triple.
#[verifier::external_body]
pub(crate) fn phf_hashes(data: &[u8], salt: u64) -> (r: (u32, u32, u32))
    ensures
        r == phf_hashes_of(data@, salt),
{
    let h = phf_shared::hash(data, &salt);
    (h.g, h.f1, h.f2)
}

/// Relies on phf_generator::generate_hash. Its salt search starts from a fixed seed of
/// rand's `SmallRng`, whose algorithm depends on the pointer width: the result depends on
/// the keys and the platform. It returns only once every bucket has displacements that
/// send each key, hashed with `phf_shared::hash`, to its own slot among `keys.len()`
/// slots, with one bucket per five keys; it never returns when two keys are equal.
#[verifier::external_body]
pub(crate) fn generate_state(keys: &Vec<Vec<u8>>) -> (r: (u64, Vec<(u32, u32)>, Vec<usize>))
    requires
        keys@.len() <= u32::MAX,
        forall|i: int, j: int|
            0 <= i < j < keys@.len() ==> keys@[i]@ != keys@[j]@,
    ensures
        (r.0, r.1@, r.2@) == phf_state_of(keys.deep_view(), usize::MAX as int),
        places_all(keys.deep_view(), r.0, r.1@, r.2@),
{
    let state = phf_generator::generate_hash(keys);
    (state.key, state.disps, state.map)
}

} // verus!
