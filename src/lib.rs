//! Packs named byte payloads into one flat, encrypted archive blob with a
//! build-time perfect-hash index.
//!
//! - [`map`]: the perfect-hash lookup table and its key forms.
//! - [`FileMap`]: two lookup tables that locate an entry by its path's fingerprint.
//! - [`crypto`]: per-path key and nonce, and the seekable ChaCha20 stream.
//! - [`io`]: opening an entry over the archive bytes as a bounded, decrypting stream.
//! - [`builder`]: writing encrypted entries and building their file map.
//! - [`laws`]: round trip, negative lookup, determinism and seek clamping.
//! - [`hashing`]: the hash functions and the table generator that the above rely on.
pub mod hashing;
pub mod map;
pub mod crypto;
pub mod builder;
pub mod io;
pub mod laws;

use vstd::prelude::*;
use vstd::string::StringSliceAdditionalSpecFns;
use crate::crypto::MAX_KEYSTREAM_LEN;
use crate::hashing::{fingerprint, fnv1a_of};
use crate::map::{offset_suffix, size_suffix, LookupMap, OffsetKey, SizeKey};

verus! {

/// What can go wrong when packing or opening an archive entry.
#[derive(Clone, Copy, Debug, PartialEq, Eq, Structural)]
pub enum SpxError {
    /// The path is not in the file map.
    NotFound,
    /// The path was already registered in this build.
    DuplicatePath,
    /// The registered paths are too many for a perfect-hash table's 32-bit slot indices.
    HashConstruction,
}

/// Where an entry's bytes lie in the archive.
#[derive(Clone, Copy, Debug, PartialEq, Eq, Structural, Hash)]
pub struct FileInfo {
    /// Absolute offset in the archive
    pub offset: u64,
    /// Length of the entry
    pub size: u64,
}

impl FileInfo {
    pub fn new(offset: u64, size: u64) -> (r: FileInfo)
        ensures
            r.offset == offset,
            r.size == size,
    {
        FileInfo { offset, size }
    }
}

/// The 64-bit value whose high half is `high` and low half is `low`.
pub open spec fn combine_halves(high: u32, low: u32) -> u64 {
    (high as int * 0x1_0000_0000int + low as int) as u64
}

/// The high 32 bits of a 64-bit value.
pub open spec fn high_half(v: u64) -> u32 {
    (v as int / 0x1_0000_0000int) as u32
}

/// The low 32 bits of a 64-bit value.
pub open spec fn low_half(v: u64) -> u32 {
    (v as int % 0x1_0000_0000int) as u32
}

/// Splitting a value into halves and combining them gives it back, and a combined value's
/// halves are the ones it was made of.
pub proof fn split_halves(v: u64, high: u32, low: u32)
    ensures
        combine_halves(high_half(v), low_half(v)) == v,
        combine_halves(high, low) == v ==> high == high_half(v) && low == low_half(v),
{
    assert(v as int == (v as int / 0x1_0000_0000int) * 0x1_0000_0000int + v as int % 0x1_0000_0000int)
        by (nonlinear_arith);
    assert(v as int / 0x1_0000_0000int <= 0xffff_ffffint) by (nonlinear_arith)
        requires v <= u64::MAX;
    if combine_halves(high, low) == v {
        assert(high as int * 0x1_0000_0000int + low as int <= u64::MAX) by (nonlinear_arith)
            requires high as int * 0x1_0000_0000int + low as int == v as int;
        vstd::arithmetic::div_mod::lemma_fundamental_div_mod_converse(
            v as int,
            0x1_0000_0000int,
            high as int,
            low as int,
        );
    }
}

/// The high and the low 32 bits of a 64-bit value.
pub fn split(v: u64) -> (r: (u32, u32))
    ensures
        r.0 == high_half(v),
        r.1 == low_half(v),
{
    let h: u64 = v >> 32u64;
    let l: u64 = v & 0xffff_ffffu64;
    assert(h <= 0xffff_ffffu64 && l <= 0xffff_ffffu64 && (h << 32u64) | l == v) by (bit_vector)
        requires
            h == v >> 32u64,
            l == v & 0xffff_ffffu64,
    ;
    assert((h << 32u64) | l == h * 0x1_0000_0000u64 + l) by (bit_vector)
        requires
            h <= 0xffff_ffffu64,
            l <= 0xffff_ffffu64,
    ;
    proof {
        split_halves(v, h as u32, l as u32);
    }
    (h as u32, l as u32)
}

fn combine(high: u32, low: u32) -> (r: u64)
    ensures
        r == combine_halves(high, low),
{
    let h: u64 = high as u64;
    let l: u64 = low as u64;
    assert((h << 32u64) | l == h * 0x1_0000_0000u64 + l) by (bit_vector)
        requires
            h <= 0xffff_ffffu64,
            l <= 0xffff_ffffu64,
    ;
    (h << 32u64) | l
}

/// The index of an archive: two independently salted perfect-hash tables. The offset table
/// stores the high fingerprint half and the offset of each entry; the size table the low half
/// and the size. A path is found when the two halves it selects make up its own fingerprint.
#[derive(Clone, Debug, PartialEq, Eq)]
pub struct FileMap {
    pub offsets: LookupMap,
    pub sizes: LookupMap,
}

impl FileMap {
    /// Both tables can be indexed, and every stored size fits the keystream.
    pub open spec fn wf(&self) -> bool {
        &&& self.offsets.wf()
        &&& self.sizes.wf()
        &&& forall|j: int|
            0 <= j < self.sizes.values@.len() ==> #[trigger] self.sizes.values@[j].1
                <= MAX_KEYSTREAM_LEN
    }

    /// Whether the map is well formed, for maps assembled from stored tables.
    pub fn is_valid(&self) -> (r: bool)
        ensures
            r == self.wf(),
    {
        if !self.offsets.is_valid() || !self.sizes.is_valid() {
            return false;
        }
        let mut j: usize = 0;
        while j < self.sizes.values.len()
            invariant
                j <= self.sizes.values@.len(),
                forall|k: int| 0 <= k < j ==> #[trigger] self.sizes.values@[k].1 <= MAX_KEYSTREAM_LEN,
            decreases self.sizes.values@.len() - j,
        {
            if self.sizes.values[j].1 > MAX_KEYSTREAM_LEN {
                return false;
            }
            j = j + 1;
        }
        true
    }

    /// A size that a lookup gives fits the keystream.
    pub proof fn lemma_entry_size(&self, path: Seq<u8>)
        requires
            self.wf(),
        ensures
            self.spec_get_entry(path) matches Some(e) ==> e.1.size <= MAX_KEYSTREAM_LEN,
    {
        if !self.spec_is_empty() {
            let j = self.sizes.slot(path + size_suffix());
            assert(self.sizes.values@[j].1 <= MAX_KEYSTREAM_LEN);
        }
    }

    pub open spec fn spec_is_empty(&self) -> bool {
        self.offsets.spec_is_empty() || self.sizes.spec_is_empty()
    }

    /// The fingerprint and location that a lookup of the path's bytes gives, if any.
    pub open spec fn spec_get_entry(&self, path: Seq<u8>) -> Option<(u64, FileInfo)> {
        if self.spec_is_empty() {
            None
        } else {
            let (high, offset) = self.offsets.spec_get_raw(path + offset_suffix());
            let (low, size) = self.sizes.spec_get_raw(path + size_suffix());
            if combine_halves(high, low) == fnv1a_of(path) {
                Some((fnv1a_of(path), FileInfo { offset, size }))
            } else {
                None
            }
        }
    }

    /// The location that a lookup of the path's bytes gives, if any.
    pub open spec fn spec_get(&self, path: Seq<u8>) -> Option<FileInfo> {
        match self.spec_get_entry(path) {
            Some(e) => Some(e.1),
            None => None,
        }
    }

    /// Creates an empty map, on which every lookup misses.
    pub fn new() -> (r: FileMap)
        ensures
            r.wf(),
            r.spec_is_empty(),
            forall|p: Seq<u8>| r.spec_get_entry(p) is None,
    {
        FileMap { offsets: LookupMap::new(), sizes: LookupMap::new() }
    }

    pub fn from_maps(offsets: LookupMap, sizes: LookupMap) -> (r: FileMap)
        ensures
            r.offsets == offsets,
            r.sizes == sizes,
    {
        FileMap { offsets, sizes }
    }

    /// The number of slots, that is of entries stored at build time.
    pub fn len(&self) -> (r: usize)
        ensures
            r == self.offsets.values@.len(),
    {
        self.offsets.values.len()
    }

    pub fn is_empty(&self) -> (r: bool)
        ensures
            r == self.spec_is_empty(),
    {
        self.offsets.values.len() == 0 || self.sizes.values.len() == 0
    }

    /// Looks a path up; returns its fingerprint and location when both halves match.
    pub fn get_entry(&self, path: &str) -> (r: Option<(u64, FileInfo)>)
        requires
            self.wf(),
        ensures
            r == self.spec_get_entry(path.spec_bytes()),
    {
        if self.is_empty() {
            None
        } else {
            let hash = fingerprint(path);
            let (high, offset) = self.offsets.get_raw(OffsetKey(path).to_bytes().as_slice());
            let (low, size) = self.sizes.get_raw(SizeKey(path).to_bytes().as_slice());
            if combine(high, low) == hash {
                Some((hash, FileInfo::new(offset, size)))
            } else {
                None
            }
        }
    }

    /// Looks a path up; returns its location when both halves match.
    pub fn get(&self, path: &str) -> (r: Option<FileInfo>)
        requires
            self.wf(),
        ensures
            r == self.spec_get(path.spec_bytes()),
    {
        match self.get_entry(path) {
            Some(e) => Some(e.1),
            None => None,
        }
    }
}

} // verus!
