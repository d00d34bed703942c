//! The perfect-hash lookup table and the two key forms stored in a file map.
use vstd::prelude::*;
use vstd::string::StringSliceAdditionalSpecFns;
use crate::hashing::{phf_hashes, phf_hashes_of};

verus! {

/// `2^32`: the modulus of the 32-bit displacement arithmetic.
pub const U32_MODULUS: u64 = 0x1_0000_0000;

/// The displaced hash `d2 + f1 * d1 + f2`, wrapping at 32 bits.
pub open spec fn displace_spec(f1: u32, f2: u32, d1: u32, d2: u32) -> u32 {
    ((d2 as int + (f1 as int * d1 as int) % (U32_MODULUS as int) + f2 as int) % (U32_MODULUS as int)) as u32
}

/// The slot that a hash triple lands on in a table of `len` slots with the given displacements.
pub open spec fn slot_of(h: (u32, u32, u32), disps: Seq<(u32, u32)>, len: int) -> int {
    let d = disps[(h.0 as int) % (disps.len() as int)];
    (displace_spec(h.1, h.2, d.0, d.1) as int) % len
}

fn displace(f1: u32, f2: u32, d1: u32, d2: u32) -> (r: u32)
    ensures
        r == displace_spec(f1, f2, d1, d2),
{
    assert((f1 as int) * (d1 as int) <= 0xffff_ffffint * 0xffff_ffffint) by (nonlinear_arith);
    let p: u64 = ((f1 as u64) * (d1 as u64)) % U32_MODULUS;
    let s: u64 = ((d2 as u64) + p + (f2 as u64)) % U32_MODULUS;
    s as u32
}

/// Every key lands on its own slot: the slot map is as long as the key list, points into it,
/// and names key `i` at the slot that key `i` selects.
pub open spec fn places_all(
    keys: Seq<Seq<u8>>,
    salt: u64,
    disps: Seq<(u32, u32)>,
    map: Seq<usize>,
) -> bool {
    let n = keys.len();
    &&& map.len() == n
    &&& n <= u32::MAX
    &&& disps.len() <= u32::MAX
    &&& (disps.len() == 0 <==> n == 0)
    &&& forall|j: int| 0 <= j < n ==> map[j] < n
    &&& forall|i: int|
        0 <= i < n ==> map[slot_of(phf_hashes_of(keys[i], salt), disps, n as int)] == i
}

/// The slot contents: slot `j` holds the value of the key that the slot map names there.
pub open spec fn arrange(map: Seq<usize>, vals: Seq<(u32, u64)>) -> Seq<(u32, u64)> {
    Seq::new(map.len(), |j: int| vals[map[j] as int])
}

/// An immutable perfect-hash table: a salt, one displacement pair per bucket, and one
/// `(fingerprint half, payload)` pair per slot.
#[derive(Clone, Debug, PartialEq, Eq)]
pub struct LookupMap {
    pub key: u64,
    pub disps: Vec<(u32, u32)>,
    pub values: Vec<(u32, u64)>,
}

impl LookupMap {
    /// The table can be indexed: its sizes fit the 32-bit index arithmetic, and it has
    /// buckets exactly when it has slots.
    pub open spec fn wf(&self) -> bool {
        &&& self.disps@.len() <= u32::MAX
        &&& self.values@.len() <= u32::MAX
        &&& (self.disps@.len() == 0 <==> self.values@.len() == 0)
    }

    pub open spec fn spec_is_empty(&self) -> bool {
        self.values@.len() == 0
    }

    /// The slot that a key's bytes select.
    pub open spec fn slot(&self, key: Seq<u8>) -> int {
        slot_of(phf_hashes_of(key, self.key), self.disps@, self.values@.len() as int)
    }

    /// The pair stored in the slot that a key's bytes select.
    pub open spec fn spec_get_raw(&self, key: Seq<u8>) -> (u32, u64) {
        self.values@[self.slot(key)]
    }

    /// Whether the table can be indexed.
    pub fn is_valid(&self) -> (r: bool)
        ensures
            r == self.wf(),
    {
        self.disps.len() <= 0xffff_ffffusize && self.values.len() <= 0xffff_ffffusize && (
        self.disps.len() == 0) == (self.values.len() == 0)
    }

    /// Creates an empty table, on which every lookup misses.
    pub fn new() -> (r: LookupMap)
        ensures
            r.wf(),
            r.spec_is_empty(),
            r.disps@.len() == 0,
    {
        LookupMap { key: 0, disps: Vec::new(), values: Vec::new() }
    }

    /// Returns the slot that the key's bytes select.
    pub fn slot_index(&self, key: &[u8]) -> (r: usize)
        requires
            self.wf(),
            !self.spec_is_empty(),
        ensures
            r == self.slot(key@),
            r < self.values@.len(),
    {
        let h = phf_hashes(key, self.key);
        let nd = self.disps.len() as u32;
        let d = self.disps[(h.0 % nd) as usize];
        let n = self.values.len() as u32;
        let idx = displace(h.1, h.2, d.0, d.1) % n;
        idx as usize
    }

    /// Returns the pair in the slot that the key's bytes select.
    pub fn get_raw(&self, key: &[u8]) -> (r: (u32, u64))
        requires
            self.wf(),
            !self.spec_is_empty(),
        ensures
            0 <= self.slot(key@) < self.values@.len(),
            r == self.spec_get_raw(key@),
    {
        let idx = self.slot_index(key);
        self.values[idx]
    }

    /// Assembles a table from a generated salt, displacement list and slot map, storing
    /// `vals[i]` for `keys[i]`. Returns `None` when the generated data does not place every
    /// key in its own slot.
    pub fn from_state(
        keys: &Vec<Vec<u8>>,
        salt: u64,
        disps: Vec<(u32, u32)>,
        map: Vec<usize>,
        vals: &Vec<(u32, u64)>,
    ) -> (r: Option<LookupMap>)
        requires
            vals@.len() == keys@.len(),
        ensures
            r is Some <==> places_all(keys.deep_view(), salt, disps@, map@),
            r matches Some(m) ==> {
                &&& m.wf()
                &&& m.key == salt
                &&& m.disps@ == disps@
                &&& m.values@ == arrange(map@, vals@)
            },
    {
        let n = keys.len();
        if map.len() != n || n > 0xffff_ffffusize || disps.len() > 0xffff_ffffusize {
            return None;
        }
        if (disps.len() == 0) != (n == 0) {
            return None;
        }
        let mut values: Vec<(u32, u64)> = Vec::new();
        let mut j: usize = 0;
        while j < n
            invariant
                j <= n,
                n == keys@.len(),
                n == map@.len(),
                vals@.len() == n,
                forall|k: int| 0 <= k < j ==> map@[k] < n,
                values@ == arrange(map@.subrange(0, j as int), vals@),
            decreases n - j,
        {
            if map[j] >= n {
                return None;
            }
            values.push(vals[map[j]]);
            j = j + 1;
            assert(values@ =~= arrange(map@.subrange(0, j as int), vals@));
        }
        assert(map@.subrange(0, n as int) =~= map@);
        let table = LookupMap { key: salt, disps, values };
        let mut i: usize = 0;
        while i < n
            invariant
                i <= n,
                n == keys@.len(),
                n == map@.len(),
                table.wf(),
                table.key == salt,
                table.disps@ == disps@,
                table.values@ == arrange(map@, vals@),
                forall|k: int| 0 <= k < n ==> map@[k] < n,
                forall|k: int|
                    0 <= k < i ==> map@[slot_of(
                        phf_hashes_of(keys.deep_view()[k], salt),
                        disps@,
                        n as int,
                    )] == k,
            decreases n - i,
        {
            let s = table.slot_index(keys[i].as_slice());
            assert(keys.deep_view()[i as int] == keys@[i as int]@);
            if map[s] != i {
                assert(!places_all(keys.deep_view(), salt, disps@, map@));
                return None;
            }
            i = i + 1;
        }
        Some(table)
    }
}

impl Default for LookupMap {
    fn default() -> (r: LookupMap)
        ensures
            r.wf(),
            r.spec_is_empty(),
    {
        LookupMap::new()
    }
}

/// The bytes `":size"`, appended to a path to form its key in the size table.
pub open spec fn size_suffix() -> Seq<u8> {
    seq![58u8, 115u8, 105u8, 122u8, 101u8]
}

/// The bytes `":offset"`, appended to a path to form its key in the offset table.
pub open spec fn offset_suffix() -> Seq<u8> {
    seq![58u8, 111u8, 102u8, 102u8, 115u8, 101u8, 116u8]
}

/// The bytes of `head` followed by those of `suffix`.
pub fn append_bytes(head: &[u8], suffix: &[u8]) -> (r: Vec<u8>)
    ensures
        r@ == head@ + suffix@,
{
    let mut out: Vec<u8> = vstd::slice::slice_to_vec(head);
    let mut i: usize = 0;
    while i < suffix.len()
        invariant
            i <= suffix@.len(),
            out@ == head@ + suffix@.subrange(0, i as int),
        decreases suffix@.len() - i,
    {
        out.push(suffix[i]);
        i = i + 1;
        assert(suffix@.subrange(0, i as int) == suffix@.subrange(0, i - 1) + seq![suffix@[i - 1]]);
    }
    assert(suffix@.subrange(0, suffix@.len() as int) == suffix@);
    out
}

/// The size-table key of a path given by its bytes.
pub fn size_key_bytes(path: &[u8]) -> (r: Vec<u8>)
    ensures
        r@ == path@ + size_suffix(),
{
    let suffix: [u8; 5] = [58u8, 115u8, 105u8, 122u8, 101u8];
    assert(suffix@ == size_suffix());
    append_bytes(path, suffix.as_slice())
}

/// The offset-table key of a path given by its bytes.
pub fn offset_key_bytes(path: &[u8]) -> (r: Vec<u8>)
    ensures
        r@ == path@ + offset_suffix(),
{
    let suffix: [u8; 7] = [58u8, 111u8, 102u8, 102u8, 115u8, 101u8, 116u8];
    assert(suffix@ == offset_suffix());
    append_bytes(path, suffix.as_slice())
}

/// A path as a key of the size table.
#[derive(Clone, Copy, Debug)]
pub struct SizeKey<'a>(pub &'a str);

impl<'a> SizeKey<'a> {
    /// The bytes that the size table hashes: the path followed by `":size"`.
    pub fn to_bytes(&self) -> (r: Vec<u8>)
        ensures
            r@ == self.0.spec_bytes() + size_suffix(),
    {
        size_key_bytes(self.0.as_bytes())
    }
}

/// A path as a key of the offset table.
#[derive(Clone, Copy, Debug)]
pub struct OffsetKey<'a>(pub &'a str);

impl<'a> OffsetKey<'a> {
    /// The bytes that the offset table hashes: the path followed by `":offset"`.
    pub fn to_bytes(&self) -> (r: Vec<u8>)
        ensures
            r@ == self.0.spec_bytes() + offset_suffix(),
    {
        offset_key_bytes(self.0.as_bytes())
    }
}

} // verus!
