//! The archive builder: writes encrypted entries one after another into one archive and
//! indexes them with a perfect-hash file map.
use vstd::prelude::*;
use vstd::utf8::encode_utf8;
use crate::crypto::{
    cipher_for_path, encrypt_entry, lemma_xor_keystream_concat, path_key, path_nonce, SpxCipher,
    BUFFER_LEN, MAX_KEYSTREAM_LEN,
};
use crate::hashing::{fnv1a_of, generate_state, generated_state};
use crate::map::{
    arrange, offset_key_bytes, offset_suffix, places_all, size_key_bytes, size_suffix, LookupMap,
};
use crate::{high_half, low_half, split, FileInfo, FileMap, SpxError};

verus! {

/// The archive bytes of a list of entries: each payload encrypted for its path, in order.
pub open spec fn archive_of(paths: Seq<Seq<u8>>, contents: Seq<Seq<u8>>) -> Seq<u8>
    decreases contents.len(),
{
    if contents.len() == 0 || paths.len() == 0 {
        Seq::empty()
    } else {
        archive_of(paths.drop_last(), contents.drop_last()) + encrypt_entry(
            paths.last(),
            contents.last(),
        )
    }
}

/// The fingerprint and location of entry `i`: its offset is the length of what precedes it.
pub open spec fn entry_info(paths: Seq<Seq<u8>>, contents: Seq<Seq<u8>>, i: int) -> (u64, FileInfo) {
    (
        fnv1a_of(paths[i]),
        FileInfo {
            offset: archive_of(paths.take(i), contents.take(i)).len() as u64,
            size: contents[i].len() as u64,
        },
    )
}

/// The offset-table keys of a path list.
pub open spec fn offset_keys(paths: Seq<Seq<u8>>) -> Seq<Seq<u8>> {
    paths.map_values(|p: Seq<u8>| p + offset_suffix())
}

/// The size-table keys of a path list.
pub open spec fn size_keys(paths: Seq<Seq<u8>>) -> Seq<Seq<u8>> {
    paths.map_values(|p: Seq<u8>| p + size_suffix())
}

/// What the offset table stores per entry: the high fingerprint half and the offset.
pub open spec fn offset_vals(entries: Seq<(u64, FileInfo)>) -> Seq<(u32, u64)> {
    entries.map_values(|e: (u64, FileInfo)| (high_half(e.0), e.1.offset))
}

/// What the size table stores per entry: the low fingerprint half and the size.
pub open spec fn size_vals(entries: Seq<(u64, FileInfo)>) -> Seq<(u32, u64)> {
    entries.map_values(|e: (u64, FileInfo)| (low_half(e.0), e.1.size))
}

/// The generator's tables place every key of both tables.
pub open spec fn buildable(paths: Seq<Seq<u8>>) -> bool {
    let ost = generated_state(offset_keys(paths));
    let sst = generated_state(size_keys(paths));
    places_all(offset_keys(paths), ost.0, ost.1, ost.2) && places_all(
        size_keys(paths),
        sst.0,
        sst.1,
        sst.2,
    )
}

/// `m` is the file map assembled from the generator's tables for these entries.
pub open spec fn built_from(m: FileMap, paths: Seq<Seq<u8>>, entries: Seq<(u64, FileInfo)>) -> bool {
    let ost = generated_state(offset_keys(paths));
    let sst = generated_state(size_keys(paths));
    &&& m.wf()
    &&& m.offsets.key == ost.0
    &&& m.offsets.disps@ == ost.1
    &&& m.offsets.values@ == arrange(ost.2, offset_vals(entries))
    &&& m.sizes.key == sst.0
    &&& m.sizes.disps@ == sst.1
    &&& m.sizes.values@ == arrange(sst.2, size_vals(entries))
}

/// Builds an archive and its file map from named payloads.
pub struct SpxBuilder {
    writer: Vec<u8>,
    keys: Vec<Vec<u8>>,
    values: Vec<(u64, FileInfo)>,
    contents: Ghost<Seq<Seq<u8>>>,
}

/// The entry being written: encrypts each write for its path and appends it to the archive.
pub struct SpxFileEntry<'a> {
    pub builder: &'a mut SpxBuilder,
    pub cipher: SpxCipher,
}

impl SpxBuilder {
    /// The archive bytes written so far.
    pub closed spec fn archive(&self) -> Seq<u8> {
        self.writer@
    }

    /// The registered paths, as bytes, in order.
    pub closed spec fn paths(&self) -> Seq<Seq<u8>> {
        self.keys.deep_view()
    }

    /// The fingerprint and location of each registered entry.
    pub closed spec fn entries(&self) -> Seq<(u64, FileInfo)> {
        self.values@
    }

    /// The plaintext written to each registered entry.
    pub closed spec fn contents(&self) -> Seq<Seq<u8>> {
        self.contents@
    }

    /// Paths are distinct; each entry's location is where its encrypted payload lies in the
    /// archive, which is the concatenation of the encrypted payloads in order.
    pub open spec fn wf(&self) -> bool {
        let n = self.paths().len();
        &&& self.contents().len() == n
        &&& self.entries().len() == n
        &&& forall|i: int, j: int| 0 <= i < j < n ==> self.paths()[i] != self.paths()[j]
        &&& forall|i: int|
            0 <= i < n ==> #[trigger] self.entries()[i] == entry_info(
                self.paths(),
                self.contents(),
                i,
            )
        &&& forall|i: int| 0 <= i < n ==> #[trigger] self.contents()[i].len() <= MAX_KEYSTREAM_LEN
        &&& self.archive() == archive_of(self.paths(), self.contents())
        &&& self.archive().len() <= u64::MAX
    }

    /// Creates a builder with no entries and an empty archive.
    pub fn new() -> (r: SpxBuilder)
        ensures
            r.wf(),
            r.paths() == Seq::<Seq<u8>>::empty(),
            r.contents() == Seq::<Seq<u8>>::empty(),
            r.archive() == Seq::<u8>::empty(),
    {
        let r = SpxBuilder {
            writer: Vec::new(),
            keys: Vec::new(),
            values: Vec::new(),
            contents: Ghost(Seq::empty()),
        };
        assert(r.paths() =~= Seq::<Seq<u8>>::empty());
        r
    }

    /// The archive bytes written so far.
    pub fn archive_bytes(&self) -> (r: &Vec<u8>)
        ensures
            r@ == self.archive(),
    {
        &self.writer
    }

    /// Gives up the builder and returns the archive bytes.
    pub fn into_inner(self) -> (r: Vec<u8>)
        ensures
            r@ == self.archive(),
    {
        self.writer
    }

    /// Runs the perfect-hash construction over the registered paths and returns the file map
    /// that locates every entry. Fails only when there are more paths than the 32-bit slot
    /// arithmetic can index.
    pub fn build(&self) -> (r: Result<FileMap, SpxError>)
        requires
            self.wf(),
        ensures
            r is Ok <==> self.paths().len() <= u32::MAX,
            r matches Ok(m) ==> buildable(self.paths()) && built_from(
                m,
                self.paths(),
                self.entries(),
            ),
            r matches Err(e) ==> e == SpxError::HashConstruction,
    {
        if self.keys.len() > 0xffff_ffffusize {
            return Err(SpxError::HashConstruction);
        }
        let mut okeys: Vec<Vec<u8>> = Vec::new();
        let mut skeys: Vec<Vec<u8>> = Vec::new();
        let mut ovals: Vec<(u32, u64)> = Vec::new();
        let mut svals: Vec<(u32, u64)> = Vec::new();
        let n = self.keys.len();
        let mut i: usize = 0;
        while i < n
            invariant
                i <= n,
                n == self.keys@.len(),
                self.wf(),
                okeys@.len() == i,
                skeys@.len() == i,
                okeys.deep_view() == offset_keys(self.paths()).take(i as int),
                skeys.deep_view() == size_keys(self.paths()).take(i as int),
                ovals@ == offset_vals(self.entries()).take(i as int),
                svals@ == size_vals(self.entries()).take(i as int),
            decreases n - i,
        {
            let p = self.keys[i].as_slice();
            let ok = offset_key_bytes(p);
            let sk = size_key_bytes(p);
            let ghost old_ok = okeys.deep_view();
            let ghost old_sk = skeys.deep_view();
            okeys.push(ok);
            skeys.push(sk);
            let (hash, info) = self.values[i];
            let (high, low) = split(hash);
            ovals.push((high, info.offset));
            svals.push((low, info.size));
            proof {
                assert(self.paths()[i as int] == self.keys@[i as int]@);
                assert forall|k: int| 0 <= k <= i implies okeys.deep_view()[k] == old_ok.push(ok@)[k]
                    by {
                    assert(okeys.deep_view()[k] == okeys@[k]@);
                }
                assert forall|k: int| 0 <= k <= i implies skeys.deep_view()[k] == old_sk.push(sk@)[k]
                    by {
                    assert(skeys.deep_view()[k] == skeys@[k]@);
                }
            }
            i = i + 1;
            assert(okeys.deep_view() =~= offset_keys(self.paths()).take(i as int));
            assert(skeys.deep_view() =~= size_keys(self.paths()).take(i as int));
            assert(ovals@ =~= offset_vals(self.entries()).take(i as int));
            assert(svals@ =~= size_vals(self.entries()).take(i as int));
        }
        proof {
            let paths = self.paths();
            assert(offset_keys(paths).take(n as int) =~= offset_keys(paths));
            assert(size_keys(paths).take(n as int) =~= size_keys(paths));
            assert(offset_vals(self.entries()).take(n as int) =~= offset_vals(self.entries()));
            assert(size_vals(self.entries()).take(n as int) =~= size_vals(self.entries()));
            assert forall|a: int, b: int| 0 <= a < b < n implies okeys@[a]@ != okeys@[b]@ && skeys@[a]@
                != skeys@[b]@ by {
                assert(okeys@[a]@ == okeys.deep_view()[a] && okeys@[b]@ == okeys.deep_view()[b]);
                assert(skeys@[a]@ == skeys.deep_view()[a] && skeys@[b]@ == skeys.deep_view()[b]);
                let pa = paths[a];
                let pb = paths[b];
                if pa + offset_suffix() == pb + offset_suffix() {
                    assert(pa =~= (pa + offset_suffix()).subrange(0, pa.len() as int));
                    assert(pb =~= (pb + offset_suffix()).subrange(0, pb.len() as int));
                }
                if pa + size_suffix() == pb + size_suffix() {
                    assert(pa =~= (pa + size_suffix()).subrange(0, pa.len() as int));
                    assert(pb =~= (pb + size_suffix()).subrange(0, pb.len() as int));
                }
            }
        }
        let (osalt, odisps, omap) = generate_state(&okeys);
        let offsets = match LookupMap::from_state(&okeys, osalt, odisps, omap, &ovals) {
            Some(t) => t,
            None => {
                return Err(SpxError::HashConstruction);
            },
        };
        let (ssalt, sdisps, smap) = generate_state(&skeys);
        let sizes = match LookupMap::from_state(&skeys, ssalt, sdisps, smap, &svals) {
            Some(t) => t,
            None => {
                return Err(SpxError::HashConstruction);
            },
        };
        Ok(FileMap { offsets, sizes })
    }

    /// Whether a path, given by its bytes, is registered.
    pub fn contains(&self, path: &[u8]) -> (r: bool)
        ensures
            r == self.paths().contains(path@),
    {
        let mut i: usize = 0;
        while i < self.keys.len()
            invariant
                i <= self.keys@.len(),
                forall|k: int| 0 <= k < i ==> self.paths()[k] != path@,
            decreases self.keys@.len() - i,
        {
            assert(self.paths()[i as int] == self.keys@[i as int]@);
            if bytes_eq(self.keys[i].as_slice(), path) {
                return true;
            }
            i = i + 1;
        }
        false
    }

    /// Registers a new entry at the current end of the archive and returns its writer.
    /// A path that is already registered is refused.
    pub fn start_file(&mut self, name: String) -> (r: Result<SpxFileEntry<'_>, SpxError>)
        requires
            old(self).wf(),
        ensures
            match r {
                Err(e) => {
                    &&& e == SpxError::DuplicatePath
                    &&& old(self).paths().contains(encode_utf8(name@))
                    &&& *final(self) == *old(self)
                },
                Ok(entry) => {
                    &&& !old(self).paths().contains(encode_utf8(name@))
                    &&& entry.wf()
                    &&& entry.builder.paths() == old(self).paths().push(encode_utf8(name@))
                    &&& entry.builder.contents() == old(self).contents().push(Seq::empty())
                    &&& entry.builder.archive() == old(self).archive()
                    &&& *final(self) == *final(entry.builder)
                },
            },
    {
        let path = name.as_str();
        let bytes = path.as_bytes();
        if self.contains(bytes) {
            return Err(SpxError::DuplicatePath);
        }
        let cipher = cipher_for_path(path);
        let ghost old_paths = self.paths();
        let ghost old_contents = self.contents();
        let offset = self.writer.len() as u64;
        let key = vstd::slice::slice_to_vec(bytes);
        assert(key@ == encode_utf8(name@));
        self.keys.push(key);
        self.values.push((crate::hashing::fingerprint(path), FileInfo::new(offset, 0)));
        self.contents = Ghost(self.contents@.push(Seq::empty()));
        proof {
            let p = encode_utf8(name@);
            assert forall|k: int| 0 <= k < self.paths().len() implies self.paths()[k]
                == old_paths.push(p)[k] by {
                assert(self.paths()[k] == self.keys@[k]@);
            }
            assert(self.paths() =~= old_paths.push(p));
            let n = old_paths.len() as int;
            assert(self.paths().drop_last() =~= old_paths);
            assert(self.contents().drop_last() =~= old_contents);
            assert(encrypt_entry(p, Seq::empty()) =~= Seq::<u8>::empty());
            assert(archive_of(self.paths(), self.contents()) =~= archive_of(old_paths, old_contents));
            assert forall|i: int| 0 <= i <= n implies #[trigger] self.entries()[i] == entry_info(
                self.paths(),
                self.contents(),
                i,
            ) by {
                assert(self.paths().take(i) =~= old_paths.take(i));
                assert(self.contents().take(i) =~= old_contents.take(i));
                if i == n {
                    assert(old_paths.take(i) =~= old_paths);
                    assert(old_contents.take(i) =~= old_contents);
                }
            }
            assert forall|i: int| 0 <= i <= n implies #[trigger] self.contents()[i].len()
                <= MAX_KEYSTREAM_LEN by {
                if i < n {
                    assert(self.contents()[i] == old_contents[i]);
                }
            }
        }
        Ok(SpxFileEntry { builder: self, cipher })
    }
}

/// Whether two byte strings are equal.
fn bytes_eq(a: &[u8], b: &[u8]) -> (r: bool)
    ensures
        r == (a@ == b@),
{
    if a.len() != b.len() {
        return false;
    }
    let mut i: usize = 0;
    while i < a.len()
        invariant
            a@.len() == b@.len(),
            i <= a@.len(),
            forall|k: int| 0 <= k < i ==> a@[k] == b@[k],
        decreases a@.len() - i,
    {
        if a[i] != b[i] {
            return false;
        }
        i = i + 1;
    }
    assert(a@ =~= b@);
    true
}

impl<'a> SpxFileEntry<'a> {
    /// The builder is well formed, has at least one entry (the one being written), and the
    /// cipher is that entry's, positioned at the end of what was written to it.
    pub open spec fn wf(&self) -> bool {
        let b = *self.builder;
        let n = b.paths().len();
        &&& b.wf()
        &&& n > 0
        &&& self.cipher.key@ == path_key(b.paths()[n - 1])
        &&& self.cipher.nonce@ == path_nonce(b.paths()[n - 1])
        &&& self.cipher.pos == b.contents()[n - 1].len()
    }

    /// Encrypts up to one staging buffer of `buf` and appends it to the archive; the entry's
    /// size grows by the count returned. Returns 0 once the entry has reached the keystream
    /// length.
    pub fn write(&mut self, buf: &[u8]) -> (r: usize)
        requires
            old(self).wf(),
        ensures
            final(self).wf(),
            ({
                let b = *old(self).builder;
                let last = b.paths().len() - 1;
                let room = MAX_KEYSTREAM_LEN - b.contents()[last].len();
                &&& r as int == vstd::math::min(
                    vstd::math::min(buf@.len() as int, BUFFER_LEN as int),
                    room,
                )
                &&& final(self).builder.paths() == b.paths()
                &&& final(self).builder.contents() == b.contents().update(
                    last,
                    b.contents()[last] + buf@.subrange(0, r as int),
                )
            }),
            *final(final(self).builder) == *final(old(self).builder),
    {
        let ghost b0 = *self.builder;
        let ghost last = b0.paths().len() - 1;
        let room = MAX_KEYSTREAM_LEN - self.cipher.pos;
        let mut n: usize = buf.len();
        if n > BUFFER_LEN {
            n = BUFFER_LEN;
        }
        if n as u64 > room {
            n = room as usize;
        }
        let chunk = vstd::slice::slice_subrange(buf, 0, n);
        let mut enc = self.cipher.apply_keystream(chunk);
        self.builder.writer.append(&mut enc);
        let total: usize = self.builder.writer.len();
        assert(total as int == self.builder.writer@.len());
        let idx = self.builder.values.len() - 1;
        let (hash, info) = self.builder.values[idx];
        self.builder.values.set(idx, (hash, FileInfo::new(info.offset, info.size + n as u64)));
        let ghost newc = b0.contents()[last] + chunk@;
        self.builder.contents = Ghost(self.builder.contents@.update(last, newc));
        proof {
            let b = *self.builder;
            let paths = b.paths();
            assert(paths == b0.paths());
            assert(b.contents().drop_last() =~= b0.contents().drop_last());
            assert(paths.len() == b.contents().len());
            lemma_xor_keystream_concat(
                path_key(paths[last]),
                path_nonce(paths[last]),
                0,
                b0.contents()[last],
                chunk@,
            );
            assert(archive_of(paths, b.contents()) == archive_of(
                paths.drop_last(),
                b.contents().drop_last(),
            ) + encrypt_entry(paths.last(), b.contents().last()));
            assert(b.archive() =~= archive_of(paths, b.contents()));
            assert forall|i: int| 0 <= i < paths.len() implies #[trigger] b.entries()[i]
                == entry_info(paths, b.contents(), i) by {
                assert(b.contents().take(i) =~= b0.contents().take(i));
                assert(b0.entries()[i] == entry_info(paths, b0.contents(), i));
            }
            assert forall|i: int| 0 <= i < paths.len() implies #[trigger] b.contents()[i].len()
                <= MAX_KEYSTREAM_LEN by {
                assert(b0.contents()[i].len() <= MAX_KEYSTREAM_LEN);
            }
        }
        n
    }

    /// Ends the entry and returns its location.
    pub fn finish(self) -> (r: FileInfo)
        requires
            self.wf(),
        ensures
            r == old(self.builder).entries().last().1,
            *final(self.builder) == *old(self.builder),
    {
        let idx = self.builder.values.len() - 1;
        self.builder.values[idx].1
    }
}

} // verus!
