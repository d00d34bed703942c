//! Properties that relate the builder, the file map and the read path.
use vstd::prelude::*;
use crate::builder::{
    archive_of, buildable, built_from, entry_info, offset_keys, offset_vals, size_keys, size_vals,
    SpxBuilder,
};
use crate::crypto::{encrypt_entry, lemma_xor_keystream_involutive, path_key, path_nonce};
use crate::hashing::fnv1a_of;
use crate::io::{file_bytes, open_content, seek_target, SeekPos};
use crate::map::{offset_suffix, size_suffix};
use crate::{high_half, low_half, split_halves, FileMap};

verus! {

/// Entry `i`'s encrypted payload lies in the archive at the offset recorded for it.
proof fn lemma_archive_slice(paths: Seq<Seq<u8>>, contents: Seq<Seq<u8>>, i: int)
    requires
        paths.len() == contents.len(),
        0 <= i < paths.len(),
    ensures
        archive_of(paths.take(i), contents.take(i)).len() + contents[i].len() <= archive_of(
            paths,
            contents,
        ).len(),
        archive_of(paths, contents).subrange(
            archive_of(paths.take(i), contents.take(i)).len() as int,
            (archive_of(paths.take(i), contents.take(i)).len() + contents[i].len()) as int,
        ) == encrypt_entry(paths[i], contents[i]),
    decreases paths.len(),
{
    let n = paths.len() - 1;
    let front = archive_of(paths.drop_last(), contents.drop_last());
    let whole = archive_of(paths, contents);
    assert(whole == front + encrypt_entry(paths.last(), contents.last()));
    if i == n {
        assert(paths.take(i) =~= paths.drop_last());
        assert(contents.take(i) =~= contents.drop_last());
        assert(whole.subrange(front.len() as int, (front.len() + contents[i].len()) as int)
            =~= encrypt_entry(paths[i], contents[i]));
    } else {
        lemma_archive_slice(paths.drop_last(), contents.drop_last(), i);
        assert(paths.drop_last().take(i) =~= paths.take(i));
        assert(contents.drop_last().take(i) =~= contents.take(i));
        let off = archive_of(paths.take(i), contents.take(i)).len() as int;
        assert(whole.subrange(off, off + contents[i].len()) =~= front.subrange(
            off,
            off + contents[i].len(),
        ));
    }
}

/// Every entry of a built archive is found under its path, at its recorded location, and
/// opening it gives back exactly the bytes that were written to it.
pub proof fn lemma_round_trip(b: SpxBuilder, m: FileMap, i: int)
    requires
        b.wf(),
        buildable(b.paths()),
        built_from(m, b.paths(), b.entries()),
        0 <= i < b.paths().len(),
    ensures
        m.spec_get_entry(b.paths()[i]) == Some(b.entries()[i]),
        open_content(m, b.archive(), b.paths()[i]) == Some(b.contents()[i]),
{
    let paths = b.paths();
    let entries = b.entries();
    let p = paths[i];
    let n = paths.len() as int;
    let ost = crate::hashing::generated_state(offset_keys(paths));
    let sst = crate::hashing::generated_state(size_keys(paths));
    assert(offset_keys(paths)[i] == p + offset_suffix());
    assert(size_keys(paths)[i] == p + size_suffix());
    let os = m.offsets.slot(p + offset_suffix());
    let ss = m.sizes.slot(p + size_suffix());
    assert(ost.2[os] == i);
    assert(sst.2[ss] == i);
    assert(m.offsets.values@[os] == offset_vals(entries)[i]);
    assert(m.sizes.values@[ss] == size_vals(entries)[i]);
    let e = entries[i];
    assert(e == entry_info(paths, b.contents(), i));
    split_halves(e.0, high_half(e.0), low_half(e.0));
    assert(m.spec_get_entry(p) == Some(e));
    lemma_archive_slice(paths, b.contents(), i);
    let info = e.1;
    assert(file_bytes(b.archive(), info) == encrypt_entry(p, b.contents()[i]));
    lemma_xor_keystream_involutive(path_key(p), path_nonce(p), 0, b.contents()[i]);
}

/// A path whose fingerprint shares its high half with no registered path, or its low half
/// with none, is not found in the built map: a lookup hits only where both stored halves
/// come from registered paths and make up the path's own fingerprint. Distinct
/// fingerprints alone do not suffice, since the two tables may select two different
/// entries whose halves together make up the path's fingerprint.
pub proof fn lemma_not_inserted(b: SpxBuilder, m: FileMap, path: Seq<u8>)
    requires
        b.wf(),
        buildable(b.paths()),
        built_from(m, b.paths(), b.entries()),
        (forall|i: int|
            0 <= i < b.paths().len() ==> high_half(fnv1a_of(path)) != high_half(
                fnv1a_of(#[trigger] b.paths()[i]),
            )) || (forall|i: int|
            0 <= i < b.paths().len() ==> low_half(fnv1a_of(path)) != low_half(
                fnv1a_of(#[trigger] b.paths()[i]),
            )),
    ensures
        m.spec_get_entry(path) is None,
        open_content(m, b.archive(), path) is None,
{
    if !m.spec_is_empty() {
        let paths = b.paths();
        let entries = b.entries();
        let ost = crate::hashing::generated_state(offset_keys(paths));
        let sst = crate::hashing::generated_state(size_keys(paths));
        let os = m.offsets.slot(path + offset_suffix());
        let ss = m.sizes.slot(path + size_suffix());
        let a = ost.2[os] as int;
        let c = sst.2[ss] as int;
        assert(0 <= a < paths.len() && 0 <= c < paths.len());
        let (high, offset) = m.offsets.spec_get_raw(path + offset_suffix());
        let (low, size) = m.sizes.spec_get_raw(path + size_suffix());
        assert(entries[a] == entry_info(paths, b.contents(), a));
        assert(entries[c] == entry_info(paths, b.contents(), c));
        assert(high == high_half(fnv1a_of(paths[a])));
        assert(low == low_half(fnv1a_of(paths[c])));
        split_halves(fnv1a_of(path), high, low);
    }
}

/// The same registered paths with the same payloads, in the same order, give the same
/// archive bytes, the same entry locations and, on one platform, the same file map.
pub proof fn lemma_build_deterministic(b1: SpxBuilder, b2: SpxBuilder, m1: FileMap, m2: FileMap)
    requires
        b1.wf(),
        b2.wf(),
        b1.paths() == b2.paths(),
        b1.contents() == b2.contents(),
        built_from(m1, b1.paths(), b1.entries()),
        built_from(m2, b2.paths(), b2.entries()),
    ensures
        b1.archive() == b2.archive(),
        b1.entries() == b2.entries(),
        m1.offsets.key == m2.offsets.key,
        m1.offsets.disps@ == m2.offsets.disps@,
        m1.offsets.values@ == m2.offsets.values@,
        m1.sizes.key == m2.sizes.key,
        m1.sizes.disps@ == m2.sizes.disps@,
        m1.sizes.values@ == m2.sizes.values@,
{
    assert forall|i: int| 0 <= i < b1.entries().len() implies b1.entries()[i] == b2.entries()[i] by {
        assert(b1.entries()[i] == entry_info(b1.paths(), b1.contents(), i));
        assert(b2.entries()[i] == entry_info(b2.paths(), b2.contents(), i));
    }
    assert(b1.entries() =~= b2.entries());
}

/// Seeking clamps to the entry's span: never before its start, never past its end; a seek
/// past the end lands on the end, one before the start on the start.
pub proof fn lemma_seek_clamp(size: u64, cur: u64, pos: SeekPos)
    ensures
        seek_target(size, cur, pos) <= size,
        pos matches SeekPos::Start(o) ==> (o >= size ==> seek_target(size, cur, pos) == size),
        pos matches SeekPos::End(o) ==> (o >= 0 ==> seek_target(size, cur, pos) == size),
        pos matches SeekPos::End(o) ==> (size + o <= 0 ==> seek_target(size, cur, pos) == 0),
        pos matches SeekPos::Current(o) ==> (cur + o <= 0 ==> seek_target(size, cur, pos) == 0),
        pos matches SeekPos::Current(o) ==> (cur + o >= size ==> seek_target(size, cur, pos)
            == size),
{
}

} // verus!
