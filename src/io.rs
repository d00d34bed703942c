//! The archive read path: looking an entry up, bounding reads to its span, and decrypting
//! what is read at the right keystream position.
use vstd::prelude::*;
use vstd::string::StringSliceAdditionalSpecFns;
use crate::crypto::{
    cipher_for_path, lemma_xor_keystream_subrange, nonce_of, path_key, path_nonce, xor_keystream,
    SpxCipher, BUFFER_LEN, MAX_KEYSTREAM_LEN,
};
use crate::{FileInfo, FileMap, SpxError};

verus! {

/// A seek request, relative to the start, the end or the current position of an entry.
#[derive(Clone, Copy, Debug, PartialEq, Eq, Structural)]
pub enum SeekPos {
    Start(u64),
    End(i64),
    Current(i64),
}

/// `p` moved into `[0, size]`.
pub open spec fn clamp_pos(p: int, size: int) -> int {
    if p < 0 {
        0
    } else if p > size {
        size
    } else {
        p
    }
}

/// The entry-relative position that a seek request selects, clamped to the entry's span.
pub open spec fn seek_target(size: u64, cur: u64, pos: SeekPos) -> u64 {
    (match pos {
        SeekPos::Start(o) => clamp_pos(o as int, size as int),
        SeekPos::End(o) => clamp_pos(size + o, size as int),
        SeekPos::Current(o) => clamp_pos(cur + o, size as int),
    }) as u64
}

/// The bytes of the span `[offset, offset + size)` that the source holds.
pub open spec fn file_bytes(source: Seq<u8>, info: FileInfo) -> Seq<u8> {
    let start = vstd::math::min(info.offset as int, source.len() as int);
    let end = vstd::math::min(info.offset + info.size, source.len() as int);
    source.subrange(start, end)
}

/// The plaintext that opening a path over an archive gives, or `None` when the path is not
/// in the map.
pub open spec fn open_content(m: FileMap, source: Seq<u8>, path: Seq<u8>) -> Option<Seq<u8>> {
    match m.spec_get_entry(path) {
        Some((hash, info)) => Some(
            xor_keystream(path_key(path), nonce_of(hash), 0, file_bytes(source, info)),
        ),
        None => None,
    }
}

/// A view of one entry's span of the archive, with an entry-relative position.
pub struct SpxRawFileStream<'a> {
    pub file: FileInfo,
    pub source: &'a [u8],
    pub pos: u64,
}

impl<'a> SpxRawFileStream<'a> {
    pub open spec fn wf(&self) -> bool {
        self.pos <= self.file.size
    }

    /// The entry's bytes that the source holds.
    pub open spec fn raw(&self) -> Seq<u8> {
        file_bytes(self.source@, self.file)
    }

    /// Reads at most `max` bytes from the current position, never past the entry's end.
    pub fn read(&mut self, max: usize) -> (r: Vec<u8>)
        requires
            old(self).wf(),
        ensures
            final(self).wf(),
            final(self).file == old(self).file,
            final(self).source == old(self).source,
            r@.len() == vstd::math::min(
                max as int,
                vstd::math::max(old(self).raw().len() - old(self).pos, 0),
            ),
            r@ == old(self).raw().subrange(
                vstd::math::min(old(self).pos as int, old(self).raw().len() as int),
                vstd::math::min(old(self).pos as int, old(self).raw().len() as int) + r@.len(),
            ),
            final(self).pos == old(self).pos + r@.len(),
    {
        let ghost from = vstd::math::min(self.pos as int, self.raw().len() as int);
        assert(self.raw().subrange(from, from) =~= Seq::<u8>::empty());
        let len = self.source.len() as u64;
        if self.file.offset >= len {
            return Vec::new();
        }
        let mut avail = len - self.file.offset;
        if avail > self.file.size {
            avail = self.file.size;
        }
        if self.pos >= avail {
            return Vec::new();
        }
        let mut n = avail - self.pos;
        if n > max as u64 {
            n = max as u64;
        }
        let start = (self.file.offset + self.pos) as usize;
        let out = vstd::slice::slice_to_vec(
            vstd::slice::slice_subrange(self.source, start, start + n as usize),
        );
        assert(out@ =~= self.raw().subrange(self.pos as int, self.pos + n));
        self.pos = self.pos + n;
        out
    }

    /// Moves to the entry-relative position that the request selects, clamped to
    /// `[0, size]`, and returns it.
    pub fn seek(&mut self, pos: SeekPos) -> (r: u64)
        requires
            old(self).wf(),
        ensures
            final(self).wf(),
            final(self).file == old(self).file,
            final(self).source == old(self).source,
            r == seek_target(old(self).file.size, old(self).pos, pos),
            final(self).pos == r,
    {
        let size = self.file.size as i128;
        let target: i128 = match pos {
            SeekPos::Start(o) => o as i128,
            SeekPos::End(o) => size + o as i128,
            SeekPos::Current(o) => self.pos as i128 + o as i128,
        };
        let clamped: u64 = if target < 0 {
            0
        } else if target > size {
            self.file.size
        } else {
            target as u64
        };
        self.pos = clamped;
        clamped
    }
}

/// A decrypting reader over one entry: reads and seeks keep the cipher's keystream position
/// equal to the entry-relative position.
pub struct SpxCipherReader<'a> {
    pub cipher: SpxCipher,
    pub reader: SpxRawFileStream<'a>,
}

impl<'a> SpxCipherReader<'a> {
    pub open spec fn wf(&self) -> bool {
        &&& self.reader.wf()
        &&& self.reader.file.size <= MAX_KEYSTREAM_LEN
        &&& self.cipher.pos == self.reader.pos
    }

    /// The entry's plaintext: its stored bytes with the keystream from position 0 removed.
    pub open spec fn content(&self) -> Seq<u8> {
        xor_keystream(self.cipher.key@, self.cipher.nonce@, 0, self.reader.raw())
    }

    /// Pairs a cipher with a raw stream; the cipher is moved to the stream's position.
    pub fn new(cipher: SpxCipher, reader: SpxRawFileStream<'a>) -> (r: SpxCipherReader<'a>)
        requires
            reader.wf(),
            reader.file.size <= MAX_KEYSTREAM_LEN,
        ensures
            r.wf(),
            r.reader == reader,
            r.cipher.key == cipher.key,
            r.cipher.nonce == cipher.nonce,
    {
        let mut cipher = cipher;
        cipher.seek(reader.pos);
        SpxCipherReader { cipher, reader }
    }

    pub fn inner(&self) -> (r: &SpxRawFileStream<'a>)
        ensures
            *r == self.reader,
    {
        &self.reader
    }

    pub fn inner_mut(&mut self) -> (r: &mut SpxRawFileStream<'a>)
        ensures
            *r == old(self).reader,
            final(self).cipher == old(self).cipher,
            final(self).reader == *final(r),
    {
        &mut self.reader
    }

    pub fn into_inner(self) -> (r: SpxRawFileStream<'a>)
        ensures
            r == self.reader,
    {
        self.reader
    }

    /// The entry-relative position.
    pub fn position(&self) -> (r: u64)
        ensures
            r == self.reader.pos,
    {
        self.reader.pos
    }

    /// Reads and decrypts at most `max` bytes, and at most one staging buffer, from the
    /// current position: the plaintext bytes that follow it.
    pub fn read(&mut self, max: usize) -> (r: Vec<u8>)
        requires
            old(self).wf(),
        ensures
            final(self).wf(),
            final(self).cipher.key == old(self).cipher.key,
            final(self).cipher.nonce == old(self).cipher.nonce,
            final(self).reader.file == old(self).reader.file,
            final(self).reader.source == old(self).reader.source,
            r@.len() == vstd::math::min(
                vstd::math::min(max as int, BUFFER_LEN as int),
                vstd::math::max(old(self).reader.raw().len() - old(self).reader.pos, 0),
            ),
            r@ == old(self).content().subrange(
                vstd::math::min(old(self).reader.pos as int, old(self).content().len() as int),
                vstd::math::min(old(self).reader.pos as int, old(self).content().len() as int)
                    + r@.len(),
            ),
            final(self).reader.pos == old(self).reader.pos + r@.len(),
    {
        let ghost pos = self.reader.pos as int;
        let len = if max < BUFFER_LEN {
            max
        } else {
            BUFFER_LEN
        };
        let raw = self.reader.read(len);
        assert(self.reader.raw().len() <= self.reader.file.size);
        let out = self.cipher.apply_keystream(raw.as_slice());
        proof {
            let whole = self.reader.raw();
            let from = vstd::math::min(pos, whole.len() as int);
            lemma_xor_keystream_subrange(
                self.cipher.key@,
                self.cipher.nonce@,
                0,
                whole,
                from,
                from + raw@.len(),
            );
            if raw@.len() > 0 {
                assert(from == pos);
            } else {
                assert(out@ =~= Seq::<u8>::empty());
            }
        }
        out
    }

    /// Reads and decrypts everything from the current position to the entry's end.
    pub fn read_to_end(&mut self) -> (r: Vec<u8>)
        requires
            old(self).wf(),
        ensures
            final(self).wf(),
            final(self).cipher.key == old(self).cipher.key,
            final(self).cipher.nonce == old(self).cipher.nonce,
            final(self).reader.file == old(self).reader.file,
            final(self).reader.source == old(self).reader.source,
            final(self).reader.pos == vstd::math::max(
                old(self).reader.pos as int,
                old(self).reader.raw().len() as int,
            ),
            r@ == old(self).content().subrange(
                vstd::math::min(old(self).reader.pos as int, old(self).content().len() as int),
                old(self).content().len() as int,
            ),
    {
        let ghost start = vstd::math::min(self.reader.pos as int, self.content().len() as int);
        let ghost whole = self.content();
        let mut out: Vec<u8> = Vec::new();
        let mut done = false;
        while !done
            invariant
                self.wf(),
                self.content() == whole,
                whole == old(self).content(),
                start == vstd::math::min(old(self).reader.pos as int, whole.len() as int),
                0 <= start <= whole.len(),
                start <= self.reader.pos,
                out@ == whole.subrange(
                    start,
                    vstd::math::min(self.reader.pos as int, whole.len() as int),
                ),
                done ==> self.reader.pos >= whole.len(),
                self.cipher.key == old(self).cipher.key,
                self.cipher.nonce == old(self).cipher.nonce,
                self.reader.file == old(self).reader.file,
                self.reader.source == old(self).reader.source,
                old(self).reader.pos <= self.reader.pos <= vstd::math::max(
                    old(self).reader.pos as int,
                    whole.len() as int,
                ),
            decreases self.reader.file.size - self.reader.pos + (if done { 0int } else { 1int }),
        {
            let ghost p0 = self.reader.pos as int;
            let mut chunk = self.read(BUFFER_LEN);
            assert(whole.len() == self.reader.raw().len());
            if chunk.len() == 0 {
                done = true;
            } else {
                let ghost prev = out@;
                let ghost piece = chunk@;
                out.append(&mut chunk);
                let ghost np = p0 + piece.len();
                assert(prev + piece =~= whole.subrange(start, np));
            }
        }
        out
    }

    /// Seeks within the entry (clamped to its span) and moves the keystream to match;
    /// returns the new entry-relative position.
    pub fn seek(&mut self, pos: SeekPos) -> (r: u64)
        requires
            old(self).wf(),
        ensures
            final(self).wf(),
            final(self).cipher.key == old(self).cipher.key,
            final(self).cipher.nonce == old(self).cipher.nonce,
            final(self).reader.file == old(self).reader.file,
            final(self).reader.source == old(self).reader.source,
            r == seek_target(old(self).reader.file.size, old(self).reader.pos, pos),
            final(self).reader.pos == r,
    {
        let p = self.reader.seek(pos);
        self.cipher.seek(p);
        p
    }
}

/// An archive opened over its bytes with its file map.
pub struct SpxArchive<'a> {
    pub file_map: &'a FileMap,
    pub stream: &'a [u8],
}

impl<'a> SpxArchive<'a> {
    pub fn new(file_map: &'a FileMap, stream: &'a [u8]) -> (r: SpxArchive<'a>)
        ensures
            r.file_map == file_map,
            r.stream == stream,
    {
        SpxArchive { file_map, stream }
    }

    /// Opens a path: looks it up, bounds a stream to its span and keys a decrypting reader
    /// for it. The archive is consumed, so only one entry stream reads its bytes at a time.
    pub fn open(self, path: &str) -> (r: Result<SpxCipherReader<'a>, SpxError>)
        requires
            self.file_map.wf(),
        ensures
            match r {
                Ok(s) => {
                    &&& s.wf()
                    &&& s.reader.pos == 0
                    &&& s.cipher.key@ == path_key(path.spec_bytes())
                    &&& s.cipher.nonce@ == path_nonce(path.spec_bytes())
                    &&& self.file_map.spec_get(path.spec_bytes()) == Some(s.reader.file)
                    &&& s.reader.source == self.stream
                    &&& open_content(*self.file_map, self.stream@, path.spec_bytes()) == Some(
                        s.content(),
                    )
                },
                Err(e) => {
                    &&& e == SpxError::NotFound
                    &&& self.file_map.spec_get(path.spec_bytes()) is None
                    &&& open_content(*self.file_map, self.stream@, path.spec_bytes()) is None
                },
            },
    {
        match self.file_map.get_entry(path) {
            None => Err(SpxError::NotFound),
            Some((_hash, file)) => {
                let cipher = cipher_for_path(path);
                proof {
                    self.file_map.lemma_entry_size(path.spec_bytes());
                }
                let reader = SpxRawFileStream { file, source: self.stream, pos: 0 };
                Ok(SpxCipherReader::new(cipher, reader))
            },
        }
    }
}

} // verus!
