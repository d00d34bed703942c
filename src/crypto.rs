//! Key derivation and the seekable ChaCha20 stream cipher, with reading and writing wrappers.
use vstd::prelude::*;
use vstd::string::StringSliceAdditionalSpecFns;
use chacha20::cipher::{KeyIvInit, StreamCipher, StreamCipherSeek};
use crate::hashing::{fingerprint, fnv1a_of, path_digest, sha256_of};

verus! {

/// The keystream byte at a position for a key and a nonce.
pub uninterp spec fn keystream_byte(key: Seq<u8>, nonce: Seq<u8>, pos: int) -> u8;

/// The keystream length that a 32-bit block counter of 64-byte blocks allows:
/// `(2^32 - 1) * 64` bytes.
pub const MAX_KEYSTREAM_LEN: u64 = 274877906880;

/// The staging buffer length: at most this many bytes are transformed per call.
pub const BUFFER_LEN: usize = 8192;

/// `data` combined with the keystream that starts at position `pos`.
pub open spec fn xor_keystream(key: Seq<u8>, nonce: Seq<u8>, pos: int, data: Seq<u8>) -> Seq<u8> {
    Seq::new(data.len(), |i: int| data[i] ^ keystream_byte(key, nonce, pos + i))
}

/// Relies on chacha20::ChaCha20 (through cipher's KeyIvInit, StreamCipherSeek::seek and
/// StreamCipher::apply_keystream): after a seek to `pos` the data is XORed with the
/// keystream from there. Neither call panics while `pos + len` stays within the counter range.
#[verifier::external_body]
fn chacha20_apply(key: &[u8; 32], nonce: &[u8; 12], pos: u64, data: &[u8]) -> (r: Vec<u8>)
    requires
        pos + data@.len() <= MAX_KEYSTREAM_LEN,
    ensures
        r@.len() == data@.len(),
        forall|i: int|
            0 <= i < data@.len() ==> r@[i] == data@[i] ^ keystream_byte(key@, nonce@, pos + i),
{
    let mut cipher = chacha20::ChaCha20::new(key.into(), nonce.into());
    cipher.seek(pos);
    let mut out = data.to_vec();
    cipher.apply_keystream(&mut out);
    out
}

/// The 12-byte nonce for a fingerprint: four zero bytes, then the fingerprint little-endian.
pub open spec fn nonce_of(hash: u64) -> Seq<u8> {
    seq![
        0u8,
        0u8,
        0u8,
        0u8,
        (hash & 0xff) as u8,
        ((hash >> 8u64) & 0xff) as u8,
        ((hash >> 16u64) & 0xff) as u8,
        ((hash >> 24u64) & 0xff) as u8,
        ((hash >> 32u64) & 0xff) as u8,
        ((hash >> 40u64) & 0xff) as u8,
        ((hash >> 48u64) & 0xff) as u8,
        ((hash >> 56u64) & 0xff) as u8,
    ]
}

/// The cipher key of a path: the digest of its bytes.
pub open spec fn path_key(path: Seq<u8>) -> Seq<u8> {
    sha256_of(path)
}

/// The nonce of a path: built from its fingerprint.
pub open spec fn path_nonce(path: Seq<u8>) -> Seq<u8> {
    nonce_of(fnv1a_of(path))
}

/// A payload as it is stored for a path: combined with the path's keystream from position 0.
pub open spec fn encrypt_entry(path: Seq<u8>, plain: Seq<u8>) -> Seq<u8> {
    xor_keystream(path_key(path), path_nonce(path), 0, plain)
}

/// The XOR with one keystream undoes itself.
pub proof fn lemma_xor_keystream_involutive(key: Seq<u8>, nonce: Seq<u8>, pos: int, data: Seq<u8>)
    ensures
        xor_keystream(key, nonce, pos, xor_keystream(key, nonce, pos, data)) == data,
{
    let once = xor_keystream(key, nonce, pos, data);
    let twice = xor_keystream(key, nonce, pos, once);
    assert forall|i: int| 0 <= i < data.len() implies twice[i] == data[i] by {
        let k = keystream_byte(key, nonce, pos + i);
        let d = data[i];
        assert((d ^ k) ^ k == d) by (bit_vector);
    }
    assert(twice =~= data);
}

/// Position synchronisation: the part of a transformed sequence that starts at `start`
/// equals the transform of that part from position `pos + start`. Seeking the keystream
/// to a position therefore gives the bytes that reading up to it would.
pub proof fn lemma_xor_keystream_subrange(
    key: Seq<u8>,
    nonce: Seq<u8>,
    pos: int,
    data: Seq<u8>,
    start: int,
    end: int,
)
    requires
        0 <= start <= end <= data.len(),
    ensures
        xor_keystream(key, nonce, pos, data).subrange(start, end) == xor_keystream(
            key,
            nonce,
            pos + start,
            data.subrange(start, end),
        ),
{
    assert(xor_keystream(key, nonce, pos, data).subrange(start, end) =~= xor_keystream(
        key,
        nonce,
        pos + start,
        data.subrange(start, end),
    ));
}

/// Transforming two consecutive pieces equals transforming their concatenation.
pub proof fn lemma_xor_keystream_concat(
    key: Seq<u8>,
    nonce: Seq<u8>,
    pos: int,
    a: Seq<u8>,
    b: Seq<u8>,
)
    ensures
        xor_keystream(key, nonce, pos, a) + xor_keystream(key, nonce, pos + a.len(), b)
            == xor_keystream(key, nonce, pos, a + b),
{
    assert(xor_keystream(key, nonce, pos, a) + xor_keystream(key, nonce, pos + a.len(), b)
        =~= xor_keystream(key, nonce, pos, a + b));
}

/// The state of a seekable ChaCha20 stream: key, nonce and keystream position.
pub struct SpxCipher {
    pub key: [u8; 32],
    pub nonce: [u8; 12],
    pub pos: u64,
}

impl SpxCipher {
    pub open spec fn wf(&self) -> bool {
        self.pos <= MAX_KEYSTREAM_LEN
    }

    /// Combines `data` with the keystream at the current position and moves past it.
    pub fn apply_keystream(&mut self, data: &[u8]) -> (r: Vec<u8>)
        requires
            old(self).pos + data@.len() <= MAX_KEYSTREAM_LEN,
        ensures
            r@ == xor_keystream(old(self).key@, old(self).nonce@, old(self).pos as int, data@),
            final(self).key == old(self).key,
            final(self).nonce == old(self).nonce,
            final(self).pos == old(self).pos + data@.len(),
    {
        let out = chacha20_apply(&self.key, &self.nonce, self.pos, data);
        assert(out@ =~= xor_keystream(self.key@, self.nonce@, self.pos as int, data@));
        self.pos = self.pos + data.len() as u64;
        out
    }

    /// Moves the keystream to an absolute position.
    pub fn seek(&mut self, pos: u64)
        requires
            pos <= MAX_KEYSTREAM_LEN,
        ensures
            final(self).key == old(self).key,
            final(self).nonce == old(self).nonce,
            final(self).pos == pos,
    {
        self.pos = pos;
    }

    pub fn current_pos(&self) -> (r: u64)
        ensures
            r == self.pos,
    {
        self.pos
    }
}

/// Creates the cipher for a key and a fingerprint, at position 0.
pub fn create_cipher(key: &[u8; 32], hash: u64) -> (r: SpxCipher)
    ensures
        r.key@ == key@,
        r.nonce@ == nonce_of(hash),
        r.pos == 0,
{
    let mut nonce = [0u8; 12];
    nonce[4] = (hash & 0xff) as u8;
    nonce[5] = ((hash >> 8u64) & 0xff) as u8;
    nonce[6] = ((hash >> 16u64) & 0xff) as u8;
    nonce[7] = ((hash >> 24u64) & 0xff) as u8;
    nonce[8] = ((hash >> 32u64) & 0xff) as u8;
    nonce[9] = ((hash >> 40u64) & 0xff) as u8;
    nonce[10] = ((hash >> 48u64) & 0xff) as u8;
    nonce[11] = ((hash >> 56u64) & 0xff) as u8;
    assert(nonce@ =~= nonce_of(hash));
    SpxCipher { key: *key, nonce, pos: 0 }
}

/// Creates the cipher of a path: keyed by its digest, with the nonce of its fingerprint.
pub fn cipher_for_path(path: &str) -> (r: SpxCipher)
    ensures
        r.key@ == path_key(path.spec_bytes()),
        r.nonce@ == path_nonce(path.spec_bytes()),
        r.pos == 0,
{
    let key = path_digest(path);
    let hash = fingerprint(path);
    create_cipher(&key, hash)
}

/// An encrypting writer over a byte sink: each write is transformed through the staging
/// buffer and appended, with the keystream position following the bytes written.
pub struct SpxCipherWriter {
    pub cipher: SpxCipher,
    pub writer: Vec<u8>,
}

impl SpxCipherWriter {
    pub fn new(cipher: SpxCipher, writer: Vec<u8>) -> (r: SpxCipherWriter)
        ensures
            r.cipher == cipher,
            r.writer == writer,
    {
        SpxCipherWriter { cipher, writer }
    }

    pub fn inner(&self) -> (r: &Vec<u8>)
        ensures
            *r == self.writer,
    {
        &self.writer
    }

    pub fn inner_mut(&mut self) -> (r: &mut Vec<u8>)
        ensures
            *r == old(self).writer,
            final(self).cipher == old(self).cipher,
            final(self).writer == *final(r),
    {
        &mut self.writer
    }

    pub fn into_inner(self) -> (r: Vec<u8>)
        ensures
            r == self.writer,
    {
        self.writer
    }

    /// Encrypts up to one staging buffer of `buf` at the current keystream position and
    /// appends it to the sink; returns how many bytes were taken. Returns 0 once the
    /// keystream is used up.
    pub fn write(&mut self, buf: &[u8]) -> (r: usize)
        requires
            old(self).cipher.wf(),
        ensures
            final(self).cipher.wf(),
            r as int == vstd::math::min(
                vstd::math::min(buf@.len() as int, BUFFER_LEN as int),
                MAX_KEYSTREAM_LEN - old(self).cipher.pos,
            ),
            final(self).writer@ == old(self).writer@ + xor_keystream(
                old(self).cipher.key@,
                old(self).cipher.nonce@,
                old(self).cipher.pos as int,
                buf@.subrange(0, r as int),
            ),
            final(self).cipher.key == old(self).cipher.key,
            final(self).cipher.nonce == old(self).cipher.nonce,
            final(self).cipher.pos == old(self).cipher.pos + r,
    {
        let room = MAX_KEYSTREAM_LEN - self.cipher.pos;
        let mut n: usize = buf.len();
        if n > BUFFER_LEN {
            n = BUFFER_LEN;
        }
        if n as u64 > room {
            n = room as usize;
        }
        let chunk = vstd::slice::slice_subrange(buf, 0, n);
        let mut enc = self.cipher.apply_keystream(chunk);
        self.writer.append(&mut enc);
        n
    }
}

} // verus!
