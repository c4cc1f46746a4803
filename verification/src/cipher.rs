//! The stream cipher overlay: XChaCha20 keystream, XORed onto bytes as they pass.

use chacha20::cipher::{KeyIvInit, StreamCipher, StreamCipherSeek};
use vstd::prelude::*;

use crate::error::PipelineError;
use crate::kdf::{scrubbed_key, Key};

verus! {

/// Number of keystream bytes that one key and nonce give: XChaCha20 counts
/// 64-byte blocks in 32 bits and refuses to use the last counter value.
pub const KEYSTREAM_LIMIT: u64 = 0x3F_FFFF_FFC0;

/// Byte number `pos` of the XChaCha20 keystream for a 32-byte key and a
/// 24-byte nonce.
pub uninterp spec fn xchacha20_keystream(key: Seq<u8>, nonce: Seq<u8>, pos: int) -> u8;

/// `data` with the keystream from byte `start` on XORed onto it.
pub open spec fn apply_keystream(key: Seq<u8>, nonce: Seq<u8>, start: int, data: Seq<u8>) -> Seq<
    u8,
> {
    Seq::new(data.len(), |i: int| data[i] ^ xchacha20_keystream(key, nonce, start + i))
}

/// `XChaCha20::new`, `seek` to `pos`, then `apply_keystream` on `data`.
///
/// Trusted: each byte of `data` is XORed with the keystream byte of its
/// position, counted from `pos`. The bound keeps `seek` and `apply_keystream`
/// from running off the keystream, where they panic.
#[verifier::external_body]
fn xchacha20_xor_at(key: &[u8; 32], nonce: &[u8; 24], pos: u64, data: &mut Vec<u8>)
    requires
        pos + old(data)@.len() <= KEYSTREAM_LIMIT,
    ensures
        final(data)@.len() == old(data)@.len(),
        forall|i: int|
            0 <= i < old(data)@.len() ==> #[trigger] final(data)@[i] == old(data)@[i]
                ^ xchacha20_keystream(key@, nonce@, pos + i),
{
    let mut cipher = chacha20::XChaCha20::new(key.into(), nonce.into());
    cipher.seek(pos);
    cipher.apply_keystream(data);
}

/// Applying the keystream twice at the same place gives the data back: the
/// one operation both enciphers and deciphers.
pub proof fn lemma_apply_keystream_twice(key: Seq<u8>, nonce: Seq<u8>, start: int, data: Seq<u8>)
    ensures
        apply_keystream(key, nonce, start, apply_keystream(key, nonce, start, data)) == data,
{
    let once = apply_keystream(key, nonce, start, data);
    let twice = apply_keystream(key, nonce, start, once);
    assert forall|i: int| 0 <= i < data.len() implies twice[i] == data[i] by {
        let d = data[i];
        let k = xchacha20_keystream(key, nonce, start + i);
        assert((d ^ k) ^ k == d) by (bit_vector);
    }
    assert(twice =~= data);
}

/// Applying the keystream to two pieces in turn is applying it to their
/// concatenation: byte `i` of a stream always meets keystream byte `i`,
/// however the stream is cut.
pub proof fn lemma_apply_keystream_concat(
    key: Seq<u8>,
    nonce: Seq<u8>,
    start: int,
    first: Seq<u8>,
    second: Seq<u8>,
)
    ensures
        apply_keystream(key, nonce, start, first + second) == apply_keystream(
            key,
            nonce,
            start,
            first,
        ) + apply_keystream(key, nonce, start + first.len(), second),
{
    assert(apply_keystream(key, nonce, start, first + second) =~= apply_keystream(
        key,
        nonce,
        start,
        first,
    ) + apply_keystream(key, nonce, start + first.len(), second));
}

/// The keystream cursor of one key and nonce.
pub struct CipherOverlay {
    key: Key,
    nonce: [u8; 24],
    position: u64,
}

impl CipherOverlay {
    /// The key of this overlay.
    pub closed spec fn key(&self) -> Seq<u8> {
        self.key@
    }

    /// The nonce of this overlay.
    pub closed spec fn nonce(&self) -> Seq<u8> {
        self.nonce@
    }

    /// The number of bytes that have passed through this overlay.
    pub closed spec fn position(&self) -> int {
        self.position as int
    }

    /// An overlay at the start of the keystream of `key` and `nonce`.
    pub fn new(key: Key, nonce: [u8; 24]) -> (overlay: CipherOverlay)
        ensures
            overlay.key() == key@,
            overlay.nonce() == nonce@,
            overlay.position() == 0,
    {
        CipherOverlay { key, nonce, position: 0 }
    }

    /// The number of bytes that have passed through this overlay.
    pub fn bytes_processed(&self) -> (n: u64)
        ensures
            n == self.position(),
    {
        self.position
    }

    /// XORs the next `data.len()` keystream bytes onto `data` and advances by
    /// as many. Where the keystream does not reach that far, nothing changes.
    pub fn apply(&mut self, data: &mut Vec<u8>) -> (res: Result<(), PipelineError>)
        ensures
            final(self).key() == old(self).key(),
            final(self).nonce() == old(self).nonce(),
            res is Ok <==> old(self).position() + old(data)@.len() <= KEYSTREAM_LIMIT,
            res is Ok ==> final(data)@ == apply_keystream(
                old(self).key(),
                old(self).nonce(),
                old(self).position(),
                old(data)@,
            ),
            res is Ok ==> final(self).position() == old(self).position() + old(data)@.len(),
            res matches Err(e) ==> e is KeystreamExhausted,
            res is Err ==> final(data)@ == old(data)@,
            res is Err ==> final(self).position() == old(self).position(),
    {
        if self.position > KEYSTREAM_LIMIT {
            return Err(PipelineError::KeystreamExhausted);
        }
        let room: u64 = KEYSTREAM_LIMIT - self.position;
        let len: usize = data.len();
        if len as u64 > room {
            return Err(PipelineError::KeystreamExhausted);
        }
        xchacha20_xor_at(self.key.as_bytes(), &self.nonce, self.position, data);
        assert(data@ =~= apply_keystream(
            old(self).key(),
            old(self).nonce(),
            old(self).position(),
            old(data)@,
        ));
        self.position = self.position + len as u64;
        Ok(())
    }

    /// Overwrites the key with zeros.
    pub fn scrub(&mut self)
        ensures
            final(self).key() == scrubbed_key(),
            final(self).nonce() == old(self).nonce(),
            final(self).position() == old(self).position(),
    {
        self.key.scrub();
    }
}

} // verus!
