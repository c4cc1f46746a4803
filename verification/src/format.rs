//! The container layout: `nonce || salt || payload`.

use vstd::prelude::*;

use crate::error::PipelineError;

verus! {

/// Length of the XChaCha20 nonce that opens a container.
pub const NONCE_LENGTH: usize = 24;

/// Length of the key-derivation salt that follows the nonce.
pub const SALT_LENGTH: usize = 40;

/// Length of the whole header: nonce, then salt.
pub const HEADER_LENGTH: usize = 64;

/// The fixed-size, unencrypted front of a container.
#[derive(Clone, Copy, Debug)]
pub struct Header {
    pub nonce: [u8; 24],
    pub salt: [u8; 40],
}

impl Header {
    /// The header as it lies in the container: nonce first, salt second.
    pub open spec fn bytes(self) -> Seq<u8> {
        self.nonce@ + self.salt@
    }

    /// Lays the header out for writing.
    pub fn assemble(&self) -> (out: Vec<u8>)
        ensures
            out@ == self.bytes(),
            out@.len() == HEADER_LENGTH,
    {
        let mut out: Vec<u8> = Vec::with_capacity(HEADER_LENGTH);
        out.extend_from_slice(self.nonce.as_slice());
        out.extend_from_slice(self.salt.as_slice());
        out
    }

    /// Reads a header off the front of `input`: the first 24 bytes as nonce,
    /// the next 40 as salt. Fails where `input` ends before the header does.
    pub fn parse(input: &[u8]) -> (res: Result<Header, PipelineError>)
        ensures
            res is Ok <==> input@.len() >= HEADER_LENGTH,
            res matches Ok(h) ==> h.bytes() == input@.subrange(0, HEADER_LENGTH as int),
            res matches Err(e) ==> e is Truncated,
    {
        if input.len() < HEADER_LENGTH {
            return Err(PipelineError::Truncated);
        }
        let mut nonce = [0u8; 24];
        let mut salt = [0u8; 40];
        let mut i: usize = 0;
        while i < NONCE_LENGTH
            invariant
                i <= NONCE_LENGTH,
                input@.len() >= HEADER_LENGTH,
                forall|j: int| 0 <= j < i ==> nonce@[j] == input@[j],
            decreases NONCE_LENGTH - i,
        {
            nonce[i] = input[i];
            i += 1;
        }
        let mut k: usize = 0;
        while k < SALT_LENGTH
            invariant
                k <= SALT_LENGTH,
                input@.len() >= HEADER_LENGTH,
                forall|j: int| 0 <= j < k ==> salt@[j] == input@[NONCE_LENGTH + j],
            decreases SALT_LENGTH - k,
        {
            salt[k] = input[NONCE_LENGTH + k];
            k += 1;
        }
        let h = Header { nonce, salt };
        assert(h.bytes() =~= input@.subrange(0, HEADER_LENGTH as int));
        Ok(h)
    }
}

/// A header read back from its own bytes is the header; so the layout
/// loses nothing, whatever follows the header.
pub proof fn lemma_header_bytes(header: Header, rest: Seq<u8>)
    ensures
        header.bytes().len() == HEADER_LENGTH,
        (header.bytes() + rest).subrange(0, NONCE_LENGTH as int) == header.nonce@,
        (header.bytes() + rest).subrange(NONCE_LENGTH as int, HEADER_LENGTH as int)
            == header.salt@,
        (header.bytes() + rest).skip(HEADER_LENGTH as int) == rest,
{
    let all = header.bytes() + rest;
    assert(all.subrange(0, NONCE_LENGTH as int) =~= header.nonce@);
    assert(all.subrange(NONCE_LENGTH as int, HEADER_LENGTH as int) =~= header.salt@);
    assert(all.skip(HEADER_LENGTH as int) =~= rest);
}

} // verus!
