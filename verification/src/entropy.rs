//! Fresh salt and nonce for a container.

use rand_core::{RngCore, SeedableRng};
use vstd::prelude::*;

use crate::error::PipelineError;
use crate::format::{Header, HEADER_LENGTH, NONCE_LENGTH, SALT_LENGTH};

verus! {

/// `rand_chacha::ChaChaRng::from_rng` on `rand_core::OsRng`, then `fill_bytes`
/// on an array of `N` bytes.
///
/// Trusted: nothing beyond the array's length, which its type gives.
#[verifier::external_body]
fn os_seeded_bytes<const N: usize>() -> (res: Result<[u8; N], rand_core::Error>) {
    let mut rng = rand_chacha::ChaChaRng::from_rng(rand_core::OsRng)?;
    let mut out = [0u8; N];
    rng.fill_bytes(&mut out);
    Ok(out)
}

/// Makes a header of bytes as they were drawn: the first 40 are the salt,
/// the 24 after them the nonce.
pub fn header_from(drawn: &[u8; 64]) -> (header: Header)
    ensures
        header.salt@ == drawn@.subrange(0, SALT_LENGTH as int),
        header.nonce@ == drawn@.subrange(SALT_LENGTH as int, HEADER_LENGTH as int),
{
    let mut salt = [0u8; 40];
    let mut nonce = [0u8; 24];
    let mut i: usize = 0;
    while i < SALT_LENGTH
        invariant
            i <= SALT_LENGTH,
            forall|j: int| 0 <= j < i ==> salt@[j] == drawn@[j],
        decreases SALT_LENGTH - i,
    {
        salt[i] = drawn[i];
        i += 1;
    }
    let mut k: usize = 0;
    while k < NONCE_LENGTH
        invariant
            k <= NONCE_LENGTH,
            forall|j: int| 0 <= j < k ==> nonce@[j] == drawn@[SALT_LENGTH + j],
        decreases NONCE_LENGTH - k,
    {
        nonce[k] = drawn[SALT_LENGTH + k];
        k += 1;
    }
    assert(salt@ =~= drawn@.subrange(0, SALT_LENGTH as int));
    assert(nonce@ =~= drawn@.subrange(SALT_LENGTH as int, HEADER_LENGTH as int));
    Header { nonce, salt }
}

/// Draws the header of a new container from a generator that the operating
/// system seeds: the salt first, the nonce after it. Every byte of the
/// header is as the generator gave it, so nothing can be said of them here;
/// how they become a header is `header_from`.
pub fn fresh_header() -> (res: Result<Header, PipelineError>)
    ensures
        res matches Err(e) ==> e is Entropy,
{
    match os_seeded_bytes::<64>() {
        Ok(drawn) => Ok(header_from(&drawn)),
        Err(e) => Err(PipelineError::Entropy(e)),
    }
}

} // verus!
