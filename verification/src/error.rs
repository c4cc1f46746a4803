//! What can go wrong while sealing or opening a container.

use vstd::prelude::*;

verus! {

/// The error type of `argon2`; carried through unchanged, never inspected.
#[verifier::external_type_specification]
#[verifier::external_body]
pub struct ExKdfError(argon2::Error);

/// The error type of `rand_core`; carried through unchanged, never inspected.
#[verifier::external_type_specification]
#[verifier::external_body]
pub struct ExEntropyError(rand_core::Error);

/// The error type of `std::io`, in which `liblzma` reports; carried through
/// unchanged, never inspected.
#[verifier::external_type_specification]
#[verifier::external_body]
pub struct ExCodecError(std::io::Error);

/// Why an operation of this library failed.
#[derive(Debug)]
pub enum PipelineError {
    /// The input ends before the header does.
    Truncated,
    /// The key derivation refused its inputs.
    KeyDerivation(argon2::Error),
    /// The operating system gave no randomness for salt and nonce.
    Entropy(rand_core::Error),
    /// The compression codec failed: on encoding, it refused its settings or
    /// ran out of memory; on decoding, the stream is malformed, fails its
    /// checksum, or ends early. A wrong password shows up here.
    Codec(std::io::Error),
    /// The payload is longer than the keystream of one key and nonce.
    KeystreamExhausted,
    /// The encoder or decoder was given up, by an earlier failure or by its
    /// owner, and has overwritten its key.
    Abandoned,
}

} // verus!
