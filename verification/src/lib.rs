//! Password-based encrypted compression: an xz stream, enciphered with
//! XChaCha20 under an Argon2id-derived key, behind a fixed-size header.
//!
//! A container is `nonce || salt || payload`. The payload is the xz stream
//! of the plain bytes, XORed with the XChaCha20 keystream of the nonce and
//! of the key that Argon2id derives from the password and the salt. Nothing
//! authenticates a container: a wrong password is noticed only because the
//! deciphered payload is no xz stream.
//!
//! [`compress`] and [`decompress`] work on whole containers in memory;
//! [`stream::Encoder`] and [`stream::Decoder`] work piece by piece.

pub mod args;
pub mod cipher;
pub mod codec;
pub mod entropy;
pub mod error;
pub mod format;
pub mod iobuf;
pub mod kdf;
pub mod pipeline;
pub mod stream;

pub use pipeline::{compress, decompress};
