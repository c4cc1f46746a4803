//! Password to key: Argon2id with the cost parameters of the container format.

use vstd::prelude::*;
use vstd::utf8::encode_utf8;
use zeroize::Zeroize;

use crate::error::PipelineError;

verus! {

/// Memory cost in KiB. Part of the container format.
pub const MEM_COST: u32 = 65535;

/// Number of passes. Part of the container format.
pub const ITER_COST: u32 = 10;

/// Degree of parallelism. Part of the container format.
pub const PARA_COST: u32 = 4;

/// Length of the derived key.
pub const KEY_LENGTH: usize = 32;

/// Longest password, in bytes, that Argon2 takes.
pub const MAX_PASSWORD_LENGTH: usize = 0xFFFF_FFFF;

/// The Argon2id (version 0x13) hash of `password` under `salt`, `out_len` bytes
/// long, for the given memory cost, pass count and parallelism, without secret
/// or associated data.
pub uninterp spec fn argon2id_v19(
    m_cost: u32,
    t_cost: u32,
    p_cost: u32,
    password: Seq<u8>,
    salt: Seq<u8>,
    out_len: nat,
) -> Seq<u8>;

/// The parameter and input lengths that `argon2` accepts for a 32-byte output.
pub open spec fn argon2_accepts(
    m_cost: u32,
    t_cost: u32,
    p_cost: u32,
    password_len: nat,
    salt_len: nat,
) -> bool {
    &&& 8 <= m_cost
    &&& 8 * p_cost <= m_cost
    &&& 1 <= t_cost
    &&& 1 <= p_cost <= 0xFF_FFFF
    &&& password_len <= 0xFFFF_FFFF
    &&& 8 <= salt_len <= 0xFFFF_FFFF
}

/// `argon2::Params::new` with no output length, `argon2::Argon2::new` for
/// Argon2id version 0x13, then `Argon2::hash_password_into`.
///
/// Trusted: the call succeeds exactly on the parameters and lengths that
/// `Params::new` and `hash_password_into` check for, and then fills `out` with
/// the Argon2id hash. `p_cost` is bounded so that `Params::new` can multiply it
/// by eight.
#[verifier::external_body]
fn argon2id_into(
    m_cost: u32,
    t_cost: u32,
    p_cost: u32,
    password: &[u8],
    salt: &[u8],
    out: &mut [u8; 32],
) -> (res: Result<(), argon2::Error>)
    requires
        p_cost <= 0x1FFF_FFFF,
    ensures
        res is Ok <==> argon2_accepts(m_cost, t_cost, p_cost, password@.len(), salt@.len()),
        res is Ok ==> final(out)@ == argon2id_v19(
            m_cost,
            t_cost,
            p_cost,
            password@,
            salt@,
            32,
        ),
{
    let params = argon2::Params::new(m_cost, t_cost, p_cost, None)?;
    argon2::Argon2::new(argon2::Algorithm::Argon2id, argon2::Version::V0x13, params)
        .hash_password_into(password, salt, out)
}

/// `zeroize::Zeroize::zeroize` on a `String`.
///
/// Trusted: the string's bytes are overwritten with zeros and the string is
/// left empty.
#[verifier::external_body]
pub(crate) fn scrub_string(text: &mut String)
    ensures
        final(text)@.len() == 0,
{
    text.zeroize();
}

/// `zeroize::Zeroize::zeroize` on a byte array.
///
/// Trusted: every byte is overwritten with zero.
#[verifier::external_body]
fn scrub_bytes(bytes: &mut [u8; 32])
    ensures
        forall|i: int| 0 <= i < 32 ==> final(bytes)@[i] == 0u8,
{
    bytes.zeroize();
}

/// What is left of a key once it has been overwritten: zeros.
pub open spec fn scrubbed_key() -> Seq<u8> {
    Seq::new(KEY_LENGTH as nat, |i: int| 0u8)
}

/// A derived symmetric key: 32 bytes.
pub struct Key {
    bytes: [u8; 32],
}

impl View for Key {
    type V = Seq<u8>;

    closed spec fn view(&self) -> Seq<u8> {
        self.bytes@
    }
}

/// The key that the container format assigns to a password and a salt.
pub open spec fn derived_key(password: Seq<char>, salt: Seq<u8>) -> Seq<u8> {
    argon2id_v19(MEM_COST, ITER_COST, PARA_COST, encode_utf8(password), salt, KEY_LENGTH as nat)
}

/// Whether a password is short enough to derive a key from.
pub open spec fn password_fits(password: Seq<char>) -> bool {
    encode_utf8(password).len() <= MAX_PASSWORD_LENGTH
}

impl Key {
    /// Every key is 32 bytes long.
    pub proof fn lemma_length(&self)
        ensures
            self@.len() == KEY_LENGTH,
    {
    }

    /// Takes 32 bytes as a key.
    pub fn from_bytes(bytes: [u8; 32]) -> (key: Key)
        ensures
            key@ == bytes@,
            key@.len() == KEY_LENGTH,
    {
        Key { bytes }
    }

    /// The key's bytes.
    pub fn as_bytes(&self) -> (bytes: &[u8; 32])
        ensures
            bytes@ == self@,
            self@.len() == KEY_LENGTH,
    {
        &self.bytes
    }

    /// A second holder of the same key.
    pub(crate) fn duplicate(&self) -> (key: Key)
        ensures
            key@ == self@,
    {
        Key { bytes: self.bytes }
    }

    /// Overwrites the key with zeros.
    pub fn scrub(&mut self)
        ensures
            final(self)@ == scrubbed_key(),
    {
        scrub_bytes(&mut self.bytes);
        assert(self.bytes@ =~= scrubbed_key());
    }
}

/// Derives the key for `password` and `salt`, and empties `password` whether
/// or not that succeeds.
pub fn get_key(password: &mut String, salt: &[u8; 40]) -> (res: Result<Key, PipelineError>)
    ensures
        final(password)@.len() == 0,
        res is Ok <==> password_fits(old(password)@),
        res matches Ok(key) ==> key@ == derived_key(old(password)@, salt@),
        res matches Ok(key) ==> key@.len() == KEY_LENGTH,
        res matches Err(e) ==> e is KeyDerivation,
{
    let mut bytes = [0u8; 32];
    let outcome = argon2id_into(
        MEM_COST,
        ITER_COST,
        PARA_COST,
        password.as_str().as_bytes(),
        salt.as_slice(),
        &mut bytes,
    );
    scrub_string(password);
    let res = match outcome {
        Ok(()) => Ok(Key { bytes }),
        Err(e) => Err(PipelineError::KeyDerivation(e)),
    };
    scrub_bytes(&mut bytes);
    res
}

} // verus!
