//! The compression codec: xz, as `liblzma` provides it.

use liblzma::stream::{Check, MtStreamBuilder};
use std::io::{Read, Write};
use vstd::prelude::*;

use crate::error::PipelineError;

verus! {

/// The highest compression level of the codec.
pub const MAX_LEVEL: u32 = 9;

/// The compression level that the codec is asked for: `level`, or the
/// highest one where `level` lies beyond it.
pub open spec fn clamped_level(level: u32) -> u32 {
    if level <= MAX_LEVEL {
        level
    } else {
        MAX_LEVEL
    }
}

/// Brings a compression level into the codec's range.
pub fn clamp_level(level: u32) -> (preset: u32)
    ensures
        preset == clamped_level(level),
        preset <= MAX_LEVEL,
{
    if level <= MAX_LEVEL {
        level
    } else {
        MAX_LEVEL
    }
}

/// The integrity checks that an xz stream can carry.
#[derive(Clone, Copy, Debug, PartialEq, Eq, Structural)]
pub enum IntegrityCheck {
    NoCheck,
    Crc32,
    Crc64,
    Sha256,
}

/// The integrity check of the container format: every stream that this
/// library makes carries a CRC64.
pub const FORMAT_CHECK: IntegrityCheck = IntegrityCheck::Crc64;

/// The memory limit handed to the decoder: none.
pub const NO_MEMORY_LIMIT: u64 = 0xFFFF_FFFF_FFFF_FFFF;

/// What the xz decoder makes of `stream`: the bytes that the xz stream at
/// its front holds, or `None` where no well-formed xz stream stands there.
pub uninterp spec fn xz_decoded(stream: Seq<u8>) -> Option<Seq<u8>>;

/// Whether `out` is an xz stream that the multi-threaded encoder, at this
/// preset, on this many threads and with this check, may give for `input`.
/// What it gives differs between versions of liblzma, so this names no
/// single stream.
pub uninterp spec fn xz_gives(
    preset: u32,
    threads: u32,
    check: IntegrityCheck,
    input: Seq<u8>,
    out: Seq<u8>,
) -> bool;

/// `stream` is what the codec may make of `input` when asked for `level` on
/// `threads` threads: a stream of the level brought into range and with the
/// format's check, which decodes to `input`.
pub open spec fn compressed_from(stream: Seq<u8>, input: Seq<u8>, level: u32, threads: u32) -> bool {
    &&& xz_gives(clamped_level(level), threads, FORMAT_CHECK, input, stream)
    &&& xz_decoded(stream) == Some(input)
}

/// Every level beyond the highest is the highest: asking for it gives what
/// asking for the highest gives.
pub proof fn lemma_levels_beyond_the_highest(level: u32)
    requires
        level >= MAX_LEVEL,
    ensures
        clamped_level(level) == clamped_level(MAX_LEVEL),
        forall|stream: Seq<u8>, input: Seq<u8>, threads: u32|
            #[trigger] compressed_from(stream, input, level, threads) == compressed_from(
                stream,
                input,
                MAX_LEVEL,
                threads,
            ),
{
}

/// `num_cpus::get`.
///
/// Trusted: nothing of the count, which is the machine's.
#[verifier::external_body]
pub(crate) fn logical_cpus() -> usize {
    num_cpus::get()
}

/// The number of decoder threads for a machine of `cpus` processors: one
/// for each, as far as `u32` reaches.
pub open spec fn threads_for(cpus: usize) -> u32 {
    if cpus <= u32::MAX {
        cpus as u32
    } else {
        u32::MAX
    }
}

/// The number of decoder threads for a machine of `cpus` processors.
pub fn decoder_threads(cpus: usize) -> (threads: u32)
    ensures
        threads == threads_for(cpus),
{
    if cpus <= 0xFFFF_FFFF {
        cpus as u32
    } else {
        u32::MAX
    }
}

/// `liblzma::stream::MtStreamBuilder` with the given threads, check and
/// preset, its `encoder`, then `liblzma::read::XzEncoder::new_stream` on
/// `input`, read to its end.
///
/// Trusted: what the encoder gives is an xz stream of this preset, thread
/// count and check, and it decodes to `input`. Nothing is promised of
/// success: the encoder refuses a thread count of zero and a check that
/// liblzma was built without, and may lack memory. Only the plain presets,
/// nought to nine, are handed in.
#[verifier::external_body]
fn xz_encode_all(input: &[u8], preset: u32, threads: u32, check: IntegrityCheck) -> (res: Result<
    Vec<u8>,
    std::io::Error,
>)
    requires
        preset <= MAX_LEVEL,
    ensures
        res matches Ok(out) ==> xz_gives(preset, threads, check, input@, out@),
        res matches Ok(out) ==> xz_decoded(out@) == Some(input@),
{
    let check = match check {
        IntegrityCheck::NoCheck => Check::None,
        IntegrityCheck::Crc32 => Check::Crc32,
        IntegrityCheck::Crc64 => Check::Crc64,
        IntegrityCheck::Sha256 => Check::Sha256,
    };
    let stream = MtStreamBuilder::new().threads(threads).check(check).preset(preset).encoder()?;
    let mut out = Vec::new();
    liblzma::read::XzEncoder::new_stream(input, stream).read_to_end(&mut out)?;
    Ok(out)
}

/// `liblzma::stream::MtStreamBuilder` with the given memory limit and
/// threads, its `decoder`, then `liblzma::read::XzDecoder::new_stream` on
/// `data`, read to its end.
///
/// Trusted: what the decoder gives is what `data` decodes to, whatever the
/// limit and the thread count. Nothing is promised of success.
#[verifier::external_body]
fn xz_decode_all(data: &[u8], memory_limit: u64, threads: u32) -> (res: Result<
    Vec<u8>,
    std::io::Error,
>)
    ensures
        res matches Ok(out) ==> xz_decoded(data@) == Some(out@),
{
    let stream = MtStreamBuilder::new().memlimit_stop(memory_limit).threads(threads).decoder()?;
    let mut out = Vec::new();
    liblzma::read::XzDecoder::new_stream(data, stream).read_to_end(&mut out)?;
    Ok(out)
}

/// Compresses `input` into one xz stream with the format's check, at
/// `level` brought into range, on `threads` threads.
pub fn xz_compress(input: &[u8], level: u32, threads: u32) -> (res: Result<
    Vec<u8>,
    PipelineError,
>)
    ensures
        res matches Ok(out) ==> compressed_from(out@, input@, level, threads),
        res matches Err(e) ==> e is Codec,
{
    match xz_encode_all(input, clamp_level(level), threads, FORMAT_CHECK) {
        Ok(out) => Ok(out),
        Err(e) => Err(PipelineError::Codec(e)),
    }
}

/// Decompresses the xz stream at the front of `data`, without a memory
/// limit, on a thread for each of the machine's processors.
pub fn xz_decompress(data: &[u8]) -> (res: Result<Vec<u8>, PipelineError>)
    ensures
        res matches Ok(out) ==> xz_decoded(data@) == Some(out@),
        xz_decoded(data@) is None ==> res is Err,
        res matches Err(e) ==> e is Codec,
{
    let threads = decoder_threads(logical_cpus());
    match xz_decode_all(data, NO_MEMORY_LIMIT, threads) {
        Ok(out) => Ok(out),
        Err(e) => Err(PipelineError::Codec(e)),
    }
}

/// A running xz encoder that keeps what it has produced until it is taken.
///
/// Holds a `liblzma::write::XzEncoder<Vec<u8>>`, which Verus cannot be told
/// of by name: the type is bounded by `std::io::Write`.
#[verifier::external_body]
pub struct XzEncoder {
    inner: liblzma::write::XzEncoder<Vec<u8>>,
}

/// A running xz decoder that keeps what it has produced until it is taken.
///
/// Holds a `liblzma::write::XzDecoder<Vec<u8>>`, which Verus cannot be told
/// of by name: the type is bounded by `std::io::Write`.
#[verifier::external_body]
pub struct XzDecoder {
    inner: liblzma::write::XzDecoder<Vec<u8>>,
}

/// All the plain bytes that have been written to the encoder.
pub uninterp spec fn xz_encoder_taken(encoder: XzEncoder) -> Seq<u8>;

/// All the compressed bytes that have been taken out of the encoder.
pub uninterp spec fn xz_encoder_given(encoder: XzEncoder) -> Seq<u8>;

/// The preset that the encoder was made with.
pub uninterp spec fn xz_encoder_preset(encoder: XzEncoder) -> u32;

/// The thread count that the encoder was made with.
pub uninterp spec fn xz_encoder_threads(encoder: XzEncoder) -> u32;

/// The integrity check that the encoder was made with.
pub uninterp spec fn xz_encoder_check(encoder: XzEncoder) -> IntegrityCheck;

/// All the compressed bytes that the decoder has consumed.
pub uninterp spec fn xz_decoder_taken(decoder: XzDecoder) -> Seq<u8>;

/// All the plain bytes that have been taken out of the decoder.
pub uninterp spec fn xz_decoder_given(decoder: XzDecoder) -> Seq<u8>;

/// `liblzma::stream::MtStreamBuilder` with the given threads, check and
/// preset, its `encoder`, then `liblzma::write::XzEncoder::new_stream` over
/// an empty `Vec`.
///
/// Trusted: the encoder is made with this preset, thread count and check;
/// nothing has been written to it or taken out of it. Only the plain
/// presets, nought to nine, are handed in.
#[verifier::external_body]
pub(crate) fn xz_encoder_open(preset: u32, threads: u32, check: IntegrityCheck) -> (res: Result<
    XzEncoder,
    std::io::Error,
>)
    requires
        preset <= MAX_LEVEL,
    ensures
        res matches Ok(encoder) ==> xz_encoder_taken(encoder) == Seq::<u8>::empty(),
        res matches Ok(encoder) ==> xz_encoder_given(encoder) == Seq::<u8>::empty(),
        res matches Ok(encoder) ==> xz_encoder_preset(encoder) == preset,
        res matches Ok(encoder) ==> xz_encoder_threads(encoder) == threads,
        res matches Ok(encoder) ==> xz_encoder_check(encoder) == check,
{
    let check = match check {
        IntegrityCheck::NoCheck => Check::None,
        IntegrityCheck::Crc32 => Check::Crc32,
        IntegrityCheck::Crc64 => Check::Crc64,
        IntegrityCheck::Sha256 => Check::Sha256,
    };
    let stream = MtStreamBuilder::new().threads(threads).check(check).preset(preset).encoder()?;
    Ok(XzEncoder { inner: liblzma::write::XzEncoder::new_stream(Vec::new(), stream) })
}

/// `write_all` on a `liblzma::write::XzEncoder`, then what it has produced,
/// taken out of it through `get_mut`.
///
/// Trusted: on success all of `chunk` has been written, and what is given
/// is the next part of the compressed stream. The encoder may keep bytes
/// back, so what is given need not yet hold all that was written. No
/// encoder that has been finished comes here: finishing uses it up.
#[verifier::external_body]
pub(crate) fn xz_encoder_write(encoder: &mut XzEncoder, chunk: &[u8]) -> (res: Result<
    Vec<u8>,
    std::io::Error,
>)
    ensures
        res matches Ok(out) ==> xz_encoder_taken(*final(encoder)) == xz_encoder_taken(
            *old(encoder),
        ) + chunk@,
        res matches Ok(out) ==> xz_encoder_given(*final(encoder)) == xz_encoder_given(
            *old(encoder),
        ) + out@,
        res is Ok ==> xz_encoder_preset(*final(encoder)) == xz_encoder_preset(*old(encoder)),
        res is Ok ==> xz_encoder_threads(*final(encoder)) == xz_encoder_threads(*old(encoder)),
        res is Ok ==> xz_encoder_check(*final(encoder)) == xz_encoder_check(*old(encoder)),
{
    encoder.inner.write_all(chunk)?;
    Ok(std::mem::take(encoder.inner.get_mut()))
}

/// `liblzma::write::XzEncoder::finish`, which uses the encoder up and
/// gives what it had still to produce.
///
/// Trusted: on success what is given is the rest of the compressed stream.
/// With it, all that the encoder has given is an xz stream of the encoder's
/// preset, thread count and check, and it decodes to all that was written.
#[verifier::external_body]
pub(crate) fn xz_encoder_finish(encoder: XzEncoder) -> (res: Result<Vec<u8>, std::io::Error>)
    ensures
        res matches Ok(out) ==> xz_decoded(xz_encoder_given(encoder) + out@) == Some(
            xz_encoder_taken(encoder),
        ),
        res matches Ok(out) ==> xz_gives(
            xz_encoder_preset(encoder),
            xz_encoder_threads(encoder),
            xz_encoder_check(encoder),
            xz_encoder_taken(encoder),
            xz_encoder_given(encoder) + out@,
        ),
{
    encoder.inner.finish()
}

/// `liblzma::stream::MtStreamBuilder` with the given memory limit and
/// threads, its `decoder`, then `liblzma::write::XzDecoder::new_stream` over
/// an empty `Vec`.
///
/// Trusted: the decoder has consumed nothing and nothing has been taken
/// out of it.
#[verifier::external_body]
pub(crate) fn xz_decoder_open(memory_limit: u64, threads: u32) -> (res: Result<
    XzDecoder,
    std::io::Error,
>)
    ensures
        res matches Ok(decoder) ==> xz_decoder_taken(decoder) == Seq::<u8>::empty(),
        res matches Ok(decoder) ==> xz_decoder_given(decoder) == Seq::<u8>::empty(),
{
    let stream = MtStreamBuilder::new().memlimit_stop(memory_limit).threads(threads).decoder()?;
    Ok(XzDecoder { inner: liblzma::write::XzDecoder::new_stream(Vec::new(), stream) })
}

/// `write` on a `liblzma::write::XzDecoder`, then what it has produced, taken
/// out of it through `get_mut`.
///
/// Trusted: the count returned is the number of bytes at the front of
/// `chunk` that the decoder consumed, and what is given is the next part
/// of the plain bytes. The decoder consumes nothing of a chunk that holds
/// bytes only once its stream has ended; what it has consumed is then a
/// well-formed xz stream.
#[verifier::external_body]
pub(crate) fn xz_decoder_write(decoder: &mut XzDecoder, chunk: &[u8]) -> (res: Result<
    (usize, Vec<u8>),
    std::io::Error,
>)
    ensures
        res matches Ok((consumed, _)) ==> consumed <= chunk@.len(),
        res matches Ok((consumed, _)) ==> xz_decoder_taken(*final(decoder)) == xz_decoder_taken(
            *old(decoder),
        ) + chunk@.subrange(0, consumed as int),
        res matches Ok((_, out)) ==> xz_decoder_given(*final(decoder)) == xz_decoder_given(
            *old(decoder),
        ) + out@,
        res matches Ok((consumed, _)) ==> (consumed == 0 && chunk@.len() > 0 ==> xz_decoded(
            xz_decoder_taken(*final(decoder)),
        ) is Some),
{
    let consumed = decoder.inner.write(chunk)?;
    Ok((consumed, std::mem::take(decoder.inner.get_mut())))
}

/// `liblzma::write::XzDecoder::try_finish`, then what it has produced, taken
/// out of it through `get_mut`.
///
/// Trusted: it succeeds only at the end of the xz stream, consuming
/// nothing more. What is given is the rest of the plain bytes, and all
/// that has been given is then what the bytes consumed decode to.
#[verifier::external_body]
pub(crate) fn xz_decoder_finish(decoder: &mut XzDecoder) -> (res: Result<Vec<u8>, std::io::Error>)
    ensures
        res is Ok ==> xz_decoder_taken(*final(decoder)) == xz_decoder_taken(*old(decoder)),
        res matches Ok(out) ==> xz_decoder_given(*final(decoder)) == xz_decoder_given(
            *old(decoder),
        ) + out@,
        res is Ok ==> xz_decoded(xz_decoder_taken(*old(decoder))) == Some(
            xz_decoder_given(*final(decoder)),
        ),
{
    decoder.inner.try_finish()?;
    Ok(std::mem::take(decoder.inner.get_mut()))
}

} // verus!
