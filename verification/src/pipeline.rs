//! Sealing and opening whole containers in memory.

use vstd::prelude::*;
use vstd::slice::{slice_subrange, slice_to_vec};

use crate::cipher::{
    apply_keystream, lemma_apply_keystream_concat, lemma_apply_keystream_twice, CipherOverlay,
    KEYSTREAM_LIMIT,
};
use crate::codec::{
    compressed_from, lemma_levels_beyond_the_highest, xz_compress, xz_decoded, xz_decompress,
    MAX_LEVEL,
};
use crate::entropy::fresh_header;
use crate::error::PipelineError;
use crate::format::{lemma_header_bytes, Header, HEADER_LENGTH, NONCE_LENGTH};
use crate::kdf::{derived_key, get_key, password_fits, scrub_string, scrubbed_key, Key};

verus! {

/// The container of an xz stream: the header, then the stream enciphered
/// from the start of the keystream of `key` and the header's nonce.
pub open spec fn framed(header: Header, key: Seq<u8>, compressed: Seq<u8>) -> Seq<u8> {
    header.bytes() + apply_keystream(key, header.nonce@, 0, compressed)
}

/// The xz stream that a container holds under `key`.
pub open spec fn unframed(container: Seq<u8>, key: Seq<u8>) -> Seq<u8> {
    apply_keystream(
        key,
        container.subrange(0, NONCE_LENGTH as int),
        0,
        container.skip(HEADER_LENGTH as int),
    )
}

/// What a container opens to under `key`: nothing where it is shorter than
/// a header or its payload is no xz stream.
pub open spec fn opened(container: Seq<u8>, key: Seq<u8>) -> Option<Seq<u8>> {
    if container.len() < HEADER_LENGTH {
        None
    } else {
        xz_decoded(unframed(container, key))
    }
}

/// What a container decodes to under `password`: what it opens to under the
/// key of the password and the container's salt.
pub open spec fn decoded(container: Seq<u8>, password: Seq<char>) -> Option<Seq<u8>> {
    if container.len() < HEADER_LENGTH {
        None
    } else {
        opened(
            container,
            derived_key(password, container.subrange(NONCE_LENGTH as int, HEADER_LENGTH as int)),
        )
    }
}

/// `container` is the stream `compressed`, which the codec may make of
/// `input` at `level` on `threads` threads and which the keystream covers,
/// framed with `header` under `key`.
pub open spec fn seals_with(
    container: Seq<u8>,
    header: Header,
    key: Seq<u8>,
    input: Seq<u8>,
    level: u32,
    threads: u32,
    compressed: Seq<u8>,
) -> bool {
    &&& compressed_from(compressed, input, level, threads)
    &&& compressed.len() <= KEYSTREAM_LIMIT
    &&& container == framed(header, key, compressed)
}

/// `container` is `input`, compressed at `level` on `threads` threads into
/// some xz stream and framed with `header` under `key`.
pub open spec fn seals(
    container: Seq<u8>,
    header: Header,
    key: Seq<u8>,
    input: Seq<u8>,
    level: u32,
    threads: u32,
) -> bool {
    exists|compressed: Seq<u8>|
        #[trigger] seals_with(container, header, key, input, level, threads, compressed)
}

/// `container` is `input`, sealed at `level` on `threads` threads with some
/// header under the key of `password` and that header's salt.
pub open spec fn encodes(
    container: Seq<u8>,
    password: Seq<char>,
    input: Seq<u8>,
    level: u32,
    threads: u32,
) -> bool {
    exists|header: Header|
        seals(
            container,
            header,
            #[trigger] derived_key(password, header.salt@),
            input,
            level,
            threads,
        )
}

/// Taking a framed stream out of its container gives the stream back.
pub proof fn lemma_unframe_framed(header: Header, key: Seq<u8>, compressed: Seq<u8>)
    ensures
        framed(header, key, compressed).len() == HEADER_LENGTH + compressed.len(),
        framed(header, key, compressed).subrange(0, HEADER_LENGTH as int) == header.bytes(),
        framed(header, key, compressed).subrange(0, NONCE_LENGTH as int) == header.nonce@,
        framed(header, key, compressed).subrange(NONCE_LENGTH as int, HEADER_LENGTH as int)
            == header.salt@,
        unframed(framed(header, key, compressed), key) == compressed,
{
    let container = framed(header, key, compressed);
    lemma_header_bytes(header, apply_keystream(key, header.nonce@, 0, compressed));
    assert(container.subrange(0, HEADER_LENGTH as int) =~= header.bytes());
    lemma_apply_keystream_twice(key, header.nonce@, 0, compressed);
}

/// What was sealed under a key begins with its header, is no longer than
/// header and keystream together, and opens, under that key, to what went in.
pub proof fn lemma_sealed_opens(
    container: Seq<u8>,
    header: Header,
    key: Seq<u8>,
    input: Seq<u8>,
    level: u32,
    threads: u32,
)
    requires
        seals(container, header, key, input, level, threads),
    ensures
        HEADER_LENGTH <= container.len() <= HEADER_LENGTH + KEYSTREAM_LIMIT,
        container.subrange(0, HEADER_LENGTH as int) == header.bytes(),
        container.subrange(0, NONCE_LENGTH as int) == header.nonce@,
        container.subrange(NONCE_LENGTH as int, HEADER_LENGTH as int) == header.salt@,
        opened(container, key) == Some(input),
{
    let compressed = choose|compressed: Seq<u8>|
        #[trigger] seals_with(container, header, key, input, level, threads, compressed);
    lemma_unframe_framed(header, key, compressed);
}

/// Round trip: what was encoded under a password is no shorter than a
/// header and no longer than header and keystream together, and decodes,
/// under that password, to what went in.
pub proof fn lemma_encoded_decodes(
    container: Seq<u8>,
    password: Seq<char>,
    input: Seq<u8>,
    level: u32,
    threads: u32,
)
    requires
        encodes(container, password, input, level, threads),
    ensures
        HEADER_LENGTH <= container.len() <= HEADER_LENGTH + KEYSTREAM_LIMIT,
        decoded(container, password) == Some(input),
{
    let header = choose|header: Header|
        seals(
            container,
            header,
            #[trigger] derived_key(password, header.salt@),
            input,
            level,
            threads,
        );
    lemma_sealed_opens(
        container,
        header,
        derived_key(password, header.salt@),
        input,
        level,
        threads,
    );
}

/// Two containers of one input under one password, whatever was drawn for
/// each and at whatever level, decode to the same bytes: the input.
pub proof fn lemma_two_draws_decode_alike(
    first: Seq<u8>,
    second: Seq<u8>,
    password: Seq<char>,
    input: Seq<u8>,
    level: u32,
    threads: u32,
)
    requires
        encodes(first, password, input, level, threads),
        encodes(second, password, input, level, threads),
    ensures
        decoded(first, password) == Some(input),
        decoded(second, password) == Some(input),
{
    lemma_encoded_decodes(first, password, input, level, threads);
    lemma_encoded_decodes(second, password, input, level, threads);
}

/// Level clamping: a container is what encoding at a level beyond the
/// highest may give exactly if it is what encoding at the highest may give.
pub proof fn lemma_level_beyond_the_highest_encodes(
    container: Seq<u8>,
    password: Seq<char>,
    input: Seq<u8>,
    level: u32,
    threads: u32,
)
    requires
        level >= MAX_LEVEL,
    ensures
        encodes(container, password, input, level, threads) == encodes(
            container,
            password,
            input,
            MAX_LEVEL,
            threads,
        ),
{
    lemma_levels_beyond_the_highest(level);
    assert forall|header: Header, key: Seq<u8>|
        seals(container, header, key, input, level, threads) == seals(
            container,
            header,
            key,
            input,
            MAX_LEVEL,
            threads,
        ) by {
        assert forall|compressed: Seq<u8>|
            seals_with(container, header, key, input, level, threads, compressed) == seals_with(
                container,
                header,
                key,
                input,
                MAX_LEVEL,
                threads,
                compressed,
            ) by {}
        if seals(container, header, key, input, level, threads) {
            let z = choose|compressed: Seq<u8>|
                #[trigger] seals_with(container, header, key, input, level, threads, compressed);
            assert(seals_with(container, header, key, input, MAX_LEVEL, threads, z));
        }
        if seals(container, header, key, input, MAX_LEVEL, threads) {
            let z = choose|compressed: Seq<u8>|
                #[trigger] seals_with(
                    container,
                    header,
                    key,
                    input,
                    MAX_LEVEL,
                    threads,
                    compressed,
                );
            assert(seals_with(container, header, key, input, level, threads, z));
        }
    }
    if encodes(container, password, input, level, threads) {
        let h = choose|header: Header|
            seals(
                container,
                header,
                #[trigger] derived_key(password, header.salt@),
                input,
                level,
                threads,
            );
        assert(seals(container, h, derived_key(password, h.salt@), input, MAX_LEVEL, threads));
    }
    if encodes(container, password, input, MAX_LEVEL, threads) {
        let h = choose|header: Header|
            seals(
                container,
                header,
                #[trigger] derived_key(password, header.salt@),
                input,
                MAX_LEVEL,
                threads,
            );
        assert(seals(container, h, derived_key(password, h.salt@), input, level, threads));
    }
}

/// Puts an xz stream into a container: the header, then the stream
/// enciphered under `key` and the header's nonce. The key is overwritten
/// whether or not this succeeds.
pub fn frame(header: &Header, key: &mut Key, compressed: Vec<u8>) -> (res: Result<
    Vec<u8>,
    PipelineError,
>)
    ensures
        final(key)@ == scrubbed_key(),
        res is Ok <==> compressed@.len() <= KEYSTREAM_LIMIT,
        res matches Ok(out) ==> out@ == framed(*header, old(key)@, compressed@),
        res matches Err(e) ==> e is KeystreamExhausted,
{
    let mut payload = compressed;
    let mut overlay = CipherOverlay::new(key.duplicate(), header.nonce);
    key.scrub();
    let applied = overlay.apply(&mut payload);
    overlay.scrub();
    match applied {
        Ok(()) => {
            let mut out = header.assemble();
            out.append(&mut payload);
            Ok(out)
        },
        Err(e) => Err(e),
    }
}

/// Takes the xz stream out of a container: deciphers what follows the
/// header under `key` and the header's nonce. The key is overwritten
/// whether or not this succeeds.
pub fn unframe(container: &[u8], key: &mut Key) -> (res: Result<Vec<u8>, PipelineError>)
    ensures
        final(key)@ == scrubbed_key(),
        res is Ok <==> HEADER_LENGTH <= container@.len() <= HEADER_LENGTH + KEYSTREAM_LIMIT,
        res matches Ok(compressed) ==> compressed@ == unframed(container@, old(key)@),
        res matches Err(e) ==> if container@.len() < HEADER_LENGTH {
            e is Truncated
        } else {
            e is KeystreamExhausted
        },
{
    let header = match Header::parse(container) {
        Ok(header) => header,
        Err(e) => {
            key.scrub();
            return Err(e);
        },
    };
    let mut payload = slice_to_vec(slice_subrange(container, HEADER_LENGTH, container.len()));
    assert(payload@ =~= container@.skip(HEADER_LENGTH as int));
    assert(header.nonce@ =~= container@.subrange(0, NONCE_LENGTH as int)) by {
        assert(header.bytes() == container@.subrange(0, HEADER_LENGTH as int));
        assert(header.nonce@ =~= header.bytes().subrange(0, NONCE_LENGTH as int));
    }
    let mut overlay = CipherOverlay::new(key.duplicate(), header.nonce);
    key.scrub();
    let applied = overlay.apply(&mut payload);
    overlay.scrub();
    match applied {
        Ok(()) => Ok(payload),
        Err(e) => Err(e),
    }
}

/// Compresses `input` and frames it with `header` under `key`. The key is
/// overwritten whether or not this succeeds.
pub fn seal(
    input: &[u8],
    level: u32,
    threads: u32,
    header: &Header,
    key: &mut Key,
) -> (res: Result<Vec<u8>, PipelineError>)
    ensures
        final(key)@ == scrubbed_key(),
        res matches Ok(out) ==> seals(out@, *header, old(key)@, input@, level, threads),
        res matches Ok(out) ==> HEADER_LENGTH <= out@.len() <= HEADER_LENGTH + KEYSTREAM_LIMIT,
        res matches Ok(out) ==> out@.subrange(0, HEADER_LENGTH as int) == header.bytes(),
        res matches Ok(out) ==> opened(out@, old(key)@) == Some(input@),
        res matches Err(e) ==> e is Codec || e is KeystreamExhausted,
{
    let compressed = match xz_compress(input, level, threads) {
        Ok(compressed) => compressed,
        Err(e) => {
            key.scrub();
            return Err(e);
        },
    };
    let ghost stream = compressed@;
    match frame(header, key, compressed) {
        Ok(out) => {
            proof {
                assert(seals_with(out@, *header, old(key)@, input@, level, threads, stream));
                lemma_sealed_opens(out@, *header, old(key)@, input@, level, threads);
            }
            Ok(out)
        },
        Err(e) => Err(e),
    }
}

/// Opens a container under `key`: takes the xz stream out and decompresses
/// it. The key is overwritten whether or not this succeeds.
pub fn open(container: &[u8], key: &mut Key) -> (res: Result<Vec<u8>, PipelineError>)
    ensures
        final(key)@ == scrubbed_key(),
        res matches Ok(out) ==> opened(container@, old(key)@) == Some(out@),
        opened(container@, old(key)@) is None ==> res is Err,
        container@.len() < HEADER_LENGTH <==> res matches Err(PipelineError::Truncated),
        container@.len() > HEADER_LENGTH + KEYSTREAM_LIMIT <==> res matches Err(
            PipelineError::KeystreamExhausted,
        ),
        res matches Err(e) ==> e is Truncated || e is KeystreamExhausted || e is Codec,
{
    let compressed = match unframe(container, key) {
        Ok(compressed) => compressed,
        Err(e) => {
            return Err(e);
        },
    };
    xz_decompress(compressed.as_slice())
}

/// Encodes `input`: compresses it, draws a fresh salt and nonce, derives the
/// key from `password` and the salt, and frames the compressed stream under
/// that key. `password` is emptied whether or not this succeeds.
pub fn compress(input: &[u8], level: u32, threads: u32, password: &mut String) -> (res: Result<
    Vec<u8>,
    PipelineError,
>)
    ensures
        final(password)@.len() == 0,
        res matches Ok(out) ==> encodes(out@, old(password)@, input@, level, threads),
        res matches Ok(out) ==> HEADER_LENGTH <= out@.len() <= HEADER_LENGTH + KEYSTREAM_LIMIT,
        res matches Ok(out) ==> decoded(out@, old(password)@) == Some(input@),
        res is Ok ==> password_fits(old(password)@),
        res matches Err(PipelineError::KeyDerivation(_)) ==> !password_fits(old(password)@),
        res matches Err(e) ==> e is Codec || e is Entropy || e is KeyDerivation
            || e is KeystreamExhausted,
{
    let compressed = match xz_compress(input, level, threads) {
        Ok(compressed) => compressed,
        Err(e) => {
            scrub_string(password);
            return Err(e);
        },
    };
    let header = match fresh_header() {
        Ok(header) => header,
        Err(e) => {
            scrub_string(password);
            return Err(e);
        },
    };
    let mut key = match get_key(password, &header.salt) {
        Ok(key) => key,
        Err(e) => {
            return Err(e);
        },
    };
    let ghost stream = compressed@;
    match frame(&header, &mut key, compressed) {
        Ok(out) => {
            proof {
                let key = derived_key(old(password)@, header.salt@);
                assert(seals_with(out@, header, key, input@, level, threads, stream));
                assert(seals(out@, header, key, input@, level, threads));
                lemma_encoded_decodes(out@, old(password)@, input@, level, threads);
            }
            Ok(out)
        },
        Err(e) => Err(e),
    }
}

/// Decodes a container: reads the header, derives the key from `password`
/// and the header's salt, and opens the container under that key.
/// `password` is emptied whether or not this succeeds.
pub fn decompress(input: &[u8], password: &mut String) -> (res: Result<Vec<u8>, PipelineError>)
    ensures
        final(password)@.len() == 0,
        res matches Ok(out) ==> decoded(input@, old(password)@) == Some(out@),
        decoded(input@, old(password)@) is None ==> res is Err,
        input@.len() < HEADER_LENGTH <==> res matches Err(PipelineError::Truncated),
        input@.len() >= HEADER_LENGTH && !password_fits(old(password)@) <==> res matches Err(
            PipelineError::KeyDerivation(_),
        ),
        input@.len() > HEADER_LENGTH + KEYSTREAM_LIMIT && password_fits(old(password)@)
            <==> res matches Err(PipelineError::KeystreamExhausted),
        res matches Err(e) ==> e is Truncated || e is KeyDerivation || e is KeystreamExhausted
            || e is Codec,
{
    let header = match Header::parse(input) {
        Ok(header) => header,
        Err(e) => {
            scrub_string(password);
            return Err(e);
        },
    };
    assert(header.salt@ =~= input@.subrange(NONCE_LENGTH as int, HEADER_LENGTH as int)) by {
        assert(header.bytes() == input@.subrange(0, HEADER_LENGTH as int));
        assert(header.salt@ =~= header.bytes().subrange(
            NONCE_LENGTH as int,
            HEADER_LENGTH as int,
        ));
    }
    let mut key = match get_key(password, &header.salt) {
        Ok(key) => key,
        Err(e) => {
            return Err(e);
        },
    };
    open(input, &mut key)
}

/// A container can be handed out in pieces: its header, then each piece of
/// the stream enciphered where the piece before it left the keystream.
pub proof fn lemma_framed_in_pieces(
    header: Header,
    key: Seq<u8>,
    first: Seq<u8>,
    second: Seq<u8>,
)
    ensures
        framed(header, key, first + second) == framed(header, key, first) + apply_keystream(
            key,
            header.nonce@,
            first.len() as int,
            second,
        ),
        framed(header, key, Seq::empty()) == header.bytes(),
{
    lemma_apply_keystream_concat(key, header.nonce@, 0, first, second);
    assert(framed(header, key, first + second) =~= framed(header, key, first) + apply_keystream(
        key,
        header.nonce@,
        first.len() as int,
        second,
    ));
    assert(framed(header, key, Seq::empty()) =~= header.bytes());
}

} // verus!
