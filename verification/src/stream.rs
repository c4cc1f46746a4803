//! Sealing and opening containers piece by piece, in bounded memory.

use vstd::prelude::*;
use vstd::slice::{slice_subrange, slice_to_vec};

use crate::cipher::{
    apply_keystream, lemma_apply_keystream_concat, lemma_apply_keystream_twice, CipherOverlay,
    KEYSTREAM_LIMIT,
};
use crate::codec::{
    clamp_level, clamped_level, compressed_from, decoder_threads, logical_cpus, xz_decoded,
    xz_decoder_finish, xz_decoder_given, xz_decoder_open, xz_decoder_taken, xz_decoder_write,
    xz_encoder_check, xz_encoder_finish, xz_encoder_given, xz_encoder_open, xz_encoder_preset,
    xz_encoder_taken, xz_encoder_threads, xz_encoder_write, xz_gives, IntegrityCheck, XzDecoder,
    XzEncoder, FORMAT_CHECK, MAX_LEVEL, NO_MEMORY_LIMIT,
};
use crate::entropy::fresh_header;
use crate::error::PipelineError;
use crate::format::{lemma_header_bytes, Header, HEADER_LENGTH, NONCE_LENGTH};
use crate::kdf::{derived_key, get_key, password_fits, scrub_string, scrubbed_key, Key};
use crate::pipeline::{framed, opened, seals, seals_with};

verus! {

/// A container being sealed: plain bytes go in piece by piece, container
/// bytes come out piece by piece. What comes out, in order, is the
/// container: the header first, then the codec's stream under the keystream.
///
/// An encoder that has failed overwrites its key and takes nothing more.
pub struct Encoder {
    codec: XzEncoder,
    overlay: CipherOverlay,
    abandoned: bool,
    header: Ghost<Header>,
}

impl Encoder {
    /// The key that this container is enciphered under.
    pub closed spec fn key(&self) -> Seq<u8> {
        self.overlay.key()
    }

    /// The nonce that this container began with.
    pub closed spec fn nonce(&self) -> Seq<u8> {
        self.overlay.nonce()
    }

    /// The number of payload bytes handed out so far.
    pub closed spec fn position(&self) -> int {
        self.overlay.position()
    }

    /// All the plain bytes taken in so far.
    pub closed spec fn taken(&self) -> Seq<u8> {
        xz_encoder_taken(self.codec)
    }

    /// All the compressed bytes that the codec has given so far: what the
    /// payload handed out deciphers to.
    pub closed spec fn stream(&self) -> Seq<u8> {
        xz_encoder_given(self.codec)
    }

    /// The preset that the codec runs at.
    pub closed spec fn preset(&self) -> u32 {
        xz_encoder_preset(self.codec)
    }

    /// The number of threads that the codec runs on.
    pub closed spec fn threads(&self) -> u32 {
        xz_encoder_threads(self.codec)
    }

    /// The integrity check that the codec puts into its stream.
    pub closed spec fn check(&self) -> IntegrityCheck {
        xz_encoder_check(self.codec)
    }

    /// Whether this encoder has been given up.
    pub closed spec fn abandoned(&self) -> bool {
        self.abandoned
    }

    /// The header that this container began with.
    pub closed spec fn header(&self) -> Header {
        self.header@
    }

    /// All the container bytes handed out so far, the header included,
    /// where the encoder is sound.
    pub open spec fn emitted(&self) -> Seq<u8> {
        framed(self.header(), self.key(), self.stream())
    }

    /// The encoder is live and in step: the keystream cursor stands behind
    /// the codec's stream, the nonce is the header's, and the codec runs at
    /// a plain preset with the format's check. Every encoder is sound when
    /// it is made, and stays so for as long as it succeeds.
    pub open spec fn sound(&self) -> bool {
        &&& !self.abandoned()
        &&& self.position() == self.stream().len()
        &&& self.nonce() == self.header().nonce@
        &&& self.preset() <= MAX_LEVEL
        &&& self.check() == FORMAT_CHECK
    }

    /// Begins a container with `header` under `key`, compressing at `level`
    /// brought into range on `threads` threads. Gives the encoder and the
    /// header's bytes, which open the container.
    pub fn with_key(level: u32, threads: u32, header: &Header, key: Key) -> (res: Result<
        (Encoder, Vec<u8>),
        PipelineError,
    >)
        ensures
            res matches Ok((encoder, head)) ==> {
                &&& head@ == header.bytes()
                &&& encoder.key() == key@
                &&& encoder.nonce() == header.nonce@
                &&& encoder.position() == 0
                &&& encoder.taken() == Seq::<u8>::empty()
                &&& encoder.stream() == Seq::<u8>::empty()
                &&& encoder.preset() == clamped_level(level)
                &&& encoder.threads() == threads
                &&& encoder.check() == FORMAT_CHECK
                &&& !encoder.abandoned()
                &&& encoder.header() == *header
                &&& encoder.sound()
                &&& head@ == encoder.emitted()
            },
            res matches Err(e) ==> e is Codec,
    {
        let mut key = key;
        let codec = match xz_encoder_open(clamp_level(level), threads, FORMAT_CHECK) {
            Ok(codec) => codec,
            Err(e) => {
                key.scrub();
                return Err(PipelineError::Codec(e));
            },
        };
        let head = header.assemble();
        let overlay = CipherOverlay::new(key, header.nonce);
        let encoder = Encoder { codec, overlay, abandoned: false, header: Ghost(*header) };
        assert(encoder.emitted() =~= header.bytes());
        Ok((encoder, head))
    }

    /// Begins a container under `password`: draws a fresh salt and nonce and
    /// derives the key from the password and the salt. Gives the encoder
    /// and the header's bytes, which open the container. `password` is
    /// emptied whether or not this succeeds.
    pub fn start(level: u32, threads: u32, password: &mut String) -> (res: Result<
        (Encoder, Vec<u8>),
        PipelineError,
    >)
        ensures
            final(password)@.len() == 0,
            res matches Ok((encoder, head)) ==> {
                &&& head@.len() == HEADER_LENGTH
                &&& encoder.nonce() == head@.subrange(0, NONCE_LENGTH as int)
                &&& encoder.key() == derived_key(
                    old(password)@,
                    head@.subrange(NONCE_LENGTH as int, HEADER_LENGTH as int),
                )
                &&& encoder.position() == 0
                &&& encoder.taken() == Seq::<u8>::empty()
                &&& encoder.stream() == Seq::<u8>::empty()
                &&& encoder.preset() == clamped_level(level)
                &&& encoder.threads() == threads
                &&& encoder.check() == FORMAT_CHECK
                &&& !encoder.abandoned()
                &&& encoder.key() == derived_key(old(password)@, encoder.header().salt@)
                &&& encoder.sound()
                &&& head@ == encoder.header().bytes()
                &&& head@ == encoder.emitted()
            },
            res is Ok ==> password_fits(old(password)@),
            res matches Err(PipelineError::KeyDerivation(_)) ==> !password_fits(old(password)@),
            res matches Err(e) ==> e is Codec || e is Entropy || e is KeyDerivation,
    {
        let codec = match xz_encoder_open(clamp_level(level), threads, FORMAT_CHECK) {
            Ok(codec) => codec,
            Err(e) => {
                scrub_string(password);
                return Err(PipelineError::Codec(e));
            },
        };
        let header = match fresh_header() {
            Ok(header) => header,
            Err(e) => {
                scrub_string(password);
                return Err(e);
            },
        };
        let key = match get_key(password, &header.salt) {
            Ok(key) => key,
            Err(e) => {
                return Err(e);
            },
        };
        let head = header.assemble();
        proof {
            assert(head@.subrange(0, NONCE_LENGTH as int) =~= header.nonce@);
            assert(head@.subrange(NONCE_LENGTH as int, HEADER_LENGTH as int) =~= header.salt@);
        }
        let overlay = CipherOverlay::new(key, header.nonce);
        let encoder = Encoder { codec, overlay, abandoned: false, header: Ghost(header) };
        assert(encoder.emitted() =~= header.bytes());
        Ok((encoder, head))
    }

    /// Enciphers what the codec produced at the keystream cursor, for
    /// handing out.
    fn emit(&mut self, produced: Vec<u8>) -> (res: Result<Vec<u8>, PipelineError>)
        ensures
            final(self).key() == old(self).key(),
            final(self).nonce() == old(self).nonce(),
            final(self).taken() == old(self).taken(),
            final(self).stream() == old(self).stream(),
            final(self).preset() == old(self).preset(),
            final(self).threads() == old(self).threads(),
            final(self).check() == old(self).check(),
            final(self).header() == old(self).header(),
            final(self).abandoned() == old(self).abandoned(),
            res is Ok <==> old(self).position() + produced@.len() <= KEYSTREAM_LIMIT,
            res matches Ok(out) ==> {
                &&& out@ == apply_keystream(
                    old(self).key(),
                    old(self).nonce(),
                    old(self).position(),
                    produced@,
                )
                &&& produced@ == apply_keystream(
                    old(self).key(),
                    old(self).nonce(),
                    old(self).position(),
                    out@,
                )
                &&& final(self).position() == old(self).position() + produced@.len()
            },
            res matches Err(e) ==> e is KeystreamExhausted && final(self).position() == old(self).position(),
    {
        let mut out = produced;
        match self.overlay.apply(&mut out) {
            Ok(()) => {
                proof {
                    lemma_apply_keystream_twice(
                        old(self).key(),
                        old(self).nonce(),
                        old(self).position(),
                        produced@,
                    );
                }
                Ok(out)
            },
            Err(e) => Err(e),
        }
    }

    /// The number of payload bytes handed out so far.
    pub fn bytes_emitted(&self) -> (n: u64)
        ensures
            n == self.position(),
    {
        self.overlay.bytes_processed()
    }

    /// Whether this encoder has been given up.
    pub fn is_abandoned(&self) -> (abandoned: bool)
        ensures
            abandoned == self.abandoned(),
    {
        self.abandoned
    }

    /// Gives the encoder up: overwrites its key. It takes nothing more.
    pub fn abandon(&mut self)
        ensures
            final(self).key() == scrubbed_key(),
            final(self).abandoned(),
            final(self).nonce() == old(self).nonce(),
            final(self).position() == old(self).position(),
            final(self).taken() == old(self).taken(),
            final(self).stream() == old(self).stream(),
            final(self).preset() == old(self).preset(),
            final(self).threads() == old(self).threads(),
            final(self).check() == old(self).check(),
            final(self).header() == old(self).header(),
    {
        self.overlay.scrub();
        self.abandoned = true;
    }

    /// Takes in the next piece of plain bytes and hands out the payload
    /// bytes that are ready: what the codec gave, enciphered at the
    /// keystream cursor. They may be none, for the codec keeps bytes back.
    /// A sound encoder stays sound, and the container grows by what is
    /// handed out. On any failure the encoder is given up.
    pub fn update(&mut self, chunk: &[u8]) -> (res: Result<Vec<u8>, PipelineError>)
        ensures
            final(self).nonce() == old(self).nonce(),
            final(self).header() == old(self).header(),
            res matches Err(PipelineError::Abandoned) <==> old(self).abandoned(),
            res matches Err(e) ==> e is Abandoned || e is Codec || e is KeystreamExhausted,
            res is Err ==> {
                &&& final(self).key() == scrubbed_key()
                &&& final(self).abandoned()
                &&& final(self).position() == old(self).position()
            },
            res matches Ok(out) ==> {
                &&& final(self).key() == old(self).key()
                &&& !final(self).abandoned()
                &&& final(self).taken() == old(self).taken() + chunk@
                &&& final(self).stream() == old(self).stream() + apply_keystream(
                    old(self).key(),
                    old(self).nonce(),
                    old(self).position(),
                    out@,
                )
                &&& final(self).position() == old(self).position() + out@.len()
                &&& final(self).position() <= KEYSTREAM_LIMIT
                &&& final(self).preset() == old(self).preset()
                &&& final(self).threads() == old(self).threads()
                &&& final(self).check() == old(self).check()
            },
            res matches Ok(out) ==> (old(self).sound() ==> final(self).sound() && final(self).emitted() == old(self).emitted() + out@),
    {
        if self.abandoned {
            self.abandon();
            return Err(PipelineError::Abandoned);
        }
        let produced = match xz_encoder_write(&mut self.codec, chunk) {
            Ok(produced) => produced,
            Err(e) => {
                self.abandon();
                return Err(PipelineError::Codec(e));
            },
        };
        match self.emit(produced) {
            Ok(out) => {
                proof {
                    if old(self).sound() {
                        lemma_piece_extends_container(
                            old(self).header(),
                            old(self).key(),
                            old(self).stream(),
                            out@,
                        );
                    }
                }
                Ok(out)
            },
            Err(e) => {
                self.abandon();
                Err(e)
            },
        }
    }

    /// Ends the container: hands out the payload bytes that were still due,
    /// enciphered at the keystream cursor, and overwrites the key. With
    /// them, what the payload deciphers to is an xz stream of the codec's
    /// preset, thread count and check that decodes to all that was taken
    /// in. So all that a sound encoder has handed out, these last bytes
    /// included, is a container that seals all that it took in, and that
    /// opens, under the key, to just that.
    pub fn finish(self) -> (res: Result<Vec<u8>, PipelineError>)
        ensures
            res matches Err(PipelineError::Abandoned) <==> self.abandoned(),
            res matches Err(e) ==> e is Abandoned || e is Codec || e is KeystreamExhausted,
            res matches Ok(out) ==> {
                &&& self.position() + out@.len() <= KEYSTREAM_LIMIT
                &&& xz_decoded(
                    self.stream() + apply_keystream(
                        self.key(),
                        self.nonce(),
                        self.position(),
                        out@,
                    ),
                ) == Some(self.taken())
                &&& xz_gives(
                    self.preset(),
                    self.threads(),
                    self.check(),
                    self.taken(),
                    self.stream() + apply_keystream(
                        self.key(),
                        self.nonce(),
                        self.position(),
                        out@,
                    ),
                )
            },
            res matches Ok(out) ==> (self.sound() ==> {
                &&& seals(
                    self.emitted() + out@,
                    self.header(),
                    self.key(),
                    self.taken(),
                    self.preset(),
                    self.threads(),
                )
                &&& opened(self.emitted() + out@, self.key()) == Some(self.taken())
            }),
    {
        let Encoder { codec, overlay, abandoned, header: _ } = self;
        let mut overlay = overlay;
        if abandoned {
            overlay.scrub();
            return Err(PipelineError::Abandoned);
        }
        let produced = match xz_encoder_finish(codec) {
            Ok(produced) => produced,
            Err(e) => {
                overlay.scrub();
                return Err(PipelineError::Codec(e));
            },
        };
        let mut out = produced;
        let applied = overlay.apply(&mut out);
        overlay.scrub();
        match applied {
            Ok(()) => {
                proof {
                    lemma_apply_keystream_twice(
                        self.key(),
                        self.nonce(),
                        self.position(),
                        produced@,
                    );
                    if self.sound() {
                        lemma_pieces_seal(
                            self.header(),
                            self.key(),
                            self.taken(),
                            self.preset(),
                            self.threads(),
                            self.stream(),
                            out@,
                        );
                    }
                }
                Ok(out)
            },
            Err(e) => Err(e),
        }
    }
}

/// What an encoder hands out for a piece lengthens the container by that
/// piece: if the payload so far is `stream` under the keystream, the payload
/// with `out` is the longer stream under the keystream.
pub proof fn lemma_piece_extends_container(
    header: Header,
    key: Seq<u8>,
    stream: Seq<u8>,
    out: Seq<u8>,
)
    ensures
        framed(
            header,
            key,
            stream + apply_keystream(key, header.nonce@, stream.len() as int, out),
        ) == framed(header, key, stream) + out,
{
    let piece = apply_keystream(key, header.nonce@, stream.len() as int, out);
    lemma_apply_keystream_concat(key, header.nonce@, 0, stream, piece);
    lemma_apply_keystream_twice(key, header.nonce@, stream.len() as int, out);
    assert(framed(header, key, stream + piece) =~= framed(header, key, stream) + out);
}

/// Round trip, piece by piece: the header and all that an encoder handed
/// out, its last piece `out` included, are a container that seals all that
/// the encoder took in; so it opens, under the key, to just that.
pub proof fn lemma_pieces_seal(
    header: Header,
    key: Seq<u8>,
    input: Seq<u8>,
    level: u32,
    threads: u32,
    stream: Seq<u8>,
    out: Seq<u8>,
)
    requires
        stream.len() + out.len() <= KEYSTREAM_LIMIT,
        compressed_from(
            stream + apply_keystream(key, header.nonce@, stream.len() as int, out),
            input,
            level,
            threads,
        ),
    ensures
        seals(framed(header, key, stream) + out, header, key, input, level, threads),
        opened(framed(header, key, stream) + out, key) == Some(input),
{
    let whole = stream + apply_keystream(key, header.nonce@, stream.len() as int, out);
    let container = framed(header, key, stream) + out;
    lemma_piece_extends_container(header, key, stream, out);
    assert(seals_with(container, header, key, input, level, threads, whole));
    crate::pipeline::lemma_sealed_opens(container, header, key, input, level, threads);
}

/// Takes in what one call of the decoder gave on the data from `offset`
/// on: appends what it produced to `out`, and gives the place from which the
/// next call goes on. Where the decoder consumed nothing of data that was
/// there, its stream has ended, and there is no next place.
pub fn absorb(
    out: &mut Vec<u8>,
    offset: usize,
    consumed: usize,
    produced: Vec<u8>,
) -> (next: Option<usize>)
    requires
        offset + consumed <= usize::MAX,
    ensures
        final(out)@ == old(out)@ + produced@,
        consumed == 0 ==> next is None,
        consumed > 0 ==> next == Some((offset + consumed) as usize),
{
    let mut produced = produced;
    out.append(&mut produced);
    if consumed == 0 {
        None
    } else {
        Some(offset + consumed)
    }
}

/// `after` is `before` with some bytes from the front of `data` behind it.
pub open spec fn grown_by_front_of(before: Seq<u8>, after: Seq<u8>, data: Seq<u8>) -> bool {
    &&& before.len() <= after.len() <= before.len() + data.len()
    &&& after == before + data.subrange(0, after.len() - before.len())
}

/// Hands `data` to the decoder until it has consumed all of it or has come
/// to the end of its stream. Gives what the decoder produced and whether
/// its stream has ended. Where there is no data, the decoder is not called:
/// nothing is produced and nothing has ended.
fn feed(codec: &mut XzDecoder, data: &[u8]) -> (res: Result<(Vec<u8>, bool), PipelineError>)
    ensures
        data@.len() == 0 ==> *final(codec) == *old(codec),
        data@.len() == 0 ==> (res matches Ok((out, ended)) && out@.len() == 0 && !ended),
        res matches Err(e) ==> e is Codec,
        res matches Ok((out, ended)) ==> {
            &&& xz_decoder_given(*final(codec)) == xz_decoder_given(*old(codec)) + out@
            &&& grown_by_front_of(
                xz_decoder_taken(*old(codec)),
                xz_decoder_taken(*final(codec)),
                data@,
            )
            &&& !ended ==> xz_decoder_taken(*final(codec)) == xz_decoder_taken(*old(codec))
                + data@
            &&& ended ==> xz_decoder_taken(*final(codec)).len() < xz_decoder_taken(
                *old(codec),
            ).len() + data@.len()
            &&& ended ==> xz_decoded(xz_decoder_taken(*final(codec))) is Some
        },
{
    let len: usize = data.len();
    let mut out: Vec<u8> = Vec::new();
    let mut offset: usize = 0;
    proof {
        assert(data@.subrange(0, 0) =~= Seq::<u8>::empty());
        assert(xz_decoder_taken(*codec) + data@.subrange(0, 0) =~= xz_decoder_taken(*codec));
        assert(xz_decoder_given(*codec) + out@ =~= xz_decoder_given(*codec));
    }
    while offset < len
        invariant
            offset <= len,
            len == data@.len(),
            len == 0 ==> *codec == *old(codec) && out@.len() == 0,
            xz_decoder_given(*codec) == xz_decoder_given(*old(codec)) + out@,
            xz_decoder_taken(*codec) == xz_decoder_taken(*old(codec)) + data@.subrange(
                0,
                offset as int,
            ),
        decreases len - offset,
    {
        let ghost taken_before = xz_decoder_taken(*codec);
        let ghost given_before = xz_decoder_given(*codec);
        let ghost out_before = out@;
        let rest = slice_subrange(data, offset, len);
        let (consumed, produced) = match xz_decoder_write(codec, rest) {
            Ok(step) => step,
            Err(e) => {
                return Err(PipelineError::Codec(e));
            },
        };
        let ghost produced_bytes = produced@;
        proof {
            assert(data@.subrange(0, offset as int) + rest@.subrange(0, consumed as int)
                =~= data@.subrange(0, offset + consumed));
            assert((xz_decoder_given(*old(codec)) + out_before) + produced_bytes
                =~= xz_decoder_given(*old(codec)) + (out_before + produced_bytes));
            assert((xz_decoder_taken(*old(codec)) + data@.subrange(0, offset as int))
                + rest@.subrange(0, consumed as int) =~= xz_decoder_taken(*old(codec))
                + data@.subrange(0, offset + consumed));
        }
        match absorb(&mut out, offset, consumed, produced) {
            Some(next) => {
                offset = next;
            },
            None => {
                return Ok((out, true));
            },
        }
    }
    proof {
        assert(data@.subrange(0, len as int) =~= data@);
    }
    Ok((out, false))
}

/// A container being opened: payload bytes go in piece by piece, plain
/// bytes come out piece by piece.
///
/// A decoder that has failed overwrites its key and takes nothing more.
pub struct Decoder {
    codec: XzDecoder,
    overlay: CipherOverlay,
    ended: bool,
    abandoned: bool,
    received: Ghost<Seq<u8>>,
}

impl Decoder {
    /// The key that this container is deciphered under.
    pub closed spec fn key(&self) -> Seq<u8> {
        self.overlay.key()
    }

    /// The nonce that this container began with.
    pub closed spec fn nonce(&self) -> Seq<u8> {
        self.overlay.nonce()
    }

    /// The number of payload bytes deciphered so far.
    pub closed spec fn position(&self) -> int {
        self.overlay.position()
    }

    /// Whether the codec has come to the end of its stream; what comes in
    /// after that is passed over.
    pub closed spec fn ended(&self) -> bool {
        self.ended
    }

    /// Whether this decoder has been given up.
    pub closed spec fn abandoned(&self) -> bool {
        self.abandoned
    }

    /// All the deciphered bytes that the codec has consumed so far.
    pub closed spec fn stream(&self) -> Seq<u8> {
        xz_decoder_taken(self.codec)
    }

    /// All the plain bytes handed out so far.
    pub closed spec fn given(&self) -> Seq<u8> {
        xz_decoder_given(self.codec)
    }

    /// All the payload bytes taken in before the codec's stream ended.
    pub closed spec fn received(&self) -> Seq<u8> {
        self.received@
    }

    /// What the payload taken in deciphers to.
    pub open spec fn deciphered(&self) -> Seq<u8> {
        apply_keystream(self.key(), self.nonce(), 0, self.received())
    }

    /// The decoder is live and in step: the keystream cursor stands behind
    /// the payload taken in, and what the codec has consumed is the front
    /// of what that payload deciphers to, all of it unless the codec's
    /// stream has ended. Every decoder is sound when it is made, and stays
    /// so for as long as it succeeds.
    pub open spec fn sound(&self) -> bool {
        &&& !self.abandoned()
        &&& self.position() == self.received().len()
        &&& grown_by_front_of(Seq::<u8>::empty(), self.stream(), self.deciphered())
        &&& !self.ended() ==> self.stream() == self.deciphered()
    }

    /// Begins to open a container with `header` under `key`.
    pub fn with_key(header: &Header, key: Key) -> (res: Result<Decoder, PipelineError>)
        ensures
            res matches Ok(decoder) ==> {
                &&& decoder.key() == key@
                &&& decoder.nonce() == header.nonce@
                &&& decoder.position() == 0
                &&& decoder.stream() == Seq::<u8>::empty()
                &&& decoder.given() == Seq::<u8>::empty()
                &&& decoder.received() == Seq::<u8>::empty()
                &&& !decoder.ended()
                &&& !decoder.abandoned()
                &&& decoder.sound()
            },
            res matches Err(e) ==> e is Codec,
    {
        let mut key = key;
        let threads = decoder_threads(logical_cpus());
        let codec = match xz_decoder_open(NO_MEMORY_LIMIT, threads) {
            Ok(codec) => codec,
            Err(e) => {
                key.scrub();
                return Err(PipelineError::Codec(e));
            },
        };
        let overlay = CipherOverlay::new(key, header.nonce);
        let decoder = Decoder {
            codec,
            overlay,
            ended: false,
            abandoned: false,
            received: Ghost(Seq::empty()),
        };
        assert(decoder.deciphered() =~= Seq::<u8>::empty());
        assert(decoder.deciphered().subrange(0, 0) =~= Seq::<u8>::empty());
        assert(Seq::<u8>::empty() + Seq::<u8>::empty() =~= Seq::<u8>::empty());
        Ok(decoder)
    }

    /// Begins to open a container under `password`: reads the header off
    /// `front`, the container's first bytes, and derives the key from the
    /// password and the header's salt. What `front` holds beyond the header
    /// is not taken in. `password` is emptied whether or not this succeeds.
    pub fn start(front: &[u8], password: &mut String) -> (res: Result<Decoder, PipelineError>)
        ensures
            final(password)@.len() == 0,
            res is Ok ==> front@.len() >= HEADER_LENGTH && password_fits(old(password)@),
            res matches Ok(decoder) ==> {
                &&& decoder.nonce() == front@.subrange(0, NONCE_LENGTH as int)
                &&& decoder.key() == derived_key(
                    old(password)@,
                    front@.subrange(NONCE_LENGTH as int, HEADER_LENGTH as int),
                )
                &&& decoder.position() == 0
                &&& decoder.stream() == Seq::<u8>::empty()
                &&& decoder.given() == Seq::<u8>::empty()
                &&& decoder.received() == Seq::<u8>::empty()
                &&& !decoder.ended()
                &&& !decoder.abandoned()
                &&& decoder.sound()
            },
            front@.len() < HEADER_LENGTH <==> res matches Err(PipelineError::Truncated),
            front@.len() >= HEADER_LENGTH && !password_fits(old(password)@) <==> res matches Err(
                PipelineError::KeyDerivation(_),
            ),
            res matches Err(e) ==> e is Truncated || e is KeyDerivation || e is Codec,
    {
        let header = match Header::parse(front) {
            Ok(header) => header,
            Err(e) => {
                scrub_string(password);
                return Err(e);
            },
        };
        proof {
            assert(header.bytes() == front@.subrange(0, HEADER_LENGTH as int));
            assert(header.nonce@ =~= header.bytes().subrange(0, NONCE_LENGTH as int));
            assert(header.salt@ =~= header.bytes().subrange(
                NONCE_LENGTH as int,
                HEADER_LENGTH as int,
            ));
            assert(header.nonce@ =~= front@.subrange(0, NONCE_LENGTH as int));
            assert(header.salt@ =~= front@.subrange(NONCE_LENGTH as int, HEADER_LENGTH as int));
        }
        let key = match get_key(password, &header.salt) {
            Ok(key) => key,
            Err(e) => {
                return Err(e);
            },
        };
        Decoder::with_key(&header, key)
    }

    /// The number of payload bytes deciphered so far.
    pub fn bytes_taken(&self) -> (n: u64)
        ensures
            n == self.position(),
    {
        self.overlay.bytes_processed()
    }

    /// Whether the codec has come to the end of its stream.
    pub fn has_ended(&self) -> (ended: bool)
        ensures
            ended == self.ended(),
    {
        self.ended
    }

    /// Whether this decoder has been given up.
    pub fn is_abandoned(&self) -> (abandoned: bool)
        ensures
            abandoned == self.abandoned(),
    {
        self.abandoned
    }

    /// Gives the decoder up: overwrites its key. It takes nothing more.
    pub fn abandon(&mut self)
        ensures
            final(self).key() == scrubbed_key(),
            final(self).abandoned(),
            final(self).nonce() == old(self).nonce(),
            final(self).position() == old(self).position(),
            final(self).ended() == old(self).ended(),
            final(self).stream() == old(self).stream(),
            final(self).given() == old(self).given(),
            final(self).received() == old(self).received(),
    {
        self.overlay.scrub();
        self.abandoned = true;
    }

    /// Deciphers the next piece of the payload at the keystream cursor, for
    /// handing to the codec.
    fn decipher(&mut self, chunk: &[u8]) -> (res: Result<Vec<u8>, PipelineError>)
        ensures
            final(self).key() == old(self).key(),
            final(self).nonce() == old(self).nonce(),
            final(self).ended() == old(self).ended(),
            final(self).abandoned() == old(self).abandoned(),
            final(self).stream() == old(self).stream(),
            final(self).given() == old(self).given(),
            final(self).received() == old(self).received(),
            res is Ok <==> old(self).position() + chunk@.len() <= KEYSTREAM_LIMIT,
            res matches Ok(data) ==> {
                &&& data@ == apply_keystream(
                    old(self).key(),
                    old(self).nonce(),
                    old(self).position(),
                    chunk@,
                )
                &&& final(self).position() == old(self).position() + chunk@.len()
            },
            res matches Err(e) ==> e is KeystreamExhausted && final(self).position() == old(self).position(),
    {
        let mut data = slice_to_vec(chunk);
        match self.overlay.apply(&mut data) {
            Ok(()) => Ok(data),
            Err(e) => Err(e),
        }
    }

    /// Takes in the next piece of the payload, deciphers it at the keystream
    /// cursor, hands it to the codec and gives the plain bytes that are
    /// ready. The codec consumes the deciphered piece from its front: all
    /// of it, unless its stream ends within; where it ends, what the codec
    /// has consumed is a whole xz stream. Once the stream has ended, pieces
    /// are passed over. A sound decoder stays sound. On any failure the
    /// decoder is given up.
    pub fn update(&mut self, chunk: &[u8]) -> (res: Result<Vec<u8>, PipelineError>)
        ensures
            final(self).nonce() == old(self).nonce(),
            res matches Err(PipelineError::Abandoned) <==> old(self).abandoned(),
            res matches Err(PipelineError::KeystreamExhausted) <==> !old(self).abandoned() && !old(self).ended() && old(self).position() + chunk@.len() > KEYSTREAM_LIMIT,
            res matches Err(e) ==> e is Abandoned || e is Codec || e is KeystreamExhausted,
            res is Err ==> final(self).key() == scrubbed_key() && final(self).abandoned(),
            res matches Err(e) ==> final(self).position() == if e is Codec {
                old(self).position() + chunk@.len()
            } else {
                old(self).position()
            },
            res is Ok ==> final(self).key() == old(self).key() && !final(self).abandoned(),
            res is Ok && old(self).ended() ==> {
                &&& res matches Ok(out)
                &&& out@.len() == 0
                &&& final(self).ended()
                &&& final(self).position() == old(self).position()
                &&& final(self).stream() == old(self).stream()
                &&& final(self).given() == old(self).given()
                &&& final(self).received() == old(self).received()
            },
            !old(self).abandoned() && old(self).ended() ==> res is Ok,
            res is Ok && !old(self).ended() ==> {
                &&& res matches Ok(out)
                &&& final(self).position() == old(self).position() + chunk@.len()
                &&& final(self).received() == old(self).received() + chunk@
                &&& final(self).given() == old(self).given() + out@
                &&& grown_by_front_of(
                    old(self).stream(),
                    final(self).stream(),
                    apply_keystream(
                        old(self).key(),
                        old(self).nonce(),
                        old(self).position(),
                        chunk@,
                    ),
                )
                &&& !final(self).ended() ==> final(self).stream() == old(self).stream()
                    + apply_keystream(
                    old(self).key(),
                    old(self).nonce(),
                    old(self).position(),
                    chunk@,
                )
                &&& final(self).ended() ==> xz_decoded(final(self).stream()) is Some
            },
            !old(self).abandoned() && !old(self).ended() && chunk@.len() == 0 && old(self).position() <= KEYSTREAM_LIMIT ==> {
                &&& res matches Ok(out)
                &&& out@.len() == 0
                &&& !final(self).ended()
                &&& final(self).position() == old(self).position()
                &&& final(self).stream() == old(self).stream()
                &&& final(self).given() == old(self).given()
            },
            res is Ok && old(self).sound() ==> final(self).sound(),
    {
        if self.abandoned {
            self.abandon();
            return Err(PipelineError::Abandoned);
        }
        if self.ended {
            return Ok(Vec::new());
        }
        let data = match self.decipher(chunk) {
            Ok(data) => data,
            Err(e) => {
                self.abandon();
                return Err(e);
            },
        };
        proof {
            self.received@ = self.received@ + chunk@;
        }
        match feed(&mut self.codec, data.as_slice()) {
            Ok((out, ended)) => {
                self.ended = ended;
                proof {
                    if chunk@.len() == 0 {
                        assert(old(self).given() + out@ =~= old(self).given());
                    }
                    if old(self).sound() {
                        let before = old(self).deciphered();
                        let piece = data@;
                        let taken = self.stream().len() - old(self).stream().len();
                        lemma_apply_keystream_concat(
                            old(self).key(),
                            old(self).nonce(),
                            0,
                            old(self).received(),
                            chunk@,
                        );
                        assert(self.deciphered() == before + piece);
                        assert(self.stream() == before + piece.subrange(0, taken));
                        assert(self.stream() =~= self.deciphered().subrange(
                            0,
                            self.stream().len() as int,
                        ));
                        assert(Seq::<u8>::empty() + self.deciphered().subrange(
                            0,
                            self.stream().len() as int,
                        ) =~= self.stream());
                    }
                }
                Ok(out)
            },
            Err(e) => {
                self.abandon();
                Err(e)
            },
        }
    }

    /// Ends the container: overwrites the key, and asks the codec for the
    /// plain bytes that were still due. Where the codec agrees, all that it
    /// consumed is an xz stream, and all the plain bytes handed out, these
    /// last ones included, are what that stream decodes to. For a sound
    /// decoder whose codec consumed every piece whole, that stream is what
    /// the payload taken in deciphers to. Where its stream is incomplete,
    /// the codec gives its error instead, and the decoder is given up.
    /// Either way the decoder has ended.
    pub fn finish(&mut self) -> (res: Result<Vec<u8>, PipelineError>)
        ensures
            final(self).key() == scrubbed_key(),
            final(self).nonce() == old(self).nonce(),
            final(self).position() == old(self).position(),
            final(self).received() == old(self).received(),
            final(self).ended(),
            res matches Err(PipelineError::Abandoned) <==> old(self).abandoned(),
            res matches Err(e) ==> e is Abandoned || e is Codec,
            res is Err ==> final(self).abandoned(),
            res matches Ok(out) ==> {
                &&& !final(self).abandoned()
                &&& final(self).stream() == old(self).stream()
                &&& final(self).given() == old(self).given() + out@
                &&& xz_decoded(old(self).stream()) == Some(old(self).given() + out@)
            },
            res matches Ok(out) ==> (old(self).sound() && !old(self).ended() ==> xz_decoded(
                old(self).deciphered(),
            ) == Some(old(self).given() + out@)),
    {
        self.overlay.scrub();
        self.ended = true;
        if self.abandoned {
            return Err(PipelineError::Abandoned);
        }
        match xz_decoder_finish(&mut self.codec) {
            Ok(out) => Ok(out),
            Err(e) => {
                self.abandoned = true;
                Err(PipelineError::Codec(e))
            },
        }
    }
}

/// Round trip on the way back, piece by piece: where what the payload of a
/// container deciphers to decodes to `plain`, the container opens to
/// `plain`. With `Decoder::finish` on a sound decoder that took the payload
/// in whole, `plain` is all that the decoder handed out.
pub proof fn lemma_pieces_open(header: Header, key: Seq<u8>, payload: Seq<u8>, plain: Seq<u8>)
    requires
        xz_decoded(apply_keystream(key, header.nonce@, 0, payload)) == Some(plain),
    ensures
        opened(header.bytes() + payload, key) == Some(plain),
{
    lemma_header_bytes(header, payload);
}

} // verus!
