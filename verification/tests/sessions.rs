use xzcrypt::entropy::{fresh_header, header_from};
use xzcrypt::error::PipelineError;
use xzcrypt::format::Header;
use xzcrypt::kdf::Key;
use xzcrypt::pipeline::{open, seal};
use xzcrypt::stream::{absorb, Decoder, Encoder};

fn header() -> Header {
    Header { nonce: [9; 24], salt: [7; 40] }
}

fn key() -> Key {
    Key::from_bytes([0x42; 32])
}

fn noise(len: usize) -> Vec<u8> {
    let mut state: u32 = 12345;
    (0..len)
        .map(|_| {
            state = state.wrapping_mul(1664525).wrapping_add(1013904223);
            (state >> 24) as u8
        })
        .collect()
}

fn encode_in_pieces(input: &[u8], piece: usize, level: u32, threads: u32) -> Vec<u8> {
    let (mut encoder, mut container) = Encoder::with_key(level, threads, &header(), key()).unwrap();
    for chunk in input.chunks(piece) {
        container.extend_from_slice(&encoder.update(chunk).unwrap());
    }
    container.extend_from_slice(&encoder.finish().unwrap());
    container
}

fn decode_in_pieces(container: &[u8], piece: usize) -> Result<Vec<u8>, PipelineError> {
    let front = Header::parse(container)?;
    let mut decoder = Decoder::with_key(&front, key())?;
    let mut plain = Vec::new();
    for chunk in container[64..].chunks(piece) {
        plain.extend_from_slice(&decoder.update(chunk)?);
    }
    plain.extend_from_slice(&decoder.finish()?);
    Ok(plain)
}

#[test]
fn encoder_hands_out_the_header_first() {
    let (encoder, head) = Encoder::with_key(6, 1, &header(), key()).unwrap();
    assert_eq!(head, header().assemble());
    assert_eq!(encoder.bytes_emitted(), 0);
}

#[test]
fn encoder_counts_the_payload_it_hands_out() {
    let (mut encoder, _head) = Encoder::with_key(0, 1, &header(), key()).unwrap();
    let mut handed_out = 0;
    for _ in 0..40 {
        handed_out += encoder.update(&noise(50_000)).unwrap().len();
        assert_eq!(encoder.bytes_emitted(), handed_out as u64);
    }
    assert!(handed_out > 0);
}

#[test]
fn decoder_counts_the_payload_it_takes_in() {
    let container = seal(&noise(2000), 6, 1, &header(), &mut key()).unwrap();
    let mut decoder = Decoder::with_key(&header(), key()).unwrap();
    assert_eq!(decoder.bytes_taken(), 0);
    assert!(!decoder.has_ended());
    decoder.update(&container[64..100]).unwrap();
    assert_eq!(decoder.bytes_taken(), 36);
    assert!(!decoder.has_ended());
    decoder.update(&container[100..]).unwrap();
    assert_eq!(decoder.bytes_taken(), (container.len() - 64) as u64);
}

#[test]
fn decoder_notices_the_end_of_the_stream() {
    let mut container = seal(b"hello", 6, 1, &header(), &mut key()).unwrap();
    let sealed = container.len();
    container.extend_from_slice(&[0u8; 100]);
    let mut decoder = Decoder::with_key(&header(), key()).unwrap();
    let mut plain = decoder.update(&container[64..]).unwrap();
    assert!(decoder.has_ended());
    assert!(decoder.bytes_taken() >= (sealed - 64) as u64);
    assert!(decoder.update(b"more").unwrap().is_empty());
    assert!(decoder.has_ended());
    plain.extend_from_slice(&decoder.finish().unwrap());
    assert_eq!(plain, b"hello");
}

#[test]
fn encoder_output_opens_in_memory() {
    let input = b"hello";
    let container = encode_in_pieces(input, 2, 6, 1);
    assert!(container.len() >= 24 + 40);
    assert_eq!(open(&container, &mut key()).unwrap(), input);
}

#[test]
fn encoder_of_nothing_gives_an_empty_stream() {
    let (encoder, mut container) = Encoder::with_key(6, 1, &header(), key()).unwrap();
    container.extend_from_slice(&encoder.finish().unwrap());
    assert!(container.len() > 64);
    assert_eq!(open(&container, &mut key()).unwrap(), Vec::<u8>::new());
}

#[test]
fn encoder_takes_empty_pieces() {
    let (mut encoder, mut container) = Encoder::with_key(6, 1, &header(), key()).unwrap();
    container.extend_from_slice(&encoder.update(&[]).unwrap());
    container.extend_from_slice(&encoder.update(b"hello").unwrap());
    container.extend_from_slice(&encoder.update(&[]).unwrap());
    container.extend_from_slice(&encoder.finish().unwrap());
    assert_eq!(open(&container, &mut key()).unwrap(), b"hello");
}

#[test]
fn encoder_does_not_depend_on_how_the_input_is_cut() {
    let input = noise(50_000);
    let small = encode_in_pieces(&input, 7, 3, 1);
    let large = encode_in_pieces(&input, 10_000, 3, 1);
    assert_eq!(open(&small, &mut key()).unwrap(), input);
    assert_eq!(open(&large, &mut key()).unwrap(), input);
}

#[test]
fn encoder_takes_level_fifteen() {
    let input = noise(3000);
    let container = encode_in_pieces(&input, 1000, 15, 1);
    assert_eq!(open(&container, &mut key()).unwrap(), input);
}

#[test]
fn encoder_refuses_zero_threads() {
    assert!(matches!(Encoder::with_key(6, 0, &header(), key()), Err(PipelineError::Codec(_))));
}

#[test]
fn decoder_reads_what_was_sealed_in_memory() {
    let container = seal(b"hello", 6, 1, &header(), &mut key()).unwrap();
    assert_eq!(decode_in_pieces(&container, 3).unwrap(), b"hello");
}

#[test]
fn decoder_reads_byte_by_byte() {
    let input = noise(2000);
    let container = seal(&input, 6, 1, &header(), &mut key()).unwrap();
    assert_eq!(decode_in_pieces(&container, 1).unwrap(), input);
}

#[test]
fn decoder_reads_in_one_piece() {
    let input = noise(2000);
    let container = seal(&input, 6, 1, &header(), &mut key()).unwrap();
    assert_eq!(decode_in_pieces(&container, container.len()).unwrap(), input);
}

#[test]
fn pieces_in_pieces_out() {
    let input = noise(300_000);
    let container = encode_in_pieces(&input, 4096, 1, 2);
    assert_eq!(decode_in_pieces(&container, 4096).unwrap(), input);
}

#[test]
fn many_pieces_of_what_repeats() {
    let piece = vec![b'z'; 64 * 1024];
    let (mut encoder, mut container) = Encoder::with_key(0, 1, &header(), key()).unwrap();
    let mut largest = 0;
    for _ in 0..64 {
        let out = encoder.update(&piece).unwrap();
        largest = largest.max(out.len());
        container.extend_from_slice(&out);
    }
    container.extend_from_slice(&encoder.finish().unwrap());
    assert!(largest <= 2 * piece.len());
    assert!(container.len() < piece.len());

    let mut decoder = Decoder::with_key(&header(), key()).unwrap();
    let mut total = 0;
    for chunk in container[64..].chunks(512) {
        let out = decoder.update(chunk).unwrap();
        assert!(out.iter().all(|b| *b == b'z'));
        total += out.len();
    }
    total += decoder.finish().unwrap().len();
    assert_eq!(total, 64 * 64 * 1024);
}

#[test]
fn decoder_refuses_a_payload_cut_short() {
    let container = seal(&noise(2000), 6, 1, &header(), &mut key()).unwrap();
    let cut = &container[..container.len() - 5];
    assert!(matches!(decode_in_pieces(cut, 100), Err(PipelineError::Codec(_))));
}

#[test]
fn decoder_refuses_an_empty_payload() {
    let mut decoder = Decoder::with_key(&header(), key()).unwrap();
    assert!(matches!(decoder.finish(), Err(PipelineError::Codec(_))));
}

#[test]
fn decoder_under_another_key_fails() {
    let container = seal(b"hello", 6, 1, &header(), &mut key()).unwrap();
    let mut decoder = Decoder::with_key(&header(), Key::from_bytes([0x43; 32])).unwrap();
    let res = match decoder.update(&container[64..]) {
        Ok(_) => decoder.finish(),
        Err(e) => Err(e),
    };
    assert!(matches!(res, Err(PipelineError::Codec(_))));
}

#[test]
fn decoder_passes_over_what_follows_the_stream() {
    let mut container = seal(b"hello", 6, 1, &header(), &mut key()).unwrap();
    container.extend_from_slice(b"trailing bytes, more than a few of them");
    assert_eq!(decode_in_pieces(&container, 16).unwrap(), b"hello");
    assert_eq!(open(&container, &mut key()).unwrap(), b"hello");
}

#[test]
fn decoder_start_refuses_a_short_front() {
    let mut password = String::from("correct");
    let res = Decoder::start(&[0u8; 63], &mut password);
    assert!(matches!(res, Err(PipelineError::Truncated)));
    assert!(password.is_empty());
}

#[test]
fn decoder_start_refuses_an_empty_front() {
    let mut password = String::from("correct");
    assert!(matches!(Decoder::start(&[], &mut password), Err(PipelineError::Truncated)));
    assert!(password.is_empty());
}

#[test]
fn encoder_start_empties_the_password_when_the_codec_refuses() {
    let mut password = String::from("correct");
    assert!(matches!(Encoder::start(6, 0, &mut password), Err(PipelineError::Codec(_))));
    assert!(password.is_empty());
}

#[test]
fn fresh_headers_differ() {
    let a = fresh_header().unwrap();
    let b = fresh_header().unwrap();
    assert_ne!(a.nonce, b.nonce);
    assert_ne!(a.salt, b.salt);
    assert_ne!(a.assemble(), b.assemble());
}

#[test]
fn fresh_header_is_not_blank() {
    let drawn = fresh_header().unwrap();
    assert_ne!(drawn.nonce, [0u8; 24]);
    assert_ne!(drawn.salt, [0u8; 40]);
    assert_ne!(&drawn.salt[..24], &drawn.nonce[..]);
}

#[test]
fn drawn_bytes_are_salt_then_nonce() {
    let mut drawn = [0u8; 64];
    for (i, byte) in drawn.iter_mut().enumerate() {
        *byte = i as u8;
    }
    let made = header_from(&drawn);
    assert_eq!(&made.salt[..], &drawn[..40]);
    assert_eq!(&made.nonce[..], &drawn[40..]);
    assert_eq!(made.salt[0], 0);
    assert_eq!(made.salt[39], 39);
    assert_eq!(made.nonce[0], 40);
    assert_eq!(made.nonce[23], 63);
}

#[test]
fn absorb_appends_and_moves_on() {
    let mut out = vec![1u8, 2];
    assert_eq!(absorb(&mut out, 10, 5, vec![3, 4, 5]), Some(15));
    assert_eq!(out, vec![1, 2, 3, 4, 5]);
    assert_eq!(absorb(&mut out, 0, 1, Vec::new()), Some(1));
    assert_eq!(out, vec![1, 2, 3, 4, 5]);
}

#[test]
fn absorb_stops_where_nothing_was_consumed() {
    let mut out = vec![1u8, 2];
    assert_eq!(absorb(&mut out, 10, 0, vec![3]), None);
    assert_eq!(out, vec![1, 2, 3]);
}

#[test]
fn decoder_has_ended_once_finished() {
    let container = seal(b"hello", 6, 1, &header(), &mut key()).unwrap();
    let mut decoder = Decoder::with_key(&header(), key()).unwrap();
    let mut plain = decoder.update(&container[64..]).unwrap();
    let taken = decoder.bytes_taken();
    plain.extend_from_slice(&decoder.finish().unwrap());
    assert_eq!(plain, b"hello");
    assert!(decoder.has_ended());
    assert_eq!(decoder.bytes_taken(), taken);
    assert!(decoder.update(b"more").unwrap().is_empty());
    assert_eq!(decoder.bytes_taken(), taken);
}

#[test]
fn decoder_has_ended_once_finish_has_failed() {
    let container = seal(&noise(2000), 6, 1, &header(), &mut key()).unwrap();
    let mut decoder = Decoder::with_key(&header(), key()).unwrap();
    decoder.update(&container[64..container.len() - 5]).unwrap();
    assert!(!decoder.has_ended());
    assert!(matches!(decoder.finish(), Err(PipelineError::Codec(_))));
    assert!(decoder.has_ended());
    assert!(decoder.is_abandoned());
    let late = decoder.update(&container[container.len() - 5..]);
    assert!(matches!(late, Err(PipelineError::Abandoned)));
}

#[test]
fn decoder_takes_an_empty_piece() {
    let container = seal(b"hello", 6, 1, &header(), &mut key()).unwrap();
    let mut decoder = Decoder::with_key(&header(), key()).unwrap();
    assert!(decoder.update(&[]).unwrap().is_empty());
    assert!(!decoder.has_ended());
    assert_eq!(decoder.bytes_taken(), 0);
    let mut plain = decoder.update(&container[64..]).unwrap();
    plain.extend_from_slice(&decoder.finish().unwrap());
    assert_eq!(plain, b"hello");
}

#[test]
fn abandoned_encoder_takes_nothing_more() {
    let (mut encoder, _head) = Encoder::with_key(6, 1, &header(), key()).unwrap();
    encoder.update(b"hello").unwrap();
    assert!(!encoder.is_abandoned());
    let emitted = encoder.bytes_emitted();
    encoder.abandon();
    assert!(encoder.is_abandoned());
    assert!(matches!(encoder.update(b"more"), Err(PipelineError::Abandoned)));
    assert_eq!(encoder.bytes_emitted(), emitted);
    assert!(matches!(encoder.finish(), Err(PipelineError::Abandoned)));
}

#[test]
fn abandoned_decoder_takes_nothing_more() {
    let container = seal(b"hello", 6, 1, &header(), &mut key()).unwrap();
    let mut decoder = Decoder::with_key(&header(), key()).unwrap();
    assert!(!decoder.is_abandoned());
    decoder.abandon();
    assert!(decoder.is_abandoned());
    assert!(matches!(decoder.update(&container[64..]), Err(PipelineError::Abandoned)));
    assert_eq!(decoder.bytes_taken(), 0);
    assert!(matches!(decoder.finish(), Err(PipelineError::Abandoned)));
    assert!(decoder.has_ended());
}

#[test]
fn decoder_gives_itself_up_when_the_codec_fails() {
    let mut decoder = Decoder::with_key(&header(), key()).unwrap();
    let garbage = vec![0x5Au8; 200];
    assert!(matches!(decoder.update(&garbage), Err(PipelineError::Codec(_))));
    assert!(decoder.is_abandoned());
    assert_eq!(decoder.bytes_taken(), 200);
    assert!(matches!(decoder.update(&garbage), Err(PipelineError::Abandoned)));
    assert_eq!(decoder.bytes_taken(), 200);
}

#[test]
fn decoder_stays_whole_after_a_good_finish() {
    let container = seal(b"hello", 6, 1, &header(), &mut key()).unwrap();
    let mut decoder = Decoder::with_key(&header(), key()).unwrap();
    let mut plain = decoder.update(&container[64..]).unwrap();
    plain.extend_from_slice(&decoder.finish().unwrap());
    assert_eq!(plain, b"hello");
    assert!(!decoder.is_abandoned());
}

#[test]
fn pieces_out_grow_the_container_in_step() {
    let input = noise(200_000);
    let (mut encoder, head) = Encoder::with_key(1, 1, &header(), key()).unwrap();
    let mut container = head;
    for chunk in input.chunks(10_000) {
        container.extend_from_slice(&encoder.update(chunk).unwrap());
        assert_eq!(encoder.bytes_emitted() as usize, container.len() - 64);
    }
    container.extend_from_slice(&encoder.finish().unwrap());
    assert_eq!(open(&container, &mut key()).unwrap(), input);
}

#[test]
fn encoder_stream_carries_a_crc64() {
    let container = encode_in_pieces(b"hello", 2, 6, 1);
    let stream = xzcrypt::pipeline::unframe(&container, &mut key()).unwrap();
    assert_eq!(&stream[..6], &[0xFD, b'7', b'z', b'X', b'Z', 0x00]);
    assert_eq!(stream[7], 0x04);
}

#[test]
fn decoder_ends_where_the_stream_ends() {
    let mut container = seal(b"hello", 6, 1, &header(), &mut key()).unwrap();
    let sealed = container.len() - 64;
    container.extend_from_slice(&[0u8; 10]);
    let mut decoder = Decoder::with_key(&header(), key()).unwrap();
    decoder.update(&container[64..64 + sealed]).unwrap();
    assert!(!decoder.has_ended());
    let mut plain = decoder.update(&container[64 + sealed..]).unwrap();
    assert!(decoder.has_ended());
    plain.extend_from_slice(&decoder.finish().unwrap());
    assert_eq!(plain, b"hello");
}
