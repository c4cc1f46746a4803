use xzcrypt::cipher::{CipherOverlay, KEYSTREAM_LIMIT};
use xzcrypt::kdf::Key;

const KEY: [u8; 32] = [
    0x80, 0x81, 0x82, 0x83, 0x84, 0x85, 0x86, 0x87, 0x88, 0x89, 0x8a, 0x8b, 0x8c, 0x8d, 0x8e, 0x8f,
    0x90, 0x91, 0x92, 0x93, 0x94, 0x95, 0x96, 0x97, 0x98, 0x99, 0x9a, 0x9b, 0x9c, 0x9d, 0x9e, 0x9f,
];

const NONCE: [u8; 24] = [
    0x40, 0x41, 0x42, 0x43, 0x44, 0x45, 0x46, 0x47, 0x48, 0x49, 0x4a, 0x4b, 0x4c, 0x4d, 0x4e, 0x4f,
    0x50, 0x51, 0x52, 0x53, 0x54, 0x55, 0x56, 0x58,
];

// Keystream bytes 64..96 for KEY and NONCE, as the XChaCha20 draft prints them.
const KEYSTREAM_FROM_64: [u8; 32] = [
    0x29, 0x62, 0x4b, 0x4b, 0x1b, 0x14, 0x0a, 0xce, 0x53, 0x74, 0x0e, 0x40, 0x5b, 0x21, 0x68, 0x54,
    0x0f, 0xd7, 0xd6, 0x30, 0xc1, 0xf5, 0x36, 0xfe, 0xcd, 0x72, 0x2f, 0xc3, 0xcd, 0xdb, 0xa7, 0xf4,
];

// "The dhole (pronounced \"dole\") is" under the keystream from byte 64 on.
const CIPHERTEXT_FROM_64: [u8; 32] = [
    0x7d, 0x0a, 0x2e, 0x6b, 0x7f, 0x7c, 0x65, 0xa2, 0x36, 0x54, 0x26, 0x30, 0x29, 0x4e, 0x06, 0x3b,
    0x7a, 0xb9, 0xb5, 0x55, 0xa5, 0xd5, 0x14, 0x9a, 0xa2, 0x1e, 0x4a, 0xe1, 0xe4, 0xfb, 0xce, 0x87,
];

fn overlay() -> CipherOverlay {
    CipherOverlay::new(Key::from_bytes(KEY), NONCE)
}

#[test]
fn keystream_limit_is_all_but_one_block_counter() {
    assert_eq!(KEYSTREAM_LIMIT, (u32::MAX as u64) * 64);
}

#[test]
fn overlay_matches_the_published_keystream() {
    let mut cipher = overlay();
    let mut skipped = vec![0u8; 64];
    cipher.apply(&mut skipped).unwrap();
    let mut zeros = vec![0u8; 32];
    cipher.apply(&mut zeros).unwrap();
    assert_eq!(zeros, KEYSTREAM_FROM_64);
}

#[test]
fn overlay_matches_the_published_ciphertext() {
    let mut cipher = overlay();
    let mut skipped = vec![0u8; 64];
    cipher.apply(&mut skipped).unwrap();
    let mut text = b"The dhole (pronounced \"dole\") is".to_vec();
    cipher.apply(&mut text).unwrap();
    assert_eq!(text, CIPHERTEXT_FROM_64);
}

#[test]
fn overlay_counts_the_bytes_that_pass() {
    let mut cipher = overlay();
    assert_eq!(cipher.bytes_processed(), 0);
    let mut a = vec![1u8; 10];
    cipher.apply(&mut a).unwrap();
    assert_eq!(cipher.bytes_processed(), 10);
    let mut b = vec![2u8; 100];
    cipher.apply(&mut b).unwrap();
    assert_eq!(cipher.bytes_processed(), 110);
}

#[test]
fn overlay_leaves_an_empty_piece_alone() {
    let mut cipher = overlay();
    let mut nothing: Vec<u8> = Vec::new();
    cipher.apply(&mut nothing).unwrap();
    assert!(nothing.is_empty());
    assert_eq!(cipher.bytes_processed(), 0);
}

#[test]
fn overlay_keeps_the_length() {
    let mut cipher = overlay();
    let mut data = vec![9u8; 1000];
    cipher.apply(&mut data).unwrap();
    assert_eq!(data.len(), 1000);
}

#[test]
fn overlay_changes_the_bytes() {
    let mut cipher = overlay();
    let mut data = vec![0u8; 64];
    cipher.apply(&mut data).unwrap();
    assert_ne!(data, vec![0u8; 64]);
}

#[test]
fn overlay_twice_from_the_start_gives_the_data_back() {
    let plain: Vec<u8> = (0..500).map(|i| (i * 7) as u8).collect();
    let mut data = plain.clone();
    overlay().apply(&mut data).unwrap();
    assert_ne!(data, plain);
    overlay().apply(&mut data).unwrap();
    assert_eq!(data, plain);
}

#[test]
fn overlay_does_not_depend_on_how_the_stream_is_cut() {
    let plain: Vec<u8> = (0..300).map(|i| (i * 3) as u8).collect();
    let mut whole = plain.clone();
    overlay().apply(&mut whole).unwrap();

    let mut cipher = overlay();
    let mut pieces: Vec<u8> = Vec::new();
    let cuts = [0usize, 1, 63, 64, 65, 130, 300];
    for pair in cuts.windows(2) {
        let mut piece = plain[pair[0]..pair[1]].to_vec();
        cipher.apply(&mut piece).unwrap();
        pieces.extend_from_slice(&piece);
    }
    assert_eq!(pieces, whole);
}

#[test]
fn overlay_differs_with_the_nonce() {
    let mut a = vec![0u8; 32];
    let mut b = vec![0u8; 32];
    CipherOverlay::new(Key::from_bytes(KEY), [1; 24]).apply(&mut a).unwrap();
    CipherOverlay::new(Key::from_bytes(KEY), [2; 24]).apply(&mut b).unwrap();
    assert_ne!(a, b);
}

#[test]
fn overlay_differs_with_the_key() {
    let mut a = vec![0u8; 32];
    let mut b = vec![0u8; 32];
    CipherOverlay::new(Key::from_bytes([1; 32]), NONCE).apply(&mut a).unwrap();
    CipherOverlay::new(Key::from_bytes([2; 32]), NONCE).apply(&mut b).unwrap();
    assert_ne!(a, b);
}

#[test]
fn scrubbed_key_is_all_zero() {
    let mut key = Key::from_bytes(KEY);
    key.scrub();
    assert_eq!(key.as_bytes(), &[0u8; 32]);
}

#[test]
fn scrubbed_overlay_keeps_its_place() {
    let mut cipher = overlay();
    let mut data = vec![0u8; 10];
    cipher.apply(&mut data).unwrap();
    cipher.scrub();
    assert_eq!(cipher.bytes_processed(), 10);
    let mut after = vec![0u8; 4];
    cipher.apply(&mut after).unwrap();
    let mut zero_key = CipherOverlay::new(Key::from_bytes([0; 32]), NONCE);
    let mut expected = vec![0u8; 14];
    zero_key.apply(&mut expected).unwrap();
    assert_eq!(after, &expected[10..]);
}
