// Frame-codec behaviour with the real ciphers and hash linked in.

use rlpx_session::codec::{CodecError, Secrets};

fn matching_pair() -> (Secrets, Secrets) {
    let aes = [7u8; 32];
    let mac = [9u8; 32];
    let a_to_b = [1u8, 2, 3, 4];
    let b_to_a = [5u8, 6, 7, 8];
    let a = Secrets::new(&aes, &mac, &a_to_b, &b_to_a);
    let b = Secrets::new(&aes, &mac, &b_to_a, &a_to_b);
    (a, b)
}

fn body_of_len(n: usize) -> Vec<u8> {
    let mut v = Vec::new();
    for i in 0..n {
        v.push((i % 251) as u8);
    }
    v
}

fn padded_len(n: usize) -> usize {
    if n % 16 == 0 { n } else { n + 16 - n % 16 }
}

fn round_trip_one(n: usize) {
    let (mut a, mut b) = matching_pair();
    let body = body_of_len(n);
    let frame = a.write_frame(&body);
    assert_eq!(frame.len(), 48 + padded_len(n));
    let ct_len = b.read_frame_header(&frame[..32]).expect("header must authenticate");
    assert_eq!(ct_len, padded_len(n));
    let pt = b.read_frame_body(&frame[32..]).expect("body must authenticate");
    assert_eq!(pt.len(), padded_len(n));
    assert_eq!(&pt[..n], &body[..]);
    for i in n..pt.len() {
        assert_eq!(pt[i], 0, "padding must decrypt to zero");
    }
}

#[test]
fn round_trip_empty_body() {
    round_trip_one(0);
}

#[test]
fn round_trip_small_bodies() {
    for n in [1usize, 15, 16, 17, 31, 32, 255, 256, 1024] {
        round_trip_one(n);
    }
}

#[test]
fn round_trip_largest_body() {
    round_trip_one(65535);
}

#[test]
fn round_trip_sequence_of_frames() {
    let (mut a, mut b) = matching_pair();
    for n in [5usize, 0, 64, 33] {
        let body = body_of_len(n);
        let frame = a.write_frame(&body);
        let ct_len = b.read_frame_header(&frame[..32]).expect("header must authenticate");
        assert_eq!(ct_len, padded_len(n));
        let pt = b.read_frame_body(&frame[32..]).expect("body must authenticate");
        assert_eq!(&pt[..n], &body[..]);
    }
}

#[test]
fn egress_digest_changes_with_every_frame() {
    let (mut a, _b) = matching_pair();
    let mut digests = vec![a.egress_mac_digest()];
    for n in [5usize, 5, 0, 64] {
        let body = body_of_len(n);
        let _ = a.write_frame(&body);
        digests.push(a.egress_mac_digest());
    }
    for i in 0..digests.len() {
        for j in 0..i {
            assert_ne!(digests[i], digests[j], "accumulator digest must keep changing");
        }
    }
}

#[test]
fn tampering_any_header_record_bit_is_fatal() {
    let body = [0xAAu8; 5];
    for byte in 0..32usize {
        for bit in 0..8usize {
            let (mut a, mut b) = matching_pair();
            let mut frame = a.write_frame(&body);
            frame[byte] ^= 1 << bit;
            assert_eq!(
                b.read_frame_header(&frame[..32]),
                Err(CodecError::HeaderMacMismatch),
                "flipped bit {bit} of byte {byte} must be caught",
            );
        }
    }
}

#[test]
fn tampering_any_body_record_bit_is_fatal() {
    let body = [0xAAu8; 5];
    // The body record of a 5-byte body: 16 ciphertext bytes plus 16 MAC bytes.
    for byte in 32..64usize {
        for bit in 0..8usize {
            let (mut a, mut b) = matching_pair();
            let mut frame = a.write_frame(&body);
            frame[byte] ^= 1 << bit;
            let ct_len = b.read_frame_header(&frame[..32]).expect("header untouched");
            assert_eq!(ct_len, 16);
            assert_eq!(
                b.read_frame_body(&frame[32..]),
                Err(CodecError::FrameMacMismatch),
                "flipped bit {bit} of byte {byte} must be caught",
            );
        }
    }
}

#[test]
fn header_too_short_is_reported() {
    let (_, mut b) = matching_pair();
    assert_eq!(b.read_frame_header(&[0u8; 10]), Err(CodecError::HeaderTooShort));
}

#[test]
fn frame_too_short_is_reported() {
    let (_, mut b) = matching_pair();
    assert_eq!(b.read_frame_body(&[0u8; 8]), Err(CodecError::FrameTooShort));
}

#[test]
fn key_stream_actually_encrypts() {
    let (mut a, _) = matching_pair();
    let body = [0u8; 16];
    let frame = a.write_frame(&body);
    // If the key stream handed bytes back unchanged, the ciphertext section
    // would be the zero body and the header section the plaintext header.
    assert_ne!(&frame[32..48], &[0u8; 16]);
    let plain_header: [u8; 16] = [0, 0, 16, 194, 128, 128, 0, 0, 0, 0, 0, 0, 0, 0, 0, 0];
    assert_ne!(&frame[..16], &plain_header);
}

#[test]
fn mac_mixing_key_affects_the_macs() {
    // Same stream key and seeds, different MAC-mixing key: if the block
    // cipher handed its input back unchanged, both frames' MAC sections
    // would agree.
    let aes = [7u8; 32];
    let seed = [1u8, 2, 3];
    let mut a = Secrets::new(&aes, &[9u8; 32], &seed, &seed);
    let mut b = Secrets::new(&aes, &[10u8; 32], &seed, &seed);
    let body = [0x55u8; 8];
    let fa = a.write_frame(&body);
    let fb = b.write_frame(&body);
    assert_eq!(&fa[..16], &fb[..16], "ciphertext does not depend on the MAC key");
    assert_ne!(&fa[16..32], &fb[16..32], "header MAC must depend on the MAC key");
}

#[test]
fn mac_seed_affects_the_macs() {
    // Different initial transcripts: if updates were ignored, the MACs
    // would agree.
    let aes = [7u8; 32];
    let mac = [9u8; 32];
    let mut a = Secrets::new(&aes, &mac, &[1u8], &[]);
    let mut b = Secrets::new(&aes, &mac, &[2u8], &[]);
    let body = [0x55u8; 8];
    let fa = a.write_frame(&body);
    let fb = b.write_frame(&body);
    assert_eq!(&fa[..16], &fb[..16]);
    assert_ne!(&fa[16..32], &fb[16..32], "header MAC must depend on the transcript seed");
}

#[test]
fn budget_is_reported() {
    let (a, _) = matching_pair();
    assert!(a.in_budget());
}
