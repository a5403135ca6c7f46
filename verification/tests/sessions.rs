// Session state-machine behaviour: handshake completion, Hello exchange,
// streaming decode, and fatal conditions.

use rlpx_session::hello::hello_payload;
use rlpx_session::session::{
    DecodeOutcome, Direction, EncodeError, FatalReason, RlpxMessage, RlpxState, RLPx,
};

const AES_SECRET: [u8; 32] = [7u8; 32];
const MAC_SECRET: [u8; 32] = [9u8; 32];
const A_TO_B_SEED: [u8; 4] = [1, 2, 3, 4];
const B_TO_A_SEED: [u8; 4] = [5, 6, 7, 8];

fn node_id(tag: u8) -> Vec<u8> {
    vec![tag; 64]
}

// Drive a freshly created session through Auth and the key-exchange
// completion, installing mirrored secrets. `egress`/`ingress` are the seeds
// of this side's outbound and inbound MAC accumulators.
fn session_with_secrets(direction: Direction, tag: u8, egress: &[u8], ingress: &[u8]) -> RLPx {
    let mut s = RLPx::new(direction, node_id(tag), vec![0xEE; 8]);
    let mut dst = Vec::new();
    assert_eq!(s.encode(RlpxMessage::Auth, &mut dst), Ok(()));
    assert_eq!(s.get_state(), RlpxState::AuthSent);
    let mut src: Vec<u8> = vec![0xDD; 3];
    let r = s.on_auth_ack(3, &AES_SECRET, &MAC_SECRET, egress, ingress, &mut src);
    assert_eq!(r, DecodeOutcome::Event(RlpxMessage::AuthAck));
    assert_eq!(s.get_state(), RlpxState::AuthAckReceived);
    assert!(s.secrets_ready());
    assert!(src.is_empty());
    s
}

fn peer_pair() -> (RLPx, RLPx) {
    let a = session_with_secrets(Direction::Outgoing, 0x11, &A_TO_B_SEED, &B_TO_A_SEED);
    let b = session_with_secrets(Direction::Incoming, 0x22, &B_TO_A_SEED, &A_TO_B_SEED);
    (a, b)
}

#[test]
fn auth_encoding_emits_the_auth_request_once() {
    let mut s = RLPx::new(Direction::Outgoing, node_id(1), vec![0xAB, 0xCD]);
    assert_eq!(s.get_state(), RlpxState::ExpectingConnection);
    assert!(!s.secrets_ready());
    let mut dst = vec![0x99];
    assert_eq!(s.encode(RlpxMessage::Auth, &mut dst), Ok(()));
    assert_eq!(dst, vec![0xAB, 0xCD]);
    assert_eq!(s.get_state(), RlpxState::AuthSent);
    // A second Auth request is out of order.
    assert_eq!(s.encode(RlpxMessage::Auth, &mut dst), Err(EncodeError::InvalidState));
    assert_eq!(s.get_state(), RlpxState::AuthSent);
}

#[test]
fn unsupported_messages_are_rejected_not_fatal() {
    let mut s = session_with_secrets(Direction::Outgoing, 1, &A_TO_B_SEED, &B_TO_A_SEED);
    let mut dst = Vec::new();
    for item in [RlpxMessage::Ping, RlpxMessage::Pong, RlpxMessage::Status, RlpxMessage::Disconnect]
    {
        assert_eq!(s.encode(item, &mut dst), Err(EncodeError::Unsupported));
        assert!(dst.is_empty());
        assert_eq!(s.get_state(), RlpxState::AuthAckReceived);
    }
}

#[test]
fn auth_ack_is_accepted_exactly_once() {
    let mut s = session_with_secrets(Direction::Outgoing, 1, &A_TO_B_SEED, &B_TO_A_SEED);
    // Already past AuthSent: a second completion changes nothing.
    let mut src: Vec<u8> = vec![1, 2, 3];
    let r = s.on_auth_ack(1, &AES_SECRET, &MAC_SECRET, &A_TO_B_SEED, &B_TO_A_SEED, &mut src);
    assert_eq!(r, DecodeOutcome::Fatal(FatalReason::InvalidState));
    assert_eq!(s.get_state(), RlpxState::AuthAckReceived);
    assert_eq!(src, vec![1, 2, 3]);
}

#[test]
fn auth_failure_disconnects() {
    let mut s = RLPx::new(Direction::Outgoing, node_id(1), Vec::new());
    let mut dst = Vec::new();
    let _ = s.encode(RlpxMessage::Auth, &mut dst);
    s.on_auth_failure();
    assert_eq!(s.get_state(), RlpxState::Disconnected);
}

#[test]
fn hello_exchange_brings_both_sessions_to_active() {
    let (mut a, mut b) = peer_pair();
    // A sends its Hello; B decodes it and becomes Active.
    let mut wire = Vec::new();
    assert_eq!(a.encode(RlpxMessage::Hello, &mut wire), Ok(()));
    assert_eq!(b.decode(&mut wire), DecodeOutcome::Event(RlpxMessage::Hello));
    assert_eq!(b.get_state(), RlpxState::Active);
    assert!(wire.is_empty());
    // B answers with its Hello; A decodes it and becomes Active.
    let mut wire_back = Vec::new();
    assert_eq!(b.encode(RlpxMessage::Hello, &mut wire_back), Ok(()));
    assert_eq!(a.decode(&mut wire_back), DecodeOutcome::Event(RlpxMessage::Hello));
    assert_eq!(a.get_state(), RlpxState::Active);
    assert!(wire_back.is_empty());
}

#[test]
fn chunked_delivery_matches_delivery_at_once() {
    // One-shot reference run.
    let (mut a1, mut b1) = peer_pair();
    let whole = a1.hello_msg();
    let expected_len = whole.len();
    let mut whole_buf = whole.clone();
    assert_eq!(b1.decode(&mut whole_buf), DecodeOutcome::Event(RlpxMessage::Hello));
    assert_eq!(b1.get_state(), RlpxState::Active);

    // Byte-at-a-time run: every intermediate call reports Pending.
    let (mut a2, mut b2) = peer_pair();
    let frame = a2.hello_msg();
    assert_eq!(frame.len(), expected_len);
    let mut buf: Vec<u8> = Vec::new();
    for (i, byte) in frame.iter().enumerate() {
        buf.push(*byte);
        let outcome = b2.decode(&mut buf);
        if i + 1 < frame.len() {
            assert_eq!(outcome, DecodeOutcome::Pending, "byte {i} must not complete the frame");
        } else {
            assert_eq!(outcome, DecodeOutcome::Event(RlpxMessage::Hello));
        }
    }
    assert!(buf.is_empty());
    assert_eq!(b2.get_state(), RlpxState::Active);

    // Three-chunk run with uneven cuts.
    let (mut a3, mut b3) = peer_pair();
    let frame3 = a3.hello_msg();
    let mut buf3: Vec<u8> = Vec::new();
    buf3.extend_from_slice(&frame3[..7]);
    assert_eq!(b3.decode(&mut buf3), DecodeOutcome::Pending);
    buf3.extend_from_slice(&frame3[7..40]);
    assert_eq!(b3.decode(&mut buf3), DecodeOutcome::Pending);
    buf3.extend_from_slice(&frame3[40..]);
    assert_eq!(b3.decode(&mut buf3), DecodeOutcome::Event(RlpxMessage::Hello));
    assert_eq!(b3.get_state(), RlpxState::Active);
}

#[test]
fn empty_input_is_pending_in_every_state() {
    let mut s = RLPx::new(Direction::Outgoing, node_id(1), Vec::new());
    let mut empty: Vec<u8> = Vec::new();
    assert_eq!(s.decode(&mut empty), DecodeOutcome::Pending);
    let (mut a, _) = peer_pair();
    assert_eq!(a.decode(&mut empty), DecodeOutcome::Pending);
}

#[test]
fn decode_in_auth_sent_defers_to_the_key_exchange() {
    let mut s = RLPx::new(Direction::Outgoing, node_id(1), Vec::new());
    let mut dst = Vec::new();
    let _ = s.encode(RlpxMessage::Auth, &mut dst);
    let mut src = vec![1, 2, 3];
    assert_eq!(s.decode(&mut src), DecodeOutcome::AwaitingKeyExchange);
    assert_eq!(src, vec![1, 2, 3]);
}

// Frame an arbitrary payload as A's outbound channel would, via a twin
// Secrets value built from the same key material.
fn frame_from_a(payload: &[u8]) -> Vec<u8> {
    let mut twin =
        rlpx_session::codec::Secrets::new(&AES_SECRET, &MAC_SECRET, &A_TO_B_SEED, &B_TO_A_SEED);
    twin.write_frame(payload)
}

#[test]
fn non_hello_during_handshake_is_a_protocol_violation() {
    let (_a, mut b) = peer_pair();
    // A frame whose payload carries message id 2 instead of Hello.
    let mut wire = frame_from_a(&[0x02]);
    assert_eq!(b.decode(&mut wire), DecodeOutcome::Fatal(FatalReason::ProtocolViolation));
    assert_eq!(b.get_state(), RlpxState::Disconnected);
    // Disconnected sessions fail fast and mutate nothing further.
    let mut more = vec![1, 2, 3];
    assert_eq!(b.decode(&mut more), DecodeOutcome::Fatal(FatalReason::InvalidState));
    assert_eq!(more, vec![1, 2, 3]);
    assert_eq!(b.get_state(), RlpxState::Disconnected);
}

#[test]
fn unhandled_message_in_active_state_is_an_event() {
    let (mut a, mut b) = peer_pair();
    // Complete the Hello exchange toward B first.
    let mut wire = a.hello_msg();
    assert_eq!(b.decode(&mut wire), DecodeOutcome::Event(RlpxMessage::Hello));
    assert_eq!(b.get_state(), RlpxState::Active);
    // Now a non-Hello message id is surfaced, not fatal.
    let mut twin = rlpx_session::codec::Secrets::new(
        &AES_SECRET,
        &MAC_SECRET,
        &A_TO_B_SEED,
        &B_TO_A_SEED,
    );
    // Advance the twin's egress channel past the Hello frame A already sent.
    let hello = hello_payload(&node_id(0x11));
    let _ = twin.write_frame(&hello);
    let mut wire2 = twin.write_frame(&[0x02]);
    assert_eq!(b.decode(&mut wire2), DecodeOutcome::Event(RlpxMessage::Unhandled(2)));
    assert_eq!(b.get_state(), RlpxState::Active);
}

#[test]
fn tampered_frame_during_handshake_disconnects() {
    let (mut a, mut b) = peer_pair();
    let mut wire = a.hello_msg();
    wire[5] ^= 0x40;
    assert_eq!(b.decode(&mut wire), DecodeOutcome::Fatal(FatalReason::Authentication));
    assert_eq!(b.get_state(), RlpxState::Disconnected);
}

#[test]
fn malformed_message_id_is_a_format_fault() {
    let (_a, mut b) = peer_pair();
    let mut twin = rlpx_session::codec::Secrets::new(
        &AES_SECRET,
        &MAC_SECRET,
        &A_TO_B_SEED,
        &B_TO_A_SEED,
    );
    // 0x81 followed by a byte under 0x80 is not a well-formed id encoding.
    let mut wire = twin.write_frame(&[0x81, 0x01]);
    assert_eq!(b.decode(&mut wire), DecodeOutcome::Fatal(FatalReason::MessageFormat));
    assert_eq!(b.get_state(), RlpxState::Disconnected);
}

#[test]
fn hello_payload_has_the_exact_wire_bytes() {
    let id = node_id(0x11);
    let payload = hello_payload(&id);
    let mut expected: Vec<u8> = vec![
        0x80, // message id: Hello (zero)
        0xf8, 0x56, // list header, 86 bytes of payload
        0x05, // protocol version 5
        0x8a, b'r', b'e', b't', b'h', b'_', b'h', b'e', b'l', b'l', b'o', // client id
        0xc6, 0xc5, 0x83, b'e', b't', b'h', 0x44, // capabilities: [["eth", 68]]
        0x80, // port 0
        0xb8, 0x40, // 64-byte node id
    ];
    expected.extend_from_slice(&id);
    assert_eq!(payload, expected);
}

#[test]
fn session_codec_methods_round_trip_a_frame() {
    let (mut a, mut b) = peer_pair();
    let frame = a.hello_msg();
    let ct_len = b.decode_frame_header(&frame[..32]).expect("header must authenticate");
    assert_eq!(ct_len % 16, 0);
    assert_eq!(frame.len(), 32 + ct_len + 16);
    let pt = b.decode_frame_ciphertext(&frame[32..]).expect("body must authenticate");
    assert_eq!(pt.len(), ct_len);
    let expected = hello_payload(&node_id(0x11));
    assert_eq!(&pt[..expected.len()], &expected[..]);
}

#[test]
fn session_codec_methods_report_tampering() {
    let (mut a, mut b) = peer_pair();
    let mut frame = a.hello_msg();
    frame[20] ^= 0x01;
    assert!(b.decode_frame_header(&frame[..32]).is_err());
}

#[test]
fn session_budget_is_reported() {
    let (a, _) = peer_pair();
    assert!(a.stream_in_budget());
    let fresh = RLPx::new(Direction::Incoming, node_id(3), Vec::new());
    assert!(fresh.stream_in_budget());
}
