//! The session state machine: owns the secrets and the frame-decoding
//! progress, and exposes the encode and streaming-decode entry points. The
//! key exchange itself is an external collaborator; the session consumes
//! only its output, handed in as plain byte values.

use vstd::prelude::*;

use crate::codec::{
    body_mac_spec, declared_len, frame_bytes, header_mac_spec, ks_xor, round_up16, sub_bytes,
    transcript_after_body, transcript_after_frame, transcript_after_header, CodecError, Secrets,
};
use crate::hello::{hello_message, hello_payload};

verus! {

/// The protocol state of one session. Transitions are one-directional;
/// `Disconnected` is terminal.
#[derive(Clone, Copy, Debug, PartialEq, Eq, Structural)]
pub enum RlpxState {
    ExpectingConnection,
    AuthSent,
    AuthAckReceived,
    HelloSent,
    HelloReceived,
    Active,
    Disconnected,
}

/// Frame-decoding progress across decode calls: either awaiting a header
/// record, or awaiting the given number of body-ciphertext bytes plus MAC.
#[derive(Clone, Copy, Debug, PartialEq, Eq, Structural)]
pub enum FrameState {
    DecodingHeader,
    DecodingFrame(usize),
}

/// Which side initiated the connection; fixed at creation.
#[derive(Clone, Copy, Debug, PartialEq, Eq, Structural)]
pub enum Direction {
    Outgoing,
    Incoming,
}

/// The logical messages the session speaks of.
#[derive(Clone, Copy, Debug, PartialEq, Eq, Structural)]
pub enum RlpxMessage {
    Auth,
    AuthAck,
    Hello,
    Disconnect,
    Ping,
    Pong,
    Status,
    Unhandled(u8),
}

/// Why a session became unusable.
#[derive(Clone, Copy, Debug, PartialEq, Eq, Structural)]
pub enum FatalReason {
    Authentication,
    ProtocolViolation,
    MessageFormat,
    InvalidState,
}

/// The outcome of one decode call.
#[derive(Clone, Copy, Debug, PartialEq, Eq, Structural)]
pub enum DecodeOutcome {
    Event(RlpxMessage),
    Pending,
    AwaitingKeyExchange,
    Fatal(FatalReason),
}

/// An encode request the session cannot serve.
#[derive(Clone, Copy, Debug, PartialEq, Eq, Structural)]
pub enum EncodeError {
    Unsupported,
    InvalidState,
}

/// The message id carried by a decrypted frame, read from its first byte
/// in the integer encoding of the wire format; `None` for a malformed id.
pub open spec fn msg_id_of(frame: Seq<u8>) -> Option<u8> {
    if frame.len() == 0 {
        None
    } else if frame[0] < 128 {
        Some(frame[0])
    } else if frame[0] == 128 {
        Some(0u8)
    } else if frame[0] == 129 && frame.len() >= 2 && frame[1] >= 128 {
        Some(frame[1])
    } else {
        None
    }
}

/// The message a frame with id `id` stands for: only Hello is interpreted;
/// everything else is surfaced to the caller unhandled.
pub open spec fn message_for_id(id: u8) -> RlpxMessage {
    if id == 0 {
        RlpxMessage::Hello
    } else {
        RlpxMessage::Unhandled(id)
    }
}

/// The inbound half of the codec state, as the decode model sees it.
#[verifier::ext_equal]
pub ghost struct IngressModel {
    pub key: Seq<u8>,
    pub mk: Seq<u8>,
    pub pos: int,
    pub acc: Seq<u8>,
    pub awaiting: Option<int>,
}

/// What one frame-decode call does: the state it leaves, how many input
/// bytes it consumes, and what it reports.
#[verifier::ext_equal]
pub ghost struct StepResult {
    pub next: IngressModel,
    pub consumed: int,
    pub pending: bool,
    pub header_failed: bool,
    pub body_failed: bool,
    pub frame: Seq<u8>,
}

/// Model invariant: an awaited body length is a block multiple within the
/// wire format's bound.
pub open spec fn model_wf(m: IngressModel) -> bool {
    m.awaiting is Some ==> 0 <= m.awaiting->Some_0 <= 65536 && m.awaiting->Some_0 % 16 == 0
}

/// A call that consumed nothing and reported "no event yet".
pub open spec fn step_pending(m: IngressModel) -> StepResult {
    StepResult {
        next: m,
        consumed: 0,
        pending: true,
        header_failed: false,
        body_failed: false,
        frame: Seq::empty(),
    }
}

/// The body phase of a decode call: given the awaited length, either too
/// little input (pending), a MAC mismatch (failed, with the ciphertext and
/// its seed already folded into the transcript), or a delivered frame.
pub open spec fn body_step(m: IngressModel, input: Seq<u8>) -> StepResult
    recommends
        m.awaiting is Some,
{
    let n = m.awaiting->Some_0;
    if input.len() < n + 16 {
        step_pending(m)
    } else {
        let ct = input.take(n);
        let received = input.subrange(n, n + 16);
        let acc1 = transcript_after_body(m.mk, m.acc, ct);
        if received == body_mac_spec(m.mk, m.acc, ct) {
            StepResult {
                next: IngressModel {
                    key: m.key,
                    mk: m.mk,
                    pos: m.pos + n,
                    acc: acc1,
                    awaiting: None,
                },
                consumed: n + 16,
                pending: false,
                header_failed: false,
                body_failed: false,
                frame: ks_xor(m.key, m.pos, ct),
            }
        } else {
            StepResult {
                next: IngressModel { key: m.key, mk: m.mk, pos: m.pos, acc: acc1, awaiting: m.awaiting },
                consumed: 0,
                pending: false,
                header_failed: false,
                body_failed: true,
                frame: Seq::empty(),
            }
        }
    }
}

/// One whole decode call over the inbound model: the header phase if a
/// header is awaited, continuing into the body phase of the same call when
/// enough bytes are present.
pub open spec fn step(m: IngressModel, input: Seq<u8>) -> StepResult {
    if m.awaiting is Some {
        body_step(m, input)
    } else if input.len() < 32 {
        step_pending(m)
    } else {
        let hc = input.take(16);
        let acc1 = transcript_after_header(m.mk, m.acc, hc);
        if input.subrange(16, 32) == header_mac_spec(m.mk, m.acc, hc) {
            let n = round_up16(declared_len(ks_xor(m.key, m.pos, hc)));
            let m1 = IngressModel {
                key: m.key,
                mk: m.mk,
                pos: m.pos + 16,
                acc: acc1,
                awaiting: Some(n),
            };
            let br = body_step(m1, input.skip(32));
            StepResult {
                next: br.next,
                consumed: 32 + br.consumed,
                pending: br.pending,
                header_failed: false,
                body_failed: br.body_failed,
                frame: br.frame,
            }
        } else {
            StepResult {
                next: IngressModel { key: m.key, mk: m.mk, pos: m.pos, acc: acc1, awaiting: None },
                consumed: 0,
                pending: false,
                header_failed: true,
                body_failed: false,
                frame: Seq::empty(),
            }
        }
    }
}

/// Remove the first `n` bytes of a buffer, keeping the rest in order.
pub fn drain_front(v: &mut Vec<u8>, n: usize)
    requires
        n <= old(v)@.len(),
    ensures
        final(v)@ == old(v)@.skip(n as int),
{
    let rest = sub_bytes(v.as_slice(), n, v.len());
    proof {
        assert(rest@ =~= v@.skip(n as int));
    }
    *v = rest;
}

/// Whether a state presupposes that the key exchange has completed.
pub open spec fn state_needs_secrets(s: RlpxState) -> bool {
    s == RlpxState::AuthAckReceived || s == RlpxState::HelloSent || s == RlpxState::HelloReceived
        || s == RlpxState::Active
}

/// One session: the protocol state, the direction, the pre-built auth
/// request, the local node id, the frame-decoding progress, and — once the
/// key exchange completes — the exclusively owned secrets bundle.
pub struct RLPx {
    rlpx_state: RlpxState,
    direction: Direction,
    auth_request: Vec<u8>,
    node_id: Vec<u8>,
    frame_state: FrameState,
    secrets: Option<Secrets>,
}

impl RLPx {
    /// The current protocol state.
    pub closed spec fn spec_state(self) -> RlpxState {
        self.rlpx_state
    }

    /// The session's direction.
    pub closed spec fn spec_direction(self) -> Direction {
        self.direction
    }

    /// The pre-built auth request handed in at creation.
    pub closed spec fn spec_auth_request(self) -> Seq<u8> {
        self.auth_request@
    }

    /// The local node id (uncompressed public key, prefix byte stripped).
    pub closed spec fn spec_node_id(self) -> Seq<u8> {
        self.node_id@
    }

    /// The frame-decoding progress.
    pub closed spec fn spec_frame_state(self) -> FrameState {
        self.frame_state
    }

    /// Whether the secrets bundle is present.
    pub closed spec fn has_secrets(self) -> bool {
        self.secrets is Some
    }

    /// The secrets bundle (meaningful only while `has_secrets`).
    pub closed spec fn secrets_of(self) -> Secrets {
        self.secrets->Some_0
    }

    /// Well-formedness: a 64-byte node id, well-formed secrets whenever
    /// present, secrets present in every state past the key exchange, and
    /// an awaited body length that is a block multiple within bound.
    pub closed spec fn wf(self) -> bool {
        &&& self.node_id@.len() == 64
        &&& (self.secrets is Some ==> self.secrets->Some_0.wf())
        &&& (state_needs_secrets(self.rlpx_state) ==> self.secrets is Some)
        &&& match self.frame_state {
            FrameState::DecodingFrame(n) => n <= 65536 && n % 16 == 0,
            FrameState::DecodingHeader => true,
        }
    }

    /// The inbound half of the codec state, as the decode model sees it.
    pub closed spec fn ingress_model(self) -> IngressModel {
        IngressModel {
            key: self.secrets->Some_0.stream_key(),
            mk: self.secrets->Some_0.mac_key(),
            pos: self.secrets->Some_0.ingress_pos(),
            acc: self.secrets->Some_0.ingress_transcript(),
            awaiting: match self.frame_state {
                FrameState::DecodingHeader => None,
                FrameState::DecodingFrame(n) => Some(n as int),
            },
        }
    }

    /// Create a session. The auth request is built by the key-exchange
    /// provider; the node id is the local uncompressed public key with its
    /// format-prefix byte stripped.
    pub fn new(direction: Direction, node_id: Vec<u8>, auth_request: Vec<u8>) -> (s: Self)
        requires
            node_id@.len() == 64,
        ensures
            s.wf(),
            s.spec_state() == RlpxState::ExpectingConnection,
            s.spec_direction() == direction,
            s.spec_node_id() == node_id@,
            s.spec_auth_request() == auth_request@,
            s.spec_frame_state() == FrameState::DecodingHeader,
            !s.has_secrets(),
    {
        RLPx {
            rlpx_state: RlpxState::ExpectingConnection,
            direction,
            auth_request,
            node_id,
            frame_state: FrameState::DecodingHeader,
            secrets: None,
        }
    }

    /// The current protocol state.
    pub fn get_state(&self) -> (r: RlpxState)
        ensures
            r == self.spec_state(),
    {
        self.rlpx_state
    }

    /// Whether the key exchange has completed and the secrets are present.
    pub fn secrets_ready(&self) -> (r: bool)
        ensures
            r == self.has_secrets(),
    {
        matches!(self.secrets, Some(_))
    }

    /// Whether both key-stream counters are still far from their machine
    /// limit, so that another encode or decode call is in order. Trivially
    /// true while no secrets are installed.
    pub fn stream_in_budget(&self) -> (r: bool)
        requires
            self.wf(),
        ensures
            r == (self.has_secrets() ==> (self.secrets_of().egress_in_budget()
                && self.secrets_of().ingress_in_budget())),
    {
        match &self.secrets {
            Some(sec) => sec.in_budget(),
            None => true,
        }
    }

    /// Complete the key exchange: called when the provider's decrypt entry
    /// point succeeded on the inbound bytes, with the key material it
    /// derived and the number of input bytes it consumed. From `AuthSent`
    /// this installs the secrets, consumes exactly those bytes, and moves
    /// to `AuthAckReceived` — exactly once: in any other state nothing
    /// changes and the call is rejected.
    pub fn on_auth_ack(
        &mut self,
        consumed: usize,
        aes_secret: &[u8],
        mac_secret: &[u8],
        egress_seed: &[u8],
        ingress_seed: &[u8],
        src: &mut Vec<u8>,
    ) -> (r: DecodeOutcome)
        requires
            old(self).wf(),
            aes_secret@.len() == 32,
            mac_secret@.len() == 32,
            consumed <= old(src)@.len(),
        ensures
            final(self).wf(),
            final(self).spec_direction() == old(self).spec_direction(),
            final(self).spec_node_id() == old(self).spec_node_id(),
            final(self).spec_auth_request() == old(self).spec_auth_request(),
            if old(self).spec_state() == RlpxState::AuthSent {
                &&& r == DecodeOutcome::Event(RlpxMessage::AuthAck)
                &&& final(self).spec_state() == RlpxState::AuthAckReceived
                &&& final(self).has_secrets()
                &&& final(self).secrets_of().stream_key() == aes_secret@
                &&& final(self).secrets_of().mac_key() == mac_secret@
                &&& final(self).secrets_of().egress_pos() == 0
                &&& final(self).secrets_of().ingress_pos() == 0
                &&& final(self).secrets_of().egress_transcript() == egress_seed@
                &&& final(self).secrets_of().ingress_transcript() == ingress_seed@
                &&& final(self).spec_frame_state() == FrameState::DecodingHeader
                &&& final(src)@ == old(src)@.skip(consumed as int)
            } else {
                &&& r == DecodeOutcome::Fatal(FatalReason::InvalidState)
                &&& *final(self) == *old(self)
                &&& final(src)@ == old(src)@
            },
    {
        if !matches!(self.rlpx_state, RlpxState::AuthSent) {
            return DecodeOutcome::Fatal(FatalReason::InvalidState);
        }
        self.secrets = Some(Secrets::new(aes_secret, mac_secret, egress_seed, ingress_seed));
        self.rlpx_state = RlpxState::AuthAckReceived;
        self.frame_state = FrameState::DecodingHeader;
        drain_front(src, consumed);
        DecodeOutcome::Event(RlpxMessage::AuthAck)
    }

    /// Record that the key-exchange provider rejected the inbound bytes: a
    /// decryption failure is fatal, and the session disconnects.
    pub fn on_auth_failure(&mut self)
        requires
            old(self).wf(),
        ensures
            final(self).wf(),
            final(self).spec_state() == RlpxState::Disconnected,
            final(self).spec_direction() == old(self).spec_direction(),
            final(self).spec_node_id() == old(self).spec_node_id(),
            final(self).spec_auth_request() == old(self).spec_auth_request(),
    {
        self.rlpx_state = RlpxState::Disconnected;
    }

    /// Build this session's Hello message and frame it, advancing the
    /// outbound key stream and MAC accumulator.
    pub fn hello_msg(&mut self) -> (out: Vec<u8>)
        requires
            old(self).wf(),
            old(self).has_secrets(),
            old(self).secrets_of().egress_in_budget(),
        ensures
            final(self).wf(),
            out@ == frame_bytes(
                old(self).secrets_of().stream_key(),
                old(self).secrets_of().mac_key(),
                old(self).secrets_of().egress_pos(),
                old(self).secrets_of().egress_transcript(),
                hello_message(old(self).spec_node_id()),
            ),
            final(self).has_secrets(),
            final(self).secrets_of().stream_key() == old(self).secrets_of().stream_key(),
            final(self).secrets_of().mac_key() == old(self).secrets_of().mac_key(),
            final(self).secrets_of().egress_pos() == old(self).secrets_of().egress_pos() + 16
                + round_up16(hello_message(old(self).spec_node_id()).len() as int),
            final(self).secrets_of().egress_transcript() == transcript_after_frame(
                old(self).secrets_of().stream_key(),
                old(self).secrets_of().mac_key(),
                old(self).secrets_of().egress_pos(),
                old(self).secrets_of().egress_transcript(),
                hello_message(old(self).spec_node_id()),
            ),
            final(self).secrets_of().ingress_pos() == old(self).secrets_of().ingress_pos(),
            final(self).secrets_of().ingress_transcript() == old(
                self,
            ).secrets_of().ingress_transcript(),
            final(self).spec_state() == old(self).spec_state(),
            final(self).spec_direction() == old(self).spec_direction(),
            final(self).spec_node_id() == old(self).spec_node_id(),
            final(self).spec_auth_request() == old(self).spec_auth_request(),
            final(self).spec_frame_state() == old(self).spec_frame_state(),
    {
        let payload = hello_payload(self.node_id.as_slice());
        match &mut self.secrets {
            Some(sec) => sec.write_frame(payload.as_slice()),
            None => Vec::new(),
        }
    }

    /// Decode and authenticate one 32-byte header record against the
    /// inbound channel, returning the number of body-ciphertext bytes to
    /// read next. A MAC mismatch is an authentication failure.
    pub fn decode_frame_header(&mut self, data_in: &[u8]) -> (r: Result<usize, CodecError>)
        requires
            old(self).wf(),
            old(self).has_secrets(),
            old(self).secrets_of().ingress_in_budget(),
        ensures
            final(self).wf(),
            final(self).has_secrets(),
            final(self).spec_state() == old(self).spec_state(),
            final(self).spec_direction() == old(self).spec_direction(),
            final(self).spec_node_id() == old(self).spec_node_id(),
            final(self).spec_auth_request() == old(self).spec_auth_request(),
            final(self).spec_frame_state() == old(self).spec_frame_state(),
            final(self).secrets_of().stream_key() == old(self).secrets_of().stream_key(),
            final(self).secrets_of().mac_key() == old(self).secrets_of().mac_key(),
            final(self).secrets_of().egress_pos() == old(self).secrets_of().egress_pos(),
            final(self).secrets_of().egress_transcript() == old(
                self,
            ).secrets_of().egress_transcript(),
            ({
                let mk = old(self).secrets_of().mac_key();
                let acc = old(self).secrets_of().ingress_transcript();
                let key = old(self).secrets_of().stream_key();
                let pos = old(self).secrets_of().ingress_pos();
                if data_in@.len() < 32 {
                    &&& r == Err::<usize, CodecError>(CodecError::HeaderTooShort)
                    &&& *final(self) == *old(self)
                } else {
                    let hc = data_in@.take(16);
                    let received = data_in@.subrange(16, 32);
                    &&& final(self).secrets_of().ingress_transcript() == transcript_after_header(
                        mk,
                        acc,
                        hc,
                    )
                    &&& if received == header_mac_spec(mk, acc, hc) {
                        &&& r is Ok
                        &&& r->Ok_0 as int == round_up16(declared_len(ks_xor(key, pos, hc)))
                        &&& r->Ok_0 <= 65536
                        &&& r->Ok_0 as int % 16 == 0
                        &&& final(self).secrets_of().ingress_pos() == pos + 16
                    } else {
                        &&& r == Err::<usize, CodecError>(CodecError::HeaderMacMismatch)
                        &&& final(self).secrets_of().ingress_pos() == pos
                    }
                }
            }),
    {
        match &mut self.secrets {
            Some(sec) => sec.read_frame_header(data_in),
            None => Err(CodecError::HeaderTooShort),
        }
    }

    /// Decode and authenticate one body record (ciphertext plus trailing
    /// MAC) against the inbound channel, returning the padded plaintext.
    /// A MAC mismatch is an authentication failure and no decrypted byte
    /// is exposed.
    pub fn decode_frame_ciphertext(&mut self, data_in: &[u8]) -> (r: Result<Vec<u8>, CodecError>)
        requires
            old(self).wf(),
            old(self).has_secrets(),
            old(self).secrets_of().ingress_pos() + data_in@.len() < 0x1000000000000000,
        ensures
            final(self).wf(),
            final(self).has_secrets(),
            final(self).spec_state() == old(self).spec_state(),
            final(self).spec_direction() == old(self).spec_direction(),
            final(self).spec_node_id() == old(self).spec_node_id(),
            final(self).spec_auth_request() == old(self).spec_auth_request(),
            final(self).spec_frame_state() == old(self).spec_frame_state(),
            final(self).secrets_of().stream_key() == old(self).secrets_of().stream_key(),
            final(self).secrets_of().mac_key() == old(self).secrets_of().mac_key(),
            final(self).secrets_of().egress_pos() == old(self).secrets_of().egress_pos(),
            final(self).secrets_of().egress_transcript() == old(
                self,
            ).secrets_of().egress_transcript(),
            ({
                let mk = old(self).secrets_of().mac_key();
                let acc = old(self).secrets_of().ingress_transcript();
                let key = old(self).secrets_of().stream_key();
                let pos = old(self).secrets_of().ingress_pos();
                if data_in@.len() < 16 {
                    &&& r == Err::<Vec<u8>, CodecError>(CodecError::FrameTooShort)
                    &&& *final(self) == *old(self)
                } else {
                    let ct = data_in@.take(data_in@.len() - 16);
                    let received = data_in@.subrange(data_in@.len() - 16, data_in@.len() as int);
                    &&& final(self).secrets_of().ingress_transcript() == transcript_after_body(
                        mk,
                        acc,
                        ct,
                    )
                    &&& if received == body_mac_spec(mk, acc, ct) {
                        &&& r is Ok
                        &&& r->Ok_0@ == ks_xor(key, pos, ct)
                        &&& final(self).secrets_of().ingress_pos() == pos + ct.len()
                    } else {
                        &&& r == Err::<Vec<u8>, CodecError>(CodecError::FrameMacMismatch)
                        &&& final(self).secrets_of().ingress_pos() == pos
                    }
                }
            }),
    {
        match &mut self.secrets {
            Some(sec) => sec.read_frame_body(data_in),
            None => Err(CodecError::FrameTooShort),
        }
    }

    /// Decode at most one frame from the front of `src`: the header record
    /// if one is still awaited, continuing into the body record within the
    /// same call when enough bytes are present. Consumes exactly the bytes
    /// of the records it completed; reports `None` when more input is
    /// needed. The call's effect on the inbound channel is exactly one
    /// `step` of the decode model.
    fn decode_frame(&mut self, src: &mut Vec<u8>) -> (r: Result<Option<RlpxMessage>, CodecError>)
        requires
            old(self).wf(),
            old(self).has_secrets(),
            old(self).secrets_of().ingress_in_budget(),
        ensures
            final(self).wf(),
            final(self).has_secrets(),
            final(self).spec_state() == old(self).spec_state(),
            final(self).spec_direction() == old(self).spec_direction(),
            final(self).spec_node_id() == old(self).spec_node_id(),
            final(self).spec_auth_request() == old(self).spec_auth_request(),
            final(self).secrets_of().stream_key() == old(self).secrets_of().stream_key(),
            final(self).secrets_of().mac_key() == old(self).secrets_of().mac_key(),
            final(self).secrets_of().egress_pos() == old(self).secrets_of().egress_pos(),
            final(self).secrets_of().egress_transcript() == old(
                self,
            ).secrets_of().egress_transcript(),
            ({
                let s = step(old(self).ingress_model(), old(src)@);
                &&& final(self).ingress_model() == s.next
                &&& final(src)@ == old(src)@.skip(s.consumed)
                &&& (s.pending ==> r == Ok::<Option<RlpxMessage>, CodecError>(None))
                &&& (s.header_failed ==> r == Err::<Option<RlpxMessage>, CodecError>(
                    CodecError::HeaderMacMismatch,
                ))
                &&& (s.body_failed ==> r == Err::<Option<RlpxMessage>, CodecError>(
                    CodecError::FrameMacMismatch,
                ))
                &&& (!s.pending && !s.header_failed && !s.body_failed ==> match msg_id_of(
                    s.frame,
                ) {
                    Some(id) => r == Ok::<Option<RlpxMessage>, CodecError>(
                        Some(message_for_id(id)),
                    ),
                    None => r == Err::<Option<RlpxMessage>, CodecError>(
                        CodecError::InvalidMessageId,
                    ),
                })
            }),
    {
        let ghost m0 = self.ingress_model();
        let ghost input0 = src@;
        if matches!(self.frame_state, FrameState::DecodingHeader) {
            if src.len() >= 32 {
                let res = match &mut self.secrets {
                    Some(sec) => sec.read_frame_header(src.as_slice()),
                    None => Err(CodecError::HeaderTooShort),
                };
                match res {
                    Ok(n) => {
                        self.frame_state = FrameState::DecodingFrame(n);
                        drain_front(src, 32);
                    },
                    Err(e) => {
                        return Err(e);
                    },
                }
            } else {
                return Ok(None);
            }
        }
        let ghost m1 = self.ingress_model();
        let ghost input1 = src@;
        proof {
            if m0.awaiting is Some {
                assert(m1 == m0);
                assert(input1 == input0);
            } else {
                assert(input1 =~= input0.skip(32));
            }
        }
        let n = match self.frame_state {
            FrameState::DecodingFrame(k) => k,
            FrameState::DecodingHeader => {
                return Ok(None);
            },
        };
        if src.len() < n + 16 {
            return Ok(None);
        }
        let chunk = sub_bytes(src.as_slice(), 0, n + 16);
        proof {
            assert(chunk@.take(n as int) =~= input1.take(n as int));
            assert(chunk@.subrange(n as int, n + 16) =~= input1.subrange(n as int, n + 16));
        }
        let res = match &mut self.secrets {
            Some(sec) => sec.read_frame_body(chunk.as_slice()),
            None => Err(CodecError::FrameTooShort),
        };
        match res {
            Ok(pt) => {
                self.frame_state = FrameState::DecodingHeader;
                drain_front(src, n + 16);
                if pt.len() == 0 {
                    return Err(CodecError::InvalidMessageId);
                }
                let b0 = pt[0];
                if b0 < 128 {
                    if b0 == 0 {
                        Ok(Some(RlpxMessage::Hello))
                    } else {
                        Ok(Some(RlpxMessage::Unhandled(b0)))
                    }
                } else if b0 == 128 {
                    Ok(Some(RlpxMessage::Hello))
                } else if b0 == 129 && pt.len() >= 2 && pt[1] >= 128 {
                    Ok(Some(RlpxMessage::Unhandled(pt[1])))
                } else {
                    Err(CodecError::InvalidMessageId)
                }
            },
            Err(e) => Err(e),
        }
    }

    /// The streaming decode entry point: safely callable with however many
    /// bytes have arrived so far. Consumes exactly the bytes of the records
    /// it completes, reports `Pending` when more are needed, routes the
    /// decoded message by the current state, and treats every
    /// authentication failure or protocol violation as fatal, moving the
    /// session to `Disconnected`. In `AuthSent` the caller must first run
    /// the key-exchange provider and report through `on_auth_ack` or
    /// `on_auth_failure`. Once `Disconnected` (or not yet connected) every
    /// call fails fast without touching the codec state.
    pub fn decode(&mut self, src: &mut Vec<u8>) -> (r: DecodeOutcome)
        requires
            old(self).wf(),
            old(self).has_secrets() ==> old(self).secrets_of().ingress_in_budget(),
        ensures
            final(self).wf(),
            final(self).spec_direction() == old(self).spec_direction(),
            final(self).spec_node_id() == old(self).spec_node_id(),
            final(self).spec_auth_request() == old(self).spec_auth_request(),
            ({
                let st = old(self).spec_state();
                if old(src)@.len() == 0 {
                    &&& r == DecodeOutcome::Pending
                    &&& *final(self) == *old(self)
                    &&& final(src)@ == old(src)@
                } else if st == RlpxState::AuthSent {
                    &&& r == DecodeOutcome::AwaitingKeyExchange
                    &&& *final(self) == *old(self)
                    &&& final(src)@ == old(src)@
                } else if st == RlpxState::AuthAckReceived || st == RlpxState::Active {
                    let s = step(old(self).ingress_model(), old(src)@);
                    &&& final(self).has_secrets()
                    &&& final(self).ingress_model() == s.next
                    &&& final(src)@ == old(src)@.skip(s.consumed)
                    &&& final(self).secrets_of().stream_key() == old(
                        self,
                    ).secrets_of().stream_key()
                    &&& final(self).secrets_of().mac_key() == old(self).secrets_of().mac_key()
                    &&& final(self).secrets_of().egress_pos() == old(
                        self,
                    ).secrets_of().egress_pos()
                    &&& final(self).secrets_of().egress_transcript() == old(
                        self,
                    ).secrets_of().egress_transcript()
                    &&& if s.pending {
                        &&& r == DecodeOutcome::Pending
                        &&& final(self).spec_state() == st
                    } else if s.header_failed || s.body_failed {
                        &&& r == DecodeOutcome::Fatal(FatalReason::Authentication)
                        &&& final(self).spec_state() == RlpxState::Disconnected
                    } else {
                        match msg_id_of(s.frame) {
                            None => {
                                &&& r == DecodeOutcome::Fatal(FatalReason::MessageFormat)
                                &&& final(self).spec_state() == RlpxState::Disconnected
                            },
                            Some(id) => {
                                if st == RlpxState::AuthAckReceived {
                                    if id == 0 {
                                        &&& r == DecodeOutcome::Event(RlpxMessage::Hello)
                                        &&& final(self).spec_state() == RlpxState::Active
                                    } else {
                                        &&& r == DecodeOutcome::Fatal(
                                            FatalReason::ProtocolViolation,
                                        )
                                        &&& final(self).spec_state() == RlpxState::Disconnected
                                    }
                                } else {
                                    &&& r == DecodeOutcome::Event(message_for_id(id))
                                    &&& final(self).spec_state() == RlpxState::Active
                                }
                            },
                        }
                    }
                } else {
                    &&& r == DecodeOutcome::Fatal(FatalReason::InvalidState)
                    &&& *final(self) == *old(self)
                    &&& final(src)@ == old(src)@
                }
            }),
    {
        if src.len() == 0 {
            return DecodeOutcome::Pending;
        }
        match self.rlpx_state {
            RlpxState::AuthSent => DecodeOutcome::AwaitingKeyExchange,
            RlpxState::AuthAckReceived => {
                match self.decode_frame(src) {
                    Ok(Some(RlpxMessage::Hello)) => {
                        self.rlpx_state = RlpxState::Active;
                        DecodeOutcome::Event(RlpxMessage::Hello)
                    },
                    Ok(Some(_)) => {
                        self.rlpx_state = RlpxState::Disconnected;
                        DecodeOutcome::Fatal(FatalReason::ProtocolViolation)
                    },
                    Ok(None) => DecodeOutcome::Pending,
                    Err(CodecError::InvalidMessageId) => {
                        self.rlpx_state = RlpxState::Disconnected;
                        DecodeOutcome::Fatal(FatalReason::MessageFormat)
                    },
                    Err(_) => {
                        self.rlpx_state = RlpxState::Disconnected;
                        DecodeOutcome::Fatal(FatalReason::Authentication)
                    },
                }
            },
            RlpxState::Active => {
                match self.decode_frame(src) {
                    Ok(Some(msg)) => DecodeOutcome::Event(msg),
                    Ok(None) => DecodeOutcome::Pending,
                    Err(CodecError::InvalidMessageId) => {
                        self.rlpx_state = RlpxState::Disconnected;
                        DecodeOutcome::Fatal(FatalReason::MessageFormat)
                    },
                    Err(_) => {
                        self.rlpx_state = RlpxState::Disconnected;
                        DecodeOutcome::Fatal(FatalReason::Authentication)
                    },
                }
            },
            _ => DecodeOutcome::Fatal(FatalReason::InvalidState),
        }
    }

    /// Serialize one outbound message into `dst`. Requesting the auth
    /// message emits the pre-built auth request and moves to `AuthSent`;
    /// requesting a Hello appends a freshly framed Hello; every other
    /// message kind is unsupported by this core.
    pub fn encode(&mut self, item: RlpxMessage, dst: &mut Vec<u8>) -> (r: Result<(), EncodeError>)
        requires
            old(self).wf(),
            item == RlpxMessage::Hello ==> old(self).has_secrets() && old(
                self,
            ).secrets_of().egress_in_budget(),
        ensures
            final(self).wf(),
            final(self).spec_direction() == old(self).spec_direction(),
            final(self).spec_node_id() == old(self).spec_node_id(),
            final(self).spec_auth_request() == old(self).spec_auth_request(),
            if item == RlpxMessage::Auth {
                if old(self).spec_state() == RlpxState::ExpectingConnection {
                    &&& r == Ok::<(), EncodeError>(())
                    &&& final(dst)@ == old(self).spec_auth_request()
                    &&& final(self).spec_state() == RlpxState::AuthSent
                    &&& final(self).spec_frame_state() == old(self).spec_frame_state()
                    &&& final(self).has_secrets() == old(self).has_secrets()
                    &&& final(self).secrets_of() == old(self).secrets_of()
                } else {
                    &&& r == Err::<(), EncodeError>(EncodeError::InvalidState)
                    &&& *final(self) == *old(self)
                    &&& final(dst)@ == old(dst)@
                }
            } else if item == RlpxMessage::Hello {
                &&& r == Ok::<(), EncodeError>(())
                &&& final(dst)@ == old(dst)@ + frame_bytes(
                    old(self).secrets_of().stream_key(),
                    old(self).secrets_of().mac_key(),
                    old(self).secrets_of().egress_pos(),
                    old(self).secrets_of().egress_transcript(),
                    hello_message(old(self).spec_node_id()),
                )
                &&& final(self).spec_state() == old(self).spec_state()
                &&& final(self).spec_frame_state() == old(self).spec_frame_state()
                &&& final(self).has_secrets()
                &&& final(self).secrets_of().stream_key() == old(self).secrets_of().stream_key()
                &&& final(self).secrets_of().mac_key() == old(self).secrets_of().mac_key()
                &&& final(self).secrets_of().ingress_pos() == old(self).secrets_of().ingress_pos()
                &&& final(self).secrets_of().ingress_transcript() == old(
                    self,
                ).secrets_of().ingress_transcript()
                &&& final(self).secrets_of().egress_transcript() == transcript_after_frame(
                    old(self).secrets_of().stream_key(),
                    old(self).secrets_of().mac_key(),
                    old(self).secrets_of().egress_pos(),
                    old(self).secrets_of().egress_transcript(),
                    hello_message(old(self).spec_node_id()),
                )
            } else {
                &&& r == Err::<(), EncodeError>(EncodeError::Unsupported)
                &&& *final(self) == *old(self)
                &&& final(dst)@ == old(dst)@
            },
    {
        match item {
            RlpxMessage::Auth => {
                if !matches!(self.rlpx_state, RlpxState::ExpectingConnection) {
                    return Err(EncodeError::InvalidState);
                }
                dst.clear();
                crate::codec::append_bytes(dst, self.auth_request.as_slice());
                proof {
                    assert(dst@ =~= self.auth_request@);
                }
                self.rlpx_state = RlpxState::AuthSent;
                Ok(())
            }
            RlpxMessage::Hello => {
                let frame = self.hello_msg();
                crate::codec::append_bytes(dst, frame.as_slice());
                Ok(())
            }
            _ => Err(EncodeError::Unsupported),
        }
    }
}

/// Session round-trip law: a decode call on a frame encoded against the
/// same key, MAC-mixing key, key-stream position and transcript — peers in
/// lock step — delivers exactly the zero-padded body the encoder framed,
/// consumes exactly the frame's bytes (whatever follows them stays), and
/// leaves the inbound channel advanced just as the encoder's outbound
/// channel was.
pub proof fn lemma_step_round_trip(m: IngressModel, body: Seq<u8>, rest: Seq<u8>)
    requires
        m.awaiting is None,
        body.len() < 65536,
    ensures
        ({
            let f = frame_bytes(m.key, m.mk, m.pos, m.acc, body);
            let s = step(m, f + rest);
            &&& !s.pending
            &&& !s.header_failed
            &&& !s.body_failed
            &&& s.frame == crate::codec::pad16(body)
            &&& s.consumed == f.len()
            &&& s.next == (IngressModel {
                key: m.key,
                mk: m.mk,
                pos: m.pos + 16 + round_up16(body.len() as int),
                acc: transcript_after_frame(m.key, m.mk, m.pos, m.acc, body),
                awaiting: None,
            })
        }),
{
    crate::codec::lemma_frame_round_trip(m.key, m.mk, m.pos, m.acc, body);
    let f = frame_bytes(m.key, m.mk, m.pos, m.acc, body);
    let n = round_up16(body.len() as int);
    let input = f + rest;
    assert(input.take(16) =~= f.take(16));
    assert(input.subrange(16, 32) =~= f.subrange(16, 32));
    let hc = input.take(16);
    assert(input.subrange(16, 32) == header_mac_spec(m.mk, m.acc, hc));
    assert(round_up16(declared_len(ks_xor(m.key, m.pos, hc))) == n);
    let m1 = IngressModel {
        key: m.key,
        mk: m.mk,
        pos: m.pos + 16,
        acc: transcript_after_header(m.mk, m.acc, hc),
        awaiting: Some(n),
    };
    let binput = input.skip(32);
    assert(binput.take(n) =~= f.subrange(32, 32 + n));
    assert(binput.subrange(n, n + 16) =~= f.subrange(32 + n, f.len() as int));
    assert(binput.subrange(n, n + 16) == body_mac_spec(m.mk, m1.acc, binput.take(n)));
    let br = body_step(m1, binput);
    assert(br.frame == ks_xor(m.key, m1.pos, binput.take(n)));
    assert(br.frame == crate::codec::pad16(body));
    assert(step(m, input).consumed == 32 + n + 16);
    // The channel ends where the encoder's outbound channel ended: the
    // wire pieces are the very sequences the transcript specs are built of.
    assert(hc =~= ks_xor(m.key, m.pos, crate::codec::header_plain(body.len() as int)));
    assert(binput.take(n) =~= ks_xor(m.key, m.pos + 16, crate::codec::pad16(body)));
    assert(br.next.acc == transcript_after_frame(m.key, m.mk, m.pos, m.acc, body));
    assert(br.next == (IngressModel {
        key: m.key,
        mk: m.mk,
        pos: m.pos + 16 + n,
        acc: transcript_after_frame(m.key, m.mk, m.pos, m.acc, body),
        awaiting: None,
    }));
}

/// Partial-delivery law: if a decode call on a prefix of the input reports
/// "no event yet", then a second call on the leftover bytes plus the rest
/// of the input consumes, leaves behind, and reports exactly what one call
/// on the whole input would have. Applied repeatedly, feeding a byte stream
/// to decode in arbitrary chunk sizes yields the same eventual message and
/// the same codec state as feeding it all at once.
pub proof fn lemma_partial_delivery(m: IngressModel, bytes: Seq<u8>, cut: int)
    requires
        model_wf(m),
        0 <= cut <= bytes.len(),
        step(m, bytes.take(cut)).pending,
    ensures
        ({
            let first = step(m, bytes.take(cut));
            let rest = step(first.next, bytes.skip(first.consumed));
            let whole = step(m, bytes);
            &&& first.consumed + rest.consumed == whole.consumed
            &&& rest.next == whole.next
            &&& rest.pending == whole.pending
            &&& rest.header_failed == whole.header_failed
            &&& rest.body_failed == whole.body_failed
            &&& rest.frame == whole.frame
        }),
{
    let prefix = bytes.take(cut);
    let first = step(m, prefix);
    if m.awaiting is Some {
        // Body phase only: a pending call consumed nothing and changed
        // nothing, so the second call sees the whole input.
        assert(first.consumed == 0);
        assert(first.next == m);
        assert(bytes.skip(0) =~= bytes);
    } else {
        if prefix.len() < 32 {
            // Not even a header record: nothing consumed, nothing changed.
            assert(first.consumed == 0);
            assert(first.next == m);
            assert(bytes.skip(0) =~= bytes);
        } else {
            // The header record was completed; the prefix and the whole
            // input agree on it, so both runs advance to the same body
            // phase, and the first call stopped there.
            assert(prefix.take(16) =~= bytes.take(16));
            assert(prefix.subrange(16, 32) =~= bytes.subrange(16, 32));
            let hc = bytes.take(16);
            assert(prefix.subrange(16, 32) == header_mac_spec(m.mk, m.acc, hc));
            let n = round_up16(declared_len(ks_xor(m.key, m.pos, hc)));
            let m1 = IngressModel {
                key: m.key,
                mk: m.mk,
                pos: m.pos + 16,
                acc: transcript_after_header(m.mk, m.acc, hc),
                awaiting: Some(n),
            };
            let br = body_step(m1, prefix.skip(32));
            assert(br.pending);
            assert(first.consumed == 32);
            assert(first.next == m1);
            let whole_br = body_step(m1, bytes.skip(32));
            assert(step(m, bytes).consumed == 32 + whole_br.consumed);
            assert(step(first.next, bytes.skip(32)) == whole_br);
        }
    }
}

} // verus!
