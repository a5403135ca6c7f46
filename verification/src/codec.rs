//! The frame codec: transforms one logical message body into and from the
//! four-part wire frame (encrypted header, header MAC, encrypted padded
//! body, body MAC), advancing the directional key streams and running MAC
//! accumulators as it goes.

use vstd::prelude::*;

use crate::crypto::{
    aes_encrypt_block, keccak_digest, keystream_byte, ks_key, ks_pos, mac_absorbed,
    mac_cipher_key, KeyStream, MacAccumulator, MacCipher,
};

verus! {

/// Round a frame length up to the next 16-byte cipher-block boundary.
pub open spec fn round_up16(n: int) -> int {
    if n % 16 == 0 {
        n
    } else {
        n + (16 - n % 16)
    }
}

/// Executable counterpart of `round_up16`, for declared frame lengths.
pub fn pad_to_block(n: usize) -> (r: usize)
    requires
        n < 65536,
    ensures
        r == round_up16(n as int),
{
    let rem: usize = n % 16;
    if rem == 0 {
        n
    } else {
        n + (16 - rem)
    }
}

/// Pointwise XOR of two equally long byte sequences.
pub open spec fn seq_xor(a: Seq<u8>, b: Seq<u8>) -> Seq<u8> {
    Seq::new(a.len(), |i: int| a[i] ^ b[i])
}

/// `data` XORed against the key stream of `key` starting at offset `pos`.
pub open spec fn ks_xor(key: Seq<u8>, pos: int, data: Seq<u8>) -> Seq<u8> {
    Seq::new(data.len(), |i: int| data[i] ^ keystream_byte(key, pos + i))
}

/// The first 16 bytes of the running-MAC digest over `acc`.
pub open spec fn digest16(acc: Seq<u8>) -> Seq<u8> {
    keccak_digest(acc).take(16)
}

/// The one-time mask derived from the current digest with the MAC-mixing key.
pub open spec fn mac_mask(mk: Seq<u8>, acc: Seq<u8>) -> Seq<u8> {
    aes_encrypt_block(mk, digest16(acc))
}

/// The MAC transcript after folding in the seed for header ciphertext `hc`.
pub open spec fn transcript_after_header(mk: Seq<u8>, acc: Seq<u8>, hc: Seq<u8>) -> Seq<u8> {
    acc + seq_xor(mac_mask(mk, acc), hc)
}

/// The header MAC for header ciphertext `hc` against transcript `acc`.
pub open spec fn header_mac_spec(mk: Seq<u8>, acc: Seq<u8>, hc: Seq<u8>) -> Seq<u8> {
    digest16(transcript_after_header(mk, acc, hc))
}

/// The MAC transcript after folding in body ciphertext `ct` and its seed.
pub open spec fn transcript_after_body(mk: Seq<u8>, acc: Seq<u8>, ct: Seq<u8>) -> Seq<u8> {
    let a1 = acc + ct;
    a1 + seq_xor(mac_mask(mk, a1), digest16(a1))
}

/// The body MAC for body ciphertext `ct` against transcript `acc`.
pub open spec fn body_mac_spec(mk: Seq<u8>, acc: Seq<u8>, ct: Seq<u8>) -> Seq<u8> {
    digest16(transcript_after_body(mk, acc, ct))
}

/// The 16-byte plaintext header for a body of length `n`: a reserved zero
/// byte, the big-endian 16-bit length, and the fixed capability/context
/// placeholder bytes of the wire format.
pub open spec fn header_plain(n: int) -> Seq<u8> {
    seq![
        0u8,
        (n / 256) as u8,
        (n % 256) as u8,
        194u8,
        128u8,
        128u8,
        0u8,
        0u8,
        0u8,
        0u8,
        0u8,
        0u8,
        0u8,
        0u8,
        0u8,
        0u8,
    ]
}

/// The body length a decrypted header declares (bytes 1 and 2, big endian).
pub open spec fn declared_len(plain: Seq<u8>) -> int {
    plain[1] * 256 + plain[2]
}

/// The body zero-padded up to the next 16-byte boundary.
pub open spec fn pad16(body: Seq<u8>) -> Seq<u8> {
    body + Seq::new((round_up16(body.len() as int) - body.len()) as nat, |i: int| 0u8)
}

/// The egress MAC transcript after one whole frame for `body` is written.
pub open spec fn transcript_after_frame(
    key: Seq<u8>,
    mk: Seq<u8>,
    pos: int,
    acc: Seq<u8>,
    body: Seq<u8>,
) -> Seq<u8> {
    let hc = ks_xor(key, pos, header_plain(body.len() as int));
    transcript_after_body(mk, transcript_after_header(mk, acc, hc), ks_xor(key, pos + 16, pad16(body)))
}

/// The complete wire frame for `body`: encrypted header, header MAC,
/// encrypted padded body, body MAC.
pub open spec fn frame_bytes(
    key: Seq<u8>,
    mk: Seq<u8>,
    pos: int,
    acc: Seq<u8>,
    body: Seq<u8>,
) -> Seq<u8> {
    let hc = ks_xor(key, pos, header_plain(body.len() as int));
    let hm = header_mac_spec(mk, acc, hc);
    let acc1 = transcript_after_header(mk, acc, hc);
    let ct = ks_xor(key, pos + 16, pad16(body));
    let fm = body_mac_spec(mk, acc1, ct);
    hc + hm + ct + fm
}

/// A frame-codec failure. MAC mismatches are authentication failures and
/// are fatal for the session; the too-short variants mirror calls made with
/// less input than one record needs.
#[derive(Clone, Copy, Debug, PartialEq, Eq, Structural)]
pub enum CodecError {
    HeaderTooShort,
    HeaderMacMismatch,
    FrameTooShort,
    FrameMacMismatch,
    InvalidMessageId,
}

/// Append every byte of `src` to `dst`.
pub fn append_bytes(dst: &mut Vec<u8>, src: &[u8])
    ensures
        final(dst)@ == old(dst)@ + src@,
{
    let n = src.len();
    for i in 0..n
        invariant
            n == src@.len(),
            dst@ == old(dst)@ + src@.take(i as int),
    {
        dst.push(src[i]);
        proof {
            assert(src@.take(i + 1) =~= src@.take(i as int).push(src@[i as int]));
        }
    }
    proof {
        assert(src@.take(n as int) =~= src@);
    }
}

/// Copy the byte range `[start, end)` of `src` into a fresh vector.
pub fn sub_bytes(src: &[u8], start: usize, end: usize) -> (r: Vec<u8>)
    requires
        start <= end <= src@.len(),
    ensures
        r@ == src@.subrange(start as int, end as int),
{
    let mut r: Vec<u8> = Vec::new();
    for i in start..end
        invariant
            start <= i <= end <= src@.len(),
            r@ == src@.subrange(start as int, i as int),
    {
        r.push(src[i]);
        proof {
            assert(src@.subrange(start as int, i + 1) =~= src@.subrange(
                start as int,
                i as int,
            ).push(src@[i as int]));
        }
    }
    r
}

/// Pointwise XOR of two 16-byte buffers.
fn xor16(a: &[u8], b: &[u8]) -> (r: Vec<u8>)
    requires
        a@.len() == 16,
        b@.len() == 16,
    ensures
        r@ == seq_xor(a@, b@),
{
    let mut r: Vec<u8> = Vec::new();
    for i in 0..16usize
        invariant
            a@.len() == 16,
            b@.len() == 16,
            r@ == seq_xor(a@, b@).take(i as int),
    {
        r.push(a[i] ^ b[i]);
        proof {
            assert(seq_xor(a@, b@).take(i + 1) =~= seq_xor(a@, b@).take(i as int).push(
                seq_xor(a@, b@)[i as int],
            ));
        }
    }
    proof {
        assert(seq_xor(a@, b@).take(16) =~= seq_xor(a@, b@));
    }
    r
}

/// Byte-for-byte equality of two buffers.
pub fn bytes_eq(a: &[u8], b: &[u8]) -> (r: bool)
    ensures
        r == (a@ == b@),
{
    if a.len() != b.len() {
        proof {
            assert(a@ != b@);
        }
        return false;
    }
    let n = a.len();
    for i in 0..n
        invariant
            n == a@.len() == b@.len(),
            forall|j: int| 0 <= j < i ==> a@[j] == b@[j],
    {
        if a[i] != b[i] {
            return false;
        }
    }
    proof {
        assert(a@ =~= b@);
    }
    true
}

/// The session's symmetric secrets: one key-stream generator and one
/// running-MAC accumulator per direction, and the shared MAC-mixing cipher.
/// Owned exclusively by one session; never reset or reused.
pub struct Secrets {
    egress_ks: KeyStream,
    ingress_ks: KeyStream,
    egress_mac: MacAccumulator,
    ingress_mac: MacAccumulator,
    mac_cipher: MacCipher,
    egress_used: u64,
    ingress_used: u64,
}

impl Secrets {
    /// The AES key both directional key streams are keyed with.
    pub closed spec fn stream_key(self) -> Seq<u8> {
        ks_key(self.egress_ks)
    }

    /// The MAC-mixing key.
    pub closed spec fn mac_key(self) -> Seq<u8> {
        mac_cipher_key(self.mac_cipher)
    }

    /// How many key-stream bytes the outbound direction has consumed.
    pub closed spec fn egress_pos(self) -> int {
        ks_pos(self.egress_ks)
    }

    /// How many key-stream bytes the inbound direction has consumed.
    pub closed spec fn ingress_pos(self) -> int {
        ks_pos(self.ingress_ks)
    }

    /// Everything the outbound MAC accumulator has absorbed.
    pub closed spec fn egress_transcript(self) -> Seq<u8> {
        mac_absorbed(self.egress_mac)
    }

    /// Everything the inbound MAC accumulator has absorbed.
    pub closed spec fn ingress_transcript(self) -> Seq<u8> {
        mac_absorbed(self.ingress_mac)
    }

    /// Well-formedness: 256-bit keys, both directions keyed alike, and the
    /// byte counters in step with the key streams.
    pub closed spec fn wf(self) -> bool {
        &&& ks_key(self.egress_ks).len() == 32
        &&& ks_key(self.ingress_ks) == ks_key(self.egress_ks)
        &&& mac_cipher_key(self.mac_cipher).len() == 32
        &&& self.egress_used as int == ks_pos(self.egress_ks)
        &&& self.ingress_used as int == ks_pos(self.ingress_ks)
    }

    /// Room left before the outbound key-stream counter nears its machine
    /// limit; one more frame always fits while this holds.
    pub open spec fn egress_in_budget(self) -> bool {
        self.egress_pos() + 0x20010 < 0x1000000000000000
    }

    /// Room left before the inbound key-stream counter nears its machine
    /// limit; one more frame always fits while this holds.
    pub open spec fn ingress_in_budget(self) -> bool {
        self.ingress_pos() + 0x20010 < 0x1000000000000000
    }

    /// Executable check of both budgets, for callers outside the proof.
    pub fn in_budget(&self) -> (r: bool)
        requires
            self.wf(),
        ensures
            r == (self.egress_in_budget() && self.ingress_in_budget()),
    {
        self.egress_used < 0x0FFFFFFFFFFDFFF0 && self.ingress_used < 0x0FFFFFFFFFFDFFF0
    }

    /// Build the secrets bundle from the key material the key exchange
    /// derived: the shared AES secret, the MAC-mixing secret, and the bytes
    /// each running MAC starts out having absorbed.
    pub fn new(
        aes_secret: &[u8],
        mac_secret: &[u8],
        egress_seed: &[u8],
        ingress_seed: &[u8],
    ) -> (s: Self)
        requires
            aes_secret@.len() == 32,
            mac_secret@.len() == 32,
        ensures
            s.wf(),
            s.stream_key() == aes_secret@,
            s.mac_key() == mac_secret@,
            s.egress_pos() == 0,
            s.ingress_pos() == 0,
            s.egress_transcript() == egress_seed@,
            s.ingress_transcript() == ingress_seed@,
    {
        let mut egress_mac = MacAccumulator::new();
        egress_mac.update(egress_seed);
        let mut ingress_mac = MacAccumulator::new();
        ingress_mac.update(ingress_seed);
        proof {
            assert(Seq::<u8>::empty() + egress_seed@ =~= egress_seed@);
            assert(Seq::<u8>::empty() + ingress_seed@ =~= ingress_seed@);
        }
        Secrets {
            egress_ks: KeyStream::new(aes_secret),
            ingress_ks: KeyStream::new(aes_secret),
            egress_mac,
            ingress_mac,
            mac_cipher: MacCipher::new(mac_secret),
            egress_used: 0,
            ingress_used: 0,
        }
    }

    /// Encode one message body as a wire frame, advancing the outbound key
    /// stream and MAC accumulator. The 16-bit length field of the wire
    /// format caps a body at 65535 bytes.
    pub fn write_frame(&mut self, body: &[u8]) -> (out: Vec<u8>)
        requires
            old(self).wf(),
            old(self).egress_in_budget(),
            body@.len() < 65536,
        ensures
            final(self).wf(),
            out@ == frame_bytes(
                old(self).stream_key(),
                old(self).mac_key(),
                old(self).egress_pos(),
                old(self).egress_transcript(),
                body@,
            ),
            final(self).stream_key() == old(self).stream_key(),
            final(self).mac_key() == old(self).mac_key(),
            final(self).egress_pos() == old(self).egress_pos() + 16 + round_up16(
                body@.len() as int,
            ),
            final(self).egress_transcript() == transcript_after_frame(
                old(self).stream_key(),
                old(self).mac_key(),
                old(self).egress_pos(),
                old(self).egress_transcript(),
                body@,
            ),
            final(self).ingress_pos() == old(self).ingress_pos(),
            final(self).ingress_transcript() == old(self).ingress_transcript(),
    {
        let ghost key = self.stream_key();
        let ghost mk = self.mac_key();
        let ghost pos = self.egress_pos();
        let ghost acc = self.egress_transcript();
        let n = body.len();
        let padlen = pad_to_block(n);

        // Header plaintext: reserved zero, 16-bit length, fixed placeholder.
        let mut header: Vec<u8> = Vec::new();
        header.push(0u8);
        header.push((n / 256) as u8);
        header.push((n % 256) as u8);
        header.push(194u8);
        header.push(128u8);
        header.push(128u8);
        for _i in 0..10usize
            invariant
                header@.len() == 6 + _i,
                header@ == header_plain(n as int).take(6 + _i as int),
        {
            header.push(0u8);
            proof {
                assert(header_plain(n as int).take(6 + _i + 1) =~= header_plain(
                    n as int,
                ).take(6 + _i as int).push(0u8));
            }
        }
        proof {
            assert(header@ =~= header_plain(n as int));
        }

        // Encrypt the header in place with the outbound key stream.
        self.egress_ks.apply(&mut header);
        proof {
            assert(header@ =~= ks_xor(key, pos, header_plain(n as int)));
        }
        let ghost hc = header@;

        // Header MAC: mask the digest, fold the seed, take the new digest.
        let d0 = self.egress_mac.digest();
        let d0_16 = sub_bytes(d0.as_slice(), 0, 16);
        proof {
            assert(d0_16@ =~= digest16(acc));
        }
        let mask = self.mac_cipher.encrypt(d0_16.as_slice());
        let seed = xor16(mask.as_slice(), header.as_slice());
        self.egress_mac.update(seed.as_slice());
        proof {
            assert(self.egress_transcript() =~= transcript_after_header(mk, acc, hc));
        }
        let ghost acc1 = self.egress_transcript();
        let hm_full = self.egress_mac.digest();
        let header_mac = sub_bytes(hm_full.as_slice(), 0, 16);
        proof {
            assert(header_mac@ =~= header_mac_spec(mk, acc, hc));
        }

        // Zero-pad the body to the block boundary and encrypt it, continuing
        // the same key stream the header used.
        let mut padded: Vec<u8> = Vec::new();
        append_bytes(&mut padded, body);
        while padded.len() < padlen
            invariant
                body@.len() <= padded@.len() <= padlen,
                padlen == round_up16(body@.len() as int),
                padded@ == pad16(body@).take(padded@.len() as int),
            decreases padlen - padded.len(),
        {
            let ghost l = padded@.len() as int;
            padded.push(0u8);
            proof {
                assert(pad16(body@).take(l + 1) =~= pad16(body@).take(l).push(0u8));
            }
        }
        proof {
            assert(pad16(body@).len() == padlen);
            assert(padded@ =~= pad16(body@));
        }
        self.egress_ks.apply(&mut padded);
        proof {
            assert(padded@ =~= ks_xor(key, pos + 16, pad16(body@)));
        }
        let ghost ct = padded@;

        // Body MAC: fold the ciphertext, mask the digest, fold the seed.
        self.egress_mac.update(padded.as_slice());
        let d1 = self.egress_mac.digest();
        let d1_16 = sub_bytes(d1.as_slice(), 0, 16);
        proof {
            assert(d1_16@ =~= digest16(acc1 + ct));
        }
        let mask2 = self.mac_cipher.encrypt(d1_16.as_slice());
        let seed2 = xor16(mask2.as_slice(), d1_16.as_slice());
        self.egress_mac.update(seed2.as_slice());
        proof {
            assert(self.egress_transcript() =~= transcript_after_body(mk, acc1, ct));
        }
        let fm_full = self.egress_mac.digest();
        let frame_mac = sub_bytes(fm_full.as_slice(), 0, 16);
        proof {
            assert(frame_mac@ =~= body_mac_spec(mk, acc1, ct));
        }

        self.egress_used = self.egress_used + 16 + (padlen as u64);

        let mut out: Vec<u8> = Vec::new();
        append_bytes(&mut out, header.as_slice());
        append_bytes(&mut out, header_mac.as_slice());
        append_bytes(&mut out, padded.as_slice());
        append_bytes(&mut out, frame_mac.as_slice());
        proof {
            assert(out@ =~= frame_bytes(key, mk, pos, acc, body@));
        }
        out
    }

    /// Decode and authenticate one 32-byte header record (16 bytes of
    /// ciphertext, 16 bytes of MAC), advancing the inbound MAC accumulator
    /// and, on success, the inbound key stream. On success the result is the
    /// number of ciphertext bytes of the body still to read, the declared
    /// length rounded up to the block boundary. A MAC mismatch is an
    /// authentication failure: fatal, and no decrypted byte is exposed.
    pub fn read_frame_header(&mut self, data: &[u8]) -> (r: Result<usize, CodecError>)
        requires
            old(self).wf(),
            old(self).ingress_in_budget(),
        ensures
            final(self).wf(),
            final(self).stream_key() == old(self).stream_key(),
            final(self).mac_key() == old(self).mac_key(),
            final(self).egress_pos() == old(self).egress_pos(),
            final(self).egress_transcript() == old(self).egress_transcript(),
            ({
                let mk = old(self).mac_key();
                let acc = old(self).ingress_transcript();
                let key = old(self).stream_key();
                let pos = old(self).ingress_pos();
                if data@.len() < 32 {
                    &&& r == Err::<usize, CodecError>(CodecError::HeaderTooShort)
                    &&& *final(self) == *old(self)
                } else {
                    let hc = data@.take(16);
                    let received = data@.subrange(16, 32);
                    &&& final(self).ingress_transcript() == transcript_after_header(mk, acc, hc)
                    &&& if received == header_mac_spec(mk, acc, hc) {
                        &&& r is Ok
                        &&& r->Ok_0 as int == round_up16(declared_len(ks_xor(key, pos, hc)))
                        &&& r->Ok_0 <= 65536
                        &&& r->Ok_0 as int % 16 == 0
                        &&& final(self).ingress_pos() == pos + 16
                    } else {
                        &&& r == Err::<usize, CodecError>(CodecError::HeaderMacMismatch)
                        &&& final(self).ingress_pos() == pos
                    }
                }
            }),
    {
        if data.len() < 32 {
            return Err(CodecError::HeaderTooShort);
        }
        let ghost mk = self.mac_key();
        let ghost acc = self.ingress_transcript();
        let ghost key = self.stream_key();
        let ghost pos = self.ingress_pos();
        let mut hc = sub_bytes(data, 0, 16);
        let received = sub_bytes(data, 16, 32);

        // Recompute the expected header MAC from the still-encrypted header
        // and the current inbound digest.
        let d0 = self.ingress_mac.digest();
        let d0_16 = sub_bytes(d0.as_slice(), 0, 16);
        proof {
            assert(d0_16@ =~= digest16(acc));
        }
        let mask = self.mac_cipher.encrypt(d0_16.as_slice());
        let seed = xor16(mask.as_slice(), hc.as_slice());
        self.ingress_mac.update(seed.as_slice());
        proof {
            assert(self.ingress_transcript() =~= transcript_after_header(mk, acc, data@.take(16)));
        }
        let computed_full = self.ingress_mac.digest();
        let computed = sub_bytes(computed_full.as_slice(), 0, 16);
        proof {
            assert(computed@ =~= header_mac_spec(mk, acc, data@.take(16)));
        }
        if !bytes_eq(computed.as_slice(), received.as_slice()) {
            return Err(CodecError::HeaderMacMismatch);
        }

        // Authenticated: decrypt the header and read the length field.
        self.ingress_ks.apply(&mut hc);
        proof {
            assert(hc@ =~= ks_xor(key, pos, data@.take(16)));
        }
        let declared: usize = (hc[1] as usize) * 256 + (hc[2] as usize);
        let ciphertext_len = pad_to_block(declared);
        self.ingress_used = self.ingress_used + 16;
        Ok(ciphertext_len)
    }

    /// Decode and authenticate one body record: the frame ciphertext
    /// followed by its 16-byte MAC. The ciphertext is folded into the
    /// inbound MAC accumulator, the MAC verified, and only then is the
    /// plaintext (still zero-padded to the boundary) decrypted and returned.
    /// A MAC mismatch is an authentication failure: fatal, and no decrypted
    /// byte is exposed.
    pub fn read_frame_body(&mut self, data: &[u8]) -> (r: Result<Vec<u8>, CodecError>)
        requires
            old(self).wf(),
            old(self).ingress_pos() + data@.len() < 0x1000000000000000,
        ensures
            final(self).wf(),
            final(self).stream_key() == old(self).stream_key(),
            final(self).mac_key() == old(self).mac_key(),
            final(self).egress_pos() == old(self).egress_pos(),
            final(self).egress_transcript() == old(self).egress_transcript(),
            ({
                let mk = old(self).mac_key();
                let acc = old(self).ingress_transcript();
                let key = old(self).stream_key();
                let pos = old(self).ingress_pos();
                if data@.len() < 16 {
                    &&& r == Err::<Vec<u8>, CodecError>(CodecError::FrameTooShort)
                    &&& *final(self) == *old(self)
                } else {
                    let ct = data@.take(data@.len() - 16);
                    let received = data@.subrange(data@.len() - 16, data@.len() as int);
                    &&& final(self).ingress_transcript() == transcript_after_body(mk, acc, ct)
                    &&& if received == body_mac_spec(mk, acc, ct) {
                        &&& r is Ok
                        &&& r->Ok_0@ == ks_xor(key, pos, ct)
                        &&& final(self).ingress_pos() == pos + ct.len()
                    } else {
                        &&& r == Err::<Vec<u8>, CodecError>(CodecError::FrameMacMismatch)
                        &&& final(self).ingress_pos() == pos
                    }
                }
            }),
    {
        if data.len() < 16 {
            return Err(CodecError::FrameTooShort);
        }
        let ghost mk = self.mac_key();
        let ghost acc = self.ingress_transcript();
        let ghost key = self.stream_key();
        let ghost pos = self.ingress_pos();
        let ct_len = data.len() - 16;
        let mut ct = sub_bytes(data, 0, ct_len);
        let received = sub_bytes(data, ct_len, data.len());
        proof {
            assert(ct@ =~= data@.take(data@.len() - 16));
        }

        // Fold the ciphertext in, derive the seed, fold it in, then verify.
        self.ingress_mac.update(ct.as_slice());
        let d1 = self.ingress_mac.digest();
        let d1_16 = sub_bytes(d1.as_slice(), 0, 16);
        proof {
            assert(d1_16@ =~= digest16(acc + ct@));
        }
        let mask = self.mac_cipher.encrypt(d1_16.as_slice());
        let seed = xor16(mask.as_slice(), d1_16.as_slice());
        self.ingress_mac.update(seed.as_slice());
        proof {
            assert(self.ingress_transcript() =~= transcript_after_body(mk, acc, ct@));
        }
        let computed_full = self.ingress_mac.digest();
        let computed = sub_bytes(computed_full.as_slice(), 0, 16);
        if !bytes_eq(computed.as_slice(), received.as_slice()) {
            return Err(CodecError::FrameMacMismatch);
        }

        // Authenticated: decrypt and hand the padded plaintext back.
        self.ingress_ks.apply(&mut ct);
        proof {
            assert(ct@ =~= ks_xor(key, pos, data@.take(data@.len() - 16)));
        }
        self.ingress_used = self.ingress_used + (ct_len as u64);
        Ok(ct)
    }

    /// The current outbound running-MAC digest.
    pub fn egress_mac_digest(&self) -> (r: Vec<u8>)
        ensures
            r@ == keccak_digest(self.egress_transcript()),
            r@.len() == 32,
    {
        self.egress_mac.digest()
    }

    /// The current inbound running-MAC digest.
    pub fn ingress_mac_digest(&self) -> (r: Vec<u8>)
        ensures
            r@ == keccak_digest(self.ingress_transcript()),
            r@.len() == 32,
    {
        self.ingress_mac.digest()
    }
}

/// XORing against the same key-stream range twice gives the input back.
pub proof fn lemma_ks_xor_involution(key: Seq<u8>, pos: int, data: Seq<u8>)
    ensures
        ks_xor(key, pos, ks_xor(key, pos, data)) == data,
{
    let once = ks_xor(key, pos, data);
    assert forall|i: int| 0 <= i < data.len() implies ks_xor(key, pos, once)[i] == data[i] by {
        let d = data[i];
        let k = keystream_byte(key, pos + i);
        assert(((d ^ k) ^ k) == d) by (bit_vector);
    }
    assert(ks_xor(key, pos, once) =~= data);
}

/// Round-trip law: a frame encoded against some key-stream position and MAC
/// transcript decodes, against the same position and transcript, back to the
/// body it was built from. The header MAC and body MAC found on the wire are
/// exactly the ones the decoder recomputes; the decrypted header declares
/// the body's true length; and the decrypted body is the encoded body
/// followed by its zero padding.
pub proof fn lemma_frame_round_trip(
    key: Seq<u8>,
    mk: Seq<u8>,
    pos: int,
    acc: Seq<u8>,
    body: Seq<u8>,
)
    requires
        body.len() < 65536,
    ensures
        ({
            let f = frame_bytes(key, mk, pos, acc, body);
            let n = round_up16(body.len() as int);
            &&& f.len() == 48 + n
            &&& f.subrange(16, 32) == header_mac_spec(mk, acc, f.take(16))
            &&& ks_xor(key, pos, f.take(16)) == header_plain(body.len() as int)
            &&& declared_len(header_plain(body.len() as int)) == body.len()
            &&& round_up16(declared_len(header_plain(body.len() as int))) == n
            &&& f.subrange(32, 32 + n) == ks_xor(key, pos + 16, pad16(body))
            &&& f.subrange(32 + n, f.len() as int) == body_mac_spec(
                mk,
                transcript_after_header(mk, acc, f.take(16)),
                f.subrange(32, 32 + n),
            )
            &&& ks_xor(key, pos + 16, f.subrange(32, 32 + n)) == pad16(body)
            &&& pad16(body).take(body.len() as int) == body
        }),
{
    let f = frame_bytes(key, mk, pos, acc, body);
    let blen = body.len() as int;
    let n = round_up16(blen);
    let hc = ks_xor(key, pos, header_plain(blen));
    let hm = header_mac_spec(mk, acc, hc);
    let acc1 = transcript_after_header(mk, acc, hc);
    let ct = ks_xor(key, pos + 16, pad16(body));
    let fm = body_mac_spec(mk, acc1, ct);
    assert(pad16(body).len() == n);
    assert(f.take(16) =~= hc);
    assert(f.subrange(16, 32) =~= hm);
    assert(f.subrange(32, 32 + n) =~= ct);
    assert(f.subrange(32 + n, f.len() as int) =~= fm);
    lemma_ks_xor_involution(key, pos, header_plain(blen));
    lemma_ks_xor_involution(key, pos + 16, pad16(body));
    let hp = header_plain(blen);
    assert(hp[1] == (blen / 256) as u8);
    assert(hp[2] == (blen % 256) as u8);
    assert(0 <= blen / 256 < 256);
    assert(declared_len(hp) == (blen / 256) * 256 + blen % 256);
    assert((blen / 256) * 256 + blen % 256 == blen);
    assert(pad16(body).take(blen) =~= body);
}

/// Tamper-detection law for the header-MAC field: any change to the 16 MAC
/// bytes that accompany an honestly encoded header is caught, because the
/// MAC the decoder recomputes from the unchanged ciphertext and transcript
/// is the one that was sent.
pub proof fn lemma_header_mac_tamper_detected(
    key: Seq<u8>,
    mk: Seq<u8>,
    pos: int,
    acc: Seq<u8>,
    body: Seq<u8>,
    t: Seq<u8>,
)
    requires
        body.len() < 65536,
        t.take(16) == frame_bytes(key, mk, pos, acc, body).take(16),
        t.subrange(16, 32) != frame_bytes(key, mk, pos, acc, body).subrange(16, 32),
    ensures
        t.subrange(16, 32) != header_mac_spec(mk, acc, t.take(16)),
{
    lemma_frame_round_trip(key, mk, pos, acc, body);
}

/// Tamper-detection law for the body-MAC field: any change to the trailing
/// 16 MAC bytes of an honestly encoded frame is caught, provided header and
/// ciphertext arrived unchanged.
pub proof fn lemma_body_mac_tamper_detected(
    key: Seq<u8>,
    mk: Seq<u8>,
    pos: int,
    acc: Seq<u8>,
    body: Seq<u8>,
    t: Seq<u8>,
)
    requires
        body.len() < 65536,
        ({
            let f = frame_bytes(key, mk, pos, acc, body);
            let n = round_up16(body.len() as int);
            &&& t.len() == f.len()
            &&& t.take(16) == f.take(16)
            &&& t.subrange(32, 32 + n) == f.subrange(32, 32 + n)
            &&& t.subrange(32 + n, t.len() as int) != f.subrange(32 + n, f.len() as int)
        }),
    ensures
        ({
            let f = frame_bytes(key, mk, pos, acc, body);
            let n = round_up16(body.len() as int);
            t.subrange(32 + n, t.len() as int) != body_mac_spec(
                mk,
                transcript_after_header(mk, acc, t.take(16)),
                t.subrange(32, 32 + n),
            )
        }),
{
    lemma_frame_round_trip(key, mk, pos, acc, body);
}

/// Accumulator-monotonicity law: writing a frame only ever extends the
/// outbound MAC transcript — the transcript after a frame is strictly
/// longer, and what was absorbed before stays as its prefix. The
/// accumulator is never reset, so each frame's MAC is bound to the whole
/// history of the direction. (That the digests of the growing transcripts
/// also differ pairwise is a property of the hash itself, outside this
/// model.)
pub proof fn lemma_transcript_monotonic(
    key: Seq<u8>,
    mk: Seq<u8>,
    pos: int,
    acc: Seq<u8>,
    body: Seq<u8>,
)
    requires
        body.len() < 65536,
    ensures
        ({
            let after = transcript_after_frame(key, mk, pos, acc, body);
            &&& after.len() == acc.len() + 32 + round_up16(body.len() as int)
            &&& after.take(acc.len() as int) == acc
        }),
{
    let hc = ks_xor(key, pos, header_plain(body.len() as int));
    let ct = ks_xor(key, pos + 16, pad16(body));
    let acc1 = transcript_after_header(mk, acc, hc);
    let after = transcript_after_frame(key, mk, pos, acc, body);
    assert(pad16(body).len() == round_up16(body.len() as int));
    assert(after.take(acc.len() as int) =~= acc);
}

} // verus!
