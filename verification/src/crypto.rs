//! Trusted boundary around the stream cipher, the running hash, and the
//! block cipher that the frame codec uses. Everything else in the crate is
//! verified against the contracts stated here.

use vstd::prelude::*;

use aes::cipher::generic_array::GenericArray;
use aes::cipher::{BlockEncrypt, KeyInit, KeyIvInit, StreamCipher};
use sha3::Digest;

verus! {

/// The byte at offset `pos` of the AES-256-CTR key stream keyed by `key`
/// (64-bit big-endian counter, all-zero initialisation vector).
pub uninterp spec fn keystream_byte(key: Seq<u8>, pos: int) -> u8;

/// Byte `i` of the Keccak-256 digest of `absorbed`.
pub uninterp spec fn keccak_byte(absorbed: Seq<u8>, i: int) -> u8;

/// The Keccak-256 digest of everything absorbed so far: 32 bytes, a
/// function of the absorbed bytes alone.
pub open spec fn keccak_digest(absorbed: Seq<u8>) -> Seq<u8> {
    Seq::new(32, |i: int| keccak_byte(absorbed, i))
}

/// Byte `i` of one AES-256 block encryption of `block` under `key`.
pub uninterp spec fn aes_block_byte(key: Seq<u8>, block: Seq<u8>, i: int) -> u8;

/// One AES-256 block encryption of `block` under `key`: 16 bytes, a
/// function of key and block alone.
pub open spec fn aes_encrypt_block(key: Seq<u8>, block: Seq<u8>) -> Seq<u8> {
    Seq::new(16, |i: int| aes_block_byte(key, block, i))
}

/// The key a `KeyStream` was created with.
pub uninterp spec fn ks_key(s: KeyStream) -> Seq<u8>;

/// How many key-stream bytes a `KeyStream` has produced so far.
pub uninterp spec fn ks_pos(s: KeyStream) -> int;

/// The bytes a `MacAccumulator` has absorbed since its creation.
pub uninterp spec fn mac_absorbed(m: MacAccumulator) -> Seq<u8>;

/// The key a `MacCipher` was created with.
pub uninterp spec fn mac_cipher_key(c: MacCipher) -> Seq<u8>;

/// A directional key-stream generator: AES-256 in CTR mode, advancing once
/// per byte it transforms and never rewound.
#[verifier::external_body]
pub struct KeyStream {
    inner: ctr::Ctr64BE<aes::Aes256>,
}

impl KeyStream {
    /// Relies on `ctr::Ctr64BE::<aes::Aes256>::new`: a fresh cipher at
    /// position zero, with an all-zero initialisation vector.
    #[verifier::external_body]
    pub fn new(key: &[u8]) -> (s: Self)
        requires
            key@.len() == 32,
        ensures
            ks_key(s) == key@,
            ks_pos(s) == 0,
    {
        let iv = [0u8; 16];
        KeyStream {
            inner: ctr::Ctr64BE::<aes::Aes256>::new(
                GenericArray::from_slice(key),
                GenericArray::from_slice(&iv),
            ),
        }
    }

    /// Relies on `cipher::StreamCipher::apply_keystream`: XORs the buffer
    /// with the next `data.len()` key-stream bytes and advances the cipher
    /// by exactly that many positions. The position bound keeps the 64-bit
    /// block counter far from exhaustion, where the call would panic.
    #[verifier::external_body]
    pub fn apply(&mut self, data: &mut Vec<u8>)
        requires
            ks_pos(*old(self)) + old(data)@.len() < 0x1000000000000000,
        ensures
            ks_key(*final(self)) == ks_key(*old(self)),
            ks_pos(*final(self)) == ks_pos(*old(self)) + old(data)@.len(),
            final(data)@.len() == old(data)@.len(),
            forall|i: int|
                0 <= i < old(data)@.len() ==> final(data)@[i] == (old(data)@[i] ^ keystream_byte(
                    ks_key(*old(self)),
                    ks_pos(*old(self)) + i,
                )),
    {
        self.inner.apply_keystream(data.as_mut_slice());
    }
}

/// A running MAC accumulator: a Keccak-256 state that absorbs every header
/// seed, frame ciphertext and frame seed for the life of the connection and
/// is never reset.
#[verifier::external_body]
pub struct MacAccumulator {
    inner: sha3::Keccak256,
}

impl MacAccumulator {
    /// Relies on `sha3::Keccak256::new`: a fresh hash state with nothing
    /// absorbed.
    #[verifier::external_body]
    pub fn new() -> (m: Self)
        ensures
            mac_absorbed(m) == Seq::<u8>::empty(),
    {
        MacAccumulator { inner: sha3::Keccak256::new() }
    }

    /// Relies on `digest::Digest::update`: absorbs the bytes, extending the
    /// transcript.
    #[verifier::external_body]
    pub fn update(&mut self, data: &[u8])
        ensures
            mac_absorbed(*final(self)) == mac_absorbed(*old(self)) + data@,
    {
        self.inner.update(data);
    }

    /// Relies on `digest::Digest::finalize`, run on a clone of the state so
    /// the accumulator itself keeps absorbing: the Keccak-256 digest of the
    /// transcript so far, 32 bytes, a function of the absorbed bytes alone.
    #[verifier::external_body]
    pub fn digest(&self) -> (r: Vec<u8>)
        ensures
            r@.len() == 32,
            forall|i: int| 0 <= i < 32 ==> r@[i] == keccak_byte(mac_absorbed(*self), i),
            r@ == keccak_digest(mac_absorbed(*self)),
    {
        self.inner.clone().finalize().to_vec()
    }
}

/// The MAC-mixing cipher: AES-256 used block-wise (not in stream mode) to
/// derive a one-time mask from a running MAC digest.
#[verifier::external_body]
pub struct MacCipher {
    inner: aes::Aes256,
}

impl MacCipher {
    /// Relies on `aes::Aes256::new` (`cipher::KeyInit`).
    #[verifier::external_body]
    pub fn new(key: &[u8]) -> (c: Self)
        requires
            key@.len() == 32,
        ensures
            mac_cipher_key(c) == key@,
    {
        MacCipher { inner: aes::Aes256::new(GenericArray::from_slice(key)) }
    }

    /// Relies on `cipher::BlockEncrypt::encrypt_block`: one AES-256 block,
    /// a function of key and block alone; the cipher state is untouched.
    #[verifier::external_body]
    pub fn encrypt(&self, block: &[u8]) -> (r: Vec<u8>)
        requires
            block@.len() == 16,
        ensures
            r@.len() == 16,
            forall|i: int| 0 <= i < 16 ==> r@[i] == aes_block_byte(mac_cipher_key(*self), block@, i),
            r@ == aes_encrypt_block(mac_cipher_key(*self), block@),
    {
        let mut b = GenericArray::clone_from_slice(block);
        self.inner.encrypt_block(&mut b);
        b.to_vec()
    }
}

} // verus!
