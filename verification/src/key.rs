//! The channel key and the stream cipher that it drives.
//!
//! Payloads are encrypted with AES in counter mode. The transform XORs the
//! data with a keystream that depends on the key, the nonce and nothing
//! else, so applying it twice gives the data back.

use crate::header::Header;
use aes::cipher::{KeyIvInit, StreamCipher};
use vstd::prelude::*;

verus! {

/// The first `len` bytes of the AES-128 counter-mode keystream for a 16-byte
/// key and a 16-byte nonce, the nonce being the first counter block and the
/// counter big-endian over all 128 bits.
pub uninterp spec fn aes128_ctr_keystream(key: Seq<u8>, nonce: Seq<u8>, len: nat) -> Seq<u8>;

/// The first `len` bytes of the AES-256 counter-mode keystream for a 32-byte
/// key and a 16-byte nonce.
pub uninterp spec fn aes256_ctr_keystream(key: Seq<u8>, nonce: Seq<u8>, len: nat) -> Seq<u8>;

/// `data` with each byte XORed with the byte of `stream` at its place.
pub open spec fn xor_bytes(data: Seq<u8>, stream: Seq<u8>) -> Seq<u8> {
    Seq::new(data.len(), |i: int| data[i] ^ stream[i])
}

/// `ctr::Ctr128BE<aes::Aes128>`: `apply_keystream` on a cipher made by `new`
/// from the key and the nonce XORs the buffer in place with the start of the
/// keystream. The length stays.
#[verifier::external_body]
fn aes128_ctr_apply(key: &[u8; 16], nonce: &[u8; 16], buf: &mut Vec<u8>)
    ensures
        final(buf)@ == xor_bytes(old(buf)@, aes128_ctr_keystream(key@, nonce@, old(buf)@.len())),
{
    let mut cipher = ctr::Ctr128BE::<aes::Aes128>::new(key.into(), nonce.into());
    cipher.apply_keystream(buf.as_mut_slice());
}

/// `ctr::Ctr128BE<aes::Aes256>`: as for AES-128, with a 32-byte key.
#[verifier::external_body]
fn aes256_ctr_apply(key: &[u8; 32], nonce: &[u8; 16], buf: &mut Vec<u8>)
    ensures
        final(buf)@ == xor_bytes(old(buf)@, aes256_ctr_keystream(key@, nonce@, old(buf)@.len())),
{
    let mut cipher = ctr::Ctr128BE::<aes::Aes256>::new(key.into(), nonce.into());
    cipher.apply_keystream(buf.as_mut_slice());
}

/// Why a key cannot be used.
#[derive(Clone, Copy, Debug, PartialEq, Eq, Structural)]
pub enum KeyError {
    /// The key material is not 1, 16 or 32 bytes long.
    UnsupportedLength,
}

/// The key of a channel.
#[derive(Clone, Debug)]
pub struct ChannelKey {
    /// The key material: 16 bytes for AES-128, 32 bytes for AES-256, or one
    /// byte that stands for the default key with its last byte replaced.
    pub material: Vec<u8>,
    /// The channel hash of the frames that this key is for.
    pub selector: u8,
}

/// The default 16-byte channel key.
pub open spec fn default_key() -> Seq<u8> {
    seq![
        0xd4u8,
        0xf1u8,
        0xbbu8,
        0x3au8,
        0x20u8,
        0x29u8,
        0x07u8,
        0x59u8,
        0xf0u8,
        0xbcu8,
        0xffu8,
        0xabu8,
        0xcfu8,
        0x4eu8,
        0x69u8,
        0x01u8,
    ]
}

/// Key material of this length can be used.
pub open spec fn supported_key_len(len: int) -> bool {
    len == 1 || len == 16 || len == 32
}

/// The key that the material stands for: one byte expands to the default
/// key with that byte in the last place; longer material is the key.
pub open spec fn expanded_key(material: Seq<u8>) -> Seq<u8> {
    if material.len() == 1 {
        default_key().update(15, material[0])
    } else {
        material
    }
}

/// The keystream of `len` bytes that the material and the nonce give.
pub open spec fn keystream(material: Seq<u8>, nonce: Seq<u8>, len: nat) -> Seq<u8> {
    if material.len() == 32 {
        aes256_ctr_keystream(material, nonce, len)
    } else {
        aes128_ctr_keystream(expanded_key(material), nonce, len)
    }
}

/// The data after the transform under the material and the nonce.
pub open spec fn transformed(material: Seq<u8>, data: Seq<u8>, nonce: Seq<u8>) -> Seq<u8> {
    xor_bytes(data, keystream(material, nonce, data.len()))
}

/// The transform is its own inverse: applied twice with the same key and
/// nonce, it gives the data back.
pub proof fn lemma_transform_twice(material: Seq<u8>, data: Seq<u8>, nonce: Seq<u8>)
    ensures
        transformed(material, transformed(material, data, nonce), nonce) == data,
{
    let stream = keystream(material, nonce, data.len());
    let once = transformed(material, data, nonce);
    assert(once.len() == data.len());
    let twice = transformed(material, once, nonce);
    assert forall|i: int| 0 <= i < data.len() implies twice[i] == data[i] by {
        let d = data[i];
        let k = stream[i];
        assert((d ^ k) ^ k == d) by (bit_vector);
    }
    assert(twice =~= data);
}

/// The transform keeps the length of the data.
pub proof fn lemma_transform_len(material: Seq<u8>, data: Seq<u8>, nonce: Seq<u8>)
    ensures
        transformed(material, data, nonce).len() == data.len(),
{
}

fn default_key_bytes() -> (k: [u8; 16])
    ensures
        k@ == default_key(),
{
    let k: [u8; 16] = [
        0xd4,
        0xf1,
        0xbb,
        0x3a,
        0x20,
        0x29,
        0x07,
        0x59,
        0xf0,
        0xbc,
        0xff,
        0xab,
        0xcf,
        0x4e,
        0x69,
        0x01,
    ];
    assert(k@ =~= default_key());
    k
}

impl ChannelKey {
    /// The key can be used: its material has a supported length.
    pub open spec fn usable(&self) -> bool {
        supported_key_len(self.material@.len() as int)
    }

    /// A key from the first `len` bytes of `bytes`, for channel hash 0.
    /// There is none if `len` is not 1, 16 or 32, or if `bytes` is shorter.
    pub fn from_bytes(bytes: &[u8], len: usize) -> (r: Option<ChannelKey>)
        ensures
            r is Some <==> supported_key_len(len as int) && len <= bytes@.len(),
            r matches Some(k) ==> k.material@ == bytes@.subrange(0, len as int) && k.selector == 0
                && k.usable(),
    {
        ChannelKey::with_selector(bytes, len, 0)
    }

    /// A key from the first `len` bytes of `bytes`, for the given channel
    /// hash.
    pub fn with_selector(bytes: &[u8], len: usize, selector: u8) -> (r: Option<ChannelKey>)
        ensures
            r is Some <==> supported_key_len(len as int) && len <= bytes@.len(),
            r matches Some(k) ==> k.material@ == bytes@.subrange(0, len as int) && k.selector
                == selector && k.usable(),
    {
        if !(len == 1 || len == 16 || len == 32) || len > bytes.len() {
            return None;
        }
        let material = crate::wire::copy_range(bytes, 0, len);
        Some(ChannelKey { material, selector })
    }

    /// Whether this key is the one that a frame's channel hash selects.
    pub fn selects(&self, header: &Header) -> (b: bool)
        ensures
            b == (header.channel_hash == self.selector),
    {
        header.channel_hash == self.selector
    }

    /// Encrypts or decrypts `data` in place under this key and the nonce.
    /// Fails, and leaves the data alone, if the key cannot be used.
    pub fn transform(&self, data: &mut Vec<u8>, iv: &[u8; 16]) -> (r: Result<(), KeyError>)
        ensures
            r is Ok <==> self.usable(),
            r is Ok ==> final(data)@ == transformed(self.material@, old(data)@, iv@),
            r is Err ==> final(data)@ == old(data)@ && r->Err_0 == KeyError::UnsupportedLength,
    {
        let n = self.material.len();
        if n == 1 {
            let mut key = default_key_bytes();
            key[15] = self.material[0];
            assert(key@ =~= expanded_key(self.material@));
            aes128_ctr_apply(&key, iv, data);
            Ok(())
        } else if n == 16 {
            let mut key = [0u8; 16];
            let mut i: usize = 0;
            while i < 16
                invariant
                    i <= 16,
                    self.material@.len() == 16,
                    forall|j: int| 0 <= j < i ==> key@[j] == self.material@[j],
                decreases 16 - i,
            {
                key[i] = self.material[i];
                i = i + 1;
            }
            assert(key@ =~= self.material@);
            aes128_ctr_apply(&key, iv, data);
            Ok(())
        } else if n == 32 {
            let mut key = [0u8; 32];
            let mut i: usize = 0;
            while i < 32
                invariant
                    i <= 32,
                    self.material@.len() == 32,
                    forall|j: int| 0 <= j < i ==> key@[j] == self.material@[j],
                decreases 32 - i,
            {
                key[i] = self.material[i];
                i = i + 1;
            }
            assert(key@ =~= self.material@);
            aes256_ctr_apply(&key, iv, data);
            Ok(())
        } else {
            Err(KeyError::UnsupportedLength)
        }
    }
}

} // verus!
