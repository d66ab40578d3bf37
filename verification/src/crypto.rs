//! Optional confidentiality and integrity for the data plane.
//!
//! Key agreement runs over the control channel: each side sends an ephemeral
//! X25519 public key, both compute the shared secret, and HKDF-SHA256 derives
//! the symmetric data key. Each DATA payload is sealed with an AEAD (AES-256-GCM
//! where the CPU has AES instructions, else ChaCha20-Poly1305). The nonce is the
//! block sequence number, so it is never transmitted and a retransmission seals
//! identically.

use crate::text::{decimal, joined, quoted, same};
use aead::{AeadInPlace, KeyInit};
use std::sync::Arc;
use vstd::prelude::*;
use vstd::string::StringExecFns;

verus! {

/// Identifier of the AES-256-GCM suite in the handshake.
pub const CIPHER_AES_GCM: &'static str = "aes-256-gcm";

/// Identifier of the ChaCha20-Poly1305 suite in the handshake.
pub const CIPHER_CHACHA: &'static str = "chacha20-poly1305";

/// Key length of both suites.
pub const AEAD_KEY_LEN: usize = 32;

/// Nonce length of both suites.
pub const AEAD_NONCE_LEN: usize = 12;

/// Tag length of both suites.
pub const AEAD_TAG_LEN: usize = 16;

/// The longest message that both suites can seal under one nonce: AES-GCM has
/// `2^32 - 2` counter blocks of 16 bytes for it.
pub const AEAD_MAX_LEN: u64 = 0xF_FFFF_FFE0;

// --- outside primitives -----------------------------------------------------

/// The ciphertext and the tag that AES-256-GCM gives for a key, a nonce and a
/// plaintext, without associated data.
pub uninterp spec fn aes_gcm_sealed(key: Seq<u8>, nonce: Seq<u8>, plain: Seq<u8>) -> (
    Seq<u8>,
    Seq<u8>,
);

/// The plaintext that AES-256-GCM gives for a key, a nonce, a ciphertext and a
/// tag; nothing when the tag does not authenticate the ciphertext.
pub uninterp spec fn aes_gcm_opened(
    key: Seq<u8>,
    nonce: Seq<u8>,
    sealed: Seq<u8>,
    tag: Seq<u8>,
) -> Option<Seq<u8>>;

/// The ciphertext and the tag that ChaCha20-Poly1305 gives for a key, a nonce
/// and a plaintext, without associated data.
pub uninterp spec fn chacha_sealed(key: Seq<u8>, nonce: Seq<u8>, plain: Seq<u8>) -> (
    Seq<u8>,
    Seq<u8>,
);

/// The plaintext that ChaCha20-Poly1305 gives for a key, a nonce, a ciphertext
/// and a tag; nothing when the tag does not authenticate the ciphertext.
pub uninterp spec fn chacha_opened(
    key: Seq<u8>,
    nonce: Seq<u8>,
    sealed: Seq<u8>,
    tag: Seq<u8>,
) -> Option<Seq<u8>>;

/// Encrypts in place with `aes_gcm::Aes256Gcm`, by
/// `AeadInPlace::encrypt_in_place_detached` with no associated data. The
/// ciphertext is as long as the plaintext, and the pair that comes out opens to
/// the plaintext; with any other tag the ciphertext does not open.
#[verifier::external_body]
fn aes_gcm_seal(key: &[u8; 32], nonce: &[u8; 12], data: &mut [u8]) -> (tag: [u8; 16])
    requires
        old(data)@.len() <= AEAD_MAX_LEN,
    ensures
        (final(data)@, tag@) == aes_gcm_sealed(key@, nonce@, old(data)@),
        final(data)@.len() == old(data)@.len(),
        aes_gcm_opened(key@, nonce@, final(data)@, tag@) == Some(old(data)@),
        forall|t: Seq<u8>|
            t.len() == AEAD_TAG_LEN && t != tag@ ==> #[trigger] aes_gcm_opened(
                key@,
                nonce@,
                final(data)@,
                t,
            ) is None,
{
    let cipher = aes_gcm::Aes256Gcm::new(key.into());
    let tag = cipher.encrypt_in_place_detached(nonce.into(), &[], data);
    tag.expect("AEAD seal failed").into()
}

/// Decrypts in place with `aes_gcm::Aes256Gcm`, by
/// `AeadInPlace::decrypt_in_place_detached` with no associated data. On an
/// authentication failure the buffer is left as it was.
#[verifier::external_body]
fn aes_gcm_open(key: &[u8; 32], nonce: &[u8; 12], data: &mut [u8], tag: &[u8; 16]) -> (r: bool)
    requires
        old(data)@.len() <= AEAD_MAX_LEN,
    ensures
        r == (aes_gcm_opened(key@, nonce@, old(data)@, tag@) is Some),
        r ==> Some(final(data)@) == aes_gcm_opened(key@, nonce@, old(data)@, tag@),
        final(data)@.len() == old(data)@.len(),
        !r ==> final(data)@ == old(data)@,
{
    let cipher = aes_gcm::Aes256Gcm::new(key.into());
    cipher.decrypt_in_place_detached(nonce.into(), &[], data, tag.into()).is_ok()
}

/// Encrypts in place with `chacha20poly1305::ChaCha20Poly1305`, by
/// `AeadInPlace::encrypt_in_place_detached` with no associated data. The
/// ciphertext is as long as the plaintext, and the pair that comes out opens to
/// the plaintext; with any other tag the ciphertext does not open.
#[verifier::external_body]
fn chacha_seal(key: &[u8; 32], nonce: &[u8; 12], data: &mut [u8]) -> (tag: [u8; 16])
    requires
        old(data)@.len() <= AEAD_MAX_LEN,
    ensures
        (final(data)@, tag@) == chacha_sealed(key@, nonce@, old(data)@),
        final(data)@.len() == old(data)@.len(),
        chacha_opened(key@, nonce@, final(data)@, tag@) == Some(old(data)@),
        forall|t: Seq<u8>|
            t.len() == AEAD_TAG_LEN && t != tag@ ==> #[trigger] chacha_opened(
                key@,
                nonce@,
                final(data)@,
                t,
            ) is None,
{
    let cipher = chacha20poly1305::ChaCha20Poly1305::new(key.into());
    let tag = cipher.encrypt_in_place_detached(nonce.into(), &[], data);
    tag.expect("AEAD seal failed").into()
}

/// Decrypts in place with `chacha20poly1305::ChaCha20Poly1305`, by
/// `AeadInPlace::decrypt_in_place_detached` with no associated data. On an
/// authentication failure the buffer is left as it was.
#[verifier::external_body]
fn chacha_open(key: &[u8; 32], nonce: &[u8; 12], data: &mut [u8], tag: &[u8; 16]) -> (r: bool)
    requires
        old(data)@.len() <= AEAD_MAX_LEN,
    ensures
        r == (chacha_opened(key@, nonce@, old(data)@, tag@) is Some),
        r ==> Some(final(data)@) == chacha_opened(key@, nonce@, old(data)@, tag@),
        final(data)@.len() == old(data)@.len(),
        !r ==> final(data)@ == old(data)@,
{
    let cipher = chacha20poly1305::ChaCha20Poly1305::new(key.into());
    cipher.decrypt_in_place_detached(nonce.into(), &[], data, tag.into()).is_ok()
}

/// The X25519 public key of a 32-byte secret.
pub uninterp spec fn x25519_public(secret: Seq<u8>) -> Seq<u8>;

/// The X25519 shared secret of a secret and a peer's public key.
pub uninterp spec fn x25519_shared(secret: Seq<u8>, peer: Seq<u8>) -> Seq<u8>;

/// Draws a secret with `x25519_dalek::StaticSecret::random_from_rng` from the
/// operating system's generator. Nothing is claimed of its bytes. It panics where
/// the operating system has no randomness to give.
#[verifier::external_body]
fn x25519_random() -> (r: [u8; 32]) {
    x25519_dalek::StaticSecret::random_from_rng(rand_core::OsRng).to_bytes()
}

/// Computes a public key with `x25519_dalek::PublicKey::from`.
#[verifier::external_body]
fn x25519_public_key(secret: &[u8; 32]) -> (r: [u8; 32])
    ensures
        r@ == x25519_public(secret@),
{
    x25519_dalek::PublicKey::from(&x25519_dalek::StaticSecret::from(*secret)).to_bytes()
}

/// Computes a shared secret with `x25519_dalek::StaticSecret::diffie_hellman`.
/// Where the peer's key is the public key of a secret, the peer computes the
/// same from that secret and our public key.
#[verifier::external_body]
fn x25519_agree(secret: &[u8; 32], peer: &[u8; 32]) -> (r: [u8; 32])
    ensures
        r@ == x25519_shared(secret@, peer@),
        forall|s: Seq<u8>|
            s.len() == 32 && peer@ == #[trigger] x25519_public(s) ==> r@ == x25519_shared(
                s,
                x25519_public(secret@),
            ),
{
    let ours = x25519_dalek::StaticSecret::from(*secret);
    ours.diffie_hellman(&x25519_dalek::PublicKey::from(*peer)).to_bytes()
}

/// The 32 bytes that HKDF-SHA256 derives from a salt, key material and an info
/// string.
pub uninterp spec fn hkdf_sha256(salt: Seq<u8>, material: Seq<u8>, info: Seq<u8>) -> Seq<u8>;

/// Derives a 32-byte key with `hkdf::Hkdf::<Sha256>::new` and `expand`. Expanding
/// to 32 bytes, one output of the hash, always succeeds.
#[verifier::external_body]
fn hkdf_sha256_key(salt: &[u8], material: &[u8], info: &[u8]) -> (r: [u8; 32])
    ensures
        r@ == hkdf_sha256(salt@, material@, info@),
{
    let mut key = [0u8; 32];
    let hk = hkdf::Hkdf::<sha2::Sha256>::new(Some(salt), material);
    hk.expand(info, &mut key).expect("one output block is a valid length");
    key
}

// --- cipher choice ----------------------------------------------------------

/// Whether a list of suites names `c`.
pub open spec fn lists(suites: Seq<String>, c: Seq<char>) -> bool {
    exists|i: int| 0 <= i < suites.len() && #[trigger] suites[i]@ == c
}

/// The first of our suites that the peer lists; empty when there is none.
pub open spec fn chosen_cipher(prefer: Seq<String>, peer: Seq<String>) -> Seq<char>
    decreases prefer.len(),
{
    if prefer.len() == 0 {
        Seq::empty()
    } else if lists(peer, prefer[0]@) {
        prefer[0]@
    } else {
        chosen_cipher(prefer.drop_first(), peer)
    }
}

/// The suites of this host in preference order, by whether it has AES
/// instructions.
pub open spec fn is_local_ciphers(suites: Seq<String>, aes_hardware: bool) -> bool {
    &&& suites.len() == 2
    &&& suites[0]@ == (if aes_hardware {
        CIPHER_AES_GCM@
    } else {
        CIPHER_CHACHA@
    })
    &&& suites[1]@ == (if aes_hardware {
        CIPHER_CHACHA@
    } else {
        CIPHER_AES_GCM@
    })
}

/// This host's supported suites in preference order. AES-GCM comes first where
/// the CPU has native AES instructions, and is the slower one elsewhere.
pub fn local_ciphers(aes_hardware: bool) -> (r: Vec<String>)
    ensures
        is_local_ciphers(r@, aes_hardware),
{
    let mut r: Vec<String> = Vec::new();
    if aes_hardware {
        r.push(CIPHER_AES_GCM.to_owned());
        r.push(CIPHER_CHACHA.to_owned());
    } else {
        r.push(CIPHER_CHACHA.to_owned());
        r.push(CIPHER_AES_GCM.to_owned());
    }
    r
}

/// Whether a list of suites names `c`.
fn list_names(suites: &[String], c: &str) -> (r: bool)
    ensures
        r == lists(suites@, c@),
{
    let mut i: usize = 0;
    while i < suites.len()
        invariant
            i <= suites@.len(),
            forall|j: int| 0 <= j < i ==> #[trigger] suites@[j]@ != c@,
        decreases suites@.len() - i,
    {
        if same(suites[i].as_str(), c) {
            return true;
        }
        i = i + 1;
    }
    false
}

/// Picks the first suite in our preference order that the peer also supports.
/// Returns `""` if there is no common suite.
pub fn choose_cipher(prefer: &[String], peer: &[String]) -> (r: String)
    ensures
        r@ == chosen_cipher(prefer@, peer@),
{
    let mut i: usize = 0;
    assert(prefer@.skip(0) =~= prefer@);
    while i < prefer.len()
        invariant
            i <= prefer@.len(),
            chosen_cipher(prefer@, peer@) == chosen_cipher(prefer@.skip(i as int), peer@),
        decreases prefer@.len() - i,
    {
        if list_names(peer, prefer[i].as_str()) {
            return prefer[i].clone();
        }
        assert(prefer@.skip(i as int).drop_first() =~= prefer@.skip(i + 1));
        i = i + 1;
    }
    String::new()
}

/// Returns the local cipher list when `enc`, else `None`.
pub fn ciphers_if(enc: bool, aes_hardware: bool) -> (r: Option<Vec<String>>)
    ensures
        enc == (r is Some),
        r matches Some(suites) ==> is_local_ciphers(suites@, aes_hardware),
{
    if enc {
        Some(local_ciphers(aes_hardware))
    } else {
        None
    }
}

// --- sealing ----------------------------------------------------------------

/// A negotiated AEAD for the data plane: the suite and its key.
pub enum AeadBox {
    /// AES-256-GCM.
    Aes([u8; 32]),
    /// ChaCha20-Poly1305.
    Cha([u8; 32]),
}

/// The nonce of a block: four zero bytes, then the block number.
pub open spec fn nonce_of(seq: u64) -> Seq<u8> {
    seq![0u8, 0u8, 0u8, 0u8] + crate::bytes::le64(seq)
}

fn block_nonce(seq: u64) -> (r: [u8; 12])
    ensures
        r@ == nonce_of(seq),
{
    let v1: u64 = seq / 256;
    let v2: u64 = v1 / 256;
    let v3: u64 = v2 / 256;
    let v4: u64 = v3 / 256;
    let v5: u64 = v4 / 256;
    let v6: u64 = v5 / 256;
    let v7: u64 = v6 / 256;
    let r: [u8; 12] = [
        0,
        0,
        0,
        0,
        (seq % 256) as u8,
        (v1 % 256) as u8,
        (v2 % 256) as u8,
        (v3 % 256) as u8,
        (v4 % 256) as u8,
        (v5 % 256) as u8,
        (v6 % 256) as u8,
        v7 as u8,
    ];
    assert(r@ =~= nonce_of(seq));
    r
}

/// The first 32 bytes of a slice.
fn array32(s: &[u8]) -> (r: [u8; 32])
    requires
        s@.len() == 32,
    ensures
        r@ == s@,
{
    let mut a: [u8; 32] = [0u8; 32];
    let mut i: usize = 0;
    while i < 32
        invariant
            i <= 32,
            s@.len() == 32,
            forall|j: int| 0 <= j < i ==> a@[j] == s@[j],
        decreases 32 - i,
    {
        a[i] = s[i];
        i = i + 1;
    }
    assert(a@ =~= s@);
    a
}

/// The first 16 bytes of a slice.
fn array16(s: &[u8]) -> (r: [u8; 16])
    requires
        s@.len() >= 16,
    ensures
        r@ == s@.take(16),
{
    let mut a: [u8; 16] = [0u8; 16];
    let mut i: usize = 0;
    while i < 16
        invariant
            i <= 16,
            s@.len() >= 16,
            forall|j: int| 0 <= j < i ==> a@[j] == s@[j],
        decreases 16 - i,
    {
        a[i] = s[i];
        i = i + 1;
    }
    assert(a@ =~= s@.take(16));
    a
}

impl AeadBox {
    /// The key.
    pub open spec fn key(&self) -> Seq<u8> {
        match self {
            AeadBox::Aes(k) => k@,
            AeadBox::Cha(k) => k@,
        }
    }

    /// The name of the suite.
    pub open spec fn suite(&self) -> Seq<char> {
        match self {
            AeadBox::Aes(_) => CIPHER_AES_GCM@,
            AeadBox::Cha(_) => CIPHER_CHACHA@,
        }
    }

    /// The ciphertext and tag of block `seq` with the given payload.
    pub open spec fn sealed(&self, seq: u64, plain: Seq<u8>) -> (Seq<u8>, Seq<u8>) {
        match self {
            AeadBox::Aes(k) => aes_gcm_sealed(k@, nonce_of(seq), plain),
            AeadBox::Cha(k) => chacha_sealed(k@, nonce_of(seq), plain),
        }
    }

    /// The payload of block `seq` with the given ciphertext and tag; nothing
    /// when the tag does not authenticate it.
    pub open spec fn opened(&self, seq: u64, sealed: Seq<u8>, tag: Seq<u8>) -> Option<Seq<u8>> {
        match self {
            AeadBox::Aes(k) => aes_gcm_opened(k@, nonce_of(seq), sealed, tag),
            AeadBox::Cha(k) => chacha_opened(k@, nonce_of(seq), sealed, tag),
        }
    }

    /// Whether `r` is the box for a suite name and a key, or the message that
    /// says why there is none.
    pub open spec fn made(name: Seq<char>, key: Seq<u8>, r: Result<AeadBox, String>) -> bool {
        if key.len() != AEAD_KEY_LEN {
            r is Err && r->Err_0@ == "girth: bad key length "@ + crate::text::dec(key.len())
        } else if name == CIPHER_AES_GCM@ || name == CIPHER_CHACHA@ {
            r is Ok && r->Ok_0.key() == key && r->Ok_0.suite() == name
        } else {
            r is Err && r->Err_0@ == "girth: unknown cipher "@ + crate::text::debug_quoted(name)
        }
    }

    /// The box for a suite name and a key.
    pub fn new(name: &str, key: &[u8]) -> (r: Result<AeadBox, String>)
        ensures
            AeadBox::made(name@, key@, r),
    {
        if key.len() != AEAD_KEY_LEN {
            return Err(joined("girth: bad key length ", decimal(key.len() as u64).as_str()));
        }
        if same(name, CIPHER_AES_GCM) {
            Ok(AeadBox::Aes(array32(key)))
        } else if same(name, CIPHER_CHACHA) {
            Ok(AeadBox::Cha(array32(key)))
        } else {
            Err(joined("girth: unknown cipher ", quoted(name).as_str()))
        }
    }

    /// The bytes that sealing adds to a payload.
    pub fn overhead(&self) -> (r: usize)
        ensures
            r == AEAD_TAG_LEN,
    {
        AEAD_TAG_LEN
    }

    /// The name of the suite.
    pub fn name(&self) -> (r: &'static str)
        ensures
            r@ == self.suite(),
    {
        match self {
            AeadBox::Aes(_) => CIPHER_AES_GCM,
            AeadBox::Cha(_) => CIPHER_CHACHA,
        }
    }

    /// Encrypts `plen` plaintext bytes at `buf[hdr_len..hdr_len + plen]` in
    /// place, appending the 16-byte tag, and returns the total PDU length
    /// (`hdr_len + plen + tag`). The header (`buf[..hdr_len]`) is untouched so
    /// the cleartext routing fields stay readable.
    ///
    /// What is sealed opens again to the same payload; with another tag it does
    /// not open.
    pub fn seal_data(&self, buf: &mut [u8], hdr_len: usize, plen: usize, seq: u64) -> (r: usize)
        requires
            hdr_len + plen + AEAD_TAG_LEN <= old(buf)@.len(),
            plen <= AEAD_MAX_LEN,
        ensures
            r == hdr_len + plen + AEAD_TAG_LEN,
            ({
                let plain = old(buf)@.subrange(hdr_len as int, hdr_len + plen);
                let (sealed, tag) = self.sealed(seq, plain);
                &&& sealed.len() == plen
                &&& tag.len() == AEAD_TAG_LEN
                &&& final(buf)@ == old(buf)@.take(hdr_len as int) + sealed + tag + old(buf)@.skip(
                    r as int,
                )
                &&& self.opened(seq, sealed, tag) == Some(plain)
                &&& forall|t: Seq<u8>|
                    t.len() == AEAD_TAG_LEN && t != tag ==> #[trigger] self.opened(seq, sealed, t)
                        is None
            }),
    {
        let ghost before = buf@;
        let room: usize = buf.len();
        let nonce = block_nonce(seq);
        let (head, rest) = buf.split_at_mut(hdr_len);
        let (body, tail) = rest.split_at_mut(plen);
        let ghost plain = body@;
        assert(plain =~= before.subrange(hdr_len as int, hdr_len + plen));
        let tag: [u8; 16] = match self {
            AeadBox::Aes(k) => aes_gcm_seal(k, &nonce, body),
            AeadBox::Cha(k) => chacha_seal(k, &nonce, body),
        };
        let ghost sealed = body@;
        let ghost tail_before = tail@;
        let mut i: usize = 0;
        while i < AEAD_TAG_LEN
            invariant
                i <= AEAD_TAG_LEN,
                tail@.len() == tail_before.len(),
                tail_before.len() >= AEAD_TAG_LEN,
                forall|j: int| 0 <= j < i ==> tail@[j] == tag@[j],
                forall|j: int| i <= j < tail@.len() ==> tail@[j] == tail_before[j],
            decreases AEAD_TAG_LEN - i,
        {
            tail[i] = tag[i];
            i = i + 1;
        }
        assert(tail@ =~= tag@ + tail_before.skip(AEAD_TAG_LEN as int));
        let total: usize = hdr_len + plen + AEAD_TAG_LEN;
        assert(head@ + (sealed + tail@) =~= before.take(hdr_len as int) + sealed + tag@
            + before.skip(total as int));
        assert forall|t: Seq<u8>| t.len() == AEAD_TAG_LEN && t != tag@ implies #[trigger]
            self.opened(seq, sealed, t) is None by {
            match self {
                AeadBox::Aes(k) => {
                    assert(aes_gcm_opened(k@, nonce@, sealed, t) is None);
                },
                AeadBox::Cha(k) => {
                    assert(chacha_opened(k@, nonce@, sealed, t) is None);
                },
            }
        }
        total
    }

    /// Decrypts a DATA payload (ciphertext followed by tag) in place. `plen` is
    /// the plaintext length from the header. Returns the plaintext length on
    /// success, or `None` on authentication failure or a short buffer, which
    /// leaves the payload as it was. That a changed ciphertext, another block
    /// number or another key fails to authenticate rests on the strength of the
    /// ciphers, which leaves a chance too small to meet; nothing is stated of it.
    pub fn open_data(&self, payload: &mut [u8], plen: usize, seq: u64) -> (r: Option<usize>)
        requires
            plen + AEAD_TAG_LEN <= old(payload)@.len() ==> plen <= AEAD_MAX_LEN,
        ensures
            final(payload)@.len() == old(payload)@.len(),
            r is None ==> final(payload)@ == old(payload)@,
            ({
                let sealed = old(payload)@.take(plen as int);
                let tag = old(payload)@.subrange(plen as int, plen + AEAD_TAG_LEN);
                if plen + AEAD_TAG_LEN > old(payload)@.len() {
                    r is None
                } else {
                    match self.opened(seq, sealed, tag) {
                        None => r is None,
                        Some(plain) => r == Some(plen) && final(payload)@ == plain + old(
                            payload,
                        )@.skip(plen as int),
                    }
                }
            }),
    {
        if payload.len() < AEAD_TAG_LEN || plen > payload.len() - AEAD_TAG_LEN {
            return None;
        }
        let ghost before = payload@;
        let nonce = block_nonce(seq);
        let (body, tail) = payload.split_at_mut(plen);
        let tag = array16(tail);
        assert(tag@ =~= before.subrange(plen as int, plen + AEAD_TAG_LEN));
        assert(body@ =~= before.take(plen as int));
        let ok: bool = match self {
            AeadBox::Aes(k) => aes_gcm_open(k, &nonce, body, &tag),
            AeadBox::Cha(k) => chacha_open(k, &nonce, body, &tag),
        };
        assert(tail@ =~= before.skip(plen as int));
        assert(before =~= before.take(plen as int) + before.skip(plen as int));
        if ok {
            Some(plen)
        } else {
            None
        }
    }
}

// --- key exchange -----------------------------------------------------------

/// An ephemeral X25519 secret.
pub struct SecretKey {
    bytes: [u8; 32],
}

impl View for SecretKey {
    type V = Seq<u8>;

    closed spec fn view(&self) -> Seq<u8> {
        self.bytes@
    }
}

/// Creates an ephemeral X25519 keypair; the returned bytes are the 32-byte
/// public key to put on the wire. The secret comes from the operating system's
/// random generator.
pub fn gen_keypair() -> (r: (SecretKey, [u8; 32]))
    ensures
        r.0@.len() == 32,
        r.1@ == x25519_public(r.0@),
{
    let bytes = x25519_random();
    let public = x25519_public_key(&bytes);
    (SecretKey { bytes }, public)
}

/// The data key that one side derives: HKDF-SHA256 over the X25519 shared
/// secret, salted with the session id and bound to the cipher name.
pub open spec fn data_key(
    secret: Seq<u8>,
    peer_pub: Seq<u8>,
    session: u32,
    cipher: Seq<char>,
) -> Seq<u8> {
    hkdf_sha256(
        crate::bytes::le32(session),
        x25519_shared(secret, peer_pub),
        vstd::utf8::encode_utf8("girth data key "@ + cipher),
    )
}

/// Whether `cipher` names a suite of this library.
pub open spec fn known_cipher(cipher: Seq<char>) -> bool {
    cipher == CIPHER_AES_GCM@ || cipher == CIPHER_CHACHA@
}

/// Whether `r` is what a side makes of its secret and the peer's public key:
/// the box of the named suite with the data key, or the message that says why
/// there is none.
pub open spec fn derived(
    secret: Seq<u8>,
    peer_pub: Seq<u8>,
    session: u32,
    cipher: Seq<char>,
    r: Result<AeadBox, String>,
) -> bool {
    if peer_pub.len() != 32 {
        r is Err && r->Err_0@ == "girth: bad peer public key"@
    } else if known_cipher(cipher) {
        r is Ok && r->Ok_0.suite() == cipher && r->Ok_0.key() == data_key(
            secret,
            peer_pub,
            session,
            cipher,
        )
    } else {
        r is Err && r->Err_0@ == "girth: unknown cipher "@ + crate::text::debug_quoted(cipher)
    }
}

/// Completes the handshake: computes the X25519 shared secret with the peer's
/// public key and derives the session AEAD via HKDF-SHA256, salted with the
/// session id and bound to the negotiated cipher name. Both ends run this with
/// mirrored keys and arrive at the same symmetric key.
pub fn derive_aead(
    priv_key: &SecretKey,
    peer_pub: &[u8],
    session: u32,
    cipher_name: &str,
) -> (r: Result<AeadBox, String>)
    ensures
        derived(priv_key@, peer_pub@, session, cipher_name@, r),
        r matches Ok(b) ==> forall|s: Seq<u8>|
            s.len() == 32 && peer_pub@ == #[trigger] x25519_public(s) ==> b.key() == data_key(
                s,
                x25519_public(priv_key@),
                session,
                cipher_name@,
            ),
{
    if peer_pub.len() != 32 {
        return Err("girth: bad peer public key".to_owned());
    }
    let peer = array32(peer_pub);
    let shared = x25519_agree(&priv_key.bytes, &peer);
    let salt = crate::bytes::u32_bytes(session);
    let info = joined("girth data key ", cipher_name);
    let key = hkdf_sha256_key(salt.as_slice(), &shared, info.as_str().as_bytes());
    AeadBox::new(cipher_name, &key)
}

/// What a server sends and keeps after agreeing on a key with a client whose
/// public key is `peer_pub`: the cipher is the first of ours that the client
/// lists, and the box holds the data key of some secret whose public key is
/// `server_pub`. A client with the secret of `peer_pub` derives the same key.
pub open spec fn server_agreed(
    prefer: Seq<String>,
    peer_ciphers: Seq<String>,
    peer_pub: Seq<u8>,
    session: u32,
    cipher: Seq<char>,
    server_pub: Seq<u8>,
    b: AeadBox,
) -> bool {
    &&& cipher == chosen_cipher(prefer, peer_ciphers)
    &&& b.suite() == cipher
    &&& exists|s: Seq<u8>|
        s.len() == 32 && server_pub == #[trigger] x25519_public(s) && b.key() == data_key(
            s,
            peer_pub,
            session,
            cipher,
        )
    &&& forall|c: Seq<u8>|
        c.len() == 32 && peer_pub == #[trigger] x25519_public(c) ==> b.key() == data_key(
            c,
            server_pub,
            session,
            cipher,
        )
}

/// Whether `r` is what a server with the suites `prefer` answers to a client's
/// wish for encryption: nothing where it has none; a refusal where there is no
/// common suite or the client's key is malformed; else the agreement.
pub open spec fn negotiated(
    encrypt: bool,
    prefer: Seq<String>,
    peer_ciphers: Seq<String>,
    peer_pub: Seq<u8>,
    session: u32,
    r: Result<(bool, String, Vec<u8>, Option<Arc<AeadBox>>), String>,
) -> bool {
    if !encrypt {
        match r {
            Ok((on, cipher, public, b)) => !on && cipher@.len() == 0 && public@.len() == 0 && b
                is None,
            Err(_) => false,
        }
    } else if chosen_cipher(prefer, peer_ciphers).len() == 0 {
        r is Err && r->Err_0@ == "no common cipher suite"@
    } else if peer_pub.len() != 32 {
        r is Err && r->Err_0@ == "girth: bad peer public key"@
    } else {
        match r {
            Ok((on, cipher, public, Some(b))) => on && public@.len() == 32 && server_agreed(
                prefer,
                peer_ciphers,
                peer_pub,
                session,
                cipher@,
                public@,
                *b,
            ),
            _ => false,
        }
    }
}

/// Server side of key exchange for a hello requesting encryption. Returns
/// `(enabled, cipher_name, our_pubkey, box)`. If the client did not request
/// encryption it returns a disabled result with no box. `aes_hardware` says
/// whether this host has AES instructions.
pub fn negotiate_crypto_server(
    encrypt: bool,
    peer_ciphers: &[String],
    peer_pub: &[u8],
    session: u32,
    aes_hardware: bool,
) -> (r: Result<(bool, String, Vec<u8>, Option<Arc<AeadBox>>), String>)
    ensures
        exists|prefer: Seq<String>| #[trigger]
            is_local_ciphers(prefer, aes_hardware) && negotiated(
                encrypt,
                prefer,
                peer_ciphers@,
                peer_pub@,
                session,
                r,
            ),
{
    let prefer = local_ciphers(aes_hardware);
    if !encrypt {
        return Ok((false, String::new(), Vec::new(), None));
    }
    let cipher_name = choose_cipher(prefer.as_slice(), peer_ciphers);
    proof {
        chosen_is_preferred(prefer@, peer_ciphers@);
    }
    if cipher_name.as_str().is_empty() {
        return Err("no common cipher suite".to_owned());
    }
    let (priv_key, pub_key) = gen_keypair();
    match derive_aead(&priv_key, peer_pub, session, cipher_name.as_str()) {
        Err(e) => Err(e),
        Ok(b) => {
            assert(server_agreed(
                prefer@,
                peer_ciphers@,
                peer_pub@,
                session,
                cipher_name@,
                pub_key@,
                b,
            ));
            Ok((true, cipher_name, vstd::slice::slice_to_vec(&pub_key), Some(Arc::new(b))))
        },
    }
}

/// A suite that was chosen is one of ours.
pub proof fn chosen_is_preferred(prefer: Seq<String>, peer: Seq<String>)
    ensures
        chosen_cipher(prefer, peer).len() == 0 || lists(prefer, chosen_cipher(prefer, peer)),
    decreases prefer.len(),
{
    if prefer.len() > 0 {
        chosen_is_preferred(prefer.drop_first(), peer);
        if lists(peer, prefer[0]@) {
            assert(prefer[0]@ == chosen_cipher(prefer, peer));
        } else if lists(prefer.drop_first(), chosen_cipher(prefer, peer)) {
            let i = choose|i: int|
                0 <= i < prefer.len() - 1 && #[trigger] prefer.drop_first()[i]@ == chosen_cipher(
                    prefer,
                    peer,
                );
            assert(prefer[i + 1]@ == chosen_cipher(prefer, peer));
        }
    }
}

/// Client side of key exchange from the server's ack fields. Fails closed: if
/// the user asked for encryption but the server did not enable it, that is an
/// error rather than a silent downgrade to cleartext.
pub fn client_crypto(
    want: bool,
    server_encrypt: bool,
    server_pub: &[u8],
    session: u32,
    cipher: &str,
    priv_key: Option<&SecretKey>,
) -> (r: Result<Option<Arc<AeadBox>>, String>)
    ensures
        !server_encrypt && want ==> r is Err && r->Err_0@ == "server declined encryption"@,
        !server_encrypt && !want ==> r == Ok::<Option<Arc<AeadBox>>, String>(None),
        server_encrypt && (priv_key is None || !want) ==> r is Err && r->Err_0@
            == "server enabled encryption unexpectedly"@,
        server_encrypt && want ==> match priv_key {
            None => true,
            Some(k) => match r {
                Err(e) => derived(k@, server_pub@, session, cipher@, Err(e)),
                Ok(b) => b is Some && derived(
                    k@,
                    server_pub@,
                    session,
                    cipher@,
                    Ok(*b->Some_0),
                ),
            },
        },
{
    if !server_encrypt {
        if want {
            return Err("server declined encryption".to_owned());
        }
        return Ok(None);
    }
    let key = match priv_key {
        None => return Err("server enabled encryption unexpectedly".to_owned()),
        Some(key) => key,
    };
    if !want {
        return Err("server enabled encryption unexpectedly".to_owned());
    }
    match derive_aead(key, server_pub, session, cipher) {
        Err(e) => Err(e),
        Ok(b) => Ok(Some(Arc::new(b))),
    }
}

// --- laws -------------------------------------------------------------------

/// Law: both ends of a handshake hold the same suite and the same key. The
/// client is the one whose public key the server was given.
pub proof fn both_ends_agree(
    prefer: Seq<String>,
    peer_ciphers: Seq<String>,
    client_secret: Seq<u8>,
    session: u32,
    cipher: Seq<char>,
    server_pub: Seq<u8>,
    server_box: &AeadBox,
    client_box: &AeadBox,
)
    requires
        client_secret.len() == 32,
        server_pub.len() == 32,
        known_cipher(cipher),
        server_agreed(
            prefer,
            peer_ciphers,
            x25519_public(client_secret),
            session,
            cipher,
            server_pub,
            *server_box,
        ),
        derived(client_secret, server_pub, session, cipher, Ok(*client_box)),
    ensures
        server_box.suite() == client_box.suite(),
        server_box.key() == client_box.key(),
{
}

/// Law: boxes with the same suite and key seal and open alike, so what one end
/// seals the other opens.
pub proof fn equal_keys_interoperate(a: AeadBox, b: AeadBox, seq: u64, text: Seq<u8>, tag: Seq<u8>)
    requires
        a.suite() == b.suite(),
        a.key() == b.key(),
    ensures
        a.sealed(seq, text) == b.sealed(seq, text),
        a.opened(seq, text, tag) == b.opened(seq, text, tag),
{
    reveal_strlit("aes-256-gcm");
    reveal_strlit("chacha20-poly1305");
    assert(CIPHER_AES_GCM@.len() != CIPHER_CHACHA@.len());
}

/// Law: what one end seals, the other opens. Two ends that derive their boxes from
/// mirrored key pairs, for one session and suite, hold the same key; and the
/// ciphertext and the tag that one of them makes of a payload open to that payload
/// at the other, while no other tag does. What deriving and sealing promise of
/// their results is what is asked of them here.
pub proof fn mirrored_boxes_open_each_other(
    client_secret: Seq<u8>,
    server_secret: Seq<u8>,
    session: u32,
    cipher: Seq<char>,
    client_box: AeadBox,
    server_box: AeadBox,
    seq: u64,
    plain: Seq<u8>,
)
    requires
        x25519_public(client_secret).len() == 32,
        x25519_public(server_secret).len() == 32,
        known_cipher(cipher),
        derived(client_secret, x25519_public(server_secret), session, cipher, Ok(client_box)),
        derived(server_secret, x25519_public(client_secret), session, cipher, Ok(server_box)),
        server_box.key() == data_key(
            client_secret,
            x25519_public(server_secret),
            session,
            cipher,
        ),
        ({
            let (sealed, tag) = client_box.sealed(seq, plain);
            &&& client_box.opened(seq, sealed, tag) == Some(plain)
            &&& forall|t: Seq<u8>|
                t.len() == AEAD_TAG_LEN && t != tag ==> #[trigger] client_box.opened(seq, sealed, t)
                    is None
        }),
    ensures
        client_box.key() == server_box.key(),
        client_box.suite() == server_box.suite(),
        ({
            let (sealed, tag) = client_box.sealed(seq, plain);
            &&& server_box.opened(seq, sealed, tag) == Some(plain)
            &&& forall|t: Seq<u8>|
                t.len() == AEAD_TAG_LEN && t != tag ==> #[trigger] server_box.opened(seq, sealed, t)
                    is None
        }),
{
    let (sealed, tag) = client_box.sealed(seq, plain);
    equal_keys_interoperate(client_box, server_box, seq, sealed, tag);
    assert forall|t: Seq<u8>| t.len() == AEAD_TAG_LEN && t != tag implies #[trigger]
        server_box.opened(seq, sealed, t) is None by {
        equal_keys_interoperate(client_box, server_box, seq, sealed, t);
        assert(client_box.opened(seq, sealed, t) is None);
    }
}

/// Law: no two blocks of a transfer share a nonce.
pub proof fn nonces_are_distinct(a: u64, b: u64)
    requires
        nonce_of(a) == nonce_of(b),
    ensures
        a == b,
{
    let s = nonce_of(a);
    assert(s.subrange(4, 12) =~= crate::bytes::le64(a));
    assert(nonce_of(b).subrange(4, 12) =~= crate::bytes::le64(b));
    crate::bytes::le64_round_trip(a, s, 4);
    crate::bytes::le64_round_trip(b, nonce_of(b), 4);
}

} // verus!
