//! What holds of ciphers, keys and proofs.

use crate::auth::{client_mac, server_mac, verify_client_mac, verify_server_mac};
use crate::control::{Ack, Hello, TransferParams};
use crate::crypto::{
    choose_cipher, ciphers_if, client_crypto, derive_aead, gen_keypair, local_ciphers,
    negotiate_crypto_server, AeadBox, SecretKey,
};
use crate::error::GirthError;
use crate::laws::wire::{as_bits, number_at, number_of};
use crate::rate::RateWarmStart;
use crate::transfer::{accept_ack, answer, client_hello, AuthState};
use std::sync::Arc;
use vstd::prelude::*;
use vstd::utf8::encode_utf8;

verus! {

// --- the choice of a suite --------------------------------------------------

/// Whether a list of suites names `c`.
pub open spec fn is_listed(suites: Seq<String>, c: Seq<char>) -> bool {
    exists|i: int| 0 <= i < suites.len() && #[trigger] suites[i]@ == c
}

proof fn choice_is_first_common(prefer: Seq<String>, peer: Seq<String>)
    requires
        forall|i: int| 0 <= i < prefer.len() ==> (#[trigger] prefer[i])@.len() > 0,
    ensures
        ({
            let c = crate::crypto::chosen_cipher(prefer, peer);
            &&& c.len() > 0 <==> exists|i: int|
                0 <= i < prefer.len() && is_listed(peer, (#[trigger] prefer[i])@)
            &&& c.len() > 0 ==> is_listed(peer, c) && exists|i: int|
                0 <= i < prefer.len() && #[trigger] prefer[i]@ == c && forall|j: int|
                    0 <= j < i ==> !is_listed(peer, (#[trigger] prefer[j])@)
        }),
    decreases prefer.len(),
{
    let c = crate::crypto::chosen_cipher(prefer, peer);
    if prefer.len() > 0 {
        if crate::crypto::lists(peer, prefer[0]@) {
            assert(prefer[0]@ == c);
            assert(is_listed(peer, prefer[0]@));
        } else {
            let rest = prefer.drop_first();
            assert forall|i: int| 0 <= i < rest.len() implies (#[trigger] rest[i])@.len() > 0 by {
                assert(rest[i] == prefer[i + 1]);
            }
            choice_is_first_common(rest, peer);
            assert(!is_listed(peer, prefer[0]@));
            if c.len() > 0 {
                let i = choose|i: int|
                    0 <= i < rest.len() && #[trigger] rest[i]@ == c && forall|j: int|
                        0 <= j < i ==> !is_listed(peer, (#[trigger] rest[j])@);
                assert(prefer[i + 1]@ == c);
                assert forall|j: int| 0 <= j < i + 1 implies !is_listed(
                    peer,
                    (#[trigger] prefer[j])@,
                ) by {
                    if j > 0 {
                        assert(rest[j - 1] == prefer[j]);
                    }
                }
            }
            if exists|i: int| 0 <= i < prefer.len() && is_listed(peer, (#[trigger] prefer[i])@) {
                let i = choose|i: int|
                    0 <= i < prefer.len() && is_listed(peer, (#[trigger] prefer[i])@);
                assert(rest[i - 1] == prefer[i]);
            }
        }
    }
}

/// Law: a server takes the first of its own suites that the client lists, and none
/// where they have none in common. A host prefers AES-GCM exactly where it has the
/// instructions for it, and offers both.
pub proof fn first_common_suite_is_taken()
    ensures
        forall|aes: bool, r: Vec<String>| #[trigger]
            call_ensures(local_ciphers, (aes,), r) ==> {
                &&& r@.len() == 2
                &&& aes ==> r@[0]@ == "aes-256-gcm"@ && r@[1]@ == "chacha20-poly1305"@
                &&& !aes ==> r@[0]@ == "chacha20-poly1305"@ && r@[1]@ == "aes-256-gcm"@
            },
        forall|enc: bool, aes: bool, r: Option<Vec<String>>| #[trigger]
            call_ensures(ciphers_if, (enc, aes), r) ==> {
                &&& r is Some <==> enc
                &&& enc ==> is_listed(r->Some_0@, "aes-256-gcm"@) && is_listed(
                    r->Some_0@,
                    "chacha20-poly1305"@,
                ) && r->Some_0@.len() == 2
            },
        forall|prefer: &[String], peer: &[String], r: String| #[trigger]
            call_ensures(choose_cipher, (prefer, peer), r) && (forall|i: int|
                0 <= i < prefer@.len() ==> (#[trigger] prefer@[i])@.len() > 0) ==> {
                &&& r@.len() > 0 <==> exists|i: int|
                    0 <= i < prefer@.len() && is_listed(peer@, (#[trigger] prefer@[i])@)
                &&& r@.len() > 0 ==> is_listed(peer@, r@) && exists|i: int|
                    0 <= i < prefer@.len() && #[trigger] prefer@[i]@ == r@ && forall|j: int|
                        0 <= j < i ==> !is_listed(peer@, (#[trigger] prefer@[j])@)
            },
{
    assert forall|enc: bool, aes: bool, r: Option<Vec<String>>| #[trigger]
        call_ensures(ciphers_if, (enc, aes), r) && enc implies is_listed(
        r->Some_0@,
        "aes-256-gcm"@,
    ) && is_listed(r->Some_0@, "chacha20-poly1305"@) by {
        let s = r->Some_0@;
        assert(s[0]@ == "aes-256-gcm"@ || s[1]@ == "aes-256-gcm"@);
        assert(s[0]@ == "chacha20-poly1305"@ || s[1]@ == "chacha20-poly1305"@);
    }
    assert forall|prefer: &[String], peer: &[String], r: String| #[trigger]
        call_ensures(choose_cipher, (prefer, peer), r) && (forall|i: int|
            0 <= i < prefer@.len() ==> (#[trigger] prefer@[i])@.len() > 0) implies {
        &&& r@.len() > 0 <==> exists|i: int|
            0 <= i < prefer@.len() && is_listed(peer@, (#[trigger] prefer@[i])@)
        &&& r@.len() > 0 ==> is_listed(peer@, r@) && exists|i: int|
            0 <= i < prefer@.len() && #[trigger] prefer@[i]@ == r@ && forall|j: int|
                0 <= j < i ==> !is_listed(peer@, (#[trigger] prefer@[j])@)
    } by {
        choice_is_first_common(prefer@, peer@);
    }
}

// --- sealing ----------------------------------------------------------------

/// Whether `n` is the nonce of block `seq`: four zero bytes, then its number.
pub open spec fn is_nonce(n: Seq<u8>, seq: u64) -> bool {
    &&& n.len() == 12
    &&& n[0] == 0 && n[1] == 0 && n[2] == 0 && n[3] == 0
    &&& number_at(n, 4, 12) == seq
}

/// The nonce of a block is one.
pub proof fn block_nonce_is_one(seq: u64)
    ensures
        is_nonce(crate::crypto::nonce_of(seq), seq),
{
    let n = crate::crypto::nonce_of(seq);
    assert(n.subrange(4, 12) =~= crate::bytes::le64(seq));
    crate::laws::wire::bytes_of_number(seq, n, 4);
}

/// Whether `c` and `tag` are what a suite makes of a payload under a key and a
/// nonce.
pub open spec fn is_sealed(b: AeadBox, n: Seq<u8>, plain: Seq<u8>, c: Seq<u8>, tag: Seq<u8>) -> bool {
    match b {
        AeadBox::Aes(k) => (c, tag) == crate::crypto::aes_gcm_sealed(k@, n, plain),
        AeadBox::Cha(k) => (c, tag) == crate::crypto::chacha_sealed(k@, n, plain),
    }
}

/// Law: a payload is sealed under the box's key and the nonce of its block, in
/// place, with its tag behind it; header and what follows stay as they were.
pub proof fn payloads_are_sealed_in_place()
    ensures
        forall|b: &AeadBox, buf: &mut [u8], hdr: usize, plen: usize, seq: u64, r: usize| #[trigger]
            call_ensures(AeadBox::seal_data, (b, buf, hdr, plen, seq), r) && hdr + plen + 16
                <= buf@.len() ==> {
                &&& r == hdr + plen + 16
                &&& final(buf)@.len() == buf@.len()
                &&& final(buf)@.take(hdr as int) == buf@.take(hdr as int)
                &&& final(buf)@.skip(r as int) == buf@.skip(r as int)
                &&& exists|n: Seq<u8>| #[trigger]
                    is_nonce(n, seq) && is_sealed(
                        *b,
                        n,
                        buf@.subrange(hdr as int, hdr + plen),
                        final(buf)@.subrange(hdr as int, hdr + plen),
                        final(buf)@.subrange(hdr + plen, r as int),
                    )
            },
        forall|b: &AeadBox, r: usize| #[trigger]
            call_ensures(AeadBox::overhead, (b,), r) ==> r == 16,
        forall|name: &str, key: &[u8], r: Result<AeadBox, String>| #[trigger]
            call_ensures(AeadBox::new, (name, key), r) ==> {
                let known = name@ == "aes-256-gcm"@ || name@ == "chacha20-poly1305"@;
                &&& r is Ok <==> key@.len() == 32 && known
                &&& r is Ok ==> r->Ok_0.key() == key@
                &&& r is Ok && name@ == "aes-256-gcm"@ ==> r->Ok_0 is Aes
                &&& r is Ok && name@ == "chacha20-poly1305"@ ==> r->Ok_0 is Cha
                &&& key@.len() != 32 ==> r->Err_0@ == "girth: bad key length "@ + crate::text::dec(
                    key@.len(),
                )
                &&& key@.len() == 32 && !known ==> r->Err_0@ == "girth: unknown cipher "@
                    + crate::text::debug_quoted(name@)
            },
        forall|b: &AeadBox, r: &'static str| #[trigger]
            call_ensures(AeadBox::name, (b,), r) ==> {
                &&& *b is Aes ==> r@ == "aes-256-gcm"@
                &&& *b is Cha ==> r@ == "chacha20-poly1305"@
            },
{
    reveal_strlit("aes-256-gcm");
    reveal_strlit("chacha20-poly1305");
    assert("aes-256-gcm"@.len() != "chacha20-poly1305"@.len());
    assert forall|b: &AeadBox, buf: &mut [u8], hdr: usize, plen: usize, seq: u64, r: usize|
     #[trigger]
        call_ensures(AeadBox::seal_data, (b, buf, hdr, plen, seq), r) && hdr + plen + 16
            <= buf@.len() implies {
        &&& r == hdr + plen + 16
        &&& final(buf)@.len() == buf@.len()
        &&& final(buf)@.take(hdr as int) == buf@.take(hdr as int)
        &&& final(buf)@.skip(r as int) == buf@.skip(r as int)
        &&& exists|n: Seq<u8>| #[trigger]
            is_nonce(n, seq) && is_sealed(
                *b,
                n,
                buf@.subrange(hdr as int, hdr + plen),
                final(buf)@.subrange(hdr as int, hdr + plen),
                final(buf)@.subrange(hdr + plen, r as int),
            )
    } by {
        let plain = buf@.subrange(hdr as int, hdr + plen);
        let (sealed, tag) = b.sealed(seq, plain);
        assert(final(buf)@.take(hdr as int) =~= buf@.take(hdr as int));
        assert(final(buf)@.skip(r as int) =~= buf@.skip(r as int));
        assert(final(buf)@.subrange(hdr as int, hdr + plen) =~= sealed);
        assert(final(buf)@.subrange(hdr + plen, r as int) =~= tag);
        block_nonce_is_one(seq);
        assert(is_nonce(crate::crypto::nonce_of(seq), seq));
    }
}

/// Law: what one box seals, a box with the same suite and key opens to the same
/// payload under the same block number; with another tag it does not open, and
/// what does not open is left as it was.
pub proof fn sealed_payloads_open()
    ensures
        forall|
            a: &AeadBox,
            buf: &mut [u8],
            hdr: usize,
            plen: usize,
            seq: u64,
            n: usize,
            b: &AeadBox,
            pay: &mut [u8],
            r: Option<usize>,
        |
            #![trigger call_ensures(AeadBox::seal_data, (a, buf, hdr, plen, seq), n), call_ensures(AeadBox::open_data, (b, pay, plen, seq), r)]
            call_ensures(AeadBox::seal_data, (a, buf, hdr, plen, seq), n) && call_ensures(
                AeadBox::open_data,
                (b, pay, plen, seq),
                r,
            ) && hdr + plen + 16 <= buf@.len() && a.suite() == b.suite() && a.key() == b.key()
                && pay@.len() >= plen + 16 && pay@.take(plen + 16) == final(buf)@.subrange(
                hdr as int,
                n as int,
            ) ==> r == Some(plen) && final(pay)@.take(plen as int) == buf@.subrange(
                hdr as int,
                hdr + plen,
            ),
        forall|b: &AeadBox, pay: &mut [u8], plen: usize, seq: u64, r: Option<usize>| #[trigger]
            call_ensures(AeadBox::open_data, (b, pay, plen, seq), r) ==> {
                &&& final(pay)@.len() == pay@.len()
                &&& r is None ==> final(pay)@ == pay@
                &&& pay@.len() < plen + 16 ==> r is None
                &&& r is Some ==> r == Some(plen) && final(pay)@.skip(plen as int) == pay@.skip(
                    plen as int,
                )
            },
{
    assert forall|
        a: &AeadBox,
        buf: &mut [u8],
        hdr: usize,
        plen: usize,
        seq: u64,
        n: usize,
        b: &AeadBox,
        pay: &mut [u8],
        r: Option<usize>,
    |
        #![trigger call_ensures(AeadBox::seal_data, (a, buf, hdr, plen, seq), n), call_ensures(AeadBox::open_data, (b, pay, plen, seq), r)]
        call_ensures(AeadBox::seal_data, (a, buf, hdr, plen, seq), n) && call_ensures(
            AeadBox::open_data,
            (b, pay, plen, seq),
            r,
        ) && hdr + plen + 16 <= buf@.len() && a.suite() == b.suite() && a.key() == b.key()
            && pay@.len() >= plen + 16 && pay@.take(plen + 16) == final(buf)@.subrange(
            hdr as int,
            n as int,
        ) implies r == Some(plen) && final(pay)@.take(plen as int) == buf@.subrange(
        hdr as int,
        hdr + plen,
    ) by {
        let plain = buf@.subrange(hdr as int, hdr + plen);
        let (sealed, tag) = a.sealed(seq, plain);
        let whole = pay@.take(plen + 16);
        assert(final(buf)@.subrange(hdr as int, n as int) =~= sealed + tag);
        assert(pay@.take(plen as int) =~= whole.take(plen as int));
        assert(whole.take(plen as int) =~= sealed);
        assert(pay@.subrange(plen as int, plen + 16) =~= whole.skip(plen as int));
        assert(whole.skip(plen as int) =~= tag);
        crate::crypto::equal_keys_interoperate(*a, *b, seq, sealed, tag);
        assert(b.opened(seq, sealed, tag) == Some(plain));
        assert(final(pay)@.take(plen as int) =~= plain);
    }
    assert forall|b: &AeadBox, pay: &mut [u8], plen: usize, seq: u64, r: Option<usize>| #[trigger]
        call_ensures(AeadBox::open_data, (b, pay, plen, seq), r) && r is Some implies r == Some(
        plen,
    ) && final(pay)@.skip(plen as int) == pay@.skip(plen as int) by {
        let plain = b.opened(
            seq,
            pay@.take(plen as int),
            pay@.subrange(plen as int, plen + 16),
        )->Some_0;
        assert(final(pay)@.len() == pay@.len());
        assert(plain.len() == plen);
        assert(final(pay)@.skip(plen as int) =~= pay@.skip(plen as int));
    }
}

// --- keys -------------------------------------------------------------------

/// Whether `key` is the data key of a session: derived from the secret that the two
/// ends share, salted with the session id, and bound to the name of the suite.
pub open spec fn is_data_key(
    key: Seq<u8>,
    salt: Seq<u8>,
    shared: Seq<u8>,
    session: u32,
    cipher: Seq<char>,
) -> bool {
    &&& salt.len() == 4
    &&& number_of(salt) == session
    &&& key == crate::crypto::hkdf_sha256(salt, shared, encode_utf8("girth data key "@ + cipher))
}

/// Law: a key is derived from the shared secret, the session and the suite, for a
/// peer's key of 32 bytes and a suite that is known, and for nothing else.
pub proof fn keys_are_bound_to_session_and_suite()
    ensures
        forall|
            secret: &SecretKey,
            peer: &[u8],
            session: u32,
            cipher: &str,
            r: Result<AeadBox, String>,
        | #[trigger]
            call_ensures(derive_aead, (secret, peer, session, cipher), r) ==> {
                let known = cipher@ == "aes-256-gcm"@ || cipher@ == "chacha20-poly1305"@;
                &&& r is Ok <==> peer@.len() == 32 && known
                &&& peer@.len() != 32 ==> r->Err_0@ == "girth: bad peer public key"@
                &&& peer@.len() == 32 && !known ==> r->Err_0@ == "girth: unknown cipher "@
                    + crate::text::debug_quoted(cipher@)
                &&& r is Ok ==> r->Ok_0.suite() == cipher@ && exists|salt: Seq<u8>| #[trigger]
                    is_data_key(
                        r->Ok_0.key(),
                        salt,
                        crate::crypto::x25519_shared(secret@, peer@),
                        session,
                        cipher@,
                    )
            },
        forall|r: (SecretKey, [u8; 32])| #[trigger]
            call_ensures(gen_keypair, (), r) ==> r.0@.len() == 32 && r.1@
                == crate::crypto::x25519_public(r.0@),
{
    assert forall|
        secret: &SecretKey,
        peer: &[u8],
        session: u32,
        cipher: &str,
        r: Result<AeadBox, String>,
    | #[trigger]
        call_ensures(derive_aead, (secret, peer, session, cipher), r) && r is Ok implies (exists|
        salt: Seq<u8>,
    | #[trigger]
        is_data_key(
            r->Ok_0.key(),
            salt,
            crate::crypto::x25519_shared(secret@, peer@),
            session,
            cipher@,
        )) by {
        let salt = crate::bytes::le32(session);
        crate::laws::wire::bytes_of_short_number(session);
        assert(is_data_key(
            r->Ok_0.key(),
            salt,
            crate::crypto::x25519_shared(secret@, peer@),
            session,
            cipher@,
        ));
    }
}

/// Law: two ends that exchange their public keys derive the same key.
pub proof fn mirrored_pairs_agree()
    ensures
        forall|
            x: (SecretKey, [u8; 32]),
            y: (SecretKey, [u8; 32]),
            xs: &SecretKey,
            ys: &SecretKey,
            xp: &[u8],
            yp: &[u8],
            session: u32,
            c: &str,
            d: &str,
            a: AeadBox,
            b: AeadBox,
        |
            #![trigger call_ensures(gen_keypair, (), x), call_ensures(gen_keypair, (), y), call_ensures(derive_aead, (xs, yp, session, c), Ok(a)), call_ensures(derive_aead, (ys, xp, session, d), Ok(b))]
            call_ensures(gen_keypair, (), x) && call_ensures(gen_keypair, (), y) && *xs == x.0
                && *ys == y.0 && xp@ == x.1@ && yp@ == y.1@ && c@ == d@ && call_ensures(
                derive_aead,
                (xs, yp, session, c),
                Ok(a),
            ) && call_ensures(derive_aead, (ys, xp, session, d), Ok(b)) ==> a.key() == b.key()
                && a.suite() == b.suite(),
{
}

/// Law: a server agrees on a key exactly where the client asks for one, lists a
/// suite of the server's and sends a public key of 32 bytes; a client takes a key
/// only where it asked for one.
pub proof fn keys_are_agreed_on_where_asked_for()
    ensures
        forall|
            encrypt: bool,
            listed: &[String],
            peer: &[u8],
            session: u32,
            aes: bool,
            r: Result<(bool, String, Vec<u8>, Option<Arc<AeadBox>>), String>,
        |
            #![trigger call_ensures(negotiate_crypto_server, (encrypt, listed, peer, session, aes), r)]
            call_ensures(negotiate_crypto_server, (encrypt, listed, peer, session, aes), r) ==> {
                let common = is_listed(listed@, "aes-256-gcm"@) || is_listed(
                    listed@,
                    "chacha20-poly1305"@,
                );
                &&& !encrypt ==> r is Ok && !r->Ok_0.0 && r->Ok_0.3 is None
                &&& encrypt ==> (r is Ok <==> common && peer@.len() == 32)
                &&& encrypt && r is Ok ==> {
                    let (on, cipher, public, key) = r->Ok_0;
                    &&& on
                    &&& key is Some
                    &&& key->Some_0.suite() == cipher@
                    &&& public@.len() == 32
                    &&& is_listed(listed@, cipher@)
                    &&& aes && is_listed(listed@, "aes-256-gcm"@) ==> cipher@ == "aes-256-gcm"@
                    &&& !aes && is_listed(listed@, "chacha20-poly1305"@) ==> cipher@
                        == "chacha20-poly1305"@
                }
                &&& encrypt && !common ==> r->Err_0@ == "no common cipher suite"@
                &&& encrypt && common && peer@.len() != 32 ==> r->Err_0@
                    == "girth: bad peer public key"@
            },
        forall|
            want: bool,
            on: bool,
            public: &[u8],
            session: u32,
            cipher: &str,
            secret: Option<&SecretKey>,
            r: Result<Option<Arc<AeadBox>>, String>,
        |
            #![trigger call_ensures(client_crypto, (want, on, public, session, cipher, secret), r)]
            call_ensures(client_crypto, (want, on, public, session, cipher, secret), r) ==> {
                &&& r is Ok ==> want == on && (r->Ok_0 is Some <==> want)
                &&& !want && !on ==> r is Ok
                &&& want && !on ==> r->Err_0@ == "server declined encryption"@
                &&& !want && on ==> r->Err_0@ == "server enabled encryption unexpectedly"@
                &&& want && on && secret is None ==> r->Err_0@
                    == "server enabled encryption unexpectedly"@
                &&& want && on && secret is Some ==> (r is Ok <==> public@.len() == 32 && (cipher@
                    == "aes-256-gcm"@ || cipher@ == "chacha20-poly1305"@))
            },
{
    reveal_strlit("aes-256-gcm");
    reveal_strlit("chacha20-poly1305");
    assert forall|
        encrypt: bool,
        listed: &[String],
        peer: &[u8],
        session: u32,
        aes: bool,
        r: Result<(bool, String, Vec<u8>, Option<Arc<AeadBox>>), String>,
    |
        #![trigger call_ensures(negotiate_crypto_server, (encrypt, listed, peer, session, aes), r)]
        call_ensures(negotiate_crypto_server, (encrypt, listed, peer, session, aes), r) implies {
        let common = is_listed(listed@, "aes-256-gcm"@) || is_listed(
            listed@,
            "chacha20-poly1305"@,
        );
        &&& !encrypt ==> r is Ok && !r->Ok_0.0 && r->Ok_0.3 is None
        &&& encrypt ==> (r is Ok <==> common && peer@.len() == 32)
        &&& encrypt && r is Ok ==> {
            let (on, cipher, public, key) = r->Ok_0;
            &&& on
            &&& key is Some
            &&& key->Some_0.suite() == cipher@
            &&& public@.len() == 32
            &&& is_listed(listed@, cipher@)
            &&& aes && is_listed(listed@, "aes-256-gcm"@) ==> cipher@ == "aes-256-gcm"@
            &&& !aes && is_listed(listed@, "chacha20-poly1305"@) ==> cipher@
                == "chacha20-poly1305"@
        }
        &&& encrypt && !common ==> r->Err_0@ == "no common cipher suite"@
        &&& encrypt && common && peer@.len() != 32 ==> r->Err_0@ == "girth: bad peer public key"@
    } by {
        let prefer = choose|prefer: Seq<String>| #[trigger]
            crate::crypto::is_local_ciphers(prefer, aes) && crate::crypto::negotiated(
                encrypt,
                prefer,
                listed@,
                peer@,
                session,
                r,
            );
        choice_is_first_common(prefer, listed@);
        let c = crate::crypto::chosen_cipher(prefer, listed@);
        assert(prefer[0]@ == prefer[0]@ && prefer[1]@ == prefer[1]@);
        assert(is_listed(listed@, prefer[0]@) || is_listed(listed@, prefer[1]@) <==> (is_listed(
            listed@,
            "aes-256-gcm"@,
        ) || is_listed(listed@, "chacha20-poly1305"@)));
        if c.len() > 0 {
            let i = choose|i: int|
                0 <= i < prefer.len() && #[trigger] prefer[i]@ == c && forall|j: int|
                    0 <= j < i ==> !is_listed(listed@, (#[trigger] prefer[j])@);
            assert(i == 1 ==> !is_listed(listed@, prefer[0]@));
        }
    }
}

/// Law: after a granted handshake with encryption both ends hold the same key. A
/// client takes the grant that answers its own hello, and what it is left with is
/// the server's key; without a token on either side.
pub proof fn granted_ends_hold_one_key()
    ensures
        forall|
            mode: &str,
            name: &str,
            size: i64,
            crc: u32,
            p: &TransferParams,
            warm: Option<RateWarmStart>,
            client_aes: bool,
            hello: Hello,
            secret: SecretKey,
            session: u32,
            port: i64,
            size2: i64,
            crc2: u32,
            server_aes: bool,
            a: Ack,
            key: Option<Arc<AeadBox>>,
            r: Result<Option<Arc<AeadBox>>, GirthError>,
        |
            #![trigger call_ensures(client_hello, (mode, name, size, crc, p, warm, None::<&[u8]>, client_aes), (hello, Some(secret))), call_ensures(answer, (&hello, session, port, size2, crc2, &None::<AuthState>, server_aes), Ok((a, key))), call_ensures(accept_ack, (&a, true, None::<&[u8]>, None::<&[u8]>, Some(&secret)), r)]
            call_ensures(
                client_hello,
                (mode, name, size, crc, p, warm, None::<&[u8]>, client_aes),
                (hello, Some(secret)),
            ) && call_ensures(
                answer,
                (&hello, session, port, size2, crc2, &None::<AuthState>, server_aes),
                Ok((a, key)),
            ) && call_ensures(
                accept_ack,
                (&a, true, None::<&[u8]>, None::<&[u8]>, Some(&secret)),
                r,
            ) && p.encrypt ==> {
                &&& r is Ok && r->Ok_0 is Some
                &&& key is Some
                &&& r->Ok_0->Some_0.key() == key->Some_0.key()
                &&& r->Ok_0->Some_0.suite() == key->Some_0.suite()
            },
{
    assert forall|
        mode: &str,
        name: &str,
        size: i64,
        crc: u32,
        p: &TransferParams,
        warm: Option<RateWarmStart>,
        client_aes: bool,
        hello: Hello,
        secret: SecretKey,
        session: u32,
        port: i64,
        size2: i64,
        crc2: u32,
        server_aes: bool,
        a: Ack,
        key: Option<Arc<AeadBox>>,
        r: Result<Option<Arc<AeadBox>>, GirthError>,
    |
        #![trigger call_ensures(client_hello, (mode, name, size, crc, p, warm, None::<&[u8]>, client_aes), (hello, Some(secret))), call_ensures(answer, (&hello, session, port, size2, crc2, &None::<AuthState>, server_aes), Ok((a, key))), call_ensures(accept_ack, (&a, true, None::<&[u8]>, None::<&[u8]>, Some(&secret)), r)]
        call_ensures(
            client_hello,
            (mode, name, size, crc, p, warm, None::<&[u8]>, client_aes),
            (hello, Some(secret)),
        ) && call_ensures(
            answer,
            (&hello, session, port, size2, crc2, &None::<AuthState>, server_aes),
            Ok((a, key)),
        ) && call_ensures(
            accept_ack,
            (&a, true, None::<&[u8]>, None::<&[u8]>, Some(&secret)),
            r,
        ) && p.encrypt implies {
        &&& r is Ok && r->Ok_0 is Some
        &&& key is Some
        &&& r->Ok_0->Some_0.key() == key->Some_0.key()
        &&& r->Ok_0->Some_0.suite() == key->Some_0.suite()
    } by {
        let got: Result<(Ack, Option<Arc<AeadBox>>), Ack> = Ok((a, key));
        let prefer = choose|prefer: Seq<String>| #[trigger]
            crate::crypto::is_local_ciphers(prefer, server_aes) && crate::transfer::answered(
                hello@,
                prefer,
                session,
                port,
                size2,
                crc2,
                None,
                got,
            );
        assert(hello@.encrypt);
        assert(key is Some);
        assert(a@.encrypt && a@.ok && a@.session == session);
        assert(a.pub_key is Some && a.pub_key->Some_0@.len() == 32);
        crate::crypto::chosen_is_preferred(prefer, crate::transfer::listed_ciphers(hello@));
        assert(crate::crypto::known_cipher(a.cipher@));
        assert(a@.pub_key == Some(a.pub_key->Some_0@));
        assert(r is Ok);
        let b = r->Ok_0->Some_0;
        crate::transfer::handshake_agrees_on_key(
            mode@,
            name@,
            size,
            crc,
            *p,
            warm,
            None,
            client_aes,
            hello@,
            secret,
            prefer,
            server_aes,
            session,
            port,
            size2,
            crc2,
            None,
            a,
            key->Some_0,
            b,
        );
    }
}

// --- proofs -----------------------------------------------------------------

/// Law: the client's proof covers the version, the mode, the name, the size and
/// the client's public key, in this order, each where the verifier expects it. A
/// proof is accepted for exactly the request that it was made for.
pub proof fn proofs_cover_the_request()
    ensures
        forall|
            token: &[u8],
            version: i64,
            mode: &str,
            name: &str,
            size: i64,
            public: &[u8],
            r: Vec<u8>,
        |
            #![trigger call_ensures(client_mac, (token, version, mode, name, size, public), r)]
            call_ensures(client_mac, (token, version, mode, name, size, public), r) ==> r@.len()
                == 32 && exists|v: Seq<u8>, z: Seq<u8>|
                v.len() == 8 && z.len() == 8 && #[trigger] number_of(v) == as_bits(version)
                    && #[trigger] number_of(z) == as_bits(size) && r@
                    == crate::auth::hmac_sha256(
                    token@,
                    encode_utf8("girth-auth-client-v1"@) + v + encode_utf8(mode@) + seq![0u8]
                        + encode_utf8(name@) + seq![0u8] + z + public@,
                ),
        forall|token: &[u8], session: u32, public: &[u8], mac: &[u8], r: Vec<u8>| #[trigger]
            call_ensures(server_mac, (token, session, public, mac), r) ==> r@.len() == 32
                && exists|s: Seq<u8>|
                s.len() == 4 && #[trigger] number_of(s) == session && r@
                    == crate::auth::hmac_sha256(
                    token@,
                    encode_utf8("girth-auth-server-v1"@) + s + public@ + mac@,
                ),
        forall|
            token: &[u8],
            version: i64,
            mode: &str,
            name: &str,
            size: i64,
            public: &[u8],
            m: Vec<u8>,
            presented: &[u8],
            ok: bool,
        |
            #![trigger call_ensures(client_mac, (token, version, mode, name, size, public), m), call_ensures(verify_client_mac, (token, version, mode, name, size, public, presented), ok)]
            call_ensures(client_mac, (token, version, mode, name, size, public), m)
                && call_ensures(
                verify_client_mac,
                (token, version, mode, name, size, public, presented),
                ok,
            ) ==> (ok <==> presented@ == m@),
        forall|
            token: &[u8],
            session: u32,
            public: &[u8],
            mac: &[u8],
            m: Vec<u8>,
            presented: &[u8],
            ok: bool,
        |
            #![trigger call_ensures(server_mac, (token, session, public, mac), m), call_ensures(verify_server_mac, (token, session, public, mac, presented), ok)]
            call_ensures(server_mac, (token, session, public, mac), m) && call_ensures(
                verify_server_mac,
                (token, session, public, mac, presented),
                ok,
            ) ==> (ok <==> presented@ == m@),
{
    assert forall|
        token: &[u8],
        version: i64,
        mode: &str,
        name: &str,
        size: i64,
        public: &[u8],
        r: Vec<u8>,
    |
        #![trigger call_ensures(client_mac, (token, version, mode, name, size, public), r)]
        call_ensures(client_mac, (token, version, mode, name, size, public), r) implies r@.len()
        == 32 && exists|v: Seq<u8>, z: Seq<u8>|
        v.len() == 8 && z.len() == 8 && #[trigger] number_of(v) == as_bits(version)
            && #[trigger] number_of(z) == as_bits(size) && r@ == crate::auth::hmac_sha256(
            token@,
            encode_utf8("girth-auth-client-v1"@) + v + encode_utf8(mode@) + seq![0u8]
                + encode_utf8(name@) + seq![0u8] + z + public@,
        ) by {
        let v = crate::bytes::le64(crate::bytes::bits_of_i64(version));
        let z = crate::bytes::le64(crate::bytes::bits_of_i64(size));
        crate::laws::wire::bytes_of_signed_number(version);
        crate::laws::wire::bytes_of_signed_number(size);
        assert(number_of(v) == as_bits(version));
        assert(number_of(z) == as_bits(size));
    }
    assert forall|token: &[u8], session: u32, public: &[u8], mac: &[u8], r: Vec<u8>| #[trigger]
        call_ensures(server_mac, (token, session, public, mac), r) implies r@.len() == 32
        && exists|s: Seq<u8>|
        s.len() == 4 && #[trigger] number_of(s) == session && r@ == crate::auth::hmac_sha256(
            token@,
            encode_utf8("girth-auth-server-v1"@) + s + public@ + mac@,
        ) by {
        crate::laws::wire::bytes_of_short_number(session);
        assert(number_of(crate::bytes::le32(session)) == session);
    }
}

} // verus!
