//! Data-plane encryption.

use girth::crypto::{
    choose_cipher, ciphers_if, client_crypto, derive_aead, gen_keypair, local_ciphers,
    negotiate_crypto_server, AeadBox, AEAD_TAG_LEN, CIPHER_AES_GCM, CIPHER_CHACHA,
};
use girth::protocol::DATA_HEADER_SIZE;
use std::sync::Arc;

fn pair_boxes(cipher_name: &str) -> (AeadBox, AeadBox) {
    let (cpriv, cpub) = gen_keypair();
    let (spriv, spub) = gen_keypair();
    const SESSION: u32 = 0xABCD1234;
    let client = derive_aead(&cpriv, &spub, SESSION, cipher_name).unwrap();
    let server = derive_aead(&spriv, &cpub, SESSION, cipher_name).unwrap();
    (client, server)
}

/// Seals `plaintext` into a fresh PDU-shaped buffer and returns the payload
/// region (ciphertext || tag).
fn seal_copy(b: &AeadBox, plaintext: &[u8], seq: u64) -> Vec<u8> {
    let mut buf = vec![0u8; DATA_HEADER_SIZE + plaintext.len() + AEAD_TAG_LEN];
    buf[DATA_HEADER_SIZE..DATA_HEADER_SIZE + plaintext.len()].copy_from_slice(plaintext);
    let size = b.seal_data(&mut buf, DATA_HEADER_SIZE, plaintext.len(), seq);
    assert_eq!(size, DATA_HEADER_SIZE + plaintext.len() + AEAD_TAG_LEN);
    buf[DATA_HEADER_SIZE..size].to_vec()
}

#[test]
fn aead_round_trip_both_suites() {
    for name in [CIPHER_AES_GCM, CIPHER_CHACHA] {
        let (client, server) = pair_boxes(name);
        let plaintext = b"the quick brown fox jumps over the lazy dog";
        let mut payload = seal_copy(&client, plaintext, 42);
        assert_ne!(
            &payload[..plaintext.len()],
            &plaintext[..],
            "{name}: not encrypted"
        );
        let n = server
            .open_data(&mut payload, plaintext.len(), 42)
            .expect("open failed");
        assert_eq!(&payload[..n], &plaintext[..], "{name}");
    }
}

#[test]
fn aead_rejects_tampering() {
    let (client, server) = pair_boxes(CIPHER_AES_GCM);
    let plaintext = b"sensitive bytes";

    let mut payload = seal_copy(&client, plaintext, 7);
    payload[0] ^= 0xFF;
    assert!(server.open_data(&mut payload, plaintext.len(), 7).is_none());

    let mut payload = seal_copy(&client, plaintext, 7);
    let last = payload.len() - 1;
    payload[last] ^= 0xFF;
    assert!(server.open_data(&mut payload, plaintext.len(), 7).is_none());

    // Wrong block sequence (nonce mismatch) must fail authentication.
    let mut payload = seal_copy(&client, plaintext, 7);
    assert!(server.open_data(&mut payload, plaintext.len(), 8).is_none());
}

#[test]
fn aead_wrong_key_fails() {
    let (client, _) = pair_boxes(CIPHER_CHACHA);
    let (_, other) = pair_boxes(CIPHER_CHACHA);
    let mut payload = seal_copy(&client, b"payload", 1);
    assert!(other.open_data(&mut payload, b"payload".len(), 1).is_none());
}

#[test]
fn aead_empty_payload() {
    let (client, server) = pair_boxes(CIPHER_AES_GCM);
    let mut payload = seal_copy(&client, b"", 0);
    let n = server
        .open_data(&mut payload, 0, 0)
        .expect("empty roundtrip failed");
    assert_eq!(n, 0);
}

#[test]
fn choose_cipher_cases() {
    let aes = CIPHER_AES_GCM.to_string();
    let cha = CIPHER_CHACHA.to_string();
    let cases: Vec<(Vec<String>, Vec<String>, &str)> = vec![
        (
            vec![aes.clone(), cha.clone()],
            vec![cha.clone(), aes.clone()],
            CIPHER_AES_GCM,
        ),
        (
            vec![cha.clone(), aes.clone()],
            vec![aes.clone()],
            CIPHER_AES_GCM,
        ),
        (vec![aes.clone()], vec![cha.clone()], ""),
        (
            vec![cha.clone(), aes.clone()],
            vec![cha.clone(), aes.clone()],
            CIPHER_CHACHA,
        ),
    ];
    for (i, (prefer, peer, want)) in cases.iter().enumerate() {
        assert_eq!(choose_cipher(prefer, peer), *want, "case {i}");
    }
}

#[test]
fn server_negotiation_no_encrypt() {
    let (enc, _, _, b) = negotiate_crypto_server(false, &[], &[], 1, true).unwrap();
    assert!(!enc);
    assert!(b.is_none());
}

#[test]
fn client_crypto_fails_closed() {
    // User wanted encryption but server declined -> must error, not downgrade.
    assert!(client_crypto(true, false, &[], 0, "", None).is_err());
}

#[test]
fn full_handshake_negotiation_round_trip() {
    // Client requests encryption; server negotiates and both derive a matching
    // key that can seal/open across the boundary.
    for aes_hardware in [true, false] {
        let (cpriv, cpub) = gen_keypair();
        let session = 0x1122_3344u32;
        let (enc, cipher, spub, sbox) = negotiate_crypto_server(
            true,
            &local_ciphers(aes_hardware),
            &cpub,
            session,
            aes_hardware,
        )
        .unwrap();
        assert!(enc);
        let sbox = sbox.unwrap();
        let cbox: Arc<AeadBox> = client_crypto(true, true, &spub, session, &cipher, Some(&cpriv))
            .unwrap()
            .unwrap();

        let mut payload = seal_copy(&cbox, b"hello over the wire", 9);
        let n = sbox
            .open_data(&mut payload, b"hello over the wire".len(), 9)
            .unwrap();
        assert_eq!(&payload[..n], b"hello over the wire");
    }
}

#[test]
fn hardware_decides_which_suite_is_preferred() {
    assert_eq!(local_ciphers(true), vec![CIPHER_AES_GCM, CIPHER_CHACHA]);
    assert_eq!(local_ciphers(false), vec![CIPHER_CHACHA, CIPHER_AES_GCM]);
    assert_eq!(ciphers_if(false, true), None);
    assert_eq!(ciphers_if(true, false), Some(local_ciphers(false)));
}

#[test]
fn negotiation_refuses_what_it_cannot_do() {
    let (_, cpub) = gen_keypair();
    // No suite in common.
    assert!(negotiate_crypto_server(true, &["rot13".to_string()], &cpub, 1, true).is_err());
    // A public key of the wrong length.
    assert!(negotiate_crypto_server(true, &local_ciphers(true), &cpub[..31], 1, true).is_err());
    // Encryption that the client did not ask for is refused as well.
    assert!(matches!(
        client_crypto(false, true, &[], 0, "", None),
        Err(e) if e == "server enabled encryption unexpectedly"
    ));
    assert!(client_crypto(false, false, &[], 0, "", None).unwrap().is_none());
    // An unknown suite, and a key of the wrong length.
    assert!(AeadBox::new("rot13", &[0u8; 32]).is_err());
    assert!(AeadBox::new(CIPHER_CHACHA, &[0u8; 31]).is_err());
    let (k, _) = gen_keypair();
    assert!(derive_aead(&k, &[0u8; 5], 1, CIPHER_AES_GCM).is_err());
}

#[test]
fn aead_known_answers() {
    // AES-256-GCM with an all-zero key and nonce over 16 zero bytes.
    let aes = AeadBox::new(CIPHER_AES_GCM, &[0u8; 32]).unwrap();
    assert_eq!(aes.name(), CIPHER_AES_GCM);
    assert_eq!(aes.overhead(), 16);
    let mut buf = vec![0u8; 32];
    assert_eq!(aes.seal_data(&mut buf, 0, 16, 0), 32);
    assert_eq!(
        &buf[..16],
        &[
            0xce, 0xa7, 0x40, 0x3d, 0x4d, 0x60, 0x6b, 0x6e, 0x07, 0x4e, 0xc5, 0xd3, 0xba, 0xf3,
            0x9d, 0x18
        ]
    );
    assert_eq!(
        &buf[16..],
        &[
            0xd0, 0xd1, 0xc8, 0xa7, 0x99, 0x99, 0x6b, 0xf0, 0x26, 0x5b, 0x98, 0xb5, 0xd4, 0x8a,
            0xb9, 0x19
        ]
    );
    let cha = AeadBox::new(CIPHER_CHACHA, &[0u8; 32]).unwrap();
    assert_eq!(cha.name(), CIPHER_CHACHA);
    let mut other = vec![0u8; 32];
    cha.seal_data(&mut other, 0, 16, 0);
    // The ChaCha20 key stream of block one under an all-zero key and nonce.
    assert_eq!(
        &other[..16],
        &[
            0x9f, 0x07, 0xe7, 0xbe, 0x55, 0x51, 0x38, 0x7a, 0x98, 0xba, 0x97, 0x7c, 0x73, 0x2d,
            0x08, 0x0d
        ]
    );
}

#[test]
fn sessions_have_keys_of_their_own() {
    let (cpriv, _) = gen_keypair();
    let (_, spub) = gen_keypair();
    let a = derive_aead(&cpriv, &spub, 1, CIPHER_AES_GCM).unwrap();
    let b = derive_aead(&cpriv, &spub, 2, CIPHER_AES_GCM).unwrap();
    assert_ne!(seal_copy(&a, b"same", 0), seal_copy(&b, b"same", 0));
    // Every block has a nonce of its own.
    assert_ne!(seal_copy(&a, b"same", 0), seal_copy(&a, b"same", 1));
}

#[test]
fn opening_wants_the_whole_tag() {
    let (client, server) = pair_boxes(CIPHER_CHACHA);
    let mut payload = seal_copy(&client, b"abc", 3);
    let short = payload.len() - 1;
    assert!(server.open_data(&mut payload[..short], 3, 3).is_none());
}
