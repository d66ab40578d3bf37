//! Proofs of a shared token.

use girth::auth::{client_mac, server_mac, verify_client_mac, verify_server_mac};

#[test]
fn client_mac_roundtrip_and_binding() {
    let token = b"s3cr3t";
    let pk = [9u8; 32];
    let mac = client_mac(token, 1, "send", "obj", 100, &pk);
    assert!(verify_client_mac(token, 1, "send", "obj", 100, &pk, &mac));
    // Wrong token, wrong field, or swapped key all fail.
    assert!(!verify_client_mac(
        b"other", 1, "send", "obj", 100, &pk, &mac
    ));
    assert!(!verify_client_mac(token, 1, "send", "obj", 101, &pk, &mac));
    assert!(!verify_client_mac(
        token, 1, "send", "obj", 100, &[1u8; 32], &mac
    ));
    assert!(!verify_client_mac(token, 1, "recv", "obj", 100, &pk, &mac));
}

#[test]
fn server_mac_roundtrip() {
    let token = b"s3cr3t";
    let cmac = client_mac(token, 1, "recv", "obj", 0, &[]);
    let spub = [7u8; 32];
    let smac = server_mac(token, 42, &spub, &cmac);
    assert!(verify_server_mac(token, 42, &spub, &cmac, &smac));
    assert!(!verify_server_mac(token, 43, &spub, &cmac, &smac));
    assert!(!verify_server_mac(b"nope", 42, &spub, &cmac, &smac));
}

#[test]
fn proofs_are_sha256_tags() {
    let mac = client_mac(b"k", 1, "send", "n", 3, b"");
    assert_eq!(mac.len(), 32);
    // A truncated or empty proof is none.
    assert!(!verify_client_mac(b"k", 1, "send", "n", 3, b"", &mac[..31]));
    assert!(!verify_client_mac(b"k", 1, "send", "n", 3, b"", b""));
    // Fields do not run into one another.
    assert_ne!(
        client_mac(b"k", 1, "send", "ab", 3, b""),
        client_mac(b"k", 1, "senda", "b", 3, b"")
    );
    // A client's proof is not a server's.
    assert!(!verify_server_mac(b"k", 1, b"", b"", &mac));
}
