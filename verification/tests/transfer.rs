//! Names, addresses and typed refusals.

use girth::control::{
    basename, decode_bytes, encode_bytes, frame_message, message_len, Ack, Hello,
};
use girth::error::{GirthError, IoError, IoKind};
use girth::transfer::{
    ack_err, admits, check_integrity, check_received, check_source_len, connection_ended,
    normalize_listen_addr, peer_target, recv_config, reject_error, send_config,
    served_object_name, warm_from_hello,
};
use girth::{default_params, ServerLimits};

#[test]
fn data_planes_run_with_what_was_agreed_on() {
    let mut p = default_params();
    p.block_size = 1000;
    p.read_workers = 3;
    p.feedback_interval_us = 7;
    p.net_tick_interval_us = 8;
    let s = send_config(&p, 55, 9, 2001, None);
    assert_eq!((s.file_size, s.block_size, s.total_blocks), (2001, 1000, 3));
    assert_eq!((s.session, s.read_workers), (9, 3));
    assert_eq!(s.rate, p.rate_config(55));
    assert!(s.crypto.is_none());
    let r = recv_config(&p, 55, 9, 2000, None);
    assert_eq!((r.file_size, r.block_size, r.total_blocks), (2000, 1000, 2));
    assert_eq!((r.session, r.read_workers), (9, 3));
    assert_eq!(r.rate, p.rate_config(55));
    assert_eq!((r.feedback_interval_us, r.net_tick_interval_us), (7, 8));
    assert_eq!(r.max_nacks_per_pdu, 0);
    assert!(r.crypto.is_none());
}

#[test]
fn listen_addr_shorthand() {
    assert_eq!(normalize_listen_addr(":7400"), "0.0.0.0:7400");
    assert_eq!(normalize_listen_addr("7400"), "0.0.0.0:7400");
    assert_eq!(normalize_listen_addr("0.0.0.0:7400"), "0.0.0.0:7400");
    assert_eq!(normalize_listen_addr("127.0.0.1:7400"), "127.0.0.1:7400");
    assert_eq!(normalize_listen_addr("[::]:7400"), "[::]:7400");
    assert_eq!(normalize_listen_addr("[::1]:7400"), "[::1]:7400");
}

#[test]
fn listen_addr_is_trimmed() {
    assert_eq!(normalize_listen_addr("  :80\t"), "0.0.0.0:80");
    assert_eq!(normalize_listen_addr("\u{3000}80\u{a0}"), "0.0.0.0:80");
    assert_eq!(normalize_listen_addr(""), "");
    assert_eq!(normalize_listen_addr("host"), "host");
}

#[test]
fn object_names_are_last_parts() {
    for (path, want) in [
        ("a", Some("a")),
        ("a/b/c.bin", Some("c.bin")),
        ("../escapee", Some("escapee")),
        ("/etc/passwd", Some("passwd")),
        ("dir/", Some("dir")),
        ("dir//", Some("dir")),
        ("dir/.", Some("dir")),
        ("..", None),
        ("/", None),
        ("", None),
        ("a\\b", None),
        ("x/a\\b", None),
    ] {
        match (served_object_name(path, false), want) {
            (Ok(got), Some(w)) => assert_eq!(got, w, "{path:?}"),
            (Err(e), None) => {
                assert_eq!(e.kind, IoKind::InvalidInput);
                assert_eq!(e.message, "invalid object name");
            }
            (got, w) => panic!("{path:?}: {got:?} {w:?}"),
        }
    }
}

#[test]
fn basename_agrees_with_std() {
    let alphabet = ['/', '.', 'a', 'b', ' '];
    let mut paths = vec![String::new()];
    for _ in 0..6 {
        let mut longer = Vec::new();
        for p in &paths {
            for c in alphabet {
                longer.push(format!("{p}{c}"));
            }
        }
        for p in &longer {
            let std = std::path::Path::new(p)
                .file_name()
                .map(|s| s.to_string_lossy().into_owned())
                .unwrap_or_else(|| p.clone());
            assert_eq!(basename(p), std, "{p:?}");
        }
        paths = longer;
    }
}

#[test]
fn peer_targets() {
    assert_eq!(peer_target("example.org:7400", 9000), "example.org:9000");
    assert_eq!(peer_target("[::1]:7400", 9000), "::1:9000");
    assert_eq!(peer_target("host", -1), "host:-1");
}

#[test]
fn framing() {
    assert_eq!(frame_message(b"{}"), vec![2, 0, 0, 0, b'{', b'}']);
    assert_eq!(message_len(&[2, 0, 0, 0]).unwrap(), 2);
    assert_eq!(message_len(&[0, 0, 16, 0]).unwrap(), 1 << 20);
    assert!(message_len(&[1, 0, 16, 0]).is_err());
}

#[test]
fn byte_fields_travel_as_base64() {
    assert_eq!(encode_bytes(&None), None);
    assert_eq!(
        encode_bytes(&Some(b"girth!?".to_vec())),
        Some("Z2lydGghPw==".to_string())
    );
    assert_eq!(decode_bytes(&None).unwrap(), None);
    assert_eq!(
        decode_bytes(&Some("Z2lydGghPw==".to_string())).unwrap(),
        Some(b"girth!?".to_vec())
    );
    assert!(decode_bytes(&Some("not base64!".to_string())).is_err());
}

#[test]
fn integrity_is_a_hard_error() {
    assert!(check_integrity(Some(5), 5).is_ok());
    assert!(check_integrity(None, 5).is_ok());
    assert!(matches!(
        check_integrity(Some(4), 5),
        Err(GirthError::Integrity)
    ));
    assert!(check_received("n", Some(5), 5).is_ok());
    let e = check_received("a\"b", Some(0xab), 0x1234_5678).unwrap_err();
    assert_eq!(
        e.message,
        "integrity failure \"a\\\"b\": crc got=000000ab want=12345678"
    );
}

#[test]
fn server_room() {
    let limits = ServerLimits {
        max_concurrent_connections: 2,
        max_object_size: 100,
        ..ServerLimits::default()
    };
    assert!(admits(&limits, 1));
    assert!(!admits(&limits, 2));
    assert_eq!(check_source_len(100, &limits), Ok(100));
    assert_eq!(
        check_source_len(101, &limits),
        Err("object too large: 101 > 100".to_string())
    );
    let wide = ServerLimits {
        max_object_size: u64::MAX,
        ..ServerLimits::default()
    };
    assert_eq!(
        check_source_len(1 << 63, &wide),
        Err("object too large for protocol size field".to_string())
    );
}

#[test]
fn refusals_are_typed() {
    let refused = |s: &str| reject_error(&ack_err(s, false));
    assert!(matches!(reject_error(&ack_err("x", true)), GirthError::AuthDenied));
    assert!(matches!(
        refused("No such file or directory (os error 2)"),
        GirthError::NotFound
    ));
    assert!(matches!(
        refused("protocol version mismatch"),
        GirthError::VersionMismatch
    ));
    assert!(matches!(refused("negative size"), GirthError::Protocol(s) if s == "negative size"));
    let a: Ack = ack_err("x", true);
    assert!(!a.ok && a.auth_required && a.err == "x" && a.session == 0);
}

#[test]
fn errors_have_texts_and_classes() {
    let io = |k| GirthError::from(IoError::new(k, "why"));
    assert!(io(IoKind::TimedOut).is_retryable());
    assert!(io(IoKind::WouldBlock).is_retryable());
    assert!(!io(IoKind::Other).is_retryable());
    assert!(matches!(io(IoKind::NotFound), GirthError::NotFound | GirthError::Io(_)));
    assert!(!GirthError::AuthDenied.is_retryable());
    assert!(!GirthError::Integrity.is_retryable());
    assert!(!GirthError::Protocol("p".to_string()).is_retryable());
    assert!(GirthError::AuthDenied.message().contains("authentication denied"));
    assert!(GirthError::Protocol("odd".to_string()).message().contains("odd"));
    assert_eq!(GirthError::Io(IoError::other("why")).into_io().message, "why");
    assert!(girth::sys::is_timeout(&IoError::new(IoKind::WouldBlock, "")));
    assert!(!girth::sys::is_timeout(&IoError::other("")));
    assert!(connection_ended(&IoError::new(IoKind::UnexpectedEof, "")));
    assert!(connection_ended(&IoError::new(IoKind::ConnectionReset, "")));
    assert!(!connection_ended(&IoError::other("")));
}

#[test]
fn warm_starts_come_from_adaptive_clients_only() {
    let mut h = Hello {
        warm_rate_bps: 7,
        ..Default::default()
    };
    assert_eq!(warm_from_hello(&h), None);
    h.adaptive = true;
    assert_eq!(warm_from_hello(&h).unwrap().rate_bps, 7);
    h.warm_rate_bps = 0;
    assert_eq!(warm_from_hello(&h), None);
}
