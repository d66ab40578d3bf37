//! The control side of a transfer, step by step.

use girth::control::{host_basename, message_len, slashed, Ack, Hello};
use girth::crypto::AeadBox;
use girth::error::{GirthError, IoError, IoKind};
use girth::sender::stopped_error;
use girth::session::{
    client_begin, client_phase, client_step, server_step, Action, ClientAction, ClientEvent,
    ClientStage, Event, Host, Job, Stage,
};
use girth::transfer::{served_object_name, Direction};
use girth::{default_params, ServerLimits, TransferParams, TransferPhase};
use std::sync::Arc;

const HOST: Host = Host {
    aes_hardware: true,
    backslash: false,
};

fn job(direction: Direction, name: &str) -> Job {
    let mut params = default_params();
    params.encrypt = false;
    Job {
        direction,
        name: name.to_string(),
        params,
        warm: None,
        token: None,
        aes_hardware: true,
    }
}

fn serve(stage: Stage, event: Event) -> (Stage, Action) {
    server_step(
        stage,
        event,
        &default_params(),
        &ServerLimits::default(),
        &HOST,
    )
}

/// The hello of a client, with the stage that waits for the ack.
fn greet(job: &Job, size: i64, crc: u32) -> (ClientStage, Hello) {
    let (mut stage, mut action) = client_begin(job);
    if matches!(job.direction, Direction::Push) {
        assert!(matches!(action, ClientAction::Checksum));
        (stage, action) = client_step(job, stage, ClientEvent::Summed(Ok((size, crc))));
    }
    assert!(matches!(action, ClientAction::SendHello));
    let ClientStage::Greeting(hello, secret) = stage else {
        panic!("no greeting");
    };
    let copy = Hello {
        version: hello.version,
        mode: hello.mode.clone(),
        name: hello.name.clone(),
        size: hello.size,
        block_size: hello.block_size,
        rate_bps: hello.rate_bps,
        max_bps: hello.max_bps,
        adaptive: hello.adaptive,
        alpha_bps: hello.alpha_bps,
        crc32c: hello.crc32c,
        warm_rate_bps: hello.warm_rate_bps,
        warm_srtt_net_us: hello.warm_srtt_net_us,
        warm_base_rtt_us: hello.warm_base_rtt_us,
        encrypt: hello.encrypt,
        ciphers: hello.ciphers.clone(),
        pub_key: hello.pub_key.clone(),
        auth_mac: hello.auth_mac.clone(),
    };
    let (stage, action) = client_step(
        job,
        ClientStage::Greeting(hello, secret),
        ClientEvent::Sent(Ok(())),
    );
    assert!(matches!(action, ClientAction::ReadAck));
    (stage, copy)
}

fn hello_of(job: &Job, size: i64, crc: u32) -> Hello {
    greet(job, size, crc).1
}

fn refused(step: (Stage, Action)) -> (String, bool) {
    match step {
        (Stage::Over, Action::Refuse(a)) => {
            assert!(!a.ok);
            (a.err, a.auth_required)
        }
        _ => panic!("not refused"),
    }
}

fn declined(step: (Stage, Action)) -> String {
    match step {
        (Stage::Idle, Action::Decline(a)) => {
            assert!(!a.ok && !a.auth_required);
            a.err
        }
        _ => panic!("not declined"),
    }
}

fn ended(step: (Stage, Action)) -> Result<(), IoError> {
    match step {
        (Stage::Over, Action::End(r)) => r,
        _ => panic!("not over"),
    }
}

fn failed(step: (ClientStage, ClientAction)) -> GirthError {
    match step {
        (ClientStage::Over, ClientAction::End(Err(e))) => e,
        _ => panic!("not failed"),
    }
}

/// A server that waits for the object to be opened.
fn opening(h: Hello) -> Stage {
    let (stage, action) = serve(Stage::Idle, Event::Request(Ok(h)));
    assert!(matches!(action, Action::Authorize { .. }));
    serve(stage, Event::Token(None)).0
}

/// A server that has granted a push of this checksum.
fn granting(crc: u32) -> (Stage, Ack) {
    let stage = opening(hello_of(&job(Direction::Push, "o"), 9, crc));
    let (stage, _) = serve(stage, Event::SinkOpened(Ok(())));
    match serve(stage, Event::Bound(Ok(7000))) {
        (stage, Action::Grant(a, None)) => (stage, a),
        _ => panic!("not granted"),
    }
}

#[test]
fn push_is_served_and_the_next_request_awaited() {
    let h = hello_of(&job(Direction::Push, "dir/o.bin"), 10, 77);
    let (stage, action) = serve(Stage::Idle, Event::Request(Ok(h)));
    let Action::Authorize { mode, name } = action else {
        panic!("authorizer not asked");
    };
    assert_eq!((mode.as_str(), name.as_str()), ("send", "o.bin"));
    let (stage, action) = serve(stage, Event::Token(None));
    let Action::OpenSink { name, size } = action else {
        panic!("no sink");
    };
    assert_eq!((name.as_str(), size), ("o.bin", 10));
    let (stage, action) = serve(stage, Event::SinkOpened(Ok(())));
    assert!(matches!(action, Action::Bind));
    let (stage, action) = serve(stage, Event::Bound(Ok(4321)));
    let Action::Grant(ack, None) = action else {
        panic!("no grant");
    };
    assert!(ack.ok);
    assert_eq!((ack.udp_port, ack.size, ack.crc32c), (4321, 0, 0));
    assert_eq!(ack.name, "dir/o.bin");
    let (stage, action) = serve(stage, Event::Sent(Ok(())));
    assert!(matches!(action, Action::Run));
    let (stage, action) = serve(stage, Event::Moved(Ok(())));
    assert!(matches!(action, Action::ReadBack));
    let (stage, action) = serve(stage, Event::ReadBack(Ok(Some(77))));
    assert!(matches!((stage, action), (Stage::Idle, Action::ReadRequest)));
}

#[test]
fn pull_is_served_and_the_next_request_awaited() {
    let h = hello_of(&job(Direction::Pull, "o.bin"), 0, 0);
    let (stage, _) = serve(Stage::Idle, Event::Request(Ok(h)));
    let (stage, action) = serve(stage, Event::Token(None));
    let Action::OpenSource { name } = action else {
        panic!("no source");
    };
    assert_eq!(name, "o.bin");
    let (stage, action) = serve(stage, Event::SourceOpened(Ok(12)));
    assert!(matches!(action, Action::Checksum));
    let (stage, action) = serve(stage, Event::Summed(Ok(99)));
    assert!(matches!(action, Action::Bind));
    let (stage, action) = serve(stage, Event::Bound(Ok(4321)));
    let Action::Grant(ack, None) = action else {
        panic!("no grant");
    };
    assert_eq!((ack.size, ack.crc32c), (12, 99));
    let (stage, action) = serve(stage, Event::Sent(Ok(())));
    assert!(matches!(action, Action::Run));
    let (stage, action) = serve(stage, Event::Moved(Ok(())));
    assert!(matches!((stage, action), (Stage::Idle, Action::ReadRequest)));
}

#[test]
fn connection_ends_with_the_client_or_the_server() {
    assert!(ended(serve(Stage::Idle, Event::Stopped)).is_ok());
    for kind in [IoKind::UnexpectedEof, IoKind::ConnectionReset] {
        let gone = IoError::new(kind, "gone");
        assert!(ended(serve(Stage::Idle, Event::Request(Err(gone)))).is_ok());
    }
    let bad = IoError::other("bad message");
    let e = ended(serve(Stage::Idle, Event::Request(Err(bad)))).unwrap_err();
    assert_eq!(e.message, "bad message");
}

#[test]
fn unacceptable_requests_end_the_connection() {
    let mut h = hello_of(&job(Direction::Push, "o"), 1, 0);
    h.version += 1;
    assert_eq!(
        refused(serve(Stage::Idle, Event::Request(Ok(h)))),
        ("protocol version mismatch".to_string(), false)
    );
    let mut h = hello_of(&job(Direction::Push, "o"), 1, 0);
    h.size = -1;
    assert_eq!(
        refused(serve(Stage::Idle, Event::Request(Ok(h)))),
        ("negative size".to_string(), false)
    );
}

#[test]
fn unproven_clients_are_refused() {
    let authorizing = |token: Option<Vec<u8>>| {
        let mut j = job(Direction::Pull, "o");
        j.token = token;
        serve(Stage::Idle, Event::Request(Ok(hello_of(&j, 0, 0)))).0
    };
    let expected = || Event::Token(Some(Ok(b"secret".to_vec())));
    assert_eq!(
        refused(serve(authorizing(None), expected())),
        ("auth required".to_string(), true)
    );
    assert_eq!(
        refused(serve(authorizing(Some(b"guess".to_vec())), expected())),
        ("auth denied".to_string(), true)
    );
    let denied = Event::Token(Some(Err("not yours".to_string())));
    assert_eq!(
        refused(serve(authorizing(Some(b"secret".to_vec())), denied)),
        ("auth denied: not yours".to_string(), true)
    );
    let (stage, action) = serve(authorizing(Some(b"secret".to_vec())), expected());
    assert!(matches!(stage, Stage::Opening(_)));
    assert!(matches!(action, Action::OpenSource { .. }));
}

#[test]
fn unservable_objects_are_declined_and_the_connection_goes_on() {
    let nameless = serve(
        Stage::Idle,
        Event::Request(Ok(hello_of(&job(Direction::Push, ".."), 1, 0))),
    );
    assert_eq!(
        declined(serve(nameless.0, Event::Token(None))),
        "invalid object name"
    );

    let full = Event::SinkOpened(Err(IoError::other("disk full")));
    let stage = opening(hello_of(&job(Direction::Push, "o"), 1, 0));
    assert_eq!(declined(serve(stage, full)), "disk full");

    let pull = || opening(hello_of(&job(Direction::Pull, "o"), 0, 0));
    let absent = IoError::new(IoKind::NotFound, "no such file");
    assert_eq!(
        declined(serve(pull(), Event::SourceOpened(Err(absent)))),
        "no such file"
    );
    assert_eq!(
        declined(serve(pull(), Event::SourceOpened(Ok((1 << 40) + 1)))),
        "object too large: 1099511627777 > 1099511627776"
    );
    let (stage, _) = serve(pull(), Event::SourceOpened(Ok(5)));
    let unread = IoError::other("read failed");
    assert_eq!(
        declined(serve(stage, Event::Summed(Err(unread)))),
        "read failed"
    );
}

#[test]
fn foreign_suites_are_declined() {
    let mut j = job(Direction::Push, "o");
    j.params.encrypt = true;
    let mut h = hello_of(&j, 1, 0);
    h.ciphers = Some(vec!["rot13".to_string()]);
    let (stage, _) = serve(opening(h), Event::SinkOpened(Ok(())));
    assert_eq!(
        declined(serve(stage, Event::Bound(Ok(1)))),
        "no common cipher suite"
    );
}

#[test]
fn failures_end_the_connection() {
    let stage = opening(hello_of(&job(Direction::Push, "o"), 1, 0));
    let (stage, _) = serve(stage, Event::SinkOpened(Ok(())));
    let e = ended(serve(stage, Event::Bound(Err(IoError::other("no port"))))).unwrap_err();
    assert_eq!(e.message, "no port");

    let (stage, _) = granting(0);
    let e = ended(serve(stage, Event::Sent(Err(IoError::other("hung up"))))).unwrap_err();
    assert_eq!(e.message, "hung up");

    let (stage, _) = granting(0);
    let (stage, _) = serve(stage, Event::Sent(Ok(())));
    let slow = IoError::new(IoKind::TimedOut, "idle");
    let e = ended(serve(stage, Event::Moved(Err(slow)))).unwrap_err();
    assert_eq!(e.kind, IoKind::TimedOut);
}

#[test]
fn corrupt_push_ends_the_connection() {
    let reading = || {
        let (stage, _) = granting(0x1234_5678);
        let (stage, _) = serve(stage, Event::Sent(Ok(())));
        serve(stage, Event::Moved(Ok(()))).0
    };
    let e = ended(serve(reading(), Event::ReadBack(Ok(Some(0xab))))).unwrap_err();
    assert_eq!(
        e.message,
        "integrity failure \"o\": crc got=000000ab want=12345678"
    );
    let (stage, _) = serve(reading(), Event::ReadBack(Ok(None)));
    assert!(matches!(stage, Stage::Idle));
    let e = ended(serve(reading(), Event::ReadBack(Err(IoError::other("bad disk")))));
    assert_eq!(e.unwrap_err().message, "bad disk");
}

#[test]
fn events_out_of_turn_end_the_connection() {
    let e = ended(serve(Stage::Idle, Event::Sent(Ok(())))).unwrap_err();
    assert_eq!(e.message, "event out of turn");
    let push = opening(hello_of(&job(Direction::Push, "o"), 1, 0));
    assert!(ended(serve(push, Event::SourceOpened(Ok(1)))).is_err());
    assert!(ended(serve(Stage::Over, Event::Stopped)).is_err());
    let j = job(Direction::Pull, "o");
    let step = client_step(&j, ClientStage::Over, ClientEvent::Sent(Ok(())));
    assert!(matches!(failed(step), GirthError::Protocol(t) if t == "event out of turn"));
}

#[test]
fn backslashes_separate_where_the_host_says_so() {
    assert_eq!(slashed("a\\b/c", true), "a/b/c");
    assert_eq!(slashed("a\\b/c", false), "a\\b/c");
    for (path, name) in [
        ("C:evil", "evil"),
        ("c:\\dir\\o.bin", "o.bin"),
        ("\\\\server\\share\\o.bin", "o.bin"),
        ("\\\\server\\share", "\\\\server\\share"),
        ("\\\\server", "server"),
        ("C:", "C:"),
        ("dir\\.\\", "dir"),
        ("..\\o", "o"),
        ("\\\\?\\C:\\a/b", "a/b"),
        ("\\\\?\\C:\\dir\\o.bin\\", "o.bin"),
        ("\\\\?\\C:", "\\\\?\\C:"),
        ("\\\\?\\C:\\dir\\.", "\\\\?\\C:\\dir\\."),
        ("\\\\?\\UNC\\server\\share\\o.bin", "o.bin"),
        ("\\\\?\\UNC\\server\\share", "\\\\?\\UNC\\server\\share"),
        ("\\\\?\\device", "\\\\?\\device"),
        ("\\\\?/x/a/b", "b"),
        ("\\\\.\\COM1\\o", "o"),
    ] {
        assert_eq!(host_basename(path, true), name, "{path}");
    }
    assert_eq!(host_basename("C:evil", false), "C:evil");
    for path in [
        "C:",
        "dir\\C:evil",
        "\\\\server\\share",
        "\\\\?\\C:\\a/b",
        "\\\\?\\device",
        "\\\\?\\C:\\C:evil",
        "..",
        "",
    ] {
        assert!(served_object_name(path, true).is_err(), "{path}");
    }
    assert_eq!(served_object_name("C:evil", true).unwrap(), "evil");
    for backslash in [false, true] {
        assert_eq!(served_object_name("ab:c", backslash).unwrap(), "ab:c");
        assert_eq!(served_object_name("dir/1:c", backslash).unwrap(), "1:c");
    }
    assert_eq!(
        served_object_name("\\\\?\\C:\\dir\\o.bin", true).unwrap(),
        "o.bin"
    );
    let h = || hello_of(&job(Direction::Push, "..\\up\\o.bin"), 1, 0);
    let (stage, _) = serve(Stage::Idle, Event::Request(Ok(h())));
    assert_eq!(
        declined(serve(stage, Event::Token(None))),
        "invalid object name"
    );
    let host = Host {
        backslash: true,
        ..HOST
    };
    let (stage, _) = serve(Stage::Idle, Event::Request(Ok(h())));
    let step = server_step(
        stage,
        Event::Token(None),
        &default_params(),
        &ServerLimits::default(),
        &host,
    );
    assert!(matches!(step.1, Action::OpenSink { name, .. } if name == "o.bin"));
}

#[test]
fn client_pushes() {
    let j = job(Direction::Push, "o");
    let (stage, hello) = greet(&j, 10, 5);
    assert_eq!((hello.mode.as_str(), hello.size, hello.crc32c), ("send", 10, 5));
    let ack = Ack {
        ok: true,
        udp_port: 9,
        session: 3,
        ..Ack::default()
    };
    let (stage, action) = client_step(&j, stage, ClientEvent::Answered(Ok(ack)));
    assert!(matches!(action, ClientAction::Bind { udp_port: 9 }));
    assert_eq!(client_phase(&action), TransferPhase::Connecting);
    let (stage, action) = client_step(&j, stage, ClientEvent::Bound(Ok(())));
    assert_eq!(client_phase(&action), TransferPhase::Transferring);
    let ClientAction::Run { session, size, key } = action else {
        panic!("no run");
    };
    assert_eq!((session, size), (3, 10));
    assert!(key.is_none());
    let (_, action) = client_step(&j, stage, ClientEvent::Moved(Ok(())));
    assert!(matches!(action, ClientAction::End(Ok(()))));
    assert_eq!(client_phase(&action), TransferPhase::Complete);
}

#[test]
fn client_pulls_and_verifies() {
    let j = job(Direction::Pull, "o");
    let reading = || {
        let (stage, hello) = greet(&j, 0, 0);
        assert_eq!((hello.mode.as_str(), hello.size), ("recv", 0));
        let ack = Ack {
            ok: true,
            size: 44,
            crc32c: 8,
            ..Ack::default()
        };
        let (stage, action) = client_step(&j, stage, ClientEvent::Answered(Ok(ack)));
        assert!(matches!(action, ClientAction::Allocate(44)));
        let (stage, action) = client_step(&j, stage, ClientEvent::Allocated(Ok(())));
        assert!(matches!(action, ClientAction::Bind { .. }));
        let (stage, action) = client_step(&j, stage, ClientEvent::Bound(Ok(())));
        assert!(matches!(action, ClientAction::Run { size: 44, .. }));
        let (stage, action) = client_step(&j, stage, ClientEvent::Moved(Ok(())));
        assert_eq!(client_phase(&action), TransferPhase::Verifying);
        stage
    };
    for got in [Some(8), None] {
        let (_, action) = client_step(&j, reading(), ClientEvent::ReadBack(Ok(got)));
        assert!(matches!(action, ClientAction::End(Ok(()))));
    }
    let step = client_step(&j, reading(), ClientEvent::ReadBack(Ok(Some(9))));
    assert_eq!(client_phase(&step.1), TransferPhase::Failed);
    assert!(matches!(failed(step), GirthError::Integrity));
}

#[test]
fn client_failures_are_classified() {
    let j = job(Direction::Push, "o");
    let absent = IoError::new(IoKind::NotFound, "gone");
    let step = client_step(&j, client_begin(&j).0, ClientEvent::Summed(Err(absent)));
    assert!(matches!(failed(step), GirthError::NotFound));
    let slow = IoError::new(IoKind::TimedOut, "slow");
    let step = client_step(&j, greet(&j, 1, 0).0, ClientEvent::Answered(Err(slow)));
    assert!(matches!(failed(step), GirthError::Timeout));
    let moving = || {
        let ack = Ack {
            ok: true,
            ..Ack::default()
        };
        let (stage, _) = client_step(&j, greet(&j, 1, 0).0, ClientEvent::Answered(Ok(ack)));
        client_step(&j, stage, ClientEvent::Bound(Ok(()))).0
    };
    let step = client_step(&j, moving(), ClientEvent::Moved(Err(stopped_error())));
    assert!(matches!(failed(step), GirthError::Stopped));
    let broken = IoError::other("sender stopped");
    let step = client_step(&j, moving(), ClientEvent::Moved(Err(broken)));
    assert!(matches!(failed(step), GirthError::Io(_)));
    let garbage = message_len(&[0xff; 4]).unwrap_err();
    let step = client_step(&j, greet(&j, 1, 0).0, ClientEvent::Answered(Err(garbage)));
    assert!(matches!(
        failed(step),
        GirthError::Protocol(t) if t == "control message too large: 4294967295"
    ));
    let refusal = Ack {
        err: "No such file or directory".to_string(),
        ..Ack::default()
    };
    let step = client_step(&j, greet(&j, 1, 0).0, ClientEvent::Answered(Ok(refusal)));
    assert!(matches!(failed(step), GirthError::NotFound));
}

#[test]
fn client_asks_the_server_for_what_it_asked() {
    let granted = || Ack {
        ok: true,
        ..Ack::default()
    };
    let mut j = job(Direction::Push, "o");
    j.token = Some(b"secret".to_vec());
    let step = client_step(&j, greet(&j, 1, 0).0, ClientEvent::Answered(Ok(granted())));
    assert!(matches!(failed(step), GirthError::AuthDenied));
    let mut j = job(Direction::Push, "o");
    j.params.encrypt = true;
    let step = client_step(&j, greet(&j, 1, 0).0, ClientEvent::Answered(Ok(granted())));
    assert!(matches!(failed(step), GirthError::Protocol(t) if t == "server declined encryption"));
}

/// Both ends of a handshake, up to their keys.
fn handshake(params: TransferParams, token: Option<&[u8]>) -> [Option<Arc<AeadBox>>; 2] {
    let mut j = job(Direction::Pull, "o");
    j.params = params;
    j.token = token.map(|t| t.to_vec());
    let (waiting, hello) = greet(&j, 0, 0);
    let (stage, _) = serve(Stage::Idle, Event::Request(Ok(hello)));
    let lookup = token.map(|t| Ok(t.to_vec()));
    let (stage, _) = serve(stage, Event::Token(lookup));
    let (stage, _) = serve(stage, Event::SourceOpened(Ok(6)));
    let (stage, _) = serve(stage, Event::Summed(Ok(1)));
    let (_, action) = serve(stage, Event::Bound(Ok(7000)));
    let Action::Grant(ack, server_key) = action else {
        panic!("no grant");
    };
    let (stage, _) = client_step(&j, waiting, ClientEvent::Answered(Ok(ack)));
    let ClientStage::Allocating(_, client_key) = stage else {
        panic!("not accepted");
    };
    [server_key, client_key]
}

#[test]
fn grants_are_accepted_and_keys_agree() {
    let mut params = default_params();
    params.encrypt = false;
    for token in [None, Some(&b"secret"[..])] {
        params.encrypt = false;
        assert!(handshake(params, token).iter().all(|k| k.is_none()));
        params.encrypt = true;
        let [server, client] = handshake(params, token);
        let (server, client) = (server.unwrap(), client.unwrap());
        assert_eq!(server.name(), client.name());
        let mut packet = vec![0u8; 4 + 5 + server.overhead()];
        packet[4..9].copy_from_slice(b"hello");
        let end = server.seal_data(&mut packet, 4, 5, 11);
        assert_eq!(client.open_data(&mut packet[4..end], 5, 11), Some(5));
        assert_eq!(&packet[4..9], b"hello");
    }
}
