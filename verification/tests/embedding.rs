//! Whole transfers between a client and a server in one process: both control
//! sides step by step, and both data planes, joined by a channel that can lose and
//! reorder packets.

use girth::control::{Ack, Hello};
use girth::crypto::AeadBox;
use girth::error::{IoError, IoKind};
use girth::io::read_back;
use girth::protocol::num_blocks;
use girth::receiver::{
    feedback_sent, new_receiver, rtt_sample, Accepted, FeedbackInput, FeedbackState,
    PacketOutcome, RecvConfig, Receiver_, DONE_SENDS,
};
use girth::runtime::asked_to_end;
use girth::sender::{
    prefetch_block, stopped_error, BlockReader, Prefetched, SendConfig, SendStep, Sender, MAX_BATCH,
};
use girth::session::{
    client_begin, client_phase, client_step, server_step, Action, ClientAction, ClientEvent,
    ClientStage, Event, Host, Job, Stage,
};
use girth::transfer::{
    client_hello, open_session, record_warm_start, recv_config, send_config, warm_for_params,
    Direction,
};
use girth::{
    default_params, source_crc32c, BlockSink, BlockSource, GirthError, MemSink, MemSource,
    RateWarmStart, ServerLimits, Stats, TransferHandle, TransferParams, TransferPhase, MODE_SEND,
};
use rand_core::{OsRng, RngCore};
use std::collections::{HashMap, VecDeque};
use std::sync::{Arc, Mutex};

fn random_bytes(n: usize) -> Vec<u8> {
    let mut v = vec![0u8; n];
    OsRng.fill_bytes(&mut v);
    v
}

fn base_params() -> TransferParams {
    let mut p = default_params();
    p.rate_bps = 400_000_000;
    p.report_interval_ms = 3_600_000;
    p
}

/// A channel between the two data planes.
struct Channel {
    state: u64,
    /// One packet in this many is lost; zero for none.
    loss: u64,
    /// One packet in this many has a byte flipped; zero for none.
    noise: u64,
    reorder: bool,
}

const PERFECT: Channel = Channel {
    state: 1,
    loss: 0,
    noise: 0,
    reorder: false,
};

impl Channel {
    fn roll(&mut self, odds: u64) -> bool {
        self.state = self
            .state
            .wrapping_mul(6364136223846793005)
            .wrapping_add(1442695040888963407);
        odds > 0 && (self.state >> 33) % odds == 0
    }
}

struct Finished {
    send_stats: Stats,
    recv_stats: Stats,
    result: Result<(), IoError>,
    rtt_samples: usize,
}

/// Moves `source` into `sink` over `ch` until the receiver has told the sender
/// often enough that it is done.
fn run_data_planes(
    source: &dyn BlockSource,
    sink: &mut dyn BlockSink,
    p: &TransferParams,
    session: u32,
    send_box: Option<Arc<AeadBox>>,
    recv_box: Option<Arc<AeadBox>>,
    mut ch: Channel,
) -> Finished {
    let size = source.len() as i64;
    let total = num_blocks(size, p.block_size);
    let mut snd = Sender::new(
        send_config(p, p.rate_bps, session, size, send_box),
        Stats::new(),
    );
    let mut recv_stats = Stats::new();
    let mut rcv: Receiver_ = new_receiver(
        recv_config(p, p.rate_bps, session, size, recv_box),
        4,
        &mut recv_stats,
    );
    let mut fb = FeedbackState::new(total);
    let mut ready: VecDeque<Prefetched> = VecDeque::new();
    let mut reader = BlockReader::new();
    let mut clock = 1_000_000u64;
    let mut rtt_samples = 0usize;
    let mut rounds = 0;
    while !rcv.done {
        rounds += 1;
        assert!(rounds < 100_000, "no progress");
        if snd.next_step(false) == SendStep::Continue {
            while reader.due(&snd.cfg) && ready.len() < MAX_BATCH {
                let buf = vec![0u8; snd.cfg.buffer_len()];
                ready.push_back(reader.read_next(&snd.cfg, source, buf).expect("readable"));
            }
            let closed = !reader.due(&snd.cfg);
            let batch = snd.build_batch(source, &mut ready, closed, MAX_BATCH, clock);
            snd.count_batch(&batch);
            let mut wire: Vec<Vec<u8>> = Vec::new();
            for pkt in &batch.packets {
                if !ch.roll(ch.loss) {
                    let mut bytes = pkt.buf[..pkt.size].to_vec();
                    if ch.roll(ch.noise) {
                        let last = bytes.len() - 1;
                        bytes[last] ^= 0x40;
                    }
                    wire.push(bytes);
                }
            }
            if ch.reorder {
                wire.reverse();
            }
            if snd.fin_due() && !ch.roll(ch.loss) {
                wire.push(snd.fin_pdu());
            }
            clock += 3000;
            for mut bytes in wire {
                match rcv.ingest(&mut recv_stats, &mut bytes, sink) {
                    PacketOutcome::Block {
                        header,
                        accepted,
                        write_error,
                    } => {
                        assert!(accepted != Accepted::OutOfRange);
                        assert!(write_error.is_none());
                        if rtt_sample(&header, clock).is_some() {
                            rtt_samples += 1;
                        }
                    }
                    _ => {}
                }
            }
        }
        assert!(rcv.flush_ready(sink).is_empty());
        clock += 2000;
        let out = rcv
            .feedback_round(
                &mut fb,
                &mut recv_stats,
                FeedbackInput {
                    now: clock,
                    sent_at: clock,
                    rto_us: 20_000,
                    target_bps: p.rate_bps,
                    per_interval: 1000,
                    have_peer: true,
                },
            )
            .unwrap();
        feedback_sent(&mut recv_stats, out.due.len());
        if !ch.roll(ch.loss) {
            snd.on_feedback(&out.pdu, clock);
        }
    }
    assert_eq!(fb.done_sends, DONE_SENDS);
    rcv.flush_ready(sink);
    Finished {
        send_stats: snd.stats,
        recv_stats,
        result: rcv.completion(&recv_stats, false),
        rtt_samples,
    }
}

/// A sink in a server's store, which can be read while it stands there.
struct StoredSink(Arc<Mutex<MemSink>>);

impl BlockSink for StoredSink {
    fn allocate(&mut self, len: u64) -> Result<(), IoError> {
        self.0.lock().unwrap().allocate(len)
    }
    fn write_all_at(&mut self, off: u64, buf: &[u8]) -> Result<(), IoError> {
        self.0.lock().unwrap().write_all_at(off, buf)
    }
    fn read_crc32c(&self) -> Result<Option<u32>, IoError> {
        self.0.lock().unwrap().read_crc32c()
    }
}

type Store = Arc<Mutex<HashMap<String, Arc<Mutex<MemSink>>>>>;
type SinkResolver = Box<dyn Fn(&str) -> Result<Box<dyn BlockSink>, IoError>>;
type SourceResolver = Box<dyn Fn(&str) -> Result<Box<dyn BlockSource>, IoError>>;

/// What a server decides with: who may do what, and what it holds.
struct TestServer {
    params: TransferParams,
    limits: ServerLimits,
    token_for: Option<fn(&str, &str) -> Result<Vec<u8>, String>>,
    store: Store,
    sink_resolver: SinkResolver,
    source_resolver: SourceResolver,
}

/// A connection to a server: where the server stands with it, and what it holds
/// for the request.
struct Connection {
    stage: Stage,
    action: Action,
    sink: Option<Box<dyn BlockSink>>,
    source: Option<Box<dyn BlockSource>>,
    key: Option<Arc<AeadBox>>,
}

impl Connection {
    fn new() -> Connection {
        Connection {
            stage: Stage::Idle,
            action: Action::ReadRequest,
            sink: None,
            source: None,
            key: None,
        }
    }
}

impl TestServer {
    fn open(params: TransferParams) -> TestServer {
        let store: Store = Arc::new(Mutex::new(HashMap::new()));
        let (written, read) = (store.clone(), store.clone());
        TestServer {
            params,
            limits: ServerLimits::default(),
            token_for: None,
            store,
            sink_resolver: Box::new(move |name: &str| {
                let sink = Arc::new(Mutex::new(MemSink::new()));
                written.lock().unwrap().insert(name.to_string(), sink.clone());
                Ok(Box::new(StoredSink(sink)) as Box<dyn BlockSink>)
            }),
            source_resolver: Box::new(move |name: &str| match read.lock().unwrap().get(name) {
                Some(sink) => {
                    let bytes = sink.lock().unwrap().to_vec();
                    Ok(Box::new(MemSource::new(bytes)) as Box<dyn BlockSource>)
                }
                None => Err(IoError::new(
                    IoKind::NotFound,
                    "No such file or directory (os error 2)",
                )),
            }),
        }
    }

    fn stored(&self, name: &str) -> Vec<u8> {
        self.store.lock().unwrap()[name].lock().unwrap().to_vec()
    }

    fn step(&self, c: &mut Connection, event: Event) {
        let host = Host {
            aes_hardware: true,
            backslash: false,
        };
        let stage = std::mem::replace(&mut c.stage, Stage::Over);
        let (stage, action) = server_step(stage, event, &self.params, &self.limits, &host);
        c.stage = stage;
        c.action = action;
    }

    /// Takes a request as far as its answer.
    fn request(&self, c: &mut Connection, h: Hello) -> Ack {
        assert!(matches!(c.action, Action::ReadRequest), "connection is over");
        self.step(c, Event::Request(Ok(h)));
        loop {
            match std::mem::replace(&mut c.action, Action::ReadRequest) {
                Action::Authorize { mode, name } => {
                    let lookup = self.token_for.map(|f| f(&mode, &name));
                    self.step(c, Event::Token(lookup));
                }
                Action::OpenSink { name, size } => {
                    let opened = (self.sink_resolver)(&name).and_then(|mut sink| {
                        sink.allocate(size)?;
                        c.sink = Some(sink);
                        Ok(())
                    });
                    self.step(c, Event::SinkOpened(opened));
                }
                Action::OpenSource { name } => {
                    let opened = (self.source_resolver)(&name).map(|source| {
                        let len = source.len();
                        c.source = Some(source);
                        len
                    });
                    self.step(c, Event::SourceOpened(opened));
                }
                Action::Checksum => {
                    let sum = source_crc32c(&**c.source.as_ref().unwrap());
                    self.step(c, Event::Summed(sum));
                }
                Action::Bind => self.step(c, Event::Bound(Ok(40000))),
                Action::Refuse(ack) => return ack,
                Action::Decline(ack) => return ack,
                Action::Grant(ack, key) => {
                    c.key = key;
                    self.step(c, Event::Sent(Ok(())));
                    assert!(matches!(c.action, Action::Run));
                    return ack;
                }
                _ => panic!("no answer"),
            }
        }
    }

    /// Ends a granted request.
    fn moved(&self, c: &mut Connection, res: Result<(), IoError>) {
        self.step(c, Event::Moved(res));
        if matches!(c.action, Action::ReadBack) {
            let sink = c.sink.as_mut().unwrap();
            let got = read_back(&mut **sink);
            self.step(c, Event::ReadBack(got));
        }
    }
}

/// The object at the client's end.
enum Object<'a> {
    Source(&'a dyn BlockSource),
    Sink(&'a mut dyn BlockSink),
}

/// What surrounds a transfer.
struct Around<'a> {
    warm: Option<RateWarmStart>,
    token: Option<&'a [u8]>,
    stop: bool,
    handle: Option<&'a mut TransferHandle>,
    phases: Vec<TransferPhase>,
}

impl Around<'_> {
    fn plain(token: Option<&[u8]>) -> Around<'_> {
        Around {
            warm: None,
            token,
            stop: false,
            handle: None,
            phases: Vec::new(),
        }
    }

    fn mark(&mut self, phase: TransferPhase) {
        if self.phases.last() != Some(&phase) {
            self.phases.push(phase);
        }
        if let Some(h) = &mut self.handle {
            h.set_phase(phase);
        }
    }

    fn asked_to_end(&self) -> bool {
        asked_to_end(self.stop, self.handle.as_ref().map(|h| &h.control))
    }
}

fn copy_of(h: &Hello) -> Hello {
    Hello {
        version: h.version,
        mode: h.mode.clone(),
        name: h.name.clone(),
        size: h.size,
        block_size: h.block_size,
        rate_bps: h.rate_bps,
        max_bps: h.max_bps,
        adaptive: h.adaptive,
        alpha_bps: h.alpha_bps,
        crc32c: h.crc32c,
        warm_rate_bps: h.warm_rate_bps,
        warm_srtt_net_us: h.warm_srtt_net_us,
        warm_base_rtt_us: h.warm_base_rtt_us,
        encrypt: h.encrypt,
        ciphers: h.ciphers.clone(),
        pub_key: h.pub_key.clone(),
        auth_mac: h.auth_mac.clone(),
    }
}

/// Runs both data planes, or ends them where the caller asked for it.
fn move_data(
    object: &mut Object<'_>,
    c: &mut Connection,
    p: &TransferParams,
    session: u32,
    client_key: Option<Arc<AeadBox>>,
    ch: Channel,
    stop: bool,
) -> (Result<(), IoError>, Option<Finished>) {
    let key = c.key.take();
    if stop {
        return (Err(stopped_error()), None);
    }
    let done = match object {
        Object::Source(source) => {
            let sink = c.sink.as_mut().unwrap();
            run_data_planes(*source, &mut **sink, p, session, client_key, key, ch)
        }
        Object::Sink(sink) => {
            let source = c.source.as_ref().unwrap();
            run_data_planes(&**source, *sink, p, session, key, client_key, ch)
        }
    };
    let res = match &done.result {
        Ok(()) => Ok(()),
        Err(e) => Err(IoError::new(e.kind, &e.message)),
    };
    (res, Some(done))
}

/// One transfer over a connection, as a client makes it.
fn transfer(
    srv: &TestServer,
    c: &mut Connection,
    mut object: Object<'_>,
    name: &str,
    p: &TransferParams,
    around: &mut Around<'_>,
    ch: Channel,
) -> Result<Finished, GirthError> {
    let job = Job {
        direction: match &object {
            Object::Source(_) => Direction::Push,
            Object::Sink(_) => Direction::Pull,
        },
        name: name.to_string(),
        params: *p,
        warm: around.warm,
        token: around.token.map(|t| t.to_vec()),
        aes_hardware: false,
    };
    let mut channel = Some(ch);
    let mut answer: Option<Ack> = None;
    let mut finished: Option<Finished> = None;
    let (mut stage, mut action) = client_begin(&job);
    loop {
        around.mark(client_phase(&action));
        let event = match action {
            ClientAction::Checksum => match &object {
                Object::Source(s) => {
                    ClientEvent::Summed(source_crc32c(*s).map(|crc| (s.len() as i64, crc)))
                }
                Object::Sink(_) => panic!("a sink has no checksum"),
            },
            ClientAction::SendHello => {
                let ClientStage::Greeting(hello, _) = &stage else {
                    panic!("no hello");
                };
                answer = Some(srv.request(c, copy_of(hello)));
                ClientEvent::Sent(Ok(()))
            }
            ClientAction::ReadAck => ClientEvent::Answered(Ok(answer.take().unwrap())),
            ClientAction::Allocate(size) => match &mut object {
                Object::Sink(sink) => ClientEvent::Allocated(sink.allocate(size)),
                Object::Source(_) => panic!("a source is not sized"),
            },
            ClientAction::Bind { udp_port } => {
                assert_eq!(udp_port, 40000);
                ClientEvent::Bound(Ok(()))
            }
            ClientAction::Run { session, size, key } => {
                assert!(size >= 0);
                let stop = around.asked_to_end();
                let ch = channel.take().unwrap();
                let (res, done) = move_data(&mut object, c, p, session, key, ch, stop);
                let told = match &res {
                    Ok(()) => Ok(()),
                    Err(e) => Err(IoError::new(e.kind, &e.message)),
                };
                srv.moved(c, told);
                finished = done;
                ClientEvent::Moved(res)
            }
            ClientAction::ReadBack => match &mut object {
                Object::Sink(sink) => {
                    ClientEvent::ReadBack(read_back(&mut **sink))
                }
                Object::Source(_) => panic!("a source is not read back"),
            },
            ClientAction::End(res) => {
                if let Some(h) = &mut around.handle {
                    h.mark_result(&res);
                }
                return res.map(|_| finished.unwrap());
            }
        };
        (stage, action) = client_step(&job, stage, event);
    }
}

fn push(
    srv: &mut TestServer,
    data: &[u8],
    name: &str,
    p: &TransferParams,
    token: Option<&[u8]>,
    ch: Channel,
) -> Result<Finished, GirthError> {
    let source = MemSource::new(data.to_vec());
    transfer(
        srv,
        &mut Connection::new(),
        Object::Source(&source),
        name,
        p,
        &mut Around::plain(token),
        ch,
    )
}

fn pull<K: BlockSink>(
    srv: &TestServer,
    name: &str,
    sink: &mut K,
    p: &TransferParams,
    token: Option<&[u8]>,
    ch: Channel,
) -> Result<Finished, GirthError> {
    transfer(
        srv,
        &mut Connection::new(),
        Object::Sink(sink),
        name,
        p,
        &mut Around::plain(token),
        ch,
    )
}

/// Push from RAM and pull back into RAM, several sizes.
#[test]
fn in_memory_round_trip() {
    let p = base_params();
    let mut srv = TestServer::open(p);

    for size in [0usize, 1, 1500, 1 << 20, 3 << 20] {
        let name = format!("mem{size}");
        let data = random_bytes(size);

        push(&mut srv, &data, &name, &p, None, PERFECT)
            .unwrap_or_else(|e| panic!("mem push size={size}: {}", e.message()));

        let mut sink = MemSink::new();
        pull(&srv, &name, &mut sink, &p, None, PERFECT)
            .unwrap_or_else(|e| panic!("mem pull size={size}: {}", e.message()));
        assert_eq!(sink.to_vec(), data, "mem round-trip size={size}");
    }
}

#[test]
fn lossy_reordering_noisy_channel_round_trip() {
    let p = base_params();
    let mut srv = TestServer::open(p);
    let data = random_bytes(700_001);
    let done = push(
        &mut srv,
        &data,
        "rough",
        &p,
        None,
        Channel {
            state: 99,
            loss: 5,
            noise: 11,
            reorder: true,
        },
    )
    .unwrap();
    assert!(done.result.is_ok());
    assert_eq!(srv.stored("rough"), data);
    assert!(done.send_stats.retrans_sent > 0);
    assert!(done.recv_stats.corrupt_recv > 0);
    assert!(done.recv_stats.nacks_sent > 0);
    assert!(done.rtt_samples > 0);
    assert_eq!(done.recv_stats.payload_recv, data.len() as u64);
    assert_eq!(done.recv_stats.blocks_written, num_blocks(700_001, p.block_size));
    assert_eq!(done.recv_stats.hi_contig, done.recv_stats.total_blocks);
}

#[test]
fn encrypted_round_trip() {
    let mut p = base_params();
    p.encrypt = true;
    let mut srv = TestServer::open(base_params());
    for size in [0usize, 1, 1500, 300_000] {
        let data = random_bytes(size);
        let rough = Channel {
            state: 7,
            loss: 6,
            noise: 9,
            reorder: true,
        };
        push(&mut srv, &data, "enc", &p, None, rough).unwrap();
        let mut sink = MemSink::new();
        pull(&srv, "enc", &mut sink, &p, None, PERFECT).unwrap();
        assert_eq!(sink.to_vec(), data);
    }
}

#[test]
fn exhausted_staging_pool_writes_directly() {
    // Blocks so large that the pool holds one: a second one that has to wait goes
    // to its place at once.
    let block_size = 64 << 20;
    let p = base_params();
    let mut stats = Stats::new();
    let mut rcv = new_receiver(
        RecvConfig {
            file_size: 2 * block_size as i64 + 4,
            block_size,
            total_blocks: 3,
            session: 5,
            read_workers: 1,
            rate: p.rate_config(1),
            crypto: None,
            feedback_interval_us: 0,
            net_tick_interval_us: 0,
            max_nacks_per_pdu: 0,
        },
        1,
        &mut stats,
    );
    assert_eq!(rcv.free, 1);
    let packet = |seq: u64, payload: &[u8]| {
        let mut pdu = vec![0u8; 36];
        pdu.extend_from_slice(payload);
        let header = girth::protocol::DataHeader {
            payload_len: payload.len() as u16,
            session: 5,
            block_seq: seq,
            payload_crc: girth::protocol::crc32c(payload),
            ..Default::default()
        };
        girth::protocol::encode_data_header(&mut pdu, &header);
        pdu
    };
    let mut sink = MemSink::new();
    let taken = |rcv: &mut Receiver_, stats: &mut Stats, sink: &mut MemSink, seq: u64| {
        match rcv.ingest(stats, &mut packet(seq, b"abcd"), sink) {
            PacketOutcome::Block { accepted, write_error: None, .. } => accepted,
            _ => panic!("not taken"),
        }
    };
    assert_eq!(taken(&mut rcv, &mut stats, &mut sink, 1), Accepted::Staged);
    assert_eq!(sink.to_vec().len(), 0);
    assert_eq!(taken(&mut rcv, &mut stats, &mut sink, 2), Accepted::WriteThrough);
    assert_eq!(&sink.to_vec()[2 * block_size..], b"abcd");
    assert_eq!(taken(&mut rcv, &mut stats, &mut sink, 2), Accepted::Duplicate);
    assert!(rcv.flush_ready(&mut sink).is_empty());
    assert_eq!(rcv.write_front, 0);
    assert_eq!(taken(&mut rcv, &mut stats, &mut sink, 0), Accepted::WriteThrough);
    assert!(rcv.flush_ready(&mut sink).is_empty());
    assert_eq!(rcv.write_front, 3);
    assert_eq!(rcv.free, 1);
    assert_eq!(&sink.to_vec()[block_size..block_size + 4], b"abcd");
}

/// A correct token succeeds; a wrong or missing token is denied.
#[test]
fn auth_required_round_trip() {
    let p = base_params();
    let token: &[u8] = b"correct horse battery staple";
    let mut srv = TestServer::open(p);
    srv.token_for = Some(|_, _| Ok(b"correct horse battery staple".to_vec()));

    let data = random_bytes(64 << 10);

    // Correct token: push then pull succeed and round-trip.
    push(&mut srv, &data, "secret", &p, Some(token), PERFECT).expect("authed push");
    let mut sink = MemSink::new();
    pull(&srv, "secret", &mut sink, &p, Some(token), PERFECT).expect("authed pull");
    assert_eq!(sink.to_vec(), data);

    // Wrong token: denied.
    let err = push(&mut srv, &data, "secret", &p, Some(b"wrong token"), PERFECT).err().unwrap();
    assert!(matches!(err, GirthError::AuthDenied), "got {err:?}");

    // No token at all: denied.
    let err = push(&mut srv, &data, "secret", &p, None, PERFECT).err().unwrap();
    assert!(matches!(err, GirthError::AuthDenied), "got {err:?}");
}

/// An authorizer that denies a specific object (object-level authz).
#[test]
fn authorizer_can_deny_by_name() {
    let p = base_params();
    let mut srv = TestServer::open(p);
    srv.token_for = Some(|_mode, name| {
        if name == "allowed" {
            Ok(b"tok".to_vec())
        } else {
            Err("not permitted".into())
        }
    });

    let err = push(&mut srv, &random_bytes(1024), "blocked", &p, Some(b"tok"), PERFECT)
        .err()
        .unwrap();
    assert!(matches!(err, GirthError::AuthDenied), "got {err:?}");
    assert!(push(&mut srv, b"x", "allowed", &p, Some(b"tok"), PERFECT).is_ok());
}

/// An impostor that does not hold the token cannot pass for the server.
#[test]
fn unproven_server_is_refused() {
    let p = base_params();
    let mut srv = TestServer::open(p);
    let err = push(&mut srv, b"x", "n", &p, Some(b"tok"), PERFECT).err().unwrap();
    assert!(matches!(err, GirthError::AuthDenied), "got {err:?}");
}

/// The authorizer is asked about the object that would be read or written, not
/// about the path that the client wrote.
#[test]
fn authorizer_sees_what_is_opened() {
    let p = base_params();
    let mut srv = TestServer::open(p);
    srv.token_for = Some(|mode, name| {
        if mode == MODE_SEND && name == "escapee" {
            Ok(b"tok".to_vec())
        } else {
            Err("not permitted".into())
        }
    });
    push(&mut srv, b"data", "../escapee", &p, Some(b"tok"), PERFECT).unwrap();
    assert_eq!(srv.stored("escapee"), b"data");
    let err = pull(&srv, "escapee", &mut MemSink::new(), &p, Some(b"tok"), PERFECT)
        .err()
        .unwrap();
    assert!(matches!(err, GirthError::AuthDenied), "got {err:?}");
}

/// A transfer that the caller asks to end says so, whichever way the object goes
/// and however it was asked.
#[test]
fn stopped_transfers_say_so() {
    let p = base_params();
    let mut srv = TestServer::open(p);
    push(&mut srv, b"data", "obj", &p, None, PERFECT).unwrap();

    let mut around = Around::plain(None);
    around.stop = true;
    let source = MemSource::new(b"data".to_vec());
    let mut c = Connection::new();
    let res = transfer(&srv, &mut c, Object::Source(&source), "o", &p, &mut around, PERFECT);
    assert!(matches!(res.err(), Some(GirthError::Stopped)));
    assert!(matches!(c.action, Action::End(Err(e)) if e.kind == IoKind::Stopped));

    let mut handle = TransferHandle::new();
    handle.cancel();
    let mut around = Around::plain(None);
    around.handle = Some(&mut handle);
    let mut sink = MemSink::new();
    let mut c = Connection::new();
    let res = transfer(&srv, &mut c, Object::Sink(&mut sink), "obj", &p, &mut around, PERFECT);
    let err = res.err().unwrap();
    assert!(matches!(err, GirthError::Stopped));
    assert_eq!(err.message(), "transfer cancelled");
    assert_eq!(handle.phase(), TransferPhase::Failed);
    assert_eq!(handle.last_error().as_deref(), Some("transfer cancelled"));
}

/// A sink that silently corrupts a block makes the transfer fail with the typed
/// `Integrity` error instead of returning a "successful" wrong result.
#[test]
fn crc_mismatch_is_a_hard_error() {
    struct CorruptingSink(MemSink);
    impl BlockSink for CorruptingSink {
        fn allocate(&mut self, len: u64) -> Result<(), IoError> {
            self.0.allocate(len)
        }
        fn write_all_at(&mut self, off: u64, buf: &[u8]) -> Result<(), IoError> {
            let mut b = buf.to_vec();
            if !b.is_empty() {
                b[0] ^= 0xff; // flip a bit so the end-to-end CRC will not match
            }
            self.0.write_all_at(off, &b)
        }
        fn read_crc32c(&self) -> Result<Option<u32>, IoError> {
            self.0.read_crc32c()
        }
    }

    let p = base_params();
    let mut srv = TestServer::open(p);
    push(&mut srv, &random_bytes(8192), "obj", &p, None, PERFECT).unwrap();

    let err = pull(
        &srv,
        "obj",
        &mut CorruptingSink(MemSink::new()),
        &p,
        None,
        PERFECT,
    )
    .err()
    .unwrap();
    assert!(matches!(err, GirthError::Integrity), "got {err:?}");
}

#[test]
fn server_rejects_out_of_range_handshake_values() {
    let mut p = base_params();
    p.block_size = 128;
    let mut srv = TestServer::open(p);
    srv.limits = ServerLimits {
        min_block_size: 256,
        ..ServerLimits::default()
    };

    let err = push(&mut srv, &random_bytes(1024), "too-small-block", &p, None, PERFECT)
        .err()
        .unwrap();
    assert!(matches!(err, GirthError::Protocol(_)), "got {err:?}");
}

/// Pulling a nonexistent object yields the typed `NotFound`.
#[test]
fn missing_object_is_not_found() {
    let p = base_params();
    let srv = TestServer::open(p);
    let err = pull(&srv, "does-not-exist", &mut MemSink::new(), &p, None, PERFECT)
        .err()
        .unwrap();
    assert!(matches!(err, GirthError::NotFound), "got {err:?}");
}

#[test]
fn persistent_session_multiple_transfers() {
    let p = base_params();
    let srv = TestServer::open(p);
    let data1 = random_bytes(64 << 10);
    let data2 = random_bytes(128 << 10);

    // All four over one connection.
    let mut c = Connection::new();
    let mut over = |object: Object<'_>, name: &str| {
        let mut around = Around::plain(None);
        transfer(&srv, &mut c, object, name, &p, &mut around, PERFECT).unwrap();
    };
    over(Object::Source(&MemSource::new(data1.clone())), "file1");
    over(Object::Source(&MemSource::new(data2.clone())), "file2");

    let mut sink1 = MemSink::new();
    over(Object::Sink(&mut sink1), "file1");
    assert_eq!(sink1.to_vec(), data1);
    let mut sink2 = MemSink::new();
    over(Object::Sink(&mut sink2), "file2");
    assert_eq!(sink2.to_vec(), data2);
    assert!(matches!((&c.stage, &c.action), (Stage::Idle, Action::ReadRequest)));
}

/// A declined request does not cost the connection.
#[test]
fn declined_request_leaves_the_connection_usable() {
    let p = base_params();
    let srv = TestServer::open(p);
    let mut c = Connection::new();
    let mut sink = MemSink::new();
    let mut around = Around::plain(None);
    let res = transfer(&srv, &mut c, Object::Sink(&mut sink), "absent", &p, &mut around, PERFECT);
    assert!(matches!(res.err(), Some(GirthError::NotFound)));
    let source = MemSource::new(b"late".to_vec());
    let mut around = Around::plain(None);
    transfer(&srv, &mut c, Object::Source(&source), "absent", &p, &mut around, PERFECT).unwrap();
    assert_eq!(srv.stored("absent"), b"late");
}

#[test]
fn persistent_session_records_adaptive_rate_warm_start() {
    let mut p = base_params();
    p.adaptive = true;
    p.rate_bps = 500_000_000;
    p.max_bps = 1_000_000_000;
    let srv = TestServer::open(p);
    let mut c = Connection::new();

    let mut warm = RateWarmStart::default();
    assert!(warm.is_empty());
    for name in ["warm1", "warm2"] {
        let source = MemSource::new(random_bytes(512 << 10));
        let mut around = Around::plain(None);
        around.warm = warm_for_params(&p, Some(warm));
        let done = transfer(
            &srv,
            &mut c,
            Object::Source(&source),
            name,
            &p,
            &mut around,
            PERFECT,
        )
        .unwrap();
        record_warm_start(&mut warm, &p, &done.send_stats);
        assert!(warm.rate_bps > 0, "warm start was not recorded: {warm:?}");
        assert!(warm.rate_bps <= p.max_bps);
    }
    let (h, _) = client_hello(MODE_SEND, "warm3", 0, 0, &p, Some(warm), None, true);
    assert_eq!(h.warm_rate_bps, warm.rate_bps);

    // Only an adaptive transfer starts warm.
    p.adaptive = false;
    assert_eq!(warm_for_params(&p, Some(warm)), None);
}

#[test]
fn trait_based_server_streaming() {
    let p = base_params();
    let held: Store = Arc::new(Mutex::new(HashMap::new()));
    let (written, read) = (held.clone(), held.clone());
    let mut srv = TestServer::open(p);
    srv.sink_resolver = Box::new(move |name: &str| {
        let sink = Arc::new(Mutex::new(MemSink::new()));
        written.lock().unwrap().insert(name.to_string(), sink.clone());
        Ok(Box::new(StoredSink(sink)) as Box<dyn BlockSink>)
    });
    srv.source_resolver = Box::new(move |name: &str| match read.lock().unwrap().get(name) {
        Some(sink) => {
            let bytes = sink.lock().unwrap().to_vec();
            Ok(Box::new(MemSource::new(bytes)) as Box<dyn BlockSource>)
        }
        None => Err(IoError::new(IoKind::NotFound, "not found in memory store")),
    });

    let data = random_bytes(100 << 10);
    push(&mut srv, &data, "ram_object", &p, None, PERFECT).unwrap();

    let mut recvd = MemSink::new();
    pull(&srv, "ram_object", &mut recvd, &p, None, PERFECT).unwrap();
    assert_eq!(recvd.to_vec(), data);
    assert_eq!(held.lock().unwrap().len(), 1);
    assert!(srv.store.lock().unwrap().is_empty());
}

#[test]
fn transfer_handle_reports_lifecycle_and_snapshot() {
    let p = base_params();
    let srv = TestServer::open(p);
    let data = random_bytes(2 << 20);

    let mut send_handle = TransferHandle::new();
    send_handle.set_rate_limit(Some(200_000_000));
    assert_eq!(send_handle.rate_limit_bps(), Some(200_000_000));
    assert_eq!(send_handle.phase(), TransferPhase::Queued);
    let source = MemSource::new(data.clone());
    let mut c = Connection::new();
    let mut around = Around::plain(None);
    around.handle = Some(&mut send_handle);
    let done = transfer(
        &srv,
        &mut c,
        Object::Source(&source),
        "handled",
        &p,
        &mut around,
        PERFECT,
    )
    .expect("handled send");
    assert_eq!(
        around.phases,
        [
            TransferPhase::Connecting,
            TransferPhase::Transferring,
            TransferPhase::Complete
        ]
    );
    send_handle.stats = done.send_stats;
    assert_eq!(send_handle.phase(), TransferPhase::Complete);
    assert_eq!(send_handle.last_error(), None);
    let send_snap = send_handle.snapshot(1_000_000);
    assert_eq!(send_snap.stats.total_bytes, data.len() as u64);
    assert_eq!(send_snap.stats.block_size, p.block_size as u64);
    assert!(send_snap.stats.bytes_sent > 0);
    assert!(send_snap.progress_bytes * 100 >= 99 * data.len() as u64);

    let mut sink = MemSink::new();
    let mut recv_handle = TransferHandle::new();
    recv_handle.pause();
    assert!(recv_handle.is_paused());
    recv_handle.resume();
    let mut around = Around::plain(None);
    around.handle = Some(&mut recv_handle);
    let done = transfer(
        &srv,
        &mut c,
        Object::Sink(&mut sink),
        "handled",
        &p,
        &mut around,
        PERFECT,
    )
    .expect("handled recv");
    assert_eq!(
        around.phases,
        [
            TransferPhase::Connecting,
            TransferPhase::Transferring,
            TransferPhase::Verifying,
            TransferPhase::Complete
        ]
    );
    recv_handle.stats = done.recv_stats;
    assert_eq!(recv_handle.phase(), TransferPhase::Complete);
    assert_eq!(recv_handle.last_error(), None);
    assert_eq!(sink.to_vec(), data);
    let recv_snap = recv_handle.snapshot(1_000_000);
    assert_eq!(recv_snap.stats.payload_recv, data.len() as u64);
    assert_eq!(recv_snap.progress_bytes, data.len() as u64);
    assert!(recv_snap.progress_bytes * 100 >= 99 * data.len() as u64);
}

#[test]
fn transfer_handle_records_auth_failure() {
    let p = base_params();
    let mut srv = TestServer::open(p);
    srv.token_for = Some(|_, _| Ok(b"secret".to_vec()));

    let mut handle = TransferHandle::new();
    let source = MemSource::new(random_bytes(1024));
    let mut around = Around::plain(Some(b"wrong"));
    around.handle = Some(&mut handle);
    let err = transfer(
        &srv,
        &mut Connection::new(),
        Object::Source(&source),
        "denied",
        &p,
        &mut around,
        PERFECT,
    )
    .err()
    .unwrap();
    assert!(matches!(err, GirthError::AuthDenied), "got {err:?}");
    assert_eq!(handle.phase(), TransferPhase::Failed);
    assert!(handle
        .last_error()
        .is_some_and(|e| e.contains("authentication denied")));
}

#[test]
fn traversal_names_land_under_their_last_part() {
    let p = base_params();
    let mut srv = TestServer::open(p);
    let data = random_bytes(4096);
    push(&mut srv, &data, "../escapee", &p, None, PERFECT).unwrap();
    assert_eq!(srv.stored("escapee"), data);
    assert_eq!(srv.store.lock().unwrap().len(), 1);
}

#[test]
fn failing_writes_are_reported_and_the_transfer_goes_on() {
    struct FullDisk;
    impl BlockSink for FullDisk {
        fn allocate(&mut self, _len: u64) -> Result<(), IoError> {
            Ok(())
        }
        fn write_all_at(&mut self, _off: u64, _buf: &[u8]) -> Result<(), IoError> {
            Err(IoError::new(IoKind::Other, "disk full"))
        }
    }
    let p = base_params();
    let source = MemSource::new(vec![5u8; 10]);
    let cfg = SendConfig {
        file_size: 10,
        block_size: 1400,
        total_blocks: 1,
        session: 1,
        rate: p.rate_config(1),
        read_workers: 0,
        crypto: None,
    };
    let mut buf = vec![0u8; cfg.buffer_len()];
    let n = prefetch_block(&cfg, &source, &mut buf, 0).unwrap();
    let mut stats = Stats::new();
    let mut rcv = new_receiver(
        RecvConfig {
            file_size: 10,
            block_size: 1400,
            total_blocks: 1,
            session: 1,
            read_workers: 0,
            rate: p.rate_config(1),
            crypto: None,
            feedback_interval_us: 0,
            net_tick_interval_us: 0,
            max_nacks_per_pdu: 0,
        },
        3,
        &mut stats,
    );
    assert_eq!(rcv.cfg.read_workers, 3);
    assert_eq!(rcv.cfg.max_nacks_per_pdu, 90);
    assert!(matches!(
        rcv.ingest(&mut stats, &mut buf[..n], &mut FullDisk),
        PacketOutcome::Block {
            accepted: Accepted::Staged,
            write_error: None,
            ..
        }
    ));
    let failed = rcv.flush_ready(&mut FullDisk);
    assert_eq!(failed.len(), 1);
    assert_eq!(
        girth::receiver::write_failure_text(failed[0].seq, &failed[0].error),
        "recv: write error at block 0: disk full"
    );
    // A receiver that ends early says how far it came.
    let e = rcv.completion(&stats, false).unwrap_err();
    assert_eq!(e.kind, IoKind::Other);
    assert_eq!(e.message, "receiver stopped before completion (0/1 blocks)");
    let e = rcv.completion(&stats, true).unwrap_err();
    assert_eq!(e.kind, IoKind::Stopped);
    assert_eq!(e.message, "receiver stopped before completion (0/1 blocks)");
}

#[test]
fn foreign_packets_leave_the_receiver_alone() {
    let p = base_params();
    let source = MemSource::new(vec![9u8; 3000]);
    let cfg = SendConfig {
        file_size: 3000,
        block_size: 1400,
        total_blocks: 3,
        session: 77,
        rate: p.rate_config(1),
        read_workers: 0,
        crypto: None,
    };
    let mut stats = Stats::new();
    let mut sink = MemSink::new();
    let mut rcv = new_receiver(
        RecvConfig {
            file_size: 3000,
            block_size: 1400,
            total_blocks: 3,
            session: 78,
            read_workers: 1,
            rate: p.rate_config(1),
            crypto: None,
            feedback_interval_us: 0,
            net_tick_interval_us: 0,
            max_nacks_per_pdu: 0,
        },
        1,
        &mut stats,
    );
    let mut buf = vec![0u8; cfg.buffer_len()];
    let n = prefetch_block(&cfg, &source, &mut buf, 2).unwrap();
    // The block of another session, a cut one, and one that is no PDU at all.
    assert!(matches!(
        rcv.ingest(&mut stats, &mut buf[..n], &mut sink),
        PacketOutcome::Ignored
    ));
    assert!(matches!(
        rcv.ingest(&mut stats, &mut buf[..20], &mut sink),
        PacketOutcome::Ignored
    ));
    assert!(matches!(
        rcv.ingest(&mut stats, &mut [200u8; 50], &mut sink),
        PacketOutcome::Ignored
    ));
    assert!(!rcv.seen_any);
    assert_eq!(stats.packets_recv, 3);
    // A block number outside the object is found out.
    rcv.cfg.session = 77;
    let mut far = buf[..n].to_vec();
    far[8..16].copy_from_slice(&(1u64 << 40).to_le_bytes());
    assert!(matches!(
        rcv.ingest(&mut stats, &mut far, &mut sink),
        PacketOutcome::Block {
            accepted: Accepted::OutOfRange,
            ..
        }
    ));
}

#[test]
fn limits_are_refused_by_name() {
    let p = base_params();
    let limits = ServerLimits::default();
    let hello = || client_hello(MODE_SEND, "n", 10, 0, &p, None, None, true).0;
    let text = |h: &Hello| {
        open_session(h, &p, &limits)
            .err()
            .map(|a| a.err)
            .unwrap_or_default()
    };
    assert_eq!(text(&hello()), "");
    let mut h = hello();
    h.version = 2;
    assert_eq!(text(&h), "protocol version mismatch");
    let mut h = hello();
    h.mode = "copy".to_string();
    assert_eq!(text(&h), "unknown mode");
    let mut h = hello();
    h.size = -1;
    assert_eq!(text(&h), "negative size");
    let mut h = hello();
    h.size = (1 << 40) + 1;
    assert_eq!(text(&h), "object too large: 1099511627777 > 1099511627776");
    let mut h = hello();
    h.block_size = 0;
    assert_eq!(text(&h), "invalid block size");
    let mut h = hello();
    h.block_size = 65_456;
    assert_eq!(text(&h), "block size out of range: 65456 (allowed 256..=65455)");
    let mut h = hello();
    h.rate_bps = 100_000_000_001;
    assert_eq!(text(&h), "rate too high: 100000000001 > 100000000000");
    let mut h = hello();
    h.max_bps = 100_000_000_001;
    assert_eq!(text(&h), "max rate too high: 100000000001 > 100000000000");
    let mut h = hello();
    h.warm_rate_bps = 100_000_000_001;
    assert_eq!(text(&h), "warm rate too high: 100000000001 > 100000000000");
    let mut h = hello();
    h.warm_srtt_net_us = 60_000_001;
    assert_eq!(
        text(&h),
        "warm RTT too high: srtt=60000001 base=0 max=60000000"
    );
    let mut h = hello();
    h.warm_srtt_net_us = 5;
    h.warm_base_rtt_us = 6;
    assert_eq!(text(&h), "warm base RTT exceeds warm SRTT");
    let mut h = hello();
    h.alpha_bps = 100_000_000_001;
    assert_eq!(text(&h), "alpha too high: 100000000001 > 100000000000");
    let mut h = hello();
    h.rate_bps = 5;
    h.max_bps = 4;
    assert_eq!(text(&h), "rate exceeds max rate");
}
