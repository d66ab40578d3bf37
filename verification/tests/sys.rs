//! Data-plane I/O decisions.

use girth::sys::{
    after_batch_read, encode_addr, is_expected, next_port, next_send_slot, no_free_port,
    pacing_ceiling, parse_addr, slot_range, BatchRead, BatchWrite, Completion, ExactIo, ExactNext,
    Family, FlushState, Harvest, HostIp, RawAddr, ReadNext, ShortIo, SEND_CTX, SEND_RING,
};

#[test]
fn ports_of_a_range_are_tried_in_turn() {
    let walk = |range: Option<(u16, u16)>| {
        let mut tried = Vec::new();
        while let Some(port) = next_port(range, tried.last().copied()) {
            tried.push(port);
        }
        tried
    };
    assert_eq!(walk(None), [0]);
    assert_eq!(walk(Some((5000, 5003))), [5000, 5001, 5002, 5003]);
    assert_eq!(walk(Some((65535, 65535))), [65535]);
    assert!(walk(Some((2, 1))).is_empty());
    let e = no_free_port();
    assert_eq!(e.kind, girth::error::IoKind::AddrNotAvailable);
    assert_eq!(e.message, "no free port in UDP range");
}

#[test]
fn pacing_is_in_bytes_and_saturates() {
    assert_eq!(pacing_ceiling(0), 0);
    assert_eq!(pacing_ceiling(80), 10);
    assert_eq!(pacing_ceiling(u64::MAX), u32::MAX);
    assert_eq!(pacing_ceiling(8 * u32::MAX as u64 + 7), u32::MAX);
}

#[test]
fn slots_follow_one_another() {
    assert_eq!(slot_range(0, 1500, 100), (0, 100));
    assert_eq!(slot_range(3, 1500, 100), (4500, 4600));
    // A datagram longer than its slot was cut.
    assert_eq!(slot_range(3, 1500, 9000), (4500, 6000));
}

#[test]
fn interrupted_writes_are_repeated_and_failed_ones_end_batching() {
    let mut f = FlushState::start(10, false);
    assert!(f.again);
    f.wrote(10, BatchWrite::Interrupted);
    assert!(f.again && f.sent == 0);
    f.wrote(10, BatchWrite::Wrote(4));
    assert!(f.again && f.sent == 4 && !f.bad);
    f.wrote(10, BatchWrite::Failed);
    assert!(!f.again && f.sent == 4 && f.bad);
    // From then on nothing is batched.
    assert!(!FlushState::start(10, f.bad).again);
    assert!(!FlushState::start(0, false).again);
    let mut g = FlushState::start(3, false);
    g.wrote(3, BatchWrite::Wrote(0));
    assert!(!g.again && !g.bad && g.sent == 0);
    let mut k = FlushState::start(3, false);
    k.wrote(3, BatchWrite::Wrote(3));
    assert!(!k.again && k.sent == 3);
}

#[test]
fn batched_reads() {
    assert_eq!(after_batch_read(BatchRead::Got(7)), ReadNext::Deliver(7));
    assert_eq!(after_batch_read(BatchRead::Interrupted), ReadNext::Retry);
    assert_eq!(after_batch_read(BatchRead::Unsupported), ReadNext::FallBack);
    assert_eq!(after_batch_read(BatchRead::Failed), ReadNext::Report);
}

#[test]
fn short_transfers_add_up() {
    let mut x = ExactIo {
        done: 0,
        total: 10,
        offset: 100,
    };
    assert_eq!(x.moved(ShortIo::Moved(4)), ExactNext::Continue);
    assert_eq!(x.moved(ShortIo::Interrupted), ExactNext::Continue);
    assert_eq!((x.done, x.offset), (4, 104));
    assert_eq!(x.moved(ShortIo::Moved(6)), ExactNext::Complete);
    let mut y = ExactIo {
        done: 0,
        total: 1,
        offset: 0,
    };
    assert_eq!(y.moved(ShortIo::Moved(0)), ExactNext::Stuck);
}

#[test]
fn harvested_slots_wait_to_be_posted_again() {
    let mut h = Harvest::new();
    let done = [
        Completion {
            context: 5,
            bytes: 100,
            ok: true,
        },
        Completion {
            context: SEND_CTX,
            bytes: 40,
            ok: true,
        },
        Completion {
            context: 9,
            bytes: 70,
            ok: false,
        },
    ];
    assert_eq!(h.harvest(&done), 2);
    assert_eq!(h.batch, vec![(5, 100), (9, 0)]);
    assert_eq!(h.pending, vec![5, 9]);
    // One could not be posted: it stays pending and is not lost.
    h.reposted(&[true, false]);
    assert_eq!(h.pending, vec![9]);
    assert_eq!(h.harvest(&done[..1]), 1);
    assert_eq!(h.batch, vec![(5, 100)]);
    assert_eq!(h.pending, vec![9, 5]);
}

#[test]
fn send_slots_go_round() {
    let mut slot = 0;
    let mut seen = Vec::new();
    for _ in 0..SEND_RING {
        assert!(!seen.contains(&slot));
        seen.push(slot);
        slot = next_send_slot(slot);
    }
    assert_eq!(slot, 0);
}

#[test]
fn addresses_in_raw_memory() {
    let mut raw = [0u8; 28];
    raw[2] = 0x1c;
    raw[3] = 0xe8;
    raw[4..8].copy_from_slice(&[192, 168, 1, 2]);
    assert_eq!(
        parse_addr(Family::V4, &raw, 16),
        Some(RawAddr::V4 {
            ip4: 0xc0a8_0102,
            port: 7400
        })
    );
    assert_eq!(parse_addr(Family::V4, &raw, 15), None);
    assert_eq!(parse_addr(Family::Other, &raw, 28), None);
    let mut raw = [0u8; 28];
    raw[2] = 0x00;
    raw[3] = 0x50;
    raw[4..8].copy_from_slice(&9u32.to_le_bytes());
    raw[23] = 1;
    raw[24..28].copy_from_slice(&3u32.to_le_bytes());
    assert_eq!(
        parse_addr(Family::V6, &raw, 28),
        Some(RawAddr::V6 {
            ip: 1,
            port: 80,
            flowinfo: 9,
            scope: 3
        })
    );
    assert_eq!(parse_addr(Family::V6, &raw, 27), None);
    let full = [0xffu8; 28];
    assert_eq!(
        parse_addr(Family::V6, &full, 128),
        Some(RawAddr::V6 {
            ip: u128::MAX,
            port: u16::MAX,
            flowinfo: u32::MAX,
            scope: u32::MAX
        })
    );
}

#[test]
fn only_the_expected_host_is_heard() {
    let a = HostIp::V4(0x7f00_0001);
    assert!(is_expected(None, a));
    assert!(is_expected(Some(a), a));
    assert!(!is_expected(Some(a), HostIp::V4(0x7f00_0002)));
    assert!(!is_expected(Some(a), HostIp::V6(0x7f00_0001)));
}

#[test]
fn addresses_survive_their_slot() {
    let a = RawAddr::V4 {
        ip4: 0x0a00_0001,
        port: 7400,
    };
    let slot = encode_addr(a, 2);
    assert_eq!(slot.len(), 32);
    assert_eq!(&slot[..9], &[2, 0, 0x1c, 0xe8, 10, 0, 0, 1, 0]);
    assert_eq!(parse_addr(Family::V4, &slot, 32), Some(a));
    let b = RawAddr::V6 {
        ip: 0xfe80_0000_0000_0000_0000_0000_0000_0001,
        port: 1,
        flowinfo: 0xdead_beef,
        scope: 4,
    };
    let slot = encode_addr(b, 0x1700);
    assert_eq!(&slot[..2], &[0x00, 0x17]);
    assert_eq!(parse_addr(Family::V6, &slot, 32), Some(b));
}
