//! Counters, controls, texts and the retransmission queue.

use girth::crypto::{AeadBox, CIPHER_CHACHA};
use girth::bytes::{get_u16, get_u32, get_u64, put_u16, put_u32, put_u64};
use girth::heap::{HeapItem, MinHeap};
use girth::log::{log_line, Level};
use girth::protocol::{
    decode_data_header, encode_feedback, DataHeader, FeedbackHeader, NackEntry,
    FEEDBACK_HEADER_SIZE, FLAG_HAS_TICK, FLAG_LAST_BLOCK, FLAG_RETRANSMIT, FLAG_TICK_N,
    NACK_ENTRY_SIZE,
};
use girth::rate::{RateConfig, RateMode};
use girth::receiver::{
    flush_next, nack_cap, new_receiver, next_round, rtt_sample, start_due, writeback_prefix,
    writeback_range, FlushNext, RecvConfig,
};
use girth::runtime::{asked_to_end, PAUSED_RATE_BPS};
use girth::sender::{
    attach_tick, fill_retransmit, keep_waiting, prefetch_block, stopped_error, BlockReader,
    Prefetched, RexQueue, SendConfig, SendStep, Sender, TickState, MAX_BATCH,
};
use girth::stats::{
    human_bytes, report_next, report_slice, Figures, ReportNext, REPORT_POLL_NS,
};
use girth::text::{decimal, decimal_signed, hex8, string_of, trim};
use girth::{GirthError, MemSource, Stats, TransferControl, TransferPhase};
use std::collections::VecDeque;
use std::sync::Arc;

fn send_config(size: i64, block_size: usize, mode: RateMode) -> SendConfig {
    SendConfig {
        file_size: size,
        block_size,
        total_blocks: girth::protocol::num_blocks(size, block_size),
        session: 9,
        rate: RateConfig {
            mode,
            target_bps: 1000,
            min_bps: 0,
            max_bps: 0,
            alpha: 0,
        },
        read_workers: 0,
        crypto: None,
    }
}

fn nack(seq: u64) -> NackEntry {
    NackEntry {
        block_seq: seq,
        rex_index: seq as i64,
    }
}

fn feedback(h: FeedbackHeader, nacks: &[NackEntry]) -> Vec<u8> {
    let mut buf = vec![0u8; FEEDBACK_HEADER_SIZE + nacks.len() * NACK_ENTRY_SIZE];
    let n = encode_feedback(&mut buf, &h, nacks);
    buf.truncate(n);
    buf
}

#[test]
fn human_bytes_rounds_as_printed_floats_do() {
    let printed = |b: u64| {
        if b < 1024 {
            return format!("{} B", b);
        }
        let mut div = 1024u64;
        let mut exp = 0usize;
        while b / div >= 1024 {
            div *= 1024;
            exp += 1;
        }
        let prefix = ['K', 'M', 'G', 'T', 'P', 'E'][exp];
        format!("{:.2} {}iB", b as f64 / div as f64, prefix)
    };
    assert_eq!(human_bytes(0), "0 B");
    assert_eq!(human_bytes(1023), "1023 B");
    assert_eq!(human_bytes(1536), "1.50 KiB");
    assert_eq!(human_bytes(1 << 40), "1.00 TiB");
    let mut x = 1u64;
    for i in 0..4000u64 {
        x = x.wrapping_mul(6364136223846793005).wrapping_add(1442695040888963407);
        let v = x >> (i % 64);
        assert_eq!(human_bytes(v), printed(v), "{v}");
    }
    for e in 0..64 {
        for d in 0..6u64 {
            let v = (1u64 << e).wrapping_add(d).wrapping_sub(3);
            assert_eq!(human_bytes(v), printed(v), "{v}");
        }
    }
}

#[test]
fn numbers_print_as_std_prints_them() {
    for n in [0u64, 9, 10, 99, 100, 12345678901234567890, u64::MAX] {
        assert_eq!(decimal(n), n.to_string());
        assert_eq!(hex8(n as u32), format!("{:08x}", n as u32));
    }
    for n in [0i64, -1, -10, i64::MIN, i64::MAX] {
        assert_eq!(decimal_signed(n), n.to_string());
    }
}

#[test]
fn trimming_agrees_with_std_on_every_character() {
    for code in 0..=0x10ffffu32 {
        let Some(c) = char::from_u32(code) else {
            continue;
        };
        if code > 0x3100 && code % 97 != 0 {
            continue;
        }
        let s = format!("{c}a{c}");
        assert_eq!(string_of(&trim(&s)), s.trim(), "{code:x}");
    }
    assert_eq!(string_of(&trim("   ")), "");
}

#[test]
fn little_endian_fields() {
    let mut b = [0u8; 20];
    put_u16(&mut b, 1, 0xabcd);
    put_u32(&mut b, 4, 0xdead_beef);
    put_u64(&mut b, 9, u64::MAX - 1);
    assert_eq!(&b[..4], &[0, 0xcd, 0xab, 0]);
    assert_eq!(get_u16(&b, 1), 0xabcd);
    assert_eq!(get_u32(&b, 4), 0xdead_beef);
    assert_eq!(get_u64(&b, 9), u64::MAX - 1);
}

#[test]
fn heap_hands_out_the_smallest_first() {
    let mut h = MinHeap::new();
    let mut x = 7u64;
    let mut all = Vec::new();
    for _ in 0..500 {
        x = x.wrapping_mul(6364136223846793005).wrapping_add(1442695040888963407);
        let item = HeapItem {
            due: (x >> 60),
            seq: (x >> 40) & 0xff,
        };
        all.push((item.due, item.seq));
        h.push(item);
    }
    assert_eq!(h.len(), 500);
    all.sort();
    for (due, seq) in all {
        assert_eq!(h.peek().unwrap().due, due);
        let got = h.pop().unwrap();
        assert_eq!(got.due, due);
        let _ = seq;
    }
    assert!(h.pop().is_none());
}

#[test]
fn log_lines() {
    assert_eq!(Level::Error.as_str(), "error");
    assert_eq!(Level::Warn.as_str(), "warn");
    assert_eq!(log_line(Level::Info, "up"), "girth [info] up");
}

#[test]
fn phases_survive_their_number() {
    for p in [
        TransferPhase::Queued,
        TransferPhase::Connecting,
        TransferPhase::Transferring,
        TransferPhase::Verifying,
        TransferPhase::Complete,
        TransferPhase::Failed,
    ] {
        assert_eq!(TransferPhase::from_u8(p.as_u8()), p);
    }
}

#[test]
fn controls_only_slow_down() {
    let mut c = TransferControl::new();
    assert_eq!(c.effective_rate_bps(500), 500);
    assert_eq!(c.rate_limit_bps(), None);
    c.set_rate_limit(Some(300));
    assert_eq!(c.effective_rate_bps(500), 300);
    assert_eq!(c.effective_rate_bps(200), 200);
    c.pause();
    assert!(c.is_paused());
    assert!(c.effective_rate_bps(500) <= 500);
    assert!(c.effective_rate_bps(u64::MAX) <= PAUSED_RATE_BPS);
    c.resume();
    c.set_rate_limit(None);
    assert_eq!(c.effective_rate_bps(500), 500);
    assert!(!c.is_cancelled());
    c.cancel();
    assert!(c.is_cancelled());
}

#[test]
fn snapshots_report_progress_within_the_object() {
    let mut s = Stats::new();
    s.total_bytes = 3000;
    s.total_blocks = 3;
    s.block_size = 1400;
    s.hi_contig = 2;
    let snap = s.snapshot(10);
    assert_eq!(snap.elapsed_us, 10);
    assert_eq!(snap.progress_bytes, 2800);
    s.hi_contig = 3;
    assert_eq!(s.snapshot(0).progress_bytes, 3000);
    s.hi_contig = u64::MAX;
    assert!(s.snapshot(0).progress_bytes <= 3000);
    s.srtt_net_us = 700;
    s.base_rtt_us = 500;
    assert_eq!(s.snapshot(0).queue_delay_us, 200);
    s.base_rtt_us = 900;
    assert_eq!(s.snapshot(0).queue_delay_us, 0);
}

#[test]
fn retransmissions_are_unique_and_lowest_first() {
    let mut q = RexQueue::new();
    q.push_retransmits(&[nack(5), nack(2), nack(5)]);
    q.push_retransmits(&[nack(9), nack(2)]);
    assert_eq!(q.rex_len(), 3);
    assert_eq!(q.pop_retransmit(), Some(2));
    assert_eq!(q.pop_retransmit(), Some(5));
    q.push_retransmits(&[nack(2)]);
    assert_eq!(q.pop_retransmit(), Some(2));
    assert_eq!(q.pop_retransmit(), Some(9));
    assert_eq!(q.pop_retransmit(), None);
    assert!(q.is_empty());
}

#[test]
fn ticks_are_echoed_once() {
    let cfg = send_config(10, 1400, RateMode::Fixed);
    let src = MemSource::new(vec![1u8; 10]);
    let mut buf = vec![0u8; cfg.buffer_len()];
    prefetch_block(&cfg, &src, &mut buf, 0).unwrap();
    let mut t = TickState {
        pending: true,
        val: 1000,
        is_net: true,
        t2: 50,
    };
    attach_tick(&mut t, &mut buf, 80);
    assert!(!t.pending);
    let h = decode_data_header(&buf).unwrap();
    assert_eq!(h.flags, FLAG_HAS_TICK | FLAG_TICK_N | FLAG_LAST_BLOCK);
    assert_eq!(h.echo_tick, 1030);
    attach_tick(&mut t, &mut buf, 999);
    assert_eq!(decode_data_header(&buf).unwrap().echo_tick, 1030);
    // A path tick is echoed as it came.
    let mut t = TickState {
        pending: true,
        val: 7,
        is_net: false,
        t2: 50,
    };
    attach_tick(&mut t, &mut buf, 80);
    let h = decode_data_header(&buf).unwrap();
    assert_eq!(h.flags, FLAG_HAS_TICK | FLAG_LAST_BLOCK);
    assert_eq!(h.echo_tick, 7);
    // What the receiver makes of it.
    assert_eq!(rtt_sample(&h, 107).unwrap().micros, 100);
    assert!(!rtt_sample(&h, 107).unwrap().network);
    assert!(rtt_sample(&h, 6).is_none());
    assert!(rtt_sample(&h, 60_000_008).is_none());
    assert!(rtt_sample(&h, 60_000_007).is_some());
    assert!(rtt_sample(&DataHeader { flags: 0, ..h }, 107).is_none());
}

#[test]
fn blocks_are_filled_from_the_source() {
    let cfg = send_config(3000, 1400, RateMode::Fixed);
    let data: Vec<u8> = (0..3000u32).map(|i| (i % 251) as u8).collect();
    let src = MemSource::new(data.clone());
    let mut buf = vec![0u8; cfg.buffer_len()];
    assert_eq!(fill_retransmit(&cfg, &src, &mut buf, 2), Some(36 + 200));
    let h = decode_data_header(&buf).unwrap();
    assert_eq!(h.flags, FLAG_RETRANSMIT | FLAG_LAST_BLOCK);
    assert_eq!(h.payload_len, 200);
    assert_eq!(h.rex_index, 2);
    assert_eq!(h.payload_crc, girth::protocol::crc32c(&data[2800..]));
    assert_eq!(&buf[36..236], &data[2800..]);
    assert_eq!(fill_retransmit(&cfg, &src, &mut buf, 3), None);
    assert_eq!(prefetch_block(&cfg, &src, &mut buf, 1), Some(1436));
    assert_eq!(decode_data_header(&buf).unwrap().flags, 0);
    // A source that cannot be read gives no block.
    let short = MemSource::new(vec![0u8; 100]);
    assert_eq!(prefetch_block(&cfg, &short, &mut buf, 0), None);
    assert_eq!(fill_retransmit(&cfg, &short, &mut buf, 0), None);
}

#[test]
fn blocks_are_read_in_order_until_one_cannot_be() {
    let cfg = send_config(3000, 1400, RateMode::Adaptive);
    let data: Vec<u8> = (0..3000u32).map(|i| (i % 251) as u8).collect();
    let src = MemSource::new(data.clone());
    let mut reader = BlockReader::new();
    for (seq, at, end) in [(0, 0, 1400), (1, 1400, 2800), (2, 2800, 3000)] {
        assert!(reader.due(&cfg));
        let item = reader
            .read_next(&cfg, &src, vec![0u8; cfg.buffer_len()])
            .unwrap();
        assert_eq!(decode_data_header(&item.buf).unwrap().block_seq, seq);
        assert_eq!(&item.buf[36..item.size], &data[at..end]);
    }
    assert!(!reader.due(&cfg) && !reader.failed);
    let none = reader.read_next(&cfg, &src, vec![0u8; cfg.buffer_len()]);
    assert!(none.is_none() && !reader.failed && reader.next == 3);

    let short = MemSource::new(data[..2000].to_vec());
    let mut reader = BlockReader::new();
    assert!(reader
        .read_next(&cfg, &short, vec![0u8; cfg.buffer_len()])
        .is_some());
    assert!(reader
        .read_next(&cfg, &short, vec![0u8; cfg.buffer_len()])
        .is_none());
    assert!(!reader.due(&cfg) && reader.failed && reader.next == 1);
    // Nothing is read after that, though it could be.
    assert!(reader
        .read_next(&cfg, &src, vec![0u8; cfg.buffer_len()])
        .is_none());
}

#[test]
fn flushing_goes_on_while_the_frontier_moves() {
    assert_eq!(flush_next(0, 3, 3, false), FlushNext::Finish);
    assert_eq!(flush_next(0, 0, 0, false), FlushNext::Finish);
    assert_eq!(flush_next(0, 2, 3, true), FlushNext::Again);
    assert_eq!(flush_next(2, 2, 3, true), FlushNext::Finish);
    assert_eq!(flush_next(2, 2, 3, false), FlushNext::Wait);
}

#[test]
fn reports_come_once_an_interval() {
    assert_eq!(report_slice(1_000_000_000), REPORT_POLL_NS);
    assert_eq!(report_slice(7), 7);
    assert_eq!(report_next(true, 9, 1), ReportNext::End);
    assert_eq!(report_next(false, 9, 10), ReportNext::Wait);
    assert_eq!(report_next(false, 10, 10), ReportNext::Report);
}

#[test]
fn batches_serve_requests_before_new_blocks() {
    let cfg = send_config(14_000, 1400, RateMode::Adaptive);
    let src = MemSource::new(vec![3u8; 14_000]);
    let mut ready: VecDeque<Prefetched> = VecDeque::new();
    for seq in 4..6 {
        let mut buf = vec![0u8; cfg.buffer_len()];
        let size = prefetch_block(&cfg, &src, &mut buf, seq).unwrap();
        ready.push_back(Prefetched { buf, size });
    }
    let mut snd = Sender::new(cfg, Stats::new());
    assert_eq!(snd.next_step(true), SendStep::Stopped);
    let h = FeedbackHeader {
        session: 9,
        tick: 40,
        target_rate: 777,
        hi_contig: 1,
        ..Default::default()
    };
    // Feedback of another session is not heard.
    snd.on_feedback(&feedback(FeedbackHeader { session: 8, done: true, ..h }, &[]), 1);
    assert!(!snd.done && !snd.tick.pending && snd.target_bps == 1000);
    snd.on_feedback(&feedback(h, &[nack(3), nack(1), nack(99)]), 1);
    assert_eq!(snd.target_bps, 777);
    assert_eq!(snd.injection_rate(None), 777);
    let mut c = TransferControl::new();
    c.set_rate_limit(Some(5));
    assert_eq!(snd.injection_rate(Some(&c)), 5);
    assert_eq!(snd.stats.nacks_recv, 3);
    assert!(!snd.fin_due());
    let b = snd.build_batch(&src, &mut ready, false, 64, 5);
    let seqs: Vec<u64> = b
        .packets
        .iter()
        .map(|p| decode_data_header(&p.buf).unwrap().block_seq)
        .collect();
    assert_eq!(seqs, vec![1, 3, 4, 5]);
    assert_eq!((b.rex_n, b.new_n), (2, 2));
    assert_eq!(decode_data_header(&b.packets[0].buf).unwrap().echo_tick, 40);
    assert_eq!(decode_data_header(&b.packets[1].buf).unwrap().echo_tick, 0);
    snd.count_batch(&b);
    assert_eq!(snd.stats.retrans_sent, 2);
    assert_eq!(snd.stats.packets_sent, 4);
    assert_eq!(snd.stats.bytes_sent, 4 * 1436);
    let b = snd.build_batch(&src, &mut ready, true, 64, 6);
    assert!(b.packets.is_empty() && snd.new_done && snd.fin_due());
    assert_eq!(girth::protocol::decode_fin(&snd.fin_pdu()), Some((9, 10)));
    assert!(snd.on_feedback(&feedback(FeedbackHeader { done: true, ..h }, &[]), 7));
    assert_eq!(snd.next_step(true), SendStep::Finished);
}

#[test]
fn waiting_ends_on_stop_or_deadline() {
    assert!(keep_waiting(false, false).is_ok());
    assert_eq!(
        keep_waiting(true, true).unwrap_err().message,
        "stopped while waiting for receiver"
    );
    assert_eq!(
        keep_waiting(false, true).unwrap_err().message,
        "timed out waiting for receiver START"
    );
    assert_eq!(stopped_error().message, "sender stopped");
    // Each is told for what it is.
    assert!(matches!(
        GirthError::from(keep_waiting(true, true).unwrap_err()),
        GirthError::Stopped
    ));
    assert!(matches!(
        GirthError::from(keep_waiting(false, true).unwrap_err()),
        GirthError::Timeout
    ));
    assert!(matches!(
        GirthError::from(stopped_error()),
        GirthError::Stopped
    ));
}

#[test]
fn batches_go_on_where_the_last_one_ended() {
    let src = MemSource::new(vec![3u8; 200]);
    let cfg = send_config(200, 1, RateMode::Fixed);
    let mut ready: VecDeque<Prefetched> = VecDeque::new();
    for seq in 0..200 {
        let mut buf = vec![0u8; cfg.buffer_len()];
        let size = prefetch_block(&cfg, &src, &mut buf, seq).unwrap();
        ready.push_back(Prefetched { buf, size });
    }
    let mut snd = Sender::new(cfg, Stats::new());
    let mut sent: Vec<u64> = Vec::new();
    while !snd.new_done {
        assert!(!snd.fin_due());
        let b = snd.build_batch(&src, &mut ready, true, 1000, 1);
        assert!(b.packets.len() <= MAX_BATCH);
        for p in &b.packets {
            sent.push(decode_data_header(&p.buf[..p.size]).unwrap().block_seq);
        }
    }
    assert!(snd.fin_due());
    assert_eq!(sent, (0..200).collect::<Vec<u64>>());
}

#[test]
fn transfers_end_by_flag_or_by_control() {
    let mut control = TransferControl::new();
    assert!(!asked_to_end(false, None));
    assert!(asked_to_end(true, None));
    assert!(!asked_to_end(false, Some(&control)));
    assert!(asked_to_end(true, Some(&control)));
    control.cancel();
    assert!(asked_to_end(false, Some(&control)));
}

#[test]
fn start_is_repeated_until_data_arrives() {
    assert!(start_due(0, false, 0));
    assert!(start_due(24, false, 0));
    assert!(!start_due(25, false, 0));
    assert!(!start_due(0, true, 0));
    assert!(!start_due(0, false, 1));
}

#[test]
fn requests_are_throttled_to_what_can_be_resent() {
    assert_eq!(nack_cap(0, 3, 90), 90);
    assert_eq!(nack_cap(1, 3, 90), 3);
    assert_eq!(nack_cap(1, 0, 90), 1);
    assert_eq!(nack_cap(1, 1000, 90), 90);
}

#[test]
fn writeback_covers_the_active_window() {
    assert_eq!(writeback_range(9, 0, 100, 5000), Some((0, 1000)));
    assert_eq!(writeback_range(9, 1000, 100, 5000), None);
    assert_eq!(writeback_range(u64::MAX, 1000, 100, 5000), Some((1000, 4000)));
    let mut stats = Stats::new();
    let rcv = new_receiver(
        RecvConfig {
            file_size: 5000,
            block_size: 100,
            total_blocks: 50,
            session: 0,
            read_workers: 2,
            rate: send_config(1, 1, RateMode::Fixed).rate,
            crypto: None,
            feedback_interval_us: 0,
            net_tick_interval_us: 0,
            max_nacks_per_pdu: 0,
        },
        1,
        &mut stats,
    );
    assert_eq!(stats.total_blocks, 50);
    assert_eq!(rcv.cfg.feedback_interval_us, 5000);
    assert_eq!(rcv.cfg.net_tick_interval_us, 10000);
    assert_eq!(writeback_prefix(0, 7, &rcv.cfg), 700);
    assert_eq!(writeback_prefix(900, 7, &rcv.cfg), 900);
}

#[test]
fn missed_rounds_are_dropped() {
    assert_eq!(next_round(1000, 1001, 500), 1500);
    assert_eq!(next_round(1000, 1499, 500), 1500);
    assert_eq!(next_round(1000, 1500, 500), 2000);
    assert_eq!(next_round(1000, 9876, 500), 10376);
}

#[test]
fn reports() {
    let mut s = Stats::new();
    s.total_bytes = 1536;
    s.packets_sent = 10;
    s.retrans_sent = 2;
    s.nacks_recv = 3;
    s.packets_recv = 20;
    s.dup_recv = 5;
    s.corrupt_recv = 1;
    s.nacks_sent = 4;
    s.rex_queue_len = -1;
    s.hi_contig = 6;
    s.total_blocks = 7;
    let t = |x: &str| x.to_string();
    let f = Figures {
        elapsed: t("1.5"),
        wire_mbps: t("2.5"),
        goodput_mbps: t("3.5"),
        target_mbps: t("4.5"),
        wasted_percent: t("20.00"),
        srtt_path_ms: t("5.5"),
        srtt_net_ms: t("6.5"),
        base_ms: t("7.5"),
        rto_ms: t("8.5"),
        qdelay_ms: t("9.5"),
    };
    assert_eq!(s.wasted("send"), (2, 10));
    assert_eq!(s.wasted("recv"), (5, 20));
    assert_eq!(
        s.summary("send", &f),
        "girth send complete: 1.50 KiB in 1.5s (wire 2.5 Mbps) | pkts=10 retrans=2 (20.00%) nacks_in=3"
    );
    assert_eq!(
        s.summary("recv", &f),
        "girth recv complete: 1.50 KiB in 1.5s (goodput 3.5 Mbps, wire 2.5 Mbps) | pkts=20 dup=5 (20.00%) corrupt=1 nacks_out=4"
    );
    assert_eq!(
        s.format_line("send", &f),
        "t=1.5 role=send wire_mbps=2.5 target_mbps=4.5 pkts=10 retrans=2 nacks_in=3 rexq=-1 hicontig=6/7"
    );
    assert_eq!(
        s.format_line("recv", &f),
        "t=1.5 role=recv wire_mbps=2.5 goodput_mbps=3.5 pkts=20 dup=5(20.00%) corrupt=1 nacks_out=4 losstab=-1 srtt_path_ms=5.5 srtt_net_ms=6.5 base_ms=7.5 rto_ms=8.5 qdelay_ms=9.5 target_mbps=4.5 hicontig=6/7"
    );
}

#[test]
fn blocks_that_fill_a_packet() {
    // 1500 bytes of IP packet leave 1472 for the PDU.
    let mut cfg = send_config(10, 1436, RateMode::Fixed);
    assert_eq!(cfg.buffer_len(), 1472);
    cfg.block_size = 1420;
    cfg.crypto = Some(Arc::new(AeadBox::new(CIPHER_CHACHA, &[3u8; 32]).unwrap()));
    assert_eq!(cfg.buffer_len(), 1472);
}

#[test]
fn retransmissions_repeat_the_payload() {
    let mut cfg = send_config(3000, 1400, RateMode::Fixed);
    let src = MemSource::new((0..3000u32).map(|i| (i % 253) as u8).collect());
    for sealed in [false, true] {
        if sealed {
            cfg.crypto = Some(Arc::new(AeadBox::new(CIPHER_CHACHA, &[3u8; 32]).unwrap()));
        }
        let mut first = vec![0u8; cfg.buffer_len()];
        let mut again = vec![0u8; cfg.buffer_len()];
        let n = prefetch_block(&cfg, &src, &mut first, 1).unwrap();
        assert_eq!(fill_retransmit(&cfg, &src, &mut again, 1), Some(n));
        assert_eq!(first[36..n], again[36..n]);
        assert_ne!(first[..36], again[..36]);
    }
}
