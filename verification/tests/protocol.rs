//! Wire format, block arithmetic and loss scanner.

use girth::losstracker::{LossScanner, RecvBitmap};
use girth::protocol::{
    crc32c, crc32c_append, decode_data_header, decode_feedback, decode_fin, decode_start,
    encode_data_header, encode_feedback, encode_fin, encode_start, num_blocks, pdu_type,
    put_echo_tick, DataHeader, FeedbackHeader, NackEntry, DATA_HEADER_SIZE, FEEDBACK_HEADER_SIZE,
    FLAG_HAS_TICK, FLAG_LAST_BLOCK, FLAG_RETRANSMIT, FLAG_TICK_N, NACK_ENTRY_SIZE, PDU_DATA,
    PDU_FEEDBACK, PDU_FIN, PDU_START,
};
use girth::rate::{RateConfig, RateMode, RateWarmStart, RTT_PREC_US};

#[test]
fn data_header_round_trip() {
    let in_h = DataHeader {
        flags: FLAG_RETRANSMIT | FLAG_HAS_TICK | FLAG_TICK_N | FLAG_LAST_BLOCK,
        payload_len: 1400,
        session: 0xDEADBEEF,
        block_seq: 0x0123456789ABCDEF,
        echo_tick: 123456789,
        rex_index: 42,
        payload_crc: 0xCAFEBABE,
    };
    let mut buf = vec![0u8; DATA_HEADER_SIZE + in_h.payload_len as usize];
    encode_data_header(&mut buf, &in_h);
    let out = decode_data_header(&buf).expect("decode failed");
    assert_eq!(out, in_h);
}

#[test]
fn data_header_layout() {
    let h = DataHeader {
        flags: FLAG_LAST_BLOCK,
        payload_len: 0x0203,
        session: 0x0405_0607,
        block_seq: 0x1011_1213_1415_1617,
        echo_tick: 0x2021_2223_2425_2627,
        rex_index: -2,
        payload_crc: 0x3031_3233,
    };
    let mut buf = vec![0xAAu8; DATA_HEADER_SIZE + 2];
    encode_data_header(&mut buf, &h);
    assert_eq!(buf[0], PDU_DATA);
    assert_eq!(buf[1], FLAG_LAST_BLOCK);
    assert_eq!(&buf[2..4], &[0x03, 0x02]);
    assert_eq!(&buf[4..8], &[0x07, 0x06, 0x05, 0x04]);
    assert_eq!(&buf[8..16], &0x1011_1213_1415_1617u64.to_le_bytes());
    assert_eq!(&buf[16..24], &0x2021_2223_2425_2627u64.to_le_bytes());
    assert_eq!(&buf[24..32], &(-2i64).to_le_bytes());
    assert_eq!(&buf[32..36], &0x3031_3233u32.to_le_bytes());
    // Nothing behind the header is touched.
    assert_eq!(&buf[36..], &[0xAA, 0xAA]);
    put_echo_tick(&mut buf, 77);
    let out = decode_data_header(&buf).unwrap();
    assert_eq!(out, DataHeader { echo_tick: 77, ..h });
}

#[test]
fn feedback_round_trip() {
    let in_h = FeedbackHeader {
        tick_is_network: true,
        session: 7,
        tick: 999,
        target_rate: 250_000_000,
        hi_contig: 12345,
        done: true,
        ..Default::default()
    };
    let nacks = vec![
        NackEntry {
            block_seq: 1,
            rex_index: 1,
        },
        NackEntry {
            block_seq: 5,
            rex_index: 5,
        },
        NackEntry {
            block_seq: 99999,
            rex_index: 99999,
        },
    ];
    let mut buf = vec![0u8; FEEDBACK_HEADER_SIZE + nacks.len() * NACK_ENTRY_SIZE];
    let n = encode_feedback(&mut buf, &in_h, &nacks);
    let (out, got_nacks) = decode_feedback(&buf[..n]).expect("decode failed");
    assert_eq!(out.tick_is_network, in_h.tick_is_network);
    assert_eq!(out.session, in_h.session);
    assert_eq!(out.tick, in_h.tick);
    assert_eq!(out.target_rate, in_h.target_rate);
    assert_eq!(out.hi_contig, in_h.hi_contig);
    assert_eq!(out.done, in_h.done);
    assert_eq!(got_nacks, nacks);
    assert_eq!(out.nack_count, 3);
}

#[test]
fn start_and_fin_round_trip_with_session() {
    let mut start = [0u8; 8];
    let n = encode_start(&mut start, 0x1122_3344);
    assert_eq!(n, 8);
    assert_eq!(decode_start(&start), Some(0x1122_3344));
    assert_eq!(decode_start(&start[..7]), None);

    let mut fin = [0u8; 16];
    let n = encode_fin(&mut fin, 0x5566_7788, 12345);
    assert_eq!(n, 16);
    assert_eq!(decode_fin(&fin), Some((0x5566_7788, 12345)));
    assert_eq!(decode_fin(&fin[..15]), None);
}

#[test]
fn pdu_types_do_not_mix() {
    let mut start = [0u8; 36];
    encode_start(&mut start, 1);
    assert_eq!(pdu_type(&start), PDU_START);
    assert!(decode_fin(&start).is_none());
    assert!(decode_data_header(&start).is_none());
    assert!(decode_feedback(&start).is_none());
    let mut fin = [0u8; 36];
    encode_fin(&mut fin, 1, 9);
    assert_eq!(pdu_type(&fin), PDU_FIN);
    assert!(decode_start(&fin).is_none());
    assert!(decode_data_header(&fin).is_none());
    assert!(decode_feedback(&fin).is_none());
}

#[test]
fn crc32c_detects_corruption() {
    let mut data = b"the quick brown fox".to_vec();
    let c = crc32c(&data);
    data[0] ^= 0xFF;
    assert_ne!(crc32c(&data), c);
}

#[test]
fn crc32c_tells_of_every_changed_byte() {
    let data: Vec<u8> = (0..64u8).collect();
    let sum = crc32c(&data);
    for at in 0..data.len() {
        for flip in 1..=255u8 {
            let mut changed = data.clone();
            changed[at] ^= flip;
            assert_ne!(crc32c(&changed), sum);
        }
    }
}

#[test]
fn crc32c_known_values() {
    assert_eq!(crc32c(b""), 0);
    assert_eq!(crc32c(b"123456789"), 0xE306_9283);
    assert_eq!(crc32c(&[0u8; 32]), 0x8A91_36AA);
    let head = crc32c(b"1234");
    assert_eq!(crc32c_append(head, b"56789"), 0xE306_9283);
}

#[test]
fn loss_scanner_detect_and_cancel() {
    const TOTAL: u64 = 1000;
    let mut bm = RecvBitmap::new(TOTAL);
    let mut s = LossScanner::new(TOTAL);

    for i in 0..=499u64 {
        bm.set_and_test(i);
    }
    bm.set_and_test(600);

    let now = 1_000_000;
    let rto = 10000;
    s.advance(&bm);
    s.scan_holes(&bm, 600, now, rto);
    assert_eq!(s.pending_count(), 100); // 500..599

    assert_eq!(s.collect_due(&bm, now, rto, 1000).len(), 0); // nothing due yet

    let later = now + rto + RTT_PREC_US + 1;
    let due = s.collect_due(&bm, later, rto, 1000);
    assert_eq!(due.len(), 100);
    assert_eq!(due[0], 500);

    for i in 500..=600u64 {
        bm.set_and_test(i);
    }
    for i in 601..TOTAL {
        bm.set_and_test(i);
    }
    s.advance(&bm);
    assert!(s.completed());
}

#[test]
fn loss_scanner_repeats_after_one_timeout() {
    let mut bm = RecvBitmap::new(10);
    let mut s = LossScanner::new(10);
    bm.set_and_test(0);
    bm.set_and_test(4);
    assert_eq!(s.advance(&bm), 1);
    s.scan_holes(&bm, 4, 1000, 500);
    assert_eq!(s.pending_count(), 3);
    // Nothing below the cap of two is lost: the third comes with the next round.
    let due = 1000 + 500 + RTT_PREC_US;
    assert_eq!(s.collect_due(&bm, due, 500, 2), vec![1, 2]);
    assert_eq!(s.collect_due(&bm, due, 500, 10), vec![3]);
    assert!(s.collect_due(&bm, due, 500, 10).is_empty());
    // One that arrives in between is not asked for again.
    bm.set_and_test(2);
    assert_eq!(s.collect_due(&bm, due + 500 + RTT_PREC_US, 500, 10), vec![1, 3]);
    assert_eq!(s.pending_count(), 2);
    // Blocks at and above the highest one seen are not known to be lost.
    assert!(!s.completed());
}

#[test]
fn recv_bitmap_duplicate_detection() {
    let mut bm = RecvBitmap::new(128);
    assert!(bm.set_and_test(65));
    assert!(!bm.set_and_test(65));
    assert!(bm.is_set(65));
    assert!(!bm.is_set(64));
}

#[test]
fn recv_bitmap_capacity_is_whole_words() {
    assert_eq!(RecvBitmap::new(0).capacity() % 64, 0);
    assert!(RecvBitmap::new(65).capacity() >= 65);
    let mut a = RecvBitmap::new(100);
    let mut b = RecvBitmap::new(100);
    for i in [3u64, 64, 99] {
        a.set_and_test(i);
    }
    for i in [99u64, 3, 64, 3] {
        b.set_and_test(i);
    }
    for i in 0..100u64 {
        assert_eq!(a.is_set(i), b.is_set(i));
    }
}

#[test]
fn num_blocks_cases() {
    let cases = [
        (0i64, 1400usize, 0u64),
        (1, 1400, 1),
        (1400, 1400, 1),
        (1401, 1400, 2),
        (1234567, 1400, 882),
    ];
    for (size, bs, blocks) in cases {
        assert_eq!(num_blocks(size, bs), blocks, "num_blocks({size},{bs})");
    }
}

#[test]
fn num_blocks_extremes() {
    assert_eq!(num_blocks(-5, 1400), 0);
    assert_eq!(num_blocks(i64::MAX, 1), i64::MAX as u64);
    assert_eq!(num_blocks(i64::MAX, usize::MAX), 1);
}

#[test]
fn decoders_reject_malformed_without_panicking() {
    // Empty / truncated buffers of every length below the header size.
    for n in 0..DATA_HEADER_SIZE {
        assert!(decode_data_header(&vec![PDU_DATA; n]).is_none());
    }
    for n in 0..FEEDBACK_HEADER_SIZE {
        assert!(decode_feedback(&vec![PDU_FEEDBACK; n]).is_none());
    }

    // Right length but wrong type byte.
    assert!(decode_data_header(&[0xFE; DATA_HEADER_SIZE]).is_none());
    assert!(decode_feedback(&[0xFE; FEEDBACK_HEADER_SIZE]).is_none());

    // Feedback header claiming more NACK entries than the buffer can hold must
    // be rejected rather than reading out of bounds.
    let mut fb = vec![0u8; FEEDBACK_HEADER_SIZE];
    fb[0] = PDU_FEEDBACK;
    fb[2] = 0xFF; // nack_count low byte = 255, far more than present
    fb[3] = 0xFF;
    assert!(decode_feedback(&fb).is_none());

    // pdu_type on an empty slice is well-defined (0), not a panic.
    assert_eq!(pdu_type(&[]), 0);
}

#[test]
fn decoders_accept_well_formed_after_negatives() {
    // Sanity: a valid header still decodes (guards against an over-strict fix).
    let mut buf = vec![0u8; DATA_HEADER_SIZE];
    encode_data_header(
        &mut buf,
        &DataHeader {
            payload_len: 0,
            session: 7,
            block_seq: 3,
            ..Default::default()
        },
    );
    let h = decode_data_header(&buf).expect("valid header decodes");
    assert_eq!(h.session, 7);
    assert_eq!(h.block_seq, 3);
}

#[test]
fn rate_defaults_are_filled_in() {
    let cfg = RateConfig {
        mode: RateMode::Adaptive,
        target_bps: 0,
        min_bps: 0,
        max_bps: 0,
        alpha: 0,
    };
    let f = cfg.with_defaults();
    assert_eq!(f.min_bps, 64_000);
    assert_eq!(f.max_bps, 10_000_000_000);
    assert_eq!(f.alpha, 30_000_000);
    assert!(RateWarmStart::default().is_empty());
    assert!(!RateWarmStart {
        rate_bps: 0,
        srtt_net_us: 1,
        base_rtt_us: 0
    }
    .is_empty());
}
