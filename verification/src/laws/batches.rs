//! What stands in the PDUs that a sender builds, and which of them it sends.

use crate::crypto::AeadBox;
use crate::io::BlockSource;
use crate::protocol::{
    DataHeader, DATA_HEADER_SIZE, FLAG_HAS_TICK, FLAG_LAST_BLOCK, FLAG_RETRANSMIT, FLAG_TICK_N,
};
use crate::sender::{
    fill_retransmit, prefetch_block, Batch, BlockReader, Prefetched, SendConfig, Sender, TickState,
};
use std::collections::VecDeque;
use vstd::prelude::*;

verus! {

/// The flags of a block without a tick.
proof fn block_flags(cfg: SendConfig, payload: Seq<u8>, seq: u64, again: bool)
    ensures
        ({
            let h = crate::sender::block_header(cfg, payload, seq, again);
            &&& (h.flags & FLAG_LAST_BLOCK != 0) == (seq == cfg.total_blocks - 1)
            &&& (h.flags & FLAG_RETRANSMIT != 0) == again
            &&& h.flags & FLAG_HAS_TICK == 0
            &&& h.flags & FLAG_TICK_N == 0
        }),
{
    assert(0u8 & 2u8 == 0 && 8u8 & 2u8 == 0 && 1u8 & 2u8 == 0 && 9u8 & 2u8 == 0) by (bit_vector);
    assert(0u8 | 0u8 == 0 && 0u8 | 8u8 == 8 && 1u8 | 0u8 == 1 && 1u8 | 8u8 == 9) by (bit_vector);
    assert(0u8 & 8u8 == 0 && 8u8 & 8u8 != 0 && 1u8 & 8u8 == 0 && 9u8 & 8u8 != 0) by (bit_vector);
    assert(0u8 & 1u8 == 0 && 8u8 & 1u8 == 0 && 1u8 & 1u8 != 0 && 9u8 & 1u8 != 0) by (bit_vector);
    assert(0u8 & 4u8 == 0 && 8u8 & 4u8 == 0 && 1u8 & 4u8 == 0 && 9u8 & 4u8 == 0) by (bit_vector);
}

/// Whether `c` and `tag` are what a box makes of a payload under the nonce `n` of
/// block `seq`.
pub open spec fn sealed_under(
    b: AeadBox,
    seq: u64,
    n: Seq<u8>,
    payload: Seq<u8>,
    c: Seq<u8>,
    tag: Seq<u8>,
) -> bool {
    crate::laws::secrecy::is_nonce(n, seq) && crate::laws::secrecy::is_sealed(
        b,
        n,
        payload,
        c,
        tag,
    )
}

/// Whether `pdu` is a DATA PDU of block `seq` of the object in `source`: for this
/// session, marked as the last block exactly where it is that and as sent again
/// exactly where it is, with the block's bytes behind it, in clear or sealed.
pub open spec fn carries_block<S: BlockSource + ?Sized>(
    cfg: SendConfig,
    source: &S,
    pdu: Seq<u8>,
    seq: u64,
    again: bool,
) -> bool {
    let rest = pdu.skip(DATA_HEADER_SIZE as int);
    let at = seq * cfg.block_size;
    let left = cfg.file_size - at;
    let len = if left < cfg.block_size {
        left
    } else {
        cfg.block_size as int
    };
    &&& crate::protocol::parsed_data_header(pdu) matches Some(h)
    &&& h.session == cfg.session
    &&& h.block_seq == seq
    &&& (h.flags & FLAG_LAST_BLOCK != 0) == (seq + 1 == cfg.total_blocks)
    &&& (h.flags & FLAG_RETRANSMIT != 0) == again
    &&& len <= u16::MAX ==> h.payload_len == len
    &&& again && seq <= i64::MAX ==> h.rex_index == seq
    &&& cfg.crypto is Some ==> h.payload_crc == 0
    &&& !again ==> h.rex_index == 0
    &&& cfg.crypto matches Some(b) ==> exists|n: Seq<u8>, payload: Seq<u8>, c: Seq<u8>, tag: Seq<u8>|
     #[trigger]
        sealed_under(*b, seq, n, payload, c, tag) && rest == c + tag && payload.len() == len && (
        source.modelled() ==> forall|i: int|
            0 <= i < len ==> #[trigger] payload[i] == source.contents()[at + i])
    &&& cfg.crypto is None ==> rest.len() == len && h.payload_crc == crate::protocol::crc32c_of(
        rest,
    ) && (source.modelled() ==> forall|i: int|
        0 <= i < len ==> #[trigger] rest[i] == source.contents()[at + i])
}

/// A block's PDU carries the block.
#[verifier::spinoff_prover]
#[verifier::rlimit(30)]
proof fn pdu_carries_block<S: BlockSource + ?Sized>(
    cfg: SendConfig,
    source: &S,
    payload: Seq<u8>,
    seq: u64,
    again: bool,
)
    requires
        cfg.wf(),
        seq < cfg.total_blocks,
        crate::sender::is_given(cfg, source, seq, payload),
        source.modelled() ==> cfg.file_size <= source.contents().len(),
    ensures
        carries_block(
            cfg,
            source,
            crate::sender::block_pdu(cfg, payload, seq, again),
            seq,
            again,
        ),
{
    crate::protocol::block_in_bounds(cfg.file_size as int, cfg.block_size as int, seq as int);
    let h = crate::sender::block_header(cfg, payload, seq, again);
    let pdu = crate::sender::block_pdu(cfg, payload, seq, again);
    let rest = match cfg.crypto {
        None => payload,
        Some(b) => b.sealed(seq, payload).0 + b.sealed(seq, payload).1,
    };
    block_flags(cfg, payload, seq, again);
    crate::protocol::data_header_round_trip(h, rest);
    assert(pdu =~= crate::protocol::data_header_bytes(h) + rest);
    assert(pdu.skip(DATA_HEADER_SIZE as int) =~= rest);
    if again && seq <= i64::MAX {
        crate::bytes::i64_bits_round_trip(seq as i64);
        assert(crate::bytes::i64_of_bits(seq) == seq);
    }
    if cfg.crypto is Some {
        let b = *cfg.crypto->Some_0;
        let (c, tag) = b.sealed(seq, payload);
        crate::laws::secrecy::block_nonce_is_one(seq);
        assert(sealed_under(b, seq, crate::crypto::nonce_of(seq), payload, c, tag));
    }
}

/// Whether a PDU carries no tick.
pub open spec fn is_without_tick(pdu: Seq<u8>) -> bool {
    &&& crate::protocol::parsed_data_header(pdu) matches Some(h)
    &&& h.flags & FLAG_HAS_TICK == 0
    &&& h.flags & FLAG_TICK_N == 0
    &&& h.echo_tick == 0
}

/// A block's PDU carries no tick yet.
proof fn pdu_is_without_tick(cfg: SendConfig, payload: Seq<u8>, seq: u64, again: bool)
    ensures
        is_without_tick(crate::sender::block_pdu(cfg, payload, seq, again)),
{
    let h = crate::sender::block_header(cfg, payload, seq, again);
    let pdu = crate::sender::block_pdu(cfg, payload, seq, again);
    let rest = match cfg.crypto {
        None => payload,
        Some(b) => b.sealed(seq, payload).0 + b.sealed(seq, payload).1,
    };
    block_flags(cfg, payload, seq, again);
    crate::protocol::data_header_round_trip(h, rest);
    assert(pdu =~= crate::protocol::data_header_bytes(h) + rest);
}

/// Law: a block that is read for its first injection, or again, goes out as this
/// block: with its number, its session and its bytes, marked for what it is, and
/// without a tick. A block that does not exist does not go out.
pub proof fn blocks_go_out_as_themselves<S: BlockSource + ?Sized>(
    cfg: SendConfig,
    source: &S,
    seq: u64,
)
    requires
        cfg.wf(),
        source.modelled() ==> cfg.file_size <= source.contents().len(),
    ensures
        forall|buf: &mut [u8], r: Option<usize>| #[trigger]
            call_ensures(prefetch_block::<S>, (&cfg, source, buf, seq), r) ==> {
                &&& seq >= cfg.total_blocks ==> r is None
                &&& r matches Some(n) ==> carries_block(
                    cfg,
                    source,
                    final(buf)@.take(n as int),
                    seq,
                    false,
                ) && is_without_tick(final(buf)@.take(n as int))
            },
        forall|buf: &mut [u8], r: Option<usize>| #[trigger]
            call_ensures(fill_retransmit::<S>, (&cfg, source, buf, seq), r) ==> {
                &&& seq >= cfg.total_blocks ==> r is None
                &&& r matches Some(n) ==> carries_block(
                    cfg,
                    source,
                    final(buf)@.take(n as int),
                    seq,
                    true,
                ) && is_without_tick(final(buf)@.take(n as int))
            },
{
    assert forall|payload: Seq<u8>, again: bool|
        seq < cfg.total_blocks && #[trigger] crate::sender::is_given(
            cfg,
            source,
            seq,
            payload,
        ) implies carries_block(
        cfg,
        source,
        #[trigger] crate::sender::block_pdu(cfg, payload, seq, again),
        seq,
        again,
    ) && is_without_tick(crate::sender::block_pdu(cfg, payload, seq, again)) by {
        pdu_is_without_tick(cfg, payload, seq, again);
        pdu_carries_block(cfg, source, payload, seq, again);
    }
}

/// Law: a reader hands out one block after the other, each as itself, and nothing
/// once one could not be read or none is left.
pub proof fn readers_hand_out_blocks<S: BlockSource + ?Sized>(cfg: SendConfig, source: &S)
    requires
        cfg.wf(),
        source.modelled() ==> cfg.file_size <= source.contents().len(),
    ensures
        forall|r: BlockReader| #[trigger]
            call_ensures(BlockReader::new, (), r) ==> r.next == 0 && !r.failed,
        forall|m: &BlockReader, r: bool| #[trigger]
            call_ensures(BlockReader::due, (m, &cfg), r) ==> r == (!m.failed && m.next
                < cfg.total_blocks),
        forall|m: &mut BlockReader, buf: Vec<u8>, r: Option<Prefetched>| #[trigger]
            call_ensures(BlockReader::read_next::<S>, (m, &cfg, source, buf), r) ==> match r {
                Some(item) => {
                    &&& !m.failed && m.next < cfg.total_blocks
                    &&& final(m).next == m.next + 1 && !final(m).failed
                    &&& carries_block(cfg, source, item.pdu(), m.next, false)
                },
                None => {
                    &&& final(m).next == m.next
                    &&& final(m).failed || final(m).next >= cfg.total_blocks
                    &&& !m.failed && m.next < cfg.total_blocks ==> final(m).failed
                },
            },
{
    assert forall|m: &mut BlockReader, buf: Vec<u8>, r: Option<Prefetched>| #[trigger]
        call_ensures(BlockReader::read_next::<S>, (m, &cfg, source, buf), r) && r is Some implies
        carries_block(cfg, source, r->Some_0.pdu(), m.next, false) by {
        let item = r->Some_0;
        let payload = choose|payload: Seq<u8>| #[trigger]
            crate::sender::is_given(cfg, source, m.next, payload) && item.buf@.take(
                item.size as int,
            ) == crate::sender::block_pdu(cfg, payload, m.next, false);
        pdu_carries_block(cfg, source, payload, m.next, false);
    }
}

/// Law: a batch keeps its size, serves requests before new blocks, lowest first,
/// and loses none: a queued block is sent again, stays queued, does not exist, or
/// could not be read. New blocks go out in the order in which they were read.
#[verifier::rlimit(40)]
pub proof fn batches_serve_requests_first<S: BlockSource + ?Sized>(
    source: &S,
    closed: bool,
    to_send: usize,
    now: u64,
)
    ensures
        forall|m: &mut Sender, ready: &mut VecDeque<Prefetched>, b: Batch| #[trigger]
            call_ensures(
                Sender::build_batch::<S>,
                (m, source, ready, closed, to_send, now),
                b,
            ) ==> {
                &&& b.packets@.len() == b.rex_n + b.new_n
                &&& b.packets@.len() <= to_send && b.packets@.len() <= 64
                &&& b.new_n > 0 ==> forall|q: u64| !#[trigger] final(m)@.rex.contains(q)
                &&& b.packets@.len() < to_send && b.packets@.len() < 64 ==> forall|q: u64|
                    !#[trigger] final(m)@.rex.contains(q)
                &&& forall|q: u64| #[trigger] final(m)@.rex.contains(q) ==> m@.rex.contains(q)
                &&& final(ready)@ == ready@.skip(b.new_n as int)
                &&& b.packets@.len() < to_send && b.packets@.len() < 64 && !m@.new_done ==> final(
                    ready)@.len() == 0
                &&& m@.new_done ==> b.new_n == 0 && final(m)@.new_done
                &&& final(m)@.new_done && !m@.new_done ==> closed && final(ready)@.len() == 0
                &&& closed && b.packets@.len() < to_send && b.packets@.len() < 64 ==> final(
                    m)@.new_done
                &&& !closed && !m@.new_done ==> !final(m)@.new_done
                &&& b.packets@.len() == to_send || b.packets@.len() == 64 ==> final(m)@.new_done
                    == m@.new_done
                &&& final(m)@.target_bps == m@.target_bps && final(m)@.done == m@.done
                &&& b.packets@.len() > 0 ==> !final(m)@.tick.pending
                &&& b.packets@.len() == 0 ==> final(m)@.tick == m@.tick
                &&& forall|i: int|
                    b.rex_n <= i < b.packets@.len() && (i > 0 || !m@.tick.pending)
                        ==> (#[trigger] b.packets@[i]).pdu() == ready@[i - b.rex_n].pdu()
            },
{
}

/// Whether `seq` is the block of retransmission `i` of a batch.
pub open spec fn resends(b: Batch, i: int, seq: u64) -> bool {
    &&& 0 <= i < b.rex_n
    &&& crate::protocol::parsed_data_header(b.packets@[i].pdu()) matches Some(h)
    &&& h.block_seq == seq
    &&& h.flags & FLAG_RETRANSMIT != 0
}

/// A stamped block carries the same block, and says that it is sent again where it
/// is.
#[verifier::spinoff_prover]
#[verifier::rlimit(40)]
proof fn stamped_block_carries_on<S: BlockSource + ?Sized>(
    cfg: SendConfig,
    source: &S,
    pdu: Seq<u8>,
    seq: u64,
    again: bool,
    t: TickState,
    now: u64,
)
    requires
        carries_block(cfg, source, pdu, seq, again),
    ensures
        carries_block(cfg, source, crate::sender::stamped(t, now, pdu), seq, again),
{
    let h = crate::protocol::parsed_data_header(pdu)->Some_0;
    let rest = pdu.skip(DATA_HEADER_SIZE as int);
    header_is_read_back(pdu);
    crate::sender::tick_leaves_block_alone(t, now, h, rest);
    let g = DataHeader {
        flags: crate::sender::tick_flags(t, h.flags),
        echo_tick: crate::sender::echoed_tick(t, now),
        ..h
    };
    crate::protocol::data_header_round_trip(g, rest);
    let after = crate::sender::stamped(t, now, pdu);
    assert(after.skip(DATA_HEADER_SIZE as int) =~= rest);
}

/// Eight bytes are written back as they were read.
proof fn eight_bytes_written_back(s: Seq<u8>, off: int)
    requires
        0 <= off,
        off + 8 <= s.len(),
    ensures
        crate::bytes::le64(crate::bytes::le64_at(s, off)) == s.subrange(off, off + 8),
{
    let r6: int = s[off + 6] + 256 * s[off + 7];
    let r5: int = s[off + 5] + 256 * r6;
    let r4: int = s[off + 4] + 256 * r5;
    let r3: int = s[off + 3] + 256 * r4;
    let r2: int = s[off + 2] + 256 * r3;
    let r1: int = s[off + 1] + 256 * r2;
    let v: int = s[off] + 256 * r1;
    assert(0 <= r6 < 0x1_0000);
    assert(0 <= r5 < 0x100_0000);
    assert(0 <= r4 < 0x1_0000_0000);
    assert(0 <= r3 < 0x100_0000_0000);
    assert(0 <= r2 < 0x1_0000_0000_0000);
    assert(0 <= r1 < 0x100_0000_0000_0000);
    assert(crate::bytes::le64_at(s, off) == v);
    assert(v / 256 == r1 && v % 256 == s[off]);
    assert(r1 / 256 == r2 && r1 % 256 == s[off + 1]);
    assert(r2 / 256 == r3 && r2 % 256 == s[off + 2]);
    assert(r3 / 256 == r4 && r3 % 256 == s[off + 3]);
    assert(r4 / 256 == r5 && r4 % 256 == s[off + 4]);
    assert(r5 / 256 == r6 && r5 % 256 == s[off + 5]);
    assert(r6 / 256 == s[off + 7] && r6 % 256 == s[off + 6]);
    let w = crate::bytes::le64_at(s, off);
    let b = crate::bytes::le64(w);
    assert(b.len() == 8);
    assert(b[0] == s[off] && b[1] == s[off + 1] && b[2] == s[off + 2] && b[3] == s[off + 3]);
    assert(b[4] == s[off + 4] && b[5] == s[off + 5] && b[6] == s[off + 6] && b[7] == s[off + 7]);
    assert(b =~= s.subrange(off, off + 8));
}

/// Four bytes are written back as they were read.
proof fn four_bytes_written_back(s: Seq<u8>, off: int)
    requires
        0 <= off,
        off + 4 <= s.len(),
    ensures
        crate::bytes::le32(crate::bytes::le32_at(s, off)) == s.subrange(off, off + 4),
{
    let r2: int = s[off + 2] + 256 * s[off + 3];
    let r1: int = s[off + 1] + 256 * r2;
    let v: int = s[off] + 256 * r1;
    assert(crate::bytes::le32_at(s, off) == v);
    assert(v / 256 == r1 && v % 256 == s[off]);
    assert(r1 / 256 == r2 && r1 % 256 == s[off + 1]);
    assert(r2 / 256 == s[off + 3] && r2 % 256 == s[off + 2]);
    let b = crate::bytes::le32(crate::bytes::le32_at(s, off));
    assert(b[0] == s[off] && b[1] == s[off + 1] && b[2] == s[off + 2] && b[3] == s[off + 3]);
    assert(b =~= s.subrange(off, off + 4));
}

/// Parts of a header, one behind the other, are the header.
proof fn parts_make_header(
    s: Seq<u8>,
    p0: Seq<u8>,
    p2: Seq<u8>,
    p4: Seq<u8>,
    p8: Seq<u8>,
    p16: Seq<u8>,
    p24: Seq<u8>,
    p32: Seq<u8>,
)
    requires
        s.len() >= 36,
        p0 == s.subrange(0, 2),
        p2 == s.subrange(2, 4),
        p4 == s.subrange(4, 8),
        p8 == s.subrange(8, 16),
        p16 == s.subrange(16, 24),
        p24 == s.subrange(24, 32),
        p32 == s.subrange(32, 36),
    ensures
        p0 + p2 + p4 + p8 + p16 + p24 + p32 == s.take(36),
{
    assert(p0 + p2 + p4 + p8 + p16 + p24 + p32 =~= s.take(36));
}

/// A PDU is its header, as it was read, and what follows.
proof fn header_is_read_back(pdu: Seq<u8>)
    requires
        crate::protocol::parsed_data_header(pdu) is Some,
    ensures
        pdu == crate::protocol::data_header_bytes(crate::protocol::parsed_data_header(pdu)->Some_0)
            + pdu.skip(DATA_HEADER_SIZE as int),
{
    let h = crate::protocol::parsed_data_header(pdu)->Some_0;
    let bits = crate::bytes::le64_at(pdu, 24);
    assert((bits as i64) as u64 == bits) by (bit_vector);
    let two = crate::bytes::le16(crate::bytes::le16_at(pdu, 2));
    assert(two[0] == pdu[2] && two[1] == pdu[3]);
    assert(two =~= pdu.subrange(2, 4));
    four_bytes_written_back(pdu, 4);
    eight_bytes_written_back(pdu, 8);
    eight_bytes_written_back(pdu, 16);
    eight_bytes_written_back(pdu, 24);
    four_bytes_written_back(pdu, 32);
    let front = seq![crate::protocol::PDU_DATA, h.flags];
    assert(front =~= pdu.subrange(0, 2));
    parts_make_header(
        pdu,
        front,
        two,
        crate::bytes::le32(h.session),
        crate::bytes::le64(h.block_seq),
        crate::bytes::le64(h.echo_tick),
        crate::bytes::le64(bits),
        crate::bytes::le32(h.payload_crc),
    );
    assert(crate::protocol::data_header_bytes(h) == pdu.take(36));
    assert(pdu =~= pdu.take(36) + pdu.skip(36));
}

/// A block that is sent again says so, with a tick or without.
proof fn resent_block_says_so(
    cfg: SendConfig,
    payload: Seq<u8>,
    seq: u64,
    t: TickState,
    now: u64,
)
    ensures
        ({
            let pdu = crate::sender::stamped(
                t,
                now,
                crate::sender::block_pdu(cfg, payload, seq, true),
            );
            &&& crate::protocol::parsed_data_header(pdu) matches Some(h)
            &&& h.block_seq == seq
            &&& h.flags & FLAG_RETRANSMIT != 0
        }),
{
    let h = crate::sender::block_header(cfg, payload, seq, true);
    let rest = match cfg.crypto {
        None => payload,
        Some(b) => b.sealed(seq, payload).0 + b.sealed(seq, payload).1,
    };
    let pdu = crate::sender::block_pdu(cfg, payload, seq, true);
    assert(pdu =~= crate::protocol::data_header_bytes(h) + rest);
    block_flags(cfg, payload, seq, true);
    crate::protocol::data_header_round_trip(h, rest);
    crate::sender::tick_leaves_block_alone(t, now, h, rest);
    let g = DataHeader {
        flags: crate::sender::tick_flags(t, h.flags),
        echo_tick: crate::sender::echoed_tick(t, now),
        ..h
    };
    crate::protocol::data_header_round_trip(g, rest);
}

/// Whether a request for block `q` was served, or could not be.
pub open spec fn is_served<S: BlockSource + ?Sized>(
    cfg: SendConfig,
    source: &S,
    b: Batch,
    q: u64,
) -> bool {
    (exists|i: int| #[trigger] resends(b, i, q)) || crate::sender::could_not_read(cfg, source, q)
}

/// Whether retransmission `i` of a batch is of a block that was queued, `before`,
/// and is lower than all that are left, `after`.
pub open spec fn is_lowest(before: Set<u64>, after: Set<u64>, b: Batch, i: int) -> bool {
    exists|q: u64| #[trigger]
        resends(b, i, q) && before.contains(q) && !after.contains(q) && (forall|p: u64| #[trigger]
            after.contains(p) ==> q < p)
}

/// Whether a batch takes the lowest of the queued blocks `before`, in ascending
/// order, each once, and leaves higher ones, `after`; a request that comes to
/// nothing was for a block that does not exist or could not be read.
pub open spec fn serves_requests<S: BlockSource + ?Sized>(
    cfg: SendConfig,
    source: &S,
    before: Set<u64>,
    after: Set<u64>,
    b: Batch,
) -> bool {
    &&& forall|q: u64|
        before.contains(q) && q < cfg.total_blocks && !after.contains(q) ==> #[trigger] is_served(
            cfg,
            source,
            b,
            q,
        )
    &&& forall|i: int| 0 <= i < b.rex_n ==> #[trigger] is_lowest(before, after, b, i)
    &&& forall|i: int, j: int, p: u64, q: u64|
        i < j && #[trigger] resends(b, i, p) && #[trigger] resends(b, j, q) ==> p < q
}

/// Serving the blocks `seqs` serves the queue.
#[verifier::spinoff_prover]
proof fn resent_blocks_serve_requests<S: BlockSource + ?Sized>(
    cfg: SendConfig,
    source: &S,
    unread: Set<u64>,
    before: Set<u64>,
    after: Set<u64>,
    seqs: Seq<u64>,
    b: Batch,
)
    requires
        crate::sender::takes_lowest(cfg, unread, before, after, seqs),
        crate::sender::are_unread(cfg, source, unread),
        b.rex_n == seqs.len(),
        forall|i: int| 0 <= i < b.rex_n ==> resends(b, i, #[trigger] seqs[i]),
    ensures
        serves_requests(cfg, source, before, after, b),
{
    assert forall|q: u64|
        before.contains(q) && q < cfg.total_blocks && !after.contains(
            q,
        ) implies #[trigger] is_served(cfg, source, b, q) by {
        if seqs.contains(q) {
            let i = choose|i: int| 0 <= i < seqs.len() && seqs[i] == q;
            assert(resends(b, i, seqs[i]));
        } else {
            assert(unread.contains(q));
        }
    }
    assert forall|i: int| 0 <= i < b.rex_n implies #[trigger] is_lowest(before, after, b, i) by {
        assert(resends(b, i, seqs[i]));
        assert(before.contains(seqs[i]));
    }
    assert forall|i: int, j: int, p: u64, q: u64|
        i < j && #[trigger] resends(b, i, p) && #[trigger] resends(b, j, q) implies p < q by {
        assert(resends(b, i, seqs[i]) && resends(b, j, seqs[j]));
        assert(p == seqs[i] && q == seqs[j]);
    }
}

/// The retransmissions of a batch are the blocks that it took off the queue.
#[verifier::spinoff_prover]
proof fn batch_serves_requests<S: BlockSource + ?Sized>(
    cfg: SendConfig,
    source: &S,
    given: Map<u64, Seq<u8>>,
    unread: Set<u64>,
    before: crate::sender::SendState,
    after: crate::sender::SendState,
    ready: Seq<Prefetched>,
    rest: Seq<Prefetched>,
    closed: bool,
    to_send: int,
    now: u64,
    seqs: Seq<u64>,
    b: Batch,
)
    requires
        crate::sender::is_batch(
            cfg,
            given,
            unread,
            before,
            after,
            ready,
            rest,
            closed,
            to_send,
            now,
            seqs,
            b,
        ),
        crate::sender::are_unread(cfg, source, unread),
    ensures
        serves_requests(cfg, source, before.rex, after.rex, b),
{
    assert(crate::sender::takes_lowest(cfg, unread, before.rex, after.rex, seqs));
    assert forall|i: int| 0 <= i < b.rex_n implies resends(b, i, #[trigger] seqs[i]) by {
        let t = crate::sender::tick_for(before.tick, i);
        let pdu = crate::sender::stamped(
            t,
            now,
            crate::sender::block_pdu(cfg, given[seqs[i]], seqs[i], true),
        );
        assert(b.packets@[i].pdu() == pdu);
        resent_block_says_so(cfg, given[seqs[i]], seqs[i], t, now);
    }
    resent_blocks_serve_requests(cfg, source, unread, before.rex, after.rex, seqs, b);
}

/// Law: every block that is asked for is sent again, lowest first, as far as a
/// batch has room; none is forgotten.
#[verifier::spinoff_prover]
pub proof fn requested_blocks_are_resent<S: BlockSource + ?Sized>(
    source: &S,
    closed: bool,
    to_send: usize,
    now: u64,
)
    ensures
        forall|m: &mut Sender, ready: &mut VecDeque<Prefetched>, b: Batch| #[trigger]
            call_ensures(
                Sender::build_batch::<S>,
                (m, source, ready, closed, to_send, now),
                b,
            ) ==> serves_requests(m.cfg, source, m@.rex, final(m)@.rex, b),
{
    assert forall|m: &mut Sender, ready: &mut VecDeque<Prefetched>, b: Batch| #[trigger]
        call_ensures(
            Sender::build_batch::<S>,
            (m, source, ready, closed, to_send, now),
            b,
        ) implies serves_requests(m.cfg, source, m@.rex, final(m)@.rex, b) by {
        let most = crate::stats::min_int(to_send as int, crate::sender::MAX_BATCH as int);
        let (seqs, given, unread) = choose|
            seqs: Seq<u64>,
            given: Map<u64, Seq<u8>>,
            unread: Set<u64>,
        | #[trigger]
            crate::sender::is_batch(
                m.cfg,
                given,
                unread,
                m@,
                final(m)@,
                ready@,
                final(ready)@,
                closed,
                most,
                now,
                seqs,
                b,
            ) && crate::sender::are_unread(m.cfg, source, unread);
        batch_serves_requests(
            m.cfg,
            source,
            given,
            unread,
            m@,
            final(m)@,
            ready@,
            final(ready)@,
            closed,
            most,
            now,
            seqs,
            b,
        );
    }
}

/// Law: what is sent again are the blocks themselves: each with its number, its
/// session and its bytes, in clear or sealed, and marked as sent again.
#[verifier::spinoff_prover]
pub proof fn resent_blocks_carry_their_bytes<S: BlockSource + ?Sized>(
    source: &S,
    closed: bool,
    to_send: usize,
    now: u64,
)
    ensures
        forall|m: &mut Sender, ready: &mut VecDeque<Prefetched>, b: Batch| #[trigger]
            call_ensures(
                Sender::build_batch::<S>,
                (m, source, ready, closed, to_send, now),
                b,
            ) && m.cfg.wf() && (source.modelled() ==> m.cfg.file_size <= source.contents().len())
                ==> (forall|i: int|
                0 <= i < b.rex_n ==> #[trigger] carries_queued(m.cfg, source, m@.rex, b, i)),
{
    assert forall|m: &mut Sender, ready: &mut VecDeque<Prefetched>, b: Batch| #[trigger]
        call_ensures(
            Sender::build_batch::<S>,
            (m, source, ready, closed, to_send, now),
            b,
        ) && m.cfg.wf() && (source.modelled() ==> m.cfg.file_size
            <= source.contents().len()) implies (forall|i: int|
        0 <= i < b.rex_n ==> #[trigger] carries_queued(m.cfg, source, m@.rex, b, i)) by {
        let most = crate::stats::min_int(to_send as int, crate::sender::MAX_BATCH as int);
        let (seqs, given, unread) = choose|
            seqs: Seq<u64>,
            given: Map<u64, Seq<u8>>,
            unread: Set<u64>,
        | #[trigger]
            crate::sender::is_batch(
                m.cfg,
                given,
                unread,
                m@,
                final(m)@,
                ready@,
                final(ready)@,
                closed,
                most,
                now,
                seqs,
                b,
            ) && crate::sender::are_given(m.cfg, source, seqs, given);
        batch_carries_queued(
            m.cfg,
            source,
            given,
            unread,
            m@,
            final(m)@,
            ready@,
            final(ready)@,
            closed,
            most,
            now,
            seqs,
            b,
        );
    }
}

/// Whether retransmission `i` of a batch carries one of the queued blocks.
pub open spec fn carries_queued<S: BlockSource + ?Sized>(
    cfg: SendConfig,
    source: &S,
    queue: Set<u64>,
    b: Batch,
    i: int,
) -> bool {
    exists|q: u64| #[trigger]
        queue.contains(q) && carries_block(cfg, source, b.packets@[i].pdu(), q, true)
}

#[verifier::spinoff_prover]
proof fn batch_carries_queued<S: BlockSource + ?Sized>(
    cfg: SendConfig,
    source: &S,
    given: Map<u64, Seq<u8>>,
    unread: Set<u64>,
    before: crate::sender::SendState,
    after: crate::sender::SendState,
    ready: Seq<Prefetched>,
    rest: Seq<Prefetched>,
    closed: bool,
    to_send: int,
    now: u64,
    seqs: Seq<u64>,
    b: Batch,
)
    requires
        crate::sender::is_batch(
            cfg,
            given,
            unread,
            before,
            after,
            ready,
            rest,
            closed,
            to_send,
            now,
            seqs,
            b,
        ),
        crate::sender::are_given(cfg, source, seqs, given),
        cfg.wf(),
        source.modelled() ==> cfg.file_size <= source.contents().len(),
    ensures
        forall|i: int|
            0 <= i < b.rex_n ==> #[trigger] carries_queued(cfg, source, before.rex, b, i),
{
    assert(crate::sender::takes_lowest(cfg, unread, before.rex, after.rex, seqs));
    assert forall|i: int| 0 <= i < b.rex_n implies #[trigger] carries_queued(
        cfg,
        source,
        before.rex,
        b,
        i,
    ) by {
        let q = seqs[i];
        let t = crate::sender::tick_for(before.tick, i);
        let pdu = crate::sender::block_pdu(cfg, given[q], q, true);
        assert(crate::sender::is_given(cfg, source, q, given[q]));
        assert(before.rex.contains(q));
        assert(b.packets@[i].pdu() == crate::sender::stamped(t, now, pdu));
        pdu_carries_block(cfg, source, given[q], q, true);
        stamped_block_carries_on(cfg, source, pdu, q, true, t, now);
    }
}

/// Law: a waiting tick goes out with the first packet of a batch, and only with
/// that: a network tick moved on by the time that the sender held it, a path tick
/// as it came. The packet is else the one that was ready.
#[verifier::spinoff_prover]
#[verifier::rlimit(40)]
pub proof fn first_packet_carries_the_tick<S: BlockSource + ?Sized>(
    source: &S,
    closed: bool,
    to_send: usize,
    now: u64,
)
    ensures
        forall|m: &mut Sender, ready: &mut VecDeque<Prefetched>, b: Batch| #[trigger]
            call_ensures(
                Sender::build_batch::<S>,
                (m, source, ready, closed, to_send, now),
                b,
            ) && m@.tick.pending && b.rex_n == 0 && b.new_n > 0
                && crate::protocol::parsed_data_header(ready@[0].pdu()) is Some && m@.tick.t2 <= now
                && m@.tick.val + (now - m@.tick.t2) <= u64::MAX ==> {
                let was = crate::protocol::parsed_data_header(ready@[0].pdu())->Some_0;
                let pdu = b.packets@[0].pdu();
                &&& crate::protocol::parsed_data_header(pdu) matches Some(h)
                &&& h.flags & FLAG_HAS_TICK != 0
                &&& (h.flags & FLAG_TICK_N != 0) == m@.tick.is_net
                &&& (h.flags & FLAG_RETRANSMIT) == (was.flags & FLAG_RETRANSMIT)
                &&& (h.flags & FLAG_LAST_BLOCK) == (was.flags & FLAG_LAST_BLOCK)
                &&& m@.tick.is_net ==> h.echo_tick == m@.tick.val + (now - m@.tick.t2)
                &&& !m@.tick.is_net ==> h.echo_tick == m@.tick.val
                &&& h.block_seq == was.block_seq && h.session == was.session && h.payload_len
                    == was.payload_len && h.payload_crc == was.payload_crc && h.rex_index
                    == was.rex_index
                &&& pdu.skip(DATA_HEADER_SIZE as int) == ready@[0].pdu().skip(
                    DATA_HEADER_SIZE as int,
                )
            },
{
    assert forall|pdu: Seq<u8>, t: TickState|
        #![trigger crate::sender::stamped(t, now, pdu)]
        t.pending && crate::protocol::parsed_data_header(pdu) is Some && t.t2 <= now && t.val + (now
            - t.t2) <= u64::MAX implies {
        let was = crate::protocol::parsed_data_header(pdu)->Some_0;
        let after = crate::sender::stamped(t, now, pdu);
        &&& crate::protocol::parsed_data_header(after) matches Some(h)
        &&& h.flags & FLAG_HAS_TICK != 0
        &&& (h.flags & FLAG_TICK_N != 0) == t.is_net
        &&& (h.flags & FLAG_RETRANSMIT) == (was.flags & FLAG_RETRANSMIT)
        &&& (h.flags & FLAG_LAST_BLOCK) == (was.flags & FLAG_LAST_BLOCK)
        &&& t.is_net ==> h.echo_tick == t.val + (now - t.t2)
        &&& !t.is_net ==> h.echo_tick == t.val
        &&& h.block_seq == was.block_seq && h.session == was.session && h.payload_len
            == was.payload_len && h.payload_crc == was.payload_crc && h.rex_index == was.rex_index
        &&& after.skip(DATA_HEADER_SIZE as int) == pdu.skip(DATA_HEADER_SIZE as int)
    } by {
        let h = crate::protocol::parsed_data_header(pdu)->Some_0;
        let rest = pdu.skip(DATA_HEADER_SIZE as int);
        header_is_read_back(pdu);
        crate::sender::tick_leaves_block_alone(t, now, h, rest);
        let g = DataHeader {
            flags: crate::sender::tick_flags(t, h.flags),
            echo_tick: crate::sender::echoed_tick(t, now),
            ..h
        };
        crate::protocol::data_header_round_trip(g, rest);
        let after = crate::sender::stamped(t, now, pdu);
        assert(after.skip(DATA_HEADER_SIZE as int) =~= rest);
    }
}

/// The bytes of packets.
pub open spec fn total_size(packets: Seq<Prefetched>) -> int
    decreases packets.len(),
{
    if packets.len() == 0 {
        0
    } else {
        packets[0].size + total_size(packets.skip(1))
    }
}

proof fn sizes_add_up(packets: Seq<Prefetched>)
    ensures
        total_size(packets) >= 0,
        packets.len() > 0 ==> total_size(packets) == total_size(packets.drop_last())
            + packets.last().size,
        total_size(packets) <= u64::MAX ==> crate::sender::wire_bytes(packets) == total_size(
            packets,
        ),
    decreases packets.len(),
{
    if packets.len() == 1 {
        assert(packets.skip(1) =~= Seq::<Prefetched>::empty());
        assert(packets.drop_last() =~= Seq::<Prefetched>::empty());
        assert(total_size(packets.drop_last()) == 0);
        assert(crate::sender::wire_bytes(packets.drop_last()) == 0);
    } else if packets.len() > 1 {
        sizes_add_up(packets.skip(1));
        sizes_add_up(packets.drop_last());
        assert(packets.skip(1).drop_last() =~= packets.drop_last().skip(1));
        assert(packets.drop_last()[0] == packets[0]);
    }
}

/// Law: a batch tells the bytes of what it sends again and of what it sends first,
/// and the queue that it leaves is told by its length.
pub proof fn batches_tell_their_size<S: BlockSource + ?Sized>(
    source: &S,
    closed: bool,
    to_send: usize,
    now: u64,
)
    ensures
        forall|m: &mut Sender, ready: &mut VecDeque<Prefetched>, b: Batch| #[trigger]
            call_ensures(
                Sender::build_batch::<S>,
                (m, source, ready, closed, to_send, now),
                b,
            ) ==> {
                let again = b.packets@.take(b.rex_n as int);
                let first = b.packets@.skip(b.rex_n as int);
                &&& total_size(again) <= u64::MAX ==> b.rex_bytes == total_size(again)
                &&& total_size(first) <= u64::MAX ==> b.new_bytes == total_size(first)
                &&& final(m)@.rex != m@.rex ==> final(m)@.stats.rex_queue_len
                    == final(m)@.rex.len() as i64
                &&& final(m)@.rex == m@.rex ==> final(m)@.stats.rex_queue_len
                    == m@.stats.rex_queue_len
                &&& final(m)@.stats.packets_sent == m@.stats.packets_sent
                &&& final(m)@.stats.target_rate_bps == m@.stats.target_rate_bps
                &&& final(m).cfg == m.cfg
            },
        forall|c: &SendConfig, r: usize| #[trigger]
            call_ensures(SendConfig::buffer_len, (c,), r) ==> {
                &&& c.crypto is None ==> r == c.block_size + 36
                &&& c.crypto is Some ==> r == c.block_size + 36 + 16
            },
{
    assert forall|m: &mut Sender, ready: &mut VecDeque<Prefetched>, b: Batch| #[trigger]
        call_ensures(
            Sender::build_batch::<S>,
            (m, source, ready, closed, to_send, now),
            b,
        ) implies {
        let again = b.packets@.take(b.rex_n as int);
        let first = b.packets@.skip(b.rex_n as int);
        &&& total_size(again) <= u64::MAX ==> b.rex_bytes == total_size(again)
        &&& total_size(first) <= u64::MAX ==> b.new_bytes == total_size(first)
    } by {
        sizes_add_up(b.packets@.take(b.rex_n as int));
        sizes_add_up(b.packets@.skip(b.rex_n as int));
    }
}

} // verus!
