//! Receiving data plane.
//!
//! The per-packet path does only order-independent work: integrity check, bitmap
//! set and staging. All loss detection and NACK scheduling lives in the feedback
//! step, which scans the bitmap on an RTO basis. A single in-order flusher writes
//! blocks strictly at the advancing frontier, so the write pattern stays
//! sequential regardless of arrival order.

use crate::crypto::AeadBox;
use crate::error::{IoError, IoKind};
use crate::io::BlockSink;
use crate::losstracker::{LossScanner, RecvBitmap};
use crate::protocol::{
    crc32c, decode_data_header, encode_feedback, pdu_type, DataHeader, FeedbackHeader, NackEntry,
    DATA_HEADER_SIZE, FEEDBACK_HEADER_SIZE, FLAG_HAS_TICK, FLAG_TICK_N, NACK_ENTRY_SIZE, PDU_DATA,
    PDU_FIN,
};
use crate::rate::{RateConfig, RTT_PREC_US};
use crate::stats::{count, Stats};
use crate::text::decimal;
use std::collections::HashMap;
use std::sync::Arc;
use vstd::prelude::*;
use vstd::string::StringExecFns;

verus! {

broadcast use vstd::std_specs::hash::group_hash_axioms;

/// Bytes of out-of-order window that the staging pool absorbs.
pub const STAGE_BYTES: usize = 100_663_296;

/// What a receiver is told of a transfer.
#[derive(Clone)]
pub struct RecvConfig {
    pub file_size: i64,
    pub block_size: usize,
    pub total_blocks: u64,
    pub session: u32,
    pub read_workers: usize,
    pub rate: RateConfig,
    pub crypto: Option<Arc<AeadBox>>,
    pub feedback_interval_us: u32,
    pub net_tick_interval_us: u32,
    pub max_nacks_per_pdu: usize,
}

/// The box of a configuration, out of its shared pointer.
pub open spec fn box_of(crypto: Option<Arc<AeadBox>>) -> Option<AeadBox> {
    match crypto {
        Some(b) => Some(*b),
        None => None,
    }
}

impl RecvConfig {
    /// The block count is that of the size, and offsets fit in 64 bits.
    pub open spec fn wf(self) -> bool {
        &&& 0 < self.block_size <= 0x100_0000_0000_0000
        &&& self.total_blocks == crate::protocol::blocks_for(
            self.file_size as int,
            self.block_size as int,
        )
        &&& crate::losstracker::words_for(self.total_blocks as int) <= usize::MAX
        &&& FEEDBACK_HEADER_SIZE + self.max_nacks_per_pdu * NACK_ENTRY_SIZE <= usize::MAX
    }

    /// The configuration with every zero setting replaced by its default.
    pub open spec fn filled(self, cpus: usize) -> RecvConfig {
        RecvConfig {
            read_workers: if self.read_workers == 0 {
                cpus
            } else {
                self.read_workers
            },
            feedback_interval_us: if self.feedback_interval_us == 0 {
                5000
            } else {
                self.feedback_interval_us
            },
            net_tick_interval_us: if self.net_tick_interval_us == 0 {
                10000
            } else {
                self.net_tick_interval_us
            },
            max_nacks_per_pdu: if self.max_nacks_per_pdu == 0 {
                90
            } else {
                self.max_nacks_per_pdu
            },
            ..self
        }
    }

    /// How many blocks can be staged: as many as fit in the staging window, but
    /// no more than there are, and at least one.
    pub open spec fn stage_depth(self) -> int {
        let window = STAGE_BYTES as int / self.block_size as int;
        let depth = if self.total_blocks > 0 && window > self.total_blocks {
            self.total_blocks as int
        } else {
            window
        };
        if depth < 1 {
            1
        } else {
            depth
        }
    }
}

// --- packets ----------------------------------------------------------------

/// What a datagram is to a receiver.
pub enum Verdict {
    /// Not for this transfer, or malformed.
    Ignored,
    /// The sender has injected every block.
    Fin,
    /// A block that failed its integrity check.
    Corrupt,
    /// A block and its payload.
    Block(DataHeader, Seq<u8>),
}

/// What the datagram `pkt` is to a receiver of `session`. A FIN needs its full
/// length. A block needs a header of this session; a sealed one is authenticated
/// and decrypted, a clear one has its payload checked against its CRC.
pub open spec fn verdict(session: u32, crypto: Option<AeadBox>, pkt: Seq<u8>) -> Verdict {
    let t = crate::protocol::pdu_type_of(pkt);
    if t == PDU_FIN {
        if pkt.len() >= 16 {
            Verdict::Fin
        } else {
            Verdict::Ignored
        }
    } else {
        match crate::protocol::parsed_data_header(pkt) {
            None => Verdict::Ignored,
            Some(h) => if h.session != session {
                Verdict::Ignored
            } else {
                block_verdict(h, crypto, pkt.skip(DATA_HEADER_SIZE as int))
            },
        }
    }
}

/// What the bytes behind a block's header amount to.
pub open spec fn block_verdict(h: DataHeader, crypto: Option<AeadBox>, rest: Seq<u8>) -> Verdict {
    let plen = h.payload_len as int;
    match crypto {
        Some(b) => if plen + crate::crypto::AEAD_TAG_LEN > rest.len() {
            Verdict::Corrupt
        } else {
            match b.opened(
                h.block_seq,
                rest.take(plen),
                rest.subrange(plen, plen + crate::crypto::AEAD_TAG_LEN),
            ) {
                None => Verdict::Corrupt,
                Some(payload) => Verdict::Block(h, payload),
            }
        },
        None => if plen > rest.len() {
            Verdict::Ignored
        } else if crate::protocol::crc32c_of(rest.take(plen)) != h.payload_crc {
            Verdict::Corrupt
        } else {
            Verdict::Block(h, rest.take(plen))
        },
    }
}

/// What `check_packet` found.
pub enum PacketCheck {
    /// Not for this transfer, or malformed.
    Ignored,
    /// The sender has injected every block.
    Fin,
    /// A block that failed its integrity check.
    Corrupt,
    /// A block, whose payload now stands in clear behind the header.
    Block(DataHeader),
}

/// Whether `r` reports the verdict `v`.
pub open spec fn reports(r: PacketCheck, v: Verdict) -> bool {
    match v {
        Verdict::Ignored => r is Ignored,
        Verdict::Fin => r is Fin,
        Verdict::Corrupt => r is Corrupt,
        Verdict::Block(h, payload) => r == PacketCheck::Block(h),
    }
}

/// Judges a datagram, decrypting a sealed payload in place.
pub fn check_packet(session: u32, crypto: Option<&AeadBox>, pkt: &mut [u8]) -> (r: PacketCheck)
    ensures
        final(pkt)@.len() == old(pkt)@.len(),
        ({
            let b = match crypto {
                Some(b) => Some(*b),
                None => None,
            };
            let v = verdict(session, b, old(pkt)@);
            &&& reports(r, v)
            &&& v matches Verdict::Block(h, payload) ==> {
                &&& payload.len() == h.payload_len
                &&& DATA_HEADER_SIZE + payload.len() <= final(pkt)@.len()
                &&& final(pkt)@.subrange(
                    DATA_HEADER_SIZE as int,
                    DATA_HEADER_SIZE + payload.len(),
                ) == payload
            }
        }),
{
    let t: u8 = pdu_type(pkt);
    if t == PDU_FIN {
        if pkt.len() >= 16 {
            return PacketCheck::Fin;
        }
        return PacketCheck::Ignored;
    }
    if t != PDU_DATA {
        return PacketCheck::Ignored;
    }
    let h = match decode_data_header(pkt) {
        None => return PacketCheck::Ignored,
        Some(h) => h,
    };
    if h.session != session {
        return PacketCheck::Ignored;
    }
    let plen: usize = h.payload_len as usize;
    let ghost before = pkt@;
    let (head, rest) = pkt.split_at_mut(DATA_HEADER_SIZE);
    assert(rest@ =~= before.skip(DATA_HEADER_SIZE as int));
    let ghost sealed = rest@;
    match crypto {
        Some(b) => match b.open_data(rest, plen, h.block_seq) {
            None => PacketCheck::Corrupt,
            Some(n) => {
                assert((head@ + rest@).subrange(
                    DATA_HEADER_SIZE as int,
                    DATA_HEADER_SIZE + plen,
                ) =~= rest@.take(plen as int));
                proof {
                    let payload = b.opened(
                        h.block_seq,
                        sealed.take(plen as int),
                        sealed.subrange(plen as int, plen + crate::crypto::AEAD_TAG_LEN),
                    )->Some_0;
                    assert(rest@ == payload + sealed.skip(plen as int));
                    assert(payload.len() == plen);
                    assert(rest@.take(plen as int) =~= payload);
                }
                PacketCheck::Block(h)
            },
        },
        None => {
            if plen > rest.len() {
                return PacketCheck::Ignored;
            }
            let (payload, tail) = rest.split_at_mut(plen);
            assert(payload@ =~= sealed.take(plen as int));
            let crc: u32 = crc32c(payload);
            assert((head@ + (payload@ + tail@)).subrange(
                DATA_HEADER_SIZE as int,
                DATA_HEADER_SIZE + plen,
            ) =~= payload@);
            if crc != h.payload_crc {
                return PacketCheck::Corrupt;
            }
            PacketCheck::Block(h)
        },
    }
}

// --- state ------------------------------------------------------------------

/// The receiving end of a transfer.
pub struct Receiver_ {
    /// The configuration, with defaults filled in.
    pub cfg: RecvConfig,
    /// The blocks that have arrived.
    pub bm: RecvBitmap,
    /// The blocks that are staged or written.
    pub ready_bm: RecvBitmap,
    /// The highest block number seen.
    pub max_seen: u64,
    /// Whether any block was seen.
    pub seen_any: bool,
    /// Whether the sender has injected every block.
    pub all_sent: bool,
    /// Whether the transfer is complete and the sender was told.
    pub done: bool,
    /// The blocks waiting to be written in order.
    pub stage: HashMap<u64, Vec<u8>>,
    /// The number of blocks that can still be staged.
    pub free: usize,
    /// The number of blocks that the in-order flusher has passed.
    pub write_front: u64,
}

/// What a receiver knows.
#[verifier::ext_equal]
pub struct RecvState {
    pub bits: Seq<bool>,
    pub ready: Seq<bool>,
    pub max_seen: u64,
    pub seen_any: bool,
    pub all_sent: bool,
    pub done: bool,
    pub stage: Map<u64, Seq<u8>>,
    pub free: int,
    pub write_front: u64,
}

impl View for Receiver_ {
    type V = RecvState;

    open spec fn view(&self) -> RecvState {
        RecvState {
            bits: self.bm@,
            ready: self.ready_bm@,
            max_seen: self.max_seen,
            seen_any: self.seen_any,
            all_sent: self.all_sent,
            done: self.done,
            stage: self.stage@.map_values(|v: Vec<u8>| v@),
            free: self.free as int,
            write_front: self.write_front,
        }
    }
}

impl RecvState {
    /// Ready blocks have arrived, staged blocks are ready and lie at or behind
    /// the write front, and the pool is accounted for.
    pub open spec fn wf(self, total: int, depth: int) -> bool {
        &&& self.bits.len() == 64 * crate::losstracker::words_for(total)
        &&& self.ready.len() == self.bits.len()
        &&& self.write_front <= total
        &&& self.stage.dom().finite()
        &&& self.free + self.stage.dom().len() == depth
        &&& forall|i: int| 0 <= i < self.ready.len() && #[trigger] self.ready[i] ==> self.bits[i]
        &&& forall|seq: u64| #[trigger]
            self.stage.dom().contains(seq) ==> self.write_front <= seq < self.ready.len()
                && self.ready[seq as int]
        &&& forall|i: int| 0 <= i < self.write_front ==> #[trigger] self.ready[i]
    }
}

/// What becomes of an intact block.
#[derive(Debug, Clone, Copy, PartialEq, Eq, Structural)]
pub enum Accepted {
    /// It had arrived before.
    Duplicate,
    /// It waits for the in-order flusher.
    Staged,
    /// The staging pool is exhausted: it is to be written directly.
    WriteThrough,
    /// Its number lies outside the bitmap.
    OutOfRange,
}

/// What becomes of an intact block with number `seq`.
pub open spec fn acceptance(s: RecvState, seq: u64) -> Accepted {
    if seq >= s.bits.len() {
        Accepted::OutOfRange
    } else if s.bits[seq as int] {
        Accepted::Duplicate
    } else if s.free > 0 {
        Accepted::Staged
    } else {
        Accepted::WriteThrough
    }
}

/// The state after an intact block.
pub open spec fn after_accept(s: RecvState, seq: u64, payload: Seq<u8>) -> RecvState {
    let seen = RecvState {
        seen_any: true,
        max_seen: if seq > s.max_seen {
            seq
        } else {
            s.max_seen
        },
        ..s
    };
    match acceptance(s, seq) {
        Accepted::OutOfRange => seen,
        Accepted::Duplicate => seen,
        Accepted::Staged => RecvState {
            bits: s.bits.update(seq as int, true),
            ready: s.ready.update(seq as int, true),
            stage: s.stage.insert(seq, payload),
            free: s.free - 1,
            ..seen
        },
        Accepted::WriteThrough => RecvState { bits: s.bits.update(seq as int, true), ..seen },
    }
}

/// The counters after an intact block of `len` bytes.
pub open spec fn accept_counts(a: Accepted, len: int, stats: Stats) -> Stats {
    match a {
        Accepted::OutOfRange => stats,
        Accepted::Duplicate => Stats {
            dup_recv: crate::stats::counted(stats.dup_recv, 1),
            ..stats
        },
        _ => Stats {
            payload_recv: crate::stats::counted(stats.payload_recv, len),
            blocks_written: crate::stats::counted(stats.blocks_written, 1),
            ..stats
        },
    }
}

/// The state after block `seq` was written directly.
pub open spec fn after_direct_write(s: RecvState, seq: u64) -> RecvState {
    RecvState { ready: s.ready.update(seq as int, true), ..s }
}

/// Builds a receiver from `cfg`, filling in defaults. `cpus` is the number of
/// processors, for the number of ingest workers.
pub fn new_receiver(cfg: RecvConfig, cpus: usize, stats: &mut Stats) -> (r: Receiver_)
    requires
        cfg.wf(),
    ensures
        r.wf(),
        r.cfg == cfg.filled(cpus),
        r@.max_seen == 0 && !r@.seen_any && !r@.all_sent && !r@.done && r@.write_front == 0,
        r@.stage == Map::<u64, Seq<u8>>::empty(),
        r@.free == cfg.stage_depth(),
        forall|i: int| 0 <= i < r@.bits.len() ==> !#[trigger] r@.bits[i],
        forall|i: int| 0 <= i < r@.ready.len() ==> !#[trigger] r@.ready[i],
        *final(stats) == (Stats {
            total_bytes: crate::bytes::bits_of_i64(cfg.file_size),
            total_blocks: cfg.total_blocks,
            block_size: cfg.block_size as u64,
            target_rate_bps: cfg.rate.target_bps,
            ..*old(stats)
        }),
{
    let mut cfg = cfg;
    let ghost given = cfg;
    if cfg.read_workers == 0 {
        cfg.read_workers = cpus;
    }
    if cfg.feedback_interval_us == 0 {
        cfg.feedback_interval_us = 5000;
    }
    if cfg.net_tick_interval_us == 0 {
        cfg.net_tick_interval_us = 10000;
    }
    if cfg.max_nacks_per_pdu == 0 {
        cfg.max_nacks_per_pdu = 90;
    }
    let mut depth: usize = STAGE_BYTES / cfg.block_size;
    if cfg.total_blocks > 0 && depth as u64 > cfg.total_blocks {
        depth = cfg.total_blocks as usize;
    }
    if depth < 1 {
        depth = 1;
    }
    stats.total_bytes = cfg.file_size as u64;
    stats.total_blocks = cfg.total_blocks;
    stats.block_size = cfg.block_size as u64;
    stats.target_rate_bps = cfg.rate.target_bps;
    let total: u64 = cfg.total_blocks;
    let r = Receiver_ {
        cfg,
        bm: RecvBitmap::new(total),
        ready_bm: RecvBitmap::new(total),
        max_seen: 0,
        seen_any: false,
        all_sent: false,
        done: false,
        stage: HashMap::new(),
        free: depth,
        write_front: 0,
    };
    assert(r@.stage =~= Map::<u64, Seq<u8>>::empty());
    r
}

/// What became of a datagram.
pub enum PacketOutcome {
    /// It was not for this transfer, or malformed.
    Ignored,
    /// The sender has injected every block.
    Fin,
    /// It failed its integrity check.
    Corrupt,
    /// It was an intact block. A failed direct write is reported.
    Block { header: DataHeader, accepted: Accepted, write_error: Option<IoError> },
}

/// Whether the datagram `pkt` was handled as it should be: what became of it, of
/// the receiver's state, of the counters and of the bytes in the sink. Where
/// `reliable` is set the sink takes every write inside its size.
pub open spec fn handled(
    cfg: RecvConfig,
    pkt: Seq<u8>,
    before: RecvState,
    after: RecvState,
    stats_before: Stats,
    stats_after: Stats,
    sink_before: Seq<u8>,
    sink_after: Seq<u8>,
    reliable: bool,
    r: PacketOutcome,
) -> bool {
    match verdict(cfg.session, box_of(cfg.crypto), pkt) {
        Verdict::Ignored => {
            &&& r is Ignored
            &&& after == before
            &&& stats_after == stats_before
            &&& sink_after == sink_before
        },
        Verdict::Fin => {
            &&& r is Fin
            &&& after == (RecvState { all_sent: true, ..before })
            &&& stats_after == stats_before
            &&& sink_after == sink_before
        },
        Verdict::Corrupt => {
            &&& r is Corrupt
            &&& after == before
            &&& stats_after == (Stats {
                corrupt_recv: crate::stats::counted(stats_before.corrupt_recv, 1),
                ..stats_before
            })
            &&& sink_after == sink_before
        },
        Verdict::Block(h, payload) => {
            let a = acceptance(before, h.block_seq);
            let taken = after_accept(before, h.block_seq, payload);
            let off = h.block_seq * cfg.block_size;
            &&& r matches PacketOutcome::Block { header, accepted, write_error }
            &&& header == h
            &&& accepted == a
            &&& stats_after == accept_counts(a, payload.len() as int, stats_before)
            &&& (if a == Accepted::WriteThrough && write_error is None {
                &&& after == after_direct_write(taken, h.block_seq)
                &&& sink_after == crate::io::written(sink_before, off, payload)
            } else {
                &&& after == taken
                &&& a != Accepted::WriteThrough ==> write_error is None && sink_after
                    == sink_before
            })
            &&& reliable && off + payload.len() <= sink_before.len() ==> write_error is None
        },
    }
}

/// The counters with the datagram `pkt` counted.
pub open spec fn packet_counted(stats: Stats, pkt: Seq<u8>) -> Stats {
    Stats {
        packets_recv: crate::stats::counted(stats.packets_recv, 1),
        bytes_recv: crate::stats::counted(stats.bytes_recv, pkt.len() as int),
        ..stats
    }
}

/// What a sink that held `held` holds after the datagram `pkt` was handled.
spec fn held_after(cfg: RecvConfig, pkt: Seq<u8>, held: Seq<u8>, r: PacketOutcome) -> Seq<u8> {
    match (verdict(cfg.session, box_of(cfg.crypto), pkt), r) {
        (
            Verdict::Block(h, payload),
            PacketOutcome::Block { accepted, write_error: None, .. },
        ) => if accepted == Accepted::WriteThrough {
            crate::io::written(held, h.block_seq * cfg.block_size, payload)
        } else {
            held
        },
        _ => held,
    }
}

/// Whether `held` is what a sink holds, where the sink says what it holds.
pub open spec fn is_held<S: BlockSink + ?Sized>(sink: &S, held: Seq<u8>) -> bool {
    sink.modelled() ==> held == sink.contents()
}

/// Whether every write inside the size of a sink succeeds.
pub open spec fn surely_written<S: BlockSink + ?Sized>(sink: &S) -> bool {
    sink.modelled() && sink.reliable()
}

/// Whether a block in `pkt` that cannot be staged, as `r` tells, was written to
/// `sink` at its place, and a failure that `r` reports is that of this write.
pub open spec fn wrote_through<S: BlockSink + ?Sized>(
    cfg: RecvConfig,
    pkt: Seq<u8>,
    sink: &S,
    r: PacketOutcome,
) -> bool {
    match (verdict(cfg.session, box_of(cfg.crypto), pkt), r) {
        (
            Verdict::Block(h, payload),
            PacketOutcome::Block { accepted, write_error, .. },
        ) => {
            let off = h.block_seq * cfg.block_size;
            match write_error {
                Some(e) => sink.may_fail(off, payload, e) && crate::io::is_write(
                    sink,
                    off as u64,
                    payload,
                    Err(e),
                ),
                None => accepted == Accepted::WriteThrough ==> crate::io::is_good_write(
                    sink,
                    off as u64,
                    payload,
                ),
            }
        },
        _ => true,
    }
}

impl Receiver_ {
    /// The parts agree with the configuration and with each other.
    pub open spec fn wf(&self) -> bool {
        &&& self.cfg.wf()
        &&& self.bm.wf()
        &&& self.ready_bm.wf()
        &&& self.bm.total() == self.cfg.total_blocks
        &&& self.ready_bm.total() == self.cfg.total_blocks
        &&& self@.wf(self.cfg.total_blocks as int, self.cfg.stage_depth())
    }

    /// Takes in an intact block: marks it as arrived and stages it where the
    /// pool has room. A block that is not staged is left to the caller to write
    /// directly and to report with `wrote_directly`.
    pub fn accept(&mut self, stats: &mut Stats, seq: u64, payload: &[u8]) -> (r: Accepted)
        requires
            old(self).wf(),
        ensures
            final(self).wf(),
            final(self).cfg == old(self).cfg,
            r == acceptance(old(self)@, seq),
            final(self)@ == after_accept(old(self)@, seq, payload@),
            *final(stats) == accept_counts(r, payload@.len() as int, *old(stats)),
    {
        self.seen_any = true;
        if seq > self.max_seen {
            self.max_seen = seq;
        }
        if seq as u128 >= self.bm.capacity() {
            return Accepted::OutOfRange;
        }
        if !self.bm.set_and_test(seq) {
            stats.dup_recv = count(stats.dup_recv, 1);
            return Accepted::Duplicate;
        }
        stats.payload_recv = count(stats.payload_recv, payload.len() as u64);
        stats.blocks_written = count(stats.blocks_written, 1);
        if self.free == 0 {
            return Accepted::WriteThrough;
        }
        let buf = vstd::slice::slice_to_vec(payload);
        let ghost before = self.stage@;
        assert(!old(self)@.stage.dom().contains(seq));
        self.stage.insert(seq, buf);
        self.free = self.free - 1;
        self.ready_bm.set_and_test(seq);
        assert(self@.stage =~= old(self)@.stage.insert(seq, payload@));
        Accepted::Staged
    }

    /// Records that block `seq` was written directly.
    pub fn wrote_directly(&mut self, seq: u64)
        requires
            old(self).wf(),
            seq < old(self)@.bits.len(),
            old(self)@.bits[seq as int],
        ensures
            final(self).wf(),
            final(self).cfg == old(self).cfg,
            final(self)@ == after_direct_write(old(self)@, seq),
    {
        self.ready_bm.set_and_test(seq);
    }

    /// Processes one datagram: judges it, takes in an intact block, and writes
    /// one that cannot be staged directly to the sink.
    pub fn handle_packet<S: BlockSink + ?Sized>(
        &mut self,
        stats: &mut Stats,
        pkt: &mut [u8],
        sink: &mut S,
    ) -> (r: PacketOutcome)
        requires
            old(self).wf(),
        ensures
            final(self).wf(),
            final(self).cfg == old(self).cfg,
            exists|held: Seq<u8>, left: Seq<u8>|
                is_held(&*old(sink), held) && is_held(&*final(sink), left) && #[trigger] handled(
                    old(self).cfg,
                    old(pkt)@,
                    old(self)@,
                    final(self)@,
                    *old(stats),
                    *final(stats),
                    held,
                    left,
                    surely_written(&*old(sink)),
                    r,
                ),
            wrote_through(old(self).cfg, old(pkt)@, &*old(sink), r),
            final(sink).modelled() == old(sink).modelled(),
            final(sink).reliable() == old(sink).reliable(),
    {
        let ghost cfg = self.cfg;
        let ghost datagram = pkt@;
        let ghost before = self@;
        let ghost stats0 = *stats;
        let ghost held = sink.contents();
        let ghost sure = surely_written(&*sink);
        let crypto: Option<&AeadBox> = match &self.cfg.crypto {
            Some(b) => Some(&**b),
            None => None,
        };
        let r = match check_packet(self.cfg.session, crypto, pkt) {
            PacketCheck::Ignored => PacketOutcome::Ignored,
            PacketCheck::Fin => {
                self.all_sent = true;
                PacketOutcome::Fin
            },
            PacketCheck::Corrupt => {
                stats.corrupt_recv = count(stats.corrupt_recv, 1);
                PacketOutcome::Corrupt
            },
            PacketCheck::Block(h) => {
                let plen: usize = h.payload_len as usize;
                let seq: u64 = h.block_seq;
                let payload = vstd::slice::slice_subrange(
                    pkt,
                    DATA_HEADER_SIZE,
                    DATA_HEADER_SIZE + plen,
                );
                let accepted = self.accept(stats, seq, payload);
                let mut write_error: Option<IoError> = None;
                if accepted == Accepted::WriteThrough {
                    proof {
                        offset_fits(seq as int, self.cfg);
                    }
                    let off: u64 = seq * self.cfg.block_size as u64;
                    let write = S::write_all_at;
                    let got = write(&mut *sink, off, payload);
                    assert(crate::io::is_write(&*old(sink), off, payload@, got));
                    match got {
                        Ok(()) => {
                            self.wrote_directly(seq);
                        },
                        Err(e) => {
                            write_error = Some(e);
                        },
                    }
                }
                PacketOutcome::Block { header: h, accepted, write_error }
            },
        };
        proof {
            let left = if sink.modelled() {
                sink.contents()
            } else {
                held_after(cfg, datagram, held, r)
            };
            assert(is_held(&*old(sink), held));
            assert(is_held(&*sink, left));
            assert(handled(cfg, datagram, before, self@, stats0, *stats, held, left, sure, r));
        }
        r
    }

    /// Counts a datagram and processes it. An empty one is not counted.
    pub fn ingest<S: BlockSink + ?Sized>(
        &mut self,
        stats: &mut Stats,
        pkt: &mut [u8],
        sink: &mut S,
    ) -> (r: PacketOutcome)
        requires
            old(self).wf(),
        ensures
            final(self).wf(),
            final(self).cfg == old(self).cfg,
            final(sink).modelled() == old(sink).modelled(),
            final(sink).reliable() == old(sink).reliable(),
            old(pkt)@.len() == 0 ==> r is Ignored && final(self)@ == old(self)@ && *final(stats)
                == *old(stats) && final(sink).contents() == old(sink).contents(),
            old(pkt)@.len() > 0 ==> exists|held: Seq<u8>, left: Seq<u8>|
                is_held(&*old(sink), held) && is_held(&*final(sink), left) && #[trigger] handled(
                    old(self).cfg,
                    old(pkt)@,
                    old(self)@,
                    final(self)@,
                    packet_counted(*old(stats), old(pkt)@),
                    *final(stats),
                    held,
                    left,
                    surely_written(&*old(sink)),
                    r,
                ),
            wrote_through(old(self).cfg, old(pkt)@, &*old(sink), r),
    {
        if pkt.len() == 0 {
            return PacketOutcome::Ignored;
        }
        stats.packets_recv = count(stats.packets_recv, 1);
        stats.bytes_recv = count(stats.bytes_recv, pkt.len() as u64);
        assert(*stats == packet_counted(*old(stats), old(pkt)@));
        self.handle_packet(stats, pkt, sink)
    }
}

/// Offsets of all numbers in the bitmap fit in 64 bits.
proof fn offset_fits(seq: int, cfg: RecvConfig)
    requires
        cfg.wf(),
        0 <= seq < 64 * crate::losstracker::words_for(cfg.total_blocks as int),
    ensures
        0 <= seq * cfg.block_size <= u64::MAX,
{
    let bs = cfg.block_size as int;
    let total = cfg.total_blocks as int;
    if cfg.file_size > 0 {
        crate::protocol::blocks_cover(cfg.file_size as int, bs);
    }
    assert(seq <= total + 63);
    assert(0 <= seq * bs <= (total + 63) * bs) by (nonlinear_arith)
        requires
            0 <= seq <= total + 63,
            bs > 0,
    ;
    assert((total + 63) * bs == (total - 1) * bs + 64 * bs) by (nonlinear_arith);
    if cfg.file_size <= 0 {
        assert((0 - 1) * bs <= 0);
    }
}

// --- in-order flushing ------------------------------------------------------

/// A block that could not be written.
pub struct WriteFailure {
    pub seq: u64,
    pub error: IoError,
}

/// What is logged of a block that could not be written.
pub fn write_failure_text(seq: u64, error: &IoError) -> (r: String)
    ensures
        r@ == "recv: write error at block "@ + crate::text::dec(seq as nat) + ": "@
            + error.message@,
{
    let mut s = "recv: write error at block ".to_owned();
    s.append(decimal(seq).as_str());
    s.append(": ");
    s.append(error.message.as_str());
    s
}

/// The first block from `from` on that is not ready; the end where all are.
pub open spec fn front_after(ready: Seq<bool>, from: int, total: int) -> int
    decreases total - from,
{
    if from < total && ready[from] {
        front_after(ready, from + 1, total)
    } else {
        from
    }
}

/// The bytes in the sink after the staged blocks among `from..to` were written,
/// in ascending order.
pub open spec fn flushed(
    sink: Seq<u8>,
    stage: Map<u64, Seq<u8>>,
    block_size: int,
    from: int,
    to: int,
) -> Seq<u8>
    decreases to - from,
{
    if to <= from {
        sink
    } else {
        let prev = flushed(sink, stage, block_size, from, to - 1);
        if stage.dom().contains((to - 1) as u64) {
            crate::io::written(prev, (to - 1) * block_size, stage[(to - 1) as u64])
        } else {
            prev
        }
    }
}

/// Whether the staged blocks among `from..to` lie inside a sink of `size` bytes.
pub open spec fn staged_fit(
    stage: Map<u64, Seq<u8>>,
    block_size: int,
    size: int,
    from: int,
    to: int,
) -> bool {
    forall|seq: u64| #[trigger]
        stage.dom().contains(seq) && from <= seq < to ==> seq * block_size + stage[seq].len()
            <= size
}

/// Whether passing block `seq` on the way forward took the sink from `before` to
/// `after`: a staged block is written at its place, or the write failed and stands
/// in `failed`; a block that is not staged leaves the sink alone.
pub open spec fn passed<S: BlockSink + ?Sized>(
    stage: Map<u64, Seq<u8>>,
    block_size: int,
    seq: u64,
    before: &S,
    after: &S,
    failed: Seq<WriteFailure>,
) -> bool {
    if stage.dom().contains(seq) {
        &&& forall|i: int|
            0 <= i < failed.len() && (#[trigger] failed[i]).seq == seq ==> before.may_fail(
                seq * block_size,
                stage[seq],
                failed[i].error,
            ) && crate::io::is_write(
                before,
                (seq * block_size) as u64,
                stage[seq],
                Err(failed[i].error),
            )
        &&& (forall|i: int| 0 <= i < failed.len() ==> (#[trigger] failed[i]).seq != seq) ==> {
            &&& crate::io::is_good_write(before, (seq * block_size) as u64, stage[seq])
            &&& before.modelled() ==> after.contents() == crate::io::written(
                before.contents(),
                seq * block_size,
                stage[seq],
            )
        }
    } else {
        after == before
    }
}

/// Whether passing the `k`-th block from `from` on took one of `sinks` to the
/// next.
pub open spec fn passed_at<S: BlockSink + ?Sized>(
    stage: Map<u64, Seq<u8>>,
    block_size: int,
    from: int,
    sinks: Seq<&S>,
    failed: Seq<WriteFailure>,
    k: int,
) -> bool {
    passed(stage, block_size, (from + k) as u64, sinks[k], sinks[k + 1], failed)
}

/// Whether `sinks` are what a sink went through when the blocks from `from` on
/// were passed one by one in ascending order, as many as there are steps, and
/// `failed` are the writes that failed on the way, in that order.
pub open spec fn flush_went<S: BlockSink + ?Sized>(
    stage: Map<u64, Seq<u8>>,
    block_size: int,
    from: int,
    sinks: Seq<&S>,
    failed: Seq<WriteFailure>,
) -> bool {
    &&& sinks.len() > 0
    &&& forall|k: int|
        0 <= k < sinks.len() - 1 ==> #[trigger] passed_at(
            stage,
            block_size,
            from,
            sinks,
            failed,
            k,
        )
    &&& forall|i: int|
        0 <= i < failed.len() ==> stage.dom().contains((#[trigger] failed[i]).seq) && from
            <= failed[i].seq < from + sinks.len() - 1
    &&& forall|i: int, j: int|
        0 <= i < j < failed.len() ==> (#[trigger] failed[i]).seq < (#[trigger] failed[j]).seq
}

/// The blocks of `stage` from `front` on.
pub open spec fn staged_from(stage: Map<u64, Seq<u8>>, front: int) -> Map<u64, Seq<u8>> {
    Map::new(|seq: u64| stage.dom().contains(seq) && seq >= front, |seq: u64| stage[seq])
}

/// The state after the flusher has passed every ready block at the front.
pub open spec fn after_flush(s: RecvState, total: int) -> RecvState {
    let front = front_after(s.ready, s.write_front as int, total);
    let stage = staged_from(s.stage, front);
    RecvState {
        write_front: front as u64,
        stage,
        free: s.free + s.stage.dom().len() - stage.dom().len(),
        ..s
    }
}

/// One more block is passed.
proof fn flush_goes_on<S: BlockSink + ?Sized>(
    stage: Map<u64, Seq<u8>>,
    block_size: int,
    from: int,
    sinks: Seq<&S>,
    failed: Seq<WriteFailure>,
    after: &S,
    more: Seq<WriteFailure>,
)
    requires
        0 <= from,
        from + sinks.len() <= u64::MAX,
        flush_went(stage, block_size, from, sinks, failed),
        more == failed || (more.len() == failed.len() + 1 && more.drop_last() == failed
            && more.last().seq == from + sinks.len() - 1 && stage.dom().contains(more.last().seq)),
        passed(stage, block_size, (from + sinks.len() - 1) as u64, sinks.last(), after, more),
    ensures
        flush_went(stage, block_size, from, sinks.push(after), more),
{
    let longer = sinks.push(after);
    assert forall|i: int| 0 <= i < failed.len() implies #[trigger] more[i] == failed[i] by {
        if more != failed {
            assert(more.drop_last()[i] == failed[i]);
        }
    }
    assert forall|k: int| 0 <= k < longer.len() - 1 implies #[trigger] passed_at(
        stage,
        block_size,
        from,
        longer,
        more,
        k,
    ) by {
        if k < sinks.len() - 1 {
            assert(passed_at(stage, block_size, from, sinks, failed, k));
            assert(forall|i: int|
                0 <= i < more.len() && (#[trigger] more[i]).seq == (from + k) as u64 ==> i
                    < failed.len());
            assert((forall|i: int| 0 <= i < more.len() ==> (#[trigger] more[i]).seq != (from
                + k) as u64) ==> (forall|i: int|
                0 <= i < failed.len() ==> (#[trigger] failed[i]).seq != (from + k) as u64)) by {
                assert forall|i: int|
                    (forall|j: int| 0 <= j < more.len() ==> (#[trigger] more[j]).seq != (from
                        + k) as u64) && 0 <= i < failed.len() implies (#[trigger] failed[i]).seq
                    != (from + k) as u64 by {
                    assert(more[i] == failed[i]);
                }
            }
        }
    }
}

impl Receiver_ {
    /// Writes the ready blocks at the front to the sink, strictly in ascending
    /// order, up to the first block that is not ready. A block that was written
    /// directly is passed over. A failed write is reported and passed over too.
    #[verifier::rlimit(40)]
    pub fn flush_ready<S: BlockSink + ?Sized>(&mut self, sink: &mut S) -> (r: Vec<WriteFailure>)
        requires
            old(self).wf(),
        ensures
            final(self).wf(),
            final(self).cfg == old(self).cfg,
            final(self)@ == after_flush(old(self)@, old(self).cfg.total_blocks as int),
            final(sink).modelled() == old(sink).modelled(),
            final(sink).reliable() == old(sink).reliable(),
            exists|sinks: Seq<&S>|
                #![trigger flush_went(
                    old(self)@.stage,
                    old(self).cfg.block_size as int,
                    old(self)@.write_front as int,
                    sinks,
                    r@,
                )]
                sinks.len() == final(self)@.write_front - old(self)@.write_front + 1
                    && sinks.first() == &*old(sink) && sinks.last() == &*final(sink)
                    && flush_went(
                    old(self)@.stage,
                    old(self).cfg.block_size as int,
                    old(self)@.write_front as int,
                    sinks,
                    r@,
                ),
            old(sink).modelled() && r@.len() == 0 ==> final(sink).contents() == flushed(
                old(sink).contents(),
                old(self)@.stage,
                old(self).cfg.block_size as int,
                old(self)@.write_front as int,
                final(self)@.write_front as int,
            ),
            surely_written(&*old(sink)) && staged_fit(
                old(self)@.stage,
                old(self).cfg.block_size as int,
                old(sink).contents().len() as int,
                old(self)@.write_front as int,
                final(self)@.write_front as int,
            ) ==> r@.len() == 0,
    {
        let ghost start = self@;
        let ghost cfg = self.cfg;
        let ghost sink0 = sink.contents();
        let ghost firm = surely_written(&*sink);
        let ghost told = sink.modelled();
        let ghost steady = sink.reliable();
        let ghost mut sinks: Seq<&S> = seq![&*sink];
        let write = S::write_all_at;
        let total: u64 = self.cfg.total_blocks;
        let ghost bs = self.cfg.block_size as int;
        let mut failed: Vec<WriteFailure> = Vec::new();
        assert(staged_from(start.stage, start.write_front as int) =~= start.stage);
        while self.write_front < total && self.ready_bm.is_set(self.write_front)
            invariant
                self.wf(),
                self.cfg == cfg,
                total == cfg.total_blocks,
                bs == cfg.block_size,
                start.write_front <= self.write_front <= total,
                self@.bits == start.bits,
                self@.ready == start.ready,
                self@.max_seen == start.max_seen,
                self@.seen_any == start.seen_any,
                self@.all_sent == start.all_sent,
                self@.done == start.done,
                self@.stage =~= staged_from(start.stage, self.write_front as int),
                self@.free + self@.stage.dom().len() == start.free + start.stage.dom().len(),
                front_after(start.ready, start.write_front as int, total as int) == front_after(
                    start.ready,
                    self.write_front as int,
                    total as int,
                ),
                sink.modelled() == told,
                sink.reliable() == steady,
                firm == (told && steady),
                sinks.len() == self.write_front - start.write_front + 1,
                sinks.first() == &*old(sink),
                sinks.last() == &*sink,
                flush_went(start.stage, bs, start.write_front as int, sinks, failed@),
                told && failed@.len() == 0 ==> sink.contents() == flushed(
                    sink0,
                    start.stage,
                    bs,
                    start.write_front as int,
                    self.write_front as int,
                ),
                firm && staged_fit(
                    start.stage,
                    bs,
                    sink0.len() as int,
                    start.write_front as int,
                    self.write_front as int,
                ) ==> failed@.len() == 0 && sink.contents().len() == sink0.len(),
            decreases total - self.write_front,
        {
            let seq: u64 = self.write_front;
            let ghost held = self@;
            let ghost sinks0 = sinks;
            let ghost failed0 = failed@;
            let ghost was_fit = staged_fit(
                start.stage,
                bs,
                sink0.len() as int,
                start.write_front as int,
                seq as int,
            );
            assert(seq < self@.bits.len());
            proof {
                offset_fits(seq as int, self.cfg);
            }
            let staged: Option<Vec<u8>> = self.stage.remove(&seq);
            self.write_front = seq + 1;
            assert(self@.stage =~= held.stage.remove(seq));
            match staged {
                Some(buf) => {
                    assert(held.stage.dom().contains(seq));
                    assert(held.stage[seq] == buf@);
                    assert(staged_from(start.stage, seq as int)[seq] == buf@);
                    assert(start.stage.dom().contains(seq) && start.stage[seq] == buf@);
                    self.free = self.free + 1;
                    let off: u64 = seq * self.cfg.block_size as u64;
                    let ghost held = &*sink;
                    let got = write(&mut *sink, off, buf.as_slice());
                    assert(crate::io::is_write(held, off, buf@, got));
                    match got {
                        Ok(()) => {},
                        Err(error) => {
                            failed.push(WriteFailure { seq, error });
                            assert(failed@.drop_last() =~= failed0);
                        },
                    }
                },
                None => {},
            }
            assert(self@.stage =~= staged_from(start.stage, self.write_front as int));
            proof {
                sinks = sinks.push(&*sink);
                flush_goes_on(
                    start.stage,
                    bs,
                    start.write_front as int,
                    sinks0,
                    failed0,
                    &*sink,
                    failed@,
                );
                if staged_fit(
                    start.stage,
                    bs,
                    sink0.len() as int,
                    start.write_front as int,
                    seq + 1,
                ) {
                    assert(was_fit);
                }
            }
        }
        failed
    }
}

// --- timing ticks -----------------------------------------------------------

/// Longest round trip that is taken for one: a minute.
pub const MAX_RTT_SAMPLE_US: u64 = 60_000_000;

/// A round-trip measurement.
#[derive(Debug, Clone, Copy, PartialEq, Eq, Structural)]
pub struct RttSample {
    pub micros: u64,
    /// Whether the sender's own delay was taken out ("N"), or not ("P").
    pub network: bool,
}

/// The round trip that a block's echoed tick amounts to: the time since the tick
/// was sent, where that lies between zero and a minute.
pub open spec fn rtt_sample_of(h: DataHeader, now: u64) -> Option<RttSample> {
    if h.flags & FLAG_HAS_TICK != 0 && h.echo_tick <= now && now - h.echo_tick
        <= MAX_RTT_SAMPLE_US {
        Some(
            RttSample {
                micros: (now - h.echo_tick) as u64,
                network: h.flags & FLAG_TICK_N != 0,
            },
        )
    } else {
        None
    }
}

/// Converts an echoed timing tick into an RTT sample.
pub fn rtt_sample(h: &DataHeader, now: u64) -> (r: Option<RttSample>)
    ensures
        r == rtt_sample_of(*h, now),
{
    if h.flags & FLAG_HAS_TICK == 0 || h.echo_tick > now {
        return None;
    }
    let micros: u64 = now - h.echo_tick;
    if micros > MAX_RTT_SAMPLE_US {
        return None;
    }
    Some(RttSample { micros, network: h.flags & FLAG_TICK_N != 0 })
}

// --- writeback --------------------------------------------------------------

/// The end of the window that writeback covers: behind the highest block seen,
/// within the object.
pub open spec fn writeback_end(max_seen: u64, block_size: usize, file_size: i64) -> int {
    crate::stats::min_int((max_seen + 1) * block_size, file_size as int)
}

/// The range to write back, as offset and length, if there is one: from the end
/// of the contiguous prefix to behind the highest block seen.
pub fn writeback_range(max_seen: u64, prefix: i64, block_size: usize, file_size: i64) -> (r: Option<
    (i64, i64),
>)
    requires
        prefix >= 0,
    ensures
        ({
            let end = writeback_end(max_seen, block_size, file_size);
            if end > prefix {
                r == Some((prefix, (end - prefix) as i64))
            } else {
                r is None
            }
        }),
{
    proof {
        assert((max_seen + 1) * block_size <= 0x1_0000_0000_0000_0000 * 0x1_0000_0000_0000_0000)
            by (nonlinear_arith)
            requires
                0 <= max_seen < 0x1_0000_0000_0000_0000,
                0 <= block_size < 0x1_0000_0000_0000_0000,
        ;
        assert(0 <= (max_seen + 1) * block_size) by (nonlinear_arith);
        assert((max_seen + 1) * block_size <= (max_seen + 1) * 0xffff_ffff_ffff_ffff)
            by (nonlinear_arith)
            requires
                0 <= max_seen,
                0 <= block_size <= 0xffff_ffff_ffff_ffff,
        ;
    }
    let reach: u128 = (max_seen as u128 + 1) * (block_size as u128);
    let end: i64 = if file_size < 0 {
        file_size
    } else if reach < file_size as u128 {
        reach as i64
    } else {
        file_size
    };
    if end > prefix {
        Some((prefix, end - prefix))
    } else {
        None
    }
}

/// The end of the contiguous prefix after `hi_contig` blocks: it never moves
/// back.
pub fn writeback_prefix(prefix: i64, hi_contig: u64, cfg: &RecvConfig) -> (r: i64)
    requires
        cfg.wf(),
        cfg.file_size >= 0,
        hi_contig <= cfg.total_blocks,
        cfg.file_size + cfg.block_size <= i64::MAX,
    ensures
        r == crate::stats::max_int(prefix as int, hi_contig * cfg.block_size),
{
    proof {
        let bs = cfg.block_size as int;
        if cfg.file_size > 0 {
            crate::protocol::blocks_cover(cfg.file_size as int, bs);
        }
        assert(0 <= hi_contig * bs <= cfg.total_blocks * bs) by (nonlinear_arith)
            requires
                0 <= hi_contig <= cfg.total_blocks,
                bs > 0,
        ;
        assert(cfg.total_blocks * bs == (cfg.total_blocks - 1) * bs + bs) by (nonlinear_arith);
        if cfg.file_size <= 0 {
            assert(hi_contig * bs == 0) by (nonlinear_arith)
                requires
                    hi_contig == 0,
            ;
        }
    }
    let c: i64 = (hi_contig * cfg.block_size as u64) as i64;
    if c > prefix {
        c
    } else {
        prefix
    }
}

// --- feedback ---------------------------------------------------------------

/// What the feedback step keeps from one round to the next.
pub struct FeedbackState {
    pub scanner: LossScanner,
    pub last_net_tick: u64,
    pub done_sends: u32,
}

/// What one feedback round is told.
#[derive(Debug, Clone, Copy, PartialEq, Eq, Structural)]
pub struct FeedbackInput {
    /// The time at the start of the round.
    pub now: u64,
    /// The time at which the PDU is made.
    pub sent_at: u64,
    /// The current retransmission timeout.
    pub rto_us: u64,
    /// The target rate to tell the sender.
    pub target_bps: u64,
    /// How many blocks the sender can resend in one feedback interval.
    pub per_interval: usize,
    /// Whether the sender's address is known.
    pub have_peer: bool,
}

/// A FEEDBACK PDU to send, and the blocks that it requests.
pub struct Feedback {
    pub pdu: Vec<u8>,
    pub due: Vec<u64>,
}

/// The number of requests that one PDU may carry: as many as fit, and with a
/// target rate no more than the sender can serve in one interval, but at least
/// one.
pub open spec fn nack_quota(target_bps: u64, per_interval: usize, max: usize) -> int {
    if target_bps > 0 {
        crate::stats::min_int(crate::stats::max_int(per_interval as int, 1), max as int)
    } else {
        max as int
    }
}

/// The number of requests that one PDU may carry.
pub fn nack_cap(target_bps: u64, per_interval: usize, max: usize) -> (r: usize)
    ensures
        r == nack_quota(target_bps, per_interval, max),
{
    let mut cap: usize = max;
    if target_bps > 0 {
        let per: usize = if per_interval < 1 {
            1
        } else {
            per_interval
        };
        if per < cap {
            cap = per;
        }
    }
    cap
}

/// The last block that is examined for loss: the highest one seen, or the last
/// of the object once the sender has injected every block.
pub open spec fn scan_limit(s: RecvState, total: u64) -> u64 {
    if s.all_sent && total > 0 {
        (total - 1) as u64
    } else {
        s.max_seen
    }
}

/// The scanner's state after it has moved its mark and examined new blocks.
pub open spec fn after_round_scan(
    s: RecvState,
    scan: crate::losstracker::ScanState,
    now: u64,
    rto: u64,
) -> crate::losstracker::ScanState {
    let hi = front_after(s.bits, scan.hi_contig as int, scan.total as int) as u64;
    let moved = crate::losstracker::after_advance(scan, hi);
    if s.seen_any || s.all_sent {
        crate::losstracker::after_scan(moved, s.bits, scan_limit(s, scan.total), now, rto)
    } else {
        moved
    }
}

/// The NACK entries that request the given blocks.
pub open spec fn nacks_for(due: Seq<u64>) -> Seq<NackEntry> {
    due.map_values(
        |seq: u64| NackEntry { block_seq: seq, rex_index: crate::bytes::i64_of_bits(seq) },
    )
}

/// The header of a round's FEEDBACK PDU.
pub open spec fn feedback_header(
    session: u32,
    input: FeedbackInput,
    network: bool,
    hi: u64,
    total: u64,
) -> FeedbackHeader {
    FeedbackHeader {
        tick_is_network: network,
        nack_count: 0,
        session,
        tick: input.sent_at,
        target_rate: input.target_bps,
        hi_contig: hi,
        done: hi == total,
    }
}

/// The mark that `LossScanner::advance` returns, as the first block that has not
/// arrived.
proof fn mark_is_front(bits: Seq<bool>, from: int, hi: int, total: int)
    requires
        from <= hi <= total,
        forall|i: int| from <= i < hi ==> #[trigger] bits[i],
        hi < total ==> !bits[hi],
    ensures
        front_after(bits, from, total) == hi,
    decreases hi - from,
{
    if from < hi {
        assert(bits[from]);
        mark_is_front(bits, from + 1, hi, total);
    }
}

impl FeedbackState {
    /// The state before the first round.
    pub fn new(total: u64) -> (r: FeedbackState)
        ensures
            r.scanner.wf(),
            r.scanner@ == (crate::losstracker::ScanState {
                total,
                hi_contig: 0,
                next_scan: 0,
                pending: Set::empty(),
                due: Map::empty(),
            }),
            r.last_net_tick == 0,
            r.done_sends == 0,
    {
        FeedbackState { scanner: LossScanner::new(total), last_net_tick: 0, done_sends: 0 }
    }
}

/// The number of completed rounds after which the sender has been told often
/// enough.
pub const DONE_SENDS: u32 = 8;

impl Receiver_ {
    /// One feedback round: moves the contiguous mark, scans for new holes,
    /// collects due retransmit requests, and makes a FEEDBACK PDU. Without a
    /// known sender address there is no PDU. When the object is complete, the
    /// eighth such PDU ends the transfer.
    pub fn feedback_round(
        &mut self,
        fb: &mut FeedbackState,
        stats: &mut Stats,
        input: FeedbackInput,
    ) -> (r: Option<Feedback>)
        requires
            old(self).wf(),
            old(fb).scanner.wf(),
            old(fb).scanner@.total == old(self).cfg.total_blocks,
            input.now + input.rto_us + RTT_PREC_US <= u64::MAX,
            old(fb).last_net_tick <= input.sent_at,
        ensures
            final(self).wf(),
            final(self).cfg == old(self).cfg,
            final(fb).scanner.wf(),
            ({
                let cfg = old(self).cfg;
                let before = old(self)@;
                let scan = after_round_scan(
                    before,
                    old(fb).scanner@,
                    input.now,
                    input.rto_us,
                );
                let hi = scan.hi_contig;
                let cap = nack_quota(
                    input.target_bps,
                    input.per_interval,
                    cfg.max_nacks_per_pdu,
                );
                let network = input.sent_at - old(fb).last_net_tick >= cfg.net_tick_interval_us;
                &&& *final(stats) == (Stats {
                    target_rate_bps: input.target_bps,
                    hi_contig: hi,
                    rex_queue_len: scan.pending.len() as i64,
                    ..*old(stats)
                })
                &&& r is Some == input.have_peer
                &&& match r {
                    None => {
                        &&& final(self)@ == before
                        &&& final(fb).scanner@ == scan
                        &&& final(fb).last_net_tick == old(fb).last_net_tick
                        &&& final(fb).done_sends == old(fb).done_sends
                    },
                    Some(f) => {
                        &&& crate::losstracker::requests_collected(
                            scan,
                            before.bits,
                            input.now,
                            cap,
                            f.due@,
                        )
                        &&& final(fb).scanner@ == crate::losstracker::after_collect(
                            scan,
                            before.bits,
                            input.now,
                            input.rto_us,
                            cap,
                            f.due@,
                        )
                        &&& f.pdu@ == crate::protocol::feedback_bytes(
                            feedback_header(cfg.session, input, network, hi, cfg.total_blocks),
                            nacks_for(f.due@),
                        )
                        &&& final(fb).last_net_tick == (if network {
                            input.sent_at
                        } else {
                            old(fb).last_net_tick
                        })
                        &&& final(fb).done_sends == (if hi == cfg.total_blocks && old(fb).done_sends < DONE_SENDS {
                            old(fb).done_sends + 1
                        } else {
                            old(fb).done_sends as int
                        })
                        &&& final(self)@ == (RecvState {
                            done: before.done || (hi == cfg.total_blocks && final(fb).done_sends
                                >= DONE_SENDS),
                            ..before
                        })
                    },
                }
            }),
    {
        let total: u64 = self.cfg.total_blocks;
        let ghost scan0 = fb.scanner@;
        let hi: u64 = fb.scanner.advance(&self.bm);
        proof {
            mark_is_front(self.bm@, scan0.hi_contig as int, hi as int, total as int);
        }
        let mut limit: u64 = self.max_seen;
        if self.all_sent && total > 0 {
            limit = total - 1;
        }
        if self.seen_any || self.all_sent {
            fb.scanner.scan_holes(&self.bm, limit, input.now, input.rto_us);
        }
        let complete: bool = fb.scanner.completed();
        stats.target_rate_bps = input.target_bps;
        stats.hi_contig = hi;
        stats.rex_queue_len = #[verifier::truncate] (fb.scanner.pending_count() as i64);
        if !input.have_peer {
            return None;
        }
        let cap: usize = nack_cap(
            input.target_bps,
            input.per_interval,
            self.cfg.max_nacks_per_pdu,
        );
        let due = fb.scanner.collect_due(&self.bm, input.now, input.rto_us, cap);
        let network: bool = input.sent_at - fb.last_net_tick >= self.cfg.net_tick_interval_us
            as u64;
        if network {
            fb.last_net_tick = input.sent_at;
        }
        let mut nacks: Vec<NackEntry> = Vec::with_capacity(due.len());
        let mut i: usize = 0;
        while i < due.len()
            invariant
                i <= due@.len(),
                nacks@ == nacks_for(due@.take(i as int)),
            decreases due@.len() - i,
        {
            let seq: u64 = due[i];
            nacks.push(
                NackEntry {
                    block_seq: seq,
                    rex_index: #[verifier::truncate] (seq as i64),
                },
            );
            i = i + 1;
            assert(nacks@ =~= nacks_for(due@.take(i as int)));
        }
        assert(due@.take(i as int) =~= due@);
        let header = FeedbackHeader {
            tick_is_network: network,
            nack_count: 0,
            session: self.cfg.session,
            tick: input.sent_at,
            target_rate: input.target_bps,
            hi_contig: hi,
            done: complete,
        };
        proof {
            assert(due@.len() * NACK_ENTRY_SIZE <= self.cfg.max_nacks_per_pdu * NACK_ENTRY_SIZE)
                by (nonlinear_arith)
                requires
                    due@.len() <= self.cfg.max_nacks_per_pdu,
            ;
        }
        let len: usize = FEEDBACK_HEADER_SIZE + nacks.len() * NACK_ENTRY_SIZE;
        let mut pdu: Vec<u8> = vec![0u8; len];
        encode_feedback(pdu.as_mut_slice(), &header, nacks.as_slice());
        proof {
            crate::protocol::nacks_bytes_len(nacks@);
            assert(pdu@ =~= crate::protocol::feedback_bytes(header, nacks@));
        }
        if complete {
            if fb.done_sends < DONE_SENDS {
                fb.done_sends = fb.done_sends + 1;
            }
            if fb.done_sends >= DONE_SENDS {
                self.done = true;
            }
        }
        Some(Feedback { pdu, due })
    }

    /// Whether the transfer ended with every block in place; if not, how far it
    /// came, and whether it was the caller who asked it to end.
    pub fn completion(&self, stats: &Stats, stop: bool) -> (r: Result<(), IoError>)
        ensures
            match r {
                Ok(_) => stats.hi_contig == self.cfg.total_blocks,
                Err(e) => {
                    &&& stats.hi_contig != self.cfg.total_blocks
                    &&& e.kind == (if stop {
                        IoKind::Stopped
                    } else {
                        IoKind::Other
                    })
                    &&& e.message@ == "receiver stopped before completion ("@ + crate::text::dec(
                        stats.hi_contig as nat,
                    ) + "/"@ + crate::text::dec(self.cfg.total_blocks as nat) + " blocks)"@
                },
            },
    {
        if stats.hi_contig == self.cfg.total_blocks {
            return Ok(());
        }
        let mut s = "receiver stopped before completion (".to_owned();
        s.append(decimal(stats.hi_contig).as_str());
        s.append("/");
        s.append(decimal(self.cfg.total_blocks).as_str());
        s.append(" blocks)");
        let kind = if stop {
            IoKind::Stopped
        } else {
            IoKind::Other
        };
        Err(IoError::new(kind, s.as_str()))
    }
}

/// What the thread that writes staged blocks out does after a flush.
#[derive(Debug, Clone, Copy, PartialEq, Eq, Structural)]
pub enum FlushNext {
    /// All blocks are written, or the transfer ends: it ends too.
    Finish,
    /// The frontier moved: it flushes again at once.
    Again,
    /// The next block has not arrived: it waits for one.
    Wait,
}

/// What follows a flush that took the write frontier from `before` to `front`.
pub fn flush_next(before: u64, front: u64, total_blocks: u64, stopped: bool) -> (r: FlushNext)
    ensures
        r == (if front >= total_blocks {
            FlushNext::Finish
        } else if front != before {
            FlushNext::Again
        } else if stopped {
            FlushNext::Finish
        } else {
            FlushNext::Wait
        }),
{
    if front >= total_blocks {
        FlushNext::Finish
    } else if front != before {
        FlushNext::Again
    } else if stopped {
        FlushNext::Finish
    } else {
        FlushNext::Wait
    }
}

/// How many START PDUs are sent at once when a pull begins.
pub const START_BURST: u32 = 5;

/// How often START is repeated at most.
pub const START_REPEATS: u32 = 25;

/// The time between two repetitions, in milliseconds.
pub const START_WAIT_MS: u64 = 200;

/// Whether START is to be sent again after `sent` repetitions: until the first
/// packet arrives, as the one before may have been lost.
pub fn start_due(sent: u32, stopped: bool, packets_recv: u64) -> (r: bool)
    ensures
        r == (sent < START_REPEATS && !stopped && packets_recv == 0),
{
    sent < START_REPEATS && !stopped && packets_recv == 0
}

/// Counts the requests of a FEEDBACK PDU that was sent.
pub fn feedback_sent(stats: &mut Stats, nacks: usize)
    ensures
        *final(stats) == (Stats {
            nacks_sent: crate::stats::counted(old(stats).nacks_sent, nacks as int),
            ..*old(stats)
        }),
{
    stats.nacks_sent = count(stats.nacks_sent, nacks as u64);
}

/// When the round after the one at `due` is due, `now` being the time at which
/// that one begins: one interval later, or, where rounds were missed, one
/// interval from now.
pub open spec fn round_after(due: u64, now: u64, interval: u64) -> int {
    if due + interval <= now {
        now + interval
    } else {
        due + interval
    }
}

/// When the next feedback round is due. Missed rounds are dropped, not made up
/// for.
pub fn next_round(due: u64, now: u64, interval: u64) -> (r: u64)
    requires
        due + interval <= u64::MAX,
        now + interval <= u64::MAX,
    ensures
        r == round_after(due, now, interval),
{
    if due + interval <= now {
        now + interval
    } else {
        due + interval
    }
}

// --- laws -------------------------------------------------------------------

/// Law: rounds keep their cadence. A round that begins when it is due or later
/// is followed by one that lies ahead by no more than an interval.
pub proof fn rounds_keep_cadence(due: u64, now: u64, interval: u64)
    requires
        due <= now,
        interval > 0,
    ensures
        now < round_after(due, now, interval) <= now + interval,
        now < due + interval ==> round_after(due, now, interval) == due + interval,
{
}

/// Whether block `seq` of `data` stands at its place in the sink.
pub open spec fn in_place(sink: Seq<u8>, data: Seq<u8>, block_size: int, seq: int) -> bool {
    let off = seq * block_size;
    sink.subrange(off, off + crate::protocol::block_len(data.len() as int, block_size, seq))
        == crate::protocol::block_of(data, block_size, seq)
}

/// Whether everything that a receiver holds is part of `data`: staged blocks are
/// blocks of it, and every other ready block stands at its place in the sink.
pub open spec fn holds_object(
    s: RecvState,
    sink: Seq<u8>,
    data: Seq<u8>,
    block_size: int,
) -> bool {
    let total = crate::protocol::blocks_for(data.len() as int, block_size);
    &&& sink.len() == data.len()
    &&& forall|seq: u64|
        #![trigger s.stage.dom().contains(seq)]
        s.stage.dom().contains(seq) && seq < total ==> s.stage[seq]
            == crate::protocol::block_of(data, block_size, seq as int)
    &&& forall|seq: u64|
        #![trigger s.stage.dom().contains(seq)]
        seq < total && s.ready[seq as int] && !s.stage.dom().contains(seq) ==> in_place(
            sink,
            data,
            block_size,
            seq as int,
        )
}

/// Writing one block leaves every other block at its place.
proof fn block_write_keeps_others(
    sink: Seq<u8>,
    data: Seq<u8>,
    block_size: int,
    at: int,
    seq: int,
)
    requires
        block_size > 0,
        sink.len() == data.len(),
        0 <= at < crate::protocol::blocks_for(data.len() as int, block_size),
        0 <= seq < crate::protocol::blocks_for(data.len() as int, block_size),
        seq == at || in_place(sink, data, block_size, seq),
    ensures
        ({
            let after = crate::io::written(
                sink,
                at * block_size,
                crate::protocol::block_of(data, block_size, at),
            );
            after.len() == data.len() && in_place(after, data, block_size, seq)
        }),
{
    let size = data.len() as int;
    let block = crate::protocol::block_of(data, block_size, at);
    let after = crate::io::written(sink, at * block_size, block);
    crate::protocol::block_in_bounds(size, block_size, at);
    crate::protocol::block_in_bounds(size, block_size, seq);
    let off = seq * block_size;
    let len = crate::protocol::block_len(size, block_size, seq);
    if seq == at {
        crate::io::write_then_read(sink, off, block);
    } else {
        assert(off + block_size <= at * block_size || at * block_size + block_size <= off)
            by (nonlinear_arith)
            requires
                off == seq * block_size,
                seq != at,
                block_size > 0,
        ;
        assert(after.subrange(off, off + len) =~= sink.subrange(off, off + len));
    }
}

/// Law: taking in a block of the object keeps the receiver's holdings right,
/// whatever the order of arrival and however often a block arrives. A block that
/// is written directly is covered with its write.
pub proof fn accept_keeps_object(
    s: RecvState,
    sink: Seq<u8>,
    data: Seq<u8>,
    block_size: int,
    seq: u64,
    depth: int,
)
    requires
        block_size > 0,
        seq < crate::protocol::blocks_for(data.len() as int, block_size),
        s.wf(crate::protocol::blocks_for(data.len() as int, block_size), depth),
        holds_object(s, sink, data, block_size),
    ensures
        ({
            let block = crate::protocol::block_of(data, block_size, seq as int);
            let taken = after_accept(s, seq, block);
            &&& holds_object(taken, sink, data, block_size)
            &&& acceptance(s, seq) == Accepted::WriteThrough ==> holds_object(
                after_direct_write(taken, seq),
                crate::io::written(sink, seq * block_size, block),
                data,
                block_size,
            )
        }),
{
    let total = crate::protocol::blocks_for(data.len() as int, block_size);
    let block = crate::protocol::block_of(data, block_size, seq as int);
    let taken = after_accept(s, seq, block);
    assert(holds_object(taken, sink, data, block_size)) by {
        assert forall|q: u64|
            #![trigger taken.stage.dom().contains(q)]
            q < total && taken.ready[q as int] && !taken.stage.dom().contains(q) implies in_place(
            sink,
            data,
            block_size,
            q as int,
        ) by {
            assert(!s.stage.dom().contains(q));
        }
        assert forall|q: u64|
            #![trigger taken.stage.dom().contains(q)]
            taken.stage.dom().contains(q) && q < total implies taken.stage[q]
            == crate::protocol::block_of(data, block_size, q as int) by {
            if q != seq {
                assert(s.stage.dom().contains(q));
            }
        }
    }
    if acceptance(s, seq) == Accepted::WriteThrough {
        let direct = after_direct_write(taken, seq);
        let after = crate::io::written(sink, seq * block_size, block);
        block_write_keeps_others(sink, data, block_size, seq as int, seq as int);
        assert forall|q: u64|
            #![trigger direct.stage.dom().contains(q)]
            q < total && direct.ready[q as int] && !direct.stage.dom().contains(q) implies in_place(
            after,
            data,
            block_size,
            q as int,
        ) by {
            assert(!s.stage.dom().contains(q));
            block_write_keeps_others(sink, data, block_size, seq as int, q as int);
        }
        assert forall|q: u64|
            #![trigger direct.stage.dom().contains(q)]
            direct.stage.dom().contains(q) && q < total implies direct.stage[q]
            == crate::protocol::block_of(data, block_size, q as int) by {
            assert(s.stage.dom().contains(q));
        }
    }
}

/// Whether a datagram was judged to be block `seq` of `data`.
pub open spec fn is_block_of(v: Verdict, data: Seq<u8>, block_size: int, seq: u64) -> bool {
    match v {
        Verdict::Block(h, payload) => h.block_seq == seq && payload == crate::protocol::block_of(
            data,
            block_size,
            seq as int,
        ),
        _ => false,
    }
}

/// Law: handling a datagram that is a block of the object keeps the receiver's
/// holdings right, as long as the sink does not fail: the block counts as
/// arrived, and no block is forgotten.
pub proof fn intact_block_keeps_object(
    cfg: RecvConfig,
    pkt: Seq<u8>,
    before: RecvState,
    after: RecvState,
    stats_before: Stats,
    stats_after: Stats,
    sink_before: Seq<u8>,
    sink_after: Seq<u8>,
    reliable: bool,
    r: PacketOutcome,
    data: Seq<u8>,
    seq: u64,
    depth: int,
)
    requires
        cfg.block_size > 0,
        seq < crate::protocol::blocks_for(data.len() as int, cfg.block_size as int),
        is_block_of(
            verdict(cfg.session, box_of(cfg.crypto), pkt),
            data,
            cfg.block_size as int,
            seq,
        ),
        handled(
            cfg,
            pkt,
            before,
            after,
            stats_before,
            stats_after,
            sink_before,
            sink_after,
            reliable,
            r,
        ),
        r matches PacketOutcome::Block { write_error, .. } ==> write_error is None,
        before.wf(crate::protocol::blocks_for(data.len() as int, cfg.block_size as int), depth),
        holds_object(before, sink_before, data, cfg.block_size as int),
    ensures
        holds_object(after, sink_after, data, cfg.block_size as int),
        after.bits[seq as int],
        forall|i: int| 0 <= i < before.bits.len() && before.bits[i] ==> #[trigger] after.bits[i],
{
    accept_keeps_object(before, sink_before, data, cfg.block_size as int, seq, depth);
}

/// Flushing up to `to` keeps the receiver's holdings right.
proof fn flush_to_keeps_object(
    s: RecvState,
    sink: Seq<u8>,
    data: Seq<u8>,
    block_size: int,
    to: int,
    depth: int,
)
    requires
        block_size > 0,
        s.wf(crate::protocol::blocks_for(data.len() as int, block_size), depth),
        holds_object(s, sink, data, block_size),
        s.write_front <= to <= crate::protocol::blocks_for(data.len() as int, block_size),
        crate::protocol::blocks_for(data.len() as int, block_size) <= u64::MAX,
    ensures
        holds_object(
            RecvState { stage: staged_from(s.stage, to), ..s },
            flushed(sink, s.stage, block_size, s.write_front as int, to),
            data,
            block_size,
        ),
    decreases to,
{
    let total = crate::protocol::blocks_for(data.len() as int, block_size);
    let after = RecvState { stage: staged_from(s.stage, to), ..s };
    let bytes = flushed(sink, s.stage, block_size, s.write_front as int, to);
    if to == s.write_front {
        assert(after.stage =~= s.stage);
    } else {
        let last = (to - 1) as u64;
        let prior = RecvState { stage: staged_from(s.stage, to - 1), ..s };
        let prev = flushed(sink, s.stage, block_size, s.write_front as int, to - 1);
        flush_to_keeps_object(s, sink, data, block_size, to - 1, depth);
        if s.stage.dom().contains(last) {
            assert(prior.stage.dom().contains(last));
            block_write_keeps_others(prev, data, block_size, last as int, last as int);
            assert forall|q: u64|
                #![trigger after.stage.dom().contains(q)]
                q < total && after.ready[q as int] && !after.stage.dom().contains(
                    q,
                ) implies in_place(bytes, data, block_size, q as int) by {
                if q != last {
                    assert(!prior.stage.dom().contains(q));
                }
                block_write_keeps_others(prev, data, block_size, last as int, q as int);
            }
        } else {
            assert forall|q: u64|
                #![trigger after.stage.dom().contains(q)]
                q < total && after.ready[q as int] && !after.stage.dom().contains(
                    q,
                ) implies in_place(bytes, data, block_size, q as int) by {
                assert(!prior.stage.dom().contains(q));
            }
        }
        assert forall|q: u64|
            #![trigger after.stage.dom().contains(q)]
            after.stage.dom().contains(q) && q < total implies after.stage[q]
            == crate::protocol::block_of(data, block_size, q as int) by {
            assert(prior.stage.dom().contains(q));
        }
    }
}

/// The flusher stops between its start and the end, at a block that is not
/// ready.
pub proof fn front_after_bounds(ready: Seq<bool>, from: int, total: int)
    requires
        from <= total,
    ensures
        from <= front_after(ready, from, total) <= total,
        forall|i: int| from <= i < front_after(ready, from, total) ==> #[trigger] ready[i],
        front_after(ready, from, total) < total ==> !ready[front_after(ready, from, total)],
    decreases total - from,
{
    if from < total && ready[from] {
        front_after_bounds(ready, from + 1, total);
    }
}

/// Law: flushing keeps the receiver's holdings right.
pub proof fn flush_keeps_object(
    s: RecvState,
    sink: Seq<u8>,
    data: Seq<u8>,
    block_size: int,
    depth: int,
)
    requires
        block_size > 0,
        crate::protocol::blocks_for(data.len() as int, block_size) <= u64::MAX,
        s.wf(crate::protocol::blocks_for(data.len() as int, block_size), depth),
        holds_object(s, sink, data, block_size),
    ensures
        ({
            let total = crate::protocol::blocks_for(data.len() as int, block_size);
            let after = after_flush(s, total);
            holds_object(
                after,
                flushed(
                    sink,
                    s.stage,
                    block_size,
                    s.write_front as int,
                    after.write_front as int,
                ),
                data,
                block_size,
            )
        }),
{
    let total = crate::protocol::blocks_for(data.len() as int, block_size);
    front_after_bounds(s.ready, s.write_front as int, total);
    let to = front_after(s.ready, s.write_front as int, total);
    flush_to_keeps_object(s, sink, data, block_size, to, depth);
    let mid = RecvState { stage: staged_from(s.stage, to), ..s };
    let after = after_flush(s, total);
    assert(after.stage == mid.stage);
    assert(after.ready == mid.ready);
}

/// Law: the sink is written in order. A flush never moves the write front back,
/// and it writes out exactly the staged blocks between the old front and the new
/// one.
pub proof fn flush_moves_forward(s: RecvState, total: int, depth: int)
    requires
        s.wf(total, depth),
        total <= u64::MAX,
    ensures
        s.write_front <= after_flush(s, total).write_front <= total,
        forall|seq: u64| #[trigger]
            s.stage.dom().contains(seq) ==> after_flush(s, total).stage.dom().contains(seq) == (seq
                >= after_flush(s, total).write_front),
        forall|seq: u64| #[trigger]
            after_flush(s, total).stage.dom().contains(seq) ==> s.stage.dom().contains(seq),
{
    front_after_bounds(s.ready, s.write_front as int, total);
}

/// Law: when every block is ready, one flush leaves exactly the object in the
/// sink, byte for byte.
pub proof fn complete_transfer_is_exact(
    s: RecvState,
    sink: Seq<u8>,
    data: Seq<u8>,
    block_size: int,
    depth: int,
)
    requires
        block_size > 0,
        crate::protocol::blocks_for(data.len() as int, block_size) <= u64::MAX,
        s.wf(crate::protocol::blocks_for(data.len() as int, block_size), depth),
        holds_object(s, sink, data, block_size),
        forall|i: int|
            0 <= i < crate::protocol::blocks_for(data.len() as int, block_size)
                ==> #[trigger] s.ready[i],
    ensures
        ({
            let total = crate::protocol::blocks_for(data.len() as int, block_size);
            let after = after_flush(s, total);
            after.write_front == total && flushed(
                sink,
                s.stage,
                block_size,
                s.write_front as int,
                total,
            ) == data
        }),
{
    let total = crate::protocol::blocks_for(data.len() as int, block_size);
    front_after_bounds(s.ready, s.write_front as int, total);
    flush_keeps_object(s, sink, data, block_size, depth);
    let after = after_flush(s, total);
    let bytes = flushed(sink, s.stage, block_size, s.write_front as int, total);
    assert forall|i: int| 0 <= i < data.len() implies bytes[i] == data[i] by {
        crate::protocol::blocks_partition(data, block_size, i, 0);
        let seq = i / block_size;
        crate::protocol::block_in_bounds(data.len() as int, block_size, seq);
        vstd::arithmetic::div_mod::lemma_fundamental_div_mod(i, block_size);
        assert(seq * block_size == block_size * seq) by (nonlinear_arith);
        assert(!after.stage.dom().contains(seq as u64));
        assert(in_place(bytes, data, block_size, seq));
        let off = seq * block_size;
        let len = crate::protocol::block_len(data.len() as int, block_size, seq);
        assert(bytes.subrange(off, off + len)[i % block_size] == bytes[i]);
    }
    assert(bytes =~= data);
}

/// Law: a receiver that has just been built holds nothing that is not part of
/// the object, whatever the object is.
pub proof fn fresh_receiver_holds_object(
    s: RecvState,
    sink: Seq<u8>,
    data: Seq<u8>,
    block_size: int,
    depth: int,
)
    requires
        s.wf(crate::protocol::blocks_for(data.len() as int, block_size), depth),
        s.stage == Map::<u64, Seq<u8>>::empty(),
        forall|i: int| 0 <= i < s.ready.len() ==> !#[trigger] s.ready[i],
        sink.len() == data.len(),
    ensures
        holds_object(s, sink, data, block_size),
{
}

/// Law: a feedback round reports completion exactly when every block has arrived,
/// and every block below the mark that it reports has arrived.
pub proof fn round_complete_iff_all_received(
    s: RecvState,
    scan: crate::losstracker::ScanState,
    now: u64,
    rto: u64,
)
    requires
        scan.wf(),
        forall|i: int| 0 <= i < scan.hi_contig ==> #[trigger] s.bits[i],
    ensures
        after_round_scan(s, scan, now, rto).hi_contig == scan.total <==> forall|i: int|
            0 <= i < scan.total ==> #[trigger] s.bits[i],
        forall|i: int|
            0 <= i < after_round_scan(s, scan, now, rto).hi_contig ==> #[trigger] s.bits[i],
{
    front_after_bounds(s.bits, scan.hi_contig as int, scan.total as int);
}

} // verus!
