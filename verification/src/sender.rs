//! Sending data plane: paced injection at the target rate, with retransmissions
//! (lowest sequence first) always sent before new blocks.

use crate::crypto::{AeadBox, AEAD_TAG_LEN};
use crate::error::{IoError, IoKind};
use crate::heap::{HeapItem, MinHeap};
use crate::io::BlockSource;
use crate::protocol::{
    crc32c, decode_feedback, encode_data_header, encode_fin, put_echo_tick, DataHeader, NackEntry,
    DATA_HEADER_SIZE, FLAG_HAS_TICK, FLAG_LAST_BLOCK, FLAG_RETRANSMIT, FLAG_TICK_N,
};
use crate::rate::{RateConfig, RateMode};
use crate::runtime::TransferControl;
use crate::stats::{count, Stats};
use std::collections::{HashSet, VecDeque};
use std::sync::Arc;
use vstd::prelude::*;

verus! {

broadcast use vstd::std_specs::hash::group_hash_axioms;

/// Most packets that one batch holds.
pub const MAX_BATCH: usize = 64;

/// What a sender is told of a transfer.
#[derive(Clone)]
pub struct SendConfig {
    pub file_size: i64,
    pub block_size: usize,
    pub total_blocks: u64,
    pub session: u32,
    pub rate: RateConfig,
    pub read_workers: usize,
    pub crypto: Option<Arc<AeadBox>>,
}

impl SendConfig {
    /// The block count is that of the size, and a PDU can be held in memory and
    /// sealed.
    pub open spec fn wf(self) -> bool {
        &&& 0 <= self.file_size
        &&& 0 < self.block_size <= crate::crypto::AEAD_MAX_LEN
        &&& self.block_size + DATA_HEADER_SIZE + AEAD_TAG_LEN <= usize::MAX
        &&& self.total_blocks == crate::protocol::blocks_for(
            self.file_size as int,
            self.block_size as int,
        )
    }

    /// Bytes that sealing adds to a payload.
    pub open spec fn sealing_overhead(self) -> int {
        match self.crypto {
            Some(_) => AEAD_TAG_LEN as int,
            None => 0,
        }
    }

    /// The longest PDU of the transfer.
    pub open spec fn pdu_len(self) -> int {
        self.block_size + DATA_HEADER_SIZE + self.sealing_overhead()
    }

    /// The length of a buffer for any PDU of the transfer.
    pub fn buffer_len(&self) -> (r: usize)
        requires
            self.wf(),
        ensures
            r == self.pdu_len(),
    {
        let overhead: usize = match &self.crypto {
            Some(b) => b.overhead(),
            None => 0,
        };
        self.block_size + DATA_HEADER_SIZE + overhead
    }
}

// --- retransmit queue -------------------------------------------------------

/// The blocks that the receiver has asked for again, each once, lowest first.
pub struct RexQueue {
    heap: MinHeap,
    set: HashSet<u64>,
}

impl View for RexQueue {
    type V = Set<u64>;

    closed spec fn view(&self) -> Set<u64> {
        self.set@
    }
}

impl RexQueue {
    /// The heap holds each queued block once.
    pub closed spec fn wf(&self) -> bool {
        &&& self.heap.wf()
        &&& self.set@.finite()
        &&& forall|x: HeapItem| #[trigger]
            self.heap@.count(x) == (if x.due == 0 && self.set@.contains(x.seq) {
                1nat
            } else {
                0nat
            })
    }

    /// An empty queue.
    pub fn new() -> (r: RexQueue)
        ensures
            r.wf(),
            r@ == Set::<u64>::empty(),
    {
        RexQueue { heap: MinHeap::new(), set: HashSet::new() }
    }

    /// Queues the requested blocks; one that is queued already is not queued
    /// again.
    pub fn push_retransmits(&mut self, nacks: &[NackEntry])
        requires
            old(self).wf(),
        ensures
            final(self).wf(),
            final(self)@ == old(self)@.union(requested(nacks@)),
            final(self)@.finite(),
    {
        let ghost before = self@;
        let mut i: usize = 0;
        assert(requested(nacks@.take(0)) =~= Set::empty());
        while i < nacks.len()
            invariant
                self.wf(),
                i <= nacks@.len(),
                self@ =~= before.union(requested(nacks@.take(i as int))),
            decreases nacks@.len() - i,
        {
            let seq: u64 = nacks[i].block_seq;
            if self.set.insert(seq) {
                self.heap.push(HeapItem { due: 0, seq });
            }
            proof {
                let shorter = nacks@.take(i as int);
                let longer = nacks@.take(i + 1);
                assert forall|q: u64| #[trigger]
                    requested(longer).contains(q) == (requested(shorter).contains(q) || q
                        == seq) by {
                    if requested(shorter).contains(q) {
                        let k = choose|k: int|
                            0 <= k < shorter.len() && (#[trigger] shorter[k]).block_seq == q;
                        assert(longer[k].block_seq == q);
                    }
                    if q == seq {
                        assert(longer[i as int].block_seq == q);
                    }
                    if requested(longer).contains(q) {
                        let k = choose|k: int|
                            0 <= k < longer.len() && (#[trigger] longer[k]).block_seq == q;
                        if k < i {
                            assert(shorter[k].block_seq == q);
                        }
                    }
                }
            }
            i = i + 1;
        }
        assert(nacks@.take(i as int) =~= nacks@);
    }

    /// Takes out the lowest queued block.
    pub fn pop_retransmit(&mut self) -> (r: Option<u64>)
        requires
            old(self).wf(),
        ensures
            final(self).wf(),
            match r {
                None => old(self)@ == Set::<u64>::empty() && final(self)@ == old(self)@,
                Some(seq) => old(self)@.contains(seq) && final(self)@ == old(self)@.remove(seq)
                    && forall|q: u64| #[trigger] old(self)@.contains(q) ==> seq <= q,
            },
            final(self)@.finite(),
    {
        let ghost before = self@;
        let ghost bag = self.heap@;
        match self.heap.pop() {
            None => {
                proof {
                    assert forall|q: u64| !before.contains(q) by {
                        assert(bag.count(HeapItem { due: 0, seq: q }) == 0) by {
                            assert(bag =~= vstd::multiset::Multiset::empty());
                        }
                    }
                    assert(before =~= Set::<u64>::empty());
                }
                None
            },
            Some(x) => {
                assert(bag.count(x) > 0);
                self.set.remove(&x.seq);
                assert forall|q: u64| #[trigger] before.contains(q) implies x.seq <= q by {
                    let y = HeapItem { due: 0, seq: q };
                    assert(bag.count(y) == 1);
                    assert(bag.contains(y));
                }
                Some(x.seq)
            },
        }
    }

    /// The number of queued blocks.
    pub fn rex_len(&self) -> (r: usize)
        ensures
            r == self@.len(),
    {
        self.set.len()
    }

    /// Whether no block is queued.
    pub fn is_empty(&self) -> (r: bool)
        ensures
            r == (self@ == Set::<u64>::empty()),
    {
        let r = self.set.is_empty();
        proof {
            if self.set@.is_empty() {
                assert(self.set@ =~= Set::<u64>::empty());
            }
        }
        r
    }
}

/// The blocks that a list of NACK entries asks for.
pub open spec fn requested(nacks: Seq<NackEntry>) -> Set<u64> {
    Set::new(
        |seq: u64| exists|i: int| 0 <= i < nacks.len() && (#[trigger] nacks[i]).block_seq == seq,
    )
}

// --- echo ticks -------------------------------------------------------------

/// The receiver's latest timing tick, waiting to be echoed.
#[derive(Debug, Clone, Copy, PartialEq, Eq, Structural)]
pub struct TickState {
    pub pending: bool,
    pub val: u64,
    pub is_net: bool,
    pub t2: u64,
}

impl Default for TickState {
    fn default() -> (r: Self)
        ensures
            r == (TickState { pending: false, val: 0, is_net: false, t2: 0 }),
    {
        TickState { pending: false, val: 0, is_net: false, t2: 0 }
    }
}

/// The tick to echo at `now`: for a network tick the sender's own delay since
/// the tick came is added, so that the receiver measures the network alone.
pub open spec fn echoed_tick(t: TickState, now: u64) -> u64 {
    if t.is_net {
        crate::stats::counted(t.val, now - t.t2)
    } else {
        t.val
    }
}

/// The flags of a PDU that carries the tick.
pub open spec fn tick_flags(t: TickState, flags: u8) -> u8 {
    if t.is_net {
        flags | FLAG_HAS_TICK | FLAG_TICK_N
    } else {
        (flags | FLAG_HAS_TICK) & !FLAG_TICK_N
    }
}

/// A DATA PDU with the tick stamped into it, if one is waiting.
pub open spec fn stamped(t: TickState, now: u64, pdu: Seq<u8>) -> Seq<u8> {
    if t.pending {
        crate::bytes::splice(
            pdu.update(1, tick_flags(t, pdu[1])),
            16,
            crate::bytes::le64(echoed_tick(t, now)),
        )
    } else {
        pdu
    }
}

/// The tick state once its tick has been echoed.
pub open spec fn tick_spent(t: TickState) -> TickState {
    TickState { pending: false, ..t }
}

/// Stamps a pending echo tick into a DATA PDU header if one is waiting.
pub fn attach_tick(t: &mut TickState, buf: &mut [u8], now: u64)
    requires
        old(buf)@.len() >= DATA_HEADER_SIZE,
        old(t).pending && old(t).is_net ==> old(t).t2 <= now,
    ensures
        *final(t) == tick_spent(*old(t)),
        final(buf)@ == stamped(*old(t), now, old(buf)@),
        final(buf)@.len() == old(buf)@.len(),
{
    if !t.pending {
        return;
    }
    t.pending = false;
    let mut echo: u64 = t.val;
    let mut flags: u8 = buf[1] | FLAG_HAS_TICK;
    if t.is_net {
        flags = flags | FLAG_TICK_N;
        echo = count(t.val, now - t.t2);
    } else {
        flags = flags & !FLAG_TICK_N;
    }
    buf[1] = flags;
    put_echo_tick(buf, echo);
}

// --- blocks -----------------------------------------------------------------

/// The header of block `seq`.
pub open spec fn block_header(
    cfg: SendConfig,
    payload: Seq<u8>,
    seq: u64,
    retransmit: bool,
) -> DataHeader {
    DataHeader {
        flags: (if retransmit {
            FLAG_RETRANSMIT
        } else {
            0
        }) | (if seq == cfg.total_blocks - 1 {
            FLAG_LAST_BLOCK
        } else {
            0
        }),
        payload_len: payload.len() as u16,
        session: cfg.session,
        block_seq: seq,
        echo_tick: 0,
        rex_index: if retransmit {
            crate::bytes::i64_of_bits(seq)
        } else {
            0
        },
        payload_crc: if cfg.crypto is None {
            crate::protocol::crc32c_of(payload)
        } else {
            0
        },
    }
}

/// The DATA PDU of block `seq` with the given payload: the header, then the
/// payload in clear, or sealed and followed by its tag.
pub open spec fn block_pdu(
    cfg: SendConfig,
    payload: Seq<u8>,
    seq: u64,
    retransmit: bool,
) -> Seq<u8> {
    let header = crate::protocol::data_header_bytes(
        block_header(cfg, payload, seq, retransmit),
    );
    match cfg.crypto {
        None => header + payload,
        Some(b) => header + b.sealed(seq, payload).0 + b.sealed(seq, payload).1,
    }
}

/// The payload of block `seq` of an object: as many bytes as the configured size
/// says.
pub open spec fn block_payload(cfg: SendConfig, contents: Seq<u8>, seq: u64) -> Seq<u8> {
    let off = seq * cfg.block_size;
    contents.subrange(
        off,
        off + crate::protocol::block_len(cfg.file_size as int, cfg.block_size as int, seq as int),
    )
}

/// Whether every block of the object can be read from `source`.
pub open spec fn surely_read<S: BlockSource + ?Sized>(cfg: SendConfig, source: &S) -> bool {
    source.modelled() && source.reliable() && cfg.file_size <= source.contents().len()
}

/// Whether `payload` is what `source` gives for block `seq`: the block, where the
/// source says what it holds, and as many bytes as a block has in any case.
pub open spec fn is_given<S: BlockSource + ?Sized>(
    cfg: SendConfig,
    source: &S,
    seq: u64,
    payload: Seq<u8>,
) -> bool {
    &&& payload.len() == crate::protocol::block_len(
        cfg.file_size as int,
        cfg.block_size as int,
        seq as int,
    )
    &&& source.modelled() ==> payload == block_payload(cfg, source.contents(), seq)
}

/// Whether reading block `seq` from `source` may have failed.
pub open spec fn could_not_read<S: BlockSource + ?Sized>(
    cfg: SendConfig,
    source: &S,
    seq: u64,
) -> bool {
    exists|m: &mut [u8], got: Result<(), IoError>| #[trigger]
        is_block_read(cfg, source, seq, m, got) && got is Err
}

/// Whether `unread` are blocks that could not be read from `source`.
pub open spec fn are_unread<S: BlockSource + ?Sized>(
    cfg: SendConfig,
    source: &S,
    unread: Set<u64>,
) -> bool {
    forall|q: u64| #[trigger]
        unread.contains(q) ==> q < cfg.total_blocks && could_not_read(cfg, source, q)
}

/// Whether `given` tells for each of the blocks `seqs` what `source` gives for it.
pub open spec fn are_given<S: BlockSource + ?Sized>(
    cfg: SendConfig,
    source: &S,
    seqs: Seq<u64>,
    given: Map<u64, Seq<u8>>,
) -> bool {
    forall|i: int|
        0 <= i < seqs.len() ==> is_given(cfg, source, #[trigger] seqs[i], given[seqs[i]])
}

/// Where block `seq` stands in the object.
pub open spec fn block_at(cfg: SendConfig, seq: u64) -> u64 {
    (seq * cfg.block_size) as u64
}

/// Whether `got` can come back when block `seq` is read from `source` into `m`,
/// which is as long as the block.
pub open spec fn is_block_read<S: BlockSource + ?Sized>(
    cfg: SendConfig,
    source: &S,
    seq: u64,
    m: &mut [u8],
    got: Result<(), IoError>,
) -> bool {
    &&& crate::io::is_read(source, block_at(cfg, seq), m, got)
    &&& m@.len() == crate::protocol::block_len(
        cfg.file_size as int,
        cfg.block_size as int,
        seq as int,
    )
}

/// Reads the payload of block `seq` into `buf` behind the header. Returns its
/// length, or `None` when the block does not exist or cannot be read.
fn read_block<S: BlockSource + ?Sized>(
    cfg: &SendConfig,
    source: &S,
    buf: &mut [u8],
    seq: u64,
) -> (r: Option<usize>)
    requires
        cfg.wf(),
        old(buf)@.len() >= cfg.pdu_len(),
    ensures
        final(buf)@.len() == old(buf)@.len(),
        seq >= cfg.total_blocks ==> r is None,
        seq < cfg.total_blocks && surely_read(*cfg, source) ==> r is Some,
        r matches Some(plen) ==> {
            let payload = final(buf)@.subrange(DATA_HEADER_SIZE as int, DATA_HEADER_SIZE + plen);
            &&& plen == crate::protocol::block_len(
                cfg.file_size as int,
                cfg.block_size as int,
                seq as int,
            )
            &&& plen <= cfg.block_size
            &&& is_given(*cfg, source, seq, payload)
        },
        seq < cfg.total_blocks ==> exists|m: &mut [u8], got: Result<(), IoError>| #[trigger]
            is_block_read(*cfg, source, seq, m, got) && got is Ok == r is Some && (r matches Some(
                plen,
            ) ==> final(m)@ == final(buf)@.subrange(
                DATA_HEADER_SIZE as int,
                DATA_HEADER_SIZE + plen,
            )),
{
    let read = S::read_exact_at;
    if seq >= cfg.total_blocks {
        return None;
    }
    proof {
        crate::protocol::block_in_bounds(
            cfg.file_size as int,
            cfg.block_size as int,
            seq as int,
        );
    }
    let off: u64 = seq * cfg.block_size as u64;
    let mut plen: usize = cfg.block_size;
    let rem: i64 = cfg.file_size - off as i64;
    if rem < plen as i64 {
        plen = rem as usize;
    }
    let (head, rest) = buf.split_at_mut(DATA_HEADER_SIZE);
    let (body, tail) = rest.split_at_mut(plen);
    let got = read(source, off, &mut *body);
    assert forall|m: &mut [u8]| #[trigger]
        call_ensures(S::read_exact_at, (source, off, m), got) && m@.len()
            == plen implies is_block_read(*cfg, source, seq, m, got) by {}
    match got {
        Ok(()) => {},
        Err(_) => {
            return None;
        },
    }
    assert((head@ + (body@ + tail@)).subrange(
        DATA_HEADER_SIZE as int,
        DATA_HEADER_SIZE + plen,
    ) =~= body@);
    Some(plen)
}

/// Completes the PDU of block `seq`, whose payload stands in `buf` behind the
/// header: writes the header with the CRC, or seals the payload. Returns the
/// length of the PDU.
fn finish_block(cfg: &SendConfig, buf: &mut [u8], plen: usize, seq: u64, retransmit: bool) -> (r:
    usize)
    requires
        cfg.wf(),
        plen <= cfg.block_size,
        seq < cfg.total_blocks,
        old(buf)@.len() >= cfg.pdu_len(),
    ensures
        final(buf)@.len() == old(buf)@.len(),
        DATA_HEADER_SIZE <= r <= cfg.pdu_len(),
        ({
            let payload = old(buf)@.subrange(DATA_HEADER_SIZE as int, DATA_HEADER_SIZE + plen);
            let pdu = block_pdu(*cfg, payload, seq, retransmit);
            &&& final(buf)@.take(r as int) == pdu
            &&& taken_for_itself(*cfg, payload, seq, retransmit)
        }),
{
    reveal(taken_for_itself);
    let ghost before = buf@;
    let ghost payload = buf@.subrange(DATA_HEADER_SIZE as int, DATA_HEADER_SIZE + plen);
    let crc: u32 = match &cfg.crypto {
        None => crc32c(
            vstd::slice::slice_subrange(buf, DATA_HEADER_SIZE, DATA_HEADER_SIZE + plen),
        ),
        Some(_) => 0,
    };
    let mut flags: u8 = if retransmit {
        FLAG_RETRANSMIT
    } else {
        0
    };
    proof {
        let f = flags;
        assert(f | 0 == f) by (bit_vector);
    }
    if seq == cfg.total_blocks - 1 {
        flags = flags | FLAG_LAST_BLOCK;
    }
    let h = DataHeader {
        flags,
        payload_len: #[verifier::truncate] (plen as u16),
        session: cfg.session,
        block_seq: seq,
        echo_tick: 0,
        rex_index: if retransmit {
            #[verifier::truncate] (seq as i64)
        } else {
            0
        },
        payload_crc: crc,
    };
    assert(h == block_header(*cfg, payload, seq, retransmit));
    encode_data_header(buf, &h);
    let ghost header = crate::protocol::data_header_bytes(h);
    proof {
        crate::protocol::data_header_round_trip(h, Seq::empty());
        behind_header(header, before, plen as int);
    }
    match &cfg.crypto {
        Some(b) => {
            let ghost clear = buf@;
            let n: usize = b.seal_data(buf, DATA_HEADER_SIZE, plen, seq);
            proof {
                let sealed = b.sealed(seq, payload).0;
                let tag = b.sealed(seq, payload).1;
                assert(clear.take(DATA_HEADER_SIZE as int) == header);
                assert(buf@.take(n as int) =~= header + sealed + tag);
                if plen <= u16::MAX {
                    sealed_block_is_accepted(h, &**b, sealed, tag, payload);
                }
            }
            n
        },
        None => {
            proof {
                if plen <= u16::MAX {
                    clear_block_is_accepted(h, payload);
                }
            }
            DATA_HEADER_SIZE + plen
        },
    }
}

/// Where the payload stands when a header is put before the rest of a buffer.
proof fn behind_header(header: Seq<u8>, buf: Seq<u8>, plen: int)
    requires
        header.len() == DATA_HEADER_SIZE,
        0 <= plen,
        DATA_HEADER_SIZE + plen <= buf.len(),
    ensures
        ({
            let n = DATA_HEADER_SIZE as int;
            let whole = header + buf.skip(n);
            &&& whole.len() == buf.len()
            &&& whole.take(n) == header
            &&& whole.subrange(n, n + plen) == buf.subrange(n, n + plen)
            &&& whole.take(n + plen) == header + buf.subrange(n, n + plen)
        }),
{
    let n = DATA_HEADER_SIZE as int;
    let whole = header + buf.skip(n);
    assert(whole.take(n) =~= header);
    assert(whole.subrange(n, n + plen) =~= buf.subrange(n, n + plen));
    assert(whole.take(n + plen) =~= header + buf.subrange(n, n + plen));
}

/// Whether a receiver of the same session and key takes a block's PDU for
/// exactly this block and payload, as long as the payload length fits its header
/// field.
#[verifier::opaque]
pub open spec fn taken_for_itself(
    cfg: SendConfig,
    payload: Seq<u8>,
    seq: u64,
    retransmit: bool,
) -> bool {
    payload.len() <= u16::MAX ==> crate::receiver::verdict(
        cfg.session,
        crate::receiver::box_of(cfg.crypto),
        block_pdu(cfg, payload, seq, retransmit),
    ) == crate::receiver::Verdict::Block(block_header(cfg, payload, seq, retransmit), payload)
}

/// Reads block `seq` into `buf` and completes its PDU. Returns the length of the
/// PDU, or `None` when the block does not exist or cannot be read.
fn fill_block<S: BlockSource + ?Sized>(
    cfg: &SendConfig,
    source: &S,
    buf: &mut [u8],
    seq: u64,
    retransmit: bool,
) -> (r: Option<usize>)
    requires
        cfg.wf(),
        old(buf)@.len() >= cfg.pdu_len(),
    ensures
        final(buf)@.len() == old(buf)@.len(),
        filled(*cfg, source, final(buf)@, seq, retransmit, r),
        seq < cfg.total_blocks ==> exists|m: &mut [u8], got: Result<(), IoError>| #[trigger]
            is_block_read(*cfg, source, seq, m, got) && got is Ok == r is Some && (r matches Some(n)
                ==> final(buf)@.take(n as int) == block_pdu(*cfg, final(m)@, seq, retransmit)),
{
    match read_block(cfg, source, buf, seq) {
        None => None,
        Some(plen) => {
            let ghost payload = buf@.subrange(DATA_HEADER_SIZE as int, DATA_HEADER_SIZE + plen);
            assert(is_given(*cfg, source, seq, payload));
            Some(finish_block(cfg, buf, plen, seq, retransmit))
        },
    }
}

/// Whether `r` and `buf` are what filling a buffer with block `seq` gives: the
/// block's PDU, which a receiver takes for this block and payload, or nothing
/// where the block does not exist or could not be read.
pub open spec fn filled<S: BlockSource + ?Sized>(
    cfg: SendConfig,
    source: &S,
    buf: Seq<u8>,
    seq: u64,
    retransmit: bool,
    r: Option<usize>,
) -> bool {
    &&& seq >= cfg.total_blocks ==> r is None
    &&& seq < cfg.total_blocks && surely_read(cfg, source) ==> r is Some
    &&& r matches Some(n) ==> {
        &&& DATA_HEADER_SIZE <= n <= buf.len()
        &&& n <= cfg.pdu_len()
        &&& exists|payload: Seq<u8>| #[trigger]
            is_given(cfg, source, seq, payload) && buf.take(n as int) == block_pdu(
                cfg,
                payload,
                seq,
                retransmit,
            ) && taken_for_itself(cfg, payload, seq, retransmit)
    }
}

/// A block in clear is taken for itself.
proof fn clear_block_is_accepted(h: DataHeader, payload: Seq<u8>)
    requires
        h.payload_len == payload.len(),
        h.payload_crc == crate::protocol::crc32c_of(payload),
    ensures
        crate::receiver::verdict(
            h.session,
            None,
            crate::protocol::data_header_bytes(h) + payload,
        ) == crate::receiver::Verdict::Block(h, payload),
{
    let pdu = crate::protocol::data_header_bytes(h) + payload;
    crate::protocol::data_header_round_trip(h, payload);
    assert(pdu.skip(DATA_HEADER_SIZE as int) =~= payload);
    assert(payload.take(payload.len() as int) =~= payload);
}

/// A sealed block is taken for itself.
proof fn sealed_block_is_accepted(
    h: DataHeader,
    b: &AeadBox,
    sealed: Seq<u8>,
    tag: Seq<u8>,
    payload: Seq<u8>,
)
    requires
        h.payload_len == payload.len(),
        sealed.len() == payload.len(),
        tag.len() == AEAD_TAG_LEN,
        b.opened(h.block_seq, sealed, tag) == Some(payload),
    ensures
        crate::receiver::verdict(
            h.session,
            Some(*b),
            crate::protocol::data_header_bytes(h) + sealed + tag,
        ) == crate::receiver::Verdict::Block(h, payload),
{
    let header = crate::protocol::data_header_bytes(h);
    let pdu = header + sealed + tag;
    crate::protocol::data_header_round_trip(h, sealed + tag);
    assert(pdu =~= header + (sealed + tag));
    let rest = pdu.skip(DATA_HEADER_SIZE as int);
    assert(rest =~= sealed + tag);
    assert(rest.take(payload.len() as int) =~= sealed);
    assert(rest.subrange(payload.len() as int, payload.len() + AEAD_TAG_LEN) =~= tag);
}

/// A PDU in a pooled buffer.
pub struct Prefetched {
    pub buf: Vec<u8>,
    pub size: usize,
}

impl Prefetched {
    /// The PDU.
    pub open spec fn pdu(self) -> Seq<u8> {
        self.buf@.take(self.size as int)
    }

    /// The PDU lies in the buffer and has a header.
    pub open spec fn wf(self) -> bool {
        DATA_HEADER_SIZE <= self.size <= self.buf@.len()
    }
}

/// Reads block `seq` for its first injection. Returns `None` when the block does
/// not exist or cannot be read.
pub fn prefetch_block<S: BlockSource + ?Sized>(
    cfg: &SendConfig,
    source: &S,
    buf: &mut [u8],
    seq: u64,
) -> (r: Option<usize>)
    requires
        cfg.wf(),
        old(buf)@.len() >= cfg.pdu_len(),
    ensures
        final(buf)@.len() == old(buf)@.len(),
        filled(*cfg, source, final(buf)@, seq, false, r),
        seq < cfg.total_blocks ==> exists|m: &mut [u8], got: Result<(), IoError>| #[trigger]
            is_block_read(*cfg, source, seq, m, got) && got is Ok == r is Some && (r matches Some(n)
                ==> final(buf)@.take(n as int) == block_pdu(*cfg, final(m)@, seq, false)),
{
    fill_block(cfg, source, buf, seq, false)
}

/// Reads block `seq` again for a retransmission. Returns `None` when the block
/// does not exist or cannot be read.
pub fn fill_retransmit<S: BlockSource + ?Sized>(
    cfg: &SendConfig,
    source: &S,
    buf: &mut [u8],
    seq: u64,
) -> (r: Option<usize>)
    requires
        cfg.wf(),
        old(buf)@.len() >= cfg.pdu_len(),
    ensures
        final(buf)@.len() == old(buf)@.len(),
        filled(*cfg, source, final(buf)@, seq, true, r),
        seq < cfg.total_blocks ==> exists|m: &mut [u8], got: Result<(), IoError>| #[trigger]
            is_block_read(*cfg, source, seq, m, got) && got is Ok == r is Some && (r matches Some(n)
                ==> final(buf)@.take(n as int) == block_pdu(*cfg, final(m)@, seq, true)),
{
    fill_block(cfg, source, buf, seq, true)
}

/// Reads the blocks of an object for their first injection, one after the other
/// from the first to the last. A block that cannot be read ends it.
pub struct BlockReader {
    /// The block that is read next.
    pub next: u64,
    /// Whether a block could not be read.
    pub failed: bool,
}

/// Whether the reader `before` handed out `item`, read from `source`, and became
/// `after`: the PDU of its next block, and then that block is behind it.
pub open spec fn hands_out<S: BlockSource + ?Sized>(
    cfg: SendConfig,
    source: &S,
    before: BlockReader,
    after: BlockReader,
    item: Prefetched,
) -> bool {
    &&& before.is_due(cfg)
    &&& filled(cfg, source, item.buf@, before.next, false, Some(item.size))
    &&& after.next == before.next + 1
    &&& !after.failed
}

impl BlockReader {
    /// Whether there is a block to read next.
    pub open spec fn is_due(self, cfg: SendConfig) -> bool {
        !self.failed && self.next < cfg.total_blocks
    }

    /// A reader before the first block.
    pub fn new() -> (r: BlockReader)
        ensures
            r.next == 0,
            !r.failed,
    {
        BlockReader { next: 0, failed: false }
    }

    /// Whether there is a block to read next.
    pub fn due(&self, cfg: &SendConfig) -> (r: bool)
        ensures
            r == self.is_due(*cfg),
    {
        !self.failed && self.next < cfg.total_blocks
    }

    /// Reads the next block into `buf` and hands out its PDU. Returns `None` when
    /// no block is left or the block cannot be read; then none is read again.
    pub fn read_next<S: BlockSource + ?Sized>(
        &mut self,
        cfg: &SendConfig,
        source: &S,
        buf: Vec<u8>,
    ) -> (r: Option<Prefetched>)
        requires
            cfg.wf(),
            buf@.len() >= cfg.pdu_len(),
        ensures
            match r {
                Some(item) => hands_out(*cfg, source, *old(self), *final(self), item)
                    && item.buf@.len() == buf@.len(),
                None => final(self).next == old(self).next && !final(self).is_due(*cfg)
                    && final(self).failed == (old(self).failed || old(self).is_due(*cfg)),
            },
            old(self).is_due(*cfg) && surely_read(*cfg, source) ==> r is Some,
            old(self).is_due(*cfg) ==> exists|m: &mut [u8], got: Result<(), IoError>| #[trigger]
                is_block_read(*cfg, source, old(self).next, m, got) && got is Ok == r is Some && (
                r matches Some(item) ==> item.pdu() == block_pdu(
                    *cfg,
                    final(m)@,
                    old(self).next,
                    false,
                )),
    {
        if !self.due(cfg) {
            return None;
        }
        let mut buf = buf;
        match prefetch_block(cfg, source, buf.as_mut_slice(), self.next) {
            Some(size) => {
                self.next = self.next + 1;
                Some(Prefetched { buf, size })
            },
            None => {
                self.failed = true;
                None
            },
        }
    }
}

// --- the sender -------------------------------------------------------------

/// The sending end of a transfer.
pub struct Sender {
    /// The configuration, with defaults filled in.
    pub cfg: SendConfig,
    /// The injection rate.
    pub target_bps: u64,
    /// Whether the receiver has every block.
    pub done: bool,
    /// Whether every block was injected once.
    pub new_done: bool,
    /// The blocks to send again.
    pub rex: RexQueue,
    /// The tick to echo.
    pub tick: TickState,
    /// The transfer's statistics.
    pub stats: Stats,
}

/// What a sender knows.
#[verifier::ext_equal]
pub struct SendState {
    pub target_bps: u64,
    pub done: bool,
    pub new_done: bool,
    pub rex: Set<u64>,
    pub tick: TickState,
    pub stats: Stats,
}

impl View for Sender {
    type V = SendState;

    open spec fn view(&self) -> SendState {
        SendState {
            target_bps: self.target_bps,
            done: self.done,
            new_done: self.new_done,
            rex: self.rex@,
            tick: self.tick,
            stats: self.stats,
        }
    }
}

/// The state after the datagram `pkt` came from the receiver at `t2`. Only a
/// FEEDBACK PDU of this session counts. It brings a tick to echo, blocks to send
/// again, in adaptive mode a target rate, the receiver's progress, and the word
/// that it is done.
pub open spec fn after_feedback(
    s: SendState,
    session: u32,
    mode: RateMode,
    pkt: Seq<u8>,
    t2: u64,
) -> SendState {
    match crate::protocol::parsed_feedback(pkt) {
        None => s,
        Some((h, nacks)) => if h.session != session {
            s
        } else {
            let rex = s.rex.union(requested(nacks));
            let adopt = mode == RateMode::Adaptive && h.target_rate > 0;
            SendState {
                target_bps: if adopt {
                    h.target_rate
                } else {
                    s.target_bps
                },
                done: s.done || h.done,
                new_done: s.new_done,
                rex,
                tick: TickState {
                    pending: true,
                    val: h.tick,
                    is_net: h.tick_is_network,
                    t2,
                },
                stats: Stats {
                    nacks_recv: crate::stats::counted(s.stats.nacks_recv, nacks.len() as int),
                    rex_queue_len: if nacks.len() > 0 {
                        rex.len() as i64
                    } else {
                        s.stats.rex_queue_len
                    },
                    target_rate_bps: if adopt {
                        h.target_rate
                    } else {
                        s.stats.target_rate_bps
                    },
                    hi_contig: h.hi_contig,
                    ..s.stats
                },
            }
        },
    }
}

/// What the pacing loop does next.
#[derive(Debug, Clone, Copy, PartialEq, Eq, Structural)]
pub enum SendStep {
    /// The receiver has every block.
    Finished,
    /// The caller asked the transfer to end.
    Stopped,
    /// Send the next batch.
    Continue,
}

/// A batch of PDUs to send: retransmissions, then new blocks.
pub struct Batch {
    pub packets: Vec<Prefetched>,
    pub rex_n: usize,
    pub new_n: usize,
    pub rex_bytes: u64,
    pub new_bytes: u64,
}

/// The bytes of a list of PDUs, as a counter counts them.
pub open spec fn wire_bytes(packets: Seq<Prefetched>) -> u64
    decreases packets.len(),
{
    if packets.len() == 0 {
        0
    } else {
        crate::stats::counted(wire_bytes(packets.drop_last()), packets.last().size as int)
    }
}

/// The tick that packet `i` of a batch carries: the first packet takes the one
/// that is waiting.
pub open spec fn tick_for(t: TickState, i: int) -> TickState {
    if i == 0 {
        t
    } else {
        tick_spent(t)
    }
}

/// Whether `seqs` are the retransmissions that a batch takes from the queue
/// `before`, leaving `after`: the lowest queued blocks, in ascending order.
/// Requests for blocks that do not exist or could not be read, `unread`, drop out.
pub open spec fn takes_lowest(
    cfg: SendConfig,
    unread: Set<u64>,
    before: Set<u64>,
    after: Set<u64>,
    seqs: Seq<u64>,
) -> bool {
    &&& after.subset_of(before)
    &&& forall|i: int|
        0 <= i < seqs.len() ==> before.contains(#[trigger] seqs[i]) && !after.contains(seqs[i])
            && seqs[i] < cfg.total_blocks
    &&& forall|i: int, j: int| 0 <= i < j < seqs.len() ==> #[trigger] seqs[i] < #[trigger] seqs[j]
    &&& forall|q: u64, p: u64|
        #![trigger before.contains(q), after.contains(p)]
        before.contains(q) && !after.contains(q) && after.contains(p) ==> q < p
    &&& forall|q: u64|
        #![trigger before.contains(q)]
        before.contains(q) && !after.contains(q) && q < cfg.total_blocks ==> seqs.contains(q)
            || unread.contains(q)
}

/// Whether `b` is the batch of at most `to_send` PDUs that comes from the state
/// `before` and the PDUs `ready`, leaving `after` and `rest`; `seqs` are the
/// blocks sent again. Retransmissions come first. New blocks follow only once
/// the queue is empty, in the order in which they were read; where fewer are
/// ready than fit and no more will come, every block was injected.
pub open spec fn is_batch(
    cfg: SendConfig,
    given: Map<u64, Seq<u8>>,
    unread: Set<u64>,
    before: SendState,
    after: SendState,
    ready: Seq<Prefetched>,
    rest: Seq<Prefetched>,
    closed: bool,
    to_send: int,
    now: u64,
    seqs: Seq<u64>,
    b: Batch,
) -> bool {
    let room = to_send - b.rex_n;
    &&& takes_lowest(cfg, unread, before.rex, after.rex, seqs)
    &&& b.rex_n == seqs.len()
    &&& b.rex_n <= to_send
    &&& b.packets@.len() == b.rex_n + b.new_n
    &&& b.new_n == (if room == 0 || before.new_done {
        0
    } else {
        crate::stats::min_int(room, ready.len() as int)
    })
    &&& room > 0 ==> after.rex == Set::<u64>::empty()
    &&& rest == ready.skip(b.new_n as int)
    &&& forall|i: int|
        0 <= i < b.packets@.len() ==> (#[trigger] b.packets@[i]).wf() && b.packets@[i].pdu()
            == stamped(
            tick_for(before.tick, i),
            now,
            if i < b.rex_n {
                block_pdu(cfg, given[seqs[i]], seqs[i], true)
            } else {
                ready[i - b.rex_n].pdu()
            },
        )
    &&& forall|i: int|
        0 <= i < b.rex_n ==> taken_for_itself(cfg, given[#[trigger] seqs[i]], seqs[i], true)
    &&& b.rex_bytes == wire_bytes(b.packets@.take(b.rex_n as int))
    &&& b.new_bytes == wire_bytes(b.packets@.skip(b.rex_n as int))
    &&& after.tick == (if b.packets@.len() > 0 {
        tick_spent(before.tick)
    } else {
        before.tick
    })
    &&& after.new_done == (before.new_done || (room > 0 && closed && ready.len() < room))
    &&& after.target_bps == before.target_bps
    &&& after.done == before.done
    &&& after.stats == (Stats {
        rex_queue_len: if after.rex == before.rex {
            before.stats.rex_queue_len
        } else {
            after.rex.len() as i64
        },
        ..before.stats
    })
}

/// Whether `packet` is what is made of block `seq` for a retransmission: its PDU
/// with the tick `t`, or nothing where the block does not exist or cannot be read.
spec fn made_again<S: BlockSource + ?Sized>(
    cfg: SendConfig,
    source: &S,
    t: TickState,
    now: u64,
    seq: u64,
    packet: Option<Prefetched>,
) -> bool {
    &&& seq >= cfg.total_blocks ==> packet is None
    &&& seq < cfg.total_blocks && packet is None ==> could_not_read(cfg, source, seq)
    &&& packet matches Some(p) ==> p.wf() && exists|payload: Seq<u8>| #[trigger]
        is_given(cfg, source, seq, payload) && p.pdu() == stamped(
            t,
            now,
            block_pdu(cfg, payload, seq, true),
        ) && taken_for_itself(cfg, payload, seq, true)
}

/// The state after block `seq` was taken off the queue, with a PDU made of it or
/// not.
spec fn after_pop(s: SendState, seq: u64, made: bool) -> SendState {
    SendState {
        rex: s.rex.remove(seq),
        tick: if made {
            tick_spent(s.tick)
        } else {
            s.tick
        },
        stats: Stats { rex_queue_len: s.rex.remove(seq).len() as i64, ..s.stats },
        ..s
    }
}

/// Whether `packets` are the retransmissions of the blocks `seqs` that a batch of
/// at most `to_send` takes from the state `before`, leaving `after`.
spec fn is_rex_part(
    cfg: SendConfig,
    given: Map<u64, Seq<u8>>,
    unread: Set<u64>,
    before: SendState,
    after: SendState,
    to_send: int,
    now: u64,
    seqs: Seq<u64>,
    packets: Seq<Prefetched>,
    rex_bytes: u64,
) -> bool {
    &&& takes_lowest(cfg, unread, before.rex, after.rex, seqs)
    &&& packets.len() == seqs.len()
    &&& packets.len() <= to_send
    &&& packets.len() < to_send ==> after.rex == Set::<u64>::empty()
    &&& forall|i: int|
        0 <= i < packets.len() ==> (#[trigger] packets[i]).wf() && packets[i].pdu() == stamped(
            tick_for(before.tick, i),
            now,
            block_pdu(cfg, given[seqs[i]], seqs[i], true),
        )
    &&& forall|i: int|
        0 <= i < packets.len() ==> taken_for_itself(
            cfg,
            given[#[trigger] seqs[i]],
            seqs[i],
            true,
        )
    &&& rex_bytes == wire_bytes(packets)
    &&& after.tick == tick_for(before.tick, packets.len() as int)
    &&& after.new_done == before.new_done
    &&& after.target_bps == before.target_bps
    &&& after.done == before.done
    &&& after.stats == (Stats {
        rex_queue_len: if after.rex == before.rex {
            before.stats.rex_queue_len
        } else {
            after.rex.len() as i64
        },
        ..before.stats
    })
}

impl Sender {
    /// The configuration and the queue are in order.
    pub open spec fn wf(&self) -> bool {
        &&& self.cfg.wf()
        &&& self.rex.wf()
    }

    /// A sender at its starting rate: the target, or the ceiling where there is
    /// no target. `stats` is where its counters start from.
    pub fn new(cfg: SendConfig, stats: Stats) -> (r: Sender)
        requires
            cfg.wf(),
        ensures
            r.wf(),
            r.cfg == (SendConfig {
                read_workers: if cfg.read_workers == 0 {
                    2
                } else {
                    cfg.read_workers
                },
                ..cfg
            }),
            r@ == (SendState {
                target_bps: cfg.rate.initial(),
                done: false,
                new_done: false,
                rex: Set::empty(),
                tick: TickState { pending: false, val: 0, is_net: false, t2: 0 },
                stats: Stats {
                    total_bytes: cfg.file_size as u64,
                    total_blocks: cfg.total_blocks,
                    block_size: cfg.block_size as u64,
                    target_rate_bps: cfg.rate.initial(),
                    ..stats
                },
            }),
    {
        let mut cfg = cfg;
        if cfg.read_workers == 0 {
            cfg.read_workers = 2;
        }
        let init: u64 = cfg.rate.initial_bps();
        let mut stats = stats;
        stats.total_bytes = cfg.file_size as u64;
        stats.total_blocks = cfg.total_blocks;
        stats.block_size = cfg.block_size as u64;
        stats.target_rate_bps = init;
        Sender {
            cfg,
            target_bps: init,
            done: false,
            new_done: false,
            rex: RexQueue::new(),
            tick: TickState::default(),
            stats,
        }
    }

    /// Takes in a datagram from the receiver: records the timing tick, queues
    /// NACKs, adopts the receiver's target rate (adaptive), and watches for
    /// DONE. Returns whether the receiver is done.
    pub fn on_feedback(&mut self, pkt: &[u8], t2: u64) -> (r: bool)
        requires
            old(self).wf(),
        ensures
            final(self).wf(),
            final(self).cfg == old(self).cfg,
            final(self)@ == after_feedback(
                old(self)@,
                old(self).cfg.session,
                old(self).cfg.rate.mode,
                pkt@,
                t2,
            ),
            r == final(self)@.done,
    {
        let (h, nacks) = match decode_feedback(pkt) {
            None => return self.done,
            Some(f) => f,
        };
        if h.session != self.cfg.session {
            return self.done;
        }
        self.tick = TickState { pending: true, val: h.tick, is_net: h.tick_is_network, t2 };
        if nacks.len() > 0 {
            self.stats.nacks_recv = count(self.stats.nacks_recv, nacks.len() as u64);
            self.rex.push_retransmits(nacks.as_slice());
            self.stats.rex_queue_len = #[verifier::truncate] (self.rex.rex_len() as i64);
        } else {
            assert(requested(nacks@) =~= Set::empty());
            assert(self.rex@ =~= self.rex@.union(requested(nacks@)));
        }
        if self.cfg.rate.mode == RateMode::Adaptive && h.target_rate > 0 {
            self.target_bps = h.target_rate;
            self.stats.target_rate_bps = h.target_rate;
        }
        self.stats.hi_contig = h.hi_contig;
        if h.done {
            self.done = true;
        }
        self.done
    }

    /// What the pacing loop does next. A transfer that is done ends well even
    /// when it was asked to stop.
    pub fn next_step(&self, stop: bool) -> (r: SendStep)
        ensures
            r == (if self@.done {
                SendStep::Finished
            } else if stop {
                SendStep::Stopped
            } else {
                SendStep::Continue
            }),
    {
        if self.done {
            SendStep::Finished
        } else if stop {
            SendStep::Stopped
        } else {
            SendStep::Continue
        }
    }

    /// The injection rate that the caller's controls leave, at least one bit per
    /// second.
    pub fn injection_rate(&self, control: Option<&TransferControl>) -> (r: u64)
        ensures
            r == crate::stats::max_int(
                match control {
                    Some(c) => c.allowed_rate(self@.target_bps),
                    None => self@.target_bps as int,
                },
                1,
            ),
    {
        let rate: u64 = match control {
            Some(c) => c.effective_rate_bps(self.target_bps),
            None => self.target_bps,
        };
        if rate < 1 {
            1
        } else {
            rate
        }
    }

    /// Builds one batch of at most `to_send` PDUs, and never more than `MAX_BATCH`:
    /// retransmissions first (lowest block first), then the PDUs in `ready`.
    /// `closed` says that no more than these will come. A waiting tick goes with
    /// the first PDU.
    #[verifier::rlimit(40)]
    pub fn build_batch<S: BlockSource + ?Sized>(
        &mut self,
        source: &S,
        ready: &mut VecDeque<Prefetched>,
        closed: bool,
        to_send: usize,
        now: u64,
    ) -> (b: Batch)
        requires
            old(self).wf(),
            forall|i: int| 0 <= i < old(ready)@.len() ==> (#[trigger] old(ready)@[i]).wf(),
            old(self)@.tick.pending && old(self)@.tick.is_net ==> old(self)@.tick.t2 <= now,
        ensures
            final(self).wf(),
            final(self).cfg == old(self).cfg,
            exists|seqs: Seq<u64>, given: Map<u64, Seq<u8>>, unread: Set<u64>| #[trigger]
                is_batch(
                    old(self).cfg,
                    given,
                    unread,
                    old(self)@,
                    final(self)@,
                    old(ready)@,
                    final(ready)@,
                    closed,
                    crate::stats::min_int(to_send as int, MAX_BATCH as int),
                    now,
                    seqs,
                    b,
                ) && are_given(old(self).cfg, source, seqs, given) && are_unread(
                    old(self).cfg,
                    source,
                    unread,
                ),
    {
        let ghost most = crate::stats::min_int(to_send as int, MAX_BATCH as int);
        let to_send: usize = if to_send > MAX_BATCH {
            MAX_BATCH
        } else {
            to_send
        };
        let ghost before = self@;
        let ghost supply = ready@;
        let (mut packets, rex_bytes, Ghost(seqs), Ghost(given), Ghost(unread)) =
            self.take_retransmits(source, to_send, now);
        let rex_n: usize = packets.len();
        let ghost mid = self@;
        let ghost rex_packets = packets@;
        let mut new_n: usize = 0;
        let mut new_bytes: u64 = 0;
        let mut starved: bool = false;
        assert(supply.skip(0) =~= supply);
        assert(packets@.skip(rex_n as int) =~= Seq::<Prefetched>::empty());
        while packets.len() < to_send && !self.new_done && !starved
            invariant
                self.wf(),
                self.cfg == old(self).cfg,
                rex_n <= packets@.len() <= to_send,
                packets@.len() == rex_n + new_n,
                rex_packets.len() == rex_n,
                packets@.take(rex_n as int) == rex_packets,
                mid.rex == self@.rex,
                mid.target_bps == self@.target_bps,
                mid.done == self@.done,
                mid.stats == self@.stats,
                new_n <= supply.len(),
                ready@ == supply.skip(new_n as int),
                new_bytes == wire_bytes(packets@.skip(rex_n as int)),
                forall|i: int| 0 <= i < supply.len() ==> (#[trigger] supply[i]).wf(),
                before.tick.pending && before.tick.is_net ==> before.tick.t2 <= now,
                self@.tick == tick_for(before.tick, packets@.len() as int),
                before.new_done ==> new_n == 0,
                starved ==> new_n == supply.len() && !closed && packets@.len() < to_send,
                self@.new_done == (before.new_done || (closed && new_n == supply.len()
                    && packets@.len() < to_send && self@.new_done)),
                forall|i: int|
                    rex_n <= i < packets@.len() ==> (#[trigger] packets@[i]).wf()
                        && packets@[i].pdu() == stamped(
                        tick_for(before.tick, i),
                        now,
                        supply[i - rex_n].pdu(),
                    ),
            decreases to_send - packets@.len(), if self.new_done || starved {
                    0int
                } else {
                    1int
                },
        {
            match ready.pop_front() {
                None => {
                    if closed {
                        self.new_done = true;
                    } else {
                        starved = true;
                    }
                },
                Some(item) => {
                    let mut item = item;
                    let ghost first = supply[new_n as int];
                    assert(item == first && first.wf());
                    let ghost t = self.tick;
                    let ghost raw = item.buf@;
                    attach_tick(&mut self.tick, item.buf.as_mut_slice(), now);
                    proof {
                        stamp_within(t, now, raw, item.size as int);
                    }
                    let ghost shorter = packets@;
                    new_bytes = count(new_bytes, item.size as u64);
                    packets.push(item);
                    new_n = new_n + 1;
                    assert(ready@ =~= supply.skip(new_n as int));
                    assert(packets@.take(rex_n as int) =~= rex_packets);
                    assert(packets@.skip(rex_n as int).drop_last() =~= shorter.skip(
                        rex_n as int,
                    ));
                },
            }
        }
        let b = Batch { packets, rex_n, new_n, rex_bytes, new_bytes };
        assert forall|i: int| 0 <= i < b.packets@.len() implies (#[trigger] b.packets@[i]).wf()
            && b.packets@[i].pdu() == stamped(
            tick_for(before.tick, i),
            now,
            if i < b.rex_n {
                block_pdu(self.cfg, given[seqs[i]], seqs[i], true)
            } else {
                supply[i - b.rex_n].pdu()
            },
        ) by {
            if i < rex_n {
                assert(b.packets@.take(rex_n as int)[i] == rex_packets[i]);
            }
        }
        assert(is_batch(
            self.cfg,
            given,
            unread,
            before,
            self@,
            supply,
            ready@,
            closed,
            most,
            now,
            seqs,
            b,
        ));
        assert(are_given(self.cfg, source, seqs, given));
        assert(are_unread(self.cfg, source, unread));
        b
    }

    /// Takes the lowest block off the queue and makes its PDU, where the block
    /// exists and can be read.
    fn pop_packet<S: BlockSource + ?Sized>(&mut self, source: &S, now: u64) -> (r: Option<
        (u64, Option<Prefetched>),
    >)
        requires
            old(self).wf(),
            old(self)@.tick.pending && old(self)@.tick.is_net ==> old(self)@.tick.t2 <= now,
        ensures
            final(self).wf(),
            final(self).cfg == old(self).cfg,
            match r {
                None => old(self)@.rex == Set::<u64>::empty() && final(self)@ == old(self)@,
                Some((seq, packet)) => {
                    &&& old(self)@.rex.contains(seq)
                    &&& forall|q: u64| #[trigger] old(self)@.rex.contains(q) ==> seq <= q
                    &&& old(self)@.rex.finite()
                    &&& final(self)@ == after_pop(old(self)@, seq, packet is Some)
                    &&& made_again(old(self).cfg, source, old(self)@.tick, now, seq, packet)
                },
            },
    {
        let seq: u64 = match self.rex.pop_retransmit() {
            None => return None,
            Some(seq) => seq,
        };
        proof {
            assert(old(self)@.rex =~= self@.rex.insert(seq));
        }
        self.stats.rex_queue_len = #[verifier::truncate] (self.rex.rex_len() as i64);
        let mut buf: Vec<u8> = vec![0u8; self.cfg.buffer_len()];
        match fill_retransmit(&self.cfg, source, buf.as_mut_slice(), seq) {
            None => {
                assert(self@ =~= after_pop(old(self)@, seq, false));
                assert(made_again(self.cfg, source, old(self)@.tick, now, seq, None));
                Some((seq, None))
            },
            Some(size) => {
                let ghost payload = choose|payload: Seq<u8>| #[trigger]
                    is_given(self.cfg, source, seq, payload) && buf@.take(size as int) == block_pdu(
                        self.cfg,
                        payload,
                        seq,
                        true,
                    ) && taken_for_itself(self.cfg, payload, seq, true);
                proof {
                    stamp_within(self.tick, now, buf@, size as int);
                }
                attach_tick(&mut self.tick, buf.as_mut_slice(), now);
                let p = Prefetched { buf, size };
                assert(is_given(self.cfg, source, seq, payload));
                assert(made_again(self.cfg, source, old(self)@.tick, now, seq, Some(p)));
                assert(self@ =~= after_pop(old(self)@, seq, true));
                Some((seq, Some(p)))
            },
        }
    }

    /// Takes the retransmissions of a batch from the queue.
    fn take_retransmits<S: BlockSource + ?Sized>(
        &mut self,
        source: &S,
        to_send: usize,
        now: u64,
    ) -> (r: (
        Vec<Prefetched>,
        u64,
        Ghost<Seq<u64>>,
        Ghost<Map<u64, Seq<u8>>>,
        Ghost<Set<u64>>,
    ))
        requires
            old(self).wf(),
            old(self)@.tick.pending && old(self)@.tick.is_net ==> old(self)@.tick.t2 <= now,
        ensures
            final(self).wf(),
            final(self).cfg == old(self).cfg,
            are_given(old(self).cfg, source, r.2@, r.3@),
            are_unread(old(self).cfg, source, r.4@),
            is_rex_part(
                old(self).cfg,
                r.3@,
                r.4@,
                old(self)@,
                final(self)@,
                to_send as int,
                now,
                r.2@,
                r.0@,
                r.1,
            ),
    {
        let ghost cfg = self.cfg;
        let ghost mut unread: Set<u64> = Set::empty();
        let ghost mut given: Map<u64, Seq<u8>> = Map::empty();
        let ghost before = self@;
        let ghost mut seqs: Seq<u64> = Seq::empty();
        let mut packets: Vec<Prefetched> = Vec::new();
        let mut rex_bytes: u64 = 0;
        let mut emptied: bool = false;
        while packets.len() < to_send && !emptied
            invariant
                self.wf(),
                self.cfg == cfg,
                cfg.wf(),
                are_given(cfg, source, seqs, given),
                are_unread(cfg, source, unread),
                forall|i: int|
                    0 <= i < packets@.len() ==> taken_for_itself(
                        cfg,
                        given[#[trigger] seqs[i]],
                        seqs[i],
                        true,
                    ),
                before.tick.pending && before.tick.is_net ==> before.tick.t2 <= now,
                packets@.len() <= to_send,
                packets@.len() == seqs.len(),
                rex_bytes == wire_bytes(packets@),
                takes_lowest(cfg, unread, before.rex, self@.rex, seqs),
                self@.tick == tick_for(before.tick, packets@.len() as int),
                emptied ==> self@.rex == Set::<u64>::empty(),
                forall|i: int|
                    0 <= i < packets@.len() ==> (#[trigger] packets@[i]).wf() && packets@[i].pdu()
                        == stamped(
                        tick_for(before.tick, i),
                        now,
                        block_pdu(cfg, given[seqs[i]], seqs[i], true),
                    ),
                self@.new_done == before.new_done,
                self@.target_bps == before.target_bps,
                self@.done == before.done,
                self@.rex.finite(),
                self@.stats == (Stats {
                    rex_queue_len: if self@.rex == before.rex {
                        before.stats.rex_queue_len
                    } else {
                        self@.rex.len() as i64
                    },
                    ..before.stats
                }),
            decreases to_send - packets@.len(), self@.rex.len(), if emptied {
                    0int
                } else {
                    1int
                },
        {
            let ghost queue = self@.rex;
            let ghost tick = self@.tick;
            match self.pop_packet(source, now) {
                None => {
                    emptied = true;
                },
                Some((seq, packet)) => {
                    proof {
                        let more = if packet is None && seq < cfg.total_blocks {
                            unread.insert(seq)
                        } else {
                            unread
                        };
                        lowest_step(cfg, unread, more, before.rex, queue, seqs, seq, packet is Some);
                        unread = more;
                    }
                    match packet {
                        None => {},
                        Some(p) => {
                            let ghost shorter = packets@;
                            rex_bytes = count(rex_bytes, p.size as u64);
                            packets.push(p);
                            assert(packets@.drop_last() =~= shorter);
                            proof {
                                let payload = choose|payload: Seq<u8>| #[trigger]
                                    is_given(cfg, source, seq, payload) && p.pdu() == stamped(
                                        tick,
                                        now,
                                        block_pdu(cfg, payload, seq, true),
                                    ) && taken_for_itself(cfg, payload, seq, true);
                                assert forall|i: int| 0 <= i < seqs.len() implies #[trigger] seqs[i]
                                    != seq by {
                                    assert(!queue.contains(seqs[i]));
                                }
                                given = given.insert(seq, payload);
                                seqs = seqs.push(seq);
                            }
                        },
                    }
                },
            }
        }
        (packets, rex_bytes, Ghost(seqs), Ghost(given), Ghost(unread))
    }
}

/// Taking one more block off the queue.
proof fn lowest_step(
    cfg: SendConfig,
    unread: Set<u64>,
    more: Set<u64>,
    before: Set<u64>,
    mid: Set<u64>,
    seqs: Seq<u64>,
    seq: u64,
    sent: bool,
)
    requires
        takes_lowest(cfg, unread, before, mid, seqs),
        mid.contains(seq),
        forall|q: u64| #[trigger] mid.contains(q) ==> seq <= q,
        sent ==> seq < cfg.total_blocks,
        unread.subset_of(more),
        seq < cfg.total_blocks && !sent ==> more.contains(seq),
    ensures
        takes_lowest(
            cfg,
            more,
            before,
            mid.remove(seq),
            if sent {
                seqs.push(seq)
            } else {
                seqs
            },
        ),
        mid.remove(seq) != before,
{
    let after = mid.remove(seq);
    let list = if sent {
        seqs.push(seq)
    } else {
        seqs
    };
    assert(before.contains(seq));
    assert forall|i: int, j: int| 0 <= i < j < list.len() implies #[trigger] list[i]
        < #[trigger] list[j] by {
        if j == seqs.len() {
            assert(before.contains(seqs[i]) && !mid.contains(seqs[i]));
        }
    }
    assert forall|q: u64|
        #![trigger before.contains(q)]
        before.contains(q) && !after.contains(q) && q < cfg.total_blocks implies list.contains(q)
        || more.contains(q) by {
        if q == seq && sent {
            assert(list[seqs.len() as int] == q);
        } else if seqs.contains(q) {
            let k = choose|k: int| 0 <= k < seqs.len() && seqs[k] == q;
            assert(list[k] == q);
        }
    }
}

/// Law: of a source from which every block can be read, none is left unread.
pub proof fn sure_source_leaves_none_unread<S: BlockSource + ?Sized>(
    cfg: SendConfig,
    source: &S,
    unread: Set<u64>,
)
    requires
        cfg.wf(),
        surely_read(cfg, source),
        are_unread(cfg, source, unread),
    ensures
        unread == Set::<u64>::empty(),
{
    assert forall|q: u64| !#[trigger] unread.contains(q) by {
        if unread.contains(q) {
            crate::protocol::block_in_bounds(
                cfg.file_size as int,
                cfg.block_size as int,
                q as int,
            );
        }
    }
    assert(unread =~= Set::<u64>::empty());
}

/// Stamping a buffer stamps the PDU at its start.
proof fn stamp_within(t: TickState, now: u64, buf: Seq<u8>, size: int)
    requires
        DATA_HEADER_SIZE <= size <= buf.len(),
    ensures
        stamped(t, now, buf).take(size) == stamped(t, now, buf.take(size)),
{
    assert(stamped(t, now, buf).take(size) =~= stamped(t, now, buf.take(size)));
}

impl Sender {
    /// Counts the packets and bytes of a batch that was sent.
    pub fn count_batch(&mut self, b: &Batch)
        requires
            old(self).wf(),
        ensures
            final(self).wf(),
            final(self).cfg == old(self).cfg,
            final(self)@ == (SendState {
                stats: Stats {
                    retrans_sent: crate::stats::counted(
                        old(self)@.stats.retrans_sent,
                        b.rex_n as int,
                    ),
                    packets_sent: crate::stats::counted(
                        crate::stats::counted(old(self)@.stats.packets_sent, b.rex_n as int),
                        b.new_n as int,
                    ),
                    bytes_sent: crate::stats::counted(
                        crate::stats::counted(old(self)@.stats.bytes_sent, b.rex_bytes as int),
                        b.new_bytes as int,
                    ),
                    ..old(self)@.stats
                },
                ..old(self)@
            }),
    {
        self.stats.retrans_sent = count(self.stats.retrans_sent, b.rex_n as u64);
        self.stats.packets_sent = count(
            count(self.stats.packets_sent, b.rex_n as u64),
            b.new_n as u64,
        );
        self.stats.bytes_sent = count(count(self.stats.bytes_sent, b.rex_bytes), b.new_bytes);
    }

    /// Whether to announce FIN: every block was injected and none is asked for
    /// again.
    pub fn fin_due(&self) -> (r: bool)
        ensures
            r == (self@.new_done && self@.rex == Set::<u64>::empty()),
    {
        self.new_done && self.rex.is_empty()
    }

    /// The FIN PDU of the transfer.
    pub fn fin_pdu(&self) -> (r: Vec<u8>)
        ensures
            r@ == crate::protocol::fin_bytes(self.cfg.session, self.cfg.total_blocks),
    {
        let mut b: Vec<u8> = vec![0u8; 16];
        encode_fin(b.as_mut_slice(), self.cfg.session, self.cfg.total_blocks);
        assert(b@ =~= crate::protocol::fin_bytes(self.cfg.session, self.cfg.total_blocks));
        b
    }
}

/// The error of a sender that was asked to end.
pub fn stopped_error() -> (r: IoError)
    ensures
        r.kind == IoKind::Stopped,
        r.message@ == "sender stopped"@,
{
    IoError::new(IoKind::Stopped, "sender stopped")
}

/// Whether to go on waiting for the receiver's first contact. Being asked to end
/// counts before running out of time.
pub fn keep_waiting(stop: bool, deadline_passed: bool) -> (r: Result<(), IoError>)
    ensures
        match r {
            Ok(_) => !stop && !deadline_passed,
            Err(e) => if stop {
                e.kind == IoKind::Stopped && e.message@ == "stopped while waiting for receiver"@
            } else {
                deadline_passed && e.kind == IoKind::TimedOut && e.message@
                    == "timed out waiting for receiver START"@
            },
        },
{
    if stop {
        return Err(IoError::new(IoKind::Stopped, "stopped while waiting for receiver"));
    }
    if deadline_passed {
        return Err(IoError::new(IoKind::TimedOut, "timed out waiting for receiver START"));
    }
    Ok(())
}

// --- laws -------------------------------------------------------------------

/// Law: retransmissions go before new data. A batch with a new block in it has
/// served every retransmission request first.
#[verifier::spinoff_prover]
pub proof fn retransmissions_come_first(
    cfg: SendConfig,
    given: Map<u64, Seq<u8>>,
    unread: Set<u64>,
    before: SendState,
    after: SendState,
    ready: Seq<Prefetched>,
    rest: Seq<Prefetched>,
    closed: bool,
    to_send: int,
    now: u64,
    seqs: Seq<u64>,
    b: Batch,
)
    requires
        is_batch(
            cfg,
            given,
            unread,
            before,
            after,
            ready,
            rest,
            closed,
            to_send,
            now,
            seqs,
            b,
        ),
        b.new_n > 0,
    ensures
        after.rex == Set::<u64>::empty(),
        forall|q: u64| #[trigger]
            before.rex.contains(q) && q < cfg.total_blocks ==> seqs.contains(q) || unread.contains(
                q,
            ),
{
}

/// Law: new blocks are sent in order and none is lost on the way: what a batch
/// sends and what it leaves is what was ready.
#[verifier::spinoff_prover]
pub proof fn new_blocks_stay_in_order(
    cfg: SendConfig,
    given: Map<u64, Seq<u8>>,
    unread: Set<u64>,
    before: SendState,
    after: SendState,
    ready: Seq<Prefetched>,
    rest: Seq<Prefetched>,
    closed: bool,
    to_send: int,
    now: u64,
    seqs: Seq<u64>,
    b: Batch,
)
    requires
        is_batch(
            cfg,
            given,
            unread,
            before,
            after,
            ready,
            rest,
            closed,
            to_send,
            now,
            seqs,
            b,
        ),
    ensures
        ready == ready.take(b.new_n as int) + rest,
        b.packets@.len() <= to_send,
        after.new_done && !before.new_done ==> rest.len() == 0 && closed,
{
    assert(ready =~= ready.take(b.new_n as int) + rest);
}

/// Law: asking for a block twice, in one PDU or in two, queues it once.
pub proof fn duplicate_requests_collapse(queue: Set<u64>, a: Seq<NackEntry>, b: Seq<NackEntry>)
    ensures
        queue.union(requested(a)).union(requested(a)) == queue.union(requested(a)),
        requested(a + a) == requested(a),
        queue.union(requested(a)).union(requested(b)) == queue.union(requested(b)).union(
            requested(a),
        ),
{
    assert(queue.union(requested(a)).union(requested(a)) =~= queue.union(requested(a)));
    assert(queue.union(requested(a)).union(requested(b)) =~= queue.union(requested(b)).union(
        requested(a),
    ));
    assert forall|q: u64| #[trigger] requested(a + a).contains(q) == requested(a).contains(q) by {
        if requested(a).contains(q) {
            let k = choose|k: int| 0 <= k < a.len() && (#[trigger] a[k]).block_seq == q;
            assert((a + a)[k].block_seq == q);
        }
        if requested(a + a).contains(q) {
            let k = choose|k: int|
                0 <= k < (a + a).len() && (#[trigger] (a + a)[k]).block_seq == q;
            if k < a.len() {
                assert(a[k].block_seq == q);
            } else {
                assert(a[k - a.len()].block_seq == q);
            }
        }
    }
    assert(requested(a + a) =~= requested(a));
}

/// Law: in fixed mode no feedback moves the rate, and feedback of another
/// session, or that is malformed, changes nothing.
pub proof fn feedback_is_guarded(
    s: SendState,
    session: u32,
    mode: RateMode,
    pkt: Seq<u8>,
    t2: u64,
)
    ensures
        mode == RateMode::Fixed ==> after_feedback(s, session, mode, pkt, t2).target_bps
            == s.target_bps,
        crate::protocol::parsed_feedback(pkt) is None ==> after_feedback(s, session, mode, pkt, t2)
            == s,
        crate::protocol::parsed_feedback(pkt) matches Some((h, _)) && h.session != session
            ==> after_feedback(s, session, mode, pkt, t2) == s,
        s.done ==> after_feedback(s, session, mode, pkt, t2).done,
        s.rex.subset_of(after_feedback(s, session, mode, pkt, t2).rex),
{
}

/// Law: stamping a tick changes the tick and its flags and nothing else: the
/// block, its other flags and its payload stay.
pub proof fn tick_leaves_block_alone(t: TickState, now: u64, h: DataHeader, payload: Seq<u8>)
    ensures
        ({
            let pdu = crate::protocol::data_header_bytes(h) + payload;
            stamped(t, now, pdu) == (if t.pending {
                crate::protocol::data_header_bytes(
                    (DataHeader {
                        flags: tick_flags(t, h.flags),
                        echo_tick: echoed_tick(t, now),
                        ..h
                    }),
                ) + payload
            } else {
                pdu
            })
        }),
        tick_flags(t, h.flags) & FLAG_RETRANSMIT == h.flags & FLAG_RETRANSMIT,
        tick_flags(t, h.flags) & FLAG_LAST_BLOCK == h.flags & FLAG_LAST_BLOCK,
        tick_flags(t, h.flags) & FLAG_HAS_TICK != 0,
        (tick_flags(t, h.flags) & FLAG_TICK_N != 0) == t.is_net,
{
    let f = h.flags;
    assert((f | 4 | 2) & 1 == f & 1 && ((f | 4) & !2u8) & 1 == f & 1) by (bit_vector);
    assert((f | 4 | 2) & 8 == f & 8 && ((f | 4) & !2u8) & 8 == f & 8) by (bit_vector);
    assert((f | 4 | 2) & 4 != 0 && ((f | 4) & !2u8) & 4 != 0) by (bit_vector);
    assert((f | 4 | 2) & 2 != 0 && ((f | 4) & !2u8) & 2 == 0) by (bit_vector);
    let pdu = crate::protocol::data_header_bytes(h) + payload;
    if t.pending {
        let g = DataHeader {
            flags: tick_flags(t, h.flags),
            echo_tick: echoed_tick(t, now),
            ..h
        };
        assert(stamped(t, now, pdu) =~= crate::protocol::data_header_bytes(g) + payload);
    }
}

/// Law: a stamped block is still taken for itself: the receiver's verdict has the
/// same block and payload, with the tick in its header.
pub proof fn stamped_block_is_accepted(
    t: TickState,
    now: u64,
    h: DataHeader,
    crypto: Option<AeadBox>,
    rest: Seq<u8>,
    payload: Seq<u8>,
)
    requires
        t.pending,
        crate::receiver::verdict(
            h.session,
            crypto,
            crate::protocol::data_header_bytes(h) + rest,
        ) == crate::receiver::Verdict::Block(h, payload),
    ensures
        crate::receiver::verdict(
            h.session,
            crypto,
            stamped(t, now, crate::protocol::data_header_bytes(h) + rest),
        ) == crate::receiver::Verdict::Block(
            DataHeader { flags: tick_flags(t, h.flags), echo_tick: echoed_tick(t, now), ..h },
            payload,
        ),
{
    let g = DataHeader { flags: tick_flags(t, h.flags), echo_tick: echoed_tick(t, now), ..h };
    tick_leaves_block_alone(t, now, h, rest);
    crate::protocol::data_header_round_trip(h, rest);
    crate::protocol::data_header_round_trip(g, rest);
    let a = crate::protocol::data_header_bytes(h) + rest;
    let b = crate::protocol::data_header_bytes(g) + rest;
    assert(a.skip(DATA_HEADER_SIZE as int) =~= rest);
    assert(b.skip(DATA_HEADER_SIZE as int) =~= rest);
}

/// Law: a retransmission differs from the first transmission in its header only:
/// what follows the header, in clear or sealed, is the same, so no nonce is used
/// for two payloads.
pub proof fn retransmission_repeats_payload(cfg: SendConfig, payload: Seq<u8>, seq: u64)
    ensures
        block_pdu(cfg, payload, seq, true).skip(DATA_HEADER_SIZE as int) == block_pdu(
            cfg,
            payload,
            seq,
            false,
        ).skip(DATA_HEADER_SIZE as int),
{
    let again = block_header(cfg, payload, seq, true);
    let first = block_header(cfg, payload, seq, false);
    crate::protocol::data_header_round_trip(again, Seq::empty());
    crate::protocol::data_header_round_trip(first, Seq::empty());
    assert(block_pdu(cfg, payload, seq, true).skip(DATA_HEADER_SIZE as int) =~= block_pdu(
        cfg,
        payload,
        seq,
        false,
    ).skip(DATA_HEADER_SIZE as int));
}

/// Whether two ends hold the same data key, or both have none.
pub open spec fn same_key(a: Option<AeadBox>, b: Option<AeadBox>) -> bool {
    match (a, b) {
        (Some(x), Some(y)) => x.suite() == y.suite() && x.key() == y.key(),
        (None, None) => true,
        _ => false,
    }
}

/// Ends with the same key judge a datagram alike.
proof fn same_key_same_verdict(session: u32, a: Option<AeadBox>, b: Option<AeadBox>, pkt: Seq<u8>)
    requires
        same_key(a, b),
    ensures
        crate::receiver::verdict(session, a, pkt) == crate::receiver::verdict(session, b, pkt),
{
    if a is Some && crate::protocol::parsed_data_header(pkt) is Some {
        let h = crate::protocol::parsed_data_header(pkt)->Some_0;
        let rest = pkt.skip(DATA_HEADER_SIZE as int);
        let plen = h.payload_len as int;
        crate::crypto::equal_keys_interoperate(
            a->Some_0,
            b->Some_0,
            h.block_seq,
            rest.take(plen),
            rest.subrange(plen, plen + AEAD_TAG_LEN),
        );
    }
}

/// What a receiver with the same session and key takes an injected block for.
pub proof fn delivered_verdict(
    cfg: SendConfig,
    peer_key: Option<AeadBox>,
    contents: Seq<u8>,
    seq: u64,
    retransmit: bool,
    t: TickState,
    now: u64,
)
    requires
        cfg.wf(),
        cfg.file_size == contents.len(),
        cfg.block_size <= u16::MAX,
        seq < cfg.total_blocks,
        taken_for_itself(cfg, block_payload(cfg, contents, seq), seq, retransmit),
        same_key(crate::receiver::box_of(cfg.crypto), peer_key),
    ensures
        crate::receiver::is_block_of(
            crate::receiver::verdict(
                cfg.session,
                peer_key,
                stamped(
                    t,
                    now,
                    block_pdu(cfg, block_payload(cfg, contents, seq), seq, retransmit),
                ),
            ),
            contents,
            cfg.block_size as int,
            seq,
        ),
{
    reveal(taken_for_itself);
    let payload = block_payload(cfg, contents, seq);
    let h = block_header(cfg, payload, seq, retransmit);
    let header = crate::protocol::data_header_bytes(h);
    let pdu = block_pdu(cfg, payload, seq, retransmit);
    let key = crate::receiver::box_of(cfg.crypto);
    crate::protocol::block_in_bounds(
        cfg.file_size as int,
        cfg.block_size as int,
        seq as int,
    );
    let rest = match cfg.crypto {
        None => payload,
        Some(b) => b.sealed(seq, payload).0 + b.sealed(seq, payload).1,
    };
    assert(pdu =~= header + rest);
    if t.pending {
        stamped_block_is_accepted(t, now, h, key, rest, payload);
    }
    same_key_same_verdict(cfg.session, key, peer_key, stamped(t, now, pdu));
}

/// Law: what a sender injects, a receiver holds. A block of the object, injected
/// first or again and with a tick or without, that reaches a receiver with the
/// same session and key leaves the receiver with parts of the object only, and
/// this block among those that have arrived.
pub proof fn delivered_block_keeps_object(
    cfg: SendConfig,
    peer: crate::receiver::RecvConfig,
    contents: Seq<u8>,
    seq: u64,
    retransmit: bool,
    t: TickState,
    now: u64,
    before: crate::receiver::RecvState,
    after: crate::receiver::RecvState,
    stats_before: Stats,
    stats_after: Stats,
    sink_before: Seq<u8>,
    sink_after: Seq<u8>,
    reliable: bool,
    r: crate::receiver::PacketOutcome,
    depth: int,
)
    requires
        cfg.wf(),
        cfg.file_size == contents.len(),
        cfg.block_size <= u16::MAX,
        seq < cfg.total_blocks,
        taken_for_itself(cfg, block_payload(cfg, contents, seq), seq, retransmit),
        peer.session == cfg.session,
        peer.block_size == cfg.block_size,
        same_key(crate::receiver::box_of(cfg.crypto), crate::receiver::box_of(peer.crypto)),
        crate::receiver::handled(
            peer,
            stamped(
                t,
                now,
                block_pdu(cfg, block_payload(cfg, contents, seq), seq, retransmit),
            ),
            before,
            after,
            stats_before,
            stats_after,
            sink_before,
            sink_after,
            reliable,
            r,
        ),
        r matches crate::receiver::PacketOutcome::Block { write_error, .. } ==> write_error is None,
        before.wf(cfg.total_blocks as int, depth),
        crate::receiver::holds_object(before, sink_before, contents, cfg.block_size as int),
    ensures
        crate::receiver::holds_object(after, sink_after, contents, cfg.block_size as int),
        after.bits[seq as int],
        forall|i: int| 0 <= i < before.bits.len() && before.bits[i] ==> #[trigger] after.bits[i],
{
    delivered_verdict(
        cfg,
        crate::receiver::box_of(peer.crypto),
        contents,
        seq,
        retransmit,
        t,
        now,
    );
    crate::receiver::intact_block_keeps_object(
        peer,
        stamped(t, now, block_pdu(cfg, block_payload(cfg, contents, seq), seq, retransmit)),
        before,
        after,
        stats_before,
        stats_after,
        sink_before,
        sink_after,
        reliable,
        r,
        contents,
        seq,
        depth,
    );
}

/// Law: a datagram that is no intact block of the session, whatever it holds,
/// leaves the receiver's blocks and the sink as they were.
pub proof fn rejected_packet_changes_nothing(
    peer: crate::receiver::RecvConfig,
    pkt: Seq<u8>,
    before: crate::receiver::RecvState,
    after: crate::receiver::RecvState,
    stats_before: Stats,
    stats_after: Stats,
    sink_before: Seq<u8>,
    sink_after: Seq<u8>,
    reliable: bool,
    r: crate::receiver::PacketOutcome,
)
    requires
        !(crate::receiver::verdict(peer.session, crate::receiver::box_of(peer.crypto), pkt)
            is Block),
        crate::receiver::handled(
            peer,
            pkt,
            before,
            after,
            stats_before,
            stats_after,
            sink_before,
            sink_after,
            reliable,
            r,
        ),
    ensures
        after == (crate::receiver::RecvState { all_sent: after.all_sent, ..before }),
        sink_after == sink_before,
{
}

/// Law: a block in clear of whose payload one byte was changed on the way is
/// dropped as corrupt.
pub proof fn changed_block_is_corrupt(
    h: DataHeader,
    payload: Seq<u8>,
    changed: Seq<u8>,
    at: int,
)
    requires
        h.payload_len == payload.len(),
        h.payload_crc == crate::protocol::crc32c_of(payload),
        changed.len() == payload.len(),
        0 <= at < payload.len(),
        changed[at] != payload[at],
        forall|i: int| 0 <= i < payload.len() && i != at ==> changed[i] == payload[i],
    ensures
        crate::receiver::verdict(
            h.session,
            None,
            crate::protocol::data_header_bytes(h) + changed,
        ) is Corrupt,
{
    let pdu = crate::protocol::data_header_bytes(h) + changed;
    crate::protocol::data_header_round_trip(h, changed);
    assert(pdu.skip(DATA_HEADER_SIZE as int) =~= changed);
    assert(changed.take(changed.len() as int) =~= changed);
    crate::protocol::changed_byte_is_detected(changed, payload, at);
}

// --- laws over a whole injection --------------------------------------------

/// One batch of a transfer, and what led to it.
pub struct PaceStep {
    pub before: SendState,
    pub after: SendState,
    /// The PDUs that became ready since the batch before.
    pub fed: Seq<Prefetched>,
    /// The PDUs that were left for the next batch.
    pub rest: Seq<Prefetched>,
    /// Whether no more will become ready.
    pub closed: bool,
    pub to_send: int,
    pub now: u64,
    pub seqs: Seq<u64>,
    pub given: Map<u64, Seq<u8>>,
    /// The blocks that could not be read again.
    pub unread: Set<u64>,
    pub batch: Batch,
}

/// The batches of a transfer, one after the other. Between them feedback may come
/// in, and more PDUs may become ready.
pub struct Pacing {
    pub steps: Seq<PaceStep>,
}

impl Pacing {
    /// The PDUs that are waiting before batch `i`, but for those that become ready
    /// for it.
    pub open spec fn waiting(self, i: int) -> Seq<Prefetched> {
        if i == 0 {
            Seq::empty()
        } else {
            self.steps[i - 1].rest
        }
    }

    /// Whether batch `i` was built from what was waiting and what became ready.
    pub open spec fn built(self, cfg: SendConfig, i: int) -> bool {
        let s = self.steps[i];
        &&& is_batch(
            cfg,
            s.given,
            s.unread,
            s.before,
            s.after,
            self.waiting(i) + s.fed,
            s.rest,
            s.closed,
            s.to_send,
            s.now,
            s.seqs,
            s.batch,
        )
        &&& s.to_send <= MAX_BATCH
    }

    /// Whether batch `i` follows the one before: feedback does not touch what was
    /// injected, and once no more will become ready none does.
    pub open spec fn follows(self, i: int) -> bool {
        &&& self.steps[i].before.new_done == self.steps[i - 1].after.new_done
        &&& self.steps[i - 1].closed ==> self.steps[i].closed && self.steps[i].fed.len() == 0
    }

    /// Whether these can be the batches of a sender.
    pub open spec fn possible(self, cfg: SendConfig) -> bool {
        &&& self.steps.len() > 0 ==> !self.steps[0].before.new_done
        &&& forall|i: int| 0 <= i < self.steps.len() ==> #[trigger] self.built(cfg, i)
        &&& forall|i: int| 0 < i < self.steps.len() ==> #[trigger] self.follows(i)
    }

    /// All that became ready for the first `n` batches, in order.
    pub open spec fn fed_by(self, n: nat) -> Seq<Prefetched>
        decreases n,
    {
        if n == 0 {
            Seq::empty()
        } else {
            self.fed_by((n - 1) as nat) + self.steps[n - 1].fed
        }
    }

    /// The new blocks of batch `i`, as they became ready.
    pub open spec fn injected(self, i: int) -> Seq<Prefetched> {
        (self.waiting(i) + self.steps[i].fed).take(self.steps[i].batch.new_n as int)
    }

    /// The new blocks of the first `n` batches, in order.
    pub open spec fn injected_by(self, n: nat) -> Seq<Prefetched>
        decreases n,
    {
        if n == 0 {
            Seq::empty()
        } else {
            self.injected_by((n - 1) as nat) + self.injected(n - 1)
        }
    }

    /// Whether the `m`-th new block of batch `n` is the block whose number follows
    /// those of all new blocks before it, sent out with the batch's tick.
    pub open spec fn goes_on(self, cfg: SendConfig, n: nat, m: int) -> bool {
        let s = self.steps[n as int];
        let seq = self.injected_by(n).len() + m;
        let item = self.injected(n as int)[m];
        &&& seq < cfg.total_blocks
        &&& is_first_of(cfg, item, seq)
        &&& s.batch.packets@[s.batch.rex_n + m].pdu() == stamped(
            tick_for(s.before.tick, s.batch.rex_n + m),
            s.now,
            item.pdu(),
        )
    }
}

/// What one batch of a transfer does to the PDUs that are waiting.
#[verifier::spinoff_prover]
proof fn batch_moves_on(p: Pacing, cfg: SendConfig, i: int)
    requires
        p.possible(cfg),
        0 <= i < p.steps.len(),
    ensures
        p.waiting(i) + p.steps[i].fed == p.injected(i) + p.steps[i].rest,
        p.steps[i].after.new_done && !p.steps[i].before.new_done ==> p.steps[i].rest.len() == 0
            && p.steps[i].closed,
        p.steps[i].before.new_done ==> p.steps[i].rest == p.waiting(i) + p.steps[i].fed,
{
    assert(p.built(cfg, i));
    let s = p.steps[i];
    let ready = p.waiting(i) + s.fed;
    new_blocks_stay_in_order(
        cfg,
        s.given,
        s.unread,
        s.before,
        s.after,
        ready,
        s.rest,
        s.closed,
        s.to_send,
        s.now,
        s.seqs,
        s.batch,
    );
    assert(ready.skip(0) =~= ready);
}

/// Law: over all batches of a transfer every new block goes out once, in the order
/// in which it became ready, and none is lost: what was injected, followed by what
/// is waiting, is what became ready. Once every block counts as injected, nothing
/// is waiting and nothing more will come.
pub proof fn new_blocks_go_out_once(p: Pacing, cfg: SendConfig, n: nat)
    requires
        p.possible(cfg),
        n <= p.steps.len(),
    ensures
        p.injected_by(n) + p.waiting(n as int) == p.fed_by(n),
        n > 0 && p.steps[n - 1].after.new_done ==> p.steps[n - 1].closed && p.waiting(
            n as int,
        ).len() == 0,
    decreases n,
{
    if n == 0 {
        assert(p.injected_by(0) + p.waiting(0) =~= p.fed_by(0));
    } else {
        let i = n - 1;
        let s = p.steps[i];
        let sent = p.injected_by(i as nat);
        new_blocks_go_out_once(p, cfg, i as nat);
        batch_moves_on(p, cfg, i);
        assert((sent + p.injected(i)) + s.rest =~= sent + (p.injected(i) + s.rest));
        assert((sent + p.waiting(i)) + s.fed =~= sent + (p.waiting(i) + s.fed));
        if s.after.new_done && s.before.new_done {
            assert(i > 0);
            assert(p.follows(i));
        }
    }
}

/// Whether a PDU in the pool is the first transmission of block `seq`.
pub open spec fn is_first_of(cfg: SendConfig, item: Prefetched, seq: int) -> bool {
    exists|payload: Seq<u8>| item.pdu() == #[trigger] block_pdu(cfg, payload, seq as u64, false)
}

/// What a reader handed out from its first block on: `items`, one after the other,
/// and how it stood before and after each.
pub struct Readings {
    pub states: Seq<BlockReader>,
    pub items: Seq<Prefetched>,
}

impl Readings {
    /// Whether item `k` was handed out.
    pub open spec fn handed<S: BlockSource + ?Sized>(
        self,
        cfg: SendConfig,
        source: &S,
        k: int,
    ) -> bool {
        hands_out(cfg, source, self.states[k], self.states[k + 1], self.items[k])
    }

    /// Whether a reader can have handed these out.
    pub open spec fn possible<S: BlockSource + ?Sized>(self, cfg: SendConfig, source: &S) -> bool {
        &&& self.states.len() == self.items.len() + 1
        &&& self.states[0].next == 0
        &&& forall|k: int|
            0 <= k < self.items.len() ==> #[trigger] self.handed(cfg, source, k)
    }
}

/// Law: a reader hands out block 0, 1, 2 and so on, each once and none that does
/// not exist.
pub proof fn blocks_are_read_ascending<S: BlockSource + ?Sized>(
    read: Readings,
    cfg: SendConfig,
    source: &S,
    k: int,
)
    requires
        read.possible(cfg, source),
        0 <= k <= read.items.len(),
    ensures
        read.states[k].next == k,
        k < read.items.len() ==> k < cfg.total_blocks && is_first_of(cfg, read.items[k], k),
    decreases k,
{
    if k > 0 {
        blocks_are_read_ascending(read, cfg, source, k - 1);
        assert(read.handed(cfg, source, k - 1));
    }
    if k < read.items.len() {
        assert(read.handed(cfg, source, k));
        let item = read.items[k];
        let payload = choose|payload: Seq<u8>| #[trigger]
            is_given(cfg, source, k as u64, payload) && item.buf@.take(item.size as int)
                == block_pdu(cfg, payload, k as u64, false);
        assert(item.pdu() == block_pdu(cfg, payload, k as u64, false));
    }
}

/// Law: where what becomes ready is what a reader hands out, in that order, each
/// batch goes on where the last one ended: its new blocks are the next ones, each
/// block number goes out once, and no batch holds more than `MAX_BATCH` PDUs. A
/// FIN is due only when every block that became ready was injected and none more
/// will come.
#[verifier::spinoff_prover]
pub proof fn blocks_go_out_ascending<S: BlockSource + ?Sized>(
    p: Pacing,
    cfg: SendConfig,
    read: Readings,
    source: &S,
    n: nat,
)
    requires
        p.possible(cfg),
        n < p.steps.len(),
        read.possible(cfg, source),
        p.fed_by(n + 1).is_prefix_of(read.items),
    ensures
        ({
            let s = p.steps[n as int];
            let sent = p.injected_by(n).len();
            &&& s.batch.packets@.len() <= MAX_BATCH
            &&& forall|m: int| 0 <= m < s.batch.new_n ==> #[trigger] p.goes_on(cfg, n, m)
            &&& p.injected_by(n + 1).len() == sent + s.batch.new_n
            &&& s.after.new_done && s.after.rex == Set::<u64>::empty() ==> s.closed
                && p.injected_by(n + 1).len() == p.fed_by(n + 1).len()
        }),
{
    new_blocks_go_out_once(p, cfg, n + 1);
    assert(p.built(cfg, n as int));
    let s = p.steps[n as int];
    let sent = p.injected_by(n).len();
    let ready = p.waiting(n as int) + s.fed;
    if s.after.new_done {
        assert(p.injected_by(n + 1) + p.waiting(n as int + 1) =~= p.injected_by(n + 1));
    }
    assert forall|m: int| 0 <= m < s.batch.new_n implies #[trigger] p.goes_on(cfg, n, m) by {
        assert(p.injected_by(n + 1)[sent + m] == p.injected(n as int)[m]);
        assert((p.injected_by(n + 1) + p.waiting(n as int + 1))[sent + m] == p.fed_by(n + 1)[sent
            + m]);
        assert(p.fed_by(n + 1)[sent + m] == read.items[sent + m]);
        blocks_are_read_ascending(read, cfg, source, sent + m);
        assert(ready[m] == p.injected(n as int)[m]);
        assert(s.batch.packets@[s.batch.rex_n + m].wf());
    }
}

} // verus!
