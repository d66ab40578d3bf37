//! Wire protocol: PDU layouts, constants and CRC32C.
//!
//! All multi-byte fields are little-endian.

use crate::bytes::{get_u16, get_u32, get_u64, put_u16, put_u32, put_u64};
use vstd::prelude::*;

verus! {

/// Bumped on incompatible wire changes.
pub const PROTOCOL_VERSION: i64 = 1;

/// UDP payload (bytes) carried per DATA PDU. The total PDU (header + payload +
/// IP/UDP encapsulation) should stay under the path MTU to avoid
/// fragmentation; 1400 stays safely under an MTU of 1500.
pub const DEFAULT_BLOCK_SIZE: usize = 1400;

/// Fixed DATA PDU header length in bytes.
pub const DATA_HEADER_SIZE: usize = 36;

/// Type byte of a DATA PDU (sender to receiver).
pub const PDU_DATA: u8 = 1;

/// Type byte of a FEEDBACK PDU (receiver to sender).
pub const PDU_FEEDBACK: u8 = 2;

/// Type byte of a START PDU (receiver to sender, first contact).
pub const PDU_START: u8 = 5;

/// Type byte of a FIN PDU (sender to receiver).
pub const PDU_FIN: u8 = 4;

/// DATA flag: this PDU is a retransmission.
pub const FLAG_RETRANSMIT: u8 = 1;

/// DATA flag: tick type; set for network ("N"), clear for path ("P").
pub const FLAG_TICK_N: u8 = 2;

/// DATA flag: the echo tick field is valid.
pub const FLAG_HAS_TICK: u8 = 4;

/// DATA flag: this is the final block of the object.
pub const FLAG_LAST_BLOCK: u8 = 8;

/// Fixed FEEDBACK PDU header length in bytes.
pub const FEEDBACK_HEADER_SIZE: usize = 36;

/// Length in bytes of one NACK entry behind a FEEDBACK header.
pub const NACK_ENTRY_SIZE: usize = 16;

// --- CRC32C -----------------------------------------------------------------

/// The Castagnoli polynomial in reversed bit order.
pub const CASTAGNOLI: u32 = 0x82F6_3B78;

/// A checksum's state after `n` more bits of zeros.
pub open spec fn crc32c_shifted(state: u32, n: nat) -> u32
    decreases n,
{
    if n == 0 {
        state
    } else {
        let s = crc32c_shifted(state, (n - 1) as nat);
        if s % 2 == 0 {
            s / 2
        } else {
            (s / 2) ^ CASTAGNOLI
        }
    }
}

/// A checksum's state after the bytes `data`, from `state` on.
#[verifier::opaque]
pub open spec fn crc32c_state(state: u32, data: Seq<u8>) -> u32
    decreases data.len(),
{
    if data.len() == 0 {
        state
    } else {
        crc32c_shifted(crc32c_state(state, data.drop_last()) ^ (data.last() as u32), 8)
    }
}

/// The CRC32C (Castagnoli) checksum `crc` extended over `data`: the state is held
/// complemented.
pub open spec fn crc32c_extended(crc: u32, data: Seq<u8>) -> u32 {
    !crc32c_state(!crc, data)
}

/// The CRC32C checksum of a whole byte string.
pub open spec fn crc32c_of(data: Seq<u8>) -> u32 {
    crc32c_extended(0, data)
}

/// A state can be taken over two byte strings one after the other.
proof fn crc32c_state_splits(state: u32, a: Seq<u8>, b: Seq<u8>)
    ensures
        crc32c_state(crc32c_state(state, a), b) == crc32c_state(state, a + b),
    decreases b.len(),
{
    reveal(crc32c_state);
    if b.len() == 0 {
        assert(a + b =~= a);
    } else {
        crc32c_state_splits(state, a, b.drop_last());
        assert((a + b).drop_last() =~= a + b.drop_last());
    }
}

/// Law: a checksum can be taken in pieces. Extending by nothing changes nothing,
/// and extending the checksum of `a` by `b` gives that of `a` followed by `b`.
pub proof fn checksum_in_pieces(crc: u32, a: Seq<u8>, b: Seq<u8>)
    ensures
        crc32c_extended(crc, Seq::empty()) == crc,
        crc32c_extended(crc32c_extended(crc, a), b) == crc32c_extended(crc, a + b),
{
    reveal(crc32c_state);
    assert(!(!crc) == crc) by (bit_vector);
    let s = crc32c_state(!crc, a);
    assert(!(!s) == s) by (bit_vector);
    crc32c_state_splits(!crc, a, b);
}

/// Different states stay different under the same bits.
proof fn crc32c_shifted_keeps_apart(a: u32, b: u32, n: nat)
    requires
        a != b,
    ensures
        crc32c_shifted(a, n) != crc32c_shifted(b, n),
    decreases n,
{
    if n > 0 {
        crc32c_shifted_keeps_apart(a, b, (n - 1) as nat);
        let s = crc32c_shifted(a, (n - 1) as nat);
        let t = crc32c_shifted(b, (n - 1) as nat);
        assert(s != t ==> (if s % 2 == 0 {
            s / 2
        } else {
            (s / 2) ^ 0x82F6_3B78u32
        }) != (if t % 2 == 0 {
            t / 2
        } else {
            (t / 2) ^ 0x82F6_3B78u32
        })) by (bit_vector);
    }
}

/// The states of two byte strings that differ in one place differ.
proof fn crc32c_state_tells_apart(state: u32, a: Seq<u8>, b: Seq<u8>, at: int)
    requires
        a.len() == b.len(),
        0 <= at < a.len(),
        a[at] != b[at],
        forall|i: int| 0 <= i < a.len() && i != at ==> a[i] == b[i],
    ensures
        crc32c_state(state, a) != crc32c_state(state, b),
    decreases a.len(),
{
    reveal(crc32c_state);
    let s = crc32c_state(state, a.drop_last());
    let t = crc32c_state(state, b.drop_last());
    let x = a.last();
    let y = b.last();
    if at == a.len() - 1 {
        assert(a.drop_last() =~= b.drop_last());
        assert(x != y ==> s ^ (x as u32) != s ^ (y as u32)) by (bit_vector);
    } else {
        crc32c_state_tells_apart(state, a.drop_last(), b.drop_last(), at);
        assert(s != t ==> s ^ (x as u32) != t ^ (x as u32)) by (bit_vector);
    }
    crc32c_shifted_keeps_apart(s ^ (x as u32), t ^ (y as u32), 8);
}

/// Law: a checksum tells of one changed byte, wherever it stands.
pub proof fn changed_byte_is_detected(a: Seq<u8>, b: Seq<u8>, at: int)
    requires
        a.len() == b.len(),
        0 <= at < a.len(),
        a[at] != b[at],
        forall|i: int| 0 <= i < a.len() && i != at ==> a[i] == b[i],
    ensures
        crc32c_of(a) != crc32c_of(b),
{
    crc32c_state_tells_apart(!0u32, a, b, at);
    let s = crc32c_state(!0u32, a);
    let t = crc32c_state(!0u32, b);
    assert(s != t ==> !s != !t) by (bit_vector);
}

/// Calls `crc32c::crc32c`, the CRC32C checksum of a byte string.
#[verifier::external_body]
fn castagnoli(b: &[u8]) -> (r: u32)
    ensures
        r == crc32c_of(b@),
{
    crc32c::crc32c(b)
}

/// Calls `crc32c::crc32c_append`, which extends a CRC32C checksum over a byte
/// string.
#[verifier::external_body]
fn castagnoli_append(crc: u32, b: &[u8]) -> (r: u32)
    ensures
        r == crc32c_extended(crc, b@),
{
    crc32c::crc32c_append(crc, b)
}

/// CRC32C (Castagnoli) of `b`.
pub fn crc32c(b: &[u8]) -> (r: u32)
    ensures
        r == crc32c_of(b@),
{
    castagnoli(b)
}

/// Running CRC32C accumulator for the whole-object integrity check.
///
/// A checksum can be taken in pieces: where `crc` covers `a`, the result covers
/// `a` followed by `b`.
pub fn crc32c_append(crc: u32, b: &[u8]) -> (r: u32)
    ensures
        r == crc32c_extended(crc, b@),
        b@.len() == 0 ==> r == crc,
        forall|prev: u32, a: Seq<u8>|
            crc == #[trigger] crc32c_extended(prev, a) ==> r == crc32c_extended(prev, a + b@),
{
    proof {
        assert(b@.len() == 0 ==> b@ =~= Seq::empty());
        checksum_in_pieces(crc, b@, b@);
        assert forall|prev: u32, a: Seq<u8>| crc == #[trigger] crc32c_extended(prev, a) implies
            crc32c_extended(crc, b@) == crc32c_extended(prev, a + b@) by {
            checksum_in_pieces(prev, a, b@);
        }
    }
    castagnoli_append(crc, b)
}

// --- DATA PDU ---------------------------------------------------------------

/// Header of a DATA PDU. On the wire:
///
/// ```text
///   [0]      type (=1)
///   [1]      flags
///   [2:4]    payload_len   u16
///   [4:8]    session       u32
///   [8:16]   block_seq     u64   (0-based block index)
///   [16:24]  echo_tick     u64   (valid if FLAG_HAS_TICK; receiver-clock micros)
///   [24:32]  rex_index     i64   (receiver loss-table index)
///   [32:36]  payload_crc   u32   (CRC32C of payload)
///   [36:]    payload
/// ```
#[derive(Debug, Clone, Copy, PartialEq, Eq, Structural)]
pub struct DataHeader {
    pub flags: u8,
    pub payload_len: u16,
    pub session: u32,
    pub block_seq: u64,
    pub echo_tick: u64,
    pub rex_index: i64,
    pub payload_crc: u32,
}

impl Default for DataHeader {
    fn default() -> (r: Self)
        ensures
            r == (DataHeader {
                flags: 0,
                payload_len: 0,
                session: 0,
                block_seq: 0,
                echo_tick: 0,
                rex_index: 0,
                payload_crc: 0,
            }),
    {
        DataHeader {
            flags: 0,
            payload_len: 0,
            session: 0,
            block_seq: 0,
            echo_tick: 0,
            rex_index: 0,
            payload_crc: 0,
        }
    }
}

/// The wire form of a DATA header.
pub open spec fn data_header_bytes(h: DataHeader) -> Seq<u8> {
    seq![PDU_DATA, h.flags] + crate::bytes::le16(h.payload_len) + crate::bytes::le32(h.session)
        + crate::bytes::le64(h.block_seq) + crate::bytes::le64(h.echo_tick) + crate::bytes::le64(
        crate::bytes::bits_of_i64(h.rex_index),
    ) + crate::bytes::le32(h.payload_crc)
}

/// What a receiver makes of a datagram taken as a DATA PDU: nothing when it is
/// shorter than a header or of another type.
pub open spec fn parsed_data_header(buf: Seq<u8>) -> Option<DataHeader> {
    if buf.len() < DATA_HEADER_SIZE || buf[0] != PDU_DATA {
        None
    } else {
        Some(
            DataHeader {
                flags: buf[1],
                payload_len: crate::bytes::le16_at(buf, 2),
                session: crate::bytes::le32_at(buf, 4),
                block_seq: crate::bytes::le64_at(buf, 8),
                echo_tick: crate::bytes::le64_at(buf, 16),
                rex_index: crate::bytes::i64_of_bits(crate::bytes::le64_at(buf, 24)),
                payload_crc: crate::bytes::le32_at(buf, 32),
            },
        )
    }
}

/// Writes the header into `buf[..DATA_HEADER_SIZE]`.
pub fn encode_data_header(buf: &mut [u8], h: &DataHeader)
    requires
        old(buf)@.len() >= DATA_HEADER_SIZE,
    ensures
        final(buf)@ == data_header_bytes(*h) + old(buf)@.skip(DATA_HEADER_SIZE as int),
{
    buf[0] = PDU_DATA;
    buf[1] = h.flags;
    put_u16(buf, 2, h.payload_len);
    put_u32(buf, 4, h.session);
    put_u64(buf, 8, h.block_seq);
    put_u64(buf, 16, h.echo_tick);
    put_u64(buf, 24, h.rex_index as u64);
    put_u32(buf, 32, h.payload_crc);
}

/// Parses a DATA header. Returns `None` if `buf` is too short or not a DATA PDU.
pub fn decode_data_header(buf: &[u8]) -> (r: Option<DataHeader>)
    ensures
        r == parsed_data_header(buf@),
{
    if buf.len() < DATA_HEADER_SIZE || buf[0] != PDU_DATA {
        return None;
    }
    Some(
        DataHeader {
            flags: buf[1],
            payload_len: get_u16(buf, 2),
            session: get_u32(buf, 4),
            block_seq: get_u64(buf, 8),
            echo_tick: get_u64(buf, 16),
            rex_index: get_u64(buf, 24) as i64,
            payload_crc: get_u32(buf, 32),
        },
    )
}

/// Law: a DATA header is read back from its wire form, whatever payload follows.
pub proof fn data_header_round_trip(h: DataHeader, payload: Seq<u8>)
    ensures
        data_header_bytes(h).len() == DATA_HEADER_SIZE,
        parsed_data_header(data_header_bytes(h) + payload) == Some(h),
{
    let s = data_header_bytes(h) + payload;
    assert(s.subrange(2, 4) =~= crate::bytes::le16(h.payload_len));
    assert(s.subrange(4, 8) =~= crate::bytes::le32(h.session));
    assert(s.subrange(8, 16) =~= crate::bytes::le64(h.block_seq));
    assert(s.subrange(16, 24) =~= crate::bytes::le64(h.echo_tick));
    let bits = crate::bytes::bits_of_i64(h.rex_index);
    assert(s.subrange(24, 32) =~= crate::bytes::le64(bits));
    assert(s.subrange(32, 36) =~= crate::bytes::le32(h.payload_crc));
    crate::bytes::le16_round_trip(h.payload_len, s, 2);
    crate::bytes::le32_round_trip(h.session, s, 4);
    crate::bytes::le64_round_trip(h.block_seq, s, 8);
    crate::bytes::le64_round_trip(h.echo_tick, s, 16);
    crate::bytes::le64_round_trip(bits, s, 24);
    crate::bytes::le32_round_trip(h.payload_crc, s, 32);
    crate::bytes::i64_bits_round_trip(h.rex_index);
}

/// Writes the 8-byte echo tick at the DATA header's tick slot, in an
/// already-built PDU.
pub fn put_echo_tick(buf: &mut [u8], v: u64)
    requires
        old(buf)@.len() >= 24,
    ensures
        final(buf)@ == crate::bytes::splice(old(buf)@, 16, crate::bytes::le64(v)),
{
    put_u64(buf, 16, v);
}

// --- FEEDBACK PDU -----------------------------------------------------------

/// Header of a FEEDBACK PDU. On the wire:
///
/// ```text
///   [0]      type (=2)
///   [1]      flags (bit1 => tick type N, else P)
///   [2:4]    nack_count    u16
///   [4:8]    session       u32
///   [8:16]   tick          u64
///   [16:24]  target_rate   u64
///   [24:32]  hi_contig     u64
///   [32]     done          u8
///   [33:36]  pad
///   [36:]    nack_count * { block_seq u64 ; rex_index i64 }
/// ```
#[derive(Debug, Clone, Copy, PartialEq, Eq, Structural)]
pub struct FeedbackHeader {
    pub tick_is_network: bool,
    pub nack_count: u16,
    pub session: u32,
    pub tick: u64,
    pub target_rate: u64,
    pub hi_contig: u64,
    pub done: bool,
}

impl Default for FeedbackHeader {
    fn default() -> (r: Self)
        ensures
            r == (FeedbackHeader {
                tick_is_network: false,
                nack_count: 0,
                session: 0,
                tick: 0,
                target_rate: 0,
                hi_contig: 0,
                done: false,
            }),
    {
        FeedbackHeader {
            tick_is_network: false,
            nack_count: 0,
            session: 0,
            tick: 0,
            target_rate: 0,
            hi_contig: 0,
            done: false,
        }
    }
}

/// One retransmission request behind a FEEDBACK header.
#[derive(Debug, Clone, Copy, PartialEq, Eq, Structural)]
pub struct NackEntry {
    pub block_seq: u64,
    pub rex_index: i64,
}

/// The wire form of a FEEDBACK header that announces `count` NACK entries. The
/// header's own `nack_count` is not written: the count comes from the entries.
pub open spec fn feedback_header_bytes(h: FeedbackHeader, count: u16) -> Seq<u8> {
    seq![
        PDU_FEEDBACK,
        if h.tick_is_network {
            FLAG_TICK_N
        } else {
            0u8
        },
    ] + crate::bytes::le16(count) + crate::bytes::le32(h.session) + crate::bytes::le64(h.tick)
        + crate::bytes::le64(h.target_rate) + crate::bytes::le64(h.hi_contig) + seq![
        if h.done {
            1u8
        } else {
            0u8
        },
        0u8,
        0u8,
        0u8,
    ]
}

/// The wire form of one NACK entry.
pub open spec fn nack_bytes(n: NackEntry) -> Seq<u8> {
    crate::bytes::le64(n.block_seq) + crate::bytes::le64(crate::bytes::bits_of_i64(n.rex_index))
}

/// The wire form of a list of NACK entries.
pub open spec fn nacks_bytes(nacks: Seq<NackEntry>) -> Seq<u8>
    decreases nacks.len(),
{
    if nacks.len() == 0 {
        Seq::empty()
    } else {
        nacks_bytes(nacks.drop_last()) + nack_bytes(nacks.last())
    }
}

/// The wire form of a FEEDBACK PDU. The count field keeps the low 16 bits of
/// the number of entries.
pub open spec fn feedback_bytes(h: FeedbackHeader, nacks: Seq<NackEntry>) -> Seq<u8> {
    feedback_header_bytes(h, nacks.len() as u16) + nacks_bytes(nacks)
}

/// The NACK entry at `buf[off..off + 16]`.
pub open spec fn parsed_nack(buf: Seq<u8>, off: int) -> NackEntry {
    NackEntry {
        block_seq: crate::bytes::le64_at(buf, off),
        rex_index: crate::bytes::i64_of_bits(crate::bytes::le64_at(buf, off + 8)),
    }
}

/// What a sender makes of a datagram taken as a FEEDBACK PDU: nothing when it is
/// of another type, shorter than a header, or shorter than its NACK count says.
pub open spec fn parsed_feedback(buf: Seq<u8>) -> Option<(FeedbackHeader, Seq<NackEntry>)> {
    if buf.len() < FEEDBACK_HEADER_SIZE || buf[0] != PDU_FEEDBACK {
        None
    } else {
        let count = crate::bytes::le16_at(buf, 2);
        if buf.len() < FEEDBACK_HEADER_SIZE + count * NACK_ENTRY_SIZE {
            None
        } else {
            Some(
                (
                    FeedbackHeader {
                        tick_is_network: buf[1] & FLAG_TICK_N != 0,
                        nack_count: count,
                        session: crate::bytes::le32_at(buf, 4),
                        tick: crate::bytes::le64_at(buf, 8),
                        target_rate: crate::bytes::le64_at(buf, 16),
                        hi_contig: crate::bytes::le64_at(buf, 24),
                        done: buf[32] == 1,
                    },
                    Seq::new(
                        count as nat,
                        |i: int| parsed_nack(buf, FEEDBACK_HEADER_SIZE + i * NACK_ENTRY_SIZE),
                    ),
                ),
            )
        }
    }
}

/// Sixteen bytes per NACK entry.
pub proof fn nacks_bytes_len(nacks: Seq<NackEntry>)
    ensures
        nacks_bytes(nacks).len() == nacks.len() * NACK_ENTRY_SIZE,
    decreases nacks.len(),
{
    if nacks.len() > 0 {
        nacks_bytes_len(nacks.drop_last());
    }
}

/// Entry `i` of a NACK list stands at byte `16 * i` of its wire form.
proof fn nacks_bytes_entry(nacks: Seq<NackEntry>, i: int)
    requires
        0 <= i < nacks.len(),
    ensures
        nacks_bytes(nacks).len() == nacks.len() * NACK_ENTRY_SIZE,
        nacks_bytes(nacks).subrange(i * NACK_ENTRY_SIZE, (i + 1) * NACK_ENTRY_SIZE) == nack_bytes(
            nacks[i],
        ),
    decreases nacks.len(),
{
    nacks_bytes_len(nacks);
    nacks_bytes_len(nacks.drop_last());
    let whole = nacks_bytes(nacks);
    let init = nacks_bytes(nacks.drop_last());
    if i == nacks.len() - 1 {
        assert(whole.subrange(i * NACK_ENTRY_SIZE, (i + 1) * NACK_ENTRY_SIZE) =~= nack_bytes(
            nacks[i],
        ));
    } else {
        nacks_bytes_entry(nacks.drop_last(), i);
        assert(whole.subrange(i * NACK_ENTRY_SIZE, (i + 1) * NACK_ENTRY_SIZE) =~= init.subrange(
            i * NACK_ENTRY_SIZE,
            (i + 1) * NACK_ENTRY_SIZE,
        ));
    }
}

/// Encodes a feedback header followed by `nacks`, returning total length.
pub fn encode_feedback(buf: &mut [u8], h: &FeedbackHeader, nacks: &[NackEntry]) -> (r: usize)
    requires
        old(buf)@.len() >= FEEDBACK_HEADER_SIZE + nacks@.len() * NACK_ENTRY_SIZE,
    ensures
        r == FEEDBACK_HEADER_SIZE + nacks@.len() * NACK_ENTRY_SIZE,
        final(buf)@ == feedback_bytes(*h, nacks@) + old(buf)@.skip(r as int),
{
    let ghost before = buf@;
    let room: usize = buf.len();
    let count: u16 = #[verifier::truncate] (nacks.len() as u16);
    buf[0] = PDU_FEEDBACK;
    buf[1] = if h.tick_is_network {
        FLAG_TICK_N
    } else {
        0
    };
    put_u16(buf, 2, count);
    put_u32(buf, 4, h.session);
    put_u64(buf, 8, h.tick);
    put_u64(buf, 16, h.target_rate);
    put_u64(buf, 24, h.hi_contig);
    buf[32] = if h.done {
        1
    } else {
        0
    };
    buf[33] = 0;
    buf[34] = 0;
    buf[35] = 0;
    let ghost header = feedback_header_bytes(*h, count);
    assert(buf@ =~= header + before.skip(36));
    let mut off: usize = FEEDBACK_HEADER_SIZE;
    let mut i: usize = 0;
    assert(nacks@.take(0) =~= Seq::empty());
    while i < nacks.len()
        invariant
            i <= nacks@.len(),
            room == before.len(),
            off == FEEDBACK_HEADER_SIZE + i * NACK_ENTRY_SIZE,
            before.len() >= FEEDBACK_HEADER_SIZE + nacks@.len() * NACK_ENTRY_SIZE,
            header.len() == FEEDBACK_HEADER_SIZE,
            buf@ == header + nacks_bytes(nacks@.take(i as int)) + before.skip(off as int),
        decreases nacks@.len() - i,
    {
        let ghost prior = buf@;
        proof {
            nacks_bytes_len(nacks@.take(i as int));
            assert(nacks@.take(i + 1).drop_last() =~= nacks@.take(i as int));
        }
        put_u64(buf, off, nacks[i].block_seq);
        put_u64(buf, off + 8, nacks[i].rex_index as u64);
        off = off + NACK_ENTRY_SIZE;
        i = i + 1;
        assert(buf@ =~= header + nacks_bytes(nacks@.take(i as int)) + before.skip(off as int));
    }
    assert(nacks@.take(i as int) =~= nacks@);
    off
}

/// Decodes a feedback PDU. Returns `None` on a malformed or short buffer.
pub fn decode_feedback(buf: &[u8]) -> (r: Option<(FeedbackHeader, Vec<NackEntry>)>)
    ensures
        match r {
            None => parsed_feedback(buf@) is None,
            Some((h, nacks)) => parsed_feedback(buf@) == Some((h, nacks@)),
        },
{
    if buf.len() < FEEDBACK_HEADER_SIZE || buf[0] != PDU_FEEDBACK {
        return None;
    }
    let count: u16 = get_u16(buf, 2);
    let h = FeedbackHeader {
        tick_is_network: buf[1] & FLAG_TICK_N != 0,
        nack_count: count,
        session: get_u32(buf, 4),
        tick: get_u64(buf, 8),
        target_rate: get_u64(buf, 16),
        hi_contig: get_u64(buf, 24),
        done: buf[32] == 1,
    };
    let need: usize = FEEDBACK_HEADER_SIZE + count as usize * NACK_ENTRY_SIZE;
    if buf.len() < need {
        return None;
    }
    let mut nacks: Vec<NackEntry> = Vec::with_capacity(count as usize);
    let mut off: usize = FEEDBACK_HEADER_SIZE;
    let mut i: u16 = 0;
    while i < count
        invariant
            i <= count,
            off == FEEDBACK_HEADER_SIZE + i * NACK_ENTRY_SIZE,
            buf@.len() >= FEEDBACK_HEADER_SIZE + count * NACK_ENTRY_SIZE,
            nacks@ == Seq::new(
                i as nat,
                |j: int| parsed_nack(buf@, FEEDBACK_HEADER_SIZE + j * NACK_ENTRY_SIZE),
            ),
        decreases count - i,
    {
        nacks.push(
            NackEntry { block_seq: get_u64(buf, off), rex_index: get_u64(buf, off + 8) as i64 },
        );
        off = off + NACK_ENTRY_SIZE;
        i = i + 1;
    }
    Some((h, nacks))
}

/// Each entry of a FEEDBACK PDU is read back from its place.
#[verifier::spinoff_prover]
proof fn entry_is_read_back(h: FeedbackHeader, nacks: Seq<NackEntry>, rest: Seq<u8>, i: int)
    requires
        nacks.len() <= u16::MAX,
        0 <= i < nacks.len(),
    ensures
        parsed_nack(
            feedback_bytes(h, nacks) + rest,
            FEEDBACK_HEADER_SIZE + i * NACK_ENTRY_SIZE,
        ) == nacks[i],
{
    let s = feedback_bytes(h, nacks) + rest;
    let head = feedback_header_bytes(h, nacks.len() as u16);
    assert(head.len() == FEEDBACK_HEADER_SIZE);
    nacks_bytes_len(nacks);
    nacks_bytes_entry(nacks, i);
    let off = FEEDBACK_HEADER_SIZE + i * NACK_ENTRY_SIZE;
    let all = nacks_bytes(nacks);
    let one = all.subrange(i * NACK_ENTRY_SIZE, (i + 1) * NACK_ENTRY_SIZE);
    let bits = crate::bytes::bits_of_i64(nacks[i].rex_index);
    assert(s =~= head + all + rest);
    assert(s.subrange(off, off + 16) =~= one);
    assert(s.subrange(off, off + 8) =~= one.subrange(0, 8));
    assert(one.subrange(0, 8) =~= crate::bytes::le64(nacks[i].block_seq));
    assert(s.subrange(off + 8, off + 16) =~= one.subrange(8, 16));
    assert(one.subrange(8, 16) =~= crate::bytes::le64(bits));
    crate::bytes::le64_round_trip(nacks[i].block_seq, s, off);
    crate::bytes::le64_round_trip(bits, s, off + 8);
    crate::bytes::i64_bits_round_trip(nacks[i].rex_index);
}

/// Law: a FEEDBACK PDU is read back from its wire form, whatever follows it. The
/// count that comes out is the number of entries. The count field holds 16 bits,
/// so a list longer than that does not come back.
#[verifier::spinoff_prover]
#[verifier::rlimit(60)]
pub proof fn feedback_round_trip(h: FeedbackHeader, nacks: Seq<NackEntry>, rest: Seq<u8>)
    requires
        nacks.len() <= u16::MAX,
    ensures
        feedback_bytes(h, nacks).len() == FEEDBACK_HEADER_SIZE + nacks.len() * NACK_ENTRY_SIZE,
        parsed_feedback(feedback_bytes(h, nacks) + rest) == Some(
            (FeedbackHeader { nack_count: nacks.len() as u16, ..h }, nacks),
        ),
{
    let count = nacks.len() as u16;
    let s = feedback_bytes(h, nacks) + rest;
    nacks_bytes_len(nacks);
    assert(s.subrange(2, 4) =~= crate::bytes::le16(count));
    assert(s.subrange(4, 8) =~= crate::bytes::le32(h.session));
    assert(s.subrange(8, 16) =~= crate::bytes::le64(h.tick));
    assert(s.subrange(16, 24) =~= crate::bytes::le64(h.target_rate));
    assert(s.subrange(24, 32) =~= crate::bytes::le64(h.hi_contig));
    crate::bytes::le16_round_trip(count, s, 2);
    crate::bytes::le32_round_trip(h.session, s, 4);
    crate::bytes::le64_round_trip(h.tick, s, 8);
    crate::bytes::le64_round_trip(h.target_rate, s, 16);
    crate::bytes::le64_round_trip(h.hi_contig, s, 24);
    assert(2u8 & 2u8 != 0 && 0u8 & 2u8 == 0) by (bit_vector);
    assert(s[1] == (if h.tick_is_network { FLAG_TICK_N } else { 0u8 }));
    let parsed = Seq::new(
        count as nat,
        |i: int| parsed_nack(s, FEEDBACK_HEADER_SIZE + i * NACK_ENTRY_SIZE),
    );
    assert forall|i: int| 0 <= i < nacks.len() implies parsed[i] == #[trigger] nacks[i] by {
        entry_is_read_back(h, nacks, rest, i);
    }
    assert(parsed =~= nacks);
}

// --- START / FIN PDUs -------------------------------------------------------

/// The wire form of a START PDU.
pub open spec fn start_bytes(session: u32) -> Seq<u8> {
    seq![PDU_START, 0u8, 0u8, 0u8] + crate::bytes::le32(session)
}

/// The wire form of a FIN PDU.
pub open spec fn fin_bytes(session: u32, total_blocks: u64) -> Seq<u8> {
    seq![PDU_FIN, 0u8, 0u8, 0u8] + crate::bytes::le32(session) + crate::bytes::le64(total_blocks)
}

/// START (receiver to sender, first contact). Returns bytes written.
pub fn encode_start(buf: &mut [u8], session: u32) -> (r: usize)
    requires
        old(buf)@.len() >= 8,
    ensures
        r == 8,
        final(buf)@ == start_bytes(session) + old(buf)@.skip(8),
{
    buf[0] = PDU_START;
    buf[1] = 0;
    buf[2] = 0;
    buf[3] = 0;
    put_u32(buf, 4, session);
    8
}

/// FIN (sender to receiver: every new block was injected at least once).
/// Returns bytes written.
pub fn encode_fin(buf: &mut [u8], session: u32, total_blocks: u64) -> (r: usize)
    requires
        old(buf)@.len() >= 16,
    ensures
        r == 16,
        final(buf)@ == fin_bytes(session, total_blocks) + old(buf)@.skip(16),
{
    buf[0] = PDU_FIN;
    buf[1] = 0;
    buf[2] = 0;
    buf[3] = 0;
    put_u32(buf, 4, session);
    put_u64(buf, 8, total_blocks);
    16
}

/// The session of a datagram taken as a START PDU.
pub open spec fn parsed_start(buf: Seq<u8>) -> Option<u32> {
    if buf.len() < 8 || buf[0] != PDU_START {
        None
    } else {
        Some(crate::bytes::le32_at(buf, 4))
    }
}

/// The session and block count of a datagram taken as a FIN PDU.
pub open spec fn parsed_fin(buf: Seq<u8>) -> Option<(u32, u64)> {
    if buf.len() < 16 || buf[0] != PDU_FIN {
        None
    } else {
        Some((crate::bytes::le32_at(buf, 4), crate::bytes::le64_at(buf, 8)))
    }
}

/// Parses a START PDU, giving its session. Returns `None` if `buf` is too short
/// or not a START PDU.
pub fn decode_start(buf: &[u8]) -> (r: Option<u32>)
    ensures
        r == parsed_start(buf@),
{
    if buf.len() < 8 || buf[0] != PDU_START {
        return None;
    }
    Some(get_u32(buf, 4))
}

/// Parses a FIN PDU, giving its session and block count. Returns `None` if
/// `buf` is too short or not a FIN PDU.
pub fn decode_fin(buf: &[u8]) -> (r: Option<(u32, u64)>)
    ensures
        r == parsed_fin(buf@),
{
    if buf.len() < 16 || buf[0] != PDU_FIN {
        return None;
    }
    Some((get_u32(buf, 4), get_u64(buf, 8)))
}

/// Law: START and FIN PDUs are read back from their wire forms, whatever
/// follows.
pub proof fn start_and_fin_round_trip(session: u32, total_blocks: u64, rest: Seq<u8>)
    ensures
        start_bytes(session).len() == 8,
        fin_bytes(session, total_blocks).len() == 16,
        parsed_start(start_bytes(session) + rest) == Some(session),
        parsed_fin(fin_bytes(session, total_blocks) + rest) == Some((session, total_blocks)),
{
    let s = start_bytes(session) + rest;
    let f = fin_bytes(session, total_blocks) + rest;
    assert(s.subrange(4, 8) =~= crate::bytes::le32(session));
    assert(f.subrange(4, 8) =~= crate::bytes::le32(session));
    assert(f.subrange(8, 16) =~= crate::bytes::le64(total_blocks));
    crate::bytes::le32_round_trip(session, s, 4);
    crate::bytes::le32_round_trip(session, f, 4);
    crate::bytes::le64_round_trip(total_blocks, f, 8);
}

/// Law: no datagram is accepted as PDUs of two types.
pub proof fn pdu_types_are_exclusive(buf: Seq<u8>)
    ensures
        parsed_data_header(buf) is Some ==> parsed_feedback(buf) is None && parsed_start(buf) is None
            && parsed_fin(buf) is None,
        parsed_feedback(buf) is Some ==> parsed_start(buf) is None && parsed_fin(buf) is None,
        parsed_start(buf) is Some ==> parsed_fin(buf) is None,
{
}

/// The type byte of a datagram; 0 for an empty one.
pub open spec fn pdu_type_of(buf: Seq<u8>) -> u8 {
    if buf.len() == 0 {
        0
    } else {
        buf[0]
    }
}

/// Returns the type byte (0 if empty).
pub fn pdu_type(buf: &[u8]) -> (r: u8)
    ensures
        r == pdu_type_of(buf@),
{
    if buf.len() == 0 {
        0
    } else {
        buf[0]
    }
}

// --- blocks -----------------------------------------------------------------

/// The number of blocks of `block_size` bytes that `size` bytes fill, the last
/// one possibly in part.
pub open spec fn blocks_for(size: int, block_size: int) -> int {
    if size <= 0 {
        0
    } else {
        (size + block_size - 1) / block_size
    }
}

/// Number of fixed-size blocks for an object of `size` bytes.
pub fn num_blocks(size: i64, block_size: usize) -> (r: u64)
    requires
        block_size > 0,
    ensures
        r == blocks_for(size as int, block_size as int),
{
    if size <= 0 {
        return 0;
    }
    let n: u64 = size as u64;
    let b: u64 = block_size as u64;
    let q: u64 = n / b;
    proof {
        blocks_by_division(n as int, b as int);
    }
    if n % b == 0 {
        q
    } else {
        q + 1
    }
}

/// Rounding a quotient up, by quotient and remainder.
pub proof fn blocks_by_division(n: int, b: int)
    requires
        n > 0,
        b > 0,
    ensures
        n % b == 0 ==> (n + b - 1) / b == n / b,
        n % b != 0 ==> (n + b - 1) / b == n / b + 1,
        n / b <= n,
        n % b != 0 ==> n / b + 1 <= n,
{
    let q = n / b;
    let r = n % b;
    vstd::arithmetic::div_mod::lemma_fundamental_div_mod(n, b);
    vstd::arithmetic::div_mod::lemma_mod_bound(n, b);
    if r == 0 {
        assert(n + b - 1 == q * b + (b - 1)) by (nonlinear_arith)
            requires
                n == b * q + r,
                r == 0,
        ;
        vstd::arithmetic::div_mod::lemma_fundamental_div_mod_converse(n + b - 1, b, q, b - 1);
    } else {
        assert(n + b - 1 == (q + 1) * b + (r - 1)) by (nonlinear_arith)
            requires
                n == b * q + r,
        ;
        vstd::arithmetic::div_mod::lemma_fundamental_div_mod_converse(n + b - 1, b, q + 1, r - 1);
    }
    assert(q <= n && (r != 0 ==> q + 1 <= n)) by (nonlinear_arith)
        requires
            n == b * q + r,
            b > 0,
            0 <= r < b,
            n > 0,
    ;
}

/// Law: the blocks of an object cover it and no block is empty. Block `i` of
/// `n` starts inside the object, and `n` blocks reach its end.
pub proof fn blocks_cover(size: int, block_size: int)
    requires
        size > 0,
        block_size > 0,
    ensures
        blocks_for(size, block_size) >= 1,
        (blocks_for(size, block_size) - 1) * block_size < size,
        size <= blocks_for(size, block_size) * block_size,
{
    let n = blocks_for(size, block_size);
    vstd::arithmetic::div_mod::lemma_fundamental_div_mod(size + block_size - 1, block_size);
    vstd::arithmetic::div_mod::lemma_mod_bound(size + block_size - 1, block_size);
    let r = (size + block_size - 1) % block_size;
    assert(n >= 1 && (n - 1) * block_size < size && size <= n * block_size) by (nonlinear_arith)
        requires
            size + block_size - 1 == block_size * n + r,
            0 <= r < block_size,
            size > 0,
    ;
}

/// The length of block `seq` of an object of `size` bytes: a full block, or
/// what is left of the object.
pub open spec fn block_len(size: int, block_size: int, seq: int) -> int {
    if size - seq * block_size < block_size {
        size - seq * block_size
    } else {
        block_size
    }
}

/// The bytes of block `seq` of an object.
pub open spec fn block_of(data: Seq<u8>, block_size: int, seq: int) -> Seq<u8> {
    data.subrange(
        seq * block_size,
        seq * block_size + block_len(data.len() as int, block_size, seq),
    )
}

/// A block of an object starts and ends inside it, and is not empty.
pub proof fn block_in_bounds(size: int, block_size: int, seq: int)
    requires
        block_size > 0,
        0 <= seq < blocks_for(size, block_size),
    ensures
        0 <= seq * block_size < size,
        0 < block_len(size, block_size, seq) <= block_size,
        seq * block_size + block_len(size, block_size, seq) <= size,
{
    blocks_cover(size, block_size);
    let n = blocks_for(size, block_size);
    assert(0 <= seq * block_size <= (n - 1) * block_size) by (nonlinear_arith)
        requires
            0 <= seq <= n - 1,
            block_size > 0,
    ;
}

/// Law: the blocks of an object are disjoint and put together they are the
/// object. Byte `i` stands in block `i / block_size` and in no other.
pub proof fn blocks_partition(data: Seq<u8>, block_size: int, i: int, seq: int)
    requires
        block_size > 0,
        0 <= i < data.len(),
    ensures
        0 <= i / block_size < blocks_for(data.len() as int, block_size),
        0 <= i % block_size < block_of(data, block_size, i / block_size).len(),
        block_of(data, block_size, i / block_size)[i % block_size] == data[i],
        seq * block_size <= i < seq * block_size + block_len(
            data.len() as int,
            block_size,
            seq,
        ) ==> seq == i / block_size,
{
    let size = data.len() as int;
    let n = blocks_for(size, block_size);
    let q = i / block_size;
    vstd::arithmetic::div_mod::lemma_fundamental_div_mod(i, block_size);
    vstd::arithmetic::div_mod::lemma_mod_bound(i, block_size);
    blocks_cover(size, block_size);
    assert(0 <= q < n) by (nonlinear_arith)
        requires
            i == block_size * q + i % block_size,
            0 <= i % block_size < block_size,
            0 <= i < size,
            size <= n * block_size,
            block_size > 0,
    ;
    assert(q * block_size == block_size * q) by (nonlinear_arith);
    block_in_bounds(size, block_size, q);
    if seq * block_size <= i < seq * block_size + block_len(size, block_size, seq) {
        assert(seq == q) by (nonlinear_arith)
            requires
                i == block_size * q + i % block_size,
                0 <= i % block_size < block_size,
                seq * block_size <= i < seq * block_size + block_size,
        ;
    }
}

} // verus!
