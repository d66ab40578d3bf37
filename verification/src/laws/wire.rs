//! What holds of the wire format: where each field of a PDU stands.

use crate::bytes::{copy_into, get_u16, get_u32, get_u64, put_u16, put_u32, put_u64};
use crate::bytes::{u32_bytes, u64_bytes};
use crate::protocol::{
    decode_data_header, decode_feedback, decode_fin, decode_start, encode_data_header,
    encode_feedback, encode_fin, encode_start, num_blocks, pdu_type, put_echo_tick, DataHeader,
    FeedbackHeader, NackEntry,
};
use vstd::prelude::*;

verus! {

/// The number that bytes stand for, the least significant first.
pub open spec fn number_of(s: Seq<u8>) -> int
    decreases s.len(),
{
    if s.len() == 0 {
        0
    } else {
        s[0] + 256 * number_of(s.skip(1))
    }
}

/// The number at `s[from..to]`.
pub open spec fn number_at(s: Seq<u8>, from: int, to: int) -> int {
    number_of(s.subrange(from, to))
}

/// A signed number as the 64 bits that stand for it.
pub open spec fn as_bits(v: i64) -> int {
    if v >= 0 {
        v as int
    } else {
        v + 0x1_0000_0000_0000_0000
    }
}

proof fn signed_bits(v: i64)
    ensures
        crate::bytes::bits_of_i64(v) == as_bits(v),
{
    if v >= 0 {
    } else {
        assert(v < 0 ==> (v as u64) == v + 0x1_0000_0000_0000_0000) by (bit_vector);
    }
}

proof fn bits_signed(v: u64)
    ensures
        as_bits(crate::bytes::i64_of_bits(v)) == v,
{
    assert((v as i64) as u64 == v) by (bit_vector);
    signed_bits(v as i64);
}

/// Two bytes make a 16-bit number, the least significant first.
proof fn two_bytes(s: Seq<u8>, from: int)
    requires
        0 <= from,
        from + 2 <= s.len(),
    ensures
        number_at(s, from, from + 2) == crate::bytes::le16_at(s, from),
{
    reveal_with_fuel(number_of, 3);
    let t = s.subrange(from, from + 2);
    assert(t.skip(1).skip(1).len() == 0);
    assert(t[0] == s[from] && t.skip(1)[0] == s[from + 1]);
}

/// Four bytes make a 32-bit number.
proof fn four_bytes(s: Seq<u8>, from: int)
    requires
        0 <= from,
        from + 4 <= s.len(),
    ensures
        number_at(s, from, from + 4) == crate::bytes::le32_at(s, from),
{
    reveal_with_fuel(number_of, 5);
    let t = s.subrange(from, from + 4);
    let t1 = t.skip(1);
    let t2 = t1.skip(1);
    let t3 = t2.skip(1);
    assert(t3.skip(1).len() == 0);
    assert(t[0] == s[from] && t1[0] == s[from + 1] && t2[0] == s[from + 2] && t3[0] == s[from + 3]);
}

/// Eight bytes make a 64-bit number.
proof fn eight_bytes(s: Seq<u8>, from: int)
    requires
        0 <= from,
        from + 8 <= s.len(),
    ensures
        number_at(s, from, from + 8) == crate::bytes::le64_at(s, from),
{
    reveal_with_fuel(number_of, 9);
    let t = s.subrange(from, from + 8);
    let t1 = t.skip(1);
    let t2 = t1.skip(1);
    let t3 = t2.skip(1);
    let t4 = t3.skip(1);
    let t5 = t4.skip(1);
    let t6 = t5.skip(1);
    let t7 = t6.skip(1);
    assert(t7.skip(1).len() == 0);
    assert(t[0] == s[from] && t1[0] == s[from + 1] && t2[0] == s[from + 2] && t3[0] == s[from + 3]);
    assert(t4[0] == s[from + 4] && t5[0] == s[from + 5] && t6[0] == s[from + 6] && t7[0] == s[from
        + 7]);
}

/// The bytes of a 16-bit number stand for it.
proof fn number16(v: u16, s: Seq<u8>, from: int)
    requires
        0 <= from,
        from + 2 <= s.len(),
        s.subrange(from, from + 2) == crate::bytes::le16(v),
    ensures
        number_at(s, from, from + 2) == v,
{
    two_bytes(s, from);
    crate::bytes::le16_round_trip(v, s, from);
}

proof fn number32(v: u32, s: Seq<u8>, from: int)
    requires
        0 <= from,
        from + 4 <= s.len(),
        s.subrange(from, from + 4) == crate::bytes::le32(v),
    ensures
        number_at(s, from, from + 4) == v,
{
    four_bytes(s, from);
    crate::bytes::le32_round_trip(v, s, from);
}

proof fn number64(v: u64, s: Seq<u8>, from: int)
    requires
        0 <= from,
        from + 8 <= s.len(),
        s.subrange(from, from + 8) == crate::bytes::le64(v),
    ensures
        number_at(s, from, from + 8) == v,
{
    eight_bytes(s, from);
    crate::bytes::le64_round_trip(v, s, from);
}

/// The bytes of a 64-bit number stand for it, wherever they stand.
pub proof fn bytes_of_number(v: u64, s: Seq<u8>, from: int)
    requires
        0 <= from,
        from + 8 <= s.len(),
        s.subrange(from, from + 8) == crate::bytes::le64(v),
    ensures
        number_at(s, from, from + 8) == v,
{
    number64(v, s, from);
}

/// Four bytes are read as the number that they stand for.
pub proof fn short_number_at(s: Seq<u8>, from: int)
    requires
        0 <= from,
        from + 4 <= s.len(),
    ensures
        number_at(s, from, from + 4) == crate::bytes::le32_at(s, from),
{
    four_bytes(s, from);
}

/// Two bytes are read as the number that they stand for.
pub proof fn shortest_number_at(s: Seq<u8>, from: int)
    requires
        0 <= from,
        from + 2 <= s.len(),
    ensures
        number_at(s, from, from + 2) == crate::bytes::le16_at(s, from),
{
    two_bytes(s, from);
}

/// The four bytes of a number stand for it.
pub proof fn bytes_of_short_number(v: u32)
    ensures
        crate::bytes::le32(v).len() == 4,
        number_of(crate::bytes::le32(v)) == v,
{
    let s = crate::bytes::le32(v);
    assert(s.subrange(0, 4) =~= s);
    number32(v, s, 0);
}

/// The eight bytes of a signed number stand for its bits.
pub proof fn bytes_of_signed_number(v: i64)
    ensures
        crate::bytes::le64(crate::bytes::bits_of_i64(v)).len() == 8,
        number_of(crate::bytes::le64(crate::bytes::bits_of_i64(v))) == as_bits(v),
{
    let s = crate::bytes::le64(crate::bytes::bits_of_i64(v));
    assert(s.subrange(0, 8) =~= s);
    number64(crate::bytes::bits_of_i64(v), s, 0);
    signed_bits(v);
}

// --- DATA -------------------------------------------------------------------

/// Whether a DATA header stands at the start of a datagram, field by field.
pub open spec fn is_data_header(s: Seq<u8>, h: DataHeader) -> bool {
    &&& s.len() >= 36
    &&& s[0] == 1
    &&& s[1] == h.flags
    &&& number_at(s, 2, 4) == h.payload_len
    &&& number_at(s, 4, 8) == h.session
    &&& number_at(s, 8, 16) == h.block_seq
    &&& number_at(s, 16, 24) == h.echo_tick
    &&& number_at(s, 24, 32) == as_bits(h.rex_index)
    &&& number_at(s, 32, 36) == h.payload_crc
}

/// Law: a DATA header is written field by field into the first 36 bytes, and the
/// rest of the buffer is left alone. What is read from a datagram are the fields
/// that stand there; a datagram that is too short or of another type is none.
pub proof fn data_headers_are_laid_out()
    ensures
        forall|buf: &mut [u8], h: &DataHeader, u: ()| #[trigger]
            call_ensures(encode_data_header, (buf, h), u) && buf@.len() >= 36 ==> is_data_header(
                final(buf)@,
                *h,
            ) && final(buf)@.len() == buf@.len() && (forall|i: int|
                36 <= i < buf@.len() ==> #[trigger] final(buf)@[i] == buf@[i]),
        forall|buf: &[u8], r: Option<DataHeader>| #[trigger]
            call_ensures(decode_data_header, (buf,), r) ==> {
                &&& r is Some <==> buf@.len() >= 36 && buf@[0] == 1
                &&& r matches Some(h) ==> is_data_header(buf@, h)
            },
{
    assert forall|buf: &mut [u8], h: &DataHeader, u: ()| #[trigger]
        call_ensures(encode_data_header, (buf, h), u) && buf@.len() >= 36 implies is_data_header(
        final(buf)@,
        *h,
    ) && final(buf)@.len() == buf@.len() && (forall|i: int|
        36 <= i < buf@.len() ==> #[trigger] final(buf)@[i] == buf@[i]) by {
        data_header_stands(*h, buf@.skip(36));
    }
    assert forall|buf: &[u8], r: Option<DataHeader>| #[trigger]
        call_ensures(decode_data_header, (buf,), r) && r is Some implies is_data_header(
        buf@,
        r->Some_0,
    ) by {
        two_bytes(buf@, 2);
        four_bytes(buf@, 4);
        eight_bytes(buf@, 8);
        eight_bytes(buf@, 16);
        eight_bytes(buf@, 24);
        four_bytes(buf@, 32);
        bits_signed(crate::bytes::le64_at(buf@, 24));
    }
}

proof fn data_header_stands(h: DataHeader, rest: Seq<u8>)
    ensures
        is_data_header(crate::protocol::data_header_bytes(h) + rest, h),
        crate::protocol::data_header_bytes(h).len() == 36,
{
    let s = crate::protocol::data_header_bytes(h) + rest;
    let bits = crate::bytes::bits_of_i64(h.rex_index);
    assert(s.subrange(2, 4) =~= crate::bytes::le16(h.payload_len));
    assert(s.subrange(4, 8) =~= crate::bytes::le32(h.session));
    assert(s.subrange(8, 16) =~= crate::bytes::le64(h.block_seq));
    assert(s.subrange(16, 24) =~= crate::bytes::le64(h.echo_tick));
    assert(s.subrange(24, 32) =~= crate::bytes::le64(bits));
    assert(s.subrange(32, 36) =~= crate::bytes::le32(h.payload_crc));
    number16(h.payload_len, s, 2);
    number32(h.session, s, 4);
    number64(h.block_seq, s, 8);
    number64(h.echo_tick, s, 16);
    number64(bits, s, 24);
    number32(h.payload_crc, s, 32);
    signed_bits(h.rex_index);
}

/// Law: an echoed tick replaces the one in a DATA header and nothing else.
pub proof fn ticks_stand_at_their_place()
    ensures
        forall|buf: &mut [u8], v: u64, u: ()| #[trigger]
            call_ensures(put_echo_tick, (buf, v), u) && buf@.len() >= 24 ==> {
                &&& final(buf)@.len() == buf@.len()
                &&& number_at(final(buf)@, 16, 24) == v
                &&& forall|i: int|
                    0 <= i < buf@.len() && !(16 <= i < 24) ==> #[trigger] final(buf)@[i] == buf@[i]
            },
{
    assert forall|buf: &mut [u8], v: u64, u: ()| #[trigger]
        call_ensures(put_echo_tick, (buf, v), u) && buf@.len() >= 24 implies number_at(
        final(buf)@,
        16,
        24,
    ) == v by {
        assert(final(buf)@.subrange(16, 24) =~= crate::bytes::le64(v));
        number64(v, final(buf)@, 16);
    }
}

// --- FEEDBACK ---------------------------------------------------------------

/// Whether a FEEDBACK header with `count` entries stands at the start of a
/// datagram.
pub open spec fn is_feedback_header(s: Seq<u8>, h: FeedbackHeader, count: int) -> bool {
    &&& s.len() >= 36 + 16 * count
    &&& s[0] == 2
    &&& number_at(s, 2, 4) == count
    &&& number_at(s, 4, 8) == h.session
    &&& number_at(s, 8, 16) == h.tick
    &&& number_at(s, 16, 24) == h.target_rate
    &&& number_at(s, 24, 32) == h.hi_contig
    &&& h.done <==> s[32] == 1
    &&& h.tick_is_network <==> s[1] & 2 != 0
}

/// Whether entry `i` of a list of requests stands at its place in a datagram.
pub open spec fn is_request(s: Seq<u8>, i: int, n: NackEntry) -> bool {
    let at = 36 + 16 * i;
    number_at(s, at, at + 8) == n.block_seq && number_at(s, at + 8, at + 16) == as_bits(n.rex_index)
}

proof fn requests_are_numbers(s: Seq<u8>, count: int)
    requires
        s.len() >= 36 + 16 * count,
    ensures
        forall|i: int| 0 <= i < count ==> #[trigger]
            is_request(s, i, crate::protocol::parsed_nack(s, 36 + i * 16)),
{
    assert forall|i: int| 0 <= i < count implies #[trigger] is_request(
        s,
        i,
        crate::protocol::parsed_nack(s, 36 + i * 16),
    ) by {
        let at = 36 + 16 * i;
        eight_bytes(s, at);
        eight_bytes(s, at + 8);
        bits_signed(crate::bytes::le64_at(s, at + 8));
    }
}

/// Law: what is read from a FEEDBACK PDU is what stands in it. A datagram that is
/// of another type, or shorter than its count says, is none.
pub proof fn feedback_is_read_as_it_stands()
    ensures
        forall|buf: &[u8], r: Option<(FeedbackHeader, Vec<NackEntry>)>| #[trigger]
            call_ensures(decode_feedback, (buf,), r) ==> {
                &&& r is Some <==> buf@.len() >= 36 && buf@[0] == 2 && buf@.len() >= 36 + 16
                    * number_at(buf@, 2, 4)
                &&& r matches Some((h, nacks)) ==> is_feedback_header(
                    buf@,
                    h,
                    nacks@.len() as int,
                ) && h.nack_count == nacks@.len() && (forall|i: int|
                    0 <= i < nacks@.len() ==> is_request(buf@, i, #[trigger] nacks@[i]))
            },
{
    assert forall|buf: &[u8], r: Option<(FeedbackHeader, Vec<NackEntry>)>| #[trigger]
        call_ensures(decode_feedback, (buf,), r) implies {
        &&& r is Some <==> buf@.len() >= 36 && buf@[0] == 2 && buf@.len() >= 36 + 16 * number_at(
            buf@,
            2,
            4,
        )
        &&& r matches Some((h, nacks)) ==> is_feedback_header(buf@, h, nacks@.len() as int)
            && h.nack_count == nacks@.len() && (forall|i: int|
            0 <= i < nacks@.len() ==> is_request(buf@, i, #[trigger] nacks@[i]))
    } by {
        if buf@.len() >= 36 {
            two_bytes(buf@, 2);
            four_bytes(buf@, 4);
            eight_bytes(buf@, 8);
            eight_bytes(buf@, 16);
            eight_bytes(buf@, 24);
            let count = crate::bytes::le16_at(buf@, 2) as int;
            if buf@.len() >= 36 + 16 * count {
                requests_are_numbers(buf@, count);
                if r is Some {
                    let nacks = r->Some_0.1@;
                    assert forall|i: int| 0 <= i < nacks.len() implies is_request(
                        buf@,
                        i,
                        #[trigger] nacks[i],
                    ) by {
                        assert(nacks[i] == crate::protocol::parsed_nack(buf@, 36 + i * 16));
                        assert(is_request(
                            buf@,
                            i,
                            crate::protocol::parsed_nack(buf@, 36 + i * 16),
                        ));
                    }
                }
            }
        }
    }
}

/// Law: a FEEDBACK PDU is written field by field, each request in sixteen bytes,
/// in order, and the rest of the buffer is left alone. Two PDUs differ in their
/// flag bytes only by the kind of their tick.
#[verifier::spinoff_prover]
pub proof fn feedback_is_laid_out()
    ensures
        forall|buf: &mut [u8], h: &FeedbackHeader, nacks: &[NackEntry], n: usize| #[trigger]
            call_ensures(encode_feedback, (buf, h, nacks), n) && nacks@.len() <= 0xffff
                && buf@.len() >= 36 + 16 * nacks@.len() ==> {
                &&& n == 36 + 16 * nacks@.len()
                &&& final(buf)@.len() == buf@.len()
                &&& is_feedback_header(final(buf)@, *h, nacks@.len() as int)
                &&& final(buf)@[1] == 0 || final(buf)@[1] == 2
                &&& final(buf)@[32] == 0 || final(buf)@[32] == 1
                &&& final(buf)@[33] == 0 && final(buf)@[34] == 0 && final(buf)@[35] == 0
                &&& forall|i: int|
                    0 <= i < nacks@.len() ==> is_request(final(buf)@, i, #[trigger] nacks@[i])
                &&& forall|i: int|
                    n <= i < buf@.len() ==> #[trigger] final(buf)@[i] == buf@[i]
            },
{
    assert forall|buf: &mut [u8], h: &FeedbackHeader, nacks: &[NackEntry], n: usize| #[trigger]
        call_ensures(encode_feedback, (buf, h, nacks), n) && nacks@.len() <= 0xffff && buf@.len()
            >= 36 + 16 * nacks@.len() implies {
        &&& n == 36 + 16 * nacks@.len()
        &&& final(buf)@.len() == buf@.len()
        &&& is_feedback_header(final(buf)@, *h, nacks@.len() as int)
        &&& final(buf)@[1] == 0 || final(buf)@[1] == 2
        &&& final(buf)@[32] == 0 || final(buf)@[32] == 1
        &&& final(buf)@[33] == 0 && final(buf)@[34] == 0 && final(buf)@[35] == 0
        &&& forall|i: int|
            0 <= i < nacks@.len() ==> is_request(final(buf)@, i, #[trigger] nacks@[i])
        &&& forall|i: int| n <= i < buf@.len() ==> #[trigger] final(buf)@[i] == buf@[i]
    } by {
        let rest = buf@.skip(n as int);
        crate::protocol::nacks_bytes_len(nacks@);
        crate::protocol::feedback_round_trip(*h, nacks@, rest);
        feedback_stands(*h, nacks@, rest);
        assert(final(buf)@ =~= crate::protocol::feedback_bytes(*h, nacks@) + rest);
    }
}

proof fn feedback_stands(h: FeedbackHeader, nacks: Seq<NackEntry>, rest: Seq<u8>)
    requires
        nacks.len() <= 0xffff,
    ensures
        ({
            let s = crate::protocol::feedback_bytes(h, nacks) + rest;
            &&& is_feedback_header(s, h, nacks.len() as int)
            &&& s[1] == 0 || s[1] == 2
            &&& s[32] == 0 || s[32] == 1
            &&& s[33] == 0 && s[34] == 0 && s[35] == 0
            &&& forall|i: int| 0 <= i < nacks.len() ==> is_request(s, i, #[trigger] nacks[i])
        }),
{
    let s = crate::protocol::feedback_bytes(h, nacks) + rest;
    crate::protocol::nacks_bytes_len(nacks);
    crate::protocol::feedback_round_trip(h, nacks, rest);
    two_bytes(s, 2);
    four_bytes(s, 4);
    eight_bytes(s, 8);
    eight_bytes(s, 16);
    eight_bytes(s, 24);
    requests_are_numbers(s, nacks.len() as int);
    let parsed = crate::protocol::parsed_feedback(s)->Some_0.1;
    assert forall|i: int| 0 <= i < nacks.len() implies is_request(s, i, #[trigger] nacks[i]) by {
        assert(parsed[i] == nacks[i]);
        assert(is_request(s, i, crate::protocol::parsed_nack(s, 36 + i * 16)));
    }
}

// --- START and FIN ----------------------------------------------------------

/// Law: START and FIN PDUs are written field by field and read as they stand.
pub proof fn start_and_fin_are_laid_out()
    ensures
        forall|buf: &mut [u8], session: u32, n: usize| #[trigger]
            call_ensures(encode_start, (buf, session), n) && buf@.len() >= 8 ==> {
                &&& n == 8
                &&& final(buf)@.len() == buf@.len()
                &&& final(buf)@[0] == 5
                &&& final(buf)@[1] == 0 && final(buf)@[2] == 0 && final(buf)@[3] == 0
                &&& number_at(final(buf)@, 4, 8) == session
            },
        forall|buf: &mut [u8], session: u32, total: u64, n: usize| #[trigger]
            call_ensures(encode_fin, (buf, session, total), n) && buf@.len() >= 16 ==> {
                &&& n == 16
                &&& final(buf)@.len() == buf@.len()
                &&& final(buf)@[0] == 4
                &&& final(buf)@[1] == 0 && final(buf)@[2] == 0 && final(buf)@[3] == 0
                &&& number_at(final(buf)@, 4, 8) == session
                &&& number_at(final(buf)@, 8, 16) == total
            },
        forall|buf: &[u8], r: Option<u32>| #[trigger]
            call_ensures(decode_start, (buf,), r) ==> {
                &&& r is Some <==> buf@.len() >= 8 && buf@[0] == 5
                &&& r matches Some(session) ==> session == number_at(buf@, 4, 8)
            },
        forall|buf: &[u8], r: Option<(u32, u64)>| #[trigger]
            call_ensures(decode_fin, (buf,), r) ==> {
                &&& r is Some <==> buf@.len() >= 16 && buf@[0] == 4
                &&& r matches Some((session, total)) ==> session == number_at(buf@, 4, 8) && total
                    == number_at(buf@, 8, 16)
            },
        forall|buf: &[u8], r: u8| #[trigger]
            call_ensures(pdu_type, (buf,), r) ==> (buf@.len() == 0 ==> r == 0) && (buf@.len() > 0
                ==> r == buf@[0]),
{
    assert forall|buf: &mut [u8], session: u32, n: usize| #[trigger]
        call_ensures(encode_start, (buf, session), n) && buf@.len() >= 8 implies number_at(
        final(buf)@,
        4,
        8,
    ) == session by {
        assert(final(buf)@.subrange(4, 8) =~= crate::bytes::le32(session));
        number32(session, final(buf)@, 4);
    }
    assert forall|buf: &mut [u8], session: u32, total: u64, n: usize| #[trigger]
        call_ensures(encode_fin, (buf, session, total), n) && buf@.len() >= 16 implies number_at(
        final(buf)@,
        4,
        8,
    ) == session && number_at(final(buf)@, 8, 16) == total by {
        assert(final(buf)@.subrange(4, 8) =~= crate::bytes::le32(session));
        assert(final(buf)@.subrange(8, 16) =~= crate::bytes::le64(total));
        number32(session, final(buf)@, 4);
        number64(total, final(buf)@, 8);
    }
    assert forall|buf: &[u8], r: Option<u32>| #[trigger]
        call_ensures(decode_start, (buf,), r) && r is Some implies r->Some_0 == number_at(
        buf@,
        4,
        8,
    ) by {
        four_bytes(buf@, 4);
    }
    assert forall|buf: &[u8], r: Option<(u32, u64)>| #[trigger]
        call_ensures(decode_fin, (buf,), r) && r is Some implies r->Some_0.0 == number_at(
        buf@,
        4,
        8,
    ) && r->Some_0.1 == number_at(buf@, 8, 16) by {
        four_bytes(buf@, 4);
        eight_bytes(buf@, 8);
    }
}

// --- numbers in buffers -----------------------------------------------------

/// Law: a number is written at its place, in its width, and nothing else is
/// changed; it is read from there.
pub proof fn numbers_stand_at_their_place()
    ensures
        forall|b: &mut [u8], off: usize, v: u16, u: ()| #[trigger]
            call_ensures(put_u16, (b, off, v), u) && off + 2 <= b@.len() ==> number_at(
                final(b)@,
                off as int,
                off + 2,
            ) == v && final(b)@.len() == b@.len() && (forall|i: int|
                0 <= i < b@.len() && !(off <= i < off + 2) ==> #[trigger] final(b)@[i] == b@[i]),
        forall|b: &mut [u8], off: usize, v: u32, u: ()| #[trigger]
            call_ensures(put_u32, (b, off, v), u) && off + 4 <= b@.len() ==> number_at(
                final(b)@,
                off as int,
                off + 4,
            ) == v && final(b)@.len() == b@.len() && (forall|i: int|
                0 <= i < b@.len() && !(off <= i < off + 4) ==> #[trigger] final(b)@[i] == b@[i]),
        forall|b: &mut [u8], off: usize, v: u64, u: ()| #[trigger]
            call_ensures(put_u64, (b, off, v), u) && off + 8 <= b@.len() ==> number_at(
                final(b)@,
                off as int,
                off + 8,
            ) == v && final(b)@.len() == b@.len() && (forall|i: int|
                0 <= i < b@.len() && !(off <= i < off + 8) ==> #[trigger] final(b)@[i] == b@[i]),
        forall|b: &[u8], off: usize, v: u16| #[trigger]
            call_ensures(get_u16, (b, off), v) && off + 2 <= b@.len() ==> v == number_at(
                b@,
                off as int,
                off + 2,
            ),
        forall|b: &[u8], off: usize, v: u32| #[trigger]
            call_ensures(get_u32, (b, off), v) && off + 4 <= b@.len() ==> v == number_at(
                b@,
                off as int,
                off + 4,
            ),
        forall|b: &[u8], off: usize, v: u64| #[trigger]
            call_ensures(get_u64, (b, off), v) && off + 8 <= b@.len() ==> v == number_at(
                b@,
                off as int,
                off + 8,
            ),
        forall|v: u64, r: Vec<u8>| #[trigger]
            call_ensures(u64_bytes, (v,), r) ==> r@.len() == 8 && number_of(r@) == v,
        forall|v: u32, r: Vec<u8>| #[trigger]
            call_ensures(u32_bytes, (v,), r) ==> r@.len() == 4 && number_of(r@) == v,
        forall|b: &mut [u8], off: usize, src: &[u8], u: ()| #[trigger]
            call_ensures(copy_into, (b, off, src), u) && off + src@.len() <= b@.len() ==> final(b)@.len()
                == b@.len() && final(b)@.subrange(off as int, off + src@.len()) == src@ && (
            forall|i: int|
                0 <= i < b@.len() && !(off <= i < off + src@.len()) ==> #[trigger] final(b)@[i]
                    == b@[i]),
{
    assert forall|b: &mut [u8], off: usize, v: u16, u: ()| #[trigger]
        call_ensures(put_u16, (b, off, v), u) && off + 2 <= b@.len() implies number_at(
        final(b)@,
        off as int,
        off + 2,
    ) == v by {
        assert(final(b)@.subrange(off as int, off + 2) =~= crate::bytes::le16(v));
        number16(v, final(b)@, off as int);
    }
    assert forall|b: &mut [u8], off: usize, v: u32, u: ()| #[trigger]
        call_ensures(put_u32, (b, off, v), u) && off + 4 <= b@.len() implies number_at(
        final(b)@,
        off as int,
        off + 4,
    ) == v by {
        assert(final(b)@.subrange(off as int, off + 4) =~= crate::bytes::le32(v));
        number32(v, final(b)@, off as int);
    }
    assert forall|b: &mut [u8], off: usize, v: u64, u: ()| #[trigger]
        call_ensures(put_u64, (b, off, v), u) && off + 8 <= b@.len() implies number_at(
        final(b)@,
        off as int,
        off + 8,
    ) == v by {
        assert(final(b)@.subrange(off as int, off + 8) =~= crate::bytes::le64(v));
        number64(v, final(b)@, off as int);
    }
    assert forall|b: &[u8], off: usize, v: u16| #[trigger]
        call_ensures(get_u16, (b, off), v) && off + 2 <= b@.len() implies v == number_at(
        b@,
        off as int,
        off + 2,
    ) by {
        two_bytes(b@, off as int);
    }
    assert forall|b: &[u8], off: usize, v: u32| #[trigger]
        call_ensures(get_u32, (b, off), v) && off + 4 <= b@.len() implies v == number_at(
        b@,
        off as int,
        off + 4,
    ) by {
        four_bytes(b@, off as int);
    }
    assert forall|b: &[u8], off: usize, v: u64| #[trigger]
        call_ensures(get_u64, (b, off), v) && off + 8 <= b@.len() implies v == number_at(
        b@,
        off as int,
        off + 8,
    ) by {
        eight_bytes(b@, off as int);
    }
    assert forall|v: u64, r: Vec<u8>| #[trigger] call_ensures(u64_bytes, (v,), r) implies r@.len()
        == 8 && number_of(r@) == v by {
        assert(r@.subrange(0, 8) =~= r@);
        number64(v, r@, 0);
    }
    assert forall|v: u32, r: Vec<u8>| #[trigger] call_ensures(u32_bytes, (v,), r) implies r@.len()
        == 4 && number_of(r@) == v by {
        assert(r@.subrange(0, 4) =~= r@);
        number32(v, r@, 0);
    }
}

// --- blocks -----------------------------------------------------------------

/// Law: the number of blocks is the least that covers an object: one less falls
/// short of its end. An empty object has none.
pub proof fn block_counts_are_least()
    ensures
        forall|size: i64, block_size: usize, r: u64| #[trigger]
            call_ensures(num_blocks, (size, block_size), r) && block_size > 0 ==> {
                &&& size <= 0 ==> r == 0
                &&& size > 0 ==> (r - 1) * block_size < size <= r * block_size
            },
{
    assert forall|size: i64, block_size: usize, r: u64| #[trigger]
        call_ensures(num_blocks, (size, block_size), r) && block_size > 0 && size > 0 implies (r
        - 1) * block_size < size <= r * block_size by {
        crate::protocol::blocks_cover(size as int, block_size as int);
    }
}

// --- numbers ----------------------------------------------------------------

/// Law: the numbers that both ends of a transfer have to agree on: the version, the
/// types of the PDUs, their flags, each a bit of its own, the sizes of headers and
/// entries, the checksum's polynomial, and what encryption adds.
pub proof fn both_ends_use_the_same_numbers()
    ensures
        crate::protocol::PROTOCOL_VERSION == 1,
        crate::protocol::PDU_DATA == 1,
        crate::protocol::PDU_FEEDBACK == 2,
        crate::protocol::PDU_FIN == 4,
        crate::protocol::PDU_START == 5,
        crate::protocol::FLAG_RETRANSMIT == 1,
        crate::protocol::FLAG_TICK_N == 2,
        crate::protocol::FLAG_HAS_TICK == 4,
        crate::protocol::FLAG_LAST_BLOCK == 8,
        crate::protocol::DATA_HEADER_SIZE == 36,
        crate::protocol::FEEDBACK_HEADER_SIZE == 36,
        crate::protocol::NACK_ENTRY_SIZE == 16,
        crate::protocol::DEFAULT_BLOCK_SIZE == 1400,
        crate::protocol::CASTAGNOLI == 0x82f6_3b78,
        crate::control::MAX_MESSAGE == 1024 * 1024,
        crate::control::MODE_SEND@ == "send"@,
        crate::control::MODE_RECV@ == "recv"@,
        crate::crypto::CIPHER_AES_GCM@ == "aes-256-gcm"@,
        crate::crypto::CIPHER_CHACHA@ == "chacha20-poly1305"@,
        crate::crypto::AEAD_KEY_LEN == 32,
        crate::crypto::AEAD_NONCE_LEN == 12,
        crate::crypto::AEAD_TAG_LEN == 16,
        crate::crypto::AEAD_MAX_LEN == 64 * 0x4000_0000 - 32,
{
}

} // verus!
