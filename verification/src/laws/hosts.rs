//! What holds of the decisions of the data-plane I/O.

use crate::error::{IoError, IoKind};
use crate::laws::wire::number_at;
use crate::sys::{
    after_batch_read, encode_addr, is_expected, is_timeout, next_port, next_send_slot,
    no_free_port, pacing_ceiling, parse_addr, slot_range, BatchRead, BatchWrite, Completion,
    ExactIo, ExactNext, Family, FlushState, Harvest, HostIp, RawAddr, ReadNext, ShortIo,
};
use vstd::prelude::*;

verus! {

// --- peers and ports --------------------------------------------------------

/// Law: a receive that only timed out is told apart from a failure, and a datagram
/// is taken from anywhere or from exactly the host that is expected.
pub proof fn peers_are_told_apart()
    ensures
        forall|e: &IoError, r: bool| #[trigger]
            call_ensures(is_timeout, (e,), r) ==> (r <==> e.kind == IoKind::WouldBlock || e.kind
                == IoKind::TimedOut),
        forall|expected: HostIp, from: HostIp, r: bool| #[trigger]
            call_ensures(is_expected, (Some(expected), from), r) ==> (r <==> from == expected),
        forall|from: HostIp, r: bool| #[trigger]
            call_ensures(is_expected, (None::<HostIp>, from), r) ==> r,
{
}

/// Law: the ports of a range are tried from the first to the last, one after the
/// other; without a range any port is asked for, once. An empty range has none.
pub proof fn ports_are_tried_one_by_one()
    ensures
        forall|first: u16, last: u16, r: Option<u16>| #[trigger]
            call_ensures(next_port, (Some((first, last)), None::<u16>), r) ==> {
                &&& first <= last ==> r == Some(first)
                &&& first > last ==> r is None
            },
        forall|first: u16, last: u16, tried: u16, r: Option<u16>| #[trigger]
            call_ensures(next_port, (Some((first, last)), Some(tried)), r) ==> {
                &&& tried < last ==> r is Some && r->Some_0 == tried + 1
                &&& tried >= last ==> r is None
            },
        forall|r: Option<u16>| #[trigger]
            call_ensures(next_port, (None::<(u16, u16)>, None::<u16>), r) ==> r == Some(0u16),
        forall|tried: u16, r: Option<u16>| #[trigger]
            call_ensures(next_port, (None::<(u16, u16)>, Some(tried)), r) ==> r is None,
        forall|e: IoError| #[trigger]
            call_ensures(no_free_port, (), e) ==> e.kind == IoKind::AddrNotAvailable && e.message@
                == "no free port in UDP range"@,
        forall|bps: u64, r: u32| #[trigger]
            call_ensures(pacing_ceiling, (bps,), r) ==> {
                &&& bps < 0x8_0000_0000 ==> 8 * r <= bps < 8 * r + 8
                &&& bps >= 0x8_0000_0000 ==> r == 0xffff_ffff
            },
{
}

// --- receive slots ----------------------------------------------------------

/// Law: a datagram stands at the start of its slot, as long as it is, or cut to
/// the slot where it was longer.
pub proof fn datagrams_stand_in_their_slots()
    ensures
        forall|i: usize, len: usize, got: usize, r: (usize, usize)| #[trigger]
            call_ensures(slot_range, (i, len, got), r) && (i + 1) * len <= usize::MAX ==> {
                &&& r.0 == i * len
                &&& got <= len ==> r.1 - r.0 == got
                &&& got > len ==> r.1 - r.0 == len
                &&& r.0 <= r.1 <= (i + 1) * len
            },
{
    assert forall|i: usize, len: usize, got: usize, r: (usize, usize)| #[trigger]
        call_ensures(slot_range, (i, len, got), r) && (i + 1) * len <= usize::MAX implies r.0
        <= r.1 <= (i + 1) * len by {
        assert((i + 1) * len == i * len + len) by (nonlinear_arith);
    }
}

/// The receives among completed requests, in order.
pub open spec fn receives(done: Seq<Completion>) -> Seq<Completion> {
    done.filter(|c: Completion| c.context != 0xffff_ffff_ffff_ffff)
}

proof fn harvested(done: Seq<Completion>)
    ensures
        crate::sys::receive_slots(done) == receives(done).map_values(|c: Completion| c.context),
        crate::sys::receive_batch(done) == receives(done).map_values(
            |c: Completion|
                (
                    c.context,
                    if c.ok {
                        c.bytes
                    } else {
                        0usize
                    },
                ),
        ),
    decreases done.len(),
{
    reveal(Seq::filter);
    let slot = |c: Completion| c.context;
    let item = |c: Completion|
        (
            c.context,
            if c.ok {
                c.bytes
            } else {
                0usize
            },
        );
    if done.len() == 0 {
        assert(receives(done).map_values(slot) =~= Seq::<u64>::empty());
        assert(receives(done).map_values(item) =~= Seq::<(u64, usize)>::empty());
    } else {
        harvested(done.drop_last());
        let before = receives(done.drop_last());
        if done.last().context == crate::sys::SEND_CTX {
            assert(receives(done) =~= before);
        } else {
            assert(receives(done) =~= before.push(done.last()));
            assert(before.push(done.last()).map_values(slot) =~= before.map_values(slot).push(
                done.last().context,
            ));
            assert(before.push(done.last()).map_values(item) =~= before.map_values(item).push(
                item(done.last()),
            ));
        }
    }
}

/// Slots with whether they were posted again.
pub open spec fn with_posts(pending: Seq<u64>, posted: Seq<bool>) -> Seq<(u64, bool)> {
    Seq::new(pending.len(), |i: int| (pending[i], posted[i]))
}

/// The slots that were not posted, in order.
pub open spec fn not_posted(pending: Seq<u64>, posted: Seq<bool>) -> Seq<u64> {
    with_posts(pending, posted).filter(|p: (u64, bool)| !p.1).map_values(|p: (u64, bool)| p.0)
}

proof fn kept_slots(pending: Seq<u64>, posted: Seq<bool>)
    ensures
        crate::sys::failed_slots(pending, posted) == not_posted(pending, posted),
    decreases pending.len(),
{
    reveal(Seq::filter);
    let f = |p: (u64, bool)| !p.1;
    let slot = |p: (u64, bool)| p.0;
    let all = with_posts(pending, posted);
    if pending.len() == 0 {
        assert(all.filter(f).map_values(slot) =~= Seq::<u64>::empty());
    } else {
        kept_slots(pending.drop_last(), posted);
        let before = with_posts(pending.drop_last(), posted);
        assert(all.drop_last() =~= before);
        assert(all.last() == (pending.last(), posted[pending.len() - 1]));
        if !posted[pending.len() - 1] {
            assert(all.filter(f) =~= before.filter(f).push(all.last()));
            assert(before.filter(f).push(all.last()).map_values(slot) =~= before.filter(
                f,
            ).map_values(slot).push(pending.last()));
        } else {
            assert(all.filter(f) =~= before.filter(f));
        }
    }
}

/// Law: a harvest hands out the completed receives in their order, a failed one as
/// an empty datagram, and passes completed sends over; every slot that it hands
/// out waits to be posted again. A slot whose post failed goes on waiting, and only
/// that.
pub proof fn slots_go_round()
    ensures
        forall|m: &mut Harvest, done: &[Completion], r: usize| #[trigger]
            call_ensures(Harvest::harvest, (m, done), r) ==> {
                &&& r == receives(done@).len()
                &&& final(m).batch@ == receives(done@).map_values(
                    |c: Completion|
                        (
                            c.context,
                            if c.ok {
                                c.bytes
                            } else {
                                0usize
                            },
                        ),
                )
                &&& final(m).pending@ == m.pending@ + receives(done@).map_values(
                    |c: Completion| c.context,
                )
            },
        forall|m: &mut Harvest, posted: &[bool], u: ()| #[trigger]
            call_ensures(Harvest::reposted, (m, posted), u) ==> final(m).pending@ == not_posted(
                m.pending@,
                posted@,
            ) && final(m).batch@ == m.batch@,
        forall|h: Harvest| #[trigger]
            call_ensures(Harvest::new, (), h) ==> h.batch@.len() == 0 && h.pending@.len() == 0,
        forall|slot: u32, r: u32| #[trigger]
            call_ensures(next_send_slot, (slot,), r) && slot < 16 ==> {
                &&& slot < 15 ==> r == slot + 1
                &&& slot == 15 ==> r == 0
            },
{
    assert forall|m: &mut Harvest, done: &[Completion], r: usize| #[trigger]
        call_ensures(Harvest::harvest, (m, done), r) implies {
        &&& r == receives(done@).len()
        &&& final(m).batch@ == receives(done@).map_values(
            |c: Completion|
                (
                    c.context,
                    if c.ok {
                        c.bytes
                    } else {
                        0usize
                    },
                ),
        )
        &&& final(m).pending@ == m.pending@ + receives(done@).map_values(
            |c: Completion| c.context,
        )
    } by {
        harvested(done@);
    }
    assert forall|m: &mut Harvest, posted: &[bool], u: ()| #[trigger]
        call_ensures(Harvest::reposted, (m, posted), u) implies final(m).pending@ == not_posted(
        m.pending@,
        posted@,
    ) && final(m).batch@ == m.batch@ by {
        kept_slots(m.pending@, posted@);
    }
}

// --- batches ----------------------------------------------------------------

/// Law: a batch counts what was sent, goes on while something was sent and
/// something is left, repeats after a signal, and gives batching up only on a
/// failure.
pub proof fn batches_go_on_while_they_move()
    ensures
        forall|n: usize, bad: bool, s: FlushState| #[trigger]
            call_ensures(FlushState::start, (n, bad), s) ==> s.sent == 0 && s.bad == bad && (s.again
                <==> !bad && n > 0),
        forall|m: &mut FlushState, n: usize, w: BatchWrite, u: ()| #[trigger]
            call_ensures(FlushState::wrote, (m, n, w), u) ==> {
                &&& w is Interrupted ==> *final(m) == *m
                &&& w is Failed ==> final(m).bad && !final(m).again && final(m).sent == m.sent
                &&& w matches BatchWrite::Wrote(k) ==> m.sent + k <= n ==> {
                    &&& final(m).sent == m.sent + k
                    &&& final(m).bad == m.bad
                    &&& final(m).again <==> k > 0 && m.sent + k < n
                }
            },
        forall|r: BatchRead, next: ReadNext| #[trigger]
            call_ensures(after_batch_read, (r,), next) ==> {
                &&& r matches BatchRead::Got(n) ==> next == ReadNext::Deliver(n)
                &&& r is Interrupted <==> next is Retry
                &&& r is Unsupported <==> next is FallBack
                &&& r is Failed <==> next is Report
            },
{
}

/// Law: a whole read or write moves on by what each short one moved, at the offset
/// where that ended; it is complete when everything was moved, and stuck when a
/// short one moves nothing. A signal changes nothing.
pub proof fn short_moves_add_up()
    ensures
        forall|m: &mut ExactIo, r: ShortIo, next: ExactNext| #[trigger]
            call_ensures(ExactIo::moved, (m, r), next) ==> {
                &&& final(m).total == m.total
                &&& r is Interrupted ==> *final(m) == *m && next is Continue
                &&& r matches ShortIo::Moved(n) ==> {
                    &&& final(m).done == m.done + n
                    &&& final(m).offset == m.offset + n
                    &&& n == 0 ==> next is Stuck
                    &&& n > 0 && m.done + n == m.total ==> next is Complete
                    &&& n > 0 && m.done + n < m.total ==> next is Continue
                }
            },
{
}

// --- socket addresses -------------------------------------------------------

/// The number at `s[from..to]`, the most significant byte first.
pub open spec fn network_number(s: Seq<u8>, from: int, to: int) -> int
    decreases to - from,
{
    if to <= from {
        0
    } else {
        256 * network_number(s, from, to - 1) + s[to - 1]
    }
}

proof fn network_number_is_read(s: Seq<u8>, from: int, n: int)
    requires
        0 <= n,
    ensures
        network_number(s, from, from + n) == crate::sys::be_at(s, from, n),
    decreases n,
{
    if n > 0 {
        network_number_is_read(s, from, n - 1);
    }
}

proof fn network_numbers_fit(s: Seq<u8>, from: int)
    ensures
        0 <= network_number(s, from, from + 2) < 0x1_0000,
        0 <= network_number(s, from, from + 4) < 0x1_0000_0000,
        0 <= network_number(s, from, from + 16) < 0x1_0000_0000_0000_0000_0000_0000_0000_0000,
{
    reveal_with_fuel(network_number, 17);
}

/// Whether an address stands in raw memory, behind two bytes for its family.
pub open spec fn is_address(s: Seq<u8>, a: RawAddr) -> bool {
    match a {
        RawAddr::V4 { ip4, port } => {
            &&& network_number(s, 2, 4) == port
            &&& network_number(s, 4, 8) == ip4
        },
        RawAddr::V6 { ip, port, flowinfo, scope } => {
            &&& network_number(s, 2, 4) == port
            &&& number_at(s, 4, 8) == flowinfo
            &&& network_number(s, 8, 24) == ip
            &&& number_at(s, 24, 28) == scope
        },
    }
}

proof fn parsed_address_stands(family: Family, raw: Seq<u8>, len: int)
    requires
        raw.len() >= 28,
        crate::sys::parsed_addr(family, raw, len) is Some,
    ensures
        is_address(raw, crate::sys::parsed_addr(family, raw, len)->Some_0),
{
    network_numbers_fit(raw, 2);
    network_numbers_fit(raw, 4);
    network_numbers_fit(raw, 8);
    network_number_is_read(raw, 2, 2);
    network_number_is_read(raw, 4, 4);
    network_number_is_read(raw, 8, 16);
    crate::laws::wire::short_number_at(raw, 4);
    crate::laws::wire::short_number_at(raw, 24);
}

/// Law: an address is read from where it stands in raw memory, of either family,
/// where enough bytes of it are valid; and written there, with zeros behind it.
/// What was written is read back.
pub proof fn addresses_stand_in_raw_memory()
    ensures
        forall|family: Family, raw: &[u8], len: usize, r: Option<RawAddr>| #[trigger]
            call_ensures(parse_addr, (family, raw, len), r) && raw@.len() >= 28 ==> {
                &&& r is Some <==> (family is V4 && len >= 16) || (family is V6 && len >= 28)
                &&& r matches Some(a) ==> is_address(raw@, a) && (a is V4 <==> family is V4)
            },
        forall|a: RawAddr, family: u16, r: Vec<u8>| #[trigger]
            call_ensures(encode_addr, (a, family), r) ==> {
                &&& r@.len() == 32
                &&& number_at(r@, 0, 2) == family
                &&& is_address(r@, a)
                &&& forall|i: int|
                    (if a is V4 {
                        8int
                    } else {
                        28
                    }) <= i < 32 ==> #[trigger] r@[i] == 0
            },
        forall|
            a: RawAddr,
            family: u16,
            s: Vec<u8>,
            kind: Family,
            raw: &[u8],
            len: usize,
            r: Option<RawAddr>,
        |
            #![trigger call_ensures(encode_addr, (a, family), s), call_ensures(parse_addr, (kind, raw, len), r)]
            call_ensures(encode_addr, (a, family), s) && call_ensures(
                parse_addr,
                (kind, raw, len),
                r,
            ) && raw@ == s@ && len == 32 && (a is V4 ==> kind is V4) && (a is V6 ==> kind is V6)
                ==> r == Some(a),
{
    assert forall|family: Family, raw: &[u8], len: usize, r: Option<RawAddr>| #[trigger]
        call_ensures(parse_addr, (family, raw, len), r) && raw@.len() >= 28 && r
            is Some implies is_address(raw@, r->Some_0) by {
        parsed_address_stands(family, raw@, len as int);
    }
    assert forall|a: RawAddr, family: u16, r: Vec<u8>| #[trigger]
        call_ensures(encode_addr, (a, family), r) implies {
        &&& r@.len() == 32
        &&& number_at(r@, 0, 2) == family
        &&& is_address(r@, a)
        &&& forall|i: int|
            (if a is V4 {
                8int
            } else {
                28
            }) <= i < 32 ==> #[trigger] r@[i] == 0
    } by {
        crate::sys::addr_round_trip(a, family);
        let kind = if a is V4 {
            Family::V4
        } else {
            Family::V6
        };
        parsed_address_stands(kind, r@, 32);
        crate::laws::wire::shortest_number_at(r@, 0);
        reveal_with_fuel(crate::sys::be_bytes, 17);
    }
    assert forall|
        a: RawAddr,
        family: u16,
        s: Vec<u8>,
        kind: Family,
        raw: &[u8],
        len: usize,
        r: Option<RawAddr>,
    |
        #![trigger call_ensures(encode_addr, (a, family), s), call_ensures(parse_addr, (kind, raw, len), r)]
        call_ensures(encode_addr, (a, family), s) && call_ensures(parse_addr, (kind, raw, len), r)
            && raw@ == s@ && len == 32 && (a is V4 ==> kind is V4) && (a is V6 ==> kind
            is V6) implies r == Some(a) by {
        crate::sys::addr_round_trip(a, family);
    }
}

} // verus!
