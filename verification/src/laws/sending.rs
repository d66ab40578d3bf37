//! What a sender does with feedback, and what it sends.

use crate::error::{IoError, IoKind};
use crate::protocol::{
    encode_feedback, DataHeader, FeedbackHeader, NackEntry, DATA_HEADER_SIZE, FLAG_HAS_TICK,
    FLAG_TICK_N,
};
use crate::rate::RateMode;
use crate::receiver::{rtt_sample, RttSample};
use crate::runtime::TransferControl;
use crate::sender::{
    attach_tick, keep_waiting, stopped_error, Batch, RexQueue, SendConfig, SendStep, Sender,
    TickState,
};
use crate::stats::Stats;
use vstd::prelude::*;

verus! {

// --- feedback ---------------------------------------------------------------

/// Law: a sender queues every block that a FEEDBACK PDU of its session asks for,
/// whatever was queued before, keeps what was queued, and queues nothing else.
pub proof fn requests_are_queued(h: FeedbackHeader, nacks: Seq<NackEntry>)
    ensures
        forall|m: &mut Sender, pkt: &[u8], t2: u64, r: bool| #[trigger]
            call_ensures(Sender::on_feedback, (m, pkt, t2), r)
                && crate::protocol::parsed_feedback(pkt@) == Some((h, nacks)) && h.session
                == m.cfg.session ==> {
                &&& forall|i: int|
                    0 <= i < nacks.len() ==> final(m)@.rex.contains(
                        (#[trigger] nacks[i]).block_seq,
                    )
                &&& forall|q: u64| m@.rex.contains(q) ==> #[trigger] final(m)@.rex.contains(q)
                &&& forall|q: u64| #[trigger]
                    final(m)@.rex.contains(q) ==> m@.rex.contains(q) || exists|i: int|
                        0 <= i < nacks.len() && (#[trigger] nacks[i]).block_seq == q
                &&& nacks.len() > 0 ==> final(m)@.stats.rex_queue_len
                    == final(m)@.rex.len() as i64
                &&& m@.stats.nacks_recv + nacks.len() <= u64::MAX ==> final(m)@.stats.nacks_recv
                    == m@.stats.nacks_recv + nacks.len()
            },
{
}

/// Law: what a receiver writes into a FEEDBACK PDU is what a sender queues: every
/// block of the list, in whatever order and however often it stands there.
pub proof fn written_requests_are_queued(h: FeedbackHeader, nacks: Seq<NackEntry>)
    requires
        nacks.len() <= u16::MAX,
    ensures
        forall|
            buf: &mut [u8],
            entries: &[NackEntry],
            n: usize,
            m: &mut Sender,
            pkt: &[u8],
            t2: u64,
            r: bool,
        |
            #![trigger call_ensures(encode_feedback, (buf, &h, entries), n), call_ensures(Sender::on_feedback, (m, pkt, t2), r)]
            call_ensures(encode_feedback, (buf, &h, entries), n) && entries@ == nacks && buf@.len()
                >= n && pkt@ == final(buf)@.take(n as int) && call_ensures(
                Sender::on_feedback,
                (m, pkt, t2),
                r,
            ) && h.session == m.cfg.session ==> (forall|i: int|
                0 <= i < nacks.len() ==> final(m)@.rex.contains((#[trigger] nacks[i]).block_seq)),
{
    crate::protocol::feedback_round_trip(h, nacks, Seq::empty());
    requests_are_queued(FeedbackHeader { nack_count: nacks.len() as u16, ..h }, nacks);
    let wire = crate::protocol::feedback_bytes(h, nacks);
    assert(wire + Seq::<u8>::empty() =~= wire);
    assert forall|
        buf: &mut [u8],
        entries: &[NackEntry],
        n: usize,
        m: &mut Sender,
        pkt: &[u8],
        t2: u64,
        r: bool,
    |
        #![trigger call_ensures(encode_feedback, (buf, &h, entries), n), call_ensures(Sender::on_feedback, (m, pkt, t2), r)]
        call_ensures(encode_feedback, (buf, &h, entries), n) && entries@ == nacks && buf@.len()
            >= n && pkt@ == final(buf)@.take(n as int) && call_ensures(
            Sender::on_feedback,
            (m, pkt, t2),
            r,
        ) && h.session == m.cfg.session implies (forall|i: int|
        0 <= i < nacks.len() ==> final(m)@.rex.contains((#[trigger] nacks[i]).block_seq)) by {
        assert(final(buf)@.take(n as int) =~= wire);
    }
}

/// Law: requests of two PDUs add up. After both, whatever the second found queued,
/// every block that either asked for is queued.
pub proof fn requests_add_up(
    h1: FeedbackHeader,
    nacks1: Seq<NackEntry>,
    h2: FeedbackHeader,
    nacks2: Seq<NackEntry>,
)
    ensures
        forall|
            m: &mut Sender,
            p1: &[u8],
            t1: u64,
            r1: bool,
            n: &mut Sender,
            p2: &[u8],
            t2: u64,
            r2: bool,
        |
            #![trigger call_ensures(Sender::on_feedback, (m, p1, t1), r1), call_ensures(Sender::on_feedback, (n, p2, t2), r2)]
            call_ensures(Sender::on_feedback, (m, p1, t1), r1)
                && crate::protocol::parsed_feedback(p1@) == Some((h1, nacks1)) && *n == *final(m)
                && call_ensures(Sender::on_feedback, (n, p2, t2), r2)
                && crate::protocol::parsed_feedback(p2@) == Some((h2, nacks2)) && h1.session
                == m.cfg.session && h2.session == m.cfg.session ==> {
                &&& forall|i: int|
                    0 <= i < nacks1.len() ==> final(n)@.rex.contains(
                        (#[trigger] nacks1[i]).block_seq,
                    )
                &&& forall|i: int|
                    0 <= i < nacks2.len() ==> final(n)@.rex.contains(
                        (#[trigger] nacks2[i]).block_seq,
                    )
            },
{
    requests_are_queued(h1, nacks1);
    requests_are_queued(h2, nacks2);
}

/// Law: in adaptive mode a sender goes over to the rate that the receiver names,
/// be it higher or lower than its own, and its statistics show it. In fixed mode,
/// or where none is named, the rate stays.
pub proof fn rate_follows_feedback(h: FeedbackHeader, nacks: Seq<NackEntry>)
    ensures
        forall|m: &mut Sender, pkt: &[u8], t2: u64, r: bool| #[trigger]
            call_ensures(Sender::on_feedback, (m, pkt, t2), r)
                && crate::protocol::parsed_feedback(pkt@) == Some((h, nacks)) && h.session
                == m.cfg.session ==> {
                &&& m.cfg.rate.mode == RateMode::Adaptive && h.target_rate > 0 ==> final(m)@.target_bps == h.target_rate && final(m)@.stats.target_rate_bps == h.target_rate
                &&& m.cfg.rate.mode == RateMode::Fixed || h.target_rate == 0 ==> final(m)@.target_bps == m@.target_bps && final(m)@.stats.target_rate_bps
                    == m@.stats.target_rate_bps
            },
{
}

/// Law: the last rate that the receiver names counts, whatever came before it.
pub proof fn last_rate_counts(
    h1: FeedbackHeader,
    nacks1: Seq<NackEntry>,
    h2: FeedbackHeader,
    nacks2: Seq<NackEntry>,
)
    ensures
        forall|
            m: &mut Sender,
            p1: &[u8],
            t1: u64,
            r1: bool,
            n: &mut Sender,
            p2: &[u8],
            t2: u64,
            r2: bool,
        |
            #![trigger call_ensures(Sender::on_feedback, (m, p1, t1), r1), call_ensures(Sender::on_feedback, (n, p2, t2), r2)]
            call_ensures(Sender::on_feedback, (m, p1, t1), r1) && *n == *final(m) && call_ensures(
                Sender::on_feedback,
                (n, p2, t2),
                r2,
            ) && crate::protocol::parsed_feedback(p2@) == Some((h2, nacks2)) && h2.session
                == m.cfg.session && m.cfg.rate.mode == RateMode::Adaptive && h2.target_rate > 0
                ==> final(n)@.target_bps == h2.target_rate,
{
    rate_follows_feedback(h2, nacks2);
}

/// Law: a FEEDBACK PDU brings the tick to echo, the receiver's progress and, once,
/// the word that it is done; and it touches nothing that the sender has sent.
pub proof fn feedback_is_taken_in(h: FeedbackHeader, nacks: Seq<NackEntry>)
    ensures
        forall|m: &mut Sender, pkt: &[u8], t2: u64, r: bool| #[trigger]
            call_ensures(Sender::on_feedback, (m, pkt, t2), r)
                && crate::protocol::parsed_feedback(pkt@) == Some((h, nacks)) && h.session
                == m.cfg.session ==> {
                &&& final(m)@.tick.pending
                &&& final(m)@.tick.val == h.tick
                &&& final(m)@.tick.is_net == h.tick_is_network
                &&& final(m)@.tick.t2 == t2
                &&& final(m)@.stats.hi_contig == h.hi_contig
                &&& final(m)@.done == (m@.done || h.done)
                &&& r == final(m)@.done
                &&& final(m)@.new_done == m@.new_done
                &&& final(m)@.stats.packets_sent == m@.stats.packets_sent
                &&& final(m)@.stats.bytes_sent == m@.stats.bytes_sent
                &&& final(m)@.stats.retrans_sent == m@.stats.retrans_sent
                &&& final(m)@.stats.total_blocks == m@.stats.total_blocks
                &&& final(m)@.stats.total_bytes == m@.stats.total_bytes
                &&& final(m)@.stats.block_size == m@.stats.block_size
            },
{
}

/// Law: a datagram of another session, or that is no FEEDBACK PDU, changes nothing
/// and tells nothing.
pub proof fn other_feedback_is_ignored(pkt: Seq<u8>)
    ensures
        forall|m: &mut Sender, p: &[u8], t2: u64, r: bool| #[trigger]
            call_ensures(Sender::on_feedback, (m, p, t2), r) && p@ == pkt && (match
                crate::protocol::parsed_feedback(pkt) {
                None => true,
                Some((h, _)) => h.session != m.cfg.session,
            }) ==> final(m)@ == m@ && final(m).cfg == m.cfg && r == m@.done,
{
}

/// Law: the queue hands out the lowest block first and each queued block once.
pub proof fn queue_hands_out_lowest(nacks: Seq<NackEntry>)
    ensures
        forall|q: &mut RexQueue, entries: &[NackEntry], u: ()| #[trigger]
            call_ensures(RexQueue::push_retransmits, (q, entries), u) ==> forall|s: u64|
                #[trigger] final(q)@.contains(s) <==> q@.contains(s) || exists|i: int|
                    0 <= i < entries@.len() && (#[trigger] entries@[i]).block_seq == s,
        forall|q: &mut RexQueue, r: Option<u64>| #[trigger]
            call_ensures(RexQueue::pop_retransmit, (q,), r) ==> match r {
                Some(s) => {
                    &&& q@.contains(s)
                    &&& !final(q)@.contains(s)
                    &&& forall|t: u64| #[trigger] q@.contains(t) ==> s <= t
                    &&& forall|t: u64| t != s ==> (#[trigger] final(q)@.contains(t) == q@.contains(
                        t,
                    ))
                },
                None => forall|t: u64| !#[trigger] q@.contains(t),
            },
        forall|q: &RexQueue, r: usize| #[trigger]
            call_ensures(RexQueue::rex_len, (q,), r) ==> r == q@.len(),
        forall|q: &RexQueue, r: bool| #[trigger]
            call_ensures(RexQueue::is_empty, (q,), r) && r ==> forall|t: u64|
                !#[trigger] q@.contains(t),
{
}

// --- ticks ------------------------------------------------------------------

/// Law: round trips are measured end to end. A network tick that the receiver sent
/// at `sent`, that the sender took in at `t2` and stamped into a block at `now`,
/// and that came back at `back`, measures the way there and back without the time
/// that the sender held it; a path tick measures all of it. Which of the two it is
/// comes through.
pub proof fn ticks_measure_round_trips(
    fh: FeedbackHeader,
    nacks: Seq<NackEntry>,
    h: DataHeader,
    payload: Seq<u8>,
    t2: u64,
    now: u64,
    back: u64,
)
    requires
        t2 <= now,
        fh.tick + (now - t2) <= u64::MAX,
    ensures
        forall|
            m: &mut Sender,
            pkt: &[u8],
            r: bool,
            t: &mut TickState,
            buf: &mut [u8],
            u: (),
            got: DataHeader,
            s: Option<RttSample>,
        |
            #![trigger call_ensures(Sender::on_feedback, (m, pkt, t2), r), call_ensures(attach_tick, (t, buf, now), u), call_ensures(rtt_sample, (&got, back), s)]
            call_ensures(Sender::on_feedback, (m, pkt, t2), r)
                && crate::protocol::parsed_feedback(pkt@) == Some((fh, nacks)) && fh.session
                == m.cfg.session && *t == final(m)@.tick && call_ensures(
                attach_tick,
                (t, buf, now),
                u,
            ) && buf@ == crate::protocol::data_header_bytes(h) + payload
                && crate::protocol::parsed_data_header(final(buf)@) == Some(got) && call_ensures(
                rtt_sample,
                (&got, back),
                s,
            ) ==> {
                let held: int = if fh.tick_is_network {
                    now - t2
                } else {
                    0
                };
                let trip = back - fh.tick - held;
                &&& 0 <= trip <= 60_000_000 ==> s is Some && s->Some_0.micros == trip
                    && s->Some_0.network == fh.tick_is_network
                &&& trip < 0 || trip > 60_000_000 ==> s is None
                &&& got.block_seq == h.block_seq && got.payload_len == h.payload_len
                    && got.session == h.session && got.payload_crc == h.payload_crc
                    && got.rex_index == h.rex_index
                &&& final(buf)@.skip(DATA_HEADER_SIZE as int) == payload
                &&& !final(t).pending
            },
{
    feedback_is_taken_in(fh, nacks);
    let t = TickState { pending: true, val: fh.tick, is_net: fh.tick_is_network, t2 };
    crate::sender::tick_leaves_block_alone(t, now, h, payload);
    let g = DataHeader {
        flags: crate::sender::tick_flags(t, h.flags),
        echo_tick: crate::sender::echoed_tick(t, now),
        ..h
    };
    crate::protocol::data_header_round_trip(g, payload);
    let whole = crate::protocol::data_header_bytes(g) + payload;
    assert(whole.skip(DATA_HEADER_SIZE as int) =~= payload);
}

/// Law: a header without a tick measures nothing; one with a tick measures the
/// time since, as a network trip exactly where its flag says so.
pub proof fn samples_are_of_the_flagged_kind(h: DataHeader, now: u64)
    ensures
        forall|s: Option<RttSample>| #[trigger]
            call_ensures(rtt_sample, (&h, now), s) ==> {
                &&& h.flags & FLAG_HAS_TICK == 0 ==> s is None
                &&& h.flags & FLAG_HAS_TICK != 0 && h.echo_tick <= now <= h.echo_tick + 60_000_000
                    ==> s is Some && s->Some_0.micros == now - h.echo_tick && (s->Some_0.network
                    <==> h.flags & FLAG_TICK_N != 0)
                &&& now < h.echo_tick || now > h.echo_tick + 60_000_000 ==> s is None
            },
{
}

/// Law: without a waiting tick a block goes out as it was built, and no tick goes
/// out twice.
pub proof fn ticks_go_out_once(now: u64)
    ensures
        forall|t: &mut TickState, buf: &mut [u8], u: ()| #[trigger]
            call_ensures(attach_tick, (t, buf, now), u) ==> {
                &&& !final(t).pending
                &&& !t.pending ==> final(buf)@ == buf@
            },
{
}

// --- the sender's start and end ---------------------------------------------

/// Law: a sender starts at its target rate, or at the ceiling where it has none,
/// with nothing sent, queued or done, and its statistics tell the size of the
/// transfer.
pub proof fn senders_start_fresh(cfg: SendConfig, stats: Stats)
    ensures
        forall|r: Sender| #[trigger]
            call_ensures(Sender::new, (cfg, stats), r) ==> {
                &&& cfg.rate.target_bps > 0 ==> r@.target_bps == cfg.rate.target_bps
                &&& cfg.rate.target_bps == 0 ==> r@.target_bps == cfg.rate.max_bps
                &&& r@.stats.target_rate_bps == r@.target_bps
                &&& !r@.done && !r@.new_done && !r@.tick.pending
                &&& forall|q: u64| !#[trigger] r@.rex.contains(q)
                &&& cfg.file_size >= 0 ==> r@.stats.total_bytes == cfg.file_size
                &&& r@.stats.total_blocks == cfg.total_blocks
                &&& r@.stats.block_size == cfg.block_size
                &&& r.cfg.session == cfg.session && r.cfg.crypto == cfg.crypto && r.cfg.rate
                    == cfg.rate && r.cfg.file_size == cfg.file_size && r.cfg.block_size
                    == cfg.block_size && r.cfg.total_blocks == cfg.total_blocks
                &&& cfg.read_workers > 0 ==> r.cfg.read_workers == cfg.read_workers
                &&& cfg.read_workers == 0 ==> r.cfg.read_workers == 2
            },
{
}

/// Law: a sender ends as finished exactly when the receiver is done, as stopped
/// exactly when it was asked to end before that, and else goes on.
pub proof fn senders_end_when_done(stop: bool)
    ensures
        forall|s: &Sender, r: SendStep| #[trigger]
            call_ensures(Sender::next_step, (s, stop), r) ==> {
                &&& r == SendStep::Finished <==> s@.done
                &&& r == SendStep::Stopped <==> stop && !s@.done
                &&& r == SendStep::Continue <==> !stop && !s@.done
            },
{
}

/// Law: FIN is due exactly when every block was injected and none is queued, and
/// its PDU names the session and the number of blocks.
pub proof fn fin_follows_last_block()
    ensures
        forall|s: &Sender, r: bool| #[trigger]
            call_ensures(Sender::fin_due, (s,), r) ==> {
                &&& r ==> s@.new_done && forall|q: u64| !#[trigger] s@.rex.contains(q)
                &&& !r ==> !s@.new_done || exists|q: u64| #[trigger] s@.rex.contains(q)
            },
        forall|s: &Sender, r: Vec<u8>| #[trigger]
            call_ensures(Sender::fin_pdu, (s,), r) ==> r@.len() == 16
                && crate::protocol::parsed_fin(r@) == Some((s.cfg.session, s.cfg.total_blocks)),
{
    assert forall|s: &Sender, r: bool| #[trigger]
        call_ensures(Sender::fin_due, (s,), r) && !r && s@.new_done implies exists|q: u64|
        #[trigger] s@.rex.contains(q) by {
        if forall|q: u64| !#[trigger] s@.rex.contains(q) {
            assert(s@.rex =~= Set::<u64>::empty());
        }
    }
    assert forall|s: &Sender, r: Vec<u8>| #[trigger]
        call_ensures(Sender::fin_pdu, (s,), r) implies r@.len() == 16
        && crate::protocol::parsed_fin(r@) == Some((s.cfg.session, s.cfg.total_blocks)) by {
        crate::protocol::start_and_fin_round_trip(
            s.cfg.session,
            s.cfg.total_blocks,
            Seq::empty(),
        );
        assert(r@ + Seq::<u8>::empty() =~= r@);
    }
}

/// Law: a batch that was sent is counted: its packets and bytes as sent, its
/// retransmissions as such, and nothing else changes.
pub proof fn batches_are_counted(b: Batch)
    ensures
        forall|m: &mut Sender, u: ()| #[trigger]
            call_ensures(Sender::count_batch, (m, &b), u) && m@.stats.packets_sent + b.rex_n
                + b.new_n <= u64::MAX && m@.stats.bytes_sent + b.rex_bytes + b.new_bytes
                <= u64::MAX && m@.stats.retrans_sent + b.rex_n <= u64::MAX ==> {
                &&& final(m)@.stats.packets_sent == m@.stats.packets_sent + b.rex_n + b.new_n
                &&& final(m)@.stats.bytes_sent == m@.stats.bytes_sent + b.rex_bytes + b.new_bytes
                &&& final(m)@.stats.retrans_sent == m@.stats.retrans_sent + b.rex_n
                &&& final(m)@.stats.hi_contig == m@.stats.hi_contig
                &&& final(m)@.stats.nacks_recv == m@.stats.nacks_recv
                &&& final(m)@.stats.target_rate_bps == m@.stats.target_rate_bps
                &&& final(m)@.rex == m@.rex && final(m)@.tick == m@.tick
                &&& final(m)@.target_bps == m@.target_bps && final(m)@.done == m@.done
                &&& final(m)@.new_done == m@.new_done
            },
{
}

/// Law: the wait for a receiver goes on until it is asked to end or time is up,
/// and the failure tells which; a stop is told as one.
pub proof fn waits_end_for_a_reason(stop: bool, late: bool)
    ensures
        forall|r: Result<(), IoError>| #[trigger]
            call_ensures(keep_waiting, (stop, late), r) ==> {
                &&& r is Ok <==> !stop && !late
                &&& stop ==> r is Err && r->Err_0.kind == IoKind::Stopped && r->Err_0.message@
                    == "stopped while waiting for receiver"@
                &&& late && !stop ==> r is Err && r->Err_0.kind == IoKind::TimedOut
                    && r->Err_0.message@ == "timed out waiting for receiver START"@
            },
        forall|e: IoError| #[trigger]
            call_ensures(stopped_error, (), e) ==> e.kind == IoKind::Stopped && e.message@
                == "sender stopped"@,
{
}

/// Law: a sender injects at its target rate as far as the caller's controls let
/// it, and never at none.
pub proof fn injection_keeps_to_controls()
    ensures
        forall|s: &Sender, r: u64| #[trigger]
            call_ensures(Sender::injection_rate, (s, None::<&TransferControl>), r) ==> (if
                s@.target_bps > 0 {
                r == s@.target_bps
            } else {
                r == 1
            }),
        forall|s: &Sender, c: &TransferControl, r: u64| #[trigger]
            call_ensures(Sender::injection_rate, (s, Some(c)), r) ==> {
                &&& r >= 1
                &&& s@.target_bps >= 1 ==> r <= s@.target_bps
                &&& c.paused() ==> r <= 1_000_000
                &&& c.paused() && s@.target_bps >= 1_000_000 ==> r == 1_000_000
                &&& !c.paused() && c.limit() is Some ==> r <= c.limit()->Some_0 || r == 1
                &&& !c.paused() && c.limit() is Some && 1 <= s@.target_bps <= c.limit()->Some_0
                    ==> r == s@.target_bps
                &&& !c.paused() && c.limit() is Some && 1 <= c.limit()->Some_0 <= s@.target_bps
                    ==> r == c.limit()->Some_0
                &&& !c.paused() && c.limit() is None && s@.target_bps >= 1 ==> r == s@.target_bps
            },
{
}

} // verus!
