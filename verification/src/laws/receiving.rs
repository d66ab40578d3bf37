//! What a receiver makes of datagrams, what it writes, and what it tells the
//! sender.

use crate::crypto::AeadBox;
use crate::error::{IoError, IoKind};
use crate::io::{BlockSink, BlockSource};
use crate::protocol::{decode_feedback, DataHeader, FeedbackHeader, NackEntry};
use crate::receiver::{
    check_packet, feedback_sent, flush_next, nack_cap, new_receiver, next_round, start_due,
    write_failure_text, writeback_prefix, writeback_range, Accepted, Feedback, FeedbackInput,
    FeedbackState, FlushNext, PacketCheck, PacketOutcome, Receiver_, RecvConfig, RecvState, WriteFailure,
};
use crate::sender::{prefetch_block, SendConfig};
use crate::stats::Stats;
use vstd::prelude::*;

verus! {

// --- datagrams --------------------------------------------------------------

/// Law: what a datagram is to a receiver. A block in clear is taken exactly where
/// it is of this session, complete and intact; a changed one is told apart from
/// one that is not for this transfer; and the payload of a block stands behind
/// its header afterwards.
pub proof fn datagrams_are_told_apart()
    ensures
        forall|session: u32, pkt: &mut [u8], r: PacketCheck| #[trigger]
            call_ensures(check_packet, (session, None::<&AeadBox>, pkt), r) ==> {
                let whole = pkt@.len() >= 36 && pkt@[0] == 1;
                let h = crate::protocol::parsed_data_header(pkt@)->Some_0;
                let payload = pkt@.subrange(36, 36 + h.payload_len);
                let ours = whole && h.session == session && 36 + h.payload_len <= pkt@.len();
                let intact = crate::protocol::crc32c_of(payload) == h.payload_crc;
                &&& final(pkt)@.len() == pkt@.len()
                &&& r is Fin <==> pkt@.len() >= 16 && pkt@[0] == 4
                &&& r is Block <==> ours && intact
                &&& r is Block ==> r->Block_0 == h && final(pkt)@.subrange(
                    36,
                    36 + h.payload_len,
                ) == payload
                &&& r is Corrupt <==> ours && !intact
            },
        forall|session: u32, b: &AeadBox, pkt: &mut [u8], r: PacketCheck| #[trigger]
            call_ensures(check_packet, (session, Some(b), pkt), r) ==> {
                let whole = pkt@.len() >= 36 && pkt@[0] == 1;
                let h = crate::protocol::parsed_data_header(pkt@)->Some_0;
                let n = 36 + h.payload_len;
                let opened = b.opened(
                    h.block_seq,
                    pkt@.subrange(36, n),
                    pkt@.subrange(n, n + 16),
                );
                let ours = whole && h.session == session;
                &&& final(pkt)@.len() == pkt@.len()
                &&& r is Fin <==> pkt@.len() >= 16 && pkt@[0] == 4
                &&& r is Block <==> ours && n + 16 <= pkt@.len() && opened is Some
                &&& r is Block ==> r->Block_0 == h && final(pkt)@.subrange(36, n)
                    == opened->Some_0
                &&& r is Corrupt <==> ours && !(n + 16 <= pkt@.len() && opened is Some)
            },
{
    assert forall|session: u32, pkt: &mut [u8], r: PacketCheck| #[trigger]
        call_ensures(check_packet, (session, None::<&AeadBox>, pkt), r) implies {
        let whole = pkt@.len() >= 36 && pkt@[0] == 1;
        let h = crate::protocol::parsed_data_header(pkt@)->Some_0;
        let payload = pkt@.subrange(36, 36 + h.payload_len);
        let ours = whole && h.session == session && 36 + h.payload_len <= pkt@.len();
        let intact = crate::protocol::crc32c_of(payload) == h.payload_crc;
        &&& final(pkt)@.len() == pkt@.len()
        &&& r is Fin <==> pkt@.len() >= 16 && pkt@[0] == 4
        &&& r is Block <==> ours && intact
        &&& r is Block ==> r->Block_0 == h && final(pkt)@.subrange(36, 36 + h.payload_len)
            == payload
        &&& r is Corrupt <==> ours && !intact
    } by {
        let h = crate::protocol::parsed_data_header(pkt@)->Some_0;
        if pkt@.len() >= 36 + h.payload_len {
            assert(pkt@.skip(36).take(h.payload_len as int) =~= pkt@.subrange(
                36,
                36 + h.payload_len,
            ));
        }
    }
    assert forall|session: u32, b: &AeadBox, pkt: &mut [u8], r: PacketCheck| #[trigger]
        call_ensures(check_packet, (session, Some(b), pkt), r) implies {
        let whole = pkt@.len() >= 36 && pkt@[0] == 1;
        let h = crate::protocol::parsed_data_header(pkt@)->Some_0;
        let n = 36 + h.payload_len;
        let opened = b.opened(h.block_seq, pkt@.subrange(36, n), pkt@.subrange(n, n + 16));
        let ours = whole && h.session == session;
        &&& final(pkt)@.len() == pkt@.len()
        &&& r is Fin <==> pkt@.len() >= 16 && pkt@[0] == 4
        &&& r is Block <==> ours && n + 16 <= pkt@.len() && opened is Some
        &&& r is Block ==> r->Block_0 == h && final(pkt)@.subrange(36, n) == opened->Some_0
        &&& r is Corrupt <==> ours && !(n + 16 <= pkt@.len() && opened is Some)
    } by {
        let h = crate::protocol::parsed_data_header(pkt@)->Some_0;
        let n = 36 + h.payload_len;
        if pkt@.len() >= n + 16 {
            assert(pkt@.skip(36).take(h.payload_len as int) =~= pkt@.subrange(36, n));
            assert(pkt@.skip(36).subrange(
                h.payload_len as int,
                h.payload_len + 16,
            ) =~= pkt@.subrange(n, n + 16));
        }
    }
}

// --- blocks -----------------------------------------------------------------

/// Law: an intact block counts as arrived from then on, and nothing else does. It
/// waits to be written where there is room for it, and is left to be written at
/// once where there is none; one that had arrived before changes nothing but its
/// counter.
pub proof fn blocks_arrive_once()
    ensures
        forall|m: &mut Receiver_, st: &mut Stats, seq: u64, payload: &[u8], r: Accepted| #[trigger]
            call_ensures(Receiver_::accept, (m, st, seq, payload), r) ==> {
                let inside = seq < m@.bits.len();
                let before = inside && m@.bits[seq as int];
                &&& r == Accepted::OutOfRange <==> !inside
                &&& r == Accepted::Duplicate <==> before
                &&& r == Accepted::Staged <==> inside && !before && m@.free > 0
                &&& r == Accepted::WriteThrough <==> inside && !before && m@.free <= 0
                &&& final(m)@.bits.len() == m@.bits.len()
                &&& inside ==> final(m)@.bits[seq as int]
                &&& forall|i: int|
                    0 <= i < m@.bits.len() && i != seq ==> #[trigger] final(m)@.bits[i]
                        == m@.bits[i]
                &&& r != Accepted::Staged ==> final(m)@.ready == m@.ready && final(m)@.stage
                    == m@.stage && final(m)@.free == m@.free
                &&& r == Accepted::Staged ==> final(m)@.stage == m@.stage.insert(seq, payload@)
                    && final(m)@.free == m@.free - 1 && final(m)@.ready == m@.ready.update(
                    seq as int,
                    true,
                )
                &&& final(m)@.seen_any
                &&& final(m)@.max_seen >= m@.max_seen && final(m)@.max_seen >= seq
                &&& final(m)@.max_seen == m@.max_seen || final(m)@.max_seen == seq
                &&& final(m)@.all_sent == m@.all_sent
                &&& final(m)@.done == m@.done
                &&& final(m)@.write_front == m@.write_front
                &&& final(m).cfg == m.cfg
            },
        forall|m: &mut Receiver_, seq: u64, u: ()| #[trigger]
            call_ensures(Receiver_::wrote_directly, (m, seq), u) && seq < m@.ready.len() ==> {
                &&& final(m)@.ready == m@.ready.update(seq as int, true)
                &&& final(m)@.bits == m@.bits
                &&& final(m)@.stage == m@.stage
                &&& final(m)@.free == m@.free
                &&& final(m)@.write_front == m@.write_front
                &&& final(m)@.max_seen == m@.max_seen
                &&& final(m)@.done == m@.done
                &&& final(m)@.all_sent == m@.all_sent
            },
{
}

/// Law: a new block counts once, with its bytes; one that had arrived before
/// counts as a duplicate, and one outside the object not at all.
pub proof fn arrivals_are_counted()
    ensures
        forall|m: &mut Receiver_, st: &mut Stats, seq: u64, payload: &[u8], r: Accepted| #[trigger]
            call_ensures(Receiver_::accept, (m, st, seq, payload), r) && st.payload_recv
                + payload@.len() <= u64::MAX && st.blocks_written < u64::MAX && st.dup_recv
                < u64::MAX ==> {
                let new = r == Accepted::Staged || r == Accepted::WriteThrough;
                &&& final(st).payload_recv == st.payload_recv + (if new {
                    payload@.len() as int
                } else {
                    0
                })
                &&& final(st).blocks_written == st.blocks_written + (if new {
                    1int
                } else {
                    0
                })
                &&& final(st).dup_recv == st.dup_recv + (if r == Accepted::Duplicate {
                    1int
                } else {
                    0
                })
                &&& final(st).packets_recv == st.packets_recv
                &&& final(st).bytes_recv == st.bytes_recv
                &&& final(st).corrupt_recv == st.corrupt_recv
                &&& final(st).target_rate_bps == st.target_rate_bps
                &&& final(st).hi_contig == st.hi_contig
            },
{
}

/// Law: a datagram is counted with its bytes, whatever it is; an empty one is not.
/// Only a FIN says that every block was sent, only a block that failed its check
/// counts as corrupt, and what is not a block leaves the receiver's blocks alone.
pub proof fn datagrams_are_taken_in<S: BlockSink + ?Sized>()
    ensures
        forall|m: &mut Receiver_, st: &mut Stats, pkt: &mut [u8], sink: &mut S, r: PacketOutcome|
         #[trigger]
            call_ensures(Receiver_::ingest::<S>, (m, st, pkt, sink), r) ==> {
                &&& pkt@.len() == 0 ==> r is Ignored && final(st).packets_recv == st.packets_recv
                    && final(st).bytes_recv == st.bytes_recv
                &&& pkt@.len() > 0 && st.packets_recv < u64::MAX ==> final(st).packets_recv
                    == st.packets_recv + 1
                &&& st.bytes_recv + pkt@.len() <= u64::MAX ==> final(st).bytes_recv
                    == st.bytes_recv + pkt@.len()
                &&& r is Fin ==> final(m)@.all_sent && pkt@.len() >= 16 && pkt@[0] == 4
                &&& !(r is Fin) ==> final(m)@.all_sent == m@.all_sent
                &&& r is Corrupt && st.corrupt_recv < u64::MAX ==> final(st).corrupt_recv
                    == st.corrupt_recv + 1
                &&& !(r is Corrupt) ==> final(st).corrupt_recv == st.corrupt_recv
                &&& !(r is Block) ==> final(m)@.bits == m@.bits && final(m)@.ready == m@.ready
                    && final(m)@.stage == m@.stage && final(m)@.free == m@.free
                    && final(m)@.max_seen == m@.max_seen && final(m)@.seen_any == m@.seen_any
                    && final(st).payload_recv == st.payload_recv && final(st).blocks_written
                    == st.blocks_written && final(st).dup_recv == st.dup_recv
                &&& final(m)@.done == m@.done
                &&& final(m)@.write_front == m@.write_front
                &&& final(m).cfg == m.cfg
            },
{
}

/// Whether the block in clear that the datagram `pkt` carries arrived: it counts
/// as arrived, and was staged or, where there was no room, written at its place; a
/// sink that is `sure` to take writes inside its size took it.
pub open spec fn block_arrived(
    cfg: RecvConfig,
    pkt: Seq<u8>,
    before: RecvState,
    after: RecvState,
    told: bool,
    sure: bool,
    held: Seq<u8>,
    left: Seq<u8>,
    header: DataHeader,
    accepted: Accepted,
    write_error: Option<IoError>,
) -> bool {
    let seq = header.block_seq;
    let payload = pkt.subrange(36, 36 + header.payload_len);
    let inside = seq < before.bits.len();
    &&& crate::protocol::parsed_data_header(pkt) == Some(header)
    &&& header.session == cfg.session
    &&& crate::protocol::crc32c_of(payload) == header.payload_crc
    &&& inside ==> after.bits[seq as int]
    &&& forall|i: int|
        0 <= i < before.bits.len() && i != seq ==> #[trigger] after.bits[i] == before.bits[i]
    &&& accepted == Accepted::Staged <==> inside && !before.bits[seq as int] && before.free > 0
    &&& accepted == Accepted::WriteThrough <==> inside && !before.bits[seq as int] && before.free
        <= 0
    &&& accepted == Accepted::Duplicate <==> inside && before.bits[seq as int]
    &&& accepted == Accepted::Staged ==> after.stage == before.stage.insert(seq, payload)
        && after.ready == before.ready.update(seq as int, true)
    &&& accepted != Accepted::Staged ==> after.stage == before.stage
    &&& accepted == Accepted::WriteThrough && write_error is None ==> after.ready
        == before.ready.update(seq as int, true) && (told ==> left == crate::io::written(
        held,
        seq * cfg.block_size,
        payload,
    ))
    &&& accepted == Accepted::WriteThrough && write_error is Some ==> after.ready == before.ready
    &&& sure && seq * cfg.block_size + payload.len() <= held.len() ==> write_error is None
    &&& accepted != Accepted::WriteThrough ==> write_error is None && (told ==> left == held)
}

proof fn handled_block_arrived(
    cfg: RecvConfig,
    pkt: Seq<u8>,
    before: RecvState,
    after: RecvState,
    stats_before: Stats,
    stats_after: Stats,
    held: Seq<u8>,
    left: Seq<u8>,
    reliable: bool,
    r: PacketOutcome,
)
    requires
        cfg.crypto is None,
        r is Block,
        crate::receiver::handled(
            cfg,
            pkt,
            before,
            after,
            stats_before,
            stats_after,
            held,
            left,
            reliable,
            r,
        ),
    ensures
        block_arrived(
            cfg,
            pkt,
            before,
            after,
            true,
            reliable,
            held,
            left,
            r->header,
            r->accepted,
            r->write_error,
        ),
{
    let n = r->header.payload_len as int;
    assert(pkt.skip(36).take(n) =~= pkt.subrange(36, 36 + n));
}

/// Law: a block that is handed on is the one that the datagram carries. It counts
/// as arrived and is staged or, where there is no room, stands in the sink at its
/// place unless the write failed, which leaves it not ready.
pub proof fn carried_blocks_arrive<S: BlockSink + ?Sized>()
    ensures
        forall|m: &mut Receiver_, st: &mut Stats, pkt: &mut [u8], sink: &mut S, r: PacketOutcome|
         #[trigger]
            call_ensures(Receiver_::handle_packet::<S>, (m, st, pkt, sink), r) && r is Block
                && m.cfg.crypto is None ==> block_arrived(
                m.cfg,
                pkt@,
                m@,
                final(m)@,
                sink.modelled(),
                sink.modelled() && sink.reliable(),
                sink.contents(),
                final(sink).contents(),
                r->header,
                r->accepted,
                r->write_error,
            ),
{
    assert forall|
        m: &mut Receiver_,
        st: &mut Stats,
        pkt: &mut [u8],
        sink: &mut S,
        r: PacketOutcome,
    | #[trigger]
        call_ensures(Receiver_::handle_packet::<S>, (m, st, pkt, sink), r) && r is Block
            && m.cfg.crypto is None implies block_arrived(
        m.cfg,
        pkt@,
        m@,
        final(m)@,
        sink.modelled(),
        sink.modelled() && sink.reliable(),
        sink.contents(),
        final(sink).contents(),
        r->header,
        r->accepted,
        r->write_error,
    ) by {
        let sure = crate::receiver::surely_written(&*sink);
        let (held, left) = choose|held: Seq<u8>, left: Seq<u8>|
            crate::receiver::is_held(&*sink, held) && crate::receiver::is_held(
                &*final(sink),
                left,
            ) && #[trigger] crate::receiver::handled(
                m.cfg,
                pkt@,
                m@,
                final(m)@,
                *st,
                *final(st),
                held,
                left,
                sure,
                r,
            );
        handled_block_arrived(
            m.cfg,
            pkt@,
            m@,
            final(m)@,
            *st,
            *final(st),
            held,
            left,
            sure,
            r,
        );
    }
}

/// Law: a block that a sender reads and a receiver of the same session takes in, in
/// clear, is staged with the bytes that it has in the object.
#[verifier::spinoff_prover]
pub proof fn injected_blocks_are_staged<S: BlockSource + ?Sized, K: BlockSink + ?Sized>(
    cfg: SendConfig,
    source: &S,
    seq: u64,
)
    requires
        cfg.wf(),
        cfg.crypto is None,
        cfg.block_size <= u16::MAX,
        source.modelled(),
        cfg.file_size == source.contents().len(),
        seq < cfg.total_blocks,
    ensures
        forall|
            buf: &mut [u8],
            n: usize,
            m: &mut Receiver_,
            st: &mut Stats,
            pkt: &mut [u8],
            sink: &mut K,
            r: PacketOutcome,
        |
            #![trigger call_ensures(prefetch_block::<S>, (&cfg, source, buf, seq), Some(n)), call_ensures(Receiver_::handle_packet::<K>, (m, st, pkt, sink), r)]
            call_ensures(prefetch_block::<S>, (&cfg, source, buf, seq), Some(n)) && call_ensures(
                Receiver_::handle_packet::<K>,
                (m, st, pkt, sink),
                r,
            ) && pkt@ == final(buf)@.take(n as int) && m.cfg.crypto is None && m.cfg.session
                == cfg.session && seq < m@.bits.len() && !m@.bits[seq as int] && m@.free > 0 ==> {
                &&& r is Block
                &&& final(m)@.bits[seq as int]
                &&& final(m)@.stage.dom().contains(seq)
                &&& final(m)@.stage[seq] == crate::protocol::block_of(
                    source.contents(),
                    cfg.block_size as int,
                    seq as int,
                )
            },
{
    assert forall|
        buf: &mut [u8],
        n: usize,
        m: &mut Receiver_,
        st: &mut Stats,
        pkt: &mut [u8],
        sink: &mut K,
        r: PacketOutcome,
    |
        #![trigger call_ensures(prefetch_block::<S>, (&cfg, source, buf, seq), Some(n)), call_ensures(Receiver_::handle_packet::<K>, (m, st, pkt, sink), r)]
        call_ensures(prefetch_block::<S>, (&cfg, source, buf, seq), Some(n)) && call_ensures(
            Receiver_::handle_packet::<K>,
            (m, st, pkt, sink),
            r,
        ) && pkt@ == final(buf)@.take(n as int) && m.cfg.crypto is None && m.cfg.session
            == cfg.session && seq < m@.bits.len() && !m@.bits[seq as int] && m@.free > 0 implies {
        &&& r is Block
        &&& final(m)@.bits[seq as int]
        &&& final(m)@.stage.dom().contains(seq)
        &&& final(m)@.stage[seq] == crate::protocol::block_of(
            source.contents(),
            cfg.block_size as int,
            seq as int,
        )
    } by {
        crate::protocol::block_in_bounds(cfg.file_size as int, cfg.block_size as int, seq as int);
        let payload = choose|payload: Seq<u8>| #[trigger]
            crate::sender::is_given(cfg, source, seq, payload) && final(buf)@.take(n as int)
                == crate::sender::block_pdu(cfg, payload, seq, false)
                && crate::sender::taken_for_itself(cfg, payload, seq, false);
        reveal(crate::sender::taken_for_itself);
        assert(payload == crate::protocol::block_of(
            source.contents(),
            cfg.block_size as int,
            seq as int,
        ));
    }
}

// --- flushing ---------------------------------------------------------------

/// Law: a flush passes exactly the ready blocks at the front, up to the first that
/// is not ready; it takes the staged ones among them off the stage, makes room for
/// as many, and leaves the others and what has arrived alone.
pub proof fn flushes_pass_ready_blocks<S: BlockSink + ?Sized>()
    ensures
        forall|m: &mut Receiver_, sink: &mut S, r: Vec<WriteFailure>| #[trigger]
            call_ensures(Receiver_::flush_ready::<S>, (m, sink), r) && m.wf() ==> {
                let from = m@.write_front;
                let to = final(m)@.write_front;
                let total = m.cfg.total_blocks;
                &&& from <= to <= total
                &&& forall|i: int| from <= i < to ==> #[trigger] m@.ready[i]
                &&& to < total ==> !m@.ready[to as int]
                &&& forall|q: u64| #[trigger]
                    final(m)@.stage.dom().contains(q) <==> m@.stage.dom().contains(q) && q >= to
                &&& forall|q: u64| #[trigger]
                    final(m)@.stage.dom().contains(q) ==> final(m)@.stage[q] == m@.stage[q]
                &&& final(m)@.free + final(m)@.stage.dom().len() == m@.free + m@.stage.dom().len()
                &&& final(m)@.bits == m@.bits
                &&& final(m)@.ready == m@.ready
                &&& final(m)@.max_seen == m@.max_seen
                &&& final(m)@.seen_any == m@.seen_any
                &&& final(m)@.all_sent == m@.all_sent
                &&& final(m)@.done == m@.done
                &&& forall|i: int| #![trigger r@[i]]
                    0 <= i < r@.len() ==> from <= r@[i].seq < to && m@.stage.dom().contains(
                        r@[i].seq,
                    )
            },
{
    assert forall|m: &mut Receiver_, sink: &mut S, r: Vec<WriteFailure>| #[trigger]
        call_ensures(Receiver_::flush_ready::<S>, (m, sink), r) && m.wf() implies {
        let from = m@.write_front;
        let to = final(m)@.write_front;
        let total = m.cfg.total_blocks;
        &&& from <= to <= total
        &&& forall|i: int| from <= i < to ==> #[trigger] m@.ready[i]
        &&& to < total ==> !m@.ready[to as int]
        &&& forall|q: u64| #[trigger]
            final(m)@.stage.dom().contains(q) <==> m@.stage.dom().contains(q) && q >= to
        &&& forall|q: u64| #[trigger]
            final(m)@.stage.dom().contains(q) ==> final(m)@.stage[q] == m@.stage[q]
        &&& final(m)@.free + final(m)@.stage.dom().len() == m@.free + m@.stage.dom().len()
        &&& final(m)@.bits == m@.bits
        &&& final(m)@.ready == m@.ready
        &&& final(m)@.max_seen == m@.max_seen
        &&& final(m)@.seen_any == m@.seen_any
        &&& final(m)@.all_sent == m@.all_sent
        &&& final(m)@.done == m@.done
        &&& forall|i: int| #![trigger r@[i]]
            0 <= i < r@.len() ==> from <= r@[i].seq < to && m@.stage.dom().contains(r@[i].seq)
    } by {
        crate::receiver::front_after_bounds(
            m@.ready,
            m@.write_front as int,
            m.cfg.total_blocks as int,
        );
    }
}

/// Law: a flush that meets no failure keeps a receiver's holdings right: what it
/// wrote are blocks of the object at their places. Once every block is ready it
/// leaves exactly the object in the sink.
pub proof fn flushes_write_the_object<S: BlockSink + ?Sized>(data: Seq<u8>)
    ensures
        forall|m: &mut Receiver_, sink: &mut S, r: Vec<WriteFailure>| #[trigger]
            call_ensures(Receiver_::flush_ready::<S>, (m, sink), r) && m.wf() && sink.modelled()
                && r@.len() == 0 && data.len() == m.cfg.file_size && crate::receiver::holds_object(
                m@,
                sink.contents(),
                data,
                m.cfg.block_size as int,
            ) ==> {
                &&& crate::receiver::holds_object(
                    final(m)@,
                    final(sink).contents(),
                    data,
                    m.cfg.block_size as int,
                )
                &&& (forall|i: int| 0 <= i < m.cfg.total_blocks ==> #[trigger] m@.ready[i])
                    ==> final(m)@.write_front == m.cfg.total_blocks && final(sink).contents()
                    == data
            },
{
    assert forall|m: &mut Receiver_, sink: &mut S, r: Vec<WriteFailure>| #[trigger]
        call_ensures(Receiver_::flush_ready::<S>, (m, sink), r) && m.wf() && sink.modelled()
            && r@.len() == 0 && data.len() == m.cfg.file_size && crate::receiver::holds_object(
            m@,
            sink.contents(),
            data,
            m.cfg.block_size as int,
        ) implies {
        &&& crate::receiver::holds_object(
            final(m)@,
            final(sink).contents(),
            data,
            m.cfg.block_size as int,
        )
        &&& (forall|i: int| 0 <= i < m.cfg.total_blocks ==> #[trigger] m@.ready[i]) ==> final(
            m)@.write_front == m.cfg.total_blocks && final(sink).contents() == data
    } by {
        crate::receiver::flush_keeps_object(
            m@,
            sink.contents(),
            data,
            m.cfg.block_size as int,
            m.cfg.stage_depth(),
        );
        if forall|i: int| 0 <= i < m.cfg.total_blocks ==> #[trigger] m@.ready[i] {
            crate::receiver::complete_transfer_is_exact(
                m@,
                sink.contents(),
                data,
                m.cfg.block_size as int,
                m.cfg.stage_depth(),
            );
        }
    }
}

/// Law: the flusher ends when every block is written, or when it is told to and
/// has nothing left to do; while it moves it goes on, and else it waits.
pub proof fn flushers_end_when_done()
    ensures
        forall|before: u64, front: u64, total: u64, stopped: bool, r: FlushNext| #[trigger]
            call_ensures(flush_next, (before, front, total, stopped), r) ==> {
                &&& front >= total ==> r == FlushNext::Finish
                &&& r == FlushNext::Again <==> front < total && front != before
                &&& r == FlushNext::Wait <==> front < total && front == before && !stopped
            },
        forall|seq: u64, e: &IoError, r: String| #[trigger]
            call_ensures(write_failure_text, (seq, e), r) ==> r@ == "recv: write error at block "@
                + crate::text::dec(seq as nat) + ": "@ + e.message@,
{
}

// --- building ---------------------------------------------------------------

/// Law: a receiver starts with nothing: no block has arrived, none is staged, and
/// nothing was seen. Each setting that was left at zero has its default, and the
/// others are as they were given.
pub proof fn receivers_start_fresh()
    ensures
        forall|cfg: RecvConfig, cpus: usize, st: &mut Stats, r: Receiver_| #[trigger]
            call_ensures(new_receiver, (cfg, cpus, st), r) && cfg.wf() ==> {
                &&& r@.bits.len() >= cfg.total_blocks
                &&& forall|i: int| 0 <= i < r@.bits.len() ==> !#[trigger] r@.bits[i]
                &&& forall|i: int| 0 <= i < r@.ready.len() ==> !#[trigger] r@.ready[i]
                &&& r@.stage.dom() == Set::<u64>::empty()
                &&& r@.write_front == 0
                &&& r@.max_seen == 0
                &&& !r@.seen_any
                &&& !r@.all_sent
                &&& !r@.done
                &&& r@.free >= 1
                &&& r@.free == 1 || r@.free * cfg.block_size <= 100_663_296
                &&& cfg.total_blocks > 0 ==> r@.free <= cfg.total_blocks
                &&& cfg.total_blocks > 0 && r@.free < cfg.total_blocks ==> (r@.free + 1)
                    * cfg.block_size > 100_663_296
                &&& r.cfg.file_size == cfg.file_size
                &&& r.cfg.block_size == cfg.block_size
                &&& r.cfg.total_blocks == cfg.total_blocks
                &&& r.cfg.session == cfg.session
                &&& r.cfg.rate == cfg.rate
                &&& r.cfg.crypto == cfg.crypto
                &&& cfg.read_workers > 0 ==> r.cfg.read_workers == cfg.read_workers
                &&& cfg.read_workers == 0 ==> r.cfg.read_workers == cpus
                &&& cfg.feedback_interval_us > 0 ==> r.cfg.feedback_interval_us
                    == cfg.feedback_interval_us
                &&& cfg.feedback_interval_us == 0 ==> r.cfg.feedback_interval_us == 5000
                &&& cfg.net_tick_interval_us > 0 ==> r.cfg.net_tick_interval_us
                    == cfg.net_tick_interval_us
                &&& cfg.net_tick_interval_us == 0 ==> r.cfg.net_tick_interval_us == 10000
                &&& cfg.max_nacks_per_pdu > 0 ==> r.cfg.max_nacks_per_pdu == cfg.max_nacks_per_pdu
                &&& cfg.max_nacks_per_pdu == 0 ==> r.cfg.max_nacks_per_pdu == 90
                &&& cfg.file_size >= 0 ==> final(st).total_bytes == cfg.file_size
                &&& final(st).total_blocks == cfg.total_blocks
                &&& final(st).block_size == cfg.block_size
                &&& final(st).target_rate_bps == cfg.rate.target_bps
                &&& final(st).packets_recv == st.packets_recv
                &&& final(st).hi_contig == st.hi_contig
            },
        forall|total: u64, r: FeedbackState| #[trigger]
            call_ensures(FeedbackState::new, (total,), r) ==> r.scanner@.total == total
                && r.scanner@.hi_contig == 0 && r.scanner@.next_scan == 0 && r.last_net_tick == 0
                && r.done_sends == 0 && (forall|q: u64| !#[trigger] r.scanner@.pending.contains(q))
                && (forall|q: u64| !#[trigger] r.scanner@.due.dom().contains(q)),
{
    assert forall|cfg: RecvConfig, cpus: usize, st: &mut Stats, r: Receiver_| #[trigger]
        call_ensures(new_receiver, (cfg, cpus, st), r) && cfg.wf() implies (r@.free == 1 || r@.free
        * cfg.block_size <= 100_663_296) && (cfg.total_blocks > 0 && r@.free < cfg.total_blocks
        ==> (r@.free + 1) * cfg.block_size > 100_663_296) && r@.bits.len()
        >= cfg.total_blocks by {
        let b = cfg.block_size as int;
        let w = 100_663_296int / b;
        assert(w * b <= 100_663_296 && (w + 1) * b > 100_663_296) by (nonlinear_arith)
            requires
                b > 0,
                w == 100_663_296int / b,
        ;
        let f = r@.free;
        assert(f <= w ==> f * b <= w * b) by (nonlinear_arith)
            requires
                b > 0,
        ;
        assert(f == 1 && w < 1 ==> (f + 1) * b > (w + 1) * b) by (nonlinear_arith)
            requires
                b > 0,
        ;
    }
}

// --- feedback ---------------------------------------------------------------

/// Law: what a feedback round tells the sender, as the sender reads it. The mark
/// is the number of blocks that have arrived without a gap, and the transfer is
/// done exactly where that is all of them; the tick, the rate and the session are
/// those of the round, and the blocks that it asks for are the ones that it
/// collected, in order.
pub proof fn rounds_tell_what_has_arrived()
    ensures
        forall|
            m: &mut Receiver_,
            fb: &mut FeedbackState,
            st: &mut Stats,
            input: FeedbackInput,
            f: Feedback,
            pkt: &[u8],
            d: Option<(FeedbackHeader, Vec<NackEntry>)>,
        |
            #![trigger call_ensures(Receiver_::feedback_round, (m, fb, st, input), Some(f)), call_ensures(decode_feedback, (pkt,), d)]
            call_ensures(Receiver_::feedback_round, (m, fb, st, input), Some(f)) && call_ensures(
                decode_feedback,
                (pkt,),
                d,
            ) && pkt@ == f.pdu@ && m.wf() && fb.scanner@.total == m.cfg.total_blocks
                && fb.scanner.wf() && f.due@.len() <= 0xffff ==> {
                &&& d is Some
                &&& d->Some_0.0.session == m.cfg.session
                &&& d->Some_0.0.tick == input.sent_at
                &&& d->Some_0.0.target_rate == input.target_bps
                &&& d->Some_0.0.tick_is_network <==> input.sent_at - fb.last_net_tick
                    >= m.cfg.net_tick_interval_us
                &&& fb.scanner@.hi_contig <= d->Some_0.0.hi_contig <= m.cfg.total_blocks
                &&& forall|i: int|
                    fb.scanner@.hi_contig <= i < d->Some_0.0.hi_contig ==> #[trigger] m@.bits[i]
                &&& d->Some_0.0.hi_contig < m.cfg.total_blocks
                    ==> !m@.bits[d->Some_0.0.hi_contig as int]
                &&& d->Some_0.0.done <==> d->Some_0.0.hi_contig == m.cfg.total_blocks
                &&& d->Some_0.1@.len() == f.due@.len()
                &&& forall|i: int|
                    0 <= i < f.due@.len() ==> (#[trigger] d->Some_0.1@[i]).block_seq == f.due@[i]
                &&& forall|i: int|
                    0 <= i < f.due@.len() && f.due@[i] <= i64::MAX ==> (
                    #[trigger] d->Some_0.1@[i]).rex_index == f.due@[i]
                &&& final(st).hi_contig == d->Some_0.0.hi_contig
                &&& final(st).target_rate_bps == input.target_bps
            },
{
    assert forall|
        m: &mut Receiver_,
        fb: &mut FeedbackState,
        st: &mut Stats,
        input: FeedbackInput,
        f: Feedback,
        pkt: &[u8],
        d: Option<(FeedbackHeader, Vec<NackEntry>)>,
    |
        #![trigger call_ensures(Receiver_::feedback_round, (m, fb, st, input), Some(f)), call_ensures(decode_feedback, (pkt,), d)]
        call_ensures(Receiver_::feedback_round, (m, fb, st, input), Some(f)) && call_ensures(
            decode_feedback,
            (pkt,),
            d,
        ) && pkt@ == f.pdu@ && m.wf() && fb.scanner@.total == m.cfg.total_blocks
            && fb.scanner.wf() && f.due@.len() <= 0xffff implies {
        &&& d is Some
        &&& d->Some_0.0.session == m.cfg.session
        &&& d->Some_0.0.tick == input.sent_at
        &&& d->Some_0.0.target_rate == input.target_bps
        &&& d->Some_0.0.tick_is_network <==> input.sent_at - fb.last_net_tick
            >= m.cfg.net_tick_interval_us
        &&& fb.scanner@.hi_contig <= d->Some_0.0.hi_contig <= m.cfg.total_blocks
        &&& forall|i: int|
            fb.scanner@.hi_contig <= i < d->Some_0.0.hi_contig ==> #[trigger] m@.bits[i]
        &&& d->Some_0.0.hi_contig < m.cfg.total_blocks ==> !m@.bits[d->Some_0.0.hi_contig as int]
        &&& d->Some_0.0.done <==> d->Some_0.0.hi_contig == m.cfg.total_blocks
        &&& d->Some_0.1@.len() == f.due@.len()
        &&& forall|i: int|
            0 <= i < f.due@.len() ==> (#[trigger] d->Some_0.1@[i]).block_seq == f.due@[i]
        &&& forall|i: int|
            0 <= i < f.due@.len() && f.due@[i] <= i64::MAX ==> (
            #[trigger] d->Some_0.1@[i]).rex_index == f.due@[i]
        &&& final(st).hi_contig == d->Some_0.0.hi_contig
        &&& final(st).target_rate_bps == input.target_bps
    } by {
        fb.scanner.state_is_wf();
        crate::receiver::front_after_bounds(
            m@.bits,
            fb.scanner@.hi_contig as int,
            m.cfg.total_blocks as int,
        );
        let network = input.sent_at - fb.last_net_tick >= m.cfg.net_tick_interval_us;
        let hi = crate::receiver::after_round_scan(
            m@,
            fb.scanner@,
            input.now,
            input.rto_us,
        ).hi_contig;
        let h = crate::receiver::feedback_header(
            m.cfg.session,
            input,
            network,
            hi,
            m.cfg.total_blocks,
        );
        let nacks = crate::receiver::nacks_for(f.due@);
        crate::protocol::feedback_round_trip(h, nacks, Seq::empty());
        assert(pkt@ + Seq::<u8>::empty() =~= pkt@);
    }
}

/// Law: a round asks only for blocks that were found missing, have not arrived
/// since and are due, each once, and for no more than the sender can serve in one
/// interval, or than fit. There is a PDU exactly where the sender is known.
pub proof fn rounds_ask_for_missing_blocks()
    ensures
        forall|
            m: &mut Receiver_,
            fb: &mut FeedbackState,
            st: &mut Stats,
            input: FeedbackInput,
            r: Option<Feedback>,
        |
            #![trigger call_ensures(Receiver_::feedback_round, (m, fb, st, input), r)]
            call_ensures(Receiver_::feedback_round, (m, fb, st, input), r) && m.wf()
                && fb.scanner.wf() && fb.scanner@.total == m.cfg.total_blocks && input.now
                + input.rto_us + 1000 <= u64::MAX ==> {
                &&& r is Some <==> input.have_peer
                &&& r matches Some(f) ==> {
                    &&& f.due@.len() <= m.cfg.max_nacks_per_pdu
                    &&& input.target_bps > 0 && input.per_interval > 0 ==> f.due@.len()
                        <= input.per_interval
                    &&& input.target_bps > 0 && input.per_interval == 0 ==> f.due@.len() <= 1
                    &&& f.due@.no_duplicates()
                    &&& forall|i: int| #![trigger f.due@[i]]
                        0 <= i < f.due@.len() ==> {
                            let q = f.due@[i];
                            &&& q < m.cfg.total_blocks
                            &&& !m@.bits[q as int]
                            &&& q <= m@.max_seen || m@.all_sent
                                || fb.scanner@.due.dom().contains(q)
                            &&& fb.scanner@.due.dom().contains(q) ==> fb.scanner@.due[q]
                                <= input.now
                            &&& final(fb).scanner@.due.dom().contains(q)
                                && final(fb).scanner@.due[q] == input.now + input.rto_us + 1000
                        }
                }
            },
{
    assert forall|
        m: &mut Receiver_,
        fb: &mut FeedbackState,
        st: &mut Stats,
        input: FeedbackInput,
        r: Option<Feedback>,
    |
        #![trigger call_ensures(Receiver_::feedback_round, (m, fb, st, input), r)]
        call_ensures(Receiver_::feedback_round, (m, fb, st, input), r) && m.wf()
            && fb.scanner.wf() && fb.scanner@.total == m.cfg.total_blocks && input.now
            + input.rto_us + 1000 <= u64::MAX && r is Some implies {
        let f = r->Some_0;
        &&& f.due@.len() <= m.cfg.max_nacks_per_pdu
        &&& input.target_bps > 0 && input.per_interval > 0 ==> f.due@.len() <= input.per_interval
        &&& input.target_bps > 0 && input.per_interval == 0 ==> f.due@.len() <= 1
        &&& f.due@.no_duplicates()
        &&& forall|i: int| #![trigger f.due@[i]]
            0 <= i < f.due@.len() ==> {
                let q = f.due@[i];
                &&& q < m.cfg.total_blocks
                &&& !m@.bits[q as int]
                &&& q <= m@.max_seen || m@.all_sent || fb.scanner@.due.dom().contains(q)
                &&& fb.scanner@.due.dom().contains(q) ==> fb.scanner@.due[q] <= input.now
                &&& final(fb).scanner@.due.dom().contains(q) && final(fb).scanner@.due[q]
                    == input.now + input.rto_us + 1000
            }
    } by {
        fb.scanner.state_is_wf();
        crate::receiver::front_after_bounds(
            m@.bits,
            fb.scanner@.hi_contig as int,
            m.cfg.total_blocks as int,
        );
        let f = r->Some_0;
        let scan = crate::receiver::after_round_scan(m@, fb.scanner@, input.now, input.rto_us);
        let cap = crate::receiver::nack_quota(
            input.target_bps,
            input.per_interval,
            m.cfg.max_nacks_per_pdu,
        );
        crate::losstracker::requests_are_exact(scan, m@.bits, input.now, cap, f.due@);
        assert forall|i: int| #![trigger f.due@[i]] 0 <= i < f.due@.len() implies {
            let q = f.due@[i];
            &&& q < m.cfg.total_blocks
            &&& !m@.bits[q as int]
            &&& q <= m@.max_seen || m@.all_sent || fb.scanner@.due.dom().contains(q)
            &&& fb.scanner@.due.dom().contains(q) ==> fb.scanner@.due[q] <= input.now
            &&& final(fb).scanner@.due.dom().contains(q) && final(fb).scanner@.due[q]
                == input.now + input.rto_us + 1000
        } by {
            let q = f.due@[i];
            assert(crate::losstracker::is_due(scan, input.now, q));
            assert(crate::losstracker::is_wanted(scan, m@.bits, q));
            assert(scan.due.dom().contains(q));
            if i < f.due@.len() - 1 {
                assert(crate::losstracker::due_before(scan.due, f.due@[i], f.due@.last()));
            }
            assert(crate::losstracker::reached(scan, input.now, f.due@, cap, q));
        }
    }
}

/// Law: every block that is missing below the highest one seen, or anywhere once
/// the sender has sent all, is pending after a round, and its request is scheduled
/// one timeout from now at the latest unless it was scheduled before.
pub proof fn rounds_miss_no_hole()
    ensures
        forall|
            m: &mut Receiver_,
            fb: &mut FeedbackState,
            st: &mut Stats,
            input: FeedbackInput,
            r: Option<Feedback>,
        |
            #![trigger call_ensures(Receiver_::feedback_round, (m, fb, st, input), r)]
            call_ensures(Receiver_::feedback_round, (m, fb, st, input), r) && m.wf()
                && fb.scanner.wf() && fb.scanner@.total == m.cfg.total_blocks && input.now
                + input.rto_us + 1000 <= u64::MAX ==> {
                &&& forall|q: u64| #![trigger final(fb).scanner@.pending.contains(q)]
                    fb.scanner@.next_scan <= q < m.cfg.total_blocks && !m@.bits[q as int] && (
                    m@.all_sent || (m@.seen_any && q <= m@.max_seen)) ==> final(
                        fb).scanner@.pending.contains(q) && final(fb).scanner@.due.dom().contains(q)
                        && final(fb).scanner@.due[q] == input.now + input.rto_us + 1000
                &&& forall|q: u64| #![trigger final(fb).scanner@.pending.contains(q)]
                    fb.scanner@.pending.contains(q) && q < m.cfg.total_blocks
                        && !m@.bits[q as int] ==> final(fb).scanner@.pending.contains(q)
                &&& forall|q: u64| #![trigger final(fb).scanner@.pending.contains(q)]
                    final(fb).scanner@.pending.contains(q) ==> fb.scanner@.pending.contains(q)
                        || !m@.bits[q as int]
            },
{
    assert forall|
        m: &mut Receiver_,
        fb: &mut FeedbackState,
        st: &mut Stats,
        input: FeedbackInput,
        r: Option<Feedback>,
    |
        #![trigger call_ensures(Receiver_::feedback_round, (m, fb, st, input), r)]
        call_ensures(Receiver_::feedback_round, (m, fb, st, input), r) && m.wf()
            && fb.scanner.wf() && fb.scanner@.total == m.cfg.total_blocks && input.now
            + input.rto_us + 1000 <= u64::MAX implies {
        &&& forall|q: u64| #![trigger final(fb).scanner@.pending.contains(q)]
            fb.scanner@.next_scan <= q < m.cfg.total_blocks && !m@.bits[q as int] && (m@.all_sent
                || (m@.seen_any && q <= m@.max_seen)) ==> final(fb).scanner@.pending.contains(q)
                && final(fb).scanner@.due.dom().contains(q) && final(fb).scanner@.due[q]
                == input.now + input.rto_us + 1000
        &&& forall|q: u64| #![trigger final(fb).scanner@.pending.contains(q)]
            fb.scanner@.pending.contains(q) && q < m.cfg.total_blocks && !m@.bits[q as int]
                ==> final(fb).scanner@.pending.contains(q)
        &&& forall|q: u64| #![trigger final(fb).scanner@.pending.contains(q)]
            final(fb).scanner@.pending.contains(q) ==> fb.scanner@.pending.contains(q)
                || !m@.bits[q as int]
    } by {
        fb.scanner.state_is_wf();
        crate::receiver::front_after_bounds(
            m@.bits,
            fb.scanner@.hi_contig as int,
            m.cfg.total_blocks as int,
        );
    }
}

/// Law: the transfer is done for the receiver only once every block has arrived
/// and the sender was told eight times; each round that finds all blocks counts
/// once, and others do not count. Nothing else of the receiver changes in a round.
pub proof fn receivers_end_when_told_often_enough()
    ensures
        forall|
            m: &mut Receiver_,
            fb: &mut FeedbackState,
            st: &mut Stats,
            input: FeedbackInput,
            r: Option<Feedback>,
        |
            #![trigger call_ensures(Receiver_::feedback_round, (m, fb, st, input), r)]
            call_ensures(Receiver_::feedback_round, (m, fb, st, input), r) && m.wf()
                && fb.scanner.wf() && fb.scanner@.total == m.cfg.total_blocks ==> {
                let complete = final(st).hi_contig == m.cfg.total_blocks;
                &&& final(m)@.bits == m@.bits
                &&& final(m)@.ready == m@.ready
                &&& final(m)@.stage == m@.stage
                &&& final(m)@.free == m@.free
                &&& final(m)@.write_front == m@.write_front
                &&& final(m)@.max_seen == m@.max_seen
                &&& final(m)@.seen_any == m@.seen_any
                &&& final(m)@.all_sent == m@.all_sent
                &&& final(m).cfg == m.cfg
                &&& m@.done ==> final(m)@.done
                &&& final(m)@.done && !m@.done ==> complete && final(fb).done_sends >= 8
                &&& complete && r is Some && fb.done_sends >= 7 ==> final(m)@.done
                &&& complete && r is Some && fb.done_sends < 8 ==> final(fb).done_sends
                    == fb.done_sends + 1
                &&& !complete || r is None ==> final(fb).done_sends == fb.done_sends && final(
                    m)@.done == m@.done
                &&& (forall|i: int| 0 <= i < fb.scanner@.hi_contig ==> #[trigger] m@.bits[i]) ==> (
                complete <==> forall|i: int|
                    0 <= i < m.cfg.total_blocks ==> #[trigger] m@.bits[i])
                &&& r is Some && input.sent_at - fb.last_net_tick >= m.cfg.net_tick_interval_us
                    ==> final(fb).last_net_tick == input.sent_at
                &&& r is None || input.sent_at - fb.last_net_tick < m.cfg.net_tick_interval_us
                    ==> final(fb).last_net_tick == fb.last_net_tick
                &&& r is None ==> final(st).rex_queue_len == final(fb).scanner@.pending.len() as i64
                &&& final(st).packets_recv == st.packets_recv
                &&& final(st).nacks_sent == st.nacks_sent
                &&& final(st).payload_recv == st.payload_recv
            },
{
    assert forall|
        m: &mut Receiver_,
        fb: &mut FeedbackState,
        st: &mut Stats,
        input: FeedbackInput,
        r: Option<Feedback>,
    |
        #![trigger call_ensures(Receiver_::feedback_round, (m, fb, st, input), r)]
        call_ensures(Receiver_::feedback_round, (m, fb, st, input), r) && m.wf()
            && fb.scanner.wf() && fb.scanner@.total == m.cfg.total_blocks && (forall|i: int|
            0 <= i < fb.scanner@.hi_contig ==> #[trigger] m@.bits[i]) implies (final(st).hi_contig
        == m.cfg.total_blocks <==> forall|i: int|
        0 <= i < m.cfg.total_blocks ==> #[trigger] m@.bits[i]) by {
        fb.scanner.state_is_wf();
        crate::receiver::round_complete_iff_all_received(
            m@,
            fb.scanner@,
            input.now,
            input.rto_us,
        );
    }
}

/// Law: a transfer that ends before its last block is an error that says how far
/// it came, and whether it was asked to end.
pub proof fn endings_are_judged()
    ensures
        forall|m: &Receiver_, st: &Stats, stop: bool, r: Result<(), IoError>| #[trigger]
            call_ensures(Receiver_::completion, (m, st, stop), r) ==> {
                &&& r is Ok <==> st.hi_contig == m.cfg.total_blocks
                &&& r is Err && stop ==> r->Err_0.kind == IoKind::Stopped
                &&& r is Err && !stop ==> r->Err_0.kind == IoKind::Other
                &&& r is Err ==> r->Err_0.message@ == "receiver stopped before completion ("@
                    + crate::text::dec(st.hi_contig as nat) + "/"@ + crate::text::dec(
                    m.cfg.total_blocks as nat,
                ) + " blocks)"@
            },
{
}

/// Law: START is repeated only until the first packet arrives, while the transfer
/// goes on, and at most 25 times; requests are counted; a round that was missed is
/// not made up for.
pub proof fn rounds_and_starts_are_timed()
    ensures
        forall|sent: u32, stopped: bool, packets: u64, r: bool| #[trigger]
            call_ensures(start_due, (sent, stopped, packets), r) ==> (r <==> packets == 0
                && !stopped && sent < 25),
        forall|st: &mut Stats, n: usize, u: ()| #[trigger]
            call_ensures(feedback_sent, (st, n), u) && st.nacks_sent + n <= u64::MAX ==> {
                &&& final(st).nacks_sent == st.nacks_sent + n
                &&& final(st).nacks_recv == st.nacks_recv
                &&& final(st).packets_recv == st.packets_recv
            },
        forall|due: u64, now: u64, interval: u64, r: u64| #[trigger]
            call_ensures(next_round, (due, now, interval), r) && due + interval <= u64::MAX && now
                + interval <= u64::MAX ==> {
                &&& due <= now < due + interval ==> r == due + interval
                &&& due + interval <= now ==> r == now + interval
                &&& interval > 0 && due <= now ==> now < r <= now + interval
            },
        forall|target: u64, per: usize, max: usize, r: usize| #[trigger]
            call_ensures(nack_cap, (target, per, max), r) ==> {
                &&& r <= max
                &&& target == 0 ==> r == max
                &&& target > 0 && 0 < per <= max ==> r == per
                &&& target > 0 && per > max ==> r == max
                &&& target > 0 && per == 0 && max > 0 ==> r == 1
            },
{
}

/// Law: writeback covers exactly what lies between the contiguous prefix and the
/// end of the highest block seen, within the object; the prefix never moves back.
pub proof fn writeback_covers_what_was_seen()
    ensures
        forall|max_seen: u64, prefix: i64, bs: usize, size: i64, r: Option<(i64, i64)>| #[trigger]
            call_ensures(writeback_range, (max_seen, prefix, bs, size), r) && prefix >= 0 ==> {
                let reach = (max_seen + 1) * bs;
                &&& r is Some <==> prefix < reach && prefix < size
                &&& r matches Some((off, len)) ==> off == prefix && len > 0 && (off + len == reach
                    || off + len == size) && off + len <= reach && off + len <= size
            },
        forall|prefix: i64, hi: u64, cfg: &RecvConfig, r: i64| #[trigger]
            call_ensures(writeback_prefix, (prefix, hi, cfg), r) ==> {
                &&& r >= prefix
                &&& r >= hi * cfg.block_size
                &&& r == prefix || r == hi * cfg.block_size
            },
{
}

} // verus!
