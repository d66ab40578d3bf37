//! What holds of whole transfers: what arrives in a sink is what was in the
//! source, byte for byte.

use crate::control::{Ack, TransferParams};
use crate::crypto::AeadBox;
use crate::io::BlockSource;
use crate::receiver::{PacketOutcome, RecvConfig, RecvState};
use crate::sender::{SendConfig, TickState};
use crate::session::{
    ClientAction, ClientCourse, ClientEvent, ClientStage, Course, Event, Host, Job, Request,
};
use crate::stats::Stats;
use crate::transfer::{Direction, ServerLimits};
use std::sync::Arc;
use vstd::prelude::*;

verus! {

/// Whether `pkt` is block `seq` of `data` as a sender injects it: first or again,
/// with the tick `t` or without one.
pub open spec fn is_injected_as(
    cfg: SendConfig,
    data: Seq<u8>,
    pkt: Seq<u8>,
    seq: u64,
    retransmit: bool,
    t: TickState,
    now: u64,
) -> bool {
    let payload = crate::sender::block_payload(cfg, data, seq);
    &&& seq < cfg.total_blocks
    &&& crate::sender::taken_for_itself(cfg, payload, seq, retransmit)
    &&& pkt == crate::sender::stamped(
        t,
        now,
        crate::sender::block_pdu(cfg, payload, seq, retransmit),
    )
}

/// Whether `pkt` is a block of `data` that a sender injected.
pub open spec fn is_injected(cfg: SendConfig, data: Seq<u8>, pkt: Seq<u8>) -> bool {
    exists|seq: u64, retransmit: bool, t: TickState, now: u64| #[trigger]
        is_injected_as(cfg, data, pkt, seq, retransmit, t, now)
}

/// Whether a PDU in the pool is a block of `data`, as it is read for its first
/// injection.
pub open spec fn is_read_block(
    cfg: SendConfig,
    data: Seq<u8>,
    item: crate::sender::Prefetched,
    seq: u64,
) -> bool {
    let payload = crate::sender::block_payload(cfg, data, seq);
    &&& seq < cfg.total_blocks
    &&& crate::sender::taken_for_itself(cfg, payload, seq, false)
    &&& item.pdu() == crate::sender::block_pdu(cfg, payload, seq, false)
}

/// Law: a batch holds blocks of the object and nothing else. `numbers` are the
/// blocks that the PDUs in `ready` were read for.
pub proof fn batches_hold_blocks(
    cfg: SendConfig,
    data: Seq<u8>,
    given: Map<u64, Seq<u8>>,
    unread: Set<u64>,
    before: crate::sender::SendState,
    after: crate::sender::SendState,
    ready: Seq<crate::sender::Prefetched>,
    numbers: Seq<u64>,
    rest: Seq<crate::sender::Prefetched>,
    closed: bool,
    to_send: int,
    now: u64,
    seqs: Seq<u64>,
    b: crate::sender::Batch,
)
    requires
        crate::sender::is_batch(
            cfg,
            given,
            unread,
            before,
            after,
            ready,
            rest,
            closed,
            to_send,
            now,
            seqs,
            b,
        ),
        forall|i: int|
            0 <= i < seqs.len() ==> given[#[trigger] seqs[i]] == crate::sender::block_payload(
                cfg,
                data,
                seqs[i],
            ),
        numbers.len() == ready.len(),
        forall|i: int|
            0 <= i < ready.len() ==> is_read_block(cfg, data, #[trigger] ready[i], numbers[i]),
    ensures
        forall|i: int|
            0 <= i < b.packets@.len() ==> is_injected(cfg, data, (#[trigger] b.packets@[i]).pdu()),
{
    assert forall|i: int| 0 <= i < b.packets@.len() implies is_injected(
        cfg,
        data,
        (#[trigger] b.packets@[i]).pdu(),
    ) by {
        let t = crate::sender::tick_for(before.tick, i);
        let pkt = b.packets@[i].pdu();
        if i < b.rex_n {
            assert(given[seqs[i]] == crate::sender::block_payload(cfg, data, seqs[i]));
            assert(is_injected_as(cfg, data, pkt, seqs[i], true, t, now));
        } else {
            let k = i - b.rex_n;
            assert(is_read_block(cfg, data, ready[k], numbers[k]));
            assert(is_injected_as(cfg, data, pkt, numbers[k], false, t, now));
        }
    }
}

/// What a reader hands out of a source that tells what it holds are its blocks, in
/// order.
proof fn read_items_are_blocks<S: BlockSource + ?Sized>(
    read: crate::sender::Readings,
    cfg: SendConfig,
    source: &S,
    k: int,
)
    requires
        read.possible(cfg, source),
        source.modelled(),
        0 <= k < read.items.len(),
    ensures
        is_read_block(cfg, source.contents(), read.items[k], k as u64),
{
    crate::sender::blocks_are_read_ascending(read, cfg, source, k);
    assert(read.handed(cfg, source, k));
    let item = read.items[k];
    let payload = choose|payload: Seq<u8>| #[trigger]
        crate::sender::is_given(cfg, source, k as u64, payload) && item.buf@.take(item.size as int)
            == crate::sender::block_pdu(cfg, payload, k as u64, false)
            && crate::sender::taken_for_itself(cfg, payload, k as u64, false);
    assert(payload == crate::sender::block_payload(cfg, source.contents(), k as u64));
}

/// Law: over a whole transfer a sender injects blocks of its source and nothing
/// else, where what becomes ready is what a reader hands out.
pub proof fn senders_inject_their_object<S: BlockSource + ?Sized>(
    p: crate::sender::Pacing,
    cfg: SendConfig,
    read: crate::sender::Readings,
    source: &S,
    n: nat,
)
    requires
        p.possible(cfg),
        n < p.steps.len(),
        read.possible(cfg, source),
        p.fed_by(n + 1).is_prefix_of(read.items),
        source.modelled(),
        crate::sender::are_given(cfg, source, p.steps[n as int].seqs, p.steps[n as int].given),
    ensures
        ({
            let packets = p.steps[n as int].batch.packets@;
            forall|i: int|
                0 <= i < packets.len() ==> is_injected(
                    cfg,
                    source.contents(),
                    (#[trigger] packets[i]).pdu(),
                )
        }),
{
    let s = p.steps[n as int];
    let data = source.contents();
    let sent = p.injected_by(n).len();
    let ready = p.waiting(n as int) + s.fed;
    let numbers = Seq::new(ready.len(), |j: int| (sent + j) as u64);
    crate::sender::new_blocks_go_out_once(p, cfg, n);
    assert(p.built(cfg, n as int));
    assert forall|j: int| 0 <= j < ready.len() implies is_read_block(
        cfg,
        data,
        #[trigger] ready[j],
        numbers[j],
    ) by {
        assert(p.injected_by(n) + ready =~= (p.injected_by(n) + p.waiting(n as int)) + s.fed);
        assert(p.fed_by(n + 1) == p.injected_by(n) + ready);
        assert((p.injected_by(n) + ready)[sent + j] == ready[j]);
        assert(p.fed_by(n + 1)[sent + j] == read.items[sent + j]);
        read_items_are_blocks(read, cfg, source, sent + j);
    }
    assert forall|i: int| 0 <= i < s.seqs.len() implies s.given[#[trigger] s.seqs[i]]
        == crate::sender::block_payload(cfg, data, s.seqs[i]) by {
        assert(crate::sender::is_given(cfg, source, s.seqs[i], s.given[s.seqs[i]]));
    }
    batches_hold_blocks(
        cfg,
        data,
        s.given,
        s.unread,
        s.before,
        s.after,
        ready,
        numbers,
        s.rest,
        s.closed,
        s.to_send,
        s.now,
        s.seqs,
        s.batch,
    );
}

/// Whether a sender of `data` and a receiver are the two ends of one transfer.
pub open spec fn are_paired(cfg: SendConfig, peer: RecvConfig, data: Seq<u8>) -> bool {
    &&& cfg.wf()
    &&& peer.wf()
    &&& cfg.file_size == data.len()
    &&& peer.file_size == data.len()
    &&& cfg.block_size == peer.block_size
    &&& cfg.block_size <= u16::MAX
    &&& cfg.session == peer.session
    &&& crate::sender::same_key(
        crate::receiver::box_of(cfg.crypto),
        crate::receiver::box_of(peer.crypto),
    )
}

/// What happens to a receiver.
pub enum RecvStep {
    /// A datagram was handled.
    Packet { pkt: Seq<u8>, stats: Stats, counted: Stats, outcome: PacketOutcome },
    /// The ready blocks at the front were written out.
    Flush,
    /// A feedback round was made.
    Round,
}

/// A receiver's part of a transfer: its states, the bytes in its sink, the mark up
/// to which its statistics count the object as received, and what happened in
/// between.
pub struct Reception {
    pub states: Seq<RecvState>,
    pub sinks: Seq<Seq<u8>>,
    pub marks: Seq<u64>,
    pub steps: Seq<RecvStep>,
}

impl Reception {
    /// Whether the `i`-th step is one that a receiver takes whose sink takes every
    /// write inside its size. Of what comes over the network, the blocks that the
    /// receiver takes for intact ones were injected by the sender; they may come
    /// in any order, more than once or not at all, among anything else.
    pub open spec fn stepped(
        self,
        cfg: SendConfig,
        peer: RecvConfig,
        data: Seq<u8>,
        i: int,
    ) -> bool {
        let (before, after) = (self.states[i], self.states[i + 1]);
        let (held, left) = (self.sinks[i], self.sinks[i + 1]);
        let (mark, moved) = (self.marks[i], self.marks[i + 1]);
        match self.steps[i] {
            RecvStep::Packet { pkt, stats, counted, outcome } => {
                &&& crate::receiver::handled(
                    peer,
                    pkt,
                    before,
                    after,
                    stats,
                    counted,
                    held,
                    left,
                    true,
                    outcome,
                )
                &&& is_injected(cfg, data, pkt) || !(crate::receiver::verdict(
                    peer.session,
                    crate::receiver::box_of(peer.crypto),
                    pkt,
                ) is Block)
                &&& moved == mark
            },
            RecvStep::Flush => {
                &&& moved == mark
                &&& after == crate::receiver::after_flush(before, peer.total_blocks as int)
                &&& crate::receiver::staged_fit(
                    before.stage,
                    peer.block_size as int,
                    held.len() as int,
                    before.write_front as int,
                    after.write_front as int,
                ) ==> left == crate::receiver::flushed(
                    held,
                    before.stage,
                    peer.block_size as int,
                    before.write_front as int,
                    after.write_front as int,
                )
            },
            RecvStep::Round => {
                &&& after == (RecvState { done: after.done, ..before })
                &&& left == held
                &&& moved == crate::receiver::front_after(
                    before.bits,
                    mark as int,
                    peer.total_blocks as int,
                )
            },
        }
    }

    /// Whether this can be what a receiver goes through, from when it was built
    /// and its sink sized.
    pub open spec fn possible(self, cfg: SendConfig, peer: RecvConfig, data: Seq<u8>) -> bool {
        &&& self.states.len() == self.steps.len() + 1
        &&& self.sinks.len() == self.steps.len() + 1
        &&& self.marks.len() == self.steps.len() + 1
        &&& self.marks[0] == 0
        &&& self.states[0].stage == Map::<u64, Seq<u8>>::empty()
        &&& forall|i: int| 0 <= i < self.states[0].bits.len() ==> !#[trigger] self.states[0].bits[i]
        &&& self.sinks[0].len() == data.len()
        &&& forall|i: int|
            0 <= i < self.states.len() ==> (#[trigger] self.states[i]).wf(
                peer.total_blocks as int,
                peer.stage_depth(),
            )
        &&& forall|i: int|
            0 <= i < self.steps.len() ==> #[trigger] self.stepped(cfg, peer, data, i)
    }
}

/// Whether every block that has arrived is staged or written.
pub open spec fn all_kept(s: RecvState) -> bool {
    forall|i: int| 0 <= i < s.bits.len() && s.bits[i] ==> #[trigger] s.ready[i]
}

/// Handling an injected block keeps the receiver's holdings right and the block.
proof fn injected_block_is_kept(
    cfg: SendConfig,
    peer: RecvConfig,
    data: Seq<u8>,
    pkt: Seq<u8>,
    seq: u64,
    retransmit: bool,
    t: TickState,
    now: u64,
    before: RecvState,
    after: RecvState,
    stats: Stats,
    counted: Stats,
    held: Seq<u8>,
    left: Seq<u8>,
    outcome: PacketOutcome,
)
    requires
        are_paired(cfg, peer, data),
        is_injected_as(cfg, data, pkt, seq, retransmit, t, now),
        crate::receiver::handled(
            peer,
            pkt,
            before,
            after,
            stats,
            counted,
            held,
            left,
            true,
            outcome,
        ),
        before.wf(peer.total_blocks as int, peer.stage_depth()),
        crate::receiver::holds_object(before, held, data, peer.block_size as int),
        all_kept(before),
    ensures
        crate::receiver::holds_object(after, left, data, peer.block_size as int),
        all_kept(after),
        after.bits[seq as int],
{
    crate::sender::delivered_verdict(
        cfg,
        crate::receiver::box_of(peer.crypto),
        data,
        seq,
        retransmit,
        t,
        now,
    );
    crate::protocol::block_in_bounds(data.len() as int, peer.block_size as int, seq as int);
    crate::receiver::intact_block_keeps_object(
        peer,
        pkt,
        before,
        after,
        stats,
        counted,
        held,
        left,
        true,
        outcome,
        data,
        seq,
        peer.stage_depth(),
    );
}

/// Law: whatever the network does to the datagrams of a transfer, a receiver holds
/// nothing but parts of the object, and keeps every block that arrives.
pub proof fn reception_holds_object(
    c: Reception,
    cfg: SendConfig,
    peer: RecvConfig,
    data: Seq<u8>,
    n: nat,
)
    requires
        are_paired(cfg, peer, data),
        c.possible(cfg, peer, data),
        n < c.states.len(),
    ensures
        crate::receiver::holds_object(
            c.states[n as int],
            c.sinks[n as int],
            data,
            peer.block_size as int,
        ),
        all_kept(c.states[n as int]),
    decreases n,
{
    let bs = peer.block_size as int;
    let total = peer.total_blocks as int;
    if n == 0 {
        crate::receiver::fresh_receiver_holds_object(
            c.states[0],
            c.sinks[0],
            data,
            bs,
            peer.stage_depth(),
        );
    } else {
        let i = n - 1;
        reception_holds_object(c, cfg, peer, data, i as nat);
        assert(c.stepped(cfg, peer, data, i));
        let (before, after) = (c.states[i], c.states[n as int]);
        let (held, left) = (c.sinks[i], c.sinks[n as int]);
        assert(before.wf(total, peer.stage_depth()));
        match c.steps[i] {
            RecvStep::Packet { pkt, stats, counted, outcome } => {
                if is_injected(cfg, data, pkt) {
                    let (seq, retransmit, t, now) = choose|
                        seq: u64,
                        retransmit: bool,
                        t: TickState,
                        now: u64,
                    | #[trigger]
                        is_injected_as(cfg, data, pkt, seq, retransmit, t, now);
                    injected_block_is_kept(
                        cfg,
                        peer,
                        data,
                        pkt,
                        seq,
                        retransmit,
                        t,
                        now,
                        before,
                        after,
                        stats,
                        counted,
                        held,
                        left,
                        outcome,
                    );
                }
            },
            RecvStep::Flush => {
                flush_fits(before, held, data, bs, peer.stage_depth());
                crate::receiver::flush_keeps_object(before, held, data, bs, peer.stage_depth());
            },
            RecvStep::Round => {},
        }
    }
}

/// Law: every block below a receiver's mark has arrived, at every point of a
/// transfer.
pub proof fn blocks_below_mark_arrived(
    c: Reception,
    cfg: SendConfig,
    peer: RecvConfig,
    data: Seq<u8>,
    n: nat,
)
    requires
        are_paired(cfg, peer, data),
        c.possible(cfg, peer, data),
        n < c.states.len(),
    ensures
        c.marks[n as int] <= peer.total_blocks,
        forall|i: int|
            0 <= i < c.marks[n as int] ==> #[trigger] c.states[n as int].bits[i],
    decreases n,
{
    if n > 0 {
        let i = n - 1;
        blocks_below_mark_arrived(c, cfg, peer, data, i as nat);
        assert(c.stepped(cfg, peer, data, i));
        assert(c.states[i].wf(peer.total_blocks as int, peer.stage_depth()));
        crate::receiver::front_after_bounds(
            c.states[i].bits,
            c.marks[i] as int,
            peer.total_blocks as int,
        );
    }
}

/// Staged blocks of the object lie inside a sink of its size.
proof fn flush_fits(s: RecvState, held: Seq<u8>, data: Seq<u8>, block_size: int, depth: int)
    requires
        block_size > 0,
        crate::protocol::blocks_for(data.len() as int, block_size) <= u64::MAX,
        s.wf(crate::protocol::blocks_for(data.len() as int, block_size), depth),
        crate::receiver::holds_object(s, held, data, block_size),
    ensures
        crate::receiver::staged_fit(
            s.stage,
            block_size,
            held.len() as int,
            s.write_front as int,
            crate::receiver::after_flush(
                s,
                crate::protocol::blocks_for(data.len() as int, block_size),
            ).write_front as int,
        ),
{
    let total = crate::protocol::blocks_for(data.len() as int, block_size);
    crate::receiver::front_after_bounds(s.ready, s.write_front as int, total);
    assert forall|seq: u64| #[trigger]
        s.stage.dom().contains(seq) && s.write_front <= seq < crate::receiver::after_flush(
            s,
            total,
        ).write_front implies seq * block_size + s.stage[seq].len() <= held.len() by {
        crate::protocol::block_in_bounds(data.len() as int, block_size, seq as int);
    }
}

/// Law: a transfer moves its object byte for byte. Once every block has arrived
/// and was flushed, the sink holds exactly what the sender's source held, whatever
/// its length, in clear or encrypted.
pub proof fn complete_reception_is_exact(
    c: Reception,
    cfg: SendConfig,
    peer: RecvConfig,
    data: Seq<u8>,
    n: int,
)
    requires
        are_paired(cfg, peer, data),
        c.possible(cfg, peer, data),
        0 <= n < c.steps.len(),
        c.steps[n] is Flush,
        forall|i: int|
            0 <= i < peer.total_blocks ==> #[trigger] c.states[n].bits[i],
    ensures
        c.sinks[n + 1] == data,
        c.states[n + 1].write_front == peer.total_blocks,
{
    reception_holds_object(c, cfg, peer, data, n as nat);
    assert(c.stepped(cfg, peer, data, n));
    let s = c.states[n];
    let bs = peer.block_size as int;
    assert(s.wf(peer.total_blocks as int, peer.stage_depth()));
    assert(s.bits.len() >= peer.total_blocks);
    assert forall|i: int| 0 <= i < peer.total_blocks implies #[trigger] s.ready[i] by {
        assert(s.bits[i]);
    }
    flush_fits(s, c.sinks[n], data, bs, peer.stage_depth());
    crate::receiver::complete_transfer_is_exact(
        s,
        c.sinks[n],
        data,
        bs,
        peer.stage_depth(),
    );
}

/// Law: what was pushed is what is pulled. When a push has completed and its object
/// is then pulled from what the push left, the pull leaves the bytes that were
/// pushed, under whatever sessions, keys and block sizes the two transfers had.
pub proof fn pull_gives_back_push(
    data: Seq<u8>,
    push: Reception,
    push_from: SendConfig,
    push_to: RecvConfig,
    pushed: int,
    pull: Reception,
    pull_from: SendConfig,
    pull_to: RecvConfig,
    pulled: int,
)
    requires
        are_paired(push_from, push_to, data),
        push.possible(push_from, push_to, data),
        0 <= pushed < push.steps.len(),
        push.steps[pushed] is Flush,
        forall|i: int|
            0 <= i < push_to.total_blocks ==> #[trigger] push.states[pushed].bits[i],
        are_paired(pull_from, pull_to, push.sinks[pushed + 1]),
        pull.possible(pull_from, pull_to, push.sinks[pushed + 1]),
        0 <= pulled < pull.steps.len(),
        pull.steps[pulled] is Flush,
        forall|i: int|
            0 <= i < pull_to.total_blocks ==> #[trigger] pull.states[pulled].bits[i],
    ensures
        pull.sinks[pulled + 1] == data,
{
    complete_reception_is_exact(push, push_from, push_to, data, pushed);
    complete_reception_is_exact(
        pull,
        pull_from,
        pull_to,
        push.sinks[pushed + 1],
        pulled,
    );
}

// --- whole transfers, from both ends ----------------------------------------

/// A transfer from both ends: what the client and the server went through, where
/// the server granted the request and the client got the answer, what their data
/// planes ran with, and what arrived until it was flushed.
pub struct Transfer {
    pub job: Job,
    pub client: ClientCourse,
    pub answered: int,
    pub params: TransferParams,
    pub limits: ServerLimits,
    pub host: Host,
    pub server: Course,
    pub granted: int,
    pub from: SendConfig,
    pub to: RecvConfig,
    pub arrived: Reception,
    pub flushed: int,
}

impl Transfer {
    /// The request that the server granted.
    pub open spec fn request(self) -> Request {
        self.server.stages[self.granted]->Binding_0
    }

    /// The ack, as the client got it.
    pub open spec fn ack(self) -> Ack {
        self.client.events[self.answered]->Answered_0->Ok_0
    }

    /// The data key that the server granted.
    pub open spec fn server_key(self) -> Option<Arc<AeadBox>> {
        self.server.actions[self.granted]->Grant_1
    }

    /// The point at which the client's data plane runs: a pull sizes its sink
    /// first.
    pub open spec fn running(self) -> int {
        match self.job.direction {
            Direction::Push => self.answered + 2,
            Direction::Pull => self.answered + 3,
        }
    }

    /// Whether the two ends met: the server granted the request that the client
    /// sent, the client got the grant, and went on to run its data plane.
    pub open spec fn met(self) -> bool {
        &&& self.client.possible(self.job)
        &&& self.server.possible(self.params, self.limits, self.host)
        &&& 0 <= self.granted < self.server.actions.len()
        &&& self.server.actions[self.granted] is Grant
        &&& 0 <= self.answered
        &&& self.client.stages[self.answered] is Awaiting
        &&& self.client.stages[self.answered]->Awaiting_0@ == self.request().hello@
        &&& self.client.events[self.answered] is Answered
        &&& self.client.events[self.answered]->Answered_0 is Ok
        &&& self.ack()@ == self.server.actions[self.granted]->Grant_0@
        &&& self.running() < self.client.actions.len()
        &&& self.client.actions[self.running()] is Run
    }

    /// Whether the data planes ran with what the two ends had agreed on.
    pub open spec fn planned(self) -> bool {
        let run = self.client.actions[self.running()];
        let s = self.request().session;
        match self.job.direction {
            Direction::Push => {
                &&& crate::transfer::sends_with(
                    self.from,
                    self.job.params,
                    run->session,
                    run->size,
                    run->key,
                )
                &&& crate::transfer::receives_with(
                    self.to,
                    s.params,
                    s.id,
                    self.request().hello.size,
                    self.server_key(),
                )
            },
            Direction::Pull => {
                &&& crate::transfer::sends_with(
                    self.from,
                    s.params,
                    s.id,
                    self.server.actions[self.granted]->Grant_0.size,
                    self.server_key(),
                )
                &&& crate::transfer::receives_with(
                    self.to,
                    self.job.params,
                    run->session,
                    run->size,
                    run->key,
                )
            },
        }
    }

    /// Whether `data` is the object: its size is what the client found before a
    /// push, or the server when it opened what is pulled.
    pub open spec fn is_of(self, data: Seq<u8>) -> bool {
        match self.job.direction {
            Direction::Push => {
                &&& self.client.events[0] matches ClientEvent::Summed(Ok((size, _)))
                &&& size == data.len()
            },
            Direction::Pull => {
                &&& self.granted >= 2
                &&& self.server.events[self.granted - 2] matches Event::SourceOpened(Ok(size))
                &&& size == data.len()
            },
        }
    }

    /// Whether the object arrived: the receiver counted all of it as received, and
    /// then flushed.
    pub open spec fn completed(self, data: Seq<u8>) -> bool {
        &&& self.arrived.possible(self.from, self.to, data)
        &&& 0 <= self.flushed < self.arrived.steps.len()
        &&& self.arrived.steps[self.flushed] is Flush
        &&& self.arrived.marks[self.flushed] == self.to.total_blocks
    }

    /// What the receiver's sink then held.
    pub open spec fn left(self) -> Seq<u8> {
        self.arrived.sinks[self.flushed + 1]
    }

    /// Whether this can be a transfer of `data`, in blocks whose length fits the
    /// header.
    pub open spec fn moves(self, data: Seq<u8>) -> bool {
        &&& self.met()
        &&& self.planned()
        &&& self.is_of(data)
        &&& self.completed(data)
        &&& 0 < self.job.params.block_size <= u16::MAX
        &&& self.to.wf()
    }
}

/// The hello that a client awaits an answer to is one that it greeted with.
proof fn awaited_hello_was_sent(job: Job, c: ClientCourse, n: int) -> (r: (i64, u32))
    requires
        c.possible(job),
        0 <= n < c.stages.len(),
        c.stages[n] is Greeting || c.stages[n] is Awaiting,
    ensures
        ({
            let (hello, secret) = match c.stages[n] {
                ClientStage::Greeting(h, s) => (h, s),
                ClientStage::Awaiting(h, s) => (h, s),
                _ => arbitrary(),
            };
            &&& crate::session::greets(
                job,
                r.0,
                r.1,
                ClientStage::Greeting(hello, secret),
                ClientAction::SendHello,
            )
            &&& job.direction == Direction::Push ==> c.events[0] == ClientEvent::Summed(
                Ok((r.0, r.1)),
            )
        }),
    decreases n,
{
    if n == 0 {
        (0, 0)
    } else {
        assert(c.stepped(job, n - 1));
        match c.stages[n - 1] {
            ClientStage::Summing => {
                summing_is_first(job, c, n - 1);
                let found = c.events[0]->Summed_0->Ok_0;
                (found.0, found.1)
            },
            _ => awaited_hello_was_sent(job, c, n - 1),
        }
    }
}

/// A client sums up its object before all else.
proof fn summing_is_first(job: Job, c: ClientCourse, n: int)
    requires
        c.possible(job),
        0 <= n < c.stages.len(),
        c.stages[n] is Summing,
    ensures
        n == 0,
{
    if n > 0 {
        assert(c.stepped(job, n - 1));
    }
}

/// Law: where a server's grant reached the client that had asked for it, their
/// data planes are the two ends of one transfer of the object.
pub proof fn met_ends_are_paired(t: Transfer, data: Seq<u8>)
    requires
        t.moves(data),
    ensures
        are_paired(t.from, t.to, data),
        t.request().session.direction == t.job.direction,
        t.job.direction == Direction::Pull ==> t.ack().crc32c
            == t.server.stages[t.granted]->Binding_2,
{
    let k = t.answered;
    let g = t.granted;
    assert(t.server.stepped(g, t.params, t.limits, t.host));
    crate::session::connections_keep_checks(t.server, g, t.params, t.limits, t.host);
    let (size, crc) = awaited_hello_was_sent(t.job, t.client, k);
    assert(t.client.stepped(t.job, k));
    assert(t.client.stepped(t.job, k + 1));
    if t.job.direction == Direction::Pull {
        assert(t.client.stepped(t.job, k + 2));
    }
    let hello = t.client.stages[k]->Awaiting_0;
    let secret = t.client.stages[k]->Awaiting_1;
    let after = t.client.stages[k + 1];
    crate::session::grant_pairs_both_ends(
        t.job,
        size,
        crc,
        ClientStage::Greeting(hello, secret),
        ClientAction::SendHello,
        t.request(),
        t.params,
        t.server.stages[g]->Binding_1,
        t.server.stages[g]->Binding_2,
        t.server.events[g]->Bound_0->Ok_0,
        t.host.aes_hardware,
        t.server.stages[g + 1],
        t.server.actions[g]->Grant_0,
        t.server_key(),
        t.ack(),
        after,
        t.client.actions[k + 1],
    );
    if t.job.direction == Direction::Pull {
        assert(t.server.stepped(g - 1, t.params, t.limits, t.host));
        assert(t.server.stepped(g - 2, t.params, t.limits, t.host));
    }
}

/// Law: a transfer leaves in the receiver's sink exactly the object that was in
/// the sender's source. A pull that sums up what it received finds the checksum
/// that the server announced, if that was the object's.
pub proof fn transfers_move_their_object(t: Transfer, data: Seq<u8>)
    requires
        t.moves(data),
    ensures
        t.left() == data,
        t.job.direction == Direction::Pull && t.server.stages[t.granted]->Binding_2
            == crate::protocol::crc32c_of(data) ==> forall|after: ClientStage, action: ClientAction|
            #[trigger] crate::session::client_stepped(
                t.job,
                ClientStage::ReadingBack(t.ack()),
                ClientEvent::ReadBack(Ok(Some(crate::protocol::crc32c_of(t.left())))),
                after,
                action,
            ) ==> action is End && action->End_0 is Ok,
{
    met_ends_are_paired(t, data);
    blocks_below_mark_arrived(t.arrived, t.from, t.to, data, t.flushed as nat);
    complete_reception_is_exact(t.arrived, t.from, t.to, data, t.flushed);
}

/// Law: what one client pushed is what another one pulls. When a push has
/// completed and the server then serves what the push left to a pull that
/// completes, the pulled bytes are the pushed ones, whatever sessions, keys, block
/// sizes and servers the two transfers had.
pub proof fn pulled_object_is_the_pushed_one(push: Transfer, pull: Transfer, data: Seq<u8>)
    requires
        push.job.direction == Direction::Push,
        pull.job.direction == Direction::Pull,
        push.moves(data),
        pull.moves(push.left()),
    ensures
        pull.left() == data,
{
    transfers_move_their_object(push, data);
    transfers_move_their_object(pull, push.left());
}

} // verus!
