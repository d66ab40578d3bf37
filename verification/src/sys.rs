//! Platform-neutral decisions of the data-plane I/O: how datagrams are laid out
//! in receive regions, how a batch is sent, which buffers go back to the kernel,
//! and how socket addresses are read from and written to raw memory.

use crate::error::{IoError, IoKind};
use vstd::prelude::*;

verus! {

/// Datagrams pulled per batched receive.
pub const RECV_BATCH: usize = 32;

/// Outstanding sends of the registered-I/O feedback path.
pub const SEND_RING: u32 = 16;

/// Request context that marks a send completion; a receive has its slot number.
pub const SEND_CTX: u64 = 0xffff_ffff_ffff_ffff;

/// Bytes reserved for the address of one slot.
pub const ADDR_SLOT: usize = 32;

/// True if `err` is a receive timeout or would-block condition.
pub fn is_timeout(err: &IoError) -> (r: bool)
    ensures
        r == crate::error::timed_out(err.kind),
{
    match err.kind {
        IoKind::WouldBlock => true,
        IoKind::TimedOut => true,
        _ => false,
    }
}

/// The address of a host, as a number.
#[derive(Debug, Clone, Copy, PartialEq, Eq, Structural)]
pub enum HostIp {
    V4(u32),
    V6(u128),
}

/// Whether a datagram from the host `from` is taken: from anywhere, or only from
/// the host that is expected.
pub fn is_expected(expected: Option<HostIp>, from: HostIp) -> (r: bool)
    ensures
        r == (expected is None || expected == Some(from)),
{
    match expected {
        Some(host) => host == from,
        None => true,
    }
}

// --- data ports -------------------------------------------------------------

/// The port that a data socket tries after `tried`: within a range each port in
/// turn, else port 0, which stands for any.
pub open spec fn port_after(range: Option<(u16, u16)>, tried: Option<u16>) -> Option<u16> {
    match (range, tried) {
        (None, None) => Some(0u16),
        (None, Some(_)) => None,
        (Some((first, last)), None) => if first <= last {
            Some(first)
        } else {
            None
        },
        (Some((_, last)), Some(p)) => if p < last {
            Some((p + 1) as u16)
        } else {
            None
        },
    }
}

/// The port that a data socket tries next, none having been free up to `tried`.
pub fn next_port(range: Option<(u16, u16)>, tried: Option<u16>) -> (r: Option<u16>)
    ensures
        r == port_after(range, tried),
{
    match range {
        None => match tried {
            None => Some(0u16),
            Some(_) => None,
        },
        Some((first, last)) => match tried {
            None => if first <= last {
                Some(first)
            } else {
                None
            },
            Some(p) => if p < last {
                Some(p + 1)
            } else {
                None
            },
        },
    }
}

/// The failure to bind where a range holds no port at all; else it is that of the
/// last port that was tried.
pub fn no_free_port() -> (r: IoError)
    ensures
        r.kind == IoKind::AddrNotAvailable,
        r.message@ == "no free port in UDP range"@,
{
    IoError::new(IoKind::AddrNotAvailable, "no free port in UDP range")
}

/// The `k`-th port that a data socket tries.
pub open spec fn port_tried(range: Option<(u16, u16)>, k: nat) -> Option<u16>
    decreases k,
{
    if k == 0 {
        port_after(range, None)
    } else {
        match port_tried(range, (k - 1) as nat) {
            Some(p) => port_after(range, Some(p)),
            None => None,
        }
    }
}

/// Law: the ports of a range are tried from the first to the last, each once and
/// no other.
pub proof fn ports_are_tried_in_turn(first: u16, last: u16, k: nat)
    ensures
        port_tried(Some((first, last)), k) == (if first + k <= last {
            Some((first + k) as u16)
        } else {
            None
        }),
    decreases k,
{
    if k > 0 {
        ports_are_tried_in_turn(first, last, (k - 1) as nat);
    }
}

/// The kernel egress pacing ceiling for a rate, in bytes per second, as far as
/// 32 bits hold it.
pub fn pacing_ceiling(bps: u64) -> (r: u32)
    ensures
        r == crate::stats::min_int(bps as int / 8, u32::MAX as int),
{
    let bytes_per_sec: u64 = bps / 8;
    if bytes_per_sec > u32::MAX as u64 {
        u32::MAX
    } else {
        bytes_per_sec as u32
    }
}

// --- receive slots ----------------------------------------------------------

/// Where the datagram in slot `i` stands in a region of slots of `buf_len` bytes:
/// start and end. A datagram that was longer than its slot was cut.
pub fn slot_range(i: usize, buf_len: usize, received: usize) -> (r: (usize, usize))
    requires
        (i + 1) * buf_len <= usize::MAX,
    ensures
        r.0 == i * buf_len,
        r.1 == i * buf_len + crate::stats::min_int(received as int, buf_len as int),
{
    proof {
        assert((i + 1) * buf_len == i * buf_len + buf_len) by (nonlinear_arith);
        assert(0 <= i * buf_len) by (nonlinear_arith);
    }
    let start: usize = i * buf_len;
    let n: usize = if received < buf_len {
        received
    } else {
        buf_len
    };
    (start, start + n)
}

/// Law: slots lie inside their region and do not overlap.
pub proof fn slots_are_disjoint(i: int, j: int, slots: int, buf_len: int)
    requires
        0 <= i < j < slots,
        buf_len >= 0,
    ensures
        0 <= i * buf_len,
        (i + 1) * buf_len <= j * buf_len,
        (j + 1) * buf_len <= slots * buf_len,
{
    assert(0 <= i * buf_len && (i + 1) * buf_len <= j * buf_len && (j + 1) * buf_len <= slots
        * buf_len) by (nonlinear_arith)
        requires
            0 <= i < j < slots,
            buf_len >= 0,
    ;
}

/// A completed request of a registered-I/O queue.
#[derive(Debug, Clone, Copy, PartialEq, Eq, Structural)]
pub struct Completion {
    pub context: u64,
    pub bytes: usize,
    pub ok: bool,
}

/// The receive slots of a registered-I/O engine that are not with the kernel:
/// those of the current harvest, and those waiting to be posted again.
pub struct Harvest {
    /// Slot and length of each datagram of the current harvest.
    pub batch: Vec<(u64, usize)>,
    /// Slots waiting to be posted again.
    pub pending: Vec<u64>,
}

/// The slots of the receives among `done`, in order.
pub open spec fn receive_slots(done: Seq<Completion>) -> Seq<u64>
    decreases done.len(),
{
    if done.len() == 0 {
        Seq::empty()
    } else if done.last().context == SEND_CTX {
        receive_slots(done.drop_last())
    } else {
        receive_slots(done.drop_last()).push(done.last().context)
    }
}

/// Slot and length of each receive among `done`, in order. A failed receive
/// counts as an empty datagram.
pub open spec fn receive_batch(done: Seq<Completion>) -> Seq<(u64, usize)>
    decreases done.len(),
{
    if done.len() == 0 {
        Seq::empty()
    } else if done.last().context == SEND_CTX {
        receive_batch(done.drop_last())
    } else {
        receive_batch(done.drop_last()).push(
            (
                done.last().context,
                if done.last().ok {
                    done.last().bytes
                } else {
                    0
                },
            ),
        )
    }
}

/// The slots whose post failed, in order.
pub open spec fn failed_slots(pending: Seq<u64>, posted: Seq<bool>) -> Seq<u64>
    decreases pending.len(),
{
    if pending.len() == 0 {
        Seq::empty()
    } else if posted[pending.len() - 1] {
        failed_slots(pending.drop_last(), posted)
    } else {
        failed_slots(pending.drop_last(), posted).push(pending.last())
    }
}

/// The slots whose post succeeded, in order.
pub open spec fn posted_slots(pending: Seq<u64>, posted: Seq<bool>) -> Seq<u64>
    decreases pending.len(),
{
    if pending.len() == 0 {
        Seq::empty()
    } else if posted[pending.len() - 1] {
        posted_slots(pending.drop_last(), posted).push(pending.last())
    } else {
        posted_slots(pending.drop_last(), posted)
    }
}

impl Harvest {
    /// A harvest of nothing.
    pub fn new() -> (r: Harvest)
        ensures
            r.batch@.len() == 0,
            r.pending@.len() == 0,
    {
        Harvest { batch: Vec::new(), pending: Vec::new() }
    }

    /// Records which of the pending slots were posted again; the others stay
    /// pending and are tried again with the next harvest.
    pub fn reposted(&mut self, posted: &[bool])
        requires
            posted@.len() == old(self).pending@.len(),
        ensures
            final(self).pending@ == failed_slots(old(self).pending@, posted@),
            final(self).batch@ == old(self).batch@,
    {
        let ghost before = self.pending@;
        let mut kept: Vec<u64> = Vec::new();
        let mut i: usize = 0;
        assert(before.take(0) =~= Seq::<u64>::empty());
        while i < self.pending.len()
            invariant
                i <= before.len(),
                self.pending@ == before,
                posted@.len() == before.len(),
                kept@ == failed_slots(before.take(i as int), posted@),
                self.batch@ == old(self).batch@,
            decreases before.len() - i,
        {
            assert(before.take(i + 1).drop_last() =~= before.take(i as int));
            if !posted[i] {
                kept.push(self.pending[i]);
            }
            i = i + 1;
        }
        assert(before.take(i as int) =~= before);
        self.pending = kept;
    }

    /// Takes in completed requests: the receives are the next batch, and their
    /// slots are to be posted again. Completed sends are passed over.
    pub fn harvest(&mut self, done: &[Completion]) -> (r: usize)
        ensures
            final(self).batch@ == receive_batch(done@),
            final(self).pending@ == old(self).pending@ + receive_slots(done@),
            r == final(self).batch@.len(),
    {
        let ghost before = self.pending@;
        self.batch.clear();
        let mut i: usize = 0;
        assert(done@.take(0) =~= Seq::<Completion>::empty());
        assert(before + receive_slots(done@.take(0)) =~= before);
        while i < done.len()
            invariant
                i <= done@.len(),
                self.batch@ == receive_batch(done@.take(i as int)),
                self.pending@ =~= before + receive_slots(done@.take(i as int)),
            decreases done@.len() - i,
        {
            assert(done@.take(i + 1).drop_last() =~= done@.take(i as int));
            let c = done[i];
            if c.context != SEND_CTX {
                let bytes: usize = if c.ok {
                    c.bytes
                } else {
                    0
                };
                self.batch.push((c.context, bytes));
                self.pending.push(c.context);
            }
            i = i + 1;
        }
        assert(done@.take(i as int) =~= done@);
        self.batch.len()
    }
}

/// Law: no slot is lost. A pending slot either goes to the kernel or stays
/// pending, and a slot that completes becomes pending, so the slots with the
/// kernel and those pending together stay the same.
pub proof fn no_slot_is_lost(
    kernel: vstd::multiset::Multiset<u64>,
    pending: Seq<u64>,
    posted: Seq<bool>,
)
    ensures
        failed_slots(pending, posted).to_multiset().add(
            posted_slots(pending, posted).to_multiset(),
        ) == pending.to_multiset(),
        kernel.add(posted_slots(pending, posted).to_multiset()).add(
            failed_slots(pending, posted).to_multiset(),
        ) == kernel.add(pending.to_multiset()),
    decreases pending.len(),
{
    broadcast use vstd::seq_lib::group_to_multiset_ensures;

    let failed = failed_slots(pending, posted);
    let sent = posted_slots(pending, posted);
    if pending.len() > 0 {
        no_slot_is_lost(kernel, pending.drop_last(), posted);
        assert(pending =~= pending.drop_last().push(pending.last()));
    } else {
        assert(pending =~= Seq::<u64>::empty());
    }
    assert(failed.to_multiset().add(sent.to_multiset()) =~= pending.to_multiset());
    assert(kernel.add(sent.to_multiset()).add(failed.to_multiset()) =~= kernel.add(
        pending.to_multiset(),
    ));
}

/// The send-ring slot that follows `slot`.
pub fn next_send_slot(slot: u32) -> (r: u32)
    requires
        slot < SEND_RING,
    ensures
        r == (slot + 1) % SEND_RING as int,
        r < SEND_RING,
{
    (slot + 1) % SEND_RING
}

/// The send-ring slot after `k` sends.
pub open spec fn slot_after(slot: int, k: int) -> int {
    (slot + k) % (SEND_RING as int)
}

/// Law: a send-ring slot is used again only after all others were.
pub proof fn send_slots_rotate(slot: int, i: int, j: int)
    requires
        0 <= slot < SEND_RING,
        0 <= i < j < i + SEND_RING,
    ensures
        slot_after(slot, i) != slot_after(slot, j),
        slot_after(slot, i + SEND_RING) == slot_after(slot, i),
{
}

// --- batched sends ----------------------------------------------------------

/// How one batched write went.
#[derive(Debug, Clone, Copy, PartialEq, Eq, Structural)]
pub enum BatchWrite {
    /// So many datagrams were sent.
    Wrote(usize),
    /// A signal came in between.
    Interrupted,
    /// Batched writes do not work here.
    Failed,
}

/// How far a batch has been sent.
#[derive(Debug, Clone, Copy, PartialEq, Eq, Structural)]
pub struct FlushState {
    /// Datagrams sent so far, from the front.
    pub sent: usize,
    /// Whether batched writes are given up for good.
    pub bad: bool,
    /// Whether to try another batched write.
    pub again: bool,
}

/// The state after a batched write of the datagrams `s.sent..n`.
pub open spec fn after_batch_write(s: FlushState, n: usize, w: BatchWrite) -> FlushState {
    match w {
        BatchWrite::Interrupted => s,
        BatchWrite::Failed => FlushState { bad: true, again: false, ..s },
        BatchWrite::Wrote(k) => FlushState {
            sent: (s.sent + k) as usize,
            again: k > 0 && s.sent + k < n,
            ..s
        },
    }
}

impl FlushState {
    /// The state before the first write of a batch of `n`.
    pub fn start(n: usize, bad: bool) -> (r: FlushState)
        ensures
            r == (FlushState { sent: 0, bad, again: !bad && n > 0 }),
    {
        FlushState { sent: 0, bad, again: !bad && n > 0 }
    }

    /// Takes in how a batched write of the datagrams `self.sent..n` went: an
    /// interrupted one is repeated, a failed one ends batching for good, one
    /// that sent nothing ends it for this batch. What is not sent goes out one
    /// by one.
    pub fn wrote(&mut self, n: usize, w: BatchWrite)
        requires
            old(self).again,
            old(self).sent < n,
            w matches BatchWrite::Wrote(k) ==> old(self).sent + k <= n,
        ensures
            *final(self) == after_batch_write(*old(self), n, w),
            final(self).sent <= n,
            final(self).again ==> final(self).sent < n,
    {
        match w {
            BatchWrite::Interrupted => {},
            BatchWrite::Failed => {
                self.bad = true;
                self.again = false;
            },
            BatchWrite::Wrote(k) => {
                self.sent = self.sent + k;
                self.again = k > 0 && self.sent < n;
            },
        }
    }
}

/// How one batched read went.
#[derive(Debug, Clone, Copy, PartialEq, Eq, Structural)]
pub enum BatchRead {
    /// So many datagrams came.
    Got(usize),
    /// A signal came in between.
    Interrupted,
    /// Batched reads do not exist here.
    Unsupported,
    /// Any other failure.
    Failed,
}

/// What to do after a batched read.
#[derive(Debug, Clone, Copy, PartialEq, Eq, Structural)]
pub enum ReadNext {
    /// Hand out so many datagrams.
    Deliver(usize),
    /// Read again.
    Retry,
    /// Read one datagram at a time from now on.
    FallBack,
    /// Report the failure.
    Report,
}

/// What to do after a batched read.
pub fn after_batch_read(r: BatchRead) -> (next: ReadNext)
    ensures
        next == (match r {
            BatchRead::Got(n) => ReadNext::Deliver(n),
            BatchRead::Interrupted => ReadNext::Retry,
            BatchRead::Unsupported => ReadNext::FallBack,
            BatchRead::Failed => ReadNext::Report,
        }),
{
    match r {
        BatchRead::Got(n) => ReadNext::Deliver(n),
        BatchRead::Interrupted => ReadNext::Retry,
        BatchRead::Unsupported => ReadNext::FallBack,
        BatchRead::Failed => ReadNext::Report,
    }
}

// --- whole transfers out of short ones --------------------------------------

/// How one positional read or write went.
#[derive(Debug, Clone, Copy, PartialEq, Eq, Structural)]
pub enum ShortIo {
    /// So many bytes were moved.
    Moved(usize),
    /// A signal came in between.
    Interrupted,
}

/// What follows a positional read or write.
#[derive(Debug, Clone, Copy, PartialEq, Eq, Structural)]
pub enum ExactNext {
    /// Everything was moved.
    Complete,
    /// Go on with the rest.
    Continue,
    /// Nothing was moved though something is left.
    Stuck,
}

/// A transfer of `total` bytes from `offset` on, made of short ones.
#[derive(Debug, Clone, Copy, PartialEq, Eq, Structural)]
pub struct ExactIo {
    pub done: usize,
    pub total: usize,
    pub offset: u64,
}

impl ExactIo {
    /// Takes in how a read or write of the rest went.
    pub fn moved(&mut self, r: ShortIo) -> (next: ExactNext)
        requires
            old(self).done < old(self).total,
            old(self).offset + (old(self).total - old(self).done) <= u64::MAX,
            r matches ShortIo::Moved(n) ==> old(self).done + n <= old(self).total,
        ensures
            final(self).total == old(self).total,
            match r {
                ShortIo::Interrupted => *final(self) == *old(self) && next == ExactNext::Continue,
                ShortIo::Moved(n) => {
                    &&& final(self).done == old(self).done + n
                    &&& final(self).offset == old(self).offset + n
                    &&& next == (if n == 0 {
                        ExactNext::Stuck
                    } else if final(self).done == final(self).total {
                        ExactNext::Complete
                    } else {
                        ExactNext::Continue
                    })
                },
            },
    {
        match r {
            ShortIo::Interrupted => ExactNext::Continue,
            ShortIo::Moved(n) => {
                self.done = self.done + n;
                self.offset = self.offset + n as u64;
                if n == 0 {
                    ExactNext::Stuck
                } else if self.done == self.total {
                    ExactNext::Complete
                } else {
                    ExactNext::Continue
                }
            },
        }
    }
}

// --- socket addresses in raw memory -----------------------------------------

/// The family of a socket address.
#[derive(Debug, Clone, Copy, PartialEq, Eq, Structural)]
pub enum Family {
    V4,
    V6,
    Other,
}

/// A socket address.
#[derive(Debug, Clone, Copy, PartialEq, Eq, Structural)]
pub enum RawAddr {
    V4 { ip4: u32, port: u16 },
    V6 { ip: u128, port: u16, flowinfo: u32, scope: u32 },
}

/// The number whose big-endian bytes stand at `s[off..off + n]`.
pub open spec fn be_at(s: Seq<u8>, off: int, n: int) -> int
    decreases n,
{
    if n <= 0 {
        0
    } else {
        be_at(s, off, n - 1) * 256 + s[off + n - 1]
    }
}

/// Length of an IPv4 socket address.
pub const SOCKADDR_IN_LEN: usize = 16;

/// Length of an IPv6 socket address.
pub const SOCKADDR_IN6_LEN: usize = 28;

/// The socket address in `raw`, of which `len` bytes are valid; nothing where it
/// is of another family or cut short. Port and IP are in network order, flow
/// information and scope in that of a little-endian host.
pub open spec fn parsed_addr(family: Family, raw: Seq<u8>, len: int) -> Option<RawAddr> {
    match family {
        Family::V4 => if len < SOCKADDR_IN_LEN {
            None
        } else {
            Some(RawAddr::V4 { ip4: be_at(raw, 4, 4) as u32, port: be_at(raw, 2, 2) as u16 })
        },
        Family::V6 => if len < SOCKADDR_IN6_LEN {
            None
        } else {
            Some(
                RawAddr::V6 {
                    ip: be_at(raw, 8, 16) as u128,
                    port: be_at(raw, 2, 2) as u16,
                    flowinfo: crate::bytes::le32_at(raw, 4),
                    scope: crate::bytes::le32_at(raw, 24),
                },
            )
        },
        Family::Other => None,
    }
}

/// A big-endian number of `n` bytes is below `256^n`.
proof fn be_bounds(s: Seq<u8>, off: int)
    ensures
        0 <= be_at(s, off, 2) < 0x1_0000,
        0 <= be_at(s, off, 4) < 0x1_0000_0000,
        0 <= be_at(s, off, 16) < 0x1_0000_0000_0000_0000_0000_0000_0000_0000,
{
    reveal_with_fuel(be_at, 17);
}

/// Reads the big-endian number at `b[off..off + n]`.
fn read_be(b: &[u8], off: usize, n: usize) -> (r: u128)
    requires
        n <= 16,
        off + n <= b@.len(),
    ensures
        r == be_at(b@, off as int, n as int),
{
    let mut v: u128 = 0;
    let mut i: usize = 0;
    let room: usize = b.len();
    while i < n
        invariant
            i <= n <= 16,
            off + n <= b@.len(),
            room == b@.len(),
            v == be_at(b@, off as int, i as int),
        decreases n - i,
    {
        proof {
            be_step_fits(b@, off as int, i as int);
        }
        v = v * 256 + b[off + i] as u128;
        i = i + 1;
    }
    v
}

/// Appending a byte to a number of fewer than 16 bytes stays within 128 bits.
proof fn be_step_fits(s: Seq<u8>, off: int, i: int)
    requires
        0 <= i < 16,
    ensures
        0 <= be_at(s, off, i),
        be_at(s, off, i) * 256 + 255 <= 0xffff_ffff_ffff_ffff_ffff_ffff_ffff_ffff,
{
    reveal_with_fuel(be_at, 17);
}

/// Reads a socket address out of raw memory.
pub fn parse_addr(family: Family, raw: &[u8], len: usize) -> (r: Option<RawAddr>)
    requires
        raw@.len() >= SOCKADDR_IN6_LEN,
    ensures
        r == parsed_addr(family, raw@, len as int),
{
    proof {
        be_bounds(raw@, 2);
        be_bounds(raw@, 4);
        be_bounds(raw@, 8);
    }
    match family {
        Family::V4 => {
            if len < SOCKADDR_IN_LEN {
                return None;
            }
            Some(
                RawAddr::V4 { ip4: read_be(raw, 4, 4) as u32, port: read_be(raw, 2, 2) as u16 },
            )
        },
        Family::V6 => {
            if len < SOCKADDR_IN6_LEN {
                return None;
            }
            Some(
                RawAddr::V6 {
                    ip: read_be(raw, 8, 16),
                    port: read_be(raw, 2, 2) as u16,
                    flowinfo: crate::bytes::get_u32(raw, 4),
                    scope: crate::bytes::get_u32(raw, 24),
                },
            )
        },
        Family::Other => None,
    }
}

/// The last `n` bytes of a number, most significant first.
pub open spec fn be_bytes(v: nat, n: nat) -> Seq<u8>
    decreases n,
{
    if n == 0 {
        Seq::empty()
    } else {
        be_bytes(v / 256, (n - 1) as nat).push((v % 256) as u8)
    }
}

/// `n` zero bytes.
pub open spec fn zeros(n: nat) -> Seq<u8> {
    Seq::new(n, |i: int| 0u8)
}

/// A socket address in raw memory, with its family's number in front, as the
/// parts that an address slot holds: zeros fill the slot.
pub open spec fn addr_bytes(a: RawAddr, family: u16) -> Seq<u8> {
    match a {
        RawAddr::V4 { ip4, port } => crate::bytes::le16(family) + be_bytes(port as nat, 2)
            + be_bytes(ip4 as nat, 4) + zeros(24),
        RawAddr::V6 { ip, port, flowinfo, scope } => crate::bytes::le16(family) + be_bytes(
            port as nat,
            2,
        ) + crate::bytes::le32(flowinfo) + be_bytes(ip as nat, 16) + crate::bytes::le32(scope)
            + zeros(4),
    }
}

/// Appends the last `n` bytes of a number, most significant first.
fn push_be(out: &mut Vec<u8>, v: u128, n: usize)
    ensures
        final(out)@ == old(out)@ + be_bytes(v as nat, n as nat),
    decreases n,
{
    if n > 0 {
        push_be(out, v / 256, n - 1);
        out.push((v % 256) as u8);
    }
    assert(out@ =~= old(out)@ + be_bytes(v as nat, n as nat));
}

/// Appends `n` zero bytes.
fn push_zeros(out: &mut Vec<u8>, n: usize)
    ensures
        final(out)@ == old(out)@ + zeros(n as nat),
{
    let ghost before = out@;
    let mut i: usize = 0;
    while i < n
        invariant
            i <= n,
            out@ == before + zeros(i as nat),
        decreases n - i,
    {
        out.push(0);
        i = i + 1;
        assert(out@ =~= before + zeros(i as nat));
    }
}

/// Writes a socket address for an address slot. `family` is the number that the
/// platform has for the address's family.
pub fn encode_addr(a: RawAddr, family: u16) -> (r: Vec<u8>)
    ensures
        r@ == addr_bytes(a, family),
        r@.len() == ADDR_SLOT,
{
    proof {
        be_bytes_len(a);
    }
    let mut out: Vec<u8> = Vec::new();
    out.push((family % 256) as u8);
    out.push((family / 256) as u8);
    assert(out@ =~= crate::bytes::le16(family));
    match a {
        RawAddr::V4 { ip4, port } => {
            push_be(&mut out, port as u128, 2);
            push_be(&mut out, ip4 as u128, 4);
            push_zeros(&mut out, 24);
        },
        RawAddr::V6 { ip, port, flowinfo, scope } => {
            push_be(&mut out, port as u128, 2);
            let mut flow = crate::bytes::u32_bytes(flowinfo);
            out.append(&mut flow);
            push_be(&mut out, ip, 16);
            let mut zone = crate::bytes::u32_bytes(scope);
            out.append(&mut zone);
            push_zeros(&mut out, 4);
        },
    }
    out
}

/// The lengths of the parts of an address.
proof fn be_bytes_len(a: RawAddr)
    ensures
        match a {
            RawAddr::V4 { ip4, port } => be_bytes(port as nat, 2).len() == 2 && be_bytes(
                ip4 as nat,
                4,
            ).len() == 4,
            RawAddr::V6 { ip, port, .. } => be_bytes(port as nat, 2).len() == 2 && be_bytes(
                ip as nat,
                16,
            ).len() == 16,
        },
{
    reveal_with_fuel(be_bytes, 17);
}

/// The number of values of `n` bytes.
spec fn byte_range(n: nat) -> nat
    decreases n,
{
    if n == 0 {
        1
    } else {
        256 * byte_range((n - 1) as nat)
    }
}

/// A number of `n` bytes is read back from them.
proof fn be_round_trip(s: Seq<u8>, off: int, v: nat, n: nat)
    requires
        0 <= off,
        off + n <= s.len(),
        v < byte_range(n),
        s.subrange(off, off + n) == be_bytes(v, n),
    ensures
        be_at(s, off, n as int) == v,
    decreases n,
{
    if n > 0 {
        let t = s.subrange(off, off + n);
        let head = be_bytes(v / 256, (n - 1) as nat);
        assert(t == head.push((v % 256) as u8));
        assert(t.len() == n);
        assert(s.subrange(off, off + n - 1) =~= head);
        assert(v / 256 < byte_range((n - 1) as nat));
        be_round_trip(s, off, v / 256, (n - 1) as nat);
        assert(s[off + n - 1] == t[n - 1]);
    }
}

/// Law: an address is read back from the slot that it was written to.
pub proof fn addr_round_trip(a: RawAddr, family: u16)
    ensures
        parsed_addr(
            if a is V4 {
                Family::V4
            } else {
                Family::V6
            },
            addr_bytes(a, family),
            ADDR_SLOT as int,
        ) == Some(a),
        crate::bytes::le16_at(addr_bytes(a, family), 0) == family,
{
    let s = addr_bytes(a, family);
    be_bytes_len(a);
    reveal_with_fuel(byte_range, 17);
    assert(s.subrange(0, 2) =~= crate::bytes::le16(family));
    crate::bytes::le16_round_trip(family, s, 0);
    match a {
        RawAddr::V4 { ip4, port } => {
            assert(s.subrange(2, 4) =~= be_bytes(port as nat, 2));
            be_round_trip(s, 2, port as nat, 2);
            assert(s.subrange(4, 8) =~= be_bytes(ip4 as nat, 4));
            be_round_trip(s, 4, ip4 as nat, 4);
        },
        RawAddr::V6 { ip, port, flowinfo, scope } => {
            assert(s.subrange(2, 4) =~= be_bytes(port as nat, 2));
            be_round_trip(s, 2, port as nat, 2);
            assert(s.subrange(4, 8) =~= crate::bytes::le32(flowinfo));
            crate::bytes::le32_round_trip(flowinfo, s, 4);
            assert(s.subrange(8, 24) =~= be_bytes(ip as nat, 16));
            be_round_trip(s, 8, ip as nat, 16);
            assert(s.subrange(24, 28) =~= crate::bytes::le32(scope));
            crate::bytes::le32_round_trip(scope, s, 24);
        },
    }
}

} // verus!
