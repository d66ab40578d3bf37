//! Transfer counters and gauges, their point-in-time copy, and sizes as text.

use crate::text::{decimal, decimal_signed, same};
use vstd::prelude::*;
use vstd::string::StringExecFns;

verus! {

/// The counters and gauges of one transfer. Counters only grow; they wrap where
/// a 64-bit count is full. Gauges hold current values.
#[derive(Debug, Clone, Copy, PartialEq, Eq, Structural)]
pub struct Stats {
    // Counters.
    pub bytes_sent: u64,
    pub packets_sent: u64,
    pub retrans_sent: u64,
    pub bytes_recv: u64,
    pub packets_recv: u64,
    pub payload_recv: u64,
    pub dup_recv: u64,
    pub corrupt_recv: u64,
    pub nacks_sent: u64,
    pub nacks_recv: u64,
    pub blocks_written: u64,
    // Gauges.
    pub target_rate_bps: u64,
    pub srtt_path_us: u64,
    pub srtt_net_us: u64,
    pub base_rtt_us: u64,
    pub rto_us: u64,
    pub rex_queue_len: i64,
    pub hi_contig: u64,
    // Transfer descriptors.
    pub total_bytes: u64,
    pub total_blocks: u64,
    pub block_size: u64,
}

/// A counter after `n` more events.
pub open spec fn counted(count: u64, n: int) -> u64 {
    (count as int + n) as u64
}

/// A counter after `n` more events.
pub fn count(counter: u64, n: u64) -> (r: u64)
    ensures
        r == counted(counter, n as int),
{
    let sum: u128 = counter as u128 + n as u128;
    let r: u64 = #[verifier::truncate] (sum as u64);
    r
}

/// Statistics of a transfer that has not begun.
pub open spec fn zero_stats() -> Stats {
    Stats {
        bytes_sent: 0,
        packets_sent: 0,
        retrans_sent: 0,
        bytes_recv: 0,
        packets_recv: 0,
        payload_recv: 0,
        dup_recv: 0,
        corrupt_recv: 0,
        nacks_sent: 0,
        nacks_recv: 0,
        blocks_written: 0,
        target_rate_bps: 0,
        srtt_path_us: 0,
        srtt_net_us: 0,
        base_rtt_us: 0,
        rto_us: 0,
        rex_queue_len: 0,
        hi_contig: 0,
        total_bytes: 0,
        total_blocks: 0,
        block_size: 0,
    }
}

impl Default for Stats {
    fn default() -> (r: Self)
        ensures
            r == zero_stats(),
    {
        Stats {
            bytes_sent: 0,
            packets_sent: 0,
            retrans_sent: 0,
            bytes_recv: 0,
            packets_recv: 0,
            payload_recv: 0,
            dup_recv: 0,
            corrupt_recv: 0,
            nacks_sent: 0,
            nacks_recv: 0,
            blocks_written: 0,
            target_rate_bps: 0,
            srtt_path_us: 0,
            srtt_net_us: 0,
            base_rtt_us: 0,
            rto_us: 0,
            rex_queue_len: 0,
            hi_contig: 0,
            total_bytes: 0,
            total_blocks: 0,
            block_size: 0,
        }
    }
}

/// A point-in-time copy of transfer counters and derived progress values.
#[derive(Debug, Clone, Copy, PartialEq, Eq, Structural)]
pub struct StatsSnapshot {
    /// Time since the transfer's statistics were created.
    pub elapsed_us: u64,
    /// The counters and gauges at that time.
    pub stats: Stats,
    /// Bytes known to have been moved.
    pub progress_bytes: u64,
    /// Blocks known to have been moved.
    pub progress_blocks: u64,
    /// Queuing delay: how far the smoothed network RTT is above the base RTT.
    pub queue_delay_us: u64,
}

pub open spec fn min_int(a: int, b: int) -> int {
    if a <= b {
        a
    } else {
        b
    }
}

pub open spec fn max_int(a: int, b: int) -> int {
    if a >= b {
        a
    } else {
        b
    }
}

/// Blocks known to have been moved: the contiguous ones or the written ones,
/// whichever are more, within the object.
pub open spec fn blocks_done(s: Stats) -> int {
    min_int(max_int(s.hi_contig as int, s.blocks_written as int), s.total_blocks as int)
}

/// Bytes known to have been moved: the payload where any was received, else the
/// blocks moved at their full size, within the object.
pub open spec fn bytes_done(s: Stats) -> int {
    if s.payload_recv > 0 {
        min_int(s.payload_recv as int, s.total_bytes as int)
    } else {
        min_int(blocks_done(s) * s.block_size, s.total_bytes as int)
    }
}

impl Stats {
    /// Statistics of a transfer that has not begun.
    pub fn new() -> (r: Stats)
        ensures
            r == zero_stats(),
    {
        Stats::default()
    }

    /// A copy of the counters with the progress that they amount to.
    pub fn snapshot(&self, elapsed_us: u64) -> (r: StatsSnapshot)
        ensures
            r.elapsed_us == elapsed_us,
            r.stats == *self,
            r.progress_blocks == blocks_done(*self),
            r.progress_bytes == bytes_done(*self),
            r.queue_delay_us == max_int(self.srtt_net_us - self.base_rtt_us, 0),
    {
        let mut blocks: u64 = if self.hi_contig >= self.blocks_written {
            self.hi_contig
        } else {
            self.blocks_written
        };
        if blocks > self.total_blocks {
            blocks = self.total_blocks;
        }
        let bytes: u64 = if self.payload_recv > 0 {
            if self.payload_recv <= self.total_bytes {
                self.payload_recv
            } else {
                self.total_bytes
            }
        } else if self.total_bytes > 0 && self.block_size > 0 {
            match blocks.checked_mul(self.block_size) {
                Some(n) => if n <= self.total_bytes {
                    n
                } else {
                    self.total_bytes
                },
                None => self.total_bytes,
            }
        } else {
            proof {
                assert(blocks * self.block_size >= 0) by (nonlinear_arith)
                    requires
                        blocks >= 0,
                        self.block_size >= 0,
                ;
                if self.block_size == 0 {
                    assert(blocks * self.block_size == 0) by (nonlinear_arith)
                        requires
                            self.block_size == 0,
                    ;
                }
            }
            0
        };
        StatsSnapshot {
            elapsed_us,
            stats: *self,
            progress_bytes: bytes,
            progress_blocks: blocks,
            queue_delay_us: self.srtt_net_us.saturating_sub(self.base_rtt_us),
        }
    }
}

/// Law: reported progress never exceeds the object, and does not fall as blocks
/// are received or confirmed.
pub proof fn progress_is_bounded_and_monotone(s: Stats, more_hi: u64, more_written: u64)
    requires
        more_hi >= s.hi_contig,
        more_written >= s.blocks_written,
    ensures
        blocks_done(s) <= s.total_blocks,
        bytes_done(s) <= s.total_bytes,
        blocks_done(s) <= blocks_done(
            (Stats { hi_contig: more_hi, blocks_written: more_written, ..s }),
        ),
        bytes_done(s) <= bytes_done(
            (Stats { hi_contig: more_hi, blocks_written: more_written, ..s }),
        ),
{
    let t = Stats { hi_contig: more_hi, blocks_written: more_written, ..s };
    assert(blocks_done(s) * s.block_size <= blocks_done(t) * s.block_size) by (nonlinear_arith)
        requires
            blocks_done(s) <= blocks_done(t),
            s.block_size >= 0,
    ;
}

// --- sizes as text ----------------------------------------------------------

/// The distance between neighbouring double-precision numbers at `n`.
pub open spec fn double_step(n: nat) -> nat
    decreases n,
{
    if n < 0x20_0000_0000_0000 {
        1
    } else {
        2 * double_step(n / 2)
    }
}

/// `n / d` rounded to the nearest integer, ties to the even one.
pub open spec fn rounded_quotient(n: int, d: int) -> int {
    if 2 * (n % d) > d || (2 * (n % d) == d && (n / d) % 2 == 1) {
        n / d + 1
    } else {
        n / d
    }
}

/// The double-precision number nearest to `n`.
pub open spec fn nearest_double(n: nat) -> int {
    rounded_quotient(n as int, double_step(n) as int) * double_step(n)
}

/// The binary unit of a size: the largest power of 1024 that is not above it.
pub open spec fn size_unit(n: nat) -> nat
    decreases n,
{
    if n < 1024 {
        1
    } else {
        1024 * size_unit(n / 1024)
    }
}

/// The letter of a binary unit.
pub open spec fn unit_letter(n: nat) -> char
    recommends
        n >= 1024,
{
    let u = size_unit(n);
    if u == 0x400 {
        'K'
    } else if u == 0x10_0000 {
        'M'
    } else if u == 0x4000_0000 {
        'G'
    } else if u == 0x100_0000_0000 {
        'T'
    } else if u == 0x4_0000_0000_0000 {
        'P'
    } else {
        'E'
    }
}

/// A size for people to read: bytes below 1024, else two decimals of the binary
/// unit.
pub open spec fn size_text(n: nat) -> Seq<char> {
    if n < 1024 {
        crate::text::dec(n) + " B"@
    } else {
        let hundredths = rounded_quotient(100 * nearest_double(n), size_unit(n) as int);
        crate::text::dec((hundredths / 100) as nat) + seq![
            '.',
            crate::text::digit(hundredths % 100 / 10),
            crate::text::digit(hundredths % 10),
            ' ',
            unit_letter(n),
        ] + "iB"@
    }
}

/// `n / d` rounded to the nearest integer, ties to the even one.
fn divide_rounded(n: u128, d: u128) -> (r: u128)
    requires
        0 < d <= 0x1_0000_0000_0000_0000,
        n <= 0x64_0000_0000_0000_0000,
    ensures
        r == rounded_quotient(n as int, d as int),
        r <= n + 1,
{
    let q: u128 = n / d;
    let rest: u128 = n % d;
    proof {
        assert(q <= n) by (nonlinear_arith)
            requires
                q == n / d,
                d > 0,
        ;
    }
    if 2 * rest > d || (2 * rest == d && q % 2 == 1) {
        q + 1
    } else {
        q
    }
}

/// The steps between double-precision numbers below `2^64`.
proof fn double_step_values(n: u64)
    ensures
        1 <= double_step(n as nat) <= 0x800,
        0x1_0000_0000_0000_0000int % double_step(n as nat) as int == 0,
{
    reveal_with_fuel(double_step, 13);
    let s = double_step(n as nat);
    assert(s == 1 || s == 2 || s == 4 || s == 8 || s == 16 || s == 32 || s == 64 || s == 128 || s
        == 256 || s == 512 || s == 1024 || s == 2048);
    let whole = 0x1_0000_0000_0000_0000int;
    assert(whole % 1 == 0 && whole % 2 == 0 && whole % 4 == 0 && whole % 8 == 0 && whole % 16 == 0
        && whole % 32 == 0 && whole % 64 == 0 && whole % 128 == 0 && whole % 256 == 0 && whole % 512
        == 0 && whole % 1024 == 0 && whole % 2048 == 0);
}

/// The distance between neighbouring double-precision numbers at `n`.
fn step_at(n: u64) -> (r: u64)
    ensures
        r == double_step(n as nat),
    decreases n,
{
    proof {
        double_step_values(n);
    }
    if n < 0x20_0000_0000_0000 {
        1
    } else {
        2 * step_at(n / 2)
    }
}

/// The double-precision number nearest to `n`.
fn to_double(n: u64) -> (r: u128)
    ensures
        r == nearest_double(n as nat),
        r <= 0x1_0000_0000_0000_0000,
{
    let step: u128 = step_at(n) as u128;
    proof {
        double_step_values(n);
        rounding_stays_in_range(n as int, step as int);
    }
    divide_rounded(n as u128, step) * step
}

/// Rounding a 64-bit number to a multiple of a step stays within `2^64`.
proof fn rounding_stays_in_range(n: int, g: int)
    requires
        0 <= n < 0x1_0000_0000_0000_0000,
        1 <= g <= 0x800,
        0x1_0000_0000_0000_0000int % g == 0,
    ensures
        rounded_quotient(n, g) * g <= 0x1_0000_0000_0000_0000,
{
    vstd::arithmetic::div_mod::lemma_fundamental_div_mod(n, g);
    vstd::arithmetic::div_mod::lemma_fundamental_div_mod(0x1_0000_0000_0000_0000int, g);
    let top = 0x1_0000_0000_0000_0000int / g;
    let q = n / g;
    assert(q + 1 <= top && (q + 1) * g <= 0x1_0000_0000_0000_0000) by (nonlinear_arith)
        requires
            n == g * q + n % g,
            0 <= n % g,
            0x1_0000_0000_0000_0000int == g * top,
            n < 0x1_0000_0000_0000_0000,
            g >= 1,
    ;
    assert(q * g <= (q + 1) * g) by (nonlinear_arith)
        requires
            g >= 1,
    ;
}

/// The units that a 64-bit size can have.
proof fn size_unit_values(n: u64)
    ensures
        ({
            let u = size_unit(n as nat);
            u == 1 || u == 0x400 || u == 0x10_0000 || u == 0x4000_0000 || u == 0x100_0000_0000 || u
                == 0x4_0000_0000_0000 || u == 0x1000_0000_0000_0000
        }),
        n >= 1024 ==> size_unit(n as nat) > 1,
{
    reveal_with_fuel(size_unit, 8);
}

/// The binary unit of a size.
fn unit_at(n: u64) -> (r: u64)
    ensures
        r == size_unit(n as nat),
    decreases n,
{
    proof {
        size_unit_values(n);
    }
    if n < 1024 {
        1
    } else {
        1024 * unit_at(n / 1024)
    }
}

/// A size for people to read.
pub fn human_bytes(b: u64) -> (r: String)
    ensures
        r@ == size_text(b as nat),
{
    if b < 1024 {
        let mut s = decimal(b);
        s.append(" B");
        return s;
    }
    let unit: u64 = unit_at(b);
    proof {
        size_unit_values(b);
    }
    let letter: char = if unit == 0x400 {
        'K'
    } else if unit == 0x10_0000 {
        'M'
    } else if unit == 0x4000_0000 {
        'G'
    } else if unit == 0x100_0000_0000 {
        'T'
    } else if unit == 0x4_0000_0000_0000 {
        'P'
    } else {
        'E'
    };
    let hundredths: u128 = divide_rounded(100 * to_double(b), unit as u128);
    proof {
        hundredths_fit(100 * nearest_double(b as nat), unit as int);
    }
    let mut s = decimal((hundredths / 100) as u64);
    s.push('.');
    s.push((48 + (hundredths % 100 / 10) as u8) as char);
    s.push((48 + (hundredths % 10) as u8) as char);
    s.push(' ');
    s.push(letter);
    s.append("iB");
    assert(s@ =~= size_text(b as nat));
    s
}

/// The number of hundredths of a unit of at least 1024 fits in 64 bits.
proof fn hundredths_fit(n: int, unit: int)
    requires
        0 <= n <= 0x64_0000_0000_0000_0000,
        unit >= 1024,
    ensures
        0 <= rounded_quotient(n, unit) <= u64::MAX,
{
    assert(0 <= n / unit <= n / 1024) by {
        vstd::arithmetic::div_mod::lemma_div_is_ordered_by_denominator(n, 1024, unit);
        vstd::arithmetic::div_mod::lemma_div_pos_is_pos(n, unit);
    }
}

// --- reports ----------------------------------------------------------------

/// The figures of a report that are measured in fractions, as text: times in
/// seconds or milliseconds, rates in megabits per second, shares in percent.
pub struct Figures {
    pub elapsed: String,
    pub wire_mbps: String,
    pub goodput_mbps: String,
    pub target_mbps: String,
    /// The share of `wasted` packets.
    pub wasted_percent: String,
    pub srtt_path_ms: String,
    pub srtt_net_ms: String,
    pub base_ms: String,
    pub rto_ms: String,
    pub qdelay_ms: String,
}

/// A count as text.
pub open spec fn shown(n: u64) -> Seq<char> {
    crate::text::dec(n as nat)
}

/// The contiguous mark against the number of blocks.
pub open spec fn mark_text(s: Stats) -> Seq<char> {
    " hicontig="@ + shown(s.hi_contig) + "/"@ + shown(s.total_blocks)
}

/// The final one-line report of a sender, or of a receiver.
pub open spec fn summary_text(s: Stats, sending: bool, f: Figures) -> Seq<char> {
    if sending {
        "girth send complete: "@ + size_text(s.total_bytes as nat) + " in "@ + f.elapsed@
            + "s (wire "@ + f.wire_mbps@ + " Mbps) | pkts="@ + shown(s.packets_sent) + " retrans="@
            + shown(s.retrans_sent) + " ("@ + f.wasted_percent@ + "%) nacks_in="@ + shown(
            s.nacks_recv,
        )
    } else {
        "girth recv complete: "@ + size_text(s.total_bytes as nat) + " in "@ + f.elapsed@
            + "s (goodput "@ + f.goodput_mbps@ + " Mbps, wire "@ + f.wire_mbps@
            + " Mbps) | pkts="@ + shown(s.packets_recv) + " dup="@ + shown(s.dup_recv) + " ("@
            + f.wasted_percent@ + "%) corrupt="@ + shown(s.corrupt_recv) + " nacks_out="@ + shown(
            s.nacks_sent,
        )
    }
}

/// The periodic `key=value` report of a sender, or of a receiver.
pub open spec fn line_text(s: Stats, sending: bool, f: Figures) -> Seq<char> {
    if sending {
        "t="@ + f.elapsed@ + " role=send wire_mbps="@ + f.wire_mbps@ + " target_mbps="@
            + f.target_mbps@ + " pkts="@ + shown(s.packets_sent) + " retrans="@ + shown(
            s.retrans_sent,
        ) + " nacks_in="@ + shown(s.nacks_recv) + " rexq="@ + crate::text::dec_signed(
            s.rex_queue_len as int,
        ) + mark_text(s)
    } else {
        "t="@ + f.elapsed@ + " role=recv wire_mbps="@ + f.wire_mbps@ + " goodput_mbps="@
            + f.goodput_mbps@ + " pkts="@ + shown(s.packets_recv) + " dup="@ + shown(s.dup_recv)
            + "("@ + f.wasted_percent@ + "%) corrupt="@ + shown(s.corrupt_recv) + " nacks_out="@
            + shown(s.nacks_sent) + " losstab="@ + crate::text::dec_signed(s.rex_queue_len as int)
            + " srtt_path_ms="@ + f.srtt_path_ms@ + " srtt_net_ms="@ + f.srtt_net_ms@ + " base_ms="@
            + f.base_ms@ + " rto_ms="@ + f.rto_ms@ + " qdelay_ms="@ + f.qdelay_ms@
            + " target_mbps="@ + f.target_mbps@ + mark_text(s)
    }
}

/// The packets whose share a report gives, and the packets that it is a share
/// of: retransmitted ones of a sender, duplicate ones of a receiver.
pub open spec fn wasted_of(s: Stats, sending: bool) -> (u64, u64) {
    if sending {
        (s.retrans_sent, s.packets_sent)
    } else {
        (s.dup_recv, s.packets_recv)
    }
}

/// Adds a name and a value to a report.
fn field(line: &mut String, name: &str, value: &str)
    ensures
        final(line)@ == old(line)@ + name@ + value@,
{
    line.append(name);
    line.append(value);
}

impl Stats {
    /// The packets whose share a report gives, and those it is a share of.
    /// `role` is "send" or "recv".
    pub fn wasted(&self, role: &str) -> (r: (u64, u64))
        ensures
            r == wasted_of(*self, role@ == "send"@),
    {
        if same(role, "send") {
            (self.retrans_sent, self.packets_sent)
        } else {
            (self.dup_recv, self.packets_recv)
        }
    }

    /// Final human-readable one-line report. `role` is "send" or "recv".
    pub fn summary(&self, role: &str, f: &Figures) -> (r: String)
        ensures
            r@ == summary_text(*self, role@ == "send"@, *f),
    {
        let mut s = String::new();
        let size = human_bytes(self.total_bytes);
        if same(role, "send") {
            field(&mut s, "girth send complete: ", &size);
            field(&mut s, " in ", &f.elapsed);
            field(&mut s, "s (wire ", &f.wire_mbps);
            field(&mut s, " Mbps) | pkts=", &decimal(self.packets_sent));
            field(&mut s, " retrans=", &decimal(self.retrans_sent));
            field(&mut s, " (", &f.wasted_percent);
            field(&mut s, "%) nacks_in=", &decimal(self.nacks_recv));
        } else {
            field(&mut s, "girth recv complete: ", &size);
            field(&mut s, " in ", &f.elapsed);
            field(&mut s, "s (goodput ", &f.goodput_mbps);
            field(&mut s, " Mbps, wire ", &f.wire_mbps);
            field(&mut s, " Mbps) | pkts=", &decimal(self.packets_recv));
            field(&mut s, " dup=", &decimal(self.dup_recv));
            field(&mut s, " (", &f.wasted_percent);
            field(&mut s, "%) corrupt=", &decimal(self.corrupt_recv));
            field(&mut s, " nacks_out=", &decimal(self.nacks_sent));
        }
        s
    }

    /// Periodic parseable `key=value` report. `role` is "send" or "recv".
    pub fn format_line(&self, role: &str, f: &Figures) -> (r: String)
        ensures
            r@ == line_text(*self, role@ == "send"@, *f),
    {
        let mut s = String::new();
        field(&mut s, "t=", &f.elapsed);
        if same(role, "send") {
            field(&mut s, " role=send wire_mbps=", &f.wire_mbps);
            field(&mut s, " target_mbps=", &f.target_mbps);
            field(&mut s, " pkts=", &decimal(self.packets_sent));
            field(&mut s, " retrans=", &decimal(self.retrans_sent));
            field(&mut s, " nacks_in=", &decimal(self.nacks_recv));
            field(&mut s, " rexq=", &decimal_signed(self.rex_queue_len));
        } else {
            field(&mut s, " role=recv wire_mbps=", &f.wire_mbps);
            field(&mut s, " goodput_mbps=", &f.goodput_mbps);
            field(&mut s, " pkts=", &decimal(self.packets_recv));
            field(&mut s, " dup=", &decimal(self.dup_recv));
            field(&mut s, "(", &f.wasted_percent);
            field(&mut s, "%) corrupt=", &decimal(self.corrupt_recv));
            field(&mut s, " nacks_out=", &decimal(self.nacks_sent));
            field(&mut s, " losstab=", &decimal_signed(self.rex_queue_len));
            field(&mut s, " srtt_path_ms=", &f.srtt_path_ms);
            field(&mut s, " srtt_net_ms=", &f.srtt_net_ms);
            field(&mut s, " base_ms=", &f.base_ms);
            field(&mut s, " rto_ms=", &f.rto_ms);
            field(&mut s, " qdelay_ms=", &f.qdelay_ms);
            field(&mut s, " target_mbps=", &f.target_mbps);
        }
        field(&mut s, " hicontig=", &decimal(self.hi_contig));
        field(&mut s, "/", &decimal(self.total_blocks));
        s
    }
}

// --- the periodic report ----------------------------------------------------

/// How long a reporter sleeps at most before it looks whether to stop, in
/// nanoseconds.
pub const REPORT_POLL_NS: u128 = 50_000_000;

/// What a reporter does after a sleep.
#[derive(Debug, Clone, Copy, PartialEq, Eq, Structural)]
pub enum ReportNext {
    /// It ends.
    End,
    /// It sleeps again.
    Wait,
    /// It reports.
    Report,
}

/// How long a reporter sleeps at a time, in nanoseconds, so that a long interval
/// does not delay its end.
pub fn report_slice(interval_ns: u128) -> (r: u128)
    ensures
        r == min_int(REPORT_POLL_NS as int, interval_ns as int),
{
    if interval_ns < REPORT_POLL_NS {
        interval_ns
    } else {
        REPORT_POLL_NS
    }
}

/// What a reporter does `elapsed_ns` after its last report.
pub fn report_next(stopped: bool, elapsed_ns: u128, interval_ns: u128) -> (r: ReportNext)
    ensures
        r == (if stopped {
            ReportNext::End
        } else if elapsed_ns < interval_ns {
            ReportNext::Wait
        } else {
            ReportNext::Report
        }),
{
    if stopped {
        ReportNext::End
    } else if elapsed_ns < interval_ns {
        ReportNext::Wait
    } else {
        ReportNext::Report
    }
}

} // verus!
