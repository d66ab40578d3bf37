//! What holds of errors, counters and reports.

use crate::error::{GirthError, IoError, IoKind};
use crate::log::{log_line, Level};
use crate::stats::{
    count, human_bytes, report_next, report_slice, Figures, ReportNext, Stats, StatsSnapshot,
};
use vstd::prelude::*;

verus! {

// --- errors -----------------------------------------------------------------

/// Law: an I/O failure becomes what it means for a transfer. Both kinds of timeout
/// are timeouts, an absent object is not found, a stop is a stop, a malformed
/// message is a protocol error with its text, and any other failure stays what it
/// was.
pub proof fn failures_are_classified()
    ensures
        forall|e: IoError, r: GirthError| #[trigger]
            call_ensures(<GirthError as From<IoError>>::from, (e,), r) ==> {
                &&& r is Timeout <==> e.kind == IoKind::TimedOut || e.kind == IoKind::WouldBlock
                &&& r is NotFound <==> e.kind == IoKind::NotFound
                &&& r is Stopped <==> e.kind == IoKind::Stopped
                &&& r is Protocol <==> e.kind == IoKind::Malformed
                &&& r matches GirthError::Protocol(s) ==> s == e.message
                &&& r is Io <==> e.kind == IoKind::UnexpectedEof || e.kind
                    == IoKind::ConnectionReset || e.kind == IoKind::InvalidInput || e.kind
                    == IoKind::AddrNotAvailable || e.kind == IoKind::Other
                &&& r matches GirthError::Io(x) ==> x == e
                &&& !(r is AuthDenied) && !(r is VersionMismatch) && !(r is Integrity)
            },
        forall|e: &GirthError, r: bool| #[trigger]
            call_ensures(GirthError::is_retryable, (e,), r) ==> (r <==> *e is Timeout),
        forall|kind: IoKind, message: &str, e: IoError| #[trigger]
            call_ensures(IoError::new, (kind, message), e) ==> e.kind == kind && e.message@
                == message@,
        forall|message: &str, e: IoError| #[trigger]
            call_ensures(IoError::other, (message,), e) ==> e.kind == IoKind::Other && e.message@
                == message@,
{
}

/// Law: an I/O failure that became a transfer's error of its own kind comes back
/// as it was; any other error comes back with the text that the user is told.
pub proof fn failures_come_back()
    ensures
        forall|e: IoError, g: GirthError, r: IoError|
            #![trigger call_ensures(<GirthError as From<IoError>>::from, (e,), g), call_ensures(GirthError::into_io, (g,), r)]
            call_ensures(<GirthError as From<IoError>>::from, (e,), g) && call_ensures(
                GirthError::into_io,
                (g,),
                r,
            ) && (e.kind == IoKind::UnexpectedEof || e.kind == IoKind::ConnectionReset || e.kind
                == IoKind::InvalidInput || e.kind == IoKind::AddrNotAvailable || e.kind
                == IoKind::Other) ==> r == e,
        forall|g: GirthError, r: IoError, text: String|
            #![trigger call_ensures(GirthError::into_io, (g,), r), call_ensures(GirthError::message, (&g,), text)]
            call_ensures(GirthError::into_io, (g,), r) && call_ensures(
                GirthError::message,
                (&g,),
                text,
            ) && !(g is Io) ==> r.kind == IoKind::Other && r.message@ == text@,
{
}

/// Law: what the user is told of an error.
pub proof fn errors_are_told()
    ensures
        forall|e: &GirthError, r: String| #[trigger]
            call_ensures(GirthError::message, (e,), r) ==> {
                &&& *e is Timeout ==> r@ == "transfer timed out"@
                &&& *e is Stopped ==> r@ == "transfer cancelled"@
                &&& *e is AuthDenied ==> r@ == "authentication denied"@
                &&& *e is NotFound ==> r@ == "object not found"@
                &&& *e is VersionMismatch ==> r@ == "protocol version mismatch"@
                &&& *e is Integrity ==> r@ == "integrity check failed (crc32c mismatch)"@
                &&& *e matches GirthError::Protocol(s) ==> r@ == "protocol error: "@ + s@
                &&& *e matches GirthError::Io(x) ==> r@ == "io error: "@ + x.message@
            },
        forall|level: Level, msg: &str, r: String| #[trigger]
            call_ensures(log_line, (level, msg), r) ==> {
                &&& level == Level::Error ==> r@ == "girth ["@ + "error"@ + "] "@ + msg@
                &&& level == Level::Warn ==> r@ == "girth ["@ + "warn"@ + "] "@ + msg@
                &&& level == Level::Info ==> r@ == "girth ["@ + "info"@ + "] "@ + msg@
            },
{
}

/// A character as a small letter, where it is an ASCII capital.
pub open spec fn small(c: char) -> char {
    if 'A' <= c && c <= 'Z' {
        (c as u32 + 32) as char
    } else {
        c
    }
}

/// Whether `word` stands in `msg` from `i` on, whatever the case of its letters.
pub open spec fn mentioned_at(msg: Seq<char>, word: Seq<char>, i: int) -> bool {
    &&& 0 <= i
    &&& i + word.len() <= msg.len()
    &&& forall|k: int| 0 <= k < word.len() ==> small(#[trigger] msg[i + k]) == word[k]
}

/// Whether `word` stands somewhere in `msg`.
pub open spec fn mentioned(msg: Seq<char>, word: Seq<char>) -> bool {
    exists|i: int| #[trigger] mentioned_at(msg, word, i)
}

/// A word that is mentioned is found in the text in small letters.
pub proof fn mentioned_is_found(msg: Seq<char>, word: Seq<char>)
    ensures
        mentioned(msg, word) == crate::text::occurs(crate::text::lowered(msg), word),
{
    let m = crate::text::lowered(msg);
    assert forall|k: int| 0 <= k < msg.len() implies m[k] == small(#[trigger] msg[k]) by {
    }
    assert forall|i: int| mentioned_at(msg, word, i) == #[trigger] crate::text::stands_at(
        m,
        word,
        i,
    ) by {
        if crate::text::stands_at(m, word, i) {
            assert forall|k: int| 0 <= k < word.len() implies small(#[trigger] msg[i + k])
                == word[k] by {
                assert(m.subrange(i, i + word.len())[k] == word[k]);
            }
        }
        if mentioned_at(msg, word, i) {
            let there = m.subrange(i, i + word.len());
            assert forall|k: int| 0 <= k < word.len() implies #[trigger] there[k] == word[k] by {
                assert(small(msg[i + k]) == word[k]);
            }
            assert(there =~= word);
        }
    }
    if mentioned(msg, word) {
        let i = choose|i: int| #[trigger] mentioned_at(msg, word, i);
        assert(crate::text::stands_at(m, word, i));
    }
    if crate::text::occurs(m, word) {
        let i = choose|i: int| crate::text::stands_at(m, word, i);
        assert(mentioned_at(msg, word, i));
    }
}

/// Law: a server's rejection is classified by what it mentions, in either case: a
/// version mismatch first, then a denial, then an absent object; any other text is
/// a protocol error that carries it.
pub proof fn rejections_are_classified()
    ensures
        forall|msg: &str, r: GirthError| #[trigger]
            call_ensures(GirthError::from_server_err, (msg,), r) ==> {
                let version = mentioned(msg@, "version mismatch"@);
                let denied = mentioned(msg@, "auth"@) || mentioned(msg@, "denied"@) || mentioned(
                    msg@,
                    "unauthorized"@,
                );
                let absent = mentioned(msg@, "no such file"@) || mentioned(msg@, "not found"@)
                    || mentioned(msg@, "notfound"@);
                &&& r is VersionMismatch <==> version
                &&& r is AuthDenied <==> !version && denied
                &&& r is NotFound <==> !version && !denied && absent
                &&& r is Protocol <==> !version && !denied && !absent
                &&& r matches GirthError::Protocol(s) ==> s@ == msg@
            },
{
    assert forall|msg: &str, r: GirthError| #[trigger]
        call_ensures(GirthError::from_server_err, (msg,), r) implies {
        let version = mentioned(msg@, "version mismatch"@);
        let denied = mentioned(msg@, "auth"@) || mentioned(msg@, "denied"@) || mentioned(
            msg@,
            "unauthorized"@,
        );
        let absent = mentioned(msg@, "no such file"@) || mentioned(msg@, "not found"@)
            || mentioned(msg@, "notfound"@);
        &&& r is VersionMismatch <==> version
        &&& r is AuthDenied <==> !version && denied
        &&& r is NotFound <==> !version && !denied && absent
        &&& r is Protocol <==> !version && !denied && !absent
        &&& r matches GirthError::Protocol(s) ==> s@ == msg@
    } by {
        mentioned_is_found(msg@, "version mismatch"@);
        mentioned_is_found(msg@, "auth"@);
        mentioned_is_found(msg@, "denied"@);
        mentioned_is_found(msg@, "unauthorized"@);
        mentioned_is_found(msg@, "no such file"@);
        mentioned_is_found(msg@, "not found"@);
        mentioned_is_found(msg@, "notfound"@);
    }
}

// --- counters ---------------------------------------------------------------

/// Law: a counter adds up, and wraps at 64 bits. A transfer starts with every
/// counter at zero.
pub proof fn counters_add_up()
    ensures
        forall|c: u64, n: u64, r: u64| #[trigger]
            call_ensures(count, (c, n), r) ==> {
                &&& c + n <= u64::MAX ==> r == c + n
                &&& c + n > u64::MAX ==> r == c + n - 0x1_0000_0000_0000_0000
            },
        forall|s: Stats| #[trigger]
            call_ensures(Stats::new, (), s) ==> {
                &&& s.bytes_sent == 0 && s.packets_sent == 0 && s.retrans_sent == 0
                &&& s.bytes_recv == 0 && s.packets_recv == 0 && s.payload_recv == 0
                &&& s.dup_recv == 0 && s.corrupt_recv == 0 && s.nacks_sent == 0 && s.nacks_recv
                    == 0 && s.blocks_written == 0
                &&& s.target_rate_bps == 0 && s.srtt_path_us == 0 && s.srtt_net_us == 0
                    && s.base_rtt_us == 0 && s.rto_us == 0
                &&& s.rex_queue_len == 0 && s.hi_contig == 0 && s.total_bytes == 0
                    && s.total_blocks == 0 && s.block_size == 0
            },
{
    assert forall|c: u64, n: u64, r: u64| #[trigger] call_ensures(count, (c, n), r) && c + n
        > u64::MAX implies r == c + n - 0x1_0000_0000_0000_0000 by {
        assert(c + n > 0xffff_ffff_ffff_ffffu64 ==> (c + n) as u64 == c + n
            - 0x1_0000_0000_0000_0000) by (bit_vector);
    }
}

/// Law: progress is what is known to have been moved. Blocks are the larger of the
/// contiguous and the written ones, bytes are the payload received or else the
/// blocks at their size, and neither is more than the object. The queuing delay is
/// what the path adds to its base.
pub proof fn snapshots_tell_progress()
    ensures
        forall|s: &Stats, t: u64, r: StatsSnapshot| #[trigger]
            call_ensures(Stats::snapshot, (s, t), r) ==> {
                &&& r.elapsed_us == t
                &&& r.stats == *s
                &&& r.progress_blocks <= s.total_blocks
                &&& s.hi_contig <= s.total_blocks && s.blocks_written <= s.total_blocks ==> (
                r.progress_blocks >= s.hi_contig && r.progress_blocks >= s.blocks_written && (
                r.progress_blocks == s.hi_contig || r.progress_blocks == s.blocks_written))
                &&& s.hi_contig > s.total_blocks || s.blocks_written > s.total_blocks
                    ==> r.progress_blocks == s.total_blocks
                &&& r.progress_bytes <= s.total_bytes
                &&& 0 < s.payload_recv <= s.total_bytes ==> r.progress_bytes == s.payload_recv
                &&& s.payload_recv > s.total_bytes ==> r.progress_bytes == s.total_bytes
                &&& s.payload_recv == 0 && r.progress_blocks * s.block_size <= s.total_bytes
                    ==> r.progress_bytes == r.progress_blocks * s.block_size
                &&& s.payload_recv == 0 && r.progress_blocks * s.block_size > s.total_bytes
                    ==> r.progress_bytes == s.total_bytes
                &&& s.srtt_net_us >= s.base_rtt_us ==> r.queue_delay_us == s.srtt_net_us
                    - s.base_rtt_us
                &&& s.srtt_net_us < s.base_rtt_us ==> r.queue_delay_us == 0
            },
{
}

// --- sizes ------------------------------------------------------------------

/// Whether `unit` is the binary unit with that letter.
pub open spec fn is_unit(unit: int, letter: char) -> bool {
    ||| unit == 1024 && letter == 'K'
    ||| unit == 1024 * 1024 && letter == 'M'
    ||| unit == 1024 * 1024 * 1024 && letter == 'G'
    ||| unit == 1024 * 1024 * 1024 * 1024 && letter == 'T'
    ||| unit == 1024 * 1024 * 1024 * 1024 * 1024 && letter == 'P'
    ||| unit == 1024 * 1024 * 1024 * 1024 * 1024 * 1024 && letter == 'E'
}

/// Whether `text` gives the size `b` in hundredths `h` of the unit with `letter`,
/// as near as two decimals can.
pub open spec fn tells_size(text: Seq<char>, b: int, unit: int, letter: char, h: int) -> bool {
    &&& is_unit(unit, letter)
    &&& unit <= b < 1024 * unit
    &&& -unit <= 2 * (h * unit - 100 * b) <= unit
    &&& 2 * (h * unit - 100 * b) == unit || 2 * (h * unit - 100 * b) == -unit ==> h % 2 == 0
    &&& text == crate::text::dec((h / 100) as nat) + "."@ + seq![
        crate::text::digit(h % 100 / 10),
        crate::text::digit(h % 10),
    ] + " "@ + seq![letter] + "iB"@
}

proof fn unit_of_size(n: nat)
    requires
        1024 <= n <= u64::MAX,
    ensures
        is_unit(
            crate::stats::size_unit(n) as int,
            crate::stats::unit_letter(n),
        ),
        crate::stats::size_unit(n) <= n < 1024 * crate::stats::size_unit(n),
{
    reveal_with_fuel(crate::stats::size_unit, 8);
}

/// Law: a size below 1024 is told in bytes; a larger one in the largest binary
/// unit that it fills, to two decimals, off by no more than half of the last one, and
/// by that half only towards the even one.
/// This holds of sizes up to 2^53, beyond which a double cannot tell neighbours
/// apart.
pub proof fn sizes_are_told()
    ensures
        forall|b: u64, r: String| #[trigger]
            call_ensures(human_bytes, (b,), r) && b < 1024 ==> r@ == crate::text::dec(b as nat)
                + " B"@,
        forall|b: u64, r: String| #[trigger]
            call_ensures(human_bytes, (b,), r) && 1024 <= b < 0x20_0000_0000_0000 ==> (exists|
                unit: int,
                letter: char,
                h: int,
            | #[trigger]
                tells_size(r@, b as int, unit, letter, h)),
{
    assert forall|b: u64, r: String| #[trigger]
        call_ensures(human_bytes, (b,), r) && 1024 <= b < 0x20_0000_0000_0000 implies (exists|
        unit: int,
        letter: char,
        h: int,
    | #[trigger]
        tells_size(r@, b as int, unit, letter, h)) by {
        unit_of_size(b as nat);
        let unit = crate::stats::size_unit(b as nat) as int;
        let letter = crate::stats::unit_letter(b as nat);
        let n = 100 * (b as int);
        assert(crate::stats::double_step(b as nat) == 1);
        assert(b as int % 1 == 0 && b as int / 1 == b);
        assert(crate::stats::rounded_quotient(b as int, 1) == b);
        let step = crate::stats::double_step(b as nat);
        let near = crate::stats::rounded_quotient(b as int, step as int);
        assert(near * step == b) by (nonlinear_arith)
            requires
                step == 1,
                near == b,
        ;
        let h = crate::stats::rounded_quotient(n, unit);
        let q = n / unit;
        let rest = n % unit;
        vstd::arithmetic::div_mod::lemma_fundamental_div_mod(n, unit);
        vstd::arithmetic::div_mod::lemma_mod_bound(n, unit);
        assert(q * unit == n - rest && (q + 1) * unit == n - rest + unit) by (nonlinear_arith)
            requires
                n == unit * q + rest,
        ;
        reveal_strlit(".");
        reveal_strlit(" ");
        reveal_strlit("iB");
        assert(100 * crate::stats::nearest_double(b as nat) == n);
        assert(r@ == crate::text::dec((h / 100) as nat) + seq![
            '.',
            crate::text::digit(h % 100 / 10),
            crate::text::digit(h % 10),
            ' ',
            letter,
        ] + "iB"@);
        assert("."@ =~= seq!['.']);
        assert(" "@ =~= seq![' ']);
        assert(r@ =~= crate::text::dec((h / 100) as nat) + "."@ + seq![
            crate::text::digit(h % 100 / 10),
            crate::text::digit(h % 10),
        ] + " "@ + seq![letter] + "iB"@);
        assert(tells_size(r@, b as int, unit, letter, h));
    }
}

/// Whether `d` is the number nearest to `b` that a double can hold: a multiple of
/// the step between doubles there, the even one where two are as near.
pub open spec fn is_nearest_double(b: int, d: int, step: int) -> bool {
    &&& 0x10_0000_0000_0000 * step <= b < 0x20_0000_0000_0000 * step
    &&& -step <= 2 * (d - b) <= step
    &&& exists|k: int|
        #![trigger step * k]
        step * k == d && (2 * (d - b) == step || 2 * (d - b) == -step ==> k % 2 == 0)
}

/// Whether `text` gives the size `d` in hundredths `h` of the unit of `b`.
pub open spec fn tells_large_size(
    text: Seq<char>,
    b: int,
    d: int,
    unit: int,
    letter: char,
    h: int,
) -> bool {
    &&& is_unit(unit, letter)
    &&& unit <= b < 1024 * unit
    &&& -unit <= 2 * (h * unit - 100 * d) <= unit
    &&& 2 * (h * unit - 100 * d) == unit || 2 * (h * unit - 100 * d) == -unit ==> h % 2 == 0
    &&& text == crate::text::dec((h / 100) as nat) + "."@ + seq![
        crate::text::digit(h % 100 / 10),
        crate::text::digit(h % 10),
    ] + " "@ + seq![letter] + "iB"@
}

proof fn step_at(n: nat)
    requires
        0x10_0000_0000_0000 <= n,
    ensures
        crate::stats::double_step(n) > 0,
        0x10_0000_0000_0000 * crate::stats::double_step(n) <= n,
        n < 0x20_0000_0000_0000 * crate::stats::double_step(n),
    decreases n,
{
    if n >= 0x20_0000_0000_0000 {
        step_at(n / 2);
    }
}

proof fn rounds_to_nearest(n: int, d: int)
    requires
        d > 0,
    ensures
        ({
            let q = crate::stats::rounded_quotient(n, d);
            &&& -d <= 2 * (q * d - n) <= d
            &&& 2 * (q * d - n) == d || 2 * (q * d - n) == -d ==> q % 2 == 0
        }),
{
    let q = n / d;
    let rest = n % d;
    vstd::arithmetic::div_mod::lemma_fundamental_div_mod(n, d);
    vstd::arithmetic::div_mod::lemma_mod_bound(n, d);
    assert(q * d == n - rest && (q + 1) * d == n - rest + d) by (nonlinear_arith)
        requires
            n == d * q + rest,
    ;
}

/// Law: a size that no double need hold is told as the nearest one that a double
/// holds, to two decimals of the unit that the size itself fills.
pub proof fn large_sizes_are_told()
    ensures
        forall|b: u64, r: String| #[trigger]
            call_ensures(human_bytes, (b,), r) && b >= 0x20_0000_0000_0000 ==> (exists|
                d: int,
                step: int,
                unit: int,
                letter: char,
                h: int,
            |
                #![trigger is_nearest_double(b as int, d, step), tells_large_size(r@, b as int, d, unit, letter, h)]
                is_nearest_double(b as int, d, step) && tells_large_size(
                    r@,
                    b as int,
                    d,
                    unit,
                    letter,
                    h,
                )),
{
    assert forall|b: u64, r: String| #[trigger]
        call_ensures(human_bytes, (b,), r) && b >= 0x20_0000_0000_0000 implies (exists|
        d: int,
        step: int,
        unit: int,
        letter: char,
        h: int,
    |
        #![trigger is_nearest_double(b as int, d, step), tells_large_size(r@, b as int, d, unit, letter, h)]
        is_nearest_double(b as int, d, step) && tells_large_size(
            r@,
            b as int,
            d,
            unit,
            letter,
            h,
        )) by {
        let n = b as nat;
        unit_of_size(n);
        step_at(n);
        let unit = crate::stats::size_unit(n) as int;
        let letter = crate::stats::unit_letter(n);
        let step = crate::stats::double_step(n) as int;
        let k = crate::stats::rounded_quotient(n as int, step);
        let d = crate::stats::nearest_double(n);
        rounds_to_nearest(n as int, step);
        assert(step * k == d) by (nonlinear_arith)
            requires
                k * step == d,
        ;
        assert(is_nearest_double(b as int, d, step));
        let h = crate::stats::rounded_quotient(100 * d, unit);
        rounds_to_nearest(100 * d, unit);
        reveal_strlit(".");
        reveal_strlit(" ");
        assert("."@ =~= seq!['.']);
        assert(" "@ =~= seq![' ']);
        assert(r@ =~= crate::text::dec((h / 100) as nat) + "."@ + seq![
            crate::text::digit(h % 100 / 10),
            crate::text::digit(h % 10),
        ] + " "@ + seq![letter] + "iB"@);
        assert(tells_large_size(r@, b as int, d, unit, letter, h));
    }
}

// --- reports ----------------------------------------------------------------

/// Law: a sender's report tells what it sent and what was asked of it, a
/// receiver's what it received and asked for, each value under its own name.
pub proof fn reports_name_their_values()
    ensures
        forall|s: &Stats, role: &str, f: &Figures, r: String| #[trigger]
            call_ensures(Stats::summary, (s, role, f), r) && role@ == "send"@ ==> r@
                == "girth send complete: "@ + crate::stats::size_text(s.total_bytes as nat)
                + " in "@ + f.elapsed@ + "s (wire "@ + f.wire_mbps@ + " Mbps) | pkts="@
                + crate::text::dec(s.packets_sent as nat) + " retrans="@ + crate::text::dec(
                s.retrans_sent as nat,
            ) + " ("@ + f.wasted_percent@ + "%) nacks_in="@ + crate::text::dec(
                s.nacks_recv as nat,
            ),
        forall|s: &Stats, role: &str, f: &Figures, r: String| #[trigger]
            call_ensures(Stats::summary, (s, role, f), r) && role@ != "send"@ ==> r@
                == "girth recv complete: "@ + crate::stats::size_text(s.total_bytes as nat)
                + " in "@ + f.elapsed@ + "s (goodput "@ + f.goodput_mbps@ + " Mbps, wire "@
                + f.wire_mbps@ + " Mbps) | pkts="@ + crate::text::dec(s.packets_recv as nat)
                + " dup="@ + crate::text::dec(s.dup_recv as nat) + " ("@ + f.wasted_percent@
                + "%) corrupt="@ + crate::text::dec(s.corrupt_recv as nat) + " nacks_out="@
                + crate::text::dec(s.nacks_sent as nat),
        forall|s: &Stats, role: &str, f: &Figures, r: String| #[trigger]
            call_ensures(Stats::format_line, (s, role, f), r) && role@ == "send"@ ==> r@ == "t="@
                + f.elapsed@ + " role=send wire_mbps="@ + f.wire_mbps@ + " target_mbps="@
                + f.target_mbps@ + " pkts="@ + crate::text::dec(s.packets_sent as nat)
                + " retrans="@ + crate::text::dec(s.retrans_sent as nat) + " nacks_in="@
                + crate::text::dec(s.nacks_recv as nat) + " rexq="@ + crate::text::dec_signed(
                s.rex_queue_len as int,
            ) + (" hicontig="@ + crate::text::dec(s.hi_contig as nat) + "/"@ + crate::text::dec(
                s.total_blocks as nat,
            )),
        forall|s: &Stats, role: &str, f: &Figures, r: String| #[trigger]
            call_ensures(Stats::format_line, (s, role, f), r) && role@ != "send"@ ==> r@ == "t="@
                + f.elapsed@ + " role=recv wire_mbps="@ + f.wire_mbps@ + " goodput_mbps="@
                + f.goodput_mbps@ + " pkts="@ + crate::text::dec(s.packets_recv as nat) + " dup="@
                + crate::text::dec(s.dup_recv as nat) + "("@ + f.wasted_percent@ + "%) corrupt="@
                + crate::text::dec(s.corrupt_recv as nat) + " nacks_out="@ + crate::text::dec(
                s.nacks_sent as nat,
            ) + " losstab="@ + crate::text::dec_signed(s.rex_queue_len as int)
                + " srtt_path_ms="@ + f.srtt_path_ms@ + " srtt_net_ms="@ + f.srtt_net_ms@
                + " base_ms="@ + f.base_ms@ + " rto_ms="@ + f.rto_ms@ + " qdelay_ms="@
                + f.qdelay_ms@ + " target_mbps="@ + f.target_mbps@ + (" hicontig="@
                + crate::text::dec(s.hi_contig as nat) + "/"@ + crate::text::dec(
                s.total_blocks as nat,
            )),
        forall|s: &Stats, role: &str, r: (u64, u64)| #[trigger]
            call_ensures(Stats::wasted, (s, role), r) ==> {
                &&& role@ == "send"@ ==> r == (s.retrans_sent, s.packets_sent)
                &&& role@ != "send"@ ==> r == (s.dup_recv, s.packets_recv)
            },
{
}

/// Law: a reporter reports once its interval has passed, not before, and ends as
/// soon as it is told to; it looks at least every fifty milliseconds.
pub proof fn reports_keep_their_interval()
    ensures
        forall|stopped: bool, elapsed: u128, interval: u128, r: ReportNext| #[trigger]
            call_ensures(report_next, (stopped, elapsed, interval), r) ==> {
                &&& r == ReportNext::End <==> stopped
                &&& r == ReportNext::Report <==> !stopped && elapsed >= interval
                &&& r == ReportNext::Wait <==> !stopped && elapsed < interval
            },
        forall|interval: u128, r: u128| #[trigger]
            call_ensures(report_slice, (interval,), r) ==> {
                &&& r <= interval && r <= 50_000_000
                &&& r == interval || r == 50_000_000
            },
{
}

} // verus!
