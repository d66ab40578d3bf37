//! The handshake between client and server: what each side sends, checks and
//! refuses, and what a transfer is judged by when it ends.

use crate::auth;
use crate::control::{
    host_basename, slice_or_empty, Ack, Hello, TransferParams, MODE_RECV, MODE_SEND,
};
use crate::crypto::{
    ciphers_if, client_crypto, gen_keypair, negotiate_crypto_server, AeadBox, SecretKey,
};
use crate::error::{GirthError, IoError, IoKind};
use crate::protocol::{num_blocks, PROTOCOL_VERSION};
use crate::rate::RateWarmStart;
use crate::receiver::RecvConfig;
use crate::sender::SendConfig;
use crate::stats::Stats;
use crate::text::{
    chars_of, contains_char, decimal, decimal_signed, hex8, joined, position_after_last, quoted,
    same, string_between, string_of, trim,
};
use std::sync::Arc;
use vstd::prelude::*;
use vstd::string::StringExecFns;

verus! {

// --- names and addresses ----------------------------------------------------

/// Whether a name can be joined to the served directory without leaving it: it
/// is not empty, not a relative step, and holds no separator. Where `\` separates
/// it does not begin with a drive either, which would take the directory's place.
pub open spec fn is_plain_name(b: Seq<char>, backslash: bool) -> bool {
    &&& crate::control::is_name(b)
    &&& !b.contains('/')
    &&& !b.contains('\\')
    &&& backslash ==> !begins_with_drive(b)
}

/// Whether a name begins with a drive.
pub open spec fn begins_with_drive(b: Seq<char>) -> bool {
    b.len() >= 2 && crate::control::is_drive_letter(b[0]) && b[1] == ':'
}

fn is_letter(c: char) -> (r: bool)
    ensures
        r == crate::control::is_drive_letter(c),
{
    ('a' <= c && c <= 'z') || ('A' <= c && c <= 'Z')
}

/// The name of the object that a request is for, under which it is stored in or
/// read from the served directory. `backslash` says whether `\` separates the
/// parts of a path on this host.
pub fn served_object_name(name: &str, backslash: bool) -> (r: Result<String, IoError>)
    ensures
        ({
            let b = crate::control::host_name_of_path(name@, backslash);
            match r {
                Ok(s) => s@ == b && is_plain_name(b, backslash),
                Err(e) => !is_plain_name(b, backslash) && e.kind == IoKind::InvalidInput
                    && e.message@ == "invalid object name"@,
            }
        }),
{
    let b = host_basename(name, backslash);
    let chars = chars_of(b.as_str());
    let n: usize = chars.len();
    let step: bool = (n == 1 && chars[0] == '.') || (n == 2 && chars[0] == '.' && chars[1] == '.');
    proof {
        if n == 1 && chars@[0] == '.' {
            assert(chars@ =~= seq!['.']);
        }
        if n == 2 && chars@[0] == '.' && chars@[1] == '.' {
            assert(chars@ =~= seq!['.', '.']);
        }
        if chars@ == seq!['.'] {
            assert(chars@[0] == '.');
        }
        if chars@ == seq!['.', '.'] {
            assert(chars@[0] == '.' && chars@[1] == '.');
        }
    }
    if n == 0 || step || contains_char(chars.as_slice(), '/') || contains_char(
        chars.as_slice(),
        '\\',
    ) || (backslash && n >= 2 && is_letter(chars[0]) && chars[1] == ':') {
        return Err(IoError::new(IoKind::InvalidInput, "invalid object name"));
    }
    Ok(b)
}

/// A host without the brackets around an IPv6 address.
pub open spec fn without_open(s: Seq<char>) -> Seq<char>
    decreases s.len(),
{
    if s.len() > 0 && s[0] == '[' {
        without_open(s.drop_first())
    } else {
        s
    }
}

/// A host without the brackets around an IPv6 address.
pub open spec fn without_close(s: Seq<char>) -> Seq<char>
    decreases s.len(),
{
    if s.len() > 0 && s.last() == ']' {
        without_close(s.drop_last())
    } else {
        s
    }
}

/// The host part of a `host:port` address, without brackets.
pub open spec fn host_of(addr: Seq<char>) -> Seq<char> {
    let colon = crate::text::after_last(addr, ':');
    without_close(
        without_open(
            if colon > 0 {
                addr.take(colon - 1)
            } else {
                addr
            },
        ),
    )
}

/// The data-plane address to resolve: the host of the control address with the
/// negotiated UDP port.
pub fn peer_target(server_addr: &str, udp_port: i64) -> (r: String)
    ensures
        r@ == host_of(server_addr@) + ":"@ + crate::text::dec_signed(udp_port as int),
{
    let chars = chars_of(server_addr);
    let colon: usize = position_after_last(chars.as_slice(), ':');
    let mut end: usize = if colon > 0 {
        colon - 1
    } else {
        chars.len()
    };
    let ghost host = chars@.take(end as int);
    assert(colon == 0 ==> host =~= chars@);
    let mut start: usize = 0;
    assert(chars@.subrange(0, end as int) =~= host);
    while start < end && chars[start] == '['
        invariant
            start <= end <= chars@.len(),
            without_open(chars@.subrange(start as int, end as int)) == without_open(host),
        decreases end - start,
    {
        assert(chars@.subrange(start as int, end as int).drop_first() =~= chars@.subrange(
            start + 1,
            end as int,
        ));
        start = start + 1;
    }
    let ghost opened = without_open(host);
    assert(chars@.subrange(start as int, end as int) == opened);
    while start < end && chars[end - 1] == ']'
        invariant
            start <= end <= chars@.len(),
            without_close(chars@.subrange(start as int, end as int)) == without_close(opened),
        decreases end - start,
    {
        assert(chars@.subrange(start as int, end as int).drop_last() =~= chars@.subrange(
            start as int,
            end - 1,
        ));
        end = end - 1;
    }
    let mut s = string_between(chars.as_slice(), start, end);
    s.append(":");
    s.append(decimal_signed(udp_port).as_str());
    s
}

/// Whether every character is an ASCII digit.
pub open spec fn all_digits(s: Seq<char>) -> bool {
    forall|i: int| 0 <= i < s.len() ==> '0' <= #[trigger] s[i] && s[i] <= '9'
}

/// A listen address with the wildcard host filled in where there is none:
/// `:port` and a bare port listen on all IPv4 addresses.
pub open spec fn listen_addr(addr: Seq<char>) -> Seq<char> {
    let a = crate::text::trimmed(addr);
    let colon = crate::text::after_last(a, ':');
    if colon == 1 {
        "0.0.0.0"@ + a
    } else if colon == 0 && a.len() > 0 && all_digits(a) {
        "0.0.0.0:"@ + a
    } else {
        a
    }
}

/// Normalizes a server listen address, accepting the `:port` shorthand (and a
/// bare port) by binding the IPv4 wildcard `0.0.0.0`.
pub fn normalize_listen_addr(addr: &str) -> (r: String)
    ensures
        r@ == listen_addr(addr@),
{
    let a = trim(addr);
    let text = string_of(a.as_slice());
    let colon: usize = position_after_last(a.as_slice(), ':');
    if colon == 1 {
        return joined("0.0.0.0", text.as_str());
    }
    if colon == 0 && a.len() > 0 {
        let mut i: usize = 0;
        while i < a.len() && '0' <= a[i] && a[i] <= '9'
            invariant
                i <= a@.len(),
                forall|k: int| 0 <= k < i ==> '0' <= #[trigger] a@[k] && a@[k] <= '9',
            decreases a@.len() - i,
        {
            i = i + 1;
        }
        if i == a.len() {
            return joined("0.0.0.0:", text.as_str());
        }
    }
    text
}

/// Law: a bare port and the `:port` shorthand both listen on all IPv4 addresses at
/// that port.
pub proof fn bare_ports_bind_everywhere(port: Seq<char>)
    requires
        port.len() > 0,
        all_digits(port),
    ensures
        listen_addr(port) == "0.0.0.0:"@ + port,
        listen_addr(":"@ + port) == "0.0.0.0:"@ + port,
{
    reveal_strlit(":");
    reveal_strlit("0.0.0.0");
    reveal_strlit("0.0.0.0:");
    digits_have_no_colon(port);
    assert(crate::text::trimmed_start(port) == port);
    assert(crate::text::trimmed_end(port) == port) by {
        assert('0' <= port[port.len() - 1] && port[port.len() - 1] <= '9');
    }
    let short = ":"@ + port;
    assert(short[0] == ':');
    assert(crate::text::trimmed_start(short) == short);
    assert(short.last() == port.last());
    assert(crate::text::trimmed_end(short) == short);
    colon_before_digits(port);
    assert("0.0.0.0"@ + short =~= "0.0.0.0:"@ + port);
}

/// A colon does not occur among digits.
proof fn digits_have_no_colon(port: Seq<char>)
    requires
        all_digits(port),
    ensures
        crate::text::after_last(port, ':') == 0,
    decreases port.len(),
{
    if port.len() > 0 {
        assert('0' <= port[port.len() - 1] && port[port.len() - 1] <= '9');
        assert(all_digits(port.drop_last()));
        digits_have_no_colon(port.drop_last());
    }
}

/// The colon before a port is the last one.
proof fn colon_before_digits(port: Seq<char>)
    requires
        all_digits(port),
    ensures
        crate::text::after_last(":"@ + port, ':') == 1,
    decreases port.len(),
{
    reveal_strlit(":");
    let s = ":"@ + port;
    if port.len() == 0 {
        assert(s =~= seq![':']);
        assert(s.last() == ':');
    } else {
        assert('0' <= port[port.len() - 1] && port[port.len() - 1] <= '9');
        assert(s.last() == port.last());
        assert(s.drop_last() =~= ":"@ + port.drop_last());
        assert(all_digits(port.drop_last()));
        colon_before_digits(port.drop_last());
    }
}

// --- warm starts ------------------------------------------------------------

/// What a client's hello says an earlier transfer learned of the path. Only an
/// adaptive transfer has a use for it.
pub fn warm_from_hello(h: &Hello) -> (r: Option<RateWarmStart>)
    ensures
        ({
            let warm = RateWarmStart {
                rate_bps: h.warm_rate_bps,
                srtt_net_us: h.warm_srtt_net_us,
                base_rtt_us: h.warm_base_rtt_us,
            };
            r == (if h.adaptive && !warm.empty() {
                Some(warm)
            } else {
                None
            })
        }),
{
    if !h.adaptive {
        return None;
    }
    let warm = RateWarmStart {
        rate_bps: h.warm_rate_bps,
        srtt_net_us: h.warm_srtt_net_us,
        base_rtt_us: h.warm_base_rtt_us,
    };
    if warm.is_empty() {
        None
    } else {
        Some(warm)
    }
}

/// The part of what was learned that a transfer with the given parameters uses.
pub open spec fn usable_warm(
    p: TransferParams,
    warm: Option<RateWarmStart>,
) -> Option<RateWarmStart> {
    match warm {
        Some(w) => if p.adaptive && !w.empty() {
            warm
        } else {
            None
        },
        None => None,
    }
}

/// The part of what was learned that a transfer with the given parameters uses.
pub fn warm_for_params(p: &TransferParams, warm: Option<RateWarmStart>) -> (r: Option<
    RateWarmStart,
>)
    ensures
        r == usable_warm(*p, warm),
{
    if !p.adaptive {
        return None;
    }
    match warm {
        Some(w) => if w.is_empty() {
            None
        } else {
            Some(w)
        },
        None => None,
    }
}

/// What is known of the path after a transfer with the given statistics: in
/// adaptive mode every value that was measured replaces the one before.
pub open spec fn learned(p: TransferParams, warm: RateWarmStart, s: Stats) -> RateWarmStart {
    if p.adaptive {
        RateWarmStart {
            rate_bps: if s.target_rate_bps > 0 {
                s.target_rate_bps
            } else {
                warm.rate_bps
            },
            srtt_net_us: if s.srtt_net_us > 0 {
                s.srtt_net_us
            } else {
                warm.srtt_net_us
            },
            base_rtt_us: if s.base_rtt_us > 0 {
                s.base_rtt_us
            } else {
                warm.base_rtt_us
            },
        }
    } else {
        warm
    }
}

/// Records what a transfer learned of the path.
pub fn record_warm_start(warm: &mut RateWarmStart, p: &TransferParams, stats: &Stats)
    ensures
        *final(warm) == learned(*p, *old(warm), *stats),
{
    if !p.adaptive {
        return;
    }
    if stats.target_rate_bps > 0 {
        warm.rate_bps = stats.target_rate_bps;
    }
    if stats.srtt_net_us > 0 {
        warm.srtt_net_us = stats.srtt_net_us;
    }
    if stats.base_rtt_us > 0 {
        warm.base_rtt_us = stats.base_rtt_us;
    }
}

// --- limits -----------------------------------------------------------------

/// Server-side caps applied to peer-controlled handshake values before any
/// allocation or data-plane setup.
#[derive(Debug, Clone, Copy, PartialEq, Eq, Structural)]
pub struct ServerLimits {
    pub max_object_size: u64,
    pub min_block_size: usize,
    pub max_block_size: usize,
    pub max_rate_bps: u64,
    pub max_alpha_bps: u64,
    pub max_concurrent_connections: usize,
}

impl Default for ServerLimits {
    fn default() -> (r: Self)
        ensures
            r == (ServerLimits {
                max_object_size: 0x100_0000_0000,
                min_block_size: 256,
                max_block_size: 65_455,
                max_rate_bps: 100_000_000_000,
                max_alpha_bps: 100_000_000_000,
                max_concurrent_connections: 256,
            }),
    {
        ServerLimits {
            max_object_size: 0x100_0000_0000,
            min_block_size: 256,
            max_block_size: 65_455,
            max_rate_bps: 100_000_000_000,
            max_alpha_bps: 100_000_000_000,
            max_concurrent_connections: 256,
        }
    }
}

/// Longest round trip that a client may claim to have learned: a minute.
pub const MAX_WARM_RTT_US: u64 = 60_000_000;

/// A message that says that one number is above another.
pub open spec fn above(what: Seq<char>, n: int, limit: int) -> Seq<char> {
    what + crate::text::dec_signed(n) + " > "@ + crate::text::dec_signed(limit)
}

/// The first thing that is wrong with a client's request, if anything is.
pub open spec fn limit_violation(h: crate::control::HelloView, l: ServerLimits) -> Option<
    Seq<char>,
> {
    if h.mode != MODE_SEND@ && h.mode != MODE_RECV@ {
        Some("unknown mode"@)
    } else if h.size < 0 {
        Some("negative size"@)
    } else if h.mode == MODE_SEND@ && h.size > l.max_object_size {
        Some(above("object too large: "@, h.size as int, l.max_object_size as int))
    } else if h.block_size <= 0 {
        Some("invalid block size"@)
    } else if h.block_size < l.min_block_size || h.block_size > l.max_block_size {
        Some(
            "block size out of range: "@ + crate::text::dec_signed(h.block_size as int)
                + " (allowed "@ + crate::text::dec(l.min_block_size as nat) + "..="@
                + crate::text::dec(l.max_block_size as nat) + ")"@,
        )
    } else if h.rate_bps > l.max_rate_bps {
        Some(above("rate too high: "@, h.rate_bps as int, l.max_rate_bps as int))
    } else if h.max_bps > l.max_rate_bps {
        Some(above("max rate too high: "@, h.max_bps as int, l.max_rate_bps as int))
    } else if h.warm_rate_bps > l.max_rate_bps {
        Some(above("warm rate too high: "@, h.warm_rate_bps as int, l.max_rate_bps as int))
    } else if h.warm_srtt_net_us > MAX_WARM_RTT_US || h.warm_base_rtt_us > MAX_WARM_RTT_US {
        Some(
            "warm RTT too high: srtt="@ + crate::text::dec(h.warm_srtt_net_us as nat) + " base="@
                + crate::text::dec(h.warm_base_rtt_us as nat) + " max="@ + crate::text::dec(
                MAX_WARM_RTT_US as nat,
            ),
        )
    } else if h.warm_srtt_net_us > 0 && h.warm_base_rtt_us > 0 && h.warm_base_rtt_us
        > h.warm_srtt_net_us {
        Some("warm base RTT exceeds warm SRTT"@)
    } else if h.alpha_bps > l.max_alpha_bps {
        Some(above("alpha too high: "@, h.alpha_bps as int, l.max_alpha_bps as int))
    } else if h.max_bps > 0 && h.rate_bps > h.max_bps {
        Some("rate exceeds max rate"@)
    } else {
        None
    }
}

/// A message that says that one number is above another.
fn above_text(what: &str, n: u64, limit: u64) -> (r: String)
    ensures
        r@ == above(what@, n as int, limit as int),
{
    let mut s = what.to_owned();
    s.append(decimal(n).as_str());
    s.append(" > ");
    s.append(decimal(limit).as_str());
    s
}

/// Checks a client's request against the server's limits.
pub fn validate_hello_limits(h: &Hello, limits: &ServerLimits) -> (r: Result<(), String>)
    ensures
        match r {
            Ok(_) => limit_violation(h@, *limits) is None,
            Err(e) => limit_violation(h@, *limits) == Some(e@),
        },
{
    let send: bool = same(h.mode.as_str(), MODE_SEND);
    if !send && !same(h.mode.as_str(), MODE_RECV) {
        return Err("unknown mode".to_owned());
    }
    if h.size < 0 {
        return Err("negative size".to_owned());
    }
    if send && h.size as u64 > limits.max_object_size {
        return Err(above_text("object too large: ", h.size as u64, limits.max_object_size));
    }
    if h.block_size <= 0 {
        return Err("invalid block size".to_owned());
    }
    let block_size: u64 = h.block_size as u64;
    if block_size < limits.min_block_size as u64 || block_size > limits.max_block_size as u64 {
        let mut s = "block size out of range: ".to_owned();
        s.append(decimal(block_size).as_str());
        s.append(" (allowed ");
        s.append(decimal(limits.min_block_size as u64).as_str());
        s.append("..=");
        s.append(decimal(limits.max_block_size as u64).as_str());
        s.append(")");
        return Err(s);
    }
    if h.rate_bps > limits.max_rate_bps {
        return Err(above_text("rate too high: ", h.rate_bps, limits.max_rate_bps));
    }
    if h.max_bps > limits.max_rate_bps {
        return Err(above_text("max rate too high: ", h.max_bps, limits.max_rate_bps));
    }
    if h.warm_rate_bps > limits.max_rate_bps {
        return Err(above_text("warm rate too high: ", h.warm_rate_bps, limits.max_rate_bps));
    }
    if h.warm_srtt_net_us > MAX_WARM_RTT_US || h.warm_base_rtt_us > MAX_WARM_RTT_US {
        let mut s = "warm RTT too high: srtt=".to_owned();
        s.append(decimal(h.warm_srtt_net_us).as_str());
        s.append(" base=");
        s.append(decimal(h.warm_base_rtt_us).as_str());
        s.append(" max=");
        s.append(decimal(MAX_WARM_RTT_US).as_str());
        return Err(s);
    }
    if h.warm_srtt_net_us > 0 && h.warm_base_rtt_us > 0 && h.warm_base_rtt_us
        > h.warm_srtt_net_us {
        return Err("warm base RTT exceeds warm SRTT".to_owned());
    }
    if h.alpha_bps > limits.max_alpha_bps {
        return Err(above_text("alpha too high: ", h.alpha_bps, limits.max_alpha_bps));
    }
    if h.max_bps > 0 && h.rate_bps > h.max_bps {
        return Err("rate exceeds max rate".to_owned());
    }
    Ok(())
}

/// Whether a server with `active` transfers takes on another one.
pub fn admits(limits: &ServerLimits, active: usize) -> (r: bool)
    ensures
        r == (active < limits.max_concurrent_connections),
{
    active < limits.max_concurrent_connections
}

/// Why an object of `len` bytes cannot be served, if it cannot.
pub open spec fn unservable(len: u64, limits: ServerLimits) -> Option<Seq<char>> {
    if len > limits.max_object_size {
        Some(above("object too large: "@, len as int, limits.max_object_size as int))
    } else if len > i64::MAX {
        Some("object too large for protocol size field"@)
    } else {
        None
    }
}

/// The size of a served object for the handshake, or why it cannot be served.
pub fn check_source_len(len: u64, limits: &ServerLimits) -> (r: Result<i64, String>)
    ensures
        match r {
            Ok(size) => size == len && unservable(len, *limits) is None,
            Err(e) => unservable(len, *limits) == Some(e@),
        },
{
    if len > limits.max_object_size {
        return Err(above_text("object too large: ", len, limits.max_object_size));
    }
    if len > i64::MAX as u64 {
        return Err("object too large for protocol size field".to_owned());
    }
    Ok(len as i64)
}

// --- server -----------------------------------------------------------------

/// A verified client identity, kept so that the server's reply MAC can bind the
/// session id and its ephemeral key.
pub struct AuthState {
    pub token: Vec<u8>,
    pub client_mac: Vec<u8>,
}

/// A refusal.
pub open spec fn refusal(err: Seq<char>, auth_required: bool) -> crate::control::AckView {
    crate::control::AckView { err, auth_required, ..crate::control::blank_ack() }
}

/// Whether a failed read of a request only means that the client has gone.
pub fn connection_ended(e: &IoError) -> (r: bool)
    ensures
        r == (e.kind == IoKind::UnexpectedEof || e.kind == IoKind::ConnectionReset),
{
    match e.kind {
        IoKind::UnexpectedEof => true,
        IoKind::ConnectionReset => true,
        _ => false,
    }
}

/// A refusal.
pub fn ack_err(err: &str, auth_required: bool) -> (r: Ack)
    ensures
        r@ == refusal(err@, auth_required),
{
    let mut a = Ack::default();
    a.err = err.to_owned();
    a.auth_required = auth_required;
    a
}

/// Draws a session id with `rand_core::OsRng.next_u32` from the operating
/// system's generator. Nothing is claimed of it. It panics where the operating
/// system has no randomness to give.
#[verifier::external_body]
fn rand_u32() -> (r: u32) {
    rand_core::RngCore::next_u32(&mut rand_core::OsRng)
}

/// The parameters of a session: the server's, with what the client asks for in
/// their place.
pub open spec fn params_for(
    params: TransferParams,
    h: crate::control::HelloView,
) -> TransferParams {
    TransferParams {
        block_size: h.block_size as usize,
        adaptive: h.adaptive,
        alpha_bps: if h.alpha_bps > 0 {
            h.alpha_bps
        } else {
            params.alpha_bps
        },
        rate_bps: if h.rate_bps > 0 {
            h.rate_bps
        } else {
            params.rate_bps
        },
        max_bps: if h.max_bps > 0 {
            h.max_bps
        } else {
            params.max_bps
        },
        ..params
    }
}

/// Which way an object goes.
#[derive(Debug, Clone, Copy, PartialEq, Eq, Structural)]
pub enum Direction {
    /// The client pushes; the server receives.
    Push,
    /// The client pulls; the server sends.
    Pull,
}

/// A session that the server is ready to set up.
pub struct Session {
    pub id: u32,
    pub direction: Direction,
    pub params: TransferParams,
}

/// How a server refuses a request before it looks at anything else: because the
/// version differs, or because a limit is not kept.
pub open spec fn request_refusal(h: crate::control::HelloView, limits: ServerLimits) -> Option<
    crate::control::AckView,
> {
    if h.version != PROTOCOL_VERSION {
        Some(refusal("protocol version mismatch"@, false))
    } else {
        match limit_violation(h, limits) {
            Some(e) => Some(refusal(e, false)),
            None => None,
        }
    }
}

/// Whether `s` is a session for a request: its parameters are the server's with
/// what the client asks for in their place.
pub open spec fn is_session_for(
    s: Session,
    h: crate::control::HelloView,
    params: TransferParams,
) -> bool {
    &&& s.params == params_for(params, h)
    &&& s.params.block_size == h.block_size
    &&& s.direction == (if h.mode == MODE_SEND@ {
        Direction::Push
    } else {
        Direction::Pull
    })
}

/// Opens a session for a client's request: the version must match and the
/// request must keep the server's limits. The session id is drawn at random.
pub fn open_session(h: &Hello, params: &TransferParams, limits: &ServerLimits) -> (r: Result<
    Session,
    Ack,
>)
    ensures
        match r {
            Ok(s) => request_refusal(h@, *limits) is None && is_session_for(s, h@, *params),
            Err(a) => request_refusal(h@, *limits) == Some(a@),
        },
{
    if h.version != PROTOCOL_VERSION {
        return Err(ack_err("protocol version mismatch", false));
    }
    match validate_hello_limits(h, limits) {
        Ok(()) => {},
        Err(e) => {
            return Err(ack_err(e.as_str(), false));
        },
    }
    let id: u32 = rand_u32();
    let mut p = *params;
    p.block_size = h.block_size as usize;
    p.adaptive = h.adaptive;
    if h.alpha_bps > 0 {
        p.alpha_bps = h.alpha_bps;
    }
    if h.rate_bps > 0 {
        p.rate_bps = h.rate_bps;
    }
    if h.max_bps > 0 {
        p.max_bps = h.max_bps;
    }
    let direction = if same(h.mode.as_str(), MODE_SEND) {
        Direction::Push
    } else {
        Direction::Pull
    };
    Ok(Session { id, direction, params: p })
}

/// The proof that a client with the token sends with a request.
pub open spec fn proof_for(token: Seq<u8>, h: crate::control::HelloView) -> Seq<u8> {
    auth::client_mac_of(
        token,
        h.version,
        h.mode,
        h.name,
        h.size,
        match h.pub_key {
            Some(k) => k,
            None => Seq::empty(),
        },
    )
}

/// What a server makes of a client's proof: the token and the proof of a verified
/// identity, nothing on an open server, or a refusal. `lookup` is the
/// authorizer's word.
pub open spec fn auth_verdict(
    h: crate::control::HelloView,
    lookup: Option<Result<Vec<u8>, String>>,
) -> Result<Option<(Seq<u8>, Seq<u8>)>, crate::control::AckView> {
    match lookup {
        None => Ok(None),
        Some(Err(reason)) => Err(refusal("auth denied: "@ + reason@, true)),
        Some(Ok(token)) => match h.auth_mac {
            None => Err(refusal("auth required"@, true)),
            Some(presented) => if presented == proof_for(token@, h) {
                Ok(Some((token@, presented)))
            } else {
                Err(refusal("auth denied"@, true))
            },
        },
    }
}

/// Checks a client's proof of possession. `lookup` is the authorizer's word:
/// absent for an open server, else the token to expect or the reason to refuse.
pub fn authenticate(h: &Hello, lookup: Option<Result<Vec<u8>, String>>) -> (r: Result<
    Option<AuthState>,
    Ack,
>)
    ensures
        match r {
            Ok(state) => auth_verdict(h@, lookup) == Ok::<
                Option<(Seq<u8>, Seq<u8>)>,
                crate::control::AckView,
            >(auth_of(state)),
            Err(a) => auth_verdict(h@, lookup) == Err::<
                Option<(Seq<u8>, Seq<u8>)>,
                crate::control::AckView,
            >(a@),
        },
{
    let token = match lookup {
        None => return Ok(None),
        Some(Err(reason)) => {
            return Err(ack_err(joined("auth denied: ", reason.as_str()).as_str(), true));
        },
        Some(Ok(token)) => token,
    };
    match &h.auth_mac {
        None => Err(ack_err("auth required", true)),
        Some(presented) => {
            let ok: bool = auth::verify_client_mac(
                token.as_slice(),
                h.version,
                h.mode.as_str(),
                h.name.as_str(),
                h.size,
                slice_or_empty(&h.pub_key),
                presented.as_slice(),
            );
            if !ok {
                return Err(ack_err("auth denied", true));
            }
            let client_mac = vstd::slice::slice_to_vec(presented.as_slice());
            Ok(Some(AuthState { token, client_mac }))
        },
    }
}

/// The suites that a hello lists.
pub open spec fn listed_ciphers(h: crate::control::HelloView) -> Seq<String> {
    match h.ciphers {
        Some(c) => c,
        None => Seq::empty(),
    }
}

/// The public key that a hello carries; empty where it has none.
pub open spec fn key_of(h: crate::control::HelloView) -> Seq<u8> {
    match h.pub_key {
        Some(k) => k,
        None => Seq::empty(),
    }
}

/// The ack that grants a request.
pub open spec fn grant(
    h: crate::control::HelloView,
    session: u32,
    udp_port: i64,
    size: i64,
    crc: u32,
    encrypt: bool,
    cipher: Seq<char>,
    public: Seq<u8>,
    auth: Option<(Seq<u8>, Seq<u8>)>,
) -> crate::control::AckView {
    crate::control::AckView {
        ok: true,
        err: Seq::empty(),
        udp_port,
        session,
        size,
        crc32c: crc,
        name: h.name,
        encrypt,
        cipher,
        pub_key: if public.len() > 0 {
            Some(public)
        } else {
            None
        },
        auth_required: false,
        auth_mac: match auth {
            Some((token, client_mac)) => Some(
                auth::server_mac_of(token, session, public, client_mac),
            ),
            None => None,
        },
    }
}

/// The token and the client's proof of a verified identity.
pub open spec fn auth_of(auth: Option<AuthState>) -> Option<(Seq<u8>, Seq<u8>)> {
    match auth {
        Some(a) => Some((a.token@, a.client_mac@)),
        None => None,
    }
}

/// Whether `r` is how a server with the suites `prefer` answers a request that
/// it is ready to serve: it grants it, with a key agreed on where the client asks
/// for encryption, or refuses it where no key can be agreed on.
pub open spec fn answered(
    h: crate::control::HelloView,
    prefer: Seq<String>,
    session: u32,
    udp_port: i64,
    size: i64,
    crc: u32,
    auth: Option<(Seq<u8>, Seq<u8>)>,
    r: Result<(Ack, Option<Arc<AeadBox>>), Ack>,
) -> bool {
    if !h.encrypt {
        match r {
            Ok((a, b)) => b is None && a@ == grant(
                h,
                session,
                udp_port,
                size,
                crc,
                false,
                Seq::empty(),
                Seq::empty(),
                auth,
            ),
            Err(_) => false,
        }
    } else if crate::crypto::chosen_cipher(prefer, listed_ciphers(h)).len() == 0 {
        r is Err && r->Err_0@ == refusal("no common cipher suite"@, false)
    } else if key_of(h).len() != 32 {
        r is Err && r->Err_0@ == refusal("girth: bad peer public key"@, false)
    } else {
        match r {
            Ok((a, Some(b))) => a.pub_key is Some && a@ == grant(
                h,
                session,
                udp_port,
                size,
                crc,
                true,
                a.cipher@,
                a.pub_key->Some_0@,
                auth,
            ) && a.pub_key->Some_0@.len() == 32 && crate::crypto::server_agreed(
                prefer,
                listed_ciphers(h),
                key_of(h),
                session,
                a.cipher@,
                a.pub_key->Some_0@,
                *b,
            ),
            _ => false,
        }
    }
}

/// Answers a request that the server is ready to serve: agrees on a key where
/// the client asks for encryption, proves possession of the token where the
/// client did, and grants the request. For a push `size` and `crc` are zero; for
/// a pull they are those of the object.
pub fn answer(
    h: &Hello,
    session: u32,
    udp_port: i64,
    size: i64,
    crc: u32,
    auth_state: &Option<AuthState>,
    aes_hardware: bool,
) -> (r: Result<(Ack, Option<Arc<AeadBox>>), Ack>)
    ensures
        exists|prefer: Seq<String>| #[trigger]
            crate::crypto::is_local_ciphers(prefer, aes_hardware) && answered(
                h@,
                prefer,
                session,
                udp_port,
                size,
                crc,
                auth_of(*auth_state),
                r,
            ),
{
    let none: Vec<String> = Vec::new();
    let listed: &[String] = match &h.ciphers {
        Some(c) => c.as_slice(),
        None => none.as_slice(),
    };
    assert(listed@ =~= listed_ciphers(h@));
    let negotiated = negotiate_crypto_server(
        h.encrypt,
        listed,
        slice_or_empty(&h.pub_key),
        session,
        aes_hardware,
    );
    let ghost prefer = choose|prefer: Seq<String>| #[trigger]
        crate::crypto::is_local_ciphers(prefer, aes_hardware) && crate::crypto::negotiated(
            h.encrypt,
            prefer,
            listed@,
            key_of(h@),
            session,
            negotiated,
        );
    let r = match negotiated {
        Err(e) => Err(ack_err(e.as_str(), false)),
        Ok((encrypt, cipher, public, crypto)) => {
            let auth_mac: Option<Vec<u8>> = match auth_state {
                Some(a) => Some(
                    auth::server_mac(
                        a.token.as_slice(),
                        session,
                        public.as_slice(),
                        a.client_mac.as_slice(),
                    ),
                ),
                None => None,
            };
            assert(public@.len() == 0 ==> public@ =~= Seq::<u8>::empty());
            assert(cipher@.len() == 0 ==> cipher@ =~= Seq::<char>::empty());
            let pub_key: Option<Vec<u8>> = if public.len() > 0 {
                Some(public)
            } else {
                None
            };
            let a = Ack {
                ok: true,
                err: String::new(),
                udp_port,
                session,
                size,
                crc32c: crc,
                name: h.name.clone(),
                encrypt,
                cipher,
                pub_key,
                auth_required: false,
                auth_mac,
            };
            Ok((a, crypto))
        },
    };
    assert(answered(h@, prefer, session, udp_port, size, crc, auth_of(*auth_state), r));
    r
}

/// Whether an error tells that an object arrived with the checksum `got` in place
/// of `want`.
pub open spec fn tells_corruption(e: IoError, name: Seq<char>, got: u32, want: u32) -> bool {
    e.kind == IoKind::Other && e.message@ == "integrity failure "@ + crate::text::debug_quoted(name)
        + ": crc got="@ + crate::text::hex(got as nat, 8) + " want="@ + crate::text::hex(
        want as nat,
        8,
    )
}

/// Judges an object that a server has received: a checksum that was read back
/// must be the one that the client announced.
pub fn check_received(name: &str, got: Option<u32>, want: u32) -> (r: Result<(), IoError>)
    ensures
        match r {
            Ok(_) => got is None || got == Some(want),
            Err(e) => got is Some && got != Some(want) && tells_corruption(
                e,
                name@,
                got->Some_0,
                want,
            ),
        },
{
    match got {
        None => Ok(()),
        Some(g) => {
            if g == want {
                return Ok(());
            }
            let mut s = "integrity failure ".to_owned();
            s.append(quoted(name).as_str());
            s.append(": crc got=");
            s.append(hex8(g).as_str());
            s.append(" want=");
            s.append(hex8(want).as_str());
            Err(IoError::other(s.as_str()))
        },
    }
}

// --- client -----------------------------------------------------------------

/// What a client puts into its hello.
pub open spec fn hello_for(
    mode: Seq<char>,
    name: Seq<char>,
    size: i64,
    crc: u32,
    p: TransferParams,
    warm: Option<RateWarmStart>,
    ciphers: Option<Seq<String>>,
    pub_key: Option<Seq<u8>>,
    token: Option<Seq<u8>>,
) -> crate::control::HelloView {
    let learned = usable_warm(p, warm);
    crate::control::HelloView {
        version: PROTOCOL_VERSION,
        mode,
        name,
        size,
        block_size: p.block_size as i64,
        rate_bps: p.rate_bps,
        max_bps: p.max_bps,
        adaptive: p.adaptive,
        alpha_bps: p.alpha_bps,
        crc32c: crc,
        warm_rate_bps: match learned {
            Some(w) => w.rate_bps,
            None => 0,
        },
        warm_srtt_net_us: match learned {
            Some(w) => w.srtt_net_us,
            None => 0,
        },
        warm_base_rtt_us: match learned {
            Some(w) => w.base_rtt_us,
            None => 0,
        },
        encrypt: p.encrypt,
        ciphers,
        pub_key,
        auth_mac: match token {
            Some(t) => Some(
                auth::client_mac_of(
                    t,
                    PROTOCOL_VERSION,
                    mode,
                    name,
                    size,
                    match pub_key {
                        Some(k) => k,
                        None => Seq::empty(),
                    },
                ),
            ),
            None => None,
        },
    }
}

/// The optional token as bytes.
pub open spec fn token_of(token: Option<&[u8]>) -> Option<Seq<u8>> {
    match token {
        Some(t) => Some(t@),
        None => None,
    }
}

/// Whether `hello` and `secret` open a handshake as a client does: with
/// encryption the hello carries the public key of the secret and this host's
/// suites, without it neither.
pub open spec fn opens_handshake(
    mode: Seq<char>,
    name: Seq<char>,
    size: i64,
    crc: u32,
    p: TransferParams,
    warm: Option<RateWarmStart>,
    token: Option<Seq<u8>>,
    aes_hardware: bool,
    hello: crate::control::HelloView,
    secret: Option<SecretKey>,
) -> bool {
    &&& hello == hello_for(
        mode,
        name,
        size,
        crc,
        p,
        warm,
        hello.ciphers,
        hello.pub_key,
        token,
    )
    &&& if p.encrypt {
        &&& hello.ciphers matches Some(c) && crate::crypto::is_local_ciphers(c, aes_hardware)
        &&& secret matches Some(k) && k@.len() == 32 && hello.pub_key == Some(
            crate::crypto::x25519_public(k@),
        ) && crate::crypto::x25519_public(k@).len() == 32
    } else {
        hello.ciphers is None && hello.pub_key is None && secret is None
    }
}

/// The client's opening message, and the secret of its key exchange. For a pull
/// `size` and `crc` are zero; for a push they are those of the object.
pub fn client_hello(
    mode: &str,
    name: &str,
    size: i64,
    crc: u32,
    p: &TransferParams,
    warm: Option<RateWarmStart>,
    auth_token: Option<&[u8]>,
    aes_hardware: bool,
) -> (r: (Hello, Option<SecretKey>))
    ensures
        opens_handshake(
            mode@,
            name@,
            size,
            crc,
            *p,
            warm,
            token_of(auth_token),
            aes_hardware,
            r.0@,
            r.1,
        ),
{
    let mut secret: Option<SecretKey> = None;
    let mut pub_key: Option<Vec<u8>> = None;
    if p.encrypt {
        let (sk, pk) = gen_keypair();
        secret = Some(sk);
        pub_key = Some(vstd::slice::slice_to_vec(&pk));
    }
    let auth_mac: Option<Vec<u8>> = match auth_token {
        Some(t) => Some(
            auth::client_mac(t, PROTOCOL_VERSION, mode, name, size, slice_or_empty(&pub_key)),
        ),
        None => None,
    };
    let learned = match warm_for_params(p, warm) {
        Some(w) => w,
        None => RateWarmStart::default(),
    };
    let hello = Hello {
        version: PROTOCOL_VERSION,
        mode: mode.to_owned(),
        name: name.to_owned(),
        size,
        block_size: #[verifier::truncate] (p.block_size as i64),
        rate_bps: p.rate_bps,
        max_bps: p.max_bps,
        adaptive: p.adaptive,
        alpha_bps: p.alpha_bps,
        crc32c: crc,
        warm_rate_bps: learned.rate_bps,
        warm_srtt_net_us: learned.srtt_net_us,
        warm_base_rtt_us: learned.base_rtt_us,
        encrypt: p.encrypt,
        ciphers: ciphers_if(p.encrypt, aes_hardware),
        pub_key,
        auth_mac,
    };
    (hello, secret)
}

/// Maps a server's refusal to a typed error.
pub fn reject_error(a: &Ack) -> (r: GirthError)
    ensures
        if a.auth_required {
            r is AuthDenied
        } else {
            crate::error::classifies(a.err@, r)
        },
{
    if a.auth_required {
        GirthError::AuthDenied
    } else {
        GirthError::from_server_err(a.err.as_str())
    }
}

/// Whether a server's ack proves possession of the token.
pub open spec fn server_proven(
    token: Seq<u8>,
    client_mac: Seq<u8>,
    a: crate::control::AckView,
) -> bool {
    a.auth_mac == Some(
        auth::server_mac_of(
            token,
            a.session,
            match a.pub_key {
                Some(k) => k,
                None => Seq::empty(),
            },
            client_mac,
        ),
    )
}

/// When the client authenticated, the server must prove possession of the same
/// token (binding the session id and its ephemeral key), or the session counts
/// as denied.
pub fn verify_server_auth(
    auth_token: Option<&[u8]>,
    client_mac: Option<&[u8]>,
    a: &Ack,
) -> (r: Result<(), GirthError>)
    ensures
        match (auth_token, client_mac) {
            (Some(token), Some(mac)) => if server_proven(token@, mac@, a@) {
                r is Ok
            } else {
                r matches Err(e) && e is AuthDenied
            },
            _ => r is Ok,
        },
{
    let token = match auth_token {
        Some(t) => t,
        None => return Ok(()),
    };
    let mac = match client_mac {
        Some(m) => m,
        None => return Ok(()),
    };
    match &a.auth_mac {
        None => Err(GirthError::AuthDenied),
        Some(smac) => if auth::verify_server_mac(
            token,
            a.session,
            slice_or_empty(&a.pub_key),
            mac,
            smac.as_slice(),
        ) {
            Ok(())
        } else {
            Err(GirthError::AuthDenied)
        },
    }
}

/// Whether `r` is what a client is left with after the ack `a`: the data key, or
/// none where it did not ask for encryption, or why there is no transfer.
pub open spec fn ack_judged(
    a: crate::control::AckView,
    encrypt: bool,
    token: Option<Seq<u8>>,
    client_mac: Option<Seq<u8>>,
    secret: Option<Seq<u8>>,
    r: Result<Option<Arc<AeadBox>>, GirthError>,
) -> bool {
    let server_pub = match a.pub_key {
        Some(k) => k,
        None => Seq::empty(),
    };
    if !a.ok {
        r is Err && (if a.auth_required {
            r->Err_0 is AuthDenied
        } else {
            crate::error::classifies(a.err, r->Err_0)
        })
    } else if token is Some && client_mac is Some && !server_proven(
        token->Some_0,
        client_mac->Some_0,
        a,
    ) {
        r is Err && r->Err_0 is AuthDenied
    } else if !a.encrypt {
        if encrypt {
            r is Err && r->Err_0 is Protocol && r->Err_0->Protocol_0@
                == "server declined encryption"@
        } else {
            r is Ok && r->Ok_0 is None
        }
    } else if secret is None || !encrypt {
        r is Err && r->Err_0 is Protocol && r->Err_0->Protocol_0@
            == "server enabled encryption unexpectedly"@
    } else {
        match r {
            Ok(b) => b is Some && crate::crypto::derived(
                secret->Some_0,
                server_pub,
                a.session,
                a.cipher,
                Ok(*b->Some_0),
            ),
            Err(e) => e matches GirthError::Protocol(text) && crate::crypto::derived(
                secret->Some_0,
                server_pub,
                a.session,
                a.cipher,
                Err(text),
            ),
        }
    }
}

/// The optional secret as bytes.
pub open spec fn secret_of(secret: Option<&SecretKey>) -> Option<Seq<u8>> {
    match secret {
        Some(k) => Some(k@),
        None => None,
    }
}

/// The data key that a client is left with after the server's ack, or why there
/// is no transfer: the server refused, did not prove possession of the token, or
/// no key could be agreed on. Encryption that was asked for and not granted is
/// an error.
pub fn accept_ack(
    a: &Ack,
    encrypt: bool,
    auth_token: Option<&[u8]>,
    client_mac: Option<&[u8]>,
    secret: Option<&SecretKey>,
) -> (r: Result<Option<Arc<AeadBox>>, GirthError>)
    ensures
        ack_judged(
            a@,
            encrypt,
            token_of(auth_token),
            token_of(client_mac),
            secret_of(secret),
            r,
        ),
{
    if !a.ok {
        return Err(reject_error(a));
    }
    match verify_server_auth(auth_token, client_mac, a) {
        Ok(()) => {},
        Err(e) => {
            return Err(e);
        },
    }
    match client_crypto(
        encrypt,
        a.encrypt,
        slice_or_empty(&a.pub_key),
        a.session,
        a.cipher.as_str(),
        secret,
    ) {
        Ok(b) => Ok(b),
        Err(text) => Err(GirthError::Protocol(text)),
    }
}

/// Judges an object that a client has received: a checksum that was read back
/// must be the one that the server announced.
pub fn check_integrity(got: Option<u32>, want: u32) -> (r: Result<(), GirthError>)
    ensures
        match r {
            Ok(_) => got is None || got == Some(want),
            Err(e) => e is Integrity && got is Some && got != Some(want),
        },
{
    match got {
        None => Ok(()),
        Some(g) => if g == want {
            Ok(())
        } else {
            Err(GirthError::Integrity)
        },
    }
}

// --- data planes ------------------------------------------------------------

/// Whether a sending data plane runs with `cfg` that moves an object of `size`
/// bytes with these parameters, under this session and key.
pub open spec fn sends_with(
    cfg: SendConfig,
    p: TransferParams,
    session: u32,
    size: i64,
    key: Option<Arc<AeadBox>>,
) -> bool {
    &&& cfg.file_size == size
    &&& cfg.block_size == p.block_size
    &&& cfg.total_blocks == crate::protocol::blocks_for(size as int, p.block_size as int)
    &&& cfg.session == session
    &&& cfg.crypto == key
}

/// The same of a receiving data plane.
pub open spec fn receives_with(
    cfg: RecvConfig,
    p: TransferParams,
    session: u32,
    size: i64,
    key: Option<Arc<AeadBox>>,
) -> bool {
    &&& cfg.file_size == size
    &&& cfg.block_size == p.block_size
    &&& cfg.total_blocks == crate::protocol::blocks_for(size as int, p.block_size as int)
    &&& cfg.session == session
    &&& cfg.crypto == key
}

/// What a sending data plane runs with, from `rate_bps` on.
pub fn send_config(
    p: &TransferParams,
    rate_bps: u64,
    session: u32,
    size: i64,
    key: Option<Arc<AeadBox>>,
) -> (r: SendConfig)
    requires
        p.block_size > 0,
    ensures
        sends_with(r, *p, session, size, key),
        r.rate == p.rate_for(rate_bps),
        r.read_workers == p.read_workers,
{
    SendConfig {
        file_size: size,
        block_size: p.block_size,
        total_blocks: num_blocks(size, p.block_size),
        session,
        rate: p.rate_config(rate_bps),
        read_workers: p.read_workers,
        crypto: key,
    }
}

/// What a receiving data plane runs with, from `rate_bps` on.
pub fn recv_config(
    p: &TransferParams,
    rate_bps: u64,
    session: u32,
    size: i64,
    key: Option<Arc<AeadBox>>,
) -> (r: RecvConfig)
    requires
        p.block_size > 0,
    ensures
        receives_with(r, *p, session, size, key),
        r.rate == p.rate_for(rate_bps),
        r.read_workers == p.read_workers,
        r.feedback_interval_us == p.feedback_interval_us,
        r.net_tick_interval_us == p.net_tick_interval_us,
        r.max_nacks_per_pdu == 0,
{
    RecvConfig {
        file_size: size,
        block_size: p.block_size,
        total_blocks: num_blocks(size, p.block_size),
        session,
        read_workers: p.read_workers,
        rate: p.rate_config(rate_bps),
        crypto: key,
        feedback_interval_us: p.feedback_interval_us,
        net_tick_interval_us: p.net_tick_interval_us,
        max_nacks_per_pdu: 0,
    }
}

// --- laws -------------------------------------------------------------------

/// What follows the last `c` of a text begins behind a `c`, or at the start, and
/// holds none.
pub proof fn after_last_is_last(s: Seq<char>, c: char)
    ensures
        ({
            let k = crate::text::after_last(s, c);
            &&& 0 <= k <= s.len()
            &&& k == 0 || s[k - 1] == c
            &&& forall|i: int| k <= i < s.len() ==> s[i] != c
        }),
    decreases s.len(),
{
    if s.len() > 0 && s.last() != c {
        after_last_is_last(s.drop_last(), c);
        let k = crate::text::after_last(s, c);
        assert forall|i: int| k <= i < s.len() implies s[i] != c by {
            if i < s.len() - 1 {
                assert(s.drop_last()[i] == s[i]);
            }
        }
    }
}

/// A plain name is the last component of whatever path it ends.
pub proof fn name_is_last_component(dir: Seq<char>, name: Seq<char>)
    requires
        crate::control::is_name(name),
        !name.contains('/'),
    ensures
        crate::control::last_component(dir + seq!['/'] + name) == name,
        crate::control::last_component(name) == name,
{
    assert(name.contains(name.last()));
    assert(name.len() >= 2 ==> name.contains(name[name.len() - 2]));
    assert(name.len() == 1 && name[0] == '.' ==> name =~= seq!['.']);
    let p = dir + seq!['/'] + name;
    assert(p.last() == name.last());
    assert(name.len() >= 2 ==> p[p.len() - 2] == name[name.len() - 2]);
    assert(crate::control::without_tail(p) == p);
    name_is_behind_separator(dir, '/', name);
    assert(p.skip(dir.len() as int + 1) =~= name);
    assert(crate::control::without_tail(name) == name);
    assert(name.skip(0) =~= name);
}

/// A name without separators begins behind the last separator.
pub proof fn name_is_behind_separator(dir: Seq<char>, c: char, name: Seq<char>)
    requires
        !name.contains(c),
    ensures
        crate::text::after_last(dir + seq![c] + name, c) == dir.len() + 1,
        crate::text::after_last(name, c) == 0,
{
    let p = dir + seq![c] + name;
    after_last_is_last(p, c);
    after_last_is_last(name, c);
    assert(p[dir.len() as int] == c);
    let k = crate::text::after_last(p, c);
    if k > dir.len() + 1 {
        assert(name[k - 1 - dir.len() - 1] == c);
    }
    let j = crate::text::after_last(name, c);
    if j > 0 {
        assert(name.contains(name[j - 1]));
    }
}

/// Law: a request cannot name an object outside the served directory. Whatever
/// path stands before a plain name, the name alone is served; and what is served
/// is always a plain name.
pub proof fn paths_reduce_to_names(dir: Seq<char>, name: Seq<char>)
    requires
        is_plain_name(name, false),
    ensures
        crate::control::host_name_of_path(dir + seq!['/'] + name, false) == name,
        crate::control::host_name_of_path(name, false) == name,
{
    name_is_last_component(dir, name);
}

/// Law: nor can one where `\` separates. Whatever stands before a plain name and
/// a separator, a drive or a share too, either the name alone is served or the
/// request is turned down.
pub proof fn backslashed_paths_reduce_to_names(dir: Seq<char>, separator: char, name: Seq<char>)
    requires
        is_plain_name(name, true),
        separator == '/' || separator == '\\',
    ensures
        ({
            let served = crate::control::host_name_of_path(dir + seq![separator] + name, true);
            served == name || !is_plain_name(served, true)
        }),
        crate::control::host_name_of_path(name, true) == name,
{
    let p = dir + seq![separator] + name;
    let s = crate::control::slashed_path(p, true);
    let above = crate::control::slashed_path(dir, true);
    assert forall|i: int| 0 <= i < name.len() implies name[i] != '\\' && name[i] != '/' by {
        assert(name.contains(name[i]));
    }
    assert(p[dir.len() as int] == separator);
    assert(p.contains(separator));
    if crate::control::is_verbatim(p) {
        verbatim_paths_reduce_to_names(dir, separator, name);
    } else {
        assert(s =~= above + seq!['/'] + name);
        let n = crate::control::prefix_len(s);
        prefix_ends_before_separator(s);
        if n <= dir.len() {
            name_is_last_component(above.skip(n), name);
            assert(s.skip(n) =~= above.skip(n) + seq!['/'] + name);
        } else {
            if n < s.len() && s[n] == '/' {
                assert(name[n - dir.len() - 1] == '/');
            }
            assert(s.skip(s.len() as int) =~= Seq::<char>::empty());
            assert(crate::control::without_tail(Seq::<char>::empty()) =~= Seq::<char>::empty());
        }
    }
    assert(crate::control::slashed_path(name, true) =~= name);
    assert(name.skip(0) =~= name);
    name_is_last_component(dir, name);
}

/// The same of a verbatim path, which `\` alone separates.
proof fn verbatim_paths_reduce_to_names(dir: Seq<char>, separator: char, name: Seq<char>)
    requires
        is_plain_name(name, true),
        separator == '/' || separator == '\\',
        crate::control::is_verbatim(dir + seq![separator] + name),
    ensures
        ({
            let p = dir + seq![separator] + name;
            let c = crate::control::last_verbatim(p);
            c == name || c.len() == 0 || c.contains('/')
        }),
{
    let p = dir + seq![separator] + name;
    assert forall|i: int| 0 <= i < name.len() implies name[i] != '\\' && name[i] != '/' by {
        assert(name.contains(name[i]));
    }
    assert forall|i: int| dir.len() < i < p.len() implies p[i] != '\\' && p[i] != '/' by {
        assert(p[i] == name[i - dir.len() - 1]);
    }
    assert(p[dir.len() as int] == separator);
    let n = crate::control::verbatim_prefix_len(p);
    verbatim_prefix_ends_before_separator(p);
    if n > dir.len() {
        if n == 6 && n < p.len() && p[5] == ':' && p[4] != '\\' && p[4] != '/' {
            if dir.len() == 3 {
                assert(name[0] == p[4] && name[1] == p[5]);
            }
        }
        assert(n == p.len());
        assert(p.skip(n) =~= Seq::<char>::empty());
        assert(crate::control::last_verbatim(p).len() == 0) by {
            after_last_is_last(Seq::<char>::empty(), '\\');
        }
    } else {
        let above = dir.skip(n);
        let q = p.skip(n);
        assert(q =~= above + seq![separator] + name);
        assert(q.last() == name.last());
        assert(crate::control::without_trailing(q, '\\') == q);
        if separator == '\\' {
            name_is_behind_separator(above, '\\', name);
            assert(q.skip(above.len() as int + 1) =~= name);
        } else {
            after_last_is_last(q, '\\');
            let k = crate::text::after_last(q, '\\');
            assert(q[above.len() as int] == '/');
            if k > above.len() {
                assert(q[k - 1] == p[n + k - 1]);
            }
            assert(q.skip(k)[above.len() - k] == '/');
        }
    }
}

/// A verbatim prefix ends where the path ends or at a separator; or it ends with a
/// drive.
proof fn verbatim_prefix_ends_before_separator(p: Seq<char>)
    requires
        crate::control::is_verbatim(p),
    ensures
        ({
            let n = crate::control::verbatim_prefix_len(p);
            &&& 4 <= n <= p.len()
            &&& n == p.len() || p[n] == '\\' || (n == 6 && crate::control::is_drive_letter(p[4])
                && p[5] == ':')
        }),
{
    first_of_is_found(p.skip(4), '\\');
    if p.len() >= 8 {
        first_of_is_found(p.skip(8), '\\');
        let server = crate::text::first_of(p.skip(8), '\\');
        if server + 9 < p.len() {
            first_of_is_found(p.skip(server + 9), '\\');
        }
    }
}

/// A share ends where the path ends or at a separator; a drive is two characters.
proof fn prefix_ends_before_separator(s: Seq<char>)
    ensures
        ({
            let n = crate::control::prefix_len(s);
            &&& 0 <= n <= s.len()
            &&& n == 0 || n == s.len() || s[n] == '/' || (n == 2 && s[0] != '/' && s[1] == ':')
        }),
{
    if s.len() >= 2 {
        first_of_is_found(s.skip(2), '/');
        let server = crate::text::first_of(s.skip(2), '/');
        if server + 3 < s.len() {
            first_of_is_found(s.skip(server + 3), '/');
        }
    }
}

/// The first `c` of a text stands in it, or the text has none.
proof fn first_of_is_found(s: Seq<char>, c: char)
    ensures
        0 <= crate::text::first_of(s, c) <= s.len(),
        crate::text::first_of(s, c) < s.len() ==> s[crate::text::first_of(s, c)] == c,
    decreases s.len(),
{
    if s.len() > 0 && s[0] != c {
        first_of_is_found(s.drop_first(), c);
    }
}

/// Law: a client with the server's token proves it. The proof in its hello is the
/// one that the server expects.
pub proof fn same_token_authenticates(
    mode: Seq<char>,
    name: Seq<char>,
    size: i64,
    crc: u32,
    p: TransferParams,
    warm: Option<RateWarmStart>,
    token: Seq<u8>,
    aes_hardware: bool,
    hello: crate::control::HelloView,
    secret: Option<SecretKey>,
)
    requires
        opens_handshake(
            mode,
            name,
            size,
            crc,
            p,
            warm,
            Some(token),
            aes_hardware,
            hello,
            secret,
        ),
    ensures
        hello.auth_mac == Some(proof_for(token, hello)),
{
}

/// Law: a server with the client's token proves it. An ack that was granted to an
/// authenticated client passes the client's check.
pub proof fn honest_server_is_proven(
    h: crate::control::HelloView,
    session: u32,
    udp_port: i64,
    size: i64,
    crc: u32,
    encrypt: bool,
    cipher: Seq<char>,
    public: Seq<u8>,
    token: Seq<u8>,
    client_mac: Seq<u8>,
)
    ensures
        server_proven(
            token,
            client_mac,
            grant(
                h,
                session,
                udp_port,
                size,
                crc,
                encrypt,
                cipher,
                public,
                Some((token, client_mac)),
            ),
        ),
{
    assert(public.len() == 0 ==> public =~= Seq::<u8>::empty());
}

/// Law: after a handshake with encryption both ends hold the same suite and the
/// same key.
pub proof fn handshake_agrees_on_key(
    mode: Seq<char>,
    name: Seq<char>,
    size: i64,
    crc: u32,
    p: TransferParams,
    warm: Option<RateWarmStart>,
    token: Option<Seq<u8>>,
    client_aes: bool,
    hello: crate::control::HelloView,
    secret: SecretKey,
    prefer: Seq<String>,
    server_aes: bool,
    session: u32,
    udp_port: i64,
    object_size: i64,
    object_crc: u32,
    auth: Option<(Seq<u8>, Seq<u8>)>,
    ack: Ack,
    server_box: Arc<AeadBox>,
    client_box: Arc<AeadBox>,
)
    requires
        p.encrypt,
        opens_handshake(
            mode,
            name,
            size,
            crc,
            p,
            warm,
            token,
            client_aes,
            hello,
            Some(secret),
        ),
        crate::crypto::is_local_ciphers(prefer, server_aes),
        answered(
            hello,
            prefer,
            session,
            udp_port,
            object_size,
            object_crc,
            auth,
            Ok((ack, Some(server_box))),
        ),
        crate::crypto::derived(
            secret@,
            crate::control::bytes_or_empty(ack.pub_key),
            ack.session,
            ack.cipher@,
            Ok(*client_box),
        ),
    ensures
        server_box.suite() == client_box.suite(),
        server_box.key() == client_box.key(),
{
    assert(crate::crypto::known_cipher(ack.cipher@)) by {
        crate::crypto::chosen_is_preferred(prefer, listed_ciphers(hello));
    }
    crate::crypto::both_ends_agree(
        prefer,
        listed_ciphers(hello),
        secret@,
        session,
        ack.cipher@,
        ack.pub_key->Some_0@,
        &*server_box,
        &*client_box,
    );
}

/// Law: a server with default settings or any others takes the request of a
/// client that keeps its limits, whichever way the object goes.
pub proof fn request_within_limits_is_admitted(
    mode: Seq<char>,
    name: Seq<char>,
    size: i64,
    crc: u32,
    p: TransferParams,
    warm: Option<RateWarmStart>,
    ciphers: Option<Seq<String>>,
    pub_key: Option<Seq<u8>>,
    token: Option<Seq<u8>>,
    l: ServerLimits,
)
    requires
        mode == MODE_SEND@ || mode == MODE_RECV@,
        0 <= size <= l.max_object_size,
        0 < p.block_size <= i64::MAX,
        l.min_block_size <= p.block_size <= l.max_block_size,
        p.rate_bps <= l.max_rate_bps,
        p.max_bps <= l.max_rate_bps,
        p.alpha_bps <= l.max_alpha_bps,
        p.max_bps == 0 || p.rate_bps <= p.max_bps,
        warm matches Some(w) ==> w.rate_bps <= l.max_rate_bps && w.srtt_net_us <= MAX_WARM_RTT_US
            && w.base_rtt_us <= w.srtt_net_us,
    ensures
        limit_violation(
            hello_for(mode, name, size, crc, p, warm, ciphers, pub_key, token),
            l,
        ) is None,
{
}

/// Law: a session never exceeds what the server allows: the block size and the
/// rates of an opened session keep the limits that the server's own parameters
/// keep.
pub proof fn sessions_keep_limits(
    params: TransferParams,
    h: crate::control::HelloView,
    l: ServerLimits,
)
    requires
        limit_violation(h, l) is None,
        params.rate_bps <= l.max_rate_bps,
        params.max_bps <= l.max_rate_bps,
        params.alpha_bps <= l.max_alpha_bps,
    ensures
        ({
            let p = params_for(params, h);
            &&& 0 < p.block_size
            &&& l.min_block_size <= p.block_size <= l.max_block_size
            &&& p.rate_bps <= l.max_rate_bps
            &&& p.max_bps <= l.max_rate_bps
            &&& p.alpha_bps <= l.max_alpha_bps
        }),
{
}

} // verus!
