//! What holds of the handshake: what a session runs with, what is refused, and
//! what the two ends of a granted transfer have in common.

use crate::control::{Ack, Hello, TransferParams};
use crate::crypto::{AeadBox, SecretKey};
use crate::error::{GirthError, IoError, IoKind};
use crate::rate::{RateMode, RateWarmStart};
use crate::receiver::RecvConfig;
use crate::sender::SendConfig;
use crate::stats::Stats;
use crate::transfer::{
    accept_ack, ack_err, admits, answer, authenticate, check_integrity, check_received,
    check_source_len, client_hello, connection_ended, open_session, record_warm_start, recv_config,
    reject_error, send_config, validate_hello_limits, verify_server_auth, warm_for_params,
    warm_from_hello, AuthState, Direction, ServerLimits, Session,
};
use std::sync::Arc;
use vstd::prelude::*;

verus! {

// --- sessions ---------------------------------------------------------------

/// Law: an opened session runs in the mode that the client asked for, with its
/// block size, and with each rate that it named; the server's own rates stand in
/// only for those that it left at zero, and nothing else of the server's settings
/// changes. The object goes the way that the request says.
pub proof fn sessions_run_as_asked()
    ensures
        forall|h: &Hello, params: &TransferParams, limits: &ServerLimits, s: Session| #[trigger]
            call_ensures(open_session, (h, params, limits), Ok(s)) ==> {
                &&& s.params.adaptive == h.adaptive
                &&& s.params.block_size == h.block_size
                &&& h.rate_bps > 0 ==> s.params.rate_bps == h.rate_bps
                &&& h.rate_bps == 0 ==> s.params.rate_bps == params.rate_bps
                &&& h.max_bps > 0 ==> s.params.max_bps == h.max_bps
                &&& h.max_bps == 0 ==> s.params.max_bps == params.max_bps
                &&& h.alpha_bps > 0 ==> s.params.alpha_bps == h.alpha_bps
                &&& h.alpha_bps == 0 ==> s.params.alpha_bps == params.alpha_bps
                &&& s.params.read_workers == params.read_workers
                &&& s.params.feedback_interval_us == params.feedback_interval_us
                &&& s.params.net_tick_interval_us == params.net_tick_interval_us
                &&& s.params.report_interval_ms == params.report_interval_ms
                &&& s.params.verbose == params.verbose
                &&& s.params.encrypt == params.encrypt
                &&& s.direction == Direction::Push <==> h.mode@ == "send"@
                &&& s.direction == Direction::Pull <==> h.mode@ == "recv"@
            },
{
    reveal_strlit("send");
    reveal_strlit("recv");
    assert("send"@[0] != "recv"@[0]);
}

/// Law: both ends of a granted transfer run in the same mode, at blocks of the
/// same size, whichever end sends and whatever the server's own mode is.
pub proof fn both_ends_run_alike()
    ensures
        forall|
            mode: &str,
            name: &str,
            size: i64,
            crc: u32,
            p: &TransferParams,
            warm: Option<RateWarmStart>,
            token: Option<&[u8]>,
            aes: bool,
            hello: Hello,
            secret: Option<SecretKey>,
            params: &TransferParams,
            limits: &ServerLimits,
            s: Session,
        |
            #![trigger call_ensures(client_hello, (mode, name, size, crc, p, warm, token, aes), (hello, secret)), call_ensures(open_session, (&hello, params, limits), Ok(s))]
            call_ensures(
                client_hello,
                (mode, name, size, crc, p, warm, token, aes),
                (hello, secret),
            ) && call_ensures(open_session, (&hello, params, limits), Ok(s)) ==> {
                &&& s.params.adaptive == p.adaptive
                &&& forall|x: u64, y: u64| #[trigger]
                    p.rate_for(x).mode == (#[trigger] s.params.rate_for(y)).mode
                &&& p.adaptive <==> forall|x: u64|
                    (#[trigger] s.params.rate_for(x)).mode == RateMode::Adaptive
                &&& p.block_size <= i64::MAX ==> s.params.block_size == p.block_size
                &&& p.rate_bps > 0 ==> s.params.rate_bps == p.rate_bps
                &&& p.max_bps > 0 ==> s.params.max_bps == p.max_bps
                &&& p.alpha_bps > 0 ==> s.params.alpha_bps == p.alpha_bps
                &&& mode@ == "send"@ <==> s.direction == Direction::Push
            },
{
    reveal_strlit("send");
    reveal_strlit("recv");
    assert("send"@[0] != "recv"@[0]);
    assert forall|
        mode: &str,
        name: &str,
        size: i64,
        crc: u32,
        p: &TransferParams,
        warm: Option<RateWarmStart>,
        token: Option<&[u8]>,
        aes: bool,
        hello: Hello,
        secret: Option<SecretKey>,
        params: &TransferParams,
        limits: &ServerLimits,
        s: Session,
    |
        #![trigger call_ensures(client_hello, (mode, name, size, crc, p, warm, token, aes), (hello, secret)), call_ensures(open_session, (&hello, params, limits), Ok(s))]
        call_ensures(client_hello, (mode, name, size, crc, p, warm, token, aes), (hello, secret))
            && call_ensures(open_session, (&hello, params, limits), Ok(s)) implies {
        &&& s.params.adaptive == p.adaptive
        &&& forall|x: u64, y: u64| #[trigger]
            p.rate_for(x).mode == (#[trigger] s.params.rate_for(y)).mode
        &&& p.adaptive <==> forall|x: u64|
            (#[trigger] s.params.rate_for(x)).mode == RateMode::Adaptive
        &&& p.block_size <= i64::MAX ==> s.params.block_size == p.block_size
        &&& p.rate_bps > 0 ==> s.params.rate_bps == p.rate_bps
        &&& p.max_bps > 0 ==> s.params.max_bps == p.max_bps
        &&& p.alpha_bps > 0 ==> s.params.alpha_bps == p.alpha_bps
        &&& mode@ == "send"@ <==> s.direction == Direction::Push
    } by {
        assert(hello@.adaptive == p.adaptive);
        assert(s.params.rate_for(0).mode == s.params.rate_for(1).mode);
    }
}

/// Law: the data planes that the two ends set up for one object meet. Given the
/// same session, size and key, and the parameters of a granted transfer, they
/// cut the object into the same blocks, in the same mode.
pub proof fn data_planes_meet()
    ensures
        forall|
            p: &TransferParams,
            x: u64,
            session: u32,
            size: i64,
            key: Option<Arc<AeadBox>>,
            a: SendConfig,
            q: &TransferParams,
            y: u64,
            b: RecvConfig,
        |
            #![trigger call_ensures(send_config, (p, x, session, size, key), a), call_ensures(recv_config, (q, y, session, size, key), b)]
            call_ensures(send_config, (p, x, session, size, key), a) && call_ensures(
                recv_config,
                (q, y, session, size, key),
                b,
            ) && p.block_size == q.block_size && p.adaptive == q.adaptive ==> {
                &&& a.rate.mode == b.rate.mode
                &&& a.rate.mode == RateMode::Adaptive <==> p.adaptive
                &&& a.block_size == b.block_size
                &&& a.block_size == p.block_size
                &&& a.total_blocks == b.total_blocks
                &&& a.file_size == size
                &&& b.file_size == size
                &&& a.session == session
                &&& b.session == session
                &&& a.crypto == key
                &&& b.crypto == key
                &&& a.rate.target_bps == x
                &&& b.rate.target_bps == y
                &&& a.rate.min_bps == 0
                &&& b.rate.min_bps == 0
                &&& a.rate.max_bps == p.max_bps
                &&& b.rate.max_bps == q.max_bps
                &&& a.rate.alpha == p.alpha_bps
                &&& b.rate.alpha == q.alpha_bps
                &&& a.read_workers == p.read_workers
                &&& b.read_workers == q.read_workers
                &&& b.feedback_interval_us == q.feedback_interval_us
                &&& b.net_tick_interval_us == q.net_tick_interval_us
            },
        forall|
            p: &TransferParams,
            x: u64,
            session: u32,
            size: i64,
            key: Option<Arc<AeadBox>>,
            a: SendConfig,
        |
            #![trigger call_ensures(send_config, (p, x, session, size, key), a)]
            call_ensures(send_config, (p, x, session, size, key), a) && p.block_size > 0 ==> {
                &&& size > 0 ==> (a.total_blocks - 1) * p.block_size < size <= a.total_blocks
                    * p.block_size
                &&& size <= 0 ==> a.total_blocks == 0
            },
{
    assert forall|
        p: &TransferParams,
        x: u64,
        session: u32,
        size: i64,
        key: Option<Arc<AeadBox>>,
        a: SendConfig,
    |
        #![trigger call_ensures(send_config, (p, x, session, size, key), a)]
        call_ensures(send_config, (p, x, session, size, key), a) && p.block_size > 0 implies {
        &&& size > 0 ==> (a.total_blocks - 1) * p.block_size < size <= a.total_blocks
            * p.block_size
        &&& size <= 0 ==> a.total_blocks == 0
    } by {
        if size > 0 {
            let n = size as int;
            let b = p.block_size as int;
            let t = (n + b - 1) / b;
            assert((t - 1) * b < n <= t * b) by (nonlinear_arith)
                requires
                    b > 0,
                    t == (n + b - 1) / b,
            ;
        }
    }
}

// --- limits -----------------------------------------------------------------

/// What a request can do wrong, in the order in which it is looked at.
pub open spec fn breaks(h: Hello, l: ServerLimits, rule: int) -> bool {
    if rule == 0 {
        h.mode@ != "send"@ && h.mode@ != "recv"@
    } else if rule == 1 {
        h.size < 0
    } else if rule == 2 {
        h.mode@ == "send"@ && h.size > l.max_object_size
    } else if rule == 3 {
        h.block_size <= 0
    } else if rule == 4 {
        !(l.min_block_size <= h.block_size <= l.max_block_size)
    } else if rule == 5 {
        h.rate_bps > l.max_rate_bps
    } else if rule == 6 {
        h.max_bps > l.max_rate_bps
    } else if rule == 7 {
        h.warm_rate_bps > l.max_rate_bps
    } else if rule == 8 {
        h.warm_srtt_net_us > 60_000_000 || h.warm_base_rtt_us > 60_000_000
    } else if rule == 9 {
        0 < h.warm_srtt_net_us < h.warm_base_rtt_us
    } else if rule == 10 {
        h.alpha_bps > l.max_alpha_bps
    } else {
        rule == 11 && 0 < h.max_bps < h.rate_bps
    }
}

/// What is said of each.
pub open spec fn complaint(h: Hello, l: ServerLimits, rule: int) -> Seq<char> {
    if rule == 0 {
        "unknown mode"@
    } else if rule == 1 {
        "negative size"@
    } else if rule == 2 {
        "object too large: "@ + crate::text::dec(h.size as nat) + " > "@ + crate::text::dec(
            l.max_object_size as nat,
        )
    } else if rule == 3 {
        "invalid block size"@
    } else if rule == 4 {
        "block size out of range: "@ + crate::text::dec(h.block_size as nat) + " (allowed "@
            + crate::text::dec(l.min_block_size as nat) + "..="@ + crate::text::dec(
            l.max_block_size as nat,
        ) + ")"@
    } else if rule == 5 {
        "rate too high: "@ + crate::text::dec(h.rate_bps as nat) + " > "@ + crate::text::dec(
            l.max_rate_bps as nat,
        )
    } else if rule == 6 {
        "max rate too high: "@ + crate::text::dec(h.max_bps as nat) + " > "@ + crate::text::dec(
            l.max_rate_bps as nat,
        )
    } else if rule == 7 {
        "warm rate too high: "@ + crate::text::dec(h.warm_rate_bps as nat) + " > "@
            + crate::text::dec(l.max_rate_bps as nat)
    } else if rule == 8 {
        "warm RTT too high: srtt="@ + crate::text::dec(h.warm_srtt_net_us as nat) + " base="@
            + crate::text::dec(h.warm_base_rtt_us as nat) + " max="@ + crate::text::dec(
            60_000_000,
        )
    } else if rule == 9 {
        "warm base RTT exceeds warm SRTT"@
    } else if rule == 10 {
        "alpha too high: "@ + crate::text::dec(h.alpha_bps as nat) + " > "@ + crate::text::dec(
            l.max_alpha_bps as nat,
        )
    } else {
        "rate exceeds max rate"@
    }
}

/// Whether `rule` is the first that a request breaks.
pub open spec fn breaks_first(h: Hello, l: ServerLimits, rule: int) -> bool {
    &&& 0 <= rule < 12
    &&& breaks(h, l, rule)
    &&& forall|j: int| 0 <= j < rule ==> !#[trigger] breaks(h, l, j)
}

/// A request keeps the limits exactly where it breaks no rule, and the first rule
/// that it breaks is the one that is named.
#[verifier::spinoff_prover]
#[verifier::rlimit(40)]
pub proof fn limits_are_the_rules(h: Hello, l: ServerLimits)
    ensures
        crate::transfer::limit_violation(h@, l) is None <==> forall|k: int|
            0 <= k < 12 ==> !#[trigger] breaks(h, l, k),
        forall|k: int| #[trigger]
            breaks_first(h, l, k) ==> crate::transfer::limit_violation(h@, l) == Some(
                complaint(h, l, k),
            ),
{
    let found = crate::transfer::limit_violation(h@, l);
    assert forall|k: int| #[trigger] breaks_first(h, l, k) implies found == Some(
        complaint(h, l, k),
    ) by {
        assert(0 < k ==> !breaks(h, l, 0));
        assert(1 < k ==> !breaks(h, l, 1));
        assert(2 < k ==> !breaks(h, l, 2));
        assert(3 < k ==> !breaks(h, l, 3));
        assert(4 < k ==> !breaks(h, l, 4));
        assert(5 < k ==> !breaks(h, l, 5));
        assert(6 < k ==> !breaks(h, l, 6));
        assert(7 < k ==> !breaks(h, l, 7));
        assert(8 < k ==> !breaks(h, l, 8));
        assert(9 < k ==> !breaks(h, l, 9));
        assert(10 < k ==> !breaks(h, l, 10));
    }
    if found is Some {
        assert(breaks(h, l, 0) || breaks(h, l, 1) || breaks(h, l, 2) || breaks(h, l, 3) || breaks(
            h,
            l,
            4,
        ) || breaks(h, l, 5) || breaks(h, l, 6) || breaks(h, l, 7) || breaks(h, l, 8) || breaks(
            h,
            l,
            9,
        ) || breaks(h, l, 10) || breaks(h, l, 11));
    }
}

/// Law: a request is within a server's limits exactly where it breaks none of the
/// rules; else the first that it breaks is named.
pub proof fn requests_keep_limits()
    ensures
        forall|h: &Hello, l: &ServerLimits, r: Result<(), String>| #[trigger]
            call_ensures(validate_hello_limits, (h, l), r) ==> {
                &&& r is Ok <==> forall|k: int| 0 <= k < 12 ==> !#[trigger] breaks(*h, *l, k)
                &&& forall|k: int| #[trigger]
                    breaks_first(*h, *l, k) ==> r is Err && r->Err_0@ == complaint(*h, *l, k)
            },
{
    assert forall|h: &Hello, l: &ServerLimits, r: Result<(), String>| #[trigger]
        call_ensures(validate_hello_limits, (h, l), r) implies {
        &&& r is Ok <==> forall|k: int| 0 <= k < 12 ==> !#[trigger] breaks(*h, *l, k)
        &&& forall|k: int| #[trigger]
            breaks_first(*h, *l, k) ==> r is Err && r->Err_0@ == complaint(*h, *l, k)
    } by {
        limits_are_the_rules(*h, *l);
    }
}

/// Law: a session is opened exactly for a request of the same protocol version
/// that the server's limits allow; else the refusal says why, and is not one
/// that a token would change.
pub proof fn sessions_need_version_and_limits()
    ensures
        forall|
            h: &Hello,
            params: &TransferParams,
            l: &ServerLimits,
            r: Result<Session, Ack>,
            v: Result<(), String>,
        |
            #![trigger call_ensures(open_session, (h, params, l), r), call_ensures(validate_hello_limits, (h, l), v)]
            call_ensures(open_session, (h, params, l), r) && call_ensures(
                validate_hello_limits,
                (h, l),
                v,
            ) ==> {
                &&& r is Ok <==> h.version == 1 && v is Ok
                &&& r matches Err(a) ==> !a.ok && !a.auth_required && a.auth_mac is None
                    && a.pub_key is None
                &&& h.version != 1 ==> r->Err_0.err@ == "protocol version mismatch"@
                &&& h.version == 1 && v is Err ==> r->Err_0.err@ == v->Err_0@
            },
{
}

/// Law: a refusal carries its reason and whether a token is wanted, and nothing
/// else; it is no grant.
pub proof fn refusals_say_why()
    ensures
        forall|err: &str, wanted: bool, a: Ack| #[trigger]
            call_ensures(ack_err, (err, wanted), a) ==> !a.ok && a.err@ == err@ && a.auth_required
                == wanted && a.udp_port == 0 && a.session == 0 && a.size == 0 && a.crc32c == 0
                && a.name@.len() == 0 && !a.encrypt && a.cipher@.len() == 0 && a.pub_key is None
                && a.auth_mac is None,
{
}

/// Law: a server takes on a transfer exactly while it has fewer than its limit,
/// serves an object exactly where its size is within the limit and can be told,
/// and tells that size.
pub proof fn servers_keep_their_own_limits()
    ensures
        forall|l: &ServerLimits, active: usize, r: bool| #[trigger]
            call_ensures(admits, (l, active), r) ==> (r <==> active
                < l.max_concurrent_connections),
        forall|len: u64, l: &ServerLimits, r: Result<i64, String>| #[trigger]
            call_ensures(check_source_len, (len, l), r) ==> {
                &&& r is Ok <==> len <= l.max_object_size && len <= 0x7fff_ffff_ffff_ffff
                &&& r matches Ok(size) ==> size == len
                &&& len > l.max_object_size ==> r->Err_0@ == "object too large: "@
                    + crate::text::dec(len as nat) + " > "@ + crate::text::dec(
                    l.max_object_size as nat,
                )
                &&& len <= l.max_object_size && len > 0x7fff_ffff_ffff_ffff ==> r->Err_0@
                    == "object too large for protocol size field"@
            },
        forall|e: &IoError, r: bool| #[trigger]
            call_ensures(connection_ended, (e,), r) ==> (r <==> e.kind == IoKind::UnexpectedEof
                || e.kind == IoKind::ConnectionReset),
        forall|l: ServerLimits| #[trigger]
            call_ensures(<ServerLimits as Default>::default, (), l) ==> l.max_object_size
                == 0x100_0000_0000 && l.min_block_size == 256 && l.max_block_size == 65_455
                && l.max_rate_bps == 100_000_000_000 && l.max_alpha_bps == 100_000_000_000
                && l.max_concurrent_connections == 256,
{
}

// --- warm starts ------------------------------------------------------------

/// Law: what a client has learned of the path reaches the server unchanged where
/// the transfer is adaptive, and not at all where it is not.
pub proof fn learned_values_reach_the_server()
    ensures
        forall|
            mode: &str,
            name: &str,
            size: i64,
            crc: u32,
            p: &TransferParams,
            warm: Option<RateWarmStart>,
            token: Option<&[u8]>,
            aes: bool,
            hello: Hello,
            secret: Option<SecretKey>,
            r: Option<RateWarmStart>,
        |
            #![trigger call_ensures(client_hello, (mode, name, size, crc, p, warm, token, aes), (hello, secret)), call_ensures(warm_from_hello, (&hello,), r)]
            call_ensures(
                client_hello,
                (mode, name, size, crc, p, warm, token, aes),
                (hello, secret),
            ) && call_ensures(warm_from_hello, (&hello,), r) ==> {
                &&& p.adaptive && warm is Some && (warm->Some_0.rate_bps > 0
                    || warm->Some_0.srtt_net_us > 0 || warm->Some_0.base_rtt_us > 0) ==> r == warm
                &&& !(p.adaptive && warm is Some && (warm->Some_0.rate_bps > 0
                    || warm->Some_0.srtt_net_us > 0 || warm->Some_0.base_rtt_us > 0)) ==> r is None
            },
        forall|p: &TransferParams, warm: Option<RateWarmStart>, r: Option<RateWarmStart>| #[trigger]
            call_ensures(warm_for_params, (p, warm), r) ==> {
                &&& r is Some <==> p.adaptive && warm is Some && (warm->Some_0.rate_bps > 0
                    || warm->Some_0.srtt_net_us > 0 || warm->Some_0.base_rtt_us > 0)
                &&& r is Some ==> r == warm
            },
{
}

/// Law: an adaptive transfer leaves behind what it measured, and what was known
/// before of anything that it did not measure; a fixed one changes nothing.
pub proof fn transfers_leave_what_they_measured()
    ensures
        forall|w: &mut RateWarmStart, p: &TransferParams, s: &Stats, u: ()| #[trigger]
            call_ensures(record_warm_start, (w, p, s), u) ==> {
                &&& !p.adaptive ==> *final(w) == *w
                &&& p.adaptive && s.target_rate_bps > 0 ==> final(w).rate_bps == s.target_rate_bps
                &&& s.target_rate_bps == 0 ==> final(w).rate_bps == w.rate_bps
                &&& p.adaptive && s.srtt_net_us > 0 ==> final(w).srtt_net_us == s.srtt_net_us
                &&& s.srtt_net_us == 0 ==> final(w).srtt_net_us == w.srtt_net_us
                &&& p.adaptive && s.base_rtt_us > 0 ==> final(w).base_rtt_us == s.base_rtt_us
                &&& s.base_rtt_us == 0 ==> final(w).base_rtt_us == w.base_rtt_us
            },
{
}

// --- tokens -----------------------------------------------------------------

/// Law: a client that holds the server's token is let in, and its identity is
/// that token; a client without one is told that one is required.
pub proof fn holders_of_the_token_are_let_in()
    ensures
        forall|
            mode: &str,
            name: &str,
            size: i64,
            crc: u32,
            p: &TransferParams,
            warm: Option<RateWarmStart>,
            token: &[u8],
            aes: bool,
            hello: Hello,
            secret: Option<SecretKey>,
            expected: Vec<u8>,
            r: Result<Option<AuthState>, Ack>,
        |
            #![trigger call_ensures(client_hello, (mode, name, size, crc, p, warm, Some(token), aes), (hello, secret)), call_ensures(authenticate, (&hello, Some(Ok(expected))), r)]
            call_ensures(
                client_hello,
                (mode, name, size, crc, p, warm, Some(token), aes),
                (hello, secret),
            ) && call_ensures(authenticate, (&hello, Some(Ok(expected))), r) && expected@ == token@
                ==> {
                &&& r is Ok && r->Ok_0 is Some
                &&& r->Ok_0->Some_0.token@ == token@
                &&& hello.auth_mac is Some
                &&& r->Ok_0->Some_0.client_mac@ == hello.auth_mac->Some_0@
            },
        forall|
            mode: &str,
            name: &str,
            size: i64,
            crc: u32,
            p: &TransferParams,
            warm: Option<RateWarmStart>,
            aes: bool,
            hello: Hello,
            secret: Option<SecretKey>,
            expected: Vec<u8>,
            r: Result<Option<AuthState>, Ack>,
        |
            #![trigger call_ensures(client_hello, (mode, name, size, crc, p, warm, None::<&[u8]>, aes), (hello, secret)), call_ensures(authenticate, (&hello, Some(Ok(expected))), r)]
            call_ensures(
                client_hello,
                (mode, name, size, crc, p, warm, None::<&[u8]>, aes),
                (hello, secret),
            ) && call_ensures(authenticate, (&hello, Some(Ok(expected))), r) ==> r is Err
                && !r->Err_0.ok && r->Err_0.auth_required && r->Err_0.err@ == "auth required"@,
{
}

/// Law: a server that wants a token lets nobody in whose proof is not the one
/// that the token gives for this very request, and says so; the authorizer's
/// refusal is passed on; an open server asks for nothing.
pub proof fn nobody_else_is_let_in()
    ensures
        forall|h: &Hello, expected: Vec<u8>, r: Result<Option<AuthState>, Ack>| #[trigger]
            call_ensures(authenticate, (h, Some(Ok(expected))), r) ==> {
                let mac = crate::auth::client_mac_of(
                    expected@,
                    h.version,
                    h.mode@,
                    h.name@,
                    h.size,
                    crate::control::bytes_or_empty(h.pub_key),
                );
                &&& r is Ok <==> h.auth_mac is Some && h.auth_mac->Some_0@ == mac
                &&& r is Ok ==> r->Ok_0 is Some && r->Ok_0->Some_0.token@ == expected@
                    && r->Ok_0->Some_0.client_mac@ == mac
                &&& r is Err ==> !r->Err_0.ok && r->Err_0.auth_required
                &&& h.auth_mac is Some && r is Err ==> r->Err_0.err@ == "auth denied"@
                &&& h.auth_mac is None ==> r->Err_0.err@ == "auth required"@
            },
        forall|h: &Hello, reason: String, r: Result<Option<AuthState>, Ack>| #[trigger]
            call_ensures(authenticate, (h, Some(Err(reason))), r) ==> r is Err && !r->Err_0.ok
                && r->Err_0.auth_required && r->Err_0.err@ == "auth denied: "@ + reason@,
        forall|h: &Hello, r: Result<Option<AuthState>, Ack>| #[trigger]
            call_ensures(
                authenticate,
                (h, None::<Result<Vec<u8>, String>>),
                r,
            ) ==> r is Ok && r->Ok_0 is None,
{
}

/// Law: an authenticated client takes an ack only from a server that holds the
/// same token, for the session and the key that the ack names.
pub proof fn servers_prove_themselves()
    ensures
        forall|token: &[u8], mac: &[u8], a: &Ack, r: Result<(), GirthError>| #[trigger]
            call_ensures(verify_server_auth, (Some(token), Some(mac), a), r) ==> {
                let proven = a.auth_mac is Some && a.auth_mac->Some_0@
                    == crate::auth::server_mac_of(
                    token@,
                    a.session,
                    crate::control::bytes_or_empty(a.pub_key),
                    mac@,
                );
                &&& r is Ok <==> proven
                &&& r is Err ==> r->Err_0 is AuthDenied
            },
        forall|
            h: &Hello,
            session: u32,
            port: i64,
            size: i64,
            crc: u32,
            state: &Option<AuthState>,
            aes: bool,
            a: Ack,
            key: Option<Arc<AeadBox>>,
            token: &[u8],
            mac: &[u8],
            r: Result<(), GirthError>,
        |
            #![trigger call_ensures(answer, (h, session, port, size, crc, state, aes), Ok((a, key))), call_ensures(verify_server_auth, (Some(token), Some(mac), &a), r)]
            call_ensures(answer, (h, session, port, size, crc, state, aes), Ok((a, key)))
                && call_ensures(verify_server_auth, (Some(token), Some(mac), &a), r) && *state
                is Some && (*state)->Some_0.token@ == token@ && (*state)->Some_0.client_mac@ == mac@
                ==> r is Ok,
{
    assert forall|
        h: &Hello,
        session: u32,
        port: i64,
        size: i64,
        crc: u32,
        state: &Option<AuthState>,
        aes: bool,
        a: Ack,
        key: Option<Arc<AeadBox>>,
        token: &[u8],
        mac: &[u8],
        r: Result<(), GirthError>,
    |
        #![trigger call_ensures(answer, (h, session, port, size, crc, state, aes), Ok((a, key))), call_ensures(verify_server_auth, (Some(token), Some(mac), &a), r)]
        call_ensures(answer, (h, session, port, size, crc, state, aes), Ok((a, key)))
            && call_ensures(verify_server_auth, (Some(token), Some(mac), &a), r) && *state is Some
            && (*state)->Some_0.token@ == token@ && (*state)->Some_0.client_mac@
            == mac@ implies r is Ok by {
        assert(a@.auth_mac is Some);
        assert(a@.session == session);
        assert(a@.pub_key == crate::control::opt_bytes(a.pub_key));
    }
}

// --- grants -----------------------------------------------------------------

/// Law: a grant names the session, the port, and the size and checksum of the
/// object, and repeats the request's name. It grants encryption exactly where the
/// client asked for it, with a key; a request without encryption is never
/// refused here.
pub proof fn grants_say_what_is_granted()
    ensures
        forall|
            h: &Hello,
            session: u32,
            port: i64,
            size: i64,
            crc: u32,
            state: &Option<AuthState>,
            aes: bool,
            r: Result<(Ack, Option<Arc<AeadBox>>), Ack>,
        |
            #![trigger call_ensures(answer, (h, session, port, size, crc, state, aes), r)]
            call_ensures(answer, (h, session, port, size, crc, state, aes), r) ==> {
                &&& !h.encrypt ==> r is Ok
                &&& r matches Ok((a, key)) ==> {
                    &&& a.ok
                    &&& a.err@.len() == 0
                    &&& !a.auth_required
                    &&& a.session == session
                    &&& a.udp_port == port
                    &&& a.size == size
                    &&& a.crc32c == crc
                    &&& a.name@ == h.name@
                    &&& a.encrypt == h.encrypt
                    &&& key is Some <==> h.encrypt
                    &&& a.pub_key is Some <==> h.encrypt
                    &&& key is Some ==> key->Some_0.suite() == a.cipher@ && a.pub_key->Some_0@.len()
                        == 32
                    &&& !h.encrypt ==> a.cipher@.len() == 0
                    &&& a.auth_mac is Some <==> *state is Some
                }
                &&& r matches Err(a) ==> {
                    &&& !a.ok
                    &&& !a.auth_required
                    &&& a.err@ == "no common cipher suite"@ || a.err@
                        == "girth: bad peer public key"@
                }
            },
{
}

/// Law: a client goes on with exactly what it asked for. It never goes on without
/// encryption where it asked for it, nor with it where it did not; a refusal is
/// the error that it tells; a server without the token is denied.
pub proof fn clients_get_what_they_asked_for()
    ensures
        forall|
            a: &Ack,
            encrypt: bool,
            token: Option<&[u8]>,
            mac: Option<&[u8]>,
            secret: Option<&SecretKey>,
            r: Result<Option<Arc<AeadBox>>, GirthError>,
        |
            #![trigger call_ensures(accept_ack, (a, encrypt, token, mac, secret), r)]
            call_ensures(accept_ack, (a, encrypt, token, mac, secret), r) ==> {
                &&& r is Ok ==> a.ok && a.encrypt == encrypt && (r->Ok_0 is Some <==> encrypt)
                &&& r is Ok && encrypt ==> r->Ok_0->Some_0.suite() == a.cipher@
                &&& r is Ok && token is Some && mac is Some ==> a.auth_mac is Some
                    && a.auth_mac->Some_0@ == crate::auth::server_mac_of(
                    token->Some_0@,
                    a.session,
                    crate::control::bytes_or_empty(a.pub_key),
                    mac->Some_0@,
                )
                &&& !a.ok ==> r is Err
                &&& !a.ok && a.auth_required ==> r->Err_0 is AuthDenied
                &&& a.ok && token is None && !a.encrypt && !encrypt ==> r is Ok
                &&& a.ok && token is None && !a.encrypt && encrypt ==> r is Err && r->Err_0
                    is Protocol && r->Err_0->Protocol_0@ == "server declined encryption"@
                &&& a.ok && token is None && a.encrypt && !encrypt ==> r is Err && r->Err_0
                    is Protocol && r->Err_0->Protocol_0@
                    == "server enabled encryption unexpectedly"@
            },
        forall|a: &Ack, e: GirthError| #[trigger]
            call_ensures(reject_error, (a,), e) && a.auth_required ==> e is AuthDenied,
{
}

/// Law: a refusal that is not about a token is told as what its text says, just as
/// the text alone is.
pub proof fn refusals_are_told_by_their_text()
    ensures
        forall|a: &Ack, e: GirthError| #[trigger]
            call_ensures(reject_error, (a,), e) && !a.auth_required ==> {
                let version = crate::laws::reporting::mentioned(a.err@, "version mismatch"@);
                &&& e is VersionMismatch <==> version
                &&& !(e is Timeout) && !(e is Stopped) && !(e is Integrity) && !(e is Io)
                &&& e matches GirthError::Protocol(s) ==> s@ == a.err@
            },
        forall|a: &Ack, e: GirthError, text: &str, f: GirthError|
            #![trigger call_ensures(reject_error, (a,), e), call_ensures(GirthError::from_server_err, (text,), f)]
            call_ensures(reject_error, (a,), e) && call_ensures(
                GirthError::from_server_err,
                (text,),
                f,
            ) && text@ == a.err@ && !a.auth_required ==> {
                &&& e is VersionMismatch <==> f is VersionMismatch
                &&& e is AuthDenied <==> f is AuthDenied
                &&& e is NotFound <==> f is NotFound
                &&& e is Protocol <==> f is Protocol
            },
        forall|
            a: &Ack,
            encrypt: bool,
            token: Option<&[u8]>,
            mac: Option<&[u8]>,
            secret: Option<&SecretKey>,
            r: Result<Option<Arc<AeadBox>>, GirthError>,
            e: GirthError,
        |
            #![trigger call_ensures(accept_ack, (a, encrypt, token, mac, secret), r), call_ensures(reject_error, (a,), e)]
            call_ensures(accept_ack, (a, encrypt, token, mac, secret), r) && call_ensures(
                reject_error,
                (a,),
                e,
            ) && !a.ok ==> {
                &&& r is Err
                &&& r->Err_0 is AuthDenied <==> e is AuthDenied
                &&& r->Err_0 is VersionMismatch <==> e is VersionMismatch
                &&& r->Err_0 is NotFound <==> e is NotFound
                &&& r->Err_0 is Protocol <==> e is Protocol
            },
{
    assert forall|a: &Ack, e: GirthError| #[trigger]
        call_ensures(reject_error, (a,), e) && !a.auth_required implies (e is VersionMismatch
        <==> crate::laws::reporting::mentioned(a.err@, "version mismatch"@)) by {
        crate::laws::reporting::mentioned_is_found(a.err@, "version mismatch"@);
    }
}

// --- objects ----------------------------------------------------------------

/// Law: an object passes at either end exactly where its checksum was not read
/// back or is the one that was announced; the server's error shows both.
pub proof fn checksums_decide()
    ensures
        forall|name: &str, got: Option<u32>, want: u32, r: Result<(), IoError>| #[trigger]
            call_ensures(check_received, (name, got, want), r) ==> {
                &&& got is None ==> r is Ok
                &&& got == Some(want) ==> r is Ok
                &&& got is Some && got->Some_0 != want ==> r is Err && r->Err_0.kind
                    == IoKind::Other && r->Err_0.message@ == "integrity failure "@
                    + crate::text::debug_quoted(name@) + ": crc got="@ + crate::text::hex(
                    got->Some_0 as nat,
                    8,
                ) + " want="@ + crate::text::hex(want as nat, 8)
            },
        forall|got: Option<u32>, want: u32, r: Result<(), GirthError>| #[trigger]
            call_ensures(check_integrity, (got, want), r) ==> {
                &&& got is None ==> r is Ok
                &&& got == Some(want) ==> r is Ok
                &&& got is Some && got->Some_0 != want ==> r is Err && r->Err_0 is Integrity
            },
{
}

/// Law: a client's hello tells what it was made from.
pub proof fn hellos_tell_what_is_asked()
    ensures
        forall|
            mode: &str,
            name: &str,
            size: i64,
            crc: u32,
            p: &TransferParams,
            warm: Option<RateWarmStart>,
            token: Option<&[u8]>,
            aes: bool,
            r: (Hello, Option<SecretKey>),
        |
            #![trigger call_ensures(client_hello, (mode, name, size, crc, p, warm, token, aes), r)]
            call_ensures(client_hello, (mode, name, size, crc, p, warm, token, aes), r) ==> {
                let h = r.0;
                &&& h.version == 1
                &&& h.mode@ == mode@
                &&& h.name@ == name@
                &&& h.size == size
                &&& h.crc32c == crc
                &&& p.block_size <= i64::MAX ==> h.block_size == p.block_size
                &&& h.rate_bps == p.rate_bps
                &&& h.max_bps == p.max_bps
                &&& h.alpha_bps == p.alpha_bps
                &&& h.adaptive == p.adaptive
                &&& h.encrypt == p.encrypt
                &&& h.ciphers is Some <==> p.encrypt
                &&& h.pub_key is Some <==> p.encrypt
                &&& r.1 is Some <==> p.encrypt
                &&& p.encrypt ==> h.pub_key->Some_0@.len() == 32 && h.pub_key->Some_0@
                    == crate::crypto::x25519_public(r.1->Some_0@)
                &&& h.auth_mac is Some <==> token is Some
                &&& token is Some ==> h.auth_mac->Some_0@ == crate::auth::client_mac_of(
                    token->Some_0@,
                    h.version,
                    mode@,
                    name@,
                    size,
                    crate::control::bytes_or_empty(h.pub_key),
                )
            },
{
    assert forall|
        mode: &str,
        name: &str,
        size: i64,
        crc: u32,
        p: &TransferParams,
        warm: Option<RateWarmStart>,
        token: Option<&[u8]>,
        aes: bool,
        r: (Hello, Option<SecretKey>),
    |
        #![trigger call_ensures(client_hello, (mode, name, size, crc, p, warm, token, aes), r)]
        call_ensures(client_hello, (mode, name, size, crc, p, warm, token, aes), r) implies {
        let h = r.0;
        &&& h.version == 1
        &&& h.mode@ == mode@
        &&& h.name@ == name@
        &&& h.size == size
        &&& h.crc32c == crc
        &&& p.block_size <= i64::MAX ==> h.block_size == p.block_size
        &&& h.rate_bps == p.rate_bps
        &&& h.max_bps == p.max_bps
        &&& h.alpha_bps == p.alpha_bps
        &&& h.adaptive == p.adaptive
        &&& h.encrypt == p.encrypt
        &&& h.ciphers is Some <==> p.encrypt
        &&& h.pub_key is Some <==> p.encrypt
        &&& r.1 is Some <==> p.encrypt
        &&& p.encrypt ==> h.pub_key->Some_0@.len() == 32 && h.pub_key->Some_0@
            == crate::crypto::x25519_public(r.1->Some_0@)
        &&& h.auth_mac is Some <==> token is Some
        &&& token is Some ==> h.auth_mac->Some_0@ == crate::auth::client_mac_of(
            token->Some_0@,
            h.version,
            mode@,
            name@,
            size,
            crate::control::bytes_or_empty(h.pub_key),
        )
    } by {
        let h = r.0@;
        assert(h.version == 1 && h.size == size && h.rate_bps == p.rate_bps);
        assert(h.ciphers is Some <==> p.encrypt);
    }
}

} // verus!
