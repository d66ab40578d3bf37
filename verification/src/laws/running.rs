//! What holds of a running transfer's controls, its handle and its rates.

use crate::error::GirthError;
use crate::rate::{RateConfig, RateMode, RateWarmStart};
use crate::runtime::{asked_to_end, TransferControl, TransferHandle, TransferPhase};
use vstd::prelude::*;

verus! {

// --- phases -----------------------------------------------------------------

/// Law: the phases are numbered from zero in the order in which a transfer goes
/// through them, every phase is read back from its number, and an unknown number
/// counts as the first.
pub proof fn phases_are_numbered()
    ensures
        forall|p: TransferPhase, n: u8| #[trigger]
            call_ensures(TransferPhase::as_u8, (p,), n) ==> {
                &&& n == 0 <==> p == TransferPhase::Queued
                &&& n == 1 <==> p == TransferPhase::Connecting
                &&& n == 2 <==> p == TransferPhase::Transferring
                &&& n == 3 <==> p == TransferPhase::Verifying
                &&& n == 4 <==> p == TransferPhase::Complete
                &&& n == 5 <==> p == TransferPhase::Failed
            },
        forall|p: TransferPhase, n: u8, q: TransferPhase|
            #![trigger call_ensures(TransferPhase::as_u8, (p,), n), call_ensures(TransferPhase::from_u8, (n,), q)]
            call_ensures(TransferPhase::as_u8, (p,), n) && call_ensures(
                TransferPhase::from_u8,
                (n,),
                q,
            ) ==> q == p,
        forall|n: u8, q: TransferPhase| #[trigger]
            call_ensures(TransferPhase::from_u8, (n,), q) && n > 5 ==> q == TransferPhase::Queued,
{
}

// --- controls ---------------------------------------------------------------

/// Law: controls do one thing each. A limit is the one last set, zero being none;
/// a pause lasts until it is ended; a cancellation lasts; none of them changes the
/// others; and new controls leave a transfer alone.
pub proof fn controls_do_one_thing()
    ensures
        forall|c: TransferControl| #[trigger]
            call_ensures(TransferControl::new, (), c) ==> c.limit() is None && !c.paused()
                && !c.cancelled(),
        forall|m: &mut TransferControl, bps: Option<u64>, u: ()| #[trigger]
            call_ensures(TransferControl::set_rate_limit, (m, bps), u) ==> {
                &&& bps is Some && bps->Some_0 > 0 ==> final(m).limit() == bps
                &&& bps is None || bps->Some_0 == 0 ==> final(m).limit() is None
                &&& final(m).paused() == m.paused()
                &&& final(m).cancelled() == m.cancelled()
            },
        forall|m: &mut TransferControl, u: ()| #[trigger]
            call_ensures(TransferControl::pause, (m,), u) ==> final(m).paused() && final(m).limit()
                == m.limit() && final(m).cancelled() == m.cancelled(),
        forall|m: &mut TransferControl, u: ()| #[trigger]
            call_ensures(TransferControl::resume, (m,), u) ==> !final(m).paused() && final(
                m).limit() == m.limit() && final(m).cancelled() == m.cancelled(),
        forall|m: &mut TransferControl, u: ()| #[trigger]
            call_ensures(TransferControl::cancel, (m,), u) ==> final(m).cancelled() && final(
                m).limit() == m.limit() && final(m).paused() == m.paused(),
        forall|c: &TransferControl, r: Option<u64>| #[trigger]
            call_ensures(TransferControl::rate_limit_bps, (c,), r) ==> r == c.limit(),
        forall|c: &TransferControl, r: bool| #[trigger]
            call_ensures(TransferControl::is_paused, (c,), r) ==> r == c.paused(),
        forall|c: &TransferControl, r: bool| #[trigger]
            call_ensures(TransferControl::is_cancelled, (c,), r) ==> r == c.cancelled(),
        forall|stop: bool, c: &TransferControl, r: bool| #[trigger]
            call_ensures(asked_to_end, (stop, Some(c)), r) ==> (r <==> stop || c.cancelled()),
        forall|stop: bool, r: bool| #[trigger]
            call_ensures(asked_to_end, (stop, None::<&TransferControl>), r) ==> r == stop,
{
}

/// Law: the rate that controls leave. Without controls it is the base rate; a
/// limit caps it and never raises it; a paused transfer trickles at a megabit per
/// second, or at its base rate where that is less, but never stands still.
pub proof fn controls_leave_a_rate()
    ensures
        forall|c: &TransferControl, base: u64, r: u64| #[trigger]
            call_ensures(TransferControl::effective_rate_bps, (c, base), r) ==> {
                &&& !c.paused() && c.limit() is None ==> r == base
                &&& !c.paused() && c.limit() is Some && base <= c.limit()->Some_0 ==> r == base
                &&& !c.paused() && c.limit() is Some && base > c.limit()->Some_0 ==> r
                    == c.limit()->Some_0
                &&& c.paused() && base >= 1_000_000 ==> r == 1_000_000
                &&& c.paused() && 0 < base < 1_000_000 ==> r == base
                &&& c.paused() && base == 0 ==> r == 1
            },
{
}

// --- handles ----------------------------------------------------------------

/// Law: a handle's controls act on its transfer alone and leave its progress as it
/// is; what they set is what it tells.
pub proof fn handles_pass_controls_on()
    ensures
        forall|h: TransferHandle| #[trigger]
            call_ensures(TransferHandle::new, (), h) ==> {
                &&& h.control.limit() is None && !h.control.paused() && !h.control.cancelled()
                &&& h.phase == 0
                &&& h.last_error is None
                &&& h.stats.packets_sent == 0 && h.stats.packets_recv == 0 && h.stats.total_bytes
                    == 0 && h.stats.hi_contig == 0 && h.stats.target_rate_bps == 0
            },
        forall|m: &mut TransferHandle, bps: Option<u64>, u: ()| #[trigger]
            call_ensures(TransferHandle::set_rate_limit, (m, bps), u) ==> {
                &&& bps is Some && bps->Some_0 > 0 ==> final(m).control.limit() == bps
                &&& bps is None || bps->Some_0 == 0 ==> final(m).control.limit() is None
                &&& final(m).control.paused() == m.control.paused()
                &&& final(m).control.cancelled() == m.control.cancelled()
                &&& final(m).stats == m.stats && final(m).at() == m.at() && final(m).failure()
                    == m.failure()
            },
        forall|m: &mut TransferHandle, u: ()| #[trigger]
            call_ensures(TransferHandle::pause, (m,), u) ==> final(m).control.paused() && final(
                m).control.limit() == m.control.limit() && final(m).control.cancelled()
                == m.control.cancelled() && final(m).stats == m.stats && final(m).at() == m.at()
                && final(m).failure() == m.failure(),
        forall|m: &mut TransferHandle, u: ()| #[trigger]
            call_ensures(TransferHandle::resume, (m,), u) ==> !final(m).control.paused() && final(
                m).control.limit() == m.control.limit() && final(m).control.cancelled()
                == m.control.cancelled() && final(m).stats == m.stats && final(m).at() == m.at()
                && final(m).failure() == m.failure(),
        forall|m: &mut TransferHandle, u: ()| #[trigger]
            call_ensures(TransferHandle::cancel, (m,), u) ==> final(m).control.cancelled() && final(
                m).control.limit() == m.control.limit() && final(m).control.paused()
                == m.control.paused() && final(m).stats == m.stats && final(m).at() == m.at()
                && final(m).failure() == m.failure(),
        forall|h: &TransferHandle, r: Option<u64>| #[trigger]
            call_ensures(TransferHandle::rate_limit_bps, (h,), r) ==> r == h.control.limit(),
        forall|h: &TransferHandle, r: bool| #[trigger]
            call_ensures(TransferHandle::is_paused, (h,), r) ==> r == h.control.paused(),
        forall|h: &TransferHandle, r: bool| #[trigger]
            call_ensures(TransferHandle::is_cancelled, (h,), r) ==> r == h.control.cancelled(),
{
}

/// Law: a handle tells the phase that was set last. Its failure is the text of the
/// error that it failed with, and is forgotten when it leaves that phase; a
/// success changes nothing.
pub proof fn handles_tell_phase_and_failure()
    ensures
        forall|
            m: &mut TransferHandle,
            p: TransferPhase,
            u: (),
            h: &TransferHandle,
            q: TransferPhase,
            e: Option<String>,
        |
            #![trigger call_ensures(TransferHandle::set_phase, (m, p), u), call_ensures(TransferHandle::phase, (h,), q), call_ensures(TransferHandle::last_error, (h,), e)]
            call_ensures(TransferHandle::set_phase, (m, p), u) && *h == *final(m) && call_ensures(
                TransferHandle::phase,
                (h,),
                q,
            ) && call_ensures(TransferHandle::last_error, (h,), e) ==> {
                &&& q == p
                &&& p != TransferPhase::Failed ==> e is None
                &&& p == TransferPhase::Failed ==> final(m).failure() == m.failure()
                &&& final(m).stats == m.stats
                &&& final(m).control == m.control
            },
        forall|
            m: &mut TransferHandle,
            err: &GirthError,
            u: (),
            h: &TransferHandle,
            q: TransferPhase,
            e: Option<String>,
            text: String,
        |
            #![trigger call_ensures(TransferHandle::set_failed, (m, err), u), call_ensures(TransferHandle::phase, (h,), q), call_ensures(TransferHandle::last_error, (h,), e), call_ensures(GirthError::message, (err,), text)]
            call_ensures(TransferHandle::set_failed, (m, err), u) && *h == *final(m)
                && call_ensures(TransferHandle::phase, (h,), q) && call_ensures(
                TransferHandle::last_error,
                (h,),
                e,
            ) && call_ensures(GirthError::message, (err,), text) ==> {
                &&& q == TransferPhase::Failed
                &&& e is Some && e->Some_0@ == text@
                &&& final(m).stats == m.stats
                &&& final(m).control == m.control
            },
        forall|m: &mut TransferHandle, u: ()| #[trigger]
            call_ensures(TransferHandle::mark_result, (m, &Ok::<(), GirthError>(())), u) ==> *final(
                m) == *m,
        forall|m: &mut TransferHandle, err: GirthError, u: (), text: String|
            #![trigger call_ensures(TransferHandle::mark_result, (m, &Err::<(), GirthError>(err)), u), call_ensures(GirthError::message, (&err,), text)]
            call_ensures(TransferHandle::mark_result, (m, &Err::<(), GirthError>(err)), u)
                && call_ensures(GirthError::message, (&err,), text) ==> {
                &&& final(m).at() == TransferPhase::Failed
                &&& final(m).failure() == Some(text@)
                &&& final(m).stats == m.stats
                &&& final(m).control == m.control
            },
{
}

// --- rates ------------------------------------------------------------------

/// Law: a limit that was given stands; one that was left at zero has its default.
/// A fixed transfer starts at its target; an adaptive one at its target as long as
/// that is no more than the ceiling, and at the ceiling else.
pub proof fn rates_have_defaults()
    ensures
        forall|c: RateConfig, r: RateConfig| #[trigger]
            call_ensures(RateConfig::with_defaults, (c,), r) ==> {
                &&& r.mode == c.mode
                &&& r.target_bps == c.target_bps
                &&& c.min_bps > 0 ==> r.min_bps == c.min_bps
                &&& c.min_bps == 0 ==> r.min_bps == 64_000
                &&& c.max_bps > 0 ==> r.max_bps == c.max_bps
                &&& c.max_bps == 0 ==> r.max_bps == 10_000_000_000
                &&& c.alpha > 0 ==> r.alpha == c.alpha
                &&& c.alpha == 0 ==> r.alpha == 30_000_000
            },
        forall|c: &RateConfig, r: u64| #[trigger]
            call_ensures(RateConfig::start_bps, (c,), r) ==> {
                &&& c.mode == RateMode::Fixed ==> r == c.target_bps
                &&& c.mode == RateMode::Adaptive && 0 < c.target_bps <= c.max_bps ==> r
                    == c.target_bps
                &&& c.mode == RateMode::Adaptive && (c.target_bps == 0 || c.target_bps > c.max_bps)
                    ==> r == c.max_bps
            },
        forall|c: &RateConfig, r: u64| #[trigger]
            call_ensures(RateConfig::initial_bps, (c,), r) ==> {
                &&& c.target_bps > 0 ==> r == c.target_bps
                &&& c.target_bps == 0 ==> r == c.max_bps
            },
        forall|w: RateWarmStart, r: bool| #[trigger]
            call_ensures(RateWarmStart::is_empty, (w,), r) ==> (r <==> w.rate_bps == 0
                && w.srtt_net_us == 0 && w.base_rtt_us == 0),
        forall|w: RateWarmStart| #[trigger]
            call_ensures(<RateWarmStart as Default>::default, (), w) ==> w.rate_bps == 0
                && w.srtt_net_us == 0 && w.base_rtt_us == 0,
{
}

// --- measures ---------------------------------------------------------------

/// Law: the measures that a transfer runs by: its default rates, the rate of a
/// paused one, the sizes of batches and rings, how often an end is told and a start
/// repeated, and what counts as a round trip at all.
pub proof fn measures_are_set()
    ensures
        crate::rate::RTT_PREC_US == 1000,
        crate::rate::DEFAULT_MIN_BPS == 64_000,
        crate::rate::DEFAULT_MAX_BPS == 10_000_000_000,
        crate::rate::DEFAULT_ALPHA_BPS == 30_000_000,
        crate::runtime::PAUSED_RATE_BPS == 1_000_000,
        crate::receiver::STAGE_BYTES == 96 * 1024 * 1024,
        crate::receiver::MAX_RTT_SAMPLE_US == 60 * 1_000_000,
        crate::transfer::MAX_WARM_RTT_US == 60 * 1_000_000,
        crate::receiver::DONE_SENDS == 8,
        crate::receiver::START_BURST == 5,
        crate::receiver::START_REPEATS == 25,
        crate::receiver::START_WAIT_MS == 200,
        crate::sender::MAX_BATCH == 64,
        crate::sys::RECV_BATCH == 32,
        crate::sys::SEND_RING == 16,
        crate::sys::SEND_CTX == u64::MAX,
        crate::sys::ADDR_SLOT == 32,
        crate::sys::SOCKADDR_IN_LEN == 16,
        crate::sys::SOCKADDR_IN6_LEN == 28,
        crate::io::CHUNK == 1024 * 1024,
        crate::stats::REPORT_POLL_NS == 50 * 1_000_000,
{
}

} // verus!
