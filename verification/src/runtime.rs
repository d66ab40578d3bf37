//! What a caller holds of a running transfer: its phase, its statistics and the
//! controls that slow it down or end it.

use crate::error::GirthError;
use crate::stats::{Stats, StatsSnapshot};
use vstd::prelude::*;

verus! {

const PHASE_QUEUED: u8 = 0;

const PHASE_CONNECTING: u8 = 1;

const PHASE_TRANSFERRING: u8 = 2;

const PHASE_VERIFYING: u8 = 3;

const PHASE_COMPLETE: u8 = 4;

const PHASE_FAILED: u8 = 5;

/// The rate of a paused transfer: enough to keep the path alive.
pub const PAUSED_RATE_BPS: u64 = 1_000_000;

/// Where a transfer stands.
#[derive(Debug, Clone, Copy, PartialEq, Eq, Structural)]
pub enum TransferPhase {
    Queued,
    Connecting,
    Transferring,
    Verifying,
    Complete,
    Failed,
}

impl TransferPhase {
    /// The number that stands for a phase.
    pub open spec fn number(self) -> u8 {
        match self {
            TransferPhase::Queued => 0,
            TransferPhase::Connecting => 1,
            TransferPhase::Transferring => 2,
            TransferPhase::Verifying => 3,
            TransferPhase::Complete => 4,
            TransferPhase::Failed => 5,
        }
    }

    /// The phase that a number stands for; unknown numbers stand for `Queued`.
    pub open spec fn of_number(v: u8) -> TransferPhase {
        if v == 1 {
            TransferPhase::Connecting
        } else if v == 2 {
            TransferPhase::Transferring
        } else if v == 3 {
            TransferPhase::Verifying
        } else if v == 4 {
            TransferPhase::Complete
        } else if v == 5 {
            TransferPhase::Failed
        } else {
            TransferPhase::Queued
        }
    }

    /// The number that stands for the phase.
    pub fn as_u8(self) -> (r: u8)
        ensures
            r == self.number(),
    {
        match self {
            TransferPhase::Queued => PHASE_QUEUED,
            TransferPhase::Connecting => PHASE_CONNECTING,
            TransferPhase::Transferring => PHASE_TRANSFERRING,
            TransferPhase::Verifying => PHASE_VERIFYING,
            TransferPhase::Complete => PHASE_COMPLETE,
            TransferPhase::Failed => PHASE_FAILED,
        }
    }

    /// The phase that a number stands for.
    pub fn from_u8(v: u8) -> (r: TransferPhase)
        ensures
            r == TransferPhase::of_number(v),
    {
        match v {
            PHASE_CONNECTING => TransferPhase::Connecting,
            PHASE_TRANSFERRING => TransferPhase::Transferring,
            PHASE_VERIFYING => TransferPhase::Verifying,
            PHASE_COMPLETE => TransferPhase::Complete,
            PHASE_FAILED => TransferPhase::Failed,
            _ => TransferPhase::Queued,
        }
    }
}

/// Law: every phase is read back from its number.
pub proof fn phase_round_trip(p: TransferPhase)
    ensures
        TransferPhase::of_number(p.number()) == p,
{
}

/// The caller's controls over a running transfer.
#[derive(Debug, Clone, Copy, PartialEq, Eq, Structural)]
pub struct TransferControl {
    rate_limit_bps: u64,
    paused: bool,
    cancelled: bool,
}

impl Default for TransferControl {
    fn default() -> (r: Self)
        ensures
            r.limit() is None,
            !r.paused(),
            !r.cancelled(),
    {
        TransferControl { rate_limit_bps: 0, paused: false, cancelled: false }
    }
}

impl TransferControl {
    /// The rate limit, if one is set.
    pub closed spec fn limit(self) -> Option<u64> {
        if self.rate_limit_bps == 0 {
            None
        } else {
            Some(self.rate_limit_bps)
        }
    }

    /// Paused.
    pub closed spec fn paused(self) -> bool {
        self.paused
    }

    /// Cancelled.
    pub closed spec fn cancelled(self) -> bool {
        self.cancelled
    }

    /// The rate that the controls leave of `base`: a paused transfer trickles,
    /// a limited one keeps its limit.
    pub open spec fn allowed_rate(self, base: u64) -> int {
        if self.paused() {
            crate::stats::min_int(
                PAUSED_RATE_BPS as int,
                crate::stats::max_int(base as int, 1),
            )
        } else {
            match self.limit() {
                Some(limit) => crate::stats::min_int(base as int, limit as int),
                None => base as int,
            }
        }
    }

    /// Controls that leave a transfer alone.
    pub fn new() -> (r: TransferControl)
        ensures
            r.limit() is None,
            !r.paused(),
            !r.cancelled(),
    {
        TransferControl::default()
    }

    /// Sets or lifts the rate limit; a limit of zero is none.
    pub fn set_rate_limit(&mut self, bps: Option<u64>)
        ensures
            final(self).limit() == (if bps == Some(0u64) {
                None
            } else {
                bps
            }),
            final(self).paused() == old(self).paused(),
            final(self).cancelled() == old(self).cancelled(),
    {
        self.rate_limit_bps = match bps {
            Some(n) => n,
            None => 0,
        };
    }

    /// The rate limit, if one is set.
    pub fn rate_limit_bps(&self) -> (r: Option<u64>)
        ensures
            r == self.limit(),
    {
        if self.rate_limit_bps == 0 {
            None
        } else {
            Some(self.rate_limit_bps)
        }
    }

    /// Slows the transfer to a trickle.
    pub fn pause(&mut self)
        ensures
            final(self).paused(),
            final(self).limit() == old(self).limit(),
            final(self).cancelled() == old(self).cancelled(),
    {
        self.paused = true;
    }

    /// Ends a pause.
    pub fn resume(&mut self)
        ensures
            !final(self).paused(),
            final(self).limit() == old(self).limit(),
            final(self).cancelled() == old(self).cancelled(),
    {
        self.paused = false;
    }

    /// Whether the transfer is paused.
    pub fn is_paused(&self) -> (r: bool)
        ensures
            r == self.paused(),
    {
        self.paused
    }

    /// Asks the transfer to end. There is no way back.
    pub fn cancel(&mut self)
        ensures
            final(self).cancelled(),
            final(self).limit() == old(self).limit(),
            final(self).paused() == old(self).paused(),
    {
        self.cancelled = true;
    }

    /// Whether the transfer was asked to end.
    pub fn is_cancelled(&self) -> (r: bool)
        ensures
            r == self.cancelled(),
    {
        self.cancelled
    }

    /// The rate that the controls leave of `base`.
    pub fn effective_rate_bps(&self, base: u64) -> (r: u64)
        ensures
            r == self.allowed_rate(base),
    {
        if self.paused {
            let floor: u64 = if base >= 1 {
                base
            } else {
                1
            };
            return if PAUSED_RATE_BPS <= floor {
                PAUSED_RATE_BPS
            } else {
                floor
            };
        }
        if self.rate_limit_bps == 0 || base <= self.rate_limit_bps {
            base
        } else {
            self.rate_limit_bps
        }
    }
}

/// Whether a transfer is asked to end: by the caller's flag, or by its controls.
pub fn asked_to_end(stop: bool, control: Option<&TransferControl>) -> (r: bool)
    ensures
        r == (stop || (control matches Some(c) && c.cancelled())),
{
    stop || match control {
        Some(c) => c.cancelled,
        None => false,
    }
}

/// Law: controls never raise a rate above `base`, but for the one bit per second
/// that keeps a paused transfer with no rate alive; and they never stop a
/// transfer that has a rate.
pub proof fn controls_only_slow_down(c: TransferControl, base: u64)
    ensures
        c.allowed_rate(base) <= crate::stats::max_int(base as int, 1),
        base >= 1 ==> 1 <= c.allowed_rate(base) <= base,
{
}

/// A caller's handle on a transfer.
pub struct TransferHandle {
    /// The transfer's statistics.
    pub stats: Stats,
    /// The transfer's controls.
    pub control: TransferControl,
    /// The number of the phase.
    pub phase: u8,
    /// The text of the last failure.
    pub last_error: Option<String>,
}

impl Default for TransferHandle {
    fn default() -> (r: Self)
        ensures
            r.stats == crate::stats::zero_stats(),
            r.control.limit() is None && !r.control.paused() && !r.control.cancelled(),
            r.at() == TransferPhase::Queued,
            r.phase == TransferPhase::Queued.number(),
            r.failure() is None,
    {
        TransferHandle {
            stats: Stats::new(),
            control: TransferControl::new(),
            phase: PHASE_QUEUED,
            last_error: None,
        }
    }
}

impl TransferHandle {
    /// The phase.
    pub open spec fn at(self) -> TransferPhase {
        TransferPhase::of_number(self.phase)
    }

    /// The text of the last failure.
    pub open spec fn failure(self) -> Option<Seq<char>> {
        match self.last_error {
            Some(s) => Some(s@),
            None => None,
        }
    }

    /// A handle on a transfer that has not begun.
    pub fn new() -> (r: TransferHandle)
        ensures
            r.stats == crate::stats::zero_stats(),
            r.control.limit() is None && !r.control.paused() && !r.control.cancelled(),
            r.at() == TransferPhase::Queued,
            r.phase == TransferPhase::Queued.number(),
            r.failure() is None,
    {
        TransferHandle::default()
    }

    /// A copy of the counters with the progress that they amount to.
    pub fn snapshot(&self, elapsed_us: u64) -> (r: StatsSnapshot)
        ensures
            r.elapsed_us == elapsed_us,
            r.stats == self.stats,
            r.progress_blocks == crate::stats::blocks_done(self.stats),
            r.progress_bytes == crate::stats::bytes_done(self.stats),
            r.queue_delay_us == crate::stats::max_int(
                self.stats.srtt_net_us - self.stats.base_rtt_us,
                0,
            ),
    {
        self.stats.snapshot(elapsed_us)
    }

    /// Where the transfer stands.
    pub fn phase(&self) -> (r: TransferPhase)
        ensures
            r == self.at(),
    {
        TransferPhase::from_u8(self.phase)
    }

    /// The text of the last failure.
    pub fn last_error(&self) -> (r: Option<String>)
        ensures
            match r {
                Some(s) => self.failure() == Some(s@),
                None => self.failure() is None,
            },
    {
        match &self.last_error {
            Some(s) => Some(s.clone()),
            None => None,
        }
    }

    /// Sets or lifts the rate limit; a limit of zero is none.
    pub fn set_rate_limit(&mut self, bps: Option<u64>)
        ensures
            final(self).control.limit() == (if bps == Some(0u64) {
                None
            } else {
                bps
            }),
            final(self).control.paused() == old(self).control.paused(),
            final(self).control.cancelled() == old(self).control.cancelled(),
            final(self).same_progress(*old(self)),
    {
        self.control.set_rate_limit(bps);
    }

    /// Whether phase, failure and statistics are those of `other`.
    pub open spec fn same_progress(self, other: TransferHandle) -> bool {
        self.stats == other.stats && self.at() == other.at() && self.failure() == other.failure()
    }

    /// The rate limit, if one is set.
    pub fn rate_limit_bps(&self) -> (r: Option<u64>)
        ensures
            r == self.control.limit(),
    {
        self.control.rate_limit_bps()
    }

    /// Slows the transfer to a trickle.
    pub fn pause(&mut self)
        ensures
            final(self).control.paused(),
            final(self).control.limit() == old(self).control.limit(),
            final(self).control.cancelled() == old(self).control.cancelled(),
            final(self).same_progress(*old(self)),
    {
        self.control.pause();
    }

    /// Ends a pause.
    pub fn resume(&mut self)
        ensures
            !final(self).control.paused(),
            final(self).control.limit() == old(self).control.limit(),
            final(self).control.cancelled() == old(self).control.cancelled(),
            final(self).same_progress(*old(self)),
    {
        self.control.resume();
    }

    /// Whether the transfer is paused.
    pub fn is_paused(&self) -> (r: bool)
        ensures
            r == self.control.paused(),
    {
        self.control.is_paused()
    }

    /// Asks the transfer to end.
    pub fn cancel(&mut self)
        ensures
            final(self).control.cancelled(),
            final(self).control.limit() == old(self).control.limit(),
            final(self).control.paused() == old(self).control.paused(),
            final(self).same_progress(*old(self)),
    {
        self.control.cancel();
    }

    /// Whether the transfer was asked to end.
    pub fn is_cancelled(&self) -> (r: bool)
        ensures
            r == self.control.cancelled(),
    {
        self.control.is_cancelled()
    }

    /// Moves to a phase. Any phase but `Failed` clears the last failure.
    pub fn set_phase(&mut self, phase: TransferPhase)
        ensures
            final(self).at() == phase,
            final(self).failure() == (if phase == TransferPhase::Failed {
                old(self).failure()
            } else {
                None
            }),
            final(self).stats == old(self).stats,
            final(self).control == old(self).control,
    {
        proof {
            phase_round_trip(phase);
        }
        if phase != TransferPhase::Failed {
            self.last_error = None;
        }
        self.phase = phase.as_u8();
    }

    /// Moves to `Failed`, keeping the text of the error.
    pub fn set_failed(&mut self, err: &GirthError)
        ensures
            final(self).at() == TransferPhase::Failed,
            final(self).failure() == Some(crate::error::error_text(*err)),
            final(self).stats == old(self).stats,
            final(self).control == old(self).control,
    {
        self.last_error = Some(err.message());
        self.phase = PHASE_FAILED;
    }

    /// Records how a transfer ended: a failure moves the handle to `Failed`,
    /// success leaves it as it is.
    pub fn mark_result(&mut self, res: &Result<(), GirthError>)
        ensures
            match *res {
                Ok(_) => *final(self) == *old(self),
                Err(e) => final(self).at() == TransferPhase::Failed && final(self).failure()
                    == Some(crate::error::error_text(e)) && final(self).stats == old(self).stats
                    && final(self).control == old(self).control,
            },
    {
        match res {
            Ok(_) => {},
            Err(e) => {
                self.set_failed(e);
            },
        }
    }
}

} // verus!
