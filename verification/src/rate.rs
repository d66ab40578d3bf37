//! Injection-rate configuration: the policy, its limits and their defaults, and
//! the warm-start values that one transfer hands to the next.
//!
//! Times are in microseconds, rates in bits per second.

use vstd::prelude::*;

verus! {

/// Measurement precision (1 ms) added to due times.
pub const RTT_PREC_US: u64 = 1000;

/// Lowest rate of a controller that was given no floor: 64 kbit/s.
pub const DEFAULT_MIN_BPS: u64 = 64_000;

/// Highest rate of a controller that was given no ceiling: 10 Gbit/s.
pub const DEFAULT_MAX_BPS: u64 = 10_000_000_000;

/// Adaptation factor of a controller that was given none: 30 Mbit/s.
pub const DEFAULT_ALPHA_BPS: u64 = 30_000_000;

/// Selects the injection-rate policy.
#[derive(Debug, Clone, Copy, PartialEq, Eq, Structural)]
pub enum RateMode {
    /// Constant target injection rate (predictable transfer time; the primary
    /// mode for dedicated links).
    Fixed,
    /// Delay-based equation control: ramps toward available bandwidth and backs
    /// off as queuing delay builds.
    Adaptive,
}

/// The limits of the injection rate and how it is chosen between them.
#[derive(Debug, Clone, Copy, PartialEq, Eq, Structural)]
pub struct RateConfig {
    pub mode: RateMode,
    pub target_bps: u64,
    pub min_bps: u64,
    pub max_bps: u64,
    /// Adaptation factor (bits/s) of the rate equation. Adaptive mode only.
    pub alpha: u64,
}

impl RateConfig {
    /// The configuration with every zero limit replaced by its default.
    pub open spec fn filled(self) -> RateConfig {
        RateConfig {
            mode: self.mode,
            target_bps: self.target_bps,
            min_bps: if self.min_bps == 0 {
                DEFAULT_MIN_BPS
            } else {
                self.min_bps
            },
            max_bps: if self.max_bps == 0 {
                DEFAULT_MAX_BPS
            } else {
                self.max_bps
            },
            alpha: if self.alpha == 0 {
                DEFAULT_ALPHA_BPS
            } else {
                self.alpha
            },
        }
    }

    /// Replaces every zero limit by its default.
    pub fn with_defaults(self) -> (r: RateConfig)
        ensures
            r == self.filled(),
    {
        let mut cfg = self;
        if cfg.min_bps == 0 {
            cfg.min_bps = DEFAULT_MIN_BPS;
        }
        if cfg.max_bps == 0 {
            cfg.max_bps = DEFAULT_MAX_BPS;
        }
        if cfg.alpha == 0 {
            cfg.alpha = DEFAULT_ALPHA_BPS;
        }
        cfg
    }

    /// The rate that the starting rate is derived from: the target as it stands
    /// in fixed mode; in adaptive mode the ceiling where the target is absent or
    /// above it.
    pub fn start_bps(&self) -> (r: u64)
        ensures
            r == (if self.mode == RateMode::Adaptive && (self.target_bps == 0 || self.target_bps
                > self.max_bps) {
                self.max_bps
            } else {
                self.target_bps
            }),
    {
        if self.mode == RateMode::Adaptive && (self.target_bps == 0 || self.target_bps
            > self.max_bps) {
            self.max_bps
        } else {
            self.target_bps
        }
    }

    /// The rate that a sender starts from before any feedback: the target, or
    /// the ceiling where there is no target.
    pub open spec fn initial(self) -> u64 {
        if self.target_bps == 0 {
            self.max_bps
        } else {
            self.target_bps
        }
    }

    /// The rate that a sender starts from before any feedback.
    pub fn initial_bps(&self) -> (r: u64)
        ensures
            r == self.initial(),
    {
        if self.target_bps == 0 {
            self.max_bps
        } else {
            self.target_bps
        }
    }
}

/// What a finished transfer learned of the path, for the next one to start from.
#[derive(Debug, Clone, Copy, PartialEq, Eq, Structural)]
pub struct RateWarmStart {
    pub rate_bps: u64,
    pub srtt_net_us: u64,
    pub base_rtt_us: u64,
}

impl Default for RateWarmStart {
    fn default() -> (r: Self)
        ensures
            r == (RateWarmStart { rate_bps: 0, srtt_net_us: 0, base_rtt_us: 0 }),
    {
        RateWarmStart { rate_bps: 0, srtt_net_us: 0, base_rtt_us: 0 }
    }
}

impl RateWarmStart {
    /// Nothing was learned.
    pub open spec fn empty(self) -> bool {
        self.rate_bps == 0 && self.srtt_net_us == 0 && self.base_rtt_us == 0
    }

    /// Whether nothing was learned.
    pub fn is_empty(self) -> (r: bool)
        ensures
            r == self.empty(),
    {
        self.rate_bps == 0 && self.srtt_net_us == 0 && self.base_rtt_us == 0
    }
}

} // verus!
