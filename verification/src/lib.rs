//! Verified core of girth, a rate-based reliable bulk transfer protocol over UDP
//! for paths with a high bandwidth-delay product.
//!
//! Two planes: a control plane (TCP) sets a session up, and a data plane (UDP)
//! moves the blocks. The receiver decides: it measures the round trip, asks for
//! lost blocks and, in adaptive mode, sets the rate. The sender paces, resends
//! what was asked for before anything new, and echoes timing ticks.

pub mod auth;
pub mod bytes;
pub mod cli;
pub mod control;
pub mod crypto;
pub mod delivery;
pub mod error;
pub mod heap;
pub mod io;
pub mod laws;
pub mod log;
pub mod losstracker;
pub mod protocol;
pub mod rate;
pub mod receiver;
pub mod runtime;
pub mod sender;
pub mod session;
pub mod stats;
pub mod sys;
pub mod text;
pub mod transfer;

pub use control::{default_params, TransferParams, MODE_RECV, MODE_SEND};
pub use error::GirthError;
pub use io::{source_crc32c, BlockSink, BlockSource, MemSink, MemSource};
pub use protocol::{DEFAULT_BLOCK_SIZE, PROTOCOL_VERSION};
pub use rate::RateWarmStart;
pub use runtime::{TransferControl, TransferHandle, TransferPhase};
pub use stats::{Stats, StatsSnapshot};
pub use transfer::ServerLimits;
