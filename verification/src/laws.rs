//! What holds of the library's operations, told by what goes in and what comes
//! out: how the results of calls relate to their arguments and to each other.

pub mod batches;
pub mod command_line;
pub mod courses;
pub mod handshake;
pub mod hosts;
pub mod losses;
pub mod names;
pub mod objects;
pub mod receiving;
pub mod reporting;
pub mod running;
pub mod secrecy;
pub mod sending;
pub mod texts;
pub mod wire;
