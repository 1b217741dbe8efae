//! Decisions of a launcher that opens and closes a Steam game until the
//! game has been started a fixed number of times: configuration handling,
//! process matching, load detection and the retry loop.

pub mod config;
pub mod cycle;
pub mod loading;
pub mod process;
pub mod string_or_seq;
pub mod system;
pub mod text;
pub mod threshold;
