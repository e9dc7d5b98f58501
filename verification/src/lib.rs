//! Decode MRT routing dumps (`BGP4MP` updates and `TABLE_DUMP_V2` RIB snapshots) into rows.
//!
//! - [`decode`] — MRT records → [`decode::MrtRow`] / [`decode::PeerRow`], with per-record
//!   error capture; [`stream`] holds the bytes, [`mrt`] the parser underneath.
//! - [`scan`] — what a scan over sources yields; [`reader`] and [`peers`] — the producers
//!   that are held to it, with byte-offset resume.
//! - [`inet`] — IP / prefix → DuckDB `INET` struct fields; [`time`] — timestamps.
//! - [`aspath`], [`community`] — the helper functions; [`scalar`] — as SQL scalars.
//! - [`arrow_io`] — rows ↔ Arrow columns; [`columns`] — the Arrow calls underneath.
//! - [`cloud`], [`keys`], [`sources`], [`options`], [`secrets`] — from arguments to byte sources.
//! - [`table`], [`catalog`], [`meta`] — what the functions tell of themselves; [`json`].
//! - [`laws`] — what the functions are for, proved of every input.
use vstd::prelude::*;

pub mod arrow_io;
pub mod aspath;
pub mod bytes;
pub mod catalog;
pub mod cloud;
pub mod columns;
pub mod community;
pub mod decode;
pub mod error;
pub mod inet;
pub mod json;
pub mod keys;
pub mod laws;
pub mod meta;
pub mod mrt;
pub mod options;
pub mod peers;
pub mod percent;
pub mod reader;
pub mod scalar;
pub mod scan;
pub mod secrets;
pub mod sources;
pub mod stream;
pub mod table;
pub mod text;
pub mod time;
pub mod urls;

pub use crate::decode::Decoder;
pub use crate::decode::MrtRow;
pub use crate::decode::MsgType;
pub use crate::decode::PeerRow;
pub use crate::inet::encode as encode_inet;
pub use crate::inet::encode_ip;
pub use crate::inet::InetVal;

verus! {

/// The build version.
pub const VERSION: &'static str = "0.1.0";

/// The worker's own build version. Published as the catalog's `implementation_version`.
pub fn version() -> (text: &'static str)
    ensures
        text@ == VERSION@,
{
    VERSION
}

} // verus!
