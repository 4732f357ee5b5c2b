//! Re-segmentation of a live H.264 Annex-B byte stream into short,
//! independently playable segments.
//!
//! The crate holds the decisions of the streaming pipeline as verified
//! functions on plain values: where the units of the byte stream begin and
//! end, what kind of unit each one is, which parameter sets open a new
//! encoding session, when a session is full enough to be swapped, and which
//! segment ids are reserved, served and evicted. What these decisions add
//! up to over a whole stream is stated and proved in `pipeline`.

pub mod annexb;
pub mod classify;
pub mod scanner;
pub mod params;
pub mod pipeline;
pub mod segments;
pub mod session;
pub mod supervisor;
