//! Byte transport between two processes through a bounded ring buffer.
//!
//! The crate holds the protocol: the circular byte store that both endpoints
//! share, the cursor that spills a payload of any size through it chunk by
//! chunk, and the staging cache from which a reader reassembles the stream.

pub mod error;
pub mod reader;
pub mod ring;
pub mod sender;
pub mod stream;
