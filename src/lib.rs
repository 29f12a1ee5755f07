//! Frame-by-frame reading of an in-memory MPEG audio stream.
//!
//! The MPEG arithmetic itself is done by an outside decode primitive; this
//! crate holds the cursor over the source bytes, the peek cache and the
//! decisions taken on each outcome of the primitive.
pub mod cursor;
pub mod decoder;
pub mod laws;
