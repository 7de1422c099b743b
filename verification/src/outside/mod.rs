//! What this crate takes from other crates, and from the standard library's formatter and
//! its lossy reading of bytes, one small wrapper per call.

pub mod bytes;
pub mod digest;
pub mod json;
pub mod random;
pub mod secret;
pub mod show;
