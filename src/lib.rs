//! Secure block-device erasure.
//!
//! A wipe overwrites every byte of a device with the passes of a named
//! method (repeating byte patterns and generator streams), optionally reading
//! each pass back. The [`wipe::Wiper`] engine decides every step of a wipe and
//! says which device operation comes next; its caller performs that operation
//! and reports the outcome.

pub mod context;
pub mod logging;
pub mod method;
pub mod mounts;
pub mod options;
pub mod prng;
pub mod progress;
pub mod stream;
pub mod supervisor;
pub mod version;
pub mod wipe;
