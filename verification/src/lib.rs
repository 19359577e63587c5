//! A resumable chunk-upload pipe: a sender splits a byte stream into chunks
//! and uploads them to a receiver, which feeds the bytes, in order and exactly
//! once, to the standard input of a subprocess it spawned for the job.
//!
//! The crate holds the protocol core: the receiver's job registry with its
//! position watermark, the chunk validation rules, the sender's retry and
//! duplicate-skip decisions, and the chunk assembly from short reads. The
//! delivery guarantees are stated and proved in `protocol`.

pub mod chunker;
pub mod errors;
pub mod jsonio;
pub mod numbers;
pub mod protocol;
pub mod registry;
pub mod sender;
