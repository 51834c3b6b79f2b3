//! Recording orchestration for tracked live channels.
//!
//! The library keeps a durable store of plans, history rows and per-channel
//! recording locks, a registry of the capture processes that this process
//! holds, and the procedures that keep the two in step: starting and stopping
//! a capture, the health check that reaps captures whose process has ended,
//! the poll of the plans, and the recovery that closes what an unclean
//! shutdown left open. The store decides whether a channel is being recorded;
//! the registry only remembers which process to signal.
//!
//! Launching, probing, signalling and awaiting processes, asking a platform
//! about a channel, and touching files are the caller's part: the library is
//! handed what came of them and says what follows.
//!
//! - [`model`]: the data, with the views that contracts speak of.
//! - [`wire`], [`rows`]: the byte format of stored values.
//! - [`keys`]: the key space of the store.
//! - [`kv`]: the store and its families of values.
//! - [`registry`]: the task registry.
//! - [`manager`]: the recording operations.
//! - [`backstage`]: recovery, health check and poll.
//! - [`consistency`]: what holds across operations.
//! - [`recorder`], [`platform`]: the platforms.
//! - [`ffmpeg`], [`utils`]: command lines and file names of captures.

pub mod backstage;
mod clock;
pub mod consistency;
pub mod error;
pub mod ffmpeg;
pub mod keys;
pub mod kv;
pub mod manager;
pub mod model;
pub mod platform;
pub mod recorder;
pub mod registry;
pub mod rows;
pub mod text;
pub mod utils;
pub mod wire;
