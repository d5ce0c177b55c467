//! HLS playback engine for an embedded internet-radio player.
//!
//! The library holds the verified core of the player: manifest resolution and
//! variant selection, the stateful media-playlist walk (sequence tracking,
//! discontinuity and end-of-stream detection), the bounded segment queue that
//! bridges the fetching and playing threads, the channel-switch protocol, and
//! the retry/backoff policy. Network transfers, thread spawning and the
//! control-bus transport live outside the library and hand it plain values.

pub mod config;
pub mod control;
pub mod error;
pub mod playlist;
pub mod queue;
pub mod resolve;
pub mod session;
