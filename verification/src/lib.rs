//! Core logic of a multi-tenant voice music bot: fair per-room queues with
//! vote-gated skip/stop, a byte ring buffer with an asynchronous bridge,
//! remote-stream bookkeeping (range resumption, live playlists), transport
//! stream demuxing state, speaker allocation, and the coordinator rules that
//! tie them together.
pub mod bridge;
pub mod config;
pub mod coordinator;
pub mod error;
pub mod hls;
pub mod messages;
pub mod model;
pub mod mpegts;
pub mod passthrough;
pub mod pipeline;
pub mod playlist;
pub mod remote;
pub mod ring;
pub mod song;
pub mod speaker;
pub mod time_bar;
