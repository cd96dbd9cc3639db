//! Match ingestion and notification pipeline for a roster of tracked players.
//!
//! The modules hold the decisions of each stage as verified functions: the
//! request queues, the deduplication of listed match identifiers, the
//! planning of what a match payload persists and announces, the wire format
//! of the cross-process channel, the evaluator and the leaderboard ranking.
//! The I/O around them (provider calls, storage, sockets, chat delivery) is
//! done by the caller.

mod text;

pub mod role;
pub mod model;
pub mod evaluator;
pub mod match_ids;
pub mod ingest;
pub mod ipc;
pub mod leaderboard;
pub mod queue;
pub mod dispatch;
pub mod ddragon;
pub mod store;
pub mod message;
pub mod provider;
