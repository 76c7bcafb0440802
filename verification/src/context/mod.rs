//! Context window management: token estimation, usage tracking and compaction.
pub mod token;
pub mod tracker;
pub mod lines;
pub mod compact_messages;
pub mod compaction;
pub mod strategy;
pub mod skills;
pub mod orchestration;
pub mod execution;
