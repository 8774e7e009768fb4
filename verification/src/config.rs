//! Configuration the engine consumes: the resolved connection tuple, the
//! group identity shared by every key the engine watches, and the two read
//! tuning knobs.

use vstd::prelude::*;

verus! {

/// The resolved configuration tuple handed to a client: where to connect
/// and under which consumer-group identity to read.
#[derive(Clone, Debug, PartialEq, Eq)]
pub struct Config {
    /// backend connection string
    pub connection_string: String,
    /// name of the consumer group to join
    pub group_name: String,
    /// this client's consumer name within the group
    pub consumer_name: String,
}

/// The group identity of one engine instance: resolved once at
/// construction, immutable for the engine's lifetime, shared by every
/// stream key the engine watches.
#[derive(Clone, Debug, PartialEq, Eq)]
pub struct GroupBinding {
    /// the consumer group joined on every watched key
    pub group_name: String,
    /// this engine's consumer name within the group
    pub consumer_name: String,
}

/// How long one group-read call may block before returning empty (ms).
pub const DEFAULT_BLOCK_TIMEOUT_MS: usize = 5000;

/// How many entries one group-read call may return at most.
pub const DEFAULT_BATCH_COUNT: usize = 5;

/// The engine's read tuning: mutable only before the engine starts running
/// (builder style), immutable thereafter.
#[derive(Clone, Copy, Debug, PartialEq, Eq, Structural)]
pub struct EngineConfig {
    /// upper bound on how long a single read call may block (ms)
    pub block_timeout_ms: usize,
    /// upper bound on how many entries one read call may return
    pub batch_count: usize,
}

impl EngineConfig {
    /// The default tuning: a five-second block timeout and batches of five.
    pub fn new() -> (c: EngineConfig)
        ensures
            c.block_timeout_ms == DEFAULT_BLOCK_TIMEOUT_MS,
            c.batch_count == DEFAULT_BATCH_COUNT,
    {
        EngineConfig { block_timeout_ms: DEFAULT_BLOCK_TIMEOUT_MS, batch_count: DEFAULT_BATCH_COUNT }
    }

    /// Replaces the block timeout, leaving the batch count as it was.
    pub fn with_timeout(self, timeout: usize) -> (c: EngineConfig)
        ensures
            c.block_timeout_ms == timeout,
            c.batch_count == self.batch_count,
    {
        EngineConfig { block_timeout_ms: timeout, ..self }
    }

    /// Replaces the batch count, leaving the block timeout as it was.
    pub fn with_count(self, count: usize) -> (c: EngineConfig)
        ensures
            c.batch_count == count,
            c.block_timeout_ms == self.block_timeout_ms,
    {
        EngineConfig { batch_count: count, ..self }
    }
}

} // verus!
