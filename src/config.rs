//! Daemon configuration and its range checks.
use vstd::prelude::*;

verus! {

#[derive(Clone, Debug)]
pub struct SharedMount {
    pub host_path: String,
    pub guest_path: String,
}

#[derive(Clone, Debug)]
pub struct Config {
    /// Guest memory in MiB, 256 to 65536.
    pub memory_mb: u32,
    /// Ring buffer size in MiB, 4 to 1024.
    pub ringbuf_mb: u32,
    /// Path of the block backing file.
    pub vblk_backing: String,
    /// Depth of the VBLK queue, 1 to 1024.
    pub vblk_queue_depth: u32,
    /// "bridge" or "nat".
    pub vnet_mode: String,
    pub console_mode: String,
    pub shared: SharedMount,
    /// Scheduler quantum per tick, 1 to 100000.
    pub tick_budget: u32,
}

/// The first range a configuration breaks.
#[derive(Clone, Copy, Debug, PartialEq, Eq, Structural)]
pub enum ConfigError {
    MemoryOutOfRange,
    RingbufOutOfRange,
    QueueDepthOutOfRange,
    TickBudgetOutOfRange,
    BackingNotFound,
}

/// The first check that `cfg` fails, in the order they are made; `None` when
/// it passes them all. `backing_exists` tells whether the backing file exists.
pub open spec fn config_error(cfg: Config, backing_exists: bool) -> Option<ConfigError> {
    if cfg.memory_mb < 256 || cfg.memory_mb > 65536 {
        Some(ConfigError::MemoryOutOfRange)
    } else if cfg.ringbuf_mb < 4 || cfg.ringbuf_mb > 1024 {
        Some(ConfigError::RingbufOutOfRange)
    } else if cfg.vblk_queue_depth == 0 || cfg.vblk_queue_depth > 1024 {
        Some(ConfigError::QueueDepthOutOfRange)
    } else if cfg.tick_budget == 0 || cfg.tick_budget > 100_000 {
        Some(ConfigError::TickBudgetOutOfRange)
    } else if !backing_exists {
        Some(ConfigError::BackingNotFound)
    } else {
        None
    }
}

/// Checks the ranges of `cfg`; `backing_exists` tells whether the backing
/// file was found.
pub fn validate(cfg: &Config, backing_exists: bool) -> (r: Result<(), ConfigError>)
    ensures
        match config_error(*cfg, backing_exists) {
            Some(e) => r == Err::<(), ConfigError>(e),
            None => r is Ok,
        },
{
    if cfg.memory_mb < 256 || cfg.memory_mb > 65536 {
        return Err(ConfigError::MemoryOutOfRange);
    }
    if cfg.ringbuf_mb < 4 || cfg.ringbuf_mb > 1024 {
        return Err(ConfigError::RingbufOutOfRange);
    }
    if cfg.vblk_queue_depth == 0 || cfg.vblk_queue_depth > 1024 {
        return Err(ConfigError::QueueDepthOutOfRange);
    }
    if cfg.tick_budget == 0 || cfg.tick_budget > 100_000 {
        return Err(ConfigError::TickBudgetOutOfRange);
    }
    if !backing_exists {
        return Err(ConfigError::BackingNotFound);
    }
    Ok(())
}

/// Number of 4 KiB pages in `memory_mb` MiB.
pub fn shared_pages(memory_mb: u32) -> (r: u32)
    requires
        memory_mb < 0x100_0000,
    ensures
        r == memory_mb * 256,
{
    memory_mb * 256
}

} // verus!
