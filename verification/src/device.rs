use vstd::prelude::*;

verus! {

/// Scheduling hints for one accelerator device, recomputed by the external
/// detector on every run. They are stored for inspection but never treated
/// as authoritative across runs.
#[derive(Clone, Copy, Debug, PartialEq, Eq, Structural)]
pub struct GpuStatus {
    pub recommended_grid_size: u32,
    pub recommended_block_size: u32,
    pub max_grid_size: u32,
}

/// User intent for one device. Unlike [`GpuStatus`], these fields are
/// authoritative across runs: reconciliation carries them over from the
/// persisted file whenever a record with the same index exists.
#[derive(Clone, Copy, Debug, PartialEq, Eq, Structural)]
pub struct GpuSettings {
    /// Operator opt-out of using this device.
    pub is_excluded: bool,
    /// Last-known availability of the device.
    pub is_available: bool,
}

impl Default for GpuSettings {
    /// A device first seen has no user intent recorded: it is not excluded
    /// and assumed available.
    fn default() -> (r: Self)
        ensures
            r == (GpuSettings { is_excluded: false, is_available: true }),
    {
        GpuSettings { is_excluded: false, is_available: true }
    }
}

/// One accelerator device: identity, fresh scheduling status, and user
/// settings. `device_index` is the reconciliation key; the external detector
/// assigns it and keeps it stable run-to-run for the same physical device.
#[derive(Clone, Debug, PartialEq, Eq)]
pub struct GpuDevice {
    pub device_name: String,
    pub device_index: u32,
    pub status: GpuStatus,
    pub settings: GpuSettings,
}

} // verus!
