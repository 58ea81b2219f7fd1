//! Persistence and reconciliation of per-device accelerator settings.
//!
//! On each startup a host process detects a set of accelerator devices and
//! hands them, together with whatever prior state could be loaded from disk,
//! to [`GpuStatusFile::new`]. Reconciliation keeps every freshly detected
//! fact (name, index, scheduling status) verbatim and selectively inherits
//! the persisted user settings, keyed by device index. Devices no longer
//! detected are dropped; a missing or corrupt prior file degrades to "no
//! inheritance" and never to an error (fail-open).

pub mod device;
pub mod store;

pub use device::GpuDevice;
pub use device::GpuSettings;
pub use device::GpuStatus;
pub use store::GpuStatusFile;
pub use store::StoreError;
