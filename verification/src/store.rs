use vstd::prelude::*;

use crate::device::GpuDevice;
use crate::device::GpuSettings;

verus! {

/// Why a persisted settings file could not be read or written. The caller
/// decides whether to abort or continue; none of these is process-fatal.
#[derive(Clone, Copy, Debug, PartialEq, Eq, Structural)]
pub enum StoreError {
    /// The path does not exist or is not accessible.
    Read,
    /// The content at the path is not valid for the expected schema.
    Parse,
    /// Writing the file failed.
    Write,
}

/// The persisted structure: the ordered list of devices with their settings.
#[derive(Clone, Debug, PartialEq, Eq)]
pub struct GpuStatusFile {
    pub gpu_devices: Vec<GpuDevice>,
}

impl Default for GpuStatusFile {
    /// A fresh file lists no devices.
    fn default() -> (r: Self)
        ensures
            r.gpu_devices@ == Seq::<GpuDevice>::empty(),
    {
        GpuStatusFile { gpu_devices: Vec::new() }
    }
}

/// The first settings persisted under `device_index`, scanning `prior` front
/// to back; `None` when no prior record carries that index. When duplicate
/// indices were persisted, the first match wins.
pub open spec fn find_prior_settings(prior: Seq<GpuDevice>, device_index: u32) -> Option<GpuSettings>
    decreases prior.len(),
{
    if prior.len() == 0 {
        None
    } else if prior[0].device_index == device_index {
        Some(prior[0].settings)
    } else {
        find_prior_settings(prior.drop_first(), device_index)
    }
}

/// The settings a detected device ends up with: inherited from the first
/// prior record with the same index, or kept as detected when none matches.
pub open spec fn resolved_settings(detected: GpuDevice, prior: Seq<GpuDevice>) -> GpuSettings {
    match find_prior_settings(prior, detected.device_index) {
        Some(s) => s,
        None => detected.settings,
    }
}

/// A detected device after reconciliation: name, index and status are the
/// freshly detected facts, verbatim; only the settings are inherited.
pub open spec fn resolved_device(detected: GpuDevice, prior: Seq<GpuDevice>) -> GpuDevice {
    GpuDevice {
        device_name: detected.device_name,
        device_index: detected.device_index,
        status: detected.status,
        settings: resolved_settings(detected, prior),
    }
}

/// Reconciliation of a whole detection run against the prior records: the
/// result matches the detected sequence one-to-one in order and length.
pub open spec fn reconciled(detected: Seq<GpuDevice>, prior: Seq<GpuDevice>) -> Seq<GpuDevice> {
    detected.map_values(|d: GpuDevice| resolved_device(d, prior))
}

/// The device list available from a load attempt: the loaded records, or no
/// records at all when nothing usable was persisted (missing, unreadable or
/// corrupt file). This is the fail-open default.
pub open spec fn prior_devices(loaded: Option<GpuStatusFile>) -> Seq<GpuDevice> {
    match loaded {
        Some(file) => file.gpu_devices@,
        None => Seq::empty(),
    }
}

/// First-match lookup of persisted settings by device index.
pub fn find_settings_by_index(prior: &Vec<GpuDevice>, device_index: u32) -> (r: Option<GpuSettings>)
    ensures
        r == find_prior_settings(prior@, device_index),
{
    let n: usize = prior.len();
    let mut j: usize = 0;
    proof {
        assert(prior@.subrange(0, n as int) =~= prior@);
    }
    while j < n
        invariant
            j <= n,
            n == prior@.len(),
            find_prior_settings(prior@, device_index) == find_prior_settings(
                prior@.subrange(j as int, n as int),
                device_index,
            ),
        decreases n - j,
    {
        if prior[j].device_index == device_index {
            proof {
                assert(prior@.subrange(j as int, n as int)[0] == prior@[j as int]);
            }
            return Some(prior[j].settings);
        }
        proof {
            assert(prior@.subrange(j as int, n as int)[0] == prior@[j as int]);
            assert(prior@.subrange(j as int, n as int).drop_first() =~= prior@.subrange(
                j as int + 1,
                n as int,
            ));
        }
        j = j + 1;
    }
    proof {
        assert(prior@.subrange(n as int, n as int) =~= Seq::<GpuDevice>::empty());
    }
    None
}

impl GpuStatusFile {
    /// Reconciliation on construction: merges the freshly detected devices
    /// with whatever prior state the caller managed to load. `loaded` is
    /// `None` when no usable file was persisted; reconciliation itself never
    /// fails.
    pub fn new(gpu_devices: Vec<GpuDevice>, loaded: Option<GpuStatusFile>) -> (r: Self)
        ensures
            r.gpu_devices@ == reconciled(gpu_devices@, prior_devices(loaded)),
            r.gpu_devices@.len() == gpu_devices@.len(),
            loaded is None ==> r.gpu_devices@ == gpu_devices@,
    {
        let resolved_gpu_file_content = Self::resolve_settings_for_detected_devices(
            gpu_devices,
            loaded,
        );
        Self { gpu_devices: resolved_gpu_file_content }
    }

    /// The core merge pass: every detected device, in detection order, keeps
    /// its own name, index and status and takes the settings of the first
    /// prior record with the same index, if any. Prior records whose index
    /// was not detected this run contribute nothing.
    pub fn resolve_settings_for_detected_devices(
        gpu_devices: Vec<GpuDevice>,
        loaded: Option<GpuStatusFile>,
    ) -> (r: Vec<GpuDevice>)
        ensures
            r@ == reconciled(gpu_devices@, prior_devices(loaded)),
            r@.len() == gpu_devices@.len(),
            loaded is None ==> r@ == gpu_devices@,
    {
        proof {
            if loaded is None {
                lemma_reconcile_empty_prior(gpu_devices@);
            }
        }
        let ghost prior_snapshot = prior_devices(loaded);
        let prior: Vec<GpuDevice> = match loaded {
            Some(file) => file.gpu_devices,
            None => Vec::new(),
        };
        let ghost detected = gpu_devices@;
        let mut remaining = gpu_devices;
        let mut resolved: Vec<GpuDevice> = Vec::new();
        while remaining.len() > 0
            invariant
                prior@ == prior_snapshot,
                resolved@.len() + remaining@.len() == detected.len(),
                remaining@ =~= detected.subrange(resolved@.len() as int, detected.len() as int),
                forall|i: int|
                    0 <= i < resolved@.len() ==> #[trigger] resolved@[i] == resolved_device(
                        detected[i],
                        prior@,
                    ),
            decreases remaining@.len(),
        {
            let ghost k: int = resolved@.len() as int;
            proof {
                assert(remaining@[0] == detected.subrange(k, detected.len() as int)[0]);
                assert(remaining@.remove(0) =~= detected.subrange(k + 1, detected.len() as int));
            }
            let d = remaining.remove(0);
            let settings = match find_settings_by_index(&prior, d.device_index) {
                Some(s) => s,
                None => d.settings,
            };
            resolved.push(
                GpuDevice {
                    device_name: d.device_name,
                    device_index: d.device_index,
                    status: d.status,
                    settings,
                },
            );
        }
        proof {
            assert(resolved@ =~= reconciled(detected, prior_snapshot));
        }
        resolved
    }
}

/// Fail-open identity: reconciling against no prior records — the state a
/// missing, unreadable or corrupt settings file degrades to, and equally the
/// content of an empty file — returns the detected devices unchanged.
pub proof fn lemma_reconcile_empty_prior(detected: Seq<GpuDevice>)
    ensures
        reconciled(detected, Seq::empty()) == detected,
{
    assert forall|i: int| 0 <= i < detected.len() implies reconciled(
        detected,
        Seq::<GpuDevice>::empty(),
    )[i] == detected[i] by {
        assert(resolved_device(detected[i], Seq::empty()) == detected[i]);
    }
    assert(reconciled(detected, Seq::empty()) =~= detected);
}

/// Cardinality preservation: reconciliation returns exactly one record per
/// detected device, whatever the prior records hold.
pub proof fn lemma_reconcile_preserves_cardinality(detected: Seq<GpuDevice>, prior: Seq<GpuDevice>)
    ensures
        reconciled(detected, prior).len() == detected.len(),
{
}

/// Settings inheritance: when some prior record carries the detected
/// device's index, the reconciled record takes exactly the first matching
/// prior settings while keeping the detected name, index and status.
pub proof fn lemma_settings_inherited(
    detected: Seq<GpuDevice>,
    prior: Seq<GpuDevice>,
    i: int,
    s: GpuSettings,
)
    requires
        0 <= i < detected.len(),
        find_prior_settings(prior, detected[i].device_index) == Some(s),
    ensures
        reconciled(detected, prior)[i].settings == s,
        reconciled(detected, prior)[i].device_name == detected[i].device_name,
        reconciled(detected, prior)[i].device_index == detected[i].device_index,
        reconciled(detected, prior)[i].status == detected[i].status,
{
}

/// No inheritance for unseen indices: a detected device whose index has no
/// match among the prior records comes out of reconciliation unchanged.
pub proof fn lemma_unmatched_device_unchanged(
    detected: Seq<GpuDevice>,
    prior: Seq<GpuDevice>,
    i: int,
)
    requires
        0 <= i < detected.len(),
        find_prior_settings(prior, detected[i].device_index) is None,
    ensures
        reconciled(detected, prior)[i] == detected[i],
{
    assert(resolved_device(detected[i], prior) == detected[i]);
}

/// Drop of stale entries: an index absent from the detection run is absent
/// from the reconciled result, no matter what the prior records hold.
pub proof fn lemma_stale_index_dropped(
    detected: Seq<GpuDevice>,
    prior: Seq<GpuDevice>,
    device_index: u32,
)
    requires
        forall|i: int| 0 <= i < detected.len() ==> detected[i].device_index != device_index,
    ensures
        forall|i: int|
            0 <= i < reconciled(detected, prior).len() ==> reconciled(
                detected,
                prior,
            )[i].device_index != device_index,
{
}

} // verus!
