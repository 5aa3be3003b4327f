//! Saving and restoring a microVM: the aggregate state assembler, the
//! snapshot orchestrator, the compatibility guard, and the error taxonomy.
//!
//! The orchestrator works on byte images: the snapshot state file and the
//! memory backing file are `Vec<u8>` values whose contents these functions
//! pin down exactly; reading and writing the actual files, and querying the
//! host CPU, stay with the caller.

use vstd::prelude::*;
use vstd::string::*;
use vstd::bytes::spec_u32_to_le_bytes;
use crate::memory_snapshot;
use crate::memory_snapshot::{
    describe, dump, dump_dirty, mem_size_bytes, mem_size_mib, restore, spec_describe, spec_dump,
    spec_dump_dirty, spec_restore_ok, spec_restored_regions, DirtyBitmap, GuestMemoryMap,
    GuestMemoryState,
};
use crate::snapshot;
use crate::snapshot::{spec_load_result, spec_save_bytes, Snapshot};
use crate::state::{
    ascii_chars, clone_device_states, clone_vcpu_states, clone_vm_state, push_bytes_as_chars,
    push_dec_u64, spec_dec_str, vcpus_view, CpuidEntry, DeviceStates, MicrovmState, MicrovmStateV,
    VcpuState, VmInfo, VmState,
};
use crate::version_map::{
    fc_version_to_snap_version, spec_translate, VersionMap, VersionedType, FC_V0_23_SNAP_VERSION,
};
use crate::codec::enc_microvm_state;

verus! {

/// Number of numeric IRQs that the first snapshot format's interrupt
/// routing knows about.
pub const FC_V0_23_IRQ_NUMBER: u32 = 16;

/// First numeric IRQ available to MMIO devices.
pub const IRQ_BASE: u32 = 5;

/// Each MMIO device consumes one IRQ of the window `[IRQ_BASE,
/// FC_V0_23_IRQ_NUMBER)`: the device-count limit of the first snapshot
/// format.
pub const FC_V0_23_MAX_DEVICES: u32 = FC_V0_23_IRQ_NUMBER - IRQ_BASE;

/// Whether all guest RAM, or only the pages dirtied since tracking began,
/// goes to the memory backing file.
#[derive(Debug, Clone, Copy, PartialEq, Eq, Structural)]
pub enum SnapshotType {
    Diff,
    Full,
}

/// What a snapshot-creation request carries, besides the two file paths the
/// caller writes to.
pub struct CreateSnapshotParams {
    pub snapshot_type: SnapshotType,
    /// Target product version tag; the version map's latest data version
    /// when absent.
    pub version: Option<String>,
}

/// What a snapshot-load request carries, besides the two file paths the
/// caller reads from.
pub struct LoadSnapshotParams {
    pub enable_diff_snapshots: bool,
}

/// The live microVM as the persistence core sees it: guest memory, VM-wide
/// hardware state, one record per VCPU, the attached devices' states, and
/// the dirty bitmap the virtualization layer hands out (absent when dirty
/// tracking is off).
#[derive(Debug, PartialEq)]
pub struct Vmm {
    pub guest_memory: GuestMemoryMap,
    pub vm_state: VmState,
    pub vcpu_states: Vec<VcpuState>,
    pub device_states: DeviceStates,
    pub dirty_bitmap: Option<DirtyBitmap>,
}

impl Vmm {
    pub open spec fn wf(&self) -> bool {
        &&& self.guest_memory.wf()
        &&& self.vcpu_states@.len() >= 1
        &&& self.device_states.block_devices@.len() + self.device_states.net_devices@.len() + 2
            <= usize::MAX
    }

    /// The aggregate that `save_state` assembles: live memory size and
    /// descriptor, plus each collaborator's state.
    pub open spec fn spec_save_state(&self) -> MicrovmStateV {
        MicrovmStateV {
            vm_info: VmInfo {
                mem_size_mib: (self.guest_memory.spec_mem_size() / 0x100000) as u64,
            },
            memory_state: spec_describe(self.guest_memory.view_regions()),
            vm_state: self.vm_state@,
            vcpu_states: vcpus_view(self.vcpu_states@),
            device_states: self.device_states@,
        }
    }

    /// IRQs in use: one per attached MMIO device.
    pub open spec fn spec_used_irqs_count(&self) -> int {
        self.device_states.block_devices@.len() + self.device_states.net_devices@.len() + (
        if self.device_states.vsock_device is Some {
            1int
        } else {
            0int
        }) + (
        if self.device_states.balloon_device is Some {
            1int
        } else {
            0int
        })
    }

    pub fn used_irqs_count(&self) -> (r: usize)
        requires
            self.wf(),
        ensures
            r == self.spec_used_irqs_count(),
    {
        let mut count: usize = self.device_states.block_devices.len()
            + self.device_states.net_devices.len();
        if self.device_states.vsock_device.is_some() {
            count = count + 1;
        }
        if self.device_states.balloon_device.is_some() {
            count = count + 1;
        }
        count
    }

    /// Collects the per-subsystem state into the aggregate root. The caller
    /// pauses all VCPUs first; this only reads.
    pub fn save_state(&self) -> (r: MicrovmState)
        requires
            self.wf(),
        ensures
            r@ == self.spec_save_state(),
    {
        let r = MicrovmState {
            vm_info: VmInfo { mem_size_mib: mem_size_mib(&self.guest_memory) },
            memory_state: describe(&self.guest_memory),
            vm_state: clone_vm_state(&self.vm_state),
            vcpu_states: clone_vcpu_states(&self.vcpu_states),
            device_states: clone_device_states(&self.device_states),
        };
        proof {
            assert(vcpus_view(r.vcpu_states@) =~= vcpus_view(self.vcpu_states@));
            assert(r@.memory_state =~= self.spec_save_state().memory_state);
        }
        r
    }

    pub fn guest_memory(&self) -> (r: &GuestMemoryMap)
        ensures
            r == &self.guest_memory,
    {
        &self.guest_memory
    }
}

/// Errors of saving or restoring the microVM substates; the collaborator's
/// detail rides along.
#[derive(Debug, Clone, PartialEq)]
pub enum MicrovmStateError {
    /// Provided microVM state is invalid.
    InvalidInput,
    /// Operation not allowed.
    NotAllowed(String),
    /// Failed to restore devices.
    RestoreDevices(String),
    /// Failed to restore VCPU state.
    RestoreVcpuState(String),
    /// Failed to restore VM state.
    RestoreVmState(String),
    /// Failed to save VCPU state.
    SaveVcpuState(String),
    /// Failed to save VM state.
    SaveVmState(String),
    /// Failed to signal a VCPU.
    SignalVcpu(String),
    /// A VCPU answered with something unexpected.
    UnexpectedVcpuResponse,
}

impl MicrovmStateError {
    pub open spec fn spec_message(&self) -> Seq<char> {
        match self {
            MicrovmStateError::InvalidInput => "Provided MicroVM state is invalid."@,
            MicrovmStateError::NotAllowed(msg) => "Operation not allowed: "@ + msg@,
            MicrovmStateError::RestoreDevices(e) => "Cannot restore devices. Error: "@ + e@,
            MicrovmStateError::RestoreVcpuState(e) => "Cannot restore Vcpu state. Error: "@ + e@,
            MicrovmStateError::RestoreVmState(e) => "Cannot restore Vm state. Error: "@ + e@,
            MicrovmStateError::SaveVcpuState(e) => "Cannot save Vcpu state. Error: "@ + e@,
            MicrovmStateError::SaveVmState(e) => "Cannot save Vm state. Error: "@ + e@,
            MicrovmStateError::SignalVcpu(e) => "Cannot signal Vcpu: "@ + e@,
            MicrovmStateError::UnexpectedVcpuResponse => "Vcpu is in unexpected state."@,
        }
    }

    /// One-line human rendering, with the wrapped detail.
    pub fn message(&self) -> (r: String)
        ensures
            r@ == self.spec_message(),
            r@.len() > 0,
    {
        let mut s: String = String::new();
        match self {
            MicrovmStateError::InvalidInput => {
                s.append("Provided MicroVM state is invalid.");
            },
            MicrovmStateError::NotAllowed(msg) => {
                s.append("Operation not allowed: ");
                s.append(msg.as_str());
            },
            MicrovmStateError::RestoreDevices(e) => {
                s.append("Cannot restore devices. Error: ");
                s.append(e.as_str());
            },
            MicrovmStateError::RestoreVcpuState(e) => {
                s.append("Cannot restore Vcpu state. Error: ");
                s.append(e.as_str());
            },
            MicrovmStateError::RestoreVmState(e) => {
                s.append("Cannot restore Vm state. Error: ");
                s.append(e.as_str());
            },
            MicrovmStateError::SaveVcpuState(e) => {
                s.append("Cannot save Vcpu state. Error: ");
                s.append(e.as_str());
            },
            MicrovmStateError::SaveVmState(e) => {
                s.append("Cannot save Vm state. Error: ");
                s.append(e.as_str());
            },
            MicrovmStateError::SignalVcpu(e) => {
                s.append("Cannot signal Vcpu: ");
                s.append(e.as_str());
            },
            MicrovmStateError::UnexpectedVcpuResponse => {
                s.append("Vcpu is in unexpected state.");
            },
        }
        proof {
            reveal_strlit("Provided MicroVM state is invalid.");
            reveal_strlit("Operation not allowed: ");
            reveal_strlit("Cannot restore devices. Error: ");
            reveal_strlit("Cannot restore Vcpu state. Error: ");
            reveal_strlit("Cannot restore Vm state. Error: ");
            reveal_strlit("Cannot save Vcpu state. Error: ");
            reveal_strlit("Cannot save Vm state. Error: ");
            reveal_strlit("Cannot signal Vcpu: ");
            reveal_strlit("Vcpu is in unexpected state.");
        }
        s
    }
}

/// Errors of creating a snapshot.
#[derive(Debug, Clone, PartialEq)]
pub enum CreateSnapshotError {
    /// The dirty bitmap is unavailable (dirty tracking is off).
    DirtyBitmap,
    /// The product version tag translates to no snapshot data version.
    InvalidVersion,
    /// The VM state cannot be saved.
    InvalidVmState(String),
    /// Memory bytes cannot be written out.
    Memory(memory_snapshot::Error),
    /// The memory backing file cannot be opened.
    MemoryBackingFile(String),
    /// A substate cannot be saved.
    MicrovmState(MicrovmStateError),
    /// The state does not serialize at the chosen data version.
    SerializeMicrovmState(snapshot::Error),
    /// The snapshot backing file cannot be opened.
    SnapshotBackingFile(String),
    /// More devices are attached than the chosen data version allows; holds
    /// the actual count.
    TooManyDevices(usize),
}

impl CreateSnapshotError {
    pub open spec fn spec_message(&self) -> Seq<char> {
        match self {
            CreateSnapshotError::DirtyBitmap => "Cannot get dirty bitmap"@,
            CreateSnapshotError::InvalidVersion =>
                "Cannot translate microVM version to snapshot data version"@,
            CreateSnapshotError::InvalidVmState(e) => "Cannot save Vm state. Error: "@ + e@,
            CreateSnapshotError::Memory(e) => "Cannot write memory file: "@ + e.spec_message(),
            CreateSnapshotError::MemoryBackingFile(e) => "Cannot open memory file: "@ + e@,
            CreateSnapshotError::MicrovmState(e) => "Cannot save microvm state: "@
                + e.spec_message(),
            CreateSnapshotError::SerializeMicrovmState(e) => "Cannot serialize MicrovmState: "@
                + e.spec_message(),
            CreateSnapshotError::SnapshotBackingFile(e) => "Cannot open snapshot file: "@ + e@,
            CreateSnapshotError::TooManyDevices(n) => "Too many devices attached: "@ + spec_dec_str(
                *n as int,
            ) + ". The maximum number allowed for the snapshot data version requested is "@
                + spec_dec_str(FC_V0_23_MAX_DEVICES as int) + "."@,
        }
    }

    /// One-line human rendering, with the wrapped detail.
    pub fn message(&self) -> (r: String)
        ensures
            r@ == self.spec_message(),
            r@.len() > 0,
    {
        let mut s: String = String::new();
        match self {
            CreateSnapshotError::DirtyBitmap => {
                s.append("Cannot get dirty bitmap");
            },
            CreateSnapshotError::InvalidVersion => {
                s.append("Cannot translate microVM version to snapshot data version");
            },
            CreateSnapshotError::InvalidVmState(e) => {
                s.append("Cannot save Vm state. Error: ");
                s.append(e.as_str());
            },
            CreateSnapshotError::Memory(e) => {
                s.append("Cannot write memory file: ");
                let inner = e.message();
                s.append(inner.as_str());
            },
            CreateSnapshotError::MemoryBackingFile(e) => {
                s.append("Cannot open memory file: ");
                s.append(e.as_str());
            },
            CreateSnapshotError::MicrovmState(e) => {
                s.append("Cannot save microvm state: ");
                let inner = e.message();
                s.append(inner.as_str());
            },
            CreateSnapshotError::SerializeMicrovmState(e) => {
                s.append("Cannot serialize MicrovmState: ");
                let inner = e.message();
                s.append(inner.as_str());
            },
            CreateSnapshotError::SnapshotBackingFile(e) => {
                s.append("Cannot open snapshot file: ");
                s.append(e.as_str());
            },
            CreateSnapshotError::TooManyDevices(n) => {
                s.append("Too many devices attached: ");
                push_dec_u64(&mut s, *n as u64);
                s.append(
                    ". The maximum number allowed for the snapshot data version requested is ",
                );
                push_dec_u64(&mut s, FC_V0_23_MAX_DEVICES as u64);
                s.append(".");
            },
        }
        proof {
            reveal_strlit("Cannot get dirty bitmap");
            reveal_strlit("Cannot translate microVM version to snapshot data version");
            reveal_strlit("Cannot save Vm state. Error: ");
            reveal_strlit("Cannot write memory file: ");
            reveal_strlit("Cannot open memory file: ");
            reveal_strlit("Cannot save microvm state: ");
            reveal_strlit("Cannot serialize MicrovmState: ");
            reveal_strlit("Cannot open snapshot file: ");
            reveal_strlit("Too many devices attached: ");
            reveal_strlit(". The maximum number allowed for the snapshot data version requested is ");
            reveal_strlit(".");
        }
        s
    }
}

/// Errors of loading a snapshot.
#[derive(Debug, Clone, PartialEq)]
pub enum LoadSnapshotError {
    /// A microVM cannot be built from the snapshot.
    BuildMicroVm(String),
    /// The memory backing file does not match the memory descriptor.
    DeserializeMemory(memory_snapshot::Error),
    /// The snapshot file does not parse.
    DeserializeMicrovmState(snapshot::Error),
    /// The memory backing file cannot be opened.
    MemoryBackingFile(String),
    /// The VM cannot be resumed after loading.
    ResumeMicroVm(String),
    /// The snapshot backing file cannot be opened.
    SnapshotBackingFile(String),
    /// The snapshot backing file's metadata cannot be read.
    SnapshotBackingFileMetadata(String),
    /// The snapshot's CPU vendor differs from the host's, or a vendor
    /// cannot be read.
    CpuVendorMismatch(String),
}

impl LoadSnapshotError {
    pub open spec fn spec_message(&self) -> Seq<char> {
        match self {
            LoadSnapshotError::BuildMicroVm(e) => "Cannot build a microVM from snapshot: "@ + e@,
            LoadSnapshotError::DeserializeMemory(e) => "Cannot deserialize memory: "@
                + e.spec_message(),
            LoadSnapshotError::DeserializeMicrovmState(e) => "Cannot deserialize MicrovmState: "@
                + e.spec_message(),
            LoadSnapshotError::MemoryBackingFile(e) => "Cannot open memory file: "@ + e@,
            LoadSnapshotError::ResumeMicroVm(e) => "Failed to resume Vm after loading snapshot: "@
                + e@,
            LoadSnapshotError::SnapshotBackingFile(e) => "Cannot open snapshot file: "@ + e@,
            LoadSnapshotError::SnapshotBackingFileMetadata(e) => "Cannot retrieve file metadata: "@
                + e@,
            LoadSnapshotError::CpuVendorMismatch(e) => "Snapshot cpu vendor mismatch: "@ + e@,
        }
    }

    /// One-line human rendering, with the wrapped detail.
    pub fn message(&self) -> (r: String)
        ensures
            r@ == self.spec_message(),
            r@.len() > 0,
    {
        let mut s: String = String::new();
        match self {
            LoadSnapshotError::BuildMicroVm(e) => {
                s.append("Cannot build a microVM from snapshot: ");
                s.append(e.as_str());
            },
            LoadSnapshotError::DeserializeMemory(e) => {
                s.append("Cannot deserialize memory: ");
                let inner = e.message();
                s.append(inner.as_str());
            },
            LoadSnapshotError::DeserializeMicrovmState(e) => {
                s.append("Cannot deserialize MicrovmState: ");
                let inner = e.message();
                s.append(inner.as_str());
            },
            LoadSnapshotError::MemoryBackingFile(e) => {
                s.append("Cannot open memory file: ");
                s.append(e.as_str());
            },
            LoadSnapshotError::ResumeMicroVm(e) => {
                s.append("Failed to resume Vm after loading snapshot: ");
                s.append(e.as_str());
            },
            LoadSnapshotError::SnapshotBackingFile(e) => {
                s.append("Cannot open snapshot file: ");
                s.append(e.as_str());
            },
            LoadSnapshotError::SnapshotBackingFileMetadata(e) => {
                s.append("Cannot retrieve file metadata: ");
                s.append(e.as_str());
            },
            LoadSnapshotError::CpuVendorMismatch(e) => {
                s.append("Snapshot cpu vendor mismatch: ");
                s.append(e.as_str());
            },
        }
        proof {
            reveal_strlit("Cannot build a microVM from snapshot: ");
            reveal_strlit("Cannot deserialize memory: ");
            reveal_strlit("Cannot deserialize MicrovmState: ");
            reveal_strlit("Cannot open memory file: ");
            reveal_strlit("Failed to resume Vm after loading snapshot: ");
            reveal_strlit("Cannot open snapshot file: ");
            reveal_strlit("Cannot retrieve file metadata: ");
            reveal_strlit("Snapshot cpu vendor mismatch: ");
        }
        s
    }
}

/// Rejects a device count beyond the first snapshot format's IRQ window.
pub fn validate_devices_number(device_number: usize) -> (r: Result<(), CreateSnapshotError>)
    ensures
        device_number > FC_V0_23_MAX_DEVICES ==> r == Err::<(), CreateSnapshotError>(
            CreateSnapshotError::TooManyDevices(device_number),
        ),
        device_number <= FC_V0_23_MAX_DEVICES ==> r == Ok::<(), CreateSnapshotError>(()),
{
    if device_number > FC_V0_23_MAX_DEVICES as usize {
        return Err(CreateSnapshotError::TooManyDevices(device_number));
    }
    Ok(())
}

/// Data version that a creation request selects: the map's latest when no
/// tag is given, the tag's translation otherwise.
pub open spec fn spec_resolve_version(version: Option<String>, vmap: VersionMap) -> Option<u16> {
    match version {
        None => Some(vmap.spec_latest_version()),
        Some(tag) => spec_translate(tag@),
    }
}

/// The all-zero memory image of `total` bytes: what truncating the backing
/// file and extending it to the full memory size leaves behind.
pub open spec fn spec_zeros(total: int) -> Seq<u8> {
    Seq::new(total as nat, |i: int| 0u8)
}

/// What the memory backing file holds after the memory step of a creation
/// request: a full dump, or dirty pages overlaid on the zero-extended file.
pub open spec fn spec_mem_file_bytes(vmm: Vmm, snapshot_type: SnapshotType) -> Seq<u8> {
    let rs = vmm.guest_memory.view_regions();
    let zeros = spec_zeros(vmm.guest_memory.spec_mem_size());
    match snapshot_type {
        SnapshotType::Full => spec_dump(rs, rs.len() as int),
        SnapshotType::Diff => spec_dump_dirty(
            rs,
            zeros,
            vmm.dirty_bitmap.unwrap().view_words(),
            rs.len() as int,
        ),
    }
}

/// Writes the memory backing file image: the file is truncated and extended
/// to the full memory size first, then filled by a full or dirty-only dump.
/// In diff mode the dirty bitmap must be available.
fn snapshot_memory_to_file(vmm: &Vmm, mem_file: &mut Vec<u8>, snapshot_type: &SnapshotType) -> (r:
    Result<(), CreateSnapshotError>)
    requires
        vmm.wf(),
    ensures
        match r {
            Ok(()) => final (mem_file)@ == spec_mem_file_bytes(*vmm, *snapshot_type),
            Err(e) => {
                &&& e == CreateSnapshotError::DirtyBitmap
                &&& *snapshot_type == SnapshotType::Diff
                &&& vmm.dirty_bitmap is None
                &&& final (mem_file)@ == spec_zeros(vmm.guest_memory.spec_mem_size())
            },
        },
        r is Ok <==> (*snapshot_type == SnapshotType::Full || vmm.dirty_bitmap is Some),
{
    let total = mem_size_bytes(&vmm.guest_memory);
    mem_file.clear();
    mem_file.resize(total as usize, 0u8);
    proof {
        assert forall|i: int| 0 <= i < mem_file@.len() implies mem_file@[i] == 0u8 by {
            assert(cloned::<u8>(0u8, mem_file@[i]));
        }
        assert(mem_file@ =~= spec_zeros(vmm.guest_memory.spec_mem_size()));
    }
    match snapshot_type {
        SnapshotType::Diff => {
            match &vmm.dirty_bitmap {
                None => Err(CreateSnapshotError::DirtyBitmap),
                Some(bitmap) => {
                    dump_dirty(&vmm.guest_memory, mem_file, bitmap);
                    Ok(())
                },
            }
        },
        SnapshotType::Full => {
            dump(&vmm.guest_memory, mem_file);
            Ok(())
        },
    }
}

/// Serializes the state into the snapshot file image, against the resolved
/// data version. At the first snapshot format's data version the device
/// count is validated against that format's limit.
fn snapshot_state_to_file(
    microvm_state: &MicrovmState,
    version: &Option<String>,
    version_map: &VersionMap,
    device_count: usize,
) -> (r: Result<Vec<u8>, CreateSnapshotError>)
    requires
        version_map.wf(),
    ensures
        spec_state_file_result(microvm_state@, *version, *version_map, device_count as int, r),
{
    let snapshot_data_version: u16 = match version {
        Some(tag) => {
            match fc_version_to_snap_version(tag) {
                Some(dv) => dv,
                None => {
                    return Err(CreateSnapshotError::InvalidVersion);
                },
            }
        },
        None => version_map.latest_version(),
    };
    if snapshot_data_version == FC_V0_23_SNAP_VERSION {
        match validate_devices_number(device_count) {
            Err(e) => {
                return Err(e);
            },
            Ok(()) => {},
        }
    }
    let snapshot = Snapshot::new(version_map.clone_map(), snapshot_data_version);
    match snapshot.save(microvm_state) {
        Ok(bytes) => Ok(bytes),
        Err(e) => Err(CreateSnapshotError::SerializeMicrovmState(e)),
    }
}

/// What the state-file step returns, for each input: an unknown tag is
/// rejected; at the first format's data version an over-limit device count
/// is rejected with the actual count; a state not representable at the
/// resolved version fails serialization; otherwise the file image is the
/// framed encoding.
pub open spec fn spec_state_file_result(
    m: MicrovmStateV,
    version: Option<String>,
    vmap: VersionMap,
    device_count: int,
    r: Result<Vec<u8>, CreateSnapshotError>,
) -> bool {
    match spec_resolve_version(version, vmap) {
        None => r == Err::<Vec<u8>, CreateSnapshotError>(CreateSnapshotError::InvalidVersion),
        Some(dv) => {
            if dv == FC_V0_23_SNAP_VERSION && device_count > FC_V0_23_MAX_DEVICES {
                &&& r matches Err(e)
                &&& e matches CreateSnapshotError::TooManyDevices(n)
                &&& n == device_count
            } else {
                let tv = vmap.spec_type_version(dv, VersionedType::DeviceStates);
                match spec_save_bytes(m, dv, tv) {
                    Some(bytes) => r matches Ok(b) && b@ == bytes,
                    None => r matches Err(e) && e matches CreateSnapshotError::SerializeMicrovmState(
                        inner,
                    ) && inner is Semantic,
                }
            }
        },
    }
}

/// Creates a snapshot of a paused microVM: assembles the aggregate state,
/// writes the memory backing file image (before the state file, so a crash
/// between the two leaves no state file that references missing memory),
/// resolves the target data version, validates the device count at the
/// first format's version, and returns the framed state file image.
pub fn create_snapshot(
    vmm: &Vmm,
    mem_file: &mut Vec<u8>,
    params: &CreateSnapshotParams,
    version_map: &VersionMap,
) -> (r: Result<Vec<u8>, CreateSnapshotError>)
    requires
        vmm.wf(),
        version_map.wf(),
    ensures
        params.snapshot_type == SnapshotType::Diff && vmm.dirty_bitmap is None ==> ({
            &&& r == Err::<Vec<u8>, CreateSnapshotError>(CreateSnapshotError::DirtyBitmap)
            &&& final (mem_file)@ == spec_zeros(vmm.guest_memory.spec_mem_size())
        }),
        params.snapshot_type == SnapshotType::Full || vmm.dirty_bitmap is Some ==> ({
            &&& final (mem_file)@ == spec_mem_file_bytes(*vmm, params.snapshot_type)
            &&& spec_state_file_result(
                vmm.spec_save_state(),
                params.version,
                *version_map,
                vmm.spec_used_irqs_count(),
                r,
            )
        }),
{
    let microvm_state = vmm.save_state();
    match snapshot_memory_to_file(vmm, mem_file, &params.snapshot_type) {
        Err(e) => {
            return Err(e);
        },
        Ok(()) => {},
    }
    snapshot_state_to_file(&microvm_state, &params.version, version_map, vmm.used_irqs_count())
}

/// The 12 vendor bytes that CPUID leaf 0 spells: EBX, then EDX, then ECX,
/// little-endian.
pub open spec fn spec_vendor_of_leaf(e: CpuidEntry) -> Seq<u8> {
    spec_u32_to_le_bytes(e.ebx) + spec_u32_to_le_bytes(e.edx) + spec_u32_to_le_bytes(e.ecx)
}

/// The first CPUID entry for leaf 0, if any.
pub open spec fn spec_find_leaf0(cpuid: Seq<CpuidEntry>) -> Option<CpuidEntry>
    decreases cpuid.len(),
{
    if cpuid.len() == 0 {
        None
    } else if cpuid.first().function == 0 {
        Some(cpuid.first())
    } else {
        spec_find_leaf0(cpuid.drop_first())
    }
}

/// The vendor bytes that a CPUID view carries, if leaf 0 is present.
pub open spec fn spec_vendor_from_cpuid(cpuid: Seq<CpuidEntry>) -> Option<Seq<u8>> {
    match spec_find_leaf0(cpuid) {
        None => None,
        Some(e) => Some(spec_vendor_of_leaf(e)),
    }
}

/// The vendor bytes that a snapshot carries: leaf 0 of the first VCPU's
/// CPUID view.
pub open spec fn spec_snapshot_vendor(m: MicrovmStateV) -> Option<Seq<u8>> {
    if m.vcpu_states.len() == 0 {
        None
    } else {
        spec_vendor_from_cpuid(m.vcpu_states[0].cpuid)
    }
}

/// Extracts the CPU vendor bytes from a CPUID view, from leaf 0.
pub fn get_vendor_id_from_cpuid(cpuid: &Vec<CpuidEntry>) -> (r: Option<Vec<u8>>)
    ensures
        match r {
            Some(v) => spec_vendor_from_cpuid(cpuid@) == Some(v@),
            None => spec_vendor_from_cpuid(cpuid@) is None,
        },
{
    let mut i: usize = 0;
    assert(cpuid@.skip(0) =~= cpuid@);
    while i < cpuid.len()
        invariant
            i <= cpuid@.len(),
            spec_find_leaf0(cpuid@) == spec_find_leaf0(cpuid@.skip(i as int)),
        decreases cpuid@.len() - i,
    {
        let e = cpuid[i];
        assert(cpuid@.skip(i as int).first() == cpuid@[i as int]);
        if e.function == 0 {
            let mut v: Vec<u8> = Vec::new();
            let mut b = vstd::bytes::u32_to_le_bytes(e.ebx);
            v.append(&mut b);
            let mut d = vstd::bytes::u32_to_le_bytes(e.edx);
            v.append(&mut d);
            let mut c = vstd::bytes::u32_to_le_bytes(e.ecx);
            v.append(&mut c);
            assert(v@ =~= spec_vendor_of_leaf(cpuid@[i as int]));
            return Some(v);
        }
        assert(cpuid@.skip(i as int).drop_first() =~= cpuid@.skip(i + 1));
        i = i + 1;
    }
    assert(cpuid@.skip(cpuid@.len() as int) =~= Seq::<CpuidEntry>::empty());
    None
}

/// The message that a vendor mismatch reports: both vendor strings appear.
pub open spec fn spec_vendor_mismatch_msg(host: Seq<u8>, snap: Seq<u8>) -> Seq<char> {
    "Host CPU vendor id: "@ + ascii_chars(host) + ", Snapshot CPU vendor id: "@ + ascii_chars(snap)
}

/// What the vendor check decides, given the host vendor reading (absent
/// when the host CPUID cannot be read) and the snapshot state.
pub open spec fn spec_vendor_check(
    host_vendor: Option<Vec<u8>>,
    m: MicrovmStateV,
    r: Result<(), LoadSnapshotError>,
) -> bool {
    match (host_vendor, spec_snapshot_vendor(m)) {
        (Some(h), Some(s)) => {
            if h@ == s {
                r == Ok::<(), LoadSnapshotError>(())
            } else {
                &&& r matches Err(e)
                &&& e matches LoadSnapshotError::CpuVendorMismatch(msg)
                &&& msg@ == spec_vendor_mismatch_msg(h@, s)
            }
        },
        _ => {
            &&& r matches Err(e)
            &&& e matches LoadSnapshotError::CpuVendorMismatch(msg)
            &&& msg@ == "Failed to read vendor from CPUID."@
        },
    }
}

/// Validates that the snapshot's CPU vendor matches the host's.
/// `host_vendor` is what reading the host CPUID leaf 0 gave (`None` when it
/// could not be read); the snapshot's vendor comes from the first VCPU's
/// CPUID view. Failure to read either side fails the check.
pub fn validate_x86_64_cpu_vendor(
    host_vendor: &Option<Vec<u8>>,
    microvm_state: &MicrovmState,
) -> (r: Result<(), LoadSnapshotError>)
    ensures
        spec_vendor_check(*host_vendor, microvm_state@, r),
{
    let snapshot_vendor = if microvm_state.vcpu_states.len() == 0 {
        None
    } else {
        get_vendor_id_from_cpuid(&microvm_state.vcpu_states[0].cpuid)
    };
    match (host_vendor, snapshot_vendor) {
        (Some(h), Some(s)) => {
            if eq_bytes(h, &s) {
                Ok(())
            } else {
                let mut msg: String = String::new();
                msg.append("Host CPU vendor id: ");
                push_bytes_as_chars(&mut msg, h);
                msg.append(", Snapshot CPU vendor id: ");
                push_bytes_as_chars(&mut msg, &s);
                proof {
                    reveal_strlit("Host CPU vendor id: ");
                    reveal_strlit(", Snapshot CPU vendor id: ");
                    assert(msg@ =~= spec_vendor_mismatch_msg(h@, s@));
                }
                Err(LoadSnapshotError::CpuVendorMismatch(msg))
            }
        },
        _ => {
            Err(
                LoadSnapshotError::CpuVendorMismatch(
                    "Failed to read vendor from CPUID.".to_owned(),
                ),
            )
        },
    }
}

/// Byte-vector equality.
fn eq_bytes(a: &Vec<u8>, b: &Vec<u8>) -> (r: bool)
    ensures
        r == (a@ == b@),
{
    if a.len() != b.len() {
        assert(a@ != b@);
        return false;
    }
    let mut i: usize = 0;
    while i < a.len()
        invariant
            a@.len() == b@.len(),
            i <= a@.len(),
            forall|j: int| 0 <= j < i ==> a@[j] == b@[j],
        decreases a@.len() - i,
    {
        if a[i] != b[i] {
            return false;
        }
        i = i + 1;
    }
    assert(a@ =~= b@);
    true
}

/// Parses the snapshot file image into the aggregate state.
fn snapshot_state_from_file(snapshot_file: &Vec<u8>, version_map: &VersionMap) -> (r: Result<
    MicrovmState,
    LoadSnapshotError,
>)
    requires
        version_map.wf(),
    ensures
        match r {
            Ok(m) => spec_load_result(snapshot_file@, *version_map) == Some(m@),
            Err(e) => spec_load_result(snapshot_file@, *version_map) is None
                && e is DeserializeMicrovmState,
        },
        snapshot_file@.len() >= 18 && crate::codec::dec_u64(snapshot_file@, 0).unwrap().0
            != crate::snapshot::SNAPSHOT_MAGIC_ID ==> r == Err::<MicrovmState, LoadSnapshotError>(
            LoadSnapshotError::DeserializeMicrovmState(
                snapshot::Error::InvalidMagic(crate::codec::dec_u64(snapshot_file@, 0).unwrap().0),
            ),
        ),
{
    match Snapshot::load(snapshot_file, version_map) {
        Ok(m) => Ok(m),
        Err(e) => Err(LoadSnapshotError::DeserializeMicrovmState(e)),
    }
}

/// Rebuilds the guest memory map from the backing-file image and the
/// snapshot's memory descriptor.
fn guest_memory_from_file(
    mem_file: &Vec<u8>,
    mem_state: &GuestMemoryState,
    track_dirty_pages: bool,
) -> (r: Result<GuestMemoryMap, LoadSnapshotError>)
    ensures
        match r {
            Ok(map) => {
                &&& spec_restore_ok(mem_state@, mem_file@.len() as int)
                &&& map.view_regions() == spec_restored_regions(mem_state@, mem_file@)
                &&& map.track_dirty_pages == track_dirty_pages
            },
            Err(e) => !spec_restore_ok(mem_state@, mem_file@.len() as int)
                && e is DeserializeMemory,
        },
{
    match restore(mem_file, mem_state, track_dirty_pages) {
        Ok(map) => Ok(map),
        Err(e) => Err(LoadSnapshotError::DeserializeMemory(e)),
    }
}

/// What a successful restore returns: the parsed state with its memory
/// regions rebuilt from the backing-file image, dirty tracking as the
/// request asked, and no dirty bitmap yet.
pub open spec fn spec_restored_vmm(
    m: MicrovmStateV,
    mem_file: Seq<u8>,
    track_dirty_pages: bool,
    vmm: Vmm,
) -> bool {
    &&& vmm.guest_memory.view_regions() == spec_restored_regions(m.memory_state, mem_file)
    &&& vmm.guest_memory.track_dirty_pages == track_dirty_pages
    &&& vmm.vm_state@ == m.vm_state
    &&& vcpus_view(vmm.vcpu_states@) == m.vcpu_states
    &&& vmm.device_states@ == m.device_states
    &&& vmm.dirty_bitmap is None
}

/// Restores a paused microVM from a snapshot file image and a memory
/// backing file image. `host_cpu_vendor` is the host's CPUID vendor reading
/// (`None` when it could not be read); building the live VM around the
/// returned state, and resuming it, stay with the caller.
pub fn restore_from_snapshot(
    snapshot_file: &Vec<u8>,
    mem_file: &Vec<u8>,
    host_cpu_vendor: &Option<Vec<u8>>,
    params: &LoadSnapshotParams,
    version_map: &VersionMap,
) -> (r: Result<Vmm, LoadSnapshotError>)
    requires
        version_map.wf(),
    ensures
        spec_load_result(snapshot_file@, *version_map) is None ==> (r matches Err(e)
            && e is DeserializeMicrovmState),
        snapshot_file@.len() >= 18 && crate::codec::dec_u64(snapshot_file@, 0).unwrap().0
            != crate::snapshot::SNAPSHOT_MAGIC_ID ==> r == Err::<Vmm, LoadSnapshotError>(
            LoadSnapshotError::DeserializeMicrovmState(
                snapshot::Error::InvalidMagic(crate::codec::dec_u64(snapshot_file@, 0).unwrap().0),
            ),
        ),
        (spec_load_result(snapshot_file@, *version_map) is Some) ==> {
            let m = spec_load_result(snapshot_file@, *version_map).unwrap();
            if !(spec_vendor_check(*host_cpu_vendor, m, Ok::<(), LoadSnapshotError>(()))) {
                r matches Err(e) && e is CpuVendorMismatch && spec_vendor_check(
                    *host_cpu_vendor,
                    m,
                    Err(e),
                )
            } else if !spec_restore_ok(m.memory_state, mem_file@.len() as int) {
                r matches Err(e) && e is DeserializeMemory
            } else {
                r matches Ok(vmm) && spec_restored_vmm(
                    m,
                    mem_file@,
                    params.enable_diff_snapshots,
                    vmm,
                )
            }
        },
{
    let track_dirty_pages = params.enable_diff_snapshots;
    let microvm_state = match snapshot_state_from_file(snapshot_file, version_map) {
        Ok(m) => m,
        Err(e) => {
            return Err(e);
        },
    };
    match validate_x86_64_cpu_vendor(host_cpu_vendor, &microvm_state) {
        Ok(()) => {},
        Err(e) => {
            return Err(e);
        },
    }
    let guest_memory = match guest_memory_from_file(
        mem_file,
        &microvm_state.memory_state,
        track_dirty_pages,
    ) {
        Ok(map) => map,
        Err(e) => {
            return Err(e);
        },
    };
    Ok(
        Vmm {
            guest_memory,
            vm_state: microvm_state.vm_state,
            vcpu_states: microvm_state.vcpu_states,
            device_states: microvm_state.device_states,
            dirty_bitmap: None,
        },
    )
}

/// Law: after a full-mode snapshot, restoring from the produced pair of
/// file images yields the saved state exactly — guest memory bytes
/// bit-identical region for region, and VCPU and device states equal — for
/// every data version the map knows at which the state is representable.
pub proof fn lemma_full_snapshot_round_trip(vmm: Vmm, vmap: VersionMap, dv: u16)
    requires
        vmm.wf(),
        vmap.wf(),
        crate::state::spec_lens_ok(vmm.spec_save_state()),
        1 <= dv <= vmap.spec_latest_version(),
        enc_microvm_state(
            vmm.spec_save_state(),
            vmap.spec_type_version(dv, VersionedType::DeviceStates),
        ) is Some,
    ensures
        ({
            let state = vmm.spec_save_state();
            let tv = vmap.spec_type_version(dv, VersionedType::DeviceStates);
            let mem = spec_mem_file_bytes(vmm, SnapshotType::Full);
            &&& spec_save_bytes(state, dv, tv) is Some
            &&& spec_load_result(spec_save_bytes(state, dv, tv).unwrap(), vmap) == Some(state)
            &&& spec_restore_ok(state.memory_state, mem.len() as int)
            &&& spec_restored_regions(state.memory_state, mem) == vmm.guest_memory.view_regions()
            &&& state.vcpu_states == vcpus_view(vmm.vcpu_states@)
            &&& state.device_states == vmm.device_states@
        }),
{
    crate::snapshot::lemma_save_load_round_trip(vmm.spec_save_state(), vmap, dv);
    crate::memory_snapshot::lemma_dump_restore_round_trip(vmm.guest_memory);
}

/// Law: a diff-mode snapshot made with a dirty bitmap that marks every page
/// holding a nonzero byte writes a memory image equal to a full dump, so
/// restoring it against the snapshot's descriptor yields the guest memory
/// as it was at diff time, byte for byte.
pub proof fn lemma_diff_snapshot_memory_round_trip(vmm: Vmm)
    requires
        vmm.wf(),
        vmm.dirty_bitmap is Some,
        crate::memory_snapshot::spec_bitmap_covers(
            vmm.guest_memory.view_regions(),
            vmm.dirty_bitmap.unwrap().view_words(),
        ),
    ensures
        ({
            let mem = spec_mem_file_bytes(vmm, SnapshotType::Diff);
            let state = vmm.spec_save_state();
            &&& mem == spec_mem_file_bytes(vmm, SnapshotType::Full)
            &&& spec_restore_ok(state.memory_state, mem.len() as int)
            &&& spec_restored_regions(state.memory_state, mem) == vmm.guest_memory.view_regions()
        }),
{
    crate::memory_snapshot::lemma_total_bytes_mono(
        vmm.guest_memory.view_regions(),
        0,
        vmm.guest_memory.view_regions().len() as int,
    );
    crate::memory_snapshot::lemma_diff_dump_over_zeros(
        vmm.guest_memory,
        vmm.dirty_bitmap.unwrap().view_words(),
        spec_zeros(vmm.guest_memory.spec_mem_size()),
    );
    crate::memory_snapshot::lemma_dump_restore_round_trip(vmm.guest_memory);
}

} // verus!
