use vmm_snapshot::memory_snapshot::{
    describe, restore, DirtyBitmap, GuestMemoryMap, GuestMemoryRegion,
};
use vmm_snapshot::memory_snapshot;
use vmm_snapshot::persist::{
    create_snapshot, restore_from_snapshot, validate_devices_number, validate_x86_64_cpu_vendor,
    CreateSnapshotError, CreateSnapshotParams, LoadSnapshotError, LoadSnapshotParams,
    MicrovmStateError, SnapshotType, Vmm,
};
use vmm_snapshot::snapshot::{Error as SnapshotError, Snapshot};
use vmm_snapshot::state::{CpuidEntry, DeviceStates, MicrovmState, VcpuState, VmInfo, VmState};
use vmm_snapshot::version_map::{
    default_version_map, fc_version_to_snap_version, VersionMap, VersionedType,
};

const MIB: usize = 1024 * 1024;

fn leaf0(vendor: &[u8; 12]) -> CpuidEntry {
    CpuidEntry {
        function: 0,
        index: 0,
        flags: 0,
        eax: 0xb,
        ebx: u32::from_le_bytes([vendor[0], vendor[1], vendor[2], vendor[3]]),
        edx: u32::from_le_bytes([vendor[4], vendor[5], vendor[6], vendor[7]]),
        ecx: u32::from_le_bytes([vendor[8], vendor[9], vendor[10], vendor[11]]),
    }
}

fn test_vcpu(vendor: &[u8; 12]) -> VcpuState {
    VcpuState { cpuid: vec![leaf0(vendor)], regs: vec![1, 2, 3, 4] }
}

fn pattern_bytes(len: usize) -> Vec<u8> {
    (0..len).map(|i| (i % 256) as u8).collect()
}

fn test_memory(bytes: Vec<u8>) -> GuestMemoryMap {
    GuestMemoryMap {
        regions: vec![GuestMemoryRegion { base_address: 0, bytes }],
        track_dirty_pages: false,
    }
}

fn test_vmm(mem_bytes: Vec<u8>, device_states: DeviceStates, bitmap: Option<DirtyBitmap>) -> Vmm {
    Vmm {
        guest_memory: test_memory(mem_bytes),
        vm_state: VmState { data: vec![7, 7, 7] },
        vcpu_states: vec![test_vcpu(b"GenuineIntel")],
        device_states,
        dirty_bitmap: bitmap,
    }
}

fn no_devices() -> DeviceStates {
    DeviceStates {
        block_devices: Vec::new(),
        net_devices: Vec::new(),
        vsock_device: None,
        balloon_device: None,
    }
}

fn full_devices() -> DeviceStates {
    DeviceStates {
        block_devices: vec![vec![10, 11]],
        net_devices: vec![vec![20]],
        vsock_device: Some(vec![30, 31, 32]),
        balloon_device: Some(vec![40]),
    }
}

fn intel_host() -> Option<Vec<u8>> {
    Some(b"GenuineIntel".to_vec())
}

// Versionize round trip with an evolving schema: at data version 1 the
// device container does not know the balloon, so serializing a state that
// carries one fails; after registering the container at schema version 2,
// serializing at data version 2 round-trips.
#[test]
fn test_microvmstate_versionize() {
    let memory = test_memory(vec![0u8; MIB]);
    let states = full_devices();

    assert_eq!(states.block_devices.len(), 1);
    assert_eq!(states.net_devices.len(), 1);
    assert!(states.vsock_device.is_some());
    assert!(states.balloon_device.is_some());

    let memory_state = describe(&memory);

    let microvm_state = MicrovmState {
        device_states: states,
        memory_state,
        vcpu_states: vec![test_vcpu(b"GenuineIntel")],
        vm_info: VmInfo { mem_size_mib: 1u64 },
        vm_state: VmState { data: vec![9, 9] },
    };

    let mut version_map = VersionMap::new();

    assert!(microvm_state.serialize(&version_map, 1).is_err());

    version_map.new_version();
    version_map.set_type_version(VersionedType::DeviceStates, 2);
    let buf = microvm_state.serialize(&version_map, 2).unwrap();

    // decoding reads its own length: padding after the encoding is ignored
    let mut padded = buf.clone();
    padded.resize(10000, 0);
    let restored_microvm_state = MicrovmState::deserialize(&padded, &version_map, 2).unwrap();

    assert_eq!(restored_microvm_state.vm_info, microvm_state.vm_info);
    assert_eq!(restored_microvm_state.device_states, microvm_state.device_states);
}

#[test]
fn test_create_snapshot_error_display() {
    let errs = vec![
        CreateSnapshotError::DirtyBitmap,
        CreateSnapshotError::InvalidVersion,
        CreateSnapshotError::InvalidVmState("NotEnoughMemorySlots".to_string()),
        CreateSnapshotError::Memory(memory_snapshot::Error::WriteMemory(
            "HostAddressNotAvailable".to_string(),
        )),
        CreateSnapshotError::MemoryBackingFile("os error 0".to_string()),
        CreateSnapshotError::MicrovmState(MicrovmStateError::UnexpectedVcpuResponse),
        CreateSnapshotError::SerializeMicrovmState(SnapshotError::InvalidMagic(0)),
        CreateSnapshotError::SnapshotBackingFile("os error 0".to_string()),
        CreateSnapshotError::TooManyDevices(0),
    ];
    for err in &errs {
        let rendered = format!("{}{:?}", err.message(), err);
        assert!(!rendered.is_empty());
    }
}

#[test]
fn test_load_snapshot_error_display() {
    let errs = vec![
        LoadSnapshotError::BuildMicroVm("InitrdLoad".to_string()),
        LoadSnapshotError::DeserializeMemory(memory_snapshot::Error::CreateMemory(
            "os error 0".to_string(),
        )),
        LoadSnapshotError::DeserializeMicrovmState(SnapshotError::InvalidSnapshotSize),
        LoadSnapshotError::MemoryBackingFile("os error 0".to_string()),
        LoadSnapshotError::ResumeMicroVm("VcpuResume".to_string()),
        LoadSnapshotError::SnapshotBackingFile("os error 0".to_string()),
        LoadSnapshotError::SnapshotBackingFileMetadata("os error 0".to_string()),
        LoadSnapshotError::CpuVendorMismatch(String::new()),
    ];
    for err in &errs {
        let rendered = format!("{}{:?}", err.message(), err);
        assert!(!rendered.is_empty());
    }
}

#[test]
fn test_microvm_state_error_display() {
    let errs = vec![
        MicrovmStateError::InvalidInput,
        MicrovmStateError::NotAllowed(String::from("")),
        MicrovmStateError::RestoreDevices("MmioTransport".to_string()),
        MicrovmStateError::RestoreVcpuState("VcpuTlsInit".to_string()),
        MicrovmStateError::RestoreVmState("NotEnoughMemorySlots".to_string()),
        MicrovmStateError::SaveVcpuState("VcpuTlsNotPresent".to_string()),
        MicrovmStateError::SaveVmState("NotEnoughMemorySlots".to_string()),
        MicrovmStateError::SignalVcpu("signal failed".to_string()),
        MicrovmStateError::UnexpectedVcpuResponse,
    ];
    for err in &errs {
        let rendered = format!("{}{:?}", err.message(), err);
        assert!(!rendered.is_empty());
    }
}

// Every error variant renders non-empty, the renderings are pairwise
// distinct, and wrapped detail appears in the rendering.
#[test]
fn test_error_rendering_distinct() {
    let mut messages: Vec<String> = Vec::new();
    messages.push(CreateSnapshotError::DirtyBitmap.message());
    messages.push(CreateSnapshotError::InvalidVersion.message());
    messages.push(CreateSnapshotError::InvalidVmState("inner-a".to_string()).message());
    messages.push(
        CreateSnapshotError::Memory(memory_snapshot::Error::WriteMemory("inner-b".to_string()))
            .message(),
    );
    messages.push(CreateSnapshotError::MemoryBackingFile("inner-c".to_string()).message());
    messages
        .push(CreateSnapshotError::MicrovmState(MicrovmStateError::InvalidInput).message());
    messages.push(
        CreateSnapshotError::SerializeMicrovmState(SnapshotError::Semantic(
            "inner-d".to_string(),
        ))
        .message(),
    );
    messages.push(CreateSnapshotError::SnapshotBackingFile("inner-e".to_string()).message());
    messages.push(CreateSnapshotError::TooManyDevices(12).message());
    messages.push(LoadSnapshotError::BuildMicroVm("inner-f".to_string()).message());
    messages.push(
        LoadSnapshotError::DeserializeMemory(memory_snapshot::Error::CreateRegion(
            "inner-g".to_string(),
        ))
        .message(),
    );
    messages.push(
        LoadSnapshotError::DeserializeMicrovmState(SnapshotError::Crc64(5)).message(),
    );
    messages.push(LoadSnapshotError::MemoryBackingFile("inner-h".to_string()).message());
    messages.push(LoadSnapshotError::ResumeMicroVm("inner-i".to_string()).message());
    messages.push(LoadSnapshotError::SnapshotBackingFile("inner-j".to_string()).message());
    messages.push(LoadSnapshotError::SnapshotBackingFileMetadata("inner-k".to_string()).message());
    messages.push(LoadSnapshotError::CpuVendorMismatch("inner-l".to_string()).message());
    messages.push(MicrovmStateError::InvalidInput.message());
    messages.push(MicrovmStateError::NotAllowed("inner-m".to_string()).message());
    messages.push(MicrovmStateError::RestoreDevices("inner-n".to_string()).message());
    messages.push(MicrovmStateError::RestoreVcpuState("inner-o".to_string()).message());
    messages.push(MicrovmStateError::RestoreVmState("inner-p".to_string()).message());
    messages.push(MicrovmStateError::SaveVcpuState("inner-q".to_string()).message());
    messages.push(MicrovmStateError::SaveVmState("inner-r".to_string()).message());
    messages.push(MicrovmStateError::SignalVcpu("inner-s".to_string()).message());
    messages.push(MicrovmStateError::UnexpectedVcpuResponse.message());
    for (i, m) in messages.iter().enumerate() {
        assert!(!m.is_empty());
        for (j, n) in messages.iter().enumerate() {
            if i != j {
                assert_ne!(m, n);
            }
        }
    }
    assert!(CreateSnapshotError::InvalidVmState("inner-a".to_string())
        .message()
        .contains("inner-a"));
    assert!(CreateSnapshotError::TooManyDevices(12).message().contains("12"));
    assert!(CreateSnapshotError::TooManyDevices(12).message().contains("11"));
}

// Version map basics: tag translation and per-type schema versions.
#[test]
fn test_version_map_translate_and_type_versions() {
    assert_eq!(fc_version_to_snap_version(&"0.23".to_string()), Some(1));
    assert_eq!(fc_version_to_snap_version(&"0.24".to_string()), Some(2));
    assert_eq!(fc_version_to_snap_version(&"0.22".to_string()), None);

    let map = default_version_map();
    assert_eq!(map.latest_version(), 2);
    assert_eq!(map.type_version(1, VersionedType::DeviceStates), 1);
    assert_eq!(map.type_version(2, VersionedType::DeviceStates), 2);
    assert_eq!(map.type_version(2, VersionedType::VmState), 1);
}

// The descriptor is deterministic, contiguous from offset zero, and its
// sizes sum to the memory size.
#[test]
fn test_describe_offsets_and_sizes() {
    let map = GuestMemoryMap {
        regions: vec![
            GuestMemoryRegion { base_address: 0, bytes: vec![1u8; MIB] },
            GuestMemoryRegion { base_address: (MIB * 4) as u64, bytes: vec![2u8; 2 * MIB] },
        ],
        track_dirty_pages: false,
    };
    let state = describe(&map);
    assert_eq!(state.regions.len(), 2);
    assert_eq!(state.regions[0].offset, 0);
    assert_eq!(state.regions[0].size, MIB as u64);
    assert_eq!(state.regions[1].offset, MIB as u64);
    assert_eq!(state.regions[1].size, (2 * MIB) as u64);
    let total: u64 = state.regions.iter().map(|r| r.size).sum();
    assert_eq!(total, (3 * MIB) as u64);
}

// Device count at the limit is accepted; one more is rejected with the
// actual count.
#[test]
fn test_validate_devices_number_boundary() {
    assert!(validate_devices_number(11).is_ok());
    match validate_devices_number(12) {
        Err(CreateSnapshotError::TooManyDevices(n)) => assert_eq!(n, 12),
        other => panic!("expected TooManyDevices, got {:?}", other),
    }
}

// Too many devices at the first snapshot format's version: the request
// names "0.23" and twelve block devices are attached.
#[test]
fn test_too_many_devices_at_first_version() {
    let devices = DeviceStates {
        block_devices: (0..12).map(|i| vec![i as u8]).collect(),
        net_devices: Vec::new(),
        vsock_device: None,
        balloon_device: None,
    };
    let vmm = test_vmm(vec![0u8; MIB], devices, None);
    let mut mem_file: Vec<u8> = Vec::new();
    let params = CreateSnapshotParams {
        snapshot_type: SnapshotType::Full,
        version: Some("0.23".to_string()),
    };
    let map = default_version_map();
    match create_snapshot(&vmm, &mut mem_file, &params, &map) {
        Err(CreateSnapshotError::TooManyDevices(n)) => assert_eq!(n, 12),
        other => panic!("expected TooManyDevices, got {:?}", other),
    }

    // exactly at the limit the same request is accepted
    let at_limit = DeviceStates {
        block_devices: (0..11).map(|i| vec![i as u8]).collect(),
        net_devices: Vec::new(),
        vsock_device: None,
        balloon_device: None,
    };
    let vmm_ok = test_vmm(vec![0u8; MIB], at_limit, None);
    assert!(create_snapshot(&vmm_ok, &mut mem_file, &params, &map).is_ok());
}

// A state carrying a balloon device serializes at the latest data version
// but fails, distinguishably, at the first format's version.
#[test]
fn test_schema_bump_rejected_at_first_version() {
    let vmm = test_vmm(vec![0u8; MIB], full_devices(), None);
    let map = default_version_map();
    let mut mem_file: Vec<u8> = Vec::new();

    let at_v0 = CreateSnapshotParams {
        snapshot_type: SnapshotType::Full,
        version: Some("0.23".to_string()),
    };
    match create_snapshot(&vmm, &mut mem_file, &at_v0, &map) {
        Err(CreateSnapshotError::SerializeMicrovmState(SnapshotError::Semantic(msg))) => {
            assert!(!msg.is_empty());
        },
        other => panic!("expected a schema incompatibility, got {:?}", other),
    }

    let at_latest = CreateSnapshotParams { snapshot_type: SnapshotType::Full, version: None };
    assert!(create_snapshot(&vmm, &mut mem_file, &at_latest, &map).is_ok());
}

// An unknown product tag is rejected.
#[test]
fn test_unknown_version_tag() {
    let vmm = test_vmm(vec![0u8; MIB], no_devices(), None);
    let map = default_version_map();
    let mut mem_file: Vec<u8> = Vec::new();
    let params = CreateSnapshotParams {
        snapshot_type: SnapshotType::Full,
        version: Some("0.11".to_string()),
    };
    match create_snapshot(&vmm, &mut mem_file, &params, &map) {
        Err(CreateSnapshotError::InvalidVersion) => {},
        other => panic!("expected InvalidVersion, got {:?}", other),
    }
}

// A diff request without a dirty bitmap fails.
#[test]
fn test_diff_without_bitmap() {
    let vmm = test_vmm(vec![0u8; MIB], no_devices(), None);
    let map = default_version_map();
    let mut mem_file: Vec<u8> = Vec::new();
    let params = CreateSnapshotParams { snapshot_type: SnapshotType::Diff, version: None };
    match create_snapshot(&vmm, &mut mem_file, &params, &map) {
        Err(CreateSnapshotError::DirtyBitmap) => {},
        other => panic!("expected DirtyBitmap, got {:?}", other),
    }
}

// Full snapshot, fresh restore, equality: the guest writes i % 256 at byte
// i over 128 MiB; after a full snapshot and a restore the bytes match.
#[test]
fn test_full_snapshot_restore_equality() {
    let pattern = pattern_bytes(128 * MIB);
    let vmm = test_vmm(pattern.clone(), full_devices(), None);
    let map = default_version_map();

    let mut mem_file: Vec<u8> = Vec::new();
    let params = CreateSnapshotParams { snapshot_type: SnapshotType::Full, version: None };
    let snap_file = create_snapshot(&vmm, &mut mem_file, &params, &map).unwrap();
    assert_eq!(mem_file.len(), 128 * MIB);
    assert_eq!(mem_file, pattern);

    let load = LoadSnapshotParams { enable_diff_snapshots: false };
    let restored =
        restore_from_snapshot(&snap_file, &mem_file, &intel_host(), &load, &map).unwrap();
    assert_eq!(restored.guest_memory.regions.len(), 1);
    assert_eq!(restored.guest_memory.regions[0].bytes, pattern);
    assert_eq!(restored.device_states, vmm.device_states);
    assert_eq!(restored.vcpu_states, vmm.vcpu_states);
    assert_eq!(restored.vm_state, vmm.vm_state);
}

// Diff snapshot layered on a full one: modify three bytes, mark every page
// dirty (all pages were touched since tracking began), take a diff at the
// same memory path, restore, and check that exactly those bytes changed.
#[test]
fn test_diff_snapshot_over_full() {
    let pattern = pattern_bytes(128 * MIB);
    let map = default_version_map();

    let vmm = test_vmm(pattern.clone(), no_devices(), None);
    let mut mem_file: Vec<u8> = Vec::new();
    let full = CreateSnapshotParams { snapshot_type: SnapshotType::Full, version: None };
    create_snapshot(&vmm, &mut mem_file, &full, &map).unwrap();

    let mut modified = pattern.clone();
    modified[0] ^= 0xff;
    modified[4096] ^= 0xff;
    modified[128 * MIB - 1] ^= 0xff;
    let pages = 128 * MIB / 4096;
    let bitmap = DirtyBitmap { regions: vec![vec![u64::MAX; pages / 64]] };
    let vmm_diff = test_vmm(modified.clone(), no_devices(), Some(bitmap));

    let diff = CreateSnapshotParams { snapshot_type: SnapshotType::Diff, version: None };
    let snap_file = create_snapshot(&vmm_diff, &mut mem_file, &diff, &map).unwrap();

    let load = LoadSnapshotParams { enable_diff_snapshots: false };
    let restored =
        restore_from_snapshot(&snap_file, &mem_file, &intel_host(), &load, &map).unwrap();
    let bytes = &restored.guest_memory.regions[0].bytes;
    assert_eq!(*bytes, modified);
    let mut diffs = 0;
    for i in [0usize, 4096, 128 * MIB - 1] {
        assert_ne!(bytes[i], pattern[i]);
        diffs += 1;
    }
    assert_eq!(diffs, 3);
}

// Boundary memory size, low end: a 1 MiB VM round-trips fully, with dirty
// tracking requested on the restored map.
#[test]
fn test_mem_size_boundary_small() {
    let small = test_vmm(pattern_bytes(MIB), no_devices(), None);
    let map = default_version_map();
    let mut mem_file: Vec<u8> = Vec::new();
    let params = CreateSnapshotParams { snapshot_type: SnapshotType::Full, version: None };
    let snap = create_snapshot(&small, &mut mem_file, &params, &map).unwrap();
    let load = LoadSnapshotParams { enable_diff_snapshots: true };
    let restored = restore_from_snapshot(&snap, &mem_file, &intel_host(), &load, &map).unwrap();
    assert_eq!(restored.guest_memory.regions[0].bytes, pattern_bytes(MIB));
    assert!(restored.guest_memory.track_dirty_pages);
}

// Boundary memory size, high end: a 1024 MiB map describes to records
// summing to exactly 1 GiB and dumps to a file image of that length.
#[test]
fn test_mem_size_boundary_large() {
    let big = test_memory(vec![3u8; 1024 * MIB]);
    let state = describe(&big);
    assert_eq!(state.regions.len(), 1);
    assert_eq!(state.regions[0].offset, 0);
    let total: u64 = state.regions.iter().map(|r| r.size).sum();
    assert_eq!(total, (1024 * MIB) as u64);

    let mut big_file: Vec<u8> = Vec::new();
    vmm_snapshot::memory_snapshot::dump(&big, &mut big_file);
    assert_eq!(big_file.len(), 1024 * MIB);
    assert_eq!(big_file[0], 3);
    assert_eq!(big_file[512 * MIB], 3);
    assert_eq!(big_file[1024 * MIB - 1], 3);
}

// A snapshot file truncated by one byte no longer parses.
#[test]
fn test_truncated_snapshot_rejected() {
    let vmm = test_vmm(vec![0u8; MIB], no_devices(), None);
    let map = default_version_map();
    let mut mem_file: Vec<u8> = Vec::new();
    let params = CreateSnapshotParams { snapshot_type: SnapshotType::Full, version: None };
    let mut snap = create_snapshot(&vmm, &mut mem_file, &params, &map).unwrap();
    snap.pop();
    let load = LoadSnapshotParams { enable_diff_snapshots: false };
    match restore_from_snapshot(&snap, &mem_file, &intel_host(), &load, &map) {
        Err(LoadSnapshotError::DeserializeMicrovmState(_)) => {},
        other => panic!("expected DeserializeMicrovmState, got {:?}", other.map(|_| ())),
    }
}

// A snapshot file with a wrong magic is rejected as such.
#[test]
fn test_wrong_magic_rejected() {
    let vmm = test_vmm(vec![0u8; MIB], no_devices(), None);
    let map = default_version_map();
    let mut mem_file: Vec<u8> = Vec::new();
    let params = CreateSnapshotParams { snapshot_type: SnapshotType::Full, version: None };
    let mut snap = create_snapshot(&vmm, &mut mem_file, &params, &map).unwrap();
    snap[0] ^= 0xff;
    let load = LoadSnapshotParams { enable_diff_snapshots: false };
    match restore_from_snapshot(&snap, &mem_file, &intel_host(), &load, &map) {
        Err(LoadSnapshotError::DeserializeMicrovmState(SnapshotError::InvalidMagic(_))) => {},
        other => panic!("expected InvalidMagic, got {:?}", other.map(|_| ())),
    }
}

// A flipped byte inside the payload fails the checksum, not the decoder.
#[test]
fn test_corrupted_payload_rejected() {
    let vmm = test_vmm(vec![0u8; MIB], no_devices(), None);
    let map = default_version_map();
    let mut mem_file: Vec<u8> = Vec::new();
    let params = CreateSnapshotParams { snapshot_type: SnapshotType::Full, version: None };
    let mut snap = create_snapshot(&vmm, &mut mem_file, &params, &map).unwrap();
    snap[12] ^= 0xff;
    match Snapshot::load(&snap, &map) {
        Err(SnapshotError::Crc64(_)) => {},
        other => panic!("expected a checksum mismatch, got {:?}", other),
    }
}

// CPU vendor mismatch: the snapshot encodes one vendor, the host reports
// another; the error names both.
#[test]
fn test_cpu_vendor_mismatch() {
    let state = MicrovmState {
        vm_info: VmInfo { mem_size_mib: 1 },
        memory_state: describe(&test_memory(vec![0u8; MIB])),
        vm_state: VmState { data: Vec::new() },
        vcpu_states: vec![test_vcpu(b"AuthenticAMD")],
        device_states: no_devices(),
    };
    match validate_x86_64_cpu_vendor(&intel_host(), &state) {
        Err(LoadSnapshotError::CpuVendorMismatch(msg)) => {
            assert!(msg.contains("AuthenticAMD"));
            assert!(msg.contains("GenuineIntel"));
        },
        other => panic!("expected CpuVendorMismatch, got {:?}", other),
    }
    assert!(validate_x86_64_cpu_vendor(&intel_host(), &MicrovmState {
        vcpu_states: vec![test_vcpu(b"GenuineIntel")],
        ..state
    })
    .is_ok());
    let no_host: Option<Vec<u8>> = None;
    let empty_state = MicrovmState {
        vm_info: VmInfo { mem_size_mib: 1 },
        memory_state: describe(&test_memory(vec![0u8; MIB])),
        vm_state: VmState { data: Vec::new() },
        vcpu_states: vec![test_vcpu(b"GenuineIntel")],
        device_states: no_devices(),
    };
    match validate_x86_64_cpu_vendor(&no_host, &empty_state) {
        Err(LoadSnapshotError::CpuVendorMismatch(msg)) => {
            assert_eq!(msg, "Failed to read vendor from CPUID.");
        },
        other => panic!("expected CpuVendorMismatch, got {:?}", other),
    }
}

// The snapshot file layout: magic, then the data version, little-endian.
#[test]
fn test_snapshot_file_framing() {
    let vmm = test_vmm(vec![0u8; MIB], no_devices(), None);
    let map = default_version_map();
    let mut mem_file: Vec<u8> = Vec::new();
    let params = CreateSnapshotParams { snapshot_type: SnapshotType::Full, version: None };
    let snap = create_snapshot(&vmm, &mut mem_file, &params, &map).unwrap();
    let magic = u64::from_le_bytes(snap[0..8].try_into().unwrap());
    assert_eq!(magic, vmm_snapshot::snapshot::SNAPSHOT_MAGIC_ID);
    let version = u16::from_le_bytes(snap[8..10].try_into().unwrap());
    assert_eq!(version, 2);
    // the state declares one region of 1 MiB
    let mem_size_mib = u64::from_le_bytes(snap[10..18].try_into().unwrap());
    assert_eq!(mem_size_mib, 1);

    // loading through the serializer directly gives the same state
    let loaded = Snapshot::load(&snap, &map).unwrap();
    assert_eq!(loaded.vm_info, VmInfo { mem_size_mib: 1 });
}

// Restoring against a descriptor that reaches past the backing file fails.
#[test]
fn test_restore_rejects_short_file() {
    let mem = test_memory(vec![0u8; MIB]);
    let state = describe(&mem);
    let file = vec![0u8; MIB - 1];
    assert!(restore(&file, &state, false).is_err());
    let whole = vec![0u8; MIB];
    assert!(restore(&whole, &state, false).is_ok());
}
