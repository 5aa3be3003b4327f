//! Per-subsystem state records that a snapshot carries, and the mathematical
//! views that the serializer's contracts are stated over.

use vstd::prelude::*;
use vstd::slice::{slice_subrange, slice_to_vec};
use crate::memory_snapshot::{GuestMemoryRegionState, GuestMemoryState};

verus! {

/// Information about the VM that is not part of its hardware state.
#[derive(Debug, Clone, Copy, PartialEq, Eq, Structural)]
pub struct VmInfo {
    /// Guest memory size in MiB.
    pub mem_size_mib: u64,
}

/// VM-wide hardware state. The persistence core treats it as an opaque,
/// versionable blob owned by the VM collaborator.
#[derive(Debug, Clone, PartialEq)]
pub struct VmState {
    pub data: Vec<u8>,
}

impl View for VmState {
    type V = Seq<u8>;

    open spec fn view(&self) -> Seq<u8> {
        self.data@
    }
}

/// One CPUID leaf of a virtual CPU's CPUID view.
#[derive(Debug, Clone, Copy, PartialEq, Eq, Structural)]
pub struct CpuidEntry {
    pub function: u32,
    pub index: u32,
    pub flags: u32,
    pub eax: u32,
    pub ebx: u32,
    pub ecx: u32,
    pub edx: u32,
}

/// State of one virtual CPU: its CPUID view and an opaque register blob.
#[derive(Debug, Clone, PartialEq)]
pub struct VcpuState {
    pub cpuid: Vec<CpuidEntry>,
    pub regs: Vec<u8>,
}

#[verifier::ext_equal]
pub struct VcpuStateV {
    pub cpuid: Seq<CpuidEntry>,
    pub regs: Seq<u8>,
}

impl View for VcpuState {
    type V = VcpuStateV;

    open spec fn view(&self) -> VcpuStateV {
        VcpuStateV { cpuid: self.cpuid@, regs: self.regs@ }
    }
}

/// States of the attached devices, one field per device kind. Schema
/// version 1 knows block, net and vsock; schema version 2 adds the balloon.
#[derive(Debug, Clone, PartialEq)]
pub struct DeviceStates {
    pub block_devices: Vec<Vec<u8>>,
    pub net_devices: Vec<Vec<u8>>,
    pub vsock_device: Option<Vec<u8>>,
    pub balloon_device: Option<Vec<u8>>,
}

#[verifier::ext_equal]
pub struct DeviceStatesV {
    pub block_devices: Seq<Seq<u8>>,
    pub net_devices: Seq<Seq<u8>>,
    pub vsock_device: Option<Seq<u8>>,
    pub balloon_device: Option<Seq<u8>>,
}

/// The sequence of byte views of a vector of byte blobs.
pub open spec fn blobs_view(v: Seq<Vec<u8>>) -> Seq<Seq<u8>> {
    v.map_values(|b: Vec<u8>| b@)
}

/// The byte view of an optional byte blob.
pub open spec fn opt_blob_view(o: Option<Vec<u8>>) -> Option<Seq<u8>> {
    match o {
        None => None,
        Some(b) => Some(b@),
    }
}

impl View for DeviceStates {
    type V = DeviceStatesV;

    open spec fn view(&self) -> DeviceStatesV {
        DeviceStatesV {
            block_devices: blobs_view(self.block_devices@),
            net_devices: blobs_view(self.net_devices@),
            vsock_device: opt_blob_view(self.vsock_device),
            balloon_device: opt_blob_view(self.balloon_device),
        }
    }
}

impl DeviceStates {
    /// A container with no devices attached.
    pub fn new() -> (r: DeviceStates)
        ensures
            r@.block_devices =~= Seq::<Seq<u8>>::empty(),
            r@.net_devices =~= Seq::<Seq<u8>>::empty(),
            r@.vsock_device is None,
            r@.balloon_device is None,
    {
        let r = DeviceStates {
            block_devices: Vec::new(),
            net_devices: Vec::new(),
            vsock_device: None,
            balloon_device: None,
        };
        assert(r@.block_devices =~= Seq::<Seq<u8>>::empty());
        assert(r@.net_devices =~= Seq::<Seq<u8>>::empty());
        r
    }
}

/// The complete state needed to save or restore a microVM: the aggregate
/// root that a snapshot file carries.
#[derive(Debug, PartialEq)]
pub struct MicrovmState {
    /// Miscellaneous VM info.
    pub vm_info: VmInfo,
    /// Memory descriptor.
    pub memory_state: GuestMemoryState,
    /// VM-wide hardware state.
    pub vm_state: VmState,
    /// One state record per virtual CPU, in VCPU index order.
    pub vcpu_states: Vec<VcpuState>,
    /// Device states.
    pub device_states: DeviceStates,
}

#[verifier::ext_equal]
pub struct MicrovmStateV {
    pub vm_info: VmInfo,
    pub memory_state: Seq<GuestMemoryRegionState>,
    pub vm_state: Seq<u8>,
    pub vcpu_states: Seq<VcpuStateV>,
    pub device_states: DeviceStatesV,
}

/// The sequence of views of a vector of VCPU states.
pub open spec fn vcpus_view(v: Seq<VcpuState>) -> Seq<VcpuStateV> {
    v.map_values(|s: VcpuState| s@)
}

impl View for MicrovmState {
    type V = MicrovmStateV;

    open spec fn view(&self) -> MicrovmStateV {
        MicrovmStateV {
            vm_info: self.vm_info,
            memory_state: self.memory_state@,
            vm_state: self.vm_state@,
            vcpu_states: vcpus_view(self.vcpu_states@),
            device_states: self.device_states@,
        }
    }
}

/// Every count and blob length of the state fits the 64-bit length fields of
/// the serialized form. The view of any in-memory state satisfies this.
pub open spec fn spec_lens_ok(m: MicrovmStateV) -> bool {
    &&& m.memory_state.len() <= u64::MAX
    &&& m.vm_state.len() <= u64::MAX
    &&& m.vcpu_states.len() <= u64::MAX
    &&& forall|i: int|
        0 <= i < m.vcpu_states.len() ==> (#[trigger] m.vcpu_states[i].cpuid.len()) <= u64::MAX
            && m.vcpu_states[i].regs.len() <= u64::MAX
    &&& m.device_states.block_devices.len() <= u64::MAX
    &&& forall|i: int|
        0 <= i < m.device_states.block_devices.len() ==> (
        #[trigger] m.device_states.block_devices[i].len()) <= u64::MAX
    &&& m.device_states.net_devices.len() <= u64::MAX
    &&& forall|i: int|
        0 <= i < m.device_states.net_devices.len() ==> (
        #[trigger] m.device_states.net_devices[i].len()) <= u64::MAX
    &&& (m.device_states.vsock_device matches Some(b) ==> b.len() <= u64::MAX)
    &&& (m.device_states.balloon_device matches Some(b) ==> b.len() <= u64::MAX)
}

/// Relies on String::push: appends exactly one character.
#[verifier::external_body]
pub fn push_char(s: &mut String, c: char)
    ensures
        final (s)@ == old(s)@ + seq![c],
{
    s.push(c);
}

/// The decimal rendering of a non-negative number, most significant digit
/// first.
pub open spec fn spec_dec_str(n: int) -> Seq<char>
    decreases n,
{
    if n < 10 {
        seq![((48 + if n < 0 { 0int } else { n }) as u8) as char]
    } else {
        spec_dec_str(n / 10).push(((48 + n % 10) as u8) as char)
    }
}

/// Appends the decimal rendering of `n`.
pub fn push_dec_u64(s: &mut String, n: u64)
    ensures
        final (s)@ == old(s)@ + spec_dec_str(n as int),
    decreases n,
{
    if n >= 10 {
        push_dec_u64(s, n / 10);
    }
    let d = (n % 10) as u8;
    push_char(s, (48 + d) as char);
    assert(s@ =~= old(s)@ + spec_dec_str(n as int));
}

/// The characters that a byte sequence spells, one character per byte.
pub open spec fn ascii_chars(b: Seq<u8>) -> Seq<char> {
    b.map_values(|x: u8| x as char)
}

/// Appends each byte of `b` as a character.
pub fn push_bytes_as_chars(s: &mut String, b: &Vec<u8>)
    ensures
        final (s)@ == old(s)@ + ascii_chars(b@),
{
    let mut i: usize = 0;
    while i < b.len()
        invariant
            i <= b@.len(),
            s@ == old(s)@ + ascii_chars(b@).take(i as int),
        decreases b@.len() - i,
    {
        push_char(s, b[i] as char);
        assert(s@ =~= old(s)@ + ascii_chars(b@).take(i + 1));
        i = i + 1;
    }
    assert(ascii_chars(b@).take(b@.len() as int) =~= ascii_chars(b@));
}

/// Appends `src` to `dst`, exactly.
pub fn append_bytes(dst: &mut Vec<u8>, src: &[u8])
    ensures
        final (dst)@ == old(dst)@ + src@,
{
    dst.extend_from_slice(src);
    proof {
        assert forall|i: int| 0 <= i < dst@.len() implies dst@[i] == (old(dst)@ + src@)[i] by {
            if i >= old(dst)@.len() {
                assert(cloned::<u8>(src@[i - old(dst)@.len()], dst@[i]));
            }
        }
        assert(dst@ =~= old(dst)@ + src@);
    }
}

/// Appends `src[from..to]` to `dst`, exactly.
pub fn append_byte_range(dst: &mut Vec<u8>, src: &Vec<u8>, from: usize, to: usize)
    requires
        from <= to <= src@.len(),
    ensures
        final (dst)@ == old(dst)@ + src@.subrange(from as int, to as int),
{
    let part = slice_subrange(src.as_slice(), from, to);
    append_bytes(dst, part);
}

/// Copies a byte vector, exactly.
pub fn clone_bytes(v: &Vec<u8>) -> (r: Vec<u8>)
    ensures
        r@ == v@,
{
    slice_to_vec(v.as_slice())
}

/// Copies a vector of byte blobs, exactly.
pub fn clone_blobs(v: &Vec<Vec<u8>>) -> (r: Vec<Vec<u8>>)
    ensures
        blobs_view(r@) =~= blobs_view(v@),
{
    let mut r: Vec<Vec<u8>> = Vec::new();
    let mut i: usize = 0;
    while i < v.len()
        invariant
            i <= v@.len(),
            r@.len() == i,
            forall|j: int| 0 <= j < i ==> #[trigger] r@[j]@ == v@[j]@,
        decreases v@.len() - i,
    {
        r.push(clone_bytes(&v[i]));
        i = i + 1;
    }
    assert(blobs_view(r@) =~= blobs_view(v@));
    r
}

/// Copies an optional byte blob, exactly.
pub fn clone_opt_blob(o: &Option<Vec<u8>>) -> (r: Option<Vec<u8>>)
    ensures
        opt_blob_view(r) == opt_blob_view(*o),
{
    match o {
        None => None,
        Some(b) => Some(clone_bytes(b)),
    }
}

/// Copies a vector of CPUID leaves, exactly.
pub fn clone_cpuid(v: &Vec<CpuidEntry>) -> (r: Vec<CpuidEntry>)
    ensures
        r@ == v@,
{
    slice_to_vec(v.as_slice())
}

/// Copies a VM state blob, exactly.
pub fn clone_vm_state(s: &VmState) -> (r: VmState)
    ensures
        r@ == s@,
{
    VmState { data: clone_bytes(&s.data) }
}

/// Copies a vector of VCPU states, exactly.
pub fn clone_vcpu_states(v: &Vec<VcpuState>) -> (r: Vec<VcpuState>)
    ensures
        r@.len() == v@.len(),
        forall|i: int| 0 <= i < v@.len() ==> #[trigger] r@[i]@ == v@[i]@,
{
    let mut r: Vec<VcpuState> = Vec::new();
    let mut i: usize = 0;
    while i < v.len()
        invariant
            i <= v@.len(),
            r@.len() == i,
            forall|j: int| 0 <= j < i ==> #[trigger] r@[j]@ == v@[j]@,
        decreases v@.len() - i,
    {
        let s = &v[i];
        r.push(VcpuState { cpuid: clone_cpuid(&s.cpuid), regs: clone_bytes(&s.regs) });
        i = i + 1;
    }
    r
}

/// Copies a device-state container, exactly.
pub fn clone_device_states(d: &DeviceStates) -> (r: DeviceStates)
    ensures
        r@ == d@,
{
    let r = DeviceStates {
        block_devices: clone_blobs(&d.block_devices),
        net_devices: clone_blobs(&d.net_devices),
        vsock_device: clone_opt_blob(&d.vsock_device),
        balloon_device: clone_opt_blob(&d.balloon_device),
    };
    assert(r@.block_devices =~= d@.block_devices);
    assert(r@.net_devices =~= d@.net_devices);
    r
}

} // verus!
