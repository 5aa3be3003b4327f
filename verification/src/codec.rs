//! Byte-level encoding and decoding of the state tree, against a target
//! schema version for each participating type. Encodings are little-endian;
//! every count and blob length is a 64-bit field.

use vstd::prelude::*;
use vstd::bytes::*;
use crate::memory_snapshot::GuestMemoryRegionState;
use crate::snapshot::Error;
use crate::state::{
    append_byte_range, append_bytes, blobs_view, opt_blob_view, spec_lens_ok, vcpus_view, CpuidEntry,
    DeviceStates, DeviceStatesV, MicrovmState, MicrovmStateV, VcpuState, VcpuStateV, VmInfo,
    VmState,
};
use crate::version_map::{VersionMap, VersionedType};

verus! {

// ---------------------------------------------------------------------------
// Encoders (specification level, over views)
// ---------------------------------------------------------------------------

pub open spec fn enc_u16(x: u16) -> Seq<u8> {
    spec_u16_to_le_bytes(x)
}

pub open spec fn enc_u32(x: u32) -> Seq<u8> {
    spec_u32_to_le_bytes(x)
}

pub open spec fn enc_u64(x: u64) -> Seq<u8> {
    spec_u64_to_le_bytes(x)
}

/// A byte blob: its length, then its bytes.
pub open spec fn enc_blob(b: Seq<u8>) -> Seq<u8> {
    enc_u64(b.len() as u64) + b
}

/// An optional blob: a presence tag, then the blob if present.
pub open spec fn enc_opt_blob(o: Option<Seq<u8>>) -> Seq<u8> {
    match o {
        None => seq![0u8],
        Some(b) => seq![1u8] + enc_blob(b),
    }
}

pub open spec fn enc_blob_list(v: Seq<Seq<u8>>) -> Seq<u8>
    decreases v.len(),
{
    if v.len() == 0 {
        Seq::empty()
    } else {
        enc_blob(v.first()) + enc_blob_list(v.drop_first())
    }
}

/// A vector of blobs: its count, then the blobs.
pub open spec fn enc_blob_vec(v: Seq<Seq<u8>>) -> Seq<u8> {
    enc_u64(v.len() as u64) + enc_blob_list(v)
}

pub open spec fn enc_region(r: GuestMemoryRegionState) -> Seq<u8> {
    enc_u64(r.base_address) + enc_u64(r.size) + enc_u64(r.offset)
}

pub open spec fn enc_region_list(v: Seq<GuestMemoryRegionState>) -> Seq<u8>
    decreases v.len(),
{
    if v.len() == 0 {
        Seq::empty()
    } else {
        enc_region(v.first()) + enc_region_list(v.drop_first())
    }
}

/// A memory descriptor: its region count, then the region records.
pub open spec fn enc_memory_state(v: Seq<GuestMemoryRegionState>) -> Seq<u8> {
    enc_u64(v.len() as u64) + enc_region_list(v)
}

pub open spec fn enc_cpuid_entry(e: CpuidEntry) -> Seq<u8> {
    enc_u32(e.function) + enc_u32(e.index) + enc_u32(e.flags) + enc_u32(e.eax) + enc_u32(e.ebx)
        + enc_u32(e.ecx) + enc_u32(e.edx)
}

pub open spec fn enc_cpuid_list(v: Seq<CpuidEntry>) -> Seq<u8>
    decreases v.len(),
{
    if v.len() == 0 {
        Seq::empty()
    } else {
        enc_cpuid_entry(v.first()) + enc_cpuid_list(v.drop_first())
    }
}

pub open spec fn enc_cpuid_vec(v: Seq<CpuidEntry>) -> Seq<u8> {
    enc_u64(v.len() as u64) + enc_cpuid_list(v)
}

pub open spec fn enc_vcpu(v: VcpuStateV) -> Seq<u8> {
    enc_cpuid_vec(v.cpuid) + enc_blob(v.regs)
}

pub open spec fn enc_vcpu_list(v: Seq<VcpuStateV>) -> Seq<u8>
    decreases v.len(),
{
    if v.len() == 0 {
        Seq::empty()
    } else {
        enc_vcpu(v.first()) + enc_vcpu_list(v.drop_first())
    }
}

pub open spec fn enc_vcpu_vec(v: Seq<VcpuStateV>) -> Seq<u8> {
    enc_u64(v.len() as u64) + enc_vcpu_list(v)
}

/// The device container, at a schema version of it. Schema version 1 does
/// not know the balloon device: encoding a state that carries one at that
/// version fails rather than dropping the field silently. Unknown schema
/// versions fail.
pub open spec fn enc_device_states(d: DeviceStatesV, tv: u16) -> Option<Seq<u8>> {
    if tv == 1 {
        if d.balloon_device is Some {
            None
        } else {
            Some(
                enc_blob_vec(d.block_devices) + enc_blob_vec(d.net_devices) + enc_opt_blob(
                    d.vsock_device,
                ),
            )
        }
    } else if tv == 2 {
        Some(
            enc_blob_vec(d.block_devices) + enc_blob_vec(d.net_devices) + enc_opt_blob(
                d.vsock_device,
            ) + enc_opt_blob(d.balloon_device),
        )
    } else {
        None
    }
}

/// The whole aggregate, with the device container at schema version `tv`.
pub open spec fn enc_microvm_state(m: MicrovmStateV, tv: u16) -> Option<Seq<u8>> {
    match enc_device_states(m.device_states, tv) {
        None => None,
        Some(ds) => Some(
            enc_u64(m.vm_info.mem_size_mib) + enc_memory_state(m.memory_state) + enc_blob(
                m.vm_state,
            ) + enc_vcpu_vec(m.vcpu_states) + ds,
        ),
    }
}

// ---------------------------------------------------------------------------
// Decoders (specification level)
// ---------------------------------------------------------------------------

pub open spec fn dec_u8(s: Seq<u8>, i: int) -> Option<(u8, int)> {
    if 0 <= i && i + 1 <= s.len() {
        Some((s[i], i + 1))
    } else {
        None
    }
}

pub open spec fn dec_u16(s: Seq<u8>, i: int) -> Option<(u16, int)> {
    if 0 <= i && i + 2 <= s.len() {
        Some((spec_u16_from_le_bytes(s.subrange(i, i + 2)), i + 2))
    } else {
        None
    }
}

pub open spec fn dec_u32(s: Seq<u8>, i: int) -> Option<(u32, int)> {
    if 0 <= i && i + 4 <= s.len() {
        Some((spec_u32_from_le_bytes(s.subrange(i, i + 4)), i + 4))
    } else {
        None
    }
}

pub open spec fn dec_u64(s: Seq<u8>, i: int) -> Option<(u64, int)> {
    if 0 <= i && i + 8 <= s.len() {
        Some((spec_u64_from_le_bytes(s.subrange(i, i + 8)), i + 8))
    } else {
        None
    }
}

pub open spec fn dec_blob(s: Seq<u8>, i: int) -> Option<(Seq<u8>, int)> {
    match dec_u64(s, i) {
        None => None,
        Some((n, j)) => if j + n <= s.len() {
            Some((s.subrange(j, j + n), j + n))
        } else {
            None
        },
    }
}

pub open spec fn dec_opt_blob(s: Seq<u8>, i: int) -> Option<(Option<Seq<u8>>, int)> {
    match dec_u8(s, i) {
        None => None,
        Some((t, j)) => if t == 0 {
            Some((None, j))
        } else if t == 1 {
            match dec_blob(s, j) {
                None => None,
                Some((b, k)) => Some((Some(b), k)),
            }
        } else {
            None
        },
    }
}

pub open spec fn dec_blob_list(s: Seq<u8>, i: int, n: nat) -> Option<(Seq<Seq<u8>>, int)>
    decreases n,
{
    if n == 0 {
        Some((Seq::empty(), i))
    } else {
        match dec_blob(s, i) {
            None => None,
            Some((b, j)) => match dec_blob_list(s, j, (n - 1) as nat) {
                None => None,
                Some((v, k)) => Some((seq![b] + v, k)),
            },
        }
    }
}

pub open spec fn dec_blob_vec(s: Seq<u8>, i: int) -> Option<(Seq<Seq<u8>>, int)> {
    match dec_u64(s, i) {
        None => None,
        Some((n, j)) => dec_blob_list(s, j, n as nat),
    }
}

pub open spec fn dec_region(s: Seq<u8>, i: int) -> Option<(GuestMemoryRegionState, int)> {
    match dec_u64(s, i) {
        None => None,
        Some((base_address, j)) => match dec_u64(s, j) {
            None => None,
            Some((size, k)) => match dec_u64(s, k) {
                None => None,
                Some((offset, l)) => Some((GuestMemoryRegionState { base_address, size, offset }, l)),
            },
        },
    }
}

pub open spec fn dec_region_list(s: Seq<u8>, i: int, n: nat) -> Option<
    (Seq<GuestMemoryRegionState>, int),
>
    decreases n,
{
    if n == 0 {
        Some((Seq::empty(), i))
    } else {
        match dec_region(s, i) {
            None => None,
            Some((r, j)) => match dec_region_list(s, j, (n - 1) as nat) {
                None => None,
                Some((v, k)) => Some((seq![r] + v, k)),
            },
        }
    }
}

pub open spec fn dec_memory_state(s: Seq<u8>, i: int) -> Option<(Seq<GuestMemoryRegionState>, int)> {
    match dec_u64(s, i) {
        None => None,
        Some((n, j)) => dec_region_list(s, j, n as nat),
    }
}

pub open spec fn dec_cpuid_entry(s: Seq<u8>, i: int) -> Option<(CpuidEntry, int)> {
    match dec_u32(s, i) {
        None => None,
        Some((function, i1)) => match dec_u32(s, i1) {
            None => None,
            Some((index, i2)) => match dec_u32(s, i2) {
                None => None,
                Some((flags, i3)) => match dec_u32(s, i3) {
                    None => None,
                    Some((eax, i4)) => match dec_u32(s, i4) {
                        None => None,
                        Some((ebx, i5)) => match dec_u32(s, i5) {
                            None => None,
                            Some((ecx, i6)) => match dec_u32(s, i6) {
                                None => None,
                                Some((edx, i7)) => Some(
                                    (CpuidEntry { function, index, flags, eax, ebx, ecx, edx }, i7),
                                ),
                            },
                        },
                    },
                },
            },
        },
    }
}

pub open spec fn dec_cpuid_list(s: Seq<u8>, i: int, n: nat) -> Option<(Seq<CpuidEntry>, int)>
    decreases n,
{
    if n == 0 {
        Some((Seq::empty(), i))
    } else {
        match dec_cpuid_entry(s, i) {
            None => None,
            Some((e, j)) => match dec_cpuid_list(s, j, (n - 1) as nat) {
                None => None,
                Some((v, k)) => Some((seq![e] + v, k)),
            },
        }
    }
}

pub open spec fn dec_cpuid_vec(s: Seq<u8>, i: int) -> Option<(Seq<CpuidEntry>, int)> {
    match dec_u64(s, i) {
        None => None,
        Some((n, j)) => dec_cpuid_list(s, j, n as nat),
    }
}

pub open spec fn dec_vcpu(s: Seq<u8>, i: int) -> Option<(VcpuStateV, int)> {
    match dec_cpuid_vec(s, i) {
        None => None,
        Some((cpuid, j)) => match dec_blob(s, j) {
            None => None,
            Some((regs, k)) => Some((VcpuStateV { cpuid, regs }, k)),
        },
    }
}

pub open spec fn dec_vcpu_list(s: Seq<u8>, i: int, n: nat) -> Option<(Seq<VcpuStateV>, int)>
    decreases n,
{
    if n == 0 {
        Some((Seq::empty(), i))
    } else {
        match dec_vcpu(s, i) {
            None => None,
            Some((v, j)) => match dec_vcpu_list(s, j, (n - 1) as nat) {
                None => None,
                Some((vs, k)) => Some((seq![v] + vs, k)),
            },
        }
    }
}

pub open spec fn dec_vcpu_vec(s: Seq<u8>, i: int) -> Option<(Seq<VcpuStateV>, int)> {
    match dec_u64(s, i) {
        None => None,
        Some((n, j)) => dec_vcpu_list(s, j, n as nat),
    }
}

/// Reading at schema version 1 gives the balloon its documented default:
/// absent.
pub open spec fn dec_device_states(s: Seq<u8>, i: int, tv: u16) -> Option<(DeviceStatesV, int)> {
    if tv != 1 && tv != 2 {
        None
    } else {
        match dec_blob_vec(s, i) {
            None => None,
            Some((block_devices, i1)) => match dec_blob_vec(s, i1) {
                None => None,
                Some((net_devices, i2)) => match dec_opt_blob(s, i2) {
                    None => None,
                    Some((vsock_device, i3)) => if tv == 1 {
                        Some(
                            (
                                DeviceStatesV {
                                    block_devices,
                                    net_devices,
                                    vsock_device,
                                    balloon_device: None,
                                },
                                i3,
                            ),
                        )
                    } else {
                        match dec_opt_blob(s, i3) {
                            None => None,
                            Some((balloon_device, i4)) => Some(
                                (
                                    DeviceStatesV {
                                        block_devices,
                                        net_devices,
                                        vsock_device,
                                        balloon_device,
                                    },
                                    i4,
                                ),
                            ),
                        }
                    },
                },
            },
        }
    }
}

pub open spec fn dec_microvm_state(s: Seq<u8>, i: int, tv: u16) -> Option<(MicrovmStateV, int)> {
    match dec_u64(s, i) {
        None => None,
        Some((mem_size_mib, i1)) => match dec_memory_state(s, i1) {
            None => None,
            Some((memory_state, i2)) => match dec_blob(s, i2) {
                None => None,
                Some((vm_state, i3)) => match dec_vcpu_vec(s, i3) {
                    None => None,
                    Some((vcpu_states, i4)) => match dec_device_states(s, i4, tv) {
                        None => None,
                        Some((device_states, i5)) => Some(
                            (
                                MicrovmStateV {
                                    vm_info: VmInfo { mem_size_mib },
                                    memory_state,
                                    vm_state,
                                    vcpu_states,
                                    device_states,
                                },
                                i5,
                            ),
                        ),
                    },
                },
            },
        },
    }
}

// ---------------------------------------------------------------------------
// Round trip: decoding an encoding, wherever it sits inside a larger byte
// sequence, yields the encoded value and stops right after it.
// ---------------------------------------------------------------------------

/// Splits knowledge about a subrange that holds a concatenation.
pub proof fn lemma_subrange_split(c: Seq<u8>, i: int, a: Seq<u8>, b: Seq<u8>)
    requires
        0 <= i,
        i + a.len() + b.len() <= c.len(),
        c.subrange(i, i + a.len() + b.len()) == a + b,
    ensures
        c.subrange(i, i + a.len()) == a,
        c.subrange(i + a.len(), i + a.len() + b.len()) == b,
{
    let whole = c.subrange(i, i + a.len() + b.len());
    assert(c.subrange(i, i + a.len()) =~= a) by {
        assert forall|k: int| 0 <= k < a.len() implies c.subrange(i, i + a.len())[k] == a[k] by {
            assert(whole[k] == (a + b)[k]);
        }
    }
    assert(c.subrange(i + a.len(), i + a.len() + b.len()) =~= b) by {
        assert forall|k: int|
            0 <= k < b.len() implies c.subrange(i + a.len(), i + a.len() + b.len())[k] == b[k] by {
            assert(whole[a.len() + k] == (a + b)[a.len() + k]);
        }
    }
}

pub proof fn lemma_dec_u8_at(c: Seq<u8>, i: int, x: u8)
    requires
        0 <= i,
        i + 1 <= c.len(),
        c.subrange(i, i + 1) == seq![x],
    ensures
        dec_u8(c, i) == Some((x, i + 1)),
{
    assert(c[i] == c.subrange(i, i + 1)[0]);
}

pub proof fn lemma_dec_u16_at(c: Seq<u8>, i: int, x: u16)
    requires
        0 <= i,
        i + 2 <= c.len(),
        c.subrange(i, i + 2) == enc_u16(x),
    ensures
        dec_u16(c, i) == Some((x, i + 2)),
{
    lemma_auto_spec_u16_to_from_le_bytes();
    assert(spec_u16_to_le_bytes(x).len() == 2);
    assert(spec_u16_from_le_bytes(spec_u16_to_le_bytes(x)) == x);
}

pub proof fn lemma_dec_u32_at(c: Seq<u8>, i: int, x: u32)
    requires
        0 <= i,
        i + 4 <= c.len(),
        c.subrange(i, i + 4) == enc_u32(x),
    ensures
        dec_u32(c, i) == Some((x, i + 4)),
{
    lemma_auto_spec_u32_to_from_le_bytes();
    assert(spec_u32_to_le_bytes(x).len() == 4);
    assert(spec_u32_from_le_bytes(spec_u32_to_le_bytes(x)) == x);
}

pub proof fn lemma_dec_u64_at(c: Seq<u8>, i: int, x: u64)
    requires
        0 <= i,
        i + 8 <= c.len(),
        c.subrange(i, i + 8) == enc_u64(x),
    ensures
        dec_u64(c, i) == Some((x, i + 8)),
{
    lemma_auto_spec_u64_to_from_le_bytes();
}

pub proof fn lemma_dec_blob_at(c: Seq<u8>, i: int, b: Seq<u8>)
    requires
        0 <= i,
        b.len() <= u64::MAX,
        i + enc_blob(b).len() <= c.len(),
        c.subrange(i, i + enc_blob(b).len()) == enc_blob(b),
    ensures
        enc_blob(b).len() == 8 + b.len(),
        dec_blob(c, i) == Some((b, i + enc_blob(b).len())),
{
    lemma_auto_spec_u64_to_from_le_bytes();
    lemma_subrange_split(c, i, enc_u64(b.len() as u64), b);
    lemma_dec_u64_at(c, i, b.len() as u64);
}

pub proof fn lemma_dec_opt_blob_at(c: Seq<u8>, i: int, o: Option<Seq<u8>>)
    requires
        0 <= i,
        o matches Some(b) ==> b.len() <= u64::MAX,
        i + enc_opt_blob(o).len() <= c.len(),
        c.subrange(i, i + enc_opt_blob(o).len()) == enc_opt_blob(o),
    ensures
        dec_opt_blob(c, i) == Some((o, i + enc_opt_blob(o).len())),
{
    match o {
        None => {
            lemma_dec_u8_at(c, i, 0u8);
        },
        Some(b) => {
            lemma_auto_spec_u64_to_from_le_bytes();
            lemma_subrange_split(c, i, seq![1u8], enc_blob(b));
            lemma_dec_u8_at(c, i, 1u8);
            lemma_dec_blob_at(c, i + 1, b);
        },
    }
}

pub proof fn lemma_dec_blob_list_at(c: Seq<u8>, i: int, v: Seq<Seq<u8>>)
    requires
        0 <= i,
        forall|k: int| 0 <= k < v.len() ==> (#[trigger] v[k].len()) <= u64::MAX,
        i + enc_blob_list(v).len() <= c.len(),
        c.subrange(i, i + enc_blob_list(v).len()) == enc_blob_list(v),
    ensures
        dec_blob_list(c, i, v.len()) == Some((v, i + enc_blob_list(v).len())),
    decreases v.len(),
{
    if v.len() == 0 {
        assert(v =~= Seq::<Seq<u8>>::empty());
    } else {
        let b0 = v.first();
        let rest = v.drop_first();
        assert(v[0].len() <= u64::MAX);
        assert forall|k: int| 0 <= k < rest.len() implies (#[trigger] rest[k].len())
            <= u64::MAX by {
            assert(rest[k] == v[k + 1]);
        }
        lemma_subrange_split(c, i, enc_blob(b0), enc_blob_list(rest));
        lemma_dec_blob_at(c, i, b0);
        lemma_dec_blob_list_at(c, i + enc_blob(b0).len(), rest);
        assert(seq![b0] + rest =~= v);
    }
}

pub proof fn lemma_dec_blob_vec_at(c: Seq<u8>, i: int, v: Seq<Seq<u8>>)
    requires
        0 <= i,
        v.len() <= u64::MAX,
        forall|k: int| 0 <= k < v.len() ==> (#[trigger] v[k].len()) <= u64::MAX,
        i + enc_blob_vec(v).len() <= c.len(),
        c.subrange(i, i + enc_blob_vec(v).len()) == enc_blob_vec(v),
    ensures
        dec_blob_vec(c, i) == Some((v, i + enc_blob_vec(v).len())),
{
    lemma_auto_spec_u64_to_from_le_bytes();
    lemma_subrange_split(c, i, enc_u64(v.len() as u64), enc_blob_list(v));
    lemma_dec_u64_at(c, i, v.len() as u64);
    lemma_dec_blob_list_at(c, i + 8, v);
}

pub proof fn lemma_dec_region_at(c: Seq<u8>, i: int, r: GuestMemoryRegionState)
    requires
        0 <= i,
        i + 24 <= c.len(),
        c.subrange(i, i + 24) == enc_region(r),
    ensures
        enc_region(r).len() == 24,
        dec_region(c, i) == Some((r, i + 24)),
{
    lemma_auto_spec_u64_to_from_le_bytes();
    assert(enc_region(r) == (enc_u64(r.base_address) + enc_u64(r.size)) + enc_u64(r.offset));
    assert(enc_u64(r.base_address) + enc_u64(r.size) + enc_u64(r.offset) == (enc_u64(
        r.base_address,
    ) + enc_u64(r.size)) + enc_u64(r.offset));
    lemma_subrange_split(c, i, enc_u64(r.base_address) + enc_u64(r.size), enc_u64(r.offset));
    lemma_subrange_split(c, i, enc_u64(r.base_address), enc_u64(r.size));
    lemma_dec_u64_at(c, i, r.base_address);
    lemma_dec_u64_at(c, i + 8, r.size);
    lemma_dec_u64_at(c, i + 16, r.offset);
}

pub proof fn lemma_dec_region_list_at(c: Seq<u8>, i: int, v: Seq<GuestMemoryRegionState>)
    requires
        0 <= i,
        i + enc_region_list(v).len() <= c.len(),
        c.subrange(i, i + enc_region_list(v).len()) == enc_region_list(v),
    ensures
        dec_region_list(c, i, v.len()) == Some((v, i + enc_region_list(v).len())),
    decreases v.len(),
{
    if v.len() == 0 {
        assert(v =~= Seq::<GuestMemoryRegionState>::empty());
    } else {
        let r0 = v.first();
        let rest = v.drop_first();
        lemma_auto_spec_u64_to_from_le_bytes();
        lemma_subrange_split(c, i, enc_region(r0), enc_region_list(rest));
        lemma_dec_region_at(c, i, r0);
        lemma_dec_region_list_at(c, i + 24, rest);
        assert(seq![r0] + rest =~= v);
    }
}

pub proof fn lemma_dec_memory_state_at(c: Seq<u8>, i: int, v: Seq<GuestMemoryRegionState>)
    requires
        0 <= i,
        v.len() <= u64::MAX,
        i + enc_memory_state(v).len() <= c.len(),
        c.subrange(i, i + enc_memory_state(v).len()) == enc_memory_state(v),
    ensures
        dec_memory_state(c, i) == Some((v, i + enc_memory_state(v).len())),
{
    lemma_auto_spec_u64_to_from_le_bytes();
    lemma_subrange_split(c, i, enc_u64(v.len() as u64), enc_region_list(v));
    lemma_dec_u64_at(c, i, v.len() as u64);
    lemma_dec_region_list_at(c, i + 8, v);
}

pub proof fn lemma_dec_cpuid_entry_at(c: Seq<u8>, i: int, e: CpuidEntry)
    requires
        0 <= i,
        i + 28 <= c.len(),
        c.subrange(i, i + 28) == enc_cpuid_entry(e),
    ensures
        enc_cpuid_entry(e).len() == 28,
        dec_cpuid_entry(c, i) == Some((e, i + 28)),
{
    lemma_auto_spec_u32_to_from_le_bytes();
    let p1 = enc_u32(e.function);
    let p2 = enc_u32(e.index);
    let p3 = enc_u32(e.flags);
    let p4 = enc_u32(e.eax);
    let p5 = enc_u32(e.ebx);
    let p6 = enc_u32(e.ecx);
    let p7 = enc_u32(e.edx);
    lemma_subrange_split(c, i, p1 + p2 + p3 + p4 + p5 + p6, p7);
    lemma_subrange_split(c, i, p1 + p2 + p3 + p4 + p5, p6);
    lemma_subrange_split(c, i, p1 + p2 + p3 + p4, p5);
    lemma_subrange_split(c, i, p1 + p2 + p3, p4);
    lemma_subrange_split(c, i, p1 + p2, p3);
    lemma_subrange_split(c, i, p1, p2);
    lemma_dec_u32_at(c, i, e.function);
    lemma_dec_u32_at(c, i + 4, e.index);
    lemma_dec_u32_at(c, i + 8, e.flags);
    lemma_dec_u32_at(c, i + 12, e.eax);
    lemma_dec_u32_at(c, i + 16, e.ebx);
    lemma_dec_u32_at(c, i + 20, e.ecx);
    lemma_dec_u32_at(c, i + 24, e.edx);
}

pub proof fn lemma_dec_cpuid_list_at(c: Seq<u8>, i: int, v: Seq<CpuidEntry>)
    requires
        0 <= i,
        i + enc_cpuid_list(v).len() <= c.len(),
        c.subrange(i, i + enc_cpuid_list(v).len()) == enc_cpuid_list(v),
    ensures
        dec_cpuid_list(c, i, v.len()) == Some((v, i + enc_cpuid_list(v).len())),
    decreases v.len(),
{
    if v.len() == 0 {
        assert(v =~= Seq::<CpuidEntry>::empty());
    } else {
        let e0 = v.first();
        let rest = v.drop_first();
        lemma_auto_spec_u32_to_from_le_bytes();
        lemma_subrange_split(c, i, enc_cpuid_entry(e0), enc_cpuid_list(rest));
        lemma_dec_cpuid_entry_at(c, i, e0);
        lemma_dec_cpuid_list_at(c, i + 28, rest);
        assert(seq![e0] + rest =~= v);
    }
}

pub proof fn lemma_dec_cpuid_vec_at(c: Seq<u8>, i: int, v: Seq<CpuidEntry>)
    requires
        0 <= i,
        v.len() <= u64::MAX,
        i + enc_cpuid_vec(v).len() <= c.len(),
        c.subrange(i, i + enc_cpuid_vec(v).len()) == enc_cpuid_vec(v),
    ensures
        dec_cpuid_vec(c, i) == Some((v, i + enc_cpuid_vec(v).len())),
{
    lemma_auto_spec_u64_to_from_le_bytes();
    lemma_subrange_split(c, i, enc_u64(v.len() as u64), enc_cpuid_list(v));
    lemma_dec_u64_at(c, i, v.len() as u64);
    lemma_dec_cpuid_list_at(c, i + 8, v);
}

pub proof fn lemma_dec_vcpu_at(c: Seq<u8>, i: int, v: VcpuStateV)
    requires
        0 <= i,
        v.cpuid.len() <= u64::MAX,
        v.regs.len() <= u64::MAX,
        i + enc_vcpu(v).len() <= c.len(),
        c.subrange(i, i + enc_vcpu(v).len()) == enc_vcpu(v),
    ensures
        dec_vcpu(c, i) == Some((v, i + enc_vcpu(v).len())),
{
    lemma_subrange_split(c, i, enc_cpuid_vec(v.cpuid), enc_blob(v.regs));
    lemma_dec_cpuid_vec_at(c, i, v.cpuid);
    lemma_dec_blob_at(c, i + enc_cpuid_vec(v.cpuid).len(), v.regs);
}

pub proof fn lemma_dec_vcpu_list_at(c: Seq<u8>, i: int, v: Seq<VcpuStateV>)
    requires
        0 <= i,
        forall|k: int|
            0 <= k < v.len() ==> (#[trigger] v[k].cpuid.len()) <= u64::MAX && v[k].regs.len()
                <= u64::MAX,
        i + enc_vcpu_list(v).len() <= c.len(),
        c.subrange(i, i + enc_vcpu_list(v).len()) == enc_vcpu_list(v),
    ensures
        dec_vcpu_list(c, i, v.len()) == Some((v, i + enc_vcpu_list(v).len())),
    decreases v.len(),
{
    if v.len() == 0 {
        assert(v =~= Seq::<VcpuStateV>::empty());
    } else {
        let v0 = v.first();
        let rest = v.drop_first();
        assert(v[0].cpuid.len() <= u64::MAX && v[0].regs.len() <= u64::MAX);
        assert forall|k: int|
            0 <= k < rest.len() implies (#[trigger] rest[k].cpuid.len()) <= u64::MAX
            && rest[k].regs.len() <= u64::MAX by {
            assert(rest[k] == v[k + 1]);
        }
        lemma_subrange_split(c, i, enc_vcpu(v0), enc_vcpu_list(rest));
        lemma_dec_vcpu_at(c, i, v0);
        lemma_dec_vcpu_list_at(c, i + enc_vcpu(v0).len(), rest);
        assert(seq![v0] + rest =~= v);
    }
}

pub proof fn lemma_dec_vcpu_vec_at(c: Seq<u8>, i: int, v: Seq<VcpuStateV>)
    requires
        0 <= i,
        v.len() <= u64::MAX,
        forall|k: int|
            0 <= k < v.len() ==> (#[trigger] v[k].cpuid.len()) <= u64::MAX && v[k].regs.len()
                <= u64::MAX,
        i + enc_vcpu_vec(v).len() <= c.len(),
        c.subrange(i, i + enc_vcpu_vec(v).len()) == enc_vcpu_vec(v),
    ensures
        dec_vcpu_vec(c, i) == Some((v, i + enc_vcpu_vec(v).len())),
{
    lemma_auto_spec_u64_to_from_le_bytes();
    lemma_subrange_split(c, i, enc_u64(v.len() as u64), enc_vcpu_list(v));
    lemma_dec_u64_at(c, i, v.len() as u64);
    lemma_dec_vcpu_list_at(c, i + 8, v);
}

pub proof fn lemma_dec_device_states_at(c: Seq<u8>, i: int, d: DeviceStatesV, tv: u16)
    requires
        0 <= i,
        d.block_devices.len() <= u64::MAX,
        forall|k: int|
            0 <= k < d.block_devices.len() ==> (#[trigger] d.block_devices[k].len()) <= u64::MAX,
        d.net_devices.len() <= u64::MAX,
        forall|k: int|
            0 <= k < d.net_devices.len() ==> (#[trigger] d.net_devices[k].len()) <= u64::MAX,
        d.vsock_device matches Some(b) ==> b.len() <= u64::MAX,
        d.balloon_device matches Some(b) ==> b.len() <= u64::MAX,
        enc_device_states(d, tv) is Some,
        i + enc_device_states(d, tv).unwrap().len() <= c.len(),
        c.subrange(i, i + enc_device_states(d, tv).unwrap().len()) == enc_device_states(
            d,
            tv,
        ).unwrap(),
    ensures
        dec_device_states(c, i, tv) == Some((d, i + enc_device_states(d, tv).unwrap().len())),
{
    let blocks = enc_blob_vec(d.block_devices);
    let nets = enc_blob_vec(d.net_devices);
    let vsock = enc_opt_blob(d.vsock_device);
    if tv == 1 {
        assert(enc_device_states(d, tv).unwrap() == (blocks + nets) + vsock);
        lemma_subrange_split(c, i, blocks + nets, vsock);
        lemma_subrange_split(c, i, blocks, nets);
        lemma_dec_blob_vec_at(c, i, d.block_devices);
        lemma_dec_blob_vec_at(c, i + blocks.len(), d.net_devices);
        lemma_dec_opt_blob_at(c, i + blocks.len() + nets.len(), d.vsock_device);
        assert(d == DeviceStatesV {
            block_devices: d.block_devices,
            net_devices: d.net_devices,
            vsock_device: d.vsock_device,
            balloon_device: None,
        });
    } else {
        let balloon = enc_opt_blob(d.balloon_device);
        assert(enc_device_states(d, tv).unwrap() == ((blocks + nets) + vsock) + balloon);
        lemma_subrange_split(c, i, (blocks + nets) + vsock, balloon);
        lemma_subrange_split(c, i, blocks + nets, vsock);
        lemma_subrange_split(c, i, blocks, nets);
        lemma_dec_blob_vec_at(c, i, d.block_devices);
        lemma_dec_blob_vec_at(c, i + blocks.len(), d.net_devices);
        lemma_dec_opt_blob_at(c, i + blocks.len() + nets.len(), d.vsock_device);
        lemma_dec_opt_blob_at(c, i + blocks.len() + nets.len() + vsock.len(), d.balloon_device);
    }
}

/// Round trip of the aggregate: wherever an encoding of `m` (at schema
/// version `tv` for the device container) sits inside `c`, decoding from its
/// start yields exactly `m` and stops right after it.
pub proof fn lemma_dec_microvm_state_at(c: Seq<u8>, i: int, m: MicrovmStateV, tv: u16)
    requires
        0 <= i,
        spec_lens_ok(m),
        enc_microvm_state(m, tv) is Some,
        i + enc_microvm_state(m, tv).unwrap().len() <= c.len(),
        c.subrange(i, i + enc_microvm_state(m, tv).unwrap().len()) == enc_microvm_state(
            m,
            tv,
        ).unwrap(),
    ensures
        dec_microvm_state(c, i, tv) == Some((m, i + enc_microvm_state(m, tv).unwrap().len())),
{
    let info = enc_u64(m.vm_info.mem_size_mib);
    let mem = enc_memory_state(m.memory_state);
    let vm = enc_blob(m.vm_state);
    let vcpus = enc_vcpu_vec(m.vcpu_states);
    let ds = enc_device_states(m.device_states, tv).unwrap();
    lemma_auto_spec_u64_to_from_le_bytes();
    assert(enc_microvm_state(m, tv).unwrap() == (((info + mem) + vm) + vcpus) + ds);
    lemma_subrange_split(c, i, ((info + mem) + vm) + vcpus, ds);
    lemma_subrange_split(c, i, (info + mem) + vm, vcpus);
    lemma_subrange_split(c, i, info + mem, vm);
    lemma_subrange_split(c, i, info, mem);
    lemma_dec_u64_at(c, i, m.vm_info.mem_size_mib);
    lemma_dec_memory_state_at(c, i + 8, m.memory_state);
    lemma_dec_blob_at(c, i + 8 + mem.len(), m.vm_state);
    lemma_dec_vcpu_vec_at(c, i + 8 + mem.len() + vm.len(), m.vcpu_states);
    lemma_dec_device_states_at(c, i + 8 + mem.len() + vm.len() + vcpus.len(), m.device_states, tv);
    assert(m == MicrovmStateV {
        vm_info: VmInfo { mem_size_mib: m.vm_info.mem_size_mib },
        memory_state: m.memory_state,
        vm_state: m.vm_state,
        vcpu_states: m.vcpu_states,
        device_states: m.device_states,
    });
}

// ---------------------------------------------------------------------------
// Appending one element to an encoded list
// ---------------------------------------------------------------------------

proof fn lemma_enc_blob_list_snoc(v: Seq<Seq<u8>>, b: Seq<u8>)
    ensures
        enc_blob_list(v.push(b)) == enc_blob_list(v) + enc_blob(b),
    decreases v.len(),
{
    if v.len() == 0 {
        assert(v.push(b).drop_first() =~= Seq::<Seq<u8>>::empty());
        assert(enc_blob_list(v) + enc_blob(b) =~= enc_blob(b) + enc_blob_list(
            Seq::<Seq<u8>>::empty(),
        ));
    } else {
        assert(v.push(b).drop_first() =~= v.drop_first().push(b));
        lemma_enc_blob_list_snoc(v.drop_first(), b);
        assert(enc_blob(v.first()) + (enc_blob_list(v.drop_first()) + enc_blob(b)) =~= (enc_blob(
            v.first(),
        ) + enc_blob_list(v.drop_first())) + enc_blob(b));
    }
}

proof fn lemma_enc_region_list_snoc(v: Seq<GuestMemoryRegionState>, r: GuestMemoryRegionState)
    ensures
        enc_region_list(v.push(r)) == enc_region_list(v) + enc_region(r),
    decreases v.len(),
{
    if v.len() == 0 {
        assert(v.push(r).drop_first() =~= Seq::<GuestMemoryRegionState>::empty());
        assert(enc_region_list(v) + enc_region(r) =~= enc_region(r) + enc_region_list(
            Seq::<GuestMemoryRegionState>::empty(),
        ));
    } else {
        assert(v.push(r).drop_first() =~= v.drop_first().push(r));
        lemma_enc_region_list_snoc(v.drop_first(), r);
        assert(enc_region(v.first()) + (enc_region_list(v.drop_first()) + enc_region(r))
            =~= (enc_region(v.first()) + enc_region_list(v.drop_first())) + enc_region(r));
    }
}

proof fn lemma_enc_cpuid_list_snoc(v: Seq<CpuidEntry>, e: CpuidEntry)
    ensures
        enc_cpuid_list(v.push(e)) == enc_cpuid_list(v) + enc_cpuid_entry(e),
    decreases v.len(),
{
    if v.len() == 0 {
        assert(v.push(e).drop_first() =~= Seq::<CpuidEntry>::empty());
        assert(enc_cpuid_list(v) + enc_cpuid_entry(e) =~= enc_cpuid_entry(e) + enc_cpuid_list(
            Seq::<CpuidEntry>::empty(),
        ));
    } else {
        assert(v.push(e).drop_first() =~= v.drop_first().push(e));
        lemma_enc_cpuid_list_snoc(v.drop_first(), e);
        assert(enc_cpuid_entry(v.first()) + (enc_cpuid_list(v.drop_first()) + enc_cpuid_entry(e))
            =~= (enc_cpuid_entry(v.first()) + enc_cpuid_list(v.drop_first())) + enc_cpuid_entry(e));
    }
}

proof fn lemma_enc_vcpu_list_snoc(v: Seq<VcpuStateV>, s: VcpuStateV)
    ensures
        enc_vcpu_list(v.push(s)) == enc_vcpu_list(v) + enc_vcpu(s),
    decreases v.len(),
{
    if v.len() == 0 {
        assert(v.push(s).drop_first() =~= Seq::<VcpuStateV>::empty());
        assert(enc_vcpu_list(v) + enc_vcpu(s) =~= enc_vcpu(s) + enc_vcpu_list(
            Seq::<VcpuStateV>::empty(),
        ));
    } else {
        assert(v.push(s).drop_first() =~= v.drop_first().push(s));
        lemma_enc_vcpu_list_snoc(v.drop_first(), s);
        assert(enc_vcpu(v.first()) + (enc_vcpu_list(v.drop_first()) + enc_vcpu(s)) =~= (enc_vcpu(
            v.first(),
        ) + enc_vcpu_list(v.drop_first())) + enc_vcpu(s));
    }
}

// ---------------------------------------------------------------------------
// Executable writers
// ---------------------------------------------------------------------------

pub fn write_u16(buf: &mut Vec<u8>, x: u16)
    ensures
        final (buf)@ == old(buf)@ + enc_u16(x),
{
    let mut b = u16_to_le_bytes(x);
    buf.append(&mut b);
}

pub fn write_u32(buf: &mut Vec<u8>, x: u32)
    ensures
        final (buf)@ == old(buf)@ + enc_u32(x),
{
    let mut b = u32_to_le_bytes(x);
    buf.append(&mut b);
}

pub fn write_u64(buf: &mut Vec<u8>, x: u64)
    ensures
        final (buf)@ == old(buf)@ + enc_u64(x),
{
    let mut b = u64_to_le_bytes(x);
    buf.append(&mut b);
}

pub fn write_blob(buf: &mut Vec<u8>, b: &Vec<u8>)
    ensures
        final (buf)@ == old(buf)@ + enc_blob(b@),
{
    write_u64(buf, b.len() as u64);
    append_bytes(buf, b.as_slice());
    assert(buf@ =~= old(buf)@ + enc_blob(b@));
}

pub fn write_opt_blob(buf: &mut Vec<u8>, o: &Option<Vec<u8>>)
    ensures
        final (buf)@ == old(buf)@ + enc_opt_blob(opt_blob_view(*o)),
{
    match o {
        None => {
            buf.push(0u8);
            assert(buf@ =~= old(buf)@ + enc_opt_blob(None));
        },
        Some(b) => {
            buf.push(1u8);
            assert(buf@ =~= old(buf)@ + seq![1u8]);
            write_blob(buf, b);
            assert(buf@ =~= old(buf)@ + enc_opt_blob(opt_blob_view(*o)));
        },
    }
}

pub fn write_blob_vec(buf: &mut Vec<u8>, v: &Vec<Vec<u8>>)
    ensures
        final (buf)@ == old(buf)@ + enc_blob_vec(blobs_view(v@)),
{
    write_u64(buf, v.len() as u64);
    let ghost head = old(buf)@ + enc_u64(v@.len() as u64);
    let mut i: usize = 0;
    while i < v.len()
        invariant
            i <= v@.len(),
            head == old(buf)@ + enc_u64(v@.len() as u64),
            buf@ == head + enc_blob_list(blobs_view(v@).take(i as int)),
        decreases v@.len() - i,
    {
        let ghost pre = blobs_view(v@).take(i as int);
        write_blob(buf, &v[i]);
        proof {
            lemma_enc_blob_list_snoc(pre, v@[i as int]@);
            assert(blobs_view(v@).take(i + 1) =~= pre.push(v@[i as int]@));
            assert(head + (enc_blob_list(pre) + enc_blob(v@[i as int]@)) =~= (head + enc_blob_list(
                pre,
            )) + enc_blob(v@[i as int]@));
        }
        i = i + 1;
    }
    assert(blobs_view(v@).take(v@.len() as int) =~= blobs_view(v@));
    assert(buf@ =~= old(buf)@ + enc_blob_vec(blobs_view(v@)));
}

pub fn write_region(buf: &mut Vec<u8>, r: &GuestMemoryRegionState)
    ensures
        final (buf)@ == old(buf)@ + enc_region(*r),
{
    write_u64(buf, r.base_address);
    write_u64(buf, r.size);
    write_u64(buf, r.offset);
    assert(buf@ =~= old(buf)@ + enc_region(*r));
}

pub fn write_memory_state(buf: &mut Vec<u8>, v: &Vec<GuestMemoryRegionState>)
    ensures
        final (buf)@ == old(buf)@ + enc_memory_state(v@),
{
    write_u64(buf, v.len() as u64);
    let ghost head = old(buf)@ + enc_u64(v@.len() as u64);
    let mut i: usize = 0;
    while i < v.len()
        invariant
            i <= v@.len(),
            head == old(buf)@ + enc_u64(v@.len() as u64),
            buf@ == head + enc_region_list(v@.take(i as int)),
        decreases v@.len() - i,
    {
        let ghost pre = v@.take(i as int);
        write_region(buf, &v[i]);
        proof {
            lemma_enc_region_list_snoc(pre, v@[i as int]);
            assert(v@.take(i + 1) =~= pre.push(v@[i as int]));
            assert(head + (enc_region_list(pre) + enc_region(v@[i as int])) =~= (head
                + enc_region_list(pre)) + enc_region(v@[i as int]));
        }
        i = i + 1;
    }
    assert(v@.take(v@.len() as int) =~= v@);
    assert(buf@ =~= old(buf)@ + enc_memory_state(v@));
}

pub fn write_cpuid_entry(buf: &mut Vec<u8>, e: &CpuidEntry)
    ensures
        final (buf)@ == old(buf)@ + enc_cpuid_entry(*e),
{
    write_u32(buf, e.function);
    write_u32(buf, e.index);
    write_u32(buf, e.flags);
    write_u32(buf, e.eax);
    write_u32(buf, e.ebx);
    write_u32(buf, e.ecx);
    write_u32(buf, e.edx);
    assert(buf@ =~= old(buf)@ + enc_cpuid_entry(*e));
}

pub fn write_cpuid_vec(buf: &mut Vec<u8>, v: &Vec<CpuidEntry>)
    ensures
        final (buf)@ == old(buf)@ + enc_cpuid_vec(v@),
{
    write_u64(buf, v.len() as u64);
    let ghost head = old(buf)@ + enc_u64(v@.len() as u64);
    let mut i: usize = 0;
    while i < v.len()
        invariant
            i <= v@.len(),
            head == old(buf)@ + enc_u64(v@.len() as u64),
            buf@ == head + enc_cpuid_list(v@.take(i as int)),
        decreases v@.len() - i,
    {
        let ghost pre = v@.take(i as int);
        write_cpuid_entry(buf, &v[i]);
        proof {
            lemma_enc_cpuid_list_snoc(pre, v@[i as int]);
            assert(v@.take(i + 1) =~= pre.push(v@[i as int]));
            assert(head + (enc_cpuid_list(pre) + enc_cpuid_entry(v@[i as int])) =~= (head
                + enc_cpuid_list(pre)) + enc_cpuid_entry(v@[i as int]));
        }
        i = i + 1;
    }
    assert(v@.take(v@.len() as int) =~= v@);
    assert(buf@ =~= old(buf)@ + enc_cpuid_vec(v@));
}

pub fn write_vcpu(buf: &mut Vec<u8>, v: &VcpuState)
    ensures
        final (buf)@ == old(buf)@ + enc_vcpu(v@),
{
    write_cpuid_vec(buf, &v.cpuid);
    write_blob(buf, &v.regs);
    assert(buf@ =~= old(buf)@ + enc_vcpu(v@));
}

pub fn write_vcpu_vec(buf: &mut Vec<u8>, v: &Vec<VcpuState>)
    ensures
        final (buf)@ == old(buf)@ + enc_vcpu_vec(vcpus_view(v@)),
{
    write_u64(buf, v.len() as u64);
    let ghost head = old(buf)@ + enc_u64(v@.len() as u64);
    let mut i: usize = 0;
    while i < v.len()
        invariant
            i <= v@.len(),
            head == old(buf)@ + enc_u64(v@.len() as u64),
            buf@ == head + enc_vcpu_list(vcpus_view(v@).take(i as int)),
        decreases v@.len() - i,
    {
        let ghost pre = vcpus_view(v@).take(i as int);
        write_vcpu(buf, &v[i]);
        proof {
            lemma_enc_vcpu_list_snoc(pre, v@[i as int]@);
            assert(vcpus_view(v@).take(i + 1) =~= pre.push(v@[i as int]@));
            assert(head + (enc_vcpu_list(pre) + enc_vcpu(v@[i as int]@)) =~= (head + enc_vcpu_list(
                pre,
            )) + enc_vcpu(v@[i as int]@));
        }
        i = i + 1;
    }
    assert(vcpus_view(v@).take(v@.len() as int) =~= vcpus_view(v@));
    assert(buf@ =~= old(buf)@ + enc_vcpu_vec(vcpus_view(v@)));
}

pub fn write_device_states(buf: &mut Vec<u8>, d: &DeviceStates, tv: u16)
    requires
        tv == 2 || (tv == 1 && d@.balloon_device is None),
    ensures
        enc_device_states(d@, tv) is Some,
        final (buf)@ == old(buf)@ + enc_device_states(d@, tv).unwrap(),
{
    write_blob_vec(buf, &d.block_devices);
    write_blob_vec(buf, &d.net_devices);
    write_opt_blob(buf, &d.vsock_device);
    if tv == 2 {
        write_opt_blob(buf, &d.balloon_device);
    }
    assert(buf@ =~= old(buf)@ + enc_device_states(d@, tv).unwrap());
}

// ---------------------------------------------------------------------------
// Executable readers; each mirrors its decoder exactly
// ---------------------------------------------------------------------------

pub fn read_u8(buf: &Vec<u8>, pos: usize) -> (r: Option<(u8, usize)>)
    ensures
        match r {
            Some((x, end)) => dec_u8(buf@, pos as int) == Some((x, end as int)) && pos < end
                <= buf@.len(),
            None => dec_u8(buf@, pos as int) is None,
        },
{
    if pos < buf.len() {
        Some((buf[pos], pos + 1))
    } else {
        None
    }
}

pub fn read_u16(buf: &Vec<u8>, pos: usize) -> (r: Option<(u16, usize)>)
    ensures
        match r {
            Some((x, end)) => dec_u16(buf@, pos as int) == Some((x, end as int)) && pos < end
                <= buf@.len(),
            None => dec_u16(buf@, pos as int) is None,
        },
{
    if buf.len() >= 2 && pos <= buf.len() - 2 {
        let s = vstd::slice::slice_subrange(buf.as_slice(), pos, pos + 2);
        Some((u16_from_le_bytes(s), pos + 2))
    } else {
        None
    }
}

pub fn read_u32(buf: &Vec<u8>, pos: usize) -> (r: Option<(u32, usize)>)
    ensures
        match r {
            Some((x, end)) => dec_u32(buf@, pos as int) == Some((x, end as int)) && pos < end
                <= buf@.len(),
            None => dec_u32(buf@, pos as int) is None,
        },
{
    if buf.len() >= 4 && pos <= buf.len() - 4 {
        let s = vstd::slice::slice_subrange(buf.as_slice(), pos, pos + 4);
        Some((u32_from_le_bytes(s), pos + 4))
    } else {
        None
    }
}

pub fn read_u64(buf: &Vec<u8>, pos: usize) -> (r: Option<(u64, usize)>)
    ensures
        match r {
            Some((x, end)) => dec_u64(buf@, pos as int) == Some((x, end as int)) && pos < end
                <= buf@.len(),
            None => dec_u64(buf@, pos as int) is None,
        },
{
    if buf.len() >= 8 && pos <= buf.len() - 8 {
        let s = vstd::slice::slice_subrange(buf.as_slice(), pos, pos + 8);
        Some((u64_from_le_bytes(s), pos + 8))
    } else {
        None
    }
}

pub fn read_blob(buf: &Vec<u8>, pos: usize) -> (r: Option<(Vec<u8>, usize)>)
    ensures
        match r {
            Some((b, end)) => dec_blob(buf@, pos as int) == Some((b@, end as int)) && pos < end
                <= buf@.len(),
            None => dec_blob(buf@, pos as int) is None,
        },
{
    match read_u64(buf, pos) {
        None => None,
        Some((n, start)) => {
            if n > (buf.len() - start) as u64 {
                None
            } else {
                let end = start + (n as usize);
                let mut b: Vec<u8> = Vec::new();
                append_byte_range(&mut b, buf, start, end);
                Some((b, end))
            }
        },
    }
}

pub fn read_opt_blob(buf: &Vec<u8>, pos: usize) -> (r: Option<(Option<Vec<u8>>, usize)>)
    ensures
        match r {
            Some((o, end)) => dec_opt_blob(buf@, pos as int) == Some(
                (opt_blob_view(o), end as int),
            ) && pos < end <= buf@.len(),
            None => dec_opt_blob(buf@, pos as int) is None,
        },
{
    match read_u8(buf, pos) {
        None => None,
        Some((tag, start)) => {
            if tag == 0 {
                Some((None, start))
            } else if tag == 1 {
                match read_blob(buf, start) {
                    None => None,
                    Some((b, end)) => Some((Some(b), end)),
                }
            } else {
                None
            }
        },
    }
}

pub fn read_blob_vec(buf: &Vec<u8>, pos: usize) -> (r: Option<(Vec<Vec<u8>>, usize)>)
    ensures
        match r {
            Some((v, end)) => dec_blob_vec(buf@, pos as int) == Some(
                (blobs_view(v@), end as int),
            ) && pos < end <= buf@.len(),
            None => dec_blob_vec(buf@, pos as int) is None,
        },
{
    match read_u64(buf, pos) {
        None => None,
        Some((n, start)) => {
            let mut acc: Vec<Vec<u8>> = Vec::new();
            let mut p: usize = start;
            let mut k: u64 = 0;
            assert(blobs_view(acc@) =~= Seq::<Seq<u8>>::empty());
            while k < n
                invariant
                    k <= n,
                    pos < p <= buf@.len(),
                    dec_u64(buf@, pos as int) == Some((n, start as int)),
                    match dec_blob_list(buf@, p as int, (n - k) as nat) {
                        None => dec_blob_list(buf@, start as int, n as nat) is None,
                        Some((v, e)) => dec_blob_list(buf@, start as int, n as nat) == Some(
                            (blobs_view(acc@) + v, e),
                        ),
                    },
                decreases n - k,
            {
                let ghost m = (n - k) as nat;
                assert(m != 0);
                match read_blob(buf, p) {
                    None => {
                        assert(dec_blob_list(buf@, p as int, m) is None);
                        return None;
                    },
                    Some((b, np)) => {
                        let ghost before = blobs_view(acc@);
                        acc.push(b);
                        proof {
                            assert(blobs_view(acc@) =~= before.push(b@));
                            let rest = dec_blob_list(buf@, np as int, (m - 1) as nat);
                            if rest is Some {
                                let (v, e) = rest->Some_0;
                                assert(dec_blob_list(buf@, p as int, m) == Some((seq![b@] + v, e)));
                                assert(before.push(b@) + v =~= before + (seq![b@] + v));
                            }
                        }
                        p = np;
                        k = k + 1;
                    },
                }
            }
            assert(dec_blob_list(buf@, p as int, 0) == Some((Seq::<Seq<u8>>::empty(), p as int)));
            assert(blobs_view(acc@) + Seq::<Seq<u8>>::empty() =~= blobs_view(acc@));
            Some((acc, p))
        },
    }
}

pub fn read_region(buf: &Vec<u8>, pos: usize) -> (r: Option<(GuestMemoryRegionState, usize)>)
    ensures
        match r {
            Some((x, end)) => dec_region(buf@, pos as int) == Some((x, end as int)) && pos < end
                <= buf@.len(),
            None => dec_region(buf@, pos as int) is None,
        },
{
    match read_u64(buf, pos) {
        None => None,
        Some((base_address, p1)) => match read_u64(buf, p1) {
            None => None,
            Some((size, p2)) => match read_u64(buf, p2) {
                None => None,
                Some((offset, p3)) => Some(
                    (GuestMemoryRegionState { base_address, size, offset }, p3),
                ),
            },
        },
    }
}

pub fn read_memory_state(buf: &Vec<u8>, pos: usize) -> (r: Option<
    (Vec<GuestMemoryRegionState>, usize),
>)
    ensures
        match r {
            Some((v, end)) => dec_memory_state(buf@, pos as int) == Some((v@, end as int)) && pos
                < end <= buf@.len(),
            None => dec_memory_state(buf@, pos as int) is None,
        },
{
    match read_u64(buf, pos) {
        None => None,
        Some((n, start)) => {
            let mut acc: Vec<GuestMemoryRegionState> = Vec::new();
            let mut p: usize = start;
            let mut k: u64 = 0;
            while k < n
                invariant
                    k <= n,
                    pos < p <= buf@.len(),
                    dec_u64(buf@, pos as int) == Some((n, start as int)),
                    match dec_region_list(buf@, p as int, (n - k) as nat) {
                        None => dec_region_list(buf@, start as int, n as nat) is None,
                        Some((v, e)) => dec_region_list(buf@, start as int, n as nat) == Some(
                            (acc@ + v, e),
                        ),
                    },
                decreases n - k,
            {
                let ghost m = (n - k) as nat;
                assert(m != 0);
                match read_region(buf, p) {
                    None => {
                        assert(dec_region_list(buf@, p as int, m) is None);
                        return None;
                    },
                    Some((x, np)) => {
                        let ghost before = acc@;
                        acc.push(x);
                        proof {
                            let rest = dec_region_list(buf@, np as int, (m - 1) as nat);
                            if rest is Some {
                                let (v, e) = rest->Some_0;
                                assert(dec_region_list(buf@, p as int, m) == Some((seq![x] + v, e)));
                                assert(before.push(x) + v =~= before + (seq![x] + v));
                            }
                        }
                        p = np;
                        k = k + 1;
                    },
                }
            }
            assert(acc@ + Seq::<GuestMemoryRegionState>::empty() =~= acc@);
            Some((acc, p))
        },
    }
}

pub fn read_cpuid_entry(buf: &Vec<u8>, pos: usize) -> (r: Option<(CpuidEntry, usize)>)
    ensures
        match r {
            Some((e, end)) => dec_cpuid_entry(buf@, pos as int) == Some((e, end as int)) && pos
                < end <= buf@.len(),
            None => dec_cpuid_entry(buf@, pos as int) is None,
        },
{
    match read_u32(buf, pos) {
        None => None,
        Some((function, p1)) => match read_u32(buf, p1) {
            None => None,
            Some((index, p2)) => match read_u32(buf, p2) {
                None => None,
                Some((flags, p3)) => match read_u32(buf, p3) {
                    None => None,
                    Some((eax, p4)) => match read_u32(buf, p4) {
                        None => None,
                        Some((ebx, p5)) => match read_u32(buf, p5) {
                            None => None,
                            Some((ecx, p6)) => match read_u32(buf, p6) {
                                None => None,
                                Some((edx, p7)) => Some(
                                    (CpuidEntry { function, index, flags, eax, ebx, ecx, edx }, p7),
                                ),
                            },
                        },
                    },
                },
            },
        },
    }
}

pub fn read_cpuid_vec(buf: &Vec<u8>, pos: usize) -> (r: Option<(Vec<CpuidEntry>, usize)>)
    ensures
        match r {
            Some((v, end)) => dec_cpuid_vec(buf@, pos as int) == Some((v@, end as int)) && pos
                < end <= buf@.len(),
            None => dec_cpuid_vec(buf@, pos as int) is None,
        },
{
    match read_u64(buf, pos) {
        None => None,
        Some((n, start)) => {
            let mut acc: Vec<CpuidEntry> = Vec::new();
            let mut p: usize = start;
            let mut k: u64 = 0;
            while k < n
                invariant
                    k <= n,
                    pos < p <= buf@.len(),
                    dec_u64(buf@, pos as int) == Some((n, start as int)),
                    match dec_cpuid_list(buf@, p as int, (n - k) as nat) {
                        None => dec_cpuid_list(buf@, start as int, n as nat) is None,
                        Some((v, e)) => dec_cpuid_list(buf@, start as int, n as nat) == Some(
                            (acc@ + v, e),
                        ),
                    },
                decreases n - k,
            {
                let ghost m = (n - k) as nat;
                assert(m != 0);
                match read_cpuid_entry(buf, p) {
                    None => {
                        assert(dec_cpuid_list(buf@, p as int, m) is None);
                        return None;
                    },
                    Some((x, np)) => {
                        let ghost before = acc@;
                        acc.push(x);
                        proof {
                            let rest = dec_cpuid_list(buf@, np as int, (m - 1) as nat);
                            if rest is Some {
                                let (v, e) = rest->Some_0;
                                assert(dec_cpuid_list(buf@, p as int, m) == Some((seq![x] + v, e)));
                                assert(before.push(x) + v =~= before + (seq![x] + v));
                            }
                        }
                        p = np;
                        k = k + 1;
                    },
                }
            }
            assert(acc@ + Seq::<CpuidEntry>::empty() =~= acc@);
            Some((acc, p))
        },
    }
}

pub fn read_vcpu(buf: &Vec<u8>, pos: usize) -> (r: Option<(VcpuState, usize)>)
    ensures
        match r {
            Some((v, end)) => dec_vcpu(buf@, pos as int) == Some((v@, end as int)) && pos < end
                <= buf@.len(),
            None => dec_vcpu(buf@, pos as int) is None,
        },
{
    match read_cpuid_vec(buf, pos) {
        None => None,
        Some((cpuid, p1)) => match read_blob(buf, p1) {
            None => None,
            Some((regs, p2)) => Some((VcpuState { cpuid, regs }, p2)),
        },
    }
}

pub fn read_vcpu_vec(buf: &Vec<u8>, pos: usize) -> (r: Option<(Vec<VcpuState>, usize)>)
    ensures
        match r {
            Some((v, end)) => dec_vcpu_vec(buf@, pos as int) == Some(
                (vcpus_view(v@), end as int),
            ) && pos < end <= buf@.len(),
            None => dec_vcpu_vec(buf@, pos as int) is None,
        },
{
    match read_u64(buf, pos) {
        None => None,
        Some((n, start)) => {
            let mut acc: Vec<VcpuState> = Vec::new();
            let mut p: usize = start;
            let mut k: u64 = 0;
            assert(vcpus_view(acc@) =~= Seq::<VcpuStateV>::empty());
            while k < n
                invariant
                    k <= n,
                    pos < p <= buf@.len(),
                    dec_u64(buf@, pos as int) == Some((n, start as int)),
                    match dec_vcpu_list(buf@, p as int, (n - k) as nat) {
                        None => dec_vcpu_list(buf@, start as int, n as nat) is None,
                        Some((v, e)) => dec_vcpu_list(buf@, start as int, n as nat) == Some(
                            (vcpus_view(acc@) + v, e),
                        ),
                    },
                decreases n - k,
            {
                let ghost m = (n - k) as nat;
                assert(m != 0);
                match read_vcpu(buf, p) {
                    None => {
                        assert(dec_vcpu_list(buf@, p as int, m) is None);
                        return None;
                    },
                    Some((x, np)) => {
                        let ghost before = vcpus_view(acc@);
                        acc.push(x);
                        proof {
                            assert(vcpus_view(acc@) =~= before.push(x@));
                            let rest = dec_vcpu_list(buf@, np as int, (m - 1) as nat);
                            if rest is Some {
                                let (v, e) = rest->Some_0;
                                assert(dec_vcpu_list(buf@, p as int, m) == Some((seq![x@] + v, e)));
                                assert(before.push(x@) + v =~= before + (seq![x@] + v));
                            }
                        }
                        p = np;
                        k = k + 1;
                    },
                }
            }
            assert(vcpus_view(acc@) + Seq::<VcpuStateV>::empty() =~= vcpus_view(acc@));
            Some((acc, p))
        },
    }
}

pub fn read_device_states(buf: &Vec<u8>, pos: usize, tv: u16) -> (r: Option<(DeviceStates, usize)>)
    ensures
        match r {
            Some((d, end)) => dec_device_states(buf@, pos as int, tv) == Some((d@, end as int))
                && pos < end <= buf@.len(),
            None => dec_device_states(buf@, pos as int, tv) is None,
        },
{
    if tv != 1 && tv != 2 {
        return None;
    }
    match read_blob_vec(buf, pos) {
        None => None,
        Some((block_devices, p1)) => match read_blob_vec(buf, p1) {
            None => None,
            Some((net_devices, p2)) => match read_opt_blob(buf, p2) {
                None => None,
                Some((vsock_device, p3)) => {
                    if tv == 1 {
                        let d = DeviceStates {
                            block_devices,
                            net_devices,
                            vsock_device,
                            balloon_device: None,
                        };
                        Some((d, p3))
                    } else {
                        match read_opt_blob(buf, p3) {
                            None => None,
                            Some((balloon_device, p4)) => {
                                let d = DeviceStates {
                                    block_devices,
                                    net_devices,
                                    vsock_device,
                                    balloon_device,
                                };
                                Some((d, p4))
                            },
                        }
                    }
                },
            },
        },
    }
}

pub fn read_microvm_state(buf: &Vec<u8>, pos: usize, tv: u16) -> (r: Option<(MicrovmState, usize)>)
    ensures
        match r {
            Some((m, end)) => dec_microvm_state(buf@, pos as int, tv) == Some((m@, end as int))
                && pos < end <= buf@.len(),
            None => dec_microvm_state(buf@, pos as int, tv) is None,
        },
{
    match read_u64(buf, pos) {
        None => None,
        Some((mem_size_mib, p1)) => match read_memory_state(buf, p1) {
            None => None,
            Some((regions, p2)) => match read_blob(buf, p2) {
                None => None,
                Some((data, p3)) => match read_vcpu_vec(buf, p3) {
                    None => None,
                    Some((vcpu_states, p4)) => match read_device_states(buf, p4, tv) {
                        None => None,
                        Some((device_states, p5)) => Some(
                            (
                                MicrovmState {
                                    vm_info: VmInfo { mem_size_mib },
                                    memory_state: crate::memory_snapshot::GuestMemoryState {
                                        regions,
                                    },
                                    vm_state: VmState { data },
                                    vcpu_states,
                                    device_states,
                                },
                                p5,
                            ),
                        ),
                    },
                },
            },
        },
    }
}

impl MicrovmState {
    /// Encodes the state against `target_version`, using the schema version
    /// that the version map declares for the device container there. Fails
    /// with a schema-incompatibility error, rather than dropping fields,
    /// when the state cannot be represented at that version.
    pub fn serialize(&self, version_map: &VersionMap, target_version: u16) -> (r: Result<
        Vec<u8>,
        Error,
    >)
        requires
            version_map.wf(),
        ensures
            ({
                let tv = version_map.spec_type_version(target_version, VersionedType::DeviceStates);
                match r {
                    Ok(bytes) => enc_microvm_state(self@, tv) == Some(bytes@),
                    Err(e) => enc_microvm_state(self@, tv) is None && e is Semantic,
                }
            }),
    {
        let tv = version_map.type_version(target_version, VersionedType::DeviceStates);
        if tv != 1 && tv != 2 {
            return Err(
                Error::Semantic("the device container has no such schema version".to_owned()),
            );
        }
        if tv == 1 && self.device_states.balloon_device.is_some() {
            return Err(
                Error::Semantic(
                    "the target version does not support the balloon device".to_owned(),
                ),
            );
        }
        let mut buf: Vec<u8> = Vec::new();
        write_u64(&mut buf, self.vm_info.mem_size_mib);
        write_memory_state(&mut buf, &self.memory_state.regions);
        write_blob(&mut buf, &self.vm_state.data);
        write_vcpu_vec(&mut buf, &self.vcpu_states);
        write_device_states(&mut buf, &self.device_states, tv);
        assert(buf@ =~= enc_microvm_state(self@, tv).unwrap());
        Ok(buf)
    }

    /// Decodes a state from the front of `bytes` at data version `version`,
    /// using the schema version the map declares for the device container
    /// there. Fields that the schema version does not carry take their
    /// documented defaults.
    pub fn deserialize(bytes: &Vec<u8>, version_map: &VersionMap, version: u16) -> (r: Result<
        MicrovmState,
        Error,
    >)
        requires
            version_map.wf(),
        ensures
            ({
                let tv = version_map.spec_type_version(version, VersionedType::DeviceStates);
                match r {
                    Ok(m) => dec_microvm_state(bytes@, 0, tv) matches Some((v, end)) && v == m@,
                    Err(e) => dec_microvm_state(bytes@, 0, tv) is None && e is Serde,
                }
            }),
    {
        let tv = version_map.type_version(version, VersionedType::DeviceStates);
        match read_microvm_state(bytes, 0, tv) {
            Some((m, _end)) => Ok(m),
            None => Err(Error::Serde("the snapshot payload does not decode".to_owned())),
        }
    }
}

} // verus!

