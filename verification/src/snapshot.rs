//! Snapshot file framing: a fixed magic, the data version, the versioned
//! payload, and a CRC64 over everything before it.

use vstd::prelude::*;
use vstd::string::*;
use vstd::bytes::{lemma_auto_spec_u16_to_from_le_bytes, lemma_auto_spec_u64_to_from_le_bytes};
use crate::codec::{
    dec_microvm_state, dec_u16, dec_u64, enc_microvm_state, enc_u16, enc_u64,
    lemma_dec_microvm_state_at, lemma_dec_u16_at, lemma_dec_u64_at, lemma_subrange_split,
    read_microvm_state, read_u16, read_u64, write_u16, write_u64,
};
use crate::state::{append_bytes, spec_lens_ok, MicrovmState, MicrovmStateV};
use crate::version_map::{VersionMap, VersionedType};

verus! {

/// First bytes of every snapshot file.
pub const SNAPSHOT_MAGIC_ID: u64 = 0x5346_4330_5641_4c54;

/// Errors of the versioned serializer and its framing.
#[derive(Debug, Clone, PartialEq)]
pub enum Error {
    /// The file is too short to hold the fixed framing.
    InvalidSnapshotSize,
    /// The file does not start with the snapshot magic; holds what it
    /// starts with.
    InvalidMagic(u64),
    /// The declared data version is zero or unknown to the version map.
    InvalidDataVersion(u16),
    /// The stored checksum does not match the bytes; holds the computed
    /// checksum.
    Crc64(u64),
    /// The payload does not decode at the declared data version.
    Serde(String),
    /// The state cannot be represented at the requested schema version.
    Semantic(String),
}

impl Error {
    /// One-line human rendering, with the wrapped detail.
    pub fn message(&self) -> (r: String)
        ensures
            r@ == self.spec_message(),
            r@.len() > 0,
    {
        let mut s: String = String::new();
        match self {
            Error::InvalidSnapshotSize => {
                s.append("Snapshot file is smaller than the fixed framing");
            },
            Error::InvalidMagic(found) => {
                s.append("Invalid snapshot magic: ");
                crate::state::push_dec_u64(&mut s, *found);
            },
            Error::InvalidDataVersion(v) => {
                s.append("Invalid snapshot data version: ");
                crate::state::push_dec_u64(&mut s, *v as u64);
            },
            Error::Crc64(computed) => {
                s.append("CRC64 validation failed, computed: ");
                crate::state::push_dec_u64(&mut s, *computed);
            },
            Error::Serde(detail) => {
                s.append("Cannot deserialize: ");
                s.append(detail.as_str());
            },
            Error::Semantic(detail) => {
                s.append("Schema incompatibility: ");
                s.append(detail.as_str());
            },
        }
        proof {
            reveal_strlit("Snapshot file is smaller than the fixed framing");
            reveal_strlit("Invalid snapshot magic: ");
            reveal_strlit("Invalid snapshot data version: ");
            reveal_strlit("CRC64 validation failed, computed: ");
            reveal_strlit("Cannot deserialize: ");
            reveal_strlit("Schema incompatibility: ");
        }
        s
    }

    pub open spec fn spec_message(&self) -> Seq<char> {
        match self {
            Error::InvalidSnapshotSize => "Snapshot file is smaller than the fixed framing"@,
            Error::InvalidMagic(found) => "Invalid snapshot magic: "@ + crate::state::spec_dec_str(
                *found as int,
            ),
            Error::InvalidDataVersion(v) => "Invalid snapshot data version: "@
                + crate::state::spec_dec_str(*v as int),
            Error::Crc64(computed) => "CRC64 validation failed, computed: "@
                + crate::state::spec_dec_str(*computed as int),
            Error::Serde(detail) => "Cannot deserialize: "@ + detail@,
            Error::Semantic(detail) => "Schema incompatibility: "@ + detail@,
        }
    }
}

/// What the 64-bit checksum of a byte sequence is: a fixed function of the
/// bytes alone.
pub uninterp spec fn crc64_of(bytes: Seq<u8>) -> u64;

/// Relies on crc64::crc64: the CRC-64 checksum of `data[start..end]`,
/// computed from those bytes alone.
#[verifier::external_body]
fn crc64_range(data: &Vec<u8>, start: usize, end: usize) -> (r: u64)
    requires
        start <= end <= data@.len(),
    ensures
        r == crc64_of(data@.subrange(start as int, end as int)),
{
    crc64::crc64(0, &data[start..end])
}

/// The file image that saving `m` at data version `dv` produces, when `m`
/// is representable at schema version `tv` of the device container.
pub open spec fn spec_save_bytes(m: MicrovmStateV, dv: u16, tv: u16) -> Option<Seq<u8>> {
    match enc_microvm_state(m, tv) {
        None => None,
        Some(p) => {
            let pre = enc_u64(SNAPSHOT_MAGIC_ID) + enc_u16(dv) + p;
            Some(pre + enc_u64(crc64_of(pre)))
        },
    }
}

/// The state that loading a file image yields, if any: the framing must be
/// whole, the magic and checksum must match, the data version must be one
/// the map knows, and the payload must decode exactly up to the checksum.
pub open spec fn spec_load_result(s: Seq<u8>, vmap: VersionMap) -> Option<MicrovmStateV> {
    if s.len() < 18 {
        None
    } else if dec_u64(s, 0).unwrap().0 != SNAPSHOT_MAGIC_ID {
        None
    } else if !(1 <= dec_u16(s, 8).unwrap().0 <= vmap.spec_latest_version()) {
        None
    } else if dec_u64(s, s.len() - 8).unwrap().0 != crc64_of(s.subrange(0, s.len() - 8)) {
        None
    } else {
        let tv = vmap.spec_type_version(dec_u16(s, 8).unwrap().0, VersionedType::DeviceStates);
        match dec_microvm_state(s, 10, tv) {
            Some((m, end)) => if end == s.len() - 8 {
                Some(m)
            } else {
                None
            },
            None => None,
        }
    }
}

/// The versioned serializer: a version map and the data version to encode
/// at.
pub struct Snapshot {
    pub version_map: VersionMap,
    pub target_version: u16,
}

impl Snapshot {
    pub fn new(version_map: VersionMap, target_version: u16) -> (r: Snapshot)
        ensures
            r.version_map == version_map,
            r.target_version == target_version,
    {
        Snapshot { version_map, target_version }
    }

    /// Produces the snapshot file image of `state`: magic, data version,
    /// versioned payload, CRC64 of everything before it.
    pub fn save(&self, state: &MicrovmState) -> (r: Result<Vec<u8>, Error>)
        requires
            self.version_map.wf(),
        ensures
            ({
                let tv = self.version_map.spec_type_version(
                    self.target_version,
                    VersionedType::DeviceStates,
                );
                match r {
                    Ok(bytes) => Some(bytes@) == spec_save_bytes(state@, self.target_version, tv),
                    Err(e) => spec_save_bytes(state@, self.target_version, tv) is None
                        && e is Semantic,
                }
            }),
    {
        match state.serialize(&self.version_map, self.target_version) {
            Err(e) => Err(e),
            Ok(payload) => {
                let mut buf: Vec<u8> = Vec::new();
                write_u64(&mut buf, SNAPSHOT_MAGIC_ID);
                write_u16(&mut buf, self.target_version);
                append_bytes(&mut buf, payload.as_slice());
                let ghost pre = enc_u64(SNAPSHOT_MAGIC_ID) + enc_u16(self.target_version)
                    + payload@;
                assert(buf@ =~= pre);
                let crc = crc64_range(&buf, 0, buf.len());
                proof {
                    assert(buf@.subrange(0, buf@.len() as int) =~= buf@);
                }
                write_u64(&mut buf, crc);
                assert(buf@ =~= pre + enc_u64(crc64_of(pre)));
                Ok(buf)
            },
        }
    }

    /// Reads a snapshot file image back into a state, against the version
    /// map. Each framing defect is reported as its own error: a wrong magic
    /// as `InvalidMagic`, an unknown data version as `InvalidDataVersion`,
    /// a checksum mismatch (as after truncation) as `Crc64`, and a payload
    /// that does not decode exactly as `Serde`.
    pub fn load(file: &Vec<u8>, version_map: &VersionMap) -> (r: Result<MicrovmState, Error>)
        requires
            version_map.wf(),
        ensures
            match r {
                Ok(m) => spec_load_result(file@, *version_map) == Some(m@),
                Err(_) => spec_load_result(file@, *version_map) is None,
            },
            file@.len() < 18 <==> r == Err::<MicrovmState, Error>(Error::InvalidSnapshotSize),
            file@.len() >= 18 && dec_u64(file@, 0).unwrap().0 != SNAPSHOT_MAGIC_ID <==> r == Err::<MicrovmState, Error>(
                Error::InvalidMagic(dec_u64(file@, 0).unwrap().0),
            ),
            file@.len() >= 18 && dec_u64(file@, 0).unwrap().0 == SNAPSHOT_MAGIC_ID && !(1 <= dec_u16(
                file@,
                8,
            ).unwrap().0 <= version_map.spec_latest_version()) ==> r == Err::<MicrovmState, Error>(
                Error::InvalidDataVersion(dec_u16(file@, 8).unwrap().0),
            ),
            file@.len() >= 18 && dec_u64(file@, 0).unwrap().0 == SNAPSHOT_MAGIC_ID && 1 <= dec_u16(
                file@,
                8,
            ).unwrap().0 <= version_map.spec_latest_version() && dec_u64(
                file@,
                file@.len() - 8,
            ).unwrap().0 != crc64_of(file@.subrange(0, file@.len() - 8)) ==> r == Err::<MicrovmState, Error>(
                Error::Crc64(crc64_of(file@.subrange(0, file@.len() - 8))),
            ),
            r is Err ==> (r->Err_0 is InvalidSnapshotSize || r->Err_0 is InvalidMagic
                || r->Err_0 is InvalidDataVersion || r->Err_0 is Crc64 || r->Err_0 is Serde),
    {
        if file.len() < 18 {
            return Err(Error::InvalidSnapshotSize);
        }
        let magic = match read_u64(file, 0) {
            Some((m, _)) => m,
            None => {
                return Err(Error::InvalidSnapshotSize);
            },
        };
        if magic != SNAPSHOT_MAGIC_ID {
            return Err(Error::InvalidMagic(magic));
        }
        let version = match read_u16(file, 8) {
            Some((v, _)) => v,
            None => {
                return Err(Error::InvalidSnapshotSize);
            },
        };
        if version < 1 || version > version_map.latest_version() {
            return Err(Error::InvalidDataVersion(version));
        }
        let crc_pos = file.len() - 8;
        let stored = match read_u64(file, crc_pos) {
            Some((c, _)) => c,
            None => {
                return Err(Error::InvalidSnapshotSize);
            },
        };
        let computed = crc64_range(file, 0, crc_pos);
        if stored != computed {
            return Err(Error::Crc64(computed));
        }
        let tv = version_map.type_version(version, VersionedType::DeviceStates);
        match read_microvm_state(file, 10, tv) {
            None => Err(Error::Serde("the snapshot payload does not decode".to_owned())),
            Some((m, end)) => {
                if end != crc_pos {
                    Err(Error::Serde("the snapshot payload has trailing bytes".to_owned()))
                } else {
                    Ok(m)
                }
            },
        }
    }
}

/// Round trip of the framed file: loading a saved snapshot with the same
/// version map yields exactly the saved state, for every data version the
/// map knows at which the state is representable.
pub proof fn lemma_save_load_round_trip(m: MicrovmStateV, vmap: VersionMap, dv: u16)
    requires
        vmap.wf(),
        spec_lens_ok(m),
        1 <= dv <= vmap.spec_latest_version(),
        enc_microvm_state(m, vmap.spec_type_version(dv, VersionedType::DeviceStates)) is Some,
    ensures
        spec_save_bytes(m, dv, vmap.spec_type_version(dv, VersionedType::DeviceStates)) is Some,
        spec_load_result(
            spec_save_bytes(m, dv, vmap.spec_type_version(dv, VersionedType::DeviceStates)).unwrap(),
            vmap,
        ) == Some(m),
{
    let tv = vmap.spec_type_version(dv, VersionedType::DeviceStates);
    let p = enc_microvm_state(m, tv).unwrap();
    let head = enc_u64(SNAPSHOT_MAGIC_ID) + enc_u16(dv);
    let pre = enc_u64(SNAPSHOT_MAGIC_ID) + enc_u16(dv) + p;
    let s = pre + enc_u64(crc64_of(pre));
    lemma_auto_spec_u64_to_from_le_bytes();
    lemma_auto_spec_u16_to_from_le_bytes();
    assert(enc_u16(dv).len() == 2);
    assert(s.len() == p.len() + 18);
    assert(s.subrange(0, s.len() as int) =~= s);
    lemma_subrange_split(s, 0, pre, enc_u64(crc64_of(pre)));
    assert(pre == head + p);
    lemma_subrange_split(s, 0, head, p);
    lemma_subrange_split(s, 0, enc_u64(SNAPSHOT_MAGIC_ID), enc_u16(dv));
    lemma_dec_u64_at(s, 0, SNAPSHOT_MAGIC_ID);
    lemma_dec_u16_at(s, 8, dv);
    lemma_dec_u64_at(s, pre.len() as int, crc64_of(pre));
    assert(s.subrange(0, s.len() - 8) == pre);
    lemma_dec_microvm_state_at(s, 10, m, tv);
    assert(spec_load_result(s, vmap) == Some(m));
}

} // verus!
