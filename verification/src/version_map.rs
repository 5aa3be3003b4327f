//! Maps product version tags to numeric data versions and records, for each
//! data version, the schema version that every participating state type uses.

use vstd::prelude::*;

verus! {

/// The first snapshot data format, produced for the product tag `"0.23"`.
pub const FC_V0_23_SNAP_VERSION: u16 = 1;

/// Identifies a participating state type inside a [`VersionMap`].
#[derive(Clone, Copy, Debug, PartialEq, Eq, Structural)]
pub enum VersionedType {
    VmInfo,
    GuestMemoryState,
    VmState,
    VcpuState,
    DeviceStates,
    MicrovmState,
}

/// A monotone chain of data versions. Version `i + 1` is described by entry
/// `i` of `versions`: the schema versions redeclared at that step. A type
/// never redeclared uses schema version 1.
pub struct VersionMap {
    pub versions: Vec<Vec<(VersionedType, u16)>>,
}

/// Schema version that `entry` declares for `t`, if any; the last
/// declaration wins.
pub open spec fn spec_entry_version(entry: Seq<(VersionedType, u16)>, t: VersionedType) -> Option<
    u16,
>
    decreases entry.len(),
{
    if entry.len() == 0 {
        None
    } else if entry.last().0 == t {
        Some(entry.last().1)
    } else {
        spec_entry_version(entry.drop_last(), t)
    }
}

/// Schema version of `t` after the first `k` steps of the chain.
pub open spec fn spec_chain_version(
    versions: Seq<Seq<(VersionedType, u16)>>,
    k: int,
    t: VersionedType,
) -> u16
    decreases k,
{
    if k <= 0 || k > versions.len() {
        1u16
    } else {
        match spec_entry_version(versions[k - 1], t) {
            Some(v) => v,
            None => spec_chain_version(versions, k - 1, t),
        }
    }
}

impl VersionMap {
    /// The chain as a mathematical sequence of steps.
    pub open spec fn view_steps(&self) -> Seq<Seq<(VersionedType, u16)>> {
        self.versions@.map_values(|e: Vec<(VersionedType, u16)>| e@)
    }

    pub open spec fn wf(&self) -> bool {
        1 <= self.versions@.len() <= 0xFFFF
    }

    pub open spec fn spec_latest_version(&self) -> u16 {
        self.versions@.len() as u16
    }

    /// Schema version used for `t` when encoding at data version `dv`. A
    /// version beyond the end of the chain reads as the chain's last step.
    pub open spec fn spec_type_version(&self, dv: u16, t: VersionedType) -> u16 {
        if dv as int <= self.view_steps().len() {
            spec_chain_version(self.view_steps(), dv as int, t)
        } else {
            spec_chain_version(self.view_steps(), self.view_steps().len() as int, t)
        }
    }

    /// A fresh map with a single data version at which every type uses
    /// schema version 1.
    pub fn new() -> (r: VersionMap)
        ensures
            r.wf(),
            r.view_steps() =~= seq![Seq::<(VersionedType, u16)>::empty()],
            r.spec_latest_version() == 1,
    {
        let mut versions: Vec<Vec<(VersionedType, u16)>> = Vec::new();
        versions.push(Vec::new());
        VersionMap { versions }
    }

    /// Opens a new data version at the end of the chain.
    pub fn new_version(&mut self)
        requires
            old(self).wf(),
            old(self).versions@.len() < 0xFFFF,
        ensures
            final (self).wf(),
            final (self).view_steps() =~= old(self).view_steps().push(
                Seq::<(VersionedType, u16)>::empty(),
            ),
            final (self).spec_latest_version() == old(self).spec_latest_version() + 1,
    {
        self.versions.push(Vec::new());
        assert(self.view_steps() =~= old(self).view_steps().push(
            Seq::<(VersionedType, u16)>::empty(),
        ));
    }

    /// Declares that `t` uses schema version `v` starting at the latest data
    /// version of the chain.
    pub fn set_type_version(&mut self, t: VersionedType, v: u16)
        requires
            old(self).wf(),
        ensures
            final (self).wf(),
            final (self).view_steps() =~= old(self).view_steps().update(
                old(self).view_steps().len() - 1,
                old(self).view_steps().last().push((t, v)),
            ),
    {
        let last = self.versions.len() - 1;
        let entry = &mut self.versions[last];
        entry.push((t, v));
        assert(self.view_steps() =~= old(self).view_steps().update(
            old(self).view_steps().len() - 1,
            old(self).view_steps().last().push((t, v)),
        ));
    }

    /// The highest data version in the chain: the default target when the
    /// caller supplies none.
    pub fn latest_version(&self) -> (r: u16)
        requires
            self.wf(),
        ensures
            r == self.spec_latest_version(),
    {
        self.versions.len() as u16
    }

    /// Schema version to use for `t` when encoding at data version `dv`.
    /// Defaults to 1 wherever `t` was never redeclared.
    pub fn type_version(&self, dv: u16, t: VersionedType) -> (r: u16)
        requires
            self.wf(),
        ensures
            r == self.spec_type_version(dv, t),
    {
        let mut k: usize = if (dv as usize) < self.versions.len() {
            dv as usize
        } else {
            self.versions.len()
        };
        while k > 0
            invariant
                self.wf(),
                k <= self.versions@.len(),
                self.spec_type_version(dv, t) == spec_chain_version(
                    self.view_steps(),
                    k as int,
                    t,
                ),
            decreases k,
        {
            let entry = &self.versions[k - 1];
            let mut j: usize = entry.len();
            assert(entry@.take(entry@.len() as int) =~= entry@);
            while j > 0
                invariant
                    k >= 1,
                    k <= self.versions@.len(),
                    self.wf(),
                    j <= entry@.len(),
                    entry@ == self.view_steps()[k - 1],
                    self.spec_type_version(dv, t) == spec_chain_version(
                        self.view_steps(),
                        k as int,
                        t,
                    ),
                    spec_entry_version(self.view_steps()[k - 1], t) == spec_entry_version(
                        entry@.take(j as int),
                        t,
                    ),
                decreases j,
            {
                let (et, ev) = entry[j - 1];
                if et == t {
                    assert(entry@.take(j as int).last() == entry@[j - 1]);
                    assert(spec_entry_version(entry@.take(j as int), t) == Some(ev));
                    return ev;
                }
                assert(entry@.take(j as int).drop_last() =~= entry@.take(j - 1));
                j = j - 1;
            }
            assert(entry@.take(0) =~= Seq::<(VersionedType, u16)>::empty());
            k = k - 1;
        }
        1
    }
}

impl VersionMap {
    /// An exact copy of the chain.
    pub fn clone_map(&self) -> (r: VersionMap)
        ensures
            r.view_steps() == self.view_steps(),
            r.versions@.len() == self.versions@.len(),
    {
        let mut versions: Vec<Vec<(VersionedType, u16)>> = Vec::new();
        let mut i: usize = 0;
        while i < self.versions.len()
            invariant
                i <= self.versions@.len(),
                versions@.len() == i,
                forall|j: int| 0 <= j < i ==> #[trigger] versions@[j]@ == self.versions@[j]@,
            decreases self.versions@.len() - i,
        {
            versions.push(vstd::slice::slice_to_vec(self.versions[i].as_slice()));
            i = i + 1;
        }
        let r = VersionMap { versions };
        assert(r.view_steps() =~= self.view_steps());
        r
    }
}

/// Numeric data version for a product version tag, if the tag is known.
pub open spec fn spec_translate(tag: Seq<char>) -> Option<u16> {
    if tag == "0.23"@ {
        Some(FC_V0_23_SNAP_VERSION)
    } else if tag == "0.24"@ {
        Some(2u16)
    } else {
        None
    }
}

/// Translates a product version tag (`"0.23"`, `"0.24"`) to its snapshot
/// data version.
pub fn fc_version_to_snap_version(tag: &String) -> (r: Option<u16>)
    ensures
        r == spec_translate(tag@),
{
    let v23: String = "0.23".to_owned();
    let v24: String = "0.24".to_owned();
    if tag.eq(&v23) {
        Some(FC_V0_23_SNAP_VERSION)
    } else if tag.eq(&v24) {
        Some(2)
    } else {
        None
    }
}

/// The version map that current builds use: data version 1 is the first
/// snapshot format; data version 2 redeclares the device container at
/// schema version 2 (it gains the balloon device).
pub fn default_version_map() -> (r: VersionMap)
    ensures
        r.wf(),
        r.spec_latest_version() == 2,
        r.spec_type_version(1, VersionedType::DeviceStates) == 1,
        r.spec_type_version(2, VersionedType::DeviceStates) == 2,
{
    let mut map = VersionMap::new();
    map.new_version();
    map.set_type_version(VersionedType::DeviceStates, 2);
    proof {
        let steps = map.view_steps();
        assert(steps.len() == 2);
        assert(steps[0] =~= Seq::<(VersionedType, u16)>::empty());
        assert(steps[1] =~= seq![(VersionedType::DeviceStates, 2u16)]);
        assert(spec_entry_version(steps[0], VersionedType::DeviceStates) is None);
        assert(spec_chain_version(steps, 0, VersionedType::DeviceStates) == 1);
        assert(steps[1].drop_last() =~= Seq::<(VersionedType, u16)>::empty());
        assert(spec_entry_version(steps[1], VersionedType::DeviceStates) == Some(2u16));
    }
    map
}

} // verus!
