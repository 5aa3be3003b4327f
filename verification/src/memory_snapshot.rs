//! Guest-memory capture and restore: a region descriptor, a full dump, a
//! dirty-pages-only dump, and the reconstruction of a memory map from a
//! backing-file image.

use vstd::prelude::*;
use vstd::string::*;
use crate::state::{append_byte_range, append_bytes, clone_bytes};

verus! {

/// Size of one dirty-tracking page, in bytes.
pub const PAGE_SIZE: u64 = 4096;

/// One region record of a memory descriptor: how a byte range of the backing
/// file maps onto a guest physical address range.
#[derive(Debug, Clone, Copy, PartialEq, Eq, Structural)]
pub struct GuestMemoryRegionState {
    pub base_address: u64,
    pub size: u64,
    pub offset: u64,
}

/// A memory descriptor: an ordered sequence of region records. Metadata
/// only; the bulk bytes live in the backing file.
#[derive(Debug, Clone, PartialEq)]
pub struct GuestMemoryState {
    pub regions: Vec<GuestMemoryRegionState>,
}

impl View for GuestMemoryState {
    type V = Seq<GuestMemoryRegionState>;

    open spec fn view(&self) -> Seq<GuestMemoryRegionState> {
        self.regions@
    }
}

/// One live guest memory region: a guest physical base address and the bytes
/// behind it.
#[derive(Debug, Clone, PartialEq)]
pub struct GuestMemoryRegion {
    pub base_address: u64,
    pub bytes: Vec<u8>,
}

#[verifier::ext_equal]
pub struct GuestMemoryRegionV {
    pub base_address: u64,
    pub bytes: Seq<u8>,
}

impl View for GuestMemoryRegion {
    type V = GuestMemoryRegionV;

    open spec fn view(&self) -> GuestMemoryRegionV {
        GuestMemoryRegionV { base_address: self.base_address, bytes: self.bytes@ }
    }
}

/// The live guest RAM map: ordered regions, plus whether dirty-page tracking
/// is enabled on it.
#[derive(Debug, Clone, PartialEq)]
pub struct GuestMemoryMap {
    pub regions: Vec<GuestMemoryRegion>,
    pub track_dirty_pages: bool,
}

/// Ordered mapping from region index to a bit-packed per-page dirty vector.
/// Regions absent from it, and pages beyond a vector's end, are clean.
#[derive(Debug, Clone, PartialEq)]
pub struct DirtyBitmap {
    pub regions: Vec<Vec<u64>>,
}

/// Whether page `p` of region `r` is marked dirty.
pub open spec fn spec_page_dirty(bm: Seq<Seq<u64>>, r: int, p: int) -> bool {
    &&& 0 <= r < bm.len()
    &&& 0 <= p / 64 < bm[r].len()
    &&& (bm[r][p / 64] >> (p % 64) as u64) & 1 == 1
}

impl DirtyBitmap {
    pub open spec fn view_words(&self) -> Seq<Seq<u64>> {
        self.regions@.map_values(|w: Vec<u64>| w@)
    }
}

/// Errors that memory capture and restore can produce.
#[derive(Debug, Clone, PartialEq)]
pub enum Error {
    /// The backing file cannot back the descriptor's regions.
    CreateMemory(String),
    /// A region record is malformed (empty, unaligned, or overflowing).
    CreateRegion(String),
    /// Guest memory bytes cannot be read for writing out.
    WriteMemory(String),
}

impl Error {
    /// One-line human rendering, with the wrapped detail.
    pub fn message(&self) -> (r: String)
        ensures
            r@ == self.spec_message(),
            r@.len() > 0,
    {
        let mut s: String = String::new();
        match self {
            Error::CreateMemory(detail) => {
                s.append("Cannot create memory: ");
                s.append(detail.as_str());
            },
            Error::CreateRegion(detail) => {
                s.append("Cannot create memory region: ");
                s.append(detail.as_str());
            },
            Error::WriteMemory(detail) => {
                s.append("Cannot write memory: ");
                s.append(detail.as_str());
            },
        }
        proof {
            reveal_strlit("Cannot create memory: ");
            reveal_strlit("Cannot create memory region: ");
            reveal_strlit("Cannot write memory: ");
        }
        s
    }

    pub open spec fn spec_message(&self) -> Seq<char> {
        match self {
            Error::CreateMemory(detail) => "Cannot create memory: "@ + detail@,
            Error::CreateRegion(detail) => "Cannot create memory region: "@ + detail@,
            Error::WriteMemory(detail) => "Cannot write memory: "@ + detail@,
        }
    }
}

/// Sum of the region sizes of the first `k` regions of a live map.
pub open spec fn spec_total_bytes(regions: Seq<GuestMemoryRegionV>, k: int) -> int
    decreases k,
{
    if k <= 0 {
        0
    } else {
        spec_total_bytes(regions, k - 1) + regions[k - 1].bytes.len()
    }
}

/// File offset at which region `k` starts in the backing file: regions are
/// laid out contiguously, in order.
pub open spec fn spec_region_offset(regions: Seq<GuestMemoryRegionV>, k: int) -> int {
    spec_total_bytes(regions, k)
}

impl GuestMemoryMap {
    pub open spec fn view_regions(&self) -> Seq<GuestMemoryRegionV> {
        self.regions@.map_values(|r: GuestMemoryRegion| r@)
    }

    /// Total guest RAM in bytes.
    pub open spec fn spec_mem_size(&self) -> int {
        spec_total_bytes(self.view_regions(), self.view_regions().len() as int)
    }

    /// Well-formedness of a live map: at least one region; every region a
    /// whole number of pages and non-empty; regions sorted by base address
    /// and non-overlapping; the total a whole number of MiB that fits in
    /// memory.
    pub open spec fn wf(&self) -> bool {
        let rs = self.view_regions();
        &&& rs.len() >= 1
        &&& forall|i: int|
            0 <= i < rs.len() ==> #[trigger] rs[i].bytes.len() >= 1 && rs[i].bytes.len() as int % (
            PAGE_SIZE as int) == 0
        &&& forall|i: int|
            0 <= i < rs.len() ==> #[trigger] rs[i].base_address + rs[i].bytes.len() <= u64::MAX
        &&& forall|i: int|
            0 <= i < rs.len() - 1 ==> #[trigger] rs[i].base_address + rs[i].bytes.len() <= rs[i
                + 1].base_address
        &&& self.spec_mem_size() % 0x100000 == 0
        &&& self.spec_mem_size() <= usize::MAX
    }
}

/// The backing-file image of a full dump: every region's bytes, at the
/// region's file offset; offsets are contiguous, so the image is the
/// concatenation of the first `k` regions.
pub open spec fn spec_dump(regions: Seq<GuestMemoryRegionV>, k: int) -> Seq<u8>
    decreases k,
{
    if k <= 0 {
        Seq::empty()
    } else {
        spec_dump(regions, k - 1) + regions[k - 1].bytes
    }
}

proof fn lemma_dump_len(regions: Seq<GuestMemoryRegionV>, k: int)
    ensures
        spec_dump(regions, k).len() == if k <= 0 {
            0int
        } else {
            spec_total_bytes(regions, k)
        },
    decreases k,
{
    if k > 0 {
        lemma_dump_len(regions, k - 1);
    }
}

/// Every byte of the dump image comes from the region that covers its
/// offset.
pub proof fn lemma_dump_byte(regions: Seq<GuestMemoryRegionV>, k: int, r: int, o: int)
    requires
        0 <= r < k <= regions.len(),
        0 <= o < regions[r].bytes.len(),
    ensures
        spec_dump(regions, k).len() == spec_total_bytes(regions, k),
        0 <= spec_region_offset(regions, r) + o < spec_total_bytes(regions, k),
        spec_dump(regions, k)[spec_region_offset(regions, r) + o] == regions[r].bytes[o],
    decreases k,
{
    lemma_dump_len(regions, k);
    lemma_total_bytes_mono(regions, r, k);
    if r == k - 1 {
        lemma_dump_len(regions, k - 1);
    } else {
        lemma_dump_byte(regions, k - 1, r, o);
        lemma_dump_len(regions, k - 1);
    }
}

/// Region sizes are non-negative, so prefix sums grow.
pub proof fn lemma_total_bytes_mono(regions: Seq<GuestMemoryRegionV>, a: int, b: int)
    requires
        a <= b,
    ensures
        spec_total_bytes(regions, a) <= spec_total_bytes(regions, b),
    decreases b - a,
{
    if a < b {
        lemma_total_bytes_mono(regions, a, b - 1);
    }
}

/// Total guest RAM of a live map, in bytes.
pub fn mem_size_bytes(map: &GuestMemoryMap) -> (r: u64)
    requires
        map.wf(),
    ensures
        r == map.spec_mem_size(),
{
    let mut total: u64 = 0;
    let mut i: usize = 0;
    proof {
        lemma_total_bytes_mono(map.view_regions(), 0, map.view_regions().len() as int);
    }
    while i < map.regions.len()
        invariant
            map.wf(),
            i <= map.regions@.len(),
            total == spec_total_bytes(map.view_regions(), i as int),
            total <= map.spec_mem_size(),
        decreases map.regions@.len() - i,
    {
        proof {
            lemma_total_bytes_mono(map.view_regions(), i + 1, map.view_regions().len() as int);
        }
        total = total + map.regions[i].bytes.len() as u64;
        i = i + 1;
    }
    total
}

/// Total guest RAM of a live map, in MiB (the total is a whole number of
/// MiB for a well-formed map).
pub fn mem_size_mib(map: &GuestMemoryMap) -> (r: u64)
    requires
        map.wf(),
    ensures
        r == map.spec_mem_size() / 0x100000,
{
    mem_size_bytes(map) / 0x100000
}

/// The descriptor that `describe` returns: one record per region, sizes from
/// the live map, offsets contiguous from zero.
pub open spec fn spec_describe(regions: Seq<GuestMemoryRegionV>) -> Seq<GuestMemoryRegionState> {
    Seq::new(
        regions.len(),
        |i: int|
            GuestMemoryRegionState {
                base_address: regions[i].base_address,
                size: regions[i].bytes.len() as u64,
                offset: spec_region_offset(regions, i) as u64,
            },
    )
}

/// Deterministic region descriptor of a live map. Pure: the sum of the
/// record sizes equals the live map's total memory size.
pub fn describe(map: &GuestMemoryMap) -> (r: GuestMemoryState)
    requires
        map.wf(),
    ensures
        r@ =~= spec_describe(map.view_regions()),
        spec_total_state_bytes(r@, r@.len() as int) == map.spec_mem_size(),
{
    let mut regions: Vec<GuestMemoryRegionState> = Vec::new();
    let mut offset: u64 = 0;
    let mut i: usize = 0;
    proof {
        lemma_total_bytes_mono(map.view_regions(), 0, map.view_regions().len() as int);
    }
    while i < map.regions.len()
        invariant
            map.wf(),
            i <= map.regions@.len(),
            offset == spec_region_offset(map.view_regions(), i as int),
            offset <= map.spec_mem_size(),
            regions@ =~= spec_describe(map.view_regions()).take(i as int),
            spec_total_state_bytes(regions@, i as int) == spec_total_bytes(
                map.view_regions(),
                i as int,
            ),
        decreases map.regions@.len() - i,
    {
        proof {
            lemma_total_bytes_mono(map.view_regions(), i + 1, map.view_regions().len() as int);
        }
        let ghost before = regions@;
        let region = &map.regions[i];
        regions.push(
            GuestMemoryRegionState {
                base_address: region.base_address,
                size: region.bytes.len() as u64,
                offset,
            },
        );
        proof {
            lemma_total_state_bytes_prefix(before, regions@, i as int);
        }
        offset = offset + region.bytes.len() as u64;
        i = i + 1;
        assert(regions@ =~= spec_describe(map.view_regions()).take(i as int));
    }
    assert(spec_describe(map.view_regions()).take(map.regions@.len() as int) =~= spec_describe(
        map.view_regions(),
    ));
    GuestMemoryState { regions }
}

/// The prefix sum of record sizes reads only the first `k` records.
proof fn lemma_total_state_bytes_prefix(
    a: Seq<GuestMemoryRegionState>,
    b: Seq<GuestMemoryRegionState>,
    k: int,
)
    requires
        k <= a.len(),
        k <= b.len(),
        forall|j: int| 0 <= j < k ==> a[j] == b[j],
    ensures
        spec_total_state_bytes(a, k) == spec_total_state_bytes(b, k),
    decreases k,
{
    if k > 0 {
        lemma_total_state_bytes_prefix(a, b, k - 1);
    }
}

/// Sum of the `size` fields of the first `k` records of a descriptor.
pub open spec fn spec_total_state_bytes(regions: Seq<GuestMemoryRegionState>, k: int) -> int
    decreases k,
{
    if k <= 0 {
        0
    } else {
        spec_total_state_bytes(regions, k - 1) + regions[k - 1].size
    }
}

/// Writes every guest byte to the backing-file image, each region at its
/// descriptor offset. Used for full snapshots; replaces the image.
pub fn dump(map: &GuestMemoryMap, file: &mut Vec<u8>)
    requires
        map.wf(),
    ensures
        final (file)@ =~= spec_dump(map.view_regions(), map.view_regions().len() as int),
        final (file)@.len() == map.spec_mem_size(),
{
    file.clear();
    let mut i: usize = 0;
    while i < map.regions.len()
        invariant
            map.wf(),
            i <= map.regions@.len(),
            file@ =~= spec_dump(map.view_regions(), i as int),
            file@.len() == spec_total_bytes(map.view_regions(), i as int),
        decreases map.regions@.len() - i,
    {
        proof {
            lemma_total_bytes_mono(map.view_regions(), i + 1, map.view_regions().len() as int);
        }
        append_bytes(file, map.regions[i].bytes.as_slice());
        i = i + 1;
    }
    proof {
        lemma_dump_len(map.view_regions(), map.view_regions().len() as int);
    }
}

/// The backing-file image after a dirty dump over `base`: page by page, a
/// dirty page takes the guest bytes, a clean page keeps the bytes of `base`.
/// `spec_dump_dirty_region` builds the image of the first `p` pages of
/// region `r`.
pub open spec fn spec_dump_dirty_region(
    region: GuestMemoryRegionV,
    r: int,
    start: int,
    base: Seq<u8>,
    bm: Seq<Seq<u64>>,
    p: int,
) -> Seq<u8>
    decreases p,
{
    if p <= 0 {
        Seq::empty()
    } else {
        spec_dump_dirty_region(region, r, start, base, bm, p - 1) + (if spec_page_dirty(
            bm,
            r,
            p - 1,
        ) {
            region.bytes.subrange((p - 1) * PAGE_SIZE as int, p * PAGE_SIZE as int)
        } else {
            base.subrange(start + (p - 1) * PAGE_SIZE as int, start + p * PAGE_SIZE as int)
        })
    }
}

/// The image of the first `k` regions after a dirty dump over `base`.
pub open spec fn spec_dump_dirty(
    regions: Seq<GuestMemoryRegionV>,
    base: Seq<u8>,
    bm: Seq<Seq<u64>>,
    k: int,
) -> Seq<u8>
    decreases k,
{
    if k <= 0 {
        Seq::empty()
    } else {
        spec_dump_dirty(regions, base, bm, k - 1) + spec_dump_dirty_region(
            regions[k - 1],
            k - 1,
            spec_region_offset(regions, k - 1),
            base,
            bm,
            regions[k - 1].bytes.len() as int / PAGE_SIZE as int,
        )
    }
}

proof fn lemma_dump_dirty_region_len(
    region: GuestMemoryRegionV,
    r: int,
    start: int,
    base: Seq<u8>,
    bm: Seq<Seq<u64>>,
    p: int,
)
    requires
        0 <= start,
        p * PAGE_SIZE as int <= region.bytes.len(),
        start + p * PAGE_SIZE as int <= base.len(),
    ensures
        spec_dump_dirty_region(region, r, start, base, bm, p).len() == if p <= 0 {
            0int
        } else {
            p * PAGE_SIZE as int
        },
    decreases p,
{
    if p > 0 {
        lemma_dump_dirty_region_len(region, r, start, base, bm, p - 1);
    }
}

proof fn lemma_dump_dirty_len(
    regions: Seq<GuestMemoryRegionV>,
    base: Seq<u8>,
    bm: Seq<Seq<u64>>,
    k: int,
)
    requires
        forall|i: int|
            0 <= i < k ==> #[trigger] regions[i].bytes.len() as int % (PAGE_SIZE as int) == 0,
        base.len() >= spec_total_bytes(regions, k),
    ensures
        spec_dump_dirty(regions, base, bm, k).len() == if k <= 0 {
            0int
        } else {
            spec_total_bytes(regions, k)
        },
    decreases k,
{
    if k > 0 {
        lemma_dump_dirty_len(regions, base, bm, k - 1);
        let region = regions[k - 1];
        let pages = region.bytes.len() as int / PAGE_SIZE as int;
        assert(pages * PAGE_SIZE as int == region.bytes.len() as int);
        lemma_dump_dirty_region_len(
            region,
            k - 1,
            spec_region_offset(regions, k - 1),
            base,
            bm,
            pages,
        );
    }
}

/// Writes only the pages whose bit is set in `bitmap` into the backing-file
/// image; pages not written keep the image's previous bytes. The image must
/// already have the full memory size (the caller sets its length first).
pub fn dump_dirty(map: &GuestMemoryMap, file: &mut Vec<u8>, bitmap: &DirtyBitmap)
    requires
        map.wf(),
        old(file)@.len() == map.spec_mem_size(),
    ensures
        final (file)@ =~= spec_dump_dirty(
            map.view_regions(),
            old(file)@,
            bitmap.view_words(),
            map.view_regions().len() as int,
        ),
        final (file)@.len() == map.spec_mem_size(),
{
    let ghost base = file@;
    let ghost rs = map.view_regions();
    let ghost bm = bitmap.view_words();
    let base_vec = clone_bytes(file);
    let mut out: Vec<u8> = Vec::new();
    let mut i: usize = 0;
    let mut start: usize = 0;
    while i < map.regions.len()
        invariant
            map.wf(),
            base.len() == map.spec_mem_size(),
            base_vec@ == base,
            rs == map.view_regions(),
            bm == bitmap.view_words(),
            i <= map.regions@.len(),
            start == spec_region_offset(rs, i as int),
            start <= map.spec_mem_size(),
            out@ =~= spec_dump_dirty(rs, base, bm, i as int),
            out@.len() == spec_total_bytes(rs, i as int),
        decreases map.regions@.len() - i,
    {
        proof {
            lemma_total_bytes_mono(rs, i + 1, rs.len() as int);
            lemma_dump_dirty_len(rs, base, bm, i as int);
        }
        let region = &map.regions[i];
        let region_len = region.bytes.len();
        let pages = region_len / (PAGE_SIZE as usize);
        proof {
            assert(pages * PAGE_SIZE as int == region_len as int) by (nonlinear_arith)
                requires
                    region_len as int % (PAGE_SIZE as int) == 0,
                    pages == region_len as int / PAGE_SIZE as int,
                    PAGE_SIZE == 4096,
            ;
        }
        let mut p: usize = 0;
        while p < pages
            invariant
                map.wf(),
                base.len() == map.spec_mem_size(),
                base_vec@ == base,
                rs == map.view_regions(),
                bm == bitmap.view_words(),
                i < map.regions@.len(),
                region@ == rs[i as int],
                region_len == region.bytes@.len(),
                pages == region_len as int / PAGE_SIZE as int,
                pages * PAGE_SIZE as int == region_len as int,
                p <= pages,
                start == spec_region_offset(rs, i as int),
                start + region_len <= map.spec_mem_size(),
                out@ =~= spec_dump_dirty(rs, base, bm, i as int) + spec_dump_dirty_region(
                    rs[i as int],
                    i as int,
                    start as int,
                    base,
                    bm,
                    p as int,
                ),
                out@.len() == spec_total_bytes(rs, i as int) + p * PAGE_SIZE as int,
            decreases pages - p,
        {
            proof {
                assert((p + 1) * PAGE_SIZE as int <= pages * PAGE_SIZE as int) by (nonlinear_arith)
                    requires
                        p < pages,
                        PAGE_SIZE == 4096,
                ;
                assert(p * PAGE_SIZE as int + PAGE_SIZE as int == (p + 1) * PAGE_SIZE as int) by (nonlinear_arith);
            }
            let page_start = p * (PAGE_SIZE as usize);
            let page_end = page_start + (PAGE_SIZE as usize);
            if page_is_dirty(bitmap, i, p) {
                append_byte_range(&mut out, &region.bytes, page_start, page_end);
            } else {
                append_byte_range(&mut out, &base_vec, start + page_start, start + page_end);
            }
            p = p + 1;
        }
        proof {
            lemma_dump_dirty_len(rs, base, bm, i + 1);
        }
        start = start + region_len;
        i = i + 1;
    }
    proof {
        lemma_dump_dirty_len(rs, base, bm, rs.len() as int);
    }
    *file = out;
}

/// Whether the bitmap marks page `p` of region `r` dirty.
pub fn page_is_dirty(bitmap: &DirtyBitmap, r: usize, p: usize) -> (b: bool)
    ensures
        b == spec_page_dirty(bitmap.view_words(), r as int, p as int),
{
    if r >= bitmap.regions.len() {
        return false;
    }
    let words = &bitmap.regions[r];
    let w = p / 64;
    if w >= words.len() {
        return false;
    }
    let bit = (words[w] >> ((p % 64) as u64)) & 1;
    bit == 1
}

/// Rebuilds a live memory map from a backing-file image and a descriptor,
/// optionally enabling dirty-page tracking on the result. Each region takes
/// its bytes from `[offset, offset + size)` of the image; a record whose
/// range does not fit the image, or whose size is zero or not a whole
/// number of pages, is rejected.
pub open spec fn spec_region_ok(s: GuestMemoryRegionState, file_len: int) -> bool {
    &&& s.size >= 1
    &&& s.size % PAGE_SIZE == 0
    &&& s.offset + s.size <= file_len
    &&& s.base_address + s.size <= u64::MAX
}

pub open spec fn spec_restore_ok(state: Seq<GuestMemoryRegionState>, file_len: int) -> bool {
    &&& state.len() >= 1
    &&& forall|i: int| 0 <= i < state.len() ==> spec_region_ok(#[trigger] state[i], file_len)
}

/// The regions that a successful restore yields.
pub open spec fn spec_restored_regions(
    state: Seq<GuestMemoryRegionState>,
    file: Seq<u8>,
) -> Seq<GuestMemoryRegionV> {
    Seq::new(
        state.len(),
        |i: int|
            GuestMemoryRegionV {
                base_address: state[i].base_address,
                bytes: file.subrange(
                    state[i].offset as int,
                    state[i].offset + state[i].size,
                ),
            },
    )
}

pub fn restore(file: &Vec<u8>, state: &GuestMemoryState, track_dirty_pages: bool) -> (r: Result<
    GuestMemoryMap,
    Error,
>)
    ensures
        match r {
            Ok(map) => {
                &&& spec_restore_ok(state@, file@.len() as int)
                &&& map.view_regions() =~= spec_restored_regions(state@, file@)
                &&& map.track_dirty_pages == track_dirty_pages
            },
            Err(e) => {
                &&& !spec_restore_ok(state@, file@.len() as int)
                &&& e is CreateRegion || e is CreateMemory
            },
        },
{
    if state.regions.len() == 0 {
        return Err(Error::CreateMemory("no memory regions in the descriptor".to_owned()));
    }
    let mut regions: Vec<GuestMemoryRegion> = Vec::new();
    let mut i: usize = 0;
    while i < state.regions.len()
        invariant
            i <= state.regions@.len(),
            regions@.len() == i,
            forall|j: int|
                0 <= j < i ==> #[trigger] regions@[j]@ == spec_restored_regions(state@, file@)[j],
            forall|j: int| 0 <= j < i ==> spec_region_ok(#[trigger] state@[j], file@.len() as int),
        decreases state.regions@.len() - i,
    {
        let s = &state.regions[i];
        if s.size < 1 || s.size % PAGE_SIZE != 0 || s.base_address > u64::MAX - s.size {
            return Err(Error::CreateRegion("malformed memory region record".to_owned()));
        }
        if s.offset > file.len() as u64 || s.size > file.len() as u64 - s.offset {
            return Err(Error::CreateRegion("memory region beyond the backing file".to_owned()));
        }
        let from = s.offset as usize;
        let to = from + s.size as usize;
        let mut bytes: Vec<u8> = Vec::new();
        append_byte_range(&mut bytes, file, from, to);
        regions.push(GuestMemoryRegion { base_address: s.base_address, bytes });
        i = i + 1;
    }
    let r = GuestMemoryMap { regions, track_dirty_pages };
    assert(r.view_regions() =~= spec_restored_regions(state@, file@));
    Ok(r)
}

/// Law: restoring a full dump against its own descriptor yields the dumped
/// memory, region for region and byte for byte.
pub proof fn lemma_dump_restore_round_trip(map: GuestMemoryMap)
    requires
        map.wf(),
    ensures
        ({
            let rs = map.view_regions();
            let file = spec_dump(rs, rs.len() as int);
            let state = spec_describe(rs);
            &&& file.len() == map.spec_mem_size()
            &&& spec_restore_ok(state, file.len() as int)
            &&& spec_restored_regions(state, file) == rs
        }),
{
    let rs = map.view_regions();
    let n = rs.len() as int;
    let file = spec_dump(rs, n);
    let state = spec_describe(rs);
    lemma_dump_len(rs, n);
    assert forall|i: int| 0 <= i < state.len() implies spec_region_ok(
        #[trigger] state[i],
        file.len() as int,
    ) by {
        lemma_total_bytes_mono(rs, i + 1, n);
        lemma_total_bytes_mono(rs, 0, i);
    }
    assert forall|i: int|
        0 <= i < rs.len() implies spec_restored_regions(state, file)[i] == rs.index(i) by {
        let off = spec_region_offset(rs, i);
        lemma_total_bytes_mono(rs, i + 1, n);
        lemma_total_bytes_mono(rs, 0, i);
        assert forall|o: int| 0 <= o < rs[i].bytes.len() implies file[off + o] == rs[i].bytes[o] by {
            lemma_dump_byte(rs, n, i, o);
        }
        assert(file.subrange(off, off + rs[i].bytes.len()) =~= rs[i].bytes);
        assert(spec_restored_regions(state, file)[i] =~= rs[i]);
    }
    assert(spec_restored_regions(state, file) =~= rs);
}

/// Whether page `p` of a region holds only zero bytes.
pub open spec fn spec_page_zero(region: GuestMemoryRegionV, p: int) -> bool {
    forall|o: int|
        0 <= o < PAGE_SIZE && (p * PAGE_SIZE as int + o) < region.bytes.len()
            ==> #[trigger] region.bytes[p * PAGE_SIZE as int + o] == 0u8
}

/// The bitmap covers region `r`: every page of it that the bitmap leaves
/// clean holds only zeros.
pub open spec fn spec_bitmap_covers(regions: Seq<GuestMemoryRegionV>, bm: Seq<Seq<u64>>) -> bool {
    forall|r: int, p: int|
        0 <= r < regions.len() && 0 <= p && (p * PAGE_SIZE as int) < regions[r].bytes.len()
            && !spec_page_dirty(bm, r, p) ==> spec_page_zero(regions[r], p)
}

proof fn lemma_dump_dirty_region_over_zeros(
    region: GuestMemoryRegionV,
    r: int,
    start: int,
    base: Seq<u8>,
    bm: Seq<Seq<u64>>,
    p: int,
)
    requires
        0 <= start,
        0 <= p,
        (p * PAGE_SIZE as int) <= region.bytes.len(),
        (start + p * PAGE_SIZE as int) <= base.len(),
        forall|i: int| 0 <= i < base.len() ==> base[i] == 0u8,
        forall|q: int|
            0 <= q < p && !spec_page_dirty(bm, r, q) ==> spec_page_zero(region, q),
    ensures
        spec_dump_dirty_region(region, r, start, base, bm, p) == region.bytes.take(
            p * PAGE_SIZE as int,
        ),
    decreases p,
{
    if p <= 0 {
        assert(region.bytes.take(p * PAGE_SIZE as int) =~= Seq::<u8>::empty());
    } else {
        assert(((p - 1) * PAGE_SIZE as int) <= p * PAGE_SIZE as int);
        lemma_dump_dirty_region_over_zeros(region, r, start, base, bm, p - 1);
        lemma_dump_dirty_region_len(region, r, start, base, bm, p - 1);
        if spec_page_dirty(bm, r, p - 1) {
            assert(spec_dump_dirty_region(region, r, start, base, bm, p) =~= region.bytes.take(
                p * PAGE_SIZE as int,
            ));
        } else {
            assert(spec_page_zero(region, p - 1));
            let chunk = base.subrange(
                start + (p - 1) * PAGE_SIZE as int,
                start + p * PAGE_SIZE as int,
            );
            assert forall|o: int|
                0 <= o < PAGE_SIZE implies #[trigger] chunk[o] == region.bytes[(p - 1)
                * PAGE_SIZE as int + o] by {
                assert(base[start + (p - 1) * PAGE_SIZE as int + o] == 0u8);
                assert(region.bytes[(p - 1) * PAGE_SIZE as int + o] == 0u8);
            }
            assert(spec_dump_dirty_region(region, r, start, base, bm, p) =~= region.bytes.take(
                p * PAGE_SIZE as int,
            ));
        }
    }
}

/// Law: a dirty dump over a zero-filled image equals a full dump, provided
/// the bitmap marks every page on which the guest memory holds a nonzero
/// byte. Together with `lemma_dump_restore_round_trip`, restoring such a
/// diff image yields the live guest memory.
pub proof fn lemma_diff_dump_over_zeros(map: GuestMemoryMap, bm: Seq<Seq<u64>>, base: Seq<u8>)
    requires
        map.wf(),
        base.len() == map.spec_mem_size(),
        forall|i: int| 0 <= i < base.len() ==> base[i] == 0u8,
        spec_bitmap_covers(map.view_regions(), bm),
    ensures
        spec_dump_dirty(map.view_regions(), base, bm, map.view_regions().len() as int) == spec_dump(
            map.view_regions(),
            map.view_regions().len() as int,
        ),
{
    let rs = map.view_regions();
    lemma_diff_dump_over_zeros_rec(map, bm, base, rs.len() as int);
}

proof fn lemma_diff_dump_over_zeros_rec(
    map: GuestMemoryMap,
    bm: Seq<Seq<u64>>,
    base: Seq<u8>,
    k: int,
)
    requires
        map.wf(),
        base.len() == map.spec_mem_size(),
        forall|i: int| 0 <= i < base.len() ==> base[i] == 0u8,
        spec_bitmap_covers(map.view_regions(), bm),
        k <= map.view_regions().len(),
    ensures
        spec_dump_dirty(map.view_regions(), base, bm, k) == spec_dump(map.view_regions(), k),
    decreases k,
{
    let rs = map.view_regions();
    if k > 0 {
        lemma_diff_dump_over_zeros_rec(map, bm, base, k - 1);
        let region = rs[k - 1];
        let pages = region.bytes.len() as int / PAGE_SIZE as int;
        let start = spec_region_offset(rs, k - 1);
        assert(pages * PAGE_SIZE as int == region.bytes.len() as int);
        lemma_total_bytes_mono(rs, k, rs.len() as int);
        lemma_total_bytes_mono(rs, 0, k - 1);
        assert forall|q: int|
            0 <= q < pages && !spec_page_dirty(bm, k - 1, q) implies spec_page_zero(
            region,
            q,
        ) by {
            assert((q * PAGE_SIZE as int) < pages * PAGE_SIZE as int) by (nonlinear_arith)
                requires
                    0 <= q < pages,
                    PAGE_SIZE == 4096,
            ;
        }
        lemma_dump_dirty_region_over_zeros(region, k - 1, start, base, bm, pages);
        assert(region.bytes.take(pages * PAGE_SIZE as int) =~= region.bytes);
    }
}

} // verus!
