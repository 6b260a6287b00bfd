//! The offset mapping of all physical memory, kept as a model of the
//! huge-page entries it installs: virtual huge page number to mapping.
//!
//! Once the mapping is installed, physical address `p` is reachable at
//! virtual address `offset + p`.
use crate::memory::area_frame_allocator::{MemoryArea, MAX_PHYS_ADDR};
use std::collections::HashMap;
use vstd::arithmetic::div_mod::{lemma_fundamental_div_mod, lemma_fundamental_div_mod_converse};
use vstd::prelude::*;

verus! {

broadcast use vstd::std_specs::hash::group_hash_axioms;

/// Bytes in one huge page (1 GiB).
pub const HUGE_PAGE_SIZE: u64 = 0x4000_0000;

/// Virtual address at which physical address zero is mapped (16 TiB).
pub const PHYS_OFFSET: u64 = 0x1000_0000_0000;

/// Largest offset accepted: `offset + p` must stay below 2^64 for every
/// physical address `p`.
pub const MAX_OFFSET: u64 = 0xFFF0_0000_0000_0000;

/// Huge frame numbers are below this bound (physical addresses below `MAX_PHYS_ADDR`).
pub const MAX_HUGE_FRAME: u64 = 0x40_0000;

/// Page-table entry flag: the mapping is present.
pub const PRESENT: u64 = 0x1;

/// Page-table entry flag: the mapping may be written.
pub const WRITABLE: u64 = 0x2;

/// A huge page's target: the physical huge frame number and the entry flags.
#[derive(Clone, Copy, Debug, PartialEq, Eq)]
pub struct Mapping {
    pub frame: u64,
    pub flags: u64,
}

/// Why a mapping was refused.
#[derive(Clone, Copy, Debug, PartialEq, Eq)]
pub enum MapError {
    /// The page is already mapped to another frame or with other flags.
    Conflict,
}

/// The entry that the offset mapping installs for huge frame `k`.
pub open spec fn offset_entry(k: int) -> Mapping {
    Mapping { frame: k as u64, flags: PRESENT | WRITABLE }
}

/// The entries the offset mapping needs for physical memory `[0, end)`:
/// huge page `offset / HUGE_PAGE_SIZE + k` maps huge frame `k` for every
/// huge frame `k` that starts below `end`.
pub open spec fn offset_entries(offset: u64, end: u64) -> Map<u64, Mapping> {
    Map::new(
        |v: u64| v >= offset / HUGE_PAGE_SIZE && (v - offset / HUGE_PAGE_SIZE) * HUGE_PAGE_SIZE < end,
        |v: u64| offset_entry(v - offset / HUGE_PAGE_SIZE),
    )
}

/// What `map_to` does: a free page is mapped, a page mapped to the same
/// entry is left as it is, and any other page is refused with no change.
pub open spec fn map_result(
    pre: Map<u64, Mapping>,
    page: u64,
    entry: Mapping,
    r: Result<(), MapError>,
    post: Map<u64, Mapping>,
) -> bool {
    if pre.contains_key(page) && pre[page] != entry {
        r == Err::<(), MapError>(MapError::Conflict) && post == pre
    } else {
        r == Ok::<(), MapError>(()) && post == pre.insert(page, entry)
    }
}

/// Where virtual address `virt` leads: the physical address and the flags.
pub open spec fn translation(m: Map<u64, Mapping>, virt: int) -> Option<(int, u64)> {
    let page = (virt / HUGE_PAGE_SIZE as int) as u64;
    if m.contains_key(page) {
        Some((m[page].frame * HUGE_PAGE_SIZE + virt % HUGE_PAGE_SIZE as int, m[page].flags))
    } else {
        None
    }
}

/// Whether installing `offset_entries(offset, end)` over `pre` meets no
/// page that is already mapped elsewhere.
pub open spec fn no_offset_conflict(pre: Map<u64, Mapping>, offset: u64, end: u64) -> bool {
    forall|v: u64|
        #[trigger] offset_entries(offset, end).contains_key(v) && #[trigger] pre.contains_key(v)
            ==> pre[v] == offset_entries(offset, end)[v]
}

/// The largest end address over all areas of the memory map, reserved ones
/// included; `None` for an empty map.
pub fn physical_memory_end(areas: &Vec<MemoryArea>) -> (r: Option<u64>)
    requires
        forall|i: int| 0 <= i < areas@.len() ==> #[trigger] areas@[i].start + areas@[i].size <= MAX_PHYS_ADDR,
    ensures
        match r {
            Some(e) => {
                &&& forall|i: int| 0 <= i < areas@.len() ==> #[trigger] areas@[i].start + areas@[i].size <= e
                &&& exists|i: int| 0 <= i < areas@.len() && #[trigger] areas@[i].start + areas@[i].size == e
            },
            None => areas@.len() == 0,
        },
{
    let mut best: Option<u64> = None;
    let mut i: usize = 0;
    while i < areas.len()
        invariant
            i <= areas@.len(),
            forall|j: int| 0 <= j < areas@.len() ==> #[trigger] areas@[j].start + areas@[j].size <= MAX_PHYS_ADDR,
            match best {
                Some(e) => {
                    &&& forall|j: int| 0 <= j < i ==> #[trigger] areas@[j].start + areas@[j].size <= e
                    &&& exists|j: int| 0 <= j < i && #[trigger] areas@[j].start + areas@[j].size == e
                },
                None => i == 0,
            },
        decreases areas@.len() - i,
    {
        let area_end = areas[i].start + areas[i].size;
        best = match best {
            Some(e) => if area_end > e { Some(area_end) } else { Some(e) },
            None => Some(area_end),
        };
        i = i + 1;
    }
    best
}

/// The huge-page entries of an address space.
pub struct AddressSpace {
    entries: HashMap<u64, Mapping>,
}

impl View for AddressSpace {
    type V = Map<u64, Mapping>;

    closed spec fn view(&self) -> Map<u64, Mapping> {
        self.entries@
    }
}

impl AddressSpace {
    /// An address space with nothing mapped.
    pub fn new() -> (r: Self)
        ensures
            r@ == Map::<u64, Mapping>::empty(),
    {
        AddressSpace { entries: HashMap::new() }
    }

    /// The entry of huge page `page`, if it is mapped.
    pub fn entry(&self, page: u64) -> (r: Option<Mapping>)
        ensures
            r == (if self@.contains_key(page) { Some(self@[page]) } else { None::<Mapping> }),
    {
        match self.entries.get(&page) {
            Some(m) => Some(*m),
            None => None,
        }
    }

    /// Every mapped frame lies below `MAX_HUGE_FRAME`.
    pub open spec fn wf(&self) -> bool {
        forall|v: u64| #[trigger] self@.contains_key(v) ==> self@[v].frame < MAX_HUGE_FRAME
    }

    /// Where virtual address `virt` leads, if its huge page is mapped.
    pub fn translate(&self, virt: u64) -> (r: Option<(u64, u64)>)
        requires
            self.wf(),
        ensures
            r == match translation(self@, virt as int) {
                Some((p, f)) => Some((p as u64, f)),
                None => None::<(u64, u64)>,
            },
    {
        match self.entries.get(&(virt / HUGE_PAGE_SIZE)) {
            Some(m) => Some((m.frame * HUGE_PAGE_SIZE + virt % HUGE_PAGE_SIZE, m.flags)),
            None => None,
        }
    }

    /// Maps huge page `page` to `entry`. Mapping a page again to the same
    /// entry changes nothing; mapping it to another entry is refused.
    pub fn map_to(&mut self, page: u64, entry: Mapping) -> (r: Result<(), MapError>)
        requires
            old(self).wf(),
            entry.frame < MAX_HUGE_FRAME,
        ensures
            final(self).wf(),
            map_result(old(self)@, page, entry, r, final(self)@),
    {
        let conflict = match self.entries.get(&page) {
            Some(m) => m.frame != entry.frame || m.flags != entry.flags,
            None => false,
        };
        if conflict {
            Err(MapError::Conflict)
        } else {
            self.entries.insert(page, entry);
            proof {
                assert forall|v: u64| #[trigger] self@.contains_key(v) implies self@[v].frame
                    < MAX_HUGE_FRAME by {
                    if v != page {
                        assert(old(self)@.contains_key(v));
                    }
                }
            }
            Ok(())
        }
    }
}

/// Installs the offset mapping of physical memory `[0, end)` at `offset`:
/// one present, writable huge page per huge frame below `end`. Entries
/// already there are kept; a conflicting one makes the whole call fail.
pub fn create_total_offset_mapping(offset: u64, end: u64, space: &mut AddressSpace) -> (r: Result<
    (),
    MapError,
>)
    requires
        old(space).wf(),
        offset % HUGE_PAGE_SIZE == 0,
        offset <= MAX_OFFSET,
        end <= MAX_PHYS_ADDR,
    ensures
        final(space).wf(),
        r is Ok <==> no_offset_conflict(old(space)@, offset, end),
        r is Ok ==> final(space)@ == old(space)@.union_prefer_right(offset_entries(offset, end)),
        forall|v: u64| #[trigger]
            old(space)@.contains_key(v) ==> final(space)@.contains_key(v) && final(space)@[v]
                == old(space)@[v],
{
    let first_page = offset / HUGE_PAGE_SIZE;
    let mut k: u64 = 0;
    let mut frame_addr: u64 = 0;
    while frame_addr < end
        invariant
            first_page == offset / HUGE_PAGE_SIZE,
            offset <= MAX_OFFSET,
            end <= MAX_PHYS_ADDR,
            frame_addr == k * HUGE_PAGE_SIZE,
            frame_addr <= end + HUGE_PAGE_SIZE,
            k == 0 || (k - 1) * HUGE_PAGE_SIZE < end,
            space.wf(),
            forall|v: u64| #[trigger]
                old(space)@.contains_key(v) ==> space@.contains_key(v) && space@[v] == old(space)@[v],
            space@ == old(space)@.union_prefer_right(
                Map::new(
                    |v: u64| first_page <= v < first_page + k,
                    |v: u64| offset_entry(v - first_page),
                ),
            ),
            forall|j: int|
                0 <= j < k && #[trigger] old(space)@.contains_key((first_page + j) as u64) ==> old(
                    space,
                )@[(first_page + j) as u64] == offset_entry(j),
        decreases end + HUGE_PAGE_SIZE - frame_addr,
    {
        let page = first_page + k;
        let entry = Mapping { frame: k, flags: PRESENT | WRITABLE };
        proof {
            assert(offset_entries(offset, end).contains_key(page));
            assert(offset_entries(offset, end)[page] == entry);
        }
        match space.map_to(page, entry) {
            Err(e) => {
                return Err(e);
            },
            Ok(()) => {},
        }
        proof {
            assert forall|j: int|
                0 <= j < k + 1 && #[trigger] old(space)@.contains_key((first_page + j) as u64)
                implies old(space)@[(first_page + j) as u64] == offset_entry(j) by {
                if j == k {
                    assert(!old(space)@.contains_key(page) || old(space)@[page] == entry);
                }
            }
        }
        frame_addr = frame_addr + HUGE_PAGE_SIZE;
        k = k + 1;
        proof {
            assert(space@ =~= old(space)@.union_prefer_right(
                Map::new(
                    |v: u64| first_page <= v < first_page + k,
                    |v: u64| offset_entry(v - first_page),
                ),
            ));
        }
    }
    proof {
        assert(Map::new(
            |v: u64| first_page <= v < first_page + k,
            |v: u64| offset_entry(v - first_page),
        ) =~= offset_entries(offset, end));
        assert forall|v: u64|
            #[trigger] offset_entries(offset, end).contains_key(v) && #[trigger] old(space)@.contains_key(v)
            implies old(space)@[v] == offset_entries(offset, end)[v] by {
            let j = v - first_page;
            assert((first_page + j) as u64 == v);
        }
    }
    Ok(())
}

/// Once the offset mapping of `[0, end)` is installed, every physical
/// address `p` of an area of the memory map is reachable at `offset + p`,
/// present and writable, provided `end` covers every area.
pub proof fn lemma_offset_mapping_reaches(
    m: Map<u64, Mapping>,
    offset: u64,
    end: u64,
    areas: Seq<MemoryArea>,
    i: int,
    p: int,
)
    requires
        offset % HUGE_PAGE_SIZE == 0,
        offset <= MAX_OFFSET,
        end <= MAX_PHYS_ADDR,
        offset_entries(offset, end).submap_of(m),
        forall|j: int| 0 <= j < areas.len() ==> #[trigger] areas[j].start + areas[j].size <= end,
        0 <= i < areas.len(),
        areas[i].start <= p < areas[i].start + areas[i].size,
    ensures
        translation(m, offset + p) == Some((p, PRESENT | WRITABLE)),
{
    let g = HUGE_PAGE_SIZE as int;
    let first = offset / HUGE_PAGE_SIZE;
    let j = p / g;
    assert(areas[i].start + areas[i].size <= end);
    lemma_fundamental_div_mod(offset as int, g);
    lemma_fundamental_div_mod(p, g);
    assert(offset == first * g + 0);
    assert((first + j) * g == first * g + j * g) by (nonlinear_arith);
    lemma_fundamental_div_mod_converse(offset + p, g, first + j, p % g);
    let v = (first + j) as u64;
    assert(offset_entries(offset, end).contains_key(v));
    assert(m[v] == offset_entry(j));
}

/// Mapping a page twice to the same entry: the second call succeeds and
/// changes nothing.
pub proof fn lemma_map_same_twice_idempotent(
    t0: Map<u64, Mapping>,
    page: u64,
    entry: Mapping,
    r1: Result<(), MapError>,
    t1: Map<u64, Mapping>,
    r2: Result<(), MapError>,
    t2: Map<u64, Mapping>,
)
    requires
        map_result(t0, page, entry, r1, t1),
        map_result(t1, page, entry, r2, t2),
    ensures
        r2 == r1,
        t2 == t1,
{
    if r1 is Ok {
        assert(t1.contains_key(page) && t1[page] == entry);
        assert(t1.insert(page, entry) =~= t1);
    }
}

/// Mapping an already mapped page to a different entry is refused and
/// leaves the address space unchanged.
pub proof fn lemma_conflicting_map_rejected(
    t0: Map<u64, Mapping>,
    page: u64,
    entry: Mapping,
    r: Result<(), MapError>,
    t1: Map<u64, Mapping>,
)
    requires
        t0.contains_key(page),
        t0[page] != entry,
        map_result(t0, page, entry, r, t1),
    ensures
        r == Err::<(), MapError>(MapError::Conflict),
        t1 == t0,
{
}

} // verus!
