//! Physical memory: frame allocation and the offset mapping of all memory.
pub mod area_frame_allocator;
pub mod paging;

use vstd::prelude::*;

verus! {

/// The bytes `[start, end)` of one loaded kernel section.
#[derive(Clone, Copy, Debug, PartialEq, Eq)]
pub struct SectionSpan {
    pub start: u64,
    pub end: u64,
}

/// The span of the kernel image: from the lowest section start to the
/// highest section end; `None` when there is no section.
pub fn kernel_bounds(sections: &Vec<SectionSpan>) -> (r: Option<(u64, u64)>)
    ensures
        match r {
            Some((lo, hi)) => {
                &&& forall|i: int| 0 <= i < sections@.len() ==> lo <= #[trigger] sections@[i].start
                &&& forall|i: int| 0 <= i < sections@.len() ==> #[trigger] sections@[i].end <= hi
                &&& exists|i: int| 0 <= i < sections@.len() && #[trigger] sections@[i].start == lo
                &&& exists|i: int| 0 <= i < sections@.len() && #[trigger] sections@[i].end == hi
            },
            None => sections@.len() == 0,
        },
{
    if sections.len() == 0 {
        return None;
    }
    let mut lo = sections[0].start;
    let mut hi = sections[0].end;
    let mut i: usize = 1;
    while i < sections.len()
        invariant
            1 <= i <= sections@.len(),
            forall|j: int| 0 <= j < i ==> lo <= #[trigger] sections@[j].start,
            forall|j: int| 0 <= j < i ==> #[trigger] sections@[j].end <= hi,
            exists|j: int| 0 <= j < i && #[trigger] sections@[j].start == lo,
            exists|j: int| 0 <= j < i && #[trigger] sections@[j].end == hi,
        decreases sections@.len() - i,
    {
        if sections[i].start < lo {
            lo = sections[i].start;
        }
        if sections[i].end > hi {
            hi = sections[i].end;
        }
        i = i + 1;
    }
    Some((lo, hi))
}

} // verus!
