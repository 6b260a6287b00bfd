//! A bump allocator over the available areas of the boot memory map.
//!
//! Frames are numbered: frame `f` covers the physical bytes
//! `[f * FRAME_SIZE, (f + 1) * FRAME_SIZE)`. Frames are handed out in
//! increasing order and never reused.
use vstd::prelude::*;

verus! {

/// Bytes in one frame.
pub const FRAME_SIZE: u64 = 4096;

/// Physical addresses are below this bound (52 address bits).
pub const MAX_PHYS_ADDR: u64 = 0x10_0000_0000_0000;

/// Number of frames below `MAX_PHYS_ADDR`.
pub const MAX_FRAME: u64 = 0x100_0000_0000;

/// Frames below this one lie in the legacy area under 1 MiB and are never handed out.
pub const LEGACY_FRAMES: u64 = 256;

/// One entry of the boot memory map.
#[derive(Clone, Copy, Debug, PartialEq, Eq)]
pub struct MemoryArea {
    pub start: u64,
    pub size: u64,
    pub available: bool,
}

/// The frames `start, start + 1, ..., end - 1`.
#[derive(Clone, Copy, Debug, PartialEq, Eq)]
pub struct FrameRange {
    pub start: u64,
    pub end: u64,
}

impl FrameRange {
    pub open spec fn contains(self, f: int) -> bool {
        self.start <= f < self.end
    }
}

/// The frame holding physical address `addr`.
pub open spec fn frame_of(addr: int) -> int {
    addr / FRAME_SIZE as int
}

/// The frames that hold some byte of `[start, end)`.
pub open spec fn frames_of_span(start: int, end: int) -> FrameRange {
    if end <= start {
        FrameRange { start: frame_of(start) as u64, end: frame_of(start) as u64 }
    } else {
        FrameRange { start: frame_of(start) as u64, end: (frame_of(end - 1) + 1) as u64 }
    }
}

/// Whether frame `f` holds a byte of an available area of the memory map.
pub open spec fn in_memory_map(areas: Seq<MemoryArea>, f: int) -> bool {
    exists|i: int|
        0 <= i < areas.len() && areas[i].available && #[trigger] frames_of_span(
            areas[i].start as int,
            areas[i].start + areas[i].size,
        ).contains(f)
}

/// Every area lies below `MAX_PHYS_ADDR`.
pub open spec fn map_in_bounds(areas: Seq<MemoryArea>) -> bool {
    forall|i: int| 0 <= i < areas.len() ==> #[trigger] areas[i].start + areas[i].size <= MAX_PHYS_ADDR
}

fn span_frames(start: u64, end: u64) -> (r: FrameRange)
    requires
        start <= MAX_PHYS_ADDR,
        end <= MAX_PHYS_ADDR,
    ensures
        r == frames_of_span(start as int, end as int),
        r.start <= r.end <= MAX_FRAME,
{
    if end <= start {
        FrameRange { start: start / FRAME_SIZE, end: start / FRAME_SIZE }
    } else {
        FrameRange { start: start / FRAME_SIZE, end: (end - 1) / FRAME_SIZE + 1 }
    }
}

/// Hands out the usable frames of the memory map in increasing order:
/// frames of available areas, at or above 1 MiB, outside the kernel image
/// and outside the boot information. There is no way to give a frame back.
pub struct AreaFrameAllocator {
    next_free_frame: u64,
    current_area: Option<FrameRange>,
    areas: Vec<MemoryArea>,
    kernel: FrameRange,
    multiboot: FrameRange,
}

impl AreaFrameAllocator {
    /// The next frame that may be handed out; every frame handed out so far lies below it.
    pub closed spec fn cursor(&self) -> int {
        self.next_free_frame as int
    }

    pub closed spec fn memory_areas(&self) -> Seq<MemoryArea> {
        self.areas@
    }

    pub closed spec fn kernel_frames(&self) -> FrameRange {
        self.kernel
    }

    pub closed spec fn boot_info_frames(&self) -> FrameRange {
        self.multiboot
    }

    /// Whether frame `f` may ever be handed out.
    pub open spec fn usable(&self, f: int) -> bool {
        &&& in_memory_map(self.memory_areas(), f)
        &&& f >= LEGACY_FRAMES
        &&& !self.kernel_frames().contains(f)
        &&& !self.boot_info_frames().contains(f)
    }

    /// Same memory map and exclusions.
    pub open spec fn same_config(&self, other: Self) -> bool {
        &&& self.memory_areas() == other.memory_areas()
        &&& self.kernel_frames() == other.kernel_frames()
        &&& self.boot_info_frames() == other.boot_info_frames()
    }

    closed spec fn config_wf(&self) -> bool {
        &&& map_in_bounds(self.areas@)
        &&& self.kernel.end <= MAX_FRAME
        &&& self.multiboot.end <= MAX_FRAME
        &&& self.next_free_frame <= MAX_FRAME
    }

    pub closed spec fn wf(&self) -> bool {
        &&& self.config_wf()
        &&& match self.current_area {
            Some(r) => {
                &&& r.start <= self.next_free_frame
                &&& r.end <= MAX_FRAME
                &&& forall|f: int| r.contains(f) ==> in_memory_map(self.areas@, f)
            },
            None => forall|f: int| f >= self.next_free_frame ==> !in_memory_map(self.areas@, f),
        }
    }

    /// `post` and `r` are what one allocation from `pre` leaves and returns:
    /// the lowest usable frame at or above the cursor, or `None` when no
    /// usable frame remains there.
    pub open spec fn allocates(pre: Self, r: Option<u64>, post: Self) -> bool {
        &&& post.same_config(pre)
        &&& post.cursor() >= pre.cursor()
        &&& match r {
            Some(f) => {
                &&& pre.usable(f as int)
                &&& pre.cursor() <= f
                &&& forall|g: int| pre.cursor() <= g < f ==> !pre.usable(g)
                &&& post.cursor() == f + 1
            },
            None => forall|g: int| g >= pre.cursor() ==> !pre.usable(g),
        }
    }

    /// Builds the allocator for the given memory map. The kernel image
    /// occupies `[kernel_start, kernel_end)` and the boot information
    /// `[multiboot_start, multiboot_end)`; frames holding a byte of either
    /// are never handed out.
    pub fn new(
        kernel_start: u64,
        kernel_end: u64,
        multiboot_start: u64,
        multiboot_end: u64,
        areas: Vec<MemoryArea>,
    ) -> (r: AreaFrameAllocator)
        requires
            kernel_start <= MAX_PHYS_ADDR,
            kernel_end <= MAX_PHYS_ADDR,
            multiboot_start <= MAX_PHYS_ADDR,
            multiboot_end <= MAX_PHYS_ADDR,
            map_in_bounds(areas@),
        ensures
            r.wf(),
            r.memory_areas() == areas@,
            r.kernel_frames() == frames_of_span(kernel_start as int, kernel_end as int),
            r.boot_info_frames() == frames_of_span(multiboot_start as int, multiboot_end as int),
            forall|g: int| 0 <= g < r.cursor() ==> !in_memory_map(areas@, g),
    {
        let mut allocator = AreaFrameAllocator {
            next_free_frame: 0,
            current_area: None,
            areas,
            kernel: span_frames(kernel_start, kernel_end),
            multiboot: span_frames(multiboot_start, multiboot_end),
        };
        allocator.choose_next_area();
        allocator
    }

    /// Moves to the lowest-starting available area that still has a frame at
    /// or above the cursor, raising the cursor to its first frame; with no
    /// such area the allocator is exhausted.
    fn choose_next_area(&mut self)
        requires
            old(self).config_wf(),
        ensures
            final(self).wf(),
            final(self).same_config(*old(self)),
            final(self).next_free_frame >= old(self).next_free_frame,
            forall|g: int|
                old(self).next_free_frame <= g < final(self).next_free_frame ==> !in_memory_map(
                    old(self).areas@,
                    g,
                ),
            match final(self).current_area {
                Some(r) => final(self).next_free_frame < r.end,
                None => true,
            },
    {
        let mut best: Option<FrameRange> = None;
        let mut i: usize = 0;
        while i < self.areas.len()
            invariant
                self.config_wf(),
                *self == *old(self),
                i <= self.areas@.len(),
                match best {
                    Some(b) => {
                        &&& b.start < b.end
                        &&& self.next_free_frame < b.end <= MAX_FRAME
                        &&& exists|j: int|
                            0 <= j < self.areas@.len() && self.areas@[j].available
                                && #[trigger] frames_of_span(
                                self.areas@[j].start as int,
                                self.areas@[j].start + self.areas@[j].size,
                            ) == b
                        &&& forall|j: int|
                            0 <= j < i && self.areas@[j].available ==> {
                                let s = #[trigger] frames_of_span(
                                    self.areas@[j].start as int,
                                    self.areas@[j].start + self.areas@[j].size,
                                );
                                s.start >= s.end || s.end <= self.next_free_frame || s.start
                                    >= b.start
                            }
                    },
                    None => forall|j: int|
                        0 <= j < i && self.areas@[j].available ==> {
                            let s = #[trigger] frames_of_span(
                                self.areas@[j].start as int,
                                self.areas@[j].start + self.areas@[j].size,
                            );
                            s.start >= s.end || s.end <= self.next_free_frame
                        },
                },
            decreases self.areas@.len() - i,
        {
            let area = self.areas[i];
            proof {
                assert(map_in_bounds(self.areas@));
                assert(self.areas@[i as int].start + self.areas@[i as int].size <= MAX_PHYS_ADDR);
            }
            if area.available {
                let span = span_frames(area.start, area.start + area.size);
                if span.start < span.end && span.end > self.next_free_frame {
                    match best {
                        Some(b) => {
                            if span.start < b.start {
                                best = Some(span);
                            }
                        },
                        None => {
                            best = Some(span);
                        },
                    }
                }
            }
            i = i + 1;
        }
        match best {
            Some(b) => {
                if self.next_free_frame < b.start {
                    self.next_free_frame = b.start;
                }
                self.current_area = Some(b);
            },
            None => {
                self.current_area = None;
            },
        }
    }
    /// Hands out the lowest usable frame at or above the cursor, or `None`
    /// once no usable frame remains.
    pub fn allocate_frame(&mut self) -> (r: Option<u64>)
        requires
            old(self).wf(),
        ensures
            final(self).wf(),
            Self::allocates(*old(self), r, *final(self)),
    {
        loop
            invariant
                self.wf(),
                self.same_config(*old(self)),
                self.next_free_frame >= old(self).next_free_frame,
                forall|g: int| old(self).next_free_frame <= g < self.next_free_frame ==> !old(self).usable(g),
            decreases 2 * (MAX_FRAME - self.next_free_frame) + match self.current_area {
                Some(r) => if self.next_free_frame >= r.end { 1int } else { 0int },
                None => 0int,
            },
        {
            match self.current_area {
                None => {
                    return None;
                },
                Some(area) => {
                    let frame = self.next_free_frame;
                    if frame >= area.end {
                        // every frame of the current area is used: move on
                        self.choose_next_area();
                    } else if frame < LEGACY_FRAMES {
                        self.next_free_frame = LEGACY_FRAMES;
                    } else if self.kernel.start <= frame && frame < self.kernel.end {
                        self.next_free_frame = self.kernel.end;
                    } else if self.multiboot.start <= frame && frame < self.multiboot.end {
                        self.next_free_frame = self.multiboot.end;
                    } else {
                        proof {
                            assert(area.contains(frame as int));
                            assert(in_memory_map(self.areas@, frame as int));
                            assert(old(self).usable(frame as int));
                        }
                        self.next_free_frame = frame + 1;
                        return Some(frame);
                    }
                },
            }
        }
    }
}

/// Two successive allocations never return the same frame: the second
/// frame lies strictly above the first, and neither lies under 1 MiB, in
/// the kernel image or in the boot information.
pub proof fn lemma_successive_allocations_distinct(
    a0: AreaFrameAllocator,
    f1: u64,
    a1: AreaFrameAllocator,
    f2: u64,
    a2: AreaFrameAllocator,
)
    requires
        AreaFrameAllocator::allocates(a0, Some(f1), a1),
        AreaFrameAllocator::allocates(a1, Some(f2), a2),
    ensures
        f1 < f2,
        f1 >= LEGACY_FRAMES && f2 >= LEGACY_FRAMES,
        !a0.kernel_frames().contains(f1 as int) && !a0.kernel_frames().contains(f2 as int),
        !a0.boot_info_frames().contains(f1 as int) && !a0.boot_info_frames().contains(f2 as int),
{
}

/// An allocation fails exactly when no usable frame is left at or above
/// the cursor.
pub proof fn lemma_exhaustion_exact(pre: AreaFrameAllocator, r: Option<u64>, post: AreaFrameAllocator)
    requires
        AreaFrameAllocator::allocates(pre, r, post),
    ensures
        r is None <==> !exists|g: int| g >= pre.cursor() && pre.usable(g),
{
}

/// Once an allocation has failed, every later one fails too.
pub proof fn lemma_exhaustion_permanent(
    a0: AreaFrameAllocator,
    a1: AreaFrameAllocator,
    r: Option<u64>,
    a2: AreaFrameAllocator,
)
    requires
        AreaFrameAllocator::allocates(a0, None, a1),
        AreaFrameAllocator::allocates(a1, r, a2),
    ensures
        r is None,
{
    if let Some(f) = r {
        assert(a1.usable(f as int));
        assert(a0.usable(f as int));
    }
}

proof fn lemma_cursor_monotone(states: Seq<AreaFrameAllocator>, results: Seq<Option<u64>>, i: int, j: int)
    requires
        results.len() + 1 == states.len(),
        forall|k: int|
            0 <= k < results.len() ==> AreaFrameAllocator::allocates(
                #[trigger] states[k],
                results[k],
                states[k + 1],
            ),
        0 <= i <= j < states.len(),
    ensures
        states[i].cursor() <= states[j].cursor(),
    decreases j - i,
{
    if i < j {
        lemma_cursor_monotone(states, results, i, j - 1);
        assert(AreaFrameAllocator::allocates(states[j - 1], results[j - 1], states[j]));
    }
}

/// Over any run of allocations, the frames handed out strictly increase,
/// so no frame is ever handed out twice.
pub proof fn lemma_allocations_never_repeat(
    states: Seq<AreaFrameAllocator>,
    results: Seq<Option<u64>>,
)
    requires
        results.len() + 1 == states.len(),
        forall|k: int|
            0 <= k < results.len() ==> AreaFrameAllocator::allocates(
                #[trigger] states[k],
                results[k],
                states[k + 1],
            ),
    ensures
        forall|i: int, j: int|
            0 <= i < j < results.len() && #[trigger] results[i] is Some && #[trigger] results[j] is Some
                ==> results[i]->Some_0 < results[j]->Some_0,
{
    assert forall|i: int, j: int|
        0 <= i < j < results.len() && #[trigger] results[i] is Some && #[trigger] results[j] is Some
        implies results[i]->Some_0 < results[j]->Some_0 by {
        assert(AreaFrameAllocator::allocates(states[i], results[i], states[i + 1]));
        assert(AreaFrameAllocator::allocates(states[j], results[j], states[j + 1]));
        lemma_cursor_monotone(states, results, i + 1, j);
    }
}

} // verus!
