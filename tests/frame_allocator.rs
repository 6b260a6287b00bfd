use trashos::memory::area_frame_allocator::{AreaFrameAllocator, MemoryArea, FRAME_SIZE};
use trashos::memory::{kernel_bounds, SectionSpan};

const MIB: u64 = 1024 * 1024;

fn area(start: u64, size: u64, available: bool) -> MemoryArea {
    MemoryArea { start, size, available }
}

#[test]
fn first_frame_follows_boot_info() {
    let areas = vec![area(0, 16 * MIB, true)];
    let mut a = AreaFrameAllocator::new(MIB, 2 * MIB, 2 * MIB, 2 * MIB + 4096, areas);
    let expected = (2 * MIB + 4096 + FRAME_SIZE - 1) / FRAME_SIZE;
    assert_eq!(a.allocate_frame(), Some(expected));
    assert_eq!(expected, 513);
    assert_eq!(a.allocate_frame(), Some(514));
}

#[test]
fn allocations_distinct_and_outside_exclusions() {
    let areas = vec![
        area(0, 640 * 1024, true),
        area(MIB, 3 * MIB, true),
        area(8 * MIB, 64 * 1024, true),
    ];
    let kernel = (MIB + 8192, MIB + 5 * 4096);
    let boot = (MIB + 40960, MIB + 40960 + 100);
    let mut a = AreaFrameAllocator::new(kernel.0, kernel.1, boot.0, boot.1, areas);
    let mut seen: Vec<u64> = Vec::new();
    while let Some(f) = a.allocate_frame() {
        let addr = f * FRAME_SIZE;
        assert!(addr >= MIB);
        assert!(addr + FRAME_SIZE <= kernel.0 || addr >= kernel.1);
        assert!(addr + FRAME_SIZE <= boot.0 || addr >= boot.1);
        if let Some(last) = seen.last() {
            assert!(*last < f);
        }
        seen.push(f);
    }
    // 3 MiB above 1 MiB is 768 frames, minus 3 kernel frames and 1 boot
    // information frame, plus the 16 frames of the area at 8 MiB.
    assert_eq!(seen.len(), 768 - 3 - 1 + 16);
    assert_eq!(seen[0], 256);
    assert_eq!(seen[1], 257);
    assert_eq!(seen[2], 261);
    assert_eq!(*seen.last().unwrap(), 8 * MIB / FRAME_SIZE + 15);
}

#[test]
fn exhaustion_is_reported_when_frames_run_out() {
    let areas = vec![area(MIB, 3 * FRAME_SIZE, true)];
    let mut a = AreaFrameAllocator::new(0, 0, 0, 0, areas);
    assert_eq!(a.allocate_frame(), Some(256));
    assert_eq!(a.allocate_frame(), Some(257));
    assert_eq!(a.allocate_frame(), Some(258));
    assert_eq!(a.allocate_frame(), None);
    assert_eq!(a.allocate_frame(), None);
}

#[test]
fn empty_map_is_exhausted() {
    let mut a = AreaFrameAllocator::new(MIB, 2 * MIB, 3 * MIB, 3 * MIB + 10, Vec::new());
    assert_eq!(a.allocate_frame(), None);
}

#[test]
fn reserved_and_empty_areas_are_skipped() {
    let areas = vec![
        area(4 * MIB, 2 * FRAME_SIZE, true),
        area(2 * MIB, 16 * FRAME_SIZE, false),
        area(3 * MIB, 0, true),
    ];
    let mut a = AreaFrameAllocator::new(0, 0, 0, 0, areas);
    assert_eq!(a.allocate_frame(), Some(4 * MIB / FRAME_SIZE));
    assert_eq!(a.allocate_frame(), Some(4 * MIB / FRAME_SIZE + 1));
    assert_eq!(a.allocate_frame(), None);
}

#[test]
fn lowest_area_first_whatever_the_order() {
    let areas = vec![area(6 * MIB, FRAME_SIZE, true), area(5 * MIB, FRAME_SIZE, true)];
    let mut a = AreaFrameAllocator::new(0, 0, 0, 0, areas);
    assert_eq!(a.allocate_frame(), Some(5 * MIB / FRAME_SIZE));
    assert_eq!(a.allocate_frame(), Some(6 * MIB / FRAME_SIZE));
    assert_eq!(a.allocate_frame(), None);
}

#[test]
fn kernel_bounds_span_all_sections() {
    let sections = vec![
        SectionSpan { start: 0x20_0000, end: 0x20_5000 },
        SectionSpan { start: 0x10_0000, end: 0x10_0100 },
        SectionSpan { start: 0x30_0000, end: 0x31_0000 },
    ];
    assert_eq!(kernel_bounds(&sections), Some((0x10_0000, 0x31_0000)));
    assert_eq!(kernel_bounds(&Vec::new()), None);
}
