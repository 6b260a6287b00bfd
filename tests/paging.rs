use trashos::memory::area_frame_allocator::MemoryArea;
use trashos::memory::paging::{
    create_total_offset_mapping, physical_memory_end, AddressSpace, MapError, Mapping,
    HUGE_PAGE_SIZE, PHYS_OFFSET, PRESENT, WRITABLE,
};

#[test]
fn offset_mapping_reaches_all_memory() {
    let end = 3 * HUGE_PAGE_SIZE + 5;
    let mut space = AddressSpace::new();
    assert_eq!(create_total_offset_mapping(PHYS_OFFSET, end, &mut space), Ok(()));
    for p in [0u64, 1, 4095, HUGE_PAGE_SIZE - 1, HUGE_PAGE_SIZE, 2 * HUGE_PAGE_SIZE + 77, end - 1] {
        assert_eq!(space.translate(PHYS_OFFSET + p), Some((p, PRESENT | WRITABLE)));
    }
    let first = PHYS_OFFSET / HUGE_PAGE_SIZE;
    assert_eq!(space.entry(first + 3), Some(Mapping { frame: 3, flags: 3 }));
    assert_eq!(space.entry(first + 4), None);
    assert_eq!(space.translate(0), None);
}

#[test]
fn offset_mapping_of_empty_memory_maps_nothing() {
    let mut space = AddressSpace::new();
    assert_eq!(create_total_offset_mapping(PHYS_OFFSET, 0, &mut space), Ok(()));
    assert_eq!(space.entry(PHYS_OFFSET / HUGE_PAGE_SIZE), None);
}

#[test]
fn remapping_same_entry_is_idempotent() {
    let mut space = AddressSpace::new();
    let e = Mapping { frame: 7, flags: PRESENT | WRITABLE };
    assert_eq!(space.map_to(42, e), Ok(()));
    assert_eq!(space.map_to(42, e), Ok(()));
    assert_eq!(space.entry(42), Some(e));
    let end = 2 * HUGE_PAGE_SIZE;
    assert_eq!(create_total_offset_mapping(PHYS_OFFSET, end, &mut space), Ok(()));
    assert_eq!(create_total_offset_mapping(PHYS_OFFSET, end, &mut space), Ok(()));
    assert_eq!(space.translate(PHYS_OFFSET + 12345), Some((12345, 3)));
}

#[test]
fn conflicting_flags_are_rejected() {
    let mut space = AddressSpace::new();
    assert_eq!(space.map_to(42, Mapping { frame: 7, flags: PRESENT | WRITABLE }), Ok(()));
    assert_eq!(space.map_to(42, Mapping { frame: 7, flags: PRESENT }), Err(MapError::Conflict));
    assert_eq!(space.map_to(42, Mapping { frame: 8, flags: PRESENT | WRITABLE }), Err(MapError::Conflict));
    assert_eq!(space.entry(42), Some(Mapping { frame: 7, flags: 3 }));

    let first = PHYS_OFFSET / HUGE_PAGE_SIZE;
    assert_eq!(space.map_to(first + 1, Mapping { frame: 1, flags: PRESENT }), Ok(()));
    assert_eq!(
        create_total_offset_mapping(PHYS_OFFSET, 4 * HUGE_PAGE_SIZE, &mut space),
        Err(MapError::Conflict)
    );
    assert_eq!(space.entry(first + 1), Some(Mapping { frame: 1, flags: PRESENT }));
}

#[test]
fn memory_end_is_highest_area_end() {
    let areas = vec![
        MemoryArea { start: 0, size: 0x9_f000, available: true },
        MemoryArea { start: 0x10_0000, size: 0x7ee_0000, available: true },
        MemoryArea { start: 0xfffc_0000, size: 0x4_0000, available: false },
        MemoryArea { start: 0x7fe_0000, size: 0x2_0000, available: false },
    ];
    assert_eq!(physical_memory_end(&areas), Some(0x1_0000_0000));
    assert_eq!(physical_memory_end(&Vec::new()), None);
}
