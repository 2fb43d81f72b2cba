use sikios::allocator::{AllocError, MemoryFrame, SimpleAlloc, ALLOC_FRAME_NUM};
use sikios::bootinfo::{MemoryDescriptor, MemoryMap, MemoryType};

fn descriptor(memory_type: MemoryType, physical_start: u64, number_of_pages: u64) -> MemoryDescriptor {
    MemoryDescriptor {
        memory_type,
        physical_start,
        virtual_start: 0,
        number_of_pages,
        attribute: 0,
    }
}

fn used_frames(frame: &MemoryFrame) -> usize {
    let mut count = 0;
    for i in 0..ALLOC_FRAME_NUM {
        if frame.get_flag(i).unwrap() {
            count += 1;
        }
    }
    count
}

#[test]
fn concrete_allocator_run() {
    let mut frame = MemoryFrame::with_frame_num(4);
    frame.set_offset_addr(0x100000);
    let first = frame.use_frame_with_physical_size(4096).unwrap();
    assert_eq!(first, 0x100000);
    let second = frame.use_frame_with_physical_size(8192).unwrap();
    // first-fit: the two-frame run starts right after the single allocated frame.
    assert_eq!(second, 0x101000);
    frame.free_frame_with_physical_address(first, 4096).unwrap();
    let third = frame.use_frame_with_physical_size(4096).unwrap();
    // first-fit reuses the lowest free run.
    assert_eq!(third, 0x100000);
}

#[test]
fn sizing_consumes_ceil_frames() {
    for (byte_size, expected_frames) in
        [(1usize, 1usize), (4095, 1), (4096, 1), (4097, 2), (8192, 2)]
    {
        let mut frame = MemoryFrame::new();
        frame.use_frame_with_physical_size(byte_size).unwrap();
        assert_eq!(used_frames(&frame), expected_frames);
    }
}

#[test]
fn round_trip_returns_to_all_free() {
    let mut frame = MemoryFrame::new();
    let a = frame.use_frame_with_physical_size(4096).unwrap();
    let b = frame.use_frame_with_physical_size(3 * 4096).unwrap();
    let c = frame.use_frame_with_physical_size(1).unwrap();
    assert_eq!(used_frames(&frame), 5);
    frame.free_frame_with_physical_address(b, 3 * 4096).unwrap();
    frame.free_frame_with_physical_address(a, 4096).unwrap();
    frame.free_frame_with_physical_address(c, 1).unwrap();
    assert_eq!(used_frames(&frame), 0);
}

#[test]
fn disjointness_of_successive_allocations() {
    let mut frame = MemoryFrame::new();
    let a = frame.use_frame_with_physical_size(3 * 4096).unwrap();
    let b = frame.use_frame_with_physical_size(2 * 4096).unwrap();
    let c = frame.use_frame_with_physical_size(4096).unwrap();
    // ranges [a, a+3*4096), [b, b+2*4096), [c, c+4096) never overlap.
    assert!(a + 3 * 4096 <= b || b + 2 * 4096 <= a);
    assert!(a + 3 * 4096 <= c || c + 4096 <= a);
    assert!(b + 2 * 4096 <= c || c + 4096 <= b);
}

#[test]
fn gating_before_initialize() {
    let mut alloc = SimpleAlloc::new();
    assert_eq!(alloc.allocate(4096), Err(AllocError::NotInitialized));
    assert_eq!(alloc.deallocate(0x100000, 4096), Err(AllocError::NotInitialized));
}

#[test]
fn initialize_anchors_first_conventional_region() {
    let descs = vec![
        descriptor(MemoryType::LOADER_CODE, 0x1000, 1),
        descriptor(MemoryType::CONVENTIONAL, 0x200000, 16),
        descriptor(MemoryType::CONVENTIONAL, 0x900000, 16),
    ];
    let map = MemoryMap::from_descriptors(&descs).unwrap();
    let mut alloc = SimpleAlloc::new();
    alloc.initialize(&map);
    // the window is anchored at the first free usable region, not the last.
    assert_eq!(alloc.allocate(4096), Ok(0x200000));
}

#[test]
fn initialize_without_conventional_region() {
    let descs = vec![descriptor(MemoryType::MMIO, 0x8000, 4)];
    let map = MemoryMap::from_descriptors(&descs).unwrap();
    let mut alloc = SimpleAlloc::new();
    alloc.initialize(&map);
    assert_eq!(alloc.allocate(4096), Ok(0));
}

#[test]
fn misaligned_free_is_rejected() {
    let descs = vec![descriptor(MemoryType::CONVENTIONAL, 0x100000, 16)];
    let map = MemoryMap::from_descriptors(&descs).unwrap();
    let mut alloc = SimpleAlloc::new();
    alloc.initialize(&map);
    let addr = alloc.allocate(4096).unwrap();
    assert_eq!(alloc.deallocate(addr + 1, 4096), Err(AllocError::MisalignedAddress));
    // an address below the window base is not frame-aligned relative to it.
    assert_eq!(alloc.deallocate(0x0fff, 4096), Err(AllocError::MisalignedAddress));
    assert_eq!(alloc.deallocate(addr, 4096), Ok(()));
}

#[test]
fn out_of_memory_when_no_run_fits() {
    let mut frame = MemoryFrame::with_frame_num(4);
    assert_eq!(
        frame.use_frame_with_physical_size(5 * 4096),
        Err(AllocError::OutOfMemory)
    );
    // a failed allocation leaves the bitmap untouched.
    assert_eq!(used_frames(&frame), 0);
    assert_eq!(frame.use_frame_with_physical_size(4 * 4096), Ok(0));
}

#[test]
fn out_of_memory_under_fragmentation() {
    let mut frame = MemoryFrame::with_frame_num(4);
    let a = frame.use_frame_with_physical_size(4096).unwrap();
    let _b = frame.use_frame_with_physical_size(4096).unwrap();
    let c = frame.use_frame_with_physical_size(4096).unwrap();
    let _d = frame.use_frame_with_physical_size(4096).unwrap();
    frame.free_frame_with_physical_address(a, 4096).unwrap();
    frame.free_frame_with_physical_address(c, 4096).unwrap();
    // two free frames remain, but no two are adjacent.
    assert_eq!(
        frame.use_frame_with_physical_size(2 * 4096),
        Err(AllocError::OutOfMemory)
    );
    assert_eq!(frame.use_frame_with_physical_size(4096), Ok(a));
}

#[test]
fn get_flag_outside_bitmap() {
    let frame = MemoryFrame::new();
    assert_eq!(frame.get_flag(ALLOC_FRAME_NUM), None);
    assert_eq!(frame.get_flag(0), Some(false));
}

#[test]
fn use_frame_marks_exact_run() {
    let mut frame = MemoryFrame::new();
    let start = frame.use_frame(3).unwrap();
    assert_eq!(start, 0);
    for i in 0..3 {
        assert_eq!(frame.get_flag(i), Some(true));
    }
    assert_eq!(frame.get_flag(3), Some(false));
    frame.free_frame(start, 3);
    assert_eq!(used_frames(&frame), 0);
}
