use sikios::bootinfo::{
    total_conventional_pages, FrameBufferInfo, MemoryDescriptor, MemoryMap, MemoryMapError,
    MemoryType, ModeInfo, PixelBitmask, PixelFormat, SikiOSArguments, MEMORY_MAP_SIZE,
};

fn descriptor(memory_type: MemoryType, physical_start: u64, number_of_pages: u64) -> MemoryDescriptor {
    MemoryDescriptor {
        memory_type,
        physical_start,
        virtual_start: 0,
        number_of_pages,
        attribute: 0,
    }
}

#[test]
fn memory_map_keeps_descriptors_verbatim() {
    let descs = vec![
        descriptor(MemoryType::LOADER_CODE, 0x1000, 2),
        descriptor(MemoryType::CONVENTIONAL, 0x100000, 64),
    ];
    let map = MemoryMap::from_descriptors(&descs).unwrap();
    assert_eq!(map.len, 2);
    assert_eq!(map.map.len(), MEMORY_MAP_SIZE);
    assert_eq!(map.map[0], descs[0]);
    assert_eq!(map.map[1], descs[1]);
}

#[test]
fn memory_map_capture_is_bounds_checked() {
    let descs = vec![descriptor(MemoryType::CONVENTIONAL, 0, 1); MEMORY_MAP_SIZE + 1];
    assert_eq!(MemoryMap::from_descriptors(&descs), Err(MemoryMapError::Overflow));
    let descs = vec![descriptor(MemoryType::CONVENTIONAL, 0, 1); MEMORY_MAP_SIZE];
    assert!(MemoryMap::from_descriptors(&descs).is_ok());
}

#[test]
fn conventional_pages_are_summed() {
    let descs = vec![
        descriptor(MemoryType::LOADER_CODE, 0x1000, 7),
        descriptor(MemoryType::CONVENTIONAL, 0x100000, 64),
        descriptor(MemoryType::MMIO, 0x5000, 9),
        descriptor(MemoryType::CONVENTIONAL, 0x900000, 36),
    ];
    let map = MemoryMap::from_descriptors(&descs).unwrap();
    assert_eq!(total_conventional_pages(&map), 100);
}

#[test]
fn memory_type_codes_round_trip() {
    for code in 0..=14u32 {
        let t = MemoryType::from_code(code).unwrap();
        assert_eq!(t.code(), code);
    }
    assert_eq!(MemoryType::from_code(15), None);
    assert_eq!(MemoryType::CONVENTIONAL.code(), 7);
    assert_eq!(MemoryType::from_code(0), Some(MemoryType::RESERVED));
}

#[test]
fn arguments_carry_their_pieces() {
    let fb = FrameBufferInfo { fb: 0x8000_0000, size: 1920 * 1080 * 4 };
    let mode = ModeInfo {
        version: 0,
        hor_res: 1920,
        ver_res: 1080,
        format: PixelFormat::Bgr,
        mask: Some(PixelBitmask { red: 0xff, green: 0xff00, blue: 0xff0000, reserved: 0 }),
        stride: 1920,
    };
    let map = MemoryMap::from_descriptors(&vec![descriptor(MemoryType::CONVENTIONAL, 0, 16)])
        .unwrap();
    let args = SikiOSArguments::new(fb, mode.clone(), map.clone());
    assert_eq!(args.frame_buffer_info, fb);
    assert_eq!(args.mode_info, mode);
    assert_eq!(args.memory_map, map);
}
