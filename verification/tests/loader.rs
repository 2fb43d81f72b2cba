use sikios::loader::{
    check_segments, compute_load_range, has_load_segment, load_segments, pages_needed,
    plan_kernel_load, LoaderError, ProgramHeader, PT_LOAD,
};

const PT_NOTE: u32 = 4;

fn header(p_type: u32, p_offset: u64, p_vaddr: u64, p_filesz: u64, p_memsz: u64) -> ProgramHeader {
    ProgramHeader { p_type, p_offset, p_vaddr, p_filesz, p_memsz }
}

/// A minimal little-endian ELF64 executable with the given program headers,
/// padded with zeros to `file_size` bytes.
fn build_elf(entry: u64, phdrs: &[(u32, u64, u64, u64, u64)], file_size: usize) -> Vec<u8> {
    let mut b: Vec<u8> = Vec::new();
    b.extend([0x7f, b'E', b'L', b'F', 2, 1, 1, 0, 0, 0, 0, 0, 0, 0, 0, 0]);
    b.extend(2u16.to_le_bytes()); // e_type: executable
    b.extend(0x3eu16.to_le_bytes()); // e_machine: x86-64
    b.extend(1u32.to_le_bytes()); // e_version
    b.extend(entry.to_le_bytes());
    b.extend(64u64.to_le_bytes()); // e_phoff
    b.extend(0u64.to_le_bytes()); // e_shoff
    b.extend(0u32.to_le_bytes()); // e_flags
    b.extend(64u16.to_le_bytes()); // e_ehsize
    b.extend(56u16.to_le_bytes()); // e_phentsize
    b.extend((phdrs.len() as u16).to_le_bytes()); // e_phnum
    b.extend(0u16.to_le_bytes()); // e_shentsize
    b.extend(0u16.to_le_bytes()); // e_shnum
    b.extend(0u16.to_le_bytes()); // e_shstrndx
    for (p_type, p_offset, p_vaddr, p_filesz, p_memsz) in phdrs {
        b.extend(p_type.to_le_bytes());
        b.extend(0u32.to_le_bytes()); // p_flags
        b.extend(p_offset.to_le_bytes());
        b.extend(p_vaddr.to_le_bytes());
        b.extend(p_vaddr.to_le_bytes()); // p_paddr
        b.extend(p_filesz.to_le_bytes());
        b.extend(p_memsz.to_le_bytes());
        b.extend(0u64.to_le_bytes()); // p_align
    }
    assert!(b.len() <= file_size);
    b.resize(file_size, 0);
    b
}

#[test]
fn load_range_over_loadable_segments_only() {
    let headers = vec![
        header(PT_LOAD, 0, 0x100000, 0x2000, 0x3000),
        header(PT_LOAD, 0x2000, 0x104000, 0x1000, 0x1000),
        header(PT_NOTE, 0, 0x200000, 0x1000, 0x1000),
    ];
    let (first, last) = compute_load_range(&headers).unwrap();
    // the NOTE segment is ignored for the range computation.
    assert_eq!(first, 0x100000);
    assert_eq!(last, 0x105000);
    assert_eq!(pages_needed(first, last), 5);
}

#[test]
fn load_range_needs_a_loadable_segment() {
    let headers = vec![header(PT_NOTE, 0, 0x200000, 0x1000, 0x1000)];
    assert!(!has_load_segment(&headers));
    assert_eq!(compute_load_range(&headers), Err(LoaderError::NoLoadableSegment));
}

#[test]
fn pages_needed_rounds_up() {
    assert_eq!(pages_needed(0x100000, 0x100000), 0);
    assert_eq!(pages_needed(0x100000, 0x100001), 1);
    assert_eq!(pages_needed(0x100000, 0x101000), 1);
    assert_eq!(pages_needed(0x100000, 0x101001), 2);
}

#[test]
fn plan_of_well_formed_image() {
    let image = build_elf(
        0x100040,
        &[
            (PT_LOAD, 0, 0x100000, 0x2000, 0x3000),
            (PT_LOAD, 0x2000, 0x104000, 0x1000, 0x1000),
            (PT_NOTE, 0, 0x200000, 0x100, 0x100),
        ],
        0x3000,
    );
    let plan = plan_kernel_load(&image).unwrap();
    assert_eq!(plan.entry, 0x100040);
    assert_eq!(plan.dest_first, 0x100000);
    assert_eq!(plan.dest_last, 0x105000);
    assert_eq!(plan.pages, 5);
    assert_eq!(plan.segments.len(), 3);
    assert_eq!(plan.segments[0].p_vaddr, 0x100000);
    assert_eq!(plan.segments[1].p_filesz, 0x1000);
    assert_eq!(plan.segments[2].p_type, PT_NOTE);
}

#[test]
fn plan_rejects_a_malformed_image() {
    let image = b"this is not an executable image".to_vec();
    assert_eq!(plan_kernel_load(&image), Err(LoaderError::MalformedImage));
}

#[test]
fn plan_rejects_an_image_without_loadable_segment() {
    let image = build_elf(0, &[(PT_NOTE, 0, 0x200000, 0x10, 0x10)], 0x200);
    assert_eq!(plan_kernel_load(&image), Err(LoaderError::NoLoadableSegment));
}

#[test]
fn plan_rejects_a_segment_reaching_outside_the_image() {
    let image = build_elf(0, &[(PT_LOAD, 0x100, 0x100000, 0x10000, 0x10000)], 0x200);
    assert_eq!(plan_kernel_load(&image), Err(LoaderError::SegmentOutOfBounds));
    let headers = vec![header(PT_LOAD, 0x100, 0x100000, 0x10000, 0x10000)];
    assert!(!check_segments(&headers, 0x200));
}

#[test]
fn segment_copy_and_zero_fill() {
    let image: Vec<u8> = (0u8..=255).collect();
    let base = 0x1000u64;
    let headers = vec![header(PT_LOAD, 10, 0x1002, 4, 8)];
    let mut dest = vec![0xaau8; 16];
    load_segments(&image, &headers, base, &mut dest);
    // file bytes land at p_vaddr - base,
    assert_eq!(&dest[2..6], &[10, 11, 12, 13]);
    // the tail up to p_memsz is zero-filled,
    assert_eq!(&dest[6..10], &[0, 0, 0, 0]);
    // and everything else is untouched.
    assert_eq!(&dest[0..2], &[0xaa, 0xaa]);
    assert_eq!(&dest[10..16], &[0xaa; 6]);
}

#[test]
fn segments_are_applied_in_file_order() {
    let image: Vec<u8> = (0u8..=255).collect();
    let headers = vec![
        header(PT_LOAD, 0, 0x1000, 4, 4),
        header(PT_LOAD, 100, 0x1002, 4, 4),
    ];
    let mut dest = vec![0u8; 8];
    load_segments(&image, &headers, 0x1000, &mut dest);
    // the later segment overwrites the overlap.
    assert_eq!(&dest[0..6], &[0, 1, 100, 101, 102, 103]);
}

#[test]
fn non_loadable_segments_are_not_copied() {
    let image: Vec<u8> = (0u8..=255).collect();
    let headers = vec![header(PT_NOTE, 0, 0x1000, 4, 4)];
    let mut dest = vec![0x55u8; 8];
    load_segments(&image, &headers, 0x1000, &mut dest);
    assert_eq!(dest, vec![0x55u8; 8]);
}
