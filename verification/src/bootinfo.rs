//! The data handed from the boot loader to the kernel: the captured firmware
//! memory map, the display mode, and the frame-buffer location, marshalled
//! into one argument structure.

use vstd::prelude::*;

verus! {

/// Capacity of the captured memory map, fixed at compile time.
pub const MEMORY_MAP_SIZE: usize = 1024;

/// Kind of a firmware-reported memory region.
#[allow(non_camel_case_types)]
#[derive(Debug, Copy, Clone, PartialEq, Eq, Structural)]
pub enum MemoryType {
    /// This enum variant is not used.
    RESERVED,
    /// The code portions of a loaded boot application.
    LOADER_CODE,
    /// The data portions of a loaded boot application,
    /// as well as any memory allocated by it.
    LOADER_DATA,
    /// Code of the boot drivers. Can be reused after the OS is loaded.
    BOOT_SERVICES_CODE,
    /// Memory used to store boot drivers' data. Can be reused after the OS is loaded.
    BOOT_SERVICES_DATA,
    /// Runtime drivers' code.
    RUNTIME_SERVICES_CODE,
    /// Runtime services' data.
    RUNTIME_SERVICES_DATA,
    /// Free usable memory.
    CONVENTIONAL,
    /// Memory in which errors have been detected.
    UNUSABLE,
    /// Memory that holds ACPI tables. Can be reclaimed after they are parsed.
    ACPI_RECLAIM,
    /// Firmware-reserved addresses.
    ACPI_NON_VOLATILE,
    /// A region used for memory-mapped I/O.
    MMIO,
    /// Address space used for memory-mapped port I/O.
    MMIO_PORT_SPACE,
    /// Address space which is part of the processor.
    PAL_CODE,
    /// Memory region which is usable and is also non-volatile.
    PERSISTENT_MEMORY,
}

/// The numeric code under which the firmware reports each memory kind.
pub open spec fn spec_memory_type_code(t: MemoryType) -> u32 {
    match t {
        MemoryType::RESERVED => 0,
        MemoryType::LOADER_CODE => 1,
        MemoryType::LOADER_DATA => 2,
        MemoryType::BOOT_SERVICES_CODE => 3,
        MemoryType::BOOT_SERVICES_DATA => 4,
        MemoryType::RUNTIME_SERVICES_CODE => 5,
        MemoryType::RUNTIME_SERVICES_DATA => 6,
        MemoryType::CONVENTIONAL => 7,
        MemoryType::UNUSABLE => 8,
        MemoryType::ACPI_RECLAIM => 9,
        MemoryType::ACPI_NON_VOLATILE => 10,
        MemoryType::MMIO => 11,
        MemoryType::MMIO_PORT_SPACE => 12,
        MemoryType::PAL_CODE => 13,
        MemoryType::PERSISTENT_MEMORY => 14,
    }
}

impl MemoryType {
    /// The numeric code of this memory kind.
    pub fn code(&self) -> (r: u32)
        ensures
            r == spec_memory_type_code(*self),
    {
        match *self {
            MemoryType::RESERVED => 0,
            MemoryType::LOADER_CODE => 1,
            MemoryType::LOADER_DATA => 2,
            MemoryType::BOOT_SERVICES_CODE => 3,
            MemoryType::BOOT_SERVICES_DATA => 4,
            MemoryType::RUNTIME_SERVICES_CODE => 5,
            MemoryType::RUNTIME_SERVICES_DATA => 6,
            MemoryType::CONVENTIONAL => 7,
            MemoryType::UNUSABLE => 8,
            MemoryType::ACPI_RECLAIM => 9,
            MemoryType::ACPI_NON_VOLATILE => 10,
            MemoryType::MMIO => 11,
            MemoryType::MMIO_PORT_SPACE => 12,
            MemoryType::PAL_CODE => 13,
            MemoryType::PERSISTENT_MEMORY => 14,
        }
    }

    /// Decode a firmware memory-kind code; codes above 14 name no kind.
    pub fn from_code(code: u32) -> (r: Option<MemoryType>)
        ensures
            r matches Some(t) ==> spec_memory_type_code(t) == code,
            r is None <==> code > 14,
    {
        match code {
            0 => Some(MemoryType::RESERVED),
            1 => Some(MemoryType::LOADER_CODE),
            2 => Some(MemoryType::LOADER_DATA),
            3 => Some(MemoryType::BOOT_SERVICES_CODE),
            4 => Some(MemoryType::BOOT_SERVICES_DATA),
            5 => Some(MemoryType::RUNTIME_SERVICES_CODE),
            6 => Some(MemoryType::RUNTIME_SERVICES_DATA),
            7 => Some(MemoryType::CONVENTIONAL),
            8 => Some(MemoryType::UNUSABLE),
            9 => Some(MemoryType::ACPI_RECLAIM),
            10 => Some(MemoryType::ACPI_NON_VOLATILE),
            11 => Some(MemoryType::MMIO),
            12 => Some(MemoryType::MMIO_PORT_SPACE),
            13 => Some(MemoryType::PAL_CODE),
            14 => Some(MemoryType::PERSISTENT_MEMORY),
            _ => None,
        }
    }
}

/// One firmware-reported memory region, copied verbatim from the firmware's map.
#[derive(Debug, Copy, Clone, PartialEq, Eq, Structural)]
pub struct MemoryDescriptor {
    pub memory_type: MemoryType,
    pub physical_start: u64,
    pub virtual_start: u64,
    pub number_of_pages: u64,
    pub attribute: u64,
}

impl MemoryDescriptor {
    /// A zeroed descriptor, used to pad the fixed-capacity map.
    pub fn zeroed() -> (r: MemoryDescriptor)
        ensures
            r == (MemoryDescriptor {
                memory_type: MemoryType::RESERVED,
                physical_start: 0,
                virtual_start: 0,
                number_of_pages: 0,
                attribute: 0,
            }),
    {
        MemoryDescriptor {
            memory_type: MemoryType::RESERVED,
            physical_start: 0,
            virtual_start: 0,
            number_of_pages: 0,
            attribute: 0,
        }
    }
}

/// The memory map could not be captured.
#[derive(Debug, Copy, Clone, PartialEq, Eq)]
pub enum MemoryMapError {
    /// More descriptors were offered than the fixed capacity holds.
    Overflow,
}

/// The captured firmware memory map: a fixed-capacity ordered sequence of
/// descriptors of which the first `len` are meaningful.
#[derive(Debug, Clone, PartialEq, Eq)]
pub struct MemoryMap {
    pub map: Vec<MemoryDescriptor>,
    pub len: usize,
}

impl MemoryMap {
    /// The backing store always spans the full capacity, and the meaningful
    /// prefix never exceeds it.
    pub open spec fn wf(self) -> bool {
        self.map@.len() == MEMORY_MAP_SIZE && self.len <= MEMORY_MAP_SIZE
    }

    /// The meaningful entries: the prefix of length `len`.
    pub open spec fn entries(self) -> Seq<MemoryDescriptor> {
        self.map@.subrange(0, self.len as int)
    }

    /// Capture a memory map from the descriptors the firmware reported,
    /// refusing a sequence that exceeds the fixed capacity.
    pub fn from_descriptors(descs: &Vec<MemoryDescriptor>) -> (r: Result<MemoryMap, MemoryMapError>)
        ensures
            descs@.len() <= MEMORY_MAP_SIZE ==> (r matches Ok(m) && m.wf() && m.entries() == descs@),
            descs@.len() > MEMORY_MAP_SIZE ==> r == Err::<MemoryMap, MemoryMapError>(MemoryMapError::Overflow),
    {
        if descs.len() > MEMORY_MAP_SIZE {
            return Err(MemoryMapError::Overflow);
        }
        let mut map: Vec<MemoryDescriptor> = Vec::new();
        let mut i: usize = 0;
        while i < descs.len()
            invariant
                i <= descs@.len() <= MEMORY_MAP_SIZE,
                map@ == descs@.subrange(0, i as int),
            decreases descs@.len() - i,
        {
            map.push(descs[i]);
            i += 1;
        }
        assert(map@ == descs@);
        while map.len() < MEMORY_MAP_SIZE
            invariant
                descs@.len() <= map@.len() <= MEMORY_MAP_SIZE,
                map@.subrange(0, descs@.len() as int) == descs@,
            decreases MEMORY_MAP_SIZE - map@.len(),
        {
            map.push(MemoryDescriptor::zeroed());
            assert(map@.subrange(0, descs@.len() as int) == descs@);
        }
        let r = MemoryMap { map, len: descs.len() };
        assert(r.entries() == descs@);
        Ok(r)
    }
}

/// Pages of free usable memory in the meaningful entries, summed in order.
pub open spec fn spec_total_conventional_pages(entries: Seq<MemoryDescriptor>) -> int
    decreases entries.len(),
{
    if entries.len() == 0 {
        0
    } else {
        spec_total_conventional_pages(entries.drop_last())
            + if entries.last().memory_type is CONVENTIONAL {
                entries.last().number_of_pages as int
            } else {
                0
            }
    }
}

/// Sum the page counts of the map's free usable regions.
pub fn total_conventional_pages(map: &MemoryMap) -> (r: u64)
    requires
        map.wf(),
        spec_total_conventional_pages(map.entries()) <= u64::MAX,
    ensures
        r == spec_total_conventional_pages(map.entries()),
{
    let mut total: u64 = 0;
    let mut i: usize = 0;
    while i < map.len
        invariant
            map.wf(),
            i <= map.len,
            total == spec_total_conventional_pages(map.entries().subrange(0, i as int)),
            spec_total_conventional_pages(map.entries()) <= u64::MAX,
        decreases map.len - i,
    {
        proof {
            assert(map.entries().subrange(0, i + 1).drop_last() == map.entries().subrange(0, i as int));
            assert(map.entries().subrange(0, i + 1).last() == map.entries()[i as int]);
            lemma_total_conventional_pages_prefix_bound(map.entries(), i + 1);
        }
        if matches!(map.map[i].memory_type, MemoryType::CONVENTIONAL) {
            total = total + map.map[i].number_of_pages;
        }
        i += 1;
    }
    proof {
        assert(map.entries().subrange(0, map.len as int) == map.entries());
    }
    total
}

/// The running sum over a prefix never exceeds the sum over the whole map,
/// since every summand is nonnegative.
proof fn lemma_total_conventional_pages_prefix_bound(entries: Seq<MemoryDescriptor>, n: int)
    requires
        0 <= n <= entries.len(),
    ensures
        spec_total_conventional_pages(entries.subrange(0, n)) <= spec_total_conventional_pages(entries),
        spec_total_conventional_pages(entries) >= 0,
    decreases entries.len(),
{
    if entries.len() == 0 {
        assert(entries.subrange(0, n) == entries);
    } else if n == entries.len() {
        assert(entries.subrange(0, n) == entries);
        lemma_total_conventional_pages_prefix_bound(entries.drop_last(), entries.len() - 1);
    } else {
        assert(entries.subrange(0, n) == entries.drop_last().subrange(0, n));
        lemma_total_conventional_pages_prefix_bound(entries.drop_last(), n);
    }
}

/// Where the frame buffer stands in physical memory, and how large it is.
#[derive(Debug, Copy, Clone, PartialEq, Eq, Structural)]
pub struct FrameBufferInfo {
    /// Physical base address of the frame buffer.
    pub fb: usize,
    /// Its size in bytes.
    pub size: usize,
}

/// How a pixel's channels are laid out in the frame buffer.
#[derive(Debug, Copy, Clone, PartialEq, Eq, Structural)]
pub enum PixelFormat {
    Rgb,
    Bgr,
    Bitmask,
    BltOnly,
}

/// Channel masks for the `Bitmask` pixel format.
#[derive(Debug, Copy, Clone, PartialEq, Eq, Structural)]
pub struct PixelBitmask {
    pub red: u32,
    pub green: u32,
    pub blue: u32,
    pub reserved: u32,
}

/// The active display mode, as the graphics service reported it.
#[derive(Debug, Copy, Clone, PartialEq, Eq)]
pub struct ModeInfo {
    /// Must be 0.
    pub version: u32,
    pub hor_res: u32,
    pub ver_res: u32,
    pub format: PixelFormat,
    pub mask: Option<PixelBitmask>,
    pub stride: u32,
}

/// Everything the boot loader hands the kernel entry point.
#[derive(Debug, Clone, PartialEq, Eq)]
pub struct SikiOSArguments {
    pub frame_buffer_info: FrameBufferInfo,
    pub mode_info: ModeInfo,
    pub memory_map: MemoryMap,
}

impl SikiOSArguments {
    /// Marshal the three captured pieces into the argument structure.
    pub fn new(frame_buffer_info: FrameBufferInfo, mode_info: ModeInfo, memory_map: MemoryMap) -> (r: SikiOSArguments)
        ensures
            r.frame_buffer_info == frame_buffer_info,
            r.mode_info == mode_info,
            r.memory_map == memory_map,
    {
        SikiOSArguments { frame_buffer_info, mode_info, memory_map }
    }
}

} // verus!
