//! The boot-loader's computational core: parsing the kernel image's program
//! headers, computing the contiguous destination range over the loadable
//! segments, and carrying out the per-segment copy and zero-fill.

use vstd::prelude::*;

use crate::allocator::spec_div_ceil;

verus! {

/// Program-header type of a loadable segment.
pub const PT_LOAD: u32 = 1;

/// Size of the pages the firmware's page allocator deals in.
pub const LOADER_PAGE_SIZE: u64 = 4096;

/// One ELF64 program header, reduced to the fields segment loading reads.
#[derive(Debug, Copy, Clone, PartialEq, Eq, Structural)]
pub struct ProgramHeader {
    pub p_type: u32,
    pub p_offset: u64,
    pub p_vaddr: u64,
    pub p_filesz: u64,
    pub p_memsz: u64,
}

/// Why planning a kernel load failed.
#[derive(Debug, Copy, Clone, PartialEq, Eq, Structural)]
pub enum LoaderError {
    /// The image does not parse as an ELF binary.
    MalformedImage,
    /// The image holds no loadable segment, so there is nothing to load.
    NoLoadableSegment,
    /// A loadable segment reaches outside the image file, outside its own
    /// memory size, or outside the address space.
    SegmentOutOfBounds,
    /// The firmware's page allocator refused the destination range.
    FirmwareAllocationFailure,
}

/// Some program header is of a loadable segment.
pub open spec fn spec_has_load(hs: Seq<ProgramHeader>) -> bool {
    exists|i: int| 0 <= i < hs.len() && (#[trigger] hs[i]).p_type == PT_LOAD
}

/// The smallest virtual address over the loadable segments, folded in order;
/// the fold starts from the largest representable address.
pub open spec fn spec_dest_first(hs: Seq<ProgramHeader>) -> int
    decreases hs.len(),
{
    if hs.len() == 0 {
        u64::MAX as int
    } else {
        let rest = spec_dest_first(hs.drop_last());
        if hs.last().p_type == PT_LOAD && hs.last().p_vaddr < rest {
            hs.last().p_vaddr as int
        } else {
            rest
        }
    }
}

/// The largest virtual end (`p_vaddr + p_memsz`) over the loadable segments,
/// folded in order; the fold starts from 0.
pub open spec fn spec_dest_last(hs: Seq<ProgramHeader>) -> int
    decreases hs.len(),
{
    if hs.len() == 0 {
        0
    } else {
        let rest = spec_dest_last(hs.drop_last());
        if hs.last().p_type == PT_LOAD && hs.last().p_vaddr + hs.last().p_memsz > rest {
            hs.last().p_vaddr + hs.last().p_memsz
        } else {
            rest
        }
    }
}

/// The destination range covers exactly the loadable segments: every one
/// lies within it, and each endpoint is attained by one of them.
pub proof fn lemma_load_range_bounds(hs: Seq<ProgramHeader>)
    requires
        spec_has_load(hs),
    ensures
        forall|i: int| 0 <= i < hs.len() && (#[trigger] hs[i]).p_type == PT_LOAD
            ==> spec_dest_first(hs) <= hs[i].p_vaddr
                && hs[i].p_vaddr + hs[i].p_memsz <= spec_dest_last(hs),
        exists|i: int| 0 <= i < hs.len() && (#[trigger] hs[i]).p_type == PT_LOAD
            && hs[i].p_vaddr == spec_dest_first(hs),
        exists|i: int| 0 <= i < hs.len() && (#[trigger] hs[i]).p_type == PT_LOAD
            && hs[i].p_vaddr + hs[i].p_memsz == spec_dest_last(hs),
        spec_dest_first(hs) <= spec_dest_last(hs),
    decreases hs.len(),
{
    let prefix = hs.drop_last();
    if spec_has_load(prefix) {
        lemma_load_range_bounds(prefix);
        assert forall|i: int| 0 <= i < hs.len() && (#[trigger] hs[i]).p_type == PT_LOAD
            implies spec_dest_first(hs) <= hs[i].p_vaddr
                && hs[i].p_vaddr + hs[i].p_memsz <= spec_dest_last(hs) by {
            if i < hs.len() - 1 {
                assert(prefix[i] == hs[i]);
            }
        }
        let j1 = choose|i: int| 0 <= i < prefix.len() && (#[trigger] prefix[i]).p_type == PT_LOAD
            && prefix[i].p_vaddr == spec_dest_first(prefix);
        let j2 = choose|i: int| 0 <= i < prefix.len() && (#[trigger] prefix[i]).p_type == PT_LOAD
            && prefix[i].p_vaddr + prefix[i].p_memsz == spec_dest_last(prefix);
        if hs.last().p_type == PT_LOAD && hs.last().p_vaddr < spec_dest_first(prefix) {
            assert(hs[hs.len() - 1].p_vaddr == spec_dest_first(hs));
        } else {
            assert(hs[j1].p_vaddr == spec_dest_first(hs));
        }
        if hs.last().p_type == PT_LOAD
            && hs.last().p_vaddr + hs.last().p_memsz > spec_dest_last(prefix) {
            assert(hs[hs.len() - 1].p_vaddr + hs[hs.len() - 1].p_memsz == spec_dest_last(hs));
        } else {
            assert(hs[j2].p_vaddr + hs[j2].p_memsz == spec_dest_last(hs));
        }
    } else {
        // the last header is the only loadable one.
        assert forall|i: int| 0 <= i < hs.len() && (#[trigger] hs[i]).p_type == PT_LOAD
            implies i == hs.len() - 1 by {
            if i < hs.len() - 1 {
                assert(prefix[i].p_type == PT_LOAD);
            }
        }
        let w = choose|i: int| 0 <= i < hs.len() && (#[trigger] hs[i]).p_type == PT_LOAD;
        assert(w == hs.len() - 1);
        lemma_dest_first_no_load(prefix);
        lemma_dest_last_no_load(prefix);
        assert(hs[hs.len() - 1].p_vaddr == spec_dest_first(hs));
        assert(hs[hs.len() - 1].p_vaddr + hs[hs.len() - 1].p_memsz == spec_dest_last(hs));
    }
}

/// With no loadable segment the fold keeps its starting values.
proof fn lemma_dest_first_no_load(hs: Seq<ProgramHeader>)
    requires
        !spec_has_load(hs),
    ensures
        spec_dest_first(hs) == u64::MAX as int,
    decreases hs.len(),
{
    if hs.len() > 0 {
        assert(!(hs[hs.len() - 1].p_type == PT_LOAD));
        assert forall|i: int| 0 <= i < hs.len() - 1 implies
            (#[trigger] hs.drop_last()[i]).p_type != PT_LOAD by {
            assert(hs[i] == hs.drop_last()[i]);
        }
        lemma_dest_first_no_load(hs.drop_last());
    }
}

/// With no loadable segment the fold keeps its starting values.
proof fn lemma_dest_last_no_load(hs: Seq<ProgramHeader>)
    requires
        !spec_has_load(hs),
    ensures
        spec_dest_last(hs) == 0,
    decreases hs.len(),
{
    if hs.len() > 0 {
        assert(!(hs[hs.len() - 1].p_type == PT_LOAD));
        assert forall|i: int| 0 <= i < hs.len() - 1 implies
            (#[trigger] hs.drop_last()[i]).p_type != PT_LOAD by {
            assert(hs[i] == hs.drop_last()[i]);
        }
        lemma_dest_last_no_load(hs.drop_last());
    }
}

/// Every loadable segment lies within the image file, within its own memory
/// size, and within the address space.
pub open spec fn spec_segments_ok(hs: Seq<ProgramHeader>, image_len: int) -> bool {
    forall|i: int| 0 <= i < hs.len() && (#[trigger] hs[i]).p_type == PT_LOAD
        ==> hs[i].p_offset + hs[i].p_filesz <= image_len
            && hs[i].p_filesz <= hs[i].p_memsz
            && hs[i].p_vaddr + hs[i].p_memsz <= u64::MAX
}

/// Whether some header is of a loadable segment.
pub fn has_load_segment(headers: &Vec<ProgramHeader>) -> (r: bool)
    ensures
        r == spec_has_load(headers@),
{
    let mut i: usize = 0;
    while i < headers.len()
        invariant
            i <= headers@.len(),
            forall|j: int| 0 <= j < i ==> (#[trigger] headers@[j]).p_type != PT_LOAD,
        decreases headers@.len() - i,
    {
        if headers[i].p_type == PT_LOAD {
            return true;
        }
        i += 1;
    }
    false
}

/// Whether every loadable segment passes the bounds checks of
/// `spec_segments_ok`.
pub fn check_segments(headers: &Vec<ProgramHeader>, image_len: usize) -> (r: bool)
    ensures
        r == spec_segments_ok(headers@, image_len as int),
{
    let mut i: usize = 0;
    while i < headers.len()
        invariant
            i <= headers@.len(),
            forall|j: int| 0 <= j < i && (#[trigger] headers@[j]).p_type == PT_LOAD
                ==> headers@[j].p_offset + headers@[j].p_filesz <= image_len
                    && headers@[j].p_filesz <= headers@[j].p_memsz
                    && headers@[j].p_vaddr + headers@[j].p_memsz <= u64::MAX,
        decreases headers@.len() - i,
    {
        let h = headers[i];
        if h.p_type == PT_LOAD {
            if h.p_filesz > image_len as u64 || h.p_offset > image_len as u64 - h.p_filesz {
                return false;
            }
            if h.p_filesz > h.p_memsz {
                return false;
            }
            if h.p_vaddr > u64::MAX - h.p_memsz {
                return false;
            }
        }
        i += 1;
    }
    true
}

/// Scan the program headers once: the smallest virtual address and the
/// largest virtual end over the loadable segments alone; other segment
/// kinds are ignored. Fails when no loadable segment exists.
pub fn compute_load_range(headers: &Vec<ProgramHeader>) -> (r: Result<(u64, u64), LoaderError>)
    requires
        forall|i: int| 0 <= i < headers@.len() && (#[trigger] headers@[i]).p_type == PT_LOAD
            ==> headers@[i].p_vaddr + headers@[i].p_memsz <= u64::MAX,
    ensures
        match r {
            Ok(range) => spec_has_load(headers@) && range.0 == spec_dest_first(headers@)
                && range.1 == spec_dest_last(headers@),
            Err(e) => e == LoaderError::NoLoadableSegment && !spec_has_load(headers@),
        },
{
    let mut dest_first: u64 = u64::MAX;
    let mut dest_last: u64 = 0;
    let mut found: bool = false;
    let mut i: usize = 0;
    while i < headers.len()
        invariant
            i <= headers@.len(),
            forall|j: int| 0 <= j < headers@.len() && (#[trigger] headers@[j]).p_type == PT_LOAD
                ==> headers@[j].p_vaddr + headers@[j].p_memsz <= u64::MAX,
            dest_first == spec_dest_first(headers@.subrange(0, i as int)),
            dest_last == spec_dest_last(headers@.subrange(0, i as int)),
            found == spec_has_load(headers@.subrange(0, i as int)),
        decreases headers@.len() - i,
    {
        proof {
            assert(headers@.subrange(0, i + 1).drop_last() == headers@.subrange(0, i as int));
            assert(headers@.subrange(0, i + 1).last() == headers@[i as int]);
        }
        let h = headers[i];
        if h.p_type == PT_LOAD {
            if h.p_vaddr < dest_first {
                dest_first = h.p_vaddr;
            }
            let end = h.p_vaddr + h.p_memsz;
            if end > dest_last {
                dest_last = end;
            }
            found = true;
            proof {
                assert(spec_has_load(headers@.subrange(0, i + 1))) by {
                    assert(headers@.subrange(0, i + 1)[i as int].p_type == PT_LOAD);
                }
            }
        } else {
            proof {
                if spec_has_load(headers@.subrange(0, i + 1)) {
                    let w = choose|j: int| 0 <= j < i + 1
                        && (#[trigger] headers@.subrange(0, i + 1)[j]).p_type == PT_LOAD;
                    if w < i {
                        assert(headers@.subrange(0, i as int)[w].p_type == PT_LOAD);
                    }
                    assert(spec_has_load(headers@.subrange(0, i as int)));
                }
                if spec_has_load(headers@.subrange(0, i as int)) {
                    let w = choose|j: int| 0 <= j < i
                        && (#[trigger] headers@.subrange(0, i as int)[j]).p_type == PT_LOAD;
                    assert(headers@.subrange(0, i + 1)[w].p_type == PT_LOAD);
                }
            }
        }
        i += 1;
    }
    proof {
        assert(headers@.subrange(0, headers@.len() as int) == headers@);
    }
    if !found {
        return Err(LoaderError::NoLoadableSegment);
    }
    Ok((dest_first, dest_last))
}

/// Pages needed to back the byte range, by ceiling division.
pub fn pages_needed(first: u64, last: u64) -> (r: u64)
    requires
        first <= last,
    ensures
        r == spec_div_ceil(last - first, LOADER_PAGE_SIZE as int),
{
    let size = last - first;
    let q = size / LOADER_PAGE_SIZE;
    let rem = size % LOADER_PAGE_SIZE;
    proof {
        let s = size as int;
        assert(s == 4096 * (s / 4096) + s % 4096 && 0 <= s % 4096 < 4096) by (nonlinear_arith)
            requires s >= 0;
        assert((s + 4095) / 4096 == s / 4096 + (if s % 4096 == 0 { 0int } else { 1int }))
            by (nonlinear_arith)
            requires
                s >= 0,
                s == 4096 * (s / 4096) + s % 4096,
                0 <= s % 4096 < 4096;
    }
    if rem == 0 {
        q
    } else {
        q + 1
    }
}

/// What parsing an ELF image yields, as a function of the image bytes alone:
/// the program headers' load-relevant fields and the entry address, or
/// nothing when the bytes do not parse.
pub uninterp spec fn elf_parse(bytes: Seq<u8>) -> Option<(Seq<(u32, u64, u64, u64, u64)>, u64)>;

/// The header a parsed field tuple stands for.
pub open spec fn spec_header_of(t: (u32, u64, u64, u64, u64)) -> ProgramHeader {
    ProgramHeader { p_type: t.0, p_offset: t.1, p_vaddr: t.2, p_filesz: t.3, p_memsz: t.4 }
}

/// The headers a parsed image stands for.
pub open spec fn spec_headers_of(ts: Seq<(u32, u64, u64, u64, u64)>) -> Seq<ProgramHeader> {
    ts.map_values(|t: (u32, u64, u64, u64, u64)| spec_header_of(t))
}

/// Relies on goblin's `Elf::parse`: whether the bytes parse, the program
/// headers, and the entry address all depend on the image bytes alone.
#[verifier::external_body]
fn parse_elf(bytes: &Vec<u8>) -> (r: Option<(Vec<ProgramHeader>, u64)>)
    ensures
        r is Some <==> elf_parse(bytes@) is Some,
        r matches Some(parsed) ==> (elf_parse(bytes@) matches Some(p)
            && p.1 == parsed.1
            && p.0 == parsed.0@.map_values(
                |h: ProgramHeader| (h.p_type, h.p_offset, h.p_vaddr, h.p_filesz, h.p_memsz))),
{
    match goblin::elf::Elf::parse(bytes) {
        Ok(elf) => {
            let headers: Vec<ProgramHeader> = elf.program_headers.iter().map(|ph| ProgramHeader {
                p_type: ph.p_type,
                p_offset: ph.p_offset,
                p_vaddr: ph.p_vaddr,
                p_filesz: ph.p_filesz,
                p_memsz: ph.p_memsz,
            }).collect();
            Some((headers, elf.entry))
        },
        Err(_) => None,
    }
}

/// The plan a well-formed kernel image yields: its loadable layout, the
/// destination range, the page count to request, and the entry address.
#[derive(Debug, Clone, PartialEq, Eq)]
pub struct LoadPlan {
    /// All program headers of the image, in file order.
    pub segments: Vec<ProgramHeader>,
    /// The entry address control transfers to.
    pub entry: u64,
    /// Start of the contiguous destination range.
    pub dest_first: u64,
    /// End of the contiguous destination range.
    pub dest_last: u64,
    /// Pages to request from the firmware's page allocator.
    pub pages: u64,
}

/// Parse a kernel image and plan its load: reject an image that does not
/// parse, has no loadable segment, or has a loadable segment out of bounds;
/// otherwise return the segments, the destination range over the loadable
/// segments, the page count, and the entry address.
pub fn plan_kernel_load(image: &Vec<u8>) -> (r: Result<LoadPlan, LoaderError>)
    ensures
        elf_parse(image@) is None
            ==> r == Err::<LoadPlan, LoaderError>(LoaderError::MalformedImage),
        elf_parse(image@) matches Some(p) ==> {
            let hs = spec_headers_of(p.0);
            &&& !spec_has_load(hs) ==> r == Err::<LoadPlan, LoaderError>(LoaderError::NoLoadableSegment)
            &&& spec_has_load(hs) && !spec_segments_ok(hs, image@.len() as int)
                ==> r == Err::<LoadPlan, LoaderError>(LoaderError::SegmentOutOfBounds)
            &&& spec_has_load(hs) && spec_segments_ok(hs, image@.len() as int)
                ==> (r matches Ok(plan)
                    && plan.segments@ == hs
                    && plan.entry == p.1
                    && plan.dest_first == spec_dest_first(hs)
                    && plan.dest_last == spec_dest_last(hs)
                    && plan.pages == spec_div_ceil(
                        spec_dest_last(hs) - spec_dest_first(hs), LOADER_PAGE_SIZE as int))
        },
{
    let parsed = match parse_elf(image) {
        Some(parsed) => parsed,
        None => {
            return Err(LoaderError::MalformedImage);
        },
    };
    let (headers, entry) = parsed;
    proof {
        let p = elf_parse(image@).unwrap();
        assert(spec_headers_of(p.0) =~= headers@);
    }
    if !has_load_segment(&headers) {
        return Err(LoaderError::NoLoadableSegment);
    }
    if !check_segments(&headers, image.len()) {
        return Err(LoaderError::SegmentOutOfBounds);
    }
    let range = match compute_load_range(&headers) {
        Ok(range) => range,
        Err(_) => {
            // unreachable: a loadable segment was found above.
            proof {
                assert(false);
            }
            return Err(LoaderError::NoLoadableSegment);
        },
    };
    let (dest_first, dest_last) = range;
    proof {
        lemma_load_range_bounds(headers@);
    }
    let pages = pages_needed(dest_first, dest_last);
    Ok(LoadPlan { segments: headers, entry, dest_first, dest_last, pages })
}

/// The destination buffer after one segment is applied: its `p_filesz` file
/// bytes land at `p_vaddr - base`, zeros follow up to `p_memsz`, and every
/// other byte keeps its value. A segment of any other kind changes nothing.
pub open spec fn spec_apply_segment(image: Seq<u8>, h: ProgramHeader, base: int, mem: Seq<u8>) -> Seq<u8> {
    if h.p_type == PT_LOAD {
        Seq::new(mem.len(), |j: int| {
            if h.p_vaddr <= j + base < h.p_vaddr + h.p_filesz {
                image[h.p_offset + (j + base - h.p_vaddr)]
            } else if h.p_vaddr + h.p_filesz <= j + base < h.p_vaddr + h.p_memsz {
                0u8
            } else {
                mem[j]
            }
        })
    } else {
        mem
    }
}

/// The destination buffer after all segments are applied, in file order.
pub open spec fn spec_load_segments(image: Seq<u8>, hs: Seq<ProgramHeader>, base: int, mem: Seq<u8>) -> Seq<u8>
    decreases hs.len(),
{
    if hs.len() == 0 {
        mem
    } else {
        spec_apply_segment(image, hs.last(), base,
            spec_load_segments(image, hs.drop_last(), base, mem))
    }
}

/// Every loadable segment's destination lies within the buffer that stands
/// for the range starting at `base`.
pub open spec fn spec_segments_in_dest(hs: Seq<ProgramHeader>, base: int, dest_len: int) -> bool {
    forall|i: int| 0 <= i < hs.len() && (#[trigger] hs[i]).p_type == PT_LOAD
        ==> base <= hs[i].p_vaddr && hs[i].p_vaddr + hs[i].p_memsz - base <= dest_len
}

/// Copy every loadable segment into the destination buffer: `p_filesz`
/// bytes from the image at `p_offset`, then zeros up to `p_memsz`, applied
/// in file order; segments of other kinds are ignored.
pub fn load_segments(image: &Vec<u8>, headers: &Vec<ProgramHeader>, base: u64, dest: &mut Vec<u8>)
    requires
        spec_segments_ok(headers@, image@.len() as int),
        spec_segments_in_dest(headers@, base as int, old(dest)@.len() as int),
        old(dest)@.len() <= usize::MAX,
    ensures
        final(dest)@ == spec_load_segments(image@, headers@, base as int, old(dest)@),
{
    let ghost image0 = image@;
    let ghost headers0 = headers@;
    let ghost dest0 = dest@;
    let image_len: usize = image.len();
    let dest_len: usize = dest.len();
    let mut i: usize = 0;
    while i < headers.len()
        invariant
            image0 == image@,
            headers0 == headers@,
            i <= headers@.len(),
            spec_segments_ok(headers@, image@.len() as int),
            spec_segments_in_dest(headers@, base as int, dest0.len() as int),
            image@.len() == image_len,
            dest@.len() == dest_len,
            dest@.len() == dest0.len(),
            dest@ == spec_load_segments(image@, headers@.subrange(0, i as int), base as int, dest0),
        decreases headers@.len() - i,
    {
        proof {
            assert(headers@.subrange(0, i + 1).drop_last() == headers@.subrange(0, i as int));
            assert(headers@.subrange(0, i + 1).last() == headers@[i as int]);
        }
        let h = headers[i];
        if h.p_type == PT_LOAD {
            let ghost before = dest@;
            proof {
                assert(h == headers@[i as int]);
                assert(h.p_offset + h.p_filesz <= image@.len());
                assert(h.p_filesz <= h.p_memsz);
                assert(base <= h.p_vaddr && h.p_vaddr + h.p_memsz - base <= dest@.len());
            }
            let start = (h.p_vaddr - base) as usize;
            let filesz = h.p_filesz as usize;
            let memsz = h.p_memsz as usize;
            let offset = h.p_offset as usize;
            proof {
                assert(start == h.p_vaddr - base);
                assert(filesz == h.p_filesz);
                assert(memsz == h.p_memsz);
                assert(offset == h.p_offset);
            }
            let mut j: usize = 0;
            while j < filesz
                invariant
                    image0 == image@,
                    image@.len() == image_len,
                    dest@.len() == dest_len,
                    j <= filesz,
                    offset + filesz <= image@.len(),
                    start + memsz <= dest@.len(),
                    filesz <= memsz,
                    dest@.len() == before.len(),
                    forall|k: int| 0 <= k < dest@.len() ==> #[trigger] dest@[k]
                        == if start <= k < start + j { image@[offset + (k - start)] } else { before[k] },
                decreases filesz - j,
            {
                let b = image[offset + j];
                dest.set(start + j, b);
                j = j + 1;
            }
            let mut k: usize = filesz;
            while k < memsz
                invariant
                    image0 == image@,
                    image@.len() == image_len,
                    dest@.len() == dest_len,
                    filesz <= k <= memsz,
                    offset + filesz <= image@.len(),
                    start + memsz <= dest@.len(),
                    dest@.len() == before.len(),
                    forall|m: int| 0 <= m < dest@.len() ==> #[trigger] dest@[m]
                        == if start <= m < start + filesz {
                            image@[offset + (m - start)]
                        } else if start + filesz <= m < start + k {
                            0u8
                        } else {
                            before[m]
                        },
                decreases memsz - k,
            {
                dest.set(start + k, 0);
                k = k + 1;
            }
            proof {
                assert(dest@ =~= spec_apply_segment(image@, h, base as int, before));
            }
        }
        i += 1;
    }
    proof {
        assert(headers@.subrange(0, headers@.len() as int) == headers@);
    }
}

/// No two loadable segments overlap in memory.
pub open spec fn spec_loads_disjoint(hs: Seq<ProgramHeader>) -> bool {
    forall|i: int, j: int|
        #![trigger hs[i], hs[j]]
        0 <= i < j < hs.len() && hs[i].p_type == PT_LOAD && hs[j].p_type == PT_LOAD
            ==> hs[i].p_vaddr + hs[i].p_memsz <= hs[j].p_vaddr
                || hs[j].p_vaddr + hs[j].p_memsz <= hs[i].p_vaddr
}

/// Zero-fill: after the segment copy, the bytes `[p_filesz, p_memsz)` of
/// every loadable segment are all zero, provided no two loadable segments
/// overlap in memory.
pub proof fn lemma_zero_fill(image: Seq<u8>, hs: Seq<ProgramHeader>, base: int, mem: Seq<u8>)
    requires
        spec_segments_ok(hs, image.len() as int),
        spec_segments_in_dest(hs, base, mem.len() as int),
        spec_loads_disjoint(hs),
        0 <= base,
    ensures
        forall|i: int, a: int|
            #![trigger hs[i], spec_load_segments(image, hs, base, mem)[a - base]]
            0 <= i < hs.len() && hs[i].p_type == PT_LOAD
                && hs[i].p_vaddr + hs[i].p_filesz <= a < hs[i].p_vaddr + hs[i].p_memsz
                ==> spec_load_segments(image, hs, base, mem)[a - base] == 0,
    decreases hs.len(),
{
    if hs.len() > 0 {
        let prefix = hs.drop_last();
        let h = hs.last();
        let inner = spec_load_segments(image, prefix, base, mem);
        let out = spec_load_segments(image, hs, base, mem);
        lemma_load_segments_len(image, prefix, base, mem);
        lemma_zero_fill(image, prefix, base, mem);
        assert forall|i: int, a: int|
            0 <= i < hs.len() && (#[trigger] hs[i]).p_type == PT_LOAD
                && hs[i].p_vaddr + hs[i].p_filesz <= a < hs[i].p_vaddr + hs[i].p_memsz
                implies #[trigger] out[a - base] == 0 by {
            if i == hs.len() - 1 {
                // the zero tail of the last segment is written by its own
                // application.
                assert(out[a - base] == 0);
            } else {
                assert(prefix[i] == hs[i]);
                assert(inner[a - base] == 0);
                if h.p_type == PT_LOAD {
                    // the last segment is disjoint from segment `i`, so it
                    // leaves the byte alone.
                    assert(hs[i].p_vaddr + hs[i].p_memsz <= h.p_vaddr
                        || h.p_vaddr + h.p_memsz <= hs[i].p_vaddr);
                    assert(out[a - base] == inner[a - base]);
                }
            }
        }
    }
}

/// Applying segments keeps the buffer's length.
proof fn lemma_load_segments_len(image: Seq<u8>, hs: Seq<ProgramHeader>, base: int, mem: Seq<u8>)
    ensures
        spec_load_segments(image, hs, base, mem).len() == mem.len(),
    decreases hs.len(),
{
    if hs.len() > 0 {
        lemma_load_segments_len(image, hs.drop_last(), base, mem);
    }
}

} // verus!
