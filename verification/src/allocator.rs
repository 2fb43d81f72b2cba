//! The physical frame allocator: one bit per fixed-size frame, first-fit
//! allocation, explicit initialization from the captured memory map.

use vstd::prelude::*;

use crate::bootinfo::{MemoryDescriptor, MemoryMap, MemoryType};

verus! {

/// Size of one physical frame in bytes.
pub const ALLOC_FRAME_SIZE: usize = 4096;

/// Number of frames the bitmap tracks: a 16 MiB window.
pub const ALLOC_FRAME_NUM: usize = 4096;

/// Why an allocator operation failed.
#[derive(Debug, Copy, Clone, PartialEq, Eq, Structural)]
pub enum AllocError {
    /// An operation was attempted before `initialize`.
    NotInitialized,
    /// No sufficiently long run of free frames exists.
    OutOfMemory,
    /// A freed address is not frame-aligned relative to the window base.
    MisalignedAddress,
}

/// Backing store of the frame bitmap: one bit per frame, kept in a `bitvec`
/// bit-array of fixed width.
#[verifier::external_body]
pub struct FrameBitmapStore {
    bits: bitvec::array::BitArray<[usize; 64]>,
}

/// What the bit-array holds: one used/free flag per representable frame.
pub uninterp spec fn frame_bits(store: FrameBitmapStore) -> Seq<bool>;

/// Relies on bitvec's `BitArray::ZERO`: a bit-array of `ALLOC_FRAME_NUM` bits,
/// all clear.
#[verifier::external_body]
fn frame_bits_new() -> (r: FrameBitmapStore)
    ensures
        frame_bits(r).len() == ALLOC_FRAME_NUM,
        forall|i: int| 0 <= i < ALLOC_FRAME_NUM ==> !frame_bits(r)[i],
{
    FrameBitmapStore { bits: bitvec::array::BitArray::ZERO }
}

/// Relies on bitvec's `BitSlice` indexing: reads the bit at `index`.
#[verifier::external_body]
fn frame_bits_get(store: &FrameBitmapStore, index: usize) -> (r: bool)
    requires
        index < frame_bits(*store).len(),
    ensures
        r == frame_bits(*store)[index as int],
{
    store.bits[index]
}

/// Relies on bitvec's `BitSlice::set`: writes the bit at `index`, leaving
/// every other bit as it was.
#[verifier::external_body]
fn frame_bits_set(store: &mut FrameBitmapStore, index: usize, value: bool)
    requires
        index < frame_bits(*old(store)).len(),
    ensures
        frame_bits(*final(store)) == frame_bits(*old(store)).update(index as int, value),
{
    store.bits.set(index, value);
}

/// Relies on `num`'s `Integer::div_ceil` for `usize`: the quotient of `a` by
/// `b`, rounded towards positive infinity.
#[verifier::external_body]
fn div_ceil_usize(a: usize, b: usize) -> (r: usize)
    requires
        1 <= b,
    ensures
        r == spec_div_ceil(a as int, b as int),
{
    num::Integer::div_ceil(&a, &b)
}

/// Ceiling division for nonnegative mathematical integers.
pub open spec fn spec_div_ceil(a: int, b: int) -> int {
    (a + b - 1) / b
}

/// Frames `[start, start + count)` lie within the bitmap and are all free.
pub open spec fn is_free_run(bits: Seq<bool>, start: int, count: int) -> bool {
    &&& 0 <= start
    &&& start + count <= bits.len()
    &&& forall|i: int| start <= i < start + count ==> !bits[i]
}

/// The bitmap with frames `[start, start + count)` forced to `value`.
pub open spec fn set_range(bits: Seq<bool>, start: int, count: int, value: bool) -> Seq<bool> {
    Seq::new(bits.len(), |i: int| if start <= i < start + count { value } else { bits[i] })
}

/// First-fit search from `from`: the lowest start at or above `from` of a run
/// of `count` free frames that ends within the first `limit` frames.
pub open spec fn spec_first_fit_from(bits: Seq<bool>, count: int, limit: int, from: int) -> Option<int>
    decreases limit - from,
{
    if count < 1 || from < 0 || from + count > limit {
        None
    } else if is_free_run(bits, from, count) {
        Some(from)
    } else {
        spec_first_fit_from(bits, count, limit, from + 1)
    }
}

/// First-fit search over the whole tracked window.
pub open spec fn spec_first_fit(bits: Seq<bool>, count: int, limit: int) -> Option<int> {
    spec_first_fit_from(bits, count, limit, 0)
}

/// What the first-fit search returns: the lowest qualifying run start, or
/// nothing when no run of the requested length fits.
pub proof fn lemma_first_fit_from_characterization(bits: Seq<bool>, count: int, limit: int, from: int)
    requires
        0 <= from,
        1 <= count,
    ensures
        match spec_first_fit_from(bits, count, limit, from) {
            Some(s) => from <= s && s + count <= limit && is_free_run(bits, s, count)
                && forall|t: int| from <= t < s ==> !is_free_run(bits, t, count) || t + count > limit,
            None => forall|t: int| from <= t && t + count <= limit ==> !is_free_run(bits, t, count),
        },
    decreases limit - from,
{
    if count < 1 || from + count > limit {
    } else if is_free_run(bits, from, count) {
    } else {
        lemma_first_fit_from_characterization(bits, count, limit, from + 1);
    }
}

/// The bitmap behind the frame allocator, with the physical base address its
/// index 0 represents.
pub struct MemoryFrame {
    using_flag: FrameBitmapStore,
    once_frame_size: usize,
    frame_num: usize,
    all_memory_size: usize,
    offset: usize,
}

impl MemoryFrame {
    /// The used/free flags, one per representable frame.
    pub closed spec fn bits(self) -> Seq<bool> {
        frame_bits(self.using_flag)
    }

    /// How many frames the first-fit search considers.
    pub closed spec fn frames(self) -> int {
        self.frame_num as int
    }

    /// Physical address that frame index 0 represents.
    pub closed spec fn frame_offset(self) -> int {
        self.offset as int
    }

    /// The backing store spans exactly the representable index space, the
    /// frame size is fixed, and the whole window fits in the address space.
    pub closed spec fn wf(self) -> bool {
        &&& self.bits().len() == ALLOC_FRAME_NUM
        &&& self.once_frame_size == ALLOC_FRAME_SIZE
        &&& self.frame_num <= ALLOC_FRAME_NUM
        &&& self.offset + self.frame_num * ALLOC_FRAME_SIZE <= usize::MAX
    }

    /// A fresh bitmap: every frame free, base address 0, the full window
    /// tracked.
    pub fn new() -> (r: MemoryFrame)
        ensures
            r.wf(),
            r.bits().len() == ALLOC_FRAME_NUM,
            r.frames() == ALLOC_FRAME_NUM,
            r.frame_offset() == 0,
            forall|i: int| 0 <= i < r.bits().len() ==> !r.bits()[i],
    {
        MemoryFrame {
            using_flag: frame_bits_new(),
            once_frame_size: ALLOC_FRAME_SIZE,
            frame_num: ALLOC_FRAME_NUM,
            all_memory_size: ALLOC_FRAME_SIZE * ALLOC_FRAME_NUM,
            offset: 0,
        }
    }

    /// A fresh bitmap whose first-fit search stops after `frame_num` frames.
    pub fn with_frame_num(frame_num: usize) -> (r: MemoryFrame)
        requires
            frame_num <= ALLOC_FRAME_NUM,
        ensures
            r.wf(),
            r.bits().len() == ALLOC_FRAME_NUM,
            r.frames() == frame_num,
            r.frame_offset() == 0,
            forall|i: int| 0 <= i < r.bits().len() ==> !r.bits()[i],
    {
        proof {
            assert(frame_num * ALLOC_FRAME_SIZE <= ALLOC_FRAME_NUM * ALLOC_FRAME_SIZE) by (nonlinear_arith)
                requires frame_num <= ALLOC_FRAME_NUM;
        }
        MemoryFrame {
            using_flag: frame_bits_new(),
            once_frame_size: ALLOC_FRAME_SIZE,
            frame_num,
            all_memory_size: ALLOC_FRAME_SIZE * ALLOC_FRAME_NUM,
            offset: 0,
        }
    }

    /// The physical base address the window is anchored at.
    pub fn offset_addr(&self) -> (r: usize)
        ensures
            r == self.frame_offset(),
    {
        self.offset
    }

    /// How many frames the first-fit search considers.
    pub fn frame_count(&self) -> (r: usize)
        ensures
            r == self.frames(),
    {
        self.frame_num
    }

    /// The flag of frame `index`, or nothing beyond the representable space.
    pub fn get_flag(&self, index: usize) -> (r: Option<bool>)
        requires
            self.wf(),
        ensures
            r == if index < ALLOC_FRAME_NUM { Some(self.bits()[index as int]) } else { None::<bool> },
    {
        if index < ALLOC_FRAME_NUM {
            Some(frame_bits_get(&self.using_flag, index))
        } else {
            None
        }
    }

    /// Write the flag of frame `index`.
    fn set_flag(&mut self, index: usize, value: bool)
        requires
            old(self).wf(),
            index < ALLOC_FRAME_NUM,
        ensures
            final(self).wf(),
            final(self).bits() == old(self).bits().update(index as int, value),
            final(self).frames() == old(self).frames(),
            final(self).frame_offset() == old(self).frame_offset(),
    {
        frame_bits_set(&mut self.using_flag, index, value);
    }

    /// Move the window's base address.
    pub fn set_offset_addr(&mut self, offset: usize)
        requires
            old(self).wf(),
            offset + old(self).frames() * ALLOC_FRAME_SIZE <= usize::MAX,
        ensures
            final(self).wf(),
            final(self).frame_offset() == offset,
            final(self).bits() == old(self).bits(),
            final(self).frames() == old(self).frames(),
    {
        self.offset = offset;
    }

    /// First-fit allocation of `size` consecutive frames: scan for the lowest
    /// run of that many free frames, mark it used, and return its start index.
    pub fn use_frame(&mut self, size: usize) -> (r: Result<usize, AllocError>)
        requires
            old(self).wf(),
            1 <= size,
        ensures
            final(self).wf(),
            final(self).frames() == old(self).frames(),
            final(self).frame_offset() == old(self).frame_offset(),
            match r {
                Ok(start) => spec_first_fit(old(self).bits(), size as int, old(self).frames())
                        == Some(start as int)
                    && final(self).bits() == set_range(old(self).bits(), start as int, size as int, true),
                Err(e) => e == AllocError::OutOfMemory
                    && spec_first_fit(old(self).bits(), size as int, old(self).frames()) is None
                    && *final(self) == *old(self),
            },
    {
        let ghost bits0 = self.bits();
        let ghost limit = self.frames();
        let mut search_index: usize = 0;
        let mut found_size: usize = 0;
        while search_index < self.frame_num
            invariant
                self.wf(),
                *self == *old(self),
                bits0 == old(self).bits(),
                limit == old(self).frames(),
                search_index <= self.frame_num,
                found_size <= search_index,
                found_size < size,
                1 <= size,
                // the trailing `found_size` frames before `search_index` are free,
                forall|j: int| search_index - found_size <= j < search_index ==> !bits0[j],
                // and that run is maximal: the frame just before it, if any, is used,
                found_size == search_index || bits0[search_index - found_size - 1],
                // no run of `size` frames completes before `search_index`.
                forall|t: int| 0 <= t && t + size <= search_index ==> !is_free_run(bits0, t, size as int),
            decreases self.frame_num - search_index,
        {
            let ghost prev = search_index as int;
            let ghost old_found = found_size as int;
            let frame_used = frame_bits_get(&self.using_flag, search_index);
            if !frame_used {
                found_size += 1;
            } else {
                found_size = 0;
            }
            if found_size == size {
                let start = search_index + 1 - size;
                proof {
                    assert forall|j: int| start <= j < start + size implies !bits0[j] by {
                        if j < prev {
                            assert(prev - old_found <= j < prev);
                        } else {
                            assert(j == prev);
                        }
                    }
                    assert(is_free_run(bits0, start as int, size as int));
                    lemma_first_fit_from_characterization(bits0, size as int, limit, 0);
                    // the search result is the lowest qualifying start, which is `start`.
                    match spec_first_fit(bits0, size as int, limit) {
                        Some(s) => {
                            assert(!(s < start)) by {
                                if s < start {
                                    assert(s + size <= prev);
                                    assert(!is_free_run(bits0, s, size as int));
                                }
                            }
                            assert(!(start < s));
                        },
                        None => {
                            assert(start + size <= limit);
                            assert(false);
                        },
                    }
                }
                let mut i: usize = start;
                while i < start + size
                    invariant
                        self.wf(),
                        self.frames() == old(self).frames(),
                        self.frame_offset() == old(self).frame_offset(),
                        start <= i <= start + size,
                        start + size <= self.bits().len(),
                        self.bits().len() == bits0.len(),
                        forall|j: int| 0 <= j < bits0.len() ==>
                            self.bits()[j] == if start <= j < i { true } else { bits0[j] },
                    decreases start + size - i,
                {
                    self.set_flag(i, true);
                    i += 1;
                }
                proof {
                    assert(self.bits() =~= set_range(bits0, start as int, size as int, true));
                }
                return Ok(start);
            }
            proof {
                assert forall|t: int| 0 <= t && t + size <= prev + 1 implies
                    !is_free_run(bits0, t, size as int) by {
                    if t + size == prev + 1 && is_free_run(bits0, t, size as int) {
                        // the run would end at the current frame, which must then be free,
                        assert(!bits0[prev]);
                        assert(found_size == old_found + 1 && found_size < size);
                        if old_found == prev {
                            // the whole prefix is free, so the run cannot be longer than it
                            assert(t >= 0 && size <= prev + 1);
                            assert(false);
                        } else {
                            // the frame just before the trailing free run is used,
                            // yet it lies inside the claimed run.
                            let p = prev - old_found - 1;
                            assert(bits0[p]);
                            assert(t <= p < t + size);
                            assert(false);
                        }
                    }
                }
            }
            search_index += 1;
        }
        proof {
            lemma_first_fit_from_characterization(bits0, size as int, limit, 0);
            match spec_first_fit(bits0, size as int, limit) {
                Some(s) => {
                    assert(s + size <= search_index);
                    assert(false);
                },
                None => {},
            }
        }
        Err(AllocError::OutOfMemory)
    }

    /// Allocate enough frames for `size` bytes (ceiling division by the frame
    /// size) and return the physical address of the run's first frame.
    pub fn use_frame_with_physical_size(&mut self, size: usize) -> (r: Result<usize, AllocError>)
        requires
            old(self).wf(),
            1 <= size,
        ensures
            final(self).wf(),
            final(self).frames() == old(self).frames(),
            final(self).frame_offset() == old(self).frame_offset(),
            match r {
                Ok(addr) => {
                    let n = spec_div_ceil(size as int, ALLOC_FRAME_SIZE as int);
                    &&& spec_first_fit(old(self).bits(), n, old(self).frames()) matches Some(start)
                        && addr == old(self).frame_offset() + start * ALLOC_FRAME_SIZE
                        && final(self).bits() == set_range(old(self).bits(), start, n, true)
                },
                Err(e) => e == AllocError::OutOfMemory
                    && spec_first_fit(old(self).bits(), spec_div_ceil(size as int, ALLOC_FRAME_SIZE as int),
                        old(self).frames()) is None
                    && *final(self) == *old(self),
            },
    {
        let need_frame_size = div_ceil_usize(size, self.once_frame_size);
        assert(1 <= need_frame_size) by {
            assert(1 <= spec_div_ceil(size as int, ALLOC_FRAME_SIZE as int));
        }
        let start = match self.use_frame(need_frame_size) {
            Ok(start) => start,
            Err(e) => {
                return Err(e);
            },
        };
        proof {
            lemma_first_fit_from_characterization(old(self).bits(), need_frame_size as int,
                old(self).frames(), 0);
            assert(start + need_frame_size <= old(self).frames());
            let off = self.frame_offset();
            let fr = self.frames();
            assert(start * ALLOC_FRAME_SIZE + off <= usize::MAX) by (nonlinear_arith)
                requires
                    0 <= start,
                    start + need_frame_size <= fr,
                    1 <= need_frame_size,
                    off + fr * ALLOC_FRAME_SIZE <= usize::MAX;
        }
        Ok(start * self.once_frame_size + self.offset)
    }

    /// Clear the flags of frames `[index, index + size)`.
    pub fn free_frame(&mut self, index: usize, size: usize)
        requires
            old(self).wf(),
            index + size <= ALLOC_FRAME_NUM,
        ensures
            final(self).wf(),
            final(self).frames() == old(self).frames(),
            final(self).frame_offset() == old(self).frame_offset(),
            final(self).bits() == set_range(old(self).bits(), index as int, size as int, false),
    {
        let ghost bits0 = self.bits();
        let start = index;
        let end = index + size;
        let mut i: usize = start;
        while i < end
            invariant
                self.wf(),
                self.frames() == old(self).frames(),
                self.frame_offset() == old(self).frame_offset(),
                start <= i <= end,
                end <= self.bits().len(),
                self.bits().len() == bits0.len(),
                forall|j: int| 0 <= j < bits0.len() ==>
                    self.bits()[j] == if start <= j < i { false } else { bits0[j] },
            decreases end - i,
        {
            self.set_flag(i, false);
            i += 1;
        }
        proof {
            assert(self.bits() =~= set_range(bits0, index as int, size as int, false));
        }
    }

    /// Free the frames backing `size` bytes at physical address `addr`,
    /// refusing an address that is not frame-aligned relative to the window
    /// base.
    pub fn free_frame_with_physical_address(&mut self, addr: usize, size: usize) -> (r: Result<(), AllocError>)
        requires
            old(self).wf(),
            old(self).frame_offset() <= addr && (addr - old(self).frame_offset()) % (ALLOC_FRAME_SIZE as int) == 0
                ==> (addr - old(self).frame_offset()) / (ALLOC_FRAME_SIZE as int)
                    + spec_div_ceil(size as int, ALLOC_FRAME_SIZE as int) <= ALLOC_FRAME_NUM,
        ensures
            final(self).wf(),
            final(self).frames() == old(self).frames(),
            final(self).frame_offset() == old(self).frame_offset(),
            if old(self).frame_offset() <= addr
                && (addr - old(self).frame_offset()) % (ALLOC_FRAME_SIZE as int) == 0 {
                r == Ok::<(), AllocError>(())
                    && final(self).bits() == set_range(old(self).bits(),
                        (addr - old(self).frame_offset()) / (ALLOC_FRAME_SIZE as int),
                        spec_div_ceil(size as int, ALLOC_FRAME_SIZE as int), false)
            } else {
                r == Err::<(), AllocError>(AllocError::MisalignedAddress)
                    && *final(self) == *old(self)
            },
    {
        if !self.is_address_in_regulation(addr) {
            return Err(AllocError::MisalignedAddress);
        }
        let frame_index = (addr - self.offset) / self.once_frame_size;
        let frame_size = div_ceil_usize(size, self.once_frame_size);
        self.free_frame(frame_index, frame_size);
        Ok(())
    }

    /// The address lies in the window's index space on a frame boundary.
    fn is_address_in_regulation(&self, addr: usize) -> (r: bool)
        requires
            self.wf(),
        ensures
            r == (self.frame_offset() <= addr
                && (addr - self.frame_offset()) % (ALLOC_FRAME_SIZE as int) == 0),
    {
        addr >= self.offset && (addr - self.offset) % self.once_frame_size == 0
    }
}

/// Index of the first free usable region in the meaningful entries, if any.
pub open spec fn spec_first_conventional_from(entries: Seq<MemoryDescriptor>, i: int) -> Option<int>
    decreases entries.len() - i,
{
    if i < 0 || i >= entries.len() {
        None
    } else if entries[i].memory_type is CONVENTIONAL {
        Some(i)
    } else {
        spec_first_conventional_from(entries, i + 1)
    }
}

/// Index of the first free usable region in the meaningful entries, if any.
pub open spec fn spec_first_conventional(entries: Seq<MemoryDescriptor>) -> Option<int> {
    spec_first_conventional_from(entries, 0)
}

/// What the scan for the first free usable region returns.
proof fn lemma_first_conventional_characterization(entries: Seq<MemoryDescriptor>, i: int)
    requires
        0 <= i,
    ensures
        match spec_first_conventional_from(entries, i) {
            Some(k) => i <= k < entries.len() && entries[k].memory_type is CONVENTIONAL
                && forall|j: int| i <= j < k ==> !(entries[j].memory_type is CONVENTIONAL),
            None => forall|j: int| i <= j < entries.len() ==> !(entries[j].memory_type is CONVENTIONAL),
        },
    decreases entries.len() - i,
{
    if i >= entries.len() {
    } else if entries[i].memory_type is CONVENTIONAL {
    } else {
        lemma_first_conventional_characterization(entries, i + 1);
    }
}

/// The allocator the kernel's dynamic-allocation facility routes through:
/// a frame bitmap behind an explicit initialization gate.
pub struct SimpleAlloc {
    memory_frame: MemoryFrame,
    initialized: bool,
}

impl SimpleAlloc {
    /// The underlying frame bitmap.
    pub closed spec fn frame(self) -> MemoryFrame {
        self.memory_frame
    }

    /// Whether `initialize` has run.
    pub closed spec fn is_initialized(self) -> bool {
        self.initialized
    }

    pub closed spec fn wf(self) -> bool {
        self.memory_frame.wf()
    }

    /// A fresh allocator: not yet initialized, every frame free.
    pub fn new() -> (r: SimpleAlloc)
        ensures
            r.wf(),
            !r.is_initialized(),
            r.frame().bits().len() == ALLOC_FRAME_NUM,
            r.frame().frames() == ALLOC_FRAME_NUM,
            r.frame().frame_offset() == 0,
            forall|i: int| 0 <= i < r.frame().bits().len() ==> !r.frame().bits()[i],
    {
        SimpleAlloc { memory_frame: MemoryFrame::new(), initialized: false }
    }

    /// Scan the memory map once; anchor the window at the physical start of
    /// the first free usable region found (or 0 if there is none) and mark
    /// the allocator ready.
    pub fn initialize(&mut self, memory_map: &MemoryMap)
        requires
            old(self).wf(),
            memory_map.wf(),
            spec_first_conventional(memory_map.entries()) matches Some(k)
                ==> memory_map.entries()[k].physical_start + old(self).frame().frames() * ALLOC_FRAME_SIZE
                    <= usize::MAX,
        ensures
            final(self).wf(),
            final(self).is_initialized(),
            final(self).frame().bits() == old(self).frame().bits(),
            final(self).frame().frames() == old(self).frame().frames(),
            match spec_first_conventional(memory_map.entries()) {
                Some(k) => final(self).frame().frame_offset() == memory_map.entries()[k].physical_start,
                None => final(self).frame().frame_offset() == 0,
            },
    {
        proof {
            lemma_first_conventional_characterization(memory_map.entries(), 0);
        }
        let ghost entries = memory_map.entries();
        let mut alloc_start: usize = 0;
        let mut i: usize = 0;
        let mut found: bool = false;
        while i < memory_map.len
            invariant
                old(self).wf(),
                *self == *old(self),
                memory_map.wf(),
                entries == memory_map.entries(),
                i <= memory_map.len,
                spec_first_conventional(entries) matches Some(k)
                    ==> entries[k].physical_start + old(self).frame().frames() * ALLOC_FRAME_SIZE
                        <= usize::MAX,
                !found ==> forall|j: int| 0 <= j < i ==> !(entries[j].memory_type is CONVENTIONAL),
                !found ==> alloc_start == 0,
                found ==> (spec_first_conventional(entries) matches Some(k)
                    && alloc_start == entries[k].physical_start),
            decreases memory_map.len - i,
        {
            if !found && matches!(memory_map.map[i].memory_type, MemoryType::CONVENTIONAL) {
                proof {
                    lemma_first_conventional_characterization(entries, 0);
                    match spec_first_conventional(entries) {
                        Some(k) => {
                            assert(!(k < i));
                            assert(!(i < k)) by {
                                if i < k {
                                    assert(!(entries[i as int].memory_type is CONVENTIONAL));
                                }
                            }
                            let fr = old(self).frame().frames();
                            assert(fr * ALLOC_FRAME_SIZE >= 0) by (nonlinear_arith)
                                requires fr >= 0;
                            assert(entries[k].physical_start <= usize::MAX);
                        },
                        None => {
                            assert(entries[i as int].memory_type is CONVENTIONAL);
                            assert(false);
                        },
                    }
                }
                alloc_start = memory_map.map[i].physical_start as usize;
                found = true;
            }
            i += 1;
        }
        proof {
            lemma_first_conventional_characterization(entries, 0);
            if !found {
                match spec_first_conventional(entries) {
                    Some(k) => {
                        assert(entries[k].memory_type is CONVENTIONAL);
                        assert(false);
                    },
                    None => {},
                }
            }
            let fr = self.frame().frames();
            assert(alloc_start + fr * ALLOC_FRAME_SIZE <= usize::MAX) by {
                if !found {
                    assert(fr * ALLOC_FRAME_SIZE <= ALLOC_FRAME_NUM as int * ALLOC_FRAME_SIZE)
                        by (nonlinear_arith)
                        requires 0 <= fr <= ALLOC_FRAME_NUM;
                }
            }
        }
        self.memory_frame.set_offset_addr(alloc_start);
        self.initialized = true;
    }

    /// Allocate `size` bytes' worth of frames, failing before initialization
    /// and when no sufficiently long free run exists.
    pub fn allocate(&mut self, size: usize) -> (r: Result<usize, AllocError>)
        requires
            old(self).wf(),
            1 <= size,
        ensures
            final(self).wf(),
            final(self).is_initialized() == old(self).is_initialized(),
            final(self).frame().frames() == old(self).frame().frames(),
            final(self).frame().frame_offset() == old(self).frame().frame_offset(),
            !old(self).is_initialized() ==> r == Err::<usize, AllocError>(AllocError::NotInitialized)
                && *final(self) == *old(self),
            old(self).is_initialized() ==> match r {
                Ok(addr) => {
                    let n = spec_div_ceil(size as int, ALLOC_FRAME_SIZE as int);
                    &&& spec_first_fit(old(self).frame().bits(), n, old(self).frame().frames())
                            matches Some(start)
                        && addr == old(self).frame().frame_offset() + start * ALLOC_FRAME_SIZE
                        && final(self).frame().bits()
                            == set_range(old(self).frame().bits(), start, n, true)
                },
                Err(e) => e == AllocError::OutOfMemory
                    && spec_first_fit(old(self).frame().bits(),
                        spec_div_ceil(size as int, ALLOC_FRAME_SIZE as int),
                        old(self).frame().frames()) is None
                    && *final(self) == *old(self),
            },
    {
        if !self.initialized {
            return Err(AllocError::NotInitialized);
        }
        self.memory_frame.use_frame_with_physical_size(size)
    }

    /// Free `size` bytes' worth of frames at physical address `addr`, failing
    /// before initialization and on a misaligned address.
    pub fn deallocate(&mut self, addr: usize, size: usize) -> (r: Result<(), AllocError>)
        requires
            old(self).wf(),
            old(self).is_initialized() && old(self).frame().frame_offset() <= addr
                && (addr - old(self).frame().frame_offset()) % (ALLOC_FRAME_SIZE as int) == 0
                ==> (addr - old(self).frame().frame_offset()) / (ALLOC_FRAME_SIZE as int)
                    + spec_div_ceil(size as int, ALLOC_FRAME_SIZE as int) <= ALLOC_FRAME_NUM,
        ensures
            final(self).wf(),
            final(self).is_initialized() == old(self).is_initialized(),
            final(self).frame().frames() == old(self).frame().frames(),
            final(self).frame().frame_offset() == old(self).frame().frame_offset(),
            !old(self).is_initialized() ==> r == Err::<(), AllocError>(AllocError::NotInitialized)
                && *final(self) == *old(self),
            old(self).is_initialized() ==>
                if old(self).frame().frame_offset() <= addr
                    && (addr - old(self).frame().frame_offset()) % (ALLOC_FRAME_SIZE as int) == 0 {
                    r == Ok::<(), AllocError>(())
                        && final(self).frame().bits() == set_range(old(self).frame().bits(),
                            (addr - old(self).frame().frame_offset()) / (ALLOC_FRAME_SIZE as int),
                            spec_div_ceil(size as int, ALLOC_FRAME_SIZE as int), false)
                } else {
                    r == Err::<(), AllocError>(AllocError::MisalignedAddress)
                        && *final(self) == *old(self)
                },
    {
        if !self.initialized {
            return Err(AllocError::NotInitialized);
        }
        self.memory_frame.free_frame_with_physical_address(addr, size)
    }

    /// Read access to the frame bitmap, for inspection.
    pub fn memory_frame(&self) -> (r: &MemoryFrame)
        ensures
            *r == self.frame(),
    {
        &self.memory_frame
    }
}

/// Every representable frame is free.
pub open spec fn all_free(bits: Seq<bool>) -> bool {
    forall|i: int| 0 <= i < bits.len() ==> !bits[i]
}

/// Number of frames marked used.
pub open spec fn count_used(bits: Seq<bool>) -> int
    decreases bits.len(),
{
    if bits.len() == 0 {
        0
    } else {
        count_used(bits.drop_last()) + if bits.last() { 1int } else { 0int }
    }
}

/// Marking a free run used adds exactly the run's length to the number of
/// used frames.
pub proof fn lemma_count_used_set_range_true(bits: Seq<bool>, s: int, n: int)
    requires
        0 <= n,
        is_free_run(bits, s, n),
    ensures
        count_used(set_range(bits, s, n, true)) == count_used(bits) + n,
    decreases bits.len(),
{
    let b2 = set_range(bits, s, n, true);
    if n == 0 {
        assert(b2 =~= bits);
    } else if s + n == bits.len() {
        assert(!bits.last());
        assert(b2.last());
        assert(b2.drop_last() =~= set_range(bits.drop_last(), s, n - 1, true));
        lemma_count_used_set_range_true(bits.drop_last(), s, n - 1);
    } else {
        assert(b2.last() == bits.last());
        assert(b2.drop_last() =~= set_range(bits.drop_last(), s, n, true));
        lemma_count_used_set_range_true(bits.drop_last(), s, n);
    }
}

/// Sizing: a successful allocation of `byte_size` bytes consumes exactly
/// `ceil(byte_size / ALLOC_FRAME_SIZE)` frames, and touches no other frame.
pub proof fn lemma_allocate_sizing(bits: Seq<bool>, byte_size: int, s: int, limit: int)
    requires
        1 <= byte_size,
        limit <= bits.len(),
        spec_first_fit(bits, spec_div_ceil(byte_size, ALLOC_FRAME_SIZE as int), limit) == Some(s),
    ensures
        ({
            let n = spec_div_ceil(byte_size, ALLOC_FRAME_SIZE as int);
            &&& count_used(set_range(bits, s, n, true)) == count_used(bits) + n
            &&& forall|i: int| 0 <= i < bits.len() && !(s <= i < s + n)
                ==> set_range(bits, s, n, true)[i] == bits[i]
        }),
{
    let n = spec_div_ceil(byte_size, ALLOC_FRAME_SIZE as int);
    assert(1 <= n);
    lemma_first_fit_from_characterization(bits, n, limit, 0);
    lemma_count_used_set_range_true(bits, s, n);
}

/// Disjointness: two successful allocations with no intervening free occupy
/// frame ranges that never overlap.
pub proof fn lemma_successive_allocations_disjoint(bits: Seq<bool>, n1: int, n2: int, s1: int, s2: int, limit: int)
    requires
        limit <= bits.len(),
        spec_first_fit(bits, n1, limit) == Some(s1),
        spec_first_fit(set_range(bits, s1, n1, true), n2, limit) == Some(s2),
    ensures
        s1 + n1 <= s2 || s2 + n2 <= s1,
{
    let b2 = set_range(bits, s1, n1, true);
    assert(1 <= n1 && 1 <= n2);
    lemma_first_fit_from_characterization(bits, n1, limit, 0);
    lemma_first_fit_from_characterization(b2, n2, limit, 0);
    if !(s1 + n1 <= s2 || s2 + n2 <= s1) {
        let i = if s1 >= s2 { s1 } else { s2 };
        assert(s1 <= i < s1 + n1);
        assert(s2 <= i < s2 + n2);
        assert(b2[i]);
        assert(!b2[i]);
    }
}

/// One step of the allocator's life: a first-fit allocation of some frames,
/// or the release of one outstanding allocation.
#[derive(Debug, Copy, Clone, PartialEq, Eq, Structural)]
pub enum FrameOp {
    /// Allocate this many consecutive frames.
    Allocate(usize),
    /// Free the outstanding allocation at this position of the bookkeeping
    /// sequence.
    Free(usize),
}

/// Frame `i` lies in one of the outstanding allocations.
pub open spec fn covered(outstanding: Seq<(int, int)>, i: int) -> bool {
    exists|k: int| 0 <= k < outstanding.len()
        && (#[trigger] outstanding[k]).0 <= i < outstanding[k].0 + outstanding[k].1
}

/// The outstanding allocations lie in the window, are nonempty, and are
/// pairwise disjoint.
pub open spec fn outstanding_wf(outstanding: Seq<(int, int)>, limit: int) -> bool {
    &&& forall|k: int| 0 <= k < outstanding.len()
        ==> 0 <= (#[trigger] outstanding[k]).0
            && 1 <= outstanding[k].1
            && outstanding[k].0 + outstanding[k].1 <= limit
    &&& forall|k1: int, k2: int| 0 <= k1 < k2 < outstanding.len()
        ==> (#[trigger] outstanding[k1]).0 + outstanding[k1].1 <= (#[trigger] outstanding[k2]).0
            || outstanding[k2].0 + outstanding[k2].1 <= outstanding[k1].0
}

/// The bitmap marks used exactly the frames some outstanding allocation covers.
pub open spec fn bits_match(bits: Seq<bool>, outstanding: Seq<(int, int)>) -> bool {
    forall|i: int| 0 <= i < bits.len() ==> (#[trigger] bits[i] <==> covered(outstanding, i))
}

/// What one operation does to the bitmap and to the bookkeeping of
/// outstanding allocations. A failed allocation and a free of a position
/// that holds no allocation leave both unchanged.
pub open spec fn spec_step(bits: Seq<bool>, outstanding: Seq<(int, int)>, op: FrameOp, limit: int)
    -> (Seq<bool>, Seq<(int, int)>)
{
    match op {
        FrameOp::Allocate(n) => match spec_first_fit(bits, n as int, limit) {
            Some(s) => (set_range(bits, s, n as int, true), outstanding.push((s, n as int))),
            None => (bits, outstanding),
        },
        FrameOp::Free(k) => if k < outstanding.len() {
            (set_range(bits, outstanding[k as int].0, outstanding[k as int].1, false),
                outstanding.remove(k as int))
        } else {
            (bits, outstanding)
        },
    }
}

/// The bitmap and the bookkeeping after a whole sequence of operations.
pub open spec fn spec_run(bits: Seq<bool>, outstanding: Seq<(int, int)>, ops: Seq<FrameOp>, limit: int)
    -> (Seq<bool>, Seq<(int, int)>)
    decreases ops.len(),
{
    if ops.len() == 0 {
        (bits, outstanding)
    } else {
        let head = spec_step(bits, outstanding, ops[0], limit);
        spec_run(head.0, head.1, ops.subrange(1, ops.len() as int), limit)
    }
}

/// One operation keeps the bitmap in step with the outstanding allocations.
pub proof fn lemma_step_preserves_match(bits: Seq<bool>, outstanding: Seq<(int, int)>, op: FrameOp, limit: int)
    requires
        bits_match(bits, outstanding),
        outstanding_wf(outstanding, limit),
        0 <= limit <= bits.len(),
    ensures
        ({
            let (b2, o2) = spec_step(bits, outstanding, op, limit);
            &&& b2.len() == bits.len()
            &&& bits_match(b2, o2)
            &&& outstanding_wf(o2, limit)
        }),
{
    let (b2, o2) = spec_step(bits, outstanding, op, limit);
    match op {
        FrameOp::Allocate(n) => match spec_first_fit(bits, n as int, limit) {
            Some(s) => {
                assert(1 <= n);
                lemma_first_fit_from_characterization(bits, n as int, limit, 0);
                assert(is_free_run(bits, s, n as int));
                // the new range is disjoint from every outstanding one, since
                // a covered frame would be marked used and so not free.
                assert forall|k: int| 0 <= k < outstanding.len() implies
                    outstanding[k].0 + outstanding[k].1 <= s || s + n <= outstanding[k].0 by {
                    if !(outstanding[k].0 + outstanding[k].1 <= s || s + n <= outstanding[k].0) {
                        let i = if s >= outstanding[k].0 { s } else { outstanding[k].0 };
                        assert(outstanding[k].0 <= i < outstanding[k].0 + outstanding[k].1);
                        assert(covered(outstanding, i));
                        assert(bits[i]);
                        assert(!bits[i]);
                    }
                }
                assert(outstanding_wf(o2, limit));
                assert forall|i: int| 0 <= i < b2.len() implies
                    (#[trigger] b2[i] <==> covered(o2, i)) by {
                    if s <= i < s + n {
                        assert(o2[o2.len() - 1].0 <= i < o2[o2.len() - 1].0 + o2[o2.len() - 1].1);
                        assert(covered(o2, i));
                    } else {
                        if covered(o2, i) {
                            let k = choose|k: int| 0 <= k < o2.len()
                                && (#[trigger] o2[k]).0 <= i < o2[k].0 + o2[k].1;
                            assert(k < outstanding.len());
                            assert(outstanding[k] == o2[k]);
                            assert(covered(outstanding, i));
                        }
                        if covered(outstanding, i) {
                            let k = choose|k: int| 0 <= k < outstanding.len()
                                && (#[trigger] outstanding[k]).0 <= i
                                    < outstanding[k].0 + outstanding[k].1;
                            assert(o2[k] == outstanding[k]);
                            assert(covered(o2, i));
                        }
                    }
                }
            },
            None => {},
        },
        FrameOp::Free(k) => {
            if k < outstanding.len() {
                let ki = k as int;
                let fs = outstanding[ki].0;
                let fcount = outstanding[ki].1;
                assert forall|j: int| 0 <= j < o2.len() implies o2[j] == (if j < ki {
                    outstanding[j]
                } else {
                    outstanding[j + 1]
                }) by {}
                assert(outstanding_wf(o2, limit)) by {
                    assert forall|k1: int, k2: int| 0 <= k1 < k2 < o2.len() implies
                        (#[trigger] o2[k1]).0 + o2[k1].1 <= (#[trigger] o2[k2]).0
                            || o2[k2].0 + o2[k2].1 <= o2[k1].0 by {
                        let j1 = if k1 < ki { k1 } else { k1 + 1 };
                        let j2 = if k2 < ki { k2 } else { k2 + 1 };
                        assert(o2[k1] == outstanding[j1]);
                        assert(o2[k2] == outstanding[j2]);
                    }
                }
                assert forall|i: int| 0 <= i < b2.len() implies
                    (#[trigger] b2[i] <==> covered(o2, i)) by {
                    if fs <= i < fs + fcount {
                        // the freed range is covered by no other allocation.
                        assert(!b2[i]);
                        if covered(o2, i) {
                            let j = choose|j: int| 0 <= j < o2.len()
                                && (#[trigger] o2[j]).0 <= i < o2[j].0 + o2[j].1;
                            let j0 = if j < ki { j } else { j + 1 };
                            assert(o2[j] == outstanding[j0]);
                            assert(j0 != ki);
                            assert(false);
                        }
                    } else {
                        assert(b2[i] == bits[i]);
                        if covered(o2, i) {
                            let j = choose|j: int| 0 <= j < o2.len()
                                && (#[trigger] o2[j]).0 <= i < o2[j].0 + o2[j].1;
                            let j0 = if j < ki { j } else { j + 1 };
                            assert(o2[j] == outstanding[j0]);
                            assert(covered(outstanding, i));
                        }
                        if covered(outstanding, i) {
                            let j0 = choose|j0: int| 0 <= j0 < outstanding.len()
                                && (#[trigger] outstanding[j0]).0 <= i
                                    < outstanding[j0].0 + outstanding[j0].1;
                            assert(j0 != ki);
                            let j = if j0 < ki { j0 } else { j0 - 1 };
                            assert(o2[j] == outstanding[j0]);
                            assert(covered(o2, i));
                        }
                    }
                }
            }
        },
    }
}

/// A whole run of operations keeps the bitmap in step with the outstanding
/// allocations.
pub proof fn lemma_run_preserves_match(bits: Seq<bool>, outstanding: Seq<(int, int)>, ops: Seq<FrameOp>, limit: int)
    requires
        bits_match(bits, outstanding),
        outstanding_wf(outstanding, limit),
        0 <= limit <= bits.len(),
    ensures
        ({
            let (b2, o2) = spec_run(bits, outstanding, ops, limit);
            &&& b2.len() == bits.len()
            &&& bits_match(b2, o2)
            &&& outstanding_wf(o2, limit)
        }),
    decreases ops.len(),
{
    if ops.len() > 0 {
        lemma_step_preserves_match(bits, outstanding, ops[0], limit);
        let head = spec_step(bits, outstanding, ops[0], limit);
        lemma_run_preserves_match(head.0, head.1, ops.subrange(1, ops.len() as int), limit);
    }
}

/// Round-trip: run any sequence of allocate/free operations from an all-free
/// bitmap; whenever every allocation made has been freed again, the bitmap is
/// back to all-free.
pub proof fn lemma_round_trip(bits: Seq<bool>, ops: Seq<FrameOp>, limit: int)
    requires
        all_free(bits),
        0 <= limit <= bits.len(),
    ensures
        ({
            let (b2, o2) = spec_run(bits, Seq::empty(), ops, limit);
            o2.len() == 0 ==> all_free(b2)
        }),
{
    assert(bits_match(bits, Seq::empty()));
    lemma_run_preserves_match(bits, Seq::empty(), ops, limit);
    let (b2, o2) = spec_run(bits, Seq::empty(), ops, limit);
    if o2.len() == 0 {
        assert forall|i: int| 0 <= i < b2.len() implies !b2[i] by {
            assert(!covered(o2, i));
        }
    }
}

} // verus!
