//! Physical memory frames: address types, frames, and a bitmap allocator
//! over the largest conventional region of the firmware's memory map.
use vstd::prelude::*;
use crate::bitmap::{
    count_set, lemma_count_all_clear, lemma_count_le, lemma_count_positive, lemma_count_update, Bitmap,
};

verus! {

/// Size of a frame, in bytes.
pub const FRAME_SIZE: u64 = 4096;

/// A physical address.
#[derive(Debug, Clone, Copy, PartialEq, Eq, Structural)]
pub struct PhysAddr(pub u64);

impl PhysAddr {
    pub fn new(addr: u64) -> (r: PhysAddr)
        ensures
            r.0 == addr,
    {
        PhysAddr(addr)
    }

    pub fn as_u64(self) -> (r: u64)
        ensures
            r == self.0,
    {
        self.0
    }
}

/// A virtual address.
#[derive(Debug, Clone, Copy, PartialEq, Eq, Structural)]
pub struct VirtAddr(pub u64);

impl VirtAddr {
    pub fn new(addr: u64) -> (r: VirtAddr)
        ensures
            r.0 == addr,
    {
        VirtAddr(addr)
    }

    pub fn as_u64(self) -> (r: u64)
        ensures
            r == self.0,
    {
        self.0
    }
}

/// A physical frame, named by its first address.
#[derive(Debug, Clone, Copy, PartialEq, Eq, Structural)]
pub struct Frame {
    pub start: PhysAddr,
}

impl Frame {
    /// The frame holding `addr`: `addr` rounded down to a frame boundary.
    pub fn containing_address(addr: PhysAddr) -> (r: Frame)
        ensures
            r.start.0 == addr.0 - addr.0 % 4096,
    {
        let a = addr.as_u64();
        assert(a & !(4095u64) == a - a % 4096) by (bit_vector);
        Frame { start: PhysAddr(a & !(FRAME_SIZE - 1)) }
    }

    pub fn start_address(&self) -> (r: PhysAddr)
        ensures
            r == self.start,
    {
        self.start
    }

    /// The address one past the frame.
    pub fn end_address(&self) -> (r: PhysAddr)
        requires
            self.start.0 + FRAME_SIZE <= u64::MAX,
        ensures
            r.0 == self.start.0 + FRAME_SIZE,
    {
        PhysAddr(self.start.0 + FRAME_SIZE)
    }

    /// The frames from `start` up to, not including, `end`.
    pub fn range_inclusive(start: Frame, end: Frame) -> (r: FrameIter)
        ensures
            r.next_start() == start.start.0,
            r.end() == end.start.0,
    {
        FrameIter { start: start.start, end: end.start }
    }
}

/// Walks consecutive frames.
pub struct FrameIter {
    start: PhysAddr,
    end: PhysAddr,
}

impl FrameIter {
    pub closed spec fn next_start(&self) -> u64 {
        self.start.0
    }

    pub closed spec fn end(&self) -> u64 {
        self.end.0
    }

    /// The next frame, or `None` once the end is reached.
    pub fn next(&mut self) -> (r: Option<Frame>)
        requires
            old(self).next_start() < old(self).end() ==> old(self).next_start() + FRAME_SIZE <= u64::MAX,
        ensures
            final(self).end() == old(self).end(),
            old(self).next_start() >= old(self).end() ==> r is None && final(self).next_start() == old(self).next_start(),
            old(self).next_start() < old(self).end() ==> r == Some(Frame { start: PhysAddr(old(self).next_start()) })
                && final(self).next_start() == old(self).next_start() + FRAME_SIZE,
    {
        if self.start.0 >= self.end.0 {
            None
        } else {
            let frame = Frame { start: self.start };
            self.start = PhysAddr(self.start.0 + FRAME_SIZE);
            Some(frame)
        }
    }
}

/// One entry of the firmware's memory map, as the allocator reads it.
#[derive(Debug, Clone, Copy, PartialEq, Eq, Structural)]
pub struct MemoryDescriptorInfo {
    /// Usable, conventional memory.
    pub conventional: bool,
    pub phys_start: u64,
    pub page_count: u64,
}

/// Bitmap allocator of physical frames.
pub struct FrameAllocator {
    bitmap: Bitmap,
    bitmap_start_frame: Frame,
    total_frames: usize,
    used_frames: usize,
}

impl FrameAllocator {
    pub closed spec fn wf(&self) -> bool {
        &&& self.total_frames <= self.bitmap@.len()
        &&& self.bitmap_start_frame.start.0 + self.total_frames * FRAME_SIZE <= u64::MAX
        &&& self.used_frames == count_set(self.bitmap@, self.total_frames as int)
    }

    /// Whether frame `i` (counted from the first managed frame) is in use.
    pub closed spec fn in_use(&self, i: int) -> bool {
        self.bitmap@[i]
    }

    pub closed spec fn total(&self) -> nat {
        self.total_frames as nat
    }

    pub closed spec fn used(&self) -> nat {
        self.used_frames as nat
    }

    /// Address of the first managed frame.
    pub closed spec fn base(&self) -> u64 {
        self.bitmap_start_frame.start.0
    }
}

/// Most pages a region may have for its size in bytes to fit in 64 bits.
pub const MAX_REGION_PAGES: u64 = 0x000f_ffff_ffff_ffff;

/// A conventional region whose size in bytes fits in 64 bits.
pub open spec fn usable(d: MemoryDescriptorInfo) -> bool {
    d.conventional && d.page_count <= MAX_REGION_PAGES
}

/// Index of the first usable region of largest size.
fn largest_region(memory_map: &[MemoryDescriptorInfo]) -> (r: Option<usize>)
    ensures
        r is None <==> forall|k: int| 0 <= k < memory_map@.len() ==> !usable(#[trigger] memory_map@[k]) || memory_map@[k].page_count == 0,
        r matches Some(j) ==> j < memory_map@.len() && usable(memory_map@[j as int]) && memory_map@[j as int].page_count > 0
            && forall|k: int| 0 <= k < memory_map@.len() && usable(#[trigger] memory_map@[k]) ==> memory_map@[k].page_count <= memory_map@[j as int].page_count,
{
    let mut largest: Option<usize> = None;
    let mut largest_size: u64 = 0;
    let mut i: usize = 0;
    while i < memory_map.len()
        invariant
            0 <= i <= memory_map@.len(),
            largest is None ==> largest_size == 0,
            largest matches Some(j) ==> j < i && usable(memory_map@[j as int]) && largest_size == memory_map@[j as int].page_count * FRAME_SIZE && largest_size > 0,
            forall|k: int| 0 <= k < i && usable(#[trigger] memory_map@[k]) ==> memory_map@[k].page_count * FRAME_SIZE <= largest_size,
        decreases memory_map@.len() - i,
    {
        let d = memory_map[i];
        if d.conventional && d.page_count <= MAX_REGION_PAGES {
            let size = d.page_count * FRAME_SIZE;
            if size > largest_size {
                largest_size = size;
                largest = Some(i);
            }
        }
        i = i + 1;
    }
    proof {
        if largest is None {
            assert forall|k: int| 0 <= k < memory_map@.len() implies !usable(#[trigger] memory_map@[k]) || memory_map@[k].page_count == 0 by {
                if usable(memory_map@[k]) {
                    assert(memory_map@[k].page_count * FRAME_SIZE <= 0);
                }
            }
        }
        if let Some(j) = largest {
            assert forall|k: int| 0 <= k < memory_map@.len() && usable(#[trigger] memory_map@[k]) implies memory_map@[k].page_count <= memory_map@[j as int].page_count by {
                assert(memory_map@[k].page_count * FRAME_SIZE <= memory_map@[j as int].page_count * FRAME_SIZE);
            }
        }
    }
    largest
}

impl FrameAllocator {
    /// An allocator over the largest usable conventional region: the frames
    /// from the end of the region's bitmap area on are managed, the first
    /// of them (as many as the bitmap would take) marked in use. `None` when
    /// there is no such region, or when the managed frames would run past
    /// the top of the address space or their bitmap would not fit in memory.
    pub fn new(memory_map: &[MemoryDescriptorInfo]) -> (r: Option<FrameAllocator>)
        ensures
            (forall|k: int| 0 <= k < memory_map@.len() ==> !usable(#[trigger] memory_map@[k]) || memory_map@[k].page_count == 0) ==> r is None,
            r matches Some(a) ==> a.wf() && exists|j: int| 0 <= j < memory_map@.len() && usable(#[trigger] memory_map@[j])
                && a.total() == memory_map@[j].page_count
                && a.used() == (memory_map@[j].page_count + 4095) / 4096
                && (forall|k: int| 0 <= k < memory_map@.len() && usable(#[trigger] memory_map@[k]) ==> memory_map@[k].page_count <= memory_map@[j].page_count)
                && (forall|i: int| 0 <= i < a.total() ==> (#[trigger] a.in_use(i) <==> i < a.used())),
    {
        let j = largest_region(memory_map)?;
        let region = memory_map[j];
        let total_frames = region.page_count;
        let bitmap_frames = (total_frames + 4095) / 4096;
        let bitmap_size = bitmap_frames * FRAME_SIZE;
        if region.phys_start > u64::MAX - bitmap_size {
            return None;
        }
        let bitmap_start = PhysAddr::new(region.phys_start + bitmap_size);
        let bitmap_frame = Frame::containing_address(bitmap_start);
        let base = bitmap_frame.start.0;
        if total_frames > (u64::MAX - base) / FRAME_SIZE {
            return None;
        }
        assert(bitmap_frames <= 0x1_0000_0000_0000);
        let words64 = bitmap_frames * 512;
        if words64 > (usize::MAX / 64) as u64 || total_frames > usize::MAX as u64 {
            return None;
        }
        let words: usize = words64 as usize;
        let mut bitmap = Bitmap::new(words);
        proof {
            lemma_count_all_clear(bitmap@, total_frames as int);
        }
        let mut i: u64 = 0;
        while i < bitmap_frames
            invariant
                0 <= i <= bitmap_frames,
                bitmap_frames <= total_frames,
                total_frames <= usize::MAX,
                bitmap@.len() == words * 64,
                total_frames <= bitmap@.len(),
                count_set(bitmap@, total_frames as int) == i,
                forall|k: int| 0 <= k < bitmap@.len() ==> (#[trigger] bitmap@[k] <==> k < i),
            decreases bitmap_frames - i,
        {
            proof {
                lemma_count_update(bitmap@, i as int, true, total_frames as int);
            }
            bitmap.set(i as usize);
            i = i + 1;
        }
        let a = FrameAllocator {
            bitmap,
            bitmap_start_frame: bitmap_frame,
            total_frames: total_frames as usize,
            used_frames: bitmap_frames as usize,
        };
        assert(a.base() + a.total_frames * FRAME_SIZE <= u64::MAX) by (nonlinear_arith)
            requires
                total_frames <= (u64::MAX - base) / 4096,
                a.base() == base,
                a.total_frames == total_frames,
        ;
        Some(a)
    }

    /// Takes the lowest free frame.
    pub fn allocate_frame(&mut self) -> (r: Option<Frame>)
        requires
            old(self).wf(),
        ensures
            final(self).wf(),
            final(self).total() == old(self).total(),
            final(self).base() == old(self).base(),
            (exists|i: int| 0 <= i < old(self).total() && !#[trigger] old(self).in_use(i)) <==> r is Some,
            r is None ==> *final(self) == *old(self),
            r matches Some(f) ==> exists|i: int| 0 <= i < old(self).total() && !#[trigger] old(self).in_use(i)
                && (forall|k: int| 0 <= k < i ==> #[trigger] old(self).in_use(k))
                && f.start.0 == old(self).base() + i * FRAME_SIZE
                && final(self).in_use(i)
                && (forall|k: int| 0 <= k < old(self).total() && k != i ==> #[trigger] final(self).in_use(k) == old(self).in_use(k))
                && final(self).used() == old(self).used() + 1,
    {
        let mut i: usize = 0;
        while i < self.total_frames
            invariant
                self.wf(),
                *self == *old(self),
                0 <= i <= self.total_frames,
                forall|k: int| 0 <= k < i ==> #[trigger] self.bitmap@[k],
            decreases self.total_frames - i,
        {
            if !self.bitmap.test(i) {
                proof {
                    lemma_count_update(self.bitmap@, i as int, true, self.total_frames as int);
                    lemma_count_le(self.bitmap@.update(i as int, true), self.total_frames as int);
                }
                self.bitmap.set(i);
                self.used_frames = self.used_frames + 1;
                assert(i * FRAME_SIZE <= self.total_frames * FRAME_SIZE) by (nonlinear_arith)
                    requires
                        i < self.total_frames,
                ;
                let frame_addr = self.bitmap_start_frame.start.0 + (i as u64) * FRAME_SIZE;
                proof {
                    assert(!old(self).in_use(i as int));
                }
                return Some(Frame { start: PhysAddr(frame_addr) });
            }
            i = i + 1;
        }
        None
    }

    /// Frees `frame`. A frame outside the managed range, below its base, or
    /// already free is left alone.
    pub fn deallocate_frame(&mut self, frame: Frame)
        requires
            old(self).wf(),
        ensures
            final(self).wf(),
            final(self).total() == old(self).total(),
            final(self).base() == old(self).base(),
            ({
                let off = frame.start.0 - old(self).base();
                let i = off / (FRAME_SIZE as int);
                if frame.start.0 >= old(self).base() && i < old(self).total() && old(self).in_use(i) {
                    &&& !final(self).in_use(i)
                    &&& forall|k: int| 0 <= k < old(self).total() && k != i ==> #[trigger] final(self).in_use(k) == old(self).in_use(k)
                    &&& final(self).used() == old(self).used() - 1
                } else {
                    *final(self) == *old(self)
                }
            }),
    {
        if frame.start.0 < self.bitmap_start_frame.start.0 {
            return;
        }
        let frame_index = (frame.start.0 - self.bitmap_start_frame.start.0) / FRAME_SIZE;
        if frame_index >= self.total_frames as u64 {
            return;
        }
        let idx = frame_index as usize;
        if self.bitmap.test(idx) {
            proof {
                lemma_count_update(self.bitmap@, idx as int, false, self.total_frames as int);
                lemma_count_positive(self.bitmap@, idx as int, self.total_frames as int);
            }
            self.bitmap.clear(idx);
            self.used_frames = self.used_frames - 1;
        }
    }

    /// Frames in use and frames managed.
    pub fn stats(&self) -> (r: (usize, usize))
        ensures
            r.0 == self.used(),
            r.1 == self.total(),
    {
        (self.used_frames, self.total_frames)
    }
}

} // verus!
