//! Physical frames and page ranges: the bump allocator over the usable
//! regions of the boot memory map, the pages a mapping covers, and what the
//! copy of the kernel's page tables does with each entry.

use vstd::prelude::*;

verus! {

/// Size of a page and of a physical frame.
pub const PAGE_SIZE: u64 = 4096;

/// Page-table flag of an entry that maps a huge page rather than a table.
pub const HUGE_PAGE: u64 = 0x80;

/// One region of the boot memory map, `[start, end)`.
#[derive(Clone, Copy, Debug, PartialEq, Eq, Structural)]
pub struct MemoryRegion {
    pub start: u64,
    pub end: u64,
    /// The boot loader reports the region as free for the kernel's use.
    pub usable: bool,
}

/// The start of the page or frame holding address `a`.
pub open spec fn align_down(a: u64) -> u64 {
    (a - a % 4096) as u64
}

/// How many frame addresses a region contributes: one every 4 KiB from its
/// start while below its end, none for a region that is not usable.
pub open spec fn region_frame_count(r: MemoryRegion) -> nat {
    if r.usable && r.start < r.end {
        let d = (r.end - r.start) as nat;
        d / 4096 + if d % 4096 != 0 {
            1nat
        } else {
            0nat
        }
    } else {
        0
    }
}

/// The frames a region contributes, in order.
pub open spec fn region_frames(r: MemoryRegion) -> Seq<u64> {
    Seq::new(region_frame_count(r), |k: int| align_down((r.start + 4096 * k) as u64))
}

/// The frames of the usable regions of a memory map, region after region.
pub open spec fn usable_frames(rs: Seq<MemoryRegion>) -> Seq<u64>
    decreases rs.len(),
{
    if rs.len() == 0 {
        Seq::empty()
    } else {
        region_frames(rs[0]) + usable_frames(rs.drop_first())
    }
}

/// A bump allocator over the usable frames of the boot memory map: the n-th
/// allocation returns the n-th usable frame.
pub struct BootInfoFrameAllocator {
    memory_map: Vec<MemoryRegion>,
    next: usize,
}

impl BootInfoFrameAllocator {
    /// The regions of the memory map.
    pub closed spec fn regions(&self) -> Seq<MemoryRegion> {
        self.memory_map@
    }

    /// How many frames have been handed out.
    pub closed spec fn handed_out(&self) -> nat {
        self.next as nat
    }

    /// An allocator that has handed out nothing yet.
    pub fn init(memory_map: Vec<MemoryRegion>) -> (r: BootInfoFrameAllocator)
        ensures
            r.regions() == memory_map@,
            r.handed_out() == 0,
    {
        BootInfoFrameAllocator { memory_map, next: 0 }
    }

    /// The next usable frame, or `None` when every one has been handed out.
    pub fn allocate_frame(&mut self) -> (r: Option<u64>)
        ensures
            final(self).regions() == old(self).regions(),
            ({
                let f = usable_frames(old(self).regions());
                let n = old(self).handed_out();
                if n < f.len() && n < usize::MAX {
                    r == Some(f[n as int]) && final(self).handed_out() == n + 1
                } else {
                    r is None && final(self).handed_out() == n
                }
            }),
    {
        if self.next == usize::MAX {
            return None;
        }
        let ghost all = usable_frames(self.memory_map@);
        let ghost n = self.memory_map@.len();
        let mut remaining: usize = self.next;
        let mut i: usize = 0;
        proof {
            assert(self.memory_map@.subrange(0, n as int) =~= self.memory_map@);
        }
        while i < self.memory_map.len()
            invariant
                i <= n,
                self.memory_map@ == old(self).memory_map@,
                self.next == old(self).next,
                n == self.memory_map@.len(),
                all == usable_frames(self.memory_map@),
                remaining <= self.next,
                self.next < usize::MAX,
                (self.next - remaining) as int <= all.len(),
                all.subrange((self.next - remaining) as int, all.len() as int) =~= usable_frames(
                    self.memory_map@.subrange(i as int, n as int),
                ),
            decreases n - i,
        {
            let r = self.memory_map[i];
            let ghost rest = self.memory_map@.subrange(i as int + 1, n as int);
            proof {
                let sub = self.memory_map@.subrange(i as int, n as int);
                assert(sub.drop_first() =~= rest);
                assert(sub[0] == r);
                assert(usable_frames(sub) == region_frames(r) + usable_frames(rest));
            }
            let count: u64 = if r.usable && r.start < r.end {
                let d = r.end - r.start;
                d / 4096 + if d % 4096 != 0 {
                    1
                } else {
                    0
                }
            } else {
                0
            };
            assert(count == region_frame_count(r));
            if (remaining as u64) < count {
                let k = remaining as u64;
                proof {
                    let d = (r.end - r.start) as int;
                    assert(4096 * k < d) by (nonlinear_arith)
                        requires
                            k < count,
                            count == d / 4096 + if d % 4096 != 0 {
                                1int
                            } else {
                                0int
                            },
                            d > 0,
                    ;
                }
                let a = r.start + 4096 * k;
                let frame = a - a % 4096;
                proof {
                    let c = (self.next - remaining) as int;
                    let sub = usable_frames(self.memory_map@.subrange(i as int, n as int));
                    assert(sub.len() == count + usable_frames(rest).len());
                    assert(sub[k as int] == region_frames(r)[k as int]);
                    assert(all.subrange(c, all.len() as int)[k as int] == all[c + k]);
                    assert(region_frames(r)[k as int] == frame);
                }
                self.next = self.next + 1;
                return Some(frame);
            }
            proof {
                let c = (self.next - remaining) as int;
                let sub_all = all.subrange(c, all.len() as int);
                assert(sub_all.len() == count + usable_frames(rest).len());
                assert(all.subrange(c + count, all.len() as int) =~= sub_all.subrange(count as int, sub_all.len() as int));
                assert((region_frames(r) + usable_frames(rest)).subrange(count as int, sub_all.len() as int) =~= usable_frames(rest));
            }
            remaining = remaining - count as usize;
            i = i + 1;
        }
        proof {
            assert(self.memory_map@.subrange(n as int, n as int) =~= Seq::<MemoryRegion>::empty());
            assert(usable_frames(Seq::<MemoryRegion>::empty()) =~= Seq::<u64>::empty());
            assert(all.len() == self.next - remaining);
        }
        None
    }
}

/// The pages that `[start, start + size)` touches, by the address of the first
/// and their number.
pub open spec fn page_span(start: u64, size: u64) -> (u64, nat) {
    if size == 0 {
        (align_down(start), 0)
    } else {
        let first = align_down(start);
        let last = align_down((start + size - 1) as u64);
        (first, ((last - first) / 4096 + 1) as nat)
    }
}

/// The first page and number of pages that mapping `[start, start + size)`
/// takes, one 4 KiB page at a time.
pub fn page_range(start: u64, size: u64) -> (r: (u64, u64))
    requires
        size == 0 || start <= u64::MAX - (size - 1),
    ensures
        r.0 == page_span(start, size).0,
        r.1 == page_span(start, size).1,
{
    let first = start - start % 4096;
    if size == 0 {
        return (first, 0);
    }
    let end = start + (size - 1);
    let last = end - end % 4096;
    (first, (last - first) / 4096 + 1)
}

/// What copying a page-table entry into a new address space does.
#[derive(Clone, Copy, Debug, PartialEq, Eq, Structural)]
pub enum EntryCopy {
    /// The entry is unused: leave the copy's entry unused.
    Skip,
    /// The entry maps a frame (a level-1 entry or a huge page): copy its
    /// address and flags, so that the mapping is shared.
    Share,
    /// The entry points at a lower table: give the copy a fresh table with the
    /// same flags and copy the lower table into it.
    Descend,
}

pub open spec fn entry_copy_of(level: u16, unused: bool, flags: u64) -> EntryCopy {
    if unused {
        EntryCopy::Skip
    } else if level == 1 || flags & HUGE_PAGE != 0 {
        EntryCopy::Share
    } else {
        EntryCopy::Descend
    }
}

/// Decides how an entry of a level-`level` table of the kernel's address
/// space is copied into a new user address space.
pub fn copy_action(level: u16, unused: bool, flags: u64) -> (r: EntryCopy)
    ensures
        r == entry_copy_of(level, unused, flags),
{
    if unused {
        EntryCopy::Skip
    } else if level == 1 || flags & HUGE_PAGE != 0 {
        EntryCopy::Share
    } else {
        EntryCopy::Descend
    }
}

} // verus!
