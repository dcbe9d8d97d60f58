//! Memory management
//!
//! A kernel wants its memory at the addresses it was linked for. The firmware
//! only hands out whole pages, and only where nothing else lives, so this
//! module keeps the books: which page runs the firmware has granted, and which
//! byte ranges inside them belong to which allocation.
//!
//! The firmware is not called from here. A function that needs pages says
//! which; the caller asks the firmware and reports the answer to the function
//! that continues the allocation.
use vstd::prelude::*;
use crate::memory_map::{MemoryRegion, RegionType};
use crate::quirk::{Quirk, QuirkSet};
use crate::status::Status;

verus! {

/// The firmware's page size in bytes.
pub const PAGE_SIZE: u64 = 4096;

/// The highest address that memory "below 4 GB" may reach.
pub const MAX_ADDRESS_4GB: u64 = 0xffff_ffff;

/// The highest address that memory "below 200 MB" may reach.
pub const MAX_ADDRESS_200MB: u64 = 200 * 1024 * 1024;

/// The last address whose page still ends inside the address space.
pub const LAST_PAGED_ADDRESS: u64 = 0xffff_ffff_ffff_f000;

/// What a piece of memory is used for, as the firmware's memory map tells it.
#[derive(Clone, Copy, Debug, PartialEq, Eq, Structural)]
pub enum MemoryType {
    Reserved,
    LoaderCode,
    LoaderData,
    BootServicesCode,
    BootServicesData,
    RuntimeServicesCode,
    RuntimeServicesData,
    Conventional,
    Unusable,
    AcpiReclaim,
    AcpiNonVolatile,
    Mmio,
    MmioPortSpace,
    PalCode,
    PersistentMemory,
    /// A type this loader has no name for, by its number.
    Other(u32),
}

/// One entry of the firmware's memory map.
#[derive(Clone, Copy, Debug, PartialEq, Eq, Structural)]
pub struct MemoryDescriptor {
    pub ty: MemoryType,
    pub phys_start: u64,
    pub page_count: u64,
}

/// The number of pages that hold `size` bytes.
pub open spec fn pages_for(size: int) -> int {
    (size + PAGE_SIZE - 1) / (PAGE_SIZE as int)
}

/// Whether the byte ranges `[a, a + alen)` and `[b, b + blen)` share a byte.
pub open spec fn ranges_overlap(a: int, alen: int, b: int, blen: int) -> bool {
    a < b + blen && b < a + alen
}

/// Pages that the firmware has granted.
#[derive(Clone, Copy, Debug, PartialEq, Eq, Structural)]
pub struct PageRun {
    /// the address of the first page
    pub start: u64,
    /// how many pages there are
    pub pages: u64,
}

impl PageRun {
    /// The address behind the last page.
    pub open spec fn end(self) -> int {
        self.start + self.pages * PAGE_SIZE
    }

    /// A run starts at a page boundary, is not empty and ends inside the
    /// address space.
    pub open spec fn wf(self) -> bool {
        &&& self.start % PAGE_SIZE == 0
        &&& self.pages > 0
        &&& self.end() <= u64::MAX
    }

    /// Whether the address lies in the run.
    pub open spec fn holds(self, address: int) -> bool {
        self.start <= address < self.end()
    }

    /// Whether two runs share a page.
    pub open spec fn overlaps(self, other: PageRun) -> bool {
        self.start < other.end() && other.start < self.end()
    }

    /// Check if the specified address is part of this run.
    pub fn contains(&self, address: u64) -> (r: bool)
        requires
            self.wf(),
        ensures
            r == self.holds(address as int),
    {
        self.start <= address && address < self.start + self.pages * PAGE_SIZE
    }

    /// The address behind the last page.
    pub fn end_address(&self) -> (r: u64)
        requires
            self.wf(),
        ensures
            r == self.end(),
    {
        self.start + self.pages * PAGE_SIZE
    }
}

/// What the firmware is asked for.
#[derive(Clone, Copy, Debug, PartialEq, Eq, Structural)]
pub enum PageRequest {
    /// `pages` pages that start exactly at the page boundary `start`
    Address { start: u64, pages: u64 },
    /// `pages` pages anywhere, the last byte of which is at or below `max`
    MaxAddress { max: u64, pages: u64 },
}

/// Tracks our own allocations.
/// These can start at any place in memory and can have any length.
#[derive(Clone, Copy, Debug, PartialEq, Eq, Structural)]
pub struct Allocation {
    /// the start of the allocation
    pub ptr: u64,
    /// the length that was requested
    pub len: u64,
    /// the address of memory where it should have been allocated
    /// (only when it differs from ptr)
    pub should_be_at: Option<u64>,
}

impl Allocation {
    /// An allocation is not empty, and both the place where it lives and the
    /// place where it should be end inside the address space.
    pub open spec fn wf(self) -> bool {
        &&& self.len > 0
        &&& self.ptr + self.len <= u64::MAX
        &&& self.should_be_at matches Some(target) ==> target + self.len <= u64::MAX
    }

    /// Whether the allocation lives in, or is still to be moved to, a byte of
    /// `[start, start + len)`.
    pub open spec fn touches(self, start: int, len: int) -> bool {
        ||| ranges_overlap(self.ptr as int, self.len as int, start, len)
        ||| (self.should_be_at matches Some(target) && ranges_overlap(
            target as int,
            self.len as int,
            start,
            len,
        ))
    }

    /// Whether two allocations lay claim to the same byte, now or after
    /// either has been moved to where it should be.
    pub open spec fn conflicts(self, other: Allocation) -> bool {
        ||| other.touches(self.ptr as int, self.len as int)
        ||| (self.should_be_at matches Some(target) && other.touches(
            target as int,
            self.len as int,
        ))
    }

    /// What `new_at(address, ..)` may hand out: memory at the address itself,
    /// or page-aligned memory below 4 GB that is to be moved to the address
    /// later.
    pub open spec fn placed_for(self, address: u64) -> bool {
        ||| (self.ptr == address && self.should_be_at is None)
        ||| (self.should_be_at == Some(address) && self.ptr % PAGE_SIZE == 0 && self.ptr
            + self.len - 1 <= MAX_ADDRESS_4GB)
    }

    /// Calculate how many pages to allocate for the given amount of bytes.
    pub fn calculate_page_count(size: u64) -> (r: u64)
        ensures
            r == pages_for(size as int),
    {
        (size / PAGE_SIZE) + if (size % PAGE_SIZE) == 0 {
            0
        } else {
            1
        }
    }

    /// Checks whether a part of memory lies inside this allocation.
    pub fn contains(&self, begin: u64, length: u64) -> (r: bool)
        ensures
            r == (self.ptr <= begin && begin + length <= self.ptr + self.len),
    {
        self.ptr <= begin && length <= self.len && begin - self.ptr <= self.len - length
    }

    /// Whether the allocation is one that `new_at(address, ..)` may have
    /// handed out.
    pub fn is_placed_for(&self, address: u64) -> (r: bool)
        ensures
            r == self.placed_for(address),
    {
        let at_address: bool = self.ptr == address && self.should_be_at.is_none();
        let deferred: bool = match self.should_be_at {
            Some(target) => target == address && self.ptr % PAGE_SIZE == 0 && self.ptr as u128
                + self.len as u128 <= MAX_ADDRESS_4GB as u128 + 1,
            None => false,
        };
        at_address || deferred
    }

    /// Get the address inside.
    pub fn as_ptr(&self) -> (r: u64)
        ensures
            r == self.ptr,
    {
        self.ptr
    }

    fn touches_range(&self, start: u64, len: u64) -> (r: bool)
        requires
            self.wf(),
            start + len <= u64::MAX,
        ensures
            r == self.touches(start as int, len as int),
    {
        let here: bool = self.ptr < start + len && start < self.ptr + self.len;
        let there: bool = match self.should_be_at {
            Some(target) => target < start + len && start < target + self.len,
            None => false,
        };
        here || there
    }

    fn conflicts_with(&self, other: &Allocation) -> (r: bool)
        requires
            self.wf(),
            other.wf(),
        ensures
            r == self.conflicts(*other),
    {
        let here: bool = other.touches_range(self.ptr, self.len);
        let there: bool = match self.should_be_at {
            Some(target) => other.touches_range(target, self.len),
            None => false,
        };
        here || there
    }
}

/// How a request for memory at a given address can be met.
#[derive(Clone, Copy, Debug, PartialEq, Eq, Structural)]
pub enum Placement {
    /// The whole range lies in pages that we already hold.
    Inside,
    /// These pages are missing: the range begins in none of our runs, or it
    /// begins in one and runs over its end.
    Pages { start: u64, pages: u64 },
}

/// The first step of an allocation at a given address.
#[derive(Clone, Copy, Debug, PartialEq, Eq, Structural)]
pub enum NewAt {
    /// The memory is ours already; this is the allocation.
    Ready(Allocation),
    /// The firmware has to grant `pages` pages at `start` first.
    Ask { start: u64, pages: u64 },
    /// The request is empty, starts at address 0, leaves the address space or
    /// runs into another allocation.
    Refused,
}

/// What is to be done when the firmware has refused the pages at the address.
#[derive(Clone, Copy, Debug, PartialEq, Eq, Structural)]
pub struct Relocation {
    /// what to ask the firmware for instead
    pub request: PageRequest,
    /// whether something important is in the way and is going to be
    /// overwritten because `ForceOverwrite` says so
    pub forced: bool,
}

/// A byte range to copy, for the caller to carry out.
#[derive(Clone, Copy, Debug, PartialEq, Eq, Structural)]
pub struct Move {
    pub from: u64,
    pub to: u64,
    pub len: u64,
}

/// This allocator allows us to allocate any amount of memory at any place in
/// memory. This is needed because UEFI's allocator only allows us to get whole
/// pages (at a specific place) or any amount of memory (at a random place).
///
/// How this works is that it allocates whole pages from the firmware and keeps
/// track of the actual allocation internally.
#[derive(Debug)]
pub struct Allocator {
    /// the pages that are allocated through the firmware
    runs: Vec<PageRun>,
    /// the allocations that are alive
    live: Vec<Allocation>,
}

/// The run that holds the address, if there is one.
pub open spec fn run_of(runs: Seq<PageRun>, address: int) -> Option<PageRun> {
    if exists|i: int| 0 <= i < runs.len() && (#[trigger] runs[i]).holds(address) {
        let i = choose|i: int| 0 <= i < runs.len() && (#[trigger] runs[i]).holds(address);
        Some(runs[i])
    } else {
        None
    }
}

/// How `size` bytes at `address` can be had, given the runs we hold.
pub open spec fn placement_of(runs: Seq<PageRun>, address: int, size: int) -> Placement {
    match run_of(runs, address) {
        Some(run) => if address + size <= run.end() {
            Placement::Inside
        } else {
            Placement::Pages {
                start: run.end() as u64,
                pages: pages_for(address + size - run.end()) as u64,
            }
        },
        None => Placement::Pages {
            start: (address - address % (PAGE_SIZE as int)) as u64,
            pages: pages_for(size + address % (PAGE_SIZE as int)) as u64,
        },
    }
}

/// Whether an allocation of `size` bytes at `address` can be asked for at
/// all.
pub open spec fn request_in_bounds(address: int, size: int) -> bool {
    address != 0 && size > 0 && address + size <= LAST_PAGED_ADDRESS
}

/// Whether an allocation of `size` bytes at `address` can be asked for at
/// all.
pub fn request_fits(address: u64, size: u64) -> (r: bool)
    ensures
        r == request_in_bounds(address as int, size as int),
{
    address != 0 && size != 0 && address <= LAST_PAGED_ADDRESS && size <= LAST_PAGED_ADDRESS
        - address
}

/// Whether some live allocation touches `[start, start + len)`.
pub open spec fn any_touches(live: Seq<Allocation>, start: int, len: int) -> bool {
    exists|i: int| 0 <= i < live.len() && (#[trigger] live[i]).touches(start, len)
}

/// Whether some live allocation is in conflict with the candidate.
pub open spec fn any_conflicts(live: Seq<Allocation>, candidate: Allocation) -> bool {
    exists|i: int| 0 <= i < live.len() && candidate.conflicts(#[trigger] live[i])
}

/// Whether some run shares a page with the candidate.
pub open spec fn any_overlaps(runs: Seq<PageRun>, candidate: PageRun) -> bool {
    exists|i: int| 0 <= i < runs.len() && candidate.overlaps(#[trigger] runs[i])
}

/// Whether a memory map entry lies in the way of `[address, address + size)`:
/// it is not free memory, and it holds a byte of the range. An entry that
/// only adjoins the range is not in the way.
pub open spec fn in_the_way(entry: MemoryDescriptor, address: int, size: int) -> bool {
    &&& entry.phys_start < address + size
    &&& entry.phys_start + entry.page_count * PAGE_SIZE > address
    &&& entry.ty != MemoryType::Conventional
}

/// Whether memory of this type may be overwritten once the kernel runs:
/// our own code and data always, that of the Boot Services only if they are
/// going to be exited.
pub open spec fn is_expendable(ty: MemoryType, should_exit_boot_services: bool) -> bool {
    ||| ty == MemoryType::LoaderCode
    ||| ty == MemoryType::LoaderData
    ||| (should_exit_boot_services && (ty == MemoryType::BootServicesCode || ty
        == MemoryType::BootServicesData))
}

/// Whether something that must not be overwritten lies in the way of
/// `[address, address + size)`.
pub open spec fn blocked(
    memory_map: Seq<MemoryDescriptor>,
    address: int,
    size: int,
    should_exit_boot_services: bool,
) -> bool {
    exists|i: int|
        0 <= i < memory_map.len() && in_the_way(#[trigger] memory_map[i], address, size)
            && !is_expendable(memory_map[i].ty, should_exit_boot_services)
}

/// The highest address that `new_under_4gb` accepts under these quirks.
pub open spec fn max_address_for(quirks: Set<Quirk>) -> u64 {
    if quirks.contains(Quirk::ModulesBelow200Mb) {
        MAX_ADDRESS_200MB
    } else {
        MAX_ADDRESS_4GB
    }
}

/// Whether the firmware's answer `ptr` to a request for `size` bytes at or
/// below `max` is what was asked for.
pub open spec fn grant_fits(ptr: int, size: int, max: int) -> bool {
    &&& ptr != 0
    &&& ptr % (PAGE_SIZE as int) == 0
    &&& ptr + pages_for(size) * PAGE_SIZE - 1 <= max
}

proof fn lemma_pages_for(size: int)
    requires
        0 <= size,
    ensures
        size <= pages_for(size) * PAGE_SIZE < size + PAGE_SIZE,
        size > 0 ==> pages_for(size) > 0,
        pages_for(size) >= 0,
{
}

/// Whether the runs are pages, and no two of them share one.
pub open spec fn runs_apart(runs: Seq<PageRun>) -> bool {
    &&& forall|i: int| 0 <= i < runs.len() ==> (#[trigger] runs[i]).wf()
    &&& forall|i: int, j: int|
        0 <= i < j < runs.len() ==> !(#[trigger] runs[i]).overlaps(#[trigger] runs[j])
}

/// Whether the allocations are sound, and no two of them lay claim to the
/// same byte.
pub open spec fn allocations_apart(live: Seq<Allocation>) -> bool {
    &&& forall|i: int| 0 <= i < live.len() ==> (#[trigger] live[i]).wf()
    &&& forall|i: int, j: int|
        0 <= i < j < live.len() ==> !(#[trigger] live[i]).conflicts(#[trigger] live[j])
}

impl Allocator {
    /// The page runs that the firmware has granted and that are still held.
    pub closed spec fn runs(&self) -> Seq<PageRun> {
        self.runs@
    }

    /// The allocations that are alive.
    pub closed spec fn live(&self) -> Seq<Allocation> {
        self.live@
    }

    /// The books are in order: the runs are pages, no two of them share one,
    /// and no two live allocations lay claim to the same byte.
    pub open spec fn wf(&self) -> bool {
        runs_apart(self.runs()) && allocations_apart(self.live())
    }

    /// Create a new, empty Allocator.
    pub fn new() -> (r: Allocator)
        ensures
            r.wf(),
            r.runs() == Seq::<PageRun>::empty(),
            r.live() == Seq::<Allocation>::empty(),
    {
        Allocator { runs: Vec::new(), live: Vec::new() }
    }

    /// How many allocations are alive.
    pub fn live_count(&self) -> (r: usize)
        ensures
            r == self.live().len(),
    {
        self.live.len()
    }

    /// The live allocation with this number, oldest first.
    pub fn live_at(&self, index: usize) -> (r: Option<Allocation>)
        ensures
            r == if index < self.live().len() {
                Some(self.live()[index as int])
            } else {
                None
            },
    {
        if index < self.live.len() {
            Some(self.live[index])
        } else {
            None
        }
    }

    /// How many page runs are held.
    pub fn run_count(&self) -> (r: usize)
        ensures
            r == self.runs().len(),
    {
        self.runs.len()
    }

    /// Whether the allocation is alive.
    pub fn is_live(&self, allocation: &Allocation) -> (r: bool)
        ensures
            r == self.live().contains(*allocation),
    {
        let mut i: usize = 0;
        while i < self.live.len()
            invariant
                i <= self.live@.len(),
                forall|k: int| 0 <= k < i ==> self.live@[k] != *allocation,
            decreases self.live@.len() - i,
        {
            let a: Allocation = self.live[i];
            if a.ptr == allocation.ptr && a.len == allocation.len && a.should_be_at
                == allocation.should_be_at {
                assert(self.live@[i as int] == *allocation);
                return true;
            }
            i += 1;
        }
        false
    }

    fn find_run(&self, address: u64) -> (r: Option<PageRun>)
        requires
            self.wf(),
        ensures
            r == run_of(self.runs(), address as int),
    {
        let mut i: usize = 0;
        while i < self.runs.len()
            invariant
                self.wf(),
                i <= self.runs@.len(),
                forall|k: int| 0 <= k < i ==> !(#[trigger] self.runs@[k]).holds(address as int),
            decreases self.runs@.len() - i,
        {
            let run: PageRun = self.runs[i];
            if run.contains(address) {
                proof {
                    let runs = self.runs();
                    assert(runs[i as int].holds(address as int));
                    let c = choose|c: int|
                        0 <= c < runs.len() && (#[trigger] runs[c]).holds(address as int);
                    assert(runs[c].overlaps(runs[i as int]));
                    assert(c == i);
                }
                return Some(run);
            }
            i += 1;
        }
        None
    }

    fn placement(&self, address: u64, size: u64) -> (r: Placement)
        requires
            self.wf(),
            request_in_bounds(address as int, size as int),
        ensures
            r == placement_of(self.runs(), address as int, size as int),
            r matches Placement::Pages { start, pages } ==> (PageRun { start, pages }).wf()
                && start <= address + size <= start + pages * PAGE_SIZE,
            r matches Placement::Pages { start, pages } ==> (run_of(self.runs(), address as int)
                matches Some(run) ==> start == run.end() && address < start),
            r matches Placement::Pages { start, pages } ==> (run_of(self.runs(), address as int)
                is None ==> start <= address),
    {
        match self.find_run(address) {
            Some(run) => {
                assert(run.wf() && run.holds(address as int)) by {
                    let runs = self.runs();
                    let c = choose|c: int|
                        0 <= c < runs.len() && (#[trigger] runs[c]).holds(address as int);
                    assert(runs[c].wf());
                }
                let end: u64 = run.end_address();
                if size <= end - address {
                    Placement::Inside
                } else {
                    let rest: u64 = size - (end - address);
                    proof {
                        lemma_pages_for(rest as int);
                    }
                    Placement::Pages { start: end, pages: Allocation::calculate_page_count(rest) }
                }
            },
            None => {
                let page_offset: u64 = address % PAGE_SIZE;
                proof {
                    lemma_pages_for(size + page_offset);
                }
                Placement::Pages {
                    start: address - page_offset,
                    pages: Allocation::calculate_page_count(size + page_offset),
                }
            },
        }
    }

    fn touched(&self, start: u64, len: u64) -> (r: bool)
        requires
            self.wf(),
            start + len <= u64::MAX,
        ensures
            r == any_touches(self.live(), start as int, len as int),
    {
        let mut i: usize = 0;
        while i < self.live.len()
            invariant
                self.wf(),
                start + len <= u64::MAX,
                i <= self.live@.len(),
                forall|k: int|
                    0 <= k < i ==> !(#[trigger] self.live@[k]).touches(start as int, len as int),
            decreases self.live@.len() - i,
        {
            assert(self.live()[i as int].wf());
            if self.live[i].touches_range(start, len) {
                return true;
            }
            i += 1;
        }
        false
    }

    fn in_conflict(&self, candidate: &Allocation) -> (r: bool)
        requires
            self.wf(),
            candidate.wf(),
        ensures
            r == any_conflicts(self.live(), *candidate),
    {
        let mut i: usize = 0;
        while i < self.live.len()
            invariant
                self.wf(),
                candidate.wf(),
                i <= self.live@.len(),
                forall|k: int| 0 <= k < i ==> !candidate.conflicts(#[trigger] self.live@[k]),
            decreases self.live@.len() - i,
        {
            assert(self.live()[i as int].wf());
            if candidate.conflicts_with(&self.live[i]) {
                return true;
            }
            i += 1;
        }
        false
    }

    fn run_overlaps(&self, candidate: &PageRun) -> (r: bool)
        requires
            self.wf(),
            candidate.wf(),
        ensures
            r == any_overlaps(self.runs(), *candidate),
    {
        let mut i: usize = 0;
        while i < self.runs.len()
            invariant
                self.wf(),
                candidate.wf(),
                i <= self.runs@.len(),
                forall|k: int| 0 <= k < i ==> !candidate.overlaps(#[trigger] self.runs@[k]),
            decreases self.runs@.len() - i,
        {
            let run: PageRun = self.runs[i];
            assert(self.runs()[i as int].wf());
            if candidate.start < run.end_address() && run.start < candidate.end_address() {
                return true;
            }
            i += 1;
        }
        false
    }

    fn enter(&mut self, allocation: Allocation)
        requires
            old(self).wf(),
            allocation.wf(),
            !any_conflicts(old(self).live(), allocation),
        ensures
            final(self).wf(),
            final(self).runs() == old(self).runs(),
            final(self).live() == old(self).live().push(allocation),
    {
        self.live.push(allocation);
        proof {
            let before = old(self).live();
            let after = self.live();
            assert forall|i: int, j: int| 0 <= i < j < after.len() implies !(#[trigger] after[i]).conflicts(
                #[trigger] after[j],
            ) by {
                if j == before.len() {
                    assert(!allocation.conflicts(before[i]));
                } else {
                    assert(after[i] == before[i] && after[j] == before[j]);
                }
            }
            assert forall|i: int| 0 <= i < after.len() implies (#[trigger] after[i]).wf() by {
                if i < before.len() {
                    assert(after[i] == before[i]);
                }
            }
            assert(self.runs() == old(self).runs());
        }
    }

    /// Allocate memory at a specific position: the first step.
    ///
    /// Where the range lies in pages that we hold already, the allocation is
    /// made at once. Else the answer names the pages that the firmware has to
    /// grant at their exact address; report the answer to [`Self::granted`] or
    /// to [`Self::refused`].
    ///
    /// A range that shares a byte with a live allocation is a fault of the
    /// caller. It is answered with `Refused`, which stands for a panic, and
    /// the books stay as they are. Ranges that only touch end to end are
    /// fine.
    pub fn new_at(&mut self, address: u64, size: u64) -> (r: NewAt)
        requires
            old(self).wf(),
        ensures
            final(self).wf(),
            r matches NewAt::Ready(allocation) ==> allocation.wf() && allocation.placed_for(address),
            final(self).runs() == old(self).runs(),
            !request_in_bounds(address as int, size as int) || any_touches(
                old(self).live(),
                address as int,
                size as int,
            ) ==> r == NewAt::Refused && final(self).live() == old(self).live(),
            request_in_bounds(address as int, size as int) && !any_touches(
                old(self).live(),
                address as int,
                size as int,
            ) ==> match placement_of(old(self).runs(), address as int, size as int) {
                Placement::Inside => r == NewAt::Ready(
                    Allocation { ptr: address, len: size, should_be_at: None },
                ) && final(self).live() == old(self).live().push(
                    Allocation { ptr: address, len: size, should_be_at: None },
                ),
                Placement::Pages { start, pages } => r == (NewAt::Ask { start, pages })
                    && final(self).live() == old(self).live(),
            },
    {
        if !request_fits(address, size) {
            return NewAt::Refused;
        }
        if self.touched(address, size) {
            return NewAt::Refused;
        }
        match self.placement(address, size) {
            Placement::Inside => {
                let allocation = Allocation { ptr: address, len: size, should_be_at: None };
                proof {
                    assert forall|i: int| 0 <= i < self.live().len() implies !allocation.conflicts(
                        #[trigger] self.live()[i],
                    ) by {
                        assert(!self.live()[i].touches(address as int, size as int));
                    }
                }
                self.enter(allocation);
                NewAt::Ready(allocation)
            },
            Placement::Pages { start, pages } => NewAt::Ask { start, pages },
        }
    }

    /// Allocate memory at a specific position: the firmware has granted the
    /// pages that [`Self::new_at`] asked for.
    ///
    /// The grant is entered into the books and the allocation is made. This
    /// fails with `LoadError`, and changes nothing, where the request is not
    /// one that `new_at` answers with `Ask`, or where the pages are in our
    /// books already.
    pub fn granted(&mut self, address: u64, size: u64) -> (r: Result<Allocation, Status>)
        requires
            old(self).wf(),
        ensures
            final(self).wf(),
            r matches Ok(allocation) ==> allocation.wf() && allocation.placed_for(address),
            r is Ok <==> (request_in_bounds(address as int, size as int) && !any_touches(
                old(self).live(),
                address as int,
                size as int,
            ) && (placement_of(old(self).runs(), address as int, size as int) matches Placement::Pages {
                start,
                pages,
            } && !any_overlaps(old(self).runs(), PageRun { start, pages }))),
            r matches Ok(allocation) ==> allocation == (Allocation {
                ptr: address,
                len: size,
                should_be_at: None,
            }) && final(self).live() == old(self).live().push(allocation) && (placement_of(
                old(self).runs(),
                address as int,
                size as int,
            ) matches Placement::Pages { start, pages } && final(self).runs() == old(
                self,
            ).runs().push(PageRun { start, pages })),
            r matches Err(e) ==> e == Status::LoadError && final(self).live() == old(self).live()
                && final(self).runs() == old(self).runs(),
    {
        if !request_fits(address, size) {
            return Err(Status::LoadError);
        }
        if self.touched(address, size) {
            return Err(Status::LoadError);
        }
        match self.placement(address, size) {
            Placement::Inside => Err(Status::LoadError),
            Placement::Pages { start, pages } => {
                let run = PageRun { start, pages };
                if self.run_overlaps(&run) {
                    return Err(Status::LoadError);
                }
                let allocation = Allocation { ptr: address, len: size, should_be_at: None };
                proof {
                    assert forall|i: int| 0 <= i < self.live().len() implies !allocation.conflicts(
                        #[trigger] self.live()[i],
                    ) by {
                        assert(!self.live()[i].touches(address as int, size as int));
                    }
                }
                self.runs.push(run);
                proof {
                    let before = old(self).runs();
                    let after = self.runs();
                    assert forall|i: int, j: int| 0 <= i < j < after.len() implies !(#[trigger] after[i]).overlaps(
                        #[trigger] after[j],
                    ) by {
                        if j == before.len() {
                            assert(!run.overlaps(before[i]));
                        }
                    }
                }
                self.enter(allocation);
                Ok(allocation)
            },
        }
    }

    /// Allocate memory at a specific position: the firmware has refused the
    /// pages that [`Self::new_at`] asked for.
    ///
    /// `memory_map` is the firmware's memory map as it is now. If the
    /// allocation is only blocked by our code or data, or by that of the Boot
    /// Services when they are going to be exited, or if `ForceOverwrite` is
    /// set, the memory is to be allocated somewhere below 4 GB and moved
    /// later: the answer says what to ask the firmware for, and its answer
    /// goes to [`Self::relocated`]. Else this fails with `LoadError`.
    pub fn refused(
        &self,
        address: u64,
        size: u64,
        memory_map: &Vec<MemoryDescriptor>,
        quirks: &QuirkSet,
        should_exit_boot_services: bool,
    ) -> (r: Result<Relocation, Status>)
        ensures
            r is Ok <==> (request_in_bounds(address as int, size as int) && (quirks@.contains(
                Quirk::ForceOverwrite,
            ) || !blocked(memory_map@, address as int, size as int, should_exit_boot_services))),
            r matches Ok(relocation) ==> relocation.request == (PageRequest::MaxAddress {
                max: MAX_ADDRESS_4GB,
                pages: pages_for(size as int) as u64,
            }) && relocation.forced == blocked(
                memory_map@,
                address as int,
                size as int,
                should_exit_boot_services,
            ),
            r matches Err(e) ==> e == Status::LoadError,
    {
        if !request_fits(address, size) {
            return Err(Status::LoadError);
        }
        let is_blocked: bool = something_important_in_the_way(
            memory_map,
            address,
            size,
            should_exit_boot_services,
        );
        if is_blocked && !quirks.contains(Quirk::ForceOverwrite) {
            return Err(Status::LoadError);
        }
        proof {
            lemma_pages_for(size as int);
        }
        Ok(
            Relocation {
                request: PageRequest::MaxAddress {
                    max: MAX_ADDRESS_4GB,
                    pages: Allocation::calculate_page_count(size),
                },
                forced: is_blocked,
            },
        )
    }

    /// Allocate memory at a specific position: the firmware has answered the
    /// request that [`Self::refused`] made.
    ///
    /// `granted` is the address of the pages, or `None` if there were none to
    /// be had. The allocation lives there and remembers that it should be at
    /// `address`. This fails with `LoadError`, and changes nothing, where the
    /// firmware had no memory, where its answer is not what was asked for, or
    /// where the memory or the address is claimed by a live allocation.
    pub fn relocated(&mut self, address: u64, size: u64, granted: Option<u64>) -> (r: Result<
        Allocation,
        Status,
    >)
        requires
            old(self).wf(),
        ensures
            final(self).wf(),
            r matches Ok(allocation) ==> allocation.wf() && allocation.placed_for(address),
            r is Ok <==> (request_in_bounds(address as int, size as int) && (granted matches Some(
                ptr,
            ) && grant_fits(ptr as int, size as int, MAX_ADDRESS_4GB as int) && !any_overlaps(
                old(self).runs(),
                PageRun { start: ptr, pages: pages_for(size as int) as u64 },
            ) && !any_conflicts(
                old(self).live(),
                Allocation { ptr, len: size, should_be_at: Some(address) },
            ))),
            r matches Ok(allocation) ==> allocation == (Allocation {
                ptr: granted.unwrap(),
                len: size,
                should_be_at: Some(address),
            }) && final(self).live() == old(self).live().push(allocation) && final(self).runs()
                == old(self).runs().push(
                PageRun { start: granted.unwrap(), pages: pages_for(size as int) as u64 },
            ),
            r matches Err(e) ==> e == Status::LoadError && final(self).live() == old(self).live()
                && final(self).runs() == old(self).runs(),
    {
        if !request_fits(address, size) {
            return Err(Status::LoadError);
        }
        self.place_below(size, MAX_ADDRESS_4GB, granted, Some(address))
    }

    /// Enters pages that the firmware has granted anywhere at or below `max`
    /// into the books, and the allocation of `size` bytes at their start.
    fn place_below(
        &mut self,
        size: u64,
        max: u64,
        granted: Option<u64>,
        should_be_at: Option<u64>,
    ) -> (r: Result<Allocation, Status>)
        requires
            old(self).wf(),
            size > 0,
            max <= MAX_ADDRESS_4GB,
            should_be_at matches Some(target) ==> target + size <= u64::MAX,
        ensures
            final(self).wf(),
            r matches Ok(allocation) ==> allocation.wf() && allocation.ptr % PAGE_SIZE == 0 && allocation.ptr + allocation.len - 1 <= max,
            r is Ok <==> (granted matches Some(ptr) && grant_fits(
                ptr as int,
                size as int,
                max as int,
            ) && !any_overlaps(
                old(self).runs(),
                PageRun { start: ptr, pages: pages_for(size as int) as u64 },
            ) && !any_conflicts(old(self).live(), Allocation { ptr, len: size, should_be_at })),
            r matches Ok(allocation) ==> allocation == (Allocation {
                ptr: granted.unwrap(),
                len: size,
                should_be_at,
            }) && final(self).live() == old(self).live().push(allocation) && final(self).runs()
                == old(self).runs().push(
                PageRun { start: granted.unwrap(), pages: pages_for(size as int) as u64 },
            ),
            r matches Err(e) ==> e == Status::LoadError && final(self).live() == old(self).live()
                && final(self).runs() == old(self).runs(),
    {
        let ptr: u64 = match granted {
            Some(ptr) => ptr,
            None => {
                return Err(Status::LoadError);
            },
        };
        proof {
            lemma_pages_for(size as int);
        }
        let pages: u64 = Allocation::calculate_page_count(size);
        if ptr == 0 || ptr % PAGE_SIZE != 0 || ptr > max || pages > (max - ptr + 1) / PAGE_SIZE {
            assert(!grant_fits(ptr as int, size as int, max as int));
            return Err(Status::LoadError);
        }
        assert(grant_fits(ptr as int, size as int, max as int));
        let run = PageRun { start: ptr, pages };
        let allocation = Allocation { ptr, len: size, should_be_at };
        if self.run_overlaps(&run) || self.in_conflict(&allocation) {
            return Err(Status::LoadError);
        }
        self.runs.push(run);
        proof {
            let before = old(self).runs();
            let after = self.runs();
            assert forall|i: int, j: int| 0 <= i < j < after.len() implies !(#[trigger] after[i]).overlaps(
                #[trigger] after[j],
            ) by {
                if j == before.len() {
                    assert(!run.overlaps(before[i]));
                }
            }
        }
        self.enter(allocation);
        Ok(allocation)
    }

    /// What `new_under_4gb` needs from the firmware: whole pages for `size`
    /// bytes, below 200 MB if `ModulesBelow200Mb` is set and below 4 GB else.
    pub fn request_under_4gb(size: u64, quirks: &QuirkSet) -> (r: PageRequest)
        ensures
            r == (PageRequest::MaxAddress {
                max: max_address_for(quirks@),
                pages: pages_for(size as int) as u64,
            }),
    {
        proof {
            lemma_pages_for(size as int);
        }
        PageRequest::MaxAddress {
            max: if quirks.contains(Quirk::ModulesBelow200Mb) {
                MAX_ADDRESS_200MB
            } else {
                MAX_ADDRESS_4GB
            },
            pages: Allocation::calculate_page_count(size),
        }
    }

    /// Allocate memory page-aligned below 4GB.
    ///
    /// `granted` is the firmware's answer to [`Self::request_under_4gb`]: the
    /// address of the pages, or `None` if there were none to be had. This
    /// fails with `LoadError`, and changes nothing, where nothing was asked
    /// for, where the firmware had no memory, where its answer is not what
    /// was asked for, or where the memory is claimed by a live allocation.
    pub fn new_under_4gb(&mut self, size: u64, quirks: &QuirkSet, granted: Option<u64>) -> (r:
        Result<Allocation, Status>)
        requires
            old(self).wf(),
        ensures
            final(self).wf(),
            r matches Ok(allocation) ==> allocation.wf() && allocation.ptr % PAGE_SIZE == 0 && allocation.ptr + allocation.len - 1 <= max_address_for(quirks@),
            r is Ok <==> (size > 0 && (granted matches Some(ptr) && grant_fits(
                ptr as int,
                size as int,
                max_address_for(quirks@) as int,
            ) && !any_overlaps(
                old(self).runs(),
                PageRun { start: ptr, pages: pages_for(size as int) as u64 },
            ) && !any_conflicts(
                old(self).live(),
                Allocation { ptr, len: size, should_be_at: None },
            ))),
            r matches Ok(allocation) ==> allocation == (Allocation {
                ptr: granted.unwrap(),
                len: size,
                should_be_at: None,
            }) && final(self).live() == old(self).live().push(allocation) && final(self).runs()
                == old(self).runs().push(
                PageRun { start: granted.unwrap(), pages: pages_for(size as int) as u64 },
            ),
            r matches Err(e) ==> e == Status::LoadError && final(self).live() == old(self).live()
                && final(self).runs() == old(self).runs(),
    {
        if size == 0 {
            return Err(Status::LoadError);
        }
        let max: u64 = if quirks.contains(Quirk::ModulesBelow200Mb) {
            MAX_ADDRESS_200MB
        } else {
            MAX_ADDRESS_4GB
        };
        self.place_below(size, max, granted, None)
    }
}

/// Whether the memory map shows something in the way of
/// `[address, address + size)` that must not be overwritten.
pub fn something_important_in_the_way(
    memory_map: &Vec<MemoryDescriptor>,
    address: u64,
    size: u64,
    should_exit_boot_services: bool,
) -> (r: bool)
    ensures
        r == blocked(memory_map@, address as int, size as int, should_exit_boot_services),
{
    let mut i: usize = 0;
    while i < memory_map.len()
        invariant
            i <= memory_map@.len(),
            forall|k: int|
                0 <= k < i ==> !(in_the_way(#[trigger] memory_map@[k], address as int, size as int)
                    && !is_expendable(memory_map@[k].ty, should_exit_boot_services)),
        decreases memory_map@.len() - i,
    {
        let entry: MemoryDescriptor = memory_map[i];
        if stands_in_the_way(&entry, address, size) && !expendable(
            entry.ty,
            should_exit_boot_services,
        ) {
            return true;
        }
        i += 1;
    }
    false
}

/// Whether a memory map entry lies in the way of `[address, address + size)`.
pub fn stands_in_the_way(entry: &MemoryDescriptor, address: u64, size: u64) -> (r: bool)
    ensures
        r == in_the_way(*entry, address as int, size as int),
{
    // if it's after the space we need, ignore it
    // (nothing begins behind the address space)
    let begins_behind: bool = match address.checked_add(size) {
        Some(end) => entry.phys_start >= end,
        None => false,
    };
    if begins_behind {
        return false;
    }
    // if it's before the space we need, ignore it
    // (what ends behind the address space does not end before the address)
    let ends_before: bool = match entry.page_count.checked_mul(PAGE_SIZE) {
        Some(bytes) => match entry.phys_start.checked_add(bytes) {
            Some(end) => end <= address,
            None => false,
        },
        None => false,
    };
    if ends_before {
        return false;
    }
    // if it's empty, ignore it
    match entry.ty {
        MemoryType::Conventional => false,
        _ => true,
    }
}

/// Whether memory of this type may be overwritten once the kernel runs.
pub fn expendable(ty: MemoryType, should_exit_boot_services: bool) -> (r: bool)
    ensures
        r == is_expendable(ty, should_exit_boot_services),
{
    match ty {
        MemoryType::LoaderCode => true,
        MemoryType::LoaderData => true,
        MemoryType::BootServicesCode => should_exit_boot_services,
        MemoryType::BootServicesData => should_exit_boot_services,
        _ => false,
    }
}


/// An allocation after it has been moved to where it should be, and what the
/// caller has to copy for that.
#[derive(Clone, Copy, Debug, PartialEq, Eq, Structural)]
pub struct Moved {
    /// the allocation as it is from now on
    pub allocation: Allocation,
    /// the bytes to copy; the ranges may overlap, so copy as `memmove` does
    pub copy: Option<Move>,
}

/// Whether the region holds all of `[start, start + len)`.
pub open spec fn covers(region: MemoryRegion, start: int, len: int) -> bool {
    region.base <= start && region.base + region.length >= start + len
}

/// The regions of the memory map that hold all of `[start, start + len)`.
pub open spec fn covering(memory_map: Seq<MemoryRegion>, start: int, len: int) -> Seq<MemoryRegion> {
    memory_map.filter(|region: MemoryRegion| covers(region, start, len))
}

/// Whether `[start, start + len)` may be written to: the memory map has
/// exactly one region that holds it, and that region is available.
pub open spec fn destination_available(memory_map: Seq<MemoryRegion>, start: int, len: int) -> bool {
    covering(memory_map, start, len).len() == 1 && covering(memory_map, start, len)[0].ty
        == RegionType::Available
}

/// Whether a live allocation has a byte in the run.
pub open spec fn run_in_use(run: PageRun, live: Seq<Allocation>) -> bool {
    exists|i: int|
        0 <= i < live.len() && ranges_overlap(
            (#[trigger] live[i]).ptr as int,
            live[i].len as int,
            run.start as int,
            run.pages * PAGE_SIZE,
        )
}

impl Allocation {
    /// The allocation once it has been moved to where it should be.
    pub open spec fn settled(self) -> Allocation {
        Allocation {
            ptr: match self.should_be_at {
                Some(target) => target,
                None => self.ptr,
            },
            len: self.len,
            should_be_at: None,
        }
    }
}

/// Whether the memory map allows writing to `[start, start + len)`.
pub fn may_write_to(memory_map: &Vec<MemoryRegion>, start: u64, len: u64) -> (r: bool)
    ensures
        r == destination_available(memory_map@, start as int, len as int),
{
    let mut count: usize = 0;
    let mut available: bool = false;
    let mut i: usize = 0;
    let ghost pred = |region: MemoryRegion| covers(region, start as int, len as int);
    assert(memory_map@.subrange(0, 0) == Seq::<MemoryRegion>::empty());
    while i < memory_map.len()
        invariant
            pred == |region: MemoryRegion| covers(region, start as int, len as int),
            i <= memory_map@.len(),
            count <= i,
            count == memory_map@.subrange(0, i as int).filter(pred).len(),
            count > 0 ==> available == (memory_map@.subrange(0, i as int).filter(pred)[0].ty
                == RegionType::Available),
        decreases memory_map@.len() - i,
    {
        let region: MemoryRegion = memory_map[i];
        proof {
            let prefix = memory_map@.subrange(0, i as int);
            assert(memory_map@.subrange(0, i + 1) == prefix.push(region));
            prefix.lemma_filter_push(region, pred);
        }
        if region.base <= start && region.length >= len && start - region.base <= region.length
            - len {
            assert(covers(region, start as int, len as int));
            if count == 0 {
                available =
                match region.ty {
                    RegionType::Available => true,
                    _ => false,
                };
            }
            count += 1;
        } else {
            assert(!covers(region, start as int, len as int));
        }
        i += 1;
    }
    assert(memory_map@.subrange(0, i as int) == memory_map@);
    count == 1 && available
}

impl Allocator {
    fn position(&self, allocation: &Allocation) -> (r: Option<usize>)
        requires
            self.wf(),
        ensures
            r is Some == self.live().contains(*allocation),
            r matches Some(i) ==> i < self.live().len() && self.live()[i as int] == *allocation
                && i == self.live().index_of(*allocation),
    {
        let mut i: usize = 0;
        while i < self.live.len()
            invariant
                self.wf(),
                i <= self.live@.len(),
                forall|k: int| 0 <= k < i ==> self.live@[k] != *allocation,
            decreases self.live@.len() - i,
        {
            let a: Allocation = self.live[i];
            if a.ptr == allocation.ptr && a.len == allocation.len && a.should_be_at
                == allocation.should_be_at {
                proof {
                    let live = self.live();
                    assert(live[i as int] == *allocation);
                    let c = live.index_of(*allocation);
                    assert(0 <= c < live.len() && live[c] == *allocation);
                    if c != i {
                        assert(live[c].wf());
                        assert(live[c].conflicts(live[i as int]));
                        if c < i {
                            assert(!live[c].conflicts(live[i as int]));
                        } else {
                            assert(!live[i as int].conflicts(live[c]));
                        }
                    }
                }
                return Some(i);
            }
            i += 1;
        }
        None
    }

    /// Move to the desired location.
    ///
    /// In the worst case this overwrites ourselves, our variables, firmware
    /// code, firmware data or ACPI memory, so this must only be called once
    /// the final memory map is known, and it looks there first: unless
    /// `ForceOverwrite` is set, the destination has to lie in one region,
    /// which has to be available, or this fails with `LoadError`. It fails
    /// with `InvalidParameter` for an allocation that is not alive. The books
    /// are updated; the copy itself is left to the caller.
    ///
    /// Either error stands for a panic: there is nothing left to do then but
    /// to stop. Nothing is to be copied, and the books stay as they are.
    pub fn move_to_where_it_should_be(
        &mut self,
        allocation: &Allocation,
        memory_map: &Vec<MemoryRegion>,
        quirks: &QuirkSet,
    ) -> (r: Result<Moved, Status>)
        requires
            old(self).wf(),
        ensures
            final(self).wf(),
            final(self).runs() == old(self).runs(),
            !old(self).live().contains(*allocation) ==> r == Err::<Moved, Status>(
                Status::InvalidParameter,
            ) && final(self).live() == old(self).live(),
            old(self).live().contains(*allocation) ==> match allocation.should_be_at {
                None => r == Ok::<Moved, Status>(Moved { allocation: *allocation, copy: None })
                    && final(self).live() == old(self).live(),
                Some(target) => if quirks@.contains(Quirk::ForceOverwrite) || destination_available(
                    memory_map@,
                    target as int,
                    allocation.len as int,
                ) {
                    r == Ok::<Moved, Status>(
                        Moved {
                            allocation: allocation.settled(),
                            copy: Some(
                                Move { from: allocation.ptr, to: target, len: allocation.len },
                            ),
                        },
                    ) && final(self).live() == old(self).live().update(
                        old(self).live().index_of(*allocation),
                        allocation.settled(),
                    )
                } else {
                    r == Err::<Moved, Status>(Status::LoadError) && final(self).live() == old(
                        self,
                    ).live()
                },
            },
    {
        let index: usize = match self.position(allocation) {
            Some(index) => index,
            None => {
                return Err(Status::InvalidParameter);
            },
        };
        assert(allocation.wf());
        let target: u64 = match allocation.should_be_at {
            Some(target) => target,
            None => {
                return Ok(Moved { allocation: *allocation, copy: None });
            },
        };
        if !quirks.contains(Quirk::ForceOverwrite) && !may_write_to(
            memory_map,
            target,
            allocation.len,
        ) {
            return Err(Status::LoadError);
        }
        let settled = Allocation { ptr: target, len: allocation.len, should_be_at: None };
        self.live[index] = settled;
        proof {
            let before = old(self).live();
            let after = self.live();
            assert(after == before.update(index as int, settled));
            assert(self.runs() == old(self).runs());
            assert forall|i: int| 0 <= i < after.len() implies (#[trigger] after[i]).wf() by {
                if i != index {
                    assert(after[i] == before[i]);
                }
            }
            assert forall|i: int, j: int| 0 <= i < j < after.len() implies !(#[trigger] after[i]).conflicts(
                #[trigger] after[j],
            ) by {
                assert(!before[i].conflicts(before[j]));
                if i != index && j != index {
                    assert(after[i] == before[i] && after[j] == before[j]);
                }
            }
        }
        Ok(
            Moved {
                allocation: settled,
                copy: Some(Move { from: allocation.ptr, to: target, len: allocation.len }),
            },
        )
    }

    fn in_use(&self, run: &PageRun) -> (r: bool)
        requires
            self.wf(),
            run.wf(),
        ensures
            r == run_in_use(*run, self.live()),
    {
        let mut i: usize = 0;
        while i < self.live.len()
            invariant
                self.wf(),
                run.wf(),
                i <= self.live@.len(),
                forall|k: int|
                    0 <= k < i ==> !ranges_overlap(
                        (#[trigger] self.live@[k]).ptr as int,
                        self.live@[k].len as int,
                        run.start as int,
                        run.pages * PAGE_SIZE,
                    ),
            decreases self.live@.len() - i,
        {
            let a: Allocation = self.live[i];
            assert(self.live()[i as int].wf());
            if a.ptr < run.end_address() && run.start < a.ptr + a.len {
                return true;
            }
            i += 1;
        }
        false
    }

    /// Gives an allocation up.
    ///
    /// The answer is `None`, and nothing changes, where the allocation is not
    /// alive. Else it is struck from the books, and the answer lists the page
    /// runs in which no live allocation is left: they are ours no longer, and
    /// the caller has to return them to the firmware.
    pub fn free(&mut self, allocation: &Allocation) -> (r: Option<Vec<PageRun>>)
        requires
            old(self).wf(),
        ensures
            final(self).wf(),
            r is Some == old(self).live().contains(*allocation),
            r is None ==> final(self).live() == old(self).live() && final(self).runs() == old(
                self,
            ).runs(),
            r matches Some(freed) ==> {
                &&& final(self).live() == old(self).live().remove(
                    old(self).live().index_of(*allocation),
                )
                &&& final(self).runs() == old(self).runs().filter(
                    |run: PageRun| run_in_use(run, final(self).live()),
                )
                &&& freed@ == old(self).runs().filter(
                    |run: PageRun| !run_in_use(run, final(self).live()),
                )
            },
    {
        let index: usize = match self.position(allocation) {
            Some(index) => index,
            None => {
                return None;
            },
        };
        self.live.remove(index);
        proof {
            let before = old(self).live();
            let after = self.live();
            assert(after == before.remove(index as int));
            assert(self.runs() == old(self).runs());
            assert forall|i: int| 0 <= i < after.len() implies (#[trigger] after[i]).wf() by {
                if i < index {
                    assert(after[i] == before[i]);
                } else {
                    assert(after[i] == before[i + 1]);
                }
            }
            assert forall|i: int, j: int| 0 <= i < j < after.len() implies !(#[trigger] after[i]).conflicts(
                #[trigger] after[j],
            ) by {
                let p = if i < index {
                    i
                } else {
                    i + 1
                };
                let q = if j < index {
                    j
                } else {
                    j + 1
                };
                assert(after[i] == before[p] && after[j] == before[q]);
                assert(!before[p].conflicts(before[q]));
            }
        }
        let mut kept: Vec<PageRun> = Vec::new();
        let mut freed: Vec<PageRun> = Vec::new();
        let ghost used = |run: PageRun| run_in_use(run, self.live());
        let ghost unused = |run: PageRun| !run_in_use(run, self.live());
        let ghost mut origin: Seq<int> = Seq::empty();
        let mut i: usize = 0;
        assert(self.runs@.subrange(0, 0) == Seq::<PageRun>::empty());
        while i < self.runs.len()
            invariant
                self.wf(),
                self.runs() == old(self).runs(),
                used == |run: PageRun| run_in_use(run, self.live()),
                unused == |run: PageRun| !run_in_use(run, self.live()),
                i <= self.runs@.len(),
                kept@ == self.runs@.subrange(0, i as int).filter(used),
                freed@ == self.runs@.subrange(0, i as int).filter(unused),
                origin.len() == kept@.len(),
                forall|k: int|
                    0 <= k < origin.len() ==> 0 <= #[trigger] origin[k] < i && kept@[k]
                        == self.runs@[origin[k]],
                forall|k: int, l: int|
                    0 <= k < l < origin.len() ==> #[trigger] origin[k] < #[trigger] origin[l],
            decreases self.runs@.len() - i,
        {
            let run: PageRun = self.runs[i];
            proof {
                let prefix = self.runs@.subrange(0, i as int);
                assert(self.runs@.subrange(0, i + 1) == prefix.push(run));
                prefix.lemma_filter_push(run, used);
                prefix.lemma_filter_push(run, unused);
                assert(self.runs()[i as int].wf());
            }
            if self.in_use(&run) {
                kept.push(run);
                proof {
                    origin = origin.push(i as int);
                }
            } else {
                freed.push(run);
            }
            i += 1;
        }
        assert(self.runs@.subrange(0, i as int) == self.runs@);
        proof {
            let before = self.runs();
            assert forall|k: int| 0 <= k < kept@.len() implies (#[trigger] kept@[k]).wf() by {
                assert(before[origin[k]].wf());
            }
            assert forall|k: int, l: int| 0 <= k < l < kept@.len() implies !(#[trigger] kept@[k]).overlaps(
                #[trigger] kept@[l],
            ) by {
                assert(origin[k] < origin[l]);
                assert(!before[origin[k]].overlaps(before[origin[l]]));
            }
        }
        self.runs = kept;
        Some(freed)
    }
}

/// An allocation that `new_at` has made for an address lives at that address
/// once it has been moved to where it should be; until then it lives either
/// there already or on a page boundary below 4 GB.
pub proof fn lemma_placed_allocation_settles(allocation: Allocation, address: u64)
    requires
        allocation.wf(),
        allocation.placed_for(address),
    ensures
        allocation.settled().ptr == address,
        allocation.settled().should_be_at is None,
        allocation.settled().placed_for(address),
        allocation.ptr == address || (allocation.ptr % PAGE_SIZE == 0 && allocation.ptr
            < 0x1_0000_0000),
{
}

/// The firmware's answer to a request below a limit puts every byte of the
/// allocation at or below the limit.
pub proof fn lemma_grant_stays_below(ptr: u64, size: u64, max: u64)
    requires
        size > 0,
        grant_fits(ptr as int, size as int, max as int),
    ensures
        ptr + size - 1 <= max,
        ptr % PAGE_SIZE == 0,
{
    lemma_pages_for(size as int);
}

/// No two allocations that are alive at the same time hold the same byte,
/// and none lives where another is still to be moved to.
pub proof fn lemma_live_allocations_are_disjoint(allocator: Allocator, i: int, j: int)
    requires
        allocator.wf(),
        0 <= i < allocator.live().len(),
        0 <= j < allocator.live().len(),
        i != j,
    ensures
        !ranges_overlap(
            allocator.live()[i].ptr as int,
            allocator.live()[i].len as int,
            allocator.live()[j].ptr as int,
            allocator.live()[j].len as int,
        ),
        !allocator.live()[i].conflicts(allocator.live()[j]),
{
    let live = allocator.live();
    if i < j {
        assert(!live[i].conflicts(live[j]));
    } else {
        assert(!live[j].conflicts(live[i]));
    }
}

} // verus!
