//! This module handles the actual boot and related stuff.
//!
//! This means: loading kernel and modules, making the information for the
//! kernel, and at last moving everything to its place and saying how to
//! jump.
use vstd::prelude::*;
use crate::config::Entry;
use crate::elf::LoadedSegment;
use crate::info::{
    can_prepare, is_information_for, prepare_multiboot_information, symbols_info, symbols_struct,
    InfoBuilder, Information, SymbolsInfo,
};
use crate::kernel::{
    is_loaded_kernel, kernel_loadable, lemma_loaded_where_loadable, Arch, KernelHeader,
    LoadedKernel,
};
use crate::machine::{address_of, can_jump, jump, steps_for, Handoff};
use crate::mem::{destination_available, Allocation, Allocator, MemoryDescriptor, Move};
use crate::memory_map::{
    all_in_bounds, merged, upper_memory_kb, MemoryRegion, LOWER_MEMORY_KB,
};
use crate::quirk::{Quirk, QuirkSet};
use crate::status::Status;
use crate::video::FramebufferInfo;

verus! {

/// An entry that is ready to be booted.
#[derive(Debug)]
pub struct PreparedEntry {
    pub loaded_kernel: LoadedKernel,
    pub multiboot_information: InfoBuilder,
    pub modules_vec: Vec<Allocation>,
    /// the quirks of the entry
    pub quirks: QuirkSet,
}

/// What is left to do to boot: what to copy where, and how to jump.
#[derive(Debug)]
pub struct Boot {
    /// the information for the kernel
    pub information: Information,
    /// the segments of the kernel, each where it should be
    pub kernel: Vec<LoadedSegment>,
    /// what to copy, in this order, to bring the kernel there
    pub moves: Vec<Move>,
    /// how to enter the kernel
    pub handoff: Handoff,
}

/// What has to be copied for the first `n` of the allocations to be where
/// they should be.
pub open spec fn pending_moves(allocations: Seq<Allocation>, n: nat) -> Seq<Move>
    decreases n,
{
    if n == 0 {
        Seq::empty()
    } else {
        match allocations[n - 1].should_be_at {
            Some(target) => pending_moves(allocations, (n - 1) as nat).push(
                Move { from: allocations[n - 1].ptr, to: target, len: allocations[n - 1].len },
            ),
            None => pending_moves(allocations, (n - 1) as nat),
        }
    }
}

/// Whether an allocation can be moved to where it should be: it is alive,
/// and it is where it should be already, or the place where it should be may
/// be written to.
pub open spec fn can_settle(
    live: Seq<Allocation>,
    allocation: Allocation,
    memory_map: Seq<MemoryRegion>,
    quirks: Set<Quirk>,
) -> bool {
    &&& live.contains(allocation)
    &&& allocation.should_be_at matches Some(target) ==> quirks.contains(Quirk::ForceOverwrite)
        || destination_available(memory_map, target as int, allocation.len as int)
}

/// The live allocations after the first `n` of the given allocations have
/// been moved to where they should be, one after the other; `None` if one
/// of them cannot be moved.
pub open spec fn settled_all(
    live: Seq<Allocation>,
    allocations: Seq<Allocation>,
    memory_map: Seq<MemoryRegion>,
    quirks: Set<Quirk>,
    n: nat,
) -> Option<Seq<Allocation>>
    decreases n,
{
    if n == 0 {
        Some(live)
    } else {
        match settled_all(live, allocations, memory_map, quirks, (n - 1) as nat) {
            Some(before) => if can_settle(before, allocations[n - 1], memory_map, quirks) {
                Some(
                    match allocations[n - 1].should_be_at {
                        Some(_) => before.update(
                            before.index_of(allocations[n - 1]),
                            allocations[n - 1].settled(),
                        ),
                        None => before,
                    },
                )
            } else {
                None
            },
            None => None,
        }
    }
}

/// Where one allocation cannot be moved, moving more of them does not help.
pub proof fn lemma_settling_stays_failed(
    live: Seq<Allocation>,
    allocations: Seq<Allocation>,
    memory_map: Seq<MemoryRegion>,
    quirks: Set<Quirk>,
    m: int,
    n: nat,
)
    requires
        0 <= m <= n,
        settled_all(live, allocations, memory_map, quirks, m as nat) is None,
    ensures
        settled_all(live, allocations, memory_map, quirks, n) is None,
    decreases n,
{
    if m < n {
        lemma_settling_stays_failed(live, allocations, memory_map, quirks, m, (n - 1) as nat);
    }
}

/// The allocations of the segments.
pub open spec fn allocations_of(segments: Seq<LoadedSegment>) -> Seq<Allocation> {
    Seq::new(segments.len(), |i: int| segments[i].allocation)
}

impl PreparedEntry {
    /// Prepare an entry for boot.
    ///
    /// What this means:
    /// 1. the kernel is loaded into the memory that has been allocated for
    ///    it, `kernel_allocations`
    /// 2. the information for the kernel is collected, with the modules in
    ///    `modules_vec` and the framebuffer
    ///
    /// Return a `PreparedEntry` which can be used to actually boot.
    /// This is non-destructive and will always return.
    pub fn new(
        entry: &Entry,
        kernel: &[u8],
        header: &KernelHeader,
        arch: Arch,
        kernel_allocations: &Vec<Allocation>,
        symbol_base: u64,
        modules_vec: Vec<Allocation>,
        framebuffer: Option<FramebufferInfo>,
        system_table: u64,
        image_handle: u64,
        name: &str,
        version: &str,
    ) -> (r: Result<PreparedEntry, Status>)
        ensures
            r matches Err(e) ==> e == Status::LoadError || e == Status::Unsupported,
            r is Ok <==> kernel_loadable(
                kernel@,
                *header,
                entry.quirks@,
                arch,
                kernel_allocations@,
                symbol_base,
            ) && can_prepare(*entry, modules_vec@, arch, system_table, image_handle),
            r matches Ok(prepared) ==> {
                &&& prepared.modules_vec == modules_vec
                &&& prepared.quirks == entry.quirks
                &&& prepared.loaded_kernel.symbols is None
                &&& exists|loaded: LoadedKernel|
                    {
                        &&& #[trigger] is_loaded_kernel(
                            Ok::<LoadedKernel, Status>(loaded),
                            kernel@,
                            *header,
                            entry.quirks@,
                            arch,
                            kernel_allocations@,
                            symbol_base,
                        )
                        &&& prepared.loaded_kernel.allocations == loaded.allocations
                        &&& prepared.loaded_kernel.entry_point == loaded.entry_point
                        &&& prepared.loaded_kernel.load_base_address == loaded.load_base_address
                        &&& prepared.loaded_kernel.should_exit_boot_services
                            == loaded.should_exit_boot_services
                        &&& is_information_for(
                            prepared.multiboot_information,
                            *entry,
                            loaded.load_base_address,
                            modules_vec@,
                            match loaded.symbols {
                                Some(symbols) => Some(symbols_info(symbols)),
                                None => None,
                            },
                            framebuffer,
                            arch,
                            system_table,
                            image_handle,
                            !entry.quirks@.contains(Quirk::DontExitBootServices),
                            name@,
                            version@,
                        )
                    }
            },
    {
        let mut loaded_kernel: LoadedKernel = match LoadedKernel::new(
            kernel,
            header,
            &entry.quirks,
            arch,
            kernel_allocations,
            symbol_base,
        ) {
            Ok(loaded_kernel) => loaded_kernel,
            Err(e) => {
                proof {
                    lemma_loaded_where_loadable(
                        Err::<LoadedKernel, Status>(e),
                        kernel@,
                        *header,
                        entry.quirks@,
                        arch,
                        kernel_allocations@,
                        symbol_base,
                    );
                }
                return Err(e);
            },
        };
        let ghost loaded = loaded_kernel;
        proof {
            lemma_loaded_where_loadable(
                Ok::<LoadedKernel, Status>(loaded),
                kernel@,
                *header,
                entry.quirks@,
                arch,
                kernel_allocations@,
                symbol_base,
            );
        }
        let symbols: Option<SymbolsInfo> = match loaded_kernel.symbols_struct() {
            Some(symbols) => Some(symbols_struct(&symbols)),
            None => None,
        };
        let multiboot_information: InfoBuilder = match prepare_multiboot_information(
            entry,
            loaded_kernel.load_base_address,
            &modules_vec,
            symbols,
            framebuffer,
            arch,
            system_table,
            image_handle,
            !entry.quirks.contains(Quirk::DontExitBootServices),
            name,
            version,
        ) {
            Ok(information) => information,
            Err(e) => {
                return Err(e);
            },
        };
        Ok(PreparedEntry { loaded_kernel, multiboot_information, modules_vec, quirks: entry.quirks })
    }

    /// Actually boot an entry.
    ///
    /// What this means:
    /// 1. pass the memory map to the kernel
    /// 2. copy the kernel to its desired location (if needed)
    /// 3. bring the machine in the correct state (if needed)
    /// 4. jump!
    ///
    /// This is called when the Boot Services have been exited, or will not
    /// be. `efi_mmap` is the final memory map; it is written for the kernel
    /// into `mb_mmap_vec`, which has been reserved for it. What is left to
    /// the caller is to copy what the answer says, to do to the machine what
    /// it says, and to jump. Where this fails, nothing must be copied.
    pub fn boot(
        self,
        allocator: &mut Allocator,
        efi_mmap: &Vec<MemoryDescriptor>,
        mb_mmap_vec: &mut Vec<MemoryRegion>,
        arch: Arch,
        signature: u32,
        info_address: u64,
    ) -> (r: Result<Boot, Status>)
        requires
            old(allocator).wf(),
        ensures
            final(allocator).wf(),
            r matches Err(e) ==> e == Status::LoadError || e == Status::InvalidParameter,
            r is Ok <==> {
                &&& can_jump(self.loaded_kernel.entry_point, info_address)
                &&& all_in_bounds(efi_mmap@)
                &&& merged(efi_mmap@, self.loaded_kernel.should_exit_boot_services).len() <= old(
                    mb_mmap_vec,
                )@.len()
                &&& upper_memory_kb(
                    merged(efi_mmap@, self.loaded_kernel.should_exit_boot_services),
                ) <= u32::MAX
                &&& settled_all(
                    old(allocator).live(),
                    allocations_of(self.loaded_kernel.allocations@),
                    merged(efi_mmap@, self.loaded_kernel.should_exit_boot_services),
                    self.quirks@,
                    self.loaded_kernel.allocations@.len(),
                ) is Some
            },
            r matches Ok(boot) ==> {
                &&& final(allocator).runs() == old(allocator).runs()
                &&& Some(final(allocator).live()) == settled_all(
                    old(allocator).live(),
                    allocations_of(self.loaded_kernel.allocations@),
                    merged(efi_mmap@, self.loaded_kernel.should_exit_boot_services),
                    self.quirks@,
                    self.loaded_kernel.allocations@.len(),
                )
                &&& boot.information.collected == self.multiboot_information
                &&& final(mb_mmap_vec)@ == merged(
                    efi_mmap@,
                    self.loaded_kernel.should_exit_boot_services,
                )
                &&& boot.information.memory_regions == final(mb_mmap_vec)@.len()
                &&& boot.information.memory_bounds.lower == LOWER_MEMORY_KB
                &&& boot.information.memory_bounds.upper == upper_memory_kb(final(mb_mmap_vec)@)
                &&& boot.kernel@.len() == self.loaded_kernel.allocations@.len()
                &&& forall|i: int|
                    0 <= i < boot.kernel@.len() ==> {
                        &&& (#[trigger] boot.kernel@[i]).vaddr
                            == self.loaded_kernel.allocations@[i].vaddr
                        &&& boot.kernel@[i].contents == self.loaded_kernel.allocations@[i].contents
                        &&& boot.kernel@[i].allocation
                            == self.loaded_kernel.allocations@[i].allocation.settled()
                    }
                &&& boot.moves@ == pending_moves(
                    allocations_of(self.loaded_kernel.allocations@),
                    self.loaded_kernel.allocations@.len(),
                )
                &&& boot.handoff.steps@ == steps_for(self.loaded_kernel.entry_point, arch)
                &&& boot.handoff.signature == signature
                &&& boot.handoff.info_address == info_address
                &&& boot.handoff.entry_address == address_of(self.loaded_kernel.entry_point)
            },
    {
        let should_exit: bool = self.loaded_kernel.should_exit_boot_services;
        let entry_point = self.loaded_kernel.entry_point;
        let quirks: QuirkSet = self.quirks;
        let handoff: Handoff = match jump(entry_point, arch, signature, info_address) {
            Ok(handoff) => handoff,
            Err(e) => {
                return Err(e);
            },
        };
        let information: Information = match self.multiboot_information.build(
            efi_mmap,
            mb_mmap_vec,
            should_exit,
        ) {
            Ok(information) => information,
            Err(_) => {
                return Err(Status::LoadError);
            },
        };
        let ghost segments = self.loaded_kernel.allocations@;
        let ghost allocations = allocations_of(segments);
        let ghost live = old(allocator).live();
        let ghost regions = mb_mmap_vec@;
        let ghost flags = quirks@;
        let mut waiting: Vec<LoadedSegment> = self.loaded_kernel.allocations;
        let mut kernel: Vec<LoadedSegment> = Vec::new();
        let mut moves: Vec<Move> = Vec::new();
        let ghost mut n: int = 0;
        while waiting.len() > 0
            invariant
                allocator.wf(),
                0 <= n <= segments.len(),
                allocations == allocations_of(segments),
                segments == self.loaded_kernel.allocations@,
                live == old(allocator).live(),
                regions == mb_mmap_vec@,
                regions == merged(efi_mmap@, self.loaded_kernel.should_exit_boot_services),
                flags == quirks@,
                flags == self.quirks@,
                allocator.runs() == old(allocator).runs(),
                Some(allocator.live()) == settled_all(live, allocations, regions, flags, n as nat),
                waiting@.len() == segments.len() - n,
                forall|k: int| 0 <= k < waiting@.len() ==> #[trigger] waiting@[k] == segments[n + k],
                kernel@.len() == n,
                forall|i: int|
                    0 <= i < n ==> {
                        &&& (#[trigger] kernel@[i]).vaddr == segments[i].vaddr
                        &&& kernel@[i].contents == segments[i].contents
                        &&& kernel@[i].allocation == segments[i].allocation.settled()
                    },
                moves@ == pending_moves(allocations, n as nat),
            decreases waiting@.len(),
        {
            let ghost rest = waiting@;
            let segment: LoadedSegment = waiting.remove(0);
            proof {
                assert(segment == segments[n]);
                assert forall|k: int| 0 <= k < waiting@.len() implies #[trigger] waiting@[k]
                    == segments[n + 1 + k] by {
                    assert(waiting@[k] == rest[k + 1]);
                }
                assert(allocations[n] == segment.allocation);
            }
            // It could be possible that we failed to allocate memory for the kernel in the correct
            // place before. Just copy it now to where is belongs.
            let moved = match allocator.move_to_where_it_should_be(
                &segment.allocation,
                mb_mmap_vec,
                &quirks,
            ) {
                Ok(moved) => moved,
                Err(e) => {
                    proof {
                        assert(settled_all(live, allocations, regions, flags, (n + 1) as nat)
                            is None);
                        lemma_settling_stays_failed(
                            live,
                            allocations,
                            regions,
                            flags,
                            n + 1,
                            segments.len(),
                        );
                    }
                    return Err(e);
                },
            };
            match moved.copy {
                Some(copy) => {
                    moves.push(copy);
                },
                None => {},
            }
            kernel.push(
                LoadedSegment {
                    vaddr: segment.vaddr,
                    allocation: moved.allocation,
                    contents: segment.contents,
                },
            );
            proof {
                n = n + 1;
            }
        }
        Ok(Boot { information, kernel, moves, handoff })
    }
}

} // verus!
