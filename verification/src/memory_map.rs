//! The memory map, as the kernel is told about it.
//!
//! The firmware describes memory in its own terms. The kernel gets a shorter
//! list: each piece is available, reserved or something in between, and
//! pieces of one kind that touch each other are one region.
use vstd::prelude::*;
use crate::mem::{MemoryDescriptor, MemoryType, PAGE_SIZE};

verus! {

/// What a region of memory is to the kernel.
#[derive(Clone, Copy, Debug, PartialEq, Eq, Structural)]
pub enum RegionType {
    /// free to use
    Available,
    /// not to be touched
    Reserved,
    /// holds ACPI tables, free to use once they have been read
    AcpiAvailable,
    /// has to be kept over hibernation
    ReservedHibernate,
    /// broken
    Defective,
}

/// One region of the memory map that is handed to the kernel.
#[derive(Clone, Copy, Debug, PartialEq, Eq, Structural)]
pub struct MemoryRegion {
    pub base: u64,
    pub length: u64,
    pub ty: RegionType,
}

/// "Lower" and "upper" memory as understood by a BIOS, in kilobytes.
#[derive(Clone, Copy, Debug, PartialEq, Eq, Structural)]
pub struct MemoryBounds {
    pub lower: u32,
    pub upper: u32,
}

/// Why the memory map could not be passed on.
#[derive(Clone, Copy, Debug, PartialEq, Eq, Structural)]
pub enum MapError {
    /// A descriptor ends behind the end of the address space.
    DescriptorOutOfBounds,
    /// The buffer that was reserved for the regions does not hold them all.
    BufferTooSmall,
    /// The upper memory is more than 32 bits can count in kilobytes.
    UpperMemoryTooLarge,
}

/// Lower memory in kilobytes. If we had less, we wouldn't fit into memory.
pub const LOWER_MEMORY_KB: u32 = 640;

/// Where upper memory begins.
pub const UPPER_MEMORY_START: u64 = 1024 * 1024;

/// What memory of a firmware type is to the kernel.
pub open spec fn region_type_of(ty: MemoryType, boot_services_exited: bool) -> RegionType {
    match ty {
        // after we've started the kernel, no-one needs our code or data
        MemoryType::LoaderCode | MemoryType::LoaderData => RegionType::Available,
        // have Boot Services been exited?
        MemoryType::BootServicesCode | MemoryType::BootServicesData => if boot_services_exited {
            RegionType::Available
        } else {
            RegionType::Reserved
        },
        // the kernel may want to use UEFI Runtime Services
        MemoryType::RuntimeServicesCode | MemoryType::RuntimeServicesData => RegionType::Reserved,
        // it's free memory!
        MemoryType::Conventional => RegionType::Available,
        MemoryType::Unusable => RegionType::Defective,
        MemoryType::AcpiReclaim => RegionType::AcpiAvailable,
        MemoryType::AcpiNonVolatile => RegionType::ReservedHibernate,
        MemoryType::Mmio | MemoryType::MmioPortSpace | MemoryType::PalCode => RegionType::Reserved,
        MemoryType::PersistentMemory => RegionType::Available,
        // better be safe than sorry
        MemoryType::Reserved | MemoryType::Other(_) => RegionType::Reserved,
    }
}

/// Whether the descriptor ends inside the address space.
pub open spec fn in_bounds(descriptor: MemoryDescriptor) -> bool {
    descriptor.phys_start + descriptor.page_count * PAGE_SIZE <= u64::MAX
}

/// Whether all descriptors end inside the address space.
pub open spec fn all_in_bounds(descriptors: Seq<MemoryDescriptor>) -> bool {
    forall|i: int| 0 <= i < descriptors.len() ==> in_bounds(#[trigger] descriptors[i])
}

/// The region that one descriptor stands for.
pub open spec fn region_of(descriptor: MemoryDescriptor, boot_services_exited: bool) -> MemoryRegion {
    MemoryRegion {
        base: descriptor.phys_start,
        length: (descriptor.page_count * PAGE_SIZE) as u64,
        ty: region_type_of(descriptor.ty, boot_services_exited),
    }
}

/// Whether `next` is of the same type as `current` and begins where it ends.
pub open spec fn joins(current: MemoryRegion, next: MemoryRegion) -> bool {
    next.ty == current.ty && next.base == current.base + current.length
}

/// The regions with one more appended: joined to the last one if it can be,
/// as a region of its own if not.
pub open spec fn absorb(regions: Seq<MemoryRegion>, next: MemoryRegion) -> Seq<MemoryRegion> {
    if regions.len() > 0 && joins(regions.last(), next) {
        regions.drop_last().push(
            MemoryRegion {
                base: regions.last().base,
                length: (regions.last().length + next.length) as u64,
                ty: regions.last().ty,
            },
        )
    } else {
        regions.push(next)
    }
}

/// The memory map for the kernel: every descriptor as a region, in the order
/// of the descriptors, each joined to the one before where it can be.
pub open spec fn merged(descriptors: Seq<MemoryDescriptor>, boot_services_exited: bool) -> Seq<
    MemoryRegion,
>
    decreases descriptors.len(),
{
    if descriptors.len() == 0 {
        Seq::empty()
    } else {
        absorb(
            merged(descriptors.drop_last(), boot_services_exited),
            region_of(descriptors.last(), boot_services_exited),
        )
    }
}

/// The length of the first region that begins at `start`, 0 if there is
/// none.
pub open spec fn length_at(regions: Seq<MemoryRegion>, start: u64) -> u64
    decreases regions.len(),
{
    if regions.len() == 0 {
        0
    } else if regions.first().base == start {
        regions.first().length
    } else {
        length_at(regions.drop_first(), start)
    }
}

/// Upper memory in kilobytes: the length of the region that begins at 1 MB.
pub open spec fn upper_memory_kb(regions: Seq<MemoryRegion>) -> int {
    (length_at(regions, UPPER_MEMORY_START) / 1024) as int
}

/// The sum of the lengths of the regions.
pub open spec fn total_length(regions: Seq<MemoryRegion>) -> int
    decreases regions.len(),
{
    if regions.len() == 0 {
        0
    } else {
        total_length(regions.drop_last()) + regions.last().length
    }
}

/// The sum of the gaps between each region and the next. A region that
/// begins before the end of the one before it counts as a negative gap.
pub open spec fn total_gaps(regions: Seq<MemoryRegion>) -> int
    decreases regions.len(),
{
    if regions.len() <= 1 {
        0
    } else {
        total_gaps(regions.drop_last()) + (regions.last().base - (regions[regions.len() - 2].base
            + regions[regions.len() - 2].length))
    }
}

/// The sum of the lengths of the descriptors in bytes.
pub open spec fn total_bytes(descriptors: Seq<MemoryDescriptor>) -> int
    decreases descriptors.len(),
{
    if descriptors.len() == 0 {
        0
    } else {
        total_bytes(descriptors.drop_last()) + descriptors.last().page_count * PAGE_SIZE
    }
}

/// From the start of the first descriptor to the end of the last one.
pub open spec fn span(descriptors: Seq<MemoryDescriptor>) -> int {
    if descriptors.len() == 0 {
        0
    } else {
        descriptors.last().phys_start + descriptors.last().page_count * PAGE_SIZE
            - descriptors.first().phys_start
    }
}

/// The address behind the last byte of a descriptor.
pub open spec fn descriptor_end(descriptor: MemoryDescriptor) -> int {
    descriptor.phys_start + descriptor.page_count * PAGE_SIZE
}

/// The address behind the last byte of a region.
pub open spec fn region_end(region: MemoryRegion) -> int {
    region.base + region.length
}

/// Whether every descriptor begins where the one before it ends.
pub open spec fn without_gaps(descriptors: Seq<MemoryDescriptor>) -> bool {
    forall|i: int, j: int|
        0 <= i && j == i + 1 && j < descriptors.len() ==> (#[trigger] descriptors[j]).phys_start
            == descriptor_end(#[trigger] descriptors[i])
}

/// Whether the descriptors are sorted and apart: each begins at or behind
/// the end of the one before it.
pub open spec fn in_order(descriptors: Seq<MemoryDescriptor>) -> bool {
    forall|i: int, j: int|
        0 <= i && j == i + 1 && j < descriptors.len() ==> descriptor_end(
            #[trigger] descriptors[i],
        ) <= (#[trigger] descriptors[j]).phys_start
}

/// Whether each region begins at or behind the end of the one before it.
pub open spec fn regions_in_order(regions: Seq<MemoryRegion>) -> bool {
    forall|i: int, j: int|
        0 <= i && j == i + 1 && j < regions.len() ==> region_end(#[trigger] regions[i])
            <= (#[trigger] regions[j]).base
}

/// Whether the regions are sorted and apart: each begins at or behind the
/// end of every one before it.
pub open spec fn regions_apart(regions: Seq<MemoryRegion>) -> bool {
    forall|i: int, j: int|
        0 <= i < j < regions.len() ==> region_end(#[trigger] regions[i])
            <= (#[trigger] regions[j]).base
}

/// Whether the address lies in the region.
pub open spec fn region_holds(region: MemoryRegion, address: int) -> bool {
    region.base <= address < region_end(region)
}

/// Whether the region holds all of the descriptor and is of the type that
/// the descriptor's memory is to the kernel.
pub open spec fn region_covers(
    region: MemoryRegion,
    descriptor: MemoryDescriptor,
    boot_services_exited: bool,
) -> bool {
    &&& region.base <= descriptor.phys_start
    &&& descriptor_end(descriptor) <= region_end(region)
    &&& region.ty == region_type_of(descriptor.ty, boot_services_exited)
}

/// Facts about `merged` that everything else rests on: it is empty only for no
/// descriptors, begins where the first descriptor begins, ends where the last
/// one ends, and each of its lengths fits.
pub proof fn lemma_merged_ends(descriptors: Seq<MemoryDescriptor>, boot_services_exited: bool)
    requires
        all_in_bounds(descriptors),
    ensures
        (merged(descriptors, boot_services_exited).len() == 0) == (descriptors.len() == 0),
        merged(descriptors, boot_services_exited).len() <= descriptors.len(),
        descriptors.len() > 0 ==> {
            let regions = merged(descriptors, boot_services_exited);
            &&& regions.first().base == descriptors.first().phys_start
            &&& regions.last().base + regions.last().length == descriptors.last().phys_start
                + descriptors.last().page_count * PAGE_SIZE
            &&& regions.last().ty == region_type_of(descriptors.last().ty, boot_services_exited)
        },
    decreases descriptors.len(),
{
    if descriptors.len() > 0 {
        let before = descriptors.drop_last();
        assert(all_in_bounds(before)) by {
            assert forall|i: int| 0 <= i < before.len() implies in_bounds(#[trigger] before[i]) by {
                assert(before[i] == descriptors[i]);
            }
        }
        lemma_merged_ends(before, boot_services_exited);
        assert(in_bounds(descriptors[descriptors.len() - 1]));
        if before.len() > 0 {
            assert(before.first() == descriptors.first());
        }
    }
}

/// Joining leaves nothing out and adds nothing: the regions are as long
/// together as the descriptors are.
pub proof fn lemma_merged_keeps_length(
    descriptors: Seq<MemoryDescriptor>,
    boot_services_exited: bool,
)
    requires
        all_in_bounds(descriptors),
    ensures
        total_length(merged(descriptors, boot_services_exited)) == total_bytes(descriptors),
    decreases descriptors.len(),
{
    if descriptors.len() > 0 {
        let before = descriptors.drop_last();
        assert(all_in_bounds(before)) by {
            assert forall|i: int| 0 <= i < before.len() implies in_bounds(#[trigger] before[i]) by {
                assert(before[i] == descriptors[i]);
            }
        }
        lemma_merged_keeps_length(before, boot_services_exited);
        lemma_merged_ends(before, boot_services_exited);
        assert(in_bounds(descriptors[descriptors.len() - 1]));
        let regions = merged(before, boot_services_exited);
        let next = region_of(descriptors.last(), boot_services_exited);
        if regions.len() > 0 && joins(regions.last(), next) {
            let joined = absorb(regions, next);
            assert(joined.drop_last() == regions.drop_last());
        } else {
            assert(regions.push(next).drop_last() == regions);
        }
    }
}

/// The lengths of any regions and the gaps between them add up to the
/// distance from the start of the first to the end of the last.
pub proof fn lemma_lengths_and_gaps(regions: Seq<MemoryRegion>)
    requires
        regions.len() > 0,
    ensures
        total_length(regions) + total_gaps(regions) == regions.last().base + regions.last().length
            - regions.first().base,
    decreases regions.len(),
{
    if regions.len() > 1 {
        let before = regions.drop_last();
        lemma_lengths_and_gaps(before);
        assert(before.last() == regions[regions.len() - 2]);
        assert(before.first() == regions.first());
    } else {
        assert(regions.drop_last().len() == 0);
        assert(total_length(regions.drop_last()) == 0);
    }
}

/// The lengths of the regions of the memory map and the gaps between them add
/// up to the span of the descriptors, from the start of the first to the end
/// of the last.
pub proof fn lemma_merged_covers_span(
    descriptors: Seq<MemoryDescriptor>,
    boot_services_exited: bool,
)
    requires
        all_in_bounds(descriptors),
    ensures
        total_length(merged(descriptors, boot_services_exited)) + total_gaps(
            merged(descriptors, boot_services_exited),
        ) == span(descriptors),
{
    lemma_merged_ends(descriptors, boot_services_exited);
    if descriptors.len() > 0 {
        lemma_lengths_and_gaps(merged(descriptors, boot_services_exited));
    }
}

/// No region of the memory map could have been joined to the one before it:
/// of any two neighbours, the second is of another type or does not begin
/// where the first ends.
pub proof fn lemma_merged_is_fully_merged(
    descriptors: Seq<MemoryDescriptor>,
    boot_services_exited: bool,
)
    requires
        all_in_bounds(descriptors),
    ensures
        forall|i: int, j: int|
            0 <= i && j == i + 1 && j < merged(descriptors, boot_services_exited).len() ==> !joins(
                #[trigger] merged(descriptors, boot_services_exited)[i],
                #[trigger] merged(descriptors, boot_services_exited)[j],
            ),
    decreases descriptors.len(),
{
    if descriptors.len() > 0 {
        let before = descriptors.drop_last();
        lemma_prefix_in_bounds(descriptors);
        lemma_merged_is_fully_merged(before, boot_services_exited);
        lemma_merged_ends(before, boot_services_exited);
        assert(in_bounds(descriptors[descriptors.len() - 1]));
        let regions = merged(before, boot_services_exited);
        let next = region_of(descriptors.last(), boot_services_exited);
        let after = merged(descriptors, boot_services_exited);
        assert forall|i: int, j: int| 0 <= i && j == i + 1 && j < after.len() implies !joins(
            #[trigger] after[i],
            #[trigger] after[j],
        ) by {
            if regions.len() > 0 && joins(regions.last(), next) {
                assert(after[i] == regions[i]);
                if j < after.len() - 1 {
                    assert(after[j] == regions[j]);
                }
                assert(!joins(regions[i], regions[j]));
            } else if j < after.len() - 1 {
                assert(after[i] == regions[i]);
                assert(after[j] == regions[j]);
                assert(!joins(regions[i], regions[j]));
            }
        }
    }
}

/// Where the descriptors leave no gaps, neither do the regions of the memory
/// map.
pub proof fn lemma_merged_without_gaps(
    descriptors: Seq<MemoryDescriptor>,
    boot_services_exited: bool,
)
    requires
        all_in_bounds(descriptors),
        without_gaps(descriptors),
    ensures
        forall|i: int, j: int|
            0 <= i && j == i + 1 && j < merged(descriptors, boot_services_exited).len()
                ==> (#[trigger] merged(descriptors, boot_services_exited)[j]).base == region_end(
                #[trigger] merged(descriptors, boot_services_exited)[i],
            ),
    decreases descriptors.len(),
{
    if descriptors.len() > 0 {
        let before = descriptors.drop_last();
        lemma_prefix_in_bounds(descriptors);
        assert(without_gaps(before)) by {
            assert forall|i: int, j: int| 0 <= i && j == i + 1 && j < before.len() implies (
            #[trigger] before[j]).phys_start == descriptor_end(#[trigger] before[i]) by {
                assert(before[j] == descriptors[j]);
                assert(before[i] == descriptors[i]);
            }
        }
        lemma_merged_without_gaps(before, boot_services_exited);
        lemma_merged_ends(before, boot_services_exited);
        assert(in_bounds(descriptors[descriptors.len() - 1]));
        let regions = merged(before, boot_services_exited);
        let next = region_of(descriptors.last(), boot_services_exited);
        let after = merged(descriptors, boot_services_exited);
        if before.len() > 0 {
            assert(descriptors[before.len() as int].phys_start == descriptor_end(
                descriptors[before.len() - 1],
            ));
            assert(before.last() == descriptors[before.len() - 1]);
        }
        assert forall|i: int, j: int| 0 <= i && j == i + 1 && j < after.len() implies (
        #[trigger] after[j]).base == region_end(#[trigger] after[i]) by {
            if regions.len() > 0 && joins(regions.last(), next) {
                assert(after[i] == regions[i]);
                assert(regions[j].base == region_end(regions[i]));
            } else if j < after.len() - 1 {
                assert(after[i] == regions[i]);
                assert(after[j] == regions[j]);
                assert(regions[j].base == region_end(regions[i]));
            } else {
                assert(after[i] == regions[i]);
            }
        }
    }
}

/// Where the descriptors leave no gaps, no two neighbours in the memory map
/// are of the same type.
pub proof fn lemma_neighbours_differ(descriptors: Seq<MemoryDescriptor>, boot_services_exited: bool)
    requires
        all_in_bounds(descriptors),
        without_gaps(descriptors),
    ensures
        forall|i: int, j: int|
            0 <= i && j == i + 1 && j < merged(descriptors, boot_services_exited).len()
                ==> (#[trigger] merged(descriptors, boot_services_exited)[i]).ty != (
            #[trigger] merged(descriptors, boot_services_exited)[j]).ty,
{
    lemma_merged_is_fully_merged(descriptors, boot_services_exited);
    lemma_merged_without_gaps(descriptors, boot_services_exited);
    let regions = merged(descriptors, boot_services_exited);
    assert forall|i: int, j: int| 0 <= i && j == i + 1 && j < regions.len() implies (
    #[trigger] regions[i]).ty != (#[trigger] regions[j]).ty by {
        assert(!joins(regions[i], regions[j]));
        assert(regions[j].base == region_end(regions[i]));
    }
}

/// Where the descriptors are sorted and apart, so are the regions of the
/// memory map: each begins at or behind the end of the one before it.
pub proof fn lemma_merged_in_order(descriptors: Seq<MemoryDescriptor>, boot_services_exited: bool)
    requires
        all_in_bounds(descriptors),
        in_order(descriptors),
    ensures
        regions_in_order(merged(descriptors, boot_services_exited)),
        regions_apart(merged(descriptors, boot_services_exited)),
    decreases descriptors.len(),
{
    if descriptors.len() > 0 {
        let before = descriptors.drop_last();
        lemma_prefix_in_bounds(descriptors);
        assert(in_order(before)) by {
            assert forall|i: int, j: int| 0 <= i && j == i + 1 && j < before.len() implies descriptor_end(
                #[trigger] before[i],
            ) <= (#[trigger] before[j]).phys_start by {
                assert(before[j] == descriptors[j]);
                assert(before[i] == descriptors[i]);
            }
        }
        lemma_merged_in_order(before, boot_services_exited);
        lemma_merged_ends(before, boot_services_exited);
        assert(in_bounds(descriptors[descriptors.len() - 1]));
        let regions = merged(before, boot_services_exited);
        let next = region_of(descriptors.last(), boot_services_exited);
        let after = merged(descriptors, boot_services_exited);
        if before.len() > 0 {
            assert(descriptor_end(descriptors[before.len() - 1]) <= descriptors[before.len() as int].phys_start);
            assert(before.last() == descriptors[before.len() - 1]);
        }
        assert forall|i: int, j: int| 0 <= i && j == i + 1 && j < after.len() implies region_end(
            #[trigger] after[i],
        ) <= (#[trigger] after[j]).base by {
            if regions.len() > 0 && joins(regions.last(), next) {
                assert(after[i] == regions[i]);
                assert(region_end(regions[i]) <= regions[j].base);
            } else if j < after.len() - 1 {
                assert(after[i] == regions[i]);
                assert(after[j] == regions[j]);
                assert(region_end(regions[i]) <= regions[j].base);
            } else {
                assert(after[i] == regions[i]);
            }
        }
    }
    lemma_in_order_is_apart(merged(descriptors, boot_services_exited));
}

/// Regions of which each begins at or behind the end of the one before it
/// are sorted and apart as a whole.
pub proof fn lemma_in_order_is_apart(regions: Seq<MemoryRegion>)
    requires
        regions_in_order(regions),
    ensures
        regions_apart(regions),
    decreases regions.len(),
{
    if regions.len() > 1 {
        let before = regions.drop_last();
        assert(regions_in_order(before)) by {
            assert forall|i: int, j: int| 0 <= i && j == i + 1 && j < before.len() implies region_end(
                #[trigger] before[i],
            ) <= (#[trigger] before[j]).base by {
                assert(before[j] == regions[j]);
                assert(before[i] == regions[i]);
            }
        }
        lemma_in_order_is_apart(before);
        let last = regions.len() - 1;
        assert(region_end(regions[last - 1]) <= regions[last].base);
        assert forall|i: int, j: int| 0 <= i < j < regions.len() implies region_end(
            #[trigger] regions[i],
        ) <= (#[trigger] regions[j]).base by {
            if j < last {
                assert(before[i] == regions[i]);
                assert(before[j] == regions[j]);
            } else if i < last - 1 {
                assert(before[i] == regions[i]);
                assert(before[last - 1] == regions[last - 1]);
                assert(region_end(before[i]) <= before[last - 1].base);
            }
        }
    }
}

/// Every descriptor lies in a region of the memory map, and that region is
/// of the type that the descriptor's memory is to the kernel.
pub proof fn lemma_descriptor_in_region(
    descriptors: Seq<MemoryDescriptor>,
    boot_services_exited: bool,
    i: int,
)
    requires
        all_in_bounds(descriptors),
        0 <= i < descriptors.len(),
    ensures
        exists|k: int|
            0 <= k < merged(descriptors, boot_services_exited).len() && region_covers(
                #[trigger] merged(descriptors, boot_services_exited)[k],
                descriptors[i],
                boot_services_exited,
            ),
    decreases descriptors.len(),
{
    let before = descriptors.drop_last();
    lemma_prefix_in_bounds(descriptors);
    lemma_merged_ends(before, boot_services_exited);
    lemma_merged_ends(descriptors, boot_services_exited);
    assert(in_bounds(descriptors[descriptors.len() - 1]));
    let regions = merged(before, boot_services_exited);
    let next = region_of(descriptors.last(), boot_services_exited);
    let after = merged(descriptors, boot_services_exited);
    if i == descriptors.len() - 1 {
        assert(region_covers(after[after.len() - 1], descriptors[i], boot_services_exited));
    } else {
        lemma_descriptor_in_region(before, boot_services_exited, i);
        let k = choose|k: int|
            0 <= k < regions.len() && region_covers(
                #[trigger] regions[k],
                before[i],
                boot_services_exited,
            );
        assert(before[i] == descriptors[i]);
        if regions.len() > 0 && joins(regions.last(), next) && k == regions.len() - 1 {
            assert(region_covers(after[k], descriptors[i], boot_services_exited));
        } else {
            assert(after[k] == regions[k]);
            assert(region_covers(after[k], descriptors[i], boot_services_exited));
        }
    }
}

/// Where the descriptors are sorted and apart, every address of a descriptor
/// lies in exactly one region of the memory map, and that region is of the
/// type that the descriptor's memory is to the kernel.
pub proof fn lemma_address_in_one_region(
    descriptors: Seq<MemoryDescriptor>,
    boot_services_exited: bool,
    i: int,
    address: int,
)
    requires
        all_in_bounds(descriptors),
        in_order(descriptors),
        0 <= i < descriptors.len(),
        descriptors[i].phys_start <= address < descriptor_end(descriptors[i]),
    ensures
        exists|k: int|
            {
                &&& 0 <= k < merged(descriptors, boot_services_exited).len()
                &&& region_holds(#[trigger] merged(descriptors, boot_services_exited)[k], address)
                &&& merged(descriptors, boot_services_exited)[k].ty == region_type_of(
                    descriptors[i].ty,
                    boot_services_exited,
                )
                &&& forall|other: int|
                    0 <= other < merged(descriptors, boot_services_exited).len() && other != k
                        ==> !region_holds(
                        #[trigger] merged(descriptors, boot_services_exited)[other],
                        address,
                    )
            },
{
    let regions = merged(descriptors, boot_services_exited);
    lemma_descriptor_in_region(descriptors, boot_services_exited, i);
    lemma_merged_in_order(descriptors, boot_services_exited);
    let k = choose|k: int|
        0 <= k < regions.len() && region_covers(
            #[trigger] regions[k],
            descriptors[i],
            boot_services_exited,
        );
    assert(region_holds(regions[k], address));
    assert forall|other: int| 0 <= other < regions.len() && other != k implies !region_holds(
        #[trigger] regions[other],
        address,
    ) by {
        if other < k {
            assert(region_end(regions[other]) <= regions[k].base);
        } else {
            assert(region_end(regions[k]) <= regions[other].base);
        }
    }
}

/// All but the last of descriptors that end inside the address space do so
/// too.
proof fn lemma_prefix_in_bounds(descriptors: Seq<MemoryDescriptor>)
    requires
        all_in_bounds(descriptors),
        descriptors.len() > 0,
    ensures
        all_in_bounds(descriptors.drop_last()),
{
    let before = descriptors.drop_last();
    assert forall|i: int| 0 <= i < before.len() implies in_bounds(#[trigger] before[i]) by {
        assert(before[i] == descriptors[i]);
    }
}

proof fn lemma_merged_grows(
    descriptors: Seq<MemoryDescriptor>,
    boot_services_exited: bool,
    i: int,
)
    requires
        0 <= i <= descriptors.len(),
    ensures
        merged(descriptors.subrange(0, i), boot_services_exited).len() <= merged(
            descriptors,
            boot_services_exited,
        ).len(),
    decreases descriptors.len() - i,
{
    if i < descriptors.len() {
        lemma_merged_grows(descriptors, boot_services_exited, i + 1);
        assert(descriptors.subrange(0, i + 1).drop_last() == descriptors.subrange(0, i));
    } else {
        assert(descriptors.subrange(0, i) == descriptors);
    }
}

/// What memory of a firmware type is to the kernel.
pub fn classify(ty: MemoryType, boot_services_exited: bool) -> (r: RegionType)
    ensures
        r == region_type_of(ty, boot_services_exited),
{
    match ty {
        MemoryType::LoaderCode | MemoryType::LoaderData => RegionType::Available,
        MemoryType::BootServicesCode | MemoryType::BootServicesData => if boot_services_exited {
            RegionType::Available
        } else {
            RegionType::Reserved
        },
        MemoryType::RuntimeServicesCode | MemoryType::RuntimeServicesData => RegionType::Reserved,
        MemoryType::Conventional => RegionType::Available,
        MemoryType::Unusable => RegionType::Defective,
        MemoryType::AcpiReclaim => RegionType::AcpiAvailable,
        MemoryType::AcpiNonVolatile => RegionType::ReservedHibernate,
        MemoryType::Mmio | MemoryType::MmioPortSpace | MemoryType::PalCode => RegionType::Reserved,
        MemoryType::PersistentMemory => RegionType::Available,
        MemoryType::Reserved | MemoryType::Other(_) => RegionType::Reserved,
    }
}

/// Whether the descriptor ends inside the address space.
pub fn descriptor_in_bounds(descriptor: &MemoryDescriptor) -> (r: bool)
    ensures
        r == in_bounds(*descriptor),
{
    match descriptor.page_count.checked_mul(PAGE_SIZE) {
        Some(bytes) => descriptor.phys_start.checked_add(bytes).is_some(),
        None => false,
    }
}

/// How many regions the memory map for the kernel has, or `None` if a
/// descriptor ends behind the end of the address space.
pub fn count_regions(efi_mmap: &Vec<MemoryDescriptor>, boot_services_exited: bool) -> (r: Option<
    usize,
>)
    ensures
        r is Some == all_in_bounds(efi_mmap@),
        r matches Some(count) ==> count == merged(efi_mmap@, boot_services_exited).len(),
{
    let mut count: usize = 0;
    let mut current = MemoryRegion { base: 0, length: 0, ty: RegionType::Reserved };
    let mut i: usize = 0;
    while i < efi_mmap.len()
        invariant
            i <= efi_mmap@.len(),
            all_in_bounds(efi_mmap@.subrange(0, i as int)),
            count == merged(efi_mmap@.subrange(0, i as int), boot_services_exited).len(),
            count <= i,
            count > 0 ==> current == merged(
                efi_mmap@.subrange(0, i as int),
                boot_services_exited,
            ).last(),
        decreases efi_mmap@.len() - i,
    {
        let descriptor: MemoryDescriptor = efi_mmap[i];
        if !descriptor_in_bounds(&descriptor) {
            assert(!in_bounds(efi_mmap@[i as int]));
            return None;
        }
        let next = MemoryRegion {
            base: descriptor.phys_start,
            length: descriptor.page_count * PAGE_SIZE,
            ty: classify(descriptor.ty, boot_services_exited),
        };
        proof {
            let prefix = efi_mmap@.subrange(0, i as int);
            let longer = efi_mmap@.subrange(0, i + 1);
            assert(longer.drop_last() == prefix);
            assert(longer.last() == descriptor);
            assert(next == region_of(descriptor, boot_services_exited));
            lemma_merged_ends(prefix, boot_services_exited);
            assert forall|k: int| 0 <= k < longer.len() implies in_bounds(#[trigger] longer[k]) by {
                if k < i {
                    assert(longer[k] == prefix[k]);
                }
            }
        }
        if count > 0 && next.ty == current.ty && current.length <= u64::MAX - current.base
            && next.base == current.base + current.length {
            current =
            MemoryRegion {
                base: current.base,
                length: current.length + next.length,
                ty: current.ty,
            };
        } else {
            current = next;
            count += 1;
        }
        i += 1;
    }
    assert(efi_mmap@.subrange(0, i as int) == efi_mmap@);
    Some(count)
}

/// Pass the memory map to the kernel.
///
/// This needs to have a buffer to write to because we can't allocate memory
/// anymore. (The buffer may be too large.) On success the buffer holds the
/// memory map and nothing else, and the answer is the lower and upper memory;
/// if the memory map does not fit or cannot be made, the buffer is left as it
/// was.
pub fn prepare_information(
    efi_mmap: &Vec<MemoryDescriptor>,
    mb_mmap_vec: &mut Vec<MemoryRegion>,
    boot_services_exited: bool,
) -> (r: Result<MemoryBounds, MapError>)
    ensures
        match r {
            Ok(bounds) => {
                &&& all_in_bounds(efi_mmap@)
                &&& final(mb_mmap_vec)@ == merged(efi_mmap@, boot_services_exited)
                &&& final(mb_mmap_vec)@.len() <= old(mb_mmap_vec)@.len()
                &&& bounds.lower == LOWER_MEMORY_KB
                &&& bounds.upper == upper_memory_kb(final(mb_mmap_vec)@)
            },
            Err(MapError::DescriptorOutOfBounds) => {
                &&& !all_in_bounds(efi_mmap@)
                &&& final(mb_mmap_vec)@ == old(mb_mmap_vec)@
            },
            Err(MapError::BufferTooSmall) => {
                &&& all_in_bounds(efi_mmap@)
                &&& merged(efi_mmap@, boot_services_exited).len() > old(mb_mmap_vec)@.len()
                &&& final(mb_mmap_vec)@ == old(mb_mmap_vec)@
            },
            Err(MapError::UpperMemoryTooLarge) => {
                &&& all_in_bounds(efi_mmap@)
                &&& final(mb_mmap_vec)@ == merged(efi_mmap@, boot_services_exited)
                &&& final(mb_mmap_vec)@.len() <= old(mb_mmap_vec)@.len()
                &&& upper_memory_kb(final(mb_mmap_vec)@) > u32::MAX
            },
        },
{
    let total: usize = match count_regions(efi_mmap, boot_services_exited) {
        Some(total) => total,
        None => {
            return Err(MapError::DescriptorOutOfBounds);
        },
    };
    if total > mb_mmap_vec.len() {
        return Err(MapError::BufferTooSmall);
    }
    // Descriptors are the ones from UEFI, Entries are the ones from Multiboot.
    let mut count: usize = 0;
    let mut i: usize = 0;
    while i < efi_mmap.len()
        invariant
            i <= efi_mmap@.len(),
            all_in_bounds(efi_mmap@),
            total == merged(efi_mmap@, boot_services_exited).len(),
            total <= mb_mmap_vec@.len(),
            mb_mmap_vec@.len() == old(mb_mmap_vec)@.len(),
            count <= mb_mmap_vec@.len(),
            mb_mmap_vec@.subrange(0, count as int) == merged(
                efi_mmap@.subrange(0, i as int),
                boot_services_exited,
            ),
        decreases efi_mmap@.len() - i,
    {
        let descriptor: MemoryDescriptor = efi_mmap[i];
        proof {
            let prefix = efi_mmap@.subrange(0, i as int);
            let longer = efi_mmap@.subrange(0, i + 1);
            assert(longer.drop_last() == prefix);
            assert(longer.last() == descriptor);
            assert(in_bounds(efi_mmap@[i as int]));
            assert forall|k: int| 0 <= k < prefix.len() implies in_bounds(#[trigger] prefix[k]) by {
                assert(prefix[k] == efi_mmap@[k]);
            }
            lemma_merged_ends(prefix, boot_services_exited);
            lemma_merged_grows(efi_mmap@, boot_services_exited, i + 1);
        }
        let next = MemoryRegion {
            base: descriptor.phys_start,
            length: descriptor.page_count * PAGE_SIZE,
            ty: classify(descriptor.ty, boot_services_exited),
        };
        let ghost regions = mb_mmap_vec@.subrange(0, count as int);
        let mut joined: bool = false;
        if count > 0 {
            let current: MemoryRegion = mb_mmap_vec[count - 1];
            assert(current == regions.last());
            // join adjacent entries of the same type
            if next.ty == current.ty && current.length <= u64::MAX - current.base && next.base
                == current.base + current.length {
                mb_mmap_vec[count - 1] =
                MemoryRegion {
                    base: current.base,
                    length: current.length + next.length,
                    ty: current.ty,
                };
                joined = true;
                assert(mb_mmap_vec@.subrange(0, count as int) == absorb(regions, next));
            }
        }
        if !joined {
            assert(absorb(regions, next) == regions.push(next));
            assert(regions.push(next).len() <= total);
            mb_mmap_vec[count] = next;
            count += 1;
            assert(mb_mmap_vec@.subrange(0, count as int) == regions.push(next));
        }
        i += 1;
    }
    assert(efi_mmap@.subrange(0, i as int) == efi_mmap@);
    mb_mmap_vec.truncate(count);
    // "Lower" and "upper" memory as understood by a BIOS in kilobytes.
    // This means:
    // Lower memory is the part of the memory from beginning to the first memory hole,
    // adressable by just 20 bits (because the 8086's address bus had just 20 pins).
    // Upper memory is the part of the memory from 1 MB to the next memory hole
    // (usually a few megabytes).
    let upper: u64 = region_length_at(mb_mmap_vec, UPPER_MEMORY_START) / 1024;
    if upper > 0xffff_ffff {
        return Err(MapError::UpperMemoryTooLarge);
    }
    Ok(MemoryBounds { lower: LOWER_MEMORY_KB, upper: upper as u32 })
}

/// Find the area starting at `start` and get its length; if there is none,
/// it's 0.
pub fn region_length_at(regions: &Vec<MemoryRegion>, start: u64) -> (r: u64)
    ensures
        r == length_at(regions@, start),
{
    let mut i: usize = 0;
    assert(regions@.subrange(0, regions@.len() as int) == regions@);
    while i < regions.len()
        invariant
            i <= regions@.len(),
            length_at(regions@, start) == length_at(regions@.subrange(i as int, regions@.len() as int), start),
        decreases regions@.len() - i,
    {
        let ghost rest = regions@.subrange(i as int, regions@.len() as int);
        assert(rest.first() == regions@[i as int]);
        if regions[i].base == start {
            return regions[i].length;
        }
        assert(rest.drop_first() == regions@.subrange(i + 1, regions@.len() as int));
        i += 1;
    }
    assert(regions@.subrange(i as int, regions@.len() as int).len() == 0);
    0
}

} // verus!
