use towboot::mem::{MemoryDescriptor, MemoryType};
use towboot::memory_map::{
    classify, count_regions, descriptor_in_bounds, prepare_information, region_length_at,
    MapError, MemoryBounds, MemoryRegion, RegionType,
};

fn descriptor(ty: MemoryType, phys_start: u64, page_count: u64) -> MemoryDescriptor {
    MemoryDescriptor { ty, phys_start, page_count }
}

fn buffer(count: usize) -> Vec<MemoryRegion> {
    vec![MemoryRegion { base: 7, length: 7, ty: RegionType::Defective }; count]
}

#[test]
fn memory_types_are_classified() {
    for exited in [false, true] {
        assert_eq!(classify(MemoryType::LoaderCode, exited), RegionType::Available);
        assert_eq!(classify(MemoryType::LoaderData, exited), RegionType::Available);
        assert_eq!(classify(MemoryType::RuntimeServicesCode, exited), RegionType::Reserved);
        assert_eq!(classify(MemoryType::RuntimeServicesData, exited), RegionType::Reserved);
        assert_eq!(classify(MemoryType::Conventional, exited), RegionType::Available);
        assert_eq!(classify(MemoryType::Unusable, exited), RegionType::Defective);
        assert_eq!(classify(MemoryType::AcpiReclaim, exited), RegionType::AcpiAvailable);
        assert_eq!(classify(MemoryType::AcpiNonVolatile, exited), RegionType::ReservedHibernate);
        assert_eq!(classify(MemoryType::Mmio, exited), RegionType::Reserved);
        assert_eq!(classify(MemoryType::MmioPortSpace, exited), RegionType::Reserved);
        assert_eq!(classify(MemoryType::PalCode, exited), RegionType::Reserved);
        assert_eq!(classify(MemoryType::PersistentMemory, exited), RegionType::Available);
        assert_eq!(classify(MemoryType::Reserved, exited), RegionType::Reserved);
        assert_eq!(classify(MemoryType::Other(0x7000_0001), exited), RegionType::Reserved);
    }
    assert_eq!(classify(MemoryType::BootServicesCode, true), RegionType::Available);
    assert_eq!(classify(MemoryType::BootServicesData, true), RegionType::Available);
    assert_eq!(classify(MemoryType::BootServicesCode, false), RegionType::Reserved);
    assert_eq!(classify(MemoryType::BootServicesData, false), RegionType::Reserved);
}

#[test]
fn adjacent_regions_of_one_type_are_merged() {
    let efi = vec![
        descriptor(MemoryType::Conventional, 0, 0xa0),
        descriptor(MemoryType::Reserved, 0xa0000, 0x60),
        descriptor(MemoryType::LoaderCode, 0x100000, 0x10),
        descriptor(MemoryType::BootServicesData, 0x110000, 0x10),
        descriptor(MemoryType::Conventional, 0x120000, 0x100),
        descriptor(MemoryType::AcpiReclaim, 0x220000, 2),
    ];
    let mut regions = buffer(10);
    let bounds = prepare_information(&efi, &mut regions, true).unwrap();
    assert_eq!(
        regions,
        vec![
            MemoryRegion { base: 0, length: 0xa0000, ty: RegionType::Available },
            MemoryRegion { base: 0xa0000, length: 0x60000, ty: RegionType::Reserved },
            MemoryRegion { base: 0x100000, length: 0x120000, ty: RegionType::Available },
            MemoryRegion { base: 0x220000, length: 0x2000, ty: RegionType::AcpiAvailable },
        ]
    );
    assert_eq!(bounds, MemoryBounds { lower: 640, upper: 0x120000 / 1024 });
    assert_eq!(count_regions(&efi, true), Some(4));

    // while the Boot Services are there, their memory is reserved
    let mut regions = buffer(10);
    let bounds = prepare_information(&efi, &mut regions, false).unwrap();
    assert_eq!(regions.len(), 6);
    assert_eq!(
        regions[3],
        MemoryRegion { base: 0x110000, length: 0x10000, ty: RegionType::Reserved }
    );
    assert_eq!(bounds, MemoryBounds { lower: 640, upper: 64 });
}

#[test]
fn lengths_and_gaps_add_up_to_the_span() {
    let efi = vec![
        descriptor(MemoryType::Conventional, 0x1000, 3),
        descriptor(MemoryType::Conventional, 0x4000, 1),
        descriptor(MemoryType::Conventional, 0x8000, 2),
        descriptor(MemoryType::Mmio, 0xa000, 2),
        descriptor(MemoryType::Reserved, 0xc000, 1),
        descriptor(MemoryType::Conventional, 0x10000, 1),
    ];
    let mut regions = buffer(6);
    prepare_information(&efi, &mut regions, true).unwrap();
    let lengths: u64 = regions.iter().map(|r| r.length).sum();
    let gaps: u64 = regions.windows(2).map(|w| w[1].base - (w[0].base + w[0].length)).sum();
    assert_eq!(lengths, (3 + 1 + 2 + 2 + 1 + 1) * 4096);
    assert_eq!(lengths + gaps, 0x11000 - 0x1000);
    for pair in regions.windows(2) {
        assert!(pair[0].ty != pair[1].ty || pair[1].base != pair[0].base + pair[0].length);
    }
    // two regions of one type stay two where there is a gap between them
    assert_eq!(regions[0], MemoryRegion { base: 0x1000, length: 0x4000, ty: RegionType::Available });
    assert_eq!(regions[1], MemoryRegion { base: 0x8000, length: 0x2000, ty: RegionType::Available });
    assert_eq!(regions.len(), 4);
}

#[test]
fn neighbours_differ_where_there_are_no_gaps() {
    let types = [
        MemoryType::Conventional,
        MemoryType::LoaderData,
        MemoryType::Mmio,
        MemoryType::Reserved,
        MemoryType::AcpiReclaim,
        MemoryType::BootServicesCode,
        MemoryType::Conventional,
        MemoryType::Unusable,
        MemoryType::Unusable,
    ];
    let mut efi = Vec::new();
    let mut start = 0;
    for (i, ty) in types.iter().enumerate() {
        efi.push(descriptor(*ty, start, i as u64 + 1));
        start += (i as u64 + 1) * 4096;
    }
    let mut regions = buffer(9);
    prepare_information(&efi, &mut regions, true).unwrap();
    assert_eq!(regions.len(), 5);
    for pair in regions.windows(2) {
        assert_ne!(pair[0].ty, pair[1].ty);
        assert_eq!(pair[1].base, pair[0].base + pair[0].length);
    }
    assert_eq!(regions.iter().map(|r| r.length).sum::<u64>(), start);
}

#[test]
fn upper_memory_is_the_region_at_1_mb() {
    let efi = vec![
        descriptor(MemoryType::Conventional, 0, 0x9f),
        descriptor(MemoryType::Conventional, 0x200000, 0x100),
    ];
    let mut regions = buffer(2);
    let bounds = prepare_information(&efi, &mut regions, true).unwrap();
    assert_eq!(bounds, MemoryBounds { lower: 640, upper: 0 });
    assert_eq!(region_length_at(&regions, 0x200000), 0x100000);
    assert_eq!(region_length_at(&regions, 0x100000), 0);

    let mut regions = buffer(1);
    let bounds =
        prepare_information(&vec![descriptor(MemoryType::Conventional, 0x100000, 3)], &mut regions, true).unwrap();
    assert_eq!(bounds.upper, 12);
}

#[test]
fn no_descriptors_give_no_regions() {
    let mut regions = buffer(3);
    let bounds = prepare_information(&vec![], &mut regions, true).unwrap();
    assert_eq!(regions, vec![]);
    assert_eq!(bounds, MemoryBounds { lower: 640, upper: 0 });
}

#[test]
fn the_memory_map_has_to_fit() {
    let efi = vec![
        descriptor(MemoryType::Conventional, 0, 1),
        descriptor(MemoryType::Reserved, 0x1000, 1),
        descriptor(MemoryType::Conventional, 0x2000, 1),
    ];
    let mut regions = buffer(2);
    assert_eq!(prepare_information(&efi, &mut regions, true), Err(MapError::BufferTooSmall));
    assert_eq!(regions, buffer(2));
    let mut regions = buffer(3);
    assert!(prepare_information(&efi, &mut regions, true).is_ok());
}

#[test]
fn descriptors_have_to_end_in_the_address_space() {
    let efi = vec![
        descriptor(MemoryType::Conventional, 0, 1),
        descriptor(MemoryType::Reserved, u64::MAX - 4095, 2),
    ];
    assert!(descriptor_in_bounds(&efi[0]));
    assert!(!descriptor_in_bounds(&efi[1]));
    assert!(!descriptor_in_bounds(&descriptor(MemoryType::Reserved, 0, u64::MAX)));
    let mut regions = buffer(2);
    assert_eq!(prepare_information(&efi, &mut regions, true), Err(MapError::DescriptorOutOfBounds));
    assert_eq!(regions, buffer(2));
    assert_eq!(count_regions(&efi, true), None);
}

#[test]
fn upper_memory_has_to_fit_into_32_bits() {
    let efi = vec![descriptor(MemoryType::Conventional, 0x100000, 1 << 31)];
    let mut regions = buffer(1);
    assert_eq!(prepare_information(&efi, &mut regions, true), Err(MapError::UpperMemoryTooLarge));
    let efi = vec![descriptor(MemoryType::Conventional, 0x100000, (1 << 30) - 1)];
    let mut regions = buffer(1);
    assert_eq!(prepare_information(&efi, &mut regions, true).unwrap().upper, 0xffff_fffc);
}
