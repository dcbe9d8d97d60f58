use towboot::elf::{
    load_requests, loadable, symbols, symbols_capacity, ElfImage, OurElfLoader, ProgramHeader,
    SectionHeader, SegmentRequest, PT_LOAD, SHT_NOBITS,
};
use towboot::kernel::{
    compute_layout, get_kernel_uefi_entry, header_entry, kernel_format, multiboot_request,
    read_elf, should_exit_boot_services, Arch, EntryPoint, KernelFormat, KernelHeader,
    LoadAddresses, LoadedKernel, MultibootLayout,
};
use towboot::mem::Allocation;
use towboot::quirk::{Quirk, QuirkSet};
use towboot::status::Status;

fn quirks(list: &[Quirk]) -> QuirkSet {
    let mut set = QuirkSet::new();
    for quirk in list {
        set.insert(*quirk);
    }
    set
}

fn header() -> KernelHeader {
    KernelHeader {
        header_start: 0,
        load_addresses: None,
        entry_address: None,
        efi32_entry_address: None,
        efi64_entry_address: None,
        should_exit_boot_services: true,
        preferred_video_mode: None,
    }
}

fn at(ptr: u64, len: u64) -> Allocation {
    Allocation { ptr, len, should_be_at: None }
}

fn program_header(vaddr: u64, paddr: u64, offset: u64, filesz: u64, memsz: u64) -> ProgramHeader {
    ProgramHeader { p_type: PT_LOAD, p_offset: offset, p_vaddr: vaddr, p_paddr: paddr, p_filesz: filesz, p_memsz: memsz }
}

fn image(entry: u64, program_headers: Vec<ProgramHeader>) -> ElfImage {
    ElfImage {
        entry,
        is_64: true,
        little_endian: true,
        e_shnum: 0,
        e_shentsize: 0,
        e_shstrndx: 0,
        program_headers,
        section_headers: vec![],
        dynrelas: 0,
        dynrels: 0,
    }
}

/// A 64-bit ELF file with one loadable segment and, if asked for, two
/// sections, the second of which has not been loaded.
fn elf_file(entry: u64, vaddr: u64, paddr: u64, content: &[u8], memsz: u64, sections: bool) -> Vec<u8> {
    let mut file = vec![0x7f, b'E', b'L', b'F', 2, 1, 1, 0, 0, 0, 0, 0, 0, 0, 0, 0];
    let content_offset = 64 + 56;
    let section_offset = content_offset + content.len() as u64;
    file.extend_from_slice(&2u16.to_le_bytes());
    file.extend_from_slice(&0x3eu16.to_le_bytes());
    file.extend_from_slice(&1u32.to_le_bytes());
    file.extend_from_slice(&entry.to_le_bytes());
    file.extend_from_slice(&64u64.to_le_bytes());
    file.extend_from_slice(&(if sections { section_offset } else { 0 }).to_le_bytes());
    file.extend_from_slice(&0u32.to_le_bytes());
    file.extend_from_slice(&64u16.to_le_bytes());
    file.extend_from_slice(&56u16.to_le_bytes());
    file.extend_from_slice(&1u16.to_le_bytes());
    file.extend_from_slice(&64u16.to_le_bytes());
    file.extend_from_slice(&(if sections { 2u16 } else { 0 }).to_le_bytes());
    file.extend_from_slice(&0u16.to_le_bytes());
    assert_eq!(file.len(), 64);
    file.extend_from_slice(&1u32.to_le_bytes());
    file.extend_from_slice(&5u32.to_le_bytes());
    file.extend_from_slice(&content_offset.to_le_bytes());
    file.extend_from_slice(&vaddr.to_le_bytes());
    file.extend_from_slice(&paddr.to_le_bytes());
    file.extend_from_slice(&(content.len() as u64).to_le_bytes());
    file.extend_from_slice(&memsz.to_le_bytes());
    file.extend_from_slice(&4096u64.to_le_bytes());
    assert_eq!(file.len() as u64, content_offset);
    file.extend_from_slice(content);
    if sections {
        file.extend_from_slice(&[0; 64]);
        file.extend_from_slice(&0u32.to_le_bytes());
        file.extend_from_slice(&1u32.to_le_bytes());
        file.extend_from_slice(&0u64.to_le_bytes());
        file.extend_from_slice(&0u64.to_le_bytes());
        file.extend_from_slice(&content_offset.to_le_bytes());
        file.extend_from_slice(&4u64.to_le_bytes());
        file.extend_from_slice(&0u32.to_le_bytes());
        file.extend_from_slice(&0u32.to_le_bytes());
        file.extend_from_slice(&1u64.to_le_bytes());
        file.extend_from_slice(&0u64.to_le_bytes());
    }
    file
}

#[test]
fn fixed_address_kernel_is_copied_and_zero_filled() {
    // a kernel that wants to be at 0x100000 and is 4096 bytes long, without bss
    let mut kernel: Vec<u8> = (0..8192u32).map(|i| (i % 251) as u8 + 1).collect();
    kernel.truncate(6000);
    let mut header = header();
    header.header_start = 0x40;
    header.entry_address = Some(0x100020);
    header.load_addresses = Some(LoadAddresses {
        header_addr: 0x100010,
        load_addr: 0x100000,
        load_end_addr: 0x100800,
        bss_end_addr: 0x101000,
    });
    assert_eq!(kernel_format(&header, &QuirkSet::new()), KernelFormat::MultibootAddressed);
    assert_eq!(multiboot_request(&header, kernel.len()), Some((0x100000, 4096)));
    let allocation = at(0x100000, 4096);
    let loaded =
        LoadedKernel::new_multiboot(&kernel, &header, &QuirkSet::new(), Arch::Ia32, allocation).unwrap();
    assert_eq!(loaded.allocations.len(), 1);
    let segment = &loaded.allocations[0];
    assert_eq!(segment.allocation, allocation);
    assert!(segment.contents.len() >= 4096);
    let load_offset = 0x40 - 0x10;
    assert_eq!(segment.contents[0], kernel[load_offset]);
    assert_eq!(&segment.contents[..0x800], &kernel[load_offset..load_offset + 0x800]);
    assert!(segment.contents[0x800..].iter().all(|byte| *byte == 0));
    assert_eq!(loaded.entry_point, EntryPoint::Multiboot(0x100020));
    assert_eq!(loaded.load_base_address, Some(0x100000));
    assert!(loaded.should_exit_boot_services);
    assert!(loaded.symbols.is_none());
}

#[test]
fn fixed_address_kernel_without_bss() {
    let kernel: Vec<u8> = (0..5000u32).map(|i| (i % 200) as u8 + 1).collect();
    let mut header = header();
    header.header_start = 8;
    header.entry_address = Some(0x100000);
    header.load_addresses = Some(LoadAddresses {
        header_addr: 0x100008,
        load_addr: 0x100000,
        load_end_addr: 0x101000,
        bss_end_addr: 0,
    });
    assert_eq!(
        compute_layout(&header.load_addresses.unwrap(), 8, kernel.len()),
        Some(MultibootLayout { load_offset: 0, text_data_len: 4096, kernel_length: 4096 })
    );
    let loaded =
        LoadedKernel::new_multiboot(&kernel, &header, &QuirkSet::new(), Arch::X64, at(0x100000, 4096)).unwrap();
    assert_eq!(loaded.allocations[0].contents, &kernel[..4096]);
}

#[test]
fn text_and_data_may_be_the_whole_file() {
    let addresses = LoadAddresses { header_addr: 0x200010, load_addr: 0x200000, load_end_addr: 0, bss_end_addr: 0x203000 };
    assert_eq!(
        compute_layout(&addresses, 0x30, 0x1000),
        Some(MultibootLayout { load_offset: 0x20, text_data_len: 0xfe0, kernel_length: 0x3000 })
    );
    assert_eq!(compute_layout(&addresses, 0x8, 0x1000), None);
    assert_eq!(compute_layout(&addresses, 0x2000, 0x1000), None);
    let backwards = LoadAddresses { header_addr: 0x200000, load_addr: 0x200010, load_end_addr: 0, bss_end_addr: 0 };
    assert_eq!(compute_layout(&backwards, 0x30, 0x1000), None);
    let short = LoadAddresses { header_addr: 0x200000, load_addr: 0x200000, load_end_addr: 0x1000, bss_end_addr: 0 };
    assert_eq!(compute_layout(&short, 0, 0x1000), None);
}

#[test]
fn a_short_file_is_filled_up_with_zeroes() {
    let kernel = vec![0xaa; 100];
    let mut header = header();
    header.entry_address = Some(0x100000);
    header.load_addresses = Some(LoadAddresses { header_addr: 0x100000, load_addr: 0x100000, load_end_addr: 0x100100, bss_end_addr: 0 });
    let loaded =
        LoadedKernel::new_multiboot(&kernel, &header, &QuirkSet::new(), Arch::X64, at(0x100000, 0x100)).unwrap();
    assert_eq!(loaded.allocations[0].contents[..100], kernel[..]);
    assert_eq!(loaded.allocations[0].contents[100..], [0; 156]);
}

#[test]
fn fixed_address_kernel_needs_its_allocation_and_an_entry() {
    let kernel = vec![1; 4096];
    let mut header = header();
    header.load_addresses = Some(LoadAddresses { header_addr: 0x100000, load_addr: 0x100000, load_end_addr: 0x101000, bss_end_addr: 0 });
    let none = QuirkSet::new();
    // no entry address
    assert_eq!(
        LoadedKernel::new_multiboot(&kernel, &header, &none, Arch::X64, at(0x100000, 4096)).unwrap_err(),
        Status::LoadError
    );
    header.entry_address = Some(0x100000);
    for wrong in [at(0x100000, 4095), at(0x101000, 4096), Allocation { ptr: 0x300800, len: 4096, should_be_at: Some(0x100000) }] {
        assert!(LoadedKernel::new_multiboot(&kernel, &header, &none, Arch::X64, wrong).is_err());
    }
    let moved_later = Allocation { ptr: 0x300000, len: 4096, should_be_at: Some(0x100000) };
    assert!(moved_later.is_placed_for(0x100000));
    assert!(!moved_later.is_placed_for(0x300000));
    assert!(LoadedKernel::new_multiboot(&kernel, &header, &none, Arch::X64, moved_later).is_ok());
    header.load_addresses = None;
    assert!(LoadedKernel::new_multiboot(&kernel, &header, &none, Arch::X64, at(0x100000, 4096)).is_err());
    assert_eq!(multiboot_request(&header, 4096), None);
}

#[test]
fn the_format_is_decided_by_header_and_quirk() {
    let mut header = header();
    assert_eq!(kernel_format(&header, &QuirkSet::new()), KernelFormat::Elf);
    header.load_addresses = Some(LoadAddresses { header_addr: 0, load_addr: 0, load_end_addr: 0, bss_end_addr: 0 });
    assert_eq!(kernel_format(&header, &QuirkSet::new()), KernelFormat::MultibootAddressed);
    assert_eq!(kernel_format(&header, &quirks(&[Quirk::ForceElf])), KernelFormat::Elf);
    assert_eq!(kernel_format(&header, &quirks(&[Quirk::KeepResolution])), KernelFormat::MultibootAddressed);
}

#[test]
fn uefi_entry_only_counts_without_exiting_boot_services() {
    let mut header = header();
    header.entry_address = Some(0x1000);
    header.efi32_entry_address = Some(0x2000);
    header.efi64_entry_address = Some(0x3000);
    let none = QuirkSet::new();
    let dont_exit = quirks(&[Quirk::DontExitBootServices]);
    // the kernel wants the Boot Services exited: it is taken not to be UEFI-aware
    assert_eq!(get_kernel_uefi_entry(&header, &none, Arch::X64), None);
    assert_eq!(header_entry(&header, &none, Arch::X64), Some(EntryPoint::Multiboot(0x1000)));
    assert!(should_exit_boot_services(&header, &none));
    assert_eq!(get_kernel_uefi_entry(&header, &dont_exit, Arch::X64), Some(EntryPoint::Uefi(0x3000)));
    assert_eq!(get_kernel_uefi_entry(&header, &dont_exit, Arch::Ia32), Some(EntryPoint::Uefi(0x2000)));
    assert!(!should_exit_boot_services(&header, &dont_exit));
    header.should_exit_boot_services = false;
    assert_eq!(header_entry(&header, &none, Arch::Ia32), Some(EntryPoint::Uefi(0x2000)));
    assert!(!should_exit_boot_services(&header, &none));
    header.efi32_entry_address = None;
    assert_eq!(header_entry(&header, &none, Arch::Ia32), Some(EntryPoint::Multiboot(0x1000)));
    header.entry_address = None;
    assert_eq!(header_entry(&header, &none, Arch::Ia32), None);
}

#[test]
fn entry_point_is_found_in_its_segment() {
    let elf = image(
        0xffff_8000_0010_0123,
        vec![
            program_header(0xffff_8000_0000_0000, 0x200000, 0, 4, 0x1000),
            program_header(0xffff_8000_0010_0000, 0x400000, 4, 4, 0x2000),
            ProgramHeader { p_type: 4, p_offset: 0, p_vaddr: 0xffff_8000_0010_0000, p_paddr: 0x900000, p_filesz: 0, p_memsz: 0x2000 },
        ],
    );
    assert_eq!(loadable(&elf.program_headers).len(), 2);
    assert_eq!(
        load_requests(&elf),
        vec![SegmentRequest { address: 0x200000, size: 0x1000 }, SegmentRequest { address: 0x400000, size: 0x2000 }]
    );
    let data = [1, 2, 3, 4, 5, 6, 7, 8];
    let mut loader = OurElfLoader::new(elf.entry, true);
    assert_eq!(loader.entry_point(), 0xffff_8000_0010_0123);
    assert!(!loader.found_entry_point());
    loader.load_elf(&elf, &data, &vec![at(0x200000, 0x1000), at(0x400000, 0x2000)]).unwrap();
    assert!(loader.found_entry_point());
    assert!(loader.should_exit_boot_services());
    // pbase + (E - vbase)
    assert_eq!(loader.entry_point(), 0x400000 + 0x123);
    assert_eq!(loader.segment_count(), 2);
    let segments = loader.into_segments();
    assert_eq!(segments[0].vaddr, 0xffff_8000_0000_0000);
    assert_eq!(segments[0].allocation, at(0x200000, 0x1000));
    assert_eq!(segments[0].contents[..5], [1, 2, 3, 4, 0]);
    assert_eq!(segments[0].contents.len(), 0x1000);
    assert_eq!(segments[1].contents[..5], [5, 6, 7, 8, 0]);
    assert!(segments[1].contents[4..].iter().all(|byte| *byte == 0));
}

#[test]
fn entry_point_outside_all_segments_is_taken_as_physical() {
    let elf = image(0x500000, vec![program_header(0x100000, 0x100000, 0, 0, 0x1000)]);
    let mut loader = OurElfLoader::new(elf.entry, false);
    loader.load_elf(&elf, &[], &vec![at(0x100000, 0x1000)]).unwrap();
    assert!(!loader.found_entry_point());
    assert_eq!(loader.entry_point(), 0x500000);
    let header = header();
    let loaded = LoadedKernel::new_elf_parsed(&header, &elf, &[], &QuirkSet::new(), Arch::X64, &vec![at(0x100000, 0x1000)], 0).unwrap();
    assert_eq!(loaded.entry_point, EntryPoint::Multiboot(0x500000));
}

#[test]
fn segments_are_kept_by_virtual_address() {
    let elf = image(
        0,
        vec![
            program_header(0x3000, 0x103000, 0, 1, 0x10),
            program_header(0x1000, 0x101000, 1, 1, 0x10),
            program_header(0x2000, 0x102000, 2, 1, 0x10),
            program_header(0x1000, 0x104000, 3, 1, 0x10),
        ],
    );
    let allocations = vec![at(0x103000, 0x10), at(0x101000, 0x10), at(0x102000, 0x10), at(0x104000, 0x10)];
    let mut loader = OurElfLoader::new(0x2008, true);
    loader.load_elf(&elf, &[10, 11, 12, 13], &allocations).unwrap();
    assert_eq!(loader.entry_point(), 0x102008);
    let segments = loader.into_segments();
    assert_eq!(segments.iter().map(|s| s.vaddr).collect::<Vec<_>>(), vec![0x1000, 0x2000, 0x3000]);
    // the later segment at the same virtual address has taken the place of the first
    assert_eq!(segments[0].allocation.ptr, 0x104000);
    assert_eq!(segments[0].contents[0], 13);
    assert_eq!(segments[2].contents[0], 10);
}

#[test]
fn load_elf_checks_allocations_and_file() {
    let elf = image(0, vec![program_header(0x1000, 0x101000, 2, 4, 0x10)]);
    let data = [0; 6];
    let mut loader = OurElfLoader::new(0, true);
    assert_eq!(loader.load_elf(&elf, &data, &vec![]), Err(Status::LoadError));
    assert_eq!(loader.load_elf(&elf, &data, &vec![at(0x101000, 0x11)]), Err(Status::LoadError));
    assert_eq!(loader.load_elf(&elf, &data, &vec![at(0x102000, 0x10)]), Err(Status::LoadError));
    assert_eq!(loader.load_elf(&elf, &data[..5], &vec![at(0x101000, 0x10)]), Err(Status::LoadError));
    assert_eq!(loader.segment_count(), 0);
    assert_eq!(loader.load_elf(&elf, &data, &vec![at(0x101000, 0x10)]), Ok(()));
    let larger_in_file = image(0, vec![program_header(0x1000, 0x101000, 0, 6, 4)]);
    let mut loader = OurElfLoader::new(0, true);
    assert_eq!(loader.load_elf(&larger_in_file, &data, &vec![at(0x101000, 4)]), Err(Status::LoadError));
}

#[test]
fn an_elf_file_is_read_and_loaded() {
    let file = elf_file(0x40_0010, 0x40_0000, 0x10_0000, &[0xde, 0xad, 0xbe, 0xef], 0x20, false);
    let elf = read_elf(&file).unwrap();
    assert_eq!(elf.entry, 0x40_0010);
    assert!(elf.is_64);
    assert!(elf.little_endian);
    assert_eq!(
        elf.program_headers,
        vec![ProgramHeader { p_type: PT_LOAD, p_offset: 120, p_vaddr: 0x40_0000, p_paddr: 0x10_0000, p_filesz: 4, p_memsz: 0x20 }]
    );
    assert_eq!(elf.section_headers, vec![]);
    assert!(read_elf(&file[..40]).is_none());
    assert!(read_elf(b"this is not an ELF file, but it is long enough to hold the header of one").is_none());

    let mut header = header();
    let allocations = vec![at(0x10_0000, 0x20)];
    let loaded = LoadedKernel::new(&file, &header, &QuirkSet::new(), Arch::X64, &allocations, 0x7000).unwrap();
    assert_eq!(loaded.entry_point, EntryPoint::Multiboot(0x10_0010));
    assert_eq!(loaded.load_base_address, None);
    assert_eq!(loaded.allocations.len(), 1);
    assert_eq!(loaded.allocations[0].contents[..6], [0xde, 0xad, 0xbe, 0xef, 0, 0]);
    let symbols = loaded.symbols.unwrap();
    assert_eq!((symbols.num, symbols.size, symbols.addr, symbols.shndx), (0, 64, 0x7000, 0));
    assert_eq!(symbols.memory, vec![]);
    // the entry address of the header takes precedence
    header.entry_address = Some(0x10_0004);
    let loaded = LoadedKernel::new_elf(&header, &file, &QuirkSet::new(), Arch::X64, &allocations, 0).unwrap();
    assert_eq!(loaded.entry_point, EntryPoint::Multiboot(0x10_0004));
    // what is no ELF file is not loaded
    assert_eq!(
        LoadedKernel::new(b"no kernel", &header, &QuirkSet::new(), Arch::X64, &allocations, 0).unwrap_err(),
        Status::LoadError
    );
    // a kernel with load addresses is loaded as an ELF file if the quirk says so
    header.load_addresses = Some(LoadAddresses { header_addr: 0x10_0000, load_addr: 0x10_0000, load_end_addr: 0, bss_end_addr: 0 });
    let forced = LoadedKernel::new(&file, &header, &quirks(&[Quirk::ForceElf]), Arch::X64, &allocations, 0).unwrap();
    assert_eq!(forced.load_base_address, None);
    assert!(LoadedKernel::new(&file, &header, &QuirkSet::new(), Arch::X64, &allocations, 0).is_err());
}

#[test]
fn symbols_are_copied_and_headers_rewritten() {
    let file = elf_file(0x40_0000, 0x40_0000, 0x10_0000, &[0xde, 0xad, 0xbe, 0xef], 4, true);
    let elf = read_elf(&file).unwrap();
    assert_eq!(elf.e_shnum, 2);
    assert_eq!(elf.e_shentsize, 64);
    assert_eq!(elf.section_headers.len(), 2);
    assert_eq!(elf.section_headers[1].sh_offset, 120);
    assert_eq!(symbols_capacity(&elf), Some(2 * 64 + 4));
    let symbols = symbols(&elf, &file, 0x5000).unwrap();
    assert_eq!((symbols.num, symbols.size, symbols.shndx), (2, 64, 0));
    // the first section is empty, the second one has four bytes
    assert_eq!(symbols.addr, 0x5004);
    assert_eq!(symbols.memory.len(), 4 + 2 * 64);
    assert_eq!(symbols.memory[..4], [0xde, 0xad, 0xbe, 0xef]);
    // the section headers are those of the file, but for the addresses
    let first = &symbols.memory[4..68];
    let second = &symbols.memory[68..];
    assert_eq!(first[16..24], 0x5000u64.to_le_bytes());
    assert_eq!(first[..16], file[124..140]);
    assert_eq!(first[24..], file[148..188]);
    assert_eq!(second[..16], file[188..204]);
    assert_eq!(second[16..24], 0x5000u64.to_le_bytes());
    assert_eq!(second[24..], file[212..252]);
}

#[test]
fn symbols_need_sections_in_the_file() {
    let section = SectionHeader { sh_name: 0, sh_type: 1, sh_flags: 0, sh_addr: 0, sh_offset: 4, sh_size: 8, sh_link: 0, sh_info: 0, sh_addralign: 1, sh_entsize: 0 };
    let loaded_section = SectionHeader { sh_addr: 0x1000, ..section };
    let bss = SectionHeader { sh_type: SHT_NOBITS, sh_size: 0x10000, ..section };
    let mut elf = image(0, vec![]);
    elf.is_64 = false;
    elf.e_shnum = 4;
    elf.e_shentsize = 40;
    elf.section_headers = vec![section, loaded_section, bss];
    let data = [9; 12];
    assert_eq!(symbols_capacity(&elf), Some(4 * 40 + 8 + 0x10000));
    let made = symbols(&elf, &data, 0x100).unwrap();
    assert_eq!(made.addr, 0x108);
    assert_eq!(made.memory.len(), 8 + 4 * 40);
    assert_eq!(made.memory[..8], [9; 8]);
    assert_eq!(made.memory[8 + 12..8 + 16], 0x100u32.to_le_bytes());
    assert_eq!(made.memory[8 + 40 + 12..8 + 40 + 16], 0x1000u32.to_le_bytes());
    assert_eq!(made.memory[8 + 80 + 12..8 + 80 + 16], 0u32.to_le_bytes());
    assert_eq!(made.memory[8 + 120..], [0; 40]);
    // the section does not lie in the file
    assert_eq!(symbols(&elf, &data[..11], 0x100).unwrap_err(), Status::LoadError);
    // the file header leaves too little room for a section header
    elf.e_shentsize = 39;
    assert_eq!(symbols(&elf, &data, 0x100).unwrap_err(), Status::LoadError);
    elf.e_shentsize = 40;
    elf.e_shnum = 2;
    assert_eq!(symbols(&elf, &data, 0x100).unwrap_err(), Status::LoadError);
    elf.e_shnum = 3;
    assert_eq!(symbols(&elf, &data, u64::MAX - 4).unwrap_err(), Status::LoadError);
    assert!(symbols(&elf, &data, u64::MAX - 8).is_ok());
}

#[test]
fn relocations_are_not_supported() {
    let header = header();
    let allocations = vec![at(0x100000, 0x1000)];
    for (dynrelas, dynrels) in [(1, 0), (0, 2), (3, 4)] {
        let mut elf = image(0x100000, vec![program_header(0x100000, 0x100000, 0, 0, 0x1000)]);
        elf.dynrelas = dynrelas;
        elf.dynrels = dynrels;
        assert!(elf.has_relocations());
        let loaded = LoadedKernel::new_elf_parsed(&header, &elf, &[], &QuirkSet::new(), Arch::X64, &allocations, 0);
        assert_eq!(loaded.unwrap_err(), Status::Unsupported);
        // whatever else is wrong
        let loaded = LoadedKernel::new_elf_parsed(&header, &elf, &[], &QuirkSet::new(), Arch::X64, &vec![], 0);
        assert_eq!(loaded.unwrap_err(), Status::Unsupported);
    }
    let elf = image(0x100000, vec![program_header(0x100000, 0x100000, 0, 0, 0x1000)]);
    assert!(!elf.has_relocations());
    assert!(LoadedKernel::new_elf_parsed(&header, &elf, &[], &QuirkSet::new(), Arch::X64, &allocations, 0).is_ok());
    let file = elf_file(0x40_0010, 0x40_0000, 0x10_0000, &[1, 2, 3, 4], 0x20, false);
    assert!(!read_elf(&file).unwrap().has_relocations());
}

#[test]
fn the_address_behind_a_segment_is_not_in_it() {
    // the entry point is the first address of the first segment and the address behind the second
    let elf = image(
        0x2000,
        vec![program_header(0x2000, 0x200000, 0, 0, 0x1000), program_header(0x1000, 0x100000, 0, 0, 0x1000)],
    );
    let allocations = vec![at(0x200000, 0x1000), at(0x100000, 0x1000)];
    let mut loader = OurElfLoader::new(elf.entry, true);
    loader.load_elf(&elf, &[], &allocations).unwrap();
    assert!(loader.found_entry_point());
    assert_eq!(loader.entry_point(), 0x200000);
    // right behind the only segment is in no segment
    let elf = image(0x2000, vec![program_header(0x1000, 0x100000, 0, 0, 0x1000)]);
    let mut loader = OurElfLoader::new(elf.entry, true);
    loader.load_elf(&elf, &[], &vec![at(0x100000, 0x1000)]).unwrap();
    assert!(!loader.found_entry_point());
    assert_eq!(loader.entry_point(), 0x2000);
    let loaded = LoadedKernel::new_elf_parsed(&header(), &elf, &[], &QuirkSet::new(), Arch::X64, &vec![at(0x100000, 0x1000)], 0).unwrap();
    assert_eq!(loaded.entry_point, EntryPoint::Multiboot(0x2000));
    // the last byte of the segment is in it
    let elf = image(0x1fff, vec![program_header(0x1000, 0x100000, 0, 0, 0x1000)]);
    let mut loader = OurElfLoader::new(elf.entry, true);
    loader.load_elf(&elf, &[], &vec![at(0x100000, 0x1000)]).unwrap();
    assert_eq!(loader.entry_point(), 0x100fff);
}

#[test]
fn load_elf_refuses_relocations() {
    let mut elf = image(0x100000, vec![program_header(0x100000, 0x100000, 0, 0, 0x1000)]);
    elf.dynrels = 1;
    let mut loader = OurElfLoader::new(elf.entry, true);
    assert_eq!(loader.load_elf(&elf, &[], &vec![at(0x100000, 0x1000)]), Err(Status::Unsupported));
    assert_eq!(loader.load_elf(&elf, &[], &vec![]), Err(Status::Unsupported));
    assert_eq!(loader.segment_count(), 0);
    elf.dynrels = 0;
    assert_eq!(loader.load_elf(&elf, &[], &vec![]), Err(Status::LoadError));
    assert_eq!(loader.load_elf(&elf, &[], &vec![at(0x100000, 0x1000)]), Ok(()));
}
