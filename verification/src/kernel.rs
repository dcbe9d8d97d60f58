//! Loading a kernel.
//!
//! A Multiboot kernel tells the loader where it wants to live in one of two
//! ways: with addresses in its Multiboot header, or with the program headers
//! of its ELF file. Which way it is, is decided once; what comes out is the
//! same in both: segments in memory and an entry point.
use vstd::prelude::*;
use crate::elf::{
    all_can_load, lemma_loaded_keeps_virtual_entry, loadable_headers, loaded, parse_elf, parsed_elf, symbol_memory, symbols,
    symbols_possible, copied_bytes, ElfImage, LoadedSegment, LoaderView, OurElfLoader, SegmentView,
    Symbols, zeroes,
};
use crate::mem::Allocation;
use crate::quirk::{Quirk, QuirkSet};
use crate::status::Status;
use crate::video::VideoMode;

verus! {

/// The kind of machine we are running on.
#[derive(Clone, Copy, Debug, PartialEq, Eq, Structural)]
pub enum Arch {
    /// 32-bit x86
    Ia32,
    /// 64-bit x86
    X64,
}

/// The addresses of a kernel that is not to be loaded as an ELF file.
#[derive(Clone, Copy, Debug, PartialEq, Eq, Structural)]
pub struct LoadAddresses {
    /// the address that the header itself is loaded to
    pub header_addr: u32,
    /// the address of the beginning of the text segment
    pub load_addr: u32,
    /// the address of the end of the data segment;
    /// 0 if text and data are the whole file
    pub load_end_addr: u32,
    /// the address of the end of the bss segment; 0 if there is none
    pub bss_end_addr: u32,
}

/// What the Multiboot header of a kernel asks for.
#[derive(Clone, Copy, Debug, PartialEq, Eq, Structural)]
pub struct KernelHeader {
    /// the index at which the header starts in the file
    pub header_start: u32,
    /// where to load the kernel, if the header says so
    pub load_addresses: Option<LoadAddresses>,
    /// where to enter the kernel in the Multiboot machine state
    pub entry_address: Option<u32>,
    /// where to enter the kernel on 32-bit UEFI
    pub efi32_entry_address: Option<u32>,
    /// where to enter the kernel on 64-bit UEFI
    pub efi64_entry_address: Option<u32>,
    /// whether the kernel wants the Boot Services to be exited
    pub should_exit_boot_services: bool,
    /// the video mode that the kernel would like
    pub preferred_video_mode: Option<VideoMode>,
}

/// How to give execution to the kernel
///
/// Currently, there are two options: UEFI and Multiboot
#[derive(Clone, Copy, Debug, PartialEq, Eq, Structural)]
pub enum EntryPoint {
    /// Uefi machine state
    ///
    /// This is pretty simple: Keep the current state and just pass the
    /// information struct.
    Uefi(u64),
    /// Multiboot machine state
    Multiboot(u64),
}

/// In which way a kernel says where it wants to live.
#[derive(Clone, Copy, Debug, PartialEq, Eq, Structural)]
pub enum KernelFormat {
    /// with addresses in its Multiboot header
    MultibootAddressed,
    /// with the program headers of its ELF file
    Elf,
}

/// A kernel loaded into memory
#[derive(Debug)]
pub struct LoadedKernel {
    pub allocations: Vec<LoadedSegment>,
    pub entry_point: EntryPoint,
    pub load_base_address: Option<u32>,
    pub should_exit_boot_services: bool,
    pub symbols: Option<Symbols>,
}

/// Where the kernel's bytes are in the file and how much memory it takes.
#[derive(Clone, Copy, Debug, PartialEq, Eq, Structural)]
pub struct MultibootLayout {
    /// where text and data begin in the file
    pub load_offset: u64,
    /// how long text and data are
    pub text_data_len: u64,
    /// how much memory the kernel takes, bss included
    pub kernel_length: u64,
}

/// The format of a kernel: the addresses of the header count if there are
/// any, unless `ForceElf` is set.
pub open spec fn format_of(header: KernelHeader, quirks: Set<Quirk>) -> KernelFormat {
    if header.load_addresses is Some && !quirks.contains(Quirk::ForceElf) {
        KernelFormat::MultibootAddressed
    } else {
        KernelFormat::Elf
    }
}

/// Whether the Boot Services are going to be exited: the kernel wants it, and
/// `DontExitBootServices` is not set.
pub open spec fn exits_boot_services(header: KernelHeader, quirks: Set<Quirk>) -> bool {
    !quirks.contains(Quirk::DontExitBootServices) && header.should_exit_boot_services
}

/// The UEFI entry address in the header that is meant for the machine.
pub open spec fn efi_entry_address(header: KernelHeader, arch: Arch) -> Option<u32> {
    match arch {
        Arch::Ia32 => header.efi32_entry_address,
        Arch::X64 => header.efi64_entry_address,
    }
}

/// The UEFI entry point of the kernel: the one in the header that is meant
/// for this machine, but only if the Boot Services are not going to be
/// exited. A kernel that has one and still wants them exited is at odds with
/// Multiboot and is taken not to be UEFI-aware.
pub open spec fn uefi_entry_of(header: KernelHeader, quirks: Set<Quirk>, arch: Arch) -> Option<
    EntryPoint,
> {
    match efi_entry_address(header, arch) {
        Some(address) => if exits_boot_services(header, quirks) {
            None
        } else {
            Some(EntryPoint::Uefi(address as u64))
        },
        None => None,
    }
}

/// The entry point that the header names: the UEFI one if it counts, else
/// the Multiboot one, if there is any.
pub open spec fn header_entry_of(header: KernelHeader, quirks: Set<Quirk>, arch: Arch) -> Option<
    EntryPoint,
> {
    match uefi_entry_of(header, quirks, arch) {
        Some(entry) => Some(entry),
        None => match header.entry_address {
            Some(address) => Some(EntryPoint::Multiboot(address as u64)),
            None => None,
        },
    }
}

/// The entry point of an ELF kernel: the one that the header names, else the
/// one that the loader has found.
pub open spec fn elf_entry_of(
    header: KernelHeader,
    quirks: Set<Quirk>,
    arch: Arch,
    loader_entry: u64,
) -> EntryPoint {
    match header_entry_of(header, quirks, arch) {
        Some(entry) => entry,
        None => EntryPoint::Multiboot(loader_entry),
    }
}

/// Where the bytes of a kernel with load addresses are in a file of
/// `file_len` bytes whose header starts at `header_start`, and how much
/// memory the kernel takes. `None` if the addresses contradict each other or
/// the file.
pub open spec fn multiboot_layout(addresses: LoadAddresses, header_start: u32, file_len: int) -> Option<
    MultibootLayout,
> {
    if addresses.header_addr < addresses.load_addr || header_start < addresses.header_addr
        - addresses.load_addr {
        None
    } else {
        let load_offset = header_start - (addresses.header_addr - addresses.load_addr);
        if addresses.load_end_addr == 0 && load_offset > file_len {
            None
        } else if addresses.load_end_addr != 0 && addresses.load_end_addr < addresses.load_addr {
            None
        } else {
            let text_data_len = if addresses.load_end_addr == 0 {
                file_len - load_offset
            } else {
                addresses.load_end_addr - addresses.load_addr
            };
            if addresses.bss_end_addr != 0 && addresses.bss_end_addr < addresses.load_addr {
                None
            } else if text_data_len > u64::MAX {
                None
            } else {
                Some(
                    MultibootLayout {
                        load_offset: load_offset as u64,
                        text_data_len: text_data_len as u64,
                        kernel_length: if addresses.bss_end_addr == 0 {
                            text_data_len as u64
                        } else {
                            (addresses.bss_end_addr - addresses.load_addr) as u64
                        },
                    },
                )
            }
        }
    }
}

/// What the memory of a kernel with load addresses holds: text and data from
/// the file, as far as the file has them, and zeroes behind.
pub open spec fn multiboot_contents(layout: MultibootLayout, kernel: Seq<u8>) -> Seq<u8> {
    Seq::new(
        layout.kernel_length as nat,
        |i: int|
            if i < layout.text_data_len && layout.load_offset + i < kernel.len() {
                kernel[layout.load_offset + i]
            } else {
                0u8
            },
    )
}

/// Whether a kernel with load addresses can be loaded into the allocation.
pub open spec fn can_load_multiboot(
    kernel: Seq<u8>,
    header: KernelHeader,
    quirks: Set<Quirk>,
    arch: Arch,
    allocation: Allocation,
) -> bool {
    &&& header.load_addresses matches Some(addresses)
    &&& multiboot_layout(addresses, header.header_start, kernel.len() as int) matches Some(layout)
    &&& layout.kernel_length <= usize::MAX
    &&& allocation.len == layout.kernel_length
    &&& allocation.placed_for(addresses.load_addr as u64)
    &&& header_entry_of(header, quirks, arch) is Some
}

/// The format of a kernel.
pub fn kernel_format(header: &KernelHeader, quirks: &QuirkSet) -> (r: KernelFormat)
    ensures
        r == format_of(*header, quirks@),
{
    if header.load_addresses.is_some() && !quirks.contains(Quirk::ForceElf) {
        KernelFormat::MultibootAddressed
    } else {
        KernelFormat::Elf
    }
}

/// Whether the Boot Services are going to be exited.
pub fn should_exit_boot_services(header: &KernelHeader, quirks: &QuirkSet) -> (r: bool)
    ensures
        r == exits_boot_services(*header, quirks@),
{
    !quirks.contains(Quirk::DontExitBootServices) && header.should_exit_boot_services
}

/// Check whether the kernel is compatible to the firmware we are running on.
pub fn get_kernel_uefi_entry(header: &KernelHeader, quirks: &QuirkSet, arch: Arch) -> (r: Option<
    EntryPoint,
>)
    ensures
        r == uefi_entry_of(*header, quirks@, arch),
{
    let address: Option<u32> = match arch {
        Arch::Ia32 => header.efi32_entry_address,
        Arch::X64 => header.efi64_entry_address,
    };
    match address {
        Some(uefi_entry) => {
            if header.should_exit_boot_services && !quirks.contains(Quirk::DontExitBootServices) {
                // The kernel seems to be UEFI-aware but wants us to exit Boot Services.
                // This is at odds with Multiboot.
                // So, let's just pretend it isn't UEFI-aware.
                None
            } else {
                Some(EntryPoint::Uefi(uefi_entry as u64))
            }
        },
        None => None,
    }
}

/// The entry point that the header names.
pub fn header_entry(header: &KernelHeader, quirks: &QuirkSet, arch: Arch) -> (r: Option<EntryPoint>)
    ensures
        r == header_entry_of(*header, quirks@, arch),
{
    match get_kernel_uefi_entry(header, quirks, arch) {
        Some(entry) => Some(entry),
        None => match header.entry_address {
            Some(address) => Some(EntryPoint::Multiboot(address as u64)),
            None => None,
        },
    }
}

/// Where the bytes of a kernel with load addresses are in the file, and how
/// much memory the kernel takes.
pub fn compute_layout(addresses: &LoadAddresses, header_start: u32, file_len: usize) -> (r: Option<
    MultibootLayout,
>)
    ensures
        r == multiboot_layout(*addresses, header_start, file_len as int),
{
    if addresses.header_addr < addresses.load_addr {
        return None;
    }
    let header_offset: u32 = addresses.header_addr - addresses.load_addr;
    if header_start < header_offset {
        return None;
    }
    let load_offset: u64 = (header_start - header_offset) as u64;
    let text_data_len: u64 = if addresses.load_end_addr == 0 {
        if load_offset > file_len as u64 {
            return None;
        }
        file_len as u64 - load_offset
    } else {
        if addresses.load_end_addr < addresses.load_addr {
            return None;
        }
        (addresses.load_end_addr - addresses.load_addr) as u64
    };
    let kernel_length: u64 = if addresses.bss_end_addr == 0 {
        text_data_len
    } else {
        if addresses.bss_end_addr < addresses.load_addr {
            return None;
        }
        (addresses.bss_end_addr - addresses.load_addr) as u64
    };
    Some(MultibootLayout { load_offset, text_data_len, kernel_length })
}

/// The memory that a kernel with load addresses asks for: its length at its
/// load address. `None` if there are no load addresses or they contradict
/// each other or the file.
pub fn multiboot_request(header: &KernelHeader, file_len: usize) -> (r: Option<(u64, u64)>)
    ensures
        r == match header.load_addresses {
            Some(addresses) => match multiboot_layout(
                addresses,
                header.header_start,
                file_len as int,
            ) {
                Some(layout) => Some((addresses.load_addr as u64, layout.kernel_length)),
                None => None,
            },
            None => None,
        },
{
    match &header.load_addresses {
        Some(addresses) => match compute_layout(addresses, header.header_start, file_len) {
            Some(layout) => Some((addresses.load_addr as u64, layout.kernel_length)),
            None => None,
        },
        None => None,
    }
}

impl LoadedKernel {
    /// Load a kernel which has its addresses specified inside the Multiboot header.
    ///
    /// `allocation` is the memory that has been allocated for what
    /// [`multiboot_request`] asks. The kernel's text and data are copied from
    /// the file, and the rest of the memory is filled with zeroes. This
    /// fails with `LoadError` where the header has no load addresses or they
    /// contradict each other or the file, where the allocation has not been
    /// made for this kernel, and where the header names no entry point.
    pub fn new_multiboot(
        kernel: &[u8],
        header: &KernelHeader,
        quirks: &QuirkSet,
        arch: Arch,
        allocation: Allocation,
    ) -> (r: Result<LoadedKernel, Status>)
        ensures
            r is Ok <==> can_load_multiboot(kernel@, *header, quirks@, arch, allocation),
            r matches Ok(loaded_kernel) ==> {
                let addresses = header.load_addresses.unwrap();
                let layout = multiboot_layout(
                    addresses,
                    header.header_start,
                    kernel@.len() as int,
                ).unwrap();
                &&& loaded_kernel.allocations@.len() == 1
                &&& loaded_kernel.allocations@[0]@ == (SegmentView {
                    vaddr: addresses.load_addr as u64,
                    allocation,
                    contents: multiboot_contents(layout, kernel@),
                })
                &&& Some(loaded_kernel.entry_point) == header_entry_of(*header, quirks@, arch)
                &&& loaded_kernel.load_base_address == Some(addresses.load_addr)
                &&& loaded_kernel.should_exit_boot_services == exits_boot_services(
                    *header,
                    quirks@,
                )
                &&& loaded_kernel.symbols is None
            },
            r matches Err(e) ==> e == Status::LoadError,
    {
        let addresses: LoadAddresses = match header.load_addresses {
            Some(addresses) => addresses,
            None => {
                return Err(Status::LoadError);
            },
        };
        let file_len: usize = kernel.len();
        let layout: MultibootLayout = match compute_layout(
            &addresses,
            header.header_start,
            file_len,
        ) {
            Some(layout) => layout,
            None => {
                return Err(Status::LoadError);
            },
        };
        if layout.kernel_length > usize::MAX as u64 || allocation.len != layout.kernel_length
            || !allocation.is_placed_for(addresses.load_addr as u64) {
            return Err(Status::LoadError);
        }
        let entry_point: EntryPoint = match header_entry(header, quirks, arch) {
            Some(entry_point) => entry_point,
            None => {
                return Err(Status::LoadError);
            },
        };
        // copy from beginning of text to end of data segment and fill the rest with zeroes
        let mut contents: Vec<u8> = zeroes(layout.kernel_length as usize);
        let mut i: usize = 0;
        while i < contents.len() && (i as u64) < layout.text_data_len && layout.load_offset
            < file_len as u64 && (i as u64) < file_len as u64 - layout.load_offset
            invariant
                file_len == kernel@.len(),
                contents@.len() == layout.kernel_length,
                i <= contents@.len(),
                forall|k: int|
                    0 <= k < i ==> contents@[k] == multiboot_contents(layout, kernel@)[k],
                forall|k: int| i <= k < contents@.len() ==> contents@[k] == 0u8,
            decreases contents@.len() - i,
        {
            contents[i] = kernel[layout.load_offset as usize + i];
            i += 1;
        }
        assert(contents@ == multiboot_contents(layout, kernel@));
        let mut allocations: Vec<LoadedSegment> = Vec::new();
        allocations.push(LoadedSegment { vaddr: addresses.load_addr as u64, allocation, contents });
        Ok(
            LoadedKernel {
                allocations,
                entry_point,
                load_base_address: Some(addresses.load_addr),
                should_exit_boot_services: should_exit_boot_services(header, quirks),
                symbols: None,
            },
        )
    }

    /// Get the symbols struct.
    /// This is needed for the Multiboot Information struct.
    /// The kernel keeps none of it.
    pub fn symbols_struct(&mut self) -> (r: Option<Symbols>)
        ensures
            r == old(self).symbols,
            final(self).symbols is None,
            final(self).allocations == old(self).allocations,
            final(self).entry_point == old(self).entry_point,
            final(self).load_base_address == old(self).load_base_address,
            final(self).should_exit_boot_services == old(self).should_exit_boot_services,
    {
        self.symbols.take()
    }
}

/// A new loader for a kernel with this entry point, as contracts see
/// it.
pub open spec fn new_loader(entry: u64, should_exit_boot_services: bool) -> LoaderView {
    LoaderView {
        segments: Seq::empty(),
        virtual_entry_point: entry,
        physical_entry_point: None,
        should_exit_boot_services,
    }
}

/// Whether an ELF kernel can be loaded into the allocations, and its symbols
/// be put together at `symbol_base`. A kernel that asks for relocations
/// cannot.
pub open spec fn can_load_elf(
    elf: ElfImage,
    kernel: Seq<u8>,
    allocations: Seq<Allocation>,
    symbol_base: u64,
) -> bool {
    &&& !elf.wants_relocations()
    &&& all_can_load(
        loadable_headers(elf.program_headers@),
        allocations,
        kernel.len() as int,
        elf.entry,
    )
    &&& symbols_possible(elf, kernel, symbol_base)
}

/// Whether `r` is what loading the ELF kernel gives.
pub open spec fn is_loaded_elf(
    r: Result<LoadedKernel, Status>,
    header: KernelHeader,
    elf: ElfImage,
    kernel: Seq<u8>,
    quirks: Set<Quirk>,
    arch: Arch,
    allocations: Seq<Allocation>,
    symbol_base: u64,
) -> bool {
    &&& r is Ok <==> can_load_elf(elf, kernel, allocations, symbol_base)
    &&& r matches Err(e) ==> e == if elf.wants_relocations() {
        Status::Unsupported
    } else {
        Status::LoadError
    }
    &&& r matches Ok(loaded_kernel) ==> {
        let loader = loaded(
            new_loader(elf.entry, exits_boot_services(header, quirks)),
            loadable_headers(elf.program_headers@),
            allocations,
            kernel,
            allocations.len(),
        );
        &&& loaded_kernel.allocations@.len() == loader.segments.len()
        &&& forall|i: int|
            0 <= i < loader.segments.len() ==> (#[trigger] loaded_kernel.allocations@[i])@
                == loader.segments[i]
        &&& loaded_kernel.entry_point == elf_entry_of(
            header,
            quirks,
            arch,
            match loader.physical_entry_point {
                Some(address) => address,
                None => elf.entry,
            },
        )
        &&& loaded_kernel.load_base_address is None
        &&& loaded_kernel.should_exit_boot_services == exits_boot_services(header, quirks)
        &&& loaded_kernel.symbols matches Some(symbols)
        &&& symbols.num == elf.e_shnum
        &&& symbols.size == elf.e_shentsize
        &&& symbols.shndx == elf.e_shstrndx
        &&& symbols.addr == symbol_base + copied_bytes(
            elf.section_headers@,
            kernel,
            elf.section_headers@.len(),
        ).len()
        &&& symbols.memory@ == symbol_memory(elf, kernel, symbol_base)
    }
}

/// Whether `r` is what loading the kernel gives.
pub open spec fn is_loaded_kernel(
    r: Result<LoadedKernel, Status>,
    kernel: Seq<u8>,
    header: KernelHeader,
    quirks: Set<Quirk>,
    arch: Arch,
    allocations: Seq<Allocation>,
    symbol_base: u64,
) -> bool {
    match format_of(header, quirks) {
        KernelFormat::MultibootAddressed => {
            &&& r is Ok <==> allocations.len() == 1 && can_load_multiboot(
                kernel,
                header,
                quirks,
                arch,
                allocations[0],
            )
            &&& r matches Err(e) ==> e == Status::LoadError
            &&& r matches Ok(loaded_kernel) ==> {
                &&& loaded_kernel.allocations@.len() == 1
                &&& loaded_kernel.allocations@[0]@ == (SegmentView {
                    vaddr: header.load_addresses.unwrap().load_addr as u64,
                    allocation: allocations[0],
                    contents: multiboot_contents(
                        multiboot_layout(
                            header.load_addresses.unwrap(),
                            header.header_start,
                            kernel.len() as int,
                        ).unwrap(),
                        kernel,
                    ),
                })
                &&& Some(loaded_kernel.entry_point) == header_entry_of(header, quirks, arch)
                &&& loaded_kernel.load_base_address == Some(
                    header.load_addresses.unwrap().load_addr,
                )
                &&& loaded_kernel.should_exit_boot_services == exits_boot_services(header, quirks)
                &&& loaded_kernel.symbols is None
            }
        },
        KernelFormat::Elf => match parsed_elf(kernel) {
            Some(elf) => is_loaded_elf(
                r,
                header,
                elf,
                kernel,
                quirks,
                arch,
                allocations,
                symbol_base,
            ),
            None => r matches Err(e) && e == Status::LoadError,
        },
    }
}

/// Whether the kernel can be loaded into the allocations.
pub open spec fn kernel_loadable(
    kernel: Seq<u8>,
    header: KernelHeader,
    quirks: Set<Quirk>,
    arch: Arch,
    allocations: Seq<Allocation>,
    symbol_base: u64,
) -> bool {
    match format_of(header, quirks) {
        KernelFormat::MultibootAddressed => allocations.len() == 1 && can_load_multiboot(
            kernel,
            header,
            quirks,
            arch,
            allocations[0],
        ),
        KernelFormat::Elf => match parsed_elf(kernel) {
            Some(elf) => can_load_elf(elf, kernel, allocations, symbol_base),
            None => false,
        },
    }
}

/// A kernel is loaded exactly where it can be.
pub proof fn lemma_loaded_where_loadable(
    r: Result<LoadedKernel, Status>,
    kernel: Seq<u8>,
    header: KernelHeader,
    quirks: Set<Quirk>,
    arch: Arch,
    allocations: Seq<Allocation>,
    symbol_base: u64,
)
    requires
        is_loaded_kernel(r, kernel, header, quirks, arch, allocations, symbol_base),
    ensures
        r is Ok <==> kernel_loadable(kernel, header, quirks, arch, allocations, symbol_base),
        r matches Err(e) ==> e == Status::LoadError || e == Status::Unsupported,
{
}

/// Reads a kernel as an ELF file.
pub fn read_elf(kernel: &[u8]) -> (r: Option<ElfImage>)
    ensures
        r == parsed_elf(kernel@),
{
    parse_elf(kernel)
}

impl LoadedKernel {
    /// Load a kernel which uses ELF semantics, from what has been read of
    /// the file.
    ///
    /// `allocations` holds the memory that has been allocated for what
    /// [`crate::elf::load_requests`] asks, in the same order, and
    /// `symbol_base` is the address that the memory of the symbols is going
    /// to have. This fails with `Unsupported` where the kernel asks for
    /// relocations, and with `LoadError` where a segment has no fitting
    /// allocation or does not lie in the file, and where the symbols cannot
    /// be put together.
    pub fn new_elf_parsed(
        header: &KernelHeader,
        elf: &ElfImage,
        kernel: &[u8],
        quirks: &QuirkSet,
        arch: Arch,
        allocations: &Vec<Allocation>,
        symbol_base: u64,
    ) -> (r: Result<LoadedKernel, Status>)
        ensures
            is_loaded_elf(r, *header, *elf, kernel@, quirks@, arch, allocations@, symbol_base),
    {
        let should_exit: bool = should_exit_boot_services(header, quirks);
        let mut loader = OurElfLoader::new(elf.entry, should_exit);
        match loader.load_elf(elf, kernel, allocations) {
            Ok(()) => {},
            Err(e) => {
                return Err(e);
            },
        }
        let symbols: Symbols = match symbols(elf, kernel, symbol_base) {
            Ok(symbols) => symbols,
            Err(_) => {
                return Err(Status::LoadError);
            },
        };
        proof {
            lemma_loaded_keeps_virtual_entry(
                new_loader(elf.entry, exits_boot_services(*header, quirks@)),
                loadable_headers(elf.program_headers@),
                allocations@,
                kernel@,
                allocations@.len(),
            );
        }
        let entry_point: EntryPoint = match header_entry(header, quirks, arch) {
            Some(entry_point) => entry_point,
            None => EntryPoint::Multiboot(loader.entry_point()),
        };
        Ok(
            LoadedKernel {
                allocations: loader.into_segments(),
                entry_point,
                load_base_address: None,
                should_exit_boot_services: should_exit,
                symbols: Some(symbols),
            },
        )
    }

    /// Load a kernel which uses ELF semantics.
    ///
    /// This fails with `LoadError` where the kernel is no ELF file; for the
    /// rest see [`Self::new_elf_parsed`].
    pub fn new_elf(
        header: &KernelHeader,
        kernel: &[u8],
        quirks: &QuirkSet,
        arch: Arch,
        allocations: &Vec<Allocation>,
        symbol_base: u64,
    ) -> (r: Result<LoadedKernel, Status>)
        ensures
            match parsed_elf(kernel@) {
                Some(elf) => is_loaded_elf(
                    r,
                    *header,
                    elf,
                    kernel@,
                    quirks@,
                    arch,
                    allocations@,
                    symbol_base,
                ),
                None => r matches Err(e) && e == Status::LoadError,
            },
    {
        match parse_elf(kernel) {
            Some(elf) => LoadedKernel::new_elf_parsed(
                header,
                &elf,
                kernel,
                quirks,
                arch,
                allocations,
                symbol_base,
            ),
            None => Err(Status::LoadError),
        }
    }

    /// Load a kernel from a vector.
    /// This requires that the Multiboot header has already been parsed.
    ///
    /// The addresses of the header are used if there are any and `ForceElf`
    /// is not set; the kernel then has one allocation. Else the kernel is
    /// loaded as an ELF file.
    pub fn new(
        kernel: &[u8],
        header: &KernelHeader,
        quirks: &QuirkSet,
        arch: Arch,
        allocations: &Vec<Allocation>,
        symbol_base: u64,
    ) -> (r: Result<LoadedKernel, Status>)
        ensures
            is_loaded_kernel(r, kernel@, *header, quirks@, arch, allocations@, symbol_base),
    {
        match kernel_format(header, quirks) {
            KernelFormat::MultibootAddressed => {
                if allocations.len() != 1 {
                    return Err(Status::LoadError);
                }
                LoadedKernel::new_multiboot(kernel, header, quirks, arch, allocations[0])
            },
            KernelFormat::Elf => LoadedKernel::new_elf(
                header,
                kernel,
                quirks,
                arch,
                allocations,
                symbol_base,
            ),
        }
    }
}

} // verus!
