//! The information that is handed to the kernel.
//!
//! The information is put together in two phases. While the firmware still
//! hands out memory, everything but the memory map is collected. The memory
//! map comes last, when no memory changes hands any more; with it the
//! information is final.
use vstd::prelude::*;
use vstd::string::*;
use crate::config::{text_of, Entry};
use crate::config_tables::{RsdpTag, SmbiosTag};
use crate::elf::Symbols;
use crate::kernel::Arch;
use crate::mem::{Allocation, MemoryDescriptor};
use crate::memory_map::{
    all_in_bounds, merged, prepare_information, upper_memory_kb, MapError, MemoryBounds,
    MemoryRegion, RegionType, LOWER_MEMORY_KB,
};
use crate::status::Status;
use crate::video::FramebufferInfo;

verus! {

/// A module in memory.
#[derive(Debug)]
pub struct ModuleInfo {
    /// the address of its first byte
    pub start: u32,
    /// the address behind its last byte
    pub end: u32,
    pub argv: Option<String>,
}

/// Where the section headers of the kernel are.
#[derive(Clone, Copy, Debug, PartialEq, Eq, Structural)]
pub struct SymbolsInfo {
    pub num: u32,
    pub size: u32,
    pub addr: u64,
    pub shndx: u32,
}

/// The firmware's system table and the handle of the loader's image, in the
/// width of the machine.
#[derive(Clone, Copy, Debug, PartialEq, Eq, Structural)]
pub enum EfiPointers {
    Ia32 { system_table_ia32: u32, image_handle32: u32 },
    X64 { system_table_x64: u64, image_handle64: u64 },
}

/// The information while it is being collected.
#[derive(Debug)]
pub struct InfoBuilder {
    pub command_line: Option<String>,
    pub modules: Vec<ModuleInfo>,
    pub symbols: Option<SymbolsInfo>,
    pub boot_loader_name: Option<String>,
    pub framebuffer: Option<FramebufferInfo>,
    pub efi: EfiPointers,
    /// the copy of an RSDP of ACPI 1.0
    pub rsdp_v1: Option<RsdpTag>,
    /// the copy of an RSDP of ACPI 2.0 or later
    pub rsdp_v2: Option<RsdpTag>,
    pub smbios: Vec<SmbiosTag>,
    pub boot_services_not_exited: bool,
    pub image_load_addr: Option<u32>,
}

/// The information as the kernel gets it.
#[derive(Debug)]
pub struct Information {
    /// what was collected
    pub collected: InfoBuilder,
    /// lower and upper memory
    pub memory_bounds: MemoryBounds,
    /// how many regions the memory map has
    pub memory_regions: usize,
}

/// Where the symbols are, without their memory.
pub open spec fn symbols_info(symbols: Symbols) -> SymbolsInfo {
    SymbolsInfo { num: symbols.num, size: symbols.size, addr: symbols.addr, shndx: symbols.shndx }
}

/// Get the symbols struct: where the section headers are.
pub fn symbols_struct(symbols: &Symbols) -> (r: SymbolsInfo)
    ensures
        r == symbols_info(*symbols),
{
    SymbolsInfo { num: symbols.num, size: symbols.size, addr: symbols.addr, shndx: symbols.shndx }
}

/// The pointers into the firmware in the width of the machine; `None` where
/// one of them is too wide for it.
pub open spec fn efi_pointers(arch: Arch, system_table: u64, image_handle: u64) -> Option<
    EfiPointers,
> {
    match arch {
        Arch::Ia32 => if system_table <= u32::MAX && image_handle <= u32::MAX {
            Some(
                EfiPointers::Ia32 {
                    system_table_ia32: system_table as u32,
                    image_handle32: image_handle as u32,
                },
            )
        } else {
            None
        },
        Arch::X64 => Some(
            EfiPointers::X64 { system_table_x64: system_table, image_handle64: image_handle },
        ),
    }
}

/// Whether the module lies in memory that 32 bits can address.
pub open spec fn module_fits(module: Allocation) -> bool {
    module.ptr + module.len <= u32::MAX
}

/// How many modules the kernel is told about: as many as have both memory
/// and an entry in the configuration.
pub open spec fn module_count(modules: Seq<Allocation>, entry: Entry) -> int {
    if modules.len() <= entry.modules@.len() {
        modules.len() as int
    } else {
        entry.modules@.len() as int
    }
}

/// The name of the loader as the kernel is told: name and version with a
/// space between them.
pub open spec fn loader_name(name: Seq<char>, version: Seq<char>) -> Seq<char> {
    name + seq![' '] + version
}

/// Whether the information for the kernel can be collected: every module
/// that the kernel is told about lies in memory that 32 bits can address, and
/// the pointers into the firmware fit the machine.
pub open spec fn can_prepare(
    entry: Entry,
    modules: Seq<Allocation>,
    arch: Arch,
    system_table: u64,
    image_handle: u64,
) -> bool {
    &&& forall|i: int|
        0 <= i < module_count(modules, entry) ==> module_fits(#[trigger] modules[i])
    &&& efi_pointers(arch, system_table, image_handle) is Some
}

/// Whether `info` is what is collected for the kernel before any firmware
/// table is added.
pub open spec fn is_information_for(
    info: InfoBuilder,
    entry: Entry,
    load_base_address: Option<u32>,
    modules: Seq<Allocation>,
    symbols: Option<SymbolsInfo>,
    framebuffer: Option<FramebufferInfo>,
    arch: Arch,
    system_table: u64,
    image_handle: u64,
    boot_services_exited: bool,
    name: Seq<char>,
    version: Seq<char>,
) -> bool {
    &&& text_of(info.command_line) == text_of(entry.argv)
    &&& info.modules@.len() == module_count(modules, entry)
    &&& forall|i: int|
        0 <= i < info.modules@.len() ==> {
            &&& (#[trigger] info.modules@[i]).start == modules[i].ptr
            &&& info.modules@[i].end == modules[i].ptr + modules[i].len
            &&& text_of(info.modules@[i].argv) == text_of(entry.modules@[i].argv)
        }
    &&& info.symbols == symbols
    &&& text_of(info.boot_loader_name) == Some(loader_name(name, version))
    &&& info.framebuffer == framebuffer
    &&& Some(info.efi) == efi_pointers(arch, system_table, image_handle)
    &&& info.rsdp_v1 is None
    &&& info.rsdp_v2 is None
    &&& info.smbios@.len() == 0
    &&& info.boot_services_not_exited == !boot_services_exited
    &&& info.image_load_addr == load_base_address
}

/// Prepare information for the kernel.
///
/// This is everything but the memory map: the command line and the modules
/// of the entry, the symbols, the name of the loader, the framebuffer, the
/// pointers into the firmware, and whether the Boot Services are still
/// there. Copies of firmware tables are added with [`InfoBuilder::set_rsdp`]
/// and [`InfoBuilder::add_smbios_tag`]. This fails with `LoadError` where a
/// module or a pointer is out of the reach of 32 bits.
pub fn prepare_multiboot_information(
    entry: &Entry,
    load_base_address: Option<u32>,
    modules: &Vec<Allocation>,
    symbols: Option<SymbolsInfo>,
    framebuffer: Option<FramebufferInfo>,
    arch: Arch,
    system_table: u64,
    image_handle: u64,
    boot_services_exited: bool,
    name: &str,
    version: &str,
) -> (r: Result<InfoBuilder, Status>)
    ensures
        r is Ok <==> can_prepare(*entry, modules@, arch, system_table, image_handle),
        r matches Err(e) ==> e == Status::LoadError,
        r matches Ok(info) ==> is_information_for(
            info,
            *entry,
            load_base_address,
            modules@,
            symbols,
            framebuffer,
            arch,
            system_table,
            image_handle,
            boot_services_exited,
            name@,
            version@,
        ),
{
    let efi: EfiPointers = match arch {
        Arch::Ia32 => {
            if system_table > u32::MAX as u64 || image_handle > u32::MAX as u64 {
                return Err(Status::LoadError);
            }
            EfiPointers::Ia32 {
                system_table_ia32: system_table as u32,
                image_handle32: image_handle as u32,
            }
        },
        Arch::X64 => EfiPointers::X64 {
            system_table_x64: system_table,
            image_handle64: image_handle,
        },
    };
    let count: usize = if modules.len() <= entry.modules.len() {
        modules.len()
    } else {
        entry.modules.len()
    };
    let mut mb_modules: Vec<ModuleInfo> = Vec::new();
    let mut i: usize = 0;
    while i < count
        invariant
            i <= count,
            count == module_count(modules@, *entry),
            mb_modules@.len() == i,
            forall|k: int| 0 <= k < i ==> module_fits(#[trigger] modules@[k]),
            forall|k: int|
                0 <= k < i ==> {
                    &&& (#[trigger] mb_modules@[k]).start == modules@[k].ptr
                    &&& mb_modules@[k].end == modules@[k].ptr + modules@[k].len
                    &&& text_of(mb_modules@[k].argv) == text_of(entry.modules@[k].argv)
                },
        decreases count - i,
    {
        let module: Allocation = modules[i];
        if module.ptr > u32::MAX as u64 || module.len > u32::MAX as u64 - module.ptr {
            assert(!module_fits(modules@[i as int]));
            return Err(Status::LoadError);
        }
        let argv: Option<String> = match &entry.modules[i].argv {
            Some(argv) => Some(argv.clone()),
            None => None,
        };
        mb_modules.push(
            ModuleInfo { start: module.ptr as u32, end: (module.ptr + module.len) as u32, argv },
        );
        i += 1;
    }
    let command_line: Option<String> = match &entry.argv {
        Some(argv) => Some(argv.clone()),
        None => None,
    };
    proof {
        reveal_strlit(" ");
    }
    let mut boot_loader_name: String = String::from_str(name);
    boot_loader_name.append(" ");
    boot_loader_name.append(version);
    assert(boot_loader_name@ == loader_name(name@, version@));
    Ok(
        InfoBuilder {
            command_line,
            modules: mb_modules,
            symbols,
            boot_loader_name: Some(boot_loader_name),
            framebuffer,
            efi,
            rsdp_v1: None,
            rsdp_v2: None,
            smbios: Vec::new(),
            boot_services_not_exited: !boot_services_exited,
            image_load_addr: load_base_address,
        },
    )
}

/// How many memory areas to reserve room for, from what the firmware says
/// about its memory map: the size of the map plus 500 bytes, in entries of
/// the firmware. `None` where the firmware says nothing that can be counted
/// with.
pub fn estimate_memory_areas(map_size: usize, entry_size: usize) -> (r: Option<usize>)
    ensures
        r == if entry_size == 0 || map_size + 500 > usize::MAX {
            None
        } else {
            Some(((map_size + 500) / (entry_size as int)) as usize)
        },
{
    if entry_size == 0 || map_size > usize::MAX - 500 {
        return None;
    }
    Some((map_size + 500) / entry_size)
}

impl InfoBuilder {
    /// Adds the copy of an RSDP. There is room for one of ACPI 1.0 and one of
    /// ACPI 2.0; a second one of a kind takes the place of the first.
    pub fn set_rsdp(&mut self, tag: RsdpTag)
        ensures
            final(self).rsdp_v1 == if tag is V1 {
                Some(tag)
            } else {
                old(self).rsdp_v1
            },
            final(self).rsdp_v2 == if tag is V2 {
                Some(tag)
            } else {
                old(self).rsdp_v2
            },
            final(self).command_line == old(self).command_line,
            final(self).modules == old(self).modules,
            final(self).symbols == old(self).symbols,
            final(self).boot_loader_name == old(self).boot_loader_name,
            final(self).framebuffer == old(self).framebuffer,
            final(self).efi == old(self).efi,
            final(self).smbios == old(self).smbios,
            final(self).boot_services_not_exited == old(self).boot_services_not_exited,
            final(self).image_load_addr == old(self).image_load_addr,
    {
        match tag {
            RsdpTag::V1 { .. } => {
                self.rsdp_v1 = Some(tag);
            },
            RsdpTag::V2 { .. } => {
                self.rsdp_v2 = Some(tag);
            },
        }
    }

    /// Adds a copy of SMBIOS tables behind those that are there.
    pub fn add_smbios_tag(&mut self, tag: SmbiosTag)
        ensures
            final(self).smbios@ == old(self).smbios@.push(tag),
            final(self).rsdp_v1 == old(self).rsdp_v1,
            final(self).rsdp_v2 == old(self).rsdp_v2,
            final(self).command_line == old(self).command_line,
            final(self).modules == old(self).modules,
            final(self).symbols == old(self).symbols,
            final(self).boot_loader_name == old(self).boot_loader_name,
            final(self).framebuffer == old(self).framebuffer,
            final(self).efi == old(self).efi,
            final(self).boot_services_not_exited == old(self).boot_services_not_exited,
            final(self).image_load_addr == old(self).image_load_addr,
    {
        self.smbios.push(tag);
    }

    /// Room for a memory map of `count` regions, to be filled in by
    /// [`Self::build`].
    pub fn allocate_memory_map_vec(count: usize) -> (r: Vec<MemoryRegion>)
        ensures
            r@.len() == count,
    {
        let mut buffer: Vec<MemoryRegion> = Vec::new();
        let mut i: usize = 0;
        while i < count
            invariant
                i <= count,
                buffer@.len() == i,
            decreases count - i,
        {
            buffer.push(MemoryRegion { base: 0, length: 0, ty: RegionType::Reserved });
            i += 1;
        }
        buffer
    }

    /// Makes the information final: the memory map is written into the room
    /// that was reserved for it, and lower and upper memory are set.
    ///
    /// This takes the builder, so it happens once, and nothing can be added
    /// afterwards. It needs no new memory. Where the memory map cannot be
    /// made or does not fit, there is no information.
    pub fn build(
        self,
        efi_mmap: &Vec<MemoryDescriptor>,
        mb_mmap_vec: &mut Vec<MemoryRegion>,
        boot_services_exited: bool,
    ) -> (r: Result<Information, MapError>)
        ensures
            r is Ok <==> {
                &&& all_in_bounds(efi_mmap@)
                &&& merged(efi_mmap@, boot_services_exited).len() <= old(mb_mmap_vec)@.len()
                &&& upper_memory_kb(merged(efi_mmap@, boot_services_exited)) <= u32::MAX
            },
            r matches Ok(information) ==> {
                &&& information.collected == self
                &&& final(mb_mmap_vec)@ == merged(efi_mmap@, boot_services_exited)
                &&& information.memory_regions == final(mb_mmap_vec)@.len()
                &&& information.memory_bounds.lower == LOWER_MEMORY_KB
                &&& information.memory_bounds.upper == upper_memory_kb(final(mb_mmap_vec)@)
            },
            r matches Err(e) ==> match e {
                MapError::DescriptorOutOfBounds => !all_in_bounds(efi_mmap@),
                MapError::BufferTooSmall => all_in_bounds(efi_mmap@) && merged(
                    efi_mmap@,
                    boot_services_exited,
                ).len() > old(mb_mmap_vec)@.len(),
                MapError::UpperMemoryTooLarge => upper_memory_kb(
                    merged(efi_mmap@, boot_services_exited),
                ) > u32::MAX,
            },
    {
        match prepare_information(efi_mmap, mb_mmap_vec, boot_services_exited) {
            Ok(memory_bounds) => Ok(
                Information { collected: self, memory_bounds, memory_regions: mb_mmap_vec.len() },
            ),
            Err(e) => Err(e),
        }
    }
}

} // verus!
