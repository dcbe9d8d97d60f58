//! Handling of ELF files
//!
//! An ELF kernel says in its program headers where each of its segments
//! wants to live. Every loadable segment gets an allocation of its own, and
//! the loader remembers which virtual address went to which allocation, so
//! that the entry point, a virtual address, can be found in physical memory.
use vstd::prelude::*;
use crate::mem::Allocation;
use crate::status::Status;
use goblin::elf::Elf;

verus! {

/// The type of a program header whose segment is to be loaded.
pub const PT_LOAD: u32 = 1;

/// The type of a section that takes no room in the file.
pub const SHT_NOBITS: u32 = 8;

/// What a program header says about its segment.
#[derive(Clone, Copy, Debug, PartialEq, Eq, Structural)]
pub struct ProgramHeader {
    pub p_type: u32,
    pub p_offset: u64,
    pub p_vaddr: u64,
    pub p_paddr: u64,
    pub p_filesz: u64,
    pub p_memsz: u64,
}

/// A section header, field for field.
#[derive(Clone, Copy, Debug, PartialEq, Eq, Structural)]
pub struct SectionHeader {
    pub sh_name: usize,
    pub sh_type: u32,
    pub sh_flags: u64,
    pub sh_addr: u64,
    pub sh_offset: u64,
    pub sh_size: u64,
    pub sh_link: u32,
    pub sh_info: u32,
    pub sh_addralign: u64,
    pub sh_entsize: u64,
}

/// What the loader reads of an ELF file.
#[derive(Debug)]
pub struct ElfImage {
    /// the virtual address of the entry point
    pub entry: u64,
    /// whether the file is of the 64-bit class
    pub is_64: bool,
    pub little_endian: bool,
    /// how many section headers the file header announces
    pub e_shnum: u16,
    /// how many bytes the file header gives to each section header
    pub e_shentsize: u16,
    /// the number of the section that holds the section names
    pub e_shstrndx: u16,
    pub program_headers: Vec<ProgramHeader>,
    pub section_headers: Vec<SectionHeader>,
    /// how many dynamic relocations with an addend the file asks for
    pub dynrelas: usize,
    /// how many dynamic relocations without an addend the file asks for
    pub dynrels: usize,
}

impl ElfImage {
    /// Whether the file asks for dynamic relocations. They are not supported.
    pub open spec fn wants_relocations(self) -> bool {
        self.dynrelas != 0 || self.dynrels != 0
    }

    /// Whether the file asks for dynamic relocations.
    pub fn has_relocations(&self) -> (r: bool)
        ensures
            r == self.wants_relocations(),
    {
        self.dynrelas != 0 || self.dynrels != 0
    }
}

impl ProgramHeader {
    /// Puts a program header together from its fields, in the order of the
    /// file format.
    pub fn new(
        p_type: u32,
        p_offset: u64,
        p_vaddr: u64,
        p_paddr: u64,
        p_filesz: u64,
        p_memsz: u64,
    ) -> (r: ProgramHeader)
        ensures
            r == (ProgramHeader { p_type, p_offset, p_vaddr, p_paddr, p_filesz, p_memsz }),
    {
        ProgramHeader { p_type, p_offset, p_vaddr, p_paddr, p_filesz, p_memsz }
    }

    /// Whether the segment is to be loaded.
    pub open spec fn loadable(self) -> bool {
        self.p_type == PT_LOAD
    }

    /// Whether the virtual address lies in the segment: at or behind its
    /// first byte, and before the address behind its last one.
    pub open spec fn holds(self, virtual_address: u64) -> bool {
        self.p_vaddr <= virtual_address < self.p_vaddr + self.p_memsz
    }

    /// Where a virtual address of the segment lies in physical memory.
    pub open spec fn physical(self, virtual_address: u64) -> int {
        self.p_paddr + (virtual_address - self.p_vaddr)
    }

    /// Whether the bytes of the segment lie in a file of `file_len` bytes, and
    /// fit into the memory that the segment asks for.
    pub open spec fn fits(self, file_len: int) -> bool {
        &&& self.p_offset + self.p_filesz <= file_len
        &&& self.p_filesz <= self.p_memsz
        &&& self.p_memsz <= usize::MAX
    }

    /// What the memory of the segment holds once it is loaded: its bytes from
    /// the file, and zeroes behind them.
    pub open spec fn contents(self, data: Seq<u8>) -> Seq<u8> {
        Seq::new(
            self.p_memsz as nat,
            |i: int|
                if i < self.p_filesz {
                    data[self.p_offset + i]
                } else {
                    0u8
                },
        )
    }
}

impl SectionHeader {
    /// Puts a section header together from its fields, in the order of the
    /// file format.
    pub fn new(
        sh_name: usize,
        sh_type: u32,
        sh_flags: u64,
        sh_addr: u64,
        sh_offset: u64,
        sh_size: u64,
        sh_link: u32,
        sh_info: u32,
        sh_addralign: u64,
        sh_entsize: u64,
    ) -> (r: SectionHeader)
        ensures
            r == (SectionHeader {
                sh_name,
                sh_type,
                sh_flags,
                sh_addr,
                sh_offset,
                sh_size,
                sh_link,
                sh_info,
                sh_addralign,
                sh_entsize,
            }),
    {
        SectionHeader {
            sh_name,
            sh_type,
            sh_flags,
            sh_addr,
            sh_offset,
            sh_size,
            sh_link,
            sh_info,
            sh_addralign,
            sh_entsize,
        }
    }
}

/// What `goblin` reads out of a file: the image, or `None` where it does not
/// take the bytes for an ELF file.
pub uninterp spec fn parsed_elf(data: Seq<u8>) -> Option<ElfImage>;

/// Parses an ELF file with `goblin::elf::Elf::parse`.
///
/// Nothing is claimed about what `goblin` reads out of which bytes, only that
/// it reads the same out of the same bytes. Of what it finds, the entry
/// point, the class, the byte order, three fields of the file header, the
/// program and section headers, field for field, and the numbers of
/// dynamic relocations are kept.
#[verifier::external_body]
pub(crate) fn parse_elf(data: &[u8]) -> (r: Option<ElfImage>)
    ensures
        r == parsed_elf(data@),
{
    let elf = Elf::parse(data).ok()?;
    Some(ElfImage {
        entry: elf.entry,
        is_64: elf.is_64,
        little_endian: elf.little_endian,
        e_shnum: elf.header.e_shnum,
        e_shentsize: elf.header.e_shentsize,
        e_shstrndx: elf.header.e_shstrndx,
        program_headers: elf.program_headers.iter().map(|p| ProgramHeader::new(p.p_type, p.p_offset, p.p_vaddr, p.p_paddr, p.p_filesz, p.p_memsz)).collect(),
        section_headers: elf.section_headers.iter().map(|s| SectionHeader::new(s.sh_name, s.sh_type, s.sh_flags, s.sh_addr, s.sh_offset, s.sh_size, s.sh_link, s.sh_info, s.sh_addralign, s.sh_entsize)).collect(),
        dynrelas: elf.dynrelas.len(),
        dynrels: elf.dynrels.len(),
    })
}

/// A segment in memory: where it is, and what it holds.
#[derive(Debug)]
pub struct LoadedSegment {
    /// the virtual address that the segment begins at
    pub vaddr: u64,
    /// the memory that the segment lives in
    pub allocation: Allocation,
    /// the bytes of that memory
    pub contents: Vec<u8>,
}

/// A segment in memory, as contracts see it.
pub struct SegmentView {
    pub vaddr: u64,
    pub allocation: Allocation,
    pub contents: Seq<u8>,
}

impl View for LoadedSegment {
    type V = SegmentView;

    open spec fn view(&self) -> SegmentView {
        SegmentView { vaddr: self.vaddr, allocation: self.allocation, contents: self.contents@ }
    }
}

/// The loader, as contracts see it.
pub struct LoaderView {
    /// the segments, by virtual address
    pub segments: Seq<SegmentView>,
    pub virtual_entry_point: u64,
    pub physical_entry_point: Option<u64>,
    pub should_exit_boot_services: bool,
}

/// Load ELF binaries.
#[derive(Debug)]
pub struct OurElfLoader {
    // maps virtual to physical addresses
    allocations: Vec<LoadedSegment>,
    virtual_entry_point: u64,
    physical_entry_point: Option<u64>,
    /// whether we are going to exit Boot Services
    /// This determines which parts of memory are safe to overwrite.
    should_exit_boot_services: bool,
}

impl View for OurElfLoader {
    type V = LoaderView;

    closed spec fn view(&self) -> LoaderView {
        LoaderView {
            segments: Seq::new(self.allocations@.len(), |i: int| self.allocations@[i]@),
            virtual_entry_point: self.virtual_entry_point,
            physical_entry_point: self.physical_entry_point,
            should_exit_boot_services: self.should_exit_boot_services,
        }
    }
}

/// The segments with one more: before those of a higher virtual address,
/// behind those of a lower one, and in place of one of the same.
pub open spec fn stored(segments: Seq<SegmentView>, segment: SegmentView) -> Seq<SegmentView> {
    segments.filter(|s: SegmentView| s.vaddr < segment.vaddr).push(segment) + segments.filter(
        |s: SegmentView| s.vaddr > segment.vaddr,
    )
}

/// The physical entry point after a segment has been allocated: where the
/// segment holds the virtual entry point, the place of that in physical
/// memory, and what it was before where not.
pub open spec fn entry_after(
    before: Option<u64>,
    header: ProgramHeader,
    virtual_entry_point: u64,
) -> Option<u64> {
    if header.holds(virtual_entry_point) {
        Some(header.physical(virtual_entry_point) as u64)
    } else {
        before
    }
}

/// The loader after one more segment has been allocated and loaded.
pub open spec fn loader_after(
    before: LoaderView,
    header: ProgramHeader,
    allocation: Allocation,
    data: Seq<u8>,
) -> LoaderView {
    LoaderView {
        segments: stored(
            before.segments,
            SegmentView { vaddr: header.p_vaddr, allocation, contents: header.contents(data) },
        ),
        virtual_entry_point: before.virtual_entry_point,
        physical_entry_point: entry_after(
            before.physical_entry_point,
            header,
            before.virtual_entry_point,
        ),
        should_exit_boot_services: before.should_exit_boot_services,
    }
}

/// Whether a segment can be loaded into the allocation: the allocation has
/// been made for the segment, the bytes of the segment are in the file, and
/// the physical entry point, if the segment holds it, is an address.
pub open spec fn can_load(
    header: ProgramHeader,
    allocation: Allocation,
    file_len: int,
    virtual_entry_point: u64,
) -> bool {
    &&& allocation.len == header.p_memsz
    &&& allocation.placed_for(header.p_paddr)
    &&& header.fits(file_len)
    &&& header.holds(virtual_entry_point) ==> header.physical(virtual_entry_point) <= u64::MAX
}

/// `n` zeroes.
pub fn zeroes(n: usize) -> (r: Vec<u8>)
    ensures
        r@ == Seq::new(n as nat, |i: int| 0u8),
{
    let mut r: Vec<u8> = Vec::new();
    let mut i: usize = 0;
    while i < n
        invariant
            i <= n,
            r@ == Seq::new(i as nat, |k: int| 0u8),
        decreases n - i,
    {
        r.push(0);
        i += 1;
        assert(r@ == Seq::new(i as nat, |k: int| 0u8));
    }
    r
}

impl OurElfLoader {
    /// The segments are sorted by virtual address, and there is at most one
    /// at each.
    pub open spec fn wf(&self) -> bool {
        ascending(self@.segments)
    }

    /// Create a new instance.
    ///
    /// The parameter is the virtual address of the entry point.
    pub fn new(entry_point: u64, should_exit_boot_services: bool) -> (r: OurElfLoader)
        ensures
            r.wf(),
            r@ == (LoaderView {
                segments: Seq::empty(),
                virtual_entry_point: entry_point,
                physical_entry_point: None,
                should_exit_boot_services,
            }),
    {
        let r = OurElfLoader {
            allocations: Vec::new(),
            virtual_entry_point: entry_point,
            physical_entry_point: None,
            should_exit_boot_services,
        };
        assert(r@.segments == Seq::<SegmentView>::empty());
        r
    }

    /// Gets the entry point.
    ///
    /// We should have found it in `allocate`,
    /// else fall back to the virtual one and hope for the best.
    pub fn entry_point(&self) -> (r: u64)
        ensures
            r == match self@.physical_entry_point {
                Some(address) => address,
                None => self@.virtual_entry_point,
            },
    {
        match self.physical_entry_point {
            Some(address) => address,
            None => self.virtual_entry_point,
        }
    }

    /// Whether a segment has been found that holds the entry point. Where
    /// none has, `entry_point` assumes virtual = physical, which is worth a
    /// warning.
    pub fn found_entry_point(&self) -> (r: bool)
        ensures
            r == self@.physical_entry_point is Some,
    {
        self.physical_entry_point.is_some()
    }

    /// whether we are going to exit Boot Services
    pub fn should_exit_boot_services(&self) -> (r: bool)
        ensures
            r == self@.should_exit_boot_services,
    {
        self.should_exit_boot_services
    }

    /// How many segments are loaded.
    pub fn segment_count(&self) -> (r: usize)
        ensures
            r == self@.segments.len(),
    {
        self.allocations.len()
    }

    /// Enters a segment under its virtual address.
    fn store(&mut self, segment: LoadedSegment)
        ensures
            final(self)@ == (LoaderView { segments: stored(old(self)@.segments, segment@), ..old(self)@ }),
    {
        let ghost before = self@.segments;
        let ghost lower = |s: SegmentView| s.vaddr < segment.vaddr;
        let ghost higher = |s: SegmentView| s.vaddr > segment.vaddr;
        let mut head: Vec<LoadedSegment> = Vec::new();
        let mut tail: Vec<LoadedSegment> = Vec::new();
        let ghost mut i: int = 0;
        proof {
            assert(before.subrange(0, 0) == Seq::<SegmentView>::empty());
        }
        while self.allocations.len() > 0
            invariant
                lower == |s: SegmentView| s.vaddr < segment.vaddr,
                higher == |s: SegmentView| s.vaddr > segment.vaddr,
                0 <= i <= before.len(),
                self.allocations@.len() == before.len() - i,
                forall|k: int|
                    0 <= k < self.allocations@.len() ==> (#[trigger] self.allocations@[k])@
                        == before[i + k],
                Seq::new(head@.len(), |k: int| head@[k]@) == before.subrange(0, i).filter(lower),
                Seq::new(tail@.len(), |k: int| tail@[k]@) == before.subrange(0, i).filter(higher),
                self.virtual_entry_point == old(self).virtual_entry_point,
                self.physical_entry_point == old(self).physical_entry_point,
                self.should_exit_boot_services == old(self).should_exit_boot_services,
            decreases self.allocations@.len(),
        {
            let ghost head_before = Seq::new(head@.len(), |k: int| head@[k]@);
            let ghost tail_before = Seq::new(tail@.len(), |k: int| tail@[k]@);
            let ghost rest = self.allocations@;
            let item: LoadedSegment = self.allocations.remove(0);
            proof {
                assert(item@ == before[i]);
                let prefix = before.subrange(0, i);
                assert(before.subrange(0, i + 1) == prefix.push(item@));
                prefix.lemma_filter_push(item@, lower);
                prefix.lemma_filter_push(item@, higher);
                assert forall|k: int| 0 <= k < self.allocations@.len() implies (#[trigger] self.allocations@[k])@
                    == before[i + 1 + k] by {
                    assert(self.allocations@[k] == rest[k + 1]);
                }
            }
            if item.vaddr < segment.vaddr {
                head.push(item);
                assert(Seq::new(head@.len(), |k: int| head@[k]@) == head_before.push(item@));
            } else if item.vaddr > segment.vaddr {
                tail.push(item);
                assert(Seq::new(tail@.len(), |k: int| tail@[k]@) == tail_before.push(item@));
            }
            proof {
                i = i + 1;
            }
        }
        assert(before.subrange(0, i) == before);
        let ghost head_view = Seq::new(head@.len(), |k: int| head@[k]@);
        let ghost tail_view = Seq::new(tail@.len(), |k: int| tail@[k]@);
        let ghost segment_view = segment@;
        head.push(segment);
        assert(Seq::new(head@.len(), |k: int| head@[k]@) == head_view.push(segment_view));
        let ghost mut moved: int = 0;
        while tail.len() > 0
            invariant
                0 <= moved <= tail_view.len(),
                tail@.len() == tail_view.len() - moved,
                forall|k: int|
                    0 <= k < tail@.len() ==> (#[trigger] tail@[k])@ == tail_view[moved + k],
                Seq::new(head@.len(), |k: int| head@[k]@) == head_view.push(segment_view)
                    + tail_view.subrange(0, moved),
            decreases tail@.len(),
        {
            let ghost head_now = Seq::new(head@.len(), |k: int| head@[k]@);
            let ghost rest = tail@;
            let item: LoadedSegment = tail.remove(0);
            proof {
                assert(item@ == tail_view[moved]);
                assert forall|k: int| 0 <= k < tail@.len() implies (#[trigger] tail@[k])@
                    == tail_view[moved + 1 + k] by {
                    assert(tail@[k] == rest[k + 1]);
                }
            }
            head.push(item);
            proof {
                assert(Seq::new(head@.len(), |k: int| head@[k]@) == head_now.push(item@));
                assert(tail_view.subrange(0, moved + 1) == tail_view.subrange(0, moved).push(
                    tail_view[moved],
                ));
                moved = moved + 1;
            }
        }
        assert(tail_view.subrange(0, moved) == tail_view);
        self.allocations = head;
        assert(self@.segments == stored(before, segment_view));
    }

    /// Allocate memory for a segment and load it.
    ///
    /// The allocation has been made for the segment and is entered under its
    /// virtual address; its memory holds the bytes of the segment from the
    /// file and is zero behind them. If the segment holds the entry point,
    /// the place of that in physical memory is known from now on.
    fn load_segment(&mut self, header: &ProgramHeader, allocation: Allocation, data: &[u8])
        requires
            can_load(*header, allocation, data@.len() as int, old(self)@.virtual_entry_point),
        ensures
            final(self)@ == loader_after(old(self)@, *header, allocation, data@),
    {
        let file_len: usize = data.len();
        assert(header.p_offset + header.p_filesz <= file_len);
        let mut contents: Vec<u8> = zeroes(header.p_memsz as usize);
        let start: usize = header.p_offset as usize;
        let count: usize = header.p_filesz as usize;
        let mut i: usize = 0;
        while i < count
            invariant
                i <= count,
                count == header.p_filesz,
                start == header.p_offset,
                header.fits(data@.len() as int),
                data@.len() <= usize::MAX,
                contents@.len() == header.p_memsz,
                forall|k: int| 0 <= k < i ==> contents@[k] == data@[start + k],
                forall|k: int| i <= k < contents@.len() ==> contents@[k] == 0u8,
            decreases count - i,
        {
            contents[i] = data[start + i];
            i += 1;
        }
        assert(contents@ == header.contents(data@));
        if header.p_vaddr <= self.virtual_entry_point && self.virtual_entry_point - header.p_vaddr
            < header.p_memsz {
            self.physical_entry_point =
            Some(header.p_paddr + (self.virtual_entry_point - header.p_vaddr));
        }
        self.store(LoadedSegment { vaddr: header.p_vaddr, allocation, contents });
    }

    /// Gets the allocated memory, lowest virtual address first.
    pub fn into_segments(self) -> (r: Vec<LoadedSegment>)
        ensures
            r@.len() == self@.segments.len(),
            forall|i: int| 0 <= i < r@.len() ==> (#[trigger] r@[i])@ == self@.segments[i],
    {
        self.allocations
    }
}


/// The memory that a segment asks for.
#[derive(Clone, Copy, Debug, PartialEq, Eq, Structural)]
pub struct SegmentRequest {
    /// the physical address of the segment
    pub address: u64,
    /// its size in memory
    pub size: u64,
}

/// The program headers whose segments are to be loaded, in their order.
pub open spec fn loadable_headers(headers: Seq<ProgramHeader>) -> Seq<ProgramHeader> {
    headers.filter(|h: ProgramHeader| h.loadable())
}

/// Whether each of the segments can be loaded into the allocation of the same
/// number.
pub open spec fn all_can_load(
    headers: Seq<ProgramHeader>,
    allocations: Seq<Allocation>,
    file_len: int,
    virtual_entry_point: u64,
) -> bool {
    &&& headers.len() == allocations.len()
    &&& forall|i: int|
        0 <= i < headers.len() ==> can_load(
            #[trigger] headers[i],
            allocations[i],
            file_len,
            virtual_entry_point,
        )
}

/// The loader after the first `n` of the segments have been allocated and
/// loaded, one after the other.
pub open spec fn loaded(
    before: LoaderView,
    headers: Seq<ProgramHeader>,
    allocations: Seq<Allocation>,
    data: Seq<u8>,
    n: nat,
) -> LoaderView
    decreases n,
{
    if n == 0 {
        before
    } else {
        loader_after(
            loaded(before, headers, allocations, data, (n - 1) as nat),
            headers[n - 1],
            allocations[n - 1],
            data,
        )
    }
}

/// Loading segments leaves the virtual entry point as it is.
pub proof fn lemma_loaded_keeps_virtual_entry(
    before: LoaderView,
    headers: Seq<ProgramHeader>,
    allocations: Seq<Allocation>,
    data: Seq<u8>,
    n: nat,
)
    ensures
        loaded(before, headers, allocations, data, n).virtual_entry_point
            == before.virtual_entry_point,
        loaded(before, headers, allocations, data, n).should_exit_boot_services
            == before.should_exit_boot_services,
    decreases n,
{
    if n > 0 {
        lemma_loaded_keeps_virtual_entry(before, headers, allocations, data, (n - 1) as nat);
    }
}

/// Where the entry point lies in one of the loaded segments, and in none that
/// is loaded after it, the physical entry point is the physical address of
/// that segment plus the distance of the entry point from the segment's
/// virtual address.
pub proof fn lemma_entry_point_in_segment(
    before: LoaderView,
    headers: Seq<ProgramHeader>,
    allocations: Seq<Allocation>,
    data: Seq<u8>,
    n: nat,
    i: int,
)
    requires
        0 <= i < n <= headers.len(),
        headers[i].holds(before.virtual_entry_point),
        forall|j: int| i < j < n ==> !(#[trigger] headers[j]).holds(before.virtual_entry_point),
        headers[i].physical(before.virtual_entry_point) <= u64::MAX,
    ensures
        loaded(before, headers, allocations, data, n).physical_entry_point == Some(
            (headers[i].p_paddr + (before.virtual_entry_point - headers[i].p_vaddr)) as u64,
        ),
    decreases n,
{
    lemma_loaded_keeps_virtual_entry(before, headers, allocations, data, (n - 1) as nat);
    if i < n - 1 {
        lemma_entry_point_in_segment(before, headers, allocations, data, (n - 1) as nat, i);
        assert(!headers[n - 1].holds(before.virtual_entry_point));
    }
}

/// Where the entry point lies in none of the loaded segments, the physical
/// entry point stays what it was: for a new loader, unknown, so that the
/// entry point is taken to be the virtual one.
pub proof fn lemma_entry_point_in_no_segment(
    before: LoaderView,
    headers: Seq<ProgramHeader>,
    allocations: Seq<Allocation>,
    data: Seq<u8>,
    n: nat,
)
    requires
        n <= headers.len(),
        forall|j: int| 0 <= j < n ==> !(#[trigger] headers[j]).holds(before.virtual_entry_point),
    ensures
        loaded(before, headers, allocations, data, n).physical_entry_point
            == before.physical_entry_point,
    decreases n,
{
    if n > 0 {
        lemma_loaded_keeps_virtual_entry(before, headers, allocations, data, (n - 1) as nat);
        lemma_entry_point_in_no_segment(before, headers, allocations, data, (n - 1) as nat);
        assert(!headers[n - 1].holds(before.virtual_entry_point));
    }
}

/// Whether the segments are sorted by virtual address, with none twice.
pub open spec fn ascending(segments: Seq<SegmentView>) -> bool {
    forall|i: int, j: int|
        0 <= i < j < segments.len() ==> (#[trigger] segments[i]).vaddr
            < (#[trigger] segments[j]).vaddr
}

/// Whether there is a segment at the virtual address.
pub open spec fn has_segment_at(segments: Seq<SegmentView>, vaddr: u64) -> bool {
    exists|k: int| 0 <= k < segments.len() && (#[trigger] segments[k]).vaddr == vaddr
}

/// What is picked out of sorted segments is sorted, holds none that was not
/// there and all that were asked for.
proof fn lemma_filter_ascending(segments: Seq<SegmentView>, pred: spec_fn(SegmentView) -> bool)
    requires
        ascending(segments),
    ensures
        ascending(segments.filter(pred)),
        forall|k: int|
            0 <= k < segments.filter(pred).len() ==> pred(#[trigger] segments.filter(pred)[k]),
        forall|k: int|
            0 <= k < segments.filter(pred).len() && segments.len() > 0 ==> (
            #[trigger] segments.filter(pred)[k]).vaddr <= segments.last().vaddr,
        forall|i: int|
            0 <= i < segments.len() && pred(#[trigger] segments[i]) ==> has_segment_at(
                segments.filter(pred),
                segments[i].vaddr,
            ),
    decreases segments.len(),
{
    reveal(Seq::filter);
    if segments.len() > 0 {
        let before = segments.drop_last();
        let last = segments.last();
        assert(ascending(before)) by {
            assert forall|i: int, j: int| 0 <= i < j < before.len() implies (#[trigger] before[i]).vaddr
                < (#[trigger] before[j]).vaddr by {
                assert(before[i] == segments[i] && before[j] == segments[j]);
            }
        }
        lemma_filter_ascending(before, pred);
        let picked = before.filter(pred);
        let all = segments.filter(pred);
        if before.len() > 0 {
            assert(before.last() == segments[segments.len() - 2]);
            assert(segments[segments.len() - 2].vaddr < segments[segments.len() - 1].vaddr);
        }
        assert forall|i: int| 0 <= i < segments.len() && pred(#[trigger] segments[i]) implies has_segment_at(
            all,
            segments[i].vaddr,
        ) by {
            if i < before.len() {
                assert(before[i] == segments[i]);
                assert(has_segment_at(picked, before[i].vaddr));
                let k = choose|k: int|
                    0 <= k < picked.len() && (#[trigger] picked[k]).vaddr == before[i].vaddr;
                assert(all[k] == picked[k]);
            } else {
                assert(all[all.len() - 1] == last);
            }
        }
    }
}

/// Storing a segment keeps the segments sorted by virtual address, with none
/// twice. The segment is there afterwards, and so is every segment of
/// another virtual address that was there before.
pub proof fn lemma_stored_is_ascending(segments: Seq<SegmentView>, segment: SegmentView)
    requires
        ascending(segments),
    ensures
        ascending(stored(segments, segment)),
        has_segment_at(stored(segments, segment), segment.vaddr),
        forall|vaddr: u64|
            has_segment_at(segments, vaddr) ==> #[trigger] has_segment_at(
                stored(segments, segment),
                vaddr,
            ),
{
    let lower = |s: SegmentView| s.vaddr < segment.vaddr;
    let higher = |s: SegmentView| s.vaddr > segment.vaddr;
    lemma_filter_ascending(segments, lower);
    lemma_filter_ascending(segments, higher);
    let head = segments.filter(lower);
    let tail = segments.filter(higher);
    let all = stored(segments, segment);
    assert(all == head.push(segment) + tail);
    assert(all[head.len() as int] == segment);
    assert forall|i: int, j: int| 0 <= i < j < all.len() implies (#[trigger] all[i]).vaddr
        < (#[trigger] all[j]).vaddr by {
        if i < head.len() {
            assert(all[i] == head[i]);
            assert(lower(head[i]));
        } else if i > head.len() {
            assert(all[i] == tail[i - head.len() - 1]);
        }
        if j < head.len() {
            assert(all[j] == head[j]);
        } else if j > head.len() {
            assert(all[j] == tail[j - head.len() - 1]);
            assert(higher(tail[j - head.len() - 1]));
        }
    }
    assert forall|vaddr: u64| has_segment_at(segments, vaddr) implies #[trigger] has_segment_at(
        all,
        vaddr,
    ) by {
        let i = choose|i: int| 0 <= i < segments.len() && (#[trigger] segments[i]).vaddr == vaddr;
        if vaddr < segment.vaddr {
            assert(lower(segments[i]));
            let k = choose|k: int| 0 <= k < head.len() && (#[trigger] head[k]).vaddr == vaddr;
            assert(all[k] == head[k]);
        } else if vaddr > segment.vaddr {
            assert(higher(segments[i]));
            let k = choose|k: int| 0 <= k < tail.len() && (#[trigger] tail[k]).vaddr == vaddr;
            assert(all[head.len() + 1 + k] == tail[k]);
        }
    }
}

/// Loading keeps the segments sorted by virtual address, with none twice,
/// and leaves one segment for each of the loaded headers at its virtual
/// address.
pub proof fn lemma_loaded_is_ascending(
    before: LoaderView,
    headers: Seq<ProgramHeader>,
    allocations: Seq<Allocation>,
    data: Seq<u8>,
    n: nat,
)
    requires
        ascending(before.segments),
        n <= headers.len(),
    ensures
        ascending(loaded(before, headers, allocations, data, n).segments),
        forall|i: int|
            0 <= i < n ==> has_segment_at(
                loaded(before, headers, allocations, data, n).segments,
                (#[trigger] headers[i]).p_vaddr,
            ),
        forall|vaddr: u64|
            has_segment_at(before.segments, vaddr) ==> #[trigger] has_segment_at(
                loaded(before, headers, allocations, data, n).segments,
                vaddr,
            ),
    decreases n,
{
    if n > 0 {
        lemma_loaded_is_ascending(before, headers, allocations, data, (n - 1) as nat);
        let earlier = loaded(before, headers, allocations, data, (n - 1) as nat);
        let header = headers[n - 1];
        let segment = SegmentView {
            vaddr: header.p_vaddr,
            allocation: allocations[n - 1],
            contents: header.contents(data),
        };
        lemma_stored_is_ascending(earlier.segments, segment);
        let now = loaded(before, headers, allocations, data, n).segments;
        assert(now == stored(earlier.segments, segment));
        assert forall|i: int| 0 <= i < n implies has_segment_at(now, (#[trigger] headers[i]).p_vaddr) by {
            if i < n - 1 {
                assert(has_segment_at(earlier.segments, headers[i].p_vaddr));
            }
        }
        assert forall|vaddr: u64| has_segment_at(before.segments, vaddr) implies #[trigger] has_segment_at(
            now,
            vaddr,
        ) by {
            assert(has_segment_at(earlier.segments, vaddr));
        }
    }
}

/// The program headers whose segments are to be loaded, in their order.
pub fn loadable(headers: &Vec<ProgramHeader>) -> (r: Vec<ProgramHeader>)
    ensures
        r@ == loadable_headers(headers@),
{
    let mut r: Vec<ProgramHeader> = Vec::new();
    let ghost wanted = |h: ProgramHeader| h.loadable();
    let mut i: usize = 0;
    assert(headers@.subrange(0, 0) == Seq::<ProgramHeader>::empty());
    while i < headers.len()
        invariant
            wanted == |h: ProgramHeader| h.loadable(),
            i <= headers@.len(),
            r@ == headers@.subrange(0, i as int).filter(wanted),
        decreases headers@.len() - i,
    {
        let header: ProgramHeader = headers[i];
        proof {
            let prefix = headers@.subrange(0, i as int);
            assert(headers@.subrange(0, i + 1) == prefix.push(header));
            prefix.lemma_filter_push(header, wanted);
        }
        if header.p_type == PT_LOAD {
            r.push(header);
        }
        i += 1;
    }
    assert(headers@.subrange(0, i as int) == headers@);
    r
}

/// The memory to allocate for an ELF file: for every segment that is to be
/// loaded, in the order of the program headers, its size in memory at its
/// physical address.
pub fn load_requests(elf: &ElfImage) -> (r: Vec<SegmentRequest>)
    ensures
        r@.len() == loadable_headers(elf.program_headers@).len(),
        forall|i: int|
            0 <= i < r@.len() ==> #[trigger] r@[i] == (SegmentRequest {
                address: loadable_headers(elf.program_headers@)[i].p_paddr,
                size: loadable_headers(elf.program_headers@)[i].p_memsz,
            }),
{
    let headers: Vec<ProgramHeader> = loadable(&elf.program_headers);
    let mut r: Vec<SegmentRequest> = Vec::new();
    let mut i: usize = 0;
    while i < headers.len()
        invariant
            i <= headers@.len(),
            r@.len() == i,
            forall|k: int|
                0 <= k < i ==> #[trigger] r@[k] == (SegmentRequest {
                    address: headers@[k].p_paddr,
                    size: headers@[k].p_memsz,
                }),
        decreases headers@.len() - i,
    {
        r.push(SegmentRequest { address: headers[i].p_paddr, size: headers[i].p_memsz });
        i += 1;
    }
    r
}

/// Whether a segment can be loaded into the allocation.
pub fn check_can_load(
    header: &ProgramHeader,
    allocation: &Allocation,
    file_len: usize,
    virtual_entry_point: u64,
) -> (r: bool)
    ensures
        r == can_load(*header, *allocation, file_len as int, virtual_entry_point),
{
    let placed: bool = allocation.is_placed_for(header.p_paddr);
    let in_file: bool = match header.p_offset.checked_add(header.p_filesz) {
        Some(end) => end <= file_len as u64,
        None => false,
    };
    let entry_known: bool = if header.p_vaddr <= virtual_entry_point && virtual_entry_point
        - header.p_vaddr < header.p_memsz {
        header.p_paddr.checked_add(virtual_entry_point - header.p_vaddr).is_some()
    } else {
        true
    };
    assert(in_file <==> header.p_offset + header.p_filesz <= file_len);
    assert(entry_known <==> (header.holds(virtual_entry_point) ==> header.physical(
        virtual_entry_point,
    ) <= u64::MAX));
    allocation.len == header.p_memsz && placed && in_file && header.p_filesz
        <= header.p_memsz && header.p_memsz <= usize::MAX as u64 && entry_known
}

impl OurElfLoader {
    /// Load an ELF.
    ///
    /// `allocations` holds the memory that has been allocated for what
    /// [`load_requests`] asks, in the same order. Every segment that is to be
    /// loaded is entered with its allocation and its contents. This fails
    /// with `Unsupported` for a file that asks for relocations, which are
    /// never skipped, and with `LoadError` unless each segment has its
    /// allocation, lies in the file and is no larger there than in memory.
    /// Where it fails, the loader is left as it was.
    pub fn load_elf(&mut self, elf: &ElfImage, data: &[u8], allocations: &Vec<Allocation>) -> (r:
        Result<(), Status>)
        ensures
            r is Ok <==> !elf.wants_relocations() && all_can_load(
                loadable_headers(elf.program_headers@),
                allocations@,
                data@.len() as int,
                old(self)@.virtual_entry_point,
            ),
            r is Ok ==> final(self)@ == loaded(
                old(self)@,
                loadable_headers(elf.program_headers@),
                allocations@,
                data@,
                allocations@.len(),
            ),
            old(self).wf() ==> final(self).wf(),
            r matches Err(e) ==> final(self)@ == old(self)@ && e == if elf.wants_relocations() {
                Status::Unsupported
            } else {
                Status::LoadError
            },
    {
        if elf.has_relocations() {
            // there is no support for ELF relocations
            return Err(Status::Unsupported);
        }
        let headers: Vec<ProgramHeader> = loadable(&elf.program_headers);
        if headers.len() != allocations.len() {
            return Err(Status::LoadError);
        }
        let file_len: usize = data.len();
        let mut i: usize = 0;
        while i < headers.len()
            invariant
                i <= headers@.len(),
                headers@.len() == allocations@.len(),
                file_len == data@.len(),
                headers@ == loadable_headers(elf.program_headers@),
                !elf.wants_relocations(),
                self@ == old(self)@,
                forall|k: int|
                    0 <= k < i ==> can_load(
                        #[trigger] headers@[k],
                        allocations@[k],
                        file_len as int,
                        self@.virtual_entry_point,
                    ),
            decreases headers@.len() - i,
        {
            if !check_can_load(&headers[i], &allocations[i], file_len, self.virtual_entry_point) {
                assert(!can_load(
                    headers@[i as int],
                    allocations@[i as int],
                    data@.len() as int,
                    old(self)@.virtual_entry_point,
                ));
                return Err(Status::LoadError);
            }
            i += 1;
        }
        let mut n: usize = 0;
        while n < headers.len()
            invariant
                n <= headers@.len(),
                headers@.len() == allocations@.len(),
                all_can_load(
                    headers@,
                    allocations@,
                    data@.len() as int,
                    old(self)@.virtual_entry_point,
                ),
                self@ == loaded(old(self)@, headers@, allocations@, data@, n as nat),
            decreases headers@.len() - n,
        {
            proof {
                lemma_loaded_keeps_virtual_entry(
                    old(self)@,
                    headers@,
                    allocations@,
                    data@,
                    n as nat,
                );
                assert(can_load(
                    headers@[n as int],
                    allocations@[n as int],
                    data@.len() as int,
                    old(self)@.virtual_entry_point,
                ));
            }
            self.load_segment(&headers[n], allocations[n], data);
            n += 1;
        }
        proof {
            if old(self).wf() {
                lemma_loaded_is_ascending(
                    old(self)@,
                    headers@,
                    allocations@,
                    data@,
                    allocations@.len(),
                );
            }
        }
        Ok(())
    }
}


/// The bytes that `goblin` writes for a section header: `size` bytes, of which
/// the first 40 (in a 32-bit file) or 64 (in a 64-bit file) hold the fields
/// in the given byte order.
pub uninterp spec fn section_header_image(
    header: SectionHeader,
    is_64: bool,
    little_endian: bool,
    size: nat,
) -> Seq<u8>;

/// How many bytes a section header takes in a file of the given class.
pub open spec fn section_header_size(is_64: bool) -> nat {
    if is_64 {
        64
    } else {
        40
    }
}

/// Writes a section header with `goblin`'s `IntoCtx` for `SectionHeader`,
/// into a buffer of `size` zeroes.
///
/// `goblin` panics where the buffer is too short for the header, which the
/// precondition rules out. Nothing is claimed about the bytes but their
/// number, and that the same header gives the same bytes.
#[verifier::external_body]
pub(crate) fn section_header_bytes(
    header: &SectionHeader,
    is_64: bool,
    little_endian: bool,
    size: usize,
) -> (r: Vec<u8>)
    requires
        size >= section_header_size(is_64),
    ensures
        r@ == section_header_image(*header, is_64, little_endian, size as nat),
        r@.len() == size,
{
    let container = if is_64 { goblin::container::Container::Big } else { goblin::container::Container::Little };
    let endian = if little_endian { goblin::container::Endian::Little } else { goblin::container::Endian::Big };
    let raw = goblin::elf::SectionHeader {
        sh_name: header.sh_name, sh_type: header.sh_type, sh_flags: header.sh_flags,
        sh_addr: header.sh_addr, sh_offset: header.sh_offset, sh_size: header.sh_size,
        sh_link: header.sh_link, sh_info: header.sh_info,
        sh_addralign: header.sh_addralign, sh_entsize: header.sh_entsize,
    };
    let mut bytes = vec![0u8; size];
    scroll::ctx::IntoCtx::into_ctx(raw, &mut bytes, goblin::container::Ctx::new(container, endian));
    bytes
}

/// The symbols of a kernel, for the information that is handed to it.
#[derive(Debug)]
pub struct Symbols {
    /// how many section headers there are
    pub num: u32,
    /// how many bytes each of them takes
    pub size: u32,
    /// the address of the first section header
    pub addr: u64,
    /// the number of the section that holds the section names
    pub shndx: u32,
    /// the sections that were not loaded with the kernel, and behind them the
    /// section headers
    pub memory: Vec<u8>,
}

/// Whether the section is copied for the kernel: it has not been loaded with
/// a segment and has bytes in the file.
pub open spec fn is_copied(section: SectionHeader) -> bool {
    section.sh_addr == 0 && section.sh_type != SHT_NOBITS
}

/// The bytes of every copied section among the first `n`, one after the
/// other.
pub open spec fn copied_bytes(sections: Seq<SectionHeader>, data: Seq<u8>, n: nat) -> Seq<u8>
    decreases n,
{
    if n == 0 {
        Seq::empty()
    } else if is_copied(sections[n - 1]) {
        copied_bytes(sections, data, (n - 1) as nat) + data.subrange(
            sections[n - 1].sh_offset as int,
            sections[n - 1].sh_offset + sections[n - 1].sh_size,
        )
    } else {
        copied_bytes(sections, data, (n - 1) as nat)
    }
}

/// The section header with the given number as the kernel gets it: that of a
/// copied section says where the copy is, the others are as they were.
pub open spec fn relocated_section(
    sections: Seq<SectionHeader>,
    data: Seq<u8>,
    base: u64,
    i: int,
) -> SectionHeader {
    if is_copied(sections[i]) {
        SectionHeader {
            sh_addr: (base + copied_bytes(sections, data, i as nat).len()) as u64,
            ..sections[i]
        }
    } else {
        sections[i]
    }
}

/// The first `n` section headers as the kernel gets them, written one after
/// the other.
pub open spec fn header_table(
    sections: Seq<SectionHeader>,
    data: Seq<u8>,
    base: u64,
    is_64: bool,
    little_endian: bool,
    size: nat,
    n: nat,
) -> Seq<u8>
    decreases n,
{
    if n == 0 {
        Seq::empty()
    } else {
        header_table(sections, data, base, is_64, little_endian, size, (n - 1) as nat)
            + section_header_image(
            relocated_section(sections, data, base, n - 1),
            is_64,
            little_endian,
            size,
        )
    }
}

/// Whether the symbols of the file can be put together at `base`: the file
/// header leaves room for each section header and announces at least as many
/// as there are, every section to copy lies in the file, and its copy has an
/// address.
pub open spec fn symbols_possible(elf: ElfImage, data: Seq<u8>, base: u64) -> bool {
    &&& elf.section_headers@.len() > 0 ==> elf.e_shentsize >= section_header_size(elf.is_64)
    &&& elf.section_headers@.len() <= elf.e_shnum
    &&& forall|i: int|
        0 <= i < elf.section_headers@.len() && is_copied(#[trigger] elf.section_headers@[i]) ==> {
            &&& elf.section_headers@[i].sh_offset + elf.section_headers@[i].sh_size <= data.len()
            &&& base + copied_bytes(elf.section_headers@, data, i as nat).len() <= u64::MAX
        }
    &&& base + copied_bytes(elf.section_headers@, data, elf.section_headers@.len()).len()
        <= u64::MAX
}

/// The memory that the symbols take: the copied sections, the section
/// headers, and zeroes for the headers that the file header announces but
/// the file does not have.
pub open spec fn symbol_memory(elf: ElfImage, data: Seq<u8>, base: u64) -> Seq<u8> {
    copied_bytes(elf.section_headers@, data, elf.section_headers@.len()) + header_table(
        elf.section_headers@,
        data,
        base,
        elf.is_64,
        elf.little_endian,
        elf.e_shentsize as nat,
        elf.section_headers@.len(),
    ) + Seq::new(
        ((elf.e_shnum - elf.section_headers@.len()) * elf.e_shentsize) as nat,
        |i: int| 0u8,
    )
}


/// Appends the bytes `from..to` of `source`.
pub fn append_bytes(destination: &mut Vec<u8>, source: &[u8], from: usize, to: usize)
    requires
        from <= to <= source@.len(),
    ensures
        final(destination)@ == old(destination)@ + source@.subrange(from as int, to as int),
{
    let mut i: usize = from;
    assert(source@.subrange(from as int, from as int) == Seq::<u8>::empty());
    assert(destination@ + Seq::<u8>::empty() == destination@);
    while i < to
        invariant
            from <= i <= to <= source@.len(),
            destination@ == old(destination)@ + source@.subrange(from as int, i as int),
        decreases to - i,
    {
        destination.push(source[i]);
        assert(source@.subrange(from as int, i + 1) == source@.subrange(from as int, i as int).push(
            source@[i as int],
        ));
        i += 1;
    }
}

/// Bring the binary's symbols in a format for Multiboot.
///
/// `base` is the address that the memory of the symbols is going to have.
/// The sections that have not been loaded with the kernel are copied, their
/// headers are made to point at the copies, and all section headers are
/// written behind them. This fails with `LoadError` unless the file header
/// leaves room for each section header and announces at least as many as
/// there are, every section to copy lies in the file, and the copies and the
/// headers have addresses.
pub fn symbols(elf: &ElfImage, data: &[u8], base: u64) -> (r: Result<Symbols, Status>)
    ensures
        r is Ok <==> symbols_possible(*elf, data@, base),
        r matches Ok(symbols) ==> {
            &&& symbols.num == elf.e_shnum
            &&& symbols.size == elf.e_shentsize
            &&& symbols.shndx == elf.e_shstrndx
            &&& symbols.addr == base + copied_bytes(
                elf.section_headers@,
                data@,
                elf.section_headers@.len(),
            ).len()
            &&& symbols.memory@ == symbol_memory(*elf, data@, base)
        },
        r matches Err(e) ==> e == Status::LoadError,
{
    let num: usize = elf.e_shnum as usize;
    let size: usize = elf.e_shentsize as usize;
    let needed: usize = if elf.is_64 {
        64
    } else {
        40
    };
    if (elf.section_headers.len() > 0 && size < needed) || elf.section_headers.len() > num {
        return Err(Status::LoadError);
    }
    let ghost sections = elf.section_headers@;
    // copy the symbols
    // only copy sections that are not already loaded
    let mut memory: Vec<u8> = Vec::new();
    let mut rewritten: Vec<SectionHeader> = Vec::new();
    let mut i: usize = 0;
    while i < elf.section_headers.len()
        invariant
            i <= sections.len(),
            sections == elf.section_headers@,
            memory@ == copied_bytes(sections, data@, i as nat),
            rewritten@.len() == i,
            forall|k: int|
                0 <= k < i ==> #[trigger] rewritten@[k] == relocated_section(
                    sections,
                    data@,
                    base,
                    k,
                ),
            forall|k: int|
                0 <= k < i && is_copied(#[trigger] sections[k]) ==> {
                    &&& sections[k].sh_offset + sections[k].sh_size <= data@.len()
                    &&& base + copied_bytes(sections, data@, k as nat).len() <= u64::MAX
                },
        decreases sections.len() - i,
    {
        let section: SectionHeader = elf.section_headers[i];
        if section.sh_addr == 0 && section.sh_type != SHT_NOBITS {
            let index: usize = memory.len();
            let file_len: usize = data.len();
            let end: u64 = match section.sh_offset.checked_add(section.sh_size) {
                Some(end) => end,
                None => {
                    assert(is_copied(sections[i as int]));
                    return Err(Status::LoadError);
                },
            };
            if end > file_len as u64 {
                assert(is_copied(sections[i as int]));
                return Err(Status::LoadError);
            }
            let address: u64 = match base.checked_add(index as u64) {
                Some(address) => address,
                None => {
                    assert(is_copied(sections[i as int]));
                    return Err(Status::LoadError);
                },
            };
            append_bytes(&mut memory, data, section.sh_offset as usize, end as usize);
            rewritten.push(
                SectionHeader {
                    sh_name: section.sh_name,
                    sh_type: section.sh_type,
                    sh_flags: section.sh_flags,
                    sh_addr: address,
                    sh_offset: section.sh_offset,
                    sh_size: section.sh_size,
                    sh_link: section.sh_link,
                    sh_info: section.sh_info,
                    sh_addralign: section.sh_addralign,
                    sh_entsize: section.sh_entsize,
                },
            );
        } else {
            rewritten.push(section);
        }
        i += 1;
    }
    // copy the section headers
    let shdr_begin: usize = memory.len();
    let addr: u64 = match base.checked_add(shdr_begin as u64) {
        Some(addr) => addr,
        None => {
            return Err(Status::LoadError);
        },
    };
    let ghost copied = memory@;
    let mut n: usize = 0;
    assert(memory@ + Seq::<u8>::empty() == memory@);
    while n < rewritten.len()
        invariant
            n <= rewritten@.len(),
            rewritten@.len() == sections.len(),
            sections.len() > 0 ==> size >= section_header_size(elf.is_64),
            forall|k: int|
                0 <= k < rewritten@.len() ==> #[trigger] rewritten@[k] == relocated_section(
                    sections,
                    data@,
                    base,
                    k,
                ),
            memory@ == copied + header_table(
                sections,
                data@,
                base,
                elf.is_64,
                elf.little_endian,
                size as nat,
                n as nat,
            ),
        decreases rewritten@.len() - n,
    {
        let bytes: Vec<u8> = section_header_bytes(
            &rewritten[n],
            elf.is_64,
            elf.little_endian,
            size,
        );
        let ghost before = memory@;
        append_bytes(&mut memory, bytes.as_slice(), 0, size);
        proof {
            assert(bytes@.subrange(0, size as int) == bytes@);
            assert(memory@ == copied + (header_table(
                sections,
                data@,
                base,
                elf.is_64,
                elf.little_endian,
                size as nat,
                n as nat,
            ) + bytes@));
        }
        n += 1;
    }
    let missing: usize = num - rewritten.len();
    assert(missing * size <= 0xffff * 0xffff) by (nonlinear_arith)
        requires
            missing <= 0xffff,
            size <= 0xffff,
    ;
    let padding: Vec<u8> = zeroes(missing * size);
    append_bytes(&mut memory, padding.as_slice(), 0, missing * size);
    proof {
        assert(padding@.subrange(0, (missing * size) as int) == padding@);
    }
    Ok(
        Symbols {
            num: elf.e_shnum as u32,
            size: elf.e_shentsize as u32,
            addr,
            shndx: elf.e_shstrndx as u32,
            memory,
        },
    )
}

/// How much memory the symbols of the file take at most: room for every
/// section that has not been loaded with the kernel, and for the section
/// headers. `None` if that is more than can be counted.
pub fn symbols_capacity(elf: &ElfImage) -> (r: Option<u64>)
    ensures
        r matches Some(capacity) ==> capacity == elf.e_shnum * elf.e_shentsize + unloaded_size(
            elf.section_headers@,
            elf.section_headers@.len(),
        ),
        r is None ==> elf.e_shnum * elf.e_shentsize + unloaded_size(
            elf.section_headers@,
            elf.section_headers@.len(),
        ) > u64::MAX,
{
    assert(elf.e_shnum * elf.e_shentsize <= 0xffff * 0xffff) by (nonlinear_arith)
        requires
            elf.e_shnum <= 0xffff,
            elf.e_shentsize <= 0xffff,
    ;
    let mut capacity: u64 = (elf.e_shnum as u64) * (elf.e_shentsize as u64);
    let ghost table = capacity;
    let mut i: usize = 0;
    while i < elf.section_headers.len()
        invariant
            i <= elf.section_headers@.len(),
            table == elf.e_shnum * elf.e_shentsize,
            capacity == table + unloaded_size(elf.section_headers@, i as nat),
        decreases elf.section_headers@.len() - i,
    {
        let section: SectionHeader = elf.section_headers[i];
        if section.sh_addr == 0 {
            capacity =
            match capacity.checked_add(section.sh_size) {
                Some(sum) => sum,
                None => {
                    proof {
                        assert(unloaded_size(elf.section_headers@, (i + 1) as nat)
                            == unloaded_size(elf.section_headers@, i as nat) + section.sh_size);
                        lemma_unloaded_size_grows(
                            elf.section_headers@,
                            i + 1,
                            elf.section_headers@.len(),
                        );
                    }
                    return None;
                },
            };
        }
        i += 1;
    }
    Some(capacity)
}

/// The sizes of the sections among the first `n` that have not been loaded
/// with the kernel, added up.
pub open spec fn unloaded_size(sections: Seq<SectionHeader>, n: nat) -> int
    decreases n,
{
    if n == 0 {
        0
    } else if sections[n - 1].sh_addr == 0 {
        unloaded_size(sections, (n - 1) as nat) + sections[n - 1].sh_size
    } else {
        unloaded_size(sections, (n - 1) as nat)
    }
}

proof fn lemma_unloaded_size_grows(sections: Seq<SectionHeader>, m: int, n: nat)
    requires
        0 <= m <= n,
    ensures
        unloaded_size(sections, m as nat) <= unloaded_size(sections, n),
    decreases n,
{
    if m < n {
        lemma_unloaded_size_grows(sections, m, (n - 1) as nat);
    }
}

} // verus!
