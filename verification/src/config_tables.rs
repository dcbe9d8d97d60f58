//! Handle UEFI config tables.
//!
//! Some of the firmware's configuration tables are interesting for
//! Multiboot: the kernel is given a copy of the ACPI RSDP and of the SMBIOS
//! tables.
use vstd::prelude::*;
use crate::elf::append_bytes;

verus! {

/// What a configuration table is, as its GUID tells.
#[derive(Clone, Copy, Debug, PartialEq, Eq, Structural)]
pub enum ConfigTableKind {
    Acpi,
    Acpi2,
    DebugImageInfo,
    DxeServices,
    HandOffBlockList,
    LzmaCompress,
    MemoryStatusCodeRecord,
    MemoryTypeInformation,
    Smbios,
    Smbios3,
    /// any other table
    Other,
}

/// What to do with a configuration table.
#[derive(Clone, Copy, Debug, PartialEq, Eq, Structural)]
pub enum TableAction {
    /// hand the RSDP that the table holds to `handle_acpi`
    HandleAcpi,
    /// hand the entry point that the table holds to `handle_smbios`
    HandleSmbios,
    /// the table is of no interest
    Ignore,
}

/// What to do with a configuration table of this kind.
pub open spec fn action_for(kind: ConfigTableKind) -> TableAction {
    match kind {
        ConfigTableKind::Acpi | ConfigTableKind::Acpi2 => TableAction::HandleAcpi,
        ConfigTableKind::Smbios | ConfigTableKind::Smbios3 => TableAction::HandleSmbios,
        _ => TableAction::Ignore,
    }
}

/// Go through all of the configuration tables: what to do with each.
/// Some of them are interesting for Multiboot2.
pub fn parse_for_multiboot(config_tables: &Vec<ConfigTableKind>) -> (r: Vec<TableAction>)
    ensures
        r@.len() == config_tables@.len(),
        forall|i: int| 0 <= i < r@.len() ==> #[trigger] r@[i] == action_for(config_tables@[i]),
{
    let mut actions: Vec<TableAction> = Vec::new();
    let mut i: usize = 0;
    while i < config_tables.len()
        invariant
            i <= config_tables@.len(),
            actions@.len() == i,
            forall|k: int| 0 <= k < i ==> #[trigger] actions@[k] == action_for(config_tables@[k]),
        decreases config_tables@.len() - i,
    {
        let action = match config_tables[i] {
            ConfigTableKind::Acpi | ConfigTableKind::Acpi2 => TableAction::HandleAcpi,
            ConfigTableKind::Smbios | ConfigTableKind::Smbios3 => TableAction::HandleSmbios,
            _ => TableAction::Ignore,
        };
        actions.push(action);
        i += 1;
    }
    actions
}

/// What is read of an ACPI RSDP.
#[derive(Clone, Copy, Debug, PartialEq, Eq)]
pub struct Rsdp {
    /// whether signature and checksums are right
    pub valid: bool,
    pub checksum: u8,
    pub oem_id: [u8; 6],
    pub revision: u8,
    pub rsdt_address: u32,
    /// the fields below are only valid for a revision above 0
    pub length: u32,
    pub xsdt_address: u64,
    pub ext_checksum: u8,
}

/// The copy of the RSDP that the kernel gets.
#[derive(Clone, Copy, Debug, PartialEq, Eq)]
pub enum RsdpTag {
    V1 { checksum: u8, oem_id: [u8; 6], revision: u8, rsdt_address: u32 },
    V2 {
        checksum: u8,
        oem_id: [u8; 6],
        revision: u8,
        rsdt_address: u32,
        length: u32,
        xsdt_address: u64,
        ext_checksum: u8,
    },
}

/// Which of the two ACPI tables an RSDP was found in.
#[derive(Clone, Copy, Debug, PartialEq, Eq, Structural)]
pub enum AcpiKind {
    /// the table for ACPI 1.0
    Acpi,
    /// the table for ACPI 2.0 and later
    Acpi2,
}

/// What has been made of an RSDP, and what is worth a warning.
#[derive(Clone, Copy, Debug, PartialEq, Eq)]
pub struct AcpiOutcome {
    /// the copy for the kernel; none for an RSDP that is invalid
    pub tag: Option<RsdpTag>,
    /// the revision is not the one that the table is for
    pub unexpected_revision: bool,
    /// the table is for ACPI 2.0, but the RSDP is of revision 0
    pub forced_v1: bool,
}

/// The revision that an RSDP in this table should have.
pub open spec fn expected_revision(kind: AcpiKind) -> u8 {
    match kind {
        AcpiKind::Acpi => 0,
        AcpiKind::Acpi2 => 2,
    }
}

/// The copy of the first fields of the RSDP.
pub open spec fn tag_v1(rsdp: Rsdp) -> RsdpTag {
    RsdpTag::V1 {
        checksum: rsdp.checksum,
        oem_id: rsdp.oem_id,
        revision: rsdp.revision,
        rsdt_address: rsdp.rsdt_address,
    }
}

/// The copy of all fields of the RSDP.
pub open spec fn tag_v2(rsdp: Rsdp) -> RsdpTag {
    RsdpTag::V2 {
        checksum: rsdp.checksum,
        oem_id: rsdp.oem_id,
        revision: rsdp.revision,
        rsdt_address: rsdp.rsdt_address,
        length: rsdp.length,
        xsdt_address: rsdp.xsdt_address,
        ext_checksum: rsdp.ext_checksum,
    }
}

/// What is made of an RSDP: nothing if it is invalid; a copy of its first
/// fields if it comes from the table for ACPI 1.0 or is of revision 0, which
/// some firmware hands out in the table for ACPI 2.0; a copy of all fields
/// else.
pub open spec fn acpi_outcome(kind: AcpiKind, rsdp: Rsdp) -> AcpiOutcome {
    if !rsdp.valid {
        AcpiOutcome { tag: None, unexpected_revision: false, forced_v1: false }
    } else {
        AcpiOutcome {
            tag: Some(
                if kind == AcpiKind::Acpi || rsdp.revision == 0 {
                    tag_v1(rsdp)
                } else {
                    tag_v2(rsdp)
                },
            ),
            unexpected_revision: rsdp.revision != expected_revision(kind),
            forced_v1: kind == AcpiKind::Acpi2 && rsdp.revision == 0,
        }
    }
}

/// Parse the ACPI RSDP and create the Multiboot struct for it.
pub fn handle_acpi(kind: AcpiKind, rsdp: &Rsdp) -> (r: AcpiOutcome)
    ensures
        r == acpi_outcome(kind, *rsdp),
{
    if !rsdp.valid {
        // the RSDP is invalid
        return AcpiOutcome { tag: None, unexpected_revision: false, forced_v1: false };
    }
    let v1 = RsdpTag::V1 {
        checksum: rsdp.checksum,
        oem_id: rsdp.oem_id,
        revision: rsdp.revision,
        rsdt_address: rsdp.rsdt_address,
    };
    match kind {
        AcpiKind::Acpi => AcpiOutcome {
            tag: Some(v1),
            unexpected_revision: rsdp.revision != 0,
            forced_v1: false,
        },
        AcpiKind::Acpi2 => {
            if rsdp.revision == 0 {
                // some u-boot versions do this
                return AcpiOutcome { tag: Some(v1), unexpected_revision: true, forced_v1: true };
            }
            AcpiOutcome {
                tag: Some(
                    RsdpTag::V2 {
                        checksum: rsdp.checksum,
                        oem_id: rsdp.oem_id,
                        revision: rsdp.revision,
                        rsdt_address: rsdp.rsdt_address,
                        length: rsdp.length,
                        xsdt_address: rsdp.xsdt_address,
                        ext_checksum: rsdp.ext_checksum,
                    },
                ),
                unexpected_revision: rsdp.revision != 2,
                forced_v1: false,
            }
        },
    }
}

/// What is read of an SMBIOS entry point.
#[derive(Clone, Copy, Debug, PartialEq, Eq, Structural)]
pub struct SmbiosEntryPoint {
    /// how many bytes the entry point takes
    pub len: u8,
    pub major: u8,
    pub minor: u8,
    /// where the structure table is
    pub smbios_address: u64,
    /// how many bytes the structure table takes
    pub smbios_len: u32,
}

/// Which of the two SMBIOS tables an entry point was found in.
#[derive(Clone, Copy, Debug, PartialEq, Eq, Structural)]
pub enum SmbiosKind {
    /// the table for SMBIOS 2
    Smbios,
    /// the table for SMBIOS 3
    Smbios3,
}

/// What to copy of the SMBIOS tables.
#[derive(Clone, Copy, Debug, PartialEq, Eq, Structural)]
pub struct SmbiosPlan {
    pub major: u8,
    pub minor: u8,
    /// how many bytes of the memory at the table's address are the entry
    /// point
    pub entry_len: usize,
    /// where the structure table is
    pub table_address: u64,
    /// how many bytes the structure table takes
    pub table_len: u32,
    /// the major version is not the one that the table is for
    pub unexpected_version: bool,
}

/// The copy of the SMBIOS tables that the kernel gets.
#[derive(Debug)]
pub struct SmbiosTag {
    pub major: u8,
    pub minor: u8,
    /// the entry point, and behind it the structure table
    pub bytes: Vec<u8>,
}

/// What `dmidecode` finds in the memory at the address of an SMBIOS table:
/// the entry point, or `None` where it finds no valid one.
pub uninterp spec fn smbios_entry_point(buffer: Seq<u8>) -> Option<SmbiosEntryPoint>;

/// Looks for an SMBIOS entry point with `dmidecode::EntryPoint::search`.
///
/// Nothing is claimed about what `dmidecode` takes for an entry point, only
/// that it finds the same in the same bytes. Of what it finds, the length,
/// the version, and address and length of the structure table are kept.
#[verifier::external_body]
pub(crate) fn search_entry_point(buffer: &[u8]) -> (r: Option<SmbiosEntryPoint>)
    ensures
        r == smbios_entry_point(buffer@),
{
    let entry_point = dmidecode::EntryPoint::search(buffer).ok()?;
    let version = entry_point.to_version();
    Some(SmbiosEntryPoint {
        len: entry_point.len(),
        major: version.major,
        minor: version.minor,
        smbios_address: entry_point.smbios_address(),
        smbios_len: entry_point.smbios_len(),
    })
}

/// The major version that an entry point in this table should have.
pub open spec fn expected_version(kind: SmbiosKind) -> u8 {
    match kind {
        SmbiosKind::Smbios => 2,
        SmbiosKind::Smbios3 => 3,
    }
}

/// What to copy for an entry point that was found in `buffer_len` bytes of
/// memory: nothing where the entry point is longer than that.
pub open spec fn smbios_plan(kind: SmbiosKind, entry_point: SmbiosEntryPoint, buffer_len: int) -> Option<
    SmbiosPlan,
> {
    if entry_point.len <= buffer_len {
        Some(
            SmbiosPlan {
                major: entry_point.major,
                minor: entry_point.minor,
                entry_len: entry_point.len as usize,
                table_address: entry_point.smbios_address,
                table_len: entry_point.smbios_len,
                unexpected_version: entry_point.major != expected_version(kind),
            },
        )
    } else {
        None
    }
}

/// Says what to copy of the SMBIOS tables, for an entry point that has been
/// read.
pub fn plan_smbios(kind: SmbiosKind, entry_point: &SmbiosEntryPoint, buffer_len: usize) -> (r:
    Option<SmbiosPlan>)
    ensures
        r == smbios_plan(kind, *entry_point, buffer_len as int),
{
    if entry_point.len as usize > buffer_len {
        return None;
    }
    let should_be_version: u8 = match kind {
        SmbiosKind::Smbios => 2,
        SmbiosKind::Smbios3 => 3,
    };
    Some(
        SmbiosPlan {
            major: entry_point.major,
            minor: entry_point.minor,
            entry_len: entry_point.len as usize,
            table_address: entry_point.smbios_address,
            table_len: entry_point.smbios_len,
            unexpected_version: entry_point.major != should_be_version,
        },
    )
}

/// Copy the SMBIOS tables: the first step.
///
/// `buffer` is the memory at the address of the configuration table. The
/// answer says where the structure table is, for the caller to read it and
/// hand it to [`smbios_tag`]; there is none where no entry point is found.
pub fn handle_smbios(kind: SmbiosKind, buffer: &[u8]) -> (r: Option<SmbiosPlan>)
    ensures
        r == match smbios_entry_point(buffer@) {
            Some(entry_point) => smbios_plan(kind, entry_point, buffer@.len() as int),
            None => None,
        },
{
    match search_entry_point(buffer) {
        Some(entry_point) => plan_smbios(kind, &entry_point, buffer.len()),
        None => None,
    }
}

/// Copy the SMBIOS tables.
/// This is a copy of the Entry Point and the Structure Table.
/// Caveat: The Structure Table pointer in the Entry Point is not adjusted.
///
/// There is no copy where the plan is not one for this memory.
pub fn smbios_tag(buffer: &[u8], plan: &SmbiosPlan, table: &[u8]) -> (r: Option<SmbiosTag>)
    ensures
        r is Some <==> plan.entry_len <= buffer@.len(),
        r matches Some(tag) ==> tag.major == plan.major && tag.minor == plan.minor && tag.bytes@
            == buffer@.subrange(0, plan.entry_len as int) + table@,
{
    if plan.entry_len > buffer.len() {
        return None;
    }
    let mut bytes: Vec<u8> = Vec::new();
    assert(bytes@ + buffer@.subrange(0, plan.entry_len as int) == buffer@.subrange(
        0,
        plan.entry_len as int,
    ));
    append_bytes(&mut bytes, buffer, 0, plan.entry_len);
    append_bytes(&mut bytes, table, 0, table.len());
    assert(table@.subrange(0, table@.len() as int) == table@);
    Some(SmbiosTag { major: plan.major, minor: plan.minor, bytes })
}

} // verus!
