//! Handing the machine over to the kernel.
//!
//! There are two ways to enter a kernel, and there is no way back from
//! either. This module says what has to happen to the machine on the way;
//! the caller, who can touch the machine, does it.
use vstd::prelude::*;
use crate::kernel::{Arch, EntryPoint};
use crate::status::Status;
use x86::segmentation::{
    BuildDescriptor, CodeSegmentType, DataSegmentType, Descriptor, DescriptorBuilder,
    SegmentDescriptorBuilder,
};

verus! {

/// The selector of the code segment in the table that `jump` sets up.
pub const CODE_SELECTOR: u16 = 0x08;

/// The selector of the data segment in the table that `jump` sets up.
pub const DATA_SELECTOR: u16 = 0x10;

/// The bit of CR0 that enables paging.
pub const CR0_PAGING: u32 = 0x8000_0000;

/// The bit of CR0 that enables protected mode.
pub const CR0_PROTECTED_MODE: u32 = 0x1;

/// The bit of CR4 that enables PAE.
pub const CR4_PAE: u32 = 0x20;

/// The number of the model-specific register EFER.
pub const EFER: u32 = 0xC000_0080;

/// The bit of EFER that enables long mode.
pub const EFER_LONG_MODE: u32 = 0x100;

/// A flat 32-bit read/execute code segment: offset 0, limit 0xFFFFFFFF.
pub const FLAT_CODE_SEGMENT: u64 = 0x00cf_9a00_0000_ffff;

/// A flat 32-bit read/write data segment: offset 0, limit 0xFFFFFFFF.
pub const FLAT_DATA_SEGMENT: u64 = 0x00cf_9200_0000_ffff;

/// One thing to do to the machine.
#[derive(Clone, Copy, Debug, PartialEq, Eq, Structural)]
pub enum MachineStep {
    /// clear the interrupt flag
    DisableInterrupts,
    /// load a descriptor table that holds these descriptors
    LoadGdt { null: u64, code: u64, data: u64 },
    /// load an empty interrupt descriptor table; this is no problem as
    /// interrupts are disabled
    LoadEmptyIdt,
    /// leave 64-bit mode by a far return into the code segment
    EnterCompatibilityMode { code_selector: u16 },
    /// load DS, ES, FS, GS and SS with the data segment
    LoadDataSegments { selector: u16 },
    /// clear bit 31 (PG) of CR0 and set bit 0 (PE)
    DisablePaging,
    /// clear bit 5 (PAE) of CR4
    DisablePae,
    /// clear bit 8 (LME) of EFER
    DisableLongMode,
}

/// How the kernel is entered.
#[derive(Debug)]
pub struct Handoff {
    /// what to do to the machine first, in this order
    pub steps: Vec<MachineStep>,
    /// the signature, for EAX
    pub signature: u32,
    /// the address of the information, for EBX
    pub info_address: u32,
    /// where to jump to
    pub entry_address: u64,
}

/// What has to be done to the machine before a kernel is entered in the
/// Multiboot machine state, whatever the machine.
pub open spec fn common_steps() -> Seq<MachineStep> {
    seq![MachineStep::DisablePaging, MachineStep::DisablePae, MachineStep::DisableLongMode]
}

/// What has to be done to the machine before the kernel is entered.
///
/// For a UEFI entry point, nothing: the state is kept. For a Multiboot entry
/// point, interrupts are disabled, a 64-bit machine gets flat 32-bit
/// segments and leaves 64-bit mode, and then paging, PAE and long mode are
/// switched off.
pub open spec fn steps_for(entry_point: EntryPoint, arch: Arch) -> Seq<MachineStep> {
    match entry_point {
        EntryPoint::Uefi(_) => Seq::empty(),
        EntryPoint::Multiboot(_) => match arch {
            Arch::Ia32 => seq![MachineStep::DisableInterrupts] + common_steps(),
            Arch::X64 => seq![
                MachineStep::DisableInterrupts,
                MachineStep::LoadGdt { null: 0, code: FLAT_CODE_SEGMENT, data: FLAT_DATA_SEGMENT },
                MachineStep::LoadEmptyIdt,
                MachineStep::EnterCompatibilityMode { code_selector: CODE_SELECTOR },
                MachineStep::LoadDataSegments { selector: DATA_SELECTOR },
            ] + common_steps(),
        },
    }
}

/// The address of an entry point.
pub open spec fn address_of(entry_point: EntryPoint) -> u64 {
    match entry_point {
        EntryPoint::Uefi(address) => address,
        EntryPoint::Multiboot(address) => address,
    }
}

/// Whether the kernel can be entered: the address of the information fits
/// into a 32-bit register, and so does the entry address where the kernel is
/// entered in 32-bit code.
pub open spec fn can_jump(entry_point: EntryPoint, info_address: u64) -> bool {
    &&& info_address <= u32::MAX
    &&& entry_point matches EntryPoint::Multiboot(address) ==> address <= u32::MAX
}

/// Builds a flat 32-bit read/execute code segment with `x86`'s
/// `DescriptorBuilder`: present, offset 0, limit 0xFFFFFFFF in units of
/// 4 KB.
///
/// The value is what `x86` puts together for these settings: the limit in
/// bits 0 to 15 and 48 to 51, type 1010 in bits 40 to 43, and the flags S
/// (44), P (47), D/B (54) and G (55).
#[verifier::external_body]
pub(crate) fn flat_code_segment() -> (r: u64)
    ensures
        r == FLAT_CODE_SEGMENT,
{
    let builder: DescriptorBuilder = DescriptorBuilder::code_descriptor(0, u32::MAX, CodeSegmentType::ExecuteRead);
    let descriptor: Descriptor = builder.present().limit_granularity_4kb().db().finish();
    descriptor.as_u64()
}

/// Builds a flat 32-bit read/write data segment with `x86`'s
/// `DescriptorBuilder`: present, offset 0, limit 0xFFFFFFFF in units of
/// 4 KB.
///
/// The value is what `x86` puts together for these settings: the limit in
/// bits 0 to 15 and 48 to 51, type 0010 in bits 40 to 43, and the flags S
/// (44), P (47), D/B (54) and G (55).
#[verifier::external_body]
pub(crate) fn flat_data_segment() -> (r: u64)
    ensures
        r == FLAT_DATA_SEGMENT,
{
    let builder: DescriptorBuilder = DescriptorBuilder::data_descriptor(0, u32::MAX, DataSegmentType::ReadWrite);
    let descriptor: Descriptor = builder.present().limit_granularity_4kb().db().finish();
    descriptor.as_u64()
}

/// The descriptor table for the Multiboot machine state: the null
/// descriptor, a flat code segment and a flat data segment.
pub fn descriptor_table() -> (r: MachineStep)
    ensures
        r == (MachineStep::LoadGdt { null: 0, code: FLAT_CODE_SEGMENT, data: FLAT_DATA_SEGMENT }),
{
    MachineStep::LoadGdt { null: 0, code: flat_code_segment(), data: flat_data_segment() }
}

/// CR0 as the Multiboot machine state wants it: paging off, protected mode
/// on, the other bits as they are.
pub fn cr0_for_multiboot(cr0: u32) -> (r: u32)
    ensures
        r == (cr0 & !CR0_PAGING) | CR0_PROTECTED_MODE,
        r & CR0_PAGING == 0,
        r & CR0_PROTECTED_MODE == CR0_PROTECTED_MODE,
        r & !(CR0_PAGING | CR0_PROTECTED_MODE) == cr0 & !(CR0_PAGING | CR0_PROTECTED_MODE),
{
    let r: u32 = (cr0 & !CR0_PAGING) | CR0_PROTECTED_MODE;
    assert(r & 0x8000_0000u32 == 0 && r & 1u32 == 1u32 && r & !(0x8000_0000u32 | 1u32) == cr0 & !(
    0x8000_0000u32 | 1u32)) by (bit_vector)
        requires
            r == (cr0 & !0x8000_0000u32) | 1u32,
    ;
    r
}

/// CR4 without PAE, the other bits as they are.
pub fn cr4_for_multiboot(cr4: u32) -> (r: u32)
    ensures
        r == cr4 & !CR4_PAE,
        r & CR4_PAE == 0,
        r & !CR4_PAE == cr4 & !CR4_PAE,
{
    let r: u32 = cr4 & !CR4_PAE;
    assert(r & 0x20u32 == 0 && r & !0x20u32 == cr4 & !0x20u32) by (bit_vector)
        requires
            r == cr4 & !0x20u32,
    ;
    r
}

/// The lower half of EFER without long mode, the other bits as they are.
pub fn efer_for_multiboot(efer: u32) -> (r: u32)
    ensures
        r == efer & !EFER_LONG_MODE,
        r & EFER_LONG_MODE == 0,
        r & !EFER_LONG_MODE == efer & !EFER_LONG_MODE,
{
    let r: u32 = efer & !EFER_LONG_MODE;
    assert(r & 0x100u32 == 0 && r & !0x100u32 == efer & !0x100u32) by (bit_vector)
        requires
            r == efer & !0x100u32,
    ;
    r
}

/// Says how to enter the kernel.
///
/// Both ways are final: what the answer describes ends with a jump into the
/// kernel, and nothing comes after it. This fails with `LoadError` where an
/// address does not fit into the register that carries it.
pub fn jump(entry_point: EntryPoint, arch: Arch, signature: u32, info_address: u64) -> (r: Result<
    Handoff,
    Status,
>)
    ensures
        r is Ok <==> can_jump(entry_point, info_address),
        r matches Ok(handoff) ==> {
            &&& handoff.steps@ == steps_for(entry_point, arch)
            &&& handoff.signature == signature
            &&& handoff.info_address == info_address
            &&& handoff.entry_address == address_of(entry_point)
        },
        r matches Err(e) ==> e == Status::LoadError,
{
    if info_address > u32::MAX as u64 {
        return Err(Status::LoadError);
    }
    match entry_point {
        EntryPoint::Uefi(entry_address) => Ok(
            jump_uefi(entry_address, signature, info_address as u32),
        ),
        EntryPoint::Multiboot(entry_address) => jump_multiboot(
            entry_address,
            arch,
            signature,
            info_address as u32,
        ),
    }
}

/// Uefi machine state: keep the current state and just pass the signature
/// and the information struct.
pub fn jump_uefi(entry_address: u64, signature: u32, info_address: u32) -> (r: Handoff)
    ensures
        r.steps@ == steps_for(EntryPoint::Uefi(entry_address), Arch::X64),
        r.steps@.len() == 0,
        r.signature == signature,
        r.info_address == info_address,
        r.entry_address == entry_address,
{
    Handoff { steps: Vec::new(), signature, info_address, entry_address }
}

/// Multiboot machine state.
///
/// > ‘EFLAGS’: Bit 17 (VM) must be cleared. Bit 9 (IF) must be cleared.
/// > ‘CS’: Must be a 32-bit read/execute code segment with an offset of ‘0’
/// > and a limit of ‘0xFFFFFFFF’.
/// > 'DS’, 'ES’, ‘FS’, ‘GS’, ‘SS’: Must be a 32-bit read/write data segment
/// > with an offset of ‘0’ and a limit of ‘0xFFFFFFFF’.
///
/// A 32-bit machine is in that state already; on a 64-bit machine a new
/// descriptor table is set and the code segment is reloaded.
pub fn jump_multiboot(entry_address: u64, arch: Arch, signature: u32, info_address: u32) -> (r:
    Result<Handoff, Status>)
    ensures
        r is Ok <==> entry_address <= u32::MAX,
        r matches Ok(handoff) ==> handoff.steps@ == steps_for(
            EntryPoint::Multiboot(entry_address),
            arch,
        ) && handoff.signature == signature && handoff.info_address == info_address
            && handoff.entry_address == entry_address,
        r matches Err(e) ==> e == Status::LoadError,
{
    if entry_address > u32::MAX as u64 {
        return Err(Status::LoadError);
    }
    let mut steps: Vec<MachineStep> = Vec::new();
    // disable interrupts (should have been enabled)
    steps.push(MachineStep::DisableInterrupts);
    match arch {
        Arch::Ia32 => {},
        Arch::X64 => {
            steps.push(descriptor_table());
            steps.push(MachineStep::LoadEmptyIdt);
            steps.push(MachineStep::EnterCompatibilityMode { code_selector: CODE_SELECTOR });
            steps.push(MachineStep::LoadDataSegments { selector: DATA_SELECTOR });
        },
    }
    jump_multiboot_common(&mut steps);
    assert(steps@ == steps_for(EntryPoint::Multiboot(entry_address), arch));
    Ok(Handoff { steps, signature, info_address, entry_address })
}

/// This last part is common for i686 and x86_64.
///
/// > ‘CR0’ Bit 31 (PG) must be cleared. Bit 0 (PE) must be set.
///
/// Multiboot says nothing about CR4, but PAE is disabled anyway, and
/// so is long mode.
pub fn jump_multiboot_common(steps: &mut Vec<MachineStep>)
    ensures
        final(steps)@ == old(steps)@ + common_steps(),
{
    steps.push(MachineStep::DisablePaging);
    steps.push(MachineStep::DisablePae);
    steps.push(MachineStep::DisableLongMode);
}

} // verus!
