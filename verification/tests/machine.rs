use towboot::kernel::{Arch, EntryPoint};
use towboot::machine::{
    cr0_for_multiboot, cr4_for_multiboot, descriptor_table, efer_for_multiboot, jump,
    jump_multiboot, jump_multiboot_common, jump_uefi, MachineStep, CODE_SELECTOR, DATA_SELECTOR,
    EFER,
};
use towboot::status::Status;

#[test]
fn uefi_entry_keeps_the_state() {
    for arch in [Arch::Ia32, Arch::X64] {
        let handoff = jump(EntryPoint::Uefi(0x1_0020_0000), arch, 0x36d76289, 0x9000).unwrap();
        assert_eq!(handoff.steps, vec![]);
        assert_eq!(handoff.signature, 0x36d76289);
        assert_eq!(handoff.info_address, 0x9000);
        assert_eq!(handoff.entry_address, 0x1_0020_0000);
    }
    assert!(jump_uefi(5, 6, 7).steps.is_empty());
}

#[test]
fn multiboot_entry_on_32_bit() {
    let handoff = jump(EntryPoint::Multiboot(0x100000), Arch::Ia32, 0x2badb002, 0x9000).unwrap();
    assert_eq!(
        handoff.steps,
        vec![
            MachineStep::DisableInterrupts,
            MachineStep::DisablePaging,
            MachineStep::DisablePae,
            MachineStep::DisableLongMode,
        ]
    );
    assert_eq!((handoff.signature, handoff.info_address, handoff.entry_address), (0x2badb002, 0x9000, 0x100000));
}

#[test]
fn multiboot_entry_on_64_bit_leaves_long_mode() {
    let handoff = jump(EntryPoint::Multiboot(0x100000), Arch::X64, 0x2badb002, 0x9000).unwrap();
    assert_eq!(
        handoff.steps,
        vec![
            MachineStep::DisableInterrupts,
            MachineStep::LoadGdt { null: 0, code: 0x00cf_9a00_0000_ffff, data: 0x00cf_9200_0000_ffff },
            MachineStep::LoadEmptyIdt,
            MachineStep::EnterCompatibilityMode { code_selector: 0x08 },
            MachineStep::LoadDataSegments { selector: 0x10 },
            MachineStep::DisablePaging,
            MachineStep::DisablePae,
            MachineStep::DisableLongMode,
        ]
    );
    assert_eq!(CODE_SELECTOR, 8);
    assert_eq!(DATA_SELECTOR, 16);
}

#[test]
fn flat_segments() {
    match descriptor_table() {
        MachineStep::LoadGdt { null, code, data } => {
            assert_eq!(null, 0);
            // base 0, limit 0xfffff pages, present, 32 bit
            assert_eq!(code & 0xffff, 0xffff);
            assert_eq!((code >> 48) & 0xf, 0xf);
            assert_eq!((code >> 16) & 0xff_ffff, 0);
            assert_eq!(code >> 56, 0);
            assert_eq!((code >> 40) & 0xff, 0x9a);
            assert_eq!((data >> 40) & 0xff, 0x92);
            assert_eq!((code >> 52) & 0xf, 0xc);
            assert_eq!(code ^ data, 0x8 << 40);
        }
        other => panic!("{:?}", other),
    }
}

#[test]
fn addresses_have_to_fit_their_registers() {
    assert_eq!(jump(EntryPoint::Multiboot(0x1_0000_0000), Arch::X64, 0, 0).unwrap_err(), Status::LoadError);
    assert_eq!(jump(EntryPoint::Multiboot(0x100000), Arch::X64, 0, 0x1_0000_0000).unwrap_err(), Status::LoadError);
    assert_eq!(jump(EntryPoint::Uefi(0x100000), Arch::X64, 0, 0x1_0000_0000).unwrap_err(), Status::LoadError);
    assert!(jump(EntryPoint::Multiboot(0xffff_ffff), Arch::Ia32, 0, 0xffff_ffff).is_ok());
    assert!(jump_multiboot(0x1_0000_0000, Arch::Ia32, 0, 0).is_err());
}

#[test]
fn control_registers() {
    assert_eq!(cr0_for_multiboot(0x8005_0033), 0x0005_0033);
    assert_eq!(cr0_for_multiboot(0x8000_0000), 1);
    assert_eq!(cr0_for_multiboot(0xffff_fffe), 0x7fff_ffff);
    assert_eq!(cr4_for_multiboot(0x668), 0x648);
    assert_eq!(cr4_for_multiboot(0x20), 0);
    assert_eq!(efer_for_multiboot(0xd01), 0xc01);
    assert_eq!(efer_for_multiboot(0x500), 0x400);
    assert_eq!(EFER, 0xc000_0080);
}

#[test]
fn common_steps_come_last() {
    let mut steps = vec![MachineStep::LoadEmptyIdt];
    jump_multiboot_common(&mut steps);
    assert_eq!(
        steps,
        vec![MachineStep::LoadEmptyIdt, MachineStep::DisablePaging, MachineStep::DisablePae, MachineStep::DisableLongMode]
    );
}
