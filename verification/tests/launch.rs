use towboot::firmware::{ia32, x64};
use towboot::launch::{boot_image, runtime_args_to_load_options, BootImageCommand, LaunchError};

#[test]
fn load_options_without_arguments() {
    assert_eq!(runtime_args_to_load_options(&vec![]), "towboot.efi");
}

#[test]
fn load_options_quote_arguments_with_spaces() {
    let args = vec![
        "-kernel".to_string(),
        "kernel.elf with args".to_string(),
        "-quirk".to_string(),
        "ForceElf".to_string(),
    ];
    assert_eq!(
        runtime_args_to_load_options(&args),
        "towboot.efi -kernel \"kernel.elf with args\" -quirk ForceElf"
    );
}

#[test]
fn firmware_urls() {
    assert_eq!(x64(), "https://retrage.github.io/edk2-nightly/bin/RELEASEX64_OVMF.fd");
    assert_eq!(ia32(), "https://retrage.github.io/edk2-nightly/bin/RELEASEIa32_OVMF.fd");
}

#[test]
fn qemu_gets_its_arguments() {
    let launch = boot_image("OVMF.fd", "image.img", true, false, true, true).unwrap();
    assert_eq!(launch.program, "qemu-system-x86_64");
    assert_eq!(
        launch.args,
        vec![
            "-m", "256", "-hda", "image.img", "-serial", "stdio", "-bios", "OVMF.fd", "-machine",
            "pc,accel=kvm", "-s", "-S"
        ]
    );
    assert!(launch.config.is_none());
    let launch = boot_image("OVMF.fd", "image.img", false, false, false, false).unwrap();
    assert_eq!(launch.program, "qemu-system-i386");
    assert_eq!(launch.args.len(), 8);
}

#[test]
fn bochs_gets_a_configuration() {
    let launch = boot_image("OVMF.fd", "image.img", true, true, false, true).unwrap();
    assert_eq!(launch.program, "bochs");
    assert_eq!(launch.args, vec!["-qf"]);
    let config = launch.config.unwrap();
    assert!(config.starts_with("\n# partly taken from"));
    assert!(config.contains("romimage: file=\"OVMF.fd\", address=0x0, options=none\n"));
    assert!(config.contains("ata0-master: type=disk, path=\"image.img\", mode=flat"));
    assert!(config.ends_with("gdbstub: enabled=1, port=1234, text_base=0, data_base=0, bss_base=0\n"));
}

#[test]
fn bochs_cannot_do_kvm() {
    assert_eq!(
        boot_image("OVMF.fd", "image.img", true, true, true, false).unwrap_err(),
        LaunchError::KvmInBochs
    );
}

#[test]
fn command_appends_its_arguments() {
    let command = BootImageCommand {
        image: "image.img".to_string(),
        x86_64: false,
        kvm: false,
        bochs: false,
        gdb: false,
        firmware: Some("my.fd".to_string()),
        args: vec!["-display".to_string(), "none".to_string()],
    };
    let launch = command.run("OVMF.fd").unwrap();
    assert_eq!(launch.program, "qemu-system-i386");
    assert_eq!(
        launch.args,
        vec!["-m", "256", "-hda", "image.img", "-serial", "stdio", "-bios", "my.fd", "-display", "none"]
    );
}
