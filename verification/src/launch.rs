//! Booting an image in a virtual machine.
use vstd::prelude::*;
use vstd::string::*;
use crate::bochs::{bochsrc, bochsrc_text};
use crate::config::texts_of;
use crate::text::contains_char;

verus! {

/// Where to place the 32-bit EFI file
pub const IA32_BOOT_PATH: &'static str = "EFI/Boot/bootia32.efi";

/// Where to place the 64-bit EFI file
pub const X64_BOOT_PATH: &'static str = "EFI/Boot/bootx64.efi";

/// An argument as it stands in the load options: in quotes if there is a
/// space in it.
pub open spec fn quoted(argument: Seq<char>) -> Seq<char> {
    if argument.contains(' ') {
        seq!['"'] + argument + seq!['"']
    } else {
        argument
    }
}

/// The load options for the first `n` arguments: the name of the loader, and
/// then each argument behind a space.
pub open spec fn load_options_of(runtime_args: Seq<Seq<char>>, n: nat) -> Seq<char>
    decreases n,
{
    if n == 0 {
        "towboot.efi"@
    } else {
        load_options_of(runtime_args, (n - 1) as nat) + seq![' '] + quoted(runtime_args[n - 1])
    }
}

/// Joins a slice of strings.
pub fn runtime_args_to_load_options(runtime_args: &Vec<String>) -> (r: String)
    ensures
        r@ == load_options_of(texts_of(runtime_args@), runtime_args@.len()),
{
    let mut load_options: String = String::from_str("towboot.efi");
    let mut i: usize = 0;
    proof {
        reveal_strlit(" ");
        reveal_strlit("\"");
        assert(" "@ == seq![' ']);
        assert("\""@ == seq!['"']);
    }
    while i < runtime_args.len()
        invariant
            i <= runtime_args@.len(),
            " "@ == seq![' '],
            "\""@ == seq!['"'],
            load_options@ == load_options_of(texts_of(runtime_args@), i as nat),
        decreases runtime_args@.len() - i,
    {
        let string: &str = runtime_args[i].as_str();
        assert(texts_of(runtime_args@)[i as int] == string@);
        let ghost before = load_options@;
        load_options.append(" ");
        if contains_char(string, ' ') {
            load_options.append("\"");
        }
        load_options.append(string);
        if contains_char(string, ' ') {
            load_options.append("\"");
        }
        assert(load_options@ == before + seq![' '] + quoted(string@));
        i += 1;
    }
    load_options
}

/// What to start to boot an image.
#[derive(Debug)]
pub struct Launch {
    /// the program to start
    pub program: String,
    /// its arguments
    pub args: Vec<String>,
    /// what to write into a file whose path is the next argument
    pub config: Option<String>,
}

/// What to start to boot an image, as contracts see it.
pub struct LaunchView {
    pub program: Seq<char>,
    pub args: Seq<Seq<char>>,
    pub config: Option<Seq<char>>,
}

impl View for Launch {
    type V = LaunchView;

    open spec fn view(&self) -> LaunchView {
        LaunchView {
            program: self.program@,
            args: texts_of(self.args@),
            config: crate::config::text_of(self.config),
        }
    }
}

/// Why an image cannot be booted as asked.
#[derive(Clone, Copy, Debug, PartialEq, Eq, Structural)]
pub enum LaunchError {
    /// can't do KVM in Bochs
    KvmInBochs,
}

/// The arguments for QEMU.
pub open spec fn qemu_args(firmware: Seq<char>, image: Seq<char>, use_kvm: bool, use_gdb: bool) -> Seq<
    Seq<char>,
> {
    seq!["-m"@, "256"@, "-hda"@, image, "-serial"@, "stdio"@, "-bios"@, firmware] + (if use_kvm {
        seq!["-machine"@, "pc,accel=kvm"@]
    } else {
        Seq::empty()
    }) + (if use_gdb {
        seq!["-s"@, "-S"@]
    } else {
        Seq::empty()
    })
}

/// What to start to boot an image with the given firmware.
pub open spec fn launch_of(
    firmware: Seq<char>,
    image: Seq<char>,
    is_x86_64: bool,
    use_bochs: bool,
    use_kvm: bool,
    use_gdb: bool,
) -> Result<LaunchView, LaunchError> {
    if use_bochs {
        if use_kvm {
            Err(LaunchError::KvmInBochs)
        } else {
            Ok(
                LaunchView {
                    program: "bochs"@,
                    args: seq!["-qf"@],
                    config: Some(bochsrc_text(firmware, image, use_gdb)),
                },
            )
        }
    } else {
        Ok(
            LaunchView {
                program: if is_x86_64 {
                    "qemu-system-x86_64"@
                } else {
                    "qemu-system-i386"@
                },
                args: qemu_args(firmware, image, use_kvm, use_gdb),
                config: None,
            },
        )
    }
}

/// Boot a built image: what to start for that.
///
/// Bochs gets its configuration in a file, QEMU in its arguments. With
/// `use_gdb` the machine starts paused, waiting for GDB to attach to
/// localhost:1234.
pub fn boot_image(
    firmware: &str,
    image: &str,
    is_x86_64: bool,
    use_bochs: bool,
    use_kvm: bool,
    use_gdb: bool,
) -> (r: Result<Launch, LaunchError>)
    ensures
        match launch_of(firmware@, image@, is_x86_64, use_bochs, use_kvm, use_gdb) {
            Ok(launch) => r matches Ok(made) && made@ == launch,
            Err(e) => r matches Err(error) && error == e,
        },
{
    if use_bochs {
        if use_kvm {
            return Err(LaunchError::KvmInBochs);
        }
        let mut args: Vec<String> = Vec::new();
        args.push(String::from_str("-qf"));
        assert(texts_of(args@) == seq!["-qf"@]);
        Ok(
            Launch {
                program: String::from_str("bochs"),
                args,
                config: Some(bochsrc(firmware, image, use_gdb)),
            },
        )
    } else {
        let mut args: Vec<String> = Vec::new();
        args.push(String::from_str("-m"));
        args.push(String::from_str("256"));
        args.push(String::from_str("-hda"));
        args.push(String::from_str(image));
        args.push(String::from_str("-serial"));
        args.push(String::from_str("stdio"));
        args.push(String::from_str("-bios"));
        args.push(String::from_str(firmware));
        if use_kvm {
            args.push(String::from_str("-machine"));
            args.push(String::from_str("pc,accel=kvm"));
        }
        if use_gdb {
            args.push(String::from_str("-s"));
            args.push(String::from_str("-S"));
        }
        assert(texts_of(args@) == qemu_args(firmware@, image@, use_kvm, use_gdb));
        Ok(
            Launch {
                program: if is_x86_64 {
                    String::from_str("qemu-system-x86_64")
                } else {
                    String::from_str("qemu-system-i386")
                },
                args,
                config: None,
            },
        )
    }
}

/// Boot an image.
#[derive(Debug)]
pub struct BootImageCommand {
    /// what image to boot
    pub image: String,
    /// use x86_64 instead of i686
    pub x86_64: bool,
    /// enable KVM
    pub kvm: bool,
    /// use Bochs instead of QEMU
    pub bochs: bool,
    /// wait for GDB to attach
    pub gdb: bool,
    /// use the specified firmware instead of OVMF
    pub firmware: Option<String>,
    /// additional arguments to pass to the hypervisor
    pub args: Vec<String>,
}

impl BootImageCommand {
    /// What to start for this command: what `boot_image` says, with the
    /// additional arguments behind the others.
    ///
    /// `ovmf` is the path of the firmware to use where the command names
    /// none.
    pub fn run(&self, ovmf: &str) -> (r: Result<Launch, LaunchError>)
        ensures
            match launch_of(
                match self.firmware {
                    Some(path) => path@,
                    None => ovmf@,
                },
                self.image@,
                self.x86_64,
                self.bochs,
                self.kvm,
                self.gdb,
            ) {
                Ok(launch) => r matches Ok(made) && made@ == (LaunchView {
                    args: launch.args + texts_of(self.args@),
                    ..launch
                }),
                Err(e) => r matches Err(error) && error == e,
            },
    {
        let firmware: &str = match &self.firmware {
            Some(path) => path.as_str(),
            None => ovmf,
        };
        let mut launch: Launch = match boot_image(
            firmware,
            self.image.as_str(),
            self.x86_64,
            self.bochs,
            self.kvm,
            self.gdb,
        ) {
            Ok(launch) => launch,
            Err(e) => {
                return Err(e);
            },
        };
        let ghost before = texts_of(launch.args@);
        let mut args: Vec<String> = launch.args;
        let mut i: usize = 0;
        assert(texts_of(self.args@).subrange(0, 0) == Seq::<Seq<char>>::empty());
        while i < self.args.len()
            invariant
                i <= self.args@.len(),
                texts_of(args@) == before + texts_of(self.args@).subrange(0, i as int),
            decreases self.args@.len() - i,
        {
            let ghost now = texts_of(args@);
            args.push(self.args[i].clone());
            assert(texts_of(args@) == now.push(self.args@[i as int]@));
            assert(texts_of(self.args@).subrange(0, i + 1) == texts_of(self.args@).subrange(
                0,
                i as int,
            ).push(self.args@[i as int]@));
            i += 1;
        }
        assert(texts_of(self.args@).subrange(0, i as int) == texts_of(self.args@));
        Ok(Launch { program: launch.program, args, config: launch.config })
    }
}

} // verus!
