//! Runtime options that override what a kernel image asks for.
use vstd::prelude::*;
use crate::text::same_text;

verus! {

/// Runtime options to override information in kernel images.
#[derive(Clone, Copy, Debug, PartialEq, Eq, Structural, Hash)]
pub enum Quirk {
    /// Do not exit Boot Services.
    /// This starts the kernel with more privileges and less available memory.
    DontExitBootServices,
    /// Treat the kernel always as an ELF file.
    /// This ignores bit 16 of the kernel's Multiboot header.
    ForceElf,
    /// Ignore the memory map when loading the kernel.
    ForceOverwrite,
    /// Ignore the kernel's preferred resolution and just keep the current one.
    KeepResolution,
    /// Place modules below 200 MB.
    ModulesBelow200Mb,
}

/// The quirk that a configuration names, if the name is one.
pub open spec fn quirk_of_name(name: Seq<char>) -> Option<Quirk> {
    if name == "DontExitBootServices"@ {
        Some(Quirk::DontExitBootServices)
    } else if name == "ForceElf"@ {
        Some(Quirk::ForceElf)
    } else if name == "ForceOverwrite"@ {
        Some(Quirk::ForceOverwrite)
    } else if name == "KeepResolution"@ {
        Some(Quirk::KeepResolution)
    } else if name == "ModulesBelow200Mb"@ {
        Some(Quirk::ModulesBelow200Mb)
    } else {
        None
    }
}

impl Quirk {
    /// Reads a quirk from its name as written in a configuration.
    pub fn from_name(name: &str) -> (r: Option<Quirk>)
        ensures
            r == quirk_of_name(name@),
    {
        if same_text(name, "DontExitBootServices") {
            Some(Quirk::DontExitBootServices)
        } else if same_text(name, "ForceElf") {
            Some(Quirk::ForceElf)
        } else if same_text(name, "ForceOverwrite") {
            Some(Quirk::ForceOverwrite)
        } else if same_text(name, "KeepResolution") {
            Some(Quirk::KeepResolution)
        } else if same_text(name, "ModulesBelow200Mb") {
            Some(Quirk::ModulesBelow200Mb)
        } else {
            None
        }
    }
}

/// A set of quirks.
#[derive(Clone, Copy, Debug, PartialEq, Eq, Structural)]
pub struct QuirkSet {
    dont_exit_boot_services: bool,
    force_elf: bool,
    force_overwrite: bool,
    keep_resolution: bool,
    modules_below_200_mb: bool,
}

impl View for QuirkSet {
    type V = Set<Quirk>;

    closed spec fn view(&self) -> Set<Quirk> {
        Set::new(
            |q: Quirk|
                match q {
                    Quirk::DontExitBootServices => self.dont_exit_boot_services,
                    Quirk::ForceElf => self.force_elf,
                    Quirk::ForceOverwrite => self.force_overwrite,
                    Quirk::KeepResolution => self.keep_resolution,
                    Quirk::ModulesBelow200Mb => self.modules_below_200_mb,
                },
        )
    }
}

impl QuirkSet {
    /// The empty set.
    pub fn new() -> (r: QuirkSet)
        ensures
            r@ == Set::<Quirk>::empty(),
    {
        let r = QuirkSet {
            dont_exit_boot_services: false,
            force_elf: false,
            force_overwrite: false,
            keep_resolution: false,
            modules_below_200_mb: false,
        };
        assert(r@ =~= Set::<Quirk>::empty());
        r
    }

    /// Whether the quirk is in the set.
    pub fn contains(&self, quirk: Quirk) -> (r: bool)
        ensures
            r == self@.contains(quirk),
    {
        match quirk {
            Quirk::DontExitBootServices => self.dont_exit_boot_services,
            Quirk::ForceElf => self.force_elf,
            Quirk::ForceOverwrite => self.force_overwrite,
            Quirk::KeepResolution => self.keep_resolution,
            Quirk::ModulesBelow200Mb => self.modules_below_200_mb,
        }
    }

    /// Adds the quirk to the set.
    pub fn insert(&mut self, quirk: Quirk)
        ensures
            final(self)@ == old(self)@.insert(quirk),
    {
        match quirk {
            Quirk::DontExitBootServices => {
                self.dont_exit_boot_services = true;
            },
            Quirk::ForceElf => {
                self.force_elf = true;
            },
            Quirk::ForceOverwrite => {
                self.force_overwrite = true;
            },
            Quirk::KeepResolution => {
                self.keep_resolution = true;
            },
            Quirk::ModulesBelow200Mb => {
                self.modules_below_200_mb = true;
            },
        }
        assert(self@ =~= old(self)@.insert(quirk));
    }
}

} // verus!
