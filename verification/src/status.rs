//! Status codes handed back to the firmware or the caller.
use vstd::prelude::*;

verus! {

/// Why preparing or booting an entry failed.
#[derive(Clone, Copy, Debug, PartialEq, Eq, Structural)]
pub enum Status {
    /// The image could not be placed or is not a loadable kernel.
    LoadError,
    /// An argument (an option, a volume name) is not valid.
    InvalidParameter,
    /// A file or a volume does not exist.
    NotFound,
    /// The path names something that cannot be loaded, such as a directory.
    Unsupported,
    /// A file ended before all of it was read.
    EndOfFile,
    /// A name cannot be handed to the firmware.
    ProtocolError,
    /// The display cannot be used.
    DeviceError,
}

} // verus!
