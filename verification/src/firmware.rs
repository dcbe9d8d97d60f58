//! Where current builds of OVMF are to be had.
//!
//! The builds come from [retrage/edk2-nightly](https://retrage.github.io/edk2-nightly/),
//! as this provides builds for both x64 and ia32 as single files. Getting
//! and caching them is left to the caller.
use vstd::prelude::*;
use vstd::string::*;

verus! {

/// Where OVMF for x64 is downloaded from.
pub const OVMF_X64_URL: &'static str =
    "https://retrage.github.io/edk2-nightly/bin/RELEASEX64_OVMF.fd";

/// Where OVMF for ia32 is downloaded from.
pub const OVMF_IA32_URL: &'static str =
    "https://retrage.github.io/edk2-nightly/bin/RELEASEIa32_OVMF.fd";

/// The name under which downloads are cached.
pub const CACHE_NAME: &'static str = "towbootctl";

/// Get OVMF for x64: the place to download it from.
pub fn x64() -> (r: String)
    ensures
        r@ == OVMF_X64_URL@,
{
    String::from_str(OVMF_X64_URL)
}

/// Get OVMF for ia32: the place to download it from.
pub fn ia32() -> (r: String)
    ensures
        r@ == OVMF_IA32_URL@,
{
    String::from_str(OVMF_IA32_URL)
}

/// The place to download the firmware for a machine from.
pub fn firmware_url(is_x86_64: bool) -> (r: String)
    ensures
        r@ == if is_x86_64 {
            OVMF_X64_URL@
        } else {
            OVMF_IA32_URL@
        },
{
    if is_x86_64 {
        x64()
    } else {
        ia32()
    }
}

} // verus!
