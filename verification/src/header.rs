//! The Multiboot header of a kernel.
//!
//! A kernel says in its header what it needs from the loader. The header
//! lies somewhere in the first 8192 bytes of the image and begins with a
//! magic number; a checksum guards against bytes that only look like one.
use vstd::prelude::*;
use crate::kernel::{KernelHeader, LoadAddresses};
use crate::status::Status;
use crate::video::VideoMode;

verus! {

/// The magic number that a Multiboot header begins with.
pub const MULTIBOOT_HEADER_MAGIC: u32 = 0x1BADB002;

/// How many bytes of an image are searched for the header.
pub const SEARCH_LIMIT: usize = 8192;

/// The flag that says that the header has a video mode.
pub const FLAG_VIDEO_MODE: u32 = 0x4;

/// The flag that says that the header has load addresses.
pub const FLAG_ADDRESSES: u32 = 0x1_0000;

/// What `multiboot` reads of a header.
#[derive(Clone, Copy, Debug, PartialEq, Eq)]
pub struct RawHeader {
    /// the index at which the header starts
    pub header_start: u32,
    /// the load addresses and the entry address, if the header has them
    pub addresses: Option<(LoadAddresses, u32)>,
    /// the depth, if the mode is one with pixels, and the width and the
    /// height of the preferred video mode, if the header has one
    pub video_mode: Option<(Option<u32>, u32, u32)>,
}

/// The byte at `i`; 0 behind the end of the buffer.
pub open spec fn byte_at(buffer: Seq<u8>, i: int) -> u8 {
    if 0 <= i < buffer.len() {
        buffer[i]
    } else {
        0
    }
}

/// The 32 bits that begin at `i`, lowest byte first.
pub open spec fn word_at(buffer: Seq<u8>, i: int) -> u32 {
    (byte_at(buffer, i) + byte_at(buffer, i + 1) * 0x100 + byte_at(buffer, i + 2) * 0x1_0000
        + byte_at(buffer, i + 3) * 0x100_0000) as u32
}

/// Whether the magic number stands at `i`, where a header may begin: at a
/// multiple of 4 among the first 8192 bytes.
pub open spec fn is_magic_at(buffer: Seq<u8>, i: int) -> bool {
    &&& 0 <= i < SEARCH_LIMIT
    &&& i % 4 == 0
    &&& i + 4 <= buffer.len()
    &&& word_at(buffer, i) == MULTIBOOT_HEADER_MAGIC
}

/// Whether the header begins at `i`: the magic number stands there and
/// nowhere before.
pub open spec fn is_header_start(buffer: Seq<u8>, i: int) -> bool {
    is_magic_at(buffer, i) && forall|k: int| 0 <= k < i ==> !is_magic_at(buffer, k)
}

/// Whether magic number, flags and checksum of the header at `i` add up to
/// 0 in 32 bits.
pub open spec fn checksum_holds(buffer: Seq<u8>, i: int) -> bool {
    (word_at(buffer, i) + word_at(buffer, i + 4) + word_at(buffer, i + 8)) % 0x1_0000_0000 == 0
}

/// Whether the header at `i` has the flag.
pub open spec fn has_flag(buffer: Seq<u8>, i: int, flag: u32) -> bool {
    word_at(buffer, i + 4) & flag != 0
}

/// Whether the addresses of the header at `i` make sense: it has none, or
/// the header is not loaded below the load address.
pub open spec fn addresses_hold(buffer: Seq<u8>, i: int) -> bool {
    has_flag(buffer, i, FLAG_ADDRESSES) ==> word_at(buffer, i + 16) <= word_at(buffer, i + 12)
}

/// What the header at `i` says.
pub open spec fn raw_header_at(buffer: Seq<u8>, i: int) -> RawHeader {
    RawHeader {
        header_start: i as u32,
        addresses: if has_flag(buffer, i, FLAG_ADDRESSES) {
            Some(
                (
                    LoadAddresses {
                        header_addr: word_at(buffer, i + 12),
                        load_addr: word_at(buffer, i + 16),
                        load_end_addr: word_at(buffer, i + 20),
                        bss_end_addr: word_at(buffer, i + 24),
                    },
                    word_at(buffer, i + 28),
                ),
            )
        } else {
            None
        },
        video_mode: if has_flag(buffer, i, FLAG_VIDEO_MODE) {
            Some(
                (
                    if word_at(buffer, i + 32) == 0 {
                        Some(word_at(buffer, i + 44))
                    } else {
                        None
                    },
                    word_at(buffer, i + 36),
                    word_at(buffer, i + 40),
                ),
            )
        } else {
            None
        },
    }
}

/// Reads a Multiboot header with `multiboot::header::Header::from_slice`.
///
/// `multiboot` looks for the magic number at the multiples of 4 among the
/// first 8192 bytes and takes the 48 bytes from there, or as many as there
/// are, for the header; it panics where the checksum is wrong or the load
/// address lies behind the header address, which the precondition rules out.
/// The numbers of the header are read lowest byte first, as every machine
/// does that this loader runs on. The addresses are handed out if flag 16 is
/// set, the video mode if flag 2 is set, and its depth only for mode type 0,
/// the one with pixels.
#[verifier::external_body]
pub(crate) fn read_header(buffer: &[u8]) -> (r: Option<RawHeader>)
    requires
        forall|i: int|
            is_header_start(buffer@, i) ==> checksum_holds(buffer@, i) && addresses_hold(buffer@, i),
    ensures
        r is Some <==> exists|i: int| is_magic_at(buffer@, i),
        r matches Some(header) ==> is_header_start(buffer@, header.header_start as int) && header
            == raw_header_at(buffer@, header.header_start as int),
{
    let header = multiboot::header::Header::from_slice(buffer)?;
    Some(RawHeader {
        header_start: header.header_start,
        addresses: header.get_addresses().map(|a| (LoadAddresses {
            header_addr: a.header_address,
            load_addr: a.load_address,
            load_end_addr: a.load_end_address,
            bss_end_addr: a.bss_end_address,
        }, a.entry_address)),
        video_mode: header.get_preferred_video_mode().map(|m| (m.depth(), m.width, m.height)),
    })
}

/// The 32 bits that begin at `i`, lowest byte first.
pub fn read_word(buffer: &[u8], i: usize) -> (r: u32)
    requires
        i + 3 <= usize::MAX,
    ensures
        r == word_at(buffer@, i as int),
{
    let len: usize = buffer.len();
    let b0: u32 = if i < len {
        buffer[i] as u32
    } else {
        0
    };
    let b1: u32 = if i + 1 < len {
        buffer[i + 1] as u32
    } else {
        0
    };
    let b2: u32 = if i + 2 < len {
        buffer[i + 2] as u32
    } else {
        0
    };
    let b3: u32 = if i + 3 < len {
        buffer[i + 3] as u32
    } else {
        0
    };
    b0 + b1 * 0x100 + b2 * 0x1_0000 + b3 * 0x100_0000
}

/// Find the header: where the magic number stands first.
pub fn find_header(buffer: &[u8]) -> (r: Option<usize>)
    ensures
        match r {
            Some(i) => is_header_start(buffer@, i as int),
            None => forall|i: int| !is_magic_at(buffer@, i),
        },
{
    let len: usize = buffer.len();
    let mut i: usize = 0;
    while i < SEARCH_LIMIT && i + 4 <= len
        invariant
            i % 4 == 0,
            i <= SEARCH_LIMIT,
            len == buffer@.len(),
            forall|k: int| 0 <= k < i ==> !is_magic_at(buffer@, k),
        decreases SEARCH_LIMIT - i,
    {
        if read_word(buffer, i) == MULTIBOOT_HEADER_MAGIC {
            return Some(i);
        }
        assert forall|k: int| 0 <= k < i + 4 implies !is_magic_at(buffer@, k) by {
            if k > i {
                assert(k % 4 != 0);
            }
        }
        i += 4;
    }
    assert forall|k: int| !is_magic_at(buffer@, k) by {
        if 0 <= k < SEARCH_LIMIT && k % 4 == 0 && k + 4 <= len {
            assert(k < i);
        }
    }
    None
}

/// The header that a kernel has, if it has a valid one: what the first
/// header in the buffer says, if its checksum and its addresses hold.
pub open spec fn header_of(buffer: Seq<u8>) -> Option<KernelHeader> {
    if exists|i: int| is_header_start(buffer, i) {
        let i = choose|i: int| is_header_start(buffer, i);
        if checksum_holds(buffer, i) && addresses_hold(buffer, i) {
            Some(kernel_header(raw_header_at(buffer, i)))
        } else {
            None
        }
    } else {
        None
    }
}

/// What a header of the first version of Multiboot asks for. Such a kernel
/// knows nothing of UEFI and wants the Boot Services to be exited.
pub open spec fn kernel_header(raw: RawHeader) -> KernelHeader {
    KernelHeader {
        header_start: raw.header_start,
        load_addresses: match raw.addresses {
            Some((addresses, _)) => Some(addresses),
            None => None,
        },
        entry_address: match raw.addresses {
            Some((_, entry)) => Some(entry),
            None => None,
        },
        efi32_entry_address: None,
        efi64_entry_address: None,
        should_exit_boot_services: true,
        preferred_video_mode: match raw.video_mode {
            Some((depth, width, height)) => Some(
                VideoMode {
                    graphics: depth is Some,
                    width,
                    height,
                    depth: match depth {
                        Some(depth) => depth,
                        None => 0,
                    },
                },
            ),
            None => None,
        },
    }
}

/// The first header in the buffer begins at one place only.
pub proof fn lemma_header_start_is_unique(buffer: Seq<u8>, i: int, j: int)
    requires
        is_header_start(buffer, i),
        is_header_start(buffer, j),
    ensures
        i == j,
{
    if i < j {
        assert(!is_magic_at(buffer, i));
    } else if j < i {
        assert(!is_magic_at(buffer, j));
    }
}

impl KernelHeader {
    /// Reads the Multiboot header of a kernel.
    ///
    /// This fails with `LoadError` where the kernel has no header, where
    /// the checksum of the header is wrong, and where the header is to be
    /// loaded below its own load address.
    pub fn from_slice(buffer: &[u8]) -> (r: Result<KernelHeader, Status>)
        ensures
            match header_of(buffer@) {
                Some(header) => r == Ok::<KernelHeader, Status>(header),
                None => r == Err::<KernelHeader, Status>(Status::LoadError),
            },
    {
        let start: usize = match find_header(buffer) {
            Some(start) => start,
            None => {
                return Err(Status::LoadError);
            },
        };
        proof {
            let c = choose|c: int| is_header_start(buffer@, c);
            lemma_header_start_is_unique(buffer@, c, start as int);
        }
        let magic: u32 = read_word(buffer, start);
        let flags: u32 = read_word(buffer, start + 4);
        let checksum: u32 = read_word(buffer, start + 8);
        if (magic as u64 + flags as u64 + checksum as u64) % 0x1_0000_0000 != 0 {
            return Err(Status::LoadError);
        }
        if flags & FLAG_ADDRESSES != 0 && read_word(buffer, start + 16) > read_word(
            buffer,
            start + 12,
        ) {
            return Err(Status::LoadError);
        }
        assert forall|i: int| is_header_start(buffer@, i) implies checksum_holds(buffer@, i)
            && addresses_hold(buffer@, i) by {
            lemma_header_start_is_unique(buffer@, i, start as int);
        }
        match read_header(buffer) {
            Some(raw) => {
                proof {
                    lemma_header_start_is_unique(buffer@, raw.header_start as int, start as int);
                }
                Ok(
                    KernelHeader {
                        header_start: raw.header_start,
                        load_addresses: match raw.addresses {
                            Some((addresses, _)) => Some(addresses),
                            None => None,
                        },
                        entry_address: match raw.addresses {
                            Some((_, entry)) => Some(entry),
                            None => None,
                        },
                        efi32_entry_address: None,
                        efi64_entry_address: None,
                        should_exit_boot_services: true,
                        preferred_video_mode: match raw.video_mode {
                            Some((depth, width, height)) => Some(
                                VideoMode {
                                    graphics: depth.is_some(),
                                    width,
                                    height,
                                    depth: match depth {
                                        Some(depth) => depth,
                                        None => 0,
                                    },
                                },
                            ),
                            None => None,
                        },
                    },
                )
            },
            None => {
                assert(is_magic_at(buffer@, start as int));
                Err(Status::LoadError)
            },
        }
    }
}

} // verus!
