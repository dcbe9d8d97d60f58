//! This module contains functionality to work with images.
//!
//! An image is a disk with one partition, which holds a file system with
//! the loader, the configuration, kernels and modules. Writing it is left to
//! the caller; how large its parts are is said here.
use vstd::prelude::*;

verus! {

/// The size of a logical block.
pub const BLOCK_SIZE: u64 = 512;

/// How much of the disk is kept free of the partition.
pub const RESERVED_SIZE: u64 = 1024 * 1024;

/// How a disk of a given size is laid out.
#[derive(Clone, Copy, Debug, PartialEq, Eq, Structural)]
pub struct ImageLayout {
    /// the size of the disk in bytes
    pub size: u64,
    /// the number of blocks that the protective MBR covers
    pub mbr_blocks: u32,
    /// the size of the partition in bytes
    pub partition_size: u64,
}

/// How a disk of `size` bytes is laid out; `None` if it is too small to
/// hold a partition.
pub open spec fn layout_of(size: u64) -> Option<ImageLayout> {
    if size < RESERVED_SIZE {
        None
    } else {
        Some(
            ImageLayout {
                size,
                mbr_blocks: if size / BLOCK_SIZE - 1 <= u32::MAX {
                    (size / BLOCK_SIZE - 1) as u32
                } else {
                    0xffff_ffffu32
                },
                partition_size: (size - RESERVED_SIZE) as u64,
            },
        )
    }
}

/// Says how a new image of the given size is laid out: a protective MBR
/// over all blocks but the first, as far as it can count them, and one
/// partition that leaves 1 MB of the disk free.
pub fn layout(size: u64) -> (r: Option<ImageLayout>)
    ensures
        r == layout_of(size),
{
    if size < RESERVED_SIZE {
        return None;
    }
    let blocks: u64 = size / BLOCK_SIZE - 1;
    Some(
        ImageLayout {
            size,
            mbr_blocks: if blocks <= u32::MAX as u64 {
                blocks as u32
            } else {
                0xffff_ffff
            },
            partition_size: size - RESERVED_SIZE,
        },
    )
}

/// Where a partition begins and ends on the disk, in bytes; `None` where
/// that cannot be counted.
pub fn partition_range(first_lba: u64, last_lba: u64) -> (r: Option<(u64, u64)>)
    ensures
        r == if last_lba * BLOCK_SIZE <= u64::MAX && first_lba * BLOCK_SIZE <= u64::MAX {
            Some(((first_lba * BLOCK_SIZE) as u64, (last_lba * BLOCK_SIZE) as u64))
        } else {
            None
        },
{
    match first_lba.checked_mul(BLOCK_SIZE) {
        Some(start) => match last_lba.checked_mul(BLOCK_SIZE) {
            Some(end) => Some((start, end)),
            None => None,
        },
        None => None,
    }
}

/// The sum of the first `n` sizes.
pub open spec fn sum_of(sizes: Seq<u64>, n: nat) -> int
    decreases n,
{
    if n == 0 {
        0
    } else {
        sum_of(sizes, (n - 1) as nat) + sizes[n - 1]
    }
}

proof fn lemma_sum_grows(sizes: Seq<u64>, m: int, n: nat)
    requires
        0 <= m <= n,
    ensures
        sum_of(sizes, m as nat) <= sum_of(sizes, n),
    decreases n,
{
    if m < n {
        lemma_sum_grows(sizes, m, (n - 1) as nat);
    }
}

/// The size that an image needs for files of these sizes: their sum. `None`
/// where that is more than can be counted.
pub fn image_size(sizes: &Vec<u64>) -> (r: Option<u64>)
    ensures
        r == if sum_of(sizes@, sizes@.len()) <= u64::MAX {
            Some(sum_of(sizes@, sizes@.len()) as u64)
        } else {
            None
        },
{
    let mut image_size: u64 = 0;
    let mut i: usize = 0;
    while i < sizes.len()
        invariant
            i <= sizes@.len(),
            image_size == sum_of(sizes@, i as nat),
        decreases sizes@.len() - i,
    {
        image_size =
        match image_size.checked_add(sizes[i]) {
            Some(sum) => sum,
            None => {
                proof {
                    lemma_sum_grows(sizes@, i + 1, sizes@.len());
                }
                return None;
            },
        };
        i += 1;
    }
    Some(image_size)
}

/// The size in MiB, rounded up twice: to whole KiB first, and then to whole
/// MiB.
pub open spec fn mib_of(size: u64) -> int {
    ((size + 1023) / 1024 + 1023) / 1024
}

/// The size of an image in MiB, as it is shown.
pub fn size_in_mib(size: u64) -> (r: u64)
    ensures
        r == mib_of(size),
{
    let kib: u64 = size / 1024 + if size % 1024 == 0 {
        0
    } else {
        1
    };
    kib / 1024 + if kib % 1024 == 0 {
        0
    } else {
        1
    }
}

} // verus!
