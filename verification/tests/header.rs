use towboot::header::{find_header, read_word, FLAG_ADDRESSES, FLAG_VIDEO_MODE, MULTIBOOT_HEADER_MAGIC};
use towboot::kernel::{KernelHeader, LoadAddresses};
use towboot::status::Status;
use towboot::video::VideoMode;

/// An image of `len` bytes with a header at `start`.
fn image(len: usize, start: usize, flags: u32, fields: [u32; 9]) -> Vec<u8> {
    let mut image: Vec<u8> = (0..len).map(|i| (i % 7) as u8).collect();
    let checksum = 0u32.wrapping_sub(MULTIBOOT_HEADER_MAGIC).wrapping_sub(flags);
    let mut words = vec![MULTIBOOT_HEADER_MAGIC, flags, checksum];
    words.extend_from_slice(&fields);
    for (i, word) in words.iter().enumerate() {
        let at = start + 4 * i;
        if at + 4 <= len {
            image[at..at + 4].copy_from_slice(&word.to_le_bytes());
        }
    }
    image
}

const FIELDS: [u32; 9] = [0x100040, 0x100000, 0x104000, 0x108000, 0x100400, 0, 1024, 768, 24];

#[test]
fn header_with_addresses_and_video_mode() {
    let kernel = image(0x3000, 0x40, FLAG_ADDRESSES | FLAG_VIDEO_MODE | 3, FIELDS);
    assert_eq!(find_header(&kernel), Some(0x40));
    assert_eq!(read_word(&kernel, 0x40), 0x1BADB002);
    assert_eq!(
        KernelHeader::from_slice(&kernel),
        Ok(KernelHeader {
            header_start: 0x40,
            load_addresses: Some(LoadAddresses {
                header_addr: 0x100040,
                load_addr: 0x100000,
                load_end_addr: 0x104000,
                bss_end_addr: 0x108000,
            }),
            entry_address: Some(0x100400),
            efi32_entry_address: None,
            efi64_entry_address: None,
            should_exit_boot_services: true,
            preferred_video_mode: Some(VideoMode { graphics: true, width: 1024, height: 768, depth: 24 }),
        })
    );
}

#[test]
fn header_of_an_elf_kernel() {
    let kernel = image(0x3000, 0x1000, 3, FIELDS);
    let header = KernelHeader::from_slice(&kernel).unwrap();
    assert_eq!(header.header_start, 0x1000);
    assert_eq!(header.load_addresses, None);
    assert_eq!(header.entry_address, None);
    assert_eq!(header.preferred_video_mode, None);
    assert!(header.should_exit_boot_services);
}

#[test]
fn header_that_wants_text_mode() {
    let mut fields = FIELDS;
    fields[5] = 1;
    fields[6] = 80;
    fields[7] = 25;
    let kernel = image(0x100, 0, FLAG_VIDEO_MODE, fields);
    assert_eq!(
        KernelHeader::from_slice(&kernel).unwrap().preferred_video_mode,
        Some(VideoMode { graphics: false, width: 80, height: 25, depth: 0 })
    );
}

#[test]
fn header_at_the_end_of_the_image_is_filled_up_with_zeroes() {
    // only magic number, flags and checksum are in the image
    let kernel = image(0x4c, 0x40, FLAG_ADDRESSES | FLAG_VIDEO_MODE, FIELDS);
    let header = KernelHeader::from_slice(&kernel).unwrap();
    assert_eq!(
        header.load_addresses,
        Some(LoadAddresses { header_addr: 0, load_addr: 0, load_end_addr: 0, bss_end_addr: 0 })
    );
    assert_eq!(header.entry_address, Some(0));
    assert_eq!(
        header.preferred_video_mode,
        Some(VideoMode { graphics: true, width: 0, height: 0, depth: 0 })
    );
    assert_eq!(read_word(&kernel, 0x4a), 0x0000_0000 | u32::from(kernel[0x4a]) | u32::from(kernel[0x4b]) << 8);
}

#[test]
fn the_first_header_counts() {
    let mut kernel = image(0x3000, 0x800, 3, FIELDS);
    let second = image(0x100, 0, FLAG_ADDRESSES, FIELDS);
    kernel[0x900..0xa00].copy_from_slice(&second);
    assert_eq!(KernelHeader::from_slice(&kernel).unwrap().header_start, 0x800);
    assert_eq!(KernelHeader::from_slice(&kernel[0x804..]).unwrap().header_start, 0x900 - 0x804);
}

#[test]
fn no_header() {
    assert_eq!(KernelHeader::from_slice(&[]), Err(Status::LoadError));
    assert_eq!(KernelHeader::from_slice(&[0; 8192]), Err(Status::LoadError));
    // behind the first 8192 bytes
    let kernel = image(0x3000, 0x2000, 3, FIELDS);
    assert_eq!(find_header(&kernel), None);
    assert_eq!(KernelHeader::from_slice(&kernel), Err(Status::LoadError));
    assert!(KernelHeader::from_slice(&image(0x3000, 0x1ffc, 3, FIELDS)).is_ok());
    // not at a multiple of 4
    let kernel = image(0x3000, 0x42, 3, FIELDS);
    assert_eq!(KernelHeader::from_slice(&kernel), Err(Status::LoadError));
    // cut off
    let kernel = image(0x43, 0x40, 3, FIELDS);
    assert_eq!(KernelHeader::from_slice(&kernel), Err(Status::LoadError));
}

#[test]
fn broken_header() {
    let mut kernel = image(0x3000, 0x40, FLAG_ADDRESSES, FIELDS);
    kernel[0x48] ^= 1;
    assert_eq!(KernelHeader::from_slice(&kernel), Err(Status::LoadError));
    // the header lies below the load address
    let mut fields = FIELDS;
    fields[0] = 0xfffff;
    let kernel = image(0x3000, 0x40, FLAG_ADDRESSES, fields);
    assert_eq!(KernelHeader::from_slice(&kernel), Err(Status::LoadError));
    // without the flag the addresses do not count
    let kernel = image(0x3000, 0x40, 0, fields);
    assert!(KernelHeader::from_slice(&kernel).is_ok());
}
