use towboot::config::{Config, Entry, NamedEntry};
use towboot::file::{check_read, locate, Volume};
use towboot::image::{image_size, layout, partition_range, size_in_mib, ImageLayout};
use towboot::menu::{
    choose_entry, default_entry, display_menu, find_entry, select_entry, timer_interval,
    type_key, Choice, CountdownAction, Key, MenuEvent,
};
use towboot::quirk::QuirkSet;
use towboot::status::Status;

fn named(key: &str) -> NamedEntry {
    NamedEntry {
        key: key.to_string(),
        entry: Entry { argv: None, image: format!("{}.elf", key), name: None, quirks: QuirkSet::new(), modules: vec![] },
    }
}

fn config(default: &str, timeout: Option<u8>, keys: &[&str]) -> Config {
    Config {
        default: default.to_string(),
        timeout,
        log_level: None,
        entries: keys.iter().map(|key| named(key)).collect(),
        src: String::new(),
    }
}

#[test]
fn default_entry_is_booted_at_once_without_timeout() {
    assert_eq!(choose_entry(&config("linux", Some(0), &["hurd", "linux", "redox"])), Choice::Boot(1));
    assert_eq!(choose_entry(&config("linux", Some(3), &["hurd", "linux", "redox"])), Choice::Menu(1));
    assert_eq!(choose_entry(&config("linux", None, &["hurd", "linux", "redox"])), Choice::Menu(1));
}

#[test]
fn missing_default_entry_means_the_first_one() {
    assert_eq!(default_entry(&config("bsd", Some(0), &["hurd", "linux"])), Some(0));
    assert_eq!(choose_entry(&config("bsd", Some(0), &["hurd", "linux"])), Choice::Boot(0));
    assert_eq!(default_entry(&config("bsd", Some(0), &[])), None);
    assert_eq!(choose_entry(&config("bsd", Some(0), &[])), Choice::NoEntries);
    assert_eq!(choose_entry(&config("bsd", None, &[])), Choice::NoEntries);
}

#[test]
fn countdown() {
    assert_eq!(timer_interval(0), 0);
    assert_eq!(timer_interval(5), 50_000_000);
    assert_eq!(timer_interval(255), 2_550_000_000);
    assert_eq!(display_menu(MenuEvent::Timer), CountdownAction::BootDefault);
    assert_eq!(display_menu(MenuEvent::Key(Key::Escape)), CountdownAction::ShowMenu);
    assert_eq!(display_menu(MenuEvent::Key(Key::Printable('\u{1b}'))), CountdownAction::Wait);
    assert_eq!(display_menu(MenuEvent::Key(Key::Other)), CountdownAction::Wait);
    assert_eq!(display_menu(MenuEvent::Invalid), CountdownAction::Wait);
}

#[test]
fn typing_a_choice() {
    let mut value = Vec::new();
    for key in [Key::Printable('l'), Key::Printable('o'), Key::Other, Key::Printable('\u{8}'), Key::Printable('i'), Key::Escape] {
        assert!(!type_key(&mut value, key));
    }
    assert_eq!(value, vec!['l', 'i']);
    assert!(type_key(&mut value, Key::Printable('\r')));
    assert_eq!(value, vec!['l', 'i']);
    let mut empty = Vec::new();
    assert!(!type_key(&mut empty, Key::Printable('\u{8}')));
    assert_eq!(empty, vec![]);
}

#[test]
fn entries_are_selected_by_index_and_key() {
    let entries = config("", None, &["hurd", "linux", "1", "linux"]).entries;
    assert_eq!(select_entry(&entries, "0"), Some(0));
    assert_eq!(select_entry(&entries, "3"), Some(3));
    assert_eq!(select_entry(&entries, "4"), None);
    assert_eq!(select_entry(&entries, "linux"), Some(1));
    assert_eq!(select_entry(&entries, "hurd"), Some(0));
    assert_eq!(select_entry(&entries, "bsd"), None);
    assert_eq!(select_entry(&entries, ""), None);
    // what is a number is taken as one
    assert_eq!(select_entry(&entries, "1"), Some(1));
    assert_eq!(select_entry(&entries, "+2"), Some(2));
    assert_eq!(find_entry(&entries, "1"), Some(2));
    assert_eq!(select_entry(&entries, "99999999999999999999"), None);
}

#[test]
fn files_are_located() {
    let location = locate("kernel.elf").unwrap();
    assert_eq!((location.volume, location.path.as_str()), (Volume::Image, "kernel.elf"));
    let location = locate("\\boot\\kernel.elf").unwrap();
    assert_eq!((location.volume, location.path.as_str()), (Volume::Image, "\\boot\\kernel.elf"));
    let location = locate("dir:x\\kernel.elf").unwrap();
    assert_eq!((location.volume, location.path.as_str()), (Volume::Image, "dir:x\\kernel.elf"));
    let location = locate("fs1:\\boot\\kernel.elf").unwrap();
    assert_eq!((location.volume, location.path.as_str()), (Volume::Numbered(1), "boot\\kernel.elf"));
    // a colon inside the first part of the path names no volume
    let location = locate("FS12:kernel.elf").unwrap();
    assert_eq!((location.volume, location.path.as_str()), (Volume::Image, "FS12:kernel.elf"));
    let location = locate("FS12:\\kernel.elf").unwrap();
    assert_eq!((location.volume, location.path.as_str()), (Volume::Numbered(12), "kernel.elf"));
    let location = locate("fs0:").unwrap();
    assert_eq!((location.volume, location.path.as_str()), (Volume::Numbered(0), ""));
}

#[test]
fn invalid_volumes() {
    for name in ["fs:\\kernel", "fsx:\\kernel", "blk0:\\kernel", ":\\kernel", "f:\\kernel", "fs-1:\\k", "fs1 :\\k", "fs99999999999999999999:\\k"] {
        assert_eq!(locate(name).unwrap_err(), Status::InvalidParameter, "{}", name);
    }
}

#[test]
fn files_have_to_be_read_completely() {
    assert_eq!(check_read(100, 100), Ok(()));
    assert_eq!(check_read(0, 0), Ok(()));
    assert_eq!(check_read(99, 100), Err(Status::EndOfFile));
    assert_eq!(check_read(101, 100), Err(Status::EndOfFile));
}

#[test]
fn image_layout() {
    assert_eq!(
        layout(64 * 1024 * 1024),
        Some(ImageLayout { size: 64 * 1024 * 1024, mbr_blocks: 131071, partition_size: 63 * 1024 * 1024 })
    );
    assert_eq!(layout(1024 * 1024 - 1), None);
    assert_eq!(layout(1024 * 1024).unwrap().partition_size, 0);
    assert_eq!(layout(0x200_0000_0000).unwrap().mbr_blocks, 0xffff_ffff);
    assert_eq!(layout(0x200_0000_0000 - 1).unwrap().mbr_blocks, 0xffff_fffe);
    assert_eq!(partition_range(34, 131038), Some((17408, 67091456)));
    assert_eq!(partition_range(34, u64::MAX / 2), None);
}

#[test]
fn image_sizes() {
    assert_eq!(image_size(&vec![]), Some(0));
    assert_eq!(image_size(&vec![1, 2, 3000]), Some(3003));
    assert_eq!(image_size(&vec![u64::MAX, 1]), None);
    assert_eq!(image_size(&vec![u64::MAX - 1, 1]), Some(u64::MAX));
    assert_eq!(size_in_mib(0), 0);
    assert_eq!(size_in_mib(1), 1);
    assert_eq!(size_in_mib(1024 * 1024), 1);
    assert_eq!(size_in_mib(1024 * 1024 + 1), 2);
    assert_eq!(size_in_mib(u64::MAX), 1 << 44);
}
