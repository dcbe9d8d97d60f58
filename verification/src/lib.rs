//! The verified core of a Multiboot loader for UEFI machines.
//!
//! Everything in this crate is a decision or a computation on plain values:
//! where a kernel's bytes go in physical memory, what the firmware's memory
//! map means to the kernel, which video mode is picked, what the
//! information block holds. The firmware itself is driven by the caller,
//! which performs what these functions ask for and reports back what
//! happened.
pub mod status;
pub mod text;
pub mod quirk;
pub mod mem;
pub mod memory_map;
pub mod elf;
pub mod video;
pub mod kernel;
pub mod header;
pub mod config;
pub mod options;
pub mod config_tables;
pub mod machine;
pub mod info;
pub mod boot;
pub mod menu;
pub mod file;
pub mod image;
pub mod firmware;
pub mod bochs;
pub mod launch;
