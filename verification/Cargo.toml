[package]
name = "towboot"
version = "0.1.0"
edition = "2021"
publish = false

[dependencies]
acpi = "*"
anyhow = "*"
argh = "*"
cached-path = "*"
directories = "*"
dmidecode = "*"
env_logger = "*"
fatfs = "*"
fscommon = "*"
goblin = "*"
gpt = "*"
log = "*"
miniarg = { version = "*", features = ["derive"] }
multiboot = "*"
scroll = "*"
serde = { version = "*", features = ["derive"] }
tempfile = "*"
toml = "*"
uefi = { version = "*", features = ["alloc"] }
x86 = "*"
