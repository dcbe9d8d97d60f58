use towboot::config::{Config, Entry, Module, NamedEntry};
use towboot::options::{
    config_source, parse_load_options, ConfigSource, LoadOptionKey, OptionItem, CONFIG_FILE,
};
use towboot::quirk::{Quirk, QuirkSet};
use towboot::text::{contains_char, find_char, parse_usize, same_text, split_once};

fn given(source: Option<ConfigSource>) -> Config {
    match source {
        Some(ConfigSource::Given(config)) => config,
        other => panic!("{:?}", other),
    }
}

fn file(source: Option<ConfigSource>) -> String {
    match source {
        Some(ConfigSource::File(name)) => name,
        other => panic!("{:?}", other),
    }
}

fn pair(key: &str, value: &str) -> OptionItem {
    Ok((key.to_string(), value.to_string()))
}

#[test]
fn no_options_mean_the_default_file() {
    let mut output = String::new();
    assert_eq!(file(parse_load_options("towboot.efi", None, &mut output).unwrap()), "towboot.toml");
    assert_eq!(file(parse_load_options("", None, &mut output).unwrap()), CONFIG_FILE);
    assert_eq!(output, "");
}

#[test]
fn config_option_names_the_file() {
    let mut output = String::new();
    let source = parse_load_options("towboot.efi -config \\other\\towboot.toml", None, &mut output);
    assert_eq!(file(source.unwrap()), "\\other\\towboot.toml");
    let source = parse_load_options("towboot.efi -config a.toml -config b.toml", None, &mut output);
    assert_eq!(file(source.unwrap()), "b.toml");
}

#[test]
fn kernel_option_gives_a_configuration() {
    let mut output = String::new();
    let source = parse_load_options(
        "towboot.efi -kernel \"kernel.elf quiet debug\" -module \"initrd.img some args\" -module plain -quirk ForceElf -quirk ModulesBelow200Mb -logLevel debug -config ignored.toml",
        Some("version"),
        &mut output,
    );
    let config = given(source.unwrap());
    assert_eq!(output, "");
    assert_eq!(config.default, "cli");
    assert_eq!(config.timeout, Some(0));
    assert_eq!(config.log_level.as_deref(), Some("debug"));
    assert_eq!(config.src, ".");
    assert_eq!(config.entries.len(), 1);
    assert_eq!(config.entries[0].key, "cli");
    let entry = &config.entries[0].entry;
    assert_eq!(entry.image, "kernel.elf");
    assert_eq!(entry.argv.as_deref(), Some("quiet debug"));
    assert_eq!(entry.name, None);
    assert!(entry.quirks.contains(Quirk::ForceElf));
    assert!(entry.quirks.contains(Quirk::ModulesBelow200Mb));
    assert!(!entry.quirks.contains(Quirk::KeepResolution));
    assert_eq!(entry.modules.len(), 2);
    assert_eq!(entry.modules[0].image, "initrd.img");
    assert_eq!(entry.modules[0].argv.as_deref(), Some("some args"));
    assert_eq!(entry.modules[1].image, "plain");
    assert_eq!(entry.modules[1].argv.as_deref(), Some(""));
}

#[test]
fn help_and_version_show_a_text() {
    let mut output = String::new();
    assert!(parse_load_options("towboot.efi -help", None, &mut output).unwrap().is_none());
    assert!(output.starts_with("Usage:\n-config\t Load the specified configuration file instead of the default one.\n-kernel\t"));
    assert!(output.ends_with("-version\t Displays the version of towboot"));
    assert_eq!(output, LoadOptionKey::help_text());
    let mut output = "> ".to_string();
    assert!(parse_load_options("towboot.efi -kernel k -version", Some("This is towboot."), &mut output).unwrap().is_none());
    assert_eq!(output, "> This is towboot.");
    // help ends the reading, whatever comes behind it
    let mut output = String::new();
    assert!(parse_load_options("towboot.efi -help me -quirk Nonsense", None, &mut output).unwrap().is_none());
    // the version is only known where there is one
    let mut output = String::new();
    assert!(parse_load_options("towboot.efi -version", None, &mut output).is_err());
    assert_eq!(output, "");
}

#[test]
fn invalid_options_are_errors() {
    let mut output = String::new();
    // values without keys
    assert!(parse_load_options("towboot.efi kernel.elf", None, &mut output).is_err());
    // invalid keys
    assert!(parse_load_options("towboot.efi -initrd file", None, &mut output).is_err());
    assert!(parse_load_options("towboot.efi -Kernel file", None, &mut output).is_err());
    // invalid quirks
    assert!(parse_load_options("towboot.efi -kernel k -quirk forceelf", None, &mut output).is_err());
    assert!(parse_load_options("towboot.efi -kernel k -quirk", None, &mut output).is_err());
    assert_eq!(output, "");
    // a key without a value at the end has an empty one
    assert_eq!(file(parse_load_options("towboot.efi -config", None, &mut output).unwrap()), "");
}

#[test]
fn items_make_the_source() {
    let mut output = String::new();
    let items = vec![pair("Module", "a b c"), pair("Kernel", "k"), pair("Quirk", "DontExitBootServices")];
    let config = given(config_source(&items, None, &mut output).unwrap());
    assert_eq!(config.entries[0].entry.argv.as_deref(), Some(""));
    assert_eq!(config.entries[0].entry.modules[0].argv.as_deref(), Some("b c"));
    assert!(config.entries[0].entry.quirks.contains(Quirk::DontExitBootServices));
    assert_eq!(config.log_level, None);
    assert!(config_source(&vec![pair("Config", "c"), Err(())], None, &mut output).is_err());
    assert!(config_source(&vec![pair("config", "c")], None, &mut output).is_err());
    assert!(config_source(&vec![pair("Version", "")], None, &mut output).is_err());
    assert!(config_source(&vec![pair("Help", ""), Err(())], None, &mut output).unwrap().is_none());
    assert_eq!(file(config_source(&vec![], None, &mut String::new()).unwrap()), "towboot.toml");
}

#[test]
fn keys_have_names() {
    assert_eq!(LoadOptionKey::from_name("Config"), Some(LoadOptionKey::Config));
    assert_eq!(LoadOptionKey::from_name("Kernel"), Some(LoadOptionKey::Kernel));
    assert_eq!(LoadOptionKey::from_name("LogLevel"), Some(LoadOptionKey::LogLevel));
    assert_eq!(LoadOptionKey::from_name("Module"), Some(LoadOptionKey::Module));
    assert_eq!(LoadOptionKey::from_name("Quirk"), Some(LoadOptionKey::Quirk));
    assert_eq!(LoadOptionKey::from_name("Help"), Some(LoadOptionKey::Help));
    assert_eq!(LoadOptionKey::from_name("Version"), Some(LoadOptionKey::Version));
    assert_eq!(LoadOptionKey::from_name("version"), None);
    assert_eq!(LoadOptionKey::names(false).len(), 6);
    assert_eq!(LoadOptionKey::names(true)[6], "Version");
}

#[test]
fn quirks_have_names() {
    assert_eq!(Quirk::from_name("DontExitBootServices"), Some(Quirk::DontExitBootServices));
    assert_eq!(Quirk::from_name("ForceElf"), Some(Quirk::ForceElf));
    assert_eq!(Quirk::from_name("ForceOverwrite"), Some(Quirk::ForceOverwrite));
    assert_eq!(Quirk::from_name("KeepResolution"), Some(Quirk::KeepResolution));
    assert_eq!(Quirk::from_name("ModulesBelow200Mb"), Some(Quirk::ModulesBelow200Mb));
    assert_eq!(Quirk::from_name("ModulesBelow200MB"), None);
    assert_eq!(Quirk::from_name(""), None);
    let mut set = QuirkSet::new();
    assert!(!set.contains(Quirk::ForceElf));
    set.insert(Quirk::ForceElf);
    set.insert(Quirk::ForceElf);
    assert!(set.contains(Quirk::ForceElf));
    assert!(!set.contains(Quirk::ForceOverwrite));
}

#[test]
fn text_helpers() {
    assert!(same_text("abc", "abc"));
    assert!(!same_text("abc", "abd"));
    assert_eq!(find_char("a b c", ' '), Some(1));
    assert_eq!(find_char("häh b", ' '), Some(3));
    assert_eq!(find_char("abc", ' '), None);
    assert!(contains_char("a b", ' '));
    assert!(!contains_char("", ' '));
    assert_eq!(split_once("kernel arg1 arg2", ' '), ("kernel".to_string(), "arg1 arg2".to_string()));
    assert_eq!(split_once("kernel", ' '), ("kernel".to_string(), String::new()));
    assert_eq!(split_once(" x", ' '), (String::new(), "x".to_string()));
    assert_eq!(split_once("x ", ' '), ("x".to_string(), String::new()));
    assert_eq!(parse_usize("0"), Some(0));
    assert_eq!(parse_usize("+17"), Some(17));
    assert_eq!(parse_usize("0042"), Some(42));
    assert_eq!(parse_usize("18446744073709551615"), Some(usize::MAX));
    assert_eq!(parse_usize("18446744073709551616"), None);
    assert_eq!(parse_usize("99999999999999999999999"), None);
    assert_eq!(parse_usize(""), None);
    assert_eq!(parse_usize("+"), None);
    assert_eq!(parse_usize("-1"), None);
    assert_eq!(parse_usize("1a"), None);
    assert_eq!(parse_usize("١"), None);
}

fn module(image: &str) -> Module {
    Module { argv: None, image: image.to_string() }
}

fn entry(image: &str, modules: Vec<Module>) -> Entry {
    Entry { argv: Some("args".to_string()), image: image.to_string(), name: None, quirks: QuirkSet::new(), modules }
}

fn config() -> Config {
    Config {
        default: "b".to_string(),
        timeout: Some(5),
        log_level: None,
        entries: vec![
            NamedEntry { key: "a".to_string(), entry: entry("kernel-a", vec![module("m1"), module("m2")]) },
            NamedEntry { key: "b".to_string(), entry: entry("kernel-b", vec![]) },
            NamedEntry { key: "c".to_string(), entry: entry("kernel-c", vec![module("m3")]) },
        ],
        src: "dir/towboot.toml".to_string(),
    }
}

#[test]
fn needed_files_are_images_and_modules() {
    let config = config();
    assert_eq!(config.needed_files(), vec!["kernel-a", "m1", "m2", "kernel-b", "kernel-c", "m3"]);
    assert_eq!(config.needed_file_count(), 6);
}

#[test]
fn needed_files_can_be_renamed() {
    let names: Vec<String> = ["1", "2", "3", "4", "5", "6"].iter().map(|s| s.to_string()).collect();
    let renamed = config().with_files(&names).unwrap();
    assert_eq!(renamed.needed_files(), names);
    assert_eq!(renamed.entries[0].entry.modules[1].image, "3");
    assert_eq!(renamed.entries[2].entry.image, "5");
    assert_eq!(renamed.entries[2].key, "c");
    assert_eq!(renamed.entries[1].entry.argv.as_deref(), Some("args"));
    assert_eq!(renamed.default, "b");
    assert_eq!(renamed.src, "dir/towboot.toml");
    assert!(config().with_files(&names[..5].to_vec()).is_none());
    let mut more = names.clone();
    more.push("7".to_string());
    assert!(config().with_files(&more).is_none());
}
