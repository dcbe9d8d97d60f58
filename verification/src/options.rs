//! The command line options.
//!
//! The configuration can come from a file or from the command line.
//! The command line options take precedence if they are specified.
use vstd::prelude::*;
use vstd::string::*;
use crate::config::{texts_of, Config, ConfigView, Entry, EntryView, Module, ModuleView, NamedEntry};
use crate::quirk::{quirk_of_name, Quirk, QuirkSet};
use crate::text::{same_text, split_once, split_once_at};

verus! {

/// The default path to the configuration file.
pub const CONFIG_FILE: &'static str = "towboot.toml";

/// Where to load the configuration from
#[derive(Debug)]
pub enum ConfigSource {
    File(String),
    Given(Config),
}

/// Where to load the configuration from, as contracts see it.
pub enum SourceView {
    File(Seq<char>),
    Given(ConfigView),
}

impl View for ConfigSource {
    type V = SourceView;

    open spec fn view(&self) -> SourceView {
        match self {
            ConfigSource::File(name) => SourceView::File(name@),
            ConfigSource::Given(config) => SourceView::Given(config@),
        }
    }
}

/// Available options.
#[derive(Clone, Copy, Debug, PartialEq, Eq, Structural)]
pub enum LoadOptionKey {
    /// Load the specified configuration file instead of the default one.
    Config,
    /// Don't load a configuration file, instead boot the specified kernel.
    Kernel,
    /// Set the log level. (This only applies if `-kernel` is specified.)
    LogLevel,
    /// Load a module with the given args. Can be specified multiple times.
    Module,
    /// Enable a specific quirk. (Only applies when loading a kernel.)
    Quirk,
    /// Displays all available options and how to use them.
    Help,
    /// Displays the version of towboot
    Version,
}

/// One thing that was found on the command line: a key with its value, or
/// something that is neither.
pub type OptionItem = Result<(String, String), ()>;

/// One thing that was found on the command line, as contracts see it.
pub type ItemView = Result<(Seq<char>, Seq<char>), ()>;

/// The characters of an item.
pub open spec fn item_view(item: OptionItem) -> ItemView {
    match item {
        Ok((key, value)) => Ok((key@, value@)),
        Err(_) => Err(()),
    }
}

/// The characters of each of the items.
pub open spec fn items_view(items: Seq<OptionItem>) -> Seq<ItemView> {
    Seq::new(items.len(), |i: int| item_view(items[i]))
}

/// What `miniarg` makes of a command line with the given keys: for each
/// option its key, as it is written in `keys`, and its value, and an error
/// for what is no option.
pub uninterp spec fn option_items(load_options: Seq<char>, keys: Seq<Seq<char>>) -> Seq<ItemView>;

/// Takes a command line apart with `miniarg::parse`.
///
/// Nothing is claimed about how `miniarg` splits the line and pairs keys
/// with values, only that it makes the same of the same line and keys. What
/// its iterator yields is kept in its order, the text of each key and value
/// as it is, and every error as an error.
#[verifier::external_body]
pub(crate) fn split_options(load_options: &str, keys: &Vec<String>) -> (r: Vec<OptionItem>)
    ensures
        items_view(r@) == option_items(load_options@, texts_of(keys@)),
{
    miniarg::parse(load_options, keys.as_slice()).map(|item| match item {
        Ok((key, value)) => Ok((key.clone(), value.to_string())),
        Err(_) => Err(()),
    }).collect()
}

/// The key of this name.
pub open spec fn key_of_name(name: Seq<char>) -> Option<LoadOptionKey> {
    if name == "Config"@ {
        Some(LoadOptionKey::Config)
    } else if name == "Kernel"@ {
        Some(LoadOptionKey::Kernel)
    } else if name == "LogLevel"@ {
        Some(LoadOptionKey::LogLevel)
    } else if name == "Module"@ {
        Some(LoadOptionKey::Module)
    } else if name == "Quirk"@ {
        Some(LoadOptionKey::Quirk)
    } else if name == "Help"@ {
        Some(LoadOptionKey::Help)
    } else if name == "Version"@ {
        Some(LoadOptionKey::Version)
    } else {
        None
    }
}

/// The names of the keys that are known on the command line: all of them, or
/// all but `Version`.
pub open spec fn key_names(with_version: bool) -> Seq<Seq<char>> {
    if with_version {
        seq!["Config"@, "Kernel"@, "LogLevel"@, "Module"@, "Quirk"@, "Help"@, "Version"@]
    } else {
        seq!["Config"@, "Kernel"@, "LogLevel"@, "Module"@, "Quirk"@, "Help"@]
    }
}

/// The text that `-help` shows.
pub open spec fn usage_text() -> Seq<char> {
    "Usage:\n-config\t Load the specified configuration file instead of the default one.\n-kernel\t Don't load a configuration file, instead boot the specified kernel.\n-logLevel\t Set the log level. (This only applies if `-kernel` is specified.)\n-module\t Load a module with the given args. Can be specified multiple times.\n-quirk\t Enable a specific quirk. (Only applies when loading a kernel.)\n-help\t Displays all available options and how to use them.\n-version\t Displays the version of towboot"@
}

impl LoadOptionKey {
    /// Reads a key from its name.
    pub fn from_name(name: &str) -> (r: Option<LoadOptionKey>)
        ensures
            r == key_of_name(name@),
    {
        if same_text(name, "Config") {
            Some(LoadOptionKey::Config)
        } else if same_text(name, "Kernel") {
            Some(LoadOptionKey::Kernel)
        } else if same_text(name, "LogLevel") {
            Some(LoadOptionKey::LogLevel)
        } else if same_text(name, "Module") {
            Some(LoadOptionKey::Module)
        } else if same_text(name, "Quirk") {
            Some(LoadOptionKey::Quirk)
        } else if same_text(name, "Help") {
            Some(LoadOptionKey::Help)
        } else if same_text(name, "Version") {
            Some(LoadOptionKey::Version)
        } else {
            None
        }
    }

    /// The names of the keys that are known on the command line.
    pub fn names(with_version: bool) -> (r: Vec<String>)
        ensures
            texts_of(r@) == key_names(with_version),
    {
        let mut names: Vec<String> = Vec::new();
        names.push(String::from_str("Config"));
        names.push(String::from_str("Kernel"));
        names.push(String::from_str("LogLevel"));
        names.push(String::from_str("Module"));
        names.push(String::from_str("Quirk"));
        names.push(String::from_str("Help"));
        if with_version {
            names.push(String::from_str("Version"));
        }
        assert(texts_of(names@) == key_names(with_version));
        names
    }

    /// The text that `-help` shows.
    pub fn help_text() -> (r: String)
        ensures
            r@ == usage_text(),
    {
        String::from_str(
            "Usage:\n-config\t Load the specified configuration file instead of the default one.\n-kernel\t Don't load a configuration file, instead boot the specified kernel.\n-logLevel\t Set the log level. (This only applies if `-kernel` is specified.)\n-module\t Load a module with the given args. Can be specified multiple times.\n-quirk\t Enable a specific quirk. (Only applies when loading a kernel.)\n-help\t Displays all available options and how to use them.\n-version\t Displays the version of towboot",
        )
    }
}

/// What has been read of the options so far.
pub struct ScanState {
    pub config_file: Option<Seq<char>>,
    pub kernel: Option<Seq<char>>,
    pub log_level: Option<Seq<char>>,
    pub modules: Seq<Seq<char>>,
    pub quirks: Set<Quirk>,
}

/// Where reading the options stands.
pub enum Scan {
    /// all options so far are settings
    Running(ScanState),
    /// `-help` was found
    Usage,
    /// `-version` was found
    Version,
    /// something was found that is no option, or a quirk that there is not
    Invalid,
}

/// Nothing has been read yet.
pub open spec fn scan_start() -> ScanState {
    ScanState {
        config_file: None,
        kernel: None,
        log_level: None,
        modules: Seq::empty(),
        quirks: Set::empty(),
    }
}

/// What one more item makes of what has been read.
pub open spec fn scan_step(state: ScanState, item: ItemView, with_version: bool) -> Scan {
    match item {
        Ok((key, value)) => match key_of_name(key) {
            Some(LoadOptionKey::Config) => Scan::Running(
                ScanState { config_file: Some(value), ..state },
            ),
            Some(LoadOptionKey::Kernel) => Scan::Running(ScanState { kernel: Some(value), ..state }),
            Some(LoadOptionKey::LogLevel) => Scan::Running(
                ScanState { log_level: Some(value), ..state },
            ),
            Some(LoadOptionKey::Module) => Scan::Running(
                ScanState { modules: state.modules.push(value), ..state },
            ),
            Some(LoadOptionKey::Quirk) => match quirk_of_name(value) {
                Some(quirk) => Scan::Running(
                    ScanState { quirks: state.quirks.insert(quirk), ..state },
                ),
                None => Scan::Invalid,
            },
            Some(LoadOptionKey::Help) => Scan::Usage,
            Some(LoadOptionKey::Version) => if with_version {
                Scan::Version
            } else {
                Scan::Invalid
            },
            None => Scan::Invalid,
        },
        Err(_) => Scan::Invalid,
    }
}

/// Where reading stands after the first `n` items. Reading ends at the first
/// item that is no setting.
pub open spec fn scan(items: Seq<ItemView>, with_version: bool, n: nat) -> Scan
    decreases n,
{
    if n == 0 {
        Scan::Running(scan_start())
    } else {
        match scan(items, with_version, (n - 1) as nat) {
            Scan::Running(state) => scan_step(state, items[n - 1], with_version),
            other => other,
        }
    }
}

/// The module that a `-module` option stands for: the image up to the first
/// space, the arguments behind it.
pub open spec fn module_of(option: Seq<char>) -> ModuleView {
    ModuleView { argv: Some(split_once_at(option, ' ').1), image: split_once_at(option, ' ').0 }
}

/// Where the configuration comes from when all options have been read: if a
/// kernel is given, from the options themselves, as a single entry `cli`
/// that is booted at once; else from the file that is given, or from the
/// default one.
pub open spec fn source_of(state: ScanState) -> SourceView {
    match state.kernel {
        Some(kernel) => SourceView::Given(
            ConfigView {
                default: "cli"@,
                timeout: Some(0u8),
                log_level: state.log_level,
                entries: seq![
                    (
                        "cli"@,
                        EntryView {
                            argv: Some(split_once_at(kernel, ' ').1),
                            image: split_once_at(kernel, ' ').0,
                            name: None,
                            quirks: state.quirks,
                            modules: Seq::new(
                                state.modules.len(),
                                |i: int| module_of(state.modules[i]),
                            ),
                        },
                    ),
                ],
                src: "."@,
            },
        ),
        None => match state.config_file {
            Some(file) => SourceView::File(file),
            None => SourceView::File(CONFIG_FILE@),
        },
    }
}

/// Whether `r` and `output` are what the items on a command line give.
pub open spec fn is_outcome(
    r: Result<Option<ConfigSource>, ()>,
    output_before: Seq<char>,
    output: Seq<char>,
    items: Seq<ItemView>,
    version_info: Option<Seq<char>>,
) -> bool {
    match scan(items, version_info is Some, items.len()) {
        Scan::Running(state) => r matches Ok(Some(source)) && source@ == source_of(state)
            && output == output_before,
        Scan::Usage => r matches Ok(None) && output == output_before + usage_text(),
        Scan::Version => r matches Ok(None) && output == output_before + version_info.unwrap(),
        Scan::Invalid => r is Err && output == output_before,
    }
}

/// Makes the source of the configuration from what was found on the command
/// line.
///
/// The items are read in their order. `-help` and `-version` end the
/// reading: the text to show is appended to `output`, and there is no
/// source. `-version` is known only where there is a `version_info`. What is
/// no option, an unknown key or an unknown quirk is an error.
pub fn config_source(items: &Vec<OptionItem>, version_info: Option<&str>, output: &mut String) -> (r:
    Result<Option<ConfigSource>, ()>)
    ensures
        is_outcome(
            r,
            old(output)@,
            final(output)@,
            items_view(items@),
            match version_info {
                Some(text) => Some(text@),
                None => None,
            },
        ),
{
    let ghost views = items_view(items@);
    let ghost with_version = version_info is Some;
    let mut config_file: Option<String> = None;
    let mut kernel: Option<String> = None;
    let mut log_level: Option<String> = None;
    let mut modules: Vec<String> = Vec::new();
    let mut quirks = QuirkSet::new();
    let mut i: usize = 0;
    assert(texts_of(modules@) == Seq::<Seq<char>>::empty());
    while i < items.len()
        invariant
            i <= items@.len(),
            views == items_view(items@),
            with_version == version_info is Some,
            output@ == old(output)@,
            scan(views, with_version, i as nat) == Scan::Running(
                ScanState {
                    config_file: crate::config::text_of(config_file),
                    kernel: crate::config::text_of(kernel),
                    log_level: crate::config::text_of(log_level),
                    modules: texts_of(modules@),
                    quirks: quirks@,
                },
            ),
        decreases items@.len() - i,
    {
        assert(views[i as int] == item_view(items@[i as int]));
        match &items[i] {
            Ok((key, value)) => {
                match LoadOptionKey::from_name(key.as_str()) {
                    Some(LoadOptionKey::Config) => {
                        config_file = Some(value.clone());
                    },
                    Some(LoadOptionKey::Kernel) => {
                        kernel = Some(value.clone());
                    },
                    Some(LoadOptionKey::LogLevel) => {
                        log_level = Some(value.clone());
                    },
                    Some(LoadOptionKey::Module) => {
                        let ghost before = texts_of(modules@);
                        modules.push(value.clone());
                        assert(texts_of(modules@) == before.push(value@));
                    },
                    Some(LoadOptionKey::Quirk) => {
                        match Quirk::from_name(value.as_str()) {
                            Some(quirk) => {
                                quirks.insert(quirk);
                            },
                            None => {
                                proof {
                                    lemma_scan_ends(views, with_version, i + 1, views.len());
                                }
                                return Err(());
                            },
                        }
                    },
                    Some(LoadOptionKey::Help) => {
                        let text: String = LoadOptionKey::help_text();
                        output.append(text.as_str());
                        proof {
                            lemma_scan_ends(views, with_version, i + 1, views.len());
                        }
                        return Ok(None);
                    },
                    Some(LoadOptionKey::Version) => {
                        match version_info {
                            Some(text) => {
                                output.append(text);
                                proof {
                                    lemma_scan_ends(views, with_version, i + 1, views.len());
                                }
                                return Ok(None);
                            },
                            None => {
                                proof {
                                    lemma_scan_ends(views, with_version, i + 1, views.len());
                                }
                                return Err(());
                            },
                        }
                    },
                    None => {
                        proof {
                            lemma_scan_ends(views, with_version, i + 1, views.len());
                        }
                        return Err(());
                    },
                }
            },
            Err(_) => {
                proof {
                    lemma_scan_ends(views, with_version, i + 1, views.len());
                }
                return Err(());
            },
        }
        i += 1;
    }
    let ghost state = ScanState {
        config_file: crate::config::text_of(config_file),
        kernel: crate::config::text_of(kernel),
        log_level: crate::config::text_of(log_level),
        modules: texts_of(modules@),
        quirks: quirks@,
    };
    match kernel {
        Some(kernel) => {
            let mut entry_modules: Vec<Module> = Vec::new();
            let mut k: usize = 0;
            while k < modules.len()
                invariant
                    k <= modules@.len(),
                    entry_modules@.len() == k,
                    forall|j: int|
                        0 <= j < k ==> (#[trigger] entry_modules@[j])@ == module_of(modules@[j]@),
                decreases modules@.len() - k,
            {
                let (image, argv) = split_once(modules[k].as_str(), ' ');
                entry_modules.push(Module { image, argv: Some(argv) });
                k += 1;
            }
            let (kernel_image, kernel_argv) = split_once(kernel.as_str(), ' ');
            let entry = Entry {
                argv: Some(kernel_argv),
                image: kernel_image,
                name: None,
                quirks,
                modules: entry_modules,
            };
            assert(entry@.modules == Seq::new(
                state.modules.len(),
                |i: int| module_of(state.modules[i]),
            ));
            let mut entries: Vec<NamedEntry> = Vec::new();
            entries.push(NamedEntry { key: String::from_str("cli"), entry });
            let config = Config {
                default: String::from_str("cli"),
                timeout: Some(0),
                log_level,
                entries,
                src: String::from_str("."),
            };
            assert(config@.entries == seq![("cli"@, entry@)]);
            Ok(Some(ConfigSource::Given(config)))
        },
        None => match config_file {
            Some(file) => Ok(Some(ConfigSource::File(file))),
            None => Ok(Some(ConfigSource::File(String::from_str(CONFIG_FILE)))),
        },
    }
}

/// Once reading has come to an end, more items change nothing.
pub proof fn lemma_scan_ends(items: Seq<ItemView>, with_version: bool, m: int, n: nat)
    requires
        0 <= m <= n,
        !(scan(items, with_version, m as nat) is Running),
    ensures
        scan(items, with_version, n) == scan(items, with_version, m as nat),
    decreases n,
{
    if m < n {
        lemma_scan_ends(items, with_version, m, (n - 1) as nat);
    }
}

/// Parse the command line options.
///
/// See [`LoadOptionKey`] for available options.
///
/// There is no source if the user just asked for help or the version; the
/// text to show is then appended to `output`.
/// This function errors, if the command line options are not valid.
/// That is:
/// * keys without values
/// * values without keys
/// * invalid keys
pub fn parse_load_options(load_options: &str, version_info: Option<&str>, output: &mut String) -> (r:
    Result<Option<ConfigSource>, ()>)
    ensures
        is_outcome(
            r,
            old(output)@,
            final(output)@,
            option_items(load_options@, key_names(version_info is Some)),
            match version_info {
                Some(text) => Some(text@),
                None => None,
            },
        ),
{
    let keys: Vec<String> = LoadOptionKey::names(version_info.is_some());
    let items: Vec<OptionItem> = split_options(load_options, &keys);
    config_source(&items, version_info, output)
}

} // verus!
