//! The configuration: which operating systems can be booted, and how.
use vstd::prelude::*;
use crate::quirk::{Quirk, QuirkSet};

verus! {

/// Information about a module
#[derive(Debug)]
pub struct Module {
    pub argv: Option<String>,
    pub image: String,
}

/// A menu entry -- an operating system to be booted.
#[derive(Debug)]
pub struct Entry {
    pub argv: Option<String>,
    pub image: String,
    pub name: Option<String>,
    pub quirks: QuirkSet,
    pub modules: Vec<Module>,
}

/// A menu entry under its key.
#[derive(Debug)]
pub struct NamedEntry {
    pub key: String,
    pub entry: Entry,
}

/// The main configuration struct
#[derive(Debug)]
pub struct Config {
    pub default: String,
    pub timeout: Option<u8>,
    pub log_level: Option<String>,
    /// the entries, in the order in which the menu lists them
    pub entries: Vec<NamedEntry>,
    /// the path of the configuration file itself
    pub src: String,
}

/// A module, as contracts see it.
pub struct ModuleView {
    pub argv: Option<Seq<char>>,
    pub image: Seq<char>,
}

/// A menu entry, as contracts see it.
pub struct EntryView {
    pub argv: Option<Seq<char>>,
    pub image: Seq<char>,
    pub name: Option<Seq<char>>,
    pub quirks: Set<Quirk>,
    pub modules: Seq<ModuleView>,
}

/// A configuration, as contracts see it.
pub struct ConfigView {
    pub default: Seq<char>,
    pub timeout: Option<u8>,
    pub log_level: Option<Seq<char>>,
    pub entries: Seq<(Seq<char>, EntryView)>,
    pub src: Seq<char>,
}

/// The characters of a string that may be missing.
pub open spec fn text_of(text: Option<String>) -> Option<Seq<char>> {
    match text {
        Some(text) => Some(text@),
        None => None,
    }
}

impl View for Module {
    type V = ModuleView;

    open spec fn view(&self) -> ModuleView {
        ModuleView { argv: text_of(self.argv), image: self.image@ }
    }
}

impl View for Entry {
    type V = EntryView;

    open spec fn view(&self) -> EntryView {
        EntryView {
            argv: text_of(self.argv),
            image: self.image@,
            name: text_of(self.name),
            quirks: self.quirks@,
            modules: Seq::new(self.modules@.len(), |i: int| self.modules@[i]@),
        }
    }
}

impl View for Config {
    type V = ConfigView;

    open spec fn view(&self) -> ConfigView {
        ConfigView {
            default: self.default@,
            timeout: self.timeout,
            log_level: text_of(self.log_level),
            entries: Seq::new(
                self.entries@.len(),
                |i: int| (self.entries@[i].key@, self.entries@[i].entry@),
            ),
            src: self.src@,
        }
    }
}

/// The files that an entry refers to: its image, and the images of its
/// modules.
pub open spec fn entry_files(entry: EntryView) -> Seq<Seq<char>> {
    seq![entry.image] + Seq::new(entry.modules.len(), |i: int| entry.modules[i].image)
}

/// The files that the first `n` entries refer to.
pub open spec fn files_of(entries: Seq<(Seq<char>, EntryView)>, n: nat) -> Seq<Seq<char>>
    decreases n,
{
    if n == 0 {
        Seq::empty()
    } else {
        files_of(entries, (n - 1) as nat) + entry_files(entries[n - 1].1)
    }
}

/// The characters of each of the strings.
pub open spec fn texts_of(strings: Seq<String>) -> Seq<Seq<char>> {
    Seq::new(strings.len(), |i: int| strings[i]@)
}

/// The entry with each of the files it refers to replaced by the file of the
/// same number in `files`.
pub open spec fn entry_with_files(entry: EntryView, files: Seq<Seq<char>>) -> EntryView {
    EntryView {
        image: files[0],
        modules: Seq::new(
            entry.modules.len(),
            |i: int| ModuleView { argv: entry.modules[i].argv, image: files[i + 1] },
        ),
        ..entry
    }
}

/// Where the files of the entry with this number begin among all files.
pub open spec fn files_before(entries: Seq<(Seq<char>, EntryView)>, n: nat) -> nat {
    files_of(entries, n).len()
}

/// The entries with each of the files they refer to replaced by the file of
/// the same number in `files`.
pub open spec fn entries_with_files(entries: Seq<(Seq<char>, EntryView)>, files: Seq<Seq<char>>) -> Seq<
    (Seq<char>, EntryView),
> {
    Seq::new(
        entries.len(),
        |i: int|
            (
                entries[i].0,
                entry_with_files(
                    entries[i].1,
                    files.subrange(
                        files_before(entries, i as nat) as int,
                        files_before(entries, (i + 1) as nat) as int,
                    ),
                ),
            ),
    )
}

impl Config {
    /// No key occurs twice among the entries.
    pub open spec fn wf(&self) -> bool {
        forall|i: int, j: int|
            0 <= i < j < self.entries@.len() ==> (#[trigger] self.entries@[i]).key@
                != (#[trigger] self.entries@[j]).key@
    }

    /// Whether no key occurs twice among the entries.
    pub fn has_distinct_keys(&self) -> (r: bool)
        ensures
            r == self.wf(),
    {
        let mut j: usize = 0;
        while j < self.entries.len()
            invariant
                j <= self.entries@.len(),
                forall|a: int, b: int|
                    0 <= a < b < j ==> (#[trigger] self.entries@[a]).key@
                        != (#[trigger] self.entries@[b]).key@,
            decreases self.entries@.len() - j,
        {
            let mut i: usize = 0;
            while i < j
                invariant
                    i <= j < self.entries@.len(),
                    forall|a: int| 0 <= a < i ==> (#[trigger] self.entries@[a]).key@
                        != self.entries@[j as int].key@,
                decreases j - i,
            {
                if self.entries[i].key == self.entries[j].key {
                    return false;
                }
                i += 1;
            }
            j += 1;
        }
        true
    }

    /// Determine which files are referenced in the configuration: for every
    /// entry its image and then the images of its modules.
    pub fn needed_files(&self) -> (r: Vec<String>)
        ensures
            texts_of(r@) == files_of(self@.entries, self@.entries.len()),
    {
        let mut files: Vec<String> = Vec::new();
        let mut i: usize = 0;
        assert(texts_of(files@) == Seq::<Seq<char>>::empty());
        while i < self.entries.len()
            invariant
                i <= self.entries@.len(),
                texts_of(files@) == files_of(self@.entries, i as nat),
            decreases self.entries@.len() - i,
        {
            let entry: &Entry = &self.entries[i].entry;
            let ghost before = texts_of(files@);
            files.push(entry.image.clone());
            let mut j: usize = 0;
            assert(texts_of(files@) == before + seq![entry@.image]);
            while j < entry.modules.len()
                invariant
                    j <= entry.modules@.len(),
                    texts_of(files@) == before + seq![entry@.image] + Seq::new(
                        j as nat,
                        |k: int| entry@.modules[k].image,
                    ),
                decreases entry.modules@.len() - j,
            {
                let ghost now = texts_of(files@);
                files.push(entry.modules[j].image.clone());
                assert(texts_of(files@) == now.push(entry@.modules[j as int].image));
                assert(Seq::new((j + 1) as nat, |k: int| entry@.modules[k].image) == Seq::new(
                    j as nat,
                    |k: int| entry@.modules[k].image,
                ).push(entry@.modules[j as int].image));
                j += 1;
            }
            assert(self@.entries[i as int].1 == entry@);
            assert(texts_of(files@) == before + entry_files(entry@));
            i += 1;
        }
        files
    }

    /// How many files the configuration refers to.
    pub fn needed_file_count(&self) -> (r: usize)
        requires
            files_before(self@.entries, self@.entries.len()) <= usize::MAX,
        ensures
            r == files_before(self@.entries, self@.entries.len()),
    {
        let mut count: usize = 0;
        let mut i: usize = 0;
        while i < self.entries.len()
            invariant
                i <= self.entries@.len(),
                count == files_before(self@.entries, i as nat),
                files_before(self@.entries, self@.entries.len()) <= usize::MAX,
            decreases self.entries@.len() - i,
        {
            proof {
                lemma_files_grow(self@.entries, i + 1, self@.entries.len());
                assert(self@.entries[i as int].1.modules.len() == self.entries@[i as int].entry.modules@.len());
            }
            count = count + 1 + self.entries[i].entry.modules.len();
            i += 1;
        }
        count
    }
}

/// The files of more entries are no fewer.
pub proof fn lemma_files_grow(entries: Seq<(Seq<char>, EntryView)>, m: int, n: nat)
    requires
        0 <= m <= n,
    ensures
        files_before(entries, m as nat) <= files_before(entries, n),
    decreases n,
{
    if m < n {
        lemma_files_grow(entries, m, (n - 1) as nat);
    }
}


impl Config {
    /// Gives every file that the configuration refers to a new name: the
    /// file with a given number in [`Self::needed_files`] gets the name of
    /// the same number in `files`.
    ///
    /// There is no configuration where there are not as many names as
    /// files.
    pub fn with_files(self, files: &Vec<String>) -> (r: Option<Config>)
        ensures
            r is Some <==> files@.len() == files_before(self@.entries, self@.entries.len()),
            r matches Some(config) ==> config@ == (ConfigView {
                entries: entries_with_files(self@.entries, texts_of(files@)),
                ..self@
            }),
    {
        let ghost before = self@;
        let ghost names = texts_of(files@);
        let default: String = self.default;
        let timeout: Option<u8> = self.timeout;
        let log_level: Option<String> = self.log_level;
        let src: String = self.src;
        let mut waiting: Vec<NamedEntry> = self.entries;
        let mut entries: Vec<NamedEntry> = Vec::new();
        let mut k: usize = 0;
        let ghost mut i: int = 0;
        while waiting.len() > 0
            invariant
                0 <= i <= before.entries.len(),
                before == self@,
                names == texts_of(files@),
                waiting@.len() == before.entries.len() - i,
                forall|j: int|
                    0 <= j < waiting@.len() ==> ((#[trigger] waiting@[j]).key@, waiting@[j].entry@)
                        == before.entries[i + j],
                k == files_before(before.entries, i as nat),
                k <= files@.len(),
                entries@.len() == i,
                forall|j: int|
                    0 <= j < i ==> ((#[trigger] entries@[j]).key@, entries@[j].entry@)
                        == entries_with_files(before.entries, names)[j],
            decreases waiting@.len(),
        {
            let ghost rest = waiting@;
            let named: NamedEntry = waiting.remove(0);
            proof {
                assert((named.key@, named.entry@) == before.entries[i]);
                assert forall|j: int| 0 <= j < waiting@.len() implies ((#[trigger] waiting@[j]).key@, waiting@[j].entry@)
                    == before.entries[i + 1 + j] by {
                    assert(waiting@[j] == rest[j + 1]);
                }
                assert(files_before(before.entries, (i + 1) as nat) == k + 1
                    + named.entry@.modules.len());
            }
            let entry: Entry = named.entry;
            let ghost old_entry = entry@;
            if k >= files.len() {
                proof {
                    lemma_files_grow(before.entries, i + 1, before.entries.len());
                }
                return None;
            }
            let image: String = files[k].clone();
            let first: usize = k;
            k += 1;
            let mut old_modules: Vec<Module> = entry.modules;
            let mut modules: Vec<Module> = Vec::new();
            let ghost mut m: int = 0;
            while old_modules.len() > 0
                invariant
                    0 <= m <= old_entry.modules.len(),
                    before == self@,
                    names == texts_of(files@),
                    old_modules@.len() == old_entry.modules.len() - m,
                    forall|j: int|
                        0 <= j < old_modules@.len() ==> (#[trigger] old_modules@[j])@
                            == old_entry.modules[m + j],
                    k == first + 1 + m,
                    k <= files@.len(),
                    modules@.len() == m,
                    forall|j: int|
                        0 <= j < m ==> (#[trigger] modules@[j])@ == (ModuleView {
                            argv: old_entry.modules[j].argv,
                            image: names[first + 1 + j],
                        }),
                    files_before(before.entries, (i + 1) as nat) == first + 1
                        + old_entry.modules.len(),
                    0 <= i < before.entries.len(),
                decreases old_modules@.len(),
            {
                let ghost remaining = old_modules@;
                let module: Module = old_modules.remove(0);
                proof {
                    assert(module@ == old_entry.modules[m]);
                    assert forall|j: int| 0 <= j < old_modules@.len() implies (#[trigger] old_modules@[j])@
                        == old_entry.modules[m + 1 + j] by {
                        assert(old_modules@[j] == remaining[j + 1]);
                    }
                }
                if k >= files.len() {
                    proof {
                        lemma_files_grow(before.entries, i + 1, before.entries.len());
                    }
                    return None;
                }
                modules.push(Module { argv: module.argv, image: files[k].clone() });
                k += 1;
                proof {
                    m = m + 1;
                }
            }
            let ghost key = named.key@;
            let renamed = Entry {
                argv: entry.argv,
                image,
                name: entry.name,
                quirks: entry.quirks,
                modules,
            };
            proof {
                let wanted = entry_with_files(
                    old_entry,
                    names.subrange(
                        files_before(before.entries, i as nat) as int,
                        files_before(before.entries, (i + 1) as nat) as int,
                    ),
                );
                assert(renamed@.modules =~= wanted.modules);
                assert(renamed@ == wanted);
            }
            entries.push(NamedEntry { key: named.key, entry: renamed });
            proof {
                i = i + 1;
            }
        }
        if k != files.len() {
            return None;
        }
        let config = Config { default, timeout, log_level, entries, src };
        assert(config@.entries =~= entries_with_files(before.entries, names));
        Some(config)
    }
}

} // verus!
