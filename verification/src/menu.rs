//! Select an entry to boot by displaying a menu.
//!
//! Waiting for keys and writing to the screen is left to the caller. What is
//! decided here is what a key or the timer means, and which entry a choice
//! names.
use vstd::prelude::*;
use vstd::string::*;
use crate::config::{Config, NamedEntry};
use crate::text::{number_of, parse_usize};

verus! {

/// How many ticks of 100 ns a second has.
pub const TICKS_PER_SECOND: u64 = 10_000_000;

/// A key that was pressed.
#[derive(Clone, Copy, Debug, PartialEq, Eq, Structural)]
pub enum Key {
    Escape,
    Printable(char),
    /// any other key
    Other,
}

/// What happened while the menu waited.
#[derive(Clone, Copy, Debug, PartialEq, Eq, Structural)]
pub enum MenuEvent {
    /// a key was pressed
    Key(Key),
    /// the timeout is over
    Timer,
    /// the firmware returned an event that is neither
    Invalid,
}

/// What to do when something happened during the countdown.
#[derive(Clone, Copy, Debug, PartialEq, Eq, Structural)]
pub enum CountdownAction {
    /// boot the default entry
    BootDefault,
    /// cancel the timer, list the entries and ask which one to boot
    ShowMenu,
    /// go on waiting
    Wait,
}

/// How an entry is chosen.
#[derive(Clone, Copy, Debug, PartialEq, Eq, Structural)]
pub enum Choice {
    /// the entry with this number is booted at once
    Boot(usize),
    /// the entry with this number is the default; the menu counts down, or,
    /// without a timeout, asks at once
    Menu(usize),
    /// there are no entries
    NoEntries,
}

/// The keys of the entries.
pub open spec fn keys_of(entries: Seq<NamedEntry>) -> Seq<Seq<char>> {
    Seq::new(entries.len(), |i: int| entries[i].key@)
}

/// Whether the entry with this number is the first that has the key.
pub open spec fn is_first_with_key(entries: Seq<NamedEntry>, key: Seq<char>, index: int) -> bool {
    &&& 0 <= index < entries.len()
    &&& entries[index].key@ == key
    &&& forall|k: int| 0 <= k < index ==> (#[trigger] entries[k]).key@ != key
}

/// Whether no entry has the key.
pub open spec fn no_entry_with_key(entries: Seq<NamedEntry>, key: Seq<char>) -> bool {
    forall|k: int| 0 <= k < entries.len() ==> (#[trigger] entries[k]).key@ != key
}

/// Find the entry that has the key.
pub fn find_entry(entries: &Vec<NamedEntry>, key: &str) -> (r: Option<usize>)
    ensures
        match r {
            Some(index) => is_first_with_key(entries@, key@, index as int),
            None => no_entry_with_key(entries@, key@),
        },
{
    let wanted: String = String::from_str(key);
    let mut i: usize = 0;
    while i < entries.len()
        invariant
            i <= entries@.len(),
            wanted@ == key@,
            forall|k: int| 0 <= k < i ==> (#[trigger] entries@[k]).key@ != key@,
        decreases entries@.len() - i,
    {
        if entries[i].key == wanted {
            return Some(i);
        }
        i += 1;
    }
    None
}

/// Whether the entry with this number is the default entry: the first one
/// with the key that the configuration names, or the first one of all if
/// there is none with that key.
pub open spec fn is_default(config: Config, index: int) -> bool {
    ||| is_first_with_key(config.entries@, config.default@, index)
    ||| (index == 0 && config.entries@.len() > 0 && no_entry_with_key(
        config.entries@,
        config.default@,
    ))
}

/// The default entry: the one that the configuration names, or the first one
/// if that is missing; none if there are no entries.
pub fn default_entry(config: &Config) -> (r: Option<usize>)
    ensures
        match r {
            Some(index) => is_default(*config, index as int),
            None => config.entries@.len() == 0,
        },
{
    match find_entry(&config.entries, config.default.as_str()) {
        Some(index) => Some(index),
        None => {
            // default entry is missing, trying the first one
            if config.entries.len() > 0 {
                Some(0)
            } else {
                None
            }
        },
    }
}

/// Choose an entry to boot.
///
/// Pass in a parsed config, get out how the entry is selected. With a
/// timeout of 0 the default entry is booted at once. Else the menu is shown:
/// with a timeout it waits for the timeout or for the escape key to be
/// pressed, without one it asks at once which entry to boot.
///
/// If the default entry is missing, the first one is used instead.
pub fn choose_entry(config: &Config) -> (r: Choice)
    ensures
        match r {
            Choice::NoEntries => config.entries@.len() == 0,
            Choice::Boot(index) => config.timeout == Some(0u8) && is_default(
                *config,
                index as int,
            ),
            Choice::Menu(index) => config.timeout != Some(0u8) && is_default(
                *config,
                index as int,
            ),
        },
{
    let index: usize = match default_entry(config) {
        Some(index) => index,
        None => {
            return Choice::NoEntries;
        },
    };
    match config.timeout {
        Some(0) => Choice::Boot(index),
        _ => Choice::Menu(index),
    }
}

/// For how long the menu waits for a key, in ticks of 100 ns.
pub fn timer_interval(timeout: u8) -> (r: u64)
    ensures
        r == timeout * TICKS_PER_SECOND,
{
    (timeout as u64) * TICKS_PER_SECOND
}

/// What an event during the countdown means: the timer boots the default
/// entry, the escape key opens the menu, and anything else changes nothing.
pub open spec fn countdown_action(event: MenuEvent) -> CountdownAction {
    match event {
        MenuEvent::Key(Key::Escape) => CountdownAction::ShowMenu,
        MenuEvent::Timer => CountdownAction::BootDefault,
        _ => CountdownAction::Wait,
    }
}

/// Display the menu: what to do when something happens during the
/// countdown.
pub fn display_menu(event: MenuEvent) -> (r: CountdownAction)
    ensures
        r == countdown_action(event),
{
    match event {
        MenuEvent::Key(Key::Escape) => CountdownAction::ShowMenu,
        MenuEvent::Timer => CountdownAction::BootDefault,
        _ => CountdownAction::Wait,
    }
}

/// The text that has been typed after one more key: enter ends it,
/// backspace takes the last character away, and every other character is
/// added.
pub open spec fn typed(value: Seq<char>, key: Key) -> Seq<char> {
    match key {
        Key::Printable(c) => if c == '\r' {
            value
        } else if c == '\u{8}' {
            if value.len() > 0 {
                value.drop_last()
            } else {
                value
            }
        } else {
            value.push(c)
        },
        _ => value,
    }
}

/// Takes a key while an entry is being typed. The answer says whether the
/// typing has come to an end.
pub fn type_key(value: &mut Vec<char>, key: Key) -> (r: bool)
    ensures
        final(value)@ == typed(old(value)@, key),
        r == (key == Key::Printable('\r')),
{
    match key {
        Key::Printable(c) => {
            if c == '\r' {
                // enter
                true
            } else if c == '\u{8}' {
                // backspace
                if value.len() > 0 {
                    value.pop();
                }
                false
            } else {
                value.push(c);
                false
            }
        },
        _ => false,
    }
}

/// The number that a choice is, if it is one that can be counted to.
pub open spec fn index_of_choice(value: Seq<char>) -> Option<usize> {
    match number_of(value) {
        Some(number) => if number <= usize::MAX {
            Some(number as usize)
        } else {
            None
        },
        None => None,
    }
}

/// Whether `r` is the entry that a choice names: the one with that number
/// if the choice is a number, else the first one with that key.
pub open spec fn is_selected(entries: Seq<NamedEntry>, value: Seq<char>, r: Option<usize>) -> bool {
    match index_of_choice(value) {
        Some(index) => if index < entries.len() {
            r == Some(index)
        } else {
            r is None
        },
        None => match r {
            Some(index) => is_first_with_key(entries, value, index as int),
            None => no_entry_with_key(entries, value),
        },
    }
}

/// Try to select an entry.
///
/// Lookup is supported by both index and key. There is no entry for a
/// choice that names none.
pub fn select_entry(entries: &Vec<NamedEntry>, value: &str) -> (r: Option<usize>)
    ensures
        is_selected(entries@, value@, r),
{
    match parse_usize(value) {
        Some(index) => if index < entries.len() {
            Some(index)
        } else {
            None
        },
        None => find_entry(entries, value),
    }
}

} // verus!
