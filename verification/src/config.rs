//! The settings of the program and of the clone detector that it runs.

use vstd::prelude::*;
use vstd::string::StringExecFns;
use crate::config::ccfindersw::CCFinderSWConfig;
use crate::path::expand_tilde;
use crate::path::starts_with_home;
use crate::text::same_text;

pub mod ccfindersw;

verus! {

/// The clone detectors that the program knows.
#[derive(Clone, Copy, Debug, PartialEq, Eq, Structural)]
pub enum CloneDetectorKind {
    CCFinderSW,
}

/// The map that a run of pairs of key and value makes: of two pairs with one
/// key the earlier one counts.
pub open spec fn settings_map(entries: Seq<(String, String)>) -> Map<Seq<char>, Seq<char>>
    decreases entries.len(),
{
    if entries.len() == 0 {
        Map::empty()
    } else {
        settings_map(entries.drop_first()).insert(entries[0].0@, entries[0].1@)
    }
}

/// Named settings: a value for each of some keys.
#[derive(Clone, Debug, PartialEq, Eq)]
pub struct Settings {
    entries: Vec<(String, String)>,
}

impl View for Settings {
    type V = Map<Seq<char>, Seq<char>>;

    closed spec fn view(&self) -> Map<Seq<char>, Seq<char>> {
        settings_map(self.entries@)
    }
}

proof fn lemma_first_entry_counts(entries: Seq<(String, String)>, at: int, key: Seq<char>)
    requires
        0 <= at <= entries.len(),
        forall|i: int| 0 <= i < at ==> (#[trigger] entries[i]).0@ != key,
    ensures
        at < entries.len() && entries[at].0@ == key ==> settings_map(entries).contains_key(key)
            && settings_map(entries)[key] == entries[at].1@,
        at == entries.len() ==> !settings_map(entries).contains_key(key),
    decreases entries.len(),
{
    if entries.len() > 0 && at > 0 {
        let others = entries.drop_first();
        assert(entries[0].0@ != key);
        assert forall|i: int| 0 <= i < at - 1 implies (#[trigger] others[i]).0@ != key by {
            assert(entries[i + 1].0@ != key);
        }
        lemma_first_entry_counts(others, at - 1, key);
    }
}

proof fn lemma_replaced_entry(entries: Seq<(String, String)>, at: int, entry: (String, String))
    requires
        0 <= at < entries.len(),
        entries[at].0@ == entry.0@,
        forall|i: int| 0 <= i < at ==> (#[trigger] entries[i]).0@ != entry.0@,
    ensures
        settings_map(entries.update(at, entry)) == settings_map(entries).insert(
            entry.0@,
            entry.1@,
        ),
    decreases entries.len(),
{
    let others = entries.drop_first();
    if at == 0 {
        assert(entries.update(at, entry).drop_first() =~= others);
        assert(settings_map(entries.update(at, entry)) =~= settings_map(entries).insert(
            entry.0@,
            entry.1@,
        ));
    } else {
        assert(entries[0].0@ != entry.0@);
        assert forall|i: int| 0 <= i < at - 1 implies (#[trigger] others[i]).0@ != entry.0@ by {
            assert(entries[i + 1].0@ != entry.0@);
        }
        lemma_replaced_entry(others, at - 1, entry);
        assert(entries.update(at, entry).drop_first() =~= others.update(at - 1, entry));
        assert(settings_map(entries.update(at, entry)) =~= settings_map(entries).insert(
            entry.0@,
            entry.1@,
        ));
    }
}

proof fn lemma_added_entry(entries: Seq<(String, String)>, entry: (String, String))
    requires
        forall|i: int| 0 <= i < entries.len() ==> (#[trigger] entries[i]).0@ != entry.0@,
    ensures
        settings_map(entries.push(entry)) == settings_map(entries).insert(entry.0@, entry.1@),
    decreases entries.len(),
{
    if entries.len() == 0 {
        assert(entries.push(entry).drop_first() =~= entries);
    } else {
        let others = entries.drop_first();
        assert(entries[0].0@ != entry.0@);
        assert forall|i: int| 0 <= i < others.len() implies (#[trigger] others[i]).0@
            != entry.0@ by {
            assert(entries[i + 1].0@ != entry.0@);
        }
        lemma_added_entry(others, entry);
        assert(entries.push(entry).drop_first() =~= others.push(entry));
        assert(settings_map(entries.push(entry)) =~= settings_map(entries).insert(
            entry.0@,
            entry.1@,
        ));
    }
}

impl Settings {
    /// Settings without any key.
    pub fn new() -> (settings: Self)
        ensures
            settings@ == Map::<Seq<char>, Seq<char>>::empty(),
    {
        Settings { entries: Vec::new() }
    }

    /// The place of the first entry for `key`, or the number of entries where
    /// there is none.
    fn position(&self, key: &str) -> (at: usize)
        ensures
            at <= self.entries@.len(),
            forall|i: int| 0 <= i < at ==> (#[trigger] self.entries@[i]).0@ != key@,
            at < self.entries@.len() ==> self.entries@[at as int].0@ == key@,
    {
        let mut at: usize = 0;
        while at < self.entries.len()
            invariant
                at <= self.entries@.len(),
                forall|i: int| 0 <= i < at ==> (#[trigger] self.entries@[i]).0@ != key@,
            decreases self.entries.len() - at,
        {
            if same_text(self.entries[at].0.as_str(), key) {
                return at;
            }
            at += 1;
        }
        at
    }

    /// The value of `key`.
    pub fn get(&self, key: &str) -> (value: Option<&String>)
        ensures
            match value {
                Some(value) => self@.contains_key(key@) && self@[key@] == value@,
                None => !self@.contains_key(key@),
            },
    {
        let at = self.position(key);
        proof {
            lemma_first_entry_counts(self.entries@, at as int, key@);
        }
        if at < self.entries.len() {
            Some(&self.entries[at].1)
        } else {
            None
        }
    }

    /// Gives `key` the value `value`, in place of the one it had.
    pub fn insert(&mut self, key: String, value: String)
        ensures
            final(self)@ == old(self)@.insert(key@, value@),
    {
        let at = self.position(key.as_str());
        if at < self.entries.len() {
            proof {
                lemma_replaced_entry(self.entries@, at as int, (key, value));
            }
            self.entries.set(at, (key, value));
        } else {
            proof {
                lemma_added_entry(self.entries@, (key, value));
            }
            self.entries.push((key, value));
        }
    }

    /// The entries. Of two entries with one key the earlier one counts.
    pub fn into_entries(self) -> (entries: Vec<(String, String)>)
        ensures
            settings_map(entries@) == self@,
    {
        self.entries
    }
}

/// The settings of the program.
#[derive(Clone, Debug, PartialEq, Eq)]
pub struct Config {
    pub munin_database_root: String,
    pub clone_detector_kind: CloneDetectorKind,
    pub clone_detector_config: Settings,
}

impl Config {
    /// The settings that hold where none are given.
    pub fn default() -> (config: Self)
        ensures
            config.munin_database_root@ == "~/munin"@,
            config.clone_detector_kind == CloneDetectorKind::CCFinderSW,
            config.clone_detector_config@ == ccfindersw::settings_of(
                "CCFinderSW"@,
                50,
                seq!["pde"@, "ino"@],
            ),
    {
        Config {
            munin_database_root: String::from_str("~/munin"),
            clone_detector_kind: CloneDetectorKind::CCFinderSW,
            clone_detector_config: CCFinderSWConfig::default().to_hashmap(),
        }
    }

    /// The root of the database with the home directory of the user in the
    /// place of a leading tilde, where there is such a directory. The path is
    /// not looked up in the file system.
    pub fn get_expanded_database_root_path(&self) -> (path: String)
        ensures
            !starts_with_home(self.munin_database_root@) ==> path@ == self.munin_database_root@,
            path@ == self.munin_database_root@ || exists|home: Seq<char>|
                path@ == home + self.munin_database_root@.skip(1),
    {
        expand_tilde(self.munin_database_root.as_str())
    }
}

} // verus!
