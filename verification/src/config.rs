//! Per-adapter user overrides (data folder, install folder, port), keyed by
//! the lower-cased adapter name. The table lives in the application and is
//! persisted there as `adapters.json`; this module holds its rules.

use vstd::prelude::*;
use vstd::string::*;

use crate::json::chars_eq;
use crate::message::opt_view;
use crate::text::{ascii_lower_view, chars_of, to_ascii_lowercase};

verus! {

/// The overrides of one adapter; `None` keeps the detected default.
#[derive(Debug, Clone, Default)]
pub struct AdapterOverride {
    /// Data folder override (absolute path).
    pub data_dir: Option<String>,
    /// Install folder override (absolute path); stored only.
    pub install_dir: Option<String>,
    /// Port override (such as ChatBox's DevTools port).
    pub port: Option<u16>,
}

/// Abstract overrides.
pub struct OverrideView {
    pub data_dir: Option<Seq<char>>,
    pub install_dir: Option<Seq<char>>,
    pub port: Option<u16>,
}

impl View for AdapterOverride {
    type V = OverrideView;

    open spec fn view(&self) -> OverrideView {
        OverrideView {
            data_dir: opt_view(self.data_dir),
            install_dir: opt_view(self.install_dir),
            port: self.port,
        }
    }
}

/// No override at all.
pub open spec fn no_override() -> OverrideView {
    OverrideView { data_dir: None, install_dir: None, port: None }
}

fn clone_opt_string(o: &Option<String>) -> (r: Option<String>)
    ensures
        opt_view(r) == opt_view(*o),
{
    match o {
        Some(s) => Some(s.clone()),
        None => None,
    }
}

impl AdapterOverride {
    /// A copy of the overrides.
    pub fn duplicate(&self) -> (r: Self)
        ensures
            r@ == self@,
    {
        AdapterOverride {
            data_dir: clone_opt_string(&self.data_dir),
            install_dir: clone_opt_string(&self.install_dir),
            port: self.port,
        }
    }

    /// No override at all.
    pub fn none() -> (r: Self)
        ensures
            r@ == no_override(),
    {
        AdapterOverride { data_dir: None, install_dir: None, port: None }
    }
}

/// The override table: entries keyed by lower-cased adapter name.
pub struct AdapterConfig {
    entries: Vec<(String, AdapterOverride)>,
}

/// The map that a list of entries stands for (a later entry wins).
pub open spec fn entries_map(es: Seq<(String, AdapterOverride)>) -> Map<Seq<char>, OverrideView>
    decreases es.len(),
{
    if es.len() == 0 {
        Map::empty()
    } else {
        entries_map(es.drop_last()).insert(es.last().0@, es.last().1@)
    }
}

/// Looking a key up in the entry map finds the last entry with that key.
proof fn lemma_entries_map_lookup(es: Seq<(String, AdapterOverride)>, k: Seq<char>, i: int)
    requires
        -1 <= i < es.len(),
        forall|j: int| i < j < es.len() ==> es[j].0@ != k,
        i >= 0 ==> es[i].0@ == k,
    ensures
        i >= 0 ==> entries_map(es).contains_key(k) && entries_map(es)[k] == es[i].1@,
        i < 0 ==> !entries_map(es).contains_key(k),
    decreases es.len(),
{
    if es.len() > 0 && es.len() - 1 != i {
        lemma_entries_map_lookup(es.drop_last(), k, i);
    }
}

/// Replacing the last entry of a key updates the map at that key.
proof fn lemma_entries_map_update(
    es: Seq<(String, AdapterOverride)>,
    i: int,
    e: (String, AdapterOverride),
)
    requires
        0 <= i < es.len(),
        es[i].0@ == e.0@,
        forall|j: int| i < j < es.len() ==> es[j].0@ != e.0@,
    ensures
        entries_map(es.update(i, e)) == entries_map(es).insert(e.0@, e.1@),
    decreases es.len(),
{
    if es.len() - 1 == i {
        assert(es.update(i, e).drop_last() =~= es.drop_last());
        assert(entries_map(es.update(i, e)) =~= entries_map(es).insert(e.0@, e.1@));
    } else {
        lemma_entries_map_update(es.drop_last(), i, e);
        assert(es.update(i, e).drop_last() =~= es.drop_last().update(i, e));
        assert(entries_map(es.update(i, e)) =~= entries_map(es).insert(e.0@, e.1@));
    }
}

impl View for AdapterConfig {
    type V = Map<Seq<char>, OverrideView>;

    closed spec fn view(&self) -> Map<Seq<char>, OverrideView> {
        entries_map(self.entries@)
    }
}

/// The overrides stored for a name, or none.
pub open spec fn config_get_view(m: Map<Seq<char>, OverrideView>, name: Seq<char>) -> OverrideView {
    let key = ascii_lower_view(name);
    if m.contains_key(key) {
        m[key]
    } else {
        no_override()
    }
}

impl AdapterConfig {
    /// An empty table.
    pub fn new() -> (c: Self)
        ensures
            c@ == Map::<Seq<char>, OverrideView>::empty(),
    {
        let c = AdapterConfig { entries: Vec::new() };
        assert(c@ =~= Map::<Seq<char>, OverrideView>::empty());
        c
    }

    /// The entries, keyed by lower-cased name, for persisting.
    pub fn entries(&self) -> (r: &Vec<(String, AdapterOverride)>)
        ensures
            entries_map(r@) == self@,
    {
        &self.entries
    }

    /// Finds the last entry with the given key.
    fn find(&self, key: &[char]) -> (r: Option<usize>)
        ensures
            match r {
                Some(i) => i < self.entries@.len() && self.entries@[i as int].0@ == key@ && forall|
                    j: int,
                | i < j < self.entries@.len() ==> self.entries@[j].0@ != key@,
                None => forall|j: int| 0 <= j < self.entries@.len() ==> self.entries@[j].0@ != key@,
            },
    {
        let mut i = self.entries.len();
        while i > 0
            invariant
                i <= self.entries@.len(),
                forall|j: int| i <= j < self.entries@.len() ==> self.entries@[j].0@ != key@,
            decreases i,
        {
            let k = chars_of(self.entries[i - 1].0.as_str());
            if chars_eq(k.as_slice(), key) {
                return Some(i - 1);
            }
            i = i - 1;
        }
        None
    }

    /// Loads a table from stored entries, keys as stored (a later entry of a
    /// key wins). Lookups lower-case the name, so only lower-case keys (the
    /// ones [`Self::set`] writes) are ever found.
    pub fn from_entries(es: Vec<(String, AdapterOverride)>) -> (c: Self)
        ensures
            c@ == entries_map(es@),
    {
        AdapterConfig { entries: es }
    }

    /// The overrides of an adapter (name in any ASCII case); none when unset.
    pub fn get(&self, name: &str) -> (r: AdapterOverride)
        ensures
            r@ == config_get_view(self@, name@),
    {
        let key = to_ascii_lowercase(name);
        let kc = chars_of(key.as_str());
        match self.find(kc.as_slice()) {
            Some(i) => {
                proof {
                    lemma_entries_map_lookup(self.entries@, key@, i as int);
                }
                self.entries[i].1.duplicate()
            },
            None => {
                proof {
                    lemma_entries_map_lookup(self.entries@, key@, -1);
                }
                AdapterOverride::none()
            },
        }
    }

    /// Stores the overrides of an adapter, replacing its earlier ones.
    pub fn set(&mut self, name: &str, ov: AdapterOverride)
        ensures
            final(self)@ == old(self)@.insert(ascii_lower_view(name@), ov@),
    {
        let key = to_ascii_lowercase(name);
        let kc = chars_of(key.as_str());
        match self.find(kc.as_slice()) {
            Some(i) => {
                proof {
                    lemma_entries_map_update(self.entries@, i as int, (key, ov));
                }
                self.entries.set(i, (key, ov));
            },
            None => {
                let ghost before = self.entries@;
                self.entries.push((key, ov));
                assert(self.entries@.drop_last() =~= before);
            },
        }
    }
}

/// The free-function form of [`AdapterConfig::get`].
pub fn get(config: &AdapterConfig, name: &str) -> (r: AdapterOverride)
    ensures
        r@ == config_get_view(config@, name@),
{
    config.get(name)
}

/// The free-function form of [`AdapterConfig::set`].
pub fn set(config: &mut AdapterConfig, name: &str, ov: AdapterOverride)
    ensures
        final(config)@ == old(config)@.insert(ascii_lower_view(name@), ov@),
{
    config.set(name, ov)
}


/// Overrides stored under a name are what getting that name, in any ASCII
/// case, gives back; other names keep theirs.
pub proof fn lemma_get_after_set(
    m: Map<Seq<char>, OverrideView>,
    name: Seq<char>,
    ov: OverrideView,
    other: Seq<char>,
)
    ensures
        config_get_view(m.insert(ascii_lower_view(name), ov), name) == ov,
        ascii_lower_view(other) == ascii_lower_view(name) ==> config_get_view(
            m.insert(ascii_lower_view(name), ov),
            other,
        ) == ov,
        ascii_lower_view(other) != ascii_lower_view(name) ==> config_get_view(
            m.insert(ascii_lower_view(name), ov),
            other,
        ) == config_get_view(m, other),
{
}

/// An adapter with nothing stored gets no override.
pub proof fn lemma_get_unset(m: Map<Seq<char>, OverrideView>, name: Seq<char>)
    requires
        !m.contains_key(ascii_lower_view(name)),
    ensures
        config_get_view(m, name) == no_override(),
{
}

} // verus!
