//! Registries of dynamic assets (asset keys resolved at run time) and of the
//! files that dynamic asset collections are loaded from.

use std::collections::HashMap;
use std::hash::Hash;
use vstd::prelude::*;
use vstd::std_specs::hash::obeys_key_model;

verus! {

/// Asset keys with the dynamic assets that they resolve to. A key occurs
/// once; it is identified by its text.
pub struct DynamicAssetMap<A> {
    entries: Vec<(String, A)>,
}

/// No two entries have the same key text.
spec fn keys_distinct<A>(entries: Seq<(String, A)>) -> bool {
    forall|i: int, j: int| 0 <= i < j < entries.len() ==> entries[i].0@ != entries[j].0@
}

/// The map that a list of entries stands for; a later entry replaces an
/// earlier one with the same key text.
spec fn entries_map<A>(entries: Seq<(String, A)>) -> Map<Seq<char>, A>
    decreases entries.len(),
{
    if entries.len() == 0 {
        Map::empty()
    } else {
        entries_map(entries.drop_last()).insert(entries.last().0@, entries.last().1)
    }
}

proof fn lemma_entries_map_push<A>(entries: Seq<(String, A)>, entry: (String, A))
    ensures
        entries_map(entries.push(entry)) == entries_map(entries).insert(entry.0@, entry.1),
{
    assert(entries.push(entry).drop_last() =~= entries);
}

proof fn lemma_entries_map_dom<A>(entries: Seq<(String, A)>, key: Seq<char>)
    ensures
        entries_map(entries).contains_key(key) <==> exists|i: int|
            0 <= i < entries.len() && #[trigger] entries[i].0@ == key,
    decreases entries.len(),
{
    if entries.len() > 0 {
        let prefix = entries.drop_last();
        lemma_entries_map_dom(prefix, key);
        if entries_map(prefix).contains_key(key) {
            let i = choose|i: int| 0 <= i < prefix.len() && #[trigger] prefix[i].0@ == key;
            assert(entries[i].0@ == key);
        }
        if exists|i: int| 0 <= i < entries.len() && #[trigger] entries[i].0@ == key {
            let i = choose|i: int| 0 <= i < entries.len() && #[trigger] entries[i].0@ == key;
            if i < entries.len() - 1 {
                assert(prefix[i].0@ == key);
            }
        }
    }
}

proof fn lemma_entries_map_value<A>(entries: Seq<(String, A)>, i: int)
    requires
        keys_distinct(entries),
        0 <= i < entries.len(),
    ensures
        entries_map(entries).contains_key(entries[i].0@),
        entries_map(entries)[entries[i].0@] == entries[i].1,
    decreases entries.len(),
{
    if i < entries.len() - 1 {
        let prefix = entries.drop_last();
        assert(prefix[i] == entries[i]);
        lemma_entries_map_value(prefix, i);
    }
}

proof fn lemma_entries_map_update<A>(entries: Seq<(String, A)>, i: int, entry: (String, A))
    requires
        keys_distinct(entries),
        0 <= i < entries.len(),
        entry.0@ == entries[i].0@,
    ensures
        keys_distinct(entries.update(i, entry)),
        entries_map(entries.update(i, entry)) == entries_map(entries).insert(entry.0@, entry.1),
    decreases entries.len(),
{
    let updated = entries.update(i, entry);
    let prefix = entries.drop_last();
    if i == entries.len() - 1 {
        assert(updated.drop_last() =~= prefix);
        assert(entries_map(updated) =~= entries_map(entries).insert(entry.0@, entry.1));
    } else {
        assert(updated.drop_last() =~= prefix.update(i, entry));
        lemma_entries_map_update(prefix, i, entry);
        assert(entries.last().0@ != entry.0@);
        assert(entries_map(updated) =~= entries_map(entries).insert(entry.0@, entry.1));
    }
}

proof fn lemma_entries_map_len<A>(entries: Seq<(String, A)>)
    requires
        keys_distinct(entries),
    ensures
        entries_map(entries).dom().finite(),
        entries_map(entries).len() == entries.len(),
    decreases entries.len(),
{
    if entries.len() > 0 {
        let prefix = entries.drop_last();
        lemma_entries_map_len(prefix);
        lemma_entries_map_dom(prefix, entries.last().0@);
        if entries_map(prefix).contains_key(entries.last().0@) {
            let i = choose|i: int| 0 <= i < prefix.len() && #[trigger] prefix[i].0@ == entries.last().0@;
            assert(entries[i].0@ == entries[entries.len() - 1].0@);
        }
    }
}

impl<A> DynamicAssetMap<A> {
    #[verifier::type_invariant]
    spec fn keys_are_distinct(self) -> bool {
        keys_distinct(self.entries@)
    }
}

impl<A> View for DynamicAssetMap<A> {
    type V = Map<Seq<char>, A>;

    closed spec fn view(&self) -> Map<Seq<char>, A> {
        entries_map(self.entries@)
    }
}

impl<A> DynamicAssetMap<A> {
    /// A map without keys.
    pub fn new() -> (map: Self)
        ensures
            map@ == Map::<Seq<char>, A>::empty(),
    {
        DynamicAssetMap { entries: Vec::new() }
    }

    /// The position of the entry whose key has the text of `key`.
    fn position(&self, key: &String) -> (found: Option<usize>)
        ensures
            match found {
                Some(i) => i < self.entries@.len() && self.entries@[i as int].0@ == key@,
                None => forall|i: int| 0 <= i < self.entries@.len() ==> self.entries@[i].0@ != key@,
            },
    {
        let n = self.entries.len();
        for i in 0..n
            invariant
                n == self.entries@.len(),
                forall|j: int| 0 <= j < i ==> self.entries@[j].0@ != key@,
        {
            if self.entries[i].0 == *key {
                return Some(i);
            }
        }
        None
    }

    /// Maps `key` to `asset`, replacing the asset that `key` had.
    pub fn insert(&mut self, key: String, asset: A)
        ensures
            final(self)@ == old(self)@.insert(key@, asset),
    {
        proof {
            use_type_invariant(&*self);
        }
        let found = self.position(&key);
        let mut entries: Vec<(String, A)> = Vec::new();
        std::mem::swap(&mut entries, &mut self.entries);
        let ghost before = entries@;
        match found {
            Some(i) => {
                proof {
                    lemma_entries_map_update(before, i as int, (key, asset));
                }
                entries.set(i, (key, asset));
            },
            None => {
                proof {
                    lemma_entries_map_push(before, (key, asset));
                    assert(keys_distinct(before.push((key, asset))));
                }
                entries.push((key, asset));
            },
        }
        self.entries = entries;
    }

    /// The asset that `key` maps to, if any.
    pub fn get(&self, key: &str) -> (asset: Option<&A>)
        ensures
            match asset {
                Some(a) => self@.contains_key(key@) && *a == self@[key@],
                None => !self@.contains_key(key@),
            },
    {
        proof {
            use_type_invariant(self);
        }
        let owned = key.to_owned();
        match self.position(&owned) {
            Some(i) => {
                proof {
                    lemma_entries_map_value(self.entries@, i as int);
                }
                Some(&self.entries[i].1)
            },
            None => {
                proof {
                    lemma_entries_map_dom(self.entries@, key@);
                }
                None
            },
        }
    }

    /// The number of keys.
    pub fn len(&self) -> (count: usize)
        ensures
            count == self@.len(),
    {
        proof {
            use_type_invariant(self);
            lemma_entries_map_len(self.entries@);
        }
        self.entries.len()
    }

    /// Moves every entry of `other` into this map; an entry of `other`
    /// replaces the asset that its key had here.
    pub fn extend(&mut self, other: DynamicAssetMap<A>)
        ensures
            final(self)@ == old(self)@.union_prefer_right(other@),
    {
        let ghost start = self@;
        let DynamicAssetMap { entries } = other;
        let ghost items = entries@;
        for entry in it: entries.into_iter()
            invariant
                it.seq() == items,
                self@ == start.union_prefer_right(entries_map(items.take(it.index()))),
        {
            let ghost idx = it.index();
            proof {
                assert(items.take(idx + 1).drop_last() =~= items.take(idx));
                assert(items.take(idx + 1).last() == entry);
            }
            let (key, asset) = entry;
            self.insert(key, asset);
            proof {
                assert(self@ =~= start.union_prefer_right(entries_map(items.take(idx + 1))));
            }
        }
        assert(items.take(items.len() as int) =~= items);
    }
}

/// The registry of dynamic assets: each asset key names the asset that it
/// resolves to.
pub struct DynamicAssets<A> {
    key_asset_map: DynamicAssetMap<A>,
}

impl<A> View for DynamicAssets<A> {
    type V = Map<Seq<char>, A>;

    closed spec fn view(&self) -> Map<Seq<char>, A> {
        self.key_asset_map@
    }
}

impl<A> DynamicAssets<A> {
    /// A registry without any asset key.
    pub fn new() -> (assets: Self)
        ensures
            assets@ == Map::<Seq<char>, A>::empty(),
    {
        DynamicAssets { key_asset_map: DynamicAssetMap::new() }
    }

    /// Registers `asset` under `key`; an asset registered before under the
    /// same key is replaced.
    pub fn register_asset(&mut self, key: String, asset: A)
        ensures
            final(self)@ == old(self)@.insert(key@, asset),
    {
        self.key_asset_map.insert(key, asset);
    }

    /// Registers every entry of `assets`, each replacing an asset registered
    /// before under the same key.
    pub fn register_assets(&mut self, assets: DynamicAssetMap<A>)
        ensures
            final(self)@ == old(self)@.union_prefer_right(assets@),
    {
        self.key_asset_map.extend(assets);
    }

    /// The asset registered under `key`, if any.
    pub fn get_asset(&self, key: &str) -> (asset: Option<&A>)
        ensures
            match asset {
                Some(a) => self@.contains_key(key@) && *a == self@[key@],
                None => !self@.contains_key(key@),
            },
    {
        self.key_asset_map.get(key)
    }
}

/// The files that dynamic asset collections are loaded from, per loading
/// state and per collection type (identified by a key `C`, such as its
/// `TypeId`), in the order in which they were added.
pub struct DynamicAssetCollections<S, C> {
    pub files: HashMap<S, HashMap<C, Vec<String>>>,
}

/// The abstract value of the files of one loading state: the file list of
/// each collection type.
pub open spec fn files_of_state<C>(m: HashMap<C, Vec<String>>) -> Map<C, Seq<Seq<char>>> {
    m@.map_values(|v: Vec<String>| v@.map_values(|f: String| f@))
}

/// The file list that a collection type has in `m`; none is an empty list.
pub open spec fn listed_files<C>(m: Map<C, Seq<Seq<char>>>, collection: C) -> Seq<Seq<char>> {
    if m.contains_key(collection) {
        m[collection]
    } else {
        Seq::empty()
    }
}

/// The file lists of a loading state in `m`; none is an empty map.
pub open spec fn state_files<S, C>(m: Map<S, Map<C, Seq<Seq<char>>>>, state: S) -> Map<C, Seq<Seq<char>>> {
    if m.contains_key(state) {
        m[state]
    } else {
        Map::empty()
    }
}

/// `files` after `file` is added for `collection` in `state`: the file goes
/// last in that list, and nothing else changes.
pub open spec fn files_after_adding<S, C>(
    files: Map<S, Map<C, Seq<Seq<char>>>>,
    state: S,
    collection: C,
    file: Seq<char>,
) -> Map<S, Map<C, Seq<Seq<char>>>> {
    let of_state = state_files(files, state);
    files.insert(state, of_state.insert(collection, listed_files(of_state, collection).push(file)))
}

impl<S, C> View for DynamicAssetCollections<S, C> {
    type V = Map<S, Map<C, Seq<Seq<char>>>>;

    open spec fn view(&self) -> Map<S, Map<C, Seq<Seq<char>>>> {
        self.files@.map_values(|m: HashMap<C, Vec<String>>| files_of_state(m))
    }
}

impl<S, C> DynamicAssetCollections<S, C> {
    /// No file for any loading state.
    pub fn new() -> (collections: Self)
        ensures
            collections@ == Map::<S, Map<C, Seq<Seq<char>>>>::empty(),
    {
        let collections = DynamicAssetCollections { files: HashMap::new() };
        assert(collections@ =~= Map::<S, Map<C, Seq<Seq<char>>>>::empty());
        collections
    }
}

impl<S: Eq + Hash, C: Eq + Hash> DynamicAssetCollections<S, C> {
    /// Adds `file` to the files that the dynamic asset collection type
    /// `collection` is loaded from in `loading_state`. The file goes after
    /// the files added before for the same state and type; the files of
    /// other states and types stay as they were.
    pub fn add_dynamic_collection_to_loading_state(
        &mut self,
        loading_state: S,
        collection: C,
        file: &str,
    )
        requires
            obeys_key_model::<S>(),
            obeys_key_model::<C>(),
        ensures
            final(self)@ == files_after_adding(old(self)@, loading_state, collection, file@),
    {
        let ghost before = self@;
        let ghost old_files = self.files@;
        let mut for_state = match self.files.remove(&loading_state) {
            Some(m) => m,
            None => HashMap::new(),
        };
        assert(files_of_state(for_state) == state_files(before, loading_state));
        let mut for_collection = match for_state.remove(&collection) {
            Some(v) => v,
            None => Vec::new(),
        };
        assert(for_collection@.map_values(|f: String| f@) =~= listed_files(state_files(before, loading_state), collection));
        let owned = file.to_owned();
        for_collection.push(owned);
        let ghost of_state = state_files(before, loading_state);
        let ghost pushed = listed_files(of_state, collection).push(owned@);
        assert(for_collection@.map_values(|f: String| f@) =~= pushed);
        for_state.insert(collection, for_collection);
        assert(files_of_state(for_state) =~= of_state.insert(collection, pushed));
        self.files.insert(loading_state, for_state);
        assert(self.files@ == old_files.insert(loading_state, for_state));
        assert(self@ =~= files_after_adding(before, loading_state, collection, owned@));
    }
}

} // verus!
