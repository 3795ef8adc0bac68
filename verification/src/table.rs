//! A translation table: the handle that each translated identity was given.

use ahash::AHashMap;
use vstd::prelude::*;

verus! {

#[verifier::external_type_specification]
#[verifier::external_body]
pub struct ExRandomState(ahash::RandomState);

#[verifier::external_type_specification]
#[verifier::external_body]
#[verifier::reject_recursive_types(K)]
#[verifier::reject_recursive_types(V)]
#[verifier::reject_recursive_types(S)]
pub struct ExAHashMap<K, V, S>(AHashMap<K, V, S>);

/// What `map` holds: each key with the value stored under it.
pub uninterp spec fn table_entries(map: AHashMap<usize, usize>) -> Map<usize, usize>;

/// `AHashMap::new`: a map without entries.
#[verifier::external_body]
fn table_new() -> (map: AHashMap<usize, usize>)
    ensures
        forall|key: usize| !table_entries(map).contains_key(key),
{
    AHashMap::new()
}

/// `AHashMap::get`: the value stored under `key`, if there is one.
#[verifier::external_body]
fn table_get(map: &AHashMap<usize, usize>, key: usize) -> (value: Option<usize>)
    ensures
        value == if table_entries(*map).contains_key(key) {
            Some(table_entries(*map)[key])
        } else {
            None
        },
{
    map.get(&key).copied()
}

/// `AHashMap::insert`: `value` is stored under `key`, in place of what was
/// stored there; every other entry stays.
#[verifier::external_body]
fn table_insert(map: &mut AHashMap<usize, usize>, key: usize, value: usize)
    ensures
        table_entries(*final(map)) == table_entries(*old(map)).insert(key, value),
{
    map.insert(key, value);
}

/// The handles given to identities so far, in a hash map keyed by identity.
pub struct TranslationTable {
    entries: AHashMap<usize, usize>,
}

impl View for TranslationTable {
    type V = Map<usize, usize>;

    closed spec fn view(&self) -> Map<usize, usize> {
        table_entries(self.entries)
    }
}

impl TranslationTable {
    /// A table without entries.
    pub fn new() -> (table: TranslationTable)
        ensures
            table@ == Map::<usize, usize>::empty(),
    {
        let table = TranslationTable { entries: table_new() };
        assert(table@ =~= Map::<usize, usize>::empty());
        table
    }

    /// The handle of identity `id`, if it has one.
    pub fn get(&self, id: usize) -> (handle: Option<usize>)
        ensures
            handle == if self@.contains_key(id) {
                Some(self@[id])
            } else {
                None
            },
    {
        table_get(&self.entries, id)
    }

    /// Gives identity `id` the handle `handle`.
    pub fn insert(&mut self, id: usize, handle: usize)
        ensures
            final(self)@ == old(self)@.insert(id, handle),
    {
        table_insert(&mut self.entries, id, handle)
    }
}

} // verus!
