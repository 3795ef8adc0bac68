//! A name-indexed list of handles that keeps the order of insertion.

use linked_hash_map::LinkedHashMap;
use vstd::prelude::*;

verus! {

#[verifier::external_type_specification]
#[verifier::external_body]
#[verifier::reject_recursive_types(K)]
#[verifier::reject_recursive_types(V)]
#[verifier::reject_recursive_types(S)]
pub struct ExLinkedHashMap<K, V, S>(LinkedHashMap<K, V, S>);

/// One entry of the list: a name with the handle filed under it.
pub type Entry = (Seq<char>, usize);

/// The entries of `map`, oldest insertion first.
pub uninterp spec fn linked_entries(map: LinkedHashMap<String, usize>) -> Seq<Entry>;

/// `entries` without the entries named `name`, the others in their order.
pub open spec fn without_name(entries: Seq<Entry>, name: Seq<char>) -> Seq<Entry>
    decreases entries.len(),
{
    if entries.len() == 0 {
        entries
    } else if entries.last().0 == name {
        without_name(entries.drop_last(), name)
    } else {
        without_name(entries.drop_last(), name).push(entries.last())
    }
}

/// The handle of the last entry named `name`.
pub open spec fn entry_value(entries: Seq<Entry>, name: Seq<char>) -> Option<usize>
    decreases entries.len(),
{
    if entries.len() == 0 {
        None
    } else if entries.last().0 == name {
        Some(entries.last().1)
    } else {
        entry_value(entries.drop_last(), name)
    }
}

/// The handles of `entries`, in order.
pub open spec fn entry_handles(entries: Seq<Entry>) -> Seq<usize> {
    Seq::new(entries.len(), |i: int| entries[i].1)
}

/// The list that results from filing `items` one after the other: an item
/// takes the place of an earlier one of its name and goes to the end.
pub open spec fn filed(items: Seq<Entry>) -> Seq<Entry>
    decreases items.len(),
{
    if items.len() == 0 {
        items
    } else {
        without_name(filed(items.drop_last()), items.last().0).push(items.last())
    }
}

/// `LinkedHashMap::new`: a map without entries.
#[verifier::external_body]
fn linked_new() -> (map: LinkedHashMap<String, usize>)
    ensures
        linked_entries(map) == Seq::<Entry>::empty(),
{
    LinkedHashMap::new()
}

/// `LinkedHashMap::insert`: the entry goes to the end of the order, and an
/// entry that was filed under the same name before is taken out.
#[verifier::external_body]
fn linked_insert(map: &mut LinkedHashMap<String, usize>, name: String, handle: usize)
    ensures
        linked_entries(*final(map)) == without_name(linked_entries(*old(map)), name@).push(
            (name@, handle),
        ),
{
    map.insert(name, handle);
}

/// `LinkedHashMap::get`: the handle filed under `name`, if there is one. A
/// map holds at most one entry of a name.
#[verifier::external_body]
fn linked_get(map: &LinkedHashMap<String, usize>, name: &str) -> (handle: Option<usize>)
    ensures
        handle == entry_value(linked_entries(*map), name@),
{
    map.get(name).copied()
}

/// `LinkedHashMap::values`: the handles in the order of insertion.
#[verifier::external_body]
fn linked_values(map: &LinkedHashMap<String, usize>) -> (handles: Vec<usize>)
    ensures
        handles@ == entry_handles(linked_entries(*map)),
{
    map.values().copied().collect()
}

/// Handles filed by name, in the order in which they were filed.
#[derive(Debug)]
pub struct IdListArcTex {
    entries: LinkedHashMap<String, usize>,
}

/// The names of `items` with their handles.
pub open spec fn items_view(items: Seq<(String, usize)>) -> Seq<Entry> {
    Seq::new(items.len(), |i: int| (items[i].0@, items[i].1))
}

impl View for IdListArcTex {
    type V = Seq<Entry>;

    closed spec fn view(&self) -> Seq<Entry> {
        linked_entries(self.entries)
    }
}

impl IdListArcTex {
    /// The list that holds `items`, filed one after the other.
    pub fn from_items(items: Vec<(String, usize)>) -> (list: IdListArcTex)
        ensures
            list@ == filed(items_view(items@)),
    {
        let mut entries = linked_new();
        let mut i: usize = 0;
        while i < items.len()
            invariant
                i <= items@.len(),
                linked_entries(entries) == filed(items_view(items@).take(i as int)),
            decreases items@.len() - i,
        {
            let name = items[i].0.clone();
            linked_insert(&mut entries, name, items[i].1);
            proof {
                let all = items_view(items@);
                assert(all.take(i as int + 1).drop_last() == all.take(i as int));
                assert(all.take(i as int + 1).last() == (items@[i as int].0@, items@[i as int].1));
            }
            i = i + 1;
        }
        proof {
            assert(items_view(items@).take(i as int) == items_view(items@));
        }
        IdListArcTex { entries }
    }

    /// The handle filed under `name`, if there is one.
    pub fn find(&self, name: &str) -> (handle: Option<usize>)
        ensures
            handle == entry_value(self@, name@),
    {
        linked_get(&self.entries, name)
    }

    /// The handles of the list, in the order in which they were filed.
    pub fn iter(&self) -> (handles: Vec<usize>)
        ensures
            handles@ == entry_handles(self@),
    {
        linked_values(&self.entries)
    }
}

/// Taking out a name does not change what is filed under another name.
pub proof fn lemma_without_name_keeps(entries: Seq<Entry>, taken: Seq<char>, name: Seq<char>)
    requires
        taken != name,
    ensures
        entry_value(without_name(entries, taken), name) == entry_value(entries, name),
    decreases entries.len(),
{
    if entries.len() > 0 {
        lemma_without_name_keeps(entries.drop_last(), taken, name);
        if entries.last().0 != taken {
            let kept = without_name(entries.drop_last(), taken).push(entries.last());
            assert(kept.drop_last() == without_name(entries.drop_last(), taken));
            assert(kept.last() == entries.last());
        }
    }
}

/// A list built from items answers a lookup with the handle of the last item
/// of that name, and with `None` where no item has that name.
pub proof fn lemma_filed_lookup(items: Seq<Entry>, name: Seq<char>)
    ensures
        entry_value(filed(items), name) == entry_value(items, name),
    decreases items.len(),
{
    if items.len() > 0 {
        let earlier = filed(items.drop_last());
        let last = items.last();
        let built = without_name(earlier, last.0).push(last);
        assert(built.drop_last() == without_name(earlier, last.0));
        assert(built.last() == last);
        if last.0 != name {
            lemma_without_name_keeps(earlier, last.0, name);
            lemma_filed_lookup(items.drop_last(), name);
        }
    }
}

/// A lookup answers with the handle of an item of that name, and with
/// `None` only where no item has that name.
pub proof fn lemma_lookup_finds_an_item(items: Seq<Entry>, name: Seq<char>)
    ensures
        match entry_value(items, name) {
            Some(handle) => exists|i: int| 0 <= i < items.len() && #[trigger] items[i] == (name, handle),
            None => forall|i: int| 0 <= i < items.len() ==> (#[trigger] items[i]).0 != name,
        },
    decreases items.len(),
{
    if items.len() > 0 {
        let earlier = items.drop_last();
        lemma_lookup_finds_an_item(earlier, name);
        if items.last().0 == name {
            assert(items[items.len() - 1] == (name, items.last().1));
        } else {
            match entry_value(earlier, name) {
                Some(handle) => {
                    let i = choose|i: int|
                        0 <= i < earlier.len() && #[trigger] earlier[i] == (name, handle);
                    assert(items[i] == (name, handle));
                },
                None => {
                    assert forall|i: int| 0 <= i < items.len() implies (#[trigger] items[i]).0
                        != name by {
                        if i < earlier.len() {
                            assert(earlier[i].0 != name);
                        }
                    }
                },
            }
        }
    }
}

/// The names of `entries` differ from one another.
pub open spec fn names_distinct(entries: Seq<Entry>) -> bool {
    forall|i: int, j: int|
        #![trigger entries[i], entries[j]]
        0 <= i < j < entries.len() ==> entries[i].0 != entries[j].0
}

/// Among items of distinct names, a lookup by the name of an item answers
/// with the handle of that item.
pub proof fn lemma_lookup_distinct(items: Seq<Entry>, i: int)
    requires
        names_distinct(items),
        0 <= i < items.len(),
    ensures
        entry_value(items, items[i].0) == Some(items[i].1),
    decreases items.len(),
{
    if i < items.len() - 1 {
        let earlier = items.drop_last();
        assert(items[i].0 != items[items.len() - 1].0);
        assert(names_distinct(earlier)) by {
            assert forall|a: int, b: int| 0 <= a < b < earlier.len() implies earlier[a].0
                != earlier[b].0 by {
                assert(items[a].0 != items[b].0);
            }
        }
        assert(earlier[i] == items[i]);
        lemma_lookup_distinct(earlier, i);
    }
}

/// Taking out a name that no entry has changes nothing.
pub proof fn lemma_without_absent_name(entries: Seq<Entry>, name: Seq<char>)
    requires
        forall|i: int| 0 <= i < entries.len() ==> (#[trigger] entries[i]).0 != name,
    ensures
        without_name(entries, name) == entries,
    decreases entries.len(),
{
    if entries.len() > 0 {
        lemma_without_absent_name(entries.drop_last(), name);
        assert(entries.drop_last().push(entries.last()) == entries);
    }
}

/// A list built from items of distinct names holds exactly those items, in
/// their order.
pub proof fn lemma_filed_distinct(items: Seq<Entry>)
    requires
        names_distinct(items),
    ensures
        filed(items) == items,
    decreases items.len(),
{
    if items.len() > 0 {
        let earlier = items.drop_last();
        assert(names_distinct(earlier)) by {
            assert forall|i: int, j: int| 0 <= i < j < earlier.len() implies earlier[i].0
                != earlier[j].0 by {
                assert(items[i].0 != items[j].0);
            }
        }
        lemma_filed_distinct(earlier);
        assert forall|i: int| 0 <= i < earlier.len() implies (#[trigger] earlier[i]).0
            != items.last().0 by {
            assert(items[i].0 != items[items.len() - 1].0);
        }
        lemma_without_absent_name(earlier, items.last().0);
        assert(earlier.push(items.last()) == items);
    }
}

} // verus!
