//! Values that are kept under texts.
use vstd::prelude::*;

use crate::text;

verus! {

/// Values under texts. An entry shadows every earlier one with the same key.
#[derive(Debug, Clone, PartialEq, Eq)]
pub struct TextMap<V> {
    entries: Vec<(String, V)>,
}

/// The map that entries stand for.
pub open spec fn map_of<V>(entries: Seq<(String, V)>) -> Map<Seq<char>, V>
    decreases entries.len(),
{
    if entries.len() == 0 {
        Map::empty()
    } else {
        map_of(entries.drop_last()).insert(entries.last().0@, entries.last().1)
    }
}

impl<V> View for TextMap<V> {
    type V = Map<Seq<char>, V>;

    closed spec fn view(&self) -> Map<Seq<char>, V> {
        map_of(self.entries@)
    }
}

/// The last entry with a key gives its value.
proof fn lemma_found<V>(entries: Seq<(String, V)>, i: int)
    requires
        0 <= i < entries.len(),
        forall|k: int| i < k < entries.len() ==> (#[trigger] entries[k]).0@ != entries[i].0@,
    ensures
        map_of(entries).contains_key(entries[i].0@),
        map_of(entries)[entries[i].0@] == entries[i].1,
    decreases entries.len(),
{
    if i < entries.len() - 1 {
        let front = entries.drop_last();
        assert(entries[entries.len() - 1].0@ != entries[i].0@);
        assert forall|k: int| i < k < front.len() implies (#[trigger] front[k]).0@
            != front[i].0@ by {
            assert(front[k] == entries[k]);
        }
        lemma_found(front, i);
    }
}

/// A key that no entry has is not in the map.
proof fn lemma_absent<V>(entries: Seq<(String, V)>, key: Seq<char>)
    requires
        forall|k: int| 0 <= k < entries.len() ==> (#[trigger] entries[k]).0@ != key,
    ensures
        !map_of(entries).contains_key(key),
    decreases entries.len(),
{
    if entries.len() > 0 {
        let front = entries.drop_last();
        assert forall|k: int| 0 <= k < front.len() implies (#[trigger] front[k]).0@ != key by {
            assert(front[k] == entries[k]);
        }
        assert(entries[entries.len() - 1].0@ != key);
        lemma_absent(front, key);
    }
}

/// Another value for the last entry with a key replaces the value of that key.
proof fn lemma_replaced<V>(entries: Seq<(String, V)>, i: int, entry: (String, V))
    requires
        0 <= i < entries.len(),
        forall|k: int| i < k < entries.len() ==> (#[trigger] entries[k]).0@ != entries[i].0@,
        entry.0@ == entries[i].0@,
    ensures
        map_of(entries.update(i, entry)) == map_of(entries).insert(entry.0@, entry.1),
    decreases entries.len(),
{
    let after = entries.update(i, entry);
    let front = entries.drop_last();
    if i == entries.len() - 1 {
        assert(after.drop_last() =~= front);
    } else {
        assert(after.drop_last() =~= front.update(i, entry));
        assert forall|k: int| i < k < front.len() implies (#[trigger] front[k]).0@
            != front[i].0@ by {
            assert(front[k] == entries[k]);
        }
        lemma_replaced(front, i, entry);
        assert(entries[entries.len() - 1].0@ != entries[i].0@);
    }
    assert(map_of(after) =~= map_of(entries).insert(entry.0@, entry.1));
}

impl<V> TextMap<V> {
    /// Nothing.
    pub fn new() -> (res: Self)
        ensures
            res@ == Map::<Seq<char>, V>::empty(),
    {
        TextMap { entries: Vec::new() }
    }

    /// The value under a key.
    pub fn get(&self, key: &str) -> (res: Option<&V>)
        ensures
            match res {
                Some(value) => self@.contains_key(key@) && self@[key@] == *value,
                None => !self@.contains_key(key@),
            },
    {
        let mut i: usize = self.entries.len();
        while i > 0
            invariant
                i <= self.entries@.len(),
                forall|k: int|
                    i <= k < self.entries@.len() ==> (#[trigger] self.entries@[k]).0@ != key@,
            decreases i,
        {
            if text::eq(self.entries[i - 1].0.as_str(), key) {
                proof {
                    lemma_found(self.entries@, i - 1);
                }
                return Some(&self.entries[i - 1].1);
            }
            i -= 1;
        }
        proof {
            lemma_absent(self.entries@, key@);
        }
        None
    }

    /// Puts a value under a key.
    pub fn insert(&mut self, key: &str, value: V)
        ensures
            final(self)@ == old(self)@.insert(key@, value),
    {
        let mut i: usize = self.entries.len();
        while i > 0
            invariant
                i <= self.entries@.len(),
                *self == *old(self),
                forall|k: int|
                    i <= k < self.entries@.len() ==> (#[trigger] self.entries@[k]).0@ != key@,
            decreases i,
        {
            if text::eq(self.entries[i - 1].0.as_str(), key) {
                let entry = (key.to_owned(), value);
                proof {
                    lemma_replaced(self.entries@, i - 1, entry);
                }
                self.entries.set(i - 1, entry);
                return ;
            }
            i -= 1;
        }
        let entry = (key.to_owned(), value);
        assert(self.entries@.push(entry).drop_last() =~= self.entries@);
        self.entries.push(entry);
    }
}

// ---------------------------------------------------------------------------
// Laws
// ---------------------------------------------------------------------------

/// What was put under a key is found there, and what is under every other key stays.
pub proof fn law_value_is_found_under_its_key<V>(
    map: &mut TextMap<V>,
    after: &TextMap<V>,
    before: &TextMap<V>,
    key: &str,
    other: &str,
    value: V,
    found: Option<&V>,
    other_found: Option<&V>,
    other_before: Option<&V>,
)
    requires
        call_ensures(TextMap::<V>::insert, (map, key, value), ()),
        before@ == old(map)@,
        after@ == final(map)@,
        other@ != key@,
        call_ensures(TextMap::<V>::get, (after, key), found),
        call_ensures(TextMap::<V>::get, (after, other), other_found),
        call_ensures(TextMap::<V>::get, (before, other), other_before),
    ensures
        found == Some(&value),
        other_found == other_before,
{
}

/// Nothing is found where nothing was put.
pub proof fn law_nothing_is_found_at_first<V>(map: TextMap<V>, key: &str, found: Option<&V>)
    requires
        call_ensures(TextMap::<V>::new, (), map),
        call_ensures(TextMap::<V>::get, (&map, key), found),
    ensures
        found is None,
{
}

} // verus!
