//! A map by name.
use vstd::prelude::*;
use crate::task::same_text;

verus! {

/// A map whose keys are texts. A key that is put again is put last.
pub struct TextMap<V> {
    pub entries: Vec<(String, V)>,
}

/// The map a list of entries stands for: the last entry of a key is the one
/// that counts.
pub open spec fn map_of<V>(entries: Seq<(String, V)>) -> Map<Seq<char>, V>
    decreases entries.len(),
{
    if entries.len() == 0 {
        Map::empty()
    } else {
        map_of(entries.drop_last()).insert(entries.last().0@, entries.last().1)
    }
}

impl<V> View for TextMap<V> {
    type V = Map<Seq<char>, V>;

    open spec fn view(&self) -> Map<Seq<char>, V> {
        map_of(self.entries@)
    }
}

/// An entry of a key makes no difference to the other keys.
proof fn lemma_without<V>(entries: Seq<(String, V)>, at: int)
    requires
        0 <= at < entries.len(),
    ensures
        map_of(entries.remove(at)).remove(entries[at].0@) == map_of(entries).remove(
            entries[at].0@,
        ),
    decreases entries.len(),
{
    let key = entries[at].0@;
    if at == entries.len() - 1 {
        assert(entries.remove(at) =~= entries.drop_last());
        assert(map_of(entries.drop_last()).remove(key) =~= map_of(entries).remove(key));
    } else {
        let shorter = entries.drop_last();
        lemma_without(shorter, at);
        assert(entries.remove(at).drop_last() =~= shorter.remove(at));
        assert(entries.remove(at).last() == entries.last());
        let last = entries.last();
        assert(map_of(entries.remove(at)) == map_of(shorter.remove(at)).insert(last.0@, last.1));
        if last.0@ == key {
            assert(map_of(entries.remove(at)).remove(key) =~= map_of(shorter.remove(at)).remove(
                key,
            ));
            assert(map_of(entries).remove(key) =~= map_of(shorter).remove(key));
        } else {
            assert(map_of(entries.remove(at)).remove(key) =~= map_of(shorter.remove(at)).remove(
                key,
            ).insert(last.0@, last.1));
            assert(map_of(entries).remove(key) =~= map_of(shorter).remove(key).insert(
                last.0@,
                last.1,
            ));
        }
    }
}

/// A key no entry has is not in the map.
proof fn lemma_absent<V>(entries: Seq<(String, V)>, key: Seq<char>)
    requires
        forall|i: int| 0 <= i < entries.len() ==> (#[trigger] entries[i]).0@ != key,
    ensures
        !map_of(entries).contains_key(key),
    decreases entries.len(),
{
    if entries.len() > 0 {
        assert(entries.last() == entries[entries.len() - 1]);
        assert forall|i: int| 0 <= i < entries.drop_last().len() implies (
        #[trigger] entries.drop_last()[i]).0@ != key by {
            assert(entries.drop_last()[i] == entries[i]);
        }
        lemma_absent(entries.drop_last(), key);
    }
}

/// The last entry of a key is what the map has for it.
proof fn lemma_last<V>(entries: Seq<(String, V)>, at: int)
    requires
        0 <= at < entries.len(),
        forall|i: int| at < i < entries.len() ==> (#[trigger] entries[i]).0@ != entries[at].0@,
    ensures
        map_of(entries).contains_key(entries[at].0@),
        map_of(entries)[entries[at].0@] == entries[at].1,
    decreases entries.len(),
{
    if at < entries.len() - 1 {
        assert(entries.last() == entries[entries.len() - 1]);
        assert forall|i: int| at < i < entries.drop_last().len() implies (
        #[trigger] entries.drop_last()[i]).0@ != entries[at].0@ by {
            assert(entries.drop_last()[i] == entries[i]);
        }
        lemma_last(entries.drop_last(), at);
    }
}

/// What is put in the place of the last entry of a key is what the map has for it.
proof fn lemma_update<V>(entries: Seq<(String, V)>, at: int)
    requires
        0 <= at < entries.len(),
        forall|i: int| at < i < entries.len() ==> (#[trigger] entries[i]).0@ != entries[at].0@,
    ensures
        forall|entry: (String, V)|
            entry.0@ == entries[at].0@ ==> map_of(#[trigger] entries.update(at, entry)) == map_of(
                entries,
            ).insert(entry.0@, entry.1),
    decreases entries.len(),
{
    let key = entries[at].0@;
    let shorter = entries.drop_last();
    assert forall|entry: (String, V)| entry.0@ == key implies map_of(
        #[trigger] entries.update(at, entry),
    ) == map_of(entries).insert(entry.0@, entry.1) by {
        let changed = entries.update(at, entry);
        if at == entries.len() - 1 {
            assert(changed.drop_last() =~= shorter);
            assert(map_of(changed) =~= map_of(entries).insert(key, entry.1));
        } else {
            assert forall|i: int| at < i < shorter.len() implies (#[trigger] shorter[i]).0@
                != shorter[at].0@ by {
                assert(shorter[i] == entries[i]);
            }
            lemma_update(shorter, at);
            assert(changed.drop_last() =~= shorter.update(at, entry));
            assert(entries.last() == entries[entries.len() - 1]);
            assert(map_of(changed) =~= map_of(entries).insert(key, entry.1));
        }
    }
}

impl<V> TextMap<V> {
    /// A map with nothing in it.
    pub fn new() -> (map: Self)
        ensures
            map@ == Map::<Seq<char>, V>::empty(),
    {
        TextMap { entries: Vec::new() }
    }

    /// What the map has for a key.
    pub fn get(&self, key: &str) -> (value: Option<&V>)
        ensures
            match value {
                Some(v) => self@.contains_key(key@) && *v == self@[key@],
                None => !self@.contains_key(key@),
            },
    {
        let mut i: usize = self.entries.len();
        while i > 0
            invariant
                i <= self.entries@.len(),
                forall|k: int|
                    i <= k < self.entries@.len() ==> (#[trigger] self.entries@[k]).0@ != key@,
            decreases i,
        {
            i -= 1;
            if same_text(self.entries[i].0.as_str(), key) {
                proof {
                    lemma_last(self.entries@, i as int);
                }
                return Some(&self.entries[i].1);
            }
        }
        proof {
            lemma_absent(self.entries@, key@);
        }
        None
    }

    /// What the map has for a key, to be changed.
    pub fn get_mut(&mut self, key: &str) -> (value: Option<&mut V>)
        ensures
            match value {
                Some(v) => {
                    &&& old(self)@.contains_key(key@)
                    &&& *v == old(self)@[key@]
                    &&& final(self)@ == old(self)@.insert(key@, *final(v))
                },
                None => !old(self)@.contains_key(key@) && final(self)@ == old(self)@,
            },
    {
        let mut i: usize = self.entries.len();
        while i > 0
            invariant
                i <= self.entries@.len(),
                self.entries@ == old(self).entries@,
                forall|k: int|
                    i <= k < self.entries@.len() ==> (#[trigger] self.entries@[k]).0@ != key@,
            decreases i,
        {
            i -= 1;
            if same_text(self.entries[i].0.as_str(), key) {
                proof {
                    lemma_last(self.entries@, i as int);
                    lemma_update(self.entries@, i as int);
                }
                return Some(&mut self.entries[i].1);
            }
        }
        proof {
            lemma_absent(self.entries@, key@);
        }
        None
    }

    /// A key is taken out of the map.
    pub fn remove(&mut self, key: &str)
        ensures
            final(self)@ == old(self)@.remove(key@),
    {
        let mut i: usize = 0;
        while i < self.entries.len()
            invariant
                i <= self.entries@.len(),
                map_of(self.entries@).remove(key@) == old(self)@.remove(key@),
                forall|k: int| 0 <= k < i ==> (#[trigger] self.entries@[k]).0@ != key@,
            decreases self.entries@.len() - i,
        {
            if same_text(self.entries[i].0.as_str(), key) {
                let ghost before = self.entries@;
                let _gone = self.entries.remove(i);
                proof {
                    lemma_without(before, i as int);
                    assert(self.entries@ =~= before.remove(i as int));
                }
            } else {
                i += 1;
            }
        }
        proof {
            lemma_absent(self.entries@, key@);
            assert(map_of(self.entries@).remove(key@) =~= map_of(self.entries@));
        }
    }

    /// A key is put into the map.
    pub fn insert(&mut self, key: String, value: V)
        ensures
            final(self)@ == old(self)@.insert(key@, value),
    {
        self.remove(key.as_str());
        let ghost before = self.entries@;
        let ghost text = key@;
        self.entries.push((key, value));
        proof {
            assert(self.entries@.drop_last() =~= before);
            assert(old(self)@.remove(text).insert(text, value) =~= old(self)@.insert(text, value));
        }
    }
}

} // verus!
