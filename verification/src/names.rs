//! `NameMap`: values kept by name.

use vstd::prelude::*;

use crate::text;

verus! {

/// Values kept by name, at most one for each name.
#[derive(Debug, Clone)]
pub struct NameMap<V> {
    entries: Vec<(String, V)>,
}

/// What a list of entries says of each name: the first entry with the name counts.
pub closed spec fn contents<V: View>(entries: Seq<(String, V)>) -> Map<Seq<char>, V::V>
    decreases entries.len(),
{
    if entries.len() == 0 {
        Map::empty()
    } else {
        contents(entries.drop_first()).insert(entries[0].0@, entries[0].1@)
    }
}

impl<V: View> View for NameMap<V> {
    type V = Map<Seq<char>, V::V>;

    closed spec fn view(&self) -> Map<Seq<char>, V::V> {
        contents(self.entries@)
    }
}

/// The entry at `i`, if no earlier one has its name.
proof fn entry_counts<V: View>(entries: Seq<(String, V)>, i: int)
    requires
        0 <= i < entries.len(),
        forall|j: int| 0 <= j < i ==> (#[trigger] entries[j]).0@ != entries[i].0@,
    ensures
        contents(entries).dom().contains(entries[i].0@),
        contents(entries)[entries[i].0@] == entries[i].1@,
    decreases i,
{
    if i > 0 {
        let rest = entries.drop_first();
        assert forall|j: int| 0 <= j < i - 1 implies (#[trigger] rest[j]).0@ != rest[i - 1].0@ by {
            assert(entries[j + 1].0@ != entries[i].0@);
        }
        entry_counts(rest, i - 1);
        assert(entries[0].0@ != entries[i].0@);
        assert(rest[i - 1] == entries[i]);
    }
}

/// A name that no entry has.
proof fn name_is_absent<V: View>(entries: Seq<(String, V)>, name: Seq<char>)
    requires
        forall|j: int| 0 <= j < entries.len() ==> (#[trigger] entries[j]).0@ != name,
    ensures
        !contents(entries).dom().contains(name),
    decreases entries.len(),
{
    if entries.len() > 0 {
        let rest = entries.drop_first();
        assert forall|j: int| 0 <= j < rest.len() implies (#[trigger] rest[j]).0@ != name by {
            assert(entries[j + 1].0@ != name);
        }
        name_is_absent(rest, name);
        assert(entries[0].0@ != name);
    }
}

/// A new first entry shadows the others with its name, so the contents after one at `i` are the
/// same whether it is replaced there or put in front.
proof fn replacing_inserts<V: View>(entries: Seq<(String, V)>, i: int, entry: (String, V))
    requires
        0 <= i < entries.len(),
        entries[i].0@ == entry.0@,
        forall|j: int| 0 <= j < i ==> (#[trigger] entries[j]).0@ != entry.0@,
    ensures
        contents(entries.update(i, entry)) == contents(entries).insert(entry.0@, entry.1@),
    decreases i,
{
    let new = entries.update(i, entry);
    let rest = entries.drop_first();
    if i == 0 {
        assert(new.drop_first() =~= rest);
        assert(contents(new) =~= contents(entries).insert(entry.0@, entry.1@));
    } else {
        assert(entries[0].0@ != entry.0@);
        assert forall|j: int| 0 <= j < i - 1 implies (#[trigger] rest[j]).0@ != entry.0@ by {
            assert(entries[j + 1].0@ != entry.0@);
        }
        replacing_inserts(rest, i - 1, entry);
        assert(new.drop_first() =~= rest.update(i - 1, entry));
        assert(contents(new) =~= contents(entries).insert(entry.0@, entry.1@));
    }
}

proof fn pushing_inserts<V: View>(entries: Seq<(String, V)>, entry: (String, V))
    requires
        forall|j: int| 0 <= j < entries.len() ==> (#[trigger] entries[j]).0@ != entry.0@,
    ensures
        contents(entries.push(entry)) == contents(entries).insert(entry.0@, entry.1@),
    decreases entries.len(),
{
    let new = entries.push(entry);
    if entries.len() == 0 {
        assert(new.drop_first() =~= entries);
    } else {
        let rest = entries.drop_first();
        assert forall|j: int| 0 <= j < rest.len() implies (#[trigger] rest[j]).0@ != entry.0@ by {
            assert(entries[j + 1].0@ != entry.0@);
        }
        pushing_inserts(rest, entry);
        assert(new.drop_first() =~= rest.push(entry));
        assert(entries[0].0@ != entry.0@);
    }
    assert(contents(new) =~= contents(entries).insert(entry.0@, entry.1@));
}

/// What one more entry at the end adds.
proof fn last_entry<V: View>(entries: Seq<(String, V)>, entry: (String, V))
    ensures
        contents(entries.push(entry)) == (if contents(entries).dom().contains(entry.0@) {
            contents(entries)
        } else {
            contents(entries).insert(entry.0@, entry.1@)
        }),
    decreases entries.len(),
{
    let new = entries.push(entry);
    if entries.len() == 0 {
        assert(new.drop_first() =~= entries);
    } else {
        let rest = entries.drop_first();
        last_entry(rest, entry);
        assert(new.drop_first() =~= rest.push(entry));
    }
    assert(contents(new) =~= (if contents(entries).dom().contains(entry.0@) {
        contents(entries)
    } else {
        contents(entries).insert(entry.0@, entry.1@)
    }));
}

impl<V: View> NameMap<V> {
    /// A map without names.
    #[must_use]
    pub fn new() -> (r: Self)
        ensures
            r@ == Map::<Seq<char>, V::V>::empty(),
    {
        NameMap { entries: Vec::new() }
    }

    /// Whether the map has no names.
    #[must_use]
    pub fn is_empty(&self) -> (r: bool)
        ensures
            r == (self@ == Map::<Seq<char>, V::V>::empty()),
    {
        proof {
            if self.entries@.len() > 0 {
                entry_counts(self.entries@, 0);
                assert(self@.dom().contains(self.entries@[0].0@));
            }
        }
        self.entries.len() == 0
    }

    /// The place of the first entry with a name, or the number of entries.
    fn find(&self, name: &str) -> (r: usize)
        ensures
            r <= self.entries@.len(),
            forall|j: int| 0 <= j < r ==> (#[trigger] self.entries@[j]).0@ != name@,
            r < self.entries@.len() ==> self.entries@[r as int].0@ == name@,
    {
        let mut i: usize = 0;
        while i < self.entries.len()
            invariant
                i <= self.entries.len(),
                forall|j: int| 0 <= j < i ==> (#[trigger] self.entries@[j]).0@ != name@,
            decreases self.entries.len() - i,
        {
            if text::same(self.entries[i].0.as_str(), name) {
                return i;
            }
            i += 1;
        }
        i
    }

    /// The value kept by a name.
    #[must_use]
    pub fn get(&self, name: &str) -> (r: Option<&V>)
        ensures
            match r {
                Some(v) => self@.dom().contains(name@) && self@[name@] == v@,
                None => !self@.dom().contains(name@),
            },
    {
        let i: usize = self.find(name);
        if i < self.entries.len() {
            proof {
                entry_counts(self.entries@, i as int);
            }
            Some(&self.entries[i].1)
        } else {
            proof {
                name_is_absent(self.entries@, name@);
            }
            None
        }
    }

    /// Keeps `value` by `name`, in place of what was kept by it.
    pub fn insert(&mut self, name: String, value: V)
        ensures
            final(self)@ == old(self)@.insert(name@, value@),
    {
        let i: usize = self.find(name.as_str());
        let ghost before = self.entries@;
        if i < self.entries.len() {
            proof {
                replacing_inserts(before, i as int, (name, value));
            }
            self.entries.set(i, (name, value));
        } else {
            proof {
                pushing_inserts(before, (name, value));
            }
            self.entries.push((name, value));
        }
    }

    /// Drops what is kept by `name`.
    pub fn remove(&mut self, name: &str)
        ensures
            final(self)@ == old(self)@.remove(name@),
    {
        let ghost before = self.entries@;
        let mut kept: Vec<(String, V)> = Vec::new();
        let mut all: Vec<(String, V)> = Vec::new();
        std::mem::swap(&mut self.entries, &mut all);
        while all.len() > 0
            invariant
                all@.len() <= before.len(),
                all@ == before.skip(before.len() - all@.len()),
                contents(kept@) == contents(before.take(before.len() - all@.len())).remove(name@),
            decreases all.len(),
        {
            let ghost n = before.len() - all@.len();
            let entry: (String, V) = all.remove(0);
            proof {
                assert(entry == before[n]);
                assert(all@ =~= before.skip(n + 1));
                assert(before.take(n + 1) =~= before.take(n).push(entry));
                last_entry(before.take(n), entry);
                last_entry(kept@, entry);
            }
            if !text::same(entry.0.as_str(), name) {
                kept.push(entry);
            }
            proof {
                assert(contents(kept@) =~= contents(before.take(n + 1)).remove(name@));
            }
        }
        assert(before.take(before.len() as int) =~= before);
        self.entries = kept;
    }

    /// The names that values are kept by.
    #[must_use]
    pub fn names(&self) -> (r: Vec<String>)
        ensures
            forall|name: Seq<char>|
                #[trigger] text::views(r@).contains(name) <==> self@.dom().contains(name),
    {
        let ghost all = self.entries@;
        let mut r: Vec<String> = Vec::new();
        let mut i: usize = 0;
        while i < self.entries.len()
            invariant
                all == self.entries@,
                i <= self.entries.len(),
                r.len() == i,
                forall|j: int| 0 <= j < i ==> (#[trigger] text::views(r@)[j]) == all[j].0@,
            decreases self.entries.len() - i,
        {
            let ghost before = text::views(r@);
            r.push(self.entries[i].0.clone());
            assert(text::views(r@) =~= before.push(all[i as int].0@));
            i += 1;
        }
        proof {
            let list = text::views(r@);
            assert forall|name: Seq<char>| #[trigger]
                list.contains(name) implies self@.dom().contains(name) by {
                let j = choose|j: int| 0 <= j < list.len() && list[j] == name;
                entry_known(all, j);
            }
            assert forall|name: Seq<char>|
                self@.dom().contains(name) implies #[trigger] list.contains(name) by {
                if !list.contains(name) {
                    assert forall|j: int| 0 <= j < all.len() implies (#[trigger] all[j]).0@
                        != name by {
                        assert(list[j] == all[j].0@);
                    }
                    name_is_absent(all, name);
                }
            }
        }
        r
    }
}

proof fn entry_known<V: View>(entries: Seq<(String, V)>, i: int)
    requires
        0 <= i < entries.len(),
    ensures
        contents(entries).dom().contains(entries[i].0@),
    decreases i,
{
    if i > 0 {
        entry_known(entries.drop_first(), i - 1);
    }
}

impl<V: View> Default for NameMap<V> {
    fn default() -> (r: Self)
        ensures
            r@ == Map::<Seq<char>, V::V>::empty(),
    {
        NameMap::new()
    }
}

} // verus!
