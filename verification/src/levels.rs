//! Levels by name: the enchantments and the runes of an item.

use vstd::prelude::*;

verus! {

/// One name with its level.
pub type Level = (Seq<char>, i32);

/// A map from names to levels that remembers the order in which its names came.
#[derive(Debug)]
pub struct LevelMap {
    entries: Vec<(String, i32)>,
}

/// The first of `entries` whose name is `name`, or `entries.len()` where none is.
pub open spec fn position(entries: Seq<Level>, name: Seq<char>) -> int
    decreases entries.len(),
{
    if entries.len() == 0 || entries[0].0 == name {
        0
    } else {
        1 + position(entries.drop_first(), name)
    }
}

/// Whether no name occurs twice in `entries`.
pub open spec fn names_are_distinct(entries: Seq<Level>) -> bool {
    forall|i: int, j: int|
        0 <= i < j < entries.len() ==> (#[trigger] entries[i]).0 != (#[trigger] entries[j]).0
}

/// The map that `entries` spell out.
pub open spec fn levels_of(entries: Seq<Level>) -> Map<Seq<char>, i32> {
    Map::new(
        |name: Seq<char>| exists|i: int| 0 <= i < entries.len() && (#[trigger] entries[i]).0 == name,
        |name: Seq<char>| entries[position(entries, name)].1,
    )
}

proof fn lemma_position(entries: Seq<Level>, name: Seq<char>)
    ensures
        0 <= position(entries, name) <= entries.len(),
        position(entries, name) < entries.len() ==> entries[position(entries, name)].0 == name,
        forall|i: int| 0 <= i < position(entries, name) ==> (#[trigger] entries[i]).0 != name,
    decreases entries.len(),
{
    if entries.len() > 0 && entries[0].0 != name {
        let rest = entries.drop_first();
        lemma_position(rest, name);
        assert forall|i: int| 0 <= i < position(entries, name) implies (#[trigger] entries[i]).0
            != name by {
            if i > 0 {
                assert(rest[i - 1] == entries[i]);
            }
        }
    }
}

/// The position of a name that stands at `k` and nowhere before.
proof fn lemma_position_is(entries: Seq<Level>, name: Seq<char>, k: int)
    requires
        0 <= k <= entries.len(),
        k < entries.len() ==> entries[k].0 == name,
        forall|i: int| 0 <= i < k ==> (#[trigger] entries[i]).0 != name,
    ensures
        position(entries, name) == k,
{
    lemma_position(entries, name);
    let p = position(entries, name);
    if p < k {
        assert(entries[p].0 == name);
    } else if p > k {
        assert(entries[k].0 == name);
    }
}

impl LevelMap {
    /// The names and levels, in order.
    pub closed spec fn entries_view(self) -> Seq<Level> {
        self.entries@.map_values(|entry: (String, i32)| (entry.0@, entry.1))
    }

    #[verifier::type_invariant]
    spec fn inv(self) -> bool {
        names_are_distinct(self.entries_view())
    }

    /// A map without names.
    pub fn new() -> (map: LevelMap)
        ensures
            map.entries_view() == Seq::<Level>::empty(),
            map@ == Map::<Seq<char>, i32>::empty(),
    {
        let map = LevelMap { entries: Vec::new() };
        assert(map.entries_view() =~= Seq::<Level>::empty());
        assert(map@ =~= Map::<Seq<char>, i32>::empty());
        map
    }

    /// The number of names, none of which occurs twice.
    pub fn len(&self) -> (len: usize)
        ensures
            len == self.entries_view().len(),
            names_are_distinct(self.entries_view()),
            self@.dom().finite(),
            self@.dom().len() == len,
    {
        proof {
            use_type_invariant(self);
            lemma_levels_len(self.entries_view());
        }
        self.entries.len()
    }

    /// The name at `index`.
    pub fn name(&self, index: usize) -> (name: &String)
        requires
            index < self.entries_view().len(),
        ensures
            name@ == self.entries_view()[index as int].0,
    {
        &self.entries[index].0
    }

    /// The level at `index`.
    pub fn level(&self, index: usize) -> (level: i32)
        requires
            index < self.entries_view().len(),
        ensures
            level == self.entries_view()[index as int].1,
    {
        self.entries[index].1
    }

    /// Sets the level of `name`, and gives back the one that it had. A name that is there keeps its
    /// place; a new one comes last.
    pub fn insert(&mut self, name: String, level: i32) -> (replaced: Option<i32>)
        ensures
            final(self)@ == old(self)@.insert(name@, level),
            replaced == (if old(self)@.contains_key(name@) {
                Some(old(self)@[name@])
            } else {
                None
            }),
            final(self).entries_view() == (if old(self)@.contains_key(name@) {
                old(self).entries_view().update(
                    position(old(self).entries_view(), name@),
                    (name@, level),
                )
            } else {
                old(self).entries_view().push((name@, level))
            }),
    {
        proof {
            use_type_invariant(&*self);
        }
        let ghost before = self.entries_view();
        let mut entries: Vec<(String, i32)> = Vec::new();
        std::mem::swap(&mut entries, &mut self.entries);
        let ghost old_entries = entries@;
        let mut index: usize = 0;
        while index < entries.len()
            invariant
                index <= entries.len(),
                entries@ == old_entries,
                before == old_entries.map_values(|entry: (String, i32)| (entry.0@, entry.1)),
                forall|i: int| 0 <= i < index ==> (#[trigger] before[i]).0 != name@,
                names_are_distinct(before),
            ensures
                index < entries.len() ==> before[index as int].0 == name@,
            decreases entries.len() - index,
        {
            assert(before[index as int] == (entries@[index as int].0@, entries@[index as int].1));
            if entries[index].0 == name {
                break ;
            }
            index = index + 1;
        }
        proof {
            lemma_position_is(before, name@, index as int);
        }
        let ghost key = name@;
        let replaced: Option<i32>;
        if index < entries.len() {
            replaced = Some(entries[index].1);
            entries.set(index, (name, level));
            proof {
                assert(before[index as int].0 == key);
                lemma_levels_updated(before, key, level, index as int);
            }
        } else {
            replaced = None;
            entries.push((name, level));
            proof {
                lemma_levels_pushed(before, key, level);
            }
        }
        let ghost after = entries@.map_values(|entry: (String, i32)| (entry.0@, entry.1));
        assert(after =~= if index < before.len() {
            before.update(index as int, (key, level))
        } else {
            before.push((key, level))
        });
        self.entries = entries;
        replaced
    }
}

impl View for LevelMap {
    type V = Map<Seq<char>, i32>;

    open spec fn view(&self) -> Map<Seq<char>, i32> {
        levels_of(self.entries_view())
    }
}

proof fn lemma_levels_updated(entries: Seq<Level>, name: Seq<char>, level: i32, k: int)
    requires
        names_are_distinct(entries),
        0 <= k < entries.len(),
        entries[k].0 == name,
        position(entries, name) == k,
    ensures
        names_are_distinct(entries.update(k, (name, level))),
        levels_of(entries.update(k, (name, level))) == levels_of(entries).insert(name, level),
        levels_of(entries).contains_key(name),
        levels_of(entries)[name] == entries[k].1,
{
    let after = entries.update(k, (name, level));
    assert forall|i: int| 0 <= i < entries.len() implies (#[trigger] after[i]).0 == entries[i].0 by {}
    assert forall|n: Seq<char>|
        levels_of(after).contains_key(n) == levels_of(entries).insert(name, level).contains_key(
            n,
        ) by {
        if levels_of(after).contains_key(n) {
            let i = choose|i: int| 0 <= i < after.len() && (#[trigger] after[i]).0 == n;
            assert(entries[i].0 == n);
        }
        if levels_of(entries).contains_key(n) {
            let i = choose|i: int| 0 <= i < entries.len() && (#[trigger] entries[i]).0 == n;
            assert(after[i].0 == n);
        }
        if n == name {
            assert(after[k].0 == n);
        }
    }
    assert forall|n: Seq<char>| #[trigger] levels_of(after).contains_key(n) implies levels_of(
        after,
    )[n] == levels_of(entries).insert(name, level)[n] by {
        lemma_position(entries, n);
        let p = position(entries, n);
        lemma_position_is(after, n, p);
    }
    assert(levels_of(after) =~= levels_of(entries).insert(name, level));
}

proof fn lemma_levels_pushed(entries: Seq<Level>, name: Seq<char>, level: i32)
    requires
        names_are_distinct(entries),
        position(entries, name) == entries.len(),
    ensures
        names_are_distinct(entries.push((name, level))),
        levels_of(entries.push((name, level))) == levels_of(entries).insert(name, level),
        !levels_of(entries).contains_key(name),
{
    lemma_position(entries, name);
    let after = entries.push((name, level));
    assert forall|n: Seq<char>|
        levels_of(after).contains_key(n) == levels_of(entries).insert(name, level).contains_key(
            n,
        ) by {
        if levels_of(after).contains_key(n) {
            let i = choose|i: int| 0 <= i < after.len() && (#[trigger] after[i]).0 == n;
            if i < entries.len() {
                assert(entries[i].0 == n);
            }
        }
        if levels_of(entries).contains_key(n) {
            let i = choose|i: int| 0 <= i < entries.len() && (#[trigger] entries[i]).0 == n;
            assert(after[i].0 == n);
        }
        if n == name {
            assert(after[entries.len() as int].0 == n);
        }
    }
    assert forall|n: Seq<char>| #[trigger] levels_of(after).contains_key(n) implies levels_of(
        after,
    )[n] == levels_of(entries).insert(name, level)[n] by {
        lemma_position(entries, n);
        let p = position(entries, n);
        assert forall|i: int| 0 <= i < p implies (#[trigger] after[i]).0 != n by {
            assert(after[i] == entries[i]);
        }
        if p < entries.len() {
            lemma_position_is(after, n, p);
        } else {
            assert(n == name) by {
                let i = choose|i: int| 0 <= i < after.len() && (#[trigger] after[i]).0 == n;
                if i < entries.len() {
                    assert(entries[i].0 == n);
                }
            }
            lemma_position_is(after, n, p);
        }
    }
    assert(levels_of(after) =~= levels_of(entries).insert(name, level));
}

proof fn lemma_levels_len(entries: Seq<Level>)
    requires
        names_are_distinct(entries),
    ensures
        levels_of(entries).dom().finite(),
        levels_of(entries).dom().len() == entries.len(),
{
    let names = entries.map_values(|level: Level| level.0);
    assert(names.no_duplicates());
    names.unique_seq_to_set();
    assert forall|name: Seq<char>|
        levels_of(entries).dom().contains(name) == #[trigger] names.to_set().contains(name) by {
        if levels_of(entries).contains_key(name) {
            let i = choose|i: int| 0 <= i < entries.len() && (#[trigger] entries[i]).0 == name;
            assert(names[i] == name);
        }
        if names.contains(name) {
            let i = choose|i: int| 0 <= i < names.len() && names[i] == name;
            assert(entries[i].0 == name);
        }
    }
    assert(levels_of(entries).dom() =~= names.to_set());
}

/// A map has exactly the names that its entries have, each with the level that stands beside it.
pub proof fn levels_are_those_of_the_entries(entries: Seq<Level>, i: int, name: Seq<char>)
    requires
        forall|j: int, k: int|
            0 <= j < k < entries.len() ==> (#[trigger] entries[j]).0 != (#[trigger] entries[k]).0,
        0 <= i < entries.len(),
    ensures
        levels_of(entries).contains_key(entries[i].0),
        levels_of(entries)[entries[i].0] == entries[i].1,
        (forall|k: int| 0 <= k < entries.len() ==> (#[trigger] entries[k]).0 != name)
            ==> !levels_of(entries).contains_key(name),
{
    lemma_position_is(entries, entries[i].0, i);
}

/// The position of a name is where it stands first, and behind the last entry where it does not
/// stand at all.
pub proof fn position_is_that_of_the_name(entries: Seq<Level>, name: Seq<char>)
    ensures
        0 <= position(entries, name) <= entries.len(),
        position(entries, name) < entries.len() ==> entries[position(entries, name)].0 == name,
        forall|i: int| 0 <= i < position(entries, name) ==> (#[trigger] entries[i]).0 != name,
{
    lemma_position(entries, name);
}

} // verus!
