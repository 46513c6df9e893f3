//! A map from names to values that remembers the order in which the names
//! came in.
use vstd::prelude::*;
use crate::text;

verus! {

/// No name occurs twice among `items`.
pub open spec fn distinct_names<V>(items: Seq<(Seq<char>, V)>) -> bool {
    forall|i: int, j: int|
        0 <= i < j < items.len() ==> (#[trigger] items[i]).0 != (#[trigger] items[j]).0
}

/// Whether `name` occurs among `items`.
pub open spec fn has_name<V>(items: Seq<(Seq<char>, V)>, name: Seq<char>) -> bool {
    exists|i: int| 0 <= i < items.len() && (#[trigger] items[i]).0 == name
}

/// Where `name` stands among `items`.
pub open spec fn index_of_name<V>(items: Seq<(Seq<char>, V)>, name: Seq<char>) -> int {
    choose|i: int| 0 <= i < items.len() && (#[trigger] items[i]).0 == name
}

/// The value that `items` give each name.
pub open spec fn map_of<V>(items: Seq<(Seq<char>, V)>) -> Map<Seq<char>, V> {
    Map::new(
        |name: Seq<char>| has_name(items, name),
        |name: Seq<char>| items[index_of_name(items, name)].1,
    )
}

/// The items whose name is one of `names`, in order.
pub open spec fn kept<V>(items: Seq<(Seq<char>, V)>, names: Seq<Seq<char>>) -> Seq<(Seq<char>, V)>
    decreases items.len(),
{
    if items.len() == 0 {
        Seq::empty()
    } else {
        let front = kept(items.drop_last(), names);
        if names.contains(items.last().0) {
            front.push(items.last())
        } else {
            front
        }
    }
}

/// What is kept is among the items, and its name among the names.
pub proof fn lemma_kept<V>(items: Seq<(Seq<char>, V)>, names: Seq<Seq<char>>)
    ensures
        forall|i: int|
            0 <= i < kept(items, names).len() ==> items.contains(#[trigger] kept(items, names)[i])
                && names.contains(kept(items, names)[i].0),
    decreases items.len(),
{
    if items.len() > 0 {
        lemma_kept(items.drop_last(), names);
        let k = kept(items, names);
        assert forall|i: int| 0 <= i < k.len() implies items.contains(#[trigger] k[i])
            && names.contains(k[i].0) by {
            let front = kept(items.drop_last(), names);
            if i < front.len() {
                assert(k[i] == front[i]);
                let j = choose|j: int|
                    0 <= j < items.drop_last().len() && items.drop_last()[j] == front[i];
                assert(items[j] == k[i]);
            } else {
                assert(items[items.len() - 1] == k[i]);
            }
        }
    }
}

/// Retaining names loses no item whose name is among them.
pub proof fn law_named_items_are_kept<V>(items: Seq<(Seq<char>, V)>, names: Seq<Seq<char>>, i: int)
    requires
        0 <= i < items.len(),
        names.contains(items[i].0),
    ensures
        kept(items, names).contains(items[i]),
    decreases items.len(),
{
    let front = kept(items.drop_last(), names);
    if i < items.len() - 1 {
        law_named_items_are_kept(items.drop_last(), names, i);
        let j = choose|j: int| 0 <= j < front.len() && front[j] == items[i];
        assert(kept(items, names)[j] == items[i]);
    } else {
        assert(kept(items, names)[front.len() as int] == items[i]);
    }
}

/// Names, each with a value; no name occurs twice.
#[derive(Debug)]
#[verifier::reject_recursive_types(V)]
pub struct NameMap<V> {
    entries: Vec<(String, V)>,
}

impl<V> View for NameMap<V> {
    type V = Map<Seq<char>, V>;

    open spec fn view(&self) -> Map<Seq<char>, V> {
        map_of(self.items())
    }
}

impl<V> NameMap<V> {
    /// The names and their values, in the order in which the names came in.
    pub closed spec fn items(&self) -> Seq<(Seq<char>, V)> {
        Seq::new(self.entries@.len(), |i: int| (self.entries@[i].0@, self.entries@[i].1))
    }

    #[verifier::type_invariant]
    spec fn unique(self) -> bool {
        distinct_names(self.items())
    }

    /// Replaces the value of the name that came in `i`-th.
    pub fn set_value_at(&mut self, i: usize, value: V)
        requires
            i < old(self).items().len(),
        ensures
            final(self).items() == old(self).items().update(
                i as int,
                (old(self).items()[i as int].0, value),
            ),
    {
        proof {
            use_type_invariant(&*self);
        }
        let ghost before = self.items();
        let mut entries: Vec<(String, V)> = Vec::new();
        std::mem::swap(&mut entries, &mut self.entries);
        let name: String = entries[i].0.clone();
        entries.set(i, (name, value));
        let ghost after = Seq::new(entries@.len(), |k: int| (entries@[k].0@, entries@[k].1));
        assert(after == before.update(i as int, (before[i as int].0, value)));
        self.entries = entries;
        assert(self.items() == after);
    }

    pub fn new() -> (r: Self)
        ensures
            r.items() == Seq::<(Seq<char>, V)>::empty(),
            r@ == Map::<Seq<char>, V>::empty(),
    {
        let r = NameMap { entries: Vec::new() };
        assert(r.items() == Seq::<(Seq<char>, V)>::empty());
        assert(r@ =~= Map::<Seq<char>, V>::empty());
        r
    }

    pub fn len(&self) -> (r: usize)
        ensures
            r == self.items().len(),
            distinct_names(self.items()),
    {
        proof {
            use_type_invariant(self);
        }
        self.entries.len()
    }

    /// The name that came in `i`-th.
    pub fn name_at(&self, i: usize) -> (r: &String)
        requires
            i < self.items().len(),
        ensures
            r@ == self.items()[i as int].0,
    {
        &self.entries[i].0
    }

    /// The value of the name that came in `i`-th.
    pub fn value_at(&self, i: usize) -> (r: &V)
        requires
            i < self.items().len(),
        ensures
            *r == self.items()[i as int].1,
            self@.contains_key(self.items()[i as int].0),
            self@[self.items()[i as int].0] == *r,
    {
        proof {
            use_type_invariant(self);
            assert(has_name(self.items(), self.items()[i as int].0));
        }
        &self.entries[i].1
    }

    fn find(&self, name: &str) -> (r: Option<usize>)
        ensures
            r matches Some(i) ==> i < self.entries@.len() && self.items()[i as int].0 == name@
                && has_name(self.items(), name@) && index_of_name(self.items(), name@) == i,
            r is None ==> !has_name(self.items(), name@),
    {
        proof {
            use_type_invariant(self);
        }
        let mut i: usize = 0;
        while i < self.entries.len()
            invariant
                i <= self.entries.len(),
                distinct_names(self.items()),
                forall|k: int| 0 <= k < i ==> (#[trigger] self.items()[k]).0 != name@,
            decreases self.entries.len() - i,
        {
            assert(self.items()[i as int].0 == self.entries@[i as int].0@);
            if text::same(self.entries[i].0.as_str(), name) {
                return Some(i);
            }
            i = i + 1;
        }
        None
    }

    /// Where a name stands.
    pub fn position(&self, name: &str) -> (r: Option<usize>)
        ensures
            r matches Some(i) ==> i < self.items().len() && has_name(self.items(), name@)
                && index_of_name(self.items(), name@) == i,
            r is None ==> !has_name(self.items(), name@),
    {
        self.find(name)
    }

    pub fn get(&self, name: &str) -> (r: Option<&V>)
        ensures
            r matches Some(v) ==> self@.contains_key(name@) && self@[name@] == *v,
            r is None ==> !self@.contains_key(name@),
    {
        match self.find(name) {
            Some(i) => Some(&self.entries[i].1),
            None => None,
        }
    }

    pub fn contains_key(&self, name: &str) -> (r: bool)
        ensures
            r == self@.contains_key(name@),
    {
        self.find(name).is_some()
    }

    /// Gives `name` the value `value`. A new name goes to the end, one that
    /// is there already keeps its place.
    pub fn insert(&mut self, name: String, value: V)
        ensures
            final(self)@ == old(self)@.insert(name@, value),
            has_name(old(self).items(), name@) ==> final(self).items() == old(self).items().update(
                index_of_name(old(self).items(), name@),
                (name@, value),
            ),
            !has_name(old(self).items(), name@) ==> final(self).items() == old(self).items().push(
                (name@, value),
            ),
    {
        proof {
            use_type_invariant(&*self);
        }
        let ghost before = self.items();
        let ghost key = name@;
        let at: Option<usize> = self.find(name.as_str());
        let mut entries: Vec<(String, V)> = Vec::new();
        std::mem::swap(&mut entries, &mut self.entries);
        match at {
            Some(i) => {
                entries.set(i, (name, value));
                let ghost after = Seq::new(
                    entries@.len(),
                    |k: int| (entries@[k].0@, entries@[k].1),
                );
                assert(after == before.update(i as int, (key, value)));
                self.entries = entries;
                assert(self.items() == after);
                assert(self.items()[i as int].0 == key);
                assert forall|n: Seq<char>| has_name(before, n) || n == key implies has_name(
                    self.items(),
                    n,
                ) by {
                    if n != key {
                        let k = index_of_name(before, n);
                        assert(self.items()[k].0 == n);
                    }
                }
                assert forall|n: Seq<char>| has_name(self.items(), n) && n != key implies has_name(
                    before,
                    n,
                ) && index_of_name(before, n) == index_of_name(self.items(), n) by {
                    let k = index_of_name(self.items(), n);
                    assert(before[k].0 == n);
                }
                assert(index_of_name(self.items(), key) == i);
            },
            None => {
                entries.push((name, value));
                let ghost after = Seq::new(
                    entries@.len(),
                    |k: int| (entries@[k].0@, entries@[k].1),
                );
                assert(after == before.push((key, value)));
                assert(after.last().0 == key);
                self.entries = entries;
                assert(self.items() == after);
                assert forall|n: Seq<char>| has_name(before, n) || n == key implies has_name(
                    self.items(),
                    n,
                ) by {
                    if n != key {
                        let k = index_of_name(before, n);
                        assert(self.items()[k].0 == n);
                    } else {
                        assert(self.items()[before.len() as int].0 == key);
                    }
                }
                assert forall|n: Seq<char>| has_name(self.items(), n) && n != key implies has_name(
                    before,
                    n,
                ) && index_of_name(before, n) == index_of_name(self.items(), n) by {
                    let k = index_of_name(self.items(), n);
                    assert(before[k].0 == n);
                }
                assert(index_of_name(self.items(), key) == before.len());
            },
        }
        assert(self@ =~= map_of(before).insert(key, value));
    }

    /// Keeps the names that are among `names` and drops the others.
    pub fn retain_names(&mut self, names: &Vec<String>)
        ensures
            final(self).items() == kept(old(self).items(), text::views(names@)),
    {
        proof {
            use_type_invariant(&*self);
        }
        let ghost before = self.items();
        let ghost keep = text::views(names@);
        let mut entries: Vec<(String, V)> = Vec::new();
        std::mem::swap(&mut entries, &mut self.entries);
        let mut out: Vec<(String, V)> = Vec::new();
        let ghost mut done: int = 0;
        assert(before.take(0) == Seq::<(Seq<char>, V)>::empty());
        assert(pairs(entries@) == before.skip(0));
        while entries.len() > 0
            invariant
                0 <= done <= before.len(),
                pairs(entries@) == before.skip(done),
                pairs(out@) == kept(before.take(done), keep),
                keep == text::views(names@),
            decreases entries.len(),
        {
            let ghost rest = entries@;
            proof {
                assert(pairs(rest).len() == before.len() - done);
                assert(pairs(rest)[0] == before.skip(done)[0]);
            }
            let e: (String, V) = entries.remove(0);
            proof {
                assert(before[done] == (e.0@, e.1));
                assert forall|k: int| 0 <= k < entries@.len() implies pairs(entries@)[k]
                    == before.skip(done + 1)[k] by {
                    assert(pairs(rest)[k + 1] == before.skip(done)[k + 1]);
                }
                assert(before.take(done + 1).drop_last() == before.take(done));
                assert(pairs(entries@) == before.skip(done + 1));
            }
            if text::member(names, e.0.as_str()) {
                let ghost front = pairs(out@);
                out.push(e);
                assert(pairs(out@) == front.push(before[done]));
            }
            proof {
                done = done + 1;
            }
        }
        proof {
            assert(before.take(done) == before);
            assert(distinct_names(pairs(out@))) by {
                lemma_kept_distinct(before, keep);
            }
        }
        self.entries = out;
        assert(self.items() == pairs(out@));
    }

    /// Removes `name`, where it is there.
    pub fn remove(&mut self, name: &str)
        ensures
            final(self)@ == old(self)@.remove(name@),
            has_name(old(self).items(), name@) ==> final(self).items() == old(self).items().remove(
                index_of_name(old(self).items(), name@),
            ),
            !has_name(old(self).items(), name@) ==> final(self).items() == old(self).items(),
    {
        proof {
            use_type_invariant(&*self);
        }
        let ghost before = self.items();
        let at: Option<usize> = self.find(name);
        match at {
            Some(i) => {
                let mut entries: Vec<(String, V)> = Vec::new();
                std::mem::swap(&mut entries, &mut self.entries);
                entries.remove(i);
                let ghost after = Seq::new(
                    entries@.len(),
                    |k: int| (entries@[k].0@, entries@[k].1),
                );
                assert(after == before.remove(i as int));
                self.entries = entries;
                assert(self.items() == after);
                assert forall|n: Seq<char>| has_name(before, n) && n != name@ implies has_name(
                    self.items(),
                    n,
                ) by {
                    let k = index_of_name(before, n);
                    assert(self.items()[if k < i {
                        k
                    } else {
                        k - 1
                    }].0 == n);
                }
                assert forall|n: Seq<char>| has_name(self.items(), n) implies n != name@
                    && has_name(before, n) && index_of_name(before, n) == (if index_of_name(
                    self.items(),
                    n,
                ) < i {
                    index_of_name(self.items(), n)
                } else {
                    index_of_name(self.items(), n) + 1
                }) by {
                    let k = index_of_name(self.items(), n);
                    let b = if k < i {
                        k
                    } else {
                        k + 1
                    };
                    assert(before[b] == self.items()[k]);
                    assert(before[b].0 == n);
                }
            },
            None => {},
        }
        assert(self@ =~= map_of(before).remove(name@));
    }
}

/// Names and values as pairs of plain values.
spec fn pairs<V>(entries: Seq<(String, V)>) -> Seq<(Seq<char>, V)> {
    Seq::new(entries.len(), |i: int| (entries[i].0@, entries[i].1))
}

proof fn lemma_kept_distinct<V>(items: Seq<(Seq<char>, V)>, names: Seq<Seq<char>>)
    requires
        distinct_names(items),
    ensures
        distinct_names(kept(items, names)),
    decreases items.len(),
{
    if items.len() > 0 {
        let front = kept(items.drop_last(), names);
        lemma_kept_distinct(items.drop_last(), names);
        lemma_kept(items.drop_last(), names);
        assert forall|i: int, j: int| 0 <= i < j < kept(items, names).len() implies (
        #[trigger] kept(items, names)[i]).0 != (#[trigger] kept(items, names)[j]).0 by {
            if j == front.len() {
                assert(kept(items, names)[i] == front[i]);
                let k = choose|k: int|
                    0 <= k < items.drop_last().len() && items.drop_last()[k] == front[i];
                assert(items[k].0 != items[items.len() - 1].0);
            }
        }
    }
}

impl<V: Copy> Clone for NameMap<V> {
    fn clone(&self) -> (r: Self)
        ensures
            r.items() == self.items(),
    {
        proof {
            use_type_invariant(self);
        }
        let mut entries: Vec<(String, V)> = Vec::new();
        let mut i: usize = 0;
        while i < self.entries.len()
            invariant
                i <= self.entries.len(),
                Seq::new(entries@.len(), |k: int| (entries@[k].0@, entries@[k].1))
                    == self.items().take(i as int),
            decreases self.entries.len() - i,
        {
            let ghost before = Seq::new(
                entries@.len(),
                |k: int| (entries@[k].0@, entries@[k].1),
            );
            entries.push((self.entries[i].0.clone(), self.entries[i].1));
            assert(Seq::new(entries@.len(), |k: int| (entries@[k].0@, entries@[k].1))
                == before.push(self.items()[i as int]));
            assert(self.items().take(i + 1) == self.items().take(i as int).push(
                self.items()[i as int],
            ));
            i = i + 1;
        }
        assert(self.items().take(i as int) == self.items());
        NameMap { entries }
    }
}

/// The items that are kept are exactly those with one of the names, in their
/// order.
pub proof fn law_kept_items_are_the_named_ones<V>(
    items: Seq<(Seq<char>, V)>,
    names: Seq<Seq<char>>,
) -> (at: Seq<int>)
    ensures
        crate::search::positions(at, items.len()),
        kept(items, names).len() == at.len(),
        forall|i: int|
            0 <= i < at.len() ==> names.contains(items[#[trigger] at[i]].0) && kept(items, names)[i]
                == items[at[i]],
        forall|i: int|
            0 <= i < items.len() && names.contains((#[trigger] items[i]).0) ==> at.contains(i),
    decreases items.len(),
{
    if items.len() == 0 {
        Seq::empty()
    } else {
        let n = (items.len() - 1) as nat;
        let before = items.drop_last();
        let front = law_kept_items_are_the_named_ones(before, names);
        crate::search::lemma_next_position(front, n);
        assert forall|i: int| 0 <= i < n implies before[i] == #[trigger] items[i] by {}
        if names.contains(items.last().0) {
            front.push(n as int)
        } else {
            front
        }
    }
}

/// Where no name occurs twice, the map has each item's value under its name,
/// and no other names.
pub proof fn law_map_holds_the_items<V>(items: Seq<(Seq<char>, V)>, i: int, name: Seq<char>)
    requires
        distinct_names(items),
        0 <= i < items.len(),
    ensures
        map_of(items).contains_key(items[i].0),
        map_of(items)[items[i].0] == items[i].1,
        (forall|k: int| 0 <= k < items.len() ==> (#[trigger] items[k]).0 != name)
            ==> !map_of(items).contains_key(name),
{
    let k = index_of_name(items, items[i].0);
    assert(0 <= k < items.len() && items[k].0 == items[i].0);
    if k < i {
        assert(items[k].0 != items[i].0);
    } else if i < k {
        assert(items[i].0 != items[k].0);
    }
}

} // verus!
