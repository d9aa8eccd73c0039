//! Maps from names to values, kept in the order of their names.

use crate::strings::{less_text, same};
use crate::text::{law_text_order, text_less};
use vstd::prelude::*;

verus! {

/// A value that can be copied without changing what it stands for.
pub trait Duplicate: View + Sized {
    fn duplicate(&self) -> (r: Self)
        ensures
            r@ == self@,
    ;
}

impl Duplicate for String {
    fn duplicate(&self) -> (r: Self) {
        self.clone()
    }
}

/// A map from names to values. Each name occurs once, and the entries stand in
/// the order of their names.
pub struct NameMap<V> {
    entries: Vec<(String, V)>,
}

/// A map from names to texts.
pub type StringMap = NameMap<String>;

/// The names of the entries, in order.
pub open spec fn names_of<V>(entries: Seq<(String, V)>) -> Seq<Seq<char>> {
    entries.map_values(|e: (String, V)| e.0@)
}

/// Whether every name stands before those that follow it.
pub open spec fn sorted_names(names: Seq<Seq<char>>) -> bool {
    forall|i: int, j: int| 0 <= i < j < names.len() ==> text_less(#[trigger] names[i], #[trigger] names[j])
}

/// The map that a sequence of entries with distinct names stands for.
pub open spec fn map_of<V: View>(entries: Seq<(String, V)>) -> Map<Seq<char>, V::V> {
    Map::new(
        |k: Seq<char>| names_of(entries).contains(k),
        |k: Seq<char>| entries[names_of(entries).index_of(k)].1@,
    )
}

proof fn lemma_map_of<V: View>(entries: Seq<(String, V)>, i: int)
    requires
        sorted_names(names_of(entries)),
        0 <= i < entries.len(),
    ensures
        map_of(entries).contains_key(entries[i].0@),
        map_of(entries)[entries[i].0@] == entries[i].1@,
{
    let names = names_of(entries);
    let k = entries[i].0@;
    assert(names[i] == k);
    let j = names.index_of(k);
    assert(names[j] == k);
    law_text_order(k, k, k);
    if i < j {
        assert(text_less(names[i], names[j]));
    } else if j < i {
        assert(text_less(names[j], names[i]));
    }
}

impl<V: View> View for NameMap<V> {
    type V = Map<Seq<char>, V::V>;

    closed spec fn view(&self) -> Map<Seq<char>, V::V> {
        map_of(self.entries@)
    }
}

impl<V> NameMap<V> {
    #[verifier::type_invariant]
    spec fn ordered(&self) -> bool {
        sorted_names(names_of(self.entries@))
    }

    /// The names in the map, in order.
    pub closed spec fn names(&self) -> Seq<Seq<char>> {
        names_of(self.entries@)
    }
}

impl<V: View> NameMap<V> {
    /// An empty map.
    pub fn new() -> (r: Self)
        ensures
            r@ == Map::<Seq<char>, V::V>::empty(),
    {
        let entries: Vec<(String, V)> = Vec::new();
        assert(map_of(entries@) =~= Map::<Seq<char>, V::V>::empty());
        NameMap { entries }
    }

    /// The number of entries.
    pub fn len(&self) -> (r: usize)
        ensures
            r == self.names().len(),
    {
        self.entries.len()
    }

    /// Whether the map has no entry.
    pub fn is_empty(&self) -> (r: bool)
        ensures
            r == (self@ == Map::<Seq<char>, V::V>::empty()),
    {
        proof {
            use_type_invariant(self);
            if self.entries@.len() > 0 {
                lemma_map_of(self.entries@, 0);
                assert(self@.contains_key(self.entries@[0].0@));
            } else {
                assert(self@ =~= Map::<Seq<char>, V::V>::empty());
            }
        }
        self.entries.len() == 0
    }

    /// The name at a position.
    pub fn name_at<'a>(&'a self, i: usize) -> (r: &'a str)
        requires
            i < self.names().len(),
        ensures
            r@ == self.names()[i as int],
            self@.contains_key(r@),
    {
        proof {
            use_type_invariant(self);
            lemma_map_of(self.entries@, i as int);
        }
        self.entries[i].0.as_str()
    }

    /// The value at a position.
    pub fn value_at<'a>(&'a self, i: usize) -> (r: &'a V)
        requires
            i < self.names().len(),
        ensures
            r@ == self@[self.names()[i as int]],
    {
        proof {
            use_type_invariant(self);
            lemma_map_of(self.entries@, i as int);
        }
        &self.entries[i].1
    }

    /// The position of a name, or where it would have to stand.
    fn find(&self, name: &str) -> (r: (usize, bool))
        ensures
            r.0 <= self.entries@.len(),
            forall|j: int| 0 <= j < r.0 ==> text_less(self.names()[j], name@),
            r.1 ==> r.0 < self.entries@.len() && self.names()[r.0 as int] == name@,
            !r.1 ==> forall|j: int| r.0 <= j < self.entries@.len() ==> text_less(name@, self.names()[j]),
            r.1 == self.names().contains(name@),
    {
        proof {
            use_type_invariant(self);
        }
        let mut i: usize = 0;
        while i < self.entries.len() && less_text(self.entries[i].0.as_str(), name)
            invariant
                i <= self.entries@.len(),
                forall|j: int| 0 <= j < i ==> text_less(self.names()[j], name@),
            decreases self.entries.len() - i,
        {
            i += 1;
        }
        proof {
            assert forall|j: int| 0 <= j < i implies self.names()[j] != name@ by {
                law_text_order(name@, name@, name@);
            }
        }
        if i < self.entries.len() && same(self.entries[i].0.as_str(), name) {
            assert(self.names()[i as int] == name@);
            (i, true)
        } else {
            proof {
                assert forall|j: int| i <= j < self.entries@.len() implies text_less(name@, self.names()[j]) by {
                    law_text_order(name@, self.names()[i as int], self.names()[j]);
                    if i < j {
                        assert(text_less(self.names()[i as int], self.names()[j]));
                    }
                }
                assert forall|j: int| 0 <= j < self.entries@.len() implies self.names()[j] != name@ by {
                    law_text_order(name@, name@, name@);
                }
            }
            (i, false)
        }
    }

    /// The value of a name.
    pub fn get<'a>(&'a self, name: &str) -> (r: Option<&'a V>)
        ensures
            r matches Some(v) ==> self@.contains_key(name@) && v@ == self@[name@],
            r is None ==> !self@.contains_key(name@),
    {
        let (i, found) = self.find(name);
        if found {
            proof {
                use_type_invariant(self);
                lemma_map_of(self.entries@, i as int);
            }
            Some(&self.entries[i].1)
        } else {
            None
        }
    }

    /// Whether the map has an entry of that name.
    pub fn contains_key(&self, name: &str) -> (r: bool)
        ensures
            r == self@.contains_key(name@),
    {
        self.get(name).is_some()
    }

    /// Sets the value of a name.
    pub fn insert(&mut self, name: String, value: V)
        ensures
            final(self)@ == old(self)@.insert(name@, value@),
    {
        proof {
            use_type_invariant(&*self);
        }
        let ghost before = self.entries@;
        let (i, found) = self.find(name.as_str());
        let mut entries: Vec<(String, V)> = Vec::new();
        core::mem::swap(&mut self.entries, &mut entries);
        if found {
            let ghost after = before.remove(i as int);
            proof {
                assert forall|a: int, b: int| 0 <= a < b < after.len() implies text_less(
                    #[trigger] names_of(after)[a],
                    #[trigger] names_of(after)[b],
                ) by {
                    let x = if a < i { a } else { a + 1 };
                    let y = if b < i { b } else { b + 1 };
                    assert(text_less(names_of(before)[x], names_of(before)[y]));
                }
            }
            entries.remove(i);
        }
        let ghost rest = entries@;
        let ghost whole = rest.insert(i as int, (name, value));
        proof {
            let names = names_of(rest);
            assert forall|j: int| 0 <= j < i implies text_less(names[j], name@) by {
                assert(names[j] == names_of(before)[j]);
            }
            assert forall|j: int| i <= j < rest.len() implies text_less(name@, names[j]) by {
                if found {
                    assert(names[j] == names_of(before)[j + 1]);
                    assert(text_less(names_of(before)[i as int], names_of(before)[j + 1]));
                } else {
                    assert(names[j] == names_of(before)[j]);
                }
            }
            assert forall|a: int, b: int| 0 <= a < b < whole.len() implies text_less(
                #[trigger] names_of(whole)[a],
                #[trigger] names_of(whole)[b],
            ) by {
                if a != i && b != i {
                    let x = if a < i { a } else { a - 1 };
                    let y = if b < i { b } else { b - 1 };
                    assert(text_less(names[x], names[y]));
                } else if a == i {
                    assert(names_of(whole)[b] == names[b - 1]);
                } else {
                    assert(names_of(whole)[a] == names[a]);
                }
            }
            lemma_insert_map(before, rest, whole, i as int, found, name, value);
        }
        entries.insert(i, (name, value));
        core::mem::swap(&mut self.entries, &mut entries);
    }
}

proof fn lemma_insert_map<V: View>(
    before: Seq<(String, V)>,
    rest: Seq<(String, V)>,
    whole: Seq<(String, V)>,
    i: int,
    found: bool,
    name: String,
    value: V,
)
    requires
        sorted_names(names_of(before)),
        sorted_names(names_of(whole)),
        0 <= i <= before.len(),
        found ==> i < before.len() && before[i].0@ == name@ && rest == before.remove(i),
        !found ==> rest == before,
        whole == rest.insert(i, (name, value)),
    ensures
        map_of(whole) == map_of(before).insert(name@, value@),
{
    let m = map_of(whole);
    let e = map_of(before).insert(name@, value@);
    assert(whole[i] == (name, value));
    lemma_map_of(whole, i);
    assert forall|k: Seq<char>| #[trigger] m.contains_key(k) == e.contains_key(k) by {
        if m.contains_key(k) && k != name@ {
            let j = names_of(whole).index_of(k);
            assert(names_of(whole)[j] == k);
            let x = if j < i {
                j
            } else if found {
                j
            } else {
                j - 1
            };
            assert(names_of(before)[x] == k);
        }
        if e.contains_key(k) && k != name@ {
            let j = names_of(before).index_of(k);
            assert(names_of(before)[j] == k);
            let x = if j < i {
                j
            } else if found {
                j
            } else {
                j + 1
            };
            assert(names_of(whole)[x] == k);
        }
    }
    assert forall|k: Seq<char>| m.contains_key(k) implies #[trigger] m[k] == e[k] by {
        if k != name@ {
            let j = names_of(whole).index_of(k);
            assert(names_of(whole)[j] == k);
            lemma_map_of(whole, j);
            let x = if j < i {
                j
            } else if found {
                j
            } else {
                j - 1
            };
            assert(before[x] == whole[j]);
            lemma_map_of(before, x);
        }
    }
    assert(m =~= e);
}

impl<V: Duplicate> NameMap<V> {
    /// Takes over every entry of `other`; where both have a name, that of `other` stays.
    pub fn overlay(&mut self, other: &Self)
        ensures
            final(self)@ == old(self)@.union_prefer_right(other@),
    {
        proof {
            use_type_invariant(other);
        }
        let ghost before = self@;
        let mut i: usize = 0;
        assert(self@ =~= before.union_prefer_right(map_of(other.entries@.take(0))));
        while i < other.entries.len()
            invariant
                i <= other.entries@.len(),
                sorted_names(names_of(other.entries@)),
                self@ == before.union_prefer_right(map_of(other.entries@.take(i as int))),
            decreases other.entries.len() - i,
        {
            let name = other.entries[i].0.clone();
            let value = other.entries[i].1.duplicate();
            proof {
                let head = other.entries@.take(i as int);
                let more = other.entries@.take(i + 1);
                assert(names_of(more) =~= names_of(other.entries@).take(i + 1));
                assert(names_of(head) =~= names_of(other.entries@).take(i as int));
                assert forall|k: Seq<char>| names_of(more).contains(k) == (names_of(head).contains(k) || k
                    == name@) by {
                    if names_of(head).contains(k) {
                        let j = names_of(head).index_of(k);
                        assert(names_of(more)[j] == k);
                    }
                    assert(names_of(more)[i as int] == name@);
                    if names_of(more).contains(k) && k != name@ {
                        let j = names_of(more).index_of(k);
                        assert(names_of(head)[j] == k);
                    }
                }
                lemma_map_of(more, i as int);
                assert forall|k: Seq<char>| names_of(head).contains(k) implies map_of(head)[k] == map_of(more)[k] by {
                    let j = names_of(head).index_of(k);
                    assert(names_of(head)[j] == k);
                    lemma_map_of(head, j);
                    lemma_map_of(more, j);
                }
                assert forall|k: Seq<char>| k == name@ implies !names_of(head).contains(k) by {
                    if names_of(head).contains(k) {
                        let j = names_of(head).index_of(k);
                        assert(text_less(names_of(other.entries@)[j], names_of(other.entries@)[i as int]));
                        law_text_order(k, k, k);
                    }
                }
                assert(map_of(more) =~= map_of(head).insert(name@, value@));
                assert(before.union_prefer_right(map_of(head)).insert(name@, value@)
                    =~= before.union_prefer_right(map_of(more)));
            }
            self.insert(name, value);
            i += 1;
        }
        assert(other.entries@.take(i as int) =~= other.entries@);
    }
}

impl<V: Duplicate> Duplicate for NameMap<V> {
    fn duplicate(&self) -> (r: Self) {
        let mut out = NameMap::new();
        out.overlay(self);
        assert(out@ =~= self@);
        out
    }
}

/// Every name in a map stands at one position.
pub proof fn law_names_are_the_domain<V: View>(m: &NameMap<V>, k: Seq<char>)
    ensures
        m@.contains_key(k) == m.names().contains(k),
{
}

} // verus!
