//! Maps from column names to values, kept in the lexicographic order of the
//! names so that whatever is written from one comes out in one fixed order.

use vstd::prelude::*;
use vstd::string::*;

use crate::text::{
    lemma_lex_irreflexive, lemma_lex_total, lemma_lex_transitive, lemma_sorted_unique, lex_lt,
    same_text, strictly_sorted, text_lt, views,
};

verus! {

/// A map from column names to `T`, with each name at most once.
#[derive(Debug, PartialEq, Eq)]
pub struct ColumnMap<T> {
    entries: Vec<(String, T)>,
}

/// The names of a list of entries, in its order.
pub open spec fn names_of<T>(entries: Seq<(String, T)>) -> Seq<Seq<char>> {
    Seq::new(entries.len(), |i: int| entries[i].0@)
}

/// Whether the entry at `i` has the name `key`.
pub open spec fn key_at<T>(entries: Seq<(String, T)>, key: Seq<char>, i: int) -> bool {
    0 <= i < entries.len() && entries[i].0@ == key
}

/// The map that a list of entries with distinct names stands for.
pub open spec fn as_map<T>(entries: Seq<(String, T)>) -> Map<Seq<char>, T> {
    Map::new(
        |k: Seq<char>| exists|i: int| key_at(entries, k, i),
        |k: Seq<char>| entries[choose|i: int| key_at(entries, k, i)].1,
    )
}

/// The names of a finite set in lexicographic order.
pub open spec fn sorted_columns(names: Set<Seq<char>>) -> Seq<Seq<char>> {
    choose|columns: Seq<Seq<char>>| strictly_sorted(columns) && columns.to_set() == names
}

/// The name of each entry is a key of the map, with the entry's value.
proof fn lemma_lookup<T>(entries: Seq<(String, T)>, i: int)
    requires
        strictly_sorted(names_of(entries)),
        0 <= i < entries.len(),
    ensures
        as_map(entries).contains_key(entries[i].0@),
        as_map(entries)[entries[i].0@] == entries[i].1,
{
    let k = entries[i].0@;
    assert(key_at(entries, k, i));
    let j = choose|j: int| key_at(entries, k, j);
    if j != i {
        lemma_lex_irreflexive(k);
        assert(names_of(entries)[i] == k && names_of(entries)[j] == k);
        if i < j {
            assert(lex_lt(names_of(entries)[i], names_of(entries)[j]));
        } else {
            assert(lex_lt(names_of(entries)[j], names_of(entries)[i]));
        }
    }
}

/// The keys of the map are the names of the entries.
proof fn lemma_keys<T>(entries: Seq<(String, T)>)
    ensures
        as_map(entries).dom() =~= names_of(entries).to_set(),
{
    assert forall|k: Seq<char>| as_map(entries).dom().contains(k) <==> names_of(entries).to_set().contains(k) by {
        if as_map(entries).dom().contains(k) {
            let i = choose|i: int| key_at(entries, k, i);
            assert(names_of(entries)[i] == k);
        }
        if names_of(entries).to_set().contains(k) {
            let i = choose|i: int| 0 <= i < names_of(entries).len() && names_of(entries)[i] == k;
            assert(key_at(entries, k, i));
        }
    }
}

/// The names of sorted entries are the sorted names of the map's keys.
proof fn lemma_sorted_names<T>(entries: Seq<(String, T)>)
    requires
        strictly_sorted(names_of(entries)),
    ensures
        names_of(entries) == sorted_columns(as_map(entries).dom()),
        as_map(entries).dom().finite(),
        as_map(entries).dom().len() == entries.len(),
{
    lemma_keys(entries);
    let names = names_of(entries);
    let chosen = sorted_columns(as_map(entries).dom());
    assert(strictly_sorted(names) && names.to_set() == as_map(entries).dom());
    lemma_sorted_unique(names, chosen);
    assert forall|i: int, j: int| 0 <= i < j < names.len() implies names[i] != names[j] by {
        lemma_lex_irreflexive(names[i]);
    }
    assert(names.no_duplicates());
    names.unique_seq_to_set();
    vstd::seq_lib::seq_to_set_is_finite(names);
}

impl<T> View for ColumnMap<T> {
    type V = Map<Seq<char>, T>;

    closed spec fn view(&self) -> Map<Seq<char>, T> {
        as_map(self.entries@)
    }
}

impl<T> ColumnMap<T> {
    #[verifier::type_invariant]
    spec fn wf(self) -> bool {
        strictly_sorted(names_of(self.entries@))
    }

    /// An empty map.
    pub fn new() -> (m: Self)
        ensures
            m@ == Map::<Seq<char>, T>::empty(),
    {
        let m = ColumnMap { entries: Vec::new() };
        assert(m@ =~= Map::<Seq<char>, T>::empty());
        m
    }

    /// The number of names.
    pub fn len(&self) -> (n: usize)
        ensures
            self@.dom().finite(),
            n == self@.dom().len(),
    {
        proof {
            use_type_invariant(self);
            lemma_sorted_names(self.entries@);
        }
        self.entries.len()
    }

    /// The value under a name, if the map has the name.
    pub fn get(&self, name: &str) -> (r: Option<&T>)
        ensures
            match r {
                Some(v) => self@.contains_key(name@) && *v == self@[name@],
                None => !self@.contains_key(name@),
            },
    {
        proof {
            use_type_invariant(self);
        }
        let mut i: usize = 0;
        while i < self.entries.len()
            invariant
                0 <= i <= self.entries.len(),
                strictly_sorted(names_of(self.entries@)),
                forall|j: int| 0 <= j < i ==> self.entries@[j].0@ != name@,
            decreases self.entries.len() - i,
        {
            if same_text(self.entries[i].0.as_str(), name) {
                proof {
                    lemma_lookup(self.entries@, i as int);
                }
                return Some(&self.entries[i].1);
            }
            i = i + 1;
        }
        None
    }

    /// Puts a value under a name. A value that stood under the name is replaced.
    pub fn insert(&mut self, name: String, value: T)
        ensures
            final(self)@ == old(self)@.insert(name@, value),
    {
        proof {
            use_type_invariant(&*self);
        }
        let mut entries: Vec<(String, T)> = Vec::new();
        std::mem::swap(&mut entries, &mut self.entries);
        let ghost before = entries@;
        let mut p: usize = 0;
        while p < entries.len() && text_lt(entries[p].0.as_str(), name.as_str())
            invariant
                0 <= p <= entries.len(),
                entries@ == before,
                forall|k: int| 0 <= k < p ==> lex_lt(before[k].0@, name@),
            decreases entries.len() - p,
        {
            p = p + 1;
        }
        if p < entries.len() && same_text(entries[p].0.as_str(), name.as_str()) {
            entries.set(p, (name, value));
            proof {
                let after = entries@;
                assert(names_of(after) =~= names_of(before));
                assert forall|k: Seq<char>| #[trigger]
                    as_map(after).dom().contains(k) <==> as_map(before).insert(name@, value).dom().contains(k) by {
                    if as_map(after).dom().contains(k) {
                        let i = choose|i: int| key_at(after, k, i);
                        assert(key_at(before, k, i));
                    }
                    if as_map(before).dom().contains(k) {
                        let i = choose|i: int| key_at(before, k, i);
                        assert(key_at(after, k, i));
                    }
                    if k == name@ {
                        assert(key_at(after, k, p as int));
                    }
                }
                assert forall|k: Seq<char>| #[trigger] as_map(after).dom().contains(k) implies as_map(after)[k]
                    == as_map(before).insert(name@, value)[k] by {
                    let i = choose|i: int| key_at(after, k, i);
                    lemma_lookup(after, i);
                    if k != name@ {
                        lemma_lookup(before, i);
                    } else {
                        lemma_lookup(after, p as int);
                    }
                }
                assert(as_map(after) =~= as_map(before).insert(name@, value));
            }
        } else {
            proof {
                if p < entries.len() {
                    lemma_lex_total(before[p as int].0@, name@);
                }
            }
            entries.insert(p, (name, value));
            proof {
                let after = entries@;
                assert forall|i: int, j: int| 0 <= i < j < after.len() implies lex_lt(
                    names_of(after)[i],
                    names_of(after)[j],
                ) by {
                    if j < p {
                        assert(lex_lt(names_of(before)[i], names_of(before)[j]));
                    } else if j == p {
                    } else if i < p {
                        assert(lex_lt(names_of(before)[i], names_of(before)[j - 1]));
                    } else if i == p {
                        if j - 1 > p {
                            assert(lex_lt(names_of(before)[p as int], names_of(before)[j - 1]));
                            lemma_lex_transitive(name@, before[p as int].0@, before[j - 1].0@);
                        }
                    } else {
                        assert(lex_lt(names_of(before)[i - 1], names_of(before)[j - 1]));
                    }
                }
                assert forall|k: Seq<char>| #[trigger]
                    as_map(after).dom().contains(k) <==> as_map(before).insert(name@, value).dom().contains(k) by {
                    if as_map(after).dom().contains(k) {
                        let i = choose|i: int| key_at(after, k, i);
                        if i < p {
                            assert(key_at(before, k, i));
                        } else if i > p {
                            assert(key_at(before, k, i - 1));
                        }
                    }
                    if as_map(before).dom().contains(k) {
                        let i = choose|i: int| key_at(before, k, i);
                        if i < p {
                            assert(key_at(after, k, i));
                        } else {
                            assert(key_at(after, k, i + 1));
                        }
                    }
                    if k == name@ {
                        assert(key_at(after, k, p as int));
                    }
                }
                assert forall|k: Seq<char>| #[trigger] as_map(after).dom().contains(k) implies as_map(after)[k]
                    == as_map(before).insert(name@, value)[k] by {
                    let i = choose|i: int| key_at(after, k, i);
                    lemma_lookup(after, i);
                    if i < p {
                        lemma_lookup(before, i);
                    } else if i > p {
                        lemma_lookup(before, i - 1);
                    }
                    if k == name@ {
                        lemma_lookup(after, p as int);
                    }
                }
                assert(as_map(after) =~= as_map(before).insert(name@, value));
            }
        }
        self.entries = entries;
    }

    /// The names in lexicographic order.
    pub fn sorted_names(&self) -> (names: Vec<String>)
        ensures
            views(names@) == sorted_columns(self@.dom()),
            strictly_sorted(views(names@)),
            views(names@).to_set() == self@.dom(),
            names@.len() == self@.dom().len(),
    {
        proof {
            use_type_invariant(self);
            lemma_sorted_names(self.entries@);
            lemma_keys(self.entries@);
        }
        let mut names: Vec<String> = Vec::new();
        let mut i: usize = 0;
        while i < self.entries.len()
            invariant
                0 <= i <= self.entries.len(),
                names@.len() == i,
                forall|j: int| 0 <= j < i ==> names@[j]@ == self.entries@[j].0@,
            decreases self.entries.len() - i,
        {
            names.push(self.entries[i].0.clone());
            i = i + 1;
        }
        assert(views(names@) =~= names_of(self.entries@));
        names
    }
}

/// A set of names has one sorted list: any strictly sorted list of the
/// names is the list of the sorted columns.
pub proof fn lemma_sorted_columns_unique(names: Set<Seq<char>>, columns: Seq<Seq<char>>)
    requires
        strictly_sorted(columns),
        columns.to_set() == names,
    ensures
        columns == sorted_columns(names),
{
    lemma_sorted_unique(columns, sorted_columns(names));
}

} // verus!
