//! Variable names, stand-in tables and the association lists that hold them.

use vstd::prelude::*;
use vstd::string::StringExecFns;
pub use crate::var_name::VarName;

verus! {

/// A map from names to values, kept as a list of entries with distinct
/// names in insertion order.
#[derive(Debug)]
pub struct AssocList<V> {
    entries: Vec<(String, V)>,
}

/// The map that a list of entries with distinct names denotes.
pub open spec fn entries_map<V>(e: Seq<(String, V)>) -> Map<Seq<char>, V>
    decreases e.len(),
{
    if e.len() == 0 {
        Map::empty()
    } else {
        entries_map(e.drop_last()).insert(e.last().0@, e.last().1)
    }
}

pub open spec fn distinct_names<V>(e: Seq<(String, V)>) -> bool {
    forall|i: int, j: int| 0 <= i < j < e.len() ==> (#[trigger] e[i]).0@ != (#[trigger] e[j]).0@
}

proof fn lemma_entries_map_index<V>(e: Seq<(String, V)>, j: int)
    requires
        distinct_names(e),
        0 <= j < e.len(),
    ensures
        entries_map(e).contains_key(e[j].0@),
        entries_map(e)[e[j].0@] == e[j].1,
    decreases e.len(),
{
    if j < e.len() - 1 {
        lemma_entries_map_index(e.drop_last(), j);
        assert(e.drop_last()[j] == e[j]);
    }
}

proof fn lemma_entries_map_domain<V>(e: Seq<(String, V)>, k: Seq<char>)
    ensures
        entries_map(e).contains_key(k) <==> exists|j: int| 0 <= j < e.len() && (#[trigger] e[j]).0@
            == k,
    decreases e.len(),
{
    if e.len() > 0 {
        lemma_entries_map_domain(e.drop_last(), k);
        if entries_map(e.drop_last()).contains_key(k) {
            let j = choose|j: int| 0 <= j < e.drop_last().len() && (#[trigger] e.drop_last()[j]).0@ == k;
            assert(e[j] == e.drop_last()[j]);
        }
        if exists|j: int| 0 <= j < e.len() && (#[trigger] e[j]).0@ == k {
            let j = choose|j: int| 0 <= j < e.len() && (#[trigger] e[j]).0@ == k;
            if j < e.len() - 1 {
                assert(e.drop_last()[j] == e[j]);
            }
        }
    }
}

proof fn lemma_entries_map_update<V>(e: Seq<(String, V)>, j: int, k: String, v: V)
    requires
        distinct_names(e),
        0 <= j < e.len(),
        e[j].0@ == k@,
    ensures
        entries_map(e.update(j, (k, v))) == entries_map(e).insert(k@, v),
    decreases e.len(),
{
    let u = e.update(j, (k, v));
    if j == e.len() - 1 {
        assert(u.drop_last() =~= e.drop_last());
        assert(!entries_map(e.drop_last()).contains_key(k@)) by {
            lemma_entries_map_domain(e.drop_last(), k@);
            if entries_map(e.drop_last()).contains_key(k@) {
                let i = choose|i: int| 0 <= i < e.drop_last().len() && (#[trigger] e.drop_last()[i]).0@
                    == k@;
                assert(e[i] == e.drop_last()[i]);
            }
        }
        assert(entries_map(u) =~= entries_map(e).insert(k@, v));
    } else {
        lemma_entries_map_update(e.drop_last(), j, k, v);
        assert(u.drop_last() =~= e.drop_last().update(j, (k, v)));
        assert(e.last().0@ != k@) by {
            assert(e[j].0@ != e[e.len() - 1].0@);
        }
        assert(entries_map(u) =~= entries_map(e).insert(k@, v));
    }
}

impl<V> AssocList<V> {
    #[verifier::type_invariant]
    spec fn wf(self) -> bool {
        distinct_names(self.entries@)
    }

    /// The entries, in insertion order.
    pub closed spec fn entry_seq(self) -> Seq<(String, V)> {
        self.entries@
    }

    /// The map from names to values.
    pub closed spec fn view(self) -> Map<Seq<char>, V> {
        entries_map(self.entries@)
    }

    pub fn new() -> (r: Self)
        ensures
            r.view() == Map::<Seq<char>, V>::empty(),
            r.entry_seq().len() == 0,
    {
        AssocList { entries: Vec::new() }
    }

    /// The index of the entry named `key`, if any.
    fn find(&self, key: &String) -> (r: Option<usize>)
        ensures
            r matches Some(j) ==> j < self.entries@.len() && self.entries@[j as int].0@ == key@,
            r is None ==> forall|j: int| 0 <= j < self.entries@.len() ==> (
            #[trigger] self.entries@[j]).0@ != key@,
    {
        let mut j: usize = 0;
        while j < self.entries.len()
            invariant
                j <= self.entries@.len(),
                forall|i: int| 0 <= i < j ==> (#[trigger] self.entries@[i]).0@ != key@,
            decreases self.entries@.len() - j,
        {
            if self.entries[j].0 == *key {
                return Some(j);
            }
            j = j + 1;
        }
        None
    }

    /// The value named `key`, if any.
    pub fn get(&self, key: &str) -> (r: Option<&V>)
        ensures
            r matches Some(v) ==> self.view().contains_key(key@) && *v == self.view()[key@],
            r is None ==> !self.view().contains_key(key@),
    {
        proof {
            use_type_invariant(self);
            lemma_entries_map_domain(self.entries@, key@);
        }
        let k = key.to_owned();
        match self.find(&k) {
            Some(j) => {
                proof {
                    lemma_entries_map_index(self.entries@, j as int);
                }
                Some(&self.entries[j].1)
            },
            None => None,
        }
    }

    /// Whether an entry is named `key`.
    pub fn contains(&self, key: &str) -> (r: bool)
        ensures
            r == self.view().contains_key(key@),
    {
        self.get(key).is_some()
    }

    /// Maps `key` to `value`, replacing any earlier value for `key`.
    pub fn insert(&mut self, key: String, value: V)
        ensures
            final(self).view() == old(self).view().insert(key@, value),
    {
        proof {
            use_type_invariant(&*self);
        }
        match self.find(&key) {
            Some(j) => {
                proof {
                    lemma_entries_map_update(self.entries@, j as int, key, value);
                }
                let ghost e = self.entries@;
                let mut entries: Vec<(String, V)> = Vec::new();
                std::mem::swap(&mut entries, &mut self.entries);
                entries.set(j, (key, value));
                assert forall|a: int, b: int| 0 <= a < b < entries@.len() implies (
                #[trigger] entries@[a]).0@ != (#[trigger] entries@[b]).0@ by {
                    assert(e[a].0@ != e[b].0@);
                }
                self.entries = entries;
            },
            None => {
                let ghost e = self.entries@;
                let mut entries: Vec<(String, V)> = Vec::new();
                std::mem::swap(&mut entries, &mut self.entries);
                entries.push((key, value));
                assert(entries@.drop_last() =~= e);
                assert forall|a: int, b: int| 0 <= a < b < entries@.len() implies (
                #[trigger] entries@[a]).0@ != (#[trigger] entries@[b]).0@ by {
                    if b < e.len() {
                        assert(e[a].0@ != e[b].0@);
                    }
                }
                self.entries = entries;
            },
        }
    }

    /// The entries, in insertion order.
    pub fn entries(&self) -> (r: &[(String, V)])
        ensures
            r@ == self.entry_seq(),
    {
        self.entries.as_slice()
    }

    /// The number of entries.
    pub fn len(&self) -> (r: usize)
        ensures
            r == self.entry_seq().len(),
    {
        self.entries.len()
    }
}

/// Data for a single stand-in in the preprocessed source.
#[derive(Debug)]
pub struct StandInData {
    /// The variable name that the stand-in stands for.
    pub var: VarName,
}

/// The stand-ins of a preprocessed source: from each stand-in text to its
/// variable.
pub type StandIns = AssocList<StandInData>;

/// The map from stand-in texts to variable names that `m` denotes.
pub open spec fn stand_in_names(m: Map<Seq<char>, StandInData>) -> Map<Seq<char>, Seq<char>> {
    Map::new(|k: Seq<char>| m.contains_key(k), |k: Seq<char>| m[k].var.view())
}

/// A placeholder names a variable that no binding declares.
#[derive(Debug, PartialEq, Eq)]
pub struct UnboundVar(pub String);

impl UnboundVar {
    /// The error message.
    pub fn message(&self) -> (r: String)
        ensures
            r@ == "variable `#{"@ + self.0@ + "}` not bound to a value"@,
    {
        let mut r = String::new();
        r.append("variable `#{");
        r.append(self.0.as_str());
        r.append("}` not bound to a value");
        r
    }
}

} // verus!
