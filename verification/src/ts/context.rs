//! The substitution context for TypeScript quotes: the bound variables, keyed by
//! name, and the stand-ins that refer to them.

use vstd::prelude::*;
use vstd::string::StringExecFns;
use crate::bindings::{stand_in_names, AssocList, StandInData, StandIns};
use crate::ts::input::{VarType, Variable};
use crate::ts::lexed::{is_jsdoc, is_jsdoc_text, LexedComment};

verus! {

/// The name of the `let` binding that holds a variable's value in the
/// generated code.
pub open spec fn binding_ident(name: Seq<char>) -> Seq<char> {
    "quote_var_"@ + name
}

/// Data for a single substitution variable.
#[derive(Debug)]
pub struct VarData {
    /// The identifier for the `let` binding in the generated block.
    pub ident: String,
    /// The declared type of this variable.
    pub ty: VarType,
}

/// The variables of a context by name: each name's binding identifier and
/// type.
pub open spec fn var_data_view(m: Map<Seq<char>, VarData>) -> Map<Seq<char>, (Seq<char>, VarType)> {
    Map::new(|k: Seq<char>| m.contains_key(k), |k: Seq<char>| (m[k].ident@, m[k].ty))
}

/// The names of `vars`, in order.
pub open spec fn names_of(vars: Seq<Variable>) -> Seq<Seq<char>> {
    Seq::new(vars.len(), |i: int| vars[i].name@)
}

/// No two of `names` are equal.
pub open spec fn all_distinct(names: Seq<Seq<char>>) -> bool {
    forall|i: int, j: int| 0 <= i < j < names.len() ==> names[i] != names[j]
}

/// `names[j]` repeats an earlier name.
pub open spec fn repeats_earlier(names: Seq<Seq<char>>, j: int) -> bool {
    exists|i: int| 0 <= i < j && names[i] == names[j]
}

/// Some variable is named `k`.
pub open spec fn has_var(vars: Seq<Variable>, k: Seq<char>) -> bool {
    exists|i: int| 0 <= i < vars.len() && vars[i].name@ == k
}

/// A position of a variable named `k`, if there is one.
pub open spec fn var_named(vars: Seq<Variable>, k: Seq<char>) -> int {
    choose|i: int| 0 <= i < vars.len() && vars[i].name@ == k
}

/// The map from each variable's name to its binding identifier and type.
pub open spec fn bound_vars(vars: Seq<Variable>) -> Map<Seq<char>, (Seq<char>, VarType)> {
    Map::new(
        |k: Seq<char>| has_var(vars, k),
        |k: Seq<char>| (binding_ident(k), vars[var_named(vars, k)].ty),
    )
}

/// Two variables share a name.
#[derive(Debug)]
pub struct DuplicateVar {
    /// The position of the second variable of that name.
    pub index: usize,
    /// The shared name.
    pub name: String,
}

impl DuplicateVar {
    /// The error message.
    pub fn message(&self) -> (r: String)
        ensures
            r@ == "duplicate variable name `"@ + self.name@ + "`"@,
    {
        let mut r = String::new();
        r.append("duplicate variable name `");
        r.append(self.name.as_str());
        r.append("`");
        r
    }
}

/// A JSDoc comment collected from the parse phase: its start position and
/// its text after `/*`.
#[derive(Debug)]
pub struct DocComment {
    pub lo: u32,
    pub text: String,
}

/// The entries are in strictly increasing order of position.
pub open spec fn sorted_docs(e: Seq<DocComment>) -> bool {
    forall|i: int, j: int| 0 <= i < j < e.len() ==> (#[trigger] e[i]).lo < (#[trigger] e[j]).lo
}

/// Some entry starts at `k`.
pub open spec fn has_doc(e: Seq<DocComment>, k: u32) -> bool {
    exists|i: int| 0 <= i < e.len() && e[i].lo == k
}

/// An entry that starts at `k`, if there is one.
pub open spec fn doc_at(e: Seq<DocComment>, k: u32) -> int {
    choose|i: int| 0 <= i < e.len() && e[i].lo == k
}

/// The map from start positions to texts that the entries denote.
pub open spec fn docs_map(e: Seq<DocComment>) -> Map<u32, Seq<char>> {
    Map::new(|k: u32| has_doc(e, k), |k: u32| e[doc_at(e, k)].text@)
}

proof fn lemma_docs_map_index(e: Seq<DocComment>, i: int)
    requires
        sorted_docs(e),
        0 <= i < e.len(),
    ensures
        docs_map(e).contains_key(e[i].lo),
        docs_map(e)[e[i].lo] == e[i].text@,
{
    assert(has_doc(e, e[i].lo));
    let j = doc_at(e, e[i].lo);
    if j != i {
        if j < i {
            assert(e[j].lo < e[i].lo);
        } else {
            assert(e[i].lo < e[j].lo);
        }
    }
}

/// The JSDoc comments among `comments` (block comments whose text starts
/// with exactly one `*`), by start position; a later comment at the same
/// position replaces an earlier one.
pub open spec fn jsdoc_map(comments: Seq<LexedComment>) -> Map<u32, Seq<char>>
    decreases comments.len(),
{
    if comments.len() == 0 {
        Map::empty()
    } else {
        let c = comments.last();
        let m = jsdoc_map(comments.drop_last());
        if c.block && is_jsdoc_text(c.text@) {
            m.insert(c.lo, c.text@)
        } else {
            m
        }
    }
}

/// JSDoc comments keyed by start position, each to be consumed once.
#[derive(Debug)]
pub struct Docs {
    entries: Vec<DocComment>,
}

impl Docs {
    #[verifier::type_invariant]
    spec fn wf(self) -> bool {
        sorted_docs(self.entries@)
    }

    /// The comments' texts by start position.
    pub closed spec fn view(self) -> Map<u32, Seq<char>> {
        docs_map(self.entries@)
    }

    pub fn new() -> (r: Self)
        ensures
            r.view() == Map::<u32, Seq<char>>::empty(),
    {
        let r = Docs { entries: Vec::new() };
        assert(r.view() =~= Map::<u32, Seq<char>>::empty());
        r
    }

    /// The index of the first entry that starts at or after `lo`.
    fn lower_bound(&self, lo: u32) -> (r: usize)
        ensures
            r <= self.entries@.len(),
            forall|i: int| 0 <= i < r ==> (#[trigger] self.entries@[i]).lo < lo,
            forall|i: int| r <= i < self.entries@.len() ==> (#[trigger] self.entries@[i]).lo >= lo,
    {
        proof {
            use_type_invariant(self);
        }
        let mut k: usize = 0;
        while k < self.entries.len() && self.entries[k].lo < lo
            invariant
                k <= self.entries@.len(),
                sorted_docs(self.entries@),
                forall|i: int| 0 <= i < k ==> (#[trigger] self.entries@[i]).lo < lo,
            decreases self.entries@.len() - k,
        {
            k = k + 1;
        }
        proof {
            assert forall|i: int| k <= i < self.entries@.len() implies (
            #[trigger] self.entries@[i]).lo >= lo by {
                if i > k {
                    assert(self.entries@[k as int].lo < self.entries@[i].lo);
                }
            }
        }
        k
    }

    /// Records the comment `text` at `lo`, replacing any comment there.
    pub fn insert(&mut self, lo: u32, text: String)
        ensures
            final(self).view() == old(self).view().insert(lo, text@),
    {
        proof {
            use_type_invariant(&*self);
        }
        let p = self.lower_bound(lo);
        let ghost e = self.entries@;
        let ghost t = text@;
        let mut entries: Vec<DocComment> = Vec::new();
        std::mem::swap(&mut entries, &mut self.entries);
        if p < entries.len() && entries[p].lo == lo {
            entries.set(p, DocComment { lo, text });
        } else {
            entries.insert(p, DocComment { lo, text });
        }
        let ghost n = entries@;
        proof {
            assert(sorted_docs(n)) by {
                assert forall|i: int, j: int| 0 <= i < j < n.len() implies (#[trigger] n[i]).lo < (
                #[trigger] n[j]).lo by {
                    if n.len() == e.len() {
                        if i != p && j != p {
                            assert(e[i].lo < e[j].lo);
                        } else if i == p {
                            assert(e[p as int].lo < e[j].lo);
                        } else {
                            assert(e[i].lo < e[p as int].lo);
                        }
                    } else {
                        if j < p {
                            assert(e[i].lo < e[j].lo);
                        } else if i > p {
                            assert(e[i - 1].lo < e[j - 1].lo);
                        } else if i == p {
                            assert(n[j] == e[j - 1]);
                        } else {
                            assert(n[i] == e[i]);
                        }
                    }
                }
            }
            assert(docs_map(n) =~= docs_map(e).insert(lo, t)) by {
                assert forall|k: u32| #[trigger] docs_map(n).contains_key(k) implies docs_map(
                    e,
                ).insert(lo, t).contains_key(k) && docs_map(n)[k] == docs_map(e).insert(lo, t)[k] by {
                    let i = doc_at(n, k);
                    lemma_docs_map_index(n, i);
                    if k != lo {
                        let j = if n.len() == e.len() || i < p {
                            i
                        } else {
                            i - 1
                        };
                        assert(n[i] == e[j]);
                        lemma_docs_map_index(e, j);
                    } else {
                        assert(n[p as int].lo == lo);
                        lemma_docs_map_index(n, p as int);
                    }
                }
                assert forall|k: u32| #[trigger] docs_map(e).insert(lo, t).contains_key(k)
                    implies docs_map(n).contains_key(k) by {
                    if k != lo {
                        let i = doc_at(e, k);
                        let j = if n.len() == e.len() || i < p {
                            i
                        } else {
                            i + 1
                        };
                        assert(n[j] == e[i]);
                        lemma_docs_map_index(n, j);
                    } else {
                        lemma_docs_map_index(n, p as int);
                    }
                }
            }
        }
        self.entries = entries;
    }

    /// Removes and returns the comment with the largest start position
    /// before `lo`, if any.
    pub fn take_closest_before(&mut self, lo: u32) -> (r: Option<DocComment>)
        ensures
            r matches Some(d) ==> {
                &&& d.lo < lo
                &&& old(self).view().contains_key(d.lo)
                &&& old(self).view()[d.lo] == d.text@
                &&& forall|k: u32| #[trigger]
                    old(self).view().contains_key(k) && k < lo ==> k <= d.lo
                &&& final(self).view() == old(self).view().remove(d.lo)
            },
            r is None ==> {
                &&& forall|k: u32| #[trigger] old(self).view().contains_key(k) ==> k >= lo
                &&& final(self).view() == old(self).view()
            },
    {
        proof {
            use_type_invariant(&*self);
        }
        let p = self.lower_bound(lo);
        let ghost e = self.entries@;
        if p == 0 {
            proof {
                assert forall|k: u32| #[trigger] docs_map(e).contains_key(k) implies k >= lo by {
                    let i = doc_at(e, k);
                }
            }
            return None;
        }
        let mut entries: Vec<DocComment> = Vec::new();
        std::mem::swap(&mut entries, &mut self.entries);
        let d = entries.remove(p - 1);
        let ghost n = entries@;
        let ghost q = p - 1;
        proof {
            lemma_docs_map_index(e, q);
            assert(sorted_docs(n)) by {
                assert forall|i: int, j: int| 0 <= i < j < n.len() implies (#[trigger] n[i]).lo < (
                #[trigger] n[j]).lo by {
                    if j < q {
                        assert(e[i].lo < e[j].lo);
                    } else if i >= q {
                        assert(e[i + 1].lo < e[j + 1].lo);
                    } else {
                        assert(e[i].lo < e[j + 1].lo);
                    }
                }
            }
            assert forall|k: u32| #[trigger] docs_map(e).contains_key(k) && k < lo implies k <= d.lo by {
                let i = doc_at(e, k);
                if i > q {
                    assert(e[i].lo >= lo);
                }
                if i < q {
                    assert(e[i].lo < e[q].lo);
                }
            }
            assert(docs_map(n) =~= docs_map(e).remove(d.lo)) by {
                assert forall|k: u32| #[trigger] docs_map(n).contains_key(k) implies docs_map(
                    e,
                ).remove(d.lo).contains_key(k) && docs_map(n)[k] == docs_map(e)[k] by {
                    let i = doc_at(n, k);
                    lemma_docs_map_index(n, i);
                    let j = if i < q {
                        i
                    } else {
                        i + 1
                    };
                    assert(n[i] == e[j]);
                    lemma_docs_map_index(e, j);
                    if j < q {
                        assert(e[j].lo < e[q].lo);
                    } else {
                        assert(e[q].lo < e[j].lo);
                    }
                }
                assert forall|k: u32| #[trigger] docs_map(e).remove(d.lo).contains_key(k)
                    implies docs_map(n).contains_key(k) by {
                    let i = doc_at(e, k);
                    let j = if i < q {
                        i
                    } else {
                        i - 1
                    };
                    assert(n[j] == e[i]);
                    lemma_docs_map_index(n, j);
                }
            }
        }
        self.entries = entries;
        Some(d)
    }
}

/// Context for variable substitution during code generation.
#[derive(Debug)]
pub struct Context {
    /// The variables passed to the macro.
    vars: AssocList<VarData>,
    /// Maps stand-ins to variable names.
    stand_ins: StandIns,
    /// JSDoc comments collected from the parse phase, keyed by the
    /// comment's start position.
    docs: Docs,
}

impl Context {
    /// The bound variables: each name's binding identifier and type.
    pub closed spec fn vars_view(self) -> Map<Seq<char>, (Seq<char>, VarType)> {
        var_data_view(self.vars.view())
    }

    /// The stand-ins: each stand-in's variable name.
    pub closed spec fn stand_ins_view(self) -> Map<Seq<char>, Seq<char>> {
        stand_in_names(self.stand_ins.view())
    }

    /// The JSDoc comments not yet consumed, by start position.
    pub closed spec fn docs_view(self) -> Map<u32, Seq<char>> {
        self.docs.view()
    }

    /// Consumes and returns the JSDoc comment closest to and preceding `lo`,
    /// if any: the one with the largest start position before `lo`.
    pub fn take_closest_doc_to(&mut self, lo: u32) -> (r: Option<DocComment>)
        ensures
            takes_doc(
                old(self).docs_view(),
                lo,
                final(self).docs_view(),
                match r {
                    Some(d) => Some(d.lo),
                    None => None,
                },
            ),
            final(self).vars_view() == old(self).vars_view(),
            final(self).stand_ins_view() == old(self).stand_ins_view(),
            r matches Some(d) ==> {
                &&& d.lo < lo
                &&& old(self).docs_view().contains_key(d.lo)
                &&& old(self).docs_view()[d.lo] == d.text@
                &&& forall|k: u32| #[trigger]
                    old(self).docs_view().contains_key(k) && k < lo ==> k <= d.lo
                &&& final(self).docs_view() == old(self).docs_view().remove(d.lo)
            },
            r is None ==> {
                &&& forall|k: u32| #[trigger] old(self).docs_view().contains_key(k) ==> k >= lo
                &&& final(self).docs_view() == old(self).docs_view()
            },
    {
        self.docs.take_closest_before(lo)
    }

    /// Looks up a variable by its stand-in (e.g., `__tsq_0__`).
    pub fn stand_in(&self, value: &str) -> (r: Option<&VarData>)
        ensures
            r matches Some(d) ==> {
                &&& self.stand_ins_view().contains_key(value@)
                &&& self.vars_view().contains_key(self.stand_ins_view()[value@])
                &&& self.vars_view()[self.stand_ins_view()[value@]] == (d.ident@, d.ty)
            },
            r is None ==> !self.stand_ins_view().contains_key(value@) || !self.vars_view().contains_key(
                self.stand_ins_view()[value@],
            ),
    {
        match self.stand_ins.get(value) {
            Some(data) => self.vars.get(data.var.as_str()),
            None => None,
        }
    }
}

/// One call of `take_closest_doc_to(lo)` on a context with JSDoc comments
/// `before` leaves `after` and returns the comment at `taken`, if any.
pub open spec fn takes_doc(
    before: Map<u32, Seq<char>>,
    lo: u32,
    after: Map<u32, Seq<char>>,
    taken: Option<u32>,
) -> bool {
    match taken {
        Some(k) => {
            &&& k < lo
            &&& before.contains_key(k)
            &&& (forall|j: u32| #[trigger] before.contains_key(j) && j < lo ==> j <= k)
            &&& after == before.remove(k)
        },
        None => {
            &&& (forall|j: u32| #[trigger] before.contains_key(j) ==> j >= lo)
            &&& after == before
        },
    }
}

/// A JSDoc comment is attached at most once: of two successive takes, the
/// second never returns the comment that the first returned, and with the
/// same position the second returns an earlier comment or none.
pub proof fn lemma_docs_taken_once(
    a: Map<u32, Seq<char>>,
    lo1: u32,
    b: Map<u32, Seq<char>>,
    k1: u32,
    lo2: u32,
    c: Map<u32, Seq<char>>,
    t2: Option<u32>,
)
    requires
        takes_doc(a, lo1, b, Some(k1)),
        takes_doc(b, lo2, c, t2),
    ensures
        t2 != Some(k1),
        !c.contains_key(k1),
        lo2 == lo1 ==> (t2 matches Some(k2) ==> k2 < k1),
{
    if let Some(k2) = t2 {
        assert(b.contains_key(k2));
        if lo2 == lo1 {
            assert(a.contains_key(k2));
        }
    }
}

/// The JSDoc comments among `comments`, keyed by start position.
fn collect_docs(comments: &[LexedComment]) -> (r: Docs)
    ensures
        r.view() == jsdoc_map(comments@),
{
    let mut docs = Docs::new();
    let mut k: usize = 0;
    while k < comments.len()
        invariant
            k <= comments@.len(),
            docs.view() == jsdoc_map(comments@.take(k as int)),
        decreases comments@.len() - k,
    {
        proof {
            assert(comments@.take(k + 1).drop_last() =~= comments@.take(k as int));
        }
        let c = &comments[k];
        if c.block && is_jsdoc(c.text.as_str()) {
            docs.insert(c.lo, c.text.clone());
        }
        k = k + 1;
    }
    proof {
        assert(comments@.take(comments@.len() as int) =~= comments@);
    }
    docs
}

/// Builds the substitution context from the variables passed to the macro,
/// the stand-ins that preprocessing produced and the comments that parsing
/// collected, of which it keeps the JSDoc comments. Each variable is bound
/// under the identifier `quote_var_` followed by its name. Fails on the
/// first variable whose name an earlier variable already has.
pub fn context(variables: &[Variable], stand_ins: StandIns, comments: &[LexedComment]) -> (r: Result<
    Context,
    DuplicateVar,
>)
    ensures
        match r {
            Ok(ctx) => {
                &&& all_distinct(names_of(variables@))
                &&& ctx.vars_view() == bound_vars(variables@)
                &&& ctx.stand_ins_view() == stand_in_names(stand_ins.view())
                &&& ctx.docs_view() == jsdoc_map(comments@)
            },
            Err(e) => {
                &&& e.index < variables@.len()
                &&& e.name@ == variables@[e.index as int].name@
                &&& repeats_earlier(names_of(variables@), e.index as int)
                &&& all_distinct(names_of(variables@).take(e.index as int))
            },
        },
{
    let ghost names = names_of(variables@);
    let mut vars: AssocList<VarData> = AssocList::new();
    let mut k: usize = 0;
    while k < variables.len()
        invariant
            k <= variables@.len(),
            names == names_of(variables@),
            all_distinct(names.take(k as int)),
            var_data_view(vars.view()) == bound_vars(variables@.take(k as int)),
        decreases variables@.len() - k,
    {
        let v = &variables[k];
        let ghost prefix = variables@.take(k as int);
        proof {
            assert(bound_vars(prefix).contains_key(v.name@) <==> repeats_earlier(names, k as int))
                by {
                if bound_vars(prefix).contains_key(v.name@) {
                    let i = choose|i: int| 0 <= i < prefix.len() && prefix[i].name@ == v.name@;
                    assert(names[i] == names[k as int]);
                }
                if repeats_earlier(names, k as int) {
                    let i = choose|i: int| 0 <= i < k && names[i] == names[k as int];
                    assert(prefix[i].name@ == v.name@);
                }
            }
        }
        if vars.contains(v.name.as_str()) {
            return Err(DuplicateVar { index: k, name: v.name.clone() });
        }
        let mut ident = String::new();
        ident.append("quote_var_");
        ident.append(v.name.as_str());
        let ty = v.ty.clone();
        let ghost old_view = vars.view();
        let ghost new_data = (ident@, ty);
        vars.insert(v.name.clone(), VarData { ident, ty });
        proof {
            assert(new_data == (binding_ident(v.name@), v.ty));
            assert(var_data_view(vars.view()) =~= var_data_view(old_view).insert(v.name@, new_data));
            let next = variables@.take(k + 1);
            assert(next.drop_last() =~= prefix);
            let nt = names.take(k + 1);
            assert forall|a: int, b: int| 0 <= a < b < k + 1 implies #[trigger] nt[a] != #[trigger] nt[b] by {
                if b < k {
                    assert(names.take(k as int)[a] == names[a]);
                    assert(names.take(k as int)[b] == names[b]);
                }
            }
            assert(var_data_view(vars.view()) =~= bound_vars(next)) by {
                assert forall|key: Seq<char>| #[trigger]
                    bound_vars(next).contains_key(key) implies var_data_view(vars.view()).contains_key(key)
                    && var_data_view(vars.view())[key] == bound_vars(next)[key] by {
                    let i = choose|i: int| 0 <= i < next.len() && next[i].name@ == key;
                    if key != v.name@ {
                        assert(var_data_view(vars.view())[key] == var_data_view(old_view)[key]);
                        assert(prefix[i] == next[i]);
                        assert(bound_vars(prefix).contains_key(key));
                        let i2 = var_named(prefix, key);
                        let i3 = var_named(next, key);
                        assert(names[i2] == key && names[i3] == key);
                        if i3 == k {
                            assert(false);
                        }
                        if i2 != i3 {
                            if i2 < i3 {
                                assert(names.take(k as int)[i2] == names.take(k as int)[i3]);
                            } else {
                                assert(names.take(k as int)[i3] == names.take(k as int)[i2]);
                            }
                        }
                        assert(prefix[i2] == next[i3]);
                    } else {
                        let i3 = var_named(next, key);
                        if i3 < k {
                            assert(prefix[i3].name@ == key);
                            assert(bound_vars(prefix).contains_key(key));
                        }
                        assert(next[i3] == variables@[k as int]);
                    }
                }
                assert forall|key: Seq<char>| #[trigger]
                    var_data_view(vars.view()).contains_key(key) implies bound_vars(next).contains_key(key) by {
                    if key != v.name@ {
                        assert(bound_vars(prefix).contains_key(key));
                        let i = choose|i: int| 0 <= i < prefix.len() && prefix[i].name@ == key;
                        assert(next[i] == prefix[i]);
                    } else {
                        assert(next[k as int].name@ == key);
                    }
                }
            }
        }
        k = k + 1;
    }
    proof {
        assert(variables@.take(variables@.len() as int) =~= variables@);
        assert(names.take(names.len() as int) =~= names);
    }
    let docs = collect_docs(comments);
    Ok(Context { vars, stand_ins, docs })
}

} // verus!
