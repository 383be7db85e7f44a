//! Preprocessing of Python quotes: each `#{name}` placeholder that the
//! scanner finds is replaced by the stand-in `__pyq_N__`, where `N` is the
//! position of the variable named `name`.

use vstd::prelude::*;
use vstd::string::StringExecFns;
use crate::bindings::{stand_in_names, AssocList, StandInData, StandIns, UnboundVar, VarName};
use crate::py::context::names_of;
use crate::py::input::{VarType, Variable};
use crate::py::lexer::{hits_in_order, lemma_scan_source_sound, scan_source, ScanHit, Scanner, TokenPosition};
use crate::text::{chars_of, decimal, push_chars, push_decimal};

verus! {

/// The stand-in for the variable at position `i`: `__pyq_i__`.
pub open spec fn py_stand_in(i: int) -> Seq<char> {
    "__pyq_"@ + decimal(i as nat) + "__"@
}

/// The position that a name resolves to: that of the last variable so named.
pub open spec fn var_index(names: Seq<Seq<char>>, name: Seq<char>) -> Option<int>
    decreases names.len(),
{
    if names.len() == 0 {
        None
    } else if names.last() == name {
        Some(names.len() - 1)
    } else {
        var_index(names.drop_last(), name)
    }
}

/// What a preprocessing error says.
pub enum PreprocessErrorView {
    /// No variable has the placeholder's name.
    UnboundVar(Seq<char>),
    /// A placeholder inside a string literal names a variable that is not
    /// of a string type.
    StringVarType(Seq<char>, VarType),
}

/// The types that a placeholder inside a string literal may name: string
/// types (`&str`, `String`, `Box<str>`) and `Option`s of them.
pub open spec fn string_position_ok(ty: VarType) -> bool {
    ty.is_str_type() || (ty is Option && ty->Option_0.is_str_type())
}

/// A placeholder inside a string literal may name exactly a string type or
/// an `Option` of one.
pub proof fn lemma_string_position_types(ty: VarType)
    ensures
        string_position_ok(ty) <==> (ty.is_str_type() || (ty matches VarType::Option(inner)
            && inner.is_str_type())),
{
}

/// Computes `string_position_ok`.
fn string_position_allowed(ty: &VarType) -> (r: bool)
    ensures
        r == string_position_ok(*ty),
{
    match ty {
        VarType::Option(inner) => inner.is_str(),
        _ => ty.is_str(),
    }
}

/// The name of a placeholder occurrence: the text between `#{` and `}`.
pub open spec fn hit_name(s: Seq<char>, h: ScanHit) -> Seq<char> {
    s.subrange(h.0 + 2, h.1 - 1)
}

/// The variable position that a placeholder occurrence resolves to, or the
/// error that it raises.
pub open spec fn resolve_hit(s: Seq<char>, vars: Seq<Variable>, h: ScanHit) -> Result<
    int,
    PreprocessErrorView,
> {
    let name = hit_name(s, h);
    match var_index(names_of(vars), name) {
        None => Err(PreprocessErrorView::UnboundVar(name)),
        Some(i) => if h.2 == TokenPosition::String && !string_position_ok(vars[i].ty) {
            Err(PreprocessErrorView::StringVarType(name, vars[i].ty))
        } else {
            Ok(i)
        },
    }
}

/// Every occurrence resolves.
pub open spec fn all_resolve(s: Seq<char>, vars: Seq<Variable>, hits: Seq<ScanHit>) -> bool {
    forall|k: int| 0 <= k < hits.len() ==> (#[trigger] resolve_hit(s, vars, hits[k])) is Ok
}

/// Occurrence `k` is the first that does not resolve.
pub open spec fn first_failure(s: Seq<char>, vars: Seq<Variable>, hits: Seq<ScanHit>, k: int) -> bool {
    &&& 0 <= k < hits.len()
    &&& all_resolve(s, vars, hits.take(k))
    &&& resolve_hit(s, vars, hits[k]) is Err
}

/// Where the last occurrence ends (0 if there is none).
pub open spec fn hits_end(hits: Seq<ScanHit>) -> int {
    if hits.len() == 0 {
        0
    } else {
        hits.last().1
    }
}

/// The text of `s` up to the end of the last occurrence, each occurrence
/// replaced by its stand-in.
pub open spec fn rewritten_prefix(s: Seq<char>, vars: Seq<Variable>, hits: Seq<ScanHit>) -> Seq<char>
    decreases hits.len(),
{
    if hits.len() == 0 {
        seq![]
    } else {
        let prev = hits.drop_last();
        let h = hits.last();
        rewritten_prefix(s, vars, prev) + s.subrange(hits_end(prev), h.0) + py_stand_in(
            resolve_hit(s, vars, h)->Ok_0,
        )
    }
}

/// `s` with each occurrence replaced by its stand-in.
pub open spec fn rewritten(s: Seq<char>, vars: Seq<Variable>, hits: Seq<ScanHit>) -> Seq<char> {
    rewritten_prefix(s, vars, hits) + s.subrange(hits_end(hits), s.len() as int)
}

/// The stand-ins of the occurrences, each mapped to the name it replaced.
pub open spec fn stand_ins_of(s: Seq<char>, vars: Seq<Variable>, hits: Seq<ScanHit>) -> Map<
    Seq<char>,
    Seq<char>,
>
    decreases hits.len(),
{
    if hits.len() == 0 {
        Map::empty()
    } else {
        let h = hits.last();
        stand_ins_of(s, vars, hits.drop_last()).insert(
            py_stand_in(resolve_hit(s, vars, h)->Ok_0),
            hit_name(s, h),
        )
    }
}

/// A preprocessing error.
#[derive(Debug)]
pub enum PreprocessError {
    /// No variable has the placeholder's name.
    UnboundVar(UnboundVar),
    /// A placeholder inside a string literal names a variable that is not of
    /// a string type or an `Option` of one.
    StringVarType(String, VarType),
}

impl PreprocessError {
    pub open spec fn view(self) -> PreprocessErrorView {
        match self {
            PreprocessError::UnboundVar(e) => PreprocessErrorView::UnboundVar(e.0@),
            PreprocessError::StringVarType(name, ty) => PreprocessErrorView::StringVarType(name@, ty),
        }
    }

    /// The error message.
    pub fn message(&self) -> (r: String)
        ensures
            r@ == match self.view() {
                PreprocessErrorView::UnboundVar(name) => "variable `#{"@ + name
                    + "}` not bound to a value"@,
                PreprocessErrorView::StringVarType(name, ty) => "variable `#{"@ + name
                    + "}` in string literal must be `&str` or `String`, but is `"@
                    + crate::py::input::type_text(ty) + "`"@,
            },
    {
        match self {
            PreprocessError::UnboundVar(e) => e.message(),
            PreprocessError::StringVarType(name, ty) => {
                let mut r = String::new();
                r.append("variable `#{");
                r.append(name.as_str());
                r.append("}` in string literal must be `&str` or `String`, but is `");
                ty.write_to(&mut r);
                r.append("`");
                r
            },
        }
    }
}

proof fn lemma_var_index(names: Seq<Seq<char>>, name: Seq<char>)
    ensures
        var_index(names, name) matches Some(i) ==> 0 <= i < names.len() && names[i] == name,
    decreases names.len(),
{
    if names.len() > 0 && names.last() != name {
        lemma_var_index(names.drop_last(), name);
    }
}

/// The position of the last variable named `name`.
fn find_var(variables: &[Variable], name: &String) -> (r: Option<usize>)
    ensures
        r matches Some(i) ==> var_index(names_of(variables@), name@) == Some(i as int),
        r is None ==> var_index(names_of(variables@), name@) is None,
{
    let ghost names = names_of(variables@);
    let mut k: usize = variables.len();
    proof {
        assert(names.take(k as int) =~= names);
    }
    while k > 0
        invariant
            k <= variables@.len(),
            names == names_of(variables@),
            var_index(names, name@) == var_index(names.take(k as int), name@),
        decreases k,
    {
        proof {
            assert(names.take(k as int).drop_last() =~= names.take(k - 1));
        }
        if variables[k - 1].name == *name {
            return Some(k - 1);
        }
        k = k - 1;
    }
    None
}

proof fn lemma_prefix_step(s: Seq<char>, vars: Seq<Variable>, all: Seq<ScanHit>, k: int)
    requires
        0 <= k < all.len(),
    ensures
        all.take(k + 1).drop_last() == all.take(k),
        all.take(k + 1).last() == all[k],
        rewritten_prefix(s, vars, all.take(k + 1)) == rewritten_prefix(s, vars, all.take(k))
            + s.subrange(hits_end(all.take(k)), all[k].0) + py_stand_in(
            resolve_hit(s, vars, all[k])->Ok_0,
        ),
        stand_ins_of(s, vars, all.take(k + 1)) == stand_ins_of(s, vars, all.take(k)).insert(
            py_stand_in(resolve_hit(s, vars, all[k])->Ok_0),
            hit_name(s, all[k]),
        ),
        hits_end(all.take(k + 1)) == all[k].1,
{
    assert(all.take(k + 1).drop_last() =~= all.take(k));
}

proof fn lemma_failure(s: Seq<char>, vars: Seq<Variable>, all: Seq<ScanHit>, k: int, e: PreprocessErrorView)
    requires
        0 <= k < all.len(),
        all_resolve(s, vars, all.take(k)),
        resolve_hit(s, vars, all[k]) == Err::<int, PreprocessErrorView>(e),
    ensures
        exists|j: int|
            first_failure(s, vars, all, j) && resolve_hit(s, vars, all[j]) == Err::<
                int,
                PreprocessErrorView,
            >(e),
{
    assert(first_failure(s, vars, all, k));
}

proof fn lemma_resolve_step(s: Seq<char>, vars: Seq<Variable>, all: Seq<ScanHit>, k: int)
    requires
        0 <= k < all.len(),
        all_resolve(s, vars, all.take(k)),
        resolve_hit(s, vars, all[k]) is Ok,
    ensures
        all_resolve(s, vars, all.take(k + 1)),
{
    assert forall|j: int| 0 <= j < k + 1 implies (#[trigger] resolve_hit(
        s,
        vars,
        all.take(k + 1)[j],
    )) is Ok by {
        if j < k {
            assert(all.take(k + 1)[j] == all.take(k)[j]);
        }
    }
}

/// Replaces each `#{name}` placeholder in `source` with the stand-in
/// `__pyq_N__`, where `N` is the position of the last variable named `name`,
/// and records each stand-in with the name it replaced. Placeholders inside
/// string literals must name a variable of a string type (`&str`, `String`,
/// `Box<str>`) or an `Option` of one. Fails at the
/// first placeholder, in source order, that names no variable or breaks that
/// rule.
#[verifier::rlimit(40)]
pub fn preprocess(source: &str, variables: &[Variable]) -> (r: Result<(String, StandIns), PreprocessError>)
    ensures
        ({
            let s = source@;
            let hits = scan_source(s);
            match r {
                Ok((out, stand_ins)) => {
                    &&& all_resolve(s, variables@, hits)
                    &&& out@ == rewritten(s, variables@, hits)
                    &&& stand_in_names(stand_ins.view()) == stand_ins_of(s, variables@, hits)
                },
                Err(e) => exists|k: int|
                    first_failure(s, variables@, hits, k) && resolve_hit(s, variables@, hits[k])
                        == Err::<int, PreprocessErrorView>(e.view()),
            }
        }),
{
    let ghost s = source@;
    let ghost vars = variables@;
    let ghost all = scan_source(s);
    let chars = chars_of(source);
    let mut scanner = Scanner::new(source);
    let mut out = String::new();
    let mut stand_ins: StandIns = AssocList::new();
    let mut last: usize = 0;
    let ghost mut done: int = 0;
    proof {
        lemma_scan_source_sound(s);
        assert(all.take(0) =~= Seq::<ScanHit>::empty());
        assert(all.subrange(0, all.len() as int) =~= all);
        assert(stand_in_names(stand_ins.view()) =~= Map::<Seq<char>, Seq<char>>::empty());
    }
    loop
        invariant_except_break
            scanner.wf(),
            scanner.source() == s,
            scanner.remaining() == all.subrange(done, all.len() as int),
        invariant
            s == source@,
            chars@ == s,
            vars == variables@,
            all == scan_source(s),
            0 <= done <= all.len(),
            all_resolve(s, vars, all.take(done)),
            out@ == rewritten_prefix(s, vars, all.take(done)),
            last == hits_end(all.take(done)),
            last <= s.len(),
            done < all.len() ==> last <= all[done].0,
            stand_in_names(stand_ins.view()) == stand_ins_of(s, vars, all.take(done)),
            forall|k: int|
                0 <= k < all.len() ==> {
                    let h = #[trigger] all[k];
                    &&& 0 <= h.0 && h.0 + 3 < h.1 <= s.len()
                    &&& hit_name(s, h) == s.subrange(h.0 + 2, h.1 - 1)
                },
            forall|k: int| 0 <= k < all.len() - 1 ==> (#[trigger] all[k]).1 <= all[k + 1].0,
        ensures
            done == all.len(),
        decreases all.len() - done,
    {
        let ghost before = scanner.remaining();
        match scanner.next_hit() {
            None => {
                proof {
                    assert(done == all.len());
                }
                break;
            },
            Some((t, i, e)) => {
                let ghost h = all[done];
                proof {
                    assert(before[0] == h);
                }
                let found = find_var(variables, &t.name);
                let ix = match found {
                    None => {
                        proof {
                            lemma_failure(s, vars, all, done, PreprocessErrorView::UnboundVar(t.name@));
                        }
                        return Err(PreprocessError::UnboundVar(UnboundVar(t.name)));
                    },
                    Some(ix) => ix,
                };
                proof {
                    lemma_var_index(names_of(vars), t.name@);
                }
                if t.pos == TokenPosition::String && !string_position_allowed(&variables[ix].ty) {
                    proof {
                        lemma_failure(
                            s,
                            vars,
                            all,
                            done,
                            PreprocessErrorView::StringVarType(t.name@, variables@[ix as int].ty),
                        );
                    }
                    return Err(PreprocessError::StringVarType(t.name, variables[ix].ty.clone()));
                }
                push_chars(&mut out, chars.as_slice(), last, i);
                let mut st = String::new();
                st.append("__pyq_");
                push_decimal(&mut st, ix);
                st.append("__");
                out.append(st.as_str());
                let ghost st_view = st@;
                let ghost old_st = stand_ins.view();
                stand_ins.insert(st, StandInData { var: VarName::from_str(t.name.as_str()) });
                proof {
                    lemma_prefix_step(s, vars, all, done);
                    assert(resolve_hit(s, vars, h) == Ok::<int, PreprocessErrorView>(ix as int));
                    assert(st_view == py_stand_in(ix as int));
                    assert(stand_in_names(stand_ins.view()) =~= stand_in_names(old_st).insert(
                        st_view,
                        t.name@,
                    ));
                    lemma_resolve_step(s, vars, all, done);
                    assert(before.drop_first() =~= all.subrange(done + 1, all.len() as int));
                }
                last = e;
                proof {
                    done = done + 1;
                }
            },
        }
    }
    push_chars(&mut out, chars.as_slice(), last, chars.len());
    proof {
        assert(all.take(done) =~= all);
    }
    Ok((out, stand_ins))
}

// MARK: Laws

/// Distinct positions have distinct stand-ins.
proof fn lemma_stand_in_injective(i: int, j: int)
    requires
        0 <= i,
        0 <= j,
        py_stand_in(i) == py_stand_in(j),
    ensures
        i == j,
{
    let p = "__pyq_"@;
    let q = "__"@;
    let a = py_stand_in(i);
    let b = py_stand_in(j);
    assert(decimal(i as nat) =~= a.subrange(p.len() as int, a.len() - q.len()));
    assert(decimal(j as nat) =~= b.subrange(p.len() as int, b.len() - q.len()));
    crate::text::lemma_decimal_injective(i as nat, j as nat);
}

/// Each recorded stand-in maps to the name at the position it encodes.
proof fn lemma_stand_ins_of(s: Seq<char>, vars: Seq<Variable>, hits: Seq<ScanHit>)
    requires
        all_resolve(s, vars, hits),
    ensures
        forall|key: Seq<char>| #[trigger]
            stand_ins_of(s, vars, hits).contains_key(key) ==> exists|k: int|
                0 <= k < hits.len() && key == py_stand_in(resolve_hit(s, vars, hits[k])->Ok_0)
                    && stand_ins_of(s, vars, hits)[key] == hit_name(s, hits[k]),
        forall|k: int|
            0 <= k < hits.len() ==> stand_ins_of(s, vars, hits).contains_key(
                py_stand_in(resolve_hit(s, vars, #[trigger] hits[k])->Ok_0),
            ),
    decreases hits.len(),
{
    if hits.len() > 0 {
        let prev = hits.drop_last();
        assert forall|k: int| 0 <= k < prev.len() implies (#[trigger] resolve_hit(
            s,
            vars,
            prev[k],
        )) is Ok by {
            assert(prev[k] == hits[k]);
        }
        lemma_stand_ins_of(s, vars, prev);
        let m = stand_ins_of(s, vars, hits);
        assert forall|key: Seq<char>| #[trigger] m.contains_key(key) implies exists|k: int|
            0 <= k < hits.len() && key == py_stand_in(resolve_hit(s, vars, hits[k])->Ok_0)
                && m[key] == hit_name(s, hits[k]) by {
            if key != py_stand_in(resolve_hit(s, vars, hits.last())->Ok_0) {
                let k = choose|k: int|
                    0 <= k < prev.len() && key == py_stand_in(resolve_hit(s, vars, prev[k])->Ok_0)
                        && stand_ins_of(s, vars, prev)[key] == hit_name(s, prev[k]);
                assert(prev[k] == hits[k]);
            } else {
                assert(hits[hits.len() - 1] == hits.last());
            }
        }
        assert forall|k: int| 0 <= k < hits.len() implies m.contains_key(
            py_stand_in(resolve_hit(s, vars, #[trigger] hits[k])->Ok_0),
        ) by {
            if k < prev.len() {
                assert(prev[k] == hits[k]);
            }
        }
    }
}

/// Preprocessing and the context agree: when every placeholder resolves and
/// the variables have distinct names, the stand-in recorded for each
/// placeholder leads back to the name in that placeholder, and the context
/// binds that name to the identifier `quote_var_` + name and to the type of
/// the variable whose position the stand-in encodes.
pub proof fn lemma_stand_ins_resolve(s: Seq<char>, vars: Seq<Variable>, k: int)
    requires
        all_resolve(s, vars, scan_source(s)),
        crate::py::context::all_distinct(names_of(vars)),
        0 <= k < scan_source(s).len(),
    ensures
        ({
            let hits = scan_source(s);
            let i = resolve_hit(s, vars, hits[k])->Ok_0;
            let name = hit_name(s, hits[k]);
            let key = py_stand_in(i);
            &&& 0 <= i < vars.len()
            &&& vars[i].name@ == name
            &&& stand_ins_of(s, vars, hits).contains_key(key)
            &&& stand_ins_of(s, vars, hits)[key] == name
            &&& crate::py::context::bound_vars(vars).contains_key(name)
            &&& crate::py::context::bound_vars(vars)[name] == (
                crate::py::context::binding_ident(name),
                vars[i].ty,
            )
        }),
{
    let hits = scan_source(s);
    let names = names_of(vars);
    lemma_stand_ins_of(s, vars, hits);
    let i = resolve_hit(s, vars, hits[k])->Ok_0;
    let name = hit_name(s, hits[k]);
    let key = py_stand_in(i);
    assert(resolve_hit(s, vars, hits[k]) is Ok);
    lemma_var_index(names, name);
    assert(names[i] == name);
    let m = stand_ins_of(s, vars, hits);
    assert(m.contains_key(key));
    let k2 = choose|k2: int|
        0 <= k2 < hits.len() && key == py_stand_in(resolve_hit(s, vars, hits[k2])->Ok_0)
            && m[key] == hit_name(s, hits[k2]);
    let i2 = resolve_hit(s, vars, hits[k2])->Ok_0;
    assert(resolve_hit(s, vars, hits[k2]) is Ok);
    lemma_var_index(names, hit_name(s, hits[k2]));
    lemma_stand_in_injective(i, i2);
    assert(crate::py::context::bound_vars(vars).contains_key(name)) by {
        assert(vars[i].name@ == names[i]);
    }
    let i3 = crate::py::context::var_named(vars, name);
    assert(names[i3] == name);
    if i3 != i {
        if i3 < i {
            assert(names[i3] != names[i]);
        } else {
            assert(names[i] != names[i3]);
        }
    }
    assert(crate::py::context::bound_vars(vars)[name] == (
        crate::py::context::binding_ident(name),
        vars[i3].ty,
    ));
}

/// A source without placeholders comes out of preprocessing unchanged, with
/// no stand-ins.
pub proof fn lemma_no_placeholders(s: Seq<char>, vars: Seq<Variable>)
    requires
        scan_source(s).len() == 0,
    ensures
        all_resolve(s, vars, scan_source(s)),
        rewritten(s, vars, scan_source(s)) == s,
        stand_ins_of(s, vars, scan_source(s)) == Map::<Seq<char>, Seq<char>>::empty(),
{
    assert(s.subrange(0, s.len() as int) =~= s);
    assert(rewritten(s, vars, scan_source(s)) =~= s);
}

} // verus!
