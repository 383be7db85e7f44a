//! Preprocessing of TypeScript quotes: each `#{name}` placeholder, in the
//! token stream or in a JSDoc comment, is replaced by a stand-in built from
//! `__tsq_N__`, where `N` is the position of the variable named `name`.

use vstd::prelude::*;
use vstd::string::StringExecFns;
use crate::bindings::{stand_in_names, AssocList, StandInData, StandIns, UnboundVar, VarName};
use crate::text::{chars_of, decimal, occurs_at, push_chars, push_decimal, utf8_len, byte_len, matches_at};
use crate::ts::context::names_of;
use crate::ts::input::{StrVarType, VarType, Variable};
use crate::ts::lexed::{
    comment_list, comment_set, is_jsdoc, is_jsdoc_text, lex_typescript, token_views, ts_lexed,
    LexedComment, LexedToken, TokenKind,
};
use crate::segments::{lemma_word_run, IdentClass};
use crate::ts::lexer::{
    char_index, comment_placeholder_at, comment_placeholder_end, find_char_index,
    source_placeholders, SourceHit, SourceScanner,
};

verus! {

/// The stand-in for the variable at position `i`: `__tsq_i__`.
pub open spec fn ts_stand_in(i: int) -> Seq<char> {
    "__tsq_"@ + decimal(i as nat) + "__"@
}

/// The position that a name resolves to: that of the last variable so named.
pub open spec fn var_index(names: Seq<Seq<char>>, name: Seq<char>) -> Option<int>
    decreases names.len(),
{
    if names.len() == 0 {
        None
    } else if names.last() == name {
        Some(names.len() - 1)
    } else {
        var_index(names.drop_last(), name)
    }
}

proof fn lemma_var_index(names: Seq<Seq<char>>, name: Seq<char>)
    ensures
        var_index(names, name) matches Some(i) ==> 0 <= i < names.len() && names[i] == name,
    decreases names.len(),
{
    if names.len() > 0 && names.last() != name {
        lemma_var_index(names.drop_last(), name);
    }
}

/// What stands in the source for a placeholder in the token stream, by the
/// variable's type: a string literal for strings, since positions like import
/// specifiers require one; a JSDoc comment for `JsDoc`; a `var` declaration
/// for `Decl`, since positions like exports require a declaration; the bare
/// identifier otherwise.
pub open spec fn source_replacement(stand_in: Seq<char>, ty: VarType) -> Seq<char> {
    match ty.inner_type() {
        VarType::Str(_) => "\""@ + stand_in + "\""@,
        VarType::JsDoc => "/** "@ + stand_in + " */"@,
        VarType::Decl => "var "@ + stand_in,
        _ => stand_in,
    }
}

/// Only string (`&str`, `String`, `Box<str>`) and `JsDoc` variables, or
/// `Option`s of them, can be spliced into JSDoc comments.
pub open spec fn jsdoc_type_ok(ty: VarType) -> bool {
    match ty {
        VarType::JsDoc => true,
        VarType::Option(inner) => inner.is_str_type() || *inner == VarType::JsDoc,
        _ => ty.is_str_type(),
    }
}

/// What stands in for a placeholder in the token stream, by the type the
/// variable holds (through `&`, `Box`, `Option` and `Vec`): a string type
/// gets the stand-in quoted, `JsDoc` the stand-in in a JSDoc comment, `Decl`
/// a `var` declaration of it, and every other type the bare stand-in.
/// Inside JSDoc comments exactly the string types, `JsDoc`, and `Option`s of
/// them are accepted.
pub proof fn lemma_stand_in_forms(stand_in: Seq<char>, ty: VarType)
    ensures
        ty.inner_type() is Str ==> source_replacement(stand_in, ty) == seq!['"'] + stand_in
            + seq!['"'],
        ty.inner_type() == VarType::JsDoc ==> source_replacement(stand_in, ty) == seq![
            '/',
            '*',
            '*',
            ' ',
        ] + stand_in + seq![' ', '*', '/'],
        ty.inner_type() == VarType::Decl ==> source_replacement(stand_in, ty) == seq![
            'v',
            'a',
            'r',
            ' ',
        ] + stand_in,
        !(ty.inner_type() is Str || ty.inner_type() == VarType::JsDoc || ty.inner_type()
            == VarType::Decl) ==> source_replacement(stand_in, ty) == stand_in,
        jsdoc_type_ok(ty) <==> (ty == VarType::JsDoc || ty.is_str_type() || (ty matches VarType::Option(
            inner,
        ) && (inner.is_str_type() || *inner == VarType::JsDoc))),
{
    reveal_strlit("\"");
    reveal_strlit("/** ");
    reveal_strlit(" */");
    reveal_strlit("var ");
}

/// A placeholder occurrence: its name, whether it is inside a JSDoc comment,
/// and the character range that it takes in the source, if known.
pub type Occurrence = (Seq<char>, bool, Option<(int, int)>);

/// The occurrences of placeholders found in the token stream.
pub open spec fn source_occurrences(hits: Seq<SourceHit>) -> Seq<Occurrence>
    decreases hits.len(),
{
    if hits.len() == 0 {
        seq![]
    } else {
        seq![(hits[0].0, false, Some((hits[0].1, hits[0].2)))] + source_occurrences(
            hits.drop_first(),
        )
    }
}

/// The placeholders in comment text from `i`, left to right, as (name,
/// start, end) in characters.
pub open spec fn comment_hits(t: Seq<char>, i: int) -> Seq<(Seq<char>, int, int)>
    decreases t.len() - i,
{
    if i < 0 || i >= t.len() {
        seq![]
    } else {
        match comment_placeholder_end(t, i) {
            Some(e) => if e <= i || e > t.len() {
                seq![]
            } else {
                seq![(t.subrange(i + 2, e - 1), i, e)] + comment_hits(t, e)
            },
            None => comment_hits(t, i + 1),
        }
    }
}

/// Where the text of a comment that starts at `lo` begins in `s`: two
/// characters after the comment's start, provided the text is there.
pub open spec fn comment_base(s: Seq<char>, start: int, lo: int, text: Seq<char>) -> Option<int> {
    if lo < start {
        None
    } else {
        match char_index(s, lo - start + 2) {
            Some(b) => if occurs_at(s, b, text) {
                Some(b)
            } else {
                None
            },
            None => None,
        }
    }
}

/// The occurrences for the placeholders `hits` of a comment whose text
/// begins at `base`.
pub open spec fn comment_hit_occurrences(hits: Seq<(Seq<char>, int, int)>, base: Option<int>) -> Seq<
    Occurrence,
>
    decreases hits.len(),
{
    if hits.len() == 0 {
        seq![]
    } else {
        let h = hits[0];
        let range = match base {
            Some(b) => Some((b + h.1, b + h.2)),
            None => None,
        };
        seq![(h.0, true, range)] + comment_hit_occurrences(hits.drop_first(), base)
    }
}

/// The occurrences in one comment: none unless it is a JSDoc comment, a
/// block comment whose text starts with exactly one `*`.
pub open spec fn occurrences_in_comment(s: Seq<char>, start: int, c: (u32, bool, Seq<char>)) -> Seq<
    Occurrence,
> {
    if c.1 && is_jsdoc_text(c.2) {
        comment_hit_occurrences(comment_hits(c.2, 0), comment_base(s, start, c.0 as int, c.2))
    } else {
        seq![]
    }
}

/// The occurrences in the comments, comment by comment.
pub open spec fn comment_occurrences(s: Seq<char>, start: int, cs: Seq<(u32, bool, Seq<char>)>) -> Seq<
    Occurrence,
>
    decreases cs.len(),
{
    if cs.len() == 0 {
        seq![]
    } else {
        comment_occurrences(s, start, cs.drop_last()) + occurrences_in_comment(s, start, cs.last())
    }
}

/// All occurrences: those in the token stream, then those in the comments.
pub open spec fn occurrences(
    s: Seq<char>,
    start: int,
    toks: Seq<(TokenKind, u32, u32)>,
    cs: Seq<(u32, bool, Seq<char>)>,
) -> Seq<Occurrence> {
    source_occurrences(source_placeholders(s, start, toks, 0)) + comment_occurrences(s, start, cs)
}

/// What a preprocessing error says.
pub enum PreprocessErrorView {
    /// No variable has the name of a placeholder in the token stream.
    UnboundVar(Seq<char>),
    /// A placeholder in a JSDoc comment names a variable of another type
    /// than those that `jsdoc_type_ok` allows.
    JsDocVarType(Seq<char>, VarType),
    /// No variable has the name of a placeholder in a JSDoc comment.
    JsDocUnboundVar(Seq<char>),
}

/// The variable position that an occurrence resolves to and the text that
/// stands for it, or the error that it raises.
pub open spec fn resolve(vars: Seq<Variable>, o: Occurrence) -> Result<
    (int, Seq<char>),
    PreprocessErrorView,
> {
    match var_index(names_of(vars), o.0) {
        None => if o.1 {
            Err(PreprocessErrorView::JsDocUnboundVar(o.0))
        } else {
            Err(PreprocessErrorView::UnboundVar(o.0))
        },
        Some(i) => if !o.1 {
            Ok((i, source_replacement(ts_stand_in(i), vars[i].ty)))
        } else if jsdoc_type_ok(vars[i].ty) {
            Ok((i, ts_stand_in(i)))
        } else {
            Err(PreprocessErrorView::JsDocVarType(o.0, vars[i].ty))
        },
    }
}

/// Every occurrence resolves.
pub open spec fn all_resolve(vars: Seq<Variable>, occs: Seq<Occurrence>) -> bool {
    forall|k: int| 0 <= k < occs.len() ==> (#[trigger] resolve(vars, occs[k])) is Ok
}

/// Occurrence `k` is the first that does not resolve.
pub open spec fn first_failure(vars: Seq<Variable>, occs: Seq<Occurrence>, k: int) -> bool {
    &&& 0 <= k < occs.len()
    &&& all_resolve(vars, occs.take(k))
    &&& resolve(vars, occs[k]) is Err
}

/// A replacement: the character range it replaces and the text it puts
/// there.
pub type Replacement = (int, int, Seq<char>);

/// The replacements of the occurrences whose range is known, in order.
pub open spec fn replacements(vars: Seq<Variable>, occs: Seq<Occurrence>) -> Seq<Replacement>
    decreases occs.len(),
{
    if occs.len() == 0 {
        seq![]
    } else {
        let prev = replacements(vars, occs.drop_last());
        let o = occs.last();
        match o.2 {
            Some((a, b)) => prev.push((a, b, resolve(vars, o)->Ok_0.1)),
            None => prev,
        }
    }
}

/// The stand-ins of the occurrences, each mapped to the name it replaced.
pub open spec fn stand_ins_of(vars: Seq<Variable>, occs: Seq<Occurrence>) -> Map<
    Seq<char>,
    Seq<char>,
>
    decreases occs.len(),
{
    if occs.len() == 0 {
        Map::empty()
    } else {
        let o = occs.last();
        stand_ins_of(vars, occs.drop_last()).insert(ts_stand_in(resolve(vars, o)->Ok_0.0), o.0)
    }
}

/// `r` inserted into `rs` after every replacement that starts at or before
/// it, and before the run of those at the end that start after it.
pub open spec fn insert_by_start(rs: Seq<Replacement>, r: Replacement) -> Seq<Replacement>
    decreases rs.len(),
{
    if rs.len() == 0 || rs.last().0 <= r.0 {
        rs.push(r)
    } else {
        insert_by_start(rs.drop_last(), r).push(rs.last())
    }
}

/// The replacements stably sorted by start.
pub open spec fn sort_by_start(rs: Seq<Replacement>) -> Seq<Replacement>
    decreases rs.len(),
{
    if rs.len() == 0 {
        seq![]
    } else {
        insert_by_start(sort_by_start(rs.drop_last()), rs.last())
    }
}

/// `s` from `pos` on, with the replacements `rs[k..]` made left to right; a
/// replacement that starts before `pos`, or whose range does not lie within
/// `s`, is passed over.
pub open spec fn apply_from(s: Seq<char>, rs: Seq<Replacement>, k: int, pos: int) -> Seq<char>
    decreases rs.len() - k,
{
    if k < 0 || k >= rs.len() {
        s.subrange(pos, s.len() as int)
    } else {
        let (a, b, t) = rs[k];
        if pos <= a && a <= b && b <= s.len() {
            s.subrange(pos, a) + t + apply_from(s, rs, k + 1, b)
        } else {
            apply_from(s, rs, k + 1, pos)
        }
    }
}

/// The preprocessed source: `s` with the replacements made in order of
/// their starts.
pub open spec fn preprocessed(s: Seq<char>, vars: Seq<Variable>, occs: Seq<Occurrence>) -> Seq<
    char,
> {
    apply_from(s, sort_by_start(replacements(vars, occs)), 0, 0)
}

// MARK: Errors

/// A preprocessing error.
#[derive(Debug)]
pub enum PreprocessError {
    /// No variable has the name of a placeholder in the token stream.
    UnboundVar(UnboundVar),
    /// A placeholder in a JSDoc comment names a variable that is not `&str`,
    /// `String`, `JsDoc`, or an `Option` of one of these.
    JsDocVarType(String, VarType),
    /// No variable has the name of a placeholder in a JSDoc comment.
    JsDocUnboundVar(UnboundVar),
}

impl PreprocessError {
    pub open spec fn view(self) -> PreprocessErrorView {
        match self {
            PreprocessError::UnboundVar(e) => PreprocessErrorView::UnboundVar(e.0@),
            PreprocessError::JsDocVarType(name, ty) => PreprocessErrorView::JsDocVarType(name@, ty),
            PreprocessError::JsDocUnboundVar(e) => PreprocessErrorView::JsDocUnboundVar(e.0@),
        }
    }

    /// The error message.
    pub fn message(&self) -> (r: String)
        ensures
            r@ == match self.view() {
                PreprocessErrorView::UnboundVar(name) => "variable `#{"@ + name
                    + "}` not bound to a value"@,
                PreprocessErrorView::JsDocVarType(name, ty) => "variable `#{"@ + name
                    + "}` in JSDoc comment must have type `&str`, `String`, or `JsDoc`, but has type `"@
                    + crate::ts::input::type_text(ty) + "`"@,
                PreprocessErrorView::JsDocUnboundVar(name) => "variable `#{"@ + name
                    + "}` in JSDoc comment not bound to a value"@,
            },
    {
        match self {
            PreprocessError::UnboundVar(e) => e.message(),
            PreprocessError::JsDocVarType(name, ty) => {
                let mut r = String::new();
                r.append("variable `#{");
                r.append(name.as_str());
                r.append("}` in JSDoc comment must have type `&str`, `String`, or `JsDoc`, but has type `");
                ty.write_to(&mut r);
                r.append("`");
                r
            },
            PreprocessError::JsDocUnboundVar(e) => {
                let mut r = String::new();
                r.append("variable `#{");
                r.append(e.0.as_str());
                r.append("}` in JSDoc comment not bound to a value");
                r
            },
        }
    }
}

// MARK: Occurrences

/// A placeholder occurrence, as `Occurrence` describes it.
struct Occ {
    name: String,
    in_comment: bool,
    range: Option<(usize, usize)>,
}

impl Occ {
    spec fn view(self) -> Occurrence {
        (
            self.name@,
            self.in_comment,
            match self.range {
                Some((a, b)) => Some((a as int, b as int)),
                None => None,
            },
        )
    }
}

spec fn occ_views(v: Seq<Occ>) -> Seq<Occurrence> {
    v.map_values(|o: Occ| o.view())
}

proof fn lemma_occ_views_push(v: Seq<Occ>, o: Occ)
    ensures
        occ_views(v.push(o)) == occ_views(v) + seq![o.view()],
{
    assert(occ_views(v.push(o)) =~= occ_views(v) + seq![o.view()]);
}

/// The occurrences in the token stream.
fn scan_source_occurrences(source: &str, start: u32, tokens: Vec<LexedToken>) -> (r: Vec<Occ>)
    ensures
        occ_views(r@) == source_occurrences(
            source_placeholders(source@, start as int, token_views(tokens@), 0),
        ),
{
    let ghost all = source_placeholders(source@, start as int, token_views(tokens@), 0);
    let mut out: Vec<Occ> = Vec::new();
    let mut scanner = match SourceScanner::new(source, start, tokens) {
        Some(sc) => sc,
        None => {
            assert(token_views(tokens@).len() == 0);
            assert(all.len() == 0);
            assert(occ_views(out@) =~= source_occurrences(all));
            return out;
        },
    };
    assert(occ_views(out@) + source_occurrences(scanner.remaining()) =~= source_occurrences(all));
    loop
        invariant
            occ_views(out@) + source_occurrences(scanner.remaining()) == source_occurrences(all),
            all == source_placeholders(source@, start as int, token_views(tokens@), 0),
        decreases scanner.remaining().len(),
    {
        let ghost before = scanner.remaining();
        match scanner.next_hit() {
            Some((t, a, d)) => {
                let o = Occ { name: t.name, in_comment: false, range: Some((a, d)) };
                proof {
                    lemma_occ_views_push(out@, o);
                    assert(source_occurrences(before) =~= seq![o.view()] + source_occurrences(
                        before.drop_first(),
                    ));
                }
                out.push(o);
            },
            None => {
                assert(before.len() == 0);
                assert(source_occurrences(before) =~= Seq::<Occurrence>::empty());
                assert(occ_views(out@) =~= source_occurrences(all));
                return out;
            },
        }
    }
}

/// Computes `comment_base`.
fn find_comment_base(chars: &[char], start: u32, lo: u32, text: &[char]) -> (r: Option<usize>)
    requires
        utf8_len(chars@) <= usize::MAX,
    ensures
        r matches Some(b) ==> comment_base(chars@, start as int, lo as int, text@) == Some(b as int),
        r is None ==> comment_base(chars@, start as int, lo as int, text@) is None,
{
    if lo < start {
        return None;
    }
    match find_char_index(chars, (lo - start) as u64 + 2) {
        Some(b) => if matches_at(chars, b, text) {
            Some(b)
        } else {
            None
        },
        None => None,
    }
}

/// The occurrences in the comments.
fn scan_comment_occurrences(chars: &[char], start: u32, comments: &[LexedComment]) -> (r: Vec<Occ>)
    requires
        utf8_len(chars@) <= usize::MAX,
    ensures
        occ_views(r@) == comment_occurrences(chars@, start as int, comment_views(comments@)),
{
    let ghost s = chars@;
    let ghost cs = comment_views(comments@);
    let mut out: Vec<Occ> = Vec::new();
    let mut k: usize = 0;
    proof {
        assert(cs.take(0) =~= Seq::<(u32, bool, Seq<char>)>::empty());
        assert(occ_views(out@) =~= Seq::<Occurrence>::empty());
    }
    while k < comments.len()
        invariant
            k <= comments@.len(),
            s == chars@,
            cs == comment_views(comments@),
            utf8_len(chars@) <= usize::MAX,
            occ_views(out@) == comment_occurrences(s, start as int, cs.take(k as int)),
        decreases comments@.len() - k,
    {
        let c = &comments[k];
        let ghost target = comment_occurrences(s, start as int, cs.take(k + 1));
        proof {
            assert(cs.take(k + 1).drop_last() =~= cs.take(k as int));
            assert(cs.take(k + 1).last() == c.view());
        }
        if c.block && is_jsdoc(c.text.as_str()) {
            let text = chars_of(c.text.as_str());
            let base = find_comment_base(chars, start, c.lo, text.as_slice());
            let ghost t = text@;
            let ghost bv = match base {
                Some(b) => Some(b as int),
                None => None,
            };
            let mut pos: usize = 0;
            let n = chars.len();
            proof {
                assert(occ_views(out@) + comment_hit_occurrences(comment_hits(t, 0), bv) == target);
            }
            while pos < text.len()
                invariant
                    pos <= text@.len(),
                    n == s.len(),
                    t == text@,
                    occ_views(out@) + comment_hit_occurrences(comment_hits(t, pos as int), bv)
                        == target,
                    base matches Some(b) ==> b + t.len() <= s.len(),
                    s == chars@,
                    bv == match base {
                        Some(b) => Some(b as int),
                        None => None::<int>,
                    },
                decreases text@.len() - pos,
            {
                match comment_placeholder_at(text.as_slice(), pos) {
                    Some(e) => {
                        let mut name = String::new();
                        push_chars(&mut name, text.as_slice(), pos + 2, e - 1);
                        let range = match base {
                            Some(b) => Some((b + pos, b + e)),
                            None => None,
                        };
                        let o = Occ { name, in_comment: true, range };
                        proof {
                            lemma_occ_views_push(out@, o);
                            let hs = comment_hits(t, pos as int);
                            assert(hs == seq![(t.subrange(pos + 2, e - 1), pos as int, e as int)]
                                + comment_hits(t, e as int));
                            assert(hs[0] == (t.subrange(pos + 2, e - 1), pos as int, e as int));
                            assert(hs.drop_first() =~= comment_hits(t, e as int));
                            assert(comment_hit_occurrences(hs, bv) =~= seq![o.view()]
                                + comment_hit_occurrences(hs.drop_first(), bv));
                        }
                        out.push(o);
                        pos = e;
                    },
                    None => {
                        pos = pos + 1;
                    },
                }
            }
            proof {
                assert(comment_hit_occurrences(comment_hits(t, pos as int), bv) =~= Seq::<
                    Occurrence,
                >::empty());
                assert(occ_views(out@) =~= target);
            }
        } else {
            proof {
                assert(target =~= comment_occurrences(s, start as int, cs.take(k as int)));
            }
        }
        k = k + 1;
    }
    proof {
        assert(cs.take(comments@.len() as int) =~= cs);
    }
    out
}

/// The views of `comments`, in order.
pub open spec fn comment_views(comments: Seq<LexedComment>) -> Seq<(u32, bool, Seq<char>)> {
    comments.map_values(|c: LexedComment| c.view())
}

// MARK: Replacements

/// A replacement, as `Replacement` describes it.
struct Repl {
    start: usize,
    end: usize,
    text: String,
}

impl Repl {
    spec fn view(self) -> Replacement {
        (self.start as int, self.end as int, self.text@)
    }
}

spec fn repl_views(v: Seq<Repl>) -> Seq<Replacement> {
    v.map_values(|r: Repl| r.view())
}

/// Inserting before a final run of later starts, after an earlier or equal
/// start, is `insert_by_start`.
proof fn lemma_insert_by_start(rs: Seq<Replacement>, r: Replacement, p: int)
    requires
        0 <= p <= rs.len(),
        forall|j: int| p <= j < rs.len() ==> (#[trigger] rs[j]).0 > r.0,
        p > 0 ==> rs[p - 1].0 <= r.0,
    ensures
        insert_by_start(rs, r) == rs.insert(p, r),
    decreases rs.len(),
{
    if rs.len() == 0 {
        assert(rs.insert(p, r) =~= rs.push(r));
    } else if rs.last().0 <= r.0 {
        if p < rs.len() {
            assert(rs[rs.len() - 1].0 > r.0);
        }
        assert(rs.insert(p, r) =~= rs.push(r));
    } else {
        assert(p < rs.len());
        let d = rs.drop_last();
        assert forall|j: int| p <= j < d.len() implies (#[trigger] d[j]).0 > r.0 by {
            assert(d[j] == rs[j]);
        }
        lemma_insert_by_start(d, r, p);
        assert(d.insert(p, r).push(rs.last()) =~= rs.insert(p, r));
    }
}

/// Inserts `r` into `v` as `insert_by_start` does.
fn insert_sorted(v: &mut Vec<Repl>, r: Repl)
    ensures
        repl_views(final(v)@) == insert_by_start(repl_views(old(v)@), r.view()),
{
    let ghost rs = repl_views(v@);
    let mut p = v.len();
    while p > 0 && v[p - 1].start > r.start
        invariant
            p <= v@.len(),
            rs == repl_views(v@),
            forall|j: int| p <= j < v@.len() ==> (#[trigger] v@[j]).start > r.start,
        decreases p,
    {
        p = p - 1;
    }
    proof {
        assert forall|j: int| p <= j < rs.len() implies (#[trigger] rs[j]).0 > r.view().0 by {
            assert(rs[j] == v@[j].view());
        }
        if p > 0 {
            assert(rs[p - 1] == v@[p - 1].view());
        }
        lemma_insert_by_start(rs, r.view(), p as int);
    }
    let ghost rv = r.view();
    v.insert(p, r);
    proof {
        assert(repl_views(v@) =~= rs.insert(p as int, rv));
    }
}

/// Makes the replacements `rs` in `chars`, as `apply_from` does.
fn apply_replacements(chars: &[char], rs: &[Repl]) -> (r: String)
    ensures
        r@ == apply_from(chars@, repl_views(rs@), 0, 0),
{
    let ghost s = chars@;
    let ghost v = repl_views(rs@);
    let mut out = String::new();
    let mut k: usize = 0;
    let mut pos: usize = 0;
    while k < rs.len()
        invariant
            k <= rs@.len(),
            pos <= chars@.len(),
            s == chars@,
            v == repl_views(rs@),
            out@ + apply_from(s, v, k as int, pos as int) == apply_from(s, v, 0, 0),
        decreases rs@.len() - k,
    {
        let r = &rs[k];
        proof {
            assert(v[k as int] == r.view());
        }
        if pos <= r.start && r.start <= r.end && r.end <= chars.len() {
            let ghost before = out@;
            push_chars(&mut out, chars, pos, r.start);
            out.append(r.text.as_str());
            proof {
                assert(before + apply_from(s, v, k as int, pos as int) == before + (s.subrange(
                    pos as int,
                    r.start as int,
                ) + r.text@ + apply_from(s, v, k + 1, r.end as int)));
                assert(out@ + apply_from(s, v, k + 1, r.end as int) =~= before + (s.subrange(
                    pos as int,
                    r.start as int,
                ) + r.text@ + apply_from(s, v, k + 1, r.end as int)));
            }
            pos = r.end;
        }
        k = k + 1;
    }
    let ghost before = out@;
    push_chars(&mut out, chars, pos, chars.len());
    proof {
        assert(apply_from(s, v, k as int, pos as int) == s.subrange(pos as int, s.len() as int));
    }
    out
}

// MARK: Resolution

/// The position of the last variable named `name`.
fn find_var(variables: &[Variable], name: &String) -> (r: Option<usize>)
    ensures
        r matches Some(i) ==> var_index(names_of(variables@), name@) == Some(i as int),
        r is None ==> var_index(names_of(variables@), name@) is None,
{
    let ghost names = names_of(variables@);
    let mut k: usize = variables.len();
    proof {
        assert(names.take(k as int) =~= names);
    }
    while k > 0
        invariant
            k <= variables@.len(),
            names == names_of(variables@),
            var_index(names, name@) == var_index(names.take(k as int), name@),
        decreases k,
    {
        proof {
            assert(names.take(k as int).drop_last() =~= names.take(k - 1));
        }
        if variables[k - 1].name == *name {
            return Some(k - 1);
        }
        k = k - 1;
    }
    None
}

/// Computes `jsdoc_type_ok`.
fn jsdoc_type_allowed(ty: &VarType) -> (r: bool)
    ensures
        r == jsdoc_type_ok(*ty),
{
    match ty {
        VarType::JsDoc => true,
        VarType::Option(inner) => inner.is_str() || match &**inner {
            VarType::JsDoc => true,
            _ => false,
        },
        _ => ty.is_str(),
    }
}

/// Computes `source_replacement`.
fn source_replacement_text(stand_in: &String, ty: &VarType) -> (r: String)
    ensures
        r@ == source_replacement(stand_in@, *ty),
{
    let mut r = String::new();
    match ty.inner() {
        VarType::Str(_) => {
            r.append("\"");
            r.append(stand_in.as_str());
            r.append("\"");
        },
        VarType::JsDoc => {
            r.append("/** ");
            r.append(stand_in.as_str());
            r.append(" */");
        },
        VarType::Decl => {
            r.append("var ");
            r.append(stand_in.as_str());
        },
        _ => {
            r.append(stand_in.as_str());
        },
    }
    r
}

proof fn lemma_occurrence_step(vars: Seq<Variable>, all: Seq<Occurrence>, k: int)
    requires
        0 <= k < all.len(),
    ensures
        all.take(k + 1).drop_last() == all.take(k),
        all.take(k + 1).last() == all[k],
        replacements(vars, all.take(k + 1)) == match all[k].2 {
            Some((a, b)) => replacements(vars, all.take(k)).push((a, b, resolve(vars, all[k])->Ok_0.1)),
            None => replacements(vars, all.take(k)),
        },
        stand_ins_of(vars, all.take(k + 1)) == stand_ins_of(vars, all.take(k)).insert(
            ts_stand_in(resolve(vars, all[k])->Ok_0.0),
            all[k].0,
        ),
{
    assert(all.take(k + 1).drop_last() =~= all.take(k));
}

proof fn lemma_failure(vars: Seq<Variable>, all: Seq<Occurrence>, k: int, e: PreprocessErrorView)
    requires
        0 <= k < all.len(),
        all_resolve(vars, all.take(k)),
        resolve(vars, all[k]) == Err::<(int, Seq<char>), PreprocessErrorView>(e),
    ensures
        exists|j: int|
            first_failure(vars, all, j) && resolve(vars, all[j]) == Err::<
                (int, Seq<char>),
                PreprocessErrorView,
            >(e),
{
    assert(first_failure(vars, all, k));
}

proof fn lemma_resolve_step(vars: Seq<Variable>, all: Seq<Occurrence>, k: int)
    requires
        0 <= k < all.len(),
        all_resolve(vars, all.take(k)),
        resolve(vars, all[k]) is Ok,
    ensures
        all_resolve(vars, all.take(k + 1)),
{
    assert forall|j: int| 0 <= j < k + 1 implies (#[trigger] resolve(vars, all.take(k + 1)[j])) is Ok by {
        if j < k {
            assert(all.take(k + 1)[j] == all.take(k)[j]);
        }
    }
}

/// What preprocessing gives for source `s` with tokens `toks` and comments
/// `cs`: the preprocessed source and its stand-ins when every occurrence
/// resolves; otherwise the error of the first that does not.
pub open spec fn preprocess_outcome(
    s: Seq<char>,
    vars: Seq<Variable>,
    start: u32,
    toks: Seq<(TokenKind, u32, u32)>,
    cs: Seq<(u32, bool, Seq<char>)>,
    r: Result<(String, StandIns), PreprocessError>,
) -> bool {
    let occs = occurrences(s, start as int, toks, cs);
    match r {
        Ok((out, stand_ins)) => {
            &&& all_resolve(vars, occs)
            &&& out@ == preprocessed(s, vars, occs)
            &&& stand_in_names(stand_ins.view()) == stand_ins_of(vars, occs)
        },
        Err(e) => exists|k: int|
            first_failure(vars, occs, k) && resolve(vars, occs[k]) == Err::<
                (int, Seq<char>),
                PreprocessErrorView,
            >(e.view()),
    }
}

/// Preprocesses `source`, given the tokens that SWC's lexer found in it
/// (positions counting from `start`) and its comments in the order given:
/// replaces each placeholder in the token stream with the stand-in its
/// variable's type calls for, and each placeholder in a JSDoc comment with
/// the bare stand-in, and records each stand-in with the name it replaced.
/// Fails at the first placeholder, token stream first, then comment by
/// comment, that names no variable, or that sits in a JSDoc comment and
/// names a variable of a type other than `&str`, `String`, `JsDoc` or an
/// `Option` of one of these.
#[verifier::rlimit(40)]
pub fn preprocess_lexed(
    source: &str,
    variables: &[Variable],
    start: u32,
    tokens: Vec<LexedToken>,
    comments: &[LexedComment],
) -> (r: Result<(String, StandIns), PreprocessError>)
    ensures
        preprocess_outcome(
            source@,
            variables@,
            start,
            token_views(tokens@),
            comment_views(comments@),
            r,
        ),
{
    let ghost s = source@;
    let ghost vars = variables@;
    let ghost toks = token_views(tokens@);
    let chars = chars_of(source);
    let n = byte_len(source);
    let mut occs = scan_source_occurrences(source, start, tokens);
    let mut more = scan_comment_occurrences(chars.as_slice(), start, comments);
    let ghost a = occs@;
    let ghost b = more@;
    occs.append(&mut more);
    let ghost all = occ_views(occs@);
    proof {
        assert(occ_views(occs@) =~= occ_views(a) + occ_views(b));
        assert(all == occurrences(s, start as int, toks, comment_views(comments@)));
        assert(all.take(0) =~= Seq::<Occurrence>::empty());
    }
    let mut sorted: Vec<Repl> = Vec::new();
    let mut stand_ins: StandIns = AssocList::new();
    proof {
        assert(stand_in_names(stand_ins.view()) =~= Map::<Seq<char>, Seq<char>>::empty());
        assert(repl_views(sorted@) =~= Seq::<Replacement>::empty());
    }
    let mut k: usize = 0;
    while k < occs.len()
        invariant
            k <= occs@.len(),
            all == occ_views(occs@),
            s == source@,
            vars == variables@,
            chars@ == s,
            all == occurrences(s, start as int, toks, comment_views(comments@)),
            toks == token_views(tokens@),
            all_resolve(vars, all.take(k as int)),
            repl_views(sorted@) == sort_by_start(replacements(vars, all.take(k as int))),
            stand_in_names(stand_ins.view()) == stand_ins_of(vars, all.take(k as int)),
        decreases occs@.len() - k,
    {
        let o = &occs[k];
        proof {
            assert(all[k as int] == o.view());
        }
        let ix = match find_var(variables, &o.name) {
            Some(ix) => ix,
            None => {
                if o.in_comment {
                    proof {
                        lemma_failure(vars, all, k as int, PreprocessErrorView::JsDocUnboundVar(o.name@));
                    }
                    return Err(PreprocessError::JsDocUnboundVar(UnboundVar(o.name.clone())));
                } else {
                    proof {
                        lemma_failure(vars, all, k as int, PreprocessErrorView::UnboundVar(o.name@));
                    }
                    return Err(PreprocessError::UnboundVar(UnboundVar(o.name.clone())));
                }
            },
        };
        proof {
            lemma_var_index(names_of(vars), o.name@);
        }
        let ty = &variables[ix].ty;
        let mut st = String::new();
        st.append("__tsq_");
        push_decimal(&mut st, ix);
        st.append("__");
        let text = if !o.in_comment {
            source_replacement_text(&st, ty)
        } else if jsdoc_type_allowed(ty) {
            st.clone()
        } else {
            proof {
                lemma_failure(
                    vars,
                    all,
                    k as int,
                    PreprocessErrorView::JsDocVarType(o.name@, variables@[ix as int].ty),
                );
            }
            return Err(PreprocessError::JsDocVarType(o.name.clone(), ty.clone()));
        };
        proof {
            assert(resolve(vars, all[k as int]) == Ok::<(int, Seq<char>), PreprocessErrorView>(
                (ix as int, text@),
            ));
            lemma_occurrence_step(vars, all, k as int);
            lemma_resolve_step(vars, all, k as int);
        }
        match o.range {
            Some((a, b)) => {
                let ghost prev = replacements(vars, all.take(k as int));
                insert_sorted(&mut sorted, Repl { start: a, end: b, text });
                proof {
                    assert(prev.push((a as int, b as int, text@)).drop_last() =~= prev);
                }
            },
            None => {},
        }
        let ghost st_view = st@;
        let ghost old_st = stand_ins.view();
        stand_ins.insert(st, StandInData { var: VarName::from_str(o.name.as_str()) });
        proof {
            assert(stand_in_names(stand_ins.view()) =~= stand_in_names(old_st).insert(
                st_view,
                o.name@,
            ));
        }
        k = k + 1;
    }
    let out = apply_replacements(chars.as_slice(), sorted.as_slice());
    proof {
        assert(all.take(occs@.len() as int) =~= all);
    }
    Ok((out, stand_ins))
}

/// Preprocesses a TypeScript source string, replacing `#{var}` placeholders
/// with type-appropriate stand-ins prior to parsing: `"__tsq_N__"` for
/// strings, `/** __tsq_N__ */` for `JsDoc`, `var __tsq_N__` for `Decl`, the
/// identifier `__tsq_N__` for other variables and inside JSDoc comments.
/// Returns the preprocessed source and the stand-ins. The source is lexed
/// with SWC; the comments come in an order left open, so the outcome is that
/// of `preprocess_lexed` for some order of them.
pub fn preprocess(source: &str, variables: &[Variable]) -> (r: Result<(String, StandIns), PreprocessError>)
    ensures
        exists|cs: Seq<(u32, bool, Seq<char>)>|
            cs.to_multiset() == ts_lexed(source@).2 && #[trigger] preprocess_outcome(
                source@,
                variables@,
                ts_lexed(source@).0,
                ts_lexed(source@).1,
                cs,
                r,
            ),
{
    let (start, tokens, store) = lex_typescript(source);
    let comments = comment_list(store);
    let r = preprocess_lexed(source, variables, start, tokens, comments.as_slice());
    proof {
        assert(comment_views(comments@).to_multiset() == comment_set(comments@));
    }
    r
}

// MARK: Laws

/// Distinct positions have distinct stand-ins.
proof fn lemma_stand_in_injective(i: int, j: int)
    requires
        0 <= i,
        0 <= j,
        ts_stand_in(i) == ts_stand_in(j),
    ensures
        i == j,
{
    let p = "__tsq_"@;
    let q = "__"@;
    let a = ts_stand_in(i);
    let b = ts_stand_in(j);
    assert(decimal(i as nat) =~= a.subrange(p.len() as int, a.len() - q.len()));
    assert(decimal(j as nat) =~= b.subrange(p.len() as int, b.len() - q.len()));
    crate::text::lemma_decimal_injective(i as nat, j as nat);
}

/// Each recorded stand-in maps to the name of an occurrence whose position
/// it encodes, and each occurrence's stand-in is recorded.
proof fn lemma_stand_ins_of(vars: Seq<Variable>, occs: Seq<Occurrence>)
    requires
        all_resolve(vars, occs),
    ensures
        forall|key: Seq<char>| #[trigger]
            stand_ins_of(vars, occs).contains_key(key) ==> exists|k: int|
                0 <= k < occs.len() && key == ts_stand_in(resolve(vars, occs[k])->Ok_0.0)
                    && stand_ins_of(vars, occs)[key] == occs[k].0,
        forall|k: int|
            0 <= k < occs.len() ==> stand_ins_of(vars, occs).contains_key(
                ts_stand_in(resolve(vars, #[trigger] occs[k])->Ok_0.0),
            ),
    decreases occs.len(),
{
    if occs.len() > 0 {
        let prev = occs.drop_last();
        assert forall|k: int| 0 <= k < prev.len() implies (#[trigger] resolve(vars, prev[k])) is Ok by {
            assert(prev[k] == occs[k]);
        }
        lemma_stand_ins_of(vars, prev);
        let m = stand_ins_of(vars, occs);
        assert forall|key: Seq<char>| #[trigger] m.contains_key(key) implies exists|k: int|
            0 <= k < occs.len() && key == ts_stand_in(resolve(vars, occs[k])->Ok_0.0) && m[key]
                == occs[k].0 by {
            if key != ts_stand_in(resolve(vars, occs.last())->Ok_0.0) {
                let k = choose|k: int|
                    0 <= k < prev.len() && key == ts_stand_in(resolve(vars, prev[k])->Ok_0.0)
                        && stand_ins_of(vars, prev)[key] == prev[k].0;
                assert(prev[k] == occs[k]);
            } else {
                assert(occs[occs.len() - 1] == occs.last());
            }
        }
        assert forall|k: int| 0 <= k < occs.len() implies m.contains_key(
            ts_stand_in(resolve(vars, #[trigger] occs[k])->Ok_0.0),
        ) by {
            if k < prev.len() {
                assert(prev[k] == occs[k]);
            }
        }
    }
}

/// Preprocessing and the context agree: when every placeholder resolves and
/// the variables have distinct names, the stand-in recorded for each
/// placeholder, in the token stream or in a JSDoc comment, leads back to the
/// name in that placeholder, and the context binds that name to the
/// identifier `quote_var_` + name and to the type of the variable whose
/// position the stand-in encodes.
pub proof fn lemma_stand_ins_resolve(vars: Seq<Variable>, occs: Seq<Occurrence>, k: int)
    requires
        all_resolve(vars, occs),
        crate::ts::context::all_distinct(names_of(vars)),
        0 <= k < occs.len(),
    ensures
        ({
            let i = resolve(vars, occs[k])->Ok_0.0;
            let name = occs[k].0;
            let key = ts_stand_in(i);
            &&& 0 <= i < vars.len()
            &&& vars[i].name@ == name
            &&& stand_ins_of(vars, occs).contains_key(key)
            &&& stand_ins_of(vars, occs)[key] == name
            &&& crate::ts::context::bound_vars(vars).contains_key(name)
            &&& crate::ts::context::bound_vars(vars)[name] == (
                crate::ts::context::binding_ident(name),
                vars[i].ty,
            )
        }),
{
    let names = names_of(vars);
    lemma_stand_ins_of(vars, occs);
    let i = resolve(vars, occs[k])->Ok_0.0;
    let name = occs[k].0;
    let key = ts_stand_in(i);
    assert(resolve(vars, occs[k]) is Ok);
    lemma_var_index(names, name);
    assert(names[i] == name);
    let m = stand_ins_of(vars, occs);
    assert(m.contains_key(key));
    let k2 = choose|k2: int|
        0 <= k2 < occs.len() && key == ts_stand_in(resolve(vars, occs[k2])->Ok_0.0) && m[key]
            == occs[k2].0;
    let i2 = resolve(vars, occs[k2])->Ok_0.0;
    assert(resolve(vars, occs[k2]) is Ok);
    lemma_var_index(names, occs[k2].0);
    lemma_stand_in_injective(i, i2);
    assert(crate::ts::context::bound_vars(vars).contains_key(name)) by {
        assert(vars[i].name@ == names[i]);
    }
    let i3 = crate::ts::context::var_named(vars, name);
    assert(names[i3] == name);
    if i3 != i {
        if i3 < i {
            assert(names[i3] != names[i]);
        } else {
            assert(names[i] != names[i3]);
        }
    }
    assert(crate::ts::context::bound_vars(vars)[name] == (
        crate::ts::context::binding_ident(name),
        vars[i3].ty,
    ));
}

/// Without placeholders, preprocessing leaves the source as it is and
/// records no stand-in.
pub proof fn lemma_no_placeholders(s: Seq<char>, vars: Seq<Variable>, occs: Seq<Occurrence>)
    requires
        occs.len() == 0,
    ensures
        all_resolve(vars, occs),
        preprocessed(s, vars, occs) == s,
        stand_ins_of(vars, occs) == Map::<Seq<char>, Seq<char>>::empty(),
{
    assert(s.subrange(0, s.len() as int) =~= s);
}

/// A placeholder in the token stream is replaced by a text that contains its
/// stand-in: the stand-in itself, quoted, inside a JSDoc comment, or after
/// `var `.
pub proof fn lemma_source_replacement_holds_stand_in(stand_in: Seq<char>, ty: VarType)
    ensures
        exists|p: int| #[trigger] occurs_at(source_replacement(stand_in, ty), p, stand_in),
{
    reveal_strlit("\"");
    reveal_strlit("/** ");
    reveal_strlit(" */");
    reveal_strlit("var ");
    let r = source_replacement(stand_in, ty);
    let p: int = match ty.inner_type() {
        VarType::Str(_) => 1,
        VarType::JsDoc => 4,
        VarType::Decl => 4,
        _ => 0,
    };
    assert(r.subrange(p, p + stand_in.len()) =~= stand_in);
    assert(occurs_at(r, p, stand_in));
}

/// Sorted by start.
pub open spec fn starts_sorted(rs: Seq<Replacement>) -> bool {
    forall|i: int, j: int| 0 <= i < j < rs.len() ==> (#[trigger] rs[i]).0 <= (#[trigger] rs[j]).0
}

proof fn lemma_insert_by_start_sorted(rs: Seq<Replacement>, r: Replacement)
    requires
        starts_sorted(rs),
    ensures
        starts_sorted(insert_by_start(rs, r)),
        insert_by_start(rs, r).to_multiset() == rs.to_multiset().insert(r),
        insert_by_start(rs, r).len() == rs.len() + 1,
        forall|i: int|
            0 <= i < insert_by_start(rs, r).len() ==> #[trigger] insert_by_start(rs, r)[i] == r
                || (exists|j: int| 0 <= j < rs.len() && rs[j] == insert_by_start(rs, r)[i]),
    decreases rs.len(),
{
    broadcast use vstd::seq_lib::group_to_multiset_ensures;

    if rs.len() == 0 || rs.last().0 <= r.0 {
        assert forall|i: int| 0 <= i < rs.len() + 1 implies #[trigger] rs.push(r)[i] == r
            || (exists|j: int| 0 <= j < rs.len() && rs[j] == rs.push(r)[i]) by {
            if i < rs.len() {
                assert(rs[i] == rs.push(r)[i]);
            }
        }
        assert forall|i: int, j: int| 0 <= i < j < rs.len() + 1 implies (#[trigger] rs.push(r)[i]).0
            <= (#[trigger] rs.push(r)[j]).0 by {
            if j == rs.len() && i < rs.len() {
                assert(rs[i].0 <= rs.last().0);
            }
        }
    } else {
        let d = rs.drop_last();
        let l = rs.last();
        assert(starts_sorted(d)) by {
            assert forall|i: int, j: int| 0 <= i < j < d.len() implies (#[trigger] d[i]).0 <= (
            #[trigger] d[j]).0 by {
                assert(d[i] == rs[i] && d[j] == rs[j]);
            }
        }
        lemma_insert_by_start_sorted(d, r);
        let m = insert_by_start(d, r);
        assert(insert_by_start(rs, r) == m.push(l));
        assert forall|i: int, j: int| 0 <= i < j < m.len() + 1 implies (#[trigger] m.push(l)[i]).0
            <= (#[trigger] m.push(l)[j]).0 by {
            if j == m.len() {
                assert(m.push(l)[i] == m[i]);
                if m[i] != r {
                    let k = choose|k: int| 0 <= k < d.len() && d[k] == m[i];
                    assert(d[k] == rs[k]);
                    assert(rs[k].0 <= rs[rs.len() - 1].0);
                }
            } else {
                assert(m.push(l)[i] == m[i] && m.push(l)[j] == m[j]);
            }
        }
        assert forall|i: int| 0 <= i < m.len() + 1 implies #[trigger] m.push(l)[i] == r
            || (exists|j: int| 0 <= j < rs.len() && rs[j] == m.push(l)[i]) by {
            if i < m.len() {
                assert(m.push(l)[i] == m[i]);
                if m[i] != r {
                    let k = choose|k: int| 0 <= k < d.len() && d[k] == m[i];
                    assert(rs[k] == d[k]);
                }
            } else {
                assert(rs[rs.len() - 1] == m.push(l)[i]);
            }
        }
        assert(rs =~= d.push(l));
        assert(m.push(l).to_multiset() =~= rs.to_multiset().insert(r));
    }
}

/// The replacements are made in order of their starts: `sort_by_start`
/// orders them by start and keeps each of them, as often as it occurs.
pub proof fn lemma_sort_by_start(rs: Seq<Replacement>)
    ensures
        starts_sorted(sort_by_start(rs)),
        sort_by_start(rs).to_multiset() == rs.to_multiset(),
    decreases rs.len(),
{
    broadcast use vstd::seq_lib::group_to_multiset_ensures;

    if rs.len() == 0 {
    } else {
        lemma_sort_by_start(rs.drop_last());
        lemma_insert_by_start_sorted(sort_by_start(rs.drop_last()), rs.last());
        assert(rs =~= rs.drop_last().push(rs.last()));
    }
}

/// Placeholders in comment text come from position `i` on, in order, each a
/// complete `#{name}`.
pub open spec fn comment_hits_sound(t: Seq<char>, hits: Seq<(Seq<char>, int, int)>, i: int) -> bool {
    &&& forall|k: int|
        0 <= k < hits.len() ==> {
            let h = #[trigger] hits[k];
            &&& i <= h.1 && h.1 + 3 < h.2 <= t.len()
            &&& t[h.1] == '#' && t[h.1 + 1] == '{' && t[h.2 - 1] == '}'
            &&& crate::text::id_start_js(t[h.1 + 2])
            &&& forall|j: int| h.1 + 3 <= j < h.2 - 1 ==> crate::text::id_continue_js(#[trigger] t[j])
            &&& h.0 == t.subrange(h.1 + 2, h.2 - 1)
        }
    &&& forall|k: int| 0 <= k < hits.len() - 1 ==> (#[trigger] hits[k]).2 <= hits[k + 1].1
}

proof fn lemma_comment_hits_from(t: Seq<char>, i: int)
    requires
        0 <= i,
    ensures
        comment_hits_sound(t, comment_hits(t, i), i),
    decreases t.len() - i,
{
    if i < t.len() {
        match comment_placeholder_end(t, i) {
            Some(e) => {
                if i < e <= t.len() {
                    lemma_word_run(t, i + 3, IdentClass::Script);
                    lemma_comment_hits_from(t, e);
                    let rest = comment_hits(t, e);
                    let hits = comment_hits(t, i);
                    assert(hits == seq![(t.subrange(i + 2, e - 1), i, e)] + rest);
                    assert forall|k: int| 0 <= k < hits.len() implies {
                        let h = #[trigger] hits[k];
                        &&& i <= h.1 && h.1 + 3 < h.2 <= t.len()
                        &&& t[h.1] == '#' && t[h.1 + 1] == '{' && t[h.2 - 1] == '}'
                        &&& crate::text::id_start_js(t[h.1 + 2])
                        &&& forall|j: int|
                            h.1 + 3 <= j < h.2 - 1 ==> crate::text::id_continue_js(#[trigger] t[j])
                        &&& h.0 == t.subrange(h.1 + 2, h.2 - 1)
                    } by {
                        if k > 0 {
                            assert(hits[k] == rest[k - 1]);
                        } else {
                            assert forall|j: int| i + 3 <= j < e - 1 implies crate::text::id_continue_js(
                                #[trigger] t[j],
                            ) by {
                                assert(crate::segments::ident_continue(IdentClass::Script, t[j]));
                            }
                        }
                    }
                    assert forall|k: int| 0 <= k < hits.len() - 1 implies (#[trigger] hits[k]).2
                        <= hits[k + 1].1 by {
                        assert(hits[k + 1] == rest[k]);
                        if k > 0 {
                            assert(hits[k] == rest[k - 1]);
                        }
                    }
                }
            },
            None => {
                lemma_comment_hits_from(t, i + 1);
            },
        }
    }
}

/// Every placeholder found in comment text is a complete `#{name}` there:
/// `#{`, a name that starts with a JavaScript identifier start and goes on
/// with identifier characters, and `}`; the reported name is the text
/// between the braces; the placeholders come in order without overlapping.
pub proof fn lemma_comment_hits_sound(t: Seq<char>)
    ensures
        comment_hits_sound(t, comment_hits(t, 0), 0),
{
    lemma_comment_hits_from(t, 0);
}

} // verus!
