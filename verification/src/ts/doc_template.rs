//! How a JSDoc comment of a quote is rebuilt in the generated code: as its
//! text, as a comment that a single optional variable switches on or off,
//! or as a format string with one argument per stand-in.

use vstd::prelude::*;
use vstd::string::StringExecFns;
use crate::bindings::UnboundVar;
use crate::segments::{segment_views, IdentClass};
use crate::ts::context::Context;
use crate::ts::input::VarType;
use crate::ts::lexer::{ts_stand_in_prefix, StandInScanner, StandInToken};

verus! {

/// The Unicode `White_Space` property, which `char::is_whitespace` and
/// `str::trim` go by: tab, line feed, vertical tab, form feed, carriage
/// return, space, next line, no-break space, ogham space mark, the spaces
/// from en quad to hair space, line and paragraph separator, narrow no-break
/// space, medium mathematical space and ideographic space.
pub open spec fn white_space(c: char) -> bool {
    let u = c as u32;
    ||| 0x9 <= u <= 0xD
    ||| u == 0x20 || u == 0x85 || u == 0xA0 || u == 0x1680
    ||| 0x2000 <= u <= 0x200A
    ||| u == 0x2028 || u == 0x2029 || u == 0x202F || u == 0x205F || u == 0x3000
}

/// Whether `c` has the `White_Space` property.
pub fn is_whitespace(c: char) -> (r: bool)
    ensures
        r == white_space(c),
{
    let u = c as u32;
    (0x9 <= u && u <= 0xD) || u == 0x20 || u == 0x85 || u == 0xA0 || u == 0x1680 || (0x2000 <= u
        && u <= 0x200A) || u == 0x2028 || u == 0x2029 || u == 0x202F || u == 0x205F || u == 0x3000
}

/// The index of the first character at or after `i` that is not whitespace,
/// or the length.
pub open spec fn skip_white(t: Seq<char>, i: int) -> int
    decreases t.len() - i,
{
    if 0 <= i < t.len() && white_space(t[i]) {
        skip_white(t, i + 1)
    } else {
        i
    }
}

/// The index after the last character before `j` that is not whitespace, or
/// zero.
pub open spec fn skip_white_back(t: Seq<char>, j: int) -> int
    decreases j,
{
    if 0 < j <= t.len() && white_space(t[j - 1]) {
        skip_white_back(t, j - 1)
    } else {
        j
    }
}

/// `t` without leading and trailing whitespace, as `str::trim` gives it.
pub open spec fn trimmed(t: Seq<char>) -> Seq<char> {
    let a = skip_white(t, 0);
    if a >= t.len() {
        seq![]
    } else {
        t.subrange(a, skip_white_back(t, t.len() as int))
    }
}

/// Text around a sole optional variable that may go with it: nothing but
/// whitespace, or a lone `*` in it.
pub open spec fn blank_or_star(t: Seq<char>) -> bool {
    trimmed(t).len() == 0 || trimmed(t) == seq!['*']
}

/// Every text segment is blank or a lone `*`.
pub open spec fn all_blank_or_star(segs: Seq<(bool, Seq<char>)>) -> bool {
    forall|j: int| 0 <= j < segs.len() && !(#[trigger] segs[j]).0 ==> blank_or_star(segs[j].1)
}

/// The variable that a stand-in leads to through the context, if any.
pub open spec fn stand_in_lookup(ctx: Context, p: Seq<char>) -> Option<(Seq<char>, VarType)> {
    if ctx.stand_ins_view().contains_key(p) && ctx.vars_view().contains_key(
        ctx.stand_ins_view()[p],
    ) {
        Some(ctx.vars_view()[ctx.stand_ins_view()[p]])
    } else {
        None
    }
}

/// The format string of the segments (each stand-in becomes `{}`) and the
/// variables of the stand-ins in order, or the first stand-in that leads to
/// no variable.
pub open spec fn template_parts(ctx: Context, segs: Seq<(bool, Seq<char>)>) -> Result<
    (Seq<char>, Seq<(Seq<char>, VarType)>),
    Seq<char>,
>
    decreases segs.len(),
{
    if segs.len() == 0 {
        Ok((seq![], seq![]))
    } else {
        match template_parts(ctx, segs.drop_last()) {
            Err(p) => Err(p),
            Ok((f, vs)) => {
                let (is_stand_in, t) = segs.last();
                if is_stand_in {
                    match stand_in_lookup(ctx, t) {
                        None => Err(t),
                        Some(v) => Ok((f + "{}"@, vs.push(v))),
                    }
                } else {
                    Ok((f + t, vs))
                }
            },
        }
    }
}

/// How a variable's value enters a format string.
#[derive(Clone, Copy, Debug, PartialEq, Eq, Structural)]
pub enum ArgKind {
    /// The value itself.
    Value,
    /// A `JsDoc`'s raw text.
    RawText,
    /// An optional string, empty if absent.
    StrOrDefault,
    /// An optional `JsDoc`'s raw text, empty if absent.
    RawTextOrDefault,
}

/// How a variable of type `ty` enters a format string.
pub open spec fn arg_kind(ty: VarType) -> ArgKind {
    match ty {
        VarType::JsDoc => ArgKind::RawText,
        VarType::Option(inner) => if inner.is_str_type() {
            ArgKind::StrOrDefault
        } else if *inner == VarType::JsDoc {
            ArgKind::RawTextOrDefault
        } else {
            ArgKind::Value
        },
        _ => ArgKind::Value,
    }
}

/// Each format argument's kind fits its variable's type: a `JsDoc` gives
/// its raw text, an `Option<JsDoc>` its raw text or nothing, an `Option` of
/// a string type the string or nothing, and every other type its value.
pub proof fn lemma_arg_kind_fits_type(ty: VarType)
    ensures
        (arg_kind(ty) == ArgKind::RawText) <==> ty == VarType::JsDoc,
        (arg_kind(ty) == ArgKind::RawTextOrDefault) <==> ty == VarType::Option(
            Box::new(VarType::JsDoc),
        ),
        (arg_kind(ty) == ArgKind::StrOrDefault) <==> (ty matches VarType::Option(inner)
            && inner.is_str_type()),
        (arg_kind(ty) == ArgKind::Value) <==> !(ty == VarType::JsDoc || ty == VarType::Option(
            Box::new(VarType::JsDoc),
        ) || (ty matches VarType::Option(inner) && inner.is_str_type())),
{
}

/// What a template says.
pub enum DocTemplateView {
    Static(Seq<char>),
    Optional(Seq<char>, Seq<char>, bool),
    Format(Seq<char>, Seq<(Seq<char>, ArgKind)>),
}

/// Each variable's binding identifier with the way it enters the format.
pub open spec fn format_args(vs: Seq<(Seq<char>, VarType)>) -> Seq<(Seq<char>, ArgKind)> {
    vs.map_values(|v: (Seq<char>, VarType)| (v.0, arg_kind(v.1)))
}

/// The template for a JSDoc comment with text `text`: the text itself when
/// it holds no stand-in; a comment that a single `Option` variable switches
/// on or off when that variable's stand-in is alone with whitespace and at
/// most a `*`; a format string with an argument per stand-in otherwise. A
/// stand-in that leads to no variable is an error.
pub open spec fn doc_template_of(ctx: Context, text: Seq<char>) -> Result<DocTemplateView, Seq<char>> {
    let segs = segment_views(text, 0, ts_stand_in_prefix(), IdentClass::Script);
    match template_parts(ctx, segs) {
        Err(p) => Err(p),
        Ok((f, vs)) => if vs.len() == 0 {
            Ok(DocTemplateView::Static(text))
        } else if vs.len() == 1 && vs[0].1 is Option && all_blank_or_star(segs) {
            Ok(DocTemplateView::Optional(vs[0].0, f, vs[0].1->Option_0.is_str_type()))
        } else {
            Ok(DocTemplateView::Format(f, format_args(vs)))
        },
    }
}

proof fn lemma_template_parts_without_stand_ins(ctx: Context, segs: Seq<(bool, Seq<char>)>)
    requires
        forall|j: int| 0 <= j < segs.len() ==> !(#[trigger] segs[j]).0,
    ensures
        template_parts(ctx, segs) matches Ok((_, vs)) && vs.len() == 0,
    decreases segs.len(),
{
    if segs.len() > 0 {
        let init = segs.drop_last();
        assert forall|j: int| 0 <= j < init.len() implies !(#[trigger] init[j]).0 by {
            assert(init[j] == segs[j]);
        }
        lemma_template_parts_without_stand_ins(ctx, init);
        assert(!segs.last().0);
    }
}

/// A JSDoc comment without stand-ins is kept as it is, whatever the context.
pub proof fn lemma_doc_template_static(ctx: Context, text: Seq<char>)
    requires
        forall|j: int|
            0 <= j < segment_views(text, 0, ts_stand_in_prefix(), IdentClass::Script).len()
                ==> !(#[trigger] segment_views(text, 0, ts_stand_in_prefix(), IdentClass::Script)[j]).0,
    ensures
        doc_template_of(ctx, text) == Ok::<DocTemplateView, Seq<char>>(DocTemplateView::Static(text)),
{
    lemma_template_parts_without_stand_ins(
        ctx,
        segment_views(text, 0, ts_stand_in_prefix(), IdentClass::Script),
    );
}

/// A variable's binding identifier and how its value enters the format.
#[derive(Debug)]
pub struct FormatArg {
    pub ident: String,
    pub kind: ArgKind,
}

/// How a JSDoc comment is rebuilt in the generated code.
#[derive(Debug)]
pub enum DocTemplate {
    /// A comment without stand-ins: its text as it is.
    Static(String),
    /// A comment whose only stand-in is an `Option` variable: the format
    /// with the value when there is one (a string as it is, else a `JsDoc`'s
    /// raw text), no comment otherwise.
    Optional { ident: String, format: String, is_str: bool },
    /// A format string with one argument per stand-in.
    Format { format: String, args: Vec<FormatArg> },
}

impl DocTemplate {
    pub open spec fn view(self) -> DocTemplateView {
        match self {
            DocTemplate::Static(t) => DocTemplateView::Static(t@),
            DocTemplate::Optional { ident, format, is_str } => DocTemplateView::Optional(
                ident@,
                format@,
                is_str,
            ),
            DocTemplate::Format { format, args } => DocTemplateView::Format(
                format@,
                args@.map_values(|a: FormatArg| (a.ident@, a.kind)),
            ),
        }
    }
}

/// Computes `arg_kind`.
fn arg_kind_of(ty: &VarType) -> (r: ArgKind)
    ensures
        r == arg_kind(*ty),
{
    match ty {
        VarType::JsDoc => ArgKind::RawText,
        VarType::Option(inner) => {
            if inner.is_str() {
                ArgKind::StrOrDefault
            } else {
                match &**inner {
                    VarType::JsDoc => ArgKind::RawTextOrDefault,
                    _ => ArgKind::Value,
                }
            }
        },
        _ => ArgKind::Value,
    }
}

/// Computes `blank_or_star`.
fn is_blank_or_star(t: &str) -> (r: bool)
    ensures
        r == blank_or_star(t@),
{
    let chars = crate::text::chars_of(t);
    let ghost s = chars@;
    let n = chars.len();
    let mut a: usize = 0;
    while a < n && is_whitespace(chars[a])
        invariant
            a <= n == s.len(),
            s == chars@,
            skip_white(s, 0) == skip_white(s, a as int),
        decreases n - a,
    {
        a = a + 1;
    }
    if a >= n {
        return true;
    }
    let mut b: usize = n;
    while b > 0 && is_whitespace(chars[b - 1])
        invariant
            b <= n == s.len(),
            s == chars@,
            a < n,
            !white_space(s[a as int]),
            a < b || b == n,
            skip_white_back(s, n as int) == skip_white_back(s, b as int),
        decreases b,
    {
        b = b - 1;
    }
    proof {
        assert(a < b);
        assert(trimmed(s) == s.subrange(a as int, b as int));
        if b - a == 1 && s[a as int] == '*' {
            assert(s.subrange(a as int, b as int) =~= seq!['*']);
        }
        if s.subrange(a as int, b as int) == seq!['*'] {
            assert(s.subrange(a as int, b as int)[0] == s[a as int]);
        }
    }
    b - a == 1 && chars[a] == '*'
}

proof fn lemma_template_err_extends(ctx: Context, segs: Seq<(bool, Seq<char>)>, k: int, p: Seq<char>)
    requires
        0 <= k <= segs.len(),
        template_parts(ctx, segs.take(k)) == Err::<(Seq<char>, Seq<(Seq<char>, VarType)>), Seq<char>>(p),
    ensures
        template_parts(ctx, segs) == Err::<(Seq<char>, Seq<(Seq<char>, VarType)>), Seq<char>>(p),
    decreases segs.len(),
{
    if k == segs.len() {
        assert(segs.take(k) =~= segs);
    } else {
        assert(segs.drop_last().take(k) =~= segs.take(k));
        lemma_template_err_extends(ctx, segs.drop_last(), k, p);
    }
}

/// Builds the template for a JSDoc comment with text `text`, resolving its
/// stand-ins through the context.
pub fn doc_template(ctx: &Context, text: &str) -> (r: Result<DocTemplate, UnboundVar>)
    ensures
        match r {
            Ok(t) => doc_template_of(*ctx, text@) == Ok::<DocTemplateView, Seq<char>>(t.view()),
            Err(e) => doc_template_of(*ctx, text@) == Err::<DocTemplateView, Seq<char>>(e.0@),
        },
{
    let ghost segs = segment_views(text@, 0, ts_stand_in_prefix(), IdentClass::Script);
    let tokens = StandInScanner::new(text).collect_tokens();
    let mut format = String::new();
    let mut vars: Vec<(String, VarType)> = Vec::new();
    let mut k: usize = 0;
    proof {
        assert(segs.take(0) =~= Seq::<(bool, Seq<char>)>::empty());
        assert(vars@.map_values(|v: (String, VarType)| (v.0@, v.1)) =~= Seq::<
            (Seq<char>, VarType),
        >::empty());
        assert(format@ =~= Seq::<char>::empty());
    }
    while k < tokens.len()
        invariant
            k <= tokens@.len() == segs.len(),
            segs == segment_views(text@, 0, ts_stand_in_prefix(), IdentClass::Script),
            forall|j: int| 0 <= j < tokens@.len() ==> #[trigger] tokens@[j].parts() == segs[j],
            template_parts(*ctx, segs.take(k as int)) == Ok::<
                (Seq<char>, Seq<(Seq<char>, VarType)>),
                Seq<char>,
            >((format@, vars@.map_values(|v: (String, VarType)| (v.0@, v.1)))),
        decreases tokens@.len() - k,
    {
        proof {
            assert(segs.take(k + 1).drop_last() =~= segs.take(k as int));
            assert(segs.take(k + 1).last() == segs[k as int]);
            assert(tokens@[k as int].parts() == segs[k as int]);
        }
        let ghost vs = vars@.map_values(|v: (String, VarType)| (v.0@, v.1));
        match tokens[k] {
            StandInToken::Text(t) => {
                format.append(t);
            },
            StandInToken::StandIn(p) => {
                match ctx.stand_in(p) {
                    Some(var) => {
                        format.append("{}");
                        vars.push((var.ident.clone(), var.ty.clone()));
                        proof {
                            assert(vars@.map_values(|v: (String, VarType)| (v.0@, v.1)) =~= vs.push(
                                (var.ident@, var.ty),
                            ));
                        }
                    },
                    None => {
                        proof {
                            lemma_template_err_extends(*ctx, segs, k + 1, p@);
                        }
                        return Err(UnboundVar(p.to_owned()));
                    },
                }
            },
        }
        k = k + 1;
    }
    proof {
        assert(segs.take(segs.len() as int) =~= segs);
    }
    let ghost vs = vars@.map_values(|v: (String, VarType)| (v.0@, v.1));
    if vars.len() == 0 {
        return Ok(DocTemplate::Static(text.to_owned()));
    }
    if vars.len() == 1 {
        match &vars[0].1 {
            VarType::Option(inner) => {
                let mut all = true;
                let mut j: usize = 0;
                while j < tokens.len()
                    invariant
                        j <= tokens@.len() == segs.len(),
                        forall|i: int| 0 <= i < tokens@.len() ==> #[trigger] tokens@[i].parts() == segs[i],
                        all == (forall|i: int|
                            0 <= i < j && !(#[trigger] segs[i]).0 ==> blank_or_star(segs[i].1)),
                    decreases tokens@.len() - j,
                {
                    proof {
                        assert(tokens@[j as int].parts() == segs[j as int]);
                    }
                    match tokens[j] {
                        StandInToken::Text(t) => {
                            if !is_blank_or_star(t) {
                                all = false;
                            }
                        },
                        StandInToken::StandIn(_) => {},
                    }
                    j = j + 1;
                }
                if all {
                    let is_str = inner.is_str();
                    return Ok(DocTemplate::Optional { ident: vars[0].0.clone(), format, is_str });
                }
            },
            _ => {},
        }
    }
    let mut args: Vec<FormatArg> = Vec::new();
    let mut i: usize = 0;
    while i < vars.len()
        invariant
            i <= vars@.len(),
            vs == vars@.map_values(|v: (String, VarType)| (v.0@, v.1)),
            args@.map_values(|a: FormatArg| (a.ident@, a.kind)) == format_args(vs).take(i as int),
        decreases vars@.len() - i,
    {
        let a = FormatArg { ident: vars[i].0.clone(), kind: arg_kind_of(&vars[i].1) };
        let ghost before = args@;
        proof {
            assert(vs[i as int] == (vars@[i as int].0@, vars@[i as int].1));
            assert(format_args(vs)[i as int] == (a.ident@, a.kind));
            assert(format_args(vs).take(i + 1) =~= format_args(vs).take(i as int).push(
                (a.ident@, a.kind),
            ));
        }
        args.push(a);
        proof {
            assert(args@.map_values(|a: FormatArg| (a.ident@, a.kind)) =~= format_args(vs).take(
                i + 1,
            ));
        }
        i = i + 1;
    }
    proof {
        assert(format_args(vs).take(vars@.len() as int) =~= format_args(vs));
    }
    Ok(DocTemplate::Format { format, args })
}

} // verus!
