//! How a Python string literal that holds stand-ins is rebuilt in the
//! generated code: as a format string with one argument per stand-in.

use vstd::prelude::*;
use vstd::string::StringExecFns;
use crate::bindings::UnboundVar;
use crate::segments::{segment_views, IdentClass};
use crate::py::context::Context;
use crate::py::input::VarType;
use crate::py::lexer::{py_stand_in_prefix, StandInScanner, StandInToken};

verus! {

/// The variable that a stand-in leads to through the context, if any.
pub open spec fn stand_in_lookup(ctx: Context, p: Seq<char>) -> Option<(Seq<char>, VarType)> {
    if ctx.stand_ins_view().contains_key(p) && ctx.vars_view().contains_key(
        ctx.stand_ins_view()[p],
    ) {
        Some(ctx.vars_view()[ctx.stand_ins_view()[p]])
    } else {
        None
    }
}

/// The format string of the segments (each stand-in becomes `{}`) and the
/// variables of the stand-ins in order, or the first stand-in that leads to
/// no variable.
pub open spec fn format_parts(ctx: Context, segs: Seq<(bool, Seq<char>)>) -> Result<
    (Seq<char>, Seq<(Seq<char>, VarType)>),
    Seq<char>,
>
    decreases segs.len(),
{
    if segs.len() == 0 {
        Ok((seq![], seq![]))
    } else {
        match format_parts(ctx, segs.drop_last()) {
            Err(p) => Err(p),
            Ok((f, vs)) => {
                let (is_stand_in, t) = segs.last();
                if is_stand_in {
                    match stand_in_lookup(ctx, t) {
                        None => Err(t),
                        Some(v) => Ok((f + "{}"@, vs.push(v))),
                    }
                } else {
                    Ok((f + t, vs))
                }
            },
        }
    }
}

/// A format argument that is an optional string enters as its contents or
/// as the empty string.
pub open spec fn optional_str(ty: VarType) -> bool {
    ty is Option && ty->Option_0.is_str_type()
}

/// The format string for a string literal with text `text` and, for each
/// stand-in, its variable's binding identifier and whether it is an optional
/// string; or the first stand-in that leads to no variable.
pub open spec fn format_template_of(ctx: Context, text: Seq<char>) -> Result<
    (Seq<char>, Seq<(Seq<char>, bool)>),
    Seq<char>,
> {
    let segs = segment_views(text, 0, py_stand_in_prefix(), IdentClass::Python);
    match format_parts(ctx, segs) {
        Err(p) => Err(p),
        Ok((f, vs)) => Ok(
            (f, vs.map_values(|v: (Seq<char>, VarType)| (v.0, optional_str(v.1)))),
        ),
    }
}

proof fn lemma_format_err_extends(ctx: Context, segs: Seq<(bool, Seq<char>)>, k: int, p: Seq<char>)
    requires
        0 <= k <= segs.len(),
        format_parts(ctx, segs.take(k)) == Err::<(Seq<char>, Seq<(Seq<char>, VarType)>), Seq<char>>(p),
    ensures
        format_parts(ctx, segs) == Err::<(Seq<char>, Seq<(Seq<char>, VarType)>), Seq<char>>(p),
    decreases segs.len(),
{
    if k == segs.len() {
        assert(segs.take(k) =~= segs);
    } else {
        assert(segs.drop_last().take(k) =~= segs.take(k));
        lemma_format_err_extends(ctx, segs.drop_last(), k, p);
    }
}

/// Builds the format string for a string literal with text `text`, resolving
/// its stand-ins through the context: the format, and for each stand-in its
/// variable's binding identifier and whether it is an optional string.
pub fn format_template(ctx: &Context, text: &str) -> (r: Result<(String, Vec<(String, bool)>), UnboundVar>)
    ensures
        match r {
            Ok((f, args)) => format_template_of(*ctx, text@) == Ok::<
                (Seq<char>, Seq<(Seq<char>, bool)>),
                Seq<char>,
            >((f@, args@.map_values(|a: (String, bool)| (a.0@, a.1)))),
            Err(e) => format_template_of(*ctx, text@) == Err::<
                (Seq<char>, Seq<(Seq<char>, bool)>),
                Seq<char>,
            >(e.0@),
        },
{
    let ghost segs = segment_views(text@, 0, py_stand_in_prefix(), IdentClass::Python);
    let tokens = StandInScanner::new(text).collect_tokens();
    let mut format = String::new();
    let mut vars: Vec<(String, VarType)> = Vec::new();
    let mut k: usize = 0;
    proof {
        assert(segs.take(0) =~= Seq::<(bool, Seq<char>)>::empty());
        assert(vars@.map_values(|v: (String, VarType)| (v.0@, v.1)) =~= Seq::<
            (Seq<char>, VarType),
        >::empty());
        assert(format@ =~= Seq::<char>::empty());
    }
    while k < tokens.len()
        invariant
            k <= tokens@.len() == segs.len(),
            segs == segment_views(text@, 0, py_stand_in_prefix(), IdentClass::Python),
            forall|j: int| 0 <= j < tokens@.len() ==> #[trigger] tokens@[j].parts() == segs[j],
            format_parts(*ctx, segs.take(k as int)) == Ok::<
                (Seq<char>, Seq<(Seq<char>, VarType)>),
                Seq<char>,
            >((format@, vars@.map_values(|v: (String, VarType)| (v.0@, v.1)))),
        decreases tokens@.len() - k,
    {
        proof {
            assert(segs.take(k + 1).drop_last() =~= segs.take(k as int));
            assert(segs.take(k + 1).last() == segs[k as int]);
            assert(tokens@[k as int].parts() == segs[k as int]);
        }
        let ghost vs = vars@.map_values(|v: (String, VarType)| (v.0@, v.1));
        match tokens[k] {
            StandInToken::Text(t) => {
                format.append(t);
            },
            StandInToken::StandIn(p) => {
                match ctx.stand_in(p) {
                    Some(var) => {
                        format.append("{}");
                        vars.push((var.ident.clone(), var.ty.clone()));
                        proof {
                            assert(vars@.map_values(|v: (String, VarType)| (v.0@, v.1)) =~= vs.push(
                                (var.ident@, var.ty),
                            ));
                        }
                    },
                    None => {
                        proof {
                            lemma_format_err_extends(*ctx, segs, k + 1, p@);
                        }
                        return Err(UnboundVar(p.to_owned()));
                    },
                }
            },
        }
        k = k + 1;
    }
    proof {
        assert(segs.take(segs.len() as int) =~= segs);
    }
    let ghost vs = vars@.map_values(|v: (String, VarType)| (v.0@, v.1));
    let ghost want = vs.map_values(|v: (Seq<char>, VarType)| (v.0, optional_str(v.1)));
    let mut args: Vec<(String, bool)> = Vec::new();
    let mut i: usize = 0;
    while i < vars.len()
        invariant
            i <= vars@.len(),
            vs == vars@.map_values(|v: (String, VarType)| (v.0@, v.1)),
            want == vs.map_values(|v: (Seq<char>, VarType)| (v.0, optional_str(v.1))),
            args@.map_values(|a: (String, bool)| (a.0@, a.1)) == want.take(i as int),
        decreases vars@.len() - i,
    {
        let opt = match &vars[i].1 {
            VarType::Option(inner) => inner.is_str(),
            _ => false,
        };
        let a = (vars[i].0.clone(), opt);
        proof {
            assert(vs[i as int] == (vars@[i as int].0@, vars@[i as int].1));
            assert(want[i as int] == (a.0@, a.1));
            assert(want.take(i + 1) =~= want.take(i as int).push((a.0@, a.1)));
        }
        args.push(a);
        proof {
            assert(args@.map_values(|a: (String, bool)| (a.0@, a.1)) =~= want.take(i + 1));
        }
        i = i + 1;
    }
    proof {
        assert(want.take(vars@.len() as int) =~= want);
    }
    Ok((format, args))
}

} // verus!
