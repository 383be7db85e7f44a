//! The substitution context for Python quotes: the bound variables, keyed by
//! name, and the stand-ins that refer to them.

use vstd::prelude::*;
use vstd::string::StringExecFns;
use crate::bindings::{stand_in_names, AssocList, StandInData, StandIns};
use crate::py::input::{VarType, Variable};

verus! {

/// The name of the `let` binding that holds a variable's value in the
/// generated code.
pub open spec fn binding_ident(name: Seq<char>) -> Seq<char> {
    "quote_var_"@ + name
}

/// Data for a single substitution variable.
#[derive(Debug)]
pub struct VarData {
    /// The identifier for the `let` binding in the generated block.
    pub ident: String,
    /// The declared type of this variable.
    pub ty: VarType,
}

/// The variables of a context by name: each name's binding identifier and
/// type.
pub open spec fn var_data_view(m: Map<Seq<char>, VarData>) -> Map<Seq<char>, (Seq<char>, VarType)> {
    Map::new(|k: Seq<char>| m.contains_key(k), |k: Seq<char>| (m[k].ident@, m[k].ty))
}

/// The names of `vars`, in order.
pub open spec fn names_of(vars: Seq<Variable>) -> Seq<Seq<char>> {
    Seq::new(vars.len(), |i: int| vars[i].name@)
}

/// No two of `names` are equal.
pub open spec fn all_distinct(names: Seq<Seq<char>>) -> bool {
    forall|i: int, j: int| 0 <= i < j < names.len() ==> names[i] != names[j]
}

/// `names[j]` repeats an earlier name.
pub open spec fn repeats_earlier(names: Seq<Seq<char>>, j: int) -> bool {
    exists|i: int| 0 <= i < j && names[i] == names[j]
}

/// Some variable is named `k`.
pub open spec fn has_var(vars: Seq<Variable>, k: Seq<char>) -> bool {
    exists|i: int| 0 <= i < vars.len() && vars[i].name@ == k
}

/// A position of a variable named `k`, if there is one.
pub open spec fn var_named(vars: Seq<Variable>, k: Seq<char>) -> int {
    choose|i: int| 0 <= i < vars.len() && vars[i].name@ == k
}

/// The map from each variable's name to its binding identifier and type.
pub open spec fn bound_vars(vars: Seq<Variable>) -> Map<Seq<char>, (Seq<char>, VarType)> {
    Map::new(
        |k: Seq<char>| has_var(vars, k),
        |k: Seq<char>| (binding_ident(k), vars[var_named(vars, k)].ty),
    )
}

/// Two variables share a name.
#[derive(Debug)]
pub struct DuplicateVar {
    /// The position of the second variable of that name.
    pub index: usize,
    /// The shared name.
    pub name: String,
}

impl DuplicateVar {
    /// The error message.
    pub fn message(&self) -> (r: String)
        ensures
            r@ == "duplicate variable name `"@ + self.name@ + "`"@,
    {
        let mut r = String::new();
        r.append("duplicate variable name `");
        r.append(self.name.as_str());
        r.append("`");
        r
    }
}

/// Context for variable substitution during code generation.
#[derive(Debug)]
pub struct Context {
    /// The variables passed to the macro.
    vars: AssocList<VarData>,
    /// Maps stand-ins to variable names.
    stand_ins: StandIns,
}

impl Context {
    /// The bound variables: each name's binding identifier and type.
    pub closed spec fn vars_view(self) -> Map<Seq<char>, (Seq<char>, VarType)> {
        var_data_view(self.vars.view())
    }

    /// The stand-ins: each stand-in's variable name.
    pub closed spec fn stand_ins_view(self) -> Map<Seq<char>, Seq<char>> {
        stand_in_names(self.stand_ins.view())
    }

    /// Looks up a variable by its stand-in (e.g., `__pyq_0__`).
    pub fn stand_in(&self, value: &str) -> (r: Option<&VarData>)
        ensures
            r matches Some(d) ==> {
                &&& self.stand_ins_view().contains_key(value@)
                &&& self.vars_view().contains_key(self.stand_ins_view()[value@])
                &&& self.vars_view()[self.stand_ins_view()[value@]] == (d.ident@, d.ty)
            },
            r is None ==> !self.stand_ins_view().contains_key(value@) || !self.vars_view().contains_key(
                self.stand_ins_view()[value@],
            ),
    {
        match self.stand_ins.get(value) {
            Some(data) => self.vars.get(data.var.as_str()),
            None => None,
        }
    }
}

/// Builds the substitution context from the variables passed to the macro
/// and the stand-ins that preprocessing produced. Each variable is bound
/// under the identifier `quote_var_` followed by its name. Fails on the
/// first variable whose name an earlier variable already has.
pub fn context(variables: &[Variable], stand_ins: StandIns) -> (r: Result<Context, DuplicateVar>)
    ensures
        match r {
            Ok(ctx) => {
                &&& all_distinct(names_of(variables@))
                &&& ctx.vars_view() == bound_vars(variables@)
                &&& ctx.stand_ins_view() == stand_in_names(stand_ins.view())
            },
            Err(e) => {
                &&& e.index < variables@.len()
                &&& e.name@ == variables@[e.index as int].name@
                &&& repeats_earlier(names_of(variables@), e.index as int)
                &&& all_distinct(names_of(variables@).take(e.index as int))
            },
        },
{
    let ghost names = names_of(variables@);
    let mut vars: AssocList<VarData> = AssocList::new();
    let mut k: usize = 0;
    while k < variables.len()
        invariant
            k <= variables@.len(),
            names == names_of(variables@),
            all_distinct(names.take(k as int)),
            var_data_view(vars.view()) == bound_vars(variables@.take(k as int)),
        decreases variables@.len() - k,
    {
        let v = &variables[k];
        let ghost prefix = variables@.take(k as int);
        proof {
            assert(bound_vars(prefix).contains_key(v.name@) <==> repeats_earlier(names, k as int))
                by {
                if bound_vars(prefix).contains_key(v.name@) {
                    let i = choose|i: int| 0 <= i < prefix.len() && prefix[i].name@ == v.name@;
                    assert(names[i] == names[k as int]);
                }
                if repeats_earlier(names, k as int) {
                    let i = choose|i: int| 0 <= i < k && names[i] == names[k as int];
                    assert(prefix[i].name@ == v.name@);
                }
            }
        }
        if vars.contains(v.name.as_str()) {
            return Err(DuplicateVar { index: k, name: v.name.clone() });
        }
        let mut ident = String::new();
        ident.append("quote_var_");
        ident.append(v.name.as_str());
        let ty = v.ty.clone();
        let ghost old_view = vars.view();
        let ghost new_data = (ident@, ty);
        vars.insert(v.name.clone(), VarData { ident, ty });
        proof {
            assert(new_data == (binding_ident(v.name@), v.ty));
            assert(var_data_view(vars.view()) =~= var_data_view(old_view).insert(v.name@, new_data));
            let next = variables@.take(k + 1);
            assert(next.drop_last() =~= prefix);
            let nt = names.take(k + 1);
            assert forall|a: int, b: int| 0 <= a < b < k + 1 implies #[trigger] nt[a] != #[trigger] nt[b] by {
                if b < k {
                    assert(names.take(k as int)[a] == names[a]);
                    assert(names.take(k as int)[b] == names[b]);
                }
            }
            assert(var_data_view(vars.view()) =~= bound_vars(next)) by {
                assert forall|key: Seq<char>| #[trigger]
                    bound_vars(next).contains_key(key) implies var_data_view(vars.view()).contains_key(key)
                    && var_data_view(vars.view())[key] == bound_vars(next)[key] by {
                    let i = choose|i: int| 0 <= i < next.len() && next[i].name@ == key;
                    if key != v.name@ {
                        assert(var_data_view(vars.view())[key] == var_data_view(old_view)[key]);
                        assert(prefix[i] == next[i]);
                        assert(bound_vars(prefix).contains_key(key));
                        let i2 = var_named(prefix, key);
                        let i3 = var_named(next, key);
                        assert(names[i2] == key && names[i3] == key);
                        if i3 == k {
                            assert(false);
                        }
                        if i2 != i3 {
                            if i2 < i3 {
                                assert(names.take(k as int)[i2] == names.take(k as int)[i3]);
                            } else {
                                assert(names.take(k as int)[i3] == names.take(k as int)[i2]);
                            }
                        }
                        assert(prefix[i2] == next[i3]);
                    } else {
                        let i3 = var_named(next, key);
                        if i3 < k {
                            assert(prefix[i3].name@ == key);
                            assert(bound_vars(prefix).contains_key(key));
                        }
                        assert(next[i3] == variables@[k as int]);
                    }
                }
                assert forall|key: Seq<char>| #[trigger]
                    var_data_view(vars.view()).contains_key(key) implies bound_vars(next).contains_key(key) by {
                    if key != v.name@ {
                        assert(bound_vars(prefix).contains_key(key));
                        let i = choose|i: int| 0 <= i < prefix.len() && prefix[i].name@ == key;
                        assert(next[i] == prefix[i]);
                    } else {
                        assert(next[k as int].name@ == key);
                    }
                }
            }
        }
        k = k + 1;
    }
    proof {
        assert(variables@.take(variables@.len() as int) =~= variables@);
        assert(names.take(names.len() as int) =~= names);
    }
    Ok(Context { vars, stand_ins })
}

} // verus!
