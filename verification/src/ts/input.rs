//! Variable types and output kinds for TypeScript quotes, and the parser for
//! the variable type syntax (`Expr`, `&str`, `Option<Vec<Stmt>>`, ...).

use vstd::prelude::*;
use vstd::string::StringExecFns;
use crate::text::{chars_of, id_continue_py, id_start_py, is_xid_start, push_chars};
use crate::segments::{is_ident_continue, lemma_word_run, word_run, IdentClass};
use crate::type_syntax::{
    eq_lit, lemma_skip_space, lemma_word_run_exact, lemma_wrapper_text, skip_space,
    skip_type_space, wrapper_at, wrapper_name_text, wrapper_named, wrapper_open_text,
    ParseTypeError, TypeErrorView, WrapperName,
};

verus! {

/// The concrete Rust type for a [`VarType::Num`].
#[derive(Clone, Copy, Debug, Eq, Hash, PartialEq, Structural)]
pub enum NumVarType {
    F64,
    Usize,
}

/// The concrete Rust type for a [`VarType::Str`].
#[derive(Clone, Copy, Debug, Eq, Hash, PartialEq, Structural)]
pub enum StrVarType {
    Str,
    String,
}

/// The type of a substitution variable.
#[derive(Debug, Eq, Hash, PartialEq)]
pub enum VarType {
    /// Substitutes a [`bool`] value as a `TsLit::Bool` literal.
    Bool,
    /// Substitutes a `ClassMember` in a class body.
    ClassMember,
    /// Substitutes a `Decl` in declaration/statement position.
    Decl,
    /// Substitutes an `Expr` in expression position.
    Expr,
    /// Substitutes an `ExportSpecifier` in an export declaration.
    ExportSpecifier,
    /// Substitutes an `Ident` in identifier position.
    Ident,
    /// Substitutes an `ImportSpecifier` in an import declaration.
    ImportSpecifier,
    /// Substitutes a JSDoc comment, attaching it as a leading comment
    /// on the next node.
    JsDoc,
    /// Substitutes a numeric value as a `TsLit::Number` literal.
    Num(NumVarType),
    /// Substitutes a `Param` in a function parameter list.
    Param,
    /// Substitutes a `ParamOrTsParamProp` in a constructor parameter
    /// list.
    ParamOrTsParamProp,
    /// Substitutes a `Stmt` in a block statement body.
    Stmt,
    /// Substitutes a string value as a `TsLit::Str` literal.
    Str(StrVarType),
    /// Substitutes a `TsType` in type position.
    TsType,
    /// Substitutes a `TsTypeElement` in an interface or type-literal body.
    TsTypeElement,
    /// Wraps an inner type in a borrowed reference.
    Ref(Box<VarType>),
    /// Wraps an inner type in `Box<Inner>`.
    Box(Box<VarType>),
    /// Wraps an inner type in `Option<Inner>`.
    Option(Box<VarType>),
    /// Splices a `Vec<Inner>` into an iterable position: union,
    /// intersection, interface body, extends clause, class body,
    /// parameter list, or block statement.
    Vec(Box<VarType>),
}

impl Clone for VarType {
    fn clone(&self) -> (r: Self)
        ensures
            r == *self,
        decreases self,
    {
        match self {
            VarType::Bool => VarType::Bool,
            VarType::ClassMember => VarType::ClassMember,
            VarType::Decl => VarType::Decl,
            VarType::Expr => VarType::Expr,
            VarType::ExportSpecifier => VarType::ExportSpecifier,
            VarType::Ident => VarType::Ident,
            VarType::ImportSpecifier => VarType::ImportSpecifier,
            VarType::JsDoc => VarType::JsDoc,
            VarType::Num(n) => VarType::Num(*n),
            VarType::Param => VarType::Param,
            VarType::ParamOrTsParamProp => VarType::ParamOrTsParamProp,
            VarType::Stmt => VarType::Stmt,
            VarType::Str(s) => VarType::Str(*s),
            VarType::TsType => VarType::TsType,
            VarType::TsTypeElement => VarType::TsTypeElement,
            VarType::Ref(t) => VarType::Ref(Box::new((**t).clone())),
            VarType::Box(t) => VarType::Box(Box::new((**t).clone())),
            VarType::Option(t) => VarType::Option(Box::new((**t).clone())),
            VarType::Vec(t) => VarType::Vec(Box::new((**t).clone())),
        }
    }
}

impl VarType {
    /// The wrapped type of a wrapper type (`&T`, `Box<T>`, `Option<T>`,
    /// `Vec<T>`); any other type itself.
    pub open spec fn inner_type(self) -> VarType {
        match self {
            VarType::Ref(t) => *t,
            VarType::Box(t) => *t,
            VarType::Option(t) => *t,
            VarType::Vec(t) => *t,
            other => other,
        }
    }

    /// The pointed-to type of a pointer type (`&T`, `Box<T>`); any other type
    /// itself.
    pub open spec fn pointee_type(self) -> VarType {
        match self {
            VarType::Ref(t) => *t,
            VarType::Box(t) => *t,
            other => other,
        }
    }

    /// Is this a string-like type: `String`, or `str` behind a pointer?
    pub open spec fn is_str_type(self) -> bool {
        self == VarType::Str(StrVarType::String) || self.pointee_type() == VarType::Str(
            StrVarType::Str,
        )
    }

    /// If this is a wrapper type, returns the wrapped type; otherwise,
    /// returns `self`.
    pub fn inner(&self) -> (r: &VarType)
        ensures
            *r == self.inner_type(),
    {
        match self {
            VarType::Ref(t) => t,
            VarType::Box(t) => t,
            VarType::Vec(t) => t,
            VarType::Option(t) => t,
            other => other,
        }
    }

    /// If this is a pointer type, returns the pointed-to type; otherwise,
    /// returns `self`.
    pub fn pointee(&self) -> (r: &VarType)
        ensures
            *r == self.pointee_type(),
    {
        match self {
            VarType::Ref(t) => t,
            VarType::Box(t) => t,
            other => other,
        }
    }

    /// Returns `true` if this is a string-like type (`String`, `&str`, or
    /// `Box<str>`).
    pub fn is_str(&self) -> (r: bool)
        ensures
            r == self.is_str_type(),
    {
        let string = match self {
            VarType::Str(StrVarType::String) => true,
            _ => false,
        };
        string || match self.pointee() {
            VarType::Str(StrVarType::Str) => true,
            _ => false,
        }
    }
}

/// The type that a plain name denotes, if any.
pub open spec fn named_type(name: Seq<char>) -> Option<VarType> {
    if name == "bool"@ {
        Some(VarType::Bool)
    } else if name == "ClassMember"@ {
        Some(VarType::ClassMember)
    } else if name == "Decl"@ {
        Some(VarType::Decl)
    } else if name == "Expr"@ {
        Some(VarType::Expr)
    } else if name == "ExportSpecifier"@ {
        Some(VarType::ExportSpecifier)
    } else if name == "f64"@ {
        Some(VarType::Num(NumVarType::F64))
    } else if name == "Ident"@ {
        Some(VarType::Ident)
    } else if name == "ImportSpecifier"@ {
        Some(VarType::ImportSpecifier)
    } else if name == "JsDoc"@ {
        Some(VarType::JsDoc)
    } else if name == "Param"@ {
        Some(VarType::Param)
    } else if name == "ParamOrTsParamProp"@ {
        Some(VarType::ParamOrTsParamProp)
    } else if name == "Stmt"@ {
        Some(VarType::Stmt)
    } else if name == "str"@ {
        Some(VarType::Str(StrVarType::Str))
    } else if name == "String"@ {
        Some(VarType::Str(StrVarType::String))
    } else if name == "TsType"@ {
        Some(VarType::TsType)
    } else if name == "TsTypeElement"@ {
        Some(VarType::TsTypeElement)
    } else if name == "usize"@ {
        Some(VarType::Num(NumVarType::Usize))
    } else {
        None
    }
}

/// Computes `named_type` on `s[from..to]`.
fn named_type_at(s: &[char], from: usize, to: usize) -> (r: Option<VarType>)
    requires
        from <= to <= s.len(),
    ensures
        r == named_type(s@.subrange(from as int, to as int)),
{
    if eq_lit(s, from, to, "bool") {
        Some(VarType::Bool)
    } else if eq_lit(s, from, to, "ClassMember") {
        Some(VarType::ClassMember)
    } else if eq_lit(s, from, to, "Decl") {
        Some(VarType::Decl)
    } else if eq_lit(s, from, to, "Expr") {
        Some(VarType::Expr)
    } else if eq_lit(s, from, to, "ExportSpecifier") {
        Some(VarType::ExportSpecifier)
    } else if eq_lit(s, from, to, "f64") {
        Some(VarType::Num(NumVarType::F64))
    } else if eq_lit(s, from, to, "Ident") {
        Some(VarType::Ident)
    } else if eq_lit(s, from, to, "ImportSpecifier") {
        Some(VarType::ImportSpecifier)
    } else if eq_lit(s, from, to, "JsDoc") {
        Some(VarType::JsDoc)
    } else if eq_lit(s, from, to, "Param") {
        Some(VarType::Param)
    } else if eq_lit(s, from, to, "ParamOrTsParamProp") {
        Some(VarType::ParamOrTsParamProp)
    } else if eq_lit(s, from, to, "Stmt") {
        Some(VarType::Stmt)
    } else if eq_lit(s, from, to, "str") {
        Some(VarType::Str(StrVarType::Str))
    } else if eq_lit(s, from, to, "String") {
        Some(VarType::Str(StrVarType::String))
    } else if eq_lit(s, from, to, "TsType") {
        Some(VarType::TsType)
    } else if eq_lit(s, from, to, "TsTypeElement") {
        Some(VarType::TsTypeElement)
    } else if eq_lit(s, from, to, "usize") {
        Some(VarType::Num(NumVarType::Usize))
    } else {
        None
    }
}

pub open spec fn wrap(w: WrapperName, t: VarType) -> VarType {
    match w {
        WrapperName::Box => VarType::Box(Box::new(t)),
        WrapperName::Option => VarType::Option(Box::new(t)),
        WrapperName::Vec => VarType::Vec(Box::new(t)),
    }
}

/// Parses one type starting at `i` (after white space): `&` and a type; a
/// plain type name; or `Box`, `Option` or `Vec`, then `<`, a type, and `>`.
/// On success, the type and the index just past it.
pub open spec fn parse_type_at(s: Seq<char>, i: int) -> Result<(VarType, int), TypeErrorView>
    decreases s.len() - i,
{
    if i < 0 || i > s.len() {
        Err(TypeErrorView::ExpectedType)
    } else {
        let j = skip_space(s, i);
        proof {
            lemma_skip_space(s, i);
        }
        if j >= s.len() {
            Err(TypeErrorView::ExpectedType)
        } else if s[j] == '&' {
            match parse_type_at(s, j + 1) {
                Ok((t, k)) => Ok((VarType::Ref(Box::new(t)), k)),
                Err(e) => Err(e),
            }
        } else if id_start_py(s[j]) || s[j] == '_' {
            let k = word_run(s, j + 1, IdentClass::Python);
            proof {
                lemma_word_run(s, j + 1, IdentClass::Python);
            }
            let name = s.subrange(j, k);
            match named_type(name) {
                Some(t) => Ok((t, k)),
                None => match wrapper_named(name) {
                    Some(w) => {
                        let l = skip_space(s, k);
                        proof {
                            lemma_skip_space(s, k);
                        }
                        if l < s.len() && s[l] == '<' {
                            match parse_type_at(s, l + 1) {
                                Ok((t, m)) => {
                                    let n = skip_space(s, m);
                                    if 0 <= m <= n < s.len() && s[n] == '>' {
                                        Ok((wrap(w, t), n + 1))
                                    } else {
                                        Err(TypeErrorView::ExpectedClose)
                                    }
                                },
                                Err(e) => Err(e),
                            }
                        } else {
                            Err(TypeErrorView::ExpectedOpen)
                        }
                    },
                    None => Err(TypeErrorView::Unsupported(name)),
                },
            }
        } else {
            Err(TypeErrorView::ExpectedType)
        }
    }
}

/// Parses a whole variable type: one type, then nothing but white space.
pub open spec fn parse_var_type(s: Seq<char>) -> Result<VarType, TypeErrorView> {
    match parse_type_at(s, 0) {
        Ok((t, k)) => if skip_space(s, k) == s.len() {
            Ok(t)
        } else {
            Err(TypeErrorView::Trailing)
        },
        Err(e) => Err(e),
    }
}

proof fn lemma_parse_type_at(s: Seq<char>, i: int)
    requires
        0 <= i <= s.len(),
    ensures
        parse_type_at(s, i) matches Ok((t, k)) ==> i < k <= s.len(),
    decreases s.len() - i,
{
    lemma_skip_space(s, i);
    let j = skip_space(s, i);
    if j < s.len() {
        if s[j] == '&' {
            lemma_parse_type_at(s, j + 1);
        } else if id_start_py(s[j]) || s[j] == '_' {
            lemma_word_run(s, j + 1, IdentClass::Python);
            let k = word_run(s, j + 1, IdentClass::Python);
            lemma_skip_space(s, k);
            let l = skip_space(s, k);
            if l < s.len() {
                lemma_parse_type_at(s, l + 1);
            }
        }
    }
}

/// Computes `parse_type_at`.
fn parse_type_from(s: &[char], i: usize) -> (r: Result<(VarType, usize), ParseTypeError>)
    requires
        i <= s.len(),
    ensures
        r matches Ok((t, k)) ==> parse_type_at(s@, i as int) == Ok::<_, TypeErrorView>((t, k as int))
            && i < k <= s.len(),
        r matches Err(e) ==> parse_type_at(s@, i as int) == Err::<(VarType, int), _>(e.view()),
    decreases s.len() - i,
{
    proof {
        lemma_parse_type_at(s@, i as int);
    }
    let j = skip_type_space(s, i);
    if j >= s.len() {
        return Err(ParseTypeError::ExpectedType);
    }
    let c = s[j];
    if c == '&' {
        return match parse_type_from(s, j + 1) {
            Ok((t, k)) => Ok((VarType::Ref(Box::new(t)), k)),
            Err(e) => Err(e),
        };
    }
    if !(is_xid_start(c) || c == '_') {
        return Err(ParseTypeError::ExpectedType);
    }
    let mut k = j + 1;
    while k < s.len() && is_ident_continue(IdentClass::Python, s[k])
        invariant
            j + 1 <= k <= s.len(),
            word_run(s@, j + 1, IdentClass::Python) == word_run(s@, k as int, IdentClass::Python),
        decreases s.len() - k,
    {
        k = k + 1;
    }
    if let Some(t) = named_type_at(s, j, k) {
        return Ok((t, k));
    }
    let w = match wrapper_at(s, j, k) {
        Some(w) => w,
        None => {
            let mut name = String::new();
            push_chars(&mut name, s, j, k);
            return Err(ParseTypeError::Unsupported(name));
        },
    };
    let l = skip_type_space(s, k);
    if !(l < s.len() && s[l] == '<') {
        return Err(ParseTypeError::ExpectedOpen);
    }
    let (inner, m) = match parse_type_from(s, l + 1) {
        Ok(r) => r,
        Err(e) => {
            return Err(e);
        },
    };
    let n = skip_type_space(s, m);
    if !(n < s.len() && s[n] == '>') {
        return Err(ParseTypeError::ExpectedClose);
    }
    let t = match w {
        WrapperName::Box => VarType::Box(Box::new(inner)),
        WrapperName::Option => VarType::Option(Box::new(inner)),
        WrapperName::Vec => VarType::Vec(Box::new(inner)),
    };
    Ok((t, n + 1))
}

impl VarType {
    /// Parses a variable type from its text, such as `Expr`, `&str` or
    /// `Option<Vec<Stmt>>`: one type, then nothing but white space.
    pub fn parse(text: &str) -> (r: Result<VarType, ParseTypeError>)
        ensures
            r matches Ok(t) ==> parse_var_type(text@) == Ok::<_, TypeErrorView>(t),
            r matches Err(e) ==> parse_var_type(text@) == Err::<VarType, _>(e.view()),
    {
        let s = chars_of(text);
        match parse_type_from(s.as_slice(), 0) {
            Ok((t, k)) => {
                if skip_type_space(s.as_slice(), k) == s.len() {
                    Ok(t)
                } else {
                    Err(ParseTypeError::Trailing)
                }
            },
            Err(e) => Err(e),
        }
    }
}

/// How a variable type is written: `Expr`, `&str`, `Option<Vec<Stmt>>`.
pub open spec fn type_text(t: VarType) -> Seq<char>
    decreases t,
{
    match t {
        VarType::Bool => "bool"@,
        VarType::ClassMember => "ClassMember"@,
        VarType::Decl => "Decl"@,
        VarType::Expr => "Expr"@,
        VarType::ExportSpecifier => "ExportSpecifier"@,
        VarType::Ident => "Ident"@,
        VarType::ImportSpecifier => "ImportSpecifier"@,
        VarType::JsDoc => "JsDoc"@,
        VarType::Num(NumVarType::F64) => "f64"@,
        VarType::Num(NumVarType::Usize) => "usize"@,
        VarType::Param => "Param"@,
        VarType::ParamOrTsParamProp => "ParamOrTsParamProp"@,
        VarType::Stmt => "Stmt"@,
        VarType::Str(StrVarType::Str) => "str"@,
        VarType::Str(StrVarType::String) => "String"@,
        VarType::TsType => "TsType"@,
        VarType::TsTypeElement => "TsTypeElement"@,
        VarType::Ref(inner) => "&"@ + type_text(*inner),
        VarType::Box(inner) => "Box<"@ + type_text(*inner) + ">"@,
        VarType::Option(inner) => "Option<"@ + type_text(*inner) + ">"@,
        VarType::Vec(inner) => "Vec<"@ + type_text(*inner) + ">"@,
    }
}

impl VarType {
    /// Appends how this type is written to `out`.
    pub fn write_to(&self, out: &mut String)
        ensures
            final(out)@ == old(out)@ + type_text(*self),
        decreases self,
    {
        match self {
            VarType::Bool => out.append("bool"),
            VarType::ClassMember => out.append("ClassMember"),
            VarType::Decl => out.append("Decl"),
            VarType::Expr => out.append("Expr"),
            VarType::ExportSpecifier => out.append("ExportSpecifier"),
            VarType::Ident => out.append("Ident"),
            VarType::ImportSpecifier => out.append("ImportSpecifier"),
            VarType::JsDoc => out.append("JsDoc"),
            VarType::Num(NumVarType::F64) => out.append("f64"),
            VarType::Num(NumVarType::Usize) => out.append("usize"),
            VarType::Param => out.append("Param"),
            VarType::ParamOrTsParamProp => out.append("ParamOrTsParamProp"),
            VarType::Stmt => out.append("Stmt"),
            VarType::Str(StrVarType::Str) => out.append("str"),
            VarType::Str(StrVarType::String) => out.append("String"),
            VarType::TsType => out.append("TsType"),
            VarType::TsTypeElement => out.append("TsTypeElement"),
            VarType::Ref(inner) => {
                out.append("&");
                inner.write_to(out);
            },
            VarType::Box(inner) => {
                out.append("Box<");
                inner.write_to(out);
                out.append(">");
            },
            VarType::Option(inner) => {
                out.append("Option<");
                inner.write_to(out);
                out.append(">");
            },
            VarType::Vec(inner) => {
                out.append("Vec<");
                inner.write_to(out);
                out.append(">");
            },
        }
        proof {
            assert(final(out)@ =~= old(out)@ + type_text(*self));
        }
    }

    /// How this type is written, such as `Option<&str>`.
    pub fn to_string(&self) -> (r: String)
        ensures
            r@ == type_text(*self),
    {
        let mut out = String::new();
        self.write_to(&mut out);
        assert(out@ =~= type_text(*self));
        out
    }
}

/// The syntax node type to parse from the quoted source.
#[derive(Clone, Copy, Debug, PartialEq, Eq, Structural)]
pub enum OutputKind {
    /// A class member, from `class C { <source> }`.
    ClassMember,
    /// A declaration, from a declaration statement.
    Decl,
    /// An expression.
    Expr,
    /// An export specifier, from `export { <source> } from "";`.
    ExportSpecifier,
    /// An identifier, from an identifier expression.
    Ident,
    /// An import specifier, from `import { <source> } from "";`.
    ImportSpecifier,
    /// A module item.
    ModuleItem,
    /// A parameter, from `function f(<source>) {}`.
    Param,
    /// A constructor parameter, from `class C { constructor(<source>) {} }`.
    ParamOrTsParamProp,
    /// A statement or declaration in a statement list.
    Stmt,
    /// A type, from `type T = <source>;`.
    TsType,
    /// A type element, from `interface I { <source> }`.
    TsTypeElement,
}

/// The output kind that `name` names, if any.
pub open spec fn output_kind_named(name: Seq<char>) -> Option<OutputKind> {
    if name == "ClassMember"@ {
        Some(OutputKind::ClassMember)
    } else if name == "Decl"@ {
        Some(OutputKind::Decl)
    } else if name == "Expr"@ {
        Some(OutputKind::Expr)
    } else if name == "ExportSpecifier"@ {
        Some(OutputKind::ExportSpecifier)
    } else if name == "Ident"@ {
        Some(OutputKind::Ident)
    } else if name == "ImportSpecifier"@ {
        Some(OutputKind::ImportSpecifier)
    } else if name == "ModuleItem"@ {
        Some(OutputKind::ModuleItem)
    } else if name == "Param"@ {
        Some(OutputKind::Param)
    } else if name == "ParamOrTsParamProp"@ {
        Some(OutputKind::ParamOrTsParamProp)
    } else if name == "Stmt"@ {
        Some(OutputKind::Stmt)
    } else if name == "TsType"@ {
        Some(OutputKind::TsType)
    } else if name == "TsTypeElement"@ {
        Some(OutputKind::TsTypeElement)
    } else {
        None
    }
}

/// An output kind name that is not supported.
#[derive(Debug, PartialEq, Eq)]
pub struct UnsupportedOutputKind(pub String);

impl UnsupportedOutputKind {
    /// The error message.
    pub fn message(&self) -> (r: String)
        ensures
            r@ == "unsupported output kind `"@ + self.0@ + "`; expected one of `ClassMember`, `Decl`, `Expr`, `ExportSpecifier`, `Ident`, `ImportSpecifier`, `ModuleItem`, `Param`, `ParamOrTsParamProp`, `Stmt`, `TsType`, `TsTypeElement`"@,
    {
        let mut r = String::new();
        r.append("unsupported output kind `");
        r.append(self.0.as_str());
        r.append("`; expected one of `ClassMember`, `Decl`, `Expr`, `ExportSpecifier`, `Ident`, `ImportSpecifier`, `ModuleItem`, `Param`, `ParamOrTsParamProp`, `Stmt`, `TsType`, `TsTypeElement`");
        r
    }
}

impl OutputKind {
    /// The output kind named `name`, or an error naming the unsupported kind.
    pub fn parse(name: &str) -> (r: Result<OutputKind, UnsupportedOutputKind>)
        ensures
            r matches Ok(k) ==> output_kind_named(name@) == Some(k),
            r matches Err(e) ==> output_kind_named(name@) is None && e.0@ == name@,
    {
        let s = chars_of(name);
        let n = s.len();
        proof {
            assert(s@.subrange(0, n as int) =~= name@);
        }
        if eq_lit(s.as_slice(), 0, n, "ClassMember") {
            return Ok(OutputKind::ClassMember);
        }
        if eq_lit(s.as_slice(), 0, n, "Decl") {
            return Ok(OutputKind::Decl);
        }
        if eq_lit(s.as_slice(), 0, n, "Expr") {
            return Ok(OutputKind::Expr);
        }
        if eq_lit(s.as_slice(), 0, n, "ExportSpecifier") {
            return Ok(OutputKind::ExportSpecifier);
        }
        if eq_lit(s.as_slice(), 0, n, "Ident") {
            return Ok(OutputKind::Ident);
        }
        if eq_lit(s.as_slice(), 0, n, "ImportSpecifier") {
            return Ok(OutputKind::ImportSpecifier);
        }
        if eq_lit(s.as_slice(), 0, n, "ModuleItem") {
            return Ok(OutputKind::ModuleItem);
        }
        if eq_lit(s.as_slice(), 0, n, "Param") {
            return Ok(OutputKind::Param);
        }
        if eq_lit(s.as_slice(), 0, n, "ParamOrTsParamProp") {
            return Ok(OutputKind::ParamOrTsParamProp);
        }
        if eq_lit(s.as_slice(), 0, n, "Stmt") {
            return Ok(OutputKind::Stmt);
        }
        if eq_lit(s.as_slice(), 0, n, "TsType") {
            return Ok(OutputKind::TsType);
        }
        if eq_lit(s.as_slice(), 0, n, "TsTypeElement") {
            return Ok(OutputKind::TsTypeElement);
        }
        Err(UnsupportedOutputKind(name.to_owned()))
    }
}

/// The declared name and type of a substitution variable: `name: Type`.
#[derive(Debug)]
pub struct Variable {
    pub name: String,
    pub ty: VarType,
}

/// The plain type names denote their types, and name no wrapper.
proof fn lemma_named_type_leaves()
    ensures
        named_type("bool"@) == Some(VarType::Bool),
        named_type("ClassMember"@) == Some(VarType::ClassMember),
        named_type("Decl"@) == Some(VarType::Decl),
        named_type("Expr"@) == Some(VarType::Expr),
        named_type("ExportSpecifier"@) == Some(VarType::ExportSpecifier),
        named_type("f64"@) == Some(VarType::Num(NumVarType::F64)),
        named_type("Ident"@) == Some(VarType::Ident),
        named_type("ImportSpecifier"@) == Some(VarType::ImportSpecifier),
        named_type("JsDoc"@) == Some(VarType::JsDoc),
        named_type("Param"@) == Some(VarType::Param),
        named_type("ParamOrTsParamProp"@) == Some(VarType::ParamOrTsParamProp),
        named_type("Stmt"@) == Some(VarType::Stmt),
        named_type("str"@) == Some(VarType::Str(StrVarType::Str)),
        named_type("String"@) == Some(VarType::Str(StrVarType::String)),
        named_type("TsType"@) == Some(VarType::TsType),
        named_type("TsTypeElement"@) == Some(VarType::TsTypeElement),
        named_type("usize"@) == Some(VarType::Num(NumVarType::Usize)),
        named_type("Box"@) is None,
        named_type("Option"@) is None,
        named_type("Vec"@) is None,
        wrapper_named("Box"@) == Some(WrapperName::Box),
        wrapper_named("Option"@) == Some(WrapperName::Option),
        wrapper_named("Vec"@) == Some(WrapperName::Vec),
{
    reveal_strlit("bool");
    reveal_strlit("ClassMember");
    reveal_strlit("Decl");
    reveal_strlit("Expr");
    reveal_strlit("ExportSpecifier");
    reveal_strlit("f64");
    reveal_strlit("Ident");
    reveal_strlit("ImportSpecifier");
    reveal_strlit("JsDoc");
    reveal_strlit("Param");
    reveal_strlit("ParamOrTsParamProp");
    reveal_strlit("Stmt");
    reveal_strlit("str");
    reveal_strlit("String");
    reveal_strlit("TsType");
    reveal_strlit("TsTypeElement");
    reveal_strlit("usize");
    reveal_strlit("Box");
    reveal_strlit("Option");
    reveal_strlit("Vec");
    assert("ClassMember"@.len() != "bool"@.len());
    assert("Decl"@[0] != "bool"@[0]);
    assert("Decl"@.len() != "ClassMember"@.len());
    assert("Expr"@[0] != "bool"@[0]);
    assert("Expr"@.len() != "ClassMember"@.len());
    assert("Expr"@[0] != "Decl"@[0]);
    assert("ExportSpecifier"@.len() != "bool"@.len());
    assert("ExportSpecifier"@.len() != "ClassMember"@.len());
    assert("ExportSpecifier"@.len() != "Decl"@.len());
    assert("ExportSpecifier"@.len() != "Expr"@.len());
    assert("f64"@.len() != "bool"@.len());
    assert("f64"@.len() != "ClassMember"@.len());
    assert("f64"@.len() != "Decl"@.len());
    assert("f64"@.len() != "Expr"@.len());
    assert("f64"@.len() != "ExportSpecifier"@.len());
    assert("Ident"@.len() != "bool"@.len());
    assert("Ident"@.len() != "ClassMember"@.len());
    assert("Ident"@.len() != "Decl"@.len());
    assert("Ident"@.len() != "Expr"@.len());
    assert("Ident"@.len() != "ExportSpecifier"@.len());
    assert("Ident"@.len() != "f64"@.len());
    assert("ImportSpecifier"@.len() != "bool"@.len());
    assert("ImportSpecifier"@.len() != "ClassMember"@.len());
    assert("ImportSpecifier"@.len() != "Decl"@.len());
    assert("ImportSpecifier"@.len() != "Expr"@.len());
    assert("ImportSpecifier"@[0] != "ExportSpecifier"@[0]);
    assert("ImportSpecifier"@.len() != "f64"@.len());
    assert("ImportSpecifier"@.len() != "Ident"@.len());
    assert("JsDoc"@.len() != "bool"@.len());
    assert("JsDoc"@.len() != "ClassMember"@.len());
    assert("JsDoc"@.len() != "Decl"@.len());
    assert("JsDoc"@.len() != "Expr"@.len());
    assert("JsDoc"@.len() != "ExportSpecifier"@.len());
    assert("JsDoc"@.len() != "f64"@.len());
    assert("JsDoc"@[0] != "Ident"@[0]);
    assert("JsDoc"@.len() != "ImportSpecifier"@.len());
    assert("Param"@.len() != "bool"@.len());
    assert("Param"@.len() != "ClassMember"@.len());
    assert("Param"@.len() != "Decl"@.len());
    assert("Param"@.len() != "Expr"@.len());
    assert("Param"@.len() != "ExportSpecifier"@.len());
    assert("Param"@.len() != "f64"@.len());
    assert("Param"@[0] != "Ident"@[0]);
    assert("Param"@.len() != "ImportSpecifier"@.len());
    assert("Param"@[0] != "JsDoc"@[0]);
    assert("ParamOrTsParamProp"@.len() != "bool"@.len());
    assert("ParamOrTsParamProp"@.len() != "ClassMember"@.len());
    assert("ParamOrTsParamProp"@.len() != "Decl"@.len());
    assert("ParamOrTsParamProp"@.len() != "Expr"@.len());
    assert("ParamOrTsParamProp"@.len() != "ExportSpecifier"@.len());
    assert("ParamOrTsParamProp"@.len() != "f64"@.len());
    assert("ParamOrTsParamProp"@.len() != "Ident"@.len());
    assert("ParamOrTsParamProp"@.len() != "ImportSpecifier"@.len());
    assert("ParamOrTsParamProp"@.len() != "JsDoc"@.len());
    assert("ParamOrTsParamProp"@.len() != "Param"@.len());
    assert("Stmt"@[0] != "bool"@[0]);
    assert("Stmt"@.len() != "ClassMember"@.len());
    assert("Stmt"@[0] != "Decl"@[0]);
    assert("Stmt"@[0] != "Expr"@[0]);
    assert("Stmt"@.len() != "ExportSpecifier"@.len());
    assert("Stmt"@.len() != "f64"@.len());
    assert("Stmt"@.len() != "Ident"@.len());
    assert("Stmt"@.len() != "ImportSpecifier"@.len());
    assert("Stmt"@.len() != "JsDoc"@.len());
    assert("Stmt"@.len() != "Param"@.len());
    assert("Stmt"@.len() != "ParamOrTsParamProp"@.len());
    assert("str"@.len() != "bool"@.len());
    assert("str"@.len() != "ClassMember"@.len());
    assert("str"@.len() != "Decl"@.len());
    assert("str"@.len() != "Expr"@.len());
    assert("str"@.len() != "ExportSpecifier"@.len());
    assert("str"@[0] != "f64"@[0]);
    assert("str"@.len() != "Ident"@.len());
    assert("str"@.len() != "ImportSpecifier"@.len());
    assert("str"@.len() != "JsDoc"@.len());
    assert("str"@.len() != "Param"@.len());
    assert("str"@.len() != "ParamOrTsParamProp"@.len());
    assert("str"@.len() != "Stmt"@.len());
    assert("String"@.len() != "bool"@.len());
    assert("String"@.len() != "ClassMember"@.len());
    assert("String"@.len() != "Decl"@.len());
    assert("String"@.len() != "Expr"@.len());
    assert("String"@.len() != "ExportSpecifier"@.len());
    assert("String"@.len() != "f64"@.len());
    assert("String"@.len() != "Ident"@.len());
    assert("String"@.len() != "ImportSpecifier"@.len());
    assert("String"@.len() != "JsDoc"@.len());
    assert("String"@.len() != "Param"@.len());
    assert("String"@.len() != "ParamOrTsParamProp"@.len());
    assert("String"@.len() != "Stmt"@.len());
    assert("String"@.len() != "str"@.len());
    assert("TsType"@.len() != "bool"@.len());
    assert("TsType"@.len() != "ClassMember"@.len());
    assert("TsType"@.len() != "Decl"@.len());
    assert("TsType"@.len() != "Expr"@.len());
    assert("TsType"@.len() != "ExportSpecifier"@.len());
    assert("TsType"@.len() != "f64"@.len());
    assert("TsType"@.len() != "Ident"@.len());
    assert("TsType"@.len() != "ImportSpecifier"@.len());
    assert("TsType"@.len() != "JsDoc"@.len());
    assert("TsType"@.len() != "Param"@.len());
    assert("TsType"@.len() != "ParamOrTsParamProp"@.len());
    assert("TsType"@.len() != "Stmt"@.len());
    assert("TsType"@.len() != "str"@.len());
    assert("TsType"@[0] != "String"@[0]);
    assert("TsTypeElement"@.len() != "bool"@.len());
    assert("TsTypeElement"@.len() != "ClassMember"@.len());
    assert("TsTypeElement"@.len() != "Decl"@.len());
    assert("TsTypeElement"@.len() != "Expr"@.len());
    assert("TsTypeElement"@.len() != "ExportSpecifier"@.len());
    assert("TsTypeElement"@.len() != "f64"@.len());
    assert("TsTypeElement"@.len() != "Ident"@.len());
    assert("TsTypeElement"@.len() != "ImportSpecifier"@.len());
    assert("TsTypeElement"@.len() != "JsDoc"@.len());
    assert("TsTypeElement"@.len() != "Param"@.len());
    assert("TsTypeElement"@.len() != "ParamOrTsParamProp"@.len());
    assert("TsTypeElement"@.len() != "Stmt"@.len());
    assert("TsTypeElement"@.len() != "str"@.len());
    assert("TsTypeElement"@.len() != "String"@.len());
    assert("TsTypeElement"@.len() != "TsType"@.len());
    assert("usize"@.len() != "bool"@.len());
    assert("usize"@.len() != "ClassMember"@.len());
    assert("usize"@.len() != "Decl"@.len());
    assert("usize"@.len() != "Expr"@.len());
    assert("usize"@.len() != "ExportSpecifier"@.len());
    assert("usize"@.len() != "f64"@.len());
    assert("usize"@[0] != "Ident"@[0]);
    assert("usize"@.len() != "ImportSpecifier"@.len());
    assert("usize"@[0] != "JsDoc"@[0]);
    assert("usize"@[0] != "Param"@[0]);
    assert("usize"@.len() != "ParamOrTsParamProp"@.len());
    assert("usize"@.len() != "Stmt"@.len());
    assert("usize"@.len() != "str"@.len());
    assert("usize"@.len() != "String"@.len());
    assert("usize"@.len() != "TsType"@.len());
    assert("usize"@.len() != "TsTypeElement"@.len());
    assert("Box"@.len() != "bool"@.len());
    assert("Box"@.len() != "ClassMember"@.len());
    assert("Box"@.len() != "Decl"@.len());
    assert("Box"@.len() != "Expr"@.len());
    assert("Box"@.len() != "ExportSpecifier"@.len());
    assert("Box"@[0] != "f64"@[0]);
    assert("Box"@.len() != "Ident"@.len());
    assert("Box"@.len() != "ImportSpecifier"@.len());
    assert("Box"@.len() != "JsDoc"@.len());
    assert("Box"@.len() != "Param"@.len());
    assert("Box"@.len() != "ParamOrTsParamProp"@.len());
    assert("Box"@.len() != "Stmt"@.len());
    assert("Box"@[0] != "str"@[0]);
    assert("Box"@.len() != "String"@.len());
    assert("Box"@.len() != "TsType"@.len());
    assert("Box"@.len() != "TsTypeElement"@.len());
    assert("Box"@.len() != "usize"@.len());
    assert("Option"@.len() != "bool"@.len());
    assert("Option"@.len() != "ClassMember"@.len());
    assert("Option"@.len() != "Decl"@.len());
    assert("Option"@.len() != "Expr"@.len());
    assert("Option"@.len() != "ExportSpecifier"@.len());
    assert("Option"@.len() != "f64"@.len());
    assert("Option"@.len() != "Ident"@.len());
    assert("Option"@.len() != "ImportSpecifier"@.len());
    assert("Option"@.len() != "JsDoc"@.len());
    assert("Option"@.len() != "Param"@.len());
    assert("Option"@.len() != "ParamOrTsParamProp"@.len());
    assert("Option"@.len() != "Stmt"@.len());
    assert("Option"@.len() != "str"@.len());
    assert("Option"@[0] != "String"@[0]);
    assert("Option"@[0] != "TsType"@[0]);
    assert("Option"@.len() != "TsTypeElement"@.len());
    assert("Option"@.len() != "usize"@.len());
    assert("Vec"@.len() != "bool"@.len());
    assert("Vec"@.len() != "ClassMember"@.len());
    assert("Vec"@.len() != "Decl"@.len());
    assert("Vec"@.len() != "Expr"@.len());
    assert("Vec"@.len() != "ExportSpecifier"@.len());
    assert("Vec"@[0] != "f64"@[0]);
    assert("Vec"@.len() != "Ident"@.len());
    assert("Vec"@.len() != "ImportSpecifier"@.len());
    assert("Vec"@.len() != "JsDoc"@.len());
    assert("Vec"@.len() != "Param"@.len());
    assert("Vec"@.len() != "ParamOrTsParamProp"@.len());
    assert("Vec"@.len() != "Stmt"@.len());
    assert("Vec"@[0] != "str"@[0]);
    assert("Vec"@.len() != "String"@.len());
    assert("Vec"@.len() != "TsType"@.len());
    assert("Vec"@.len() != "TsTypeElement"@.len());
    assert("Vec"@.len() != "usize"@.len());
    assert("Option"@.len() != "Box"@.len());
    assert("Vec"@[0] != "Box"@[0]);
    assert("Vec"@.len() != "Option"@.len());
}

/// A plain type is written as a name that starts with an ASCII letter and
/// continues with ASCII letters and digits, and that name denotes it.
proof fn lemma_leaf_text(t: VarType)
    requires
        !(t is Ref || t is Box || t is Option || t is Vec),
    ensures
        type_text(t).len() > 0,
        crate::text::is_ascii_letter(type_text(t)[0]),
        forall|j: int|
            0 <= j < type_text(t).len() ==> (crate::text::is_ascii_letter(#[trigger] type_text(t)[j])
                || crate::text::is_ascii_digit(type_text(t)[j])),
        named_type(type_text(t)) == Some(t),
{
    lemma_named_type_leaves();
    reveal_strlit("bool");
    reveal_strlit("ClassMember");
    reveal_strlit("Decl");
    reveal_strlit("Expr");
    reveal_strlit("ExportSpecifier");
    reveal_strlit("f64");
    reveal_strlit("Ident");
    reveal_strlit("ImportSpecifier");
    reveal_strlit("JsDoc");
    reveal_strlit("Param");
    reveal_strlit("ParamOrTsParamProp");
    reveal_strlit("Stmt");
    reveal_strlit("str");
    reveal_strlit("String");
    reveal_strlit("TsType");
    reveal_strlit("TsTypeElement");
    reveal_strlit("usize");
    match t {
        VarType::Bool => {
            assert("bool"@[0] == 'b');
            assert("bool"@[1] == 'o');
            assert("bool"@[2] == 'o');
            assert("bool"@[3] == 'l');
            assert forall|j: int| 0 <= j < 4 implies (crate::text::is_ascii_letter(#[trigger] "bool"@[j]) || crate::text::is_ascii_digit("bool"@[j])) by {
                if j == 0 {} else if j == 1 {} else if j == 2 {} else if j == 3 {}
            }
        },
        VarType::ClassMember => {
            assert("ClassMember"@[0] == 'C');
            assert("ClassMember"@[1] == 'l');
            assert("ClassMember"@[2] == 'a');
            assert("ClassMember"@[3] == 's');
            assert("ClassMember"@[4] == 's');
            assert("ClassMember"@[5] == 'M');
            assert("ClassMember"@[6] == 'e');
            assert("ClassMember"@[7] == 'm');
            assert("ClassMember"@[8] == 'b');
            assert("ClassMember"@[9] == 'e');
            assert("ClassMember"@[10] == 'r');
            assert forall|j: int| 0 <= j < 11 implies (crate::text::is_ascii_letter(#[trigger] "ClassMember"@[j]) || crate::text::is_ascii_digit("ClassMember"@[j])) by {
                if j == 0 {} else if j == 1 {} else if j == 2 {} else if j == 3 {} else if j == 4 {} else if j == 5 {} else if j == 6 {} else if j == 7 {} else if j == 8 {} else if j == 9 {} else if j == 10 {}
            }
        },
        VarType::Decl => {
            assert("Decl"@[0] == 'D');
            assert("Decl"@[1] == 'e');
            assert("Decl"@[2] == 'c');
            assert("Decl"@[3] == 'l');
            assert forall|j: int| 0 <= j < 4 implies (crate::text::is_ascii_letter(#[trigger] "Decl"@[j]) || crate::text::is_ascii_digit("Decl"@[j])) by {
                if j == 0 {} else if j == 1 {} else if j == 2 {} else if j == 3 {}
            }
        },
        VarType::Expr => {
            assert("Expr"@[0] == 'E');
            assert("Expr"@[1] == 'x');
            assert("Expr"@[2] == 'p');
            assert("Expr"@[3] == 'r');
            assert forall|j: int| 0 <= j < 4 implies (crate::text::is_ascii_letter(#[trigger] "Expr"@[j]) || crate::text::is_ascii_digit("Expr"@[j])) by {
                if j == 0 {} else if j == 1 {} else if j == 2 {} else if j == 3 {}
            }
        },
        VarType::ExportSpecifier => {
            assert("ExportSpecifier"@[0] == 'E');
            assert("ExportSpecifier"@[1] == 'x');
            assert("ExportSpecifier"@[2] == 'p');
            assert("ExportSpecifier"@[3] == 'o');
            assert("ExportSpecifier"@[4] == 'r');
            assert("ExportSpecifier"@[5] == 't');
            assert("ExportSpecifier"@[6] == 'S');
            assert("ExportSpecifier"@[7] == 'p');
            assert("ExportSpecifier"@[8] == 'e');
            assert("ExportSpecifier"@[9] == 'c');
            assert("ExportSpecifier"@[10] == 'i');
            assert("ExportSpecifier"@[11] == 'f');
            assert("ExportSpecifier"@[12] == 'i');
            assert("ExportSpecifier"@[13] == 'e');
            assert("ExportSpecifier"@[14] == 'r');
            assert forall|j: int| 0 <= j < 15 implies (crate::text::is_ascii_letter(#[trigger] "ExportSpecifier"@[j]) || crate::text::is_ascii_digit("ExportSpecifier"@[j])) by {
                if j == 0 {} else if j == 1 {} else if j == 2 {} else if j == 3 {} else if j == 4 {} else if j == 5 {} else if j == 6 {} else if j == 7 {} else if j == 8 {} else if j == 9 {} else if j == 10 {} else if j == 11 {} else if j == 12 {} else if j == 13 {} else if j == 14 {}
            }
        },
        VarType::Ident => {
            assert("Ident"@[0] == 'I');
            assert("Ident"@[1] == 'd');
            assert("Ident"@[2] == 'e');
            assert("Ident"@[3] == 'n');
            assert("Ident"@[4] == 't');
            assert forall|j: int| 0 <= j < 5 implies (crate::text::is_ascii_letter(#[trigger] "Ident"@[j]) || crate::text::is_ascii_digit("Ident"@[j])) by {
                if j == 0 {} else if j == 1 {} else if j == 2 {} else if j == 3 {} else if j == 4 {}
            }
        },
        VarType::ImportSpecifier => {
            assert("ImportSpecifier"@[0] == 'I');
            assert("ImportSpecifier"@[1] == 'm');
            assert("ImportSpecifier"@[2] == 'p');
            assert("ImportSpecifier"@[3] == 'o');
            assert("ImportSpecifier"@[4] == 'r');
            assert("ImportSpecifier"@[5] == 't');
            assert("ImportSpecifier"@[6] == 'S');
            assert("ImportSpecifier"@[7] == 'p');
            assert("ImportSpecifier"@[8] == 'e');
            assert("ImportSpecifier"@[9] == 'c');
            assert("ImportSpecifier"@[10] == 'i');
            assert("ImportSpecifier"@[11] == 'f');
            assert("ImportSpecifier"@[12] == 'i');
            assert("ImportSpecifier"@[13] == 'e');
            assert("ImportSpecifier"@[14] == 'r');
            assert forall|j: int| 0 <= j < 15 implies (crate::text::is_ascii_letter(#[trigger] "ImportSpecifier"@[j]) || crate::text::is_ascii_digit("ImportSpecifier"@[j])) by {
                if j == 0 {} else if j == 1 {} else if j == 2 {} else if j == 3 {} else if j == 4 {} else if j == 5 {} else if j == 6 {} else if j == 7 {} else if j == 8 {} else if j == 9 {} else if j == 10 {} else if j == 11 {} else if j == 12 {} else if j == 13 {} else if j == 14 {}
            }
        },
        VarType::JsDoc => {
            assert("JsDoc"@[0] == 'J');
            assert("JsDoc"@[1] == 's');
            assert("JsDoc"@[2] == 'D');
            assert("JsDoc"@[3] == 'o');
            assert("JsDoc"@[4] == 'c');
            assert forall|j: int| 0 <= j < 5 implies (crate::text::is_ascii_letter(#[trigger] "JsDoc"@[j]) || crate::text::is_ascii_digit("JsDoc"@[j])) by {
                if j == 0 {} else if j == 1 {} else if j == 2 {} else if j == 3 {} else if j == 4 {}
            }
        },
        VarType::Num(NumVarType::F64) => {
            assert("f64"@[0] == 'f');
            assert("f64"@[1] == '6');
            assert("f64"@[2] == '4');
            assert forall|j: int| 0 <= j < 3 implies (crate::text::is_ascii_letter(#[trigger] "f64"@[j]) || crate::text::is_ascii_digit("f64"@[j])) by {
                if j == 0 {} else if j == 1 {} else if j == 2 {}
            }
        },
        VarType::Num(NumVarType::Usize) => {
            assert("usize"@[0] == 'u');
            assert("usize"@[1] == 's');
            assert("usize"@[2] == 'i');
            assert("usize"@[3] == 'z');
            assert("usize"@[4] == 'e');
            assert forall|j: int| 0 <= j < 5 implies (crate::text::is_ascii_letter(#[trigger] "usize"@[j]) || crate::text::is_ascii_digit("usize"@[j])) by {
                if j == 0 {} else if j == 1 {} else if j == 2 {} else if j == 3 {} else if j == 4 {}
            }
        },
        VarType::Param => {
            assert("Param"@[0] == 'P');
            assert("Param"@[1] == 'a');
            assert("Param"@[2] == 'r');
            assert("Param"@[3] == 'a');
            assert("Param"@[4] == 'm');
            assert forall|j: int| 0 <= j < 5 implies (crate::text::is_ascii_letter(#[trigger] "Param"@[j]) || crate::text::is_ascii_digit("Param"@[j])) by {
                if j == 0 {} else if j == 1 {} else if j == 2 {} else if j == 3 {} else if j == 4 {}
            }
        },
        VarType::ParamOrTsParamProp => {
            assert("ParamOrTsParamProp"@[0] == 'P');
            assert("ParamOrTsParamProp"@[1] == 'a');
            assert("ParamOrTsParamProp"@[2] == 'r');
            assert("ParamOrTsParamProp"@[3] == 'a');
            assert("ParamOrTsParamProp"@[4] == 'm');
            assert("ParamOrTsParamProp"@[5] == 'O');
            assert("ParamOrTsParamProp"@[6] == 'r');
            assert("ParamOrTsParamProp"@[7] == 'T');
            assert("ParamOrTsParamProp"@[8] == 's');
            assert("ParamOrTsParamProp"@[9] == 'P');
            assert("ParamOrTsParamProp"@[10] == 'a');
            assert("ParamOrTsParamProp"@[11] == 'r');
            assert("ParamOrTsParamProp"@[12] == 'a');
            assert("ParamOrTsParamProp"@[13] == 'm');
            assert("ParamOrTsParamProp"@[14] == 'P');
            assert("ParamOrTsParamProp"@[15] == 'r');
            assert("ParamOrTsParamProp"@[16] == 'o');
            assert("ParamOrTsParamProp"@[17] == 'p');
            assert forall|j: int| 0 <= j < 18 implies (crate::text::is_ascii_letter(#[trigger] "ParamOrTsParamProp"@[j]) || crate::text::is_ascii_digit("ParamOrTsParamProp"@[j])) by {
                if j == 0 {} else if j == 1 {} else if j == 2 {} else if j == 3 {} else if j == 4 {} else if j == 5 {} else if j == 6 {} else if j == 7 {} else if j == 8 {} else if j == 9 {} else if j == 10 {} else if j == 11 {} else if j == 12 {} else if j == 13 {} else if j == 14 {} else if j == 15 {} else if j == 16 {} else if j == 17 {}
            }
        },
        VarType::Stmt => {
            assert("Stmt"@[0] == 'S');
            assert("Stmt"@[1] == 't');
            assert("Stmt"@[2] == 'm');
            assert("Stmt"@[3] == 't');
            assert forall|j: int| 0 <= j < 4 implies (crate::text::is_ascii_letter(#[trigger] "Stmt"@[j]) || crate::text::is_ascii_digit("Stmt"@[j])) by {
                if j == 0 {} else if j == 1 {} else if j == 2 {} else if j == 3 {}
            }
        },
        VarType::Str(StrVarType::Str) => {
            assert("str"@[0] == 's');
            assert("str"@[1] == 't');
            assert("str"@[2] == 'r');
            assert forall|j: int| 0 <= j < 3 implies (crate::text::is_ascii_letter(#[trigger] "str"@[j]) || crate::text::is_ascii_digit("str"@[j])) by {
                if j == 0 {} else if j == 1 {} else if j == 2 {}
            }
        },
        VarType::Str(StrVarType::String) => {
            assert("String"@[0] == 'S');
            assert("String"@[1] == 't');
            assert("String"@[2] == 'r');
            assert("String"@[3] == 'i');
            assert("String"@[4] == 'n');
            assert("String"@[5] == 'g');
            assert forall|j: int| 0 <= j < 6 implies (crate::text::is_ascii_letter(#[trigger] "String"@[j]) || crate::text::is_ascii_digit("String"@[j])) by {
                if j == 0 {} else if j == 1 {} else if j == 2 {} else if j == 3 {} else if j == 4 {} else if j == 5 {}
            }
        },
        VarType::TsType => {
            assert("TsType"@[0] == 'T');
            assert("TsType"@[1] == 's');
            assert("TsType"@[2] == 'T');
            assert("TsType"@[3] == 'y');
            assert("TsType"@[4] == 'p');
            assert("TsType"@[5] == 'e');
            assert forall|j: int| 0 <= j < 6 implies (crate::text::is_ascii_letter(#[trigger] "TsType"@[j]) || crate::text::is_ascii_digit("TsType"@[j])) by {
                if j == 0 {} else if j == 1 {} else if j == 2 {} else if j == 3 {} else if j == 4 {} else if j == 5 {}
            }
        },
        VarType::TsTypeElement => {
            assert("TsTypeElement"@[0] == 'T');
            assert("TsTypeElement"@[1] == 's');
            assert("TsTypeElement"@[2] == 'T');
            assert("TsTypeElement"@[3] == 'y');
            assert("TsTypeElement"@[4] == 'p');
            assert("TsTypeElement"@[5] == 'e');
            assert("TsTypeElement"@[6] == 'E');
            assert("TsTypeElement"@[7] == 'l');
            assert("TsTypeElement"@[8] == 'e');
            assert("TsTypeElement"@[9] == 'm');
            assert("TsTypeElement"@[10] == 'e');
            assert("TsTypeElement"@[11] == 'n');
            assert("TsTypeElement"@[12] == 't');
            assert forall|j: int| 0 <= j < 13 implies (crate::text::is_ascii_letter(#[trigger] "TsTypeElement"@[j]) || crate::text::is_ascii_digit("TsTypeElement"@[j])) by {
                if j == 0 {} else if j == 1 {} else if j == 2 {} else if j == 3 {} else if j == 4 {} else if j == 5 {} else if j == 6 {} else if j == 7 {} else if j == 8 {} else if j == 9 {} else if j == 10 {} else if j == 11 {} else if j == 12 {}
            }
        },
        _ => {},
    }
}

/// Parsing at `p` where the text of `t` stands, followed by the end or by a
/// character that cannot continue a name, gives back `t` and the end of its
/// text.
proof fn lemma_parse_type_text(s: Seq<char>, p: int, t: VarType)
    requires
        0 <= p,
        p + type_text(t).len() <= s.len(),
        s.subrange(p, p + type_text(t).len()) == type_text(t),
        p + type_text(t).len() == s.len() || !id_continue_py(s[p + type_text(t).len()]),
    ensures
        parse_type_at(s, p) == Ok::<_, TypeErrorView>((t, p + type_text(t).len())),
    decreases t, 2nat,
{
    let text = type_text(t);
    let end = p + text.len();
    lemma_named_type_leaves();
    reveal_strlit("&");
    reveal_strlit("Box<");
    reveal_strlit("Option<");
    reveal_strlit("Vec<");
    reveal_strlit(">");
    assert(forall|j: int| 0 <= j < text.len() ==> s[p + j] == #[trigger] text[j]) by {
        assert forall|j: int| 0 <= j < text.len() implies s[p + j] == #[trigger] text[j] by {
            assert(s.subrange(p, end)[j] == s[p + j]);
        }
    }
    match t {
        VarType::Ref(inner) => {
            let ti = type_text(*inner);
            assert(text == seq!['&'] + ti);
            assert(s.subrange(p + 1, p + 1 + ti.len()) =~= ti) by {
                assert forall|j: int| 0 <= j < ti.len() implies s.subrange(p + 1, p + 1 + ti.len())[j]
                    == ti[j] by {
                    assert(text[1 + j] == ti[j]);
                }
            }
            lemma_parse_type_text(s, p + 1, *inner);
            assert(s[p] == text[0]);
            assert(text[0] == '&');
            assert(skip_space(s, p) == p);
            assert(parse_type_at(s, p + 1) == Ok::<_, TypeErrorView>((*inner, p + 1 + ti.len())));
        },
        VarType::Box(inner) => {
            lemma_parse_wrapped(s, p, *inner, t, "Box<"@, WrapperName::Box);
        },
        VarType::Option(inner) => {
            lemma_parse_wrapped(s, p, *inner, t, "Option<"@, WrapperName::Option);
        },
        VarType::Vec(inner) => {
            lemma_parse_wrapped(s, p, *inner, t, "Vec<"@, WrapperName::Vec);
        },
        _ => {
            lemma_leaf_text(t);
            lemma_skip_space(s, p);
            assert(s[p] == text[0]);
            assert forall|j: int| p + 1 <= j < end implies id_continue_py(#[trigger] s[j]) by {
                assert(s[j] == text[j - p]);
            }
            lemma_word_run_exact(s, p + 1, end);
            assert(s.subrange(p, end) == text);
        },
    }
}

/// The wrapper case of `lemma_parse_type_text`.
proof fn lemma_parse_wrapped(
    s: Seq<char>,
    p: int,
    inner: VarType,
    t: VarType,
    open: Seq<char>,
    w: WrapperName,
)
    requires
        0 <= p,
        t == wrap(w, inner),
        open == wrapper_open_text(w),
        type_text(t) == open + type_text(inner) + ">"@,
        p + type_text(t).len() <= s.len(),
        s.subrange(p, p + type_text(t).len()) == type_text(t),
        p + type_text(t).len() == s.len() || !id_continue_py(s[p + type_text(t).len()]),
    ensures
        parse_type_at(s, p) == Ok::<_, TypeErrorView>((t, p + type_text(t).len())),
    decreases t, 1nat,
{
    reveal_strlit(">");
    lemma_wrapper_text(w);
    lemma_named_type_leaves();
    let text = type_text(t);
    let ti = type_text(inner);
    let nm = wrapper_name_text(w);
    let ol = open.len() as int;
    let end = p + text.len();
    let m = p + ol + ti.len();
    assert(forall|j: int| 0 <= j < text.len() ==> s[p + j] == #[trigger] text[j]) by {
        assert forall|j: int| 0 <= j < text.len() implies s[p + j] == #[trigger] text[j] by {
            assert(s.subrange(p, end)[j] == s[p + j]);
        }
    }
    assert(forall|j: int| 0 <= j < ol ==> #[trigger] text[j] == open[j]);
    assert(forall|j: int| 0 <= j < ti.len() ==> #[trigger] text[ol + j] == ti[j]);
    assert(text[ol + ti.len()] == '>');
    assert(s[m] == '>');
    assert(text[ol - 1] == open[ol - 1]);
    assert(s[p + (ol - 1)] == text[ol - 1]);
    assert(s[p + ol - 1] == '<');
    let name_end = p + ol - 1;
    assert forall|j: int| p + 1 <= j < name_end implies id_continue_py(#[trigger] s[j]) by {
        assert(s[j] == text[j - p]);
        assert(text[j - p] == open[j - p]);
    }
    lemma_word_run_exact(s, p + 1, name_end);
    let name = s.subrange(p, name_end);
    assert(name =~= nm) by {
        assert forall|j: int| 0 <= j < ol - 1 implies name[j] == nm[j] by {
            assert(name[j] == s[p + j]);
            assert(s[p + j] == text[j]);
            assert(open.take(ol - 1)[j] == open[j]);
        }
    }
    assert(s.subrange(p + ol, m) =~= ti) by {
        assert forall|j: int| 0 <= j < ti.len() implies s.subrange(p + ol, m)[j] == ti[j] by {
            assert(s[p + ol + j] == text[ol + j]);
        }
    }
    lemma_parse_type_text(s, p + ol, inner);
    lemma_skip_space(s, p);
    assert(text[0] == open[0]);
    assert(s[p + 0] == text[0]);
    assert(s[p] == open[0]);
    assert(skip_space(s, p) == p);
    assert(skip_space(s, name_end) == name_end);
    assert(skip_space(s, m) == m);
}

/// Writing a variable type and parsing the text gives back the type.
pub proof fn lemma_parse_type_text_roundtrip(t: VarType)
    ensures
        parse_var_type(type_text(t)) == Ok::<_, TypeErrorView>(t),
{
    let s = type_text(t);
    assert(s.subrange(0, s.len() as int) =~= s);
    lemma_parse_type_text(s, 0, t);
    lemma_skip_space(s, s.len() as int);
}


/// The text that the parser reads for a quote of kind `kind`: the source,
/// wrapped, for the kinds that cannot stand alone, in the smallest construct
/// that holds one.
pub open spec fn wrapped_text(kind: OutputKind, source: Seq<char>) -> Seq<char> {
    match kind {
        OutputKind::TsType => "type T = "@ + source + ";"@,
        OutputKind::ClassMember => "class C { "@ + source + " }"@,
        OutputKind::TsTypeElement => "interface I { "@ + source + " }"@,
        OutputKind::ParamOrTsParamProp => "class C { constructor("@ + source + ") {} }"@,
        OutputKind::Param => "function f("@ + source + ") {}"@,
        OutputKind::ImportSpecifier => "import {"@ + source + " } from \"\";"@,
        OutputKind::ExportSpecifier => "export {"@ + source + " } from \"\";"@,
        _ => source,
    }
}

impl OutputKind {
    /// Wraps `source` for parsing as this kind.
    pub fn wrap_source(&self, source: &str) -> (r: String)
        ensures
            r@ == wrapped_text(*self, source@),
    {
        let mut r = String::new();
        match self {
            OutputKind::TsType => {
                r.append("type T = ");
                r.append(source);
                r.append(";");
            },
            OutputKind::ClassMember => {
                r.append("class C { ");
                r.append(source);
                r.append(" }");
            },
            OutputKind::TsTypeElement => {
                r.append("interface I { ");
                r.append(source);
                r.append(" }");
            },
            OutputKind::ParamOrTsParamProp => {
                r.append("class C { constructor(");
                r.append(source);
                r.append(") {} }");
            },
            OutputKind::Param => {
                r.append("function f(");
                r.append(source);
                r.append(") {}");
            },
            OutputKind::ImportSpecifier => {
                r.append("import {");
                r.append(source);
                r.append(" } from \"\";");
            },
            OutputKind::ExportSpecifier => {
                r.append("export {");
                r.append(source);
                r.append(" } from \"\";");
            },
            _ => {
                r.append(source);
            },
        }
        r
    }
}


/// The Rust type that holds a variable of type `t` in the generated code:
/// AST types by their full path under `::quasiquodo::ts`.
pub open spec fn rust_type_text(t: VarType) -> Seq<char>
    decreases t,
{
    match t {
        VarType::Bool => "bool"@,
        VarType::ClassMember => "::quasiquodo::ts::swc::ecma_ast::ClassMember"@,
        VarType::Decl => "::quasiquodo::ts::swc::ecma_ast::Decl"@,
        VarType::Expr => "::quasiquodo::ts::swc::ecma_ast::Expr"@,
        VarType::ExportSpecifier => "::quasiquodo::ts::swc::ecma_ast::ExportSpecifier"@,
        VarType::Ident => "::quasiquodo::ts::swc::ecma_ast::Ident"@,
        VarType::ImportSpecifier => "::quasiquodo::ts::swc::ecma_ast::ImportSpecifier"@,
        VarType::JsDoc => "::quasiquodo::ts::JsDoc"@,
        VarType::Num(NumVarType::F64) => "f64"@,
        VarType::Num(NumVarType::Usize) => "usize"@,
        VarType::Param => "::quasiquodo::ts::swc::ecma_ast::Param"@,
        VarType::ParamOrTsParamProp => "::quasiquodo::ts::swc::ecma_ast::ParamOrTsParamProp"@,
        VarType::Stmt => "::quasiquodo::ts::swc::ecma_ast::Stmt"@,
        VarType::Str(StrVarType::Str) => "str"@,
        VarType::Str(StrVarType::String) => "String"@,
        VarType::TsType => "::quasiquodo::ts::swc::ecma_ast::TsType"@,
        VarType::TsTypeElement => "::quasiquodo::ts::swc::ecma_ast::TsTypeElement"@,
        VarType::Ref(inner) => "&"@ + rust_type_text(*inner),
        VarType::Box(inner) => "Box<"@ + rust_type_text(*inner) + ">"@,
        VarType::Option(inner) => "Option<"@ + rust_type_text(*inner) + ">"@,
        VarType::Vec(inner) => "Vec<"@ + rust_type_text(*inner) + ">"@,
    }
}

impl VarType {
    /// Appends the Rust type that holds a variable of this type to `out`.
    pub fn write_rust_type(&self, out: &mut String)
        ensures
            final(out)@ == old(out)@ + rust_type_text(*self),
        decreases self,
    {
        match self {
            VarType::Bool => out.append("bool"),
            VarType::ClassMember => out.append("::quasiquodo::ts::swc::ecma_ast::ClassMember"),
            VarType::Decl => out.append("::quasiquodo::ts::swc::ecma_ast::Decl"),
            VarType::Expr => out.append("::quasiquodo::ts::swc::ecma_ast::Expr"),
            VarType::ExportSpecifier => out.append("::quasiquodo::ts::swc::ecma_ast::ExportSpecifier"),
            VarType::Ident => out.append("::quasiquodo::ts::swc::ecma_ast::Ident"),
            VarType::ImportSpecifier => out.append("::quasiquodo::ts::swc::ecma_ast::ImportSpecifier"),
            VarType::JsDoc => out.append("::quasiquodo::ts::JsDoc"),
            VarType::Num(NumVarType::F64) => out.append("f64"),
            VarType::Num(NumVarType::Usize) => out.append("usize"),
            VarType::Param => out.append("::quasiquodo::ts::swc::ecma_ast::Param"),
            VarType::ParamOrTsParamProp => out.append(
                "::quasiquodo::ts::swc::ecma_ast::ParamOrTsParamProp",
            ),
            VarType::Stmt => out.append("::quasiquodo::ts::swc::ecma_ast::Stmt"),
            VarType::Str(StrVarType::Str) => out.append("str"),
            VarType::Str(StrVarType::String) => out.append("String"),
            VarType::TsType => out.append("::quasiquodo::ts::swc::ecma_ast::TsType"),
            VarType::TsTypeElement => out.append("::quasiquodo::ts::swc::ecma_ast::TsTypeElement"),
            VarType::Ref(inner) => {
                out.append("&");
                inner.write_rust_type(out);
            },
            VarType::Box(inner) => {
                out.append("Box<");
                inner.write_rust_type(out);
                out.append(">");
            },
            VarType::Option(inner) => {
                out.append("Option<");
                inner.write_rust_type(out);
                out.append(">");
            },
            VarType::Vec(inner) => {
                out.append("Vec<");
                inner.write_rust_type(out);
                out.append(">");
            },
        }
        proof {
            assert(final(out)@ =~= old(out)@ + rust_type_text(*self));
        }
    }

    /// The Rust type that holds a variable of this type, such as
    /// `Option<::quasiquodo::ts::swc::ecma_ast::Expr>`.
    pub fn rust_type(&self) -> (r: String)
        ensures
            r@ == rust_type_text(*self),
    {
        let mut out = String::new();
        self.write_rust_type(&mut out);
        assert(out@ =~= rust_type_text(*self));
        out
    }
}

/// The syntax positions at which a stand-in is replaced by its variable's
/// value, each with its own table of substitutions.
#[derive(Clone, Copy, Debug, PartialEq, Eq, Structural)]
pub enum SubstPosition {
    /// A type reference `__tsq_N__` in type position.
    Type,
    /// An identifier expression `__tsq_N__` in expression position.
    Expression,
}

/// How the value of a variable replaces its stand-in.
#[derive(Clone, Copy, Debug, PartialEq, Eq, Structural)]
pub enum Substitution {
    /// The boxed node, unboxed.
    Unboxed,
    /// The node itself.
    Node,
    /// A string literal made from the value.
    StrLiteral,
    /// A number literal made from the value.
    NumLiteral,
    /// A boolean literal made from the value.
    BoolLiteral,
    /// Each element of the value, spliced into the enclosing list.
    SpliceEach,
    /// None here: the stand-in stays as it was parsed.
    Kept,
}

/// The variable type of the node that a position holds.
pub open spec fn position_node(pos: SubstPosition) -> VarType {
    match pos {
        SubstPosition::Type => VarType::TsType,
        SubstPosition::Expression => VarType::Expr,
    }
}

/// How a variable of type `ty` replaces its stand-in at `pos`: a boxed node
/// of the position's kind is unboxed, the node itself goes in as it is,
/// strings, numbers and booleans become literals, and at type position a
/// `Vec` or `Option` is spliced element by element.
pub open spec fn substitution_of(pos: SubstPosition, ty: VarType) -> Substitution {
    if ty matches VarType::Box(inner) && *inner == position_node(pos) {
        Substitution::Unboxed
    } else if ty == position_node(pos) {
        Substitution::Node
    } else if ty.is_str_type() {
        Substitution::StrLiteral
    } else if ty is Num {
        Substitution::NumLiteral
    } else if ty is Bool {
        Substitution::BoolLiteral
    } else if pos == SubstPosition::Type && (ty is Vec || ty is Option) {
        Substitution::SpliceEach
    } else {
        Substitution::Kept
    }
}

/// At both positions, every number type becomes a number literal, `bool`
/// a boolean literal and a string type a string literal; the position's own
/// node goes in as it is and a boxed one unboxed; a `Vec` or `Option` of
/// anything else is spliced at type position and kept at expression
/// position.
pub proof fn lemma_substitution_by_type(pos: SubstPosition, ty: VarType)
    ensures
        ty is Num ==> substitution_of(pos, ty) == Substitution::NumLiteral,
        ty is Bool ==> substitution_of(pos, ty) == Substitution::BoolLiteral,
        ty.is_str_type() && !(ty matches VarType::Box(inner) && *inner == position_node(pos))
            ==> substitution_of(pos, ty) == Substitution::StrLiteral,
        ty == position_node(pos) ==> substitution_of(pos, ty) == Substitution::Node,
        ty == VarType::Box(Box::new(position_node(pos))) ==> substitution_of(pos, ty)
            == Substitution::Unboxed,
        (ty is Vec || ty is Option) ==> substitution_of(pos, ty) == (if pos == SubstPosition::Type {
            Substitution::SpliceEach
        } else {
            Substitution::Kept
        }),
{
}

/// Decides how a variable of type `ty` replaces its stand-in at `pos`.
pub fn substitution(pos: SubstPosition, ty: &VarType) -> (r: Substitution)
    ensures
        r == substitution_of(pos, *ty),
{
    let at_type = match pos {
        SubstPosition::Type => true,
        SubstPosition::Expression => false,
    };
    match ty {
        VarType::Box(inner) => {
            let node = match &**inner {
                VarType::TsType => at_type,
                VarType::Expr => !at_type,
                _ => false,
            };
            if node {
                return Substitution::Unboxed;
            }
        },
        VarType::TsType => {
            if at_type {
                return Substitution::Node;
            }
        },
        VarType::Expr => {
            if !at_type {
                return Substitution::Node;
            }
        },
        _ => {},
    }
    if ty.is_str() {
        return Substitution::StrLiteral;
    }
    match ty {
        VarType::Num(_) => Substitution::NumLiteral,
        VarType::Bool => Substitution::BoolLiteral,
        VarType::Vec(_) | VarType::Option(_) => if at_type {
            Substitution::SpliceEach
        } else {
            Substitution::Kept
        },
        _ => Substitution::Kept,
    }
}

/// What an error message names as the unsupported type: the unsupported
/// name where there is one, else the whole written type.
pub open spec fn unsupported_type_name(err: TypeErrorView, text: Seq<char>) -> Seq<char> {
    match err {
        TypeErrorView::Unsupported(name) => name,
        _ => text,
    }
}

/// The message for a variable type `text` that failed to parse with `err`.
pub fn type_error_message(err: &ParseTypeError, text: &str) -> (r: String)
    ensures
        r@ == "unsupported variable type `"@ + unsupported_type_name(err.view(), text@)
            + "`; expected one of `bool`, `ClassMember`, `Decl`, `Expr`, `ExportSpecifier`, `f64`, `Ident`, `ImportSpecifier`, `JsDoc`, `Param`, `ParamOrTsParamProp`, `Stmt`, `str`, `String`, `TsType`, `TsTypeElement`, `usize`, `&...`, `Box<...>`, `Option<...>`, `Vec<...>`"@,
{
    let mut r = String::new();
    r.append("unsupported variable type `");
    match err {
        ParseTypeError::Unsupported(name) => r.append(name.as_str()),
        _ => r.append(text),
    }
    r.append("`; expected one of `bool`, `ClassMember`, `Decl`, `Expr`, `ExportSpecifier`, `f64`, `Ident`, `ImportSpecifier`, `JsDoc`, `Param`, `ParamOrTsParamProp`, `Stmt`, `str`, `String`, `TsType`, `TsTypeElement`, `usize`, `&...`, `Box<...>`, `Option<...>`, `Vec<...>`");
    r
}
} // verus!
