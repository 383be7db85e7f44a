//! Variable types and output kinds for Python quotes, and the parser for
//! the variable type syntax (`Expr`, `&str`, `Option<Vec<Stmt>>`, ...).

use vstd::prelude::*;
use vstd::string::StringExecFns;
use crate::text::{chars_of, id_continue_py, id_start_py, is_xid_start, push_chars};
use crate::segments::{is_ident_continue, lemma_word_run, word_run, IdentClass};
use crate::type_syntax::{
    eq_lit, lemma_skip_space, lemma_word_run_exact, lemma_wrapper_text, skip_space,
    skip_type_space, wrapper_at, wrapper_name_text, wrapper_named, wrapper_open_text,
    ParseTypeError, TypeErrorView, WrapperName,
};

verus! {

/// The concrete Rust type for a [`VarType::Num`].
#[derive(Clone, Copy, Debug, Eq, Hash, PartialEq, Structural)]
pub enum NumVarType {
    F64,
    U8,
    U16,
    U32,
    U64,
}

/// The concrete Rust type for a [`VarType::Str`].
#[derive(Clone, Copy, Debug, Eq, Hash, PartialEq, Structural)]
pub enum StrVarType {
    Str,
    String,
}

/// The type of a substitution variable.
#[derive(Debug, Eq, Hash, PartialEq)]
pub enum VarType {
    /// Substitutes an `Alias` in an import statement.
    Alias,
    /// Substitutes a [`bool`] value as a `BooleanLiteral`.
    Bool,
    /// Substitutes a `Decorator` in decorator position.
    Decorator,
    /// Substitutes an `Expr` in expression position.
    Expr,
    /// Substitutes an `Identifier` in identifier position.
    Identifier,
    /// Substitutes a `Keyword` in a call's keyword arguments.
    Keyword,
    /// Substitutes a numeric value as a `NumberLiteral`.
    Num(NumVarType),
    /// Substitutes a `Parameter` in a function parameter list.
    Parameter,
    /// Substitutes a `ParameterWithDefault` in a function parameter list.
    ParameterWithDefault,
    /// Substitutes a `Stmt` in a block statement body.
    Stmt,
    /// Substitutes a `Suite` in a block statement body.
    Suite,
    /// Substitutes a string value as a `StringLiteral`.
    Str(StrVarType),
    /// Wraps an inner type in a borrowed reference.
    Ref(Box<VarType>),
    /// Wraps an inner type in `Box<Inner>`.
    Box(Box<VarType>),
    /// Wraps an inner type in `Option<Inner>`.
    Option(Box<VarType>),
    /// Splices a `Vec<Inner>` into an iterable position.
    Vec(Box<VarType>),
}

impl Clone for VarType {
    fn clone(&self) -> (r: Self)
        ensures
            r == *self,
        decreases self,
    {
        match self {
            VarType::Alias => VarType::Alias,
            VarType::Bool => VarType::Bool,
            VarType::Decorator => VarType::Decorator,
            VarType::Expr => VarType::Expr,
            VarType::Identifier => VarType::Identifier,
            VarType::Keyword => VarType::Keyword,
            VarType::Num(n) => VarType::Num(*n),
            VarType::Parameter => VarType::Parameter,
            VarType::ParameterWithDefault => VarType::ParameterWithDefault,
            VarType::Stmt => VarType::Stmt,
            VarType::Suite => VarType::Suite,
            VarType::Str(s) => VarType::Str(*s),
            VarType::Ref(t) => VarType::Ref(Box::new((**t).clone())),
            VarType::Box(t) => VarType::Box(Box::new((**t).clone())),
            VarType::Option(t) => VarType::Option(Box::new((**t).clone())),
            VarType::Vec(t) => VarType::Vec(Box::new((**t).clone())),
        }
    }
}

impl VarType {
    /// The wrapped type of a wrapper type (`&T`, `Box<T>`, `Option<T>`,
    /// `Vec<T>`); any other type itself.
    pub open spec fn inner_type(self) -> VarType {
        match self {
            VarType::Ref(t) => *t,
            VarType::Box(t) => *t,
            VarType::Option(t) => *t,
            VarType::Vec(t) => *t,
            other => other,
        }
    }

    /// The pointed-to type of a pointer type (`&T`, `Box<T>`); any other type
    /// itself.
    pub open spec fn pointee_type(self) -> VarType {
        match self {
            VarType::Ref(t) => *t,
            VarType::Box(t) => *t,
            other => other,
        }
    }

    /// Is this a string-like type: `String`, or `str` behind a pointer?
    pub open spec fn is_str_type(self) -> bool {
        self == VarType::Str(StrVarType::String) || self.pointee_type() == VarType::Str(
            StrVarType::Str,
        )
    }

    /// If this is a wrapper type, returns the wrapped type; otherwise,
    /// returns `self`.
    pub fn inner(&self) -> (r: &VarType)
        ensures
            *r == self.inner_type(),
    {
        match self {
            VarType::Ref(t) => t,
            VarType::Box(t) => t,
            VarType::Vec(t) => t,
            VarType::Option(t) => t,
            other => other,
        }
    }

    /// If this is a pointer type, returns the pointed-to type; otherwise,
    /// returns `self`.
    pub fn pointee(&self) -> (r: &VarType)
        ensures
            *r == self.pointee_type(),
    {
        match self {
            VarType::Ref(t) => t,
            VarType::Box(t) => t,
            other => other,
        }
    }

    /// Returns `true` if this is a string-like type (`String`, `&str`, or
    /// `Box<str>`).
    pub fn is_str(&self) -> (r: bool)
        ensures
            r == self.is_str_type(),
    {
        let string = match self {
            VarType::Str(StrVarType::String) => true,
            _ => false,
        };
        string || match self.pointee() {
            VarType::Str(StrVarType::Str) => true,
            _ => false,
        }
    }
}

/// The type that a plain name denotes, if any.
pub open spec fn named_type(name: Seq<char>) -> Option<VarType> {
    if name == "Alias"@ {
        Some(VarType::Alias)
    } else if name == "bool"@ {
        Some(VarType::Bool)
    } else if name == "Decorator"@ {
        Some(VarType::Decorator)
    } else if name == "Expr"@ {
        Some(VarType::Expr)
    } else if name == "f64"@ {
        Some(VarType::Num(NumVarType::F64))
    } else if name == "Identifier"@ {
        Some(VarType::Identifier)
    } else if name == "Keyword"@ {
        Some(VarType::Keyword)
    } else if name == "Parameter"@ {
        Some(VarType::Parameter)
    } else if name == "ParameterWithDefault"@ {
        Some(VarType::ParameterWithDefault)
    } else if name == "Stmt"@ {
        Some(VarType::Stmt)
    } else if name == "Suite"@ {
        Some(VarType::Suite)
    } else if name == "str"@ {
        Some(VarType::Str(StrVarType::Str))
    } else if name == "String"@ {
        Some(VarType::Str(StrVarType::String))
    } else if name == "u8"@ {
        Some(VarType::Num(NumVarType::U8))
    } else if name == "u16"@ {
        Some(VarType::Num(NumVarType::U16))
    } else if name == "u32"@ {
        Some(VarType::Num(NumVarType::U32))
    } else if name == "u64"@ {
        Some(VarType::Num(NumVarType::U64))
    } else {
        None
    }
}

/// Computes `named_type` on `s[from..to]`.
fn named_type_at(s: &[char], from: usize, to: usize) -> (r: Option<VarType>)
    requires
        from <= to <= s.len(),
    ensures
        r == named_type(s@.subrange(from as int, to as int)),
{
    if eq_lit(s, from, to, "Alias") {
        Some(VarType::Alias)
    } else if eq_lit(s, from, to, "bool") {
        Some(VarType::Bool)
    } else if eq_lit(s, from, to, "Decorator") {
        Some(VarType::Decorator)
    } else if eq_lit(s, from, to, "Expr") {
        Some(VarType::Expr)
    } else if eq_lit(s, from, to, "f64") {
        Some(VarType::Num(NumVarType::F64))
    } else if eq_lit(s, from, to, "Identifier") {
        Some(VarType::Identifier)
    } else if eq_lit(s, from, to, "Keyword") {
        Some(VarType::Keyword)
    } else if eq_lit(s, from, to, "Parameter") {
        Some(VarType::Parameter)
    } else if eq_lit(s, from, to, "ParameterWithDefault") {
        Some(VarType::ParameterWithDefault)
    } else if eq_lit(s, from, to, "Stmt") {
        Some(VarType::Stmt)
    } else if eq_lit(s, from, to, "Suite") {
        Some(VarType::Suite)
    } else if eq_lit(s, from, to, "str") {
        Some(VarType::Str(StrVarType::Str))
    } else if eq_lit(s, from, to, "String") {
        Some(VarType::Str(StrVarType::String))
    } else if eq_lit(s, from, to, "u8") {
        Some(VarType::Num(NumVarType::U8))
    } else if eq_lit(s, from, to, "u16") {
        Some(VarType::Num(NumVarType::U16))
    } else if eq_lit(s, from, to, "u32") {
        Some(VarType::Num(NumVarType::U32))
    } else if eq_lit(s, from, to, "u64") {
        Some(VarType::Num(NumVarType::U64))
    } else {
        None
    }
}

pub open spec fn wrap(w: WrapperName, t: VarType) -> VarType {
    match w {
        WrapperName::Box => VarType::Box(Box::new(t)),
        WrapperName::Option => VarType::Option(Box::new(t)),
        WrapperName::Vec => VarType::Vec(Box::new(t)),
    }
}

/// Parses one type starting at `i` (after white space): `&` and a type; a
/// plain type name; or `Box`, `Option` or `Vec`, then `<`, a type, and `>`.
/// On success, the type and the index just past it.
pub open spec fn parse_type_at(s: Seq<char>, i: int) -> Result<(VarType, int), TypeErrorView>
    decreases s.len() - i,
{
    if i < 0 || i > s.len() {
        Err(TypeErrorView::ExpectedType)
    } else {
        let j = skip_space(s, i);
        proof {
            lemma_skip_space(s, i);
        }
        if j >= s.len() {
            Err(TypeErrorView::ExpectedType)
        } else if s[j] == '&' {
            match parse_type_at(s, j + 1) {
                Ok((t, k)) => Ok((VarType::Ref(Box::new(t)), k)),
                Err(e) => Err(e),
            }
        } else if id_start_py(s[j]) || s[j] == '_' {
            let k = word_run(s, j + 1, IdentClass::Python);
            proof {
                lemma_word_run(s, j + 1, IdentClass::Python);
            }
            let name = s.subrange(j, k);
            match named_type(name) {
                Some(t) => Ok((t, k)),
                None => match wrapper_named(name) {
                    Some(w) => {
                        let l = skip_space(s, k);
                        proof {
                            lemma_skip_space(s, k);
                        }
                        if l < s.len() && s[l] == '<' {
                            match parse_type_at(s, l + 1) {
                                Ok((t, m)) => {
                                    let n = skip_space(s, m);
                                    if 0 <= m <= n < s.len() && s[n] == '>' {
                                        Ok((wrap(w, t), n + 1))
                                    } else {
                                        Err(TypeErrorView::ExpectedClose)
                                    }
                                },
                                Err(e) => Err(e),
                            }
                        } else {
                            Err(TypeErrorView::ExpectedOpen)
                        }
                    },
                    None => Err(TypeErrorView::Unsupported(name)),
                },
            }
        } else {
            Err(TypeErrorView::ExpectedType)
        }
    }
}

/// Parses a whole variable type: one type, then nothing but white space.
pub open spec fn parse_var_type(s: Seq<char>) -> Result<VarType, TypeErrorView> {
    match parse_type_at(s, 0) {
        Ok((t, k)) => if skip_space(s, k) == s.len() {
            Ok(t)
        } else {
            Err(TypeErrorView::Trailing)
        },
        Err(e) => Err(e),
    }
}

proof fn lemma_parse_type_at(s: Seq<char>, i: int)
    requires
        0 <= i <= s.len(),
    ensures
        parse_type_at(s, i) matches Ok((t, k)) ==> i < k <= s.len(),
    decreases s.len() - i,
{
    lemma_skip_space(s, i);
    let j = skip_space(s, i);
    if j < s.len() {
        if s[j] == '&' {
            lemma_parse_type_at(s, j + 1);
        } else if id_start_py(s[j]) || s[j] == '_' {
            lemma_word_run(s, j + 1, IdentClass::Python);
            let k = word_run(s, j + 1, IdentClass::Python);
            lemma_skip_space(s, k);
            let l = skip_space(s, k);
            if l < s.len() {
                lemma_parse_type_at(s, l + 1);
            }
        }
    }
}

/// Computes `parse_type_at`.
fn parse_type_from(s: &[char], i: usize) -> (r: Result<(VarType, usize), ParseTypeError>)
    requires
        i <= s.len(),
    ensures
        r matches Ok((t, k)) ==> parse_type_at(s@, i as int) == Ok::<_, TypeErrorView>((t, k as int))
            && i < k <= s.len(),
        r matches Err(e) ==> parse_type_at(s@, i as int) == Err::<(VarType, int), _>(e.view()),
    decreases s.len() - i,
{
    proof {
        lemma_parse_type_at(s@, i as int);
    }
    let j = skip_type_space(s, i);
    if j >= s.len() {
        return Err(ParseTypeError::ExpectedType);
    }
    let c = s[j];
    if c == '&' {
        return match parse_type_from(s, j + 1) {
            Ok((t, k)) => Ok((VarType::Ref(Box::new(t)), k)),
            Err(e) => Err(e),
        };
    }
    if !(is_xid_start(c) || c == '_') {
        return Err(ParseTypeError::ExpectedType);
    }
    let mut k = j + 1;
    while k < s.len() && is_ident_continue(IdentClass::Python, s[k])
        invariant
            j + 1 <= k <= s.len(),
            word_run(s@, j + 1, IdentClass::Python) == word_run(s@, k as int, IdentClass::Python),
        decreases s.len() - k,
    {
        k = k + 1;
    }
    if let Some(t) = named_type_at(s, j, k) {
        return Ok((t, k));
    }
    let w = match wrapper_at(s, j, k) {
        Some(w) => w,
        None => {
            let mut name = String::new();
            push_chars(&mut name, s, j, k);
            return Err(ParseTypeError::Unsupported(name));
        },
    };
    let l = skip_type_space(s, k);
    if !(l < s.len() && s[l] == '<') {
        return Err(ParseTypeError::ExpectedOpen);
    }
    let (inner, m) = match parse_type_from(s, l + 1) {
        Ok(r) => r,
        Err(e) => {
            return Err(e);
        },
    };
    let n = skip_type_space(s, m);
    if !(n < s.len() && s[n] == '>') {
        return Err(ParseTypeError::ExpectedClose);
    }
    let t = match w {
        WrapperName::Box => VarType::Box(Box::new(inner)),
        WrapperName::Option => VarType::Option(Box::new(inner)),
        WrapperName::Vec => VarType::Vec(Box::new(inner)),
    };
    Ok((t, n + 1))
}

impl VarType {
    /// Parses a variable type from its text, such as `Expr`, `&str` or
    /// `Option<Vec<Stmt>>`: one type, then nothing but white space.
    pub fn parse(text: &str) -> (r: Result<VarType, ParseTypeError>)
        ensures
            r matches Ok(t) ==> parse_var_type(text@) == Ok::<_, TypeErrorView>(t),
            r matches Err(e) ==> parse_var_type(text@) == Err::<VarType, _>(e.view()),
    {
        let s = chars_of(text);
        match parse_type_from(s.as_slice(), 0) {
            Ok((t, k)) => {
                if skip_type_space(s.as_slice(), k) == s.len() {
                    Ok(t)
                } else {
                    Err(ParseTypeError::Trailing)
                }
            },
            Err(e) => Err(e),
        }
    }
}

/// How a variable type is written: `Expr`, `&str`, `Option<Vec<Stmt>>`.
pub open spec fn type_text(t: VarType) -> Seq<char>
    decreases t,
{
    match t {
        VarType::Alias => "Alias"@,
        VarType::Bool => "bool"@,
        VarType::Decorator => "Decorator"@,
        VarType::Expr => "Expr"@,
        VarType::Identifier => "Identifier"@,
        VarType::Keyword => "Keyword"@,
        VarType::Num(NumVarType::F64) => "f64"@,
        VarType::Num(NumVarType::U8) => "u8"@,
        VarType::Num(NumVarType::U16) => "u16"@,
        VarType::Num(NumVarType::U32) => "u32"@,
        VarType::Num(NumVarType::U64) => "u64"@,
        VarType::Parameter => "Parameter"@,
        VarType::ParameterWithDefault => "ParameterWithDefault"@,
        VarType::Stmt => "Stmt"@,
        VarType::Suite => "Suite"@,
        VarType::Str(StrVarType::Str) => "str"@,
        VarType::Str(StrVarType::String) => "String"@,
        VarType::Ref(inner) => "&"@ + type_text(*inner),
        VarType::Box(inner) => "Box<"@ + type_text(*inner) + ">"@,
        VarType::Option(inner) => "Option<"@ + type_text(*inner) + ">"@,
        VarType::Vec(inner) => "Vec<"@ + type_text(*inner) + ">"@,
    }
}

impl VarType {
    /// Appends how this type is written to `out`.
    pub fn write_to(&self, out: &mut String)
        ensures
            final(out)@ == old(out)@ + type_text(*self),
        decreases self,
    {
        match self {
            VarType::Alias => out.append("Alias"),
            VarType::Bool => out.append("bool"),
            VarType::Decorator => out.append("Decorator"),
            VarType::Expr => out.append("Expr"),
            VarType::Identifier => out.append("Identifier"),
            VarType::Keyword => out.append("Keyword"),
            VarType::Num(NumVarType::F64) => out.append("f64"),
            VarType::Num(NumVarType::U8) => out.append("u8"),
            VarType::Num(NumVarType::U16) => out.append("u16"),
            VarType::Num(NumVarType::U32) => out.append("u32"),
            VarType::Num(NumVarType::U64) => out.append("u64"),
            VarType::Parameter => out.append("Parameter"),
            VarType::ParameterWithDefault => out.append("ParameterWithDefault"),
            VarType::Stmt => out.append("Stmt"),
            VarType::Suite => out.append("Suite"),
            VarType::Str(StrVarType::Str) => out.append("str"),
            VarType::Str(StrVarType::String) => out.append("String"),
            VarType::Ref(inner) => {
                out.append("&");
                inner.write_to(out);
            },
            VarType::Box(inner) => {
                out.append("Box<");
                inner.write_to(out);
                out.append(">");
            },
            VarType::Option(inner) => {
                out.append("Option<");
                inner.write_to(out);
                out.append(">");
            },
            VarType::Vec(inner) => {
                out.append("Vec<");
                inner.write_to(out);
                out.append(">");
            },
        }
        proof {
            assert(final(out)@ =~= old(out)@ + type_text(*self));
        }
    }

    /// How this type is written, such as `Option<&str>`.
    pub fn to_string(&self) -> (r: String)
        ensures
            r@ == type_text(*self),
    {
        let mut out = String::new();
        self.write_to(&mut out);
        assert(out@ =~= type_text(*self));
        out
    }
}

/// The syntax node type to parse from the quoted source.
#[derive(Clone, Copy, Debug, PartialEq, Eq, Structural)]
pub enum OutputKind {
    /// An expression.
    Expr,
    /// The first statement of a module.
    Stmt,
    /// All statements of a module.
    Suite,
    /// An identifier, from a name expression.
    Identifier,
    /// A parameter, from `def __f__(<source>): pass`.
    Parameter,
    /// A parameter with a default, from `def __f__(<source>): pass`.
    ParameterWithDefault,
    /// A decorator, from `@<source>` before `def __f__(): pass`.
    Decorator,
    /// A keyword argument, from `__f__(<source>)`.
    Keyword,
    /// An alias, from `from __x__ import <source>`.
    Alias,
    /// The first statement of a module, which must be a function definition.
    FunctionDef,
    /// The first statement of a module, which must be a class definition.
    ClassDef,
    /// The first statement of a module, which must be a `from ... import ...`.
    ImportFrom,
}

/// The output kind that `name` names, if any.
pub open spec fn output_kind_named(name: Seq<char>) -> Option<OutputKind> {
    if name == "Alias"@ {
        Some(OutputKind::Alias)
    } else if name == "ClassDef"@ {
        Some(OutputKind::ClassDef)
    } else if name == "Decorator"@ {
        Some(OutputKind::Decorator)
    } else if name == "Expr"@ {
        Some(OutputKind::Expr)
    } else if name == "FunctionDef"@ {
        Some(OutputKind::FunctionDef)
    } else if name == "Identifier"@ {
        Some(OutputKind::Identifier)
    } else if name == "ImportFrom"@ {
        Some(OutputKind::ImportFrom)
    } else if name == "Keyword"@ {
        Some(OutputKind::Keyword)
    } else if name == "Parameter"@ {
        Some(OutputKind::Parameter)
    } else if name == "ParameterWithDefault"@ {
        Some(OutputKind::ParameterWithDefault)
    } else if name == "Stmt"@ {
        Some(OutputKind::Stmt)
    } else if name == "Suite"@ {
        Some(OutputKind::Suite)
    } else {
        None
    }
}

/// An output kind name that is not supported.
#[derive(Debug, PartialEq, Eq)]
pub struct UnsupportedOutputKind(pub String);

impl UnsupportedOutputKind {
    /// The error message.
    pub fn message(&self) -> (r: String)
        ensures
            r@ == "unsupported output kind `"@ + self.0@ + "`; expected one of `Alias`, `ClassDef`, `Decorator`, `Expr`, `FunctionDef`, `Identifier`, `ImportFrom`, `Keyword`, `Parameter`, `ParameterWithDefault`, `Stmt`, `Suite`"@,
    {
        let mut r = String::new();
        r.append("unsupported output kind `");
        r.append(self.0.as_str());
        r.append("`; expected one of `Alias`, `ClassDef`, `Decorator`, `Expr`, `FunctionDef`, `Identifier`, `ImportFrom`, `Keyword`, `Parameter`, `ParameterWithDefault`, `Stmt`, `Suite`");
        r
    }
}

impl OutputKind {
    /// The output kind named `name`, or an error naming the unsupported kind.
    pub fn parse(name: &str) -> (r: Result<OutputKind, UnsupportedOutputKind>)
        ensures
            r matches Ok(k) ==> output_kind_named(name@) == Some(k),
            r matches Err(e) ==> output_kind_named(name@) is None && e.0@ == name@,
    {
        let s = chars_of(name);
        let n = s.len();
        proof {
            assert(s@.subrange(0, n as int) =~= name@);
        }
        if eq_lit(s.as_slice(), 0, n, "Alias") {
            return Ok(OutputKind::Alias);
        }
        if eq_lit(s.as_slice(), 0, n, "ClassDef") {
            return Ok(OutputKind::ClassDef);
        }
        if eq_lit(s.as_slice(), 0, n, "Decorator") {
            return Ok(OutputKind::Decorator);
        }
        if eq_lit(s.as_slice(), 0, n, "Expr") {
            return Ok(OutputKind::Expr);
        }
        if eq_lit(s.as_slice(), 0, n, "FunctionDef") {
            return Ok(OutputKind::FunctionDef);
        }
        if eq_lit(s.as_slice(), 0, n, "Identifier") {
            return Ok(OutputKind::Identifier);
        }
        if eq_lit(s.as_slice(), 0, n, "ImportFrom") {
            return Ok(OutputKind::ImportFrom);
        }
        if eq_lit(s.as_slice(), 0, n, "Keyword") {
            return Ok(OutputKind::Keyword);
        }
        if eq_lit(s.as_slice(), 0, n, "Parameter") {
            return Ok(OutputKind::Parameter);
        }
        if eq_lit(s.as_slice(), 0, n, "ParameterWithDefault") {
            return Ok(OutputKind::ParameterWithDefault);
        }
        if eq_lit(s.as_slice(), 0, n, "Stmt") {
            return Ok(OutputKind::Stmt);
        }
        if eq_lit(s.as_slice(), 0, n, "Suite") {
            return Ok(OutputKind::Suite);
        }
        Err(UnsupportedOutputKind(name.to_owned()))
    }
}

/// The declared name and type of a substitution variable: `name: Type`.
#[derive(Debug)]
pub struct Variable {
    pub name: String,
    pub ty: VarType,
}

/// The plain type names denote their types, and name no wrapper.
proof fn lemma_named_type_leaves()
    ensures
        named_type("Alias"@) == Some(VarType::Alias),
        named_type("bool"@) == Some(VarType::Bool),
        named_type("Decorator"@) == Some(VarType::Decorator),
        named_type("Expr"@) == Some(VarType::Expr),
        named_type("f64"@) == Some(VarType::Num(NumVarType::F64)),
        named_type("Identifier"@) == Some(VarType::Identifier),
        named_type("Keyword"@) == Some(VarType::Keyword),
        named_type("Parameter"@) == Some(VarType::Parameter),
        named_type("ParameterWithDefault"@) == Some(VarType::ParameterWithDefault),
        named_type("Stmt"@) == Some(VarType::Stmt),
        named_type("Suite"@) == Some(VarType::Suite),
        named_type("str"@) == Some(VarType::Str(StrVarType::Str)),
        named_type("String"@) == Some(VarType::Str(StrVarType::String)),
        named_type("u8"@) == Some(VarType::Num(NumVarType::U8)),
        named_type("u16"@) == Some(VarType::Num(NumVarType::U16)),
        named_type("u32"@) == Some(VarType::Num(NumVarType::U32)),
        named_type("u64"@) == Some(VarType::Num(NumVarType::U64)),
        named_type("Box"@) is None,
        named_type("Option"@) is None,
        named_type("Vec"@) is None,
        wrapper_named("Box"@) == Some(WrapperName::Box),
        wrapper_named("Option"@) == Some(WrapperName::Option),
        wrapper_named("Vec"@) == Some(WrapperName::Vec),
{
    reveal_strlit("Alias");
    reveal_strlit("bool");
    reveal_strlit("Decorator");
    reveal_strlit("Expr");
    reveal_strlit("f64");
    reveal_strlit("Identifier");
    reveal_strlit("Keyword");
    reveal_strlit("Parameter");
    reveal_strlit("ParameterWithDefault");
    reveal_strlit("Stmt");
    reveal_strlit("Suite");
    reveal_strlit("str");
    reveal_strlit("String");
    reveal_strlit("u8");
    reveal_strlit("u16");
    reveal_strlit("u32");
    reveal_strlit("u64");
    reveal_strlit("Box");
    reveal_strlit("Option");
    reveal_strlit("Vec");
    assert("bool"@.len() != "Alias"@.len());
    assert("Decorator"@.len() != "Alias"@.len());
    assert("Decorator"@.len() != "bool"@.len());
    assert("Expr"@.len() != "Alias"@.len());
    assert("Expr"@[0] != "bool"@[0]);
    assert("Expr"@.len() != "Decorator"@.len());
    assert("f64"@.len() != "Alias"@.len());
    assert("f64"@.len() != "bool"@.len());
    assert("f64"@.len() != "Decorator"@.len());
    assert("f64"@.len() != "Expr"@.len());
    assert("Identifier"@.len() != "Alias"@.len());
    assert("Identifier"@.len() != "bool"@.len());
    assert("Identifier"@.len() != "Decorator"@.len());
    assert("Identifier"@.len() != "Expr"@.len());
    assert("Identifier"@.len() != "f64"@.len());
    assert("Keyword"@.len() != "Alias"@.len());
    assert("Keyword"@.len() != "bool"@.len());
    assert("Keyword"@.len() != "Decorator"@.len());
    assert("Keyword"@.len() != "Expr"@.len());
    assert("Keyword"@.len() != "f64"@.len());
    assert("Keyword"@.len() != "Identifier"@.len());
    assert("Parameter"@.len() != "Alias"@.len());
    assert("Parameter"@.len() != "bool"@.len());
    assert("Parameter"@[0] != "Decorator"@[0]);
    assert("Parameter"@.len() != "Expr"@.len());
    assert("Parameter"@.len() != "f64"@.len());
    assert("Parameter"@.len() != "Identifier"@.len());
    assert("Parameter"@.len() != "Keyword"@.len());
    assert("ParameterWithDefault"@.len() != "Alias"@.len());
    assert("ParameterWithDefault"@.len() != "bool"@.len());
    assert("ParameterWithDefault"@.len() != "Decorator"@.len());
    assert("ParameterWithDefault"@.len() != "Expr"@.len());
    assert("ParameterWithDefault"@.len() != "f64"@.len());
    assert("ParameterWithDefault"@.len() != "Identifier"@.len());
    assert("ParameterWithDefault"@.len() != "Keyword"@.len());
    assert("ParameterWithDefault"@.len() != "Parameter"@.len());
    assert("Stmt"@.len() != "Alias"@.len());
    assert("Stmt"@[0] != "bool"@[0]);
    assert("Stmt"@.len() != "Decorator"@.len());
    assert("Stmt"@[0] != "Expr"@[0]);
    assert("Stmt"@.len() != "f64"@.len());
    assert("Stmt"@.len() != "Identifier"@.len());
    assert("Stmt"@.len() != "Keyword"@.len());
    assert("Stmt"@.len() != "Parameter"@.len());
    assert("Stmt"@.len() != "ParameterWithDefault"@.len());
    assert("Suite"@[0] != "Alias"@[0]);
    assert("Suite"@.len() != "bool"@.len());
    assert("Suite"@.len() != "Decorator"@.len());
    assert("Suite"@.len() != "Expr"@.len());
    assert("Suite"@.len() != "f64"@.len());
    assert("Suite"@.len() != "Identifier"@.len());
    assert("Suite"@.len() != "Keyword"@.len());
    assert("Suite"@.len() != "Parameter"@.len());
    assert("Suite"@.len() != "ParameterWithDefault"@.len());
    assert("Suite"@.len() != "Stmt"@.len());
    assert("str"@.len() != "Alias"@.len());
    assert("str"@.len() != "bool"@.len());
    assert("str"@.len() != "Decorator"@.len());
    assert("str"@.len() != "Expr"@.len());
    assert("str"@[0] != "f64"@[0]);
    assert("str"@.len() != "Identifier"@.len());
    assert("str"@.len() != "Keyword"@.len());
    assert("str"@.len() != "Parameter"@.len());
    assert("str"@.len() != "ParameterWithDefault"@.len());
    assert("str"@.len() != "Stmt"@.len());
    assert("str"@.len() != "Suite"@.len());
    assert("String"@.len() != "Alias"@.len());
    assert("String"@.len() != "bool"@.len());
    assert("String"@.len() != "Decorator"@.len());
    assert("String"@.len() != "Expr"@.len());
    assert("String"@.len() != "f64"@.len());
    assert("String"@.len() != "Identifier"@.len());
    assert("String"@.len() != "Keyword"@.len());
    assert("String"@.len() != "Parameter"@.len());
    assert("String"@.len() != "ParameterWithDefault"@.len());
    assert("String"@.len() != "Stmt"@.len());
    assert("String"@.len() != "Suite"@.len());
    assert("String"@.len() != "str"@.len());
    assert("u8"@.len() != "Alias"@.len());
    assert("u8"@.len() != "bool"@.len());
    assert("u8"@.len() != "Decorator"@.len());
    assert("u8"@.len() != "Expr"@.len());
    assert("u8"@.len() != "f64"@.len());
    assert("u8"@.len() != "Identifier"@.len());
    assert("u8"@.len() != "Keyword"@.len());
    assert("u8"@.len() != "Parameter"@.len());
    assert("u8"@.len() != "ParameterWithDefault"@.len());
    assert("u8"@.len() != "Stmt"@.len());
    assert("u8"@.len() != "Suite"@.len());
    assert("u8"@.len() != "str"@.len());
    assert("u8"@.len() != "String"@.len());
    assert("u16"@.len() != "Alias"@.len());
    assert("u16"@.len() != "bool"@.len());
    assert("u16"@.len() != "Decorator"@.len());
    assert("u16"@.len() != "Expr"@.len());
    assert("u16"@[0] != "f64"@[0]);
    assert("u16"@.len() != "Identifier"@.len());
    assert("u16"@.len() != "Keyword"@.len());
    assert("u16"@.len() != "Parameter"@.len());
    assert("u16"@.len() != "ParameterWithDefault"@.len());
    assert("u16"@.len() != "Stmt"@.len());
    assert("u16"@.len() != "Suite"@.len());
    assert("u16"@[0] != "str"@[0]);
    assert("u16"@.len() != "String"@.len());
    assert("u16"@.len() != "u8"@.len());
    assert("u32"@.len() != "Alias"@.len());
    assert("u32"@.len() != "bool"@.len());
    assert("u32"@.len() != "Decorator"@.len());
    assert("u32"@.len() != "Expr"@.len());
    assert("u32"@[0] != "f64"@[0]);
    assert("u32"@.len() != "Identifier"@.len());
    assert("u32"@.len() != "Keyword"@.len());
    assert("u32"@.len() != "Parameter"@.len());
    assert("u32"@.len() != "ParameterWithDefault"@.len());
    assert("u32"@.len() != "Stmt"@.len());
    assert("u32"@.len() != "Suite"@.len());
    assert("u32"@[0] != "str"@[0]);
    assert("u32"@.len() != "String"@.len());
    assert("u32"@.len() != "u8"@.len());
    assert("u32"@[1] != "u16"@[1]);
    assert("u64"@.len() != "Alias"@.len());
    assert("u64"@.len() != "bool"@.len());
    assert("u64"@.len() != "Decorator"@.len());
    assert("u64"@.len() != "Expr"@.len());
    assert("u64"@[0] != "f64"@[0]);
    assert("u64"@.len() != "Identifier"@.len());
    assert("u64"@.len() != "Keyword"@.len());
    assert("u64"@.len() != "Parameter"@.len());
    assert("u64"@.len() != "ParameterWithDefault"@.len());
    assert("u64"@.len() != "Stmt"@.len());
    assert("u64"@.len() != "Suite"@.len());
    assert("u64"@[0] != "str"@[0]);
    assert("u64"@.len() != "String"@.len());
    assert("u64"@.len() != "u8"@.len());
    assert("u64"@[1] != "u16"@[1]);
    assert("u64"@[1] != "u32"@[1]);
    assert("Box"@.len() != "Alias"@.len());
    assert("Box"@.len() != "bool"@.len());
    assert("Box"@.len() != "Decorator"@.len());
    assert("Box"@.len() != "Expr"@.len());
    assert("Box"@[0] != "f64"@[0]);
    assert("Box"@.len() != "Identifier"@.len());
    assert("Box"@.len() != "Keyword"@.len());
    assert("Box"@.len() != "Parameter"@.len());
    assert("Box"@.len() != "ParameterWithDefault"@.len());
    assert("Box"@.len() != "Stmt"@.len());
    assert("Box"@.len() != "Suite"@.len());
    assert("Box"@[0] != "str"@[0]);
    assert("Box"@.len() != "String"@.len());
    assert("Box"@.len() != "u8"@.len());
    assert("Box"@[0] != "u16"@[0]);
    assert("Box"@[0] != "u32"@[0]);
    assert("Box"@[0] != "u64"@[0]);
    assert("Option"@.len() != "Alias"@.len());
    assert("Option"@.len() != "bool"@.len());
    assert("Option"@.len() != "Decorator"@.len());
    assert("Option"@.len() != "Expr"@.len());
    assert("Option"@.len() != "f64"@.len());
    assert("Option"@.len() != "Identifier"@.len());
    assert("Option"@.len() != "Keyword"@.len());
    assert("Option"@.len() != "Parameter"@.len());
    assert("Option"@.len() != "ParameterWithDefault"@.len());
    assert("Option"@.len() != "Stmt"@.len());
    assert("Option"@.len() != "Suite"@.len());
    assert("Option"@.len() != "str"@.len());
    assert("Option"@[0] != "String"@[0]);
    assert("Option"@.len() != "u8"@.len());
    assert("Option"@.len() != "u16"@.len());
    assert("Option"@.len() != "u32"@.len());
    assert("Option"@.len() != "u64"@.len());
    assert("Vec"@.len() != "Alias"@.len());
    assert("Vec"@.len() != "bool"@.len());
    assert("Vec"@.len() != "Decorator"@.len());
    assert("Vec"@.len() != "Expr"@.len());
    assert("Vec"@[0] != "f64"@[0]);
    assert("Vec"@.len() != "Identifier"@.len());
    assert("Vec"@.len() != "Keyword"@.len());
    assert("Vec"@.len() != "Parameter"@.len());
    assert("Vec"@.len() != "ParameterWithDefault"@.len());
    assert("Vec"@.len() != "Stmt"@.len());
    assert("Vec"@.len() != "Suite"@.len());
    assert("Vec"@[0] != "str"@[0]);
    assert("Vec"@.len() != "String"@.len());
    assert("Vec"@.len() != "u8"@.len());
    assert("Vec"@[0] != "u16"@[0]);
    assert("Vec"@[0] != "u32"@[0]);
    assert("Vec"@[0] != "u64"@[0]);
    assert("Option"@.len() != "Box"@.len());
    assert("Vec"@[0] != "Box"@[0]);
    assert("Vec"@.len() != "Option"@.len());
}

/// A plain type is written as a name that starts with an ASCII letter and
/// continues with ASCII letters and digits, and that name denotes it.
proof fn lemma_leaf_text(t: VarType)
    requires
        !(t is Ref || t is Box || t is Option || t is Vec),
    ensures
        type_text(t).len() > 0,
        crate::text::is_ascii_letter(type_text(t)[0]),
        forall|j: int|
            0 <= j < type_text(t).len() ==> (crate::text::is_ascii_letter(#[trigger] type_text(t)[j])
                || crate::text::is_ascii_digit(type_text(t)[j])),
        named_type(type_text(t)) == Some(t),
{
    lemma_named_type_leaves();
    reveal_strlit("Alias");
    reveal_strlit("bool");
    reveal_strlit("Decorator");
    reveal_strlit("Expr");
    reveal_strlit("f64");
    reveal_strlit("Identifier");
    reveal_strlit("Keyword");
    reveal_strlit("Parameter");
    reveal_strlit("ParameterWithDefault");
    reveal_strlit("Stmt");
    reveal_strlit("Suite");
    reveal_strlit("str");
    reveal_strlit("String");
    reveal_strlit("u8");
    reveal_strlit("u16");
    reveal_strlit("u32");
    reveal_strlit("u64");
    match t {
        VarType::Alias => {
            assert("Alias"@[0] == 'A');
            assert("Alias"@[1] == 'l');
            assert("Alias"@[2] == 'i');
            assert("Alias"@[3] == 'a');
            assert("Alias"@[4] == 's');
            assert forall|j: int| 0 <= j < 5 implies (crate::text::is_ascii_letter(#[trigger] "Alias"@[j]) || crate::text::is_ascii_digit("Alias"@[j])) by {
                if j == 0 {} else if j == 1 {} else if j == 2 {} else if j == 3 {} else if j == 4 {}
            }
        },
        VarType::Bool => {
            assert("bool"@[0] == 'b');
            assert("bool"@[1] == 'o');
            assert("bool"@[2] == 'o');
            assert("bool"@[3] == 'l');
            assert forall|j: int| 0 <= j < 4 implies (crate::text::is_ascii_letter(#[trigger] "bool"@[j]) || crate::text::is_ascii_digit("bool"@[j])) by {
                if j == 0 {} else if j == 1 {} else if j == 2 {} else if j == 3 {}
            }
        },
        VarType::Decorator => {
            assert("Decorator"@[0] == 'D');
            assert("Decorator"@[1] == 'e');
            assert("Decorator"@[2] == 'c');
            assert("Decorator"@[3] == 'o');
            assert("Decorator"@[4] == 'r');
            assert("Decorator"@[5] == 'a');
            assert("Decorator"@[6] == 't');
            assert("Decorator"@[7] == 'o');
            assert("Decorator"@[8] == 'r');
            assert forall|j: int| 0 <= j < 9 implies (crate::text::is_ascii_letter(#[trigger] "Decorator"@[j]) || crate::text::is_ascii_digit("Decorator"@[j])) by {
                if j == 0 {} else if j == 1 {} else if j == 2 {} else if j == 3 {} else if j == 4 {} else if j == 5 {} else if j == 6 {} else if j == 7 {} else if j == 8 {}
            }
        },
        VarType::Expr => {
            assert("Expr"@[0] == 'E');
            assert("Expr"@[1] == 'x');
            assert("Expr"@[2] == 'p');
            assert("Expr"@[3] == 'r');
            assert forall|j: int| 0 <= j < 4 implies (crate::text::is_ascii_letter(#[trigger] "Expr"@[j]) || crate::text::is_ascii_digit("Expr"@[j])) by {
                if j == 0 {} else if j == 1 {} else if j == 2 {} else if j == 3 {}
            }
        },
        VarType::Identifier => {
            assert("Identifier"@[0] == 'I');
            assert("Identifier"@[1] == 'd');
            assert("Identifier"@[2] == 'e');
            assert("Identifier"@[3] == 'n');
            assert("Identifier"@[4] == 't');
            assert("Identifier"@[5] == 'i');
            assert("Identifier"@[6] == 'f');
            assert("Identifier"@[7] == 'i');
            assert("Identifier"@[8] == 'e');
            assert("Identifier"@[9] == 'r');
            assert forall|j: int| 0 <= j < 10 implies (crate::text::is_ascii_letter(#[trigger] "Identifier"@[j]) || crate::text::is_ascii_digit("Identifier"@[j])) by {
                if j == 0 {} else if j == 1 {} else if j == 2 {} else if j == 3 {} else if j == 4 {} else if j == 5 {} else if j == 6 {} else if j == 7 {} else if j == 8 {} else if j == 9 {}
            }
        },
        VarType::Keyword => {
            assert("Keyword"@[0] == 'K');
            assert("Keyword"@[1] == 'e');
            assert("Keyword"@[2] == 'y');
            assert("Keyword"@[3] == 'w');
            assert("Keyword"@[4] == 'o');
            assert("Keyword"@[5] == 'r');
            assert("Keyword"@[6] == 'd');
            assert forall|j: int| 0 <= j < 7 implies (crate::text::is_ascii_letter(#[trigger] "Keyword"@[j]) || crate::text::is_ascii_digit("Keyword"@[j])) by {
                if j == 0 {} else if j == 1 {} else if j == 2 {} else if j == 3 {} else if j == 4 {} else if j == 5 {} else if j == 6 {}
            }
        },
        VarType::Num(NumVarType::F64) => {
            assert("f64"@[0] == 'f');
            assert("f64"@[1] == '6');
            assert("f64"@[2] == '4');
            assert forall|j: int| 0 <= j < 3 implies (crate::text::is_ascii_letter(#[trigger] "f64"@[j]) || crate::text::is_ascii_digit("f64"@[j])) by {
                if j == 0 {} else if j == 1 {} else if j == 2 {}
            }
        },
        VarType::Num(NumVarType::U8) => {
            assert("u8"@[0] == 'u');
            assert("u8"@[1] == '8');
            assert forall|j: int| 0 <= j < 2 implies (crate::text::is_ascii_letter(#[trigger] "u8"@[j]) || crate::text::is_ascii_digit("u8"@[j])) by {
                if j == 0 {} else if j == 1 {}
            }
        },
        VarType::Num(NumVarType::U16) => {
            assert("u16"@[0] == 'u');
            assert("u16"@[1] == '1');
            assert("u16"@[2] == '6');
            assert forall|j: int| 0 <= j < 3 implies (crate::text::is_ascii_letter(#[trigger] "u16"@[j]) || crate::text::is_ascii_digit("u16"@[j])) by {
                if j == 0 {} else if j == 1 {} else if j == 2 {}
            }
        },
        VarType::Num(NumVarType::U32) => {
            assert("u32"@[0] == 'u');
            assert("u32"@[1] == '3');
            assert("u32"@[2] == '2');
            assert forall|j: int| 0 <= j < 3 implies (crate::text::is_ascii_letter(#[trigger] "u32"@[j]) || crate::text::is_ascii_digit("u32"@[j])) by {
                if j == 0 {} else if j == 1 {} else if j == 2 {}
            }
        },
        VarType::Num(NumVarType::U64) => {
            assert("u64"@[0] == 'u');
            assert("u64"@[1] == '6');
            assert("u64"@[2] == '4');
            assert forall|j: int| 0 <= j < 3 implies (crate::text::is_ascii_letter(#[trigger] "u64"@[j]) || crate::text::is_ascii_digit("u64"@[j])) by {
                if j == 0 {} else if j == 1 {} else if j == 2 {}
            }
        },
        VarType::Parameter => {
            assert("Parameter"@[0] == 'P');
            assert("Parameter"@[1] == 'a');
            assert("Parameter"@[2] == 'r');
            assert("Parameter"@[3] == 'a');
            assert("Parameter"@[4] == 'm');
            assert("Parameter"@[5] == 'e');
            assert("Parameter"@[6] == 't');
            assert("Parameter"@[7] == 'e');
            assert("Parameter"@[8] == 'r');
            assert forall|j: int| 0 <= j < 9 implies (crate::text::is_ascii_letter(#[trigger] "Parameter"@[j]) || crate::text::is_ascii_digit("Parameter"@[j])) by {
                if j == 0 {} else if j == 1 {} else if j == 2 {} else if j == 3 {} else if j == 4 {} else if j == 5 {} else if j == 6 {} else if j == 7 {} else if j == 8 {}
            }
        },
        VarType::ParameterWithDefault => {
            assert("ParameterWithDefault"@[0] == 'P');
            assert("ParameterWithDefault"@[1] == 'a');
            assert("ParameterWithDefault"@[2] == 'r');
            assert("ParameterWithDefault"@[3] == 'a');
            assert("ParameterWithDefault"@[4] == 'm');
            assert("ParameterWithDefault"@[5] == 'e');
            assert("ParameterWithDefault"@[6] == 't');
            assert("ParameterWithDefault"@[7] == 'e');
            assert("ParameterWithDefault"@[8] == 'r');
            assert("ParameterWithDefault"@[9] == 'W');
            assert("ParameterWithDefault"@[10] == 'i');
            assert("ParameterWithDefault"@[11] == 't');
            assert("ParameterWithDefault"@[12] == 'h');
            assert("ParameterWithDefault"@[13] == 'D');
            assert("ParameterWithDefault"@[14] == 'e');
            assert("ParameterWithDefault"@[15] == 'f');
            assert("ParameterWithDefault"@[16] == 'a');
            assert("ParameterWithDefault"@[17] == 'u');
            assert("ParameterWithDefault"@[18] == 'l');
            assert("ParameterWithDefault"@[19] == 't');
            assert forall|j: int| 0 <= j < 20 implies (crate::text::is_ascii_letter(#[trigger] "ParameterWithDefault"@[j]) || crate::text::is_ascii_digit("ParameterWithDefault"@[j])) by {
                if j == 0 {} else if j == 1 {} else if j == 2 {} else if j == 3 {} else if j == 4 {} else if j == 5 {} else if j == 6 {} else if j == 7 {} else if j == 8 {} else if j == 9 {} else if j == 10 {} else if j == 11 {} else if j == 12 {} else if j == 13 {} else if j == 14 {} else if j == 15 {} else if j == 16 {} else if j == 17 {} else if j == 18 {} else if j == 19 {}
            }
        },
        VarType::Stmt => {
            assert("Stmt"@[0] == 'S');
            assert("Stmt"@[1] == 't');
            assert("Stmt"@[2] == 'm');
            assert("Stmt"@[3] == 't');
            assert forall|j: int| 0 <= j < 4 implies (crate::text::is_ascii_letter(#[trigger] "Stmt"@[j]) || crate::text::is_ascii_digit("Stmt"@[j])) by {
                if j == 0 {} else if j == 1 {} else if j == 2 {} else if j == 3 {}
            }
        },
        VarType::Suite => {
            assert("Suite"@[0] == 'S');
            assert("Suite"@[1] == 'u');
            assert("Suite"@[2] == 'i');
            assert("Suite"@[3] == 't');
            assert("Suite"@[4] == 'e');
            assert forall|j: int| 0 <= j < 5 implies (crate::text::is_ascii_letter(#[trigger] "Suite"@[j]) || crate::text::is_ascii_digit("Suite"@[j])) by {
                if j == 0 {} else if j == 1 {} else if j == 2 {} else if j == 3 {} else if j == 4 {}
            }
        },
        VarType::Str(StrVarType::Str) => {
            assert("str"@[0] == 's');
            assert("str"@[1] == 't');
            assert("str"@[2] == 'r');
            assert forall|j: int| 0 <= j < 3 implies (crate::text::is_ascii_letter(#[trigger] "str"@[j]) || crate::text::is_ascii_digit("str"@[j])) by {
                if j == 0 {} else if j == 1 {} else if j == 2 {}
            }
        },
        VarType::Str(StrVarType::String) => {
            assert("String"@[0] == 'S');
            assert("String"@[1] == 't');
            assert("String"@[2] == 'r');
            assert("String"@[3] == 'i');
            assert("String"@[4] == 'n');
            assert("String"@[5] == 'g');
            assert forall|j: int| 0 <= j < 6 implies (crate::text::is_ascii_letter(#[trigger] "String"@[j]) || crate::text::is_ascii_digit("String"@[j])) by {
                if j == 0 {} else if j == 1 {} else if j == 2 {} else if j == 3 {} else if j == 4 {} else if j == 5 {}
            }
        },
        _ => {},
    }
}

/// Parsing at `p` where the text of `t` stands, followed by the end or by a
/// character that cannot continue a name, gives back `t` and the end of its
/// text.
proof fn lemma_parse_type_text(s: Seq<char>, p: int, t: VarType)
    requires
        0 <= p,
        p + type_text(t).len() <= s.len(),
        s.subrange(p, p + type_text(t).len()) == type_text(t),
        p + type_text(t).len() == s.len() || !id_continue_py(s[p + type_text(t).len()]),
    ensures
        parse_type_at(s, p) == Ok::<_, TypeErrorView>((t, p + type_text(t).len())),
    decreases t, 2nat,
{
    let text = type_text(t);
    let end = p + text.len();
    lemma_named_type_leaves();
    reveal_strlit("&");
    reveal_strlit("Box<");
    reveal_strlit("Option<");
    reveal_strlit("Vec<");
    reveal_strlit(">");
    assert(forall|j: int| 0 <= j < text.len() ==> s[p + j] == #[trigger] text[j]) by {
        assert forall|j: int| 0 <= j < text.len() implies s[p + j] == #[trigger] text[j] by {
            assert(s.subrange(p, end)[j] == s[p + j]);
        }
    }
    match t {
        VarType::Ref(inner) => {
            let ti = type_text(*inner);
            assert(text == seq!['&'] + ti);
            assert(s.subrange(p + 1, p + 1 + ti.len()) =~= ti) by {
                assert forall|j: int| 0 <= j < ti.len() implies s.subrange(p + 1, p + 1 + ti.len())[j]
                    == ti[j] by {
                    assert(text[1 + j] == ti[j]);
                }
            }
            lemma_parse_type_text(s, p + 1, *inner);
            assert(s[p] == text[0]);
            assert(text[0] == '&');
            assert(skip_space(s, p) == p);
            assert(parse_type_at(s, p + 1) == Ok::<_, TypeErrorView>((*inner, p + 1 + ti.len())));
        },
        VarType::Box(inner) => {
            lemma_parse_wrapped(s, p, *inner, t, "Box<"@, WrapperName::Box);
        },
        VarType::Option(inner) => {
            lemma_parse_wrapped(s, p, *inner, t, "Option<"@, WrapperName::Option);
        },
        VarType::Vec(inner) => {
            lemma_parse_wrapped(s, p, *inner, t, "Vec<"@, WrapperName::Vec);
        },
        _ => {
            lemma_leaf_text(t);
            lemma_skip_space(s, p);
            assert(s[p] == text[0]);
            assert forall|j: int| p + 1 <= j < end implies id_continue_py(#[trigger] s[j]) by {
                assert(s[j] == text[j - p]);
            }
            lemma_word_run_exact(s, p + 1, end);
            assert(s.subrange(p, end) == text);
        },
    }
}

/// The wrapper case of `lemma_parse_type_text`.
proof fn lemma_parse_wrapped(
    s: Seq<char>,
    p: int,
    inner: VarType,
    t: VarType,
    open: Seq<char>,
    w: WrapperName,
)
    requires
        0 <= p,
        t == wrap(w, inner),
        open == wrapper_open_text(w),
        type_text(t) == open + type_text(inner) + ">"@,
        p + type_text(t).len() <= s.len(),
        s.subrange(p, p + type_text(t).len()) == type_text(t),
        p + type_text(t).len() == s.len() || !id_continue_py(s[p + type_text(t).len()]),
    ensures
        parse_type_at(s, p) == Ok::<_, TypeErrorView>((t, p + type_text(t).len())),
    decreases t, 1nat,
{
    reveal_strlit(">");
    lemma_wrapper_text(w);
    lemma_named_type_leaves();
    let text = type_text(t);
    let ti = type_text(inner);
    let nm = wrapper_name_text(w);
    let ol = open.len() as int;
    let end = p + text.len();
    let m = p + ol + ti.len();
    assert(forall|j: int| 0 <= j < text.len() ==> s[p + j] == #[trigger] text[j]) by {
        assert forall|j: int| 0 <= j < text.len() implies s[p + j] == #[trigger] text[j] by {
            assert(s.subrange(p, end)[j] == s[p + j]);
        }
    }
    assert(forall|j: int| 0 <= j < ol ==> #[trigger] text[j] == open[j]);
    assert(forall|j: int| 0 <= j < ti.len() ==> #[trigger] text[ol + j] == ti[j]);
    assert(text[ol + ti.len()] == '>');
    assert(s[m] == '>');
    assert(text[ol - 1] == open[ol - 1]);
    assert(s[p + (ol - 1)] == text[ol - 1]);
    assert(s[p + ol - 1] == '<');
    let name_end = p + ol - 1;
    assert forall|j: int| p + 1 <= j < name_end implies id_continue_py(#[trigger] s[j]) by {
        assert(s[j] == text[j - p]);
        assert(text[j - p] == open[j - p]);
    }
    lemma_word_run_exact(s, p + 1, name_end);
    let name = s.subrange(p, name_end);
    assert(name =~= nm) by {
        assert forall|j: int| 0 <= j < ol - 1 implies name[j] == nm[j] by {
            assert(name[j] == s[p + j]);
            assert(s[p + j] == text[j]);
            assert(open.take(ol - 1)[j] == open[j]);
        }
    }
    assert(s.subrange(p + ol, m) =~= ti) by {
        assert forall|j: int| 0 <= j < ti.len() implies s.subrange(p + ol, m)[j] == ti[j] by {
            assert(s[p + ol + j] == text[ol + j]);
        }
    }
    lemma_parse_type_text(s, p + ol, inner);
    lemma_skip_space(s, p);
    assert(text[0] == open[0]);
    assert(s[p + 0] == text[0]);
    assert(s[p] == open[0]);
    assert(skip_space(s, p) == p);
    assert(skip_space(s, name_end) == name_end);
    assert(skip_space(s, m) == m);
}

/// Writing a variable type and parsing the text gives back the type.
pub proof fn lemma_parse_type_text_roundtrip(t: VarType)
    ensures
        parse_var_type(type_text(t)) == Ok::<_, TypeErrorView>(t),
{
    let s = type_text(t);
    assert(s.subrange(0, s.len() as int) =~= s);
    lemma_parse_type_text(s, 0, t);
    lemma_skip_space(s, s.len() as int);
}


/// The text that the parser reads for a quote of kind `kind`: the source,
/// wrapped, for the kinds that cannot stand alone, in the smallest construct
/// that holds one.
pub open spec fn wrapped_text(kind: OutputKind, source: Seq<char>) -> Seq<char> {
    match kind {
        OutputKind::Parameter => "def __f__("@ + source + "): pass"@,
        OutputKind::ParameterWithDefault => "def __f__("@ + source + "): pass"@,
        OutputKind::Decorator => "@"@ + source + "\ndef __f__(): pass"@,
        OutputKind::Keyword => "__f__("@ + source + ")"@,
        OutputKind::Alias => "from __x__ import "@ + source,
        _ => source,
    }
}

impl OutputKind {
    /// Wraps `source` for parsing as this kind.
    pub fn wrap_source(&self, source: &str) -> (r: String)
        ensures
            r@ == wrapped_text(*self, source@),
    {
        let mut r = String::new();
        match self {
            OutputKind::Parameter | OutputKind::ParameterWithDefault => {
                r.append("def __f__(");
                r.append(source);
                r.append("): pass");
            },
            OutputKind::Decorator => {
                r.append("@");
                r.append(source);
                r.append("\ndef __f__(): pass");
            },
            OutputKind::Keyword => {
                r.append("__f__(");
                r.append(source);
                r.append(")");
            },
            OutputKind::Alias => {
                r.append("from __x__ import ");
                r.append(source);
            },
            _ => {
                r.append(source);
            },
        }
        r
    }
}


/// How the value of a variable replaces its stand-in at expression position.
#[derive(Clone, Copy, Debug, PartialEq, Eq, Structural)]
pub enum ExprSubstitution {
    /// The boxed expression, unboxed.
    Unboxed,
    /// The expression itself.
    Node,
    /// A string literal made from the value.
    StrLiteral,
    /// A float literal made from the value.
    FloatLiteral,
    /// An integer literal made from the value.
    IntLiteral,
    /// A boolean literal made from the value.
    BoolLiteral,
    /// None here: the stand-in stays as it was parsed.
    Kept,
}

/// How a variable of type `ty` replaces its stand-in at expression position:
/// a boxed expression is unboxed, an expression goes in as it is, strings,
/// numbers and booleans become literals (`f64` a float, the unsigned types
/// an integer).
pub open spec fn expr_substitution_of(ty: VarType) -> ExprSubstitution {
    if ty matches VarType::Box(inner) && *inner == VarType::Expr {
        ExprSubstitution::Unboxed
    } else if ty == VarType::Expr {
        ExprSubstitution::Node
    } else if ty.is_str_type() {
        ExprSubstitution::StrLiteral
    } else if ty == VarType::Num(NumVarType::F64) {
        ExprSubstitution::FloatLiteral
    } else if ty is Num {
        ExprSubstitution::IntLiteral
    } else if ty is Bool {
        ExprSubstitution::BoolLiteral
    } else {
        ExprSubstitution::Kept
    }
}

/// At expression position an expression goes in as it is and a boxed one
/// unboxed; every string type becomes a string literal, `f64` a float
/// literal, every unsigned type an integer literal and `bool` a boolean
/// literal.
pub proof fn lemma_expr_substitution_by_type(ty: VarType)
    ensures
        ty == VarType::Expr ==> expr_substitution_of(ty) == ExprSubstitution::Node,
        ty == VarType::Box(Box::new(VarType::Expr)) ==> expr_substitution_of(ty)
            == ExprSubstitution::Unboxed,
        ty.is_str_type() ==> expr_substitution_of(ty) == ExprSubstitution::StrLiteral,
        ty == VarType::Num(NumVarType::F64) ==> expr_substitution_of(ty) == ExprSubstitution::FloatLiteral,
        (ty matches VarType::Num(n) && n != NumVarType::F64) ==> expr_substitution_of(ty)
            == ExprSubstitution::IntLiteral,
        ty is Bool ==> expr_substitution_of(ty) == ExprSubstitution::BoolLiteral,
{
}

/// Decides how a variable of type `ty` replaces its stand-in at expression
/// position.
pub fn expr_substitution(ty: &VarType) -> (r: ExprSubstitution)
    ensures
        r == expr_substitution_of(*ty),
{
    match ty {
        VarType::Box(inner) => {
            if let VarType::Expr = &**inner {
                return ExprSubstitution::Unboxed;
            }
        },
        VarType::Expr => {
            return ExprSubstitution::Node;
        },
        _ => {},
    }
    if ty.is_str() {
        return ExprSubstitution::StrLiteral;
    }
    match ty {
        VarType::Num(NumVarType::F64) => ExprSubstitution::FloatLiteral,
        VarType::Num(_) => ExprSubstitution::IntLiteral,
        VarType::Bool => ExprSubstitution::BoolLiteral,
        _ => ExprSubstitution::Kept,
    }
}

/// What an error message names as the unsupported type: the unsupported
/// name where there is one, else the whole written type.
pub open spec fn unsupported_type_name(err: TypeErrorView, text: Seq<char>) -> Seq<char> {
    match err {
        TypeErrorView::Unsupported(name) => name,
        _ => text,
    }
}

/// The message for a variable type `text` that failed to parse with `err`.
pub fn type_error_message(err: &ParseTypeError, text: &str) -> (r: String)
    ensures
        r@ == "unsupported variable type `"@ + unsupported_type_name(err.view(), text@)
            + "`; expected one of `Alias`, `bool`, `Decorator`, `Expr`, `f64`, `Identifier`, `Keyword`, `Parameter`, `ParameterWithDefault`, `Stmt`, `Suite`, `str`, `String`, `u8`, `u16`, `u32`, `u64`, `&...`, `Box<...>`, `Option<...>`, `Vec<...>`"@,
{
    let mut r = String::new();
    r.append("unsupported variable type `");
    match err {
        ParseTypeError::Unsupported(name) => r.append(name.as_str()),
        _ => r.append(text),
    }
    r.append("`; expected one of `Alias`, `bool`, `Decorator`, `Expr`, `f64`, `Identifier`, `Keyword`, `Parameter`, `ParameterWithDefault`, `Stmt`, `Suite`, `str`, `String`, `u8`, `u16`, `u32`, `u64`, `&...`, `Box<...>`, `Option<...>`, `Vec<...>`");
    r
}

/// How the value of a variable replaces its stand-in at statement position.
#[derive(Clone, Copy, Debug, PartialEq, Eq, Structural)]
pub enum StmtSubstitution {
    /// The statement itself.
    Node,
    /// The statements, spliced into the enclosing body.
    SpliceStatements,
    /// An expression statement holding a string literal (a docstring).
    Docstring,
    /// One docstring statement per string, spliced into the enclosing body.
    SpliceDocstrings,
    /// None here: the stand-in stays as it was parsed.
    Kept,
}

/// How a variable of type `ty` replaces its stand-in at statement position:
/// a statement goes in as it is; a suite, or a `Vec` or `Option` of
/// statements or suites, is spliced; a string becomes a docstring, and a
/// `Vec` or `Option` of strings one docstring each.
pub open spec fn stmt_substitution_of(ty: VarType) -> StmtSubstitution {
    if ty == VarType::Stmt {
        StmtSubstitution::Node
    } else if (ty == VarType::Suite || ty is Vec || ty is Option) && (ty.inner_type()
        == VarType::Stmt || ty.inner_type() == VarType::Suite) {
        StmtSubstitution::SpliceStatements
    } else if ty.is_str_type() {
        StmtSubstitution::Docstring
    } else if (ty is Vec || ty is Option) && ty.inner_type().is_str_type() {
        StmtSubstitution::SpliceDocstrings
    } else {
        StmtSubstitution::Kept
    }
}

/// At statement position a statement goes in as it is; every suite, and
/// every `Vec` or `Option` of statements or of suites, is spliced; a string
/// becomes a docstring, and a `Vec` or `Option` of strings one docstring
/// each.
pub proof fn lemma_stmt_substitution_by_type(ty: VarType)
    ensures
        ty == VarType::Stmt ==> stmt_substitution_of(ty) == StmtSubstitution::Node,
        ty == VarType::Suite ==> stmt_substitution_of(ty) == StmtSubstitution::SpliceStatements,
        (ty matches VarType::Vec(inner) && (*inner == VarType::Stmt || *inner == VarType::Suite))
            ==> stmt_substitution_of(ty) == StmtSubstitution::SpliceStatements,
        (ty matches VarType::Option(inner) && (*inner == VarType::Stmt || *inner == VarType::Suite))
            ==> stmt_substitution_of(ty) == StmtSubstitution::SpliceStatements,
        ty.is_str_type() ==> stmt_substitution_of(ty) == StmtSubstitution::Docstring,
        (ty matches VarType::Vec(inner) && inner.is_str_type()) ==> stmt_substitution_of(ty)
            == StmtSubstitution::SpliceDocstrings,
        (ty matches VarType::Option(inner) && inner.is_str_type()) ==> stmt_substitution_of(ty)
            == StmtSubstitution::SpliceDocstrings,
{
}

/// Decides how a variable of type `ty` replaces its stand-in at statement
/// position.
pub fn stmt_substitution(ty: &VarType) -> (r: StmtSubstitution)
    ensures
        r == stmt_substitution_of(*ty),
{
    let listed = match ty {
        VarType::Stmt => {
            return StmtSubstitution::Node;
        },
        VarType::Suite | VarType::Vec(_) | VarType::Option(_) => true,
        _ => false,
    };
    let list_of = match ty {
        VarType::Vec(_) | VarType::Option(_) => true,
        _ => false,
    };
    let inner = ty.inner();
    if listed {
        match inner {
            VarType::Stmt | VarType::Suite => {
                return StmtSubstitution::SpliceStatements;
            },
            _ => {},
        }
    }
    if ty.is_str() {
        return StmtSubstitution::Docstring;
    }
    if list_of && inner.is_str() {
        return StmtSubstitution::SpliceDocstrings;
    }
    StmtSubstitution::Kept
}
} // verus!
