use quasiquodo::text::braced_source;
use quasiquodo::py::input::{NumVarType, StrVarType, VarType};
use quasiquodo::py::input::OutputKind;
use quasiquodo::py::input::{expr_substitution, ExprSubstitution};
use quasiquodo::py::input::{stmt_substitution, type_error_message, StmtSubstitution};
use quasiquodo::type_syntax::ParseTypeError;

#[test]
fn test_parse_var_type_expr() {
    let vt = VarType::parse("Expr").unwrap();
    assert!(matches!(vt, VarType::Expr));
}

#[test]
fn test_parse_var_type_vec_expr() {
    let vt = VarType::parse("Vec<Expr>").unwrap();
    assert!(matches!(
        vt,
        VarType::Vec(ref inner) if matches!(**inner, VarType::Expr)
    ));
}

#[test]
fn input_test_parse_var_type_option_stmt() {
    let vt = VarType::parse("Option<Stmt>").unwrap();
    assert!(matches!(
        vt,
        VarType::Option(ref inner) if matches!(**inner, VarType::Stmt)
    ));
}

#[test]
fn test_parse_var_type_identifier() {
    let vt = VarType::parse("Identifier").unwrap();
    assert!(matches!(vt, VarType::Identifier));
}

#[test]
fn input_test_parse_var_type_stmt() {
    let vt = VarType::parse("Stmt").unwrap();
    assert!(matches!(vt, VarType::Stmt));
}

#[test]
fn input_test_parse_var_type_vec_stmt() {
    let vt = VarType::parse("Vec<Stmt>").unwrap();
    assert!(matches!(
        vt,
        VarType::Vec(ref inner) if matches!(**inner, VarType::Stmt)
    ));
}

#[test]
fn test_parse_var_type_parameter() {
    let vt = VarType::parse("Parameter").unwrap();
    assert!(matches!(vt, VarType::Parameter));
}

#[test]
fn test_parse_var_type_decorator() {
    let vt = VarType::parse("Decorator").unwrap();
    assert!(matches!(vt, VarType::Decorator));
}

#[test]
fn test_parse_var_type_bool() {
    let vt = VarType::parse("bool").unwrap();
    assert!(matches!(vt, VarType::Bool));
}

#[test]
fn test_parse_var_type_f64() {
    let vt = VarType::parse("f64").unwrap();
    assert!(matches!(vt, VarType::Num(NumVarType::F64)));
}

#[test]
fn input_test_parse_var_type_str() {
    let vt = VarType::parse("&str").unwrap();
    assert!(matches!(
        vt,
        VarType::Ref(ref inner) if matches!(**inner, VarType::Str(StrVarType::Str))));
}

#[test]
fn test_parse_var_type_string() {
    let vt = VarType::parse("String").unwrap();
    assert!(matches!(vt, VarType::Str(StrVarType::String)));
}

#[test]
fn input_test_parse_var_type_option_str() {
    let vt = VarType::parse("Option<&str>").unwrap();
    assert!(matches!(
        vt,
        VarType::Option(ref inner) if matches!(**inner, VarType::Ref(ref inner)
            if matches!(**inner, VarType::Str(StrVarType::Str)))
    ));
}

#[test]
fn test_parse_var_type_suite() {
    let vt = VarType::parse("Suite").unwrap();
    assert!(matches!(vt, VarType::Suite));
}

#[test]
fn var_type_text_parses_back() {
    for text in ["Option<Vec<Expr>>", "&str", "Box<Stmt>", "u64", "Option<&str>"] {
        let vt = VarType::parse(text).unwrap();
        assert_eq!(vt.to_string(), text);
        assert_eq!(VarType::parse(&vt.to_string()).unwrap(), vt);
    }
}

#[test]
fn var_type_parse_rejects_unknown_types() {
    assert!(VarType::parse("Bogus").is_err());
    assert!(VarType::parse("Vec<").is_err());
    assert!(VarType::parse("").is_err());
}

#[test]
fn var_type_helpers() {
    let vt = VarType::parse("Option<&str>").unwrap();
    assert_eq!(*vt.inner(), VarType::parse("&str").unwrap());
    assert!(vt.inner().is_str());
    assert!(!vt.is_str());
    let boxed = VarType::parse("Box<String>").unwrap();
    assert_eq!(*boxed.pointee(), VarType::Str(StrVarType::String));
    assert!(!boxed.is_str());
    assert!(VarType::parse("Box<str>").unwrap().is_str());
    assert!(VarType::parse("&str").unwrap().is_str());
    assert!(!VarType::parse("Expr").unwrap().is_str());
}

#[test]
fn output_kind_parse() {
    assert!(matches!(OutputKind::parse("FunctionDef"), Ok(OutputKind::FunctionDef)));
    assert!(matches!(OutputKind::parse("Alias"), Ok(OutputKind::Alias)));
    assert!(matches!(OutputKind::parse("Suite"), Ok(OutputKind::Suite)));
    let err = OutputKind::parse("Bogus").err().expect("expected error");
    assert!(err.message().contains("unsupported output kind"));
}

#[test]
fn output_kind_wraps_source() {
    assert_eq!(OutputKind::Parameter.wrap_source("x: int"), "def __f__(x: int): pass");
    assert_eq!(OutputKind::Decorator.wrap_source("dec"), "@dec\ndef __f__(): pass");
    assert_eq!(OutputKind::Keyword.wrap_source("a=1"), "__f__(a=1)");
    assert_eq!(OutputKind::Alias.wrap_source("Foo"), "from __x__ import Foo");
    assert_eq!(OutputKind::Expr.wrap_source("x + 1"), "x + 1");
}

#[test]
fn braced_source_is_unindented() {
    assert_eq!(braced_source("\n            x = 1\n            y = 2\n        "), "x = 1\ny = 2\n");
    assert_eq!(
        braced_source("\n            def foo():\n                pass\n        "),
        "def foo():\n    pass\n"
    );
    assert_eq!(braced_source("x"), "x");
}

#[test]
fn var_type_parse_errors() {
    assert_eq!(VarType::parse(""), Err(ParseTypeError::ExpectedType));
    assert_eq!(VarType::parse("Vec"), Err(ParseTypeError::ExpectedOpen));
    assert_eq!(VarType::parse("Option<Expr"), Err(ParseTypeError::ExpectedClose));
    assert_eq!(VarType::parse("Expr>"), Err(ParseTypeError::Trailing));
    assert_eq!(VarType::parse("Bogus"), Err(ParseTypeError::Unsupported("Bogus".to_string())));
    assert_eq!(VarType::parse(" Option < & str > ").unwrap().to_string(), "Option<&str>");
}

#[test]
fn py_expression_substitution_table() {
    let at = |s: &str| expr_substitution(&VarType::parse(s).unwrap());
    assert_eq!(at("Box<Expr>"), ExprSubstitution::Unboxed);
    assert_eq!(at("Expr"), ExprSubstitution::Node);
    assert_eq!(at("&str"), ExprSubstitution::StrLiteral);
    assert_eq!(at("String"), ExprSubstitution::StrLiteral);
    assert_eq!(at("f64"), ExprSubstitution::FloatLiteral);
    assert_eq!(at("u8"), ExprSubstitution::IntLiteral);
    assert_eq!(at("u64"), ExprSubstitution::IntLiteral);
    assert_eq!(at("bool"), ExprSubstitution::BoolLiteral);
    assert_eq!(at("Vec<Expr>"), ExprSubstitution::Kept);
    assert_eq!(at("Box<Stmt>"), ExprSubstitution::Kept);
}

#[test]
fn py_statement_substitution_table() {
    let at = |s: &str| stmt_substitution(&VarType::parse(s).unwrap());
    assert_eq!(at("Stmt"), StmtSubstitution::Node);
    assert_eq!(at("Suite"), StmtSubstitution::SpliceStatements);
    assert_eq!(at("Vec<Stmt>"), StmtSubstitution::SpliceStatements);
    assert_eq!(at("Option<Suite>"), StmtSubstitution::SpliceStatements);
    assert_eq!(at("&str"), StmtSubstitution::Docstring);
    assert_eq!(at("String"), StmtSubstitution::Docstring);
    assert_eq!(at("Vec<String>"), StmtSubstitution::SpliceDocstrings);
    assert_eq!(at("Option<&str>"), StmtSubstitution::SpliceDocstrings);
    assert_eq!(at("Expr"), StmtSubstitution::Kept);
    assert_eq!(at("Vec<Expr>"), StmtSubstitution::Kept);
    assert_eq!(at("Box<Stmt>"), StmtSubstitution::Kept);
}

#[test]
fn py_type_error_messages() {
    let err = VarType::parse("Foo").unwrap_err();
    assert_eq!(
        type_error_message(&err, "Foo"),
        "unsupported variable type `Foo`; expected one of `Alias`, `bool`, `Decorator`, `Expr`, \
         `f64`, `Identifier`, `Keyword`, `Parameter`, `ParameterWithDefault`, `Stmt`, `Suite`, \
         `str`, `String`, `u8`, `u16`, `u32`, `u64`, `&...`, `Box<...>`, `Option<...>`, `Vec<...>`"
    );
    let err = VarType::parse("Vec<Expr").unwrap_err();
    assert!(type_error_message(&err, "Vec<Expr").starts_with("unsupported variable type `Vec<Expr`;"));
}
