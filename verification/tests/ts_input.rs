use quasiquodo::ts::input::{StrVarType, VarType};
use quasiquodo::ts::input::OutputKind;
use quasiquodo::ts::input::{substitution, type_error_message, SubstPosition, Substitution};

#[test]
fn test_parse_var_type_ts_type_element() {
    let vt = VarType::parse("TsTypeElement").unwrap();
    assert!(matches!(vt, VarType::TsTypeElement));
}

#[test]
fn test_parse_var_type_vec_ts_type() {
    let vt = VarType::parse("Vec<TsType>").unwrap();
    assert!(matches!(
        vt,
        VarType::Vec(ref inner) if matches!(**inner, VarType::TsType)
    ));
}

#[test]
fn test_parse_var_type_vec_ts_type_element() {
    let vt = VarType::parse("Vec<TsTypeElement>").unwrap();
    assert!(matches!(
        vt,
        VarType::Vec(ref inner) if matches!(**inner, VarType::TsTypeElement)
    ));
}

#[test]
fn test_parse_var_type_vec_ident() {
    let vt = VarType::parse("Vec<Ident>").unwrap();
    assert!(matches!(
        vt,
        VarType::Vec(ref inner) if matches!(**inner, VarType::Ident)
    ));
}

#[test]
fn test_parse_var_type_class_member() {
    let vt = VarType::parse("ClassMember").unwrap();
    assert!(matches!(vt, VarType::ClassMember));
}

#[test]
fn test_parse_var_type_param() {
    let vt = VarType::parse("Param").unwrap();
    assert!(matches!(vt, VarType::Param));
}

#[test]
fn ts_input_test_parse_var_type_stmt() {
    let vt = VarType::parse("Stmt").unwrap();
    assert!(matches!(vt, VarType::Stmt));
}

#[test]
fn test_parse_var_type_vec_class_member() {
    let vt = VarType::parse("Vec<ClassMember>").unwrap();
    assert!(matches!(
        vt,
        VarType::Vec(ref inner) if matches!(**inner, VarType::ClassMember)
    ));
}

#[test]
fn test_parse_var_type_vec_param() {
    let vt = VarType::parse("Vec<Param>").unwrap();
    assert!(matches!(
        vt,
        VarType::Vec(ref inner) if matches!(**inner, VarType::Param)
    ));
}

#[test]
fn ts_input_test_parse_var_type_vec_stmt() {
    let vt = VarType::parse("Vec<Stmt>").unwrap();
    assert!(matches!(
        vt,
        VarType::Vec(ref inner) if matches!(**inner, VarType::Stmt)
    ));
}

#[test]
fn test_parse_var_type_import_specifier() {
    let vt = VarType::parse("ImportSpecifier").unwrap();
    assert!(matches!(vt, VarType::ImportSpecifier));
}

#[test]
fn test_parse_var_type_vec_import_specifier() {
    let vt = VarType::parse("Vec<ImportSpecifier>").unwrap();
    assert!(matches!(
        vt,
        VarType::Vec(ref inner) if matches!(**inner, VarType::ImportSpecifier)
    ));
}

#[test]
fn test_parse_var_type_export_specifier() {
    let vt = VarType::parse("ExportSpecifier").unwrap();
    assert!(matches!(vt, VarType::ExportSpecifier));
}

#[test]
fn test_parse_var_type_param_or_ts_param_prop() {
    let vt = VarType::parse("ParamOrTsParamProp").unwrap();
    assert!(matches!(vt, VarType::ParamOrTsParamProp));
}

#[test]
fn test_parse_var_type_vec_param_or_ts_param_prop() {
    let vt = VarType::parse("Vec<ParamOrTsParamProp>").unwrap();
    assert!(matches!(
        vt,
        VarType::Vec(ref inner) if matches!(**inner, VarType::ParamOrTsParamProp)
    ));
}

#[test]
fn test_parse_var_type_option_ts_type() {
    let vt = VarType::parse("Option<TsType>").unwrap();
    assert!(matches!(
        vt,
        VarType::Option(ref inner) if matches!(**inner, VarType::TsType)
    ));
}

#[test]
fn ts_input_test_parse_var_type_str() {
    let vt = VarType::parse("&str").unwrap();
    assert!(matches!(
        vt,
        VarType::Ref(ref inner) if matches!(**inner, VarType::Str(StrVarType::Str))
    ));
}

#[test]
fn ts_input_test_parse_var_type_option_str() {
    let vt = VarType::parse("Option<&str>").unwrap();
    assert!(matches!(
        vt,
        VarType::Option(ref inner) if matches!(**inner, VarType::Ref(ref inner)
            if matches!(**inner, VarType::Str(StrVarType::Str)))
    ));
}

#[test]
fn ts_input_test_parse_var_type_option_stmt() {
    let vt = VarType::parse("Option<Stmt>").unwrap();
    assert!(matches!(
        vt,
        VarType::Option(ref inner) if matches!(**inner, VarType::Stmt)
    ));
}

#[test]
fn test_parse_var_type_option_ts_type_element() {
    let vt = VarType::parse("Option<TsTypeElement>").unwrap();
    assert!(matches!(
        vt,
        VarType::Option(ref inner) if matches!(**inner, VarType::TsTypeElement)
    ));
}

#[test]
fn test_parse_var_type_option_class_member() {
    let vt = VarType::parse("Option<ClassMember>").unwrap();
    assert!(matches!(
        vt,
        VarType::Option(ref inner) if matches!(**inner, VarType::ClassMember)
    ));
}

#[test]
fn test_parse_var_type_decl() {
    let vt = VarType::parse("Decl").unwrap();
    assert!(matches!(vt, VarType::Decl));
}

#[test]
fn test_parse_var_type_vec_decl() {
    let vt = VarType::parse("Vec<Decl>").unwrap();
    assert!(matches!(
        vt,
        VarType::Vec(ref inner) if matches!(**inner, VarType::Decl)
    ));
}

#[test]
fn test_parse_var_type_option_decl() {
    let vt = VarType::parse("Option<Decl>").unwrap();
    assert!(matches!(
        vt,
        VarType::Option(ref inner) if matches!(**inner, VarType::Decl)
    ));
}

#[test]
fn test_parse_var_type_jsdoc() {
    let vt = VarType::parse("JsDoc").unwrap();
    assert!(matches!(vt, VarType::JsDoc));
}

#[test]
fn test_parse_var_type_option_jsdoc() {
    let vt = VarType::parse("Option<JsDoc>").unwrap();
    assert!(matches!(
        vt,
        VarType::Option(ref inner) if matches!(**inner, VarType::JsDoc)
    ));
}

#[test]
fn ts_var_type_text_parses_back() {
    for text in ["Option<Vec<TsType>>", "&str", "Box<Expr>", "f64", "Option<JsDoc>"] {
        let vt = VarType::parse(text).unwrap();
        assert_eq!(vt.to_string(), text);
        assert_eq!(VarType::parse(&vt.to_string()).unwrap(), vt);
    }
}

#[test]
fn ts_var_type_parse_rejects_unknown_types() {
    assert!(VarType::parse("Bogus").is_err());
    assert!(VarType::parse("Option<Expr").is_err());
}

#[test]
fn ts_output_kind_parse_and_wrap() {
    assert!(matches!(OutputKind::parse("ModuleItem"), Ok(OutputKind::ModuleItem)));
    let err = OutputKind::parse("Bogus").err().expect("expected error");
    assert!(err.message().contains("unsupported output kind"));
    assert_eq!(OutputKind::TsType.wrap_source("string | null"), "type T = string | null;");
    assert_eq!(OutputKind::ClassMember.wrap_source("x = 1;"), "class C { x = 1; }");
    assert_eq!(OutputKind::TsTypeElement.wrap_source("a: T"), "interface I { a: T }");
    assert_eq!(
        OutputKind::ParamOrTsParamProp.wrap_source("x: string"),
        "class C { constructor(x: string) {} }"
    );
    assert_eq!(OutputKind::Param.wrap_source("x"), "function f(x) {}");
    assert_eq!(OutputKind::ImportSpecifier.wrap_source("Foo"), "import {Foo } from \"\";");
    assert_eq!(OutputKind::ExportSpecifier.wrap_source("Foo"), "export {Foo } from \"\";");
    assert_eq!(OutputKind::Expr.wrap_source("a + b"), "a + b");
}

#[test]
fn ts_var_type_rust_type() {
    assert_eq!(
        VarType::parse("Option<Vec<Expr>>").unwrap().rust_type(),
        "Option<Vec<::quasiquodo::ts::swc::ecma_ast::Expr>>"
    );
    assert_eq!(VarType::parse("&str").unwrap().rust_type(), "&str");
    assert_eq!(VarType::parse("JsDoc").unwrap().rust_type(), "::quasiquodo::ts::JsDoc");
    assert_eq!(VarType::parse("usize").unwrap().rust_type(), "usize");
}

#[test]
fn substitution_tables() {
    let t = |s: &str| VarType::parse(s).unwrap();
    let at_type = |s: &str| substitution(SubstPosition::Type, &t(s));
    let at_expr = |s: &str| substitution(SubstPosition::Expression, &t(s));
    assert_eq!(at_type("Box<TsType>"), Substitution::Unboxed);
    assert_eq!(at_type("TsType"), Substitution::Node);
    assert_eq!(at_type("&str"), Substitution::StrLiteral);
    assert_eq!(at_type("String"), Substitution::StrLiteral);
    assert_eq!(at_type("f64"), Substitution::NumLiteral);
    assert_eq!(at_type("bool"), Substitution::BoolLiteral);
    assert_eq!(at_type("Vec<TsType>"), Substitution::SpliceEach);
    assert_eq!(at_type("Option<TsType>"), Substitution::SpliceEach);
    assert_eq!(at_type("Expr"), Substitution::Kept);
    assert_eq!(at_type("Box<Expr>"), Substitution::Kept);
    assert_eq!(at_expr("Box<Expr>"), Substitution::Unboxed);
    assert_eq!(at_expr("Expr"), Substitution::Node);
    assert_eq!(at_expr("Box<str>"), Substitution::StrLiteral);
    assert_eq!(at_expr("Box<&str>"), Substitution::Kept);
    assert_eq!(at_expr("f64"), Substitution::NumLiteral);
    assert_eq!(at_expr("bool"), Substitution::BoolLiteral);
    assert_eq!(at_expr("Vec<Expr>"), Substitution::Kept);
    assert_eq!(at_expr("TsType"), Substitution::Kept);
}

#[test]
fn ts_type_error_messages() {
    let err = VarType::parse("Vec<Foo>").unwrap_err();
    assert_eq!(
        type_error_message(&err, "Vec<Foo>"),
        "unsupported variable type `Foo`; expected one of `bool`, `ClassMember`, `Decl`, `Expr`, \
         `ExportSpecifier`, `f64`, `Ident`, `ImportSpecifier`, `JsDoc`, `Param`, \
         `ParamOrTsParamProp`, `Stmt`, `str`, `String`, `TsType`, `TsTypeElement`, `usize`, \
         `&...`, `Box<...>`, `Option<...>`, `Vec<...>`"
    );
    let err = VarType::parse("").unwrap_err();
    assert!(type_error_message(&err, "").starts_with("unsupported variable type ``;"));
}
