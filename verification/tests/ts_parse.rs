use quasiquodo::ts::input::OutputKind;
use quasiquodo::ts::parse::{parse_source, select_output, Expected, ItemShape, ParseSourceError, Selection};
use quasiquodo::ts::syntax::ParsedNode;

/// The selection, or the reason for none (`None` for a parser error).
fn outcome(source: &str, kind: OutputKind) -> Result<Selection, Option<Expected>> {
    match parse_source(source, &kind) {
        Ok(parsed) => Ok(parsed.selection),
        Err(ParseSourceError::Expected(e)) => Err(Some(e)),
        Err(ParseSourceError::Parser(_)) => Err(None),
    }
}

#[test]
fn parse_source_takes_the_asked_element() {
    assert_eq!(outcome("string | number", OutputKind::TsType), Ok(Selection::AliasedType));
    assert_eq!(outcome("name: string;", OutputKind::ClassMember), Ok(Selection::OnlyClassMember));
    assert_eq!(outcome("name: string", OutputKind::TsTypeElement), Ok(Selection::OnlyTypeElement));
    assert_eq!(
        outcome("private x: number", OutputKind::ParamOrTsParamProp),
        Ok(Selection::OnlyConstructorParam)
    );
    assert_eq!(outcome("x: number", OutputKind::Param), Ok(Selection::OnlyParam));
    assert_eq!(outcome("a as b", OutputKind::ImportSpecifier), Ok(Selection::OnlyImportSpecifier));
    assert_eq!(outcome("a", OutputKind::ExportSpecifier), Ok(Selection::OnlyExportSpecifier));
    assert_eq!(outcome("foo", OutputKind::Ident), Ok(Selection::Identifier));
    assert_eq!(outcome("a + b", OutputKind::Expr), Ok(Selection::WholeExpr));
    assert_eq!(outcome("const x = 1;", OutputKind::Stmt), Ok(Selection::WholeStmt));
    assert_eq!(outcome("export const x = 1;", OutputKind::ModuleItem), Ok(Selection::WholeItem));
    assert_eq!(outcome("function f() {}", OutputKind::Decl), Ok(Selection::Declaration));
    assert_eq!(outcome("interface I {}", OutputKind::Decl), Ok(Selection::Declaration));
    assert_eq!(outcome("constructor(a) {}", OutputKind::ClassMember), Ok(Selection::OnlyClassMember));
}

#[test]
fn parse_source_reports_what_is_missing() {
    assert_eq!(outcome("a: number; b: string;", OutputKind::ClassMember), Err(Some(Expected::ClassMember)));
    assert_eq!(
        outcome("constructor(a) {} x = 1;", OutputKind::ClassMember),
        Err(Some(Expected::ClassMember))
    );
    assert_eq!(outcome("a: number; b: string", OutputKind::TsTypeElement), Err(Some(Expected::TypeElement)));
    assert_eq!(outcome("a, b", OutputKind::ParamOrTsParamProp), Err(Some(Expected::ConstructorParam)));
    assert_eq!(outcome("", OutputKind::ParamOrTsParamProp), Err(Some(Expected::ConstructorParam)));
    assert_eq!(outcome("a, b", OutputKind::Param), Err(Some(Expected::Param)));
    assert_eq!(outcome("a, b", OutputKind::ImportSpecifier), Err(Some(Expected::ImportSpecifier)));
    assert_eq!(outcome("a, b", OutputKind::ExportSpecifier), Err(Some(Expected::ExportSpecifier)));
    assert_eq!(outcome("a + b", OutputKind::Ident), Err(Some(Expected::Identifier)));
    assert_eq!(outcome("x + 1;", OutputKind::Decl), Err(Some(Expected::Declaration)));
    assert_eq!(outcome("(((", OutputKind::TsType), Err(None));
    assert_eq!(outcome("", OutputKind::Expr), Err(None));
}

#[test]
fn parse_source_keeps_the_node_and_comments() {
    let parsed = match parse_source("/** The pet. */ pet", &OutputKind::Expr) {
        Ok(parsed) => parsed,
        Err(_) => panic!("expected a parsed expression"),
    };
    assert!(matches!(parsed.tree.into_node(), ParsedNode::Expr(_)));
    assert_eq!(parsed.comments.len(), 1);
    assert!(parsed.comments[0].block);
    assert_eq!(parsed.comments[0].text, "* The pet. ");
    let parsed = match parse_source("// note\nconst x = 1;", &OutputKind::Stmt) {
        Ok(parsed) => parsed,
        Err(_) => panic!("expected a parsed statement"),
    };
    assert!(matches!(parsed.tree.into_node(), ParsedNode::Stmt(_)));
    assert_eq!(parsed.comments.len(), 1);
    assert!(!parsed.comments[0].block);
}

#[test]
fn select_output_by_shape() {
    let class = |members: Vec<Option<usize>>| ItemShape::Class { members };
    assert_eq!(select_output(&OutputKind::ParamOrTsParamProp, &class(vec![])), Err(Expected::Constructor));
    assert_eq!(
        select_output(&OutputKind::ParamOrTsParamProp, &class(vec![None, Some(1)])),
        Ok(Selection::OnlyConstructorParam)
    );
    assert_eq!(
        select_output(&OutputKind::ParamOrTsParamProp, &class(vec![Some(1), None])),
        Err(Expected::Constructor)
    );
    assert_eq!(
        select_output(&OutputKind::ParamOrTsParamProp, &class(vec![Some(2)])),
        Err(Expected::ConstructorParam)
    );
    assert_eq!(select_output(&OutputKind::ParamOrTsParamProp, &ItemShape::OtherDecl), Err(Expected::Class));
    assert_eq!(select_output(&OutputKind::ClassMember, &class(vec![None])), Ok(Selection::OnlyClassMember));
    assert_eq!(select_output(&OutputKind::ClassMember, &class(vec![None, None])), Err(Expected::ClassMember));
    assert_eq!(select_output(&OutputKind::ClassMember, &ItemShape::TypeAlias), Err(Expected::Class));
    assert_eq!(select_output(&OutputKind::TsTypeElement, &class(vec![None])), Err(Expected::Interface));
    assert_eq!(select_output(&OutputKind::Param, &ItemShape::OtherItem), Err(Expected::Function));
    assert_eq!(
        select_output(&OutputKind::ImportSpecifier, &ItemShape::NamedExport { specifiers: 1 }),
        Err(Expected::Import)
    );
    assert_eq!(
        select_output(&OutputKind::ExportSpecifier, &ItemShape::Import { specifiers: 1 }),
        Err(Expected::NamedExport)
    );
    assert_eq!(select_output(&OutputKind::TsType, &ItemShape::OtherDecl), Err(Expected::TypeAlias));
    assert_eq!(select_output(&OutputKind::Decl, &ItemShape::Import { specifiers: 1 }), Err(Expected::Declaration));
    assert_eq!(select_output(&OutputKind::Decl, &ItemShape::OtherDecl), Ok(Selection::Declaration));
    assert_eq!(select_output(&OutputKind::Expr, &ItemShape::Statement), Ok(Selection::WholeExpr));
}

#[test]
fn expected_messages() {
    assert_eq!(Expected::Class.message(), "expected a class declaration");
    assert_eq!(Expected::ConstructorParam.message(), "expected exactly one constructor param");
    assert_eq!(Expected::Identifier.message(), "expected an identifier");
    assert_eq!(Expected::Interface.message(), "expected an interface declaration");
}
