use quasiquodo::py::input::OutputKind;
use quasiquodo::py::parse::{
    parses_as_expression, select_output, Expected, ExprShape, PyShape, Selection, StmtShape,
};

fn module(first: Option<StmtShape>, last: Option<StmtShape>) -> PyShape {
    PyShape::Module { first, last }
}

fn func(args: usize, decorators: usize) -> StmtShape {
    StmtShape::FunctionDef { args, decorators }
}

#[test]
fn py_select_output_takes_the_asked_element() {
    let e = |s| PyShape::Expression(s);
    assert_eq!(select_output(&OutputKind::Expr, &e(ExprShape::Other)), Ok(Selection::WholeExpr));
    assert_eq!(select_output(&OutputKind::Identifier, &e(ExprShape::Name)), Ok(Selection::Identifier));
    assert_eq!(
        select_output(&OutputKind::Keyword, &e(ExprShape::Call { keywords: 2 })),
        Ok(Selection::FirstKeyword)
    );
    let one = Some(StmtShape::Other);
    assert_eq!(select_output(&OutputKind::Stmt, &module(one, one)), Ok(Selection::FirstStatement));
    assert_eq!(select_output(&OutputKind::Suite, &module(one, one)), Ok(Selection::AllStatements));
    assert_eq!(
        select_output(&OutputKind::FunctionDef, &module(Some(func(0, 0)), one)),
        Ok(Selection::FirstFunctionDef)
    );
    assert_eq!(
        select_output(&OutputKind::ClassDef, &module(Some(StmtShape::ClassDef), one)),
        Ok(Selection::FirstClassDef)
    );
    let imp = Some(StmtShape::ImportFrom { names: 1 });
    assert_eq!(select_output(&OutputKind::ImportFrom, &module(imp, imp)), Ok(Selection::FirstImportFrom));
    assert_eq!(select_output(&OutputKind::Alias, &module(imp, imp)), Ok(Selection::FirstAlias));
    let f = Some(func(1, 1));
    assert_eq!(select_output(&OutputKind::Parameter, &module(f, f)), Ok(Selection::FirstParameter));
    assert_eq!(
        select_output(&OutputKind::ParameterWithDefault, &module(f, f)),
        Ok(Selection::FirstParameterWithDefault)
    );
    assert_eq!(select_output(&OutputKind::Decorator, &module(f, f)), Ok(Selection::FirstDecorator));
}

#[test]
fn py_select_output_reports_what_is_missing() {
    let e = |s| PyShape::Expression(s);
    let empty = module(None, None);
    assert_eq!(select_output(&OutputKind::Identifier, &e(ExprShape::Other)), Err(Expected::Identifier));
    assert_eq!(select_output(&OutputKind::Keyword, &e(ExprShape::Name)), Err(Expected::Call));
    assert_eq!(
        select_output(&OutputKind::Keyword, &e(ExprShape::Call { keywords: 0 })),
        Err(Expected::Keyword)
    );
    assert_eq!(select_output(&OutputKind::Stmt, &empty), Err(Expected::Statement));
    assert_eq!(select_output(&OutputKind::Suite, &empty), Err(Expected::Statement));
    assert_eq!(select_output(&OutputKind::FunctionDef, &empty), Err(Expected::Statement));
    let other = Some(StmtShape::Other);
    assert_eq!(select_output(&OutputKind::FunctionDef, &module(other, other)), Err(Expected::FunctionDef));
    assert_eq!(select_output(&OutputKind::ClassDef, &module(other, other)), Err(Expected::ClassDef));
    assert_eq!(select_output(&OutputKind::ImportFrom, &module(other, other)), Err(Expected::ImportFrom));
    assert_eq!(select_output(&OutputKind::Parameter, &empty), Err(Expected::FunctionDef));
    let bare = Some(func(0, 0));
    assert_eq!(select_output(&OutputKind::Parameter, &module(bare, bare)), Err(Expected::Parameter));
    assert_eq!(
        select_output(&OutputKind::ParameterWithDefault, &module(bare, bare)),
        Err(Expected::ParameterWithDefault)
    );
    assert_eq!(select_output(&OutputKind::Decorator, &module(bare, bare)), Err(Expected::Decorator));
    let no_names = Some(StmtShape::ImportFrom { names: 0 });
    assert_eq!(select_output(&OutputKind::Alias, &module(no_names, no_names)), Err(Expected::Alias));
    assert_eq!(select_output(&OutputKind::Alias, &module(other, other)), Err(Expected::ImportFrom));
    assert_eq!(Expected::ImportFrom.message(), "expected a `from ... import ...` statement");
    assert_eq!(Expected::Keyword.message(), "expected at least one keyword argument");
}

#[test]
fn py_parse_entry() {
    assert!(parses_as_expression(&OutputKind::Expr));
    assert!(parses_as_expression(&OutputKind::Identifier));
    assert!(parses_as_expression(&OutputKind::Keyword));
    assert!(!parses_as_expression(&OutputKind::Stmt));
    assert!(!parses_as_expression(&OutputKind::Alias));
}
