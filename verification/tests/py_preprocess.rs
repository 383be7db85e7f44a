use quasiquodo::py::context::context;
use quasiquodo::py::format_template::format_template;
use quasiquodo::py::input::{VarType, Variable};
use quasiquodo::py::preprocess::{preprocess, PreprocessError};

fn py_var(name: &str, ty: &str) -> Variable {
    Variable { name: name.to_string(), ty: VarType::parse(ty).unwrap() }
}

#[test]
fn preprocess_replaces_placeholders_with_stand_ins() {
    let vars = vec![py_var("a", "Expr"), py_var("b", "Identifier")];
    let (out, stand_ins) = preprocess("#{a} + #{b}(#{a})", &vars).unwrap();
    assert_eq!(out, "__pyq_0__ + __pyq_1__(__pyq_0__)");
    assert_eq!(stand_ins.len(), 2);
    assert_eq!(stand_ins.get("__pyq_0__").unwrap().var.as_str(), "a");
    assert_eq!(stand_ins.get("__pyq_1__").unwrap().var.as_str(), "b");
    assert!(stand_ins.get("__pyq_2__").is_none());
}

#[test]
fn preprocess_leaves_source_without_placeholders() {
    let (out, stand_ins) = preprocess("x = 'a #{b}' # #{c}", &[]).unwrap();
    assert_eq!(out, "x = 'a #{b}' # #{c}");
    assert_eq!(stand_ins.len(), 0);
}

#[test]
fn preprocess_keeps_multibyte_text() {
    let vars = vec![py_var("name", "Expr")];
    let (out, _) = preprocess("ü = #{name} + 'é'", &vars).unwrap();
    assert_eq!(out, "ü = __pyq_0__ + 'é'");
}

#[test]
fn preprocess_string_position_accepts_strings() {
    let vars = vec![py_var("x", "Expr"), py_var("greeting", "Option<&str>")];
    let (out, stand_ins) = preprocess("f\"hi #{greeting}\"", &vars).unwrap();
    assert_eq!(out, "f\"hi __pyq_1__\"");
    assert_eq!(stand_ins.get("__pyq_1__").unwrap().var.as_str(), "greeting");
}

#[test]
fn preprocess_unbound_variable() {
    let vars = vec![py_var("a", "Expr")];
    let err = preprocess("#{a} + #{missing}", &vars).unwrap_err();
    match &err {
        PreprocessError::UnboundVar(e) => assert_eq!(e.0, "missing"),
        other => panic!("unexpected error {other:?}"),
    }
    assert_eq!(err.message(), "variable `#{missing}` not bound to a value");
}

#[test]
fn preprocess_string_position_rejects_optional_non_strings() {
    let vars = vec![py_var("e", "Option<Expr>")];
    let err = preprocess("f\"#{e}\"", &vars).unwrap_err();
    assert!(matches!(err, PreprocessError::StringVarType(_, _)));
}

#[test]
fn preprocess_string_position_rejects_non_strings() {
    let vars = vec![py_var("e", "Expr")];
    let err = preprocess("\"\"\"doc #{e}\"\"\"", &vars).unwrap_err();
    match &err {
        PreprocessError::StringVarType(name, ty) => {
            assert_eq!(name, "e");
            assert_eq!(*ty, VarType::Expr);
        }
        other => panic!("unexpected error {other:?}"),
    }
    assert_eq!(
        err.message(),
        "variable `#{e}` in string literal must be `&str` or `String`, but is `Expr`"
    );
}

#[test]
fn preprocess_reports_the_first_failure() {
    let vars = vec![py_var("e", "Expr")];
    let err = preprocess("#{x} \"\"\"#{e}\"\"\"", &vars).unwrap_err();
    assert!(matches!(err, PreprocessError::UnboundVar(_)));
}

#[test]
fn preprocess_uses_the_last_variable_of_a_name() {
    let vars = vec![py_var("a", "Expr"), py_var("a", "Stmt")];
    let (out, _) = preprocess("#{a}", &vars).unwrap();
    assert_eq!(out, "__pyq_1__");
}

#[test]
fn context_binds_variables_and_resolves_stand_ins() {
    let vars = vec![py_var("a", "Expr"), py_var("label", "String")];
    let (out, stand_ins) = preprocess("#{a}(\"\"\"#{label}\"\"\")", &vars).unwrap();
    assert_eq!(out, "__pyq_0__(\"\"\"__pyq_1__\"\"\")");
    let ctx = context(&vars, stand_ins).unwrap();
    let a = ctx.stand_in("__pyq_0__").unwrap();
    assert_eq!(a.ident, "quote_var_a");
    assert_eq!(a.ty, VarType::Expr);
    let label = ctx.stand_in("__pyq_1__").unwrap();
    assert_eq!(label.ident, "quote_var_label");
    assert!(ctx.stand_in("__pyq_9__").is_none());
}

#[test]
fn context_rejects_duplicate_names() {
    let vars = vec![py_var("a", "Expr"), py_var("b", "Expr"), py_var("a", "Stmt")];
    let (_, stand_ins) = preprocess("#{b}", &vars).unwrap();
    let err = context(&vars, stand_ins).err().expect("expected error");
    assert_eq!(err.index, 2);
    assert_eq!(err.name, "a");
    assert_eq!(err.message(), "duplicate variable name `a`");
}

#[test]
fn format_template_for_string_literal() {
    let vars = vec![py_var("name", "&str"), py_var("title", "Option<String>")];
    let (out, stand_ins) = preprocess("\"\"\"Hi #{title} #{name}!\"\"\"", &vars).unwrap();
    assert_eq!(out, "\"\"\"Hi __pyq_1__ __pyq_0__!\"\"\"");
    let ctx = context(&vars, stand_ins).unwrap();
    let (format, args) = format_template(&ctx, "Hi __pyq_1__ __pyq_0__!").unwrap();
    assert_eq!(format, "Hi {} {}!");
    assert_eq!(
        args,
        vec![("quote_var_title".to_string(), true), ("quote_var_name".to_string(), false)]
    );
    let err = format_template(&ctx, "__pyq_5__").unwrap_err();
    assert_eq!(err.0, "__pyq_5__");
}
