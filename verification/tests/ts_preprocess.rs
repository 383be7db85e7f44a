use quasiquodo::ts::context::context;
use quasiquodo::ts::doc_template::{doc_template, is_whitespace, ArgKind, DocTemplate};
use quasiquodo::ts::input::{VarType, Variable};
use quasiquodo::ts::lexed::{is_jsdoc, LexedComment, LexedToken, TokenKind};
use quasiquodo::ts::preprocess::{preprocess, preprocess_lexed, PreprocessError};

fn ts_var(name: &str, ty: &str) -> Variable {
    Variable { name: name.to_string(), ty: VarType::parse(ty).unwrap() }
}

#[test]
fn ts_preprocess_picks_stand_ins_by_type() {
    let vars = vec![
        ts_var("e", "Expr"),
        ts_var("s", "&str"),
        ts_var("d", "Decl"),
        ts_var("j", "JsDoc"),
        ts_var("o", "Option<String>"),
    ];
    let (out, stand_ins) = preprocess("#{j} f(#{e}, #{s}, #{o}); export #{d}", &vars).unwrap();
    assert_eq!(
        out,
        "/** __tsq_3__ */ f(__tsq_0__, \"__tsq_1__\", \"__tsq_4__\"); export var __tsq_2__"
    );
    assert_eq!(stand_ins.len(), 5);
    assert_eq!(stand_ins.get("__tsq_2__").unwrap().var.as_str(), "d");
}

#[test]
fn ts_preprocess_jsdoc_placeholders() {
    let vars = vec![ts_var("desc", "Option<String>"), ts_var("T", "TsType")];
    let (out, stand_ins) =
        preprocess("/** The #{desc} thing. */ type X = #{T};", &vars).unwrap();
    assert_eq!(out, "/** The __tsq_0__ thing. */ type X = __tsq_1__;");
    assert_eq!(stand_ins.get("__tsq_0__").unwrap().var.as_str(), "desc");
}

#[test]
fn ts_preprocess_ignores_non_jsdoc_comments() {
    let vars = vec![ts_var("a", "Expr")];
    let (out, stand_ins) = preprocess("/* #{a} */ /*** #{a} */ // #{a}\nx", &vars).unwrap();
    assert_eq!(out, "/* #{a} */ /*** #{a} */ // #{a}\nx");
    assert_eq!(stand_ins.len(), 0);
}

#[test]
fn ts_preprocess_jsdoc_accepts_strings_and_jsdocs() {
    for ty in ["&str", "String", "Box<str>", "JsDoc", "Option<&str>", "Option<String>", "Option<JsDoc>"] {
        let vars = vec![ts_var("desc", ty)];
        let (out, _) = preprocess("/** #{desc} */ x", &vars).unwrap();
        assert_eq!(out, "/** __tsq_0__ */ x");
    }
    for ty in ["Expr", "Option<Expr>", "Vec<String>"] {
        let vars = vec![ts_var("desc", ty)];
        let err = preprocess("/** #{desc} */ x", &vars).unwrap_err();
        assert!(matches!(&err, PreprocessError::JsDocVarType(n, _) if n == "desc"));
    }
}

#[test]
fn ts_preprocess_source_errors() {
    let err = preprocess("f(#{nope})", &[]).unwrap_err();
    assert!(matches!(&err, PreprocessError::UnboundVar(e) if e.0 == "nope"));
    assert_eq!(err.message(), "variable `#{nope}` not bound to a value");
}

#[test]
fn ts_preprocess_jsdoc_errors() {
    let vars = vec![ts_var("e", "Expr")];
    let err = preprocess("/** #{e} */ x", &vars).unwrap_err();
    assert!(matches!(&err, PreprocessError::JsDocVarType(n, VarType::Expr) if n == "e"));
    assert_eq!(
        err.message(),
        "variable `#{e}` in JSDoc comment must have type `&str`, `String`, or `JsDoc`, but has type `Expr`"
    );
    let err = preprocess("/** #{nope} */ x", &vars).unwrap_err();
    assert!(matches!(&err, PreprocessError::JsDocUnboundVar(e) if e.0 == "nope"));
    assert_eq!(err.message(), "variable `#{nope}` in JSDoc comment not bound to a value");
}

#[test]
fn ts_preprocess_lexed_uses_given_positions() {
    // `#{a}` in `x(#{a})`, positions counting from 1.
    let tokens = vec![
        LexedToken { kind: TokenKind::Word, lo: 1, hi: 2 },
        LexedToken { kind: TokenKind::Other, lo: 2, hi: 3 },
        LexedToken { kind: TokenKind::Hash, lo: 3, hi: 4 },
        LexedToken { kind: TokenKind::LBrace, lo: 4, hi: 5 },
        LexedToken { kind: TokenKind::Word, lo: 5, hi: 6 },
        LexedToken { kind: TokenKind::RBrace, lo: 6, hi: 7 },
        LexedToken { kind: TokenKind::Other, lo: 7, hi: 8 },
    ];
    let vars = vec![ts_var("a", "Expr")];
    let (out, _) = preprocess_lexed("x(#{a})", &vars, 1, tokens, &[]).unwrap();
    assert_eq!(out, "x(__tsq_0__)");
}

#[test]
fn ts_preprocess_lexed_comment_placement() {
    let vars = vec![ts_var("a", "String")];
    let comments = vec![LexedComment { lo: 1, block: true, text: "* #{a} ".to_string() }];
    let (out, _) = preprocess_lexed("/** #{a} */", &vars, 1, vec![], &comments).unwrap();
    assert_eq!(out, "/** __tsq_0__ */");
    // A comment whose text is not where it says is checked but not rewritten.
    let comments = vec![LexedComment { lo: 3, block: true, text: "* #{a} ".to_string() }];
    let (out, stand_ins) = preprocess_lexed("/** #{a} */", &vars, 1, vec![], &comments).unwrap();
    assert_eq!(out, "/** #{a} */");
    assert_eq!(stand_ins.len(), 1);
}

#[test]
fn line_comments_are_not_jsdoc() {
    let vars = vec![ts_var("a", "String")];
    // `//* #{a}` is a line comment whose text starts with one `*`: no JSDoc.
    let comments = vec![LexedComment { lo: 1, block: false, text: "* #{a}".to_string() }];
    let (out, stand_ins) = preprocess_lexed("//* #{a}\nx", &vars, 1, vec![], &comments).unwrap();
    assert_eq!(out, "//* #{a}\nx");
    assert_eq!(stand_ins.len(), 0);
    let (out, stand_ins) = preprocess("//* #{a}\nx", &vars).unwrap();
    assert_eq!(out, "//* #{a}\nx");
    assert_eq!(stand_ins.len(), 0);
    let (_, stand_ins) = preprocess("x", &[]).unwrap();
    let mut ctx = context(&[], stand_ins, &comments).unwrap();
    assert!(ctx.take_closest_doc_to(100).is_none());
}

#[test]
fn jsdoc_filter() {
    assert!(is_jsdoc("* doc "));
    assert!(!is_jsdoc("** not doc"));
    assert!(!is_jsdoc(" plain"));
    assert!(!is_jsdoc(""));
}

#[test]
fn context_docs_take_closest() {
    let vars = vec![ts_var("a", "Expr")];
    let comments = vec![
        LexedComment { lo: 10, block: true, text: "* first".to_string() },
        LexedComment { lo: 30, block: true, text: "* third".to_string() },
        LexedComment { lo: 20, block: true, text: "* second".to_string() },
        LexedComment { lo: 25, block: true, text: " not a doc".to_string() },
    ];
    let (_, stand_ins) = preprocess("#{a}", &vars).unwrap();
    let mut ctx = context(&vars, stand_ins, &comments).unwrap();
    let doc = ctx.take_closest_doc_to(25).unwrap();
    assert_eq!((doc.lo, doc.text.as_str()), (20, "* second"));
    let doc = ctx.take_closest_doc_to(25).unwrap();
    assert_eq!((doc.lo, doc.text.as_str()), (10, "* first"));
    assert!(ctx.take_closest_doc_to(25).is_none());
    assert!(ctx.take_closest_doc_to(30).is_none());
    let doc = ctx.take_closest_doc_to(31).unwrap();
    assert_eq!(doc.lo, 30);
    let a = ctx.stand_in("__tsq_0__").unwrap();
    assert_eq!(a.ident, "quote_var_a");
}

#[test]
fn context_later_doc_at_same_position_wins() {
    let comments = vec![
        LexedComment { lo: 5, block: true, text: "* old".to_string() },
        LexedComment { lo: 5, block: true, text: "* new".to_string() },
    ];
    let (_, stand_ins) = preprocess("x", &[]).unwrap();
    let mut ctx = context(&[], stand_ins, &comments).unwrap();
    assert_eq!(ctx.take_closest_doc_to(6).unwrap().text, "* new");
    assert!(ctx.take_closest_doc_to(6).is_none());
}

#[test]
fn ts_context_rejects_duplicate_names() {
    let vars = vec![ts_var("a", "Expr"), ts_var("a", "Expr")];
    let (_, stand_ins) = preprocess("#{a}", &vars).unwrap();
    let err = context(&vars, stand_ins, &[]).err().expect("expected error");
    assert_eq!((err.index, err.name.as_str()), (1, "a"));
    assert_eq!(err.message(), "duplicate variable name `a`");
}

fn doc_context(vars: &[Variable], source: &str) -> quasiquodo::ts::context::Context {
    let (_, stand_ins) = preprocess(source, vars).unwrap();
    context(vars, stand_ins, &[]).unwrap()
}

#[test]
fn doc_template_static() {
    let ctx = doc_context(&[], "x");
    match doc_template(&ctx, "* A pet. ").unwrap() {
        DocTemplate::Static(t) => assert_eq!(t, "* A pet. "),
        other => panic!("unexpected template {other:?}"),
    }
}

#[test]
fn doc_template_sole_optional() {
    let vars = vec![ts_var("doc", "Option<JsDoc>")];
    let ctx = doc_context(&vars, "/** #{doc} */ x");
    match doc_template(&ctx, "* __tsq_0__ ").unwrap() {
        DocTemplate::Optional { ident, format, is_str } => {
            assert_eq!(ident, "quote_var_doc");
            assert_eq!(format, "* {} ");
            assert!(!is_str);
        }
        other => panic!("unexpected template {other:?}"),
    }
}

#[test]
fn doc_template_format_arguments() {
    let vars = vec![ts_var("name", "String"), ts_var("doc", "JsDoc"), ts_var("opt", "Option<String>")];
    let ctx = doc_context(&vars, "/** #{name} #{doc} #{opt} */ x");
    match doc_template(&ctx, "* __tsq_0__: __tsq_1__ (__tsq_2__)").unwrap() {
        DocTemplate::Format { format, args } => {
            assert_eq!(format, "* {}: {} ({})");
            let kinds: Vec<_> = args.iter().map(|a| (a.ident.as_str(), a.kind)).collect();
            assert_eq!(
                kinds,
                vec![
                    ("quote_var_name", ArgKind::Value),
                    ("quote_var_doc", ArgKind::RawText),
                    ("quote_var_opt", ArgKind::StrOrDefault),
                ]
            );
        }
        other => panic!("unexpected template {other:?}"),
    }
    let err = doc_template(&ctx, "* __tsq_7__").unwrap_err();
    assert_eq!(err.0, "__tsq_7__");
}

#[test]
fn doc_template_optional_with_other_text_is_a_format() {
    let vars = vec![ts_var("desc", "Option<String>")];
    let ctx = doc_context(&vars, "/** #{desc} */ x");
    match doc_template(&ctx, "* Note: __tsq_0__").unwrap() {
        DocTemplate::Format { format, args } => {
            assert_eq!(format, "* Note: {}");
            assert_eq!(args.len(), 1);
            assert_eq!(args[0].kind, ArgKind::StrOrDefault);
        }
        other => panic!("unexpected template {other:?}"),
    }
}

#[test]
fn ts_preprocess_orders_comment_and_source_replacements() {
    let vars = vec![ts_var("a", "String"), ts_var("b", "Expr")];
    let (out, stand_ins) = preprocess("/** #{a} */ f(#{b}); /** #{a}! */ g()", &vars).unwrap();
    assert_eq!(out, "/** __tsq_0__ */ f(__tsq_1__); /** __tsq_0__! */ g()");
    assert_eq!(stand_ins.len(), 2);
}

#[test]
fn doc_template_sole_optional_with_unicode_whitespace() {
    let vars = vec![ts_var("doc", "Option<String>")];
    let ctx = doc_context(&vars, "/** #{doc} */ x");
    match doc_template(&ctx, "*\u{a0}__tsq_0__\u{2003}").unwrap() {
        DocTemplate::Optional { format, is_str, .. } => {
            assert_eq!(format, "*\u{a0}{}\u{2003}");
            assert!(is_str);
        }
        other => panic!("unexpected template {other:?}"),
    }
}

#[test]
fn whitespace_is_the_white_space_property() {
    for u in 0u32..=0x10FFFF {
        if let Some(c) = char::from_u32(u) {
            assert_eq!(is_whitespace(c), c.is_whitespace(), "U+{u:04X}");
        }
    }
}
