use quasiquodo::ts::comments::{Comments, JsDoc};
use swc_common::BytePos;
use swc_common::comments::{CommentKind, Comments as _};

#[test]
fn comments_allocate_unique_empty_spans() {
    let mut comments = Comments::new();
    let a = comments.span_with_comment("* first ");
    let b = comments.span_with_comment("");
    let c = comments.span_with_comment("* third ");
    assert_eq!(a.lo, u32::MAX - (1 << 16));
    assert_eq!(a.lo, a.hi);
    assert_eq!(b.lo, a.lo + 1);
    assert_eq!(c.lo, b.lo + 1);
}

#[test]
fn comments_attach_leading_block_comments() {
    let mut comments = Comments::new();
    let a = comments.span_with_comment("* A pet. ");
    let b = comments.span_with_comment("");
    let store = comments.store();
    let at_a = store.get_leading(BytePos(a.lo)).unwrap();
    assert_eq!(at_a.len(), 1);
    assert_eq!(at_a[0].kind, CommentKind::Block);
    assert_eq!(&*at_a[0].text, "* A pet. ");
    assert!(store.get_leading(BytePos(b.lo)).is_none());
    assert!(!store.has_trailing(BytePos(a.lo)));
    assert!(!store.has_trailing(BytePos(b.lo)));
}

#[test]
fn new_comments_hold_nothing() {
    let comments = Comments::new();
    let store = comments.store();
    for p in [0u32, 1, u32::MAX - (1 << 16), u32::MAX] {
        assert!(!store.has_leading(BytePos(p)));
        assert!(!store.has_trailing(BytePos(p)));
    }
}

#[test]
fn jsdoc_raw_text() {
    let doc = JsDoc::new("The pet's name.");
    assert_eq!(doc.raw_text(), "The pet's name.");
    assert_eq!(doc.clone(), doc);
}

#[test]
fn default_comments_are_new_comments() {
    let mut a = Comments::default();
    let mut b = Comments::new();
    assert_eq!(a.next_position(), b.next_position());
    let sa = a.span_with_comment("* x ");
    let sb = b.span_with_comment("* x ");
    assert_eq!((sa.lo, sa.hi), (sb.lo, sb.hi));
    assert!(!Comments::default().store().has_trailing(BytePos(sa.lo)));
}

#[test]
fn js_docs_are_equal_when_their_texts_are() {
    assert!(JsDoc::new("42") == JsDoc::new("42"));
    assert!(JsDoc::new("* a") != JsDoc::new("a"));
    assert!(JsDoc::new(" a") != JsDoc::new("a"));
    assert_eq!(JsDoc::new(&42.to_string()), JsDoc::new("42"));
}
