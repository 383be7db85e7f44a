use quasiquodo::bindings::VarName;

#[test]
fn var_names_keep_compare_and_order_as_their_text() {
    let names = ["", "a", "ab", "b", "B", "é", "z9", "ζ", "𝔸", "a\u{10FFFF}"];
    for a in names {
        assert_eq!(VarName::from_str(a).to_string(), a);
        assert_eq!(VarName::from_str(a).as_str(), a);
        for b in names {
            let (x, y) = (VarName::from_str(a), VarName::from_str(b));
            assert_eq!(x == y, a == b, "{a:?} {b:?}");
            assert_eq!(x.partial_cmp(&y), Some(a.cmp(b)), "{a:?} {b:?}");
            assert_eq!(x.cmp(&y), a.cmp(b), "{a:?} {b:?}");
        }
    }
}
