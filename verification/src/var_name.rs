//! Variable names: their text, compared character by character.

use vstd::prelude::*;
use vstd::std_specs::cmp::{PartialEqSpecImpl, PartialOrdSpecImpl};
use vstd::string::StrSliceExecFns;
use crate::text::texts_equal;
use core::cmp::Ordering;

verus! {

/// Whether the code point of `a` is below that of `b`.
pub open spec fn char_below(a: char, b: char) -> bool {
    (a as u32) < (b as u32)
}

fn is_char_below(a: char, b: char) -> (r: bool)
    ensures
        r == char_below(a, b),
{
    (a as u32) < (b as u32)
}

/// Whether `a` comes before `b` in the lexicographic order by code point,
/// which is also the order of their UTF-8 bytes.
pub open spec fn text_below(a: Seq<char>, b: Seq<char>) -> bool
    decreases a.len(),
{
    if b.len() == 0 {
        false
    } else if a.len() == 0 {
        true
    } else if a[0] != b[0] {
        char_below(a[0], b[0])
    } else {
        text_below(a.drop_first(), b.drop_first())
    }
}

proof fn lemma_text_below_skip(a: Seq<char>, b: Seq<char>, i: int)
    requires
        0 <= i < a.len(),
        i < b.len(),
    ensures
        a[i] != b[i] ==> text_below(a.skip(i), b.skip(i)) == char_below(a[i], b[i]),
        a[i] == b[i] ==> text_below(a.skip(i), b.skip(i)) == text_below(a.skip(i + 1), b.skip(i + 1)),
{
    assert(a.skip(i).drop_first() =~= a.skip(i + 1));
    assert(b.skip(i).drop_first() =~= b.skip(i + 1));
    assert(a.skip(i)[0] == a[i]);
    assert(b.skip(i)[0] == b[i]);
}

/// Of two texts, exactly one holds: the first comes before the second, they
/// are equal, or the second comes before the first.
pub proof fn lemma_text_below_trichotomy(a: Seq<char>, b: Seq<char>)
    ensures
        !(text_below(a, b) && text_below(b, a)),
        text_below(a, b) || text_below(b, a) || a == b,
        a == b ==> !text_below(a, b),
    decreases a.len(),
{
    if a.len() > 0 && b.len() > 0 {
        if a[0] == b[0] {
            lemma_text_below_trichotomy(a.drop_first(), b.drop_first());
            if a.drop_first() == b.drop_first() {
                assert(a =~= seq![a[0]] + a.drop_first());
                assert(b =~= seq![b[0]] + b.drop_first());
            }
        } else {
            vstd::utf8::char_u32_cast(a[0], a[0] as u32);
            vstd::utf8::char_u32_cast(b[0], b[0] as u32);
        }
    } else if a.len() == 0 && b.len() == 0 {
        assert(a =~= b);
    }
}

/// Whether `a` comes before `b`, and whether `b` comes before `a`.
fn texts_below(a: &str, b: &str) -> (r: (bool, bool))
    ensures
        r.0 == text_below(a@, b@),
        r.1 == text_below(b@, a@),
{
    let n = a.unicode_len();
    let m = b.unicode_len();
    let mut i: usize = 0;
    proof {
        assert(a@.skip(0) =~= a@);
        assert(b@.skip(0) =~= b@);
    }
    while i < n && i < m
        invariant
            i <= n,
            i <= m,
            n == a@.len(),
            m == b@.len(),
            text_below(a@, b@) == text_below(a@.skip(i as int), b@.skip(i as int)),
            text_below(b@, a@) == text_below(b@.skip(i as int), a@.skip(i as int)),
        decreases n - i,
    {
        let c = a.get_char(i);
        let d = b.get_char(i);
        proof {
            lemma_text_below_skip(a@, b@, i as int);
            lemma_text_below_skip(b@, a@, i as int);
        }
        if c != d {
            return (is_char_below(c, d), is_char_below(d, c));
        }
        i = i + 1;
    }
    (i < m, i < n)
}

/// The lexicographic order of two texts by code point.
pub open spec fn text_order(a: Seq<char>, b: Seq<char>) -> Ordering {
    if text_below(a, b) {
        Ordering::Less
    } else if text_below(b, a) {
        Ordering::Greater
    } else {
        Ordering::Equal
    }
}

/// A variable name.
#[derive(Debug, Eq, Hash, Ord)]
pub struct VarName(String);

impl VarName {
    /// The name's characters.
    pub closed spec fn view(self) -> Seq<char> {
        self.0@
    }

    pub fn from_str(name: &str) -> (r: Self)
        ensures
            r.view() == name@,
    {
        VarName(name.to_owned())
    }

    /// The name, borrowed.
    pub fn as_str(&self) -> (r: &str)
        ensures
            r@ == self.view(),
    {
        self.0.as_str()
    }

    /// The name, written out.
    pub fn to_string(&self) -> (r: String)
        ensures
            r@ == self.view(),
    {
        self.0.clone()
    }
}

impl Clone for VarName {
    fn clone(&self) -> (r: Self)
        ensures
            r.view() == self.view(),
    {
        VarName(self.0.clone())
    }
}

impl PartialEq for VarName {
    fn eq(&self, other: &Self) -> (r: bool) {
        texts_equal(self.0.as_str(), other.0.as_str())
    }
}

impl PartialEqSpecImpl for VarName {
    open spec fn obeys_eq_spec() -> bool {
        true
    }

    open spec fn eq_spec(&self, other: &VarName) -> bool {
        self.view() == other.view()
    }
}

impl PartialOrd for VarName {
    fn partial_cmp(&self, other: &Self) -> (r: Option<Ordering>) {
        let (below, above) = texts_below(self.0.as_str(), other.0.as_str());
        if below {
            Some(Ordering::Less)
        } else if above {
            Some(Ordering::Greater)
        } else {
            Some(Ordering::Equal)
        }
    }
}

/// Names compare as their texts do: `partial_cmp` says `Equal` exactly when
/// the texts, and so the names by `==`, are equal, and it is antisymmetric.
pub proof fn lemma_var_name_order(a: VarName, b: VarName)
    ensures
        (text_order(a.view(), b.view()) == Ordering::Equal) <==> a.view() == b.view(),
        (text_order(a.view(), b.view()) == Ordering::Less) <==> (text_order(b.view(), a.view())
            == Ordering::Greater),
{
    lemma_text_below_trichotomy(a.view(), b.view());
}

impl PartialOrdSpecImpl for VarName {
    open spec fn obeys_partial_cmp_spec() -> bool {
        true
    }

    open spec fn partial_cmp_spec(&self, other: &VarName) -> Option<Ordering> {
        Some(text_order(self.view(), other.view()))
    }
}

} // verus!
