//! Shared pieces of the variable type syntax: white space, and comparing
//! names with literals.

use vstd::prelude::*;
use crate::segments::{word_run, IdentClass};
use crate::text::{id_continue_py, is_ascii_letter};

verus! {

/// White space between type tokens: Unicode `White_Space`, and the two
/// directional marks that Rust's lexer also skips.
pub open spec fn is_type_space(c: char) -> bool {
    let u = c as u32;
    (9 <= u <= 13) || u == 32 || u == 0x85 || u == 0xA0 || u == 0x1680 || (0x2000 <= u <= 0x200A)
        || u == 0x200E || u == 0x200F || u == 0x2028 || u == 0x2029 || u == 0x202F || u == 0x205F
        || u == 0x3000
}

/// The first index at or after `i` that is not white space.
pub open spec fn skip_space(s: Seq<char>, i: int) -> int
    decreases s.len() - i,
{
    if 0 <= i < s.len() && is_type_space(s[i]) {
        skip_space(s, i + 1)
    } else {
        i
    }
}

pub proof fn lemma_skip_space(s: Seq<char>, i: int)
    requires
        0 <= i <= s.len(),
    ensures
        i <= skip_space(s, i) <= s.len(),
        skip_space(s, i) < s.len() ==> !is_type_space(s[skip_space(s, i)]),
    decreases s.len() - i,
{
    if i < s.len() && is_type_space(s[i]) {
        lemma_skip_space(s, i + 1);
    }
}

/// Computes `skip_space`.
pub fn skip_type_space(s: &[char], i: usize) -> (r: usize)
    requires
        i <= s.len(),
    ensures
        r == skip_space(s@, i as int),
        i <= r <= s.len(),
{
    let mut k = i;
    while k < s.len() && is_space_char(s[k])
        invariant
            i <= k <= s.len(),
            skip_space(s@, i as int) == skip_space(s@, k as int),
        decreases s.len() - k,
    {
        k = k + 1;
    }
    k
}

fn is_space_char(c: char) -> (r: bool)
    ensures
        r == is_type_space(c),
{
    let u = c as u32;
    (9 <= u && u <= 13) || u == 32 || u == 0x85 || u == 0xA0 || u == 0x1680 || (0x2000 <= u && u
        <= 0x200A) || u == 0x200E || u == 0x200F || u == 0x2028 || u == 0x2029 || u == 0x202F || u
        == 0x205F || u == 0x3000
}

/// Does `s[from..to]` equal the literal `lit`?
pub fn eq_lit(s: &[char], from: usize, to: usize, lit: &str) -> (r: bool)
    requires
        from <= to <= s.len(),
    ensures
        r == (s@.subrange(from as int, to as int) == lit@),
{
    let l = crate::text::chars_of(lit);
    if to - from != l.len() {
        return false;
    }
    let mut k: usize = 0;
    while k < l.len()
        invariant
            to - from == l.len(),
            from <= to <= s.len(),
            k <= l.len(),
            l@ == lit@,
            forall|j: int| 0 <= j < k ==> s@[from + j] == l@[j],
        decreases l.len() - k,
    {
        if s[from + k] != l[k] {
            assert(s@.subrange(from as int, to as int)[k as int] != l@[k as int]);
            return false;
        }
        k = k + 1;
    }
    assert(s@.subrange(from as int, to as int) =~= l@);
    true
}

/// Why a variable type failed to parse (as a specification value).
pub enum TypeErrorView {
    /// No type where one was expected.
    ExpectedType,
    /// No `<` after `Box`, `Option` or `Vec`.
    ExpectedOpen,
    /// No `>` closing a wrapper type.
    ExpectedClose,
    /// A name that is not a supported variable type.
    Unsupported(Seq<char>),
    /// Text left over after a complete type.
    Trailing,
}

/// Why a variable type failed to parse.
#[derive(Debug, PartialEq, Eq)]
pub enum ParseTypeError {
    /// No type where one was expected.
    ExpectedType,
    /// No `<` after `Box`, `Option` or `Vec`.
    ExpectedOpen,
    /// No `>` closing a wrapper type.
    ExpectedClose,
    /// A name that is not a supported variable type.
    Unsupported(String),
    /// Text left over after a complete type.
    Trailing,
}

impl ParseTypeError {
    pub open spec fn view(self) -> TypeErrorView {
        match self {
            ParseTypeError::ExpectedType => TypeErrorView::ExpectedType,
            ParseTypeError::ExpectedOpen => TypeErrorView::ExpectedOpen,
            ParseTypeError::ExpectedClose => TypeErrorView::ExpectedClose,
            ParseTypeError::Unsupported(s) => TypeErrorView::Unsupported(s@),
            ParseTypeError::Trailing => TypeErrorView::Trailing,
        }
    }
}

/// A wrapper type constructor named in the type syntax.
#[derive(Clone, Copy, Debug, PartialEq, Eq, Structural)]
pub enum WrapperName {
    Box,
    Option,
    Vec,
}

/// The wrapper that `name` names, if any.
pub open spec fn wrapper_named(name: Seq<char>) -> Option<WrapperName> {
    if name == "Box"@ {
        Some(WrapperName::Box)
    } else if name == "Option"@ {
        Some(WrapperName::Option)
    } else if name == "Vec"@ {
        Some(WrapperName::Vec)
    } else {
        None
    }
}

/// Computes `wrapper_named` on `s[from..to]`.
pub fn wrapper_at(s: &[char], from: usize, to: usize) -> (r: Option<WrapperName>)
    requires
        from <= to <= s.len(),
    ensures
        r == wrapper_named(s@.subrange(from as int, to as int)),
{
    if eq_lit(s, from, to, "Box") {
        Some(WrapperName::Box)
    } else if eq_lit(s, from, to, "Option") {
        Some(WrapperName::Option)
    } else if eq_lit(s, from, to, "Vec") {
        Some(WrapperName::Vec)
    } else {
        None
    }
}

/// A run of identifier-continue characters from `a` to `b`, followed by the
/// end or by a character that does not continue an identifier, is a word run.
pub proof fn lemma_word_run_exact(s: Seq<char>, a: int, b: int)
    requires
        0 <= a <= b <= s.len(),
        forall|j: int| a <= j < b ==> id_continue_py(#[trigger] s[j]),
        b == s.len() || !id_continue_py(s[b]),
    ensures
        word_run(s, a, IdentClass::Python) == b,
    decreases b - a,
{
    if a < b {
        lemma_word_run_exact(s, a + 1, b);
    }
}

/// The name of a wrapper.
pub open spec fn wrapper_name_text(w: WrapperName) -> Seq<char> {
    match w {
        WrapperName::Box => "Box"@,
        WrapperName::Option => "Option"@,
        WrapperName::Vec => "Vec"@,
    }
}

/// How a wrapper type's text begins: its name and `<`.
pub open spec fn wrapper_open_text(w: WrapperName) -> Seq<char> {
    match w {
        WrapperName::Box => "Box<"@,
        WrapperName::Option => "Option<"@,
        WrapperName::Vec => "Vec<"@,
    }
}

/// A wrapper's opening text is its name, all ASCII letters, then `<`; the
/// name names the wrapper and no plain type.
pub proof fn lemma_wrapper_text(w: WrapperName)
    ensures
        wrapper_open_text(w).len() == wrapper_name_text(w).len() + 1,
        wrapper_name_text(w).len() > 0,
        wrapper_open_text(w).take(wrapper_name_text(w).len() as int) == wrapper_name_text(w),
        wrapper_open_text(w)[wrapper_name_text(w).len() as int] == '<',
        forall|j: int|
            0 <= j < wrapper_name_text(w).len() ==> is_ascii_letter(
                #[trigger] wrapper_open_text(w)[j],
            ),
        wrapper_named(wrapper_name_text(w)) == Some(w),
{
    reveal_strlit("Box<");
    reveal_strlit("Option<");
    reveal_strlit("Vec<");
    reveal_strlit("Box");
    reveal_strlit("Option");
    reveal_strlit("Vec");
    let o = wrapper_open_text(w);
    let n = wrapper_name_text(w);
    match w {
        WrapperName::Box => {
            assert("Box<"@[0] == 'B' && "Box<"@[1] == 'o' && "Box<"@[2] == 'x' && "Box<"@[3] == '<');
            assert("Box"@[0] == 'B' && "Box"@[1] == 'o' && "Box"@[2] == 'x');
            assert(o.take(3) =~= n);
            assert forall|j: int| 0 <= j < 3 implies is_ascii_letter(#[trigger] o[j]) by {
                if j == 0 {} else if j == 1 {} else {}
            }
        },
        WrapperName::Option => {
            assert("Option<"@[0] == 'O' && "Option<"@[1] == 'p' && "Option<"@[2] == 't'
                && "Option<"@[3] == 'i' && "Option<"@[4] == 'o' && "Option<"@[5] == 'n'
                && "Option<"@[6] == '<');
            assert("Option"@[0] == 'O' && "Option"@[1] == 'p' && "Option"@[2] == 't'
                && "Option"@[3] == 'i' && "Option"@[4] == 'o' && "Option"@[5] == 'n');
            assert(o.take(6) =~= n);
            assert forall|j: int| 0 <= j < 6 implies is_ascii_letter(#[trigger] o[j]) by {
                if j == 0 {} else if j == 1 {} else if j == 2 {} else if j == 3 {} else if j == 4 {} else {}
            }
        },
        WrapperName::Vec => {
            assert("Vec<"@[0] == 'V' && "Vec<"@[1] == 'e' && "Vec<"@[2] == 'c' && "Vec<"@[3] == '<');
            assert("Vec"@[0] == 'V' && "Vec"@[1] == 'e' && "Vec"@[2] == 'c');
            assert(o.take(3) =~= n);
            assert forall|j: int| 0 <= j < 3 implies is_ascii_letter(#[trigger] o[j]) by {
                if j == 0 {} else if j == 1 {} else {}
            }
        },
    }
}

} // verus!
