//! Character-level helpers shared by the scanners: character classes,
//! conversions between `str` and character vectors, UTF-8 widths and
//! decimal rendering.

use vstd::prelude::*;
use vstd::string::StrSliceExecFns;

verus! {

broadcast use vstd::string::group_string_axioms;

/// Whether `unicode_ident` classifies `c` as `XID_Start`.
pub uninterp spec fn xid_start(c: char) -> bool;

/// Whether `unicode_ident` classifies `c` as `XID_Continue`.
pub uninterp spec fn xid_continue(c: char) -> bool;

pub open spec fn is_ascii_lower(c: char) -> bool {
    97 <= (c as u32) <= 122
}

pub open spec fn is_ascii_upper(c: char) -> bool {
    65 <= (c as u32) <= 90
}

pub open spec fn is_ascii_letter(c: char) -> bool {
    is_ascii_lower(c) || is_ascii_upper(c)
}

pub open spec fn is_ascii_digit(c: char) -> bool {
    48 <= (c as u32) <= 57
}

/// Identifier start for Python placeholder names: the ASCII letters among
/// ASCII characters, `XID_Start` elsewhere.
pub open spec fn id_start_py(c: char) -> bool {
    if (c as u32) < 128 {
        is_ascii_letter(c)
    } else {
        xid_start(c)
    }
}

/// `XID_Continue`, with its ASCII part spelled out: letters, digits and `_`.
pub open spec fn id_continue_py(c: char) -> bool {
    if (c as u32) < 128 {
        is_ascii_letter(c) || is_ascii_digit(c) || c == '_'
    } else {
        xid_continue(c)
    }
}

/// JavaScript identifier start, with its ASCII part spelled out: letters,
/// `$` and `_`.
pub open spec fn id_start_js(c: char) -> bool {
    if (c as u32) < 128 {
        is_ascii_letter(c) || c == '$' || c == '_'
    } else {
        js_ident_start(c)
    }
}

/// JavaScript identifier part, with its ASCII part spelled out: letters,
/// digits, `$` and `_`.
pub open spec fn id_continue_js(c: char) -> bool {
    if (c as u32) < 128 {
        is_ascii_letter(c) || is_ascii_digit(c) || c == '$' || c == '_'
    } else {
        js_ident_continue(c)
    }
}

/// `unicode_ident::is_xid_start`: the character's `XID_Start` property.
/// Claimed: the result is the named property of `c`; for ASCII characters it
/// holds exactly of the letters (the crate's ASCII table).
#[verifier::external_body]
pub(crate) fn is_xid_start(c: char) -> (r: bool)
    ensures
        r == xid_start(c),
        (c as u32) < 128 ==> (r <==> is_ascii_letter(c)),
{
    unicode_ident::is_xid_start(c)
}

/// `unicode_ident::is_xid_continue`: the character's `XID_Continue` property.
/// Claimed: the result is the named property of `c`; for ASCII characters it
/// holds exactly of letters, digits and `_` (the crate's ASCII table).
#[verifier::external_body]
pub(crate) fn is_xid_continue(c: char) -> (r: bool)
    ensures
        r == xid_continue(c),
        (c as u32) < 128 ==> (r <==> (is_ascii_letter(c) || is_ascii_digit(c) || c == '_')),
{
    unicode_ident::is_xid_continue(c)
}

/// Whether SWC's `Ident::is_valid_start` accepts `c`.
pub uninterp spec fn js_ident_start(c: char) -> bool;

/// Whether SWC's `Ident::is_valid_continue` accepts `c`.
pub uninterp spec fn js_ident_continue(c: char) -> bool;

/// `swc_ecma_ast::Ident::is_valid_start`: may `c` begin a JavaScript identifier?
/// Claimed: the result is the named property of `c`; for ASCII characters it
/// holds exactly of letters, `$` and `_` (the crate's ASCII table); other
/// characters go through `unicode_id_start`, which is left to the name.
#[verifier::external_body]
pub(crate) fn is_js_ident_start(c: char) -> (r: bool)
    ensures
        r == js_ident_start(c),
        (c as u32) < 128 ==> (r <==> (is_ascii_letter(c) || c == '$' || c == '_')),
{
    swc_ecma_ast::Ident::is_valid_start(c)
}

/// `swc_ecma_ast::Ident::is_valid_continue`: may `c` continue a JavaScript
/// identifier? Claimed: the result is the named property of `c`; for ASCII
/// characters it holds exactly of letters, digits, `$` and `_`.
#[verifier::external_body]
pub(crate) fn is_js_ident_continue(c: char) -> (r: bool)
    ensures
        r == js_ident_continue(c),
        (c as u32) < 128 ==> (r <==> (is_ascii_letter(c) || is_ascii_digit(c) || c == '$'
            || c == '_')),
{
    swc_ecma_ast::Ident::is_valid_continue(c)
}

/// `String::push`: appends one character.
#[verifier::external_body]
pub(crate) fn push_char(s: &mut String, c: char)
    ensures
        final(s)@ == old(s)@.push(c),
{
    s.push(c)
}

/// The characters of `s`, in order.
pub fn chars_of(s: &str) -> (v: Vec<char>)
    ensures
        v@ == s@,
{
    let mut v: Vec<char> = Vec::new();
    for c in it: s.chars()
        invariant
            v@ == it.seq().take(it.index() as int),
    {
        v.push(c);
    }
    v
}

/// A string holding exactly the characters `v`.
pub fn string_from_chars(v: &[char]) -> (s: String)
    ensures
        s@ == v@,
{
    let mut s = String::new();
    let mut i: usize = 0;
    while i < v.len()
        invariant
            i <= v.len(),
            s@ == v@.take(i as int),
        decreases v.len() - i,
    {
        push_char(&mut s, v[i]);
        i = i + 1;
        assert(s@ == v@.take(i as int));
    }
    assert(v@.take(v@.len() as int) == v@);
    s
}

/// Appends the characters `v[from..to]` to `s`.
pub fn push_chars(s: &mut String, v: &[char], from: usize, to: usize)
    requires
        from <= to <= v.len(),
    ensures
        final(s)@ == old(s)@ + v@.subrange(from as int, to as int),
{
    let mut i: usize = from;
    while i < to
        invariant
            from <= i <= to <= v.len(),
            s@ == old(s)@ + v@.subrange(from as int, i as int),
        decreases to - i,
    {
        push_char(s, v[i]);
        i = i + 1;
        assert(s@ == old(s)@ + v@.subrange(from as int, i as int));
    }
}

/// Do `v[at..]` begin with `pat`?
pub open spec fn occurs_at(v: Seq<char>, at: int, pat: Seq<char>) -> bool {
    0 <= at && at + pat.len() <= v.len() && v.subrange(at, at + pat.len()) == pat
}

/// Executable `occurs_at`.
pub fn matches_at(v: &[char], at: usize, pat: &[char]) -> (r: bool)
    ensures
        r == occurs_at(v@, at as int, pat@),
{
    if at > v.len() || pat.len() > v.len() - at {
        return false;
    }
    let mut k: usize = 0;
    while k < pat.len()
        invariant
            at + pat.len() <= v.len(),
            k <= pat.len(),
            forall|j: int| 0 <= j < k ==> v@[at + j] == pat@[j],
        decreases pat.len() - k,
    {
        if v[at + k] != pat[k] {
            assert(v@.subrange(at as int, at + pat.len())[k as int] != pat@[k as int]);
            return false;
        }
        k = k + 1;
    }
    assert(v@.subrange(at as int, at + pat.len()) =~= pat@);
    true
}

/// The number of bytes that `c` takes in UTF-8.
pub open spec fn utf8_width(c: char) -> nat {
    if (c as u32) < 0x80 {
        1
    } else if (c as u32) < 0x800 {
        2
    } else if (c as u32) < 0x10000 {
        3
    } else {
        4
    }
}

/// The UTF-8 length in bytes of the characters `s`.
pub open spec fn utf8_len(s: Seq<char>) -> nat
    decreases s.len(),
{
    if s.len() == 0 {
        0
    } else {
        utf8_len(s.drop_last()) + utf8_width(s.last())
    }
}

/// The byte offset of the character index `i` in `s`.
pub open spec fn byte_offset(s: Seq<char>, i: int) -> nat {
    utf8_len(s.take(i))
}

/// Executable `utf8_width`.
pub fn char_width(c: char) -> (w: usize)
    ensures
        w == utf8_width(c),
        1 <= w <= 4,
{
    let u = c as u32;
    if u < 0x80 {
        1
    } else if u < 0x800 {
        2
    } else if u < 0x10000 {
        3
    } else {
        4
    }
}

pub proof fn lemma_utf8_len_push(s: Seq<char>, c: char)
    ensures
        utf8_len(s.push(c)) == utf8_len(s) + utf8_width(c),
{
    assert(s.push(c).drop_last() =~= s);
}

pub proof fn lemma_utf8_len_bounds(s: Seq<char>)
    ensures
        s.len() <= utf8_len(s) <= 4 * s.len(),
    decreases s.len(),
{
    if s.len() > 0 {
        lemma_utf8_len_bounds(s.drop_last());
    }
}

pub proof fn lemma_utf8_len_concat(a: Seq<char>, b: Seq<char>)
    ensures
        utf8_len(a + b) == utf8_len(a) + utf8_len(b),
    decreases b.len(),
{
    if b.len() == 0 {
        assert(a + b =~= a);
    } else {
        lemma_utf8_len_concat(a, b.drop_last());
        assert((a + b).drop_last() =~= a + b.drop_last());
    }
}

pub proof fn lemma_byte_offset_step(s: Seq<char>, i: int)
    requires
        0 <= i < s.len(),
    ensures
        byte_offset(s, i + 1) == byte_offset(s, i) + utf8_width(s[i]),
{
    assert(s.take(i + 1) =~= s.take(i).push(s[i]));
    lemma_utf8_len_push(s.take(i), s[i]);
}

pub proof fn lemma_byte_offset_mono(s: Seq<char>, i: int, j: int)
    requires
        0 <= i <= j <= s.len(),
    ensures
        byte_offset(s, i) + (j - i) <= byte_offset(s, j),
    decreases j - i,
{
    if i < j {
        lemma_byte_offset_mono(s, i, j - 1);
        lemma_byte_offset_step(s, j - 1);
    }
}

/// The decimal digit character for `d < 10`.
pub open spec fn digit_char(d: nat) -> char {
    if d == 0 {
        '0'
    } else if d == 1 {
        '1'
    } else if d == 2 {
        '2'
    } else if d == 3 {
        '3'
    } else if d == 4 {
        '4'
    } else if d == 5 {
        '5'
    } else if d == 6 {
        '6'
    } else if d == 7 {
        '7'
    } else if d == 8 {
        '8'
    } else {
        '9'
    }
}

/// The decimal rendering of `n`, without leading zeros.
pub open spec fn decimal(n: nat) -> Seq<char>
    decreases n,
{
    if n < 10 {
        seq![digit_char(n)]
    } else {
        decimal(n / 10).push(digit_char(n % 10))
    }
}

fn digit(d: usize) -> (c: char)
    requires
        d < 10,
    ensures
        c == digit_char(d as nat),
{
    match d {
        0 => '0',
        1 => '1',
        2 => '2',
        3 => '3',
        4 => '4',
        5 => '5',
        6 => '6',
        7 => '7',
        8 => '8',
        _ => '9',
    }
}

/// Appends the decimal rendering of `n` to `s`.
pub fn push_decimal(s: &mut String, n: usize)
    ensures
        final(s)@ == old(s)@ + decimal(n as nat),
    decreases n,
{
    if n >= 10 {
        push_decimal(s, n / 10);
    }
    push_char(s, digit(n % 10));
    assert(decimal(n as nat) =~= if n < 10 {
        seq![digit_char(n as nat)]
    } else {
        decimal((n / 10) as nat).push(digit_char((n % 10) as nat))
    });
}

pub proof fn lemma_decimal_nonempty(n: nat)
    ensures
        decimal(n).len() >= 1,
        n >= 10 ==> decimal(n).len() >= 2,
    decreases n,
{
    if n >= 10 {
        lemma_decimal_nonempty(n / 10);
    }
}

/// Distinct numbers have distinct decimal renderings.
pub proof fn lemma_decimal_injective(a: nat, b: nat)
    requires
        decimal(a) == decimal(b),
    ensures
        a == b,
    decreases a,
{
    lemma_decimal_nonempty(a);
    lemma_decimal_nonempty(b);
    let da = decimal(a);
    let db = decimal(b);
    if a >= 10 && b >= 10 {
        assert(da == decimal(a / 10).push(digit_char(a % 10)));
        assert(db == decimal(b / 10).push(digit_char(b % 10)));
        assert(da.drop_last() =~= decimal(a / 10));
        assert(db.drop_last() =~= decimal(b / 10));
        lemma_decimal_injective(a / 10, b / 10);
        assert(da.last() == digit_char(a % 10));
        assert(db.last() == digit_char(b % 10));
        assert(digit_char(a % 10) == digit_char(b % 10));
        assert(a % 10 == b % 10);
        assert(a == 10 * (a / 10) + a % 10) by (nonlinear_arith);
        assert(b == 10 * (b / 10) + b % 10) by (nonlinear_arith);
    } else if a < 10 && b < 10 {
        assert(da == seq![digit_char(a)]);
        assert(db == seq![digit_char(b)]);
        assert(da[0] == digit_char(a));
        assert(db[0] == digit_char(b));
        assert(digit_char(a) == digit_char(b));
    } else {
        assert(da.len() != db.len());
    }
}

/// Our UTF-8 length agrees with vstd's encoding of the characters.
pub proof fn lemma_utf8_len_encoding(s: Seq<char>)
    ensures
        utf8_len(s) == vstd::utf8::encode_utf8(s).len(),
    decreases s.len(),
{
    if s.len() > 0 {
        lemma_utf8_len_encoding(s.drop_first());
        vstd::utf8::char_is_scalar(s[0]);
        assert(s =~= seq![s[0]] + s.drop_first());
        lemma_utf8_len_concat(seq![s[0]], s.drop_first());
        let one = seq![s[0]];
        assert(one.drop_last() =~= Seq::<char>::empty());
        assert(utf8_len(Seq::<char>::empty()) == 0);
        assert(one.last() == s[0]);
        assert(utf8_len(one) == utf8_len(one.drop_last()) + utf8_width(one.last()));
    }
}

/// Whether two texts have the same characters.
pub fn texts_equal(a: &str, b: &str) -> (r: bool)
    ensures
        r == (a@ == b@),
{
    let n = a.unicode_len();
    if n != b.unicode_len() {
        return false;
    }
    let mut i: usize = 0;
    while i < n
        invariant
            i <= n,
            n == a@.len(),
            n == b@.len(),
            forall|j: int| 0 <= j < i ==> a@[j] == b@[j],
        decreases n - i,
    {
        if a.get_char(i) != b.get_char(i) {
            return false;
        }
        i = i + 1;
    }
    assert(a@ =~= b@);
    true
}

/// The encoding of a concatenation is the concatenation of the encodings.
pub proof fn lemma_encode_utf8_concat(a: Seq<char>, b: Seq<char>)
    ensures
        vstd::utf8::encode_utf8(a + b) == vstd::utf8::encode_utf8(a) + vstd::utf8::encode_utf8(b),
    decreases a.len(),
{
    if a.len() > 0 {
        lemma_encode_utf8_concat(a.drop_first(), b);
        assert((a + b).drop_first() =~= a.drop_first() + b);
        assert((a + b)[0] == a[0]);
    } else {
        assert(a + b =~= b);
    }
}

/// The bytes between the byte offsets of character indices `i` and `j` in
/// the encoding of `s` are the encoding of the characters from `i` to `j`.
pub proof fn lemma_encode_utf8_range(s: Seq<char>, i: int, j: int)
    requires
        0 <= i <= j <= s.len(),
    ensures
        vstd::utf8::encode_utf8(s).subrange(byte_offset(s, i) as int, byte_offset(s, j) as int)
            == vstd::utf8::encode_utf8(s.subrange(i, j)),
        byte_offset(s, j) <= vstd::utf8::encode_utf8(s).len(),
{
    let a = s.take(i);
    let m = s.subrange(i, j);
    let z = s.skip(j);
    assert(s =~= a + m + z);
    assert(s.take(j) =~= a + m);
    lemma_encode_utf8_concat(a + m, z);
    lemma_encode_utf8_concat(a, m);
    lemma_utf8_len_encoding(a);
    lemma_utf8_len_encoding(a + m);
    let ea = vstd::utf8::encode_utf8(a);
    let em = vstd::utf8::encode_utf8(m);
    let ez = vstd::utf8::encode_utf8(z);
    assert((ea + em + ez).subrange(ea.len() as int, (ea.len() + em.len()) as int) =~= em);
}

/// The UTF-8 length of `s`, in bytes.
pub fn byte_len(s: &str) -> (n: usize)
    ensures
        n == utf8_len(s@),
{
    let b = s.as_bytes();
    proof {
        lemma_utf8_len_encoding(s@);
    }
    b.len()
}

pub proof fn lemma_byte_offset_bounds(s: Seq<char>, i: int)
    requires
        0 <= i <= s.len(),
    ensures
        byte_offset(s, i) <= utf8_len(s),
        byte_offset(s, s.len() as int) == utf8_len(s),
{
    assert(s.take(s.len() as int) =~= s);
    lemma_byte_offset_mono(s, i, s.len() as int);
}

/// Given the byte offset of `from`, the byte offset of `to`.
pub fn advance_bytes(s: &[char], from: usize, to: usize, byte_from: usize) -> (b: usize)
    requires
        from <= to <= s.len(),
        byte_from == byte_offset(s@, from as int),
        utf8_len(s@) <= usize::MAX,
    ensures
        b == byte_offset(s@, to as int),
{
    let mut i = from;
    let mut b = byte_from;
    while i < to
        invariant
            from <= i <= to <= s.len(),
            b == byte_offset(s@, i as int),
            utf8_len(s@) <= usize::MAX,
        decreases to - i,
    {
        proof {
            lemma_byte_offset_step(s@, i as int);
            lemma_byte_offset_bounds(s@, i + 1);
        }
        b = b + char_width(s[i]);
        i = i + 1;
    }
    b
}

/// What `unindent::unindent` makes of `s`.
pub uninterp spec fn unindented(s: Seq<char>) -> Seq<char>;

/// `unindent::unindent`: removes the indentation that all lines after the
/// first share, and a first line that is empty. Claimed: the result is the
/// named function of the text.
#[verifier::external_body]
fn unindent_text(s: &str) -> (r: String)
    ensures
        r@ == unindented(s@),
{
    unindent::unindent(s)
}

/// The source of a quote written as a string literal in braces, which may be
/// indented along with the code around it: the literal's text, unindented.
pub fn braced_source(text: &str) -> (r: String)
    ensures
        r@ == unindented(text@),
{
    unindent_text(text)
}

} // verus!
