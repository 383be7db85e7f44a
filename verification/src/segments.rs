//! Segmentation of text into stand-ins (like `__pyq_0__`) and the literal
//! text between them. Both languages share this grammar; they differ in the
//! stand-in prefix and in which characters continue an identifier.

use vstd::prelude::*;
use crate::text::{
    id_continue_js, id_continue_py, is_ascii_digit, is_js_ident_continue, is_xid_continue,
    matches_at, occurs_at,
};

verus! {

/// Which identifier-continue class delimits words around stand-ins.
#[derive(Clone, Copy, PartialEq, Eq, Debug)]
pub enum IdentClass {
    /// `XID_Continue`, as Python identifiers use it.
    Python,
    /// JavaScript identifier parts, as SWC accepts them.
    Script,
}

pub open spec fn ident_continue(class: IdentClass, c: char) -> bool {
    match class {
        IdentClass::Python => id_continue_py(c),
        IdentClass::Script => id_continue_js(c),
    }
}

/// Executable `ident_continue`.
pub fn is_ident_continue(class: IdentClass, c: char) -> (r: bool)
    ensures
        r == ident_continue(class, c),
        c == '_' ==> r,
{
    match class {
        IdentClass::Python => is_xid_continue(c),
        IdentClass::Script => is_js_ident_continue(c),
    }
}

/// The end of the maximal run of ASCII digits starting at `i`.
pub open spec fn digit_run(s: Seq<char>, i: int) -> int
    decreases s.len() - i,
{
    if 0 <= i < s.len() && is_ascii_digit(s[i]) {
        digit_run(s, i + 1)
    } else {
        i
    }
}

/// The end of the maximal run of identifier-continue characters from `i`.
pub open spec fn word_run(s: Seq<char>, i: int, class: IdentClass) -> int
    decreases s.len() - i,
{
    if 0 <= i < s.len() && ident_continue(class, s[i]) {
        word_run(s, i + 1, class)
    } else {
        i
    }
}

/// If a stand-in `prefix`, one or more digits, then `__` starts at `i`, its end.
pub open spec fn stand_in_end(s: Seq<char>, i: int, prefix: Seq<char>) -> Option<int> {
    if occurs_at(s, i, prefix) {
        let d = digit_run(s, i + prefix.len());
        if d > i + prefix.len() && d + 2 <= s.len() && s[d] == '_' && s[d + 1] == '_' {
            Some(d + 2)
        } else {
            None
        }
    } else {
        None
    }
}

/// `pat` occurs at `k`, after a character that does not continue an
/// identifier.
pub open spec fn boundary_occurrence(s: Seq<char>, k: int, pat: Seq<char>, class: IdentClass) -> bool {
    1 <= k && occurs_at(s, k, pat) && !ident_continue(class, s[k - 1])
}

/// The first position `k >= from` at which `pat` occurs and the character
/// before `k` does not continue an identifier, if any: an occurrence inside a
/// word is part of that word.
pub open spec fn first_boundary_occurrence(
    s: Seq<char>,
    from: int,
    pat: Seq<char>,
    class: IdentClass,
) -> Option<int>
    decreases s.len() - from,
{
    if from < 1 || from >= s.len() || from + pat.len() > s.len() {
        None
    } else if boundary_occurrence(s, from, pat, class) {
        Some(from)
    } else {
        first_boundary_occurrence(s, from + 1, pat, class)
    }
}

/// One segment: whether it is a stand-in, and its end.
///
/// At `i < s.len()`: a complete stand-in, else a maximal identifier run, else
/// the text up to the next occurrence of the prefix that does not stand inside
/// a word, else the rest.
pub open spec fn segment_at(s: Seq<char>, i: int, prefix: Seq<char>, class: IdentClass) -> (
    bool,
    int,
) {
    match stand_in_end(s, i, prefix) {
        Some(e) => (true, e),
        None => if ident_continue(class, s[i]) {
            (false, word_run(s, i, class))
        } else {
            match first_boundary_occurrence(s, i + 1, prefix, class) {
                Some(k) => (false, k),
                None => (false, s.len() as int),
            }
        },
    }
}

/// The segments of `s[i..]`, each as (is-stand-in, text).
pub open spec fn segment_views(s: Seq<char>, i: int, prefix: Seq<char>, class: IdentClass) -> Seq<
    (bool, Seq<char>),
>
    decreases s.len() - i,
{
    if i < 0 || i >= s.len() {
        seq![]
    } else {
        let (k, e) = segment_at(s, i, prefix, class);
        if e <= i || e > s.len() {
            seq![]
        } else {
            seq![(k, s.subrange(i, e))] + segment_views(s, e, prefix, class)
        }
    }
}

/// The texts of `segs`, joined.
pub open spec fn joined(segs: Seq<(bool, Seq<char>)>) -> Seq<char>
    decreases segs.len(),
{
    if segs.len() == 0 {
        seq![]
    } else {
        segs[0].1 + joined(segs.drop_first())
    }
}

/// Is `t` a stand-in: the prefix, one or more ASCII digits, then `__`?
pub open spec fn is_stand_in_text(t: Seq<char>, prefix: Seq<char>) -> bool {
    &&& t.len() >= prefix.len() + 3
    &&& t.take(prefix.len() as int) == prefix
    &&& t[t.len() - 2] == '_' && t[t.len() - 1] == '_'
    &&& forall|j: int| prefix.len() <= j < t.len() - 2 ==> is_ascii_digit(#[trigger] t[j])
}

pub proof fn lemma_digit_run(s: Seq<char>, i: int)
    requires
        0 <= i <= s.len(),
    ensures
        i <= digit_run(s, i) <= s.len(),
        forall|j: int| i <= j < digit_run(s, i) ==> is_ascii_digit(#[trigger] s[j]),
        digit_run(s, i) < s.len() ==> !is_ascii_digit(s[digit_run(s, i)]),
    decreases s.len() - i,
{
    if i < s.len() && is_ascii_digit(s[i]) {
        lemma_digit_run(s, i + 1);
    }
}

pub proof fn lemma_word_run(s: Seq<char>, i: int, class: IdentClass)
    requires
        0 <= i <= s.len(),
    ensures
        i <= word_run(s, i, class) <= s.len(),
        forall|j: int| i <= j < word_run(s, i, class) ==> ident_continue(class, #[trigger] s[j]),
        word_run(s, i, class) < s.len() ==> !ident_continue(class, s[word_run(s, i, class)]),
    decreases s.len() - i,
{
    if i < s.len() && ident_continue(class, s[i]) {
        lemma_word_run(s, i + 1, class);
    }
}

pub proof fn lemma_first_boundary_occurrence(
    s: Seq<char>,
    from: int,
    pat: Seq<char>,
    class: IdentClass,
)
    requires
        1 <= from,
    ensures
        first_boundary_occurrence(s, from, pat, class) matches Some(k) ==> from <= k && k + pat.len()
            <= s.len() && occurs_at(s, k, pat) && !ident_continue(class, s[k - 1]),
        first_boundary_occurrence(s, from, pat, class) matches Some(k) ==> forall|j: int|
            from <= j < k ==> !#[trigger] boundary_occurrence(s, j, pat, class),
        first_boundary_occurrence(s, from, pat, class) is None ==> forall|j: int|
            from <= j < s.len() ==> !#[trigger] boundary_occurrence(s, j, pat, class),
    decreases s.len() - from,
{
    if from < s.len() && from + pat.len() <= s.len() && !boundary_occurrence(s, from, pat, class) {
        lemma_first_boundary_occurrence(s, from + 1, pat, class);
    }
}

/// Every segment is non-empty and within bounds.
pub proof fn lemma_segment_at(s: Seq<char>, i: int, prefix: Seq<char>, class: IdentClass)
    requires
        0 <= i < s.len(),
        prefix.len() > 0,
        prefix[0] == '_',
    ensures
        i < segment_at(s, i, prefix, class).1 <= s.len(),
{
    if occurs_at(s, i, prefix) {
        lemma_digit_run(s, i + prefix.len());
    }
    lemma_word_run(s, i, class);
    lemma_first_boundary_occurrence(s, i + 1, prefix, class);
}

/// Computes `stand_in_end` on the characters `s` at `i`.
pub fn stand_in_at(s: &[char], i: usize, prefix: &[char]) -> (r: Option<usize>)
    ensures
        r matches Some(e) ==> stand_in_end(s@, i as int, prefix@) == Some(e as int),
        r is None ==> stand_in_end(s@, i as int, prefix@) is None,
{
    if !matches_at(s, i, prefix) {
        return None;
    }
    assert(occurs_at(s@, i as int, prefix@));
    let plen = prefix.len();
    let slen = s.len();
    assert(i + plen <= slen);
    let start = i + plen;
    let mut d = start;
    while d < s.len() && (s[d] as u32) >= 48 && (s[d] as u32) <= 57
        invariant
            start <= d <= s.len(),
            digit_run(s@, start as int) == digit_run(s@, d as int),
        decreases s.len() - d,
    {
        d = d + 1;
    }
    if d > start && s.len() - d >= 2 && s[d] == '_' && s[d + 1] == '_' {
        Some(d + 2)
    } else {
        None
    }
}

/// Computes `segment_at` on the characters `s` from `i`.
pub fn next_segment(s: &[char], i: usize, prefix: &[char], class: IdentClass) -> (r: (bool, usize))
    requires
        i < s.len(),
        prefix.len() > 0,
        prefix@[0] == '_',
    ensures
        r.0 == segment_at(s@, i as int, prefix@, class).0,
        r.1 == segment_at(s@, i as int, prefix@, class).1,
        i < r.1 <= s.len(),
{
    proof {
        lemma_segment_at(s@, i as int, prefix@, class);
    }
    if let Some(e) = stand_in_at(s, i, prefix) {
        return (true, e);
    }
    if is_ident_continue(class, s[i]) {
        let mut e = i;
        while e < s.len() && is_ident_continue(class, s[e])
            invariant
                i <= e <= s.len(),
                word_run(s@, i as int, class) == word_run(s@, e as int, class),
            decreases s.len() - e,
        {
            e = e + 1;
        }
        return (false, e);
    }
    let mut k = i + 1;
    while k < s.len()
        invariant
            i + 1 <= k <= s.len(),
            first_boundary_occurrence(s@, i + 1, prefix@, class) == first_boundary_occurrence(
                s@,
                k as int,
                prefix@,
                class,
            ),
            stand_in_end(s@, i as int, prefix@) is None,
            !ident_continue(class, s@[i as int]),
        decreases s.len() - k,
    {
        if matches_at(s, k, prefix) && !is_ident_continue(class, s[k - 1]) {
            return (false, k);
        }
        k = k + 1;
    }
    (false, s.len())
}

/// Segmentation loses nothing: the segments of `s[i..]` are non-empty, their
/// texts joined give back `s[i..]`, and every segment marked as a stand-in is
/// the prefix, one or more digits, and `__`. A stand-in never continues a
/// word: a stand-in that follows a text segment follows a character that does
/// not continue an identifier.
pub proof fn lemma_segments_partition(s: Seq<char>, i: int, prefix: Seq<char>, class: IdentClass)
    requires
        0 <= i <= s.len(),
        prefix.len() > 0,
        prefix[0] == '_',
    ensures
        joined(segment_views(s, i, prefix, class)) == s.subrange(i, s.len() as int),
        forall|j: int|
            0 <= j < segment_views(s, i, prefix, class).len() ==> (#[trigger] segment_views(
                s,
                i,
                prefix,
                class,
            )[j]).1.len() > 0,
        forall|j: int|
            0 <= j < segment_views(s, i, prefix, class).len() && (#[trigger] segment_views(
                s,
                i,
                prefix,
                class,
            )[j]).0 ==> is_stand_in_text(segment_views(s, i, prefix, class)[j].1, prefix),
        forall|j: int|
            0 < j < segment_views(s, i, prefix, class).len() && (#[trigger] segment_views(
                s,
                i,
                prefix,
                class,
            )[j]).0 && !segment_views(s, i, prefix, class)[j - 1].0 ==> !ident_continue(
                class,
                segment_views(s, i, prefix, class)[j - 1].1.last(),
            ),
    decreases s.len() - i,
{
    let segs = segment_views(s, i, prefix, class);
    if i == s.len() {
        assert(s.subrange(i, s.len() as int) =~= seq![]);
    } else {
        lemma_segment_at(s, i, prefix, class);
        let (k, e) = segment_at(s, i, prefix, class);
        lemma_segments_partition(s, e, prefix, class);
        let rest = segment_views(s, e, prefix, class);
        assert(segs == seq![(k, s.subrange(i, e))] + rest);
        assert(segs.drop_first() =~= rest);
        assert(s.subrange(i, s.len() as int) =~= s.subrange(i, e) + s.subrange(e, s.len() as int));
        assert forall|j: int| 0 <= j < segs.len() implies (#[trigger] segs[j]).1.len() > 0 by {
            if j > 0 {
                assert(segs[j] == rest[j - 1]);
            }
        }
        assert forall|j: int| 0 <= j < segs.len() && (#[trigger] segs[j]).0 implies is_stand_in_text(
            segs[j].1,
            prefix,
        ) by {
            if j > 0 {
                assert(segs[j] == rest[j - 1]);
            } else {
                lemma_digit_run(s, i + prefix.len());
                let t = s.subrange(i, e);
                assert(t.take(prefix.len() as int) =~= s.subrange(i, i + prefix.len()));
                let d = digit_run(s, i + prefix.len());
                assert forall|m: int| prefix.len() <= m < t.len() - 2 implies is_ascii_digit(
                    #[trigger] t[m],
                ) by {
                    assert(t[m] == s[i + m]);
                }
            }
        }
        assert forall|j: int|
            0 < j < segs.len() && (#[trigger] segs[j]).0 && !segs[j - 1].0 implies !ident_continue(
            class,
            segs[j - 1].1.last(),
        ) by {
            if j > 1 {
                assert(segs[j] == rest[j - 1]);
                assert(segs[j - 1] == rest[j - 2]);
            } else {
                assert(segs[1] == rest[0]);
                assert(rest[0].0 == segment_at(s, e, prefix, class).0);
                assert(occurs_at(s, e, prefix));
                assert(s[e] == prefix[0]);
                assert(ident_continue(class, '_'));
                lemma_word_run(s, i, class);
                lemma_first_boundary_occurrence(s, i + 1, prefix, class);
                assert(segs[0].1.last() == s[e - 1]);
            }
        }
    }
}

/// The stand-in texts among `segs`, in order.
pub open spec fn stand_in_texts(segs: Seq<(bool, Seq<char>)>) -> Seq<Seq<char>>
    decreases segs.len(),
{
    if segs.len() == 0 {
        seq![]
    } else if segs[0].0 {
        seq![segs[0].1] + stand_in_texts(segs.drop_first())
    } else {
        stand_in_texts(segs.drop_first())
    }
}

proof fn lemma_occurs_shift(c: char, s: Seq<char>, i: int, pat: Seq<char>)
    requires
        0 <= i,
    ensures
        occurs_at(seq![c] + s, i + 1, pat) == occurs_at(s, i, pat),
{
    let t = seq![c] + s;
    if i + pat.len() <= s.len() {
        assert(t.subrange(i + 1, i + 1 + pat.len()) =~= s.subrange(i, i + pat.len()));
    }
}

proof fn lemma_digit_run_shift(c: char, s: Seq<char>, i: int)
    requires
        0 <= i <= s.len(),
    ensures
        digit_run(seq![c] + s, i + 1) == digit_run(s, i) + 1,
    decreases s.len() - i,
{
    if i < s.len() && is_ascii_digit(s[i]) {
        lemma_digit_run_shift(c, s, i + 1);
    }
}

proof fn lemma_word_run_shift(c: char, s: Seq<char>, i: int, class: IdentClass)
    requires
        0 <= i <= s.len(),
    ensures
        word_run(seq![c] + s, i + 1, class) == word_run(s, i, class) + 1,
    decreases s.len() - i,
{
    if i < s.len() && ident_continue(class, s[i]) {
        lemma_word_run_shift(c, s, i + 1, class);
    }
}

proof fn lemma_boundary_shift(c: char, s: Seq<char>, from: int, pat: Seq<char>, class: IdentClass)
    requires
        1 <= from,
    ensures
        first_boundary_occurrence(seq![c] + s, from + 1, pat, class) == match first_boundary_occurrence(
            s,
            from,
            pat,
            class,
        ) {
            Some(k) => Some(k + 1),
            None => None::<int>,
        },
    decreases s.len() - from,
{
    let t = seq![c] + s;
    lemma_occurs_shift(c, s, from, pat);
    if from < s.len() && from + pat.len() <= s.len() {
        assert(t[from] == s[from - 1]);
        lemma_boundary_shift(c, s, from + 1, pat, class);
    }
}

proof fn lemma_segment_at_shift(c: char, s: Seq<char>, i: int, prefix: Seq<char>, class: IdentClass)
    requires
        0 <= i < s.len(),
    ensures
        segment_at(seq![c] + s, i + 1, prefix, class) == (
            segment_at(s, i, prefix, class).0,
            segment_at(s, i, prefix, class).1 + 1,
        ),
{
    let t = seq![c] + s;
    assert(t[i + 1] == s[i]);
    lemma_occurs_shift(c, s, i, prefix);
    if occurs_at(s, i, prefix) {
        lemma_digit_run_shift(c, s, i + prefix.len());
        let d = digit_run(s, i + prefix.len());
        lemma_digit_run(s, i + prefix.len());
        if d + 2 <= s.len() {
            assert(t[d + 1] == s[d]);
            assert(t[d + 2] == s[d + 1]);
        }
    }
    lemma_word_run_shift(c, s, i, class);
    lemma_boundary_shift(c, s, i + 1, prefix, class);
}

/// Segmenting after a first character is segmenting the rest.
proof fn lemma_segment_views_shift(
    c: char,
    s: Seq<char>,
    i: int,
    prefix: Seq<char>,
    class: IdentClass,
)
    requires
        0 <= i <= s.len(),
        prefix.len() > 0,
        prefix[0] == '_',
    ensures
        segment_views(seq![c] + s, i + 1, prefix, class) == segment_views(s, i, prefix, class),
    decreases s.len() - i,
{
    let t = seq![c] + s;
    if i < s.len() {
        lemma_segment_at_shift(c, s, i, prefix, class);
        lemma_segment_at(s, i, prefix, class);
        let e = segment_at(s, i, prefix, class).1;
        lemma_segment_views_shift(c, s, e, prefix, class);
        assert(t.subrange(i + 1, e + 1) =~= s.subrange(i, e));
    }
}

/// From a position `i` before the next boundary occurrence `k` of the prefix
/// (or the end), where no stand-in can start, segmentation passes through
/// `k` without yielding a stand-in.
proof fn lemma_no_stand_in_before_boundary(
    t: Seq<char>,
    i: int,
    k: int,
    prefix: Seq<char>,
    class: IdentClass,
)
    requires
        1 <= i <= k <= t.len(),
        prefix.len() > 0,
        prefix[0] == '_',
        k == t.len() || boundary_occurrence(t, k, prefix, class),
        forall|j: int| i <= j < k ==> !#[trigger] boundary_occurrence(t, j, prefix, class),
        i < k ==> !ident_continue(class, t[i - 1]) || !ident_continue(class, t[i]),
    ensures
        stand_in_texts(segment_views(t, i, prefix, class)) == stand_in_texts(
            segment_views(t, k, prefix, class),
        ),
    decreases k - i,
{
    if i < k {
        assert(ident_continue(class, '_'));
        lemma_segment_at(t, i, prefix, class);
        lemma_word_run(t, i, class);
        lemma_first_boundary_occurrence(t, i + 1, prefix, class);
        assert(!boundary_occurrence(t, i, prefix, class));
        if occurs_at(t, i, prefix) {
            assert(t[i] == prefix[0]);
        }
        let (b, e) = segment_at(t, i, prefix, class);
        assert(!b);
        if ident_continue(class, t[i]) {
            if k < t.len() {
                assert(!ident_continue(class, t[k - 1]));
            }
            assert(e <= k);
        } else {
            match first_boundary_occurrence(t, i + 1, prefix, class) {
                Some(k2) => {
                    assert(e == k2);
                    if k2 < k {
                        assert(boundary_occurrence(t, k2, prefix, class));
                    }
                    if k < k2 {
                        assert(boundary_occurrence(t, k, prefix, class));
                    }
                },
                None => {
                    if k < t.len() {
                        assert(boundary_occurrence(t, k, prefix, class));
                    }
                },
            }
            assert(e == k);
        }
        let segs = segment_views(t, i, prefix, class);
        assert(segs.drop_first() =~= segment_views(t, e, prefix, class));
        lemma_no_stand_in_before_boundary(t, e, k, prefix, class);
    }
}

/// A character that does not continue an identifier, put before a text,
/// leaves the text's stand-ins as they are: a stand-in inside a word stays
/// text wherever that word starts.
pub proof fn lemma_stand_ins_after_non_word_char(
    c: char,
    s: Seq<char>,
    prefix: Seq<char>,
    class: IdentClass,
)
    requires
        prefix.len() > 0,
        prefix[0] == '_',
        !ident_continue(class, c),
    ensures
        stand_in_texts(segment_views(seq![c] + s, 0, prefix, class)) == stand_in_texts(
            segment_views(s, 0, prefix, class),
        ),
{
    let t = seq![c] + s;
    assert(ident_continue(class, '_'));
    assert(t[0] == c);
    lemma_segment_at(t, 0, prefix, class);
    lemma_first_boundary_occurrence(t, 1, prefix, class);
    if occurs_at(t, 0, prefix) {
        assert(t[0] == prefix[0]);
    }
    let k = segment_at(t, 0, prefix, class).1;
    let segs = segment_views(t, 0, prefix, class);
    assert(segs.drop_first() =~= segment_views(t, k, prefix, class));
    lemma_no_stand_in_before_boundary(t, 1, k, prefix, class);
    lemma_segment_views_shift(c, s, 0, prefix, class);
}

} // verus!
