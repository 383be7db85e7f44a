//! Scanners for Python source: the `#{name}` placeholder scanner and the
//! `__pyq_N__` stand-in segmenter.

use vstd::prelude::*;
use crate::segments::{
    IdentClass, is_stand_in_text, joined, lemma_segment_at, lemma_segments_partition,
    next_segment, segment_at, segment_views,
};
use crate::segments::{
    ident_continue, is_ident_continue, lemma_stand_ins_after_non_word_char, lemma_word_run,
    stand_in_texts, word_run,
};
use crate::text::{
    advance_bytes, byte_len, byte_offset, chars_of, id_continue_py, id_start_py, is_xid_start,
    lemma_byte_offset_bounds, lemma_byte_offset_mono, lemma_encode_utf8_range, push_chars, utf8_len,
};
use vstd::utf8::encode_utf8;

verus! {

/// The prefix of every Python stand-in.
pub open spec fn py_stand_in_prefix() -> Seq<char> {
    seq!['_', '_', 'p', 'y', 'q', '_']
}

/// A token found by the [`StandInScanner`].
#[derive(Clone, Copy, Debug, PartialEq, Eq)]
pub enum StandInToken<'a> {
    /// A stand-in like `__pyq_0__`.
    StandIn(&'a str),
    /// Literal text between stand-ins.
    Text(&'a str),
}

impl<'a> StandInToken<'a> {
    /// Whether this is a stand-in, and its text.
    pub open spec fn parts(self) -> (bool, Seq<char>) {
        match self {
            StandInToken::StandIn(t) => (true, t@),
            StandInToken::Text(t) => (false, t@),
        }
    }
}

/// Scans text for `__pyq_N__` stand-ins, yielding a [`StandInToken`] for
/// each stand-in and for each run of text between them.
pub struct StandInScanner<'a> {
    input: &'a str,
    chars: Vec<char>,
    pos: usize,
}

impl<'a> StandInScanner<'a> {
    #[verifier::type_invariant]
    spec fn wf(self) -> bool {
        &&& self.chars@ == self.input@
        &&& self.pos <= self.chars@.len()
    }

    /// The text being scanned.
    pub closed spec fn source(self) -> Seq<char> {
        self.input@
    }

    /// The index of the next character to scan.
    pub closed spec fn position(self) -> int {
        self.pos as int
    }

    /// The tokens not yet yielded.
    pub open spec fn remaining(self) -> Seq<(bool, Seq<char>)> {
        segment_views(self.source(), self.position(), py_stand_in_prefix(), IdentClass::Python)
    }

    pub fn new(input: &'a str) -> (r: Self)
        ensures
            r.source() == input@,
            r.position() == 0,
    {
        let chars = chars_of(input);
        StandInScanner { input, chars, pos: 0 }
    }

    /// Yields the next token: a complete stand-in if one starts here, else
    /// a maximal run of `XID_Continue` characters (so that a stand-in inside
    /// a longer word stays text), else the text up to the next `__pyq_`
    /// that does not stand inside a word, else the rest of the input.
    pub fn next(&mut self) -> (r: Option<StandInToken<'a>>)
        ensures
            final(self).source() == old(self).source(),
            old(self).remaining().len() == 0 ==> r is None,
            old(self).remaining().len() == 0 ==> final(self).remaining().len() == 0,
            old(self).remaining().len() > 0 ==> (r matches Some(t) && t.parts()
                == old(self).remaining()[0]),
            old(self).remaining().len() > 0 ==> final(self).remaining()
                == old(self).remaining().drop_first(),
    {
        proof {
            use_type_invariant(&*self);
        }
        if self.pos >= self.chars.len() {
            return None;
        }
        let prefix = vec!['_', '_', 'p', 'y', 'q', '_'];
        assert(prefix@ == py_stand_in_prefix());
        let (is_stand_in, end) = next_segment(self.chars.as_slice(), self.pos, prefix.as_slice(),
            IdentClass::Python);
        let text = self.input.substring_char(self.pos, end);
        let ghost old_pos = self.pos as int;
        self.pos = end;
        proof {
            lemma_segment_at(self.input@, old_pos, py_stand_in_prefix(), IdentClass::Python);
            let v = segment_views(self.input@, old_pos, py_stand_in_prefix(), IdentClass::Python);
            assert(v.drop_first() =~= segment_views(
                self.input@,
                end as int,
                py_stand_in_prefix(),
                IdentClass::Python,
            ));
        }
        if is_stand_in {
            Some(StandInToken::StandIn(text))
        } else {
            Some(StandInToken::Text(text))
        }
    }

    /// All remaining tokens, in order.
    pub fn collect_tokens(self) -> (r: Vec<StandInToken<'a>>)
        ensures
            r@.len() == self.remaining().len(),
            forall|j: int| 0 <= j < r@.len() ==> #[trigger] r@[j].parts() == self.remaining()[j],
    {
        let ghost all = self.remaining();
        let mut it = self;
        let mut out: Vec<StandInToken<'a>> = Vec::new();
        loop
            invariant
                all == self.remaining(),
                out@.len() + it.remaining().len() == all.len(),
                it.remaining() == all.subrange(out@.len() as int, all.len() as int),
                forall|j: int| 0 <= j < out@.len() ==> #[trigger] out@[j].parts() == all[j],
            decreases it.remaining().len(),
        {
            let ghost before = it.remaining();
            match it.next() {
                Some(t) => {
                    proof {
                        assert(before.drop_first() =~= all.subrange(
                            out@.len() + 1int,
                            all.len() as int,
                        ));
                    }
                    out.push(t);
                },
                None => {
                    return out;
                },
            }
        }
    }
}

/// Python stand-in segmentation loses nothing: the tokens of any text are
/// non-empty, joined they give back the text, every `StandIn` token is
/// `__pyq_`, one or more digits, and `__`, and a `StandIn` token
/// that follows a `Text` token follows a character that continues no
/// identifier: a stand-in inside a word stays text.
pub proof fn lemma_py_stand_in_segmentation(s: Seq<char>)
    ensures
        joined(segment_views(s, 0, py_stand_in_prefix(), IdentClass::Python)) == s,
        forall|j: int|
            #![trigger segment_views(s, 0, py_stand_in_prefix(), IdentClass::Python)[j]]
            0 <= j < segment_views(s, 0, py_stand_in_prefix(), IdentClass::Python).len() ==> {
                let t = segment_views(s, 0, py_stand_in_prefix(), IdentClass::Python)[j];
                &&& t.1.len() > 0
                &&& t.0 ==> is_stand_in_text(t.1, py_stand_in_prefix())
            },
        forall|j: int|
            #![trigger segment_views(s, 0, py_stand_in_prefix(), IdentClass::Python)[j]]
            0 < j < segment_views(s, 0, py_stand_in_prefix(), IdentClass::Python).len() ==> {
                let t = segment_views(s, 0, py_stand_in_prefix(), IdentClass::Python)[j];
                let u = segment_views(s, 0, py_stand_in_prefix(), IdentClass::Python)[j - 1];
                t.0 && !u.0 ==> !ident_continue(IdentClass::Python, u.1.last())
            },
{
    lemma_segments_partition(s, 0, py_stand_in_prefix(), IdentClass::Python);
    assert(s.subrange(0, s.len() as int) =~= s);
}

/// Python stand-ins do not depend on where a word starts: putting a
/// character that continues no identifier before a text leaves the text's
/// `StandIn` tokens as they are, so a `__pyq_N__` inside a larger word stays
/// text whether or not the word starts the text.
pub proof fn lemma_py_stand_ins_after_non_word_char(c: char, s: Seq<char>)
    requires
        !id_continue_py(c),
    ensures
        stand_in_texts(segment_views(seq![c] + s, 0, py_stand_in_prefix(), IdentClass::Python)) == stand_in_texts(
            segment_views(s, 0, py_stand_in_prefix(), IdentClass::Python),
        ),
{
    lemma_stand_ins_after_non_word_char(c, s, py_stand_in_prefix(), IdentClass::Python);
}

// MARK: Placeholder scanner

/// The position in which a placeholder was found.
#[derive(Clone, Copy, Debug, Eq, PartialEq, Structural)]
pub enum TokenPosition {
    /// The placeholder is in code position.
    Code,
    /// The placeholder is inside a string literal.
    String,
}

/// A placeholder found during scanning.
#[derive(Debug)]
pub struct PlaceholderToken {
    /// The variable name, without the surrounding `#{}`.
    pub name: String,
    /// The byte span of the entire `#{name}` placeholder.
    pub span: core::ops::Range<usize>,
    /// Whether the placeholder occurred in code or string position.
    pub pos: TokenPosition,
}

impl PlaceholderToken {
    /// The name, the byte span's start and end, and the position.
    pub open spec fn parts(self) -> (Seq<char>, int, int, TokenPosition) {
        (self.name@, self.span.start as int, self.span.end as int, self.pos)
    }
}

/// A string's quote delimiter.
#[derive(Clone, Copy, Debug, Eq, PartialEq, Structural)]
pub enum Quote {
    Single,
    Double,
}

/// What kind of string a scan is inside: interpolated (f- or t-string)
/// or not, its quote, and whether it is triple-quoted.
#[derive(Clone, Copy, Debug, Eq, PartialEq, Structural)]
pub struct StringStart {
    pub interp: bool,
    pub quote: Quote,
    pub triple: bool,
}

/// Code context: whether the code is inside an f- or t-string expression
/// hole, and how many braces are open inside that hole.
#[derive(Clone, Copy, Debug, Eq, PartialEq, Structural)]
pub struct CodeContext {
    pub in_expr_hole: bool,
    pub brace_depth: usize,
}

/// The currently active lexer context.
#[derive(Clone, Copy, Debug, Eq, PartialEq, Structural)]
pub enum Active {
    /// Code; top-level or within an expression hole.
    Code(CodeContext),
    /// String literal body.
    Str(StringStart),
}

pub open spec fn quote_of(c: char) -> Option<Quote> {
    if c == '\'' {
        Some(Quote::Single)
    } else if c == '"' {
        Some(Quote::Double)
    } else {
        None
    }
}

pub open spec fn is_interp_letter(c: char) -> bool {
    c == 'f' || c == 'F' || c == 't' || c == 'T'
}

pub open spec fn is_raw_letter(c: char) -> bool {
    c == 'r' || c == 'R'
}

pub open spec fn is_bytes_letter(c: char) -> bool {
    c == 'b' || c == 'B'
}

pub open spec fn is_plain_letter(c: char) -> bool {
    is_raw_letter(c) || is_bytes_letter(c) || c == 'u' || c == 'U'
}

pub open spec fn quote_at(s: Seq<char>, i: int) -> bool {
    0 <= i < s.len() && quote_of(s[i]) is Some
}

/// The prefix of a string literal starting at `i`, if one starts there: its
/// length, and whether it makes the string interpolated.
pub open spec fn string_prefix(s: Seq<char>, i: int) -> Option<(int, bool)> {
    if 0 <= i && i + 2 < s.len() && quote_at(s, i + 2) && ((is_raw_letter(s[i])
        && is_interp_letter(s[i + 1])) || (is_interp_letter(s[i]) && is_raw_letter(s[i + 1]))) {
        Some((2, true))
    } else if 0 <= i && i + 2 < s.len() && quote_at(s, i + 2) && ((is_raw_letter(s[i])
        && is_bytes_letter(s[i + 1])) || (is_bytes_letter(s[i]) && is_raw_letter(s[i + 1]))) {
        Some((2, false))
    } else if 0 <= i && i + 1 < s.len() && quote_at(s, i + 1) && is_interp_letter(s[i]) {
        Some((1, true))
    } else if 0 <= i && i + 1 < s.len() && quote_at(s, i + 1) && is_plain_letter(s[i]) {
        Some((1, false))
    } else if quote_at(s, i) {
        Some((0, false))
    } else {
        None
    }
}

/// Is the quote at `q` tripled (three equal quotes in a row)?
pub open spec fn tripled_at(s: Seq<char>, q: int) -> bool {
    0 <= q && q + 2 < s.len() && s[q + 1] == s[q] && s[q + 2] == s[q]
}

/// If a string literal starts at `i`: what kind, and where its body starts.
pub open spec fn string_start_at(s: Seq<char>, i: int) -> Option<(StringStart, int)> {
    match string_prefix(s, i) {
        Some((p, interp)) => {
            let q = i + p;
            let triple = tripled_at(s, q);
            Some(
                (
                    StringStart { interp, quote: quote_of(s[q])->0, triple },
                    if triple {
                        q + 3
                    } else {
                        q + 1
                    },
                ),
            )
        },
        None => None,
    }
}

/// If a `#{name}` placeholder starts at `i`, its end: `#{`, an `XID_Start`
/// character or `_`, `XID_Continue` characters, then `}`.
pub open spec fn py_placeholder_end(s: Seq<char>, i: int) -> Option<int> {
    if 0 <= i && i + 2 < s.len() && s[i] == '#' && s[i + 1] == '{' && (id_start_py(s[i + 2])
        || s[i + 2] == '_') {
        let k = word_run(s, i + 3, IdentClass::Python);
        if k < s.len() && s[k] == '}' {
            Some(k + 1)
        } else {
            None
        }
    } else {
        None
    }
}

/// The first index at or after `from` holding `c`.
pub open spec fn find_char(s: Seq<char>, from: int, c: char) -> Option<int>
    decreases s.len() - from,
{
    if from < 0 || from >= s.len() {
        None
    } else if s[from] == c {
        Some(from)
    } else {
        find_char(s, from + 1, c)
    }
}

/// Where a `#` comment whose text starts at `from` ends: just past the first
/// later `\n`; failing that, just past the first later `\r`; failing that,
/// the end of the source.
pub open spec fn comment_end(s: Seq<char>, from: int) -> int {
    match find_char(s, from, '\n') {
        Some(k) => k + 1,
        None => match find_char(s, from, '\r') {
            Some(k) => k + 1,
            None => s.len() as int,
        },
    }
}

/// A scanning state: the next character, the active context (none once the
/// scan has ended), the suspended code contexts and the suspended strings.
pub type ScanState = (int, Option<Active>, Seq<CodeContext>, Seq<StringStart>);

/// A placeholder occurrence: its start and end character indices, and its
/// position.
pub type ScanHit = (int, int, TokenPosition);

/// A placeholder as the scanner reports it: the name (between `#{` and `}`),
/// the byte span, and the position.
pub open spec fn hit_parts(s: Seq<char>, h: ScanHit) -> (Seq<char>, int, int, TokenPosition) {
    (s.subrange(h.0 + 2, h.1 - 1), byte_offset(s, h.0) as int, byte_offset(s, h.1) as int, h.2)
}

pub open spec fn hole_context(depth: int) -> CodeContext {
    CodeContext { in_expr_hole: true, brace_depth: depth as usize }
}

/// One step in code at `i < s.len()`.
pub open spec fn code_step(
    s: Seq<char>,
    i: int,
    ctx: CodeContext,
    code: Seq<CodeContext>,
    strings: Seq<StringStart>,
) -> (ScanState, Option<ScanHit>) {
    let c = s[i];
    let here = Some(Active::Code(ctx));
    if c == '#' {
        match py_placeholder_end(s, i) {
            Some(e) => ((e, here, code, strings), Some((i, e, TokenPosition::Code))),
            None => ((comment_end(s, i + 1), here, code, strings), None),
        }
    } else {
        match string_start_at(s, i) {
            Some((st, e)) => ((e, Some(Active::Str(st)), code.push(ctx), strings), None),
            None => if c == '}' && ctx.in_expr_hole && ctx.brace_depth == 0 {
                if strings.len() == 0 {
                    ((i + 1, None, code, strings), None)
                } else {
                    ((i + 1, Some(Active::Str(strings.last())), code, strings.drop_last()), None)
                }
            } else if c == '{' && ctx.in_expr_hole {
                ((i + 1, Some(Active::Code(hole_context(ctx.brace_depth + 1))), code, strings), None)
            } else if c == '}' && ctx.in_expr_hole {
                ((i + 1, Some(Active::Code(hole_context(ctx.brace_depth - 1))), code, strings), None)
            } else {
                ((i + 1, here, code, strings), None)
            },
        }
    }
}

/// One step in a string body at `i < s.len()`.
pub open spec fn string_step(
    s: Seq<char>,
    i: int,
    st: StringStart,
    code: Seq<CodeContext>,
    strings: Seq<StringStart>,
) -> (ScanState, Option<ScanHit>) {
    let c = s[i];
    let here = Some(Active::Str(st));
    if c == '#' {
        match py_placeholder_end(s, i) {
            Some(e) => if st.triple || st.interp {
                ((e, here, code, strings), Some((i, e, TokenPosition::String)))
            } else {
                ((e, here, code, strings), None)
            },
            None => ((i + 1, here, code, strings), None),
        }
    } else if c == '\\' {
        ((if i + 1 < s.len() { i + 2 } else { i + 1 }, here, code, strings), None)
    } else if quote_of(c) is Some {
        let triple = tripled_at(s, i);
        let e = if triple { i + 3 } else { i + 1 };
        if quote_of(c)->0 == st.quote && triple == st.triple {
            if code.len() == 0 {
                ((e, None, code, strings), None)
            } else {
                ((e, Some(Active::Code(code.last())), code.drop_last(), strings), None)
            }
        } else {
            ((e, here, code, strings), None)
        }
    } else if c == '{' {
        if i + 1 < s.len() && s[i + 1] == '{' {
            ((i + 2, here, code, strings), None)
        } else if st.interp {
            ((i + 1, Some(Active::Code(hole_context(0))), code, strings.push(st)), None)
        } else {
            ((i + 1, here, code, strings), None)
        }
    } else if c == '}' && i + 1 < s.len() && s[i + 1] == '}' {
        ((i + 2, here, code, strings), None)
    } else {
        ((i + 1, here, code, strings), None)
    }
}

/// In code, a quote opens a plain string with that quote, tripled where
/// three of it stand in a row, and the code around it is suspended; a
/// placeholder is found there in code position; a `#` that starts no
/// placeholder starts a comment, which the scan skips to the end of its
/// line. In a string body, a placeholder is found, in string position, only
/// in a triple-quoted or interpolated string, and skipped otherwise.
pub proof fn lemma_scan_steps(
    s: Seq<char>,
    i: int,
    ctx: CodeContext,
    st: StringStart,
    code: Seq<CodeContext>,
    strings: Seq<StringStart>,
)
    requires
        0 <= i < s.len(),
    ensures
        quote_of(s[i]) is Some ==> code_step(s, i, ctx, code, strings) == (
            (
                if tripled_at(s, i) {
                    i + 3
                } else {
                    i + 1
                },
                Some(
                    Active::Str(
                        StringStart { interp: false, quote: quote_of(s[i])->0, triple: tripled_at(s, i) },
                    ),
                ),
                code.push(ctx),
                strings,
            ),
            None::<ScanHit>,
        ),
        py_placeholder_end(s, i) matches Some(e) ==> code_step(s, i, ctx, code, strings).1 == Some(
            (i, e, TokenPosition::Code),
        ),
        s[i] == '#' && py_placeholder_end(s, i) is None ==> code_step(s, i, ctx, code, strings) == (
            (comment_end(s, i + 1), Some(Active::Code(ctx)), code, strings),
            None::<ScanHit>,
        ),
        py_placeholder_end(s, i) matches Some(e) ==> string_step(s, i, st, code, strings) == (
            (e, Some(Active::Str(st)), code, strings),
            if st.triple || st.interp {
                Some((i, e, TokenPosition::String))
            } else {
                None
            },
        ),
{
    if quote_of(s[i]) is Some {
        assert(string_prefix(s, i) == Some((0int, false)));
    }
}

/// Inside a string body, a quote character of the other kind is part of the
/// body: the scan stays in the same string, finds nothing there and goes on
/// right after it (after the run of three where it is tripled), just as
/// after any other body character, so the placeholders found from there on
/// are those found from just after it. The string's own quote with the
/// string's triple-ness ends the string, and its own quote with the other
/// triple-ness does not.
pub proof fn lemma_string_body_quotes(
    s: Seq<char>,
    i: int,
    st: StringStart,
    code: Seq<CodeContext>,
    strings: Seq<StringStart>,
)
    requires
        0 <= i < s.len(),
        quote_of(s[i]) is Some,
    ensures
        quote_of(s[i]) != Some(st.quote) || tripled_at(s, i) != st.triple ==> {
            let ((i2, a2, c2, s2), t) = string_step(s, i, st, code, strings);
            &&& a2 == Some(Active::Str(st))
            &&& c2 == code
            &&& s2 == strings
            &&& t is None
            &&& i2 == (if tripled_at(s, i) {
                i + 3
            } else {
                i + 1
            })
            &&& scan_from(s, i, Some(Active::Str(st)), code, strings) == scan_from(
                s,
                i2,
                Some(Active::Str(st)),
                code,
                strings,
            )
        },
        quote_of(s[i]) == Some(st.quote) && tripled_at(s, i) == st.triple ==> !(string_step(
            s,
            i,
            st,
            code,
            strings,
        ).0.1 matches Some(Active::Str(_))),
{
    let ((i2, a2, c2, s2), t) = string_step(s, i, st, code, strings);
    if quote_of(s[i]) != Some(st.quote) || tripled_at(s, i) != st.triple {
        assert(scan_step(s, i, Active::Str(st), code, strings) == string_step(s, i, st, code, strings));
        assert(i < i2 <= s.len());
    }
}

/// One step of the scan from a running state at `i < s.len()`.
pub open spec fn scan_step(
    s: Seq<char>,
    i: int,
    a: Active,
    code: Seq<CodeContext>,
    strings: Seq<StringStart>,
) -> (ScanState, Option<ScanHit>) {
    match a {
        Active::Code(ctx) => code_step(s, i, ctx, code, strings),
        Active::Str(st) => string_step(s, i, st, code, strings),
    }
}

/// All placeholders that the scan yields from the state
/// `(i, active, code, strings)` until it ends.
pub open spec fn scan_from(
    s: Seq<char>,
    i: int,
    active: Option<Active>,
    code: Seq<CodeContext>,
    strings: Seq<StringStart>,
) -> Seq<ScanHit>
    decreases s.len() - i,
{
    match active {
        None => seq![],
        Some(a) => if i < 0 || i >= s.len() {
            seq![]
        } else {
            let ((i2, a2, c2, s2), t) = scan_step(s, i, a, code, strings);
            if i2 <= i || i2 > s.len() {
                seq![]
            } else {
                match t {
                    Some(tok) => seq![tok] + scan_from(s, i2, a2, c2, s2),
                    None => scan_from(s, i2, a2, c2, s2),
                }
            }
        },
    }
}

/// The top-level code context.
pub open spec fn top_level() -> CodeContext {
    CodeContext { in_expr_hole: false, brace_depth: 0 }
}

/// The placeholders of a whole source, scanned from top-level code.
pub open spec fn scan_source(s: Seq<char>) -> Seq<ScanHit> {
    scan_from(s, 0, Some(Active::Code(top_level())), seq![], seq![])
}

// MARK: Placeholder scanner, executable

fn quote_char(c: char) -> (r: Option<Quote>)
    ensures
        r == quote_of(c),
{
    if c == '\'' {
        Some(Quote::Single)
    } else if c == '"' {
        Some(Quote::Double)
    } else {
        None
    }
}

fn is_quote_at(s: &[char], i: usize) -> (r: bool)
    ensures
        r == quote_at(s@, i as int),
{
    i < s.len() && quote_char(s[i]).is_some()
}

fn interp_letter(c: char) -> (r: bool)
    ensures
        r == is_interp_letter(c),
{
    c == 'f' || c == 'F' || c == 't' || c == 'T'
}

fn raw_letter(c: char) -> (r: bool)
    ensures
        r == is_raw_letter(c),
{
    c == 'r' || c == 'R'
}

fn bytes_letter(c: char) -> (r: bool)
    ensures
        r == is_bytes_letter(c),
{
    c == 'b' || c == 'B'
}

fn plain_letter(c: char) -> (r: bool)
    ensures
        r == is_plain_letter(c),
{
    raw_letter(c) || bytes_letter(c) || c == 'u' || c == 'U'
}

/// Computes `string_prefix`.
fn prefix_at(s: &[char], i: usize) -> (r: Option<(usize, bool)>)
    ensures
        r matches Some((p, interp)) ==> string_prefix(s@, i as int) == Some((p as int, interp))
            && i + p < s.len(),
        r is None ==> string_prefix(s@, i as int) is None,
{
    let n = s.len();
    if i < n && n - i > 2 && is_quote_at(s, i + 2) {
        let (a, b) = (s[i], s[i + 1]);
        if (raw_letter(a) && interp_letter(b)) || (interp_letter(a) && raw_letter(b)) {
            return Some((2, true));
        }
        if (raw_letter(a) && bytes_letter(b)) || (bytes_letter(a) && raw_letter(b)) {
            return Some((2, false));
        }
    }
    if i < n && n - i > 1 && is_quote_at(s, i + 1) {
        if interp_letter(s[i]) {
            return Some((1, true));
        }
        if plain_letter(s[i]) {
            return Some((1, false));
        }
    }
    if is_quote_at(s, i) {
        Some((0, false))
    } else {
        None
    }
}

fn is_tripled(s: &[char], q: usize) -> (r: bool)
    ensures
        r == tripled_at(s@, q as int),
{
    q < s.len() && s.len() - q > 2 && s[q + 1] == s[q] && s[q + 2] == s[q]
}

/// Computes `string_start_at`.
fn string_start(s: &[char], i: usize) -> (r: Option<(StringStart, usize)>)
    ensures
        r matches Some((st, e)) ==> string_start_at(s@, i as int) == Some((st, e as int)) && i < e
            <= s.len(),
        r is None ==> string_start_at(s@, i as int) is None,
{
    match prefix_at(s, i) {
        Some((p, interp)) => {
            let q = i + p;
            let quote = quote_char(s[q]).unwrap();
            let triple = is_tripled(s, q);
            let e = if triple {
                q + 3
            } else {
                q + 1
            };
            Some((StringStart { interp, quote, triple }, e))
        },
        None => None,
    }
}

/// Computes `py_placeholder_end`.
fn placeholder_at(s: &[char], i: usize) -> (r: Option<usize>)
    requires
        i < s.len(),
    ensures
        r matches Some(e) ==> py_placeholder_end(s@, i as int) == Some(e as int) && i + 3 < e
            <= s.len(),
        r is None ==> py_placeholder_end(s@, i as int) is None,
{
    if s.len() - i < 3 || s[i] != '#' || s[i + 1] != '{' {
        return None;
    }
    if !(is_xid_start(s[i + 2]) || s[i + 2] == '_') {
        return None;
    }
    let mut k = i + 3;
    while k < s.len() && is_ident_continue(IdentClass::Python, s[k])
        invariant
            i + 3 <= k <= s.len(),
            word_run(s@, i + 3, IdentClass::Python) == word_run(s@, k as int, IdentClass::Python),
        decreases s.len() - k,
    {
        k = k + 1;
    }
    if k < s.len() && s[k] == '}' {
        Some(k + 1)
    } else {
        None
    }
}

/// Computes `find_char`.
fn find_char_from(s: &[char], from: usize, c: char) -> (r: Option<usize>)
    ensures
        r matches Some(k) ==> find_char(s@, from as int, c) == Some(k as int) && from <= k < s.len(),
        r is None ==> find_char(s@, from as int, c) is None,
{
    let mut k = from;
    while k < s.len()
        invariant
            from <= k,
            find_char(s@, from as int, c) == find_char(s@, k as int, c),
        decreases s.len() - k,
    {
        if s[k] == c {
            return Some(k);
        }
        k = k + 1;
    }
    None
}

/// Computes `comment_end`.
fn comment_end_from(s: &[char], from: usize) -> (r: usize)
    requires
        from <= s.len(),
    ensures
        r == comment_end(s@, from as int),
        from <= r <= s.len(),
{
    match find_char_from(s, from, '\n') {
        Some(k) => k + 1,
        None => match find_char_from(s, from, '\r') {
            Some(k) => k + 1,
            None => s.len(),
        },
    }
}

/// Brace depths are bounded by the position, so they never overflow.
pub open spec fn depths_bounded(active: Option<Active>, code: Seq<CodeContext>, pos: int) -> bool {
    &&& (active matches Some(Active::Code(ctx)) ==> ctx.brace_depth <= pos)
    &&& forall|j: int| 0 <= j < code.len() ==> (#[trigger] code[j]).brace_depth <= pos
}

/// Performs `scan_step`, returning the next position, the next active
/// context, and the end and position of a placeholder that starts at `i`.
fn step(
    s: &[char],
    i: usize,
    a: Active,
    code: &mut Vec<CodeContext>,
    strings: &mut Vec<StringStart>,
) -> (r: (usize, Option<Active>, Option<(usize, TokenPosition)>))
    requires
        i < s.len(),
        depths_bounded(Some(a), old(code)@, i as int),
    ensures
        ({
            let ((i2, a2, c2, s2), t) = scan_step(s@, i as int, a, old(code)@, old(strings)@);
            &&& r.0 == i2
            &&& r.1 == a2
            &&& final(code)@ == c2
            &&& final(strings)@ == s2
            &&& (t is Some <==> r.2 is Some)
            &&& (r.2 matches Some((e, p)) ==> t == Some((i as int, e as int, p)))
        }),
        i < r.0 <= s.len(),
        r.2 matches Some((e, p)) ==> e == r.0 && i + 3 < e,
        depths_bounded(r.1, final(code)@, r.0 as int),
{
    let c = s[i];
    match a {
        Active::Code(ctx) => {
            if c == '#' {
                match placeholder_at(s, i) {
                    Some(e) => (e, Some(a), Some((e, TokenPosition::Code))),
                    None => {
                        let e = comment_end_from(s, i + 1);
                        (e, Some(a), None)
                    },
                }
            } else {
                match string_start(s, i) {
                    Some((st, e)) => {
                        code.push(ctx);
                        (e, Some(Active::Str(st)), None)
                    },
                    None => {
                        if c == '}' && ctx.in_expr_hole && ctx.brace_depth == 0 {
                            match strings.pop() {
                                Some(st) => (i + 1, Some(Active::Str(st)), None),
                                None => (i + 1, None, None),
                            }
                        } else if c == '{' && ctx.in_expr_hole {
                            let next = CodeContext { in_expr_hole: true, brace_depth: ctx.brace_depth + 1 };
                            (i + 1, Some(Active::Code(next)), None)
                        } else if c == '}' && ctx.in_expr_hole {
                            let next = CodeContext { in_expr_hole: true, brace_depth: ctx.brace_depth - 1 };
                            (i + 1, Some(Active::Code(next)), None)
                        } else {
                            (i + 1, Some(a), None)
                        }
                    },
                }
            }
        },
        Active::Str(st) => {
            if c == '#' {
                match placeholder_at(s, i) {
                    Some(e) => if st.triple || st.interp {
                        (e, Some(a), Some((e, TokenPosition::String)))
                    } else {
                        (e, Some(a), None)
                    },
                    None => (i + 1, Some(a), None),
                }
            } else if c == '\\' {
                if i + 1 < s.len() {
                    (i + 2, Some(a), None)
                } else {
                    (i + 1, Some(a), None)
                }
            } else if let Some(q) = quote_char(c) {
                let triple = is_tripled(s, i);
                let e = if triple {
                    i + 3
                } else {
                    i + 1
                };
                if q == st.quote && triple == st.triple {
                    match code.pop() {
                        Some(ctx) => (e, Some(Active::Code(ctx)), None),
                        None => (e, None, None),
                    }
                } else {
                    (e, Some(a), None)
                }
            } else if c == '{' {
                if i + 1 < s.len() && s[i + 1] == '{' {
                    (i + 2, Some(a), None)
                } else if st.interp {
                    strings.push(st);
                    (i + 1, Some(Active::Code(CodeContext { in_expr_hole: true, brace_depth: 0 })), None)
                } else {
                    (i + 1, Some(a), None)
                }
            } else if c == '}' && i + 1 < s.len() && s[i + 1] == '}' {
                (i + 2, Some(a), None)
            } else {
                (i + 1, Some(a), None)
            }
        },
    }
}

/// Scans Python source text for `#{name}` placeholders, yielding a
/// [`PlaceholderToken`] for each. Tracks string boundaries and expression
/// holes in alternating stacks, so that it can tell placeholders in code
/// from placeholders in strings, and ignore those in comments and in plain
/// single-line strings.
pub struct Scanner {
    chars: Vec<char>,
    pos: usize,
    byte: usize,
    active: Option<Active>,
    code: Vec<CodeContext>,
    strings: Vec<StringStart>,
}

impl Scanner {
    /// The scanner's internal invariant.
    pub closed spec fn wf(self) -> bool {
        &&& self.pos <= self.chars@.len()
        &&& self.byte == byte_offset(self.chars@, self.pos as int)
        &&& utf8_len(self.chars@) <= usize::MAX
        &&& depths_bounded(self.active, self.code@, self.pos as int)
    }

    /// The source being scanned.
    pub closed spec fn source(self) -> Seq<char> {
        self.chars@
    }

    /// The placeholders not yet yielded.
    pub closed spec fn remaining(self) -> Seq<ScanHit> {
        scan_from(self.chars@, self.pos as int, self.active, self.code@, self.strings@)
    }

    /// Creates a new scanner for the given source text.
    pub fn new(source: &str) -> (r: Self)
        ensures
            r.wf(),
            r.source() == source@,
            r.remaining() == scan_source(source@),
    {
        let chars = chars_of(source);
        let n = byte_len(source);
        proof {
            assert(chars@.take(0) =~= Seq::<char>::empty());
        }
        Scanner {
            chars,
            pos: 0,
            byte: 0,
            active: Some(Active::Code(CodeContext { in_expr_hole: false, brace_depth: 0 })),
            code: Vec::new(),
            strings: Vec::new(),
        }
    }

    /// Yields the next placeholder.
    pub fn next(&mut self) -> (r: Option<PlaceholderToken>)
        requires
            old(self).wf(),
        ensures
            final(self).wf(),
            final(self).source() == old(self).source(),
            old(self).remaining().len() == 0 ==> r is None,
            old(self).remaining().len() == 0 ==> final(self).remaining().len() == 0,
            old(self).remaining().len() > 0 ==> (r matches Some(t) && t.parts() == hit_parts(
                old(self).source(),
                old(self).remaining()[0],
            )),
            old(self).remaining().len() > 0 ==> final(self).remaining()
                == old(self).remaining().drop_first(),
    {
        match self.next_hit() {
            Some((t, _, _)) => Some(t),
            None => None,
        }
    }

    /// Yields the next placeholder, with its start and end character indices.
    pub(crate) fn next_hit(&mut self) -> (r: Option<(PlaceholderToken, usize, usize)>)
        requires
            old(self).wf(),
        ensures
            final(self).wf(),
            final(self).source() == old(self).source(),
            old(self).remaining().len() == 0 ==> r is None,
            old(self).remaining().len() == 0 ==> final(self).remaining().len() == 0,
            old(self).remaining().len() > 0 ==> (r matches Some((t, i, e)) && t.parts() == hit_parts(
                old(self).source(),
                old(self).remaining()[0],
            ) && old(self).remaining()[0] == (i as int, e as int, t.pos)),
            old(self).remaining().len() > 0 ==> final(self).remaining()
                == old(self).remaining().drop_first(),
    {
        let ghost all = old(self).remaining();
        loop
            invariant
                self.wf(),
                self.chars@ == old(self).chars@,
                self.remaining() == all,
                all == old(self).remaining(),
            decreases self.chars@.len() - self.pos,
        {
            let a = match self.active {
                Some(a) => a,
                None => {
                    return None;
                },
            };
            if self.pos >= self.chars.len() {
                self.active = None;
                return None;
            }
            let i = self.pos;
            let (next, active, tok) = step(
                self.chars.as_slice(),
                i,
                a,
                &mut self.code,
                &mut self.strings,
            );
            let byte_next = advance_bytes(self.chars.as_slice(), i, next, self.byte);
            let byte_i = self.byte;
            self.pos = next;
            self.byte = byte_next;
            self.active = active;
            proof {
                lemma_byte_offset_bounds(self.chars@, next as int);
            }
            if let Some((e, p)) = tok {
                let mut name = String::new();
                push_chars(&mut name, self.chars.as_slice(), i + 2, e - 1);
                return Some((PlaceholderToken { name, span: byte_i..byte_next, pos: p }, i, e));
            }
        }
    }

    /// All remaining placeholders, in order.
    pub fn collect_tokens(self) -> (r: Vec<PlaceholderToken>)
        requires
            self.wf(),
        ensures
            r@.len() == self.remaining().len(),
            forall|j: int|
                0 <= j < r@.len() ==> #[trigger] r@[j].parts() == hit_parts(
                    self.source(),
                    self.remaining()[j],
                ),
    {
        let ghost all = self.remaining();
        let mut it = self;
        let mut out: Vec<PlaceholderToken> = Vec::new();
        loop
            invariant
                it.wf(),
                it.source() == self.source(),
                all == self.remaining(),
                out@.len() + it.remaining().len() == all.len(),
                it.remaining() == all.subrange(out@.len() as int, all.len() as int),
                forall|j: int|
                    0 <= j < out@.len() ==> #[trigger] out@[j].parts() == hit_parts(
                        self.source(),
                        all[j],
                    ),
            decreases it.remaining().len(),
        {
            let ghost before = it.remaining();
            match it.next() {
                Some(t) => {
                    proof {
                        assert(before.drop_first() =~= all.subrange(
                            out@.len() + 1int,
                            all.len() as int,
                        ));
                    }
                    out.push(t);
                },
                None => {
                    return out;
                },
            }
        }
    }
}

// MARK: Placeholder scanner, laws

/// Every hit is a placeholder occurrence at or after `lo`, and hits come in
/// source order without overlapping.
pub open spec fn hits_in_order(s: Seq<char>, hits: Seq<ScanHit>, lo: int) -> bool {
    &&& forall|k: int|
        0 <= k < hits.len() ==> lo <= (#[trigger] hits[k]).0 && py_placeholder_end(s, hits[k].0)
            == Some(hits[k].1)
    &&& forall|k: int| 0 <= k < hits.len() - 1 ==> (#[trigger] hits[k]).1 <= hits[k + 1].0
}

proof fn lemma_find_char(s: Seq<char>, from: int, c: char)
    requires
        0 <= from,
    ensures
        find_char(s, from, c) matches Some(k) ==> from <= k < s.len() && s[k] == c,
    decreases s.len() - from,
{
    if from < s.len() && s[from] != c {
        lemma_find_char(s, from + 1, c);
    }
}

proof fn lemma_placeholder_end(s: Seq<char>, i: int)
    ensures
        py_placeholder_end(s, i) matches Some(e) ==> i + 3 < e <= s.len(),
{
    if 0 <= i && i + 2 < s.len() {
        lemma_word_run(s, i + 3, IdentClass::Python);
    }
}

/// A step moves forward, and a hit it yields is the placeholder that starts
/// where the step started and ends where the step ends.
proof fn lemma_scan_step(
    s: Seq<char>,
    i: int,
    a: Active,
    code: Seq<CodeContext>,
    strings: Seq<StringStart>,
)
    requires
        0 <= i < s.len(),
    ensures
        ({
            let ((i2, a2, c2, s2), t) = scan_step(s, i, a, code, strings);
            &&& i < i2 <= s.len()
            &&& (t matches Some(h) ==> h.0 == i && h.1 == i2 && py_placeholder_end(s, i) == Some(
                i2,
            ))
        }),
{
    lemma_placeholder_end(s, i);
    lemma_find_char(s, i + 1, '\n');
    lemma_find_char(s, i + 1, '\r');
}

/// The hits of a scan from position `i` are placeholders at or after `i`,
/// in source order, without overlap.
proof fn lemma_scan_from_in_order(
    s: Seq<char>,
    i: int,
    active: Option<Active>,
    code: Seq<CodeContext>,
    strings: Seq<StringStart>,
)
    requires
        0 <= i,
    ensures
        hits_in_order(s, scan_from(s, i, active, code, strings), i),
        forall|k: int|
            0 <= k < scan_from(s, i, active, code, strings).len() ==> (#[trigger] scan_from(
                s,
                i,
                active,
                code,
                strings,
            )[k]).1 <= s.len(),
    decreases s.len() - i,
{
    let hits = scan_from(s, i, active, code, strings);
    match active {
        None => {},
        Some(a) => {
            if i < s.len() {
                lemma_scan_step(s, i, a, code, strings);
                let ((i2, a2, c2, s2), t) = scan_step(s, i, a, code, strings);
                lemma_scan_from_in_order(s, i2, a2, c2, s2);
                lemma_placeholder_end(s, i);
                let rest = scan_from(s, i2, a2, c2, s2);
                match t {
                    Some(h) => {
                        assert(hits == seq![h] + rest);
                        assert forall|k: int| 0 <= k < hits.len() implies i <= (
                        #[trigger] hits[k]).0 && py_placeholder_end(s, hits[k].0) == Some(
                            hits[k].1,
                        ) && hits[k].1 <= s.len() by {
                            if k > 0 {
                                assert(hits[k] == rest[k - 1]);
                            }
                        }
                        assert forall|k: int| 0 <= k < hits.len() - 1 implies (
                        #[trigger] hits[k]).1 <= hits[k + 1].0 by {
                            if k > 0 {
                                assert(hits[k] == rest[k - 1]);
                                assert(hits[k + 1] == rest[k]);
                            } else {
                                assert(hits[1] == rest[0]);
                            }
                        }
                    },
                    None => {
                        assert(hits == rest);
                    },
                }
            }
        },
    }
}

/// Every placeholder that the scanner reports for a source is a complete
/// `#{name}` occurrence there: `#{`, then a name that starts with an
/// `XID_Start` character or `_` and continues with `XID_Continue`
/// characters, then `}`. The reported name is the text between the braces,
/// and the reported placeholders come in source order without overlapping.
pub proof fn lemma_scan_source_sound(s: Seq<char>)
    ensures
        forall|k: int|
            0 <= k < scan_source(s).len() ==> {
                let h = #[trigger] scan_source(s)[k];
                &&& 0 <= h.0 && h.0 + 3 < h.1 <= s.len()
                &&& s[h.0] == '#' && s[h.0 + 1] == '{' && s[h.1 - 1] == '}'
                &&& (id_start_py(s[h.0 + 2]) || s[h.0 + 2] == '_')
                &&& forall|j: int| h.0 + 3 <= j < h.1 - 1 ==> id_continue_py(#[trigger] s[j])
                &&& hit_parts(s, h).0 == s.subrange(h.0 + 2, h.1 - 1)
            },
        forall|k: int|
            0 <= k < scan_source(s).len() - 1 ==> (#[trigger] scan_source(s)[k]).1 <= scan_source(
                s,
            )[k + 1].0,
{
    let hits = scan_source(s);
    lemma_scan_from_in_order(s, 0, Some(Active::Code(top_level())), seq![], seq![]);
    assert forall|k: int| 0 <= k < hits.len() implies {
        let h = #[trigger] hits[k];
        &&& 0 <= h.0 && h.0 + 3 < h.1 <= s.len()
        &&& s[h.0] == '#' && s[h.0 + 1] == '{' && s[h.1 - 1] == '}'
        &&& (id_start_py(s[h.0 + 2]) || s[h.0 + 2] == '_')
        &&& forall|j: int| h.0 + 3 <= j < h.1 - 1 ==> id_continue_py(#[trigger] s[j])
        &&& hit_parts(s, h).0 == s.subrange(h.0 + 2, h.1 - 1)
    } by {
        let h = hits[k];
        lemma_placeholder_end(s, h.0);
        lemma_word_run(s, h.0 + 3, IdentClass::Python);
    }
}

/// The placeholder tokens, at the level of bytes. In the UTF-8 encoding of
/// the source (the bytes of the `&str`), the byte span of each token holds
/// exactly `#{`, the token's name, `}`; the name starts with an `XID_Start`
/// character or `_` and continues with `XID_Continue` characters; the spans
/// are non-empty, lie within the source, strictly increase and do not
/// overlap. (That an exhausted scanner stays exhausted is a clause of
/// `Scanner::next`.)
pub proof fn lemma_scan_source_bytes(s: Seq<char>)
    ensures
        forall|k: int|
            0 <= k < scan_source(s).len() ==> {
                let t = #[trigger] hit_parts(s, scan_source(s)[k]);
                &&& 0 <= t.1 < t.2 <= encode_utf8(s).len()
                &&& encode_utf8(s).subrange(t.1, t.2) == encode_utf8(seq!['#', '{'] + t.0 + seq!['}'])
                &&& t.0.len() > 0
                &&& (id_start_py(t.0[0]) || t.0[0] == '_')
                &&& forall|j: int| 1 <= j < t.0.len() ==> id_continue_py(#[trigger] t.0[j])
            },
        forall|k: int|
            0 <= k < scan_source(s).len() - 1 ==> (#[trigger] hit_parts(s, scan_source(s)[k])).2
                <= hit_parts(s, scan_source(s)[k + 1]).1,
{
    let hits = scan_source(s);
    lemma_scan_source_sound(s);
    assert forall|k: int| 0 <= k < hits.len() implies {
        let t = #[trigger] hit_parts(s, hits[k]);
        &&& 0 <= t.1 < t.2 <= encode_utf8(s).len()
        &&& encode_utf8(s).subrange(t.1, t.2) == encode_utf8(seq!['#', '{'] + t.0 + seq!['}'])
        &&& t.0.len() > 0
        &&& (id_start_py(t.0[0]) || t.0[0] == '_')
        &&& forall|j: int| 1 <= j < t.0.len() ==> id_continue_py(#[trigger] t.0[j])
    } by {
        let h = hits[k];
        let t = hit_parts(s, h);
        lemma_encode_utf8_range(s, h.0, h.1);
        lemma_byte_offset_mono(s, h.0, h.1);
        assert(s.subrange(h.0, h.1) =~= seq!['#', '{'] + t.0 + seq!['}']);
        assert forall|j: int| 1 <= j < t.0.len() implies id_continue_py(#[trigger] t.0[j]) by {
            assert(t.0[j] == s[h.0 + 2 + j]);
        }
    }
    assert forall|k: int| 0 <= k < hits.len() - 1 implies (#[trigger] hit_parts(s, hits[k])).2
        <= hit_parts(s, hits[k + 1]).1 by {
        lemma_byte_offset_mono(s, hits[k].1, hits[k + 1].0);
    }
}

} // verus!
