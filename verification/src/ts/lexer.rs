//! Scanners for TypeScript: the `#{name}` placeholder scanner for comment
//! text, the placeholder scanner over the token stream, and the `__tsq_N__`
//! stand-in segmenter.

use vstd::prelude::*;
use crate::segments::{
    IdentClass, is_stand_in_text, joined, lemma_segment_at, lemma_segments_partition,
    next_segment, segment_at, segment_views,
};
use crate::text::{
    advance_bytes, byte_len, byte_offset, chars_of, id_continue_js, id_start_js, is_js_ident_start,
    lemma_byte_offset_bounds, push_chars, utf8_len,
};
use crate::segments::{
    ident_continue, is_ident_continue, lemma_stand_ins_after_non_word_char, lemma_word_run,
    stand_in_texts, word_run,
};
use crate::ts::lexed::{lex_typescript, token_views, ts_lexed, LexedToken, TokenKind};

verus! {

/// The prefix of every TypeScript stand-in.
pub open spec fn ts_stand_in_prefix() -> Seq<char> {
    seq!['_', '_', 't', 's', 'q', '_']
}

/// A token found by the [`StandInScanner`].
#[derive(Clone, Copy, Debug, PartialEq, Eq)]
pub enum StandInToken<'a> {
    /// A stand-in like `__tsq_0__`.
    StandIn(&'a str),
    /// Literal text between stand-ins.
    Text(&'a str),
}

impl<'a> StandInToken<'a> {
    /// Whether this is a stand-in, and its text.
    pub open spec fn parts(self) -> (bool, Seq<char>) {
        match self {
            StandInToken::StandIn(t) => (true, t@),
            StandInToken::Text(t) => (false, t@),
        }
    }
}

/// Scans text for `__tsq_N__` stand-ins, yielding a [`StandInToken`] for
/// each stand-in and for each run of text between them.
pub struct StandInScanner<'a> {
    input: &'a str,
    chars: Vec<char>,
    pos: usize,
}

impl<'a> StandInScanner<'a> {
    #[verifier::type_invariant]
    spec fn wf(self) -> bool {
        &&& self.chars@ == self.input@
        &&& self.pos <= self.chars@.len()
    }

    /// The text being scanned.
    pub closed spec fn source(self) -> Seq<char> {
        self.input@
    }

    /// The index of the next character to scan.
    pub closed spec fn position(self) -> int {
        self.pos as int
    }

    /// The tokens not yet yielded.
    pub open spec fn remaining(self) -> Seq<(bool, Seq<char>)> {
        segment_views(self.source(), self.position(), ts_stand_in_prefix(), IdentClass::Script)
    }

    pub fn new(input: &'a str) -> (r: Self)
        ensures
            r.source() == input@,
            r.position() == 0,
    {
        let chars = chars_of(input);
        StandInScanner { input, chars, pos: 0 }
    }

    /// Yields the next token: a complete stand-in if one starts here, else
    /// a maximal run of identifier characters (so that a stand-in inside
    /// a longer word stays text), else the text up to the next `__tsq_`
    /// that does not stand inside a word, else the rest of the input.
    pub fn next(&mut self) -> (r: Option<StandInToken<'a>>)
        ensures
            final(self).source() == old(self).source(),
            old(self).remaining().len() == 0 ==> r is None,
            old(self).remaining().len() == 0 ==> final(self).remaining().len() == 0,
            old(self).remaining().len() > 0 ==> (r matches Some(t) && t.parts()
                == old(self).remaining()[0]),
            old(self).remaining().len() > 0 ==> final(self).remaining()
                == old(self).remaining().drop_first(),
    {
        proof {
            use_type_invariant(&*self);
        }
        if self.pos >= self.chars.len() {
            return None;
        }
        let prefix = vec!['_', '_', 't', 's', 'q', '_'];
        assert(prefix@ == ts_stand_in_prefix());
        let (is_stand_in, end) = next_segment(self.chars.as_slice(), self.pos, prefix.as_slice(),
            IdentClass::Script);
        let text = self.input.substring_char(self.pos, end);
        let ghost old_pos = self.pos as int;
        self.pos = end;
        proof {
            lemma_segment_at(self.input@, old_pos, ts_stand_in_prefix(), IdentClass::Script);
            let v = segment_views(self.input@, old_pos, ts_stand_in_prefix(), IdentClass::Script);
            assert(v.drop_first() =~= segment_views(
                self.input@,
                end as int,
                ts_stand_in_prefix(),
                IdentClass::Script,
            ));
        }
        if is_stand_in {
            Some(StandInToken::StandIn(text))
        } else {
            Some(StandInToken::Text(text))
        }
    }

    /// All remaining tokens, in order.
    pub fn collect_tokens(self) -> (r: Vec<StandInToken<'a>>)
        ensures
            r@.len() == self.remaining().len(),
            forall|j: int| 0 <= j < r@.len() ==> #[trigger] r@[j].parts() == self.remaining()[j],
    {
        let ghost all = self.remaining();
        let mut it = self;
        let mut out: Vec<StandInToken<'a>> = Vec::new();
        loop
            invariant
                all == self.remaining(),
                out@.len() + it.remaining().len() == all.len(),
                it.remaining() == all.subrange(out@.len() as int, all.len() as int),
                forall|j: int| 0 <= j < out@.len() ==> #[trigger] out@[j].parts() == all[j],
            decreases it.remaining().len(),
        {
            let ghost before = it.remaining();
            match it.next() {
                Some(t) => {
                    proof {
                        assert(before.drop_first() =~= all.subrange(
                            out@.len() + 1int,
                            all.len() as int,
                        ));
                    }
                    out.push(t);
                },
                None => {
                    return out;
                },
            }
        }
    }
}

/// TypeScript stand-in segmentation loses nothing: the tokens of any text are
/// non-empty, joined they give back the text, every `StandIn` token is
/// `__tsq_`, one or more digits, and `__`, and a `StandIn` token
/// that follows a `Text` token follows a character that continues no
/// identifier: a stand-in inside a word stays text.
pub proof fn lemma_ts_stand_in_segmentation(s: Seq<char>)
    ensures
        joined(segment_views(s, 0, ts_stand_in_prefix(), IdentClass::Script)) == s,
        forall|j: int|
            #![trigger segment_views(s, 0, ts_stand_in_prefix(), IdentClass::Script)[j]]
            0 <= j < segment_views(s, 0, ts_stand_in_prefix(), IdentClass::Script).len() ==> {
                let t = segment_views(s, 0, ts_stand_in_prefix(), IdentClass::Script)[j];
                &&& t.1.len() > 0
                &&& t.0 ==> is_stand_in_text(t.1, ts_stand_in_prefix())
            },
        forall|j: int|
            #![trigger segment_views(s, 0, ts_stand_in_prefix(), IdentClass::Script)[j]]
            0 < j < segment_views(s, 0, ts_stand_in_prefix(), IdentClass::Script).len() ==> {
                let t = segment_views(s, 0, ts_stand_in_prefix(), IdentClass::Script)[j];
                let u = segment_views(s, 0, ts_stand_in_prefix(), IdentClass::Script)[j - 1];
                t.0 && !u.0 ==> !ident_continue(IdentClass::Script, u.1.last())
            },
{
    lemma_segments_partition(s, 0, ts_stand_in_prefix(), IdentClass::Script);
    assert(s.subrange(0, s.len() as int) =~= s);
}

/// TypeScript stand-ins do not depend on where a word starts: putting a
/// character that continues no identifier before a text leaves the text's
/// `StandIn` tokens as they are, so a `__tsq_N__` inside a larger word stays
/// text whether or not the word starts the text.
pub proof fn lemma_ts_stand_ins_after_non_word_char(c: char, s: Seq<char>)
    requires
        !id_continue_js(c),
    ensures
        stand_in_texts(segment_views(seq![c] + s, 0, ts_stand_in_prefix(), IdentClass::Script))
            == stand_in_texts(segment_views(s, 0, ts_stand_in_prefix(), IdentClass::Script)),
{
    lemma_stand_ins_after_non_word_char(c, s, ts_stand_in_prefix(), IdentClass::Script);
}

/// A `#{var}` placeholder found by a scanner: the variable name, and the byte
/// span of the entire placeholder, including the surrounding `#{}`.
#[derive(Debug, PartialEq, Eq)]
pub struct PlaceholderToken {
    /// The variable name, without the surrounding `#{}`.
    pub name: String,
    /// The byte span of the entire placeholder.
    pub span: core::ops::Range<usize>,
}

impl PlaceholderToken {
    pub fn new(name: &str, span: core::ops::Range<usize>) -> (r: Self)
        ensures
            r.name@ == name@,
            r.span.start == span.start,
            r.span.end == span.end,
    {
        PlaceholderToken { name: name.to_owned(), span }
    }

    /// The name, and the start and end of the span.
    pub open spec fn parts(self) -> (Seq<char>, int, int) {
        (self.name@, self.span.start as int, self.span.end as int)
    }
}

/// If a `#{name}` placeholder starts at `i` in comment text, its end: `#{`,
/// a JavaScript identifier start, identifier characters, then `}`.
pub open spec fn comment_placeholder_end(s: Seq<char>, i: int) -> Option<int> {
    if 0 <= i && i + 2 < s.len() && s[i] == '#' && s[i + 1] == '{' && id_start_js(s[i + 2]) {
        let k = word_run(s, i + 3, IdentClass::Script);
        if k < s.len() && s[k] == '}' {
            Some(k + 1)
        } else {
            None
        }
    } else {
        None
    }
}

/// The placeholders in comment text from `i`, left to right, as (name, byte
/// start, byte end).
pub open spec fn comment_placeholders(s: Seq<char>, i: int) -> Seq<(Seq<char>, int, int)>
    decreases s.len() - i,
{
    if i < 0 || i >= s.len() {
        seq![]
    } else {
        match comment_placeholder_end(s, i) {
            Some(e) => if e <= i || e > s.len() {
                seq![]
            } else {
                seq![(s.subrange(i + 2, e - 1), byte_offset(s, i) as int, byte_offset(s, e) as int)]
                    + comment_placeholders(s, e)
            },
            None => comment_placeholders(s, i + 1),
        }
    }
}

/// Computes `comment_placeholder_end`.
pub(crate) fn comment_placeholder_at(s: &[char], i: usize) -> (r: Option<usize>)
    requires
        i < s.len(),
    ensures
        r matches Some(e) ==> comment_placeholder_end(s@, i as int) == Some(e as int) && i + 3 < e
            <= s.len(),
        r is None ==> comment_placeholder_end(s@, i as int) is None,
{
    if s.len() - i < 3 || s[i] != '#' || s[i + 1] != '{' || !is_js_ident_start(s[i + 2]) {
        return None;
    }
    let mut k = i + 3;
    while k < s.len() && is_ident_continue(IdentClass::Script, s[k])
        invariant
            i + 3 <= k <= s.len(),
            word_run(s@, i + 3, IdentClass::Script) == word_run(s@, k as int, IdentClass::Script),
        decreases s.len() - k,
    {
        k = k + 1;
    }
    if k < s.len() && s[k] == '}' {
        Some(k + 1)
    } else {
        None
    }
}

/// A character index together with its byte offset.
#[derive(Clone, Copy)]
struct Cursor {
    pos: usize,
    byte: usize,
}

/// Scans comment text for `#{var}` placeholders, yielding a
/// [`PlaceholderToken`] for each, with its byte span in the text.
pub struct CommentScanner {
    chars: Vec<char>,
    at: Cursor,
}

impl CommentScanner {
    #[verifier::type_invariant]
    spec fn wf(self) -> bool {
        &&& self.at.pos <= self.chars@.len()
        &&& self.at.byte == byte_offset(self.chars@, self.at.pos as int)
        &&& utf8_len(self.chars@) <= usize::MAX
    }

    /// The text being scanned.
    pub closed spec fn source(self) -> Seq<char> {
        self.chars@
    }

    /// The placeholders not yet yielded.
    pub closed spec fn remaining(self) -> Seq<(Seq<char>, int, int)> {
        comment_placeholders(self.chars@, self.at.pos as int)
    }

    pub fn new(text: &str) -> (r: Self)
        ensures
            r.source() == text@,
            r.remaining() == comment_placeholders(text@, 0),
    {
        let chars = chars_of(text);
        let n = byte_len(text);
        proof {
            assert(chars@.take(0) =~= Seq::<char>::empty());
        }
        CommentScanner { chars, at: Cursor { pos: 0, byte: 0 } }
    }

    /// Yields the next placeholder, skipping all other text.
    pub fn next(&mut self) -> (r: Option<PlaceholderToken>)
        ensures
            old(self).remaining().len() == 0 ==> r is None,
            old(self).remaining().len() == 0 ==> final(self).remaining().len() == 0,
            old(self).remaining().len() > 0 ==> (r matches Some(t) && t.parts()
                == old(self).remaining()[0]),
            old(self).remaining().len() > 0 ==> final(self).remaining()
                == old(self).remaining().drop_first(),
    {
        proof {
            use_type_invariant(&*self);
        }
        let mut pos = self.at.pos;
        let mut byte = self.at.byte;
        let n = self.chars.len();
        loop
            invariant
                pos <= n == self.chars@.len(),
                byte == byte_offset(self.chars@, pos as int),
                utf8_len(self.chars@) <= usize::MAX,
                self.chars@ == old(self).chars@,
                comment_placeholders(self.chars@, pos as int) == old(self).remaining(),
            decreases n - pos,
        {
            if pos >= n {
                self.at = Cursor { pos, byte };
                return None;
            }
            match comment_placeholder_at(self.chars.as_slice(), pos) {
                Some(e) => {
                    let end = advance_bytes(self.chars.as_slice(), pos, e, byte);
                    let mut name = String::new();
                    push_chars(&mut name, self.chars.as_slice(), pos + 2, e - 1);
                    self.at = Cursor { pos: e, byte: end };
                    return Some(PlaceholderToken { name, span: byte..end });
                },
                None => {
                    proof {
                        crate::text::lemma_byte_offset_step(self.chars@, pos as int);
                        lemma_byte_offset_bounds(self.chars@, pos + 1);
                    }
                    byte = byte + crate::text::char_width(self.chars[pos]);
                    pos = pos + 1;
                },
            }
        }
    }

    /// All remaining placeholders, in order.
    pub fn collect_tokens(self) -> (r: Vec<PlaceholderToken>)
        ensures
            r@.len() == self.remaining().len(),
            forall|j: int| 0 <= j < r@.len() ==> #[trigger] r@[j].parts() == self.remaining()[j],
    {
        let ghost all = self.remaining();
        let mut it = self;
        let mut out: Vec<PlaceholderToken> = Vec::new();
        loop
            invariant
                all == self.remaining(),
                out@.len() + it.remaining().len() == all.len(),
                it.remaining() == all.subrange(out@.len() as int, all.len() as int),
                forall|j: int| 0 <= j < out@.len() ==> #[trigger] out@[j].parts() == all[j],
            decreases it.remaining().len(),
        {
            let ghost before = it.remaining();
            match it.next() {
                Some(t) => {
                    proof {
                        assert(before.drop_first() =~= all.subrange(
                            out@.len() + 1int,
                            all.len() as int,
                        ));
                    }
                    out.push(t);
                },
                None => {
                    return out;
                },
            }
        }
    }
}

// MARK: Source scanner

/// The character index whose byte offset in `s` is `b`, if there is one.
pub open spec fn char_index(s: Seq<char>, b: int) -> Option<int> {
    if exists|k: int| 0 <= k <= s.len() && byte_offset(s, k) == b {
        Some(choose|k: int| 0 <= k <= s.len() && byte_offset(s, k) == b)
    } else {
        None
    }
}

/// Each character boundary has exactly one character index.
pub proof fn lemma_char_index(s: Seq<char>, k: int)
    requires
        0 <= k <= s.len(),
    ensures
        char_index(s, byte_offset(s, k) as int) == Some(k),
{
    let b = byte_offset(s, k) as int;
    assert(0 <= k <= s.len() && byte_offset(s, k) == b);
    let j = choose|j: int| 0 <= j <= s.len() && byte_offset(s, j) == b;
    if j < k {
        crate::text::lemma_byte_offset_mono(s, j, k);
    } else if k < j {
        crate::text::lemma_byte_offset_mono(s, k, j);
    }
}

/// Computes `char_index`.
pub(crate) fn find_char_index(s: &[char], b: u64) -> (r: Option<usize>)
    requires
        utf8_len(s@) <= usize::MAX,
    ensures
        r matches Some(k) ==> k <= s@.len() && char_index(s@, b as int) == Some(k as int),
        r is None ==> char_index(s@, b as int) is None,
{
    let mut k: usize = 0;
    let mut byte: usize = 0;
    loop
        invariant
            k <= s@.len(),
            byte == byte_offset(s@, k as int),
            utf8_len(s@) <= usize::MAX,
            forall|j: int| 0 <= j < k ==> #[trigger] byte_offset(s@, j) < b,
        decreases s@.len() - k,
    {
        proof {
            lemma_byte_offset_bounds(s@, k as int);
        }
        if byte as u64 == b {
            proof {
                lemma_char_index(s@, k as int);
            }
            return Some(k);
        }
        if byte as u64 > b || k == s.len() {
            proof {
                assert forall|j: int| 0 <= j <= s@.len() implies byte_offset(s@, j) != b by {
                    if j > k {
                        crate::text::lemma_byte_offset_mono(s@, k as int, j);
                    }
                }
            }
            return None;
        }
        proof {
            crate::text::lemma_byte_offset_step(s@, k as int);
            lemma_byte_offset_bounds(s@, k + 1);
        }
        byte = byte + crate::text::char_width(s[k]);
        k = k + 1;
    }
}

/// A placeholder in the token stream: its name, its start and end character
/// indices, and its start and end byte offsets.
pub type SourceHit = (Seq<char>, int, int, int, int);

/// If tokens `i` to `i + 3` are `#`, `{`, a word and `}`, each starting where
/// the one before ends, a placeholder: its name is the source text of the
/// word. The tokens' positions count from `start`; they must fall on
/// character boundaries of `s`, in order.
pub open spec fn source_placeholder_at(
    s: Seq<char>,
    start: int,
    toks: Seq<(TokenKind, u32, u32)>,
    i: int,
) -> Option<SourceHit> {
    if 0 <= i && i + 3 < toks.len() {
        let (k0, lo0, hi0) = toks[i];
        let (k1, lo1, hi1) = toks[i + 1];
        let (k2, lo2, hi2) = toks[i + 2];
        let (k3, lo3, hi3) = toks[i + 3];
        if k0 == TokenKind::Hash && k1 == TokenKind::LBrace && k2 == TokenKind::Word && k3
            == TokenKind::RBrace && hi0 == lo1 && hi1 == lo2 && hi2 == lo3 {
            match (
                char_index(s, lo0 - start),
                char_index(s, lo2 - start),
                char_index(s, hi2 - start),
                char_index(s, hi3 - start),
            ) {
                (Some(a), Some(b), Some(c), Some(d)) => if a <= b <= c <= d {
                    Some((s.subrange(b, c), a, d, lo0 - start, hi3 - start))
                } else {
                    None
                },
                _ => None,
            }
        } else {
            None
        }
    } else {
        None
    }
}

/// The placeholders in the token stream from token `i` on: after a
/// placeholder, scanning resumes after its `}`.
pub open spec fn source_placeholders(
    s: Seq<char>,
    start: int,
    toks: Seq<(TokenKind, u32, u32)>,
    i: int,
) -> Seq<SourceHit>
    decreases toks.len() - i,
{
    if i < 0 || i >= toks.len() {
        seq![]
    } else {
        match source_placeholder_at(s, start, toks, i) {
            Some(h) => seq![h] + source_placeholders(s, start, toks, i + 4),
            None => source_placeholders(s, start, toks, i + 1),
        }
    }
}

/// The name and byte span that a source placeholder reports.
pub open spec fn source_hit_parts(h: SourceHit) -> (Seq<char>, int, int) {
    (h.0, h.3, h.4)
}

/// Scans the token stream of a TypeScript source for `#{var}` placeholders,
/// yielding a [`PlaceholderToken`] for each, with its byte span.
pub struct SourceScanner {
    chars: Vec<char>,
    start: u32,
    tokens: Vec<LexedToken>,
    pos: usize,
}

impl SourceScanner {
    #[verifier::type_invariant]
    spec fn wf(self) -> bool {
        &&& self.pos <= self.tokens@.len()
        &&& utf8_len(self.chars@) <= usize::MAX
    }

    /// The source text.
    pub closed spec fn source(self) -> Seq<char> {
        self.chars@
    }

    /// The placeholders not yet yielded.
    pub closed spec fn remaining(self) -> Seq<SourceHit> {
        source_placeholders(
            self.chars@,
            self.start as int,
            token_views(self.tokens@),
            self.pos as int,
        )
    }

    /// A scanner over `tokens`, the tokens of `source` whose positions count
    /// from `start`; none if there are no tokens.
    pub fn new(source: &str, start: u32, tokens: Vec<LexedToken>) -> (r: Option<Self>)
        ensures
            r is None <==> tokens@.len() == 0,
            r matches Some(sc) ==> sc.source() == source@ && sc.remaining() == source_placeholders(
                source@,
                start as int,
                token_views(tokens@),
                0,
            ),
    {
        if tokens.len() == 0 {
            return None;
        }
        let chars = chars_of(source);
        let n = byte_len(source);
        Some(SourceScanner { chars, start, tokens, pos: 0 })
    }

    /// Computes `source_placeholder_at` at the current token.
    fn placeholder_here(&self) -> (r: Option<(usize, usize, usize, usize, u64, u64)>)
        ensures
            r matches Some((a, b, c, d, x, y)) ==> source_placeholder_at(
                self.chars@,
                self.start as int,
                token_views(self.tokens@),
                self.pos as int,
            ) == Some::<SourceHit>(
                (self.chars@.subrange(b as int, c as int), a as int, d as int, x as int, y as int),
            ) && b <= c <= self.chars@.len(),
            r is None ==> source_placeholder_at(
                self.chars@,
                self.start as int,
                token_views(self.tokens@),
                self.pos as int,
            ) is None,
    {
        proof {
            use_type_invariant(self);
        }
        let i = self.pos;
        if self.tokens.len() < 4 || i > self.tokens.len() - 4 {
            return None;
        }
        let t0 = self.tokens[i];
        let t1 = self.tokens[i + 1];
        let t2 = self.tokens[i + 2];
        let t3 = self.tokens[i + 3];
        if !(t0.kind == TokenKind::Hash && t1.kind == TokenKind::LBrace && t2.kind == TokenKind::Word
            && t3.kind == TokenKind::RBrace && t0.hi == t1.lo && t1.hi == t2.lo && t2.hi == t3.lo) {
            return None;
        }
        let st = self.start;
        if t0.lo < st || t2.lo < st || t2.hi < st || t3.hi < st {
            proof {
                assert(token_views(self.tokens@)[i as int] == t0.view());
                assert(token_views(self.tokens@)[i + 2] == t2.view());
                assert(token_views(self.tokens@)[i + 3] == t3.view());
                if t0.lo < st {
                    assert(char_index(self.chars@, t0.lo - st) is None);
                }
                if t2.lo < st {
                    assert(char_index(self.chars@, t2.lo - st) is None);
                }
                if t2.hi < st {
                    assert(char_index(self.chars@, t2.hi - st) is None);
                }
                if t3.hi < st {
                    assert(char_index(self.chars@, t3.hi - st) is None);
                }
            }
            return None;
        }
        let x: u64 = (t0.lo - st) as u64;
        let y: u64 = (t3.hi - st) as u64;
        let a = find_char_index(self.chars.as_slice(), x);
        let b = find_char_index(self.chars.as_slice(), (t2.lo - st) as u64);
        let c = find_char_index(self.chars.as_slice(), (t2.hi - st) as u64);
        let d = find_char_index(self.chars.as_slice(), y);
        proof {
            assert(token_views(self.tokens@)[i as int] == t0.view());
            assert(token_views(self.tokens@)[i + 1] == t1.view());
            assert(token_views(self.tokens@)[i + 2] == t2.view());
            assert(token_views(self.tokens@)[i + 3] == t3.view());
        }
        match (a, b, c, d) {
            (Some(a), Some(b), Some(c), Some(d)) => {
                if a <= b && b <= c && c <= d {
                    Some((a, b, c, d, x, y))
                } else {
                    None
                }
            },
            _ => None,
        }
    }

    /// Yields the next placeholder, with its start and end character indices.
    pub(crate) fn next_hit(&mut self) -> (r: Option<(PlaceholderToken, usize, usize)>)
        ensures
            final(self).source() == old(self).source(),
            old(self).remaining().len() == 0 ==> r is None,
            old(self).remaining().len() == 0 ==> final(self).remaining().len() == 0,
            old(self).remaining().len() > 0 ==> (r matches Some((t, a, d)) && t.parts()
                == source_hit_parts(old(self).remaining()[0]) && a == old(self).remaining()[0].1
                && d == old(self).remaining()[0].2),
            old(self).remaining().len() > 0 ==> final(self).remaining()
                == old(self).remaining().drop_first(),
    {
        proof {
            use_type_invariant(&*self);
        }
        let ghost all = old(self).remaining();
        loop
            invariant
                self.chars@ == old(self).chars@,
                self.remaining() == all,
                all == old(self).remaining(),
            decreases self.tokens@.len() - self.pos,
        {
            proof {
                use_type_invariant(&*self);
            }
            if self.pos >= self.tokens.len() {
                return None;
            }
            match self.placeholder_here() {
                Some((a, b, c, d, x, y)) => {
                    let mut name = String::new();
                    push_chars(&mut name, self.chars.as_slice(), b, c);
                    proof {
                        lemma_byte_offset_bounds(self.chars@, d as int);
                        lemma_char_index_offset(self.chars@, y as int);
                    }
                    self.pos = self.pos + 4;
                    return Some((PlaceholderToken { name, span: x as usize..y as usize }, a, d));
                },
                None => {
                    self.pos = self.pos + 1;
                },
            }
        }
    }

    /// Yields the next placeholder.
    pub fn next(&mut self) -> (r: Option<PlaceholderToken>)
        ensures
            final(self).source() == old(self).source(),
            old(self).remaining().len() == 0 ==> r is None,
            old(self).remaining().len() == 0 ==> final(self).remaining().len() == 0,
            old(self).remaining().len() > 0 ==> (r matches Some(t) && t.parts() == source_hit_parts(
                old(self).remaining()[0],
            )),
            old(self).remaining().len() > 0 ==> final(self).remaining()
                == old(self).remaining().drop_first(),
    {
        match self.next_hit() {
            Some((t, _, _)) => Some(t),
            None => None,
        }
    }

    /// All remaining placeholders, in order.
    pub fn collect_tokens(self) -> (r: Vec<PlaceholderToken>)
        ensures
            r@.len() == self.remaining().len(),
            forall|j: int|
                0 <= j < r@.len() ==> #[trigger] r@[j].parts() == source_hit_parts(
                    self.remaining()[j],
                ),
    {
        let ghost all = self.remaining();
        let mut it = self;
        let mut out: Vec<PlaceholderToken> = Vec::new();
        loop
            invariant
                all == self.remaining(),
                out@.len() + it.remaining().len() == all.len(),
                it.remaining() == all.subrange(out@.len() as int, all.len() as int),
                forall|j: int|
                    0 <= j < out@.len() ==> #[trigger] out@[j].parts() == source_hit_parts(all[j]),
            decreases it.remaining().len(),
        {
            let ghost before = it.remaining();
            match it.next() {
                Some(t) => {
                    proof {
                        assert(before.drop_first() =~= all.subrange(
                            out@.len() + 1int,
                            all.len() as int,
                        ));
                    }
                    out.push(t);
                },
                None => {
                    return out;
                },
            }
        }
    }
}

/// Lexes `source` with SWC and collects all `#{var}` placeholders in its
/// token stream.
pub fn scan_source(source: &str) -> (r: Vec<PlaceholderToken>)
    ensures
        r@.len() == source_placeholders(source@, ts_lexed(source@).0 as int, ts_lexed(source@).1, 0).len(),
        forall|j: int|
            0 <= j < r@.len() ==> #[trigger] r@[j].parts() == source_hit_parts(
                source_placeholders(source@, ts_lexed(source@).0 as int, ts_lexed(source@).1, 0)[j],
            ),
{
    let (start, tokens, _store) = lex_typescript(source);
    match SourceScanner::new(source, start, tokens) {
        Some(scanner) => scanner.collect_tokens(),
        None => Vec::new(),
    }
}

/// A character index found for a byte offset is that offset's index.
proof fn lemma_char_index_offset(s: Seq<char>, b: int)
    ensures
        char_index(s, b) matches Some(k) ==> 0 <= k <= s.len() && byte_offset(s, k) == b,
{
}

} // verus!
