//! Collecting JSDoc comments for generated TypeScript syntax trees: each
//! comment is attached, as a leading block comment, to a span of its own.

use vstd::prelude::*;
use swc_common::comments::{Comment, CommentKind, Comments as SwcComments, SingleThreadedComments};
use swc_common::{BytePos, DUMMY_SP};
use vstd::std_specs::cmp::PartialEqSpecImpl;
use crate::text::texts_equal;

verus! {

/// SWC's comment store, `swc_common::comments::SingleThreadedComments`.
#[verifier::external_type_specification]
#[verifier::external_body]
pub struct ExSingleThreadedComments(SingleThreadedComments);

/// The leading comments that a comment store holds: for each position, the
/// comments there in the order they were added, each as whether it is a
/// block comment and its text.
pub uninterp spec fn leading_comments(c: SingleThreadedComments) -> Map<u32, Seq<(bool, Seq<char>)>>;

/// The trailing comments that a comment store holds, read as the leading
/// ones are.
pub uninterp spec fn trailing_comments(c: SingleThreadedComments) -> Map<u32, Seq<(bool, Seq<char>)>>;

/// `SingleThreadedComments::default()`. Claimed: the new store holds no
/// leading and no trailing comment (its derived `Default` starts from empty
/// maps).
#[verifier::external_body]
fn empty_comment_store() -> (store: SingleThreadedComments)
    ensures
        leading_comments(store).dom() == Set::<u32>::empty(),
        trailing_comments(store).dom() == Set::<u32>::empty(),
{
    SingleThreadedComments::default()
}

/// `SingleThreadedComments::add_leading`, with a block comment of text `text`
/// and a dummy span. Claimed: the comment is appended to those at `pos`
/// (the source pushes it onto the entry for `pos`, created empty if absent);
/// no other position changes, and the trailing comments stay as they are.
#[verifier::external_body]
fn add_leading_block(store: &mut SingleThreadedComments, pos: u32, text: &str)
    ensures
        trailing_comments(*final(store)) == trailing_comments(*old(store)),
        leading_comments(*final(store)) == leading_comments(*old(store)).insert(
            pos,
            if leading_comments(*old(store)).contains_key(pos) {
                leading_comments(*old(store))[pos]
            } else {
                Seq::<(bool, Seq<char>)>::empty()
            }.push((true, text@)),
        ),
{
    let comment = Comment { kind: CommentKind::Block, span: DUMMY_SP, text: text.into() };
    store.add_leading(BytePos(pos), comment);
}

/// The first position that `Comments` hands out: `BytePos` reserves the
/// offsets above `u32::MAX - 2^16` for comments.
pub open spec fn first_comment_pos() -> u32 {
    0xFFFE_FFFFu32
}

/// An empty span at a position: where a comment is attached.
#[derive(Clone, Copy, Debug, PartialEq, Eq, Structural)]
pub struct Span {
    pub lo: u32,
    pub hi: u32,
}

/// Collects JSDoc `/** ... */` comments for generated syntax trees.
#[derive(Debug)]
pub struct Comments {
    inner: SingleThreadedComments,
    offset: u32,
}

impl Comments {
    #[verifier::type_invariant]
    spec fn wf(self) -> bool {
        &&& first_comment_pos() <= self.offset
        &&& forall|k: u32| #[trigger] leading_comments(self.inner).contains_key(k) ==> first_comment_pos()
            <= k < self.offset
        &&& trailing_comments(self.inner).dom() == Set::<u32>::empty()
    }

    /// The comments attached so far, by position.
    pub closed spec fn leading(self) -> Map<u32, Seq<(bool, Seq<char>)>> {
        leading_comments(self.inner)
    }

    /// The trailing comments, by position: there are never any.
    pub closed spec fn trailing(self) -> Map<u32, Seq<(bool, Seq<char>)>> {
        trailing_comments(self.inner)
    }

    /// The position that the next span will have.
    pub closed spec fn next_pos(self) -> u32 {
        self.offset
    }

    pub fn new() -> (r: Self)
        ensures
            r.leading() == Map::<u32, Seq<(bool, Seq<char>)>>::empty(),
            r.trailing() == Map::<u32, Seq<(bool, Seq<char>)>>::empty(),
            r.next_pos() == first_comment_pos(),
    {
        let r = Comments { inner: empty_comment_store(), offset: 0xFFFE_FFFF };
        assert(r.leading() =~= Map::<u32, Seq<(bool, Seq<char>)>>::empty());
        assert(r.trailing() =~= Map::<u32, Seq<(bool, Seq<char>)>>::empty());
        r
    }

    /// Allocates a unique span with a pre-formatted block comment. `text` is
    /// the raw content between `/*` and `*/`; an empty text attaches no
    /// comment.
    pub fn span_with_comment(&mut self, text: &str) -> (r: Span)
        requires
            old(self).next_pos() < u32::MAX,
        ensures
            allocates(*old(self), text@, *final(self), r),
            r.lo == old(self).next_pos(),
            r.hi == r.lo,
            final(self).next_pos() == old(self).next_pos() + 1,
            !old(self).leading().contains_key(r.lo),
            text@.len() > 0 ==> final(self).leading() == old(self).leading().insert(
                r.lo,
                seq![(true, text@)],
            ),
            text@.len() == 0 ==> final(self).leading() == old(self).leading(),
            final(self).trailing() == Map::<u32, Seq<(bool, Seq<char>)>>::empty(),
    {
        proof {
            use_type_invariant(&*self);
        }
        let pos = self.offset;
        let mut store = empty_comment_store();
        std::mem::swap(&mut store, &mut self.inner);
        if !text.is_empty() {
            add_leading_block(&mut store, pos, text);
            proof {
                assert(seq![(true, text@)] =~= Seq::<(bool, Seq<char>)>::empty().push((true, text@)));
            }
        }
        self.offset = pos + 1;
        self.inner = store;
        Span { lo: pos, hi: pos }
    }

    /// The position that the next span will have.
    pub fn next_position(&self) -> (r: u32)
        ensures
            r == self.next_pos(),
    {
        self.offset
    }

    /// The comment store, for SWC functions that take comments. SWC's store
    /// keeps its maps behind a shared, reference-counted cell: a clone of the
    /// returned store shares them, and comments added or taken through such
    /// a clone, outside this type, change the store that `leading` and
    /// `trailing` describe. The contract states the store's contents at the
    /// call, and holds as long as no one changes it through such a clone.
    pub fn store(&self) -> (r: &SingleThreadedComments)
        ensures
            leading_comments(*r) == self.leading(),
            trailing_comments(*r) == Map::<u32, Seq<(bool, Seq<char>)>>::empty(),
    {
        proof {
            use_type_invariant(self);
            assert(trailing_comments(self.inner) =~= Map::<u32, Seq<(bool, Seq<char>)>>::empty());
        }
        &self.inner
    }
}

impl Default for Comments {
    /// The same as `Comments::new()`: no comment, and spans handed out from
    /// the first comment position on.
    fn default() -> (r: Self)
        ensures
            r.leading() == Map::<u32, Seq<(bool, Seq<char>)>>::empty(),
            r.trailing() == Map::<u32, Seq<(bool, Seq<char>)>>::empty(),
            r.next_pos() == first_comment_pos(),
    {
        Comments::new()
    }
}

/// One call of `span_with_comment` on `before`, with `text`, leaves `after`
/// and returns `span`.
pub open spec fn allocates(before: Comments, text: Seq<char>, after: Comments, span: Span) -> bool {
    &&& span.lo == before.next_pos()
    &&& span.hi == span.lo
    &&& after.next_pos() == before.next_pos() + 1
    &&& text.len() > 0 ==> after.leading() == before.leading().insert(span.lo, seq![(true, text)])
    &&& text.len() == 0 ==> after.leading() == before.leading()
}

/// Spans are unique: of two successive allocations, the second span starts
/// after the first, and the first one's comment is still there, unchanged.
pub proof fn lemma_spans_unique(
    a: Comments,
    t1: Seq<char>,
    b: Comments,
    s1: Span,
    t2: Seq<char>,
    c: Comments,
    s2: Span,
)
    requires
        allocates(a, t1, b, s1),
        allocates(b, t2, c, s2),
    ensures
        s1.lo < s2.lo,
        t1.len() > 0 ==> c.leading().contains_key(s1.lo) && c.leading()[s1.lo] == seq![(true, t1)],
{
}

/// A pre-built JSDoc comment that can be interpolated into a TypeScript
/// syntax tree.
#[derive(Debug, Eq)]
pub struct JsDoc {
    text: String,
}

impl PartialEq for JsDoc {
    fn eq(&self, other: &Self) -> (r: bool) {
        texts_equal(self.text.as_str(), other.text.as_str())
    }
}

impl PartialEqSpecImpl for JsDoc {
    open spec fn obeys_eq_spec() -> bool {
        true
    }

    open spec fn eq_spec(&self, other: &JsDoc) -> bool {
        self.view() == other.view()
    }
}

impl Clone for JsDoc {
    fn clone(&self) -> (r: Self)
        ensures
            r.view() == self.view(),
    {
        JsDoc { text: self.text.clone() }
    }
}

impl JsDoc {
    /// The comment's text.
    pub closed spec fn view(self) -> Seq<char> {
        self.text@
    }

    /// Creates a [`JsDoc`] from a user-facing text string.
    pub fn new(text: &str) -> (r: Self)
        ensures
            r.view() == text@,
    {
        JsDoc { text: text.to_owned() }
    }

    /// Returns the comment text (between `/*` and `*/`), excluding the
    /// leading `*` prefix that marks a JSDoc block comment.
    pub fn raw_text(&self) -> (r: String)
        ensures
            r@ == self.view(),
    {
        self.text.clone()
    }
}

} // verus!
