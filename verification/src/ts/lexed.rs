//! TypeScript source as SWC's lexer sees it: the tokens that placeholder
//! scanning needs to tell apart, with their byte positions, and the comments
//! with their positions and text.

use vstd::prelude::*;
use vstd::multiset::Multiset;
use vstd::string::StrSliceExecFns;
use swc_common::comments::{CommentKind, SingleThreadedComments};
use swc_common::sync::Lrc;
use swc_common::{FileName, SourceMap};
use swc_ecma_ast::EsVersion;
use swc_ecma_parser::unstable::Token;
use swc_ecma_parser::{Lexer, StringInput, Syntax, TsSyntax};

verus! {

/// The kinds of token that placeholder scanning tells apart.
#[derive(Clone, Copy, Debug, PartialEq, Eq, Structural)]
pub enum TokenKind {
    /// `#`
    Hash,
    /// `{`
    LBrace,
    /// `}`
    RBrace,
    /// An identifier, keyword or other word.
    Word,
    /// Any other token.
    Other,
}

/// A token: its kind and its byte span, in the positions of SWC's source map.
#[derive(Clone, Copy, Debug)]
pub struct LexedToken {
    pub kind: TokenKind,
    pub lo: u32,
    pub hi: u32,
}

impl LexedToken {
    pub open spec fn view(self) -> (TokenKind, u32, u32) {
        (self.kind, self.lo, self.hi)
    }
}

/// A comment: where it starts (at its `/*` or `//`), in the positions of
/// SWC's source map, whether it is a block comment (`/* ... */`) rather than
/// a line comment (`// ...`), and its text after that opening.
#[derive(Debug)]
pub struct LexedComment {
    pub lo: u32,
    pub block: bool,
    pub text: String,
}

impl LexedComment {
    pub open spec fn view(self) -> (u32, bool, Seq<char>) {
        (self.lo, self.block, self.text@)
    }
}

/// The views of `tokens`.
pub open spec fn token_views(tokens: Seq<LexedToken>) -> Seq<(TokenKind, u32, u32)> {
    tokens.map_values(|t: LexedToken| t.view())
}

/// The views of `comments`, without their order.
pub open spec fn comment_set(comments: Seq<LexedComment>) -> Multiset<(u32, bool, Seq<char>)> {
    comments.map_values(|c: LexedComment| c.view()).to_multiset()
}

/// What SWC's TypeScript lexer makes of `source` in a fresh source map: the
/// position at which the source starts, its tokens in order, and the
/// comments it collects, leading and trailing together.
pub uninterp spec fn ts_lexed(source: Seq<char>) -> (
    u32,
    Seq<(TokenKind, u32, u32)>,
    Multiset<(u32, bool, Seq<char>)>,
);

/// The comments, leading and trailing, that a comment store holds: each as
/// the start of its span, whether it is a block comment, and its text.
pub uninterp spec fn stored_comments(store: SingleThreadedComments) -> Multiset<
    (u32, bool, Seq<char>),
>;

/// Runs `swc_ecma_parser::Lexer` (TypeScript syntax, latest ECMAScript
/// version) over `source`, as the only file of a fresh `swc_common::SourceMap`,
/// collecting comments into a fresh `SingleThreadedComments`. Each token is
/// sorted into the kinds that placeholder scanning tells apart: `Token::Hash`,
/// `Token::LBrace` and `Token::RBrace` one each, the tokens for which
/// `Token::is_word` holds as words, the rest as other tokens. Claimed: the
/// start position of the file and the tokens, in the order the lexer yields
/// them, are the named function of the source, and the store holds the named
/// comments of the source.
#[verifier::external_body]
pub(crate) fn lex_typescript(source: &str) -> (lexed: (u32, Vec<LexedToken>, SingleThreadedComments))
    ensures
        lexed.0 == ts_lexed(source@).0,
        token_views(lexed.1@) == ts_lexed(source@).1,
        stored_comments(lexed.2) == ts_lexed(source@).2,
{
    let map: Lrc<SourceMap> = Default::default();
    let file = map.new_source_file(FileName::Anon.into(), source.to_owned());
    let comments = SingleThreadedComments::default();
    let syntax = Syntax::Typescript(TsSyntax::default());
    let lexer = Lexer::new(syntax, EsVersion::latest(), StringInput::from(&*file), Some(&comments));
    let tokens = lexer.map(|t| {
        let kind = match t.token {
            Token::Hash => TokenKind::Hash,
            Token::LBrace => TokenKind::LBrace,
            Token::RBrace => TokenKind::RBrace,
            other => if other.is_word() { TokenKind::Word } else { TokenKind::Other },
        };
        LexedToken { kind, lo: t.span.lo.0, hi: t.span.hi.0 }
    });
    (file.start_pos.0, tokens.collect(), comments)
}

/// `SingleThreadedComments::take_all`, with the leading and then the trailing
/// comments listed, each with the start of its span, whether its
/// `CommentKind` is `Block`, and its text. Claimed: the list holds the
/// store's comments, each once.
/// Their order is left unsaid: it is the order in which the store's hash
/// maps are walked.
#[verifier::external_body]
pub(crate) fn comment_list(store: SingleThreadedComments) -> (list: Vec<LexedComment>)
    ensures
        comment_set(list@) == stored_comments(store),
{
    let (leading, trailing) = store.take_all();
    let all = leading.take().into_values().chain(trailing.take().into_values()).flatten();
    all.map(|c| {
        let block = match c.kind {
            CommentKind::Block => true,
            CommentKind::Line => false,
        };
        LexedComment { lo: c.span.lo.0, block, text: c.text.to_string() }
    }).collect()
}

/// JSDoc comments are block comments that start with `/**`, so the comment
/// text (everything after `/*`) starts with exactly one `*`.
pub open spec fn is_jsdoc_text(text: Seq<char>) -> bool {
    text.len() >= 1 && text[0] == '*' && !(text.len() >= 2 && text[1] == '*')
}

/// Whether a comment's text marks it as a JSDoc comment.
pub fn is_jsdoc(text: &str) -> (r: bool)
    ensures
        r == is_jsdoc_text(text@),
{
    let n = text.unicode_len();
    if n == 0 || text.get_char(0) != '*' {
        return false;
    }
    !(n >= 2 && text.get_char(1) == '*')
}

} // verus!
