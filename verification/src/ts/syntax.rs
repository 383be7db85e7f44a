//! SWC's parser on TypeScript text: the syntax tree it returns, kept with
//! the text it was parsed from, and the shape that choosing the output
//! reads off it. Only this module makes a `SyntaxTree`.

use vstd::prelude::*;
use vstd::multiset::Multiset;
use swc_common::comments::SingleThreadedComments;
use swc_common::sync::Lrc;
use swc_common::{FileName, SourceMap};
use swc_ecma_ast::{ClassMember, Decl, EsVersion, Expr, ModuleDecl, ModuleItem, Stmt};
use swc_ecma_parser::error::Error as ParserError;
use swc_ecma_parser::{Lexer, Parser, StringInput, Syntax, TsSyntax};
use crate::ts::lexed::stored_comments;
use crate::ts::parse::{ItemShape, ItemShapeView, ParseEntry};

verus! {

/// SWC's module item, `swc_ecma_ast::ModuleItem`.
#[verifier::external_type_specification]
#[verifier::external_body]
pub struct ExModuleItem(ModuleItem);

/// SWC's expression, `swc_ecma_ast::Expr`.
#[verifier::external_type_specification]
#[verifier::external_body]
pub struct ExExpr(Expr);

/// SWC's statement, `swc_ecma_ast::Stmt`.
#[verifier::external_type_specification]
#[verifier::external_body]
pub struct ExStmt(Stmt);

/// SWC's parse error, `swc_ecma_parser::error::Error`.
#[verifier::external_type_specification]
#[verifier::external_body]
pub struct ExParserError(ParserError);

/// What SWC's parser (TypeScript syntax, latest ECMAScript version) makes of
/// `text` as one module item, as the only file of a fresh source map: the
/// shape of the item, or `None` where the parser rejects the text, and the
/// comments it collects on the way.
pub uninterp spec fn ts_module_item(text: Seq<char>) -> (
    Option<ItemShapeView>,
    Multiset<(u32, bool, Seq<char>)>,
);

/// What SWC's parser makes of `text` as an expression, as `ts_module_item`
/// reads it: whether the expression is an identifier, or `None` where the
/// parser rejects the text, and the comments it collects.
pub uninterp spec fn ts_expression(text: Seq<char>) -> (Option<bool>, Multiset<(u32, bool, Seq<char>)>);

/// What SWC's parser makes of `text` as a statement list item, as
/// `ts_module_item` reads it: whether it accepts the text, and the comments
/// it collects.
pub uninterp spec fn ts_statement(text: Seq<char>) -> (bool, Multiset<(u32, bool, Seq<char>)>);

/// The node that the parser returned.
pub enum ParsedNode {
    Item(ModuleItem),
    Expr(Box<Expr>),
    Stmt(Stmt),
}

pub open spec fn node_entry(node: ParsedNode) -> ParseEntry {
    match node {
        ParsedNode::Item(_) => ParseEntry::ModuleItem,
        ParsedNode::Expr(_) => ParseEntry::Expr,
        ParsedNode::Stmt(_) => ParseEntry::Stmt,
    }
}

/// A node that SWC's parser returned, with the text it was parsed from.
/// Only the parsing functions of this module make one.
pub struct SyntaxTree {
    node: ParsedNode,
    text: Ghost<Seq<char>>,
}

impl SyntaxTree {
    /// The text that the node was parsed from.
    pub closed spec fn source_text(self) -> Seq<char> {
        self.text@
    }

    /// The parser entry point that returned the node.
    pub closed spec fn entry(self) -> ParseEntry {
        node_entry(self.node)
    }

    /// The node.
    pub fn into_node(self) -> (r: ParsedNode)
        ensures
            node_entry(r) == self.entry(),
    {
        self.node
    }
}

/// The shape of a parsed module item: its variant, and the lengths of the
/// lists that choosing the output reads. Called by `parse_module_item` only.
#[verifier::external_body]
fn item_shape(item: &ModuleItem) -> ItemShape {
    match item {
        ModuleItem::Stmt(Stmt::Decl(_)) => decl_shape(item),
        ModuleItem::ModuleDecl(ModuleDecl::Import(i)) => ItemShape::Import { specifiers: i.specifiers.len() },
        ModuleItem::ModuleDecl(ModuleDecl::ExportNamed(e)) => ItemShape::NamedExport {
            specifiers: e.specifiers.len(),
        },
        _ => ItemShape::OtherItem,
    }
}

/// The shape of a parsed module item that is a declaration. Called by
/// `item_shape` only.
#[verifier::external_body]
fn decl_shape(item: &ModuleItem) -> ItemShape {
    match item {
        ModuleItem::Stmt(Stmt::Decl(Decl::TsTypeAlias(_))) => ItemShape::TypeAlias,
        ModuleItem::Stmt(Stmt::Decl(Decl::Class(_))) => ItemShape::Class { members: member_shapes(item) },
        ModuleItem::Stmt(Stmt::Decl(Decl::TsInterface(i))) => ItemShape::Interface {
            elements: i.body.body.len(),
        },
        ModuleItem::Stmt(Stmt::Decl(Decl::Fn(f))) => ItemShape::Function { params: f.function.params.len() },
        _ => ItemShape::OtherDecl,
    }
}

/// For each member of a class declaration, in order: the number of its
/// parameters if it is a constructor, else `None`. Called by `decl_shape`
/// only.
#[verifier::external_body]
fn member_shapes(item: &ModuleItem) -> Vec<Option<usize>> {
    let members: &[ClassMember] = match item {
        ModuleItem::Stmt(Stmt::Decl(Decl::Class(c))) => &c.class.body,
        _ => &[],
    };
    members.iter().map(|m| match m {
        ClassMember::Constructor(ctor) => Some(ctor.params.len()),
        _ => None,
    }).collect()
}

/// `swc_ecma_parser::Parser::parse_module_item` on `text`, as the only file
/// of a fresh `SourceMap`, lexed as TypeScript at the latest ECMAScript
/// version with comments collected into a fresh `SingleThreadedComments`.
/// Besides the item, kept with the text it was parsed from, it returns the
/// item's shape, read off its variants and list lengths. Claimed: the shape,
/// present exactly when the parse succeeds, and the collected comments are
/// the named function of the text.
#[verifier::external_body]
pub(crate) fn parse_module_item(text: &str) -> (r: (Result<SyntaxTree, ParserError>, Option<ItemShape>, SingleThreadedComments))
    ensures
        r.0 is Ok <==> r.1 is Some,
        r.0 matches Ok(t) ==> t.source_text() == text@ && t.entry() == ParseEntry::ModuleItem,
        r.1 matches Some(sh) ==> ts_module_item(text@).0 == Some(sh.view()),
        r.1 is None ==> ts_module_item(text@).0 is None,
        stored_comments(r.2) == ts_module_item(text@).1,
{
    let map: Lrc<SourceMap> = Default::default();
    let file = map.new_source_file(FileName::Anon.into(), text.to_owned());
    let store = SingleThreadedComments::default();
    let syntax = Syntax::Typescript(TsSyntax::default());
    let lexer = Lexer::new(syntax, EsVersion::latest(), StringInput::from(&*file), Some(&store));
    let (tree, shape) = match Parser::new_from(lexer).parse_module_item() {
        Ok(i) => {
            let shape = item_shape(&i);
            (Ok(SyntaxTree { node: ParsedNode::Item(i), text: Ghost(text@) }), Some(shape))
        },
        Err(e) => (Err(e), None),
    };
    (tree, shape, store)
}

/// `swc_ecma_parser::Parser::parse_expr` on `text`, set up as in
/// `parse_module_item`. Besides the expression, kept with the text it was
/// parsed from, it returns whether it is an `Expr::Ident`. Claimed: that
/// flag, present exactly when the parse succeeds, and the collected comments
/// are the named function of the text.
#[verifier::external_body]
pub(crate) fn parse_expression(text: &str) -> (r: (Result<SyntaxTree, ParserError>, Option<bool>, SingleThreadedComments))
    ensures
        r.0 is Ok <==> r.1 is Some,
        r.0 matches Ok(t) ==> t.source_text() == text@ && t.entry() == ParseEntry::Expr,
        r.1 == ts_expression(text@).0,
        stored_comments(r.2) == ts_expression(text@).1,
{
    let map: Lrc<SourceMap> = Default::default();
    let file = map.new_source_file(FileName::Anon.into(), text.to_owned());
    let store = SingleThreadedComments::default();
    let syntax = Syntax::Typescript(TsSyntax::default());
    let lexer = Lexer::new(syntax, EsVersion::latest(), StringInput::from(&*file), Some(&store));
    let (tree, ident) = match Parser::new_from(lexer).parse_expr() {
        Ok(e) => {
            let ident = matches!(*e, Expr::Ident(_));
            (Ok(SyntaxTree { node: ParsedNode::Expr(e), text: Ghost(text@) }), Some(ident))
        },
        Err(e) => (Err(e), None),
    };
    (tree, ident, store)
}

/// `swc_ecma_parser::Parser::parse_stmt_list_item` on `text`, set up as in
/// `parse_module_item`; the statement is kept with the text it was parsed
/// from. Claimed: whether the parse succeeds, and the collected comments,
/// are the named function of the text.
#[verifier::external_body]
pub(crate) fn parse_statement(text: &str) -> (r: (Result<SyntaxTree, ParserError>, bool, SingleThreadedComments))
    ensures
        r.0 is Ok <==> r.1,
        r.0 matches Ok(t) ==> t.source_text() == text@ && t.entry() == ParseEntry::Stmt,
        r.1 == ts_statement(text@).0,
        stored_comments(r.2) == ts_statement(text@).1,
{
    let map: Lrc<SourceMap> = Default::default();
    let file = map.new_source_file(FileName::Anon.into(), text.to_owned());
    let store = SingleThreadedComments::default();
    let syntax = Syntax::Typescript(TsSyntax::default());
    let lexer = Lexer::new(syntax, EsVersion::latest(), StringInput::from(&*file), Some(&store));
    let tree = match Parser::new_from(lexer).parse_stmt_list_item() {
        Ok(st) => Ok(SyntaxTree { node: ParsedNode::Stmt(st), text: Ghost(text@) }),
        Err(e) => Err(e),
    };
    let ok = tree.is_ok();
    (tree, ok, store)
}

} // verus!
