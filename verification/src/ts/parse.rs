//! Parsing preprocessed TypeScript for an output kind: the source is wrapped
//! in the smallest construct that the kind needs, parsed with SWC, and the
//! element the kind asks for is chosen from what was parsed, or the reason it
//! is not there is reported.

use vstd::prelude::*;
use vstd::multiset::Multiset;
use swc_ecma_parser::error::Error as ParserError;
use crate::ts::input::{wrapped_text, OutputKind};
use crate::ts::lexed::{comment_list, comment_set, LexedComment};

use crate::ts::syntax::{
    parse_expression, parse_module_item, parse_statement, ts_expression, ts_module_item,
    ts_statement, SyntaxTree,
};

verus! {

/// What choosing the output element reads of a parsed node: its kind and
/// the number of elements it holds where that matters.
#[derive(Clone, Debug, PartialEq, Eq)]
pub enum ItemShape {
    /// A type alias declaration.
    TypeAlias,
    /// A class declaration, with one entry per member, in order: the number
    /// of the member's parameters if it is a constructor, else `None`.
    Class { members: Vec<Option<usize>> },
    /// An interface declaration with `elements` type elements.
    Interface { elements: usize },
    /// A function declaration with `params` parameters.
    Function { params: usize },
    /// Any other declaration.
    OtherDecl,
    /// An import declaration with `specifiers` specifiers.
    Import { specifiers: usize },
    /// A named export declaration with `specifiers` specifiers.
    NamedExport { specifiers: usize },
    /// Any other module item.
    OtherItem,
    /// An identifier expression.
    Ident,
    /// Any other expression.
    OtherExpr,
    /// A statement or declaration in a statement list.
    Statement,
}

/// What an `ItemShape` says, with the members of a class as a sequence.
pub enum ItemShapeView {
    TypeAlias,
    Class { members: Seq<Option<usize>> },
    Interface { elements: usize },
    Function { params: usize },
    OtherDecl,
    Import { specifiers: usize },
    NamedExport { specifiers: usize },
    OtherItem,
    Ident,
    OtherExpr,
    Statement,
}

impl ItemShape {
    pub open spec fn view(self) -> ItemShapeView {
        match self {
            ItemShape::TypeAlias => ItemShapeView::TypeAlias,
            ItemShape::Class { members } => ItemShapeView::Class { members: members@ },
            ItemShape::Interface { elements } => ItemShapeView::Interface { elements },
            ItemShape::Function { params } => ItemShapeView::Function { params },
            ItemShape::OtherDecl => ItemShapeView::OtherDecl,
            ItemShape::Import { specifiers } => ItemShapeView::Import { specifiers },
            ItemShape::NamedExport { specifiers } => ItemShapeView::NamedExport { specifiers },
            ItemShape::OtherItem => ItemShapeView::OtherItem,
            ItemShape::Ident => ItemShapeView::Ident,
            ItemShape::OtherExpr => ItemShapeView::OtherExpr,
            ItemShape::Statement => ItemShapeView::Statement,
        }
    }
}

/// Which of SWC's parser entry points a kind of output uses.
#[derive(Clone, Copy, Debug, PartialEq, Eq, Structural)]
pub enum ParseEntry {
    /// `Parser::parse_module_item`.
    ModuleItem,
    /// `Parser::parse_expr`.
    Expr,
    /// `Parser::parse_stmt_list_item`.
    Stmt,
}

pub open spec fn parse_entry(kind: OutputKind) -> ParseEntry {
    match kind {
        OutputKind::Ident | OutputKind::Expr => ParseEntry::Expr,
        OutputKind::Stmt => ParseEntry::Stmt,
        _ => ParseEntry::ModuleItem,
    }
}

/// Why the parsed source holds no element of the asked kind.
#[derive(Clone, Copy, Debug, PartialEq, Eq, Structural)]
pub enum Expected {
    Class,
    ClassMember,
    TypeElement,
    Function,
    Param,
    Constructor,
    ConstructorParam,
    Import,
    ImportSpecifier,
    NamedExport,
    ExportSpecifier,
    TypeAlias,
    Declaration,
    Identifier,
    Interface,
}

pub open spec fn expected_message(e: Expected) -> Seq<char> {
    match e {
        Expected::Class => "expected a class declaration"@,
        Expected::ClassMember => "expected exactly one class member"@,
        Expected::TypeElement => "expected exactly one type element"@,
        Expected::Function => "expected a function declaration"@,
        Expected::Param => "expected exactly one param"@,
        Expected::Constructor => "expected a constructor"@,
        Expected::ConstructorParam => "expected exactly one constructor param"@,
        Expected::Import => "expected an import declaration"@,
        Expected::ImportSpecifier => "expected exactly one import specifier"@,
        Expected::NamedExport => "expected a named export declaration"@,
        Expected::ExportSpecifier => "expected exactly one export specifier"@,
        Expected::TypeAlias => "expected a type alias declaration"@,
        Expected::Declaration => "expected a declaration"@,
        Expected::Identifier => "expected an identifier"@,
        Expected::Interface => "expected an interface declaration"@,
    }
}

impl Expected {
    /// The error message.
    pub fn message(&self) -> (r: &'static str)
        ensures
            r@ == expected_message(*self),
    {
        match self {
            Expected::Class => "expected a class declaration",
            Expected::ClassMember => "expected exactly one class member",
            Expected::TypeElement => "expected exactly one type element",
            Expected::Function => "expected a function declaration",
            Expected::Param => "expected exactly one param",
            Expected::Constructor => "expected a constructor",
            Expected::ConstructorParam => "expected exactly one constructor param",
            Expected::Import => "expected an import declaration",
            Expected::ImportSpecifier => "expected exactly one import specifier",
            Expected::NamedExport => "expected a named export declaration",
            Expected::ExportSpecifier => "expected exactly one export specifier",
            Expected::TypeAlias => "expected a type alias declaration",
            Expected::Declaration => "expected a declaration",
            Expected::Identifier => "expected an identifier",
            Expected::Interface => "expected an interface declaration",
        }
    }
}

/// The element of the parsed node that the output is.
#[derive(Clone, Copy, Debug, PartialEq, Eq, Structural)]
pub enum Selection {
    /// The aliased type of a type alias declaration.
    AliasedType,
    /// The only member of a class.
    OnlyClassMember,
    /// The only type element of an interface.
    OnlyTypeElement,
    /// The only parameter of the constructor that ends a class.
    OnlyConstructorParam,
    /// The only parameter of a function.
    OnlyParam,
    /// The only specifier of an import declaration.
    OnlyImportSpecifier,
    /// The only specifier of a named export declaration.
    OnlyExportSpecifier,
    /// The identifier that the expression is.
    Identifier,
    /// The whole expression.
    WholeExpr,
    /// The whole statement.
    WholeStmt,
    /// The whole module item.
    WholeItem,
    /// The declaration that the module item is.
    Declaration,
}

/// The element that `kind` takes from a node of shape `shape`, or why there
/// is none.
pub open spec fn selection_of(kind: OutputKind, shape: ItemShapeView) -> Result<Selection, Expected> {
    match kind {
        OutputKind::TsType => match shape {
            ItemShapeView::TypeAlias => Ok(Selection::AliasedType),
            _ => Err(Expected::TypeAlias),
        },
        OutputKind::ClassMember => match shape {
            ItemShapeView::Class { members } => if members.len() == 1 {
                Ok(Selection::OnlyClassMember)
            } else {
                Err(Expected::ClassMember)
            },
            _ => Err(Expected::Class),
        },
        OutputKind::TsTypeElement => match shape {
            ItemShapeView::Interface { elements } => if elements == 1 {
                Ok(Selection::OnlyTypeElement)
            } else {
                Err(Expected::TypeElement)
            },
            _ => Err(Expected::Interface),
        },
        OutputKind::ParamOrTsParamProp => match shape {
            ItemShapeView::Class { members } => if members.len() == 0 {
                Err(Expected::Constructor)
            } else {
                match members.last() {
                    Some(n) => if n == 1 {
                        Ok(Selection::OnlyConstructorParam)
                    } else {
                        Err(Expected::ConstructorParam)
                    },
                    None => Err(Expected::Constructor),
                }
            },
            _ => Err(Expected::Class),
        },
        OutputKind::Param => match shape {
            ItemShapeView::Function { params } => if params == 1 {
                Ok(Selection::OnlyParam)
            } else {
                Err(Expected::Param)
            },
            _ => Err(Expected::Function),
        },
        OutputKind::ImportSpecifier => match shape {
            ItemShapeView::Import { specifiers } => if specifiers == 1 {
                Ok(Selection::OnlyImportSpecifier)
            } else {
                Err(Expected::ImportSpecifier)
            },
            _ => Err(Expected::Import),
        },
        OutputKind::ExportSpecifier => match shape {
            ItemShapeView::NamedExport { specifiers } => if specifiers == 1 {
                Ok(Selection::OnlyExportSpecifier)
            } else {
                Err(Expected::ExportSpecifier)
            },
            _ => Err(Expected::NamedExport),
        },
        OutputKind::Ident => match shape {
            ItemShapeView::Ident => Ok(Selection::Identifier),
            _ => Err(Expected::Identifier),
        },
        OutputKind::Expr => Ok(Selection::WholeExpr),
        OutputKind::Stmt => Ok(Selection::WholeStmt),
        OutputKind::ModuleItem => Ok(Selection::WholeItem),
        OutputKind::Decl => match shape {
            ItemShapeView::TypeAlias | ItemShapeView::Class { .. } | ItemShapeView::Interface { .. }
            | ItemShapeView::Function { .. } | ItemShapeView::OtherDecl => Ok(Selection::Declaration),
            _ => Err(Expected::Declaration),
        },
    }
}

/// The shape is that of a declaration: a type alias, class, interface,
/// function or any other declaration.
pub open spec fn is_declaration(shape: ItemShapeView) -> bool {
    ||| shape is TypeAlias
    ||| shape is Class
    ||| shape is Interface
    ||| shape is Function
    ||| shape is OtherDecl
}

/// A declaration output is any declaration: every parsed declaration, a
/// type alias among them, is taken whole, and only a module item that is no
/// declaration is refused with `Expected::Declaration`.
pub proof fn lemma_decl_output(shape: ItemShapeView)
    ensures
        is_declaration(shape) ==> selection_of(OutputKind::Decl, shape) == Ok::<Selection, Expected>(
            Selection::Declaration,
        ),
        !is_declaration(shape) ==> selection_of(OutputKind::Decl, shape) == Err::<Selection, Expected>(
            Expected::Declaration,
        ),
{
}

/// The outputs that take one element of a list take it exactly when the
/// parsed node is of the right kind and its list holds exactly one element;
/// a node of the right kind with another number of elements is refused with
/// the "exactly one" error, and a node of another kind with the error that
/// names the kind.
pub proof fn lemma_single_element_outputs(shape: ItemShapeView)
    ensures
        (selection_of(OutputKind::ClassMember, shape) is Ok) <==> (shape matches ItemShapeView::Class {
            members,
        } && members.len() == 1),
        (selection_of(OutputKind::TsTypeElement, shape) is Ok) <==> (
        shape matches ItemShapeView::Interface { elements } && elements == 1),
        (selection_of(OutputKind::Param, shape) is Ok) <==> (shape matches ItemShapeView::Function {
            params,
        } && params == 1),
        (selection_of(OutputKind::ImportSpecifier, shape) is Ok) <==> (
        shape matches ItemShapeView::Import { specifiers } && specifiers == 1),
        (selection_of(OutputKind::ExportSpecifier, shape) is Ok) <==> (
        shape matches ItemShapeView::NamedExport { specifiers } && specifiers == 1),
        (selection_of(OutputKind::ParamOrTsParamProp, shape) is Ok) <==> (
        shape matches ItemShapeView::Class { members } && members.len() > 0 && members.last()
            == Some(1usize)),
        (selection_of(OutputKind::Ident, shape) is Ok) <==> shape is Ident,
        (selection_of(OutputKind::TsType, shape) is Ok) <==> shape is TypeAlias,
        shape is Class ==> selection_of(OutputKind::ClassMember, shape) is Ok || selection_of(
            OutputKind::ClassMember,
            shape,
        ) == Err::<Selection, Expected>(Expected::ClassMember),
        !(shape is Class) ==> selection_of(OutputKind::ClassMember, shape) == Err::<
            Selection,
            Expected,
        >(Expected::Class),
        !(shape is Class) ==> selection_of(OutputKind::ParamOrTsParamProp, shape) == Err::<
            Selection,
            Expected,
        >(Expected::Class),
        !(shape is Interface) ==> selection_of(OutputKind::TsTypeElement, shape) == Err::<
            Selection,
            Expected,
        >(Expected::Interface),
        !(shape is Function) ==> selection_of(OutputKind::Param, shape) == Err::<Selection, Expected>(
            Expected::Function,
        ),
        !(shape is Import) ==> selection_of(OutputKind::ImportSpecifier, shape) == Err::<
            Selection,
            Expected,
        >(Expected::Import),
        !(shape is NamedExport) ==> selection_of(OutputKind::ExportSpecifier, shape) == Err::<
            Selection,
            Expected,
        >(Expected::NamedExport),
{
}

/// Expressions, statements and module items are taken whole, whatever they
/// are.
pub proof fn lemma_whole_outputs(shape: ItemShapeView)
    ensures
        selection_of(OutputKind::Expr, shape) == Ok::<Selection, Expected>(Selection::WholeExpr),
        selection_of(OutputKind::Stmt, shape) == Ok::<Selection, Expected>(Selection::WholeStmt),
        selection_of(OutputKind::ModuleItem, shape) == Ok::<Selection, Expected>(Selection::WholeItem),
{
}

/// Chooses the element that `kind` takes from a node of shape `shape`, or
/// says why there is none.
pub fn select_output(kind: &OutputKind, shape: &ItemShape) -> (r: Result<Selection, Expected>)
    ensures
        r == selection_of(*kind, shape.view()),
{
    match kind {
        OutputKind::TsType => match shape {
            ItemShape::TypeAlias => Ok(Selection::AliasedType),
            _ => Err(Expected::TypeAlias),
        },
        OutputKind::ClassMember => match shape {
            ItemShape::Class { members } => if members.len() == 1 {
                Ok(Selection::OnlyClassMember)
            } else {
                Err(Expected::ClassMember)
            },
            _ => Err(Expected::Class),
        },
        OutputKind::TsTypeElement => match shape {
            ItemShape::Interface { elements } => if *elements == 1 {
                Ok(Selection::OnlyTypeElement)
            } else {
                Err(Expected::TypeElement)
            },
            _ => Err(Expected::Interface),
        },
        OutputKind::ParamOrTsParamProp => match shape {
            ItemShape::Class { members } => if members.len() == 0 {
                Err(Expected::Constructor)
            } else {
                match members[members.len() - 1] {
                    Some(n) => if n == 1 {
                        Ok(Selection::OnlyConstructorParam)
                    } else {
                        Err(Expected::ConstructorParam)
                    },
                    None => Err(Expected::Constructor),
                }
            },
            _ => Err(Expected::Class),
        },
        OutputKind::Param => match shape {
            ItemShape::Function { params } => if *params == 1 {
                Ok(Selection::OnlyParam)
            } else {
                Err(Expected::Param)
            },
            _ => Err(Expected::Function),
        },
        OutputKind::ImportSpecifier => match shape {
            ItemShape::Import { specifiers } => if *specifiers == 1 {
                Ok(Selection::OnlyImportSpecifier)
            } else {
                Err(Expected::ImportSpecifier)
            },
            _ => Err(Expected::Import),
        },
        OutputKind::ExportSpecifier => match shape {
            ItemShape::NamedExport { specifiers } => if *specifiers == 1 {
                Ok(Selection::OnlyExportSpecifier)
            } else {
                Err(Expected::ExportSpecifier)
            },
            _ => Err(Expected::NamedExport),
        },
        OutputKind::Ident => match shape {
            ItemShape::Ident => Ok(Selection::Identifier),
            _ => Err(Expected::Identifier),
        },
        OutputKind::Expr => Ok(Selection::WholeExpr),
        OutputKind::Stmt => Ok(Selection::WholeStmt),
        OutputKind::ModuleItem => Ok(Selection::WholeItem),
        OutputKind::Decl => match shape {
            ItemShape::TypeAlias | ItemShape::Class { .. } | ItemShape::Interface { .. }
            | ItemShape::Function { .. } | ItemShape::OtherDecl => Ok(Selection::Declaration),
            _ => Err(Expected::Declaration),
        },
    }
}

/// The shape of what SWC's parser makes of `text` at the entry point that
/// `kind` uses, or `None` where it rejects the text.
pub open spec fn parsed_shape(kind: OutputKind, text: Seq<char>) -> Option<ItemShapeView> {
    match parse_entry(kind) {
        ParseEntry::ModuleItem => ts_module_item(text).0,
        ParseEntry::Expr => match ts_expression(text).0 {
            Some(is_ident) => Some(
                if is_ident {
                    ItemShapeView::Ident
                } else {
                    ItemShapeView::OtherExpr
                },
            ),
            None => None,
        },
        ParseEntry::Stmt => if ts_statement(text).0 {
            Some(ItemShapeView::Statement)
        } else {
            None
        },
    }
}

/// The comments that parsing `text` at the entry point that `kind` uses
/// collects.
pub open spec fn parsed_comments(kind: OutputKind, text: Seq<char>) -> Multiset<(u32, bool, Seq<char>)> {
    match parse_entry(kind) {
        ParseEntry::ModuleItem => ts_module_item(text).1,
        ParseEntry::Expr => ts_expression(text).1,
        ParseEntry::Stmt => ts_statement(text).1,
    }
}

/// A parsed source: the syntax tree with the text it was parsed from, the
/// element of it that the output is, and the comments that parsing
/// collected.
pub struct ParsedSource {
    pub tree: SyntaxTree,
    pub selection: Selection,
    pub comments: Vec<LexedComment>,
}

/// Why a source could not be parsed as the asked kind.
pub enum ParseSourceError {
    /// SWC's parser rejected the wrapped source.
    Parser(ParserError),
    /// The source parsed, but holds no element of the asked kind.
    Expected(Expected),
}

/// Wraps `source` as `kind` needs, parses it with SWC at the entry point
/// that `kind` uses, and chooses the element that `kind` asks for. Fails
/// with the parser's error where SWC rejects the wrapped source, and with
/// the reason the element is missing where the parsed node lacks it.
pub fn parse_source(source: &str, kind: &OutputKind) -> (r: Result<ParsedSource, ParseSourceError>)
    ensures
        match r {
            Ok(p) => {
                &&& parsed_shape(*kind, wrapped_text(*kind, source@)) matches Some(shape)
                &&& selection_of(*kind, shape) == Ok::<Selection, Expected>(p.selection)
                &&& comment_set(p.comments@) == parsed_comments(*kind, wrapped_text(*kind, source@))
                &&& p.tree.source_text() == wrapped_text(*kind, source@)
                &&& p.tree.entry() == parse_entry(*kind)
            },
            Err(ParseSourceError::Parser(_)) => parsed_shape(*kind, wrapped_text(*kind, source@)) is None,
            Err(ParseSourceError::Expected(e)) => {
                &&& parsed_shape(*kind, wrapped_text(*kind, source@)) matches Some(shape)
                &&& selection_of(*kind, shape) == Err::<Selection, Expected>(e)
            },
        },
{
    let text = kind.wrap_source(source);
    let (tree, shape, store) = match kind {
        OutputKind::Ident | OutputKind::Expr => {
            let (res, ident, store) = parse_expression(text.as_str());
            match res {
                Ok(t) => {
                    let shape = if ident.unwrap() {
                        ItemShape::Ident
                    } else {
                        ItemShape::OtherExpr
                    };
                    (t, shape, store)
                },
                Err(err) => {
                    return Err(ParseSourceError::Parser(err));
                },
            }
        },
        OutputKind::Stmt => {
            let (res, _, store) = parse_statement(text.as_str());
            match res {
                Ok(t) => (t, ItemShape::Statement, store),
                Err(err) => {
                    return Err(ParseSourceError::Parser(err));
                },
            }
        },
        _ => {
            let (res, shape, store) = parse_module_item(text.as_str());
            match res {
                Ok(t) => (t, shape.unwrap(), store),
                Err(err) => {
                    return Err(ParseSourceError::Parser(err));
                },
            }
        },
    };
    match select_output(kind, &shape) {
        Ok(selection) => Ok(ParsedSource { tree, selection, comments: comment_list(store) }),
        Err(e) => Err(ParseSourceError::Expected(e)),
    }
}

} // verus!
