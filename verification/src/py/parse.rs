//! Choosing the element of parsed Python that an output kind asks for. The
//! parser reports what it parsed as a plain shape; this module decides which
//! element the output is, or why there is none.

use vstd::prelude::*;
use crate::py::input::OutputKind;

verus! {

/// What choosing the output reads of a parsed statement.
#[derive(Clone, Copy, Debug, PartialEq, Eq)]
pub enum StmtShape {
    /// A function definition with `args` positional-or-keyword parameters
    /// and `decorators` decorators.
    FunctionDef { args: usize, decorators: usize },
    /// A class definition.
    ClassDef,
    /// A `from ... import ...` statement with `names` aliases.
    ImportFrom { names: usize },
    /// Any other statement.
    Other,
}

/// What choosing the output reads of a parsed expression.
#[derive(Clone, Copy, Debug, PartialEq, Eq)]
pub enum ExprShape {
    /// A name expression.
    Name,
    /// A call with `keywords` keyword arguments.
    Call { keywords: usize },
    /// Any other expression.
    Other,
}

/// What choosing the output reads of the parsed source: for a module, its
/// first and its last statement (both absent for an empty module); for an
/// expression, its shape.
#[derive(Clone, Copy, Debug, PartialEq, Eq)]
pub enum PyShape {
    Module { first: Option<StmtShape>, last: Option<StmtShape> },
    Expression(ExprShape),
}

/// Whether a kind of output is parsed as an expression (else as a module).
pub open spec fn parses_expression(kind: OutputKind) -> bool {
    matches!(kind, OutputKind::Expr | OutputKind::Identifier | OutputKind::Keyword)
}

/// Executable `parses_expression`.
pub fn parses_as_expression(kind: &OutputKind) -> (r: bool)
    ensures
        r == parses_expression(*kind),
{
    match kind {
        OutputKind::Expr | OutputKind::Identifier | OutputKind::Keyword => true,
        _ => false,
    }
}

/// Why the parsed source holds no element of the asked kind.
#[derive(Clone, Copy, Debug, PartialEq, Eq, Structural)]
pub enum Expected {
    FunctionDef,
    ClassDef,
    ImportFrom,
    Statement,
    Parameter,
    ParameterWithDefault,
    Decorator,
    Keyword,
    Call,
    Alias,
    Identifier,
}

pub open spec fn expected_message(e: Expected) -> Seq<char> {
    match e {
        Expected::FunctionDef => "expected a function definition"@,
        Expected::ClassDef => "expected a class definition"@,
        Expected::ImportFrom => "expected a `from ... import ...` statement"@,
        Expected::Statement => "expected at least one statement"@,
        Expected::Parameter => "expected at least one parameter"@,
        Expected::ParameterWithDefault => "expected at least one parameter with default"@,
        Expected::Decorator => "expected at least one decorator"@,
        Expected::Keyword => "expected at least one keyword argument"@,
        Expected::Call => "expected a call expression"@,
        Expected::Alias => "expected at least one alias"@,
        Expected::Identifier => "expected an identifier"@,
    }
}

impl Expected {
    /// The error message.
    pub fn message(&self) -> (r: &'static str)
        ensures
            r@ == expected_message(*self),
    {
        match self {
            Expected::FunctionDef => "expected a function definition",
            Expected::ClassDef => "expected a class definition",
            Expected::ImportFrom => "expected a `from ... import ...` statement",
            Expected::Statement => "expected at least one statement",
            Expected::Parameter => "expected at least one parameter",
            Expected::ParameterWithDefault => "expected at least one parameter with default",
            Expected::Decorator => "expected at least one decorator",
            Expected::Keyword => "expected at least one keyword argument",
            Expected::Call => "expected a call expression",
            Expected::Alias => "expected at least one alias",
            Expected::Identifier => "expected an identifier",
        }
    }
}

/// The element of the parsed source that the output is.
#[derive(Clone, Copy, Debug, PartialEq, Eq, Structural)]
pub enum Selection {
    /// The whole expression.
    WholeExpr,
    /// The name expression, as an identifier.
    Identifier,
    /// The first statement.
    FirstStatement,
    /// All statements.
    AllStatements,
    /// The first statement, a function definition.
    FirstFunctionDef,
    /// The first statement, a class definition.
    FirstClassDef,
    /// The first statement, a `from ... import ...`.
    FirstImportFrom,
    /// The first parameter of the function that ends the module, without its
    /// default.
    FirstParameter,
    /// The first parameter of the function that ends the module, with its
    /// default.
    FirstParameterWithDefault,
    /// The first decorator of the function that ends the module.
    FirstDecorator,
    /// The first keyword argument of the call.
    FirstKeyword,
    /// The first alias of the `from ... import ...` that ends the module.
    FirstAlias,
}

/// The element that `kind` takes from a parsed source of shape `shape`, or
/// why there is none.
pub open spec fn py_selection_of(kind: OutputKind, shape: PyShape) -> Result<Selection, Expected> {
    match kind {
        OutputKind::Expr => Ok(Selection::WholeExpr),
        OutputKind::Identifier => match shape {
            PyShape::Expression(ExprShape::Name) => Ok(Selection::Identifier),
            _ => Err(Expected::Identifier),
        },
        OutputKind::Keyword => match shape {
            PyShape::Expression(ExprShape::Call { keywords }) => if keywords > 0 {
                Ok(Selection::FirstKeyword)
            } else {
                Err(Expected::Keyword)
            },
            _ => Err(Expected::Call),
        },
        OutputKind::Stmt => match shape {
            PyShape::Module { first: Some(_), .. } => Ok(Selection::FirstStatement),
            _ => Err(Expected::Statement),
        },
        OutputKind::Suite => match shape {
            PyShape::Module { first: Some(_), .. } => Ok(Selection::AllStatements),
            _ => Err(Expected::Statement),
        },
        OutputKind::FunctionDef => match shape {
            PyShape::Module { first: Some(StmtShape::FunctionDef { .. }), .. } => Ok(
                Selection::FirstFunctionDef,
            ),
            PyShape::Module { first: Some(_), .. } => Err(Expected::FunctionDef),
            _ => Err(Expected::Statement),
        },
        OutputKind::ClassDef => match shape {
            PyShape::Module { first: Some(StmtShape::ClassDef), .. } => Ok(Selection::FirstClassDef),
            PyShape::Module { first: Some(_), .. } => Err(Expected::ClassDef),
            _ => Err(Expected::Statement),
        },
        OutputKind::ImportFrom => match shape {
            PyShape::Module { first: Some(StmtShape::ImportFrom { .. }), .. } => Ok(
                Selection::FirstImportFrom,
            ),
            PyShape::Module { first: Some(_), .. } => Err(Expected::ImportFrom),
            _ => Err(Expected::Statement),
        },
        OutputKind::Parameter => match shape {
            PyShape::Module { last: Some(StmtShape::FunctionDef { args, .. }), .. } => if args > 0 {
                Ok(Selection::FirstParameter)
            } else {
                Err(Expected::Parameter)
            },
            _ => Err(Expected::FunctionDef),
        },
        OutputKind::ParameterWithDefault => match shape {
            PyShape::Module { last: Some(StmtShape::FunctionDef { args, .. }), .. } => if args > 0 {
                Ok(Selection::FirstParameterWithDefault)
            } else {
                Err(Expected::ParameterWithDefault)
            },
            _ => Err(Expected::FunctionDef),
        },
        OutputKind::Decorator => match shape {
            PyShape::Module { last: Some(StmtShape::FunctionDef { decorators, .. }), .. } => if decorators
                > 0 {
                Ok(Selection::FirstDecorator)
            } else {
                Err(Expected::Decorator)
            },
            _ => Err(Expected::FunctionDef),
        },
        OutputKind::Alias => match shape {
            PyShape::Module { last: Some(StmtShape::ImportFrom { names }), .. } => if names > 0 {
                Ok(Selection::FirstAlias)
            } else {
                Err(Expected::Alias)
            },
            _ => Err(Expected::ImportFrom),
        },
    }
}

/// Choosing from a parsed Python source: an expression is taken whole; an
/// identifier must be a name and a keyword must come from a call with at
/// least one keyword argument; a statement or suite needs at least one
/// statement; a function, class or `from ... import ...` output is the
/// first statement and must be one; a parameter, parameter with default or
/// decorator comes from the function that ends the module, which must have
/// one; an alias from the `from ... import ...` that ends it, with at least
/// one name.
pub proof fn lemma_py_selection(shape: PyShape)
    ensures
        py_selection_of(OutputKind::Expr, shape) == Ok::<Selection, Expected>(Selection::WholeExpr),
        (py_selection_of(OutputKind::Identifier, shape) is Ok) <==> shape == PyShape::Expression(
            ExprShape::Name,
        ),
        (py_selection_of(OutputKind::Keyword, shape) is Ok) <==> (
        shape matches PyShape::Expression(ExprShape::Call { keywords }) && keywords > 0),
        (py_selection_of(OutputKind::Stmt, shape) is Ok) <==> (shape matches PyShape::Module {
            first: Some(_),
            ..
        }),
        (py_selection_of(OutputKind::Suite, shape) is Ok) <==> (shape matches PyShape::Module {
            first: Some(_),
            ..
        }),
        (py_selection_of(OutputKind::FunctionDef, shape) is Ok) <==> (
        shape matches PyShape::Module { first: Some(StmtShape::FunctionDef { .. }), .. }),
        (py_selection_of(OutputKind::ClassDef, shape) is Ok) <==> (shape matches PyShape::Module {
            first: Some(StmtShape::ClassDef),
            ..
        }),
        (py_selection_of(OutputKind::ImportFrom, shape) is Ok) <==> (
        shape matches PyShape::Module { first: Some(StmtShape::ImportFrom { .. }), .. }),
        (py_selection_of(OutputKind::Parameter, shape) is Ok) <==> (
        shape matches PyShape::Module { last: Some(StmtShape::FunctionDef { args, .. }), .. } && args
            > 0),
        (py_selection_of(OutputKind::ParameterWithDefault, shape) is Ok) <==> (
        shape matches PyShape::Module { last: Some(StmtShape::FunctionDef { args, .. }), .. } && args
            > 0),
        (py_selection_of(OutputKind::Decorator, shape) is Ok) <==> (
        shape matches PyShape::Module { last: Some(StmtShape::FunctionDef { decorators, .. }), .. }
            && decorators > 0),
        (py_selection_of(OutputKind::Alias, shape) is Ok) <==> (shape matches PyShape::Module {
            last: Some(StmtShape::ImportFrom { names }),
            ..
        } && names > 0),
        (shape matches PyShape::Module { first: None, .. }) ==> {
            &&& py_selection_of(OutputKind::Stmt, shape) == Err::<Selection, Expected>(
                Expected::Statement,
            )
            &&& py_selection_of(OutputKind::Suite, shape) == Err::<Selection, Expected>(
                Expected::Statement,
            )
            &&& py_selection_of(OutputKind::FunctionDef, shape) == Err::<Selection, Expected>(
                Expected::Statement,
            )
            &&& py_selection_of(OutputKind::ClassDef, shape) == Err::<Selection, Expected>(
                Expected::Statement,
            )
            &&& py_selection_of(OutputKind::ImportFrom, shape) == Err::<Selection, Expected>(
                Expected::Statement,
            )
        },
{
}

/// Chooses the element that `kind` takes from a parsed source of shape
/// `shape`, or says why there is none.
pub fn select_output(kind: &OutputKind, shape: &PyShape) -> (r: Result<Selection, Expected>)
    ensures
        r == py_selection_of(*kind, *shape),
{
    match kind {
        OutputKind::Expr => Ok(Selection::WholeExpr),
        OutputKind::Identifier => match shape {
            PyShape::Expression(ExprShape::Name) => Ok(Selection::Identifier),
            _ => Err(Expected::Identifier),
        },
        OutputKind::Keyword => match shape {
            PyShape::Expression(ExprShape::Call { keywords }) => if *keywords > 0 {
                Ok(Selection::FirstKeyword)
            } else {
                Err(Expected::Keyword)
            },
            _ => Err(Expected::Call),
        },
        OutputKind::Stmt => match shape {
            PyShape::Module { first: Some(_), .. } => Ok(Selection::FirstStatement),
            _ => Err(Expected::Statement),
        },
        OutputKind::Suite => match shape {
            PyShape::Module { first: Some(_), .. } => Ok(Selection::AllStatements),
            _ => Err(Expected::Statement),
        },
        OutputKind::FunctionDef => match shape {
            PyShape::Module { first: Some(StmtShape::FunctionDef { .. }), .. } => Ok(
                Selection::FirstFunctionDef,
            ),
            PyShape::Module { first: Some(_), .. } => Err(Expected::FunctionDef),
            _ => Err(Expected::Statement),
        },
        OutputKind::ClassDef => match shape {
            PyShape::Module { first: Some(StmtShape::ClassDef), .. } => Ok(Selection::FirstClassDef),
            PyShape::Module { first: Some(_), .. } => Err(Expected::ClassDef),
            _ => Err(Expected::Statement),
        },
        OutputKind::ImportFrom => match shape {
            PyShape::Module { first: Some(StmtShape::ImportFrom { .. }), .. } => Ok(
                Selection::FirstImportFrom,
            ),
            PyShape::Module { first: Some(_), .. } => Err(Expected::ImportFrom),
            _ => Err(Expected::Statement),
        },
        OutputKind::Parameter => match shape {
            PyShape::Module { last: Some(StmtShape::FunctionDef { args, .. }), .. } => if *args > 0 {
                Ok(Selection::FirstParameter)
            } else {
                Err(Expected::Parameter)
            },
            _ => Err(Expected::FunctionDef),
        },
        OutputKind::ParameterWithDefault => match shape {
            PyShape::Module { last: Some(StmtShape::FunctionDef { args, .. }), .. } => if *args > 0 {
                Ok(Selection::FirstParameterWithDefault)
            } else {
                Err(Expected::ParameterWithDefault)
            },
            _ => Err(Expected::FunctionDef),
        },
        OutputKind::Decorator => match shape {
            PyShape::Module { last: Some(StmtShape::FunctionDef { decorators, .. }), .. } => if *decorators
                > 0 {
                Ok(Selection::FirstDecorator)
            } else {
                Err(Expected::Decorator)
            },
            _ => Err(Expected::FunctionDef),
        },
        OutputKind::Alias => match shape {
            PyShape::Module { last: Some(StmtShape::ImportFrom { names }), .. } => if *names > 0 {
                Ok(Selection::FirstAlias)
            } else {
                Err(Expected::Alias)
            },
            _ => Err(Expected::ImportFrom),
        },
    }
}

} // verus!
