//! The parts of a PHP syntax tree that variable type lookup reads, as
//! plain values.
//!
//! Offsets are byte offsets into the file's text. Besides the shape of the
//! tree, a few nodes carry what the docblock analysis reports for them
//! (the resolved type of a parameter, the element types of a `foreach`
//! iterable); lookup reads those as given.
use vstd::prelude::*;

verus! {

/// A range of byte offsets; `start` is the first byte, `end` one past the
/// last.
#[derive(Clone, Copy, Debug, PartialEq, Eq, Structural)]
pub struct Span {
    pub start: u32,
    pub end: u32,
}

/// The cursor lies within `span`, both ends included.
pub open spec fn spec_covers(span: Span, cursor: u32) -> bool {
    span.start <= cursor && cursor <= span.end
}

impl Span {
    /// Whether the cursor lies within the span, both ends included.
    pub fn covers(&self, cursor: u32) -> (r: bool)
        ensures
            r == spec_covers(*self, cursor),
    {
        self.start <= cursor && cursor <= self.end
    }
}

/// A parameter of a function, method, closure or arrow function.
#[derive(Debug)]
pub struct Parameter {
    /// The variable's name, with its `$`.
    pub name: String,
    /// The native type hint as written, if any.
    pub native_hint: Option<String>,
    /// The effective type that the native hint and the owner's docblock
    /// (`@param` or `@var`) resolve to, when the docblock analysis finds
    /// one.
    pub effective_hint: Option<String>,
}

/// A parameter list and its span (parentheses included).
#[derive(Debug)]
pub struct ParameterList {
    pub span: Span,
    pub parameters: Vec<Parameter>,
}

/// A braced block: its span (braces included) and its statements.
#[derive(Debug)]
pub struct Block {
    pub span: Span,
    pub statements: Vec<Statement>,
}

/// A `catch` clause.
#[derive(Debug)]
pub struct CatchClause {
    /// The caught variable's name (with its `$`) and span, if any.
    pub variable: Option<(String, Span)>,
    /// The caught type hint as written, e.g. `Throwable` or `A|B`.
    pub hint: String,
    pub block: Block,
}

/// The element types of a `foreach` iterable, as its docblock
/// annotation gives them.
#[derive(Debug)]
pub struct IterableTypes {
    /// The value type, e.g. `Pencil` for `\Generator<int, Pencil>`.
    pub value_type: Option<String>,
    /// The key type, e.g. `int` for `\Generator<int, Pencil>`.
    pub key_type: Option<String>,
}

/// A `foreach` loop.
#[derive(Debug)]
pub struct Foreach {
    /// Start of the `foreach` keyword.
    pub keyword_start: u32,
    /// End of the loop body.
    pub body_end: u32,
    /// Span of the iterated expression.
    pub expression: Span,
    /// The key variable's name when the key is a plain variable.
    pub key_variable: Option<String>,
    /// The value variable's name when the value is a plain variable.
    pub value_variable: Option<String>,
    /// What the docblock annotations before the loop say of the iterated
    /// expression's text, if anything.
    pub iterable: Option<IterableTypes>,
    /// The statements of the body.
    pub body: Vec<Statement>,
}

/// A member of a class-like declaration.
#[derive(Debug)]
pub enum ClassMember {
    Method {
        /// Start of the method's span.
        start: u32,
        parameters: ParameterList,
        /// The body, for a concrete method.
        body: Option<Block>,
    },
    Other,
}

/// An expression, as far as closures are concerned.
#[derive(Debug)]
pub enum Expression {
    Closure { span: Span, parameters: ParameterList, body: Vec<Statement> },
    ArrowFunction { span: Span, parameters: ParameterList },
    Call { arguments: Vec<Expression> },
    Parenthesized { inner: Box<Expression> },
    Assignment { rhs: Box<Expression> },
    Other,
}

/// A statement with its span.
#[derive(Debug)]
pub struct Statement {
    pub span: Span,
    pub kind: StatementKind,
}

/// The kinds of statement that lookup distinguishes.
#[derive(Debug)]
pub enum StatementKind {
    /// A class, interface, trait or enum: the span of its braces and its
    /// members.
    ClassLike { body: Span, members: Vec<ClassMember> },
    Namespace { statements: Vec<Statement> },
    Function { parameters: ParameterList, body: Block },
    Try { block: Block, catches: Vec<CatchClause>, finally: Option<Block> },
    Foreach(Foreach),
    /// An `if`: the statements of its main branch.
    If { statements: Vec<Statement> },
    While { statements: Vec<Statement> },
    DoWhile { statement: Box<Statement> },
    For { statements: Vec<Statement> },
    Block { statements: Vec<Statement> },
    /// A `switch`: the statements of each case.
    Switch { cases: Vec<Vec<Statement>> },
    Expression(Expression),
    Return { value: Option<Expression> },
    Other,
}

/// `inner` lies within `outer`.
pub open spec fn span_within(inner: Span, outer: Span) -> bool {
    outer.start <= inner.start && inner.end <= outer.end
}

/// The spans that scope lookup reads lie within the statement's span, as
/// in a tree a parser produces, and so on down the tree: a class-like
/// declaration's braces, with its methods' parameter lists and bodies
/// within them; a function's parameter list and body; a namespace's
/// statements; a `try` block, each `catch` clause's variable and block,
/// and the `finally` block; a `foreach` loop from its keyword to the end of
/// its body, with its iterated expression and body statements; the
/// statements of loops, branches, blocks and `switch` cases; and the
/// closures and arrow functions of expression and `return` statements.
pub open spec fn spans_nested(s: Statement) -> bool
    decreases s, 0int,
{
    match s.kind {
        StatementKind::ClassLike { body, members } => span_within(body, s.span) && members_within(members@, 0, body),
        StatementKind::Namespace { statements } => stmts_within(statements@, 0, s.span),
        StatementKind::Function { parameters, body } => span_within(parameters.span, s.span) && span_within(
            body.span,
            s.span,
        ) && stmts_within(body.statements@, 0, body.span),
        StatementKind::Try { block, catches, finally } => span_within(block.span, s.span) && stmts_within(
            block.statements@,
            0,
            block.span,
        ) && catches_within(catches@, 0, s.span) && match finally {
            Some(f) => span_within(f.span, s.span) && stmts_within(f.statements@, 0, f.span),
            None => true,
        },
        StatementKind::Foreach(f) => s.span.start <= f.keyword_start && f.body_end <= s.span.end && span_within(
            f.expression,
            s.span,
        ) && stmts_within(f.body@, 0, s.span),
        StatementKind::If { statements } => stmts_within(statements@, 0, s.span),
        StatementKind::While { statements } => stmts_within(statements@, 0, s.span),
        StatementKind::DoWhile { statement } => span_within(statement.span, s.span) && spans_nested(*statement),
        StatementKind::For { statements } => stmts_within(statements@, 0, s.span),
        StatementKind::Block { statements } => stmts_within(statements@, 0, s.span),
        StatementKind::Switch { cases } => cases_within(cases@, 0, s.span),
        StatementKind::Expression(e) => expr_within(e, s.span),
        StatementKind::Return { value } => match value {
            Some(e) => expr_within(e, s.span),
            None => true,
        },
        StatementKind::Other => true,
    }
}

/// The statements from index `i` on lie within `outer` and are nested.
pub open spec fn stmts_within(stmts: Seq<Statement>, i: int, outer: Span) -> bool
    decreases stmts, stmts.len() - i,
{
    if i < 0 || i >= stmts.len() {
        true
    } else {
        span_within(stmts[i].span, outer) && spans_nested(stmts[i]) && stmts_within(stmts, i + 1, outer)
    }
}

/// The methods from index `i` on have their parameter lists and bodies
/// within `outer`, and their bodies' statements nested within them.
pub open spec fn members_within(ms: Seq<ClassMember>, i: int, outer: Span) -> bool
    decreases ms, ms.len() - i,
{
    if i < 0 || i >= ms.len() {
        true
    } else {
        let here = match ms[i] {
            ClassMember::Method { parameters, body, .. } => span_within(parameters.span, outer) && match body {
                Some(b) => span_within(b.span, outer) && stmts_within(b.statements@, 0, b.span),
                None => true,
            },
            ClassMember::Other => true,
        };
        here && members_within(ms, i + 1, outer)
    }
}

/// The `catch` clauses from index `i` on have their variables and blocks
/// within `outer`, and their blocks' statements nested within them.
pub open spec fn catches_within(cs: Seq<CatchClause>, i: int, outer: Span) -> bool
    decreases cs, cs.len() - i,
{
    if i < 0 || i >= cs.len() {
        true
    } else {
        let c = cs[i];
        let variable_within = match c.variable {
            Some((_, span)) => span_within(span, outer),
            None => true,
        };
        variable_within && span_within(c.block.span, outer) && stmts_within(c.block.statements@, 0, c.block.span)
            && catches_within(cs, i + 1, outer)
    }
}

/// The statements of the `switch` cases from index `i` on lie within
/// `outer` and are nested.
pub open spec fn cases_within(cases: Seq<Vec<Statement>>, i: int, outer: Span) -> bool
    decreases cases, cases.len() - i,
{
    if i < 0 || i >= cases.len() {
        true
    } else {
        stmts_within(cases[i]@, 0, outer) && cases_within(cases, i + 1, outer)
    }
}

/// The closures and arrow functions of the expression lie within `outer`,
/// and a closure's body statements within the closure.
pub open spec fn expr_within(e: Expression, outer: Span) -> bool
    decreases e, 0int,
{
    match e {
        Expression::Closure { span, body, .. } => span_within(span, outer) && stmts_within(body@, 0, span),
        Expression::ArrowFunction { span, .. } => span_within(span, outer),
        Expression::Call { arguments } => args_within(arguments@, 0, outer),
        Expression::Parenthesized { inner } => expr_within(*inner, outer),
        Expression::Assignment { rhs } => expr_within(*rhs, outer),
        Expression::Other => true,
    }
}

/// The call arguments from index `i` on satisfy `expr_within`.
pub open spec fn args_within(args: Seq<Expression>, i: int, outer: Span) -> bool
    decreases args, args.len() - i,
{
    if i < 0 || i >= args.len() {
        true
    } else {
        expr_within(args[i], outer) && args_within(args, i + 1, outer)
    }
}

} // verus!
