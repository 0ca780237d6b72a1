//! Variable type string resolution for hover.
//!
//! Hover needs the **full type string** of a variable so that generic
//! parameters and scalar types are preserved.  For example, a parameter
//! typed as `\Generator<int, Pencil>` should display exactly that.
//!
//! The entry point is [`resolve_variable_type_string`]: an inline
//! `@var` override wins, then the variable's definition context in the
//! syntax tree (parameter, `foreach` binding, `catch` variable), then the
//! type inferred from its assignment.
use vstd::prelude::*;
use vstd::utf8::encode_utf8;

use crate::hover::docblock::opt_view;
use crate::hover::syntax::{
    spec_covers, Block, CatchClause, ClassMember, Expression, Foreach, IterableTypes, Parameter,
    ParameterList, Statement, StatementKind,
};
use crate::text::{
    chars_of, contains_in_range, contains_seq, has_prefix, str_eq, str_get, str_get_spec,
    trim_chars, trim_end_len, trim_start_len,
};

verus! {

// ─────────────────────────────────────────────────────────────────────
// Specification
// ─────────────────────────────────────────────────────────────────────

/// The first result of `a` and `b` that is `Some`.
pub open spec fn first_some(a: Option<Seq<char>>, b: Option<Seq<char>>) -> Option<Seq<char>> {
    match a {
        Some(t) => Some(t),
        None => b,
    }
}

/// The type of the first parameter from index `i` on that is named
/// `var`: its effective type when known, else its native hint. `None`
/// when no parameter has that name.
pub open spec fn params_type(ps: Seq<Parameter>, i: int, var: Seq<char>) -> Option<Seq<char>>
    decreases ps.len() - i,
{
    if i < 0 || i >= ps.len() {
        None
    } else if ps[i].name@ == var {
        first_some(opt_view(ps[i].effective_hint), opt_view(ps[i].native_hint))
    } else {
        params_type(ps, i + 1, var)
    }
}

/// The iterated expression's text (trimmed) is a plain variable: it
/// starts with `$` and holds neither `->` nor `::`.
pub open spec fn is_plain_variable_text(t: Seq<char>) -> bool {
    &&& has_prefix(t, seq!['$'])
    &&& !contains_seq(t, seq!['-', '>'])
    &&& !contains_seq(t, seq![':', ':'])
}

/// The docblock element types of a `foreach` iterable, used only when the
/// iterated expression is a plain variable.
pub open spec fn foreach_iterable_spec(f: Foreach, content: Seq<char>) -> Option<IterableTypes> {
    match str_get_spec(encode_utf8(content), f.expression.start as int, f.expression.end as int) {
        Some(text) => if is_plain_variable_text(trim_chars(text)) {
            f.iterable
        } else {
            None
        },
        None => None,
    }
}

/// The type of a `catch` variable at the cursor, searching the statement
/// and the statements nested in it.
pub open spec fn catch_type(s: Statement, var: Seq<char>, cursor: u32) -> Option<Seq<char>>
    decreases s, 0int,
{
    match s.kind {
        StatementKind::Try { block, catches, finally } => first_some(
            catches_catch_type(catches@, 0, var, cursor),
            first_some(
                if spec_covers(block.span, cursor) {
                    stmts_catch_type(block.statements@, 0, var, cursor)
                } else {
                    None
                },
                match finally {
                    Some(f) => if spec_covers(f.span, cursor) {
                        stmts_catch_type(f.statements@, 0, var, cursor)
                    } else {
                        None
                    },
                    None => None,
                },
            ),
        ),
        StatementKind::If { statements } => stmts_catch_type(statements@, 0, var, cursor),
        StatementKind::Foreach(f) => stmts_catch_type(f.body@, 0, var, cursor),
        StatementKind::While { statements } => stmts_catch_type(statements@, 0, var, cursor),
        StatementKind::DoWhile { statement } => catch_type(*statement, var, cursor),
        StatementKind::For { statements } => stmts_catch_type(statements@, 0, var, cursor),
        StatementKind::Block { statements } => stmts_catch_type(statements@, 0, var, cursor),
        StatementKind::Switch { cases } => cases_catch_type(cases@, 0, var, cursor),
        _ => None,
    }
}

/// `catch_type` of the statements from index `i` on, first match.
pub open spec fn stmts_catch_type(stmts: Seq<Statement>, i: int, var: Seq<char>, cursor: u32) -> Option<Seq<char>>
    decreases stmts, stmts.len() - i,
{
    if i < 0 || i >= stmts.len() {
        None
    } else {
        first_some(catch_type(stmts[i], var, cursor), stmts_catch_type(stmts, i + 1, var, cursor))
    }
}

/// The `catch` clauses from index `i` on: a clause whose variable is
/// `var` with the cursor on it gives its hint; else a clause whose block
/// holds the cursor is searched.
pub open spec fn catches_catch_type(cs: Seq<CatchClause>, i: int, var: Seq<char>, cursor: u32) -> Option<Seq<char>>
    decreases cs, cs.len() - i,
{
    if i < 0 || i >= cs.len() {
        None
    } else {
        let c = cs[i];
        let on_variable = match c.variable {
            Some((name, span)) => name@ == var && span.start <= cursor && cursor < span.end,
            None => false,
        };
        if on_variable {
            Some(c.hint@)
        } else {
            first_some(
                if spec_covers(c.block.span, cursor) {
                    stmts_catch_type(c.block.statements@, 0, var, cursor)
                } else {
                    None
                },
                catches_catch_type(cs, i + 1, var, cursor),
            )
        }
    }
}

/// `catch_type` over the cases of a `switch` from index `i` on.
pub open spec fn cases_catch_type(cases: Seq<Vec<Statement>>, i: int, var: Seq<char>, cursor: u32) -> Option<Seq<char>>
    decreases cases, cases.len() - i,
{
    if i < 0 || i >= cases.len() {
        None
    } else {
        first_some(stmts_catch_type(cases[i]@, 0, var, cursor), cases_catch_type(cases, i + 1, var, cursor))
    }
}

/// The type of a variable bound by a `foreach` that holds the cursor: the
/// value (or key) type of the iterable's docblock type; for another
/// variable, the loop body is searched.
pub open spec fn foreach_type(f: Foreach, var: Seq<char>, content: Seq<char>, cursor: u32) -> Option<Seq<char>>
    decreases f, 0int,
{
    if cursor < f.keyword_start || cursor > f.body_end {
        None
    } else {
        let is_value_var = f.value_variable matches Some(n) && n@ == var;
        let is_key_var = f.key_variable matches Some(n) && n@ == var;
        if !is_value_var && !is_key_var {
            body_type(f.body@, 0, var, content, cursor)
        } else {
            match foreach_iterable_spec(f, content) {
                Some(rt) => if is_value_var {
                    opt_view(rt.value_type)
                } else {
                    opt_view(rt.key_type)
                },
                None => None,
            }
        }
    }
}

/// The type from body statements (from index `i` on) that hold the
/// cursor: a `catch` variable, a `foreach` binding, or a closure or arrow
/// function parameter, first match.
pub open spec fn body_type(stmts: Seq<Statement>, i: int, var: Seq<char>, content: Seq<char>, cursor: u32) -> Option<Seq<char>>
    decreases stmts, stmts.len() - i,
{
    if i < 0 || i >= stmts.len() {
        None
    } else {
        let s = stmts[i];
        let rest = body_type(stmts, i + 1, var, content, cursor);
        if !spec_covers(s.span, cursor) {
            rest
        } else {
            first_some(
                catch_type(s, var, cursor),
                first_some(
                    match s.kind {
                        StatementKind::Foreach(f) => foreach_type(f, var, content, cursor),
                        _ => None,
                    },
                    first_some(closure_stmt_type(s, var, content, cursor), rest),
                ),
            )
        }
    }
}

/// The type of a closure or arrow function parameter found in a
/// statement (or the statements nested in it).
pub open spec fn closure_stmt_type(s: Statement, var: Seq<char>, content: Seq<char>, cursor: u32) -> Option<Seq<char>>
    decreases s, 0int,
{
    match s.kind {
        StatementKind::Expression(e) => closure_expr_type(e, var, content, cursor),
        StatementKind::Return { value } => match value {
            Some(e) => closure_expr_type(e, var, content, cursor),
            None => None,
        },
        StatementKind::If { statements } => stmts_closure_type(statements@, 0, var, content, cursor),
        StatementKind::Foreach(f) => stmts_closure_type(f.body@, 0, var, content, cursor),
        StatementKind::Block { statements } => stmts_closure_type(statements@, 0, var, content, cursor),
        StatementKind::Try { block, catches, finally } => first_some(
            stmts_closure_type(block.statements@, 0, var, content, cursor),
            first_some(
                catches_closure_type(catches@, 0, var, content, cursor),
                match finally {
                    Some(f) => stmts_closure_type(f.statements@, 0, var, content, cursor),
                    None => None,
                },
            ),
        ),
        _ => None,
    }
}

/// `closure_stmt_type` of the statements from index `i` on, first match.
pub open spec fn stmts_closure_type(stmts: Seq<Statement>, i: int, var: Seq<char>, content: Seq<char>, cursor: u32) -> Option<Seq<char>>
    decreases stmts, stmts.len() - i,
{
    if i < 0 || i >= stmts.len() {
        None
    } else {
        first_some(
            closure_stmt_type(stmts[i], var, content, cursor),
            stmts_closure_type(stmts, i + 1, var, content, cursor),
        )
    }
}

/// `closure_stmt_type` over the blocks of `catch` clauses from index `i`.
pub open spec fn catches_closure_type(cs: Seq<CatchClause>, i: int, var: Seq<char>, content: Seq<char>, cursor: u32) -> Option<Seq<char>>
    decreases cs, cs.len() - i,
{
    if i < 0 || i >= cs.len() {
        None
    } else {
        first_some(
            stmts_closure_type(cs[i].block.statements@, 0, var, content, cursor),
            catches_closure_type(cs, i + 1, var, content, cursor),
        )
    }
}

/// The type of a closure or arrow function parameter in an expression:
/// a closure holding the cursor gives its parameter's type, else its body
/// is searched; an arrow function holding the cursor gives its
/// parameter's type; calls, parentheses and assignments are looked
/// through.
pub open spec fn closure_expr_type(e: Expression, var: Seq<char>, content: Seq<char>, cursor: u32) -> Option<Seq<char>>
    decreases e, 0int,
{
    match e {
        Expression::Closure { span, parameters, body } => if spec_covers(span, cursor) {
            first_some(params_type(parameters.parameters@, 0, var), body_type(body@, 0, var, content, cursor))
        } else {
            None
        },
        Expression::ArrowFunction { span, parameters } => if spec_covers(span, cursor) {
            params_type(parameters.parameters@, 0, var)
        } else {
            None
        },
        Expression::Call { arguments } => args_closure_type(arguments@, 0, var, content, cursor),
        Expression::Parenthesized { inner } => closure_expr_type(*inner, var, content, cursor),
        Expression::Assignment { rhs } => closure_expr_type(*rhs, var, content, cursor),
        Expression::Other => None,
    }
}

/// `closure_expr_type` of call arguments from index `i` on, first match.
pub open spec fn args_closure_type(args: Seq<Expression>, i: int, var: Seq<char>, content: Seq<char>, cursor: u32) -> Option<Seq<char>>
    decreases args, args.len() - i,
{
    if i < 0 || i >= args.len() {
        None
    } else {
        first_some(
            closure_expr_type(args[i], var, content, cursor),
            args_closure_type(args, i + 1, var, content, cursor),
        )
    }
}

/// The type found in a method or function whose body holds the cursor:
/// body constructs first, then the parameter of that name.
pub open spec fn callable_body_type(
    parameters: ParameterList,
    body: Seq<Statement>,
    var: Seq<char>,
    content: Seq<char>,
    cursor: u32,
) -> Option<Seq<char>> {
    first_some(body_type(body, 0, var, content, cursor), params_type(parameters.parameters@, 0, var))
}

/// The type from the class members (from index `i` on): the first method
/// whose parameter list or body holds the cursor decides.
pub open spec fn members_type(ms: Seq<ClassMember>, i: int, var: Seq<char>, content: Seq<char>, cursor: u32) -> Option<Seq<char>>
    decreases ms.len() - i,
{
    if i < 0 || i >= ms.len() {
        None
    } else {
        match ms[i] {
            ClassMember::Method { start, parameters, body } => if spec_covers(parameters.span, cursor) {
                params_type(parameters.parameters@, 0, var)
            } else {
                match body {
                    Some(b) => if spec_covers(b.span, cursor) {
                        callable_body_type(parameters, b.statements@, var, content, cursor)
                    } else {
                        members_type(ms, i + 1, var, content, cursor)
                    },
                    None => members_type(ms, i + 1, var, content, cursor),
                }
            },
            ClassMember::Other => members_type(ms, i + 1, var, content, cursor),
        }
    }
}

/// The type from top-level statements (from index `i` on): a class-like
/// declaration, function, `try` or `foreach` holding the cursor, or a
/// namespace's statements.
pub open spec fn statements_type(stmts: Seq<Statement>, i: int, var: Seq<char>, content: Seq<char>, cursor: u32) -> Option<Seq<char>>
    decreases stmts, stmts.len() - i,
{
    if i < 0 || i >= stmts.len() {
        None
    } else {
        let s = stmts[i];
        let rest = statements_type(stmts, i + 1, var, content, cursor);
        match s.kind {
            StatementKind::ClassLike { body, members } => if spec_covers(body, cursor) {
                members_type(members@, 0, var, content, cursor)
            } else {
                rest
            },
            StatementKind::Namespace { statements } => first_some(
                statements_type(statements@, 0, var, content, cursor),
                rest,
            ),
            StatementKind::Function { parameters, body } => if spec_covers(parameters.span, cursor) {
                params_type(parameters.parameters@, 0, var)
            } else if spec_covers(body.span, cursor) {
                callable_body_type(parameters, body.statements@, var, content, cursor)
            } else {
                rest
            },
            StatementKind::Try { .. } => if spec_covers(s.span, cursor) {
                first_some(catch_type(s, var, cursor), rest)
            } else {
                rest
            },
            StatementKind::Foreach(f) => if spec_covers(s.span, cursor) {
                first_some(foreach_type(f, var, content, cursor), rest)
            } else {
                rest
            },
            _ => rest,
        }
    }
}

/// The type string for hover before any assignment inference: the
/// inline `@var` override if there is one, else the type from the
/// variable's definition context in the syntax tree.
pub open spec fn type_before_assignment(
    inline_var_type: Option<Seq<char>>,
    program: Seq<Statement>,
    var: Seq<char>,
    content: Seq<char>,
    cursor: u32,
) -> Option<Seq<char>> {
    first_some(inline_var_type, statements_type(program, 0, var, content, cursor))
}


// ─────────────────────────────────────────────────────────────────────
// Implementation
// ─────────────────────────────────────────────────────────────────────

/// A new string holding the same text.
fn copy_opt(o: &Option<String>) -> (r: Option<String>)
    ensures
        opt_view(r) == opt_view(*o),
{
    match o {
        Some(s) => Some(s.clone()),
        None => None,
    }
}

/// Extract the effective type string for a parameter matching `var_name`:
/// the type that its native hint and the owner's docblock resolve to,
/// else the native hint.
pub fn find_type_in_params(parameter_list: &ParameterList, var_name: &str) -> (r: Option<String>)
    ensures
        opt_view(r) == params_type(parameter_list.parameters@, 0, var_name@),
{
    let ps = &parameter_list.parameters;
    let n = ps.len();
    let mut i: usize = 0;
    while i < n
        invariant
            n == ps@.len(),
            i <= n,
            ps@ == parameter_list.parameters@,
            params_type(ps@, 0, var_name@) == params_type(ps@, i as int, var_name@),
        decreases n - i,
    {
        if str_eq(ps[i].name.as_str(), var_name) {
            let effective = copy_opt(&ps[i].effective_hint);
            if effective.is_some() {
                return effective;
            }
            // Return the native type if there is no effective type.
            return copy_opt(&ps[i].native_hint);
        }
        i = i + 1;
    }
    None
}

/// Search statements for a `catch` variable's type, first match.
fn find_type_in_catch_stmts(stmts: &[Statement], var_name: &str, cursor_offset: u32) -> (r: Option<String>)
    ensures
        opt_view(r) == stmts_catch_type(stmts@, 0, var_name@, cursor_offset),
    decreases stmts@,
{
    let n = stmts.len();
    let mut i: usize = 0;
    while i < n
        invariant
            n == stmts@.len(),
            i <= n,
            stmts_catch_type(stmts@, 0, var_name@, cursor_offset) == stmts_catch_type(stmts@, i as int, var_name@, cursor_offset),
        decreases n - i,
    {
        let t = find_type_in_catch(&stmts[i], var_name, cursor_offset);
        if t.is_some() {
            return t;
        }
        i = i + 1;
    }
    None
}

/// Search the blocks of a `try`'s `catch` clauses.
fn find_type_in_catch_clauses(catches: &[CatchClause], var_name: &str, cursor_offset: u32) -> (r: Option<String>)
    ensures
        opt_view(r) == catches_catch_type(catches@, 0, var_name@, cursor_offset),
    decreases catches@,
{
    let n = catches.len();
    let mut i: usize = 0;
    while i < n
        invariant
            n == catches@.len(),
            i <= n,
            catches_catch_type(catches@, 0, var_name@, cursor_offset) == catches_catch_type(catches@, i as int, var_name@, cursor_offset),
        decreases n - i,
    {
        let c = &catches[i];
        match &c.variable {
            Some((name, span)) => {
                if str_eq(name.as_str(), var_name) && span.start <= cursor_offset && cursor_offset < span.end {
                    return Some(c.hint.clone());
                }
            },
            None => {},
        }
        // Recurse into the catch block.
        if c.block.span.covers(cursor_offset) {
            let t = find_type_in_catch_stmts(c.block.statements.as_slice(), var_name, cursor_offset);
            if t.is_some() {
                return t;
            }
        }
        i = i + 1;
    }
    None
}

/// Search the cases of a `switch`.
fn find_type_in_switch_cases(cases: &[Vec<Statement>], var_name: &str, cursor_offset: u32) -> (r: Option<String>)
    ensures
        opt_view(r) == cases_catch_type(cases@, 0, var_name@, cursor_offset),
    decreases cases@,
{
    let n = cases.len();
    let mut i: usize = 0;
    while i < n
        invariant
            n == cases@.len(),
            i <= n,
            cases_catch_type(cases@, 0, var_name@, cursor_offset) == cases_catch_type(cases@, i as int, var_name@, cursor_offset),
        decreases n - i,
    {
        let t = find_type_in_catch_stmts(cases[i].as_slice(), var_name, cursor_offset);
        if t.is_some() {
            return t;
        }
        i = i + 1;
    }
    None
}

/// Extract the catch clause type hint string for a matching variable.
pub fn find_type_in_catch(stmt: &Statement, var_name: &str, cursor_offset: u32) -> (r: Option<String>)
    ensures
        opt_view(r) == catch_type(*stmt, var_name@, cursor_offset),
    decreases *stmt,
{
    match &stmt.kind {
        StatementKind::Try { block, catches, finally } => {
            let t = find_type_in_catch_clauses(catches.as_slice(), var_name, cursor_offset);
            if t.is_some() {
                return t;
            }
            // Recurse into the try block.
            if block.span.covers(cursor_offset) {
                let t = find_type_in_catch_stmts(block.statements.as_slice(), var_name, cursor_offset);
                if t.is_some() {
                    return t;
                }
            }
            // Recurse into the finally block.
            match finally {
                Some(f) => {
                    if f.span.covers(cursor_offset) {
                        let t = find_type_in_catch_stmts(f.statements.as_slice(), var_name, cursor_offset);
                        if t.is_some() {
                            return t;
                        }
                    }
                    None
                },
                None => None,
            }
        },
        StatementKind::If { statements } => find_type_in_catch_stmts(statements.as_slice(), var_name, cursor_offset),
        StatementKind::Foreach(f) => find_type_in_catch_stmts(f.body.as_slice(), var_name, cursor_offset),
        StatementKind::While { statements } => find_type_in_catch_stmts(statements.as_slice(), var_name, cursor_offset),
        StatementKind::DoWhile { statement } => find_type_in_catch(statement, var_name, cursor_offset),
        StatementKind::For { statements } => find_type_in_catch_stmts(statements.as_slice(), var_name, cursor_offset),
        StatementKind::Block { statements } => find_type_in_catch_stmts(statements.as_slice(), var_name, cursor_offset),
        StatementKind::Switch { cases } => find_type_in_switch_cases(cases.as_slice(), var_name, cursor_offset),
        _ => None,
    }
}

/// Whether a (trimmed) expression text is a plain variable: `$` first,
/// no `->`, no `::`.
fn is_plain_variable(text: &str) -> (r: bool)
    ensures
        r == is_plain_variable_text(trim_chars(text@)),
{
    let v = chars_of(text);
    let b = trim_start_len(&v);
    let rest_vec = chars_tail(&v, b);
    let e = trim_end_len(&rest_vec);
    let ghost t = trim_chars(text@);
    assert(rest_vec@.take(e as int) == t);
    if e == 0 || rest_vec[0] != '$' {
        proof {
            if has_prefix(t, seq!['$']) {
                assert(t.subrange(0, 1)[0] == t[0]);
            }
        }
        return false;
    }
    assert(t.subrange(0, 1) =~= seq!['$']);
    assert(rest_vec@.subrange(0, e as int) == t);
    let arrow = vec!['-', '>'];
    let colons = vec![':', ':'];
    if contains_in_range(&rest_vec, 0, e, &arrow) {
        return false;
    }
    !contains_in_range(&rest_vec, 0, e, &colons)
}

/// The characters of `v` from index `b` on.
fn chars_tail(v: &Vec<char>, b: usize) -> (r: Vec<char>)
    requires
        b <= v@.len(),
    ensures
        r@ == v@.skip(b as int),
{
    let mut r: Vec<char> = Vec::new();
    let mut i = b;
    while i < v.len()
        invariant
            b <= i <= v@.len(),
            r@ == v@.subrange(b as int, i as int),
        decreases v@.len() - i,
    {
        r.push(v[i]);
        assert(r@ =~= v@.subrange(b as int, i + 1));
        i = i + 1;
    }
    assert(r@ =~= v@.skip(b as int));
    r
}

/// Extract the raw iterable type of the foreach expression from its
/// surrounding docblock annotations; only a plain variable (`$items`,
/// not `$this->items` or `Foo::$items`) is looked up.
pub fn extract_foreach_expression_raw_type<'a>(foreach: &'a Foreach, content: &str) -> (r: Option<&'a IterableTypes>)
    ensures
        match r {
            Some(t) => foreach_iterable_spec(*foreach, content@) == Some(*t),
            None => foreach_iterable_spec(*foreach, content@) is None,
        },
{
    let text = match str_get(content, foreach.expression.start as usize, foreach.expression.end as usize) {
        Some(t) => t,
        None => return None,
    };
    if !is_plain_variable(text) {
        return None;
    }
    match &foreach.iterable {
        Some(it) => Some(it),
        None => None,
    }
}

/// Extract the type of a foreach value/key binding from the iterable's
/// docblock annotation.
///
/// For `foreach ($pencils as $pencil)` where `$pencils` has
/// `@param \Generator<int, Pencil>`, this returns `Pencil`.
pub fn find_type_in_foreach(foreach: &Foreach, var_name: &str, content: &str, cursor_offset: u32) -> (r: Option<String>)
    ensures
        opt_view(r) == foreach_type(*foreach, var_name@, content@, cursor_offset),
    decreases *foreach,
{
    // The cursor must be on the foreach value or key variable, or inside the body.
    if cursor_offset < foreach.keyword_start || cursor_offset > foreach.body_end {
        return None;
    }
    let is_value_var = match &foreach.value_variable {
        Some(n) => str_eq(n.as_str(), var_name),
        None => false,
    };
    let is_key_var = match &foreach.key_variable {
        Some(n) => str_eq(n.as_str(), var_name),
        None => false,
    };
    if !is_value_var && !is_key_var {
        // Recurse into the body for nested foreach/catch.
        return find_type_in_body_stmts(foreach.body.as_slice(), var_name, content, cursor_offset);
    }
    match extract_foreach_expression_raw_type(foreach, content) {
        Some(rt) => {
            if is_value_var {
                copy_opt(&rt.value_type)
            } else {
                copy_opt(&rt.key_type)
            }
        },
        None => None,
    }
}

/// Walk body statements looking for foreach/catch/closure type strings.
pub fn find_type_in_body_stmts(stmts: &[Statement], var_name: &str, content: &str, cursor_offset: u32) -> (r: Option<String>)
    ensures
        opt_view(r) == body_type(stmts@, 0, var_name@, content@, cursor_offset),
    decreases stmts@,
{
    let n = stmts.len();
    let mut i: usize = 0;
    while i < n
        invariant
            n == stmts@.len(),
            i <= n,
            body_type(stmts@, 0, var_name@, content@, cursor_offset) == body_type(stmts@, i as int, var_name@, content@, cursor_offset),
        decreases n - i,
    {
        let stmt = &stmts[i];
        if stmt.span.covers(cursor_offset) {
            // Catch variable type hints
            let t = find_type_in_catch(stmt, var_name, cursor_offset);
            if t.is_some() {
                return t;
            }
            // Foreach bindings
            match &stmt.kind {
                StatementKind::Foreach(f) => {
                    let t = find_type_in_foreach(f, var_name, content, cursor_offset);
                    if t.is_some() {
                        return t;
                    }
                },
                _ => {},
            }
            // Closure/arrow function parameters
            let t = find_type_in_closure_stmt(stmt, var_name, content, cursor_offset);
            if t.is_some() {
                return t;
            }
        }
        i = i + 1;
    }
    None
}

/// Search statements for closure parameters, first match.
fn find_type_in_closure_stmts(stmts: &[Statement], var_name: &str, content: &str, cursor_offset: u32) -> (r: Option<String>)
    ensures
        opt_view(r) == stmts_closure_type(stmts@, 0, var_name@, content@, cursor_offset),
    decreases stmts@,
{
    let n = stmts.len();
    let mut i: usize = 0;
    while i < n
        invariant
            n == stmts@.len(),
            i <= n,
            stmts_closure_type(stmts@, 0, var_name@, content@, cursor_offset) == stmts_closure_type(stmts@, i as int, var_name@, content@, cursor_offset),
        decreases n - i,
    {
        let t = find_type_in_closure_stmt(&stmts[i], var_name, content, cursor_offset);
        if t.is_some() {
            return t;
        }
        i = i + 1;
    }
    None
}

/// Search the blocks of `catch` clauses for closure parameters.
fn find_type_in_closure_catches(catches: &[CatchClause], var_name: &str, content: &str, cursor_offset: u32) -> (r: Option<String>)
    ensures
        opt_view(r) == catches_closure_type(catches@, 0, var_name@, content@, cursor_offset),
    decreases catches@,
{
    let n = catches.len();
    let mut i: usize = 0;
    while i < n
        invariant
            n == catches@.len(),
            i <= n,
            catches_closure_type(catches@, 0, var_name@, content@, cursor_offset) == catches_closure_type(catches@, i as int, var_name@, content@, cursor_offset),
        decreases n - i,
    {
        let t = find_type_in_closure_stmts(catches[i].block.statements.as_slice(), var_name, content, cursor_offset);
        if t.is_some() {
            return t;
        }
        i = i + 1;
    }
    None
}

/// Recursively search a statement for closure/arrow function parameters.
pub fn find_type_in_closure_stmt(stmt: &Statement, var_name: &str, content: &str, cursor_offset: u32) -> (r: Option<String>)
    ensures
        opt_view(r) == closure_stmt_type(*stmt, var_name@, content@, cursor_offset),
    decreases *stmt,
{
    match &stmt.kind {
        StatementKind::Expression(e) => find_type_in_closure_expr(e, var_name, content, cursor_offset),
        StatementKind::Return { value } => match value {
            Some(e) => find_type_in_closure_expr(e, var_name, content, cursor_offset),
            None => None,
        },
        StatementKind::If { statements } => find_type_in_closure_stmts(statements.as_slice(), var_name, content, cursor_offset),
        StatementKind::Foreach(f) => find_type_in_closure_stmts(f.body.as_slice(), var_name, content, cursor_offset),
        StatementKind::Block { statements } => find_type_in_closure_stmts(statements.as_slice(), var_name, content, cursor_offset),
        StatementKind::Try { block, catches, finally } => {
            let t = find_type_in_closure_stmts(block.statements.as_slice(), var_name, content, cursor_offset);
            if t.is_some() {
                return t;
            }
            let t = find_type_in_closure_catches(catches.as_slice(), var_name, content, cursor_offset);
            if t.is_some() {
                return t;
            }
            match finally {
                Some(f) => find_type_in_closure_stmts(f.statements.as_slice(), var_name, content, cursor_offset),
                None => None,
            }
        },
        _ => None,
    }
}

/// Search call arguments for closure parameters, first match.
fn find_type_in_closure_args(args: &[Expression], var_name: &str, content: &str, cursor_offset: u32) -> (r: Option<String>)
    ensures
        opt_view(r) == args_closure_type(args@, 0, var_name@, content@, cursor_offset),
    decreases args@,
{
    let n = args.len();
    let mut i: usize = 0;
    while i < n
        invariant
            n == args@.len(),
            i <= n,
            args_closure_type(args@, 0, var_name@, content@, cursor_offset) == args_closure_type(args@, i as int, var_name@, content@, cursor_offset),
        decreases n - i,
    {
        let t = find_type_in_closure_expr(&args[i], var_name, content, cursor_offset);
        if t.is_some() {
            return t;
        }
        i = i + 1;
    }
    None
}

/// Check if an expression contains a closure/arrow function whose
/// parameter matches the target variable.
pub fn find_type_in_closure_expr(expr: &Expression, var_name: &str, content: &str, cursor_offset: u32) -> (r: Option<String>)
    ensures
        opt_view(r) == closure_expr_type(*expr, var_name@, content@, cursor_offset),
    decreases *expr,
{
    match expr {
        Expression::Closure { span, parameters, body } => {
            if span.covers(cursor_offset) {
                // Check closure parameters
                let result = find_type_in_params(parameters, var_name);
                if result.is_some() {
                    return result;
                }
                // Recurse into the body
                return find_type_in_body_stmts(body.as_slice(), var_name, content, cursor_offset);
            }
            None
        },
        Expression::ArrowFunction { span, parameters } => {
            if span.covers(cursor_offset) {
                return find_type_in_params(parameters, var_name);
            }
            None
        },
        Expression::Call { arguments } => find_type_in_closure_args(arguments.as_slice(), var_name, content, cursor_offset),
        Expression::Parenthesized { inner } => find_type_in_closure_expr(inner, var_name, content, cursor_offset),
        Expression::Assignment { rhs } => find_type_in_closure_expr(rhs, var_name, content, cursor_offset),
        Expression::Other => None,
    }
}

/// Search a method or function body holding the cursor: body constructs
/// first, then the parameter type.
fn find_type_in_callable_body(
    parameters: &ParameterList,
    body: &Block,
    var_name: &str,
    content: &str,
    cursor_offset: u32,
) -> (r: Option<String>)
    ensures
        opt_view(r) == callable_body_type(*parameters, body.statements@, var_name@, content@, cursor_offset),
{
    let t = find_type_in_body_stmts(body.statements.as_slice(), var_name, content, cursor_offset);
    if t.is_some() {
        return t;
    }
    // Fall back to the parameter type.
    find_type_in_params(parameters, var_name)
}

/// Search class members for a method containing the cursor, then
/// extract the variable's type string.
pub fn find_type_in_class_members(members: &[ClassMember], var_name: &str, content: &str, cursor_offset: u32) -> (r: Option<String>)
    ensures
        opt_view(r) == members_type(members@, 0, var_name@, content@, cursor_offset),
{
    let n = members.len();
    let mut i: usize = 0;
    while i < n
        invariant
            n == members@.len(),
            i <= n,
            members_type(members@, 0, var_name@, content@, cursor_offset) == members_type(members@, i as int, var_name@, content@, cursor_offset),
        decreases n - i,
    {
        match &members[i] {
            ClassMember::Method { start, parameters, body } => {
                // Check the parameter list span.
                if parameters.span.covers(cursor_offset) {
                    return find_type_in_params(parameters, var_name);
                }
                match body {
                    Some(b) => {
                        if b.span.covers(cursor_offset) {
                            return find_type_in_callable_body(parameters, b, var_name, content, cursor_offset);
                        }
                    },
                    None => {},
                }
            },
            ClassMember::Other => {},
        }
        i = i + 1;
    }
    None
}

/// Walk top-level statements to find the scope containing the cursor
/// and extract the variable's type string from its definition site.
pub fn find_variable_type_in_statements(stmts: &[Statement], var_name: &str, content: &str, cursor_offset: u32) -> (r: Option<String>)
    ensures
        opt_view(r) == statements_type(stmts@, 0, var_name@, content@, cursor_offset),
    decreases stmts@,
{
    let n = stmts.len();
    let mut i: usize = 0;
    while i < n
        invariant
            n == stmts@.len(),
            i <= n,
            statements_type(stmts@, 0, var_name@, content@, cursor_offset) == statements_type(stmts@, i as int, var_name@, content@, cursor_offset),
        decreases n - i,
    {
        let stmt = &stmts[i];
        match &stmt.kind {
            StatementKind::ClassLike { body, members } => {
                if body.covers(cursor_offset) {
                    return find_type_in_class_members(members.as_slice(), var_name, content, cursor_offset);
                }
            },
            StatementKind::Namespace { statements } => {
                let t = find_variable_type_in_statements(statements.as_slice(), var_name, content, cursor_offset);
                if t.is_some() {
                    return t;
                }
            },
            StatementKind::Function { parameters, body } => {
                if parameters.span.covers(cursor_offset) {
                    return find_type_in_params(parameters, var_name);
                }
                if body.span.covers(cursor_offset) {
                    return find_type_in_callable_body(parameters, body, var_name, content, cursor_offset);
                }
            },
            StatementKind::Try { .. } => {
                if stmt.span.covers(cursor_offset) {
                    let t = find_type_in_catch(stmt, var_name, cursor_offset);
                    if t.is_some() {
                        return t;
                    }
                }
            },
            StatementKind::Foreach(f) => {
                if stmt.span.covers(cursor_offset) {
                    let t = find_type_in_foreach(f, var_name, content, cursor_offset);
                    if t.is_some() {
                        return t;
                    }
                }
            },
            _ => {},
        }
        i = i + 1;
    }
    None
}

/// Resolve the type string for a variable at `cursor_offset` for hover.
///
/// Tries, in order:
/// 1. The inline `/** @var Type $var */` docblock override, as given
/// 2. Parameter type (native + `@param` → effective)
/// 3. Foreach value/key binding (iterable element type from `@param`/`@var`)
/// 4. Catch variable (catch clause hint string)
/// 5. The assignment's raw type, from `assignment_type`, which is run
///    only when nothing before it gave a type
///
/// `program` is the syntax tree of `content` (empty when the text does
/// not parse), and `inline_var_type` what the inline annotation before
/// the cursor gives the variable, if anything.
///
/// Returns `None` when no type information could be determined.
pub fn resolve_variable_type_string<F: FnOnce() -> Option<String>>(
    var_name: &str,
    content: &str,
    cursor_offset: u32,
    program: &[Statement],
    inline_var_type: Option<String>,
    assignment_type: F,
) -> (r: Option<String>)
    requires
        call_requires(assignment_type, ()),
    ensures
        match type_before_assignment(opt_view(inline_var_type), program@, var_name@, content@, cursor_offset) {
            Some(t) => opt_view(r) == Some(t),
            None => call_ensures(assignment_type, (), r),
        },
{
    // 1. Inline @var override
    if inline_var_type.is_some() {
        return inline_var_type;
    }
    // 2–4. Parameter, foreach, catch
    let ast_result = find_variable_type_in_statements(program, var_name, content, cursor_offset);
    if ast_result.is_some() {
        return ast_result;
    }
    // 5. Assignment raw type
    assignment_type()
}

} // verus!
