//! What holds of every type that hover lookup reports: it is one that the
//! syntax tree attaches to a binding of the variable's name.
use vstd::prelude::*;

use crate::hover::docblock::{
    docblock_open, is_last_docblock_open, method_docblock, occurs_at, opt_view,
};
use crate::hover::syntax::{
    args_within, cases_within, catches_within, expr_within, spans_nested, spec_covers, stmts_within, Span,
    Block, CatchClause, ClassMember, Expression, Foreach, IterableTypes, Parameter, Statement, StatementKind,
};
use crate::hover::variable_type::{
    args_closure_type, body_type, first_some, cases_catch_type, catch_type, catches_catch_type,
    catches_closure_type, closure_expr_type, closure_stmt_type, foreach_type,
    members_type, params_type, statements_type, stmts_catch_type, stmts_closure_type,
    is_plain_variable_text, type_before_assignment,
};
use crate::text::{str_get_spec, trim_chars, trim_end_chars};
use vstd::utf8::encode_utf8;

verus! {

// ─────────────────────────────────────────────────────────────────────
// Bindings: where the tree attaches a type to a variable name
// ─────────────────────────────────────────────────────────────────────

/// A parameter named `var` carries `t` as its effective or native type.
pub open spec fn param_binds(ps: Seq<Parameter>, var: Seq<char>, t: Seq<char>) -> bool {
    exists|k: int|
        0 <= k < ps.len() && (#[trigger] ps[k]).name@ == var && (opt_view(ps[k].effective_hint) == Some(t)
            || opt_view(ps[k].native_hint) == Some(t))
}

/// `o` is a name equal to `var`.
pub open spec fn is_name(o: Option<String>, var: Seq<char>) -> bool {
    match o {
        Some(n) => n@ == var,
        None => false,
    }
}

/// The iterable's value type is `t`.
pub open spec fn value_type_is(it: Option<IterableTypes>, t: Seq<char>) -> bool {
    match it {
        Some(rt) => opt_view(rt.value_type) == Some(t),
        None => false,
    }
}

/// The iterable's key type is `t`.
pub open spec fn key_type_is(it: Option<IterableTypes>, t: Seq<char>) -> bool {
    match it {
        Some(rt) => opt_view(rt.key_type) == Some(t),
        None => false,
    }
}

/// A `foreach` binds `var` as its value (or key) variable with the
/// iterable's value (or key) type `t`, or a statement of its body binds
/// it.
pub open spec fn foreach_binds(f: Foreach, var: Seq<char>, t: Seq<char>) -> bool
    decreases f, 0int,
{
    ||| is_name(f.value_variable, var) && value_type_is(f.iterable, t)
    ||| is_name(f.key_variable, var) && key_type_is(f.iterable, t)
    ||| stmts_bind(f.body@, 0, var, t)
}

/// The statement, or something nested in it, binds `var` to `t`.
pub open spec fn stmt_binds(s: Statement, var: Seq<char>, t: Seq<char>) -> bool
    decreases s, 0int,
{
    match s.kind {
        StatementKind::ClassLike { members, .. } => members_bind(members@, 0, var, t),
        StatementKind::Namespace { statements } => stmts_bind(statements@, 0, var, t),
        StatementKind::Function { parameters, body } => param_binds(parameters.parameters@, var, t)
            || stmts_bind(body.statements@, 0, var, t),
        StatementKind::Try { block, catches, finally } => stmts_bind(block.statements@, 0, var, t)
            || catches_bind(catches@, 0, var, t) || match finally {
            Some(f) => stmts_bind(f.statements@, 0, var, t),
            None => false,
        },
        StatementKind::Foreach(f) => foreach_binds(f, var, t),
        StatementKind::If { statements } => stmts_bind(statements@, 0, var, t),
        StatementKind::While { statements } => stmts_bind(statements@, 0, var, t),
        StatementKind::DoWhile { statement } => stmt_binds(*statement, var, t),
        StatementKind::For { statements } => stmts_bind(statements@, 0, var, t),
        StatementKind::Block { statements } => stmts_bind(statements@, 0, var, t),
        StatementKind::Switch { cases } => cases_bind(cases@, 0, var, t),
        StatementKind::Expression(e) => expr_binds(e, var, t),
        StatementKind::Return { value } => match value {
            Some(e) => expr_binds(e, var, t),
            None => false,
        },
        StatementKind::Other => false,
    }
}

/// A statement from index `i` on binds `var` to `t`.
pub open spec fn stmts_bind(stmts: Seq<Statement>, i: int, var: Seq<char>, t: Seq<char>) -> bool
    decreases stmts, stmts.len() - i,
{
    if i < 0 || i >= stmts.len() {
        false
    } else {
        stmt_binds(stmts[i], var, t) || stmts_bind(stmts, i + 1, var, t)
    }
}

/// A class member from index `i` on binds `var` to `t` (a method's
/// parameter, or something in its body).
pub open spec fn members_bind(ms: Seq<ClassMember>, i: int, var: Seq<char>, t: Seq<char>) -> bool
    decreases ms, ms.len() - i,
{
    if i < 0 || i >= ms.len() {
        false
    } else {
        let here = match ms[i] {
            ClassMember::Method { parameters, body, .. } => param_binds(parameters.parameters@, var, t)
                || match body {
                Some(b) => stmts_bind(b.statements@, 0, var, t),
                None => false,
            },
            ClassMember::Other => false,
        };
        here || members_bind(ms, i + 1, var, t)
    }
}

/// A `catch` clause from index `i` on catches into `var` with hint `t`,
/// or its block binds `var` to `t`.
pub open spec fn catches_bind(cs: Seq<CatchClause>, i: int, var: Seq<char>, t: Seq<char>) -> bool
    decreases cs, cs.len() - i,
{
    if i < 0 || i >= cs.len() {
        false
    } else {
        let c = cs[i];
        let caught = match c.variable {
            Some((name, _span)) => name@ == var && c.hint@ == t,
            None => false,
        };
        let here = caught || stmts_bind(c.block.statements@, 0, var, t);
        here || catches_bind(cs, i + 1, var, t)
    }
}

/// A `switch` case from index `i` on binds `var` to `t`.
pub open spec fn cases_bind(cases: Seq<Vec<Statement>>, i: int, var: Seq<char>, t: Seq<char>) -> bool
    decreases cases, cases.len() - i,
{
    if i < 0 || i >= cases.len() {
        false
    } else {
        stmts_bind(cases[i]@, 0, var, t) || cases_bind(cases, i + 1, var, t)
    }
}

/// A closure or arrow function in the expression binds `var` to `t`.
pub open spec fn expr_binds(e: Expression, var: Seq<char>, t: Seq<char>) -> bool
    decreases e, 0int,
{
    match e {
        Expression::Closure { parameters, body, .. } => param_binds(parameters.parameters@, var, t)
            || stmts_bind(body@, 0, var, t),
        Expression::ArrowFunction { parameters, .. } => param_binds(parameters.parameters@, var, t),
        Expression::Call { arguments } => args_bind(arguments@, 0, var, t),
        Expression::Parenthesized { inner } => expr_binds(*inner, var, t),
        Expression::Assignment { rhs } => expr_binds(*rhs, var, t),
        Expression::Other => false,
    }
}

/// A call argument from index `i` on binds `var` to `t`.
pub open spec fn args_bind(args: Seq<Expression>, i: int, var: Seq<char>, t: Seq<char>) -> bool
    decreases args, args.len() - i,
{
    if i < 0 || i >= args.len() {
        false
    } else {
        expr_binds(args[i], var, t) || args_bind(args, i + 1, var, t)
    }
}

// ─────────────────────────────────────────────────────────────────────
// Each lookup reports only bound types
// ─────────────────────────────────────────────────────────────────────

proof fn lemma_params_sound(ps: Seq<Parameter>, i: int, var: Seq<char>, t: Seq<char>)
    requires
        params_type(ps, i, var) == Some(t),
    ensures
        param_binds(ps, var, t),
    decreases ps.len() - i,
{
    if ps[i].name@ == var {
        assert(ps[i].name@ == var);
    } else {
        lemma_params_sound(ps, i + 1, var, t);
    }
}

proof fn lemma_catch_sound(s: Statement, var: Seq<char>, cursor: u32, t: Seq<char>)
    requires
        catch_type(s, var, cursor) == Some(t),
    ensures
        stmt_binds(s, var, t),
    decreases s, 0int,
{
    match s.kind {
        StatementKind::Try { block, catches, finally } => {
            if catches_catch_type(catches@, 0, var, cursor) is Some {
                lemma_catches_catch_sound(catches@, 0, var, cursor, t);
            } else if stmts_catch_type(block.statements@, 0, var, cursor) is Some && crate::hover::syntax::spec_covers(block.span, cursor) {
                lemma_stmts_catch_sound(block.statements@, 0, var, cursor, t);
            } else {
                match finally {
                    Some(f) => lemma_stmts_catch_sound(f.statements@, 0, var, cursor, t),
                    None => {},
                }
            }
        },
        StatementKind::If { statements } => lemma_stmts_catch_sound(statements@, 0, var, cursor, t),
        StatementKind::Foreach(f) => {
            lemma_stmts_catch_sound(f.body@, 0, var, cursor, t);
            assert(foreach_binds(f, var, t));
        },
        StatementKind::While { statements } => lemma_stmts_catch_sound(statements@, 0, var, cursor, t),
        StatementKind::DoWhile { statement } => lemma_catch_sound(*statement, var, cursor, t),
        StatementKind::For { statements } => lemma_stmts_catch_sound(statements@, 0, var, cursor, t),
        StatementKind::Block { statements } => lemma_stmts_catch_sound(statements@, 0, var, cursor, t),
        StatementKind::Switch { cases } => lemma_cases_catch_sound(cases@, 0, var, cursor, t),
        _ => {},
    }
}

proof fn lemma_stmts_catch_sound(stmts: Seq<Statement>, i: int, var: Seq<char>, cursor: u32, t: Seq<char>)
    requires
        stmts_catch_type(stmts, i, var, cursor) == Some(t),
    ensures
        stmts_bind(stmts, i, var, t),
    decreases stmts, stmts.len() - i,
{
    if catch_type(stmts[i], var, cursor) is Some {
        lemma_catch_sound(stmts[i], var, cursor, t);
    } else {
        lemma_stmts_catch_sound(stmts, i + 1, var, cursor, t);
    }
}

proof fn lemma_catches_catch_sound(cs: Seq<CatchClause>, i: int, var: Seq<char>, cursor: u32, t: Seq<char>)
    requires
        catches_catch_type(cs, i, var, cursor) == Some(t),
    ensures
        catches_bind(cs, i, var, t),
    decreases cs, cs.len() - i,
{
    let c = cs[i];
    let on_variable = match c.variable {
        Some((name, span)) => name@ == var && span.start <= cursor && cursor < span.end,
        None => false,
    };
    if on_variable {
    } else if crate::hover::syntax::spec_covers(c.block.span, cursor) && stmts_catch_type(c.block.statements@, 0, var, cursor) is Some {
        lemma_stmts_catch_sound(c.block.statements@, 0, var, cursor, t);
    } else {
        lemma_catches_catch_sound(cs, i + 1, var, cursor, t);
    }
}

proof fn lemma_cases_catch_sound(cases: Seq<Vec<Statement>>, i: int, var: Seq<char>, cursor: u32, t: Seq<char>)
    requires
        cases_catch_type(cases, i, var, cursor) == Some(t),
    ensures
        cases_bind(cases, i, var, t),
    decreases cases, cases.len() - i,
{
    if stmts_catch_type(cases[i]@, 0, var, cursor) is Some {
        lemma_stmts_catch_sound(cases[i]@, 0, var, cursor, t);
    } else {
        lemma_cases_catch_sound(cases, i + 1, var, cursor, t);
    }
}

proof fn lemma_foreach_sound(f: Foreach, var: Seq<char>, content: Seq<char>, cursor: u32, t: Seq<char>)
    requires
        foreach_type(f, var, content, cursor) == Some(t),
    ensures
        foreach_binds(f, var, t),
    decreases f, 0int,
{
    let is_value_var = f.value_variable matches Some(n) && n@ == var;
    let is_key_var = f.key_variable matches Some(n) && n@ == var;
    if !is_value_var && !is_key_var {
        lemma_body_sound(f.body@, 0, var, content, cursor, t);
    }
}

proof fn lemma_body_sound(stmts: Seq<Statement>, i: int, var: Seq<char>, content: Seq<char>, cursor: u32, t: Seq<char>)
    requires
        body_type(stmts, i, var, content, cursor) == Some(t),
    ensures
        stmts_bind(stmts, i, var, t),
    decreases stmts, stmts.len() - i,
{
    let s = stmts[i];
    if !crate::hover::syntax::spec_covers(s.span, cursor) {
        lemma_body_sound(stmts, i + 1, var, content, cursor, t);
    } else if catch_type(s, var, cursor) is Some {
        lemma_catch_sound(s, var, cursor, t);
    } else {
        let fe = match s.kind {
            StatementKind::Foreach(f) => foreach_type(f, var, content, cursor),
            _ => None,
        };
        if fe is Some {
            match s.kind {
                StatementKind::Foreach(f) => {
                    lemma_foreach_sound(f, var, content, cursor, t);
                    assert(stmt_binds(s, var, t));
                },
                _ => {},
            }
        } else if closure_stmt_type(s, var, content, cursor) is Some {
            lemma_closure_stmt_sound(s, var, content, cursor, t);
        } else {
            lemma_body_sound(stmts, i + 1, var, content, cursor, t);
        }
    }
}

proof fn lemma_closure_stmt_sound(s: Statement, var: Seq<char>, content: Seq<char>, cursor: u32, t: Seq<char>)
    requires
        closure_stmt_type(s, var, content, cursor) == Some(t),
    ensures
        stmt_binds(s, var, t),
    decreases s, 0int,
{
    match s.kind {
        StatementKind::Expression(e) => lemma_closure_expr_sound(e, var, content, cursor, t),
        StatementKind::Return { value } => match value {
            Some(e) => lemma_closure_expr_sound(e, var, content, cursor, t),
            None => {},
        },
        StatementKind::If { statements } => lemma_stmts_closure_sound(statements@, 0, var, content, cursor, t),
        StatementKind::Foreach(f) => {
            lemma_stmts_closure_sound(f.body@, 0, var, content, cursor, t);
            assert(foreach_binds(f, var, t));
        },
        StatementKind::Block { statements } => lemma_stmts_closure_sound(statements@, 0, var, content, cursor, t),
        StatementKind::Try { block, catches, finally } => {
            if stmts_closure_type(block.statements@, 0, var, content, cursor) is Some {
                lemma_stmts_closure_sound(block.statements@, 0, var, content, cursor, t);
            } else if catches_closure_type(catches@, 0, var, content, cursor) is Some {
                lemma_catches_closure_sound(catches@, 0, var, content, cursor, t);
            } else {
                match finally {
                    Some(f) => lemma_stmts_closure_sound(f.statements@, 0, var, content, cursor, t),
                    None => {},
                }
            }
        },
        _ => {},
    }
}

proof fn lemma_stmts_closure_sound(stmts: Seq<Statement>, i: int, var: Seq<char>, content: Seq<char>, cursor: u32, t: Seq<char>)
    requires
        stmts_closure_type(stmts, i, var, content, cursor) == Some(t),
    ensures
        stmts_bind(stmts, i, var, t),
    decreases stmts, stmts.len() - i,
{
    if closure_stmt_type(stmts[i], var, content, cursor) is Some {
        lemma_closure_stmt_sound(stmts[i], var, content, cursor, t);
    } else {
        lemma_stmts_closure_sound(stmts, i + 1, var, content, cursor, t);
    }
}

proof fn lemma_catches_closure_sound(cs: Seq<CatchClause>, i: int, var: Seq<char>, content: Seq<char>, cursor: u32, t: Seq<char>)
    requires
        catches_closure_type(cs, i, var, content, cursor) == Some(t),
    ensures
        catches_bind(cs, i, var, t),
    decreases cs, cs.len() - i,
{
    if stmts_closure_type(cs[i].block.statements@, 0, var, content, cursor) is Some {
        lemma_stmts_closure_sound(cs[i].block.statements@, 0, var, content, cursor, t);
    } else {
        lemma_catches_closure_sound(cs, i + 1, var, content, cursor, t);
    }
}

proof fn lemma_closure_expr_sound(e: Expression, var: Seq<char>, content: Seq<char>, cursor: u32, t: Seq<char>)
    requires
        closure_expr_type(e, var, content, cursor) == Some(t),
    ensures
        expr_binds(e, var, t),
    decreases e, 0int,
{
    match e {
        Expression::Closure { span, parameters, body } => {
            if params_type(parameters.parameters@, 0, var) is Some {
                lemma_params_sound(parameters.parameters@, 0, var, t);
            } else {
                lemma_body_sound(body@, 0, var, content, cursor, t);
            }
        },
        Expression::ArrowFunction { span, parameters } => lemma_params_sound(parameters.parameters@, 0, var, t),
        Expression::Call { arguments } => lemma_args_closure_sound(arguments@, 0, var, content, cursor, t),
        Expression::Parenthesized { inner } => lemma_closure_expr_sound(*inner, var, content, cursor, t),
        Expression::Assignment { rhs } => lemma_closure_expr_sound(*rhs, var, content, cursor, t),
        Expression::Other => {},
    }
}

proof fn lemma_args_closure_sound(args: Seq<Expression>, i: int, var: Seq<char>, content: Seq<char>, cursor: u32, t: Seq<char>)
    requires
        args_closure_type(args, i, var, content, cursor) == Some(t),
    ensures
        args_bind(args, i, var, t),
    decreases args, args.len() - i,
{
    if closure_expr_type(args[i], var, content, cursor) is Some {
        lemma_closure_expr_sound(args[i], var, content, cursor, t);
    } else {
        lemma_args_closure_sound(args, i + 1, var, content, cursor, t);
    }
}

proof fn lemma_members_sound(ms: Seq<ClassMember>, i: int, var: Seq<char>, content: Seq<char>, cursor: u32, t: Seq<char>)
    requires
        members_type(ms, i, var, content, cursor) == Some(t),
    ensures
        members_bind(ms, i, var, t),
    decreases ms.len() - i,
{
    match ms[i] {
        ClassMember::Method { start, parameters, body } => {
            if crate::hover::syntax::spec_covers(parameters.span, cursor) {
                lemma_params_sound(parameters.parameters@, 0, var, t);
            } else {
                match body {
                    Some(b) => if crate::hover::syntax::spec_covers(b.span, cursor) {
                        if body_type(b.statements@, 0, var, content, cursor) is Some {
                            lemma_body_sound(b.statements@, 0, var, content, cursor, t);
                        } else {
                            lemma_params_sound(parameters.parameters@, 0, var, t);
                        }
                    } else {
                        lemma_members_sound(ms, i + 1, var, content, cursor, t);
                    },
                    None => lemma_members_sound(ms, i + 1, var, content, cursor, t),
                }
            }
        },
        ClassMember::Other => lemma_members_sound(ms, i + 1, var, content, cursor, t),
    }
}

proof fn lemma_statements_sound(stmts: Seq<Statement>, i: int, var: Seq<char>, content: Seq<char>, cursor: u32, t: Seq<char>)
    requires
        statements_type(stmts, i, var, content, cursor) == Some(t),
    ensures
        stmts_bind(stmts, i, var, t),
    decreases stmts, stmts.len() - i,
{
    let s = stmts[i];
    let rest = statements_type(stmts, i + 1, var, content, cursor);
    match s.kind {
        StatementKind::ClassLike { body, members } => if crate::hover::syntax::spec_covers(body, cursor) {
            lemma_members_sound(members@, 0, var, content, cursor, t);
            assert(stmt_binds(s, var, t));
        } else {
            lemma_statements_sound(stmts, i + 1, var, content, cursor, t);
        },
        StatementKind::Namespace { statements } => {
            if statements_type(statements@, 0, var, content, cursor) is Some {
                lemma_statements_sound(statements@, 0, var, content, cursor, t);
                assert(stmt_binds(s, var, t));
            } else {
                lemma_statements_sound(stmts, i + 1, var, content, cursor, t);
            }
        },
        StatementKind::Function { parameters, body } => if crate::hover::syntax::spec_covers(parameters.span, cursor) {
            lemma_params_sound(parameters.parameters@, 0, var, t);
            assert(stmt_binds(s, var, t));
        } else if crate::hover::syntax::spec_covers(body.span, cursor) {
            if body_type(body.statements@, 0, var, content, cursor) is Some {
                lemma_body_sound(body.statements@, 0, var, content, cursor, t);
            } else {
                lemma_params_sound(parameters.parameters@, 0, var, t);
            }
            assert(stmt_binds(s, var, t));
        } else {
            lemma_statements_sound(stmts, i + 1, var, content, cursor, t);
        },
        StatementKind::Try { .. } => if crate::hover::syntax::spec_covers(s.span, cursor) && catch_type(s, var, cursor) is Some {
            lemma_catch_sound(s, var, cursor, t);
            assert(stmt_binds(s, var, t));
        } else {
            lemma_statements_sound(stmts, i + 1, var, content, cursor, t);
        },
        StatementKind::Foreach(f) => if crate::hover::syntax::spec_covers(s.span, cursor) && foreach_type(f, var, content, cursor) is Some {
            lemma_foreach_sound(f, var, content, cursor, t);
            assert(stmt_binds(s, var, t));
        } else {
            lemma_statements_sound(stmts, i + 1, var, content, cursor, t);
        },
        _ => lemma_statements_sound(stmts, i + 1, var, content, cursor, t),
    }
}

// ─────────────────────────────────────────────────────────────────────
// Laws
// ─────────────────────────────────────────────────────────────────────

/// A type found in the syntax tree is one that the tree attaches to a
/// binding of the variable's name: a parameter's effective or native
/// type, a `catch` hint, or a `foreach` iterable's element type.
pub proof fn law_tree_type_comes_from_binding(
    program: Seq<Statement>,
    var: Seq<char>,
    content: Seq<char>,
    cursor: u32,
    t: Seq<char>,
)
    requires
        statements_type(program, 0, var, content, cursor) == Some(t),
    ensures
        stmts_bind(program, 0, var, t),
{
    lemma_statements_sound(program, 0, var, content, cursor, t);
}

/// The hover type before assignment inference: an inline `@var` override
/// wins; without one, the type from the variable's definition context. A
/// type it reports is the override or one that the tree binds to the
/// variable's name.
pub proof fn law_hover_type_precedence(
    inline_var_type: Option<Seq<char>>,
    program: Seq<Statement>,
    var: Seq<char>,
    content: Seq<char>,
    cursor: u32,
)
    ensures
        inline_var_type is Some ==> type_before_assignment(inline_var_type, program, var, content, cursor)
            == inline_var_type,
        inline_var_type is None ==> type_before_assignment(inline_var_type, program, var, content, cursor)
            == statements_type(program, 0, var, content, cursor),
        forall|t: Seq<char>|
            type_before_assignment(inline_var_type, program, var, content, cursor) == Some(t) ==> (
            inline_var_type == Some(t) || stmts_bind(program, 0, var, t)),
{
    assert forall|t: Seq<char>|
        type_before_assignment(inline_var_type, program, var, content, cursor) == Some(t) implies (
        inline_var_type == Some(t) || stmts_bind(program, 0, var, t)) by {
        if inline_var_type is None {
            lemma_statements_sound(program, 0, var, content, cursor, t);
        }
    }
}

/// A text holding `/**` holds a last `/**`.
proof fn lemma_last_docblock_open_exists(t: Seq<char>, i: int)
    requires
        occurs_at(t, i, docblock_open()),
    ensures
        exists|k: int| is_last_docblock_open(t, k),
    decreases t.len() - i,
{
    if is_last_docblock_open(t, i) {
    } else {
        let j = choose|j: int| i < j && occurs_at(t, j, docblock_open());
        lemma_last_docblock_open_exists(t, j);
    }
}

/// A docblock found before a declaration opens with `/**`, closes with
/// `*/`, and holds no later `/**`.
pub proof fn law_docblock_shape(content: Seq<char>, method_start: int, d: Seq<char>)
    requires
        method_docblock(content, method_start) == Some(d),
    ensures
        d.len() >= 3,
        d.subrange(0, 3) == docblock_open(),
        d[d.len() - 2] == '*' && d[d.len() - 1] == '/',
        forall|j: int| 0 < j ==> !occurs_at(d, j, docblock_open()),
{
    let before = crate::text::str_get_spec(vstd::utf8::encode_utf8(content), 0, method_start)->0;
    let t = trim_end_chars(before);
    let i0 = choose|i: int| occurs_at(t, i, docblock_open());
    lemma_last_docblock_open_exists(t, i0);
    let k = choose|k: int| is_last_docblock_open(t, k);
    assert(d == t.subrange(k, t.len() as int));
    assert(d.subrange(0, 3) =~= t.subrange(k, k + 3));
    assert(d[d.len() - 2] == t[t.len() - 2]);
    assert(d[d.len() - 1] == t[t.len() - 1]);
    assert forall|j: int| 0 < j implies !occurs_at(d, j, docblock_open()) by {
        if occurs_at(d, j, docblock_open()) {
            assert(t.subrange(k + j, k + j + 3) =~= d.subrange(j, j + 3));
            assert(occurs_at(t, k + j, docblock_open()));
        }
    }
}

// ─────────────────────────────────────────────────────────────────────
// Scope: the cursor outside every statement, and non-method members
// ─────────────────────────────────────────────────────────────────────

/// The statements from index `i` on are nested and none holds the cursor.
pub open spec fn all_outside(stmts: Seq<Statement>, i: int, cursor: u32) -> bool
    decreases stmts.len() - i,
{
    if i < 0 || i >= stmts.len() {
        true
    } else {
        !spec_covers(stmts[i].span, cursor) && spans_nested(stmts[i]) && all_outside(stmts, i + 1, cursor)
    }
}

proof fn lemma_all_outside_from_forall(stmts: Seq<Statement>, i: int, cursor: u32)
    requires
        0 <= i,
        forall|j: int| 0 <= j < stmts.len() ==> !spec_covers(#[trigger] stmts[j].span, cursor) && spans_nested(stmts[j]),
    ensures
        all_outside(stmts, i, cursor),
    decreases stmts.len() - i,
{
    if i < stmts.len() {
        lemma_all_outside_from_forall(stmts, i + 1, cursor);
    }
}

proof fn lemma_within_outside(stmts: Seq<Statement>, i: int, outer: Span, cursor: u32)
    requires
        0 <= i,
        stmts_within(stmts, i, outer),
        !spec_covers(outer, cursor),
    ensures
        all_outside(stmts, i, cursor),
    decreases stmts.len() - i,
{
    if i < stmts.len() {
        lemma_within_outside(stmts, i + 1, outer, cursor);
    }
}

proof fn lemma_outside_gives_none(stmts: Seq<Statement>, i: int, var: Seq<char>, content: Seq<char>, cursor: u32)
    requires
        0 <= i,
        all_outside(stmts, i, cursor),
    ensures
        statements_type(stmts, i, var, content, cursor) is None,
    decreases stmts, stmts.len() - i,
{
    if i < stmts.len() {
        let s = stmts[i];
        lemma_outside_gives_none(stmts, i + 1, var, content, cursor);
        match s.kind {
            StatementKind::Namespace { statements } => {
                lemma_within_outside(statements@, 0, s.span, cursor);
                lemma_outside_gives_none(statements@, 0, var, content, cursor);
            },
            _ => {},
        }
    }
}

/// In a tree whose spans are nested as a parser produces them, a cursor
/// that lies outside every top-level statement finds no type.
pub proof fn law_cursor_outside_program_finds_nothing(
    program: Seq<Statement>,
    var: Seq<char>,
    content: Seq<char>,
    cursor: u32,
)
    requires
        forall|j: int|
            0 <= j < program.len() ==> !spec_covers(#[trigger] program[j].span, cursor) && spans_nested(program[j]),
    ensures
        statements_type(program, 0, var, content, cursor) is None,
{
    lemma_all_outside_from_forall(program, 0, cursor);
    lemma_outside_gives_none(program, 0, var, content, cursor);
}

proof fn lemma_catch_outside(s: Statement, var: Seq<char>, cursor: u32)
    requires
        spans_nested(s),
        !spec_covers(s.span, cursor),
    ensures
        catch_type(s, var, cursor) is None,
    decreases s, 0int,
{
    match s.kind {
        StatementKind::Try { catches, .. } => lemma_catches_catch_outside(catches@, 0, s.span, var, cursor),
        StatementKind::If { statements } => lemma_stmts_catch_outside(statements@, 0, s.span, var, cursor),
        StatementKind::Foreach(f) => lemma_stmts_catch_outside(f.body@, 0, s.span, var, cursor),
        StatementKind::While { statements } => lemma_stmts_catch_outside(statements@, 0, s.span, var, cursor),
        StatementKind::DoWhile { statement } => lemma_catch_outside(*statement, var, cursor),
        StatementKind::For { statements } => lemma_stmts_catch_outside(statements@, 0, s.span, var, cursor),
        StatementKind::Block { statements } => lemma_stmts_catch_outside(statements@, 0, s.span, var, cursor),
        StatementKind::Switch { cases } => lemma_cases_catch_outside(cases@, 0, s.span, var, cursor),
        _ => {},
    }
}

proof fn lemma_stmts_catch_outside(stmts: Seq<Statement>, i: int, outer: Span, var: Seq<char>, cursor: u32)
    requires
        0 <= i,
        stmts_within(stmts, i, outer),
        !spec_covers(outer, cursor),
    ensures
        stmts_catch_type(stmts, i, var, cursor) is None,
    decreases stmts, stmts.len() - i,
{
    if i < stmts.len() {
        lemma_catch_outside(stmts[i], var, cursor);
        lemma_stmts_catch_outside(stmts, i + 1, outer, var, cursor);
    }
}

proof fn lemma_catches_catch_outside(cs: Seq<CatchClause>, i: int, outer: Span, var: Seq<char>, cursor: u32)
    requires
        0 <= i,
        catches_within(cs, i, outer),
        !spec_covers(outer, cursor),
    ensures
        catches_catch_type(cs, i, var, cursor) is None,
    decreases cs.len() - i,
{
    if i < cs.len() {
        lemma_catches_catch_outside(cs, i + 1, outer, var, cursor);
    }
}

proof fn lemma_cases_catch_outside(cases: Seq<Vec<Statement>>, i: int, outer: Span, var: Seq<char>, cursor: u32)
    requires
        0 <= i,
        cases_within(cases, i, outer),
        !spec_covers(outer, cursor),
    ensures
        cases_catch_type(cases, i, var, cursor) is None,
    decreases cases, cases.len() - i,
{
    if i < cases.len() {
        lemma_stmts_catch_outside(cases[i]@, 0, outer, var, cursor);
        lemma_cases_catch_outside(cases, i + 1, outer, var, cursor);
    }
}

proof fn lemma_closure_outside(s: Statement, var: Seq<char>, content: Seq<char>, cursor: u32)
    requires
        spans_nested(s),
        !spec_covers(s.span, cursor),
    ensures
        closure_stmt_type(s, var, content, cursor) is None,
    decreases s, 0int,
{
    match s.kind {
        StatementKind::Expression(e) => lemma_expr_closure_outside(e, s.span, var, content, cursor),
        StatementKind::Return { value } => match value {
            Some(e) => lemma_expr_closure_outside(e, s.span, var, content, cursor),
            None => {},
        },
        StatementKind::If { statements } => lemma_stmts_closure_outside(statements@, 0, s.span, var, content, cursor),
        StatementKind::Foreach(f) => lemma_stmts_closure_outside(f.body@, 0, s.span, var, content, cursor),
        StatementKind::Block { statements } => lemma_stmts_closure_outside(
            statements@,
            0,
            s.span,
            var,
            content,
            cursor,
        ),
        StatementKind::Try { block, catches, finally } => {
            lemma_stmts_closure_outside(block.statements@, 0, block.span, var, content, cursor);
            lemma_catches_closure_outside(catches@, 0, s.span, var, content, cursor);
            match finally {
                Some(f) => lemma_stmts_closure_outside(f.statements@, 0, f.span, var, content, cursor),
                None => {},
            }
        },
        _ => {},
    }
}

proof fn lemma_stmts_closure_outside(
    stmts: Seq<Statement>,
    i: int,
    outer: Span,
    var: Seq<char>,
    content: Seq<char>,
    cursor: u32,
)
    requires
        0 <= i,
        stmts_within(stmts, i, outer),
        !spec_covers(outer, cursor),
    ensures
        stmts_closure_type(stmts, i, var, content, cursor) is None,
    decreases stmts, stmts.len() - i,
{
    if i < stmts.len() {
        lemma_closure_outside(stmts[i], var, content, cursor);
        lemma_stmts_closure_outside(stmts, i + 1, outer, var, content, cursor);
    }
}

proof fn lemma_catches_closure_outside(
    cs: Seq<CatchClause>,
    i: int,
    outer: Span,
    var: Seq<char>,
    content: Seq<char>,
    cursor: u32,
)
    requires
        0 <= i,
        catches_within(cs, i, outer),
        !spec_covers(outer, cursor),
    ensures
        catches_closure_type(cs, i, var, content, cursor) is None,
    decreases cs, cs.len() - i,
{
    if i < cs.len() {
        let b = cs[i].block;
        lemma_stmts_closure_outside(b.statements@, 0, b.span, var, content, cursor);
        lemma_catches_closure_outside(cs, i + 1, outer, var, content, cursor);
    }
}

proof fn lemma_expr_closure_outside(e: Expression, outer: Span, var: Seq<char>, content: Seq<char>, cursor: u32)
    requires
        expr_within(e, outer),
        !spec_covers(outer, cursor),
    ensures
        closure_expr_type(e, var, content, cursor) is None,
    decreases e, 0int,
{
    match e {
        Expression::Call { arguments } => lemma_args_closure_outside(arguments@, 0, outer, var, content, cursor),
        Expression::Parenthesized { inner } => lemma_expr_closure_outside(*inner, outer, var, content, cursor),
        Expression::Assignment { rhs } => lemma_expr_closure_outside(*rhs, outer, var, content, cursor),
        _ => {},
    }
}

proof fn lemma_args_closure_outside(
    args: Seq<Expression>,
    i: int,
    outer: Span,
    var: Seq<char>,
    content: Seq<char>,
    cursor: u32,
)
    requires
        0 <= i,
        args_within(args, i, outer),
        !spec_covers(outer, cursor),
    ensures
        args_closure_type(args, i, var, content, cursor) is None,
    decreases args, args.len() - i,
{
    if i < args.len() {
        lemma_expr_closure_outside(args[i], outer, var, content, cursor);
        lemma_args_closure_outside(args, i + 1, outer, var, content, cursor);
    }
}

/// In a tree whose spans are nested as a parser produces them, a statement
/// that does not hold the cursor gives no type by any route of lookup: no
/// `catch` variable and no closure or arrow function parameter found in
/// it, no `foreach` binding of it, and, as a top-level statement, no
/// class, function or namespace scope of it.
pub proof fn law_statement_off_cursor_gives_nothing(
    s: Statement,
    var: Seq<char>,
    content: Seq<char>,
    cursor: u32,
)
    requires
        spans_nested(s),
        !spec_covers(s.span, cursor),
    ensures
        catch_type(s, var, cursor) is None,
        closure_stmt_type(s, var, content, cursor) is None,
        s.kind matches StatementKind::Foreach(f) ==> foreach_type(f, var, content, cursor) is None,
        statements_type(seq![s], 0, var, content, cursor) is None,
{
    lemma_catch_outside(s, var, cursor);
    lemma_closure_outside(s, var, content, cursor);
    let program = seq![s];
    assert(program[0] == s);
    assert(all_outside(program, 1, cursor));
    lemma_outside_gives_none(program, 0, var, content, cursor);
}


// ─────────────────────────────────────────────────────────────────────
// Which construct gives the type
// ─────────────────────────────────────────────────────────────────────

/// The first parameter named `var` has index `k`.
pub open spec fn first_named(ps: Seq<Parameter>, var: Seq<char>, k: int) -> bool {
    0 <= k < ps.len() && ps[k].name@ == var && forall|j: int| 0 <= j < k ==> ps[j].name@ != var
}

proof fn lemma_params_first_named(ps: Seq<Parameter>, i: int, var: Seq<char>, k: int)
    requires
        first_named(ps, var, k),
        0 <= i <= k,
    ensures
        params_type(ps, i, var) == if ps[k].effective_hint is Some {
            opt_view(ps[k].effective_hint)
        } else {
            opt_view(ps[k].native_hint)
        },
    decreases k - i,
{
    if i < k {
        lemma_params_first_named(ps, i + 1, var, k);
    }
}

proof fn lemma_body_off_cursor(stmts: Seq<Statement>, i: int, var: Seq<char>, content: Seq<char>, cursor: u32)
    requires
        0 <= i,
        forall|j: int| 0 <= j < stmts.len() ==> !spec_covers(#[trigger] stmts[j].span, cursor),
    ensures
        body_type(stmts, i, var, content, cursor) is None,
    decreases stmts.len() - i,
{
    if i < stmts.len() {
        lemma_body_off_cursor(stmts, i + 1, var, content, cursor);
    }
}

/// A class member's parameter list or body holds the cursor.
pub open spec fn member_holds_cursor(m: ClassMember, cursor: u32) -> bool {
    match m {
        ClassMember::Method { parameters, body, .. } => spec_covers(parameters.span, cursor) || match body {
            Some(b) => spec_covers(b.span, cursor),
            None => false,
        },
        ClassMember::Other => false,
    }
}

proof fn lemma_members_skip(ms: Seq<ClassMember>, i: int, m: int, var: Seq<char>, content: Seq<char>, cursor: u32)
    requires
        0 <= i <= m < ms.len(),
        forall|j: int| 0 <= j < m ==> !member_holds_cursor(#[trigger] ms[j], cursor),
    ensures
        members_type(ms, i, var, content, cursor) == members_type(ms, m, var, content, cursor),
    decreases m - i,
{
    if i < m {
        assert(!member_holds_cursor(ms[i], cursor));
        lemma_members_skip(ms, i + 1, m, var, content, cursor);
    }
}

/// Hovering a name in a concrete method's body where no statement of the
/// body holds the cursor (so no construct of the body binds it) gives the
/// type of the method's first parameter of that name: its effective type
/// when known, else its native hint, as in a top-level function's body.
pub proof fn law_method_body_falls_back_to_parameter(
    ms: Seq<ClassMember>,
    m: int,
    b: Block,
    var: Seq<char>,
    content: Seq<char>,
    cursor: u32,
    k: int,
)
    requires
        0 <= m < ms.len(),
        forall|j: int| 0 <= j < m ==> !member_holds_cursor(#[trigger] ms[j], cursor),
        ms[m] is Method,
        ms[m]->body == Some(b),
        !spec_covers(ms[m]->parameters.span, cursor),
        spec_covers(b.span, cursor),
        forall|j: int| 0 <= j < b.statements@.len() ==> !spec_covers(#[trigger] b.statements@[j].span, cursor),
        first_named(ms[m]->parameters.parameters@, var, k),
    ensures
        members_type(ms, 0, var, content, cursor) == if ms[m]->parameters.parameters@[k].effective_hint is Some {
            opt_view(ms[m]->parameters.parameters@[k].effective_hint)
        } else {
            opt_view(ms[m]->parameters.parameters@[k].native_hint)
        },
{
    lemma_members_skip(ms, 0, m, var, content, cursor);
    lemma_body_off_cursor(b.statements@, 0, var, content, cursor);
    lemma_params_first_named(ms[m]->parameters.parameters@, 0, var, k);
}

/// A docblock before a declaration is always found: whenever the text
/// before the offset, trailing whitespace removed, ends with `*/` and
/// holds a `/**`, the result is the text from its last `/**` to its end,
/// however many lines that spans.
pub proof fn law_docblock_found_when_present(content: Seq<char>, method_start: int, before: Seq<char>, k: int)
    requires
        str_get_spec(encode_utf8(content), 0, method_start) == Some(before),
        trim_end_chars(before).len() >= 2,
        trim_end_chars(before)[trim_end_chars(before).len() - 2] == '*',
        trim_end_chars(before)[trim_end_chars(before).len() - 1] == '/',
        occurs_at(trim_end_chars(before), k, docblock_open()),
        forall|j: int| k < j ==> !occurs_at(trim_end_chars(before), j, docblock_open()),
    ensures
        method_docblock(content, method_start) == Some(
            trim_end_chars(before).subrange(k, trim_end_chars(before).len() as int),
        ),
{
    let t = trim_end_chars(before);
    assert(is_last_docblock_open(t, k));
    let c = choose|c: int| is_last_docblock_open(t, c);
    if c < k {
        assert(!occurs_at(t, k, docblock_open()));
    } else if k < c {
        assert(!occurs_at(t, c, docblock_open()));
    }
}

proof fn lemma_body_skip(stmts: Seq<Statement>, i: int, m: int, var: Seq<char>, content: Seq<char>, cursor: u32)
    requires
        0 <= i <= m < stmts.len(),
        forall|j: int| 0 <= j < m ==> !spec_covers(#[trigger] stmts[j].span, cursor),
    ensures
        body_type(stmts, i, var, content, cursor) == body_type(stmts, m, var, content, cursor),
    decreases m - i,
{
    if i < m {
        assert(!spec_covers(stmts[i].span, cursor));
        lemma_body_skip(stmts, i + 1, m, var, content, cursor);
    }
}

/// In a function, method or closure body, a `foreach` that holds the
/// cursor types its value (or key) variable with the value (or key) type
/// of the iterated variable's docblock type, unless a `catch` variable of
/// the loop already gave a type; the iterated expression must be a plain
/// variable.
pub proof fn law_body_foreach_types_its_variables(
    stmts: Seq<Statement>,
    m: int,
    f: Foreach,
    text: Seq<char>,
    rt: IterableTypes,
    var: Seq<char>,
    content: Seq<char>,
    cursor: u32,
)
    requires
        0 <= m < stmts.len(),
        forall|j: int| 0 <= j < m ==> !spec_covers(#[trigger] stmts[j].span, cursor),
        spec_covers(stmts[m].span, cursor),
        stmts[m].kind == StatementKind::Foreach(f),
        f.keyword_start <= cursor <= f.body_end,
        catch_type(stmts[m], var, cursor) is None,
        str_get_spec(encode_utf8(content), f.expression.start as int, f.expression.end as int) == Some(text),
        is_plain_variable_text(trim_chars(text)),
        f.iterable == Some(rt),
    ensures
        is_name(f.value_variable, var) && rt.value_type is Some ==> body_type(stmts, 0, var, content, cursor)
            == opt_view(rt.value_type),
        !is_name(f.value_variable, var) && is_name(f.key_variable, var) && rt.key_type is Some ==> body_type(
            stmts,
            0,
            var,
            content,
            cursor,
        ) == opt_view(rt.key_type),
{
    lemma_body_skip(stmts, 0, m, var, content, cursor);
    assert(crate::hover::variable_type::foreach_iterable_spec(f, content) == Some(rt));
    let ft = foreach_type(f, var, content, cursor);
    if is_name(f.value_variable, var) && rt.value_type is Some {
        assert(ft == opt_view(rt.value_type));
    }
    if !is_name(f.value_variable, var) && is_name(f.key_variable, var) && rt.key_type is Some {
        assert(ft == opt_view(rt.key_type));
    }
    assert(body_type(stmts, m, var, content, cursor) == first_some(
        catch_type(stmts[m], var, cursor),
        first_some(ft, first_some(closure_stmt_type(stmts[m], var, content, cursor), body_type(stmts, m + 1, var, content, cursor))),
    ));
}

/// The members that are methods, in order.
pub open spec fn methods_only(ms: Seq<ClassMember>) -> Seq<ClassMember>
    decreases ms.len(),
{
    if ms.len() == 0 {
        ms
    } else {
        let rest = methods_only(ms.drop_first());
        match ms[0] {
            ClassMember::Other => rest,
            _ => seq![ms[0]] + rest,
        }
    }
}

proof fn lemma_members_shift(ms: Seq<ClassMember>, i: int, var: Seq<char>, content: Seq<char>, cursor: u32)
    requires
        0 <= i,
        ms.len() > 0,
    ensures
        members_type(ms, i + 1, var, content, cursor) == members_type(ms.drop_first(), i, var, content, cursor),
    decreases ms.len() - i,
{
    if i + 1 < ms.len() {
        assert(ms[i + 1] == ms.drop_first()[i]);
        lemma_members_shift(ms, i + 1, var, content, cursor);
    }
}

proof fn lemma_methods_only(ms: Seq<ClassMember>, var: Seq<char>, content: Seq<char>, cursor: u32)
    ensures
        members_type(ms, 0, var, content, cursor) == members_type(methods_only(ms), 0, var, content, cursor),
    decreases ms.len(),
{
    if ms.len() > 0 {
        lemma_methods_only(ms.drop_first(), var, content, cursor);
        lemma_members_shift(ms, 0, var, content, cursor);
        let rest = methods_only(ms.drop_first());
        match ms[0] {
            ClassMember::Other => {},
            _ => {
                let m2 = seq![ms[0]] + rest;
                assert(m2[0] == ms[0]);
                assert(m2.drop_first() =~= rest);
                lemma_members_shift(m2, 0, var, content, cursor);
            },
        }
    }
}

/// Members other than methods (properties, constants, enum cases, trait
/// uses) do not affect lookup in a class body: two member lists with the
/// same methods in the same order give the same type.
pub proof fn law_non_method_members_ignored(
    ms1: Seq<ClassMember>,
    ms2: Seq<ClassMember>,
    var: Seq<char>,
    content: Seq<char>,
    cursor: u32,
)
    requires
        methods_only(ms1) == methods_only(ms2),
    ensures
        members_type(ms1, 0, var, content, cursor) == members_type(ms2, 0, var, content, cursor),
{
    lemma_methods_only(ms1, var, content, cursor);
    lemma_methods_only(ms2, var, content, cursor);
}

} // verus!
