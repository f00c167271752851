//! The resolver and the checker agree on the structure of scopes.
//!
//! The resolver creates a scope for every function, every block and every
//! `for` loop, in the order in which it meets them. The checker meets them
//! in the same order and asks the arena for the next scope each time. This
//! module proves that the arena then holds the scope that the resolver
//! created for that very place: the checker enters every scope that the
//! resolver created for a translation unit, each one once, and none other.

use crate::parser::ast::{ExternalDeclarationView, FunctionDefinitionView, ParameterView, StatementView, TranslationUnitView};
use crate::scope::{lemma_analyze_expression, lemma_analyze_external_declaration, lemma_analyze_external_declarations, lemma_analyze_statement, lemma_analyze_statements, lemma_analyze_variable_declaration, lemma_declare_parameters, lemma_declare_symbol_extends, lemma_enter_scope, lemma_exit_scope, lemma_more_errors, scope_kept, ScopeAnalyzerView, ScopeNodeView, SymbolKindView};
use crate::type_checker::{lemma_check_condition_frame, lemma_check_expression_frame, lemma_check_return_frame, lemma_check_statement_frame, lemma_check_statements_frame, lemma_check_variable_declaration_frame, TypeCheckerView};
use vstd::prelude::*;

verus! {

/// How many scopes the resolver creates for a statement: one for every
/// block and every `for` loop in it.
pub open spec fn scopes_in(stmt: StatementView) -> nat
    decreases stmt,
{
    match stmt {
        StatementView::Block(stmts) => 1 + scopes_in_first(stmts, stmts.len()),
        StatementView::If(_, first, second) => scopes_in(*first) + (match second {
            Some(stmt) => scopes_in(*stmt),
            None => 0,
        }),
        StatementView::While(_, body) => scopes_in(*body),
        StatementView::For(init, _, _, body) => 1 + (match init {
            Some(stmt) => scopes_in(*stmt),
            None => 0,
        }) + scopes_in(*body),
        StatementView::DoWhile(body, _) => scopes_in(*body),
        StatementView::Switch(_, body) => scopes_in(*body),
        StatementView::Case(_, body) => scopes_in(*body),
        StatementView::Default(body) => scopes_in(*body),
        StatementView::Labeled(_, body) => scopes_in(*body),
        _ => 0,
    }
}

/// How many scopes the resolver creates for the first `count` statements
/// of a list.
pub open spec fn scopes_in_first(stmts: Seq<StatementView>, count: nat) -> nat
    decreases stmts, count,
{
    if count == 0 || count > stmts.len() {
        0
    } else {
        scopes_in_first(stmts, (count - 1) as nat) + scopes_in(stmts[count - 1])
    }
}

/// Whether the arena holds, from index `start` on, the scopes of a
/// statement that stands in the scope `parent`: each where the resolver
/// creates it, below the scope in which its block or loop stands.
pub open spec fn shaped(scopes: Seq<ScopeNodeView>, start: nat, parent: nat, stmt: StatementView) -> bool
    decreases stmt,
{
    match stmt {
        StatementView::Block(stmts) => {
            &&& start < scopes.len()
            &&& scopes[start as int].parent == Some(parent)
            &&& shaped_first(scopes, start + 1, start, stmts, stmts.len())
        },
        StatementView::If(_, first, second) => {
            &&& shaped(scopes, start, parent, *first)
            &&& match second {
                Some(stmt) => shaped(scopes, start + scopes_in(*first), parent, *stmt),
                None => true,
            }
        },
        StatementView::While(_, body) => shaped(scopes, start, parent, *body),
        StatementView::DoWhile(body, _) => shaped(scopes, start, parent, *body),
        StatementView::Switch(_, body) => shaped(scopes, start, parent, *body),
        StatementView::Case(_, body) => shaped(scopes, start, parent, *body),
        StatementView::Default(body) => shaped(scopes, start, parent, *body),
        StatementView::Labeled(_, body) => shaped(scopes, start, parent, *body),
        StatementView::For(init, _, _, body) => {
            &&& start < scopes.len()
            &&& scopes[start as int].parent == Some(parent)
            &&& match init {
                Some(stmt) => shaped(scopes, start + 1, start, *stmt),
                None => true,
            }
            &&& shaped(
                scopes,
                start + 1 + (match init {
                    Some(stmt) => scopes_in(*stmt),
                    None => 0,
                }),
                start,
                *body,
            )
        },
        _ => true,
    }
}

/// Whether the arena holds, from index `start` on, the scopes of the first
/// `count` statements of a list that stands in the scope `parent`.
pub open spec fn shaped_first(
    scopes: Seq<ScopeNodeView>,
    start: nat,
    parent: nat,
    stmts: Seq<StatementView>,
    count: nat,
) -> bool
    decreases stmts, count,
{
    if count == 0 || count > stmts.len() {
        true
    } else {
        &&& shaped_first(scopes, start, parent, stmts, (count - 1) as nat)
        &&& shaped(
            scopes,
            start + scopes_in_first(stmts, (count - 1) as nat),
            parent,
            stmts[count - 1],
        )
    }
}

/// Whether every scope of `before` stands in `after` with the same parent.
pub open spec fn parents_kept(before: Seq<ScopeNodeView>, after: Seq<ScopeNodeView>) -> bool {
    &&& before.len() <= after.len()
    &&& forall|i: int| 0 <= i < before.len() ==> (#[trigger] after[i]).parent == before[i].parent
}

/// The number of scopes of a list depends on its first statements alone.
pub proof fn lemma_scopes_in_prefix(a: Seq<StatementView>, b: Seq<StatementView>, count: nat)
    requires
        count <= a.len(),
        count <= b.len(),
        forall|i: int| 0 <= i < count ==> a[i] == b[i],
    ensures
        scopes_in_first(a, count) == scopes_in_first(b, count),
    decreases count,
{
    if count > 0 {
        lemma_scopes_in_prefix(a, b, (count - 1) as nat);
    }
}

/// The shape of a list depends on its first statements alone.
pub proof fn lemma_shaped_prefix(
    scopes: Seq<ScopeNodeView>,
    start: nat,
    parent: nat,
    a: Seq<StatementView>,
    b: Seq<StatementView>,
    count: nat,
)
    requires
        count <= a.len(),
        count <= b.len(),
        forall|i: int| 0 <= i < count ==> a[i] == b[i],
    ensures
        shaped_first(scopes, start, parent, a, count) == shaped_first(
            scopes,
            start,
            parent,
            b,
            count,
        ),
    decreases count,
{
    if count > 0 {
        lemma_shaped_prefix(scopes, start, parent, a, b, (count - 1) as nat);
        lemma_scopes_in_prefix(a, b, (count - 1) as nat);
    }
}

/// A shape stays when scopes are added to the arena and bindings to its
/// scopes.
pub proof fn lemma_shaped_stays(
    before: Seq<ScopeNodeView>,
    after: Seq<ScopeNodeView>,
    start: nat,
    parent: nat,
    stmt: StatementView,
)
    requires
        parents_kept(before, after),
        shaped(before, start, parent, stmt),
    ensures
        shaped(after, start, parent, stmt),
    decreases stmt,
{
    match stmt {
        StatementView::Block(stmts) => {
            assert(after[start as int].parent == before[start as int].parent);
            lemma_shaped_first_stays(before, after, start + 1, start, stmts, stmts.len());
        },
        StatementView::If(_, first, second) => {
            lemma_shaped_stays(before, after, start, parent, *first);
            match second {
                Some(stmt) => {
                    lemma_shaped_stays(before, after, start + scopes_in(*first), parent, *stmt);
                },
                None => {},
            }
        },
        StatementView::While(_, body) => {
            lemma_shaped_stays(before, after, start, parent, *body);
        },
        StatementView::DoWhile(body, _) => {
            lemma_shaped_stays(before, after, start, parent, *body);
        },
        StatementView::Switch(_, body) => {
            lemma_shaped_stays(before, after, start, parent, *body);
        },
        StatementView::Case(_, body) => {
            lemma_shaped_stays(before, after, start, parent, *body);
        },
        StatementView::Default(body) => {
            lemma_shaped_stays(before, after, start, parent, *body);
        },
        StatementView::Labeled(_, body) => {
            lemma_shaped_stays(before, after, start, parent, *body);
        },
        StatementView::For(init, _, _, body) => {
            assert(after[start as int].parent == before[start as int].parent);
            match init {
                Some(stmt) => {
                    lemma_shaped_stays(before, after, start + 1, start, *stmt);
                    lemma_shaped_stays(
                        before,
                        after,
                        start + 1 + scopes_in(*stmt),
                        start,
                        *body,
                    );
                },
                None => {
                    lemma_shaped_stays(before, after, start + 1, start, *body);
                },
            }
        },
        _ => {},
    }
}

/// The shape of a list stays when scopes are added to the arena and
/// bindings to its scopes.
pub proof fn lemma_shaped_first_stays(
    before: Seq<ScopeNodeView>,
    after: Seq<ScopeNodeView>,
    start: nat,
    parent: nat,
    stmts: Seq<StatementView>,
    count: nat,
)
    requires
        parents_kept(before, after),
        shaped_first(before, start, parent, stmts, count),
    ensures
        shaped_first(after, start, parent, stmts, count),
    decreases stmts, count,
{
    if count == 0 || count > stmts.len() {
    } else {
        lemma_shaped_first_stays(before, after, start, parent, stmts, (count - 1) as nat);
        lemma_shaped_stays(
            before,
            after,
            start + scopes_in_first(stmts, (count - 1) as nat),
            parent,
            stmts[count - 1],
        );
    }
}

/// A state that comes after another keeps the parents of its scopes.
pub proof fn lemma_extends_keeps_parents(before: ScopeAnalyzerView, after: ScopeAnalyzerView)
    requires
        after.extends(before),
    ensures
        parents_kept(before.scopes, after.scopes),
{
    assert forall|i: int| 0 <= i < before.scopes.len() implies (
    #[trigger] after.scopes[i]).parent == before.scopes[i].parent by {
        assert(scope_kept(before.scopes[i], after.scopes[i]));
    }
}

/// Keeping parents is transitive.
pub proof fn lemma_parents_kept_transitive(
    first: Seq<ScopeNodeView>,
    second: Seq<ScopeNodeView>,
    third: Seq<ScopeNodeView>,
)
    requires
        parents_kept(first, second),
        parents_kept(second, third),
    ensures
        parents_kept(first, third),
{
    assert forall|i: int| 0 <= i < first.len() implies (#[trigger] third[i]).parent
        == first[i].parent by {
        assert(second[i].parent == first[i].parent);
    }
}

/// The resolver gives every statement its shape: it creates as many scopes
/// as the statement has blocks and `for` loops, at the end of the arena,
/// each below the scope in which its block or loop stands.
pub proof fn lemma_resolver_shapes(state: ScopeAnalyzerView, stmt: StatementView)
    requires
        state.well_formed(),
    ensures
        state.analyze_statement(stmt).scopes.len() == state.scopes.len() + scopes_in(stmt),
        shaped(state.analyze_statement(stmt).scopes, state.scopes.len(), state.current, stmt),
    decreases stmt,
{
    let n = state.scopes.len();
    match stmt {
        StatementView::Declaration(decl) => {
            lemma_analyze_variable_declaration(state, decl);
        },
        StatementView::Assignment(name, expr) => {
            lemma_analyze_expression(state.check_variable_access(name), expr);
        },
        StatementView::Return(expr) => {
            match expr {
                Some(e) => {
                    lemma_analyze_expression(state, e);
                },
                None => {},
            }
        },
        StatementView::Expression(expr) => {
            lemma_analyze_expression(state, expr);
        },
        StatementView::Block(stmts) => {
            let entered = state.enter_scope();
            lemma_enter_scope(state);
            lemma_resolver_shapes_list(entered, stmts);
            lemma_analyze_statements(entered, stmts);
            let inner = entered.analyze_statements(stmts);
            lemma_extends_keeps_parents(entered, inner);
            assert(inner.scopes[n as int].parent == entered.scopes[n as int].parent);
            lemma_exit_scope(inner);
        },
        StatementView::If(condition, first, second) => {
            lemma_analyze_expression(state, condition);
            let s1 = state.analyze_expression(condition);
            lemma_more_errors(state, s1);
            lemma_resolver_shapes(s1, *first);
            lemma_analyze_statement(s1, *first);
            let s2 = s1.analyze_statement(*first);
            match second {
                Some(stmt) => {
                    lemma_resolver_shapes(s2, *stmt);
                    lemma_analyze_statement(s2, *stmt);
                    let s3 = s2.analyze_statement(*stmt);
                    lemma_extends_keeps_parents(s2, s3);
                    lemma_shaped_stays(s2.scopes, s3.scopes, n, state.current, *first);
                },
                None => {},
            }
        },
        StatementView::While(condition, body) => {
            lemma_analyze_expression(state, condition);
            let s1 = state.analyze_expression(condition);
            lemma_more_errors(state, s1);
            lemma_resolver_shapes(s1, *body);
        },
        StatementView::For(init, condition, update, body) => {
            let entered = state.enter_scope();
            lemma_enter_scope(state);
            let s1 = match init {
                Some(stmt) => entered.analyze_statement(*stmt),
                None => entered,
            };
            match init {
                Some(stmt) => {
                    lemma_resolver_shapes(entered, *stmt);
                    lemma_analyze_statement(entered, *stmt);
                },
                None => {},
            }
            assert(s1.well_formed() && s1.extends(entered));
            let s2 = s1.analyze_optional(condition);
            match condition {
                Some(e) => {
                    lemma_analyze_expression(s1, e);
                },
                None => {},
            }
            lemma_more_errors(s1, s2);
            let s3 = s2.analyze_optional(update);
            match update {
                Some(e) => {
                    lemma_analyze_expression(s2, e);
                },
                None => {},
            }
            lemma_more_errors(s2, s3);
            lemma_resolver_shapes(s3, *body);
            lemma_analyze_statement(s3, *body);
            let inner = s3.analyze_statement(*body);
            lemma_extends_keeps_parents(s3, inner);
            lemma_extends_keeps_parents(entered, s1);
            assert(parents_kept(s1.scopes, s3.scopes));
            lemma_parents_kept_transitive(s1.scopes, s3.scopes, inner.scopes);
            lemma_parents_kept_transitive(entered.scopes, s1.scopes, inner.scopes);
            assert(inner.scopes[n as int].parent == entered.scopes[n as int].parent);
            match init {
                Some(stmt) => {
                    lemma_shaped_stays(s1.scopes, inner.scopes, n + 1, n, *stmt);
                },
                None => {},
            }
            lemma_exit_scope(inner);
        },
        StatementView::DoWhile(body, condition) => {
            lemma_resolver_shapes(state, *body);
            lemma_analyze_statement(state, *body);
            let s1 = state.analyze_statement(*body);
            lemma_analyze_expression(s1, condition);
        },
        StatementView::Switch(value, body) => {
            lemma_analyze_expression(state, value);
            let s1 = state.analyze_expression(value);
            lemma_more_errors(state, s1);
            lemma_resolver_shapes(s1, *body);
        },
        StatementView::Case(value, body) => {
            lemma_analyze_expression(state, value);
            let s1 = state.analyze_expression(value);
            lemma_more_errors(state, s1);
            lemma_resolver_shapes(s1, *body);
        },
        StatementView::Default(body) => {
            lemma_resolver_shapes(state, *body);
        },
        StatementView::Continue => {},
        StatementView::Goto(_) => {},
        StatementView::Labeled(_, body) => {
            lemma_resolver_shapes(state, *body);
        },
        StatementView::Break => {},
    }
}

/// The resolver gives every list of statements its shape.
pub proof fn lemma_resolver_shapes_list(state: ScopeAnalyzerView, stmts: Seq<StatementView>)
    requires
        state.well_formed(),
    ensures
        state.analyze_statements(stmts).scopes.len() == state.scopes.len() + scopes_in_first(
            stmts,
            stmts.len(),
        ),
        shaped_first(
            state.analyze_statements(stmts).scopes,
            state.scopes.len(),
            state.current,
            stmts,
            stmts.len(),
        ),
    decreases stmts,
{
    if stmts.len() > 0 {
        let n = state.scopes.len();
        let count = (stmts.len() - 1) as nat;
        let prefix = stmts.drop_last();
        lemma_resolver_shapes_list(state, prefix);
        lemma_analyze_statements(state, prefix);
        let before = state.analyze_statements(prefix);
        lemma_resolver_shapes(before, stmts.last());
        lemma_analyze_statement(before, stmts.last());
        let after = before.analyze_statement(stmts.last());
        lemma_scopes_in_prefix(stmts, prefix, count);
        lemma_extends_keeps_parents(before, after);
        lemma_shaped_first_stays(before.scopes, after.scopes, n, state.current, prefix, count);
        lemma_shaped_prefix(after.scopes, n, state.current, stmts, prefix, count);
    }
}

/// The checker follows a shape: where the arena holds the scopes of a
/// statement from the next scope on, the checker enters each of them where
/// the statement opens one, and ends after the last.
pub proof fn lemma_checker_follows_shape(state: TypeCheckerView, parent: nat, stmt: StatementView)
    requires
        state.current_scope == Some(parent),
        shaped(state.scopes, state.next_scope, parent, stmt),
    ensures
        state.check_statement(stmt).next_scope == state.next_scope + scopes_in(stmt),
    decreases stmt,
{
    let start = state.next_scope;
    match stmt {
        StatementView::Declaration(decl) => {
            lemma_check_variable_declaration_frame(state, decl);
        },
        StatementView::Assignment(name, expr) => {
            lemma_check_expression_frame(state, expr);
        },
        StatementView::Return(value) => {
            lemma_check_return_frame(state, value);
        },
        StatementView::Expression(expr) => {
            lemma_check_expression_frame(state, expr);
        },
        StatementView::Block(stmts) => {
            let entered = state.enter_child_scope();
            assert(state.at_child_scope());
            lemma_checker_follows_shape_list(entered, start, stmts, stmts.len());
        },
        StatementView::If(condition, first, second) => {
            lemma_check_condition_frame(state, condition, "if"@);
            let s1 = state.check_condition(condition, "if"@);
            lemma_checker_follows_shape(s1, parent, *first);
            lemma_check_statement_frame(s1, *first);
            let s2 = s1.check_statement(*first);
            match second {
                Some(stmt) => {
                    lemma_checker_follows_shape(s2, parent, *stmt);
                },
                None => {},
            }
        },
        StatementView::While(condition, body) => {
            lemma_check_condition_frame(state, condition, "while"@);
            let s1 = state.check_condition(condition, "while"@).with_loop(true);
            lemma_checker_follows_shape(s1, parent, *body);
        },
        StatementView::For(init, condition, update, body) => {
            let entered = state.enter_child_scope();
            assert(state.at_child_scope());
            let s1 = match init {
                Some(stmt) => entered.check_statement(*stmt),
                None => entered,
            };
            match init {
                Some(stmt) => {
                    lemma_checker_follows_shape(entered, start, *stmt);
                    lemma_check_statement_frame(entered, *stmt);
                },
                None => {},
            }
            let s2 = match condition {
                Some(expr) => s1.check_condition(expr, "for"@),
                None => s1,
            };
            match condition {
                Some(expr) => {
                    lemma_check_condition_frame(s1, expr, "for"@);
                },
                None => {},
            }
            let s3 = s2.check_optional(update);
            match update {
                Some(expr) => {
                    lemma_check_expression_frame(s2, expr);
                },
                None => {},
            }
            assert(s3.scopes == state.scopes && s3.current_scope == Some(start) && s3.next_scope
                == s1.next_scope);
            lemma_checker_follows_shape(s3.with_loop(true), start, *body);
        },
        StatementView::DoWhile(body, condition) => {
            lemma_checker_follows_shape(state.with_loop(true), parent, *body);
            lemma_check_statement_frame(state.with_loop(true), *body);
            let s1 = state.with_loop(true).check_statement(*body).with_loop(state.in_loop);
            lemma_check_condition_frame(s1, condition, "do"@);
        },
        StatementView::Switch(value, body) => {
            lemma_check_expression_frame(state, value);
            lemma_checker_follows_shape(state.check_expression(value).0, parent, *body);
        },
        StatementView::Case(value, body) => {
            lemma_check_expression_frame(state, value);
            lemma_checker_follows_shape(state.check_expression(value).0, parent, *body);
        },
        StatementView::Default(body) => {
            lemma_checker_follows_shape(state, parent, *body);
        },
        StatementView::Continue => {},
        StatementView::Goto(_) => {},
        StatementView::Labeled(_, body) => {
            lemma_checker_follows_shape(state, parent, *body);
        },
        StatementView::Break => {},
    }
}

/// The checker follows the shape of a list of statements.
pub proof fn lemma_checker_follows_shape_list(
    state: TypeCheckerView,
    parent: nat,
    stmts: Seq<StatementView>,
    count: nat,
)
    requires
        state.current_scope == Some(parent),
        shaped_first(state.scopes, state.next_scope, parent, stmts, count),
    ensures
        state.check_statements(stmts, count).next_scope == state.next_scope + scopes_in_first(
            stmts,
            count,
        ),
    decreases stmts, count,
{
    if count == 0 || count > stmts.len() {
    } else {
        lemma_checker_follows_shape_list(state, parent, stmts, (count - 1) as nat);
        lemma_check_statements_frame(state, stmts, (count - 1) as nat);
        let before = state.check_statements(stmts, (count - 1) as nat);
        lemma_checker_follows_shape(before, parent, stmts[count - 1]);
    }
}

// ---------------------------------------------------------------------------
// Functions and translation units
// ---------------------------------------------------------------------------

/// How many scopes the resolver creates for an external declaration: for a
/// function definition, one and those of its body; else none.
pub open spec fn scopes_of(decl: ExternalDeclarationView) -> nat {
    match decl {
        ExternalDeclarationView::Function(def) => 1 + scopes_in_first(def.body, def.body.len()),
        _ => 0,
    }
}

/// How many scopes the resolver creates for the first `count` external
/// declarations of a list.
pub open spec fn scopes_of_first(decls: Seq<ExternalDeclarationView>, count: nat) -> nat
    decreases count,
{
    if count == 0 || count > decls.len() {
        0
    } else {
        scopes_of_first(decls, (count - 1) as nat) + scopes_of(decls[count - 1])
    }
}

/// Whether the scope at index `start` of the arena is the scope of a
/// function definition, and the scopes after it those of its body: it lies
/// at depth 1 and binds every parameter.
pub open spec fn shaped_function(
    scopes: Seq<ScopeNodeView>,
    start: nat,
    def: FunctionDefinitionView,
) -> bool {
    &&& start < scopes.len()
    &&& scopes[start as int].scope_level == 1
    &&& forall|i: int|
        0 <= i < def.parameters.len() ==> scopes[start as int].symbols.contains_key(
            #[trigger] def.parameters[i].name,
        )
    &&& shaped_first(scopes, start + 1, start, def.body, def.body.len())
}

/// Whether the arena holds, from index `start` on, the scopes of an
/// external declaration.
pub open spec fn shaped_declaration(
    scopes: Seq<ScopeNodeView>,
    start: nat,
    decl: ExternalDeclarationView,
) -> bool {
    match decl {
        ExternalDeclarationView::Function(def) => shaped_function(scopes, start, def),
        _ => true,
    }
}

/// Whether the arena holds, from index `start` on, the scopes of the first
/// `count` external declarations of a list.
pub open spec fn shaped_unit(
    scopes: Seq<ScopeNodeView>,
    start: nat,
    decls: Seq<ExternalDeclarationView>,
    count: nat,
) -> bool
    decreases count,
{
    if count == 0 || count > decls.len() {
        true
    } else {
        &&& shaped_unit(scopes, start, decls, (count - 1) as nat)
        &&& shaped_declaration(
            scopes,
            start + scopes_of_first(decls, (count - 1) as nat),
            decls[count - 1],
        )
    }
}

/// Whether every scope of `before` stands in `after` with its parent, its
/// depth and its bindings.
pub open spec fn arena_kept(before: Seq<ScopeNodeView>, after: Seq<ScopeNodeView>) -> bool {
    &&& before.len() <= after.len()
    &&& forall|i: int| 0 <= i < before.len() ==> scope_kept(before[i], #[trigger] after[i])
}

/// An arena that is kept keeps the parents of its scopes.
pub proof fn lemma_arena_kept_keeps_parents(before: Seq<ScopeNodeView>, after: Seq<ScopeNodeView>)
    requires
        arena_kept(before, after),
    ensures
        parents_kept(before, after),
{
    assert forall|i: int| 0 <= i < before.len() implies (#[trigger] after[i]).parent
        == before[i].parent by {
        assert(scope_kept(before[i], after[i]));
    }
}

/// The shape of a function stays when scopes are added to the arena and
/// bindings to its scopes.
pub proof fn lemma_shaped_declaration_stays(
    before: Seq<ScopeNodeView>,
    after: Seq<ScopeNodeView>,
    start: nat,
    decl: ExternalDeclarationView,
)
    requires
        arena_kept(before, after),
        shaped_declaration(before, start, decl),
    ensures
        shaped_declaration(after, start, decl),
{
    match decl {
        ExternalDeclarationView::Function(def) => {
            lemma_arena_kept_keeps_parents(before, after);
            assert(scope_kept(before[start as int], after[start as int]));
            lemma_shaped_first_stays(before, after, start + 1, start, def.body, def.body.len());
            assert forall|i: int| 0 <= i < def.parameters.len() implies after[start as int].symbols.contains_key(
                #[trigger] def.parameters[i].name,
            ) by {
                assert(before[start as int].symbols.contains_key(def.parameters[i].name));
            }
        },
        _ => {},
    }
}

/// The shape of a translation unit stays when scopes are added to the
/// arena and bindings to its scopes.
pub proof fn lemma_shaped_unit_stays(
    before: Seq<ScopeNodeView>,
    after: Seq<ScopeNodeView>,
    start: nat,
    decls: Seq<ExternalDeclarationView>,
    count: nat,
)
    requires
        arena_kept(before, after),
        shaped_unit(before, start, decls, count),
    ensures
        shaped_unit(after, start, decls, count),
    decreases count,
{
    if count == 0 || count > decls.len() {
    } else {
        lemma_shaped_unit_stays(before, after, start, decls, (count - 1) as nat);
        lemma_shaped_declaration_stays(
            before,
            after,
            start + scopes_of_first(decls, (count - 1) as nat),
            decls[count - 1],
        );
    }
}

/// The number of scopes of a list of declarations depends on its first
/// declarations alone, and so does its shape.
pub proof fn lemma_unit_prefix(
    scopes: Seq<ScopeNodeView>,
    start: nat,
    a: Seq<ExternalDeclarationView>,
    b: Seq<ExternalDeclarationView>,
    count: nat,
)
    requires
        count <= a.len(),
        count <= b.len(),
        forall|i: int| 0 <= i < count ==> a[i] == b[i],
    ensures
        scopes_of_first(a, count) == scopes_of_first(b, count),
        shaped_unit(scopes, start, a, count) == shaped_unit(scopes, start, b, count),
    decreases count,
{
    if count > 0 {
        lemma_unit_prefix(scopes, start, a, b, (count - 1) as nat);
    }
}

/// A state that comes after another keeps its arena.
pub proof fn lemma_extends_keeps_arena(before: ScopeAnalyzerView, after: ScopeAnalyzerView)
    requires
        after.extends(before),
    ensures
        arena_kept(before.scopes, after.scopes),
{
}

/// After its parameters are declared, the current scope binds every one of
/// them.
pub proof fn lemma_parameters_are_bound(state: ScopeAnalyzerView, params: Seq<ParameterView>)
    requires
        state.well_formed(),
    ensures
        forall|i: int|
            0 <= i < params.len() ==> state.declare_parameters(
                params,
            ).current_scope().symbols.contains_key(#[trigger] params[i].name),
    decreases params.len(),
{
    if params.len() > 0 {
        let prefix = params.drop_last();
        lemma_parameters_are_bound(state, prefix);
        lemma_declare_parameters(state, prefix);
        let before = state.declare_parameters(prefix);
        let kind = SymbolKindView::Parameter { param_type: params.last().param_type };
        lemma_declare_symbol_extends(before, params.last().name, kind);
        let after = before.declare_symbol(params.last().name, kind);
        assert(after == state.declare_parameters(params));
        assert forall|i: int| 0 <= i < params.len() implies after.current_scope().symbols.contains_key(
            #[trigger] params[i].name,
        ) by {
            if i < params.len() - 1 {
                assert(prefix[i] == params[i]);
                assert(before.current_scope().symbols.contains_key(prefix[i].name));
                assert(scope_kept(
                    before.scopes[before.current as int],
                    after.scopes[before.current as int],
                ));
            }
        }
    }
}

/// The resolver gives every external declaration its shape, where the
/// current scope lies at depth 0.
pub proof fn lemma_resolver_shapes_declaration(
    state: ScopeAnalyzerView,
    decl: ExternalDeclarationView,
)
    requires
        state.well_formed(),
        state.current_scope().scope_level == 0,
    ensures
        state.analyze_external_declaration(decl).scopes.len() == state.scopes.len() + scopes_of(
            decl,
        ),
        shaped_declaration(
            state.analyze_external_declaration(decl).scopes,
            state.scopes.len(),
            decl,
        ),
{
    let n = state.scopes.len();
    match decl {
        ExternalDeclarationView::Variable(v) => {
            lemma_analyze_variable_declaration(state, v);
        },
        ExternalDeclarationView::Function(def) => {
            let kind = SymbolKindView::Function {
                return_type: def.return_type,
                parameters: def.parameters,
                is_defined: true,
            };
            lemma_declare_symbol_extends(state, def.name, kind);
            let declared = state.declare_symbol(def.name, kind);
            assert(scope_kept(
                state.scopes[state.current as int],
                declared.scopes[state.current as int],
            ));
            lemma_enter_scope(declared);
            let entered = declared.enter_scope();
            lemma_declare_parameters(entered, def.parameters);
            lemma_parameters_are_bound(entered, def.parameters);
            let with_params = entered.declare_parameters(def.parameters);
            assert(scope_kept(entered.scopes[n as int], with_params.scopes[n as int]));
            lemma_resolver_shapes_list(with_params, def.body);
            lemma_analyze_statements(with_params, def.body);
            let inner = with_params.analyze_statements(def.body);
            assert(scope_kept(with_params.scopes[n as int], inner.scopes[n as int]));
            assert forall|i: int| 0 <= i < def.parameters.len() implies inner.scopes[n as int].symbols.contains_key(
                #[trigger] def.parameters[i].name,
            ) by {
                assert(with_params.current_scope().symbols.contains_key(def.parameters[i].name));
            }
            lemma_exit_scope(inner);
        },
        ExternalDeclarationView::FunctionDeclaration(d) => {
            lemma_declare_symbol_extends(
                state,
                d.name,
                SymbolKindView::Function {
                    return_type: d.return_type,
                    parameters: d.parameters,
                    is_defined: false,
                },
            );
        },
    }
}

/// The resolver gives every list of external declarations its shape, where
/// the current scope lies at depth 0.
pub proof fn lemma_resolver_shapes_unit(
    state: ScopeAnalyzerView,
    decls: Seq<ExternalDeclarationView>,
)
    requires
        state.well_formed(),
        state.current_scope().scope_level == 0,
    ensures
        state.analyze_external_declarations(decls).scopes.len() == state.scopes.len()
            + scopes_of_first(decls, decls.len()),
        shaped_unit(
            state.analyze_external_declarations(decls).scopes,
            state.scopes.len(),
            decls,
            decls.len(),
        ),
    decreases decls.len(),
{
    if decls.len() > 0 {
        let n = state.scopes.len();
        let count = (decls.len() - 1) as nat;
        let prefix = decls.drop_last();
        lemma_resolver_shapes_unit(state, prefix);
        lemma_analyze_external_declarations(state, prefix);
        let before = state.analyze_external_declarations(prefix);
        assert(scope_kept(
            state.scopes[state.current as int],
            before.scopes[state.current as int],
        ));
        lemma_resolver_shapes_declaration(before, decls.last());
        lemma_analyze_external_declaration(before, decls.last());
        let after = before.analyze_external_declaration(decls.last());
        lemma_extends_keeps_arena(before, after);
        lemma_shaped_unit_stays(before.scopes, after.scopes, n, prefix, count);
        lemma_unit_prefix(after.scopes, n, decls, prefix, count);
    }
}

/// The checker follows the shape of a function definition: it enters the
/// scope of the function, then the scopes of its body, and leaves the
/// current scope as it was.
pub proof fn lemma_checker_follows_declaration(
    state: TypeCheckerView,
    decl: ExternalDeclarationView,
)
    requires
        shaped_declaration(state.scopes, state.next_scope, decl),
    ensures
        state.check_external_declaration(decl).next_scope == state.next_scope + scopes_of(decl),
        state.check_external_declaration(decl).scopes == state.scopes,
        state.check_external_declaration(decl).current_scope == state.current_scope,
{
    match decl {
        ExternalDeclarationView::Variable(v) => {
            lemma_check_variable_declaration_frame(state, v);
        },
        ExternalDeclarationView::Function(def) => {
            let start = state.next_scope;
            let typed = state.with_return_type(
                Some(crate::type_checker::named_type(def.return_type)),
            );
            assert(typed.at_function_scope(def.parameters));
            let entered = typed.enter_function_scope(def.parameters).with_loop(false);
            lemma_checker_follows_shape_list(entered, start, def.body, def.body.len());
            lemma_check_statements_frame(entered, def.body, def.body.len());
        },
        ExternalDeclarationView::FunctionDeclaration(_) => {},
    }
}

/// The checker follows the shape of a list of external declarations.
pub proof fn lemma_checker_follows_unit(
    state: TypeCheckerView,
    decls: Seq<ExternalDeclarationView>,
    count: nat,
)
    requires
        shaped_unit(state.scopes, state.next_scope, decls, count),
    ensures
        state.check_external_declarations(decls, count).next_scope == state.next_scope
            + scopes_of_first(decls, count),
        state.check_external_declarations(decls, count).scopes == state.scopes,
        state.check_external_declarations(decls, count).current_scope == state.current_scope,
    decreases count,
{
    if count == 0 || count > decls.len() {
    } else {
        lemma_checker_follows_unit(state, decls, (count - 1) as nat);
        let before = state.check_external_declarations(decls, (count - 1) as nat);
        lemma_checker_follows_declaration(before, decls[count - 1]);
    }
}

/// The resolver and the checker agree on the structure of scopes: when a
/// new resolver has been over a translation unit and a new checker goes
/// over the same unit with the scopes that the resolver built, the checker
/// enters every scope that the resolver created, in the order of their
/// creation, each for the function, the block or the loop that it was
/// created for; at the end none is left, and the checker is back in the
/// global scope.
pub proof fn lemma_checker_enters_every_scope(
    unit: TranslationUnitView,
    source_lines: Seq<Seq<char>>,
)
    ensures
        ({
            let resolved = ScopeAnalyzerView::fresh().analyze_translation_unit(unit);
            let checked = TypeCheckerView::fresh(resolved.scopes, source_lines).check_translation_unit(
                unit,
            );
            &&& resolved.well_formed()
            &&& resolved.current == 0
            &&& resolved.scopes.len() == 1 + scopes_of_first(
                unit.external_declarations,
                unit.external_declarations.len(),
            )
            &&& checked.next_scope == resolved.scopes.len()
            &&& checked.current_scope == Some(0nat)
            &&& checked.scopes == resolved.scopes
        }),
{
    let fresh = ScopeAnalyzerView::fresh();
    assert(fresh.well_formed());
    let start = fresh.add_builtin_functions_from_includes(unit.preprocessor_list);
    if ScopeAnalyzerView::includes_stdio(unit.preprocessor_list) {
        lemma_declare_symbol_extends(fresh, "printf"@, ScopeAnalyzerView::printf_kind());
        assert(scope_kept(fresh.scopes[0], start.scopes[0]));
    }
    let decls = unit.external_declarations;
    lemma_resolver_shapes_unit(start, decls);
    lemma_analyze_external_declarations(start, decls);
    let resolved = start.analyze_external_declarations(decls);
    let checker = TypeCheckerView::fresh(resolved.scopes, source_lines);
    lemma_checker_follows_unit(checker, decls, decls.len());
}

} // verus!
