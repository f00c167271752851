//! Laws of the grammar: which token sequences are sure to parse.

use crate::lexer_regex::Token;
use crate::parser::ast::{
    ExternalDeclarationView, ParameterView, PreprocessorDirectiveView, ReplacementItemView,
    StatementView,
};
use crate::parser::ast::ExpressionView;
use crate::parser::grammar::{assignment_expression, assignment_operator, assignment_rest, binary_expression, binary_operator, binary_rest, conditional_expression, expression, external_declaration, function, function_head, header_path, is_at_top_level, lexer_error_from, matching_brace, parameter_list_from, postfix_expression, postfix_operation, postfix_rest, prefix_operator, preprocessor_directive, primary_expression, remaining, replacement_list_from, skip_nested, skip_to_top_level, skip_trivia, specific_error, statement, statement_list_from, token_at, translation_unit, translation_unit_from, unary_expression};
use vstd::prelude::*;

verus! {

/// What makes a token sequence fit for parsing: it holds no lexer error,
/// every preprocessor directive in it is well-formed, and no position in it
/// shows one of the patterns that diagnose a malformed declaration.
pub open spec fn well_formed_program(ts: Seq<Token>) -> bool {
    &&& forall|i: int| 0 <= i < ts.len() ==> !(#[trigger] ts[i] is Error)
    &&& forall|p: nat|
        p < ts.len() && ts[p as int] is Preprocessor ==> (#[trigger] preprocessor_directive(
            ts,
            p,
        )).outcome is Ok
    &&& forall|p: nat| p < ts.len() ==> #[trigger] specific_error(ts, p) is None
}

/// A token sequence without lexer errors has no first lexer error.
pub proof fn lemma_no_lexer_error(ts: Seq<Token>, pos: nat)
    requires
        forall|i: int| 0 <= i < ts.len() ==> !(#[trigger] ts[i] is Error),
    ensures
        lexer_error_from(ts, pos) is None,
    decreases remaining(ts, pos),
{
    if pos < ts.len() {
        assert(!(ts[pos as int] is Error));
        lemma_no_lexer_error(ts, pos + 1);
    }
}

/// The path of a header ends where it began or later.
pub proof fn lemma_header_path_advances(ts: Seq<Token>, pos: nat, path: Seq<char>)
    ensures
        header_path(ts, pos, path).1 >= pos,
    decreases remaining(ts, pos),
{
    if pos >= ts.len() || crate::parser::grammar::is_at(ts, pos, Token::GreaterOp) {
    } else {
        lemma_header_path_advances(
            ts,
            pos + 1,
            match ts[pos as int] {
                Token::Identifier(name) => path + name@,
                Token::Dot => path + "."@,
                _ => path,
            },
        );
    }
}

/// A replacement list ends where it began or later.
pub proof fn lemma_replacement_list_advances(
    ts: Seq<Token>,
    pos: nat,
    items: Seq<ReplacementItemView>,
)
    ensures
        replacement_list_from(ts, pos, items).1 >= pos,
    decreases remaining(ts, pos),
{
    if pos < ts.len() {
        match crate::parser::grammar::replacement_item(ts[pos as int]) {
            Some(item) => {
                lemma_replacement_list_advances(ts, pos + 1, items.push(item));
            },
            None => {},
        }
    }
}

/// A directive consumes at least the token that names it.
pub proof fn lemma_directive_advances(ts: Seq<Token>, pos: nat)
    requires
        pos < ts.len(),
    ensures
        preprocessor_directive(ts, pos).next > pos,
{
    lemma_header_path_advances(ts, pos + 2, Seq::empty());
    match crate::parser::grammar::identifier(ts, pos + 1).value {
        Some(_) => {
            lemma_replacement_list_advances(
                ts,
                crate::parser::grammar::identifier(ts, pos + 1).next,
                Seq::empty(),
            );
        },
        None => {},
    }
}

/// A list of statements ends where it began or later.
pub proof fn lemma_statement_list_advances(ts: Seq<Token>, pos: nat, stmts: Seq<StatementView>)
    ensures
        statement_list_from(ts, pos, stmts).1 >= pos,
    decreases remaining(ts, pos),
{
    if pos >= ts.len() || crate::parser::grammar::is_at(ts, pos, Token::BraceR) {
    } else {
        let start = skip_trivia(ts, pos);
        if start >= ts.len() || crate::parser::grammar::is_at(ts, start, Token::BraceR) {
        } else {
            let stmt = crate::parser::grammar::statement(ts, start).after(start);
            match stmt.value {
                Some(s) => {
                    if stmt.next > start {
                        lemma_statement_list_advances(ts, stmt.next, stmts.push(s));
                    }
                },
                None => {
                    lemma_statement_list_advances(
                        ts,
                        crate::parser::grammar::step(ts, stmt.next),
                        stmts,
                    );
                },
            }
        }
    }
}

/// A list of parameters ends where it began or later.
pub proof fn lemma_parameter_list_advances(ts: Seq<Token>, pos: nat, params: Seq<ParameterView>)
    ensures
        parameter_list_from(ts, pos, params).1 >= pos,
    decreases remaining(ts, pos),
{
    if pos >= ts.len() || crate::parser::grammar::is_at(ts, pos, Token::ParenR) {
    } else {
        let start = skip_trivia(ts, pos);
        if start >= ts.len() || crate::parser::grammar::is_at(ts, start, Token::ParenR) {
        } else {
            let param = crate::parser::grammar::parameter(ts, start);
            match param.value {
                Some(p) => {
                    if crate::parser::grammar::is_at(ts, param.next, Token::Comma) {
                        lemma_parameter_list_advances(ts, param.next + 1, params.push(p));
                    }
                },
                None => {},
            }
        }
    }
}

/// The brace that closes a block lies after the position from which it is
/// sought.
pub proof fn lemma_matching_brace_advances(ts: Seq<Token>, pos: nat, depth: nat)
    ensures
        matching_brace(ts, pos, depth) matches Some(end) ==> end > pos,
    decreases remaining(ts, pos),
{
    if pos < ts.len() {
        match ts[pos as int] {
            Token::BraceL => {
                lemma_matching_brace_advances(ts, pos + 1, depth + 1);
            },
            Token::BraceR => {
                if depth > 1 {
                    lemma_matching_brace_advances(ts, pos + 1, (depth - 1) as nat);
                }
            },
            _ => {
                lemma_matching_brace_advances(ts, pos + 1, depth);
            },
        }
    }
}

/// The head of a function, where there is one, ends after its first token.
pub proof fn lemma_function_head_advances(ts: Seq<Token>, pos: nat)
    ensures
        function_head(ts, pos).value is Some ==> function_head(ts, pos).next > pos,
{
    let kind = crate::parser::grammar::kind_name(ts, pos);
    let name = crate::parser::grammar::identifier(ts, skip_trivia(ts, kind.next));
    lemma_parameter_list_advances(ts, name.next + 1, Seq::empty());
}

/// An external declaration, where there is one, consumes at least one
/// token.
pub proof fn lemma_declaration_advances(ts: Seq<Token>, pos: nat)
    ensures
        external_declaration(ts, pos).value is Some ==> external_declaration(ts, pos).next > pos,
{
    let start = skip_trivia(ts, pos);
    let after_static = crate::parser::grammar::skip_optional(ts, start, Token::Static);
    let after_const = crate::parser::grammar::skip_optional(ts, after_static, Token::Const);
    lemma_function_head_advances(ts, after_const);
    let head = function_head(ts, after_const);
    lemma_statement_list_advances(ts, head.next + 1, Seq::empty());
    let body = crate::parser::grammar::statement_list(ts, head.next + 1);
    lemma_matching_brace_advances(ts, body.1, 1);
}

/// Skipping to the end of open blocks ends where it began or later, and
/// later where a block is open and a token is left.
pub proof fn lemma_skip_nested_advances(ts: Seq<Token>, pos: nat, depth: nat)
    ensures
        skip_nested(ts, pos, depth) >= pos,
        pos < ts.len() && depth > 0 ==> skip_nested(ts, pos, depth) > pos,
    decreases remaining(ts, pos),
{
    if pos >= ts.len() || depth == 0 {
    } else {
        lemma_skip_nested_advances(
            ts,
            pos + 1,
            match ts[pos as int] {
                Token::BraceL => depth + 1,
                Token::BraceR => (depth - 1) as nat,
                _ => depth,
            },
        );
    }
}

/// Every well-formed program parses, from any position, whatever was
/// parsed before.
pub proof fn lemma_well_formed_program_parses_from(
    ts: Seq<Token>,
    pos: nat,
    directives: Seq<PreprocessorDirectiveView>,
    declarations: Seq<ExternalDeclarationView>,
)
    requires
        well_formed_program(ts),
    ensures
        translation_unit_from(ts, pos, directives, declarations) is Ok,
    decreases remaining(ts, pos),
{
    reveal_with_fuel(translation_unit_from, 1);
    let start = skip_trivia(ts, pos);
    if pos >= ts.len() || start >= ts.len() {
    } else if ts[start as int] is Preprocessor {
        let directive = preprocessor_directive(ts, start);
        lemma_directive_advances(ts, start);
        match directive.outcome {
            Ok(d) => {
                lemma_well_formed_program_parses_from(
                    ts,
                    directive.next,
                    directives.push(d),
                    declarations,
                );
            },
            Err(_) => {},
        }
    } else if is_at_top_level(ts, start) {
        let declaration = external_declaration(ts, start);
        lemma_declaration_advances(ts, start);
        match declaration.value {
            Some(d) => {
                lemma_well_formed_program_parses_from(
                    ts,
                    declaration.next,
                    directives,
                    declarations.push(d),
                );
            },
            None => {
                assert(specific_error(ts, start) is None);
                lemma_well_formed_program_parses_from(ts, start + 1, directives, declarations);
            },
        }
    } else {
        lemma_skip_nested_advances(ts, start, crate::parser::grammar::brace_depth(ts, start));
        lemma_well_formed_program_parses_from(
            ts,
            skip_to_top_level(ts, start),
            directives,
            declarations,
        );
    }
}

/// Every well-formed program parses: a token sequence without lexer
/// errors, in which every directive is well-formed and no position shows a
/// pattern of a malformed declaration, yields a translation unit.
pub proof fn lemma_well_formed_program_parses(ts: Seq<Token>)
    requires
        well_formed_program(ts),
    ensures
        translation_unit(ts, 0) is Ok,
{
    lemma_no_lexer_error(ts, 0);
    lemma_well_formed_program_parses_from(ts, 0, Seq::empty(), Seq::empty());
}

/// A program without directives and without `=` is well-formed as soon as
/// it holds no lexer error: whatever else it holds, it parses.
pub proof fn lemma_plain_program_parses(ts: Seq<Token>)
    requires
        forall|i: int|
            0 <= i < ts.len() ==> !(#[trigger] ts[i] is Error) && !(ts[i] is Preprocessor) && !(
            ts[i] is AssignOp),
    ensures
        well_formed_program(ts),
        translation_unit(ts, 0) is Ok,
{
    assert forall|p: nat| p < ts.len() implies #[trigger] specific_error(ts, p) is None by {
        if p + 1 < ts.len() {
            assert(!(ts[(p + 1) as int] is AssignOp));
        }
        if p + 2 < ts.len() {
            assert(!(ts[(p + 2) as int] is AssignOp));
        }
    }
    assert forall|p: nat| p < ts.len() && ts[p as int] is Preprocessor implies (
    #[trigger] preprocessor_directive(ts, p)).outcome is Ok by {
        assert(!(ts[p as int] is Preprocessor));
    }
    lemma_well_formed_program_parses(ts);
}

// ---------------------------------------------------------------------------
// Positions never move backwards
// ---------------------------------------------------------------------------

/// An expression ends where it began or later.
pub proof fn lemma_expression_advances(ts: Seq<Token>, pos: nat)
    ensures
        expression(ts, pos).next >= pos,
        expression(ts, pos).after(pos) == expression(ts, pos),
    decreases remaining(ts, pos), 39nat,
{
    lemma_assignment_advances(ts, pos);
}

/// An assignment expression ends where it began or later.
pub proof fn lemma_assignment_advances(ts: Seq<Token>, pos: nat)
    ensures
        assignment_expression(ts, pos).next >= pos,
    decreases remaining(ts, pos), 38nat,
{
    let left = conditional_expression(ts, pos).after(pos);
    match left.value {
        Some(target) => {
            lemma_assignment_rest_advances(ts, left.next, target);
        },
        None => {},
    }
}

/// What follows the target of an assignment ends where it began or later.
pub proof fn lemma_assignment_rest_advances(ts: Seq<Token>, pos: nat, left: ExpressionView)
    ensures
        assignment_rest(ts, pos, left).next >= pos,
    decreases remaining(ts, pos), 37nat,
{
    match token_at(ts, pos) {
        Some(token) => match assignment_operator(token) {
            Some(op) => {
                let right = assignment_expression(ts, pos + 1).after(pos + 1);
                match right.value {
                    Some(source) => {
                        lemma_assignment_rest_advances(
                            ts,
                            right.next,
                            ExpressionView::Assignment(Box::new(left), op, Box::new(source)),
                        );
                    },
                    None => {},
                }
            },
            None => {},
        },
        None => {},
    }
}

/// A conditional expression ends where it began or later.
pub proof fn lemma_conditional_advances(ts: Seq<Token>, pos: nat)
    ensures
        conditional_expression(ts, pos).next >= pos,
{
}

/// A binary expression ends where it began or later.
pub proof fn lemma_binary_advances(ts: Seq<Token>, pos: nat, level: nat)
    ensures
        binary_expression(ts, pos, level).next >= pos,
    decreases remaining(ts, pos), (if level < 10 {
        25 - 2 * level
    } else {
        5
    }) as nat,
{
    if level >= 10 {
        lemma_unary_advances(ts, pos);
    } else {
        let left = binary_expression(ts, pos, level + 1).after(pos);
        match left.value {
            Some(operand) => {
                lemma_binary_rest_advances(ts, left.next, level, operand);
            },
            None => {},
        }
    }
}

/// What follows the left operand of a binary operator ends where it began
/// or later.
pub proof fn lemma_binary_rest_advances(ts: Seq<Token>, pos: nat, level: nat, left: ExpressionView)
    ensures
        binary_rest(ts, pos, level, left).next >= pos,
    decreases remaining(ts, pos), (if level < 10 {
        24 - 2 * level
    } else {
        0
    }) as nat,
{
    if level < 10 {
        match token_at(ts, pos) {
            Some(token) => match binary_operator(level, token) {
                Some(op) => {
                    let right = binary_expression(ts, pos + 1, level + 1).after(pos + 1);
                    match right.value {
                        Some(operand) => {
                            lemma_binary_rest_advances(
                                ts,
                                right.next,
                                level,
                                ExpressionView::BinaryOp(Box::new(left), op, Box::new(operand)),
                            );
                        },
                        None => {},
                    }
                },
                None => {},
            },
            None => {},
        }
    }
}

/// A unary expression ends where it began or later.
pub proof fn lemma_unary_advances(ts: Seq<Token>, pos: nat)
    ensures
        unary_expression(ts, pos).next >= pos,
    decreases remaining(ts, pos), 4nat,
{
    match token_at(ts, pos) {
        Some(token) => match prefix_operator(token) {
            Some(op) => {
                let operand = unary_expression(ts, pos + 1).after(pos + 1);
                match operand.value {
                    Some(_) => {},
                    None => {
                        lemma_postfix_advances(ts, operand.next);
                    },
                }
            },
            None => {
                lemma_postfix_advances(ts, pos);
            },
        },
        None => {
            lemma_postfix_advances(ts, pos);
        },
    }
}

/// A postfix expression ends where it began or later.
pub proof fn lemma_postfix_advances(ts: Seq<Token>, pos: nat)
    ensures
        postfix_expression(ts, pos).next >= pos,
    decreases remaining(ts, pos), 3nat,
{
    let primary = primary_expression(ts, pos).after(pos);
    match primary.value {
        Some(e) => {
            lemma_postfix_rest_advances(ts, primary.next, e);
        },
        None => {},
    }
}

/// What follows the operand of postfix operations ends where it began or
/// later.
pub proof fn lemma_postfix_rest_advances(ts: Seq<Token>, pos: nat, expr: ExpressionView)
    ensures
        postfix_rest(ts, pos, expr).next >= pos,
    decreases remaining(ts, pos), 2nat,
{
    let operation = postfix_operation(ts, pos, expr);
    if operation.applied && pos < operation.next && pos < ts.len() {
        lemma_postfix_rest_advances(ts, operation.next, operation.expr);
    }
}

/// Every kind of statement ends where it began or later.
pub proof fn lemma_statement_kinds_advance(ts: Seq<Token>, pos: nat)
    ensures
        crate::parser::grammar::return_statement(ts, pos).next >= pos,
        crate::parser::grammar::if_statement(ts, pos).next >= pos,
        crate::parser::grammar::while_statement(ts, pos).next >= pos,
        crate::parser::grammar::for_statement(ts, pos).next >= pos,
        crate::parser::grammar::break_statement(ts, pos).next >= pos,
        crate::parser::grammar::block_statement(ts, pos).next >= pos,
        crate::parser::grammar::declaration_statement(ts, pos).next >= pos,
        crate::parser::grammar::expression_statement(ts, pos).next >= pos,
        crate::parser::grammar::do_statement(ts, pos).next >= pos,
        crate::parser::grammar::switch_statement(ts, pos).next >= pos,
        crate::parser::grammar::case_statement(ts, pos).next >= pos,
        crate::parser::grammar::default_statement(ts, pos).next >= pos,
        crate::parser::grammar::continue_statement(ts, pos).next >= pos,
        crate::parser::grammar::goto_statement(ts, pos).next >= pos,
        crate::parser::grammar::labeled_statement(ts, pos).next >= pos,
{
    lemma_expression_advances(ts, pos);
    lemma_statement_list_advances(ts, pos + 1, Seq::empty());
    assert(crate::parser::grammar::for_statement(ts, pos).next >= pos);
    assert(crate::parser::grammar::if_statement(ts, pos).next >= pos);
    assert(crate::parser::grammar::declaration_statement(ts, pos).next >= pos);
}

/// A statement ends where it began or later.
pub proof fn lemma_statement_advances(ts: Seq<Token>, pos: nat)
    ensures
        statement(ts, pos).next >= pos,
        statement(ts, pos).after(pos) == statement(ts, pos),
{
    let start = skip_trivia(ts, pos);
    lemma_statement_kinds_advance(ts, start);
}

} // verus!
