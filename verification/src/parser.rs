//! The parser: from a token sequence to a translation unit.
//!
//! A recursive-descent parser with one cursor and bounded lookahead. What
//! each step computes is defined in [`grammar`]; every function here is
//! proved to compute the function of the grammar that it is named after.

pub mod ast;
pub mod grammar;
pub mod laws;

use crate::lexer_regex::Token;
use crate::parser::ast::{
    lemma_block_view, view_all, view_opt, AssignmentOperator, BinaryOperator, Constant,
    Declarator, Expression, ExpressionView, ExternalDeclaration, ExternalDeclarationView,
    FunctionDeclaration, FunctionDefinition, Initializer, InitializerKind, Parameter,
    ParameterView, ParseError, ParseErrorView, PostfixOperator, PreprocessorDirective,
    PreprocessorDirectiveView, ReplacementItem, ReplacementItemView, Statement, StatementView,
    StorageClass, TranslationUnit, TranslationUnitView, TypeQualifier, TypeSpecifier,
    UnaryOperator, VariableDeclaration,
};
use crate::parser::grammar::{brace_depth, is_at, remaining, skip_trivia, step, token_at, trivia_run, Directive, Parsed};
use crate::text::str_eq;
use vstd::prelude::*;
use vstd::string::*;

verus! {

/// The parser: a token sequence and a cursor into it.
pub struct Parser {
    tokens: Vec<Token>,
    pos: usize,
}

/// What holds after a parsing step that went from the state `before` to the
/// state `after` and yielded `value`: the tokens are the same, the cursor
/// has not moved backwards, the step did what `expected` says, and a step
/// that yielded something has consumed something.
spec fn produced<T>(
    before: Parser,
    after: Parser,
    value: Option<T>,
    expected: Parsed<T>,
) -> bool {
    &&& after.tokens == before.tokens
    &&& before.pos <= after.pos <= after.tokens@.len()
    &&& expected == Parsed { value, next: after.pos as nat }
    &&& value is Some ==> before.pos < after.pos
}

/// The view of the outcome of parsing a directive.
spec fn view_directive(r: Result<PreprocessorDirective, ParseError>) -> Result<
    PreprocessorDirectiveView,
    ParseErrorView,
> {
    match r {
        Ok(d) => Ok(d@),
        Err(e) => Err(e@),
    }
}

/// The view of the outcome of parsing a translation unit.
pub open spec fn view_outcome(r: Result<TranslationUnit, ParseError>) -> Result<
    TranslationUnitView,
    ParseErrorView,
> {
    match r {
        Ok(unit) => Ok(unit@),
        Err(e) => Err(e@),
    }
}

/// What holds after parsing a directive went from the state `before` to the
/// state `after` and gave `r`.
spec fn directed(
    before: Parser,
    after: Parser,
    r: Result<PreprocessorDirective, ParseError>,
    expected: Directive,
) -> bool {
    &&& after.tokens == before.tokens
    &&& before.pos <= after.pos <= after.tokens@.len()
    &&& expected == Directive { outcome: view_directive(r), next: after.pos as nat }
}

/// Comments before a declaration belong to no declaration: the translation
/// unit from a position is the translation unit from the first position at
/// or after it that holds no comment.
pub proof fn lemma_unit_skips_trivia(
    ts: Seq<Token>,
    pos: nat,
    directives: Seq<PreprocessorDirectiveView>,
    declarations: Seq<ExternalDeclarationView>,
)
    ensures
        grammar::translation_unit_from(ts, pos, directives, declarations)
            == grammar::translation_unit_from(
            ts,
            skip_trivia(ts, pos),
            directives,
            declarations,
        ),
        trivia_run(ts, skip_trivia(ts, pos)) == 0,
{
    reveal_with_fuel(grammar::translation_unit_from, 1);
    lemma_trivia_skipped(ts, pos);
}

/// At the end of the tokens the translation unit is what was parsed before.
pub proof fn lemma_unit_at_end(
    ts: Seq<Token>,
    pos: nat,
    directives: Seq<PreprocessorDirectiveView>,
    declarations: Seq<ExternalDeclarationView>,
)
    requires
        pos >= ts.len(),
    ensures
        grammar::translation_unit_from(ts, pos, directives, declarations) == Ok::<
            TranslationUnitView,
            ParseErrorView,
        >(
            TranslationUnitView {
                preprocessor_list: directives,
                external_declarations: declarations,
            },
        ),
{
    reveal_with_fuel(grammar::translation_unit_from, 1);
}

/// After comments are skipped, no comment stands at the position reached.
pub proof fn lemma_trivia_skipped(ts: Seq<Token>, pos: nat)
    ensures
        trivia_run(ts, skip_trivia(ts, pos)) == 0,
    decreases remaining(ts, pos),
{
    if pos < ts.len() && ts[pos as int].is_trivia() {
        lemma_trivia_skipped(ts, pos + 1);
    }
}

/// The token that a reference to a token, if any, refers to.
spec fn referred(token: Option<&Token>) -> Option<Token> {
    match token {
        Some(t) => Some(*t),
        None => None,
    }
}

/// What holds after one postfix operation on `operand` went from the state
/// `before` to the state `after` and gave `expr`: it did what the grammar
/// says, and a completed operation has consumed something.
spec fn after_postfix(
    before: Parser,
    after: Parser,
    operand: ExpressionView,
    expr: ExpressionView,
    applied: bool,
) -> bool {
    &&& after.tokens == before.tokens
    &&& before.pos <= after.pos <= after.tokens@.len()
    &&& applied ==> before.pos < after.pos
    &&& grammar::postfix_operation(before.tokens@, before.pos as nat, operand)
        == (grammar::PostfixStep { expr, next: after.pos as nat, applied })
}

/// The view of the head of a function: the name of its return type, its
/// name and its parameters.
spec fn view_head(head: Option<(String, String, Vec<Parameter>)>) -> Option<
    (Seq<char>, Seq<char>, Seq<ParameterView>),
> {
    match head {
        Some(h) => Some((h.0@, h.1@, view_all(h.2@))),
        None => None,
    }
}

impl Parser {
    #[verifier::type_invariant]
    spec fn inv(self) -> bool {
        self.pos <= self.tokens@.len()
    }

    /// The tokens that the parser was made for.
    pub closed spec fn tokens(&self) -> Seq<Token> {
        self.tokens@
    }

    /// The cursor: the index of the next token to read.
    pub closed spec fn position(&self) -> nat {
        self.pos as nat
    }

    /// A parser at the start of `tokens`.
    pub fn new(tokens: Vec<Token>) -> (r: Self)
        ensures
            r.tokens() == tokens@,
            r.position() == 0,
    {
        Parser { tokens, pos: 0 }
    }

    // -----------------------------------------------------------------------
    // The cursor
    // -----------------------------------------------------------------------

    /// Skips comments and lexer errors.
    fn skip_whitespace(&mut self)
        ensures
            final(self).tokens == old(self).tokens,
            final(self).pos == skip_trivia(old(self).tokens@, old(self).pos as nat),
            old(self).pos <= final(self).pos <= final(self).tokens@.len(),
            trivia_run(final(self).tokens@, final(self).pos as nat) == 0,
    {
        proof {
            use_type_invariant(&*self);
        }
        while self.pos < self.tokens.len()
            invariant
                self.tokens == old(self).tokens,
                old(self).pos <= self.pos <= self.tokens@.len(),
                skip_trivia(self.tokens@, self.pos as nat) == skip_trivia(
                    old(self).tokens@,
                    old(self).pos as nat,
                ),
            decreases self.tokens@.len() - self.pos,
        {
            match &self.tokens[self.pos] {
                Token::Comment(_) | Token::BlockComment(_) | Token::Error(_) => {
                    self.pos += 1;
                },
                _ => {
                    return ;
                },
            }
        }
    }

    /// The token under the cursor.
    fn peek(&self) -> (r: Option<&Token>)
        ensures
            self.pos <= self.tokens@.len(),
            r is Some <==> self.pos < self.tokens@.len(),
            r matches Some(t) ==> *t == self.tokens@[self.pos as int],
    {
        proof {
            use_type_invariant(self);
        }
        if self.pos < self.tokens.len() {
            Some(&self.tokens[self.pos])
        } else {
            None
        }
    }

    /// The token `offset` places after the cursor.
    fn peek_at(&self, offset: usize) -> (r: Option<&Token>)
        ensures
            r is Some <==> self.pos + offset < self.tokens@.len(),
            r matches Some(t) ==> *t == self.tokens@[self.pos + offset],
    {
        proof {
            use_type_invariant(self);
        }
        if offset < self.tokens.len() - self.pos {
            Some(&self.tokens[self.pos + offset])
        } else {
            None
        }
    }

    /// Whether the token under the cursor is `expected`.
    fn at(&self, expected: &Token) -> (r: bool)
        ensures
            self.pos <= self.tokens@.len(),
            r == is_at(self.tokens@, self.pos as nat, *expected),
    {
        proof {
            use_type_invariant(self);
        }
        self.pos < self.tokens.len() && self.tokens[self.pos] == *expected
    }

    /// Moves past the token under the cursor if it is `expected`.
    fn consume(&mut self, expected: &Token) -> (r: bool)
        ensures
            final(self).tokens == old(self).tokens,
            final(self).pos <= final(self).tokens@.len(),
            r == is_at(old(self).tokens@, old(self).pos as nat, *expected),
            final(self).pos == (if r {
                old(self).pos + 1
            } else {
                old(self).pos as int
            }),
    {
        if self.at(expected) {
            assert(self.pos < self.tokens.len());
            self.pos += 1;
            true
        } else {
            false
        }
    }

    /// Moves past the token under the cursor and hands it out.
    fn next(&mut self) -> (r: Option<Token>)
        ensures
            final(self).tokens == old(self).tokens,
            final(self).pos <= final(self).tokens@.len(),
            r == token_at(old(self).tokens@, old(self).pos as nat),
            final(self).pos == step(old(self).tokens@, old(self).pos as nat),
    {
        proof {
            use_type_invariant(&*self);
        }
        if self.pos < self.tokens.len() {
            let token = self.tokens[self.pos].clone();
            self.pos += 1;
            Some(token)
        } else {
            None
        }
    }

    // -----------------------------------------------------------------------
    // Expressions
    // -----------------------------------------------------------------------

    /// Parses an expression.
    fn parse_expression(&mut self) -> (r: Option<Expression>)
        ensures
            produced(
                *old(self),
                *final(self),
                view_opt(r),
                grammar::expression(old(self).tokens@, old(self).pos as nat),
            ),
        decreases remaining(old(self).tokens@, old(self).pos as nat), 320nat,
    {
        self.parse_assignment_expression()
    }

    /// The assignment operator that a token denotes.
    fn assignment_operator(token: &Token) -> (r: Option<AssignmentOperator>)
        ensures
            r == grammar::assignment_operator(*token),
    {
        match token {
            Token::AssignOp => Some(AssignmentOperator::Assign),
            Token::PlusAssign => Some(AssignmentOperator::PlusAssign),
            Token::MinusAssign => Some(AssignmentOperator::MinusAssign),
            Token::MultAssign => Some(AssignmentOperator::MultAssign),
            Token::DivAssign => Some(AssignmentOperator::DivAssign),
            Token::ModAssign => Some(AssignmentOperator::ModAssign),
            Token::LShiftAssign => Some(AssignmentOperator::LShiftAssign),
            Token::RShiftAssign => Some(AssignmentOperator::RShiftAssign),
            Token::AndAssign => Some(AssignmentOperator::AndAssign),
            Token::XorAssign => Some(AssignmentOperator::XorAssign),
            Token::OrAssign => Some(AssignmentOperator::OrAssign),
            _ => None,
        }
    }

    /// Parses an assignment expression; assignment groups to the right.
    fn parse_assignment_expression(&mut self) -> (r: Option<Expression>)
        ensures
            produced(
                *old(self),
                *final(self),
                view_opt(r),
                grammar::assignment_expression(old(self).tokens@, old(self).pos as nat),
            ),
        decreases remaining(old(self).tokens@, old(self).pos as nat), 310nat,
    {
        let ghost ts = self.tokens@;
        let mut left = match self.parse_conditional_expression() {
            Some(e) => e,
            None => {
                return None;
            },
        };
        loop
            invariant
                self.tokens == old(self).tokens,
                ts == self.tokens@,
                old(self).pos < self.pos <= self.tokens@.len(),
                grammar::assignment_expression(ts, old(self).pos as nat)
                    == grammar::assignment_rest(ts, self.pos as nat, left@),
            decreases remaining(ts, self.pos as nat),
        {
            let op = match self.peek() {
                Some(token) => Self::assignment_operator(token),
                None => None,
            };
            match op {
                Some(op) => {
                    assert(self.pos < self.tokens.len());
                    self.pos += 1;
                    match self.parse_assignment_expression() {
                        Some(right) => {
                            left = Expression::Assignment(Box::new(left), op, Box::new(right));
                        },
                        None => {
                            return None;
                        },
                    }
                },
                None => {
                    return Some(left);
                },
            }
        }
    }

    /// Parses a conditional expression; `?:` groups to the right.
    fn parse_conditional_expression(&mut self) -> (r: Option<Expression>)
        ensures
            produced(
                *old(self),
                *final(self),
                view_opt(r),
                grammar::conditional_expression(old(self).tokens@, old(self).pos as nat),
            ),
        decreases remaining(old(self).tokens@, old(self).pos as nat), 300nat,
    {
        let condition = match self.parse_logical_or_expression() {
            Some(e) => e,
            None => {
                return None;
            },
        };
        if self.consume(&Token::Question) {
            let true_expr = match self.parse_expression() {
                Some(e) => e,
                None => {
                    return None;
                },
            };
            if self.consume(&Token::Colon) {
                let false_expr = match self.parse_conditional_expression() {
                    Some(e) => e,
                    None => {
                        return None;
                    },
                };
                Some(
                    Expression::Conditional(
                        Box::new(condition),
                        Box::new(true_expr),
                        Box::new(false_expr),
                    ),
                )
            } else {
                None
            }
        } else {
            Some(condition)
        }
    }

    /// The binary operator that a token denotes at a precedence level.
    fn binary_operator(level: u8, token: &Token) -> (r: Option<BinaryOperator>)
        ensures
            r == grammar::binary_operator(level as nat, *token),
    {
        match (level, token) {
            (0, Token::OrOp) => Some(BinaryOperator::Or),
            (1, Token::AndOp) => Some(BinaryOperator::And),
            (2, Token::BitOrOp) => Some(BinaryOperator::BitOr),
            (3, Token::Xor) => Some(BinaryOperator::Xor),
            (4, Token::BitAndOp) => Some(BinaryOperator::BitAnd),
            (5, Token::EqualsOp) => Some(BinaryOperator::Equals),
            (5, Token::NotEqualsOp) => Some(BinaryOperator::NotEquals),
            (6, Token::LessOp) => Some(BinaryOperator::Less),
            (6, Token::GreaterOp) => Some(BinaryOperator::Greater),
            (6, Token::LessEqOp) => Some(BinaryOperator::LessEq),
            (6, Token::GreaterEqOp) => Some(BinaryOperator::GreaterEq),
            (7, Token::LShift) => Some(BinaryOperator::LShift),
            (7, Token::RShift) => Some(BinaryOperator::RShift),
            (8, Token::Plus) => Some(BinaryOperator::Plus),
            (8, Token::Minus) => Some(BinaryOperator::Minus),
            (9, Token::Mult) => Some(BinaryOperator::Mult),
            (9, Token::Div) => Some(BinaryOperator::Div),
            (9, Token::Mod) => Some(BinaryOperator::Mod),
            _ => None,
        }
    }

    /// Parses a binary expression at a precedence level: operands of the
    /// next tighter level, joined from left to right by the operators of
    /// this level.
    fn parse_binary_level(&mut self, level: u8) -> (r: Option<Expression>)
        requires
            level < 10,
        ensures
            produced(
                *old(self),
                *final(self),
                view_opt(r),
                grammar::binary_expression(old(self).tokens@, old(self).pos as nat, level as nat),
            ),
        decreases remaining(old(self).tokens@, old(self).pos as nat), (200 - 10 * level) as nat,
    {
        let ghost ts = self.tokens@;
        let mut left = match self.parse_tighter(level) {
            Some(e) => e,
            None => {
                return None;
            },
        };
        loop
            invariant
                level < 10,
                self.tokens == old(self).tokens,
                ts == self.tokens@,
                old(self).pos < self.pos <= self.tokens@.len(),
                grammar::binary_expression(ts, old(self).pos as nat, level as nat)
                    == grammar::binary_rest(ts, self.pos as nat, level as nat, left@),
            decreases remaining(ts, self.pos as nat),
        {
            let op = match self.peek() {
                Some(token) => Self::binary_operator(level, token),
                None => None,
            };
            match op {
                Some(op) => {
                    assert(self.pos < self.tokens.len());
                    self.pos += 1;
                    match self.parse_tighter(level) {
                        Some(right) => {
                            left = Expression::BinaryOp(Box::new(left), op, Box::new(right));
                        },
                        None => {
                            return None;
                        },
                    }
                },
                None => {
                    return Some(left);
                },
            }
        }
    }

    /// Parses an operand of the operators of a precedence level: an
    /// expression of the next tighter level.
    fn parse_tighter(&mut self, level: u8) -> (r: Option<Expression>)
        requires
            level < 10,
        ensures
            produced(
                *old(self),
                *final(self),
                view_opt(r),
                grammar::binary_expression(
                    old(self).tokens@,
                    old(self).pos as nat,
                    (level + 1) as nat,
                ),
            ),
        decreases remaining(old(self).tokens@, old(self).pos as nat), (197 - 10 * level) as nat,
    {
        match level {
            0 => self.parse_logical_and_expression(),
            1 => self.parse_bitwise_or_expression(),
            2 => self.parse_bitwise_xor_expression(),
            3 => self.parse_bitwise_and_expression(),
            4 => self.parse_equality_expression(),
            5 => self.parse_relational_expression(),
            6 => self.parse_shift_expression(),
            7 => self.parse_additive_expression(),
            8 => self.parse_multiplicative_expression(),
            _ => self.parse_unary_expression(),
        }
    }

    /// Parses `a || b`: level 0.
    fn parse_logical_or_expression(&mut self) -> (r: Option<Expression>)
        ensures
            produced(
                *old(self),
                *final(self),
                view_opt(r),
                grammar::binary_expression(old(self).tokens@, old(self).pos as nat, 0),
            ),
        decreases remaining(old(self).tokens@, old(self).pos as nat), 205nat,
    {
        self.parse_binary_level(0)
    }

    /// Parses `a && b`: level 1.
    fn parse_logical_and_expression(&mut self) -> (r: Option<Expression>)
        ensures
            produced(
                *old(self),
                *final(self),
                view_opt(r),
                grammar::binary_expression(old(self).tokens@, old(self).pos as nat, 1),
            ),
        decreases remaining(old(self).tokens@, old(self).pos as nat), 195nat,
    {
        self.parse_binary_level(1)
    }

    /// Parses `a | b`: level 2.
    fn parse_bitwise_or_expression(&mut self) -> (r: Option<Expression>)
        ensures
            produced(
                *old(self),
                *final(self),
                view_opt(r),
                grammar::binary_expression(old(self).tokens@, old(self).pos as nat, 2),
            ),
        decreases remaining(old(self).tokens@, old(self).pos as nat), 185nat,
    {
        self.parse_binary_level(2)
    }

    /// Parses `a ^ b`: level 3.
    fn parse_bitwise_xor_expression(&mut self) -> (r: Option<Expression>)
        ensures
            produced(
                *old(self),
                *final(self),
                view_opt(r),
                grammar::binary_expression(old(self).tokens@, old(self).pos as nat, 3),
            ),
        decreases remaining(old(self).tokens@, old(self).pos as nat), 175nat,
    {
        self.parse_binary_level(3)
    }

    /// Parses `a & b`: level 4.
    fn parse_bitwise_and_expression(&mut self) -> (r: Option<Expression>)
        ensures
            produced(
                *old(self),
                *final(self),
                view_opt(r),
                grammar::binary_expression(old(self).tokens@, old(self).pos as nat, 4),
            ),
        decreases remaining(old(self).tokens@, old(self).pos as nat), 165nat,
    {
        self.parse_binary_level(4)
    }

    /// Parses `a == b` and `a != b`: level 5.
    fn parse_equality_expression(&mut self) -> (r: Option<Expression>)
        ensures
            produced(
                *old(self),
                *final(self),
                view_opt(r),
                grammar::binary_expression(old(self).tokens@, old(self).pos as nat, 5),
            ),
        decreases remaining(old(self).tokens@, old(self).pos as nat), 155nat,
    {
        self.parse_binary_level(5)
    }

    /// Parses `< > <= >=`: level 6.
    fn parse_relational_expression(&mut self) -> (r: Option<Expression>)
        ensures
            produced(
                *old(self),
                *final(self),
                view_opt(r),
                grammar::binary_expression(old(self).tokens@, old(self).pos as nat, 6),
            ),
        decreases remaining(old(self).tokens@, old(self).pos as nat), 145nat,
    {
        self.parse_binary_level(6)
    }

    /// Parses `<<` and `>>`: level 7.
    fn parse_shift_expression(&mut self) -> (r: Option<Expression>)
        ensures
            produced(
                *old(self),
                *final(self),
                view_opt(r),
                grammar::binary_expression(old(self).tokens@, old(self).pos as nat, 7),
            ),
        decreases remaining(old(self).tokens@, old(self).pos as nat), 135nat,
    {
        self.parse_binary_level(7)
    }

    /// Parses `a + b` and `a - b`: level 8.
    fn parse_additive_expression(&mut self) -> (r: Option<Expression>)
        ensures
            produced(
                *old(self),
                *final(self),
                view_opt(r),
                grammar::binary_expression(old(self).tokens@, old(self).pos as nat, 8),
            ),
        decreases remaining(old(self).tokens@, old(self).pos as nat), 125nat,
    {
        self.parse_binary_level(8)
    }

    /// Parses `* / %`: level 9.
    fn parse_multiplicative_expression(&mut self) -> (r: Option<Expression>)
        ensures
            produced(
                *old(self),
                *final(self),
                view_opt(r),
                grammar::binary_expression(old(self).tokens@, old(self).pos as nat, 9),
            ),
        decreases remaining(old(self).tokens@, old(self).pos as nat), 115nat,
    {
        self.parse_binary_level(9)
    }

    /// The prefix operator that a token denotes.
    fn prefix_operator(token: &Token) -> (r: Option<UnaryOperator>)
        ensures
            r == grammar::prefix_operator(*token),
    {
        match token {
            Token::Plus => Some(UnaryOperator::Plus),
            Token::Minus => Some(UnaryOperator::Minus),
            Token::Not => Some(UnaryOperator::Not),
            Token::BitAndOp => Some(UnaryOperator::AddressOf),
            Token::Mult => Some(UnaryOperator::Dereference),
            Token::PlusPlus => Some(UnaryOperator::PreIncrement),
            Token::MinusMinus => Some(UnaryOperator::PreDecrement),
            _ => None,
        }
    }

    /// Parses a unary expression.
    fn parse_unary_expression(&mut self) -> (r: Option<Expression>)
        ensures
            produced(
                *old(self),
                *final(self),
                view_opt(r),
                grammar::unary_expression(old(self).tokens@, old(self).pos as nat),
            ),
        decreases remaining(old(self).tokens@, old(self).pos as nat), 20nat,
    {
        let op = match self.peek() {
            Some(token) => Self::prefix_operator(token),
            None => None,
        };
        if let Some(op) = op {
            assert(self.pos < self.tokens.len());
            self.pos += 1;
            if let Some(expr) = self.parse_unary_expression() {
                return Some(Expression::UnaryOp(op, Box::new(expr)));
            }
        }
        self.parse_postfix_expression()
    }

    /// Parses a postfix expression.
    fn parse_postfix_expression(&mut self) -> (r: Option<Expression>)
        ensures
            produced(
                *old(self),
                *final(self),
                view_opt(r),
                grammar::postfix_expression(old(self).tokens@, old(self).pos as nat),
            ),
        decreases remaining(old(self).tokens@, old(self).pos as nat), 10nat,
    {
        let ghost ts = self.tokens@;
        let mut expr = match self.parse_primary_expression() {
            Some(e) => e,
            None => {
                return None;
            },
        };
        loop
            invariant
                self.tokens == old(self).tokens,
                ts == self.tokens@,
                old(self).pos < self.pos <= self.tokens@.len(),
                grammar::postfix_expression(ts, old(self).pos as nat) == grammar::postfix_rest(
                    ts,
                    self.pos as nat,
                    expr@,
                ),
            decreases remaining(ts, self.pos as nat),
        {
            let (next, applied) = self.parse_postfix_operation(expr);
            expr = next;
            if !applied {
                return Some(expr);
            }
        }
    }

    /// Parses one postfix operation on the operand `expr` and answers with
    /// the expression after it, and whether an operation was completed.
    fn parse_postfix_operation(&mut self, expr: Expression) -> (r: (Expression, bool))
        ensures
            after_postfix(*old(self), *final(self), expr@, r.0@, r.1),
        decreases remaining(old(self).tokens@, old(self).pos as nat), 5nat,
    {
        match self.peek() {
            Some(Token::ParenL) => self.parse_call(expr),
            Some(Token::BracketL) => self.parse_index(expr),
            Some(Token::Dot) => self.parse_member(expr),
            Some(Token::Arrow) => self.parse_member(expr),
            Some(Token::PlusPlus) => self.parse_postfix_operator(expr),
            Some(Token::MinusMinus) => self.parse_postfix_operator(expr),
            Some(_) => (expr, false),
            None => (expr, false),
        }
    }

    /// Parses a call of `expr`, at `(`.
    fn parse_call(&mut self, expr: Expression) -> (r: (Expression, bool))
        requires
            token_at(old(self).tokens@, old(self).pos as nat) == Some(Token::ParenL),
        ensures
            after_postfix(*old(self), *final(self), expr@, r.0@, r.1),
        decreases remaining(old(self).tokens@, old(self).pos as nat), 4nat,
    {
        assert(self.pos < self.tokens.len());
        self.pos += 1;
        let args = self.parse_call_arguments();
        if self.consume(&Token::ParenR) {
            (Self::call_of(expr, args), true)
        } else {
            (expr, false)
        }
    }

    /// Parses an indexing of `expr`, at `[`.
    fn parse_index(&mut self, expr: Expression) -> (r: (Expression, bool))
        requires
            token_at(old(self).tokens@, old(self).pos as nat) == Some(Token::BracketL),
        ensures
            after_postfix(*old(self), *final(self), expr@, r.0@, r.1),
        decreases remaining(old(self).tokens@, old(self).pos as nat), 4nat,
    {
        assert(self.pos < self.tokens.len());
        self.pos += 1;
        match self.parse_expression() {
            Some(index) => {
                if self.consume(&Token::BracketR) {
                    (Self::index_of(expr, index), true)
                } else {
                    (expr, false)
                }
            },
            None => (expr, false),
        }
    }

    /// Parses a member access on `expr`, at `.` or `->`.
    fn parse_member(&mut self, expr: Expression) -> (r: (Expression, bool))
        requires
            token_at(old(self).tokens@, old(self).pos as nat) == Some(Token::Dot) || token_at(
                old(self).tokens@,
                old(self).pos as nat,
            ) == Some(Token::Arrow),
        ensures
            after_postfix(*old(self), *final(self), expr@, r.0@, r.1),
    {
        let through_pointer = self.at(&Token::Arrow);
        assert(self.pos < self.tokens.len());
        self.pos += 1;
        match self.parse_identifier() {
            Some(member) => (Self::member_of(expr, member, through_pointer), true),
            None => (expr, false),
        }
    }

    /// Parses `++` or `--` after `expr`.
    fn parse_postfix_operator(&mut self, expr: Expression) -> (r: (Expression, bool))
        requires
            token_at(old(self).tokens@, old(self).pos as nat) == Some(Token::PlusPlus)
                || token_at(old(self).tokens@, old(self).pos as nat) == Some(Token::MinusMinus),
        ensures
            after_postfix(*old(self), *final(self), expr@, r.0@, r.1),
    {
        let op = if self.at(&Token::PlusPlus) {
            PostfixOperator::PlusPlus
        } else {
            PostfixOperator::MinusMinus
        };
        assert(self.pos < self.tokens.len());
        self.pos += 1;
        (Self::postfix_of(expr, op), true)
    }

    /// The indexing of `array` by `index`.
    fn index_of(array: Expression, index: Expression) -> (r: Expression)
        ensures
            r@ == ExpressionView::ArrayAccess(Box::new(array@), Box::new(index@)),
    {
        Expression::ArrayAccess(Box::new(array), Box::new(index))
    }

    /// The access to `member` of `object`, through a pointer or not.
    fn member_of(object: Expression, member: String, through_pointer: bool) -> (r: Expression)
        ensures
            r@ == (if through_pointer {
                ExpressionView::PointerAccess(Box::new(object@), member@)
            } else {
                ExpressionView::MemberAccess(Box::new(object@), member@)
            }),
    {
        if through_pointer {
            Expression::PointerAccess(Box::new(object), member)
        } else {
            Expression::MemberAccess(Box::new(object), member)
        }
    }

    /// The postfix operator `op` on `operand`.
    fn postfix_of(operand: Expression, op: PostfixOperator) -> (r: Expression)
        ensures
            r@ == ExpressionView::PostfixOp(Box::new(operand@), op),
    {
        Expression::PostfixOp(Box::new(operand), op)
    }

    /// The expression that a call with these arguments makes of `callee`.
    fn call_of(callee: Expression, args: Vec<Expression>) -> (r: Expression)
        ensures
            r@ == grammar::call_of(callee@, view_all(args@)),
    {
        match callee {
            Expression::Identifier(name) => {
                proof {
                    crate::parser::ast::lemma_call_view(name, args);
                }
                Expression::FunctionCall(name, args)
            },
            other => other,
        }
    }

    /// Parses the arguments of a call, from the position after its `(`.
    fn parse_call_arguments(&mut self) -> (r: Vec<Expression>)
        ensures
            final(self).tokens == old(self).tokens,
            old(self).pos <= final(self).pos <= final(self).tokens@.len(),
            (view_all(r@), final(self).pos as nat) == grammar::call_arguments(
                old(self).tokens@,
                old(self).pos as nat,
            ),
        decreases remaining(old(self).tokens@, old(self).pos as nat), 330nat,
    {
        let ghost ts = self.tokens@;
        let mut args: Vec<Expression> = Vec::new();
        if self.at(&Token::ParenR) {
            assert(view_all(args@) =~= Seq::<ExpressionView>::empty());
            return args;
        }
        if let Some(arg) = self.parse_expression() {
            args.push(arg);
            assert(view_all(args@) =~= seq![arg@]);
        } else {
            assert(view_all(args@) =~= Seq::<ExpressionView>::empty());
        }
        loop
            invariant
                self.tokens == old(self).tokens,
                ts == self.tokens@,
                old(self).pos <= self.pos <= self.tokens@.len(),
                grammar::call_arguments(ts, old(self).pos as nat) == grammar::more_arguments(
                    ts,
                    self.pos as nat,
                    view_all(args@),
                ),
            decreases remaining(ts, self.pos as nat),
        {
            if !self.consume(&Token::Comma) {
                return args;
            }
            let ghost before = view_all(args@);
            if let Some(arg) = self.parse_expression() {
                args.push(arg);
                assert(view_all(args@) =~= before.push(arg@));
            }
        }
    }

    /// Parses a primary expression.
    fn parse_primary_expression(&mut self) -> (r: Option<Expression>)
        ensures
            produced(
                *old(self),
                *final(self),
                view_opt(r),
                grammar::primary_expression(old(self).tokens@, old(self).pos as nat),
            ),
        decreases remaining(old(self).tokens@, old(self).pos as nat), 0nat,
    {
        match self.next() {
            Some(Token::Identifier(id)) => Some(Expression::Identifier(id)),
            Some(Token::IntLit(n)) => Some(Expression::Constant(Constant::Integer(n))),
            Some(Token::FloatLit(f)) => Some(Expression::Constant(Constant::Float(f))),
            Some(Token::StringLit(s)) => Some(Expression::StringLiteral(s)),
            Some(Token::ParenL) => {
                let expr = match self.parse_expression() {
                    Some(e) => e,
                    None => {
                        return None;
                    },
                };
                if self.consume(&Token::ParenR) {
                    Some(expr)
                } else {
                    None
                }
            },
            Some(_) => None,
            None => None,
        }
    }

    // -----------------------------------------------------------------------
    // Declarations
    // -----------------------------------------------------------------------

    /// Whether a type keyword stands under the cursor.
    fn is_type_specifier(&self) -> (r: bool)
        ensures
            self.pos <= self.tokens@.len(),
            r == (self.pos < self.tokens@.len() && self.tokens@[self.pos as int].is_type_keyword()),
    {
        match self.peek() {
            Some(Token::Int) => true,
            Some(Token::Float) => true,
            Some(Token::Char) => true,
            Some(Token::Double) => true,
            Some(Token::Void) => true,
            Some(Token::Long) => true,
            Some(Token::Short) => true,
            Some(_) => false,
            None => false,
        }
    }

    /// The first position at or after `from` that holds neither a comment
    /// nor a lexer error.
    fn after_trivia(&self, from: usize) -> (r: usize)
        requires
            from <= self.tokens@.len(),
        ensures
            from <= r <= self.tokens@.len(),
            r == skip_trivia(self.tokens@, from as nat),
    {
        let mut check_pos = from;
        while check_pos < self.tokens.len()
            invariant
                from <= check_pos <= self.tokens@.len(),
                skip_trivia(self.tokens@, check_pos as nat) == skip_trivia(
                    self.tokens@,
                    from as nat,
                ),
            decreases self.tokens@.len() - check_pos,
        {
            match &self.tokens[check_pos] {
                Token::Comment(_) | Token::BlockComment(_) | Token::Error(_) => {
                    check_pos += 1;
                },
                _ => {
                    return check_pos;
                },
            }
        }
        check_pos
    }

    /// Whether what stands under the cursor begins like a function: a type
    /// keyword, a name and `(`.
    fn is_function_declaration(&self) -> (r: bool)
        ensures
            r == grammar::is_function_start(self.tokens@, self.pos as nat),
    {
        if !self.is_type_specifier() {
            return false;
        }
        assert(self.pos < self.tokens.len());
        let name_pos = self.after_trivia(self.pos + 1);
        if name_pos >= self.tokens.len() {
            return false;
        }
        match &self.tokens[name_pos] {
            Token::Identifier(_) => {},
            _ => {
                return false;
            },
        }
        let paren_pos = self.after_trivia(name_pos + 1);
        if paren_pos >= self.tokens.len() {
            return false;
        }
        match &self.tokens[paren_pos] {
            Token::ParenL => true,
            _ => false,
        }
    }

    /// Parses the name that is expected under the cursor.
    fn parse_identifier(&mut self) -> (r: Option<String>)
        ensures
            final(self).tokens == old(self).tokens,
            old(self).pos <= final(self).pos <= final(self).tokens@.len(),
            grammar::identifier(old(self).tokens@, old(self).pos as nat) == (Parsed {
                value: view_opt(r),
                next: final(self).pos as nat,
            }),
            r is Some ==> old(self).pos < final(self).pos,
    {
        match self.next() {
            Some(Token::Identifier(id)) => Some(id),
            Some(_) => None,
            None => None,
        }
    }

    /// Parses a variable declaration.
    fn parse_variable_declaration(&mut self) -> (r: Option<VariableDeclaration>)
        ensures
            produced(
                *old(self),
                *final(self),
                view_opt(r),
                grammar::variable_declaration(old(self).tokens@, old(self).pos as nat),
            ),
    {
        let type_specifier = match self.parse_type_specifier() {
            Some(t) => t,
            None => {
                return None;
            },
        };
        self.skip_whitespace();
        let name = match self.parse_identifier() {
            Some(id) => id,
            None => {
                return None;
            },
        };
        let mut initializer = None;
        if self.consume(&Token::AssignOp) {
            if let Some(expr) = self.parse_expression() {
                initializer = Some(Initializer { kind: InitializerKind::Assignment(expr) });
            }
        }
        if !self.consume(&Token::Semicolon) {
            return None;
        }
        let declaration = VariableDeclaration {
            storage_class: None,
            type_qualifiers: Vec::new(),
            type_specifier,
            declarator: Declarator {
                name,
                pointer_depth: 0,
                array_sizes: Vec::new(),
                function_params: None,
            },
            initializer,
        };
        assert(declaration@.type_qualifiers =~= Seq::<TypeQualifier>::empty());
        assert(declaration@.declarator.array_sizes =~= Seq::<Option<ExpressionView>>::empty());
        Some(declaration)
    }

    /// Parses a type specifier.
    fn parse_type_specifier(&mut self) -> (r: Option<TypeSpecifier>)
        ensures
            produced(
                *old(self),
                *final(self),
                r,
                grammar::type_specifier(old(self).tokens@, old(self).pos as nat),
            ),
    {
        match self.next() {
            Some(Token::Int) => Some(TypeSpecifier::Int),
            Some(Token::Float) => Some(TypeSpecifier::Float),
            Some(Token::Char) => Some(TypeSpecifier::Char),
            Some(Token::Double) => Some(TypeSpecifier::Double),
            Some(Token::Void) => Some(TypeSpecifier::Void),
            Some(Token::Long) => Some(TypeSpecifier::Long),
            Some(Token::Short) => Some(TypeSpecifier::Short),
            Some(_) => None,
            None => None,
        }
    }

    /// Parses a type specifier and answers with its name.
    fn parse_type_specifier_string(&mut self) -> (r: Option<String>)
        ensures
            produced(
                *old(self),
                *final(self),
                view_opt(r),
                grammar::kind_name(old(self).tokens@, old(self).pos as nat),
            ),
    {
        match self.next() {
            Some(Token::Int) => Some("int".to_owned()),
            Some(Token::Float) => Some("float".to_owned()),
            Some(Token::Char) => Some("char".to_owned()),
            Some(Token::Double) => Some("double".to_owned()),
            Some(Token::Void) => Some("void".to_owned()),
            Some(Token::Long) => Some("long".to_owned()),
            Some(Token::Short) => Some("short".to_owned()),
            Some(_) => None,
            None => None,
        }
    }

    /// Parses the head of a function: the name of its return type, its
    /// name, and its parameters in parentheses.
    fn parse_function_head(&mut self) -> (r: Option<(String, String, Vec<Parameter>)>)
        ensures
            produced(
                *old(self),
                *final(self),
                view_head(r),
                grammar::function_head(old(self).tokens@, old(self).pos as nat),
            ),
    {
        let saved_pos = self.pos;
        proof {
            use_type_invariant(&*self);
        }
        let return_type = match self.parse_type_specifier_string() {
            Some(t) => t,
            None => {
                return None;
            },
        };
        self.skip_whitespace();
        let name = match self.parse_identifier() {
            Some(id) => id,
            None => {
                self.pos = saved_pos;
                return None;
            },
        };
        if !self.consume(&Token::ParenL) {
            self.pos = saved_pos;
            return None;
        }
        let parameters = self.parse_parameter_list();
        if !self.consume(&Token::ParenR) {
            self.pos = saved_pos;
            return None;
        }
        Some((return_type, name, parameters))
    }

    /// Parses a prototype.
    fn parse_function_declaration(&mut self) -> (r: Option<FunctionDeclaration>)
        ensures
            produced(
                *old(self),
                *final(self),
                view_opt(r),
                grammar::function_declaration(old(self).tokens@, old(self).pos as nat),
            ),
    {
        let saved_pos = self.pos;
        proof {
            use_type_invariant(&*self);
        }
        let (return_type, name, parameters) = match self.parse_function_head() {
            Some(head) => head,
            None => {
                return None;
            },
        };
        if !self.consume(&Token::Semicolon) {
            self.pos = saved_pos;
            return None;
        }
        Some(FunctionDeclaration { return_type, name, parameters })
    }

    /// Parses a function definition.
    fn parse_function_definition(&mut self) -> (r: Option<FunctionDefinition>)
        ensures
            produced(
                *old(self),
                *final(self),
                view_opt(r),
                grammar::function_definition(old(self).tokens@, old(self).pos as nat),
            ),
    {
        let saved_pos = self.pos;
        proof {
            use_type_invariant(&*self);
        }
        let (return_type, name, parameters) = match self.parse_function_head() {
            Some(head) => head,
            None => {
                return None;
            },
        };
        if !self.consume(&Token::BraceL) {
            self.pos = saved_pos;
            return None;
        }
        let body = self.parse_statement_list();
        if !self.find_matching_brace() {
            self.pos = saved_pos;
            return None;
        }
        Some(FunctionDefinition { return_type, name, parameters, body })
    }

    /// Parses the parameters of a function, from the position after `(`.
    fn parse_parameter_list(&mut self) -> (r: Vec<Parameter>)
        ensures
            final(self).tokens == old(self).tokens,
            old(self).pos <= final(self).pos <= final(self).tokens@.len(),
            (view_all(r@), final(self).pos as nat) == grammar::parameter_list(
                old(self).tokens@,
                old(self).pos as nat,
            ),
    {
        let ghost ts = self.tokens@;
        let mut parameters: Vec<Parameter> = Vec::new();
        assert(view_all(parameters@) =~= Seq::<ParameterView>::empty());
        proof {
            use_type_invariant(&*self);
        }
        loop
            invariant
                self.tokens == old(self).tokens,
                ts == self.tokens@,
                old(self).pos <= self.pos <= self.tokens@.len(),
                grammar::parameter_list(ts, old(self).pos as nat) == grammar::parameter_list_from(
                    ts,
                    self.pos as nat,
                    view_all(parameters@),
                ),
            decreases remaining(ts, self.pos as nat),
        {
            if self.pos >= self.tokens.len() || self.at(&Token::ParenR) {
                return parameters;
            }
            self.skip_whitespace();
            if self.pos >= self.tokens.len() || self.at(&Token::ParenR) {
                return parameters;
            }
            let ghost before = view_all(parameters@);
            match self.parse_parameter() {
                Some(param) => {
                    parameters.push(param);
                    assert(view_all(parameters@) =~= before.push(param@));
                },
                None => {
                    return parameters;
                },
            }
            if !self.consume(&Token::Comma) {
                return parameters;
            }
        }
    }

    /// Parses a parameter.
    fn parse_parameter(&mut self) -> (r: Option<Parameter>)
        ensures
            produced(
                *old(self),
                *final(self),
                view_opt(r),
                grammar::parameter(old(self).tokens@, old(self).pos as nat),
            ),
    {
        let param_type = match self.parse_type_specifier_string() {
            Some(t) => t,
            None => {
                return None;
            },
        };
        self.skip_whitespace();
        let name = match self.parse_identifier() {
            Some(id) => id,
            None => {
                return None;
            },
        };
        Some(Parameter { param_type, name })
    }

    /// Moves past the `}` that closes the block that the cursor is in;
    /// stays where it is if there is none.
    fn find_matching_brace(&mut self) -> (r: bool)
        ensures
            final(self).tokens == old(self).tokens,
            old(self).pos <= final(self).pos <= final(self).tokens@.len(),
            r == (grammar::matching_brace(old(self).tokens@, old(self).pos as nat, 1) is Some),
            r ==> grammar::matching_brace(old(self).tokens@, old(self).pos as nat, 1) == Some(
                final(self).pos as nat,
            ),
            !r ==> final(self).pos == old(self).pos,
    {
        proof {
            use_type_invariant(&*self);
        }
        let mut nested: usize = 0;
        let mut search_pos: usize = self.pos;
        while search_pos < self.tokens.len()
            invariant
                self.tokens == old(self).tokens,
                self.pos == old(self).pos,
                self.pos <= search_pos <= self.tokens@.len(),
                nested <= search_pos - self.pos,
                grammar::matching_brace(self.tokens@, self.pos as nat, 1)
                    == grammar::matching_brace(self.tokens@, search_pos as nat, (nested + 1) as nat),
            decreases self.tokens@.len() - search_pos,
        {
            match &self.tokens[search_pos] {
                Token::BraceL => {
                    nested += 1;
                },
                Token::BraceR => {
                    if nested == 0 {
                        self.pos = search_pos + 1;
                        return true;
                    }
                    nested -= 1;
                },
                _ => {},
            }
            search_pos += 1;
        }
        false
    }

    /// Parses an external declaration.
    fn parse_external_declaration(&mut self) -> (r: Option<ExternalDeclaration>)
        ensures
            produced(
                *old(self),
                *final(self),
                view_opt(r),
                grammar::external_declaration(old(self).tokens@, old(self).pos as nat),
            ),
    {
        self.skip_whitespace();
        let saved_pos = self.pos;
        let storage_class = if self.consume(&Token::Static) {
            Some(StorageClass::Static)
        } else {
            None
        };
        let mut type_qualifiers: Vec<TypeQualifier> = Vec::new();
        if self.consume(&Token::Const) {
            type_qualifiers.push(TypeQualifier::Const);
        }
        let declaration_pos = self.pos;
        if self.is_type_specifier() {
            if self.is_function_declaration() {
                if let Some(func) = self.parse_function_definition() {
                    return Some(ExternalDeclaration::Function(func));
                }
                self.pos = declaration_pos;
                if let Some(func_decl) = self.parse_function_declaration() {
                    return Some(ExternalDeclaration::FunctionDeclaration(func_decl));
                }
            }
            self.pos = declaration_pos;
            if let Some(mut var_decl) = self.parse_variable_declaration() {
                var_decl.storage_class = storage_class;
                var_decl.type_qualifiers = type_qualifiers;
                return Some(ExternalDeclaration::Variable(var_decl));
            }
        }
        self.pos = saved_pos;
        None
    }

    // -----------------------------------------------------------------------
    // Statements
    // -----------------------------------------------------------------------

    /// Parses the statements of a block, from the position after its `{`.
    fn parse_statement_list(&mut self) -> (r: Vec<Statement>)
        ensures
            final(self).tokens == old(self).tokens,
            old(self).pos <= final(self).pos <= final(self).tokens@.len(),
            (view_all(r@), final(self).pos as nat) == grammar::statement_list(
                old(self).tokens@,
                old(self).pos as nat,
            ),
        decreases remaining(old(self).tokens@, old(self).pos as nat), 11nat,
    {
        let ghost ts = self.tokens@;
        let mut statements: Vec<Statement> = Vec::new();
        assert(view_all(statements@) =~= Seq::<StatementView>::empty());
        proof {
            use_type_invariant(&*self);
        }
        loop
            invariant
                self.tokens == old(self).tokens,
                ts == self.tokens@,
                old(self).pos <= self.pos <= self.tokens@.len(),
                grammar::statement_list(ts, old(self).pos as nat) == grammar::statement_list_from(
                    ts,
                    self.pos as nat,
                    view_all(statements@),
                ),
            decreases remaining(ts, self.pos as nat),
        {
            if self.pos >= self.tokens.len() || self.at(&Token::BraceR) {
                return statements;
            }
            self.skip_whitespace();
            if self.pos >= self.tokens.len() || self.at(&Token::BraceR) {
                return statements;
            }
            let ghost before = view_all(statements@);
            match self.parse_statement() {
                Some(stmt) => {
                    statements.push(stmt);
                    assert(view_all(statements@) =~= before.push(stmt@));
                },
                None => {
                    if self.pos < self.tokens.len() {
                        self.pos += 1;
                    }
                },
            }
        }
    }

    /// Parses a statement.
    fn parse_statement(&mut self) -> (r: Option<Statement>)
        ensures
            produced(
                *old(self),
                *final(self),
                view_opt(r),
                grammar::statement(old(self).tokens@, old(self).pos as nat),
            ),
        decreases remaining(old(self).tokens@, old(self).pos as nat), 10nat,
    {
        self.skip_whitespace();
        match self.peek() {
            Some(Token::Return) => self.parse_return_statement(),
            Some(Token::If) => self.parse_if_statement(),
            Some(Token::While) => self.parse_while_statement(),
            Some(Token::For) => self.parse_for_statement(),
            Some(Token::Break) => self.parse_break_statement(),
            Some(Token::BraceL) => self.parse_block_statement(),
            Some(Token::Int) => self.parse_declaration_statement(),
            Some(Token::Float) => self.parse_declaration_statement(),
            Some(Token::Char) => self.parse_declaration_statement(),
            Some(Token::Double) => self.parse_declaration_statement(),
            Some(Token::Long) => self.parse_declaration_statement(),
            Some(Token::Short) => self.parse_declaration_statement(),
            Some(Token::Do) => self.parse_do_statement(),
            Some(Token::Switch) => self.parse_switch_statement(),
            Some(Token::Case) => self.parse_case_statement(),
            Some(Token::Default) => self.parse_default_statement(),
            Some(Token::Continue) => self.parse_continue_statement(),
            Some(Token::Goto) => self.parse_goto_statement(),
            Some(Token::Identifier(_)) => {
                if Self::is_token(self.peek_at(1), &Token::Colon) {
                    self.parse_labeled_statement()
                } else {
                    self.parse_expression_statement()
                }
            },
            Some(_) => self.parse_expression_statement(),
            None => self.parse_expression_statement(),
        }
    }

    /// Parses `do`, a statement, `while`, a condition and perhaps `;`.
    fn parse_do_statement(&mut self) -> (r: Option<Statement>)
        ensures
            produced(
                *old(self),
                *final(self),
                view_opt(r),
                grammar::do_statement(old(self).tokens@, old(self).pos as nat),
            ),
        decreases remaining(old(self).tokens@, old(self).pos as nat), 5nat,
    {
        if !self.consume(&Token::Do) {
            return None;
        }
        let body = match self.parse_statement() {
            Some(s) => s,
            None => {
                return None;
            },
        };
        if !self.consume(&Token::While) {
            return None;
        }
        let condition = match self.parse_condition() {
            Some(e) => e,
            None => {
                return None;
            },
        };
        let _ = self.consume(&Token::Semicolon);
        Some(Self::do_while_of(body, condition))
    }

    /// Parses `switch`, a condition and a statement.
    fn parse_switch_statement(&mut self) -> (r: Option<Statement>)
        ensures
            produced(
                *old(self),
                *final(self),
                view_opt(r),
                grammar::switch_statement(old(self).tokens@, old(self).pos as nat),
            ),
        decreases remaining(old(self).tokens@, old(self).pos as nat), 5nat,
    {
        if !self.consume(&Token::Switch) {
            return None;
        }
        let value = match self.parse_condition() {
            Some(e) => e,
            None => {
                return None;
            },
        };
        let body = match self.parse_statement() {
            Some(s) => s,
            None => {
                return None;
            },
        };
        Some(Self::switch_of(value, body))
    }

    /// Parses `case`, an expression, `:` and a statement.
    fn parse_case_statement(&mut self) -> (r: Option<Statement>)
        ensures
            produced(
                *old(self),
                *final(self),
                view_opt(r),
                grammar::case_statement(old(self).tokens@, old(self).pos as nat),
            ),
        decreases remaining(old(self).tokens@, old(self).pos as nat), 5nat,
    {
        if !self.consume(&Token::Case) {
            return None;
        }
        let value = match self.parse_expression() {
            Some(e) => e,
            None => {
                return None;
            },
        };
        if !self.consume(&Token::Colon) {
            return None;
        }
        let body = match self.parse_statement() {
            Some(s) => s,
            None => {
                return None;
            },
        };
        Some(Self::case_of(value, body))
    }

    /// Parses `default`, `:` and a statement.
    fn parse_default_statement(&mut self) -> (r: Option<Statement>)
        ensures
            produced(
                *old(self),
                *final(self),
                view_opt(r),
                grammar::default_statement(old(self).tokens@, old(self).pos as nat),
            ),
        decreases remaining(old(self).tokens@, old(self).pos as nat), 5nat,
    {
        if !self.consume(&Token::Default) {
            return None;
        }
        if !self.consume(&Token::Colon) {
            return None;
        }
        let body = match self.parse_statement() {
            Some(s) => s,
            None => {
                return None;
            },
        };
        Some(Self::default_of(body))
    }

    /// Parses `continue` and perhaps `;`.
    fn parse_continue_statement(&mut self) -> (r: Option<Statement>)
        ensures
            produced(
                *old(self),
                *final(self),
                view_opt(r),
                grammar::continue_statement(old(self).tokens@, old(self).pos as nat),
            ),
    {
        if self.consume(&Token::Continue) {
            let _ = self.consume(&Token::Semicolon);
            Some(Statement::Continue)
        } else {
            None
        }
    }

    /// Parses `goto`, a label and perhaps `;`.
    fn parse_goto_statement(&mut self) -> (r: Option<Statement>)
        ensures
            produced(
                *old(self),
                *final(self),
                view_opt(r),
                grammar::goto_statement(old(self).tokens@, old(self).pos as nat),
            ),
    {
        if !self.consume(&Token::Goto) {
            return None;
        }
        match self.parse_identifier() {
            Some(label) => {
                let _ = self.consume(&Token::Semicolon);
                Some(Statement::Goto(label))
            },
            None => None,
        }
    }

    /// Parses a label, `:` and a statement.
    fn parse_labeled_statement(&mut self) -> (r: Option<Statement>)
        ensures
            produced(
                *old(self),
                *final(self),
                view_opt(r),
                grammar::labeled_statement(old(self).tokens@, old(self).pos as nat),
            ),
        decreases remaining(old(self).tokens@, old(self).pos as nat), 5nat,
    {
        let named = match self.peek() {
            Some(Token::Identifier(label)) => Some(label.clone()),
            Some(_) => None,
            None => None,
        };
        let label = match named {
            Some(label) => label,
            None => {
                return None;
            },
        };
        if !Self::is_token(self.peek_at(1), &Token::Colon) {
            return None;
        }
        assert(self.pos + 1 < self.tokens.len());
        self.pos += 2;
        let body = match self.parse_statement() {
            Some(s) => s,
            None => {
                return None;
            },
        };
        Some(Self::labeled_of(label, body))
    }

    /// The statement `do body while (condition)`.
    fn do_while_of(body: Statement, condition: Expression) -> (r: Statement)
        ensures
            r@ == StatementView::DoWhile(Box::new(body@), condition@),
    {
        Statement::DoWhile(Box::new(body), condition)
    }

    /// The statement `switch (value) body`.
    fn switch_of(value: Expression, body: Statement) -> (r: Statement)
        ensures
            r@ == StatementView::Switch(value@, Box::new(body@)),
    {
        Statement::Switch(value, Box::new(body))
    }

    /// The statement `case value: body`.
    fn case_of(value: Expression, body: Statement) -> (r: Statement)
        ensures
            r@ == StatementView::Case(value@, Box::new(body@)),
    {
        Statement::Case(value, Box::new(body))
    }

    /// The statement `default: body`.
    fn default_of(body: Statement) -> (r: Statement)
        ensures
            r@ == StatementView::Default(Box::new(body@)),
    {
        Statement::Default(Box::new(body))
    }

    /// The statement `label: body`.
    fn labeled_of(label: String, body: Statement) -> (r: Statement)
        ensures
            r@ == StatementView::Labeled(label@, Box::new(body@)),
    {
        Statement::Labeled(label, Box::new(body))
    }

    /// Parses `return`, perhaps a value, perhaps `;`.
    fn parse_return_statement(&mut self) -> (r: Option<Statement>)
        ensures
            produced(
                *old(self),
                *final(self),
                view_opt(r),
                grammar::return_statement(old(self).tokens@, old(self).pos as nat),
            ),
    {
        if !self.consume(&Token::Return) {
            return None;
        }
        self.skip_whitespace();
        let expr = if !self.at(&Token::Semicolon) {
            self.parse_expression()
        } else {
            None
        };
        let _ = self.consume(&Token::Semicolon);
        Some(Statement::Return(expr))
    }

    /// Parses a condition in parentheses.
    fn parse_condition(&mut self) -> (r: Option<Expression>)
        ensures
            produced(
                *old(self),
                *final(self),
                view_opt(r),
                grammar::condition(old(self).tokens@, old(self).pos as nat),
            ),
    {
        if !self.consume(&Token::ParenL) {
            return None;
        }
        let condition = match self.parse_expression() {
            Some(e) => e,
            None => {
                return None;
            },
        };
        if !self.consume(&Token::ParenR) {
            return None;
        }
        Some(condition)
    }

    /// Parses `if`, a condition, a statement, and perhaps `else` and a
    /// statement.
    fn parse_if_statement(&mut self) -> (r: Option<Statement>)
        ensures
            produced(
                *old(self),
                *final(self),
                view_opt(r),
                grammar::if_statement(old(self).tokens@, old(self).pos as nat),
            ),
        decreases remaining(old(self).tokens@, old(self).pos as nat), 5nat,
    {
        if !self.consume(&Token::If) {
            return None;
        }
        let condition = match self.parse_condition() {
            Some(e) => e,
            None => {
                return None;
            },
        };
        let then_stmt = match self.parse_statement() {
            Some(s) => s,
            None => {
                return None;
            },
        };
        let else_stmt = if self.consume(&Token::Else) {
            match self.parse_statement() {
                Some(s) => Some(Box::new(s)),
                None => None,
            }
        } else {
            None
        };
        Some(Statement::If(condition, Box::new(then_stmt), else_stmt))
    }

    /// Parses `while`, a condition and a statement.
    fn parse_while_statement(&mut self) -> (r: Option<Statement>)
        ensures
            produced(
                *old(self),
                *final(self),
                view_opt(r),
                grammar::while_statement(old(self).tokens@, old(self).pos as nat),
            ),
        decreases remaining(old(self).tokens@, old(self).pos as nat), 5nat,
    {
        if !self.consume(&Token::While) {
            return None;
        }
        let condition = match self.parse_condition() {
            Some(e) => e,
            None => {
                return None;
            },
        };
        let body = match self.parse_statement() {
            Some(s) => s,
            None => {
                return None;
            },
        };
        Some(Statement::While(condition, Box::new(body)))
    }

    /// Parses an optional clause of `for`, which `closer` ends.
    fn parse_for_clause(&mut self, closer: &Token) -> (r: Option<Expression>)
        ensures
            final(self).tokens == old(self).tokens,
            old(self).pos <= final(self).pos <= final(self).tokens@.len(),
            grammar::for_clause(old(self).tokens@, old(self).pos as nat, *closer) == (Parsed {
                value: view_opt(r),
                next: final(self).pos as nat,
            }),
    {
        if !self.at(closer) {
            self.parse_expression()
        } else {
            None
        }
    }

    /// Parses `for (init; condition; update) body`.
    fn parse_for_statement(&mut self) -> (r: Option<Statement>)
        ensures
            produced(
                *old(self),
                *final(self),
                view_opt(r),
                grammar::for_statement(old(self).tokens@, old(self).pos as nat),
            ),
        decreases remaining(old(self).tokens@, old(self).pos as nat), 5nat,
    {
        if !self.consume(&Token::For) {
            return None;
        }
        if !self.consume(&Token::ParenL) {
            return None;
        }
        let init = if !self.at(&Token::Semicolon) {
            match self.parse_statement() {
                Some(s) => Some(Box::new(s)),
                None => None,
            }
        } else {
            None
        };
        let _ = self.consume(&Token::Semicolon);
        let condition = self.parse_for_clause(&Token::Semicolon);
        let _ = self.consume(&Token::Semicolon);
        let update = self.parse_for_clause(&Token::ParenR);
        if !self.consume(&Token::ParenR) {
            return None;
        }
        let body = match self.parse_statement() {
            Some(s) => s,
            None => {
                return None;
            },
        };
        Some(Statement::For(init, condition, update, Box::new(body)))
    }

    /// Parses `break` and perhaps `;`.
    fn parse_break_statement(&mut self) -> (r: Option<Statement>)
        ensures
            produced(
                *old(self),
                *final(self),
                view_opt(r),
                grammar::break_statement(old(self).tokens@, old(self).pos as nat),
            ),
    {
        if self.consume(&Token::Break) {
            let _ = self.consume(&Token::Semicolon);
            Some(Statement::Break)
        } else {
            None
        }
    }

    /// Parses a block.
    fn parse_block_statement(&mut self) -> (r: Option<Statement>)
        ensures
            produced(
                *old(self),
                *final(self),
                view_opt(r),
                grammar::block_statement(old(self).tokens@, old(self).pos as nat),
            ),
        decreases remaining(old(self).tokens@, old(self).pos as nat), 5nat,
    {
        if !self.consume(&Token::BraceL) {
            return None;
        }
        let stmts = self.parse_statement_list();
        if self.consume(&Token::BraceR) {
            proof {
                lemma_block_view(stmts);
            }
            Some(Statement::Block(stmts))
        } else {
            None
        }
    }

    /// Parses a declaration as a statement.
    fn parse_declaration_statement(&mut self) -> (r: Option<Statement>)
        ensures
            produced(
                *old(self),
                *final(self),
                view_opt(r),
                grammar::declaration_statement(old(self).tokens@, old(self).pos as nat),
            ),
    {
        match self.parse_variable_declaration() {
            Some(var_decl) => Some(Statement::Declaration(var_decl)),
            None => None,
        }
    }

    /// Parses an expression and perhaps `;`.
    fn parse_expression_statement(&mut self) -> (r: Option<Statement>)
        ensures
            produced(
                *old(self),
                *final(self),
                view_opt(r),
                grammar::expression_statement(old(self).tokens@, old(self).pos as nat),
            ),
    {
        match self.parse_expression() {
            Some(expr) => {
                let _ = self.consume(&Token::Semicolon);
                Some(Statement::Expression(expr))
            },
            None => None,
        }
    }

    // -----------------------------------------------------------------------
    // Preprocessor directives
    // -----------------------------------------------------------------------

    /// A text without the `#` that it may begin with.
    fn strip_hash(text: &str) -> (r: String)
        ensures
            r@ == grammar::strip_hash(text@),
    {
        let length = text.unicode_len();
        if length > 0 && text.get_char(0) == '#' {
            text.substring_char(1, length).to_owned()
        } else {
            text.to_owned()
        }
    }

    /// Parses a preprocessor directive.
    fn parse_preprocessor_directive(&mut self) -> (r: Result<PreprocessorDirective, ParseError>)
        ensures
            directed(
                *old(self),
                *final(self),
                r,
                grammar::preprocessor_directive(old(self).tokens@, old(self).pos as nat),
            ),
            old(self).pos < old(self).tokens@.len() ==> old(self).pos < final(self).pos,
    {
        match self.next() {
            Some(Token::Preprocessor(directive)) => {
                let directive_type = Self::strip_hash(directive.as_str());
                if str_eq(directive_type.as_str(), "include") {
                    self.parse_include()
                } else if str_eq(directive_type.as_str(), "define") {
                    self.parse_define()
                } else if str_eq(directive_type.as_str(), "ifdef") {
                    self.parse_ifdef()
                } else if str_eq(directive_type.as_str(), "ifndef") {
                    self.parse_ifndef()
                } else if str_eq(directive_type.as_str(), "endif") {
                    Ok(PreprocessorDirective::Endif)
                } else {
                    let message = String::from_str("Unknown directive: ").concat(
                        directive_type.as_str(),
                    );
                    Err(ParseError::UnexpectedToken(message))
                }
            },
            Some(_) => Err(ParseError::UnexpectedEOF),
            None => Err(ParseError::UnexpectedEOF),
        }
    }

    /// Parses what follows `#include`.
    fn parse_include(&mut self) -> (r: Result<PreprocessorDirective, ParseError>)
        ensures
            directed(
                *old(self),
                *final(self),
                r,
                grammar::include_path(old(self).tokens@, old(self).pos as nat),
            ),
    {
        let ghost ts = self.tokens@;
        let quoted = match self.peek() {
            Some(Token::StringLit(s)) => Some(s.clone()),
            Some(_) => None,
            None => None,
        };
        if let Some(path) = quoted {
            assert(self.pos < self.tokens.len());
            self.pos += 1;
            return Ok(PreprocessorDirective::Include(path));
        }
        if self.consume(&Token::LessOp) {
            let ghost start = self.pos as nat;
            let mut header = String::new();
            while self.pos < self.tokens.len() && !self.at(&Token::GreaterOp)
                invariant
                    self.tokens == old(self).tokens,
                    ts == self.tokens@,
                    start <= self.pos <= self.tokens@.len(),
                    grammar::header_path(ts, start, Seq::empty()) == grammar::header_path(
                        ts,
                        self.pos as nat,
                        header@,
                    ),
                decreases self.tokens@.len() - self.pos,
            {
                match &self.tokens[self.pos] {
                    Token::Identifier(id) => {
                        header.append(id.as_str());
                    },
                    Token::Dot => {
                        header.append(".");
                    },
                    _ => {},
                }
                self.pos += 1;
            }
            if self.consume(&Token::GreaterOp) {
                Ok(PreprocessorDirective::Include(header))
            } else {
                Err(ParseError::UnexpectedEOF)
            }
        } else {
            Err(ParseError::UnexpectedToken("Expected include path".to_owned()))
        }
    }

    /// Parses what follows `#define`.
    fn parse_define(&mut self) -> (r: Result<PreprocessorDirective, ParseError>)
        ensures
            directed(
                *old(self),
                *final(self),
                r,
                grammar::define(old(self).tokens@, old(self).pos as nat),
            ),
    {
        match self.parse_identifier() {
            Some(id) => {
                let replacement_list = self.parse_replacement_list();
                Ok(PreprocessorDirective::Define(id, replacement_list))
            },
            None => Err(ParseError::ExpectedIdentifier),
        }
    }

    /// Parses what follows `#ifdef`.
    fn parse_ifdef(&mut self) -> (r: Result<PreprocessorDirective, ParseError>)
        ensures
            directed(
                *old(self),
                *final(self),
                r,
                grammar::ifdef(old(self).tokens@, old(self).pos as nat),
            ),
    {
        match self.parse_identifier() {
            Some(id) => Ok(PreprocessorDirective::Ifdef(id)),
            None => Err(ParseError::ExpectedIdentifier),
        }
    }

    /// Parses what follows `#ifndef`.
    fn parse_ifndef(&mut self) -> (r: Result<PreprocessorDirective, ParseError>)
        ensures
            directed(
                *old(self),
                *final(self),
                r,
                grammar::ifndef(old(self).tokens@, old(self).pos as nat),
            ),
    {
        match self.parse_identifier() {
            Some(id) => Ok(PreprocessorDirective::Ifndef(id)),
            None => Err(ParseError::ExpectedIdentifier),
        }
    }

    /// The item of a replacement list that a token stands for.
    fn replacement_item(token: &Token) -> (r: Option<ReplacementItem>)
        ensures
            view_opt(r) == grammar::replacement_item(*token),
    {
        match token {
            Token::Identifier(id) => Some(ReplacementItem::Identifier(id.clone())),
            Token::IntLit(n) => Some(ReplacementItem::Constant(Constant::Integer(*n))),
            Token::FloatLit(f) => Some(ReplacementItem::Constant(Constant::Float(f.clone()))),
            Token::StringLit(s) => Some(ReplacementItem::StringLiteral(s.clone())),
            _ => None,
        }
    }

    /// Parses the replacement list of `#define`.
    fn parse_replacement_list(&mut self) -> (r: Vec<ReplacementItem>)
        ensures
            final(self).tokens == old(self).tokens,
            old(self).pos <= final(self).pos <= final(self).tokens@.len(),
            (view_all(r@), final(self).pos as nat) == grammar::replacement_list_from(
                old(self).tokens@,
                old(self).pos as nat,
                Seq::empty(),
            ),
    {
        let ghost ts = self.tokens@;
        let mut items: Vec<ReplacementItem> = Vec::new();
        assert(view_all(items@) =~= Seq::<ReplacementItemView>::empty());
        proof {
            use_type_invariant(&*self);
        }
        while self.pos < self.tokens.len()
            invariant
                self.tokens == old(self).tokens,
                ts == self.tokens@,
                old(self).pos <= self.pos <= self.tokens@.len(),
                grammar::replacement_list_from(ts, old(self).pos as nat, Seq::empty())
                    == grammar::replacement_list_from(ts, self.pos as nat, view_all(items@)),
            decreases self.tokens@.len() - self.pos,
        {
            let ghost before = view_all(items@);
            match Self::replacement_item(&self.tokens[self.pos]) {
                Some(item) => {
                    items.push(item);
                    assert(view_all(items@) =~= before.push(item@));
                    self.pos += 1;
                },
                None => {
                    return items;
                },
            }
        }
        items
    }

    // -----------------------------------------------------------------------
    // The translation unit
    // -----------------------------------------------------------------------

    /// How many blocks are open before the cursor.
    fn open_blocks(&self) -> (r: usize)
        ensures
            self.pos <= self.tokens@.len(),
            r == brace_depth(self.tokens@, self.pos as nat),
            r <= self.pos,
    {
        proof {
            use_type_invariant(self);
        }
        let mut brace_count: usize = 0;
        let mut i: usize = 0;
        while i < self.pos
            invariant
                i <= self.pos <= self.tokens@.len(),
                brace_count <= i,
                brace_count == brace_depth(self.tokens@, i as nat),
            decreases self.pos - i,
        {
            match &self.tokens[i] {
                Token::BraceL => {
                    brace_count += 1;
                },
                Token::BraceR => {
                    if brace_count > 0 {
                        brace_count -= 1;
                    }
                },
                _ => {},
            }
            i += 1;
        }
        brace_count
    }

    /// Whether no block is open at the cursor.
    fn is_at_top_level(&self) -> (r: bool)
        ensures
            r == grammar::is_at_top_level(self.tokens@, self.pos as nat),
    {
        self.open_blocks() == 0
    }

    /// Skips to the end of the blocks that are open at the cursor.
    fn skip_to_top_level(&mut self)
        ensures
            final(self).tokens == old(self).tokens,
            old(self).pos <= final(self).pos <= final(self).tokens@.len(),
            final(self).pos == grammar::skip_to_top_level(old(self).tokens@, old(self).pos as nat),
            old(self).pos < old(self).tokens@.len() && !grammar::is_at_top_level(
                old(self).tokens@,
                old(self).pos as nat,
            ) ==> old(self).pos < final(self).pos,
    {
        let mut brace_count: usize = self.open_blocks();
        while self.pos < self.tokens.len() && brace_count > 0
            invariant
                self.tokens == old(self).tokens,
                old(self).pos <= self.pos <= self.tokens@.len(),
                brace_count <= self.pos,
                grammar::skip_to_top_level(old(self).tokens@, old(self).pos as nat)
                    == grammar::skip_nested(self.tokens@, self.pos as nat, brace_count as nat),
                old(self).pos < old(self).tokens@.len() && !grammar::is_at_top_level(
                    old(self).tokens@,
                    old(self).pos as nat,
                ) ==> old(self).pos < self.pos || brace_count > 0,
            decreases self.tokens@.len() - self.pos,
        {
            match &self.tokens[self.pos] {
                Token::BraceL => {
                    brace_count += 1;
                },
                Token::BraceR => {
                    brace_count -= 1;
                },
                _ => {},
            }
            self.pos += 1;
        }
    }

    /// Whether a token is an integer, floating-point, string or boolean
    /// literal.
    fn is_literal(token: Option<&Token>) -> (r: bool)
        ensures
            r == grammar::is_literal(referred(token)),
    {
        match token {
            Some(Token::IntLit(_)) => true,
            Some(Token::FloatLit(_)) => true,
            Some(Token::StringLit(_)) => true,
            Some(Token::BoolLit(_)) => true,
            Some(_) => false,
            None => false,
        }
    }

    /// Whether a token is an integer or floating-point literal.
    fn is_number(token: Option<&Token>) -> (r: bool)
        ensures
            r == grammar::is_number(referred(token)),
    {
        match token {
            Some(Token::IntLit(_)) => true,
            Some(Token::FloatLit(_)) => true,
            Some(_) => false,
            None => false,
        }
    }

    /// Whether a token is one of `+ - * /`.
    fn is_arithmetic(token: Option<&Token>) -> (r: bool)
        ensures
            r == grammar::is_arithmetic(referred(token)),
    {
        match token {
            Some(Token::Plus) => true,
            Some(Token::Minus) => true,
            Some(Token::Mult) => true,
            Some(Token::Div) => true,
            Some(_) => false,
            None => false,
        }
    }

    /// Whether a token is a name.
    fn is_name(token: Option<&Token>) -> (r: bool)
        ensures
            r == grammar::is_name(referred(token)),
    {
        match token {
            Some(Token::Identifier(_)) => true,
            Some(_) => false,
            None => false,
        }
    }

    /// Whether a token is a type keyword.
    fn is_any_type(token: Option<&Token>) -> (r: bool)
        ensures
            r == grammar::is_any_type(referred(token)),
    {
        match token {
            Some(Token::Int) => true,
            Some(Token::Float) => true,
            Some(Token::Char) => true,
            Some(Token::Double) => true,
            Some(Token::Long) => true,
            Some(Token::Short) => true,
            Some(Token::Void) => true,
            Some(_) => false,
            None => false,
        }
    }

    /// Whether a token is one of `int float char double`.
    fn is_value_type(token: Option<&Token>) -> (r: bool)
        ensures
            r == grammar::is_value_type(referred(token)),
    {
        match token {
            Some(Token::Int) => true,
            Some(Token::Float) => true,
            Some(Token::Char) => true,
            Some(Token::Double) => true,
            Some(_) => false,
            None => false,
        }
    }

    /// Whether a token is `expected`, a token without text or number.
    fn is_token(token: Option<&Token>, expected: &Token) -> (r: bool)
        ensures
            r == (referred(token) matches Some(t) && t.same(*expected)),
    {
        match token {
            Some(t) => *t == *expected,
            None => false,
        }
    }

    /// The token `offset` places after the cursor, as the grammar sees it.
    fn look(&self, offset: usize) -> (r: Option<&Token>)
        requires
            offset <= 5,
        ensures
            referred(r) == token_at(self.tokens@, (self.pos + offset) as nat),
    {
        self.peek_at(offset)
    }

    /// Looks at the tokens under the cursor for a sharper diagnosis of a
    /// declaration that failed there.
    fn check_for_specific_errors(&self) -> (r: Result<(), ParseError>)
        ensures
            r is Err <==> grammar::specific_error(self.tokens@, self.pos as nat) is Some,
            r matches Err(e) ==> grammar::specific_error(self.tokens@, self.pos as nat) == Some(
                e@,
            ),
    {
        if !self.is_at_top_level() {
            return Ok(());
        }
        let t0 = self.look(0);
        let t1 = self.look(1);
        let t2 = self.look(2);
        let t3 = self.look(3);
        let t4 = self.look(4);
        let t5 = self.look(5);
        if Self::is_any_type(t0) && Self::is_token(t1, &Token::AssignOp) && Self::is_literal(t2) {
            return Err(ParseError::ExpectedIdentifier);
        }
        if Self::is_name(t0) && Self::is_token(t1, &Token::AssignOp) {
            return Err(ParseError::ExpectedTypeToken);
        }
        let declares = Self::is_value_type(t0) && Self::is_name(t1) && Self::is_token(
            t2,
            &Token::AssignOp,
        );
        if declares && Self::is_token(t3, &Token::Semicolon) {
            if Self::is_token(t0, &Token::Int) {
                return Err(ParseError::ExpectedIntLit);
            } else if Self::is_token(t0, &Token::Float) {
                return Err(ParseError::ExpectedFloatLit);
            } else if Self::is_token(t0, &Token::Char) {
                return Err(ParseError::ExpectedStringLit);
            }
        }
        if declares && Self::is_number(t3) && Self::is_arithmetic(t4) && Self::is_token(
            t5,
            &Token::Semicolon,
        ) {
            return Err(
                ParseError::FailedToFindToken("Missing operand after operator".to_owned()),
            );
        }
        Ok(())
    }

    /// The text of the first lexer error among the tokens.
    fn first_lexer_error(&self) -> (r: Option<String>)
        ensures
            view_opt(r) == grammar::lexer_error_from(self.tokens@, 0),
    {
        let mut i: usize = 0;
        while i < self.tokens.len()
            invariant
                i <= self.tokens@.len(),
                grammar::lexer_error_from(self.tokens@, 0) == grammar::lexer_error_from(
                    self.tokens@,
                    i as nat,
                ),
            decreases self.tokens@.len() - i,
        {
            match &self.tokens[i] {
                Token::Error(message) => {
                    return Some(message.clone());
                },
                _ => {},
            }
            i += 1;
        }
        None
    }

    /// Parses the tokens from the cursor on into a translation unit.
    ///
    /// A lexer error anywhere among the tokens fails the whole, and so does
    /// a malformed preprocessor directive that the cursor meets. A
    /// declaration that cannot be parsed is skipped, one token at a time or
    /// up to the end of the block that it left open, and parsing goes on
    /// after it; the only declarations that fail the whole are those for
    /// which the tokens at hand give a sharper diagnosis.
    pub fn parse(&mut self) -> (r: Result<TranslationUnit, ParseError>)
        ensures
            final(self).tokens() == old(self).tokens(),
            view_outcome(r) == grammar::translation_unit(old(self).tokens(), old(self).position()),
            old(self).position() <= final(self).position() <= final(self).tokens().len(),
            r is Ok ==> final(self).position() == final(self).tokens().len(),
    {
        let ghost ts = self.tokens@;
        proof {
            use_type_invariant(&*self);
        }
        if let Some(message) = self.first_lexer_error() {
            let text = String::from_str("Lexer error: ").concat(message.as_str());
            return Err(ParseError::UnexpectedToken(text));
        }
        let mut preprocessor_list: Vec<PreprocessorDirective> = Vec::new();
        let mut external_declarations: Vec<ExternalDeclaration> = Vec::new();
        assert(view_all(preprocessor_list@) =~= Seq::<PreprocessorDirectiveView>::empty());
        assert(view_all(external_declarations@) =~= Seq::<ExternalDeclarationView>::empty());
        loop
            invariant
                self.tokens == old(self).tokens,
                ts == self.tokens@,
                old(self).pos <= self.pos <= self.tokens@.len(),
                grammar::lexer_error_from(ts, 0) is None,
                grammar::translation_unit_from(
                    ts,
                    old(self).pos as nat,
                    Seq::empty(),
                    Seq::empty(),
                ) == grammar::translation_unit_from(
                    ts,
                    self.pos as nat,
                    view_all(preprocessor_list@),
                    view_all(external_declarations@),
                ),
            decreases remaining(ts, self.pos as nat),
        {
            proof {
                lemma_unit_skips_trivia(
                    ts,
                    self.pos as nat,
                    view_all(preprocessor_list@),
                    view_all(external_declarations@),
                );
            }
            self.skip_whitespace();
            if self.pos >= self.tokens.len() {
                proof {
                    lemma_unit_at_end(
                        ts,
                        self.pos as nat,
                        view_all(preprocessor_list@),
                        view_all(external_declarations@),
                    );
                }
                return Ok(Self::unit_of(preprocessor_list, external_declarations));
            }
            match self.parse_item(&mut preprocessor_list, &mut external_declarations) {
                Ok(_) => {},
                Err(e) => {
                    return Err(e);
                },
            }
        }
    }

    /// The translation unit of these directives and declarations.
    fn unit_of(
        preprocessor_list: Vec<PreprocessorDirective>,
        external_declarations: Vec<ExternalDeclaration>,
    ) -> (r: TranslationUnit)
        ensures
            r@ == (TranslationUnitView {
                preprocessor_list: view_all(preprocessor_list@),
                external_declarations: view_all(external_declarations@),
            }),
    {
        TranslationUnit { preprocessor_list, external_declarations }
    }

    /// Parses what stands under the cursor at the top of a translation
    /// unit: a directive, an external declaration, or what is left of a
    /// block.
    fn parse_item(
        &mut self,
        directives: &mut Vec<PreprocessorDirective>,
        declarations: &mut Vec<ExternalDeclaration>,
    ) -> (r: Result<(), ParseError>)
        requires
            old(self).pos < old(self).tokens@.len(),
            trivia_run(old(self).tokens@, old(self).pos as nat) == 0,
        ensures
            final(self).tokens == old(self).tokens,
            old(self).pos <= final(self).pos <= final(self).tokens@.len(),
            r is Ok ==> old(self).pos < final(self).pos && grammar::translation_unit_from(
                old(self).tokens@,
                old(self).pos as nat,
                view_all(old(directives)@),
                view_all(old(declarations)@),
            ) == grammar::translation_unit_from(
                old(self).tokens@,
                final(self).pos as nat,
                view_all(final(directives)@),
                view_all(final(declarations)@),
            ),
            r matches Err(e) ==> grammar::translation_unit_from(
                old(self).tokens@,
                old(self).pos as nat,
                view_all(old(directives)@),
                view_all(old(declarations)@),
            ) == Err::<TranslationUnitView, ParseErrorView>(e@),
    {
        let ghost before_directives = view_all(directives@);
        let ghost before_declarations = view_all(declarations@);
        proof {
            reveal_with_fuel(grammar::translation_unit_from, 1);
        }
        let at_directive = match self.peek() {
            Some(Token::Preprocessor(_)) => true,
            Some(_) => false,
            None => false,
        };
        if at_directive {
            match self.parse_preprocessor_directive() {
                Ok(directive) => {
                    directives.push(directive);
                    assert(view_all(directives@) =~= before_directives.push(directive@));
                    Ok(())
                },
                Err(e) => Err(e),
            }
        } else if self.is_at_top_level() {
            match self.parse_external_declaration() {
                Some(decl) => {
                    declarations.push(decl);
                    assert(view_all(declarations@) =~= before_declarations.push(decl@));
                    Ok(())
                },
                None => {
                    match self.check_for_specific_errors() {
                        Ok(_) => {},
                        Err(e) => {
                            return Err(e);
                        },
                    }
                    assert(self.pos < self.tokens.len());
                    self.pos += 1;
                    Ok(())
                },
            }
        } else {
            self.skip_to_top_level();
            Ok(())
        }
    }
}

} // verus!
