//! The grammar of MiniC as functions on token sequences.
//!
//! Each function says what one parsing step does at a position of a token
//! sequence: the syntax tree it yields, if any, and the position after it.
//! A step that fails still says how far it got, because recovery goes on
//! from there. The parser is proved to compute exactly these functions.
//!
//! Positions never move backwards. Every function reads the results of its
//! own recursive uses with [`Parsed::after`], which makes this plain where
//! termination depends on it; the laws of the grammar prove it of every
//! result, so that this reading changes nothing.

use crate::lexer_regex::Token;
use crate::parser::ast::{
    AssignmentOperator, BinaryOperator, ConstantView, DeclaratorView, ExpressionView,
    ExternalDeclarationView, FunctionDeclarationView, FunctionDefinitionView, InitializerKindView,
    InitializerView, ParameterView, ParseErrorView, PostfixOperator, PreprocessorDirectiveView,
    ReplacementItemView, StatementView, StorageClass, TranslationUnitView, TypeQualifier,
    TypeSpecifier, UnaryOperator, VariableDeclarationView,
};
use vstd::prelude::*;

verus! {

/// The outcome of a parsing step: what it yields, and the position after it.
pub struct Parsed<T> {
    pub value: Option<T>,
    pub next: nat,
}

impl<T> Parsed<T> {
    /// The outcome, with its position read as lying at `pos` or later.
    pub open spec fn after(self, pos: nat) -> Self {
        Parsed {
            value: self.value,
            next: if self.next < pos {
                pos
            } else {
                self.next
            },
        }
    }
}

/// A step that yields `value` and ends at `next`.
pub open spec fn done<T>(value: T, next: nat) -> Parsed<T> {
    Parsed { value: Some(value), next }
}

/// A step that fails at `next`.
pub open spec fn fail<T>(next: nat) -> Parsed<T> {
    Parsed { value: None, next }
}

/// How many tokens lie at `pos` and after it.
pub open spec fn remaining(ts: Seq<Token>, pos: nat) -> nat {
    if pos < ts.len() {
        (ts.len() - pos) as nat
    } else {
        0
    }
}

/// The token at `pos`, if there is one.
pub open spec fn token_at(ts: Seq<Token>, pos: nat) -> Option<Token> {
    if pos < ts.len() {
        Some(ts[pos as int])
    } else {
        None
    }
}

/// Whether the token at `pos` is `expected`.
pub open spec fn is_at(ts: Seq<Token>, pos: nat, expected: Token) -> bool {
    pos < ts.len() && ts[pos as int].same(expected)
}

/// The position after the token at `pos`; `pos` itself at the end.
pub open spec fn step(ts: Seq<Token>, pos: nat) -> nat {
    if pos < ts.len() {
        pos + 1
    } else {
        pos
    }
}

/// The position after `expected`, where it stands at `pos`; else `pos`.
pub open spec fn skip_optional(ts: Seq<Token>, pos: nat, expected: Token) -> nat {
    if is_at(ts, pos, expected) {
        pos + 1
    } else {
        pos
    }
}

/// How many comments and lexer errors stand in a row at `pos`.
pub open spec fn trivia_run(ts: Seq<Token>, pos: nat) -> nat
    decreases remaining(ts, pos),
{
    if pos < ts.len() && ts[pos as int].is_trivia() {
        1 + trivia_run(ts, pos + 1)
    } else {
        0
    }
}

/// The first position at or after `pos` that holds neither a comment nor a
/// lexer error.
pub open spec fn skip_trivia(ts: Seq<Token>, pos: nat) -> nat {
    pos + trivia_run(ts, pos)
}

// ---------------------------------------------------------------------------
// Operators
// ---------------------------------------------------------------------------

/// The number of precedence levels of binary operators.
pub open spec fn binary_levels() -> nat {
    10
}

/// The binary operator that a token denotes at a precedence level. Levels
/// run from the loosest, 0, to the tightest, 9: `||`, `&&`, `|`, `^`, `&`,
/// equality, relational, shift, additive, multiplicative.
pub open spec fn binary_operator(level: nat, token: Token) -> Option<BinaryOperator> {
    if level == 0 {
        match token {
            Token::OrOp => Some(BinaryOperator::Or),
            _ => None,
        }
    } else if level == 1 {
        match token {
            Token::AndOp => Some(BinaryOperator::And),
            _ => None,
        }
    } else if level == 2 {
        match token {
            Token::BitOrOp => Some(BinaryOperator::BitOr),
            _ => None,
        }
    } else if level == 3 {
        match token {
            Token::Xor => Some(BinaryOperator::Xor),
            _ => None,
        }
    } else if level == 4 {
        match token {
            Token::BitAndOp => Some(BinaryOperator::BitAnd),
            _ => None,
        }
    } else if level == 5 {
        match token {
            Token::EqualsOp => Some(BinaryOperator::Equals),
            Token::NotEqualsOp => Some(BinaryOperator::NotEquals),
            _ => None,
        }
    } else if level == 6 {
        match token {
            Token::LessOp => Some(BinaryOperator::Less),
            Token::GreaterOp => Some(BinaryOperator::Greater),
            Token::LessEqOp => Some(BinaryOperator::LessEq),
            Token::GreaterEqOp => Some(BinaryOperator::GreaterEq),
            _ => None,
        }
    } else if level == 7 {
        match token {
            Token::LShift => Some(BinaryOperator::LShift),
            Token::RShift => Some(BinaryOperator::RShift),
            _ => None,
        }
    } else if level == 8 {
        match token {
            Token::Plus => Some(BinaryOperator::Plus),
            Token::Minus => Some(BinaryOperator::Minus),
            _ => None,
        }
    } else if level == 9 {
        match token {
            Token::Mult => Some(BinaryOperator::Mult),
            Token::Div => Some(BinaryOperator::Div),
            Token::Mod => Some(BinaryOperator::Mod),
            _ => None,
        }
    } else {
        None
    }
}

/// The assignment operator that a token denotes.
pub open spec fn assignment_operator(token: Token) -> Option<AssignmentOperator> {
    match token {
        Token::AssignOp => Some(AssignmentOperator::Assign),
        Token::PlusAssign => Some(AssignmentOperator::PlusAssign),
        Token::MinusAssign => Some(AssignmentOperator::MinusAssign),
        Token::MultAssign => Some(AssignmentOperator::MultAssign),
        Token::DivAssign => Some(AssignmentOperator::DivAssign),
        Token::ModAssign => Some(AssignmentOperator::ModAssign),
        Token::LShiftAssign => Some(AssignmentOperator::LShiftAssign),
        Token::RShiftAssign => Some(AssignmentOperator::RShiftAssign),
        Token::AndAssign => Some(AssignmentOperator::AndAssign),
        Token::XorAssign => Some(AssignmentOperator::XorAssign),
        Token::OrAssign => Some(AssignmentOperator::OrAssign),
        _ => None,
    }
}

/// The prefix operator that a token denotes.
pub open spec fn prefix_operator(token: Token) -> Option<UnaryOperator> {
    match token {
        Token::Plus => Some(UnaryOperator::Plus),
        Token::Minus => Some(UnaryOperator::Minus),
        Token::Not => Some(UnaryOperator::Not),
        Token::BitAndOp => Some(UnaryOperator::AddressOf),
        Token::Mult => Some(UnaryOperator::Dereference),
        Token::PlusPlus => Some(UnaryOperator::PreIncrement),
        Token::MinusMinus => Some(UnaryOperator::PreDecrement),
        _ => None,
    }
}

/// The type that a keyword names.
pub open spec fn type_of_keyword(token: Token) -> Option<TypeSpecifier> {
    match token {
        Token::Int => Some(TypeSpecifier::Int),
        Token::Float => Some(TypeSpecifier::Float),
        Token::Char => Some(TypeSpecifier::Char),
        Token::Double => Some(TypeSpecifier::Double),
        Token::Void => Some(TypeSpecifier::Void),
        Token::Long => Some(TypeSpecifier::Long),
        Token::Short => Some(TypeSpecifier::Short),
        _ => None,
    }
}

/// The name of the type that a keyword names.
pub open spec fn name_of_keyword(token: Token) -> Option<Seq<char>> {
    match token {
        Token::Int => Some("int"@),
        Token::Float => Some("float"@),
        Token::Char => Some("char"@),
        Token::Double => Some("double"@),
        Token::Void => Some("void"@),
        Token::Long => Some("long"@),
        Token::Short => Some("short"@),
        _ => None,
    }
}

// ---------------------------------------------------------------------------
// Expressions
// ---------------------------------------------------------------------------

/// A whole expression: an assignment expression.
pub open spec fn expression(ts: Seq<Token>, pos: nat) -> Parsed<ExpressionView>
    decreases remaining(ts, pos), 39nat,
{
    assignment_expression(ts, pos)
}

/// An assignment: a conditional expression, then any number of assignment
/// operators, each followed by an assignment of its own. The recursion on
/// the right makes `a = b = c` mean `a = (b = c)`.
pub open spec fn assignment_expression(ts: Seq<Token>, pos: nat) -> Parsed<ExpressionView>
    decreases remaining(ts, pos), 38nat,
{
    let left = conditional_expression(ts, pos).after(pos);
    match left.value {
        Some(target) => assignment_rest(ts, left.next, target),
        None => left,
    }
}

/// What follows the target `left` of an assignment.
pub open spec fn assignment_rest(ts: Seq<Token>, pos: nat, left: ExpressionView) -> Parsed<
    ExpressionView,
>
    decreases remaining(ts, pos), 37nat,
{
    match token_at(ts, pos) {
        Some(token) => match assignment_operator(token) {
            Some(op) => {
                let right = assignment_expression(ts, pos + 1).after(pos + 1);
                match right.value {
                    Some(source) => assignment_rest(
                        ts,
                        right.next,
                        ExpressionView::Assignment(Box::new(left), op, Box::new(source)),
                    ),
                    None => fail(right.next),
                }
            },
            None => done(left, pos),
        },
        None => done(left, pos),
    }
}

/// A conditional: a binary expression, then perhaps `?`, an expression, `:`
/// and a conditional of its own.
pub open spec fn conditional_expression(ts: Seq<Token>, pos: nat) -> Parsed<ExpressionView>
    decreases remaining(ts, pos), 36nat,
{
    let condition = binary_expression(ts, pos, 0).after(pos);
    match condition.value {
        Some(c) => if is_at(ts, condition.next, Token::Question) {
            let first = expression(ts, condition.next + 1).after(condition.next + 1);
            match first.value {
                Some(t) => if is_at(ts, first.next, Token::Colon) {
                    let second = conditional_expression(ts, first.next + 1).after(first.next + 1);
                    match second.value {
                        Some(f) => done(
                            ExpressionView::Conditional(Box::new(c), Box::new(t), Box::new(f)),
                            second.next,
                        ),
                        None => fail(second.next),
                    }
                } else {
                    fail(first.next)
                },
                None => fail(first.next),
            }
        } else {
            condition
        },
        None => condition,
    }
}

/// A binary expression at a precedence level: an operand of the next
/// tighter level, then any number of operators of this level, each followed
/// by such an operand. Operators of one level group to the left; past the
/// tightest level the operand is a unary expression.
pub open spec fn binary_expression(ts: Seq<Token>, pos: nat, level: nat) -> Parsed<ExpressionView>
    decreases remaining(ts, pos), (if level < 10 { 25 - 2 * level } else { 5 }) as nat,
{
    if level >= binary_levels() {
        unary_expression(ts, pos)
    } else {
        let left = binary_expression(ts, pos, level + 1).after(pos);
        match left.value {
            Some(operand) => binary_rest(ts, left.next, level, operand),
            None => left,
        }
    }
}

/// What follows the left operand `left` at a precedence level.
pub open spec fn binary_rest(ts: Seq<Token>, pos: nat, level: nat, left: ExpressionView) -> Parsed<
    ExpressionView,
>
    decreases remaining(ts, pos), (if level < 10 { 24 - 2 * level } else { 0 }) as nat,
{
    if level >= binary_levels() {
        done(left, pos)
    } else {
        match token_at(ts, pos) {
            Some(token) => match binary_operator(level, token) {
                Some(op) => {
                    let right = binary_expression(ts, pos + 1, level + 1).after(pos + 1);
                    match right.value {
                        Some(operand) => binary_rest(
                            ts,
                            right.next,
                            level,
                            ExpressionView::BinaryOp(Box::new(left), op, Box::new(operand)),
                        ),
                        None => fail(right.next),
                    }
                },
                None => done(left, pos),
            },
            None => done(left, pos),
        }
    }
}

/// A unary expression: a prefix operator and its operand, or a postfix
/// expression. Where the operand of a prefix operator fails, a postfix
/// expression is tried from where the failure ended.
pub open spec fn unary_expression(ts: Seq<Token>, pos: nat) -> Parsed<ExpressionView>
    decreases remaining(ts, pos), 4nat,
{
    match token_at(ts, pos) {
        Some(token) => match prefix_operator(token) {
            Some(op) => {
                let operand = unary_expression(ts, pos + 1).after(pos + 1);
                match operand.value {
                    Some(e) => done(ExpressionView::UnaryOp(op, Box::new(e)), operand.next),
                    None => postfix_expression(ts, operand.next),
                }
            },
            None => postfix_expression(ts, pos),
        },
        None => postfix_expression(ts, pos),
    }
}

/// A postfix expression: a primary expression, then any number of calls,
/// indexings, member accesses and postfix operators.
pub open spec fn postfix_expression(ts: Seq<Token>, pos: nat) -> Parsed<ExpressionView>
    decreases remaining(ts, pos), 3nat,
{
    let primary = primary_expression(ts, pos).after(pos);
    match primary.value {
        Some(e) => postfix_rest(ts, primary.next, e),
        None => primary,
    }
}

/// The expression that a call with these arguments makes of `callee`: a
/// call where the callee is a name; else the callee itself, the arguments
/// dropped.
pub open spec fn call_of(callee: ExpressionView, args: Seq<ExpressionView>) -> ExpressionView {
    match callee {
        ExpressionView::Identifier(name) => ExpressionView::FunctionCall(name, args),
        _ => callee,
    }
}

/// What one postfix operation makes of the operand `expr`.
pub struct PostfixStep {
    /// The expression after the operation; `expr` itself where none was
    /// completed.
    pub expr: ExpressionView,
    /// The position after what was read.
    pub next: nat,
    /// Whether an operation was completed.
    pub applied: bool,
}

/// One postfix operation at `pos` on the operand `expr`: a call, an
/// indexing, a member access through `.` or `->`, or `++` or `--`. An
/// operation that cannot be completed consumes what it read and leaves the
/// operand as it is.
pub open spec fn postfix_operation(ts: Seq<Token>, pos: nat, expr: ExpressionView) -> PostfixStep
    decreases remaining(ts, pos), 1nat,
{
    match token_at(ts, pos) {
        Some(Token::ParenL) => {
            let args = call_arguments(ts, pos + 1);
            let end = if args.1 < pos + 1 {
                pos + 1
            } else {
                args.1
            };
            if is_at(ts, end, Token::ParenR) {
                PostfixStep { expr: call_of(expr, args.0), next: end + 1, applied: true }
            } else {
                PostfixStep { expr, next: end, applied: false }
            }
        },
        Some(Token::BracketL) => {
            let index = expression(ts, pos + 1).after(pos + 1);
            match index.value {
                Some(i) => if is_at(ts, index.next, Token::BracketR) {
                    PostfixStep {
                        expr: ExpressionView::ArrayAccess(Box::new(expr), Box::new(i)),
                        next: index.next + 1,
                        applied: true,
                    }
                } else {
                    PostfixStep { expr, next: index.next, applied: false }
                },
                None => PostfixStep { expr, next: index.next, applied: false },
            }
        },
        Some(Token::Dot) => match token_at(ts, pos + 1) {
            Some(Token::Identifier(member)) => PostfixStep {
                expr: ExpressionView::MemberAccess(Box::new(expr), member@),
                next: pos + 2,
                applied: true,
            },
            _ => PostfixStep { expr, next: step(ts, pos + 1), applied: false },
        },
        Some(Token::Arrow) => match token_at(ts, pos + 1) {
            Some(Token::Identifier(member)) => PostfixStep {
                expr: ExpressionView::PointerAccess(Box::new(expr), member@),
                next: pos + 2,
                applied: true,
            },
            _ => PostfixStep { expr, next: step(ts, pos + 1), applied: false },
        },
        Some(Token::PlusPlus) => PostfixStep {
            expr: ExpressionView::PostfixOp(Box::new(expr), PostfixOperator::PlusPlus),
            next: pos + 1,
            applied: true,
        },
        Some(Token::MinusMinus) => PostfixStep {
            expr: ExpressionView::PostfixOp(Box::new(expr), PostfixOperator::MinusMinus),
            next: pos + 1,
            applied: true,
        },
        _ => PostfixStep { expr, next: pos, applied: false },
    }
}

/// What follows the operand `expr` of postfix operations: operations are
/// applied one after another until one is not completed; the expression
/// ends there, with what was parsed before.
pub open spec fn postfix_rest(ts: Seq<Token>, pos: nat, expr: ExpressionView) -> Parsed<
    ExpressionView,
>
    decreases remaining(ts, pos), 2nat,
{
    let operation = postfix_operation(ts, pos, expr);
    if operation.applied && pos < operation.next && pos < ts.len() {
        postfix_rest(ts, operation.next, operation.expr)
    } else {
        done(operation.expr, operation.next)
    }
}

/// The arguments of a call, from the position after its `(`: none where
/// `)` stands there; else one expression, then any number of `,` each
/// followed by an expression. An argument that fails is left out.
pub open spec fn call_arguments(ts: Seq<Token>, pos: nat) -> (Seq<ExpressionView>, nat)
    decreases remaining(ts, pos), 41nat,
{
    if is_at(ts, pos, Token::ParenR) {
        (Seq::empty(), pos)
    } else {
        let first = expression(ts, pos).after(pos);
        more_arguments(
            ts,
            first.next,
            match first.value {
                Some(e) => seq![e],
                None => Seq::empty(),
            },
        )
    }
}

/// The arguments of a call after those in `args`.
pub open spec fn more_arguments(ts: Seq<Token>, pos: nat, args: Seq<ExpressionView>) -> (
    Seq<ExpressionView>,
    nat,
)
    decreases remaining(ts, pos), 40nat,
{
    if is_at(ts, pos, Token::Comma) {
        let arg = expression(ts, pos + 1).after(pos + 1);
        more_arguments(
            ts,
            arg.next,
            match arg.value {
                Some(e) => args.push(e),
                None => args,
            },
        )
    } else {
        (args, pos)
    }
}

/// A primary expression: a name, an integer, floating-point or string
/// literal, or an expression in parentheses. Any other token is consumed
/// and fails.
pub open spec fn primary_expression(ts: Seq<Token>, pos: nat) -> Parsed<ExpressionView>
    decreases remaining(ts, pos), 0nat,
{
    match token_at(ts, pos) {
        Some(Token::Identifier(name)) => done(ExpressionView::Identifier(name@), pos + 1),
        Some(Token::IntLit(n)) => done(
            ExpressionView::Constant(ConstantView::Integer(n)),
            pos + 1,
        ),
        Some(Token::FloatLit(digits)) => done(
            ExpressionView::Constant(ConstantView::Float(digits@)),
            pos + 1,
        ),
        Some(Token::StringLit(text)) => done(ExpressionView::StringLiteral(text@), pos + 1),
        Some(Token::ParenL) => {
            let inner = expression(ts, pos + 1).after(pos + 1);
            match inner.value {
                Some(e) => if is_at(ts, inner.next, Token::ParenR) {
                    done(e, inner.next + 1)
                } else {
                    fail(inner.next)
                },
                None => inner,
            }
        },
        Some(_) => fail(pos + 1),
        None => fail(pos),
    }
}

// ---------------------------------------------------------------------------
// Declarations
// ---------------------------------------------------------------------------

/// The type specifier that the token at `pos` names. The token is consumed
/// whether it names one or not.
pub open spec fn type_specifier(ts: Seq<Token>, pos: nat) -> Parsed<TypeSpecifier> {
    match token_at(ts, pos) {
        Some(token) => Parsed { value: type_of_keyword(token), next: pos + 1 },
        None => fail(pos),
    }
}

/// The name of the type that the token at `pos` names. The token is
/// consumed whether it names one or not.
pub open spec fn kind_name(ts: Seq<Token>, pos: nat) -> Parsed<Seq<char>> {
    match token_at(ts, pos) {
        Some(token) => Parsed { value: name_of_keyword(token), next: pos + 1 },
        None => fail(pos),
    }
}

/// The identifier at `pos`. The token there is consumed whether it is one
/// or not.
pub open spec fn identifier(ts: Seq<Token>, pos: nat) -> Parsed<Seq<char>> {
    match token_at(ts, pos) {
        Some(Token::Identifier(name)) => done(name@, pos + 1),
        Some(_) => fail(pos + 1),
        None => fail(pos),
    }
}

/// The declaration of the plain variable `name` of type `specifier`.
pub open spec fn plain_variable(
    specifier: TypeSpecifier,
    name: Seq<char>,
    initializer: Option<ExpressionView>,
) -> VariableDeclarationView {
    VariableDeclarationView {
        storage_class: None,
        type_qualifiers: Seq::empty(),
        type_specifier: specifier,
        declarator: DeclaratorView {
            name,
            pointer_depth: 0,
            array_sizes: Seq::empty(),
            function_params: None,
        },
        initializer: match initializer {
            Some(e) => Some(InitializerView { kind: InitializerKindView::Assignment(e) }),
            None => None,
        },
    }
}

/// A variable declaration: a type specifier, a name, perhaps `=` and an
/// initializer, and `;`. An initializer that fails is left out.
pub open spec fn variable_declaration(ts: Seq<Token>, pos: nat) -> Parsed<VariableDeclarationView> {
    let specifier = type_specifier(ts, pos);
    match specifier.value {
        Some(spec) => {
            let name = identifier(ts, skip_trivia(ts, specifier.next));
            match name.value {
                Some(n) => {
                    let init = if is_at(ts, name.next, Token::AssignOp) {
                        expression(ts, name.next + 1).after(name.next + 1)
                    } else {
                        fail(name.next)
                    };
                    if is_at(ts, init.next, Token::Semicolon) {
                        done(plain_variable(spec, n, init.value), init.next + 1)
                    } else {
                        fail(init.next)
                    }
                },
                None => fail(name.next),
            }
        },
        None => fail(specifier.next),
    }
}

/// A parameter: the name of a type and a name.
pub open spec fn parameter(ts: Seq<Token>, pos: nat) -> Parsed<ParameterView> {
    let kind = kind_name(ts, pos);
    match kind.value {
        Some(param_type) => {
            let name = identifier(ts, skip_trivia(ts, kind.next));
            match name.value {
                Some(n) => done(ParameterView { param_type, name: n }, name.next),
                None => fail(name.next),
            }
        },
        None => fail(kind.next),
    }
}

/// The parameters of a function after those in `params`, up to `)` or the
/// first parameter that fails; parameters are separated by `,`.
pub open spec fn parameter_list_from(ts: Seq<Token>, pos: nat, params: Seq<ParameterView>) -> (
    Seq<ParameterView>,
    nat,
)
    decreases remaining(ts, pos),
{
    if pos >= ts.len() || is_at(ts, pos, Token::ParenR) {
        (params, pos)
    } else {
        let start = skip_trivia(ts, pos);
        if start >= ts.len() || is_at(ts, start, Token::ParenR) {
            (params, start)
        } else {
            let param = parameter(ts, start);
            match param.value {
                Some(p) => if is_at(ts, param.next, Token::Comma) {
                    parameter_list_from(ts, param.next + 1, params.push(p))
                } else {
                    (params.push(p), param.next)
                },
                None => (params, param.next),
            }
        }
    }
}

/// The parameters of a function, from the position after its `(`.
pub open spec fn parameter_list(ts: Seq<Token>, pos: nat) -> (Seq<ParameterView>, nat) {
    parameter_list_from(ts, pos, Seq::empty())
}

/// The position after the `}` that closes the block that is open `depth`
/// deep at `pos`; none where the tokens end first.
pub open spec fn matching_brace(ts: Seq<Token>, pos: nat, depth: nat) -> Option<nat>
    decreases remaining(ts, pos),
{
    if pos >= ts.len() {
        None
    } else {
        match ts[pos as int] {
            Token::BraceL => matching_brace(ts, pos + 1, depth + 1),
            Token::BraceR => if depth <= 1 {
                Some(pos + 1)
            } else {
                matching_brace(ts, pos + 1, (depth - 1) as nat)
            },
            _ => matching_brace(ts, pos + 1, depth),
        }
    }
}

/// The head of a function: the name of its return type, its name, and its
/// parameters in parentheses. A head that fails after its type leaves the
/// position where it began.
pub open spec fn function_head(ts: Seq<Token>, pos: nat) -> Parsed<
    (Seq<char>, Seq<char>, Seq<ParameterView>),
> {
    let kind = kind_name(ts, pos);
    match kind.value {
        Some(return_type) => {
            let name = identifier(ts, skip_trivia(ts, kind.next));
            match name.value {
                Some(n) => if is_at(ts, name.next, Token::ParenL) {
                    let params = parameter_list(ts, name.next + 1);
                    if is_at(ts, params.1, Token::ParenR) {
                        done((return_type, n, params.0), params.1 + 1)
                    } else {
                        fail(pos)
                    }
                } else {
                    fail(pos)
                },
                None => fail(pos),
            }
        },
        None => fail(kind.next),
    }
}

/// A prototype: the head of a function and `;`.
pub open spec fn function_declaration(ts: Seq<Token>, pos: nat) -> Parsed<FunctionDeclarationView> {
    let head = function_head(ts, pos);
    match head.value {
        Some(h) => if is_at(ts, head.next, Token::Semicolon) {
            done(
                FunctionDeclarationView { return_type: h.0, name: h.1, parameters: h.2 },
                head.next + 1,
            )
        } else {
            fail(pos)
        },
        None => fail(head.next),
    }
}

/// A function definition: the head of a function, `{`, the statements of
/// its body, and what follows them up to the matching `}`.
pub open spec fn function_definition(ts: Seq<Token>, pos: nat) -> Parsed<FunctionDefinitionView> {
    let head = function_head(ts, pos);
    match head.value {
        Some(h) => if is_at(ts, head.next, Token::BraceL) {
            let body = statement_list(ts, head.next + 1);
            match matching_brace(ts, body.1, 1) {
                Some(end) => done(
                    FunctionDefinitionView {
                        return_type: h.0,
                        name: h.1,
                        parameters: h.2,
                        body: body.0,
                    },
                    end,
                ),
                None => fail(pos),
            }
        } else {
            fail(pos)
        },
        None => fail(head.next),
    }
}

/// Whether what stands at `pos` begins like a function: a type keyword, a
/// name and `(`.
pub open spec fn is_function_start(ts: Seq<Token>, pos: nat) -> bool {
    &&& pos < ts.len()
    &&& ts[pos as int].is_type_keyword()
    &&& token_at(ts, skip_trivia(ts, pos + 1)) matches Some(Token::Identifier(_))
    &&& is_at(
        ts,
        skip_trivia(ts, skip_trivia(ts, pos + 1) + 1),
        Token::ParenL,
    )
}

/// A function definition or, failing that, a prototype, where what stands
/// at `pos` begins like a function.
pub open spec fn function(ts: Seq<Token>, pos: nat) -> Parsed<ExternalDeclarationView> {
    if is_function_start(ts, pos) {
        let definition = function_definition(ts, pos);
        match definition.value {
            Some(f) => done(ExternalDeclarationView::Function(f), definition.next),
            None => {
                let declaration = function_declaration(ts, pos);
                match declaration.value {
                    Some(d) => done(
                        ExternalDeclarationView::FunctionDeclaration(d),
                        declaration.next,
                    ),
                    None => fail(pos),
                }
            },
        }
    } else {
        fail(pos)
    }
}

/// An external declaration: after comments, perhaps `static` and perhaps
/// `const`, then a function definition, a prototype or a variable
/// declaration, tried in this order. `static` and `const` become the
/// storage class and the qualifier of a variable. A declaration that fails
/// leaves the position after the comments.
pub open spec fn external_declaration(ts: Seq<Token>, pos: nat) -> Parsed<ExternalDeclarationView> {
    let start = skip_trivia(ts, pos);
    let after_static = skip_optional(ts, start, Token::Static);
    let after_const = skip_optional(ts, after_static, Token::Const);
    if after_const < ts.len() && ts[after_const as int].is_type_keyword() {
        let function = function(ts, after_const);
        match function.value {
            Some(f) => function,
            None => {
                let variable = variable_declaration(ts, after_const);
                match variable.value {
                    Some(v) => done(
                        ExternalDeclarationView::Variable(
                            VariableDeclarationView {
                                storage_class: if is_at(ts, start, Token::Static) {
                                    Some(StorageClass::Static)
                                } else {
                                    None
                                },
                                type_qualifiers: if is_at(ts, after_static, Token::Const) {
                                    seq![TypeQualifier::Const]
                                } else {
                                    Seq::empty()
                                },
                                ..v
                            },
                        ),
                        variable.next,
                    ),
                    None => fail(start),
                }
            },
        }
    } else {
        fail(start)
    }
}

// ---------------------------------------------------------------------------
// Statements
// ---------------------------------------------------------------------------

/// A statement, after comments: `return`, `if`, `while`, `for`, `break`, a
/// block, a declaration where a type keyword other than `void` stands,
/// `do`, `switch`, `case`, `default`, `continue`, `goto`, a labeled
/// statement where a name and `:` stand, or an expression statement.
pub open spec fn statement(ts: Seq<Token>, pos: nat) -> Parsed<StatementView>
    decreases remaining(ts, pos), 10nat,
{
    let start = skip_trivia(ts, pos);
    match token_at(ts, start) {
        Some(Token::Return) => return_statement(ts, start),
        Some(Token::If) => if_statement(ts, start),
        Some(Token::While) => while_statement(ts, start),
        Some(Token::For) => for_statement(ts, start),
        Some(Token::Break) => break_statement(ts, start),
        Some(Token::BraceL) => block_statement(ts, start),
        Some(Token::Int) => declaration_statement(ts, start),
        Some(Token::Float) => declaration_statement(ts, start),
        Some(Token::Char) => declaration_statement(ts, start),
        Some(Token::Double) => declaration_statement(ts, start),
        Some(Token::Long) => declaration_statement(ts, start),
        Some(Token::Short) => declaration_statement(ts, start),
        Some(Token::Do) => do_statement(ts, start),
        Some(Token::Switch) => switch_statement(ts, start),
        Some(Token::Case) => case_statement(ts, start),
        Some(Token::Default) => default_statement(ts, start),
        Some(Token::Continue) => continue_statement(ts, start),
        Some(Token::Goto) => goto_statement(ts, start),
        Some(Token::Identifier(_)) => if is_at(ts, start + 1, Token::Colon) {
            labeled_statement(ts, start)
        } else {
            expression_statement(ts, start)
        },
        _ => expression_statement(ts, start),
    }
}

/// `do`, a statement, `while`, a condition and perhaps `;`.
pub open spec fn do_statement(ts: Seq<Token>, pos: nat) -> Parsed<StatementView>
    decreases remaining(ts, pos), 5nat,
{
    if is_at(ts, pos, Token::Do) {
        let body = statement(ts, pos + 1).after(pos + 1);
        match body.value {
            Some(b) => if is_at(ts, body.next, Token::While) {
                let test = condition(ts, body.next + 1).after(body.next + 1);
                match test.value {
                    Some(c) => done(
                        StatementView::DoWhile(Box::new(b), c),
                        skip_optional(ts, test.next, Token::Semicolon),
                    ),
                    None => fail(test.next),
                }
            } else {
                fail(body.next)
            },
            None => fail(body.next),
        }
    } else {
        fail(pos)
    }
}

/// `switch`, a condition and a statement.
pub open spec fn switch_statement(ts: Seq<Token>, pos: nat) -> Parsed<StatementView>
    decreases remaining(ts, pos), 5nat,
{
    if is_at(ts, pos, Token::Switch) {
        let test = condition(ts, pos + 1).after(pos + 1);
        match test.value {
            Some(c) => {
                let body = statement(ts, test.next).after(test.next);
                match body.value {
                    Some(b) => done(StatementView::Switch(c, Box::new(b)), body.next),
                    None => fail(body.next),
                }
            },
            None => fail(test.next),
        }
    } else {
        fail(pos)
    }
}

/// `case`, an expression, `:` and a statement.
pub open spec fn case_statement(ts: Seq<Token>, pos: nat) -> Parsed<StatementView>
    decreases remaining(ts, pos), 5nat,
{
    if is_at(ts, pos, Token::Case) {
        let value = expression(ts, pos + 1).after(pos + 1);
        match value.value {
            Some(v) => if is_at(ts, value.next, Token::Colon) {
                let body = statement(ts, value.next + 1).after(value.next + 1);
                match body.value {
                    Some(b) => done(StatementView::Case(v, Box::new(b)), body.next),
                    None => fail(body.next),
                }
            } else {
                fail(value.next)
            },
            None => fail(value.next),
        }
    } else {
        fail(pos)
    }
}

/// `default`, `:` and a statement.
pub open spec fn default_statement(ts: Seq<Token>, pos: nat) -> Parsed<StatementView>
    decreases remaining(ts, pos), 5nat,
{
    if is_at(ts, pos, Token::Default) {
        if is_at(ts, pos + 1, Token::Colon) {
            let body = statement(ts, pos + 2).after(pos + 2);
            match body.value {
                Some(b) => done(StatementView::Default(Box::new(b)), body.next),
                None => fail(body.next),
            }
        } else {
            fail(pos + 1)
        }
    } else {
        fail(pos)
    }
}

/// `continue` and perhaps `;`.
pub open spec fn continue_statement(ts: Seq<Token>, pos: nat) -> Parsed<StatementView> {
    if is_at(ts, pos, Token::Continue) {
        done(StatementView::Continue, skip_optional(ts, pos + 1, Token::Semicolon))
    } else {
        fail(pos)
    }
}

/// `goto`, a label and perhaps `;`.
pub open spec fn goto_statement(ts: Seq<Token>, pos: nat) -> Parsed<StatementView> {
    if is_at(ts, pos, Token::Goto) {
        let label = identifier(ts, pos + 1);
        match label.value {
            Some(l) => done(
                StatementView::Goto(l),
                skip_optional(ts, label.next, Token::Semicolon),
            ),
            None => fail(label.next),
        }
    } else {
        fail(pos)
    }
}

/// A label, `:` and a statement.
pub open spec fn labeled_statement(ts: Seq<Token>, pos: nat) -> Parsed<StatementView>
    decreases remaining(ts, pos), 5nat,
{
    match token_at(ts, pos) {
        Some(Token::Identifier(label)) => if is_at(ts, pos + 1, Token::Colon) {
            let body = statement(ts, pos + 2).after(pos + 2);
            match body.value {
                Some(b) => done(StatementView::Labeled(label@, Box::new(b)), body.next),
                None => fail(body.next),
            }
        } else {
            fail(pos)
        },
        _ => fail(pos),
    }
}

/// `return`, perhaps a value, perhaps `;`. A value that fails is left out.
pub open spec fn return_statement(ts: Seq<Token>, pos: nat) -> Parsed<StatementView> {
    if is_at(ts, pos, Token::Return) {
        let start = skip_trivia(ts, pos + 1);
        let value = if is_at(ts, start, Token::Semicolon) {
            fail(start)
        } else {
            expression(ts, start).after(start)
        };
        done(
            StatementView::Return(value.value),
            skip_optional(ts, value.next, Token::Semicolon),
        )
    } else {
        fail(pos)
    }
}

/// A condition in parentheses, from the position of its `(`.
pub open spec fn condition(ts: Seq<Token>, pos: nat) -> Parsed<ExpressionView> {
    if is_at(ts, pos, Token::ParenL) {
        let inner = expression(ts, pos + 1).after(pos + 1);
        match inner.value {
            Some(e) => if is_at(ts, inner.next, Token::ParenR) {
                done(e, inner.next + 1)
            } else {
                fail(inner.next)
            },
            None => inner,
        }
    } else {
        fail(pos)
    }
}

/// `if`, a condition, a statement, and perhaps `else` and a statement. An
/// `else` belongs to the nearest `if` before it that has none; an `else`
/// whose statement fails is left out.
pub open spec fn if_statement(ts: Seq<Token>, pos: nat) -> Parsed<StatementView>
    decreases remaining(ts, pos), 5nat,
{
    if is_at(ts, pos, Token::If) {
        let test = condition(ts, pos + 1).after(pos + 1);
        match test.value {
            Some(c) => {
                let first = statement(ts, test.next).after(test.next);
                match first.value {
                    Some(t) => if is_at(ts, first.next, Token::Else) {
                        let second = statement(ts, first.next + 1).after(first.next + 1);
                        done(
                            StatementView::If(
                                c,
                                Box::new(t),
                                match second.value {
                                    Some(e) => Some(Box::new(e)),
                                    None => None,
                                },
                            ),
                            second.next,
                        )
                    } else {
                        done(StatementView::If(c, Box::new(t), None), first.next)
                    },
                    None => fail(first.next),
                }
            },
            None => fail(test.next),
        }
    } else {
        fail(pos)
    }
}

/// `while`, a condition and a statement.
pub open spec fn while_statement(ts: Seq<Token>, pos: nat) -> Parsed<StatementView>
    decreases remaining(ts, pos), 5nat,
{
    if is_at(ts, pos, Token::While) {
        let test = condition(ts, pos + 1).after(pos + 1);
        match test.value {
            Some(c) => {
                let body = statement(ts, test.next).after(test.next);
                match body.value {
                    Some(b) => done(StatementView::While(c, Box::new(b)), body.next),
                    None => fail(body.next),
                }
            },
            None => fail(test.next),
        }
    } else {
        fail(pos)
    }
}

/// An optional clause of `for`: nothing where `closer` stands at `pos`,
/// else an expression; one that fails is left out.
pub open spec fn for_clause(ts: Seq<Token>, pos: nat, closer: Token) -> Parsed<ExpressionView> {
    if is_at(ts, pos, closer) {
        fail(pos)
    } else {
        expression(ts, pos).after(pos)
    }
}

/// `for (init; condition; update) body`: each of the three clauses may be
/// missing, and each `;` too. The initialization is a statement and takes
/// its own `;` with it.
pub open spec fn for_statement(ts: Seq<Token>, pos: nat) -> Parsed<StatementView>
    decreases remaining(ts, pos), 5nat,
{
    if is_at(ts, pos, Token::For) {
        if is_at(ts, pos + 1, Token::ParenL) {
            let init = if is_at(ts, pos + 2, Token::Semicolon) {
                fail(pos + 2)
            } else {
                statement(ts, pos + 2).after(pos + 2)
            };
            let test = for_clause(
                ts,
                skip_optional(ts, init.next, Token::Semicolon),
                Token::Semicolon,
            );
            let update = for_clause(
                ts,
                skip_optional(ts, test.next, Token::Semicolon),
                Token::ParenR,
            );
            if is_at(ts, update.next, Token::ParenR) {
                let body = statement(ts, update.next + 1).after(update.next + 1);
                match body.value {
                    Some(b) => done(
                        StatementView::For(
                            match init.value {
                                Some(s) => Some(Box::new(s)),
                                None => None,
                            },
                            test.value,
                            update.value,
                            Box::new(b),
                        ),
                        body.next,
                    ),
                    None => fail(body.next),
                }
            } else {
                fail(update.next)
            }
        } else {
            fail(pos + 1)
        }
    } else {
        fail(pos)
    }
}

/// `break` and perhaps `;`.
pub open spec fn break_statement(ts: Seq<Token>, pos: nat) -> Parsed<StatementView> {
    if is_at(ts, pos, Token::Break) {
        done(StatementView::Break, skip_optional(ts, pos + 1, Token::Semicolon))
    } else {
        fail(pos)
    }
}

/// A block: `{`, statements and `}`.
pub open spec fn block_statement(ts: Seq<Token>, pos: nat) -> Parsed<StatementView>
    decreases remaining(ts, pos), 5nat,
{
    if is_at(ts, pos, Token::BraceL) {
        let body = statement_list(ts, pos + 1);
        if is_at(ts, body.1, Token::BraceR) {
            done(StatementView::Block(body.0), body.1 + 1)
        } else {
            fail(body.1)
        }
    } else {
        fail(pos)
    }
}

/// A declaration as a statement.
pub open spec fn declaration_statement(ts: Seq<Token>, pos: nat) -> Parsed<StatementView> {
    let declaration = variable_declaration(ts, pos);
    match declaration.value {
        Some(d) => done(StatementView::Declaration(d), declaration.next),
        None => fail(declaration.next),
    }
}

/// An expression and perhaps `;`.
pub open spec fn expression_statement(ts: Seq<Token>, pos: nat) -> Parsed<StatementView> {
    let value = expression(ts, pos);
    match value.value {
        Some(e) => done(
            StatementView::Expression(e),
            skip_optional(ts, value.next, Token::Semicolon),
        ),
        None => fail(value.next),
    }
}

/// The statements of a block after those in `stmts`, up to `}` or the end.
/// Where a statement fails, one more token is skipped and parsing goes on.
pub open spec fn statement_list_from(ts: Seq<Token>, pos: nat, stmts: Seq<StatementView>) -> (
    Seq<StatementView>,
    nat,
)
    decreases remaining(ts, pos), 11nat,
{
    if pos >= ts.len() || is_at(ts, pos, Token::BraceR) {
        (stmts, pos)
    } else {
        let start = skip_trivia(ts, pos);
        if start >= ts.len() || is_at(ts, start, Token::BraceR) {
            (stmts, start)
        } else {
            let stmt = statement(ts, start).after(start);
            match stmt.value {
                Some(s) => if stmt.next > start {
                    statement_list_from(ts, stmt.next, stmts.push(s))
                } else {
                    (stmts.push(s), stmt.next)
                },
                None => statement_list_from(ts, step(ts, stmt.next), stmts),
            }
        }
    }
}

/// The statements of a block, from the position after its `{`.
pub open spec fn statement_list(ts: Seq<Token>, pos: nat) -> (Seq<StatementView>, nat)
    decreases remaining(ts, pos), 12nat,
{
    statement_list_from(ts, pos, Seq::empty())
}

// ---------------------------------------------------------------------------
// Preprocessor directives
// ---------------------------------------------------------------------------

/// The outcome of parsing a directive, and the position after it.
pub struct Directive {
    pub outcome: Result<PreprocessorDirectiveView, ParseErrorView>,
    pub next: nat,
}

/// A text without the `#` that it may begin with.
pub open spec fn strip_hash(text: Seq<char>) -> Seq<char> {
    if text.len() > 0 && text[0] == '#' {
        text.subrange(1, text.len() as int)
    } else {
        text
    }
}

/// The path between `<` and `>`: the names and the dots from `pos` up to
/// `>` or the end, after those in `path`. Other tokens are passed over.
pub open spec fn header_path(ts: Seq<Token>, pos: nat, path: Seq<char>) -> (Seq<char>, nat)
    decreases remaining(ts, pos),
{
    if pos >= ts.len() || is_at(ts, pos, Token::GreaterOp) {
        (path, pos)
    } else {
        header_path(
            ts,
            pos + 1,
            match ts[pos as int] {
                Token::Identifier(name) => path + name@,
                Token::Dot => path + "."@,
                _ => path,
            },
        )
    }
}

/// What follows `#include`: a string literal, or a path between `<` and
/// `>`.
pub open spec fn include_path(ts: Seq<Token>, pos: nat) -> Directive {
    match token_at(ts, pos) {
        Some(Token::StringLit(path)) => Directive {
            outcome: Ok(PreprocessorDirectiveView::Include(path@)),
            next: pos + 1,
        },
        Some(Token::LessOp) => {
            let path = header_path(ts, pos + 1, Seq::empty());
            if is_at(ts, path.1, Token::GreaterOp) {
                Directive {
                    outcome: Ok(PreprocessorDirectiveView::Include(path.0)),
                    next: path.1 + 1,
                }
            } else {
                Directive { outcome: Err(ParseErrorView::UnexpectedEOF), next: path.1 }
            }
        },
        _ => Directive {
            outcome: Err(ParseErrorView::UnexpectedToken("Expected include path"@)),
            next: pos,
        },
    }
}

/// The item of a replacement list that a token stands for.
pub open spec fn replacement_item(token: Token) -> Option<ReplacementItemView> {
    match token {
        Token::Identifier(name) => Some(ReplacementItemView::Identifier(name@)),
        Token::IntLit(n) => Some(ReplacementItemView::Constant(ConstantView::Integer(n))),
        Token::FloatLit(digits) => Some(ReplacementItemView::Constant(ConstantView::Float(digits@))),
        Token::StringLit(text) => Some(ReplacementItemView::StringLiteral(text@)),
        _ => None,
    }
}

/// The replacement list of `#define` after the items in `items`: the names
/// and literals in a row at `pos`.
pub open spec fn replacement_list_from(
    ts: Seq<Token>,
    pos: nat,
    items: Seq<ReplacementItemView>,
) -> (Seq<ReplacementItemView>, nat)
    decreases remaining(ts, pos),
{
    if pos >= ts.len() {
        (items, pos)
    } else {
        match replacement_item(ts[pos as int]) {
            Some(item) => replacement_list_from(ts, pos + 1, items.push(item)),
            None => (items, pos),
        }
    }
}

/// What follows `#define`: a name and its replacement list.
pub open spec fn define(ts: Seq<Token>, pos: nat) -> Directive {
    let name = identifier(ts, pos);
    match name.value {
        Some(n) => {
            let items = replacement_list_from(ts, name.next, Seq::empty());
            Directive { outcome: Ok(PreprocessorDirectiveView::Define(n, items.0)), next: items.1 }
        },
        None => Directive { outcome: Err(ParseErrorView::ExpectedIdentifier), next: name.next },
    }
}

/// What follows `#ifdef`: a name.
pub open spec fn ifdef(ts: Seq<Token>, pos: nat) -> Directive {
    let name = identifier(ts, pos);
    match name.value {
        Some(n) => Directive { outcome: Ok(PreprocessorDirectiveView::Ifdef(n)), next: name.next },
        None => Directive { outcome: Err(ParseErrorView::ExpectedIdentifier), next: name.next },
    }
}

/// What follows `#ifndef`: a name.
pub open spec fn ifndef(ts: Seq<Token>, pos: nat) -> Directive {
    let name = identifier(ts, pos);
    match name.value {
        Some(n) => Directive { outcome: Ok(PreprocessorDirectiveView::Ifndef(n)), next: name.next },
        None => Directive { outcome: Err(ParseErrorView::ExpectedIdentifier), next: name.next },
    }
}

/// The directive named `name`, its `#` left out, with what follows it from
/// `pos`.
pub open spec fn directive_named(ts: Seq<Token>, pos: nat, name: Seq<char>) -> Directive {
    if name == "include"@ {
        include_path(ts, pos)
    } else if name == "define"@ {
        define(ts, pos)
    } else if name == "ifdef"@ {
        ifdef(ts, pos)
    } else if name == "ifndef"@ {
        ifndef(ts, pos)
    } else if name == "endif"@ {
        Directive { outcome: Ok(PreprocessorDirectiveView::Endif), next: pos }
    } else {
        Directive {
            outcome: Err(ParseErrorView::UnexpectedToken("Unknown directive: "@ + name)),
            next: pos,
        }
    }
}

/// A preprocessor directive: `include`, `define`, `ifdef`, `ifndef` or
/// `endif`. Any other is an error, and so is one that is malformed.
pub open spec fn preprocessor_directive(ts: Seq<Token>, pos: nat) -> Directive {
    match token_at(ts, pos) {
        Some(Token::Preprocessor(text)) => directive_named(ts, pos + 1, strip_hash(text@)),
        Some(_) => Directive { outcome: Err(ParseErrorView::UnexpectedEOF), next: pos + 1 },
        None => Directive { outcome: Err(ParseErrorView::UnexpectedEOF), next: pos },
    }
}

// ---------------------------------------------------------------------------
// The translation unit
// ---------------------------------------------------------------------------

/// How many blocks are open before `pos`: every `{` opens one, every `}`
/// closes one where one is open.
pub open spec fn brace_depth(ts: Seq<Token>, pos: nat) -> nat
    decreases pos,
{
    if pos == 0 || pos > ts.len() {
        0
    } else {
        let before = brace_depth(ts, (pos - 1) as nat);
        match ts[pos - 1] {
            Token::BraceL => before + 1,
            Token::BraceR => if before > 0 {
                (before - 1) as nat
            } else {
                0
            },
            _ => before,
        }
    }
}

/// Whether no block is open at `pos`.
pub open spec fn is_at_top_level(ts: Seq<Token>, pos: nat) -> bool {
    brace_depth(ts, pos) == 0
}

/// The first position at or after `pos` at which no block is open, `depth`
/// blocks being open at `pos`; the end where there is none.
pub open spec fn skip_nested(ts: Seq<Token>, pos: nat, depth: nat) -> nat
    decreases remaining(ts, pos),
{
    if pos >= ts.len() || depth == 0 {
        pos
    } else {
        skip_nested(
            ts,
            pos + 1,
            match ts[pos as int] {
                Token::BraceL => depth + 1,
                Token::BraceR => (depth - 1) as nat,
                _ => depth,
            },
        )
    }
}

/// The first position at or after `pos` at which no block is open.
pub open spec fn skip_to_top_level(ts: Seq<Token>, pos: nat) -> nat {
    skip_nested(ts, pos, brace_depth(ts, pos))
}

/// Whether there is a token and it is an integer, floating-point, string
/// or boolean literal.
pub open spec fn is_literal(token: Option<Token>) -> bool {
    match token {
        Some(t) => t is IntLit || t is FloatLit || t is StringLit || t is BoolLit,
        None => false,
    }
}

/// Whether there is a token and it is an integer or floating-point literal.
pub open spec fn is_number(token: Option<Token>) -> bool {
    match token {
        Some(t) => t is IntLit || t is FloatLit,
        None => false,
    }
}

/// Whether there is a token and it is one of `+ - * /`.
pub open spec fn is_arithmetic(token: Option<Token>) -> bool {
    match token {
        Some(t) => t is Plus || t is Minus || t is Mult || t is Div,
        None => false,
    }
}

/// Whether there is a token and it is a name.
pub open spec fn is_name(token: Option<Token>) -> bool {
    match token {
        Some(t) => t is Identifier,
        None => false,
    }
}

/// Whether there is a token and it is a type keyword.
pub open spec fn is_any_type(token: Option<Token>) -> bool {
    match token {
        Some(t) => t.is_type_keyword(),
        None => false,
    }
}

/// Whether there is a token and it is one of `int float char double`.
pub open spec fn is_value_type(token: Option<Token>) -> bool {
    match token {
        Some(t) => t is Int || t is Float || t is Char || t is Double,
        None => false,
    }
}

/// The sharper diagnosis of a declaration that failed at `pos`, at the top
/// level, from the tokens that stand there:
///
/// - a type keyword, `=` and a literal: the name is missing;
/// - a name and `=`: the type is missing;
/// - `int`, `float` or `char`, a name, `=` and `;`: the value is missing;
/// - `int`, `float`, `char` or `double`, a name, `=`, a number, one of
///   `+ - * /` and `;`: the operand is missing.
///
/// The first that applies is the diagnosis; where none does, or a block is
/// open, there is none.
pub open spec fn specific_error(ts: Seq<Token>, pos: nat) -> Option<ParseErrorView> {
    let t0 = token_at(ts, pos);
    let t1 = token_at(ts, pos + 1);
    let t2 = token_at(ts, pos + 2);
    let t3 = token_at(ts, pos + 3);
    let t4 = token_at(ts, pos + 4);
    let t5 = token_at(ts, pos + 5);
    let declares = is_value_type(t0) && is_name(t1) && t2 == Some(Token::AssignOp);
    if !is_at_top_level(ts, pos) {
        None
    } else if is_any_type(t0) && t1 == Some(Token::AssignOp) && is_literal(t2) {
        Some(ParseErrorView::ExpectedIdentifier)
    } else if is_name(t0) && t1 == Some(Token::AssignOp) {
        Some(ParseErrorView::ExpectedTypeToken)
    } else if declares && t3 == Some(Token::Semicolon) && t0 == Some(Token::Int) {
        Some(ParseErrorView::ExpectedIntLit)
    } else if declares && t3 == Some(Token::Semicolon) && t0 == Some(Token::Float) {
        Some(ParseErrorView::ExpectedFloatLit)
    } else if declares && t3 == Some(Token::Semicolon) && t0 == Some(Token::Char) {
        Some(ParseErrorView::ExpectedStringLit)
    } else if declares && is_number(t3) && is_arithmetic(t4) && t5 == Some(Token::Semicolon) {
        Some(ParseErrorView::FailedToFindToken("Missing operand after operator"@))
    } else {
        None
    }
}

/// The text of the first lexer error at or after `pos`.
pub open spec fn lexer_error_from(ts: Seq<Token>, pos: nat) -> Option<Seq<char>>
    decreases remaining(ts, pos),
{
    if pos >= ts.len() {
        None
    } else {
        match ts[pos as int] {
            Token::Error(message) => Some(message@),
            _ => lexer_error_from(ts, pos + 1),
        }
    }
}

/// The translation unit that the tokens from `pos` on add to the
/// directives and the declarations that were parsed before them.
///
/// At the top level a directive is parsed where one stands, and a malformed
/// one is the error of the whole. Else an external declaration is parsed;
/// where that fails, the sharper diagnosis, if there is one, is the error
/// of the whole, and without one the token is skipped. Inside a block that
/// was left open, everything up to its end is skipped.
#[verifier::opaque]
pub open spec fn translation_unit_from(
    ts: Seq<Token>,
    pos: nat,
    directives: Seq<PreprocessorDirectiveView>,
    declarations: Seq<ExternalDeclarationView>,
) -> Result<TranslationUnitView, ParseErrorView>
    decreases remaining(ts, pos),
{
    let start = skip_trivia(ts, pos);
    if pos >= ts.len() || start >= ts.len() {
        Ok(
            TranslationUnitView {
                preprocessor_list: directives,
                external_declarations: declarations,
            },
        )
    } else if ts[start as int] is Preprocessor {
        let directive = preprocessor_directive(ts, start);
        match directive.outcome {
            Ok(d) => if directive.next > start {
                translation_unit_from(ts, directive.next, directives.push(d), declarations)
            } else {
                Err(ParseErrorView::UnexpectedEOF)
            },
            Err(e) => Err(e),
        }
    } else if is_at_top_level(ts, start) {
        let declaration = external_declaration(ts, start);
        match declaration.value {
            Some(d) => if declaration.next > start {
                translation_unit_from(ts, declaration.next, directives, declarations.push(d))
            } else {
                Err(ParseErrorView::UnexpectedEOF)
            },
            None => match specific_error(ts, start) {
                Some(e) => Err(e),
                None => translation_unit_from(ts, start + 1, directives, declarations),
            },
        }
    } else {
        let resumed = skip_to_top_level(ts, start);
        if resumed > start {
            translation_unit_from(ts, resumed, directives, declarations)
        } else {
            Err(ParseErrorView::UnexpectedEOF)
        }
    }
}

/// The translation unit that the tokens from `pos` on stand for, or why
/// there is none. A lexer error anywhere among the tokens is the error of
/// the whole, before anything is parsed.
pub open spec fn translation_unit(ts: Seq<Token>, pos: nat) -> Result<
    TranslationUnitView,
    ParseErrorView,
> {
    match lexer_error_from(ts, 0) {
        Some(message) => Err(ParseErrorView::UnexpectedToken("Lexer error: "@ + message)),
        None => translation_unit_from(ts, pos, Seq::empty(), Seq::empty()),
    }
}

} // verus!
