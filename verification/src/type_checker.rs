//! Type checking.
//!
//! The checker walks a translation unit that the scope resolver has been
//! over, follows the scopes that the resolver created, in the order in which
//! it created them, gives every expression one type and records every
//! violation of the typing rules. Its behaviour is stated against
//! [`TypeCheckerView`], a mathematical model whose methods carry the names
//! of the operations they describe.

use crate::parser::ast::{
    lemma_block_view, lemma_call_view, lemma_initializer_list_view, view_all, view_opt_expr,
    AssignmentOperator, BinaryOperator, Constant, ConstantView, Expression, ExpressionView,
    ExternalDeclaration, ExternalDeclarationView, FunctionDefinition, FunctionDefinitionView,
    Initializer, InitializerKind, InitializerKindView, InitializerView, Parameter, ParameterView,
    Statement, StatementView, TranslationUnit, TranslationUnitView, TypeSpecifier, UnaryOperator,
    VariableDeclaration, VariableDeclarationView,
};
use crate::scope::{lookup_in, ScopeAnalyzer, ScopeAnalyzerView, ScopeNodeView, SymbolKind, SymbolKindView};
use crate::text::{is_substring, str_contains, str_eq};
use vstd::prelude::*;

verus! {

// ---------------------------------------------------------------------------
// Types and the rules on them
// ---------------------------------------------------------------------------

/// What the checker can find wrong.
#[derive(Debug, Clone, Copy, PartialEq, Eq, Structural)]
pub enum TypeChkError {
    ErroneousVarDecl,
    FnCallParamCount,
    FnCallParamType,
    ErroneousReturnType,
    ExpressionTypeMismatch,
    ExpectedBooleanExpression,
    ErroneousBreak,
    NonBooleanCondStmt,
    EmptyExpression,
    AttemptedBoolOpOnNonBools,
    AttemptedBitOpOnNonNumeric,
    AttemptedShiftOnNonInt,
    AttemptedAddOpOnNonNumeric,
    AttemptedExponentiationOfNonNumeric,
    ReturnStmtNotFound,
}

/// The type of an expression. `Unknown` stands for an expression whose
/// checking failed: it takes part in no further error.
#[derive(Debug, Clone, Copy, PartialEq, Eq, Structural)]
pub enum Type {
    Int,
    Float,
    Double,
    Char,
    Short,
    Long,
    Void,
    Bool,
    String,
    Unknown,
}

/// The type that a specifier declares. `signed` and `unsigned` alone mean
/// `int`.
pub open spec fn specifier_type(spec: TypeSpecifier) -> Type {
    match spec {
        TypeSpecifier::Int => Type::Int,
        TypeSpecifier::Float => Type::Float,
        TypeSpecifier::Double => Type::Double,
        TypeSpecifier::Char => Type::Char,
        TypeSpecifier::Short => Type::Short,
        TypeSpecifier::Long => Type::Long,
        TypeSpecifier::Void => Type::Void,
        TypeSpecifier::Signed => Type::Int,
        TypeSpecifier::Unsigned => Type::Int,
    }
}

/// The type that a type name stands for; `Unknown` for any other text.
pub open spec fn named_type(name: Seq<char>) -> Type {
    if name == "int"@ {
        Type::Int
    } else if name == "float"@ {
        Type::Float
    } else if name == "double"@ {
        Type::Double
    } else if name == "char"@ {
        Type::Char
    } else if name == "short"@ {
        Type::Short
    } else if name == "long"@ {
        Type::Long
    } else if name == "void"@ {
        Type::Void
    } else {
        Type::Unknown
    }
}

/// The type of a literal constant.
pub open spec fn constant_type(constant: ConstantView) -> Type {
    match constant {
        ConstantView::Integer(_) => Type::Int,
        ConstantView::Float(_) => Type::Float,
        ConstantView::Char(_) => Type::Char,
    }
}

/// The numeric types.
pub open spec fn is_numeric(t: Type) -> bool {
    t is Int || t is Float || t is Double || t is Char || t is Short || t is Long
}

/// The integer types.
pub open spec fn is_integer(t: Type) -> bool {
    t is Int || t is Char || t is Short || t is Long
}

/// Compatibility: a type is compatible with itself, and any two numeric
/// types are compatible with each other; nothing else is.
pub open spec fn compatible(a: Type, b: Type) -> bool {
    a == b || (is_numeric(a) && is_numeric(b))
}

/// The place of a numeric type in the widening order
/// `Double > Float > Long > Int > Short > Char`; 0 for other types.
pub open spec fn rank(t: Type) -> nat {
    match t {
        Type::Double => 6,
        Type::Float => 5,
        Type::Long => 4,
        Type::Int => 3,
        Type::Short => 2,
        Type::Char => 1,
        _ => 0,
    }
}

/// The wider of two types: the one that comes first in the widening order.
/// Where neither is numeric the answer is `Char`.
pub open spec fn wider(a: Type, b: Type) -> Type {
    if a is Double || b is Double {
        Type::Double
    } else if a is Float || b is Float {
        Type::Float
    } else if a is Long || b is Long {
        Type::Long
    } else if a is Int || b is Int {
        Type::Int
    } else if a is Short || b is Short {
        Type::Short
    } else {
        Type::Char
    }
}

/// Compatibility is reflexive and symmetric; any two numeric types are
/// compatible; `String` is compatible with `String` alone; and a numeric
/// type is compatible with numeric types alone.
pub proof fn lemma_compatibility(a: Type, b: Type)
    ensures
        compatible(a, a),
        compatible(a, b) == compatible(b, a),
        is_numeric(a) && is_numeric(b) ==> compatible(a, b),
        a is String ==> (compatible(a, b) <==> b is String),
        is_numeric(a) ==> (compatible(a, b) <==> is_numeric(b)),
{
}

/// Widening picks one of its two numeric operands: the one of higher rank.
/// It does not depend on their order.
pub proof fn lemma_wider_is_highest_rank(a: Type, b: Type)
    requires
        is_numeric(a),
        is_numeric(b),
    ensures
        wider(a, b) == (if rank(a) >= rank(b) {
            a
        } else {
            b
        }),
        wider(a, b) == wider(b, a),
        is_numeric(wider(a, b)),
{
}

/// Every integer type is numeric.
pub proof fn lemma_integer_is_numeric(t: Type)
    ensures
        is_integer(t) ==> is_numeric(t),
{
}

// ---------------------------------------------------------------------------
// Errors
// ---------------------------------------------------------------------------

/// One violation: what was violated, the number of the first source line
/// that holds the context text (lines count from 1), and the context: the
/// name or the operator concerned.
#[derive(Debug)]
pub struct TypeError {
    pub error: TypeChkError,
    pub line: Option<usize>,
    pub context: String,
}

pub struct TypeErrorView {
    pub error: TypeChkError,
    pub line: Option<nat>,
    pub context: Seq<char>,
}

impl View for TypeError {
    type V = TypeErrorView;

    open spec fn view(&self) -> TypeErrorView {
        TypeErrorView {
            error: self.error,
            line: match self.line {
                Some(n) => Some(n as nat),
                None => None,
            },
            context: self.context@,
        }
    }
}

impl Clone for TypeError {
    fn clone(&self) -> (r: Self)
        ensures
            r@ == self@,
    {
        TypeError { error: self.error, line: self.line, context: self.context.clone() }
    }
}

/// The number of the first line, from line `k + 1` on, that holds `context`.
pub open spec fn first_line_from(lines: Seq<Seq<char>>, context: Seq<char>, k: nat) -> Option<nat>
    decreases lines.len() - k,
{
    if k >= lines.len() {
        None
    } else if is_substring(context, lines[k as int]) {
        Some(k + 1)
    } else {
        first_line_from(lines, context, k + 1)
    }
}

/// The number of the first line that holds `context`; none for an empty
/// context, or where no line holds it.
pub open spec fn line_of_context(lines: Seq<Seq<char>>, context: Seq<char>) -> Option<nat> {
    if context.len() == 0 {
        None
    } else {
        first_line_from(lines, context, 0)
    }
}

// ---------------------------------------------------------------------------
// The checker: model
// ---------------------------------------------------------------------------

/// The state of a checker: the arena of scopes that the resolver built, the
/// errors recorded so far, the return type of the function being checked,
/// whether a loop encloses the statement being checked, the current scope,
/// the index of the next scope to enter, and the source text by lines.
pub struct TypeCheckerView {
    pub scopes: Seq<ScopeNodeView>,
    pub errors: Seq<TypeErrorView>,
    pub current_return_type: Option<Type>,
    pub in_loop: bool,
    pub current_scope: Option<nat>,
    pub next_scope: nat,
    pub source_lines: Seq<Seq<char>>,
}

impl TypeCheckerView {
    /// What holds of every state of a checker: the arena is that of a
    /// well-formed resolver, and the current scope lies in it.
    pub open spec fn well_formed(self) -> bool {
        &&& (ScopeAnalyzerView { scopes: self.scopes, current: 0, errors: Seq::empty() }).well_formed()
        &&& self.current_scope matches Some(c) ==> c < self.scopes.len()
    }

    /// Whether two states differ at most in their errors and in the index of
    /// the next scope to enter.
    pub open spec fn same_context(self, other: Self) -> bool {
        &&& self.scopes == other.scopes
        &&& self.source_lines == other.source_lines
        &&& self.current_scope == other.current_scope
        &&& self.current_return_type == other.current_return_type
        &&& self.in_loop == other.in_loop
    }

    /// The state of a new checker over `scopes`: at the global scope, the
    /// scope after it next, no error recorded.
    pub open spec fn fresh(scopes: Seq<ScopeNodeView>, source_lines: Seq<Seq<char>>) -> Self {
        TypeCheckerView {
            scopes,
            errors: Seq::empty(),
            current_return_type: None,
            in_loop: false,
            current_scope: Some(0),
            next_scope: 1,
            source_lines,
        }
    }

    /// One more error, with the line of its context.
    pub open spec fn record_error(self, kind: TypeChkError, context: Seq<char>) -> Self {
        TypeCheckerView {
            errors: self.errors.push(
                TypeErrorView {
                    error: kind,
                    line: line_of_context(self.source_lines, context),
                    context,
                },
            ),
            ..self
        }
    }

    /// An error recorded if and only if `violated` holds.
    pub open spec fn record_if(self, violated: bool, kind: TypeChkError, context: Seq<char>) -> Self {
        if violated {
            self.record_error(kind, context)
        } else {
            self
        }
    }

    /// The type of the variable or parameter that `name` is bound to, seen
    /// from the current scope; none where `name` is not bound or is bound to
    /// a function.
    pub open spec fn get_variable_type(self, name: Seq<char>) -> Option<Type> {
        match self.current_scope {
            Some(scope) => match lookup_in(self.scopes, scope, name) {
                Some(symbol) => match symbol.kind {
                    SymbolKindView::Variable { type_spec, .. } => Some(specifier_type(type_spec)),
                    SymbolKindView::Parameter { param_type } => Some(named_type(param_type)),
                    SymbolKindView::Function { .. } => None,
                },
                None => None,
            },
            None => None,
        }
    }

    /// Whether the next scope of the arena is the scope of a function with
    /// these parameters: it exists, lies at depth 1 and binds every
    /// parameter name.
    pub open spec fn at_function_scope(self, params: Seq<ParameterView>) -> bool {
        &&& self.next_scope < self.scopes.len()
        &&& self.scopes[self.next_scope as int].scope_level == 1
        &&& forall|i: int|
            0 <= i < params.len() ==> self.scopes[self.next_scope as int].symbols.contains_key(
                #[trigger] params[i].name,
            )
    }

    /// Whether the next scope of the arena is a child of the current scope.
    pub open spec fn at_child_scope(self) -> bool {
        &&& self.next_scope < self.scopes.len()
        &&& self.current_scope is Some
        &&& self.scopes[self.next_scope as int].parent == self.current_scope
    }

    /// The next scope of the arena becomes the current scope.
    pub open spec fn enter_next_scope(self) -> Self {
        TypeCheckerView {
            current_scope: Some(self.next_scope),
            next_scope: self.next_scope + 1,
            ..self
        }
    }

    /// The state on entering the body of a function: in its scope, if the
    /// arena holds it next; else where it was.
    pub open spec fn enter_function_scope(self, params: Seq<ParameterView>) -> Self {
        if self.at_function_scope(params) {
            self.enter_next_scope()
        } else {
            self
        }
    }

    /// The state on entering a block or a `for` loop: in its scope, if the
    /// arena holds it next; else where it was.
    pub open spec fn enter_child_scope(self) -> Self {
        if self.at_child_scope() {
            self.enter_next_scope()
        } else {
            self
        }
    }

    /// The state with another current scope.
    pub open spec fn with_scope(self, scope: Option<nat>) -> Self {
        TypeCheckerView { current_scope: scope, ..self }
    }

    /// The state with another loop flag.
    pub open spec fn with_loop(self, in_loop: bool) -> Self {
        TypeCheckerView { in_loop, ..self }
    }

    /// The state with another return type.
    pub open spec fn with_return_type(self, return_type: Option<Type>) -> Self {
        TypeCheckerView { current_return_type: return_type, ..self }
    }

    /// The rule of a binary operator on operands of types `left` and
    /// `right`: the state after it, and the type of the operation.
    ///
    /// An `Unknown` operand makes the operation `Unknown` and records
    /// nothing. Otherwise `+ - * /` want numeric operands and give the wider
    /// of the two; `%` wants integers and gives the left type; the
    /// relational operators want numeric operands and give `Bool`; `== !=`
    /// want compatible operands and give `Bool`; `&& ||` want `Bool`s and
    /// give `Bool`; bitwise operators and shifts want integers and give the
    /// left type. A violated rule records its error and gives `Unknown`.
    pub open spec fn check_binary_operation(self, op: BinaryOperator, left: Type, right: Type) -> (
        Self,
        Type,
    ) {
        if left is Unknown || right is Unknown {
            (self, Type::Unknown)
        } else {
            match op {
                BinaryOperator::Plus | BinaryOperator::Minus | BinaryOperator::Mult | BinaryOperator::Div => {
                    if is_numeric(left) && is_numeric(right) {
                        (self, wider(left, right))
                    } else {
                        (
                            self.record_error(TypeChkError::AttemptedAddOpOnNonNumeric, "+"@),
                            Type::Unknown,
                        )
                    }
                },
                BinaryOperator::Mod => {
                    if is_integer(left) && is_integer(right) {
                        (self, left)
                    } else {
                        (
                            self.record_error(TypeChkError::AttemptedAddOpOnNonNumeric, "%"@),
                            Type::Unknown,
                        )
                    }
                },
                BinaryOperator::Less | BinaryOperator::LessEq | BinaryOperator::Greater | BinaryOperator::GreaterEq => {
                    if is_numeric(left) && is_numeric(right) {
                        (self, Type::Bool)
                    } else {
                        (
                            self.record_error(TypeChkError::ExpressionTypeMismatch, "comparison"@),
                            Type::Unknown,
                        )
                    }
                },
                BinaryOperator::Equals | BinaryOperator::NotEquals => {
                    if compatible(left, right) {
                        (self, Type::Bool)
                    } else {
                        (
                            self.record_error(TypeChkError::ExpressionTypeMismatch, "=="@),
                            Type::Unknown,
                        )
                    }
                },
                BinaryOperator::And | BinaryOperator::Or => {
                    if left is Bool && right is Bool {
                        (self, Type::Bool)
                    } else {
                        (
                            self.record_error(TypeChkError::AttemptedBoolOpOnNonBools, "&&"@),
                            Type::Unknown,
                        )
                    }
                },
                BinaryOperator::BitAnd | BinaryOperator::BitOr | BinaryOperator::Xor => {
                    if is_integer(left) && is_integer(right) {
                        (self, left)
                    } else {
                        (
                            self.record_error(TypeChkError::AttemptedBitOpOnNonNumeric, "&"@),
                            Type::Unknown,
                        )
                    }
                },
                BinaryOperator::LShift | BinaryOperator::RShift => {
                    if is_integer(left) && is_integer(right) {
                        (self, left)
                    } else {
                        (
                            self.record_error(TypeChkError::AttemptedShiftOnNonInt, "<<"@),
                            Type::Unknown,
                        )
                    }
                },
            }
        }
    }

    /// The rule of a unary operator on an operand of type `operand`.
    ///
    /// An `Unknown` operand gives `Unknown` and records nothing. Otherwise
    /// sign and increment operators want a numeric operand and keep its
    /// type; `!` wants `Bool` and gives `Bool`; `~` wants an integer and
    /// keeps its type; `&` and `*` keep the type of any operand.
    pub open spec fn check_unary_operation(self, op: UnaryOperator, operand: Type) -> (Self, Type) {
        if operand is Unknown {
            (self, Type::Unknown)
        } else {
            match op {
                UnaryOperator::Plus | UnaryOperator::Minus => {
                    if is_numeric(operand) {
                        (self, operand)
                    } else {
                        (
                            self.record_error(
                                TypeChkError::AttemptedAddOpOnNonNumeric,
                                "unary +/-"@,
                            ),
                            Type::Unknown,
                        )
                    }
                },
                UnaryOperator::Not => {
                    if operand is Bool {
                        (self, Type::Bool)
                    } else {
                        (
                            self.record_error(TypeChkError::AttemptedBoolOpOnNonBools, "!"@),
                            Type::Unknown,
                        )
                    }
                },
                UnaryOperator::BitNot => {
                    if is_integer(operand) {
                        (self, operand)
                    } else {
                        (
                            self.record_error(TypeChkError::AttemptedBitOpOnNonNumeric, "~"@),
                            Type::Unknown,
                        )
                    }
                },
                UnaryOperator::AddressOf | UnaryOperator::Dereference => (self, operand),
                UnaryOperator::PreIncrement | UnaryOperator::PreDecrement => {
                    if is_numeric(operand) {
                        (self, operand)
                    } else {
                        (
                            self.record_error(TypeChkError::AttemptedAddOpOnNonNumeric, "++/--"@),
                            Type::Unknown,
                        )
                    }
                },
            }
        }
    }

    /// The rule of an assignment operator on a target of type `left` and a
    /// source of type `right`.
    ///
    /// An `Unknown` side gives `Unknown` and records nothing. Otherwise `=`
    /// wants compatible sides; `+= -= *= /=` want numeric sides; `%=`, the
    /// shift forms and the bitwise forms want integers. The type is that of
    /// the target.
    pub open spec fn check_assignment_operation(
        self,
        op: AssignmentOperator,
        left: Type,
        right: Type,
    ) -> (Self, Type) {
        if left is Unknown || right is Unknown {
            (self, Type::Unknown)
        } else {
            match op {
                AssignmentOperator::Assign => {
                    if compatible(left, right) {
                        (self, left)
                    } else {
                        (
                            self.record_error(TypeChkError::ExpressionTypeMismatch, "="@),
                            Type::Unknown,
                        )
                    }
                },
                AssignmentOperator::PlusAssign | AssignmentOperator::MinusAssign | AssignmentOperator::MultAssign | AssignmentOperator::DivAssign => {
                    if is_numeric(left) && is_numeric(right) {
                        (self, left)
                    } else {
                        (
                            self.record_error(TypeChkError::AttemptedAddOpOnNonNumeric, "+= etc"@),
                            Type::Unknown,
                        )
                    }
                },
                AssignmentOperator::ModAssign => {
                    if is_integer(left) && is_integer(right) {
                        (self, left)
                    } else {
                        (
                            self.record_error(TypeChkError::AttemptedAddOpOnNonNumeric, "%="@),
                            Type::Unknown,
                        )
                    }
                },
                AssignmentOperator::LShiftAssign | AssignmentOperator::RShiftAssign => {
                    if is_integer(left) && is_integer(right) {
                        (self, left)
                    } else {
                        (
                            self.record_error(TypeChkError::AttemptedShiftOnNonInt, "<<="@),
                            Type::Unknown,
                        )
                    }
                },
                AssignmentOperator::AndAssign | AssignmentOperator::OrAssign | AssignmentOperator::XorAssign => {
                    if is_integer(left) && is_integer(right) {
                        (self, left)
                    } else {
                        (
                            self.record_error(TypeChkError::AttemptedBitOpOnNonNumeric, "&= etc"@),
                            Type::Unknown,
                        )
                    }
                },
            }
        }
    }

    /// Whether a type other than `Unknown` fails to be `Bool`.
    pub open spec fn not_boolean(t: Type) -> bool {
        !(t is Bool) && !(t is Unknown)
    }

    /// Whether a value of type `actual`, other than `Unknown`, does not fit
    /// where `expected` is wanted.
    pub open spec fn mismatch(expected: Type, actual: Type) -> bool {
        !(actual is Unknown) && !compatible(expected, actual)
    }

    /// The rule of the branches of `?:`: compatible branches give the type
    /// of the first; an `Unknown` branch gives `Unknown` and records
    /// nothing.
    pub open spec fn check_conditional_branches(self, first: Type, second: Type) -> (Self, Type) {
        if first is Unknown || second is Unknown {
            (self, Type::Unknown)
        } else if compatible(first, second) {
            (self, first)
        } else {
            (self.record_error(TypeChkError::ExpressionTypeMismatch, "?:"@), Type::Unknown)
        }
    }

    /// The function that `name` is bound to in the global scope: its return
    /// type and its parameters.
    pub open spec fn global_function(self, name: Seq<char>) -> Option<
        (Seq<char>, Seq<ParameterView>),
    > {
        match lookup_in(self.scopes, 0, name) {
            Some(symbol) => match symbol.kind {
                SymbolKindView::Function { return_type, parameters, .. } => Some(
                    (return_type, parameters),
                ),
                _ => None,
            },
            None => None,
        }
    }

    /// The state after checking an expression, and its type.
    ///
    /// Every operand is checked, left to right, whatever the others gave.
    /// A name has the type of the variable or parameter it is bound to,
    /// `Unknown` where there is none. A call of a name that the global scope
    /// does not bind to a function is `Unknown`, and its arguments are not
    /// looked at; a call of a function records a wrong argument count once,
    /// checks as many arguments as there are both arguments and parameters,
    /// and has the declared return type. An index that is no integer is an
    /// error; the access has the type of what is indexed. Member and
    /// pointer access and the postfix operators have the type of their
    /// operand; a cast has the type it names.
    pub open spec fn check_expression(self, expr: ExpressionView) -> (Self, Type)
        decreases expr, 0nat,
    {
        match expr {
            ExpressionView::Identifier(name) => (
                self,
                match self.get_variable_type(name) {
                    Some(t) => t,
                    None => Type::Unknown,
                },
            ),
            ExpressionView::Constant(constant) => (self, constant_type(constant)),
            ExpressionView::StringLiteral(_) => (self, Type::String),
            ExpressionView::BinaryOp(left, op, right) => {
                let (s1, lt) = self.check_expression(*left);
                let (s2, rt) = s1.check_expression(*right);
                s2.check_binary_operation(op, lt, rt)
            },
            ExpressionView::UnaryOp(op, operand) => {
                let (s1, t) = self.check_expression(*operand);
                s1.check_unary_operation(op, t)
            },
            ExpressionView::Assignment(left, op, right) => {
                let (s1, lt) = self.check_expression(*left);
                let (s2, rt) = s1.check_expression(*right);
                s2.check_assignment_operation(op, lt, rt)
            },
            ExpressionView::Conditional(condition, first, second) => {
                let (s1, ct) = self.check_expression(*condition);
                let s2 = s1.record_if(
                    Self::not_boolean(ct),
                    TypeChkError::ExpectedBooleanExpression,
                    "?:"@,
                );
                let (s3, ft) = s2.check_expression(*first);
                let (s4, st) = s3.check_expression(*second);
                s4.check_conditional_branches(ft, st)
            },
            ExpressionView::FunctionCall(name, args) => match self.global_function(name) {
                Some((return_type, params)) => {
                    let s1 = self.record_if(
                        args.len() != params.len(),
                        TypeChkError::FnCallParamCount,
                        name,
                    );
                    let count = if args.len() <= params.len() {
                        args.len()
                    } else {
                        params.len()
                    };
                    (s1.check_arguments(name, params, args, count), named_type(return_type))
                },
                None => (self, Type::Unknown),
            },
            ExpressionView::ArrayAccess(array, index) => {
                let (s1, it) = self.check_expression(*index);
                let s2 = s1.record_if(
                    !is_integer(it) && !(it is Unknown),
                    TypeChkError::ExpressionTypeMismatch,
                    "[]"@,
                );
                s2.check_expression(*array)
            },
            ExpressionView::MemberAccess(object, _) => self.check_expression(*object),
            ExpressionView::PointerAccess(pointer, _) => self.check_expression(*pointer),
            ExpressionView::PostfixOp(operand, _) => self.check_expression(*operand),
            ExpressionView::Cast(target, operand) => {
                let (s1, _) = self.check_expression(*operand);
                (s1, specifier_type(target))
            },
        }
    }

    /// The state after checking the first `count` arguments of a call of
    /// `name` against the parameters: each is checked, and recorded as an
    /// error if its type does not fit the type of its parameter.
    pub open spec fn check_arguments(
        self,
        name: Seq<char>,
        params: Seq<ParameterView>,
        args: Seq<ExpressionView>,
        count: nat,
    ) -> Self
        decreases args, count,
    {
        if count == 0 || count > args.len() {
            self
        } else {
            let before = self.check_arguments(name, params, args, (count - 1) as nat);
            let (after, t) = before.check_expression(args[count - 1]);
            after.record_if(
                Self::mismatch(named_type(params[count - 1].param_type), t),
                TypeChkError::FnCallParamType,
                name,
            )
        }
    }

    /// The state after checking an initializer, and its type: that of its
    /// expression, that of the first item of its list (none for an empty
    /// list), or that of what it designates. Every item of a list is
    /// checked once.
    pub open spec fn check_initializer(self, init: InitializerView) -> (Self, Option<Type>)
        decreases init, 0nat,
    {
        match init.kind {
            InitializerKindView::Assignment(expr) => {
                let (s1, t) = self.check_expression(expr);
                (s1, Some(t))
            },
            InitializerKindView::List(items) => self.check_initializer_items(items, items.len()),
            InitializerKindView::Designated(_, inner) => self.check_initializer(*inner),
        }
    }

    /// The state after checking the first `count` items of an initializer
    /// list, and the type of the first item.
    pub open spec fn check_initializer_items(self, items: Seq<InitializerView>, count: nat) -> (
        Self,
        Option<Type>,
    )
        decreases items, count,
    {
        if count == 0 || count > items.len() {
            (self, None)
        } else {
            let (before, first) = self.check_initializer_items(items, (count - 1) as nat);
            let (after, t) = before.check_initializer(items[count - 1]);
            (
                after,
                if count == 1 {
                    t
                } else {
                    first
                },
            )
        }
    }

    /// The state after checking a variable declaration: an initializer whose
    /// type does not fit the declared type is an error.
    pub open spec fn check_variable_declaration(self, decl: VariableDeclarationView) -> Self {
        let declared = specifier_type(decl.type_specifier);
        let s1 = self.record_if(
            declared is Unknown,
            TypeChkError::ErroneousVarDecl,
            decl.declarator.name,
        );
        match decl.initializer {
            Some(init) => {
                let (s2, t) = s1.check_initializer(init);
                s2.record_if(
                    t matches Some(t) && Self::mismatch(declared, t),
                    TypeChkError::ExpressionTypeMismatch,
                    decl.declarator.name,
                )
            },
            None => s1,
        }
    }

    /// The state after checking the condition of `if`, `while` or `for`,
    /// named by `keyword`: a condition that is not `Bool` is an error.
    pub open spec fn check_condition(self, condition: ExpressionView, keyword: Seq<char>) -> Self {
        let (s1, t) = self.check_expression(condition);
        s1.record_if(Self::not_boolean(t), TypeChkError::NonBooleanCondStmt, keyword)
    }

    /// The state after checking a `return` with this value.
    ///
    /// Outside a function nothing is checked. In a `Void` function a value
    /// is an error. Elsewhere a missing value is an error, and so is one
    /// whose type does not fit the return type. The value itself is checked
    /// wherever there is one.
    pub open spec fn check_return(self, value: Option<ExpressionView>) -> Self {
        match self.current_return_type {
            Some(return_type) => match value {
                Some(expr) => {
                    let (s1, t) = self.check_expression(expr);
                    s1.record_if(
                        return_type is Void || Self::mismatch(return_type, t),
                        TypeChkError::ErroneousReturnType,
                        "return"@,
                    )
                },
                None => self.record_if(
                    !(return_type is Void),
                    TypeChkError::ErroneousReturnType,
                    "return"@,
                ),
            },
            None => self,
        }
    }

    /// The state after checking an optional expression.
    pub open spec fn check_optional(self, expr: Option<ExpressionView>) -> Self {
        match expr {
            Some(e) => self.check_expression(e).0,
            None => self,
        }
    }

    /// The state after checking a statement.
    ///
    /// A block and a `for` loop are checked in their own scope, and the
    /// scope that was current is current again after them. The bodies of
    /// `while`, `for` and `do` are checked with the loop flag set, and the
    /// flag is what it was after them. `break` is an error where the flag is
    /// not set. The conditions of `if`, `while`, `for` and `do` must be
    /// `Bool`. Of `switch`, `case`, `default` and a labeled statement the
    /// parts are checked, in source order; `continue` and `goto` are never
    /// an error.
    pub open spec fn check_statement(self, stmt: StatementView) -> Self
        decreases stmt, 0nat,
    {
        match stmt {
            StatementView::Declaration(decl) => self.check_variable_declaration(decl),
            StatementView::Assignment(name, expr) => {
                let (s1, t) = self.check_expression(expr);
                s1.record_if(
                    self.get_variable_type(name) matches Some(declared) && Self::mismatch(
                        declared,
                        t,
                    ),
                    TypeChkError::ExpressionTypeMismatch,
                    name,
                )
            },
            StatementView::Return(value) => self.check_return(value),
            StatementView::Expression(expr) => self.check_expression(expr).0,
            StatementView::Block(stmts) => self.enter_child_scope().check_statements(
                stmts,
                stmts.len(),
            ).with_scope(self.current_scope),
            StatementView::If(condition, first, second) => {
                let s1 = self.check_condition(condition, "if"@).check_statement(*first);
                match second {
                    Some(stmt) => s1.check_statement(*stmt),
                    None => s1,
                }
            },
            StatementView::While(condition, body) => self.check_condition(
                condition,
                "while"@,
            ).with_loop(true).check_statement(*body).with_loop(self.in_loop),
            StatementView::For(init, condition, update, body) => {
                let entered = self.enter_child_scope();
                let s1 = match init {
                    Some(stmt) => entered.check_statement(*stmt),
                    None => entered,
                };
                let s2 = match condition {
                    Some(expr) => s1.check_condition(expr, "for"@),
                    None => s1,
                };
                s2.check_optional(update).with_loop(true).check_statement(*body).with_loop(
                    self.in_loop,
                ).with_scope(self.current_scope)
            },
            StatementView::Break => self.record_if(
                !self.in_loop,
                TypeChkError::ErroneousBreak,
                "break"@,
            ),
            StatementView::DoWhile(body, condition) => self.with_loop(true).check_statement(
                *body,
            ).with_loop(self.in_loop).check_condition(condition, "do"@),
            StatementView::Switch(value, body) => self.check_expression(value).0.check_statement(
                *body,
            ),
            StatementView::Case(value, body) => self.check_expression(value).0.check_statement(
                *body,
            ),
            StatementView::Default(body) => self.check_statement(*body),
            StatementView::Continue => self,
            StatementView::Goto(_) => self,
            StatementView::Labeled(_, body) => self.check_statement(*body),
        }
    }

    /// The state after checking the first `count` statements of a list.
    pub open spec fn check_statements(self, stmts: Seq<StatementView>, count: nat) -> Self
        decreases stmts, count,
    {
        if count == 0 || count > stmts.len() {
            self
        } else {
            self.check_statements(stmts, (count - 1) as nat).check_statement(stmts[count - 1])
        }
    }

    /// Whether a `return` statement stands in the list itself: one nested
    /// in a block, a branch or a loop does not count.
    pub open spec fn has_direct_return(stmts: Seq<StatementView>) -> bool {
        exists|i: int| 0 <= i < stmts.len() && #[trigger] stmts[i] is Return
    }

    /// The state after checking a function definition: its body is checked
    /// in the scope of the function, outside any loop, against its return
    /// type; a function that does not return `Void` and has no `return`
    /// statement directly in its body is an error. The scope, the loop flag
    /// and the absence of a return type are restored.
    pub open spec fn check_function_definition(self, def: FunctionDefinitionView) -> Self {
        let return_type = named_type(def.return_type);
        let body = self.with_return_type(Some(return_type)).enter_function_scope(
            def.parameters,
        ).with_loop(false).check_statements(def.body, def.body.len());
        body.record_if(
            !(return_type is Void) && !Self::has_direct_return(def.body),
            TypeChkError::ReturnStmtNotFound,
            def.name,
        ).with_loop(self.in_loop).with_return_type(None).with_scope(self.current_scope)
    }

    /// The state after checking one external declaration. Prototypes are
    /// not checked.
    pub open spec fn check_external_declaration(self, decl: ExternalDeclarationView) -> Self {
        match decl {
            ExternalDeclarationView::Variable(v) => self.check_variable_declaration(v),
            ExternalDeclarationView::Function(f) => self.check_function_definition(f),
            ExternalDeclarationView::FunctionDeclaration(_) => self,
        }
    }

    /// The state after checking the first `count` external declarations.
    pub open spec fn check_external_declarations(
        self,
        decls: Seq<ExternalDeclarationView>,
        count: nat,
    ) -> Self
        decreases count,
    {
        if count == 0 || count > decls.len() {
            self
        } else {
            self.check_external_declarations(
                decls,
                (count - 1) as nat,
            ).check_external_declaration(decls[count - 1])
        }
    }

    /// The state after checking a whole translation unit, in source order.
    pub open spec fn check_translation_unit(self, unit: TranslationUnitView) -> Self {
        self.check_external_declarations(
            unit.external_declarations,
            unit.external_declarations.len(),
        )
    }
}

// ---------------------------------------------------------------------------
// Laws of the model
// ---------------------------------------------------------------------------

/// The error that `record_error` adds for `kind` and `context`.
pub open spec fn error_of(state: TypeCheckerView, kind: TypeChkError, context: Seq<char>) -> TypeErrorView {
    TypeErrorView { error: kind, line: line_of_context(state.source_lines, context), context }
}

impl TypeCheckerView {
    /// Whether this state is `before` with, at most, more errors.
    pub open spec fn adds_errors_to(self, before: Self) -> bool {
        &&& self.same_context(before)
        &&& self.next_scope == before.next_scope
        &&& before.errors.is_prefix_of(self.errors)
    }

    /// Whether this state is `before` with, at most, more errors and a
    /// later next scope.
    pub open spec fn follows(self, before: Self) -> bool {
        &&& self.same_context(before)
        &&& before.errors.is_prefix_of(self.errors)
    }
}

/// Adding errors is transitive, and recording adds errors.
pub proof fn lemma_adds_errors(first: TypeCheckerView, second: TypeCheckerView, third: TypeCheckerView)
    requires
        second.adds_errors_to(first),
        third.adds_errors_to(second),
    ensures
        third.adds_errors_to(first),
{
}

/// Recording an error, or none, adds errors.
pub proof fn lemma_record_adds_errors(
    state: TypeCheckerView,
    violated: bool,
    kind: TypeChkError,
    context: Seq<char>,
)
    ensures
        state.record_if(violated, kind, context).adds_errors_to(state),
        state.record_error(kind, context).adds_errors_to(state),
{
}

/// Following is transitive.
pub proof fn lemma_follows(first: TypeCheckerView, second: TypeCheckerView, third: TypeCheckerView)
    requires
        second.follows(first),
        third.follows(second),
    ensures
        third.follows(first),
{
}

/// The rules of the operators add errors, and nothing else.
pub proof fn lemma_rules_add_errors(
    state: TypeCheckerView,
    binary: BinaryOperator,
    unary: UnaryOperator,
    assignment: AssignmentOperator,
    left: Type,
    right: Type,
)
    ensures
        state.check_binary_operation(binary, left, right).0.adds_errors_to(state),
        state.check_unary_operation(unary, left).0.adds_errors_to(state),
        state.check_assignment_operation(assignment, left, right).0.adds_errors_to(state),
        state.check_conditional_branches(left, right).0.adds_errors_to(state),
{
}

/// Checking an expression changes nothing of a state but its errors, and
/// keeps those that were recorded.
pub proof fn lemma_check_expression_frame(state: TypeCheckerView, expr: ExpressionView)
    ensures
        state.check_expression(expr).0.adds_errors_to(state),
    decreases expr, 0nat,
{
    match expr {
        ExpressionView::Identifier(_) => {},
        ExpressionView::Constant(_) => {},
        ExpressionView::StringLiteral(_) => {},
        ExpressionView::BinaryOp(left, op, right) => {
            lemma_check_expression_frame(state, *left);
            let (s1, lt) = state.check_expression(*left);
            lemma_check_expression_frame(s1, *right);
            let (s2, rt) = s1.check_expression(*right);
            lemma_adds_errors(state, s1, s2);
            lemma_rules_add_errors(
                s2,
                op,
                UnaryOperator::Plus,
                AssignmentOperator::Assign,
                lt,
                rt,
            );
            lemma_adds_errors(state, s2, s2.check_binary_operation(op, lt, rt).0);
        },
        ExpressionView::UnaryOp(op, operand) => {
            lemma_check_expression_frame(state, *operand);
            let (s1, t) = state.check_expression(*operand);
            lemma_rules_add_errors(s1, BinaryOperator::Plus, op, AssignmentOperator::Assign, t, t);
            lemma_adds_errors(state, s1, s1.check_unary_operation(op, t).0);
        },
        ExpressionView::Assignment(left, op, right) => {
            lemma_check_expression_frame(state, *left);
            let (s1, lt) = state.check_expression(*left);
            lemma_check_expression_frame(s1, *right);
            let (s2, rt) = s1.check_expression(*right);
            lemma_adds_errors(state, s1, s2);
            lemma_rules_add_errors(s2, BinaryOperator::Plus, UnaryOperator::Plus, op, lt, rt);
            lemma_adds_errors(state, s2, s2.check_assignment_operation(op, lt, rt).0);
        },
        ExpressionView::Conditional(condition, first, second) => {
            lemma_check_expression_frame(state, *condition);
            let (s1, ct) = state.check_expression(*condition);
            let s2 = s1.record_if(
                TypeCheckerView::not_boolean(ct),
                TypeChkError::ExpectedBooleanExpression,
                "?:"@,
            );
            lemma_record_adds_errors(
                s1,
                TypeCheckerView::not_boolean(ct),
                TypeChkError::ExpectedBooleanExpression,
                "?:"@,
            );
            lemma_adds_errors(state, s1, s2);
            lemma_check_expression_frame(s2, *first);
            let (s3, ft) = s2.check_expression(*first);
            lemma_adds_errors(state, s2, s3);
            lemma_check_expression_frame(s3, *second);
            let (s4, st) = s3.check_expression(*second);
            lemma_adds_errors(state, s3, s4);
            lemma_rules_add_errors(
                s4,
                BinaryOperator::Plus,
                UnaryOperator::Plus,
                AssignmentOperator::Assign,
                ft,
                st,
            );
            lemma_adds_errors(state, s4, s4.check_conditional_branches(ft, st).0);
        },
        ExpressionView::FunctionCall(name, args) => {
            match state.global_function(name) {
                Some((return_type, params)) => {
                    let s1 = state.record_if(
                        args.len() != params.len(),
                        TypeChkError::FnCallParamCount,
                        name,
                    );
                    lemma_record_adds_errors(
                        state,
                        args.len() != params.len(),
                        TypeChkError::FnCallParamCount,
                        name,
                    );
                    let count = if args.len() <= params.len() {
                        args.len()
                    } else {
                        params.len()
                    };
                    lemma_check_arguments_frame(s1, name, params, args, count);
                    lemma_adds_errors(state, s1, s1.check_arguments(name, params, args, count));
                },
                None => {},
            }
        },
        ExpressionView::ArrayAccess(array, index) => {
            lemma_check_expression_frame(state, *index);
            let (s1, it) = state.check_expression(*index);
            let s2 = s1.record_if(
                !is_integer(it) && !(it is Unknown),
                TypeChkError::ExpressionTypeMismatch,
                "[]"@,
            );
            lemma_record_adds_errors(
                s1,
                !is_integer(it) && !(it is Unknown),
                TypeChkError::ExpressionTypeMismatch,
                "[]"@,
            );
            lemma_adds_errors(state, s1, s2);
            lemma_check_expression_frame(s2, *array);
            lemma_adds_errors(state, s2, s2.check_expression(*array).0);
        },
        ExpressionView::MemberAccess(object, _) => {
            lemma_check_expression_frame(state, *object);
        },
        ExpressionView::PointerAccess(pointer, _) => {
            lemma_check_expression_frame(state, *pointer);
        },
        ExpressionView::PostfixOp(operand, _) => {
            lemma_check_expression_frame(state, *operand);
        },
        ExpressionView::Cast(_, operand) => {
            lemma_check_expression_frame(state, *operand);
        },
    }
}

/// Checking arguments changes nothing of a state but its errors, and keeps
/// those that were recorded.
pub proof fn lemma_check_arguments_frame(
    state: TypeCheckerView,
    name: Seq<char>,
    params: Seq<ParameterView>,
    args: Seq<ExpressionView>,
    count: nat,
)
    ensures
        state.check_arguments(name, params, args, count).adds_errors_to(state),
    decreases args, count,
{
    if count == 0 || count > args.len() {
    } else {
        lemma_check_arguments_frame(state, name, params, args, (count - 1) as nat);
        let before = state.check_arguments(name, params, args, (count - 1) as nat);
        lemma_check_expression_frame(before, args[count - 1]);
        let (after, t) = before.check_expression(args[count - 1]);
        lemma_adds_errors(state, before, after);
        let violated = TypeCheckerView::mismatch(named_type(params[count - 1].param_type), t);
        lemma_record_adds_errors(after, violated, TypeChkError::FnCallParamType, name);
        lemma_adds_errors(
            state,
            after,
            after.record_if(violated, TypeChkError::FnCallParamType, name),
        );
    }
}

/// Checking a condition changes nothing of a state but its errors.
pub proof fn lemma_check_condition_frame(
    state: TypeCheckerView,
    condition: ExpressionView,
    keyword: Seq<char>,
)
    ensures
        state.check_condition(condition, keyword).adds_errors_to(state),
{
    lemma_check_expression_frame(state, condition);
    let (s1, t) = state.check_expression(condition);
    lemma_record_adds_errors(
        s1,
        TypeCheckerView::not_boolean(t),
        TypeChkError::NonBooleanCondStmt,
        keyword,
    );
}

/// Checking a `return` changes nothing of a state but its errors.
pub proof fn lemma_check_return_frame(state: TypeCheckerView, value: Option<ExpressionView>)
    ensures
        state.check_return(value).adds_errors_to(state),
{
    match value {
        Some(expr) => {
            lemma_check_expression_frame(state, expr);
        },
        None => {},
    }
}

/// A condition that is not boolean: where the condition of `if`, `while` or
/// `for` has a type other than `Bool` and `Unknown`, exactly one error is
/// recorded after those of the condition itself, and it names the
/// statement; else none is.
pub proof fn lemma_condition_must_be_boolean(
    state: TypeCheckerView,
    condition: ExpressionView,
    keyword: Seq<char>,
)
    ensures
        ({
            let (checked, t) = state.check_expression(condition);
            &&& !(t is Bool) && !(t is Unknown) ==> state.check_condition(condition, keyword).errors
                == checked.errors.push(
                error_of(state, TypeChkError::NonBooleanCondStmt, keyword),
            )
            &&& t is Bool || t is Unknown ==> state.check_condition(condition, keyword) == checked
        }),
{
    lemma_check_expression_frame(state, condition);
}

/// A literal is never a condition: an integer, floating-point or character
/// constant or a string as the condition of `if` is an error, which stays
/// recorded whatever the statement holds.
pub proof fn lemma_literal_condition(
    state: TypeCheckerView,
    literal: ExpressionView,
    first: StatementView,
)
    requires
        literal is Constant || literal is StringLiteral,
    ensures
        state.check_condition(literal, "if"@).errors == state.errors.push(
            error_of(state, TypeChkError::NonBooleanCondStmt, "if"@),
        ),
        state.errors.push(error_of(state, TypeChkError::NonBooleanCondStmt, "if"@)).is_prefix_of(
            state.check_statement(StatementView::If(literal, Box::new(first), None)).errors,
        ),
{
    let s1 = state.check_condition(literal, "if"@);
    lemma_check_statement_frame(s1, first);
}

/// Checking a statement leaves the scope, the loop flag and the return
/// type of a state as they were, and keeps the errors that were recorded.
pub proof fn lemma_check_statement_frame(state: TypeCheckerView, stmt: StatementView)
    ensures
        state.check_statement(stmt).follows(state),
    decreases stmt, 1nat,
{
    match stmt {
        StatementView::Declaration(decl) => {
            lemma_check_variable_declaration_frame(state, decl);
        },
        StatementView::Assignment(name, expr) => {
            lemma_check_expression_frame(state, expr);
            let (s1, t) = state.check_expression(expr);
            lemma_record_adds_errors(
                s1,
                state.get_variable_type(name) matches Some(declared) && TypeCheckerView::mismatch(
                    declared,
                    t,
                ),
                TypeChkError::ExpressionTypeMismatch,
                name,
            );
        },
        StatementView::Return(value) => {
            lemma_check_return_frame(state, value);
        },
        StatementView::Expression(expr) => {
            lemma_check_expression_frame(state, expr);
        },
        StatementView::Block(stmts) => {
            lemma_check_block_frame(state, stmts);
        },
        StatementView::If(condition, first, second) => {
            lemma_check_condition_frame(state, condition, "if"@);
            let s1 = state.check_condition(condition, "if"@);
            lemma_check_statement_frame(s1, *first);
            let s2 = s1.check_statement(*first);
            lemma_follows(state, s1, s2);
            match second {
                Some(stmt) => {
                    lemma_check_statement_frame(s2, *stmt);
                    lemma_follows(state, s2, s2.check_statement(*stmt));
                },
                None => {},
            }
        },
        StatementView::While(condition, body) => {
            lemma_check_condition_frame(state, condition, "while"@);
            let s1 = state.check_condition(condition, "while"@);
            lemma_check_statement_frame(s1.with_loop(true), *body);
        },
        StatementView::For(init, condition, update, body) => {
            lemma_check_for_frame(state, init, condition, update, body);
        },
        StatementView::Break => {},
        StatementView::DoWhile(body, condition) => {
            lemma_check_statement_frame(state.with_loop(true), *body);
            let s1 = state.with_loop(true).check_statement(*body).with_loop(state.in_loop);
            lemma_check_condition_frame(s1, condition, "do"@);
        },
        StatementView::Switch(value, body) => {
            lemma_check_expression_frame(state, value);
            let s1 = state.check_expression(value).0;
            lemma_check_statement_frame(s1, *body);
            lemma_follows(state, s1, s1.check_statement(*body));
        },
        StatementView::Case(value, body) => {
            lemma_check_expression_frame(state, value);
            let s1 = state.check_expression(value).0;
            lemma_check_statement_frame(s1, *body);
            lemma_follows(state, s1, s1.check_statement(*body));
        },
        StatementView::Default(body) => {
            lemma_check_statement_frame(state, *body);
        },
        StatementView::Continue => {},
        StatementView::Goto(_) => {},
        StatementView::Labeled(_, body) => {
            lemma_check_statement_frame(state, *body);
        },
    }
}

/// Checking a block leaves the scope of a state as it was.
proof fn lemma_check_block_frame(state: TypeCheckerView, stmts: Seq<StatementView>)
    ensures
        state.check_statement(StatementView::Block(stmts)).follows(state),
    decreases StatementView::Block(stmts), 0nat,
{
    let entered = state.enter_child_scope();
    lemma_check_statements_frame(entered, stmts, stmts.len());
}

/// Checking a `for` loop leaves the scope and the loop flag of a state as
/// they were.
proof fn lemma_check_for_frame(
    state: TypeCheckerView,
    init: Option<Box<StatementView>>,
    condition: Option<ExpressionView>,
    update: Option<ExpressionView>,
    body: Box<StatementView>,
)
    ensures
        state.check_statement(StatementView::For(init, condition, update, body)).follows(state),
    decreases StatementView::For(init, condition, update, body), 0nat,
{
    let entered = state.enter_child_scope();
    let s1 = match init {
        Some(stmt) => entered.check_statement(*stmt),
        None => entered,
    };
    match init {
        Some(stmt) => {
            lemma_check_statement_frame(entered, *stmt);
        },
        None => {},
    }
    assert(s1.follows(entered));
    let s2 = match condition {
        Some(expr) => s1.check_condition(expr, "for"@),
        None => s1,
    };
    match condition {
        Some(expr) => {
            lemma_check_condition_frame(s1, expr, "for"@);
        },
        None => {},
    }
    assert(s2.follows(s1));
    let s3 = s2.check_optional(update);
    match update {
        Some(expr) => {
            lemma_check_expression_frame(s2, expr);
        },
        None => {},
    }
    assert(s3.follows(s2));
    lemma_follows(entered, s1, s2);
    lemma_follows(entered, s2, s3);
    let looping = s3.with_loop(true);
    lemma_check_statement_frame(looping, *body);
    let s4 = looping.check_statement(*body);
    assert(s4.follows(looping));
    assert(entered.errors.is_prefix_of(s4.errors));
}

/// Checking a list of statements leaves the scope, the loop flag and the
/// return type of a state as they were.
pub proof fn lemma_check_statements_frame(
    state: TypeCheckerView,
    stmts: Seq<StatementView>,
    count: nat,
)
    ensures
        state.check_statements(stmts, count).follows(state),
    decreases stmts, count,
{
    if count == 0 || count > stmts.len() {
    } else {
        lemma_check_statements_frame(state, stmts, (count - 1) as nat);
        let before = state.check_statements(stmts, (count - 1) as nat);
        lemma_check_statement_frame(before, stmts[count - 1]);
        lemma_follows(state, before, before.check_statement(stmts[count - 1]));
    }
}

/// Checking an initializer changes nothing of a state but its errors.
pub proof fn lemma_check_initializer_frame(state: TypeCheckerView, init: InitializerView)
    ensures
        state.check_initializer(init).0.adds_errors_to(state),
    decreases init, 0nat,
{
    match init.kind {
        InitializerKindView::Assignment(expr) => {
            lemma_check_expression_frame(state, expr);
        },
        InitializerKindView::List(items) => {
            lemma_check_initializer_items_frame(state, items, items.len());
        },
        InitializerKindView::Designated(_, inner) => {
            lemma_check_initializer_frame(state, *inner);
        },
    }
}

/// Checking the items of an initializer list changes nothing of a state but
/// its errors.
pub proof fn lemma_check_initializer_items_frame(
    state: TypeCheckerView,
    items: Seq<InitializerView>,
    count: nat,
)
    ensures
        state.check_initializer_items(items, count).0.adds_errors_to(state),
    decreases items, count,
{
    if count == 0 || count > items.len() {
    } else {
        lemma_check_initializer_items_frame(state, items, (count - 1) as nat);
        let before = state.check_initializer_items(items, (count - 1) as nat).0;
        lemma_check_initializer_frame(before, items[count - 1]);
        lemma_adds_errors(state, before, before.check_initializer(items[count - 1]).0);
    }
}

/// Checking a variable declaration changes nothing of a state but its
/// errors.
pub proof fn lemma_check_variable_declaration_frame(
    state: TypeCheckerView,
    decl: VariableDeclarationView,
)
    ensures
        state.check_variable_declaration(decl).adds_errors_to(state),
{
    let declared = specifier_type(decl.type_specifier);
    let s1 = state.record_if(
        declared is Unknown,
        TypeChkError::ErroneousVarDecl,
        decl.declarator.name,
    );
    lemma_record_adds_errors(
        state,
        declared is Unknown,
        TypeChkError::ErroneousVarDecl,
        decl.declarator.name,
    );
    match decl.initializer {
        Some(init) => {
            lemma_check_initializer_frame(s1, init);
            let (s2, t) = s1.check_initializer(init);
            lemma_adds_errors(state, s1, s2);
            lemma_record_adds_errors(
                s2,
                t matches Some(t) && TypeCheckerView::mismatch(declared, t),
                TypeChkError::ExpressionTypeMismatch,
                decl.declarator.name,
            );
        },
        None => {},
    }
}

/// An initializer must fit: a declaration whose initializer has a type that
/// is not compatible with the declared type records an error that names the
/// variable; one whose initializer is compatible, or `Unknown`, records
/// none for it. So `int x = 3.5;` is accepted and `int x = "hi";` is not.
pub proof fn lemma_initializer_must_fit(
    state: TypeCheckerView,
    specifier: TypeSpecifier,
    name: Seq<char>,
    value: ExpressionView,
)
    ensures
        ({
            let decl = VariableDeclarationView {
                storage_class: None,
                type_qualifiers: Seq::empty(),
                type_specifier: specifier,
                declarator: crate::parser::ast::DeclaratorView {
                    name,
                    pointer_depth: 0,
                    array_sizes: Seq::empty(),
                    function_params: None,
                },
                initializer: Some(
                    InitializerView { kind: InitializerKindView::Assignment(value) },
                ),
            };
            let (checked, t) = state.check_expression(value);
            &&& compatible(specifier_type(specifier), t) || t is Unknown
                ==> state.check_variable_declaration(decl) == checked
            &&& !compatible(specifier_type(specifier), t) && !(t is Unknown)
                ==> state.check_variable_declaration(decl).errors == checked.errors.push(
                error_of(state, TypeChkError::ExpressionTypeMismatch, name),
            )
        }),
{
    lemma_check_expression_frame(state, value);
}

/// `break` outside a loop is an error, and inside one it is none: checked
/// with the loop flag unset, `break` records exactly one error; checked as
/// the body of `while`, it records none, whatever the flag was.
pub proof fn lemma_break_needs_a_loop(state: TypeCheckerView, condition: ExpressionView)
    ensures
        !state.in_loop ==> state.check_statement(StatementView::Break).errors
            == state.errors.push(error_of(state, TypeChkError::ErroneousBreak, "break"@)),
        state.in_loop ==> state.check_statement(StatementView::Break) == state,
        state.check_statement(
            StatementView::While(condition, Box::new(StatementView::Break)),
        ).errors == state.check_condition(condition, "while"@).errors,
        state.check_statement(
            StatementView::While(condition, Box::new(StatementView::Break)),
        ).in_loop == state.in_loop,
{
    reveal_with_fuel(TypeCheckerView::check_statement, 2);
    lemma_check_condition_frame(state, condition, "while"@);
}

/// A function with a value to return needs a `return`: a definition whose
/// return type is not `void` and whose body holds no `return` statement of
/// its own ends with exactly one error about it, which names the function;
/// any other definition ends with none.
pub proof fn lemma_missing_return(state: TypeCheckerView, def: FunctionDefinitionView)
    ensures
        ({
            let body = state.with_return_type(Some(named_type(def.return_type))).enter_function_scope(
                def.parameters,
            ).with_loop(false).check_statements(def.body, def.body.len());
            let missing = !(named_type(def.return_type) is Void)
                && !TypeCheckerView::has_direct_return(def.body);
            &&& missing ==> state.check_function_definition(def).errors == body.errors.push(
                error_of(state, TypeChkError::ReturnStmtNotFound, def.name),
            )
            &&& !missing ==> state.check_function_definition(def).errors == body.errors
            &&& state.errors.is_prefix_of(state.check_function_definition(def).errors)
        }),
{
    let start = state.with_return_type(Some(named_type(def.return_type))).enter_function_scope(
        def.parameters,
    ).with_loop(false);
    lemma_check_statements_frame(start, def.body, def.body.len());
}

/// A `void` function returns no value: `return` with a value, checked
/// where the return type is `Void`, records exactly one error after those
/// of the value.
pub proof fn lemma_void_returns_nothing(state: TypeCheckerView, value: ExpressionView)
    requires
        state.current_return_type == Some(Type::Void),
    ensures
        state.check_statement(StatementView::Return(Some(value))).errors == state.check_expression(
            value,
        ).0.errors.push(error_of(state, TypeChkError::ErroneousReturnType, "return"@)),
        state.check_statement(StatementView::Return(None)) == state,
{
    lemma_check_expression_frame(state, value);
}

/// A wrong argument count does not stop the checking of arguments: a call
/// of a function with another number of arguments than it has parameters
/// records the count once, then checks each argument that has a parameter
/// against it, first to last, and has the declared return type.
pub proof fn lemma_arity_mismatch(state: TypeCheckerView, name: Seq<char>, args: Seq<ExpressionView>)
    requires
        state.global_function(name) is Some,
        state.global_function(name) matches Some(f) && args.len() != f.1.len(),
    ensures
        ({
            let (return_type, params) = state.global_function(name)->0;
            let counted = state.record_error(TypeChkError::FnCallParamCount, name);
            let supplied = if args.len() <= params.len() {
                args.len()
            } else {
                params.len()
            };
            &&& state.check_expression(ExpressionView::FunctionCall(name, args)) == (
                counted.check_arguments(name, params, args, supplied),
                named_type(return_type),
            )
            &&& counted.errors == state.errors.push(
                error_of(state, TypeChkError::FnCallParamCount, name),
            )
            &&& counted.errors.is_prefix_of(
                state.check_expression(ExpressionView::FunctionCall(name, args)).0.errors,
            )
        }),
{
    let (return_type, params) = state.global_function(name)->0;
    let counted = state.record_error(TypeChkError::FnCallParamCount, name);
    let supplied = if args.len() <= params.len() {
        args.len()
    } else {
        params.len()
    };
    lemma_check_arguments_frame(counted, name, params, args, supplied);
}

/// An argument must fit its parameter: the last of the arguments checked
/// records an error that names the function if and only if its type is
/// neither compatible with the type of its parameter nor `Unknown`.
pub proof fn lemma_argument_must_fit(
    state: TypeCheckerView,
    name: Seq<char>,
    params: Seq<ParameterView>,
    args: Seq<ExpressionView>,
    count: nat,
)
    requires
        0 < count <= args.len(),
    ensures
        ({
            let before = state.check_arguments(name, params, args, (count - 1) as nat);
            let (checked, t) = before.check_expression(args[count - 1]);
            let wanted = named_type(params[count - 1].param_type);
            &&& compatible(wanted, t) || t is Unknown ==> state.check_arguments(
                name,
                params,
                args,
                count,
            ) == checked
            &&& !compatible(wanted, t) && !(t is Unknown) ==> state.check_arguments(
                name,
                params,
                args,
                count,
            ).errors == checked.errors.push(error_of(state, TypeChkError::FnCallParamType, name))
        }),
{
    let before = state.check_arguments(name, params, args, (count - 1) as nat);
    lemma_check_arguments_frame(state, name, params, args, (count - 1) as nat);
    lemma_check_expression_frame(before, args[count - 1]);
}

/// An `Unknown` operand is no further error: an operator applied to an
/// operand of type `Unknown` records nothing and is `Unknown` itself.
pub proof fn lemma_unknown_does_not_cascade(
    state: TypeCheckerView,
    binary: BinaryOperator,
    unary: UnaryOperator,
    assignment: AssignmentOperator,
    other: Type,
)
    ensures
        state.check_binary_operation(binary, Type::Unknown, other) == (state, Type::Unknown),
        state.check_binary_operation(binary, other, Type::Unknown) == (state, Type::Unknown),
        state.check_unary_operation(unary, Type::Unknown) == (state, Type::Unknown),
        state.check_assignment_operation(assignment, Type::Unknown, other) == (
            state,
            Type::Unknown,
        ),
        state.check_assignment_operation(assignment, other, Type::Unknown) == (
            state,
            Type::Unknown,
        ),
        state.check_conditional_branches(Type::Unknown, other) == (state, Type::Unknown),
        state.check_conditional_branches(other, Type::Unknown) == (state, Type::Unknown),
        !TypeCheckerView::not_boolean(Type::Unknown),
        !TypeCheckerView::mismatch(other, Type::Unknown),
{
}

/// The types of the operators: arithmetic gives the wider operand type,
/// comparison and logic give `Bool`, and `%`, the bitwise operators and the
/// shifts give the type of their left operand.
pub proof fn lemma_operator_types(state: TypeCheckerView, left: Type, right: Type)
    ensures
        is_numeric(left) && is_numeric(right) ==> state.check_binary_operation(
            BinaryOperator::Plus,
            left,
            right,
        ) == (state, wider(left, right)) && state.check_binary_operation(
            BinaryOperator::Less,
            left,
            right,
        ) == (state, Type::Bool),
        is_integer(left) && is_integer(right) ==> state.check_binary_operation(
            BinaryOperator::Mod,
            left,
            right,
        ) == (state, left) && state.check_binary_operation(BinaryOperator::BitAnd, left, right)
            == (state, left) && state.check_binary_operation(BinaryOperator::LShift, left, right)
            == (state, left),
        left is Bool && right is Bool ==> state.check_binary_operation(
            BinaryOperator::And,
            left,
            right,
        ) == (state, Type::Bool),
        compatible(left, right) && !(left is Unknown) && !(right is Unknown)
            ==> state.check_binary_operation(BinaryOperator::Equals, left, right) == (
            state,
            Type::Bool,
        ),
{
}

// ---------------------------------------------------------------------------
// The checker
// ---------------------------------------------------------------------------

/// The type checker.
pub struct TypeChecker {
    scope_analyzer: ScopeAnalyzer,
    errors: Vec<TypeError>,
    current_return_type: Option<Type>,
    in_loop: bool,
    current_scope: Option<usize>,
    next_scope: usize,
    source_lines: Vec<String>,
}

impl View for TypeChecker {
    type V = TypeCheckerView;

    closed spec fn view(&self) -> TypeCheckerView {
        TypeCheckerView {
            scopes: self.scope_analyzer@.scopes,
            errors: view_all(self.errors@),
            current_return_type: self.current_return_type,
            in_loop: self.in_loop,
            current_scope: match self.current_scope {
                Some(s) => Some(s as nat),
                None => None,
            },
            next_scope: self.next_scope as nat,
            source_lines: view_all(self.source_lines@),
        }
    }
}

impl TypeChecker {
    /// A checker over the scopes of a resolver that has been over the
    /// translation unit to check, and over the source text by lines.
    pub fn new(scope_analyzer: ScopeAnalyzer, source_lines: Vec<String>) -> (r: Self)
        requires
            scope_analyzer@.well_formed(),
        ensures
            r@ == TypeCheckerView::fresh(scope_analyzer@.scopes, view_all(source_lines@)),
            r@.well_formed(),
    {
        let r = TypeChecker {
            scope_analyzer,
            errors: Vec::new(),
            current_return_type: None,
            in_loop: false,
            current_scope: Some(0),
            next_scope: 1,
            source_lines,
        };
        assert(r@.errors =~= Seq::<TypeErrorView>::empty());
        r
    }

    /// Checks a whole translation unit and answers with every error found,
    /// in the order in which they were found.
    pub fn check_translation_unit(&mut self, unit: &TranslationUnit) -> (r: Result<
        (),
        Vec<TypeError>,
    >)
        requires
            old(self)@.well_formed(),
        ensures
            final(self)@ == old(self)@.check_translation_unit(unit@),
            final(self)@.well_formed(),
            final(self)@.scopes == old(self)@.scopes,
            final(self)@.current_scope == old(self)@.current_scope,
            r is Ok <==> final(self)@.errors.len() == 0,
            r matches Err(errors) ==> view_all(errors@) == final(self)@.errors,
    {
        let ghost start = self@;
        let ghost decls = view_all(unit.external_declarations@);
        let mut i: usize = 0;
        while i < unit.external_declarations.len()
            invariant
                i <= unit.external_declarations.len(),
                decls == view_all(unit.external_declarations@),
                self@.well_formed(),
                self@.scopes == old(self)@.scopes,
                self@.current_scope == old(self)@.current_scope,
                self@ == start.check_external_declarations(decls, i as nat),
            decreases unit.external_declarations.len() - i,
        {
            self.check_external_declaration(&unit.external_declarations[i]);
            i += 1;
        }
        if self.errors.is_empty() {
            Ok(())
        } else {
            let errors = self.errors.clone();
            assert(view_all(errors@) =~= view_all(self.errors@));
            Err(errors)
        }
    }

    /// Checks one external declaration.
    fn check_external_declaration(&mut self, decl: &ExternalDeclaration)
        requires
            old(self)@.well_formed(),
        ensures
            final(self)@ == old(self)@.check_external_declaration(decl@),
            final(self)@.well_formed(),
            final(self)@.scopes == old(self)@.scopes,
            final(self)@.current_scope == old(self)@.current_scope,
    {
        match decl {
            ExternalDeclaration::Variable(var_decl) => {
                self.check_variable_declaration(var_decl);
            },
            ExternalDeclaration::Function(func_def) => {
                self.check_function_definition(func_def);
            },
            ExternalDeclaration::FunctionDeclaration(_func_decl) => {},
        }
    }

    /// Checks a variable declaration against its initializer.
    fn check_variable_declaration(&mut self, var_decl: &VariableDeclaration)
        requires
            old(self)@.well_formed(),
        ensures
            final(self)@ == old(self)@.check_variable_declaration(var_decl@),
            final(self)@.well_formed(),
            final(self)@.same_context(old(self)@),
    {
        let var_type = self.type_specifier_to_type(&var_decl.type_specifier);
        if var_type == Type::Unknown {
            self.record_error(TypeChkError::ErroneousVarDecl, var_decl.declarator.name.as_str());
        }
        if let Some(initializer) = &var_decl.initializer {
            if let Some(init_type) = self.check_initializer(initializer) {
                if init_type != Type::Unknown && !self.are_types_compatible(&var_type, &init_type) {
                    self.record_error(
                        TypeChkError::ExpressionTypeMismatch,
                        var_decl.declarator.name.as_str(),
                    );
                }
            }
        }
    }

    /// Checks an initializer and answers with its type.
    #[verifier::loop_isolation(false)]
    fn check_initializer(&mut self, initializer: &Initializer) -> (r: Option<Type>)
        requires
            old(self)@.well_formed(),
        ensures
            (final(self)@, r) == old(self)@.check_initializer(initializer@),
            final(self)@.well_formed(),
            final(self)@.same_context(old(self)@),
        decreases initializer,
    {
        match &initializer.kind {
            InitializerKind::Assignment(expr) => Some(self.check_expression(expr)),
            InitializerKind::List(initializers) => {
                let ghost start = self@;
                let ghost items = view_all(initializers@);
                let mut first: Option<Type> = None;
                let mut i: usize = 0;
                while i < initializers.len()
                    invariant
                        i <= initializers.len(),
                        self@.well_formed(),
                        self@.same_context(old(self)@),
                        (self@, first) == start.check_initializer_items(items, i as nat),
                    decreases initializers.len() - i,
                {
                    let t = self.check_initializer(&initializers[i]);
                    if i == 0 {
                        first = t;
                    }
                    i += 1;
                }
                proof {
                    lemma_initializer_list_view(*initializers);
                }
                first
            },
            InitializerKind::Designated(_designator, init) => self.check_initializer(init),
        }
    }

    /// Checks a function definition: its body against its return type, and
    /// that a function with a value to return has a `return` statement.
    fn check_function_definition(&mut self, func_def: &FunctionDefinition)
        requires
            old(self)@.well_formed(),
        ensures
            final(self)@ == old(self)@.check_function_definition(func_def@),
            final(self)@.well_formed(),
            final(self)@.scopes == old(self)@.scopes,
            final(self)@.current_scope == old(self)@.current_scope,
    {
        let return_type = self.string_to_type(func_def.return_type.as_str());
        self.current_return_type = Some(return_type);

        let saved_scope = self.current_scope;
        self.enter_function_scope(&func_def.parameters);
        let saved_in_loop = self.in_loop;
        self.in_loop = false;

        self.check_statement_list(&func_def.body);
        let has_return = Self::has_return_statement(&func_def.body);
        if return_type != Type::Void && !has_return {
            self.record_error(TypeChkError::ReturnStmtNotFound, func_def.name.as_str());
        }
        self.in_loop = saved_in_loop;
        self.current_return_type = None;
        self.current_scope = saved_scope;
    }

    /// Whether the next scope of the arena is the scope of a function with
    /// these parameters.
    fn at_function_scope(&self, params: &Vec<Parameter>) -> (r: bool)
        requires
            self@.well_formed(),
        ensures
            r == self@.at_function_scope(view_all(params@)),
    {
        let scopes = self.scope_analyzer.get_all_scopes();
        if self.next_scope >= scopes.len() {
            return false;
        }
        let node = &scopes[self.next_scope];
        assert(node@ == self@.scopes[self.next_scope as int]);
        if node.scope_level != 1 {
            return false;
        }
        let mut i: usize = 0;
        while i < params.len()
            invariant
                i <= params.len(),
                node@ == self@.scopes[self.next_scope as int],
                forall|j: int| 0 <= j < i ==> node@.symbols.contains_key(#[trigger] params@[j]@.name),
            decreases params.len() - i,
        {
            if !node.binds(params[i].name.as_str()) {
                assert(view_all(params@)[i as int].name == params@[i as int]@.name);
                return false;
            }
            i += 1;
        }
        assert forall|j: int| 0 <= j < view_all(params@).len() implies node@.symbols.contains_key(
            #[trigger] view_all(params@)[j].name,
        ) by {
            assert(view_all(params@)[j].name == params@[j]@.name);
        }
        true
    }

    /// Enters the next scope of the arena if it is the scope of a function
    /// with these parameters.
    fn enter_function_scope(&mut self, params: &Vec<Parameter>)
        requires
            old(self)@.well_formed(),
        ensures
            final(self)@ == old(self)@.enter_function_scope(view_all(params@)),
            final(self)@.well_formed(),
            final(self)@.scopes == old(self)@.scopes,
    {
        if self.at_function_scope(params) {
            let count = self.scope_analyzer.get_all_scopes().len();
            assert(self.next_scope < count);
            self.current_scope = Some(self.next_scope);
            self.next_scope = self.next_scope + 1;
        }
    }

    /// Enters the next scope of the arena if it is a child of the current
    /// scope.
    fn enter_child_scope(&mut self)
        requires
            old(self)@.well_formed(),
        ensures
            final(self)@ == old(self)@.enter_child_scope(),
            final(self)@.well_formed(),
            final(self)@.scopes == old(self)@.scopes,
    {
        let scopes = self.scope_analyzer.get_all_scopes();
        if self.next_scope < scopes.len() {
            let node = &scopes[self.next_scope];
            assert(node@ == self@.scopes[self.next_scope as int]);
            let is_child = match (node.parent, self.current_scope) {
                (Some(parent), Some(current)) => parent == current,
                _ => false,
            };
            if is_child {
                self.current_scope = Some(self.next_scope);
                self.next_scope = self.next_scope + 1;
            }
        }
    }

    /// Whether a `return` statement stands in the list itself.
    fn has_return_statement(stmts: &Vec<Statement>) -> (r: bool)
        ensures
            r == TypeCheckerView::has_direct_return(view_all(stmts@)),
    {
        let mut i: usize = 0;
        while i < stmts.len()
            invariant
                i <= stmts.len(),
                forall|j: int| 0 <= j < i ==> !(#[trigger] view_all(stmts@)[j] is Return),
            decreases stmts.len() - i,
        {
            assert(view_all(stmts@)[i as int] == stmts@[i as int]@);
            if let Statement::Return(_) = &stmts[i] {
                return true;
            }
            i += 1;
        }
        false
    }

    /// Checks the statements of a list, first to last.
    fn check_statement_list(&mut self, stmts: &Vec<Statement>)
        requires
            old(self)@.well_formed(),
        ensures
            final(self)@ == old(self)@.check_statements(view_all(stmts@), stmts@.len()),
            final(self)@.well_formed(),
            final(self)@.same_context(old(self)@),
        decreases stmts,
    {
        let ghost start = self@;
        let ghost items = view_all(stmts@);
        let mut i: usize = 0;
        while i < stmts.len()
            invariant
                i <= stmts.len(),
                items == view_all(stmts@),
                self@.well_formed(),
                self@.same_context(old(self)@),
                self@ == start.check_statements(items, i as nat),
            decreases stmts.len() - i,
        {
            let _ = self.check_statement(&stmts[i]);
            i += 1;
        }
    }

    /// Checks a statement and answers whether it is a `return` statement.
    fn check_statement(&mut self, stmt: &Statement) -> (r: bool)
        requires
            old(self)@.well_formed(),
        ensures
            final(self)@ == old(self)@.check_statement(stmt@),
            final(self)@.well_formed(),
            final(self)@.same_context(old(self)@),
            r == (stmt@ is Return),
        decreases stmt,
    {
        match stmt {
            Statement::Declaration(var_decl) => {
                self.check_variable_declaration(var_decl);
                false
            },
            Statement::Assignment(var_name, expr) => {
                self.check_assignment_statement(var_name.as_str(), expr);
                false
            },
            Statement::Return(expr_opt) => {
                self.check_return(expr_opt);
                true
            },
            Statement::Expression(expr) => {
                let _ = self.check_expression(expr);
                false
            },
            Statement::Block(statements) => {
                let saved_scope = self.current_scope;
                self.enter_child_scope();
                self.check_statement_list(statements);
                proof {
                    lemma_block_view(*statements);
                }
                self.current_scope = saved_scope;
                false
            },
            Statement::If(condition, then_stmt, else_stmt) => {
                self.check_condition(condition, "if");
                let _ = self.check_statement(then_stmt);
                if let Some(else_stmt) = else_stmt {
                    let _ = self.check_statement(else_stmt);
                }
                false
            },
            Statement::While(condition, body) => {
                self.check_condition(condition, "while");
                let saved_in_loop = self.in_loop;
                self.in_loop = true;
                let _ = self.check_statement(body);
                self.in_loop = saved_in_loop;
                false
            },
            Statement::For(init, condition, update, body) => {
                let saved_scope = self.current_scope;
                self.enter_child_scope();
                if let Some(init_stmt) = init {
                    let _ = self.check_statement(init_stmt);
                }
                if let Some(cond) = condition {
                    self.check_condition(cond, "for");
                }
                if let Some(update_expr) = update {
                    let _ = self.check_expression(update_expr);
                }
                let saved_in_loop = self.in_loop;
                self.in_loop = true;
                let _ = self.check_statement(body);
                self.in_loop = saved_in_loop;
                self.current_scope = saved_scope;
                false
            },
            Statement::Break => {
                if !self.in_loop {
                    self.record_error(TypeChkError::ErroneousBreak, "break");
                }
                false
            },
            Statement::DoWhile(body, condition) => {
                let saved_in_loop = self.in_loop;
                self.in_loop = true;
                let _ = self.check_statement(body);
                self.in_loop = saved_in_loop;
                self.check_condition(condition, "do");
                false
            },
            Statement::Switch(value, body) => {
                let _ = self.check_expression(value);
                let _ = self.check_statement(body);
                false
            },
            Statement::Case(value, body) => {
                let _ = self.check_expression(value);
                let _ = self.check_statement(body);
                false
            },
            Statement::Default(body) => {
                let _ = self.check_statement(body);
                false
            },
            Statement::Continue => false,
            Statement::Goto(_label) => false,
            Statement::Labeled(_label, body) => {
                let _ = self.check_statement(body);
                false
            },
        }
    }

    /// Checks an assignment to the variable `var_name`.
    fn check_assignment_statement(&mut self, var_name: &str, expr: &Expression)
        requires
            old(self)@.well_formed(),
        ensures
            final(self)@ == old(self)@.check_statement(
                StatementView::Assignment(var_name@, expr@),
            ),
            final(self)@.well_formed(),
            final(self)@.same_context(old(self)@),
    {
        let declared = self.get_variable_type(var_name);
        let expr_type = self.check_expression(expr);
        if let Some(var_type) = declared {
            if expr_type != Type::Unknown && !self.are_types_compatible(&var_type, &expr_type) {
                self.record_error(TypeChkError::ExpressionTypeMismatch, var_name);
            }
        }
    }

    /// Checks a `return` with this value against the return type of the
    /// function being checked.
    fn check_return(&mut self, value: &Option<Expression>)
        requires
            old(self)@.well_formed(),
        ensures
            final(self)@ == old(self)@.check_return(view_opt_expr(*value)),
            final(self)@.well_formed(),
            final(self)@.same_context(old(self)@),
    {
        if let Some(return_type) = self.current_return_type {
            match value {
                Some(expr) => {
                    let expr_type = self.check_expression(expr);
                    if return_type == Type::Void || (expr_type != Type::Unknown
                        && !self.are_types_compatible(&return_type, &expr_type)) {
                        self.record_error(TypeChkError::ErroneousReturnType, "return");
                    }
                },
                None => {
                    if return_type != Type::Void {
                        self.record_error(TypeChkError::ErroneousReturnType, "return");
                    }
                },
            }
        }
    }

    /// Checks the condition of the statement that `keyword` names.
    fn check_condition(&mut self, condition: &Expression, keyword: &str)
        requires
            old(self)@.well_formed(),
        ensures
            final(self)@ == old(self)@.check_condition(condition@, keyword@),
            final(self)@.well_formed(),
            final(self)@.same_context(old(self)@),
    {
        let cond_type = self.check_expression(condition);
        if cond_type != Type::Bool && cond_type != Type::Unknown {
            self.record_error(TypeChkError::NonBooleanCondStmt, keyword);
        }
    }

    /// Checks an expression and answers with its type.
    fn check_expression(&mut self, expr: &Expression) -> (r: Type)
        requires
            old(self)@.well_formed(),
        ensures
            (final(self)@, r) == old(self)@.check_expression(expr@),
            final(self)@.well_formed(),
            final(self)@.same_context(old(self)@),
        decreases expr@.size(), 1nat,
    {
        match expr {
            Expression::Identifier(name) => match self.get_variable_type(name.as_str()) {
                Some(t) => t,
                None => Type::Unknown,
            },
            Expression::Constant(constant) => self.constant_to_type(constant),
            Expression::StringLiteral(_) => Type::String,
            Expression::BinaryOp(left, op, right) => self.check_binary_operation(left, op, right),
            Expression::UnaryOp(op, operand) => self.check_unary_operation(op, operand),
            Expression::Assignment(left, op, right) => self.check_assignment_operation(
                left,
                op,
                right,
            ),
            Expression::Conditional(condition, true_expr, false_expr) => {
                self.check_conditional_expression(condition, true_expr, false_expr)
            },
            Expression::FunctionCall(name, args) => {
                proof {
                    lemma_call_view(*name, *args);
                }
                self.check_function_call(name.as_str(), args)
            },
            Expression::ArrayAccess(array, index) => self.check_array_access(array, index),
            Expression::MemberAccess(object, _member) => self.check_expression(object),
            Expression::PointerAccess(pointer, _member) => self.check_expression(pointer),
            Expression::PostfixOp(operand, _op) => self.check_expression(operand),
            Expression::Cast(target_type, operand) => {
                let _ = self.check_expression(operand);
                self.type_specifier_to_type(target_type)
            },
        }
    }

    /// Checks both operands of a binary operator, then the operator's rule.
    fn check_binary_operation(
        &mut self,
        left: &Expression,
        op: &BinaryOperator,
        right: &Expression,
    ) -> (r: Type)
        requires
            old(self)@.well_formed(),
        ensures
            (final(self)@, r) == old(self)@.check_expression(
                ExpressionView::BinaryOp(Box::new(left@), *op, Box::new(right@)),
            ),
            final(self)@.well_formed(),
            final(self)@.same_context(old(self)@),
        decreases 1 + left@.size() + right@.size(), 0nat,
    {
        let left_type = self.check_expression(left);
        let right_type = self.check_expression(right);
        if left_type == Type::Unknown || right_type == Type::Unknown {
            return Type::Unknown;
        }
        match op {
            BinaryOperator::Plus | BinaryOperator::Minus | BinaryOperator::Mult | BinaryOperator::Div => {
                if !self.is_numeric_type(&left_type) || !self.is_numeric_type(&right_type) {
                    self.record_error(TypeChkError::AttemptedAddOpOnNonNumeric, "+");
                    return Type::Unknown;
                }
                self.wider_type(&left_type, &right_type)
            },
            BinaryOperator::Mod => {
                if !self.is_integer_type(&left_type) || !self.is_integer_type(&right_type) {
                    self.record_error(TypeChkError::AttemptedAddOpOnNonNumeric, "%");
                    return Type::Unknown;
                }
                left_type
            },
            BinaryOperator::Less | BinaryOperator::LessEq | BinaryOperator::Greater | BinaryOperator::GreaterEq => {
                if !self.is_numeric_type(&left_type) || !self.is_numeric_type(&right_type) {
                    self.record_error(TypeChkError::ExpressionTypeMismatch, "comparison");
                    return Type::Unknown;
                }
                Type::Bool
            },
            BinaryOperator::Equals | BinaryOperator::NotEquals => {
                if !self.are_types_compatible(&left_type, &right_type) {
                    self.record_error(TypeChkError::ExpressionTypeMismatch, "==");
                    return Type::Unknown;
                }
                Type::Bool
            },
            BinaryOperator::And | BinaryOperator::Or => {
                if left_type != Type::Bool || right_type != Type::Bool {
                    self.record_error(TypeChkError::AttemptedBoolOpOnNonBools, "&&");
                    return Type::Unknown;
                }
                Type::Bool
            },
            BinaryOperator::BitAnd | BinaryOperator::BitOr | BinaryOperator::Xor => {
                if !self.is_integer_type(&left_type) || !self.is_integer_type(&right_type) {
                    self.record_error(TypeChkError::AttemptedBitOpOnNonNumeric, "&");
                    return Type::Unknown;
                }
                left_type
            },
            BinaryOperator::LShift | BinaryOperator::RShift => {
                if !self.is_integer_type(&left_type) || !self.is_integer_type(&right_type) {
                    self.record_error(TypeChkError::AttemptedShiftOnNonInt, "<<");
                    return Type::Unknown;
                }
                left_type
            },
        }
    }

    /// Checks the operand of a unary operator, then the operator's rule.
    fn check_unary_operation(&mut self, op: &UnaryOperator, operand: &Expression) -> (r: Type)
        requires
            old(self)@.well_formed(),
        ensures
            (final(self)@, r) == old(self)@.check_expression(
                ExpressionView::UnaryOp(*op, Box::new(operand@)),
            ),
            final(self)@.well_formed(),
            final(self)@.same_context(old(self)@),
        decreases 1 + operand@.size(), 0nat,
    {
        let expr_type = self.check_expression(operand);
        if expr_type == Type::Unknown {
            return Type::Unknown;
        }
        match op {
            UnaryOperator::Plus | UnaryOperator::Minus => {
                if !self.is_numeric_type(&expr_type) {
                    self.record_error(TypeChkError::AttemptedAddOpOnNonNumeric, "unary +/-");
                    return Type::Unknown;
                }
                expr_type
            },
            UnaryOperator::Not => {
                if expr_type != Type::Bool {
                    self.record_error(TypeChkError::AttemptedBoolOpOnNonBools, "!");
                    return Type::Unknown;
                }
                Type::Bool
            },
            UnaryOperator::BitNot => {
                if !self.is_integer_type(&expr_type) {
                    self.record_error(TypeChkError::AttemptedBitOpOnNonNumeric, "~");
                    return Type::Unknown;
                }
                expr_type
            },
            UnaryOperator::AddressOf | UnaryOperator::Dereference => expr_type,
            UnaryOperator::PreIncrement | UnaryOperator::PreDecrement => {
                if !self.is_numeric_type(&expr_type) {
                    self.record_error(TypeChkError::AttemptedAddOpOnNonNumeric, "++/--");
                    return Type::Unknown;
                }
                expr_type
            },
        }
    }

    /// Checks both sides of an assignment, then the operator's rule.
    fn check_assignment_operation(
        &mut self,
        left: &Expression,
        op: &AssignmentOperator,
        right: &Expression,
    ) -> (r: Type)
        requires
            old(self)@.well_formed(),
        ensures
            (final(self)@, r) == old(self)@.check_expression(
                ExpressionView::Assignment(Box::new(left@), *op, Box::new(right@)),
            ),
            final(self)@.well_formed(),
            final(self)@.same_context(old(self)@),
        decreases 1 + left@.size() + right@.size(), 0nat,
    {
        let left_type = self.check_expression(left);
        let right_type = self.check_expression(right);
        if left_type == Type::Unknown || right_type == Type::Unknown {
            return Type::Unknown;
        }
        match op {
            AssignmentOperator::Assign => {
                if !self.are_types_compatible(&left_type, &right_type) {
                    self.record_error(TypeChkError::ExpressionTypeMismatch, "=");
                    return Type::Unknown;
                }
                left_type
            },
            AssignmentOperator::PlusAssign | AssignmentOperator::MinusAssign | AssignmentOperator::MultAssign | AssignmentOperator::DivAssign => {
                if !self.is_numeric_type(&left_type) || !self.is_numeric_type(&right_type) {
                    self.record_error(TypeChkError::AttemptedAddOpOnNonNumeric, "+= etc");
                    return Type::Unknown;
                }
                left_type
            },
            AssignmentOperator::ModAssign => {
                if !self.is_integer_type(&left_type) || !self.is_integer_type(&right_type) {
                    self.record_error(TypeChkError::AttemptedAddOpOnNonNumeric, "%=");
                    return Type::Unknown;
                }
                left_type
            },
            AssignmentOperator::LShiftAssign | AssignmentOperator::RShiftAssign => {
                if !self.is_integer_type(&left_type) || !self.is_integer_type(&right_type) {
                    self.record_error(TypeChkError::AttemptedShiftOnNonInt, "<<=");
                    return Type::Unknown;
                }
                left_type
            },
            AssignmentOperator::AndAssign | AssignmentOperator::OrAssign | AssignmentOperator::XorAssign => {
                if !self.is_integer_type(&left_type) || !self.is_integer_type(&right_type) {
                    self.record_error(TypeChkError::AttemptedBitOpOnNonNumeric, "&= etc");
                    return Type::Unknown;
                }
                left_type
            },
        }
    }

    /// Checks the condition and both branches of `?:`, then their rule.
    fn check_conditional_expression(
        &mut self,
        condition: &Expression,
        true_expr: &Expression,
        false_expr: &Expression,
    ) -> (r: Type)
        requires
            old(self)@.well_formed(),
        ensures
            (final(self)@, r) == old(self)@.check_expression(
                ExpressionView::Conditional(
                    Box::new(condition@),
                    Box::new(true_expr@),
                    Box::new(false_expr@),
                ),
            ),
            final(self)@.well_formed(),
            final(self)@.same_context(old(self)@),
        decreases 1 + condition@.size() + true_expr@.size() + false_expr@.size(), 0nat,
    {
        let cond_type = self.check_expression(condition);
        if cond_type != Type::Bool && cond_type != Type::Unknown {
            self.record_error(TypeChkError::ExpectedBooleanExpression, "?:");
        }
        let true_type = self.check_expression(true_expr);
        let false_type = self.check_expression(false_expr);
        if true_type == Type::Unknown || false_type == Type::Unknown {
            return Type::Unknown;
        }
        if !self.are_types_compatible(&true_type, &false_type) {
            self.record_error(TypeChkError::ExpressionTypeMismatch, "?:");
            return Type::Unknown;
        }
        true_type
    }

    /// Checks a call: the argument count, then each argument that has a
    /// parameter against the type of that parameter.
    #[verifier::loop_isolation(false)]
    fn check_function_call(&mut self, name: &str, args: &Vec<Expression>) -> (r: Type)
        requires
            old(self)@.well_formed(),
        ensures
            (final(self)@, r) == old(self)@.check_expression(
                ExpressionView::FunctionCall(name@, view_all(args@)),
            ),
            final(self)@.well_formed(),
            final(self)@.same_context(old(self)@),
        decreases 1 + crate::parser::ast::total_size(view_all(args@)), 0nat,
    {
        let found = self.global_function(name);
        match found {
            Some((return_type, parameters)) => {
                if args.len() != parameters.len() {
                    self.record_error(TypeChkError::FnCallParamCount, name);
                }
                let min_len = if args.len() <= parameters.len() {
                    args.len()
                } else {
                    parameters.len()
                };
                let ghost start = self@;
                let ghost params = view_all(parameters@);
                let ghost items = view_all(args@);
                let mut i: usize = 0;
                while i < min_len
                    invariant
                        i <= min_len,
                        self@.well_formed(),
                        self@.same_context(old(self)@),
                        self@ == start.check_arguments(name@, params, items, i as nat),
                    decreases min_len - i,
                {
                    proof {
                        crate::parser::ast::lemma_total_size_bounds(items, i as int);
                    }
                    let arg_type = self.check_expression(&args[i]);
                    let param_type = self.string_to_type(parameters[i].param_type.as_str());
                    if arg_type != Type::Unknown && !self.are_types_compatible(
                        &param_type,
                        &arg_type,
                    ) {
                        self.record_error(TypeChkError::FnCallParamType, name);
                    }
                    i += 1;
                }
                self.string_to_type(return_type.as_str())
            },
            None => Type::Unknown,
        }
    }

    /// The function that the global scope binds `name` to: its return type
    /// and its parameters.
    fn global_function(&self, name: &str) -> (r: Option<(String, Vec<Parameter>)>)
        requires
            self@.well_formed(),
        ensures
            r is Some <==> self@.global_function(name@) is Some,
            r matches Some(f) ==> (f.0@, view_all(f.1@)) == self@.global_function(name@)->0,
    {
        let global = self.scope_analyzer.get_global_scope();
        let scopes = self.scope_analyzer.get_all_scopes();
        match global.lookup(scopes, name) {
            Some(symbol) => match symbol.kind {
                SymbolKind::Function { return_type, parameters, .. } => Some(
                    (return_type, parameters),
                ),
                _ => None,
            },
            None => None,
        }
    }

    /// Checks an index, which must be an integer, then what is indexed.
    fn check_array_access(&mut self, array: &Expression, index: &Expression) -> (r: Type)
        requires
            old(self)@.well_formed(),
        ensures
            (final(self)@, r) == old(self)@.check_expression(
                ExpressionView::ArrayAccess(Box::new(array@), Box::new(index@)),
            ),
            final(self)@.well_formed(),
            final(self)@.same_context(old(self)@),
        decreases 1 + array@.size() + index@.size(), 0nat,
    {
        let index_type = self.check_expression(index);
        if !self.is_integer_type(&index_type) && index_type != Type::Unknown {
            self.record_error(TypeChkError::ExpressionTypeMismatch, "[]");
        }
        self.check_expression(array)
    }

    /// The type of the variable or parameter that `name` is bound to, seen
    /// from the current scope.
    pub fn get_variable_type(&self, name: &str) -> (r: Option<Type>)
        requires
            self@.well_formed(),
        ensures
            r == self@.get_variable_type(name@),
    {
        let scope = match self.current_scope {
            Some(s) => s,
            None => {
                return None;
            },
        };
        let scopes = self.scope_analyzer.get_all_scopes();
        assert(scopes@[scope as int]@ == self@.scopes[scope as int]);
        match scopes[scope].lookup(scopes, name) {
            Some(symbol) => match &symbol.kind {
                SymbolKind::Variable { type_spec, .. } => Some(
                    self.type_specifier_to_type(type_spec),
                ),
                SymbolKind::Parameter { param_type } => Some(
                    self.string_to_type(param_type.as_str()),
                ),
                _ => None,
            },
            None => None,
        }
    }

    /// The type that a specifier declares.
    pub fn type_specifier_to_type(&self, spec: &TypeSpecifier) -> (r: Type)
        ensures
            r == specifier_type(*spec),
    {
        match spec {
            TypeSpecifier::Int => Type::Int,
            TypeSpecifier::Float => Type::Float,
            TypeSpecifier::Double => Type::Double,
            TypeSpecifier::Char => Type::Char,
            TypeSpecifier::Short => Type::Short,
            TypeSpecifier::Long => Type::Long,
            TypeSpecifier::Void => Type::Void,
            TypeSpecifier::Signed | TypeSpecifier::Unsigned => Type::Int,
        }
    }

    /// The type that a type name stands for.
    pub fn string_to_type(&self, type_str: &str) -> (r: Type)
        ensures
            r == named_type(type_str@),
    {
        if str_eq(type_str, "int") {
            Type::Int
        } else if str_eq(type_str, "float") {
            Type::Float
        } else if str_eq(type_str, "double") {
            Type::Double
        } else if str_eq(type_str, "char") {
            Type::Char
        } else if str_eq(type_str, "short") {
            Type::Short
        } else if str_eq(type_str, "long") {
            Type::Long
        } else if str_eq(type_str, "void") {
            Type::Void
        } else {
            Type::Unknown
        }
    }

    /// The type of a literal constant.
    pub fn constant_to_type(&self, constant: &Constant) -> (r: Type)
        ensures
            r == constant_type(constant@),
    {
        match constant {
            Constant::Integer(_) => Type::Int,
            Constant::Float(_) => Type::Float,
            Constant::Char(_) => Type::Char,
        }
    }

    /// Whether a type is numeric.
    pub fn is_numeric_type(&self, t: &Type) -> (r: bool)
        ensures
            r == is_numeric(*t),
    {
        match t {
            Type::Int | Type::Float | Type::Double | Type::Char | Type::Short | Type::Long => true,
            _ => false,
        }
    }

    /// Whether a type is an integer type.
    pub fn is_integer_type(&self, t: &Type) -> (r: bool)
        ensures
            r == is_integer(*t),
    {
        match t {
            Type::Int | Type::Char | Type::Short | Type::Long => true,
            _ => false,
        }
    }

    /// The number of the first source line that holds `context`.
    pub fn find_line_for_context(&self, context: &str) -> (r: Option<usize>)
        ensures
            r is Some <==> line_of_context(self@.source_lines, context@) is Some,
            r matches Some(n) ==> line_of_context(self@.source_lines, context@) == Some(n as nat),
    {
        if context.is_empty() {
            return None;
        }
        let ghost lines = view_all(self.source_lines@);
        let mut i: usize = 0;
        while i < self.source_lines.len()
            invariant
                i <= self.source_lines.len(),
                context@.len() > 0,
                lines == view_all(self.source_lines@),
                first_line_from(lines, context@, 0) == first_line_from(lines, context@, i as nat),
            decreases self.source_lines.len() - i,
        {
            assert(lines[i as int] == self.source_lines@[i as int]@);
            if str_contains(self.source_lines[i].as_str(), context) {
                assert(first_line_from(lines, context@, i as nat) == Some((i + 1) as nat));
                return Some(i + 1);
            }
            i += 1;
        }
        None
    }

    /// Records one error, with the line of its context.
    pub fn record_error(&mut self, kind: TypeChkError, context: &str)
        ensures
            final(self)@ == old(self)@.record_error(kind, context@),
            old(self)@.well_formed() ==> final(self)@.well_formed(),
            final(self)@.same_context(old(self)@),
    {
        let line = self.find_line_for_context(context);
        let error = TypeError { error: kind, line, context: context.to_owned() };
        assert(view_all(self.errors@.push(error)) =~= view_all(self.errors@).push(error@));
        self.errors.push(error);
    }

    /// Whether two types are compatible.
    pub fn are_types_compatible(&self, t1: &Type, t2: &Type) -> (r: bool)
        ensures
            r == compatible(*t1, *t2),
    {
        if *t1 == *t2 {
            return true;
        }
        if *t1 == Type::String || *t2 == Type::String {
            return *t1 == Type::String && *t2 == Type::String;
        }
        if self.is_numeric_type(t1) && self.is_numeric_type(t2) {
            return true;
        }
        false
    }

    /// The wider of two types.
    pub fn wider_type(&self, t1: &Type, t2: &Type) -> (r: Type)
        ensures
            r == wider(*t1, *t2),
    {
        match (t1, t2) {
            (Type::Double, _) | (_, Type::Double) => Type::Double,
            (Type::Float, _) | (_, Type::Float) => Type::Float,
            (Type::Long, _) | (_, Type::Long) => Type::Long,
            (Type::Int, _) | (_, Type::Int) => Type::Int,
            (Type::Short, _) | (_, Type::Short) => Type::Short,
            _ => Type::Char,
        }
    }

    /// The errors recorded so far, in the order in which they were found.
    pub fn get_errors(&self) -> (r: &[TypeError])
        ensures
            view_all(r@) == self@.errors,
    {
        self.errors.as_slice()
    }

    /// Whether any error was recorded.
    pub fn has_errors(&self) -> (r: bool)
        ensures
            r == (self@.errors.len() > 0),
    {
        !self.errors.is_empty()
    }
}

} // verus!
