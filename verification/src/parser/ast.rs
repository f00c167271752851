//! The abstract syntax tree of a MiniC translation unit.
//!
//! Every node type that owns text or child nodes has a mathematical twin
//! (`...View`) in which `String` becomes `Seq<char>` and `Vec` becomes `Seq`.
//! Contracts throughout the crate speak of these views. Node types without
//! owned data (operators, specifiers) are their own model.

use vstd::prelude::*;

verus! {

/// The views of the elements of a sequence, in order.
pub open spec fn view_all<T: View>(s: Seq<T>) -> Seq<T::V> {
    Seq::new(s.len(), |i: int| s[i]@)
}

/// The view of an optional value.
pub open spec fn view_opt<T: View>(value: Option<T>) -> Option<T::V> {
    match value {
        Some(v) => Some(v@),
        None => None,
    }
}

// ---------------------------------------------------------------------------
// Leaf types
// ---------------------------------------------------------------------------

#[derive(Debug, Clone, Copy, PartialEq, Eq, Structural)]
pub enum TypeSpecifier {
    Int,
    Float,
    Double,
    Char,
    Short,
    Long,
    Signed,
    Unsigned,
    Void,
}

#[derive(Debug, Clone, Copy, PartialEq, Eq, Structural)]
pub enum TypeQualifier {
    Const,
}

#[derive(Debug, Clone, Copy, PartialEq, Eq, Structural)]
pub enum SpecifierQualifier {
    TypeSpecifier(TypeSpecifier),
    TypeQualifier(TypeQualifier),
}

#[derive(Debug, Clone, Copy, PartialEq, Eq, Structural)]
pub enum StorageClass {
    Auto,
    Register,
    Static,
    Extern,
    Typedef,
}

#[derive(Debug, Clone, Copy, PartialEq, Eq, Structural)]
pub enum BinaryOperator {
    Plus,
    Minus,
    Mult,
    Div,
    Mod,
    Less,
    LessEq,
    Greater,
    GreaterEq,
    Equals,
    NotEquals,
    And,
    Or,
    BitAnd,
    BitOr,
    Xor,
    LShift,
    RShift,
}

#[derive(Debug, Clone, Copy, PartialEq, Eq, Structural)]
pub enum UnaryOperator {
    Plus,
    Minus,
    Not,
    BitNot,
    AddressOf,
    Dereference,
    PreIncrement,
    PreDecrement,
}

#[derive(Debug, Clone, Copy, PartialEq, Eq, Structural)]
pub enum AssignmentOperator {
    Assign,
    PlusAssign,
    MinusAssign,
    MultAssign,
    DivAssign,
    ModAssign,
    LShiftAssign,
    RShiftAssign,
    AndAssign,
    XorAssign,
    OrAssign,
}

#[derive(Debug, Clone, Copy, PartialEq, Eq, Structural)]
pub enum PostfixOperator {
    PlusPlus,
    MinusMinus,
}

// ---------------------------------------------------------------------------
// Constants
// ---------------------------------------------------------------------------

/// A literal constant. A floating-point literal keeps the digits it was
/// written with (`"3.14"`); nothing in the front end computes with its value.
#[derive(Debug)]
pub enum Constant {
    Integer(i64),
    Float(String),
    Char(char),
}

pub enum ConstantView {
    Integer(i64),
    Float(Seq<char>),
    Char(char),
}

impl View for Constant {
    type V = ConstantView;

    open spec fn view(&self) -> ConstantView {
        match self {
            Constant::Integer(n) => ConstantView::Integer(*n),
            Constant::Float(s) => ConstantView::Float(s@),
            Constant::Char(c) => ConstantView::Char(*c),
        }
    }
}

impl Clone for Constant {
    fn clone(&self) -> (r: Self)
        ensures
            r@ == self@,
    {
        match self {
            Constant::Integer(n) => Constant::Integer(*n),
            Constant::Float(s) => Constant::Float(s.clone()),
            Constant::Char(c) => Constant::Char(*c),
        }
    }
}

// ---------------------------------------------------------------------------
// Preprocessor directives
// ---------------------------------------------------------------------------

#[derive(Debug)]
pub enum ReplacementItem {
    Identifier(String),
    Constant(Constant),
    StringLiteral(String),
}

pub enum ReplacementItemView {
    Identifier(Seq<char>),
    Constant(ConstantView),
    StringLiteral(Seq<char>),
}

impl View for ReplacementItem {
    type V = ReplacementItemView;

    open spec fn view(&self) -> ReplacementItemView {
        match self {
            ReplacementItem::Identifier(s) => ReplacementItemView::Identifier(s@),
            ReplacementItem::Constant(c) => ReplacementItemView::Constant(c@),
            ReplacementItem::StringLiteral(s) => ReplacementItemView::StringLiteral(s@),
        }
    }
}

impl Clone for ReplacementItem {
    fn clone(&self) -> (r: Self)
        ensures
            r@ == self@,
    {
        match self {
            ReplacementItem::Identifier(s) => ReplacementItem::Identifier(s.clone()),
            ReplacementItem::Constant(c) => ReplacementItem::Constant(c.clone()),
            ReplacementItem::StringLiteral(s) => ReplacementItem::StringLiteral(s.clone()),
        }
    }
}

/// A preprocessor line. Directives are recorded, never expanded.
#[derive(Debug)]
pub enum PreprocessorDirective {
    Include(String),
    Define(String, Vec<ReplacementItem>),
    Ifdef(String),
    Ifndef(String),
    Endif,
}

pub enum PreprocessorDirectiveView {
    Include(Seq<char>),
    Define(Seq<char>, Seq<ReplacementItemView>),
    Ifdef(Seq<char>),
    Ifndef(Seq<char>),
    Endif,
}

impl View for PreprocessorDirective {
    type V = PreprocessorDirectiveView;

    open spec fn view(&self) -> PreprocessorDirectiveView {
        match self {
            PreprocessorDirective::Include(s) => PreprocessorDirectiveView::Include(s@),
            PreprocessorDirective::Define(s, items) => PreprocessorDirectiveView::Define(
                s@,
                view_all(items@),
            ),
            PreprocessorDirective::Ifdef(s) => PreprocessorDirectiveView::Ifdef(s@),
            PreprocessorDirective::Ifndef(s) => PreprocessorDirectiveView::Ifndef(s@),
            PreprocessorDirective::Endif => PreprocessorDirectiveView::Endif,
        }
    }
}

impl Clone for PreprocessorDirective {
    fn clone(&self) -> (r: Self)
        ensures
            r@ == self@,
    {
        match self {
            PreprocessorDirective::Include(s) => PreprocessorDirective::Include(s.clone()),
            PreprocessorDirective::Define(s, items) => {
                let copy = items.clone();
                assert(view_all(copy@) =~= view_all(items@));
                PreprocessorDirective::Define(s.clone(), copy)
            },
            PreprocessorDirective::Ifdef(s) => PreprocessorDirective::Ifdef(s.clone()),
            PreprocessorDirective::Ifndef(s) => PreprocessorDirective::Ifndef(s.clone()),
            PreprocessorDirective::Endif => PreprocessorDirective::Endif,
        }
    }
}

#[derive(Debug)]
pub enum Comment {
    Line(String),
    Block(String),
}

pub enum CommentView {
    Line(Seq<char>),
    Block(Seq<char>),
}

impl View for Comment {
    type V = CommentView;

    open spec fn view(&self) -> CommentView {
        match self {
            Comment::Line(s) => CommentView::Line(s@),
            Comment::Block(s) => CommentView::Block(s@),
        }
    }
}

impl Clone for Comment {
    fn clone(&self) -> (r: Self)
        ensures
            r@ == self@,
    {
        match self {
            Comment::Line(s) => Comment::Line(s.clone()),
            Comment::Block(s) => Comment::Block(s.clone()),
        }
    }
}

// ---------------------------------------------------------------------------
// Expressions
// ---------------------------------------------------------------------------

#[derive(Debug)]
pub enum Expression {
    Identifier(String),
    Constant(Constant),
    StringLiteral(String),
    BinaryOp(Box<Expression>, BinaryOperator, Box<Expression>),
    UnaryOp(UnaryOperator, Box<Expression>),
    Assignment(Box<Expression>, AssignmentOperator, Box<Expression>),
    Conditional(Box<Expression>, Box<Expression>, Box<Expression>),
    FunctionCall(String, Vec<Expression>),
    ArrayAccess(Box<Expression>, Box<Expression>),
    MemberAccess(Box<Expression>, String),
    PointerAccess(Box<Expression>, String),
    PostfixOp(Box<Expression>, PostfixOperator),
    Cast(TypeSpecifier, Box<Expression>),
}

pub enum ExpressionView {
    Identifier(Seq<char>),
    Constant(ConstantView),
    StringLiteral(Seq<char>),
    BinaryOp(Box<ExpressionView>, BinaryOperator, Box<ExpressionView>),
    UnaryOp(UnaryOperator, Box<ExpressionView>),
    Assignment(Box<ExpressionView>, AssignmentOperator, Box<ExpressionView>),
    Conditional(Box<ExpressionView>, Box<ExpressionView>, Box<ExpressionView>),
    FunctionCall(Seq<char>, Seq<ExpressionView>),
    ArrayAccess(Box<ExpressionView>, Box<ExpressionView>),
    MemberAccess(Box<ExpressionView>, Seq<char>),
    PointerAccess(Box<ExpressionView>, Seq<char>),
    PostfixOp(Box<ExpressionView>, PostfixOperator),
    Cast(TypeSpecifier, Box<ExpressionView>),
}

impl Expression {
    /// The expression as a mathematical tree.
    pub open spec fn model(&self) -> ExpressionView
        decreases self,
    {
        match self {
            Expression::Identifier(s) => ExpressionView::Identifier(s@),
            Expression::Constant(c) => ExpressionView::Constant(c@),
            Expression::StringLiteral(s) => ExpressionView::StringLiteral(s@),
            Expression::BinaryOp(l, op, r) => ExpressionView::BinaryOp(
                Box::new(l.model()),
                *op,
                Box::new(r.model()),
            ),
            Expression::UnaryOp(op, e) => ExpressionView::UnaryOp(*op, Box::new(e.model())),
            Expression::Assignment(l, op, r) => ExpressionView::Assignment(
                Box::new(l.model()),
                *op,
                Box::new(r.model()),
            ),
            Expression::Conditional(c, t, f) => ExpressionView::Conditional(
                Box::new(c.model()),
                Box::new(t.model()),
                Box::new(f.model()),
            ),
            Expression::FunctionCall(name, args) => ExpressionView::FunctionCall(
                name@,
                Seq::new(
                    args@.len(),
                    |i: int|
                        if 0 <= i < args@.len() {
                            args@[i].model()
                        } else {
                            arbitrary()
                        },
                ),
            ),
            Expression::ArrayAccess(a, i) => ExpressionView::ArrayAccess(
                Box::new(a.model()),
                Box::new(i.model()),
            ),
            Expression::MemberAccess(e, m) => ExpressionView::MemberAccess(
                Box::new(e.model()),
                m@,
            ),
            Expression::PointerAccess(e, m) => ExpressionView::PointerAccess(
                Box::new(e.model()),
                m@,
            ),
            Expression::PostfixOp(e, op) => ExpressionView::PostfixOp(Box::new(e.model()), *op),
            Expression::Cast(t, e) => ExpressionView::Cast(*t, Box::new(e.model())),
        }
    }
}

impl ExpressionView {
    /// The number of nodes of the tree.
    pub open spec fn size(self) -> nat
        decreases self,
    {
        match self {
            ExpressionView::Identifier(_) => 1,
            ExpressionView::Constant(_) => 1,
            ExpressionView::StringLiteral(_) => 1,
            ExpressionView::BinaryOp(l, _, r) => 1 + l.size() + r.size(),
            ExpressionView::UnaryOp(_, e) => 1 + e.size(),
            ExpressionView::Assignment(l, _, r) => 1 + l.size() + r.size(),
            ExpressionView::Conditional(c, t, f) => 1 + c.size() + t.size() + f.size(),
            ExpressionView::FunctionCall(_, args) => 1 + total_size(args),
            ExpressionView::ArrayAccess(a, i) => 1 + a.size() + i.size(),
            ExpressionView::MemberAccess(e, _) => 1 + e.size(),
            ExpressionView::PointerAccess(e, _) => 1 + e.size(),
            ExpressionView::PostfixOp(e, _) => 1 + e.size(),
            ExpressionView::Cast(_, e) => 1 + e.size(),
        }
    }
}

/// The number of nodes of a list of trees.
pub open spec fn total_size(exprs: Seq<ExpressionView>) -> nat
    decreases exprs,
{
    if exprs.len() == 0 {
        0
    } else {
        total_size(exprs.drop_last()) + exprs.last().size()
    }
}

/// No tree of a list has more nodes than the list.
pub proof fn lemma_total_size_bounds(exprs: Seq<ExpressionView>, i: int)
    requires
        0 <= i < exprs.len(),
    ensures
        exprs[i].size() <= total_size(exprs),
    decreases exprs.len(),
{
    if i < exprs.len() - 1 {
        lemma_total_size_bounds(exprs.drop_last(), i);
    }
}

impl View for Expression {
    type V = ExpressionView;

    open spec fn view(&self) -> ExpressionView {
        self.model()
    }
}

impl Clone for Expression {
    #[verifier::loop_isolation(false)]
    fn clone(&self) -> (r: Self)
        ensures
            r@ == self@,
        decreases self,
    {
        match self {
            Expression::Identifier(s) => Expression::Identifier(s.clone()),
            Expression::Constant(c) => Expression::Constant(c.clone()),
            Expression::StringLiteral(s) => Expression::StringLiteral(s.clone()),
            Expression::BinaryOp(l, op, r) => Expression::BinaryOp(
                Box::new((**l).clone()),
                *op,
                Box::new((**r).clone()),
            ),
            Expression::UnaryOp(op, e) => Expression::UnaryOp(*op, Box::new((**e).clone())),
            Expression::Assignment(l, op, r) => Expression::Assignment(
                Box::new((**l).clone()),
                *op,
                Box::new((**r).clone()),
            ),
            Expression::Conditional(c, t, f) => Expression::Conditional(
                Box::new((**c).clone()),
                Box::new((**t).clone()),
                Box::new((**f).clone()),
            ),
            Expression::FunctionCall(name, args) => {
                let mut copy: Vec<Expression> = Vec::new();
                let mut i: usize = 0;
                while i < args.len()
                    invariant
                        i <= args.len(),
                        copy@.len() == i,
                        forall|j: int| 0 <= j < i ==> copy@[j]@ == args@[j]@,
                    decreases args.len() - i,
                {
                    copy.push(args[i].clone());
                    i += 1;
                }
                let name_copy = name.clone();
                proof {
                    lemma_call_view(name_copy, copy);
                    lemma_call_view(*name, *args);
                    assert(view_all(copy@) =~= view_all(args@));
                }
                Expression::FunctionCall(name_copy, copy)
            },
            Expression::ArrayAccess(a, i) => Expression::ArrayAccess(
                Box::new((**a).clone()),
                Box::new((**i).clone()),
            ),
            Expression::MemberAccess(e, m) => Expression::MemberAccess(
                Box::new((**e).clone()),
                m.clone(),
            ),
            Expression::PointerAccess(e, m) => Expression::PointerAccess(
                Box::new((**e).clone()),
                m.clone(),
            ),
            Expression::PostfixOp(e, op) => Expression::PostfixOp(Box::new((**e).clone()), *op),
            Expression::Cast(t, e) => Expression::Cast(*t, Box::new((**e).clone())),
        }
    }
}

/// The arguments of a call are viewed element by element.
pub proof fn lemma_call_view(name: String, args: Vec<Expression>)
    ensures
        Expression::FunctionCall(name, args)@ == ExpressionView::FunctionCall(
            name@,
            view_all(args@),
        ),
{
    assert(Expression::FunctionCall(name, args)@->FunctionCall_1 =~= view_all(args@));
}

// ---------------------------------------------------------------------------
// Declarations
// ---------------------------------------------------------------------------

#[derive(Debug)]
pub struct Parameter {
    pub param_type: String,
    pub name: String,
}

pub struct ParameterView {
    pub param_type: Seq<char>,
    pub name: Seq<char>,
}

impl View for Parameter {
    type V = ParameterView;

    open spec fn view(&self) -> ParameterView {
        ParameterView { param_type: self.param_type@, name: self.name@ }
    }
}

impl Clone for Parameter {
    fn clone(&self) -> (r: Self)
        ensures
            r@ == self@,
    {
        Parameter { param_type: self.param_type.clone(), name: self.name.clone() }
    }
}

/// A copy of a parameter list.
pub fn clone_parameters(params: &Vec<Parameter>) -> (r: Vec<Parameter>)
    ensures
        view_all(r@) == view_all(params@),
{
    let mut out: Vec<Parameter> = Vec::new();
    let mut i: usize = 0;
    while i < params.len()
        invariant
            i <= params.len(),
            out@.len() == i,
            forall|j: int| 0 <= j < i ==> out@[j]@ == params@[j]@,
        decreases params.len() - i,
    {
        out.push(params[i].clone());
        i += 1;
    }
    assert(view_all(out@) =~= view_all(params@));
    out
}

#[derive(Debug)]
pub struct Declarator {
    pub name: String,
    pub pointer_depth: u32,
    pub array_sizes: Vec<Option<Expression>>,
    pub function_params: Option<Vec<Parameter>>,
}

pub struct DeclaratorView {
    pub name: Seq<char>,
    pub pointer_depth: u32,
    pub array_sizes: Seq<Option<ExpressionView>>,
    pub function_params: Option<Seq<ParameterView>>,
}

impl View for Declarator {
    type V = DeclaratorView;

    open spec fn view(&self) -> DeclaratorView {
        DeclaratorView {
            name: self.name@,
            pointer_depth: self.pointer_depth,
            array_sizes: Seq::new(
                self.array_sizes@.len(),
                |i: int|
                    match self.array_sizes@[i] {
                        Some(e) => Some(e@),
                        None => None,
                    },
            ),
            function_params: match self.function_params {
                Some(ps) => Some(view_all(ps@)),
                None => None,
            },
        }
    }
}

impl Clone for Declarator {
    fn clone(&self) -> (r: Self)
        ensures
            r@ == self@,
    {
        let mut sizes: Vec<Option<Expression>> = Vec::new();
        let mut i: usize = 0;
        while i < self.array_sizes.len()
            invariant
                i <= self.array_sizes.len(),
                sizes@.len() == i,
                forall|j: int|
                    0 <= j < i ==> view_opt_expr(sizes@[j]) == view_opt_expr(
                        self.array_sizes@[j],
                    ),
            decreases self.array_sizes.len() - i,
        {
            let item = match &self.array_sizes[i] {
                Some(e) => Some(e.clone()),
                None => None,
            };
            sizes.push(item);
            i += 1;
        }
        let params = match &self.function_params {
            Some(ps) => Some(clone_parameters(ps)),
            None => None,
        };
        let r = Declarator {
            name: self.name.clone(),
            pointer_depth: self.pointer_depth,
            array_sizes: sizes,
            function_params: params,
        };
        assert(r@.array_sizes =~= self@.array_sizes);
        r
    }
}

#[derive(Debug)]
pub enum Designator {
    Member(String),
    Array(Expression),
}

pub enum DesignatorView {
    Member(Seq<char>),
    Array(ExpressionView),
}

impl View for Designator {
    type V = DesignatorView;

    open spec fn view(&self) -> DesignatorView {
        match self {
            Designator::Member(s) => DesignatorView::Member(s@),
            Designator::Array(e) => DesignatorView::Array(e@),
        }
    }
}

impl Clone for Designator {
    fn clone(&self) -> (r: Self)
        ensures
            r@ == self@,
    {
        match self {
            Designator::Member(s) => Designator::Member(s.clone()),
            Designator::Array(e) => Designator::Array(e.clone()),
        }
    }
}

#[derive(Debug)]
pub struct Initializer {
    pub kind: InitializerKind,
}

#[derive(Debug)]
pub enum InitializerKind {
    Assignment(Expression),
    List(Vec<Initializer>),
    Designated(Designator, Box<Initializer>),
}

pub struct InitializerView {
    pub kind: InitializerKindView,
}

pub enum InitializerKindView {
    Assignment(ExpressionView),
    List(Seq<InitializerView>),
    Designated(DesignatorView, Box<InitializerView>),
}

impl Initializer {
    /// The initializer as a mathematical tree.
    pub open spec fn model(&self) -> InitializerView
        decreases self,
    {
        InitializerView {
            kind: match self.kind {
                InitializerKind::Assignment(e) => InitializerKindView::Assignment(e@),
                InitializerKind::List(items) => InitializerKindView::List(
                    Seq::new(
                        items@.len(),
                        |i: int|
                            if 0 <= i < items@.len() {
                                items@[i].model()
                            } else {
                                arbitrary()
                            },
                    ),
                ),
                InitializerKind::Designated(d, init) => InitializerKindView::Designated(
                    d@,
                    Box::new(init.model()),
                ),
            },
        }
    }
}

impl View for Initializer {
    type V = InitializerView;

    open spec fn view(&self) -> InitializerView {
        self.model()
    }
}

impl View for InitializerKind {
    type V = InitializerKindView;

    open spec fn view(&self) -> InitializerKindView {
        (Initializer { kind: *self })@.kind
    }
}

/// An initializer list is viewed item by item.
pub proof fn lemma_initializer_list_view(items: Vec<Initializer>)
    ensures
        InitializerKind::List(items)@ == InitializerKindView::List(view_all(items@)),
{
    assert(InitializerKind::List(items)@->List_0 =~= view_all(items@));
}

impl Clone for Initializer {
    #[verifier::loop_isolation(false)]
    fn clone(&self) -> (r: Self)
        ensures
            r@ == self@,
        decreases self,
    {
        let kind = match &self.kind {
            InitializerKind::Assignment(e) => InitializerKind::Assignment(e.clone()),
            InitializerKind::List(items) => {
                let mut copy: Vec<Initializer> = Vec::new();
                let mut i: usize = 0;
                while i < items.len()
                    invariant
                        i <= items.len(),
                        copy@.len() == i,
                        forall|j: int| 0 <= j < i ==> copy@[j]@ == items@[j]@,
                    decreases items.len() - i,
                {
                    copy.push(items[i].clone());
                    i += 1;
                }
                proof {
                    lemma_initializer_list_view(copy);
                    lemma_initializer_list_view(*items);
                    assert(view_all(copy@) =~= view_all(items@));
                }
                InitializerKind::List(copy)
            },
            InitializerKind::Designated(d, init) => InitializerKind::Designated(
                d.clone(),
                Box::new((**init).clone()),
            ),
        };
        Initializer { kind }
    }
}

impl Clone for InitializerKind {
    fn clone(&self) -> (r: Self)
        ensures
            r@ == self@,
    {
        match self {
            InitializerKind::Assignment(e) => InitializerKind::Assignment(e.clone()),
            InitializerKind::List(items) => {
                let copy = items.clone();
                proof {
                    lemma_initializer_list_view(copy);
                    lemma_initializer_list_view(*items);
                    assert(view_all(copy@) =~= view_all(items@));
                }
                InitializerKind::List(copy)
            },
            InitializerKind::Designated(d, init) => InitializerKind::Designated(
                d.clone(),
                Box::new((**init).clone()),
            ),
        }
    }
}

#[derive(Debug)]
pub struct VariableDeclaration {
    pub storage_class: Option<StorageClass>,
    pub type_qualifiers: Vec<TypeQualifier>,
    pub type_specifier: TypeSpecifier,
    pub declarator: Declarator,
    pub initializer: Option<Initializer>,
}

pub struct VariableDeclarationView {
    pub storage_class: Option<StorageClass>,
    pub type_qualifiers: Seq<TypeQualifier>,
    pub type_specifier: TypeSpecifier,
    pub declarator: DeclaratorView,
    pub initializer: Option<InitializerView>,
}

impl View for VariableDeclaration {
    type V = VariableDeclarationView;

    open spec fn view(&self) -> VariableDeclarationView {
        VariableDeclarationView {
            storage_class: self.storage_class,
            type_qualifiers: self.type_qualifiers@,
            type_specifier: self.type_specifier,
            declarator: self.declarator@,
            initializer: match self.initializer {
                Some(i) => Some(i@),
                None => None,
            },
        }
    }
}

impl Clone for VariableDeclaration {
    fn clone(&self) -> (r: Self)
        ensures
            r@ == self@,
    {
        let qualifiers = self.type_qualifiers.clone();
        assert(qualifiers@ =~= self.type_qualifiers@);
        VariableDeclaration {
            storage_class: self.storage_class,
            type_qualifiers: qualifiers,
            type_specifier: self.type_specifier,
            declarator: self.declarator.clone(),
            initializer: match &self.initializer {
                Some(i) => Some(i.clone()),
                None => None,
            },
        }
    }
}

#[derive(Debug)]
pub struct FunctionDeclaration {
    pub return_type: String,
    pub name: String,
    pub parameters: Vec<Parameter>,
}

pub struct FunctionDeclarationView {
    pub return_type: Seq<char>,
    pub name: Seq<char>,
    pub parameters: Seq<ParameterView>,
}

impl View for FunctionDeclaration {
    type V = FunctionDeclarationView;

    open spec fn view(&self) -> FunctionDeclarationView {
        FunctionDeclarationView {
            return_type: self.return_type@,
            name: self.name@,
            parameters: view_all(self.parameters@),
        }
    }
}

impl Clone for FunctionDeclaration {
    fn clone(&self) -> (r: Self)
        ensures
            r@ == self@,
    {
        FunctionDeclaration {
            return_type: self.return_type.clone(),
            name: self.name.clone(),
            parameters: clone_parameters(&self.parameters),
        }
    }
}

#[derive(Debug)]
pub struct ParameterDeclaration {
    pub specifiers: Vec<SpecifierQualifier>,
    pub declarator: Option<Declarator>,
}

pub struct ParameterDeclarationView {
    pub specifiers: Seq<SpecifierQualifier>,
    pub declarator: Option<DeclaratorView>,
}

impl View for ParameterDeclaration {
    type V = ParameterDeclarationView;

    open spec fn view(&self) -> ParameterDeclarationView {
        ParameterDeclarationView {
            specifiers: self.specifiers@,
            declarator: match self.declarator {
                Some(d) => Some(d@),
                None => None,
            },
        }
    }
}

impl Clone for ParameterDeclaration {
    fn clone(&self) -> (r: Self)
        ensures
            r@ == self@,
    {
        let specifiers = self.specifiers.clone();
        assert(specifiers@ =~= self.specifiers@);
        ParameterDeclaration {
            specifiers,
            declarator: match &self.declarator {
                Some(d) => Some(d.clone()),
                None => None,
            },
        }
    }
}

#[derive(Debug)]
pub struct ParameterTypeList {
    pub parameters: Vec<ParameterDeclaration>,
    pub variadic: bool,
}

pub struct ParameterTypeListView {
    pub parameters: Seq<ParameterDeclarationView>,
    pub variadic: bool,
}

impl View for ParameterTypeList {
    type V = ParameterTypeListView;

    open spec fn view(&self) -> ParameterTypeListView {
        ParameterTypeListView { parameters: view_all(self.parameters@), variadic: self.variadic }
    }
}

impl Clone for ParameterTypeList {
    fn clone(&self) -> (r: Self)
        ensures
            r@ == self@,
    {
        let parameters = self.parameters.clone();
        assert(view_all(parameters@) =~= view_all(self.parameters@));
        ParameterTypeList { parameters, variadic: self.variadic }
    }
}

// ---------------------------------------------------------------------------
// Statements
// ---------------------------------------------------------------------------

#[derive(Debug)]
pub enum Statement {
    Declaration(VariableDeclaration),
    Assignment(String, Expression),
    Return(Option<Expression>),
    Expression(Expression),
    Block(Vec<Statement>),
    If(Expression, Box<Statement>, Option<Box<Statement>>),
    While(Expression, Box<Statement>),
    For(Option<Box<Statement>>, Option<Expression>, Option<Expression>, Box<Statement>),
    Break,
    DoWhile(Box<Statement>, Expression),
    Switch(Expression, Box<Statement>),
    Case(Expression, Box<Statement>),
    Default(Box<Statement>),
    Continue,
    Goto(String),
    Labeled(String, Box<Statement>),
}

pub enum StatementView {
    Declaration(VariableDeclarationView),
    Assignment(Seq<char>, ExpressionView),
    Return(Option<ExpressionView>),
    Expression(ExpressionView),
    Block(Seq<StatementView>),
    If(ExpressionView, Box<StatementView>, Option<Box<StatementView>>),
    While(ExpressionView, Box<StatementView>),
    For(
        Option<Box<StatementView>>,
        Option<ExpressionView>,
        Option<ExpressionView>,
        Box<StatementView>,
    ),
    Break,
    DoWhile(Box<StatementView>, ExpressionView),
    Switch(ExpressionView, Box<StatementView>),
    Case(ExpressionView, Box<StatementView>),
    Default(Box<StatementView>),
    Continue,
    Goto(Seq<char>),
    Labeled(Seq<char>, Box<StatementView>),
}

/// The view of an optional expression.
pub open spec fn view_opt_expr(e: Option<Expression>) -> Option<ExpressionView> {
    match e {
        Some(e) => Some(e@),
        None => None,
    }
}

impl Statement {
    /// The statement as a mathematical tree.
    pub open spec fn model(&self) -> StatementView
        decreases self,
    {
        match self {
            Statement::Declaration(d) => StatementView::Declaration(d@),
            Statement::Assignment(name, e) => StatementView::Assignment(name@, e@),
            Statement::Return(e) => StatementView::Return(view_opt_expr(*e)),
            Statement::Expression(e) => StatementView::Expression(e@),
            Statement::Block(stmts) => StatementView::Block(
                Seq::new(
                    stmts@.len(),
                    |i: int|
                        if 0 <= i < stmts@.len() {
                            stmts@[i].model()
                        } else {
                            arbitrary()
                        },
                ),
            ),
            Statement::If(c, t, e) => StatementView::If(
                c@,
                Box::new(t.model()),
                match e {
                    Some(e) => Some(Box::new(e.model())),
                    None => None,
                },
            ),
            Statement::While(c, body) => StatementView::While(c@, Box::new(body.model())),
            Statement::For(init, c, u, body) => StatementView::For(
                match init {
                    Some(s) => Some(Box::new(s.model())),
                    None => None,
                },
                view_opt_expr(*c),
                view_opt_expr(*u),
                Box::new(body.model()),
            ),
            Statement::Break => StatementView::Break,
            Statement::DoWhile(body, c) => StatementView::DoWhile(Box::new(body.model()), c@),
            Statement::Switch(c, body) => StatementView::Switch(c@, Box::new(body.model())),
            Statement::Case(c, body) => StatementView::Case(c@, Box::new(body.model())),
            Statement::Default(body) => StatementView::Default(Box::new(body.model())),
            Statement::Continue => StatementView::Continue,
            Statement::Goto(label) => StatementView::Goto(label@),
            Statement::Labeled(label, body) => StatementView::Labeled(
                label@,
                Box::new(body.model()),
            ),
        }
    }
}

impl View for Statement {
    type V = StatementView;

    open spec fn view(&self) -> StatementView {
        self.model()
    }
}

/// A block is viewed statement by statement.
pub proof fn lemma_block_view(stmts: Vec<Statement>)
    ensures
        Statement::Block(stmts)@ == StatementView::Block(view_all(stmts@)),
{
    assert(Statement::Block(stmts)@->Block_0 =~= view_all(stmts@));
}

/// A copy of an optional expression.
pub fn clone_opt_expr(e: &Option<Expression>) -> (r: Option<Expression>)
    ensures
        view_opt_expr(r) == view_opt_expr(*e),
{
    match e {
        Some(e) => Some(e.clone()),
        None => None,
    }
}

impl Clone for Statement {
    #[verifier::loop_isolation(false)]
    fn clone(&self) -> (r: Self)
        ensures
            r@ == self@,
        decreases self,
    {
        match self {
            Statement::Declaration(d) => Statement::Declaration(d.clone()),
            Statement::Assignment(name, e) => Statement::Assignment(name.clone(), e.clone()),
            Statement::Return(e) => Statement::Return(clone_opt_expr(e)),
            Statement::Expression(e) => Statement::Expression(e.clone()),
            Statement::Block(stmts) => {
                let mut copy: Vec<Statement> = Vec::new();
                let mut i: usize = 0;
                while i < stmts.len()
                    invariant
                        i <= stmts.len(),
                        copy@.len() == i,
                        forall|j: int| 0 <= j < i ==> copy@[j]@ == stmts@[j]@,
                    decreases stmts.len() - i,
                {
                    copy.push(stmts[i].clone());
                    i += 1;
                }
                proof {
                    lemma_block_view(copy);
                    lemma_block_view(*stmts);
                    assert(view_all(copy@) =~= view_all(stmts@));
                }
                Statement::Block(copy)
            },
            Statement::If(c, t, e) => Statement::If(
                c.clone(),
                Box::new((**t).clone()),
                match e {
                    Some(e) => Some(Box::new((**e).clone())),
                    None => None,
                },
            ),
            Statement::While(c, body) => Statement::While(c.clone(), Box::new((**body).clone())),
            Statement::For(init, c, u, body) => Statement::For(
                match init {
                    Some(s) => Some(Box::new((**s).clone())),
                    None => None,
                },
                clone_opt_expr(c),
                clone_opt_expr(u),
                Box::new((**body).clone()),
            ),
            Statement::Break => Statement::Break,
            Statement::DoWhile(body, c) => Statement::DoWhile(
                Box::new((**body).clone()),
                c.clone(),
            ),
            Statement::Switch(c, body) => Statement::Switch(c.clone(), Box::new((**body).clone())),
            Statement::Case(c, body) => Statement::Case(c.clone(), Box::new((**body).clone())),
            Statement::Default(body) => Statement::Default(Box::new((**body).clone())),
            Statement::Continue => Statement::Continue,
            Statement::Goto(label) => Statement::Goto(label.clone()),
            Statement::Labeled(label, body) => Statement::Labeled(
                label.clone(),
                Box::new((**body).clone()),
            ),
        }
    }
}

// ---------------------------------------------------------------------------
// Top level
// ---------------------------------------------------------------------------

#[derive(Debug)]
pub struct FunctionDefinition {
    pub return_type: String,
    pub name: String,
    pub parameters: Vec<Parameter>,
    pub body: Vec<Statement>,
}

pub struct FunctionDefinitionView {
    pub return_type: Seq<char>,
    pub name: Seq<char>,
    pub parameters: Seq<ParameterView>,
    pub body: Seq<StatementView>,
}

impl View for FunctionDefinition {
    type V = FunctionDefinitionView;

    open spec fn view(&self) -> FunctionDefinitionView {
        FunctionDefinitionView {
            return_type: self.return_type@,
            name: self.name@,
            parameters: view_all(self.parameters@),
            body: view_all(self.body@),
        }
    }
}

impl Clone for FunctionDefinition {
    fn clone(&self) -> (r: Self)
        ensures
            r@ == self@,
    {
        let body = self.body.clone();
        assert(view_all(body@) =~= view_all(self.body@));
        FunctionDefinition {
            return_type: self.return_type.clone(),
            name: self.name.clone(),
            parameters: clone_parameters(&self.parameters),
            body,
        }
    }
}

#[derive(Debug)]
pub enum ExternalDeclaration {
    Variable(VariableDeclaration),
    Function(FunctionDefinition),
    FunctionDeclaration(FunctionDeclaration),
}

pub enum ExternalDeclarationView {
    Variable(VariableDeclarationView),
    Function(FunctionDefinitionView),
    FunctionDeclaration(FunctionDeclarationView),
}

impl View for ExternalDeclaration {
    type V = ExternalDeclarationView;

    open spec fn view(&self) -> ExternalDeclarationView {
        match self {
            ExternalDeclaration::Variable(v) => ExternalDeclarationView::Variable(v@),
            ExternalDeclaration::Function(f) => ExternalDeclarationView::Function(f@),
            ExternalDeclaration::FunctionDeclaration(d) => {
                ExternalDeclarationView::FunctionDeclaration(d@)
            },
        }
    }
}

impl Clone for ExternalDeclaration {
    fn clone(&self) -> (r: Self)
        ensures
            r@ == self@,
    {
        match self {
            ExternalDeclaration::Variable(v) => ExternalDeclaration::Variable(v.clone()),
            ExternalDeclaration::Function(f) => ExternalDeclaration::Function(f.clone()),
            ExternalDeclaration::FunctionDeclaration(d) => {
                ExternalDeclaration::FunctionDeclaration(d.clone())
            },
        }
    }
}

/// The root of the tree: the directives and the declarations of one source
/// file, each list in source order.
#[derive(Debug)]
pub struct TranslationUnit {
    pub preprocessor_list: Vec<PreprocessorDirective>,
    pub external_declarations: Vec<ExternalDeclaration>,
}

pub struct TranslationUnitView {
    pub preprocessor_list: Seq<PreprocessorDirectiveView>,
    pub external_declarations: Seq<ExternalDeclarationView>,
}

impl View for TranslationUnit {
    type V = TranslationUnitView;

    open spec fn view(&self) -> TranslationUnitView {
        TranslationUnitView {
            preprocessor_list: view_all(self.preprocessor_list@),
            external_declarations: view_all(self.external_declarations@),
        }
    }
}

impl Clone for TranslationUnit {
    fn clone(&self) -> (r: Self)
        ensures
            r@ == self@,
    {
        let preprocessor_list = self.preprocessor_list.clone();
        let external_declarations = self.external_declarations.clone();
        assert(view_all(preprocessor_list@) =~= view_all(self.preprocessor_list@));
        assert(view_all(external_declarations@) =~= view_all(self.external_declarations@));
        TranslationUnit { preprocessor_list, external_declarations }
    }
}

// ---------------------------------------------------------------------------
// Errors
// ---------------------------------------------------------------------------

/// Why a token sequence could not be parsed.
#[derive(Debug)]
pub enum ParseError {
    UnexpectedEOF,
    FailedToFindToken(String),
    ExpectedTypeToken,
    ExpectedIdentifier,
    UnexpectedToken(String),
    ExpectedFloatLit,
    ExpectedIntLit,
    ExpectedStringLit,
    ExpectedBoolLit,
    ExpectedExpr,
}

pub enum ParseErrorView {
    UnexpectedEOF,
    FailedToFindToken(Seq<char>),
    ExpectedTypeToken,
    ExpectedIdentifier,
    UnexpectedToken(Seq<char>),
    ExpectedFloatLit,
    ExpectedIntLit,
    ExpectedStringLit,
    ExpectedBoolLit,
    ExpectedExpr,
}

impl View for ParseError {
    type V = ParseErrorView;

    open spec fn view(&self) -> ParseErrorView {
        match self {
            ParseError::UnexpectedEOF => ParseErrorView::UnexpectedEOF,
            ParseError::FailedToFindToken(s) => ParseErrorView::FailedToFindToken(s@),
            ParseError::ExpectedTypeToken => ParseErrorView::ExpectedTypeToken,
            ParseError::ExpectedIdentifier => ParseErrorView::ExpectedIdentifier,
            ParseError::UnexpectedToken(s) => ParseErrorView::UnexpectedToken(s@),
            ParseError::ExpectedFloatLit => ParseErrorView::ExpectedFloatLit,
            ParseError::ExpectedIntLit => ParseErrorView::ExpectedIntLit,
            ParseError::ExpectedStringLit => ParseErrorView::ExpectedStringLit,
            ParseError::ExpectedBoolLit => ParseErrorView::ExpectedBoolLit,
            ParseError::ExpectedExpr => ParseErrorView::ExpectedExpr,
        }
    }
}

impl Clone for ParseError {
    fn clone(&self) -> (r: Self)
        ensures
            r@ == self@,
    {
        match self {
            ParseError::UnexpectedEOF => ParseError::UnexpectedEOF,
            ParseError::FailedToFindToken(s) => ParseError::FailedToFindToken(s.clone()),
            ParseError::ExpectedTypeToken => ParseError::ExpectedTypeToken,
            ParseError::ExpectedIdentifier => ParseError::ExpectedIdentifier,
            ParseError::UnexpectedToken(s) => ParseError::UnexpectedToken(s.clone()),
            ParseError::ExpectedFloatLit => ParseError::ExpectedFloatLit,
            ParseError::ExpectedIntLit => ParseError::ExpectedIntLit,
            ParseError::ExpectedStringLit => ParseError::ExpectedStringLit,
            ParseError::ExpectedBoolLit => ParseError::ExpectedBoolLit,
            ParseError::ExpectedExpr => ParseError::ExpectedExpr,
        }
    }
}

} // verus!
