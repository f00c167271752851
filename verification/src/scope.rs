//! Lexical scope resolution.
//!
//! Scopes live in an arena: a vector in creation order, the global scope
//! first, each scope naming its parent by index. The resolver walks a
//! translation unit with a cursor (the current scope), binds every
//! declaration to a symbol and records undeclared uses and redefinitions.
//! Its behaviour is stated against [`ScopeAnalyzerView`], a mathematical
//! model whose methods carry the names of the operations they describe.

use crate::parser::ast::{
    clone_parameters, lemma_block_view, lemma_call_view, lemma_initializer_list_view, view_all,
    Expression, ExpressionView, ExternalDeclaration, ExternalDeclarationView, FunctionDeclaration,
    FunctionDeclarationView, FunctionDefinition, FunctionDefinitionView, Initializer,
    InitializerKind, InitializerKindView, InitializerView, Parameter, ParameterView,
    PreprocessorDirective, PreprocessorDirectiveView, Statement, StatementView, StorageClass,
    TranslationUnit, TranslationUnitView, TypeSpecifier, VariableDeclaration,
    VariableDeclarationView,
};
use crate::text::{
    decimal_digits, decimal_text, is_substring, str_contains, str_eq, truth, truth_text,
};
use vstd::string::*;
use vstd::prelude::*;

verus! {

// ---------------------------------------------------------------------------
// Errors and symbols
// ---------------------------------------------------------------------------

/// What scope resolution can find wrong with a name.
#[derive(Debug)]
pub enum ScopeError {
    UndeclaredVariable(String),
    UndefinedFunctionCalled(String),
    VariableRedefinition(String),
    FunctionPrototypeRedefinition(String),
}

pub enum ScopeErrorView {
    UndeclaredVariable(Seq<char>),
    UndefinedFunctionCalled(Seq<char>),
    VariableRedefinition(Seq<char>),
    FunctionPrototypeRedefinition(Seq<char>),
}

impl View for ScopeError {
    type V = ScopeErrorView;

    open spec fn view(&self) -> ScopeErrorView {
        match self {
            ScopeError::UndeclaredVariable(s) => ScopeErrorView::UndeclaredVariable(s@),
            ScopeError::UndefinedFunctionCalled(s) => ScopeErrorView::UndefinedFunctionCalled(s@),
            ScopeError::VariableRedefinition(s) => ScopeErrorView::VariableRedefinition(s@),
            ScopeError::FunctionPrototypeRedefinition(s) => {
                ScopeErrorView::FunctionPrototypeRedefinition(s@)
            },
        }
    }
}

impl Clone for ScopeError {
    fn clone(&self) -> (r: Self)
        ensures
            r@ == self@,
    {
        match self {
            ScopeError::UndeclaredVariable(s) => ScopeError::UndeclaredVariable(s.clone()),
            ScopeError::UndefinedFunctionCalled(s) => ScopeError::UndefinedFunctionCalled(
                s.clone(),
            ),
            ScopeError::VariableRedefinition(s) => ScopeError::VariableRedefinition(s.clone()),
            ScopeError::FunctionPrototypeRedefinition(s) => {
                ScopeError::FunctionPrototypeRedefinition(s.clone())
            },
        }
    }
}

/// What a name is bound to.
#[derive(Debug)]
pub enum SymbolKind {
    Variable { type_spec: TypeSpecifier, storage_class: Option<StorageClass> },
    Function { return_type: String, parameters: Vec<Parameter>, is_defined: bool },
    Parameter { param_type: String },
}

pub enum SymbolKindView {
    Variable { type_spec: TypeSpecifier, storage_class: Option<StorageClass> },
    Function { return_type: Seq<char>, parameters: Seq<ParameterView>, is_defined: bool },
    Parameter { param_type: Seq<char> },
}

impl View for SymbolKind {
    type V = SymbolKindView;

    open spec fn view(&self) -> SymbolKindView {
        match self {
            SymbolKind::Variable { type_spec, storage_class } => SymbolKindView::Variable {
                type_spec: *type_spec,
                storage_class: *storage_class,
            },
            SymbolKind::Function { return_type, parameters, is_defined } => {
                SymbolKindView::Function {
                    return_type: return_type@,
                    parameters: view_all(parameters@),
                    is_defined: *is_defined,
                }
            },
            SymbolKind::Parameter { param_type } => SymbolKindView::Parameter {
                param_type: param_type@,
            },
        }
    }
}

impl Clone for SymbolKind {
    fn clone(&self) -> (r: Self)
        ensures
            r@ == self@,
    {
        match self {
            SymbolKind::Variable { type_spec, storage_class } => SymbolKind::Variable {
                type_spec: *type_spec,
                storage_class: *storage_class,
            },
            SymbolKind::Function { return_type, parameters, is_defined } => SymbolKind::Function {
                return_type: return_type.clone(),
                parameters: clone_parameters(parameters),
                is_defined: *is_defined,
            },
            SymbolKind::Parameter { param_type } => SymbolKind::Parameter {
                param_type: param_type.clone(),
            },
        }
    }
}

/// A resolved binding: a name, what it is, and the depth of the scope that
/// owns it.
#[derive(Debug)]
pub struct Symbol {
    pub name: String,
    pub kind: SymbolKind,
    pub scope_level: usize,
}

pub struct SymbolView {
    pub name: Seq<char>,
    pub kind: SymbolKindView,
    pub scope_level: nat,
}

impl View for Symbol {
    type V = SymbolView;

    open spec fn view(&self) -> SymbolView {
        SymbolView { name: self.name@, kind: self.kind@, scope_level: self.scope_level as nat }
    }
}

impl Clone for Symbol {
    fn clone(&self) -> (r: Self)
        ensures
            r@ == self@,
    {
        Symbol { name: self.name.clone(), kind: self.kind.clone(), scope_level: self.scope_level }
    }
}

// ---------------------------------------------------------------------------
// Scopes
// ---------------------------------------------------------------------------

/// One scope: its bindings, the index of the enclosing scope (none for the
/// global scope) and its depth. Bindings are kept as a list of entries; where
/// a name occurs more than once, the first entry is the binding.
#[derive(Debug)]
pub struct ScopeNode {
    pub symbols: Vec<(String, Symbol)>,
    pub parent: Option<usize>,
    pub scope_level: usize,
}

pub struct ScopeNodeView {
    pub symbols: Map<Seq<char>, SymbolView>,
    pub parent: Option<nat>,
    pub scope_level: nat,
}

/// The bindings that a list of entries stands for.
pub open spec fn bindings(entries: Seq<(String, Symbol)>) -> Map<Seq<char>, SymbolView>
    decreases entries.len(),
{
    if entries.len() == 0 {
        Map::empty()
    } else {
        bindings(entries.drop_first()).insert(entries[0].0@, entries[0].1@)
    }
}

/// The first entry for a name is its binding.
pub proof fn lemma_bindings_found(entries: Seq<(String, Symbol)>, i: int, name: Seq<char>)
    requires
        0 <= i < entries.len(),
        entries[i].0@ == name,
        forall|j: int| 0 <= j < i ==> entries[j].0@ != name,
    ensures
        bindings(entries).contains_key(name),
        bindings(entries)[name] == entries[i].1@,
    decreases i,
{
    if i > 0 {
        lemma_bindings_found(entries.drop_first(), i - 1, name);
    }
}

/// A name that no entry carries is not bound.
pub proof fn lemma_bindings_absent(entries: Seq<(String, Symbol)>, name: Seq<char>)
    requires
        forall|j: int| 0 <= j < entries.len() ==> entries[j].0@ != name,
    ensures
        !bindings(entries).contains_key(name),
    decreases entries.len(),
{
    if entries.len() > 0 {
        lemma_bindings_absent(entries.drop_first(), name);
    }
}

/// Appending an entry for a name that is not bound yet binds it.
pub proof fn lemma_bindings_push(entries: Seq<(String, Symbol)>, entry: (String, Symbol))
    requires
        forall|j: int| 0 <= j < entries.len() ==> entries[j].0@ != entry.0@,
    ensures
        bindings(entries.push(entry)) == bindings(entries).insert(entry.0@, entry.1@),
    decreases entries.len(),
{
    if entries.len() == 0 {
        assert(entries.push(entry).drop_first() =~= entries);
    } else {
        lemma_bindings_push(entries.drop_first(), entry);
        assert(entries.push(entry).drop_first() =~= entries.drop_first().push(entry));
        assert(bindings(entries.push(entry)) =~= bindings(entries).insert(entry.0@, entry.1@));
    }
}

/// Replacing the first entry for a name rebinds it.
pub proof fn lemma_bindings_update(entries: Seq<(String, Symbol)>, i: int, entry: (String, Symbol))
    requires
        0 <= i < entries.len(),
        entries[i].0@ == entry.0@,
        forall|j: int| 0 <= j < i ==> entries[j].0@ != entry.0@,
    ensures
        bindings(entries.update(i, entry)) == bindings(entries).insert(entry.0@, entry.1@),
    decreases i,
{
    if i == 0 {
        assert(entries.update(i, entry).drop_first() =~= entries.drop_first());
        assert(bindings(entries.update(i, entry)) =~= bindings(entries).insert(
            entry.0@,
            entry.1@,
        ));
    } else {
        lemma_bindings_update(entries.drop_first(), i - 1, entry);
        assert(entries.update(i, entry).drop_first() =~= entries.drop_first().update(
            i - 1,
            entry,
        ));
        assert(bindings(entries.update(i, entry)) =~= bindings(entries).insert(
            entry.0@,
            entry.1@,
        ));
    }
}

impl View for ScopeNode {
    type V = ScopeNodeView;

    open spec fn view(&self) -> ScopeNodeView {
        ScopeNodeView {
            symbols: bindings(self.symbols@),
            parent: match self.parent {
                Some(p) => Some(p as nat),
                None => None,
            },
            scope_level: self.scope_level as nat,
        }
    }
}

/// The view of an optional symbol.
pub open spec fn view_opt_symbol(s: Option<Symbol>) -> Option<SymbolView> {
    match s {
        Some(s) => Some(s@),
        None => None,
    }
}

/// The binding of `name` in scope `id` of the arena or, failing that, in the
/// nearest enclosing scope that binds it.
pub open spec fn lookup_in(scopes: Seq<ScopeNodeView>, id: nat, name: Seq<char>) -> Option<
    SymbolView,
>
    decreases id,
{
    if id >= scopes.len() {
        None
    } else {
        lookup_from(scopes[id as int], id, scopes, name)
    }
}

/// The binding of `name` in `node` or, failing that, in the nearest scope
/// that binds it among those enclosing `node`. Parents are followed only
/// towards the front of the arena, below `bound`.
pub open spec fn lookup_from(
    node: ScopeNodeView,
    bound: nat,
    scopes: Seq<ScopeNodeView>,
    name: Seq<char>,
) -> Option<SymbolView>
    decreases bound,
{
    if node.symbols.contains_key(name) {
        Some(node.symbols[name])
    } else {
        match node.parent {
            Some(p) => if p < bound && p < scopes.len() {
                lookup_from(scopes[p as int], p, scopes, name)
            } else {
                None
            },
            None => None,
        }
    }
}

/// In an arena every parent stands before its children.
pub open spec fn parents_precede(scopes: Seq<ScopeNodeView>) -> bool {
    forall|i: int|
        0 <= i < scopes.len() ==> (#[trigger] scopes[i].parent matches Some(p) ==> p < i)
}

impl ScopeNode {
    /// A scope with no bindings: below `parent`, given by its index and
    /// itself, or the global scope where there is none.
    pub fn new(parent: Option<(usize, &ScopeNode)>) -> (r: ScopeNode)
        requires
            parent matches Some(p) ==> p.1.scope_level < usize::MAX,
        ensures
            r@.symbols == Map::<Seq<char>, SymbolView>::empty(),
            parent matches Some(p) ==> r@.parent == Some(p.0 as nat) && r@.scope_level
                == p.1.scope_level + 1,
            parent is None ==> r@.parent is None && r@.scope_level == 0,
    {
        match parent {
            Some((id, node)) => ScopeNode {
                symbols: Vec::new(),
                parent: Some(id),
                scope_level: node.scope_level + 1,
            },
            None => ScopeNode { symbols: Vec::new(), parent: None, scope_level: 0 },
        }
    }

    /// The index of the first entry for `name`.
    fn position(&self, name: &str) -> (r: Option<usize>)
        ensures
            match r {
                Some(i) => i < self.symbols@.len() && self.symbols@[i as int].0@ == name@
                    && forall|j: int| 0 <= j < i ==> self.symbols@[j].0@ != name@,
                None => forall|j: int| 0 <= j < self.symbols@.len() ==> self.symbols@[j].0@ != name@,
            },
    {
        let mut i: usize = 0;
        while i < self.symbols.len()
            invariant
                i <= self.symbols@.len(),
                forall|j: int| 0 <= j < i ==> self.symbols@[j].0@ != name@,
            decreases self.symbols@.len() - i,
        {
            if str_eq(self.symbols[i].0.as_str(), name) {
                return Some(i);
            }
            i += 1;
        }
        None
    }

    /// Whether this scope itself binds `name`.
    pub fn binds(&self, name: &str) -> (r: bool)
        ensures
            r == self@.symbols.contains_key(name@),
    {
        match self.position(name) {
            Some(i) => {
                proof {
                    lemma_bindings_found(self.symbols@, i as int, name@);
                }
                true
            },
            None => {
                proof {
                    lemma_bindings_absent(self.symbols@, name@);
                }
                false
            },
        }
    }

    /// The binding of `name` in this scope alone.
    pub fn lookup_current_scope(&self, name: &str) -> (r: Option<Symbol>)
        ensures
            r is Some <==> self@.symbols.contains_key(name@),
            r matches Some(s) ==> s@ == self@.symbols[name@],
    {
        match self.position(name) {
            Some(i) => {
                proof {
                    lemma_bindings_found(self.symbols@, i as int, name@);
                }
                Some(self.symbols[i].1.clone())
            },
            None => {
                proof {
                    lemma_bindings_absent(self.symbols@, name@);
                }
                None
            },
        }
    }

    /// The binding of `name` in this scope or, failing that, in the nearest
    /// enclosing scope of the arena `scopes` that binds it.
    pub fn lookup(&self, scopes: &Vec<ScopeNode>, name: &str) -> (r: Option<Symbol>)
        requires
            parents_precede(view_all(scopes@)),
            self.parent matches Some(p) ==> p < scopes.len(),
        ensures
            view_opt_symbol(r) == lookup_from(
                self@,
                scopes@.len(),
                view_all(scopes@),
                name@,
            ),
    {
        let found = self.lookup_current_scope(name);
        if found.is_some() {
            return found;
        }
        let mut next: Option<usize> = self.parent;
        let mut bound: usize = scopes.len();
        loop
            invariant
                parents_precede(view_all(scopes@)),
                bound <= scopes.len(),
                next matches Some(p) ==> p < bound,
                lookup_from(self@, scopes@.len(), view_all(scopes@), name@) == (match next {
                    Some(p) => lookup_from(
                        view_all(scopes@)[p as int],
                        p as nat,
                        view_all(scopes@),
                        name@,
                    ),
                    None => None,
                }),
            decreases bound,
        {
            match next {
                None => {
                    return None;
                },
                Some(p) => {
                    let node = &scopes[p];
                    let found = node.lookup_current_scope(name);
                    if found.is_some() {
                        return found;
                    }
                    assert(view_all(scopes@)[p as int] == node@);
                    next = node.parent;
                    bound = p;
                },
            }
        }
    }

    /// Binds `name` to `symbol` in this scope, in place of what `name` was
    /// bound to there.
    pub fn insert_symbol(&mut self, name: String, symbol: Symbol)
        ensures
            final(self)@.symbols == old(self)@.symbols.insert(name@, symbol@),
            final(self)@.parent == old(self)@.parent,
            final(self)@.scope_level == old(self)@.scope_level,
    {
        match self.position(name.as_str()) {
            Some(i) => {
                proof {
                    lemma_bindings_update(self.symbols@, i as int, (name, symbol));
                }
                self.symbols.set(i, (name, symbol));
            },
            None => {
                proof {
                    lemma_bindings_push(self.symbols@, (name, symbol));
                }
                self.symbols.push((name, symbol));
            },
        }
    }
}

// ---------------------------------------------------------------------------
// The resolver: model
// ---------------------------------------------------------------------------

/// The state of a resolver: the arena of scopes in creation order, the index
/// of the current scope, and the errors recorded so far.
pub struct ScopeAnalyzerView {
    pub scopes: Seq<ScopeNodeView>,
    pub current: nat,
    pub errors: Seq<ScopeErrorView>,
}

impl ScopeAnalyzerView {
    /// What holds of every state of a resolver: there is one global scope,
    /// the first one, at depth 0; every other scope has exactly one parent,
    /// created before it, and lies one level deeper; the cursor names a scope;
    /// and every symbol is bound under its own name, at the depth of the
    /// scope that owns it.
    pub open spec fn well_formed(self) -> bool {
        &&& self.scopes.len() > 0
        &&& self.current < self.scopes.len()
        &&& self.scopes[0].parent is None
        &&& self.scopes[0].scope_level == 0
        &&& forall|i: int|
            0 < i < self.scopes.len() ==> (#[trigger] self.scopes[i].parent matches Some(p) && p
                < i && self.scopes[i].scope_level == self.scopes[p as int].scope_level + 1)
        &&& forall|i: int, name: Seq<char>|
            0 <= i < self.scopes.len() && #[trigger] self.scopes[i].symbols.contains_key(name)
                ==> self.scopes[i].symbols[name].name == name
                && self.scopes[i].symbols[name].scope_level == self.scopes[i].scope_level
    }

    /// The state of a new resolver: the global scope alone, empty.
    pub open spec fn fresh() -> Self {
        ScopeAnalyzerView {
            scopes: seq![
                ScopeNodeView { symbols: Map::empty(), parent: None, scope_level: 0 },
            ],
            current: 0,
            errors: Seq::empty(),
        }
    }

    /// The scope under the cursor.
    pub open spec fn current_scope(self) -> ScopeNodeView {
        self.scopes[self.current as int]
    }

    /// A new, empty scope below the current one becomes the current scope.
    pub open spec fn enter_scope(self) -> Self {
        ScopeAnalyzerView {
            scopes: self.scopes.push(
                ScopeNodeView {
                    symbols: Map::empty(),
                    parent: Some(self.current),
                    scope_level: self.current_scope().scope_level + 1,
                },
            ),
            current: self.scopes.len(),
            errors: self.errors,
        }
    }

    /// The parent of the current scope becomes the current scope; at the
    /// global scope nothing changes.
    pub open spec fn exit_scope(self) -> Self {
        match self.current_scope().parent {
            Some(p) => ScopeAnalyzerView { current: p, ..self },
            None => self,
        }
    }

    /// One more error.
    pub open spec fn record(self, error: ScopeErrorView) -> Self {
        ScopeAnalyzerView { errors: self.errors.push(error), ..self }
    }

    /// The error for declaring `name` where the current scope binds it.
    pub open spec fn redefinition(name: Seq<char>, kind: SymbolKindView) -> ScopeErrorView {
        if kind is Function {
            ScopeErrorView::FunctionPrototypeRedefinition(name)
        } else {
            ScopeErrorView::VariableRedefinition(name)
        }
    }

    /// What declaring `name` answers: an error if and only if the current
    /// scope itself binds `name` already. A binding in an enclosing scope is
    /// shadowed, not an error.
    pub open spec fn declare_symbol_result(self, name: Seq<char>, kind: SymbolKindView) -> Result<
        (),
        ScopeErrorView,
    > {
        if self.current_scope().symbols.contains_key(name) {
            Err(Self::redefinition(name, kind))
        } else {
            Ok(())
        }
    }

    /// The state after declaring `name`: the error recorded, or `name` bound
    /// in the current scope at that scope's depth.
    pub open spec fn declare_symbol(self, name: Seq<char>, kind: SymbolKindView) -> Self {
        if self.current_scope().symbols.contains_key(name) {
            self.record(Self::redefinition(name, kind))
        } else {
            let scope = self.current_scope();
            let symbol = SymbolView { name, kind, scope_level: scope.scope_level };
            ScopeAnalyzerView {
                scopes: self.scopes.update(
                    self.current as int,
                    ScopeNodeView { symbols: scope.symbols.insert(name, symbol), ..scope },
                ),
                ..self
            }
        }
    }

    /// The nearest binding of `name`, from the current scope outwards.
    pub open spec fn lookup_symbol(self, name: Seq<char>) -> Option<SymbolView> {
        lookup_in(self.scopes, self.current, name)
    }

    /// The state after a use of `name` as a variable: an error is recorded if
    /// and only if no visible scope binds `name`.
    pub open spec fn check_variable_access(self, name: Seq<char>) -> Self {
        if self.lookup_symbol(name) is Some {
            self
        } else {
            self.record(ScopeErrorView::UndeclaredVariable(name))
        }
    }

    /// Whether `name` is visible and bound to a function.
    pub open spec fn names_function(self, name: Seq<char>) -> bool {
        self.lookup_symbol(name) matches Some(symbol) && symbol.kind is Function
    }

    /// The state after a call of `name`: an error is recorded if and only if
    /// the nearest binding of `name` is missing or is no function.
    pub open spec fn check_function_call(self, name: Seq<char>) -> Self {
        if self.names_function(name) {
            self
        } else {
            self.record(ScopeErrorView::UndefinedFunctionCalled(name))
        }
    }

    /// The state after resolving the names in an expression: operands are
    /// visited left to right, a call's name before its arguments.
    pub open spec fn analyze_expression(self, expr: ExpressionView) -> Self
        decreases expr,
    {
        match expr {
            ExpressionView::Identifier(name) => self.check_variable_access(name),
            ExpressionView::FunctionCall(name, args) => self.check_function_call(
                name,
            ).analyze_expressions(args),
            ExpressionView::BinaryOp(left, _, right) => self.analyze_expression(
                *left,
            ).analyze_expression(*right),
            ExpressionView::UnaryOp(_, operand) => self.analyze_expression(*operand),
            ExpressionView::Assignment(left, _, right) => self.analyze_expression(
                *left,
            ).analyze_expression(*right),
            ExpressionView::Conditional(condition, first, second) => self.analyze_expression(
                *condition,
            ).analyze_expression(*first).analyze_expression(*second),
            ExpressionView::ArrayAccess(array, index) => self.analyze_expression(
                *array,
            ).analyze_expression(*index),
            ExpressionView::MemberAccess(object, _) => self.analyze_expression(*object),
            ExpressionView::PointerAccess(pointer, _) => self.analyze_expression(*pointer),
            ExpressionView::PostfixOp(operand, _) => self.analyze_expression(*operand),
            ExpressionView::Cast(_, operand) => self.analyze_expression(*operand),
            ExpressionView::Constant(_) => self,
            ExpressionView::StringLiteral(_) => self,
        }
    }

    /// The state after resolving a list of expressions, first to last.
    pub open spec fn analyze_expressions(self, exprs: Seq<ExpressionView>) -> Self
        decreases exprs,
    {
        if exprs.len() == 0 {
            self
        } else {
            self.analyze_expressions(exprs.drop_last()).analyze_expression(exprs.last())
        }
    }

    /// The state after resolving the items of an initializer list that are
    /// plain expressions, first to last. Nested lists and designated items
    /// are passed over.
    pub open spec fn analyze_initializer_items(self, items: Seq<InitializerView>) -> Self
        decreases items.len(),
    {
        if items.len() == 0 {
            self
        } else {
            let before = self.analyze_initializer_items(items.drop_last());
            match items.last().kind {
                InitializerKindView::Assignment(expr) => before.analyze_expression(expr),
                _ => before,
            }
        }
    }

    /// The state after resolving an initializer: its expression, the plain
    /// expressions of its list, or the plain expression that it designates.
    pub open spec fn analyze_initializer(self, init: InitializerView) -> Self {
        match init.kind {
            InitializerKindView::Assignment(expr) => self.analyze_expression(expr),
            InitializerKindView::List(items) => self.analyze_initializer_items(items),
            InitializerKindView::Designated(_, inner) => match inner.kind {
                InitializerKindView::Assignment(expr) => self.analyze_expression(expr),
                _ => self,
            },
        }
    }

    /// The state after a variable declaration: the name is declared first,
    /// so that its own initializer may use it; then the initializer is
    /// resolved.
    pub open spec fn analyze_variable_declaration(self, decl: VariableDeclarationView) -> Self {
        let declared = self.declare_symbol(
            decl.declarator.name,
            SymbolKindView::Variable {
                type_spec: decl.type_specifier,
                storage_class: decl.storage_class,
            },
        );
        match decl.initializer {
            Some(init) => declared.analyze_initializer(init),
            None => declared,
        }
    }

    /// The state after resolving an optional expression.
    pub open spec fn analyze_optional(self, expr: Option<ExpressionView>) -> Self {
        match expr {
            Some(e) => self.analyze_expression(e),
            None => self,
        }
    }

    /// The state after a statement. A block opens a scope for its statements
    /// and leaves it afterwards; a `for` loop opens one for its three clauses
    /// and its body. Every other statement is resolved in the scope in which
    /// it stands, its parts in source order.
    pub open spec fn analyze_statement(self, stmt: StatementView) -> Self
        decreases stmt,
    {
        match stmt {
            StatementView::Declaration(decl) => self.analyze_variable_declaration(decl),
            StatementView::Assignment(name, expr) => self.check_variable_access(
                name,
            ).analyze_expression(expr),
            StatementView::Return(expr) => self.analyze_optional(expr),
            StatementView::Expression(expr) => self.analyze_expression(expr),
            StatementView::Block(stmts) => self.enter_scope().analyze_statements(
                stmts,
            ).exit_scope(),
            StatementView::If(condition, first, second) => {
                let after = self.analyze_expression(condition).analyze_statement(*first);
                match second {
                    Some(stmt) => after.analyze_statement(*stmt),
                    None => after,
                }
            },
            StatementView::While(condition, body) => self.analyze_expression(
                condition,
            ).analyze_statement(*body),
            StatementView::For(init, condition, update, body) => {
                let entered = self.enter_scope();
                let after = match init {
                    Some(stmt) => entered.analyze_statement(*stmt),
                    None => entered,
                };
                after.analyze_optional(condition).analyze_optional(update).analyze_statement(
                    *body,
                ).exit_scope()
            },
            StatementView::Break => self,
            StatementView::DoWhile(body, condition) => self.analyze_statement(
                *body,
            ).analyze_expression(condition),
            StatementView::Switch(value, body) => self.analyze_expression(
                value,
            ).analyze_statement(*body),
            StatementView::Case(value, body) => self.analyze_expression(value).analyze_statement(
                *body,
            ),
            StatementView::Default(body) => self.analyze_statement(*body),
            StatementView::Continue => self,
            StatementView::Goto(_) => self,
            StatementView::Labeled(_, body) => self.analyze_statement(*body),
        }
    }

    /// The state after a list of statements, first to last.
    pub open spec fn analyze_statements(self, stmts: Seq<StatementView>) -> Self
        decreases stmts,
    {
        if stmts.len() == 0 {
            self
        } else {
            self.analyze_statements(stmts.drop_last()).analyze_statement(stmts.last())
        }
    }

    /// The state after a prototype: the function is declared, not yet
    /// defined.
    pub open spec fn analyze_function_declaration(self, decl: FunctionDeclarationView) -> Self {
        self.declare_symbol(
            decl.name,
            SymbolKindView::Function {
                return_type: decl.return_type,
                parameters: decl.parameters,
                is_defined: false,
            },
        )
    }

    /// The state after declaring parameters, first to last.
    pub open spec fn declare_parameters(self, params: Seq<ParameterView>) -> Self
        decreases params.len(),
    {
        if params.len() == 0 {
            self
        } else {
            self.declare_parameters(params.drop_last()).declare_symbol(
                params.last().name,
                SymbolKindView::Parameter { param_type: params.last().param_type },
            )
        }
    }

    /// The state after a function definition: the function is declared in
    /// the current scope; one scope is opened for its parameters and its
    /// body, and left afterwards.
    pub open spec fn analyze_function_definition(self, def: FunctionDefinitionView) -> Self {
        self.declare_symbol(
            def.name,
            SymbolKindView::Function {
                return_type: def.return_type,
                parameters: def.parameters,
                is_defined: true,
            },
        ).enter_scope().declare_parameters(def.parameters).analyze_statements(
            def.body,
        ).exit_scope()
    }

    /// The state after one external declaration.
    pub open spec fn analyze_external_declaration(self, decl: ExternalDeclarationView) -> Self {
        match decl {
            ExternalDeclarationView::Variable(v) => self.analyze_variable_declaration(v),
            ExternalDeclarationView::Function(f) => self.analyze_function_definition(f),
            ExternalDeclarationView::FunctionDeclaration(d) => self.analyze_function_declaration(
                d,
            ),
        }
    }

    /// The state after a list of external declarations, in source order.
    pub open spec fn analyze_external_declarations(
        self,
        decls: Seq<ExternalDeclarationView>,
    ) -> Self
        decreases decls.len(),
    {
        if decls.len() == 0 {
            self
        } else {
            self.analyze_external_declarations(decls.drop_last()).analyze_external_declaration(
                decls.last(),
            )
        }
    }

    /// Whether some directive includes a header whose path holds `stdio.h`.
    pub open spec fn includes_stdio(directives: Seq<PreprocessorDirectiveView>) -> bool {
        exists|i: int|
            0 <= i < directives.len() && (#[trigger] directives[i] matches PreprocessorDirectiveView::Include(
                header,
            ) && is_substring("stdio.h"@, header))
    }

    /// What the standard I/O header declares: `printf`, a defined function
    /// returning `int`, its parameters left out.
    pub open spec fn printf_kind() -> SymbolKindView {
        SymbolKindView::Function {
            return_type: "int"@,
            parameters: Seq::empty(),
            is_defined: true,
        }
    }

    /// The state after the built-ins that the included headers imply have
    /// been declared.
    pub open spec fn add_builtin_functions_from_includes(
        self,
        directives: Seq<PreprocessorDirectiveView>,
    ) -> Self {
        if Self::includes_stdio(directives) {
            self.declare_symbol("printf"@, Self::printf_kind())
        } else {
            self
        }
    }

    /// The state after a whole translation unit: built-ins first, then the
    /// external declarations in source order.
    pub open spec fn analyze_translation_unit(self, unit: TranslationUnitView) -> Self {
        self.add_builtin_functions_from_includes(
            unit.preprocessor_list,
        ).analyze_external_declarations(unit.external_declarations)
    }
}

/// In a well-formed arena no scope lies deeper than its index.
pub proof fn lemma_level_bounded(state: ScopeAnalyzerView, i: int)
    requires
        state.well_formed(),
        0 <= i < state.scopes.len(),
    ensures
        state.scopes[i].scope_level <= i,
    decreases i,
{
    if i > 0 {
        let p = state.scopes[i].parent->0;
        lemma_level_bounded(state, p as int);
    }
}

// ---------------------------------------------------------------------------
// Laws of the model
// ---------------------------------------------------------------------------

/// A scope that was just entered is empty, lies one level below the scope
/// that was current, and has it as its parent; entering keeps a state
/// well-formed.
pub proof fn lemma_enter_scope(state: ScopeAnalyzerView)
    requires
        state.well_formed(),
    ensures
        state.enter_scope().well_formed(),
        state.enter_scope().current_scope().symbols == Map::<Seq<char>, SymbolView>::empty(),
        state.enter_scope().current_scope().parent == Some(state.current),
        state.enter_scope().current_scope().scope_level == state.current_scope().scope_level + 1,
        state.enter_scope().exit_scope().current == state.current,
{
    let after = state.enter_scope();
    assert forall|i: int| 0 < i < after.scopes.len() implies (
    #[trigger] after.scopes[i].parent matches Some(p) && p < i && after.scopes[i].scope_level
        == after.scopes[p as int].scope_level + 1) by {
        if i < state.scopes.len() {
            assert(state.scopes[i].parent is Some);
        }
    }
    assert forall|i: int, name: Seq<char>|
        0 <= i < after.scopes.len() && #[trigger] after.scopes[i].symbols.contains_key(
            name,
        ) implies after.scopes[i].symbols[name].name == name
        && after.scopes[i].symbols[name].scope_level == after.scopes[i].scope_level by {
        if i < state.scopes.len() {
            assert(state.scopes[i].symbols.contains_key(name));
        }
    }
}

/// Leaving a scope keeps a state well-formed and changes nothing but the
/// cursor.
pub proof fn lemma_exit_scope(state: ScopeAnalyzerView)
    requires
        state.well_formed(),
    ensures
        state.exit_scope().well_formed(),
        state.exit_scope().scopes == state.scopes,
        state.exit_scope().errors == state.errors,
{
}

/// Declaring keeps a state well-formed: the symbol is bound under its own
/// name at the depth of its scope, and no scope changes its parent or its
/// depth.
pub proof fn lemma_declare_symbol(state: ScopeAnalyzerView, name: Seq<char>, kind: SymbolKindView)
    requires
        state.well_formed(),
    ensures
        state.declare_symbol(name, kind).well_formed(),
        state.declare_symbol(name, kind).current == state.current,
        state.declare_symbol(name, kind).scopes.len() == state.scopes.len(),
{
    let after = state.declare_symbol(name, kind);
    assert forall|i: int| 0 < i < after.scopes.len() implies (
    #[trigger] after.scopes[i].parent matches Some(p) && p < i && after.scopes[i].scope_level
        == after.scopes[p as int].scope_level + 1) by {
        assert(state.scopes[i].parent is Some);
    }
    assert forall|i: int, other: Seq<char>|
        0 <= i < after.scopes.len() && #[trigger] after.scopes[i].symbols.contains_key(
            other,
        ) implies after.scopes[i].symbols[other].name == other
        && after.scopes[i].symbols[other].scope_level == after.scopes[i].scope_level by {
        if i != state.current || other != name || state.scopes[i].symbols.contains_key(name) {
            assert(state.scopes[i].symbols.contains_key(other));
        }
    }
}

/// Shadowing: whatever the enclosing scopes bind, a name can be declared in
/// a scope that was just entered; there it is then bound to the new symbol,
/// at the new depth; and after the scope is left, the name means what it
/// meant before.
pub proof fn lemma_shadowing(state: ScopeAnalyzerView, name: Seq<char>, kind: SymbolKindView)
    requires
        state.well_formed(),
    ensures
        state.enter_scope().declare_symbol_result(name, kind) is Ok,
        state.enter_scope().declare_symbol(name, kind).errors == state.errors,
        state.enter_scope().declare_symbol(name, kind).lookup_symbol(name) == Some(
            SymbolView { name, kind, scope_level: state.current_scope().scope_level + 1 },
        ),
        state.enter_scope().declare_symbol(name, kind).exit_scope().lookup_symbol(name)
            == state.lookup_symbol(name),
{
    let inner = state.enter_scope().declare_symbol(name, kind);
    let outer = inner.exit_scope();
    lemma_enter_scope(state);
    assert(outer.current == state.current);
    lemma_lookup_ignores_later_scopes(state.scopes, outer.scopes, state.current, name);
}

/// What a name means in a scope does not depend on the scopes that were
/// created after that scope.
pub proof fn lemma_lookup_ignores_later_scopes(
    before: Seq<ScopeNodeView>,
    after: Seq<ScopeNodeView>,
    id: nat,
    name: Seq<char>,
)
    requires
        id < before.len() <= after.len(),
        forall|i: int| 0 <= i <= id ==> before[i] == after[i],
    ensures
        lookup_in(before, id, name) == lookup_in(after, id, name),
    decreases id,
{
    let node = before[id as int];
    if !node.symbols.contains_key(name) {
        if let Some(p) = node.parent {
            if p < id {
                lemma_lookup_ignores_later_scopes(before, after, p, name);
            }
        }
    }
}

/// Redefinition: once a name is declared in a scope, declaring it again in
/// the same scope fails, with the error of the kind declared, and changes
/// no binding.
pub proof fn lemma_redefinition(
    state: ScopeAnalyzerView,
    name: Seq<char>,
    first: SymbolKindView,
    second: SymbolKindView,
)
    requires
        state.well_formed(),
    ensures
        state.declare_symbol(name, first).declare_symbol_result(name, second) == Err::<
            (),
            ScopeErrorView,
        >(ScopeAnalyzerView::redefinition(name, second)),
        state.declare_symbol(name, first).declare_symbol(name, second).scopes
            == state.declare_symbol(name, first).scopes,
        state.declare_symbol(name, first).declare_symbol(name, second).errors
            == state.declare_symbol(name, first).errors.push(
            ScopeAnalyzerView::redefinition(name, second),
        ),
{
}

/// Assigning to an undeclared name: the statement `name = value;`, where no
/// visible scope binds `name` and the value is a literal, records exactly
/// one error, which names the variable, and changes nothing else.
pub proof fn lemma_assignment_to_undeclared(
    state: ScopeAnalyzerView,
    name: Seq<char>,
    op: crate::parser::ast::AssignmentOperator,
    value: crate::parser::ast::ConstantView,
)
    requires
        state.lookup_symbol(name) is None,
    ensures
        state.analyze_statement(
            StatementView::Expression(
                ExpressionView::Assignment(
                    Box::new(ExpressionView::Identifier(name)),
                    op,
                    Box::new(ExpressionView::Constant(value)),
                ),
            ),
        ) == state.record(ScopeErrorView::UndeclaredVariable(name)),
{
    reveal_with_fuel(ScopeAnalyzerView::analyze_expression, 3);
}

/// An undeclared name: a use of a name that no visible scope binds records
/// exactly one error, which names it; a use of a visible name records none.
pub proof fn lemma_undeclared_variable(state: ScopeAnalyzerView, name: Seq<char>)
    ensures
        state.lookup_symbol(name) is None ==> state.check_variable_access(name).errors
            == state.errors.push(ScopeErrorView::UndeclaredVariable(name)),
        state.lookup_symbol(name) is Some ==> state.check_variable_access(name) == state,
        state.check_variable_access(name).scopes == state.scopes,
        state.check_variable_access(name).current == state.current,
{
}

/// Whether the scope `after` is the scope `before` with, at most, more
/// bindings: the same parent, the same depth, and every binding kept.
pub open spec fn scope_kept(before: ScopeNodeView, after: ScopeNodeView) -> bool {
    &&& after.parent == before.parent
    &&& after.scope_level == before.scope_level
    &&& forall|name: Seq<char>| #[trigger]
        before.symbols.contains_key(name) ==> after.symbols.contains_key(name)
            && after.symbols[name] == before.symbols[name]
}

impl ScopeAnalyzerView {
    /// Whether this state can come after `before`: the cursor is where it
    /// was, every scope that was there is kept, and every error that was
    /// recorded is still there, in its place.
    pub open spec fn extends(self, before: Self) -> bool {
        &&& self.current == before.current
        &&& before.scopes.len() <= self.scopes.len()
        &&& forall|i: int|
            0 <= i < before.scopes.len() ==> scope_kept(before.scopes[i], #[trigger] self.scopes[i])
        &&& before.errors.is_prefix_of(self.errors)
    }
}

/// Coming after is transitive.
pub proof fn lemma_extends_transitive(
    first: ScopeAnalyzerView,
    second: ScopeAnalyzerView,
    third: ScopeAnalyzerView,
)
    requires
        second.extends(first),
        third.extends(second),
    ensures
        third.extends(first),
{
    assert forall|i: int| 0 <= i < first.scopes.len() implies scope_kept(
        first.scopes[i],
        #[trigger] third.scopes[i],
    ) by {
        assert(scope_kept(first.scopes[i], second.scopes[i]));
        assert(scope_kept(second.scopes[i], third.scopes[i]));
    }
}

/// A state with the scopes and the cursor of a well-formed state, and its
/// errors and perhaps more, is well-formed and comes after it.
pub proof fn lemma_more_errors(before: ScopeAnalyzerView, after: ScopeAnalyzerView)
    requires
        before.well_formed(),
        after.scopes == before.scopes,
        after.current == before.current,
        before.errors.is_prefix_of(after.errors),
    ensures
        after.well_formed(),
        after.extends(before),
{
}

/// Declaring keeps every scope, every binding and every error.
pub proof fn lemma_declare_symbol_extends(
    state: ScopeAnalyzerView,
    name: Seq<char>,
    kind: SymbolKindView,
)
    requires
        state.well_formed(),
    ensures
        state.declare_symbol(name, kind).well_formed(),
        state.declare_symbol(name, kind).extends(state),
        state.declare_symbol(name, kind).scopes.len() == state.scopes.len(),
{
    lemma_declare_symbol(state, name, kind);
}

/// Resolving an expression changes neither the scopes nor the cursor; it
/// may record errors.
pub proof fn lemma_analyze_expression(state: ScopeAnalyzerView, expr: ExpressionView)
    ensures
        state.analyze_expression(expr).scopes == state.scopes,
        state.analyze_expression(expr).current == state.current,
        state.errors.is_prefix_of(state.analyze_expression(expr).errors),
    decreases expr,
{
    match expr {
        ExpressionView::Identifier(_) => {},
        ExpressionView::FunctionCall(name, args) => {
            lemma_analyze_expressions(state.check_function_call(name), args);
        },
        ExpressionView::BinaryOp(left, _, right) => {
            lemma_analyze_expression(state, *left);
            lemma_analyze_expression(state.analyze_expression(*left), *right);
        },
        ExpressionView::UnaryOp(_, operand) => {
            lemma_analyze_expression(state, *operand);
        },
        ExpressionView::Assignment(left, _, right) => {
            lemma_analyze_expression(state, *left);
            lemma_analyze_expression(state.analyze_expression(*left), *right);
        },
        ExpressionView::Conditional(condition, first, second) => {
            lemma_analyze_expression(state, *condition);
            let s1 = state.analyze_expression(*condition);
            lemma_analyze_expression(s1, *first);
            lemma_analyze_expression(s1.analyze_expression(*first), *second);
        },
        ExpressionView::ArrayAccess(array, index) => {
            lemma_analyze_expression(state, *array);
            lemma_analyze_expression(state.analyze_expression(*array), *index);
        },
        ExpressionView::MemberAccess(object, _) => {
            lemma_analyze_expression(state, *object);
        },
        ExpressionView::PointerAccess(pointer, _) => {
            lemma_analyze_expression(state, *pointer);
        },
        ExpressionView::PostfixOp(operand, _) => {
            lemma_analyze_expression(state, *operand);
        },
        ExpressionView::Cast(_, operand) => {
            lemma_analyze_expression(state, *operand);
        },
        ExpressionView::Constant(_) => {},
        ExpressionView::StringLiteral(_) => {},
    }
}

/// Resolving a list of expressions changes neither the scopes nor the
/// cursor.
pub proof fn lemma_analyze_expressions(state: ScopeAnalyzerView, exprs: Seq<ExpressionView>)
    ensures
        state.analyze_expressions(exprs).scopes == state.scopes,
        state.analyze_expressions(exprs).current == state.current,
        state.errors.is_prefix_of(state.analyze_expressions(exprs).errors),
    decreases exprs,
{
    if exprs.len() > 0 {
        lemma_analyze_expressions(state, exprs.drop_last());
        lemma_analyze_expression(state.analyze_expressions(exprs.drop_last()), exprs.last());
    }
}

/// Resolving the items of an initializer list changes neither the scopes
/// nor the cursor.
pub proof fn lemma_analyze_initializer_items(state: ScopeAnalyzerView, items: Seq<InitializerView>)
    ensures
        state.analyze_initializer_items(items).scopes == state.scopes,
        state.analyze_initializer_items(items).current == state.current,
        state.errors.is_prefix_of(state.analyze_initializer_items(items).errors),
    decreases items.len(),
{
    if items.len() > 0 {
        lemma_analyze_initializer_items(state, items.drop_last());
        let before = state.analyze_initializer_items(items.drop_last());
        match items.last().kind {
            InitializerKindView::Assignment(expr) => {
                lemma_analyze_expression(before, expr);
            },
            _ => {},
        }
    }
}

/// A variable declaration keeps a state well-formed, and keeps every
/// scope, every binding and every error.
pub proof fn lemma_analyze_variable_declaration(
    state: ScopeAnalyzerView,
    decl: VariableDeclarationView,
)
    requires
        state.well_formed(),
    ensures
        state.analyze_variable_declaration(decl).well_formed(),
        state.analyze_variable_declaration(decl).extends(state),
        state.analyze_variable_declaration(decl).scopes.len() == state.scopes.len(),
{
    let kind = SymbolKindView::Variable {
        type_spec: decl.type_specifier,
        storage_class: decl.storage_class,
    };
    let declared = state.declare_symbol(decl.declarator.name, kind);
    lemma_declare_symbol_extends(state, decl.declarator.name, kind);
    let after = state.analyze_variable_declaration(decl);
    assert(after.scopes == declared.scopes && after.current == declared.current
        && declared.errors.is_prefix_of(after.errors)) by {
        match decl.initializer {
            Some(init) => {
                match init.kind {
                    InitializerKindView::Assignment(expr) => {
                        lemma_analyze_expression(declared, expr);
                    },
                    InitializerKindView::List(items) => {
                        lemma_analyze_initializer_items(declared, items);
                    },
                    InitializerKindView::Designated(_, inner) => {
                        match inner.kind {
                            InitializerKindView::Assignment(expr) => {
                                lemma_analyze_expression(declared, expr);
                            },
                            _ => {},
                        }
                    },
                }
            },
            None => {},
        }
    }
    lemma_more_errors(declared, after);
    lemma_extends_transitive(state, declared, after);
}

/// The structure of scopes is kept by every statement: resolving a
/// statement keeps a state well-formed, leaves the cursor where it was,
/// keeps every scope with its parent, its depth and its bindings, and keeps
/// every error.
pub proof fn lemma_analyze_statement(state: ScopeAnalyzerView, stmt: StatementView)
    requires
        state.well_formed(),
    ensures
        state.analyze_statement(stmt).well_formed(),
        state.analyze_statement(stmt).extends(state),
    decreases stmt,
{
    match stmt {
        StatementView::Declaration(decl) => {
            lemma_analyze_variable_declaration(state, decl);
        },
        StatementView::Assignment(name, expr) => {
            let s1 = state.check_variable_access(name);
            lemma_more_errors(state, s1);
            lemma_analyze_expression(s1, expr);
            lemma_more_errors(state, s1.analyze_expression(expr));
        },
        StatementView::Return(expr) => {
            match expr {
                Some(e) => {
                    lemma_analyze_expression(state, e);
                    lemma_more_errors(state, state.analyze_expression(e));
                },
                None => {},
            }
        },
        StatementView::Expression(expr) => {
            lemma_analyze_expression(state, expr);
            lemma_more_errors(state, state.analyze_expression(expr));
        },
        StatementView::Block(stmts) => {
            let entered = state.enter_scope();
            lemma_enter_scope(state);
            lemma_analyze_statements(entered, stmts);
            let inner = entered.analyze_statements(stmts);
            lemma_exit_scope(inner);
            assert(scope_kept(entered.scopes[entered.current as int], inner.scopes[inner.current as int]));
            lemma_leave(state, inner);
        },
        StatementView::If(condition, first, second) => {
            lemma_analyze_expression(state, condition);
            let s1 = state.analyze_expression(condition);
            lemma_more_errors(state, s1);
            lemma_analyze_statement(s1, *first);
            let s2 = s1.analyze_statement(*first);
            lemma_extends_transitive(state, s1, s2);
            match second {
                Some(stmt) => {
                    lemma_analyze_statement(s2, *stmt);
                    lemma_extends_transitive(state, s2, s2.analyze_statement(*stmt));
                },
                None => {},
            }
        },
        StatementView::While(condition, body) => {
            lemma_analyze_expression(state, condition);
            let s1 = state.analyze_expression(condition);
            lemma_more_errors(state, s1);
            lemma_analyze_statement(s1, *body);
            lemma_extends_transitive(state, s1, s1.analyze_statement(*body));
        },
        StatementView::For(init, condition, update, body) => {
            let entered = state.enter_scope();
            lemma_enter_scope(state);
            let s1 = match init {
                Some(stmt) => entered.analyze_statement(*stmt),
                None => entered,
            };
            match init {
                Some(stmt) => {
                    lemma_analyze_statement(entered, *stmt);
                },
                None => {},
            }
            let s2 = s1.analyze_optional(condition);
            match condition {
                Some(e) => {
                    lemma_analyze_expression(s1, e);
                },
                None => {},
            }
            lemma_more_errors(s1, s2);
            let s3 = s2.analyze_optional(update);
            match update {
                Some(e) => {
                    lemma_analyze_expression(s2, e);
                },
                None => {},
            }
            lemma_more_errors(s2, s3);
            lemma_extends_transitive(s1, s2, s3);
            lemma_extends_transitive(entered, s1, s3);
            lemma_analyze_statement(s3, *body);
            let inner = s3.analyze_statement(*body);
            lemma_extends_transitive(entered, s3, inner);
            lemma_exit_scope(inner);
            assert(scope_kept(entered.scopes[entered.current as int], inner.scopes[inner.current as int]));
            lemma_leave(state, inner);
        },
        StatementView::Break => {},
        StatementView::DoWhile(body, condition) => {
            lemma_analyze_statement(state, *body);
            let s1 = state.analyze_statement(*body);
            lemma_analyze_expression(s1, condition);
            lemma_more_errors(s1, s1.analyze_expression(condition));
            lemma_extends_transitive(state, s1, s1.analyze_expression(condition));
        },
        StatementView::Switch(value, body) => {
            lemma_analyze_expression(state, value);
            let s1 = state.analyze_expression(value);
            lemma_more_errors(state, s1);
            lemma_analyze_statement(s1, *body);
            lemma_extends_transitive(state, s1, s1.analyze_statement(*body));
        },
        StatementView::Case(value, body) => {
            lemma_analyze_expression(state, value);
            let s1 = state.analyze_expression(value);
            lemma_more_errors(state, s1);
            lemma_analyze_statement(s1, *body);
            lemma_extends_transitive(state, s1, s1.analyze_statement(*body));
        },
        StatementView::Default(body) => {
            lemma_analyze_statement(state, *body);
        },
        StatementView::Continue => {},
        StatementView::Goto(_) => {},
        StatementView::Labeled(_, body) => {
            lemma_analyze_statement(state, *body);
        },
    }
}

/// Leaving the scope that was entered from `state`, after what came after
/// the entering, comes after `state`.
proof fn lemma_leave(state: ScopeAnalyzerView, inner: ScopeAnalyzerView)
    requires
        state.well_formed(),
        inner.well_formed(),
        inner.extends(state.enter_scope()),
    ensures
        inner.exit_scope().well_formed(),
        inner.exit_scope().extends(state),
{
    let entered = state.enter_scope();
    assert(scope_kept(entered.scopes[entered.current as int], inner.scopes[inner.current as int]));
    assert forall|i: int| 0 <= i < state.scopes.len() implies scope_kept(
        state.scopes[i],
        #[trigger] inner.exit_scope().scopes[i],
    ) by {
        assert(scope_kept(entered.scopes[i], inner.scopes[i]));
    }
}

/// The structure of scopes is kept by every list of statements.
pub proof fn lemma_analyze_statements(state: ScopeAnalyzerView, stmts: Seq<StatementView>)
    requires
        state.well_formed(),
    ensures
        state.analyze_statements(stmts).well_formed(),
        state.analyze_statements(stmts).extends(state),
    decreases stmts,
{
    if stmts.len() > 0 {
        lemma_analyze_statements(state, stmts.drop_last());
        let before = state.analyze_statements(stmts.drop_last());
        lemma_analyze_statement(before, stmts.last());
        lemma_extends_transitive(state, before, before.analyze_statement(stmts.last()));
    }
}

/// Declaring parameters keeps a state well-formed and keeps every scope,
/// every binding and every error.
pub proof fn lemma_declare_parameters(state: ScopeAnalyzerView, params: Seq<ParameterView>)
    requires
        state.well_formed(),
    ensures
        state.declare_parameters(params).well_formed(),
        state.declare_parameters(params).extends(state),
        state.declare_parameters(params).scopes.len() == state.scopes.len(),
    decreases params.len(),
{
    if params.len() > 0 {
        lemma_declare_parameters(state, params.drop_last());
        let before = state.declare_parameters(params.drop_last());
        let kind = SymbolKindView::Parameter { param_type: params.last().param_type };
        lemma_declare_symbol_extends(before, params.last().name, kind);
        lemma_extends_transitive(state, before, before.declare_symbol(params.last().name, kind));
    }
}

/// The structure of scopes is kept by every external declaration.
pub proof fn lemma_analyze_external_declaration(
    state: ScopeAnalyzerView,
    decl: ExternalDeclarationView,
)
    requires
        state.well_formed(),
    ensures
        state.analyze_external_declaration(decl).well_formed(),
        state.analyze_external_declaration(decl).extends(state),
{
    match decl {
        ExternalDeclarationView::Variable(v) => {
            lemma_analyze_variable_declaration(state, v);
        },
        ExternalDeclarationView::Function(def) => {
            let kind = SymbolKindView::Function {
                return_type: def.return_type,
                parameters: def.parameters,
                is_defined: true,
            };
            lemma_declare_symbol_extends(state, def.name, kind);
            let declared = state.declare_symbol(def.name, kind);
            lemma_enter_scope(declared);
            let entered = declared.enter_scope();
            lemma_declare_parameters(entered, def.parameters);
            let with_params = entered.declare_parameters(def.parameters);
            lemma_analyze_statements(with_params, def.body);
            let inner = with_params.analyze_statements(def.body);
            lemma_extends_transitive(entered, with_params, inner);
            lemma_leave(declared, inner);
            lemma_extends_transitive(state, declared, inner.exit_scope());
        },
        ExternalDeclarationView::FunctionDeclaration(d) => {
            lemma_declare_symbol_extends(
                state,
                d.name,
                SymbolKindView::Function {
                    return_type: d.return_type,
                    parameters: d.parameters,
                    is_defined: false,
                },
            );
        },
    }
}

/// The structure of scopes is kept by every translation unit: after a
/// whole unit the state is well-formed, the cursor is where it was, and
/// nothing that was recorded or bound before is lost.
pub proof fn lemma_analyze_translation_unit(state: ScopeAnalyzerView, unit: TranslationUnitView)
    requires
        state.well_formed(),
    ensures
        state.analyze_translation_unit(unit).well_formed(),
        state.analyze_translation_unit(unit).extends(state),
{
    let start = state.add_builtin_functions_from_includes(unit.preprocessor_list);
    if ScopeAnalyzerView::includes_stdio(unit.preprocessor_list) {
        lemma_declare_symbol_extends(state, "printf"@, ScopeAnalyzerView::printf_kind());
    }
    lemma_analyze_external_declarations(start, unit.external_declarations);
    lemma_extends_transitive(
        state,
        start,
        start.analyze_external_declarations(unit.external_declarations),
    );
}

/// The structure of scopes is kept by every list of external declarations.
pub proof fn lemma_analyze_external_declarations(
    state: ScopeAnalyzerView,
    decls: Seq<ExternalDeclarationView>,
)
    requires
        state.well_formed(),
    ensures
        state.analyze_external_declarations(decls).well_formed(),
        state.analyze_external_declarations(decls).extends(state),
    decreases decls.len(),
{
    if decls.len() > 0 {
        lemma_analyze_external_declarations(state, decls.drop_last());
        let before = state.analyze_external_declarations(decls.drop_last());
        lemma_analyze_external_declaration(before, decls.last());
        lemma_extends_transitive(
            state,
            before,
            before.analyze_external_declaration(decls.last()),
        );
    }
}

// ---------------------------------------------------------------------------
// The symbol table as text
// ---------------------------------------------------------------------------

/// The name of a type specifier.
pub open spec fn specifier_name(spec: TypeSpecifier) -> Seq<char> {
    match spec {
        TypeSpecifier::Int => "Int"@,
        TypeSpecifier::Float => "Float"@,
        TypeSpecifier::Double => "Double"@,
        TypeSpecifier::Char => "Char"@,
        TypeSpecifier::Short => "Short"@,
        TypeSpecifier::Long => "Long"@,
        TypeSpecifier::Signed => "Signed"@,
        TypeSpecifier::Unsigned => "Unsigned"@,
        TypeSpecifier::Void => "Void"@,
    }
}

/// How a scope at a depth is called: `Global`, `Function`, or `Block-` and
/// the depth of the block within its function.
pub open spec fn scope_name(level: nat) -> Seq<char> {
    if level == 0 {
        "Global"@
    } else if level == 1 {
        "Function"@
    } else {
        "Block-"@ + decimal_digits((level - 1) as nat)
    }
}

/// The types of the first `count` parameters, with `, ` between them.
pub open spec fn parameter_types(params: Seq<ParameterView>, count: nat) -> Seq<char>
    decreases count,
{
    if count == 0 || count > params.len() {
        Seq::empty()
    } else if count == 1 {
        params[0].param_type
    } else {
        parameter_types(params, (count - 1) as nat) + ", "@ + params[count - 1].param_type
    }
}

/// The line of the table for the symbol that `name` is bound to.
pub open spec fn symbol_line(name: Seq<char>, symbol: SymbolView) -> Seq<char> {
    match symbol.kind {
        SymbolKindView::Variable { type_spec, .. } => "  Variable: "@ + name + " : "@
            + specifier_name(type_spec),
        SymbolKindView::Function { return_type, parameters, is_defined } => "  Function: "@ + name
            + " : ("@ + parameter_types(parameters, parameters.len()) + ") -> "@ + return_type
            + " (defined: "@ + truth(is_defined) + ")"@,
        SymbolKindView::Parameter { param_type } => "  Parameter: "@ + name + " : "@ + param_type,
    }
}

/// The lines of the table for the first `count` entries of a scope.
pub open spec fn entry_lines(entries: Seq<(String, Symbol)>, count: nat) -> Seq<Seq<char>>
    decreases count,
{
    if count == 0 || count > entries.len() {
        Seq::empty()
    } else {
        entry_lines(entries, (count - 1) as nat).push(
            symbol_line(entries[count - 1].0@, entries[count - 1].1@),
        )
    }
}

/// The lines of the table for a scope: none for a scope without entries;
/// else a heading with the name and the depth of the scope, one line for
/// each entry, and an empty line.
pub open spec fn scope_lines(node: ScopeNode) -> Seq<Seq<char>> {
    if node.symbols@.len() == 0 {
        Seq::empty()
    } else {
        seq![
            scope_name(node.scope_level as nat) + " Scope (Level "@ + decimal_digits(
                node.scope_level as nat,
            ) + "):"@,
        ] + entry_lines(node.symbols@, node.symbols@.len()) + seq![Seq::<char>::empty()]
    }
}

/// The lines of the table for the first `count` scopes of an arena, after
/// its title.
pub open spec fn table_lines(scopes: Seq<ScopeNode>, count: nat) -> Seq<Seq<char>>
    decreases count,
{
    if count == 0 || count > scopes.len() {
        seq!["--- Symbol Table (All Scopes) ---"@]
    } else {
        table_lines(scopes, (count - 1) as nat) + scope_lines(scopes[count - 1])
    }
}

/// The name of a type specifier.
pub fn specifier_text(spec: TypeSpecifier) -> (r: &'static str)
    ensures
        r@ == specifier_name(spec),
{
    match spec {
        TypeSpecifier::Int => "Int",
        TypeSpecifier::Float => "Float",
        TypeSpecifier::Double => "Double",
        TypeSpecifier::Char => "Char",
        TypeSpecifier::Short => "Short",
        TypeSpecifier::Long => "Long",
        TypeSpecifier::Signed => "Signed",
        TypeSpecifier::Unsigned => "Unsigned",
        TypeSpecifier::Void => "Void",
    }
}

/// How a scope at a depth is called.
pub fn scope_name_text(level: usize) -> (r: String)
    ensures
        r@ == scope_name(level as nat),
{
    if level == 0 {
        "Global".to_owned()
    } else if level == 1 {
        "Function".to_owned()
    } else {
        let mut r = String::from_str("Block-");
        r.append(decimal_text(level - 1).as_str());
        r
    }
}

/// The types of parameters, with `, ` between them.
fn parameter_types_text(params: &Vec<Parameter>) -> (r: String)
    ensures
        r@ == parameter_types(view_all(params@), params@.len()),
{
    let mut r = String::new();
    let mut i: usize = 0;
    while i < params.len()
        invariant
            i <= params@.len(),
            r@ == parameter_types(view_all(params@), i as nat),
        decreases params@.len() - i,
    {
        let ghost before = r@;
        assert(view_all(params@)[i as int] == params@[i as int]@);
        if i > 0 {
            r.append(", ");
        }
        r.append(params[i].param_type.as_str());
        proof {
            if i == 0 {
                assert(r@ =~= params@[0]@.param_type);
            }
        }
        i += 1;
    }
    r
}

/// The line of the table for the symbol that `name` is bound to.
pub fn symbol_line_text(name: &str, symbol: &Symbol) -> (r: String)
    ensures
        r@ == symbol_line(name@, symbol@),
{
    match &symbol.kind {
        SymbolKind::Variable { type_spec, .. } => {
            let mut r = String::from_str("  Variable: ");
            r.append(name);
            r.append(" : ");
            r.append(specifier_text(*type_spec));
            r
        },
        SymbolKind::Function { return_type, parameters, is_defined } => {
            let mut r = String::from_str("  Function: ");
            r.append(name);
            r.append(" : (");
            r.append(parameter_types_text(parameters).as_str());
            r.append(") -> ");
            r.append(return_type.as_str());
            r.append(" (defined: ");
            r.append(truth_text(*is_defined));
            r.append(")");
            r
        },
        SymbolKind::Parameter { param_type } => {
            let mut r = String::from_str("  Parameter: ");
            r.append(name);
            r.append(" : ");
            r.append(param_type.as_str());
            r
        },
    }
}

/// Appends the lines of the table for a scope to `lines`.
fn push_scope_lines(node: &ScopeNode, lines: &mut Vec<String>)
    ensures
        view_all(final(lines)@) == view_all(old(lines)@) + scope_lines(*node),
{
    let ghost start = view_all(lines@);
    if node.symbols.len() == 0 {
        assert(start + Seq::<Seq<char>>::empty() =~= start);
        return ;
    }
    let mut heading = scope_name_text(node.scope_level);
    heading.append(" Scope (Level ");
    heading.append(decimal_text(node.scope_level).as_str());
    heading.append("):");
    let ghost heading_view = heading@;
    lines.push(heading);
    assert(view_all(lines@) =~= start.push(heading_view));
    let mut i: usize = 0;
    while i < node.symbols.len()
        invariant
            i <= node.symbols@.len(),
            view_all(lines@) == start.push(heading_view) + entry_lines(node.symbols@, i as nat),
        decreases node.symbols@.len() - i,
    {
        let ghost before = view_all(lines@);
        let line = symbol_line_text(node.symbols[i].0.as_str(), &node.symbols[i].1);
        lines.push(line);
        assert(view_all(lines@) =~= before.push(line@));
        assert(before.push(line@) =~= start.push(heading_view) + entry_lines(
            node.symbols@,
            (i + 1) as nat,
        ));
        i += 1;
    }
    let ghost before = view_all(lines@);
    let last = String::new();
    lines.push(last);
    assert(view_all(lines@) =~= before.push(Seq::<char>::empty()));
    assert(before.push(Seq::<char>::empty()) =~= start + scope_lines(*node));
}

// ---------------------------------------------------------------------------
// The resolver
// ---------------------------------------------------------------------------

/// The scope resolver.
pub struct ScopeAnalyzer {
    scopes: Vec<ScopeNode>,
    current: usize,
    errors: Vec<ScopeError>,
}

impl View for ScopeAnalyzer {
    type V = ScopeAnalyzerView;

    closed spec fn view(&self) -> ScopeAnalyzerView {
        ScopeAnalyzerView {
            scopes: view_all(self.scopes@),
            current: self.current as nat,
            errors: view_all(self.errors@),
        }
    }
}

/// The view of what a check answers.
pub open spec fn view_outcome(r: Result<(), ScopeError>) -> Result<(), ScopeErrorView> {
    match r {
        Ok(_) => Ok(()),
        Err(e) => Err(e@),
    }
}

impl ScopeAnalyzer {
    /// A resolver with an empty global scope and no errors.
    pub fn new() -> (r: Self)
        ensures
            r@ == ScopeAnalyzerView::fresh(),
            r@.well_formed(),
    {
        let global = ScopeNode::new(None);
        let mut scopes: Vec<ScopeNode> = Vec::new();
        scopes.push(global);
        let r = ScopeAnalyzer { scopes, current: 0, errors: Vec::new() };
        assert(r@.scopes =~= ScopeAnalyzerView::fresh().scopes);
        assert(r@.errors =~= ScopeAnalyzerView::fresh().errors);
        r
    }

    /// Opens a scope below the current one and makes it the current scope.
    pub fn enter_scope(&mut self)
        requires
            old(self)@.well_formed(),
        ensures
            final(self)@ == old(self)@.enter_scope(),
            final(self)@.well_formed(),
    {
        proof {
            lemma_level_bounded(self@, self.current as int);
            assert(self@.scopes[self.current as int] == self.scopes@[self.current as int]@);
        }
        let id = self.scopes.len();
        assert(self.scopes@[self.current as int].scope_level <= self.current < id);
        let node = ScopeNode::new(Some((self.current, &self.scopes[self.current])));
        assert(view_all(old(self).scopes@.push(node)) =~= old(self)@.enter_scope().scopes);
        self.scopes.push(node);
        self.current = id;
    }

    /// Goes back to the parent of the current scope; does nothing at the
    /// global scope.
    pub fn exit_scope(&mut self)
        requires
            old(self)@.well_formed(),
        ensures
            final(self)@ == old(self)@.exit_scope(),
            final(self)@.well_formed(),
    {
        assert(self@.scopes[self.current as int] == self.scopes@[self.current as int]@);
        if let Some(parent) = self.scopes[self.current].parent {
            self.current = parent;
        }
    }

    /// Declares `name` in the current scope. Fails, and records the error,
    /// if and only if the current scope binds `name` already; a binding in an
    /// enclosing scope is shadowed.
    pub fn declare_symbol(&mut self, name: String, kind: SymbolKind) -> (r: Result<(), ScopeError>)
        requires
            old(self)@.well_formed(),
        ensures
            final(self)@ == old(self)@.declare_symbol(name@, kind@),
            view_outcome(r) == old(self)@.declare_symbol_result(name@, kind@),
            final(self)@.well_formed(),
    {
        assert(self@.scopes[self.current as int] == self.scopes@[self.current as int]@);
        if self.scopes[self.current].lookup_current_scope(name.as_str()).is_some() {
            let error = match kind {
                SymbolKind::Function { .. } => ScopeError::FunctionPrototypeRedefinition(name),
                _ => ScopeError::VariableRedefinition(name),
            };
            let recorded = error.clone();
            assert(view_all(self.errors@.push(recorded)) =~= self@.errors.push(error@));
            self.errors.push(recorded);
            return Err(error);
        }
        let symbol = Symbol {
            name: name.clone(),
            kind,
            scope_level: self.scopes[self.current].scope_level,
        };
        let current = self.current;
        self.scopes[current].insert_symbol(name, symbol);
        assert(self@.scopes =~= old(self)@.declare_symbol(name@, kind@).scopes);
        Ok(())
    }

    /// The nearest binding of `name`, from the current scope outwards.
    pub fn lookup_symbol(&self, name: &str) -> (r: Option<Symbol>)
        requires
            self@.well_formed(),
        ensures
            view_opt_symbol(r) == self@.lookup_symbol(name@),
    {
        assert(self@.scopes[self.current as int] == self.scopes@[self.current as int]@);
        self.scopes[self.current].lookup(&self.scopes, name)
    }

    /// Checks a use of `name` as a variable: fails, and records the error,
    /// if and only if no visible scope binds `name`.
    pub fn check_variable_access(&mut self, name: &str) -> (r: Result<(), ScopeError>)
        requires
            old(self)@.well_formed(),
        ensures
            final(self)@ == old(self)@.check_variable_access(name@),
            final(self)@.well_formed(),
            old(self)@.lookup_symbol(name@) is Some ==> r is Ok,
            old(self)@.lookup_symbol(name@) is None ==> view_outcome(r) == Err::<
                (),
                ScopeErrorView,
            >(ScopeErrorView::UndeclaredVariable(name@)),
    {
        match self.lookup_symbol(name) {
            Some(_) => Ok(()),
            None => {
                let error = ScopeError::UndeclaredVariable(name.to_owned());
                let recorded = error.clone();
                assert(view_all(self.errors@.push(recorded)) =~= self@.errors.push(error@));
                self.errors.push(recorded);
                Err(error)
            },
        }
    }

    /// Checks a call of `name`: fails, and records the error, if and only if
    /// the nearest binding of `name` is missing or is no function.
    pub fn check_function_call(&mut self, name: &str) -> (r: Result<(), ScopeError>)
        requires
            old(self)@.well_formed(),
        ensures
            final(self)@ == old(self)@.check_function_call(name@),
            final(self)@.well_formed(),
            old(self)@.names_function(name@) ==> r is Ok,
            !old(self)@.names_function(name@) ==> view_outcome(r) == Err::<(), ScopeErrorView>(
                ScopeErrorView::UndefinedFunctionCalled(name@),
            ),
    {
        let is_function = match self.lookup_symbol(name) {
            Some(symbol) => match symbol.kind {
                SymbolKind::Function { .. } => true,
                _ => false,
            },
            None => false,
        };
        if is_function {
            Ok(())
        } else {
            let error = ScopeError::UndefinedFunctionCalled(name.to_owned());
            let recorded = error.clone();
            assert(view_all(self.errors@.push(recorded)) =~= self@.errors.push(error@));
            self.errors.push(recorded);
            Err(error)
        }
    }

    /// The errors recorded so far, in the order in which they were found.
    pub fn get_errors(&self) -> (r: &[ScopeError])
        ensures
            view_all(r@) == self@.errors,
    {
        self.errors.as_slice()
    }

    /// Whether any error was recorded.
    pub fn has_errors(&self) -> (r: bool)
        ensures
            r == (self@.errors.len() > 0),
    {
        !self.errors.is_empty()
    }

    /// The global scope.
    pub fn get_global_scope(&self) -> (r: &ScopeNode)
        requires
            self@.scopes.len() > 0,
        ensures
            r@ == self@.scopes[0],
    {
        &self.scopes[0]
    }

    /// The symbol table as text, line by line: a title, then every scope
    /// that binds something, in creation order.
    pub fn symbol_table_lines(&self) -> (r: Vec<String>)
        ensures
            view_all(r@) == table_lines(self.all_scopes(), self.all_scopes().len()),
    {
        let mut lines: Vec<String> = Vec::new();
        lines.push("--- Symbol Table (All Scopes) ---".to_owned());
        assert(view_all(lines@) =~= table_lines(self.scopes@, 0));
        let mut i: usize = 0;
        while i < self.scopes.len()
            invariant
                i <= self.scopes@.len(),
                view_all(lines@) == table_lines(self.scopes@, i as nat),
            decreases self.scopes@.len() - i,
        {
            push_scope_lines(&self.scopes[i], &mut lines);
            i += 1;
        }
        lines
    }

    /// The arena: every scope created so far, in creation order.
    pub closed spec fn all_scopes(&self) -> Seq<ScopeNode> {
        self.scopes@
    }

    /// The arena: every scope created so far, in creation order.
    pub fn get_all_scopes(&self) -> (r: &Vec<ScopeNode>)
        ensures
            view_all(r@) == self@.scopes,
            r@ == self.all_scopes(),
    {
        &self.scopes
    }

    /// Resolves a whole translation unit and answers with every error found,
    /// in the order in which they were found.
    pub fn analyze_translation_unit(&mut self, unit: &TranslationUnit) -> (r: Result<
        (),
        Vec<ScopeError>,
    >)
        requires
            old(self)@.well_formed(),
        ensures
            final(self)@ == old(self)@.analyze_translation_unit(unit@),
            final(self)@.well_formed(),
            r is Ok <==> final(self)@.errors.len() == 0,
            r matches Err(errors) ==> view_all(errors@) == final(self)@.errors,
    {
        self.add_builtin_functions_from_includes(&unit.preprocessor_list);
        let ghost start = self@;
        let ghost decls = view_all(unit.external_declarations@);
        let mut i: usize = 0;
        while i < unit.external_declarations.len()
            invariant
                i <= unit.external_declarations.len(),
                decls == view_all(unit.external_declarations@),
                self@.well_formed(),
                self@ == start.analyze_external_declarations(decls.take(i as int)),
            decreases unit.external_declarations.len() - i,
        {
            self.analyze_external_declaration(&unit.external_declarations[i]);
            proof {
                assert(decls.take(i + 1).drop_last() =~= decls.take(i as int));
            }
            i += 1;
        }
        proof {
            assert(decls.take(i as int) =~= decls);
        }
        if self.errors.is_empty() {
            Ok(())
        } else {
            let errors = self.errors.clone();
            assert(view_all(errors@) =~= view_all(self.errors@));
            Err(errors)
        }
    }

    /// Declares the built-ins that the included headers imply: `printf`
    /// where a header path holds `stdio.h`.
    fn add_builtin_functions_from_includes(&mut self, directives: &Vec<PreprocessorDirective>)
        requires
            old(self)@.well_formed(),
        ensures
            final(self)@ == old(self)@.add_builtin_functions_from_includes(view_all(directives@)),
            final(self)@.well_formed(),
    {
        let mut has_stdio = false;
        let mut i: usize = 0;
        while i < directives.len()
            invariant
                i <= directives.len(),
                has_stdio == ScopeAnalyzerView::includes_stdio(
                    view_all(directives@).take(i as int),
                ),
            decreases directives.len() - i,
        {
            let ghost before = view_all(directives@).take(i as int);
            let ghost after = view_all(directives@).take(i + 1);
            let found = match &directives[i] {
                PreprocessorDirective::Include(header) => str_contains(
                    header.as_str(),
                    "stdio.h",
                ),
                _ => false,
            };
            proof {
                assert(after[i as int] == directives@[i as int]@);
                if ScopeAnalyzerView::includes_stdio(before) {
                    let k = choose|k: int|
                        0 <= k < before.len() && (#[trigger] before[k] matches PreprocessorDirectiveView::Include(
                            header,
                        ) && is_substring("stdio.h"@, header));
                    assert(after[k] == before[k]);
                }
                if ScopeAnalyzerView::includes_stdio(after) && !found {
                    let k = choose|k: int|
                        0 <= k < after.len() && (#[trigger] after[k] matches PreprocessorDirectiveView::Include(
                            header,
                        ) && is_substring("stdio.h"@, header));
                    assert(before[k] == after[k]);
                }
            }
            if found {
                has_stdio = true;
            }
            i += 1;
        }
        proof {
            assert(view_all(directives@).take(i as int) =~= view_all(directives@));
        }
        if has_stdio {
            let printf = SymbolKind::Function {
                return_type: "int".to_owned(),
                parameters: Vec::new(),
                is_defined: true,
            };
            assert(printf@.arrow_Function_parameters() =~= Seq::<ParameterView>::empty());
            let _ = self.declare_symbol("printf".to_owned(), printf);
        }
    }

    /// Resolves one external declaration.
    fn analyze_external_declaration(&mut self, decl: &ExternalDeclaration)
        requires
            old(self)@.well_formed(),
        ensures
            final(self)@ == old(self)@.analyze_external_declaration(decl@),
            final(self)@.well_formed(),
    {
        match decl {
            ExternalDeclaration::Variable(var_decl) => {
                self.analyze_variable_declaration(var_decl);
            },
            ExternalDeclaration::Function(func_def) => {
                self.analyze_function_definition(func_def);
            },
            ExternalDeclaration::FunctionDeclaration(func_decl) => {
                self.analyze_function_declaration(func_decl);
            },
        }
    }

    /// Declares a variable, then resolves its initializer.
    fn analyze_variable_declaration(&mut self, var_decl: &VariableDeclaration)
        requires
            old(self)@.well_formed(),
        ensures
            final(self)@ == old(self)@.analyze_variable_declaration(var_decl@),
            final(self)@.well_formed(),
    {
        let symbol_kind = SymbolKind::Variable {
            type_spec: var_decl.type_specifier,
            storage_class: var_decl.storage_class,
        };
        let _ = self.declare_symbol(var_decl.declarator.name.clone(), symbol_kind);
        if let Some(initializer) = &var_decl.initializer {
            proof {
                reveal_with_fuel(Initializer::model, 2);
            }
            match &initializer.kind {
                InitializerKind::Assignment(expr) => {
                    self.analyze_expression(expr);
                },
                InitializerKind::List(initializers) => {
                    let ghost start = self@;
                    let ghost items = view_all(initializers@);
                    let mut i: usize = 0;
                    while i < initializers.len()
                        invariant
                            i <= initializers.len(),
                            items == view_all(initializers@),
                            self@.well_formed(),
                            self@ == start.analyze_initializer_items(items.take(i as int)),
                        decreases initializers.len() - i,
                    {
                        if let InitializerKind::Assignment(expr) = &initializers[i].kind {
                            self.analyze_expression(expr);
                        }
                        proof {
                            assert(items.take(i + 1).drop_last() =~= items.take(i as int));
                            assert(items.take(i + 1).last() == initializers@[i as int]@);
                        }
                        i += 1;
                    }
                    proof {
                        assert(items.take(i as int) =~= items);
                        lemma_initializer_list_view(*initializers);
                    }
                },
                InitializerKind::Designated(_designator, init) => {
                    if let InitializerKind::Assignment(expr) = &init.kind {
                        self.analyze_expression(expr);
                    }
                },
            }
        }
    }

    /// Declares a function from its prototype.
    fn analyze_function_declaration(&mut self, func_decl: &FunctionDeclaration)
        requires
            old(self)@.well_formed(),
        ensures
            final(self)@ == old(self)@.analyze_function_declaration(func_decl@),
            final(self)@.well_formed(),
    {
        let symbol_kind = SymbolKind::Function {
            return_type: func_decl.return_type.clone(),
            parameters: clone_parameters(&func_decl.parameters),
            is_defined: false,
        };
        let _ = self.declare_symbol(func_decl.name.clone(), symbol_kind);
    }

    /// Declares a function, then resolves its parameters and its body in a
    /// scope of their own.
    fn analyze_function_definition(&mut self, func_def: &FunctionDefinition)
        requires
            old(self)@.well_formed(),
        ensures
            final(self)@ == old(self)@.analyze_function_definition(func_def@),
            final(self)@.well_formed(),
    {
        let symbol_kind = SymbolKind::Function {
            return_type: func_def.return_type.clone(),
            parameters: clone_parameters(&func_def.parameters),
            is_defined: true,
        };
        let _ = self.declare_symbol(func_def.name.clone(), symbol_kind);
        self.enter_scope();

        let ghost entered = self@;
        let ghost params = view_all(func_def.parameters@);
        let mut i: usize = 0;
        while i < func_def.parameters.len()
            invariant
                i <= func_def.parameters.len(),
                params == view_all(func_def.parameters@),
                self@.well_formed(),
                self@ == entered.declare_parameters(params.take(i as int)),
            decreases func_def.parameters.len() - i,
        {
            let param = &func_def.parameters[i];
            let param_kind = SymbolKind::Parameter { param_type: param.param_type.clone() };
            let _ = self.declare_symbol(param.name.clone(), param_kind);
            proof {
                assert(params.take(i + 1).drop_last() =~= params.take(i as int));
            }
            i += 1;
        }
        proof {
            assert(params.take(i as int) =~= params);
        }

        let ghost declared = self@;
        let ghost body = view_all(func_def.body@);
        let mut j: usize = 0;
        while j < func_def.body.len()
            invariant
                j <= func_def.body.len(),
                body == view_all(func_def.body@),
                self@.well_formed(),
                self@ == declared.analyze_statements(body.take(j as int)),
            decreases func_def.body.len() - j,
        {
            self.analyze_statement(&func_def.body[j]);
            proof {
                assert(body.take(j + 1).drop_last() =~= body.take(j as int));
            }
            j += 1;
        }
        proof {
            assert(body.take(j as int) =~= body);
        }
        self.exit_scope();
    }

    /// Resolves the names in an expression.
    #[verifier::loop_isolation(false)]
    fn analyze_expression(&mut self, expr: &Expression)
        requires
            old(self)@.well_formed(),
        ensures
            final(self)@ == old(self)@.analyze_expression(expr@),
            final(self)@.well_formed(),
        decreases expr,
    {
        match expr {
            Expression::Identifier(name) => {
                let _ = self.check_variable_access(name.as_str());
            },
            Expression::FunctionCall(name, args) => {
                let _ = self.check_function_call(name.as_str());
                let ghost start = self@;
                let ghost items = view_all(args@);
                let mut i: usize = 0;
                while i < args.len()
                    invariant
                        i <= args.len(),
                        self@.well_formed(),
                        self@ == start.analyze_expressions(items.take(i as int)),
                    decreases args.len() - i,
                {
                    self.analyze_expression(&args[i]);
                    proof {
                        assert(items.take(i + 1).drop_last() =~= items.take(i as int));
                    }
                    i += 1;
                }
                proof {
                    assert(items.take(i as int) =~= items);
                    lemma_call_view(*name, *args);
                }
            },
            Expression::BinaryOp(left, _op, right) => {
                self.analyze_expression(left);
                self.analyze_expression(right);
            },
            Expression::UnaryOp(_op, operand) => {
                self.analyze_expression(operand);
            },
            Expression::Assignment(left, _op, right) => {
                self.analyze_expression(left);
                self.analyze_expression(right);
            },
            Expression::Conditional(condition, true_expr, false_expr) => {
                self.analyze_expression(condition);
                self.analyze_expression(true_expr);
                self.analyze_expression(false_expr);
            },
            Expression::ArrayAccess(array, index) => {
                self.analyze_expression(array);
                self.analyze_expression(index);
            },
            Expression::MemberAccess(object, _member) => {
                self.analyze_expression(object);
            },
            Expression::PointerAccess(pointer, _member) => {
                self.analyze_expression(pointer);
            },
            Expression::PostfixOp(operand, _op) => {
                self.analyze_expression(operand);
            },
            Expression::Cast(_type, operand) => {
                self.analyze_expression(operand);
            },
            Expression::Constant(_) => {},
            Expression::StringLiteral(_) => {},
        }
    }

    /// Resolves a statement.
    #[verifier::loop_isolation(false)]
    fn analyze_statement(&mut self, stmt: &Statement)
        requires
            old(self)@.well_formed(),
        ensures
            final(self)@ == old(self)@.analyze_statement(stmt@),
            final(self)@.well_formed(),
        decreases stmt,
    {
        match stmt {
            Statement::Declaration(var_decl) => {
                self.analyze_variable_declaration(var_decl);
            },
            Statement::Assignment(var_name, expr) => {
                let _ = self.check_variable_access(var_name.as_str());
                self.analyze_expression(expr);
            },
            Statement::Return(expr_opt) => {
                if let Some(expr) = expr_opt {
                    self.analyze_expression(expr);
                }
            },
            Statement::Expression(expr) => {
                self.analyze_expression(expr);
            },
            Statement::Block(statements) => {
                self.enter_scope();
                let ghost start = self@;
                let ghost items = view_all(statements@);
                let mut i: usize = 0;
                while i < statements.len()
                    invariant
                        i <= statements.len(),
                        self@.well_formed(),
                        self@ == start.analyze_statements(items.take(i as int)),
                    decreases statements.len() - i,
                {
                    self.analyze_statement(&statements[i]);
                    proof {
                        assert(items.take(i + 1).drop_last() =~= items.take(i as int));
                    }
                    i += 1;
                }
                proof {
                    assert(items.take(i as int) =~= items);
                    lemma_block_view(*statements);
                }
                self.exit_scope();
            },
            Statement::If(condition, then_stmt, else_stmt) => {
                self.analyze_expression(condition);
                self.analyze_statement(then_stmt);
                if let Some(else_stmt) = else_stmt {
                    self.analyze_statement(else_stmt);
                }
            },
            Statement::While(condition, body) => {
                self.analyze_expression(condition);
                self.analyze_statement(body);
            },
            Statement::For(init, condition, update, body) => {
                self.enter_scope();
                if let Some(init) = init {
                    self.analyze_statement(init);
                }
                if let Some(condition) = condition {
                    self.analyze_expression(condition);
                }
                if let Some(update) = update {
                    self.analyze_expression(update);
                }
                self.analyze_statement(body);
                self.exit_scope();
            },
            Statement::Break => {},
            Statement::DoWhile(body, condition) => {
                self.analyze_statement(body);
                self.analyze_expression(condition);
            },
            Statement::Switch(value, body) => {
                self.analyze_expression(value);
                self.analyze_statement(body);
            },
            Statement::Case(value, body) => {
                self.analyze_expression(value);
                self.analyze_statement(body);
            },
            Statement::Default(body) => {
                self.analyze_statement(body);
            },
            Statement::Continue => {},
            Statement::Goto(_label) => {},
            Statement::Labeled(_label, body) => {
                self.analyze_statement(body);
            },
        }
    }
}

} // verus!
