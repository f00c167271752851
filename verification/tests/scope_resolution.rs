use minic::parser::ast::{
    Constant, Declarator, Expression, ExternalDeclaration, FunctionDefinition, Initializer,
    InitializerKind, Parameter, PreprocessorDirective, Statement, StorageClass, TranslationUnit,
    TypeSpecifier, VariableDeclaration,
};
use minic::scope::{ScopeAnalyzer, ScopeError, ScopeNode, Symbol, SymbolKind};

fn int_variable() -> SymbolKind {
    SymbolKind::Variable { type_spec: TypeSpecifier::Int, storage_class: None }
}

fn float_variable() -> SymbolKind {
    SymbolKind::Variable { type_spec: TypeSpecifier::Float, storage_class: None }
}

fn declaration(type_specifier: TypeSpecifier, name: &str, init: Option<Expression>) -> VariableDeclaration {
    VariableDeclaration {
        storage_class: None,
        type_qualifiers: Vec::new(),
        type_specifier,
        declarator: Declarator {
            name: name.to_string(),
            pointer_depth: 0,
            array_sizes: Vec::new(),
            function_params: None,
        },
        initializer: init.map(|e| Initializer { kind: InitializerKind::Assignment(e) }),
    }
}

fn function(return_type: &str, name: &str, parameters: Vec<Parameter>, body: Vec<Statement>) -> ExternalDeclaration {
    ExternalDeclaration::Function(FunctionDefinition {
        return_type: return_type.to_string(),
        name: name.to_string(),
        parameters,
        body,
    })
}

fn unit(decls: Vec<ExternalDeclaration>) -> TranslationUnit {
    TranslationUnit { preprocessor_list: Vec::new(), external_declarations: decls }
}

#[test]
fn new_scope_node_is_global_and_empty() {
    let node = ScopeNode::new(None);
    assert_eq!(node.scope_level, 0);
    assert!(node.parent.is_none());
    assert!(node.symbols.is_empty());
    assert!(node.lookup_current_scope("x").is_none());
}

#[test]
fn child_scope_node_lies_one_level_deeper() {
    let global = ScopeNode::new(None);
    let child = ScopeNode::new(Some((0, &global)));
    assert_eq!(child.scope_level, 1);
    assert_eq!(child.parent, Some(0));
    let grandchild = ScopeNode::new(Some((1, &child)));
    assert_eq!(grandchild.scope_level, 2);
    assert_eq!(grandchild.parent, Some(1));
}

#[test]
fn insert_symbol_replaces_the_binding_of_a_name() {
    let mut node = ScopeNode::new(None);
    node.insert_symbol(
        "x".to_string(),
        Symbol { name: "x".to_string(), kind: int_variable(), scope_level: 0 },
    );
    node.insert_symbol(
        "x".to_string(),
        Symbol { name: "x".to_string(), kind: float_variable(), scope_level: 0 },
    );
    assert_eq!(node.symbols.len(), 1);
    let found = node.lookup_current_scope("x").unwrap();
    assert!(matches!(
        found.kind,
        SymbolKind::Variable { type_spec: TypeSpecifier::Float, storage_class: None }
    ));
    assert!(node.binds("x"));
    assert!(!node.binds("y"));
}

#[test]
fn node_lookup_walks_the_parent_chain() {
    let mut global = ScopeNode::new(None);
    global.insert_symbol(
        "g".to_string(),
        Symbol { name: "g".to_string(), kind: int_variable(), scope_level: 0 },
    );
    let mut child = ScopeNode::new(Some((0, &global)));
    child.insert_symbol(
        "c".to_string(),
        Symbol { name: "c".to_string(), kind: float_variable(), scope_level: 1 },
    );
    let grandchild = ScopeNode::new(Some((1, &child)));
    let arena = vec![global, child];
    assert_eq!(grandchild.lookup(&arena, "g").unwrap().scope_level, 0);
    assert_eq!(grandchild.lookup(&arena, "c").unwrap().scope_level, 1);
    assert!(grandchild.lookup(&arena, "missing").is_none());
    assert!(grandchild.lookup_current_scope("g").is_none());
}

#[test]
fn new_analyzer_has_one_global_scope() {
    let analyzer = ScopeAnalyzer::new();
    assert!(!analyzer.has_errors());
    assert!(analyzer.get_errors().is_empty());
    assert_eq!(analyzer.get_all_scopes().len(), 1);
    assert_eq!(analyzer.get_global_scope().scope_level, 0);
    assert!(analyzer.lookup_symbol("x").is_none());
}

#[test]
fn shadowing_in_a_nested_scope_succeeds() {
    let mut analyzer = ScopeAnalyzer::new();
    assert!(analyzer.declare_symbol("x".to_string(), int_variable()).is_ok());
    analyzer.enter_scope();
    assert!(analyzer.declare_symbol("x".to_string(), float_variable()).is_ok());
    let inner = analyzer.lookup_symbol("x").unwrap();
    assert_eq!(inner.scope_level, 1);
    assert!(matches!(
        inner.kind,
        SymbolKind::Variable { type_spec: TypeSpecifier::Float, storage_class: None }
    ));
    analyzer.exit_scope();
    let outer = analyzer.lookup_symbol("x").unwrap();
    assert_eq!(outer.scope_level, 0);
    assert!(matches!(
        outer.kind,
        SymbolKind::Variable { type_spec: TypeSpecifier::Int, storage_class: None }
    ));
    assert!(!analyzer.has_errors());
}

#[test]
fn redeclaring_in_the_same_scope_fails() {
    let mut analyzer = ScopeAnalyzer::new();
    analyzer.enter_scope();
    assert!(analyzer.declare_symbol("x".to_string(), int_variable()).is_ok());
    let second = analyzer.declare_symbol("x".to_string(), float_variable());
    assert!(matches!(second, Err(ScopeError::VariableRedefinition(ref n)) if n == "x"));
    assert_eq!(analyzer.get_errors().len(), 1);
    assert!(analyzer.has_errors());
    let kept = analyzer.lookup_symbol("x").unwrap();
    assert!(matches!(
        kept.kind,
        SymbolKind::Variable { type_spec: TypeSpecifier::Int, storage_class: None }
    ));
}

#[test]
fn redeclaring_a_function_is_a_prototype_redefinition() {
    let mut analyzer = ScopeAnalyzer::new();
    let kind = || SymbolKind::Function {
        return_type: "int".to_string(),
        parameters: Vec::new(),
        is_defined: false,
    };
    assert!(analyzer.declare_symbol("f".to_string(), kind()).is_ok());
    let second = analyzer.declare_symbol("f".to_string(), kind());
    assert!(matches!(second, Err(ScopeError::FunctionPrototypeRedefinition(ref n)) if n == "f"));
}

#[test]
fn exit_scope_at_the_global_scope_does_nothing() {
    let mut analyzer = ScopeAnalyzer::new();
    analyzer.declare_symbol("g".to_string(), int_variable()).unwrap();
    analyzer.exit_scope();
    assert!(analyzer.lookup_symbol("g").is_some());
    analyzer.enter_scope();
    analyzer.enter_scope();
    assert_eq!(analyzer.get_all_scopes().len(), 3);
    assert_eq!(analyzer.get_all_scopes()[2].scope_level, 2);
    assert_eq!(analyzer.get_all_scopes()[2].parent, Some(1));
    analyzer.exit_scope();
    analyzer.exit_scope();
    analyzer.exit_scope();
    assert!(analyzer.declare_symbol("g".to_string(), int_variable()).is_err());
}

#[test]
fn undeclared_variable_access_is_reported() {
    let mut analyzer = ScopeAnalyzer::new();
    let result = analyzer.check_variable_access("y");
    assert!(matches!(result, Err(ScopeError::UndeclaredVariable(ref n)) if n == "y"));
    assert_eq!(analyzer.get_errors().len(), 1);
    analyzer.declare_symbol("y".to_string(), int_variable()).unwrap();
    assert!(analyzer.check_variable_access("y").is_ok());
    assert_eq!(analyzer.get_errors().len(), 1);
}

#[test]
fn calling_a_variable_or_an_unknown_name_is_reported() {
    let mut analyzer = ScopeAnalyzer::new();
    analyzer.declare_symbol("v".to_string(), int_variable()).unwrap();
    analyzer
        .declare_symbol(
            "f".to_string(),
            SymbolKind::Function {
                return_type: "void".to_string(),
                parameters: Vec::new(),
                is_defined: true,
            },
        )
        .unwrap();
    assert!(analyzer.check_function_call("f").is_ok());
    assert!(matches!(
        analyzer.check_function_call("v"),
        Err(ScopeError::UndefinedFunctionCalled(ref n)) if n == "v"
    ));
    assert!(matches!(
        analyzer.check_function_call("g"),
        Err(ScopeError::UndefinedFunctionCalled(ref n)) if n == "g"
    ));
    assert_eq!(analyzer.get_errors().len(), 2);
}

#[test]
fn assignment_to_an_undeclared_name_is_reported_by_analysis() {
    // void f() { y = 1; }
    let body = vec![Statement::Expression(Expression::Assignment(
        Box::new(Expression::Identifier("y".to_string())),
        minic::parser::ast::AssignmentOperator::Assign,
        Box::new(Expression::Constant(Constant::Integer(1))),
    ))];
    let tu = unit(vec![function("void", "f", Vec::new(), body)]);
    let mut analyzer = ScopeAnalyzer::new();
    let result = analyzer.analyze_translation_unit(&tu);
    let errors = result.unwrap_err();
    assert_eq!(errors.len(), 1);
    assert!(matches!(errors[0], ScopeError::UndeclaredVariable(ref n) if n == "y"));
}

#[test]
fn analysis_opens_one_scope_per_function_block_and_for_loop() {
    // int x; void f(int a) { int x; { int x; } for (;;) { } }
    let body = vec![
        Statement::Declaration(declaration(TypeSpecifier::Int, "x", None)),
        Statement::Block(vec![Statement::Declaration(declaration(TypeSpecifier::Int, "x", None))]),
        Statement::For(None, None, None, Box::new(Statement::Block(Vec::new()))),
    ];
    let tu = unit(vec![
        ExternalDeclaration::Variable(declaration(TypeSpecifier::Int, "x", None)),
        function(
            "void",
            "f",
            vec![Parameter { param_type: "int".to_string(), name: "a".to_string() }],
            body,
        ),
    ]);
    let mut analyzer = ScopeAnalyzer::new();
    assert!(analyzer.analyze_translation_unit(&tu).is_ok());
    let scopes = analyzer.get_all_scopes();
    assert_eq!(scopes.len(), 5);
    assert_eq!(scopes[1].parent, Some(0));
    assert_eq!(scopes[2].parent, Some(1));
    assert_eq!(scopes[3].parent, Some(1));
    assert_eq!(scopes[4].parent, Some(3));
    assert_eq!(scopes[4].scope_level, 3);
    assert!(scopes[1].binds("a"));
    assert!(scopes[1].binds("x"));
    assert!(scopes[2].binds("x"));
    assert!(analyzer.lookup_symbol("f").is_some());
    assert!(analyzer.lookup_symbol("a").is_none());
}

#[test]
fn a_parameter_and_a_local_of_the_same_name_collide() {
    let body = vec![Statement::Declaration(declaration(TypeSpecifier::Int, "a", None))];
    let tu = unit(vec![function(
        "void",
        "f",
        vec![Parameter { param_type: "int".to_string(), name: "a".to_string() }],
        body,
    )]);
    let mut analyzer = ScopeAnalyzer::new();
    let errors = analyzer.analyze_translation_unit(&tu).unwrap_err();
    assert_eq!(errors.len(), 1);
    assert!(matches!(errors[0], ScopeError::VariableRedefinition(ref n) if n == "a"));
}

#[test]
fn stdio_declares_printf() {
    let call = Statement::Expression(Expression::FunctionCall(
        "printf".to_string(),
        vec![Expression::StringLiteral("hi".to_string())],
    ));
    let with_header = TranslationUnit {
        preprocessor_list: vec![PreprocessorDirective::Include("stdio.h".to_string())],
        external_declarations: vec![function("void", "f", Vec::new(), vec![call])],
    };
    let mut analyzer = ScopeAnalyzer::new();
    assert!(analyzer.analyze_translation_unit(&with_header).is_ok());
    let printf = analyzer.lookup_symbol("printf").unwrap();
    assert!(matches!(
        printf.kind,
        SymbolKind::Function { ref return_type, ref parameters, is_defined: true }
            if return_type == "int" && parameters.is_empty()
    ));

    let call = Statement::Expression(Expression::FunctionCall("printf".to_string(), Vec::new()));
    let without_header = TranslationUnit {
        preprocessor_list: vec![PreprocessorDirective::Include("math.h".to_string())],
        external_declarations: vec![function("void", "f", Vec::new(), vec![call])],
    };
    let mut analyzer = ScopeAnalyzer::new();
    let errors = analyzer.analyze_translation_unit(&without_header).unwrap_err();
    assert!(matches!(errors[0], ScopeError::UndefinedFunctionCalled(ref n) if n == "printf"));
}

#[test]
fn a_variable_may_be_used_in_its_own_initializer_and_static_is_kept() {
    let mut decl = declaration(
        TypeSpecifier::Int,
        "x",
        Some(Expression::Identifier("x".to_string())),
    );
    decl.storage_class = Some(StorageClass::Static);
    let tu = unit(vec![ExternalDeclaration::Variable(decl)]);
    let mut analyzer = ScopeAnalyzer::new();
    assert!(analyzer.analyze_translation_unit(&tu).is_ok());
    let x = analyzer.lookup_symbol("x").unwrap();
    assert!(matches!(
        x.kind,
        SymbolKind::Variable {
            type_spec: TypeSpecifier::Int,
            storage_class: Some(StorageClass::Static)
        }
    ));
}

#[test]
fn the_symbol_table_is_listed_scope_by_scope() {
    // int g; float f(int a, char b) { { long v; } }
    let body = vec![Statement::Block(vec![Statement::Declaration(declaration(
        TypeSpecifier::Long,
        "v",
        None,
    ))])];
    let tu = unit(vec![
        ExternalDeclaration::Variable(declaration(TypeSpecifier::Int, "g", None)),
        function(
            "float",
            "f",
            vec![
                Parameter { param_type: "int".to_string(), name: "a".to_string() },
                Parameter { param_type: "char".to_string(), name: "b".to_string() },
            ],
            body,
        ),
        function("void", "h", Vec::new(), Vec::new()),
    ]);
    let mut analyzer = ScopeAnalyzer::new();
    assert!(analyzer.analyze_translation_unit(&tu).is_ok());
    assert_eq!(
        analyzer.symbol_table_lines(),
        vec![
            "--- Symbol Table (All Scopes) ---",
            "Global Scope (Level 0):",
            "  Variable: g : Int",
            "  Function: f : (int, char) -> float (defined: true)",
            "  Function: h : () -> void (defined: true)",
            "",
            "Function Scope (Level 1):",
            "  Parameter: a : int",
            "  Parameter: b : char",
            "",
            "Block-1 Scope (Level 2):",
            "  Variable: v : Long",
            "",
        ]
    );
    assert_eq!(ScopeAnalyzer::new().symbol_table_lines(), vec!["--- Symbol Table (All Scopes) ---"]);
    assert_eq!(minic::scope::scope_name_text(12), "Block-11");
    assert_eq!(minic::scope::specifier_text(TypeSpecifier::Unsigned), "Unsigned");
    let symbol = Symbol {
        name: "p".to_string(),
        kind: SymbolKind::Function {
            return_type: "int".to_string(),
            parameters: vec![Parameter { param_type: "long".to_string(), name: "n".to_string() }],
            is_defined: false,
        },
        scope_level: 0,
    };
    assert_eq!(
        minic::scope::symbol_line_text("p", &symbol),
        "  Function: p : (long) -> int (defined: false)"
    );
}
