use minic::lexer_regex::Token;
use minic::parser::ast::{Constant, TranslationUnit, TypeSpecifier};
use minic::parser::Parser;
use minic::scope::ScopeAnalyzer;
use minic::type_checker::{Type, TypeChecker, TypeChkError, TypeError};

fn id(name: &str) -> Token {
    Token::Identifier(name.to_string())
}

fn num(n: i64) -> Token {
    Token::IntLit(n)
}

fn parse(tokens: Vec<Token>) -> TranslationUnit {
    Parser::new(tokens).parse().unwrap()
}

fn check_with_lines(tokens: Vec<Token>, lines: Vec<&str>) -> Vec<TypeError> {
    let unit = parse(tokens);
    let mut analyzer = ScopeAnalyzer::new();
    let _ = analyzer.analyze_translation_unit(&unit);
    let lines = lines.into_iter().map(|l| l.to_string()).collect();
    let mut checker = TypeChecker::new(analyzer, lines);
    match checker.check_translation_unit(&unit) {
        Ok(()) => {
            assert!(!checker.has_errors());
            assert!(checker.get_errors().is_empty());
            Vec::new()
        }
        Err(errors) => {
            assert!(checker.has_errors());
            assert_eq!(errors.len(), checker.get_errors().len());
            errors
        }
    }
}

fn check(tokens: Vec<Token>) -> Vec<TypeError> {
    check_with_lines(tokens, Vec::new())
}

fn kinds(errors: &[TypeError]) -> Vec<TypeChkError> {
    errors.iter().map(|e| e.error).collect()
}

/// `<ret> f() { <body> }`
fn function(ret: Token, body: Vec<Token>) -> Vec<Token> {
    let mut tokens = vec![ret, id("f"), Token::ParenL, Token::ParenR, Token::BraceL];
    tokens.extend(body);
    tokens.push(Token::BraceR);
    tokens
}

fn checker() -> TypeChecker {
    TypeChecker::new(ScopeAnalyzer::new(), Vec::new())
}

#[test]
fn numeric_types_are_compatible_across_kinds() {
    // int x = 3.5;
    let errors = check(vec![
        Token::Int, id("x"), Token::AssignOp, Token::FloatLit("3.5".to_string()),
        Token::Semicolon,
    ]);
    assert!(errors.is_empty());
}

#[test]
fn a_string_does_not_initialize_an_int() {
    // int x = "hi";
    let errors = check(vec![
        Token::Int, id("x"), Token::AssignOp, Token::StringLit("hi".to_string()),
        Token::Semicolon,
    ]);
    assert_eq!(kinds(&errors), vec![TypeChkError::ExpressionTypeMismatch]);
    assert_eq!(errors[0].context, "x");
    assert_eq!(errors[0].line, None);
}

#[test]
fn compatibility_rules() {
    let c = checker();
    let numeric = [Type::Int, Type::Float, Type::Double, Type::Char, Type::Short, Type::Long];
    for a in numeric {
        for b in numeric {
            assert!(c.are_types_compatible(&a, &b));
        }
        assert!(!c.are_types_compatible(&a, &Type::String));
        assert!(!c.are_types_compatible(&Type::String, &a));
        assert!(!c.are_types_compatible(&a, &Type::Bool));
        assert!(!c.are_types_compatible(&a, &Type::Void));
        assert!(!c.are_types_compatible(&a, &Type::Unknown));
    }
    for t in [Type::Void, Type::Bool, Type::String, Type::Unknown] {
        assert!(c.are_types_compatible(&t, &t));
    }
    assert!(!c.are_types_compatible(&Type::String, &Type::Bool));
    assert!(!c.are_types_compatible(&Type::Void, &Type::Bool));
}

#[test]
fn widening_order() {
    let c = checker();
    assert_eq!(c.wider_type(&Type::Int, &Type::Double), Type::Double);
    assert_eq!(c.wider_type(&Type::Float, &Type::Long), Type::Float);
    assert_eq!(c.wider_type(&Type::Long, &Type::Int), Type::Long);
    assert_eq!(c.wider_type(&Type::Short, &Type::Int), Type::Int);
    assert_eq!(c.wider_type(&Type::Char, &Type::Short), Type::Short);
    assert_eq!(c.wider_type(&Type::Char, &Type::Char), Type::Char);
    assert_eq!(c.wider_type(&Type::Double, &Type::Float), Type::Double);
}

#[test]
fn type_names_and_specifiers() {
    let c = checker();
    assert_eq!(c.string_to_type("int"), Type::Int);
    assert_eq!(c.string_to_type("float"), Type::Float);
    assert_eq!(c.string_to_type("double"), Type::Double);
    assert_eq!(c.string_to_type("char"), Type::Char);
    assert_eq!(c.string_to_type("short"), Type::Short);
    assert_eq!(c.string_to_type("long"), Type::Long);
    assert_eq!(c.string_to_type("void"), Type::Void);
    assert_eq!(c.string_to_type("bool"), Type::Unknown);
    assert_eq!(c.string_to_type(""), Type::Unknown);
    assert_eq!(c.type_specifier_to_type(&TypeSpecifier::Signed), Type::Int);
    assert_eq!(c.type_specifier_to_type(&TypeSpecifier::Unsigned), Type::Int);
    assert_eq!(c.type_specifier_to_type(&TypeSpecifier::Void), Type::Void);
    assert_eq!(c.type_specifier_to_type(&TypeSpecifier::Double), Type::Double);
    assert_eq!(c.constant_to_type(&Constant::Integer(1)), Type::Int);
    assert_eq!(c.constant_to_type(&Constant::Float("1.5".to_string())), Type::Float);
    assert_eq!(c.constant_to_type(&Constant::Char('a')), Type::Char);
    assert!(c.is_numeric_type(&Type::Float));
    assert!(!c.is_integer_type(&Type::Float));
    assert!(c.is_integer_type(&Type::Char));
    assert!(!c.is_numeric_type(&Type::Bool));
}

#[test]
fn a_condition_that_is_not_boolean_is_reported() {
    // void f() { if (5) { } }
    let errors = check(function(
        Token::Void,
        vec![Token::If, Token::ParenL, num(5), Token::ParenR, Token::BraceL, Token::BraceR],
    ));
    assert_eq!(kinds(&errors), vec![TypeChkError::NonBooleanCondStmt]);
    assert_eq!(errors[0].context, "if");
    // void f() { while (1 < 2) { } }
    let errors = check(function(
        Token::Void,
        vec![
            Token::While, Token::ParenL, num(1), Token::LessOp, num(2), Token::ParenR,
            Token::BraceL, Token::BraceR,
        ],
    ));
    assert!(errors.is_empty());
    // void f() { while (1) { } for (;2;) { } }
    let errors = check(function(
        Token::Void,
        vec![
            Token::While, Token::ParenL, num(1), Token::ParenR, Token::BraceL, Token::BraceR,
            Token::For, Token::ParenL, Token::Semicolon, num(2), Token::Semicolon,
            Token::ParenR, Token::BraceL, Token::BraceR,
        ],
    ));
    assert_eq!(
        kinds(&errors),
        vec![TypeChkError::NonBooleanCondStmt, TypeChkError::NonBooleanCondStmt]
    );
    assert_eq!(errors[0].context, "while");
    assert_eq!(errors[1].context, "for");
}

#[test]
fn a_function_with_a_value_to_return_needs_a_return() {
    // int f() { }
    let errors = check(function(Token::Int, Vec::new()));
    assert_eq!(kinds(&errors), vec![TypeChkError::ReturnStmtNotFound]);
    assert_eq!(errors[0].context, "f");
    // int f() { return 1; }
    let errors = check(function(Token::Int, vec![Token::Return, num(1), Token::Semicolon]));
    assert!(errors.is_empty());
    // void f() { }
    let errors = check(function(Token::Void, Vec::new()));
    assert!(errors.is_empty());
}

#[test]
fn a_return_nested_in_a_branch_does_not_count() {
    // int f() { if (1 < 2) { return 1; } else { return 2; } }
    let errors = check(function(
        Token::Int,
        vec![
            Token::If, Token::ParenL, num(1), Token::LessOp, num(2), Token::ParenR,
            Token::BraceL, Token::Return, num(1), Token::Semicolon, Token::BraceR,
            Token::Else, Token::BraceL, Token::Return, num(2), Token::Semicolon, Token::BraceR,
        ],
    ));
    assert_eq!(kinds(&errors), vec![TypeChkError::ReturnStmtNotFound]);
}

#[test]
fn a_void_function_must_not_return_a_value() {
    // void f() { return 5; }
    let errors = check(function(Token::Void, vec![Token::Return, num(5), Token::Semicolon]));
    assert_eq!(kinds(&errors), vec![TypeChkError::ErroneousReturnType]);
    assert_eq!(errors[0].context, "return");
    // void f() { return; }
    let errors = check(function(Token::Void, vec![Token::Return, Token::Semicolon]));
    assert!(errors.is_empty());
    // int f() { return; }
    let errors = check(function(Token::Int, vec![Token::Return, Token::Semicolon]));
    assert_eq!(kinds(&errors), vec![TypeChkError::ErroneousReturnType]);
    // int f() { return "s"; }
    let errors = check(function(
        Token::Int,
        vec![Token::Return, Token::StringLit("s".to_string()), Token::Semicolon],
    ));
    assert_eq!(kinds(&errors), vec![TypeChkError::ErroneousReturnType]);
}

#[test]
fn break_is_legal_only_in_a_loop() {
    // void f() { break; }
    let errors = check(function(Token::Void, vec![Token::Break, Token::Semicolon]));
    assert_eq!(kinds(&errors), vec![TypeChkError::ErroneousBreak]);
    assert_eq!(errors[0].context, "break");
    // void f() { while (1 < 2) { break; } }
    let errors = check(function(
        Token::Void,
        vec![
            Token::While, Token::ParenL, num(1), Token::LessOp, num(2), Token::ParenR,
            Token::BraceL, Token::Break, Token::Semicolon, Token::BraceR,
        ],
    ));
    assert!(errors.is_empty());
    // void f() { for (;;) break; break; }
    let errors = check(function(
        Token::Void,
        vec![
            Token::For, Token::ParenL, Token::Semicolon, Token::Semicolon, Token::ParenR,
            Token::Break, Token::Semicolon, Token::Break, Token::Semicolon,
        ],
    ));
    assert_eq!(kinds(&errors), vec![TypeChkError::ErroneousBreak]);
}

#[test]
fn a_wrong_argument_count_is_reported_and_the_arguments_are_still_checked() {
    // int g(int a, int b) { return a; }  void f() { g("s"); }
    let mut tokens = vec![
        Token::Int, id("g"), Token::ParenL, Token::Int, id("a"), Token::Comma, Token::Int,
        id("b"), Token::ParenR, Token::BraceL, Token::Return, id("a"), Token::Semicolon,
        Token::BraceR,
    ];
    tokens.extend(function(
        Token::Void,
        vec![
            id("g"), Token::ParenL, Token::StringLit("s".to_string()), Token::ParenR,
            Token::Semicolon,
        ],
    ));
    let errors = check(tokens);
    assert_eq!(
        kinds(&errors),
        vec![TypeChkError::FnCallParamCount, TypeChkError::FnCallParamType]
    );
    assert_eq!(errors[0].context, "g");
    assert_eq!(errors[1].context, "g");
}

#[test]
fn a_call_has_the_declared_return_type() {
    // float g() { return 1.5; }  void f() { int x = g(); if (g()) { } }
    let mut tokens = vec![
        Token::Float, id("g"), Token::ParenL, Token::ParenR, Token::BraceL, Token::Return,
        Token::FloatLit("1.5".to_string()), Token::Semicolon, Token::BraceR,
    ];
    tokens.extend(function(
        Token::Void,
        vec![
            Token::Int, id("x"), Token::AssignOp, id("g"), Token::ParenL, Token::ParenR,
            Token::Semicolon,
            Token::If, Token::ParenL, id("g"), Token::ParenL, Token::ParenR, Token::ParenR,
            Token::BraceL, Token::BraceR,
        ],
    ));
    let errors = check(tokens);
    assert_eq!(kinds(&errors), vec![TypeChkError::NonBooleanCondStmt]);
}

#[test]
fn operator_rules() {
    let s = || Token::StringLit("s".to_string());
    let cases: Vec<(Vec<Token>, Option<(TypeChkError, &str)>)> = vec![
        (vec![num(1), Token::Plus, s()], Some((TypeChkError::AttemptedAddOpOnNonNumeric, "+"))),
        (vec![num(1), Token::Mod, Token::FloatLit("1.5".to_string())], Some((TypeChkError::AttemptedAddOpOnNonNumeric, "%"))),
        (vec![num(1), Token::Mod, num(2)], None),
        (vec![s(), Token::LessOp, num(2)], Some((TypeChkError::ExpressionTypeMismatch, "comparison"))),
        (vec![s(), Token::EqualsOp, num(2)], Some((TypeChkError::ExpressionTypeMismatch, "=="))),
        (vec![s(), Token::EqualsOp, s()], None),
        (vec![num(1), Token::AndOp, num(2)], Some((TypeChkError::AttemptedBoolOpOnNonBools, "&&"))),
        (vec![num(1), Token::BitAndOp, Token::FloatLit("2.0".to_string())], Some((TypeChkError::AttemptedBitOpOnNonNumeric, "&"))),
        (vec![Token::FloatLit("2.0".to_string()), Token::LShift, num(1)], Some((TypeChkError::AttemptedShiftOnNonInt, "<<"))),
        (vec![Token::Minus, s()], Some((TypeChkError::AttemptedAddOpOnNonNumeric, "unary +/-"))),
        (vec![Token::Not, num(1)], Some((TypeChkError::AttemptedBoolOpOnNonBools, "!"))),
        (vec![Token::PlusPlus, s()], Some((TypeChkError::AttemptedAddOpOnNonNumeric, "++/--"))),
        (vec![num(1), Token::Question, num(2), Token::Colon, num(3)], Some((TypeChkError::ExpectedBooleanExpression, "?:"))),
        (vec![num(1), Token::LessOp, num(2), Token::Question, num(2), Token::Colon, s()], Some((TypeChkError::ExpressionTypeMismatch, "?:"))),
    ];
    for (expr, expected) in cases {
        let mut body = expr.clone();
        body.push(Token::Semicolon);
        let errors = check(function(Token::Void, body));
        match expected {
            Some((kind, context)) => {
                assert_eq!(kinds(&errors), vec![kind], "{:?}", expr);
                assert_eq!(errors[0].context, context);
            }
            None => assert!(errors.is_empty(), "{:?}", expr),
        }
    }
}

#[test]
fn assignment_rules() {
    // void f() { int i; float x; i = "s"; i += "s"; x %= 2; x <<= 1; x &= 1; i = x; }
    let s = || Token::StringLit("s".to_string());
    let errors = check(function(
        Token::Void,
        vec![
            Token::Int, id("i"), Token::Semicolon, Token::Float, id("x"), Token::Semicolon,
            id("i"), Token::AssignOp, s(), Token::Semicolon,
            id("i"), Token::PlusAssign, s(), Token::Semicolon,
            id("x"), Token::ModAssign, num(2), Token::Semicolon,
            id("x"), Token::LShiftAssign, num(1), Token::Semicolon,
            id("x"), Token::AndAssign, num(1), Token::Semicolon,
            id("i"), Token::AssignOp, id("x"), Token::Semicolon,
        ],
    ));
    assert_eq!(
        kinds(&errors),
        vec![
            TypeChkError::ExpressionTypeMismatch,
            TypeChkError::AttemptedAddOpOnNonNumeric,
            TypeChkError::AttemptedAddOpOnNonNumeric,
            TypeChkError::AttemptedShiftOnNonInt,
            TypeChkError::AttemptedBitOpOnNonNumeric,
        ]
    );
    let contexts: Vec<&str> = errors.iter().map(|e| e.context.as_str()).collect();
    assert_eq!(contexts, vec!["=", "+= etc", "%=", "<<=", "&= etc"]);
}

#[test]
fn an_unknown_operand_causes_no_further_error() {
    // void f() { int x = u + 1; if (u) { } u[0]; }
    let errors = check(function(
        Token::Void,
        vec![
            Token::Int, id("x"), Token::AssignOp, id("u"), Token::Plus, num(1), Token::Semicolon,
            Token::If, Token::ParenL, id("u"), Token::ParenR, Token::BraceL, Token::BraceR,
            id("x"), Token::BracketL, id("u"), Token::BracketR, Token::Semicolon,
        ],
    ));
    assert!(errors.is_empty(), "{:?}", errors);
}

#[test]
fn every_operand_is_checked() {
    // void f() { (1 && 2) + (3 && 4); }
    let errors = check(function(
        Token::Void,
        vec![
            Token::ParenL, num(1), Token::AndOp, num(2), Token::ParenR, Token::Plus,
            Token::ParenL, num(3), Token::AndOp, num(4), Token::ParenR, Token::Semicolon,
        ],
    ));
    assert_eq!(
        kinds(&errors),
        vec![TypeChkError::AttemptedBoolOpOnNonBools, TypeChkError::AttemptedBoolOpOnNonBools]
    );
}

#[test]
fn an_index_must_be_an_integer() {
    // void f() { int a; a[1.5]; a[1]; }
    let errors = check(function(
        Token::Void,
        vec![
            Token::Int, id("a"), Token::Semicolon,
            id("a"), Token::BracketL, Token::FloatLit("1.5".to_string()), Token::BracketR,
            Token::Semicolon,
            id("a"), Token::BracketL, num(1), Token::BracketR, Token::Semicolon,
        ],
    ));
    assert_eq!(kinds(&errors), vec![TypeChkError::ExpressionTypeMismatch]);
    assert_eq!(errors[0].context, "[]");
}

#[test]
fn each_function_is_checked_in_its_own_scope() {
    // void f() { char x; x = "s"; }   void g() { int x; { float x; x = 1; } x = 2; }
    let mut tokens = function(
        Token::Void,
        vec![
            Token::Int, id("x"), Token::Semicolon,
            id("x"), Token::AssignOp, num(1), Token::Semicolon,
        ],
    );
    tokens.extend(vec![
        Token::Void, id("g"), Token::ParenL, Token::ParenR, Token::BraceL,
        Token::Float, id("y"), Token::Semicolon,
        Token::BraceL, Token::Int, id("y"), Token::Semicolon,
        id("y"), Token::ModAssign, num(2), Token::Semicolon, Token::BraceR,
        id("y"), Token::ModAssign, num(2), Token::Semicolon,
        id("x"), Token::AssignOp, num(2), Token::Semicolon,
        Token::BraceR,
    ]);
    let errors = check(tokens);
    // Inside the block `y` is an int; after it `y` is the float again; `x`
    // is not visible in `g` and has no type there.
    assert_eq!(kinds(&errors), vec![TypeChkError::AttemptedAddOpOnNonNumeric]);
    assert_eq!(errors[0].context, "%=");
}

#[test]
fn parameters_have_their_declared_types() {
    // int f(float a) { a %= 2; return a; }
    let errors = check(vec![
        Token::Int, id("f"), Token::ParenL, Token::Float, id("a"), Token::ParenR, Token::BraceL,
        id("a"), Token::ModAssign, num(2), Token::Semicolon,
        Token::Return, id("a"), Token::Semicolon, Token::BraceR,
    ]);
    assert_eq!(kinds(&errors), vec![TypeChkError::AttemptedAddOpOnNonNumeric]);
}

#[test]
fn the_line_of_an_error_is_the_first_that_holds_its_context() {
    let tokens = vec![
        Token::Int, id("value"), Token::AssignOp, Token::StringLit("hi".to_string()),
        Token::Semicolon,
    ];
    let errors = check_with_lines(tokens, vec!["// a comment", "int value = \"hi\";", "value;"]);
    assert_eq!(errors.len(), 1);
    assert_eq!(errors[0].line, Some(2));
    assert_eq!(errors[0].context, "value");

    let mut checker = TypeChecker::new(
        ScopeAnalyzer::new(),
        vec!["abc".to_string(), "xbcx".to_string()],
    );
    assert_eq!(checker.find_line_for_context("bc"), Some(1));
    assert_eq!(checker.find_line_for_context("xb"), Some(2));
    assert_eq!(checker.find_line_for_context("zz"), None);
    assert_eq!(checker.find_line_for_context(""), None);
    checker.record_error(TypeChkError::EmptyExpression, "cx");
    assert_eq!(checker.get_errors().len(), 1);
    assert_eq!(checker.get_errors()[0].line, Some(2));
    assert_eq!(checker.get_errors()[0].error, TypeChkError::EmptyExpression);
}

#[test]
fn variable_types_are_seen_from_the_current_scope() {
    let mut analyzer = ScopeAnalyzer::new();
    analyzer
        .declare_symbol(
            "g".to_string(),
            minic::scope::SymbolKind::Variable {
                type_spec: TypeSpecifier::Long,
                storage_class: None,
            },
        )
        .unwrap();
    analyzer
        .declare_symbol(
            "f".to_string(),
            minic::scope::SymbolKind::Function {
                return_type: "int".to_string(),
                parameters: Vec::new(),
                is_defined: true,
            },
        )
        .unwrap();
    let checker = TypeChecker::new(analyzer, Vec::new());
    assert_eq!(checker.get_variable_type("g"), Some(Type::Long));
    assert_eq!(checker.get_variable_type("f"), None);
    assert_eq!(checker.get_variable_type("missing"), None);
}

#[test]
fn the_body_of_do_is_a_loop_and_its_condition_must_be_boolean() {
    // void f() { do { break; } while (1); }
    let errors = check(function(
        Token::Void,
        vec![
            Token::Do, Token::BraceL, Token::Break, Token::Semicolon, Token::BraceR,
            Token::While, Token::ParenL, num(1), Token::ParenR, Token::Semicolon,
        ],
    ));
    assert_eq!(kinds(&errors), vec![TypeChkError::NonBooleanCondStmt]);
    assert_eq!(errors[0].context, "do");
}

#[test]
fn switch_is_no_loop_and_its_parts_are_checked() {
    // void f() { switch (1) { case "s" + 1: break; default: continue; } lbl: goto lbl; }
    let errors = check(function(
        Token::Void,
        vec![
            Token::Switch, Token::ParenL, num(1), Token::ParenR, Token::BraceL,
            Token::Case, Token::StringLit("s".to_string()), Token::Plus, num(1), Token::Colon,
            Token::Break, Token::Semicolon,
            Token::Default, Token::Colon, Token::Continue, Token::Semicolon,
            Token::BraceR,
            id("lbl"), Token::Colon, Token::Goto, id("lbl"), Token::Semicolon,
        ],
    ));
    assert_eq!(
        kinds(&errors),
        vec![TypeChkError::AttemptedAddOpOnNonNumeric, TypeChkError::ErroneousBreak]
    );
}

#[test]
fn the_checker_enters_the_scopes_in_the_order_of_their_creation() {
    // void f(int a) { { char c; } for (;;) { float c; c %= 1; } { long c; c %= 1; } }
    // int g(float a) { a %= 1; return 1; }
    let tokens = vec![
        Token::Void, id("f"), Token::ParenL, Token::Int, id("a"), Token::ParenR, Token::BraceL,
        Token::BraceL, Token::Char, id("c"), Token::Semicolon, Token::BraceR,
        Token::For, Token::ParenL, Token::Semicolon, Token::Semicolon, Token::ParenR,
        Token::BraceL, Token::Float, id("c"), Token::Semicolon,
        id("c"), Token::ModAssign, num(1), Token::Semicolon, Token::BraceR,
        Token::BraceL, Token::Long, id("c"), Token::Semicolon,
        id("c"), Token::ModAssign, num(1), Token::Semicolon, Token::BraceR,
        Token::BraceR,
        Token::Int, id("g"), Token::ParenL, Token::Float, id("a"), Token::ParenR, Token::BraceL,
        id("a"), Token::ModAssign, num(1), Token::Semicolon,
        Token::Return, num(1), Token::Semicolon, Token::BraceR,
    ];
    let unit = parse(tokens);
    let mut analyzer = ScopeAnalyzer::new();
    assert!(analyzer.analyze_translation_unit(&unit).is_ok());
    assert_eq!(analyzer.get_all_scopes().len(), 7);
    let mut checker = TypeChecker::new(analyzer, Vec::new());
    let errors = checker.check_translation_unit(&unit).unwrap_err();
    // `c` is a float in the loop and a long in the last block; `a` is an
    // int in `f` and a float in `g`.
    assert_eq!(
        kinds(&errors),
        vec![TypeChkError::AttemptedAddOpOnNonNumeric, TypeChkError::AttemptedAddOpOnNonNumeric]
    );
    assert_eq!(checker.get_variable_type("a"), None);
}

#[test]
fn a_checker_over_other_scopes_stays_where_it_is() {
    // The unit was not resolved: the arena holds the global scope alone.
    let unit = parse(function(
        Token::Void,
        vec![Token::BraceL, Token::Int, id("x"), Token::AssignOp, num(1), Token::Semicolon, Token::BraceR],
    ));
    let mut checker = TypeChecker::new(ScopeAnalyzer::new(), Vec::new());
    assert!(checker.check_translation_unit(&unit).is_ok());
}
