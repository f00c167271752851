use minic::lexer_regex::Token;
use minic::parser::ast::{
    AssignmentOperator, BinaryOperator, Constant, Expression, ExternalDeclaration,
    InitializerKind, ParseError, PostfixOperator, PreprocessorDirective, ReplacementItem,
    Statement, StorageClass, TranslationUnit, TypeQualifier, TypeSpecifier, UnaryOperator,
};
use minic::parser::Parser;

fn id(name: &str) -> Token {
    Token::Identifier(name.to_string())
}

fn parse(tokens: Vec<Token>) -> Result<TranslationUnit, ParseError> {
    Parser::new(tokens).parse()
}

/// A compact rendering of an expression, fully parenthesized.
fn show(e: &Expression) -> String {
    match e {
        Expression::Identifier(n) => n.clone(),
        Expression::Constant(Constant::Integer(n)) => format!("{}", n),
        Expression::Constant(Constant::Float(f)) => f.clone(),
        Expression::Constant(Constant::Char(c)) => format!("'{}'", c),
        Expression::StringLiteral(s) => format!("{:?}", s),
        Expression::BinaryOp(l, op, r) => format!("({} {:?} {})", show(l), op, show(r)),
        Expression::UnaryOp(op, x) => format!("({:?} {})", op, show(x)),
        Expression::Assignment(l, op, r) => format!("({} {:?} {})", show(l), op, show(r)),
        Expression::Conditional(c, t, f) => format!("({} ? {} : {})", show(c), show(t), show(f)),
        Expression::FunctionCall(n, args) => {
            let args: Vec<String> = args.iter().map(show).collect();
            format!("{}({})", n, args.join(", "))
        }
        Expression::ArrayAccess(a, i) => format!("{}[{}]", show(a), show(i)),
        Expression::MemberAccess(o, m) => format!("{}.{}", show(o), m),
        Expression::PointerAccess(o, m) => format!("{}->{}", show(o), m),
        Expression::PostfixOp(x, op) => format!("({} {:?})", show(x), op),
        Expression::Cast(t, x) => format!("(({:?}) {})", t, show(x)),
    }
}

/// Parses `int x = <tokens>;` and renders the initializer.
fn initializer(expr: Vec<Token>) -> String {
    let mut tokens = vec![Token::Int, id("x"), Token::AssignOp];
    tokens.extend(expr);
    tokens.push(Token::Semicolon);
    let unit = parse(tokens).unwrap();
    assert_eq!(unit.external_declarations.len(), 1);
    match &unit.external_declarations[0] {
        ExternalDeclaration::Variable(v) => match &v.initializer.as_ref().unwrap().kind {
            InitializerKind::Assignment(e) => show(e),
            other => panic!("unexpected initializer {:?}", other),
        },
        other => panic!("unexpected declaration {:?}", other),
    }
}

/// Parses `void f() { <tokens> }` and hands out the body.
fn body(stmts: Vec<Token>) -> Vec<Statement> {
    let mut tokens = vec![Token::Void, id("f"), Token::ParenL, Token::ParenR, Token::BraceL];
    tokens.extend(stmts);
    tokens.push(Token::BraceR);
    let mut unit = parse(tokens).unwrap();
    assert_eq!(unit.external_declarations.len(), 1);
    match unit.external_declarations.remove(0) {
        ExternalDeclaration::Function(f) => {
            assert_eq!(f.name, "f");
            assert_eq!(f.return_type, "void");
            f.body
        }
        other => panic!("unexpected declaration {:?}", other),
    }
}

#[test]
fn empty_input_is_an_empty_unit() {
    let unit = parse(Vec::new()).unwrap();
    assert!(unit.preprocessor_list.is_empty());
    assert!(unit.external_declarations.is_empty());
}

#[test]
fn multiplication_binds_tighter_than_addition() {
    let tokens = vec![Token::IntLit(1), Token::Plus, Token::IntLit(2), Token::Mult, Token::IntLit(3)];
    assert_eq!(initializer(tokens), "(1 Plus (2 Mult 3))");
    let tokens = vec![Token::IntLit(1), Token::Mult, Token::IntLit(2), Token::Plus, Token::IntLit(3)];
    assert_eq!(initializer(tokens), "((1 Mult 2) Plus 3)");
}

#[test]
fn precedence_is_built_as_a_tree() {
    let mut tokens = vec![Token::Int, id("x"), Token::AssignOp];
    tokens.extend(vec![Token::IntLit(1), Token::Plus, Token::IntLit(2), Token::Mult, Token::IntLit(3)]);
    tokens.push(Token::Semicolon);
    let unit = parse(tokens).unwrap();
    let ExternalDeclaration::Variable(v) = &unit.external_declarations[0] else {
        panic!("not a variable")
    };
    let InitializerKind::Assignment(e) = &v.initializer.as_ref().unwrap().kind else {
        panic!("not an expression")
    };
    let Expression::BinaryOp(left, BinaryOperator::Plus, right) = e else {
        panic!("not an addition: {:?}", e)
    };
    assert!(matches!(**left, Expression::Constant(Constant::Integer(1))));
    let Expression::BinaryOp(l2, BinaryOperator::Mult, r2) = &**right else {
        panic!("not a multiplication: {:?}", right)
    };
    assert!(matches!(**l2, Expression::Constant(Constant::Integer(2))));
    assert!(matches!(**r2, Expression::Constant(Constant::Integer(3))));
}

#[test]
fn binary_operators_of_one_level_group_to_the_left() {
    let tokens = vec![id("a"), Token::Minus, id("b"), Token::Minus, id("c")];
    assert_eq!(initializer(tokens), "((a Minus b) Minus c)");
    let tokens = vec![id("a"), Token::Div, id("b"), Token::Mod, id("c")];
    assert_eq!(initializer(tokens), "((a Div b) Mod c)");
}

#[test]
fn every_level_of_precedence_is_respected() {
    // a || b && c | d ^ e & f == g < h << i + j * k
    let tokens = vec![
        id("a"), Token::OrOp, id("b"), Token::AndOp, id("c"), Token::BitOrOp, id("d"),
        Token::Xor, id("e"), Token::BitAndOp, id("f"), Token::EqualsOp, id("g"), Token::LessOp,
        id("h"), Token::LShift, id("i"), Token::Plus, id("j"), Token::Mult, id("k"),
    ];
    assert_eq!(
        initializer(tokens),
        "(a Or (b And (c BitOr (d Xor (e BitAnd (f Equals (g Less (h LShift (i Plus (j Mult k))))))))))"
    );
    let tokens = vec![id("a"), Token::GreaterEqOp, id("b"), Token::NotEqualsOp, id("c"), Token::RShift, id("d")];
    assert_eq!(initializer(tokens), "((a GreaterEq b) NotEquals (c RShift d))");
}

#[test]
fn assignment_groups_to_the_right() {
    let stmts = body(vec![id("a"), Token::AssignOp, id("b"), Token::AssignOp, id("c"), Token::Semicolon]);
    assert_eq!(stmts.len(), 1);
    let Statement::Expression(e) = &stmts[0] else { panic!("not an expression statement") };
    let Expression::Assignment(target, AssignmentOperator::Assign, source) = e else {
        panic!("not an assignment: {:?}", e)
    };
    assert!(matches!(**target, Expression::Identifier(ref n) if n == "a"));
    let Expression::Assignment(t2, AssignmentOperator::Assign, s2) = &**source else {
        panic!("not an assignment: {:?}", source)
    };
    assert!(matches!(**t2, Expression::Identifier(ref n) if n == "b"));
    assert!(matches!(**s2, Expression::Identifier(ref n) if n == "c"));
}

#[test]
fn every_assignment_operator_is_parsed() {
    let ops = vec![
        (Token::AssignOp, "Assign"),
        (Token::PlusAssign, "PlusAssign"),
        (Token::MinusAssign, "MinusAssign"),
        (Token::MultAssign, "MultAssign"),
        (Token::DivAssign, "DivAssign"),
        (Token::ModAssign, "ModAssign"),
        (Token::LShiftAssign, "LShiftAssign"),
        (Token::RShiftAssign, "RShiftAssign"),
        (Token::AndAssign, "AndAssign"),
        (Token::XorAssign, "XorAssign"),
        (Token::OrAssign, "OrAssign"),
    ];
    for (token, name) in ops {
        let stmts = body(vec![id("a"), token, IntLit(1), Token::Semicolon]);
        let Statement::Expression(e) = &stmts[0] else { panic!("not an expression statement") };
        assert_eq!(show(e), format!("(a {} 1)", name));
    }
}

#[allow(non_snake_case)]
fn IntLit(n: i64) -> Token {
    Token::IntLit(n)
}

#[test]
fn conditional_groups_to_the_right_and_binds_looser_than_or() {
    let tokens = vec![
        id("a"), Token::OrOp, id("b"), Token::Question, id("c"), Token::Colon, id("d"),
        Token::Question, id("e"), Token::Colon, id("f"),
    ];
    assert_eq!(initializer(tokens), "((a Or b) ? c : (d ? e : f))");
}

#[test]
fn prefix_operators_are_parsed() {
    let tokens = vec![Token::Minus, id("a"), Token::Mult, Token::Not, id("b")];
    assert_eq!(initializer(tokens), "((Minus a) Mult (Not b))");
    let tokens = vec![Token::BitAndOp, id("a")];
    assert_eq!(initializer(tokens), "(AddressOf a)");
    let tokens = vec![Token::Mult, id("p")];
    assert_eq!(initializer(tokens), "(Dereference p)");
    let tokens = vec![Token::PlusPlus, id("i")];
    assert_eq!(initializer(tokens), "(PreIncrement i)");
    let tokens = vec![Token::MinusMinus, id("i")];
    assert_eq!(initializer(tokens), "(PreDecrement i)");
    let tokens = vec![Token::Plus, IntLit(4)];
    assert_eq!(initializer(tokens), "(Plus 4)");
}

#[test]
fn postfix_operations_are_parsed() {
    let tokens = vec![
        id("f"), Token::ParenL, id("a"), Token::Comma, IntLit(2), Token::ParenR,
    ];
    assert_eq!(initializer(tokens), "f(a, 2)");
    let tokens = vec![id("f"), Token::ParenL, Token::ParenR];
    assert_eq!(initializer(tokens), "f()");
    let tokens = vec![id("a"), Token::BracketL, id("i"), Token::Plus, IntLit(1), Token::BracketR];
    assert_eq!(initializer(tokens), "a[(i Plus 1)]");
    let tokens = vec![id("s"), Token::Dot, id("m"), Token::Arrow, id("n")];
    assert_eq!(initializer(tokens), "s.m->n");
    let tokens = vec![id("i"), Token::PlusPlus];
    assert_eq!(initializer(tokens), "(i PlusPlus)");
    let tokens = vec![id("i"), Token::MinusMinus];
    assert_eq!(initializer(tokens), "(i MinusMinus)");
    let tokens = vec![id("a"), Token::BracketL, IntLit(0), Token::BracketR, Token::PlusPlus];
    let rendered = initializer(tokens);
    assert_eq!(rendered, "(a[0] PlusPlus)");
    assert!(rendered.contains(&format!("{:?}", PostfixOperator::PlusPlus)));
}

#[test]
fn parentheses_override_precedence() {
    let tokens = vec![
        Token::ParenL, IntLit(1), Token::Plus, IntLit(2), Token::ParenR, Token::Mult, IntLit(3),
    ];
    assert_eq!(initializer(tokens), "((1 Plus 2) Mult 3)");
}

#[test]
fn literals_are_parsed() {
    assert_eq!(initializer(vec![Token::FloatLit("3.5".to_string())]), "3.5");
    assert_eq!(initializer(vec![Token::StringLit("hi".to_string())]), "\"hi\"");
    assert_eq!(initializer(vec![IntLit(42)]), "42");
}

#[test]
fn variable_declarations_are_parsed() {
    let unit = parse(vec![Token::Float, id("y"), Token::Semicolon]).unwrap();
    let ExternalDeclaration::Variable(v) = &unit.external_declarations[0] else {
        panic!("not a variable")
    };
    assert_eq!(v.type_specifier, TypeSpecifier::Float);
    assert_eq!(v.declarator.name, "y");
    assert_eq!(v.declarator.pointer_depth, 0);
    assert!(v.declarator.array_sizes.is_empty());
    assert!(v.declarator.function_params.is_none());
    assert!(v.initializer.is_none());
    assert!(v.storage_class.is_none());
    assert!(v.type_qualifiers.is_empty());
}

#[test]
fn static_and_const_modify_a_variable_declaration() {
    let unit = parse(vec![
        Token::Static, Token::Const, Token::Int, id("x"), Token::AssignOp, IntLit(5),
        Token::Semicolon,
    ])
    .unwrap();
    assert_eq!(unit.external_declarations.len(), 1);
    let ExternalDeclaration::Variable(v) = &unit.external_declarations[0] else {
        panic!("not a variable")
    };
    assert_eq!(v.storage_class, Some(StorageClass::Static));
    assert_eq!(v.type_qualifiers, vec![TypeQualifier::Const]);
    assert_eq!(v.type_specifier, TypeSpecifier::Int);

    let unit = parse(vec![Token::Const, Token::Char, id("c"), Token::Semicolon]).unwrap();
    let ExternalDeclaration::Variable(v) = &unit.external_declarations[0] else {
        panic!("not a variable")
    };
    assert_eq!(v.storage_class, None);
    assert_eq!(v.type_qualifiers, vec![TypeQualifier::Const]);
}

#[test]
fn a_prototype_and_a_definition_are_told_apart() {
    let unit = parse(vec![
        Token::Int, id("f"), Token::ParenL, Token::Int, id("a"), Token::Comma, Token::Float,
        id("b"), Token::ParenR, Token::Semicolon,
        Token::Int, id("f"), Token::ParenL, Token::Int, id("a"), Token::Comma, Token::Float,
        id("b"), Token::ParenR, Token::BraceL, Token::Return, id("a"), Token::Semicolon,
        Token::BraceR,
    ])
    .unwrap();
    assert_eq!(unit.external_declarations.len(), 2);
    let ExternalDeclaration::FunctionDeclaration(d) = &unit.external_declarations[0] else {
        panic!("not a prototype")
    };
    assert_eq!(d.name, "f");
    assert_eq!(d.return_type, "int");
    assert_eq!(d.parameters.len(), 2);
    assert_eq!(d.parameters[0].param_type, "int");
    assert_eq!(d.parameters[0].name, "a");
    assert_eq!(d.parameters[1].param_type, "float");
    assert_eq!(d.parameters[1].name, "b");
    let ExternalDeclaration::Function(f) = &unit.external_declarations[1] else {
        panic!("not a definition")
    };
    assert_eq!(f.parameters.len(), 2);
    assert_eq!(f.body.len(), 1);
    assert!(matches!(f.body[0], Statement::Return(Some(Expression::Identifier(ref n))) if n == "a"));
}

#[test]
fn statements_are_parsed() {
    let stmts = body(vec![
        Token::Int, id("i"), Token::AssignOp, IntLit(0), Token::Semicolon,
        Token::While, Token::ParenL, id("i"), Token::LessOp, IntLit(3), Token::ParenR,
        Token::BraceL, id("i"), Token::PlusPlus, Token::Semicolon, Token::Break,
        Token::Semicolon, Token::BraceR,
        Token::Return, Token::Semicolon,
    ]);
    assert_eq!(stmts.len(), 3);
    assert!(matches!(stmts[0], Statement::Declaration(_)));
    let Statement::While(cond, inner) = &stmts[1] else { panic!("not a while") };
    assert_eq!(show(cond), "(i Less 3)");
    let Statement::Block(block) = &**inner else { panic!("not a block") };
    assert_eq!(block.len(), 2);
    assert!(matches!(block[0], Statement::Expression(_)));
    assert!(matches!(block[1], Statement::Break));
    assert!(matches!(stmts[2], Statement::Return(None)));
}

#[test]
fn else_belongs_to_the_nearest_if() {
    // if (a) if (b) x; else y;
    let stmts = body(vec![
        Token::If, Token::ParenL, id("a"), Token::ParenR,
        Token::If, Token::ParenL, id("b"), Token::ParenR, id("x"), Token::Semicolon,
        Token::Else, id("y"), Token::Semicolon,
    ]);
    assert_eq!(stmts.len(), 1);
    let Statement::If(outer, then_stmt, outer_else) = &stmts[0] else { panic!("not an if") };
    assert_eq!(show(outer), "a");
    assert!(outer_else.is_none());
    let Statement::If(inner, inner_then, inner_else) = &**then_stmt else { panic!("not an if") };
    assert_eq!(show(inner), "b");
    assert!(matches!(**inner_then, Statement::Expression(Expression::Identifier(ref n)) if n == "x"));
    let inner_else = inner_else.as_ref().unwrap();
    assert!(matches!(**inner_else, Statement::Expression(Expression::Identifier(ref n)) if n == "y"));
}

#[test]
fn every_clause_of_for_is_optional() {
    let stmts = body(vec![
        Token::For, Token::ParenL, Token::Semicolon, Token::Semicolon, Token::ParenR,
        Token::BraceL, Token::BraceR,
    ]);
    assert_eq!(stmts.len(), 1);
    let Statement::For(init, cond, update, inner) = &stmts[0] else { panic!("not a for") };
    assert!(init.is_none());
    assert!(cond.is_none());
    assert!(update.is_none());
    assert!(matches!(**inner, Statement::Block(ref b) if b.is_empty()));

    let stmts = body(vec![
        Token::For, Token::ParenL, Token::Int, id("i"), Token::AssignOp, IntLit(0),
        Token::Semicolon, id("i"), Token::LessOp, id("n"), Token::Semicolon, id("i"),
        Token::PlusPlus, Token::ParenR, id("s"), Token::PlusAssign, id("i"), Token::Semicolon,
    ]);
    assert_eq!(stmts.len(), 1);
    let Statement::For(init, cond, update, inner) = &stmts[0] else { panic!("not a for") };
    assert!(matches!(**init.as_ref().unwrap(), Statement::Declaration(_)));
    assert_eq!(show(cond.as_ref().unwrap()), "(i Less n)");
    assert_eq!(show(update.as_ref().unwrap()), "(i PlusPlus)");
    let Statement::Expression(e) = &**inner else { panic!("not an expression statement") };
    assert_eq!(show(e), "(s PlusAssign i)");
}

#[test]
fn comments_are_skipped() {
    let unit = parse(vec![
        Token::Comment("// c".to_string()),
        Token::Int,
        Token::BlockComment("/* c */".to_string()),
        id("x"),
        Token::Semicolon,
        Token::Comment("// end".to_string()),
    ])
    .unwrap();
    assert_eq!(unit.external_declarations.len(), 1);
}

#[test]
fn directives_are_recorded_not_expanded() {
    let unit = parse(vec![
        Token::Preprocessor("#include".to_string()), Token::LessOp, id("stdio"), Token::Dot,
        id("h"), Token::GreaterOp,
        Token::Preprocessor("#include".to_string()), Token::StringLit("my.h".to_string()),
        Token::Preprocessor("#define".to_string()), id("MAX"), IntLit(100),
        Token::Preprocessor("#ifdef".to_string()), id("A"),
        Token::Preprocessor("#ifndef".to_string()), id("B"),
        Token::Preprocessor("#endif".to_string()),
        Token::Int, id("x"), Token::AssignOp, id("MAX"), Token::Semicolon,
    ])
    .unwrap();
    assert_eq!(unit.preprocessor_list.len(), 6);
    assert!(matches!(unit.preprocessor_list[0], PreprocessorDirective::Include(ref p) if p == "stdio.h"));
    assert!(matches!(unit.preprocessor_list[1], PreprocessorDirective::Include(ref p) if p == "my.h"));
    let PreprocessorDirective::Define(name, items) = &unit.preprocessor_list[2] else {
        panic!("not a define")
    };
    assert_eq!(name, "MAX");
    assert_eq!(items.len(), 1);
    assert!(matches!(items[0], ReplacementItem::Constant(Constant::Integer(100))));
    assert!(matches!(unit.preprocessor_list[3], PreprocessorDirective::Ifdef(ref n) if n == "A"));
    assert!(matches!(unit.preprocessor_list[4], PreprocessorDirective::Ifndef(ref n) if n == "B"));
    assert!(matches!(unit.preprocessor_list[5], PreprocessorDirective::Endif));
    assert_eq!(unit.external_declarations.len(), 1);
    assert_eq!(initializer(vec![id("MAX")]), "MAX");
}

#[test]
fn a_lexer_error_fails_the_whole() {
    let result = parse(vec![
        Token::Int, id("x"), Token::Semicolon, Token::Error("bad char".to_string()),
    ]);
    assert!(matches!(result, Err(ParseError::UnexpectedToken(ref m)) if m == "Lexer error: bad char"));
    let result = parse(vec![
        Token::Void, id("f"), Token::ParenL, Token::ParenR, Token::BraceL,
        Token::Error("first".to_string()), Token::BraceR, Token::Error("second".to_string()),
    ]);
    assert!(matches!(result, Err(ParseError::UnexpectedToken(ref m)) if m == "Lexer error: first"));
}

#[test]
fn a_malformed_directive_fails_the_whole() {
    let result = parse(vec![Token::Preprocessor("#pragma".to_string()), id("once")]);
    assert!(matches!(result, Err(ParseError::UnexpectedToken(ref m)) if m == "Unknown directive: pragma"));
    let result = parse(vec![Token::Preprocessor("#include".to_string()), IntLit(5)]);
    assert!(matches!(result, Err(ParseError::UnexpectedToken(ref m)) if m == "Expected include path"));
    let result = parse(vec![Token::Preprocessor("#include".to_string()), Token::LessOp, id("a")]);
    assert!(matches!(result, Err(ParseError::UnexpectedEOF)));
    let result = parse(vec![Token::Preprocessor("#define".to_string()), IntLit(5)]);
    assert!(matches!(result, Err(ParseError::ExpectedIdentifier)));
    let result = parse(vec![Token::Preprocessor("#ifdef".to_string())]);
    assert!(matches!(result, Err(ParseError::ExpectedIdentifier)));
    let result = parse(vec![Token::Preprocessor("#ifndef".to_string()), Token::Semicolon]);
    assert!(matches!(result, Err(ParseError::ExpectedIdentifier)));
}

#[test]
fn the_window_heuristics_sharpen_the_diagnosis() {
    // int = 5;
    let result = parse(vec![Token::Int, Token::AssignOp, IntLit(5), Token::Semicolon]);
    assert!(matches!(result, Err(ParseError::ExpectedIdentifier)));
    // x = 5;
    let result = parse(vec![id("x"), Token::AssignOp, IntLit(5), Token::Semicolon]);
    assert!(matches!(result, Err(ParseError::ExpectedTypeToken)));
    // int x = ;
    let result = parse(vec![Token::Int, id("x"), Token::AssignOp, Token::Semicolon]);
    assert!(matches!(result, Err(ParseError::ExpectedIntLit)));
    // float x = ;
    let result = parse(vec![Token::Float, id("x"), Token::AssignOp, Token::Semicolon]);
    assert!(matches!(result, Err(ParseError::ExpectedFloatLit)));
    // char x = ;
    let result = parse(vec![Token::Char, id("x"), Token::AssignOp, Token::Semicolon]);
    assert!(matches!(result, Err(ParseError::ExpectedStringLit)));
    // int x = 5 + ;
    let result = parse(vec![
        Token::Int, id("x"), Token::AssignOp, IntLit(5), Token::Plus, Token::Semicolon,
    ]);
    assert!(matches!(
        result,
        Err(ParseError::FailedToFindToken(ref m)) if m == "Missing operand after operator"
    ));
}

#[test]
fn one_bad_declaration_does_not_hide_the_next() {
    // int 5 ; float y;
    let unit = parse(vec![
        Token::Int, IntLit(5), Token::Semicolon, Token::Float, id("y"), Token::Semicolon,
    ])
    .unwrap();
    assert_eq!(unit.external_declarations.len(), 1);
    let ExternalDeclaration::Variable(v) = &unit.external_declarations[0] else {
        panic!("not a variable")
    };
    assert_eq!(v.declarator.name, "y");
}

#[test]
fn a_stray_closing_brace_is_skipped() {
    let unit = parse(vec![Token::BraceR, Token::Int, id("x"), Token::Semicolon]).unwrap();
    assert_eq!(unit.external_declarations.len(), 1);
}

#[test]
fn an_unclosed_body_is_skipped_to_its_end() {
    // void f( { int a; }  int g;
    let unit = parse(vec![
        Token::Void, id("f"), Token::ParenL, Token::BraceL, Token::Int, id("a"),
        Token::Semicolon, Token::BraceR, Token::Int, id("g"), Token::Semicolon,
    ])
    .unwrap();
    assert_eq!(unit.external_declarations.len(), 1);
    let ExternalDeclaration::Variable(v) = &unit.external_declarations[0] else {
        panic!("not a variable")
    };
    assert_eq!(v.declarator.name, "g");
}

#[test]
fn a_bad_statement_is_skipped_inside_a_body() {
    // The failed statement ends after `,`; one more token, `a`, is skipped.
    // The same happens at `;` and `)`.
    let stmts = body(vec![
        Token::Comma, id("a"), Token::Semicolon, Token::ParenR, Token::Break, Token::Semicolon,
        id("b"), Token::Semicolon,
    ]);
    assert_eq!(stmts.len(), 2);
    assert!(matches!(stmts[0], Statement::Break));
    assert!(matches!(stmts[1], Statement::Expression(Expression::Identifier(ref n)) if n == "b"));
}

#[test]
fn parsing_twice_gives_an_empty_unit_the_second_time() {
    let mut parser = Parser::new(vec![Token::Int, id("x"), Token::Semicolon]);
    assert_eq!(parser.parse().unwrap().external_declarations.len(), 1);
    assert!(parser.parse().unwrap().external_declarations.is_empty());
}

#[test]
fn tokens_compare_by_variant_and_payload() {
    assert!(Token::Int == Token::Int);
    assert!(Token::Int != Token::Float);
    assert!(id("a") == id("a"));
    assert!(id("a") != id("b"));
    assert!(id("a") != Token::StringLit("a".to_string()));
    assert!(Token::IntLit(1) == Token::IntLit(1));
    assert!(Token::IntLit(1) != Token::IntLit(2));
    assert!(Token::BoolLit(true) != Token::BoolLit(false));
    assert!(Token::FloatLit("1.0".to_string()) == Token::FloatLit("1.0".to_string()));
    let copy = id("a").clone();
    assert!(copy == id("a"));
    let unary = UnaryOperator::Not;
    assert_eq!(unary, UnaryOperator::Not);
}

#[test]
fn do_while_is_parsed() {
    // do { i++; } while (i < 3);
    let stmts = body(vec![
        Token::Do, Token::BraceL, id("i"), Token::PlusPlus, Token::Semicolon, Token::BraceR,
        Token::While, Token::ParenL, id("i"), Token::LessOp, IntLit(3), Token::ParenR,
        Token::Semicolon, Token::Break, Token::Semicolon,
    ]);
    assert_eq!(stmts.len(), 2);
    let Statement::DoWhile(inner, cond) = &stmts[0] else { panic!("not a do-while") };
    assert!(matches!(**inner, Statement::Block(ref b) if b.len() == 1));
    assert_eq!(show(cond), "(i Less 3)");
    assert!(matches!(stmts[1], Statement::Break));
}

#[test]
fn switch_case_and_default_are_parsed() {
    // switch (x) { case 1: y = 1; break; default: y = 2; }
    let stmts = body(vec![
        Token::Switch, Token::ParenL, id("x"), Token::ParenR, Token::BraceL,
        Token::Case, IntLit(1), Token::Colon, id("y"), Token::AssignOp, IntLit(1),
        Token::Semicolon, Token::Break, Token::Semicolon,
        Token::Default, Token::Colon, id("y"), Token::AssignOp, IntLit(2), Token::Semicolon,
        Token::BraceR,
    ]);
    assert_eq!(stmts.len(), 1);
    let Statement::Switch(value, inner) = &stmts[0] else { panic!("not a switch") };
    assert_eq!(show(value), "x");
    let Statement::Block(block) = &**inner else { panic!("not a block") };
    assert_eq!(block.len(), 3);
    let Statement::Case(label, first) = &block[0] else { panic!("not a case") };
    assert_eq!(show(label), "1");
    assert!(matches!(**first, Statement::Expression(_)));
    assert!(matches!(block[1], Statement::Break));
    let Statement::Default(last) = &block[2] else { panic!("not a default") };
    let Statement::Expression(e) = &**last else { panic!("not an expression statement") };
    assert_eq!(show(e), "(y Assign 2)");
}

#[test]
fn continue_goto_and_labels_are_parsed() {
    // again: while (a) { continue; } goto again;
    let stmts = body(vec![
        id("again"), Token::Colon, Token::While, Token::ParenL, id("a"), Token::ParenR,
        Token::BraceL, Token::Continue, Token::Semicolon, Token::BraceR,
        Token::Goto, id("again"), Token::Semicolon,
        id("a"), Token::Question, id("b"), Token::Colon, id("c"), Token::Semicolon,
    ]);
    assert_eq!(stmts.len(), 3);
    let Statement::Labeled(label, inner) = &stmts[0] else { panic!("not a label") };
    assert_eq!(label, "again");
    let Statement::While(_, loop_body) = &**inner else { panic!("not a while") };
    assert!(matches!(**loop_body, Statement::Block(ref b) if matches!(b[0], Statement::Continue)));
    assert!(matches!(stmts[1], Statement::Goto(ref l) if l == "again"));
    let Statement::Expression(e) = &stmts[2] else { panic!("not an expression statement") };
    assert_eq!(show(e), "(a ? b : c)");
}

#[test]
fn a_syntax_tree_can_be_copied() {
    let stmts = body(vec![
        Token::For, Token::ParenL, Token::Int, id("i"), Token::AssignOp, IntLit(0),
        Token::Semicolon, id("i"), Token::LessOp, id("n"), Token::Semicolon, id("i"),
        Token::PlusPlus, Token::ParenR, Token::BraceL, id("f"), Token::ParenL, id("i"),
        Token::Comma, Token::StringLit("s".to_string()), Token::ParenR, Token::Semicolon,
        Token::BraceR,
    ]);
    let copy = stmts[0].clone();
    assert_eq!(format!("{:?}", copy), format!("{:?}", stmts[0]));
    let unit = parse(vec![
        Token::Preprocessor("#define".to_string()), id("A"), IntLit(1),
        Token::Static, Token::Int, id("x"), Token::AssignOp, IntLit(1), Token::Semicolon,
        Token::Void, id("g"), Token::ParenL, Token::Int, id("p"), Token::ParenR, Token::Semicolon,
    ])
    .unwrap();
    assert_eq!(format!("{:?}", unit.clone()), format!("{:?}", unit));
    let error = ParseError::UnexpectedToken("t".to_string());
    assert_eq!(format!("{:?}", error.clone()), format!("{:?}", error));
}
