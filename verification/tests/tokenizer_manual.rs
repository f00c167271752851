use minic::lexer_manual::{is_keyword, lex_manual, Token};

#[test]
fn manual_tokenizer_finds_tokens() {
    let tokens = lex_manual("fn main() { int x = 10; // c\n if (x >= 2 && y) return s; }");
    assert_eq!(
        tokens,
        vec![
            Token::Function, Token::Identifier("main".to_string()), Token::ParenL, Token::ParenR, Token::BraceL,
            Token::Int, Token::Identifier("x".to_string()), Token::AssignOp, Token::IntLit(10), Token::Semicolon,
            Token::Comment("// c".to_string()), Token::If, Token::ParenL, Token::Identifier("x".to_string()),
            Token::GreaterEqOp, Token::IntLit(2), Token::AndOp, Token::Identifier("y".to_string()), Token::ParenR,
            Token::Return, Token::Identifier("s".to_string()), Token::Semicolon, Token::BraceR,
        ]
    );
}

#[test]
fn manual_tokenizer_reads_numbers_and_strings() {
    assert_eq!(
        lex_manual("1.5 7. 12 \"a\\n\\tb\\\"c\\\\d\\q\" \"open"),
        vec![
            Token::FloatLit("1.5".to_string()),
            Token::FloatLit("7.".to_string()),
            Token::IntLit(12),
            Token::StringLit("a\n\tb\"c\\dq".to_string()),
            Token::StringLit("open".to_string()),
        ]
    );
    assert_eq!(
        lex_manual("99999999999999999999"),
        vec![Token::Error("Invalid int: 99999999999999999999".to_string())]
    );
}

#[test]
fn manual_tokenizer_reads_operators_and_reports_unknown_characters() {
    assert_eq!(
        lex_manual("== != <= >= && || = < > & | [ ] , ; + é"),
        vec![
            Token::EqualsOp, Token::NotEqualsOp, Token::LessEqOp, Token::GreaterEqOp, Token::AndOp, Token::OrOp,
            Token::AssignOp, Token::LessOp, Token::GreaterOp, Token::BitAndOp, Token::BitOrOp, Token::BracketL,
            Token::BracketR, Token::Comma, Token::Semicolon, Token::Error("Unknown char: +".to_string()),
            Token::Error("Unknown char: é".to_string()),
        ]
    );
    assert_eq!(lex_manual("=="), vec![Token::EqualsOp]);
    assert_eq!(lex_manual("="), vec![Token::AssignOp]);
    assert_eq!(lex_manual("/"), vec![Token::Error("Unknown char: /".to_string())]);
    assert_eq!(lex_manual("//"), vec![Token::Comment("//".to_string())]);
    assert_eq!(lex_manual(" \u{a0}\u{3000}\t"), Vec::<Token>::new());
}

#[test]
fn keywords_of_the_manual_tokenizer() {
    assert_eq!(is_keyword("fn"), Some(Token::Function));
    assert_eq!(is_keyword("int"), Some(Token::Int));
    assert_eq!(is_keyword("float"), Some(Token::Float));
    assert_eq!(is_keyword("string"), Some(Token::String));
    assert_eq!(is_keyword("bool"), Some(Token::Bool));
    assert_eq!(is_keyword("return"), Some(Token::Return));
    assert_eq!(is_keyword("if"), Some(Token::If));
    assert_eq!(is_keyword("else"), Some(Token::Else));
    assert_eq!(is_keyword("while"), Some(Token::While));
    assert_eq!(is_keyword("for"), Some(Token::For));
    assert_eq!(is_keyword("void"), None);
    assert_eq!(is_keyword(""), None);
}


#[test]
fn manual_tokens_have_labels() {
    assert_eq!(Token::Function.label(), "T_FUNCTION");
    assert_eq!(Token::Identifier("x".to_string()).label(), "T_IDENTIFIER(\"x\")");
    assert_eq!(Token::IntLit(7).label(), "T_INTLIT(7)");
    assert_eq!(Token::FloatLit("7.".to_string()).label(), "T_FLOATLIT(7.)");
    assert_eq!(Token::BoolLit(true).label(), "T_BOOLLIT(true)");
    assert_eq!(Token::Quotes.label(), "T_QUOTES");
    assert_eq!(Token::Error("Unknown char: +".to_string()).label(), "T_ERROR(\"Unknown char: +\")");
}
