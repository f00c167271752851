use minic::rules::{
    accept_match, lex, lex_with, make_token, rules, token_of_lexeme, Rule, Token, TokenType,
};

#[test]
fn rules_tokenizer_finds_tokens() {
    let tokens = lex("int x = 42; float y = 1.5; if (x <= y) { return 'c'; } // done");
    assert_eq!(
        tokens,
        vec![
            Token::KeywordInt, Token::Identifier("x".to_string()), Token::Assign, Token::Int(42), Token::Semicolon,
            Token::KeywordFloat, Token::Identifier("y".to_string()), Token::Assign,
            Token::Float("1.5".to_string()), Token::Semicolon,
            Token::KeywordIf, Token::ParenL, Token::Identifier("x".to_string()), Token::LtEq,
            Token::Identifier("y".to_string()), Token::ParenR, Token::BraceL, Token::KeywordReturn,
            Token::CharLit('c'), Token::Semicolon, Token::BraceR,
            // The rule for `/` stands before the rules for comments.
            Token::Slash, Token::Slash, Token::Identifier("done".to_string()),
        ]
    );
}

#[test]
fn rules_tokenizer_reports_bad_names_and_characters() {
    assert_eq!(
        lex("2abc"),
        vec![Token::Error("Invalid identifier: 2".to_string()), Token::Identifier("abc".to_string())]
    );
    assert_eq!(
        lex("a $ \"s\""),
        vec![
            Token::Identifier("a".to_string()),
            Token::Error("Unexpected character: $".to_string()),
            Token::StringLit("\"s\"".to_string()),
        ]
    );
    assert_eq!(lex("  "), Vec::<Token>::new());
    assert_eq!(
        lex("a << b >> c && d || !e ^ f"),
        vec![
            Token::Identifier("a".to_string()), Token::Shl, Token::Identifier("b".to_string()), Token::Shr,
            Token::Identifier("c".to_string()), Token::AndAnd, Token::Identifier("d".to_string()), Token::OrOr,
            Token::Not, Token::Identifier("e".to_string()), Token::Caret, Token::Identifier("f".to_string()),
        ]
    );
}

#[test]
fn the_first_rule_that_matches_wins() {
    let table = vec![
        Rule { regex: "^ab".to_string(), token_type: TokenType::Fixed(Token::Plus) },
        Rule { regex: "^a".to_string(), token_type: TokenType::Fixed(Token::Minus) },
        Rule { regex: "^[a-z]+".to_string(), token_type: TokenType::Identifier },
        Rule { regex: "^(".to_string(), token_type: TokenType::Comment },
    ];
    assert_eq!(lex_with(&table, "ab a b"), vec![Token::Plus, Token::Minus, Token::Identifier("b".to_string())]);
    assert_eq!(rules().len(), 45);
    assert_eq!(rules()[0].regex, "^\\bint\\b");
}

#[test]
fn a_rule_makes_a_token_of_its_lexeme() {
    assert_eq!(make_token(&TokenType::Fixed(Token::Star), "*"), Token::Star);
    assert_eq!(make_token(&TokenType::StringLit, "\"s\""), Token::StringLit("\"s\"".to_string()));
    assert_eq!(make_token(&TokenType::CharLit, "'x'"), Token::CharLit('x'));
    assert_eq!(make_token(&TokenType::CharLit, "'"), Token::Error("Invalid char: '".to_string()));
    assert_eq!(make_token(&TokenType::Float, "2.50"), Token::Float("2.50".to_string()));
    assert_eq!(make_token(&TokenType::Int, "250"), Token::Int(250));
    assert_eq!(make_token(&TokenType::Int, "25a"), Token::Error("Invalid int: 25a".to_string()));
    assert_eq!(make_token(&TokenType::Identifier, "n"), Token::Identifier("n".to_string()));
    assert_eq!(make_token(&TokenType::Comment, "// c"), Token::Comment("// c".to_string()));
}


#[test]
fn a_rule_applies_if_its_match_leaves_less_text() {
    let found = |before: &str, whole: &str, after: &str| {
        Some((before.to_string(), whole.to_string(), after.to_string()))
    };
    assert_eq!(accept_match(found("", "if", "(x)"), 5), Some(("if".to_string(), "(x)".to_string())));
    assert_eq!(accept_match(found("", "", "if(x)"), 5), None);
    assert_eq!(accept_match(None, 5), None);
    assert_eq!(
        token_of_lexeme(&TokenType::Int, "2", true),
        Token::Error("Invalid identifier: 2".to_string())
    );
    assert_eq!(token_of_lexeme(&TokenType::Int, "2", false), Token::Int(2));
    assert_eq!(token_of_lexeme(&TokenType::Fixed(Token::Caret), "^", false), Token::Caret);
}
