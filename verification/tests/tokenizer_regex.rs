use minic::lexer_regex::{accept_match, lex_with_regex, token_of_lexeme, Token, TOKEN_PATTERN};

fn id(name: &str) -> Token {
    Token::Identifier(name.to_string())
}

#[test]
fn regex_tokenizer_finds_keywords_names_and_punctuation() {
    let tokens = lex_with_regex("int main() { return x1; }");
    assert_eq!(
        tokens,
        vec![
            Token::Int, id("main"), Token::ParenL, Token::ParenR, Token::BraceL, Token::Return,
            id("x1"), Token::Semicolon, Token::BraceR,
        ]
    );
}

#[test]
fn regex_tokenizer_finds_literals() {
    let tokens = lex_with_regex("x = 42 + 3.14; s = \"hi\\\"there\";");
    assert_eq!(
        tokens,
        vec![
            id("x"), Token::AssignOp, Token::IntLit(42), Token::Plus,
            Token::FloatLit("3.14".to_string()), Token::Semicolon,
            id("s"), Token::AssignOp, Token::StringLit("hi\\\"there".to_string()),
            Token::Semicolon,
        ]
    );
}

#[test]
fn regex_tokenizer_finds_comments_and_directives() {
    let tokens = lex_with_regex("#include <stdio.h>\n// note\n/* block */ x");
    assert_eq!(
        tokens,
        vec![
            Token::Preprocessor("#include".to_string()), Token::LessOp, id("stdio"), Token::Dot,
            id("h"), Token::GreaterOp, Token::Comment("// note".to_string()),
            Token::BlockComment("/* block */".to_string()), id("x"),
        ]
    );
}

#[test]
fn regex_tokenizer_finds_operators_in_the_order_of_the_pattern() {
    let tokens = lex_with_regex("a == b != c <= d >= e && f || g << h >> i");
    assert_eq!(
        tokens,
        vec![
            id("a"), Token::EqualsOp, id("b"), Token::NotEqualsOp, id("c"), Token::LessEqOp,
            id("d"), Token::GreaterEqOp, id("e"), Token::AndOp, id("f"), Token::OrOp, id("g"),
            Token::LShift, id("h"), Token::RShift, id("i"),
        ]
    );
    // `+` stands before `++` and `+=` in the pattern, and `-` before `->`.
    assert_eq!(lex_with_regex("i++"), vec![id("i"), Token::Plus, Token::Plus]);
    assert_eq!(lex_with_regex("i+=1"), vec![id("i"), Token::Plus, Token::AssignOp, Token::IntLit(1)]);
    assert_eq!(lex_with_regex("p->m"), vec![id("p"), Token::Minus, Token::GreaterOp, id("m")]);
    assert_eq!(lex_with_regex("~a ? b : c"), vec![
        Token::Not, id("a"), Token::Question, id("b"), Token::Colon, id("c"),
    ]);
}

#[test]
fn regex_tokenizer_keeps_keywords_whole() {
    assert_eq!(lex_with_regex("integer"), vec![id("integer")]);
    assert_eq!(lex_with_regex("int"), vec![Token::Int]);
    assert_eq!(lex_with_regex("double d"), vec![Token::Double, id("d")]);
    assert_eq!(
        lex_with_regex("static const unsigned long"),
        vec![Token::Static, Token::Const, Token::Unsigned, Token::Long]
    );
}

#[test]
fn regex_tokenizer_passes_over_what_matches_nothing() {
    assert_eq!(lex_with_regex("a @ b"), vec![id("a"), id("b")]);
    assert_eq!(lex_with_regex(""), Vec::<Token>::new());
    assert_eq!(lex_with_regex("   \n\t "), Vec::<Token>::new());
    assert_eq!(
        lex_with_regex("ab @"),
        vec![id("ab"), Token::Error("Unknown sequence at 3".to_string())]
    );
}

#[test]
fn regex_tokenizer_reports_a_number_that_is_too_large() {
    assert_eq!(
        lex_with_regex("9223372036854775807"),
        vec![Token::IntLit(9223372036854775807)]
    );
    assert_eq!(
        lex_with_regex("9223372036854775808"),
        vec![Token::Error("Invalid int: 9223372036854775808".to_string())]
    );
}

#[test]
fn a_lexeme_becomes_the_token_of_its_group() {
    let groups = |name: &str, text: &str| {
        Some(vec![
            (None, Some(text.to_string())),
            (Some("ws".to_string()), None),
            (Some(name.to_string()), Some(text.to_string())),
        ])
    };
    assert_eq!(token_of_lexeme("while", groups("while", "while")), Some(Token::While));
    assert_eq!(token_of_lexeme("abc", groups("identifier", "abc")), Some(id("abc")));
    assert_eq!(token_of_lexeme("12", groups("intlit", "12")), Some(Token::IntLit(12)));
    assert_eq!(
        token_of_lexeme("1x", groups("intlit", "1x")),
        Some(Token::Error("Invalid int: 1x".to_string()))
    );
    assert_eq!(
        token_of_lexeme("\"q\"", groups("stringlit", "\"q\"")),
        Some(Token::StringLit("q".to_string()))
    );
    assert_eq!(
        token_of_lexeme("\"", groups("stringlit", "\"")),
        Some(Token::StringLit(String::new()))
    );
    assert_eq!(
        token_of_lexeme("// c", groups("comment", "// c")),
        Some(Token::Comment("// c".to_string()))
    );
    assert_eq!(token_of_lexeme(" ", Some(vec![(Some("ws".to_string()), Some(" ".to_string()))])), None);
    assert_eq!(
        token_of_lexeme("?", groups("nothing", "?")),
        Some(Token::Error("Unknown token: ?".to_string()))
    );
    assert_eq!(
        token_of_lexeme("?", None),
        Some(Token::Error("Unknown token: ?".to_string()))
    );
    assert_eq!(
        token_of_lexeme("?", Some(vec![(None, Some("?".to_string()))])),
        Some(Token::Error("Unknown token: ?".to_string()))
    );
    assert_eq!(TOKEN_PATTERN.len() > 100, true);
}


#[test]
fn tokens_have_labels() {
    assert_eq!(Token::Function.label(), "T_FUNCTION");
    assert_eq!(Token::LShiftAssign.label(), "T_LSHIFTASSIGN");
    assert_eq!(Token::GreaterEqOp.label(), "T_GREATEREQOP");
    assert_eq!(id("x").label(), "T_IDENTIFIER(\"x\")");
    assert_eq!(Token::IntLit(-42).label(), "T_INTLIT(-42)");
    assert_eq!(Token::IntLit(0).label(), "T_INTLIT(0)");
    assert_eq!(Token::IntLit(i64::MIN).label(), "T_INTLIT(-9223372036854775808)");
    assert_eq!(Token::IntLit(i64::MAX).label(), "T_INTLIT(9223372036854775807)");
    assert_eq!(Token::FloatLit("1.50".to_string()).label(), "T_FLOATLIT(1.50)");
    assert_eq!(Token::StringLit("s".to_string()).label(), "T_STRINGLIT(\"s\")");
    assert_eq!(Token::BoolLit(true).label(), "T_BOOLLIT(true)");
    assert_eq!(Token::BoolLit(false).label(), "T_BOOLLIT(false)");
    assert_eq!(Token::Comment("// c".to_string()).label(), "T_COMMENT(\"// c\")");
    assert_eq!(Token::BlockComment("/**/".to_string()).label(), "T_BLOCKCOMMENT(\"/**/\")");
    assert_eq!(Token::Preprocessor("#if".to_string()).label(), "T_PREPROCESSOR(\"#if\")");
    assert_eq!(Token::Error("e".to_string()).label(), "T_ERROR(\"e\")");
    assert_eq!(Token::Void.label(), "T_VOID");
}

#[test]
fn a_match_is_a_lexeme_if_it_leaves_less_text() {
    let found = |before: &str, whole: &str, after: &str| {
        Some((before.to_string(), whole.to_string(), after.to_string()))
    };
    assert_eq!(
        accept_match(found("", "int", " x"), 5, 0),
        Ok(("int".to_string(), " x".to_string()))
    );
    assert_eq!(
        accept_match(found("@@", "x", ""), 3, 10),
        Ok(("x".to_string(), String::new()))
    );
    assert_eq!(
        accept_match(found("", "", "abc"), 3, 4),
        Err(Token::Error("Unknown sequence at 4".to_string()))
    );
    assert_eq!(accept_match(None, 3, 12), Err(Token::Error("Unknown sequence at 12".to_string())));
}
