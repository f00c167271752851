//! A tokenizer driven by a table of rules: each rule is a pattern and the
//! way to make a token of what the pattern matched. The first rule that
//! matches at the head of the text makes the next token.

use crate::parser::ast::view_all;
use crate::pattern::{find, first_match, has_match, is_match};
use crate::text::{
    chars_of, decimal_value, lemma_run_end_bound, parse_decimal, run_end, scan_run,
    text_of, CharClass,
};
use vstd::prelude::*;
use vstd::std_specs::cmp::PartialEqSpecImpl;
use vstd::string::*;

verus! {

/// One lexical unit of the tokenizer by rules. Names, literals, comments and
/// errors carry their text; a floating-point literal carries the digits it
/// was written with.
#[derive(Debug)]
pub enum Token {
    KeywordInt,
    KeywordFloat,
    KeywordChar,
    KeywordVoid,
    KeywordReturn,
    KeywordIf,
    KeywordElse,
    KeywordWhile,
    KeywordFor,
    KeywordStruct,
    Identifier(String),
    Int(i64),
    Float(String),
    StringLit(String),
    CharLit(char),
    ParenL,
    ParenR,
    BraceL,
    BraceR,
    BracketL,
    BracketR,
    Semicolon,
    Comma,
    Plus,
    Minus,
    Star,
    Slash,
    Percent,
    EqEq,
    NotEq,
    Lt,
    Gt,
    LtEq,
    GtEq,
    AndAnd,
    OrOr,
    Not,
    Assign,
    Amp,
    Pipe,
    Caret,
    Shl,
    Shr,
    Comment(String),
    Error(String),
}

/// A token as a mathematical value: its text is a sequence of characters.
pub enum TokenView {
    KeywordInt,
    KeywordFloat,
    KeywordChar,
    KeywordVoid,
    KeywordReturn,
    KeywordIf,
    KeywordElse,
    KeywordWhile,
    KeywordFor,
    KeywordStruct,
    Identifier(Seq<char>),
    Int(i64),
    Float(Seq<char>),
    StringLit(Seq<char>),
    CharLit(char),
    ParenL,
    ParenR,
    BraceL,
    BraceR,
    BracketL,
    BracketR,
    Semicolon,
    Comma,
    Plus,
    Minus,
    Star,
    Slash,
    Percent,
    EqEq,
    NotEq,
    Lt,
    Gt,
    LtEq,
    GtEq,
    AndAnd,
    OrOr,
    Not,
    Assign,
    Amp,
    Pipe,
    Caret,
    Shl,
    Shr,
    Comment(Seq<char>),
    Error(Seq<char>),
}

impl View for Token {
    type V = TokenView;

    open spec fn view(&self) -> TokenView {
        match self {
            Token::KeywordInt => TokenView::KeywordInt,
            Token::KeywordFloat => TokenView::KeywordFloat,
            Token::KeywordChar => TokenView::KeywordChar,
            Token::KeywordVoid => TokenView::KeywordVoid,
            Token::KeywordReturn => TokenView::KeywordReturn,
            Token::KeywordIf => TokenView::KeywordIf,
            Token::KeywordElse => TokenView::KeywordElse,
            Token::KeywordWhile => TokenView::KeywordWhile,
            Token::KeywordFor => TokenView::KeywordFor,
            Token::KeywordStruct => TokenView::KeywordStruct,
            Token::Identifier(a) => TokenView::Identifier(a@),
            Token::Int(a) => TokenView::Int(*a),
            Token::Float(a) => TokenView::Float(a@),
            Token::StringLit(a) => TokenView::StringLit(a@),
            Token::CharLit(a) => TokenView::CharLit(*a),
            Token::ParenL => TokenView::ParenL,
            Token::ParenR => TokenView::ParenR,
            Token::BraceL => TokenView::BraceL,
            Token::BraceR => TokenView::BraceR,
            Token::BracketL => TokenView::BracketL,
            Token::BracketR => TokenView::BracketR,
            Token::Semicolon => TokenView::Semicolon,
            Token::Comma => TokenView::Comma,
            Token::Plus => TokenView::Plus,
            Token::Minus => TokenView::Minus,
            Token::Star => TokenView::Star,
            Token::Slash => TokenView::Slash,
            Token::Percent => TokenView::Percent,
            Token::EqEq => TokenView::EqEq,
            Token::NotEq => TokenView::NotEq,
            Token::Lt => TokenView::Lt,
            Token::Gt => TokenView::Gt,
            Token::LtEq => TokenView::LtEq,
            Token::GtEq => TokenView::GtEq,
            Token::AndAnd => TokenView::AndAnd,
            Token::OrOr => TokenView::OrOr,
            Token::Not => TokenView::Not,
            Token::Assign => TokenView::Assign,
            Token::Amp => TokenView::Amp,
            Token::Pipe => TokenView::Pipe,
            Token::Caret => TokenView::Caret,
            Token::Shl => TokenView::Shl,
            Token::Shr => TokenView::Shr,
            Token::Comment(a) => TokenView::Comment(a@),
            Token::Error(a) => TokenView::Error(a@),
        }
    }
}

impl Token {
    /// Equality of tokens: the same variant, carrying the same text or number.
    pub open spec fn same(self, other: Token) -> bool {
        match (self, other) {
            (Token::Identifier(a), Token::Identifier(b)) => a@ == b@,
            (Token::Int(a), Token::Int(b)) => a == b,
            (Token::Float(a), Token::Float(b)) => a@ == b@,
            (Token::StringLit(a), Token::StringLit(b)) => a@ == b@,
            (Token::CharLit(a), Token::CharLit(b)) => a == b,
            (Token::Comment(a), Token::Comment(b)) => a@ == b@,
            (Token::Error(a), Token::Error(b)) => a@ == b@,
            _ => self == other,
        }
    }
}

impl Clone for Token {
    fn clone(&self) -> (r: Self)
        ensures
            r == *self,
    {
        match self {
            Token::KeywordInt => Token::KeywordInt,
            Token::KeywordFloat => Token::KeywordFloat,
            Token::KeywordChar => Token::KeywordChar,
            Token::KeywordVoid => Token::KeywordVoid,
            Token::KeywordReturn => Token::KeywordReturn,
            Token::KeywordIf => Token::KeywordIf,
            Token::KeywordElse => Token::KeywordElse,
            Token::KeywordWhile => Token::KeywordWhile,
            Token::KeywordFor => Token::KeywordFor,
            Token::KeywordStruct => Token::KeywordStruct,
            Token::Identifier(a) => Token::Identifier(a.clone()),
            Token::Int(a) => Token::Int(*a),
            Token::Float(a) => Token::Float(a.clone()),
            Token::StringLit(a) => Token::StringLit(a.clone()),
            Token::CharLit(a) => Token::CharLit(*a),
            Token::ParenL => Token::ParenL,
            Token::ParenR => Token::ParenR,
            Token::BraceL => Token::BraceL,
            Token::BraceR => Token::BraceR,
            Token::BracketL => Token::BracketL,
            Token::BracketR => Token::BracketR,
            Token::Semicolon => Token::Semicolon,
            Token::Comma => Token::Comma,
            Token::Plus => Token::Plus,
            Token::Minus => Token::Minus,
            Token::Star => Token::Star,
            Token::Slash => Token::Slash,
            Token::Percent => Token::Percent,
            Token::EqEq => Token::EqEq,
            Token::NotEq => Token::NotEq,
            Token::Lt => Token::Lt,
            Token::Gt => Token::Gt,
            Token::LtEq => Token::LtEq,
            Token::GtEq => Token::GtEq,
            Token::AndAnd => Token::AndAnd,
            Token::OrOr => Token::OrOr,
            Token::Not => Token::Not,
            Token::Assign => Token::Assign,
            Token::Amp => Token::Amp,
            Token::Pipe => Token::Pipe,
            Token::Caret => Token::Caret,
            Token::Shl => Token::Shl,
            Token::Shr => Token::Shr,
            Token::Comment(a) => Token::Comment(a.clone()),
            Token::Error(a) => Token::Error(a.clone()),
        }
    }
}

impl PartialEq for Token {
    fn eq(&self, other: &Token) -> (r: bool) {
        match (self, other) {
            (Token::KeywordInt, Token::KeywordInt) => true,
            (Token::KeywordFloat, Token::KeywordFloat) => true,
            (Token::KeywordChar, Token::KeywordChar) => true,
            (Token::KeywordVoid, Token::KeywordVoid) => true,
            (Token::KeywordReturn, Token::KeywordReturn) => true,
            (Token::KeywordIf, Token::KeywordIf) => true,
            (Token::KeywordElse, Token::KeywordElse) => true,
            (Token::KeywordWhile, Token::KeywordWhile) => true,
            (Token::KeywordFor, Token::KeywordFor) => true,
            (Token::KeywordStruct, Token::KeywordStruct) => true,
            (Token::Identifier(a), Token::Identifier(b)) => *a == *b,
            (Token::Int(a), Token::Int(b)) => *a == *b,
            (Token::Float(a), Token::Float(b)) => *a == *b,
            (Token::StringLit(a), Token::StringLit(b)) => *a == *b,
            (Token::CharLit(a), Token::CharLit(b)) => *a == *b,
            (Token::ParenL, Token::ParenL) => true,
            (Token::ParenR, Token::ParenR) => true,
            (Token::BraceL, Token::BraceL) => true,
            (Token::BraceR, Token::BraceR) => true,
            (Token::BracketL, Token::BracketL) => true,
            (Token::BracketR, Token::BracketR) => true,
            (Token::Semicolon, Token::Semicolon) => true,
            (Token::Comma, Token::Comma) => true,
            (Token::Plus, Token::Plus) => true,
            (Token::Minus, Token::Minus) => true,
            (Token::Star, Token::Star) => true,
            (Token::Slash, Token::Slash) => true,
            (Token::Percent, Token::Percent) => true,
            (Token::EqEq, Token::EqEq) => true,
            (Token::NotEq, Token::NotEq) => true,
            (Token::Lt, Token::Lt) => true,
            (Token::Gt, Token::Gt) => true,
            (Token::LtEq, Token::LtEq) => true,
            (Token::GtEq, Token::GtEq) => true,
            (Token::AndAnd, Token::AndAnd) => true,
            (Token::OrOr, Token::OrOr) => true,
            (Token::Not, Token::Not) => true,
            (Token::Assign, Token::Assign) => true,
            (Token::Amp, Token::Amp) => true,
            (Token::Pipe, Token::Pipe) => true,
            (Token::Caret, Token::Caret) => true,
            (Token::Shl, Token::Shl) => true,
            (Token::Shr, Token::Shr) => true,
            (Token::Comment(a), Token::Comment(b)) => *a == *b,
            (Token::Error(a), Token::Error(b)) => *a == *b,
            _ => false,
        }
    }
}

impl PartialEqSpecImpl for Token {
    open spec fn obeys_eq_spec() -> bool {
        true
    }

    open spec fn eq_spec(&self, other: &Token) -> bool {
        self.same(*other)
    }
}

// ---------------------------------------------------------------------------
// Rules
// ---------------------------------------------------------------------------

/// How a rule makes a token of the text that its pattern matched.
#[derive(Debug)]
pub enum TokenType {
    /// Always the same token.
    Fixed(Token),
    /// A string literal: the text, quotes and all.
    StringLit,
    /// A character literal: the character after the opening quote.
    CharLit,
    /// A floating-point literal: the text.
    Float,
    /// An integer literal: the number that the digits stand for.
    Int,
    /// A name: the text.
    Identifier,
    /// A comment: the text.
    Comment,
}

pub enum TokenTypeView {
    Fixed(TokenView),
    StringLit,
    CharLit,
    Float,
    Int,
    Identifier,
    Comment,
}

impl View for TokenType {
    type V = TokenTypeView;

    open spec fn view(&self) -> TokenTypeView {
        match self {
            TokenType::Fixed(t) => TokenTypeView::Fixed(t@),
            TokenType::StringLit => TokenTypeView::StringLit,
            TokenType::CharLit => TokenTypeView::CharLit,
            TokenType::Float => TokenTypeView::Float,
            TokenType::Int => TokenTypeView::Int,
            TokenType::Identifier => TokenTypeView::Identifier,
            TokenType::Comment => TokenTypeView::Comment,
        }
    }
}

/// A rule: a pattern, and the way to make a token of what it matched.
#[derive(Debug)]
pub struct Rule {
    pub regex: String,
    pub token_type: TokenType,
}

pub struct RuleView {
    pub regex: Seq<char>,
    pub token_type: TokenTypeView,
}

impl View for Rule {
    type V = RuleView;

    open spec fn view(&self) -> RuleView {
        RuleView { regex: self.regex@, token_type: self.token_type@ }
    }
}

/// The rules of MiniC, in the order in which they are tried: keywords,
/// literals and names, operators, punctuation, comments.
pub open spec fn minic_rules() -> Seq<RuleView> {
    seq![
        RuleView { regex: r#"^\bint\b"#@, token_type: TokenTypeView::Fixed(TokenView::KeywordInt) },
        RuleView { regex: r#"^\bfloat\b"#@, token_type: TokenTypeView::Fixed(TokenView::KeywordFloat) },
        RuleView { regex: r#"^\bchar\b"#@, token_type: TokenTypeView::Fixed(TokenView::KeywordChar) },
        RuleView { regex: r#"^\bvoid\b"#@, token_type: TokenTypeView::Fixed(TokenView::KeywordVoid) },
        RuleView { regex: r#"^\breturn\b"#@, token_type: TokenTypeView::Fixed(TokenView::KeywordReturn) },
        RuleView { regex: r#"^\bif\b"#@, token_type: TokenTypeView::Fixed(TokenView::KeywordIf) },
        RuleView { regex: r#"^\belse\b"#@, token_type: TokenTypeView::Fixed(TokenView::KeywordElse) },
        RuleView { regex: r#"^\bwhile\b"#@, token_type: TokenTypeView::Fixed(TokenView::KeywordWhile) },
        RuleView { regex: r#"^\bfor\b"#@, token_type: TokenTypeView::Fixed(TokenView::KeywordFor) },
        RuleView { regex: r#"^\bstruct\b"#@, token_type: TokenTypeView::Fixed(TokenView::KeywordStruct) },
        RuleView { regex: r#"^"([^"\\]|\\.)*""#@, token_type: TokenTypeView::StringLit },
        RuleView { regex: r#"^'([^'\\]|\\.)'"#@, token_type: TokenTypeView::CharLit },
        RuleView { regex: r#"^\d+\.\d+"#@, token_type: TokenTypeView::Float },
        RuleView { regex: r#"^\d+"#@, token_type: TokenTypeView::Int },
        RuleView { regex: r#"^[a-zA-Z_]\w*"#@, token_type: TokenTypeView::Identifier },
        RuleView { regex: r#"^=="#@, token_type: TokenTypeView::Fixed(TokenView::EqEq) },
        RuleView { regex: r#"^!="#@, token_type: TokenTypeView::Fixed(TokenView::NotEq) },
        RuleView { regex: r#"^<="#@, token_type: TokenTypeView::Fixed(TokenView::LtEq) },
        RuleView { regex: r#"^>="#@, token_type: TokenTypeView::Fixed(TokenView::GtEq) },
        RuleView { regex: r#"^&&"#@, token_type: TokenTypeView::Fixed(TokenView::AndAnd) },
        RuleView { regex: r#"^\|\|"#@, token_type: TokenTypeView::Fixed(TokenView::OrOr) },
        RuleView { regex: r#"^<<"#@, token_type: TokenTypeView::Fixed(TokenView::Shl) },
        RuleView { regex: r#"^>>"#@, token_type: TokenTypeView::Fixed(TokenView::Shr) },
        RuleView { regex: r#"^\+"#@, token_type: TokenTypeView::Fixed(TokenView::Plus) },
        RuleView { regex: r#"^-"#@, token_type: TokenTypeView::Fixed(TokenView::Minus) },
        RuleView { regex: r#"^\*"#@, token_type: TokenTypeView::Fixed(TokenView::Star) },
        RuleView { regex: r#"^/"#@, token_type: TokenTypeView::Fixed(TokenView::Slash) },
        RuleView { regex: r#"^%"#@, token_type: TokenTypeView::Fixed(TokenView::Percent) },
        RuleView { regex: r#"^="#@, token_type: TokenTypeView::Fixed(TokenView::Assign) },
        RuleView { regex: r#"^<"#@, token_type: TokenTypeView::Fixed(TokenView::Lt) },
        RuleView { regex: r#"^>"#@, token_type: TokenTypeView::Fixed(TokenView::Gt) },
        RuleView { regex: r#"^!"#@, token_type: TokenTypeView::Fixed(TokenView::Not) },
        RuleView { regex: r#"^&"#@, token_type: TokenTypeView::Fixed(TokenView::Amp) },
        RuleView { regex: r#"^\|"#@, token_type: TokenTypeView::Fixed(TokenView::Pipe) },
        RuleView { regex: r#"^\^"#@, token_type: TokenTypeView::Fixed(TokenView::Caret) },
        RuleView { regex: r#"^\("#@, token_type: TokenTypeView::Fixed(TokenView::ParenL) },
        RuleView { regex: r#"^\)"#@, token_type: TokenTypeView::Fixed(TokenView::ParenR) },
        RuleView { regex: r#"^\{"#@, token_type: TokenTypeView::Fixed(TokenView::BraceL) },
        RuleView { regex: r#"^\}"#@, token_type: TokenTypeView::Fixed(TokenView::BraceR) },
        RuleView { regex: r#"^\["#@, token_type: TokenTypeView::Fixed(TokenView::BracketL) },
        RuleView { regex: r#"^\]"#@, token_type: TokenTypeView::Fixed(TokenView::BracketR) },
        RuleView { regex: r#"^;"#@, token_type: TokenTypeView::Fixed(TokenView::Semicolon) },
        RuleView { regex: r#"^,"#@, token_type: TokenTypeView::Fixed(TokenView::Comma) },
        RuleView { regex: r#"^//.*"#@, token_type: TokenTypeView::Comment },
        RuleView { regex: r#"^/\*.*?\*/"#@, token_type: TokenTypeView::Comment },
    ]
}

/// The rules of MiniC.
pub fn rules() -> (r: Vec<Rule>)
    ensures
        view_all(r@) == minic_rules(),
{
    let mut rules: Vec<Rule> = Vec::new();
    rules.push(Rule { regex: r#"^\bint\b"#.to_owned(), token_type: TokenType::Fixed(Token::KeywordInt) });
    rules.push(Rule { regex: r#"^\bfloat\b"#.to_owned(), token_type: TokenType::Fixed(Token::KeywordFloat) });
    rules.push(Rule { regex: r#"^\bchar\b"#.to_owned(), token_type: TokenType::Fixed(Token::KeywordChar) });
    rules.push(Rule { regex: r#"^\bvoid\b"#.to_owned(), token_type: TokenType::Fixed(Token::KeywordVoid) });
    rules.push(Rule { regex: r#"^\breturn\b"#.to_owned(), token_type: TokenType::Fixed(Token::KeywordReturn) });
    rules.push(Rule { regex: r#"^\bif\b"#.to_owned(), token_type: TokenType::Fixed(Token::KeywordIf) });
    rules.push(Rule { regex: r#"^\belse\b"#.to_owned(), token_type: TokenType::Fixed(Token::KeywordElse) });
    rules.push(Rule { regex: r#"^\bwhile\b"#.to_owned(), token_type: TokenType::Fixed(Token::KeywordWhile) });
    rules.push(Rule { regex: r#"^\bfor\b"#.to_owned(), token_type: TokenType::Fixed(Token::KeywordFor) });
    rules.push(Rule { regex: r#"^\bstruct\b"#.to_owned(), token_type: TokenType::Fixed(Token::KeywordStruct) });
    rules.push(Rule { regex: r#"^"([^"\\]|\\.)*""#.to_owned(), token_type: TokenType::StringLit });
    rules.push(Rule { regex: r#"^'([^'\\]|\\.)'"#.to_owned(), token_type: TokenType::CharLit });
    rules.push(Rule { regex: r#"^\d+\.\d+"#.to_owned(), token_type: TokenType::Float });
    rules.push(Rule { regex: r#"^\d+"#.to_owned(), token_type: TokenType::Int });
    rules.push(Rule { regex: r#"^[a-zA-Z_]\w*"#.to_owned(), token_type: TokenType::Identifier });
    rules.push(Rule { regex: r#"^=="#.to_owned(), token_type: TokenType::Fixed(Token::EqEq) });
    rules.push(Rule { regex: r#"^!="#.to_owned(), token_type: TokenType::Fixed(Token::NotEq) });
    rules.push(Rule { regex: r#"^<="#.to_owned(), token_type: TokenType::Fixed(Token::LtEq) });
    rules.push(Rule { regex: r#"^>="#.to_owned(), token_type: TokenType::Fixed(Token::GtEq) });
    rules.push(Rule { regex: r#"^&&"#.to_owned(), token_type: TokenType::Fixed(Token::AndAnd) });
    rules.push(Rule { regex: r#"^\|\|"#.to_owned(), token_type: TokenType::Fixed(Token::OrOr) });
    rules.push(Rule { regex: r#"^<<"#.to_owned(), token_type: TokenType::Fixed(Token::Shl) });
    rules.push(Rule { regex: r#"^>>"#.to_owned(), token_type: TokenType::Fixed(Token::Shr) });
    rules.push(Rule { regex: r#"^\+"#.to_owned(), token_type: TokenType::Fixed(Token::Plus) });
    rules.push(Rule { regex: r#"^-"#.to_owned(), token_type: TokenType::Fixed(Token::Minus) });
    rules.push(Rule { regex: r#"^\*"#.to_owned(), token_type: TokenType::Fixed(Token::Star) });
    rules.push(Rule { regex: r#"^/"#.to_owned(), token_type: TokenType::Fixed(Token::Slash) });
    rules.push(Rule { regex: r#"^%"#.to_owned(), token_type: TokenType::Fixed(Token::Percent) });
    rules.push(Rule { regex: r#"^="#.to_owned(), token_type: TokenType::Fixed(Token::Assign) });
    rules.push(Rule { regex: r#"^<"#.to_owned(), token_type: TokenType::Fixed(Token::Lt) });
    rules.push(Rule { regex: r#"^>"#.to_owned(), token_type: TokenType::Fixed(Token::Gt) });
    rules.push(Rule { regex: r#"^!"#.to_owned(), token_type: TokenType::Fixed(Token::Not) });
    rules.push(Rule { regex: r#"^&"#.to_owned(), token_type: TokenType::Fixed(Token::Amp) });
    rules.push(Rule { regex: r#"^\|"#.to_owned(), token_type: TokenType::Fixed(Token::Pipe) });
    rules.push(Rule { regex: r#"^\^"#.to_owned(), token_type: TokenType::Fixed(Token::Caret) });
    rules.push(Rule { regex: r#"^\("#.to_owned(), token_type: TokenType::Fixed(Token::ParenL) });
    rules.push(Rule { regex: r#"^\)"#.to_owned(), token_type: TokenType::Fixed(Token::ParenR) });
    rules.push(Rule { regex: r#"^\{"#.to_owned(), token_type: TokenType::Fixed(Token::BraceL) });
    rules.push(Rule { regex: r#"^\}"#.to_owned(), token_type: TokenType::Fixed(Token::BraceR) });
    rules.push(Rule { regex: r#"^\["#.to_owned(), token_type: TokenType::Fixed(Token::BracketL) });
    rules.push(Rule { regex: r#"^\]"#.to_owned(), token_type: TokenType::Fixed(Token::BracketR) });
    rules.push(Rule { regex: r#"^;"#.to_owned(), token_type: TokenType::Fixed(Token::Semicolon) });
    rules.push(Rule { regex: r#"^,"#.to_owned(), token_type: TokenType::Fixed(Token::Comma) });
    rules.push(Rule { regex: r#"^//.*"#.to_owned(), token_type: TokenType::Comment });
    rules.push(Rule { regex: r#"^/\*.*?\*/"#.to_owned(), token_type: TokenType::Comment });
    assert(view_all(rules@) =~= minic_rules());
    rules
}

// ---------------------------------------------------------------------------
// What the tokenizer computes
// ---------------------------------------------------------------------------

/// The pattern of a number that runs into a name, such as `2abc`.
pub const BAD_NAME_PATTERN: &'static str = r#"^\d+[a-zA-Z_]"#;

/// The token for the digits of an integer literal; an error where they are
/// no digits, or stand for a number above `i64::MAX`.
pub open spec fn integer(text: Seq<char>) -> TokenView {
    if run_end(text, 0, CharClass::Digit) == text.len() && decimal_value(text) <= i64::MAX {
        TokenView::Int(decimal_value(text) as i64)
    } else {
        TokenView::Error("Invalid int: "@ + text)
    }
}

/// The token that a rule makes of the lexeme that its pattern matched.
pub open spec fn rule_token(token_type: TokenTypeView, lexeme: Seq<char>) -> TokenView {
    match token_type {
        TokenTypeView::Fixed(token) => token,
        TokenTypeView::StringLit => TokenView::StringLit(lexeme),
        TokenTypeView::CharLit => if lexeme.len() >= 2 {
            TokenView::CharLit(lexeme[1])
        } else {
            TokenView::Error("Invalid char: "@ + lexeme)
        },
        TokenTypeView::Float => TokenView::Float(lexeme),
        TokenTypeView::Int => integer(lexeme),
        TokenTypeView::Identifier => TokenView::Identifier(lexeme),
        TokenTypeView::Comment => TokenView::Comment(lexeme),
    }
}

/// What a match is taken for: the lexeme and the text after it, where
/// there is a match that leaves less text than there was.
pub open spec fn accepted(found: Option<(Seq<char>, Seq<char>, Seq<char>)>, length: nat) -> Option<
    (Seq<char>, Seq<char>),
> {
    match found {
        Some((_, lexeme, after)) => if after.len() < length {
            Some((lexeme, after))
        } else {
            None
        },
        None => None,
    }
}

/// What the first rule, at index `from` or after it, whose pattern matches
/// in `text` and leaves less text than there was, makes of it: its index,
/// the lexeme, and the text after it.
pub open spec fn first_rule(rules: Seq<RuleView>, text: Seq<char>, from: nat) -> Option<
    (nat, Seq<char>, Seq<char>),
>
    decreases rules.len() - from,
{
    if from >= rules.len() {
        None
    } else {
        match accepted(first_match(rules[from as int].regex, text), text.len()) {
            Some((lexeme, after)) => Some((from, lexeme, after)),
            None => first_rule(rules, text, from + 1),
        }
    }
}

/// The token for a lexeme at the head of `text`, which the rule of type
/// `token_type` matched: an error where a number runs into a name there.
pub open spec fn lexeme_token(
    token_type: TokenTypeView,
    lexeme: Seq<char>,
    bad_name: bool,
) -> TokenView {
    if bad_name {
        TokenView::Error("Invalid identifier: "@ + lexeme)
    } else {
        rule_token(token_type, lexeme)
    }
}

/// The tokens of `text` by `rules`: white space is passed over; the first
/// rule that matches makes the next token, and the text goes on after its
/// match; where no rule matches, the next character is an error of its
/// own.
pub open spec fn tokens_from(rules: Seq<RuleView>, text: Seq<char>) -> Seq<TokenView>
    decreases text.len(),
{
    let start = run_end(text, 0, CharClass::Space);
    let trimmed = text.subrange(start as int, text.len() as int);
    if start >= text.len() {
        Seq::empty()
    } else {
        match first_rule(rules, trimmed, 0) {
            Some((index, lexeme, after)) => seq![
                lexeme_token(
                    rules[index as int].token_type,
                    lexeme,
                    has_match(BAD_NAME_PATTERN@, trimmed),
                ),
            ] + (if after.len() < text.len() {
                tokens_from(rules, after)
            } else {
                Seq::empty()
            }),
            None => seq![TokenView::Error("Unexpected character: "@.push(trimmed[0]))]
                + tokens_from(rules, trimmed.subrange(1, trimmed.len() as int)),
        }
    }
}

// ---------------------------------------------------------------------------
// The tokenizer
// ---------------------------------------------------------------------------

/// The token for the digits of an integer literal.
fn integer_token(text: &str) -> (r: Token)
    ensures
        r@ == integer(text@),
{
    let chars = chars_of(text);
    let end = scan_run(&chars, 0, CharClass::Digit);
    proof {
        lemma_run_end_bound(chars@, 0, CharClass::Digit);
        assert(chars@.subrange(0, chars@.len() as int) =~= chars@);
    }
    if end == chars.len() {
        match parse_decimal(&chars, 0, end) {
            Some(n) => Token::Int(n),
            None => {
                let mut message = String::from_str("Invalid int: ");
                message.append(text);
                Token::Error(message)
            },
        }
    } else {
        let mut message = String::from_str("Invalid int: ");
        message.append(text);
        Token::Error(message)
    }
}

/// The token that a rule makes of the lexeme that its pattern matched.
pub fn make_token(token_type: &TokenType, lexeme: &str) -> (r: Token)
    ensures
        r@ == rule_token(token_type@, lexeme@),
{
    match token_type {
        TokenType::Fixed(token) => token.clone(),
        TokenType::StringLit => Token::StringLit(lexeme.to_owned()),
        TokenType::CharLit => {
            if lexeme.unicode_len() >= 2 {
                Token::CharLit(lexeme.get_char(1))
            } else {
                let mut message = String::from_str("Invalid char: ");
                message.append(lexeme);
                Token::Error(message)
            }
        },
        TokenType::Float => Token::Float(lexeme.to_owned()),
        TokenType::Int => integer_token(lexeme),
        TokenType::Identifier => Token::Identifier(lexeme.to_owned()),
        TokenType::Comment => Token::Comment(lexeme.to_owned()),
    }
}

/// Takes a match for a lexeme: answers with the lexeme and the text after
/// it, where `found` is a match in a text of `length` characters that
/// leaves less text than there was.
pub fn accept_match(found: Option<(String, String, String)>, length: usize) -> (r: Option<
    (String, String),
>)
    ensures
        match r {
            Some(m) => accepted(crate::pattern::view_match(found), length as nat) == Some(
                (m.0@, m.1@),
            ),
            None => accepted(crate::pattern::view_match(found), length as nat) is None,
        },
{
    match found {
        Some((_before, lexeme, after)) => {
            if after.as_str().unicode_len() < length {
                Some((lexeme, after))
            } else {
                None
            }
        },
        None => None,
    }
}

/// The token for a lexeme that a rule of type `token_type` matched:
/// an error where `bad_name` says that a number runs into a name there.
pub fn token_of_lexeme(token_type: &TokenType, lexeme: &str, bad_name: bool) -> (r: Token)
    ensures
        r@ == lexeme_token(token_type@, lexeme@, bad_name),
{
    if bad_name {
        let mut message = String::from_str("Invalid identifier: ");
        message.append(lexeme);
        Token::Error(message)
    } else {
        make_token(token_type, lexeme)
    }
}

/// The first rule whose pattern matches in `text` and leaves less text
/// than there was: its index, the lexeme, and the text after it.
fn find_rule(rules: &Vec<Rule>, text: &str) -> (r: Option<(usize, String, String)>)
    ensures
        match r {
            Some(m) => m.0 < rules@.len() && first_rule(view_all(rules@), text@, 0) == Some(
                (m.0 as nat, m.1@, m.2@),
            ) && m.2@.len() < text@.len(),
            None => first_rule(view_all(rules@), text@, 0) is None,
        },
{
    let length = text.unicode_len();
    let mut i: usize = 0;
    while i < rules.len()
        invariant
            i <= rules@.len(),
            length == text@.len(),
            first_rule(view_all(rules@), text@, 0) == first_rule(view_all(rules@), text@, i as nat),
        decreases rules@.len() - i,
    {
        assert(view_all(rules@)[i as int] == rules@[i as int]@);
        match accept_match(find(rules[i].regex.as_str(), text), length) {
            Some((lexeme, after)) => {
                return Some((i, lexeme, after));
            },
            None => {},
        }
        i += 1;
    }
    None
}

/// The tokens of `input` by `rules`.
pub fn lex_with(rules: &Vec<Rule>, input: &str) -> (r: Vec<Token>)
    ensures
        view_all(r@) == tokens_from(view_all(rules@), input@),
{
    let mut tokens: Vec<Token> = Vec::new();
    assert(view_all(tokens@) =~= Seq::<TokenView>::empty());
    let mut rest: String = input.to_owned();
    loop
        invariant
            tokens_from(view_all(rules@), input@) == view_all(tokens@) + tokens_from(
                view_all(rules@),
                rest@,
            ),
        decreases rest@.len(),
    {
        let ghost before = view_all(tokens@);
        let ghost specs = view_all(rules@);
        let chars = chars_of(rest.as_str());
        let start = scan_run(&chars, 0, CharClass::Space);
        if start >= chars.len() {
            assert(before + Seq::<TokenView>::empty() =~= before);
            return tokens;
        }
        let trimmed = text_of(rest.as_str(), start, chars.len());
        match find_rule(rules, trimmed.as_str()) {
            Some((index, lexeme, after)) => {
                assert(specs[index as int] == rules@[index as int]@);
                let bad_name = is_match(BAD_NAME_PATTERN, trimmed.as_str());
                let token = token_of_lexeme(&rules[index].token_type, lexeme.as_str(), bad_name);
                tokens.push(token);
                assert(view_all(tokens@) =~= before.push(token@));
                assert(before.push(token@) + tokens_from(specs, after@) =~= before + (seq![token@]
                    + tokens_from(specs, after@)));
                rest = after;
            },
            None => {
                let mut message = String::from_str("Unexpected character: ");
                message.append(trimmed.as_str().substring_char(0, 1));
                assert(message@ =~= "Unexpected character: "@.push(trimmed@[0]));
                let token = Token::Error(message);
                let after = text_of(trimmed.as_str(), 1, chars.len() - start);
                tokens.push(token);
                assert(view_all(tokens@) =~= before.push(token@));
                assert(before.push(token@) + tokens_from(specs, after@) =~= before + (seq![token@]
                    + tokens_from(specs, after@)));
                rest = after;
            },
        }
    }
}

/// The tokens of `input` by the rules of MiniC.
pub fn lex(input: &str) -> (r: Vec<Token>)
    ensures
        view_all(r@) == tokens_from(minic_rules(), input@),
{
    let table = rules();
    lex_with(&table, input)
}

} // verus!
