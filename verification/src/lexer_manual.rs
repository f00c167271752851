//! A tokenizer written by hand: one pass over the characters, no pattern
//! library.

use crate::parser::ast::view_all;
use crate::text::{
    chars_of, decimal_value, in_class, is_digit, lemma_run_end_bound, parse_decimal, run_end,
    scan_run, signed_decimal, signed_decimal_text, text_of, truth, truth_text, CharClass,
};
use vstd::prelude::*;
use vstd::std_specs::cmp::PartialEqSpecImpl;
use vstd::string::*;

verus! {

/// One lexical unit of the hand-written tokenizer. Names, literals, comments
/// and errors carry their text; a floating-point literal carries the digits
/// it was written with.
#[derive(Debug)]
pub enum Token {
    Function,
    Int,
    Float,
    String,
    Bool,
    Identifier(String),
    IntLit(i64),
    FloatLit(String),
    StringLit(String),
    BoolLit(bool),
    Return,
    If,
    Else,
    While,
    For,
    AssignOp,
    EqualsOp,
    NotEqualsOp,
    LessEqOp,
    GreaterEqOp,
    LessOp,
    GreaterOp,
    AndOp,
    OrOp,
    BitAndOp,
    BitOrOp,
    ParenL,
    ParenR,
    BraceL,
    BraceR,
    BracketL,
    BracketR,
    Comma,
    Semicolon,
    Quotes,
    Comment(String),
    Error(String),
}

/// A token as a mathematical value: its text is a sequence of characters.
pub enum TokenView {
    Function,
    Int,
    Float,
    String,
    Bool,
    Identifier(Seq<char>),
    IntLit(i64),
    FloatLit(Seq<char>),
    StringLit(Seq<char>),
    BoolLit(bool),
    Return,
    If,
    Else,
    While,
    For,
    AssignOp,
    EqualsOp,
    NotEqualsOp,
    LessEqOp,
    GreaterEqOp,
    LessOp,
    GreaterOp,
    AndOp,
    OrOp,
    BitAndOp,
    BitOrOp,
    ParenL,
    ParenR,
    BraceL,
    BraceR,
    BracketL,
    BracketR,
    Comma,
    Semicolon,
    Quotes,
    Comment(Seq<char>),
    Error(Seq<char>),
}

impl View for Token {
    type V = TokenView;

    open spec fn view(&self) -> TokenView {
        match self {
            Token::Function => TokenView::Function,
            Token::Int => TokenView::Int,
            Token::Float => TokenView::Float,
            Token::String => TokenView::String,
            Token::Bool => TokenView::Bool,
            Token::Identifier(a) => TokenView::Identifier(a@),
            Token::IntLit(a) => TokenView::IntLit(*a),
            Token::FloatLit(a) => TokenView::FloatLit(a@),
            Token::StringLit(a) => TokenView::StringLit(a@),
            Token::BoolLit(a) => TokenView::BoolLit(*a),
            Token::Return => TokenView::Return,
            Token::If => TokenView::If,
            Token::Else => TokenView::Else,
            Token::While => TokenView::While,
            Token::For => TokenView::For,
            Token::AssignOp => TokenView::AssignOp,
            Token::EqualsOp => TokenView::EqualsOp,
            Token::NotEqualsOp => TokenView::NotEqualsOp,
            Token::LessEqOp => TokenView::LessEqOp,
            Token::GreaterEqOp => TokenView::GreaterEqOp,
            Token::LessOp => TokenView::LessOp,
            Token::GreaterOp => TokenView::GreaterOp,
            Token::AndOp => TokenView::AndOp,
            Token::OrOp => TokenView::OrOp,
            Token::BitAndOp => TokenView::BitAndOp,
            Token::BitOrOp => TokenView::BitOrOp,
            Token::ParenL => TokenView::ParenL,
            Token::ParenR => TokenView::ParenR,
            Token::BraceL => TokenView::BraceL,
            Token::BraceR => TokenView::BraceR,
            Token::BracketL => TokenView::BracketL,
            Token::BracketR => TokenView::BracketR,
            Token::Comma => TokenView::Comma,
            Token::Semicolon => TokenView::Semicolon,
            Token::Quotes => TokenView::Quotes,
            Token::Comment(a) => TokenView::Comment(a@),
            Token::Error(a) => TokenView::Error(a@),
        }
    }
}

impl Token {
    /// Equality of tokens: the same variant, carrying the same text or number.
    pub open spec fn same(self, other: Token) -> bool {
        match (self, other) {
            (Token::Identifier(a), Token::Identifier(b)) => a@ == b@,
            (Token::IntLit(a), Token::IntLit(b)) => a == b,
            (Token::FloatLit(a), Token::FloatLit(b)) => a@ == b@,
            (Token::StringLit(a), Token::StringLit(b)) => a@ == b@,
            (Token::BoolLit(a), Token::BoolLit(b)) => a == b,
            (Token::Comment(a), Token::Comment(b)) => a@ == b@,
            (Token::Error(a), Token::Error(b)) => a@ == b@,
            _ => self == other,
        }
    }
}

impl Clone for Token {
    fn clone(&self) -> (r: Self)
        ensures
            r == *self,
    {
        match self {
            Token::Function => Token::Function,
            Token::Int => Token::Int,
            Token::Float => Token::Float,
            Token::String => Token::String,
            Token::Bool => Token::Bool,
            Token::Identifier(a) => Token::Identifier(a.clone()),
            Token::IntLit(a) => Token::IntLit(*a),
            Token::FloatLit(a) => Token::FloatLit(a.clone()),
            Token::StringLit(a) => Token::StringLit(a.clone()),
            Token::BoolLit(a) => Token::BoolLit(*a),
            Token::Return => Token::Return,
            Token::If => Token::If,
            Token::Else => Token::Else,
            Token::While => Token::While,
            Token::For => Token::For,
            Token::AssignOp => Token::AssignOp,
            Token::EqualsOp => Token::EqualsOp,
            Token::NotEqualsOp => Token::NotEqualsOp,
            Token::LessEqOp => Token::LessEqOp,
            Token::GreaterEqOp => Token::GreaterEqOp,
            Token::LessOp => Token::LessOp,
            Token::GreaterOp => Token::GreaterOp,
            Token::AndOp => Token::AndOp,
            Token::OrOp => Token::OrOp,
            Token::BitAndOp => Token::BitAndOp,
            Token::BitOrOp => Token::BitOrOp,
            Token::ParenL => Token::ParenL,
            Token::ParenR => Token::ParenR,
            Token::BraceL => Token::BraceL,
            Token::BraceR => Token::BraceR,
            Token::BracketL => Token::BracketL,
            Token::BracketR => Token::BracketR,
            Token::Comma => Token::Comma,
            Token::Semicolon => Token::Semicolon,
            Token::Quotes => Token::Quotes,
            Token::Comment(a) => Token::Comment(a.clone()),
            Token::Error(a) => Token::Error(a.clone()),
        }
    }
}

impl PartialEq for Token {
    fn eq(&self, other: &Token) -> (r: bool) {
        match (self, other) {
            (Token::Function, Token::Function) => true,
            (Token::Int, Token::Int) => true,
            (Token::Float, Token::Float) => true,
            (Token::String, Token::String) => true,
            (Token::Bool, Token::Bool) => true,
            (Token::Identifier(a), Token::Identifier(b)) => *a == *b,
            (Token::IntLit(a), Token::IntLit(b)) => *a == *b,
            (Token::FloatLit(a), Token::FloatLit(b)) => *a == *b,
            (Token::StringLit(a), Token::StringLit(b)) => *a == *b,
            (Token::BoolLit(a), Token::BoolLit(b)) => *a == *b,
            (Token::Return, Token::Return) => true,
            (Token::If, Token::If) => true,
            (Token::Else, Token::Else) => true,
            (Token::While, Token::While) => true,
            (Token::For, Token::For) => true,
            (Token::AssignOp, Token::AssignOp) => true,
            (Token::EqualsOp, Token::EqualsOp) => true,
            (Token::NotEqualsOp, Token::NotEqualsOp) => true,
            (Token::LessEqOp, Token::LessEqOp) => true,
            (Token::GreaterEqOp, Token::GreaterEqOp) => true,
            (Token::LessOp, Token::LessOp) => true,
            (Token::GreaterOp, Token::GreaterOp) => true,
            (Token::AndOp, Token::AndOp) => true,
            (Token::OrOp, Token::OrOp) => true,
            (Token::BitAndOp, Token::BitAndOp) => true,
            (Token::BitOrOp, Token::BitOrOp) => true,
            (Token::ParenL, Token::ParenL) => true,
            (Token::ParenR, Token::ParenR) => true,
            (Token::BraceL, Token::BraceL) => true,
            (Token::BraceR, Token::BraceR) => true,
            (Token::BracketL, Token::BracketL) => true,
            (Token::BracketR, Token::BracketR) => true,
            (Token::Comma, Token::Comma) => true,
            (Token::Semicolon, Token::Semicolon) => true,
            (Token::Quotes, Token::Quotes) => true,
            (Token::Comment(a), Token::Comment(b)) => *a == *b,
            (Token::Error(a), Token::Error(b)) => *a == *b,
            _ => false,
        }
    }
}

impl PartialEqSpecImpl for Token {
    open spec fn obeys_eq_spec() -> bool {
        true
    }

    open spec fn eq_spec(&self, other: &Token) -> bool {
        self.same(*other)
    }
}

// ---------------------------------------------------------------------------
// What the tokenizer computes
// ---------------------------------------------------------------------------

/// The keyword that a word is, if it is one.
pub open spec fn keyword(word: Seq<char>) -> Option<TokenView> {
    if word == "fn"@ {
        Some(TokenView::Function)
    } else if word == "int"@ {
        Some(TokenView::Int)
    } else if word == "float"@ {
        Some(TokenView::Float)
    } else if word == "string"@ {
        Some(TokenView::String)
    } else if word == "bool"@ {
        Some(TokenView::Bool)
    } else if word == "return"@ {
        Some(TokenView::Return)
    } else if word == "if"@ {
        Some(TokenView::If)
    } else if word == "else"@ {
        Some(TokenView::Else)
    } else if word == "while"@ {
        Some(TokenView::While)
    } else if word == "for"@ {
        Some(TokenView::For)
    } else {
        None
    }
}

/// The character that stands after a backslash in a string literal for:
/// `n` for a line feed, `t` for a tabulator, any other for itself.
pub open spec fn unescape(c: char) -> char {
    if c == 'n' {
        '\n'
    } else if c == 't' {
        '\t'
    } else {
        c
    }
}

/// The text of a string literal after the characters in `text`, from `pos`
/// up to the closing quote or the end, and the position after it.
/// `escaped` says whether a backslash stands before `pos`.
pub open spec fn string_body(chars: Seq<char>, pos: nat, text: Seq<char>, escaped: bool) -> (
    Seq<char>,
    nat,
)
    decreases chars.len() - pos,
{
    if pos >= chars.len() {
        (text, pos)
    } else if escaped {
        string_body(chars, pos + 1, text.push(unescape(chars[pos as int])), false)
    } else if chars[pos as int] == '\\' {
        string_body(chars, pos + 1, text, true)
    } else if chars[pos as int] == '"' {
        (text, pos + 1)
    } else {
        string_body(chars, pos + 1, text.push(chars[pos as int]), false)
    }
}

/// The token that two characters make together, if they make one.
pub open spec fn double_operator(first: char, second: char) -> Option<TokenView> {
    if first == '=' && second == '=' {
        Some(TokenView::EqualsOp)
    } else if first == '!' && second == '=' {
        Some(TokenView::NotEqualsOp)
    } else if first == '<' && second == '=' {
        Some(TokenView::LessEqOp)
    } else if first == '>' && second == '=' {
        Some(TokenView::GreaterEqOp)
    } else if first == '&' && second == '&' {
        Some(TokenView::AndOp)
    } else if first == '|' && second == '|' {
        Some(TokenView::OrOp)
    } else {
        None
    }
}

/// The token that a character makes alone; an error for a character that
/// makes none.
pub open spec fn single_operator(c: char) -> TokenView {
    if c == '=' {
        TokenView::AssignOp
    } else if c == '<' {
        TokenView::LessOp
    } else if c == '>' {
        TokenView::GreaterOp
    } else if c == '&' {
        TokenView::BitAndOp
    } else if c == '|' {
        TokenView::BitOrOp
    } else if c == '(' {
        TokenView::ParenL
    } else if c == ')' {
        TokenView::ParenR
    } else if c == '{' {
        TokenView::BraceL
    } else if c == '}' {
        TokenView::BraceR
    } else if c == '[' {
        TokenView::BracketL
    } else if c == ']' {
        TokenView::BracketR
    } else if c == ',' {
        TokenView::Comma
    } else if c == ';' {
        TokenView::Semicolon
    } else {
        TokenView::Error("Unknown char: "@.push(c))
    }
}

/// The token for the digits from `from` up to `to`: an integer literal,
/// or an error where the number is above `i64::MAX`.
pub open spec fn integer(chars: Seq<char>, from: nat, to: nat) -> TokenView {
    let digits = chars.subrange(from as int, to as int);
    if decimal_value(digits) <= i64::MAX {
        TokenView::IntLit(decimal_value(digits) as i64)
    } else {
        TokenView::Error("Invalid int: "@ + digits)
    }
}

/// The token at `pos`, if one begins there, and the position after it.
/// White space makes no token.
///
/// - `//` begins a comment that runs to the end of the line;
/// - a letter or `_` begins a word, which is a keyword or a name;
/// - a digit begins a number: digits, then perhaps `.` and digits, which
///   make it a floating-point literal;
/// - `"` begins a string literal that runs to the next `"` that no
///   backslash stands before, or to the end;
/// - `== != <= >= && ||` are operators of two characters;
/// - any other character is a token of its own, or an error.
pub open spec fn token_at(chars: Seq<char>, pos: nat) -> (Option<TokenView>, nat) {
    let c = chars[pos as int];
    if in_class(CharClass::Space, c) {
        (None, pos + 1)
    } else if c == '/' && pos + 1 < chars.len() && chars[(pos + 1) as int] == '/' {
        let end = run_end(chars, pos + 2, CharClass::InLine);
        (Some(TokenView::Comment(chars.subrange(pos as int, end as int))), end)
    } else if in_class(CharClass::WordStart, c) {
        let end = run_end(chars, pos + 1, CharClass::Word);
        let word = chars.subrange(pos as int, end as int);
        (
            Some(
                match keyword(word) {
                    Some(k) => k,
                    None => TokenView::Identifier(word),
                },
            ),
            end,
        )
    } else if is_digit(c) {
        let whole = run_end(chars, pos + 1, CharClass::Digit);
        if whole < chars.len() && chars[whole as int] == '.' {
            let end = run_end(chars, whole + 1, CharClass::Digit);
            (Some(TokenView::FloatLit(chars.subrange(pos as int, end as int))), end)
        } else {
            (Some(integer(chars, pos, whole)), whole)
        }
    } else if c == '"' {
        let body = string_body(chars, pos + 1, Seq::empty(), false);
        (Some(TokenView::StringLit(body.0)), body.1)
    } else if pos + 1 < chars.len() && double_operator(c, chars[(pos + 1) as int]) is Some {
        (double_operator(c, chars[(pos + 1) as int]), pos + 2)
    } else {
        (Some(single_operator(c)), pos + 1)
    }
}

/// The tokens of the text from `pos` on.
pub open spec fn tokens_from(chars: Seq<char>, pos: nat) -> Seq<TokenView>
    decreases chars.len() - pos,
{
    if pos >= chars.len() {
        Seq::empty()
    } else {
        let (token, next) = token_at(chars, pos);
        let rest = if pos < next <= chars.len() {
            tokens_from(chars, next)
        } else {
            Seq::empty()
        };
        match token {
            Some(t) => seq![t] + rest,
            None => rest,
        }
    }
}

/// The tokens of a text.
pub open spec fn tokens_of(chars: Seq<char>) -> Seq<TokenView> {
    tokens_from(chars, 0)
}

/// A string literal ends after the position where its text begins, or at
/// the end of the text.
pub proof fn lemma_string_body_bound(chars: Seq<char>, pos: nat, text: Seq<char>, escaped: bool)
    requires
        pos <= chars.len(),
    ensures
        pos <= string_body(chars, pos, text, escaped).1 <= chars.len(),
    decreases chars.len() - pos,
{
    if pos >= chars.len() {
    } else if escaped {
        lemma_string_body_bound(chars, pos + 1, text.push(unescape(chars[pos as int])), false);
    } else if chars[pos as int] == '\\' {
        lemma_string_body_bound(chars, pos + 1, text, true);
    } else if chars[pos as int] == '"' {
    } else {
        lemma_string_body_bound(chars, pos + 1, text.push(chars[pos as int]), false);
    }
}

/// Every token consumes at least one character and ends within the text.
pub proof fn lemma_token_advances(chars: Seq<char>, pos: nat)
    requires
        pos < chars.len(),
    ensures
        pos < token_at(chars, pos).1 <= chars.len(),
{
    lemma_run_end_bound(chars, pos + 1, CharClass::Word);
    lemma_run_end_bound(chars, pos + 1, CharClass::Digit);
    let whole = run_end(chars, pos + 1, CharClass::Digit);
    if whole < chars.len() {
        lemma_run_end_bound(chars, whole + 1, CharClass::Digit);
    }
    if pos + 2 <= chars.len() {
        lemma_run_end_bound(chars, pos + 2, CharClass::InLine);
    }
    lemma_string_body_bound(chars, pos + 1, Seq::empty(), false);
}

// ---------------------------------------------------------------------------
// The tokenizer
// ---------------------------------------------------------------------------

/// The keyword that a word is, if it is one.
pub fn is_keyword(s: &str) -> (r: Option<Token>)
    ensures
        crate::parser::ast::view_opt(r) == keyword(s@),
{
    if crate::text::str_eq(s, "fn") {
        Some(Token::Function)
    } else if crate::text::str_eq(s, "int") {
        Some(Token::Int)
    } else if crate::text::str_eq(s, "float") {
        Some(Token::Float)
    } else if crate::text::str_eq(s, "string") {
        Some(Token::String)
    } else if crate::text::str_eq(s, "bool") {
        Some(Token::Bool)
    } else if crate::text::str_eq(s, "return") {
        Some(Token::Return)
    } else if crate::text::str_eq(s, "if") {
        Some(Token::If)
    } else if crate::text::str_eq(s, "else") {
        Some(Token::Else)
    } else if crate::text::str_eq(s, "while") {
        Some(Token::While)
    } else if crate::text::str_eq(s, "for") {
        Some(Token::For)
    } else {
        None
    }
}

/// Reads the text of a string literal, from the position after its opening
/// quote.
fn scan_string(input: &str, chars: &Vec<char>, pos: usize) -> (r: (String, usize))
    requires
        chars@ == input@,
        pos <= chars@.len(),
    ensures
        (r.0@, r.1 as nat) == string_body(chars@, pos as nat, Seq::empty(), false),
        pos <= r.1 <= chars@.len(),
{
    let mut text = String::new();
    let mut escape = false;
    let mut i = pos;
    while i < chars.len()
        invariant
            chars@ == input@,
            pos <= i <= chars@.len(),
            string_body(chars@, pos as nat, Seq::empty(), false) == string_body(
                chars@,
                i as nat,
                text@,
                escape,
            ),
        decreases chars@.len() - i,
    {
        let ch = chars[i];
        let ghost before = text@;
        if escape {
            if ch == 'n' {
                proof {
                    reveal_strlit("\n");
                }
                text.append("\n");
                assert(text@ =~= before.push('\n'));
            } else if ch == 't' {
                proof {
                    reveal_strlit("\t");
                }
                text.append("\t");
                assert(text@ =~= before.push('\t'));
            } else {
                text.append(input.substring_char(i, i + 1));
                assert(text@ =~= before.push(ch));
            }
            escape = false;
        } else if ch == '\\' {
            escape = true;
        } else if ch == '"' {
            return (text, i + 1);
        } else {
            text.append(input.substring_char(i, i + 1));
            assert(text@ =~= before.push(ch));
        }
        i += 1;
    }
    (text, i)
}

/// The token that two characters make together, if they make one.
fn scan_double_operator(first: char, second: char) -> (r: Option<Token>)
    ensures
        crate::parser::ast::view_opt(r) == double_operator(first, second),
{
    if first == '=' && second == '=' {
        Some(Token::EqualsOp)
    } else if first == '!' && second == '=' {
        Some(Token::NotEqualsOp)
    } else if first == '<' && second == '=' {
        Some(Token::LessEqOp)
    } else if first == '>' && second == '=' {
        Some(Token::GreaterEqOp)
    } else if first == '&' && second == '&' {
        Some(Token::AndOp)
    } else if first == '|' && second == '|' {
        Some(Token::OrOp)
    } else {
        None
    }
}

/// The token that the character at `pos` makes alone.
fn scan_single_operator(input: &str, chars: &Vec<char>, pos: usize) -> (r: Token)
    requires
        chars@ == input@,
        pos < chars@.len(),
    ensures
        r@ == single_operator(chars@[pos as int]),
{
    let c = chars[pos];
    if c == '=' {
        Token::AssignOp
    } else if c == '<' {
        Token::LessOp
    } else if c == '>' {
        Token::GreaterOp
    } else if c == '&' {
        Token::BitAndOp
    } else if c == '|' {
        Token::BitOrOp
    } else if c == '(' {
        Token::ParenL
    } else if c == ')' {
        Token::ParenR
    } else if c == '{' {
        Token::BraceL
    } else if c == '}' {
        Token::BraceR
    } else if c == '[' {
        Token::BracketL
    } else if c == ']' {
        Token::BracketR
    } else if c == ',' {
        Token::Comma
    } else if c == ';' {
        Token::Semicolon
    } else {
        assert(pos < chars.len());
        let mut message = String::from_str("Unknown char: ");
        message.append(input.substring_char(pos, pos + 1));
        assert(message@ =~= "Unknown char: "@.push(c));
        Token::Error(message)
    }
}

/// Reads the token that begins at `pos`, if one does.
fn scan_token(input: &str, chars: &Vec<char>, pos: usize) -> (r: (Option<Token>, usize))
    requires
        chars@ == input@,
        pos < chars@.len(),
    ensures
        (crate::parser::ast::view_opt(r.0), r.1 as nat) == token_at(chars@, pos as nat),
        pos < r.1 <= chars@.len(),
{
    proof {
        lemma_token_advances(chars@, pos as nat);
    }
    assert(pos < chars.len());
    let c = chars[pos];
    if crate::text::char_in_class(CharClass::Space, c) {
        (None, pos + 1)
    } else if c == '/' && pos + 1 < chars.len() && chars[pos + 1] == '/' {
        let end = scan_run(chars, pos + 2, CharClass::InLine);
        (Some(Token::Comment(text_of(input, pos, end))), end)
    } else if crate::text::char_in_class(CharClass::WordStart, c) {
        let end = scan_run(chars, pos + 1, CharClass::Word);
        let word = text_of(input, pos, end);
        let token = match is_keyword(word.as_str()) {
            Some(k) => k,
            None => Token::Identifier(word),
        };
        (Some(token), end)
    } else if crate::text::char_in_class(CharClass::Digit, c) {
        let whole = scan_run(chars, pos + 1, CharClass::Digit);
        if whole < chars.len() && chars[whole] == '.' {
            let end = scan_run(chars, whole + 1, CharClass::Digit);
            (Some(Token::FloatLit(text_of(input, pos, end))), end)
        } else {
            proof {
                lemma_run_end_bound(chars@, (pos + 1) as nat, CharClass::Digit);
            }
            let token = match parse_decimal(chars, pos, whole) {
                Some(n) => Token::IntLit(n),
                None => {
                    let mut message = String::from_str("Invalid int: ");
                    message.append(input.substring_char(pos, whole));
                    Token::Error(message)
                },
            };
            (Some(token), whole)
        }
    } else if c == '"' {
        let (text, end) = scan_string(input, chars, pos + 1);
        proof {
            lemma_string_body_bound(chars@, (pos + 1) as nat, Seq::empty(), false);
        }
        (Some(Token::StringLit(text)), end)
    } else {
        let double = if pos + 1 < chars.len() {
            scan_double_operator(c, chars[pos + 1])
        } else {
            None
        };
        match double {
            Some(token) => (Some(token), pos + 2),
            None => (Some(scan_single_operator(input, chars, pos)), pos + 1),
        }
    }
}

/// The tokens of `input`.
pub fn lex_manual(input: &str) -> (r: Vec<Token>)
    ensures
        view_all(r@) == tokens_of(input@),
{
    let chars = chars_of(input);
    let mut tokens: Vec<Token> = Vec::new();
    assert(view_all(tokens@) =~= Seq::<TokenView>::empty());
    let mut i: usize = 0;
    while i < chars.len()
        invariant
            chars@ == input@,
            i <= chars@.len(),
            tokens_of(chars@) == view_all(tokens@) + tokens_from(chars@, i as nat),
        decreases chars@.len() - i,
    {
        let ghost before = view_all(tokens@);
        let (token, next) = scan_token(input, &chars, i);
        match token {
            Some(t) => {
                tokens.push(t);
                assert(view_all(tokens@) =~= before.push(t@));
                assert(before.push(t@) + tokens_from(chars@, next as nat) =~= before + (seq![t@]
                    + tokens_from(chars@, next as nat)));
            },
            None => {},
        }
        i = next;
    }
    assert(view_all(tokens@) + tokens_from(chars@, i as nat) =~= view_all(tokens@));
    tokens
}

// ---------------------------------------------------------------------------
// Labels
// ---------------------------------------------------------------------------

/// A label with a text in quotes and parentheses after it.
pub open spec fn quoted(name: Seq<char>, text: Seq<char>) -> Seq<char> {
    name + "(\""@ + text + "\")"@
}

/// A label with a text in parentheses after it.
pub open spec fn bracketed(name: Seq<char>, text: Seq<char>) -> Seq<char> {
    name + "("@ + text + ")"@
}

/// The label of a token in a listing: `T_` and the name of its kind in
/// capitals, then, for a token that carries one, its text in quotes or its
/// number, in parentheses. A floating-point literal is shown with the
/// digits it was written with.
pub open spec fn label(token: TokenView) -> Seq<char> {
    match token {
        TokenView::Function => "T_FUNCTION"@,
        TokenView::Int => "T_INT"@,
        TokenView::Float => "T_FLOAT"@,
        TokenView::String => "T_STRING"@,
        TokenView::Bool => "T_BOOL"@,
        TokenView::Identifier(a) => quoted("T_IDENTIFIER"@, a),
        TokenView::IntLit(a) => bracketed("T_INTLIT"@, signed_decimal(a as int)),
        TokenView::FloatLit(a) => bracketed("T_FLOATLIT"@, a),
        TokenView::StringLit(a) => quoted("T_STRINGLIT"@, a),
        TokenView::BoolLit(a) => bracketed("T_BOOLLIT"@, truth(a)),
        TokenView::Return => "T_RETURN"@,
        TokenView::If => "T_IF"@,
        TokenView::Else => "T_ELSE"@,
        TokenView::While => "T_WHILE"@,
        TokenView::For => "T_FOR"@,
        TokenView::AssignOp => "T_ASSIGNOP"@,
        TokenView::EqualsOp => "T_EQUALSOP"@,
        TokenView::NotEqualsOp => "T_NOTEQUALSOP"@,
        TokenView::LessEqOp => "T_LESSEQOP"@,
        TokenView::GreaterEqOp => "T_GREATEREQOP"@,
        TokenView::LessOp => "T_LESSOP"@,
        TokenView::GreaterOp => "T_GREATEROP"@,
        TokenView::AndOp => "T_ANDOP"@,
        TokenView::OrOp => "T_OROP"@,
        TokenView::BitAndOp => "T_BITANDOP"@,
        TokenView::BitOrOp => "T_BITOROP"@,
        TokenView::ParenL => "T_PARENL"@,
        TokenView::ParenR => "T_PARENR"@,
        TokenView::BraceL => "T_BRACEL"@,
        TokenView::BraceR => "T_BRACER"@,
        TokenView::BracketL => "T_BRACKETL"@,
        TokenView::BracketR => "T_BRACKETR"@,
        TokenView::Comma => "T_COMMA"@,
        TokenView::Semicolon => "T_SEMICOLON"@,
        TokenView::Quotes => "T_QUOTES"@,
        TokenView::Comment(a) => quoted("T_COMMENT"@, a),
        TokenView::Error(a) => quoted("T_ERROR"@, a),
    }
}

/// A label with a text in quotes and parentheses after it.
fn quote(name: &str, text: &str) -> (r: String)
    ensures
        r@ == quoted(name@, text@),
{
    let mut r = name.to_owned();
    r.append("(\"");
    r.append(text);
    r.append("\")");
    r
}

/// A label with a text in parentheses after it.
fn bracket(name: &str, text: &str) -> (r: String)
    ensures
        r@ == bracketed(name@, text@),
{
    let mut r = name.to_owned();
    r.append("(");
    r.append(text);
    r.append(")");
    r
}

impl Token {
    /// The label of the token in a listing.
    pub fn label(&self) -> (r: String)
        ensures
            r@ == label(self@),
    {
        match self {
            Token::Function => "T_FUNCTION".to_owned(),
            Token::Int => "T_INT".to_owned(),
            Token::Float => "T_FLOAT".to_owned(),
            Token::String => "T_STRING".to_owned(),
            Token::Bool => "T_BOOL".to_owned(),
            Token::Identifier(a) => quote("T_IDENTIFIER", a.as_str()),
            Token::IntLit(a) => bracket("T_INTLIT", signed_decimal_text(*a).as_str()),
            Token::FloatLit(a) => bracket("T_FLOATLIT", a.as_str()),
            Token::StringLit(a) => quote("T_STRINGLIT", a.as_str()),
            Token::BoolLit(a) => bracket("T_BOOLLIT", truth_text(*a)),
            Token::Return => "T_RETURN".to_owned(),
            Token::If => "T_IF".to_owned(),
            Token::Else => "T_ELSE".to_owned(),
            Token::While => "T_WHILE".to_owned(),
            Token::For => "T_FOR".to_owned(),
            Token::AssignOp => "T_ASSIGNOP".to_owned(),
            Token::EqualsOp => "T_EQUALSOP".to_owned(),
            Token::NotEqualsOp => "T_NOTEQUALSOP".to_owned(),
            Token::LessEqOp => "T_LESSEQOP".to_owned(),
            Token::GreaterEqOp => "T_GREATEREQOP".to_owned(),
            Token::LessOp => "T_LESSOP".to_owned(),
            Token::GreaterOp => "T_GREATEROP".to_owned(),
            Token::AndOp => "T_ANDOP".to_owned(),
            Token::OrOp => "T_OROP".to_owned(),
            Token::BitAndOp => "T_BITANDOP".to_owned(),
            Token::BitOrOp => "T_BITOROP".to_owned(),
            Token::ParenL => "T_PARENL".to_owned(),
            Token::ParenR => "T_PARENR".to_owned(),
            Token::BraceL => "T_BRACEL".to_owned(),
            Token::BraceR => "T_BRACER".to_owned(),
            Token::BracketL => "T_BRACKETL".to_owned(),
            Token::BracketR => "T_BRACKETR".to_owned(),
            Token::Comma => "T_COMMA".to_owned(),
            Token::Semicolon => "T_SEMICOLON".to_owned(),
            Token::Quotes => "T_QUOTES".to_owned(),
            Token::Comment(a) => quote("T_COMMENT", a.as_str()),
            Token::Error(a) => quote("T_ERROR", a.as_str()),
        }
    }
}

} // verus!
