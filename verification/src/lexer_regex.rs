//! The tokens of MiniC, as the parser consumes them, and the tokenizer
//! that finds them with one pattern.

use crate::parser::ast::{view_all, view_opt};
use crate::pattern::{capture_groups, captures, find, first_match, view_text};
use crate::text::{
    chars_of, decimal_digits, decimal_text, decimal_value, lemma_run_end_bound, signed_decimal,
    signed_decimal_text, truth, truth_text,
    parse_decimal, run_end, scan_run, str_eq, text_of, CharClass,
};
use vstd::prelude::*;
use vstd::std_specs::cmp::PartialEqSpecImpl;
use vstd::string::*;

verus! {

/// One lexical unit. Identifiers, literals, comments, preprocessor names and
/// lexer errors carry their text; a floating-point literal carries the digits
/// it was written with.
#[derive(Debug)]
pub enum Token {
    Function,
    Int,
    Float,
    String,
    Bool,
    Identifier(String),
    IntLit(i64),
    FloatLit(String),
    StringLit(String),
    BoolLit(bool),
    Return,
    If,
    Else,
    While,
    For,
    AssignOp,
    EqualsOp,
    NotEqualsOp,
    LessEqOp,
    GreaterEqOp,
    LessOp,
    GreaterOp,
    AndOp,
    OrOp,
    BitAndOp,
    BitOrOp,
    ParenL,
    ParenR,
    BraceL,
    BraceR,
    BracketL,
    BracketR,
    Comma,
    Semicolon,
    Quotes,
    Colon,
    Plus,
    Minus,
    Mult,
    Div,
    Mod,
    Xor,
    Not,
    Question,
    Dot,
    Arrow,
    PlusPlus,
    MinusMinus,
    PlusAssign,
    MinusAssign,
    MultAssign,
    DivAssign,
    ModAssign,
    LShiftAssign,
    RShiftAssign,
    AndAssign,
    XorAssign,
    OrAssign,
    LShift,
    RShift,
    Hash,
    Comment(String),
    BlockComment(String),
    Preprocessor(String),
    Enum,
    Struct,
    Typedef,
    Static,
    Const,
    Volatile,
    Extern,
    Auto,
    Register,
    Case,
    Default,
    Break,
    Continue,
    Goto,
    Switch,
    Do,
    Union,
    Signed,
    Unsigned,
    Short,
    Long,
    Double,
    Char,
    Void,
    Error(String),
}

/// A token as a mathematical value: its text is a sequence of characters.
pub enum TokenView {
    Function,
    Int,
    Float,
    String,
    Bool,
    Identifier(Seq<char>),
    IntLit(i64),
    FloatLit(Seq<char>),
    StringLit(Seq<char>),
    BoolLit(bool),
    Return,
    If,
    Else,
    While,
    For,
    AssignOp,
    EqualsOp,
    NotEqualsOp,
    LessEqOp,
    GreaterEqOp,
    LessOp,
    GreaterOp,
    AndOp,
    OrOp,
    BitAndOp,
    BitOrOp,
    ParenL,
    ParenR,
    BraceL,
    BraceR,
    BracketL,
    BracketR,
    Comma,
    Semicolon,
    Quotes,
    Colon,
    Plus,
    Minus,
    Mult,
    Div,
    Mod,
    Xor,
    Not,
    Question,
    Dot,
    Arrow,
    PlusPlus,
    MinusMinus,
    PlusAssign,
    MinusAssign,
    MultAssign,
    DivAssign,
    ModAssign,
    LShiftAssign,
    RShiftAssign,
    AndAssign,
    XorAssign,
    OrAssign,
    LShift,
    RShift,
    Hash,
    Comment(Seq<char>),
    BlockComment(Seq<char>),
    Preprocessor(Seq<char>),
    Enum,
    Struct,
    Typedef,
    Static,
    Const,
    Volatile,
    Extern,
    Auto,
    Register,
    Case,
    Default,
    Break,
    Continue,
    Goto,
    Switch,
    Do,
    Union,
    Signed,
    Unsigned,
    Short,
    Long,
    Double,
    Char,
    Void,
    Error(Seq<char>),
}

impl View for Token {
    type V = TokenView;

    open spec fn view(&self) -> TokenView {
        match self {
            Token::Function => TokenView::Function,
            Token::Int => TokenView::Int,
            Token::Float => TokenView::Float,
            Token::String => TokenView::String,
            Token::Bool => TokenView::Bool,
            Token::Identifier(a) => TokenView::Identifier(a@),
            Token::IntLit(a) => TokenView::IntLit(*a),
            Token::FloatLit(a) => TokenView::FloatLit(a@),
            Token::StringLit(a) => TokenView::StringLit(a@),
            Token::BoolLit(a) => TokenView::BoolLit(*a),
            Token::Return => TokenView::Return,
            Token::If => TokenView::If,
            Token::Else => TokenView::Else,
            Token::While => TokenView::While,
            Token::For => TokenView::For,
            Token::AssignOp => TokenView::AssignOp,
            Token::EqualsOp => TokenView::EqualsOp,
            Token::NotEqualsOp => TokenView::NotEqualsOp,
            Token::LessEqOp => TokenView::LessEqOp,
            Token::GreaterEqOp => TokenView::GreaterEqOp,
            Token::LessOp => TokenView::LessOp,
            Token::GreaterOp => TokenView::GreaterOp,
            Token::AndOp => TokenView::AndOp,
            Token::OrOp => TokenView::OrOp,
            Token::BitAndOp => TokenView::BitAndOp,
            Token::BitOrOp => TokenView::BitOrOp,
            Token::ParenL => TokenView::ParenL,
            Token::ParenR => TokenView::ParenR,
            Token::BraceL => TokenView::BraceL,
            Token::BraceR => TokenView::BraceR,
            Token::BracketL => TokenView::BracketL,
            Token::BracketR => TokenView::BracketR,
            Token::Comma => TokenView::Comma,
            Token::Semicolon => TokenView::Semicolon,
            Token::Quotes => TokenView::Quotes,
            Token::Colon => TokenView::Colon,
            Token::Plus => TokenView::Plus,
            Token::Minus => TokenView::Minus,
            Token::Mult => TokenView::Mult,
            Token::Div => TokenView::Div,
            Token::Mod => TokenView::Mod,
            Token::Xor => TokenView::Xor,
            Token::Not => TokenView::Not,
            Token::Question => TokenView::Question,
            Token::Dot => TokenView::Dot,
            Token::Arrow => TokenView::Arrow,
            Token::PlusPlus => TokenView::PlusPlus,
            Token::MinusMinus => TokenView::MinusMinus,
            Token::PlusAssign => TokenView::PlusAssign,
            Token::MinusAssign => TokenView::MinusAssign,
            Token::MultAssign => TokenView::MultAssign,
            Token::DivAssign => TokenView::DivAssign,
            Token::ModAssign => TokenView::ModAssign,
            Token::LShiftAssign => TokenView::LShiftAssign,
            Token::RShiftAssign => TokenView::RShiftAssign,
            Token::AndAssign => TokenView::AndAssign,
            Token::XorAssign => TokenView::XorAssign,
            Token::OrAssign => TokenView::OrAssign,
            Token::LShift => TokenView::LShift,
            Token::RShift => TokenView::RShift,
            Token::Hash => TokenView::Hash,
            Token::Comment(a) => TokenView::Comment(a@),
            Token::BlockComment(a) => TokenView::BlockComment(a@),
            Token::Preprocessor(a) => TokenView::Preprocessor(a@),
            Token::Enum => TokenView::Enum,
            Token::Struct => TokenView::Struct,
            Token::Typedef => TokenView::Typedef,
            Token::Static => TokenView::Static,
            Token::Const => TokenView::Const,
            Token::Volatile => TokenView::Volatile,
            Token::Extern => TokenView::Extern,
            Token::Auto => TokenView::Auto,
            Token::Register => TokenView::Register,
            Token::Case => TokenView::Case,
            Token::Default => TokenView::Default,
            Token::Break => TokenView::Break,
            Token::Continue => TokenView::Continue,
            Token::Goto => TokenView::Goto,
            Token::Switch => TokenView::Switch,
            Token::Do => TokenView::Do,
            Token::Union => TokenView::Union,
            Token::Signed => TokenView::Signed,
            Token::Unsigned => TokenView::Unsigned,
            Token::Short => TokenView::Short,
            Token::Long => TokenView::Long,
            Token::Double => TokenView::Double,
            Token::Char => TokenView::Char,
            Token::Void => TokenView::Void,
            Token::Error(a) => TokenView::Error(a@),
        }
    }
}

impl Token {
    /// Equality of tokens: the same variant, carrying the same text or number.
    pub open spec fn same(self, other: Token) -> bool {
        match (self, other) {
            (Token::Identifier(a), Token::Identifier(b)) => a@ == b@,
            (Token::IntLit(a), Token::IntLit(b)) => a == b,
            (Token::FloatLit(a), Token::FloatLit(b)) => a@ == b@,
            (Token::StringLit(a), Token::StringLit(b)) => a@ == b@,
            (Token::BoolLit(a), Token::BoolLit(b)) => a == b,
            (Token::Comment(a), Token::Comment(b)) => a@ == b@,
            (Token::BlockComment(a), Token::BlockComment(b)) => a@ == b@,
            (Token::Preprocessor(a), Token::Preprocessor(b)) => a@ == b@,
            (Token::Error(a), Token::Error(b)) => a@ == b@,
            _ => self == other,
        }
    }

    /// Tokens that carry no syntax: comments and lexer errors.
    pub open spec fn is_trivia(self) -> bool {
        self is Comment || self is BlockComment || self is Error
    }

    /// Whether the token opens a type: `int float char double void long short`.
    pub open spec fn is_type_keyword(self) -> bool {
        self is Int || self is Float || self is Char || self is Double || self is Void
            || self is Long || self is Short
    }
}

impl Clone for Token {
    fn clone(&self) -> (r: Self)
        ensures
            r == *self,
    {
        match self {
            Token::Function => Token::Function,
            Token::Int => Token::Int,
            Token::Float => Token::Float,
            Token::String => Token::String,
            Token::Bool => Token::Bool,
            Token::Identifier(a) => Token::Identifier(a.clone()),
            Token::IntLit(a) => Token::IntLit(*a),
            Token::FloatLit(a) => Token::FloatLit(a.clone()),
            Token::StringLit(a) => Token::StringLit(a.clone()),
            Token::BoolLit(a) => Token::BoolLit(*a),
            Token::Return => Token::Return,
            Token::If => Token::If,
            Token::Else => Token::Else,
            Token::While => Token::While,
            Token::For => Token::For,
            Token::AssignOp => Token::AssignOp,
            Token::EqualsOp => Token::EqualsOp,
            Token::NotEqualsOp => Token::NotEqualsOp,
            Token::LessEqOp => Token::LessEqOp,
            Token::GreaterEqOp => Token::GreaterEqOp,
            Token::LessOp => Token::LessOp,
            Token::GreaterOp => Token::GreaterOp,
            Token::AndOp => Token::AndOp,
            Token::OrOp => Token::OrOp,
            Token::BitAndOp => Token::BitAndOp,
            Token::BitOrOp => Token::BitOrOp,
            Token::ParenL => Token::ParenL,
            Token::ParenR => Token::ParenR,
            Token::BraceL => Token::BraceL,
            Token::BraceR => Token::BraceR,
            Token::BracketL => Token::BracketL,
            Token::BracketR => Token::BracketR,
            Token::Comma => Token::Comma,
            Token::Semicolon => Token::Semicolon,
            Token::Quotes => Token::Quotes,
            Token::Colon => Token::Colon,
            Token::Plus => Token::Plus,
            Token::Minus => Token::Minus,
            Token::Mult => Token::Mult,
            Token::Div => Token::Div,
            Token::Mod => Token::Mod,
            Token::Xor => Token::Xor,
            Token::Not => Token::Not,
            Token::Question => Token::Question,
            Token::Dot => Token::Dot,
            Token::Arrow => Token::Arrow,
            Token::PlusPlus => Token::PlusPlus,
            Token::MinusMinus => Token::MinusMinus,
            Token::PlusAssign => Token::PlusAssign,
            Token::MinusAssign => Token::MinusAssign,
            Token::MultAssign => Token::MultAssign,
            Token::DivAssign => Token::DivAssign,
            Token::ModAssign => Token::ModAssign,
            Token::LShiftAssign => Token::LShiftAssign,
            Token::RShiftAssign => Token::RShiftAssign,
            Token::AndAssign => Token::AndAssign,
            Token::XorAssign => Token::XorAssign,
            Token::OrAssign => Token::OrAssign,
            Token::LShift => Token::LShift,
            Token::RShift => Token::RShift,
            Token::Hash => Token::Hash,
            Token::Comment(a) => Token::Comment(a.clone()),
            Token::BlockComment(a) => Token::BlockComment(a.clone()),
            Token::Preprocessor(a) => Token::Preprocessor(a.clone()),
            Token::Enum => Token::Enum,
            Token::Struct => Token::Struct,
            Token::Typedef => Token::Typedef,
            Token::Static => Token::Static,
            Token::Const => Token::Const,
            Token::Volatile => Token::Volatile,
            Token::Extern => Token::Extern,
            Token::Auto => Token::Auto,
            Token::Register => Token::Register,
            Token::Case => Token::Case,
            Token::Default => Token::Default,
            Token::Break => Token::Break,
            Token::Continue => Token::Continue,
            Token::Goto => Token::Goto,
            Token::Switch => Token::Switch,
            Token::Do => Token::Do,
            Token::Union => Token::Union,
            Token::Signed => Token::Signed,
            Token::Unsigned => Token::Unsigned,
            Token::Short => Token::Short,
            Token::Long => Token::Long,
            Token::Double => Token::Double,
            Token::Char => Token::Char,
            Token::Void => Token::Void,
            Token::Error(a) => Token::Error(a.clone()),
        }
    }
}

impl PartialEq for Token {
    fn eq(&self, other: &Token) -> (r: bool) {
        match (self, other) {
            (Token::Function, Token::Function) => true,
            (Token::Int, Token::Int) => true,
            (Token::Float, Token::Float) => true,
            (Token::String, Token::String) => true,
            (Token::Bool, Token::Bool) => true,
            (Token::Identifier(a), Token::Identifier(b)) => *a == *b,
            (Token::IntLit(a), Token::IntLit(b)) => *a == *b,
            (Token::FloatLit(a), Token::FloatLit(b)) => *a == *b,
            (Token::StringLit(a), Token::StringLit(b)) => *a == *b,
            (Token::BoolLit(a), Token::BoolLit(b)) => *a == *b,
            (Token::Return, Token::Return) => true,
            (Token::If, Token::If) => true,
            (Token::Else, Token::Else) => true,
            (Token::While, Token::While) => true,
            (Token::For, Token::For) => true,
            (Token::AssignOp, Token::AssignOp) => true,
            (Token::EqualsOp, Token::EqualsOp) => true,
            (Token::NotEqualsOp, Token::NotEqualsOp) => true,
            (Token::LessEqOp, Token::LessEqOp) => true,
            (Token::GreaterEqOp, Token::GreaterEqOp) => true,
            (Token::LessOp, Token::LessOp) => true,
            (Token::GreaterOp, Token::GreaterOp) => true,
            (Token::AndOp, Token::AndOp) => true,
            (Token::OrOp, Token::OrOp) => true,
            (Token::BitAndOp, Token::BitAndOp) => true,
            (Token::BitOrOp, Token::BitOrOp) => true,
            (Token::ParenL, Token::ParenL) => true,
            (Token::ParenR, Token::ParenR) => true,
            (Token::BraceL, Token::BraceL) => true,
            (Token::BraceR, Token::BraceR) => true,
            (Token::BracketL, Token::BracketL) => true,
            (Token::BracketR, Token::BracketR) => true,
            (Token::Comma, Token::Comma) => true,
            (Token::Semicolon, Token::Semicolon) => true,
            (Token::Quotes, Token::Quotes) => true,
            (Token::Colon, Token::Colon) => true,
            (Token::Plus, Token::Plus) => true,
            (Token::Minus, Token::Minus) => true,
            (Token::Mult, Token::Mult) => true,
            (Token::Div, Token::Div) => true,
            (Token::Mod, Token::Mod) => true,
            (Token::Xor, Token::Xor) => true,
            (Token::Not, Token::Not) => true,
            (Token::Question, Token::Question) => true,
            (Token::Dot, Token::Dot) => true,
            (Token::Arrow, Token::Arrow) => true,
            (Token::PlusPlus, Token::PlusPlus) => true,
            (Token::MinusMinus, Token::MinusMinus) => true,
            (Token::PlusAssign, Token::PlusAssign) => true,
            (Token::MinusAssign, Token::MinusAssign) => true,
            (Token::MultAssign, Token::MultAssign) => true,
            (Token::DivAssign, Token::DivAssign) => true,
            (Token::ModAssign, Token::ModAssign) => true,
            (Token::LShiftAssign, Token::LShiftAssign) => true,
            (Token::RShiftAssign, Token::RShiftAssign) => true,
            (Token::AndAssign, Token::AndAssign) => true,
            (Token::XorAssign, Token::XorAssign) => true,
            (Token::OrAssign, Token::OrAssign) => true,
            (Token::LShift, Token::LShift) => true,
            (Token::RShift, Token::RShift) => true,
            (Token::Hash, Token::Hash) => true,
            (Token::Comment(a), Token::Comment(b)) => *a == *b,
            (Token::BlockComment(a), Token::BlockComment(b)) => *a == *b,
            (Token::Preprocessor(a), Token::Preprocessor(b)) => *a == *b,
            (Token::Enum, Token::Enum) => true,
            (Token::Struct, Token::Struct) => true,
            (Token::Typedef, Token::Typedef) => true,
            (Token::Static, Token::Static) => true,
            (Token::Const, Token::Const) => true,
            (Token::Volatile, Token::Volatile) => true,
            (Token::Extern, Token::Extern) => true,
            (Token::Auto, Token::Auto) => true,
            (Token::Register, Token::Register) => true,
            (Token::Case, Token::Case) => true,
            (Token::Default, Token::Default) => true,
            (Token::Break, Token::Break) => true,
            (Token::Continue, Token::Continue) => true,
            (Token::Goto, Token::Goto) => true,
            (Token::Switch, Token::Switch) => true,
            (Token::Do, Token::Do) => true,
            (Token::Union, Token::Union) => true,
            (Token::Signed, Token::Signed) => true,
            (Token::Unsigned, Token::Unsigned) => true,
            (Token::Short, Token::Short) => true,
            (Token::Long, Token::Long) => true,
            (Token::Double, Token::Double) => true,
            (Token::Char, Token::Char) => true,
            (Token::Void, Token::Void) => true,
            (Token::Error(a), Token::Error(b)) => *a == *b,
            _ => false,
        }
    }
}

impl PartialEqSpecImpl for Token {
    open spec fn obeys_eq_spec() -> bool {
        true
    }

    open spec fn eq_spec(&self, other: &Token) -> bool {
        self.same(*other)
    }
}

// ---------------------------------------------------------------------------
// What the tokenizer computes
// ---------------------------------------------------------------------------

/// The pattern of the tokens: one alternative for white space and one for
/// every kind of token, each a group named after its kind. Earlier
/// alternatives win over later ones.
pub const TOKEN_PATTERN: &'static str = r#"(?P<ws>\s+)|(?P<comment>//.*)|(?P<blockcomment>/\*.*?\*/)|(?P<preprocessor>#[a-zA-Z_][a-zA-Z0-9_]*)|(?P<function>fn)\b|(?P<return>return)\b|(?P<if>if)\b|(?P<else>else)\b|(?P<while>while)\b|(?P<for>for)\b|(?P<int>int)\b|(?P<float>float)\b|(?P<string>string)\b|(?P<bool>bool)\b|(?P<enum>enum)\b|(?P<struct>struct)\b|(?P<typedef>typedef)\b|(?P<static>static)\b|(?P<const>const)\b|(?P<volatile>volatile)\b|(?P<extern>extern)\b|(?P<auto>auto)\b|(?P<register>register)\b|(?P<case>case)\b|(?P<default>default)\b|(?P<break>break)\b|(?P<continue>continue)\b|(?P<goto>goto)\b|(?P<switch>switch)\b|(?P<do>do)\b|(?P<union>union)\b|(?P<signed>signed)\b|(?P<unsigned>unsigned)\b|(?P<short>short)\b|(?P<long>long)\b|(?P<double>double)\b|(?P<char>char)\b|(?P<void>void)\b|(?P<floatlit>\d+\.\d+)|(?P<intlit>\d+)|(?P<stringlit>"([^\\"]|\\.)*")|(?P<equalsop>==)|(?P<notequalsop>!=)|(?P<lesseqop><=)|(?P<greatereqop>>=)|(?P<andop>&&)|(?P<orop>\|\|)|(?P<assignop>=)|(?P<lshiftop><<)|(?P<rshiftop>>{2})|(?P<lessop><)|(?P<greaterop>>)|(?P<bitandop>&)|(?P<bitorop>\|)|(?P<plusop>\+)|(?P<minusop>-)|(?P<multop>\*)|(?P<divop>/)|(?P<modop>%)|(?P<xorop>\^)|(?P<notop>~)|(?P<questionop>\?)|(?P<dotop>\.)|(?P<arrowop>->)|(?P<plusplusop>\+\+)|(?P<minusminusop>--)|(?P<plusassignop>\+=)|(?P<minusassignop>-=)|(?P<multassignop>\*=)|(?P<divassignop>/=)|(?P<modassignop>%=)|(?P<lshiftassignop><<=)|(?P<rshiftassignop>>=)|(?P<andassignop>&=)|(?P<xorassignop>\^=)|(?P<orassignop>\|=)|(?P<hashop>#)|(?P<identifier>[a-zA-Z_][a-zA-Z0-9_]*)|(?P<parenl>\()|(?P<parenr>\))|(?P<bracel>\{)|(?P<bracer>\})|(?P<bracketl>\[)|(?P<bracketr>\])|(?P<comma>,)|(?P<semicolon>;)|(?P<colon>:)|(?P<quotes>")"#;

/// The first named group, at index `from` or after it, that took part in a
/// match: its name and what it matched.
pub open spec fn matched_group(
    groups: Seq<(Option<Seq<char>>, Option<Seq<char>>)>,
    from: nat,
) -> Option<(Seq<char>, Seq<char>)>
    decreases groups.len() - from,
{
    if from >= groups.len() {
        None
    } else {
        match groups[from as int] {
            (Some(name), Some(text)) => Some((name, text)),
            _ => matched_group(groups, from + 1),
        }
    }
}

/// The token for the digits of an integer literal; an error where they are
/// no digits, or stand for a number above `i64::MAX`.
pub open spec fn integer(text: Seq<char>) -> TokenView {
    if run_end(text, 0, CharClass::Digit) == text.len() && decimal_value(text) <= i64::MAX {
        TokenView::IntLit(decimal_value(text) as i64)
    } else {
        TokenView::Error("Invalid int: "@ + text)
    }
}

/// The text of a string literal without the quotes around it.
pub open spec fn unquoted(text: Seq<char>) -> Seq<char> {
    if text.len() >= 2 {
        text.subrange(1, text.len() - 1)
    } else {
        Seq::empty()
    }
}

/// The token of the group `name`, which matched `text` in the lexeme
/// `whole`; none for white space, an error for a name that is the name of
/// no kind of token.
pub open spec fn group_token(name: Seq<char>, text: Seq<char>, whole: Seq<char>) -> Option<
    TokenView,
> {
    if name == "ws"@ {
        None
    } else if name == "comment"@ {
        Some(TokenView::Comment(whole))
    } else if name == "blockcomment"@ {
        Some(TokenView::BlockComment(whole))
    } else if name == "preprocessor"@ {
        Some(TokenView::Preprocessor(text))
    } else if name == "identifier"@ {
        Some(TokenView::Identifier(text))
    } else if name == "intlit"@ {
        Some(integer(text))
    } else if name == "floatlit"@ {
        Some(TokenView::FloatLit(text))
    } else if name == "stringlit"@ {
        Some(TokenView::StringLit(unquoted(text)))
    } else if name == "function"@ {
        Some(TokenView::Function)
    } else if name == "int"@ {
        Some(TokenView::Int)
    } else if name == "float"@ {
        Some(TokenView::Float)
    } else if name == "string"@ {
        Some(TokenView::String)
    } else if name == "bool"@ {
        Some(TokenView::Bool)
    } else if name == "return"@ {
        Some(TokenView::Return)
    } else if name == "if"@ {
        Some(TokenView::If)
    } else if name == "else"@ {
        Some(TokenView::Else)
    } else if name == "while"@ {
        Some(TokenView::While)
    } else if name == "for"@ {
        Some(TokenView::For)
    } else if name == "enum"@ {
        Some(TokenView::Enum)
    } else if name == "struct"@ {
        Some(TokenView::Struct)
    } else if name == "typedef"@ {
        Some(TokenView::Typedef)
    } else if name == "static"@ {
        Some(TokenView::Static)
    } else if name == "const"@ {
        Some(TokenView::Const)
    } else if name == "volatile"@ {
        Some(TokenView::Volatile)
    } else if name == "extern"@ {
        Some(TokenView::Extern)
    } else if name == "auto"@ {
        Some(TokenView::Auto)
    } else if name == "register"@ {
        Some(TokenView::Register)
    } else if name == "case"@ {
        Some(TokenView::Case)
    } else if name == "default"@ {
        Some(TokenView::Default)
    } else if name == "break"@ {
        Some(TokenView::Break)
    } else if name == "continue"@ {
        Some(TokenView::Continue)
    } else if name == "goto"@ {
        Some(TokenView::Goto)
    } else if name == "switch"@ {
        Some(TokenView::Switch)
    } else if name == "do"@ {
        Some(TokenView::Do)
    } else if name == "union"@ {
        Some(TokenView::Union)
    } else if name == "signed"@ {
        Some(TokenView::Signed)
    } else if name == "unsigned"@ {
        Some(TokenView::Unsigned)
    } else if name == "short"@ {
        Some(TokenView::Short)
    } else if name == "long"@ {
        Some(TokenView::Long)
    } else if name == "double"@ {
        Some(TokenView::Double)
    } else if name == "char"@ {
        Some(TokenView::Char)
    } else if name == "void"@ {
        Some(TokenView::Void)
    } else if name == "assignop"@ {
        Some(TokenView::AssignOp)
    } else if name == "equalsop"@ {
        Some(TokenView::EqualsOp)
    } else if name == "notequalsop"@ {
        Some(TokenView::NotEqualsOp)
    } else if name == "lesseqop"@ {
        Some(TokenView::LessEqOp)
    } else if name == "greatereqop"@ {
        Some(TokenView::GreaterEqOp)
    } else if name == "lessop"@ {
        Some(TokenView::LessOp)
    } else if name == "greaterop"@ {
        Some(TokenView::GreaterOp)
    } else if name == "andop"@ {
        Some(TokenView::AndOp)
    } else if name == "orop"@ {
        Some(TokenView::OrOp)
    } else if name == "bitandop"@ {
        Some(TokenView::BitAndOp)
    } else if name == "bitorop"@ {
        Some(TokenView::BitOrOp)
    } else if name == "parenl"@ {
        Some(TokenView::ParenL)
    } else if name == "parenr"@ {
        Some(TokenView::ParenR)
    } else if name == "bracel"@ {
        Some(TokenView::BraceL)
    } else if name == "bracer"@ {
        Some(TokenView::BraceR)
    } else if name == "bracketl"@ {
        Some(TokenView::BracketL)
    } else if name == "bracketr"@ {
        Some(TokenView::BracketR)
    } else if name == "comma"@ {
        Some(TokenView::Comma)
    } else if name == "semicolon"@ {
        Some(TokenView::Semicolon)
    } else if name == "colon"@ {
        Some(TokenView::Colon)
    } else if name == "plusop"@ {
        Some(TokenView::Plus)
    } else if name == "minusop"@ {
        Some(TokenView::Minus)
    } else if name == "multop"@ {
        Some(TokenView::Mult)
    } else if name == "divop"@ {
        Some(TokenView::Div)
    } else if name == "modop"@ {
        Some(TokenView::Mod)
    } else if name == "xorop"@ {
        Some(TokenView::Xor)
    } else if name == "notop"@ {
        Some(TokenView::Not)
    } else if name == "questionop"@ {
        Some(TokenView::Question)
    } else if name == "dotop"@ {
        Some(TokenView::Dot)
    } else if name == "arrowop"@ {
        Some(TokenView::Arrow)
    } else if name == "plusplusop"@ {
        Some(TokenView::PlusPlus)
    } else if name == "minusminusop"@ {
        Some(TokenView::MinusMinus)
    } else if name == "plusassignop"@ {
        Some(TokenView::PlusAssign)
    } else if name == "minusassignop"@ {
        Some(TokenView::MinusAssign)
    } else if name == "multassignop"@ {
        Some(TokenView::MultAssign)
    } else if name == "divassignop"@ {
        Some(TokenView::DivAssign)
    } else if name == "modassignop"@ {
        Some(TokenView::ModAssign)
    } else if name == "lshiftassignop"@ {
        Some(TokenView::LShiftAssign)
    } else if name == "rshiftassignop"@ {
        Some(TokenView::RShiftAssign)
    } else if name == "andassignop"@ {
        Some(TokenView::AndAssign)
    } else if name == "xorassignop"@ {
        Some(TokenView::XorAssign)
    } else if name == "orassignop"@ {
        Some(TokenView::OrAssign)
    } else if name == "lshiftop"@ {
        Some(TokenView::LShift)
    } else if name == "rshiftop"@ {
        Some(TokenView::RShift)
    } else if name == "hashop"@ {
        Some(TokenView::Hash)
    } else if name == "quotes"@ {
        Some(TokenView::Quotes)
    } else {
        Some(TokenView::Error("Unknown token: "@ + whole))
    }
}

/// The token of a lexeme, given the capture groups of the pattern on it:
/// that of the first named group that took part; none for white space; an
/// error where there are no groups or none took part.
pub open spec fn lexeme_token(
    whole: Seq<char>,
    groups: Option<Seq<(Option<Seq<char>>, Option<Seq<char>>)>>,
) -> Option<TokenView> {
    match groups {
        Some(g) => match matched_group(g, 0) {
            Some((name, text)) => group_token(name, text, whole),
            None => Some(TokenView::Error("Unknown token: "@ + whole)),
        },
        None => Some(TokenView::Error("Unknown token: "@ + whole)),
    }
}

/// The error for text in which the pattern finds nothing more, `consumed`
/// characters into the input.
pub open spec fn unknown_sequence(consumed: nat) -> TokenView {
    TokenView::Error("Unknown sequence at "@ + decimal_digits(consumed))
}

/// What a match is taken for: the lexeme and the text after it, where
/// there is a match that leaves less text than there was; else the error
/// that ends the tokens.
pub open spec fn accepted(
    found: Option<(Seq<char>, Seq<char>, Seq<char>)>,
    length: nat,
    consumed: nat,
) -> Result<(Seq<char>, Seq<char>), TokenView> {
    match found {
        Some((_, whole, after)) => if after.len() < length {
            Ok((whole, after))
        } else {
            Err(unknown_sequence(consumed))
        },
        None => Err(unknown_sequence(consumed)),
    }
}

/// The tokens of `rest`, which begins `consumed` characters into the
/// input: the pattern is sought in the text again and again, each time
/// after the match before; what stands before a match is passed over; each
/// match is a lexeme, which the pattern, applied to it alone, makes a token
/// of. Text in which the pattern finds nothing, or nothing that consumes a
/// character, ends the tokens with an error.
pub open spec fn tokens_from(rest: Seq<char>, consumed: nat) -> Seq<TokenView>
    decreases rest.len(),
{
    if rest.len() == 0 {
        Seq::empty()
    } else {
        match accepted(first_match(TOKEN_PATTERN@, rest), rest.len(), consumed) {
            Ok((whole, after)) => if after.len() < rest.len() {
                let rest_tokens = tokens_from(
                    after,
                    consumed + (rest.len() - after.len()) as nat,
                );
                match lexeme_token(whole, capture_groups(TOKEN_PATTERN@, whole)) {
                    Some(token) => seq![token] + rest_tokens,
                    None => rest_tokens,
                }
            } else {
                Seq::empty()
            },
            Err(error) => seq![error],
        }
    }
}

/// The tokens of a text.
pub open spec fn tokens_of(input: Seq<char>) -> Seq<TokenView> {
    tokens_from(input, 0)
}

// ---------------------------------------------------------------------------
// The tokenizer
// ---------------------------------------------------------------------------

/// The first named group that took part in a match.
fn find_matched_group(groups: &Vec<(Option<String>, Option<String>)>) -> (r: Option<usize>)
    ensures
        match r {
            Some(i) => i < groups@.len() && groups@[i as int].0 is Some && groups@[i as int].1
                is Some && matched_group(crate::pattern::view_groups(Some(*groups))->0, 0) == Some(
                (groups@[i as int].0->0@, groups@[i as int].1->0@),
            ),
            None => matched_group(crate::pattern::view_groups(Some(*groups))->0, 0) is None,
        },
{
    let ghost views = crate::pattern::view_groups(Some(*groups))->0;
    let mut i: usize = 0;
    while i < groups.len()
        invariant
            i <= groups@.len(),
            views == crate::pattern::view_groups(Some(*groups))->0,
            matched_group(views, 0) == matched_group(views, i as nat),
        decreases groups@.len() - i,
    {
        assert(views[i as int] == (view_text(groups@[i as int].0), view_text(groups@[i as int].1)));
        let found = match &groups[i] {
            (Some(_), Some(_)) => true,
            _ => false,
        };
        if found {
            return Some(i);
        }
        i += 1;
    }
    None
}

/// The token for the digits of an integer literal.
fn integer_token(text: &str) -> (r: Token)
    ensures
        r@ == integer(text@),
{
    let chars = chars_of(text);
    let end = scan_run(&chars, 0, CharClass::Digit);
    proof {
        lemma_run_end_bound(chars@, 0, CharClass::Digit);
        assert(chars@.subrange(0, chars@.len() as int) =~= chars@);
    }
    if end == chars.len() {
        match parse_decimal(&chars, 0, end) {
            Some(n) => Token::IntLit(n),
            None => {
                let mut message = String::from_str("Invalid int: ");
                message.append(text);
                Token::Error(message)
            },
        }
    } else {
        let mut message = String::from_str("Invalid int: ");
        message.append(text);
        Token::Error(message)
    }
}

/// The text of a string literal without the quotes around it.
fn unquote(text: &str) -> (r: String)
    ensures
        r@ == unquoted(text@),
{
    let length = text.unicode_len();
    if length >= 2 {
        text_of(text, 1, length - 1)
    } else {
        String::new()
    }
}

/// The error for a lexeme that is no token.
fn unknown_token(whole: &str) -> (r: Token)
    ensures
        r@ == TokenView::Error("Unknown token: "@ + whole@),
{
    let mut message = String::from_str("Unknown token: ");
    message.append(whole);
    Token::Error(message)
}

/// The token of the group `name`, which matched `text` in the lexeme
/// `whole`.
fn token_of_group(name: &str, text: &str, whole: &str) -> (r: Option<Token>)
    ensures
        view_opt(r) == group_token(name@, text@, whole@),
{
    if str_eq(name, "ws") {
        None
    } else if str_eq(name, "comment") {
        Some(Token::Comment(whole.to_owned()))
    } else if str_eq(name, "blockcomment") {
        Some(Token::BlockComment(whole.to_owned()))
    } else if str_eq(name, "preprocessor") {
        Some(Token::Preprocessor(text.to_owned()))
    } else if str_eq(name, "identifier") {
        Some(Token::Identifier(text.to_owned()))
    } else if str_eq(name, "intlit") {
        Some(integer_token(text))
    } else if str_eq(name, "floatlit") {
        Some(Token::FloatLit(text.to_owned()))
    } else if str_eq(name, "stringlit") {
        Some(Token::StringLit(unquote(text)))
    } else if str_eq(name, "function") {
        Some(Token::Function)
    } else if str_eq(name, "int") {
        Some(Token::Int)
    } else if str_eq(name, "float") {
        Some(Token::Float)
    } else if str_eq(name, "string") {
        Some(Token::String)
    } else if str_eq(name, "bool") {
        Some(Token::Bool)
    } else if str_eq(name, "return") {
        Some(Token::Return)
    } else if str_eq(name, "if") {
        Some(Token::If)
    } else if str_eq(name, "else") {
        Some(Token::Else)
    } else if str_eq(name, "while") {
        Some(Token::While)
    } else if str_eq(name, "for") {
        Some(Token::For)
    } else if str_eq(name, "enum") {
        Some(Token::Enum)
    } else if str_eq(name, "struct") {
        Some(Token::Struct)
    } else if str_eq(name, "typedef") {
        Some(Token::Typedef)
    } else if str_eq(name, "static") {
        Some(Token::Static)
    } else if str_eq(name, "const") {
        Some(Token::Const)
    } else if str_eq(name, "volatile") {
        Some(Token::Volatile)
    } else if str_eq(name, "extern") {
        Some(Token::Extern)
    } else if str_eq(name, "auto") {
        Some(Token::Auto)
    } else if str_eq(name, "register") {
        Some(Token::Register)
    } else if str_eq(name, "case") {
        Some(Token::Case)
    } else if str_eq(name, "default") {
        Some(Token::Default)
    } else if str_eq(name, "break") {
        Some(Token::Break)
    } else if str_eq(name, "continue") {
        Some(Token::Continue)
    } else if str_eq(name, "goto") {
        Some(Token::Goto)
    } else if str_eq(name, "switch") {
        Some(Token::Switch)
    } else if str_eq(name, "do") {
        Some(Token::Do)
    } else if str_eq(name, "union") {
        Some(Token::Union)
    } else if str_eq(name, "signed") {
        Some(Token::Signed)
    } else if str_eq(name, "unsigned") {
        Some(Token::Unsigned)
    } else if str_eq(name, "short") {
        Some(Token::Short)
    } else if str_eq(name, "long") {
        Some(Token::Long)
    } else if str_eq(name, "double") {
        Some(Token::Double)
    } else if str_eq(name, "char") {
        Some(Token::Char)
    } else if str_eq(name, "void") {
        Some(Token::Void)
    } else if str_eq(name, "assignop") {
        Some(Token::AssignOp)
    } else if str_eq(name, "equalsop") {
        Some(Token::EqualsOp)
    } else if str_eq(name, "notequalsop") {
        Some(Token::NotEqualsOp)
    } else if str_eq(name, "lesseqop") {
        Some(Token::LessEqOp)
    } else if str_eq(name, "greatereqop") {
        Some(Token::GreaterEqOp)
    } else if str_eq(name, "lessop") {
        Some(Token::LessOp)
    } else if str_eq(name, "greaterop") {
        Some(Token::GreaterOp)
    } else if str_eq(name, "andop") {
        Some(Token::AndOp)
    } else if str_eq(name, "orop") {
        Some(Token::OrOp)
    } else if str_eq(name, "bitandop") {
        Some(Token::BitAndOp)
    } else if str_eq(name, "bitorop") {
        Some(Token::BitOrOp)
    } else if str_eq(name, "parenl") {
        Some(Token::ParenL)
    } else if str_eq(name, "parenr") {
        Some(Token::ParenR)
    } else if str_eq(name, "bracel") {
        Some(Token::BraceL)
    } else if str_eq(name, "bracer") {
        Some(Token::BraceR)
    } else if str_eq(name, "bracketl") {
        Some(Token::BracketL)
    } else if str_eq(name, "bracketr") {
        Some(Token::BracketR)
    } else if str_eq(name, "comma") {
        Some(Token::Comma)
    } else if str_eq(name, "semicolon") {
        Some(Token::Semicolon)
    } else if str_eq(name, "colon") {
        Some(Token::Colon)
    } else if str_eq(name, "plusop") {
        Some(Token::Plus)
    } else if str_eq(name, "minusop") {
        Some(Token::Minus)
    } else if str_eq(name, "multop") {
        Some(Token::Mult)
    } else if str_eq(name, "divop") {
        Some(Token::Div)
    } else if str_eq(name, "modop") {
        Some(Token::Mod)
    } else if str_eq(name, "xorop") {
        Some(Token::Xor)
    } else if str_eq(name, "notop") {
        Some(Token::Not)
    } else if str_eq(name, "questionop") {
        Some(Token::Question)
    } else if str_eq(name, "dotop") {
        Some(Token::Dot)
    } else if str_eq(name, "arrowop") {
        Some(Token::Arrow)
    } else if str_eq(name, "plusplusop") {
        Some(Token::PlusPlus)
    } else if str_eq(name, "minusminusop") {
        Some(Token::MinusMinus)
    } else if str_eq(name, "plusassignop") {
        Some(Token::PlusAssign)
    } else if str_eq(name, "minusassignop") {
        Some(Token::MinusAssign)
    } else if str_eq(name, "multassignop") {
        Some(Token::MultAssign)
    } else if str_eq(name, "divassignop") {
        Some(Token::DivAssign)
    } else if str_eq(name, "modassignop") {
        Some(Token::ModAssign)
    } else if str_eq(name, "lshiftassignop") {
        Some(Token::LShiftAssign)
    } else if str_eq(name, "rshiftassignop") {
        Some(Token::RShiftAssign)
    } else if str_eq(name, "andassignop") {
        Some(Token::AndAssign)
    } else if str_eq(name, "xorassignop") {
        Some(Token::XorAssign)
    } else if str_eq(name, "orassignop") {
        Some(Token::OrAssign)
    } else if str_eq(name, "lshiftop") {
        Some(Token::LShift)
    } else if str_eq(name, "rshiftop") {
        Some(Token::RShift)
    } else if str_eq(name, "hashop") {
        Some(Token::Hash)
    } else if str_eq(name, "quotes") {
        Some(Token::Quotes)
    } else {
        Some(unknown_token(whole))
    }
}

/// The token of a lexeme, given the capture groups of the pattern on it.
pub fn token_of_lexeme(whole: &str, groups: Option<Vec<(Option<String>, Option<String>)>>) -> (r:
    Option<Token>)
    ensures
        view_opt(r) == lexeme_token(whole@, crate::pattern::view_groups(groups)),
{
    match groups {
        Some(g) => match find_matched_group(&g) {
            Some(i) => {
                let entry = &g[i];
                match (&entry.0, &entry.1) {
                    (Some(name), Some(text)) => token_of_group(
                        name.as_str(),
                        text.as_str(),
                        whole,
                    ),
                    _ => Some(unknown_token(whole)),
                }
            },
            None => Some(unknown_token(whole)),
        },
        None => Some(unknown_token(whole)),
    }
}

/// The error for text in which the pattern finds nothing more.
fn unknown_sequence_token(consumed: usize) -> (r: Token)
    ensures
        r@ == unknown_sequence(consumed as nat),
{
    let mut message = String::from_str("Unknown sequence at ");
    message.append(decimal_text(consumed).as_str());
    Token::Error(message)
}

/// Takes a match for a lexeme: answers with the lexeme and the text after
/// it, where `found` is a match in a text of `length` characters that
/// leaves less text than there was; else with the error that ends the
/// tokens `consumed` characters into the input.
pub fn accept_match(found: Option<(String, String, String)>, length: usize, consumed: usize) -> (r:
    Result<(String, String), Token>)
    ensures
        match r {
            Ok(m) => accepted(crate::pattern::view_match(found), length as nat, consumed as nat)
                == Ok::<(Seq<char>, Seq<char>), TokenView>((m.0@, m.1@)),
            Err(e) => accepted(crate::pattern::view_match(found), length as nat, consumed as nat)
                == Err::<(Seq<char>, Seq<char>), TokenView>(e@),
        },
{
    match found {
        Some((_skipped, whole, after)) => {
            if after.as_str().unicode_len() < length {
                Ok((whole, after))
            } else {
                Err(unknown_sequence_token(consumed))
            }
        },
        None => Err(unknown_sequence_token(consumed)),
    }
}

/// The tokens of `input`, found with the pattern of the tokens.
pub fn lex_with_regex(input: &str) -> (r: Vec<Token>)
    ensures
        view_all(r@) == tokens_of(input@),
{
    let total = input.unicode_len();
    let mut tokens: Vec<Token> = Vec::new();
    assert(view_all(tokens@) =~= Seq::<TokenView>::empty());
    let mut rest: String = input.to_owned();
    loop
        invariant
            total == input@.len(),
            rest@.len() <= total,
            tokens_of(input@) == view_all(tokens@) + tokens_from(
                rest@,
                (total - rest@.len()) as nat,
            ),
        decreases rest@.len(),
    {
        let remaining = rest.as_str().unicode_len();
        let ghost before = view_all(tokens@);
        if remaining == 0 {
            assert(before + Seq::<TokenView>::empty() =~= before);
            return tokens;
        }
        let consumed = total - remaining;
        let found = find(TOKEN_PATTERN, rest.as_str());
        let (whole, after) = match accept_match(found, remaining, consumed) {
            Ok(lexeme) => lexeme,
            Err(error) => {
                tokens.push(error);
                assert(view_all(tokens@) =~= before + seq![error@]);
                return tokens;
            },
        };
        let groups = captures(TOKEN_PATTERN, whole.as_str());
        let ghost rest_tokens = tokens_from(after@, (total - after@.len()) as nat);
        match token_of_lexeme(whole.as_str(), groups) {
            Some(token) => {
                tokens.push(token);
                assert(view_all(tokens@) =~= before.push(token@));
                assert(before.push(token@) + rest_tokens =~= before + (seq![token@] + rest_tokens));
            },
            None => {},
        }
        rest = after;
    }
}

// ---------------------------------------------------------------------------
// Labels
// ---------------------------------------------------------------------------

/// A label with a text in quotes and parentheses after it.
pub open spec fn quoted(name: Seq<char>, text: Seq<char>) -> Seq<char> {
    name + "(\""@ + text + "\")"@
}

/// A label with a text in parentheses after it.
pub open spec fn bracketed(name: Seq<char>, text: Seq<char>) -> Seq<char> {
    name + "("@ + text + ")"@
}

/// The label of a token in a listing: `T_` and the name of its kind in
/// capitals, then, for a token that carries one, its text in quotes or its
/// number, in parentheses. A floating-point literal is shown with the
/// digits it was written with.
pub open spec fn label(token: TokenView) -> Seq<char> {
    match token {
        TokenView::Function => "T_FUNCTION"@,
        TokenView::Int => "T_INT"@,
        TokenView::Float => "T_FLOAT"@,
        TokenView::String => "T_STRING"@,
        TokenView::Bool => "T_BOOL"@,
        TokenView::Identifier(a) => quoted("T_IDENTIFIER"@, a),
        TokenView::IntLit(a) => bracketed("T_INTLIT"@, signed_decimal(a as int)),
        TokenView::FloatLit(a) => bracketed("T_FLOATLIT"@, a),
        TokenView::StringLit(a) => quoted("T_STRINGLIT"@, a),
        TokenView::BoolLit(a) => bracketed("T_BOOLLIT"@, truth(a)),
        TokenView::Return => "T_RETURN"@,
        TokenView::If => "T_IF"@,
        TokenView::Else => "T_ELSE"@,
        TokenView::While => "T_WHILE"@,
        TokenView::For => "T_FOR"@,
        TokenView::AssignOp => "T_ASSIGNOP"@,
        TokenView::EqualsOp => "T_EQUALSOP"@,
        TokenView::NotEqualsOp => "T_NOTEQUALSOP"@,
        TokenView::LessEqOp => "T_LESSEQOP"@,
        TokenView::GreaterEqOp => "T_GREATEREQOP"@,
        TokenView::LessOp => "T_LESSOP"@,
        TokenView::GreaterOp => "T_GREATEROP"@,
        TokenView::AndOp => "T_ANDOP"@,
        TokenView::OrOp => "T_OROP"@,
        TokenView::BitAndOp => "T_BITANDOP"@,
        TokenView::BitOrOp => "T_BITOROP"@,
        TokenView::ParenL => "T_PARENL"@,
        TokenView::ParenR => "T_PARENR"@,
        TokenView::BraceL => "T_BRACEL"@,
        TokenView::BraceR => "T_BRACER"@,
        TokenView::BracketL => "T_BRACKETL"@,
        TokenView::BracketR => "T_BRACKETR"@,
        TokenView::Comma => "T_COMMA"@,
        TokenView::Semicolon => "T_SEMICOLON"@,
        TokenView::Quotes => "T_QUOTES"@,
        TokenView::Colon => "T_COLON"@,
        TokenView::Plus => "T_PLUS"@,
        TokenView::Minus => "T_MINUS"@,
        TokenView::Mult => "T_MULT"@,
        TokenView::Div => "T_DIV"@,
        TokenView::Mod => "T_MOD"@,
        TokenView::Xor => "T_XOR"@,
        TokenView::Not => "T_NOT"@,
        TokenView::Question => "T_QUESTION"@,
        TokenView::Dot => "T_DOT"@,
        TokenView::Arrow => "T_ARROW"@,
        TokenView::PlusPlus => "T_PLUSPLUS"@,
        TokenView::MinusMinus => "T_MINUSMINUS"@,
        TokenView::PlusAssign => "T_PLUSASSIGN"@,
        TokenView::MinusAssign => "T_MINUSASSIGN"@,
        TokenView::MultAssign => "T_MULTASSIGN"@,
        TokenView::DivAssign => "T_DIVASSIGN"@,
        TokenView::ModAssign => "T_MODASSIGN"@,
        TokenView::LShiftAssign => "T_LSHIFTASSIGN"@,
        TokenView::RShiftAssign => "T_RSHIFTASSIGN"@,
        TokenView::AndAssign => "T_ANDASSIGN"@,
        TokenView::XorAssign => "T_XORASSIGN"@,
        TokenView::OrAssign => "T_ORASSIGN"@,
        TokenView::LShift => "T_LSHIFT"@,
        TokenView::RShift => "T_RSHIFT"@,
        TokenView::Hash => "T_HASH"@,
        TokenView::Comment(a) => quoted("T_COMMENT"@, a),
        TokenView::BlockComment(a) => quoted("T_BLOCKCOMMENT"@, a),
        TokenView::Preprocessor(a) => quoted("T_PREPROCESSOR"@, a),
        TokenView::Enum => "T_ENUM"@,
        TokenView::Struct => "T_STRUCT"@,
        TokenView::Typedef => "T_TYPEDEF"@,
        TokenView::Static => "T_STATIC"@,
        TokenView::Const => "T_CONST"@,
        TokenView::Volatile => "T_VOLATILE"@,
        TokenView::Extern => "T_EXTERN"@,
        TokenView::Auto => "T_AUTO"@,
        TokenView::Register => "T_REGISTER"@,
        TokenView::Case => "T_CASE"@,
        TokenView::Default => "T_DEFAULT"@,
        TokenView::Break => "T_BREAK"@,
        TokenView::Continue => "T_CONTINUE"@,
        TokenView::Goto => "T_GOTO"@,
        TokenView::Switch => "T_SWITCH"@,
        TokenView::Do => "T_DO"@,
        TokenView::Union => "T_UNION"@,
        TokenView::Signed => "T_SIGNED"@,
        TokenView::Unsigned => "T_UNSIGNED"@,
        TokenView::Short => "T_SHORT"@,
        TokenView::Long => "T_LONG"@,
        TokenView::Double => "T_DOUBLE"@,
        TokenView::Char => "T_CHAR"@,
        TokenView::Void => "T_VOID"@,
        TokenView::Error(a) => quoted("T_ERROR"@, a),
    }
}

/// A label with a text in quotes and parentheses after it.
fn quote(name: &str, text: &str) -> (r: String)
    ensures
        r@ == quoted(name@, text@),
{
    let mut r = name.to_owned();
    r.append("(\"");
    r.append(text);
    r.append("\")");
    r
}

/// A label with a text in parentheses after it.
fn bracket(name: &str, text: &str) -> (r: String)
    ensures
        r@ == bracketed(name@, text@),
{
    let mut r = name.to_owned();
    r.append("(");
    r.append(text);
    r.append(")");
    r
}

impl Token {
    /// The label of the token in a listing.
    pub fn label(&self) -> (r: String)
        ensures
            r@ == label(self@),
    {
        match self {
            Token::Function => "T_FUNCTION".to_owned(),
            Token::Int => "T_INT".to_owned(),
            Token::Float => "T_FLOAT".to_owned(),
            Token::String => "T_STRING".to_owned(),
            Token::Bool => "T_BOOL".to_owned(),
            Token::Identifier(a) => quote("T_IDENTIFIER", a.as_str()),
            Token::IntLit(a) => bracket("T_INTLIT", signed_decimal_text(*a).as_str()),
            Token::FloatLit(a) => bracket("T_FLOATLIT", a.as_str()),
            Token::StringLit(a) => quote("T_STRINGLIT", a.as_str()),
            Token::BoolLit(a) => bracket("T_BOOLLIT", truth_text(*a)),
            Token::Return => "T_RETURN".to_owned(),
            Token::If => "T_IF".to_owned(),
            Token::Else => "T_ELSE".to_owned(),
            Token::While => "T_WHILE".to_owned(),
            Token::For => "T_FOR".to_owned(),
            Token::AssignOp => "T_ASSIGNOP".to_owned(),
            Token::EqualsOp => "T_EQUALSOP".to_owned(),
            Token::NotEqualsOp => "T_NOTEQUALSOP".to_owned(),
            Token::LessEqOp => "T_LESSEQOP".to_owned(),
            Token::GreaterEqOp => "T_GREATEREQOP".to_owned(),
            Token::LessOp => "T_LESSOP".to_owned(),
            Token::GreaterOp => "T_GREATEROP".to_owned(),
            Token::AndOp => "T_ANDOP".to_owned(),
            Token::OrOp => "T_OROP".to_owned(),
            Token::BitAndOp => "T_BITANDOP".to_owned(),
            Token::BitOrOp => "T_BITOROP".to_owned(),
            Token::ParenL => "T_PARENL".to_owned(),
            Token::ParenR => "T_PARENR".to_owned(),
            Token::BraceL => "T_BRACEL".to_owned(),
            Token::BraceR => "T_BRACER".to_owned(),
            Token::BracketL => "T_BRACKETL".to_owned(),
            Token::BracketR => "T_BRACKETR".to_owned(),
            Token::Comma => "T_COMMA".to_owned(),
            Token::Semicolon => "T_SEMICOLON".to_owned(),
            Token::Quotes => "T_QUOTES".to_owned(),
            Token::Colon => "T_COLON".to_owned(),
            Token::Plus => "T_PLUS".to_owned(),
            Token::Minus => "T_MINUS".to_owned(),
            Token::Mult => "T_MULT".to_owned(),
            Token::Div => "T_DIV".to_owned(),
            Token::Mod => "T_MOD".to_owned(),
            Token::Xor => "T_XOR".to_owned(),
            Token::Not => "T_NOT".to_owned(),
            Token::Question => "T_QUESTION".to_owned(),
            Token::Dot => "T_DOT".to_owned(),
            Token::Arrow => "T_ARROW".to_owned(),
            Token::PlusPlus => "T_PLUSPLUS".to_owned(),
            Token::MinusMinus => "T_MINUSMINUS".to_owned(),
            Token::PlusAssign => "T_PLUSASSIGN".to_owned(),
            Token::MinusAssign => "T_MINUSASSIGN".to_owned(),
            Token::MultAssign => "T_MULTASSIGN".to_owned(),
            Token::DivAssign => "T_DIVASSIGN".to_owned(),
            Token::ModAssign => "T_MODASSIGN".to_owned(),
            Token::LShiftAssign => "T_LSHIFTASSIGN".to_owned(),
            Token::RShiftAssign => "T_RSHIFTASSIGN".to_owned(),
            Token::AndAssign => "T_ANDASSIGN".to_owned(),
            Token::XorAssign => "T_XORASSIGN".to_owned(),
            Token::OrAssign => "T_ORASSIGN".to_owned(),
            Token::LShift => "T_LSHIFT".to_owned(),
            Token::RShift => "T_RSHIFT".to_owned(),
            Token::Hash => "T_HASH".to_owned(),
            Token::Comment(a) => quote("T_COMMENT", a.as_str()),
            Token::BlockComment(a) => quote("T_BLOCKCOMMENT", a.as_str()),
            Token::Preprocessor(a) => quote("T_PREPROCESSOR", a.as_str()),
            Token::Enum => "T_ENUM".to_owned(),
            Token::Struct => "T_STRUCT".to_owned(),
            Token::Typedef => "T_TYPEDEF".to_owned(),
            Token::Static => "T_STATIC".to_owned(),
            Token::Const => "T_CONST".to_owned(),
            Token::Volatile => "T_VOLATILE".to_owned(),
            Token::Extern => "T_EXTERN".to_owned(),
            Token::Auto => "T_AUTO".to_owned(),
            Token::Register => "T_REGISTER".to_owned(),
            Token::Case => "T_CASE".to_owned(),
            Token::Default => "T_DEFAULT".to_owned(),
            Token::Break => "T_BREAK".to_owned(),
            Token::Continue => "T_CONTINUE".to_owned(),
            Token::Goto => "T_GOTO".to_owned(),
            Token::Switch => "T_SWITCH".to_owned(),
            Token::Do => "T_DO".to_owned(),
            Token::Union => "T_UNION".to_owned(),
            Token::Signed => "T_SIGNED".to_owned(),
            Token::Unsigned => "T_UNSIGNED".to_owned(),
            Token::Short => "T_SHORT".to_owned(),
            Token::Long => "T_LONG".to_owned(),
            Token::Double => "T_DOUBLE".to_owned(),
            Token::Char => "T_CHAR".to_owned(),
            Token::Void => "T_VOID".to_owned(),
            Token::Error(a) => quote("T_ERROR", a.as_str()),
        }
    }
}

} // verus!
