//! Text helpers: strings as sequences of characters.

use vstd::prelude::*;
use vstd::std_specs::iter::IteratorSpec;
use vstd::string::*;

verus! {

/// `needle` stands in `hay` at offset `k`.
pub open spec fn occurs_at(needle: Seq<char>, hay: Seq<char>, k: int) -> bool {
    &&& 0 <= k
    &&& k + needle.len() <= hay.len()
    &&& hay.subrange(k, k + needle.len()) == needle
}

/// `needle` stands somewhere in `hay`. The empty text stands in every text.
pub open spec fn is_substring(needle: Seq<char>, hay: Seq<char>) -> bool {
    exists|k: int| occurs_at(needle, hay, k)
}

/// The characters of `s`, in order.
pub fn chars_of(s: &str) -> (v: Vec<char>)
    ensures
        v@ == s@,
{
    broadcast use vstd::string::group_string_axioms;

    let mut v: Vec<char> = Vec::new();
    for c in it: s.chars()
        invariant
            it.seq() == s@,
            v@ == s@.take(it.index() as int),
    {
        v.push(c);
    }
    v
}

/// Whether two sequences of characters are the same.
pub fn chars_eq(a: &Vec<char>, b: &Vec<char>) -> (r: bool)
    ensures
        r == (a@ == b@),
{
    if a.len() != b.len() {
        return false;
    }
    let mut i: usize = 0;
    while i < a.len()
        invariant
            i <= a.len(),
            a.len() == b.len(),
            forall|j: int| 0 <= j < i ==> a@[j] == b@[j],
        decreases a.len() - i,
    {
        if a[i] != b[i] {
            return false;
        }
        i += 1;
    }
    assert(a@ =~= b@);
    true
}

/// Whether two strings hold the same text.
pub fn str_eq(a: &str, b: &str) -> (r: bool)
    ensures
        r == (a@ == b@),
{
    let x = chars_of(a);
    let y = chars_of(b);
    chars_eq(&x, &y)
}

/// Whether `needle` stands in `hay` at offset `k`.
pub fn chars_occur_at(needle: &Vec<char>, hay: &Vec<char>, k: usize) -> (r: bool)
    requires
        k + needle.len() <= hay.len(),
    ensures
        r == occurs_at(needle@, hay@, k as int),
{
    let mut i: usize = 0;
    while i < needle.len()
        invariant
            i <= needle.len(),
            k + needle.len() <= hay.len(),
            forall|j: int| 0 <= j < i ==> hay@[k + j] == needle@[j],
        decreases needle.len() - i,
    {
        if hay[k + i] != needle[i] {
            assert(hay@.subrange(k as int, k + needle.len())[i as int] == hay@[k + i]);
            return false;
        }
        i += 1;
    }
    assert(hay@.subrange(k as int, k + needle.len()) =~= needle@);
    true
}

/// Whether `needle` stands somewhere in `hay`.
pub fn chars_contain(hay: &Vec<char>, needle: &Vec<char>) -> (r: bool)
    ensures
        r == is_substring(needle@, hay@),
{
    if needle.len() > hay.len() {
        return false;
    }
    let last: usize = hay.len() - needle.len();
    let mut k: usize = 0;
    loop
        invariant
            k <= last,
            last == hay.len() - needle.len(),
            needle.len() <= hay.len(),
            forall|j: int| 0 <= j < k ==> !occurs_at(needle@, hay@, j),
        decreases last - k,
    {
        if chars_occur_at(needle, hay, k) {
            return true;
        }
        if k == last {
            return false;
        }
        k += 1;
    }
}

/// Whether the text of `needle` stands somewhere in the text of `hay`.
pub fn str_contains(hay: &str, needle: &str) -> (r: bool)
    ensures
        r == is_substring(needle@, hay@),
{
    let h = chars_of(hay);
    let n = chars_of(needle);
    chars_contain(&h, &n)
}

// ---------------------------------------------------------------------------
// Classes of characters
// ---------------------------------------------------------------------------

/// A class of characters.
#[derive(Debug, Clone, Copy, PartialEq, Eq, Structural)]
pub enum CharClass {
    /// The decimal digits `0` to `9`.
    Digit,
    /// The letters `a` to `z` and `A` to `Z`, and `_`.
    WordStart,
    /// The letters, the decimal digits and `_`.
    Word,
    /// Every character but the line feed.
    InLine,
    /// White space.
    Space,
}

/// Whether `c` is a decimal digit.
pub open spec fn is_digit(c: char) -> bool {
    '0' as u32 <= c as u32 <= '9' as u32
}

/// Whether `c` is one of the letters `a` to `z` and `A` to `Z`.
pub open spec fn is_letter(c: char) -> bool {
    'a' as u32 <= c as u32 <= 'z' as u32 || 'A' as u32 <= c as u32 <= 'Z' as u32
}

/// Whether `c` is white space: a character with the Unicode property
/// `White_Space`.
pub open spec fn is_space(c: char) -> bool {
    let u = c as u32;
    0x09 <= u <= 0x0d || u == 0x20 || u == 0x85 || u == 0xa0 || u == 0x1680 || 0x2000 <= u
        <= 0x200a || u == 0x2028 || u == 0x2029 || u == 0x202f || u == 0x205f || u == 0x3000
}

/// Whether `c` belongs to `class`.
pub open spec fn in_class(class: CharClass, c: char) -> bool {
    match class {
        CharClass::Digit => is_digit(c),
        CharClass::WordStart => is_letter(c) || c == '_',
        CharClass::Word => is_letter(c) || is_digit(c) || c == '_',
        CharClass::InLine => c != '\n',
        CharClass::Space => is_space(c),
    }
}

/// Whether `c` belongs to `class`.
pub fn char_in_class(class: CharClass, c: char) -> (r: bool)
    ensures
        r == in_class(class, c),
{
    let u = c as u32;
    let digit = '0' as u32 <= u && u <= '9' as u32;
    let letter = ('a' as u32 <= u && u <= 'z' as u32) || ('A' as u32 <= u && u <= 'Z' as u32);
    match class {
        CharClass::Digit => digit,
        CharClass::WordStart => letter || c == '_',
        CharClass::Word => letter || digit || c == '_',
        CharClass::InLine => c != '\n',
        CharClass::Space => (0x09 <= u && u <= 0x0d) || u == 0x20 || u == 0x85 || u == 0xa0 || u
            == 0x1680 || (0x2000 <= u && u <= 0x200a) || u == 0x2028 || u == 0x2029 || u
            == 0x202f || u == 0x205f || u == 0x3000,
    }
}

/// How many characters of `class` stand in a row at `pos`.
pub open spec fn run_length(chars: Seq<char>, pos: nat, class: CharClass) -> nat
    decreases chars.len() - pos,
{
    if pos < chars.len() && in_class(class, chars[pos as int]) {
        1 + run_length(chars, pos + 1, class)
    } else {
        0
    }
}

/// The first position at or after `pos` that holds no character of `class`.
pub open spec fn run_end(chars: Seq<char>, pos: nat, class: CharClass) -> nat {
    pos + run_length(chars, pos, class)
}

/// A run ends within the text.
pub proof fn lemma_run_end_bound(chars: Seq<char>, pos: nat, class: CharClass)
    requires
        pos <= chars.len(),
    ensures
        pos <= run_end(chars, pos, class) <= chars.len(),
        forall|j: int| pos <= j < run_end(chars, pos, class) ==> in_class(class, chars[j]),
        run_end(chars, pos, class) < chars.len() ==> !in_class(
            class,
            chars[run_end(chars, pos, class) as int],
        ),
    decreases chars.len() - pos,
{
    if pos < chars.len() && in_class(class, chars[pos as int]) {
        lemma_run_end_bound(chars, pos + 1, class);
    }
}

/// The first position at or after `pos` that holds no character of `class`.
pub fn scan_run(chars: &Vec<char>, pos: usize, class: CharClass) -> (r: usize)
    requires
        pos <= chars@.len(),
    ensures
        r == run_end(chars@, pos as nat, class),
        pos <= r <= chars@.len(),
{
    let mut i = pos;
    while i < chars.len() && char_in_class(class, chars[i])
        invariant
            pos <= i <= chars@.len(),
            run_end(chars@, i as nat, class) == run_end(chars@, pos as nat, class),
        decreases chars@.len() - i,
    {
        i += 1;
    }
    i
}

// ---------------------------------------------------------------------------
// Pieces of text
// ---------------------------------------------------------------------------

/// The characters of `text` from `from` up to `to`, as a string.
pub fn text_of(text: &str, from: usize, to: usize) -> (r: String)
    requires
        from <= to <= text@.len(),
    ensures
        r@ == text@.subrange(from as int, to as int),
{
    text.substring_char(from, to).to_owned()
}

// ---------------------------------------------------------------------------
// Decimal numbers
// ---------------------------------------------------------------------------

/// The number that a decimal digit stands for.
pub open spec fn digit_value(c: char) -> nat {
    (c as u32 - '0' as u32) as nat
}

/// The number that a sequence of decimal digits stands for.
pub open spec fn decimal_value(digits: Seq<char>) -> nat
    decreases digits.len(),
{
    if digits.len() == 0 {
        0
    } else {
        decimal_value(digits.drop_last()) * 10 + digit_value(digits.last())
    }
}

/// The number that the decimal digits of `chars` from `from` up to `to`
/// stand for, if it is at most `i64::MAX`.
pub fn parse_decimal(chars: &Vec<char>, from: usize, to: usize) -> (r: Option<i64>)
    requires
        from <= to <= chars@.len(),
        forall|j: int| from <= j < to ==> is_digit(chars@[j]),
    ensures
        r is Some <==> decimal_value(chars@.subrange(from as int, to as int)) <= i64::MAX,
        r matches Some(n) ==> n == decimal_value(chars@.subrange(from as int, to as int)),
{
    let mut value: i64 = 0;
    let mut i = from;
    while i < to
        invariant
            from <= i <= to <= chars@.len(),
            forall|j: int| from <= j < to ==> is_digit(chars@[j]),
            0 <= value,
            value == decimal_value(chars@.subrange(from as int, i as int)),
        decreases to - i,
    {
        let digit = (chars[i] as u32 - '0' as u32) as i64;
        proof {
            let next = chars@.subrange(from as int, i + 1);
            assert(next.drop_last() =~= chars@.subrange(from as int, i as int));
            assert(next.last() == chars@[i as int]);
            assert(decimal_value(next) == value * 10 + digit);
        }
        if value > (i64::MAX - digit) / 10 {
            proof {
                lemma_decimal_value_grows(chars@, from as int, i + 1, to as int);
            }
            return None;
        }
        value = value * 10 + digit;
        i += 1;
    }
    Some(value)
}

/// More digits do not make a smaller number.
pub proof fn lemma_decimal_value_grows(chars: Seq<char>, from: int, mid: int, to: int)
    requires
        0 <= from <= mid <= to <= chars.len(),
    ensures
        decimal_value(chars.subrange(from, mid)) <= decimal_value(chars.subrange(from, to)),
    decreases to - mid,
{
    if mid < to {
        lemma_decimal_value_grows(chars, from, mid, to - 1);
        assert(chars.subrange(from, to).drop_last() =~= chars.subrange(from, to - 1));
    }
}

/// The decimal digits of `n`, most significant first; `0` for 0.
pub open spec fn decimal_digits(n: nat) -> Seq<char>
    decreases n,
{
    if n < 10 {
        seq![digit_char(n)]
    } else {
        decimal_digits(n / 10).push(digit_char(n % 10))
    }
}

/// The decimal digit for a number below 10.
pub open spec fn digit_char(d: nat) -> char {
    if d == 0 {
        '0'
    } else if d == 1 {
        '1'
    } else if d == 2 {
        '2'
    } else if d == 3 {
        '3'
    } else if d == 4 {
        '4'
    } else if d == 5 {
        '5'
    } else if d == 6 {
        '6'
    } else if d == 7 {
        '7'
    } else if d == 8 {
        '8'
    } else {
        '9'
    }
}

/// The decimal digit for a number below 10, as a string.
fn digit_text(d: usize) -> (r: &'static str)
    requires
        d < 10,
    ensures
        r@ == seq![digit_char(d as nat)],
{
    proof {
        reveal_strlit("0");
        reveal_strlit("1");
        reveal_strlit("2");
        reveal_strlit("3");
        reveal_strlit("4");
        reveal_strlit("5");
        reveal_strlit("6");
        reveal_strlit("7");
        reveal_strlit("8");
        reveal_strlit("9");
    }
    let r = if d == 0 {
        "0"
    } else if d == 1 {
        "1"
    } else if d == 2 {
        "2"
    } else if d == 3 {
        "3"
    } else if d == 4 {
        "4"
    } else if d == 5 {
        "5"
    } else if d == 6 {
        "6"
    } else if d == 7 {
        "7"
    } else if d == 8 {
        "8"
    } else {
        "9"
    };
    assert(r@ =~= seq![digit_char(d as nat)]);
    r
}

/// The decimal digits of `n`, as a string.
pub fn decimal_text(n: usize) -> (r: String)
    ensures
        r@ == decimal_digits(n as nat),
    decreases n,
{
    if n < 10 {
        digit_text(n).to_owned()
    } else {
        let mut text = decimal_text(n / 10);
        text.append(digit_text(n % 10));
        assert(text@ =~= decimal_digits((n / 10) as nat).push(digit_char((n % 10) as nat)));
        text
    }
}

/// The decimal digits of `n`, as a string.
pub fn decimal_text_of(n: u64) -> (r: String)
    ensures
        r@ == decimal_digits(n as nat),
    decreases n,
{
    if n < 10 {
        digit_text(n as usize).to_owned()
    } else {
        let mut text = decimal_text_of(n / 10);
        text.append(digit_text((n % 10) as usize));
        assert(text@ =~= decimal_digits((n / 10) as nat).push(digit_char((n % 10) as nat)));
        text
    }
}

/// A whole number in decimal: its digits, after `-` where it is negative.
pub open spec fn signed_decimal(n: int) -> Seq<char> {
    if n < 0 {
        "-"@ + decimal_digits((-n) as nat)
    } else {
        decimal_digits(n as nat)
    }
}

/// A whole number in decimal, as a string.
pub fn signed_decimal_text(n: i64) -> (r: String)
    ensures
        r@ == signed_decimal(n as int),
{
    if n >= 0 {
        decimal_text_of(n as u64)
    } else {
        let magnitude: u64 = (-(n + 1)) as u64 + 1;
        let mut text = String::from_str("-");
        text.append(decimal_text_of(magnitude).as_str());
        text
    }
}

/// `true` or `false`.
pub open spec fn truth(b: bool) -> Seq<char> {
    if b {
        "true"@
    } else {
        "false"@
    }
}

/// `true` or `false`, as a string.
pub fn truth_text(b: bool) -> (r: &'static str)
    ensures
        r@ == truth(b),
{
    if b {
        "true"
    } else {
        "false"
    }
}

} // verus!
