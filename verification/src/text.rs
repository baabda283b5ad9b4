//! Small verified string routines: equality, decimal formatting and the
//! decimal integer syntax of `str::parse` for unsigned types.

use vstd::prelude::*;
use vstd::string::*;

verus! {

/// A character with the Unicode `White_Space` property, which
/// `char::is_whitespace` tests.
pub open spec fn is_white_space(c: char) -> bool {
    ||| c == '\t' || c == '\n' || c == '\u{0B}' || c == '\u{0C}' || c == '\r' || c == ' '
    ||| c == '\u{85}' || c == '\u{A0}' || c == '\u{1680}'
    ||| ('\u{2000}' <= c && c <= '\u{200A}')
    ||| c == '\u{2028}' || c == '\u{2029}' || c == '\u{202F}' || c == '\u{205F}' || c == '\u{3000}'
}

/// Whether `c` has the Unicode `White_Space` property.
pub fn white_space(c: char) -> (w: bool)
    ensures
        w == is_white_space(c),
{
    c == '\t' || c == '\n' || c == '\u{0B}' || c == '\u{0C}' || c == '\r' || c == ' ' || c == '\u{85}'
        || c == '\u{A0}' || c == '\u{1680}' || ('\u{2000}' <= c && c <= '\u{200A}') || c == '\u{2028}'
        || c == '\u{2029}' || c == '\u{202F}' || c == '\u{205F}' || c == '\u{3000}'
}

/// `s[a..b]` is `s` without its leading and trailing white space.
pub open spec fn trim_bounds(s: Seq<char>, a: int, b: int) -> bool {
    &&& 0 <= a <= b <= s.len()
    &&& forall|i: int| 0 <= i < a ==> #[trigger] is_white_space(s[i])
    &&& forall|i: int| b <= i < s.len() ==> #[trigger] is_white_space(s[i])
    &&& a < b ==> !is_white_space(s[a]) && !is_white_space(s[b - 1])
}

/// `t` is `s` with leading and trailing white space removed, as `str::trim`
/// returns it.
pub open spec fn is_trim_of(t: Seq<char>, s: Seq<char>) -> bool {
    exists|a: int, b: int| trim_bounds(s, a, b) && t == s.subrange(a, b)
}

/// `s` without its leading and trailing white space, as `str::trim`
/// returns it.
pub fn trim_white_space(s: &str) -> (t: &str)
    ensures
        is_trim_of(t@, s@),
{
    let n = s.unicode_len();
    let mut a: usize = 0;
    while a < n && white_space(s.get_char(a))
        invariant
            a <= n,
            n == s@.len(),
            forall|i: int| 0 <= i < a ==> #[trigger] is_white_space(s@[i]),
        decreases n - a,
    {
        a = a + 1;
    }
    let mut b: usize = n;
    while b > a && white_space(s.get_char(b - 1))
        invariant
            a <= b <= n,
            n == s@.len(),
            forall|i: int| b <= i < n ==> #[trigger] is_white_space(s@[i]),
        decreases b,
    {
        b = b - 1;
    }
    let t = s.substring_char(a, b);
    assert(trim_bounds(s@, a as int, b as int));
    t
}

/// `s[a..b]` is the first word of `s`: the first maximal run of characters
/// that are not white space.
pub open spec fn first_word_bounds(s: Seq<char>, a: int, b: int) -> bool {
    &&& 0 <= a < b <= s.len()
    &&& forall|i: int| 0 <= i < a ==> #[trigger] is_white_space(s[i])
    &&& forall|i: int| a <= i < b ==> !#[trigger] is_white_space(s[i])
    &&& b < s.len() ==> is_white_space(s[b])
}

/// The first item of `str::split_whitespace`: the first word of `text`,
/// or `None` when it is all white space.
pub fn first_word(text: &str) -> (w: Option<String>)
    ensures
        match w {
            Some(word) => exists|a: int, b: int| first_word_bounds(text@, a, b) && word@ == text@.subrange(a, b),
            None => forall|i: int| 0 <= i < text@.len() ==> #[trigger] is_white_space(text@[i]),
        },
{
    let n = text.unicode_len();
    let mut a: usize = 0;
    while a < n && white_space(text.get_char(a))
        invariant
            a <= n,
            n == text@.len(),
            forall|i: int| 0 <= i < a ==> #[trigger] is_white_space(text@[i]),
        decreases n - a,
    {
        a = a + 1;
    }
    if a == n {
        return None;
    }
    let mut b: usize = a + 1;
    while b < n && !white_space(text.get_char(b))
        invariant
            a < b <= n,
            n == text@.len(),
            !is_white_space(text@[a as int]),
            forall|i: int| a <= i < b ==> !#[trigger] is_white_space(text@[i]),
        decreases n - b,
    {
        b = b + 1;
    }
    let word = text.substring_char(a, b);
    assert(first_word_bounds(text@, a as int, b as int));
    Some(String::from_str(word))
}

/// The ASCII character of decimal digit `d`.
pub open spec fn digit_char(d: int) -> char {
    (48 + d) as char
}

/// Whether `c` is one of `'0'..='9'`.
pub open spec fn is_digit(c: char) -> bool {
    '0' <= c && c <= '9'
}

/// The value of a decimal digit character.
pub open spec fn digit_value(c: char) -> int {
    (c as int) - 48
}

/// The shortest decimal representation of `n`, without sign or padding.
pub open spec fn decimal(n: nat) -> Seq<char>
    decreases n,
{
    if n < 10 {
        seq![digit_char(n as int)]
    } else {
        decimal(n / 10).push(digit_char((n % 10) as int))
    }
}

/// Whether two strings hold the same characters.
pub fn str_eq(a: &str, b: &str) -> (same: bool)
    ensures
        same == (a@ == b@),
{
    let x = String::from_str(a);
    let y = String::from_str(b);
    x == y
}

fn digit_str(d: u64) -> (s: &'static str)
    requires
        d < 10,
    ensures
        s@ == seq![digit_char(d as int)],
{
    proof {
        reveal_strlit("0");
        reveal_strlit("1");
        reveal_strlit("2");
        reveal_strlit("3");
        reveal_strlit("4");
        reveal_strlit("5");
        reveal_strlit("6");
        reveal_strlit("7");
        reveal_strlit("8");
        reveal_strlit("9");
    }
    if d == 0 {
        "0"
    } else if d == 1 {
        "1"
    } else if d == 2 {
        "2"
    } else if d == 3 {
        "3"
    } else if d == 4 {
        "4"
    } else if d == 5 {
        "5"
    } else if d == 6 {
        "6"
    } else if d == 7 {
        "7"
    } else if d == 8 {
        "8"
    } else {
        "9"
    }
}

/// `n` written in decimal, as `format!("{n}")` writes it.
pub fn decimal_string(n: u64) -> (s: String)
    ensures
        s@ == decimal(n as nat),
    decreases n,
{
    if n < 10 {
        String::from_str(digit_str(n))
    } else {
        let mut s = decimal_string(n / 10);
        s.append(digit_str(n % 10));
        s
    }
}

/// A decimal representation has at least one digit.
pub proof fn lemma_decimal_nonempty(n: nat)
    ensures
        decimal(n).len() >= 1,
        n >= 10 ==> decimal(n).len() >= 2,
    decreases n,
{
    if n >= 10 {
        lemma_decimal_nonempty(n / 10);
    }
}

/// Different numbers have different decimal representations.
pub proof fn lemma_decimal_injective(a: nat, b: nat)
    ensures
        decimal(a) == decimal(b) ==> a == b,
    decreases a,
{
    lemma_decimal_nonempty(a);
    lemma_decimal_nonempty(b);
    if decimal(a) == decimal(b) {
        if a < 10 && b < 10 {
            assert(decimal(a)[0] == decimal(b)[0]);
        } else if a >= 10 && b >= 10 {
            assert(decimal(a).drop_last() == decimal(a / 10));
            assert(decimal(b).drop_last() == decimal(b / 10));
            assert(decimal(a).last() == decimal(b).last());
            lemma_decimal_injective(a / 10, b / 10);
        }
    }
}

proof fn lemma_digit_char_roundtrip(d: int)
    requires
        0 <= d < 10,
    ensures
        is_digit(digit_char(d)),
        digit_value(digit_char(d)) == d,
{
}

proof fn lemma_fold_decimal(n: nat, max: nat)
    requires
        n <= max,
    ensures
        fold_digits(decimal(n), max) == Ok::<nat, NumberError>(n),
    decreases n,
{
    let s = decimal(n);
    if n < 10 {
        lemma_digit_char_roundtrip(n as int);
        assert(s.drop_last() =~= Seq::<char>::empty());
        assert(fold_digits(s.drop_last(), max) == Ok::<nat, NumberError>(0));
        assert(s.last() == digit_char(n as int));
    } else {
        lemma_fold_decimal(n / 10, max);
        lemma_digit_char_roundtrip((n % 10) as int);
        assert(s.drop_last() == decimal(n / 10));
        assert(s.last() == digit_char((n % 10) as int));
        assert((n / 10) * 10 + n % 10 == n);
    }
}

/// Identifiers written in decimal read back as the same value: what
/// `decimal_string` writes, `parse_decimal` parses to the number itself.
pub proof fn lemma_decimal_roundtrip(n: nat, max: nat)
    requires
        n <= max,
    ensures
        parse_unsigned(decimal(n), max) == Ok::<nat, NumberError>(n),
{
    lemma_fold_decimal(n, max);
    lemma_decimal_nonempty(n);
    lemma_decimal_first_digit(n);
}

proof fn lemma_decimal_first_digit(n: nat)
    ensures
        is_digit(decimal(n)[0]),
    decreases n,
{
    if n < 10 {
        lemma_digit_char_roundtrip(n as int);
    } else {
        lemma_decimal_nonempty(n / 10);
        lemma_decimal_first_digit(n / 10);
        assert(decimal(n)[0] == decimal(n / 10)[0]);
    }
}

/// Why a string is not an unsigned decimal integer, in the categories of
/// `core::num::IntErrorKind` that unsigned parsing produces.
#[derive(Debug, Clone, Copy, PartialEq, Eq)]
pub enum NumberError {
    Empty,
    InvalidDigit,
    TooLarge,
}

impl NumberError {
    /// The text that `core::num::ParseIntError` displays for this kind.
    pub fn message(&self) -> (m: &'static str)
        ensures
            match self {
                NumberError::Empty => m@ == "cannot parse integer from empty string"@,
                NumberError::InvalidDigit => m@ == "invalid digit found in string"@,
                NumberError::TooLarge => m@ == "number too large to fit in target type"@,
            },
    {
        match self {
            NumberError::Empty => "cannot parse integer from empty string",
            NumberError::InvalidDigit => "invalid digit found in string",
            NumberError::TooLarge => "number too large to fit in target type",
        }
    }
}

/// Reads the digit string `s` from the left, failing on the first
/// character that is not a digit or the first prefix whose value exceeds
/// `max`.
pub open spec fn fold_digits(s: Seq<char>, max: nat) -> Result<nat, NumberError>
    decreases s.len(),
{
    if s.len() == 0 {
        Ok(0)
    } else {
        match fold_digits(s.drop_last(), max) {
            Err(e) => Err(e),
            Ok(acc) => if !is_digit(s.last()) {
                Err(NumberError::InvalidDigit)
            } else if acc * 10 + digit_value(s.last()) > max {
                Err(NumberError::TooLarge)
            } else {
                Ok((acc * 10 + digit_value(s.last())) as nat)
            },
        }
    }
}

/// The unsigned decimal syntax of `str::parse`: an optional leading `+`
/// and then at least one digit, with values up to `max`.
pub open spec fn parse_unsigned(s: Seq<char>, max: nat) -> Result<nat, NumberError> {
    if s.len() == 0 {
        Err(NumberError::Empty)
    } else if s.len() == 1 && (s[0] == '+' || s[0] == '-') {
        Err(NumberError::InvalidDigit)
    } else if s[0] == '+' {
        fold_digits(s.drop_first(), max)
    } else {
        fold_digits(s, max)
    }
}

/// Parses `s` as `str::parse::<uN>` does, where `max` is `uN::MAX`.
pub fn parse_decimal(s: &str, max: u64) -> (r: Result<u64, NumberError>)
    ensures
        match r {
            Ok(v) => parse_unsigned(s@, max as nat) == Ok::<nat, NumberError>(v as nat),
            Err(e) => parse_unsigned(s@, max as nat) == Err::<nat, NumberError>(e),
        },
{
    let len = s.unicode_len();
    if len == 0 {
        return Err(NumberError::Empty);
    }
    let first = s.get_char(0);
    if len == 1 && (first == '+' || first == '-') {
        return Err(NumberError::InvalidDigit);
    }
    let start: usize = if first == '+' { 1 } else { 0 };
    let ghost digits = if first == '+' { s@.drop_first() } else { s@ };
    assert(digits == s@.subrange(start as int, len as int));
    assert(parse_unsigned(s@, max as nat) == fold_digits(digits, max as nat));
    let mut acc: u64 = 0;
    let mut i: usize = start;
    while i < len
        invariant
            start <= i <= len,
            len == s@.len(),
            digits == s@.subrange(start as int, len as int),
            parse_unsigned(s@, max as nat) == fold_digits(digits, max as nat),
            acc <= max,
            fold_digits(digits.take(i - start), max as nat) == Ok::<nat, NumberError>(acc as nat),
        decreases len - i,
    {
        let c = s.get_char(i);
        let ghost pre = digits.take(i - start);
        assert(digits.take(i + 1 - start).drop_last() == pre);
        assert(digits.take(i + 1 - start).last() == c);
        if !('0' <= c && c <= '9') {
            assert(fold_digits(digits, max as nat) == Err::<nat, NumberError>(NumberError::InvalidDigit)) by {
                lemma_fold_prefix_error(digits, (i + 1 - start) as nat, max as nat);
            }
            return Err(NumberError::InvalidDigit);
        }
        let d = (c as u32 - 48) as u64;
        let next: u128 = (acc as u128) * 10 + (d as u128);
        if next > max as u128 {
            assert(fold_digits(digits, max as nat) == Err::<nat, NumberError>(NumberError::TooLarge)) by {
                lemma_fold_prefix_error(digits, (i + 1 - start) as nat, max as nat);
            }
            return Err(NumberError::TooLarge);
        }
        acc = next as u64;
        i = i + 1;
    }
    assert(digits.take(len - start) == digits);
    Ok(acc)
}

/// An error met on a prefix is the error of the whole string.
proof fn lemma_fold_prefix_error(s: Seq<char>, k: nat, max: nat)
    requires
        k <= s.len(),
        fold_digits(s.take(k as int), max) is Err,
    ensures
        fold_digits(s, max) == fold_digits(s.take(k as int), max),
    decreases s.len() - k,
{
    if k < s.len() {
        let t = s.take(k as int + 1);
        assert(t.drop_last() == s.take(k as int));
        assert(fold_digits(t, max) == fold_digits(s.take(k as int), max));
        lemma_fold_prefix_error(s, k + 1, max);
    } else {
        assert(s.take(k as int) == s);
    }
}

} // verus!
