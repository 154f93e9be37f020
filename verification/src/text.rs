//! Texts as sequences of characters: joining them, writing and reading numerals.

use vstd::prelude::*;
use vstd::string::*;

verus! {

// ---------------------------------------------------------------------------
// Models of texts inside containers
// ---------------------------------------------------------------------------

/// An optional text as its characters.
pub open spec fn opt_text(text: Option<String>) -> Option<Seq<char>> {
    match text {
        Some(t) => Some(t@),
        None => None,
    }
}

/// A list of texts as a list of character sequences.
pub open spec fn texts(list: Seq<String>) -> Seq<Seq<char>> {
    list.map_values(|t: String| t@)
}

/// A result whose error is a text, with the error as its characters.
pub open spec fn err_text<T>(result: Result<T, String>) -> Result<T, Seq<char>> {
    match result {
        Ok(value) => Ok(value),
        Err(error) => Err(error@),
    }
}

/// A result that holds a text either way, as characters.
pub open spec fn both_text(result: Result<String, String>) -> Result<Seq<char>, Seq<char>> {
    match result {
        Ok(text) => Ok(text@),
        Err(error) => Err(error@),
    }
}

// ---------------------------------------------------------------------------
// Building texts
// ---------------------------------------------------------------------------

/// `String::push` appends the character to the end of the string.
pub assume_specification[ String::push ](string: &mut String, ch: char)
    ensures
        final(string)@ == old(string)@.push(ch),
;

/// The characters of a text.
pub(crate) fn chars_of(text: &str) -> (chars: Vec<char>)
    ensures
        chars@ == text@,
{
    let mut chars: Vec<char> = Vec::new();
    for c in it: text.chars()
        invariant
            chars@ == it.seq().take(it.index() as int),
            it.seq() == text@,
    {
        chars.push(c);
    }
    chars
}

/// The text of the characters from `from` up to `to`.
pub(crate) fn text_between(chars: &Vec<char>, from: usize, to: usize) -> (text: String)
    requires
        from <= to <= chars@.len(),
    ensures
        text@ == chars@.subrange(from as int, to as int),
{
    let mut text = String::new();
    let mut i: usize = from;
    while i < to
        invariant
            from <= i <= to <= chars@.len(),
            text@ == chars@.subrange(from as int, i as int),
        decreases to - i,
    {
        text.push(chars[i]);
        i = i + 1;
    }
    text
}

/// Whether two texts hold the same characters.
pub(crate) fn same_text(a: &str, b: &str) -> (same: bool)
    ensures
        same == (a@ == b@),
{
    a.to_owned() == b.to_owned()
}

/// The concatenation of two texts.
pub(crate) fn join2(a: &str, b: &str) -> (text: String)
    ensures
        text@ == a@ + b@,
{
    let mut text = a.to_owned();
    text.append(b);
    text
}

/// The concatenation of three texts.
pub(crate) fn join3(a: &str, b: &str, c: &str) -> (text: String)
    ensures
        text@ == a@ + b@ + c@,
{
    let mut text = join2(a, b);
    text.append(c);
    text
}

/// The concatenation of four texts.
pub(crate) fn join4(a: &str, b: &str, c: &str, d: &str) -> (text: String)
    ensures
        text@ == a@ + b@ + c@ + d@,
{
    let mut text = join3(a, b, c);
    text.append(d);
    text
}

/// The concatenation of five texts.
pub(crate) fn join5(a: &str, b: &str, c: &str, d: &str, e: &str) -> (text: String)
    ensures
        text@ == a@ + b@ + c@ + d@ + e@,
{
    let mut text = join4(a, b, c, d);
    text.append(e);
    text
}

// ---------------------------------------------------------------------------
// Decimal numerals
// ---------------------------------------------------------------------------

/// The decimal digit `d` as a character.
pub open spec fn digit_char(d: int) -> char {
    (('0' as int) + d) as char
}

/// The decimal numeral of `n`, without leading zeros.
pub open spec fn decimal(n: nat) -> Seq<char>
    decreases n,
{
    if n < 10 {
        seq![digit_char(n as int)]
    } else {
        decimal(n / 10).push(digit_char((n % 10) as int))
    }
}

/// The decimal numeral of `n`, with zeros in front of it up to `width` characters.
pub open spec fn zero_padded(n: nat, width: nat) -> Seq<char> {
    let digits = decimal(n);
    if digits.len() < width {
        Seq::new((width - digits.len()) as nat, |i: int| '0') + digits
    } else {
        digits
    }
}

/// Appends the decimal numeral of `n`.
fn push_decimal(out: &mut String, n: u128)
    ensures
        final(out)@ == old(out)@ + decimal(n as nat),
    decreases n,
{
    if n >= 10 {
        push_decimal(out, n / 10);
    }
    let digit: u8 = (n % 10) as u8;
    out.push((48u8 + digit) as char);
}

/// The decimal numeral of `n`.
pub fn decimal_text(n: u128) -> (text: String)
    ensures
        text@ == decimal(n as nat),
{
    let mut text = String::new();
    push_decimal(&mut text, n);
    text
}

/// The decimal numeral of `n`, with zeros in front of it up to `width` characters.
pub fn zero_padded_text(n: u128, width: usize) -> (text: String)
    ensures
        text@ == zero_padded(n as nat, width as nat),
{
    let digits = decimal_text(n);
    let length: usize = digits.as_str().unicode_len();
    let mut text = String::new();
    if length < width {
        let mut i: usize = 0;
        while i < width - length
            invariant
                length < width,
                i <= width - length,
                text@ == Seq::new(i as nat, |j: int| '0'),
            decreases width - length - i,
        {
            text.push('0');
            i = i + 1;
        }
    }
    text.append(digits.as_str());
    text
}

// ---------------------------------------------------------------------------
// Reading numerals
// ---------------------------------------------------------------------------

/// Whether a character is a decimal digit.
pub open spec fn is_digit(c: char) -> bool {
    '0' <= c <= '9'
}

/// The number that a digit stands for.
pub open spec fn digit_value(c: char) -> int {
    (c as int) - ('0' as int)
}

/// How many digits a text starts with.
pub open spec fn digit_run(s: Seq<char>) -> nat
    decreases s.len(),
{
    if s.len() == 0 || !is_digit(s[0]) {
        0
    } else {
        1 + digit_run(s.skip(1))
    }
}

/// The number that a sequence of digits stands for.
pub open spec fn digits_value(s: Seq<char>) -> int
    decreases s.len(),
{
    if s.len() == 0 {
        0
    } else {
        digits_value(s.drop_last()) * 10 + digit_value(s.last())
    }
}

/// Why a text is not a number of the wanted range.
#[derive(Clone, Copy, Debug, PartialEq, Eq, Structural)]
pub enum NumberError {
    /// There is no character at all.
    Empty,
    /// A character other than a digit, or a sign with nothing after it.
    InvalidDigit,
    /// The digits stand for a number above the range.
    TooLarge,
}

/// Reads a number from zero to `max`: digits, with at most one plus sign in
/// front of them. The leftmost fault is the one that counts.
pub open spec fn number(s: Seq<char>, max: int) -> Result<int, NumberError> {
    if s.len() == 0 {
        Err(NumberError::Empty)
    } else {
        let digits = if s[0] == '+' {
            s.skip(1)
        } else {
            s
        };
        let run = digit_run(digits) as int;
        if digits_value(digits.take(run)) > max {
            Err(NumberError::TooLarge)
        } else if run < digits.len() || digits.len() == 0 {
            Err(NumberError::InvalidDigit)
        } else {
            Ok(digits_value(digits))
        }
    }
}

/// What an error of [`parse_number`] says.
pub open spec fn number_error_text(error: NumberError) -> Seq<char> {
    match error {
        NumberError::Empty => "cannot parse integer from empty string"@,
        NumberError::InvalidDigit => "invalid digit found in string"@,
        NumberError::TooLarge => "number too large to fit in target type"@,
    }
}

impl NumberError {
    /// The description of the error.
    pub fn message(self) -> (text: String)
        ensures
            text@ == number_error_text(self),
    {
        match self {
            NumberError::Empty => "cannot parse integer from empty string".to_owned(),
            NumberError::InvalidDigit => "invalid digit found in string".to_owned(),
            NumberError::TooLarge => "number too large to fit in target type".to_owned(),
        }
    }
}

proof fn lemma_digit_run(s: Seq<char>)
    ensures
        digit_run(s) <= s.len(),
        forall|i: int| 0 <= i < digit_run(s) ==> is_digit(#[trigger] s[i]),
        digit_run(s) < s.len() ==> !is_digit(s[digit_run(s) as int]),
    decreases s.len(),
{
    if s.len() != 0 && is_digit(s[0]) {
        lemma_digit_run(s.skip(1));
        assert forall|i: int| 0 <= i < digit_run(s) implies is_digit(#[trigger] s[i]) by {
            if i > 0 {
                assert(s.skip(1)[i - 1] == s[i]);
            }
        }
    }
}

/// The run of digits is as long as every stretch of digits in front shows, and
/// no longer than the first character that is none.
proof fn lemma_digit_run_is(s: Seq<char>, n: int)
    requires
        0 <= n <= s.len(),
        forall|i: int| 0 <= i < n ==> is_digit(#[trigger] s[i]),
    ensures
        digit_run(s) >= n,
        n == s.len() || !is_digit(s[n]) ==> digit_run(s) == n,
{
    lemma_digit_run(s);
    if digit_run(s) < n {
        assert(is_digit(s[digit_run(s) as int]));
    }
}

/// A longer prefix of digits stands for no smaller a number.
proof fn lemma_value_grows(s: Seq<char>, m: int, n: int)
    requires
        0 <= m <= n <= s.len(),
        forall|i: int| 0 <= i < n ==> is_digit(#[trigger] s[i]),
    ensures
        0 <= digits_value(s.take(m)) <= digits_value(s.take(n)),
    decreases n,
{
    if n > 0 {
        assert(s.take(n).drop_last() == s.take(n - 1));
        assert(s.take(n).last() == s[n - 1]);
        if m < n {
            lemma_value_grows(s, m, n - 1);
        } else {
            lemma_value_grows(s, m - 1, n - 1);
        }
    }
}

/// One more digit makes the number ten times as large plus that digit, and the
/// whole run of digits stands for no less.
proof fn lemma_value_of_next(s: Seq<char>, n: int)
    requires
        0 <= n < s.len(),
        forall|i: int| 0 <= i <= n ==> is_digit(#[trigger] s[i]),
    ensures
        digits_value(s.take(n + 1)) == digits_value(s.take(n)) * 10 + digit_value(s[n]),
        digits_value(s.take(n + 1)) <= digits_value(s.take(digit_run(s) as int)),
{
    assert(s.take(n + 1).drop_last() == s.take(n));
    lemma_digit_run(s);
    lemma_digit_run_is(s, n + 1);
    lemma_value_grows(s, n + 1, digit_run(s) as int);
}

/// Reads a number from zero to `max`.
pub fn parse_number(text: &str, max: u64) -> (result: Result<u64, NumberError>)
    ensures
        result is Ok <==> number(text@, max as int) is Ok,
        result matches Ok(n) ==> n <= max && number(text@, max as int) == Ok::<int, NumberError>(
            n as int,
        ),
        result matches Err(e) ==> number(text@, max as int) == Err::<int, NumberError>(e),
{
    let chars = chars_of(text);
    if chars.len() == 0 {
        return Err(NumberError::Empty);
    }
    let start: usize = if chars[0] == '+' {
        1
    } else {
        0
    };
    let ghost digits = chars@.skip(start as int);
    assert(chars@.skip(0) == chars@);
    if start == chars.len() {
        assert(digits.take(0) == Seq::<char>::empty());
        return Err(NumberError::InvalidDigit);
    }
    let mut value: u64 = 0;
    let mut i: usize = start;
    assert(digits.take(0) == Seq::<char>::empty());
    while i < chars.len()
        invariant
            start <= i <= chars@.len(),
            start <= 1,
            digits == chars@.skip(start as int),
            chars@ == text@,
            chars@.len() > 0,
            digits == if text@[0] == '+' {
                text@.skip(1)
            } else {
                text@
            },
            forall|k: int| 0 <= k < i - start ==> is_digit(#[trigger] digits[k]),
            value == digits_value(digits.take(i - start)),
            value <= max,
        decreases chars@.len() - i,
    {
        let c = chars[i];
        assert(c == digits[i - start]);
        if c < '0' || c > '9' {
            proof {
                lemma_digit_run_is(digits, i - start);
            }
            return Err(NumberError::InvalidDigit);
        }
        let digit: u128 = (c as u128) - 48;
        let grown: u128 = (value as u128) * 10 + digit;
        proof {
            lemma_value_of_next(digits, i - start);
        }
        if grown > max as u128 {
            return Err(NumberError::TooLarge);
        }
        value = grown as u64;
        i = i + 1;
    }
    proof {
        lemma_digit_run_is(digits, digits.len() as int);
        assert(digits.take(digits.len() as int) == digits);
    }
    Ok(value)
}

// ---------------------------------------------------------------------------
// Numerals are read back
// ---------------------------------------------------------------------------

/// A numeral has at least one character, holds digits alone, and stands for its
/// number.
pub proof fn lemma_decimal(n: nat)
    ensures
        decimal(n).len() >= 1,
        forall|i: int| 0 <= i < decimal(n).len() ==> is_digit(#[trigger] decimal(n)[i]),
        digits_value(decimal(n)) == n,
    decreases n,
{
    if n < 10 {
        assert(decimal(n).drop_last() == Seq::<char>::empty());
        assert(digits_value(Seq::<char>::empty()) == 0);
    } else {
        lemma_decimal(n / 10);
        assert(decimal(n).drop_last() == decimal(n / 10));
        assert forall|i: int| 0 <= i < decimal(n).len() implies is_digit(
            #[trigger] decimal(n)[i],
        ) by {
            if i < decimal(n / 10).len() {
                assert(decimal(n)[i] == decimal(n / 10)[i]);
            }
        }
    }
}

/// Zeros in front of digits change nothing.
proof fn lemma_leading_zeros(zeros: Seq<char>, digits: Seq<char>)
    requires
        forall|i: int| 0 <= i < zeros.len() ==> #[trigger] zeros[i] == '0',
    ensures
        digits_value(zeros + digits) == digits_value(digits),
    decreases zeros.len() + digits.len(),
{
    if digits.len() > 0 {
        assert((zeros + digits).drop_last() == zeros + digits.drop_last());
        lemma_leading_zeros(zeros, digits.drop_last());
    } else if zeros.len() > 0 {
        assert((zeros + digits).drop_last() == zeros.drop_last() + digits);
        lemma_leading_zeros(zeros.drop_last(), digits);
    } else {
        assert(zeros + digits == digits);
    }
}

/// A numeral with zeros in front of it holds digits alone and stands for its
/// number too.
pub proof fn lemma_zero_padded(n: nat, width: nat)
    ensures
        zero_padded(n, width).len() >= 1,
        forall|i: int|
            0 <= i < zero_padded(n, width).len() ==> is_digit(#[trigger] zero_padded(n, width)[i]),
        digits_value(zero_padded(n, width)) == n,
{
    lemma_decimal(n);
    let digits = decimal(n);
    if digits.len() < width {
        let zeros = Seq::new((width - digits.len()) as nat, |i: int| '0');
        lemma_leading_zeros(zeros, digits);
        assert forall|i: int| 0 <= i < zero_padded(n, width).len() implies is_digit(
            #[trigger] zero_padded(n, width)[i],
        ) by {
            if i >= zeros.len() {
                assert(zero_padded(n, width)[i] == digits[i - zeros.len()]);
            }
        }
    }
}

/// What is read as a number is one of the range.
pub proof fn lemma_number_in_range(s: Seq<char>, max: int)
    ensures
        number(s, max) matches Ok(n) ==> 0 <= n <= max,
{
    if s.len() > 0 {
        let digits = if s[0] == '+' {
            s.skip(1)
        } else {
            s
        };
        lemma_digit_run(digits);
        lemma_value_grows(digits, 0, digit_run(digits) as int);
        if digit_run(digits) == digits.len() {
            assert(digits.take(digits.len() as int) == digits);
        }
    }
}

/// A number in range is read back from its numeral, with or without zeros in
/// front of it.
pub proof fn lemma_numeral_is_read_back(n: nat, width: nat, max: int)
    requires
        n <= max,
    ensures
        number(zero_padded(n, width), max) == Ok::<int, NumberError>(n as int),
        number(decimal(n), max) == Ok::<int, NumberError>(n as int),
{
    lemma_zero_padded(n, width);
    let padded = zero_padded(n, width);
    assert(is_digit(padded[0]));
    lemma_digit_run_is(padded, padded.len() as int);
    assert(padded.take(padded.len() as int) == padded);
    lemma_decimal(n);
    let digits = decimal(n);
    assert(is_digit(digits[0]));
    lemma_digit_run_is(digits, digits.len() as int);
    assert(digits.take(digits.len() as int) == digits);
}

// ---------------------------------------------------------------------------
// What numerals are
// ---------------------------------------------------------------------------

/// A digit behind other digits stands for itself, and those for ten times as much.
pub proof fn lemma_digits_value(digits: Seq<char>, c: char)
    ensures
        digits_value(Seq::<char>::empty()) == 0,
        digits_value(digits.push(c)) == 10 * digits_value(digits) + (c as int - '0' as int),
{
    assert(digits.push(c).drop_last() == digits);
}

/// A numeral has no zero in front, unless it is the one of zero. With fewer characters
/// than wanted it gets zeros up to their number, else none.
pub proof fn lemma_numeral_length(n: nat, width: nat)
    ensures
        n > 0 ==> decimal(n)[0] != '0',
        n == 0 ==> decimal(n) == seq!['0'],
        zero_padded(n, width).len() == if decimal(n).len() < width {
            width
        } else {
            decimal(n).len()
        },
        forall|i: int|
            0 <= i < zero_padded(n, width).len() - decimal(n).len() ==> #[trigger] zero_padded(
                n,
                width,
            )[i] == '0',
        zero_padded(n, width).skip(zero_padded(n, width).len() - decimal(n).len()) == decimal(n),
    decreases n,
{
    if n >= 10 {
        lemma_numeral_length(n / 10, 0);
        lemma_decimal(n / 10);
        assert(decimal(n)[0] == decimal(n / 10)[0]);
    }
    lemma_decimal(n);
    let padded = zero_padded(n, width);
    assert(padded.skip(padded.len() - decimal(n).len()) == decimal(n));
}

/// A text without the plus sign that it may begin with.
pub open spec fn unsigned(s: Seq<char>) -> Seq<char> {
    if s.len() > 0 && s[0] == '+' {
        s.skip(1)
    } else {
        s
    }
}

/// Whether the first `n` characters are digits.
pub open spec fn digits_up_to(s: Seq<char>, n: int) -> bool {
    0 <= n <= s.len() && forall|i: int| 0 <= i < n ==> '0' <= #[trigger] s[i] <= '9'
}

/// What is read as a number: digits alone, at least one, behind at most one plus sign,
/// that stand for a number of the range; it is read as that number. Other texts are
/// refused: an empty one as such, one whose digits exceed the range before anything
/// else is found as too large, and every other one for a character that is no digit.
pub proof fn lemma_number(s: Seq<char>, max: int)
    requires
        max >= 0,
    ensures
        number(s, max) is Ok <==> unsigned(s).len() > 0 && digits_up_to(
            unsigned(s),
            unsigned(s).len() as int,
        ) && digits_value(unsigned(s)) <= max,
        number(s, max) is Ok ==> number(s, max)->Ok_0 == digits_value(unsigned(s)),
        number(s, max) == Err::<int, NumberError>(NumberError::Empty) <==> s.len() == 0,
        number(s, max) == Err::<int, NumberError>(NumberError::TooLarge) <==> exists|n: int|
            #[trigger] digits_up_to(unsigned(s), n) && digits_value(unsigned(s).take(n)) > max,
{
    let digits = unsigned(s);
    let run = digit_run(digits) as int;
    lemma_digit_run(digits);
    assert(digits_value(Seq::<char>::empty()) == 0);
    assert(digits.take(0) == Seq::<char>::empty());
    assert(digits.take(digits.len() as int) == digits);
    assert forall|i: int| 0 <= i < run implies '0' <= #[trigger] digits[i] <= '9' by {
        assert(is_digit(digits[i]));
    }
    assert(digits_up_to(digits, run));
    assert forall|n: int| #[trigger] digits_up_to(digits, n) implies n <= run && digits_value(
        digits.take(n),
    ) <= digits_value(digits.take(run)) by {
        assert forall|i: int| 0 <= i < n implies is_digit(#[trigger] digits[i]) by {}
        lemma_digit_run_is(digits, n);
        lemma_value_grows(digits, n, run);
    }
    if digits_up_to(digits, digits.len() as int) {
        assert(run == digits.len());
    }
}

/// Texts inside of options, lists and results are what they are outside of them.
pub proof fn lemma_texts_inside(text: String, other: String, list: Seq<String>, i: int, flag: bool)
    requires
        0 <= i < list.len(),
    ensures
        opt_text(Some(text)) == Some(text@),
        opt_text(None) is None,
        texts(list).len() == list.len(),
        texts(list)[i] == list[i]@,
        err_text(Ok::<bool, String>(flag)) == Ok::<bool, Seq<char>>(flag),
        err_text(Err::<bool, String>(text)) == Err::<bool, Seq<char>>(text@),
        err_text(Ok::<(), String>(())) == Ok::<(), Seq<char>>(()),
        err_text(Err::<(), String>(text)) == Err::<(), Seq<char>>(text@),
        both_text(Ok(text)) == Ok::<Seq<char>, Seq<char>>(text@),
        both_text(Err(other)) == Err::<Seq<char>, Seq<char>>(other@),
{
}

} // verus!
