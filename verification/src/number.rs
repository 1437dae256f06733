//! Numbers as they are written: decimal digits, integers and floating-point literals.
use crate::text::{Text, chars_of, result_view, text2};
use vstd::prelude::*;

verus! {

/// The digit that stands for `d`, from zero to nine.
pub open spec fn digit_char(d: nat) -> char {
    (48 + d) as char
}

/// `n` in decimal digits.
pub open spec fn decimal_of(n: nat) -> Text
    decreases n,
{
    if n < 10 {
        seq![digit_char(n)]
    } else {
        decimal_of(n / 10).push(digit_char(n % 10))
    }
}

/// `n` in decimal digits, after a minus sign where it is negative.
pub open spec fn signed_decimal_of(n: int) -> Text {
    if n < 0 {
        "-"@ + decimal_of((-n) as nat)
    } else {
        decimal_of(n as nat)
    }
}

/// A number in decimal digits.
pub fn decimal(n: u64) -> (r: String)
    ensures
        r@ == decimal_of(n as nat),
    decreases n,
{
    let last: u8 = (n % 10) as u8;
    let mut r = if n < 10 {
        String::new()
    } else {
        decimal(n / 10)
    };
    r.push((48u8 + last) as char);
    r
}

/// A number in decimal digits, after a minus sign where it is negative.
pub fn signed_decimal(n: i64) -> (r: String)
    ensures
        r@ == signed_decimal_of(n as int),
{
    if n < 0 {
        let magnitude: u64 = (-(n + 1)) as u64 + 1;
        let digits = decimal(magnitude);
        text2("-", digits.as_str())
    } else {
        decimal(n as u64)
    }
}

/// Whether `c` is a decimal digit.
pub open spec fn is_digit(c: char) -> bool {
    '0' <= c <= '9'
}

/// What the digit `c` stands for.
pub open spec fn digit_value(c: char) -> int {
    c as int - 48
}

/// Why a text is no integer.
#[derive(Clone, Copy, PartialEq, Eq, Structural, Debug)]
pub enum IntegerError {
    /// There is nothing to read.
    Empty,
    /// A character is no digit where one has to stand.
    InvalidDigit,
    /// The number is larger than the type can hold.
    TooLarge,
    /// The number is smaller than the type can hold.
    TooSmall,
}

impl IntegerError {
    /// The error in words.
    pub open spec fn words(self) -> Text {
        match self {
            IntegerError::Empty => "cannot parse integer from empty string"@,
            IntegerError::InvalidDigit => "invalid digit found in string"@,
            IntegerError::TooLarge => "number too large to fit in target type"@,
            IntegerError::TooSmall => "number too small to fit in target type"@,
        }
    }

    /// The error in words.
    pub fn message(self) -> (r: String)
        ensures
            r@ == self.words(),
    {
        match self {
            IntegerError::Empty => "cannot parse integer from empty string".to_owned(),
            IntegerError::InvalidDigit => "invalid digit found in string".to_owned(),
            IntegerError::TooLarge => "number too large to fit in target type".to_owned(),
            IntegerError::TooSmall => "number too small to fit in target type".to_owned(),
        }
    }
}

/// The digits of `s` read from left to right. The first character that is no digit, or with which
/// the number exceeds `limit`, decides the error; `excess` is the error of the second kind.
pub open spec fn magnitude_of(s: Text, limit: nat, excess: IntegerError) -> Result<
    nat,
    IntegerError,
>
    decreases s.len(),
{
    if s.len() == 0 {
        Ok(0)
    } else {
        match magnitude_of(s.drop_last(), limit, excess) {
            Err(e) => Err(e),
            Ok(v) => {
                let next = v * 10 + digit_value(s.last());
                if !is_digit(s.last()) {
                    Err(IntegerError::InvalidDigit)
                } else if next > limit {
                    Err(excess)
                } else {
                    Ok(next as nat)
                }
            },
        }
    }
}

/// The integer that `s` denotes, between `-lowest` and `highest`: digits after at most one sign. A
/// minus sign counts as a sign only in a `signed` type.
pub open spec fn integer_of(s: Text, signed: bool, highest: nat, lowest: nat) -> Result<
    int,
    IntegerError,
> {
    if s.len() == 0 {
        Err(IntegerError::Empty)
    } else if s.len() == 1 && (s[0] == '+' || s[0] == '-') {
        Err(IntegerError::InvalidDigit)
    } else if s[0] == '+' {
        match magnitude_of(s.drop_first(), highest, IntegerError::TooLarge) {
            Ok(v) => Ok(v as int),
            Err(e) => Err(e),
        }
    } else if s[0] == '-' && signed {
        match magnitude_of(s.drop_first(), lowest, IntegerError::TooSmall) {
            Ok(v) => Ok(-(v as int)),
            Err(e) => Err(e),
        }
    } else {
        match magnitude_of(s, highest, IntegerError::TooLarge) {
            Ok(v) => Ok(v as int),
            Err(e) => Err(e),
        }
    }
}

/// An error in a part of the digits is the error of all of them.
proof fn lemma_magnitude_error(s: Text, i: int, limit: nat, excess: IntegerError)
    requires
        0 <= i <= s.len(),
        magnitude_of(s.take(i), limit, excess) is Err,
    ensures
        magnitude_of(s, limit, excess) == magnitude_of(s.take(i), limit, excess),
    decreases s.len() - i,
{
    if i < s.len() {
        assert(s.take(i + 1).drop_last() == s.take(i));
        lemma_magnitude_error(s, i + 1, limit, excess);
    } else {
        assert(s.take(i) == s);
    }
}

/// The digits from `from` on, read as a number up to `limit`.
fn read_magnitude(chars: &Vec<char>, from: usize, limit: u64, excess: IntegerError) -> (r: Result<
    u64,
    IntegerError,
>)
    requires
        from <= chars@.len(),
    ensures
        match r {
            Ok(v) => magnitude_of(chars@.skip(from as int), limit as nat, excess) == Ok::<
                nat,
                IntegerError,
            >(v as nat),
            Err(e) => magnitude_of(chars@.skip(from as int), limit as nat, excess) == Err::<
                nat,
                IntegerError,
            >(e),
        },
{
    let ghost s = chars@.skip(from as int);
    let mut value: u64 = 0;
    let mut i: usize = from;
    assert(s.take(0) == Seq::<char>::empty());
    while i < chars.len()
        invariant
            from <= i <= chars@.len(),
            s == chars@.skip(from as int),
            value <= limit,
            magnitude_of(s.take(i - from), limit as nat, excess) == Ok::<nat, IntegerError>(
                value as nat,
            ),
        decreases chars@.len() - i,
    {
        let c = chars[i];
        let ghost n = i - from;
        assert(s.take(n + 1).drop_last() == s.take(n));
        assert(s.take(n + 1).last() == c);
        if c < '0' || c > '9' {
            proof {
                lemma_magnitude_error(s, n + 1, limit as nat, excess);
            }
            return Err(IntegerError::InvalidDigit);
        }
        let digit: u64 = (c as u32 - 48) as u64;
        if value > limit / 10 || digit > limit - value * 10 {
            proof {
                lemma_magnitude_error(s, n + 1, limit as nat, excess);
            }
            return Err(excess);
        }
        value = value * 10 + digit;
        i += 1;
    }
    assert(s.take(i - from) == s);
    Ok(value)
}

/// The integer that a string denotes, by its magnitude and whether it is negative.
fn read_integer(s: &str, signed: bool, highest: u64, lowest: u64) -> (r: Result<
    (bool, u64),
    IntegerError,
>)
    ensures
        match r {
            Ok((negative, v)) => {
                &&& integer_of(s@, signed, highest as nat, lowest as nat) == Ok::<
                    int,
                    IntegerError,
                >(
                    if negative {
                        -(v as int)
                    } else {
                        v as int
                    },
                )
                &&& if negative {
                    signed && v <= lowest
                } else {
                    v <= highest
                }
            },
            Err(e) => integer_of(s@, signed, highest as nat, lowest as nat) == Err::<
                int,
                IntegerError,
            >(e),
        },
{
    let chars = chars_of(s);
    if chars.len() == 0 {
        return Err(IntegerError::Empty);
    }
    let sign = chars[0];
    if chars.len() == 1 && (sign == '+' || sign == '-') {
        return Err(IntegerError::InvalidDigit);
    }
    proof {
        assert(s@.skip(1) == s@.drop_first());
        assert(s@.skip(0) == s@);
        lemma_magnitude_bound(s@, highest as nat, IntegerError::TooLarge);
        lemma_magnitude_bound(s@.drop_first(), highest as nat, IntegerError::TooLarge);
        lemma_magnitude_bound(s@.drop_first(), lowest as nat, IntegerError::TooSmall);
    }
    if sign == '-' && signed {
        match read_magnitude(&chars, 1, lowest, IntegerError::TooSmall) {
            Ok(v) => Ok((true, v)),
            Err(e) => Err(e),
        }
    } else {
        let from: usize = if sign == '+' {
            1
        } else {
            0
        };
        match read_magnitude(&chars, from, highest, IntegerError::TooLarge) {
            Ok(v) => Ok((false, v)),
            Err(e) => Err(e),
        }
    }
}

/// What is read does not exceed the limit.
proof fn lemma_magnitude_bound(s: Text, limit: nat, excess: IntegerError)
    ensures
        magnitude_of(s, limit, excess) matches Ok(v) ==> v <= limit,
{
}

/// A value that is read from a word of text.
pub trait Token: View + Sized {
    /// The value that the text denotes, or why it denotes none.
    spec fn read(text: Text) -> Result<Self::V, Text>;

    /// The value that a string denotes, or why it denotes none.
    fn from_token(text: &str) -> (r: Result<Self, String>)
        ensures
            result_view(r) == Self::read(text@),
    ;
}

impl Token for usize {
    open spec fn read(text: Text) -> Result<usize, Text> {
        match integer_of(text, false, usize::MAX as nat, 0) {
            Ok(v) => Ok(v as usize),
            Err(e) => Err(e.words()),
        }
    }

    fn from_token(text: &str) -> (r: Result<usize, String>) {
        match read_integer(text, false, usize::MAX as u64, 0) {
            Ok((_, v)) => Ok(v as usize),
            Err(e) => Err(e.message()),
        }
    }
}

impl Token for i64 {
    open spec fn read(text: Text) -> Result<i64, Text> {
        match integer_of(text, true, i64::MAX as nat, i64::MAX as nat + 1) {
            Ok(v) => Ok(v as i64),
            Err(e) => Err(e.words()),
        }
    }

    fn from_token(text: &str) -> (r: Result<i64, String>) {
        match read_integer(text, true, i64::MAX as u64, i64::MAX as u64 + 1) {
            Ok((negative, v)) => if negative && v > 0 {
                Ok(-((v - 1) as i64) - 1)
            } else {
                Ok(v as i64)
            },
            Err(e) => Err(e.message()),
        }
    }
}

/// `s` without the sign at its start, where there is one.
pub open spec fn unsigned(s: Text) -> Text {
    if s.len() > 0 && (s[0] == '+' || s[0] == '-') {
        s.drop_first()
    } else {
        s
    }
}

/// How many digits stand at the start of `s`.
pub open spec fn leading_digits(s: Text) -> nat
    decreases s.len(),
{
    if s.len() > 0 && is_digit(s[0]) {
        1 + leading_digits(s.drop_first())
    } else {
        0
    }
}

/// Whether `c` is the lower-case letter `letter` in either case.
pub open spec fn is_letter(c: char, letter: char) -> bool {
    c == letter || c as int + 32 == letter as int
}

/// Whether `s` spells the lower-case letters `word` in any mixture of cases.
pub open spec fn spells(s: Text, word: Text) -> bool {
    &&& s.len() == word.len()
    &&& forall|i: int| 0 <= i < s.len() ==> is_letter(#[trigger] s[i], word[i])
}

/// Whether `s` is an exponent: the letter e, at most one sign, and digits.
pub open spec fn is_exponent(s: Text) -> bool {
    &&& s.len() > 0
    &&& is_letter(s[0], 'e')
    &&& unsigned(s.drop_first()).len() > 0
    &&& leading_digits(unsigned(s.drop_first())) == unsigned(s.drop_first()).len()
}

/// Whether `s` is an unsigned decimal number: digits with at most one point among them, at least
/// one digit in all, and at most one exponent after them.
pub open spec fn is_number(s: Text) -> bool {
    let whole = leading_digits(s);
    let rest = s.skip(whole as int);
    if rest.len() > 0 && rest[0] == '.' {
        let part = leading_digits(rest.drop_first());
        let tail = rest.drop_first().skip(part as int);
        whole + part > 0 && (tail.len() == 0 || is_exponent(tail))
    } else {
        whole > 0 && (rest.len() == 0 || is_exponent(rest))
    }
}

/// Whether `s` is a floating-point literal: a number, an infinity or no number, after at most one
/// sign.
pub open spec fn is_float_literal(s: Text) -> bool {
    let body = unsigned(s);
    ||| is_number(body)
    ||| spells(body, seq!['i', 'n', 'f'])
    ||| spells(body, seq!['i', 'n', 'f', 'i', 'n', 'i', 't', 'y'])
    ||| spells(body, seq!['n', 'a', 'n'])
}

/// Where the digits that start at `from` end.
fn skip_digits(chars: &Vec<char>, from: usize) -> (to: usize)
    requires
        from <= chars@.len(),
    ensures
        from <= to <= chars@.len(),
        to - from == leading_digits(chars@.skip(from as int)),
{
    let mut to: usize = from;
    while to < chars.len() && '0' <= chars[to] && chars[to] <= '9'
        invariant
            from <= to <= chars@.len(),
            leading_digits(chars@.skip(from as int)) == (to - from) + leading_digits(
                chars@.skip(to as int),
            ),
        decreases chars@.len() - to,
    {
        assert(chars@.skip(to as int).drop_first() == chars@.skip(to + 1));
        to += 1;
    }
    to
}

/// Where the text goes on after the sign that may stand at `from`.
fn skip_sign(chars: &Vec<char>, from: usize) -> (to: usize)
    requires
        from <= chars@.len(),
    ensures
        from <= to <= chars@.len(),
        chars@.skip(to as int) == unsigned(chars@.skip(from as int)),
{
    if from < chars.len() && (chars[from] == '+' || chars[from] == '-') {
        assert(chars@.skip(from as int).drop_first() == chars@.skip(from + 1));
        from + 1
    } else {
        from
    }
}

/// Whether a character is a lower-case letter in either case.
fn letter(c: char, expected: char) -> (r: bool)
    requires
        expected as int >= 32,
    ensures
        r == is_letter(c, expected),
{
    c == expected || c as u32 == expected as u32 - 32
}

/// Whether the text from `from` on spells the word.
fn spells_from(chars: &Vec<char>, from: usize, word: &[char]) -> (r: bool)
    requires
        from <= chars@.len(),
        forall|i: int| 0 <= i < word@.len() ==> #[trigger] word@[i] as int >= 32,
    ensures
        r == spells(chars@.skip(from as int), word@),
{
    let end: usize = chars.len();
    if end - from != word.len() {
        return false;
    }
    let mut i: usize = 0;
    while i < word.len()
        invariant
            i <= word@.len(),
            from + word@.len() == end == chars@.len(),
            forall|j: int| 0 <= j < word@.len() ==> #[trigger] word@[j] as int >= 32,
            forall|j: int| 0 <= j < i ==> is_letter(chars@.skip(from as int)[j], #[trigger] word@[j]),
        decreases word@.len() - i,
    {
        if !letter(chars[from + i], word[i]) {
            assert(!is_letter(chars@.skip(from as int)[i as int], word@[i as int]));
            return false;
        }
        i += 1;
    }
    assert forall|j: int| 0 <= j < chars@.skip(from as int).len() implies is_letter(
        #[trigger] chars@.skip(from as int)[j],
        word@[j],
    ) by {
        assert(is_letter(chars@.skip(from as int)[j], word@[j]));
    }
    true
}

/// Whether the text from `from` on is an exponent.
fn exponent_from(chars: &Vec<char>, from: usize) -> (r: bool)
    requires
        from <= chars@.len(),
    ensures
        r == is_exponent(chars@.skip(from as int)),
{
    if from == chars.len() || !letter(chars[from], 'e') {
        return false;
    }
    assert(chars@.skip(from as int).drop_first() == chars@.skip(from + 1));
    let digits = skip_sign(chars, from + 1);
    let end = skip_digits(chars, digits);
    digits < chars.len() && end == chars.len()
}

/// Whether the text from `from` on is an unsigned decimal number.
fn number_from(chars: &Vec<char>, from: usize) -> (r: bool)
    requires
        from <= chars@.len(),
    ensures
        r == is_number(chars@.skip(from as int)),
{
    let whole = skip_digits(chars, from);
    assert(chars@.skip(from as int).skip(whole - from) == chars@.skip(whole as int));
    if whole < chars.len() && chars[whole] == '.' {
        assert(chars@.skip(whole as int).drop_first() == chars@.skip(whole + 1));
        let end = skip_digits(chars, whole + 1);
        assert(chars@.skip(whole + 1).skip(end - whole - 1) == chars@.skip(end as int));
        (whole > from || end > whole + 1) && (end == chars.len() || exponent_from(chars, end))
    } else {
        whole > from && (whole == chars.len() || exponent_from(chars, whole))
    }
}

/// Whether a string is a floating-point literal.
pub fn float_literal(s: &str) -> (r: bool)
    ensures
        r == is_float_literal(s@),
{
    let chars = chars_of(s);
    assert(s@.skip(0) == s@);
    let body = skip_sign(&chars, 0);
    let inf: [char; 3] = ['i', 'n', 'f'];
    let infinity: [char; 8] = ['i', 'n', 'f', 'i', 'n', 'i', 't', 'y'];
    let nan: [char; 3] = ['n', 'a', 'n'];
    assert(inf@ == seq!['i', 'n', 'f']);
    assert(infinity@ == seq!['i', 'n', 'f', 'i', 'n', 'i', 't', 'y']);
    assert(nan@ == seq!['n', 'a', 'n']);
    number_from(&chars, body) || spells_from(&chars, body, &inf) || spells_from(
        &chars,
        body,
        &infinity,
    ) || spells_from(&chars, body, &nan)
}

/// A floating-point number as it is written.
#[derive(Debug)]
pub struct Real {
    /// The literal.
    pub literal: String,
}

impl View for Real {
    type V = Text;

    open spec fn view(&self) -> Text {
        self.literal@
    }
}

impl Clone for Real {
    fn clone(&self) -> (r: Real)
        ensures
            r == *self,
    {
        Real { literal: self.literal.clone() }
    }
}

impl Token for Real {
    open spec fn read(text: Text) -> Result<Text, Text> {
        if is_float_literal(text) {
            Ok(text)
        } else if text.len() == 0 {
            Err("cannot parse float from empty string"@)
        } else {
            Err("invalid float literal"@)
        }
    }

    fn from_token(text: &str) -> (r: Result<Real, String>) {
        if float_literal(text) {
            Ok(Real { literal: text.to_owned() })
        } else if text.is_empty() {
            Err("cannot parse float from empty string".to_owned())
        } else {
            Err("invalid float literal".to_owned())
        }
    }
}

} // verus!
