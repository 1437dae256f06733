//! How text is parted into lines and words, and how words are read as numbers.
use crate::number::{
    IntegerError, Token, digit_char, is_digit, is_exponent, is_float_literal, is_number,
    leading_digits, magnitude_of, unsigned,
};
use crate::paths::below;
use crate::reading_back::{is_word, lemma_word_length};
use crate::text::{
    Text, is_white, line_length, lines_of, trim_end, trim_start, trimmed, word_length, words_of,
};
use vstd::prelude::*;

verus! {

/// Of the first characters the tabulators, line feeds and the like are white space, and the space.
pub proof fn law_white_space(c: char)
    requires
        c < '\u{80}',
    ensures
        is_white(c) <==> c == ' ' || c == '\t' || c == '\n' || c == '\r' || c == '\u{b}' || c
            == '\u{c}',
{
}

/// A word goes as far as there is no white space.
proof fn lemma_word_length_of(s: Text)
    ensures
        word_length(s) <= s.len(),
        forall|i: int| 0 <= i < word_length(s) ==> !is_white(#[trigger] s[i]),
        word_length(s) < s.len() ==> is_white(s[word_length(s) as int]),
    decreases s.len(),
{
    if s.len() > 0 && !is_white(s[0]) {
        let rest = s.drop_first();
        lemma_word_length_of(rest);
        assert forall|i: int| 0 <= i < word_length(s) implies !is_white(#[trigger] s[i]) by {
            if i > 0 {
                assert(s[i] == rest[i - 1]);
            }
        }
    }
}

/// White space parts words, and so does nothing else.
pub proof fn law_white_space_parts_words(a: Text, c: char, b: Text)
    requires
        is_white(c),
    ensures
        words_of(a + seq![c] + b) == words_of(a) + words_of(b),
    decreases a.len(),
{
    let all = a + seq![c] + b;
    if a.len() == 0 {
        assert(all[0] == c);
        assert(all.drop_first() =~= b);
        assert(words_of(a) =~= Seq::empty());
        assert(words_of(a) + words_of(b) =~= words_of(b));
    } else if is_white(a[0]) {
        assert(all.drop_first() =~= a.drop_first() + seq![c] + b);
        law_white_space_parts_words(a.drop_first(), c, b);
    } else {
        lemma_word_length_of(a);
        let n = word_length(a) as int;
        assert(n > 0);
        let word = a.take(n);
        let rest = a.skip(n);
        let tail = rest + seq![c] + b;
        assert(all =~= word + tail);
        assert(tail[0] == if n < a.len() {
            a[n]
        } else {
            c
        });
        lemma_word_length(word, tail);
        assert(all.take(n) =~= word);
        assert(all.skip(n) =~= tail);
        law_white_space_parts_words(rest, c, b);
        assert(words_of(all) == seq![word] + words_of(tail));
        assert(words_of(a) == seq![word] + words_of(rest));
        assert(seq![word] + (words_of(rest) + words_of(b)) =~= seq![word] + words_of(rest)
            + words_of(b));
    }
}

/// Words hold no white space.
pub proof fn law_words_are_words(s: Text, i: int)
    requires
        0 <= i < words_of(s).len(),
    ensures
        is_word(words_of(s)[i]),
    decreases s.len(),
{
    if is_white(s[0]) {
        law_words_are_words(s.drop_first(), i);
    } else {
        lemma_word_length_of(s);
        let n = word_length(s) as int;
        let word = s.take(n);
        if i == 0 {
            assert forall|k: int| 0 <= k < word.len() implies !is_white(#[trigger] word[k]) by {
                assert(word[k] == s[k]);
            }
        } else {
            law_words_are_words(s.skip(n), i - 1);
        }
    }
}

/// What is trimmed is what stands between white space, and starts and ends with none.
pub proof fn law_trimming_cuts_white_space(s: Text)
    ensures
        trimmed(s).len() > 0 ==> !is_white(trimmed(s)[0]) && !is_white(trimmed(s).last()),
        exists|a: Text, b: Text| s == #[trigger] (a + trimmed(s) + b) && is_blank(a) && is_blank(b),
{
    lemma_trim_start(s);
    let t = trim_start(s);
    lemma_trim_end(t);
    let a = choose|a: Text| s == #[trigger] (a + t) && is_blank(a);
    let b = choose|b: Text| t == #[trigger] (trim_end(t) + b) && is_blank(b);
    assert(s =~= a + trimmed(s) + b);
}

/// Whether a text is white space only.
pub open spec fn is_blank(s: Text) -> bool {
    forall|i: int| 0 <= i < s.len() ==> is_white(#[trigger] s[i])
}

/// White space at the start is cut off.
proof fn lemma_trim_start(s: Text)
    ensures
        trim_start(s).len() > 0 ==> !is_white(trim_start(s)[0]),
        exists|a: Text| s == #[trigger] (a + trim_start(s)) && is_blank(a),
    decreases s.len(),
{
    if s.len() > 0 && is_white(s[0]) {
        let rest = s.drop_first();
        lemma_trim_start(rest);
        let a = choose|a: Text| rest == #[trigger] (a + trim_start(rest)) && is_blank(a);
        let longer = seq![s[0]] + a;
        assert(rest == a + trim_start(rest));
        assert(trim_start(s) == trim_start(rest));
        assert(s =~= seq![s[0]] + rest);
        assert(s =~= longer + trim_start(s));
        assert forall|i: int| 0 <= i < longer.len() implies is_white(#[trigger] longer[i]) by {
            if i > 0 {
                assert(longer[i] == a[i - 1]);
            }
        }
    } else {
        assert(s =~= Seq::<char>::empty() + trim_start(s));
        assert(is_blank(Seq::<char>::empty()));
    }
}

/// White space at the end is cut off, and what is at the start stays.
proof fn lemma_trim_end(s: Text)
    ensures
        trim_end(s).len() > 0 ==> !is_white(trim_end(s).last()) && trim_end(s)[0] == s[0],
        exists|b: Text| s == #[trigger] (trim_end(s) + b) && is_blank(b),
    decreases s.len(),
{
    if s.len() > 0 && is_white(s.last()) {
        let rest = s.drop_last();
        lemma_trim_end(rest);
        let b = choose|b: Text| rest == #[trigger] (trim_end(rest) + b) && is_blank(b);
        let longer = b.push(s.last());
        assert(rest == trim_end(rest) + b);
        assert(trim_end(s) == trim_end(rest));
        assert(s =~= rest.push(s.last()));
        assert(s =~= trim_end(s) + longer);
        assert forall|i: int| 0 <= i < longer.len() implies is_white(#[trigger] longer[i]) by {
            if i < b.len() {
                assert(longer[i] == b[i]);
            }
        }
    } else {
        assert(s =~= trim_end(s) + Seq::<char>::empty());
        assert(is_blank(Seq::<char>::empty()));
    }
}

/// A line goes as far as there is no line feed.
proof fn lemma_line_length_of(line: Text, tail: Text)
    requires
        forall|i: int| 0 <= i < line.len() ==> #[trigger] line[i] != '\n',
        tail.len() == 0 || tail[0] == '\n',
    ensures
        line_length(line + tail) == line.len(),
    decreases line.len(),
{
    if line.len() == 0 {
        assert(line + tail =~= tail);
    } else {
        let rest = line.drop_first();
        assert((line + tail).drop_first() =~= rest + tail);
        assert forall|i: int| 0 <= i < rest.len() implies #[trigger] rest[i] != '\n' by {
            assert(rest[i] == line[i + 1]);
        }
        lemma_line_length_of(rest, tail);
        assert((line + tail)[0] == line[0]);
    }
}

/// Lines end in a line feed, with a carriage return before it or not, which is no part of the line. The
/// last line counts without one.
pub proof fn law_line_feeds_end_lines(line: Text, rest: Text)
    requires
        forall|i: int| 0 <= i < line.len() ==> #[trigger] line[i] != '\n',
        line.len() > 0 ==> line.last() != '\r',
    ensures
        lines_of(line + seq!['\n'] + rest) == seq![line] + lines_of(rest),
        lines_of(line + seq!['\r', '\n'] + rest) == seq![line] + lines_of(rest),
        line.len() > 0 ==> lines_of(line) == seq![line],
{
    let plain = seq!['\n'] + rest;
    let all = line + plain;
    assert(line + seq!['\n'] + rest =~= all);
    lemma_line_length_of(line, plain);
    assert(all.take(line.len() as int) =~= line);
    assert(all.skip(line.len() as int + 1) =~= rest);
    let longer = line.push('\r');
    let other = longer + plain;
    assert(line + seq!['\r', '\n'] + rest =~= other);
    assert forall|i: int| 0 <= i < longer.len() implies #[trigger] longer[i] != '\n' by {
        if i < line.len() {
            assert(longer[i] == line[i]);
        }
    }
    lemma_line_length_of(longer, plain);
    assert(other.take(longer.len() as int) =~= longer);
    assert(other.skip(longer.len() as int + 1) =~= rest);
    assert(longer.drop_last() =~= line);
    let none = Seq::<char>::empty();
    assert(line + none =~= line);
    lemma_line_length_of(line, none);
}

/// Whether a text is digits only.
pub open spec fn are_digits(s: Text) -> bool {
    forall|i: int| 0 <= i < s.len() ==> is_digit(#[trigger] s[i])
}

/// What is read as a magnitude is digits only.
proof fn lemma_magnitude(s: Text, limit: nat, excess: IntegerError)
    ensures
        magnitude_of(s, limit, excess) is Ok ==> are_digits(s),
    decreases s.len(),
{
    if s.len() > 0 && magnitude_of(s, limit, excess) is Ok {
        lemma_magnitude(s.drop_last(), limit, excess);
        assert forall|i: int| 0 <= i < s.len() implies is_digit(#[trigger] s[i]) by {
            if i < s.len() - 1 {
                assert(s[i] == s.drop_last()[i]);
            }
        }
    }
}

/// Only digits are read as a number that is not negative, with a plus sign before them or not.
pub proof fn law_numbers_are_digits(s: Text)
    ensures
        <usize as Token>::read(s) is Ok ==> s.len() > 0 && (are_digits(s) || s.len() > 1 && s[0]
            == '+' && are_digits(s.drop_first())),
        <i64 as Token>::read(s) is Ok ==> s.len() > 0 && (are_digits(s) || s.len() > 1 && (s[0]
            == '+' || s[0] == '-') && are_digits(s.drop_first())),
{
    let rest = s.drop_first();
    lemma_magnitude(s, usize::MAX as nat, IntegerError::TooLarge);
    lemma_magnitude(s, i64::MAX as nat, IntegerError::TooLarge);
    lemma_magnitude(rest, usize::MAX as nat, IntegerError::TooLarge);
    lemma_magnitude(rest, i64::MAX as nat, IntegerError::TooLarge);
    lemma_magnitude(rest, (i64::MAX + 1) as nat, IntegerError::TooSmall);
}

/// Numbers are read digit by digit, each counting ten times as much as the next. A plus sign does not
/// change a number, and a minus sign makes it negative.
pub proof fn law_digits_count_tenfold(s: Text, d: nat)
    requires
        d < 10,
        are_digits(s),
        s.len() > 0,
    ensures
        <usize as Token>::read(seq![digit_char(d)]) == Ok::<usize, Text>(d as usize),
        <usize as Token>::read(s) matches Ok(v) ==> {
            &&& 10 * v + d <= usize::MAX ==> <usize as Token>::read(s.push(digit_char(d))) == Ok::<
                usize,
                Text,
            >((10 * v + d) as usize)
            &&& 10 * v + d > usize::MAX ==> <usize as Token>::read(s.push(digit_char(d))) is Err
        },
        <usize as Token>::read(seq!['+'] + s) == <usize as Token>::read(s),
        <i64 as Token>::read(seq!['+'] + s) == <i64 as Token>::read(s),
        <i64 as Token>::read(s) matches Ok(v) ==> <i64 as Token>::read(seq!['-'] + s) == Ok::<
            i64,
            Text,
        >((-v) as i64),
{
    assert(is_digit(s[0]));
    let one = seq![digit_char(d)];
    reveal_with_fuel(magnitude_of, 2);
    assert(one.drop_last() =~= Seq::<char>::empty());
    assert((digit_char(d) as int) == 48 + d);
    let longer = s.push(digit_char(d));
    assert(longer.drop_last() =~= s);
    assert(longer[0] == s[0]);
    assert((seq!['+'] + s).drop_first() =~= s);
    assert((seq!['-'] + s).drop_first() =~= s);
    lemma_limits(s, i64::MAX as nat, (i64::MAX + 1) as nat);
}

/// What can be read up to a limit can be read up to a higher one.
proof fn lemma_limits(s: Text, low: nat, high: nat)
    requires
        low <= high,
    ensures
        magnitude_of(s, low, IntegerError::TooLarge) matches Ok(v) ==> v <= low && magnitude_of(
            s,
            high,
            IntegerError::TooSmall,
        ) == Ok::<nat, IntegerError>(v),
    decreases s.len(),
{
    if s.len() > 0 {
        lemma_limits(s.drop_last(), low, high);
    }
}

/// Digits go as far as they go.
proof fn lemma_digits(s: Text, tail: Text)
    requires
        are_digits(s),
        tail.len() == 0 || !is_digit(tail[0]),
    ensures
        leading_digits(s + tail) == s.len(),
    decreases s.len(),
{
    if s.len() == 0 {
        assert(s + tail =~= tail);
    } else {
        let rest = s.drop_first();
        assert((s + tail).drop_first() =~= rest + tail);
        assert forall|i: int| 0 <= i < rest.len() implies is_digit(#[trigger] rest[i]) by {
            assert(rest[i] == s[i + 1]);
        }
        lemma_digits(rest, tail);
        assert((s + tail)[0] == s[0]);
        assert(is_digit(s[0]));
    }
}

/// Whether a text is a sign or nothing.
pub open spec fn is_sign(s: Text) -> bool {
    s.len() == 0 || s == seq!['+'] || s == seq!['-']
}

/// Whether a text is nothing or an exponent: a letter `e`, a sign or none, and digits.
pub open spec fn is_power(s: Text) -> bool {
    s.len() == 0 || exists|letter: char, sign: Text, digits: Text|
        {
            &&& letter == 'e' || letter == 'E'
            &&& is_sign(sign)
            &&& digits.len() > 0
            &&& are_digits(digits)
            &&& s == #[trigger] (seq![letter] + sign + digits)
        }
}

/// Exponents are taken for exponents.
proof fn lemma_power(s: Text)
    requires
        is_power(s),
    ensures
        s.len() == 0 || is_exponent(s),
        s.len() > 0 ==> !is_digit(s[0]) && s[0] != '.',
{
    if s.len() > 0 {
        let (letter, sign, digits) = choose|letter: char, sign: Text, digits: Text|
            {
                &&& letter == 'e' || letter == 'E'
                &&& is_sign(sign)
                &&& digits.len() > 0
                &&& are_digits(digits)
                &&& s == #[trigger] (seq![letter] + sign + digits)
            };
        let rest = s.drop_first();
        assert(rest =~= sign + digits);
        assert(s[0] == letter);
        assert(is_digit(digits[0]));
        if sign.len() == 0 {
            assert(rest =~= digits);
            assert(unsigned(rest) == digits);
        } else {
            assert(rest[0] == sign[0]);
            assert(rest.drop_first() =~= digits);
        }
        let none = Seq::<char>::empty();
        assert(digits + none =~= digits);
        lemma_digits(digits, none);
    }
}

/// Digits with an exponent behind them are a number.
proof fn lemma_plain(whole: Text, power: Text)
    requires
        whole.len() > 0,
        are_digits(whole),
        is_power(power),
    ensures
        is_number(whole + power),
        (whole + power)[0] == whole[0],
{
    lemma_power(power);
    lemma_digits(whole, power);
    assert((whole + power).skip(whole.len() as int) =~= power);
}

/// Digits with a point and an exponent behind them are a number.
proof fn lemma_pointed(whole: Text, part: Text, power: Text)
    requires
        whole.len() + part.len() > 0,
        are_digits(whole),
        are_digits(part),
        is_power(power),
    ensures
        is_number(whole + (seq!['.'] + (part + power))),
{
    lemma_power(power);
    let behind = part + power;
    let point = seq!['.'] + behind;
    let s = whole + point;
    lemma_digits(whole, point);
    assert(s.skip(whole.len() as int) =~= point);
    assert(point.drop_first() =~= behind);
    lemma_digits(part, power);
    assert(behind.skip(part.len() as int) =~= power);
}

/// Numbers are written with a sign or none, digits, and a point with digits behind it or none; there
/// are digits before or behind the point. An exponent may follow.
pub proof fn law_decimal_numbers_are_literals(sign: Text, whole: Text, part: Text, power: Text)
    requires
        is_sign(sign),
        are_digits(whole),
        are_digits(part),
        is_power(power),
    ensures
        whole.len() > 0 ==> is_float_literal(sign + (whole + power)),
        whole.len() + part.len() > 0 ==> is_float_literal(
            sign + (whole + (seq!['.'] + (part + power))),
        ),
{
    if whole.len() > 0 {
        assert(is_digit(whole[0]));
        lemma_plain(whole, power);
        lemma_signed(sign, whole + power);
    }
    if whole.len() + part.len() > 0 {
        lemma_pointed(whole, part, power);
        let s = whole + (seq!['.'] + (part + power));
        if whole.len() > 0 {
            assert(s[0] == whole[0]);
        } else {
            assert(s[0] == '.');
        }
        lemma_signed(sign, s);
    }
}

/// A sign before a number is none of its digits.
proof fn lemma_signed(sign: Text, s: Text)
    requires
        is_sign(sign),
        s.len() > 0,
        s[0] != '+' && s[0] != '-',
    ensures
        unsigned(sign + s) == s,
{
    let all = sign + s;
    if sign.len() == 0 {
        assert(all =~= s);
    } else {
        assert(all.drop_first() =~= s);
    }
}

/// What is written of letters other than those of numbers is no number.
pub proof fn law_words_are_no_numbers(s: Text)
    requires
        s.len() > 0,
        !is_digit(s[0]),
        s[0] != '+',
        s[0] != '-',
        s[0] != '.',
        s[0] != 'i',
        s[0] != 'I',
        s[0] != 'n',
        s[0] != 'N',
    ensures
        !is_float_literal(s),
        <usize as Token>::read(s) is Err,
        <i64 as Token>::read(s) is Err,
{
    law_numbers_are_digits(s);
}

/// A path below a directory is the directory, a slash and the path; no slash is added to one that is
/// there, nor to nothing. A path from the root stands for itself.
pub proof fn law_paths_are_joined_by_slashes(dir: Text, path: Text)
    ensures
        path.len() > 0 && path[0] == '/' ==> below(dir, path) == path,
        (path.len() == 0 || path[0] != '/') && dir.len() > 0 && dir.last() != '/' ==> below(
            dir,
            path,
        ) == dir + seq!['/'] + path,
        (path.len() == 0 || path[0] != '/') && (dir.len() == 0 || dir.last() == '/') ==> below(
            dir,
            path,
        ) == dir + path,
{
    reveal_strlit("/");
    assert("/"@ =~= seq!['/']);
}

} // verus!
