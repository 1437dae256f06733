//! What is written is read back as it was.
use crate::number::{
    IntegerError, Token, decimal_of, digit_char, is_digit, is_exponent, is_float_literal, is_letter,
    is_number, leading_digits, magnitude_of, spells, unsigned,
};
use crate::text::{
    Text, is_white, line_length, lines_of, trim_start, trimmed, unlines, word_length, words_of,
};
use vstd::prelude::*;

verus! {

/// Whether a text is one word: it is not empty and holds no white space.
pub open spec fn is_word(s: Text) -> bool {
    s.len() > 0 && forall|i: int| 0 <= i < s.len() ==> !is_white(#[trigger] s[i])
}

/// Whether a text can stand on a line of its own and be read back: it holds no line feed, and does
/// not end in a carriage return.
pub open spec fn is_line(s: Text) -> bool {
    &&& forall|i: int| 0 <= i < s.len() ==> #[trigger] s[i] != '\n'
    &&& s.len() > 0 ==> s.last() != '\r'
}

/// A word ends where white space starts.
pub proof fn lemma_word_length(s: Text, tail: Text)
    requires
        forall|i: int| 0 <= i < s.len() ==> !is_white(#[trigger] s[i]),
        tail.len() == 0 || is_white(tail[0]),
    ensures
        word_length(s + tail) == s.len(),
    decreases s.len(),
{
    if s.len() == 0 {
        assert(s + tail =~= tail);
    } else {
        let rest = s.drop_first();
        assert((s + tail).drop_first() =~= rest + tail);
        assert forall|i: int| 0 <= i < rest.len() implies !is_white(#[trigger] rest[i]) by {
            assert(rest[i] == s[i + 1]);
        }
        lemma_word_length(rest, tail);
        assert((s + tail)[0] == s[0]);
    }
}

/// A word with a space after it is the first word of what follows.
pub proof fn lemma_first_word(word: Text, rest: Text)
    requires
        is_word(word),
    ensures
        words_of(word + " "@ + rest) == seq![word] + words_of(rest),
{
    reveal_strlit(" ");
    let tail = " "@ + rest;
    let s = word + tail;
    assert(word + " "@ + rest =~= s);
    lemma_word_length(word, tail);
    assert(s[0] == word[0]);
    assert(s.take(word.len() as int) =~= word);
    assert(s.skip(word.len() as int) =~= tail);
    assert(tail.drop_first() =~= rest);
    assert(words_of(tail) == words_of(rest));
}

/// A word is the only one of its words.
pub proof fn lemma_only_word(word: Text)
    requires
        is_word(word),
    ensures
        words_of(word) == seq![word],
{
    let none = Seq::<char>::empty();
    lemma_word_length(word, none);
    assert(word + none =~= word);
    assert(word.take(word.len() as int) =~= word);
    assert(word.skip(word.len() as int) =~= none);
    assert(seq![word] + words_of(none) =~= seq![word]);
}

/// A text that neither starts nor ends with white space is not changed by trimming.
pub proof fn lemma_trimmed(s: Text)
    requires
        s.len() > 0,
        !is_white(s[0]),
        !is_white(s.last()),
    ensures
        trimmed(s) == s,
{
    assert(trim_start(s) == s);
}

/// A line ends at its line feed.
proof fn lemma_line_length(line: Text, tail: Text)
    requires
        forall|i: int| 0 <= i < line.len() ==> #[trigger] line[i] != '\n',
        tail.len() > 0,
        tail[0] == '\n',
    ensures
        line_length(line + tail) == line.len(),
    decreases line.len(),
{
    if line.len() == 0 {
        assert(line + tail =~= tail);
    } else {
        let rest = line.drop_first();
        assert((line + tail).drop_first() =~= rest + tail);
        assert forall|i: int| 0 <= i < rest.len() implies #[trigger] rest[i] != '\n' by {
            assert(rest[i] == line[i + 1]);
        }
        lemma_line_length(rest, tail);
        assert((line + tail)[0] == line[0]);
    }
}

/// A line with a line feed after it is the first line of what follows.
proof fn lemma_first_line(line: Text, rest: Text)
    requires
        is_line(line),
    ensures
        lines_of(line + ("\n"@ + rest)) == seq![line] + lines_of(rest),
{
    reveal_strlit("\n");
    let tail = "\n"@ + rest;
    let s = line + tail;
    lemma_line_length(line, tail);
    assert(s.take(line.len() as int) =~= line);
    assert(s.skip(line.len() as int + 1) =~= rest);
}

/// The first of the lines stands first in the text.
proof fn lemma_unlines_first(lines: Seq<Text>)
    requires
        lines.len() > 0,
    ensures
        unlines(lines) == lines[0] + ("\n"@ + unlines(lines.drop_first())),
    decreases lines.len(),
{
    let none = Seq::<Text>::empty();
    if lines.len() == 1 {
        assert(lines.drop_last() =~= none);
        assert(lines.drop_first() =~= none);
        assert(unlines(lines) =~= lines[0] + ("\n"@ + unlines(none)));
    } else {
        let before = lines.drop_last();
        let rest = lines.drop_first();
        lemma_unlines_first(before);
        assert(before.drop_first() =~= rest.drop_last());
        assert(rest.last() == lines.last());
        assert(before[0] == lines[0]);
        assert(unlines(lines) =~= lines[0] + ("\n"@ + unlines(rest)));
    }
}

/// Lines that are written, each with a line feed after it, are read back as they were.
pub proof fn law_lines_are_read_back(lines: Seq<Text>)
    requires
        forall|i: int| 0 <= i < lines.len() ==> is_line(#[trigger] lines[i]),
    ensures
        lines_of(unlines(lines)) == lines,
    decreases lines.len(),
{
    if lines.len() == 0 {
        assert(lines =~= Seq::<Text>::empty());
    } else {
        let rest = lines.drop_first();
        lemma_unlines_first(lines);
        lemma_first_line(lines[0], unlines(rest));
        assert forall|i: int| 0 <= i < rest.len() implies is_line(#[trigger] rest[i]) by {
            assert(rest[i] == lines[i + 1]);
        }
        law_lines_are_read_back(rest);
        assert(seq![lines[0]] + rest =~= lines);
    }
}

/// A number in decimal digits holds digits only.
pub proof fn lemma_decimal_digits(n: nat)
    ensures
        decimal_of(n).len() > 0,
        forall|i: int| 0 <= i < decimal_of(n).len() ==> is_digit(#[trigger] decimal_of(n)[i]),
    decreases n,
{
    if n >= 10 {
        lemma_decimal_digits(n / 10);
    }
}

/// A number in decimal digits is a word that can stand on a line.
pub proof fn lemma_decimal_is_word(n: nat)
    ensures
        is_word(decimal_of(n)),
        is_line(decimal_of(n)),
        trimmed(decimal_of(n)) == decimal_of(n),
{
    lemma_decimal_digits(n);
    lemma_trimmed(decimal_of(n));
}

/// The digits of a number are read back as the number.
pub proof fn lemma_digits_are_read_back(n: nat, limit: nat, excess: IntegerError)
    requires
        n <= limit,
    ensures
        magnitude_of(decimal_of(n), limit, excess) == Ok::<nat, IntegerError>(n),
    decreases n,
{
    let digits = decimal_of(n);
    reveal_with_fuel(magnitude_of, 2);
    if n < 10 {
        assert(digits.drop_last() =~= Seq::<char>::empty());
    } else {
        lemma_digits_are_read_back(n / 10, limit, excess);
        assert(digits.drop_last() =~= decimal_of(n / 10));
        assert(digits.last() == digit_char(n % 10));
    }
}

/// A number that is written in decimal digits is read back as it was.
pub proof fn law_integers_are_read_back(n: nat)
    ensures
        n <= usize::MAX ==> <usize as Token>::read(decimal_of(n)) == Ok::<usize, Text>(n as usize),
        n <= i64::MAX ==> <i64 as Token>::read(decimal_of(n)) == Ok::<i64, Text>(n as i64),
{
    lemma_decimal_digits(n);
    if n <= usize::MAX {
        lemma_digits_are_read_back(n, usize::MAX as nat, IntegerError::TooLarge);
    }
    if n <= i64::MAX {
        lemma_digits_are_read_back(n, i64::MAX as nat, IntegerError::TooLarge);
    }
}

/// What stands at the start of a text before its digits end are digits.
proof fn lemma_leading_digits(s: Text, i: int)
    requires
        0 <= i < leading_digits(s),
    ensures
        i < s.len(),
        is_digit(s[i]),
    decreases s.len(),
{
    if i > 0 {
        lemma_leading_digits(s.drop_first(), i - 1);
    }
}

/// There are no more digits at the start of a text than characters in it.
proof fn lemma_digits_bound(s: Text)
    ensures
        leading_digits(s) <= s.len(),
    decreases s.len(),
{
    if s.len() > 0 {
        lemma_digits_bound(s.drop_first());
    }
}

/// An exponent holds no white space.
proof fn lemma_exponent_is_word(s: Text)
    requires
        is_exponent(s),
    ensures
        is_word(s),
{
    let rest = s.drop_first();
    let digits = unsigned(rest);
    assert forall|i: int| 0 <= i < s.len() implies !is_white(#[trigger] s[i]) by {
        if i > 0 {
            assert(s[i] == rest[i - 1]);
            if digits == rest {
                lemma_leading_digits(digits, i - 1);
            } else if i > 1 {
                assert(digits =~= rest.drop_first());
                assert(digits[i - 2] == s[i]);
                lemma_leading_digits(digits, i - 2);
            }
        }
    }
}

/// A number holds no white space.
proof fn lemma_number_is_word(s: Text)
    requires
        is_number(s),
    ensures
        is_word(s),
{
    let whole = leading_digits(s);
    let rest = s.skip(whole as int);
    lemma_digits_bound(s);
    lemma_digits_bound(rest.drop_first());
    let part = leading_digits(rest.drop_first());
    let pointed = rest.len() > 0 && rest[0] == '.';
    let start = if pointed {
        whole + 1 + part
    } else {
        whole
    };
    let tail = if pointed {
        rest.drop_first().skip(part as int)
    } else {
        rest
    };
    if tail.len() > 0 {
        lemma_exponent_is_word(tail);
    }
    assert(tail =~= s.skip(start as int));
    assert forall|i: int| 0 <= i < s.len() implies !is_white(#[trigger] s[i]) by {
        if i < whole {
            lemma_leading_digits(s, i);
        } else if i < start {
            if i > whole {
                lemma_leading_digits(rest.drop_first(), i - whole - 1);
                assert(rest.drop_first()[i - whole - 1] == s[i]);
            } else {
                assert(rest[0] == s[i]);
            }
        } else {
            assert(tail[i - start] == s[i]);
        }
    }
}

/// A floating-point literal is a word.
pub proof fn lemma_literal_is_word(s: Text)
    requires
        is_float_literal(s),
    ensures
        is_word(s),
        is_line(s),
{
    let body = unsigned(s);
    if is_number(body) {
        lemma_number_is_word(body);
    } else {
        assert forall|i: int| 0 <= i < body.len() implies !is_white(#[trigger] body[i]) by {
            let c = body[i];
            if spells(body, seq!['i', 'n', 'f']) {
                assert(is_letter(c, seq!['i', 'n', 'f'][i]));
            } else if spells(body, seq!['n', 'a', 'n']) {
                assert(is_letter(c, seq!['n', 'a', 'n'][i]));
            } else {
                let word = seq!['i', 'n', 'f', 'i', 'n', 'i', 't', 'y'];
                assert(is_letter(c, word[i]));
            }
        }
    }
    assert forall|i: int| 0 <= i < s.len() implies !is_white(#[trigger] s[i]) by {
        if body.len() < s.len() && i > 0 {
            assert(body[i - 1] == s[i]);
        }
    }
}

} // verus!
