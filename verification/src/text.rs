//! Text as sequences of characters: white space, lines, words and joining.
use vstd::prelude::*;

verus! {

/// Text in contracts: the characters of a string.
pub type Text = Seq<char>;

/// `String::push`: the character given goes to the end of the string.
pub assume_specification[ String::push ](s: &mut String, c: char)
    ensures
        final(s)@ == old(s)@.push(c),
;

/// The characters with the Unicode property `White_Space`.
pub open spec fn is_white(c: char) -> bool {
    ||| '\u{9}' <= c <= '\u{d}'
    ||| c == '\u{20}'
    ||| c == '\u{85}'
    ||| c == '\u{a0}'
    ||| c == '\u{1680}'
    ||| '\u{2000}' <= c <= '\u{200a}'
    ||| c == '\u{2028}'
    ||| c == '\u{2029}'
    ||| c == '\u{202f}'
    ||| c == '\u{205f}'
    ||| c == '\u{3000}'
}

/// Whether a character is white space.
pub fn white(c: char) -> (b: bool)
    ensures
        b == is_white(c),
{
    ('\u{9}' <= c && c <= '\u{d}') || c == '\u{20}' || c == '\u{85}' || c == '\u{a0}' || c
        == '\u{1680}' || ('\u{2000}' <= c && c <= '\u{200a}') || c == '\u{2028}' || c == '\u{2029}'
        || c == '\u{202f}' || c == '\u{205f}' || c == '\u{3000}'
}

/// The characters of a string, in order.
pub fn chars_of(s: &str) -> (chars: Vec<char>)
    ensures
        chars@ == s@,
{
    let mut chars: Vec<char> = Vec::new();
    for c in it: s.chars()
        invariant
            chars@ == s@.take(it.index() as int),
            it.seq() == s@,
    {
        proof {
            assert(s@.take(it.index() + 1) == s@.take(it.index() as int).push(s@[it.index() as int]));
        }
        chars.push(c);
    }
    assert(s@.take(s@.len() as int) == s@);
    chars
}

/// The string of the characters from `from` up to `to`.
pub fn string_of(chars: &Vec<char>, from: usize, to: usize) -> (s: String)
    requires
        from <= to <= chars@.len(),
    ensures
        s@ == chars@.subrange(from as int, to as int),
{
    let mut s = String::new();
    let mut i: usize = from;
    while i < to
        invariant
            from <= i <= to <= chars@.len(),
            s@ == chars@.subrange(from as int, i as int),
        decreases to - i,
    {
        s.push(chars[i]);
        i += 1;
        assert(chars@.subrange(from as int, i as int) == chars@.subrange(from as int, i - 1).push(
            chars@[i - 1],
        ));
    }
    s
}

/// The values that a sequence of executable values stands for.
pub open spec fn views<T: View>(s: Seq<T>) -> Seq<T::V> {
    s.map_values(|t: T| t@)
}

/// The value that an optional executable value stands for.
pub open spec fn option_view<T: View>(o: Option<T>) -> Option<T::V> {
    match o {
        Some(t) => Some(t@),
        None => None,
    }
}

/// The value that a result stands for whose error is a message.
pub open spec fn result_view<T: View>(r: Result<T, String>) -> Result<T::V, Text> {
    match r {
        Ok(t) => Ok(t@),
        Err(e) => Err(e@),
    }
}

/// `head` before the sequence of a successful result.
pub open spec fn after<A>(head: Seq<A>, tail: Result<Seq<A>, Text>) -> Result<Seq<A>, Text> {
    match tail {
        Ok(t) => Ok(head + t),
        Err(e) => Err(e),
    }
}

/// The value of a longer sequence is the longer sequence of values.
pub proof fn lemma_views_push<T: View>(s: Seq<T>, t: T)
    ensures
        views(s.push(t)) == views(s).push(t@),
{
    assert(views(s.push(t)) =~= views(s).push(t@));
}

/// Adding an element to the head is adding it in front of the tail.
pub proof fn lemma_after_push<A>(head: Seq<A>, x: A, tail: Result<Seq<A>, Text>)
    ensures
        after(head.push(x), tail) == after(head, after(seq![x], tail)),
{
    if let Ok(t) = tail {
        assert(head.push(x) + t =~= head + (seq![x] + t));
    }
}

/// An empty head changes nothing.
pub proof fn lemma_after_empty<A>(tail: Result<Seq<A>, Text>)
    ensures
        after(Seq::<A>::empty(), tail) == tail,
{
    if let Ok(t) = tail {
        assert(Seq::<A>::empty() + t =~= t);
    }
}

/// Whether two strings hold the same characters.
pub fn same(a: &str, b: &str) -> (r: bool)
    ensures
        r == (a@ == b@),
{
    a.to_owned() == b.to_owned()
}

/// Two strings, one after the other.
pub fn text2(a: &str, b: &str) -> (r: String)
    ensures
        r@ == a@ + b@,
{
    a.to_owned().concat(b)
}

/// Three strings, one after the other.
pub fn text3(a: &str, b: &str, c: &str) -> (r: String)
    ensures
        r@ == a@ + b@ + c@,
{
    text2(a, b).concat(c)
}

/// Four strings, one after the other.
pub fn text4(a: &str, b: &str, c: &str, d: &str) -> (r: String)
    ensures
        r@ == a@ + b@ + c@ + d@,
{
    text3(a, b, c).concat(d)
}

/// Five strings, one after the other.
pub fn text5(a: &str, b: &str, c: &str, d: &str, e: &str) -> (r: String)
    ensures
        r@ == a@ + b@ + c@ + d@ + e@,
{
    text4(a, b, c, d).concat(e)
}

/// `s` without the white space at its start.
pub open spec fn trim_start(s: Text) -> Text
    decreases s.len(),
{
    if s.len() > 0 && is_white(s[0]) {
        trim_start(s.drop_first())
    } else {
        s
    }
}

/// `s` without the white space at its end.
pub open spec fn trim_end(s: Text) -> Text
    decreases s.len(),
{
    if s.len() > 0 && is_white(s.last()) {
        trim_end(s.drop_last())
    } else {
        s
    }
}

/// `s` without the white space at its two ends.
pub open spec fn trimmed(s: Text) -> Text {
    trim_end(trim_start(s))
}

/// The string without the white space at its two ends.
pub fn trim(s: &str) -> (r: String)
    ensures
        r@ == trimmed(s@),
{
    let chars = chars_of(s);
    let mut from: usize = 0;
    assert(s@.skip(0) == s@);
    while from < chars.len() && white(chars[from])
        invariant
            from <= chars@.len(),
            chars@ == s@,
            trim_start(s@) == trim_start(s@.skip(from as int)),
        decreases chars@.len() - from,
    {
        assert(s@.skip(from as int).drop_first() == s@.skip(from + 1));
        from += 1;
    }
    assert(trim_start(s@) == s@.skip(from as int));
    let mut to: usize = chars.len();
    assert(s@.skip(from as int) == s@.subrange(from as int, to as int));
    while to > from && white(chars[to - 1])
        invariant
            from <= to <= chars@.len(),
            chars@ == s@,
            trimmed(s@) == trim_end(s@.subrange(from as int, to as int)),
        decreases to,
    {
        assert(s@.subrange(from as int, to as int).drop_last() == s@.subrange(
            from as int,
            to - 1,
        ));
        to -= 1;
    }
    string_of(&chars, from, to)
}

/// How many characters at the start of `s` are not white space.
pub open spec fn word_length(s: Text) -> nat
    decreases s.len(),
{
    if s.len() > 0 && !is_white(s[0]) {
        1 + word_length(s.drop_first())
    } else {
        0
    }
}

/// A word is no longer than the text it starts.
pub proof fn lemma_word_length(s: Text)
    ensures
        word_length(s) <= s.len(),
        s.len() > 0 && !is_white(s[0]) ==> word_length(s) > 0,
    decreases s.len(),
{
    if s.len() > 0 {
        lemma_word_length(s.drop_first());
    }
}

/// The words of `s`: its longest runs of characters that are not white space.
pub open spec fn words_of(s: Text) -> Seq<Text>
    decreases s.len(),
{
    if s.len() == 0 {
        Seq::empty()
    } else if is_white(s[0]) {
        words_of(s.drop_first())
    } else {
        proof {
            lemma_word_length(s);
        }
        seq![s.take(word_length(s) as int)] + words_of(s.skip(word_length(s) as int))
    }
}

/// The words of a string, in order.
pub fn words(s: &str) -> (r: Vec<String>)
    ensures
        views(r@) == words_of(s@),
{
    let chars = chars_of(s);
    let mut out: Vec<String> = Vec::new();
    let mut i: usize = 0;
    assert(s@.skip(0) == s@);
    assert(views(out@) + words_of(s@) == words_of(s@));
    while i < chars.len()
        invariant
            i <= chars@.len(),
            chars@ == s@,
            views(out@) + words_of(s@.skip(i as int)) == words_of(s@),
        decreases chars@.len() - i,
    {
        let ghost rest = s@.skip(i as int);
        if white(chars[i]) {
            assert(rest.drop_first() == s@.skip(i + 1));
            i += 1;
        } else {
            let start: usize = i;
            assert(rest.take(0) == Seq::<char>::empty());
            while i < chars.len() && !white(chars[i])
                invariant
                    start <= i <= chars@.len(),
                    chars@ == s@,
                    rest == s@.skip(start as int),
                    word_length(rest) == (i - start) + word_length(s@.skip(i as int)),
                decreases chars@.len() - i,
            {
                assert(s@.skip(i as int).drop_first() == s@.skip(i + 1));
                i += 1;
            }
            assert(word_length(rest) == i - start);
            proof {
                lemma_word_length(rest);
            }
            let word = string_of(&chars, start, i);
            assert(word@ == rest.take(i - start));
            assert(rest.skip(i - start) == s@.skip(i as int));
            let ghost before = out@;
            out.push(word);
            assert(words_of(rest) == seq![word@] + words_of(s@.skip(i as int)));
            assert(views(out@) == views(before).push(word@));
            assert(views(before) + (seq![word@] + words_of(s@.skip(i as int))) == views(out@)
                + words_of(s@.skip(i as int)));
        }
    }
    assert(s@.skip(i as int) == Seq::<char>::empty());
    assert(views(out@) + Seq::<Text>::empty() == views(out@));
    out
}

/// How many characters stand before the first line feed of `s`, or in all of `s`.
pub open spec fn line_length(s: Text) -> nat
    decreases s.len(),
{
    if s.len() > 0 && s[0] != '\n' {
        1 + line_length(s.drop_first())
    } else {
        0
    }
}

/// A line is no longer than the text it starts.
pub proof fn lemma_line_length(s: Text)
    ensures
        line_length(s) <= s.len(),
    decreases s.len(),
{
    if s.len() > 0 {
        lemma_line_length(s.drop_first());
    }
}

/// A line without the carriage return before its line feed.
pub open spec fn without_return(line: Text) -> Text {
    if line.len() > 0 && line.last() == '\r' {
        line.drop_last()
    } else {
        line
    }
}

/// The lines of `s`. A line ends at a line feed, or at a carriage return followed by one; neither
/// belongs to the line. The last line may end without either.
pub open spec fn lines_of(s: Text) -> Seq<Text>
    decreases s.len(),
{
    let n = line_length(s);
    if s.len() == 0 {
        Seq::empty()
    } else if n >= s.len() {
        seq![s]
    } else {
        seq![without_return(s.take(n as int))] + lines_of(s.skip(n as int + 1))
    }
}

/// The lines of a string, in order.
pub fn lines(s: &str) -> (r: Vec<String>)
    ensures
        views(r@) == lines_of(s@),
{
    let chars = chars_of(s);
    let mut out: Vec<String> = Vec::new();
    let mut i: usize = 0;
    assert(s@.skip(0) == s@);
    assert(views(out@) + lines_of(s@) == lines_of(s@));
    while i < chars.len()
        invariant
            i <= chars@.len(),
            chars@ == s@,
            views(out@) + lines_of(s@.skip(i as int)) == lines_of(s@),
        decreases chars@.len() - i,
    {
        let ghost rest = s@.skip(i as int);
        let start: usize = i;
        while i < chars.len() && chars[i] != '\n'
            invariant
                start <= i <= chars@.len(),
                chars@ == s@,
                rest == s@.skip(start as int),
                line_length(rest) == (i - start) + line_length(s@.skip(i as int)),
            decreases chars@.len() - i,
        {
            assert(s@.skip(i as int).drop_first() == s@.skip(i + 1));
            i += 1;
        }
        assert(line_length(rest) == i - start);
        let ghost before = out@;
        if i == chars.len() {
            let line = string_of(&chars, start, i);
            assert(line@ == rest);
            out.push(line);
            assert(s@.skip(i as int) == Seq::<char>::empty());
            assert(lines_of(rest) == seq![line@]);
            assert(views(out@) == views(before).push(line@));
            assert(views(before) + seq![line@] == views(out@) + Seq::<Text>::empty());
        } else {
            let mut to: usize = i;
            assert(rest.take(i - start) == s@.subrange(start as int, i as int));
            if to > start && chars[to - 1] == '\r' {
                to -= 1;
                assert(rest.take(i - start).drop_last() == s@.subrange(start as int, to as int));
            }
            let line = string_of(&chars, start, to);
            assert(line@ == without_return(rest.take(i - start)));
            i += 1;
            out.push(line);
            assert(rest.skip(i - start) == s@.skip(i as int));
            assert(lines_of(rest) == seq![line@] + lines_of(s@.skip(i as int)));
            assert(views(out@) == views(before).push(line@));
            assert(views(before) + (seq![line@] + lines_of(s@.skip(i as int))) == views(out@)
                + lines_of(s@.skip(i as int)));
        }
    }
    assert(s@.skip(i as int) == Seq::<char>::empty());
    assert(views(out@) + Seq::<Text>::empty() == views(out@));
    out
}

/// The lines as one text, each with a line feed after it.
pub open spec fn unlines(lines: Seq<Text>) -> Text
    decreases lines.len(),
{
    if lines.len() == 0 {
        Seq::empty()
    } else {
        unlines(lines.drop_last()) + lines.last() + "\n"@
    }
}

/// Writes a line and a line feed at the end of a text.
pub(crate) fn write_line(text: &mut String, line: &str, Ghost(before): Ghost<Seq<Text>>)
    requires
        old(text)@ == unlines(before),
    ensures
        final(text)@ == unlines(before.push(line@)),
{
    text.append(line);
    text.append("\n");
    assert(before.push(line@).drop_last() =~= before);
}

/// Writes lines, each with a line feed after it, at the end of a text.
pub(crate) fn write_lines(text: &mut String, lines: &Vec<String>, Ghost(before): Ghost<Seq<Text>>)
    requires
        old(text)@ == unlines(before),
    ensures
        final(text)@ == unlines(before + views(lines@)),
{
    let ghost all = views(lines@);
    let mut i: usize = 0;
    assert(before + all.take(0) =~= before);
    while i < lines.len()
        invariant
            i <= lines@.len(),
            all == views(lines@),
            text@ == unlines(before + all.take(i as int)),
        decreases lines@.len() - i,
    {
        write_line(text, lines[i].as_str(), Ghost(before + all.take(i as int)));
        assert(before + all.take(i + 1) =~= (before + all.take(i as int)).push(all[i as int]));
        i += 1;
    }
    assert(all.take(i as int) =~= all);
}

/// Whether a string starts with another.
pub fn starts_with(s: &str, prefix: &str) -> (r: bool)
    ensures
        r == prefix@.is_prefix_of(s@),
{
    let chars = chars_of(s);
    let expected = chars_of(prefix);
    if expected.len() > chars.len() {
        return false;
    }
    let mut i: usize = 0;
    while i < expected.len()
        invariant
            i <= expected@.len() <= chars@.len(),
            chars@ == s@,
            expected@ == prefix@,
            forall|j: int| 0 <= j < i ==> chars@[j] == expected@[j],
        decreases expected@.len() - i,
    {
        if chars[i] != expected[i] {
            assert(s@.take(prefix@.len() as int)[i as int] != prefix@[i as int]);
            return false;
        }
        i += 1;
    }
    assert(prefix@ == s@.subrange(0, prefix@.len() as int));
    true
}

/// What follows `prefix` in `s`, where `s` starts with it.
pub open spec fn after_prefix(s: Text, prefix: Text) -> Option<Text> {
    if prefix.is_prefix_of(s) {
        Some(s.skip(prefix.len() as int))
    } else {
        None
    }
}

/// What follows a prefix, where the string starts with it.
pub fn strip_prefix(s: &str, prefix: &str) -> (r: Option<String>)
    ensures
        option_view(r) == after_prefix(s@, prefix@),
{
    if starts_with(s, prefix) {
        let chars = chars_of(s);
        let rest = string_of(&chars, prefix.unicode_len(), chars.len());
        assert(rest@ == s@.skip(prefix@.len() as int));
        Some(rest)
    } else {
        None
    }
}

/// What stands before the first `mark` in `s`, or all of `s`.
pub open spec fn before_mark(s: Text, mark: char) -> Text
    decreases s.len(),
{
    if s.len() == 0 || s[0] == mark {
        Seq::empty()
    } else {
        seq![s[0]] + before_mark(s.drop_first(), mark)
    }
}

/// What stands before the first `mark` in a string, or all of it.
pub fn until_mark(s: &str, mark: char) -> (r: String)
    ensures
        r@ == before_mark(s@, mark),
{
    let chars = chars_of(s);
    let mut out = String::new();
    let mut i: usize = 0;
    assert(s@.skip(0) == s@);
    assert(out@ + before_mark(s@, mark) == before_mark(s@, mark));
    while i < chars.len() && chars[i] != mark
        invariant
            i <= chars@.len(),
            chars@ == s@,
            out@ + before_mark(s@.skip(i as int), mark) == before_mark(s@, mark),
        decreases chars@.len() - i,
    {
        let ghost rest = s@.skip(i as int);
        let ghost before = out@;
        assert(rest.drop_first() == s@.skip(i + 1));
        out.push(chars[i]);
        i += 1;
        assert(before + (seq![rest[0]] + before_mark(rest.drop_first(), mark)) == out@
            + before_mark(rest.drop_first(), mark));
    }
    assert(out@ + Seq::<char>::empty() == out@);
    out
}

/// `n` times the character `c`.
pub open spec fn repeated(c: char, n: nat) -> Text {
    Seq::new(n, |i: int| c)
}

/// `s` with as many `fill` before it as are needed to make it `width` characters long.
pub open spec fn padded_left(s: Text, width: nat, fill: char) -> Text {
    if s.len() < width {
        repeated(fill, (width - s.len()) as nat) + s
    } else {
        s
    }
}

/// `s` with as many `fill` after it as are needed to make it `width` characters long.
pub open spec fn padded_right(s: Text, width: nat, fill: char) -> Text {
    if s.len() < width {
        s + repeated(fill, (width - s.len()) as nat)
    } else {
        s
    }
}

/// `n` times the character `c`.
pub fn repeat(c: char, n: usize) -> (r: String)
    ensures
        r@ == repeated(c, n as nat),
{
    let mut r = String::new();
    let mut i: usize = 0;
    while i < n
        invariant
            i <= n,
            r@ == repeated(c, i as nat),
        decreases n - i,
    {
        r.push(c);
        i += 1;
        assert(repeated(c, i as nat) == repeated(c, (i - 1) as nat).push(c));
    }
    r
}

/// The string filled up on its left.
pub fn pad_left(s: &str, width: usize, fill: char) -> (r: String)
    ensures
        r@ == padded_left(s@, width as nat, fill),
{
    let n = s.unicode_len();
    if n < width {
        repeat(fill, width - n).concat(s)
    } else {
        s.to_owned()
    }
}

/// The string filled up on its right.
pub fn pad_right(s: &str, width: usize, fill: char) -> (r: String)
    ensures
        r@ == padded_right(s@, width as nat, fill),
{
    let n = s.unicode_len();
    if n < width {
        let filling = repeat(fill, width - n);
        text2(s, filling.as_str())
    } else {
        s.to_owned()
    }
}

/// The parts, with `separator` between each two of them.
pub open spec fn joined(parts: Seq<Text>, separator: Text) -> Text
    decreases parts.len(),
{
    if parts.len() == 0 {
        Seq::empty()
    } else if parts.len() == 1 {
        parts[0]
    } else {
        joined(parts.drop_last(), separator) + separator + parts.last()
    }
}

/// The strings, with `separator` between each two of them.
pub fn join(parts: &Vec<String>, separator: &str) -> (r: String)
    ensures
        r@ == joined(views(parts@), separator@),
{
    let mut r = String::new();
    let mut i: usize = 0;
    let ghost all = views(parts@);
    while i < parts.len()
        invariant
            i <= parts@.len(),
            all == views(parts@),
            r@ == joined(all.take(i as int), separator@),
        decreases parts@.len() - i,
    {
        assert(all.take(i + 1).drop_last() == all.take(i as int));
        if i > 0 {
            r.append(separator);
            r.append(parts[i].as_str());
        } else {
            r = parts[i].clone();
        }
        i += 1;
    }
    assert(all.take(i as int) == all);
    r
}

} // verus!
