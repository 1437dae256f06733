//! The species that an input names are read as they are written.
use crate::dump_laws::{law_rows_are_read_back, row_of};
use crate::number::{Token, decimal_of};
use crate::reading_back::{
    is_line, is_word, law_integers_are_read_back, law_lines_are_read_back, lemma_trimmed,
};
use crate::species::{
    first_species, no_species, species_in, species_words, symbol_of, token_symbol, token_symbols,
    type_species,
};
use crate::text::{Text, before_mark, is_white, trimmed, unlines, words_of};
use vstd::prelude::*;

verus! {

/// The element of an atomic number.
pub open spec fn element(n: usize) -> Text {
    match n {
        1 => "H"@,
        2 => "He"@,
        3 => "Li"@,
        4 => "Be"@,
        5 => "B"@,
        6 => "C"@,
        7 => "N"@,
        8 => "O"@,
        9 => "F"@,
        10 => "Ne"@,
        11 => "Na"@,
        12 => "Mg"@,
        13 => "Al"@,
        14 => "Si"@,
        15 => "P"@,
        16 => "S"@,
        17 => "Cl"@,
        18 => "Ar"@,
        19 => "K"@,
        20 => "Ca"@,
        21 => "Sc"@,
        22 => "Ti"@,
        23 => "V"@,
        24 => "Cr"@,
        25 => "Mn"@,
        26 => "Fe"@,
        27 => "Co"@,
        28 => "Ni"@,
        29 => "Cu"@,
        30 => "Zn"@,
        _ => Seq::empty(),
    }
}

/// Atomic numbers stand for elements, from hydrogen to zinc. Zero stands for nothing, and no other
/// number is known.
pub proof fn law_atomic_numbers_stand_for_elements(n: int)
    ensures
        1 <= n <= 30 ==> symbol_of(n) == Some(element(n as usize)),
        n == 0 ==> symbol_of(n) == Some(Seq::<char>::empty()),
        n < 0 || n > 30 ==> symbol_of(n) is None,
{
    reveal_strlit("");
    assert(""@ =~= Seq::<char>::empty());
}

/// A species is named by its symbol, or by its atomic number.
pub proof fn law_species_are_named_by_symbol_or_number(token: Text, n: nat)
    ensures
        <usize as Token>::read(token) is Err ==> token_symbol(token) == Ok::<Text, Text>(token),
        1 <= n <= 30 ==> token_symbol(decimal_of(n)) == Ok::<Text, Text>(element(n as usize)),
        30 < n <= usize::MAX ==> token_symbol(decimal_of(n)) == Err::<Text, Text>(
            "Unsupported atomic number in pair_coeff: "@ + decimal_of(n),
        ),
{
    law_integers_are_read_back(n);
    law_atomic_numbers_stand_for_elements(n as int);
}

/// Whether a word names a species.
pub open spec fn names(word: Text, symbol: Text) -> bool {
    match <usize as Token>::read(word) {
        Err(_) => symbol == word,
        Ok(n) => {
            &&& n <= 30
            &&& n > 0 ==> symbol == element(n)
            &&& n == 0 ==> symbol.len() == 0
        },
    }
}

/// Whether words name species, one for one and in their order.
pub open spec fn name_species(words: Seq<Text>, species: Seq<Text>) -> bool {
    &&& species.len() == words.len()
    &&& forall|i: int| 0 <= i < words.len() ==> names(words[i], #[trigger] species[i])
}

/// Words are taken one for one and in their order.
proof fn lemma_tokens(words: Seq<Text>)
    ensures
        token_symbols(words) matches Ok(species) ==> name_species(words, species),
        token_symbols(words) is Err <==> exists|i: int|
            0 <= i < words.len() && (<usize as Token>::read(#[trigger] words[i]) matches Ok(n) && n
                > 30),
    decreases words.len(),
{
    if words.len() > 0 {
        let rest = words.drop_first();
        lemma_tokens(rest);
        assert(forall|i: int| 0 <= i < rest.len() ==> #[trigger] rest[i] == words[i + 1]);
        let first = <usize as Token>::read(words[0]);
        if first is Ok {
            law_atomic_numbers_stand_for_elements(first->Ok_0 as int);
        }
        if token_symbols(words) is Ok {
            let others = token_symbols(rest)->Ok_0;
            let symbol = token_symbol(words[0])->Ok_0;
            let species = token_symbols(words)->Ok_0;
            assert(species == seq![symbol] + others);
            assert forall|i: int| 0 <= i < words.len() implies names(
                words[i],
                #[trigger] species[i],
            ) by {
                if i > 0 {
                    assert(species[i] == others[i - 1]);
                    assert(words[i] == rest[i - 1]);
                }
            }
            assert(forall|i: int|
                0 <= i < words.len() ==> !(<usize as Token>::read(
                    #[trigger] words[i],
                ) matches Ok(n) && n > 30)) by {
                assert forall|i: int| 0 <= i < words.len() implies !(<usize as Token>::read(
                    #[trigger] words[i],
                ) matches Ok(n) && n > 30) by {
                    if i > 0 {
                        assert(words[i] == rest[i - 1]);
                    }
                }
            }
        } else if token_symbol(words[0]) is Ok {
            let i = choose|i: int|
                0 <= i < rest.len() && (<usize as Token>::read(#[trigger] rest[i]) matches Ok(n)
                    && n > 30);
            assert(words[i + 1] == rest[i]);
        }
    }
}

/// A text without a mark has nothing behind it.
proof fn lemma_no_mark(s: Text, mark: char)
    requires
        !s.contains(mark),
    ensures
        before_mark(s, mark) == s,
    decreases s.len(),
{
    if s.len() > 0 {
        assert(s[0] != mark);
        let rest = s.drop_first();
        assert forall|i: int| 0 <= i < rest.len() implies rest[i] != mark by {
            assert(rest[i] == s[i + 1]);
        }
        lemma_no_mark(rest, mark);
        assert(seq![s[0]] + rest =~= s);
    } else {
        assert(before_mark(s, mark) =~= s);
    }
}

/// What stands before the first mark.
proof fn lemma_mark(s: Text, mark: char, tail: Text)
    requires
        !s.contains(mark),
    ensures
        before_mark(s + seq![mark] + tail, mark) == s,
    decreases s.len(),
{
    let all = s + seq![mark] + tail;
    if s.len() > 0 {
        assert(s[0] != mark);
        let rest = s.drop_first();
        assert forall|i: int| 0 <= i < rest.len() implies rest[i] != mark by {
            assert(rest[i] == s[i + 1]);
        }
        lemma_mark(rest, mark, tail);
        assert(all.drop_first() =~= rest + seq![mark] + tail);
        assert(seq![s[0]] + rest =~= s);
    } else {
        assert(all[0] == mark);
        assert(s =~= Seq::empty());
    }
}

/// The line that names species in a comment.
pub open spec fn species_comment(words: Seq<Text>) -> Text {
    "# alchemist_species "@ + row_of(words)
}

/// The line that maps species to the types of atoms, with what stands behind them.
pub open spec fn species_mapping(words: Seq<Text>) -> Text {
    row_of(seq!["pair_coeff"@, "*"@, "*"@] + words)
}

/// Whether a line names no species: it is no comment that does, and its first word is not the one of a
/// mapping.
pub open spec fn names_none(line: Text) -> bool {
    let words = words_of(trimmed(before_mark(line, '#')));
    &&& !"# alchemist_species"@.is_prefix_of(trimmed(line))
    &&& words.len() == 0 || words[0] != "pair_coeff"@
}

/// Species that are named in a comment are read.
proof fn lemma_comment_read(words: Seq<Text>)
    requires
        words.len() > 0,
        forall|i: int| 0 <= i < words.len() ==> is_word(#[trigger] words[i]),
    ensures
        species_words(species_comment(words)) == Some(words),
        is_line(species_comment(words)),
{
    reveal_strlit("# alchemist_species ");
    reveal_strlit("# alchemist_species");
    reveal_strlit(" ");
    law_rows_are_read_back(words);
    let row = row_of(words);
    let line = species_comment(words);
    let last = words[words.len() - 1];
    assert(is_word(last));
    assert(!is_white(last[last.len() - 1]));
    assert(line[0] == '#' && line.last() == row.last());
    lemma_trimmed(line);
    let prefix = "# alchemist_species"@;
    assert(line =~= prefix + (" "@ + row));
    assert(line.subrange(0, prefix.len() as int) =~= prefix);
    assert(prefix.is_prefix_of(line));
    let mapping = line.skip(prefix.len() as int);
    assert(mapping =~= " "@ + row);
    assert(mapping[0] == ' ' && mapping.drop_first() =~= row);
    assert(words_of(mapping) == words);
    assert forall|i: int| 0 <= i < line.len() implies #[trigger] line[i] != '\n' by {
        if i >= 20 {
            assert(line[i] == row[i - 20]);
        }
    }
}

/// Species that are mapped to types are read.
proof fn lemma_mapping_read(words: Seq<Text>, comment: Text)
    requires
        words.len() > 0,
        forall|i: int| 0 <= i < words.len() ==> is_word(#[trigger] words[i]),
        !row_of(words).contains('#'),
    ensures
        species_words(species_mapping(words)) == Some(words),
        species_words(species_mapping(words) + "#"@ + comment) == Some(words),
        is_line(species_mapping(words)),
{
    reveal_strlit("pair_coeff");
    reveal_strlit("*");
    reveal_strlit(" ");
    reveal_strlit("#");
    reveal_strlit("# alchemist_species");
    let head = seq!["pair_coeff"@, "*"@, "*"@];
    let all = head + words;
    assert forall|i: int| 0 <= i < all.len() implies is_word(#[trigger] all[i]) by {
        if i >= 3 {
            assert(all[i] == words[i - 3]);
        }
    }
    law_rows_are_read_back(all);
    let line = species_mapping(words);
    assert(all.drop_first() =~= seq!["*"@, "*"@] + words);
    assert(all.drop_first().drop_first() =~= seq!["*"@] + words);
    assert(all.drop_first().drop_first().drop_first() =~= words);
    let front = "pair_coeff"@ + " "@ + "*"@ + " "@ + "*"@ + " "@;
    assert(row_of(all) == "pair_coeff"@ + " "@ + row_of(all.drop_first()));
    assert(row_of(all.drop_first()) == "*"@ + " "@ + row_of(all.drop_first().drop_first()));
    assert(row_of(all.drop_first().drop_first()) == "*"@ + " "@ + row_of(words));
    assert(line =~= front + row_of(words));
    assert(!front.contains('#'));
    assert(!line.contains('#')) by {
        if line.contains('#') {
            let i = choose|i: int| 0 <= i < line.len() && line[i] == '#';
            if i < front.len() {
                assert(front[i] == '#');
            } else {
                assert(row_of(words)[i - front.len()] == '#');
                assert(row_of(words).contains('#'));
            }
        }
    }
    lemma_no_mark(line, '#');
    lemma_mark(line, '#', comment);
    let last = words[words.len() - 1];
    assert(is_word(last));
    assert(!is_white(last[last.len() - 1]));
    assert(all.last() == last);
    assert(line[0] == 'p');
    lemma_trimmed(line);
    assert(all.skip(3) =~= words);
    let prefix = "# alchemist_species"@;
    assert(prefix[0] == '#');
    if prefix.is_prefix_of(line) {
        assert(line[0] == line.subrange(0, prefix.len() as int)[0]);
    }
    let longer = line + "#"@ + comment;
    assert(longer =~= line + seq!['#'] + comment);
    lemma_starts(longer);
    if prefix.is_prefix_of(trimmed(longer)) {
        assert(trimmed(longer)[0] == trimmed(longer).subrange(0, prefix.len() as int)[0]);
    }
}

/// What is trimmed starts as it did where it does not start with white space.
proof fn lemma_starts(s: Text)
    requires
        s.len() > 0,
        !is_white(s[0]),
    ensures
        trimmed(s).len() > 0,
        trimmed(s)[0] == s[0],
{
    lemma_ends(s);
}

/// White space at the end is cut off, and nothing before it.
proof fn lemma_ends(s: Text)
    requires
        s.len() > 0,
        !is_white(s[0]),
    ensures
        crate::text::trim_end(s).len() > 0,
        crate::text::trim_end(s)[0] == s[0],
    decreases s.len(),
{
    if is_white(s.last()) {
        assert(s.len() > 1);
        lemma_ends(s.drop_last());
    }
}

/// Lines that name no species are passed over.
proof fn lemma_passed_over(before: Seq<Text>, rest: Seq<Text>, absent: Text)
    requires
        forall|i: int| 0 <= i < before.len() ==> names_none(#[trigger] before[i]),
    ensures
        first_species(before + rest, absent) == first_species(rest, absent),
    decreases before.len(),
{
    if before.len() == 0 {
        assert(before + rest =~= rest);
    } else {
        let fewer = before.drop_first();
        assert forall|i: int| 0 <= i < fewer.len() implies names_none(#[trigger] fewer[i]) by {
            assert(fewer[i] == before[i + 1]);
        }
        lemma_passed_over(fewer, rest, absent);
        assert((before + rest).drop_first() =~= fewer + rest);
        assert(names_none(before[0]));
        assert((before + rest)[0] == before[0]);
        assert(species_words(before[0]) is None);
    }
}

/// The species of an input are those that its first comment or mapping names, in their order: what
/// stands before it names none, and what stands behind it does not count.
pub proof fn law_species_are_read_back(
    before: Seq<Text>,
    words: Seq<Text>,
    mapped: bool,
    behind: Seq<Text>,
    path: Text,
)
    requires
        words.len() > 0,
        forall|i: int| 0 <= i < words.len() ==> is_word(#[trigger] words[i]),
        mapped ==> !row_of(words).contains('#'),
        forall|i: int|
            0 <= i < before.len() ==> names_none(#[trigger] before[i]) && is_line(before[i]),
        forall|i: int| 0 <= i < behind.len() ==> is_line(#[trigger] behind[i]),
    ensures
        ({
            let line = if mapped {
                species_mapping(words)
            } else {
                species_comment(words)
            };
            let read = species_in(unlines(before + seq![line] + behind), path);
            &&& read matches Ok(species) ==> name_species(words, species)
            &&& read is Err <==> exists|i: int|
                0 <= i < words.len() && (<usize as Token>::read(#[trigger] words[i]) matches Ok(n)
                    && n > 30)
        }),
{
    let line = if mapped {
        species_mapping(words)
    } else {
        species_comment(words)
    };
    if mapped {
        lemma_mapping_read(words, Seq::empty());
    } else {
        lemma_comment_read(words);
    }
    let all = before + seq![line] + behind;
    assert forall|i: int| 0 <= i < all.len() implies is_line(#[trigger] all[i]) by {
        if i < before.len() {
            assert(all[i] == before[i]);
        } else if i > before.len() {
            assert(all[i] == behind[i - before.len() - 1]);
        }
    }
    law_lines_are_read_back(all);
    let rest = seq![line] + behind;
    assert(all =~= before + rest);
    lemma_passed_over(before, rest, no_species(path));
    assert(rest[0] == line);
    assert(first_species(rest, no_species(path)) == token_symbols(words));
    lemma_tokens(words);
}

/// An input in which no line names species has none, and the error names it.
pub proof fn law_inputs_without_species_are_refused(lines: Seq<Text>, path: Text)
    requires
        forall|i: int| 0 <= i < lines.len() ==> names_none(#[trigger] lines[i]) && is_line(lines[i]),
    ensures
        species_in(unlines(lines), path) == Err::<Seq<Text>, Text>(
            "Could not find a parseable '# alchemist_species ...' or 'pair_coeff * * ...' element mapping in "@
                + path,
        ),
{
    law_lines_are_read_back(lines);
    let none = Seq::<Text>::empty();
    lemma_passed_over(lines, none, no_species(path));
    assert(lines + none =~= lines);
}

/// A comment behind a mapping does not count.
pub proof fn law_comments_do_not_count(words: Seq<Text>, comment: Text)
    requires
        words.len() > 0,
        forall|i: int| 0 <= i < words.len() ==> is_word(#[trigger] words[i]),
        !row_of(words).contains('#'),
    ensures
        species_words(species_mapping(words) + "#"@ + comment) == species_words(
            species_mapping(words),
        ),
{
    lemma_mapping_read(words, comment);
}

/// The types of atoms count from one: the species of a type is the one at its place, and a type beyond
/// the last species has none.
pub proof fn law_types_count_from_one(atom_type: nat, species: Seq<Text>)
    ensures
        1 <= atom_type <= species.len() ==> type_species(atom_type, species) == Ok::<Text, Text>(
            species[atom_type - 1],
        ),
        atom_type > species.len() ==> type_species(atom_type, species) is Err,
{
}

} // verus!
