//! What is reported of an evaluation can be read back.
use crate::dump_laws::{law_rows_are_read_back, law_signed_integers_are_read_back, row_of};
use crate::number::{Token, decimal_of, signed_decimal_of};
use crate::reading_back::{
    is_line, is_word, law_integers_are_read_back, law_lines_are_read_back, lemma_decimal_digits,
    lemma_decimal_is_word, lemma_word_length,
};
use crate::report::{
    MeasuredAtom, MeasuredFrame, atom_line, atom_lines, frame_comment, score_lines, score_row,
    spaced, xyz_frame, xyz_lines, xyz_text,
};
use crate::selection::FrameScore;
use crate::species::type_species;
use crate::structure::Triple;
use crate::text::{
    Text, is_white, lines_of, padded_left, padded_right, repeated, unlines, views, words_of,
};
use vstd::prelude::*;

verus! {

/// A frame of an extended XYZ file as a reader takes it in: after a line with a count a line that
/// describes the frame, and as many rows as were counted.
pub ghost struct XyzFrame {
    /// The line that describes the frame.
    pub comment: Text,
    /// The rows.
    pub rows: Seq<Text>,
}

/// The frames that a reader of extended XYZ files finds in lines, where it can take in all of them.
pub open spec fn xyz_frames(lines: Seq<Text>) -> Option<Seq<XyzFrame>>
    decreases lines.len(),
{
    if lines.len() == 0 {
        Some(Seq::empty())
    } else {
        match <usize as Token>::read(lines[0]) {
            Err(_) => None,
            Ok(count) => if lines.len() < count + 2 {
                None
            } else {
                match xyz_frames(lines.skip(count + 2)) {
                    None => None,
                    Some(others) => Some(
                        seq![
                            XyzFrame { comment: lines[1], rows: lines.subrange(2, count + 2) },
                        ] + others,
                    ),
                }
            },
        }
    }
}

/// Whether three texts are words.
pub open spec fn are_words(t: Triple<Text>) -> bool {
    is_word(t.x) && is_word(t.y) && is_word(t.z)
}

/// Whether the numbers of a frame are written as words.
pub open spec fn is_in_words(frame: MeasuredFrame) -> bool {
    let lattice = frame.lattice@;
    &&& are_words(lattice.x)
    &&& are_words(lattice.y)
    &&& are_words(lattice.z)
    &&& forall|j: int|
        0 <= j < frame.atoms@.len() ==> are_words((#[trigger] views(frame.atoms@)[j]).position)
}

/// The words of the line that describes a frame: the three edges of its box one after the other, what
/// the columns of the rows are, that the box is repeated along each edge, and the step.
pub open spec fn comment_words(lattice: Triple<Triple<Text>>, timestep: i64) -> Seq<Text> {
    let (a, b, c) = (lattice.x, lattice.y, lattice.z);
    seq!["Lattice=\""@ + a.x, a.y, a.z] + seq![b.x, b.y, b.z] + seq![c.x, c.y, c.z + "\""@] + seq![
        "Properties=species:S:1:pos:R:3"@,
        "pbc=\"T"@,
        "T"@,
        "T\""@,
        "timestep="@ + signed_decimal_of(timestep as int),
    ]
}

/// Whether a row holds the species of the type of an atom, which count from one, and its three
/// coordinates.
pub open spec fn gives_atom(row: Text, atom: MeasuredAtom<Text>, species: Seq<Text>) -> bool {
    let t = atom.atom_type as int;
    let p = atom.position;
    &&& t <= species.len()
    &&& words_of(row) == seq![
        species[if t == 0 {
            0
        } else {
            t - 1
        }],
        p.x,
        p.y,
        p.z,
    ]
}

/// Whether a frame that was read is the one that was written: as many rows as atoms, each with the
/// species and the coordinates of its atom.
pub open spec fn is_read_as(frame: MeasuredFrame, species: Seq<Text>, read: XyzFrame) -> bool {
    let atoms = views(frame.atoms@);
    &&& words_of(read.comment) == comment_words(frame.lattice@, frame.timestep)
    &&& read.rows.len() == atoms.len()
    &&& forall|j: int|
        0 <= j < atoms.len() ==> gives_atom(#[trigger] read.rows[j], atoms[j], species)
}

/// Whether a frame that was read is the one at a place.
pub open spec fn is_at(
    frames: Seq<MeasuredFrame>,
    place: int,
    species: Seq<Text>,
    read: XyzFrame,
) -> bool {
    0 <= place < frames.len() && is_read_as(frames[place], species, read)
}

/// Rows one after the other, with a space between them, are one row.
proof fn lemma_rows_together(a: Seq<Text>, b: Seq<Text>)
    requires
        a.len() > 0,
        b.len() > 0,
    ensures
        row_of(a + b) == row_of(a) + " "@ + row_of(b),
    decreases a.len(),
{
    let all = a + b;
    if a.len() == 1 {
        assert(all.drop_first() =~= b);
    } else {
        lemma_rows_together(a.drop_first(), b);
        assert(all.drop_first() =~= a.drop_first() + b);
        assert(a[0] + " "@ + (row_of(a.drop_first()) + " "@ + row_of(b)) =~= a[0] + " "@ + row_of(
            a.drop_first(),
        ) + " "@ + row_of(b));
    }
}

/// Three words are a row.
proof fn lemma_three(x: Text, y: Text, z: Text)
    ensures
        row_of(seq![x, y, z]) == x + " "@ + (y + " "@ + z),
{
    assert(seq![x, y, z].drop_first() =~= seq![y, z]);
    assert(seq![y, z].drop_first() =~= seq![z]);
    assert(row_of(seq![z]) == z);
    assert(row_of(seq![y, z]) == y + " "@ + z);
}

/// A word with more characters that are not white space is a word.
proof fn lemma_longer_word(a: Text, b: Text)
    requires
        is_word(a) || is_word(b),
        forall|i: int| 0 <= i < a.len() ==> !is_white(#[trigger] a[i]),
        forall|i: int| 0 <= i < b.len() ==> !is_white(#[trigger] b[i]),
    ensures
        is_word(a + b),
{
    assert forall|i: int| 0 <= i < (a + b).len() implies !is_white(#[trigger] (a + b)[i]) by {
        if i >= a.len() {
            assert((a + b)[i] == b[i - a.len()]);
        }
    }
}

/// The words behind the box in the line that describes a frame.
proof fn lemma_comment_end(timestep: i64)
    ensures
        ({
            let step = "timestep="@ + signed_decimal_of(timestep as int);
            let words = seq![
                "Properties=species:S:1:pos:R:3"@,
                "pbc=\"T"@,
                "T"@,
                "T\""@,
                step,
            ];
            &&& "\""@ + " "@ + row_of(words) == "\" Properties=species:S:1:pos:R:3 pbc=\"T T T\" timestep="@
                + signed_decimal_of(timestep as int)
            &&& forall|i: int| 0 <= i < words.len() ==> is_word(#[trigger] words[i])
        }),
{
    reveal_strlit("timestep=");
    reveal_strlit("Properties=species:S:1:pos:R:3");
    reveal_strlit("pbc=\"T");
    reveal_strlit("T");
    reveal_strlit("T\"");
    reveal_strlit("\"");
    reveal_strlit(" ");
    reveal_strlit("\" Properties=species:S:1:pos:R:3 pbc=\"T T T\" timestep=");
    law_signed_integers_are_read_back(timestep);
    let n = signed_decimal_of(timestep as int);
    let step = "timestep="@ + n;
    lemma_longer_word("timestep="@, n);
    let w0 = seq!["Properties=species:S:1:pos:R:3"@, "pbc=\"T"@, "T"@, "T\""@, step];
    let w1 = w0.drop_first();
    let w2 = w1.drop_first();
    let w3 = w2.drop_first();
    let w4 = w3.drop_first();
    assert(row_of(w4) == step);
    assert(row_of(w3) == "T\""@ + " "@ + step);
    assert(row_of(w2) == "T"@ + " "@ + row_of(w3));
    assert(row_of(w1) == "pbc=\"T"@ + " "@ + row_of(w2));
    assert(row_of(w0) == "Properties=species:S:1:pos:R:3"@ + " "@ + row_of(w1));
    let head = "\""@ + " "@ + ("Properties=species:S:1:pos:R:3"@ + " "@ + ("pbc=\"T"@ + " "@ + (
    "T"@ + " "@ + ("T\""@ + " "@ + "timestep="@))));
    assert(head =~= "\" Properties=species:S:1:pos:R:3 pbc=\"T T T\" timestep="@);
    assert("\""@ + " "@ + row_of(w0) =~= head + n);
    assert forall|i: int| 0 <= i < w0.len() implies is_word(#[trigger] w0[i]) by {}
}

/// A mark before three words with spaces between them is a mark before the first.
proof fn lemma_mark_before(mark: Text, x: Text, y: Text, z: Text)
    ensures
        mark + x + " "@ + (y + " "@ + z) == mark + (x + " "@ + y + " "@ + z),
{
    assert(mark + x + " "@ + (y + " "@ + z) =~= mark + (x + " "@ + y + " "@ + z));
}

/// A mark after three words with spaces between them is a mark after the last.
proof fn lemma_mark_after(x: Text, y: Text, z: Text, mark: Text)
    ensures
        x + " "@ + (y + " "@ + (z + mark)) == x + " "@ + y + " "@ + z + mark,
{
    assert(x + " "@ + (y + " "@ + (z + mark)) =~= x + " "@ + y + " "@ + z + mark);
}

/// Three groups of words with spaces between them are three groups of words in a row.
proof fn lemma_groups(front: Text, a: Text, b: Text, c: Text, mark: Text, end: Text)
    ensures
        front + a + " "@ + b + " "@ + (c + mark) + " "@ + end == front + (a + " "@ + b + " "@ + c)
            + (mark + " "@ + end),
{
    assert(front + a + " "@ + b + " "@ + (c + mark) + " "@ + end =~= front + (a + " "@ + b + " "@
        + c) + (mark + " "@ + end));
}

/// The words of the line that describes a frame are words.
proof fn lemma_comment_words(lattice: Triple<Triple<Text>>, timestep: i64, i: int)
    requires
        are_words(lattice.x),
        are_words(lattice.y),
        are_words(lattice.z),
        0 <= i < comment_words(lattice, timestep).len(),
    ensures
        is_word(comment_words(lattice, timestep)[i]),
{
    let (a, b, c) = (lattice.x, lattice.y, lattice.z);
    reveal_strlit("Lattice=\"");
    reveal_strlit("\"");
    lemma_longer_word("Lattice=\""@, a.x);
    lemma_longer_word(c.z, "\""@);
    lemma_comment_end(timestep);
    let n = signed_decimal_of(timestep as int);
    let wd = seq![
        "Properties=species:S:1:pos:R:3"@,
        "pbc=\"T"@,
        "T"@,
        "T\""@,
        "timestep="@ + n,
    ];
    if i >= 9 {
        assert(is_word(wd[i - 9]));
    }
}

/// The line that describes a frame is read word by word.
proof fn lemma_comment(lattice: Triple<Triple<Text>>, timestep: i64)
    requires
        are_words(lattice.x),
        are_words(lattice.y),
        are_words(lattice.z),
    ensures
        words_of(frame_comment(lattice, timestep)) == comment_words(lattice, timestep),
        is_line(frame_comment(lattice, timestep)),
{
    let (a, b, c) = (lattice.x, lattice.y, lattice.z);
    let n = signed_decimal_of(timestep as int);
    let front = "Lattice=\""@;
    let mark = "\""@;
    let wa = seq![front + a.x, a.y, a.z];
    let wb = seq![b.x, b.y, b.z];
    let wc = seq![c.x, c.y, c.z + mark];
    let wd = seq![
        "Properties=species:S:1:pos:R:3"@,
        "pbc=\"T"@,
        "T"@,
        "T\""@,
        "timestep="@ + n,
    ];
    let words = comment_words(lattice, timestep);
    assert forall|i: int| 0 <= i < words.len() implies is_word(#[trigger] words[i]) by {
        lemma_comment_words(lattice, timestep, i);
    }
    law_rows_are_read_back(words);
    lemma_rows_together(wa + wb + wc, wd);
    lemma_rows_together(wa + wb, wc);
    lemma_rows_together(wa, wb);
    lemma_three(front + a.x, a.y, a.z);
    lemma_three(b.x, b.y, b.z);
    lemma_three(c.x, c.y, c.z + mark);
    lemma_mark_before(front, a.x, a.y, a.z);
    lemma_mark_before(Seq::empty(), b.x, b.y, b.z);
    assert(Seq::<char>::empty() + b.x =~= b.x);
    assert(Seq::<char>::empty() + spaced(b) =~= spaced(b));
    lemma_mark_after(c.x, c.y, c.z, mark);
    lemma_groups(front, spaced(a), spaced(b), spaced(c), mark, row_of(wd));
    lemma_comment_end(timestep);
    let end = "\" Properties=species:S:1:pos:R:3 pbc=\"T T T\" timestep="@;
    let edges = spaced(a) + " "@ + spaced(b) + " "@ + spaced(c);
    assert(row_of(words) == front + edges + (end + n));
    assert(front + edges + (end + n) =~= front + edges + end + n);
}

/// Spaces before a text are no words.
proof fn lemma_spaces(n: nat, s: Text)
    ensures
        words_of(repeated(' ', n) + s) == words_of(s),
    decreases n,
{
    let all = repeated(' ', n) + s;
    if n == 0 {
        assert(all =~= s);
    } else {
        lemma_spaces((n - 1) as nat, s);
        assert(all[0] == ' ');
        assert(all.drop_first() =~= repeated(' ', (n - 1) as nat) + s);
    }
}

/// A word that white space follows is the first word.
proof fn lemma_word_then(word: Text, tail: Text)
    requires
        is_word(word),
        tail.len() == 0 || is_white(tail[0]),
    ensures
        words_of(word + tail) == seq![word] + words_of(tail),
{
    let s = word + tail;
    lemma_word_length(word, tail);
    assert(s[0] == word[0]);
    assert(s.take(word.len() as int) =~= word);
    assert(s.skip(word.len() as int) =~= tail);
}

/// White space before a text holds no words.
proof fn lemma_white(c: char, s: Text)
    requires
        is_white(c),
    ensures
        words_of(seq![c] + s) == words_of(s),
{
    assert((seq![c] + s).drop_first() =~= s);
}

/// A padded word before a text is its first word.
proof fn lemma_padded(word: Text, tail: Text)
    requires
        is_word(word),
        tail.len() == 0 || is_white(tail[0]),
    ensures
        words_of(padded_left(word, 16, ' ') + tail) == seq![word] + words_of(tail),
{
    lemma_word_then(word, tail);
    if word.len() < 16 {
        let n = (16 - word.len()) as nat;
        lemma_spaces(n, word + tail);
        assert(repeated(' ', n) + (word + tail) =~= padded_left(word, 16, ' ') + tail);
    }
}

/// The row of an atom is read word by word.
proof fn lemma_atom_line(symbol: Text, p: Triple<Text>)
    requires
        is_word(symbol),
        are_words(p),
    ensures
        words_of(atom_line(symbol, p)) == seq![symbol, p.x, p.y, p.z],
        is_line(atom_line(symbol, p)),
{
    reveal_strlit(" ");
    let none = Seq::<char>::empty();
    let x = padded_left(p.x, 16, ' ');
    let y = padded_left(p.y, 16, ' ');
    let z = padded_left(p.z, 16, ' ');
    let tz = seq![' '] + z;
    let ty = seq![' '] + (y + tz);
    let tx = seq![' '] + (x + ty);
    lemma_padded(p.z, none);
    assert(z + none =~= z);
    lemma_white(' ', z);
    lemma_padded(p.y, tz);
    lemma_white(' ', y + tz);
    lemma_padded(p.x, ty);
    lemma_white(' ', x + ty);
    let line = atom_line(symbol, p);
    if symbol.len() < 2 {
        let n = (2 - symbol.len()) as nat;
        let tail = repeated(' ', n) + tx;
        lemma_spaces(n, tx);
        assert(tail[0] == ' ');
        lemma_word_then(symbol, tail);
        assert(line =~= symbol + tail);
    } else {
        lemma_word_then(symbol, tx);
        assert(line =~= symbol + tx);
    }
    assert(words_of(none) =~= Seq::empty());
    assert(seq![symbol] + (seq![p.x] + (seq![p.y] + (seq![p.z] + Seq::empty()))) =~= seq![
        symbol,
        p.x,
        p.y,
        p.z,
    ]);
    lemma_no_feeds(symbol, p);
}

/// The row of an atom can stand on a line.
proof fn lemma_no_feeds(symbol: Text, p: Triple<Text>)
    requires
        is_word(symbol),
        are_words(p),
    ensures
        is_line(atom_line(symbol, p)),
{
    reveal_strlit(" ");
    let name = padded_right(symbol, 2, ' ');
    let x = padded_left(p.x, 16, ' ');
    let y = padded_left(p.y, 16, ' ');
    let z = padded_left(p.z, 16, ' ');
    lemma_pad(p.x);
    lemma_pad(p.y);
    lemma_pad(p.z);
    assert forall|i: int| 0 <= i < name.len() implies #[trigger] name[i] != '\n' by {
        if i < symbol.len() {
            assert(name[i] == symbol[i]);
        }
    }
    let line = atom_line(symbol, p);
    let places = x + " "@ + y + " "@ + z;
    assert(line =~= name + " "@ + places);
    assert forall|i: int| 0 <= i < places.len() implies #[trigger] places[i] != '\n' by {}
    assert forall|i: int| 0 <= i < line.len() implies #[trigger] line[i] != '\n' by {
        if i > name.len() {
            assert(line[i] == places[i - name.len() - 1]);
        }
    }
    assert(line.last() == z.last());
}

/// A padded word holds no line feed and ends as the word does.
proof fn lemma_pad(word: Text)
    requires
        is_word(word),
    ensures
        padded_left(word, 16, ' ').len() > 0,
        padded_left(word, 16, ' ').last() == word.last(),
        !is_white(word.last()),
        forall|i: int|
            0 <= i < padded_left(word, 16, ' ').len() ==> #[trigger] padded_left(
                word,
                16,
                ' ',
            )[i] != '\n',
{
    let s = padded_left(word, 16, ' ');
    assert(!is_white(word[word.len() - 1]));
    assert forall|i: int| 0 <= i < s.len() implies #[trigger] s[i] != '\n' by {
        let n = s.len() - word.len();
        if i >= n {
            assert(s[i] == word[i - n]);
        }
    }
}

/// The rows of atoms are as many as the atoms, each read word by word.
proof fn lemma_atom_lines(atoms: Seq<MeasuredAtom<Text>>, species: Seq<Text>, j: int)
    requires
        atom_lines(atoms, species) is Ok,
        forall|k: int| 0 <= k < species.len() ==> is_word(#[trigger] species[k]),
        forall|k: int| 0 <= k < atoms.len() ==> are_words((#[trigger] atoms[k]).position),
    ensures
        atom_lines(atoms, species)->Ok_0.len() == atoms.len(),
        0 <= j < atoms.len() ==> {
            let line = atom_lines(atoms, species)->Ok_0[j];
            is_line(line) && gives_atom(line, atoms[j], species)
        },
    decreases atoms.len(),
{
    if atoms.len() > 0 {
        let rest = atoms.drop_first();
        assert forall|k: int| 0 <= k < rest.len() implies are_words(
            (#[trigger] rest[k]).position,
        ) by {
            assert(rest[k] == atoms[k + 1]);
        }
        lemma_atom_lines(rest, species, j - 1);
        let symbol = type_species(atoms[0].atom_type as nat, species)->Ok_0;
        let lines = atom_lines(atoms, species)->Ok_0;
        assert(lines == seq![atom_line(symbol, atoms[0].position)] + atom_lines(
            rest,
            species,
        )->Ok_0);
        assert(are_words(atoms[0].position));
        lemma_atom_line(symbol, atoms[0].position);
        if 0 < j < atoms.len() {
            assert(lines[j] == atom_lines(rest, species)->Ok_0[j - 1]);
            assert(atoms[j] == rest[j - 1]);
        }
    }
}

/// A frame is read back, and what follows it is read after it.
proof fn lemma_frame(frame: MeasuredFrame, species: Seq<Text>, rest: Seq<Text>)
    requires
        xyz_frame(frame, species) is Ok,
        is_in_words(frame),
        forall|k: int| 0 <= k < species.len() ==> is_word(#[trigger] species[k]),
        xyz_frames(rest) is Some,
    ensures
        ({
            let lines = xyz_frame(frame, species)->Ok_0;
            let read = xyz_frames(lines + rest);
            &&& read is Some
            &&& read->0.len() == 1 + xyz_frames(rest)->0.len()
            &&& is_read_as(frame, species, read->0[0])
            &&& read->0.drop_first() == xyz_frames(rest)->0
            &&& forall|i: int| 0 <= i < lines.len() ==> is_line(#[trigger] lines[i])
        }),
{
    let atoms = views(frame.atoms@);
    let rows = atom_lines(atoms, species)->Ok_0;
    let lines = xyz_frame(frame, species)->Ok_0;
    let n = frame.atoms@.len();
    assert(frame.atoms.len() == n);
    let all = lines + rest;
    assert forall|k: int| 0 <= k < atoms.len() implies are_words(
        (#[trigger] atoms[k]).position,
    ) by {}
    lemma_atom_lines(atoms, species, 0);
    lemma_comment(frame.lattice@, frame.timestep);
    law_integers_are_read_back(n);
    lemma_decimal_is_word(n);
    assert(lines.len() == n + 2);
    assert(all[0] == decimal_of(n));
    assert(all[1] == frame_comment(frame.lattice@, frame.timestep));
    assert(all.skip((n + 2) as int) =~= rest);
    assert(all.subrange(2, (n + 2) as int) =~= rows);
    let first = XyzFrame { comment: all[1], rows };
    assert(xyz_frames(all) == Some(seq![first] + xyz_frames(rest)->0));
    assert((seq![first] + xyz_frames(rest)->0).drop_first() =~= xyz_frames(rest)->0);
    assert forall|j: int| 0 <= j < atoms.len() implies gives_atom(
        #[trigger] rows[j],
        atoms[j],
        species,
    ) by {
        lemma_atom_lines(atoms, species, j);
    }
    assert forall|i: int| 0 <= i < lines.len() implies is_line(#[trigger] lines[i]) by {
        if i >= 2 {
            lemma_atom_lines(atoms, species, i - 2);
            assert(lines[i] == rows[i - 2]);
        }
    }
}

/// The lines of frames are read back as the frames.
proof fn lemma_frames(frames: Seq<MeasuredFrame>, places: Seq<int>, species: Seq<Text>)
    requires
        xyz_lines(frames, places, species) is Ok,
        forall|k: int| 0 <= k < frames.len() ==> is_in_words(#[trigger] frames[k]),
        forall|k: int| 0 <= k < species.len() ==> is_word(#[trigger] species[k]),
    ensures
        ({
            let lines = xyz_lines(frames, places, species)->Ok_0;
            let read = xyz_frames(lines);
            &&& read is Some
            &&& read->0.len() == places.len()
            &&& forall|i: int|
                0 <= i < places.len() ==> is_at(frames, places[i], species, #[trigger] read->0[i])
            &&& forall|i: int| 0 <= i < lines.len() ==> is_line(#[trigger] lines[i])
        }),
    decreases places.len(),
{
    if places.len() > 0 {
        let others = places.drop_first();
        lemma_frames(frames, others, species);
        let rest = xyz_lines(frames, others, species)->Ok_0;
        let frame = frames[places[0]];
        let first = xyz_frame(frame, species)->Ok_0;
        lemma_frame(frame, species, rest);
        let lines = xyz_lines(frames, places, species)->Ok_0;
        assert(lines == first + rest);
        let read = xyz_frames(lines)->0;
        assert forall|i: int| 0 <= i < places.len() implies is_at(
            frames,
            places[i],
            species,
            #[trigger] read[i],
        ) by {
            if i > 0 {
                assert(read[i] == read.drop_first()[i - 1]);
                assert(places[i] == others[i - 1]);
            }
        }
        assert forall|i: int| 0 <= i < lines.len() implies is_line(#[trigger] lines[i]) by {
            if i < first.len() {
                assert(lines[i] == first[i]);
            } else {
                assert(lines[i] == rest[i - first.len()]);
            }
        }
    }
}

/// An extended XYZ file that is written can be read: a reader that takes as many rows as are counted
/// takes in all of it, and finds the frames at the places given, in that order, each with its box,
/// its step, and as many rows as it has atoms, which hold their species and coordinates.
pub proof fn law_exports_are_read_back(
    frames: Seq<MeasuredFrame>,
    places: Seq<int>,
    species: Seq<Text>,
)
    requires
        xyz_text(frames, places, species) is Ok,
        forall|k: int| 0 <= k < frames.len() ==> is_in_words(#[trigger] frames[k]),
        forall|k: int| 0 <= k < species.len() ==> is_word(#[trigger] species[k]),
    ensures
        ({
            let read = xyz_frames(lines_of(xyz_text(frames, places, species)->Ok_0));
            &&& read is Some
            &&& read->0.len() == places.len()
            &&& forall|i: int|
                0 <= i < places.len() ==> is_at(frames, places[i], species, #[trigger] read->0[i])
        }),
{
    lemma_frames(frames, places, species);
    law_lines_are_read_back(xyz_lines(frames, places, species)->Ok_0);
}

/// Whether every atom of a frame has a species.
pub open spec fn has_species(frame: MeasuredFrame, species: Seq<Text>) -> bool {
    forall|j: int|
        0 <= j < frame.atoms@.len() ==> (#[trigger] frame.atoms@[j]).atom_type <= species.len()
            && species.len() > 0
}

/// Atoms can be written exactly where each has a species.
proof fn lemma_atoms_written(atoms: Seq<MeasuredAtom<Text>>, species: Seq<Text>)
    ensures
        atom_lines(atoms, species) is Ok <==> forall|j: int|
            0 <= j < atoms.len() ==> (#[trigger] atoms[j]).atom_type <= species.len()
                && species.len() > 0,
    decreases atoms.len(),
{
    if atoms.len() > 0 {
        let rest = atoms.drop_first();
        lemma_atoms_written(rest, species);
        assert(forall|j: int| 0 <= j < rest.len() ==> #[trigger] rest[j] == atoms[j + 1]);
        if atom_lines(atoms, species) is Ok {
            assert forall|j: int| 0 <= j < atoms.len() implies (#[trigger] atoms[j]).atom_type
                <= species.len() && species.len() > 0 by {
                if j > 0 {
                    assert(atoms[j] == rest[j - 1]);
                }
            }
        } else if atoms[0].atom_type <= species.len() && species.len() > 0 {
            let j = choose|j: int|
                0 <= j < rest.len() && !((#[trigger] rest[j]).atom_type <= species.len()
                    && species.len() > 0);
            assert(atoms[j + 1] == rest[j]);
        }
    }
}

/// Frames can be written exactly where there is a frame at each place, and each of its atoms has a
/// species.
pub proof fn law_frames_with_species_can_be_exported(
    frames: Seq<MeasuredFrame>,
    places: Seq<int>,
    species: Seq<Text>,
)
    ensures
        xyz_text(frames, places, species) is Ok <==> forall|i: int|
            0 <= i < places.len() ==> 0 <= #[trigger] places[i] < frames.len() && has_species(
                frames[places[i]],
                species,
            ),
    decreases places.len(),
{
    if places.len() > 0 {
        let others = places.drop_first();
        law_frames_with_species_can_be_exported(frames, others, species);
        assert(forall|i: int| 0 <= i < others.len() ==> #[trigger] others[i] == places[i + 1]);
        let p = places[0];
        if 0 <= p < frames.len() {
            let atoms = views(frames[p].atoms@);
            lemma_atoms_written(atoms, species);
            assert(forall|j: int|
                0 <= j < atoms.len() ==> (#[trigger] atoms[j]).atom_type
                    == frames[p].atoms@[j].atom_type);
            assert(has_species(frames[p], species) <==> atom_lines(atoms, species) is Ok) by {
                if atom_lines(atoms, species) is Ok {
                    assert forall|j: int| 0 <= j < frames[p].atoms@.len() implies (
                    #[trigger] frames[p].atoms@[j]).atom_type <= species.len() && species.len()
                        > 0 by {
                        assert(atoms[j].atom_type <= species.len());
                    }
                }
            }
        }
        if xyz_text(frames, places, species) is Ok {
            assert forall|i: int| 0 <= i < places.len() implies 0 <= #[trigger] places[i]
                < frames.len() && has_species(frames[places[i]], species) by {
                if i > 0 {
                    assert(places[i] == others[i - 1]);
                }
            }
        } else if 0 <= p < frames.len() && has_species(frames[p], species) {
            let i = choose|i: int|
                0 <= i < others.len() && !(0 <= #[trigger] others[i] < frames.len()
                    && has_species(frames[others[i]], species));
            assert(places[i + 1] == others[i]);
        }
    }
}

/// The columns of a row, with commas between them.
pub open spec fn columns_of(s: Text) -> Seq<Text>
    decreases s.len(),
{
    if s.len() == 0 {
        seq![Seq::empty()]
    } else {
        let others = columns_of(s.drop_first());
        if s[0] == ',' {
            seq![Seq::<char>::empty()] + others
        } else {
            seq![seq![s[0]] + others[0]] + others.drop_first()
        }
    }
}

/// Whether a text holds no comma and no line feed.
pub open spec fn is_column(s: Text) -> bool {
    forall|i: int| 0 <= i < s.len() ==> #[trigger] s[i] != ',' && s[i] != '\n'
}

/// A column before a comma is the first column.
proof fn lemma_first_column(column: Text, rest: Text)
    requires
        is_column(column),
    ensures
        columns_of(column + ","@ + rest) == seq![column] + columns_of(rest),
    decreases column.len(),
{
    reveal_strlit(",");
    let all = column + ","@ + rest;
    if column.len() == 0 {
        assert(all.drop_first() =~= rest);
        assert(all[0] == ',');
        assert(column =~= Seq::empty());
    } else {
        let shorter = column.drop_first();
        assert forall|i: int| 0 <= i < shorter.len() implies #[trigger] shorter[i] != ','
            && shorter[i] != '\n' by {
            assert(shorter[i] == column[i + 1]);
        }
        lemma_first_column(shorter, rest);
        assert(all.drop_first() =~= shorter + ","@ + rest);
        assert(all[0] == column[0]);
        assert(column[0] != ',');
        let others = columns_of(all.drop_first());
        assert(others == seq![shorter] + columns_of(rest));
        assert(seq![column[0]] + shorter =~= column);
        assert(others.drop_first() =~= columns_of(rest));
    }
}

/// A text without commas is one column.
proof fn lemma_only_column(column: Text)
    requires
        is_column(column),
    ensures
        columns_of(column) == seq![column],
    decreases column.len(),
{
    if column.len() == 0 {
        assert(column =~= Seq::empty());
    } else {
        let shorter = column.drop_first();
        assert forall|i: int| 0 <= i < shorter.len() implies #[trigger] shorter[i] != ','
            && shorter[i] != '\n' by {
            assert(shorter[i] == column[i + 1]);
        }
        lemma_only_column(shorter);
        assert(column[0] != ',');
        assert(seq![column[0]] + shorter =~= column);
        assert(columns_of(column) =~= seq![column]);
    }
}

/// Whether a row of the table of scores says what the score of a frame is.
pub open spec fn is_row_of(row: Text, score: FrameScore) -> bool {
    let columns = columns_of(row);
    &&& columns.len() == 5
    &&& <usize as Token>::read(columns[0]) == Ok::<usize, Text>(score.frame_index)
    &&& <i64 as Token>::read(columns[1]) == Ok::<i64, Text>(score.timestep)
    &&& columns[2] == score.rms_abs_forces.text@
    &&& columns[3] == score.rrmse_forces.text@
    &&& score.selected ==> columns[4] == "true"@
    &&& !score.selected ==> columns[4] == "false"@
}

/// Five columns with commas between them are read one by one.
proof fn lemma_five(a: Text, b: Text, c: Text, d: Text, e: Text)
    requires
        is_column(a),
        is_column(b),
        is_column(c),
        is_column(d),
        is_column(e),
        e.len() > 0,
        e.last() != '\r',
    ensures
        ({
            let row = a + ","@ + (b + ","@ + (c + ","@ + (d + ","@ + e)));
            &&& columns_of(row) == seq![a, b, c, d, e]
            &&& is_line(row)
        }),
{
    reveal_strlit(",");
    let r4 = d + ","@ + e;
    let r3 = c + ","@ + r4;
    let r2 = b + ","@ + r3;
    let row = a + ","@ + r2;
    lemma_first_column(a, r2);
    lemma_first_column(b, r3);
    lemma_first_column(c, r4);
    lemma_first_column(d, e);
    lemma_only_column(e);
    assert(seq![a] + (seq![b] + (seq![c] + (seq![d] + seq![e]))) =~= seq![a, b, c, d, e]);
    assert forall|i: int| 0 <= i < r4.len() implies #[trigger] r4[i] != '\n' by {}
    assert forall|i: int| 0 <= i < r3.len() implies #[trigger] r3[i] != '\n' by {
        if i > c.len() {
            assert(r3[i] == r4[i - c.len() - 1]);
        }
    }
    assert forall|i: int| 0 <= i < r2.len() implies #[trigger] r2[i] != '\n' by {
        if i > b.len() {
            assert(r2[i] == r3[i - b.len() - 1]);
        }
    }
    assert forall|i: int| 0 <= i < row.len() implies #[trigger] row[i] != '\n' by {
        if i > a.len() {
            assert(row[i] == r2[i - a.len() - 1]);
        }
    }
    assert(row.last() == e.last());
}

/// A row of the table of scores is read back.
proof fn lemma_score_row(score: FrameScore)
    requires
        is_column(score.rms_abs_forces.text@),
        is_column(score.rrmse_forces.text@),
    ensures
        is_row_of(score_row(score), score),
        is_line(score_row(score)),
{
    reveal_strlit("true");
    reveal_strlit("false");
    reveal_strlit("-");
    let a = decimal_of(score.frame_index as nat);
    let b = signed_decimal_of(score.timestep as int);
    let c = score.rms_abs_forces.text@;
    let d = score.rrmse_forces.text@;
    let e = if score.selected {
        "true"@
    } else {
        "false"@
    };
    lemma_decimal_digits(score.frame_index as nat);
    lemma_decimal_digits((-(score.timestep as int)) as nat);
    lemma_decimal_digits(score.timestep as nat);
    law_integers_are_read_back(score.frame_index as nat);
    law_signed_integers_are_read_back(score.timestep);
    assert(is_column(a));
    assert forall|i: int| 0 <= i < b.len() implies #[trigger] b[i] != ',' && b[i] != '\n' by {
        if score.timestep < 0 {
            let digits = decimal_of((-(score.timestep as int)) as nat);
            if i > 0 {
                assert(b[i] == digits[i - 1]);
            } else {
                assert(b[0] == '-');
            }
        }
    }
    lemma_five(a, b, c, d, e);
    assert(score_row(score) =~= a + ","@ + (b + ","@ + (c + ","@ + (d + ","@ + e))));
}

/// The table of scores can be read: a title, and for each frame a row with its place, its step, how
/// far the committee disagrees on it, absolutely and relatively, and whether it is selected.
pub proof fn law_tables_are_read_back(scores: Seq<FrameScore>)
    requires
        forall|i: int|
            0 <= i < scores.len() ==> is_column((#[trigger] scores[i]).rms_abs_forces.text@)
                && is_column(scores[i].rrmse_forces.text@),
    ensures
        ({
            let lines = lines_of(unlines(score_lines(scores)));
            &&& lines.len() == scores.len() + 1
            &&& columns_of(lines[0]) == seq![
                "frame_index"@,
                "timestep"@,
                "rms_abs_forces"@,
                "rrmse_forces"@,
                "selected"@,
            ]
            &&& forall|i: int|
                0 <= i < scores.len() ==> is_row_of(lines[i + 1], #[trigger] scores[i])
        }),
{
    let lines = score_lines(scores);
    let title = "frame_index,timestep,rms_abs_forces,rrmse_forces,selected"@;
    reveal_strlit("frame_index,timestep,rms_abs_forces,rrmse_forces,selected");
    reveal_strlit("frame_index");
    reveal_strlit("timestep");
    reveal_strlit("rms_abs_forces");
    reveal_strlit("rrmse_forces");
    reveal_strlit("selected");
    reveal_strlit(",");
    lemma_five("frame_index"@, "timestep"@, "rms_abs_forces"@, "rrmse_forces"@, "selected"@);
    assert(title =~= "frame_index"@ + ","@ + ("timestep"@ + ","@ + ("rms_abs_forces"@ + ","@ + (
    "rrmse_forces"@ + ","@ + "selected"@))));
    assert forall|i: int| 0 <= i < lines.len() implies is_line(#[trigger] lines[i]) by {
        if i > 0 {
            let score = scores[i - 1];
            assert(is_column(score.rms_abs_forces.text@));
            lemma_score_row(score);
            assert(lines[i] == score_row(score));
        }
    }
    law_lines_are_read_back(lines);
    assert forall|i: int| 0 <= i < scores.len() implies is_row_of(
        lines[i + 1],
        #[trigger] scores[i],
    ) by {
        lemma_score_row(scores[i]);
        assert(lines[i + 1] == score_row(scores[i]));
    }
}

} // verus!
