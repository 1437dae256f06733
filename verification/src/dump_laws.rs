//! What is read from a trajectory is what stands in it.
use crate::dump::{
    Columns, atom_in, atoms_in, bound_line, bound_values, bounds_in, by_id, frame_in, frame_length,
    frames_in, header_in, ids_of, table_columns, table_in,
};
use crate::fields::{column_in, dropped, line_at};
use crate::number::{IntegerError, Token, decimal_of, signed_decimal_of};
use crate::order::{lemma_order_exists, precedes, stable_order};
use crate::reading_back::{
    is_line, is_word, law_integers_are_read_back, law_lines_are_read_back, lemma_decimal_is_word,
    lemma_digits_are_read_back, lemma_first_word, lemma_literal_is_word, lemma_only_word,
    lemma_trimmed,
};
use crate::structure::{
    Atom, Bounds, Coordinates, FrameModel, Triple, are_literals, atoms_are_literals,
    bounds_are_literals,
};
use crate::text::{Text, after, is_white, lines_of, trimmed, unlines, words_of};
use crate::trajectory_reading::lemma_titles;
use vstd::prelude::*;

verus! {

/// Words on a line, with a space between each two.
pub open spec fn row_of(words: Seq<Text>) -> Text
    decreases words.len(),
{
    if words.len() == 0 {
        Seq::empty()
    } else if words.len() == 1 {
        words[0]
    } else {
        words[0] + " "@ + row_of(words.drop_first())
    }
}

/// Words that are written on a line are read back.
pub proof fn law_rows_are_read_back(words: Seq<Text>)
    requires
        forall|i: int| 0 <= i < words.len() ==> is_word(#[trigger] words[i]),
    ensures
        words_of(row_of(words)) == words,
        is_line(row_of(words)),
        words.len() > 0 ==> row_of(words).len() > 0 && row_of(words)[0] == words[0][0] && row_of(
            words,
        ).last() == words.last().last(),
    decreases words.len(),
{
    reveal_strlit(" ");
    if words.len() == 0 {
        assert(words =~= Seq::empty());
    } else if words.len() == 1 {
        assert(is_word(words[0]));
        lemma_only_word(words[0]);
        assert(words =~= seq![words[0]]);
    } else {
        let rest = words.drop_first();
        assert forall|i: int| 0 <= i < rest.len() implies is_word(#[trigger] rest[i]) by {
            assert(rest[i] == words[i + 1]);
        }
        law_rows_are_read_back(rest);
        assert(is_word(words[0]));
        lemma_first_word(words[0], row_of(rest));
        assert(seq![words[0]] + rest =~= words);
        let row = row_of(words);
        assert(row.last() == row_of(rest).last());
        assert(rest.last() == words.last());
        assert forall|i: int| 0 <= i < row.len() implies #[trigger] row[i] != '\n' by {
            let n = words[0].len();
            if i > n {
                assert(row[i] == row_of(rest)[i - n - 1]);
            } else if i < n {
                assert(row[i] == words[0][i]);
            }
        }
        assert(is_word(words[words.len() - 1]));
    }
}

/// Whether a column is the first of its name.
pub open spec fn is_first(names: Seq<Text>, name: Text, column: int) -> bool {
    &&& 0 <= column < names.len()
    &&& names[column] == name
    &&& forall|j: int| 0 <= j < column ==> #[trigger] names[j] != name
}

/// Whether a word of a row stands under a name: in the first column of that name.
pub open spec fn stands_under(names: Seq<Text>, row: Seq<Text>, name: Text, word: Text) -> bool {
    exists|column: int| #[trigger]
        is_first(names, name, column) && column < row.len() && row[column] == word
}

/// Whether an atom is the one in a row of a table with named columns: its number and type are the
/// words under `id` and `type`, and its coordinates those under `xs`, `ys` and `zs`, or under `x`,
/// `y` and `z`.
pub open spec fn is_in_row(
    atom: Atom<Text>,
    names: Seq<Text>,
    row: Seq<Text>,
    scaled: bool,
) -> bool {
    &&& exists|word: Text| #[trigger]
        stands_under(names, row, "id"@, word) && <usize as Token>::read(word) == Ok::<usize, Text>(
            atom.id,
        )
    &&& exists|word: Text| #[trigger]
        stands_under(names, row, "type"@, word) && <usize as Token>::read(word) == Ok::<
            usize,
            Text,
        >(atom.atom_type)
    &&& if scaled {
        &&& stands_under(names, row, "xs"@, atom.position.x)
        &&& stands_under(names, row, "ys"@, atom.position.y)
        &&& stands_under(names, row, "zs"@, atom.position.z)
    } else {
        &&& stands_under(names, row, "x"@, atom.position.x)
        &&& stands_under(names, row, "y"@, atom.position.y)
        &&& stands_under(names, row, "z"@, atom.position.z)
    }
}

/// Whether the atoms are the same ones by rising number, those of one number in the order in which
/// they stood.
pub open spec fn are_sorted(atoms: Seq<Atom<Text>>, sorted: Seq<Atom<Text>>) -> bool {
    exists|order: Seq<int>| #[trigger] sorts(atoms, sorted, order)
}

/// Whether the atoms in an order are by rising number, those of one number in the order in which
/// they stood.
pub open spec fn sorts(
    atoms: Seq<Atom<Text>>,
    sorted: Seq<Atom<Text>>,
    order: Seq<int>,
) -> bool {
    &&& sorted.len() == atoms.len()
    &&& order.len() == atoms.len()
    &&& forall|i: int|
        0 <= i < order.len() ==> 0 <= #[trigger] order[i] < atoms.len() && sorted[i]
            == atoms[order[i]]
    &&& forall|i: int, j: int|
        0 <= i < j < order.len() ==> {
            let (a, b) = (atoms[#[trigger] order[i]], atoms[#[trigger] order[j]]);
            a.id < b.id || a.id == b.id && order[i] < order[j]
        }
}

/// Atoms by number are the same ones by rising number.
proof fn lemma_sorted(atoms: Seq<Atom<Text>>)
    ensures
        are_sorted(atoms, by_id(atoms)),
{
    let keys = ids_of(atoms);
    let order = stable_order(keys);
    lemma_order_exists(keys);
    assert forall|i: int, j: int| 0 <= i < j < order.len() implies {
        let (a, b) = (atoms[#[trigger] order[i]], atoms[#[trigger] order[j]]);
        a.id < b.id || a.id == b.id && order[i] < order[j]
    } by {
        assert(precedes(keys, order[i], order[j]));
        assert(keys[order[i]] == atoms[order[i]].id && keys[order[j]] == atoms[order[j]].id);
    }
    assert(sorts(atoms, by_id(atoms), order));
}

/// Numbers that can be read are the words that they are read from.
proof fn lemma_bound_values(words: Seq<Text>, label: Text)
    ensures
        bound_values(words, label) matches Ok(values) ==> values == words,
    decreases words.len(),
{
    if words.len() > 0 {
        lemma_bound_values(words.drop_first(), label);
        if let Ok(values) = bound_values(words, label) {
            assert(values =~= seq![words[0]] + words.drop_first());
            assert(values =~= words);
        }
    } else {
        assert(words =~= Seq::empty());
    }
}

/// Each of the atoms in rows is the one in its row.
proof fn lemma_rows(lines: Seq<Text>, columns: Columns, count: nat, j: int)
    requires
        atoms_in(lines, columns, count) is Ok,
        0 <= j < count,
    ensures
        j < lines.len(),
        atoms_in(lines, columns, count)->Ok_0.len() == count,
        atom_in(lines[j], columns) == Ok::<Atom<Text>, Text>(
            atoms_in(lines, columns, count)->Ok_0[j],
        ),
    decreases count,
{
    let rest = lines.drop_first();
    let atoms = atoms_in(lines, columns, count)->Ok_0;
    let others = atoms_in(rest, columns, (count - 1) as nat);
    if count > 1 {
        lemma_rows(rest, columns, (count - 1) as nat, if j > 0 {
            j - 1
        } else {
            0
        });
    }
    assert(atoms == seq![atom_in(lines[0], columns)->Ok_0] + others->Ok_0);
    if j > 0 {
        assert(lines[j] == rest[j - 1]);
    }
}

/// The column of a name is the first of that name.
proof fn lemma_column(names: Seq<Text>, name: Text)
    requires
        names.len() <= usize::MAX,
    ensures
        column_in(names, name) matches Ok(column) ==> is_first(
            names,
            name,
            column as int,
        ),
        column_in(names, name) is Ok <==> names.contains(name),
{
    names.index_of_first_ensures(name);
}

/// The atom in a row is read by the names of the columns.
proof fn lemma_row(names: Seq<Text>, line: Text, columns: Columns)
    requires
        names.len() <= usize::MAX,
        table_columns(names) == Ok::<Columns, Text>(columns),
        atom_in(line, columns) is Ok,
    ensures
        is_in_row(
            atom_in(line, columns)->Ok_0,
            names,
            words_of(line),
            columns.coordinates is Scaled,
        ),
        columns.coordinates is Scaled <==> names.contains("xs"@) && names.contains("ys"@)
            && names.contains("zs"@),
{
    lemma_column(names, "id"@);
    lemma_column(names, "type"@);
    lemma_column(names, "xs"@);
    lemma_column(names, "ys"@);
    lemma_column(names, "zs"@);
    lemma_column(names, "x"@);
    lemma_column(names, "y"@);
    lemma_column(names, "z"@);
    let row = words_of(line);
    let atom = atom_in(line, columns)->Ok_0;
    assert(stands_under(names, row, "id"@, row[columns.id as int]));
    assert(stands_under(names, row, "type"@, row[columns.atom_type as int]));
    assert(atom.position.x == row[columns.x as int]);
    assert(atom.position.y == row[columns.y as int]);
    assert(atom.position.z == row[columns.z as int]);
}

/// Whether `frame` is what the lines of a trajectory say, of which the first is the title of a frame:
/// its step, its box, and its atoms by rising number, each read by the names of the columns of its
/// table.
pub open spec fn says(lines: Seq<Text>, frame: FrameModel) -> bool {
    let names = words_of(lines[8]).skip(2);
    let scaled = names.contains("xs"@) && names.contains("ys"@) && names.contains("zs"@);
    let b = frame.bounds;
    &&& lines.len() >= 9 + frame.atoms.len()
    &&& <i64 as Token>::read(trimmed(lines[1])) == Ok::<i64, Text>(frame.timestep)
    &&& trimmed(lines[2]) == "ITEM: NUMBER OF ATOMS"@
    &&& <usize as Token>::read(trimmed(lines[3])) == Ok::<usize, Text>(frame.atoms.len() as usize)
    &&& "ITEM: BOX BOUNDS"@.is_prefix_of(lines[4])
    &&& words_of(lines[5]) == seq![b.xlo_bound, b.xhi_bound, b.xy]
    &&& words_of(lines[6]) == seq![b.ylo_bound, b.yhi_bound, b.xz]
    &&& words_of(lines[7]) == seq![b.zlo_bound, b.zhi_bound, b.yz]
    &&& "ITEM: ATOMS"@.is_prefix_of(lines[8])
    &&& frame.coordinates is Scaled <==> scaled
    &&& exists|atoms: Seq<Atom<Text>>|
        {
            &&& #[trigger] are_sorted(atoms, frame.atoms)
            &&& forall|j: int|
                0 <= j < atoms.len() ==> is_in_row(
                    #[trigger] atoms[j],
                    names,
                    words_of(lines[9 + j]),
                    scaled,
                )
        }
}

/// A line of box bounds that can be read holds the three words that are read.
proof fn lemma_bound_line(line: Option<Text>, label: Text)
    requires
        bound_line(line, label) is Ok,
    ensures
        line is Some,
        words_of(line->0) == seq![
            bound_line(line, label)->Ok_0.x,
            bound_line(line, label)->Ok_0.y,
            bound_line(line, label)->Ok_0.z,
        ],
{
    let words = words_of(line->0);
    lemma_bound_values(words, label);
    assert(words =~= seq![words[0], words[1], words[2]]);
}

/// What stands before the atom table is what the lines say.
proof fn lemma_header(lines: Seq<Text>)
    requires
        header_in(lines) is Ok,
    ensures
        ({
            let header = header_in(lines)->Ok_0;
            let b = header.bounds;
            &&& lines.len() >= 8
            &&& <i64 as Token>::read(trimmed(lines[0])) == Ok::<i64, Text>(header.timestep)
            &&& trimmed(lines[1]) == "ITEM: NUMBER OF ATOMS"@
            &&& <usize as Token>::read(trimmed(lines[2])) == Ok::<usize, Text>(header.atom_count)
            &&& "ITEM: BOX BOUNDS"@.is_prefix_of(lines[3])
            &&& words_of(lines[4]) == seq![b.xlo_bound, b.xhi_bound, b.xy]
            &&& words_of(lines[5]) == seq![b.ylo_bound, b.yhi_bound, b.xz]
            &&& words_of(lines[6]) == seq![b.zlo_bound, b.zhi_bound, b.yz]
            &&& "ITEM: ATOMS"@.is_prefix_of(lines[7])
            &&& table_columns(dropped(words_of(lines[7]), 2)) == Ok::<Columns, Text>(
                header.columns,
            )
        }),
{
    let header = header_in(lines)->Ok_0;
    assert(table_in(lines, header.timestep, header.atom_count) is Ok);
    let box_lines = dropped(lines, 4);
    assert(bounds_in(box_lines) is Ok);
    lemma_bound_line(line_at(box_lines, 0), "x bounds"@);
    lemma_bound_line(line_at(box_lines, 1), "y bounds"@);
    lemma_bound_line(line_at(box_lines, 2), "z bounds"@);
    assert(box_lines[0] == lines[4] && box_lines[1] == lines[5] && box_lines[2] == lines[6]);
}

/// Whatever trajectory can be read: its first frame is what its lines say, its atoms read by the
/// names of the columns of their table.
pub proof fn law_frames_say_what_their_lines_say(lines: Seq<Text>)
    requires
        lines.len() > 0,
        trimmed(lines[0]) == "ITEM: TIMESTEP"@,
        frames_in(lines) is Ok,
        words_of(lines[8]).len() <= usize::MAX,
    ensures
        frames_in(lines)->Ok_0.len() > 0,
        says(lines, frames_in(lines)->Ok_0[0]),
{
    let tail = lines.drop_first();
    assert(frame_in(tail) is Ok);
    let frame = frame_in(tail)->Ok_0;
    assert(frames_in(lines)->Ok_0[0] == frame);
    lemma_header(tail);
    assert(forall|i: int| 0 <= i < tail.len() ==> #[trigger] tail[i] == lines[i + 1]);
    let header = header_in(tail)->Ok_0;
    let count = header.atom_count as nat;
    let rows = dropped(tail, 8);
    let atoms = atoms_in(rows, header.columns, count)->Ok_0;
    assert(frame.atoms == by_id(atoms));
    lemma_sorted(atoms);
    let names = words_of(lines[8]).skip(2);
    let scaled = names.contains("xs"@) && names.contains("ys"@) && names.contains("zs"@);
    assert(lines[8] == tail[7]);
    let found = dropped(words_of(lines[8]), 2);
    lemma_column(found, "id"@);
    assert(found.len() > 0);
    assert(found == names);
    if count == 0 {
        assert(atoms =~= Seq::empty());
    } else {
        lemma_rows(rows, header.columns, count, count - 1);
    }
    lemma_order_exists(ids_of(atoms));
    assert(frame.atoms.len() == count);
    assert forall|j: int| 0 <= j < atoms.len() implies is_in_row(
        #[trigger] atoms[j],
        names,
        words_of(lines[9 + j]),
        scaled,
    ) by {
        lemma_rows(rows, header.columns, count, j);
        assert(rows[j] == lines[9 + j]);
        lemma_row(names, rows[j], header.columns);
    }
    lemma_coordinates(names, header.columns);
}

/// Coordinates are scaled exactly where all three of their columns are there.
proof fn lemma_coordinates(names: Seq<Text>, columns: Columns)
    requires
        names.len() <= usize::MAX,
        table_columns(names) == Ok::<Columns, Text>(columns),
    ensures
        columns.coordinates is Scaled <==> names.contains("xs"@) && names.contains("ys"@)
            && names.contains("zs"@),
{
    lemma_column(names, "xs"@);
    lemma_column(names, "ys"@);
    lemma_column(names, "zs"@);
}

/// A frame of a trajectory as it is to be written.
pub ghost struct WrittenFrame {
    /// The step.
    pub timestep: i64,
    /// The box.
    pub bounds: Bounds<Text>,
    /// Whether the coordinates are measured by the edges of the box.
    pub scaled: bool,
    /// The atoms, in the order of their rows.
    pub atoms: Seq<Atom<Text>>,
}

/// The words of the row of an atom.
pub open spec fn atom_words(atom: Atom<Text>) -> Seq<Text> {
    seq![
        decimal_of(atom.id as nat),
        decimal_of(atom.atom_type as nat),
        atom.position.x,
        atom.position.y,
        atom.position.z,
    ]
}

/// The title of an atom table.
pub open spec fn title(scaled: bool) -> Text {
    if scaled {
        "ITEM: ATOMS id type xs ys zs"@
    } else {
        "ITEM: ATOMS id type x y z"@
    }
}

impl WrittenFrame {
    /// Whether the numbers of the frame are literals, and its atoms can be counted.
    pub open spec fn is_writable(self) -> bool {
        &&& bounds_are_literals(self.bounds)
        &&& atoms_are_literals(self.atoms)
        &&& self.atoms.len() <= usize::MAX
    }

    /// The lines before the rows of the frame.
    pub open spec fn head(self) -> Seq<Text> {
        let b = self.bounds;
        seq![
            "ITEM: TIMESTEP"@,
            signed_decimal_of(self.timestep as int),
            "ITEM: NUMBER OF ATOMS"@,
            decimal_of(self.atoms.len()),
            "ITEM: BOX BOUNDS xy xz yz pp pp pp"@,
            row_of(seq![b.xlo_bound, b.xhi_bound, b.xy]),
            row_of(seq![b.ylo_bound, b.yhi_bound, b.xz]),
            row_of(seq![b.zlo_bound, b.zhi_bound, b.yz]),
            title(self.scaled),
        ]
    }

    /// The rows of the frame.
    pub open spec fn rows(self) -> Seq<Text> {
        self.atoms.map_values(|a: Atom<Text>| row_of(atom_words(a)))
    }

    /// The lines of the frame.
    pub open spec fn lines(self) -> Seq<Text> {
        self.head() + self.rows()
    }

    /// Whether a frame is read as this one: the same step, box and atoms, these by rising number.
    pub open spec fn is_read_as(self, frame: FrameModel) -> bool {
        &&& frame.timestep == self.timestep
        &&& frame.bounds == self.bounds
        &&& frame.coordinates is Scaled <==> self.scaled
        &&& are_sorted(self.atoms, frame.atoms)
    }
}

/// The lines of frames, one after the other.
pub open spec fn all_lines(frames: Seq<WrittenFrame>) -> Seq<Text>
    decreases frames.len(),
{
    if frames.len() == 0 {
        Seq::empty()
    } else {
        frames[0].lines() + all_lines(frames.drop_first())
    }
}

/// A signed number in decimal digits is read back, and can stand on a line.
pub proof fn law_signed_integers_are_read_back(n: i64)
    ensures
        <i64 as Token>::read(signed_decimal_of(n as int)) == Ok::<i64, Text>(n),
        is_word(signed_decimal_of(n as int)),
        is_line(signed_decimal_of(n as int)),
        trimmed(signed_decimal_of(n as int)) == signed_decimal_of(n as int),
{
    let s = signed_decimal_of(n as int);
    if n >= 0 {
        law_integers_are_read_back(n as nat);
        lemma_decimal_is_word(n as nat);
    } else {
        reveal_strlit("-");
        let m = (-(n as int)) as nat;
        let digits = decimal_of(m);
        lemma_decimal_is_word(m);
        lemma_digits_are_read_back(m, i64::MAX as nat + 1, IntegerError::TooSmall);
        assert(s.drop_first() =~= digits);
        assert(s[0] == '-');
        assert forall|i: int| 0 <= i < s.len() implies !is_white(#[trigger] s[i]) by {
            if i > 0 {
                assert(s[i] == digits[i - 1]);
            }
        }
        assert forall|i: int| 0 <= i < s.len() implies #[trigger] s[i] != '\n' by {
            assert(!is_white(s[i]));
        }
        assert(!is_white(s[s.len() - 1]));
        assert(!is_white(s[0]));
        lemma_trimmed(s);
    }
}

/// The titles of atom tables name their columns.
proof fn lemma_title(scaled: bool)
    ensures
        table_columns(dropped(words_of(title(scaled)), 2)) == Ok::<Columns, Text>(
            Columns {
                id: 0,
                atom_type: 1,
                coordinates: if scaled {
                    Coordinates::Scaled
                } else {
                    Coordinates::Cartesian
                },
                x: 2,
                y: 3,
                z: 4,
            },
        ),
        "ITEM: ATOMS"@.is_prefix_of(title(scaled)),
        is_line(title(scaled)),
{
    reveal_strlit("ITEM: ATOMS id type x y z");
    reveal_strlit("ITEM: ATOMS id type xs ys zs");
    reveal_strlit("ITEM: ATOMS");
    reveal_strlit("ITEM:");
    reveal_strlit("ATOMS");
    reveal_strlit("id");
    reveal_strlit("type");
    reveal_strlit("x");
    reveal_strlit("y");
    reveal_strlit("z");
    reveal_strlit("xs");
    reveal_strlit("ys");
    reveal_strlit("zs");
    reveal_strlit(" ");
    let (x, y, z) = if scaled {
        ("xs"@, "ys"@, "zs"@)
    } else {
        ("x"@, "y"@, "z"@)
    };
    let words = seq!["ITEM:"@, "ATOMS"@, "id"@, "type"@, x, y, z];
    assert forall|i: int| 0 <= i < words.len() implies is_word(#[trigger] words[i]) by {}
    law_rows_are_read_back(words);
    let w1 = words.drop_first();
    let w2 = w1.drop_first();
    let w3 = w2.drop_first();
    let w4 = w3.drop_first();
    let w5 = w4.drop_first();
    let w6 = w5.drop_first();
    assert(row_of(w6) == z);
    assert(row_of(w5) == y + " "@ + z);
    assert(row_of(w4) == x + " "@ + row_of(w5));
    assert(row_of(w3) == "type"@ + " "@ + row_of(w4));
    assert(row_of(w2) == "id"@ + " "@ + row_of(w3));
    assert(row_of(w1) == "ATOMS"@ + " "@ + row_of(w2));
    assert(row_of(words) == "ITEM:"@ + " "@ + row_of(w1));
    assert(row_of(words) =~= title(scaled));
    let names = seq!["id"@, "type"@, x, y, z];
    assert(dropped(words_of(title(scaled)), 2) =~= names);
    assert("id"@[0] == 'i' && "type"@[0] == 't' && "x"@[0] == 'x' && "y"@[0] == 'y' && "z"@[0]
        == 'z');
    assert("xs"@[0] == 'x' && "ys"@[0] == 'y' && "zs"@[0] == 'z');
    assert("xs"@.len() == 2 && "ys"@.len() == 2 && "zs"@.len() == 2 && "id"@.len() == 2);
    assert("x"@.len() == 1 && "y"@.len() == 1 && "z"@.len() == 1);
    names.index_of_first_ensures("id"@);
    names.index_of_first_ensures("type"@);
    names.index_of_first_ensures(x);
    names.index_of_first_ensures(y);
    names.index_of_first_ensures(z);
    names.index_of_first_ensures("xs"@);
    assert(names[0] == "id"@ && names[1] == "type"@ && names[2] == x && names[3] == y && names[4]
        == z);
    assert(names.contains("id"@) && names.contains("type"@) && names.contains(x)
        && names.contains(y) && names.contains(z));
    if !scaled {
        assert(!names.contains("xs"@)) by {
            assert(forall|i: int| 0 <= i < names.len() ==> names[i] != "xs"@);
        }
    }
    assert("ITEM: ATOMS"@ =~= title(scaled).subrange(0, 11));
}

/// The row of an atom is read back.
proof fn lemma_atom(atom: Atom<Text>, columns: Columns)
    requires
        are_literals(atom.position),
        columns.id == 0,
        columns.atom_type == 1,
        columns.x == 2,
        columns.y == 3,
        columns.z == 4,
    ensures
        atom_in(row_of(atom_words(atom)), columns) == Ok::<Atom<Text>, Text>(atom),
        is_line(row_of(atom_words(atom))),
{
    let words = atom_words(atom);
    lemma_decimal_is_word(atom.id as nat);
    lemma_decimal_is_word(atom.atom_type as nat);
    lemma_literal_is_word(atom.position.x);
    lemma_literal_is_word(atom.position.y);
    lemma_literal_is_word(atom.position.z);
    assert forall|i: int| 0 <= i < words.len() implies is_word(#[trigger] words[i]) by {}
    law_rows_are_read_back(words);
    law_integers_are_read_back(atom.id as nat);
    law_integers_are_read_back(atom.atom_type as nat);
    assert(words.len() == 5);
}

/// The rows of atoms are read back.
proof fn lemma_atoms(atoms: Seq<Atom<Text>>, rest: Seq<Text>, columns: Columns)
    requires
        atoms_are_literals(atoms),
        columns.id == 0,
        columns.atom_type == 1,
        columns.x == 2,
        columns.y == 3,
        columns.z == 4,
    ensures
        atoms_in(
            atoms.map_values(|a: Atom<Text>| row_of(atom_words(a))) + rest,
            columns,
            atoms.len(),
        ) == Ok::<Seq<Atom<Text>>, Text>(atoms),
    decreases atoms.len(),
{
    let row = |a: Atom<Text>| row_of(atom_words(a));
    if atoms.len() == 0 {
        assert(atoms =~= Seq::<Atom<Text>>::empty());
    } else {
        let others = atoms.drop_first();
        assert forall|j: int| 0 <= j < others.len() implies are_literals(
            #[trigger] others[j].position,
        ) by {
            assert(others[j] == atoms[j + 1]);
        }
        assert(are_literals(atoms[0].position));
        lemma_atom(atoms[0], columns);
        lemma_atoms(others, rest, columns);
        let lines = atoms.map_values(row) + rest;
        assert(lines[0] == row_of(atom_words(atoms[0])));
        assert(lines.drop_first() =~= others.map_values(row) + rest);
        assert(seq![atoms[0]] + others =~= atoms);
    }
}

/// A line of box bounds is read back.
proof fn lemma_written_bounds(t: Triple<Text>, label: Text)
    requires
        are_literals(t),
    ensures
        bound_line(Some(row_of(seq![t.x, t.y, t.z])), label) == Ok::<Triple<Text>, Text>(t),
        is_line(row_of(seq![t.x, t.y, t.z])),
{
    let words = seq![t.x, t.y, t.z];
    lemma_literal_is_word(t.x);
    lemma_literal_is_word(t.y);
    lemma_literal_is_word(t.z);
    assert forall|i: int| 0 <= i < words.len() implies is_word(#[trigger] words[i]) by {}
    law_rows_are_read_back(words);
    let none = Seq::<Text>::empty();
    assert(words.drop_first() =~= seq![t.y, t.z]);
    assert(seq![t.y, t.z].drop_first() =~= seq![t.z]);
    assert(seq![t.z].drop_first() =~= none);
    assert(bound_values(none, label) == Ok::<Seq<Text>, Text>(none));
    assert(bound_values(seq![t.z], label) is Ok);
    assert(bound_values(seq![t.y, t.z], label) is Ok);
    assert(bound_values(words, label) is Ok);
    lemma_bound_values(words, label);
}

/// What stands before the rows of a frame is read back.
proof fn lemma_written_header(frame: WrittenFrame, lines: Seq<Text>)
    requires
        frame.is_writable(),
        lines.len() >= 8,
        forall|i: int| 0 <= i < 8 ==> #[trigger] lines[i] == frame.head()[i + 1],
    ensures
        ({
            let header = header_in(lines)->Ok_0;
            &&& header_in(lines) is Ok
            &&& header.timestep == frame.timestep
            &&& header.atom_count == frame.atoms.len()
            &&& header.bounds == frame.bounds
            &&& header.columns.id == 0
            &&& header.columns.atom_type == 1
            &&& header.columns.x == 2
            &&& header.columns.y == 3
            &&& header.columns.z == 4
            &&& header.columns.coordinates is Scaled <==> frame.scaled
        }),
{
    let b = frame.bounds;
    let n = frame.atoms.len();
    lemma_titles();
    lemma_title(frame.scaled);
    law_signed_integers_are_read_back(frame.timestep);
    law_integers_are_read_back(n);
    lemma_decimal_is_word(n);
    let x = Triple { x: b.xlo_bound, y: b.xhi_bound, z: b.xy };
    let y = Triple { x: b.ylo_bound, y: b.yhi_bound, z: b.xz };
    let z = Triple { x: b.zlo_bound, y: b.zhi_bound, z: b.yz };
    lemma_written_bounds(x, "x bounds"@);
    lemma_written_bounds(y, "y bounds"@);
    lemma_written_bounds(z, "z bounds"@);
    assert(line_at(lines, 0) == Some(signed_decimal_of(frame.timestep as int)));
    assert(line_at(lines, 1) == Some("ITEM: NUMBER OF ATOMS"@));
    assert(line_at(lines, 2) == Some(decimal_of(n)));
    assert(line_at(lines, 3) == Some("ITEM: BOX BOUNDS xy xz yz pp pp pp"@));
    assert(line_at(lines, 7) == Some(title(frame.scaled)));
    let box_lines = dropped(lines, 4);
    assert(line_at(box_lines, 0) == Some(row_of(seq![x.x, x.y, x.z])));
    assert(line_at(box_lines, 1) == Some(row_of(seq![y.x, y.y, y.z])));
    assert(line_at(box_lines, 2) == Some(row_of(seq![z.x, z.y, z.z])));
    assert(bounds_in(box_lines) == Ok::<Bounds<Text>, Text>(b));
}

/// The lines of a frame after the first of them, and what follows the frame.
#[verifier::opaque]
spec fn tail_of(frame: WrittenFrame, rest: Seq<Text>) -> Seq<Text> {
    (frame.lines() + rest).drop_first()
}

/// What stands where in the lines of a frame.
proof fn lemma_tail(frame: WrittenFrame, rest: Seq<Text>)
    ensures
        ({
            let tail = tail_of(frame, rest);
            &&& tail.len() >= 8
            &&& forall|i: int| 0 <= i < 8 ==> #[trigger] tail[i] == frame.head()[i + 1]
            &&& dropped(tail, 8) == frame.rows() + rest
            &&& dropped(tail, 8 + frame.atoms.len() as int) == rest
            &&& (frame.lines() + rest)[0] == "ITEM: TIMESTEP"@
        }),
{
    reveal(tail_of);
    let tail = tail_of(frame, rest);
    assert(frame.head().len() == 9);
    assert(frame.rows().len() == frame.atoms.len());
    assert(tail =~= frame.head().drop_first() + frame.rows() + rest);
    assert(dropped(tail, 8) =~= frame.rows() + rest);
    assert(dropped(tail, 8 + frame.atoms.len() as int) =~= rest);
}

/// A frame is read back from the lines after its title.
proof fn lemma_written_tail(frame: WrittenFrame, rest: Seq<Text>)
    requires
        frame.is_writable(),
    ensures
        ({
            let tail = tail_of(frame, rest);
            let read = frame_in(tail);
            &&& read is Ok
            &&& frame.is_read_as(read->Ok_0)
            &&& dropped(tail, frame_length(tail) as int) == rest
        }),
{
    let tail = tail_of(frame, rest);
    lemma_tail(frame, rest);
    lemma_written_header(frame, tail);
    let header = header_in(tail)->Ok_0;
    lemma_atoms(frame.atoms, rest, header.columns);
    lemma_sorted(frame.atoms);
    assert(atoms_in(dropped(tail, 8), header.columns, header.atom_count as nat) == Ok::<
        Seq<Atom<Text>>,
        Text,
    >(frame.atoms));
}

/// A frame is read back, and what follows it is read after it.
proof fn lemma_written_frame(frame: WrittenFrame, rest: Seq<Text>)
    requires
        frame.is_writable(),
    ensures
        ({
            let lines = frame.lines() + rest;
            let read = frame_in(lines.drop_first());
            &&& read is Ok
            &&& frame.is_read_as(read->Ok_0)
            &&& frames_in(lines) == after(seq![read->Ok_0], frames_in(rest))
        }),
{
    let lines = frame.lines() + rest;
    lemma_titles();
    lemma_tail(frame, rest);
    lemma_written_tail(frame, rest);
    assert(lines.drop_first() == tail_of(frame, rest)) by {
        reveal(tail_of);
    }
    assert(lines.len() > 0) by {
        assert(frame.head().len() == 9);
    }
}

/// The lines of a frame can stand on lines.
proof fn lemma_written_lines(frame: WrittenFrame, i: int)
    requires
        frame.is_writable(),
        0 <= i < frame.lines().len(),
    ensures
        is_line(frame.lines()[i]),
{
    let b = frame.bounds;
    lemma_titles();
    lemma_title(frame.scaled);
    law_signed_integers_are_read_back(frame.timestep);
    lemma_decimal_is_word(frame.atoms.len());
    lemma_written_bounds(Triple { x: b.xlo_bound, y: b.xhi_bound, z: b.xy }, "x bounds"@);
    lemma_written_bounds(Triple { x: b.ylo_bound, y: b.yhi_bound, z: b.xz }, "y bounds"@);
    lemma_written_bounds(Triple { x: b.zlo_bound, y: b.zhi_bound, z: b.yz }, "z bounds"@);
    if i >= 9 {
        let atom = frame.atoms[i - 9];
        assert(are_literals(atom.position));
        lemma_atom(
            atom,
            Columns {
                id: 0,
                atom_type: 1,
                coordinates: Coordinates::Cartesian,
                x: 2,
                y: 3,
                z: 4,
            },
        );
        assert(frame.lines()[i] == row_of(atom_words(atom)));
    } else {
        assert(frame.lines()[i] == frame.head()[i]);
    }
}

/// Whether frames are read as those that were written, one by one.
pub open spec fn are_read_as(written: Seq<WrittenFrame>, read: Seq<FrameModel>) -> bool {
    &&& read.len() == written.len()
    &&& forall|i: int| 0 <= i < read.len() ==> written[i].is_read_as(#[trigger] read[i])
}

/// The lines of frames are read back as the frames.
proof fn lemma_all_lines(frames: Seq<WrittenFrame>)
    requires
        forall|i: int| 0 <= i < frames.len() ==> (#[trigger] frames[i]).is_writable(),
    ensures
        frames_in(all_lines(frames)) is Ok,
        are_read_as(frames, frames_in(all_lines(frames))->Ok_0),
        forall|i: int|
            0 <= i < all_lines(frames).len() ==> is_line(#[trigger] all_lines(frames)[i]),
    decreases frames.len(),
{
    if frames.len() > 0 {
        let others = frames.drop_first();
        assert forall|i: int| 0 <= i < others.len() implies (
        #[trigger] others[i]).is_writable() by {
            assert(others[i] == frames[i + 1]);
        }
        lemma_all_lines(others);
        let first = frames[0];
        assert(first.is_writable());
        let rest = all_lines(others);
        lemma_written_frame(first, rest);
        let read = frames_in(all_lines(frames))->Ok_0;
        let frame = frame_in(all_lines(frames).drop_first())->Ok_0;
        assert(read == seq![frame] + frames_in(rest)->Ok_0);
        assert forall|i: int| 0 <= i < read.len() implies frames[i].is_read_as(
            #[trigger] read[i],
        ) by {
            if i > 0 {
                assert(read[i] == frames_in(rest)->Ok_0[i - 1]);
                assert(others[i - 1] == frames[i]);
            }
        }
        assert forall|i: int| 0 <= i < all_lines(frames).len() implies is_line(
            #[trigger] all_lines(frames)[i],
        ) by {
            let n = first.lines().len();
            if i < n {
                lemma_written_lines(first, i);
                assert(all_lines(frames)[i] == first.lines()[i]);
            } else {
                assert(all_lines(frames)[i] == rest[i - n]);
            }
        }
    }
}

/// A trajectory that is written of frames, in scaled or in cartesian coordinates, is read back as
/// these frames: their steps, boxes and atoms, the atoms by rising number, with each coordinate
/// where it stood.
pub proof fn law_trajectories_are_read_back(frames: Seq<WrittenFrame>)
    requires
        forall|i: int| 0 <= i < frames.len() ==> (#[trigger] frames[i]).is_writable(),
    ensures
        ({
            let read = frames_in(lines_of(unlines(all_lines(frames))));
            &&& read is Ok
            &&& are_read_as(frames, read->Ok_0)
        }),
{
    lemma_all_lines(frames);
    law_lines_are_read_back(all_lines(frames));
}

} // verus!
