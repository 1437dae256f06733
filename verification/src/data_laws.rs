//! What is read from a data file is what stands in it.
use crate::data::{
    DataModel, Extent, StructureModel, complete_structure, data_atom, extent_in, names_extent,
    no_data, numbers_in, structure_in, with_line, with_lines,
};
use crate::dump_laws::{atom_words, law_rows_are_read_back, row_of};
use crate::number::{Token, decimal_of, is_float_literal, is_number, leading_digits, unsigned};
use crate::reading_back::{
    is_line, is_word, law_integers_are_read_back, law_lines_are_read_back, lemma_decimal_digits,
    lemma_decimal_is_word, lemma_literal_is_word, lemma_only_word, lemma_trimmed,
};
use crate::structure::{Atom, Bounds, Triple, are_literals, atoms_are_literals, bounds_are_literals};
use crate::text::{Text, is_white, lines_of, trimmed, unlines, words_of};
use vstd::prelude::*;

verus! {

/// Whether the words of a line are two ends along an axis with their names.
pub open spec fn gives_extent(line: Text, lo: Text, hi: Text, names: Seq<Text>) -> bool {
    let words = words_of(trimmed(line));
    words.len() >= 4 && words.take(4) == seq![lo, hi] + names
}

/// Whether the words of a line are three tilt factors with their names.
pub open spec fn gives_tilt(line: Text, xy: Text, xz: Text, yz: Text) -> bool {
    let words = words_of(trimmed(line));
    words.len() >= 6 && words.take(6) == seq![xy, xz, yz, "xy"@, "xz"@, "yz"@]
}

/// Whether the words of a line are the number, the type and the coordinates of an atom.
pub open spec fn gives_atom(line: Text, atom: Atom<Text>) -> bool {
    let words = words_of(trimmed(line));
    &&& words.len() >= 5
    &&& <usize as Token>::read(words[0]) == Ok::<usize, Text>(atom.id)
    &&& <usize as Token>::read(words[1]) == Ok::<usize, Text>(atom.atom_type)
    &&& words[2] == atom.position.x
    &&& words[3] == atom.position.y
    &&& words[4] == atom.position.z
}

/// Whether some of the lines give two ends along an axis.
pub open spec fn hold_extent(lines: Seq<Text>, lo: Text, hi: Text, names: Seq<Text>) -> bool {
    exists|i: int| 0 <= i < lines.len() && gives_extent(#[trigger] lines[i], lo, hi, names)
}

/// Whether atoms stand in lines, in their order.
pub open spec fn hold_atoms(lines: Seq<Text>, atoms: Seq<Atom<Text>>) -> bool {
    exists|at: Seq<int>| #[trigger] are_rows(lines, atoms, at)
}

/// Whether atoms stand in the lines at the places given, which rise.
pub open spec fn are_rows(lines: Seq<Text>, atoms: Seq<Atom<Text>>, at: Seq<int>) -> bool {
    &&& at.len() == atoms.len()
    &&& forall|k: int|
        0 <= k < at.len() ==> 0 <= #[trigger] at[k] < lines.len() && gives_atom(
            lines[at[k]],
            atoms[k],
        )
    &&& forall|k: int, l: int| 0 <= k < l < at.len() ==> #[trigger] at[k] < #[trigger] at[l]
}

/// Whether all that is known stands in the lines that were read.
pub open spec fn is_said(lines: Seq<Text>, known: DataModel) -> bool {
    &&& known.x matches Some(e) ==> hold_extent(lines, e.lo, e.hi, seq!["xlo"@, "xhi"@])
    &&& known.y matches Some(e) ==> hold_extent(lines, e.lo, e.hi, seq!["ylo"@, "yhi"@])
    &&& known.z matches Some(e) ==> hold_extent(lines, e.lo, e.hi, seq!["zlo"@, "zhi"@])
    &&& known.tilt == (Triple { x: "0.0"@, y: "0.0"@, z: "0.0"@ }) || exists|i: int|
        0 <= i < lines.len() && gives_tilt(
            #[trigger] lines[i],
            known.tilt.x,
            known.tilt.y,
            known.tilt.z,
        )
    &&& hold_atoms(lines, known.atoms)
}

/// What stands in lines stands in more of them.
proof fn lemma_more_lines(lines: Seq<Text>, line: Text, known: DataModel)
    requires
        is_said(lines, known),
    ensures
        is_said(lines.push(line), known),
{
    let more = lines.push(line);
    assert(forall|i: int| 0 <= i < lines.len() ==> more[i] == lines[i]);
    if let Some(e) = known.x {
        let i = choose|i: int|
            0 <= i < lines.len() && gives_extent(
                #[trigger] lines[i],
                e.lo,
                e.hi,
                seq!["xlo"@, "xhi"@],
            );
        assert(gives_extent(more[i], e.lo, e.hi, seq!["xlo"@, "xhi"@]));
    }
    if let Some(e) = known.y {
        let i = choose|i: int|
            0 <= i < lines.len() && gives_extent(
                #[trigger] lines[i],
                e.lo,
                e.hi,
                seq!["ylo"@, "yhi"@],
            );
        assert(gives_extent(more[i], e.lo, e.hi, seq!["ylo"@, "yhi"@]));
    }
    if let Some(e) = known.z {
        let i = choose|i: int|
            0 <= i < lines.len() && gives_extent(
                #[trigger] lines[i],
                e.lo,
                e.hi,
                seq!["zlo"@, "zhi"@],
            );
        assert(gives_extent(more[i], e.lo, e.hi, seq!["zlo"@, "zhi"@]));
    }
    let t = known.tilt;
    if exists|i: int| 0 <= i < lines.len() && gives_tilt(#[trigger] lines[i], t.x, t.y, t.z) {
        let i = choose|i: int|
            0 <= i < lines.len() && gives_tilt(#[trigger] lines[i], t.x, t.y, t.z);
        assert(gives_tilt(more[i], t.x, t.y, t.z));
    }
    let at = choose|at: Seq<int>| #[trigger] are_rows(lines, known.atoms, at);
    assert(are_rows(more, known.atoms, at));
}

/// What is known after one more line stands in the lines.
proof fn lemma_said(lines: Seq<Text>, line: Text, known: DataModel)
    requires
        is_said(lines, known),
        with_line(known, words_of(trimmed(line))) is Ok,
    ensures
        is_said(lines.push(line), with_line(known, words_of(trimmed(line)))->Ok_0),
{
    let words = words_of(trimmed(line));
    let next = with_line(known, words)->Ok_0;
    let more = lines.push(line);
    lemma_more_lines(lines, line, known);
    assert(more[more.len() - 1] == line);
    if names_extent(words, "xlo"@, "xhi"@) {
        assert(words.take(4) =~= seq![words[0], words[1]] + seq!["xlo"@, "xhi"@]);
        assert(gives_extent(
            more[more.len() - 1],
            next.x->0.lo,
            next.x->0.hi,
            seq!["xlo"@, "xhi"@],
        ));
    } else if names_extent(words, "ylo"@, "yhi"@) {
        assert(words.take(4) =~= seq![words[0], words[1]] + seq!["ylo"@, "yhi"@]);
        assert(gives_extent(
            more[more.len() - 1],
            next.y->0.lo,
            next.y->0.hi,
            seq!["ylo"@, "yhi"@],
        ));
    } else if names_extent(words, "zlo"@, "zhi"@) {
        assert(words.take(4) =~= seq![words[0], words[1]] + seq!["zlo"@, "zhi"@]);
        assert(gives_extent(
            more[more.len() - 1],
            next.z->0.lo,
            next.z->0.hi,
            seq!["zlo"@, "zhi"@],
        ));
    } else if words.len() >= 6 && words[3] == "xy"@ && words[4] == "xz"@ && words[5] == "yz"@ {
        assert(words.take(6) =~= seq![words[0], words[1], words[2], "xy"@, "xz"@, "yz"@]);
        assert(gives_tilt(more[more.len() - 1], next.tilt.x, next.tilt.y, next.tilt.z));
    } else if words.len() >= 1 && words[0] == "Atoms"@ {
    } else if known.in_atoms && words.len() >= 5 {
        let at = choose|at: Seq<int>| #[trigger] are_rows(lines, known.atoms, at);
        let longer = at.push(more.len() - 1);
        let atom = data_atom(words)->Ok_0;
        assert(gives_atom(line, atom));
        assert forall|k: int| 0 <= k < longer.len() implies 0 <= #[trigger] longer[k] < more.len()
            && gives_atom(more[longer[k]], next.atoms[k]) by {
            if k < at.len() {
                assert(longer[k] == at[k]);
                assert(more[at[k]] == lines[at[k]]);
                assert(next.atoms[k] == known.atoms[k]);
            }
        }
        assert forall|k: int, l: int| 0 <= k < l < longer.len() implies #[trigger] longer[k]
            < #[trigger] longer[l] by {
            assert(longer[k] == at[k]);
            if l < at.len() {
                assert(longer[l] == at[l]);
            }
        }
        assert(are_rows(more, next.atoms, longer));
    }
}

/// What is known after all lines stands in the lines.
proof fn lemma_all_said(before: Seq<Text>, known: DataModel, lines: Seq<Text>)
    requires
        is_said(before, known),
        with_lines(known, lines) is Ok,
    ensures
        is_said(before + lines, with_lines(known, lines)->Ok_0),
    decreases lines.len(),
{
    if lines.len() == 0 {
        assert(before + lines =~= before);
    } else {
        lemma_said(before, lines[0], known);
        let next = with_line(known, words_of(trimmed(lines[0])))->Ok_0;
        lemma_all_said(before.push(lines[0]), next, lines.drop_first());
        assert(before.push(lines[0]) + lines.drop_first() =~= before + lines);
    }
}

/// Whatever data file can be read: the ends of the box stand in lines before their names, and so do
/// the tilt factors where they are not zero; and the atoms stand in lines, in their order, each with
/// its number, its type, and its three coordinates.
pub proof fn law_structures_say_what_their_lines_say(text: Text, path: Text)
    requires
        structure_in(text, path) is Ok,
    ensures
        ({
            let lines = lines_of(text);
            let structure = structure_in(text, path)->Ok_0;
            let b = structure.bounds;
            &&& hold_extent(lines, b.xlo_bound, b.xhi_bound, seq!["xlo"@, "xhi"@])
            &&& hold_extent(lines, b.ylo_bound, b.yhi_bound, seq!["ylo"@, "yhi"@])
            &&& hold_extent(lines, b.zlo_bound, b.zhi_bound, seq!["zlo"@, "zhi"@])
            &&& (b.xy == "0.0"@ && b.xz == "0.0"@ && b.yz == "0.0"@) || exists|i: int|
                0 <= i < lines.len() && gives_tilt(#[trigger] lines[i], b.xy, b.xz, b.yz)
            &&& structure.atoms.len() > 0
            &&& hold_atoms(lines, structure.atoms)
        }),
{
    let lines = lines_of(text);
    let none = Seq::<Text>::empty();
    assert(are_rows(none, no_data().atoms, Seq::<int>::empty()));
    lemma_all_said(none, no_data(), lines);
    assert(none + lines =~= lines);
}

/// A structure as it is to be written.
pub ghost struct WrittenData {
    /// The box.
    pub bounds: Bounds<Text>,
    /// Whether the tilt factors are written. Where they are not, they are zero.
    pub tilted: bool,
    /// The atoms, in the order of their rows.
    pub atoms: Seq<Atom<Text>>,
}

impl WrittenData {
    /// Whether the numbers are literals and there are atoms.
    pub open spec fn is_writable(self) -> bool {
        let b = self.bounds;
        &&& bounds_are_literals(b)
        &&& atoms_are_literals(self.atoms)
        &&& self.atoms.len() > 0
        &&& !self.tilted ==> b.xy == "0.0"@ && b.xz == "0.0"@ && b.yz == "0.0"@
    }

    /// The lines before the rows of atoms.
    pub open spec fn head(self) -> Seq<Text> {
        let b = self.bounds;
        let ends = seq![
            row_of(seq![b.xlo_bound, b.xhi_bound, "xlo"@, "xhi"@]),
            row_of(seq![b.ylo_bound, b.yhi_bound, "ylo"@, "yhi"@]),
            row_of(seq![b.zlo_bound, b.zhi_bound, "zlo"@, "zhi"@]),
        ];
        let tilt = if self.tilted {
            seq![row_of(seq![b.xy, b.xz, b.yz, "xy"@, "xz"@, "yz"@])]
        } else {
            Seq::empty()
        };
        ends + tilt + seq!["Atoms"@]
    }

    /// The lines of the data file.
    pub open spec fn lines(self) -> Seq<Text> {
        self.head() + self.atoms.map_values(|a: Atom<Text>| row_of(atom_words(a)))
    }
}

/// A literal does not start with a letter of the names in a data file.
proof fn lemma_no_name(s: Text)
    requires
        is_float_literal(s),
    ensures
        s.len() > 0,
        s[0] != 'x' && s[0] != 'y' && s[0] != 'z' && s[0] != 'A',
{
    lemma_literal_is_word(s);
    let body = unsigned(s);
    if is_number(body) && body == s {
        if leading_digits(s) == 0 {
            assert(s.skip(0) =~= s);
        }
    }
}

/// What the words of a row are, with no white space around them.
proof fn lemma_words(words: Seq<Text>)
    requires
        words.len() > 0,
        forall|i: int| 0 <= i < words.len() ==> is_word(#[trigger] words[i]),
    ensures
        words_of(trimmed(row_of(words))) == words,
        is_line(row_of(words)),
{
    law_rows_are_read_back(words);
    assert(is_word(words[0]));
    assert(is_word(words[words.len() - 1]));
    let last = words[words.len() - 1];
    assert(!is_white(last[last.len() - 1]));
    lemma_trimmed(row_of(words));
}

/// A line with two ends along an axis is taken in.
proof fn lemma_extent(lo: Text, hi: Text, low: Text, high: Text)
    requires
        is_float_literal(lo),
        is_float_literal(hi),
        is_word(low),
        is_word(high),
    ensures
        ({
            let line = row_of(seq![lo, hi, low, high]);
            &&& words_of(trimmed(line)) == seq![lo, hi, low, high]
            &&& is_line(line)
            &&& extent_in(seq![lo, hi, low, high], low, high) == Ok::<Extent<Text>, Text>(
                Extent { lo, hi },
            )
        }),
{
    lemma_literal_is_word(lo);
    lemma_literal_is_word(hi);
    let words = seq![lo, hi, low, high];
    assert forall|i: int| 0 <= i < words.len() implies is_word(#[trigger] words[i]) by {}
    lemma_words(words);
}

/// The names in a data file are words of their own.
proof fn lemma_names()
    ensures
        "xlo"@.len() == 3 && "xlo"@[0] == 'x' && is_word("xlo"@),
        "ylo"@.len() == 3 && "ylo"@[0] == 'y' && is_word("ylo"@),
        "zlo"@.len() == 3 && "zlo"@[0] == 'z' && is_word("zlo"@),
        is_word("xhi"@) && is_word("yhi"@) && is_word("zhi"@),
        is_word("xy"@) && is_word("xz"@) && is_word("yz"@),
        "xhi"@.len() == 3 && "yhi"@.len() == 3 && "zhi"@.len() == 3,
        "xy"@.len() == 2,
        "Atoms"@.len() == 5 && "Atoms"@[0] == 'A' && is_word("Atoms"@),
{
    reveal_strlit("xlo");
    reveal_strlit("ylo");
    reveal_strlit("zlo");
    reveal_strlit("xhi");
    reveal_strlit("yhi");
    reveal_strlit("zhi");
    reveal_strlit("xy");
    reveal_strlit("xz");
    reveal_strlit("yz");
    reveal_strlit("Atoms");
}

/// The row of an atom is taken in.
proof fn lemma_atom_row(known: DataModel, atom: Atom<Text>)
    requires
        known.in_atoms,
        are_literals(atom.position),
    ensures
        with_line(known, words_of(trimmed(row_of(atom_words(atom))))) == Ok::<DataModel, Text>(
            DataModel { atoms: known.atoms.push(atom), ..known },
        ),
        is_line(row_of(atom_words(atom))),
{
    let words = atom_words(atom);
    let p = atom.position;
    lemma_decimal_is_word(atom.id as nat);
    lemma_decimal_is_word(atom.atom_type as nat);
    lemma_literal_is_word(p.x);
    lemma_literal_is_word(p.y);
    lemma_literal_is_word(p.z);
    assert forall|i: int| 0 <= i < words.len() implies is_word(#[trigger] words[i]) by {}
    lemma_words(words);
    law_integers_are_read_back(atom.id as nat);
    law_integers_are_read_back(atom.atom_type as nat);
    lemma_names();
    lemma_no_name(p.x);
    lemma_decimal_digits(atom.id as nat);
    assert(decimal_of(atom.id as nat)[0] != 'A');
    assert(words.len() == 5);
}

/// The rows of atoms are taken in.
proof fn lemma_atom_rows(known: DataModel, atoms: Seq<Atom<Text>>)
    requires
        known.in_atoms,
        atoms_are_literals(atoms),
    ensures
        with_lines(known, atoms.map_values(|a: Atom<Text>| row_of(atom_words(a)))) == Ok::<
            DataModel,
            Text,
        >(DataModel { atoms: known.atoms + atoms, ..known }),
    decreases atoms.len(),
{
    let row = |a: Atom<Text>| row_of(atom_words(a));
    let rows = atoms.map_values(row);
    if atoms.len() == 0 {
        assert(known.atoms + atoms =~= known.atoms);
    } else {
        let others = atoms.drop_first();
        assert forall|j: int| 0 <= j < others.len() implies are_literals(
            #[trigger] others[j].position,
        ) by {
            assert(others[j] == atoms[j + 1]);
        }
        assert(are_literals(atoms[0].position));
        lemma_atom_row(known, atoms[0]);
        let next = DataModel { atoms: known.atoms.push(atoms[0]), ..known };
        lemma_atom_rows(next, others);
        assert(rows.drop_first() =~= others.map_values(row));
        assert(next.atoms + others =~= known.atoms + atoms);
    }
}

/// One more line in front is taken in first.
proof fn lemma_one_line(known: DataModel, line: Text, rest: Seq<Text>)
    requires
        with_line(known, words_of(trimmed(line))) is Ok,
    ensures
        with_lines(known, seq![line] + rest) == with_lines(
            with_line(known, words_of(trimmed(line)))->Ok_0,
            rest,
        ),
{
    let lines = seq![line] + rest;
    assert(lines[0] == line);
    assert(lines.drop_first() =~= rest);
}

/// The lines of a data file can stand on lines.
proof fn lemma_lines(data: WrittenData, i: int)
    requires
        data.is_writable(),
        0 <= i < data.lines().len(),
    ensures
        is_line(data.lines()[i]),
{
    let b = data.bounds;
    let n = data.head().len();
    lemma_names();
    reveal_strlit("Atoms");
    lemma_extent(b.xlo_bound, b.xhi_bound, "xlo"@, "xhi"@);
    lemma_extent(b.ylo_bound, b.yhi_bound, "ylo"@, "yhi"@);
    lemma_extent(b.zlo_bound, b.zhi_bound, "zlo"@, "zhi"@);
    lemma_tilt(b.xy, b.xz, b.yz);
    if i >= n {
        let atom = data.atoms[i - n];
        assert(are_literals(atom.position));
        lemma_atom_row(DataModel { in_atoms: true, ..no_data() }, atom);
        assert(data.lines()[i] == row_of(atom_words(atom)));
    } else {
        assert(data.lines()[i] == data.head()[i]);
    }
}

/// A line of tilt factors is taken in.
proof fn lemma_tilt(xy: Text, xz: Text, yz: Text)
    requires
        is_float_literal(xy),
        is_float_literal(xz),
        is_float_literal(yz),
    ensures
        ({
            let words = seq![xy, xz, yz, "xy"@, "xz"@, "yz"@];
            &&& words_of(trimmed(row_of(words))) == words
            &&& is_line(row_of(words))
            &&& numbers_in(words, 0, "xy"@, "xz"@, "yz"@) == Ok::<Triple<Text>, Text>(
                Triple { x: xy, y: xz, z: yz },
            )
        }),
{
    let words = seq![xy, xz, yz, "xy"@, "xz"@, "yz"@];
    lemma_names();
    lemma_literal_is_word(xy);
    lemma_literal_is_word(xz);
    lemma_literal_is_word(yz);
    assert forall|i: int| 0 <= i < words.len() implies is_word(#[trigger] words[i]) by {}
    lemma_words(words);
}

/// The three ends of the box are taken in.
proof fn lemma_ends(known: DataModel, b: Bounds<Text>, rest: Seq<Text>)
    requires
        bounds_are_literals(b),
    ensures
        with_lines(
            known,
            seq![row_of(seq![b.xlo_bound, b.xhi_bound, "xlo"@, "xhi"@])] + (seq![
                row_of(seq![b.ylo_bound, b.yhi_bound, "ylo"@, "yhi"@]),
            ] + (seq![row_of(seq![b.zlo_bound, b.zhi_bound, "zlo"@, "zhi"@])] + rest)),
        ) == with_lines(
            DataModel {
                x: Some(Extent { lo: b.xlo_bound, hi: b.xhi_bound }),
                y: Some(Extent { lo: b.ylo_bound, hi: b.yhi_bound }),
                z: Some(Extent { lo: b.zlo_bound, hi: b.zhi_bound }),
                ..known
            },
            rest,
        ),
{
    lemma_names();
    lemma_extent(b.xlo_bound, b.xhi_bound, "xlo"@, "xhi"@);
    lemma_extent(b.ylo_bound, b.yhi_bound, "ylo"@, "yhi"@);
    lemma_extent(b.zlo_bound, b.zhi_bound, "zlo"@, "zhi"@);
    let lx = row_of(seq![b.xlo_bound, b.xhi_bound, "xlo"@, "xhi"@]);
    let ly = row_of(seq![b.ylo_bound, b.yhi_bound, "ylo"@, "yhi"@]);
    let lz = row_of(seq![b.zlo_bound, b.zhi_bound, "zlo"@, "zhi"@]);
    let k0 = known;
    let k1 = DataModel { x: Some(Extent { lo: b.xlo_bound, hi: b.xhi_bound }), ..k0 };
    let k2 = DataModel { y: Some(Extent { lo: b.ylo_bound, hi: b.yhi_bound }), ..k1 };
    assert("ylo"@ != "xlo"@ && "zlo"@ != "xlo"@ && "zlo"@ != "ylo"@);
    lemma_one_line(k0, lx, seq![ly] + (seq![lz] + rest));
    lemma_one_line(k1, ly, seq![lz] + rest);
    lemma_one_line(k2, lz, rest);
}

/// The section of atoms is taken in.
proof fn lemma_section(known: DataModel, atoms: Seq<Atom<Text>>)
    requires
        atoms_are_literals(atoms),
        known.atoms.len() == 0,
    ensures
        with_lines(
            known,
            seq!["Atoms"@] + atoms.map_values(|a: Atom<Text>| row_of(atom_words(a))),
        ) == Ok::<DataModel, Text>(DataModel { in_atoms: true, atoms, ..known }),
{
    let rows = atoms.map_values(|a: Atom<Text>| row_of(atom_words(a)));
    lemma_names();
    lemma_only_word("Atoms"@);
    assert(!is_white("Atoms"@["Atoms"@.len() - 1]));
    lemma_trimmed("Atoms"@);
    lemma_one_line(known, "Atoms"@, rows);
    let next = DataModel { in_atoms: true, ..known };
    lemma_atom_rows(next, atoms);
    assert(next.atoms + atoms =~= atoms);
}

/// A line of tilt factors is taken in before what follows.
proof fn lemma_tilt_line(known: DataModel, b: Bounds<Text>, rest: Seq<Text>)
    requires
        bounds_are_literals(b),
    ensures
        with_lines(
            known,
            seq![row_of(seq![b.xy, b.xz, b.yz, "xy"@, "xz"@, "yz"@])] + rest,
        ) == with_lines(
            DataModel { tilt: Triple { x: b.xy, y: b.xz, z: b.yz }, ..known },
            rest,
        ),
{
    let words = seq![b.xy, b.xz, b.yz, "xy"@, "xz"@, "yz"@];
    lemma_names();
    lemma_tilt(b.xy, b.xz, b.yz);
    lemma_no_name(b.yz);
    assert(words[2] == b.yz);
    lemma_one_line(known, row_of(words), rest);
}

/// The lines of a data file, one group after the other.
proof fn lemma_shape(data: WrittenData)
    ensures
        ({
            let b = data.bounds;
            let rows = data.atoms.map_values(|a: Atom<Text>| row_of(atom_words(a)));
            let last = seq!["Atoms"@] + rows;
            let rest = if data.tilted {
                seq![row_of(seq![b.xy, b.xz, b.yz, "xy"@, "xz"@, "yz"@])] + last
            } else {
                last
            };
            data.lines() == seq![row_of(seq![b.xlo_bound, b.xhi_bound, "xlo"@, "xhi"@])] + (seq![
                row_of(seq![b.ylo_bound, b.yhi_bound, "ylo"@, "yhi"@]),
            ] + (seq![row_of(seq![b.zlo_bound, b.zhi_bound, "zlo"@, "zhi"@])] + rest))
        }),
{
    let b = data.bounds;
    let rows = data.atoms.map_values(|a: Atom<Text>| row_of(atom_words(a)));
    let last = seq!["Atoms"@] + rows;
    let rest = if data.tilted {
        seq![row_of(seq![b.xy, b.xz, b.yz, "xy"@, "xz"@, "yz"@])] + last
    } else {
        last
    };
    let x = row_of(seq![b.xlo_bound, b.xhi_bound, "xlo"@, "xhi"@]);
    let y = row_of(seq![b.ylo_bound, b.yhi_bound, "ylo"@, "yhi"@]);
    let z = row_of(seq![b.zlo_bound, b.zhi_bound, "zlo"@, "zhi"@]);
    assert(data.lines() =~= seq![x] + (seq![y] + (seq![z] + rest)));
}

/// The lines of a data file are taken in, whatever was known before.
proof fn lemma_data(before: DataModel, data: WrittenData)
    requires
        data.is_writable(),
        before.atoms.len() == 0,
        data.tilted || before.tilt == no_data().tilt,
    ensures
        ({
            let known = with_lines(before, data.lines());
            &&& known is Ok
            &&& complete_structure(known->Ok_0, Seq::empty()) == Ok::<StructureModel, Text>(
                StructureModel { bounds: data.bounds, atoms: data.atoms },
            )
        }),
{
    let b = data.bounds;
    let last = seq!["Atoms"@] + data.atoms.map_values(|a: Atom<Text>| row_of(atom_words(a)));
    let known = DataModel {
        x: Some(Extent { lo: b.xlo_bound, hi: b.xhi_bound }),
        y: Some(Extent { lo: b.ylo_bound, hi: b.yhi_bound }),
        z: Some(Extent { lo: b.zlo_bound, hi: b.zhi_bound }),
        ..before
    };
    let tilted = DataModel { tilt: Triple { x: b.xy, y: b.xz, z: b.yz }, ..known };
    lemma_shape(data);
    if data.tilted {
        lemma_ends(
            before,
            b,
            seq![row_of(seq![b.xy, b.xz, b.yz, "xy"@, "xz"@, "yz"@])] + last,
        );
        lemma_tilt_line(known, b, last);
    } else {
        lemma_ends(before, b, last);
        assert(tilted == known);
    }
    lemma_section(tilted, data.atoms);
    assert(with_lines(before, data.lines()) == Ok::<DataModel, Text>(
        DataModel { in_atoms: true, atoms: data.atoms, ..tilted },
    ));
}

/// Lines are taken in one after the other.
proof fn lemma_two_parts(known: DataModel, a: Seq<Text>, b: Seq<Text>)
    requires
        with_lines(known, a) is Ok,
    ensures
        with_lines(known, a + b) == with_lines(with_lines(known, a)->Ok_0, b),
    decreases a.len(),
{
    if a.len() == 0 {
        assert(a + b =~= b);
    } else {
        let next = with_line(known, words_of(trimmed(a[0])))->Ok_0;
        lemma_two_parts(next, a.drop_first(), b);
        assert((a + b).drop_first() =~= a.drop_first() + b);
        assert((a + b)[0] == a[0]);
    }
}

/// A data file that is written of a box and atoms is read back as this box and these atoms.
pub proof fn law_data_files_are_read_back(data: WrittenData, path: Text)
    requires
        data.is_writable(),
    ensures
        structure_in(unlines(data.lines()), path) == Ok::<StructureModel, Text>(
            StructureModel { bounds: data.bounds, atoms: data.atoms },
        ),
{
    assert(lines_of(unlines(data.lines())) == data.lines()) by {
        assert forall|i: int| 0 <= i < data.lines().len() implies is_line(
            #[trigger] data.lines()[i],
        ) by {
            lemma_lines(data, i);
        }
        law_lines_are_read_back(data.lines());
    }
    lemma_data(no_data(), data);
}

/// What a data file says last of its box counts: a box and atoms that are written after other lines
/// that can be read, and that give no atoms, are read back.
pub proof fn law_the_last_box_counts(before: Seq<Text>, data: WrittenData, path: Text)
    requires
        data.is_writable(),
        data.tilted,
        with_lines(no_data(), before) matches Ok(known) && known.atoms.len() == 0,
        forall|i: int| 0 <= i < before.len() ==> is_line(#[trigger] before[i]),
    ensures
        structure_in(unlines(before + data.lines()), path) == Ok::<StructureModel, Text>(
            StructureModel { bounds: data.bounds, atoms: data.atoms },
        ),
{
    let lines = before + data.lines();
    assert forall|i: int| 0 <= i < lines.len() implies is_line(#[trigger] lines[i]) by {
        if i < before.len() {
            assert(lines[i] == before[i]);
        } else {
            lemma_lines(data, i - before.len());
            assert(lines[i] == data.lines()[i - before.len()]);
        }
    }
    law_lines_are_read_back(lines);
    lemma_two_parts(no_data(), before, data.lines());
    lemma_data(with_lines(no_data(), before)->Ok_0, data);
}

} // verus!
