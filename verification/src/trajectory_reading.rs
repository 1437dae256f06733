//! Mock trajectories are read back as they were written.
use crate::dump::{
    Columns, FrameHeader, atom_in, atoms_in, bound_line, bound_values, by_id, frame_in,
    frame_length, frames_in, header_in, table_columns,
};
use crate::fields::{dropped, line_at};
use crate::number::decimal_of;
use crate::reading_back::{
    is_line, law_integers_are_read_back, law_lines_are_read_back, lemma_decimal_is_word,
    lemma_first_word, lemma_literal_is_word, lemma_only_word, lemma_trimmed,
};
use crate::structure::{
    Atom, Bounds, Coordinates, FrameModel, Triple, are_literals, atoms_are_literals,
    bounds_are_literals,
};
use crate::text::{Text, after, lines_of, trimmed, unlines, words_of};
use crate::trajectory::{
    MOCK_FRAMES, MOCK_STRIDE, atom_row, frame_head, frame_lines, three_words, trajectory_lines,
};
use vstd::prelude::*;

verus! {

/// Three literals with spaces between them are three words, on a line.
proof fn lemma_three_words(t: Triple<Text>)
    requires
        are_literals(t),
    ensures
        words_of(three_words(t.x, t.y, t.z)) == seq![t.x, t.y, t.z],
        is_line(three_words(t.x, t.y, t.z)),
{
    reveal_strlit(" ");
    lemma_literal_is_word(t.x);
    lemma_literal_is_word(t.y);
    lemma_literal_is_word(t.z);
    let line = three_words(t.x, t.y, t.z);
    let rest = t.y + " "@ + t.z;
    assert(line =~= t.x + " "@ + rest);
    lemma_first_word(t.x, rest);
    lemma_first_word(t.y, t.z);
    lemma_only_word(t.z);
    assert(seq![t.x] + (seq![t.y] + seq![t.z]) =~= seq![t.x, t.y, t.z]);
    assert(line.last() == t.z.last());
}

/// A line of box bounds is read back.
proof fn lemma_bound_line(t: Triple<Text>, label: Text)
    requires
        are_literals(t),
    ensures
        bound_line(Some(three_words(t.x, t.y, t.z)), label) == Ok::<Triple<Text>, Text>(t),
{
    lemma_three_words(t);
    let words = seq![t.x, t.y, t.z];
    let none = Seq::<Text>::empty();
    assert(words.drop_first() =~= seq![t.y, t.z]);
    assert(words.drop_first().drop_first() =~= seq![t.z]);
    assert(words.drop_first().drop_first().drop_first() =~= none);
    assert(bound_values(none, label) == Ok::<Seq<Text>, Text>(none));
    assert(bound_values(seq![t.z], label) == Ok::<Seq<Text>, Text>(seq![t.z] + none));
    assert(bound_values(seq![t.y, t.z], label) == Ok::<Seq<Text>, Text>(
        seq![t.y] + (seq![t.z] + none),
    ));
    assert(bound_values(words, label) == Ok::<Seq<Text>, Text>(
        seq![t.x] + (seq![t.y] + (seq![t.z] + none)),
    ));
}

/// The row of an atom is read back.
proof fn lemma_atom_row(atom: Atom<Text>, columns: Columns)
    requires
        are_literals(atom.position),
        columns == mock_columns(),
    ensures
        atom_in(atom_row(atom), columns) == Ok::<Atom<Text>, Text>(atom),
        is_line(atom_row(atom)),
{
    reveal_strlit(" ");
    let id = decimal_of(atom.id as nat);
    let kind = decimal_of(atom.atom_type as nat);
    let p = atom.position;
    let place = three_words(p.x, p.y, p.z);
    let row = atom_row(atom);
    lemma_decimal_is_word(atom.id as nat);
    lemma_decimal_is_word(atom.atom_type as nat);
    lemma_three_words(p);
    let rest = kind + " "@ + place;
    assert(row =~= id + " "@ + rest);
    lemma_first_word(id, rest);
    lemma_first_word(kind, place);
    let fields = words_of(row);
    assert(fields =~= seq![id, kind, p.x, p.y, p.z]);
    law_integers_are_read_back(atom.id as nat);
    law_integers_are_read_back(atom.atom_type as nat);
    lemma_literal_is_word(p.x);
    lemma_literal_is_word(p.z);
    assert(place.len() > 0 && row.last() == place.last());
}

/// The rows of an atom table are read back.
proof fn lemma_atom_rows(atoms: Seq<Atom<Text>>, rest: Seq<Text>, columns: Columns)
    requires
        atoms_are_literals(atoms),
        columns == mock_columns(),
    ensures
        atoms_in(
            atoms.map_values(|a: Atom<Text>| atom_row(a)) + rest,
            columns,
            atoms.len(),
        ) == Ok::<Seq<Atom<Text>>, Text>(atoms),
    decreases atoms.len(),
{
    let rows = atoms.map_values(|a: Atom<Text>| atom_row(a));
    if atoms.len() == 0 {
        assert(atoms =~= Seq::<Atom<Text>>::empty());
    } else {
        let others = atoms.drop_first();
        assert forall|j: int| 0 <= j < others.len() implies are_literals(
            #[trigger] others[j].position,
        ) by {
            assert(others[j] == atoms[j + 1]);
        }
        lemma_atom_row(atoms[0], columns);
        lemma_atom_rows(others, rest, columns);
        let lines = rows + rest;
        assert(lines[0] == atom_row(atoms[0]));
        assert(lines.drop_first() =~= others.map_values(|a: Atom<Text>| atom_row(a)) + rest);
        assert(seq![atoms[0]] + others =~= atoms);
    }
}

/// The columns of the atom tables of mock trajectories.
pub open spec fn mock_columns() -> Columns {
    Columns { id: 0, atom_type: 1, coordinates: Coordinates::Cartesian, x: 2, y: 3, z: 4 }
}

/// The title of the atom tables names their columns.
proof fn lemma_table_title()
    ensures
        table_columns(dropped(words_of("ITEM: ATOMS id type x y z"@), 2)) == Ok::<Columns, Text>(
            mock_columns(),
        ),
        "ITEM: ATOMS"@.is_prefix_of("ITEM: ATOMS id type x y z"@),
        is_line("ITEM: ATOMS id type x y z"@),
{
    reveal_strlit("ITEM: ATOMS id type x y z");
    reveal_strlit("ITEM: ATOMS");
    reveal_strlit("ITEM:");
    reveal_strlit("ATOMS");
    reveal_strlit("id");
    reveal_strlit("type");
    reveal_strlit("x");
    reveal_strlit("y");
    reveal_strlit("z");
    reveal_strlit("xs");
    reveal_strlit("ys");
    reveal_strlit("zs");
    reveal_strlit(" ");
    let title = "ITEM: ATOMS id type x y z"@;
    let r5 = "y"@ + " "@ + "z"@;
    let r4 = "x"@ + " "@ + r5;
    let r3 = "type"@ + " "@ + r4;
    let r2 = "id"@ + " "@ + r3;
    let r1 = "ATOMS"@ + " "@ + r2;
    assert(title =~= "ITEM:"@ + " "@ + r1);
    lemma_first_word("ITEM:"@, r1);
    lemma_first_word("ATOMS"@, r2);
    lemma_first_word("id"@, r3);
    lemma_first_word("type"@, r4);
    lemma_first_word("x"@, r5);
    lemma_first_word("y"@, "z"@);
    lemma_only_word("z"@);
    let names = seq!["id"@, "type"@, "x"@, "y"@, "z"@];
    assert(dropped(words_of(title), 2) =~= names);
    assert("id"@[0] == 'i' && "type"@[0] == 't' && "x"@[0] == 'x' && "y"@[0] == 'y' && "z"@[0]
        == 'z');
    assert("xs"@.len() == 2 && "xs"@[0] == 'x' && "id"@.len() == 2);
    names.index_of_first_ensures("id"@);
    names.index_of_first_ensures("type"@);
    names.index_of_first_ensures("x"@);
    names.index_of_first_ensures("y"@);
    names.index_of_first_ensures("z"@);
    names.index_of_first_ensures("xs"@);
    assert(names[0] == "id"@ && names[1] == "type"@ && names[2] == "x"@ && names[3] == "y"@
        && names[4] == "z"@);
    assert(!names.contains("xs"@)) by {
        assert(forall|i: int| 0 <= i < names.len() ==> names[i] != "xs"@);
    }
    assert(names.contains("id"@) && names.contains("type"@) && names.contains("x"@)
        && names.contains("y"@) && names.contains("z"@));
    assert("ITEM: ATOMS"@ =~= title.subrange(0, 11));
}

/// What the titles before the atom table of a frame are read as.
pub proof fn lemma_titles()
    ensures
        is_line("ITEM: TIMESTEP"@),
        trimmed("ITEM: TIMESTEP"@) == "ITEM: TIMESTEP"@,
        is_line("ITEM: NUMBER OF ATOMS"@),
        trimmed("ITEM: NUMBER OF ATOMS"@) == "ITEM: NUMBER OF ATOMS"@,
        is_line("ITEM: BOX BOUNDS xy xz yz pp pp pp"@),
        "ITEM: BOX BOUNDS"@.is_prefix_of("ITEM: BOX BOUNDS xy xz yz pp pp pp"@),
{
    reveal_strlit("ITEM: TIMESTEP");
    reveal_strlit("ITEM: NUMBER OF ATOMS");
    reveal_strlit("ITEM: BOX BOUNDS xy xz yz pp pp pp");
    reveal_strlit("ITEM: BOX BOUNDS");
    lemma_trimmed("ITEM: TIMESTEP"@);
    lemma_trimmed("ITEM: NUMBER OF ATOMS"@);
    assert("ITEM: BOX BOUNDS"@ =~= "ITEM: BOX BOUNDS xy xz yz pp pp pp"@.subrange(0, 16));
}

/// The lines of a frame after the first of them, and what follows the frame.
#[verifier::opaque]
spec fn after_title(index: nat, bounds: Bounds<Text>, atoms: Seq<Atom<Text>>, rest: Seq<Text>) -> Seq<
    Text,
> {
    (frame_lines(index, bounds, atoms) + rest).drop_first()
}

/// What stands before the atom table of a frame is read back.
proof fn lemma_header(index: nat, bounds: Bounds<Text>, atoms: Seq<Atom<Text>>, rest: Seq<Text>)
    requires
        index * MOCK_STRIDE <= i64::MAX,
        atoms.len() <= usize::MAX,
        bounds_are_literals(bounds),
    ensures
        header_in(after_title(index, bounds, atoms, rest)) == Ok::<FrameHeader, Text>(
            FrameHeader {
                timestep: (index * MOCK_STRIDE) as i64,
                atom_count: atoms.len() as usize,
                bounds,
                columns: mock_columns(),
            },
        ),
{
    let head = frame_head(index, bounds, atoms.len());
    let lines = after_title(index, bounds, atoms, rest);
    reveal(after_title);
    let step = index * MOCK_STRIDE as nat;
    assert(forall|i: int| 0 <= i < 8 ==> #[trigger] lines[i] == head[i + 1]);
    lemma_titles();
    lemma_table_title();
    lemma_decimal_is_word(step);
    lemma_decimal_is_word(atoms.len());
    law_integers_are_read_back(step);
    law_integers_are_read_back(atoms.len());
    assert(line_at(lines, 0) == Some(decimal_of(step)));
    assert(line_at(lines, 1) == Some("ITEM: NUMBER OF ATOMS"@));
    assert(line_at(lines, 2) == Some(decimal_of(atoms.len())));
    assert(line_at(lines, 3) == Some("ITEM: BOX BOUNDS xy xz yz pp pp pp"@));
    assert(line_at(lines, 7) == Some("ITEM: ATOMS id type x y z"@));
    let x = Triple { x: bounds.xlo_bound, y: bounds.xhi_bound, z: bounds.xy };
    let y = Triple { x: bounds.ylo_bound, y: bounds.yhi_bound, z: bounds.xz };
    let z = Triple { x: bounds.zlo_bound, y: bounds.zhi_bound, z: bounds.yz };
    lemma_bound_line(x, "x bounds"@);
    lemma_bound_line(y, "y bounds"@);
    lemma_bound_line(z, "z bounds"@);
    let box_lines = dropped(lines, 4);
    assert(line_at(box_lines, 0) == Some(three_words(x.x, x.y, x.z)));
    assert(line_at(box_lines, 1) == Some(three_words(y.x, y.y, y.z)));
    assert(line_at(box_lines, 2) == Some(three_words(z.x, z.y, z.z)));
}

/// What a frame of a mock trajectory is read as: its atoms come by rising number.
pub open spec fn mock_frame(index: nat, bounds: Bounds<Text>, atoms: Seq<Atom<Text>>) -> FrameModel {
    FrameModel {
        timestep: (index * MOCK_STRIDE) as i64,
        bounds,
        coordinates: Coordinates::Cartesian,
        atoms: by_id(atoms),
    }
}

/// The rows of the atom table follow the lines before it, and what follows the frame the rows.
proof fn lemma_rows_follow(
    index: nat,
    bounds: Bounds<Text>,
    atoms: Seq<Atom<Text>>,
    rest: Seq<Text>,
)
    ensures
        ({
            let lines = after_title(index, bounds, atoms, rest);
            let rows = atoms.map_values(|a: Atom<Text>| atom_row(a));
            &&& dropped(lines, 8) == rows + rest
            &&& dropped(lines, 8 + atoms.len() as int) == rest
        }),
{
    let lines = after_title(index, bounds, atoms, rest);
    let rows = atoms.map_values(|a: Atom<Text>| atom_row(a));
    let head = frame_head(index, bounds, atoms.len());
    reveal(after_title);
    assert(head.len() == 9);
    assert(lines =~= head.drop_first() + rows + rest);
    assert(dropped(lines, 8) =~= rows + rest);
    assert(dropped(lines, 8 + atoms.len() as int) =~= rest);
}

/// A frame is read back from the lines after its title.
proof fn lemma_frame_in(index: nat, bounds: Bounds<Text>, atoms: Seq<Atom<Text>>, rest: Seq<Text>)
    requires
        index * MOCK_STRIDE <= i64::MAX,
        atoms.len() <= usize::MAX,
        bounds_are_literals(bounds),
        atoms_are_literals(atoms),
    ensures
        ({
            let lines = after_title(index, bounds, atoms, rest);
            &&& frame_in(lines) == Ok::<FrameModel, Text>(mock_frame(index, bounds, atoms))
            &&& dropped(lines, frame_length(lines) as int) == rest
        }),
{
    lemma_header(index, bounds, atoms, rest);
    lemma_atom_rows(atoms, rest, mock_columns());
    lemma_rows_follow(index, bounds, atoms, rest);
}

/// A frame is read back, and what follows it is read after it.
proof fn lemma_frame(index: nat, bounds: Bounds<Text>, atoms: Seq<Atom<Text>>, rest: Seq<Text>)
    requires
        index * MOCK_STRIDE <= i64::MAX,
        atoms.len() <= usize::MAX,
        bounds_are_literals(bounds),
        atoms_are_literals(atoms),
    ensures
        frames_in(frame_lines(index, bounds, atoms) + rest) == after(
            seq![mock_frame(index, bounds, atoms)],
            frames_in(rest),
        ),
{
    let all = frame_lines(index, bounds, atoms) + rest;
    lemma_titles();
    lemma_frame_in(index, bounds, atoms, rest);
    assert(all[0] == "ITEM: TIMESTEP"@);
    assert(all.drop_first() == after_title(index, bounds, atoms, rest)) by {
        reveal(after_title);
    }
}

/// The lines of the frames from one on.
spec fn lines_from(bounds: Bounds<Text>, frames: Seq<Seq<Atom<Text>>>, k: nat) -> Seq<Text>
    decreases frames.len() - k,
{
    if k >= frames.len() {
        Seq::empty()
    } else {
        frame_lines(k, bounds, frames[k as int]) + lines_from(bounds, frames, k + 1)
    }
}

/// The lines of a trajectory are those of its first frames and those of the others.
proof fn lemma_lines_from(bounds: Bounds<Text>, frames: Seq<Seq<Atom<Text>>>, k: nat)
    requires
        k <= frames.len(),
    ensures
        trajectory_lines(bounds, frames.take(k as int)) + lines_from(bounds, frames, k)
            == trajectory_lines(bounds, frames),
    decreases frames.len() - k,
{
    if k == frames.len() {
        assert(frames.take(k as int) =~= frames);
        assert(trajectory_lines(bounds, frames) + Seq::<Text>::empty() =~= trajectory_lines(
            bounds,
            frames,
        ));
    } else {
        lemma_lines_from(bounds, frames, k + 1);
        let first = frames.take(k as int + 1);
        assert(first.drop_last() =~= frames.take(k as int));
        assert(first.last() == frames[k as int]);
        let before = trajectory_lines(bounds, frames.take(k as int));
        let frame = frame_lines(k, bounds, frames[k as int]);
        let rest = lines_from(bounds, frames, k + 1);
        assert((before + frame) + rest =~= before + (frame + rest));
    }
}

/// Whether all that a mock trajectory holds can be read back: its numbers are written as
/// floating-point literals, and its counts fit the types that they are read as.
pub open spec fn is_readable(bounds: Bounds<Text>, frames: Seq<Seq<Atom<Text>>>) -> bool {
    &&& frames.len() <= MOCK_FRAMES
    &&& bounds_are_literals(bounds)
    &&& forall|i: int|
        0 <= i < frames.len() ==> atoms_are_literals(#[trigger] frames[i]) && frames[i].len()
            <= usize::MAX
}

/// The frames from one on are read back.
proof fn lemma_frames_from(bounds: Bounds<Text>, frames: Seq<Seq<Atom<Text>>>, k: nat)
    requires
        is_readable(bounds, frames),
        k <= frames.len(),
    ensures
        frames_in(lines_from(bounds, frames, k)) == Ok::<Seq<FrameModel>, Text>(
            Seq::new(
                (frames.len() - k) as nat,
                |i: int| mock_frame((k + i) as nat, bounds, frames[k + i]),
            ),
        ),
    decreases frames.len() - k,
{
    let models = Seq::new(
        (frames.len() - k) as nat,
        |i: int| mock_frame((k + i) as nat, bounds, frames[k + i]),
    );
    if k == frames.len() {
        assert(models =~= Seq::<FrameModel>::empty());
    } else {
        lemma_frames_from(bounds, frames, k + 1);
        assert(atoms_are_literals(frames[k as int]));
        lemma_frame(k, bounds, frames[k as int], lines_from(bounds, frames, k + 1));
        let others = Seq::new(
            (frames.len() - (k + 1)) as nat,
            |i: int| mock_frame((k + 1 + i) as nat, bounds, frames[k + 1 + i]),
        );
        assert(models =~= seq![mock_frame(k, bounds, frames[k as int])] + others);
    }
}

/// The lines of a frame can stand on lines.
proof fn lemma_frame_is_lines(index: nat, bounds: Bounds<Text>, atoms: Seq<Atom<Text>>, i: int)
    requires
        bounds_are_literals(bounds),
        atoms_are_literals(atoms),
        0 <= i < frame_lines(index, bounds, atoms).len(),
    ensures
        is_line(frame_lines(index, bounds, atoms)[i]),
{
    lemma_titles();
    lemma_table_title();
    lemma_decimal_is_word(index * MOCK_STRIDE as nat);
    lemma_decimal_is_word(atoms.len());
    lemma_three_words(Triple { x: bounds.xlo_bound, y: bounds.xhi_bound, z: bounds.xy });
    lemma_three_words(Triple { x: bounds.ylo_bound, y: bounds.yhi_bound, z: bounds.xz });
    lemma_three_words(Triple { x: bounds.zlo_bound, y: bounds.zhi_bound, z: bounds.yz });
    if i >= 9 {
        lemma_atom_row(atoms[i - 9], mock_columns());
    }
}

/// The lines of a trajectory can stand on lines.
proof fn lemma_trajectory_is_lines(bounds: Bounds<Text>, frames: Seq<Seq<Atom<Text>>>, i: int)
    requires
        is_readable(bounds, frames),
        0 <= i < trajectory_lines(bounds, frames).len(),
    ensures
        is_line(trajectory_lines(bounds, frames)[i]),
    decreases frames.len(),
{
    let before = trajectory_lines(bounds, frames.drop_last());
    assert(atoms_are_literals(frames[frames.len() - 1]));
    assert(forall|j: int|
        0 <= j < frames.len() - 1 ==> #[trigger] frames.drop_last()[j] == frames[j]);
    if i < before.len() {
        lemma_trajectory_is_lines(bounds, frames.drop_last(), i);
    } else {
        lemma_frame_is_lines(
            (frames.len() - 1) as nat,
            bounds,
            frames.last(),
            i - before.len(),
        );
    }
}

/// A mock trajectory is read back as it was written: as many frames, the steps rising from zero by
/// the stride, the same box, and the same atoms by rising number.
pub proof fn law_mock_trajectories_are_read_back(
    bounds: Bounds<Text>,
    frames: Seq<Seq<Atom<Text>>>,
)
    requires
        is_readable(bounds, frames),
    ensures
        frames_in(lines_of(unlines(trajectory_lines(bounds, frames)))) == Ok::<
            Seq<FrameModel>,
            Text,
        >(Seq::new(frames.len(), |i: int| mock_frame(i as nat, bounds, frames[i]))),
{
    let lines = trajectory_lines(bounds, frames);
    assert forall|i: int| 0 <= i < lines.len() implies is_line(#[trigger] lines[i]) by {
        lemma_trajectory_is_lines(bounds, frames, i);
    }
    law_lines_are_read_back(lines);
    lemma_lines_from(bounds, frames, 0);
    lemma_frames_from(bounds, frames, 0);
    let none = trajectory_lines(bounds, frames.take(0));
    assert(none =~= Seq::<Text>::empty());
    assert(none + lines_from(bounds, frames, 0) =~= lines_from(bounds, frames, 0));
    assert(Seq::new(
        (frames.len() - 0) as nat,
        |i: int| mock_frame((0 + i) as nat, bounds, frames[0 + i]),
    ) =~= Seq::new(frames.len(), |i: int| mock_frame(i as nat, bounds, frames[i])));
}

} // verus!
