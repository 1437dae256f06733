//! The tables and structures that a selection is reported in.
use crate::binary64::Quantity;
use crate::number::{decimal, decimal_of, signed_decimal, signed_decimal_of};
use crate::order::positions;
use crate::selection::FrameScore;
use crate::species::{species_for_type, strings_view, type_species};
use crate::structure::Triple;
use crate::text::{
    Text, after, lemma_after_empty, lemma_after_push, lemma_views_push, pad_left, pad_right,
    padded_left, padded_right, result_view, text3, text5, unlines, views, write_line, write_lines,
};
use vstd::prelude::*;

verus! {

/// An atom as it is written: its type, and its cartesian coordinates.
#[derive(Debug)]
pub struct MeasuredAtom<T> {
    /// The type.
    pub atom_type: usize,
    /// The coordinates.
    pub position: Triple<T>,
}

impl<T: View> View for MeasuredAtom<T> {
    type V = MeasuredAtom<T::V>;

    open spec fn view(&self) -> MeasuredAtom<T::V> {
        MeasuredAtom { atom_type: self.atom_type, position: self.position@ }
    }
}

/// A frame with what was computed for it: how far the committee disagrees on it, and its box and
/// atoms as they are written.
#[derive(Debug)]
pub struct MeasuredFrame {
    /// The step.
    pub timestep: i64,
    /// The deviation of the forces.
    pub rms_abs_forces: Quantity,
    /// The deviation of the forces, relative to their size.
    pub rrmse_forces: Quantity,
    /// The edges of the box.
    pub lattice: Triple<Triple<String>>,
    /// The atoms.
    pub atoms: Vec<MeasuredAtom<String>>,
}

/// What is computed for a frame: how far the committee disagrees on it, and its box as it is
/// written.
#[derive(Debug)]
pub struct FrameMeasure {
    /// The deviation of the forces.
    pub rms_abs_forces: Quantity,
    /// The deviation of the forces, relative to their size.
    pub rrmse_forces: Quantity,
    /// The edges of the box.
    pub lattice: Triple<Triple<String>>,
}

/// `true` or `false`.
pub open spec fn flag_of(flag: bool) -> Text {
    if flag {
        "true"@
    } else {
        "false"@
    }
}

/// The row of a frame in the table of scores.
pub open spec fn score_row(score: FrameScore) -> Text {
    decimal_of(score.frame_index as nat) + ","@ + signed_decimal_of(score.timestep as int) + ","@ + (
    score.rms_abs_forces.text@ + ","@ + score.rrmse_forces.text@ + ","@ + flag_of(score.selected))
}

/// The table of scores, by its lines.
pub open spec fn score_lines(scores: Seq<FrameScore>) -> Seq<Text> {
    seq!["frame_index,timestep,rms_abs_forces,rrmse_forces,selected"@] + scores.map_values(
        |s: FrameScore| score_row(s),
    )
}

/// The text of the table of scores.
pub fn write_scores(scores: &Vec<FrameScore>) -> (text: String)
    ensures
        text@ == unlines(score_lines(scores@)),
{
    let ghost all = score_lines(scores@);
    let mut text = String::new();
    write_line(
        &mut text,
        "frame_index,timestep,rms_abs_forces,rrmse_forces,selected",
        Ghost(Seq::<Text>::empty()),
    );
    assert(Seq::<Text>::empty().push(all[0]) =~= all.take(1));
    let mut i: usize = 0;
    while i < scores.len()
        invariant
            i <= scores@.len(),
            all == score_lines(scores@),
            text@ == unlines(all.take(i + 1)),
        decreases scores@.len() - i,
    {
        let score = &scores[i];
        let index = decimal(score.frame_index as u64);
        let timestep = signed_decimal(score.timestep);
        let flag = if score.selected {
            "true"
        } else {
            "false"
        };
        let values = text5(
            score.rms_abs_forces.text.as_str(),
            ",",
            score.rrmse_forces.text.as_str(),
            ",",
            flag,
        );
        let row = text5(index.as_str(), ",", timestep.as_str(), ",", values.as_str());
        assert(all[i + 1] == row@);
        assert(all.take(i + 2) =~= all.take(i + 1).push(all[i + 1]));
        write_line(&mut text, row.as_str(), Ghost(all.take(i + 1)));
        i += 1;
    }
    assert(all.take(i + 1) =~= all);
    text
}

/// Three words with spaces between them.
pub open spec fn spaced(v: Triple<Text>) -> Text {
    v.x + " "@ + v.y + " "@ + v.z
}

/// The line that describes a frame in an extended XYZ file.
pub open spec fn frame_comment(lattice: Triple<Triple<Text>>, timestep: i64) -> Text {
    "Lattice=\""@ + (spaced(lattice.x) + " "@ + spaced(lattice.y) + " "@ + spaced(lattice.z))
        + "\" Properties=species:S:1:pos:R:3 pbc=\"T T T\" timestep="@ + signed_decimal_of(
        timestep as int,
    )
}

/// The line of an atom in an extended XYZ file, in columns.
pub open spec fn atom_line(symbol: Text, position: Triple<Text>) -> Text {
    padded_right(symbol, 2, ' ') + " "@ + spaced(
        Triple {
            x: padded_left(position.x, 16, ' '),
            y: padded_left(position.y, 16, ' '),
            z: padded_left(position.z, 16, ' '),
        },
    )
}

/// The lines of atoms in an extended XYZ file; the first without a species decides the error.
pub open spec fn atom_lines(atoms: Seq<MeasuredAtom<Text>>, species: Seq<Text>) -> Result<
    Seq<Text>,
    Text,
>
    decreases atoms.len(),
{
    if atoms.len() == 0 {
        Ok(Seq::empty())
    } else {
        match type_species(atoms[0].atom_type as nat, species) {
            Err(e) => Err(e),
            Ok(symbol) => after(
                seq![atom_line(symbol, atoms[0].position)],
                atom_lines(atoms.drop_first(), species),
            ),
        }
    }
}

/// The lines of a frame in an extended XYZ file.
pub open spec fn xyz_frame(frame: MeasuredFrame, species: Seq<Text>) -> Result<Seq<Text>, Text> {
    after(
        seq![
            decimal_of(frame.atoms@.len()),
            frame_comment(frame.lattice@, frame.timestep),
        ],
        atom_lines(views(frame.atoms@), species),
    )
}

/// The lines of frames in an extended XYZ file, the frames at the places given, in that order.
pub open spec fn xyz_lines(
    frames: Seq<MeasuredFrame>,
    places: Seq<int>,
    species: Seq<Text>,
) -> Result<Seq<Text>, Text>
    decreases places.len(),
{
    if places.len() == 0 {
        Ok(Seq::empty())
    } else if !(0 <= places[0] < frames.len()) {
        Err("Selected frame index "@ + decimal_of(places[0] as nat) + " is out of bounds"@)
    } else {
        match xyz_frame(frames[places[0]], species) {
            Err(e) => Err(e),
            Ok(lines) => after(lines, xyz_lines(frames, places.drop_first(), species)),
        }
    }
}

/// The text of an extended XYZ file.
pub open spec fn xyz_text(
    frames: Seq<MeasuredFrame>,
    places: Seq<int>,
    species: Seq<Text>,
) -> Result<Text, Text> {
    match xyz_lines(frames, places, species) {
        Ok(lines) => Ok(unlines(lines)),
        Err(e) => Err(e),
    }
}

/// Three words with spaces between them.
fn space(x: &str, y: &str, z: &str) -> (r: String)
    ensures
        r@ == spaced(Triple { x: x@, y: y@, z: z@ }),
{
    text5(x, " ", y, " ", z)
}

/// The line that describes a frame.
fn comment(lattice: &Triple<Triple<String>>, timestep: i64) -> (r: String)
    ensures
        r@ == frame_comment(lattice@, timestep),
{
    let a = space(lattice.x.x.as_str(), lattice.x.y.as_str(), lattice.x.z.as_str());
    let b = space(lattice.y.x.as_str(), lattice.y.y.as_str(), lattice.y.z.as_str());
    let c = space(lattice.z.x.as_str(), lattice.z.y.as_str(), lattice.z.z.as_str());
    let edges = text5(a.as_str(), " ", b.as_str(), " ", c.as_str());
    let step = signed_decimal(timestep);
    text3(
        "Lattice=\"",
        edges.as_str(),
        "\" Properties=species:S:1:pos:R:3 pbc=\"T T T\" timestep=",
    ).concat(step.as_str())
}

/// The line of an atom.
fn write_atom(symbol: &str, position: &Triple<String>) -> (r: String)
    ensures
        r@ == atom_line(symbol@, position@),
{
    let x = pad_left(position.x.as_str(), 16, ' ');
    let y = pad_left(position.y.as_str(), 16, ' ');
    let z = pad_left(position.z.as_str(), 16, ' ');
    let place = space(x.as_str(), y.as_str(), z.as_str());
    let name = pad_right(symbol, 2, ' ');
    text3(name.as_str(), " ", place.as_str())
}

/// The lines of a frame.
fn write_frame(frame: &MeasuredFrame, species: &Vec<String>) -> (r: Result<Vec<String>, String>)
    ensures
        strings_view(r) == xyz_frame(*frame, views(species@)),
{
    let ghost atoms = views(frame.atoms@);
    let ghost known = views(species@);
    let ghost goal = xyz_frame(*frame, known);
    let mut out: Vec<String> = Vec::new();
    out.push(decimal(frame.atoms.len() as u64));
    out.push(comment(&frame.lattice, frame.timestep));
    proof {
        assert(views(out@) =~= seq![
            decimal_of(frame.atoms@.len()),
            frame_comment(frame.lattice@, frame.timestep),
        ]);
        assert(atoms.skip(0) =~= atoms);
    }
    let mut i: usize = 0;
    while i < frame.atoms.len()
        invariant
            i <= frame.atoms@.len(),
            atoms == views(frame.atoms@),
            known == views(species@),
            goal == xyz_frame(*frame, known),
            after(views(out@), atom_lines(atoms.skip(i as int), known)) == goal,
        decreases frame.atoms@.len() - i,
    {
        let atom = &frame.atoms[i];
        assert(atoms.skip(i as int)[0] == frame.atoms@[i as int]@);
        assert(atoms.skip(i as int).drop_first() =~= atoms.skip(i + 1));
        match species_for_type(atom.atom_type, species) {
            Ok(symbol) => {
                let line = write_atom(symbol, &atom.position);
                proof {
                    lemma_after_push(views(out@), line@, atom_lines(atoms.skip(i + 1), known));
                    lemma_views_push(out@, line);
                }
                out.push(line);
                i += 1;
            },
            Err(e) => {
                return Err(e);
            },
        }
    }
    assert(atoms.skip(i as int) =~= Seq::<MeasuredAtom<Text>>::empty());
    assert(views(out@) + Seq::<Text>::empty() =~= views(out@));
    Ok(out)
}

/// More lines in front of a result, in two steps or in one.
proof fn lemma_after_after(a: Seq<Text>, b: Seq<Text>, tail: Result<Seq<Text>, Text>)
    ensures
        after(a, after(b, tail)) == after(a + b, tail),
{
    if let Ok(t) = tail {
        assert(a + (b + t) =~= a + b + t);
    }
}

/// The text of the frames at the places given, as an extended XYZ file. `species` says what the
/// atom types are.
pub fn write_selected_xyz(
    frames: &Vec<MeasuredFrame>,
    selected: &Vec<usize>,
    species: &Vec<String>,
) -> (r: Result<String, String>)
    ensures
        result_view(r) == xyz_text(frames@, positions(selected@), views(species@)),
{
    let ghost places = positions(selected@);
    let ghost known = views(species@);
    let ghost goal = xyz_lines(frames@, places, known);
    let ghost mut done: Seq<Text> = Seq::empty();
    let mut text = String::new();
    let mut i: usize = 0;
    proof {
        assert(places.skip(0) =~= places);
        lemma_after_empty(goal);
    }
    while i < selected.len()
        invariant
            i <= selected@.len(),
            places == positions(selected@),
            known == views(species@),
            goal == xyz_lines(frames@, places, known),
            text@ == unlines(done),
            after(done, xyz_lines(frames@, places.skip(i as int), known)) == goal,
        decreases selected@.len() - i,
    {
        let place = selected[i];
        assert(places.skip(i as int)[0] == place);
        assert(places.skip(i as int).drop_first() =~= places.skip(i + 1));
        if place >= frames.len() {
            let number = decimal(place as u64);
            return Err(text3("Selected frame index ", number.as_str(), " is out of bounds"));
        }
        match write_frame(&frames[place], species) {
            Ok(lines) => {
                write_lines(&mut text, &lines, Ghost(done));
                proof {
                    lemma_after_after(
                        done,
                        views(lines@),
                        xyz_lines(frames@, places.skip(i + 1), known),
                    );
                    done = done + views(lines@);
                }
            },
            Err(e) => {
                return Err(e);
            },
        }
        i += 1;
    }
    assert(places.skip(i as int) =~= Seq::<int>::empty());
    assert(done + Seq::<Text>::empty() =~= done);
    Ok(text)
}

} // verus!
