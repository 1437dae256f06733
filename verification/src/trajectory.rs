//! Mock trajectories: a structure that is shaken a little more in each frame.
use crate::number::{decimal, decimal_of};
use crate::structure::{Atom, Bounds, DumpAtom, Triple};
use crate::text::{Text, text5, unlines, views, write_line, write_lines};
use vstd::prelude::*;

verus! {

/// How many frames a mock trajectory has.
pub const MOCK_FRAMES: usize = 11;

/// How many steps lie between two frames of a mock trajectory.
pub const MOCK_STRIDE: usize = 100;

/// Three words with spaces between them.
pub open spec fn three_words(a: Text, b: Text, c: Text) -> Text {
    a + " "@ + b + " "@ + c
}

/// The row of an atom in an atom table.
pub open spec fn atom_row(atom: Atom<Text>) -> Text {
    decimal_of(atom.id as nat) + " "@ + decimal_of(atom.atom_type as nat) + " "@ + three_words(
        atom.position.x,
        atom.position.y,
        atom.position.z,
    )
}

/// The lines before the atom table of the frame at a place of a mock trajectory.
pub open spec fn frame_head(index: nat, bounds: Bounds<Text>, count: nat) -> Seq<Text> {
    seq![
        "ITEM: TIMESTEP"@,
        decimal_of(index * MOCK_STRIDE as nat),
        "ITEM: NUMBER OF ATOMS"@,
        decimal_of(count),
        "ITEM: BOX BOUNDS xy xz yz pp pp pp"@,
        three_words(bounds.xlo_bound, bounds.xhi_bound, bounds.xy),
        three_words(bounds.ylo_bound, bounds.yhi_bound, bounds.xz),
        three_words(bounds.zlo_bound, bounds.zhi_bound, bounds.yz),
        "ITEM: ATOMS id type x y z"@,
    ]
}

/// The lines of the frame at a place of a mock trajectory.
pub open spec fn frame_lines(index: nat, bounds: Bounds<Text>, atoms: Seq<Atom<Text>>) -> Seq<
    Text,
> {
    frame_head(index, bounds, atoms.len()) + atoms.map_values(|a: Atom<Text>| atom_row(a))
}

/// The lines of a mock trajectory.
pub open spec fn trajectory_lines(bounds: Bounds<Text>, frames: Seq<Seq<Atom<Text>>>) -> Seq<Text>
    decreases frames.len(),
{
    if frames.len() == 0 {
        Seq::empty()
    } else {
        trajectory_lines(bounds, frames.drop_last()) + frame_lines(
            (frames.len() - 1) as nat,
            bounds,
            frames.last(),
        )
    }
}

/// Whether `shaken` is what `displace` may give for the atoms in the frame at a place.
pub open spec fn is_shaken<F: Fn(usize, &DumpAtom) -> Triple<String>>(
    displace: F,
    index: usize,
    atoms: Seq<DumpAtom>,
    shaken: Seq<Atom<Text>>,
) -> bool {
    &&& shaken.len() == atoms.len()
    &&& forall|j: int|
        0 <= j < atoms.len() ==> {
            &&& (#[trigger] shaken[j]).id == atoms[j].id
            &&& shaken[j].atom_type == atoms[j].atom_type
            &&& exists|position: Triple<String>| #[trigger]
                call_ensures(displace, (index, &atoms[j]), position) && position@
                    == shaken[j].position
        }
}

/// Whether `frames` are what `displace` may give for the atoms in all frames.
pub open spec fn are_shaken<F: Fn(usize, &DumpAtom) -> Triple<String>>(
    displace: F,
    atoms: Seq<DumpAtom>,
    frames: Seq<Seq<Atom<Text>>>,
) -> bool {
    forall|i: int|
        0 <= i < frames.len() ==> is_shaken(displace, i as usize, atoms, #[trigger] frames[i])
}

/// Writes the row of an atom.
fn write_atom(text: &mut String, atom: &DumpAtom, position: &Triple<String>, Ghost(before): Ghost<
    Seq<Text>,
>)
    requires
        old(text)@ == unlines(before),
    ensures
        final(text)@ == unlines(
            before.push(
                atom_row(
                    Atom { id: atom.id, atom_type: atom.atom_type, position: position@ },
                ),
            ),
        ),
{
    let id = decimal(atom.id as u64);
    let atom_type = decimal(atom.atom_type as u64);
    let place = text5(
        position.x.as_str(),
        " ",
        position.y.as_str(),
        " ",
        position.z.as_str(),
    );
    let row = text5(id.as_str(), " ", atom_type.as_str(), " ", place.as_str());
    write_line(text, row.as_str(), Ghost(before));
}

/// Writes the lines before the atom table of a frame.
fn write_head(text: &mut String, index: usize, bounds: &Bounds<String>, count: usize, Ghost(
    before,
): Ghost<Seq<Text>>)
    requires
        old(text)@ == unlines(before),
        index < MOCK_FRAMES,
    ensures
        final(text)@ == unlines(before + frame_head(index as nat, bounds@, count as nat)),
{
    let timestep = decimal((index * MOCK_STRIDE) as u64);
    let atom_count = decimal(count as u64);
    let x = text5(bounds.xlo_bound.as_str(), " ", bounds.xhi_bound.as_str(), " ", bounds.xy.as_str());
    let y = text5(bounds.ylo_bound.as_str(), " ", bounds.yhi_bound.as_str(), " ", bounds.xz.as_str());
    let z = text5(bounds.zlo_bound.as_str(), " ", bounds.zhi_bound.as_str(), " ", bounds.yz.as_str());
    let mut head: Vec<String> = Vec::new();
    head.push("ITEM: TIMESTEP".to_owned());
    head.push(timestep);
    head.push("ITEM: NUMBER OF ATOMS".to_owned());
    head.push(atom_count);
    head.push("ITEM: BOX BOUNDS xy xz yz pp pp pp".to_owned());
    head.push(x);
    head.push(y);
    head.push(z);
    head.push("ITEM: ATOMS id type x y z".to_owned());
    assert(views(head@) =~= frame_head(index as nat, bounds@, count as nat));
    write_lines(text, &head, Ghost(before));
}

/// Writes a frame: the lines before its atom table, and the table.
fn write_frame<F: Fn(usize, &DumpAtom) -> Triple<String>>(
    text: &mut String,
    index: usize,
    bounds: &Bounds<String>,
    atoms: &Vec<DumpAtom>,
    displace: &F,
    Ghost(before): Ghost<Seq<Text>>,
) -> (shaken: Ghost<Seq<Atom<Text>>>)
    requires
        old(text)@ == unlines(before),
        index < MOCK_FRAMES,
        forall|i: usize, atom: DumpAtom| #[trigger] call_requires(*displace, (i, &atom)),
    ensures
        is_shaken(*displace, index, atoms@, shaken@),
        final(text)@ == unlines(before + frame_lines(index as nat, bounds@, shaken@)),
{
    let ghost head = frame_head(index as nat, bounds@, atoms@.len());
    write_head(text, index, bounds, atoms.len(), Ghost(before));
    let ghost mut shaken: Seq<Atom<Text>> = Seq::empty();
    let mut j: usize = 0;
    let ghost row = |a: Atom<Text>| atom_row(a);
    assert(before + head + shaken.map_values(row) =~= before + head);
    while j < atoms.len()
        invariant
            j <= atoms@.len(),
            shaken.len() == j,
            row == (|a: Atom<Text>| atom_row(a)),
            forall|i: usize, atom: DumpAtom| #[trigger] call_requires(*displace, (i, &atom)),
            text@ == unlines(before + head + shaken.map_values(row)),
            is_shaken(*displace, index, atoms@.take(j as int), shaken),
        decreases atoms@.len() - j,
    {
        let atom = &atoms[j];
        let position = displace(index, atom);
        let ghost next = Atom { id: atom.id, atom_type: atom.atom_type, position: position@ };
        write_atom(text, atom, &position, Ghost(before + head + shaken.map_values(row)));
        proof {
            assert(call_ensures(*displace, (index, &atoms@[j as int]), position));
            let longer = shaken.push(next);
            assert(before + head + longer.map_values(row) =~= (before + head + shaken.map_values(
                row,
            )).push(atom_row(next)));
            assert forall|k: int| 0 <= k < j + 1 implies {
                &&& (#[trigger] longer[k]).id == atoms@.take(j + 1)[k].id
                &&& longer[k].atom_type == atoms@.take(j + 1)[k].atom_type
                &&& exists|p: Triple<String>| #[trigger]
                    call_ensures(*displace, (index, &atoms@.take(j + 1)[k]), p) && p@
                        == longer[k].position
            } by {
                if k < j {
                    assert(longer[k] == shaken[k]);
                    assert(atoms@.take(j as int)[k] == atoms@.take(j + 1)[k]);
                } else {
                    assert(atoms@.take(j + 1)[k] == atoms@[j as int]);
                }
            }
            shaken = longer;
        }
        j += 1;
    }
    proof {
        assert(atoms@.take(j as int) =~= atoms@);
        assert(before + head + shaken.map_values(row) =~= before + frame_lines(
            index as nat,
            bounds@,
            shaken,
        ));
    }
    Ghost(shaken)
}

/// The text of a mock trajectory of a structure. `bounds` are the bounds of its box as they are
/// written, and `displace` says how the coordinates of an atom are written in the frame at a place.
pub fn create_mock_trajectory<F: Fn(usize, &DumpAtom) -> Triple<String>>(
    bounds: &Bounds<String>,
    atoms: &Vec<DumpAtom>,
    displace: F,
) -> (text: String)
    requires
        forall|i: usize, atom: DumpAtom| #[trigger] call_requires(displace, (i, &atom)),
    ensures
        exists|frames: Seq<Seq<Atom<Text>>>|
            {
                &&& frames.len() == MOCK_FRAMES
                &&& #[trigger] are_shaken(displace, atoms@, frames)
                &&& text@ == unlines(trajectory_lines(bounds@, frames))
            },
{
    let mut text = String::new();
    let ghost mut frames: Seq<Seq<Atom<Text>>> = Seq::empty();
    let mut index: usize = 0;
    while index < MOCK_FRAMES
        invariant
            index <= MOCK_FRAMES,
            frames.len() == index,
            forall|i: usize, atom: DumpAtom| #[trigger] call_requires(displace, (i, &atom)),
            are_shaken(displace, atoms@, frames),
            text@ == unlines(trajectory_lines(bounds@, frames)),
        decreases MOCK_FRAMES - index,
    {
        let Ghost(shaken) = write_frame(
            &mut text,
            index,
            bounds,
            atoms,
            &displace,
            Ghost(trajectory_lines(bounds@, frames)),
        );
        proof {
            let longer = frames.push(shaken);
            assert(longer.drop_last() =~= frames);
            assert forall|i: int| 0 <= i < longer.len() implies is_shaken(
                displace,
                i as usize,
                atoms@,
                #[trigger] longer[i],
            ) by {
                if i < frames.len() {
                    assert(longer[i] == frames[i]);
                }
            }
            frames = longer;
        }
        index += 1;
    }
    text
}

} // verus!
