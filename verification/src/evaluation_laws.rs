//! What an evaluation starts from, and what it measures.
use crate::data::{
    StructureModel, fallback_structure, known_structure, odd_literal, source_notice,
    source_structure, structure_in,
};
use crate::disagreement::{
    are_measured, frames_of, is_measured, named_species, species_notices, species_used,
};
use crate::dump::frames_in;
use crate::number::decimal_of;
use crate::report::{FrameMeasure, MeasuredFrame};
use crate::species::species_in;
use crate::structure::{DumpAtom, DumpFrame, FrameModel, Triple};
use crate::text::{Text, lines_of};
use vstd::prelude::*;

verus! {

/// Odd numbers are written with a point and a zero.
proof fn lemma_odd(n: nat)
    requires
        n < 4,
    ensures
        odd_literal(n as int) == decimal_of(2 * n + 1) + ".0"@,
{
    reveal_strlit(".0");
    reveal_strlit("1.0");
    reveal_strlit("3.0");
    reveal_strlit("5.0");
    reveal_strlit("7.0");
    let number = decimal_of(2 * n + 1);
    assert(number == seq![crate::number::digit_char(2 * n + 1)]);
    assert(odd_literal(n as int) =~= number + ".0"@);
}

/// The structure that stands in for a missing one is a square grid: sixteen atoms in a cube of edge
/// ten, in four rows of four, numbered from one. They stand two apart, from one on, in the middle of
/// the cube. Odd numbers are of the first type, and even ones of the second.
pub proof fn law_the_structure_that_stands_in(row: nat, column: nat)
    requires
        row < 4,
        column < 4,
    ensures
        ({
            let structure = fallback_structure();
            let b = structure.bounds;
            let k = 4 * row + column;
            let atom = structure.atoms[k as int];
            &&& structure.atoms.len() == 16
            &&& atom.id == k + 1
            &&& atom.atom_type == (if (k + 1) % 2 == 1 {
                1usize
            } else {
                2
            })
            &&& atom.position.x == decimal_of(2 * column + 1) + ".0"@
            &&& atom.position.y == decimal_of(2 * row + 1) + ".0"@
            &&& atom.position.z == "5.0"@
            &&& b.xlo_bound == "0.0"@ && b.ylo_bound == "0.0"@ && b.zlo_bound == "0.0"@
            &&& b.xhi_bound == "10.0"@ && b.yhi_bound == "10.0"@ && b.zhi_bound == "10.0"@
            &&& b.xy == "0.0"@ && b.xz == "0.0"@ && b.yz == "0.0"@
        }),
{
    let k = (4 * row + column) as int;
    assert(k % 4 == column);
    assert(k / 4 == row);
    lemma_odd(row);
    lemma_odd(column);
}

/// A mock trajectory starts from the structure of the data file, and nothing is said of it. Where that
/// cannot be read, it starts from the one that stands in, and the reason is told.
pub proof fn law_mock_trajectories_start_from_what_is_known(
    text: Text,
    path: Text,
    structure: StructureModel,
    error: Text,
)
    ensures
        structure_in(text, path) == Ok::<StructureModel, Text>(structure) ==> {
            let known = known_structure(Ok(text), path);
            source_structure(known) == structure && source_notice(known) is None
        },
        structure_in(text, path) == Err::<StructureModel, Text>(error) ==> {
            let known = known_structure(Ok(text), path);
            source_structure(known) == fallback_structure() && source_notice(known) == Some(
                " ⚠️  Could not read LAMMPS data for mock trajectory ("@ + error
                    + "); using fallback mock atoms."@,
            )
        },
        ({
            let known = known_structure(Err(error), path);
            source_structure(known) == fallback_structure() && source_notice(known) == Some(
                " ⚠️  Could not read LAMMPS data for mock trajectory ("@ + ("Failed to read "@ + path
                    + ": "@ + error) + "); using fallback mock atoms."@,
            )
        }),
{
}

/// The frames of a trajectory are all frames of its file. A file that cannot be read, or holds none, is
/// refused.
pub proof fn law_trajectories_hold_frames(text: Text, path: Text, error: Text)
    ensures
        frames_of(Err(error), path) == Err::<Seq<FrameModel>, Text>(
            "Failed to read "@ + path + ": "@ + error,
        ),
        match frames_in(lines_of(text)) {
            Err(e) => frames_of(Ok(text), path) == Err::<Seq<FrameModel>, Text>(e),
            Ok(frames) => {
                &&& frames.len() > 0 ==> frames_of(Ok(text), path) == Ok::<
                    Seq<FrameModel>,
                    Text,
                >(frames)
                &&& frames.len() == 0 ==> frames_of(Ok(text), path) == Err::<
                    Seq<FrameModel>,
                    Text,
                >("No frames found in "@ + path)
            },
        },
{
}

/// The species are those that the input names. Where it names none or cannot be read, sulfur and copper
/// stand in, and the reason is told.
pub proof fn law_species_stand_in(text: Text, path: Text, error: Text)
    ensures
        match species_in(text, path) {
            Ok(species) => {
                let named = named_species(Ok(text), path);
                species_used(named) == species && species_notices(named).len() == 0
            },
            Err(e) => {
                let named = named_species(Ok(text), path);
                species_used(named) == seq!["S"@, "Cu"@] && species_notices(named) == seq![
                    " ⚠️  Could not read LAMMPS species for mock disagreement ("@ + e
                        + "); using fallback species."@,
                ]
            },
        },
        ({
            let named = named_species(Err(error), path);
            species_used(named) == seq!["S"@, "Cu"@] && species_notices(named) == seq![
                " ⚠️  Could not read LAMMPS species for mock disagreement ("@ + ("Failed to read "@
                    + path + ": "@ + error) + "); using fallback species."@,
            ]
        }),
{
}

/// Each frame is measured once, at its place, for the committee of the step: its scores and its box are
/// what `measure` computes for it, and each of its atoms stands where `place` puts it and keeps its
/// type. Frames stay in their order and keep their steps.
pub proof fn law_each_frame_is_measured_at_its_place<
    M: Fn(&DumpFrame, usize, &str, usize) -> FrameMeasure,
    P: Fn(&DumpFrame, &DumpAtom) -> Triple<String>,
>(
    measure: M,
    place: P,
    frames: Seq<FrameModel>,
    backend: &str,
    members: usize,
    measured: Seq<MeasuredFrame>,
    i: int,
)
    requires
        are_measured(measure, place, frames, backend, members, measured),
        0 <= i < frames.len() <= usize::MAX,
    ensures
        measured.len() == frames.len(),
        measured[i].timestep == frames[i].timestep,
        measured[i].atoms@.len() == frames[i].atoms.len(),
        exists|frame: DumpFrame, measure_of: FrameMeasure|
            {
                &&& frame@ == frames[i]
                &&& #[trigger] call_ensures(measure, (&frame, i as usize, backend, members), measure_of)
                &&& measure_of.rms_abs_forces == measured[i].rms_abs_forces
                &&& measure_of.rrmse_forces == measured[i].rrmse_forces
                &&& measure_of.lattice == measured[i].lattice
                &&& forall|j: int|
                    0 <= j < frame.atoms@.len() ==> {
                        &&& call_ensures(
                            place,
                            (&frame, &frame.atoms@[j]),
                            (#[trigger] measured[i].atoms@[j]).position,
                        )
                        &&& measured[i].atoms@[j].atom_type == frame.atoms@[j].atom_type
                    }
            },
{
    assert(is_measured(measure, place, frames[i], i as usize, backend, members, measured[i]));
    let frame = choose|frame: DumpFrame|
        frame@ == frames[i] && #[trigger] crate::disagreement::has_numbers_of(
            measure,
            place,
            frame,
            i as usize,
            backend,
            members,
            measured[i],
        );
    let measure_of = FrameMeasure {
        rms_abs_forces: measured[i].rms_abs_forces,
        rrmse_forces: measured[i].rrmse_forces,
        lattice: measured[i].lattice,
    };
    assert(call_ensures(measure, (&frame, i as usize, backend, members), measure_of));
    assert forall|j: int| 0 <= j < frame.atoms@.len() implies {
        &&& call_ensures(
            place,
            (&frame, &frame.atoms@[j]),
            (#[trigger] measured[i].atoms@[j]).position,
        )
        &&& measured[i].atoms@[j].atom_type == frame.atoms@[j].atom_type
    } by {
        assert(frame@.atoms[j] == frame.atoms@[j]@);
    }
}

} // verus!
