//! Disagreement of a committee of models on the frames of a trajectory.
use crate::data::{Structure, known_structure, mock_source, source_notice, source_structure};
use crate::dump::{frames_in, read_lammps_dump};
use crate::effects::{Effect, failed_read, read_failure};
use crate::order::positions;
use crate::paths::{
    below, child, generation_dir, generation_part, selected_file, selected_structures,
};
use crate::report::{
    FrameMeasure, MeasuredAtom, MeasuredFrame, score_lines, write_scores, write_selected_xyz,
    xyz_text,
};
use crate::selection::{
    DisagreementSettings, FrameScore, chosen, chosen_by, frame_indices, law_selection_is_sound,
    select_frames,
};
use crate::species::{fallback_species, read_lammps_species, species_in, strings_view};
use crate::structure::{Atom, Bounds, BoxBounds, DumpAtom, DumpFrame, FrameModel, Triple};
use crate::text::{Text, lines_of, option_view, result_view, text2, text3, unlines, views};
use crate::trajectory::{MOCK_FRAMES, are_shaken, create_mock_trajectory, trajectory_lines};
use vstd::prelude::*;

verus! {

/// What a mock evaluation came to.
#[derive(Debug)]
pub struct MockDisagreementResult {
    /// How many frames were selected.
    pub selected_count: usize,
    /// Where the table of scores lies.
    pub scores_path: String,
    /// Where the selected structures lie.
    pub selected_path: String,
}

/// The files of a project that concern the disagreement of its committees.
#[derive(Debug)]
pub struct DisagreementWorkspace;

/// Where the files of a mock evaluation lie.
#[derive(Debug)]
pub struct MockLayout {
    /// The structure that the simulation started from.
    pub data: String,
    /// The trajectory of the simulation.
    pub trajectory: String,
    /// The input of the simulation.
    pub input: String,
    /// The directory of the results.
    pub disagreement_dir: String,
    /// The table of scores.
    pub scores: String,
    /// The selected structures, among the results.
    pub local_selected: String,
    /// The directory of selected structures.
    pub selected_dir: String,
    /// The selected structures, for the next step.
    pub selected: String,
}

/// The directory of the first simulation of a generation.
pub open spec fn run_dir_of(project_dir: Text, generation: u32) -> Text {
    below(generation_part(project_dir, "md_runs"@, generation), "run_000"@)
}

impl MockLayout {
    /// Whether the files lie where those of a generation of a project have to.
    pub open spec fn is_for(self, project_dir: Text, generation: u32) -> bool {
        let run_dir = run_dir_of(project_dir, generation);
        let results = generation_part(project_dir, "disagreement"@, generation);
        &&& self.data@ == below(run_dir, "lmp.data"@)
        &&& self.trajectory@ == below(run_dir, "traj.dump"@)
        &&& self.input@ == below(run_dir, "input.lmp"@)
        &&& self.disagreement_dir@ == results
        &&& self.scores@ == below(results, "scores.csv"@)
        &&& self.local_selected@ == below(results, "selected.xyz"@)
        &&& self.selected_dir@ == below(project_dir, "selected_structures"@)
        &&& self.selected@ == selected_file(project_dir, generation)
    }

    /// Where the files of a mock evaluation of a generation lie.
    pub fn new(project_dir: &str, generation: u32) -> (r: MockLayout)
        ensures
            r.is_for(project_dir@, generation),
    {
        let runs = generation_dir(project_dir, "md_runs", generation);
        let run_dir = child(runs.as_str(), "run_000");
        let results = generation_dir(project_dir, "disagreement", generation);
        MockLayout {
            data: child(run_dir.as_str(), "lmp.data"),
            trajectory: child(run_dir.as_str(), "traj.dump"),
            input: child(run_dir.as_str(), "input.lmp"),
            scores: child(results.as_str(), "scores.csv"),
            local_selected: child(results.as_str(), "selected.xyz"),
            disagreement_dir: results,
            selected_dir: child(project_dir, "selected_structures"),
            selected: selected_structures(project_dir, generation),
        }
    }
}

/// The scores of frames that none of has been selected yet.
pub open spec fn scores_of(measured: Seq<MeasuredFrame>) -> Seq<FrameScore> {
    Seq::new(
        measured.len(),
        |i: int|
            FrameScore {
                frame_index: i as usize,
                timestep: measured[i].timestep,
                rms_abs_forces: measured[i].rms_abs_forces,
                rrmse_forces: measured[i].rrmse_forces,
                selected: false,
            },
    )
}

/// The scores with those marked that are selected.
pub open spec fn marked(scores: Seq<FrameScore>, selected: Seq<int>) -> Seq<FrameScore> {
    scores.map_values(
        |s: FrameScore| FrameScore { selected: selected.contains(s.frame_index as int), ..s },
    )
}

/// The places below `n` that are among `selected`, rising.
pub open spec fn rising(selected: Seq<int>, n: nat) -> Seq<int>
    decreases n,
{
    if n == 0 {
        Seq::empty()
    } else {
        let fewer = rising(selected, (n - 1) as nat);
        if selected.contains(n - 1) {
            fewer.push(n - 1)
        } else {
            fewer
        }
    }
}

/// The frames that are selected, by rising place.
pub open spec fn selected_places(
    measured: Seq<MeasuredFrame>,
    settings: DisagreementSettings,
) -> Seq<int> {
    rising(chosen_by(scores_of(measured), settings), measured.len())
}

/// The table of scores of an evaluation.
pub open spec fn scores_text(measured: Seq<MeasuredFrame>, settings: DisagreementSettings) -> Text {
    let scores = scores_of(measured);
    unlines(score_lines(marked(scores, chosen_by(scores, settings))))
}

/// What is done for an evaluation before its structures are written.
pub open spec fn score_effects(layout: MockLayout, table: Text) -> Seq<Effect<Text>> {
    seq![
        Effect::CreateDir {
            path: layout.disagreement_dir@,
            failure: "Failed to create disagreement directory "@ + layout.disagreement_dir@ + ": "@,
        },
        Effect::Write {
            path: layout.scores@,
            text: table,
            failure: "Failed to write "@ + layout.scores@ + ": "@,
        },
    ]
}

/// What is done to write the structures of an evaluation.
pub open spec fn structure_effects(layout: MockLayout, structures: Text) -> Seq<Effect<Text>> {
    seq![
        Effect::Write {
            path: layout.local_selected@,
            text: structures,
            failure: "Failed to write "@ + layout.local_selected@ + ": "@,
        },
        Effect::CreateDir {
            path: layout.selected_dir@,
            failure: "Failed to create selected structures directory "@ + layout.selected_dir@
                + ": "@,
        },
        Effect::Copy {
            from: layout.local_selected@,
            to: layout.selected@,
            failure: "Failed to copy selected structures into "@ + layout.selected@ + ": "@,
        },
    ]
}

/// A mock evaluation: what is to be done for it, and what it comes to once that is done.
#[derive(Debug)]
pub struct MockEvaluation {
    /// What is said along the way.
    pub notices: Vec<String>,
    /// What is to be done, in order.
    pub effects: Vec<Effect<String>>,
    /// What it comes to.
    pub outcome: Result<MockDisagreementResult, String>,
}

impl MockEvaluation {
    /// Whether the evaluation is that of frames by the settings: the table of scores is written,
    /// with the selected frames marked; then their structures are, and copied to where the next
    /// step finds them. A selected atom without a species ends it after the table.
    pub open spec fn is_of(
        self,
        layout: MockLayout,
        measured: Seq<MeasuredFrame>,
        species: Seq<Text>,
        settings: DisagreementSettings,
    ) -> bool {
        let table = score_effects(layout, scores_text(measured, settings));
        match xyz_text(measured, selected_places(measured, settings), species) {
            Ok(structures) => {
                &&& views(self.effects@) == table + structure_effects(layout, structures)
                &&& self.outcome matches Ok(result)
                &&& result.selected_count == selected_places(measured, settings).len()
                &&& result.scores_path@ == layout.scores@
                &&& result.selected_path@ == layout.selected@
            },
            Err(e) => {
                &&& views(self.effects@) == table
                &&& self.outcome matches Err(error)
                &&& error@ == e
            },
        }
    }
}

/// A mock trajectory to be written.
#[derive(Debug)]
pub struct MockTrajectory {
    /// What is said where the structure that it starts from could not be read.
    pub notice: Option<String>,
    /// Writing the trajectory.
    pub effect: Effect<String>,
}

impl MockTrajectory {
    /// Whether the trajectory is that of a structure whose box is written as `bounds` and whose
    /// atoms are shaken into `frames`.
    pub open spec fn is_of<
        R: Fn(&BoxBounds) -> Bounds<String>,
        F: Fn(usize, &DumpAtom) -> Triple<String>,
    >(
        self,
        path: Text,
        structure: Structure,
        render: R,
        bounds: Bounds<String>,
        displace: F,
        frames: Seq<Seq<Atom<Text>>>,
    ) -> bool {
        &&& call_ensures(render, (&structure.bounds,), bounds)
        &&& frames.len() == MOCK_FRAMES
        &&& are_shaken(displace, structure.atoms@, frames)
        &&& self.effect@ == (Effect::Write {
            path,
            text: unlines(trajectory_lines(bounds@, frames)),
            failure: "Failed to write mock trajectory "@ + path + ": "@,
        })
    }
}

/// Whether a mock trajectory is one that starts from the structure of which `data` is the text, or
/// why it cannot be read.
pub open spec fn is_mock<
    R: Fn(&BoxBounds) -> Bounds<String>,
    F: Fn(usize, &DumpAtom) -> Triple<String>,
>(
    mock: MockTrajectory,
    layout: MockLayout,
    data: Result<Text, Text>,
    render: R,
    displace: F,
) -> bool {
    let known = known_structure(data, layout.data@);
    &&& option_view(mock.notice) == source_notice(known)
    &&& exists|structure: Structure, bounds: Bounds<String>, frames: Seq<Seq<Atom<Text>>>|
        structure@ == source_structure(known) && #[trigger] mock.is_of(
            layout.trajectory@,
            structure,
            render,
            bounds,
            displace,
            frames,
        )
}

/// What is said where the species could not be read.
pub open spec fn species_notice(error: Text) -> Text {
    " ⚠️  Could not read LAMMPS species for mock disagreement ("@ + error
        + "); using fallback species."@
}

/// The species that the input of a simulation names, or why they are not known. `input` is its
/// text, or why it cannot be read.
pub open spec fn named_species(input: Result<Text, Text>, path: Text) -> Result<Seq<Text>, Text> {
    match input {
        Ok(text) => species_in(text, path),
        Err(e) => Err(read_failure(path, e)),
    }
}

/// The species that an evaluation takes: those named, or else sulfur and copper.
pub open spec fn species_used(named: Result<Seq<Text>, Text>) -> Seq<Text> {
    match named {
        Ok(species) => species,
        Err(_) => seq!["S"@, "Cu"@],
    }
}

/// What is said of the species that an evaluation takes.
pub open spec fn species_notices(named: Result<Seq<Text>, Text>) -> Seq<Text> {
    match named {
        Ok(_) => Seq::empty(),
        Err(e) => seq![species_notice(e)],
    }
}

/// The frames of a trajectory, of which `trajectory` is the text, or why it cannot be read. A
/// trajectory without frames is an error.
pub open spec fn frames_of(trajectory: Result<Text, Text>, path: Text) -> Result<
    Seq<FrameModel>,
    Text,
> {
    match trajectory {
        Err(e) => Err(read_failure(path, e)),
        Ok(text) => match frames_in(lines_of(text)) {
            Err(e) => Err(e),
            Ok(frames) => if frames.len() == 0 {
                Err("No frames found in "@ + path)
            } else {
                Ok(frames)
            },
        },
    }
}

/// Whether the numbers of `measured` are what `measure` and `place` may give for a frame.
pub open spec fn has_numbers_of<
    M: Fn(&DumpFrame, usize, &str, usize) -> FrameMeasure,
    P: Fn(&DumpFrame, &DumpAtom) -> Triple<String>,
>(
    measure: M,
    place: P,
    frame: DumpFrame,
    index: usize,
    backend: &str,
    members: usize,
    measured: MeasuredFrame,
) -> bool {
    &&& measured.atoms@.len() == frame.atoms@.len()
    &&& call_ensures(
        measure,
        (&frame, index, backend, members),
        FrameMeasure {
            rms_abs_forces: measured.rms_abs_forces,
            rrmse_forces: measured.rrmse_forces,
            lattice: measured.lattice,
        },
    )
    &&& forall|j: int|
        0 <= j < frame.atoms@.len() ==> call_ensures(
            place,
            (&frame, &frame.atoms@[j]),
            (#[trigger] measured.atoms@[j]).position,
        )
}

/// Whether `measured` is the frame at a place with what `measure` and `place` may give for it: its
/// step, its atoms and their types are those of the frame.
pub open spec fn is_measured<
    M: Fn(&DumpFrame, usize, &str, usize) -> FrameMeasure,
    P: Fn(&DumpFrame, &DumpAtom) -> Triple<String>,
>(
    measure: M,
    place: P,
    model: FrameModel,
    index: usize,
    backend: &str,
    members: usize,
    measured: MeasuredFrame,
) -> bool {
    &&& measured.timestep == model.timestep
    &&& measured.atoms@.len() == model.atoms.len()
    &&& forall|j: int|
        0 <= j < model.atoms.len() ==> (#[trigger] measured.atoms@[j]).atom_type
            == model.atoms[j].atom_type
    &&& exists|frame: DumpFrame|
        frame@ == model && #[trigger] has_numbers_of(
            measure,
            place,
            frame,
            index,
            backend,
            members,
            measured,
        )
}

/// Whether `measured` are the frames with what `measure` and `place` may give for them.
pub open spec fn are_measured<
    M: Fn(&DumpFrame, usize, &str, usize) -> FrameMeasure,
    P: Fn(&DumpFrame, &DumpAtom) -> Triple<String>,
>(
    measure: M,
    place: P,
    frames: Seq<FrameModel>,
    backend: &str,
    members: usize,
    measured: Seq<MeasuredFrame>,
) -> bool {
    &&& measured.len() == frames.len()
    &&& forall|i: int|
        0 <= i < frames.len() ==> is_measured(
            measure,
            place,
            frames[i],
            i as usize,
            backend,
            members,
            #[trigger] measured[i],
        )
}

/// A frame with what is computed for it.
fn measure_frame<
    M: Fn(&DumpFrame, usize, &str, usize) -> FrameMeasure,
    P: Fn(&DumpFrame, &DumpAtom) -> Triple<String>,
>(
    frame: &DumpFrame,
    index: usize,
    backend: &str,
    members: usize,
    measure: &M,
    place: &P,
) -> (r: MeasuredFrame)
    requires
        call_requires(*measure, (frame, index, backend, members)),
        forall|atom: DumpAtom| #[trigger] call_requires(*place, (frame, &atom)),
    ensures
        is_measured(*measure, *place, frame@, index, backend, members, r),
{
    let mut atoms: Vec<MeasuredAtom<String>> = Vec::new();
    let mut j: usize = 0;
    while j < frame.atoms.len()
        invariant
            j <= frame.atoms@.len(),
            atoms@.len() == j,
            forall|atom: DumpAtom| #[trigger] call_requires(*place, (frame, &atom)),
            forall|k: int|
                0 <= k < j ==> (#[trigger] atoms@[k]).atom_type == frame.atoms@[k].atom_type
                    && call_ensures(*place, (frame, &frame.atoms@[k]), atoms@[k].position),
        decreases frame.atoms@.len() - j,
    {
        let atom = &frame.atoms[j];
        let position = place(frame, atom);
        atoms.push(MeasuredAtom { atom_type: atom.atom_type, position });
        j += 1;
    }
    let FrameMeasure { rms_abs_forces, rrmse_forces, lattice } = measure(
        frame,
        index,
        backend,
        members,
    );
    let measured = MeasuredFrame {
        timestep: frame.timestep,
        rms_abs_forces,
        rrmse_forces,
        lattice,
        atoms,
    };
    proof {
        assert forall|k: int| 0 <= k < frame@.atoms.len() implies (
        #[trigger] measured.atoms@[k]).atom_type == frame@.atoms[k].atom_type by {
            assert(frame@.atoms[k] == frame.atoms@[k]@);
        }
        assert(has_numbers_of(*measure, *place, *frame, index, backend, members, measured));
    }
    measured
}

/// Whether an evaluation is that of frames whose files lie where `layout` says: `input` is the text
/// of the input of their simulation, or why it cannot be read.
pub open spec fn evaluates<
    M: Fn(&DumpFrame, usize, &str, usize) -> FrameMeasure,
    P: Fn(&DumpFrame, &DumpAtom) -> Triple<String>,
>(
    evaluation: MockEvaluation,
    layout: MockLayout,
    backend: &str,
    committee_members: usize,
    settings: DisagreementSettings,
    frames: Seq<FrameModel>,
    input: Result<Text, Text>,
    measure: M,
    place: P,
) -> bool {
    let named = named_species(input, layout.input@);
    &&& views(evaluation.notices@) == species_notices(named)
    &&& exists|measured: Seq<MeasuredFrame>|
        {
            &&& are_measured(measure, place, frames, backend, committee_members, measured)
            &&& #[trigger] evaluation.is_of(layout, measured, species_used(named), settings)
        }
}

/// Whether `r` is what a mock evaluation of a generation may come to: `trajectory` and `input` are
/// the texts of the trajectory and of the input of its simulation, or why they cannot be read.
pub open spec fn is_evaluation<
    M: Fn(&DumpFrame, usize, &str, usize) -> FrameMeasure,
    P: Fn(&DumpFrame, &DumpAtom) -> Triple<String>,
>(
    r: Result<MockEvaluation, String>,
    project_dir: Text,
    generation: u32,
    backend: &str,
    committee_members: usize,
    settings: DisagreementSettings,
    trajectory: Result<Text, Text>,
    input: Result<Text, Text>,
    measure: M,
    place: P,
) -> bool {
    if committee_members < 2 {
        r matches Err(e) && e@ == "Disagreement needs at least two committee members."@
    } else {
        match frames_of(trajectory, below(run_dir_of(project_dir, generation), "traj.dump"@)) {
            Err(e) => r matches Err(error) && error@ == e,
            Ok(frames) => {
                &&& r matches Ok(evaluation)
                &&& exists|layout: MockLayout|
                    layout.is_for(project_dir, generation) && #[trigger] evaluates(
                        evaluation,
                        layout,
                        backend,
                        committee_members,
                        settings,
                        frames,
                        input,
                        measure,
                        place,
                    )
            },
        }
    }
}

/// A text with what is said before the reason where something fails.
fn failure(what: &str, path: &str) -> (r: String)
    ensures
        r@ == what@ + path@ + ": "@,
{
    text3(what, path, ": ")
}

/// The scores of frames, none of them selected.
fn score_frames(measured: &Vec<MeasuredFrame>) -> (r: Vec<FrameScore>)
    ensures
        r@ == scores_of(measured@),
{
    let mut scores: Vec<FrameScore> = Vec::new();
    let mut i: usize = 0;
    let ghost all = scores_of(measured@);
    assert(scores@ =~= all.take(0));
    while i < measured.len()
        invariant
            i <= measured@.len(),
            all == scores_of(measured@),
            scores@ == all.take(i as int),
        decreases measured@.len() - i,
    {
        scores.push(
            FrameScore {
                frame_index: i,
                timestep: measured[i].timestep,
                rms_abs_forces: measured[i].rms_abs_forces.clone(),
                rrmse_forces: measured[i].rrmse_forces.clone(),
                selected: false,
            },
        );
        assert(all.take(i + 1) =~= all.take(i as int).push(all[i as int]));
        i += 1;
    }
    assert(all.take(i as int) =~= all);
    scores
}

/// Whether a place is among those given.
fn is_among(selected: &Vec<usize>, place: usize) -> (r: bool)
    ensures
        r == positions(selected@).contains(place as int),
{
    let mut i: usize = 0;
    let ghost all = positions(selected@);
    while i < selected.len()
        invariant
            i <= selected@.len(),
            all == positions(selected@),
            forall|j: int| 0 <= j < i ==> all[j] != place,
        decreases selected@.len() - i,
    {
        if selected[i] == place {
            assert(all[i as int] == place);
            return true;
        }
        i += 1;
    }
    assert(!all.contains(place as int));
    false
}

/// Marks the scores that are selected, and lists them by rising place.
fn mark_selected(scores: Vec<FrameScore>, selected: &Vec<usize>) -> (r: (
    Vec<FrameScore>,
    Vec<usize>,
))
    requires
        forall|i: int| 0 <= i < scores@.len() ==> #[trigger] scores@[i].frame_index == i,
    ensures
        r.0@ == marked(scores@, positions(selected@)),
        positions(r.1@) == rising(positions(selected@), scores@.len()),
{
    let ghost all = scores@;
    let ghost picked = positions(selected@);
    let ghost goal = marked(all, picked);
    let mut rest = scores;
    let mut out: Vec<FrameScore> = Vec::new();
    let mut places: Vec<usize> = Vec::new();
    let mut i: usize = 0;
    assert(out@ =~= goal.take(0));
    assert(positions(places@) =~= rising(picked, 0));
    let count: usize = rest.len();
    while i < count
        invariant
            i <= count == all.len(),
            rest@ == all,
            picked == positions(selected@),
            goal == marked(all, picked),
            forall|k: int| 0 <= k < all.len() ==> #[trigger] all[k].frame_index == k,
            out@ == goal.take(i as int),
            positions(places@) == rising(picked, i as nat),
        decreases count - i,
    {
        let chosen = is_among(selected, rest[i].frame_index);
        let ghost before = places@;
        if chosen {
            places.push(i);
            assert(positions(places@) =~= positions(before).push(i as int));
        }
        out.push(
            FrameScore {
                frame_index: rest[i].frame_index,
                timestep: rest[i].timestep,
                rms_abs_forces: rest[i].rms_abs_forces.clone(),
                rrmse_forces: rest[i].rrmse_forces.clone(),
                selected: chosen,
            },
        );
        proof {
            assert(goal[i as int] == out@[i as int]);
            assert(goal.take(i + 1) =~= goal.take(i as int).push(goal[i as int]));
        }
        i += 1;
    }
    assert(goal.take(i as int) =~= goal);
    (out, places)
}

impl DisagreementWorkspace {
    /// Where the files of a mock evaluation of a generation lie. A committee of fewer than two
    /// members cannot disagree.
    pub fn mock_layout(project_dir: &str, generation: u32, committee_members: usize) -> (r: Result<
        MockLayout,
        String,
    >)
        ensures
            match r {
                Ok(layout) => committee_members >= 2 && layout.is_for(project_dir@, generation),
                Err(e) => committee_members < 2 && e@
                    == "Disagreement needs at least two committee members."@,
            },
    {
        if committee_members < 2 {
            return Err("Disagreement needs at least two committee members.".to_owned());
        }
        Ok(MockLayout::new(project_dir, generation))
    }

    /// The mock trajectory of a generation. `data` is the text of the structure that its simulation
    /// starts from, or why it cannot be read; `render` says how a box is written, and `displace` how
    /// the coordinates of an atom are in the frame at a place.
    pub fn mock_trajectory<
        R: Fn(&BoxBounds) -> Bounds<String>,
        F: Fn(usize, &DumpAtom) -> Triple<String>,
    >(
        layout: &MockLayout,
        data: &Result<String, String>,
        render: R,
        displace: F,
    ) -> (r: MockTrajectory)
        requires
            forall|bounds: BoxBounds| #[trigger] call_requires(render, (&bounds,)),
            forall|i: usize, atom: DumpAtom| #[trigger] call_requires(displace, (i, &atom)),
        ensures
            is_mock(r, *layout, result_view(*data), render, displace),
    {
        let source = mock_source(data, layout.data.as_str());
        let bounds = render(&source.structure.bounds);
        let text = create_mock_trajectory(&bounds, &source.structure.atoms, displace);
        let ghost written = text@;
        let effect = Effect::Write {
            path: layout.trajectory.clone(),
            text,
            failure: failure("Failed to write mock trajectory ", layout.trajectory.as_str()),
        };
        let mock = MockTrajectory { notice: source.notice, effect };
        proof {
            let frames = choose|frames: Seq<Seq<Atom<Text>>>|
                {
                    &&& frames.len() == MOCK_FRAMES
                    &&& #[trigger] are_shaken(displace, source.structure.atoms@, frames)
                    &&& written == unlines(trajectory_lines(bounds@, frames))
                };
            assert(mock.is_of(
                layout.trajectory@,
                source.structure,
                render,
                bounds,
                displace,
                frames,
            ));
        }
        mock
    }

    /// The evaluation of frames that have been measured.
    pub fn evaluate_measured(
        layout: &MockLayout,
        measured: &Vec<MeasuredFrame>,
        species: &Vec<String>,
        settings: &DisagreementSettings,
        notices: Vec<String>,
    ) -> (r: MockEvaluation)
        ensures
            r.is_of(*layout, measured@, views(species@), *settings),
            r.notices == notices,
    {
        let scores = score_frames(measured);
        let ghost all = scores_of(measured@);
        let ghost best = chosen_by(all, *settings);
        let selected = select_frames(&scores, settings);
        proof {
            law_selection_is_sound(
                all,
                settings.min_rrmse.value,
                settings.max_rrmse.value,
                settings.max_selected as nat,
            );
            assert(measured.len() == measured@.len());
            assert(frame_indices(all, best) =~= best);
        }
        let (scores, places) = mark_selected(scores, &selected);
        let table = write_scores(&scores);
        let mut effects: Vec<Effect<String>> = Vec::new();
        effects.push(
            Effect::CreateDir {
                path: layout.disagreement_dir.clone(),
                failure: failure(
                    "Failed to create disagreement directory ",
                    layout.disagreement_dir.as_str(),
                ),
            },
        );
        effects.push(
            Effect::Write {
                path: layout.scores.clone(),
                text: table,
                failure: failure("Failed to write ", layout.scores.as_str()),
            },
        );
        assert(views(effects@) =~= score_effects(*layout, scores_text(measured@, *settings)));
        let structures = match write_selected_xyz(measured, &places, species) {
            Ok(structures) => structures,
            Err(e) => {
                return MockEvaluation { notices, effects, outcome: Err(e) };
            },
        };
        let ghost text = structures@;
        effects.push(
            Effect::Write {
                path: layout.local_selected.clone(),
                text: structures,
                failure: failure("Failed to write ", layout.local_selected.as_str()),
            },
        );
        effects.push(
            Effect::CreateDir {
                path: layout.selected_dir.clone(),
                failure: failure(
                    "Failed to create selected structures directory ",
                    layout.selected_dir.as_str(),
                ),
            },
        );
        effects.push(
            Effect::Copy {
                from: layout.local_selected.clone(),
                to: layout.selected.clone(),
                failure: failure(
                    "Failed to copy selected structures into ",
                    layout.selected.as_str(),
                ),
            },
        );
        assert(views(effects@) =~= score_effects(*layout, scores_text(measured@, *settings))
            + structure_effects(*layout, text));
        assert(places@.len() == positions(places@).len());
        MockEvaluation {
            notices,
            effects,
            outcome: Ok(
                MockDisagreementResult {
                    selected_count: places.len(),
                    scores_path: layout.scores.clone(),
                    selected_path: layout.selected.clone(),
                },
            ),
        }
    }

    /// A mock evaluation of the trajectory of a generation. `trajectory` and `input` are the texts
    /// of the trajectory and of the input of its simulation, or why they cannot be read; `measure`
    /// computes, for a frame and its place, how far the committee of a backend disagrees on it, and
    /// `place` how the coordinates of an atom of a frame are written.
    pub fn evaluate_mock<
        M: Fn(&DumpFrame, usize, &str, usize) -> FrameMeasure,
        P: Fn(&DumpFrame, &DumpAtom) -> Triple<String>,
    >(
        project_dir: &str,
        generation: u32,
        backend: &str,
        committee_members: usize,
        settings: &DisagreementSettings,
        trajectory: &Result<String, String>,
        input: &Result<String, String>,
        measure: M,
        place: P,
    ) -> (r: Result<MockEvaluation, String>)
        requires
            forall|frame: DumpFrame, i: usize| #[trigger]
                call_requires(measure, (&frame, i, backend, committee_members)),
            forall|frame: DumpFrame, atom: DumpAtom| #[trigger]
                call_requires(place, (&frame, &atom)),
        ensures
            is_evaluation(
                r,
                project_dir@,
                generation,
                backend,
                committee_members,
                *settings,
                result_view(*trajectory),
                result_view(*input),
                measure,
                place,
            ),
    {
        let layout = match DisagreementWorkspace::mock_layout(
            project_dir,
            generation,
            committee_members,
        ) {
            Ok(layout) => layout,
            Err(e) => {
                return Err(e);
            },
        };
        let frames = match DisagreementWorkspace::read_frames(
            trajectory,
            layout.trajectory.as_str(),
        ) {
            Ok(frames) => frames,
            Err(e) => {
                return Err(e);
            },
        };
        let evaluation = DisagreementWorkspace::evaluate_frames(
            &layout,
            &frames,
            backend,
            committee_members,
            settings,
            input,
            measure,
            place,
        );
        Ok(evaluation)
    }

    /// The frames of a trajectory at a path, of which `trajectory` is the text, or why it cannot be
    /// read.
    pub fn read_frames(trajectory: &Result<String, String>, path: &str) -> (r: Result<
        Vec<DumpFrame>,
        String,
    >)
        ensures
            frames_of(result_view(*trajectory), path@) == match r {
                Ok(frames) => Ok::<Seq<FrameModel>, Text>(views(frames@)),
                Err(e) => Err(e@),
            },
    {
        let frames = match trajectory {
            Ok(text) => match read_lammps_dump(text.as_str()) {
                Ok(frames) => frames,
                Err(e) => {
                    return Err(e);
                },
            },
            Err(e) => {
                return Err(failed_read(path, e.as_str()));
            },
        };
        assert(views(frames@).len() == frames@.len());
        if frames.len() == 0 {
            return Err(text2("No frames found in ", path));
        }
        Ok(frames)
    }

    /// The evaluation of frames that have been read. `input` is the text of the input of their
    /// simulation, or why it cannot be read.
    pub fn evaluate_frames<
        M: Fn(&DumpFrame, usize, &str, usize) -> FrameMeasure,
        P: Fn(&DumpFrame, &DumpAtom) -> Triple<String>,
    >(
        layout: &MockLayout,
        frames: &Vec<DumpFrame>,
        backend: &str,
        committee_members: usize,
        settings: &DisagreementSettings,
        input: &Result<String, String>,
        measure: M,
        place: P,
    ) -> (r: MockEvaluation)
        requires
            forall|frame: DumpFrame, i: usize| #[trigger]
                call_requires(measure, (&frame, i, backend, committee_members)),
            forall|frame: DumpFrame, atom: DumpAtom| #[trigger]
                call_requires(place, (&frame, &atom)),
        ensures
            evaluates(
                r,
                *layout,
                backend,
                committee_members,
                *settings,
                views(frames@),
                result_view(*input),
                measure,
                place,
            ),
    {
        let named = match input {
            Ok(text) => read_lammps_species(text.as_str(), layout.input.as_str()),
            Err(e) => Err(failed_read(layout.input.as_str(), e.as_str())),
        };
        let ghost known = named_species(result_view(*input), layout.input@);
        assert(strings_view(named) == known);
        let mut notices: Vec<String> = Vec::new();
        assert(views(notices@) =~= Seq::<Text>::empty());
        let species = match named {
            Ok(species) => species,
            Err(e) => {
                let notice = text3(
                    " ⚠️  Could not read LAMMPS species for mock disagreement (",
                    e.as_str(),
                    "); using fallback species.",
                );
                notices.push(notice);
                assert(views(notices@) =~= seq![species_notice(e@)]);
                fallback_species()
            },
        };
        assert(views(species@) == species_used(known));
        assert(views(notices@) == species_notices(known));
        let mut measured: Vec<MeasuredFrame> = Vec::new();
        let mut i: usize = 0;
        while i < frames.len()
            invariant
                i <= frames@.len(),
                measured@.len() == i,
                forall|frame: DumpFrame, k: usize| #[trigger]
                    call_requires(measure, (&frame, k, backend, committee_members)),
                forall|frame: DumpFrame, atom: DumpAtom| #[trigger]
                    call_requires(place, (&frame, &atom)),
                forall|k: int|
                    0 <= k < i ==> is_measured(
                        measure,
                        place,
                        frames@[k]@,
                        k as usize,
                        backend,
                        committee_members,
                        #[trigger] measured@[k],
                    ),
            decreases frames@.len() - i,
        {
            measured.push(
                measure_frame(&frames[i], i, backend, committee_members, &measure, &place),
            );
            i += 1;
        }
        proof {
            assert forall|k: int| 0 <= k < frames@.len() implies is_measured(
                measure,
                place,
                views(frames@)[k],
                k as usize,
                backend,
                committee_members,
                #[trigger] measured@[k],
            ) by {
                assert(frames@[k]@ == views(frames@)[k]);
            }
            assert(are_measured(
                measure,
                place,
                views(frames@),
                backend,
                committee_members,
                measured@,
            ));
        }
        let evaluation = DisagreementWorkspace::evaluate_measured(
            layout,
            &measured,
            &species,
            settings,
            notices,
        );
        assert(evaluation.is_of(*layout, measured@, species_used(known), *settings));
        evaluation
    }
}

} // verus!
