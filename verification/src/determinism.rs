//! Evaluations of the same trajectory come to the same.
use crate::binary64::{Binary64, Quantity};
use crate::disagreement::{
    MockDisagreementResult, MockEvaluation, MockLayout, are_measured, evaluates, frames_of,
    has_numbers_of, is_evaluation, is_measured, marked, named_species, run_dir_of, scores_of,
    scores_text, selected_places, species_used,
};
use crate::paths::below;
use crate::report::{FrameMeasure, MeasuredFrame, score_lines, xyz_frame, xyz_lines, xyz_text};
use crate::selection::{DisagreementSettings, FrameScore, candidates, chosen_by, falling, ranked};
use crate::structure::{DumpAtom, DumpFrame, FrameModel, Triple};
use crate::text::{Text, views};
use vstd::prelude::*;

verus! {

/// Whether two quantities have the same value and are written in the same way.
pub open spec fn same_quantity(a: Quantity, b: Quantity) -> bool {
    a.value == b.value && a.text@ == b.text@
}

/// Whether the same was computed for two frames.
pub open spec fn same_measure(a: FrameMeasure, b: FrameMeasure) -> bool {
    &&& same_quantity(a.rms_abs_forces, b.rms_abs_forces)
    &&& same_quantity(a.rrmse_forces, b.rrmse_forces)
    &&& a.lattice@ == b.lattice@
}

/// Whether `measure` and `place` compute the same for frames and atoms that are the same.
pub open spec fn are_functions<
    M: Fn(&DumpFrame, usize, &str, usize) -> FrameMeasure,
    P: Fn(&DumpFrame, &DumpAtom) -> Triple<String>,
>(measure: M, place: P, backend: &str, members: usize) -> bool {
    &&& forall|f: DumpFrame, g: DumpFrame, i: usize, a: FrameMeasure, b: FrameMeasure|
        f@ == g@ && #[trigger] call_ensures(measure, (&f, i, backend, members), a)
            && #[trigger] call_ensures(measure, (&g, i, backend, members), b) ==> same_measure(a, b)
    &&& forall|
        f: DumpFrame,
        g: DumpFrame,
        a: DumpAtom,
        b: DumpAtom,
        p: Triple<String>,
        q: Triple<String>,
    |
        f@ == g@ && a@ == b@ && #[trigger] call_ensures(place, (&f, &a), p)
            && #[trigger] call_ensures(place, (&g, &b), q) ==> p@ == q@
}

/// Whether two frames are the same with what was computed for them.
spec fn alike(a: MeasuredFrame, b: MeasuredFrame) -> bool {
    &&& a.timestep == b.timestep
    &&& same_quantity(a.rms_abs_forces, b.rms_abs_forces)
    &&& same_quantity(a.rrmse_forces, b.rrmse_forces)
    &&& a.lattice@ == b.lattice@
    &&& views(a.atoms@) == views(b.atoms@)
}

/// Whether all of two lists of frames are the same.
spec fn all_alike(a: Seq<MeasuredFrame>, b: Seq<MeasuredFrame>) -> bool {
    a.len() == b.len() && forall|i: int| 0 <= i < a.len() ==> alike(#[trigger] a[i], b[i])
}

/// What is computed twice for a frame is the same.
proof fn lemma_measured_alike<
    M: Fn(&DumpFrame, usize, &str, usize) -> FrameMeasure,
    P: Fn(&DumpFrame, &DumpAtom) -> Triple<String>,
>(
    measure: M,
    place: P,
    model: FrameModel,
    index: usize,
    backend: &str,
    members: usize,
    a: MeasuredFrame,
    b: MeasuredFrame,
)
    requires
        are_functions(measure, place, backend, members),
        is_measured(measure, place, model, index, backend, members, a),
        is_measured(measure, place, model, index, backend, members, b),
    ensures
        alike(a, b),
{
    let f = choose|f: DumpFrame|
        f@ == model && #[trigger] has_numbers_of(measure, place, f, index, backend, members, a);
    let g = choose|g: DumpFrame|
        g@ == model && #[trigger] has_numbers_of(measure, place, g, index, backend, members, b);
    let m = FrameMeasure {
        rms_abs_forces: a.rms_abs_forces,
        rrmse_forces: a.rrmse_forces,
        lattice: a.lattice,
    };
    let n = FrameMeasure {
        rms_abs_forces: b.rms_abs_forces,
        rrmse_forces: b.rrmse_forces,
        lattice: b.lattice,
    };
    assert(call_ensures(measure, (&f, index, backend, members), m));
    assert(call_ensures(measure, (&g, index, backend, members), n));
    assert(same_measure(m, n));
    assert forall|j: int| 0 <= j < model.atoms.len() implies #[trigger] views(a.atoms@)[j] == views(
        b.atoms@,
    )[j] by {
        let (p, q) = (a.atoms@[j].position, b.atoms@[j].position);
        assert(views(f.atoms@)[j] == views(g.atoms@)[j]);
        assert(f.atoms@[j]@ == g.atoms@[j]@);
        assert(call_ensures(place, (&f, &f.atoms@[j]), p));
        assert(call_ensures(place, (&g, &g.atoms@[j]), q));
        assert(p@ == q@);
    }
    assert(views(a.atoms@) =~= views(b.atoms@));
}

/// Which scores are in the window depends on their values alone.
proof fn lemma_candidates(a: Seq<FrameScore>, b: Seq<FrameScore>, lo: Binary64, hi: Binary64)
    requires
        a.len() == b.len(),
        forall|i: int|
            0 <= i < a.len() ==> (#[trigger] a[i]).rrmse_forces.value == b[i].rrmse_forces.value,
    ensures
        candidates(a, lo, hi) == candidates(b, lo, hi),
    decreases a.len(),
{
    if a.len() > 0 {
        assert(forall|i: int| 0 <= i < a.len() - 1 ==> #[trigger] a.drop_last()[i] == a[i]);
        lemma_candidates(a.drop_last(), b.drop_last(), lo, hi);
        assert(a[a.len() - 1].rrmse_forces.value == b[b.len() - 1].rrmse_forces.value);
    }
}

/// Which frames are selected depends on the values of their scores alone.
proof fn lemma_chosen(a: Seq<FrameScore>, b: Seq<FrameScore>, settings: DisagreementSettings)
    requires
        a.len() == b.len(),
        forall|i: int|
            0 <= i < a.len() ==> (#[trigger] a[i]).rrmse_forces.value == b[i].rrmse_forces.value,
    ensures
        chosen_by(a, settings) == chosen_by(b, settings),
{
    let (lo, hi) = (settings.min_rrmse.value, settings.max_rrmse.value);
    lemma_candidates(a, b, lo, hi);
    let places = candidates(a, lo, hi);
    crate::selection::lemma_candidates(a, lo, hi);
    assert forall|i: int| 0 <= i < places.len() implies #[trigger] falling(a, places)[i] == falling(
        b,
        places,
    )[i] by {
        assert(a[places[i]].rrmse_forces.value == b[places[i]].rrmse_forces.value);
    }
    assert(falling(a, places) =~= falling(b, places));
    assert(ranked(a, lo, hi) =~= ranked(b, lo, hi));
}

/// The structures of frames depend on the frames and what was computed for them alone.
proof fn lemma_structures(
    a: Seq<MeasuredFrame>,
    b: Seq<MeasuredFrame>,
    places: Seq<int>,
    species: Seq<Text>,
)
    requires
        all_alike(a, b),
    ensures
        xyz_lines(a, places, species) == xyz_lines(b, places, species),
    decreases places.len(),
{
    if places.len() > 0 {
        lemma_structures(a, b, places.drop_first(), species);
        let p = places[0];
        if 0 <= p < a.len() {
            assert(alike(a[p], b[p]));
            assert(views(a[p].atoms@).len() == a[p].atoms@.len());
            assert(views(b[p].atoms@).len() == b[p].atoms@.len());
            assert(xyz_frame(a[p], species) == xyz_frame(b[p], species));
        }
    }
}

/// What is written of an evaluation depends on the frames and what was computed for them alone.
proof fn lemma_reports(
    a: Seq<MeasuredFrame>,
    b: Seq<MeasuredFrame>,
    species: Seq<Text>,
    settings: DisagreementSettings,
)
    requires
        all_alike(a, b),
    ensures
        selected_places(a, settings) == selected_places(b, settings),
        scores_text(a, settings) == scores_text(b, settings),
        xyz_text(a, selected_places(a, settings), species) == xyz_text(
            b,
            selected_places(b, settings),
            species,
        ),
{
    let (s, t) = (scores_of(a), scores_of(b));
    assert forall|i: int| 0 <= i < s.len() implies (#[trigger] s[i]).rrmse_forces.value
        == t[i].rrmse_forces.value by {
        assert(alike(a[i], b[i]));
    }
    lemma_chosen(s, t, settings);
    let best = chosen_by(s, settings);
    let (u, v) = (marked(s, best), marked(t, best));
    assert forall|i: int| 0 <= i < score_lines(u).len() implies #[trigger] score_lines(u)[i]
        == score_lines(v)[i] by {
        if i > 0 {
            assert(alike(a[i - 1], b[i - 1]));
        }
    }
    assert(score_lines(u) =~= score_lines(v));
    lemma_structures(a, b, selected_places(a, settings), species);
}

/// Whether two evaluations come to the same.
pub open spec fn same_outcome(
    a: Result<MockDisagreementResult, String>,
    b: Result<MockDisagreementResult, String>,
) -> bool {
    match (a, b) {
        (Err(e), Err(f)) => e@ == f@,
        (Ok(r), Ok(s)) => {
            &&& r.selected_count == s.selected_count
            &&& r.scores_path@ == s.scores_path@
            &&& r.selected_path@ == s.selected_path@
        },
        _ => false,
    }
}

/// Two evaluations of the same frames with the same species write the same and come to the same.
pub proof fn lemma_evaluations_alike<
    M: Fn(&DumpFrame, usize, &str, usize) -> FrameMeasure,
    P: Fn(&DumpFrame, &DumpAtom) -> Triple<String>,
>(
    a: MockEvaluation,
    b: MockEvaluation,
    k: MockLayout,
    l: MockLayout,
    project_dir: Text,
    generation: u32,
    backend: &str,
    members: usize,
    settings: DisagreementSettings,
    frames: Seq<FrameModel>,
    input: Result<Text, Text>,
    other: Result<Text, Text>,
    measure: M,
    place: P,
)
    requires
        are_functions(measure, place, backend, members),
        k.is_for(project_dir, generation),
        l.is_for(project_dir, generation),
        input == other || input is Err && other is Err,
        evaluates(a, k, backend, members, settings, frames, input, measure, place),
        evaluates(b, l, backend, members, settings, frames, other, measure, place),
    ensures
        views(a.effects@) == views(b.effects@),
        same_outcome(a.outcome, b.outcome),
{
    let species = species_used(named_species(input, k.input@));
    assert(species == species_used(named_species(other, l.input@)));
    let m = choose|measured: Seq<MeasuredFrame>|
        {
            &&& are_measured(measure, place, frames, backend, members, measured)
            &&& #[trigger] a.is_of(k, measured, species, settings)
        };
    let n = choose|measured: Seq<MeasuredFrame>|
        {
            &&& are_measured(measure, place, frames, backend, members, measured)
            &&& #[trigger] b.is_of(l, measured, species, settings)
        };
    assert forall|i: int| 0 <= i < m.len() implies alike(#[trigger] m[i], n[i]) by {
        lemma_measured_alike(
            measure,
            place,
            frames[i],
            i as usize,
            backend,
            members,
            m[i],
            n[i],
        );
    }
    lemma_reports(m, n, species, settings);
}

/// Where the same is computed for frames that are the same, two mock evaluations of the same texts
/// say the same, write the same to the same files, and come to the same.
pub proof fn law_evaluation_is_deterministic<
    M: Fn(&DumpFrame, usize, &str, usize) -> FrameMeasure,
    P: Fn(&DumpFrame, &DumpAtom) -> Triple<String>,
>(
    first: Result<MockEvaluation, String>,
    second: Result<MockEvaluation, String>,
    project_dir: Text,
    generation: u32,
    backend: &str,
    committee_members: usize,
    settings: DisagreementSettings,
    trajectory: Result<Text, Text>,
    input: Result<Text, Text>,
    measure: M,
    place: P,
)
    requires
        are_functions(measure, place, backend, committee_members),
        is_evaluation(
            first,
            project_dir,
            generation,
            backend,
            committee_members,
            settings,
            trajectory,
            input,
            measure,
            place,
        ),
        is_evaluation(
            second,
            project_dir,
            generation,
            backend,
            committee_members,
            settings,
            trajectory,
            input,
            measure,
            place,
        ),
    ensures
        match (first, second) {
            (Err(e), Err(f)) => e@ == f@,
            (Ok(a), Ok(b)) => {
                &&& views(a.notices@) == views(b.notices@)
                &&& views(a.effects@) == views(b.effects@)
                &&& same_outcome(a.outcome, b.outcome)
            },
            _ => false,
        },
{
    if let (Ok(a), Ok(b)) = (first, second) {
        let run_dir = run_dir_of(project_dir, generation);
        let frames = frames_of(trajectory, below(run_dir, "traj.dump"@))->Ok_0;
        let k = choose|layout: MockLayout|
            layout.is_for(project_dir, generation) && #[trigger] evaluates(
                a,
                layout,
                backend,
                committee_members,
                settings,
                frames,
                input,
                measure,
                place,
            );
        let l = choose|layout: MockLayout|
            layout.is_for(project_dir, generation) && #[trigger] evaluates(
                b,
                layout,
                backend,
                committee_members,
                settings,
                frames,
                input,
                measure,
                place,
            );
        lemma_evaluations_alike(
            a,
            b,
            k,
            l,
            project_dir,
            generation,
            backend,
            committee_members,
            settings,
            frames,
            input,
            input,
            measure,
            place,
        );
    }
}

} // verus!
