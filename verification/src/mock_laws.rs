//! What holds of a mock evaluation from its start to its end.
use crate::consistency::{
    law_atoms_come_by_number, law_mock_trajectories_can_be_evaluated,
    law_mock_trajectories_keep_the_structure,
};
use crate::data::{Structure, known_structure, source_structure};
use crate::determinism::{are_functions, lemma_evaluations_alike, same_outcome};
use crate::disagreement::{
    MockDisagreementResult, MockEvaluation, MockLayout, MockTrajectory, are_measured, evaluates,
    frames_of, is_mock, named_species, run_dir_of, scores_text, selected_places, species_used,
};
use crate::dump::{by_id, ids_of};
use crate::effects::Effect;
use crate::literals::{law_fallback_holds_literals, law_structures_hold_literals};
use crate::mock_run::{MockJob, MockProgress, MockReply, MockRequest, is_next};
use crate::order::stable_order;
use crate::paths::{below, generation_name, generation_part};
use crate::report::{FrameMeasure, MeasuredFrame, xyz_text};
use crate::structure::{
    Atom, Bounds, BoxBounds, DumpAtom, DumpFrame, FrameModel, Triple, are_literals,
    atoms_are_literals, bounds_are_literals,
};
use crate::text::{Text, result_view, unlines, views};
use crate::trajectory::{is_shaken, trajectory_lines};
use crate::trajectory_reading::{is_readable, law_mock_trajectories_are_read_back};
use vstd::prelude::*;

verus! {

/// What files hold, by their paths.
pub type Disk = Map<Text, Text>;

/// What files hold after something was done to them.
pub open spec fn performed(disk: Disk, effect: Effect<Text>) -> Disk {
    match effect {
        Effect::CreateDir { .. } => disk,
        Effect::Write { path, text, .. } => disk.insert(path, text),
        Effect::Copy { from, to, .. } => disk.insert(to, disk[from]),
    }
}

/// What files hold after things were done to them, in order.
pub open spec fn all_performed(disk: Disk, effects: Seq<Effect<Text>>) -> Disk
    decreases effects.len(),
{
    if effects.len() == 0 {
        disk
    } else {
        all_performed(performed(disk, effects[0]), effects.drop_first())
    }
}

/// Whether `text` is what reading a file gives: what it holds, or why there is no such file.
pub open spec fn is_text_of(disk: Disk, path: Text, text: Result<Text, Text>) -> bool {
    if disk.contains_key(path) {
        text == Ok::<Text, Text>(disk[path])
    } else {
        text is Err
    }
}

/// Whether a reply is true of what files hold, where all can be done that is asked for.
pub open spec fn answers(disk: Disk, request: MockRequest<Text>, reply: MockReply) -> bool {
    match request {
        MockRequest::IsFile { path } => reply == MockReply::IsFile(disk.contains_key(path)),
        MockRequest::Read { path } => reply matches MockReply::Text(text) && is_text_of(
            disk,
            path,
            result_view(text),
        ),
        MockRequest::Perform { .. } => reply matches MockReply::Performed(done) && done is Ok,
    }
}

/// What files hold after a request.
pub open spec fn after_request(disk: Disk, request: MockRequest<Text>) -> Disk {
    match request {
        MockRequest::Perform { effect } => performed(disk, effect),
        _ => disk,
    }
}

/// How far a mock evaluation has come, and what files hold then.
pub ghost struct Moment {
    /// What files hold.
    pub disk: Disk,
    /// How far the evaluation has come.
    pub progress: MockProgress,
}

/// Whether an evaluation comes from one moment to the next, where all can be done that it asks for.
#[verifier::opaque]
pub open spec fn follows<
    R: Fn(&BoxBounds) -> Bounds<String>,
    F: Fn(usize, &DumpAtom) -> Triple<String>,
    M: Fn(&DumpFrame, usize, &str, usize) -> FrameMeasure,
    P: Fn(&DumpFrame, &DumpAtom) -> Triple<String>,
>(
    job: MockJob,
    render: R,
    displace: F,
    measure: M,
    place: P,
    now: Moment,
    next: Moment,
) -> bool {
    &&& now.progress matches MockProgress::Ask { request, stage, .. }
    &&& next.disk == after_request(now.disk, request@)
    &&& exists|reply: MockReply| #[trigger]
        answers(now.disk, request@, reply) && job.continues(
            stage,
            reply,
            render,
            displace,
            measure,
            place,
            next.progress,
        )
}

/// Whether the moments are those of an evaluation from its start to its end, where all can be done
/// that it asks for.
pub open spec fn is_run<
    R: Fn(&BoxBounds) -> Bounds<String>,
    F: Fn(usize, &DumpAtom) -> Triple<String>,
    M: Fn(&DumpFrame, usize, &str, usize) -> FrameMeasure,
    P: Fn(&DumpFrame, &DumpAtom) -> Triple<String>,
>(
    job: MockJob,
    render: R,
    displace: F,
    measure: M,
    place: P,
    moments: Seq<Moment>,
) -> bool {
    &&& moments.len() > 0
    &&& job.starts(moments[0].progress)
    &&& !(moments.last().progress is Ask)
    &&& forall|i: int|
        0 <= i < moments.len() - 1 ==> follows(
            job,
            render,
            displace,
            measure,
            place,
            #[trigger] moments[i],
            moments[i + 1],
        )
}

/// Whether an evaluation ends at a moment as `outcome` says.
pub open spec fn ends(
    progress: MockProgress,
    outcome: Result<MockDisagreementResult, String>,
) -> bool {
    match outcome {
        Ok(result) => progress == MockProgress::Finished(result),
        Err(e) => progress == MockProgress::Failed(e),
    }
}

/// Whether `end` is where an evaluation of a trajectory ends, of which files held the text before
/// its results were written.
pub open spec fn is_end<
    M: Fn(&DumpFrame, usize, &str, usize) -> FrameMeasure,
    P: Fn(&DumpFrame, &DumpAtom) -> Triple<String>,
>(job: MockJob, layout: MockLayout, measure: M, place: P, disk: Disk, end: Moment) -> bool {
    match frames_of(Ok(disk[layout.trajectory@]), layout.trajectory@) {
        Err(e) => end.progress.fails(e) && end.disk == disk,
        Ok(frames) => exists|evaluation: MockEvaluation, input: Result<Text, Text>|
            {
                &&& is_text_of(disk, layout.input@, input)
                &&& #[trigger] evaluates(
                    evaluation,
                    layout,
                    job.backend,
                    job.committee_members,
                    *job.settings,
                    frames,
                    input,
                    measure,
                    place,
                )
                &&& end.disk == all_performed(disk, views(evaluation.effects@))
                &&& ends(end.progress, evaluation.outcome)
            },
    }
}

/// Whether `written` is what files hold once there is a trajectory: what they held where there was
/// one, and else that with a mock trajectory of the structure that the simulation started from.
pub open spec fn has_trajectory<
    R: Fn(&BoxBounds) -> Bounds<String>,
    F: Fn(usize, &DumpAtom) -> Triple<String>,
>(layout: MockLayout, render: R, displace: F, disk: Disk, written: Disk) -> bool {
    if disk.contains_key(layout.trajectory@) {
        written == disk
    } else {
        exists|mock: MockTrajectory, data: Result<Text, Text>|
            {
                &&& is_text_of(disk, layout.data@, data)
                &&& #[trigger] is_mock(mock, layout, data, render, displace)
                &&& mock.effect@ matches Effect::Write { path, text, .. }
                &&& path == layout.trajectory@
                &&& written == disk.insert(path, text)
            }
    }
}

/// What is next to be done is done, and the evaluation goes on with what follows.
proof fn lemma_performed<
    R: Fn(&BoxBounds) -> Bounds<String>,
    F: Fn(usize, &DumpAtom) -> Triple<String>,
    M: Fn(&DumpFrame, usize, &str, usize) -> FrameMeasure,
    P: Fn(&DumpFrame, &DumpAtom) -> Triple<String>,
>(
    job: MockJob,
    render: R,
    displace: F,
    measure: M,
    place: P,
    now: Moment,
    next: Moment,
    notices: Seq<Text>,
    effects: Seq<Effect<Text>>,
    done: int,
    outcome: Result<MockDisagreementResult, String>,
)
    requires
        follows(job, render, displace, measure, place, now, next),
        0 <= done < effects.len(),
        now.progress.performs(notices, effects, done, outcome),
    ensures
        next.disk == performed(now.disk, effects[done]),
        next.progress.performs(Seq::empty(), effects, done + 1, outcome),
{
    reveal(follows);
    let request = MockRequest::Perform { effect: effects[done] };
    let stage = now.progress->stage;
    let reply = choose|reply: MockReply| #[trigger]
        answers(now.disk, request, reply) && job.continues(
            stage,
            reply,
            render,
            displace,
            measure,
            place,
            next.progress,
        );
    let layout = choose|layout: MockLayout| #[trigger]
        layout.is_for(job.project_dir@, job.generation) && is_next(
            job,
            layout,
            stage,
            reply,
            render,
            displace,
            measure,
            place,
            next.progress,
        );
    assert(is_next(job, layout, stage, reply, render, displace, measure, place, next.progress));
}

/// What is still to be done is done, and then the evaluation ends.
proof fn lemma_performing<
    R: Fn(&BoxBounds) -> Bounds<String>,
    F: Fn(usize, &DumpAtom) -> Triple<String>,
    M: Fn(&DumpFrame, usize, &str, usize) -> FrameMeasure,
    P: Fn(&DumpFrame, &DumpAtom) -> Triple<String>,
>(
    job: MockJob,
    render: R,
    displace: F,
    measure: M,
    place: P,
    moments: Seq<Moment>,
    at: int,
    notices: Seq<Text>,
    effects: Seq<Effect<Text>>,
    done: int,
    outcome: Result<MockDisagreementResult, String>,
)
    requires
        is_run(job, render, displace, measure, place, moments),
        0 <= at < moments.len(),
        0 <= done <= effects.len(),
        moments[at].progress.performs(notices, effects, done, outcome),
    ensures
        moments.last().disk == all_performed(moments[at].disk, effects.skip(done)),
        ends(moments.last().progress, outcome),
    decreases effects.len() - done,
{
    let now = moments[at];
    if done < effects.len() {
        assert(at < moments.len() - 1);
        let next = moments[at + 1];
        assert(follows(job, render, displace, measure, place, now, next));
        let rest = effects.skip(done);
        assert(rest.drop_first() =~= effects.skip(done + 1));
        assert(rest[0] == effects[done]);
        lemma_performed(
            job,
            render,
            displace,
            measure,
            place,
            now,
            next,
            notices,
            effects,
            done,
            outcome,
        );
        lemma_performing(
            job,
            render,
            displace,
            measure,
            place,
            moments,
            at + 1,
            Seq::empty(),
            effects,
            done + 1,
            outcome,
        );
    } else {
        assert(effects.skip(done) =~= Seq::empty());
        if at < moments.len() - 1 {
            reveal(follows);
            assert(follows(job, render, displace, measure, place, now, moments[at + 1]));
        }
    }
}

/// A trajectory that is read is evaluated.
proof fn lemma_reading<
    R: Fn(&BoxBounds) -> Bounds<String>,
    F: Fn(usize, &DumpAtom) -> Triple<String>,
    M: Fn(&DumpFrame, usize, &str, usize) -> FrameMeasure,
    P: Fn(&DumpFrame, &DumpAtom) -> Triple<String>,
>(
    job: MockJob,
    layout: MockLayout,
    render: R,
    displace: F,
    measure: M,
    place: P,
    moments: Seq<Moment>,
    at: int,
)
    requires
        is_run(job, render, displace, measure, place, moments),
        layout.is_for(job.project_dir@, job.generation),
        0 <= at < moments.len(),
        moments[at].progress.reads_trajectory(layout),
        moments[at].disk.contains_key(layout.trajectory@),
    ensures
        is_end(job, layout, measure, place, moments[at].disk, moments.last()),
{
    reveal(follows);
    let now = moments[at];
    assert(at < moments.len() - 1);
    let next = moments[at + 1];
    assert(follows(job, render, displace, measure, place, now, next));
    assert(next.disk == now.disk);
    match frames_of(Ok(now.disk[layout.trajectory@]), layout.trajectory@) {
        Err(e) => {
            assert(next.progress.fails(e));
            if at + 1 < moments.len() - 1 {
                assert(follows(job, render, displace, measure, place, next, moments[at + 2]));
            }
        },
        Ok(frames) => {
            assert(next.progress.asks(Seq::empty(), MockRequest::Read { path: layout.input@ }));
            assert(at + 1 < moments.len() - 1);
            let last = moments[at + 2];
            assert(follows(job, render, displace, measure, place, next, last));
            let stage = next.progress->stage;
            let reply = choose|reply: MockReply| #[trigger]
                answers(next.disk, MockRequest::Read { path: layout.input@ }, reply)
                    && job.continues(
                    stage,
                    reply,
                    render,
                    displace,
                    measure,
                    place,
                    last.progress,
                );
            let input = result_view(reply->Text_0);
            let other = choose|other: MockLayout| #[trigger]
                other.is_for(job.project_dir@, job.generation) && is_next(
                    job,
                    other,
                    stage,
                    reply,
                    render,
                    displace,
                    measure,
                    place,
                    last.progress,
                );
            let evaluation = choose|evaluation: MockEvaluation|
                {
                    &&& #[trigger] evaluates(
                        evaluation,
                        other,
                        job.backend,
                        job.committee_members,
                        *job.settings,
                        frames,
                        input,
                        measure,
                        place,
                    )
                    &&& last.progress.performs(
                        views(evaluation.notices@),
                        views(evaluation.effects@),
                        0,
                        evaluation.outcome,
                    )
                };
            lemma_same_layout(
                evaluation,
                other,
                layout,
                job,
                frames,
                input,
                measure,
                place,
            );
            let effects = views(evaluation.effects@);
            lemma_performing(
                job,
                render,
                displace,
                measure,
                place,
                moments,
                at + 2,
                views(evaluation.notices@),
                effects,
                0,
                evaluation.outcome,
            );
            assert(effects.skip(0) =~= effects);
            assert(last.disk == now.disk);
        },
    }
}

/// An evaluation depends on where its files lie, and not on how that is known.
proof fn lemma_same_layout<
    M: Fn(&DumpFrame, usize, &str, usize) -> FrameMeasure,
    P: Fn(&DumpFrame, &DumpAtom) -> Triple<String>,
>(
    evaluation: MockEvaluation,
    a: MockLayout,
    b: MockLayout,
    job: MockJob,
    frames: Seq<FrameModel>,
    input: Result<Text, Text>,
    measure: M,
    place: P,
)
    requires
        a.is_for(job.project_dir@, job.generation),
        b.is_for(job.project_dir@, job.generation),
        evaluates(
            evaluation,
            a,
            job.backend,
            job.committee_members,
            *job.settings,
            frames,
            input,
            measure,
            place,
        ),
    ensures
        evaluates(
            evaluation,
            b,
            job.backend,
            job.committee_members,
            *job.settings,
            frames,
            input,
            measure,
            place,
        ),
{
    let species = species_used(
        named_species(input, a.input@),
    );
    let measured = choose|measured: Seq<MeasuredFrame>|
        {
            &&& are_measured(
                measure,
                place,
                frames,
                job.backend,
                job.committee_members,
                measured,
            )
            &&& #[trigger] evaluation.is_of(a, measured, species, *job.settings)
        };
    assert(evaluation.is_of(b, measured, species, *job.settings));
}

/// A mock evaluation, where all can be done that it asks for, evaluates the trajectory that was
/// there; where there was none, it first writes a mock trajectory, and evaluates what it wrote.
pub proof fn law_mock_evaluations_read_what_is_there<
    R: Fn(&BoxBounds) -> Bounds<String>,
    F: Fn(usize, &DumpAtom) -> Triple<String>,
    M: Fn(&DumpFrame, usize, &str, usize) -> FrameMeasure,
    P: Fn(&DumpFrame, &DumpAtom) -> Triple<String>,
>(
    job: MockJob,
    layout: MockLayout,
    render: R,
    displace: F,
    measure: M,
    place: P,
    moments: Seq<Moment>,
)
    requires
        job.committee_members >= 2,
        layout.is_for(job.project_dir@, job.generation),
        is_run(job, render, displace, measure, place, moments),
    ensures
        exists|written: Disk|
            {
                &&& #[trigger] has_trajectory(layout, render, displace, moments[0].disk, written)
                &&& is_end(job, layout, measure, place, written, moments.last())
            },
{
    reveal(follows);
    let start = moments[0];
    assert(start.progress is Ask);
    let next = moments[1];
    assert(follows(job, render, displace, measure, place, start, next));
    assert(next.disk == start.disk);
    if start.disk.contains_key(layout.trajectory@) {
        assert(next.progress.reads_trajectory(layout));
        lemma_reading(job, layout, render, displace, measure, place, moments, 1);
        assert(has_trajectory(layout, render, displace, start.disk, start.disk));
    } else {
        assert(next.progress.asks(Seq::empty(), MockRequest::Read { path: layout.data@ }));
        assert(next.progress->stage is ReadingData);
        let asked = moments[2];
        assert(follows(job, render, displace, measure, place, next, asked));
        let reply = choose|reply: MockReply| #[trigger]
            answers(next.disk, MockRequest::Read { path: layout.data@ }, reply) && job.continues(
                next.progress->stage,
                reply,
                render,
                displace,
                measure,
                place,
                asked.progress,
            );
        let data = result_view(reply->Text_0);
        let other = choose|other: MockLayout| #[trigger]
            other.is_for(job.project_dir@, job.generation) && is_next(
                job,
                other,
                next.progress->stage,
                reply,
                render,
                displace,
                measure,
                place,
                asked.progress,
            );
        assert(asked.progress.writes_trajectory(other, data, render, displace));
        let mock = choose|mock: MockTrajectory| #[trigger]
            is_mock(mock, other, data, render, displace) && asked.progress->request@
                == (MockRequest::Perform { effect: mock.effect@ });
        assert(is_mock(mock, layout, data, render, displace));
        let written = performed(start.disk, mock.effect@);
        assert(asked.progress is Ask);
        let reading = moments[3];
        assert(follows(job, render, displace, measure, place, asked, reading));
        assert(reading.disk == written);
        assert(reading.progress.reads_trajectory(layout));
        assert(has_trajectory(layout, render, displace, start.disk, written));
        lemma_reading(job, layout, render, displace, measure, place, moments, 3);
    }
}

/// Whether a path is a file in both, with the same text, or in neither.
pub open spec fn same_at(a: Disk, b: Disk, path: Text) -> bool {
    a.contains_key(path) == b.contains_key(path) && a[path] == b[path]
}

/// Whether two evaluations end in the same way.
pub open spec fn same_end(a: MockProgress, b: MockProgress) -> bool {
    match (a, b) {
        (MockProgress::Finished(r), MockProgress::Finished(s)) => same_outcome(Ok(r), Ok(s)),
        (MockProgress::Failed(e), MockProgress::Failed(f)) => e@ == f@,
        _ => false,
    }
}

/// A part below a base ends as the part does.
proof fn lemma_last(base: Text, part: Text)
    requires
        part.len() > 0,
    ensures
        below(base, part).len() > 0,
        below(base, part).last() == part.last(),
{
}

/// The results of an evaluation lie apart from each other, but for the copy of the structures, and
/// from what it reads.
proof fn lemma_apart(layout: MockLayout, project_dir: Text, generation: u32)
    requires
        layout.is_for(project_dir, generation),
    ensures
        layout.trajectory@.last() == 'p',
        layout.input@.last() == 'p',
        layout.scores@.last() == 'v',
        layout.local_selected@.last() == 'z',
        layout.selected@.last() == 'z',
{
    reveal_strlit("traj.dump");
    reveal_strlit("input.lmp");
    reveal_strlit("scores.csv");
    reveal_strlit("selected.xyz");
    reveal_strlit(".xyz");
    let run_dir = run_dir_of(project_dir, generation);
    let results = generation_part(project_dir, "disagreement"@, generation);
    lemma_last(run_dir, "traj.dump"@);
    lemma_last(run_dir, "input.lmp"@);
    lemma_last(results, "scores.csv"@);
    lemma_last(results, "selected.xyz"@);
    lemma_last(
        below(project_dir, "selected_structures"@),
        generation_name(generation) + ".xyz"@,
    );
}

/// What files hold after the results of an evaluation were written: `table` is its table of scores,
/// and `structures` are its structures, where it has come to them.
spec fn with_results(
    disk: Disk,
    layout: MockLayout,
    table: Text,
    structures: Option<Text>,
) -> Disk {
    match structures {
        Some(text) => disk.insert(layout.scores@, table).insert(
            layout.local_selected@,
            text,
        ).insert(layout.selected@, text),
        None => disk.insert(layout.scores@, table),
    }
}

/// An evaluation writes a table of scores and, where it can be finished, structures.
proof fn lemma_results<
    M: Fn(&DumpFrame, usize, &str, usize) -> FrameMeasure,
    P: Fn(&DumpFrame, &DumpAtom) -> Triple<String>,
>(
    evaluation: MockEvaluation,
    layout: MockLayout,
    job: MockJob,
    frames: Seq<FrameModel>,
    input: Result<Text, Text>,
    measure: M,
    place: P,
) -> (results: (Text, Option<Text>))
    requires
        evaluates(
            evaluation,
            layout,
            job.backend,
            job.committee_members,
            *job.settings,
            frames,
            input,
            measure,
            place,
        ),
    ensures
        results.1 is Some <==> evaluation.outcome is Ok,
        forall|disk: Disk| #[trigger]
            all_performed(disk, views(evaluation.effects@)) == with_results(
                disk,
                layout,
                results.0,
                results.1,
            ),
{
    let species = species_used(named_species(input, layout.input@));
    let measured = choose|measured: Seq<MeasuredFrame>|
        {
            &&& are_measured(
                measure,
                place,
                frames,
                job.backend,
                job.committee_members,
                measured,
            )
            &&& #[trigger] evaluation.is_of(layout, measured, species, *job.settings)
        };
    let table = scores_text(measured, *job.settings);
    let structures = match xyz_text(
        measured,
        selected_places(measured, *job.settings),
        species,
    ) {
        Ok(text) => Some(text),
        Err(_) => None,
    };
    let effects = views(evaluation.effects@);
    assert forall|disk: Disk| #[trigger] all_performed(disk, effects) == with_results(
        disk,
        layout,
        table,
        structures,
    ) by {
        let e1 = effects.drop_first();
        let e2 = e1.drop_first();
        assert(e1[0] == effects[1]);
        reveal_with_fuel(all_performed, 3);
        if structures is Some {
            let e3 = e2.drop_first();
            let e4 = e3.drop_first();
            assert(e2[0] == effects[2] && e3[0] == effects[3] && e4[0] == effects[4]);
            assert(e4.drop_first() =~= Seq::empty());
            let d1 = disk.insert(layout.scores@, table);
            let d2 = d1.insert(layout.local_selected@, structures->0);
            assert(all_performed(disk, effects) == all_performed(d1, e2));
            assert(all_performed(d1, e2) == all_performed(d2, e4));
            assert(all_performed(d2, e4) == performed(d2, effects[4]));
        } else {
            assert(e2 =~= Seq::empty());
        }
    }
    (table, structures)
}

/// A mock evaluation is repeatable. Where the same is computed for frames that are the same, a second
/// evaluation ends as the first did, and writes the same table of scores and the same structures,
/// where the trajectory and the input that the first left are unchanged. Where nothing has changed
/// since the first, the second changes nothing.
pub proof fn law_mock_evaluations_are_repeatable<
    R: Fn(&BoxBounds) -> Bounds<String>,
    F: Fn(usize, &DumpAtom) -> Triple<String>,
    M: Fn(&DumpFrame, usize, &str, usize) -> FrameMeasure,
    P: Fn(&DumpFrame, &DumpAtom) -> Triple<String>,
>(
    job: MockJob,
    layout: MockLayout,
    render: R,
    displace: F,
    measure: M,
    place: P,
    first: Seq<Moment>,
    second: Seq<Moment>,
)
    requires
        job.committee_members >= 2,
        layout.is_for(job.project_dir@, job.generation),
        are_functions(measure, place, job.backend, job.committee_members),
        is_run(job, render, displace, measure, place, first),
        is_run(job, render, displace, measure, place, second),
        same_at(first.last().disk, second[0].disk, layout.trajectory@),
        same_at(first.last().disk, second[0].disk, layout.input@),
    ensures
        same_end(first.last().progress, second.last().progress),
        first.last().progress is Finished ==> {
            &&& second.last().disk.contains_key(layout.scores@)
            &&& second.last().disk.contains_key(layout.selected@)
            &&& same_at(first.last().disk, second.last().disk, layout.scores@)
            &&& same_at(first.last().disk, second.last().disk, layout.selected@)
        },
        second[0].disk == first.last().disk ==> second.last().disk == first.last().disk,
{
    law_mock_evaluations_read_what_is_there(
        job,
        layout,
        render,
        displace,
        measure,
        place,
        first,
    );
    law_mock_evaluations_read_what_is_there(
        job,
        layout,
        render,
        displace,
        measure,
        place,
        second,
    );
    lemma_apart(layout, job.project_dir@, job.generation);
    let (traj, inp) = (layout.trajectory@, layout.input@);
    let (a, b) = (first.last(), second.last());
    let read = choose|written: Disk|
        {
            &&& #[trigger] has_trajectory(layout, render, displace, first[0].disk, written)
            &&& is_end(job, layout, measure, place, written, a)
        };
    let again = choose|written: Disk|
        {
            &&& #[trigger] has_trajectory(layout, render, displace, second[0].disk, written)
            &&& is_end(job, layout, measure, place, written, b)
        };
    assert(read.contains_key(traj));
    if let Ok(frames) = frames_of(Ok(read[traj]), traj) {
        let (one, input) = choose|evaluation: MockEvaluation, input: Result<Text, Text>|
            {
                &&& is_text_of(read, inp, input)
                &&& #[trigger] evaluates(
                    evaluation,
                    layout,
                    job.backend,
                    job.committee_members,
                    *job.settings,
                    frames,
                    input,
                    measure,
                    place,
                )
                &&& a.disk == all_performed(read, views(evaluation.effects@))
                &&& ends(a.progress, evaluation.outcome)
            };
        let (table, structures) = lemma_results(one, layout, job, frames, input, measure, place);
        assert(a.disk == with_results(read, layout, table, structures));
        assert(same_at(read, a.disk, traj) && same_at(read, a.disk, inp));
        assert(again == second[0].disk);
        assert(again[traj] == read[traj]);
        let (two, other) = choose|evaluation: MockEvaluation, input: Result<Text, Text>|
            {
                &&& is_text_of(again, inp, input)
                &&& #[trigger] evaluates(
                    evaluation,
                    layout,
                    job.backend,
                    job.committee_members,
                    *job.settings,
                    frames,
                    input,
                    measure,
                    place,
                )
                &&& b.disk == all_performed(again, views(evaluation.effects@))
                &&& ends(b.progress, evaluation.outcome)
            };
        lemma_evaluations_alike(
            one,
            two,
            layout,
            layout,
            job.project_dir@,
            job.generation,
            job.backend,
            job.committee_members,
            *job.settings,
            frames,
            input,
            other,
            measure,
            place,
        );
        assert(b.disk == with_results(again, layout, table, structures));
        if second[0].disk == a.disk {
            assert(b.disk =~= a.disk);
        }
    } else {
        assert(a.disk == read);
        assert(again == second[0].disk);
        assert(again[traj] == read[traj]);
    }
}

/// Whether `render` and `displace` write numbers that are floating-point literals for numbers that
/// are.
pub open spec fn write_literals<
    R: Fn(&BoxBounds) -> Bounds<String>,
    F: Fn(usize, &DumpAtom) -> Triple<String>,
>(render: R, displace: F) -> bool {
    &&& forall|bounds: BoxBounds, written: Bounds<String>| #[trigger]
        call_ensures(render, (&bounds,), written) && bounds_are_literals(bounds@)
            ==> bounds_are_literals(written@)
    &&& forall|i: usize, atom: DumpAtom, written: Triple<String>| #[trigger]
        call_ensures(displace, (i, &atom), written) && are_literals(atom@.position)
            ==> are_literals(written@)
}

/// Whether a frame is that of a structure at a place of a mock trajectory: its step, the box as it
/// was written, and the atoms by rising number, with their types and where `displace` put them.
pub open spec fn is_frame_of<F: Fn(usize, &DumpAtom) -> Triple<String>>(
    frame: FrameModel,
    index: int,
    structure: Structure,
    bounds: Bounds<Text>,
    displace: F,
) -> bool {
    let sorted = by_id(structure@.atoms);
    let order = stable_order(ids_of(structure@.atoms));
    &&& frame.timestep == 100 * index
    &&& frame.bounds == bounds
    &&& frame.coordinates is Cartesian
    &&& frame.atoms.len() == structure@.atoms.len()
    &&& forall|k: int|
        0 <= k < frame.atoms.len() ==> {
            &&& (#[trigger] frame.atoms[k]).id == sorted[k].id
            &&& frame.atoms[k].atom_type == sorted[k].atom_type
            &&& exists|position: Triple<String>| #[trigger]
                call_ensures(
                    displace,
                    (index as usize, &structure.atoms@[order[k]]),
                    position,
                ) && position@ == frame.atoms[k].position
        }
}

/// The mock trajectory that is written where there is none is read back as the structure that it
/// starts from: that of the data file, or the one that stands in. It has eleven frames, a hundred
/// steps apart, and each holds the structure, with the atoms where `displace` put them.
pub proof fn law_mock_trajectories_start_from_the_structure<
    R: Fn(&BoxBounds) -> Bounds<String>,
    F: Fn(usize, &DumpAtom) -> Triple<String>,
>(
    mock: MockTrajectory,
    layout: MockLayout,
    data: Result<Text, Text>,
    render: R,
    displace: F,
)
    requires
        is_mock(mock, layout, data, render, displace),
        write_literals(render, displace),
    ensures
        mock.effect@ matches Effect::Write { path, text, .. } && path == layout.trajectory@ && {
            let read = frames_of(Ok(text), path);
            &&& read is Ok
            &&& read->Ok_0.len() == 11
            &&& exists|structure: Structure, bounds: Bounds<String>|
                {
                    &&& structure@ == source_structure(known_structure(data, layout.data@))
                    &&& #[trigger] call_ensures(render, (&structure.bounds,), bounds)
                    &&& forall|i: int|
                        0 <= i < 11 ==> is_frame_of(
                            #[trigger] read->Ok_0[i],
                            i,
                            structure,
                            bounds@,
                            displace,
                        )
                }
        },
{
    let known = known_structure(data, layout.data@);
    let (structure, bounds, frames) = choose|
        structure: Structure,
        bounds: Bounds<String>,
        frames: Seq<Seq<Atom<Text>>>,
    |
        structure@ == source_structure(known) && #[trigger] mock.is_of(
            layout.trajectory@,
            structure,
            render,
            bounds,
            displace,
            frames,
        );
    law_fallback_holds_literals();
    if let Ok(text) = data {
        law_structures_hold_literals(text, layout.data@);
    }
    let atoms = structure.atoms@;
    assert(structure.atoms.len() == atoms.len());
    assert(bounds_are_literals(structure.bounds@));
    assert forall|i: int| 0 <= i < frames.len() implies atoms_are_literals(#[trigger] frames[i])
        && frames[i].len() <= usize::MAX by {
        assert(is_shaken(displace, i as usize, atoms, frames[i]));
        assert forall|j: int| 0 <= j < frames[i].len() implies are_literals(
            #[trigger] frames[i][j].position,
        ) by {
            let shaken = frames[i][j];
            assert(shaken.id == atoms[j].id);
            assert(structure@.atoms[j] == atoms[j]@);
            assert(are_literals(structure@.atoms[j].position));
        }
    }
    assert(is_readable(bounds@, frames));
    let path = layout.trajectory@;
    let read = frames_of(Ok(unlines(trajectory_lines(bounds@, frames))), path);
    law_mock_trajectories_can_be_evaluated(bounds@, frames, path);
    law_mock_trajectories_are_read_back(bounds@, frames);
    assert forall|i: int| 0 <= i < 11 implies is_frame_of(
        #[trigger] read->Ok_0[i],
        i,
        structure,
        bounds@,
        displace,
    ) by {
        let frame = read->Ok_0[i];
        law_atoms_come_by_number(frames[i]);
        assert(frame.atoms == by_id(frames[i]));
        assert(is_shaken(displace, i as usize, atoms, frames[i]));
        assert forall|k: int| 0 <= k < frame.atoms.len() implies {
            &&& (#[trigger] frame.atoms[k]).id == by_id(structure@.atoms)[k].id
            &&& frame.atoms[k].atom_type == by_id(structure@.atoms)[k].atom_type
            &&& exists|position: Triple<String>| #[trigger]
                call_ensures(
                    displace,
                    (i as usize, &atoms[stable_order(ids_of(structure@.atoms))[k]]),
                    position,
                ) && position@ == frame.atoms[k].position
        } by {
            law_mock_trajectories_keep_the_structure(
                displace,
                atoms,
                bounds@,
                frames,
                path,
                i,
                k,
            );
        }
    }
}

} // verus!
