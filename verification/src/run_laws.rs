//! What the jobs of a selection ask for, step by step.
use crate::disagreement::{MockEvaluation, MockLayout, evaluates, frames_of};
use crate::effects::Effect;
use crate::job_laws::{is_told, law_jobs_are_told_where_their_files_lie, resolves, work_dir};
use crate::job_run::{
    ScriptJob, ScriptProgress, ScriptReply, ScriptRequest, ScriptStage, is_next_for_script,
};
use crate::job_script::{JobLayout, JobScriptPlan, is_found_job};
use crate::mock_run::{MockJob, MockProgress, MockReply, MockRequest, MockStage, is_next};
use crate::number::decimal_of;
use crate::paths::{PathProbe, below};
use crate::report::FrameMeasure;
use crate::structure::{Bounds, BoxBounds, DumpAtom, DumpFrame, Triple};
use crate::text::{Text, result_view, views};
use vstd::prelude::*;

verus! {

/// Whether the making of a job script asks for a directory.
pub open spec fn asks_for_dir(r: ScriptProgress, dir: Text, failure: Text, next: int) -> bool {
    &&& r matches ScriptProgress::Ask { request, stage }
    &&& request matches ScriptRequest::Perform { effect }
    &&& effect@ == (Effect::CreateDir { path: dir, failure })
    &&& stage matches ScriptStage::Making { done }
    &&& done == next
}

/// The template of a job.
pub open spec fn template_of(job: ScriptJob) -> Text {
    below(below(job.setup_dir@, "jobscripts"@), job.backend@ + "_disagreement.sh.template"@)
}

/// The script of a job.
pub open spec fn script_of(job: ScriptJob) -> Text {
    below(
        work_dir(job.project_dir@, "disagreement"@, job.generation),
        "submit_disagreement.sh"@,
    )
}

/// The making of a job script begins with the directory of the results.
pub proof fn law_job_scripts_begin_with_the_directory_of_results(
    job: ScriptJob,
    layout: JobLayout,
    r: ScriptProgress,
)
    requires
        job.lies(layout),
        r.makes(layout, 0),
    ensures
        ({
            let dir = work_dir(job.project_dir@, "disagreement"@, job.generation);
            asks_for_dir(r, dir, "Failed to create disagreement directory "@ + dir + ": "@, 0)
        }),
{
}

/// After the directory of the results that of the selected structures is made; then the installation
/// is asked for, and which of the two places of the script that computes the disagreement and the
/// template are files; then the template is filled in; then the job script is made executable; and it
/// is where the results are. Where something cannot be done, the making ends, with what was tried and
/// why it failed.
pub proof fn law_job_scripts_are_made_step_by_step<L: Fn(&str) -> PathProbe>(
    job: ScriptJob,
    layout: JobLayout,
    stage: ScriptStage,
    reply: ScriptReply,
    look: L,
    r: ScriptProgress,
)
    requires
        job.lies(layout),
        stage.awaits(reply),
        is_next_for_script(job, layout, stage, reply, look, r),
    ensures
        match (stage, reply) {
            (ScriptStage::Making { done }, ScriptReply::Performed(Ok(_))) => if done == 0 {
                let dir = below(job.project_dir@, "selected_structures"@);
                asks_for_dir(
                    r,
                    dir,
                    "Failed to create selected structures directory "@ + dir + ": "@,
                    1,
                )
            } else {
                r matches ScriptProgress::Ask { request, stage: next } && request is Home
                    && next is Finding
            },
            (ScriptStage::Making { done }, ScriptReply::Performed(Err(e))) => if done == 0 {
                let dir = work_dir(job.project_dir@, "disagreement"@, job.generation);
                r.fails("Failed to create disagreement directory "@ + dir + ": "@ + e@)
            } else {
                let dir = below(job.project_dir@, "selected_structures"@);
                r.fails("Failed to create selected structures directory "@ + dir + ": "@ + e@)
            },
            (ScriptStage::Finding, ScriptReply::Home(Ok(home))) => {
                &&& r matches ScriptProgress::Ask { request, stage: next }
                &&& request matches ScriptRequest::Look { paths }
                &&& next matches ScriptStage::Looking { home: kept }
                &&& kept@ == home@
                &&& views(paths@).len() == 3
                &&& views(paths@).contains(
                    below(
                        below(below(below(job.project_dir@, "external"@), "alchemist"@), "python"@),
                        "committee_disagreement.py"@,
                    ),
                )
                &&& views(paths@).contains(template_of(job))
                &&& views(paths@).contains(
                    below(below(home@, "python"@), "committee_disagreement.py"@),
                )
            },
            (ScriptStage::Finding, ScriptReply::Home(Err(e))) => r.fails(e@),
            (ScriptStage::Rendering, ScriptReply::Performed(Ok(_))) => {
                &&& r matches ScriptProgress::Ask { request, stage: next }
                &&& request matches ScriptRequest::SetMode { permissions }
                &&& permissions.path@ == script_of(job)
                &&& permissions.mode == 0o755
                &&& next is Marking
            },
            (ScriptStage::Rendering, ScriptReply::Performed(Err(e))) => r.fails(
                "Failed to render disagreement job template "@ + template_of(job) + ": "@ + e@,
            ),
            (ScriptStage::Marking, ScriptReply::Performed(Ok(_))) => r
                matches ScriptProgress::Finished(script) && script@ == script_of(job),
            (ScriptStage::Marking, ScriptReply::Performed(Err(e))) => r.fails(
                "Failed to mark disagreement job script executable "@ + script_of(job) + ": "@ + e@,
            ),
            _ => true,
        },
{
    if let (ScriptStage::Finding, ScriptReply::Home(Ok(home))) = (stage, reply) {
        let paths = views(r->request->Look_paths@);
        assert(paths[0] == layout.project_script@ && paths[1] == layout.template@);
        assert(paths[2] == below(below(home@, "python"@), "committee_disagreement.py"@));
    }
}

/// What is filled in are the template and the values of the job.
pub proof fn law_job_scripts_are_filled_in<L: Fn(&str) -> PathProbe>(
    job: ScriptJob,
    layout: JobLayout,
    home: String,
    files: crate::effects::Files,
    look: L,
    absolute: spec_fn(Text) -> Text,
    r: ScriptProgress,
)
    requires
        job.lies(layout),
        resolves(look, absolute),
        is_next_for_script(
            job,
            layout,
            ScriptStage::Looking { home },
            ScriptReply::Files(files),
            look,
            r,
        ),
    ensures
        r matches ScriptProgress::Ask { request, stage } ==> {
            &&& stage is Rendering
            &&& request matches ScriptRequest::Render { template, script, variables }
            &&& template@ == template_of(job)
            &&& script@ == script_of(job)
            &&& files@.contains(template@)
            &&& is_told(views(variables@), "generation"@, decimal_of(job.generation as nat))
            &&& is_told(views(variables@), "project_dir"@, absolute(job.project_dir@))
            &&& is_told(
                views(variables@),
                "output_dir"@,
                absolute(work_dir(job.project_dir@, "disagreement"@, job.generation)),
            )
            &&& is_told(views(variables@), "min_rrmse"@, job.settings.min_rrmse.text@)
            &&& is_told(views(variables@), "max_rrmse"@, job.settings.max_rrmse.text@)
        },
        !(r is Finished),
{
    let plan = choose|plan: Result<JobScriptPlan, String>|
        {
            &&& #[trigger] is_found_job(
                plan,
                layout,
                job.generation,
                *job.settings,
                Ok(home),
                files@,
                look,
            )
            &&& r.renders(plan)
        };
    law_jobs_are_told_where_their_files_lie(
        plan,
        layout,
        job.project_dir@,
        job.setup_dir@,
        job.generation,
        job.backend@,
        *job.settings,
        Ok(home),
        files@,
        look,
        absolute,
    );
}

/// The directory of the simulation of a job.
pub open spec fn run_of(job: MockJob) -> Text {
    below(work_dir(job.project_dir@, "md_runs"@, job.generation), "run_000"@)
}

/// Whether an evaluation asks for something, and says nothing.
pub open spec fn asks_quietly(r: MockProgress, request: MockRequest<Text>) -> bool {
    r matches MockProgress::Ask { notices, request: asked, .. } && notices@.len() == 0 && asked@
        == request
}

/// A mock evaluation begins by looking for the trajectory of its generation, where the committee can
/// disagree.
pub proof fn law_evaluations_begin_with_the_trajectory(job: MockJob, r: MockProgress)
    requires
        job.starts(r),
    ensures
        job.committee_members < 2 ==> r.fails("Disagreement needs at least two committee members."@),
        job.committee_members >= 2 ==> asks_quietly(
            r,
            MockRequest::IsFile { path: below(run_of(job), "traj.dump"@) },
        ) && r->stage is Looking,
{
    if job.committee_members >= 2 {
        let layout = choose|layout: MockLayout|
            {
                &&& #[trigger] layout.is_for(job.project_dir@, job.generation)
                &&& r.asks(Seq::empty(), MockRequest::IsFile { path: layout.trajectory@ })
                &&& r->stage is Looking
            };
        assert(views(r->notices@).len() == r->notices@.len());
    }
}

/// A trajectory that is there is read; where there is none, the structure is read that it starts from,
/// and it is read once it was written. Then the input is read, and what was computed is performed, one
/// thing after the other, until all is done. Where something cannot be done, the evaluation ends, with
/// what was tried and why it failed.
pub proof fn law_evaluations_go_step_by_step<
    R: Fn(&BoxBounds) -> Bounds<String>,
    F: Fn(usize, &DumpAtom) -> Triple<String>,
    M: Fn(&DumpFrame, usize, &str, usize) -> FrameMeasure,
    P: Fn(&DumpFrame, &DumpAtom) -> Triple<String>,
>(
    job: MockJob,
    layout: MockLayout,
    stage: MockStage,
    reply: MockReply,
    render: R,
    displace: F,
    measure: M,
    place: P,
    r: MockProgress,
)
    requires
        layout.is_for(job.project_dir@, job.generation),
        stage.awaits(reply),
        is_next(job, layout, stage, reply, render, displace, measure, place, r),
    ensures
        ({
            let trajectory = below(run_of(job), "traj.dump"@);
            let data = below(run_of(job), "lmp.data"@);
            let input = below(run_of(job), "input.lmp"@);
            match (stage, reply) {
                (MockStage::Looking, MockReply::IsFile(found)) => if found {
                    asks_quietly(r, MockRequest::Read { path: trajectory })
                        && r->stage is ReadingTrajectory
                } else {
                    asks_quietly(r, MockRequest::Read { path: data }) && r->stage is ReadingData
                },
                (MockStage::ReadingData, MockReply::Text(_)) => {
                    &&& r matches MockProgress::Ask { request, stage: next, .. }
                    &&& request matches MockRequest::Perform { effect }
                    &&& effect@ matches Effect::Write { path, .. }
                    &&& path == trajectory
                    &&& next is WritingTrajectory
                },
                (MockStage::WritingTrajectory, MockReply::Performed(Ok(_))) => asks_quietly(
                    r,
                    MockRequest::Read { path: trajectory },
                ) && r->stage is ReadingTrajectory,
                (MockStage::WritingTrajectory, MockReply::Performed(Err(e))) => r.fails(
                    "Failed to write mock trajectory "@ + trajectory + ": "@ + e@,
                ),
                (MockStage::ReadingTrajectory, MockReply::Text(text)) => match frames_of(
                    result_view(text),
                    trajectory,
                ) {
                    Ok(frames) => {
                        &&& asks_quietly(r, MockRequest::Read { path: input })
                        &&& r->stage matches MockStage::ReadingInput { frames: read }
                        &&& views(read@) == frames
                    },
                    Err(e) => r.fails(e),
                },
                (MockStage::Performing { effects, done, outcome }, MockReply::Performed(Ok(_))) => {
                    if done + 1 < effects@.len() {
                        &&& asks_quietly(r, MockRequest::Perform { effect: effects@[done + 1]@ })
                        &&& r->stage matches MockStage::Performing {
                            effects: all,
                            done: next,
                            outcome: same,
                        }
                        &&& views(all@) == views(effects@)
                        &&& next == done + 1
                        &&& same == outcome
                    } else {
                        match outcome {
                            Ok(result) => r == MockProgress::Finished(result),
                            Err(e) => r == MockProgress::Failed(e),
                        }
                    }
                },
                (MockStage::Performing { effects, done, .. }, MockReply::Performed(Err(e))) => {
                    match effects@[done as int]@ {
                        Effect::CreateDir { failure, .. } => r.fails(failure + e@),
                        Effect::Write { failure, .. } => r.fails(failure + e@),
                        Effect::Copy { failure, .. } => r.fails(failure + e@),
                    }
                },
                _ => true,
            }
        }),
{
    if let MockProgress::Ask { notices, .. } = r {
        assert(views(notices@).len() == notices@.len());
    }
    if let MockStage::Performing { effects, done, .. } = stage {
        assert(views(effects@)[done as int] == effects@[done as int]@);
        if done + 1 < effects@.len() {
            assert(views(effects@)[done + 1] == effects@[done + 1]@);
        }
    }
}

/// What is performed after the input was read is what the evaluation of the frames says, for the
/// backend, the committee and the settings of the job.
pub proof fn law_evaluations_perform_what_they_computed<
    R: Fn(&BoxBounds) -> Bounds<String>,
    F: Fn(usize, &DumpAtom) -> Triple<String>,
    M: Fn(&DumpFrame, usize, &str, usize) -> FrameMeasure,
    P: Fn(&DumpFrame, &DumpAtom) -> Triple<String>,
>(
    job: MockJob,
    layout: MockLayout,
    frames: Vec<DumpFrame>,
    input: Result<String, String>,
    render: R,
    displace: F,
    measure: M,
    place: P,
    r: MockProgress,
)
    requires
        is_next(
            job,
            layout,
            MockStage::ReadingInput { frames },
            MockReply::Text(input),
            render,
            displace,
            measure,
            place,
            r,
        ),
    ensures
        exists|evaluation: MockEvaluation|
            {
                &&& #[trigger] evaluates(
                    evaluation,
                    layout,
                    job.backend,
                    job.committee_members,
                    *job.settings,
                    views(frames@),
                    result_view(input),
                    measure,
                    place,
                )
                &&& evaluation.effects@.len() > 0 ==> {
                    &&& r matches MockProgress::Ask { notices, request, stage }
                    &&& views(notices@) == views(evaluation.notices@)
                    &&& request@ == (MockRequest::Perform { effect: evaluation.effects@[0]@ })
                    &&& stage matches MockStage::Performing { effects, done, outcome }
                    &&& views(effects@) == views(evaluation.effects@)
                    &&& done == 0
                    &&& outcome == evaluation.outcome
                }
            },
{
    let evaluation = choose|evaluation: MockEvaluation|
        {
            &&& #[trigger] evaluates(
                evaluation,
                layout,
                job.backend,
                job.committee_members,
                *job.settings,
                views(frames@),
                result_view(input),
                measure,
                place,
            )
            &&& r.performs(
                views(evaluation.notices@),
                views(evaluation.effects@),
                0,
                evaluation.outcome,
            )
        };
    if evaluation.effects@.len() > 0 {
        assert(views(evaluation.effects@)[0] == evaluation.effects@[0]@);
    }
}

/// Whether a reply answers what the making of a job script asks for.
pub open spec fn answers_script(request: ScriptRequest, reply: ScriptReply) -> bool {
    match request {
        ScriptRequest::Perform { .. }
        | ScriptRequest::Render { .. }
        | ScriptRequest::SetMode { .. } => reply is Performed,
        ScriptRequest::Home => reply is Home,
        ScriptRequest::Look { .. } => reply is Files,
    }
}

/// The making of a job script waits for what it asked for.
pub proof fn law_job_scripts_wait_for_what_they_asked<L: Fn(&str) -> PathProbe>(
    job: ScriptJob,
    layout: JobLayout,
    stage: ScriptStage,
    reply: ScriptReply,
    look: L,
    r: ScriptProgress,
    later: ScriptReply,
)
    requires
        stage.awaits(reply),
        r.makes(layout, 0) || is_next_for_script(job, layout, stage, reply, look, r),
    ensures
        r matches ScriptProgress::Ask { request, stage: asked } ==> (asked.awaits(later)
            <==> answers_script(request, later)),
{
}

/// Whether a reply answers what an evaluation asks for.
pub open spec fn answers_mock(request: MockRequest<String>, reply: MockReply) -> bool {
    match request {
        MockRequest::IsFile { .. } => reply is IsFile,
        MockRequest::Read { .. } => reply is Text,
        MockRequest::Perform { .. } => reply is Performed,
    }
}

/// An evaluation waits for what it asked for.
pub proof fn law_evaluations_wait_for_what_they_asked<
    R: Fn(&BoxBounds) -> Bounds<String>,
    F: Fn(usize, &DumpAtom) -> Triple<String>,
    M: Fn(&DumpFrame, usize, &str, usize) -> FrameMeasure,
    P: Fn(&DumpFrame, &DumpAtom) -> Triple<String>,
>(
    job: MockJob,
    layout: MockLayout,
    stage: MockStage,
    reply: MockReply,
    render: R,
    displace: F,
    measure: M,
    place: P,
    r: MockProgress,
    later: MockReply,
)
    requires
        stage.awaits(reply),
        job.starts(r) || is_next(job, layout, stage, reply, render, displace, measure, place, r),
    ensures
        r matches MockProgress::Ask { request, stage: asked, .. } ==> (asked.awaits(later)
            <==> answers_mock(request, later)),
{
}

} // verus!
