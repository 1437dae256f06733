//! What holds of the preparation and completion of every step.
use crate::calls::{Call, Completion, Progress, Reply, Stage};
use crate::dataset::dry_dataset;
use crate::job::FinishedData;
use crate::paths::{below, generation_part};
use crate::pipeline::{DftStep, PipelineCtx, PipelineStep, config_name, limited};
use crate::text::{Text, option_view};
use vstd::prelude::*;

verus! {

/// How many replies the preparation of a step can still take at a stage.
pub open spec fn replies_left(stage: Stage<Text>) -> int {
    match stage {
        Stage::Dataset => 4,
        Stage::N2p2Workspace => 3,
        Stage::N2p2Scaling { .. } => 2,
        Stage::Counting { .. } => 2 * usize::MAX + 2,
        Stage::RunDirectory { count, index, .. } => 2 * (count - index) + 1,
        Stage::Outcar { count, index, .. } => 2 * (count - index),
        _ => 1,
    }
}

/// Whatever a step asked for: where that could not be done, the preparation ends with its error.
pub proof fn law_failure_ends_preparation(
    step: PipelineStep,
    ctx: PipelineCtx,
    stage: Stage<Text>,
    error: Text,
)
    ensures
        step.next(ctx, stage, Reply::Failed(error)) == Progress::Failed::<Text>(error),
{
}

/// A step comes only to stages that are its own, whatever it is told.
pub proof fn law_preparation_stays_on_course(
    step: PipelineStep,
    ctx: PipelineCtx,
    files: Set<Text>,
    stage: Stage<Text>,
    reply: Reply<Text>,
)
    requires
        step.reaches(stage),
        stage.awaits(reply),
    ensures
        step.first(ctx, files) matches Progress::Ask { stage: first, .. } ==> step.reaches(first),
        step.next(ctx, stage, reply) matches Progress::Ask { stage: next, .. } ==> step.reaches(
            next,
        ),
{
}

/// Preparation ends: each reply leaves fewer that can still be taken.
pub proof fn law_preparation_ends(
    step: PipelineStep,
    ctx: PipelineCtx,
    stage: Stage<Text>,
    reply: Reply<Text>,
)
    requires
        step.reaches(stage),
        stage.awaits(reply),
    ensures
        replies_left(stage) > 0,
        step.next(ctx, stage, reply) matches Progress::Ask { stage: next, .. } ==> 0 < replies_left(
            next,
        ) < replies_left(stage),
{
}

/// What the preparation of a step comes to when the next `n` things that it asks for are done.
pub open spec fn after_done(
    step: PipelineStep,
    ctx: PipelineCtx,
    progress: Progress<Text>,
    n: nat,
) -> Progress<Text>
    decreases n,
{
    if n == 0 {
        progress
    } else {
        match after_done(step, ctx, progress, (n - 1) as nat) {
            Progress::Ask { stage, .. } => step.next(ctx, stage, Reply::Done),
            other => other,
        }
    }
}

/// Reference calculations are prepared one by one, in the order of the structures: for each its
/// directory and then its result are asked for, and after all of them the job script.
pub proof fn law_calculations_are_prepared_in_order(
    step: DftStep,
    ctx: PipelineCtx,
    structures: Text,
    count: usize,
    index: usize,
)
    ensures
        ({
            let dft = PipelineStep::Dft(step);
            let generation_dir = generation_part(ctx.project_dir@, "vasp_runs"@, ctx.generation);
            let counted = dft.next(
                ctx,
                Stage::Counting { structures },
                Reply::Count(count),
            );
            let limit = limited(count, ctx.dry_config_limit);
            &&& index < limit ==> after_done(dft, ctx, counted, (2 * index) as nat)
                == (Progress::Ask {
                call: Call::RunDirectory {
                    run_name: config_name(index),
                    structures,
                    generation_dir,
                    setup_dir: step.ctx.setup_dir@,
                    index,
                },
                stage: Stage::RunDirectory { structures, count: limit, index },
            })
            &&& index < limit ==> after_done(dft, ctx, counted, (2 * index + 1) as nat)
                == (Progress::Ask {
                call: Call::MockOutcar {
                    run_dir: below(generation_dir, config_name(index)),
                    index,
                },
                stage: Stage::Outcar { structures, count: limit, index },
            })
            &&& index == limit ==> after_done(dft, ctx, counted, (2 * index) as nat)
                == (Progress::Ask {
                call: Call::ArrayScript {
                    setup_dir: step.ctx.setup_dir@,
                    generation_dir,
                    generation: ctx.generation,
                    count: limit,
                },
                stage: Stage::ArrayScript,
            })
        }),
    decreases index,
{
    let dft = PipelineStep::Dft(step);
    let counted = dft.next(ctx, Stage::Counting { structures }, Reply::Count(count));
    let limit = limited(count, ctx.dry_config_limit);
    if index > 0 && index <= limit {
        let before = (index - 1) as usize;
        law_calculations_are_prepared_in_order(step, ctx, structures, count, before);
        assert(after_done(dft, ctx, counted, (2 * index) as nat) == dft.next(
            ctx,
            Stage::Outcar { structures, count: limit, index: before },
            Reply::Done,
        ));
    }
    if index < limit {
        assert(after_done(dft, ctx, counted, (2 * index + 1) as nat) == dft.next(
            ctx,
            Stage::RunDirectory { structures, count: limit, index },
            Reply::Done,
        ));
    }
}

/// No more structures are prepared than there are, nor than a limit allows.
pub proof fn law_limit_holds(count: usize, limit: Option<usize>)
    ensures
        limited(count, limit) <= count,
        limit matches Some(most) ==> limited(count, limit) <= most,
        limited(count, limit) == count || limit == Some(limited(count, limit)),
{
}

/// In a dry run, a step that has what it needs can be prepared: it is not refused before it has
/// asked for anything, and a training step finds or makes its data and asks for its directories.
pub proof fn law_validated_steps_can_be_prepared(
    step: PipelineStep,
    ctx: PipelineCtx,
    files: Set<Text>,
    input: Result<Text, Text>,
)
    requires
        ctx.dry_run,
        step.validity(ctx, files, input) is Ok,
    ensures
        step.first(ctx, files) is Ask,
        step matches PipelineStep::Training(training) ==> {
            &&& dry_dataset(
                ctx.project_dir@,
                ctx.generation,
                training.model_backend,
                option_view(training.checkpoint),
                files,
            ) is Ok
            &&& step.next(ctx, Stage::Dataset, Reply::Done) is Ask
        },
{
}

/// A committee that disagrees by a stand-in completes without a job, and otherwise every prepared
/// step has a job script.
pub proof fn law_only_mock_disagreement_needs_no_job(
    step: PipelineStep,
    ctx: PipelineCtx,
    stage: Stage<Text>,
    reply: Reply<Text>,
)
    requires
        step.reaches(stage),
        stage.awaits(reply),
    ensures
        step.next(ctx, stage, reply) matches Progress::Ready(plan) ==> (plan is LocalComplete <==> (
        step matches PipelineStep::Qbc(qbc) && qbc.mode is Mock)),
{
}

/// A step whose job was not completed is not completed either, and nothing is asked for.
pub proof fn law_unfinished_jobs_fail_their_step(
    step: PipelineStep,
    ctx: PipelineCtx,
    job_state: FinishedData<Text>,
)
    ensures
        step.first_completion(ctx, job_state) is Failed <==> !(job_state.final_status is Completed),
{
}

/// After training, stand-ins for models are asked for, and for neural networks then their best
/// epochs; after every other step nothing.
pub proof fn law_completion(
    step: PipelineStep,
    ctx: PipelineCtx,
    job_state: FinishedData<Text>,
    error: Text,
)
    requires
        job_state.final_status is Completed,
    ensures
        match step.first_completion(ctx, job_state) {
            Completion::Done => !(step is Training),
            Completion::Failed(_) => false,
            Completion::Ask { stage, .. } => {
                let second = step.next_completion(ctx, stage, Ok(()));
                &&& step matches PipelineStep::Training(training)
                &&& training.model_backend is Upet ==> second is Done
                &&& training.model_backend is N2p2 ==> (second matches Completion::Ask {
                    call,
                    stage: last,
                } && call is N2p2BestEpoch && step.next_completion(ctx, last, Ok(())) is Done)
                &&& step.next_completion(ctx, stage, Err(error)) == Completion::Failed::<Text>(
                    error,
                )
            },
        },
{
}

} // verus!
