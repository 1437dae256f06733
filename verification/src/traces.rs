//! What holds of every run of a step, and of a pipeline.
use crate::job::StepPlan;
use crate::pipeline::{PipelineCtx, PipelineStep};
use crate::runner::{Action, Event, Phase, RunProgress, Runner, Turn, run_after};
use crate::text::Text;
use vstd::prelude::*;

verus! {

/// What a runner does with a step after a sequence of events.
pub open spec fn turn_after(
    runner: Runner,
    step: PipelineStep,
    ctx: PipelineCtx,
    events: Seq<Event<Text>>,
) -> Turn<Text>
    decreases events.len(),
{
    if events.len() == 0 {
        runner.first(step)
    } else {
        let before = turn_after(runner, step, ctx, events.drop_last());
        runner.next(step, ctx, before.phase, events.last())
    }
}

/// Whether each of a sequence of events is one that the runner waits for at its time.
pub open spec fn is_trace(
    runner: Runner,
    step: PipelineStep,
    ctx: PipelineCtx,
    events: Seq<Event<Text>>,
) -> bool
    decreases events.len(),
{
    events.len() == 0 || {
        &&& is_trace(runner, step, ctx, events.drop_last())
        &&& turn_after(runner, step, ctx, events.drop_last()).phase.awaits(events.last())
    }
}

/// How often a runner has submitted a job during a sequence of events, the turn after it included.
pub open spec fn submissions(
    runner: Runner,
    step: PipelineStep,
    ctx: PipelineCtx,
    events: Seq<Event<Text>>,
) -> nat
    decreases events.len(),
{
    let now: nat = match turn_after(runner, step, ctx, events).action {
        Action::Submit { .. } | Action::Resubmit => 1,
        _ => 0,
    };
    if events.len() == 0 {
        now
    } else {
        now + submissions(runner, step, ctx, events.drop_last())
    }
}

/// What the action of a turn is at each phase.
proof fn lemma_phases(
    runner: Runner,
    step: PipelineStep,
    ctx: PipelineCtx,
    events: Seq<Event<Text>>,
)
    requires
        is_trace(runner, step, ctx, events),
    ensures
        ({
            let turn = turn_after(runner, step, ctx, events);
            let n = submissions(runner, step, ctx, events);
            &&& match turn.phase {
                Phase::Validating => turn.action is Validate && n == 0 && runner is Dry,
                Phase::Preparing => turn.action is Prepare && n == 0,
                Phase::Submitting => turn.action is Submit && n == 1 && runner is Slurm,
                Phase::Waiting { retries } => turn.action is Wait && n == 1 + retries
                    && runner is Slurm && retries <= ctx.max_retries,
                Phase::Resubmitting { retries } => turn.action is Resubmit && n == 1 + retries
                    && runner is Slurm && 0 < retries <= ctx.max_retries,
                Phase::Completing => turn.action is Complete && n <= 1 + ctx.max_retries,
                Phase::Over => (turn.action is Finish || turn.action is Fail) && n <= 1
                    + ctx.max_retries,
            }
            &&& !(runner is Slurm) ==> n == 0
        }),
    decreases events.len(),
{
    if events.len() > 0 {
        lemma_phases(runner, step, ctx, events.drop_last());
    }
}

/// A job is submitted at most once, and then again at most as often as retries are allowed.
pub proof fn law_retries_are_bounded(
    runner: Runner,
    step: PipelineStep,
    ctx: PipelineCtx,
    events: Seq<Event<Text>>,
)
    requires
        is_trace(runner, step, ctx, events),
    ensures
        submissions(runner, step, ctx, events) <= 1 + ctx.max_retries,
{
    lemma_phases(runner, step, ctx, events);
}

/// A dry run and a local run submit no job, and wait for none.
pub proof fn law_only_slurm_submits(
    runner: Runner,
    step: PipelineStep,
    ctx: PipelineCtx,
    events: Seq<Event<Text>>,
)
    requires
        !(runner is Slurm),
        is_trace(runner, step, ctx, events),
    ensures
        submissions(runner, step, ctx, events) == 0,
        !(turn_after(runner, step, ctx, events).action is Wait),
{
    lemma_phases(runner, step, ctx, events);
}

/// Whatever could not be done: the step fails with its error.
pub proof fn law_failure_ends_step(
    runner: Runner,
    step: PipelineStep,
    ctx: PipelineCtx,
    phase: Phase,
    error: Text,
)
    ensures
        runner.next(step, ctx, phase, Event::Failed(error)).action == Action::Fail::<Text>(error),
        runner.next(step, ctx, phase, Event::Failed(error)).phase is Over,
{
}

/// A step is completed only after a job that was completed, or that did not have to run.
pub proof fn law_steps_complete_after_their_job(
    runner: Runner,
    step: PipelineStep,
    ctx: PipelineCtx,
    events: Seq<Event<Text>>,
)
    requires
        is_trace(runner, step, ctx, events),
    ensures
        turn_after(runner, step, ctx, events).action matches Action::Complete { ended }
            ==> ended.final_status is Completed,
        turn_after(runner, step, ctx, events).action is Finish ==> events.len() > 0 && turn_after(
            runner,
            step,
            ctx,
            events.drop_last(),
        ).action is Complete,
{
    lemma_phases(runner, step, ctx, events);
    if events.len() > 0 {
        lemma_phases(runner, step, ctx, events.drop_last());
    }
}

/// A dry run looks whether a step has what it needs before it prepares it.
pub proof fn law_dry_runs_validate_first(
    step: PipelineStep,
    ctx: PipelineCtx,
    events: Seq<Event<Text>>,
)
    requires
        is_trace(Runner::Dry, step, ctx, events),
        turn_after(Runner::Dry, step, ctx, events).action is Prepare,
    ensures
        events == seq![Event::<Text>::Validated],
{
    lemma_phases(Runner::Dry, step, ctx, events);
    if events.len() > 0 {
        lemma_phases(Runner::Dry, step, ctx, events.drop_last());
        if events.len() > 1 {
            let earlier = events.drop_last();
            lemma_phases(Runner::Dry, step, ctx, earlier.drop_last());
        }
    }
    assert(events =~= seq![Event::<Text>::Validated]);
}

/// Every runner completes a step that needs no job. A step that needs one is submitted to the
/// scheduler, refused where there is none, and counts as completed in a dry run.
pub proof fn law_runners_treat_jobs_their_way(
    runner: Runner,
    step: PipelineStep,
    ctx: PipelineCtx,
    script: Text,
)
    ensures
        runner.next(
            step,
            ctx,
            Phase::Preparing,
            Event::Prepared(StepPlan::LocalComplete),
        ).action is Complete,
        ({
            let action = runner.next(
                step,
                ctx,
                Phase::Preparing,
                Event::Prepared(StepPlan::Slurm { script }),
            ).action;
            match runner {
                Runner::Slurm => action == (Action::Submit { script }),
                Runner::Local => action is Fail,
                Runner::Dry => action matches Action::Complete { ended } && ended.jobscript
                    == script && ended.final_status is Completed,
            }
        }),
{
}

/// Every run of a step ends with its job, unless the job runs out of time: then it goes on exactly
/// while retries are left.
pub proof fn law_only_timeouts_are_retried(
    runner: Runner,
    step: PipelineStep,
    ctx: PipelineCtx,
    retries: u32,
    event: Event<Text>,
)
    requires
        event is Ended,
    ensures
        ({
            let status = event->Ended_0.final_status;
            let turn = runner.next(step, ctx, Phase::Waiting { retries }, event);
            &&& turn.action is Resubmit <==> status is Timeout && retries < ctx.max_retries
            &&& turn.action is Complete <==> status is Completed
            &&& turn.action is Fail <==> !(turn.action is Resubmit || turn.action is Complete)
        }),
{
}

/// What the run of `len` steps comes to when the first of them end in `outcomes`.
pub open spec fn run_with(len: nat, outcomes: Seq<Result<(), Text>>) -> RunProgress<Text> {
    if outcomes.len() == 0 {
        run_after(len, 0, Ok(()))
    } else {
        run_after(len, outcomes.len() as usize, outcomes.last())
    }
}

/// The steps of a pipeline are run in their order, each once, until one fails; its error is that of
/// the run. The run succeeds exactly where all steps do.
pub proof fn law_first_failure_ends_run(len: nat, outcomes: Seq<Result<(), Text>>)
    requires
        outcomes.len() <= len <= usize::MAX,
        forall|i: int| 0 <= i < outcomes.len() - 1 ==> outcomes[i] is Ok,
    ensures
        outcomes.len() > 0 && outcomes.last() is Err ==> run_with(len, outcomes)
            == RunProgress::Failed(outcomes.last()->Err_0),
        (outcomes.len() == 0 || outcomes.last() is Ok) && outcomes.len() < len ==> run_with(
            len,
            outcomes,
        ) == RunProgress::Step::<Text>(outcomes.len() as usize),
        run_with(len, outcomes) is Finished <==> outcomes.len() == len && forall|i: int|
            0 <= i < len ==> #[trigger] outcomes[i] is Ok,
{
    if outcomes.len() == len && len > 0 && outcomes.last() is Err {
        assert(outcomes[len - 1] is Err);
    }
}

} // verus!
