//! What a runner does and says, turn by turn.
use crate::backend::ModelBackend;
use crate::job::{FinalJobStatus, FinishedData, StepPlan, completed};
use crate::pipeline::{PipelineCtx, PipelineStep};
use crate::runner::{Action, Event, Phase, Runner, Turn};
use crate::text::Text;
use vstd::prelude::*;

verus! {

/// Steps are called by their program, their method or their kind of model.
pub proof fn law_steps_have_names(step: PipelineStep)
    ensures
        match step {
            PipelineStep::Training(training) => match training.model_backend {
                ModelBackend::Upet => step.title() == "UPET"@,
                ModelBackend::N2p2 => step.title() == "n2p2"@,
            },
            PipelineStep::Md(_) => step.title() == "lammps"@,
            PipelineStep::Qbc(_) => step.title()
                == "RRMSFD (relative root mean squared force deviation)"@,
            PipelineStep::Dft(_) => step.title() == "vasp"@,
        },
{
}

/// Whether a turn completes a step by a job that did not have to run.
pub open spec fn completes_at_once(turn: Turn<Text>, script: Text) -> bool {
    &&& turn.action matches Action::Complete { ended }
    &&& ended.jobscript == script
    &&& ended.job_id == "0"@
    &&& ended.start_time.len() == 0
    &&& ended.end_time.len() == 0
    &&& ended.runtime.len() == 0
    &&& ended.final_status is Completed
    &&& turn.phase is Completing
}

/// A step is prepared at once, but in a dry run it is announced and its files are looked at before.
pub proof fn law_runners_begin(runner: Runner, step: PipelineStep, ctx: PipelineCtx, phase: Phase)
    ensures
        ({
            let turn = runner.first(step);
            &&& runner is Dry ==> turn.action is Validate && turn.phase is Validating
                && turn.notice == Some("[DryRun] preparing "@ + step.title())
            &&& !(runner is Dry) ==> turn.action is Prepare && turn.phase is Preparing
                && turn.notice is None
        }),
        ({
            let turn = runner.next(step, ctx, phase, Event::Validated);
            &&& turn.action is Prepare
            &&& turn.phase is Preparing
            &&& turn.notice == Some("[DryRun] "@ + step.title() + " required files ok"@)
        }),
{
}

/// A step that needs no job is completed. One that needs a job is submitted by its script, or refused
/// where there is no scheduler, or in a dry run announced and completed.
pub proof fn law_plans_are_carried_out(
    runner: Runner,
    step: PipelineStep,
    ctx: PipelineCtx,
    phase: Phase,
    script: Text,
)
    ensures
        ({
            let turn = runner.next(step, ctx, phase, Event::Prepared(StepPlan::LocalComplete));
            &&& completes_at_once(turn, "<local>"@)
            &&& runner is Dry ==> turn.notice == Some(
                "[DryRun] "@ + step.title() + " completed locally"@,
            )
            &&& !(runner is Dry) ==> turn.notice is None
        }),
        ({
            let turn = runner.next(
                step,
                ctx,
                phase,
                Event::Prepared(StepPlan::Slurm { script }),
            );
            match runner {
                Runner::Slurm => {
                    &&& turn.action == (Action::Submit { script })
                    &&& turn.phase is Submitting
                    &&& turn.notice is None
                },
                Runner::Local => {
                    &&& turn.action == Action::Fail(
                        step.title() + " cannot be run locally: it needs a Slurm job"@,
                    )
                    &&& turn.phase is Over
                    &&& turn.notice is None
                },
                Runner::Dry => {
                    &&& completes_at_once(turn, script)
                    &&& turn.notice == Some("[DryRun] would submit: sbatch "@ + script)
                },
            }
        }),
{
}

/// A job that was submitted is waited for, by its number. How often it was submitted again is not
/// forgotten meanwhile, and starts from zero.
pub proof fn law_jobs_are_waited_for(
    runner: Runner,
    step: PipelineStep,
    ctx: PipelineCtx,
    job: Text,
    retries: u32,
)
    ensures
        ({
            let event = Event::Submitted { job };
            let first = runner.next(step, ctx, Phase::Submitting, event);
            let again = runner.next(step, ctx, Phase::Resubmitting { retries }, event);
            &&& first.action == (Action::Wait { job })
            &&& first.phase == (Phase::Waiting { retries: 0 })
            &&& again.action == (Action::Wait { job })
            &&& again.phase == (Phase::Waiting { retries })
            &&& first.notice is None
            &&& again.notice is None
        }),
{
}

/// Why a step fails whose job ended so.
pub open spec fn why(status: FinalJobStatus<Text>) -> Text {
    match status {
        FinalJobStatus::Completed => Seq::empty(),
        FinalJobStatus::Timeout => "Max retries reached"@,
        FinalJobStatus::OutOfMemory => "Out of memory"@,
        FinalJobStatus::Cancelled => "Job cancelled"@,
        FinalJobStatus::Failed => "Job failed"@,
        FinalJobStatus::Other(name) => "Unknown status: "@ + name,
    }
}

/// A step is completed with the job that was completed. A job that ran out of time is submitted once
/// more as long as that is allowed, and each time counts. Every other end fails the step, by its name
/// and with the reason.
pub proof fn law_jobs_decide(
    runner: Runner,
    step: PipelineStep,
    ctx: PipelineCtx,
    retries: u32,
    job: FinishedData<Text>,
)
    ensures
        ({
            let turn = runner.next(step, ctx, Phase::Waiting { retries }, Event::Ended(job));
            let status = job.final_status;
            &&& turn.notice is None
            &&& status is Completed ==> turn.action == (Action::Complete { ended: job })
                && turn.phase is Completing
            &&& status is Timeout && retries < ctx.max_retries ==> turn.action is Resubmit
                && turn.phase == (Phase::Resubmitting { retries: (retries + 1) as u32 })
            &&& !(status is Completed) && !(status is Timeout && retries < ctx.max_retries)
                ==> turn.action == Action::Fail(step.title() + " failed: "@ + why(status))
                && turn.phase is Over
        }),
{
}

/// A step that is complete has been run.
pub proof fn law_completed_steps_are_over(
    runner: Runner,
    step: PipelineStep,
    ctx: PipelineCtx,
    phase: Phase,
)
    ensures
        ({
            let turn = runner.next(step, ctx, phase, Event::Completed);
            turn.action is Finish && turn.phase is Over && turn.notice is None
        }),
{
}

/// A job is complete where its status says so; else the error says what its status is.
pub proof fn law_statuses_are_told(status: FinalJobStatus<Text>, detail: Text)
    ensures
        ({
            let r = completed(status, detail);
            let told = "job finished with non-completed status: "@;
            match status {
                FinalJobStatus::Completed => r is Ok,
                FinalJobStatus::Timeout => r == Err::<(), Text>(told + "Timeout"@),
                FinalJobStatus::OutOfMemory => r == Err::<(), Text>(told + "OutOfMemory"@),
                FinalJobStatus::Cancelled => r == Err::<(), Text>(told + "Cancelled"@),
                FinalJobStatus::Failed => r == Err::<(), Text>(told + "Failed"@),
                FinalJobStatus::Other(_) => r == Err::<(), Text>(
                    told + ("Other("@ + detail + ")"@),
                ),
            }
        }),
{
}

/// Whether an event can follow an action: it could not be done, or it was.
pub open spec fn follows(action: Action<Text>, event: Event<Text>) -> bool {
    match action {
        Action::Validate => event is Failed || event is Validated,
        Action::Prepare => event is Failed || event is Prepared,
        Action::Submit { .. } | Action::Resubmit => event is Failed || event is Submitted,
        Action::Wait { .. } => event is Failed || event is Ended,
        Action::Complete { .. } => event is Failed || event is Completed,
        Action::Finish | Action::Fail(_) => false,
    }
}

/// A runner waits for what can follow what it does, and for nothing where the step is over.
pub proof fn law_runners_wait_for_what_they_did(
    runner: Runner,
    step: PipelineStep,
    ctx: PipelineCtx,
    phase: Phase,
    event: Event<Text>,
    later: Event<Text>,
)
    requires
        phase.awaits(event),
    ensures
        runner.first(step).phase.awaits(later) <==> follows(runner.first(step).action, later),
        ({
            let turn = runner.next(step, ctx, phase, event);
            turn.phase.awaits(later) <==> follows(turn.action, later)
        }),
{
}

} // verus!
