//! How the steps of a pipeline are run.
use crate::job::{FinalJobStatus, FinishedData, StepPlan, synthetic, synthetic_finished_data};
use crate::paths::{below, child};
use crate::pipeline::{Pipeline, PipelineCtx, PipelineStep};
use crate::text::{Text, option_view, result_view, same, text2, text3, views};
use vstd::prelude::*;

verus! {

/// What runs the steps of a pipeline.
#[derive(Clone, Copy, PartialEq, Eq, Structural, Debug)]
pub enum Runner {
    /// Jobs are submitted to a scheduler.
    Slurm,
    /// There is no scheduler: only steps that need no job can be run.
    Local,
    /// Work is prepared in a copy of the project, and jobs count as completed.
    Dry,
}

/// What a runner does next.
#[derive(Debug)]
pub enum Action<T> {
    /// It looks whether the step has what it needs.
    Validate,
    /// It prepares the step.
    Prepare,
    /// It submits a job.
    Submit {
        /// The job script.
        script: T,
    },
    /// It waits for a job to end.
    Wait {
        /// The number of the job.
        job: T,
    },
    /// It submits the job of the step again.
    Resubmit,
    /// It completes the step.
    Complete {
        /// The job that has ended.
        ended: FinishedData<T>,
    },
    /// Nothing: the step has been run.
    Finish,
    /// Nothing: the step has failed, and why.
    Fail(T),
}

impl<T: View> View for Action<T> {
    type V = Action<T::V>;

    open spec fn view(&self) -> Action<T::V> {
        match *self {
            Action::Validate => Action::Validate,
            Action::Prepare => Action::Prepare,
            Action::Submit { script } => Action::Submit { script: script@ },
            Action::Wait { job } => Action::Wait { job: job@ },
            Action::Resubmit => Action::Resubmit,
            Action::Complete { ended } => Action::Complete { ended: ended@ },
            Action::Finish => Action::Finish,
            Action::Fail(e) => Action::Fail(e@),
        }
    }
}

/// What a runner is told of what it did.
#[derive(Debug)]
pub enum Event<T> {
    /// It could not be done, and why.
    Failed(T),
    /// The step has what it needs.
    Validated,
    /// The step is prepared.
    Prepared(StepPlan<T>),
    /// The job was submitted.
    Submitted {
        /// The number of the job.
        job: T,
    },
    /// The job has ended.
    Ended(FinishedData<T>),
    /// The step is complete.
    Completed,
}

impl<T: View> View for Event<T> {
    type V = Event<T::V>;

    open spec fn view(&self) -> Event<T::V> {
        match *self {
            Event::Failed(e) => Event::Failed(e@),
            Event::Validated => Event::Validated,
            Event::Prepared(plan) => Event::Prepared(plan@),
            Event::Submitted { job } => Event::Submitted { job: job@ },
            Event::Ended(data) => Event::Ended(data@),
            Event::Completed => Event::Completed,
        }
    }
}

/// How far a step has come.
#[derive(Clone, Copy, PartialEq, Eq, Structural, Debug)]
pub enum Phase {
    /// Its files are looked at.
    Validating,
    /// It is being prepared.
    Preparing,
    /// Its job is being submitted.
    Submitting,
    /// Its job is running.
    Waiting {
        /// How often the job was submitted again.
        retries: u32,
    },
    /// Its job is being submitted again.
    Resubmitting {
        /// How often the job was submitted again, this time included.
        retries: u32,
    },
    /// It is being completed.
    Completing,
    /// It is over.
    Over,
}

impl Phase {
    /// Whether an event is one that the phase waits for.
    pub open spec fn awaits(self, event: Event<Text>) -> bool {
        match self {
            Phase::Over => false,
            Phase::Validating => event is Failed || event is Validated,
            Phase::Preparing => event is Failed || event is Prepared,
            Phase::Submitting | Phase::Resubmitting { .. } => event is Failed || event is Submitted,
            Phase::Waiting { .. } => event is Failed || event is Ended,
            Phase::Completing => event is Failed || event is Completed,
        }
    }

    /// How often the job was submitted again.
    pub open spec fn count(self) -> u32 {
        match self {
            Phase::Waiting { retries } | Phase::Resubmitting { retries } => retries,
            _ => 0,
        }
    }
}

/// What a runner says and does at a point of a step.
#[derive(Debug)]
pub struct Turn<T> {
    /// What it says, where it says something.
    pub notice: Option<T>,
    /// What it does.
    pub action: Action<T>,
    /// How far the step has come.
    pub phase: Phase,
}

impl<T: View> View for Turn<T> {
    type V = Turn<T::V>;

    open spec fn view(&self) -> Turn<T::V> {
        Turn { notice: option_view(self.notice), action: self.action@, phase: self.phase }
    }
}

/// A turn in which nothing is said.
pub open spec fn quietly(action: Action<Text>, phase: Phase) -> Turn<Text> {
    Turn { notice: None, action, phase }
}

/// A turn in which something is said.
pub open spec fn saying(notice: Text, action: Action<Text>, phase: Phase) -> Turn<Text> {
    Turn { notice: Some(notice), action, phase }
}

/// A turn in which nothing is said.
fn quiet(action: Action<String>, phase: Phase) -> (r: Turn<String>)
    ensures
        r@ == quietly(action@, phase),
{
    Turn { notice: None, action, phase }
}

/// A turn in which something is said.
fn say(notice: String, action: Action<String>, phase: Phase) -> (r: Turn<String>)
    ensures
        r@ == saying(notice@, action@, phase),
{
    Turn { notice: Some(notice), action, phase }
}

/// Completing a step whose job did not have to run.
pub open spec fn complete_at_once(script: Text) -> Action<Text> {
    Action::Complete { ended: synthetic(script) }
}

/// Completing a step whose job did not have to run.
fn complete_without_job(script: String) -> (r: Action<String>)
    ensures
        r@ == complete_at_once(script@),
{
    Action::Complete { ended: synthetic_finished_data(script) }
}

/// Why a step fails whose job ended in a status.
pub open spec fn reason(status: FinalJobStatus<Text>) -> Text {
    match status {
        FinalJobStatus::Completed => Seq::empty(),
        FinalJobStatus::Timeout => "Max retries reached"@,
        FinalJobStatus::OutOfMemory => "Out of memory"@,
        FinalJobStatus::Cancelled => "Job cancelled"@,
        FinalJobStatus::Failed => "Job failed"@,
        FinalJobStatus::Other(name) => "Unknown status: "@ + name,
    }
}

/// What is said of a step that needs a job where there is no scheduler.
pub open spec fn needs_scheduler(title: Text) -> Text {
    title + " cannot be run locally: it needs a Slurm job"@
}

impl Runner {
    /// What a runner does first with a step: a dry run looks at its files.
    pub open spec fn first(self, step: PipelineStep) -> Turn<Text> {
        match self {
            Runner::Dry => saying(
                "[DryRun] preparing "@ + step.title(),
                Action::Validate,
                Phase::Validating,
            ),
            _ => quietly(Action::Prepare, Phase::Preparing),
        }
    }

    /// What a runner does with a step that is prepared.
    pub open spec fn with_plan(self, step: PipelineStep, plan: StepPlan<Text>) -> Turn<Text> {
        match (plan, self) {
            (StepPlan::LocalComplete, Runner::Dry) => saying(
                "[DryRun] "@ + step.title() + " completed locally"@,
                complete_at_once("<local>"@),
                Phase::Completing,
            ),
            (StepPlan::LocalComplete, _) => quietly(
                complete_at_once("<local>"@),
                Phase::Completing,
            ),
            (StepPlan::Slurm { script }, Runner::Slurm) => quietly(
                Action::Submit { script },
                Phase::Submitting,
            ),
            (StepPlan::Slurm { script }, Runner::Local) => quietly(
                Action::Fail(needs_scheduler(step.title())),
                Phase::Over,
            ),
            (StepPlan::Slurm { script }, Runner::Dry) => saying(
                "[DryRun] would submit: sbatch "@ + script,
                complete_at_once(script),
                Phase::Completing,
            ),
        }
    }

    /// What a runner does when a job has ended: a job that ran out of time is submitted again while
    /// that is allowed.
    pub open spec fn with_job(
        self,
        step: PipelineStep,
        ctx: PipelineCtx,
        retries: u32,
        job: FinishedData<Text>,
    ) -> Turn<Text> {
        match job.final_status {
            FinalJobStatus::Completed => quietly(Action::Complete { ended: job }, Phase::Completing),
            FinalJobStatus::Timeout if retries < ctx.max_retries => quietly(
                Action::Resubmit,
                Phase::Resubmitting { retries: (retries + 1) as u32 },
            ),
            status => quietly(
                Action::Fail(step.title() + " failed: "@ + reason(status)),
                Phase::Over,
            ),
        }
    }

    /// What a runner does after an event.
    pub open spec fn next(
        self,
        step: PipelineStep,
        ctx: PipelineCtx,
        phase: Phase,
        event: Event<Text>,
    ) -> Turn<Text> {
        match event {
            Event::Failed(e) => quietly(Action::Fail(e), Phase::Over),
            Event::Validated => saying(
                "[DryRun] "@ + step.title() + " required files ok"@,
                Action::Prepare,
                Phase::Preparing,
            ),
            Event::Prepared(plan) => self.with_plan(step, plan),
            Event::Submitted { job } => quietly(
                Action::Wait { job },
                Phase::Waiting { retries: phase.count() },
            ),
            Event::Ended(job) => self.with_job(step, ctx, phase.count(), job),
            Event::Completed => quietly(Action::Finish, Phase::Over),
        }
    }

    /// Begins to run a step.
    pub fn start_step(&self, step: &PipelineStep) -> (r: Turn<String>)
        ensures
            r@ == self.first(*step),
    {
        match self {
            Runner::Dry => say(
                text2("[DryRun] preparing ", step.name()),
                Action::Validate,
                Phase::Validating,
            ),
            _ => quiet(Action::Prepare, Phase::Preparing),
        }
    }

    /// Goes on with a step that is prepared.
    fn run_plan(&self, step: &PipelineStep, plan: StepPlan<String>) -> (r: Turn<String>)
        ensures
            r@ == self.with_plan(*step, plan@),
    {
        match (plan, self) {
            (StepPlan::LocalComplete, Runner::Dry) => say(
                text3("[DryRun] ", step.name(), " completed locally"),
                complete_without_job("<local>".to_owned()),
                Phase::Completing,
            ),
            (StepPlan::LocalComplete, _) => quiet(
                complete_without_job("<local>".to_owned()),
                Phase::Completing,
            ),
            (StepPlan::Slurm { script }, Runner::Slurm) => quiet(
                Action::Submit { script },
                Phase::Submitting,
            ),
            (StepPlan::Slurm { script: _ }, Runner::Local) => quiet(
                Action::Fail(text2(step.name(), " cannot be run locally: it needs a Slurm job")),
                Phase::Over,
            ),
            (StepPlan::Slurm { script }, Runner::Dry) => say(
                text2("[DryRun] would submit: sbatch ", script.as_str()),
                complete_without_job(script),
                Phase::Completing,
            ),
        }
    }

    /// Goes on with a step whose job has ended.
    fn end_job(
        &self,
        step: &PipelineStep,
        ctx: &PipelineCtx,
        retries: u32,
        job: FinishedData<String>,
    ) -> (r: Turn<String>)
        ensures
            r@ == self.with_job(*step, *ctx, retries, job@),
    {
        let reason = match &job.final_status {
            FinalJobStatus::Completed => {
                return quiet(Action::Complete { ended: job }, Phase::Completing);
            },
            FinalJobStatus::Timeout => {
                if retries < ctx.max_retries {
                    return quiet(
                        Action::Resubmit,
                        Phase::Resubmitting { retries: retries + 1 },
                    );
                }
                "Max retries reached".to_owned()
            },
            FinalJobStatus::OutOfMemory => "Out of memory".to_owned(),
            FinalJobStatus::Cancelled => "Job cancelled".to_owned(),
            FinalJobStatus::Failed => "Job failed".to_owned(),
            FinalJobStatus::Other(name) => text2("Unknown status: ", name.as_str()),
        };
        quiet(Action::Fail(text3(step.name(), " failed: ", reason.as_str())), Phase::Over)
    }

    /// Goes on to run a step.
    pub fn run_step(
        &self,
        step: &PipelineStep,
        ctx: &PipelineCtx,
        phase: Phase,
        event: Event<String>,
    ) -> (r: Turn<String>)
        ensures
            r@ == self.next(*step, *ctx, phase, event@),
    {
        let retries: u32 = match phase {
            Phase::Waiting { retries } => retries,
            Phase::Resubmitting { retries } => retries,
            _ => 0,
        };
        match event {
            Event::Failed(e) => quiet(Action::Fail(e), Phase::Over),
            Event::Validated => say(
                text3("[DryRun] ", step.name(), " required files ok"),
                Action::Prepare,
                Phase::Preparing,
            ),
            Event::Prepared(plan) => self.run_plan(step, plan),
            Event::Submitted { job } => quiet(Action::Wait { job }, Phase::Waiting { retries }),
            Event::Ended(job) => self.end_job(step, ctx, retries, job),
            Event::Completed => quiet(Action::Finish, Phase::Over),
        }
    }
}

/// What the run of a pipeline comes to next.
#[derive(Debug)]
pub enum RunProgress<T> {
    /// A step is run.
    Step(usize),
    /// All steps have been run.
    Finished,
    /// A step has failed, and why.
    Failed(T),
}

impl<T: View> View for RunProgress<T> {
    type V = RunProgress<T::V>;

    open spec fn view(&self) -> RunProgress<T::V> {
        match *self {
            RunProgress::Step(index) => RunProgress::Step(index),
            RunProgress::Finished => RunProgress::Finished,
            RunProgress::Failed(e) => RunProgress::Failed(e@),
        }
    }
}

/// What the run of `len` steps comes to when `done` of them have been run and the last of these
/// ended in `last`.
pub open spec fn run_after(len: nat, done: usize, last: Result<(), Text>) -> RunProgress<Text> {
    match last {
        Err(e) => RunProgress::Failed(e),
        Ok(_) => if done < len {
            RunProgress::Step(done)
        } else {
            RunProgress::Finished
        },
    }
}

impl Pipeline {
    /// What the run of the pipeline comes to when `done` of its steps have been run and the last of
    /// these ended in `last`.
    pub fn run(&self, done: usize, last: Result<(), String>) -> (r: RunProgress<String>)
        ensures
            r@ == run_after(self.steps@.len(), done, result_view(last)),
    {
        match last {
            Err(e) => RunProgress::Failed(e),
            Ok(_) => if done < self.steps.len() {
                RunProgress::Step(done)
            } else {
                RunProgress::Finished
            },
        }
    }
}

/// A copy of a project in which a dry run works.
#[derive(Debug)]
pub struct DryRunner {
    /// The copy.
    pub temp_project_dir: String,
}

impl DryRunner {
    /// The runner that works in a temporary directory: the copy lies in `project` below it.
    pub fn new(temp_dir: &str) -> (r: DryRunner)
        ensures
            r.temp_project_dir@ == below(temp_dir@, "project"@),
    {
        DryRunner { temp_project_dir: child(temp_dir, "project") }
    }

    /// What the steps of a dry run have in common: they work in the copy, submit nothing, and prepare
    /// one structure at most.
    pub fn context(&self, ctx: &PipelineCtx) -> (r: PipelineCtx)
        ensures
            r.project_dir@ == self.temp_project_dir@,
            r.generation == ctx.generation,
            r.poll_interval == ctx.poll_interval,
            r.max_retries == ctx.max_retries,
            r.dry_run,
            r.dry_config_limit == Some(1usize),
    {
        PipelineCtx {
            project_dir: self.temp_project_dir.clone(),
            generation: ctx.generation,
            poll_interval: ctx.poll_interval,
            max_retries: ctx.max_retries,
            dry_run: true,
            dry_config_limit: Some(1),
        }
    }

    /// What is said of the copy.
    pub fn notice(&self) -> (r: String)
        ensures
            r@ == "[DryRun] using temporary project copy: "@ + self.temp_project_dir@,
    {
        text2("[DryRun] using temporary project copy: ", self.temp_project_dir.as_str())
    }
}

/// Whether a project can be copied: it has to be a directory.
pub fn copy_project_for_dry_run(source: &str, is_dir: bool) -> (r: Result<(), String>)
    ensures
        result_view(r) == (if is_dir {
            Ok::<(), Text>(())
        } else {
            Err("dry-run project dir is not a directory: "@ + source@)
        }),
{
    if is_dir {
        Ok(())
    } else {
        Err(text2("dry-run project dir is not a directory: ", source))
    }
}

/// What an entry of a directory is.
#[derive(Clone, Copy, PartialEq, Eq, Structural, Debug)]
pub enum EntryKind {
    /// A directory.
    Dir,
    /// A file.
    File,
    /// Neither.
    Other,
}

/// An entry of a directory.
#[derive(Debug)]
pub struct Entry<T> {
    /// Its name.
    pub name: T,
    /// What it is.
    pub kind: EntryKind,
}

impl<T: View> View for Entry<T> {
    type V = Entry<T::V>;

    open spec fn view(&self) -> Entry<T::V> {
        Entry { name: self.name@, kind: self.kind }
    }
}

/// What is done with an entry of a directory that is copied.
#[derive(Clone, Copy, PartialEq, Eq, Structural, Debug)]
pub enum CopyAction {
    /// The entry is a directory, and is copied in turn.
    Descend,
    /// The entry is a file, and is copied.
    CopyFile,
    /// The entry is left out.
    Skip,
}

/// Whether an entry has no place in a copy: what was built, and the data of version control.
pub open spec fn is_left_out(name: Text) -> bool {
    name == "target"@ || name == ".git"@ || name == ".jj"@ || name == ".direnv"@
}

/// What is done with an entry of a directory that is copied.
pub open spec fn copy_action(entry: Entry<Text>) -> CopyAction {
    if is_left_out(entry.name) {
        CopyAction::Skip
    } else {
        match entry.kind {
            EntryKind::Dir => CopyAction::Descend,
            EntryKind::File => CopyAction::CopyFile,
            EntryKind::Other => CopyAction::Skip,
        }
    }
}

/// What is done with each entry of a directory that is copied.
pub fn copy_dir_filtered(entries: &Vec<Entry<String>>) -> (r: Vec<CopyAction>)
    ensures
        r@ == views(entries@).map_values(|entry: Entry<Text>| copy_action(entry)),
{
    let mut actions: Vec<CopyAction> = Vec::new();
    let mut i: usize = 0;
    while i < entries.len()
        invariant
            i <= entries@.len(),
            actions@.len() == i,
            forall|j: int| 0 <= j < i ==> actions@[j] == copy_action(entries@[j]@),
        decreases entries@.len() - i,
    {
        let name = entries[i].name.as_str();
        let action = if same(name, "target") || same(name, ".git") || same(name, ".jj") || same(
            name,
            ".direnv",
        ) {
            CopyAction::Skip
        } else {
            match entries[i].kind {
                EntryKind::Dir => CopyAction::Descend,
                EntryKind::File => CopyAction::CopyFile,
                EntryKind::Other => CopyAction::Skip,
            }
        };
        actions.push(action);
        i += 1;
    }
    assert(actions@ =~= views(entries@).map_values(|entry: Entry<Text>| copy_action(entry)));
    actions
}

} // verus!
