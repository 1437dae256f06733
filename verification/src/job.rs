//! Jobs: what is submitted, and how it ended.
use crate::text::{Text, result_view, text2, text3};
use vstd::prelude::*;

verus! {

/// How a job ended.
#[derive(Debug)]
pub enum FinalJobStatus<T> {
    /// It was completed.
    Completed,
    /// It ran out of time.
    Timeout,
    /// It ran out of memory.
    OutOfMemory,
    /// It was cancelled.
    Cancelled,
    /// It failed.
    Failed,
    /// It ended in another way, which the scheduler names.
    Other(T),
}

impl<T: View> View for FinalJobStatus<T> {
    type V = FinalJobStatus<T::V>;

    open spec fn view(&self) -> FinalJobStatus<T::V> {
        match self {
            FinalJobStatus::Completed => FinalJobStatus::Completed,
            FinalJobStatus::Timeout => FinalJobStatus::Timeout,
            FinalJobStatus::OutOfMemory => FinalJobStatus::OutOfMemory,
            FinalJobStatus::Cancelled => FinalJobStatus::Cancelled,
            FinalJobStatus::Failed => FinalJobStatus::Failed,
            FinalJobStatus::Other(name) => FinalJobStatus::Other(name@),
        }
    }
}

/// A job that has ended.
#[derive(Debug)]
pub struct FinishedData<T> {
    /// The job script.
    pub jobscript: T,
    /// The number of the job.
    pub job_id: T,
    /// When it started.
    pub start_time: T,
    /// When it ended.
    pub end_time: T,
    /// How long it ran.
    pub runtime: T,
    /// How it ended.
    pub final_status: FinalJobStatus<T>,
}

impl<T: View> View for FinishedData<T> {
    type V = FinishedData<T::V>;

    open spec fn view(&self) -> FinishedData<T::V> {
        FinishedData {
            jobscript: self.jobscript@,
            job_id: self.job_id@,
            start_time: self.start_time@,
            end_time: self.end_time@,
            runtime: self.runtime@,
            final_status: self.final_status@,
        }
    }
}

/// What a step needs next, once it has been prepared.
#[derive(Debug)]
pub enum StepPlan<T> {
    /// A job has to be run.
    Slurm {
        /// Its script.
        script: T,
    },
    /// Nothing: the step is complete.
    LocalComplete,
}

impl<T: View> View for StepPlan<T> {
    type V = StepPlan<T::V>;

    open spec fn view(&self) -> StepPlan<T::V> {
        match self {
            StepPlan::Slurm { script } => StepPlan::Slurm { script: script@ },
            StepPlan::LocalComplete => StepPlan::LocalComplete,
        }
    }
}

/// A text as it is written in debugging output: in quotation marks, special characters escaped.
pub uninterp spec fn debug_of(text: Seq<char>) -> Seq<char>;

/// The text as the standard library writes it with `{:?}`, by `<str as Debug>::fmt`. The result
/// depends on the text alone; which characters are escaped, and how, is left to the library.
#[verifier::external_body]
fn debug_text(text: &str) -> (r: String)
    ensures
        r@ == debug_of(text@),
{
    format!("{:?}", text)
}

/// A status in words; `detail` is the name that the scheduler gave to another status, in quotation
/// marks.
pub open spec fn status_words(status: FinalJobStatus<Text>, detail: Text) -> Text {
    match status {
        FinalJobStatus::Completed => "Completed"@,
        FinalJobStatus::Timeout => "Timeout"@,
        FinalJobStatus::OutOfMemory => "OutOfMemory"@,
        FinalJobStatus::Cancelled => "Cancelled"@,
        FinalJobStatus::Failed => "Failed"@,
        FinalJobStatus::Other(_) => "Other("@ + detail + ")"@,
    }
}

/// The name that the scheduler gave to a status that is none of the usual ones.
pub open spec fn other_name(status: FinalJobStatus<Text>) -> Text {
    match status {
        FinalJobStatus::Other(name) => name,
        _ => Seq::empty(),
    }
}

/// Whether a status is completion; the error has the status in words.
pub open spec fn completed(status: FinalJobStatus<Text>, detail: Text) -> Result<(), Text> {
    if status is Completed {
        Ok(())
    } else {
        Err("job finished with non-completed status: "@ + status_words(status, detail))
    }
}

/// Whether a status is completion, with the name of another status already in quotation marks.
pub fn check_completed(status: &FinalJobStatus<String>, detail: &str) -> (r: Result<(), String>)
    ensures
        result_view(r) == completed(status@, detail@),
{
    let words = match status {
        FinalJobStatus::Completed => {
            return Ok(());
        },
        FinalJobStatus::Timeout => "Timeout".to_owned(),
        FinalJobStatus::OutOfMemory => "OutOfMemory".to_owned(),
        FinalJobStatus::Cancelled => "Cancelled".to_owned(),
        FinalJobStatus::Failed => "Failed".to_owned(),
        FinalJobStatus::Other(_) => text3("Other(", detail, ")"),
    };
    Err(text2("job finished with non-completed status: ", words.as_str()))
}

/// Whether a job was completed.
pub fn ensure_completed(job_state: &FinishedData<String>) -> (r: Result<(), String>)
    ensures
        result_view(r) == completed(
            job_state@.final_status,
            debug_of(other_name(job_state@.final_status)),
        ),
{
    let detail = match &job_state.final_status {
        FinalJobStatus::Other(name) => debug_text(name.as_str()),
        _ => debug_text(""),
    };
    proof {
        reveal_strlit("");
        assert(""@ =~= Seq::<char>::empty());
    }
    check_completed(&job_state.final_status, detail.as_str())
}

/// What is reported of a job that did not have to run: it was completed at once.
pub open spec fn synthetic(jobscript: Text) -> FinishedData<Text> {
    FinishedData {
        jobscript,
        job_id: "0"@,
        start_time: Seq::empty(),
        end_time: Seq::empty(),
        runtime: Seq::empty(),
        final_status: FinalJobStatus::Completed,
    }
}

/// What is reported of a job that did not have to run.
pub fn synthetic_finished_data(jobscript: String) -> (r: FinishedData<String>)
    ensures
        r@ == synthetic(jobscript@),
{
    FinishedData {
        jobscript,
        job_id: "0".to_owned(),
        start_time: String::new(),
        end_time: String::new(),
        runtime: String::new(),
        final_status: FinalJobStatus::Completed,
    }
}

/// A job that did not have to run counts as completed.
pub proof fn law_synthetic_jobs_are_completed(jobscript: Text, detail: Text)
    ensures
        completed(synthetic(jobscript).final_status, detail) is Ok,
{
}

} // verus!
