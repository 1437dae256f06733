//! What a step asks for is asked for in its own name.
use crate::backend::{EnergyMode, ModelBackend};
use crate::calls::{Call, Completion, Progress, Reply, Stage};
use crate::job::{FinishedData, StepPlan};
use crate::number::decimal_of;
use crate::paths::below;
use crate::pipeline::{DftStep, PipelineCtx, PipelineStep, TrainingStep};
use crate::selection::DisagreementSettings;
use crate::text::{Text, option_view, padded_left};
use vstd::prelude::*;

verus! {

/// The project that a call names, where it names one.
pub open spec fn project_of<T>(call: Call<T>) -> Option<T> {
    match call {
        Call::DryDataset { project_dir, .. }
        | Call::Dataset { project_dir, .. }
        | Call::UpetWorkspace { project_dir, .. }
        | Call::N2p2Workspace { project_dir, .. }
        | Call::N2p2ScalingOutputs { project_dir, .. }
        | Call::MdWorkspace { project_dir, .. }
        | Call::MockDisagreement { project_dir, .. }
        | Call::DisagreementScript { project_dir, .. }
        | Call::UpetModels { project_dir, .. }
        | Call::N2p2TrainingOutputs { project_dir, .. }
        | Call::N2p2BestEpoch { project_dir, .. } => Some(project_dir),
        Call::N2p2MemoryReport { .. }
        | Call::ConfigurationCount { .. }
        | Call::RunDirectory { .. }
        | Call::MockOutcar { .. }
        | Call::ArrayScript { .. } => None,
    }
}

/// The setup that a call names, where it names one.
pub open spec fn setup_of<T>(call: Call<T>) -> Option<T> {
    match call {
        Call::UpetWorkspace { setup_dir, .. }
        | Call::N2p2Workspace { setup_dir, .. }
        | Call::MdWorkspace { setup_dir, .. }
        | Call::RunDirectory { setup_dir, .. }
        | Call::ArrayScript { setup_dir, .. }
        | Call::DisagreementScript { setup_dir, .. } => Some(setup_dir),
        _ => None,
    }
}

/// The generation that a call names, where it names one.
pub open spec fn generation_of<T>(call: Call<T>) -> Option<u32> {
    match call {
        Call::DryDataset { generation, .. }
        | Call::Dataset { generation, .. }
        | Call::UpetWorkspace { generation, .. }
        | Call::N2p2Workspace { generation, .. }
        | Call::N2p2ScalingOutputs { generation, .. }
        | Call::MdWorkspace { generation, .. }
        | Call::ArrayScript { generation, .. }
        | Call::MockDisagreement { generation, .. }
        | Call::DisagreementScript { generation, .. }
        | Call::UpetModels { generation, .. }
        | Call::N2p2TrainingOutputs { generation, .. }
        | Call::N2p2BestEpoch { generation, .. } => Some(generation),
        Call::N2p2MemoryReport { .. }
        | Call::ConfigurationCount { .. }
        | Call::RunDirectory { .. }
        | Call::MockOutcar { .. } => None,
    }
}

/// How many models a call names, where it names a number.
pub open spec fn members_of<T>(call: Call<T>) -> Option<usize> {
    match call {
        Call::UpetWorkspace { committee_members, .. }
        | Call::N2p2Workspace { committee_members, .. }
        | Call::N2p2ScalingOutputs { committee_members, .. }
        | Call::N2p2MemoryReport { committee_members, .. }
        | Call::MdWorkspace { committee_members, .. }
        | Call::MockDisagreement { committee_members, .. }
        | Call::UpetModels { committee_members, .. }
        | Call::N2p2TrainingOutputs { committee_members, .. }
        | Call::N2p2BestEpoch { committee_members, .. } => Some(committee_members),
        _ => None,
    }
}

/// The kind of model that a call names, in words or not, where it names one.
pub open spec fn is_for(call: Call<Text>, backend: ModelBackend) -> bool {
    match call {
        Call::DryDataset { backend: named, .. } | Call::Dataset { backend: named, .. } => named
            == backend,
        Call::MockDisagreement { backend_key, .. }
        | Call::DisagreementScript { backend_key, .. } => match backend {
            ModelBackend::Upet => backend_key == "upet"@,
            ModelBackend::N2p2 => backend_key == "n2p2"@,
        },
        Call::UpetWorkspace { .. } | Call::UpetModels { .. } => backend is Upet,
        Call::N2p2Workspace { .. }
        | Call::N2p2ScalingOutputs { .. }
        | Call::N2p2MemoryReport { .. }
        | Call::N2p2TrainingOutputs { .. }
        | Call::N2p2BestEpoch { .. } => backend is N2p2,
        _ => true,
    }
}

/// Whether a call names no foundation model but that of a training step.
pub open spec fn takes_checkpoint(call: Call<Text>, step: TrainingStep) -> bool {
    match call {
        Call::DryDataset { checkpoint, .. } | Call::Dataset { checkpoint, .. } => match (
            checkpoint,
            step.checkpoint,
        ) {
            (None, None) => true,
            (Some(named), Some(path)) => named == path@,
            _ => false,
        },
        Call::UpetWorkspace { foundation, .. } => step.checkpoint matches Some(path) && foundation
            == path@,
        _ => true,
    }
}

/// Whether a call trains on no energies but those of a training step.
pub open spec fn takes_energies(call: Call<Text>, mode: EnergyMode) -> bool {
    match call {
        Call::Dataset { energy_mode, .. } => energy_mode == mode,
        Call::UpetWorkspace { training_key, .. } => match mode {
            EnergyMode::Pet => training_key == "energy-corrected"@,
            EnergyMode::Raw => training_key == "energy"@,
        },
        _ => true,
    }
}

/// Whether a call selects by no settings but the given ones.
pub open spec fn takes_settings(call: Call<Text>, given: DisagreementSettings) -> bool {
    match call {
        Call::MockDisagreement { settings, .. } | Call::DisagreementScript { settings, .. } =>
            settings == given,
        _ => true,
    }
}

/// The directory of a generation of a project, in the directory of a kind of work.
pub open spec fn work_dir(ctx: PipelineCtx, work: Text) -> Text {
    below(below(ctx.project_dir@, work), "generation_"@ + decimal_of(ctx.generation as nat))
}

/// Whether a call names no directory of a generation but that of the context.
pub open spec fn is_in_generation(call: Call<Text>, ctx: PipelineCtx) -> bool {
    match call {
        Call::N2p2MemoryReport { generation_dir, .. } => generation_dir == work_dir(
            ctx,
            "training"@,
        ),
        Call::RunDirectory { generation_dir, run_name, index, .. } => generation_dir == work_dir(
            ctx,
            "vasp_runs"@,
        ) && run_name == "config_"@ + padded_left(decimal_of(index as nat), 3, '0'),
        Call::ArrayScript { generation_dir, .. } => generation_dir == work_dir(ctx, "vasp_runs"@),
        Call::MockOutcar { run_dir, index } => run_dir == below(
            work_dir(ctx, "vasp_runs"@),
            "config_"@ + padded_left(decimal_of(index as nat), 3, '0'),
        ),
        _ => true,
    }
}

/// The setup of a step.
pub open spec fn own_setup(step: PipelineStep) -> Text {
    match step {
        PipelineStep::Training(step) => step.ctx.setup_dir@,
        PipelineStep::Md(step) => step.ctx.setup_dir@,
        PipelineStep::Qbc(step) => step.ctx.setup_dir@,
        PipelineStep::Dft(step) => step.ctx.setup_dir@,
    }
}

/// Whether a call is in the name of a step: it names the project and the generation of the context,
/// and the setup, the committee and whatever else the step was given.
pub open spec fn is_own_call(call: Call<Text>, step: PipelineStep, ctx: PipelineCtx) -> bool {
    &&& project_of(call) matches Some(project_dir) ==> project_dir == ctx.project_dir@
    &&& setup_of(call) matches Some(setup_dir) ==> setup_dir == own_setup(step)
    &&& generation_of(call) matches Some(generation) ==> generation == ctx.generation
    &&& is_in_generation(call, ctx)
    &&& match step {
        PipelineStep::Training(training) => {
            &&& members_of(call) matches Some(n) ==> n == training.committee_members
            &&& is_for(call, training.model_backend)
            &&& takes_checkpoint(call, training)
            &&& takes_energies(call, training.energy_mode)
        },
        PipelineStep::Md(md) => {
            &&& call matches Call::MdWorkspace { model_package, .. }
            &&& members_of(call) == Some(md.committee_members)
            &&& model_package == md.model_package
        },
        PipelineStep::Qbc(qbc) => {
            &&& members_of(call) matches Some(n) ==> n == qbc.committee_members
            &&& is_for(call, qbc.backend)
            &&& takes_settings(call, qbc.settings)
        },
        PipelineStep::Dft(_) => {
            &&& project_of(call) is None
            &&& members_of(call) is None
        },
    }
}

/// Whatever a step asks for while it is prepared, it asks for in its own name.
pub proof fn law_preparation_asks_in_its_own_name(
    step: PipelineStep,
    ctx: PipelineCtx,
    files: Set<Text>,
    stage: Stage<Text>,
    reply: Reply<Text>,
)
    requires
        step.reaches(stage),
        stage.awaits(reply),
    ensures
        step.first(ctx, files) matches Progress::Ask { call, .. } ==> is_own_call(call, step, ctx),
        step.next(ctx, stage, reply) matches Progress::Ask { call, .. } ==> is_own_call(
            call,
            step,
            ctx,
        ),
{
}

/// Whatever a step asks for while it is completed, it asks for in its own name.
pub proof fn law_completion_asks_in_its_own_name(
    step: PipelineStep,
    ctx: PipelineCtx,
    job_state: FinishedData<Text>,
    outcome: Result<(), Text>,
)
    ensures
        step.first_completion(ctx, job_state) matches Completion::Ask { call, stage } ==> {
            &&& is_own_call(call, step, ctx)
            &&& step.next_completion(ctx, stage, outcome) matches Completion::Ask {
                call: second,
                ..
            } ==> is_own_call(second, step, ctx)
        },
{
}

/// What a fine-tuned committee asks for: training data, or placeholders in a dry run; then its
/// directories; and the job script that it is given is the one that is submitted.
pub proof fn law_fine_tuning_takes_its_course(
    step: TrainingStep,
    ctx: PipelineCtx,
    files: Set<Text>,
    script: Text,
)
    requires
        step.model_backend is Upet,
        step.checkpoint is Some,
    ensures
        ({
            let training = PipelineStep::Training(step);
            &&& training.first(ctx, files) matches Progress::Ask { call, stage }
            &&& call is DryDataset <==> ctx.dry_run
            &&& call is Dataset <==> !ctx.dry_run
            &&& training.next(ctx, stage, Reply::Done) matches Progress::Ask {
                call: second,
                stage: later,
            }
            &&& second is UpetWorkspace
            &&& training.next(ctx, later, Reply::Path(script)) == Progress::Ready(
                StepPlan::Slurm { script },
            )
        }),
{
}

/// What a committee of neural networks asks for: training data, or placeholders in a dry run; then
/// its directories, the results of scaling, and the report on memory. The report is on the job script
/// of training, which is the one that is submitted.
pub proof fn law_training_takes_its_course(
    step: TrainingStep,
    ctx: PipelineCtx,
    files: Set<Text>,
    scaling: Text,
    training: Text,
)
    requires
        step.model_backend is N2p2,
    ensures
        ({
            let own = PipelineStep::Training(step);
            &&& own.first(ctx, files) matches Progress::Ask { call, stage }
            &&& call is DryDataset <==> ctx.dry_run
            &&& call is Dataset <==> !ctx.dry_run
            &&& own.next(ctx, stage, Reply::Done) matches Progress::Ask {
                call: second,
                stage: working,
            }
            &&& second is N2p2Workspace
            &&& own.next(ctx, working, Reply::Scripts { scaling, training }) matches Progress::Ask {
                call: third,
                stage: scaled,
            }
            &&& third is N2p2ScalingOutputs
            &&& own.next(ctx, scaled, Reply::Done) matches Progress::Ask {
                call: Call::N2p2MemoryReport { training_script, .. },
                stage: reported,
            }
            &&& training_script == training
            &&& own.next(ctx, reported, Reply::Done) == Progress::Ready(
                StepPlan::Slurm { script: training },
            )
        }),
{
}

/// What a step of simulations asks for: its directories. Its job script lies in the directory that
/// it is given.
pub proof fn law_simulations_take_their_course(
    step: PipelineStep,
    ctx: PipelineCtx,
    files: Set<Text>,
    dir: Text,
)
    requires
        step is Md,
    ensures
        step.first(ctx, files) matches Progress::Ask { call, stage } && call is MdWorkspace
            && step.next(ctx, stage, Reply::Path(dir)) == Progress::Ready(
            StepPlan::Slurm { script: below(dir, "submit_array.sh"@) },
        ),
{
}

/// What a step of selection asks for: the disagreement, which completes it without a job, or a job
/// script that computes it, which is the one that is submitted.
pub proof fn law_selection_takes_its_course(
    step: PipelineStep,
    ctx: PipelineCtx,
    files: Set<Text>,
    script: Text,
)
    ensures
        step matches PipelineStep::Qbc(qbc) ==> {
            &&& step.first(ctx, files) matches Progress::Ask { call, stage }
            &&& qbc.mode is Mock ==> call is MockDisagreement && step.next(ctx, stage, Reply::Done)
                == Progress::Ready::<Text>(StepPlan::LocalComplete)
            &&& qbc.mode is Real ==> call is DisagreementScript && step.next(
                ctx,
                stage,
                Reply::Path(script),
            ) == Progress::Ready(StepPlan::Slurm { script })
        },
{
}

/// Reference calculations are made of the structures that the generation selected; in a dry run, where
/// there are none, of those of the seed dataset, the extended file before the plain one. Those
/// structures are counted, and each directory that is asked for is that of one of them.
pub proof fn law_calculations_are_of_the_selected_structures(
    step: DftStep,
    ctx: PipelineCtx,
    files: Set<Text>,
    count: usize,
)
    ensures
        ({
            let dft = PipelineStep::Dft(step);
            let selected = below(
                below(ctx.project_dir@, "selected_structures"@),
                "generation_"@ + decimal_of(ctx.generation as nat) + ".xyz"@,
            );
            let seeds = below(below(ctx.project_dir@, "setup"@), "training"@);
            let extended = below(seeds, "seed_dataset.extxyz"@);
            let plain = below(seeds, "seed_dataset.xyz"@);
            &&& dft.first(ctx, files) is Ask <==> files.contains(selected) || ctx.dry_run && (
            files.contains(extended) || files.contains(plain))
            &&& dft.first(ctx, files) matches Progress::Ask { call, stage } ==> {
                &&& call matches Call::ConfigurationCount { structures }
                &&& files.contains(selected) ==> structures == selected
                &&& !files.contains(selected) && files.contains(extended) ==> structures == extended
                &&& !files.contains(selected) && !files.contains(extended) ==> structures == plain
                &&& dft.next(ctx, stage, Reply::Count(count)) matches Progress::Ask {
                    call: second,
                    stage: later,
                }
                &&& count == 0 || ctx.dry_config_limit == Some(0usize) ==> second is ArrayScript
                &&& count > 0 && ctx.dry_config_limit != Some(0usize) ==> {
                    &&& second matches Call::RunDirectory { structures: source, index, .. }
                    &&& source == structures
                    &&& index == 0
                }
            }
        }),
{
}

/// One calculation is prepared after the other: where a directory was asked for, a stand-in for its
/// result is asked for in that directory, and then the directory of the next structure of the same
/// file, or after the last the job script for as many as there are, which is the one that is submitted.
pub proof fn law_calculations_follow_each_other(
    step: DftStep,
    ctx: PipelineCtx,
    structures: Text,
    count: usize,
    index: usize,
    script: Text,
)
    requires
        index < count,
    ensures
        ({
            let dft = PipelineStep::Dft(step);
            let asked = step.ask_for(ctx, structures, count, index);
            &&& asked matches Progress::Ask { call, stage }
            &&& call matches Call::RunDirectory {
                run_name,
                structures: source,
                generation_dir,
                index: place,
                ..
            }
            &&& source == structures
            &&& place == index
            &&& dft.next(ctx, stage, Reply::Done) matches Progress::Ask {
                call: Call::MockOutcar { run_dir, index: same },
                stage: later,
            }
            &&& run_dir == below(generation_dir, run_name)
            &&& same == index
            &&& dft.next(ctx, later, Reply::Done) matches Progress::Ask {
                call: third,
                stage: last,
            }
            &&& index + 1 < count ==> (third matches Call::RunDirectory {
                structures: again,
                index: next,
                ..
            } && again == structures && next == index + 1)
            &&& index + 1 == count ==> {
                &&& third matches Call::ArrayScript { count: all, generation_dir: dir, .. }
                &&& all == count
                &&& dir == generation_dir
                &&& dft.next(ctx, last, Reply::Path(script)) == Progress::Ready(
                    StepPlan::Slurm { script },
                )
            }
        }),
{
}

/// Whether a reply answers a call, or says why it could not be done: how many structures there are,
/// where a job script or its directory lies, where two of them lie, or that something was done.
pub open spec fn fits(call: Call<Text>, reply: Reply<Text>) -> bool {
    reply is Failed || match call {
        Call::ConfigurationCount { .. } => reply is Count,
        Call::UpetWorkspace { .. }
        | Call::MdWorkspace { .. }
        | Call::ArrayScript { .. }
        | Call::DisagreementScript { .. } => reply is Path,
        Call::N2p2Workspace { .. } => reply is Scripts,
        _ => reply is Done,
    }
}

/// A step that asks for something waits for the replies that answer it, and for no others.
pub proof fn law_steps_wait_for_what_they_asked(
    step: PipelineStep,
    ctx: PipelineCtx,
    files: Set<Text>,
    stage: Stage<Text>,
    reply: Reply<Text>,
    later: Reply<Text>,
)
    requires
        step.reaches(stage),
        stage.awaits(reply),
    ensures
        step.first(ctx, files) matches Progress::Ask { call, stage: asked } ==> (asked.awaits(later)
            <==> fits(call, later)),
        step.next(ctx, stage, reply) matches Progress::Ask { call, stage: asked } ==> (asked.awaits(
            later,
        ) <==> fits(call, later)),
{
}

/// What a call names is what its fields hold.
pub proof fn law_calls_name_what_they_hold(call: Call<String>)
    ensures
        project_of(call@) == option_view(project_of(call)),
        setup_of(call@) == option_view(setup_of(call)),
        generation_of(call@) == generation_of(call),
        members_of(call@) == members_of(call),
        call matches Call::UpetWorkspace { foundation, training_key, .. } ==> (
        call@ matches Call::UpetWorkspace { foundation: f, training_key: k, .. } && f == foundation@
            && k == training_key@),
        call matches Call::N2p2MemoryReport { generation_dir, training_script, .. } ==> (
        call@ matches Call::N2p2MemoryReport { generation_dir: d, training_script: s, .. } && d
            == generation_dir@ && s == training_script@),
        call matches Call::ConfigurationCount { structures } ==> (
        call@ matches Call::ConfigurationCount { structures: s } && s == structures@),
        call matches Call::RunDirectory { run_name, structures, generation_dir, index, .. } ==> (
        call@ matches Call::RunDirectory {
            run_name: n,
            structures: s,
            generation_dir: d,
            index: i,
            ..
        } && n == run_name@ && s == structures@ && d == generation_dir@ && i == index),
        call matches Call::MockOutcar { run_dir, index } ==> (call@ matches Call::MockOutcar {
            run_dir: d,
            index: i,
        } && d == run_dir@ && i == index),
        call matches Call::ArrayScript { generation_dir, count, .. } ==> (
        call@ matches Call::ArrayScript { generation_dir: d, count: n, .. } && d == generation_dir@
            && n == count),
{
}

} // verus!
