//! What a configuration makes of a project.
use crate::call_laws::{
    generation_of, law_preparation_asks_in_its_own_name, members_of, project_of, setup_of,
};
use crate::calls::{Progress, Reply, Stage};
use crate::config::{Config, GenerationProgress};
use crate::number::decimal_of;
use crate::paths::below;
use crate::pipeline::{Pipeline, PipelineCtx, PipelineStep, StepCtx};
use crate::preflight::{SetupEntry, checkpoint_of};
use crate::requirement_laws::{is_checkpoint, law_first_checkpoint_is_taken};
use crate::selection::DisagreementSettings;
use crate::text::Text;
use vstd::prelude::*;

verus! {

/// Whether a step works in a project.
pub open spec fn works_in(ctx: StepCtx, project_dir: Text) -> bool {
    &&& ctx.working_dir@ == project_dir
    &&& ctx.setup_dir@ == below(project_dir, "setup"@)
    &&& ctx.template@ == below(below(project_dir, "setup"@), "jobscripts"@)
}

/// The pipeline of a project trains, simulates, selects and calculates, in this order. Each step works
/// in the project, with the committee, the kind of model and the energies that are configured, and
/// with the foundation model that is given. A simulation takes what its kind of model gives.
pub proof fn law_pipelines_are_as_configured(
    config: Config,
    pipeline: Pipeline,
    project_dir: Text,
    checkpoint: Option<Text>,
)
    requires
        config.is_pipeline(pipeline, project_dir, checkpoint),
    ensures
        ({
            let steps = pipeline.steps@;
            &&& steps.len() == 4
            &&& steps[0] matches PipelineStep::Training(training)
            &&& works_in(training.ctx, project_dir)
            &&& training.committee_members == config.members
            &&& training.model_backend is Upet <==> config.backend is Upet
            &&& training.energy_mode is Pet <==> config.energy_mode is Pet
            &&& training.checkpoint is Some <==> checkpoint is Some
            &&& training.checkpoint matches Some(path) ==> path@ == checkpoint->0
            &&& steps[1] matches PipelineStep::Md(md)
            &&& works_in(md.ctx, project_dir)
            &&& md.committee_members == config.members
            &&& md.model_package is Some
            &&& md.model_package->0 is UpetModel <==> config.backend is Upet
            &&& md.model_package->0 is N2p2Inputs <==> config.backend is N2p2
            &&& steps[2] matches PipelineStep::Qbc(qbc)
            &&& works_in(qbc.ctx, project_dir)
            &&& qbc.committee_members == config.members
            &&& qbc.backend is Upet <==> config.backend is Upet
            &&& qbc.mode is Real <==> (config.disagreement matches Some(d)
                && d.mode matches Some(mode) && mode is Real)
            &&& is_selected_by(config, qbc.settings)
            &&& steps[3] matches PipelineStep::Dft(dft)
            &&& works_in(dft.ctx, project_dir)
        }),
{
    law_settings_are_as_configured(config, pipeline.steps@[2]->Qbc_0.settings);
}

/// Whether settings are those that are configured: no more structures than are configured, or eight;
/// none that disagree less than is configured, or than 0.02; and none that disagree more than is
/// configured, or than 0.4.
pub open spec fn is_selected_by(config: Config, settings: DisagreementSettings) -> bool {
    let given = config.disagreement;
    &&& settings.bootstrap_max_selected is None
    &&& (given matches Some(d) && d.max_selected is Some) ==> settings.max_selected
        == given->0.max_selected->0
    &&& !(given matches Some(d) && d.max_selected is Some) ==> settings.max_selected == 8
    &&& (given matches Some(d) && d.min_rrmse is Some) ==> settings.min_rrmse
        == given->0.min_rrmse->0
    &&& !(given matches Some(d) && d.min_rrmse is Some) ==> settings.min_rrmse.text@ == "0.02"@
        && settings.min_rrmse.value.bits == 0x3f94_7ae1_47ae_147b
    &&& (given matches Some(d) && d.max_rrmse is Some) ==> settings.max_rrmse
        == given->0.max_rrmse->0
    &&& !(given matches Some(d) && d.max_rrmse is Some) ==> settings.max_rrmse.text@ == "0.4"@
        && settings.max_rrmse.value.bits == 0x3fd9_9999_9999_999a
}

/// Structures are selected as is configured.
pub proof fn law_settings_are_as_configured(config: Config, settings: DisagreementSettings)
    requires
        config.selects_by(settings),
    ensures
        is_selected_by(config, settings),
{
}

/// Whatever the steps of a project ask for in a generation, they ask for in the name of the project,
/// of its setup, its committee and the generation.
pub proof fn law_pipelines_ask_in_the_name_of_their_project(
    config: Config,
    pipeline: Pipeline,
    checkpoint: Option<Text>,
    ctx: PipelineCtx,
    files: Set<Text>,
    stage: Stage<Text>,
    reply: Reply<Text>,
    k: int,
)
    requires
        config.is_pipeline(pipeline, ctx.project_dir@, checkpoint),
        0 <= k < 4,
        pipeline.steps@[k].reaches(stage),
        stage.awaits(reply),
    ensures
        forall|progress: Progress<Text>|
            progress == pipeline.steps@[k].first(ctx, files) || progress
                == pipeline.steps@[k].next(ctx, stage, reply) ==> (#[trigger] is_asked_for(
                progress,
                config,
                ctx,
            )),
{
    law_preparation_asks_in_its_own_name(pipeline.steps@[k], ctx, files, stage, reply);
}

/// Whether what a step asks for, where it asks for something, is in the name of a project.
pub open spec fn is_asked_for(progress: Progress<Text>, config: Config, ctx: PipelineCtx) -> bool {
    progress matches Progress::Ask { call, .. } ==> {
        &&& project_of(call) matches Some(project_dir) ==> project_dir == ctx.project_dir@
        &&& setup_of(call) matches Some(setup_dir) ==> setup_dir == below(
            ctx.project_dir@,
            "setup"@,
        )
        &&& generation_of(call) matches Some(generation) ==> generation == ctx.generation
        &&& members_of(call) matches Some(n) ==> n == config.members
    }
}

/// Training is given a foundation model where it is fine-tuned or its energies are aligned to one: the
/// first among the training files of the setup.
pub proof fn law_training_is_given_the_first_checkpoint(config: Config, entries: Seq<SetupEntry>)
    ensures
        match checkpoint_of(config, entries) {
            Some(path) => {
                &&& config.backend is Upet || config.energy_mode is Pet
                &&& exists|i: int|
                    {
                        &&& 0 <= i < entries.len()
                        &&& (#[trigger] entries[i]).path@ == path
                        &&& is_checkpoint(entries[i])
                        &&& forall|j: int| 0 <= j < i ==> !is_checkpoint(#[trigger] entries[j])
                    }
            },
            None => {
                ||| config.backend is N2p2 && config.energy_mode is Raw
                ||| forall|i: int|
                    0 <= i < entries.len() ==> !is_checkpoint(#[trigger] entries[i])
            },
        },
{
    law_first_checkpoint_is_taken(entries);
}

/// One generation is run after the other, and each is announced by its number and how many there are.
/// A generation that fails is reported by its number, with the reason, and no other is run.
pub proof fn law_generations_are_announced(config: Config, done: u32, error: Text)
    ensures
        config.after_generations(done, Err(error)) == (GenerationProgress::Failed {
            notice: " ❌ Generation "@ + decimal_of(done as nat) + " failed: "@ + error,
        }),
        done < config.generations ==> config.after_generations(done, Ok(()))
            == (GenerationProgress::Start {
            generation: (done + 1) as u32,
            notice: "\n🌀 Starting Generation "@ + decimal_of((done + 1) as nat) + "/"@
                + decimal_of(config.generations as nat) + "..."@,
        }),
        done >= config.generations ==> config.after_generations(done, Ok(()))
            == GenerationProgress::Finished::<Text>,
{
}

} // verus!
