//! The configuration of a project.
use crate::backend::{
    DftCode, DisagreementMode, EnergyMode, MdEngine, MdModelPackage, ModelBackend, QbcMethod,
};
use crate::number::{decimal, decimal_of};
use crate::paths::{below, child};
use crate::pipeline::{
    DftStep, MdStep, Pipeline, PipelineCtx, PipelineStep, QbcStep, StepCtx, TrainingStep,
};
use crate::runner::Runner;
use crate::selection::{DisagreementSettings, Threshold};
use crate::text::{Text, option_view, result_view, same, text4, text5};
use vstd::prelude::*;

verus! {

/// How disagreement is computed and which structures are selected by it; what is not given has a
/// default.
#[derive(Debug)]
pub struct DisagreementConfig {
    /// How disagreement is computed.
    pub mode: Option<DisagreementMode>,
    /// How many structures are selected at most.
    pub max_selected: Option<usize>,
    /// Structures with less disagreement are too certain.
    pub min_rrmse: Option<Threshold>,
    /// Structures with more disagreement are too suspicious.
    pub max_rrmse: Option<Threshold>,
}

/// Whether a threshold is the one that is given, or has the default value where none is.
pub open spec fn is_threshold(
    threshold: Threshold,
    given: Option<Threshold>,
    bits: u64,
    text: Text,
) -> bool {
    match given {
        Some(t) => threshold == t,
        None => threshold.value.bits == bits && threshold.text@ == text,
    }
}

/// Whether settings are those of a configuration.
pub open spec fn are_settings(
    settings: DisagreementSettings,
    max_selected: Option<usize>,
    min_rrmse: Option<Threshold>,
    max_rrmse: Option<Threshold>,
) -> bool {
    &&& settings.max_selected == match max_selected {
        Some(n) => n,
        None => 8,
    }
    &&& settings.bootstrap_max_selected is None
    &&& is_threshold(settings.min_rrmse, min_rrmse, 0x3f94_7ae1_47ae_147b, "0.02"@)
    &&& is_threshold(settings.max_rrmse, max_rrmse, 0x3fd9_9999_9999_999a, "0.4"@)
}

impl DisagreementConfig {
    /// How disagreement is computed: by a stand-in, unless something else is given.
    pub fn mode(&self) -> (r: DisagreementMode)
        ensures
            r == match self.mode {
                Some(mode) => mode,
                None => DisagreementMode::Mock,
            },
    {
        match self.mode {
            Some(mode) => mode,
            None => DisagreementMode::Mock,
        }
    }

    /// Which structures are selected.
    pub fn settings(&self) -> (r: DisagreementSettings)
        ensures
            are_settings(r, self.max_selected, self.min_rrmse, self.max_rrmse),
    {
        let defaults = DisagreementSettings::default();
        DisagreementSettings {
            max_selected: match self.max_selected {
                Some(n) => n,
                None => defaults.max_selected,
            },
            bootstrap_max_selected: defaults.bootstrap_max_selected,
            min_rrmse: match &self.min_rrmse {
                Some(threshold) => threshold.clone(),
                None => defaults.min_rrmse,
            },
            max_rrmse: match &self.max_rrmse {
                Some(threshold) => threshold.clone(),
                None => defaults.max_rrmse,
            },
        }
    }
}

/// The configuration of a project.
#[derive(Debug)]
pub struct Config {
    /// How many generations there are.
    pub generations: u32,
    /// The kind of model.
    pub backend: ModelBackend,
    /// Which energies are trained on.
    pub energy_mode: EnergyMode,
    /// How many models are trained in each generation.
    pub members: usize,
    /// How disagreement is computed, where that is configured.
    pub disagreement: Option<DisagreementConfig>,
    /// What runs the steps, where that is configured.
    pub runner: Option<Runner>,
}

/// What the steps of all generations have in common.
pub open spec fn is_step_ctx(ctx: StepCtx, project_dir: Text) -> bool {
    let setup_dir = below(project_dir, "setup"@);
    &&& ctx.working_dir@ == project_dir
    &&& ctx.setup_dir@ == setup_dir
    &&& ctx.template@ == below(setup_dir, "jobscripts"@)
}

/// What the steps of all generations have in common.
fn step_ctx(project_dir: &str) -> (r: StepCtx)
    ensures
        is_step_ctx(r, project_dir@),
{
    let setup_dir = child(project_dir, "setup");
    let template = child(setup_dir.as_str(), "jobscripts");
    StepCtx::new(project_dir.to_owned(), setup_dir, template)
}

impl Config {
    /// How disagreement is computed.
    pub open spec fn disagreement_kind(self) -> DisagreementMode {
        match self.disagreement {
            Some(DisagreementConfig { mode: Some(mode), .. }) => mode,
            _ => DisagreementMode::Mock,
        }
    }

    /// Whether settings are those that select structures.
    pub open spec fn selects_by(self, settings: DisagreementSettings) -> bool {
        match self.disagreement {
            Some(d) => are_settings(settings, d.max_selected, d.min_rrmse, d.max_rrmse),
            None => are_settings(settings, None, None, None),
        }
    }

    /// Whether a foundation model is needed: to be fine-tuned, or to align energies to.
    pub open spec fn needs_checkpoint(self) -> bool {
        self.backend is Upet || self.energy_mode is Pet
    }

    /// Whether a step is the training step of the project.
    pub open spec fn is_training(
        self,
        step: PipelineStep,
        project_dir: Text,
        checkpoint: Option<Text>,
    ) -> bool {
        &&& step matches PipelineStep::Training(training)
        &&& training.model_backend == self.backend
        &&& is_step_ctx(training.ctx, project_dir)
        &&& training.committee_members == self.members
        &&& option_view(training.checkpoint) == checkpoint
        &&& training.energy_mode == self.energy_mode
    }

    /// Whether a step is the simulation step of the project.
    pub open spec fn is_md(self, step: PipelineStep, project_dir: Text) -> bool {
        &&& step matches PipelineStep::Md(md)
        &&& md.engine is Lammps
        &&& is_step_ctx(md.ctx, project_dir)
        &&& md.committee_members == self.members
        &&& md.model_package == Some(
            match self.backend {
                ModelBackend::Upet => MdModelPackage::UpetModel,
                ModelBackend::N2p2 => MdModelPackage::N2p2Inputs,
            },
        )
    }

    /// Whether a step is the selection step of the project.
    pub open spec fn is_qbc(self, step: PipelineStep, project_dir: Text) -> bool {
        &&& step matches PipelineStep::Qbc(qbc)
        &&& qbc.method is Rrmsfd
        &&& is_step_ctx(qbc.ctx, project_dir)
        &&& qbc.backend == self.backend
        &&& qbc.committee_members == self.members
        &&& self.selects_by(qbc.settings)
        &&& qbc.mode == self.disagreement_kind()
    }

    /// Whether a step is the step of reference calculations of the project.
    pub open spec fn is_dft(self, step: PipelineStep, project_dir: Text) -> bool {
        &&& step matches PipelineStep::Dft(dft)
        &&& dft.dft_code is Vasp
        &&& is_step_ctx(dft.ctx, project_dir)
    }

    /// Whether a pipeline is that of the project: training, simulations, selection and reference
    /// calculations, in this order.
    pub open spec fn is_pipeline(
        self,
        pipeline: Pipeline,
        project_dir: Text,
        checkpoint: Option<Text>,
    ) -> bool {
        &&& pipeline.steps@.len() == 4
        &&& self.is_training(pipeline.steps@[0], project_dir, checkpoint)
        &&& self.is_md(pipeline.steps@[1], project_dir)
        &&& self.is_qbc(pipeline.steps@[2], project_dir)
        &&& self.is_dft(pipeline.steps@[3], project_dir)
    }

    /// How disagreement is computed.
    pub fn disagreement_mode(&self) -> (r: DisagreementMode)
        ensures
            r == self.disagreement_kind(),
    {
        match &self.disagreement {
            Some(disagreement) => disagreement.mode(),
            None => DisagreementMode::Mock,
        }
    }

    /// Which structures are selected.
    pub fn disagreement_settings(&self) -> (r: DisagreementSettings)
        ensures
            self.selects_by(r),
    {
        match &self.disagreement {
            Some(disagreement) => disagreement.settings(),
            None => DisagreementSettings::default(),
        }
    }

    /// What runs the steps: a scheduler, unless something else is given.
    pub fn runner(&self) -> (r: Runner)
        ensures
            r == match self.runner {
                Some(runner) => runner,
                None => Runner::Slurm,
            },
    {
        match self.runner {
            Some(runner) => runner,
            None => Runner::Slurm,
        }
    }

    /// Whether a foundation model is needed.
    pub fn checkpoint_required(&self) -> (r: bool)
        ensures
            r == self.needs_checkpoint(),
    {
        match (self.backend, self.energy_mode) {
            (ModelBackend::N2p2, EnergyMode::Raw) => false,
            _ => true,
        }
    }

    /// The pipeline of every generation.
    pub fn pipeline(&self, project_dir: &str, checkpoint: Option<String>) -> (r: Pipeline)
        ensures
            self.is_pipeline(r, project_dir@, option_view(checkpoint)),
    {
        let model_package = match self.backend {
            ModelBackend::Upet => MdModelPackage::UpetModel,
            ModelBackend::N2p2 => MdModelPackage::N2p2Inputs,
        };
        let mut steps: Vec<PipelineStep> = Vec::new();
        steps.push(
            PipelineStep::Training(
                TrainingStep::new(
                    self.backend,
                    step_ctx(project_dir),
                    self.members,
                    checkpoint,
                    self.energy_mode,
                ),
            ),
        );
        steps.push(
            PipelineStep::Md(
                MdStep::new(
                    MdEngine::Lammps,
                    step_ctx(project_dir),
                    self.members,
                    Some(model_package),
                ),
            ),
        );
        steps.push(
            PipelineStep::Qbc(
                QbcStep::new(
                    QbcMethod::Rrmsfd,
                    step_ctx(project_dir),
                    self.backend,
                    self.members,
                    self.disagreement_settings(),
                    self.disagreement_mode(),
                ),
            ),
        );
        steps.push(PipelineStep::Dft(DftStep::new(DftCode::Vasp, step_ctx(project_dir))));
        Pipeline::new(steps)
    }

    /// What the steps of a generation have in common.
    pub fn context(&self, project_dir: &str, generation: u32) -> (r: PipelineCtx)
        ensures
            r.project_dir@ == project_dir@,
            r.generation == generation,
            r.poll_interval == 30,
            r.max_retries == 0,
            !r.dry_run,
            r.dry_config_limit is None,
    {
        PipelineCtx {
            project_dir: project_dir.to_owned(),
            generation,
            poll_interval: 30,
            max_retries: 0,
            dry_run: false,
            dry_config_limit: None,
        }
    }

    /// What the run of all generations comes to when `done` of them have been run and the last of
    /// these ended in `last`.
    pub open spec fn after_generations(self, done: u32, last: Result<(), Text>) -> GenerationProgress<
        Text,
    > {
        match last {
            Err(e) => GenerationProgress::Failed {
                notice: " ❌ Generation "@ + decimal_of(done as nat) + " failed: "@ + e,
            },
            Ok(_) => if done < self.generations {
                GenerationProgress::Start {
                    generation: (done + 1) as u32,
                    notice: "\n🌀 Starting Generation "@ + decimal_of((done + 1) as nat) + "/"@
                        + decimal_of(self.generations as nat) + "..."@,
                }
            } else {
                GenerationProgress::Finished
            },
        }
    }

    /// What the run of all generations comes to when `done` of them have been run and the last of
    /// these ended in `last`.
    pub fn next_generation(&self, done: u32, last: Result<(), String>) -> (r: GenerationProgress<
        String,
    >)
        ensures
            r@ == self.after_generations(done, result_view(last)),
    {
        match last {
            Err(e) => {
                let number = decimal(done as u64);
                GenerationProgress::Failed {
                    notice: text4(" ❌ Generation ", number.as_str(), " failed: ", e.as_str()),
                }
            },
            Ok(_) => if done < self.generations {
                let number = decimal((done + 1) as u64);
                let total = decimal(self.generations as u64);
                GenerationProgress::Start {
                    generation: done + 1,
                    notice: text5(
                        "\n🌀 Starting Generation ",
                        number.as_str(),
                        "/",
                        total.as_str(),
                        "...",
                    ),
                }
            } else {
                GenerationProgress::Finished
            },
        }
    }
}

/// What the run of all generations comes to next.
#[derive(Debug)]
pub enum GenerationProgress<T> {
    /// A generation is run.
    Start {
        /// The generation.
        generation: u32,
        /// What is said of it.
        notice: T,
    },
    /// All generations have been run.
    Finished,
    /// A generation has failed.
    Failed {
        /// What is said of it.
        notice: T,
    },
}

impl<T: View> View for GenerationProgress<T> {
    type V = GenerationProgress<T::V>;

    open spec fn view(&self) -> GenerationProgress<T::V> {
        match *self {
            GenerationProgress::Start { generation, notice } => GenerationProgress::Start {
                generation,
                notice: notice@,
            },
            GenerationProgress::Finished => GenerationProgress::Finished,
            GenerationProgress::Failed { notice } => GenerationProgress::Failed {
                notice: notice@,
            },
        }
    }
}

/// Whether the arguments of the program ask for its installation to be set up.
pub fn wants_initialization(arguments: &Vec<String>) -> (r: bool)
    ensures
        r == (arguments@.len() > 1 && (arguments@[1]@ == "--init"@ || arguments@[1]@ == "init"@)),
{
    arguments.len() > 1 && (same(arguments[1].as_str(), "--init") || same(
        arguments[1].as_str(),
        "init",
    ))
}

/// A project that does not say how disagreement is computed has it computed by a stand-in.
pub proof fn law_mock_is_the_default(config: Config)
    requires
        config.disagreement is None || config.disagreement->0.mode is None,
    ensures
        config.disagreement_kind() is Mock,
{
}

/// The generations are run from the first to the last, until one fails.
pub proof fn law_generations_run_in_order(config: Config, done: u32, error: Text)
    ensures
        config.after_generations(done, Err(error)) is Failed,
        done < config.generations ==> (config.after_generations(done, Ok(()))
            matches GenerationProgress::Start { generation, .. } && generation == done + 1),
        done >= config.generations ==> config.after_generations(done, Ok(())) is Finished,
{
}

} // verus!
