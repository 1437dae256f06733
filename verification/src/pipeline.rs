//! The steps of a generation: what each requires, how it is prepared, and how it ends.
use crate::backend::{
    DftCode, DisagreementMode, EnergyMode, MdEngine, MdModelPackage, ModelBackend, QbcMethod,
};
use crate::calls::{Call, Completion, CompletionStage, Progress, Reply, Stage};
use crate::dataset::{dry_seed_dataset, seed_dataset};
use crate::effects::{Files, Requirement, all_present, check_present, requirement};
use crate::job::{FinishedData, StepPlan, completed, debug_of, ensure_completed, other_name};
use crate::number::{decimal, decimal_of};
use crate::paths::{
    below, child, descendant, generation_dir, generation_part, grandchild, selected_file,
    selected_structures,
};
use crate::selection::DisagreementSettings;
use crate::text::{Text, option_view, pad_left, padded_left, result_view, text2, views};
use vstd::pervasive::unreached;
use vstd::prelude::*;

verus! {

/// What the steps of a generation have in common.
#[derive(Debug)]
pub struct PipelineCtx {
    /// The project.
    pub project_dir: String,
    /// The generation.
    pub generation: u32,
    /// How many seconds pass between two looks at a job.
    pub poll_interval: u64,
    /// How often a job that ran out of time is submitted again.
    pub max_retries: u32,
    /// Whether nothing is to be submitted.
    pub dry_run: bool,
    /// How many structures are prepared at most, where that is limited.
    pub dry_config_limit: Option<usize>,
}

/// Where a step finds its files.
#[derive(Debug)]
pub struct StepCtx {
    /// The directory in which it works.
    pub working_dir: String,
    /// The setup of the project.
    pub setup_dir: String,
    /// The templates of job scripts.
    pub template: String,
}

impl StepCtx {
    /// A context of the given directories.
    pub fn new(working_dir: String, setup_dir: String, template: String) -> (r: StepCtx)
        ensures
            r == (StepCtx { working_dir, setup_dir, template }),
    {
        StepCtx { working_dir, setup_dir, template }
    }
}

/// A file of the setup that has to be there.
pub open spec fn setup_requirement(
    label: Text,
    setup_dir: Text,
    part: Text,
    name: Text,
) -> Requirement<Text> {
    Requirement { label, path: below(below(setup_dir, part), name) }
}

/// A file of the setup that has to be there.
pub fn require_setup(label: &str, setup_dir: &str, part: &str, name: &str) -> (r: Requirement<
    String,
>)
    ensures
        r@ == setup_requirement(label@, setup_dir@, part@, name@),
{
    requirement(label, grandchild(setup_dir, part, name))
}

/// The step that runs the simulations.
#[derive(Debug)]
pub struct MdStep {
    /// The program.
    pub engine: MdEngine,
    /// Where its files lie.
    pub ctx: StepCtx,
    /// How many models there are.
    pub committee_members: usize,
    /// What a simulation needs of a model, where it needs one.
    pub model_package: Option<MdModelPackage>,
}

impl MdStep {
    /// The step for a committee.
    pub fn new(
        engine: MdEngine,
        ctx: StepCtx,
        committee_members: usize,
        model_package: Option<MdModelPackage>,
    ) -> (r: MdStep)
        ensures
            r == (MdStep { engine, ctx, committee_members, model_package }),
    {
        MdStep { engine, ctx, committee_members, model_package }
    }

    /// The files that have to be there.
    pub open spec fn requirements(self) -> Seq<Requirement<Text>> {
        seq![
            Requirement {
                label: "missing LAMMPS data file"@,
                path: below(below(below(self.ctx.setup_dir@, "lammps"@), "data"@), "lmp.data"@),
            },
            setup_requirement(
                "missing MD job template"@,
                self.ctx.setup_dir@,
                "jobscripts"@,
                "md_array.sh.template"@,
            ),
        ]
    }

    /// Whether the step has what it needs.
    pub open spec fn validity(self, files: Set<Text>, input: Result<Text, Text>) -> Result<
        (),
        Text,
    > {
        if self.committee_members == 0 {
            Err("MD step requires at least one committee member"@)
        } else {
            match input {
                Err(e) => Err(e),
                Ok(_) => all_present(self.requirements(), files),
            }
        }
    }

    /// Whether the step has what it needs. `input` is the input file of the generation, or why there
    /// is none.
    pub fn validate_required_files(&self, files: &Files, input: &Result<String, String>) -> (r:
        Result<(), String>)
        ensures
            result_view(r) == self.validity(files@, result_view(*input)),
    {
        if self.committee_members == 0 {
            return Err("MD step requires at least one committee member".to_owned());
        }
        if let Err(e) = input {
            return Err(e.clone());
        }
        check_present(&self.required(), files)
    }

    /// The files that have to be there.
    pub fn required(&self) -> (r: Vec<Requirement<String>>)
        ensures
            views(r@) == self.requirements(),
    {
        let setup_dir = self.ctx.setup_dir.as_str();
        let mut required: Vec<Requirement<String>> = Vec::new();
        required.push(
            requirement(
                "missing LAMMPS data file",
                descendant(setup_dir, "lammps", "data", "lmp.data"),
            ),
        );
        required.push(
            require_setup(
                "missing MD job template",
                setup_dir,
                "jobscripts",
                "md_array.sh.template",
            ),
        );
        assert(views(required@) =~= self.requirements());
        required
    }

    /// What the step asks for to be prepared.
    pub open spec fn first(self, ctx: PipelineCtx) -> Progress<Text> {
        Progress::Ask {
            call: Call::MdWorkspace {
                project_dir: ctx.project_dir@,
                setup_dir: self.ctx.setup_dir@,
                generation: ctx.generation,
                committee_members: self.committee_members,
                model_package: self.model_package,
            },
            stage: Stage::MdWorkspace,
        }
    }

    /// What the preparation comes to after a reply.
    pub open spec fn next(self, reply: Reply<Text>) -> Progress<Text> {
        match reply {
            Reply::Failed(e) => Progress::Failed(e),
            _ => Progress::Ready(
                StepPlan::Slurm { script: below(reply->Path_0, "submit_array.sh"@) },
            ),
        }
    }

    /// Begins to prepare the step.
    pub fn prepare(&self, ctx: &PipelineCtx) -> (r: Progress<String>)
        ensures
            r@ == self.first(*ctx),
    {
        Progress::Ask {
            call: Call::MdWorkspace {
                project_dir: ctx.project_dir.clone(),
                setup_dir: self.ctx.setup_dir.clone(),
                generation: ctx.generation,
                committee_members: self.committee_members,
                model_package: self.model_package,
            },
            stage: Stage::MdWorkspace,
        }
    }

    /// Goes on to prepare the step.
    pub fn resume(&self, reply: Reply<String>) -> (r: Progress<String>)
        requires
            Stage::MdWorkspace.awaits(reply@),
        ensures
            r@ == self.next(reply@),
    {
        match reply {
            Reply::Path(dir) => Progress::Ready(
                StepPlan::Slurm { script: child(dir.as_str(), "submit_array.sh") },
            ),
            Reply::Failed(e) => Progress::Failed(e),
            _ => unreached(),
        }
    }
}

/// The step that runs the reference calculations.
#[derive(Debug)]
pub struct DftStep {
    /// The program.
    pub dft_code: DftCode,
    /// Where its files lie.
    pub ctx: StepCtx,
}

/// The name of the directory of a reference calculation.
pub open spec fn config_name(index: usize) -> Text {
    "config_"@ + padded_left(decimal_of(index as nat), 3, '0')
}

/// The name of the directory of a reference calculation.
fn run_name(index: usize) -> (r: String)
    ensures
        r@ == config_name(index),
{
    let number = decimal(index as u64);
    let padded = pad_left(number.as_str(), 3, '0');
    text2("config_", padded.as_str())
}

/// How many of `count` structures are prepared.
pub open spec fn limited(count: usize, limit: Option<usize>) -> usize {
    match limit {
        Some(limit) if limit < count => limit,
        _ => count,
    }
}

impl DftStep {
    /// The step with a program.
    pub fn new(dft_code: DftCode, ctx: StepCtx) -> (r: DftStep)
        ensures
            r == (DftStep { dft_code, ctx }),
    {
        DftStep { dft_code, ctx }
    }

    /// The files that have to be there.
    pub open spec fn requirements(self) -> Seq<Requirement<Text>> {
        let setup_dir = self.ctx.setup_dir@;
        seq![
            setup_requirement("missing VASP input"@, setup_dir, "vasp"@, "INCAR"@),
            setup_requirement("missing VASP input"@, setup_dir, "vasp"@, "KPOINTS"@),
            setup_requirement("missing VASP input"@, setup_dir, "vasp"@, "POTCAR"@),
            setup_requirement(
                "missing VASP job template"@,
                setup_dir,
                "jobscripts"@,
                "vasp_array.sh.template"@,
            ),
        ]
    }

    /// Whether the step has what it needs: beside its files, structures to calculate.
    pub open spec fn validity(self, ctx: PipelineCtx, files: Set<Text>) -> Result<(), Text> {
        let selected = selected_file(ctx.project_dir@, ctx.generation);
        match all_present(self.requirements(), files) {
            Err(e) => Err(e),
            Ok(_) => if !files.contains(selected) && seed_dataset(
                ctx.project_dir@,
                files,
            ) is Err {
                Err("missing selected structures and seed dataset for DFT dry-run: "@ + selected)
            } else {
                Ok(())
            },
        }
    }

    /// The files that have to be there.
    pub fn required(&self) -> (r: Vec<Requirement<String>>)
        ensures
            views(r@) == self.requirements(),
    {
        let setup_dir = self.ctx.setup_dir.as_str();
        let mut required: Vec<Requirement<String>> = Vec::new();
        required.push(require_setup("missing VASP input", setup_dir, "vasp", "INCAR"));
        required.push(require_setup("missing VASP input", setup_dir, "vasp", "KPOINTS"));
        required.push(require_setup("missing VASP input", setup_dir, "vasp", "POTCAR"));
        required.push(
            require_setup(
                "missing VASP job template",
                setup_dir,
                "jobscripts",
                "vasp_array.sh.template",
            ),
        );
        assert(views(required@) =~= self.requirements());
        required
    }

    /// Whether the step has what it needs.
    pub fn validate_required_files(&self, ctx: &PipelineCtx, files: &Files) -> (r: Result<
        (),
        String,
    >)
        ensures
            result_view(r) == self.validity(*ctx, files@),
    {
        if let Err(e) = check_present(&self.required(), files) {
            return Err(e);
        }
        let selected = selected_structures(ctx.project_dir.as_str(), ctx.generation);
        if files.is_file(selected.as_str()) {
            return Ok(());
        }
        match dry_seed_dataset(ctx.project_dir.as_str(), files) {
            Ok(_) => Ok(()),
            Err(_) => Err(
                text2(
                    "missing selected structures and seed dataset for DFT dry-run: ",
                    selected.as_str(),
                ),
            ),
        }
    }

    /// The structures that are calculated: those that were selected, and in a dry run else those of
    /// the seed dataset.
    pub open spec fn structures(self, ctx: PipelineCtx, files: Set<Text>) -> Result<Text, Text> {
        let selected = selected_file(ctx.project_dir@, ctx.generation);
        if files.contains(selected) {
            Ok(selected)
        } else if ctx.dry_run {
            seed_dataset(ctx.project_dir@, files)
        } else {
            Err("selected structures file not found: "@ + selected)
        }
    }

    /// What the step asks for to be prepared.
    pub open spec fn first(self, ctx: PipelineCtx, files: Set<Text>) -> Progress<Text> {
        match self.structures(ctx, files) {
            Err(e) => Progress::Failed(e),
            Ok(structures) => Progress::Ask {
                call: Call::ConfigurationCount { structures },
                stage: Stage::Counting { structures },
            },
        }
    }

    /// What the step asks for when the calculations before `index` are prepared: the directory of
    /// that calculation, or the job script when there are no more.
    pub open spec fn ask_for(
        self,
        ctx: PipelineCtx,
        structures: Text,
        count: usize,
        index: usize,
    ) -> Progress<Text> {
        let generation_dir = generation_part(ctx.project_dir@, "vasp_runs"@, ctx.generation);
        if index < count {
            Progress::Ask {
                call: Call::RunDirectory {
                    run_name: config_name(index),
                    structures,
                    generation_dir,
                    setup_dir: self.ctx.setup_dir@,
                    index,
                },
                stage: Stage::RunDirectory { structures, count, index },
            }
        } else {
            Progress::Ask {
                call: Call::ArrayScript {
                    setup_dir: self.ctx.setup_dir@,
                    generation_dir,
                    generation: ctx.generation,
                    count,
                },
                stage: Stage::ArrayScript,
            }
        }
    }

    /// Whether the preparation can have come to a stage.
    pub open spec fn reaches(self, stage: Stage<Text>) -> bool {
        match stage {
            Stage::Counting { .. } | Stage::ArrayScript => true,
            Stage::RunDirectory { count, index, .. } | Stage::Outcar { count, index, .. } => index
                < count,
            _ => false,
        }
    }

    /// What the preparation comes to after a reply.
    pub open spec fn next(
        self,
        ctx: PipelineCtx,
        stage: Stage<Text>,
        reply: Reply<Text>,
    ) -> Progress<Text> {
        let generation_dir = generation_part(ctx.project_dir@, "vasp_runs"@, ctx.generation);
        match (reply, stage) {
            (Reply::Failed(e), _) => Progress::Failed(e),
            (_, Stage::Counting { structures }) => self.ask_for(
                ctx,
                structures,
                limited(reply->Count_0, ctx.dry_config_limit),
                0,
            ),
            (_, Stage::RunDirectory { structures, count, index }) => Progress::Ask {
                call: Call::MockOutcar {
                    run_dir: below(generation_dir, config_name(index)),
                    index,
                },
                stage: Stage::Outcar { structures, count, index },
            },
            (_, Stage::Outcar { structures, count, index }) => self.ask_for(
                ctx,
                structures,
                count,
                (index + 1) as usize,
            ),
            (_, _) => Progress::Ready(StepPlan::Slurm { script: reply->Path_0 }),
        }
    }

    /// Begins to prepare the step.
    pub fn prepare(&self, ctx: &PipelineCtx, files: &Files) -> (r: Progress<String>)
        ensures
            r@ == self.first(*ctx, files@),
    {
        let selected = selected_structures(ctx.project_dir.as_str(), ctx.generation);
        let structures = if files.is_file(selected.as_str()) {
            selected
        } else if ctx.dry_run {
            match dry_seed_dataset(ctx.project_dir.as_str(), files) {
                Ok(path) => path,
                Err(e) => {
                    return Progress::Failed(e);
                },
            }
        } else {
            return Progress::Failed(
                text2("selected structures file not found: ", selected.as_str()),
            );
        };
        Progress::Ask {
            call: Call::ConfigurationCount { structures: structures.clone() },
            stage: Stage::Counting { structures },
        }
    }

    /// Asks for the directory of the next calculation, or for the job script.
    fn ask(&self, ctx: &PipelineCtx, structures: String, count: usize, index: usize) -> (r:
        Progress<String>)
        ensures
            r@ == self.ask_for(*ctx, structures@, count, index),
    {
        let generation_dir = generation_dir(ctx.project_dir.as_str(), "vasp_runs", ctx.generation);
        if index < count {
            Progress::Ask {
                call: Call::RunDirectory {
                    run_name: run_name(index),
                    structures: structures.clone(),
                    generation_dir,
                    setup_dir: self.ctx.setup_dir.clone(),
                    index,
                },
                stage: Stage::RunDirectory { structures, count, index },
            }
        } else {
            Progress::Ask {
                call: Call::ArrayScript {
                    setup_dir: self.ctx.setup_dir.clone(),
                    generation_dir,
                    generation: ctx.generation,
                    count,
                },
                stage: Stage::ArrayScript,
            }
        }
    }

    /// Goes on to prepare the step.
    pub fn resume(&self, ctx: &PipelineCtx, stage: Stage<String>, reply: Reply<String>) -> (r:
        Progress<String>)
        requires
            self.reaches(stage@),
            stage@.awaits(reply@),
        ensures
            r@ == self.next(*ctx, stage@, reply@),
    {
        match (reply, stage) {
            (Reply::Failed(e), _) => Progress::Failed(e),
            (Reply::Count(n), Stage::Counting { structures }) => {
                let count: usize = match ctx.dry_config_limit {
                    Some(limit) if limit < n => limit,
                    _ => n,
                };
                self.ask(ctx, structures, count, 0)
            },
            (Reply::Done, Stage::RunDirectory { structures, count, index }) => {
                let dir = generation_dir(ctx.project_dir.as_str(), "vasp_runs", ctx.generation);
                let name = run_name(index);
                Progress::Ask {
                    call: Call::MockOutcar { run_dir: child(dir.as_str(), name.as_str()), index },
                    stage: Stage::Outcar { structures, count, index },
                }
            },
            (Reply::Done, Stage::Outcar { structures, count, index }) => self.ask(
                ctx,
                structures,
                count,
                index + 1,
            ),
            (Reply::Path(script), Stage::ArrayScript) => Progress::Ready(
                StepPlan::Slurm { script },
            ),
            _ => unreached(),
        }
    }
}

/// The step that trains the models.
#[derive(Debug)]
pub struct TrainingStep {
    /// The kind of model.
    pub model_backend: ModelBackend,
    /// Where its files lie.
    pub ctx: StepCtx,
    /// How many models are trained.
    pub committee_members: usize,
    /// The foundation model, where there is one.
    pub checkpoint: Option<String>,
    /// Which energies are trained on.
    pub energy_mode: EnergyMode,
}

impl TrainingStep {
    /// The step for a committee.
    pub fn new(
        model_backend: ModelBackend,
        ctx: StepCtx,
        committee_members: usize,
        checkpoint: Option<String>,
        energy_mode: EnergyMode,
    ) -> (r: TrainingStep)
        ensures
            r == (TrainingStep { model_backend, ctx, committee_members, checkpoint, energy_mode }),
    {
        TrainingStep { model_backend, ctx, committee_members, checkpoint, energy_mode }
    }

    /// The files that have to be there beside a foundation model.
    pub open spec fn requirements(self) -> Seq<Requirement<Text>> {
        let setup_dir = self.ctx.setup_dir@;
        match self.model_backend {
            ModelBackend::Upet => seq![
                setup_requirement(
                    "missing UPET training config"@,
                    setup_dir,
                    "training"@,
                    "upet.yaml.template"@,
                ),
                setup_requirement(
                    "missing UPET training config"@,
                    setup_dir,
                    "jobscripts"@,
                    "upet_training_array.sh.template"@,
                ),
            ],
            ModelBackend::N2p2 => seq![
                setup_requirement(
                    "missing n2p2 training config"@,
                    setup_dir,
                    "training"@,
                    "input.nn"@,
                ),
                setup_requirement(
                    "missing n2p2 training config"@,
                    setup_dir,
                    "jobscripts"@,
                    "n2p2_scaling_array.sh.template"@,
                ),
                setup_requirement(
                    "missing n2p2 training config"@,
                    setup_dir,
                    "jobscripts"@,
                    "n2p2_training_array.sh.template"@,
                ),
            ],
        }
    }

    /// Whether the step has what it needs.
    pub open spec fn validity(self, files: Set<Text>) -> Result<(), Text> {
        if self.committee_members == 0 {
            Err("training step requires at least one committee member"@)
        } else {
            match (self.model_backend, self.checkpoint) {
                (ModelBackend::Upet, None) => Err("UPET training requires a checkpoint"@),
                (ModelBackend::Upet, Some(path)) if !files.contains(path@) => Err(
                    "checkpoint does not exist: "@ + path@,
                ),
                _ => all_present(self.requirements(), files),
            }
        }
    }

    /// Whether the step has what it needs.
    pub fn validate_required_files(&self, files: &Files) -> (r: Result<(), String>)
        ensures
            result_view(r) == self.validity(files@),
    {
        if self.committee_members == 0 {
            return Err("training step requires at least one committee member".to_owned());
        }
        if let ModelBackend::Upet = self.model_backend {
            match &self.checkpoint {
                None => {
                    return Err("UPET training requires a checkpoint".to_owned());
                },
                Some(path) => if !files.is_file(path.as_str()) {
                    return Err(text2("checkpoint does not exist: ", path.as_str()));
                },
            }
        }
        check_present(&self.required(), files)
    }

    /// The files that have to be there beside a foundation model.
    pub fn required(&self) -> (r: Vec<Requirement<String>>)
        ensures
            views(r@) == self.requirements(),
    {
        let setup_dir = self.ctx.setup_dir.as_str();
        let mut required: Vec<Requirement<String>> = Vec::new();
        match self.model_backend {
            ModelBackend::Upet => {
                let label = "missing UPET training config";
                required.push(require_setup(label, setup_dir, "training", "upet.yaml.template"));
                required.push(
                    require_setup(
                        label,
                        setup_dir,
                        "jobscripts",
                        "upet_training_array.sh.template",
                    ),
                );
            },
            ModelBackend::N2p2 => {
                let label = "missing n2p2 training config";
                required.push(require_setup(label, setup_dir, "training", "input.nn"));
                required.push(
                    require_setup(
                        label,
                        setup_dir,
                        "jobscripts",
                        "n2p2_scaling_array.sh.template",
                    ),
                );
                required.push(
                    require_setup(
                        label,
                        setup_dir,
                        "jobscripts",
                        "n2p2_training_array.sh.template",
                    ),
                );
            },
        }
        assert(views(required@) =~= self.requirements());
        required
    }

    /// What the step asks for to be prepared: the training data, or placeholders in a dry run.
    pub open spec fn first(self, ctx: PipelineCtx) -> Progress<Text> {
        Progress::Ask {
            call: if ctx.dry_run {
                Call::DryDataset {
                    project_dir: ctx.project_dir@,
                    generation: ctx.generation,
                    backend: self.model_backend,
                    checkpoint: option_view(self.checkpoint),
                }
            } else {
                Call::Dataset {
                    project_dir: ctx.project_dir@,
                    generation: ctx.generation,
                    backend: self.model_backend,
                    checkpoint: option_view(self.checkpoint),
                    energy_mode: self.energy_mode,
                }
            },
            stage: Stage::Dataset,
        }
    }

    /// What the step asks for when it has training data: the directories in which models are
    /// trained.
    pub open spec fn ask_workspace(self, ctx: PipelineCtx) -> Progress<Text> {
        match (self.model_backend, self.checkpoint) {
            (ModelBackend::Upet, None) => Progress::Failed("UPET training requires a checkpoint"@),
            (ModelBackend::Upet, Some(checkpoint)) => Progress::Ask {
                call: Call::UpetWorkspace {
                    project_dir: ctx.project_dir@,
                    setup_dir: self.ctx.setup_dir@,
                    generation: ctx.generation,
                    committee_members: self.committee_members,
                    foundation: checkpoint@,
                    training_key: self.energy_mode.key(),
                },
                stage: Stage::UpetWorkspace,
            },
            (ModelBackend::N2p2, _) => Progress::Ask {
                call: Call::N2p2Workspace {
                    project_dir: ctx.project_dir@,
                    setup_dir: self.ctx.setup_dir@,
                    generation: ctx.generation,
                    committee_members: self.committee_members,
                },
                stage: Stage::N2p2Workspace,
            },
        }
    }

    /// Whether the preparation can have come to a stage.
    pub open spec fn reaches(self, stage: Stage<Text>) -> bool {
        match stage {
            Stage::Dataset => true,
            Stage::UpetWorkspace => self.model_backend is Upet,
            Stage::N2p2Workspace
            | Stage::N2p2Scaling { .. }
            | Stage::N2p2Report { .. } => self.model_backend is N2p2,
            _ => false,
        }
    }

    /// What the preparation comes to after a reply.
    pub open spec fn next(
        self,
        ctx: PipelineCtx,
        stage: Stage<Text>,
        reply: Reply<Text>,
    ) -> Progress<Text> {
        match (reply, stage) {
            (Reply::Failed(e), _) => Progress::Failed(e),
            (_, Stage::Dataset) => self.ask_workspace(ctx),
            (_, Stage::N2p2Workspace) => Progress::Ask {
                call: Call::N2p2ScalingOutputs {
                    project_dir: ctx.project_dir@,
                    generation: ctx.generation,
                    committee_members: self.committee_members,
                },
                stage: Stage::N2p2Scaling { script: reply->training },
            },
            (_, Stage::N2p2Scaling { script }) => Progress::Ask {
                call: Call::N2p2MemoryReport {
                    generation_dir: generation_part(
                        ctx.project_dir@,
                        "training"@,
                        ctx.generation,
                    ),
                    training_script: script,
                    committee_members: self.committee_members,
                },
                stage: Stage::N2p2Report { script },
            },
            (_, Stage::N2p2Report { script }) => Progress::Ready(StepPlan::Slurm { script }),
            (_, _) => Progress::Ready(StepPlan::Slurm { script: reply->Path_0 }),
        }
    }

    /// Begins to prepare the step.
    pub fn prepare(&self, ctx: &PipelineCtx) -> (r: Progress<String>)
        ensures
            r@ == self.first(*ctx),
    {
        let call = if ctx.dry_run {
            Call::DryDataset {
                project_dir: ctx.project_dir.clone(),
                generation: ctx.generation,
                backend: self.model_backend,
                checkpoint: self.checkpoint.clone(),
            }
        } else {
            Call::Dataset {
                project_dir: ctx.project_dir.clone(),
                generation: ctx.generation,
                backend: self.model_backend,
                checkpoint: self.checkpoint.clone(),
                energy_mode: self.energy_mode,
            }
        };
        Progress::Ask { call, stage: Stage::Dataset }
    }

    /// Asks for the directories in which models are trained.
    fn ask(&self, ctx: &PipelineCtx) -> (r: Progress<String>)
        ensures
            r@ == self.ask_workspace(*ctx),
    {
        match self.model_backend {
            ModelBackend::Upet => match &self.checkpoint {
                None => Progress::Failed("UPET training requires a checkpoint".to_owned()),
                Some(checkpoint) => Progress::Ask {
                    call: Call::UpetWorkspace {
                        project_dir: ctx.project_dir.clone(),
                        setup_dir: self.ctx.setup_dir.clone(),
                        generation: ctx.generation,
                        committee_members: self.committee_members,
                        foundation: checkpoint.clone(),
                        training_key: self.energy_mode.training_key().to_owned(),
                    },
                    stage: Stage::UpetWorkspace,
                },
            },
            ModelBackend::N2p2 => Progress::Ask {
                call: Call::N2p2Workspace {
                    project_dir: ctx.project_dir.clone(),
                    setup_dir: self.ctx.setup_dir.clone(),
                    generation: ctx.generation,
                    committee_members: self.committee_members,
                },
                stage: Stage::N2p2Workspace,
            },
        }
    }

    /// Goes on to prepare the step.
    pub fn resume(&self, ctx: &PipelineCtx, stage: Stage<String>, reply: Reply<String>) -> (r:
        Progress<String>)
        requires
            self.reaches(stage@),
            stage@.awaits(reply@),
        ensures
            r@ == self.next(*ctx, stage@, reply@),
    {
        match (reply, stage) {
            (Reply::Failed(e), _) => Progress::Failed(e),
            (Reply::Done, Stage::Dataset) => self.ask(ctx),
            (Reply::Path(script), Stage::UpetWorkspace) => Progress::Ready(
                StepPlan::Slurm { script },
            ),
            (Reply::Scripts { training, .. }, Stage::N2p2Workspace) => Progress::Ask {
                call: Call::N2p2ScalingOutputs {
                    project_dir: ctx.project_dir.clone(),
                    generation: ctx.generation,
                    committee_members: self.committee_members,
                },
                stage: Stage::N2p2Scaling { script: training },
            },
            (Reply::Done, Stage::N2p2Scaling { script }) => Progress::Ask {
                call: Call::N2p2MemoryReport {
                    generation_dir: generation_dir(
                        ctx.project_dir.as_str(),
                        "training",
                        ctx.generation,
                    ),
                    training_script: script.clone(),
                    committee_members: self.committee_members,
                },
                stage: Stage::N2p2Report { script },
            },
            (Reply::Done, Stage::N2p2Report { script }) => Progress::Ready(
                StepPlan::Slurm { script },
            ),
            _ => unreached(),
        }
    }

    /// What the step asks for when its job has ended.
    pub open spec fn first_completion(self, ctx: PipelineCtx) -> Completion<Text> {
        match self.model_backend {
            ModelBackend::Upet => Completion::Ask {
                call: Call::UpetModels {
                    project_dir: ctx.project_dir@,
                    generation: ctx.generation,
                    committee_members: self.committee_members,
                },
                stage: CompletionStage::UpetModels,
            },
            ModelBackend::N2p2 => Completion::Ask {
                call: Call::N2p2TrainingOutputs {
                    project_dir: ctx.project_dir@,
                    generation: ctx.generation,
                    committee_members: self.committee_members,
                },
                stage: CompletionStage::N2p2TrainingOutputs,
            },
        }
    }

    /// What the completion comes to after something was done, or not.
    pub open spec fn next_completion(
        self,
        ctx: PipelineCtx,
        stage: CompletionStage,
        outcome: Result<(), Text>,
    ) -> Completion<Text> {
        match (outcome, stage) {
            (Err(e), _) => Completion::Failed(e),
            (Ok(_), CompletionStage::N2p2TrainingOutputs) => Completion::Ask {
                call: Call::N2p2BestEpoch {
                    project_dir: ctx.project_dir@,
                    generation: ctx.generation,
                    committee_members: self.committee_members,
                },
                stage: CompletionStage::N2p2BestEpoch,
            },
            (Ok(_), _) => Completion::Done,
        }
    }

    /// Begins to complete the step after its job was completed.
    fn complete(&self, ctx: &PipelineCtx) -> (r: Completion<String>)
        ensures
            r@ == self.first_completion(*ctx),
    {
        match self.model_backend {
            ModelBackend::Upet => Completion::Ask {
                call: Call::UpetModels {
                    project_dir: ctx.project_dir.clone(),
                    generation: ctx.generation,
                    committee_members: self.committee_members,
                },
                stage: CompletionStage::UpetModels,
            },
            ModelBackend::N2p2 => Completion::Ask {
                call: Call::N2p2TrainingOutputs {
                    project_dir: ctx.project_dir.clone(),
                    generation: ctx.generation,
                    committee_members: self.committee_members,
                },
                stage: CompletionStage::N2p2TrainingOutputs,
            },
        }
    }

    /// Goes on to complete the step.
    pub fn resume_completion(
        &self,
        ctx: &PipelineCtx,
        stage: CompletionStage,
        outcome: Result<(), String>,
    ) -> (r: Completion<String>)
        ensures
            r@ == self.next_completion(*ctx, stage, result_view(outcome)),
    {
        match (outcome, stage) {
            (Err(e), _) => Completion::Failed(e),
            (Ok(_), CompletionStage::N2p2TrainingOutputs) => Completion::Ask {
                call: Call::N2p2BestEpoch {
                    project_dir: ctx.project_dir.clone(),
                    generation: ctx.generation,
                    committee_members: self.committee_members,
                },
                stage: CompletionStage::N2p2BestEpoch,
            },
            (Ok(_), _) => Completion::Done,
        }
    }
}

/// The step that selects structures on which the committee disagrees.
#[derive(Debug)]
pub struct QbcStep {
    /// The measure of disagreement.
    pub method: QbcMethod,
    /// Where its files lie.
    pub ctx: StepCtx,
    /// The kind of model.
    pub backend: ModelBackend,
    /// How many models there are.
    pub committee_members: usize,
    /// Which structures are selected.
    pub settings: DisagreementSettings,
    /// How disagreement is computed.
    pub mode: DisagreementMode,
}

impl QbcStep {
    /// The step for a committee.
    pub fn new(
        method: QbcMethod,
        ctx: StepCtx,
        backend: ModelBackend,
        committee_members: usize,
        settings: DisagreementSettings,
        mode: DisagreementMode,
    ) -> (r: QbcStep)
        ensures
            r == (QbcStep { method, ctx, backend, committee_members, settings, mode }),
    {
        QbcStep { method, ctx, backend, committee_members, settings, mode }
    }

    /// The files that have to be there.
    pub open spec fn requirements(self) -> Seq<Requirement<Text>> {
        match self.mode {
            DisagreementMode::Mock => Seq::empty(),
            DisagreementMode::Real => seq![
                setup_requirement(
                    "missing disagreement job template"@,
                    self.ctx.setup_dir@,
                    "jobscripts"@,
                    self.backend.key() + "_disagreement.sh.template"@,
                ),
            ],
        }
    }

    /// Whether the step has what it needs: a committee that can disagree, and its files.
    pub open spec fn validity(self, files: Set<Text>) -> Result<(), Text> {
        if self.committee_members < 2 {
            Err("QBC step requires at least two committee members"@)
        } else {
            all_present(self.requirements(), files)
        }
    }

    /// Whether the step has what it needs.
    pub fn validate_required_files(&self, files: &Files) -> (r: Result<(), String>)
        ensures
            result_view(r) == self.validity(files@),
    {
        if self.committee_members < 2 {
            return Err("QBC step requires at least two committee members".to_owned());
        }
        check_present(&self.required(), files)
    }

    /// The files that have to be there.
    pub fn required(&self) -> (r: Vec<Requirement<String>>)
        ensures
            views(r@) == self.requirements(),
    {
        let mut required: Vec<Requirement<String>> = Vec::new();
        if let DisagreementMode::Real = self.mode {
            let template = text2(self.backend.backend_key(), "_disagreement.sh.template");
            required.push(
                require_setup(
                    "missing disagreement job template",
                    self.ctx.setup_dir.as_str(),
                    "jobscripts",
                    template.as_str(),
                ),
            );
        }
        assert(views(required@) =~= self.requirements());
        required
    }

    /// What the step asks for to be prepared: the disagreement, or a job script that computes it.
    pub open spec fn first(self, ctx: PipelineCtx) -> Progress<Text> {
        match self.mode {
            DisagreementMode::Mock => Progress::Ask {
                call: Call::MockDisagreement {
                    project_dir: ctx.project_dir@,
                    generation: ctx.generation,
                    backend_key: self.backend.key(),
                    committee_members: self.committee_members,
                    settings: self.settings,
                },
                stage: Stage::MockDisagreement,
            },
            DisagreementMode::Real => Progress::Ask {
                call: Call::DisagreementScript {
                    project_dir: ctx.project_dir@,
                    setup_dir: self.ctx.setup_dir@,
                    generation: ctx.generation,
                    backend_key: self.backend.key(),
                    settings: self.settings,
                },
                stage: Stage::DisagreementScript,
            },
        }
    }

    /// Whether the preparation can have come to a stage.
    pub open spec fn reaches(self, stage: Stage<Text>) -> bool {
        match self.mode {
            DisagreementMode::Mock => stage is MockDisagreement,
            DisagreementMode::Real => stage is DisagreementScript,
        }
    }

    /// What the preparation comes to after a reply.
    pub open spec fn next(self, reply: Reply<Text>) -> Progress<Text> {
        match (reply, self.mode) {
            (Reply::Failed(e), _) => Progress::Failed(e),
            (_, DisagreementMode::Mock) => Progress::Ready(StepPlan::LocalComplete),
            (_, DisagreementMode::Real) => Progress::Ready(
                StepPlan::Slurm { script: reply->Path_0 },
            ),
        }
    }

    /// Begins to prepare the step.
    pub fn prepare(&self, ctx: &PipelineCtx) -> (r: Progress<String>)
        ensures
            r@ == self.first(*ctx),
    {
        match self.mode {
            DisagreementMode::Mock => Progress::Ask {
                call: Call::MockDisagreement {
                    project_dir: ctx.project_dir.clone(),
                    generation: ctx.generation,
                    backend_key: self.backend.backend_key().to_owned(),
                    committee_members: self.committee_members,
                    settings: self.settings.clone(),
                },
                stage: Stage::MockDisagreement,
            },
            DisagreementMode::Real => Progress::Ask {
                call: Call::DisagreementScript {
                    project_dir: ctx.project_dir.clone(),
                    setup_dir: self.ctx.setup_dir.clone(),
                    generation: ctx.generation,
                    backend_key: self.backend.backend_key().to_owned(),
                    settings: self.settings.clone(),
                },
                stage: Stage::DisagreementScript,
            },
        }
    }

    /// Goes on to prepare the step.
    pub fn resume(&self, stage: Stage<String>, reply: Reply<String>) -> (r: Progress<String>)
        requires
            self.reaches(stage@),
            stage@.awaits(reply@),
        ensures
            r@ == self.next(reply@),
    {
        match (reply, stage) {
            (Reply::Failed(e), _) => Progress::Failed(e),
            (Reply::Done, Stage::MockDisagreement) => Progress::Ready(StepPlan::LocalComplete),
            (Reply::Path(script), Stage::DisagreementScript) => Progress::Ready(
                StepPlan::Slurm { script },
            ),
            _ => unreached(),
        }
    }
}

/// A step of a pipeline.
#[derive(Debug)]
pub enum PipelineStep {
    /// Training.
    Training(TrainingStep),
    /// Simulations.
    Md(MdStep),
    /// Selection.
    Qbc(QbcStep),
    /// Reference calculations.
    Dft(DftStep),
}

impl PipelineStep {
    /// The name of the step.
    pub open spec fn title(self) -> Text {
        match self {
            PipelineStep::Training(step) => step.model_backend.name(),
            PipelineStep::Md(step) => step.engine.name(),
            PipelineStep::Qbc(step) => step.method.name(),
            PipelineStep::Dft(step) => step.dft_code.name(),
        }
    }

    /// Whether the step has what it needs.
    pub open spec fn validity(
        self,
        ctx: PipelineCtx,
        files: Set<Text>,
        input: Result<Text, Text>,
    ) -> Result<(), Text> {
        match self {
            PipelineStep::Training(step) => step.validity(files),
            PipelineStep::Md(step) => step.validity(files, input),
            PipelineStep::Qbc(step) => step.validity(files),
            PipelineStep::Dft(step) => step.validity(ctx, files),
        }
    }

    /// What the step asks for to be prepared.
    pub open spec fn first(self, ctx: PipelineCtx, files: Set<Text>) -> Progress<Text> {
        match self {
            PipelineStep::Training(step) => step.first(ctx),
            PipelineStep::Md(step) => step.first(ctx),
            PipelineStep::Qbc(step) => step.first(ctx),
            PipelineStep::Dft(step) => step.first(ctx, files),
        }
    }

    /// Whether the preparation can have come to a stage.
    pub open spec fn reaches(self, stage: Stage<Text>) -> bool {
        match self {
            PipelineStep::Training(step) => step.reaches(stage),
            PipelineStep::Md(step) => stage is MdWorkspace,
            PipelineStep::Qbc(step) => step.reaches(stage),
            PipelineStep::Dft(step) => step.reaches(stage),
        }
    }

    /// What the preparation comes to after a reply.
    pub open spec fn next(
        self,
        ctx: PipelineCtx,
        stage: Stage<Text>,
        reply: Reply<Text>,
    ) -> Progress<Text> {
        match self {
            PipelineStep::Training(step) => step.next(ctx, stage, reply),
            PipelineStep::Md(step) => step.next(reply),
            PipelineStep::Qbc(step) => step.next(reply),
            PipelineStep::Dft(step) => step.next(ctx, stage, reply),
        }
    }

    /// What the completion of the step comes to at first: a job that was not completed fails it.
    pub open spec fn first_completion(
        self,
        ctx: PipelineCtx,
        job_state: FinishedData<Text>,
    ) -> Completion<Text> {
        let detail = debug_of(other_name(job_state.final_status));
        match (completed(job_state.final_status, detail), self) {
            (Err(e), _) => Completion::Failed(e),
            (Ok(_), PipelineStep::Training(step)) => step.first_completion(ctx),
            (Ok(_), _) => Completion::Done,
        }
    }

    /// What the completion comes to after something was done, or not.
    pub open spec fn next_completion(
        self,
        ctx: PipelineCtx,
        stage: CompletionStage,
        outcome: Result<(), Text>,
    ) -> Completion<Text> {
        match (self, outcome) {
            (PipelineStep::Training(step), _) => step.next_completion(ctx, stage, outcome),
            (_, Err(e)) => Completion::Failed(e),
            (_, Ok(_)) => Completion::Done,
        }
    }

    /// The name of the step.
    pub fn name(&self) -> (r: &'static str)
        ensures
            r@ == self.title(),
    {
        match self {
            PipelineStep::Training(step) => step.model_backend.as_str(),
            PipelineStep::Md(step) => step.engine.as_str(),
            PipelineStep::Qbc(step) => step.method.as_str(),
            PipelineStep::Dft(step) => step.dft_code.as_str(),
        }
    }

    /// The step in words.
    pub fn describe(&self) -> (r: String)
        ensures
            r@ == self.title(),
    {
        self.name().to_owned()
    }

    /// Whether the step has what it needs. `input` is the input file of the generation, or why there
    /// is none.
    pub fn validate_required_files(
        &self,
        ctx: &PipelineCtx,
        files: &Files,
        input: &Result<String, String>,
    ) -> (r: Result<(), String>)
        ensures
            result_view(r) == self.validity(*ctx, files@, result_view(*input)),
    {
        match self {
            PipelineStep::Training(step) => step.validate_required_files(files),
            PipelineStep::Md(step) => step.validate_required_files(files, input),
            PipelineStep::Qbc(step) => step.validate_required_files(files),
            PipelineStep::Dft(step) => step.validate_required_files(ctx, files),
        }
    }

    /// Begins to prepare the step.
    pub fn prepare(&self, ctx: &PipelineCtx, files: &Files) -> (r: Progress<String>)
        ensures
            r@ == self.first(*ctx, files@),
    {
        match self {
            PipelineStep::Training(step) => step.prepare(ctx),
            PipelineStep::Md(step) => step.prepare(ctx),
            PipelineStep::Qbc(step) => step.prepare(ctx),
            PipelineStep::Dft(step) => step.prepare(ctx, files),
        }
    }

    /// Whether the preparation can go on from a stage with a reply: the stage is one of the step, and
    /// the reply is one to what the stage waits for.
    pub fn can_resume(&self, stage: &Stage<String>, reply: &Reply<String>) -> (r: bool)
        ensures
            r == (self.reaches(stage@) && stage@.awaits(reply@)),
    {
        let reached = match (self, stage) {
            (PipelineStep::Training(_), Stage::Dataset) => true,
            (PipelineStep::Training(step), Stage::UpetWorkspace) => {
                step.model_backend == ModelBackend::Upet
            },
            (PipelineStep::Training(step), Stage::N2p2Workspace) => {
                step.model_backend == ModelBackend::N2p2
            },
            (PipelineStep::Training(step), Stage::N2p2Scaling { .. }) => {
                step.model_backend == ModelBackend::N2p2
            },
            (PipelineStep::Training(step), Stage::N2p2Report { .. }) => {
                step.model_backend == ModelBackend::N2p2
            },
            (PipelineStep::Md(_), Stage::MdWorkspace) => true,
            (PipelineStep::Qbc(step), Stage::MockDisagreement) => {
                step.mode == DisagreementMode::Mock
            },
            (PipelineStep::Qbc(step), Stage::DisagreementScript) => {
                step.mode == DisagreementMode::Real
            },
            (PipelineStep::Dft(_), Stage::Counting { .. }) => true,
            (PipelineStep::Dft(_), Stage::ArrayScript) => true,
            (PipelineStep::Dft(_), Stage::RunDirectory { count, index, .. }) => *index < *count,
            (PipelineStep::Dft(_), Stage::Outcar { count, index, .. }) => *index < *count,
            _ => false,
        };
        reached && stage.accepts(reply)
    }

    /// Goes on to prepare the step.
    pub fn resume(&self, ctx: &PipelineCtx, stage: Stage<String>, reply: Reply<String>) -> (r:
        Progress<String>)
        requires
            self.reaches(stage@),
            stage@.awaits(reply@),
        ensures
            r@ == self.next(*ctx, stage@, reply@),
    {
        match self {
            PipelineStep::Training(step) => step.resume(ctx, stage, reply),
            PipelineStep::Md(step) => step.resume(reply),
            PipelineStep::Qbc(step) => step.resume(stage, reply),
            PipelineStep::Dft(step) => step.resume(ctx, stage, reply),
        }
    }

    /// The answer to a request to submit the job of the step again: no step supports that.
    pub fn resubmit_from_current_state(&self) -> (r: Result<String, String>)
        ensures
            result_view(r) == Err::<Text, Text>(self.title() + " does not support resubmission"@),
    {
        Err(text2(self.name(), " does not support resubmission"))
    }

    /// Begins to complete the step after its job has ended.
    pub fn on_completion(&self, job_state: &FinishedData<String>, ctx: &PipelineCtx) -> (r:
        Completion<String>)
        ensures
            r@ == self.first_completion(*ctx, job_state@),
    {
        if let Err(e) = ensure_completed(job_state) {
            return Completion::Failed(e);
        }
        match self {
            PipelineStep::Training(step) => step.complete(ctx),
            _ => Completion::Done,
        }
    }

    /// Goes on to complete the step.
    pub fn resume_completion(
        &self,
        ctx: &PipelineCtx,
        stage: CompletionStage,
        outcome: Result<(), String>,
    ) -> (r: Completion<String>)
        ensures
            r@ == self.next_completion(*ctx, stage, result_view(outcome)),
    {
        match (self, outcome) {
            (PipelineStep::Training(step), outcome) => step.resume_completion(ctx, stage, outcome),
            (_, Err(e)) => Completion::Failed(e),
            (_, Ok(_)) => Completion::Done,
        }
    }
}

/// The steps of a generation, in their order.
#[derive(Debug)]
pub struct Pipeline {
    /// The steps.
    pub steps: Vec<PipelineStep>,
}

impl Pipeline {
    /// The pipeline of the given steps.
    pub fn new(steps: Vec<PipelineStep>) -> (r: Pipeline)
        ensures
            r.steps == steps,
    {
        Pipeline { steps }
    }
}

} // verus!
