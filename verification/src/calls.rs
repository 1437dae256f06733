//! What a step of a pipeline asks of its surroundings, and what it is told in return.
use crate::backend::{EnergyMode, MdModelPackage, ModelBackend};
use crate::job::StepPlan;
use crate::selection::DisagreementSettings;
use crate::text::option_view;
use vstd::prelude::*;

verus! {

/// Something that a step asks for.
#[derive(Debug)]
pub enum Call<T> {
    /// Placeholders for the training data of a generation.
    DryDataset {
        /// The project.
        project_dir: T,
        /// The generation.
        generation: u32,
        /// The kind of model.
        backend: ModelBackend,
        /// The foundation model, where there is one.
        checkpoint: Option<T>,
    },
    /// The training data of a generation.
    Dataset {
        /// The project.
        project_dir: T,
        /// The generation.
        generation: u32,
        /// The kind of model.
        backend: ModelBackend,
        /// The foundation model, where there is one.
        checkpoint: Option<T>,
        /// Which energies are trained on.
        energy_mode: EnergyMode,
    },
    /// The directories in which foundation models are fine-tuned, and the job script.
    UpetWorkspace {
        /// The project.
        project_dir: T,
        /// The setup of the project.
        setup_dir: T,
        /// The generation.
        generation: u32,
        /// How many models are trained.
        committee_members: usize,
        /// The foundation model.
        foundation: T,
        /// The name of the energies in the training data.
        training_key: T,
    },
    /// The directories in which neural networks are trained, and the two job scripts.
    N2p2Workspace {
        /// The project.
        project_dir: T,
        /// The setup of the project.
        setup_dir: T,
        /// The generation.
        generation: u32,
        /// How many models are trained.
        committee_members: usize,
    },
    /// Stand-ins for what scaling computes.
    N2p2ScalingOutputs {
        /// The project.
        project_dir: T,
        /// The generation.
        generation: u32,
        /// How many models are trained.
        committee_members: usize,
    },
    /// The report on the memory that training needs.
    N2p2MemoryReport {
        /// The directory of the generation.
        generation_dir: T,
        /// The job script of training.
        training_script: T,
        /// How many models are trained.
        committee_members: usize,
    },
    /// The directories in which the simulations run.
    MdWorkspace {
        /// The project.
        project_dir: T,
        /// The setup of the project.
        setup_dir: T,
        /// The generation.
        generation: u32,
        /// How many models there are.
        committee_members: usize,
        /// What a simulation needs of a model, where it needs one.
        model_package: Option<MdModelPackage>,
    },
    /// How many structures a file holds.
    ConfigurationCount {
        /// The file.
        structures: T,
    },
    /// The directory of the reference calculation of a structure.
    RunDirectory {
        /// The name of the directory.
        run_name: T,
        /// The file that holds the structure.
        structures: T,
        /// The directory of the generation.
        generation_dir: T,
        /// The setup of the project.
        setup_dir: T,
        /// The place of the structure in its file.
        index: usize,
    },
    /// A stand-in for the result of a reference calculation.
    MockOutcar {
        /// The directory of the calculation.
        run_dir: T,
        /// The place of the structure in its file.
        index: usize,
    },
    /// The job script of the reference calculations.
    ArrayScript {
        /// The setup of the project.
        setup_dir: T,
        /// The directory of the generation.
        generation_dir: T,
        /// The generation.
        generation: u32,
        /// How many calculations there are.
        count: usize,
    },
    /// The disagreement of the committee, by a stand-in.
    MockDisagreement {
        /// The project.
        project_dir: T,
        /// The generation.
        generation: u32,
        /// The name of the backend.
        backend_key: T,
        /// How many models there are.
        committee_members: usize,
        /// Which frames are selected.
        settings: DisagreementSettings,
    },
    /// The job script that computes the disagreement of the committee.
    DisagreementScript {
        /// The project.
        project_dir: T,
        /// The setup of the project.
        setup_dir: T,
        /// The generation.
        generation: u32,
        /// The name of the backend.
        backend_key: T,
        /// Which frames are selected.
        settings: DisagreementSettings,
    },
    /// Stand-ins for fine-tuned models.
    UpetModels {
        /// The project.
        project_dir: T,
        /// The generation.
        generation: u32,
        /// How many models there are.
        committee_members: usize,
    },
    /// Stand-ins for what training computes.
    N2p2TrainingOutputs {
        /// The project.
        project_dir: T,
        /// The generation.
        generation: u32,
        /// How many models there are.
        committee_members: usize,
    },
    /// The best epoch of each model.
    N2p2BestEpoch {
        /// The project.
        project_dir: T,
        /// The generation.
        generation: u32,
        /// How many models there are.
        committee_members: usize,
    },
}

impl<T: View> View for Call<T> {
    type V = Call<T::V>;

    open spec fn view(&self) -> Call<T::V> {
        match *self {
            Call::DryDataset { project_dir, generation, backend, checkpoint } => Call::DryDataset {
                project_dir: project_dir@,
                generation,
                backend,
                checkpoint: option_view(checkpoint),
            },
            Call::Dataset { project_dir, generation, backend, checkpoint, energy_mode } =>
                Call::Dataset {
                project_dir: project_dir@,
                generation,
                backend,
                checkpoint: option_view(checkpoint),
                energy_mode,
            },
            Call::UpetWorkspace {
                project_dir,
                setup_dir,
                generation,
                committee_members,
                foundation,
                training_key,
            } => Call::UpetWorkspace {
                project_dir: project_dir@,
                setup_dir: setup_dir@,
                generation,
                committee_members,
                foundation: foundation@,
                training_key: training_key@,
            },
            Call::N2p2Workspace { project_dir, setup_dir, generation, committee_members } =>
                Call::N2p2Workspace {
                project_dir: project_dir@,
                setup_dir: setup_dir@,
                generation,
                committee_members,
            },
            Call::N2p2ScalingOutputs { project_dir, generation, committee_members } =>
                Call::N2p2ScalingOutputs {
                project_dir: project_dir@,
                generation,
                committee_members,
            },
            Call::N2p2MemoryReport { generation_dir, training_script, committee_members } =>
                Call::N2p2MemoryReport {
                generation_dir: generation_dir@,
                training_script: training_script@,
                committee_members,
            },
            Call::MdWorkspace {
                project_dir,
                setup_dir,
                generation,
                committee_members,
                model_package,
            } => Call::MdWorkspace {
                project_dir: project_dir@,
                setup_dir: setup_dir@,
                generation,
                committee_members,
                model_package,
            },
            Call::ConfigurationCount { structures } => Call::ConfigurationCount {
                structures: structures@,
            },
            Call::RunDirectory { run_name, structures, generation_dir, setup_dir, index } =>
                Call::RunDirectory {
                run_name: run_name@,
                structures: structures@,
                generation_dir: generation_dir@,
                setup_dir: setup_dir@,
                index,
            },
            Call::MockOutcar { run_dir, index } => Call::MockOutcar { run_dir: run_dir@, index },
            Call::ArrayScript { setup_dir, generation_dir, generation, count } =>
                Call::ArrayScript {
                setup_dir: setup_dir@,
                generation_dir: generation_dir@,
                generation,
                count,
            },
            Call::MockDisagreement {
                project_dir,
                generation,
                backend_key,
                committee_members,
                settings,
            } => Call::MockDisagreement {
                project_dir: project_dir@,
                generation,
                backend_key: backend_key@,
                committee_members,
                settings,
            },
            Call::DisagreementScript { project_dir, setup_dir, generation, backend_key, settings } =>
                Call::DisagreementScript {
                project_dir: project_dir@,
                setup_dir: setup_dir@,
                generation,
                backend_key: backend_key@,
                settings,
            },
            Call::UpetModels { project_dir, generation, committee_members } => Call::UpetModels {
                project_dir: project_dir@,
                generation,
                committee_members,
            },
            Call::N2p2TrainingOutputs { project_dir, generation, committee_members } =>
                Call::N2p2TrainingOutputs {
                project_dir: project_dir@,
                generation,
                committee_members,
            },
            Call::N2p2BestEpoch { project_dir, generation, committee_members } =>
                Call::N2p2BestEpoch {
                project_dir: project_dir@,
                generation,
                committee_members,
            },
        }
    }
}

/// What a step is told of something that it asked for.
#[derive(Debug)]
pub enum Reply<T> {
    /// It could not be done, and why.
    Failed(T),
    /// It was done.
    Done,
    /// It was done, and this is where the result lies.
    Path(T),
    /// It was done, and this is where the two job scripts lie.
    Scripts {
        /// The script of scaling.
        scaling: T,
        /// The script of training.
        training: T,
    },
    /// It was done, and this is the number that was asked for.
    Count(usize),
}

impl<T: View> View for Reply<T> {
    type V = Reply<T::V>;

    open spec fn view(&self) -> Reply<T::V> {
        match *self {
            Reply::Failed(e) => Reply::Failed(e@),
            Reply::Done => Reply::Done,
            Reply::Path(path) => Reply::Path(path@),
            Reply::Scripts { scaling, training } => Reply::Scripts {
                scaling: scaling@,
                training: training@,
            },
            Reply::Count(n) => Reply::Count(n),
        }
    }
}

/// How far the preparation of a step has come: what it waits for.
#[derive(Debug)]
pub enum Stage<T> {
    /// The training data.
    Dataset,
    /// The directories of fine-tuning.
    UpetWorkspace,
    /// The directories of training.
    N2p2Workspace,
    /// The results of scaling.
    N2p2Scaling {
        /// The job script of training.
        script: T,
    },
    /// The report on memory.
    N2p2Report {
        /// The job script of training.
        script: T,
    },
    /// The directories of the simulations.
    MdWorkspace,
    /// How many structures there are.
    Counting {
        /// The file that holds the structures.
        structures: T,
    },
    /// The directory of a calculation.
    RunDirectory {
        /// The file that holds the structures.
        structures: T,
        /// How many calculations there are.
        count: usize,
        /// The place of the calculation among them.
        index: usize,
    },
    /// The stand-in for the result of a calculation.
    Outcar {
        /// The file that holds the structures.
        structures: T,
        /// How many calculations there are.
        count: usize,
        /// The place of the calculation among them.
        index: usize,
    },
    /// The job script of the calculations.
    ArrayScript,
    /// The stand-in for the disagreement.
    MockDisagreement,
    /// The job script of the disagreement.
    DisagreementScript,
}

impl<T: View> View for Stage<T> {
    type V = Stage<T::V>;

    open spec fn view(&self) -> Stage<T::V> {
        match *self {
            Stage::Dataset => Stage::Dataset,
            Stage::UpetWorkspace => Stage::UpetWorkspace,
            Stage::N2p2Workspace => Stage::N2p2Workspace,
            Stage::N2p2Scaling { script } => Stage::N2p2Scaling { script: script@ },
            Stage::N2p2Report { script } => Stage::N2p2Report { script: script@ },
            Stage::MdWorkspace => Stage::MdWorkspace,
            Stage::Counting { structures } => Stage::Counting { structures: structures@ },
            Stage::RunDirectory { structures, count, index } => Stage::RunDirectory {
                structures: structures@,
                count,
                index,
            },
            Stage::Outcar { structures, count, index } => Stage::Outcar {
                structures: structures@,
                count,
                index,
            },
            Stage::ArrayScript => Stage::ArrayScript,
            Stage::MockDisagreement => Stage::MockDisagreement,
            Stage::DisagreementScript => Stage::DisagreementScript,
        }
    }
}

impl<T> Stage<T> {
    /// Whether a reply is one to what the stage waits for.
    pub open spec fn awaits(self, reply: Reply<T>) -> bool {
        reply is Failed || match self {
            Stage::Dataset
            | Stage::N2p2Scaling { .. }
            | Stage::N2p2Report { .. }
            | Stage::RunDirectory { .. }
            | Stage::Outcar { .. }
            | Stage::MockDisagreement => reply is Done,
            Stage::UpetWorkspace
            | Stage::MdWorkspace
            | Stage::ArrayScript
            | Stage::DisagreementScript => reply is Path,
            Stage::N2p2Workspace => reply is Scripts,
            Stage::Counting { .. } => reply is Count,
        }
    }
}

impl Stage<String> {
    /// Whether a reply is one to what the stage waits for.
    pub fn accepts(&self, reply: &Reply<String>) -> (r: bool)
        ensures
            r == self@.awaits(reply@),
    {
        match (self, reply) {
            (_, Reply::Failed(_)) => true,
            (Stage::Dataset, Reply::Done) => true,
            (Stage::N2p2Scaling { .. }, Reply::Done) => true,
            (Stage::N2p2Report { .. }, Reply::Done) => true,
            (Stage::RunDirectory { .. }, Reply::Done) => true,
            (Stage::Outcar { .. }, Reply::Done) => true,
            (Stage::MockDisagreement, Reply::Done) => true,
            (Stage::UpetWorkspace, Reply::Path(_)) => true,
            (Stage::MdWorkspace, Reply::Path(_)) => true,
            (Stage::ArrayScript, Reply::Path(_)) => true,
            (Stage::DisagreementScript, Reply::Path(_)) => true,
            (Stage::N2p2Workspace, Reply::Scripts { .. }) => true,
            (Stage::Counting { .. }, Reply::Count(_)) => true,
            _ => false,
        }
    }
}

/// What the preparation of a step comes to next.
#[derive(Debug)]
pub enum Progress<T> {
    /// The step asks for something.
    Ask {
        /// What it asks for.
        call: Call<T>,
        /// How far it has come.
        stage: Stage<T>,
    },
    /// The step is prepared.
    Ready(StepPlan<T>),
    /// The step cannot be prepared, and why.
    Failed(T),
}

impl<T: View> View for Progress<T> {
    type V = Progress<T::V>;

    open spec fn view(&self) -> Progress<T::V> {
        match *self {
            Progress::Ask { call, stage } => Progress::Ask { call: call@, stage: stage@ },
            Progress::Ready(plan) => Progress::Ready(plan@),
            Progress::Failed(e) => Progress::Failed(e@),
        }
    }
}

/// How far a step has come after its job has ended: what it waits for.
#[derive(Clone, Copy, PartialEq, Eq, Structural, Debug)]
pub enum CompletionStage {
    /// The stand-ins for fine-tuned models.
    UpetModels,
    /// The stand-ins for what training computes.
    N2p2TrainingOutputs,
    /// The best epochs.
    N2p2BestEpoch,
}

/// What the completion of a step comes to next.
#[derive(Debug)]
pub enum Completion<T> {
    /// The step asks for something.
    Ask {
        /// What it asks for.
        call: Call<T>,
        /// How far it has come.
        stage: CompletionStage,
    },
    /// The step is complete.
    Done,
    /// The step cannot be completed, and why.
    Failed(T),
}

impl<T: View> View for Completion<T> {
    type V = Completion<T::V>;

    open spec fn view(&self) -> Completion<T::V> {
        match *self {
            Completion::Ask { call, stage } => Completion::Ask { call: call@, stage },
            Completion::Done => Completion::Done,
            Completion::Failed(e) => Completion::Failed(e@),
        }
    }
}

} // verus!
