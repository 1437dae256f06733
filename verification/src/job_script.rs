//! The job script that lets a committee of trained models disagree.
use crate::disagreement::{DisagreementWorkspace, run_dir_of};
use crate::effects::{Effect, Files};
use crate::number::{decimal, decimal_of};
use crate::paths::{
    PathProbe, Variable, absolute_path_string, below, child, descendant, generation_dir,
    generation_part, grandchild, selected_file, selected_structures,
};
use crate::selection::DisagreementSettings;
use crate::text::{Text, result_view, text2, text3, views};
use vstd::prelude::*;

verus! {

/// Where the files of a disagreement job lie.
#[derive(Debug)]
pub struct JobLayout {
    /// The project.
    pub project_dir: String,
    /// The directory of the results.
    pub generation_dir: String,
    /// The trajectory of the simulation.
    pub trajectory: String,
    /// The models of the committee.
    pub committee_models: String,
    /// The directory of selected structures.
    pub selected_dir: String,
    /// The selected structures.
    pub selected_structures: String,
    /// The script of the project that computes the disagreement, where it has its own.
    pub project_script: String,
    /// The template of the job script.
    pub template: String,
    /// The job script.
    pub script: String,
}

impl JobLayout {
    /// Whether the files lie where those of a generation of a project have to.
    pub open spec fn is_for(
        self,
        project_dir: Text,
        setup_dir: Text,
        generation: u32,
        backend: Text,
    ) -> bool {
        let runs = generation_part(project_dir, "md_runs"@, generation);
        let results = generation_part(project_dir, "disagreement"@, generation);
        &&& self.project_dir@ == project_dir
        &&& self.generation_dir@ == results
        &&& self.trajectory@ == below(run_dir_of(project_dir, generation), "traj.dump"@)
        &&& self.committee_models@ == below(runs, "committee_models"@)
        &&& self.selected_dir@ == below(project_dir, "selected_structures"@)
        &&& self.selected_structures@ == selected_file(project_dir, generation)
        &&& self.project_script@ == below(
            below(below(below(project_dir, "external"@), "alchemist"@), "python"@),
            "committee_disagreement.py"@,
        )
        &&& self.template@ == below(
            below(setup_dir, "jobscripts"@),
            backend + "_disagreement.sh.template"@,
        )
        &&& self.script@ == below(results, "submit_disagreement.sh"@)
    }

    /// The directories that have to be made for the job.
    pub open spec fn directories(self) -> Seq<Effect<Text>> {
        seq![
            Effect::CreateDir {
                path: self.generation_dir@,
                failure: "Failed to create disagreement directory "@ + self.generation_dir@ + ": "@,
            },
            Effect::CreateDir {
                path: self.selected_dir@,
                failure: "Failed to create selected structures directory "@ + self.selected_dir@
                    + ": "@,
            },
        ]
    }

    /// Where the files of a disagreement job lie.
    pub fn new(project_dir: &str, setup_dir: &str, generation: u32, backend: &str) -> (r: JobLayout)
        ensures
            r.is_for(project_dir@, setup_dir@, generation, backend@),
    {
        let runs = generation_dir(project_dir, "md_runs", generation);
        let results = generation_dir(project_dir, "disagreement", generation);
        let python = descendant(project_dir, "external", "alchemist", "python");
        let template = text2(backend, "_disagreement.sh.template");
        JobLayout {
            project_dir: project_dir.to_owned(),
            trajectory: grandchild(runs.as_str(), "run_000", "traj.dump"),
            committee_models: child(runs.as_str(), "committee_models"),
            selected_dir: child(project_dir, "selected_structures"),
            selected_structures: selected_structures(project_dir, generation),
            project_script: child(python.as_str(), "committee_disagreement.py"),
            template: grandchild(setup_dir, "jobscripts", template.as_str()),
            script: child(results.as_str(), "submit_disagreement.sh"),
            generation_dir: results,
        }
    }

    /// The directories that have to be made before the job can be described.
    pub fn effects(&self) -> (r: Vec<Effect<String>>)
        ensures
            views(r@) == self.directories(),
    {
        let mut effects: Vec<Effect<String>> = Vec::new();
        effects.push(
            Effect::CreateDir {
                path: self.generation_dir.clone(),
                failure: text3(
                    "Failed to create disagreement directory ",
                    self.generation_dir.as_str(),
                    ": ",
                ),
            },
        );
        effects.push(
            Effect::CreateDir {
                path: self.selected_dir.clone(),
                failure: text3(
                    "Failed to create selected structures directory ",
                    self.selected_dir.as_str(),
                    ": ",
                ),
            },
        );
        assert(views(effects@) =~= self.directories());
        effects
    }

    /// The script that computes the disagreement: that of the project where there is one, and else
    /// that of the installation at `home`.
    pub open spec fn python_script(self, home: Result<Text, Text>, files: Set<Text>) -> Result<
        Text,
        Text,
    > {
        match home {
            Err(e) => Err(e),
            Ok(home) => {
                let installed = below(below(home, "python"@), "committee_disagreement.py"@);
                let script = if files.contains(self.project_script@) {
                    self.project_script@
                } else {
                    installed
                };
                if files.contains(script) {
                    Ok(script)
                } else {
                    Err("Missing disagreement Python script: "@ + script)
                }
            },
        }
    }

    /// The script that computes the disagreement. `home` is the directory of the installation, or
    /// why there is none.
    pub fn choose_script(&self, home: &Result<String, String>, files: &Files) -> (r: Result<
        String,
        String,
    >)
        ensures
            result_view(r) == self.python_script(result_view(*home), files@),
    {
        let home = match home {
            Ok(home) => home,
            Err(e) => {
                return Err(e.clone());
            },
        };
        let script = if files.is_file(self.project_script.as_str()) {
            self.project_script.clone()
        } else {
            grandchild(home.as_str(), "python", "committee_disagreement.py")
        };
        if files.is_file(script.as_str()) {
            Ok(script)
        } else {
            Err(text2("Missing disagreement Python script: ", script.as_str()))
        }
    }
}

/// What was found of the paths that a job script names.
pub struct JobProbes {
    /// Of the project.
    pub project_dir: PathProbe,
    /// Of the script that computes the disagreement.
    pub python_script: PathProbe,
    /// Of the trajectory.
    pub trajectory: PathProbe,
    /// Of the models of the committee.
    pub committee_models: PathProbe,
    /// Of the directory of the results.
    pub output_dir: PathProbe,
    /// Of the selected structures.
    pub selected_structures: PathProbe,
}

/// The absolute paths that a job script names.
pub struct JobPaths<T> {
    /// Of the project.
    pub project_dir: T,
    /// Of the script that computes the disagreement.
    pub python_script: T,
    /// Of the trajectory.
    pub trajectory: T,
    /// Of the models of the committee.
    pub committee_models: T,
    /// Of the directory of the results.
    pub output_dir: T,
    /// Of the selected structures.
    pub selected_structures: T,
}

impl<T: View> View for JobPaths<T> {
    type V = JobPaths<T::V>;

    open spec fn view(&self) -> JobPaths<T::V> {
        JobPaths {
            project_dir: self.project_dir@,
            python_script: self.python_script@,
            trajectory: self.trajectory@,
            committee_models: self.committee_models@,
            output_dir: self.output_dir@,
            selected_structures: self.selected_structures@,
        }
    }
}

/// Whether `probe` is what `look` may find of a path.
pub open spec fn is_found<L: Fn(&str) -> PathProbe>(look: L, path: Text, probe: PathProbe) -> bool {
    exists|p: &str| p@ == path && #[trigger] call_ensures(look, (p,), probe)
}

impl JobProbes {
    /// Whether this is what `look` may find of the paths of a job whose script is `script`.
    pub open spec fn are_found<L: Fn(&str) -> PathProbe>(
        self,
        look: L,
        layout: JobLayout,
        script: Text,
    ) -> bool {
        &&& is_found(look, layout.project_dir@, self.project_dir)
        &&& is_found(look, script, self.python_script)
        &&& is_found(look, layout.trajectory@, self.trajectory)
        &&& is_found(look, layout.committee_models@, self.committee_models)
        &&& is_found(look, layout.generation_dir@, self.output_dir)
        &&& is_found(look, layout.selected_structures@, self.selected_structures)
    }

    /// The absolute paths; the first that there is not decides the error.
    pub open spec fn absolute(self) -> Result<JobPaths<Text>, Text> {
        match (
            self.project_dir.absolute(),
            self.python_script.absolute(),
            self.trajectory.absolute(),
            self.committee_models.absolute(),
            self.output_dir.absolute(),
            self.selected_structures.absolute(),
        ) {
            (Err(e), _, _, _, _, _) => Err(e),
            (_, Err(e), _, _, _, _) => Err(e),
            (_, _, Err(e), _, _, _) => Err(e),
            (_, _, _, Err(e), _, _) => Err(e),
            (_, _, _, _, Err(e), _) => Err(e),
            (_, _, _, _, _, Err(e)) => Err(e),
            (
                Ok(project_dir),
                Ok(python_script),
                Ok(trajectory),
                Ok(committee_models),
                Ok(output_dir),
                Ok(selected_structures),
            ) => Ok(
                JobPaths {
                    project_dir,
                    python_script,
                    trajectory,
                    committee_models,
                    output_dir,
                    selected_structures,
                },
            ),
        }
    }

    /// The absolute paths.
    pub fn resolve(&self) -> (r: Result<JobPaths<String>, String>)
        ensures
            result_view(r) == self.absolute(),
    {
        let project_dir = match absolute_path_string(&self.project_dir) {
            Ok(path) => path,
            Err(e) => {
                return Err(e);
            },
        };
        let python_script = match absolute_path_string(&self.python_script) {
            Ok(path) => path,
            Err(e) => {
                return Err(e);
            },
        };
        let trajectory = match absolute_path_string(&self.trajectory) {
            Ok(path) => path,
            Err(e) => {
                return Err(e);
            },
        };
        let committee_models = match absolute_path_string(&self.committee_models) {
            Ok(path) => path,
            Err(e) => {
                return Err(e);
            },
        };
        let output_dir = match absolute_path_string(&self.output_dir) {
            Ok(path) => path,
            Err(e) => {
                return Err(e);
            },
        };
        let selected_structures = match absolute_path_string(&self.selected_structures) {
            Ok(path) => path,
            Err(e) => {
                return Err(e);
            },
        };
        Ok(
            JobPaths {
                project_dir,
                python_script,
                trajectory,
                committee_models,
                output_dir,
                selected_structures,
            },
        )
    }
}

/// How many frames a generation selects at most. Generation zero may have a number of its own.
pub open spec fn selection_limit(settings: DisagreementSettings, generation: u32) -> usize {
    match settings.bootstrap_max_selected {
        Some(limit) if generation == 0 => limit,
        _ => settings.max_selected,
    }
}

/// The values that are put into the template of a job script.
pub open spec fn job_variables(
    paths: JobPaths<Text>,
    generation: u32,
    settings: DisagreementSettings,
) -> Seq<Variable<Text>> {
    seq![
        Variable { key: "generation"@, value: decimal_of(generation as nat) },
        Variable { key: "project_dir"@, value: paths.project_dir },
        Variable { key: "python_script"@, value: paths.python_script },
        Variable { key: "trajectory"@, value: paths.trajectory },
        Variable { key: "committee_models"@, value: paths.committee_models },
        Variable { key: "output_dir"@, value: paths.output_dir },
        Variable { key: "selected_structures"@, value: paths.selected_structures },
        Variable {
            key: "max_selected"@,
            value: decimal_of(selection_limit(settings, generation) as nat),
        },
        Variable { key: "min_rrmse"@, value: settings.min_rrmse.text@ },
        Variable { key: "max_rrmse"@, value: settings.max_rrmse.text@ },
    ]
}

/// The permissions that a file is given.
#[derive(Debug)]
pub struct FileMode {
    /// The file.
    pub path: String,
    /// The permissions of its owner, its group and all others.
    pub mode: u32,
}

/// The permissions that make a file executable: all may read and run it, and its owner may write it.
pub fn set_executable(path: &str) -> (r: FileMode)
    ensures
        r.path@ == path@,
        r.mode == 0o755,
{
    FileMode { path: path.to_owned(), mode: 0o755 }
}

/// A job script to be written from its template and made executable.
#[derive(Debug)]
pub struct JobScriptPlan {
    /// The template.
    pub template: String,
    /// The job script.
    pub script: String,
    /// What is put into the template.
    pub variables: Vec<Variable<String>>,
    /// What is said where the template cannot be filled in, before the reason.
    pub render_failure: String,
    /// The permissions that the job script is given.
    pub permissions: FileMode,
    /// What is said where the script cannot be made executable, before the reason.
    pub executable_failure: String,
}

impl JobScriptPlan {
    /// Whether the plan is that of a job.
    pub open spec fn is_of(
        self,
        layout: JobLayout,
        paths: JobPaths<Text>,
        generation: u32,
        settings: DisagreementSettings,
    ) -> bool {
        &&& self.template@ == layout.template@
        &&& self.script@ == layout.script@
        &&& views(self.variables@) == job_variables(paths, generation, settings)
        &&& self.render_failure@ == "Failed to render disagreement job template "@
            + layout.template@ + ": "@
        &&& self.permissions.path@ == layout.script@
        &&& self.permissions.mode == 0o755
        &&& self.executable_failure@ == "Failed to mark disagreement job script executable "@
            + layout.script@ + ": "@
    }
}

/// Whether `r` is the plan of a job by what was found of its paths, or why there is none.
pub open spec fn is_job(
    r: Result<JobScriptPlan, String>,
    layout: JobLayout,
    probes: JobProbes,
    generation: u32,
    settings: DisagreementSettings,
) -> bool {
    match probes.absolute() {
        Err(e) => r matches Err(error) && error@ == e,
        Ok(paths) => r matches Ok(plan) && plan.is_of(layout, paths, generation, settings),
    }
}

/// Whether `r` is the plan of a job by the files that were found and what `look` may find of its
/// paths, or why there is none: the script that computes the disagreement is looked for first, then
/// the template, and then the paths.
pub open spec fn is_found_job<L: Fn(&str) -> PathProbe>(
    r: Result<JobScriptPlan, String>,
    layout: JobLayout,
    generation: u32,
    settings: DisagreementSettings,
    home: Result<String, String>,
    files: Set<Text>,
    look: L,
) -> bool {
    match layout.python_script(result_view(home), files) {
        Err(e) => r matches Err(error) && error@ == e,
        Ok(script) => if !files.contains(layout.template@) {
            r matches Err(error) && error@ == "Missing disagreement job template: "@
                + layout.template@
        } else {
            exists|probes: JobProbes|
                {
                    &&& #[trigger] probes.are_found(look, layout, script)
                    &&& is_job(r, layout, probes, generation, settings)
                }
        },
    }
}

/// A value with its name.
fn variable(key: &str, value: String) -> (r: Variable<String>)
    ensures
        r@ == (Variable { key: key@, value: value@ }),
{
    Variable { key: key.to_owned(), value }
}

impl DisagreementWorkspace {
    /// The job script of a generation. `home` is the directory of the installation, or why there is
    /// none; `files` are the files that were found; `look` looks at a path that the script names.
    pub fn create_real_job_script<L: Fn(&str) -> PathProbe>(
        project_dir: &str,
        setup_dir: &str,
        generation: u32,
        backend: &str,
        settings: &DisagreementSettings,
        home: &Result<String, String>,
        files: &Files,
        look: L,
    ) -> (r: Result<JobScriptPlan, String>)
        requires
            forall|path: &str| #[trigger] call_requires(look, (path,)),
        ensures
            exists|layout: JobLayout| #[trigger]
                layout.is_for(project_dir@, setup_dir@, generation, backend@)
                    && is_found_job(r, layout, generation, *settings, *home, files@, look),
    {
        let layout = JobLayout::new(project_dir, setup_dir, generation, backend);
        let r = DisagreementWorkspace::find_job(&layout, generation, settings, home, files, look);
        assert(is_found_job(r, layout, generation, *settings, *home, files@, look));
        r
    }

    /// The job script of a generation whose files lie where `layout` says.
    fn find_job<L: Fn(&str) -> PathProbe>(
        layout: &JobLayout,
        generation: u32,
        settings: &DisagreementSettings,
        home: &Result<String, String>,
        files: &Files,
        look: L,
    ) -> (r: Result<JobScriptPlan, String>)
        requires
            forall|path: &str| #[trigger] call_requires(look, (path,)),
        ensures
            is_found_job(r, *layout, generation, *settings, *home, files@, look),
    {
        let script = match layout.choose_script(home, files) {
            Ok(script) => script,
            Err(e) => {
                return Err(e);
            },
        };
        if !files.is_file(layout.template.as_str()) {
            return Err(text2("Missing disagreement job template: ", layout.template.as_str()));
        }
        let probes = JobProbes {
            project_dir: look(layout.project_dir.as_str()),
            python_script: look(script.as_str()),
            trajectory: look(layout.trajectory.as_str()),
            committee_models: look(layout.committee_models.as_str()),
            output_dir: look(layout.generation_dir.as_str()),
            selected_structures: look(layout.selected_structures.as_str()),
        };
        let r = DisagreementWorkspace::describe_job(layout, generation, settings, &probes);
        proof {
            let chosen = layout.python_script(result_view(*home), files@);
            assert(chosen == Ok::<Text, Text>(script@));
            assert(probes.are_found(look, *layout, chosen->Ok_0));
            assert(is_job(r, *layout, probes, generation, *settings));
        }
        r
    }

    /// The job script of a generation, by what was found of the paths that it names.
    pub fn describe_job(
        layout: &JobLayout,
        generation: u32,
        settings: &DisagreementSettings,
        probes: &JobProbes,
    ) -> (r: Result<JobScriptPlan, String>)
        ensures
            is_job(r, *layout, *probes, generation, *settings),
    {
        let paths = match probes.resolve() {
            Ok(paths) => paths,
            Err(e) => {
                return Err(e);
            },
        };
        let ghost named = paths@;
        let max_selected = match settings.bootstrap_max_selected {
            Some(limit) if generation == 0 => limit,
            _ => settings.max_selected,
        };
        let mut variables: Vec<Variable<String>> = Vec::new();
        variables.push(variable("generation", decimal(generation as u64)));
        variables.push(variable("project_dir", paths.project_dir));
        variables.push(variable("python_script", paths.python_script));
        variables.push(variable("trajectory", paths.trajectory));
        variables.push(variable("committee_models", paths.committee_models));
        variables.push(variable("output_dir", paths.output_dir));
        variables.push(variable("selected_structures", paths.selected_structures));
        variables.push(variable("max_selected", decimal(max_selected as u64)));
        variables.push(variable("min_rrmse", settings.min_rrmse.text.clone()));
        variables.push(variable("max_rrmse", settings.max_rrmse.text.clone()));
        assert(views(variables@) =~= job_variables(named, generation, *settings));
        Ok(
            JobScriptPlan {
                template: layout.template.clone(),
                script: layout.script.clone(),
                variables,
                render_failure: text3(
                    "Failed to render disagreement job template ",
                    layout.template.as_str(),
                    ": ",
                ),
                permissions: set_executable(layout.script.as_str()),
                executable_failure: text3(
                    "Failed to mark disagreement job script executable ",
                    layout.script.as_str(),
                    ": ",
                ),
            },
        )
    }
}

} // verus!
