//! The making of a disagreement job script from its start to its end: what it asks for, and how it
//! goes on.
use crate::disagreement::DisagreementWorkspace;
use crate::effects::{Effect, Files, copy_effect};
use crate::job_script::{FileMode, JobLayout, JobScriptPlan, is_found_job, set_executable};
use crate::paths::{PathProbe, Variable};
use crate::selection::DisagreementSettings;
use crate::text::{Text, text2, text4, views};
use crate::watching::{files_for_job, watched_for_job};
use vstd::pervasive::unreached;
use vstd::prelude::*;

verus! {

/// A job script that is to be made.
pub struct ScriptJob<'a> {
    /// The project.
    pub project_dir: &'a str,
    /// The setup of the project.
    pub setup_dir: &'a str,
    /// The generation.
    pub generation: u32,
    /// The backend of the models.
    pub backend: &'a str,
    /// Which frames are selected.
    pub settings: &'a DisagreementSettings,
}

/// Something that the making of a job script asks for.
#[derive(Debug)]
pub enum ScriptRequest {
    /// That something is done to files.
    Perform {
        /// What is to be done.
        effect: Effect<String>,
    },
    /// The directory that holds the scripts and environments.
    Home,
    /// Which of the paths are files.
    Look {
        /// The paths.
        paths: Vec<String>,
    },
    /// That the template is filled in.
    Render {
        /// The template.
        template: String,
        /// The job script.
        script: String,
        /// What is put into the template.
        variables: Vec<Variable<String>>,
    },
    /// That a file is given permissions.
    SetMode {
        /// The file and its permissions.
        permissions: FileMode,
    },
}

/// What the making of a job script is told of what it asked for.
pub enum ScriptReply {
    /// Whether it was done, or why it could not be.
    Performed(Result<(), String>),
    /// The directory that holds the scripts and environments, or why there is none.
    Home(Result<String, String>),
    /// Which of the paths are files.
    Files(Files),
}

/// How far the making of a job script has come: what it waits for.
#[derive(Debug)]
pub enum ScriptStage {
    /// That the directories are made.
    Making {
        /// How many of them were.
        done: usize,
    },
    /// The directory that holds the scripts and environments.
    Finding,
    /// Which of the files there are.
    Looking {
        /// The directory that holds the scripts and environments.
        home: String,
    },
    /// That the template is filled in.
    Rendering,
    /// That the script is made executable.
    Marking,
}

impl ScriptStage {
    /// Whether a reply is one to what the stage waits for.
    pub open spec fn awaits(self, reply: ScriptReply) -> bool {
        match self {
            ScriptStage::Making { done } => reply is Performed && done < 2,
            ScriptStage::Finding => reply is Home,
            ScriptStage::Looking { .. } => reply is Files,
            ScriptStage::Rendering | ScriptStage::Marking => reply is Performed,
        }
    }

    /// Whether a reply is one to what the stage waits for.
    pub fn accepts(&self, reply: &ScriptReply) -> (r: bool)
        ensures
            r == self.awaits(*reply),
    {
        match (self, reply) {
            (ScriptStage::Making { done }, ScriptReply::Performed(_)) => *done < 2,
            (ScriptStage::Finding, ScriptReply::Home(_)) => true,
            (ScriptStage::Looking { .. }, ScriptReply::Files(_)) => true,
            (ScriptStage::Rendering, ScriptReply::Performed(_)) => true,
            (ScriptStage::Marking, ScriptReply::Performed(_)) => true,
            _ => false,
        }
    }
}

/// What the making of a job script comes to next.
#[derive(Debug)]
pub enum ScriptProgress {
    /// It asks for something.
    Ask {
        /// What it asks for.
        request: ScriptRequest,
        /// How far it has come.
        stage: ScriptStage,
    },
    /// The job script is made, and lies here.
    Finished(String),
    /// It cannot be made, and why.
    Failed(String),
}

impl ScriptProgress {
    /// Whether it fails with an error.
    pub open spec fn fails(self, error: Text) -> bool {
        self matches ScriptProgress::Failed(e) && e@ == error
    }

    /// Whether it asks for the next directory where `done` of them were made, and after them for the
    /// directory that holds the scripts and environments.
    pub open spec fn makes(self, layout: JobLayout, done: int) -> bool {
        if done < layout.directories().len() {
            &&& self matches ScriptProgress::Ask { request, stage }
            &&& request matches ScriptRequest::Perform { effect }
            &&& effect@ == layout.directories()[done]
            &&& stage matches ScriptStage::Making { done: d }
            &&& d == done
        } else {
            &&& self matches ScriptProgress::Ask { request, stage }
            &&& request is Home
            &&& stage is Finding
        }
    }

    /// Whether it asks which of the files there are that decide whether the job script can be made.
    pub open spec fn looks(self, layout: JobLayout, home: Text) -> bool {
        &&& self matches ScriptProgress::Ask { request, stage }
        &&& request matches ScriptRequest::Look { paths }
        &&& views(paths@) == watched_for_job(layout, Ok(home))
        &&& stage matches ScriptStage::Looking { home: h }
        &&& h@ == home
    }

    /// Whether it asks that the template is filled in as a plan says, or fails where there is none.
    pub open spec fn renders(self, plan: Result<JobScriptPlan, String>) -> bool {
        match plan {
            Ok(plan) => {
                &&& self matches ScriptProgress::Ask { request, stage }
                &&& request matches ScriptRequest::Render { template, script, variables }
                &&& template@ == plan.template@
                &&& script@ == plan.script@
                &&& views(variables@) == views(plan.variables@)
                &&& stage is Rendering
            },
            Err(e) => self.fails(e@),
        }
    }

    /// Whether it asks that the job script is made executable.
    pub open spec fn marks(self, layout: JobLayout) -> bool {
        &&& self matches ScriptProgress::Ask { request, stage }
        &&& request matches ScriptRequest::SetMode { permissions }
        &&& permissions.path@ == layout.script@
        &&& permissions.mode == 0o755
        &&& stage is Marking
    }
}

/// Whether the making of a job script may come from a stage to `r` with a reply: the two directories
/// are made, then the files are found, then the template is filled in, and then the script is made
/// executable. After something that cannot be done nothing is asked for.
pub open spec fn is_next_for_script<L: Fn(&str) -> PathProbe>(
    job: ScriptJob,
    layout: JobLayout,
    stage: ScriptStage,
    reply: ScriptReply,
    look: L,
    r: ScriptProgress,
) -> bool {
    match (stage, reply) {
        (ScriptStage::Making { done }, ScriptReply::Performed(result)) => match result {
            Ok(_) => r.makes(layout, done + 1),
            Err(e) => r.fails(layout.directories()[done as int].failure_text() + e@),
        },
        (ScriptStage::Finding, ScriptReply::Home(home)) => match home {
            Ok(home) => r.looks(layout, home@),
            Err(e) => r.fails(e@),
        },
        (
            ScriptStage::Looking { home },
            ScriptReply::Files(files),
        ) => exists|plan: Result<JobScriptPlan, String>|
            {
                &&& #[trigger] is_found_job(
                    plan,
                    layout,
                    job.generation,
                    *job.settings,
                    Ok(home),
                    files@,
                    look,
                )
                &&& r.renders(plan)
            },
        (ScriptStage::Rendering, ScriptReply::Performed(result)) => match result {
            Ok(_) => r.marks(layout),
            Err(e) => r.fails(
                "Failed to render disagreement job template "@ + layout.template@ + ": "@ + e@,
            ),
        },
        (ScriptStage::Marking, ScriptReply::Performed(result)) => match result {
            Ok(_) => r matches ScriptProgress::Finished(script) && script@ == layout.script@,
            Err(e) => r.fails(
                "Failed to mark disagreement job script executable "@ + layout.script@ + ": "@ + e@,
            ),
        },
        _ => false,
    }
}

/// Asks for the next directory where `done` of them were made, and after them for the directory that
/// holds the scripts and environments.
fn make_next(layout: &JobLayout, done: usize) -> (r: ScriptProgress)
    ensures
        r.makes(*layout, done as int),
{
    let effects = layout.effects();
    assert(views(effects@).len() == effects@.len());
    if done < effects.len() {
        let effect = copy_effect(&effects[done]);
        assert(effect@ == views(effects@)[done as int]);
        ScriptProgress::Ask {
            request: ScriptRequest::Perform { effect },
            stage: ScriptStage::Making { done },
        }
    } else {
        ScriptProgress::Ask { request: ScriptRequest::Home, stage: ScriptStage::Finding }
    }
}

impl<'a> ScriptJob<'a> {
    /// Whether the files of the job lie where `layout` says.
    pub open spec fn lies(self, layout: JobLayout) -> bool {
        layout.is_for(self.project_dir@, self.setup_dir@, self.generation, self.backend@)
    }

    /// Starts to make the job script: asks for the first of its directories.
    pub fn start(&self) -> (r: ScriptProgress)
        ensures
            exists|layout: JobLayout| #[trigger] self.lies(layout) && r.makes(layout, 0),
    {
        let layout = JobLayout::new(
            self.project_dir,
            self.setup_dir,
            self.generation,
            self.backend,
        );
        assert(self.lies(layout));
        make_next(&layout, 0)
    }

    /// Goes on to make the job script. `look` looks at a path that the script names.
    pub fn resume<L: Fn(&str) -> PathProbe>(
        &self,
        stage: ScriptStage,
        reply: ScriptReply,
        look: L,
    ) -> (r: ScriptProgress)
        requires
            stage.awaits(reply),
            forall|path: &str| #[trigger] call_requires(look, (path,)),
        ensures
            exists|layout: JobLayout| #[trigger]
                self.lies(layout) && is_next_for_script(*self, layout, stage, reply, look, r),
    {
        let layout = JobLayout::new(
            self.project_dir,
            self.setup_dir,
            self.generation,
            self.backend,
        );
        assert(self.lies(layout));
        match (stage, reply) {
            (ScriptStage::Making { done }, ScriptReply::Performed(result)) => match result {
                Ok(_) => {
                    let r = make_next(&layout, done + 1);
                    assert(is_next_for_script(*self, layout, stage, reply, look, r));
                    r
                },
                Err(e) => {
                    let effects = layout.effects();
                    assert(views(effects@).len() == effects@.len());
                    assert(views(effects@)[done as int] == effects@[done as int]@);
                    let r = ScriptProgress::Failed(text2(effects[done].failure(), e.as_str()));
                    assert(is_next_for_script(*self, layout, stage, reply, look, r));
                    r
                },
            },
            (ScriptStage::Finding, ScriptReply::Home(found)) => {
                let r = look_for_files(&layout, found);
                assert(is_next_for_script(*self, layout, stage, reply, look, r));
                r
            },
            (ScriptStage::Looking { home }, ScriptReply::Files(files)) => {
                self.render_plan(home, &files, look)
            },
            (ScriptStage::Rendering, ScriptReply::Performed(result)) => {
                let r = match result {
                    Ok(_) => ScriptProgress::Ask {
                        request: ScriptRequest::SetMode {
                            permissions: set_executable(layout.script.as_str()),
                        },
                        stage: ScriptStage::Marking,
                    },
                    Err(e) => ScriptProgress::Failed(
                        text4(
                            "Failed to render disagreement job template ",
                            layout.template.as_str(),
                            ": ",
                            e.as_str(),
                        ),
                    ),
                };
                assert(is_next_for_script(*self, layout, stage, reply, look, r));
                r
            },
            (ScriptStage::Marking, ScriptReply::Performed(result)) => {
                let r = match result {
                    Ok(_) => ScriptProgress::Finished(layout.script.clone()),
                    Err(e) => ScriptProgress::Failed(
                        text4(
                            "Failed to mark disagreement job script executable ",
                            layout.script.as_str(),
                            ": ",
                            e.as_str(),
                        ),
                    ),
                };
                assert(is_next_for_script(*self, layout, stage, reply, look, r));
                r
            },
            _ => unreached(),
        }
    }

    /// Asks that the template is filled in, where all is there that the job script needs.
    fn render_plan<L: Fn(&str) -> PathProbe>(&self, home: String, files: &Files, look: L) -> (r:
        ScriptProgress)
        requires
            forall|path: &str| #[trigger] call_requires(look, (path,)),
        ensures
            exists|layout: JobLayout, plan: Result<JobScriptPlan, String>|
                {
                    &&& #[trigger] self.lies(layout)
                    &&& #[trigger] is_found_job(
                        plan,
                        layout,
                        self.generation,
                        *self.settings,
                        Ok(home),
                        files@,
                        look,
                    )
                    &&& r.renders(plan)
                },
    {
        let found: Result<String, String> = Ok(home);
        let plan = DisagreementWorkspace::create_real_job_script(
            self.project_dir,
            self.setup_dir,
            self.generation,
            self.backend,
            self.settings,
            &found,
            files,
            look,
        );
        let ghost made = plan;
        proof {
            let layout = choose|layout: JobLayout| #[trigger]
                layout.is_for(self.project_dir@, self.setup_dir@, self.generation, self.backend@)
                    && is_found_job(
                    made,
                    layout,
                    self.generation,
                    *self.settings,
                    found,
                    files@,
                    look,
                );
            assert(self.lies(layout));
            assert(is_found_job(
                made,
                layout,
                self.generation,
                *self.settings,
                Ok(home),
                files@,
                look,
            ));
        }
        let r = match plan {
            Ok(JobScriptPlan { template, script, variables, .. }) => ScriptProgress::Ask {
                request: ScriptRequest::Render { template, script, variables },
                stage: ScriptStage::Rendering,
            },
            Err(e) => ScriptProgress::Failed(e),
        };
        assert(r.renders(made));
        r
    }
}

/// Asks which of the files there are that decide whether the job script can be made.
fn look_for_files(layout: &JobLayout, found: Result<String, String>) -> (r: ScriptProgress)
    ensures
        match found {
            Ok(home) => r.looks(*layout, home@),
            Err(e) => r.fails(e@),
        },
{
    let paths = files_for_job(layout, &found);
    match found {
        Ok(home) => ScriptProgress::Ask {
            request: ScriptRequest::Look { paths },
            stage: ScriptStage::Looking { home },
        },
        Err(e) => ScriptProgress::Failed(e),
    }
}

} // verus!
