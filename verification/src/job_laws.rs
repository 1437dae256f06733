//! What the job of a generation is told, and where the results of a generation lie.
use crate::disagreement::{MockEvaluation, MockLayout, scores_text, selected_places};
use crate::effects::Effect;
use crate::job_script::{JobLayout, JobScriptPlan, is_found_job, job_variables};
use crate::number::decimal_of;
use crate::paths::{PathProbe, Variable, below};
use crate::report::{MeasuredFrame, xyz_text};
use crate::selection::DisagreementSettings;
use crate::text::{Text, result_view, views};
use vstd::prelude::*;

verus! {

/// The directory of a generation in the directory of a kind of work.
pub open spec fn work_dir(project_dir: Text, work: Text, generation: u32) -> Text {
    below(below(project_dir, work), "generation_"@ + decimal_of(generation as nat))
}

/// The file of the structures that a generation selects.
pub open spec fn selection_of(project_dir: Text, generation: u32) -> Text {
    below(
        below(project_dir, "selected_structures"@),
        "generation_"@ + decimal_of(generation as nat) + ".xyz"@,
    )
}

/// Whether a template is told one value under a name, and no other.
pub open spec fn is_told(variables: Seq<Variable<Text>>, key: Text, value: Text) -> bool {
    &&& exists|i: int| 0 <= i < variables.len() && (#[trigger] variables[i]).key == key
    &&& forall|i: int|
        0 <= i < variables.len() && (#[trigger] variables[i]).key == key ==> variables[i].value
            == value
}

/// The names that a template is told differ.
proof fn lemma_names()
    ensures
        ({
            let names = seq![
                "generation"@,
                "project_dir"@,
                "python_script"@,
                "trajectory"@,
                "committee_models"@,
                "output_dir"@,
                "selected_structures"@,
                "max_selected"@,
                "min_rrmse"@,
                "max_rrmse"@,
            ];
            forall|i: int, j: int|
                0 <= i < j < names.len() ==> #[trigger] names[i] != #[trigger] names[j]
        }),
{
    reveal_strlit("generation");
    reveal_strlit("project_dir");
    reveal_strlit("python_script");
    reveal_strlit("trajectory");
    reveal_strlit("committee_models");
    reveal_strlit("output_dir");
    reveal_strlit("selected_structures");
    reveal_strlit("max_selected");
    reveal_strlit("min_rrmse");
    reveal_strlit("max_rrmse");
    assert("generation"@.len() == 10 && "output_dir"@.len() == 10 && "trajectory"@.len() == 10);
    assert("project_dir"@.len() == 11 && "max_selected"@.len() == 12);
    assert("python_script"@.len() == 13 && "committee_models"@.len() == 16);
    assert("selected_structures"@.len() == 19);
    assert("min_rrmse"@.len() == 9 && "max_rrmse"@.len() == 9);
    assert("generation"@[0] == 'g' && "output_dir"@[0] == 'o' && "trajectory"@[0] == 't');
    assert("min_rrmse"@[1] == 'i' && "max_rrmse"@[1] == 'a');
}

/// Whether every path that is looked at has an absolute path, and which.
pub open spec fn resolves<L: Fn(&str) -> PathProbe>(look: L, absolute: spec_fn(Text) -> Text) -> bool {
    forall|path: &str, probe: PathProbe| #[trigger]
        call_ensures(look, (path,), probe) ==> probe.absolute() == Ok::<Text, Text>(absolute(path@))
}

/// A job script is made of the template of its backend, and told the absolute paths of the project,
/// of the script that computes the disagreement, of the trajectory and the models of the generation,
/// of the directory of the results and of the file of the selected structures; beside them the
/// generation, and how many structures are selected, and between which limits.
pub proof fn law_jobs_are_told_where_their_files_lie<L: Fn(&str) -> PathProbe>(
    r: Result<JobScriptPlan, String>,
    layout: JobLayout,
    project_dir: Text,
    setup_dir: Text,
    generation: u32,
    backend: Text,
    settings: DisagreementSettings,
    home: Result<String, String>,
    files: Set<Text>,
    look: L,
    absolute: spec_fn(Text) -> Text,
)
    requires
        layout.is_for(project_dir, setup_dir, generation, backend),
        is_found_job(r, layout, generation, settings, home, files, look),
        resolves(look, absolute),
    ensures
        ({
            let runs = work_dir(project_dir, "md_runs"@, generation);
            let results = work_dir(project_dir, "disagreement"@, generation);
            let template = below(
                below(setup_dir, "jobscripts"@),
                backend + "_disagreement.sh.template"@,
            );
            let own = below(
                below(below(below(project_dir, "external"@), "alchemist"@), "python"@),
                "committee_disagreement.py"@,
            );
            let installed = below(
                below(result_view(home)->Ok_0, "python"@),
                "committee_disagreement.py"@,
            );
            &&& r is Ok <==> home is Ok && files.contains(template) && (files.contains(own)
                || files.contains(installed))
            &&& r matches Ok(plan) ==> {
                let told = views(plan.variables@);
                let script = if files.contains(own) {
                    own
                } else {
                    installed
                };
                &&& plan.template@ == template
                &&& plan.script@ == below(results, "submit_disagreement.sh"@)
                &&& plan.permissions.path@ == plan.script@
                &&& plan.permissions.mode == 0o755
                &&& told.len() == 10
                &&& is_told(told, "generation"@, decimal_of(generation as nat))
                &&& is_told(told, "project_dir"@, absolute(project_dir))
                &&& is_told(told, "python_script"@, absolute(script))
                &&& is_told(
                    told,
                    "trajectory"@,
                    absolute(below(below(runs, "run_000"@), "traj.dump"@)),
                )
                &&& is_told(told, "committee_models"@, absolute(below(runs, "committee_models"@)))
                &&& is_told(told, "output_dir"@, absolute(results))
                &&& is_told(
                    told,
                    "selected_structures"@,
                    absolute(selection_of(project_dir, generation)),
                )
                &&& is_told(
                    told,
                    "max_selected"@,
                    decimal_of(
                        if generation == 0 && settings.bootstrap_max_selected is Some {
                            settings.bootstrap_max_selected->0 as nat
                        } else {
                            settings.max_selected as nat
                        },
                    ),
                )
                &&& is_told(told, "min_rrmse"@, settings.min_rrmse.text@)
                &&& is_told(told, "max_rrmse"@, settings.max_rrmse.text@)
            }
        }),
{
    let chosen = layout.python_script(result_view(home), files);
    if chosen is Ok && files.contains(layout.template@) {
        let probes = choose|probes: crate::job_script::JobProbes|
            {
                &&& #[trigger] probes.are_found(look, layout, chosen->Ok_0)
                &&& crate::job_script::is_job(r, layout, probes, generation, settings)
            };
        let plan = r->Ok_0;
        let told = views(plan.variables@);
        assert(r is Ok);
        let paths = probes.absolute()->Ok_0;
        assert(told == job_variables(paths, generation, settings));
        lemma_names();
        let names = seq![
            "generation"@,
            "project_dir"@,
            "python_script"@,
            "trajectory"@,
            "committee_models"@,
            "output_dir"@,
            "selected_structures"@,
            "max_selected"@,
            "min_rrmse"@,
            "max_rrmse"@,
        ];
        assert forall|i: int| 0 <= i < 10 implies (#[trigger] told[i]).key == names[i] by {}
        assert forall|i: int| 0 <= i < 10 implies is_told(
            told,
            #[trigger] names[i],
            told[i].value,
        ) by {
            assert(told[i].key == names[i]);
            assert forall|j: int| 0 <= j < told.len() && (#[trigger] told[j]).key
                == names[i] implies told[j].value == told[i].value by {
                assert(told[j].key == names[j]);
                if i < j {
                    assert(names[i] != names[j]);
                } else if j < i {
                    assert(names[j] != names[i]);
                }
            }
        }
        assert(is_told(told, names[0], told[0].value) && is_told(told, names[1], told[1].value));
        assert(is_told(told, names[2], told[2].value) && is_told(told, names[3], told[3].value));
        assert(is_told(told, names[4], told[4].value) && is_told(told, names[5], told[5].value));
        assert(is_told(told, names[6], told[6].value) && is_told(told, names[7], told[7].value));
        assert(is_told(told, names[8], told[8].value) && is_told(told, names[9], told[9].value));
    }
}

/// A path that is looked at has an absolute path: its own without links, where there is something
/// there, and else its name below that of the directory above.
pub proof fn law_absolute_paths(probe: PathProbe)
    ensures
        match probe.absolute() {
            Ok(path) => {
                &&& probe.exists ==> (probe.canonical matches Ok(own) && path == own@)
                &&& !probe.exists ==> {
                    &&& probe.parent is Some
                    &&& probe.canonical_parent matches Ok(dir)
                    &&& probe.file_name matches Some(name)
                    &&& path == below(dir@, name@)
                }
            },
            Err(_) => {
                &&& probe.exists ==> probe.canonical is Err
                &&& !probe.exists ==> probe.parent is None || probe.file_name is None
                    || probe.canonical_parent is Err
            },
        },
{
}

/// What a file holds after things were done to files, where that is known from them.
pub open spec fn text_after(effects: Seq<Effect<Text>>, path: Text) -> Option<Text>
    decreases effects.len(),
{
    if effects.len() == 0 {
        None
    } else {
        let before = effects.drop_last();
        match effects.last() {
            Effect::Write { path: written, text, .. } if written == path => Some(text),
            Effect::Copy { from, to, .. } if to == path => text_after(before, from),
            _ => text_after(before, path),
        }
    }
}

/// Whether a directory is made before a place in what is done to files.
pub open spec fn is_made(effects: Seq<Effect<Text>>, dir: Text, place: int) -> bool {
    exists|i: int|
        0 <= i < place && ((#[trigger] effects[i]) matches Effect::CreateDir { path, .. } && path
            == dir)
}

/// The results of a generation lie where the outcome of its evaluation says: the table of scores in
/// the directory of its disagreement, and the selected structures in a file of its own, with a copy
/// beside the table. As many structures are reported as were selected. Each file is written into a
/// directory that was made before.
pub proof fn law_results_lie_where_they_are_said_to(
    evaluation: MockEvaluation,
    layout: MockLayout,
    project_dir: Text,
    generation: u32,
    measured: Seq<MeasuredFrame>,
    species: Seq<Text>,
    settings: DisagreementSettings,
)
    requires
        layout.is_for(project_dir, generation),
        evaluation.is_of(layout, measured, species, settings),
    ensures
        ({
            let effects = views(evaluation.effects@);
            let results = work_dir(project_dir, "disagreement"@, generation);
            let places = selected_places(measured, settings);
            let structures = xyz_text(measured, places, species);
            &&& text_after(effects, below(results, "scores.csv"@)) == Some(
                scores_text(measured, settings),
            )
            &&& is_made(effects, results, 1)
            &&& evaluation.outcome is Ok <==> structures is Ok
            &&& evaluation.outcome matches Ok(result) ==> {
                &&& result.scores_path@ == below(results, "scores.csv"@)
                &&& result.selected_path@ == selection_of(project_dir, generation)
                &&& result.selected_count == places.len()
                &&& text_after(effects, result.selected_path@) == Some(structures->Ok_0)
                &&& effects.contains(
                    Effect::Write {
                        path: below(results, "selected.xyz"@),
                        text: structures->Ok_0,
                        failure: "Failed to write "@ + below(results, "selected.xyz"@) + ": "@,
                    },
                )
                &&& is_made(effects, below(project_dir, "selected_structures"@), 4)
                &&& effects.len() == 5
            }
            &&& evaluation.outcome is Err ==> effects.len() == 2
        }),
{
    let effects = views(evaluation.effects@);
    let results = work_dir(project_dir, "disagreement"@, generation);
    let scores = below(results, "scores.csv"@);
    let local = below(results, "selected.xyz"@);
    let selected = selection_of(project_dir, generation);
    reveal_strlit("scores.csv");
    reveal_strlit("selected.xyz");
    reveal_strlit(".xyz");
    assert(scores.last() == 'v' && local.last() == 'z');
    let name = "generation_"@ + decimal_of(generation as nat) + ".xyz"@;
    assert(name.last() == 'z');
    assert(selected.last() == 'z');
    let e2 = effects.take(2);
    let e1 = effects.take(1);
    assert(e2.drop_last() =~= e1);
    assert(text_after(e2, scores) == Some(scores_text(measured, settings)));
    assert(effects[0] is CreateDir && effects[0]->CreateDir_path == results);
    if evaluation.outcome is Ok {
        let e3 = effects.take(3);
        let e4 = effects.take(4);
        assert(effects.drop_last() =~= e4);
        assert(e4.drop_last() =~= e3);
        assert(e3.drop_last() =~= e2);
        assert(text_after(e3, scores) == text_after(e2, scores));
        assert(text_after(e4, scores) == text_after(e3, scores));
        assert(text_after(e3, local) is Some);
        assert(text_after(e4, local) == text_after(e3, local));
        assert(effects[2] is Write && effects[2]->Write_path == local);
        assert(effects[3] is CreateDir && effects[3]->CreateDir_path == below(
            project_dir,
            "selected_structures"@,
        ));
    } else {
        assert(effects =~= e2);
    }
}

/// A simulation is evaluated in the directory of its generation: its structure, its trajectory and
/// its input lie there.
pub proof fn law_simulations_lie_in_their_generation(
    layout: MockLayout,
    project_dir: Text,
    generation: u32,
)
    requires
        layout.is_for(project_dir, generation),
    ensures
        ({
            let run = below(work_dir(project_dir, "md_runs"@, generation), "run_000"@);
            &&& layout.data@ == below(run, "lmp.data"@)
            &&& layout.trajectory@ == below(run, "traj.dump"@)
            &&& layout.input@ == below(run, "input.lmp"@)
        }),
{
}

} // verus!
