//! The data that models are trained on.
use crate::backend::{EnergyMode, ModelBackend};
use crate::effects::{Effect, Files};
use crate::number::{decimal, decimal_of};
use crate::paths::{
    CacheEnvironment, CommandLine, below, cache_variables, child, descendant, generation_dir,
    generation_part, grandchild, make_directories, python_arguments, python_command,
};
use crate::text::{Text, lemma_views_push, option_view, result_view, text2, text4, views};
use vstd::prelude::*;

verus! {

/// One of the files that may hold the seed dataset of a project.
pub open spec fn seed_file(project_dir: Text, name: Text) -> Text {
    below(below(below(project_dir, "setup"@), "training"@), name)
}

/// The seed dataset of a project: the extended file where there is one, and else the plain one.
pub open spec fn seed_dataset(project_dir: Text, files: Set<Text>) -> Result<Text, Text> {
    let extxyz = seed_file(project_dir, "seed_dataset.extxyz"@);
    let xyz = seed_file(project_dir, "seed_dataset.xyz"@);
    if files.contains(extxyz) {
        Ok(extxyz)
    } else if files.contains(xyz) {
        Ok(xyz)
    } else {
        Err(
            "dry-run selected structures missing and no seed dataset found; expected "@ + extxyz
                + " or "@ + xyz,
        )
    }
}

/// The seed dataset of a project, which takes the place of selected structures in a dry run.
pub fn dry_seed_dataset(project_dir: &str, files: &Files) -> (r: Result<String, String>)
    ensures
        result_view(r) == seed_dataset(project_dir@, files@),
{
    let extxyz = descendant(project_dir, "setup", "training", "seed_dataset.extxyz");
    let xyz = descendant(project_dir, "setup", "training", "seed_dataset.xyz");
    if files.is_file(extxyz.as_str()) {
        Ok(extxyz)
    } else if files.is_file(xyz.as_str()) {
        Ok(xyz)
    } else {
        Err(
            text4(
                "dry-run selected structures missing and no seed dataset found; expected ",
                extxyz.as_str(),
                " or ",
                xyz.as_str(),
            ),
        )
    }
}

/// The files that hold the training data of a backend.
pub open spec fn dataset_files(backend: ModelBackend) -> Seq<Text> {
    match backend {
        ModelBackend::Upet => seq!["train.extxyz"@, "validation.extxyz"@, "test.extxyz"@],
        ModelBackend::N2p2 => seq!["input.data"@],
    }
}

/// What stands in a file that takes the place of training data in a dry run.
pub open spec fn placeholder(backend: ModelBackend) -> Text {
    match backend {
        ModelBackend::Upet => "# dry-run placeholder dataset\n"@,
        ModelBackend::N2p2 => "# dry-run placeholder n2p2 dataset\n"@,
    }
}

/// Where the training data of a generation lie.
pub open spec fn dataset_dir(project_dir: Text, generation: u32) -> Text {
    below(generation_part(project_dir, "training"@, generation), "dataset"@)
}

/// Writing `text` to those of the files in `dir` that are not there.
pub open spec fn fill_missing(
    dir: Text,
    names: Seq<Text>,
    text: Text,
    files: Set<Text>,
) -> Seq<Effect<Text>>
    decreases names.len(),
{
    if names.len() == 0 {
        Seq::empty()
    } else {
        let earlier = fill_missing(dir, names.drop_last(), text, files);
        let path = below(dir, names.last());
        if files.contains(path) {
            earlier
        } else {
            earlier.push(Effect::Write { path, text, failure: Seq::empty() })
        }
    }
}

/// What a dry run does in place of preparing training data.
pub open spec fn dry_dataset(
    project_dir: Text,
    generation: u32,
    backend: ModelBackend,
    checkpoint: Option<Text>,
    files: Set<Text>,
) -> Result<Seq<Effect<Text>>, Text> {
    let dir = dataset_dir(project_dir, generation);
    let effects = seq![Effect::CreateDir { path: dir, failure: Seq::empty() }] + fill_missing(
        dir,
        dataset_files(backend),
        placeholder(backend),
        files,
    );
    match (backend, checkpoint) {
        (ModelBackend::N2p2, _) => Ok(effects),
        (ModelBackend::Upet, None) => Err("UPET dry-run requires a checkpoint"@),
        (ModelBackend::Upet, Some(path)) => if files.contains(path) {
            Ok(effects)
        } else {
            Err("checkpoint does not exist: "@ + path)
        },
    }
}

/// Adds writing a file that is not there.
fn fill(
    effects: &mut Vec<Effect<String>>,
    dir: &str,
    name: &str,
    text: &str,
    files: &Files,
    Ghost(head): Ghost<Seq<Effect<Text>>>,
    Ghost(names): Ghost<Seq<Text>>,
)
    requires
        views(old(effects)@) == head + fill_missing(dir@, names, text@, files@),
    ensures
        views(final(effects)@) == head + fill_missing(dir@, names.push(name@), text@, files@),
{
    let path = child(dir, name);
    proof {
        assert(names.push(name@).drop_last() =~= names);
    }
    if !files.is_file(path.as_str()) {
        let effect = Effect::Write { path, text: text.to_owned(), failure: String::new() };
        proof {
            lemma_views_push(effects@, effect);
        }
        effects.push(effect);
        assert(views(effects@) =~= head + fill_missing(dir@, names.push(name@), text@, files@));
    }
}

/// What a dry run does in place of preparing training data: it makes sure that the files are there.
pub fn prepare_dry_training_dataset(
    project_dir: &str,
    generation: u32,
    backend: ModelBackend,
    checkpoint: &Option<String>,
    files: &Files,
) -> (r: Result<Vec<Effect<String>>, String>)
    ensures
        (match r {
            Ok(effects) => Ok(views(effects@)),
            Err(e) => Err(e@),
        }) == dry_dataset(project_dir@, generation, backend, option_view(*checkpoint), files@),
{
    if let ModelBackend::Upet = backend {
        match checkpoint {
            None => {
                return Err("UPET dry-run requires a checkpoint".to_owned());
            },
            Some(path) => if !files.is_file(path.as_str()) {
                return Err(text2("checkpoint does not exist: ", path.as_str()));
            },
        }
    }
    let generation_dir = generation_dir(project_dir, "training", generation);
    let dir = child(generation_dir.as_str(), "dataset");
    let mut effects: Vec<Effect<String>> = Vec::new();
    let ghost head = seq![Effect::CreateDir { path: dir@, failure: Seq::<char>::empty() }];
    let ghost n = Seq::<Text>::empty();
    effects.push(Effect::CreateDir { path: dir.clone(), failure: String::new() });
    let text = match backend {
        ModelBackend::Upet => "# dry-run placeholder dataset\n",
        ModelBackend::N2p2 => "# dry-run placeholder n2p2 dataset\n",
    };
    assert(views(effects@) =~= head + fill_missing(dir@, n, text@, files@));
    match backend {
        ModelBackend::Upet => {
            let ghost n1 = n.push("train.extxyz"@);
            let ghost n2 = n1.push("validation.extxyz"@);
            fill(&mut effects, dir.as_str(), "train.extxyz", text, files, Ghost(head), Ghost(n));
            fill(
                &mut effects,
                dir.as_str(),
                "validation.extxyz",
                text,
                files,
                Ghost(head),
                Ghost(n1),
            );
            fill(&mut effects, dir.as_str(), "test.extxyz", text, files, Ghost(head), Ghost(n2));
            assert(n2.push("test.extxyz"@) =~= dataset_files(backend));
        },
        ModelBackend::N2p2 => {
            fill(&mut effects, dir.as_str(), "input.data", text, files, Ghost(head), Ghost(n));
            assert(n.push("input.data"@) =~= dataset_files(backend));
        },
    }
    Ok(effects)
}

/// The arguments of the script that prepares training data.
pub open spec fn dataset_arguments(
    home: Text,
    project_dir: Text,
    generation: u32,
    backend: ModelBackend,
    checkpoint: Option<Text>,
    energy_mode: EnergyMode,
) -> Seq<Text> {
    python_arguments(home, backend.key()) + seq![
        below(below(home, "python"@), backend.script()),
        project_dir,
        decimal_of(generation as nat),
        match checkpoint {
            Some(path) => path,
            None => Seq::empty(),
        },
        energy_mode.name(),
    ]
}

/// The command that prepares the training data of a generation. `home` is the directory of the
/// installation, or why there is none.
pub fn prepare_training_dataset(
    project_dir: &str,
    generation: u32,
    backend: ModelBackend,
    checkpoint: &Option<String>,
    energy_mode: EnergyMode,
    home: &Result<String, String>,
    set: CacheEnvironment,
) -> (r: Result<CommandLine, String>)
    ensures
        match *home {
            Err(e) => r matches Err(error) && error@ == e@,
            Ok(home) => {
                &&& r matches Ok(command)
                &&& command.program@ == "pixi"@
                &&& command.current_dir@ == home@
                &&& views(command.variables@) == cache_variables(home@, set)
                &&& views(command.effects@) == make_directories(
                    cache_variables(home@, set),
                    "Failed to configure Pixi: "@,
                )
                &&& command.failure@ == "Failed to spawn companion dataset engine: "@
                &&& views(command.arguments@) == dataset_arguments(
                    home@,
                    project_dir@,
                    generation,
                    backend,
                    option_view(*checkpoint),
                    energy_mode,
                )
            },
        },
{
    let home = match home {
        Ok(home) => home,
        Err(e) => {
            return Err(e.clone());
        },
    };
    let mut command = python_command(
        home.as_str(),
        backend.pixi_env(),
        set,
        "Failed to configure Pixi: ",
        "Failed to spawn companion dataset engine: ",
    );
    let ghost prefix = command.arguments@;
    assert(views(prefix).len() == 6);
    command.arguments.push(grandchild(home.as_str(), "python", backend.python_script()));
    command.arguments.push(project_dir.to_owned());
    command.arguments.push(decimal(generation as u64));
    command.arguments.push(
        match checkpoint {
            Some(path) => path.clone(),
            None => String::new(),
        },
    );
    command.arguments.push(energy_mode.as_str().to_owned());
    assert(command.arguments@.take(6) =~= prefix);
    assert(views(command.arguments@).take(6) =~= views(prefix));
    assert(views(command.arguments@) =~= dataset_arguments(
        home@,
        project_dir@,
        generation,
        backend,
        option_view(*checkpoint),
        energy_mode,
    ));
    Ok(command)
}

/// What the end of the command that prepares training data means: `status` is what the system says
/// of an end without success.
pub fn dataset_outcome(success: bool, status: &str) -> (r: Result<(), String>)
    ensures
        result_view(r) == (if success {
            Ok::<(), Text>(())
        } else {
            Err("Python dataset pipeline returned non-zero exit status: "@ + status@)
        }),
{
    if success {
        Ok(())
    } else {
        Err(text2("Python dataset pipeline returned non-zero exit status: ", status))
    }
}

/// After a dry run has prepared training data, each file of them is there: it was there before, or
/// is written.
pub proof fn law_dry_dataset_is_complete(
    project_dir: Text,
    generation: u32,
    backend: ModelBackend,
    checkpoint: Option<Text>,
    files: Set<Text>,
    name: Text,
)
    requires
        dry_dataset(project_dir, generation, backend, checkpoint, files) is Ok,
        dataset_files(backend).contains(name),
    ensures
        ({
            let path = below(dataset_dir(project_dir, generation), name);
            let effects = dry_dataset(project_dir, generation, backend, checkpoint, files)->Ok_0;
            files.contains(path) <==> !effects.contains(
                Effect::Write { path, text: placeholder(backend), failure: Seq::empty() },
            )
        }),
{
    let dir = dataset_dir(project_dir, generation);
    let path = below(dir, name);
    let effect = Effect::Write { path, text: placeholder(backend), failure: Seq::empty() };
    let first: Effect<Text> = Effect::CreateDir { path: dir, failure: Seq::empty() };
    let filled = fill_missing(dir, dataset_files(backend), placeholder(backend), files);
    let effects = seq![first] + filled;
    lemma_fill_missing(dir, dataset_files(backend), placeholder(backend), files, name);
    if filled.contains(effect) {
        let k = choose|k: int| 0 <= k < filled.len() && filled[k] == effect;
        assert(effects[k + 1] == effect);
    }
    if effects.contains(effect) {
        let k = choose|k: int| 0 <= k < effects.len() && effects[k] == effect;
        assert(effects[0] == first);
        assert(filled[k - 1] == effect);
    }
}

/// A file is written where it is missing, and nowhere else.
proof fn lemma_fill_missing(
    dir: Text,
    names: Seq<Text>,
    text: Text,
    files: Set<Text>,
    name: Text,
)
    ensures
        ({
            let path = below(dir, name);
            let effect = Effect::Write { path, text, failure: Seq::empty() };
            let filled = fill_missing(dir, names, text, files);
            &&& filled.contains(effect) ==> !files.contains(path)
            &&& names.contains(name) && !files.contains(path) ==> filled.contains(effect)
        }),
    decreases names.len(),
{
    if names.len() > 0 {
        let path = below(dir, name);
        let effect = Effect::Write { path, text, failure: Seq::empty() };
        let earlier = fill_missing(dir, names.drop_last(), text, files);
        let filled = fill_missing(dir, names, text, files);
        lemma_fill_missing(dir, names.drop_last(), text, files, name);
        if filled.contains(effect) {
            let k = choose|k: int| 0 <= k < filled.len() && filled[k] == effect;
            if k < earlier.len() {
                assert(earlier[k] == effect);
            }
        }
        if names.contains(name) && !files.contains(path) {
            let k = choose|k: int| 0 <= k < names.len() && names[k] == name;
            if k < names.len() - 1 {
                assert(names.drop_last()[k] == name);
                let j = choose|j: int| 0 <= j < earlier.len() && earlier[j] == effect;
                assert(filled[j] == effect);
            } else {
                assert(filled.last() == effect);
            }
        }
    }
}

} // verus!
