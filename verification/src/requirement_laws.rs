//! Which files a project and its steps need, by their paths.
use crate::backend::{DisagreementMode, ModelBackend};
use crate::config::Config;
use crate::effects::{Requirement, law_all_present};
use crate::number::decimal_of;
use crate::paths::below;
use crate::pipeline::{DftStep, MdStep, PipelineCtx, PipelineStep, QbcStep, TrainingStep};
use crate::preflight::{
    SetupEntry, all_checks, checks, first_checkpoint, first_without_input, inputs,
    is_checkpoint_name, law_every_check_counts, templates,
};
use crate::text::Text;
use vstd::prelude::*;

verus! {

/// Whether there is a file at a path below a directory.
pub open spec fn has(files: Set<Text>, dir: Text, path: Text) -> bool {
    files.contains(below(dir, path))
}

/// Whether the setup holds what training a kind of model takes.
pub open spec fn has_training(files: Set<Text>, setup_dir: Text, backend: ModelBackend) -> bool {
    match backend {
        ModelBackend::Upet => {
            &&& has(files, setup_dir, "training/upet.yaml.template"@)
            &&& has(files, setup_dir, "jobscripts/upet_training_array.sh.template"@)
        },
        ModelBackend::N2p2 => {
            &&& has(files, setup_dir, "training/input.nn"@)
            &&& has(files, setup_dir, "jobscripts/n2p2_scaling_array.sh.template"@)
            &&& has(files, setup_dir, "jobscripts/n2p2_training_array.sh.template"@)
        },
    }
}

/// Whether the setup holds what it takes to compute the disagreement of a kind of models.
pub open spec fn has_disagreement(
    files: Set<Text>,
    setup_dir: Text,
    backend: ModelBackend,
) -> bool {
    match backend {
        ModelBackend::Upet => has(files, setup_dir, "jobscripts/upet_disagreement.sh.template"@),
        ModelBackend::N2p2 => has(files, setup_dir, "jobscripts/n2p2_disagreement.sh.template"@),
    }
}

/// Whether the setup holds what a simulation takes.
pub open spec fn has_simulation(files: Set<Text>, setup_dir: Text) -> bool {
    &&& has(files, setup_dir, "lammps/data/lmp.data"@)
    &&& has(files, setup_dir, "jobscripts/md_array.sh.template"@)
}

/// Whether the setup holds what a reference calculation takes.
pub open spec fn has_calculation(files: Set<Text>, setup_dir: Text) -> bool {
    &&& has(files, setup_dir, "vasp/INCAR"@)
    &&& has(files, setup_dir, "vasp/KPOINTS"@)
    &&& has(files, setup_dir, "vasp/POTCAR"@)
    &&& has(files, setup_dir, "jobscripts/vasp_array.sh.template"@)
}

/// Whether the setup holds a seed dataset.
pub open spec fn has_seed(files: Set<Text>, setup_dir: Text) -> bool {
    ||| has(files, setup_dir, "training/seed_dataset.extxyz"@)
    ||| has(files, setup_dir, "training/seed_dataset.xyz"@)
}

/// A name below a name below a directory is a path below the directory.
pub proof fn lemma_path(dir: Text, part: Text, name: Text)
    requires
        part.len() > 0,
        part[0] != '/',
        part.last() != '/',
        name.len() > 0,
        name[0] != '/',
    ensures
        below(below(dir, part), name) == below(dir, part + "/"@ + name),
{
    let path = part + "/"@ + name;
    let inner = below(dir, part);
    assert(path[0] == part[0]);
    if dir.len() == 0 || dir.last() == '/' {
        assert(inner.last() == part.last());
        assert(inner + "/"@ + name =~= dir + path);
    } else {
        assert(inner.last() == part.last());
        assert(inner + "/"@ + name =~= dir + "/"@ + path);
    }
}

/// The paths of the files of a setup.
proof fn lemma_training_paths(setup_dir: Text)
    ensures
        ({
            let jobs = below(setup_dir, "jobscripts"@);
            let training = below(setup_dir, "training"@);
            &&& below(training, "upet.yaml.template"@) == below(
                setup_dir,
                "training/upet.yaml.template"@,
            )
            &&& below(training, "input.nn"@) == below(setup_dir, "training/input.nn"@)
            &&& below(training, "seed_dataset.extxyz"@) == below(
                setup_dir,
                "training/seed_dataset.extxyz"@,
            )
            &&& below(training, "seed_dataset.xyz"@) == below(
                setup_dir,
                "training/seed_dataset.xyz"@,
            )
            &&& below(jobs, "upet_training_array.sh.template"@) == below(
                setup_dir,
                "jobscripts/upet_training_array.sh.template"@,
            )
            &&& below(jobs, "n2p2_scaling_array.sh.template"@) == below(
                setup_dir,
                "jobscripts/n2p2_scaling_array.sh.template"@,
            )
            &&& below(jobs, "n2p2_training_array.sh.template"@) == below(
                setup_dir,
                "jobscripts/n2p2_training_array.sh.template"@,
            )
        }),
{
    reveal_strlit("/");
    reveal_strlit("jobscripts");
    reveal_strlit("training");
    reveal_strlit("upet.yaml.template");
    reveal_strlit("training/upet.yaml.template");
    lemma_path(setup_dir, "training"@, "upet.yaml.template"@);
    assert("training"@ + "/"@ + "upet.yaml.template"@ =~= "training/upet.yaml.template"@);
    reveal_strlit("input.nn");
    reveal_strlit("training/input.nn");
    lemma_path(setup_dir, "training"@, "input.nn"@);
    assert("training"@ + "/"@ + "input.nn"@ =~= "training/input.nn"@);
    reveal_strlit("seed_dataset.extxyz");
    reveal_strlit("training/seed_dataset.extxyz");
    lemma_path(setup_dir, "training"@, "seed_dataset.extxyz"@);
    assert("training"@ + "/"@ + "seed_dataset.extxyz"@ =~= "training/seed_dataset.extxyz"@);
    reveal_strlit("seed_dataset.xyz");
    reveal_strlit("training/seed_dataset.xyz");
    lemma_path(setup_dir, "training"@, "seed_dataset.xyz"@);
    assert("training"@ + "/"@ + "seed_dataset.xyz"@ =~= "training/seed_dataset.xyz"@);
    reveal_strlit("upet_training_array.sh.template");
    reveal_strlit("jobscripts/upet_training_array.sh.template");
    lemma_path(setup_dir, "jobscripts"@, "upet_training_array.sh.template"@);
    assert("jobscripts"@ + "/"@ + "upet_training_array.sh.template"@
        =~= "jobscripts/upet_training_array.sh.template"@);
    reveal_strlit("n2p2_scaling_array.sh.template");
    reveal_strlit("jobscripts/n2p2_scaling_array.sh.template");
    lemma_path(setup_dir, "jobscripts"@, "n2p2_scaling_array.sh.template"@);
    assert("jobscripts"@ + "/"@ + "n2p2_scaling_array.sh.template"@
        =~= "jobscripts/n2p2_scaling_array.sh.template"@);
    reveal_strlit("n2p2_training_array.sh.template");
    reveal_strlit("jobscripts/n2p2_training_array.sh.template");
    lemma_path(setup_dir, "jobscripts"@, "n2p2_training_array.sh.template"@);
    assert("jobscripts"@ + "/"@ + "n2p2_training_array.sh.template"@
        =~= "jobscripts/n2p2_training_array.sh.template"@);
}

/// The paths of the files that simulations, selections and reference calculations take.
proof fn lemma_other_paths(setup_dir: Text)
    ensures
        ({
            let jobs = below(setup_dir, "jobscripts"@);
            let vasp = below(setup_dir, "vasp"@);
            let lammps = below(setup_dir, "lammps"@);
            &&& below(jobs, "md_array.sh.template"@) == below(
                setup_dir,
                "jobscripts/md_array.sh.template"@,
            )
            &&& below(jobs, "vasp_array.sh.template"@) == below(
                setup_dir,
                "jobscripts/vasp_array.sh.template"@,
            )
            &&& below(jobs, "upet_disagreement.sh.template"@) == below(
                setup_dir,
                "jobscripts/upet_disagreement.sh.template"@,
            )
            &&& below(jobs, "n2p2_disagreement.sh.template"@) == below(
                setup_dir,
                "jobscripts/n2p2_disagreement.sh.template"@,
            )
            &&& below(vasp, "INCAR"@) == below(setup_dir, "vasp/INCAR"@)
            &&& below(vasp, "KPOINTS"@) == below(setup_dir, "vasp/KPOINTS"@)
            &&& below(vasp, "POTCAR"@) == below(setup_dir, "vasp/POTCAR"@)
            &&& below(below(lammps, "data"@), "lmp.data"@) == below(
                setup_dir,
                "lammps/data/lmp.data"@,
            )
            &&& "upet"@ + "_disagreement.sh.template"@ == "upet_disagreement.sh.template"@
            &&& "n2p2"@ + "_disagreement.sh.template"@ == "n2p2_disagreement.sh.template"@
        }),
{
    reveal_strlit("/");
    reveal_strlit("jobscripts");
    reveal_strlit("md_array.sh.template");
    reveal_strlit("jobscripts/md_array.sh.template");
    lemma_path(setup_dir, "jobscripts"@, "md_array.sh.template"@);
    assert("jobscripts"@ + "/"@ + "md_array.sh.template"@ =~= "jobscripts/md_array.sh.template"@);
    reveal_strlit("vasp_array.sh.template");
    reveal_strlit("jobscripts/vasp_array.sh.template");
    lemma_path(setup_dir, "jobscripts"@, "vasp_array.sh.template"@);
    assert("jobscripts"@ + "/"@ + "vasp_array.sh.template"@
        =~= "jobscripts/vasp_array.sh.template"@);
    reveal_strlit("upet");
    reveal_strlit("n2p2");
    reveal_strlit("_disagreement.sh.template");
    reveal_strlit("upet_disagreement.sh.template");
    reveal_strlit("n2p2_disagreement.sh.template");
    assert("upet"@ + "_disagreement.sh.template"@ =~= "upet_disagreement.sh.template"@);
    assert("n2p2"@ + "_disagreement.sh.template"@ =~= "n2p2_disagreement.sh.template"@);
    reveal_strlit("jobscripts/upet_disagreement.sh.template");
    lemma_path(setup_dir, "jobscripts"@, "upet_disagreement.sh.template"@);
    assert("jobscripts"@ + "/"@ + "upet_disagreement.sh.template"@
        =~= "jobscripts/upet_disagreement.sh.template"@);
    reveal_strlit("jobscripts/n2p2_disagreement.sh.template");
    lemma_path(setup_dir, "jobscripts"@, "n2p2_disagreement.sh.template"@);
    assert("jobscripts"@ + "/"@ + "n2p2_disagreement.sh.template"@
        =~= "jobscripts/n2p2_disagreement.sh.template"@);
    reveal_strlit("vasp");
    reveal_strlit("INCAR");
    reveal_strlit("vasp/INCAR");
    lemma_path(setup_dir, "vasp"@, "INCAR"@);
    assert("vasp"@ + "/"@ + "INCAR"@ =~= "vasp/INCAR"@);
    reveal_strlit("KPOINTS");
    reveal_strlit("vasp/KPOINTS");
    lemma_path(setup_dir, "vasp"@, "KPOINTS"@);
    assert("vasp"@ + "/"@ + "KPOINTS"@ =~= "vasp/KPOINTS"@);
    reveal_strlit("POTCAR");
    reveal_strlit("vasp/POTCAR");
    lemma_path(setup_dir, "vasp"@, "POTCAR"@);
    assert("vasp"@ + "/"@ + "POTCAR"@ =~= "vasp/POTCAR"@);
    reveal_strlit("lammps");
    reveal_strlit("data");
    reveal_strlit("lmp.data");
    reveal_strlit("lammps/data/lmp.data");
    let data = "lammps"@ + "/"@ + "data"@;
    lemma_path(setup_dir, "lammps"@, "data"@);
    assert(data[0] == 'l' && data.last() == 'a');
    lemma_path(setup_dir, data, "lmp.data"@);
    assert(data + "/"@ + "lmp.data"@ =~= "lammps/data/lmp.data"@);
}

/// Each generation has an input file exactly where none is found without one.
proof fn lemma_inputs(found: Seq<Result<Text, Text>>, generation: nat)
    ensures
        first_without_input(found, generation) is None <==> forall|i: int|
            0 <= i < found.len() ==> #[trigger] found[i] is Ok,
    decreases found.len(),
{
    if found.len() > 0 {
        let rest = found.drop_first();
        lemma_inputs(rest, generation + 1);
        assert(forall|i: int| 0 <= i < rest.len() ==> #[trigger] rest[i] == found[i + 1]);
        if found[0] is Ok {
            if first_without_input(rest, generation + 1) is None {
                assert forall|i: int| 0 <= i < found.len() implies #[trigger] found[i] is Ok by {
                    if i > 0 {
                        assert(found[i] == rest[i - 1]);
                    }
                }
            } else {
                let i = choose|i: int| 0 <= i < rest.len() && !(#[trigger] rest[i] is Ok);
                assert(!(found[i + 1] is Ok));
            }
        }
    }
}

/// Whether an entry is a file whose name is something before `.ckpt`.
pub open spec fn is_checkpoint(entry: SetupEntry) -> bool {
    &&& entry.is_file
    &&& exists|stem: Text| stem.len() > 0 && entry.name@ == #[trigger] (stem + ".ckpt"@)
}

/// A name with the extension of a foundation model.
proof fn lemma_extension(name: Text)
    ensures
        is_checkpoint_name(name) <==> exists|stem: Text|
            stem.len() > 0 && name == #[trigger] (stem + ".ckpt"@),
{
    reveal_strlit(".ckpt");
    if is_checkpoint_name(name) {
        let stem = name.take(name.len() - 5);
        assert(name =~= stem + name.skip(name.len() - 5));
    } else if exists|stem: Text| stem.len() > 0 && name == #[trigger] (stem + ".ckpt"@) {
        let stem = choose|stem: Text| stem.len() > 0 && name == #[trigger] (stem + ".ckpt"@);
        assert(name.skip(name.len() - 5) =~= ".ckpt"@);
    }
}

/// The first entry that is a foundation model is one, and none before it is.
pub proof fn law_first_checkpoint_is_taken(entries: Seq<SetupEntry>)
    ensures
        match first_checkpoint(entries) {
            None => forall|i: int| 0 <= i < entries.len() ==> !is_checkpoint(#[trigger] entries[i]),
            Some(entry) => exists|i: int|
                {
                    &&& 0 <= i < entries.len()
                    &&& #[trigger] entries[i] == entry
                    &&& is_checkpoint(entry)
                    &&& forall|j: int| 0 <= j < i ==> !is_checkpoint(#[trigger] entries[j])
                },
        },
    decreases entries.len(),
{
    if entries.len() > 0 {
        lemma_extension(entries[0].name@);
        let rest = entries.drop_first();
        law_first_checkpoint_is_taken(rest);
        assert(forall|i: int| 0 <= i < rest.len() ==> #[trigger] rest[i] == entries[i + 1]);
        if is_checkpoint(entries[0]) {
            assert(entries[0] == first_checkpoint(entries)->0);
        } else {
            match first_checkpoint(rest) {
                None => {
                    assert forall|i: int| 0 <= i < entries.len() implies !is_checkpoint(
                        #[trigger] entries[i],
                    ) by {
                        if i > 0 {
                            assert(entries[i] == rest[i - 1]);
                        }
                    }
                },
                Some(entry) => {
                    let i = choose|i: int|
                        {
                            &&& 0 <= i < rest.len()
                            &&& #[trigger] rest[i] == entry
                            &&& is_checkpoint(entry)
                            &&& forall|j: int| 0 <= j < i ==> !is_checkpoint(#[trigger] rest[j])
                        };
                    assert(entries[i + 1] == entry);
                    assert forall|j: int| 0 <= j < i + 1 implies !is_checkpoint(
                        #[trigger] entries[j],
                    ) by {
                        if j > 0 {
                            assert(entries[j] == rest[j - 1]);
                        }
                    }
                },
            }
        }
    }
}

/// Whether a project has all that it needs.
pub open spec fn is_complete(
    config: Config,
    setup_dir: Text,
    files: Set<Text>,
    found: Seq<Result<Text, Text>>,
    entries: Seq<SetupEntry>,
) -> bool {
    &&& config.members > 0
    &&& has_training(files, setup_dir, config.backend)
    &&& has_simulation(files, setup_dir)
    &&& has_calculation(files, setup_dir)
    &&& has_seed(files, setup_dir)
    &&& (config.disagreement matches Some(d) && d.mode == Some(DisagreementMode::Real))
        ==> has_disagreement(files, setup_dir, config.backend)
    &&& forall|i: int| 0 <= i < found.len() ==> #[trigger] found[i] is Ok
    &&& (config.backend is Upet || config.energy_mode is Pet) ==> exists|i: int|
        0 <= i < entries.len() && is_checkpoint(#[trigger] entries[i])
}

/// The templates of a project are there exactly where each is.
proof fn lemma_templates(config: Config, setup_dir: Text, files: Set<Text>)
    ensures
        (forall|i: int|
            0 <= i < templates(config, setup_dir).len() ==> files.contains(
                #[trigger] templates(config, setup_dir)[i].path,
            )) <==> {
            &&& has_training(files, setup_dir, config.backend)
            &&& has(files, setup_dir, "jobscripts/md_array.sh.template"@)
            &&& has(files, setup_dir, "jobscripts/vasp_array.sh.template"@)
            &&& (config.disagreement matches Some(d) && d.mode == Some(DisagreementMode::Real))
                ==> has_disagreement(files, setup_dir, config.backend)
        },
{
    lemma_training_paths(setup_dir);
    lemma_other_paths(setup_dir);
    let needed = templates(config, setup_dir);
    let all = forall|i: int|
        0 <= i < needed.len() ==> files.contains(#[trigger] needed[i].path);
    if all {
        assert(files.contains(needed[0].path) && files.contains(needed[1].path) && files.contains(
            needed[2].path,
        ) && files.contains(needed[3].path));
        if config.backend is N2p2 {
            assert(files.contains(needed[4].path));
        }
        assert(files.contains(needed[needed.len() - 1].path));
    }
}

/// The inputs of a project are there exactly where each is.
proof fn lemma_inputs_there(setup_dir: Text, files: Set<Text>)
    ensures
        (forall|i: int|
            0 <= i < inputs(setup_dir).len() ==> files.contains(
                #[trigger] inputs(setup_dir)[i].path,
            )) <==> {
            &&& has(files, setup_dir, "vasp/INCAR"@)
            &&& has(files, setup_dir, "vasp/KPOINTS"@)
            &&& has(files, setup_dir, "vasp/POTCAR"@)
            &&& has(files, setup_dir, "lammps/data/lmp.data"@)
        },
{
    lemma_other_paths(setup_dir);
    let needed = inputs(setup_dir);
    let all = forall|i: int|
        0 <= i < needed.len() ==> files.contains(#[trigger] needed[i].path);
    if all {
        assert(files.contains(needed[0].path) && files.contains(needed[1].path) && files.contains(
            needed[2].path,
        ) && files.contains(needed[3].path));
    }
}

/// A project can be run exactly where it has a committee, each file that its steps take, an input
/// file for each generation, and a foundation model where its training takes one.
pub proof fn law_projects_that_pass_are_complete(
    config: Config,
    setup_dir: Text,
    files: Set<Text>,
    found: Seq<Result<Text, Text>>,
    entries: Seq<SetupEntry>,
)
    ensures
        all_checks(checks(config, setup_dir, files, found, entries)).passed <==> is_complete(
            config,
            setup_dir,
            files,
            found,
            entries,
        ),
{
    let all = checks(config, setup_dir, files, found, entries);
    law_every_check_counts(all);
    law_all_present(templates(config, setup_dir), files);
    law_all_present(inputs(setup_dir), files);
    lemma_templates(config, setup_dir, files);
    lemma_inputs_there(setup_dir, files);
    lemma_training_paths(setup_dir);
    lemma_inputs(found, 1);
    law_first_checkpoint_is_taken(entries);
    if all_checks(all).passed {
        assert(all[0].passed && all[1].passed && all[2].passed && all[3].passed && all[4].passed
            && all[5].passed);
    }
}

/// Whether a step has all that it needs in a generation, whose input file was looked for.
pub open spec fn has_what_it_needs(
    step: PipelineStep,
    ctx: PipelineCtx,
    files: Set<Text>,
    input: Result<Text, Text>,
) -> bool {
    match step {
        PipelineStep::Training(training) => {
            &&& training.committee_members > 0
            &&& has_training(files, training.ctx.setup_dir@, training.model_backend)
            &&& training.model_backend is Upet ==> (training.checkpoint matches Some(path)
                && files.contains(path@))
        },
        PipelineStep::Md(md) => {
            &&& md.committee_members > 0
            &&& has_simulation(files, md.ctx.setup_dir@)
            &&& input is Ok
        },
        PipelineStep::Qbc(qbc) => {
            &&& qbc.committee_members > 1
            &&& qbc.mode is Real ==> has_disagreement(files, qbc.ctx.setup_dir@, qbc.backend)
        },
        PipelineStep::Dft(dft) => {
            &&& has_calculation(files, dft.ctx.setup_dir@)
            &&& ({
                ||| files.contains(
                    below(
                        below(ctx.project_dir@, "selected_structures"@),
                        "generation_"@ + decimal_of(ctx.generation as nat) + ".xyz"@,
                    ),
                )
                ||| has_seed(files, below(ctx.project_dir@, "setup"@))
            })
        },
    }
}

/// A step is valid exactly where it has a committee, and each file that it takes is there.
pub proof fn law_valid_steps_have_what_they_need(
    step: PipelineStep,
    ctx: PipelineCtx,
    files: Set<Text>,
    input: Result<Text, Text>,
)
    ensures
        step.validity(ctx, files, input) is Ok <==> has_what_it_needs(step, ctx, files, input),
{
    match step {
        PipelineStep::Training(training) => {
            lemma_training_paths(training.ctx.setup_dir@);
            let needed = training.requirements();
            law_all_present(needed, files);
            if forall|i: int| 0 <= i < needed.len() ==> files.contains(#[trigger] needed[i].path) {
                assert(files.contains(needed[0].path) && files.contains(needed[1].path));
                assert(files.contains(needed[needed.len() - 1].path));
            }
        },
        PipelineStep::Md(md) => {
            lemma_other_paths(md.ctx.setup_dir@);
            let needed = md.requirements();
            law_all_present(needed, files);
            if forall|i: int| 0 <= i < needed.len() ==> files.contains(#[trigger] needed[i].path) {
                assert(files.contains(needed[0].path) && files.contains(needed[1].path));
            }
        },
        PipelineStep::Qbc(qbc) => {
            lemma_other_paths(qbc.ctx.setup_dir@);
            let needed = qbc.requirements();
            law_all_present(needed, files);
            if qbc.mode is Real && forall|i: int|
                0 <= i < needed.len() ==> files.contains(#[trigger] needed[i].path) {
                assert(files.contains(needed[0].path));
            }
        },
        PipelineStep::Dft(dft) => {
            lemma_other_paths(dft.ctx.setup_dir@);
            lemma_training_paths(below(ctx.project_dir@, "setup"@));
            let needed = dft.requirements();
            law_all_present(needed, files);
            if forall|i: int| 0 <= i < needed.len() ==> files.contains(#[trigger] needed[i].path) {
                assert(files.contains(needed[0].path) && files.contains(needed[1].path)
                    && files.contains(needed[2].path) && files.contains(needed[3].path));
            }
        },
    }
}

/// What a setup has to hold beside the templates, in the order in which it is looked for, and what is
/// said where it is missing.
pub proof fn law_inputs_are_looked_for_in_order(setup_dir: Text)
    ensures
        inputs(setup_dir) == seq![
        Requirement {
            label: "Missing VASP input"@,
            path: below(setup_dir, "vasp/INCAR"@),
        },
        Requirement {
            label: "Missing VASP input"@,
            path: below(setup_dir, "vasp/KPOINTS"@),
        },
        Requirement {
            label: "Missing VASP input"@,
            path: below(setup_dir, "vasp/POTCAR"@),
        },
        Requirement {
            label: "Missing LAMMPS data file"@,
            path: below(setup_dir, "lammps/data/lmp.data"@),
        },
    ],
{
    lemma_other_paths(setup_dir);
}

/// The templates that a setup has to hold, in the order in which they are looked for, and what is said
/// where one is missing.
pub proof fn law_templates_are_looked_for_in_order(config: Config, setup_dir: Text)
    ensures
        ({
            let jobs = seq![
        Requirement {
            label: "Missing job template"@,
            path: below(setup_dir, "jobscripts/md_array.sh.template"@),
        },
        Requirement {
            label: "Missing job template"@,
            path: below(setup_dir, "jobscripts/vasp_array.sh.template"@),
        },
    ];
            let fine_tuning = seq![
        Requirement {
            label: "Missing UPET template"@,
            path: below(setup_dir, "training/upet.yaml.template"@),
        },
        Requirement {
            label: "Missing UPET template"@,
            path: below(setup_dir, "jobscripts/upet_training_array.sh.template"@),
        },
    ];
            let training = seq![
        Requirement {
            label: "Missing n2p2 setup file"@,
            path: below(setup_dir, "training/input.nn"@),
        },
        Requirement {
            label: "Missing n2p2 setup file"@,
            path: below(setup_dir, "jobscripts/n2p2_scaling_array.sh.template"@),
        },
        Requirement {
            label: "Missing n2p2 setup file"@,
            path: below(setup_dir, "jobscripts/n2p2_training_array.sh.template"@),
        },
    ];
            let upet = seq![
        Requirement {
            label: "Missing UPET disagreement template"@,
            path: below(setup_dir, "jobscripts/upet_disagreement.sh.template"@),
        },
    ];
            let n2p2 = seq![
        Requirement {
            label: "Missing n2p2 disagreement template"@,
            path: below(setup_dir, "jobscripts/n2p2_disagreement.sh.template"@),
        },
    ];
            let computed = config.disagreement matches Some(d) && d.mode == Some(
                DisagreementMode::Real,
            );
            templates(config, setup_dir) == jobs + (if config.backend is Upet {
                fine_tuning
            } else {
                training
            }) + (if !computed {
                Seq::empty()
            } else if config.backend is Upet {
                upet
            } else {
                n2p2
            })
        }),
{
    lemma_training_paths(setup_dir);
    lemma_other_paths(setup_dir);
}

/// What the steps need of the setup, in the order in which it is looked for, and what is said where it
/// is missing.
pub proof fn law_steps_look_for_their_files_in_order(
    training: TrainingStep,
    md: MdStep,
    qbc: QbcStep,
    dft: DftStep,
    setup_dir: Text,
)
    ensures
        training.ctx.setup_dir@ == setup_dir && training.model_backend is Upet
            ==> training.requirements() == seq![
        Requirement {
            label: "missing UPET training config"@,
            path: below(setup_dir, "training/upet.yaml.template"@),
        },
        Requirement {
            label: "missing UPET training config"@,
            path: below(setup_dir, "jobscripts/upet_training_array.sh.template"@),
        },
    ],
        training.ctx.setup_dir@ == setup_dir && training.model_backend is N2p2
            ==> training.requirements() == seq![
        Requirement {
            label: "missing n2p2 training config"@,
            path: below(setup_dir, "training/input.nn"@),
        },
        Requirement {
            label: "missing n2p2 training config"@,
            path: below(setup_dir, "jobscripts/n2p2_scaling_array.sh.template"@),
        },
        Requirement {
            label: "missing n2p2 training config"@,
            path: below(setup_dir, "jobscripts/n2p2_training_array.sh.template"@),
        },
    ],
        md.ctx.setup_dir@ == setup_dir ==> md.requirements() == seq![
        Requirement {
            label: "missing LAMMPS data file"@,
            path: below(setup_dir, "lammps/data/lmp.data"@),
        },
        Requirement {
            label: "missing MD job template"@,
            path: below(setup_dir, "jobscripts/md_array.sh.template"@),
        },
    ],
        qbc.ctx.setup_dir@ == setup_dir && qbc.mode is Real && qbc.backend is Upet
            ==> qbc.requirements() == seq![
        Requirement {
            label: "missing disagreement job template"@,
            path: below(setup_dir, "jobscripts/upet_disagreement.sh.template"@),
        },
    ],
        qbc.ctx.setup_dir@ == setup_dir && qbc.mode is Real && qbc.backend is N2p2
            ==> qbc.requirements() == seq![
        Requirement {
            label: "missing disagreement job template"@,
            path: below(setup_dir, "jobscripts/n2p2_disagreement.sh.template"@),
        },
    ],
        qbc.mode is Mock ==> qbc.requirements().len() == 0,
        dft.ctx.setup_dir@ == setup_dir ==> dft.requirements() == seq![
        Requirement {
            label: "missing VASP input"@,
            path: below(setup_dir, "vasp/INCAR"@),
        },
        Requirement {
            label: "missing VASP input"@,
            path: below(setup_dir, "vasp/KPOINTS"@),
        },
        Requirement {
            label: "missing VASP input"@,
            path: below(setup_dir, "vasp/POTCAR"@),
        },
        Requirement {
            label: "missing VASP job template"@,
            path: below(setup_dir, "jobscripts/vasp_array.sh.template"@),
        },
    ],
{
    lemma_training_paths(setup_dir);
    lemma_other_paths(setup_dir);
}

} // verus!
