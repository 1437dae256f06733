//! Which files have to be looked at for a decision.
use crate::backend::ModelBackend;
use crate::config::Config;
use crate::dataset::{
    dataset_dir, dataset_files, dry_dataset, fill_missing, seed_dataset, seed_file,
};
use crate::effects::{Requirement, first_missing};
use crate::job_script::JobLayout;
use crate::paths::{
    below, child, descendant, generation_dir, grandchild, selected_file, selected_structures,
};
use crate::pipeline::{PipelineCtx, PipelineStep};
use crate::preflight::{SetupEntry, checks, inputs, list_inputs, list_templates, templates};
use crate::text::{Text, lemma_views_push, option_view, result_view, views};
use vstd::prelude::*;

verus! {

/// Whether two sets of files agree on paths.
pub open spec fn agree(a: Set<Text>, b: Set<Text>, paths: Seq<Text>) -> bool {
    forall|i: int|
        0 <= i < paths.len() ==> (a.contains(#[trigger] paths[i]) <==> b.contains(paths[i]))
}

/// The paths of required files.
pub open spec fn paths_of(requirements: Seq<Requirement<Text>>) -> Seq<Text> {
    requirements.map_values(|r: Requirement<Text>| r.path)
}

/// Adds the paths of required files.
fn add_paths(paths: &mut Vec<String>, requirements: Vec<Requirement<String>>)
    ensures
        views(final(paths)@) == views(old(paths)@) + paths_of(views(requirements@)),
{
    let ghost before = views(paths@);
    let ghost all = paths_of(views(requirements@));
    let mut i: usize = 0;
    assert(before + all.take(0) =~= before);
    while i < requirements.len()
        invariant
            i <= requirements@.len(),
            all == paths_of(views(requirements@)),
            views(paths@) == before + all.take(i as int),
        decreases requirements@.len() - i,
    {
        let path = requirements[i].path.clone();
        proof {
            lemma_views_push(paths@, path);
            assert(all[i as int] == path@);
            assert(before + all.take(i + 1) =~= (before + all.take(i as int)).push(path@));
        }
        paths.push(path);
        i += 1;
    }
    assert(all.take(i as int) =~= all);
}

/// Adds a path.
fn add_path(paths: &mut Vec<String>, path: String)
    ensures
        views(final(paths)@) == views(old(paths)@).push(path@),
{
    proof {
        lemma_views_push(paths@, path);
    }
    paths.push(path);
}

/// The files that decide whether a step has what it needs and what it asks for at first.
pub open spec fn watched(step: PipelineStep, ctx: PipelineCtx) -> Seq<Text> {
    match step {
        PipelineStep::Training(training) => paths_of(training.requirements()) + (
        match training.checkpoint {
            Some(path) => seq![path@],
            None => Seq::empty(),
        }),
        PipelineStep::Md(md) => paths_of(md.requirements()),
        PipelineStep::Qbc(qbc) => paths_of(qbc.requirements()),
        PipelineStep::Dft(dft) => paths_of(dft.requirements()) + seq![
            selected_file(ctx.project_dir@, ctx.generation),
            seed_file(ctx.project_dir@, "seed_dataset.extxyz"@),
            seed_file(ctx.project_dir@, "seed_dataset.xyz"@),
        ],
    }
}

/// The files that decide whether a step has what it needs and what it asks for at first.
pub fn files_for_step(step: &PipelineStep, ctx: &PipelineCtx) -> (r: Vec<String>)
    ensures
        views(r@) == watched(*step, *ctx),
{
    let mut paths: Vec<String> = Vec::new();
    assert(views(paths@) =~= Seq::<Text>::empty());
    match step {
        PipelineStep::Training(training) => {
            add_paths(&mut paths, training.required());
            if let Some(path) = &training.checkpoint {
                add_path(&mut paths, path.clone());
            }
        },
        PipelineStep::Md(md) => {
            add_paths(&mut paths, md.required());
        },
        PipelineStep::Qbc(qbc) => {
            add_paths(&mut paths, qbc.required());
        },
        PipelineStep::Dft(dft) => {
            let project_dir = ctx.project_dir.as_str();
            add_paths(&mut paths, dft.required());
            add_path(&mut paths, selected_structures(project_dir, ctx.generation));
            add_path(
                &mut paths,
                descendant(project_dir, "setup", "training", "seed_dataset.extxyz"),
            );
            add_path(
                &mut paths,
                descendant(project_dir, "setup", "training", "seed_dataset.xyz"),
            );
        },
    }
    assert(views(paths@) =~= watched(*step, *ctx));
    paths
}

/// The files that decide what a dry run does in place of preparing training data.
pub open spec fn watched_for_dataset(
    project_dir: Text,
    generation: u32,
    backend: ModelBackend,
    checkpoint: Option<Text>,
) -> Seq<Text> {
    let dir = dataset_dir(project_dir, generation);
    dataset_files(backend).map_values(|name: Text| below(dir, name)) + (match checkpoint {
        Some(path) => seq![path],
        None => Seq::empty(),
    })
}

/// The files that decide what a dry run does in place of preparing training data.
pub fn files_for_dry_dataset(
    project_dir: &str,
    generation: u32,
    backend: ModelBackend,
    checkpoint: &Option<String>,
) -> (r: Vec<String>)
    ensures
        views(r@) == watched_for_dataset(
            project_dir@,
            generation,
            backend,
            option_view(*checkpoint),
        ),
{
    let generation_dir = generation_dir(project_dir, "training", generation);
    let dir = child(generation_dir.as_str(), "dataset");
    let mut paths: Vec<String> = Vec::new();
    match backend {
        ModelBackend::Upet => {
            add_path(&mut paths, child(dir.as_str(), "train.extxyz"));
            add_path(&mut paths, child(dir.as_str(), "validation.extxyz"));
            add_path(&mut paths, child(dir.as_str(), "test.extxyz"));
        },
        ModelBackend::N2p2 => {
            add_path(&mut paths, child(dir.as_str(), "input.data"));
        },
    }
    if let Some(path) = checkpoint {
        add_path(&mut paths, path.clone());
    }
    assert(views(paths@) =~= watched_for_dataset(
        project_dir@,
        generation,
        backend,
        option_view(*checkpoint),
    ));
    paths
}

/// The files that decide whether a project can be run.
pub open spec fn watched_for_preflight(config: Config, setup_dir: Text) -> Seq<Text> {
    let training = below(setup_dir, "training"@);
    paths_of(templates(config, setup_dir)) + paths_of(inputs(setup_dir)) + seq![
        below(training, "seed_dataset.extxyz"@),
        below(training, "seed_dataset.xyz"@),
    ]
}

/// The files that decide whether a project can be run.
pub fn files_for_preflight(config: &Config, setup_dir: &str) -> (r: Vec<String>)
    ensures
        views(r@) == watched_for_preflight(*config, setup_dir@),
{
    let mut paths: Vec<String> = Vec::new();
    assert(views(paths@) =~= Seq::<Text>::empty());
    add_paths(&mut paths, list_templates(config, setup_dir));
    add_paths(&mut paths, list_inputs(setup_dir));
    add_path(&mut paths, grandchild(setup_dir, "training", "seed_dataset.extxyz"));
    add_path(&mut paths, grandchild(setup_dir, "training", "seed_dataset.xyz"));
    assert(views(paths@) =~= watched_for_preflight(*config, setup_dir@));
    paths
}

/// The files that decide whether a job script can be made.
pub open spec fn watched_for_job(layout: JobLayout, home: Result<Text, Text>) -> Seq<Text> {
    seq![layout.project_script@, layout.template@] + (match home {
        Ok(home) => seq![below(below(home, "python"@), "committee_disagreement.py"@)],
        Err(_) => Seq::empty(),
    })
}

/// The files that decide whether a job script can be made.
pub fn files_for_job(layout: &JobLayout, home: &Result<String, String>) -> (r: Vec<String>)
    ensures
        views(r@) == watched_for_job(*layout, result_view(*home)),
{
    let mut paths: Vec<String> = Vec::new();
    add_path(&mut paths, layout.project_script.clone());
    add_path(&mut paths, layout.template.clone());
    if let Ok(home) = home {
        add_path(&mut paths, grandchild(home.as_str(), "python", "committee_disagreement.py"));
    }
    assert(views(paths@) =~= watched_for_job(*layout, result_view(*home)));
    paths
}

/// The first missing file depends on the required files alone.
proof fn lemma_first_missing(requirements: Seq<Requirement<Text>>, a: Set<Text>, b: Set<Text>)
    requires
        agree(a, b, paths_of(requirements)),
    ensures
        first_missing(requirements, a) == first_missing(requirements, b),
    decreases requirements.len(),
{
    if requirements.len() > 0 {
        let paths = paths_of(requirements);
        let rest = requirements.drop_first();
        assert(paths[0] == requirements[0].path);
        assert forall|i: int| 0 <= i < paths_of(rest).len() implies (a.contains(
            #[trigger] paths_of(rest)[i],
        ) <==> b.contains(paths_of(rest)[i])) by {
            assert(paths_of(rest)[i] == paths[i + 1]);
        }
        lemma_first_missing(rest, a, b);
    }
}

/// Sets of files that agree on paths agree on a part of them.
proof fn lemma_agree_part(a: Set<Text>, b: Set<Text>, paths: Seq<Text>, part: Seq<Text>, at: int)
    requires
        agree(a, b, paths),
        0 <= at <= at + part.len() <= paths.len(),
        part == paths.subrange(at, at + part.len()),
    ensures
        agree(a, b, part),
{
    assert forall|i: int| 0 <= i < part.len() implies (a.contains(#[trigger] part[i])
        <==> b.contains(part[i])) by {
        assert(part[i] == paths[at + i]);
    }
}

/// What a step decides depends on no other files than those that are watched for it.
pub proof fn law_only_watched_files_decide(
    step: PipelineStep,
    ctx: PipelineCtx,
    a: Set<Text>,
    b: Set<Text>,
    input: Result<Text, Text>,
)
    requires
        agree(a, b, watched(step, ctx)),
    ensures
        step.validity(ctx, a, input) == step.validity(ctx, b, input),
        step.first(ctx, a) == step.first(ctx, b),
{
    let paths = watched(step, ctx);
    let required = match step {
        PipelineStep::Training(training) => training.requirements(),
        PipelineStep::Md(md) => md.requirements(),
        PipelineStep::Qbc(qbc) => qbc.requirements(),
        PipelineStep::Dft(dft) => dft.requirements(),
    };
    let part = paths_of(required);
    assert(part =~= paths.subrange(0, part.len() as int));
    lemma_agree_part(a, b, paths, part, 0);
    lemma_first_missing(required, a, b);
    match step {
        PipelineStep::Training(training) => {
            if let Some(path) = training.checkpoint {
                assert(paths[part.len() as int] == path@);
            }
        },
        PipelineStep::Dft(_) => {
            let n = part.len() as int;
            assert(a.contains(paths[n]) <==> b.contains(paths[n]));
            assert(a.contains(paths[n + 1]) <==> b.contains(paths[n + 1]));
            assert(a.contains(paths[n + 2]) <==> b.contains(paths[n + 2]));
        },
        _ => {},
    }
}

/// The files that are written to complete others depend on these others alone.
proof fn lemma_fill_missing(
    dir: Text,
    names: Seq<Text>,
    text: Text,
    a: Set<Text>,
    b: Set<Text>,
)
    requires
        agree(a, b, names.map_values(|name: Text| below(dir, name))),
    ensures
        fill_missing(dir, names, text, a) == fill_missing(dir, names, text, b),
    decreases names.len(),
{
    if names.len() > 0 {
        let paths = names.map_values(|name: Text| below(dir, name));
        let fewer = names.drop_last();
        let part = fewer.map_values(|name: Text| below(dir, name));
        assert(part =~= paths.subrange(0, part.len() as int));
        lemma_agree_part(a, b, paths, part, 0);
        lemma_fill_missing(dir, fewer, text, a, b);
        assert(paths[names.len() - 1] == below(dir, names.last()));
    }
}

/// What a dry run does in place of preparing training data depends on no other files than those
/// that are watched for it.
pub proof fn law_only_watched_files_decide_dataset(
    project_dir: Text,
    generation: u32,
    backend: ModelBackend,
    checkpoint: Option<Text>,
    a: Set<Text>,
    b: Set<Text>,
)
    requires
        agree(a, b, watched_for_dataset(project_dir, generation, backend, checkpoint)),
    ensures
        dry_dataset(project_dir, generation, backend, checkpoint, a) == dry_dataset(
            project_dir,
            generation,
            backend,
            checkpoint,
            b,
        ),
{
    let dir = dataset_dir(project_dir, generation);
    let names = dataset_files(backend);
    let paths = watched_for_dataset(project_dir, generation, backend, checkpoint);
    let part = names.map_values(|name: Text| below(dir, name));
    assert(part =~= paths.subrange(0, part.len() as int));
    lemma_agree_part(a, b, paths, part, 0);
    lemma_fill_missing(dir, names, crate::dataset::placeholder(backend), a, b);
    if let Some(path) = checkpoint {
        assert(paths[part.len() as int] == path);
    }
}

/// Whether a project can be run depends on no other files than those that are watched for it, beside
/// the input files of its generations and the training files of its setup.
pub proof fn law_only_watched_files_decide_preflight(
    config: Config,
    setup_dir: Text,
    a: Set<Text>,
    b: Set<Text>,
    found: Seq<Result<Text, Text>>,
    entries: Seq<SetupEntry>,
)
    requires
        agree(a, b, watched_for_preflight(config, setup_dir)),
    ensures
        checks(config, setup_dir, a, found, entries) == checks(
            config,
            setup_dir,
            b,
            found,
            entries,
        ),
{
    let paths = watched_for_preflight(config, setup_dir);
    let first = paths_of(templates(config, setup_dir));
    let second = paths_of(inputs(setup_dir));
    let n = first.len() as int;
    let m = n + second.len();
    assert(first =~= paths.subrange(0, n));
    assert(second =~= paths.subrange(n, m));
    lemma_agree_part(a, b, paths, first, 0);
    lemma_agree_part(a, b, paths, second, n);
    lemma_first_missing(templates(config, setup_dir), a, b);
    lemma_first_missing(inputs(setup_dir), a, b);
    assert(a.contains(paths[m]) <==> b.contains(paths[m]));
    assert(a.contains(paths[m + 1]) <==> b.contains(paths[m + 1]));
}

/// Whether a job script can be made depends on no other files than those that are watched for it,
/// beside the paths that it names.
pub proof fn law_only_watched_files_decide_job(
    layout: JobLayout,
    home: Result<Text, Text>,
    a: Set<Text>,
    b: Set<Text>,
)
    requires
        agree(a, b, watched_for_job(layout, home)),
    ensures
        layout.python_script(home, a) == layout.python_script(home, b),
        a.contains(layout.template@) <==> b.contains(layout.template@),
{
    let paths = watched_for_job(layout, home);
    assert(a.contains(paths[0]) <==> b.contains(paths[0]));
    assert(a.contains(paths[1]) <==> b.contains(paths[1]));
    if home is Ok {
        assert(a.contains(paths[2]) <==> b.contains(paths[2]));
    }
}

} // verus!
