use alchemist::backend::{DftCode, DisagreementMode, EnergyMode, ModelBackend, QbcMethod};
use alchemist::calls::{Call, Progress, Reply, Stage};
use alchemist::config::Config;
use alchemist::dataset::prepare_dry_training_dataset;
use alchemist::effects::Files;
use alchemist::job::StepPlan;
use alchemist::job_script::JobLayout;
use alchemist::number::{decimal, Token};
use alchemist::pipeline::{
    DftStep, PipelineCtx, PipelineStep, QbcStep, StepCtx, TrainingStep,
};
use alchemist::selection::DisagreementSettings;
use alchemist::text::lines;
use alchemist::watching::{
    files_for_dry_dataset, files_for_job, files_for_preflight, files_for_step,
};

fn text(s: &str) -> String {
    s.to_string()
}

fn step_ctx() -> StepCtx {
    StepCtx::new(text("p"), text("p/setup"), text("p/setup/jobscripts"))
}

fn ctx() -> PipelineCtx {
    PipelineCtx {
        project_dir: text("p"),
        generation: 2,
        poll_interval: 30,
        max_retries: 0,
        dry_run: true,
        dry_config_limit: Some(3),
    }
}

fn dft() -> PipelineStep {
    PipelineStep::Dft(DftStep::new(DftCode::Vasp, step_ctx()))
}

fn training(backend: ModelBackend) -> PipelineStep {
    PipelineStep::Training(TrainingStep::new(
        backend,
        step_ctx(),
        2,
        Some(text("m.ckpt")),
        EnergyMode::Raw,
    ))
}

fn qbc(mode: DisagreementMode) -> PipelineStep {
    PipelineStep::Qbc(QbcStep::new(
        QbcMethod::Rrmsfd,
        step_ctx(),
        ModelBackend::Upet,
        2,
        DisagreementSettings::default(),
        mode,
    ))
}

fn success(call: &Call<String>) -> Reply<String> {
    match call {
        Call::UpetWorkspace { .. }
        | Call::MdWorkspace { .. }
        | Call::ArrayScript { .. }
        | Call::DisagreementScript { .. } => Reply::Path(text("x.sh")),
        Call::N2p2Workspace { .. } => {
            Reply::Scripts { scaling: text("s.sh"), training: text("x.sh") }
        }
        Call::ConfigurationCount { .. } => Reply::Count(7),
        _ => Reply::Done,
    }
}

fn prepared(step: &PipelineStep, paths: Vec<String>, fail_at: Option<usize>) -> (usize, Progress<String>) {
    let mut progress = step.prepare(&ctx(), &Files::new(paths));
    let mut asked = 0;
    loop {
        match progress {
            Progress::Ask { call, stage } => {
                let reply = match fail_at {
                    Some(n) if n == asked => Reply::Failed(text("broken")),
                    _ => success(&call),
                };
                asked += 1;
                assert!(step.can_resume(&stage, &reply));
                progress = step.resume(&ctx(), stage, reply);
            }
            end => return (asked, end),
        }
    }
}

#[test]
fn replies_that_do_not_suit_their_stage_are_told_apart() {
    let step = dft();
    let counting = Stage::Counting { structures: text("s.xyz") };
    assert!(step.can_resume(&counting, &Reply::Count(3)));
    assert!(step.can_resume(&counting, &Reply::Failed(text("e"))));
    assert!(!step.can_resume(&counting, &Reply::Done));
    assert!(!step.can_resume(&Stage::Dataset, &Reply::Done));
    let directory =
        |index: usize| Stage::RunDirectory { structures: text("s.xyz"), count: 2, index };
    assert!(step.can_resume(&directory(1), &Reply::Done) == directory(1).accepts(&Reply::Done));
    assert!(!step.can_resume(&directory(2), &Reply::Failed(text("e"))));
    assert!(training(ModelBackend::Upet).can_resume(&Stage::UpetWorkspace, &Reply::Path(text("x"))));
    assert!(!training(ModelBackend::N2p2)
        .can_resume(&Stage::UpetWorkspace, &Reply::Path(text("x"))));
    assert!(qbc(DisagreementMode::Mock).can_resume(&Stage::MockDisagreement, &Reply::Done));
    assert!(!qbc(DisagreementMode::Real).can_resume(&Stage::MockDisagreement, &Reply::Done));
}

#[test]
fn every_preparation_ends() {
    let all = |step: &PipelineStep| files_for_step(step, &ctx());
    for (step, calls) in [
        (dft(), 1 + 2 * 3 + 1),
        (training(ModelBackend::Upet), 2),
        (training(ModelBackend::N2p2), 4),
        (qbc(DisagreementMode::Mock), 1),
        (qbc(DisagreementMode::Real), 1),
    ] {
        let (asked, end) = prepared(&step, all(&step), None);
        assert_eq!(asked, calls);
        let mock = matches!(&step, PipelineStep::Qbc(q) if q.mode == DisagreementMode::Mock);
        match end {
            Progress::Ready(StepPlan::Slurm { script }) => {
                assert!(!mock);
                assert_eq!(script, "x.sh");
            }
            Progress::Ready(StepPlan::LocalComplete) => assert!(mock),
            other => panic!("{:?}", other),
        }
        for n in 0..calls {
            let (asked, end) = prepared(&step, all(&step), Some(n));
            assert_eq!(asked, n + 1);
            assert!(matches!(end, Progress::Failed(e) if e == "broken"));
        }
    }
}

#[test]
fn steps_that_have_what_they_need_can_be_prepared() {
    for step in [
        dft(),
        training(ModelBackend::Upet),
        training(ModelBackend::N2p2),
        qbc(DisagreementMode::Real),
    ] {
        let files = Files::new(files_for_step(&step, &ctx()));
        assert_eq!(step.validate_required_files(&ctx(), &files, &Ok(text("i"))), Ok(()));
        assert!(matches!(step.prepare(&ctx(), &files), Progress::Ask { .. }));
    }
}

#[test]
fn only_watched_files_decide() {
    for step in [dft(), training(ModelBackend::Upet), qbc(DisagreementMode::Real)] {
        let watched = files_for_step(&step, &ctx());
        for left_out in 0..watched.len() {
            let mut few = watched.clone();
            few.remove(left_out);
            let mut many = few.clone();
            many.push(text("p/other"));
            let check = |paths: Vec<String>| {
                step.validate_required_files(&ctx(), &Files::new(paths), &Ok(text("i")))
            };
            assert_eq!(check(few), check(many));
        }
    }
    assert_eq!(
        files_for_step(&qbc(DisagreementMode::Real), &ctx()),
        vec!["p/setup/jobscripts/upet_disagreement.sh.template"]
    );
    assert!(files_for_step(&qbc(DisagreementMode::Mock), &ctx()).is_empty());
    assert_eq!(
        files_for_step(&dft(), &ctx())[4..],
        [
            "p/selected_structures/generation_2.xyz",
            "p/setup/training/seed_dataset.extxyz",
            "p/setup/training/seed_dataset.xyz",
        ]
    );
}

#[test]
fn a_dataset_that_is_complete_is_left_alone() {
    let checkpoint = Some(text("m.ckpt"));
    let watched = files_for_dry_dataset("p", 1, ModelBackend::Upet, &checkpoint);
    assert_eq!(
        watched,
        vec![
            "p/training/generation_1/dataset/train.extxyz",
            "p/training/generation_1/dataset/validation.extxyz",
            "p/training/generation_1/dataset/test.extxyz",
            "m.ckpt",
        ]
    );
    let effects = prepare_dry_training_dataset(
        "p",
        1,
        ModelBackend::Upet,
        &checkpoint,
        &Files::new(watched),
    )
    .unwrap();
    assert_eq!(effects.len(), 1);
    assert_eq!(
        files_for_dry_dataset("p", 1, ModelBackend::N2p2, &None),
        vec!["p/training/generation_1/dataset/input.data"]
    );
}

#[test]
fn what_is_looked_at_before_a_run_and_for_a_job() {
    let config = Config {
        generations: 1,
        backend: ModelBackend::N2p2,
        energy_mode: EnergyMode::Raw,
        members: 2,
        disagreement: None,
        runner: None,
    };
    let watched = files_for_preflight(&config, "p/setup");
    assert_eq!(watched.len(), 2 + 3 + 4 + 2);
    assert_eq!(watched[0], "p/setup/jobscripts/md_array.sh.template");
    assert_eq!(watched[8], "p/setup/lammps/data/lmp.data");
    assert_eq!(watched[10], "p/setup/training/seed_dataset.xyz");
    let layout = JobLayout::new("p", "p/setup", 1, "upet");
    assert_eq!(
        files_for_job(&layout, &Ok(text("/h"))),
        vec![
            "p/external/alchemist/python/committee_disagreement.py",
            "p/setup/jobscripts/upet_disagreement.sh.template",
            "/h/python/committee_disagreement.py",
        ]
    );
    assert_eq!(files_for_job(&layout, &Err(text("none"))).len(), 2);
}

#[test]
fn lines_and_integers_are_read_back() {
    let written = ["ITEM: TIMESTEP", "", "1 1 0.5", "a\rb"];
    let all: String = written.iter().map(|line| format!("{}\n", line)).collect();
    assert_eq!(lines(&all), written);
    for n in [0u64, 9, 10, 100, 12345, i64::MAX as u64] {
        assert_eq!(usize::from_token(&decimal(n)), Ok(n as usize));
        assert_eq!(i64::from_token(&decimal(n)), Ok(n as i64));
    }
}
