use alchemist::backend::{
    DftCode, DisagreementMode, EnergyMode, MdEngine, MdModelPackage, ModelBackend, QbcMethod,
};
use alchemist::calls::{Call, Completion, CompletionStage, Progress, Reply, Stage};
use alchemist::dataset::{
    dataset_outcome, dry_seed_dataset, prepare_dry_training_dataset, prepare_training_dataset,
};
use alchemist::effects::{check_present, requirement, Effect, Files};
use alchemist::job::{
    check_completed, ensure_completed, synthetic_finished_data, FinalJobStatus, FinishedData,
    StepPlan,
};
use alchemist::paths::CacheEnvironment;
use alchemist::pipeline::{
    DftStep, MdStep, PipelineCtx, PipelineStep, QbcStep, StepCtx, TrainingStep,
};
use alchemist::selection::DisagreementSettings;

fn text(s: &str) -> String {
    s.to_string()
}

fn files(paths: &[&str]) -> Files {
    Files::new(paths.iter().map(|p| text(p)).collect())
}

fn step_ctx() -> StepCtx {
    StepCtx::new(text("p"), text("p/setup"), text("p/setup/jobscripts"))
}

fn ctx(dry_run: bool, dry_config_limit: Option<usize>) -> PipelineCtx {
    PipelineCtx {
        project_dir: text("p"),
        generation: 2,
        poll_interval: 30,
        max_retries: 0,
        dry_run,
        dry_config_limit,
    }
}

fn training(backend: ModelBackend, members: usize, checkpoint: Option<&str>) -> PipelineStep {
    PipelineStep::Training(TrainingStep::new(
        backend,
        step_ctx(),
        members,
        checkpoint.map(text),
        EnergyMode::Pet,
    ))
}

fn md(members: usize) -> PipelineStep {
    PipelineStep::Md(MdStep::new(
        MdEngine::Lammps,
        step_ctx(),
        members,
        Some(MdModelPackage::UpetModel),
    ))
}

fn qbc(members: usize, mode: DisagreementMode) -> PipelineStep {
    PipelineStep::Qbc(QbcStep::new(
        QbcMethod::Rrmsfd,
        step_ctx(),
        ModelBackend::N2p2,
        members,
        DisagreementSettings::default(),
        mode,
    ))
}

fn dft() -> PipelineStep {
    PipelineStep::Dft(DftStep::new(DftCode::Vasp, step_ctx()))
}

fn job(final_status: FinalJobStatus<String>) -> FinishedData<String> {
    FinishedData {
        jobscript: text("s.sh"),
        job_id: text("17"),
        start_time: text("a"),
        end_time: text("b"),
        runtime: text("c"),
        final_status,
    }
}

fn asked(progress: Progress<String>) -> (Call<String>, Stage<String>) {
    match progress {
        Progress::Ask { call, stage } => (call, stage),
        other => panic!("{:?}", other),
    }
}

fn script(progress: Progress<String>) -> String {
    match progress {
        Progress::Ready(StepPlan::Slurm { script }) => script,
        other => panic!("{:?}", other),
    }
}

fn refusal(progress: Progress<String>) -> String {
    match progress {
        Progress::Failed(e) => e,
        other => panic!("{:?}", other),
    }
}

#[test]
fn names_of_programs() {
    assert_eq!(MdEngine::Lammps.as_str(), "lammps");
    assert_eq!(DftCode::Vasp.as_str(), "vasp");
    assert_eq!(ModelBackend::Upet.as_str(), "UPET");
    assert_eq!(ModelBackend::N2p2.as_str(), "n2p2");
    assert_eq!(ModelBackend::Upet.backend_key(), "upet");
    assert_eq!(ModelBackend::N2p2.pixi_env(), "n2p2");
    assert_eq!(ModelBackend::Upet.python_script(), "poscar_to_upet.py");
    assert_eq!(ModelBackend::N2p2.python_script(), "poscar_to_n2p2.py");
    assert_eq!(EnergyMode::Pet.as_str(), "pet");
    assert_eq!(EnergyMode::Raw.as_str(), "raw");
    assert_eq!(EnergyMode::Pet.training_key(), "energy-corrected");
    assert_eq!(EnergyMode::Raw.training_key(), "energy");
    assert_eq!(
        QbcMethod::Rrmsfd.as_str(),
        "RRMSFD (relative root mean squared force deviation)"
    );
    assert_eq!(training(ModelBackend::Upet, 1, None).name(), "UPET");
    assert_eq!(md(1).describe(), "lammps");
    assert_eq!(
        dft().resubmit_from_current_state(),
        Err(text("vasp does not support resubmission"))
    );
}

#[test]
fn jobs_have_to_be_completed() {
    assert_eq!(ensure_completed(&job(FinalJobStatus::Completed)), Ok(()));
    for (status, words) in [
        (FinalJobStatus::Timeout, "Timeout"),
        (FinalJobStatus::OutOfMemory, "OutOfMemory"),
        (FinalJobStatus::Cancelled, "Cancelled"),
        (FinalJobStatus::Failed, "Failed"),
        (FinalJobStatus::Other(text("NODE_FAIL")), "Other(\"NODE_FAIL\")"),
        (FinalJobStatus::Other(text("a\"b\n")), "Other(\"a\\\"b\\n\")"),
    ] {
        assert_eq!(
            ensure_completed(&job(status)),
            Err(format!("job finished with non-completed status: {}", words))
        );
    }
    assert_eq!(
        check_completed(&FinalJobStatus::Other(text("x")), "<x>"),
        Err(text("job finished with non-completed status: Other(<x>)"))
    );
    let synthetic = synthetic_finished_data(text("<local>"));
    assert_eq!(synthetic.jobscript, "<local>");
    assert_eq!(synthetic.job_id, "0");
    assert_eq!(synthetic.start_time, "");
    assert_eq!(synthetic.end_time, "");
    assert_eq!(synthetic.runtime, "");
    assert_eq!(ensure_completed(&synthetic), Ok(()));
}

#[test]
fn the_first_missing_file_is_named() {
    let required = vec![requirement("no a", text("a")), requirement("no b", text("b"))];
    assert_eq!(check_present(&required, &files(&["b", "a"])), Ok(()));
    assert_eq!(check_present(&required, &files(&["b"])), Err(text("no a: a")));
    assert_eq!(check_present(&required, &files(&["a"])), Err(text("no b: b")));
    assert_eq!(check_present(&Vec::new(), &files(&[])), Ok(()));
}

#[test]
fn simulations_are_validated() {
    let data = "p/setup/lammps/data/lmp.data";
    let template = "p/setup/jobscripts/md_array.sh.template";
    let found = Ok(text("input"));
    let check = |members: usize, paths: &[&str], input: &Result<String, String>| {
        md(members).validate_required_files(&ctx(true, None), &files(paths), input)
    };
    assert_eq!(check(1, &[data, template], &found), Ok(()));
    assert_eq!(
        check(0, &[data, template], &found),
        Err(text("MD step requires at least one committee member"))
    );
    assert_eq!(check(1, &[data, template], &Err(text("no input"))), Err(text("no input")));
    assert_eq!(
        check(1, &[template], &found),
        Err(text("missing LAMMPS data file: p/setup/lammps/data/lmp.data"))
    );
    assert_eq!(
        check(1, &[data], &found),
        Err(text("missing MD job template: p/setup/jobscripts/md_array.sh.template"))
    );
}

#[test]
fn simulations_are_prepared() {
    let (call, stage) = asked(md(4).prepare(&ctx(false, None), &files(&[])));
    match call {
        Call::MdWorkspace { project_dir, setup_dir, generation, committee_members, model_package } => {
            assert_eq!((project_dir.as_str(), setup_dir.as_str()), ("p", "p/setup"));
            assert_eq!((generation, committee_members), (2, 4));
            assert_eq!(model_package, Some(MdModelPackage::UpetModel));
        }
        other => panic!("{:?}", other),
    }
    assert_eq!(
        script(md(4).resume(&ctx(false, None), stage, Reply::Path(text("p/md_runs/generation_2")))),
        "p/md_runs/generation_2/submit_array.sh"
    );
    assert_eq!(
        refusal(md(4).resume(&ctx(false, None), Stage::MdWorkspace, Reply::Failed(text("full")))),
        "full"
    );
}

const VASP: [&str; 4] = [
    "p/setup/vasp/INCAR",
    "p/setup/vasp/KPOINTS",
    "p/setup/vasp/POTCAR",
    "p/setup/jobscripts/vasp_array.sh.template",
];

#[test]
fn calculations_are_validated() {
    let check = |paths: &[&str]| {
        dft().validate_required_files(&ctx(true, None), &files(paths), &Err(text("unused")))
    };
    let with = |extra: &[&str]| check(&[&VASP[..], extra].concat());
    assert_eq!(with(&["p/selected_structures/generation_2.xyz"]), Ok(()));
    assert_eq!(with(&["p/setup/training/seed_dataset.xyz"]), Ok(()));
    assert_eq!(
        with(&[]),
        Err(text(
            "missing selected structures and seed dataset for DFT dry-run: \
             p/selected_structures/generation_2.xyz"
        ))
    );
    assert_eq!(check(&VASP[1..]), Err(text("missing VASP input: p/setup/vasp/INCAR")));
    assert_eq!(
        check(&VASP[..3]),
        Err(text("missing VASP job template: p/setup/jobscripts/vasp_array.sh.template"))
    );
}

#[test]
fn calculations_are_prepared_in_order() {
    let c = ctx(false, None);
    let selected = "p/selected_structures/generation_2.xyz";
    let step = dft();
    let (call, stage) = asked(step.prepare(&c, &files(&[selected])));
    assert!(matches!(call, Call::ConfigurationCount { structures } if structures == selected));
    let mut progress = step.resume(&c, stage, Reply::Count(2));
    for expected in 0..2usize {
        let (call, stage) = asked(progress);
        match call {
            Call::RunDirectory { run_name, structures, generation_dir, setup_dir, index } => {
                assert_eq!(run_name, format!("config_{:03}", expected));
                assert_eq!(structures, selected);
                assert_eq!(generation_dir, "p/vasp_runs/generation_2");
                assert_eq!(setup_dir, "p/setup");
                assert_eq!(index, expected);
            }
            other => panic!("{:?}", other),
        }
        let (call, stage) = asked(step.resume(&c, stage, Reply::Done));
        match call {
            Call::MockOutcar { run_dir, index } => {
                assert_eq!(run_dir, format!("p/vasp_runs/generation_2/config_{:03}", expected));
                assert_eq!(index, expected);
            }
            other => panic!("{:?}", other),
        }
        progress = step.resume(&c, stage, Reply::Done);
    }
    let (call, stage) = asked(progress);
    match call {
        Call::ArrayScript { setup_dir, generation_dir, generation, count } => {
            assert_eq!(setup_dir, "p/setup");
            assert_eq!(generation_dir, "p/vasp_runs/generation_2");
            assert_eq!((generation, count), (2, 2));
        }
        other => panic!("{:?}", other),
    }
    assert_eq!(script(step.resume(&c, stage, Reply::Path(text("a.sh")))), "a.sh");
}

#[test]
fn a_limit_cuts_calculations_short() {
    let c = ctx(true, Some(1));
    let step = dft();
    let counting = || Stage::Counting { structures: text("s") };
    let (_, stage) = asked(step.resume(&c, counting(), Reply::Count(9)));
    assert!(matches!(stage, Stage::RunDirectory { count: 1, index: 0, .. }));
    let (call, _) = asked(step.resume(&c, counting(), Reply::Count(0)));
    assert!(matches!(call, Call::ArrayScript { count: 0, .. }));
    let wide = ctx(true, Some(20));
    let (_, stage) = asked(step.resume(&wide, counting(), Reply::Count(9)));
    assert!(matches!(stage, Stage::RunDirectory { count: 9, .. }));
    let last = Stage::Outcar { structures: text("s"), count: 1001, index: 999 };
    let (call, _) = asked(step.resume(&wide, last, Reply::Done));
    assert!(matches!(call, Call::RunDirectory { run_name, .. } if run_name == "config_1000"));
}

#[test]
fn calculations_need_structures() {
    assert_eq!(
        refusal(dft().prepare(&ctx(false, None), &files(&["p/setup/training/seed_dataset.xyz"]))),
        "selected structures file not found: p/selected_structures/generation_2.xyz"
    );
    let (call, _) =
        asked(dft().prepare(&ctx(true, None), &files(&["p/setup/training/seed_dataset.xyz"])));
    assert!(matches!(call, Call::ConfigurationCount { structures }
        if structures == "p/setup/training/seed_dataset.xyz"));
    let missing = "dry-run selected structures missing and no seed dataset found; expected \
                   p/setup/training/seed_dataset.extxyz or p/setup/training/seed_dataset.xyz";
    assert_eq!(refusal(dft().prepare(&ctx(true, None), &files(&[]))), missing);
    assert_eq!(dry_seed_dataset("p", &files(&[])), Err(text(missing)));
    assert_eq!(
        dry_seed_dataset(
            "p",
            &files(&["p/setup/training/seed_dataset.xyz", "p/setup/training/seed_dataset.extxyz"])
        ),
        Ok(text("p/setup/training/seed_dataset.extxyz"))
    );
}

#[test]
fn training_is_validated() {
    let check = |step: PipelineStep, paths: &[&str]| {
        step.validate_required_files(&ctx(true, None), &files(paths), &Err(text("unused")))
    };
    let upet = [
        "m.ckpt",
        "p/setup/training/upet.yaml.template",
        "p/setup/jobscripts/upet_training_array.sh.template",
    ];
    assert_eq!(check(training(ModelBackend::Upet, 1, Some("m.ckpt")), &upet), Ok(()));
    assert_eq!(
        check(training(ModelBackend::Upet, 0, Some("m.ckpt")), &upet),
        Err(text("training step requires at least one committee member"))
    );
    assert_eq!(
        check(training(ModelBackend::Upet, 1, None), &upet),
        Err(text("UPET training requires a checkpoint"))
    );
    assert_eq!(
        check(training(ModelBackend::Upet, 1, Some("n.ckpt")), &upet),
        Err(text("checkpoint does not exist: n.ckpt"))
    );
    assert_eq!(
        check(training(ModelBackend::Upet, 1, Some("m.ckpt")), &upet[..2]),
        Err(text(
            "missing UPET training config: p/setup/jobscripts/upet_training_array.sh.template"
        ))
    );
    let n2p2 = [
        "p/setup/training/input.nn",
        "p/setup/jobscripts/n2p2_scaling_array.sh.template",
        "p/setup/jobscripts/n2p2_training_array.sh.template",
    ];
    assert_eq!(check(training(ModelBackend::N2p2, 1, None), &n2p2), Ok(()));
    assert_eq!(
        check(training(ModelBackend::N2p2, 1, None), &n2p2[1..]),
        Err(text("missing n2p2 training config: p/setup/training/input.nn"))
    );
}

#[test]
fn foundation_models_are_prepared() {
    let step = training(ModelBackend::Upet, 3, Some("m.ckpt"));
    let c = ctx(false, None);
    let (call, stage) = asked(step.prepare(&c, &files(&[])));
    assert!(matches!(call, Call::Dataset { energy_mode: EnergyMode::Pet, generation: 2, .. }));
    let (call, stage) = asked(step.resume(&c, stage, Reply::Done));
    match call {
        Call::UpetWorkspace { foundation, training_key, committee_members, .. } => {
            assert_eq!(foundation, "m.ckpt");
            assert_eq!(training_key, "energy-corrected");
            assert_eq!(committee_members, 3);
        }
        other => panic!("{:?}", other),
    }
    assert_eq!(script(step.resume(&c, stage, Reply::Path(text("u.sh")))), "u.sh");
    let (call, _) = asked(step.prepare(&ctx(true, None), &files(&[])));
    assert!(matches!(call, Call::DryDataset { backend: ModelBackend::Upet, .. }));
    let bare = training(ModelBackend::Upet, 3, None);
    assert_eq!(
        refusal(bare.resume(&c, Stage::Dataset, Reply::Done)),
        "UPET training requires a checkpoint"
    );
}

#[test]
fn neural_networks_are_prepared() {
    let step = training(ModelBackend::N2p2, 3, None);
    let c = ctx(false, None);
    let (call, stage) = asked(step.resume(&c, Stage::Dataset, Reply::Done));
    assert!(matches!(call, Call::N2p2Workspace { committee_members: 3, .. }));
    let scripts = Reply::Scripts { scaling: text("s.sh"), training: text("t.sh") };
    let (call, stage) = asked(step.resume(&c, stage, scripts));
    assert!(matches!(call, Call::N2p2ScalingOutputs { generation: 2, .. }));
    let (call, stage) = asked(step.resume(&c, stage, Reply::Done));
    match call {
        Call::N2p2MemoryReport { generation_dir, training_script, committee_members } => {
            assert_eq!(generation_dir, "p/training/generation_2");
            assert_eq!(training_script, "t.sh");
            assert_eq!(committee_members, 3);
        }
        other => panic!("{:?}", other),
    }
    assert_eq!(script(step.resume(&c, stage, Reply::Done)), "t.sh");
    assert_eq!(
        refusal(step.resume(
            &c,
            Stage::N2p2Scaling { script: text("t.sh") },
            Reply::Failed(text("disk"))
        )),
        "disk"
    );
}

#[test]
fn disagreement_is_validated_and_prepared() {
    let template = "p/setup/jobscripts/n2p2_disagreement.sh.template";
    let check = |step: PipelineStep, paths: &[&str]| {
        step.validate_required_files(&ctx(true, None), &files(paths), &Err(text("unused")))
    };
    assert_eq!(check(qbc(2, DisagreementMode::Mock), &[]), Ok(()));
    assert_eq!(
        check(qbc(1, DisagreementMode::Mock), &[]),
        Err(text("QBC step requires at least two committee members"))
    );
    assert_eq!(check(qbc(2, DisagreementMode::Real), &[template]), Ok(()));
    assert_eq!(
        check(qbc(2, DisagreementMode::Real), &[]),
        Err(format!("missing disagreement job template: {}", template))
    );
    let c = ctx(false, None);
    let (call, stage) = asked(qbc(2, DisagreementMode::Mock).prepare(&c, &files(&[])));
    match call {
        Call::MockDisagreement { backend_key, settings, committee_members, .. } => {
            assert_eq!(backend_key, "n2p2");
            assert_eq!(settings.max_selected, 8);
            assert_eq!(committee_members, 2);
        }
        other => panic!("{:?}", other),
    }
    assert!(matches!(
        qbc(2, DisagreementMode::Mock).resume(&c, stage, Reply::Done),
        Progress::Ready(StepPlan::LocalComplete)
    ));
    let (call, stage) = asked(qbc(2, DisagreementMode::Real).prepare(&c, &files(&[])));
    assert!(matches!(call, Call::DisagreementScript { generation: 2, .. }));
    assert_eq!(
        script(qbc(2, DisagreementMode::Real).resume(&c, stage, Reply::Path(text("d.sh")))),
        "d.sh"
    );
}

#[test]
fn steps_are_completed() {
    let c = ctx(false, None);
    let done = || job(FinalJobStatus::Completed);
    for step in [md(1), dft(), qbc(2, DisagreementMode::Mock)] {
        assert!(matches!(step.on_completion(&done(), &c), Completion::Done));
    }
    let upet = training(ModelBackend::Upet, 3, Some("m.ckpt"));
    match upet.on_completion(&done(), &c) {
        Completion::Ask { call: Call::UpetModels { committee_members: 3, .. }, stage } => {
            assert!(matches!(upet.resume_completion(&c, stage, Ok(())), Completion::Done));
        }
        other => panic!("{:?}", other),
    }
    let n2p2 = training(ModelBackend::N2p2, 3, None);
    match n2p2.on_completion(&done(), &c) {
        Completion::Ask { call: Call::N2p2TrainingOutputs { generation: 2, .. }, stage } => {
            match n2p2.resume_completion(&c, stage, Ok(())) {
                Completion::Ask { call: Call::N2p2BestEpoch { .. }, stage } => {
                    assert!(matches!(n2p2.resume_completion(&c, stage, Ok(())), Completion::Done));
                }
                other => panic!("{:?}", other),
            }
        }
        other => panic!("{:?}", other),
    }
    match n2p2.resume_completion(&c, CompletionStage::N2p2BestEpoch, Err(text("none"))) {
        Completion::Failed(e) => assert_eq!(e, "none"),
        other => panic!("{:?}", other),
    }
    match n2p2.on_completion(&job(FinalJobStatus::Timeout), &c) {
        Completion::Failed(e) => {
            assert_eq!(e, "job finished with non-completed status: Timeout")
        }
        other => panic!("{:?}", other),
    }
}

#[test]
fn a_dry_run_makes_up_training_data() {
    let plan = |backend: ModelBackend, checkpoint: Option<&str>, paths: &[&str]| {
        prepare_dry_training_dataset("p", 2, backend, &checkpoint.map(text), &files(paths))
    };
    let there = "p/training/generation_2/dataset/validation.extxyz";
    let effects = plan(ModelBackend::Upet, Some("m.ckpt"), &["m.ckpt", there]).unwrap();
    let shown: Vec<String> = effects
        .into_iter()
        .map(|e| match e {
            Effect::CreateDir { path, .. } => path,
            Effect::Write { path, text, .. } => format!("{}={}", path, text),
            other => panic!("{:?}", other),
        })
        .collect();
    assert_eq!(
        shown,
        vec![
            "p/training/generation_2/dataset",
            "p/training/generation_2/dataset/train.extxyz=# dry-run placeholder dataset\n",
            "p/training/generation_2/dataset/test.extxyz=# dry-run placeholder dataset\n",
        ]
    );
    let effects = plan(ModelBackend::N2p2, None, &[]).unwrap();
    assert_eq!(effects.len(), 2);
    assert!(matches!(&effects[1], Effect::Write { path, text, .. }
        if path == "p/training/generation_2/dataset/input.data"
            && text == "# dry-run placeholder n2p2 dataset\n"));
    assert_eq!(
        plan(ModelBackend::Upet, None, &[]).unwrap_err(),
        "UPET dry-run requires a checkpoint"
    );
    assert_eq!(
        plan(ModelBackend::Upet, Some("m.ckpt"), &[]).unwrap_err(),
        "checkpoint does not exist: m.ckpt"
    );
}

#[test]
fn training_data_are_prepared_by_a_command() {
    let set = CacheEnvironment { pixi: true, uv: true, xdg: true };
    let plan = |checkpoint: Option<&str>, home: Result<&str, &str>| {
        prepare_training_dataset(
            "p",
            7,
            ModelBackend::N2p2,
            &checkpoint.map(text),
            EnergyMode::Raw,
            &home.map(text).map_err(text),
            set,
        )
    };
    let command = plan(None, Ok("/h")).unwrap();
    assert_eq!(
        command.arguments,
        vec![
            "run", "-e", "n2p2", "--manifest-path", "/h/pixi.toml", "python",
            "/h/python/poscar_to_n2p2.py", "p", "7", "", "raw",
        ]
    );
    assert_eq!(command.failure, "Failed to spawn companion dataset engine: ");
    assert!(command.effects.is_empty());
    let fresh = prepare_training_dataset(
        "p",
        7,
        ModelBackend::Upet,
        &None,
        EnergyMode::Raw,
        &Ok(text("/h")),
        CacheEnvironment { pixi: false, uv: true, xdg: true },
    )
    .unwrap();
    assert!(matches!(&fresh.effects[..], [Effect::CreateDir { path, failure }]
        if path == "/h/cache/pixi" && failure == "Failed to configure Pixi: "));
    assert_eq!(plan(Some("m.ckpt"), Ok("/h")).unwrap().arguments[9], "m.ckpt");
    assert_eq!(plan(None, Err("no home")).unwrap_err(), "no home");
    assert_eq!(dataset_outcome(true, ""), Ok(()));
    assert_eq!(
        dataset_outcome(false, "exit status: 3"),
        Err(text("Python dataset pipeline returned non-zero exit status: exit status: 3"))
    );
}
