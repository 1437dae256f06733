use alchemist::backend::{DisagreementMode, EnergyMode, ModelBackend, QbcMethod};
use alchemist::binary64::Binary64;
use alchemist::config::{
    wants_initialization, Config, DisagreementConfig, GenerationProgress,
};
use alchemist::copying::Walk;
use alchemist::effects::Files;
use alchemist::job::{FinalJobStatus, FinishedData, StepPlan};
use alchemist::pipeline::{Pipeline, PipelineCtx, PipelineStep, QbcStep, StepCtx};
use alchemist::preflight::{
    find_checkpoint, names_checkpoint, next_input, preflight, Preflight, SetupEntry,
};
use alchemist::runner::{
    copy_dir_filtered, copy_project_for_dry_run, Action, CopyAction, DryRunner, Entry, EntryKind,
    Event, Phase, RunProgress, Runner, Turn,
};
use alchemist::selection::{DisagreementSettings, Threshold};

fn text(s: &str) -> String {
    s.to_string()
}

const NAME: &str = "RRMSFD (relative root mean squared force deviation)";

fn step() -> PipelineStep {
    PipelineStep::Qbc(QbcStep::new(
        QbcMethod::Rrmsfd,
        StepCtx::new(text("p"), text("p/setup"), text("p/setup/jobscripts")),
        ModelBackend::Upet,
        2,
        DisagreementSettings::default(),
        DisagreementMode::Mock,
    ))
}

fn ctx(max_retries: u32) -> PipelineCtx {
    PipelineCtx {
        project_dir: text("p"),
        generation: 1,
        poll_interval: 30,
        max_retries,
        dry_run: false,
        dry_config_limit: None,
    }
}

fn ended(final_status: FinalJobStatus<String>) -> Event<String> {
    Event::Ended(FinishedData {
        jobscript: text("s.sh"),
        job_id: text("17"),
        start_time: String::new(),
        end_time: String::new(),
        runtime: String::new(),
        final_status,
    })
}

fn slurm(script: &str) -> Event<String> {
    Event::Prepared(StepPlan::Slurm { script: text(script) })
}

fn failure(turn: Turn<String>) -> String {
    assert_eq!(turn.phase, Phase::Over);
    match turn.action {
        Action::Fail(e) => e,
        other => panic!("{:?}", other),
    }
}

#[test]
fn slurm_submits_waits_and_completes() {
    let runner = Runner::Slurm;
    let turn = runner.start_step(&step());
    assert!(turn.notice.is_none() && matches!(turn.action, Action::Prepare));
    let turn = runner.run_step(&step(), &ctx(0), turn.phase, slurm("s.sh"));
    assert!(matches!(&turn.action, Action::Submit { script } if script == "s.sh"));
    let turn =
        runner.run_step(&step(), &ctx(0), turn.phase, Event::Submitted { job: text("17") });
    assert!(matches!(&turn.action, Action::Wait { job } if job == "17"));
    let turn = runner.run_step(&step(), &ctx(0), turn.phase, ended(FinalJobStatus::Completed));
    match &turn.action {
        Action::Complete { ended } => assert_eq!(ended.job_id, "17"),
        other => panic!("{:?}", other),
    }
    let turn = runner.run_step(&step(), &ctx(0), turn.phase, Event::Completed);
    assert!(matches!(turn.action, Action::Finish));
    assert_eq!(turn.phase, Phase::Over);
}

#[test]
fn a_job_is_resubmitted_only_as_often_as_allowed() {
    let runner = Runner::Slurm;
    let mut phase = Phase::Waiting { retries: 0 };
    for retries in 1..=2 {
        let turn = runner.run_step(&step(), &ctx(2), phase, ended(FinalJobStatus::Timeout));
        assert!(matches!(turn.action, Action::Resubmit));
        assert_eq!(turn.phase, Phase::Resubmitting { retries });
        let turn =
            runner.run_step(&step(), &ctx(2), turn.phase, Event::Submitted { job: text("18") });
        assert_eq!(turn.phase, Phase::Waiting { retries });
        phase = turn.phase;
    }
    assert_eq!(
        failure(runner.run_step(&step(), &ctx(2), phase, ended(FinalJobStatus::Timeout))),
        format!("{} failed: Max retries reached", NAME)
    );
}

#[test]
fn a_job_that_ends_badly_fails_its_step() {
    for (status, reason) in [
        (FinalJobStatus::Timeout, "Max retries reached"),
        (FinalJobStatus::OutOfMemory, "Out of memory"),
        (FinalJobStatus::Cancelled, "Job cancelled"),
        (FinalJobStatus::Failed, "Job failed"),
        (FinalJobStatus::Other(text("NODE_FAIL")), "Unknown status: NODE_FAIL"),
    ] {
        let turn =
            Runner::Slurm.run_step(&step(), &ctx(0), Phase::Waiting { retries: 0 }, ended(status));
        assert_eq!(failure(turn), format!("{} failed: {}", NAME, reason));
    }
    for phase in [Phase::Preparing, Phase::Submitting, Phase::Completing] {
        let turn = Runner::Slurm.run_step(&step(), &ctx(0), phase, Event::Failed(text("why")));
        assert_eq!(failure(turn), "why");
    }
}

#[test]
fn local_runs_accept_only_steps_without_jobs() {
    let turn = Runner::Local.start_step(&step());
    assert!(matches!(turn.action, Action::Prepare));
    let local = Event::Prepared(StepPlan::LocalComplete);
    let done = Runner::Local.run_step(&step(), &ctx(0), turn.phase, local);
    assert!(done.notice.is_none());
    assert!(matches!(&done.action, Action::Complete { ended } if ended.jobscript == "<local>"));
    let refused = Runner::Local.run_step(&step(), &ctx(0), turn.phase, slurm("s.sh"));
    assert_eq!(failure(refused), format!("{} cannot be run locally: it needs a Slurm job", NAME));
}

#[test]
fn dry_runs_validate_prepare_and_submit_nothing() {
    let runner = Runner::Dry;
    let turn = runner.start_step(&step());
    assert_eq!(turn.notice, Some(format!("[DryRun] preparing {}", NAME)));
    assert!(matches!(turn.action, Action::Validate));
    let turn = runner.run_step(&step(), &ctx(0), turn.phase, Event::Validated);
    assert_eq!(turn.notice, Some(format!("[DryRun] {} required files ok", NAME)));
    assert!(matches!(turn.action, Action::Prepare));
    let job = runner.run_step(&step(), &ctx(0), turn.phase, slurm("s.sh"));
    assert_eq!(job.notice, Some(text("[DryRun] would submit: sbatch s.sh")));
    match job.action {
        Action::Complete { ended } => {
            assert_eq!((ended.jobscript.as_str(), ended.job_id.as_str()), ("s.sh", "0"));
        }
        other => panic!("{:?}", other),
    }
    let local = Event::Prepared(StepPlan::LocalComplete);
    let turn = runner.run_step(&step(), &ctx(0), turn.phase, local);
    assert_eq!(turn.notice, Some(format!("[DryRun] {} completed locally", NAME)));
    assert!(matches!(turn.action, Action::Complete { .. }));
}

#[test]
fn a_dry_run_works_in_a_copy() {
    let dry = DryRunner::new("/tmp/x");
    assert_eq!(dry.temp_project_dir, "/tmp/x/project");
    assert_eq!(dry.notice(), "[DryRun] using temporary project copy: /tmp/x/project");
    let c = dry.context(&ctx(5));
    assert_eq!(c.project_dir, "/tmp/x/project");
    assert_eq!((c.generation, c.poll_interval, c.max_retries), (1, 30, 5));
    assert!(c.dry_run);
    assert_eq!(c.dry_config_limit, Some(1));
    assert_eq!(copy_project_for_dry_run("p", true), Ok(()));
    assert_eq!(
        copy_project_for_dry_run("p", false),
        Err(text("dry-run project dir is not a directory: p"))
    );
}

#[test]
fn a_copy_leaves_out_what_was_built_and_version_control() {
    let entry = |name: &str, kind: EntryKind| Entry { name: text(name), kind };
    assert_eq!(
        copy_dir_filtered(&vec![
            entry("setup", EntryKind::Dir),
            entry("target", EntryKind::Dir),
            entry(".git", EntryKind::File),
            entry("a.txt", EntryKind::File),
            entry(".jj", EntryKind::Dir),
            entry("socket", EntryKind::Other),
            entry(".direnv", EntryKind::Dir),
            entry("targets", EntryKind::Dir),
        ]),
        vec![
            CopyAction::Descend,
            CopyAction::Skip,
            CopyAction::Skip,
            CopyAction::CopyFile,
            CopyAction::Skip,
            CopyAction::Skip,
            CopyAction::Skip,
            CopyAction::Descend,
        ]
    );
}

fn listing(dir: &str) -> Vec<Entry<String>> {
    let named = |name: &str, kind: EntryKind| Entry { name: text(name), kind };
    match dir {
        "" => vec![
            named("setup", EntryKind::Dir),
            named("target", EntryKind::Dir),
            named("notes.txt", EntryKind::File),
            named("socket", EntryKind::Other),
        ],
        "setup" => vec![
            named(".git", EntryKind::Dir),
            named("vasp", EntryKind::Dir),
            named("config.toml", EntryKind::File),
        ],
        "setup/vasp" => vec![named("INCAR", EntryKind::File), named("target", EntryKind::File)],
        other => panic!("{} is listed", other),
    }
}

#[test]
fn a_copy_holds_the_whole_project_but_what_is_left_out() {
    let mut walk = Walk::new();
    let mut copied: Vec<(String, bool)> = Vec::new();
    while let Some(pending) = walk.next() {
        let path = pending.path.join("/");
        if pending.is_dir {
            walk.listed(&pending.path, &listing(&path));
        }
        copied.push((path, pending.is_dir));
    }
    let expected: Vec<(String, bool)> = [
        ("", true),
        ("setup", true),
        ("setup/vasp", true),
        ("setup/vasp/INCAR", false),
        ("setup/config.toml", false),
        ("notes.txt", false),
    ]
    .iter()
    .map(|(path, is_dir)| (text(path), *is_dir))
    .collect();
    assert_eq!(copied, expected);
    assert!(walk.next().is_none());
}

#[test]
fn a_pipeline_stops_at_its_first_failure() {
    let pipeline = Pipeline::new(vec![step(), step()]);
    assert!(matches!(pipeline.run(0, Ok(())), RunProgress::Step(0)));
    assert!(matches!(pipeline.run(1, Ok(())), RunProgress::Step(1)));
    assert!(matches!(pipeline.run(2, Ok(())), RunProgress::Finished));
    assert!(matches!(pipeline.run(1, Err(text("e"))), RunProgress::Failed(e) if e == "e"));
}

fn config(backend: ModelBackend, energy_mode: EnergyMode, mode: Option<DisagreementMode>) -> Config {
    Config {
        generations: 2,
        backend,
        energy_mode,
        members: 4,
        disagreement: Some(DisagreementConfig {
            mode,
            max_selected: None,
            min_rrmse: None,
            max_rrmse: None,
        }),
        runner: None,
    }
}

#[test]
fn what_is_not_configured_has_a_default() {
    let mut c = config(ModelBackend::Upet, EnergyMode::Pet, None);
    assert_eq!(c.runner(), Runner::Slurm);
    assert_eq!(c.disagreement_mode(), DisagreementMode::Mock);
    let settings = c.disagreement_settings();
    assert_eq!(settings.max_selected, 8);
    assert_eq!(settings.bootstrap_max_selected, None);
    assert_eq!(f64::from_bits(settings.min_rrmse.value.bits), 0.02);
    assert_eq!(settings.max_rrmse.text, "0.4");
    c.disagreement = None;
    c.runner = Some(Runner::Dry);
    assert_eq!(c.runner(), Runner::Dry);
    assert_eq!(c.disagreement_mode(), DisagreementMode::Mock);
    assert_eq!(c.disagreement_settings().max_selected, 8);
    let given = DisagreementConfig {
        mode: Some(DisagreementMode::Real),
        max_selected: Some(3),
        min_rrmse: Some(Threshold {
            value: Binary64 { bits: 0.1f64.to_bits() },
            text: text("0.1"),
        }),
        max_rrmse: None,
    };
    assert_eq!(given.mode(), DisagreementMode::Real);
    let settings = given.settings();
    assert_eq!(settings.max_selected, 3);
    assert_eq!(settings.min_rrmse.text, "0.1");
    assert_eq!(settings.max_rrmse.text, "0.4");
}

#[test]
fn foundation_models_are_needed_for_fine_tuning_and_alignment() {
    let needed = |b, e| config(b, e, None).checkpoint_required();
    assert!(needed(ModelBackend::Upet, EnergyMode::Pet));
    assert!(needed(ModelBackend::Upet, EnergyMode::Raw));
    assert!(needed(ModelBackend::N2p2, EnergyMode::Pet));
    assert!(!needed(ModelBackend::N2p2, EnergyMode::Raw));
}

#[test]
fn a_generation_trains_simulates_selects_and_calculates() {
    let c = config(ModelBackend::N2p2, EnergyMode::Raw, Some(DisagreementMode::Real));
    let pipeline = c.pipeline("p", Some(text("m.ckpt")));
    let names: Vec<&str> = pipeline.steps.iter().map(|s| s.name()).collect();
    assert_eq!(names, vec!["n2p2", "lammps", NAME, "vasp"]);
    match &pipeline.steps[0] {
        PipelineStep::Training(t) => {
            assert_eq!(t.checkpoint.as_deref(), Some("m.ckpt"));
            assert_eq!(t.ctx.setup_dir, "p/setup");
            assert_eq!(t.ctx.template, "p/setup/jobscripts");
            assert_eq!(t.committee_members, 4);
        }
        other => panic!("{:?}", other),
    }
    match &pipeline.steps[2] {
        PipelineStep::Qbc(q) => assert_eq!(q.mode, DisagreementMode::Real),
        other => panic!("{:?}", other),
    }
    let ctx = c.context("p", 2);
    assert_eq!((ctx.generation, ctx.poll_interval, ctx.max_retries), (2, 30, 0));
    assert!(!ctx.dry_run && ctx.dry_config_limit.is_none());
}

#[test]
fn generations_run_in_order_until_one_fails() {
    let c = config(ModelBackend::Upet, EnergyMode::Pet, None);
    match c.next_generation(0, Ok(())) {
        GenerationProgress::Start { generation, notice } => {
            assert_eq!(generation, 1);
            assert_eq!(notice, "\n🌀 Starting Generation 1/2...");
        }
        other => panic!("{:?}", other),
    }
    assert!(matches!(c.next_generation(1, Ok(())), GenerationProgress::Start { generation: 2, .. }));
    assert!(matches!(c.next_generation(2, Ok(())), GenerationProgress::Finished));
    match c.next_generation(1, Err(text("why"))) {
        GenerationProgress::Failed { notice } => assert_eq!(notice, " ❌ Generation 1 failed: why"),
        other => panic!("{:?}", other),
    }
}

#[test]
fn initialization_is_asked_for_by_a_flag() {
    let args = |a: &[&str]| a.iter().map(|s| text(s)).collect::<Vec<_>>();
    assert!(wants_initialization(&args(&["alchemist", "--init"])));
    assert!(wants_initialization(&args(&["alchemist", "init"])));
    assert!(!wants_initialization(&args(&["alchemist"])));
    assert!(!wants_initialization(&args(&["--init"])));
    assert!(!wants_initialization(&args(&["alchemist", "run", "--init"])));
}

const COMMON: [&str; 7] = [
    "p/setup/jobscripts/md_array.sh.template",
    "p/setup/jobscripts/vasp_array.sh.template",
    "p/setup/training/seed_dataset.xyz",
    "p/setup/vasp/INCAR",
    "p/setup/vasp/KPOINTS",
    "p/setup/vasp/POTCAR",
    "p/setup/lammps/data/lmp.data",
];
const UPET: [&str; 2] = [
    "p/setup/training/upet.yaml.template",
    "p/setup/jobscripts/upet_training_array.sh.template",
];
const N2P2: [&str; 3] = [
    "p/setup/training/input.nn",
    "p/setup/jobscripts/n2p2_scaling_array.sh.template",
    "p/setup/jobscripts/n2p2_training_array.sh.template",
];

fn ckpt() -> SetupEntry {
    SetupEntry {
        name: text("m.ckpt"),
        is_file: true,
        path: text("p/setup/training/m.ckpt"),
        shown: text("\"m.ckpt\""),
    }
}

fn fly(c: &Config, paths: &[&str], found: Vec<Result<String, String>>, entries: Vec<SetupEntry>) -> Preflight {
    let files = Files::new(paths.iter().map(|p| text(p)).collect());
    let mut asked: Vec<Result<String, String>> = Vec::new();
    while let Some(generation) = next_input(c, "p/setup", &files, &asked) {
        asked.push(found[generation as usize - 1].clone());
    }
    let flight = preflight(c, "p/setup", &files, &asked, &entries);
    let all = preflight(c, "p/setup", &files, &found, &entries);
    assert_eq!((flight.passed, &flight.checkpoint), (all.passed, &all.checkpoint));
    assert_eq!(said(&flight), said(&all));
    flight
}

fn inputs() -> Vec<Result<String, String>> {
    vec![Ok(text("i1")), Ok(text("i2"))]
}

fn said(flight: &Preflight) -> Vec<String> {
    flight
        .messages
        .iter()
        .map(|m| format!("{}{}", if m.is_error { "E:" } else { "O:" }, m.text))
        .collect()
}

#[test]
fn a_complete_project_passes() {
    let c = config(ModelBackend::Upet, EnergyMode::Pet, None);
    let flight = fly(&c, &[&COMMON[..], &UPET[..]].concat(), inputs(), vec![ckpt()]);
    assert!(flight.passed);
    assert_eq!(flight.checkpoint.as_deref(), Some("p/setup/training/m.ckpt"));
    assert_eq!(
        said(&flight),
        vec![
            "O:🔍 Performing pre-flight asset validation...",
            "O: ✓ Found seed dataset: p/setup/training/seed_dataset.xyz",
            "O: ✓ Found foundation model checkpoint: \"m.ckpt\"",
            "O: ✓ All required foundation files validated successfully.",
        ]
    );
    let c = config(ModelBackend::N2p2, EnergyMode::Raw, None);
    let flight = fly(&c, &[&COMMON[..], &N2P2[..]].concat(), inputs(), vec![ckpt()]);
    assert!(flight.passed && flight.checkpoint.is_none());
    assert_eq!(said(&flight)[2], "O: ✓ No foundation checkpoint is required.");
}

#[test]
fn a_project_that_passes_has_what_its_steps_need() {
    let c = config(ModelBackend::Upet, EnergyMode::Pet, Some(DisagreementMode::Real));
    let template = ["p/setup/jobscripts/upet_disagreement.sh.template"];
    let paths = [&COMMON[..], &UPET[..], &template[..], &["p/setup/training/m.ckpt"][..]].concat();
    let flight = fly(&c, &paths, inputs(), vec![ckpt()]);
    assert!(flight.passed);
    let files = Files::new(paths.iter().map(|p| text(p)).collect());
    let pipeline = c.pipeline("p", flight.checkpoint);
    for generation in 1..=2u32 {
        for step in &pipeline.steps {
            assert_eq!(
                step.validate_required_files(
                    &c.context("p", generation),
                    &files,
                    &inputs()[generation as usize - 1]
                ),
                Ok(())
            );
        }
    }
}

#[test]
fn a_project_without_a_committee_is_refused() {
    let mut c = config(ModelBackend::Upet, EnergyMode::Pet, None);
    c.members = 0;
    let flight = fly(&c, &[], inputs(), Vec::new());
    assert!(!flight.passed);
    assert_eq!(
        said(&flight),
        vec![
            "E:❌ Invalid committee configuration.",
            "E:`committee.members` must be greater than zero.",
        ]
    );
}

#[test]
fn a_project_with_missing_files_is_refused() {
    let upet = config(ModelBackend::Upet, EnergyMode::Pet, Some(DisagreementMode::Real));
    let n2p2 = config(ModelBackend::N2p2, EnergyMode::Raw, Some(DisagreementMode::Real));
    let refused = |c: &Config, paths: &[&str], line: &str| {
        let flight = fly(c, paths, inputs(), vec![ckpt()]);
        assert!(!flight.passed);
        let all = said(&flight);
        let n = all.len();
        assert_eq!(all[n - 2], "E:❌ PRE-FLIGHT VALIDATION FAILED!");
        assert_eq!(all[n - 1], format!("E:{}", line));
    };
    refused(&upet, &[], "Missing job template: p/setup/jobscripts/md_array.sh.template");
    refused(
        &upet,
        &COMMON,
        "Missing UPET template: p/setup/training/upet.yaml.template",
    );
    refused(
        &upet,
        &[&COMMON[..], &UPET[..]].concat(),
        "Missing UPET disagreement template: p/setup/jobscripts/upet_disagreement.sh.template",
    );
    refused(&n2p2, &COMMON, "Missing n2p2 setup file: p/setup/training/input.nn");
    refused(
        &n2p2,
        &[&COMMON[..], &N2P2[..]].concat(),
        "Missing n2p2 disagreement template: p/setup/jobscripts/n2p2_disagreement.sh.template",
    );
    let mock = config(ModelBackend::Upet, EnergyMode::Pet, None);
    refused(
        &mock,
        &[&COMMON[..3], &UPET[..]].concat(),
        "Missing VASP input: p/setup/vasp/INCAR",
    );
    refused(
        &mock,
        &[&COMMON[..6], &UPET[..]].concat(),
        "Missing LAMMPS data file: p/setup/lammps/data/lmp.data",
    );
}

#[test]
fn a_project_without_a_seed_dataset_is_refused() {
    let c = config(ModelBackend::Upet, EnergyMode::Pet, None);
    let flight = fly(&c, &[&COMMON[..2], &UPET[..]].concat(), inputs(), vec![ckpt()]);
    assert!(!flight.passed);
    assert_eq!(
        said(&flight),
        vec![
            "O:🔍 Performing pre-flight asset validation...",
            "E:❌ PRE-FLIGHT VALIDATION FAILED!",
            "E:Missing seed dataset. Expected one of:",
            "E:    p/setup/training/seed_dataset.extxyz",
            "E:    p/setup/training/seed_dataset.xyz",
        ]
    );
}

#[test]
fn a_project_without_inputs_or_a_foundation_model_is_refused() {
    let c = config(ModelBackend::N2p2, EnergyMode::Pet, None);
    let paths = [&COMMON[..], &N2P2[..]].concat();
    let flight = fly(&c, &paths, vec![Ok(text("i1")), Err(text("none"))], vec![ckpt()]);
    assert!(!flight.passed);
    assert_eq!(
        said(&flight).last().unwrap(),
        "O:❌ PRE-FLIGHT VALIDATION FAILED! Gen 2 missing input. Details: none"
    );
    let mut directory = ckpt();
    directory.is_file = false;
    let flight = fly(&c, &paths, inputs(), vec![directory]);
    assert!(!flight.passed && flight.checkpoint.is_none());
    assert_eq!(
        said(&flight)[2..],
        [
            "E:❌ A checkpoint (*.ckpt) is required.",
            "E:UPET training and PET energy correction require a foundation checkpoint in:",
            "E:    p/setup/training",
        ]
    );
}

#[test]
fn input_files_are_looked_for_as_long_as_they_decide() {
    let c = config(ModelBackend::N2p2, EnergyMode::Raw, None);
    let paths: Vec<String> =
        [&COMMON[..], &N2P2[..]].concat().iter().map(|p| text(p)).collect();
    let files = Files::new(paths.clone());
    let next = |files: &Files, found: Vec<Result<String, String>>| {
        next_input(&c, "p/setup", files, &found)
    };
    assert_eq!(next(&files, Vec::new()), Some(1));
    assert_eq!(next(&files, vec![Ok(text("i1"))]), Some(2));
    assert_eq!(next(&files, vec![Err(text("none"))]), None);
    assert_eq!(next(&files, inputs()), None);
    assert_eq!(next(&Files::new(paths[1..].to_vec()), Vec::new()), None);
    let flight = preflight(&c, "p/setup", &files, &vec![Err(text("none"))], &Vec::new());
    assert!(!flight.passed);
    assert_eq!(
        said(&flight).last().unwrap(),
        "O:❌ PRE-FLIGHT VALIDATION FAILED! Gen 1 missing input. Details: none"
    );
}

#[test]
fn foundation_models_are_found_by_their_extension() {
    for name in ["m.ckpt", "a.b.ckpt", "..ckpt", ".ckpt", "ckpt", "m.ckpt.bak", "m.CKPT", "x"] {
        let expected = std::path::Path::new(name).extension().is_some_and(|e| e == "ckpt");
        assert_eq!(names_checkpoint(name), expected, "{}", name);
    }
    let mut other = ckpt();
    other.name = text("readme");
    assert_eq!(find_checkpoint(&vec![other, ckpt(), ckpt()]), Some(1));
    assert_eq!(find_checkpoint(&Vec::new()), None);
}
