use alchemist::binary64::{Binary64, Quantity};
use alchemist::disagreement::DisagreementWorkspace;
use alchemist::effects::{Effect, Files};
use alchemist::job_script::{set_executable, JobLayout};
use alchemist::job_run::{ScriptJob, ScriptProgress, ScriptReply, ScriptRequest, ScriptStage};
use alchemist::mock_run::{MockJob, MockProgress, MockReply, MockRequest, MockStage};
use alchemist::paths::PathProbe;
use alchemist::report::{
    write_scores, write_selected_xyz, FrameMeasure, MeasuredAtom, MeasuredFrame,
};
use alchemist::selection::{select_frames, DisagreementSettings, FrameScore, Threshold};
use alchemist::structure::{Bounds, BoxBounds, DumpAtom, DumpFrame, Triple};
use std::collections::BTreeMap;

fn text(s: &str) -> String {
    s.to_string()
}

fn quantity(value: f64) -> Quantity {
    Quantity { value: Binary64 { bits: value.to_bits() }, text: format!("{:.8}", value) }
}

fn threshold(value: f64) -> Threshold {
    Threshold { value: Binary64 { bits: value.to_bits() }, text: value.to_string() }
}

fn settings(max_selected: usize, lo: f64, hi: f64) -> DisagreementSettings {
    DisagreementSettings {
        max_selected,
        bootstrap_max_selected: None,
        min_rrmse: threshold(lo),
        max_rrmse: threshold(hi),
    }
}

fn scores(values: &[f64]) -> Vec<FrameScore> {
    values
        .iter()
        .enumerate()
        .map(|(i, &v)| FrameScore {
            frame_index: i,
            timestep: 100 * i as i64,
            rms_abs_forces: quantity(1.5),
            rrmse_forces: quantity(v),
            selected: false,
        })
        .collect()
}

fn triple(x: &str, y: &str, z: &str) -> Triple<String> {
    Triple { x: text(x), y: text(y), z: text(z) }
}

fn measured(timestep: i64, rrmse: f64, atom_type: usize) -> MeasuredFrame {
    MeasuredFrame {
        timestep,
        rms_abs_forces: quantity(0.25),
        rrmse_forces: quantity(rrmse),
        lattice: Triple {
            x: triple("10", "0", "0"),
            y: triple("1", "9", "0"),
            z: triple("0", "0", "8"),
        },
        atoms: vec![MeasuredAtom { atom_type, position: triple("1.5", "2.5", "-3.5") }],
    }
}

#[test]
fn default_settings() {
    let defaults = DisagreementSettings::default();
    assert_eq!(defaults.max_selected, 8);
    assert_eq!(defaults.bootstrap_max_selected, None);
    assert_eq!(f64::from_bits(defaults.min_rrmse.value.bits), 0.02);
    assert_eq!(f64::from_bits(defaults.max_rrmse.value.bits), 0.40);
    assert_eq!(defaults.min_rrmse.text, 0.02f64.to_string());
    assert_eq!(defaults.max_rrmse.text, 0.40f64.to_string());
}

#[test]
fn frames_in_the_window_are_selected_by_falling_disagreement() {
    let all = scores(&[0.01, 0.02, 0.3, 0.4, 0.41, 0.1, f64::NAN, 0.3]);
    assert_eq!(select_frames(&all, &settings(8, 0.02, 0.4)), vec![3, 2, 7, 5, 1]);
    assert_eq!(select_frames(&all, &settings(2, 0.02, 0.4)), vec![3, 2]);
    assert_eq!(select_frames(&all, &settings(0, 0.02, 0.4)), Vec::<usize>::new());
    assert_eq!(select_frames(&all, &settings(8, 0.4, 0.02)), Vec::<usize>::new());
    assert_eq!(select_frames(&all, &settings(8, f64::NAN, 0.4)), Vec::<usize>::new());
    assert_eq!(
        select_frames(&scores(&[-0.0, 0.0, f64::INFINITY]), &settings(8, 0.0, f64::INFINITY)),
        vec![2, 0, 1]
    );
}

#[test]
fn ties_go_to_the_earlier_frame() {
    let all = scores(&[0.1, 0.2, 0.2, 0.2]);
    assert_eq!(select_frames(&all, &settings(2, 0.0, 1.0)), vec![1, 2]);
}

#[test]
fn frames_left_out_disagree_no_more_than_those_selected() {
    let values: Vec<f64> = (0..40).map(|i| ((i * 17) % 23) as f64 / 40.0).collect();
    let chosen = select_frames(&scores(&values), &settings(5, 0.1, 0.5));
    assert_eq!(chosen.len(), 5);
    let least = chosen.iter().map(|&i| values[i]).fold(f64::INFINITY, f64::min);
    for (i, &v) in values.iter().enumerate() {
        if (0.1..=0.5).contains(&v) && !chosen.contains(&i) {
            assert!(v <= least);
        }
    }
}

#[test]
fn scores_are_written_as_a_table() {
    let mut all = scores(&[0.25]);
    all[0].selected = true;
    all[0].timestep = -5;
    assert_eq!(
        write_scores(&all),
        "frame_index,timestep,rms_abs_forces,rrmse_forces,selected\n\
         0,-5,1.50000000,0.25000000,true\n"
    );
    assert_eq!(
        write_scores(&Vec::new()),
        "frame_index,timestep,rms_abs_forces,rrmse_forces,selected\n"
    );
}

#[test]
fn structures_are_written_in_extended_xyz() {
    let frames = vec![measured(0, 0.1, 1), measured(100, 0.2, 2)];
    let species = vec![text("S"), text("Cu")];
    assert_eq!(
        write_selected_xyz(&frames, &vec![1], &species).unwrap(),
        "1\nLattice=\"10 0 0 1 9 0 0 0 8\" Properties=species:S:1:pos:R:3 pbc=\"T T T\" \
         timestep=100\nCu              1.5              2.5             -3.5\n"
    );
    assert!(write_selected_xyz(&frames, &vec![0], &species).unwrap().contains("\nS               1.5 "));
    assert_eq!(write_selected_xyz(&frames, &Vec::new(), &species).unwrap(), "");
    assert_eq!(
        write_selected_xyz(&frames, &vec![0, 2], &species),
        Err(text("Selected frame index 2 is out of bounds"))
    );
    assert_eq!(
        write_selected_xyz(&frames, &vec![0, 1], &vec![text("S")]),
        Err(text("LAMMPS atom type 2 has no pair_coeff mapping (S)"))
    );
}

fn trajectory(types: &[usize]) -> String {
    let mut all = String::new();
    for (i, t) in types.iter().enumerate() {
        all.push_str(&format!(
            "ITEM: TIMESTEP\n{}\nITEM: NUMBER OF ATOMS\n1\nITEM: BOX BOUNDS xy xz yz pp pp pp\n\
             0 1 0\n0 1 0\n0 1 0\nITEM: ATOMS id type x y z\n1 {} 0 0 0\n",
            100 * i,
            t
        ));
    }
    all
}

fn measure(frame: &DumpFrame, index: usize, backend: &str, members: usize) -> FrameMeasure {
    assert_eq!((backend, members), ("upet", 3));
    assert_eq!(frame.timestep, 100 * index as i64);
    FrameMeasure {
        rms_abs_forces: quantity(0.25),
        rrmse_forces: quantity(0.1 * (index + 1) as f64),
        lattice: Triple {
            x: triple("10", "0", "0"),
            y: triple("1", "9", "0"),
            z: triple("0", "0", "8"),
        },
    }
}

fn place(frame: &DumpFrame, atom: &DumpAtom) -> Triple<String> {
    triple(&frame.timestep.to_string(), &atom.position.y.literal, "7.5")
}

fn written<'a>(effects: &'a [Effect<String>], wanted: &str) -> &'a str {
    for effect in effects {
        if let Effect::Write { path, text, .. } = effect {
            if path == wanted {
                return text;
            }
        }
    }
    panic!("{} is not written", wanted)
}

#[test]
fn a_mock_evaluation_marks_and_exports_the_same_frames() {
    let evaluation = DisagreementWorkspace::evaluate_mock(
        "proj",
        4,
        "upet",
        3,
        &settings(2, 0.15, 0.45),
        &Ok(trajectory(&[1, 2, 1, 2, 1])),
        &Ok(text("pair_coeff * * S Cu\n")),
        measure,
        place,
    )
    .unwrap();
    assert!(evaluation.notices.is_empty());
    let result = evaluation.outcome.unwrap();
    assert_eq!(result.selected_count, 2);
    assert_eq!(result.scores_path, "proj/disagreement/generation_4/scores.csv");
    assert_eq!(result.selected_path, "proj/selected_structures/generation_4.xyz");
    let table = written(&evaluation.effects, "proj/disagreement/generation_4/scores.csv");
    let marked: Vec<&str> = table.lines().filter(|l| l.ends_with(",true")).collect();
    assert_eq!(marked.len(), 2);
    assert!(marked[0].starts_with("2,200,") && marked[1].starts_with("3,300,"));
    let structures = written(&evaluation.effects, "proj/disagreement/generation_4/selected.xyz");
    let steps: Vec<&str> = structures.lines().filter(|l| l.starts_with("Lattice")).collect();
    assert_eq!(steps.len(), 2);
    assert!(steps[0].ends_with("timestep=200") && steps[1].ends_with("timestep=300"));
    let rows: Vec<Vec<&str>> = structures
        .lines()
        .skip(2)
        .step_by(3)
        .map(|l| l.split_whitespace().collect())
        .collect();
    assert_eq!(rows, vec![vec!["S", "200", "0", "7.5"], vec!["Cu", "300", "0", "7.5"]]);
    match &evaluation.effects[4] {
        Effect::Copy { from, to, failure } => {
            assert_eq!(from, "proj/disagreement/generation_4/selected.xyz");
            assert_eq!(to, "proj/selected_structures/generation_4.xyz");
            assert_eq!(
                failure,
                "Failed to copy selected structures into proj/selected_structures/generation_4.xyz: "
            );
        }
        other => panic!("{:?}", other),
    }
}

#[test]
fn a_mock_evaluation_is_deterministic() {
    let run = || {
        let evaluation = DisagreementWorkspace::evaluate_mock(
            "proj",
            4,
            "upet",
            3,
            &settings(2, 0.15, 0.45),
            &Ok(trajectory(&[1, 2, 1, 2, 1])),
            &Ok(text("pair_coeff * * S Cu\n")),
            measure,
            place,
        )
        .unwrap();
        (format!("{:?}", evaluation.effects), evaluation.outcome.unwrap().selected_count)
    };
    assert_eq!(run(), run());
}

#[test]
fn a_mock_evaluation_without_species_falls_back() {
    let evaluation = DisagreementWorkspace::evaluate_mock(
        "proj",
        1,
        "upet",
        3,
        &settings(8, 0.0, 1.0),
        &Ok(trajectory(&[1, 3])),
        &Err(text("gone")),
        measure,
        place,
    )
    .unwrap();
    assert_eq!(
        evaluation.notices,
        vec![
            " ⚠️  Could not read LAMMPS species for mock disagreement (Failed to read \
             proj/md_runs/generation_1/run_000/input.lmp: gone); using fallback species."
        ]
    );
    assert_eq!(
        evaluation.outcome.unwrap_err(),
        "LAMMPS atom type 3 has no pair_coeff mapping (S, Cu)"
    );
    assert_eq!(evaluation.effects.len(), 2);
}

#[test]
fn a_mock_evaluation_needs_a_committee_and_frames() {
    let run = |members: usize, trajectory: Result<String, String>| {
        DisagreementWorkspace::evaluate_mock(
            "proj",
            1,
            "upet",
            members,
            &settings(8, 0.0, 1.0),
            &trajectory,
            &Ok(String::new()),
            measure,
            place,
        )
        .unwrap_err()
    };
    assert_eq!(run(1, Ok(trajectory(&[1]))), "Disagreement needs at least two committee members.");
    assert_eq!(
        run(3, Ok(String::new())),
        "No frames found in proj/md_runs/generation_1/run_000/traj.dump"
    );
    assert_eq!(
        run(3, Err(text("denied"))),
        "Failed to read proj/md_runs/generation_1/run_000/traj.dump: denied"
    );
    assert_eq!(
        run(3, Ok(text("ITEM: TIMESTEP\n"))),
        "Expected timestep, found end of dump"
    );
}

fn render(b: &BoxBounds) -> Bounds<String> {
    Bounds {
        xlo_bound: b.xlo_bound.literal.clone(),
        xhi_bound: b.xhi_bound.literal.clone(),
        ylo_bound: b.ylo_bound.literal.clone(),
        yhi_bound: b.yhi_bound.literal.clone(),
        zlo_bound: b.zlo_bound.literal.clone(),
        zhi_bound: b.zhi_bound.literal.clone(),
        xy: b.xy.literal.clone(),
        xz: b.xz.literal.clone(),
        yz: b.yz.literal.clone(),
    }
}

fn displace(_: usize, a: &DumpAtom) -> Triple<String> {
    Triple {
        x: a.position.x.literal.clone(),
        y: a.position.y.literal.clone(),
        z: a.position.z.literal.clone(),
    }
}

#[test]
fn a_trajectory_is_made_up_where_there_is_none() {
    let layout = DisagreementWorkspace::mock_layout("proj", 2, 2).unwrap();
    let data = Err(text("gone"));
    let mock = DisagreementWorkspace::mock_trajectory(&layout, &data, render, displace);
    assert!(mock.notice.unwrap().contains("proj/md_runs/generation_2/run_000/lmp.data: gone"));
    match mock.effect {
        Effect::Write { path, text, failure } => {
            assert_eq!(path, "proj/md_runs/generation_2/run_000/traj.dump");
            assert_eq!(text.matches("ITEM: TIMESTEP\n").count(), 11);
            assert!(text.contains("\n16 2 7.0 7.0 5.0\n"));
            assert_eq!(
                failure,
                "Failed to write mock trajectory proj/md_runs/generation_2/run_000/traj.dump: "
            );
        }
        other => panic!("{:?}", other),
    }
}

type FileSystem = BTreeMap<String, String>;

/// Runs a mock evaluation on files that are held in memory; what is done to `broken` fails.
fn run_mock(
    files: &mut FileSystem,
    members: usize,
    broken: Option<&str>,
) -> (Vec<String>, Vec<String>, Result<usize, String>) {
    let limits = settings(2, 0.15, 0.45);
    let job = MockJob {
        project_dir: "proj",
        generation: 4,
        backend: "upet",
        committee_members: members,
        settings: &limits,
    };
    let mut said: Vec<String> = Vec::new();
    let mut asked: Vec<String> = Vec::new();
    let mut progress = job.start();
    loop {
        let (request, stage) = match progress {
            MockProgress::Ask { notices, request, stage } => {
                said.extend(notices);
                (request, stage)
            }
            MockProgress::Finished(result) => return (said, asked, Ok(result.selected_count)),
            MockProgress::Failed(error) => return (said, asked, Err(error)),
        };
        let (line, reply) = match request {
            MockRequest::IsFile { path } => {
                let found = files.contains_key(&path);
                (format!("look {}", path), MockReply::IsFile(found))
            }
            MockRequest::Read { path } => {
                let found = files.get(&path).cloned().ok_or(text("gone"));
                (format!("read {}", path), MockReply::Text(found))
            }
            MockRequest::Perform { effect } => {
                let (line, target) = match &effect {
                    Effect::CreateDir { path, .. } => (format!("make {}", path), path.clone()),
                    Effect::Write { path, .. } => (format!("write {}", path), path.clone()),
                    Effect::Copy { to, .. } => (format!("copy {}", to), to.clone()),
                };
                if broken == Some(target.as_str()) {
                    (line, MockReply::Performed(Err(text("denied"))))
                } else {
                    match effect {
                        Effect::CreateDir { .. } => {}
                        Effect::Write { path, text, .. } => {
                            files.insert(path, text);
                        }
                        Effect::Copy { from, to, .. } => {
                            let copied = files[&from].clone();
                            files.insert(to, copied);
                        }
                    }
                    (line, MockReply::Performed(Ok(())))
                }
            }
        };
        asked.push(line);
        assert!(stage.accepts(&reply));
        assert!(!matches!(stage, MockStage::Looking) || asked.len() == 1);
        progress = job.resume(stage, reply, render, displace, measure, place);
    }
}

const RUN: &str = "proj/md_runs/generation_4/run_000";

#[test]
fn a_mock_run_reads_the_trajectory_that_is_there() {
    let mut files = FileSystem::new();
    files.insert(format!("{}/traj.dump", RUN), trajectory(&[1, 2, 1, 2, 1]));
    files.insert(format!("{}/input.lmp", RUN), text("pair_coeff * * S Cu\n"));
    let (said, asked, outcome) = run_mock(&mut files, 3, None);
    assert!(said.is_empty());
    assert_eq!(outcome, Ok(2));
    assert_eq!(
        asked,
        vec![
            format!("look {}/traj.dump", RUN),
            format!("read {}/traj.dump", RUN),
            format!("read {}/input.lmp", RUN),
            text("make proj/disagreement/generation_4"),
            text("write proj/disagreement/generation_4/scores.csv"),
            text("write proj/disagreement/generation_4/selected.xyz"),
            text("make proj/selected_structures"),
            text("copy proj/selected_structures/generation_4.xyz"),
        ]
    );
    let before = files.clone();
    assert_eq!(run_mock(&mut files, 3, None).2, Ok(2));
    assert_eq!(files, before);
}

#[test]
fn a_mock_run_writes_the_trajectory_that_it_reads() {
    let mut files = FileSystem::new();
    let (said, asked, outcome) = run_mock(&mut files, 3, None);
    assert_eq!(outcome, Ok(2));
    assert_eq!(said.len(), 2);
    assert!(said[0].contains(&format!("{}/lmp.data: gone", RUN)));
    assert!(said[1].contains(&format!("{}/input.lmp: gone", RUN)));
    assert_eq!(
        asked[..4],
        [
            format!("look {}/traj.dump", RUN),
            format!("read {}/lmp.data", RUN),
            format!("write {}/traj.dump", RUN),
            format!("read {}/traj.dump", RUN),
        ]
    );
    assert_eq!(files[&format!("{}/traj.dump", RUN)].matches("ITEM: TIMESTEP\n").count(), 11);
    let table = files["proj/disagreement/generation_4/scores.csv"].clone();
    assert_eq!(table.lines().count(), 12);
    let before = files.clone();
    let (said, asked, outcome) = run_mock(&mut files, 3, None);
    assert_eq!((said.len(), asked.len(), outcome), (1, 8, Ok(2)));
    assert_eq!(files, before);
}

#[test]
fn nothing_follows_what_a_mock_run_cannot_do() {
    let trajectory_path = format!("{}/traj.dump", RUN);
    for (broken, calls, error) in [
        (
            trajectory_path.as_str(),
            3,
            format!("Failed to write mock trajectory {}: denied", trajectory_path),
        ),
        (
            "proj/disagreement/generation_4",
            6,
            text("Failed to create disagreement directory proj/disagreement/generation_4: denied"),
        ),
        (
            "proj/disagreement/generation_4/scores.csv",
            7,
            text("Failed to write proj/disagreement/generation_4/scores.csv: denied"),
        ),
        (
            "proj/selected_structures/generation_4.xyz",
            10,
            text(
                "Failed to copy selected structures into \
                 proj/selected_structures/generation_4.xyz: denied",
            ),
        ),
    ] {
        let (_, asked, outcome) = run_mock(&mut FileSystem::new(), 3, Some(broken));
        assert_eq!(asked.len(), calls);
        assert!(asked.last().unwrap().ends_with(broken));
        assert_eq!(outcome, Err(error));
    }
    let (_, asked, outcome) = run_mock(&mut FileSystem::new(), 1, None);
    assert!(asked.is_empty());
    assert_eq!(outcome, Err(text("Disagreement needs at least two committee members.")));
    let mut files = FileSystem::new();
    files.insert(trajectory_path.clone(), text("ITEM: TIMESTEP\n"));
    let (_, asked, outcome) = run_mock(&mut files, 3, None);
    assert_eq!(asked.len(), 2);
    assert_eq!(outcome, Err(text("Expected timestep, found end of dump")));
    assert!(!MockStage::Looking.accepts(&MockReply::Performed(Ok(()))));
    assert!(!MockStage::ReadingTrajectory.accepts(&MockReply::IsFile(true)));
}

/// Makes a job script; the request at the place `broken` fails.
fn run_script(
    files: &[&str],
    home: Result<String, String>,
    broken: Option<usize>,
) -> (Vec<String>, Result<String, String>) {
    let limits = settings(8, 0.02, 0.4);
    let job = ScriptJob {
        project_dir: "proj",
        setup_dir: "proj/setup",
        generation: 5,
        backend: "n2p2",
        settings: &limits,
    };
    let mut asked: Vec<String> = Vec::new();
    let mut progress = job.start();
    loop {
        let (request, stage) = match progress {
            ScriptProgress::Ask { request, stage } => (request, stage),
            ScriptProgress::Finished(script) => return (asked, Ok(script)),
            ScriptProgress::Failed(error) => return (asked, Err(error)),
        };
        let done = if broken == Some(asked.len()) { Err(text("denied")) } else { Ok(()) };
        let (line, reply) = match request {
            ScriptRequest::Perform { effect: Effect::CreateDir { path, .. } } => {
                (format!("make {}", path), ScriptReply::Performed(done))
            }
            ScriptRequest::Home => (text("home"), ScriptReply::Home(home.clone())),
            ScriptRequest::Look { paths } => {
                let found = paths.into_iter().filter(|p| files.contains(&p.as_str())).collect();
                (text("look"), ScriptReply::Files(Files::new(found)))
            }
            ScriptRequest::Render { template, script, variables } => {
                assert_eq!(template, TEMPLATE);
                assert_eq!(variables.len(), 10);
                assert_eq!(variables[2].value, format!("/abs/{}", OWN));
                (format!("render {}", script), ScriptReply::Performed(done))
            }
            ScriptRequest::SetMode { permissions } => (
                format!("mode {} {:o}", permissions.path, permissions.mode),
                ScriptReply::Performed(done),
            ),
            other => panic!("{:?}", other),
        };
        asked.push(line);
        assert!(stage.accepts(&reply));
        progress = job.resume(stage, reply, present);
    }
}

#[test]
fn a_job_script_is_made_in_order() {
    let script = "proj/disagreement/generation_5/submit_disagreement.sh";
    let (asked, outcome) = run_script(&[TEMPLATE, OWN], Ok(text("/home")), None);
    assert_eq!(outcome, Ok(text(script)));
    assert_eq!(
        asked,
        vec![
            text("make proj/disagreement/generation_5"),
            text("make proj/selected_structures"),
            text("home"),
            text("look"),
            format!("render {}", script),
            format!("mode {} 755", script),
        ]
    );
    for (broken, error) in [
        (0, text("Failed to create disagreement directory proj/disagreement/generation_5: denied")),
        (
            1,
            text(
                "Failed to create selected structures directory proj/selected_structures: denied",
            ),
        ),
        (4, format!("Failed to render disagreement job template {}: denied", TEMPLATE)),
        (5, format!("Failed to mark disagreement job script executable {}: denied", script)),
    ] {
        let (asked, outcome) = run_script(&[TEMPLATE, OWN], Ok(text("/home")), Some(broken));
        assert_eq!(asked.len(), broken + 1);
        assert_eq!(outcome, Err(error));
    }
    let (asked, outcome) = run_script(&[TEMPLATE, OWN], Err(text("no home")), None);
    assert_eq!((asked.len(), outcome), (3, Err(text("no home"))));
    let (asked, outcome) = run_script(&[OWN], Ok(text("/home")), None);
    assert_eq!(asked.len(), 4);
    assert_eq!(outcome, Err(format!("Missing disagreement job template: {}", TEMPLATE)));
    assert!(!ScriptStage::Finding.accepts(&ScriptReply::Performed(Ok(()))));
    assert!(!ScriptStage::Making { done: 2 }.accepts(&ScriptReply::Performed(Ok(()))));
}

fn present(path: &str) -> PathProbe {
    PathProbe {
        path: text(path),
        exists: true,
        canonical: Ok(format!("/abs/{}", path)),
        parent: None,
        canonical_parent: Err(String::new()),
        file_name: None,
    }
}

fn job(
    generation: u32,
    files: &[&str],
    home: Result<String, String>,
    look: impl Fn(&str) -> PathProbe,
) -> Result<alchemist::job_script::JobScriptPlan, String> {
    let mut limits = settings(8, 0.02, 0.4);
    limits.bootstrap_max_selected = Some(3);
    DisagreementWorkspace::create_real_job_script(
        "proj",
        "proj/setup",
        generation,
        "n2p2",
        &limits,
        &home,
        &Files::new(files.iter().map(|f| text(f)).collect()),
        look,
    )
}

const TEMPLATE: &str = "proj/setup/jobscripts/n2p2_disagreement.sh.template";
const OWN: &str = "proj/external/alchemist/python/committee_disagreement.py";
const INSTALLED: &str = "/home/python/committee_disagreement.py";

#[test]
fn a_job_script_names_absolute_paths() {
    let plan = job(5, &[TEMPLATE, OWN, INSTALLED], Ok(text("/home")), present).unwrap();
    assert_eq!(plan.template, TEMPLATE);
    assert_eq!(plan.script, "proj/disagreement/generation_5/submit_disagreement.sh");
    assert_eq!(plan.permissions.path, plan.script);
    assert_eq!(plan.permissions.mode, 0o755);
    let variables: Vec<(&str, &str)> =
        plan.variables.iter().map(|v| (v.key.as_str(), v.value.as_str())).collect();
    assert_eq!(
        variables,
        vec![
            ("generation", "5"),
            ("project_dir", "/abs/proj"),
            ("python_script", "/abs/proj/external/alchemist/python/committee_disagreement.py"),
            ("trajectory", "/abs/proj/md_runs/generation_5/run_000/traj.dump"),
            ("committee_models", "/abs/proj/md_runs/generation_5/committee_models"),
            ("output_dir", "/abs/proj/disagreement/generation_5"),
            ("selected_structures", "/abs/proj/selected_structures/generation_5.xyz"),
            ("max_selected", "8"),
            ("min_rrmse", "0.02"),
            ("max_rrmse", "0.4"),
        ]
    );
    assert_eq!(
        plan.render_failure,
        format!("Failed to render disagreement job template {}: ", TEMPLATE)
    );
    assert_eq!(
        plan.executable_failure,
        "Failed to mark disagreement job script executable \
         proj/disagreement/generation_5/submit_disagreement.sh: "
    );
}

#[test]
fn the_installed_script_and_the_first_limit_stand_in() {
    let plan = job(0, &[TEMPLATE, INSTALLED], Ok(text("/home")), present).unwrap();
    assert_eq!(plan.variables[2].value, format!("/abs/{}", INSTALLED));
    assert_eq!(plan.variables[7].value, "3");
}

#[test]
fn a_job_script_that_cannot_be_made_says_why() {
    assert_eq!(
        job(1, &[TEMPLATE, OWN], Err(text("no home")), present).unwrap_err(),
        "no home"
    );
    assert_eq!(
        job(1, &[TEMPLATE], Ok(text("/home")), present).unwrap_err(),
        format!("Missing disagreement Python script: {}", INSTALLED)
    );
    assert_eq!(
        job(1, &[OWN], Ok(text("/home")), present).unwrap_err(),
        format!("Missing disagreement job template: {}", TEMPLATE)
    );
    let unresolved = |path: &str| PathProbe {
        path: text(path),
        exists: true,
        canonical: Err(text("loop")),
        parent: None,
        canonical_parent: Err(String::new()),
        file_name: None,
    };
    assert_eq!(
        job(1, &[TEMPLATE, OWN], Ok(text("/home")), unresolved).unwrap_err(),
        "Failed to resolve proj: loop"
    );
}

#[test]
fn a_job_needs_directories() {
    let layout = JobLayout::new("proj", "proj/setup", 3, "upet");
    let made: Vec<String> = layout
        .effects()
        .into_iter()
        .map(|e| match e {
            Effect::CreateDir { path, failure } => format!("{}|{}", path, failure),
            other => panic!("{:?}", other),
        })
        .collect();
    assert_eq!(
        made,
        vec![
            "proj/disagreement/generation_3|Failed to create disagreement directory \
             proj/disagreement/generation_3: ",
            "proj/selected_structures|Failed to create selected structures directory \
             proj/selected_structures: ",
        ]
    );
    assert_eq!(set_executable("x").mode, 0o755);
}
