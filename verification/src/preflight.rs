//! What is looked at before anything is run.
use crate::backend::{DisagreementMode, ModelBackend};
use crate::config::Config;
use crate::effects::{
    Files, Requirement, find_missing, first_missing, law_all_present, missing, requirement,
};
use crate::number::{decimal, decimal_of};
use crate::paths::{below, child, descendant, grandchild};
use crate::pipeline::{Pipeline, PipelineCtx, PipelineStep, require_setup, setup_requirement};
use crate::text::{Text, chars_of, lemma_views_push, option_view, result_view, text2, text4, views};
use vstd::prelude::*;

verus! {

/// Something that is said to the user.
#[derive(Debug)]
pub struct Message<T> {
    /// Whether it is said of an error.
    pub is_error: bool,
    /// What is said.
    pub text: T,
}

impl<T: View> View for Message<T> {
    type V = Message<T::V>;

    open spec fn view(&self) -> Message<T::V> {
        Message { is_error: self.is_error, text: self.text@ }
    }
}

/// Something that is said.
pub open spec fn note(text: Text) -> Message<Text> {
    Message { is_error: false, text }
}

/// Something that is said of an error.
pub open spec fn complaint(text: Text) -> Message<Text> {
    Message { is_error: true, text }
}

/// One of the checks: whether it was passed, and what is said of it.
#[derive(Debug)]
pub struct Check<L> {
    /// Whether it was passed.
    pub passed: bool,
    /// What is said of it.
    pub messages: L,
}

/// A check that was passed.
pub open spec fn pass(messages: Seq<Message<Text>>) -> Check<Seq<Message<Text>>> {
    Check { passed: true, messages }
}

/// A check that was not passed.
pub open spec fn fail(messages: Seq<Message<Text>>) -> Check<Seq<Message<Text>>> {
    Check { passed: false, messages }
}

impl View for Check<Vec<Message<String>>> {
    type V = Check<Seq<Message<Text>>>;

    open spec fn view(&self) -> Check<Seq<Message<Text>>> {
        Check { passed: self.passed, messages: views(self.messages@) }
    }
}

/// What checks that are made in their order come to: after the first that is not passed no other
/// is made.
pub open spec fn all_checks(checks: Seq<Check<Seq<Message<Text>>>>) -> Check<Seq<Message<Text>>>
    decreases checks.len(),
{
    if checks.len() == 0 {
        pass(Seq::empty())
    } else {
        let before = all_checks(checks.drop_last());
        if before.passed {
            Check {
                passed: checks.last().passed,
                messages: before.messages + checks.last().messages,
            }
        } else {
            before
        }
    }
}

/// The headline of a check that was not passed.
pub open spec fn headline() -> Message<Text> {
    complaint("❌ PRE-FLIGHT VALIDATION FAILED!"@)
}

/// Adds something that is said.
fn tell(messages: &mut Vec<Message<String>>, is_error: bool, text: String)
    ensures
        views(final(messages)@) == views(old(messages)@).push(Message { is_error, text: text@ }),
{
    let message = Message { is_error, text };
    proof {
        lemma_views_push(messages@, message);
    }
    messages.push(message);
}

/// Whether there is a committee.
pub open spec fn committee_check(members: usize) -> Check<Seq<Message<Text>>> {
    if members == 0 {
        fail(
            seq![
                complaint("❌ Invalid committee configuration."@),
                complaint("`committee.members` must be greater than zero."@),
            ],
        )
    } else {
        pass(Seq::empty())
    }
}

/// Whether there is a committee.
fn check_committee(members: usize) -> (r: Check<Vec<Message<String>>>)
    ensures
        r@ == committee_check(members),
{
    let mut messages: Vec<Message<String>> = Vec::new();
    assert(views(messages@) =~= Seq::<Message<Text>>::empty());
    if members == 0 {
        tell(&mut messages, true, "❌ Invalid committee configuration.".to_owned());
        tell(&mut messages, true, "`committee.members` must be greater than zero.".to_owned());
        assert(views(messages@) =~= committee_check(members).messages);
    }
    Check { passed: members != 0, messages }
}

/// Whether required files are there.
pub open spec fn files_check(
    requirements: Seq<Requirement<Text>>,
    files: Set<Text>,
) -> Check<Seq<Message<Text>>> {
    match first_missing(requirements, files) {
        None => pass(Seq::empty()),
        Some(requirement) => fail(seq![headline(), complaint(missing(requirement))]),
    }
}

/// Whether required files are there.
fn check_files(requirements: &Vec<Requirement<String>>, files: &Files) -> (r: Check<
    Vec<Message<String>>,
>)
    ensures
        r@ == files_check(views(requirements@), files@),
{
    let mut messages: Vec<Message<String>> = Vec::new();
    assert(views(messages@) =~= Seq::<Message<Text>>::empty());
    match find_missing(requirements, files) {
        None => Check { passed: true, messages },
        Some(message) => {
            tell(&mut messages, true, "❌ PRE-FLIGHT VALIDATION FAILED!".to_owned());
            tell(&mut messages, true, message);
            assert(views(messages@) =~= files_check(views(requirements@), files@).messages);
            Check { passed: false, messages }
        },
    }
}

/// The templates and inputs that jobs are made from.
pub open spec fn templates(config: Config, setup_dir: Text) -> Seq<Requirement<Text>> {
    let jobs = seq![
        setup_requirement("Missing job template"@, setup_dir, "jobscripts"@, "md_array.sh.template"@),
        setup_requirement(
            "Missing job template"@,
            setup_dir,
            "jobscripts"@,
            "vasp_array.sh.template"@,
        ),
    ];
    let training = match config.backend {
        ModelBackend::Upet => seq![
            setup_requirement(
                "Missing UPET template"@,
                setup_dir,
                "training"@,
                "upet.yaml.template"@,
            ),
            setup_requirement(
                "Missing UPET template"@,
                setup_dir,
                "jobscripts"@,
                "upet_training_array.sh.template"@,
            ),
        ],
        ModelBackend::N2p2 => seq![
            setup_requirement("Missing n2p2 setup file"@, setup_dir, "training"@, "input.nn"@),
            setup_requirement(
                "Missing n2p2 setup file"@,
                setup_dir,
                "jobscripts"@,
                "n2p2_scaling_array.sh.template"@,
            ),
            setup_requirement(
                "Missing n2p2 setup file"@,
                setup_dir,
                "jobscripts"@,
                "n2p2_training_array.sh.template"@,
            ),
        ],
    };
    let disagreement = match (config.disagreement_kind(), config.backend) {
        (DisagreementMode::Mock, _) => Seq::empty(),
        (DisagreementMode::Real, ModelBackend::Upet) => seq![
            setup_requirement(
                "Missing UPET disagreement template"@,
                setup_dir,
                "jobscripts"@,
                "upet_disagreement.sh.template"@,
            ),
        ],
        (DisagreementMode::Real, ModelBackend::N2p2) => seq![
            setup_requirement(
                "Missing n2p2 disagreement template"@,
                setup_dir,
                "jobscripts"@,
                "n2p2_disagreement.sh.template"@,
            ),
        ],
    };
    jobs + training + disagreement
}

/// The templates and inputs that jobs are made from.
pub fn list_templates(config: &Config, setup_dir: &str) -> (r: Vec<Requirement<String>>)
    ensures
        views(r@) == templates(*config, setup_dir@),
{
    let mut required: Vec<Requirement<String>> = Vec::new();
    let label = "Missing job template";
    required.push(require_setup(label, setup_dir, "jobscripts", "md_array.sh.template"));
    required.push(require_setup(label, setup_dir, "jobscripts", "vasp_array.sh.template"));
    match config.backend {
        ModelBackend::Upet => {
            let label = "Missing UPET template";
            required.push(require_setup(label, setup_dir, "training", "upet.yaml.template"));
            required.push(
                require_setup(label, setup_dir, "jobscripts", "upet_training_array.sh.template"),
            );
        },
        ModelBackend::N2p2 => {
            let label = "Missing n2p2 setup file";
            required.push(require_setup(label, setup_dir, "training", "input.nn"));
            required.push(
                require_setup(label, setup_dir, "jobscripts", "n2p2_scaling_array.sh.template"),
            );
            required.push(
                require_setup(label, setup_dir, "jobscripts", "n2p2_training_array.sh.template"),
            );
        },
    }
    match (config.disagreement_mode(), config.backend) {
        (DisagreementMode::Mock, _) => {},
        (DisagreementMode::Real, ModelBackend::Upet) => {
            required.push(
                require_setup(
                    "Missing UPET disagreement template",
                    setup_dir,
                    "jobscripts",
                    "upet_disagreement.sh.template",
                ),
            );
        },
        (DisagreementMode::Real, ModelBackend::N2p2) => {
            required.push(
                require_setup(
                    "Missing n2p2 disagreement template",
                    setup_dir,
                    "jobscripts",
                    "n2p2_disagreement.sh.template",
                ),
            );
        },
    }
    assert(views(required@) =~= templates(*config, setup_dir@));
    required
}

/// Whether there is a seed dataset: the extended file, or else the plain one.
pub open spec fn seed_check(setup_dir: Text, files: Set<Text>) -> Check<Seq<Message<Text>>> {
    let looking = note("🔍 Performing pre-flight asset validation..."@);
    let extxyz = below(below(setup_dir, "training"@), "seed_dataset.extxyz"@);
    let xyz = below(below(setup_dir, "training"@), "seed_dataset.xyz"@);
    if files.contains(extxyz) {
        pass(seq![looking, note(" ✓ Found seed dataset: "@ + extxyz)])
    } else if files.contains(xyz) {
        pass(seq![looking, note(" ✓ Found seed dataset: "@ + xyz)])
    } else {
        fail(
            seq![
                looking,
                headline(),
                complaint("Missing seed dataset. Expected one of:"@),
                complaint("    "@ + extxyz),
                complaint("    "@ + xyz),
            ],
        )
    }
}

/// Whether there is a seed dataset.
fn check_seed(setup_dir: &str, files: &Files) -> (r: Check<Vec<Message<String>>>)
    ensures
        r@ == seed_check(setup_dir@, files@),
{
    let mut messages: Vec<Message<String>> = Vec::new();
    assert(views(messages@) =~= Seq::<Message<Text>>::empty());
    let extxyz = grandchild(setup_dir, "training", "seed_dataset.extxyz");
    let xyz = grandchild(setup_dir, "training", "seed_dataset.xyz");
    tell(&mut messages, false, "🔍 Performing pre-flight asset validation...".to_owned());
    let passed = files.is_file(extxyz.as_str()) || files.is_file(xyz.as_str());
    if files.is_file(extxyz.as_str()) {
        tell(&mut messages, false, text2(" ✓ Found seed dataset: ", extxyz.as_str()));
    } else if files.is_file(xyz.as_str()) {
        tell(&mut messages, false, text2(" ✓ Found seed dataset: ", xyz.as_str()));
    } else {
        tell(&mut messages, true, "❌ PRE-FLIGHT VALIDATION FAILED!".to_owned());
        tell(&mut messages, true, "Missing seed dataset. Expected one of:".to_owned());
        tell(&mut messages, true, text2("    ", extxyz.as_str()));
        tell(&mut messages, true, text2("    ", xyz.as_str()));
    }
    assert(views(messages@) =~= seed_check(setup_dir@, files@).messages);
    Check { passed, messages }
}

/// The inputs of the reference calculations and of the simulations.
pub open spec fn inputs(setup_dir: Text) -> Seq<Requirement<Text>> {
    seq![
        setup_requirement("Missing VASP input"@, setup_dir, "vasp"@, "INCAR"@),
        setup_requirement("Missing VASP input"@, setup_dir, "vasp"@, "KPOINTS"@),
        setup_requirement("Missing VASP input"@, setup_dir, "vasp"@, "POTCAR"@),
        Requirement {
            label: "Missing LAMMPS data file"@,
            path: below(below(below(setup_dir, "lammps"@), "data"@), "lmp.data"@),
        },
    ]
}

/// The inputs of the reference calculations and of the simulations.
pub fn list_inputs(setup_dir: &str) -> (r: Vec<Requirement<String>>)
    ensures
        views(r@) == inputs(setup_dir@),
{
    let mut required: Vec<Requirement<String>> = Vec::new();
    required.push(require_setup("Missing VASP input", setup_dir, "vasp", "INCAR"));
    required.push(require_setup("Missing VASP input", setup_dir, "vasp", "KPOINTS"));
    required.push(require_setup("Missing VASP input", setup_dir, "vasp", "POTCAR"));
    required.push(
        requirement(
            "Missing LAMMPS data file",
            descendant(setup_dir, "lammps", "data", "lmp.data"),
        ),
    );
    assert(views(required@) =~= inputs(setup_dir@));
    required
}

/// The first generation without an input file, and why it has none.
pub open spec fn first_without_input(
    found: Seq<Result<Text, Text>>,
    generation: nat,
) -> Option<(nat, Text)>
    decreases found.len(),
{
    if found.len() == 0 {
        None
    } else {
        match found[0] {
            Err(e) => Some((generation, e)),
            Ok(_) => first_without_input(found.drop_first(), generation + 1),
        }
    }
}

/// What was found of input files.
pub open spec fn found_views(found: Seq<Result<String, String>>) -> Seq<Result<Text, Text>> {
    found.map_values(|r: Result<String, String>| result_view(r))
}

/// Whether each generation has an input file.
pub open spec fn generations_check(found: Seq<Result<Text, Text>>) -> Check<Seq<Message<Text>>> {
    match first_without_input(found, 1) {
        None => pass(Seq::empty()),
        Some((generation, e)) => fail(
            seq![
                note(
                    "❌ PRE-FLIGHT VALIDATION FAILED! Gen "@ + decimal_of(generation)
                        + " missing input. Details: "@ + e,
                ),
            ],
        ),
    }
}

/// Whether each generation has an input file: `found` holds the files of the generations, from the
/// first on.
fn check_generations(found: &Vec<Result<String, String>>) -> (r: Check<Vec<Message<String>>>)
    requires
        found@.len() <= u32::MAX,
    ensures
        r@ == generations_check(found_views(found@)),
{
    let mut messages: Vec<Message<String>> = Vec::new();
    assert(views(messages@) =~= Seq::<Message<Text>>::empty());
    let ghost all = found_views(found@);
    let mut i: usize = 0;
    assert(all.skip(0) =~= all);
    while i < found.len()
        invariant
            i <= found@.len() <= u32::MAX,
            all == found_views(found@),
            views(messages@) == Seq::<Message<Text>>::empty(),
            first_without_input(all.skip(i as int), (i + 1) as nat) == first_without_input(all, 1),
        decreases found@.len() - i,
    {
        assert(all.skip(i as int)[0] == result_view(found@[i as int]));
        assert(all.skip(i as int).drop_first() =~= all.skip(i + 1));
        if let Err(e) = &found[i] {
            let generation = decimal(i as u64 + 1);
            tell(
                &mut messages,
                false,
                text4(
                    "❌ PRE-FLIGHT VALIDATION FAILED! Gen ",
                    generation.as_str(),
                    " missing input. Details: ",
                    e.as_str(),
                ),
            );
            assert(views(messages@) =~= generations_check(all).messages);
            return Check { passed: false, messages };
        }
        i += 1;
    }
    assert(all.skip(i as int) =~= Seq::<Result<Text, Text>>::empty());
    Check { passed: true, messages }
}

/// A file among the training files of the setup.
#[derive(Debug)]
pub struct SetupEntry {
    /// Its name.
    pub name: String,
    /// Whether it is a file.
    pub is_file: bool,
    /// Its path.
    pub path: String,
    /// Its name in quotation marks.
    pub shown: String,
}

/// Whether a name has the extension of a foundation model.
pub open spec fn is_checkpoint_name(name: Text) -> bool {
    name.len() > 5 && name.skip(name.len() - 5) == ".ckpt"@
}

/// Whether a name has the extension of a foundation model.
pub fn names_checkpoint(name: &str) -> (r: bool)
    ensures
        r == is_checkpoint_name(name@),
{
    let chars = chars_of(name);
    proof {
        reveal_strlit(".ckpt");
    }
    let n: usize = chars.len();
    if n <= 5 {
        return false;
    }
    let r = chars[n - 5] == '.' && chars[n - 4] == 'c' && chars[n - 3] == 'k' && chars[n - 2] == 'p'
        && chars[n - 1] == 't';
    proof {
        let end = name@.skip(n - 5);
        if r {
            assert(end =~= ".ckpt"@);
        } else {
            assert(end[0] == name@[n - 5] && end[1] == name@[n - 4] && end[2] == name@[n - 3]
                && end[3] == name@[n - 2] && end[4] == name@[n - 1]);
        }
    }
    r
}

/// The first of the entries that is a foundation model.
pub open spec fn first_checkpoint(entries: Seq<SetupEntry>) -> Option<SetupEntry>
    decreases entries.len(),
{
    if entries.len() == 0 {
        None
    } else if entries[0].is_file && is_checkpoint_name(entries[0].name@) {
        Some(entries[0])
    } else {
        first_checkpoint(entries.drop_first())
    }
}

/// The place of the first of the entries that is a foundation model.
pub fn find_checkpoint(entries: &Vec<SetupEntry>) -> (r: Option<usize>)
    ensures
        match r {
            None => first_checkpoint(entries@) is None,
            Some(i) => i < entries@.len() && first_checkpoint(entries@) == Some(entries@[i as int]),
        },
{
    let mut i: usize = 0;
    assert(entries@.skip(0) =~= entries@);
    while i < entries.len()
        invariant
            i <= entries@.len(),
            first_checkpoint(entries@.skip(i as int)) == first_checkpoint(entries@),
        decreases entries@.len() - i,
    {
        assert(entries@.skip(i as int)[0] == entries@[i as int]);
        assert(entries@.skip(i as int).drop_first() =~= entries@.skip(i + 1));
        if entries[i].is_file && names_checkpoint(entries[i].name.as_str()) {
            return Some(i);
        }
        i += 1;
    }
    assert(entries@.skip(i as int) =~= Seq::<SetupEntry>::empty());
    None
}

/// Whether there is a foundation model where one is needed.
pub open spec fn checkpoint_check(
    needed: bool,
    setup_dir: Text,
    found: Option<SetupEntry>,
) -> Check<Seq<Message<Text>>> {
    if !needed {
        pass(seq![note(" ✓ No foundation checkpoint is required."@)])
    } else {
        match found {
            Some(entry) => pass(
                seq![note(" ✓ Found foundation model checkpoint: "@ + entry.shown@)],
            ),
            None => fail(
                seq![
                    complaint("❌ A checkpoint (*.ckpt) is required."@),
                    complaint(
                        "UPET training and PET energy correction require a foundation checkpoint in:"@,
                    ),
                    complaint("    "@ + below(setup_dir, "training"@)),
                ],
            ),
        }
    }
}

/// Whether there is a foundation model where one is needed.
fn check_checkpoint(needed: bool, setup_dir: &str, entries: &Vec<SetupEntry>) -> (r: Check<
    Vec<Message<String>>,
>)
    ensures
        r@ == checkpoint_check(needed, setup_dir@, first_checkpoint(entries@)),
{
    let mut messages: Vec<Message<String>> = Vec::new();
    assert(views(messages@) =~= Seq::<Message<Text>>::empty());
    let mut passed = true;
    if !needed {
        tell(&mut messages, false, " ✓ No foundation checkpoint is required.".to_owned());
    } else {
        match find_checkpoint(entries) {
            Some(i) => {
                tell(
                    &mut messages,
                    false,
                    text2(" ✓ Found foundation model checkpoint: ", entries[i].shown.as_str()),
                );
            },
            None => {
                let dir = child(setup_dir, "training");
                tell(&mut messages, true, "❌ A checkpoint (*.ckpt) is required.".to_owned());
                tell(
                    &mut messages,
                    true,
                    "UPET training and PET energy correction require a foundation checkpoint in:".to_owned(),
                );
                tell(&mut messages, true, text2("    ", dir.as_str()));
                passed = false;
            },
        }
    }
    assert(views(messages@) =~= checkpoint_check(
        needed,
        setup_dir@,
        first_checkpoint(entries@),
    ).messages);
    Check { passed, messages }
}

/// The checks that are made before the input files of the generations are looked for, in their order.
pub open spec fn early_checks(config: Config, setup_dir: Text, files: Set<Text>) -> Seq<
    Check<Seq<Message<Text>>>,
> {
    seq![
        committee_check(config.members),
        files_check(templates(config, setup_dir), files),
        seed_check(setup_dir, files),
        files_check(inputs(setup_dir), files),
    ]
}

/// Whether no further input file has to be looked for: a check before was not passed, the last
/// generation looked at has none, or all generations were looked at.
pub open spec fn is_enough(
    config: Config,
    setup_dir: Text,
    files: Set<Text>,
    found: Seq<Result<Text, Text>>,
) -> bool {
    ||| !all_checks(early_checks(config, setup_dir, files)).passed
    ||| found.len() > 0 && found.last() is Err
    ||| found.len() >= config.generations
}

/// All checks, in their order.
pub open spec fn checks(
    config: Config,
    setup_dir: Text,
    files: Set<Text>,
    found: Seq<Result<Text, Text>>,
    entries: Seq<SetupEntry>,
) -> Seq<Check<Seq<Message<Text>>>> {
    seq![
        committee_check(config.members),
        files_check(templates(config, setup_dir), files),
        seed_check(setup_dir, files),
        files_check(inputs(setup_dir), files),
        generations_check(found),
        checkpoint_check(config.needs_checkpoint(), setup_dir, first_checkpoint(entries)),
        pass(seq![note(" ✓ All required foundation files validated successfully."@)]),
    ]
}

/// The foundation model that training is given.
pub open spec fn checkpoint_of(config: Config, entries: Seq<SetupEntry>) -> Option<Text> {
    match first_checkpoint(entries) {
        Some(entry) if config.needs_checkpoint() => Some(entry.path@),
        _ => None,
    }
}

/// What was looked at before anything is run came to.
#[derive(Debug)]
pub struct Preflight {
    /// Whether the project can be run.
    pub passed: bool,
    /// What is said.
    pub messages: Vec<Message<String>>,
    /// The foundation model that training is given.
    pub checkpoint: Option<String>,
}

/// Adds a check to those before it.
fn join_check(
    before: &mut Check<Vec<Message<String>>>,
    check: Check<Vec<Message<String>>>,
    Ghost(done): Ghost<Seq<Check<Seq<Message<Text>>>>>,
)
    requires
        old(before)@ == all_checks(done),
    ensures
        final(before)@ == all_checks(done.push(check@)),
{
    proof {
        assert(done.push(check@).drop_last() =~= done);
    }
    if before.passed {
        let mut messages = check.messages;
        let ghost (a, b) = (before.messages@, messages@);
        proof {
            assert(views(a + b) =~= views(a) + views(b));
        }
        before.messages.append(&mut messages);
        before.passed = check.passed;
    }
}

/// Makes the checks that are made before the input files of the generations are looked for.
fn check_early(config: &Config, setup_dir: &str, files: &Files) -> (r: Check<Vec<Message<String>>>)
    ensures
        r@ == all_checks(early_checks(*config, setup_dir@, files@)),
{
    let mut all: Check<Vec<Message<String>>> = Check { passed: true, messages: Vec::new() };
    let ghost c0 = Seq::<Check<Seq<Message<Text>>>>::empty();
    assert(all@.messages =~= all_checks(c0).messages);
    let committee = check_committee(config.members);
    let ghost c1 = c0.push(committee@);
    join_check(&mut all, committee, Ghost(c0));
    let required = check_files(&list_templates(config, setup_dir), files);
    let ghost c2 = c1.push(required@);
    join_check(&mut all, required, Ghost(c1));
    let seed = check_seed(setup_dir, files);
    let ghost c3 = c2.push(seed@);
    join_check(&mut all, seed, Ghost(c2));
    let assets = check_files(&list_inputs(setup_dir), files);
    let ghost c4 = c3.push(assets@);
    join_check(&mut all, assets, Ghost(c3));
    assert(c4 =~= early_checks(*config, setup_dir@, files@));
    all
}

/// The generation whose input file is to be looked for next, where one is. `found` holds the input
/// files of the generations that were looked at, from the first on.
pub fn next_input(
    config: &Config,
    setup_dir: &str,
    files: &Files,
    found: &Vec<Result<String, String>>,
) -> (r: Option<u32>)
    ensures
        match r {
            Some(generation) => !is_enough(*config, setup_dir@, files@, found_views(found@))
                && generation == found@.len() + 1,
            None => is_enough(*config, setup_dir@, files@, found_views(found@)),
        },
{
    let done: usize = found.len();
    if done as u64 >= config.generations as u64 {
        return None;
    }
    if done > 0 {
        assert(found_views(found@).last() == result_view(found@[done - 1]));
        if found[done - 1].is_err() {
            return None;
        }
    }
    if check_early(config, setup_dir, files).passed {
        Some(done as u32 + 1)
    } else {
        None
    }
}

/// Looks whether a project can be run. `found` holds the input files of the generations, from the
/// first on and as far as they have to be looked for, and `entries` the training files of the setup.
pub fn preflight(
    config: &Config,
    setup_dir: &str,
    files: &Files,
    found: &Vec<Result<String, String>>,
    entries: &Vec<SetupEntry>,
) -> (r: Preflight)
    requires
        found@.len() <= config.generations,
        is_enough(*config, setup_dir@, files@, found_views(found@)),
    ensures
        ({
            let all = all_checks(
                checks(*config, setup_dir@, files@, found_views(found@), entries@),
            );
            &&& r.passed == all.passed
            &&& views(r.messages@) == all.messages
            &&& option_view(r.checkpoint) == checkpoint_of(*config, entries@)
        }),
{
    let ghost found_all = found_views(found@);
    let mut all = check_early(config, setup_dir, files);
    let ghost c4 = early_checks(*config, setup_dir@, files@);
    let generations = check_generations(found);
    let ghost c5 = c4.push(generations@);
    join_check(&mut all, generations, Ghost(c4));
    let needed = config.checkpoint_required();
    let foundation = check_checkpoint(needed, setup_dir, entries);
    let ghost c6 = c5.push(foundation@);
    join_check(&mut all, foundation, Ghost(c5));
    let mut messages: Vec<Message<String>> = Vec::new();
    tell(
        &mut messages,
        false,
        " ✓ All required foundation files validated successfully.".to_owned(),
    );
    let success = Check { passed: true, messages };
    assert(success@.messages =~= seq![
        note(" ✓ All required foundation files validated successfully."@),
    ]);
    let ghost c7 = c6.push(success@);
    join_check(&mut all, success, Ghost(c6));
    assert(c7 =~= checks(*config, setup_dir@, files@, found_all, entries@));
    let checkpoint = match find_checkpoint(entries) {
        Some(i) if needed => Some(entries[i].path.clone()),
        _ => None,
    };
    Preflight { passed: all.passed, messages: all.messages, checkpoint }
}

/// After a check that is not passed no other counts.
proof fn lemma_failure_decides(
    before: Seq<Check<Seq<Message<Text>>>>,
    after: Seq<Check<Seq<Message<Text>>>>,
)
    requires
        !all_checks(before).passed,
    ensures
        all_checks(before + after) == all_checks(before),
    decreases after.len(),
{
    if after.len() == 0 {
        assert(before + after =~= before);
    } else {
        lemma_failure_decides(before, after.drop_last());
        assert((before + after).drop_last() =~= before + after.drop_last());
    }
}

/// What is found after a generation without an input file does not decide which is the first.
proof fn lemma_first_decides(
    found: Seq<Result<Text, Text>>,
    more: Seq<Result<Text, Text>>,
    generation: nat,
)
    requires
        found.len() > 0,
        found.last() is Err,
        found.is_prefix_of(more),
    ensures
        first_without_input(found, generation) == first_without_input(more, generation),
    decreases found.len(),
{
    assert(found[0] == more[0]);
    if found[0] is Ok {
        let (few, many) = (found.drop_first(), more.drop_first());
        assert(few.last() == found.last());
        assert(few =~= many.subrange(0, few.len() as int));
        lemma_first_decides(few, many, generation + 1);
    }
}

/// Input files that do not have to be looked for do not decide: whatever would be found of them, the
/// checks come to the same.
pub proof fn law_input_files_are_looked_for_as_long_as_they_decide(
    config: Config,
    setup_dir: Text,
    files: Set<Text>,
    found: Seq<Result<Text, Text>>,
    all: Seq<Result<Text, Text>>,
    entries: Seq<SetupEntry>,
)
    requires
        is_enough(config, setup_dir, files, found),
        all.len() == config.generations,
        found.is_prefix_of(all),
    ensures
        all_checks(checks(config, setup_dir, files, found, entries)) == all_checks(
            checks(config, setup_dir, files, all, entries),
        ),
{
    let early = early_checks(config, setup_dir, files);
    let few = checks(config, setup_dir, files, found, entries);
    let many = checks(config, setup_dir, files, all, entries);
    if !all_checks(early).passed {
        lemma_failure_decides(early, few.skip(4));
        lemma_failure_decides(early, many.skip(4));
        assert(early + few.skip(4) =~= few);
        assert(early + many.skip(4) =~= many);
    } else if found.len() > 0 && found.last() is Err {
        lemma_first_decides(found, all, 1);
    } else {
        assert(found =~= all);
    }
}

/// Checks come to a pass exactly where each of them is passed.
pub proof fn law_every_check_counts(checks: Seq<Check<Seq<Message<Text>>>>)
    ensures
        all_checks(checks).passed <==> forall|i: int|
            0 <= i < checks.len() ==> #[trigger] checks[i].passed,
    decreases checks.len(),
{
    if checks.len() > 0 {
        let before = checks.drop_last();
        law_every_check_counts(before);
        assert(forall|i: int| 0 <= i < before.len() ==> #[trigger] before[i] == checks[i]);
        assert(checks.last() == checks[checks.len() - 1]);
        if all_checks(before).passed {
            assert forall|i: int| 0 <= i < checks.len() - 1 implies #[trigger] checks[i].passed by {
                assert(before[i].passed);
            }
        } else {
            let i = choose|i: int| 0 <= i < before.len() && !before[i].passed;
            assert(!checks[i].passed);
        }
    }
}

/// Where no generation is found without an input file, each has one.
proof fn lemma_inputs_found(found: Seq<Result<Text, Text>>, generation: nat, i: int)
    requires
        first_without_input(found, generation) is None,
        0 <= i < found.len(),
    ensures
        found[i] is Ok,
    decreases found.len(),
{
    if i > 0 {
        lemma_inputs_found(found.drop_first(), generation + 1, i - 1);
    }
}

/// What is found to be a foundation model is a file among the entries.
proof fn lemma_checkpoint_found(entries: Seq<SetupEntry>)
    requires
        first_checkpoint(entries) is Some,
    ensures
        exists|i: int| 0 <= i < entries.len() && #[trigger] entries[i] == first_checkpoint(
            entries,
        )->0 && entries[i].is_file,
    decreases entries.len(),
{
    if !(entries[0].is_file && is_checkpoint_name(entries[0].name@)) {
        let rest = entries.drop_first();
        lemma_checkpoint_found(rest);
        let i = choose|i: int| 0 <= i < rest.len() && #[trigger] rest[i] == first_checkpoint(
            rest,
        )->0 && rest[i].is_file;
        assert(entries[i + 1] == rest[i]);
    } else {
        assert(entries[0] == first_checkpoint(entries)->0);
    }
}

/// A project that passes all checks has what each step of each of its generations needs, where its
/// committee has members enough to disagree.
pub proof fn law_preflight_covers_steps(
    config: Config,
    pipeline: Pipeline,
    ctx: PipelineCtx,
    files: Set<Text>,
    found: Seq<Result<Text, Text>>,
    entries: Seq<SetupEntry>,
    k: int,
)
    requires
        config.members >= 2,
        all_checks(
            checks(config, below(ctx.project_dir@, "setup"@), files, found, entries),
        ).passed,
        config.is_pipeline(pipeline, ctx.project_dir@, checkpoint_of(config, entries)),
        forall|i: int|
            0 <= i < entries.len() && (#[trigger] entries[i]).is_file ==> files.contains(
                entries[i].path@,
            ),
        1 <= ctx.generation <= found.len(),
        0 <= k < 4,
    ensures
        pipeline.steps@[k].validity(ctx, files, found[ctx.generation - 1]) is Ok,
{
    let setup_dir = below(ctx.project_dir@, "setup"@);
    let all = checks(config, setup_dir, files, found, entries);
    let step = pipeline.steps@[k];
    law_every_check_counts(all);
    assert(all[1].passed && all[2].passed && all[3].passed && all[4].passed && all[5].passed);
    let needed = templates(config, setup_dir);
    let given = inputs(setup_dir);
    law_all_present(needed, files);
    law_all_present(given, files);
    assert(files.contains(needed[0].path) && files.contains(needed[1].path));
    assert(files.contains(given[0].path) && files.contains(given[1].path) && files.contains(
        given[2].path,
    ) && files.contains(given[3].path));
    match step {
        PipelineStep::Training(training) => {
            if training.model_backend is Upet {
                lemma_checkpoint_found(entries);
            }
            assert(files.contains(needed[2].path) && files.contains(needed[3].path));
            if training.model_backend is N2p2 {
                assert(files.contains(needed[4].path));
            }
            law_all_present(training.requirements(), files);
        },
        PipelineStep::Md(md) => {
            lemma_inputs_found(found, 1, ctx.generation - 1);
            law_all_present(md.requirements(), files);
        },
        PipelineStep::Qbc(qbc) => {
            if qbc.mode is Real {
                reveal_strlit("upet");
                reveal_strlit("n2p2");
                reveal_strlit("_disagreement.sh.template");
                reveal_strlit("upet_disagreement.sh.template");
                reveal_strlit("n2p2_disagreement.sh.template");
                assert("upet"@ + "_disagreement.sh.template"@ =~= "upet_disagreement.sh.template"@);
                assert("n2p2"@ + "_disagreement.sh.template"@ =~= "n2p2_disagreement.sh.template"@);
                assert(files.contains(needed[needed.len() - 1].path));
            }
            law_all_present(qbc.requirements(), files);
        },
        PipelineStep::Dft(dft) => {
            law_all_present(dft.requirements(), files);
        },
    }
}

} // verus!
