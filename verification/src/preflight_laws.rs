//! What is said of a project that is looked at before it is run.
use crate::config::Config;
use crate::effects::{Requirement, all_present, first_missing, law_all_present, missing};
use crate::number::decimal_of;
use crate::paths::below;
use crate::preflight::{
    Check, Message, SetupEntry, all_checks, checks, first_checkpoint, first_without_input, inputs,
    law_every_check_counts, templates,
};
use crate::text::Text;
use vstd::prelude::*;

verus! {

/// Whether a message is said and is no error.
pub open spec fn is_note(message: Message<Text>, text: Text) -> bool {
    !message.is_error && message.text == text
}

/// Whether a message is said of an error.
pub open spec fn is_complaint(message: Message<Text>, text: Text) -> bool {
    message.is_error && message.text == text
}

/// The first checks come to what they come to one by one.
proof fn lemma_step(checks: Seq<Check<Seq<Message<Text>>>>, n: int)
    requires
        0 <= n < checks.len(),
    ensures
        ({
            let before = all_checks(checks.take(n));
            let now = all_checks(checks.take(n + 1));
            &&& before.passed ==> now.passed == checks[n].passed && now.messages == before.messages
                + checks[n].messages
            &&& !before.passed ==> now == before
        }),
{
    assert(checks.take(n + 1).drop_last() =~= checks.take(n));
    assert(checks.take(n + 1).last() == checks[n]);
}

/// The seed dataset of a setup that has one.
pub open spec fn seed_of(setup_dir: Text, files: Set<Text>) -> Text {
    let dir = below(setup_dir, "training"@);
    if files.contains(below(dir, "seed_dataset.extxyz"@)) {
        below(dir, "seed_dataset.extxyz"@)
    } else {
        below(dir, "seed_dataset.xyz"@)
    }
}

/// Of a project that passes, the seed dataset is told that was found, and the foundation model, or that
/// none is required; and that all is well. None of it is an error.
pub proof fn law_what_was_found_is_told(
    config: Config,
    setup_dir: Text,
    files: Set<Text>,
    found: Seq<Result<Text, Text>>,
    entries: Seq<SetupEntry>,
)
    requires
        all_checks(checks(config, setup_dir, files, found, entries)).passed,
    ensures
        ({
            let said = all_checks(checks(config, setup_dir, files, found, entries)).messages;
            &&& said.len() == 4
            &&& is_note(said[0], "🔍 Performing pre-flight asset validation..."@)
            &&& is_note(said[1], " ✓ Found seed dataset: "@ + seed_of(setup_dir, files))
            &&& config.backend is Upet || config.energy_mode is Pet ==> is_note(
                said[2],
                " ✓ Found foundation model checkpoint: "@ + first_checkpoint(entries)->0.shown@,
            )
            &&& config.backend is N2p2 && config.energy_mode is Raw ==> is_note(
                said[2],
                " ✓ No foundation checkpoint is required."@,
            )
            &&& is_note(said[3], " ✓ All required foundation files validated successfully."@)
        }),
{
    let all = checks(config, setup_dir, files, found, entries);
    law_every_check_counts(all);
    assert(all[0].passed && all[1].passed && all[2].passed && all[3].passed && all[4].passed
        && all[5].passed && all[6].passed);
    assert(all.take(0) =~= Seq::empty());
    lemma_step(all, 0);
    lemma_step(all, 1);
    lemma_step(all, 2);
    lemma_step(all, 3);
    lemma_step(all, 4);
    lemma_step(all, 5);
    lemma_step(all, 6);
    assert(all.take(7) =~= all);
}

/// Whether the file that is missing first is told, with what it is.
pub open spec fn is_told_missing(
    said: Seq<Message<Text>>,
    requirements: Seq<Requirement<Text>>,
    files: Set<Text>,
) -> bool {
    &&& said.len() >= 2
    &&& is_complaint(said[said.len() - 2], "❌ PRE-FLIGHT VALIDATION FAILED!"@)
    &&& exists|i: int|
        {
            &&& 0 <= i < requirements.len()
            &&& !files.contains((#[trigger] requirements[i]).path)
            &&& forall|j: int|
                0 <= j < i ==> files.contains((#[trigger] requirements[j]).path)
            &&& is_complaint(
                said.last(),
                requirements[i].label + ": "@ + requirements[i].path,
            )
        }
}

/// The file that is missing first is missing, and those before it are not.
proof fn lemma_first_missing(requirements: Seq<Requirement<Text>>, files: Set<Text>)
    ensures
        first_missing(requirements, files) matches Some(first) ==> exists|i: int|
            {
                &&& 0 <= i < requirements.len()
                &&& #[trigger] requirements[i] == first
                &&& !files.contains(first.path)
                &&& forall|j: int|
                    0 <= j < i ==> files.contains((#[trigger] requirements[j]).path)
            },
    decreases requirements.len(),
{
    if requirements.len() > 0 && files.contains(requirements[0].path) {
        let rest = requirements.drop_first();
        lemma_first_missing(rest, files);
        if let Some(first) = first_missing(rest, files) {
            let i = choose|i: int|
                {
                    &&& 0 <= i < rest.len()
                    &&& #[trigger] rest[i] == first
                    &&& !files.contains(first.path)
                    &&& forall|j: int| 0 <= j < i ==> files.contains((#[trigger] rest[j]).path)
                };
            assert(requirements[i + 1] == first);
            assert forall|j: int| 0 <= j < i + 1 implies files.contains(
                (#[trigger] requirements[j]).path,
            ) by {
                if j > 0 {
                    assert(requirements[j] == rest[j - 1]);
                }
            }
        }
    } else if requirements.len() > 0 {
        assert(requirements[0] == first_missing(requirements, files)->0);
    }
}

/// The error of required files names the first that is missing, with what it is.
pub proof fn law_the_first_missing_file_is_named(
    requirements: Seq<Requirement<Text>>,
    files: Set<Text>,
)
    ensures
        all_present(requirements, files) matches Err(e) ==> exists|i: int|
            {
                &&& 0 <= i < requirements.len()
                &&& !files.contains((#[trigger] requirements[i]).path)
                &&& forall|j: int|
                    0 <= j < i ==> files.contains((#[trigger] requirements[j]).path)
                &&& e == requirements[i].label + ": "@ + requirements[i].path
            },
{
    lemma_first_missing(requirements, files);
}

/// After a check that is not passed nothing more is said.
proof fn lemma_stays(checks: Seq<Check<Seq<Message<Text>>>>, n: int, m: int)
    requires
        0 <= n <= m <= checks.len(),
        !all_checks(checks.take(n)).passed,
    ensures
        all_checks(checks.take(m)) == all_checks(checks.take(n)),
    decreases m - n,
{
    if n < m {
        lemma_stays(checks, n, m - 1);
        lemma_step(checks, m - 1);
    }
}

/// The first generation without an input file.
proof fn lemma_without_input(found: Seq<Result<Text, Text>>, generation: nat)
    ensures
        first_without_input(found, generation) matches Some((n, e)) ==> {
            &&& generation <= n < generation + found.len()
            &&& found[n - generation] == Err::<Text, Text>(e)
            &&& forall|i: int| 0 <= i < n - generation ==> #[trigger] found[i] is Ok
        },
    decreases found.len(),
{
    if found.len() > 0 && found[0] is Ok {
        let rest = found.drop_first();
        lemma_without_input(rest, generation + 1);
        if let Some((n, e)) = first_without_input(rest, generation + 1) {
            assert(found[n - generation] == rest[n - generation - 1]);
            assert forall|i: int| 0 <= i < n - generation implies #[trigger] found[i] is Ok by {
                if i > 0 {
                    assert(found[i] == rest[i - 1]);
                }
            }
        }
    }
}

/// What keeps a project from being run is told: that it has no committee, the first template that is
/// missing, where a seed dataset was looked for, the first input that is missing, the first generation
/// without an input file, or where a foundation model was looked for. The first of these is told, and
/// none after it.
pub proof fn law_what_is_missing_is_told(
    config: Config,
    setup_dir: Text,
    files: Set<Text>,
    found: Seq<Result<Text, Text>>,
    entries: Seq<SetupEntry>,
)
    requires
        !all_checks(checks(config, setup_dir, files, found, entries)).passed,
    ensures
        ({
            let said = all_checks(checks(config, setup_dir, files, found, entries)).messages;
            let n = said.len() as int;
            let dir = below(setup_dir, "training"@);
            let needed = templates(config, setup_dir);
            let given = inputs(setup_dir);
            if config.members == 0 {
                &&& n == 2
                &&& is_complaint(said[0], "❌ Invalid committee configuration."@)
                &&& is_complaint(said[1], "`committee.members` must be greater than zero."@)
            } else if exists|i: int|
                0 <= i < needed.len() && !files.contains((#[trigger] needed[i]).path) {
                n == 2 && is_told_missing(said, needed, files)
            } else if !files.contains(below(dir, "seed_dataset.extxyz"@)) && !files.contains(
                below(dir, "seed_dataset.xyz"@),
            ) {
                &&& n == 5
                &&& is_complaint(said[1], "❌ PRE-FLIGHT VALIDATION FAILED!"@)
                &&& is_complaint(said[2], "Missing seed dataset. Expected one of:"@)
                &&& is_complaint(said[3], "    "@ + below(dir, "seed_dataset.extxyz"@))
                &&& is_complaint(said[4], "    "@ + below(dir, "seed_dataset.xyz"@))
            } else if exists|i: int|
                0 <= i < given.len() && !files.contains((#[trigger] given[i]).path) {
                n == 4 && is_told_missing(said, given, files)
            } else if exists|i: int| 0 <= i < found.len() && (#[trigger] found[i]) is Err {
                &&& n == 3
                &&& exists|i: int|
                    {
                        &&& 0 <= i < found.len()
                        &&& (#[trigger] found[i]) is Err
                        &&& forall|j: int| 0 <= j < i ==> (#[trigger] found[j]) is Ok
                        &&& is_note(
                            said[2],
                            "❌ PRE-FLIGHT VALIDATION FAILED! Gen "@ + decimal_of((i + 1) as nat)
                                + " missing input. Details: "@ + found[i]->Err_0,
                        )
                    }
            } else {
                &&& n == 5
                &&& is_complaint(said[2], "❌ A checkpoint (*.ckpt) is required."@)
                &&& is_complaint(
                    said[3],
                    "UPET training and PET energy correction require a foundation checkpoint in:"@,
                )
                &&& is_complaint(said[4], "    "@ + dir)
            }
        }),
{
    let all = checks(config, setup_dir, files, found, entries);
    let needed = templates(config, setup_dir);
    let given = inputs(setup_dir);
    law_all_present(needed, files);
    law_all_present(given, files);
    lemma_first_missing(needed, files);
    lemma_first_missing(given, files);
    lemma_without_input(found, 1);
    assert(all.take(0) =~= Seq::empty());
    assert(all.take(7) =~= all);
    lemma_step(all, 0);
    lemma_step(all, 1);
    lemma_step(all, 2);
    lemma_step(all, 3);
    lemma_step(all, 4);
    lemma_step(all, 5);
    lemma_step(all, 6);
    let said = all_checks(all).messages;
    if config.members > 0 && all_present(needed, files) is Err {
        assert(said =~= all[1].messages);
    } else if config.members > 0 && all[2].passed && all_present(given, files) is Err {
        assert(said =~= all[2].messages + all[3].messages);
    } else if config.members > 0 && all[2].passed && all[4].passed {
        assert(said =~= all[2].messages + all[5].messages);
        assert forall|i: int| 0 <= i < found.len() implies (#[trigger] found[i]) is Ok by {
            lemma_each_found(found, 1, i);
        }
    } else if config.members > 0 && all[2].passed {
        let first = first_without_input(found, 1)->0;
        assert(found[first.0 - 1] is Err);
        assert(said =~= all[2].messages + all[4].messages);
    }
}

/// Where no generation is without an input file, each has one.
proof fn lemma_each_found(found: Seq<Result<Text, Text>>, generation: nat, i: int)
    requires
        first_without_input(found, generation) is None,
        0 <= i < found.len(),
    ensures
        found[i] is Ok,
    decreases found.len(),
{
    if i > 0 {
        lemma_each_found(found.drop_first(), generation + 1, i - 1);
    }
}

} // verus!
