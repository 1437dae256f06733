//! What cannot be taken in is refused, and the reason is told.
use crate::calls::Progress;
use crate::data::{structure_in, with_lines};
use crate::dump::{bound_values, frames_in};
use crate::effects::all_present;
use crate::number::{Real, Token, decimal_of};
use crate::paths::below;
use crate::pipeline::{PipelineCtx, PipelineStep};
use crate::text::{Text, lines_of, trimmed, words_of};
use vstd::prelude::*;

verus! {

/// Lines before a frame are passed over.
pub proof fn law_lines_between_frames_are_passed_over(line: Text, rest: Seq<Text>)
    requires
        trimmed(line) != "ITEM: TIMESTEP"@,
    ensures
        frames_in(seq![line] + rest) == frames_in(rest),
{
    assert((seq![line] + rest).drop_first() =~= rest);
}

/// Whether the lines of a frame behind its first can be taken in up to a line: the step, the title and
/// the number of atoms, and the title and the three lines of the box.
pub open spec fn is_taken_up_to(lines: Seq<Text>, n: int) -> bool {
    &&& lines.len() >= n
    &&& n > 0 ==> <i64 as Token>::read(trimmed(lines[0])) is Ok
    &&& n > 1 ==> trimmed(lines[1]) == "ITEM: NUMBER OF ATOMS"@
    &&& n > 2 ==> <usize as Token>::read(trimmed(lines[2])) is Ok
    &&& n > 3 ==> "ITEM: BOX BOUNDS"@.is_prefix_of(lines[3])
    &&& n > 4 ==> holds_three_numbers(lines[4])
    &&& n > 5 ==> holds_three_numbers(lines[5])
    &&& n > 6 ==> holds_three_numbers(lines[6])
}

/// Whether a line holds three numbers and no more.
pub open spec fn holds_three_numbers(line: Text) -> bool {
    let words = words_of(line);
    &&& words.len() == 3
    &&& forall|i: int| 0 <= i < 3 ==> <Real as Token>::read(#[trigger] words[i]) is Ok
}

/// Whether a line of numbers is refused by the first word that is no number, and else by how many
/// numbers there are.
pub open spec fn is_refused_as(line: Text, label: Text, error: Text) -> bool {
    let words = words_of(line);
    if exists|i: int| 0 <= i < words.len() && <Real as Token>::read(#[trigger] words[i]) is Err {
        exists|i: int|
            {
                &&& 0 <= i < words.len()
                &&& <Real as Token>::read(#[trigger] words[i]) is Err
                &&& forall|j: int| 0 <= j < i ==> <Real as Token>::read(#[trigger] words[j]) is Ok
                &&& error == "Invalid "@ + label + " value '"@ + words[i] + "': "@
                    + <Real as Token>::read(words[i])->Err_0
            }
    } else {
        error == "Expected three values for "@ + label + ", found "@ + decimal_of(words.len())
    }
}

/// A line of numbers is taken in word by word.
proof fn lemma_bound_values(words: Seq<Text>, label: Text)
    ensures
        match bound_values(words, label) {
            Ok(values) => {
                &&& values.len() == words.len()
                &&& forall|i: int|
                    0 <= i < words.len() ==> <Real as Token>::read(#[trigger] words[i]) is Ok
            },
            Err(error) => exists|i: int|
                {
                    &&& 0 <= i < words.len()
                    &&& <Real as Token>::read(#[trigger] words[i]) is Err
                    &&& forall|j: int|
                        0 <= j < i ==> <Real as Token>::read(#[trigger] words[j]) is Ok
                    &&& error == "Invalid "@ + label + " value '"@ + words[i] + "': "@
                        + <Real as Token>::read(words[i])->Err_0
                },
        },
    decreases words.len(),
{
    if words.len() > 0 {
        let rest = words.drop_first();
        lemma_bound_values(rest, label);
        assert(forall|i: int| 0 <= i < rest.len() ==> #[trigger] rest[i] == words[i + 1]);
        if <Real as Token>::read(words[0]) is Ok {
            match bound_values(rest, label) {
                Ok(_) => {
                    assert forall|i: int| 0 <= i < words.len() implies <Real as Token>::read(
                        #[trigger] words[i],
                    ) is Ok by {
                        if i > 0 {
                            assert(words[i] == rest[i - 1]);
                        }
                    }
                },
                Err(error) => {
                    let i = choose|i: int|
                        {
                            &&& 0 <= i < rest.len()
                            &&& <Real as Token>::read(#[trigger] rest[i]) is Err
                            &&& forall|j: int|
                                0 <= j < i ==> <Real as Token>::read(#[trigger] rest[j]) is Ok
                            &&& error == "Invalid "@ + label + " value '"@ + rest[i] + "': "@
                                + <Real as Token>::read(rest[i])->Err_0
                        };
                    assert(words[i + 1] == rest[i]);
                    assert forall|j: int| 0 <= j < i + 1 implies <Real as Token>::read(
                        #[trigger] words[j],
                    ) is Ok by {
                        if j > 0 {
                            assert(words[j] == rest[j - 1]);
                        }
                    }
                },
            }
        } else {
            assert(<Real as Token>::read(words[0]) is Err);
        }
    }
}

/// A frame that cannot be taken in is refused by its first line that cannot be, or by what is missing:
/// the step, the title or the number of atoms, or the title of the box.
pub proof fn law_frames_are_refused_by_their_head(lines: Seq<Text>)
    ensures
        ({
            let r = frames_in(seq!["ITEM: TIMESTEP"@] + lines);
            let step = <i64 as Token>::read(trimmed(lines[0]));
            let count = <usize as Token>::read(trimmed(lines[2]));
            &&& lines.len() == 0 ==> (r matches Err(e) && e == "Expected timestep, found end of dump"@)
            &&& lines.len() > 0 && step is Err ==> (r matches Err(e) && e == "Invalid timestep '"@
                + lines[0] + "': "@ + step->Err_0)
            &&& is_taken_up_to(lines, 1) && lines.len() == 1 ==> (r matches Err(e) && e
                == "Expected ITEM: NUMBER OF ATOMS, found end of dump"@)
            &&& is_taken_up_to(lines, 1) && lines.len() > 1 && trimmed(lines[1])
                != "ITEM: NUMBER OF ATOMS"@ ==> (r matches Err(e) && e
                == "Expected ITEM: NUMBER OF ATOMS, found: "@ + lines[1])
            &&& is_taken_up_to(lines, 2) && lines.len() == 2 ==> (r matches Err(e) && e
                == "Expected atom count, found end of dump"@)
            &&& is_taken_up_to(lines, 2) && lines.len() > 2 && count is Err ==> (r matches Err(e)
                && e == "Invalid atom count '"@ + lines[2] + "': "@ + count->Err_0)
            &&& is_taken_up_to(lines, 3) && lines.len() == 3 ==> (r matches Err(e) && e
                == "Unexpected end of dump before box bounds"@)
            &&& is_taken_up_to(lines, 3) && lines.len() > 3 && !"ITEM: BOX BOUNDS"@.is_prefix_of(
                lines[3],
            ) ==> (r matches Err(e) && e == "Expected BOX BOUNDS, found: "@ + lines[3])
        }),
{
    let all = seq!["ITEM: TIMESTEP"@] + lines;
    assert(all.drop_first() =~= lines);
    lemma_item_is_trimmed();
    reveal_strlit("Expected ");
    reveal_strlit("timestep");
    reveal_strlit("atom count");
    reveal_strlit("ITEM: NUMBER OF ATOMS");
    reveal_strlit(", found end of dump");
    reveal_strlit(", found: ");
    reveal_strlit("Invalid ");
    reveal_strlit(" '");
    reveal_strlit("Invalid timestep '");
    reveal_strlit("Invalid atom count '");
    reveal_strlit("Expected timestep, found end of dump");
    reveal_strlit("Expected atom count, found end of dump");
    reveal_strlit("Expected ITEM: NUMBER OF ATOMS, found end of dump");
    reveal_strlit("Expected ITEM: NUMBER OF ATOMS, found: ");
    assert("Expected "@ + "timestep"@ + ", found end of dump"@
        =~= "Expected timestep, found end of dump"@);
    assert("Expected "@ + "atom count"@ + ", found end of dump"@
        =~= "Expected atom count, found end of dump"@);
    assert("Expected "@ + "ITEM: NUMBER OF ATOMS"@ + ", found end of dump"@
        =~= "Expected ITEM: NUMBER OF ATOMS, found end of dump"@);
    assert("Expected "@ + "ITEM: NUMBER OF ATOMS"@ + ", found: "@
        =~= "Expected ITEM: NUMBER OF ATOMS, found: "@);
    assert("Invalid "@ + "timestep"@ + " '"@ =~= "Invalid timestep '"@);
    assert("Invalid "@ + "atom count"@ + " '"@ =~= "Invalid atom count '"@);
}

/// The title of a frame starts and ends with no white space.
proof fn lemma_item_is_trimmed()
    ensures
        trimmed("ITEM: TIMESTEP"@) == "ITEM: TIMESTEP"@,
{
    reveal_strlit("ITEM: TIMESTEP");
    crate::reading_back::lemma_trimmed("ITEM: TIMESTEP"@);
}

/// Whether a line of the box is refused by its name.
pub open spec fn refuses_bounds(
    r: Result<Seq<crate::structure::FrameModel>, Text>,
    lines: Seq<Text>,
    n: int,
    label: Text,
) -> bool {
    &&& lines.len() == n ==> (r matches Err(e) && e == "Unexpected end of dump while reading "@
        + label)
    &&& lines.len() > n && !holds_three_numbers(lines[n]) ==> (r matches Err(e) && is_refused_as(
        lines[n],
        label,
        e,
    ))
}

/// A frame whose box cannot be taken in is refused by the axis of the first line that cannot be; one
/// without a table of atoms by that.
pub proof fn law_frames_are_refused_by_their_box(lines: Seq<Text>)
    requires
        is_taken_up_to(lines, 4),
    ensures
        ({
            let r = frames_in(seq!["ITEM: TIMESTEP"@] + lines);
            &&& refuses_bounds(r, lines, 4, "x bounds"@)
            &&& is_taken_up_to(lines, 5) ==> refuses_bounds(r, lines, 5, "y bounds"@)
            &&& is_taken_up_to(lines, 6) ==> refuses_bounds(r, lines, 6, "z bounds"@)
            &&& is_taken_up_to(lines, 7) && lines.len() == 7 ==> (r matches Err(e) && e
                == "Unexpected end of dump before atom table"@)
            &&& is_taken_up_to(lines, 7) && lines.len() > 7 && !"ITEM: ATOMS"@.is_prefix_of(
                lines[7],
            ) ==> (r matches Err(e) && e == "Expected ATOMS table, found: "@ + lines[7])
        }),
{
    let all = seq!["ITEM: TIMESTEP"@] + lines;
    assert(all.drop_first() =~= lines);
    lemma_item_is_trimmed();
    let rest = lines.skip(4);
    if lines.len() > 4 {
        assert(rest[0] == lines[4]);
        lemma_bound_values(words_of(lines[4]), "x bounds"@);
    }
    if lines.len() > 5 {
        assert(rest[1] == lines[5]);
        lemma_bound_values(words_of(lines[5]), "y bounds"@);
    }
    if lines.len() > 6 {
        assert(rest[2] == lines[6]);
        lemma_bound_values(words_of(lines[6]), "z bounds"@);
    }
}

/// A data file without atoms is refused, and one whose box lacks an axis by the first axis that it
/// lacks.
pub proof fn law_incomplete_structures_are_refused(text: Text, path: Text)
    ensures
        with_lines(crate::data::no_data(), lines_of(text)) matches Ok(known) ==> {
            let r = structure_in(text, path);
            let empty = known.atoms.len() == 0;
            &&& empty ==> (r matches Err(e) && e == "No atoms found in LAMMPS data file "@ + path)
            &&& !empty && known.x is None ==> (r matches Err(e) && e == "Missing xlo/xhi bounds"@)
            &&& !empty && known.x is Some && known.y is None ==> (r matches Err(e) && e
                == "Missing ylo/yhi bounds"@)
            &&& !empty && known.x is Some && known.y is Some && known.z is None ==> (r matches Err(e)
                && e == "Missing zlo/zhi bounds"@)
        },
{
}

/// A step that lacks something is refused, and the first that it lacks is told: its committee before
/// what comes from elsewhere, and that before the files of the setup. A step of reference calculations
/// that lacks structures is told where they are missing.
pub proof fn law_steps_are_refused_with_a_reason(
    step: PipelineStep,
    ctx: PipelineCtx,
    files: Set<Text>,
    input: Result<Text, Text>,
)
    ensures
        ({
            let r = step.validity(ctx, files, input);
            match step {
                PipelineStep::Training(training) => {
                    let upet = training.model_backend is Upet;
                    if training.committee_members == 0 {
                        r == Err::<(), Text>("training step requires at least one committee member"@)
                    } else if upet && training.checkpoint is None {
                        r == Err::<(), Text>("UPET training requires a checkpoint"@)
                    } else if upet && !files.contains(training.checkpoint->0@) {
                        r == Err::<(), Text>("checkpoint does not exist: "@ + training.checkpoint->0@)
                    } else {
                        r == all_present(training.requirements(), files)
                    }
                },
                PipelineStep::Md(md) => if md.committee_members == 0 {
                    r == Err::<(), Text>("MD step requires at least one committee member"@)
                } else if input is Err {
                    r == Err::<(), Text>(input->Err_0)
                } else {
                    r == all_present(md.requirements(), files)
                },
                PipelineStep::Qbc(qbc) => if qbc.committee_members < 2 {
                    r == Err::<(), Text>("QBC step requires at least two committee members"@)
                } else {
                    r == all_present(qbc.requirements(), files)
                },
                PipelineStep::Dft(dft) => {
                    let selected = below(
                        below(ctx.project_dir@, "selected_structures"@),
                        "generation_"@ + decimal_of(ctx.generation as nat) + ".xyz"@,
                    );
                    &&& all_present(dft.requirements(), files) is Err ==> r == all_present(
                        dft.requirements(),
                        files,
                    )
                    &&& all_present(dft.requirements(), files) is Ok && r is Err ==> r == Err::<
                        (),
                        Text,
                    >("missing selected structures and seed dataset for DFT dry-run: "@ + selected)
                    &&& !ctx.dry_run && !files.contains(selected) ==> step.first(ctx, files)
                        == Progress::Failed("selected structures file not found: "@ + selected)
                },
            }
        }),
{
}

} // verus!
