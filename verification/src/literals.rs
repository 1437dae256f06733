//! Every number of a structure that was read is written as a floating-point literal.
use crate::consistency::law_atoms_come_by_number;
use crate::data::{DataModel, fallback_structure, no_data, structure_in, with_line, with_lines};
use crate::dump::{
    Columns, atoms_in, bound_line, bound_values, by_id, frame_in, frame_length, frames_in,
    header_in,
};
use crate::fields::dropped;
use crate::number::{is_float_literal, is_number, leading_digits};
use crate::structure::{are_literals, atoms_are_literals, bounds_are_literals};
use crate::text::{Text, lines_of, trimmed, words_of};
use vstd::prelude::*;

verus! {

/// Words that are read as numbers are literals.
proof fn lemma_bound_values(words: Seq<Text>, label: Text, i: int)
    requires
        bound_values(words, label) is Ok,
        0 <= i < bound_values(words, label)->Ok_0.len(),
    ensures
        is_float_literal(bound_values(words, label)->Ok_0[i]),
    decreases words.len(),
{
    if words.len() > 0 && i > 0 {
        lemma_bound_values(words.drop_first(), label, i - 1);
    }
}

/// The three numbers on a line of box bounds are literals.
proof fn lemma_bound_line(line: Option<Text>, label: Text)
    ensures
        bound_line(line, label) matches Ok(t) ==> are_literals(t),
{
    if bound_line(line, label) is Ok {
        let words = words_of(line->0);
        lemma_bound_values(words, label, 0);
        lemma_bound_values(words, label, 1);
        lemma_bound_values(words, label, 2);
    }
}

/// The coordinates in an atom table are literals.
proof fn lemma_atoms_in(lines: Seq<Text>, columns: Columns, count: nat)
    ensures
        atoms_in(lines, columns, count) matches Ok(atoms) ==> atoms_are_literals(atoms),
    decreases count,
{
    if count > 0 && lines.len() > 0 {
        lemma_atoms_in(lines.drop_first(), columns, (count - 1) as nat);
        if let Ok(atoms) = atoms_in(lines, columns, count) {
            let others = atoms_in(lines.drop_first(), columns, (count - 1) as nat)->Ok_0;
            assert forall|j: int| 0 <= j < atoms.len() implies are_literals(
                #[trigger] atoms[j].position,
            ) by {
                if j > 0 {
                    assert(atoms[j] == others[j - 1]);
                }
            }
        }
    }
}

/// The numbers of a frame are literals.
proof fn lemma_frame_in(lines: Seq<Text>)
    ensures
        frame_in(lines) matches Ok(frame) ==> bounds_are_literals(frame.bounds)
            && atoms_are_literals(frame.atoms),
{
    if frame_in(lines) is Ok {
        let header = header_in(lines)->Ok_0;
        let rows = dropped(lines, 4);
        lemma_bound_line(crate::fields::line_at(rows, 0), "x bounds"@);
        lemma_bound_line(crate::fields::line_at(rows, 1), "y bounds"@);
        lemma_bound_line(crate::fields::line_at(rows, 2), "z bounds"@);
        let count = header.atom_count as nat;
        lemma_atoms_in(dropped(lines, 8), header.columns, count);
        let atoms = atoms_in(dropped(lines, 8), header.columns, count)->Ok_0;
        let sorted = by_id(atoms);
        law_atoms_come_by_number(atoms);
        assert forall|j: int| 0 <= j < sorted.len() implies are_literals(
            #[trigger] sorted[j].position,
        ) by {
            assert(sorted.contains(sorted[j]));
            let k = choose|k: int| 0 <= k < atoms.len() && atoms[k] == sorted[j];
            assert(are_literals(atoms[k].position));
        }
    }
}

/// Every number of every frame that is read from a dump is written as a floating-point literal.
pub proof fn law_frames_hold_literals(lines: Seq<Text>)
    ensures
        frames_in(lines) matches Ok(frames) ==> forall|i: int|
            0 <= i < frames.len() ==> bounds_are_literals((#[trigger] frames[i]).bounds)
                && atoms_are_literals(frames[i].atoms),
    decreases lines.len(),
{
    if lines.len() > 0 {
        let tail = lines.drop_first();
        law_frames_hold_literals(tail);
        lemma_frame_in(tail);
        let rest = dropped(tail, frame_length(tail) as int);
        law_frames_hold_literals(rest);
        if trimmed(lines[0]) == "ITEM: TIMESTEP"@ {
            if let Ok(frames) = frames_in(lines) {
                let others = frames_in(rest)->Ok_0;
                assert forall|i: int| 0 <= i < frames.len() implies bounds_are_literals(
                    (#[trigger] frames[i]).bounds,
                ) && atoms_are_literals(frames[i].atoms) by {
                    if i > 0 {
                        assert(frames[i] == others[i - 1]);
                    }
                }
            }
        }
    }
}

/// Whether all numbers that the lines of a data file have given so far are literals.
spec fn holds_literals(known: DataModel) -> bool {
    &&& known.x matches Some(e) ==> is_float_literal(e.lo) && is_float_literal(e.hi)
    &&& known.y matches Some(e) ==> is_float_literal(e.lo) && is_float_literal(e.hi)
    &&& known.z matches Some(e) ==> is_float_literal(e.lo) && is_float_literal(e.hi)
    &&& are_literals(known.tilt)
    &&& atoms_are_literals(known.atoms)
}

/// One more line gives only literals.
proof fn lemma_with_line(known: DataModel, fields: Seq<Text>)
    requires
        holds_literals(known),
    ensures
        with_line(known, fields) matches Ok(more) ==> holds_literals(more),
{
}

/// More lines give only literals.
proof fn lemma_with_lines(known: DataModel, lines: Seq<Text>)
    requires
        holds_literals(known),
    ensures
        with_lines(known, lines) matches Ok(more) ==> holds_literals(more),
    decreases lines.len(),
{
    if lines.len() > 0 {
        let fields = words_of(trimmed(lines[0]));
        lemma_with_line(known, fields);
        if let Ok(more) = with_line(known, fields) {
            lemma_with_lines(more, lines.drop_first());
        }
    }
}

/// A digit, a point and a digit, or two digits before the point, are a literal.
proof fn lemma_short_literals()
    ensures
        is_float_literal("0.0"@),
        is_float_literal("10.0"@),
        is_float_literal("1.0"@),
        is_float_literal("3.0"@),
        is_float_literal("5.0"@),
        is_float_literal("7.0"@),
{
    reveal_strlit("0.0");
    reveal_strlit("10.0");
    reveal_strlit("1.0");
    reveal_strlit("3.0");
    reveal_strlit("5.0");
    reveal_strlit("7.0");
    lemma_short_literal("0.0"@, 1);
    lemma_short_literal("10.0"@, 2);
    lemma_short_literal("1.0"@, 1);
    lemma_short_literal("3.0"@, 1);
    lemma_short_literal("5.0"@, 1);
    lemma_short_literal("7.0"@, 1);
}

/// Digits, a point and a digit are a literal.
proof fn lemma_short_literal(s: Text, whole: nat)
    requires
        1 <= whole <= 2,
        s.len() == whole + 2,
        s[whole as int] == '.',
        forall|i: int| 0 <= i < s.len() && i != whole ==> '0' <= #[trigger] s[i] <= '9',
    ensures
        is_float_literal(s),
{
    reveal_with_fuel(leading_digits, 4);
    let rest = s.skip(whole as int);
    let part = rest.drop_first();
    assert(leading_digits(s) == whole) by {
        assert(s.drop_first()[0] == s[1]);
        assert(s.drop_first().drop_first()[0] == s[2]);
    }
    assert(part[0] == s[whole as int + 1]);
    assert(leading_digits(part) == 1);
    assert(part.skip(1).len() == 0);
    assert(is_number(s));
}

/// Every number of a structure that is read from a data file is written as a floating-point
/// literal.
pub proof fn law_structures_hold_literals(text: Text, path: Text)
    ensures
        structure_in(text, path) matches Ok(structure) ==> bounds_are_literals(structure.bounds)
            && atoms_are_literals(structure.atoms),
{
    lemma_short_literals();
    lemma_with_lines(no_data(), lines_of(text));
}

/// Every number of the structure that stands in for a missing one is written as a floating-point
/// literal.
pub proof fn law_fallback_holds_literals()
    ensures
        bounds_are_literals(fallback_structure().bounds),
        atoms_are_literals(fallback_structure().atoms),
{
    lemma_short_literals();
}

} // verus!
