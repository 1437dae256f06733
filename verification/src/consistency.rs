//! What holds of the results of an evaluation taken together.
use crate::disagreement::{frames_of, marked, rising, scores_of, selected_places};
use crate::dump::{by_id, ids_of};
use crate::order::{lemma_order_complete, lemma_order_exists, precedes, stable_order};
use crate::report::{MeasuredFrame, score_lines, score_row};
use crate::selection::{DisagreementSettings, chosen_by, in_window, law_selection_is_sound};
use crate::structure::{Atom, Bounds, DumpAtom, Triple};
use crate::text::{Text, unlines, views};
use crate::trajectory::{MOCK_FRAMES, are_shaken, is_shaken, trajectory_lines};
use crate::trajectory_reading::{is_readable, law_mock_trajectories_are_read_back};
use vstd::prelude::*;

verus! {

/// The places that are listed rising are those that are listed.
proof fn lemma_rising(selected: Seq<int>, n: nat)
    ensures
        forall|p: int|
            #[trigger] rising(selected, n).contains(p) <==> 0 <= p < n && selected.contains(p),
        forall|i: int|
            0 <= i < rising(selected, n).len() ==> 0 <= #[trigger] rising(selected, n)[i] < n,
        forall|i: int, j: int|
            0 <= i < j < rising(selected, n).len() ==> #[trigger] rising(selected, n)[i]
                < #[trigger] rising(selected, n)[j],
    decreases n,
{
    let all = rising(selected, n);
    if n > 0 {
        let fewer = rising(selected, (n - 1) as nat);
        lemma_rising(selected, (n - 1) as nat);
        assert forall|p: int| #[trigger] all.contains(p) <==> 0 <= p < n && selected.contains(p) by {
            if fewer.contains(p) {
                let k = choose|k: int| 0 <= k < fewer.len() && fewer[k] == p;
                assert(all[k] == p);
            }
            if all.contains(p) {
                let k = choose|k: int| 0 <= k < all.len() && all[k] == p;
                if k < fewer.len() {
                    assert(fewer[k] == p);
                }
            }
            if p == n - 1 && selected.contains(p) {
                assert(all.last() == p);
            }
        }
    }
}

/// As many places are listed rising as are listed, where each is listed once.
proof fn lemma_rising_len(selected: Seq<int>, n: nat)
    requires
        selected.no_duplicates(),
        forall|i: int| 0 <= i < selected.len() ==> 0 <= #[trigger] selected[i] < n,
    ensures
        rising(selected, n).len() == selected.len(),
{
    let all = rising(selected, n);
    lemma_rising(selected, n);
    assert(all.no_duplicates());
    all.unique_seq_to_set();
    selected.unique_seq_to_set();
    assert forall|p: int| all.to_set().contains(p) <==> selected.to_set().contains(p) by {
        assert(all.contains(p) <==> 0 <= p < n && selected.contains(p));
    }
    assert(all.to_set() =~= selected.to_set());
}

/// The structures that are written are those of the frames that the table of scores marks as
/// selected: they are in the window, at most as many as allowed, and come in the order of the
/// frames.
pub proof fn law_structures_are_those_marked(
    measured: Seq<MeasuredFrame>,
    settings: DisagreementSettings,
)
    requires
        measured.len() <= usize::MAX,
    ensures
        ({
            let scores = scores_of(measured);
            let table = marked(scores, chosen_by(scores, settings));
            let places = selected_places(measured, settings);
            &&& places.len() == chosen_by(scores, settings).len()
            &&& places.len() <= settings.max_selected
            &&& forall|i: int, j: int|
                0 <= i < j < places.len() ==> #[trigger] places[i] < #[trigger] places[j]
            &&& forall|p: int|
                0 <= p < measured.len() ==> (#[trigger] table[p].selected <==> places.contains(p))
            &&& forall|i: int|
                0 <= i < places.len() ==> 0 <= #[trigger] places[i] < measured.len() && in_window(
                    measured[places[i]].rrmse_forces.value,
                    settings.min_rrmse.value,
                    settings.max_rrmse.value,
                )
        }),
{
    let scores = scores_of(measured);
    let best = chosen_by(scores, settings);
    let table = marked(scores, best);
    let places = selected_places(measured, settings);
    law_selection_is_sound(
        scores,
        settings.min_rrmse.value,
        settings.max_rrmse.value,
        settings.max_selected as nat,
    );
    lemma_rising(best, measured.len());
    lemma_rising_len(best, measured.len());
    assert forall|p: int| 0 <= p < measured.len() implies (#[trigger] table[p].selected
        <==> places.contains(p)) by {
        assert(scores[p].frame_index == p);
    }
    assert forall|i: int| 0 <= i < places.len() implies 0 <= #[trigger] places[i] < measured.len()
        && in_window(
        measured[places[i]].rrmse_forces.value,
        settings.min_rrmse.value,
        settings.max_rrmse.value,
    ) by {
        let p = places[i];
        assert(places.contains(p));
        let k = choose|k: int| 0 <= k < best.len() && best[k] == p;
        assert(scores[best[k]].rrmse_forces == measured[p].rrmse_forces);
    }
}

/// The table of scores has a title and one row for each frame, in the order of the frames.
pub proof fn law_every_frame_has_a_row(
    measured: Seq<MeasuredFrame>,
    settings: DisagreementSettings,
    i: int,
)
    requires
        0 <= i < measured.len() <= usize::MAX,
    ensures
        ({
            let scores = scores_of(measured);
            let table = marked(scores, chosen_by(scores, settings));
            &&& score_lines(table).len() == measured.len() + 1
            &&& score_lines(table)[i + 1] == score_row(table[i])
            &&& table[i].frame_index == i
            &&& table[i].timestep == measured[i].timestep
            &&& table[i].rrmse_forces == measured[i].rrmse_forces
            &&& table[i].rms_abs_forces == measured[i].rms_abs_forces
        }),
{
}

/// The atoms of a frame that is read come by rising number, those of one number in the order in
/// which they stand; each atom of the table is among them, and no other.
pub proof fn law_atoms_come_by_number(atoms: Seq<Atom<Text>>)
    ensures
        by_id(atoms).len() == atoms.len(),
        forall|i: int, j: int|
            0 <= i < j < atoms.len() ==> (#[trigger] by_id(atoms)[i]).id <= (
            #[trigger] by_id(atoms)[j]).id,
        forall|a: Atom<Text>| #[trigger] by_id(atoms).contains(a) <==> atoms.contains(a),
{
    let keys = ids_of(atoms);
    let order = stable_order(keys);
    let sorted = by_id(atoms);
    lemma_order_exists(keys);
    assert forall|i: int, j: int| 0 <= i < j < atoms.len() implies (#[trigger] sorted[i]).id <= (
    #[trigger] sorted[j]).id by {
        assert(precedes(keys, order[i], order[j]));
        assert(keys[order[i]] == sorted[i].id && keys[order[j]] == sorted[j].id);
    }
    assert forall|a: Atom<Text>| #[trigger] sorted.contains(a) <==> atoms.contains(a) by {
        if sorted.contains(a) {
            let k = choose|k: int| 0 <= k < sorted.len() && sorted[k] == a;
            assert(atoms[order[k]] == a);
        }
        if atoms.contains(a) {
            let p = choose|p: int| 0 <= p < atoms.len() && atoms[p] == a;
            lemma_order_complete(keys, order, p);
            let k = choose|k: int| 0 <= k < order.len() && order[k] == p;
            assert(sorted[k] == a);
        }
    }
}

/// A mock trajectory that is written for a generation without one can be evaluated: it is read back
/// as eleven frames, a hundred steps apart.
pub proof fn law_mock_trajectories_can_be_evaluated(
    bounds: Bounds<Text>,
    frames: Seq<Seq<Atom<Text>>>,
    path: Text,
)
    requires
        frames.len() == MOCK_FRAMES,
        is_readable(bounds, frames),
    ensures
        ({
            let read = frames_of(Ok(unlines(trajectory_lines(bounds, frames))), path);
            &&& read is Ok
            &&& read->Ok_0.len() == 11
            &&& forall|i: int|
                0 <= i < 11 ==> (#[trigger] read->Ok_0[i]).timestep == 100 * i
                    && read->Ok_0[i].atoms == by_id(frames[i])
        }),
{
    law_mock_trajectories_are_read_back(bounds, frames);
}

/// A mock trajectory that is written of a structure is read back as that structure in every frame:
/// the same box, the same atoms by rising number with their types, and each where `displace` put
/// it.
pub proof fn law_mock_trajectories_keep_the_structure<
    F: Fn(usize, &DumpAtom) -> Triple<String>,
>(
    displace: F,
    atoms: Seq<DumpAtom>,
    bounds: Bounds<Text>,
    frames: Seq<Seq<Atom<Text>>>,
    path: Text,
    i: int,
    k: int,
)
    requires
        frames.len() == MOCK_FRAMES,
        are_shaken(displace, atoms, frames),
        is_readable(bounds, frames),
        0 <= i < MOCK_FRAMES,
        0 <= k < atoms.len(),
    ensures
        ({
            let read = frames_of(Ok(unlines(trajectory_lines(bounds, frames))), path);
            let order = stable_order(ids_of(views(atoms)));
            let frame = read->Ok_0[i];
            &&& read is Ok
            &&& read->Ok_0.len() == MOCK_FRAMES
            &&& frame.bounds == bounds
            &&& frame.atoms.len() == atoms.len()
            &&& frame.atoms[k].id == by_id(views(atoms))[k].id
            &&& frame.atoms[k].atom_type == by_id(views(atoms))[k].atom_type
            &&& exists|position: Triple<String>| #[trigger]
                call_ensures(displace, (i as usize, &atoms[order[k]]), position) && position@
                    == frame.atoms[k].position
        }),
{
    law_mock_trajectories_are_read_back(bounds, frames);
    let all = views(atoms);
    let shaken = frames[i];
    let keys = ids_of(all);
    assert(is_shaken(displace, i as usize, atoms, shaken));
    assert(ids_of(shaken) =~= keys);
    lemma_order_exists(keys);
    let p = stable_order(keys)[k];
    assert(by_id(shaken)[k] == shaken[p]);
    assert(by_id(all)[k] == all[p]);
    assert(shaken[p].id == atoms[p].id);
}

} // verus!
