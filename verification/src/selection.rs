//! Which frames of a trajectory are worth a reference calculation.
use crate::binary64::{Binary64, Quantity, law_places_order_numbers};
use crate::order::{
    as_ints, is_stable_order, lemma_order_complete, lemma_order_exists, lemma_order_is, positions,
    sorted_positions, stable_order,
};
use vstd::prelude::*;

verus! {

/// A limit on the disagreement of a committee.
#[derive(Debug)]
pub struct Threshold {
    /// The limit.
    pub value: Binary64,
    /// The limit as it is written in job scripts.
    pub text: String,
}

impl Clone for Threshold {
    fn clone(&self) -> (r: Threshold)
        ensures
            r == *self,
    {
        Threshold { value: self.value, text: self.text.clone() }
    }
}

/// How many frames are selected, and by which disagreement.
#[derive(Debug)]
pub struct DisagreementSettings {
    /// How many frames are selected at most.
    pub max_selected: usize,
    /// How many frames are selected at most in generation zero, where that differs.
    pub bootstrap_max_selected: Option<usize>,
    /// Frames with less disagreement are too certain.
    pub min_rrmse: Threshold,
    /// Frames with more disagreement are too suspicious.
    pub max_rrmse: Threshold,
}

impl Clone for DisagreementSettings {
    fn clone(&self) -> (r: DisagreementSettings)
        ensures
            r == *self,
    {
        DisagreementSettings {
            max_selected: self.max_selected,
            bootstrap_max_selected: self.bootstrap_max_selected,
            min_rrmse: self.min_rrmse.clone(),
            max_rrmse: self.max_rrmse.clone(),
        }
    }
}

impl Default for DisagreementSettings {
    /// At most eight frames, with a disagreement from 0.02 to 0.4.
    fn default() -> (r: DisagreementSettings)
        ensures
            r.max_selected == 8,
            r.bootstrap_max_selected is None,
            r.min_rrmse.value.bits == 0x3f94_7ae1_47ae_147b,
            r.min_rrmse.text@ == "0.02"@,
            r.max_rrmse.value.bits == 0x3fd9_9999_9999_999a,
            r.max_rrmse.text@ == "0.4"@,
    {
        DisagreementSettings {
            max_selected: 8,
            bootstrap_max_selected: None,
            min_rrmse: Threshold {
                value: Binary64 { bits: 0x3f94_7ae1_47ae_147b },
                text: "0.02".to_owned(),
            },
            max_rrmse: Threshold {
                value: Binary64 { bits: 0x3fd9_9999_9999_999a },
                text: "0.4".to_owned(),
            },
        }
    }
}

/// How far the members of a committee disagree on a frame.
#[derive(Debug)]
pub struct FrameScore {
    /// The place of the frame in its trajectory.
    pub frame_index: usize,
    /// The step of the frame.
    pub timestep: i64,
    /// The deviation of the forces.
    pub rms_abs_forces: Quantity,
    /// The deviation of the forces, relative to their size.
    pub rrmse_forces: Quantity,
    /// Whether the frame is selected.
    pub selected: bool,
}

/// Whether a disagreement lies in the window from `lo` to `hi`, its two ends belonging to it.
pub open spec fn in_window(value: Binary64, lo: Binary64, hi: Binary64) -> bool {
    lo.is_at_most(value) && value.is_at_most(hi)
}

/// The places of the scores that lie in the window, in order.
pub open spec fn candidates(scores: Seq<FrameScore>, lo: Binary64, hi: Binary64) -> Seq<int>
    decreases scores.len(),
{
    if scores.len() == 0 {
        Seq::empty()
    } else {
        let earlier = candidates(scores.drop_last(), lo, hi);
        if in_window(scores.last().rrmse_forces.value, lo, hi) {
            earlier.push(scores.len() - 1)
        } else {
            earlier
        }
    }
}

/// By what the scores at `places` are ordered so that the largest comes first.
pub open spec fn falling(scores: Seq<FrameScore>, places: Seq<int>) -> Seq<int> {
    places.map_values(|p: int| -scores[p].rrmse_forces.value.number())
}

/// The places of the scores in the window, the largest disagreement first, equal ones in the order
/// in which they stand.
pub open spec fn ranked(scores: Seq<FrameScore>, lo: Binary64, hi: Binary64) -> Seq<int> {
    let places = candidates(scores, lo, hi);
    stable_order(falling(scores, places)).map_values(|i: int| places[i])
}

/// The places of the scores that are selected: the first of those in the window, as many as are
/// allowed.
pub open spec fn chosen(scores: Seq<FrameScore>, lo: Binary64, hi: Binary64, max: nat) -> Seq<int> {
    let all = ranked(scores, lo, hi);
    if max < all.len() {
        all.take(max as int)
    } else {
        all
    }
}

/// What is selected by the settings.
pub open spec fn chosen_by(scores: Seq<FrameScore>, settings: DisagreementSettings) -> Seq<int> {
    chosen(
        scores,
        settings.min_rrmse.value,
        settings.max_rrmse.value,
        settings.max_selected as nat,
    )
}

/// The places in the window are places, rising, and all that there are.
pub proof fn lemma_candidates(scores: Seq<FrameScore>, lo: Binary64, hi: Binary64)
    ensures
        forall|i: int|
            0 <= i < candidates(scores, lo, hi).len() ==> 0 <= #[trigger] candidates(
                scores,
                lo,
                hi,
            )[i] < scores.len() && in_window(
                scores[candidates(scores, lo, hi)[i]].rrmse_forces.value,
                lo,
                hi,
            ),
        forall|i: int, j: int|
            0 <= i < j < candidates(scores, lo, hi).len() ==> #[trigger] candidates(
                scores,
                lo,
                hi,
            )[i] < #[trigger] candidates(scores, lo, hi)[j],
        forall|p: int|
            0 <= p < scores.len() && in_window(#[trigger] scores[p].rrmse_forces.value, lo, hi)
                ==> candidates(scores, lo, hi).contains(p),
    decreases scores.len(),
{
    if scores.len() > 0 {
        let shorter = scores.drop_last();
        lemma_candidates(shorter, lo, hi);
        let earlier = candidates(shorter, lo, hi);
        let all = candidates(scores, lo, hi);
        assert forall|i: int| 0 <= i < all.len() implies 0 <= #[trigger] all[i] < scores.len()
            && in_window(scores[all[i]].rrmse_forces.value, lo, hi) by {
            if i < earlier.len() {
                assert(all[i] == earlier[i]);
                assert(shorter[earlier[i]] == scores[earlier[i]]);
            }
        }
        assert forall|i: int, j: int| 0 <= i < j < all.len() implies #[trigger] all[i]
            < #[trigger] all[j] by {
            assert(all[i] == earlier[i]);
            if j < earlier.len() {
                assert(all[j] == earlier[j]);
            }
        }
        assert forall|p: int|
            0 <= p < scores.len() && in_window(
                #[trigger] scores[p].rrmse_forces.value,
                lo,
                hi,
            ) implies all.contains(p) by {
            if p < shorter.len() {
                assert(shorter[p] == scores[p]);
                assert(in_window(shorter[p].rrmse_forces.value, lo, hi));
                let k = choose|k: int| 0 <= k < earlier.len() && earlier[k] == p;
                assert(all[k] == p);
            } else {
                assert(all[all.len() - 1] == p);
            }
        }
    }
}

/// Keys that compare alike have the same stable order.
proof fn lemma_same_order(keys: Seq<int>, others: Seq<int>, order: Seq<int>)
    requires
        is_stable_order(keys, order),
        keys.len() == others.len(),
        forall|i: int, j: int|
            0 <= i < keys.len() && 0 <= j < keys.len() ==> (#[trigger] keys[i] <= #[trigger] keys[j]
                <==> others[i] <= others[j]),
    ensures
        order == stable_order(others),
{
    assert forall|i: int, j: int| 0 <= i < j < order.len() implies crate::order::precedes(
        others,
        #[trigger] order[i],
        #[trigger] order[j],
    ) by {
        assert(crate::order::precedes(keys, order[i], order[j]));
        assert(keys[order[i]] <= keys[order[j]]);
        assert(keys[order[j]] <= keys[order[i]] <==> others[order[j]] <= others[order[i]]);
    }
    lemma_order_is(others, order);
}

/// The places of the scores in the window.
fn find_candidates(scores: &Vec<FrameScore>, lo: Binary64, hi: Binary64) -> (r: Vec<usize>)
    ensures
        positions(r@) == candidates(scores@, lo, hi),
{
    let mut places: Vec<usize> = Vec::new();
    let mut i: usize = 0;
    assert(positions(places@) =~= candidates(scores@.take(0), lo, hi));
    while i < scores.len()
        invariant
            i <= scores@.len(),
            positions(places@) == candidates(scores@.take(i as int), lo, hi),
        decreases scores@.len() - i,
    {
        let value = scores[i].rrmse_forces.value;
        let ghost before = places@;
        assert(scores@.take(i + 1).drop_last() =~= scores@.take(i as int));
        if lo.at_most(value) && value.at_most(hi) {
            places.push(i);
            assert(positions(places@) =~= positions(before).push(i as int));
        }
        i += 1;
    }
    assert(scores@.take(i as int) =~= scores@);
    places
}

/// The places of the scores that are selected, the largest disagreement first.
fn rank_frames(scores: &Vec<FrameScore>, settings: &DisagreementSettings) -> (r: Vec<usize>)
    ensures
        positions(r@) == chosen_by(scores@, *settings),
{
    let lo = settings.min_rrmse.value;
    let hi = settings.max_rrmse.value;
    let places = find_candidates(scores, lo, hi);
    let ghost all = candidates(scores@, lo, hi);
    proof {
        lemma_candidates(scores@, lo, hi);
    }
    let mut keys: Vec<u64> = Vec::new();
    let mut i: usize = 0;
    while i < places.len()
        invariant
            i <= places@.len(),
            keys@.len() == i,
            positions(places@) == all,
            forall|k: int| 0 <= k < all.len() ==> 0 <= #[trigger] all[k] < scores@.len(),
            forall|k: int|
                0 <= k < i ==> #[trigger] keys@[k] == u64::MAX
                    - scores@[all[k]].rrmse_forces.value.place(),
        decreases places@.len() - i,
    {
        assert(positions(places@)[i as int] == places@[i as int]);
        keys.push(u64::MAX - scores[places[i]].rrmse_forces.value.rank());
        i += 1;
    }
    let order = sorted_positions(&keys);
    let ghost down = falling(scores@, all);
    proof {
        let k = as_ints(keys@);
        assert forall|a: int, b: int| 0 <= a < k.len() && 0 <= b < k.len() implies (#[trigger] k[a]
            <= #[trigger] k[b] <==> down[a] <= down[b]) by {
            law_places_order_numbers(
                scores@[all[b]].rrmse_forces.value,
                scores@[all[a]].rrmse_forces.value,
            );
        }
        lemma_same_order(k, down, positions(order@));
    }
    let ghost best = ranked(scores@, lo, hi);
    let count: usize = if settings.max_selected < order.len() {
        settings.max_selected
    } else {
        order.len()
    };
    let mut out: Vec<usize> = Vec::new();
    let mut j: usize = 0;
    assert(positions(out@) =~= best.take(0));
    while j < count
        invariant
            j <= count <= order@.len(),
            positions(places@) == all,
            all == candidates(scores@, lo, hi),
            down == falling(scores@, all),
            best == ranked(scores@, lo, hi),
            positions(order@) == stable_order(down),
            order@.len() == places@.len(),
            forall|k: int| 0 <= k < order@.len() ==> 0 <= #[trigger] positions(order@)[k]
                < places@.len(),
            positions(out@) == best.take(j as int),
        decreases count - j,
    {
        assert(positions(order@)[j as int] == order@[j as int]);
        let place = places[order[j]];
        let ghost before = out@;
        out.push(place);
        proof {
            assert(positions(places@)[positions(order@)[j as int]] == place);
            assert(best[j as int] == place);
            assert(best.take(j + 1) =~= best.take(j as int).push(best[j as int]));
            assert(positions(out@) =~= positions(before).push(place as int));
        }
        j += 1;
    }
    assert(best.len() == order@.len());
    assert(best.take(best.len() as int) =~= best);
    out
}

/// The places that frames say they have.
pub open spec fn frame_indices(scores: Seq<FrameScore>, places: Seq<int>) -> Seq<int> {
    places.map_values(|p: int| scores[p].frame_index as int)
}

/// The frames that are selected, the largest disagreement first: those in the window of the
/// settings, as many as the settings allow.
pub fn select_frames(scores: &Vec<FrameScore>, settings: &DisagreementSettings) -> (r: Vec<usize>)
    ensures
        positions(r@) == frame_indices(scores@, chosen_by(scores@, *settings)),
{
    let places = rank_frames(scores, settings);
    let ghost best = chosen_by(scores@, *settings);
    proof {
        law_selection_is_sound(
            scores@,
            settings.min_rrmse.value,
            settings.max_rrmse.value,
            settings.max_selected as nat,
        );
    }
    let mut out: Vec<usize> = Vec::new();
    let mut i: usize = 0;
    let ghost indices = frame_indices(scores@, best);
    assert(positions(out@) =~= indices.take(0));
    while i < places.len()
        invariant
            i <= places@.len(),
            positions(places@) == best,
            indices == frame_indices(scores@, best),
            forall|k: int| 0 <= k < best.len() ==> 0 <= #[trigger] best[k] < scores@.len(),
            positions(out@) == indices.take(i as int),
        decreases places@.len() - i,
    {
        assert(positions(places@)[i as int] == places@[i as int]);
        let ghost before = out@;
        out.push(scores[places[i]].frame_index);
        assert(indices.take(i + 1) =~= indices.take(i as int).push(indices[i as int]));
        assert(positions(out@) =~= positions(before).push(indices[i as int]));
        i += 1;
    }
    assert(indices.take(i as int) =~= indices);
    out
}

/// What is ranked is what lies in the window, each place once, no disagreement below a later one.
pub proof fn lemma_ranked(scores: Seq<FrameScore>, lo: Binary64, hi: Binary64)
    ensures
        ranked(scores, lo, hi).len() == candidates(scores, lo, hi).len(),
        forall|i: int|
            0 <= i < ranked(scores, lo, hi).len() ==> 0 <= #[trigger] ranked(scores, lo, hi)[i]
                < scores.len() && in_window(
                scores[ranked(scores, lo, hi)[i]].rrmse_forces.value,
                lo,
                hi,
            ),
        forall|i: int, j: int|
            0 <= i < j < ranked(scores, lo, hi).len() ==> #[trigger] ranked(scores, lo, hi)[i]
                != #[trigger] ranked(scores, lo, hi)[j] && scores[ranked(
                scores,
                lo,
                hi,
            )[i]].rrmse_forces.value.number() >= scores[ranked(
                scores,
                lo,
                hi,
            )[j]].rrmse_forces.value.number(),
        forall|p: int|
            0 <= p < scores.len() && in_window(#[trigger] scores[p].rrmse_forces.value, lo, hi)
                ==> ranked(scores, lo, hi).contains(p),
{
    let places = candidates(scores, lo, hi);
    let down = falling(scores, places);
    let order = stable_order(down);
    let all = ranked(scores, lo, hi);
    lemma_candidates(scores, lo, hi);
    lemma_order_exists(down);
    assert forall|i: int| 0 <= i < all.len() implies 0 <= #[trigger] all[i] < scores.len()
        && in_window(scores[all[i]].rrmse_forces.value, lo, hi) by {
        assert(0 <= order[i] < places.len());
        assert(all[i] == places[order[i]]);
    }
    assert forall|i: int, j: int| 0 <= i < j < all.len() implies #[trigger] all[i]
        != #[trigger] all[j] && scores[all[i]].rrmse_forces.value.number()
        >= scores[all[j]].rrmse_forces.value.number() by {
        assert(crate::order::precedes(down, order[i], order[j]));
        assert(all[i] == places[order[i]] && all[j] == places[order[j]]);
        assert(order[i] != order[j]);
        if order[i] < order[j] {
            assert(places[order[i]] < places[order[j]]);
        } else {
            assert(places[order[j]] < places[order[i]]);
        }
    }
    assert forall|p: int|
        0 <= p < scores.len() && in_window(
            #[trigger] scores[p].rrmse_forces.value,
            lo,
            hi,
        ) implies all.contains(p) by {
        let k = choose|k: int| 0 <= k < places.len() && places[k] == p;
        lemma_order_complete(down, order, k);
        let i = choose|i: int| 0 <= i < order.len() && order[i] == k;
        assert(all[i] == p);
    }
}

/// Every selected frame lies in the window, none is selected twice, and there are no more of them
/// than allowed.
pub proof fn law_selection_is_sound(
    scores: Seq<FrameScore>,
    lo: Binary64,
    hi: Binary64,
    max: nat,
)
    ensures
        chosen(scores, lo, hi, max).len() <= max,
        forall|i: int|
            0 <= i < chosen(scores, lo, hi, max).len() ==> 0 <= #[trigger] chosen(
                scores,
                lo,
                hi,
                max,
            )[i] < scores.len() && in_window(
                scores[chosen(scores, lo, hi, max)[i]].rrmse_forces.value,
                lo,
                hi,
            ),
        chosen(scores, lo, hi, max).no_duplicates(),
{
    lemma_ranked(scores, lo, hi);
    let all = ranked(scores, lo, hi);
    let best = chosen(scores, lo, hi, max);
    assert forall|i: int| 0 <= i < best.len() implies 0 <= #[trigger] best[i] < scores.len()
        && in_window(scores[best[i]].rrmse_forces.value, lo, hi) by {
        assert(best[i] == all[i]);
    }
    assert forall|i: int, j: int| 0 <= i < best.len() && 0 <= j < best.len() && i != j implies best[i]
        != best[j] by {
        assert(best[i] == all[i] && best[j] == all[j]);
        if i < j {
            assert(all[i] != all[j]);
        } else {
            assert(all[j] != all[i]);
        }
    }
}

/// A frame in the window that is not selected disagrees no more than any frame that is, and there
/// is one only where as many frames are selected as are allowed.
pub proof fn law_selection_is_best(
    scores: Seq<FrameScore>,
    lo: Binary64,
    hi: Binary64,
    max: nat,
    left_out: int,
)
    requires
        0 <= left_out < scores.len(),
        in_window(scores[left_out].rrmse_forces.value, lo, hi),
        !chosen(scores, lo, hi, max).contains(left_out),
    ensures
        chosen(scores, lo, hi, max).len() == max,
        forall|i: int|
            0 <= i < max ==> scores[left_out].rrmse_forces.value.number() <= scores[#[trigger] chosen(
                scores,
                lo,
                hi,
                max,
            )[i]].rrmse_forces.value.number(),
{
    lemma_ranked(scores, lo, hi);
    let all = ranked(scores, lo, hi);
    let best = chosen(scores, lo, hi, max);
    let k = choose|k: int| 0 <= k < all.len() && all[k] == left_out;
    if max >= all.len() || k < max {
        assert(best[k] == left_out);
    }
    assert forall|i: int| 0 <= i < max implies scores[left_out].rrmse_forces.value.number()
        <= scores[#[trigger] best[i]].rrmse_forces.value.number() by {
        assert(best[i] == all[i]);
        assert(all[i] != all[k]);
    }
}

/// Frames with equal disagreement are selected in the order in which they stand.
pub proof fn law_ties_go_to_the_earlier_frame(
    scores: Seq<FrameScore>,
    lo: Binary64,
    hi: Binary64,
    earlier: int,
    later: int,
    max: nat,
)
    requires
        0 <= earlier < later < scores.len(),
        in_window(scores[earlier].rrmse_forces.value, lo, hi),
        scores[earlier].rrmse_forces.value.number() == scores[later].rrmse_forces.value.number(),
        chosen(scores, lo, hi, max).contains(later),
    ensures
        chosen(scores, lo, hi, max).contains(earlier),
{
    let places = candidates(scores, lo, hi);
    let down = falling(scores, places);
    let order = stable_order(down);
    let all = ranked(scores, lo, hi);
    let best = chosen(scores, lo, hi, max);
    lemma_ranked(scores, lo, hi);
    lemma_candidates(scores, lo, hi);
    lemma_order_exists(down);
    let i = choose|i: int| 0 <= i < all.len() && all[i] == earlier;
    let j = choose|j: int| 0 <= j < best.len() && best[j] == later;
    assert(all[j] == later);
    if j < i {
        assert(crate::order::precedes(down, order[j], order[i]));
        assert(places[order[j]] == later && places[order[i]] == earlier);
        assert(places[order[j]] < places[order[i]]);
    }
    assert(best[i] == earlier);
}

} // verus!
