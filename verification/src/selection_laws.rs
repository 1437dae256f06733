//! Which frames settings select.
use crate::binary64::Binary64;
use crate::order::{lemma_order_exists, precedes, stable_order};
use crate::selection::{
    DisagreementSettings, FrameScore, candidates, chosen_by, falling, frame_indices,
    law_selection_is_best, law_selection_is_sound, lemma_candidates, lemma_ranked, ranked,
};
use vstd::arithmetic::power2::pow2;
use vstd::prelude::*;

verus! {

/// Whether a frame disagrees neither too little nor too much: its relative deviation is a number and
/// lies between the limits, or at one of them.
pub open spec fn is_between(score: FrameScore, settings: DisagreementSettings) -> bool {
    let value = score.rrmse_forces.value;
    let lo = settings.min_rrmse.value;
    let hi = settings.max_rrmse.value;
    &&& !value.is_nan()
    &&& !lo.is_nan()
    &&& !hi.is_nan()
    &&& lo.number() <= value.number() <= hi.number()
}

/// Settings select frames between their limits, no frame twice and no more than they allow: those that
/// disagree most, from the most on, and of those that disagree alike the earlier before the later.
/// What is reported of a selected frame is its own number.
pub proof fn law_settings_select_what_disagrees_most(
    scores: Seq<FrameScore>,
    settings: DisagreementSettings,
)
    ensures
        ({
            let best = chosen_by(scores, settings);
            &&& best.len() <= settings.max_selected
            &&& forall|i: int|
                0 <= i < best.len() ==> 0 <= #[trigger] best[i] < scores.len() && is_between(
                    scores[best[i]],
                    settings,
                )
            &&& forall|i: int, j: int|
                0 <= i < j < best.len() ==> {
                    let a = scores[#[trigger] best[i]].rrmse_forces.value.number();
                    let b = scores[#[trigger] best[j]].rrmse_forces.value.number();
                    a > b || a == b && best[i] < best[j]
                }
            &&& forall|p: int|
                0 <= p < scores.len() && is_between(#[trigger] scores[p], settings)
                    && !best.contains(p) ==> {
                    &&& best.len() == settings.max_selected
                    &&& forall|i: int|
                        0 <= i < best.len() ==> scores[p].rrmse_forces.value.number()
                            <= scores[#[trigger] best[i]].rrmse_forces.value.number()
                }
            &&& frame_indices(scores, best).len() == best.len()
            &&& forall|i: int|
                0 <= i < best.len() ==> #[trigger] frame_indices(scores, best)[i]
                    == scores[best[i]].frame_index
        }),
{
    let lo = settings.min_rrmse.value;
    let hi = settings.max_rrmse.value;
    let max = settings.max_selected as nat;
    let best = chosen_by(scores, settings);
    let places = candidates(scores, lo, hi);
    let down = falling(scores, places);
    let order = stable_order(down);
    let all = ranked(scores, lo, hi);
    law_selection_is_sound(scores, lo, hi, max);
    lemma_ranked(scores, lo, hi);
    lemma_candidates(scores, lo, hi);
    lemma_order_exists(down);
    assert forall|i: int, j: int| 0 <= i < j < best.len() implies {
        let a = scores[#[trigger] best[i]].rrmse_forces.value.number();
        let b = scores[#[trigger] best[j]].rrmse_forces.value.number();
        a > b || a == b && best[i] < best[j]
    } by {
        assert(best[i] == all[i] && best[j] == all[j]);
        assert(precedes(down, order[i], order[j]));
        assert(places[order[i]] == best[i] && places[order[j]] == best[j]);
        assert(down[order[i]] == -scores[best[i]].rrmse_forces.value.number());
        assert(down[order[j]] == -scores[best[j]].rrmse_forces.value.number());
        if down[order[i]] == down[order[j]] {
            assert(order[i] < order[j]);
            assert(places[order[i]] < places[order[j]]);
        }
    }
    assert forall|p: int|
        0 <= p < scores.len() && is_between(#[trigger] scores[p], settings) && !best.contains(
            p,
        ) implies {
        &&& best.len() == settings.max_selected
        &&& forall|i: int|
            0 <= i < best.len() ==> scores[p].rrmse_forces.value.number() <= scores[
            #[trigger] best[i]].rrmse_forces.value.number()
    } by {
        law_selection_is_best(scores, lo, hi, max, p);
    }
}

/// A bit pattern denotes no number exactly where the bits of its exponent are all set and its fraction
/// is not zero. Else it denotes its fraction, with the hidden bit before it unless it is among the
/// smallest numbers, as often doubled as its exponent says, with its sign.
pub proof fn law_bit_patterns_denote_numbers(b: Binary64)
    ensures
        ({
            let sign = b.bits as int / 0x8000_0000_0000_0000;
            let exponent = b.bits as int / 0x10_0000_0000_0000 % 2048;
            let fraction = b.bits as int % 0x10_0000_0000_0000;
            let size = if exponent == 0 {
                fraction
            } else {
                (0x10_0000_0000_0000 + fraction) * pow2((exponent - 1) as nat)
            };
            &&& b.is_nan() <==> exponent == 2047 && fraction != 0
            &&& sign == 0 ==> b.number() == size
            &&& sign == 1 ==> b.number() == -size
            &&& sign == 0 || sign == 1
        }),
{
    let n = b.bits as int;
    let low = b.low();
    assert(low / 0x10_0000_0000_0000 == n / 0x10_0000_0000_0000 % 2048);
    assert(low % 0x10_0000_0000_0000 == n % 0x10_0000_0000_0000);
}

} // verus!
