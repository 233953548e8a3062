//! What the blackjack table shows: hand totals, the tone of the result
//! line, hand headings and the list of possible opponents.

use vstd::prelude::*;

use crate::blackjack::{BlackjackPhase, BlackjackState, HandResult};
use crate::cards::{Card, hand_value, hand_value_fits, is_soft, spec_card_value, spec_hand_value};

verus! {

/// Text under a hand: the up-card's value while the hole card is hidden,
/// otherwise the total, whether it is soft, and whether it is bust.
#[derive(Clone, Copy, Debug, PartialEq, Eq, Structural)]
pub enum HandLabel {
    Showing(u8),
    Total { value: u8, soft: bool, bust: bool },
}

/// What the label under a hand says.
pub fn hand_label(cards: &[Card], hide_hole: bool) -> (l: HandLabel)
    requires
        !hide_hole ==> hand_value_fits(cards@),
    ensures
        hide_hole ==> l == HandLabel::Showing(
            if cards@.len() > 0 {
                spec_card_value(cards@[0]) as u8
            } else {
                0u8
            },
        ),
        !hide_hole ==> (l == HandLabel::Total {
            value: spec_hand_value(cards@) as u8,
            soft: is_soft(cards@),
            bust: spec_hand_value(cards@) > 21,
        }),
{
    if hide_hole {
        let first = if cards.len() > 0 {
            cards[0].value()
        } else {
            0
        };
        HandLabel::Showing(first)
    } else {
        let (val, soft) = hand_value(cards);
        HandLabel::Total { value: val, soft, bust: val > 21 }
    }
}

/// Colour class of the result line.
#[derive(Clone, Copy, Debug, PartialEq, Eq, Structural)]
pub enum OutcomeTone {
    /// Some hand won and none lost.
    Good,
    /// Some hand lost and none won.
    Bad,
    /// Anything else (pushes only, or wins and losses mixed).
    Mixed,
}

/// Some hand won (a blackjack counts as a win).
pub open spec fn any_win(results: Seq<HandResult>) -> bool {
    exists|i: int|
        0 <= i < results.len() && (#[trigger] results[i] == HandResult::Win || results[i]
            == HandResult::Blackjack)
}

/// Some hand lost.
pub open spec fn any_loss(results: Seq<HandResult>) -> bool {
    exists|i: int| 0 <= i < results.len() && #[trigger] results[i] == HandResult::Lose
}

/// Colour class of the result line for the round's results.
pub fn outcome_tone(results: &Vec<HandResult>) -> (t: OutcomeTone)
    ensures
        t == (if any_win(results@) && !any_loss(results@) {
            OutcomeTone::Good
        } else if any_loss(results@) && !any_win(results@) {
            OutcomeTone::Bad
        } else {
            OutcomeTone::Mixed
        }),
{
    let mut has_win = false;
    let mut has_lose = false;
    let mut i: usize = 0;
    while i < results.len()
        invariant
            i <= results@.len(),
            has_win == any_win(results@.take(i as int)),
            has_lose == any_loss(results@.take(i as int)),
        decreases results@.len() - i,
    {
        let r = results[i];
        proof {
            let pre = results@.take(i as int);
            let post = results@.take(i + 1);
            assert(post =~= pre.push(r));
            assert(post[i as int] == r);
            if any_win(pre) {
                let k = choose|k: int| 0 <= k < pre.len() && (#[trigger] pre[k] == HandResult::Win || pre[k] == HandResult::Blackjack);
                assert(post[k] == pre[k]);
            }
            if any_loss(pre) {
                let k = choose|k: int| 0 <= k < pre.len() && #[trigger] pre[k] == HandResult::Lose;
                assert(post[k] == pre[k]);
            }
            if any_win(post) && r != HandResult::Win && r != HandResult::Blackjack {
                let k = choose|k: int| 0 <= k < post.len() && (#[trigger] post[k] == HandResult::Win || post[k] == HandResult::Blackjack);
                assert(pre[k] == post[k]);
            }
            if any_loss(post) && r != HandResult::Lose {
                let k = choose|k: int| 0 <= k < post.len() && #[trigger] post[k] == HandResult::Lose;
                assert(pre[k] == post[k]);
            }
        }
        match r {
            HandResult::Win | HandResult::Blackjack => {
                has_win = true;
            },
            HandResult::Lose => {
                has_lose = true;
            },
            HandResult::Push => {},
        }
        i = i + 1;
    }
    proof {
        assert(results@.take(i as int) =~= results@);
    }
    if has_win && !has_lose {
        OutcomeTone::Good
    } else if has_lose && !has_win {
        OutcomeTone::Bad
    } else {
        OutcomeTone::Mixed
    }
}

/// Heading above player hand `idx`: `None` for the single "YOUR HAND",
/// `Some((number, active))` for "HAND number", marked when it is the hand
/// being played.
pub fn hand_heading(state: &BlackjackState, idx: usize) -> (h: Option<(usize, bool)>)
    requires
        idx < state.player_hands@.len(),
    ensures
        state.player_hands@.len() <= 1 ==> (h is None),
        state.player_hands@.len() > 1 ==> h == Some(
            (
                (idx + 1) as usize,
                state.phase == BlackjackPhase::PlayerTurn && idx == state.active_hand,
            ),
        ),
{
    if state.player_hands.len() > 1 {
        let active = state.phase == BlackjackPhase::PlayerTurn && idx == state.active_hand;
        Some((idx + 1, active))
    } else {
        None
    }
}

/// Towns of AI factions (faction 1 and above) as `(town index, faction)`, in
/// town order.
pub open spec fn spec_ai_opponents(factions: Seq<i32>) -> Seq<(usize, i32)>
    decreases factions.len(),
{
    if factions.len() == 0 {
        Seq::empty()
    } else {
        let rest = spec_ai_opponents(factions.drop_last());
        let i = (factions.len() - 1) as usize;
        if factions.last() >= 1 {
            rest.push((i, factions.last()))
        } else {
            rest
        }
    }
}

/// The towns the player can play against, given each town's faction.
pub fn ai_opponents(factions: &Vec<i32>) -> (r: Vec<(usize, i32)>)
    ensures
        r@ == spec_ai_opponents(factions@),
{
    let mut r: Vec<(usize, i32)> = Vec::new();
    let mut i: usize = 0;
    while i < factions.len()
        invariant
            i <= factions@.len(),
            r@ == spec_ai_opponents(factions@.take(i as int)),
        decreases factions@.len() - i,
    {
        proof {
            assert(factions@.take(i + 1).drop_last() =~= factions@.take(i as int));
        }
        if factions[i] >= 1 {
            r.push((i, factions[i]));
        }
        i = i + 1;
    }
    proof {
        assert(factions@.take(i as int) =~= factions@);
    }
    r
}

/// Picks the first AI town as opponent while none is chosen yet (the
/// opponent faction is still `neutral`).
pub fn default_opponent(state: &mut BlackjackState, ai_towns: &Vec<(usize, i32)>, neutral: i32)
    ensures
        (old(state).opponent_faction == neutral && ai_towns@.len() > 0) ==> final(state).opponent_faction
            == ai_towns@[0].1 && final(state).opponent_town_idx == ai_towns@[0].0,
        !(old(state).opponent_faction == neutral && ai_towns@.len() > 0) ==> final(state).opponent_faction
            == old(state).opponent_faction && final(state).opponent_town_idx
            == old(state).opponent_town_idx,
        final(state).phase == old(state).phase,
        final(state).shoe == old(state).shoe,
        final(state).player_hands == old(state).player_hands,
        final(state).active_hand == old(state).active_hand,
        final(state).dealer_hand == old(state).dealer_hand,
        final(state).bet == old(state).bet,
        final(state).bet_input == old(state).bet_input,
        final(state).results == old(state).results,
        final(state).message == old(state).message,
        final(state).total_bets == old(state).total_bets,
{
    if state.opponent_faction == neutral && ai_towns.len() > 0 {
        let (idx, faction) = ai_towns[0];
        state.opponent_faction = faction;
        state.opponent_town_idx = idx;
    }
}

} // verus!
