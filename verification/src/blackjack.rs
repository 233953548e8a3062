//! The casino blackjack table: shoe, dealing, player actions, the dealer's
//! play and the settlement of a round.

use vstd::prelude::*;
use vstd::multiset::Multiset;
use rand::seq::SliceRandom;

use crate::cards::{
    Card, Hand, hand_value, hand_value_fits, hard_total, has_ace, is_blackjack, is_soft, spec_card_value,
    spec_hand_value, spec_is_blackjack, lemma_hard_total_bound, lemma_hard_total_push,
};

verus! {

broadcast use vstd::seq_lib::group_to_multiset_ensures;

/// Outcome of one player hand against the dealer.
#[derive(Clone, Copy, Debug, PartialEq, Eq, Structural)]
pub enum HandResult {
    Win,
    Lose,
    Push,
    Blackjack,
}

/// Stage of a round at the table.
#[derive(Clone, Copy, Debug, PartialEq, Eq, Structural)]
pub enum BlackjackPhase {
    Betting,
    PlayerTurn,
    DealerTurn,
    Result,
}

impl Default for BlackjackPhase {
    fn default() -> (p: Self)
        ensures
            p == BlackjackPhase::Betting,
    {
        BlackjackPhase::Betting
    }
}

/// Number of 52-card decks in the shoe.
pub const SHOE_DECKS: usize = 1;

/// Number of cards in a full shoe.
pub const SHOE_SIZE: usize = 52;

/// The shoe is rebuilt before a deal once this few cards (or fewer) remain.
pub const CUT_CARD: usize = 13;

/// State of the blackjack table, kept between frames.
pub struct BlackjackState {
    pub phase: BlackjackPhase,
    pub shoe: Vec<Card>,
    pub player_hands: Vec<Hand>,
    pub active_hand: usize,
    pub dealer_hand: Hand,
    pub bet: i32,
    pub bet_input: String,
    pub opponent_faction: i32,
    pub opponent_town_idx: usize,
    pub results: Vec<HandResult>,
    pub message: String,
    pub total_bets: Vec<i32>,
}

impl Default for BlackjackState {
    fn default() -> (s: Self)
        ensures
            s.phase == BlackjackPhase::Betting,
            s.shoe@ == Seq::<Card>::empty(),
            s.player_hands@ == Seq::<Hand>::empty(),
            s.active_hand == 0,
            s.dealer_hand.cards@ == Seq::<Card>::empty(),
            !s.dealer_hand.stood,
            !s.dealer_hand.doubled,
            s.bet == 0,
            s.bet_input@ == Seq::<char>::empty(),
            s.opponent_faction == 0,
            s.opponent_town_idx == 0,
            s.results@ == Seq::<HandResult>::empty(),
            s.message@ == Seq::<char>::empty(),
            s.total_bets@ == Seq::<i32>::empty(),
            s.wf(),
    {
        BlackjackState {
            phase: BlackjackPhase::Betting,
            shoe: Vec::new(),
            player_hands: Vec::new(),
            active_hand: 0,
            dealer_hand: Hand::default(),
            bet: 0,
            bet_input: String::new(),
            opponent_faction: 0,
            opponent_town_idx: 0,
            results: Vec::new(),
            message: String::new(),
            total_bets: Vec::new(),
        }
    }
}

/// One standard 52-card deck: suits 0-3, ranks 1-13, in suit-major order.
pub open spec fn standard_deck() -> Seq<Card> {
    Seq::new(52, |i: int| Card { suit: (i / 13) as u8, rank: (i % 13 + 1) as u8 })
}

/// A freshly built shoe: some ordering of exactly one standard deck.
pub open spec fn is_fresh_shoe(shoe: Seq<Card>) -> bool {
    shoe.to_multiset() == standard_deck().to_multiset()
}

/// Drawing `card` takes the shoe from `before` to `after`: the top (last)
/// card of a non-empty shoe; from an empty shoe, the top card of a freshly
/// built one.
pub open spec fn draw_step(before: Seq<Card>, card: Card, after: Seq<Card>) -> bool {
    if before.len() > 0 {
        card == before.last() && after == before.drop_last()
    } else {
        is_fresh_shoe(after.push(card))
    }
}

/// `shoes` lists the shoe before each draw of `cards` and after the last one.
pub open spec fn draw_chain(shoes: Seq<Seq<Card>>, cards: Seq<Card>) -> bool {
    &&& shoes.len() == cards.len() + 1
    &&& forall|i: int| 0 <= i < cards.len() ==> draw_step(#[trigger] shoes[i], cards[i], shoes[i + 1])
}

/// Drawing `cards` one after another takes the shoe from `before` to `after`.
pub open spec fn draws(before: Seq<Card>, cards: Seq<Card>, after: Seq<Card>) -> bool {
    exists|shoes: Seq<Seq<Card>>|
        #[trigger] draw_chain(shoes, cards) && shoes[0] == before && shoes.last() == after
}

/// A card of a standard deck (suit 0-3, rank 1-13).
pub open spec fn valid_card(c: Card) -> bool {
    c.suit <= 3 && 1 <= c.rank <= 13
}

/// A hand whose total can be computed in a byte (as `hand_value` does).
pub open spec fn hand_in_play(h: Hand) -> bool {
    hand_value_fits(h.cards@)
}

/// Best total of a hand on the table.
pub open spec fn hand_total(h: Hand) -> nat {
    spec_hand_value(h.cards@)
}

impl BlackjackState {
    /// Well-formedness kept by every operation on the table: every hand
    /// small enough to be counted, and a valid active hand while the player
    /// is acting.
    pub open spec fn wf(&self) -> bool {
        &&& forall|i: int| 0 <= i < self.player_hands@.len() ==> #[trigger] hand_in_play(self.player_hands@[i])
        &&& hand_in_play(self.dealer_hand)
        &&& self.phase == BlackjackPhase::PlayerTurn ==> self.active_hand < self.player_hands@.len()
    }

    /// Every player hand has a stake of its own (a hand without one is
    /// settled at the base bet, but cannot be doubled).
    pub open spec fn stakes_per_hand(&self) -> bool {
        self.total_bets@.len() == self.player_hands@.len()
    }

    /// `other` equals `self` in everything but the shoe.
    pub open spec fn same_but_shoe(&self, other: &Self) -> bool {
        &&& other.phase == self.phase
        &&& other.player_hands == self.player_hands
        &&& other.active_hand == self.active_hand
        &&& other.dealer_hand == self.dealer_hand
        &&& other.bet == self.bet
        &&& other.bet_input == self.bet_input
        &&& other.opponent_faction == self.opponent_faction
        &&& other.opponent_town_idx == self.opponent_town_idx
        &&& other.results == self.results
        &&& other.message == self.message
        &&& other.total_bets == self.total_bets
    }

    /// Replaces the shoe with one freshly shuffled deck.
    pub fn build_shoe(&mut self)
        ensures
            is_fresh_shoe(final(self).shoe@),
            final(self).shoe@.len() == SHOE_SIZE,
            old(self).same_but_shoe(final(self)),
    {
        self.shoe.clear();
        let mut d: usize = 0;
        while d < SHOE_DECKS
            invariant
                d <= SHOE_DECKS,
                self.shoe@ =~= standard_deck().take(52 * d as int),
                old(self).same_but_shoe(self),
            decreases SHOE_DECKS - d,
        {
            let mut suit: u8 = 0;
            while suit < 4
                invariant
                    d < SHOE_DECKS,
                    suit <= 4,
                    self.shoe@ =~= standard_deck().take(13 * suit as int),
                    old(self).same_but_shoe(self),
                decreases 4 - suit,
            {
                let mut rank: u8 = 1;
                while rank <= 13
                    invariant
                        d < SHOE_DECKS,
                        suit < 4,
                        1 <= rank <= 14,
                        self.shoe@ =~= standard_deck().take(13 * suit + rank - 1),
                        old(self).same_but_shoe(self),
                    decreases 14 - rank,
                {
                    let ghost before = self.shoe@;
                    self.shoe.push(Card { suit, rank });
                    proof {
                        let k = 13 * suit + rank - 1;
                        assert(k / 13 == suit as int);
                        assert(k % 13 + 1 == rank as int);
                        assert(standard_deck()[k] == Card { suit, rank });
                        assert(standard_deck().take(k + 1) =~= standard_deck().take(k).push(
                            standard_deck()[k],
                        ));
                    }
                    rank = rank + 1;
                }
                suit = suit + 1;
            }
            d = d + 1;
        }
        assert(self.shoe@ =~= standard_deck());
        let mut rng = thread_rng();
        shuffle_cards(&mut self.shoe, &mut rng);
        proof {
            assert(self.shoe@.len() == self.shoe@.to_multiset().len());
            assert(standard_deck().len() == standard_deck().to_multiset().len());
        }
    }

    /// Takes the top card of the shoe, rebuilding the shoe first when it is empty.
    pub fn draw(&mut self) -> (card: Card)
        ensures
            draw_step(old(self).shoe@, card, final(self).shoe@),
            old(self).same_but_shoe(final(self)),
    {
        if self.shoe.len() == 0 {
            self.build_shoe();
        }
        let ghost full = self.shoe@;
        let card = self.shoe.pop().unwrap();
        proof {
            if old(self).shoe@.len() == 0 {
                assert(self.shoe@.push(card) =~= full);
            }
        }
        card
    }

    /// A deal needs a rebuilt shoe once the cut card has been reached.
    pub fn needs_reshuffle(&self) -> (b: bool)
        ensures
            b == (self.shoe@.len() <= CUT_CARD),
    {
        self.shoe.len() <= CUT_CARD
    }
}

#[verifier::external_type_specification]
#[verifier::external_body]
pub struct ExThreadRng(rand::rngs::ThreadRng);

/// `rand::rng()`: a handle to the thread-local random generator. Nothing is
/// stated of the handle; `rand` panics here if the operating system's
/// generator cannot seed it.
#[verifier::external_body]
fn thread_rng() -> rand::rngs::ThreadRng {
    rand::rng()
}

/// `SliceRandom::shuffle` on the cards: the slice ends as a permutation of
/// itself (rand performs a Fisher-Yates series of swaps). Which permutation
/// comes out is left unstated: it is drawn from the generator.
#[verifier::external_body]
fn shuffle_cards(cards: &mut Vec<Card>, rng: &mut rand::rngs::ThreadRng)
    ensures
        final(cards)@.to_multiset() == old(cards)@.to_multiset(),
{
    cards.shuffle(rng);
}


/// Drawing nothing leaves the shoe as it is.
pub proof fn lemma_draws_none(shoe: Seq<Card>)
    ensures
        draws(shoe, Seq::<Card>::empty(), shoe),
{
    let shoes = seq![shoe];
    assert(draw_chain(shoes, Seq::<Card>::empty()));
}

/// Drawing one more card extends a sequence of draws.
pub proof fn lemma_draws_push(before: Seq<Card>, cards: Seq<Card>, mid: Seq<Card>, c: Card, after: Seq<Card>)
    requires
        draws(before, cards, mid),
        draw_step(mid, c, after),
    ensures
        draws(before, cards.push(c), after),
{
    let shoes = choose|shoes: Seq<Seq<Card>>|
        #[trigger] draw_chain(shoes, cards) && shoes[0] == before && shoes.last() == mid;
    let longer = shoes.push(after);
    let more = cards.push(c);
    assert forall|i: int| 0 <= i < more.len() implies draw_step(#[trigger] longer[i], more[i], longer[i + 1]) by {
        if i < cards.len() {
            assert(draw_step(shoes[i], cards[i], shoes[i + 1]));
        }
    }
    assert(draw_chain(longer, more));
}

/// Every card of a fresh shoe is a card of the standard deck.
pub proof fn lemma_fresh_shoe_cards_valid(shoe: Seq<Card>, i: int)
    requires
        is_fresh_shoe(shoe),
        0 <= i < shoe.len(),
    ensures
        valid_card(shoe[i]),
{
    let c = shoe[i];
    assert(shoe.contains(c));
    assert(shoe.to_multiset().count(c) > 0);
    assert(standard_deck().contains(c));
    let j = choose|j: int| 0 <= j < standard_deck().len() && standard_deck()[j] == c;
    assert(c == Card { suit: (j / 13) as u8, rank: (j % 13 + 1) as u8 });
}

/// A card drawn from an empty shoe comes from a fresh deck.
pub proof fn lemma_draw_from_empty_valid(before: Seq<Card>, c: Card, after: Seq<Card>)
    requires
        before.len() == 0,
        draw_step(before, c, after),
    ensures
        valid_card(c),
{
    lemma_fresh_shoe_cards_valid(after.push(c), after.len() as int);
}

/// Order in which the opening cards are drawn: player, dealer, player, dealer.
pub open spec fn deal_order(p: Seq<Card>, d: Seq<Card>) -> Seq<Card> {
    seq![p[0], d[0], p[1], d[1]]
}

/// The round that `deal` starts from a table in state `old`: the shoe is
/// rebuilt when the cut card has been reached, then player, dealer, player
/// and dealer each draw one card.
pub open spec fn dealt_round(old: &BlackjackState, new: &BlackjackState) -> bool {
    let p = new.player_hands@[0].cards@;
    let d = new.dealer_hand.cards@;
    &&& new.player_hands@.len() == 1
    &&& p.len() == 2
    &&& !new.player_hands@[0].stood
    &&& !new.player_hands@[0].doubled
    &&& d.len() == 2
    &&& !new.dealer_hand.stood
    &&& !new.dealer_hand.doubled
    &&& exists|start: Seq<Card>|
        {
            &&& (old.shoe@.len() <= CUT_CARD ==> is_fresh_shoe(start))
            &&& (old.shoe@.len() > CUT_CARD ==> start == old.shoe@)
            &&& #[trigger] draws(start, deal_order(p, d), new.shoe@)
        }
    &&& new.active_hand == 0
    &&& new.results@ == Seq::<HandResult>::empty()
    &&& new.message@ == Seq::<char>::empty()
    &&& new.total_bets@ == seq![new.bet]
    &&& new.bet_input == old.bet_input
    &&& new.opponent_faction == old.opponent_faction
    &&& new.opponent_town_idx == old.opponent_town_idx
    &&& new.phase == (if spec_is_blackjack(p) || spec_is_blackjack(d) {
        BlackjackPhase::DealerTurn
    } else {
        BlackjackPhase::PlayerTurn
    })
}

/// Starts a round at the current bet: two cards each to the player and the
/// dealer; a natural on either side goes straight to the dealer's turn.
pub fn deal(state: &mut BlackjackState)
    ensures
        dealt_round(old(state), final(state)),
        final(state).bet == old(state).bet,
        final(state).wf(),
        final(state).phase == BlackjackPhase::DealerTurn <==> (spec_hand_value(
            final(state).player_hands@[0].cards@,
        ) == 21 || spec_hand_value(final(state).dealer_hand.cards@) == 21),
        final(state).phase == BlackjackPhase::DealerTurn || final(state).phase == BlackjackPhase::PlayerTurn,
{
    if state.needs_reshuffle() || state.shoe.len() == 0 {
        state.build_shoe();
    }
    let ghost start = state.shoe@;
    let c1 = state.draw();
    let ghost s1 = state.shoe@;
    let c2 = state.draw();
    let ghost s2 = state.shoe@;
    let c3 = state.draw();
    let ghost s3 = state.shoe@;
    let c4 = state.draw();
    proof {
        lemma_draws_none(start);
        lemma_draws_push(start, Seq::<Card>::empty(), start, c1, s1);
        assert(Seq::<Card>::empty().push(c1) =~= seq![c1]);
        lemma_draws_push(start, seq![c1], s1, c2, s2);
        assert(seq![c1].push(c2) =~= seq![c1, c2]);
        lemma_draws_push(start, seq![c1, c2], s2, c3, s3);
        assert(seq![c1, c2].push(c3) =~= seq![c1, c2, c3]);
        lemma_draws_push(start, seq![c1, c2, c3], s3, c4, state.shoe@);
        assert(seq![c1, c2, c3].push(c4) =~= seq![c1, c2, c3, c4]);
    }
    let mut player = Hand::default();
    player.cards.push(c1);
    player.cards.push(c3);
    let mut dealer = Hand::default();
    dealer.cards.push(c2);
    dealer.cards.push(c4);
    proof {
        lemma_hard_total_bound(player.cards@);
        lemma_hard_total_bound(dealer.cards@);
    }
    let player_bj = is_blackjack(player.cards.as_slice());
    let dealer_bj = is_blackjack(dealer.cards.as_slice());
    state.dealer_hand = dealer;
    state.player_hands = vec![player];
    state.active_hand = 0;
    state.results.clear();
    state.message = String::new();
    state.total_bets = vec![state.bet];
    if player_bj || dealer_bj {
        state.phase = BlackjackPhase::DealerTurn;
    } else {
        state.phase = BlackjackPhase::PlayerTurn;
    }
    proof {
        let p = state.player_hands@[0].cards@;
        let d = state.dealer_hand.cards@;
        assert(deal_order(p, d) =~= seq![c1, c2, c3, c4]);
        assert(draws(start, deal_order(p, d), state.shoe@));
        assert(state.total_bets@ =~= seq![state.bet]);
    }
}

/// Where the turn goes after the hand at `active` is done: the next hand
/// that is neither bust nor stood (`false`: the players keep the turn), or,
/// once no hand is left, the dealer (`true`), the last hand staying active.
pub open spec fn advance_target(hands: Seq<Hand>, active: int) -> (int, bool)
    decreases hands.len() - active,
{
    let next = active + 1;
    if next < hands.len() {
        if hand_total(hands[next]) > 21 || hands[next].stood {
            advance_target(hands, next)
        } else {
            (next, false)
        }
    } else {
        (active, true)
    }
}

/// The turn only ever lands on an existing hand, never an earlier one.
pub proof fn lemma_advance_target_in_range(hands: Seq<Hand>, active: int)
    requires
        active >= 0,
    ensures
        !advance_target(hands, active).1 ==> active < advance_target(hands, active).0 < hands.len(),
        advance_target(hands, active).0 >= active,
    decreases hands.len() - active,
{
    let next = active + 1;
    if next < hands.len() {
        if hand_total(hands[next]) > 21 || hands[next].stood {
            lemma_advance_target_in_range(hands, next);
        }
    }
}

/// Moves play to the next hand that still acts (the phase is left as it
/// is), or, when none is left, to the dealer's turn.
pub fn advance_hand(state: &mut BlackjackState)
    requires
        old(state).wf(),
        old(state).active_hand < usize::MAX,
    ensures
        final(state).active_hand as int == advance_target(
            old(state).player_hands@,
            old(state).active_hand as int,
        ).0,
        final(state).phase == (if advance_target(
            old(state).player_hands@,
            old(state).active_hand as int,
        ).1 {
            BlackjackPhase::DealerTurn
        } else {
            old(state).phase
        }),
        final(state).shoe == old(state).shoe,
        final(state).player_hands == old(state).player_hands,
        final(state).dealer_hand == old(state).dealer_hand,
        final(state).bet == old(state).bet,
        final(state).bet_input == old(state).bet_input,
        final(state).opponent_faction == old(state).opponent_faction,
        final(state).opponent_town_idx == old(state).opponent_town_idx,
        final(state).results == old(state).results,
        final(state).message == old(state).message,
        final(state).total_bets == old(state).total_bets,
        final(state).wf(),
    decreases old(state).player_hands@.len() - old(state).active_hand,
{
    let next = state.active_hand + 1;
    if next < state.player_hands.len() {
        state.active_hand = next;
        proof {
            assert(hand_in_play(state.player_hands@[next as int]));
        }
        let (val, _) = hand_value(state.player_hands[next].cards.as_slice());
        if val > 21 || state.player_hands[next].stood {
            advance_hand(state);
        } else {
            proof {
                assert(advance_target(old(state).player_hands@, old(state).active_hand as int) == (
                next as int, false));
            }
        }
    } else {
        state.phase = BlackjackPhase::DealerTurn;
    }
}


/// Every player hand is over 21.
pub open spec fn all_hands_bust(hands: Seq<Hand>) -> bool {
    forall|i: int| 0 <= i < hands.len() ==> hand_total(#[trigger] hands[i]) > 21
}

/// The dealer, holding `start`, drew exactly the cards `drawn`: hitting
/// below 17 and standing on the first total of 17 or more.
pub open spec fn dealer_stops(start: Seq<Card>, drawn: Seq<Card>) -> bool {
    &&& spec_hand_value(start + drawn) >= 17
    &&& forall|k: int| 0 <= k < drawn.len() ==> spec_hand_value(start + #[trigger] drawn.take(k)) < 17
}

/// Number of zero-valued cards in a shoe.
pub open spec fn zero_value_count(s: Seq<Card>) -> nat
    decreases s.len(),
{
    if s.len() == 0 {
        0
    } else {
        zero_value_count(s.drop_last()) + (if spec_card_value(s.last()) == 0 {
            1nat
        } else {
            0nat
        })
    }
}

/// Points a hand may still gain before reaching 17.
pub open spec fn room_below_17(cards: Seq<Card>) -> nat {
    if hard_total(cards) < 17 {
        (17 - hard_total(cards)) as nat
    } else {
        0
    }
}

/// `new` equals `old` except for the dealer's hand and the shoe.
pub open spec fn same_but_dealer_and_shoe(old: &BlackjackState, new: &BlackjackState) -> bool {
    &&& new.phase == old.phase
    &&& new.player_hands == old.player_hands
    &&& new.active_hand == old.active_hand
    &&& new.bet == old.bet
    &&& new.bet_input == old.bet_input
    &&& new.opponent_faction == old.opponent_faction
    &&& new.opponent_town_idx == old.opponent_town_idx
    &&& new.results == old.results
    &&& new.message == old.message
    &&& new.total_bets == old.total_bets
}

/// What the dealer's play does to the table: nothing when every player hand
/// is bust, otherwise the dealer draws until the total reaches 17.
pub open spec fn dealer_played(old: &BlackjackState, new: &BlackjackState) -> bool {
    &&& same_but_dealer_and_shoe(old, new)
    &&& new.dealer_hand.stood == old.dealer_hand.stood
    &&& new.dealer_hand.doubled == old.dealer_hand.doubled
    &&& all_hands_bust(old.player_hands@) ==> new.dealer_hand.cards@ == old.dealer_hand.cards@
        && new.shoe@ == old.shoe@
    &&& !all_hands_bust(old.player_hands@) ==> exists|drawn: Seq<Card>|
        {
            &&& new.dealer_hand.cards@ == old.dealer_hand.cards@ + drawn
            &&& #[trigger] draws(old.shoe@, drawn, new.shoe@)
            &&& dealer_stops(old.dealer_hand.cards@, drawn)
        }
}

/// The dealer hits until reaching 17, unless every player hand is bust.
#[verifier::rlimit(40)]
pub fn play_dealer(state: &mut BlackjackState)
    requires
        old(state).wf(),
    ensures
        dealer_played(old(state), final(state)),
        final(state).wf(),
{
    let mut all_busted = true;
    let mut i: usize = 0;
    while i < state.player_hands.len()
        invariant
            state.wf(),
            i <= state.player_hands@.len(),
            all_busted == forall|j: int| 0 <= j < i ==> hand_total(#[trigger] state.player_hands@[j]) > 21,
        decreases state.player_hands@.len() - i,
    {
        proof {
            assert(hand_in_play(state.player_hands@[i as int]));
        }
        let (v, _) = hand_value(state.player_hands[i].cards.as_slice());
        if v <= 21 {
            all_busted = false;
        }
        i = i + 1;
    }
    if all_busted {
        return;
    }
    let ghost start = state.dealer_hand.cards@;
    let ghost shoe0 = state.shoe@;
    let ghost mut drawn: Seq<Card> = Seq::empty();
    proof {
        lemma_draws_none(shoe0);
        assert(start + drawn =~= start);
    }
    loop
        invariant
            state.wf(),
            same_but_dealer_and_shoe(old(state), state),
            state.dealer_hand.stood == old(state).dealer_hand.stood,
            state.dealer_hand.doubled == old(state).dealer_hand.doubled,
            start == old(state).dealer_hand.cards@,
            shoe0 == old(state).shoe@,
            state.dealer_hand.cards@ == start + drawn,
            draws(shoe0, drawn, state.shoe@),
            forall|k: int| 0 <= k < drawn.len() ==> spec_hand_value(start + #[trigger] drawn.take(k)) < 17,
        ensures
            state.wf(),
            same_but_dealer_and_shoe(old(state), state),
            state.dealer_hand.stood == old(state).dealer_hand.stood,
            state.dealer_hand.doubled == old(state).dealer_hand.doubled,
            state.dealer_hand.cards@ == start + drawn,
            draws(shoe0, drawn, state.shoe@),
            dealer_stops(start, drawn),
        decreases room_below_17(state.dealer_hand.cards@), zero_value_count(state.shoe@),
    {
        let (val, _) = hand_value(state.dealer_hand.cards.as_slice());
        if val >= 17 {
            break;
        }
        let ghost before = state.shoe@;
        let ghost cards_before = state.dealer_hand.cards@;
        let card = state.draw();
        state.dealer_hand.cards.push(card);
        proof {
            lemma_draws_push(shoe0, drawn, before, card, state.shoe@);
            lemma_hard_total_push(cards_before, card);
            let new_drawn = drawn.push(card);
            assert(start + new_drawn =~= (start + drawn).push(card));
            assert forall|k: int| 0 <= k < new_drawn.len() implies spec_hand_value(
                start + #[trigger] new_drawn.take(k),
            ) < 17 by {
                if k < drawn.len() {
                    assert(new_drawn.take(k) =~= drawn.take(k));
                } else {
                    assert(new_drawn.take(k) =~= drawn);
                }
            }
            if before.len() == 0 {
                lemma_draw_from_empty_valid(before, card, state.shoe@);
            } else {
                assert(before.drop_last() == state.shoe@);
            }
            drawn = new_drawn;
        }
    }
    proof {
        assert(draws(old(state).shoe@, drawn, state.shoe@));
    }
}

/// How one player hand fares against the dealer's hand.
pub open spec fn spec_hand_result(player: Seq<Card>, dealer: Seq<Card>) -> HandResult {
    let pv = spec_hand_value(player);
    let dv = spec_hand_value(dealer);
    if pv > 21 {
        HandResult::Lose
    } else if spec_is_blackjack(player) && spec_is_blackjack(dealer) {
        HandResult::Push
    } else if spec_is_blackjack(player) {
        HandResult::Blackjack
    } else if spec_is_blackjack(dealer) {
        HandResult::Lose
    } else if dv > 21 || pv > dv {
        HandResult::Win
    } else if pv < dv {
        HandResult::Lose
    } else {
        HandResult::Push
    }
}

/// Integer halving that rounds toward zero.
pub open spec fn half_toward_zero(x: int) -> int {
    if x >= 0 {
        x / 2
    } else {
        -((-x) / 2)
    }
}

/// Gold the player gains on a hand with the given stake: the stake on a
/// win, three halves of it on a blackjack, minus the stake on a loss.
pub open spec fn spec_net(r: HandResult, stake: int) -> int {
    match r {
        HandResult::Win => stake,
        HandResult::Blackjack => half_toward_zero(3 * stake),
        HandResult::Lose => -stake,
        HandResult::Push => 0,
    }
}

/// Stake of player hand `i`: its own stake, or the base bet if it has none.
pub open spec fn stake_of(state: &BlackjackState, i: int) -> int {
    if i < state.total_bets@.len() {
        state.total_bets@[i] as int
    } else {
        state.bet as int
    }
}

/// The stakes the player hands are settled at, in hand order.
pub open spec fn hand_stakes(state: &BlackjackState) -> Seq<i32> {
    Seq::new(
        state.player_hands@.len(),
        |i: int|
            if i < state.total_bets@.len() {
                state.total_bets@[i]
            } else {
                state.bet
            },
    )
}

/// Result of player hand `i` against the dealer.
pub open spec fn round_result(state: &BlackjackState, i: int) -> HandResult {
    spec_hand_result(state.player_hands@[i].cards@, state.dealer_hand.cards@)
}

/// Net gold of the first `k` player hands.
pub open spec fn net_upto(state: &BlackjackState, k: int) -> int
    decreases k,
{
    if k <= 0 {
        0
    } else {
        net_upto(state, k - 1) + spec_net(round_result(state, k - 1), stake_of(state, k - 1))
    }
}

/// Settling the hands stays within `i32` at every step.
pub open spec fn settle_fits(state: &BlackjackState) -> bool {
    &&& forall|i: int|
        0 <= i < state.player_hands@.len() ==> {
            &&& (#[trigger] round_result(state, i) == HandResult::Blackjack ==> i32::MIN <= 3
                * stake_of(state, i) <= i32::MAX)
            &&& (round_result(state, i) == HandResult::Lose ==> stake_of(state, i) != i32::MIN)
        }
    &&& forall|k: int|
        0 <= k <= state.player_hands@.len() ==> i32::MIN <= #[trigger] net_upto(state, k)
            <= i32::MAX
}

/// Stake of player hand `i`: its own stake, or the base bet if it has none.
pub fn hand_stake(state: &BlackjackState, i: usize) -> (b: i32)
    ensures
        b as int == stake_of(state, i as int),
{
    if i < state.total_bets.len() {
        state.total_bets[i]
    } else {
        state.bet
    }
}

/// Gold a hand settled with `result` at stake `stake` moves to the player:
/// the stake on a win, three halves of it (rounded toward zero) on a
/// blackjack, minus the stake on a loss, nothing on a push.
pub fn hand_net(result: HandResult, stake: i32) -> (n: i32)
    requires
        result == HandResult::Blackjack ==> i32::MIN <= 3 * stake <= i32::MAX,
        result == HandResult::Lose ==> stake != i32::MIN,
    ensures
        n as int == spec_net(result, stake as int),
{
    match result {
        HandResult::Win => stake,
        HandResult::Blackjack => (stake * 3) / 2,
        HandResult::Lose => -stake,
        HandResult::Push => 0,
    }
}

/// Scores every player hand against the dealer, records the results, and
/// returns the player's net gold for the round (negative when the player
/// lost gold).
pub fn resolve_hands(state: &mut BlackjackState) -> (net: i32)
    requires
        old(state).wf(),
        settle_fits(old(state)),
    ensures
        final(state).results@ == Seq::new(
            old(state).player_hands@.len(),
            |i: int| round_result(old(state), i),
        ),
        net as int == net_upto(old(state), old(state).player_hands@.len() as int),
        final(state).phase == old(state).phase,
        final(state).shoe == old(state).shoe,
        final(state).player_hands == old(state).player_hands,
        final(state).active_hand == old(state).active_hand,
        final(state).dealer_hand == old(state).dealer_hand,
        final(state).bet == old(state).bet,
        final(state).bet_input == old(state).bet_input,
        final(state).opponent_faction == old(state).opponent_faction,
        final(state).opponent_town_idx == old(state).opponent_town_idx,
        final(state).message == old(state).message,
        final(state).total_bets == old(state).total_bets,
        final(state).wf(),
{
    proof {
        lemma_hard_total_bound(state.dealer_hand.cards@);
    }
    let (dealer_val, _) = hand_value(state.dealer_hand.cards.as_slice());
    let dealer_bj = is_blackjack(state.dealer_hand.cards.as_slice());
    let dealer_bust = dealer_val > 21;
    state.results.clear();
    let mut total_net: i32 = 0;
    let mut h: usize = 0;
    while h < state.player_hands.len()
        invariant
            old(state).wf(),
            settle_fits(old(state)),
            h <= state.player_hands@.len(),
            state.player_hands == old(state).player_hands,
            state.dealer_hand == old(state).dealer_hand,
            state.total_bets == old(state).total_bets,
            state.bet == old(state).bet,
            state.phase == old(state).phase,
            state.shoe == old(state).shoe,
            state.active_hand == old(state).active_hand,
            state.bet_input == old(state).bet_input,
            state.opponent_faction == old(state).opponent_faction,
            state.opponent_town_idx == old(state).opponent_town_idx,
            state.message == old(state).message,
            dealer_val == spec_hand_value(state.dealer_hand.cards@),
            dealer_bj == spec_is_blackjack(state.dealer_hand.cards@),
            dealer_bust == (dealer_val > 21),
            state.results@ == Seq::new(h as nat, |i: int| round_result(old(state), i)),
            total_net as int == net_upto(old(state), h as int),
        decreases state.player_hands@.len() - h,
    {
        proof {
            assert(hand_in_play(state.player_hands@[h as int]));
            lemma_hard_total_bound(state.player_hands@[h as int].cards@);
        }
        let (player_val, _) = hand_value(state.player_hands[h].cards.as_slice());
        let player_bj = is_blackjack(state.player_hands[h].cards.as_slice());
        let player_bust = player_val > 21;
        let hand_bet = hand_stake(state, h);
        let result = if player_bust {
            HandResult::Lose
        } else if player_bj && dealer_bj {
            HandResult::Push
        } else if player_bj {
            HandResult::Blackjack
        } else if dealer_bj {
            HandResult::Lose
        } else if dealer_bust || player_val > dealer_val {
            HandResult::Win
        } else if player_val < dealer_val {
            HandResult::Lose
        } else {
            HandResult::Push
        };
        proof {
            assert(result == round_result(old(state), h as int));
            assert(hand_bet as int == stake_of(old(state), h as int));
        }
        let net = hand_net(result, hand_bet);
        proof {
            assert(net_upto(old(state), h + 1) == net_upto(old(state), h as int) + net);
            assert(0 <= h + 1 <= old(state).player_hands@.len());
        }
        total_net = total_net + net;
        state.results.push(result);
        proof {
            assert(state.results@ =~= Seq::new((h + 1) as nat, |i: int| round_result(old(state), i)));
        }
        h = h + 1;
    }
    total_net
}


/// A button the player pressed on their turn.
#[derive(Clone, Copy, Debug, PartialEq, Eq, Structural)]
pub enum PlayerAction {
    Hit,
    Stand,
    Double,
    Split,
}

/// The hand the player is acting on.
pub open spec fn active_of(state: &BlackjackState) -> Hand {
    state.player_hands@[state.active_hand as int]
}

/// Doubling is offered on an undoubled two-card hand whose stake the player can match.
pub open spec fn spec_can_double(state: &BlackjackState, player_gold: i32) -> bool {
    let h = active_of(state);
    &&& h.cards@.len() == 2
    &&& !h.doubled
    &&& player_gold >= state.total_bets@[state.active_hand as int]
}

/// Splitting is offered on a two-card hand of equal card values when the
/// player can put up the base bet again.
pub open spec fn spec_can_split(state: &BlackjackState, player_gold: i32) -> bool {
    let h = active_of(state);
    &&& h.cards@.len() == 2
    &&& spec_card_value(h.cards@[0]) == spec_card_value(h.cards@[1])
    &&& player_gold >= state.bet
}

/// Whether the Double button is enabled.
pub fn can_double(state: &BlackjackState, player_gold: i32) -> (b: bool)
    requires
        state.wf(),
        state.active_hand < state.total_bets@.len(),
        state.phase == BlackjackPhase::PlayerTurn,
    ensures
        b == spec_can_double(state, player_gold),
        b <==> (state.player_hands@[state.active_hand as int].cards@.len() == 2
            && !state.player_hands@[state.active_hand as int].doubled && player_gold
            >= state.total_bets@[state.active_hand as int]),
{
    let a = state.active_hand;
    state.player_hands[a].cards.len() == 2 && !state.player_hands[a].doubled && player_gold
        >= state.total_bets[a]
}

/// Whether the Split button is enabled.
pub fn can_split(state: &BlackjackState, player_gold: i32) -> (b: bool)
    requires
        state.wf(),
        state.phase == BlackjackPhase::PlayerTurn,
    ensures
        b == spec_can_split(state, player_gold),
        b <==> (state.player_hands@[state.active_hand as int].cards@.len() == 2 && spec_card_value(
            state.player_hands@[state.active_hand as int].cards@[0],
        ) == spec_card_value(state.player_hands@[state.active_hand as int].cards@[1]) && player_gold
            >= state.bet),
{
    let a = state.active_hand;
    state.player_hands[a].cards.len() == 2 && state.player_hands[a].cards[0].value()
        == state.player_hands[a].cards[1].value() && player_gold >= state.bet
}

/// `new` holds the hands of `old` with hand `a` replaced by one holding
/// `cards` with the given flags.
pub open spec fn hand_replaced(
    old: Seq<Hand>,
    new: Seq<Hand>,
    a: int,
    cards: Seq<Card>,
    stood: bool,
    doubled: bool,
) -> bool {
    &&& new.len() == old.len()
    &&& forall|i: int| 0 <= i < old.len() && i != a ==> #[trigger] new[i] == old[i]
    &&& new[a].cards@ == cards
    &&& new[a].stood == stood
    &&& new[a].doubled == doubled
}

/// `new` equals `old` in the fields no player action touches.
pub open spec fn same_table(old: &BlackjackState, new: &BlackjackState) -> bool {
    &&& new.dealer_hand == old.dealer_hand
    &&& new.bet == old.bet
    &&& new.bet_input == old.bet_input
    &&& new.opponent_faction == old.opponent_faction
    &&& new.opponent_town_idx == old.opponent_town_idx
    &&& new.results == old.results
    &&& new.message == old.message
}

/// After the hand at `a` is finished (during the players' turn), the turn
/// moves as `advance_target` says.
pub open spec fn moved_on(new: &BlackjackState, a: int) -> bool {
    new.active_hand as int == advance_target(new.player_hands@, a).0 && new.phase == (
    if advance_target(new.player_hands@, a).1 {
        BlackjackPhase::DealerTurn
    } else {
        BlackjackPhase::PlayerTurn
    })
}

/// The effect of one frame of the player's turn with the given button press.
pub open spec fn player_turn_done(
    old: &BlackjackState,
    new: &BlackjackState,
    action: Option<PlayerAction>,
    player_gold: i32,
) -> bool {
    let a = old.active_hand as int;
    let h = active_of(old);
    let hands = old.player_hands@;
    &&& same_table(old, new)
    &&& if hand_total(h) > 21 {
        &&& new.shoe == old.shoe
        &&& new.player_hands == old.player_hands
        &&& new.total_bets == old.total_bets
        &&& moved_on(new, a)
    } else {
        match action {
            Some(PlayerAction::Hit) => exists|c: Card|
                {
                    &&& #[trigger] draw_step(old.shoe@, c, new.shoe@)
                    &&& hand_replaced(hands, new.player_hands@, a, h.cards@.push(c), h.stood, h.doubled)
                    &&& new.total_bets == old.total_bets
                    &&& if spec_hand_value(h.cards@.push(c)) > 21 {
                        moved_on(new, a)
                    } else {
                        new.active_hand == old.active_hand && new.phase == old.phase
                    }
                },
            Some(PlayerAction::Stand) => {
                &&& new.shoe == old.shoe
                &&& hand_replaced(hands, new.player_hands@, a, h.cards@, true, h.doubled)
                &&& new.total_bets == old.total_bets
                &&& moved_on(new, a)
            },
            Some(PlayerAction::Double) => if spec_can_double(old, player_gold) {
                exists|c: Card|
                    {
                        &&& #[trigger] draw_step(old.shoe@, c, new.shoe@)
                        &&& hand_replaced(hands, new.player_hands@, a, h.cards@.push(c), true, true)
                        &&& new.total_bets@ == old.total_bets@.update(a, (2 * old.total_bets@[a]) as i32)
                        &&& moved_on(new, a)
                    }
            } else {
                &&& new.shoe == old.shoe
                &&& new.player_hands == old.player_hands
                &&& new.total_bets == old.total_bets
                &&& new.active_hand == old.active_hand
                &&& new.phase == old.phase
            },
            Some(PlayerAction::Split) => if spec_can_split(old, player_gold) {
                exists|c1: Card, mid: Seq<Card>, c2: Card|
                    {
                        &&& #[trigger] draw_step(old.shoe@, c1, mid)
                        &&& #[trigger] draw_step(mid, c2, new.shoe@)
                        &&& new.player_hands@.len() == hands.len() + 1
                        &&& hand_replaced(
                            hands,
                            new.player_hands@.drop_last(),
                            a,
                            seq![h.cards@[0], c1],
                            h.stood,
                            h.doubled,
                        )
                        &&& new.player_hands@.last().cards@ == seq![h.cards@[1], c2]
                        &&& !new.player_hands@.last().stood
                        &&& !new.player_hands@.last().doubled
                        &&& new.total_bets@ == old.total_bets@.push(old.bet)
                        &&& new.active_hand == old.active_hand
                        &&& new.phase == old.phase
                    }
            } else {
                &&& new.shoe == old.shoe
                &&& new.player_hands == old.player_hands
                &&& new.total_bets == old.total_bets
                &&& new.active_hand == old.active_hand
                &&& new.phase == old.phase
            },
            None => {
                &&& new.shoe == old.shoe
                &&& new.player_hands == old.player_hands
                &&& new.total_bets == old.total_bets
                &&& new.active_hand == old.active_hand
                &&& new.phase == old.phase
            },
        }
    }
}

/// One frame of the player's turn: a bust active hand passes the turn on;
/// otherwise the pressed button (if any) is applied. Double and Split only
/// act when `can_double` / `can_split` allow them.
pub fn player_turn(state: &mut BlackjackState, action: Option<PlayerAction>, player_gold: i32)
    requires
        old(state).wf(),
        hand_total(active_of(old(state))) <= 21 ==> old(state).active_hand < old(state).total_bets@.len(),
        old(state).phase == BlackjackPhase::PlayerTurn,
        action == Some(PlayerAction::Double) && hand_total(active_of(old(state))) <= 21
            && spec_can_double(old(state), player_gold) ==> 2 * old(
            state,
        ).total_bets@[old(state).active_hand as int] <= i32::MAX && 2 * old(
            state,
        ).total_bets@[old(state).active_hand as int] >= i32::MIN,
    ensures
        player_turn_done(old(state), final(state), action, player_gold),
        final(state).wf(),
        old(state).stakes_per_hand() ==> final(state).stakes_per_hand(),
{
    let a = state.active_hand;
    let n = state.player_hands.len();
    assert(a < n);
    proof {
        assert(hand_in_play(state.player_hands@[a as int]));
        lemma_hard_total_bound(state.player_hands@[a as int].cards@);
    }
    let (val, _) = hand_value(state.player_hands[a].cards.as_slice());
    if val > 21 {
        advance_hand(state);
        return;
    }
    let dbl = can_double(state, player_gold);
    let split = can_split(state, player_gold);
    let ghost hands = state.player_hands@;
    let ghost h = state.player_hands@[a as int];
    let ghost shoe0 = state.shoe@;
    match action {
        Some(PlayerAction::Hit) => {
            let card = state.draw();
            let mut hand = Hand::default();
            state.player_hands.set_and_swap(a, &mut hand);
            hand.cards.push(card);
            proof {
                lemma_hard_total_push(h.cards@, card);
            }
            let (new_val, _) = hand_value(hand.cards.as_slice());
            state.player_hands.set_and_swap(a, &mut hand);
            proof {
                assert(hand_replaced(hands, state.player_hands@, a as int, h.cards@.push(card), h.stood, h.doubled));
                assert(forall|i: int| 0 <= i < state.player_hands@.len() && i != a ==> #[trigger] state.player_hands@[i] == hands[i]);
            }
            if new_val > 21 {
                advance_hand(state);
            }
            proof {
                assert(draw_step(shoe0, card, state.shoe@));
            }
        },
        Some(PlayerAction::Stand) => {
            let mut hand = Hand::default();
            state.player_hands.set_and_swap(a, &mut hand);
            hand.stood = true;
            state.player_hands.set_and_swap(a, &mut hand);
            proof {
                assert(hand_replaced(hands, state.player_hands@, a as int, h.cards@, true, h.doubled));
            }
            advance_hand(state);
        },
        Some(PlayerAction::Double) => {
            if dbl {
                let hand_bet = state.total_bets[a];
                state.total_bets.set(a, hand_bet * 2);
                let mut hand = Hand::default();
                state.player_hands.set_and_swap(a, &mut hand);
                hand.doubled = true;
                let card = state.draw();
                hand.cards.push(card);
                hand.stood = true;
                proof {
                    lemma_hard_total_push(h.cards@, card);
                    lemma_hard_total_bound(h.cards@);
                }
                state.player_hands.set_and_swap(a, &mut hand);
                proof {
                    assert(hand_replaced(hands, state.player_hands@, a as int, h.cards@.push(card), true, true));
                }
                advance_hand(state);
                proof {
                    assert(draw_step(shoe0, card, state.shoe@));
                }
            }
        },
        Some(PlayerAction::Split) => {
            if split {
                let mut hand = Hand::default();
                state.player_hands.set_and_swap(a, &mut hand);
                let second = hand.cards.pop().unwrap();
                let new_card_a = state.draw();
                let ghost mid = state.shoe@;
                hand.cards.push(new_card_a);
                let new_card_b = state.draw();
                let mut new_hand = Hand::default();
                new_hand.cards.push(second);
                new_hand.cards.push(new_card_b);
                proof {
                    lemma_hard_total_bound(hand.cards@);
                    lemma_hard_total_bound(new_hand.cards@);
                    assert(hand.cards@ =~= seq![h.cards@[0], new_card_a]);
                    assert(new_hand.cards@ =~= seq![h.cards@[1], new_card_b]);
                }
                state.player_hands.set_and_swap(a, &mut hand);
                let ghost replaced = state.player_hands@;
                state.player_hands.push(new_hand);
                state.total_bets.push(state.bet);
                proof {
                    assert(state.player_hands@.drop_last() =~= replaced);
                    assert(hand_replaced(hands, replaced, a as int, seq![h.cards@[0], new_card_a], h.stood, h.doubled));
                    assert(draw_step(shoe0, new_card_a, mid));
                    assert(draw_step(mid, new_card_b, state.shoe@));
                    assert forall|i: int| 0 <= i < state.player_hands@.len() implies #[trigger] hand_in_play(state.player_hands@[i]) by {
                        if i < hands.len() && i != a {
                            assert(state.player_hands@[i] == hands[i]);
                        }
                    }
                }
            }
        },
        None => {},
    }
}

/// Doubling down doubles the hand's stake and deals it exactly one more
/// card, after which the hand stands; the other hands are untouched.
pub proof fn lemma_double_deals_one_card(
    old: &BlackjackState,
    new: &BlackjackState,
    player_gold: i32,
)
    requires
        old.wf(),
        old.active_hand < old.total_bets@.len(),
        old.phase == BlackjackPhase::PlayerTurn,
        hand_total(active_of(old)) <= 21,
        spec_can_double(old, player_gold),
        i32::MIN <= 2 * old.total_bets@[old.active_hand as int] <= i32::MAX,
        player_turn_done(old, new, Some(PlayerAction::Double), player_gold),
    ensures
        ({
            let a = old.active_hand as int;
            &&& new.player_hands@[a].cards@.len() == old.player_hands@[a].cards@.len() + 1
            &&& new.player_hands@[a].cards@.drop_last() == old.player_hands@[a].cards@
            &&& new.player_hands@[a].stood && new.player_hands@[a].doubled
            &&& new.total_bets@[a] == 2 * old.total_bets@[a]
            &&& new.player_hands@.len() == old.player_hands@.len()
            &&& forall|i: int|
                0 <= i < old.player_hands@.len() && i != a ==> #[trigger] new.player_hands@[i]
                    == old.player_hands@[i]
        }),
{
    let a = old.active_hand as int;
    let h = active_of(old);
    let c = choose|c: Card|
        {
            &&& #[trigger] draw_step(old.shoe@, c, new.shoe@)
            &&& hand_replaced(old.player_hands@, new.player_hands@, a, h.cards@.push(c), true, true)
            &&& new.total_bets@ == old.total_bets@.update(a, (2 * old.total_bets@[a]) as i32)
            &&& moved_on(new, a)
        };
    assert(h.cards@.push(c).drop_last() =~= h.cards@);
}

/// Splitting turns a pair of equal-valued cards into two hands: each keeps
/// one of the pair and draws one card, and the new hand stakes the base
/// bet.
pub proof fn lemma_split_makes_two_hands(old: &BlackjackState, new: &BlackjackState, player_gold: i32)
    requires
        old.wf(),
        old.phase == BlackjackPhase::PlayerTurn,
        hand_total(active_of(old)) <= 21,
        spec_can_split(old, player_gold),
        player_turn_done(old, new, Some(PlayerAction::Split), player_gold),
    ensures
        ({
            let a = old.active_hand as int;
            let pair = old.player_hands@[a].cards@;
            &&& spec_card_value(pair[0]) == spec_card_value(pair[1])
            &&& new.player_hands@.len() == old.player_hands@.len() + 1
            &&& new.player_hands@[a].cards@.len() == 2
            &&& new.player_hands@[a].cards@[0] == pair[0]
            &&& new.player_hands@.last().cards@.len() == 2
            &&& new.player_hands@.last().cards@[0] == pair[1]
            &&& new.total_bets@ == old.total_bets@.push(old.bet)
        }),
{
    let a = old.active_hand as int;
    let h = active_of(old);
    let (c1, mid, c2) = choose|c1: Card, mid: Seq<Card>, c2: Card|
        {
            &&& #[trigger] draw_step(old.shoe@, c1, mid)
            &&& #[trigger] draw_step(mid, c2, new.shoe@)
            &&& new.player_hands@.len() == old.player_hands@.len() + 1
            &&& hand_replaced(
                old.player_hands@,
                new.player_hands@.drop_last(),
                a,
                seq![h.cards@[0], c1],
                h.stood,
                h.doubled,
            )
            &&& new.player_hands@.last().cards@ == seq![h.cards@[1], c2]
            &&& !new.player_hands@.last().stood
            &&& !new.player_hands@.last().doubled
            &&& new.total_bets@ == old.total_bets@.push(old.bet)
            &&& new.active_hand == old.active_hand
            &&& new.phase == old.phase
        };
    assert(new.player_hands@.drop_last()[a] == new.player_hands@[a]);
}

/// What settling a round does: the dealer plays (as `play_dealer`), every
/// player hand is scored against the dealer's final hand, and the table
/// shows the results.
pub open spec fn round_settled(old: &BlackjackState, new: &BlackjackState, net: int) -> bool {
    exists|played: BlackjackState|
        {
            &&& #[trigger] dealer_played(old, &played)
            &&& new.results@ == Seq::new(
                played.player_hands@.len(),
                |i: int| round_result(&played, i),
            )
            &&& net == net_upto(&played, played.player_hands@.len() as int)
            &&& new.phase == BlackjackPhase::Result
            &&& new.shoe == played.shoe
            &&& new.player_hands == played.player_hands
            &&& new.active_hand == played.active_hand
            &&& new.dealer_hand == played.dealer_hand
            &&& new.bet == played.bet
            &&& new.bet_input == played.bet_input
            &&& new.opponent_faction == played.opponent_faction
            &&& new.opponent_town_idx == played.opponent_town_idx
            &&& new.message == played.message
            &&& new.total_bets == played.total_bets
        }
}


/// Whether `resolve_hands` can settle this round without leaving the `i32`
/// range (the test the caller makes before settling).
pub fn settles_within_limits(state: &BlackjackState) -> (b: bool)
    requires
        state.wf(),
    ensures
        b == settle_fits(state),
{
    proof {
        lemma_hard_total_bound(state.dealer_hand.cards@);
    }
    let (dealer_val, _) = hand_value(state.dealer_hand.cards.as_slice());
    let dealer_bj = is_blackjack(state.dealer_hand.cards.as_slice());
    let dealer_bust = dealer_val > 21;
    let n = state.player_hands.len();
    let mut acc: i64 = 0;
    let mut h: usize = 0;
    while h < n
        invariant
            state.wf(),
            n == state.player_hands@.len(),
            h <= n,
            dealer_val == spec_hand_value(state.dealer_hand.cards@),
            dealer_bj == spec_is_blackjack(state.dealer_hand.cards@),
            dealer_bust == (dealer_val > 21),
            acc as int == net_upto(state, h as int),
            i32::MIN <= acc <= i32::MAX,
            forall|i: int|
                0 <= i < h ==> {
                    &&& (#[trigger] round_result(state, i) == HandResult::Blackjack ==> i32::MIN <= 3
                        * stake_of(state, i) <= i32::MAX)
                    &&& (round_result(state, i) == HandResult::Lose ==> stake_of(state, i)
                        != i32::MIN)
                },
            forall|k: int| 0 <= k <= h ==> i32::MIN <= #[trigger] net_upto(state, k) <= i32::MAX,
        decreases n - h,
    {
        proof {
            assert(hand_in_play(state.player_hands@[h as int]));
            lemma_hard_total_bound(state.player_hands@[h as int].cards@);
        }
        let (player_val, _) = hand_value(state.player_hands[h].cards.as_slice());
        let player_bj = is_blackjack(state.player_hands[h].cards.as_slice());
        let hand_bet = if h < state.total_bets.len() {
            state.total_bets[h]
        } else {
            state.bet
        } as i64;
        let result = if player_val > 21 {
            HandResult::Lose
        } else if player_bj && dealer_bj {
            HandResult::Push
        } else if player_bj {
            HandResult::Blackjack
        } else if dealer_bj {
            HandResult::Lose
        } else if dealer_bust || player_val > dealer_val {
            HandResult::Win
        } else if player_val < dealer_val {
            HandResult::Lose
        } else {
            HandResult::Push
        };
        proof {
            assert(result == round_result(state, h as int));
            assert(hand_bet as int == stake_of(state, h as int));
        }
        let net: i64 = match result {
            HandResult::Win => hand_bet,
            HandResult::Blackjack => {
                if hand_bet * 3 < i32::MIN as i64 || hand_bet * 3 > i32::MAX as i64 {
                    return false;
                }
                (hand_bet * 3) / 2
            },
            HandResult::Lose => {
                if hand_bet == i32::MIN as i64 {
                    return false;
                }
                -hand_bet
            },
            HandResult::Push => 0,
        };
        proof {
            assert(net as int == spec_net(result, hand_bet as int));
            assert(net_upto(state, h + 1) == net_upto(state, h as int) + net);
        }
        acc = acc + net;
        if acc < i32::MIN as i64 || acc > i32::MAX as i64 {
            proof {
                assert(0 <= h + 1 <= state.player_hands@.len());
            }
            return false;
        }
        h = h + 1;
    }
    true
}

/// Absolute value of an integer.
pub open spec fn abs_int(x: int) -> int {
    if x < 0 {
        -x
    } else {
        x
    }
}

/// Largest gold a round can move for the first `k` stakes: three halves of each.
pub open spec fn stake_cap(bets: Seq<i32>, k: int) -> int
    decreases k,
{
    if k <= 0 {
        0
    } else {
        stake_cap(bets, k - 1) + (3 * abs_int(bets[k - 1] as int)) / 2
    }
}

/// The stakes are small enough that no outcome of the round can overflow
/// the gold arithmetic.
pub open spec fn stakes_fit(bets: Seq<i32>) -> bool {
    &&& forall|i: int| 0 <= i < bets.len() ==> 3 * abs_int(#[trigger] bets[i] as int) <= i32::MAX
    &&& stake_cap(bets, bets.len() as int) <= i32::MAX
}

proof fn lemma_stake_cap_monotone(bets: Seq<i32>, j: int, k: int)
    requires
        0 <= j <= k,
    ensures
        stake_cap(bets, j) <= stake_cap(bets, k),
    decreases k - j,
{
    if j < k {
        lemma_stake_cap_monotone(bets, j, k - 1);
    }
}

proof fn lemma_net_within_cap(state: &BlackjackState, k: int)
    requires
        state.wf(),
        stakes_fit(hand_stakes(state)),
        0 <= k <= state.player_hands@.len(),
    ensures
        abs_int(net_upto(state, k)) <= stake_cap(hand_stakes(state), k),
    decreases k,
{
    if k > 0 {
        lemma_net_within_cap(state, k - 1);
        let b = hand_stakes(state)[k - 1] as int;
        assert(3 * abs_int(b) <= i32::MAX);
        assert(stake_of(state, k - 1) == b);
    }
}

/// Stakes that fit leave room for every way the round can be settled.
pub proof fn lemma_stakes_fit_settle(state: &BlackjackState)
    requires
        state.wf(),
        stakes_fit(hand_stakes(state)),
    ensures
        settle_fits(state),
{
    let n = state.player_hands@.len() as int;
    assert forall|k: int| 0 <= k <= n implies i32::MIN <= #[trigger] net_upto(state, k) <= i32::MAX by {
        lemma_net_within_cap(state, k);
        lemma_stake_cap_monotone(hand_stakes(state), k, n);
    }
    assert forall|i: int| 0 <= i < n implies {
        &&& (#[trigger] round_result(state, i) == HandResult::Blackjack ==> i32::MIN <= 3
            * stake_of(state, i) <= i32::MAX)
        &&& (round_result(state, i) == HandResult::Lose ==> stake_of(state, i) != i32::MIN)
    } by {
        assert(3 * abs_int(hand_stakes(state)[i] as int) <= i32::MAX);
        assert(stake_of(state, i) == hand_stakes(state)[i] as int);
    }
}

/// The dealer's turn: the dealer plays; then, when scoring the hands stays
/// within `i32` (always so when the stakes fit, `stakes_fit`), the hands are
/// scored, the table moves to the result screen and the player's net gold
/// comes back. Otherwise `None` comes back and the table is left as the
/// dealer's play left it: scoring would overflow.
pub fn settle_round(state: &mut BlackjackState) -> (net: Option<i32>)
    requires
        old(state).wf(),
    ensures
        final(state).wf(),
        match net {
            Some(n) => round_settled(old(state), final(state), n as int),
            None => dealer_played(old(state), final(state)) && !settle_fits(final(state)),
        },
        stakes_fit(hand_stakes(old(state))) ==> net is Some,
{
    play_dealer(state);
    let ghost played: BlackjackState = *state;
    proof {
        if stakes_fit(hand_stakes(old(state))) {
            assert(hand_stakes(state) == hand_stakes(old(state)));
            lemma_stakes_fit_settle(state);
        }
    }
    if !settles_within_limits(state) {
        return None;
    }
    let net = resolve_hands(state);
    state.phase = BlackjackPhase::Result;
    proof {
        assert(dealer_played(old(state), &played));
    }
    Some(net)
}

/// Treasuries after a round moves `net` gold: the player's town gains it,
/// then the opponent's town pays it; a town index past the end of `gold`
/// has no treasury and is left out.
pub open spec fn spec_round_gold(gold: Seq<i32>, player_town: int, opponent_town: int, net: int) -> Seq<i32> {
    let credited = if 0 <= player_town < gold.len() {
        gold.update(player_town, (gold[player_town] + net) as i32)
    } else {
        gold
    };
    if 0 <= opponent_town < credited.len() {
        credited.update(opponent_town, (credited[opponent_town] - net) as i32)
    } else {
        credited
    }
}

/// Neither treasury leaves the `i32` range while the round's gold moves.
pub open spec fn round_gold_fits(gold: Seq<i32>, player_town: int, opponent_town: int, net: int) -> bool {
    let credited = if 0 <= player_town < gold.len() {
        gold.update(player_town, (gold[player_town] + net) as i32)
    } else {
        gold
    };
    &&& 0 <= player_town < gold.len() ==> i32::MIN <= gold[player_town] + net <= i32::MAX
    &&& 0 <= opponent_town < gold.len() ==> i32::MIN <= credited[opponent_town] - net <= i32::MAX
}

/// Moves the round's net gold from the opponent's treasury to the player's.
pub fn transfer_round_gold(gold: &mut Vec<i32>, player_town: usize, opponent_town: usize, net: i32)
    requires
        round_gold_fits(old(gold)@, player_town as int, opponent_town as int, net as int),
    ensures
        final(gold)@ == spec_round_gold(old(gold)@, player_town as int, opponent_town as int, net as int),
{
    if player_town < gold.len() {
        let g = gold[player_town];
        gold.set(player_town, g + net);
    }
    if opponent_town < gold.len() {
        let g = gold[opponent_town];
        gold.set(opponent_town, g - net);
    }
}

/// Total gold held by a list of treasuries.
pub open spec fn gold_sum(gold: Seq<i32>) -> int
    decreases gold.len(),
{
    if gold.len() == 0 {
        0
    } else {
        gold_sum(gold.drop_last()) + gold.last()
    }
}

/// Changing one treasury changes the total by the same amount.
pub proof fn lemma_gold_sum_update(gold: Seq<i32>, i: int, v: i32)
    requires
        0 <= i < gold.len(),
    ensures
        gold_sum(gold.update(i, v)) == gold_sum(gold) - gold[i] + v,
    decreases gold.len(),
{
    if i < gold.len() - 1 {
        assert(gold.update(i, v).drop_last() =~= gold.drop_last().update(i, v));
        lemma_gold_sum_update(gold.drop_last(), i, v);
    } else {
        assert(gold.update(i, v).drop_last() =~= gold.drop_last());
    }
}

/// Blackjack between two towns is zero-sum: when both treasuries exist,
/// the gold the player wins is exactly the gold the opponent loses, so the
/// towns' total gold is unchanged.
pub proof fn lemma_round_gold_zero_sum(gold: Seq<i32>, player_town: int, opponent_town: int, net: int)
    requires
        0 <= player_town < gold.len(),
        0 <= opponent_town < gold.len(),
        round_gold_fits(gold, player_town, opponent_town, net),
    ensures
        gold_sum(spec_round_gold(gold, player_town, opponent_town, net)) == gold_sum(gold),
        player_town != opponent_town ==> spec_round_gold(gold, player_town, opponent_town, net)[player_town]
            == gold[player_town] + net,
        player_town != opponent_town ==> spec_round_gold(gold, player_town, opponent_town, net)[opponent_town]
            == gold[opponent_town] - net,
{
    let credited = gold.update(player_town, (gold[player_town] + net) as i32);
    lemma_gold_sum_update(gold, player_town, (gold[player_town] + net) as i32);
    lemma_gold_sum_update(credited, opponent_town, (credited[opponent_town] - net) as i32);
}

/// Starts the next round from the result screen.
pub fn play_again(state: &mut BlackjackState)
    requires
        old(state).wf(),
    ensures
        final(state).phase == BlackjackPhase::Betting,
        final(state).shoe == old(state).shoe,
        final(state).player_hands == old(state).player_hands,
        final(state).active_hand == old(state).active_hand,
        final(state).total_bets == old(state).total_bets,
        same_table(old(state), final(state)),
        final(state).wf(),
{
    state.phase = BlackjackPhase::Betting;
}

/// Cards are never created or lost: drawing from a shoe that holds enough
/// cards never rebuilds it, and the drawn cards plus the remaining shoe are
/// exactly the cards the shoe held before.
pub proof fn lemma_draws_conserve_cards(before: Seq<Card>, cards: Seq<Card>, after: Seq<Card>)
    requires
        draws(before, cards, after),
        cards.len() <= before.len(),
    ensures
        before.to_multiset() == after.to_multiset().add(cards.to_multiset()),
        after.len() + cards.len() == before.len(),
{
    let shoes = choose|shoes: Seq<Seq<Card>>|
        #[trigger] draw_chain(shoes, cards) && shoes[0] == before && shoes.last() == after;
    lemma_chain_conserve(shoes, cards, cards.len() as int);
    assert(cards.take(cards.len() as int) =~= cards);
}

proof fn lemma_chain_conserve(shoes: Seq<Seq<Card>>, cards: Seq<Card>, k: int)
    requires
        draw_chain(shoes, cards),
        0 <= k <= cards.len(),
        cards.len() <= shoes[0].len(),
    ensures
        shoes[0].to_multiset() == shoes[k].to_multiset().add(cards.take(k).to_multiset()),
        shoes[k].len() + k == shoes[0].len(),
    decreases k,
{
    if k == 0 {
        assert(cards.take(0) =~= Seq::<Card>::empty());
        assert(shoes[0].to_multiset().add(Multiset::<Card>::empty()) =~= shoes[0].to_multiset());
    } else {
        lemma_chain_conserve(shoes, cards, k - 1);
        let s = shoes[k - 1];
        assert(draw_step(shoes[k - 1], cards[k - 1], shoes[k]));
        assert(s.len() > 0);
        assert(s =~= shoes[k].push(cards[k - 1]));
        assert(cards.take(k) =~= cards.take(k - 1).push(cards[k - 1]));
        assert(s.to_multiset() =~= shoes[k].to_multiset().insert(cards[k - 1]));
        assert(cards.take(k).to_multiset() =~= cards.take(k - 1).to_multiset().insert(cards[k - 1]));
        assert(shoes[0].to_multiset() =~= shoes[k].to_multiset().add(cards.take(k).to_multiset()));
    }
}

/// A bust hand loses its whole stake, whatever the dealer holds.
pub proof fn lemma_bust_always_loses(player: Seq<Card>, dealer: Seq<Card>, stake: int)
    requires
        spec_hand_value(player) > 21,
    ensures
        spec_hand_result(player, dealer) == HandResult::Lose,
        spec_net(spec_hand_result(player, dealer), stake) == -stake,
{
}

/// A blackjack pays three to two unless the dealer also has one, which is a push.
pub proof fn lemma_blackjack_pays_three_to_two(player: Seq<Card>, dealer: Seq<Card>, stake: int)
    requires
        spec_is_blackjack(player),
        stake >= 0,
    ensures
        spec_is_blackjack(dealer) ==> spec_net(spec_hand_result(player, dealer), stake) == 0,
        !spec_is_blackjack(dealer) ==> spec_net(spec_hand_result(player, dealer), stake) == (3
            * stake) / 2,
{
}

/// Equal totals without a natural and without a bust are a push.
pub proof fn lemma_tie_is_push(player: Seq<Card>, dealer: Seq<Card>)
    requires
        spec_hand_value(player) == spec_hand_value(dealer),
        spec_hand_value(player) <= 21,
        !spec_is_blackjack(player),
        !spec_is_blackjack(dealer),
    ensures
        spec_hand_result(player, dealer) == HandResult::Push,
{
}

/// A fresh deal skips the player's turn exactly when either side holds a
/// natural 21 in its two cards: the dealer's natural ends the round at once
/// just as the player's does; otherwise the player acts.
pub proof fn lemma_natural_skips_player_turn(old: &BlackjackState, new: &BlackjackState)
    requires
        dealt_round(old, new),
    ensures
        new.player_hands@[0].cards@.len() == 2,
        new.dealer_hand.cards@.len() == 2,
        spec_hand_value(new.dealer_hand.cards@) == 21 ==> new.phase == BlackjackPhase::DealerTurn,
        spec_hand_value(new.player_hands@[0].cards@) == 21 ==> new.phase == BlackjackPhase::DealerTurn,
        (spec_hand_value(new.dealer_hand.cards@) != 21 && spec_hand_value(new.player_hands@[0].cards@)
            != 21) ==> new.phase == BlackjackPhase::PlayerTurn,
{
}

/// Pressing Double on a live hand: an undoubled two-card hand whose stake the
/// player can match gets its stake doubled, exactly one more card, and
/// stands; any other hand (three cards or more, already doubled, or a stake
/// the player cannot match) leaves the table's hands, stakes and shoe as
/// they were.
pub proof fn lemma_double_press(old: &BlackjackState, new: &BlackjackState, player_gold: i32)
    requires
        old.wf(),
        old.phase == BlackjackPhase::PlayerTurn,
        old.active_hand < old.total_bets@.len(),
        hand_total(active_of(old)) <= 21,
        player_turn_done(old, new, Some(PlayerAction::Double), player_gold),
    ensures
        ({
            let a = old.active_hand as int;
            let h = old.player_hands@[a];
            let pair = h.cards@.len() == 2 && !h.doubled && player_gold >= old.total_bets@[a];
            &&& pair ==> {
                &&& new.total_bets@[a] == (2 * old.total_bets@[a]) as i32
                &&& new.total_bets@.len() == old.total_bets@.len()
                &&& new.player_hands@.len() == old.player_hands@.len()
                &&& new.player_hands@[a].cards@.len() == 3
                &&& new.player_hands@[a].cards@.take(2) == h.cards@
                &&& new.player_hands@[a].stood
                &&& new.player_hands@[a].doubled
                &&& exists|c: Card| #[trigger] draw_step(old.shoe@, c, new.shoe@) && new.player_hands@[a].cards@
                    == h.cards@.push(c)
            }
            &&& !pair ==> {
                &&& new.player_hands == old.player_hands
                &&& new.total_bets == old.total_bets
                &&& new.shoe == old.shoe
                &&& new.phase == old.phase
            }
        }),
{
    let a = old.active_hand as int;
    let h = active_of(old);
    if spec_can_double(old, player_gold) {
        let c = choose|c: Card|
            {
                &&& #[trigger] draw_step(old.shoe@, c, new.shoe@)
                &&& hand_replaced(old.player_hands@, new.player_hands@, a, h.cards@.push(c), true, true)
                &&& new.total_bets@ == old.total_bets@.update(a, (2 * old.total_bets@[a]) as i32)
                &&& moved_on(new, a)
            };
        assert(h.cards@.push(c).take(2) =~= h.cards@);
    }
}

/// Pressing Split on a live hand: a two-card hand of equal card values,
/// when the player can put up the base bet again, becomes two hands holding
/// one card of the pair plus one new card each, the new hand staking the
/// base bet; any other hand leaves the hands, stakes and shoe as they were.
pub proof fn lemma_split_press(old: &BlackjackState, new: &BlackjackState, player_gold: i32)
    requires
        old.wf(),
        old.phase == BlackjackPhase::PlayerTurn,
        hand_total(active_of(old)) <= 21,
        player_turn_done(old, new, Some(PlayerAction::Split), player_gold),
    ensures
        ({
            let a = old.active_hand as int;
            let h = old.player_hands@[a];
            let pair = h.cards@.len() == 2 && spec_card_value(h.cards@[0]) == spec_card_value(h.cards@[1])
                && player_gold >= old.bet;
            &&& pair ==> {
                &&& new.player_hands@.len() == old.player_hands@.len() + 1
                &&& new.player_hands@[a].cards@.len() == 2
                &&& new.player_hands@[a].cards@[0] == h.cards@[0]
                &&& new.player_hands@.last().cards@.len() == 2
                &&& new.player_hands@.last().cards@[0] == h.cards@[1]
                &&& new.total_bets@ == old.total_bets@.push(old.bet)
            }
            &&& !pair ==> {
                &&& new.player_hands == old.player_hands
                &&& new.total_bets == old.total_bets
                &&& new.shoe == old.shoe
                &&& new.phase == old.phase
            }
        }),
{
    let a = old.active_hand as int;
    let h = active_of(old);
    if spec_can_split(old, player_gold) {
        let (c1, mid, c2) = choose|c1: Card, mid: Seq<Card>, c2: Card|
            {
                &&& #[trigger] draw_step(old.shoe@, c1, mid)
                &&& #[trigger] draw_step(mid, c2, new.shoe@)
                &&& new.player_hands@.len() == old.player_hands@.len() + 1
                &&& hand_replaced(
                    old.player_hands@,
                    new.player_hands@.drop_last(),
                    a,
                    seq![h.cards@[0], c1],
                    h.stood,
                    h.doubled,
                )
                &&& new.player_hands@.last().cards@ == seq![h.cards@[1], c2]
                &&& !new.player_hands@.last().stood
                &&& !new.player_hands@.last().doubled
                &&& new.total_bets@ == old.total_bets@.push(old.bet)
                &&& new.active_hand == old.active_hand
                &&& new.phase == old.phase
            };
        assert(new.player_hands@[a] == new.player_hands@.drop_last()[a]);
    }
}

} // verus!
