use endless_ui::blackjack::{
    advance_hand, deal, hand_net, hand_stake, play_again, play_dealer, player_turn, resolve_hands, settle_round,
    transfer_round_gold,
    BlackjackPhase, BlackjackState, HandResult, PlayerAction, CUT_CARD, SHOE_SIZE,
};
use endless_ui::cards::{hand_value, is_blackjack, Card, Hand};

fn c(rank: u8) -> Card {
    Card { suit: 0, rank }
}

fn ranks(cards: &[Card]) -> Vec<u8> {
    cards.iter().map(|c| c.rank).collect()
}

/// A shoe whose top (last) cards are `top`, in drawing order, over 20 filler twos.
fn shoe_drawing(top: &[u8]) -> Vec<Card> {
    let mut shoe: Vec<Card> = (0..20).map(|_| c(2)).collect();
    for &r in top.iter().rev() {
        shoe.push(c(r));
    }
    shoe
}

fn hand(cards: &[u8]) -> Hand {
    Hand {
        cards: cards.iter().map(|&r| c(r)).collect(),
        stood: false,
        doubled: false,
    }
}

#[test]
fn card_values_and_faces() {
    assert_eq!(c(1).value(), 1);
    assert_eq!(c(9).value(), 9);
    assert_eq!(c(10).value(), 10);
    assert_eq!(c(13).value(), 10);
    assert_eq!(c(1).rank_str(), "A");
    assert_eq!(c(10).rank_str(), "10");
    assert_eq!(c(12).rank_str(), "Q");
    assert_eq!(c(0).rank_str(), "?");
    assert_eq!(Card { suit: 0, rank: 1 }.suit_char(), "\u{2660}");
    assert_eq!(Card { suit: 1, rank: 1 }.suit_char(), "\u{2665}");
    assert_eq!(Card { suit: 2, rank: 1 }.suit_char(), "\u{2666}");
    assert_eq!(Card { suit: 7, rank: 1 }.suit_char(), "\u{2663}");
    assert!(Card { suit: 1, rank: 5 }.is_red());
    assert!(Card { suit: 2, rank: 5 }.is_red());
    assert!(!Card { suit: 3, rank: 5 }.is_red());
}

#[test]
fn hand_values_count_one_ace_as_eleven_when_it_fits() {
    assert_eq!(hand_value(&[c(1), c(13)]), (21, true));
    assert_eq!(hand_value(&[c(1), c(1), c(9)]), (21, true));
    assert_eq!(hand_value(&[c(1), c(5), c(13)]), (16, false));
    assert_eq!(hand_value(&[c(13), c(12), c(5)]), (25, false));
    assert_eq!(hand_value(&[]), (0, false));
}

#[test]
fn blackjack_needs_exactly_two_cards() {
    assert!(is_blackjack(&[c(1), c(11)]));
    assert!(!is_blackjack(&[c(7), c(7), c(7)]));
    assert!(!is_blackjack(&[c(10), c(9)]));
}

#[test]
fn built_shoe_is_one_full_deck() {
    let mut s = BlackjackState::default();
    s.build_shoe();
    assert_eq!(s.shoe.len(), SHOE_SIZE);
    let mut seen = vec![false; 52];
    for card in &s.shoe {
        assert!(card.suit < 4 && (1..=13).contains(&card.rank));
        let i = card.suit as usize * 13 + card.rank as usize - 1;
        assert!(!seen[i]);
        seen[i] = true;
    }
}

#[test]
fn drawing_from_an_empty_shoe_rebuilds_it() {
    let mut s = BlackjackState::default();
    let card = s.draw();
    assert!((1..=13).contains(&card.rank));
    assert_eq!(s.shoe.len(), 51);
    assert!(!s.needs_reshuffle());
}

#[test]
fn drawing_takes_the_top_card() {
    let mut s = BlackjackState::default();
    s.shoe = vec![c(3), c(4)];
    assert_eq!(s.draw().rank, 4);
    assert_eq!(ranks(&s.shoe), vec![3]);
    assert!(s.needs_reshuffle());
    s.shoe = (0..CUT_CARD + 1).map(|_| c(2)).collect();
    assert!(!s.needs_reshuffle());
}

#[test]
fn deal_alternates_player_and_dealer() {
    let mut s = BlackjackState::default();
    s.bet = 10;
    s.shoe = shoe_drawing(&[5, 6, 7, 8]);
    deal(&mut s);
    assert_eq!(ranks(&s.player_hands[0].cards), vec![5, 7]);
    assert_eq!(ranks(&s.dealer_hand.cards), vec![6, 8]);
    assert_eq!(s.total_bets, vec![10]);
    assert_eq!(s.active_hand, 0);
    assert_eq!(s.phase, BlackjackPhase::PlayerTurn);
    assert_eq!(s.shoe.len(), 20);
}

#[test]
fn a_natural_goes_straight_to_the_dealer() {
    let mut s = BlackjackState::default();
    s.bet = 10;
    s.shoe = shoe_drawing(&[1, 6, 13, 8]);
    deal(&mut s);
    assert_eq!(s.phase, BlackjackPhase::DealerTurn);
}

#[test]
fn dealing_at_the_cut_card_uses_a_fresh_deck() {
    let mut s = BlackjackState::default();
    s.bet = 1;
    s.shoe = (0..CUT_CARD).map(|_| c(0)).collect();
    deal(&mut s);
    assert_eq!(s.shoe.len(), 48);
    // the dealt cards plus the shoe are exactly one deck
    let mut seen = vec![0u32; 52];
    let all = s
        .shoe
        .iter()
        .chain(s.player_hands[0].cards.iter())
        .chain(s.dealer_hand.cards.iter());
    for card in all {
        seen[card.suit as usize * 13 + card.rank as usize - 1] += 1;
    }
    assert!(seen.iter().all(|&n| n == 1));
}

fn playing(player: &[u8], dealer: &[u8], shoe_top: &[u8], bet: i32) -> BlackjackState {
    let mut s = BlackjackState::default();
    s.bet = bet;
    s.player_hands = vec![hand(player)];
    s.total_bets = vec![bet];
    s.dealer_hand = hand(dealer);
    s.shoe = shoe_drawing(shoe_top);
    s.phase = BlackjackPhase::PlayerTurn;
    s
}

#[test]
fn hit_adds_a_card_and_a_bust_passes_the_turn() {
    let mut s = playing(&[10, 5], &[9, 8], &[4, 13], 10);
    player_turn(&mut s, Some(PlayerAction::Hit), 100);
    assert_eq!(ranks(&s.player_hands[0].cards), vec![10, 5, 4]);
    assert_eq!(s.phase, BlackjackPhase::PlayerTurn);
    player_turn(&mut s, Some(PlayerAction::Hit), 100);
    assert_eq!(ranks(&s.player_hands[0].cards), vec![10, 5, 4, 13]);
    assert_eq!(s.phase, BlackjackPhase::DealerTurn);
}

#[test]
fn stand_ends_the_hand() {
    let mut s = playing(&[10, 7], &[9, 8], &[], 10);
    player_turn(&mut s, Some(PlayerAction::Stand), 100);
    assert!(s.player_hands[0].stood);
    assert_eq!(s.phase, BlackjackPhase::DealerTurn);
}

#[test]
fn double_doubles_the_stake_and_takes_one_card() {
    let mut s = playing(&[5, 6], &[9, 8], &[10], 10);
    player_turn(&mut s, Some(PlayerAction::Double), 10);
    assert_eq!(s.total_bets, vec![20]);
    assert!(s.player_hands[0].doubled && s.player_hands[0].stood);
    assert_eq!(ranks(&s.player_hands[0].cards), vec![5, 6, 10]);
    assert_eq!(s.phase, BlackjackPhase::DealerTurn);
}

#[test]
fn double_is_refused_without_the_gold() {
    let mut s = playing(&[5, 6], &[9, 8], &[10], 10);
    player_turn(&mut s, Some(PlayerAction::Double), 9);
    assert_eq!(s.total_bets, vec![10]);
    assert_eq!(ranks(&s.player_hands[0].cards), vec![5, 6]);
    assert_eq!(s.phase, BlackjackPhase::PlayerTurn);
}

#[test]
fn split_makes_two_hands_at_the_base_bet() {
    let mut s = playing(&[8, 8], &[9, 8], &[3, 2], 10);
    player_turn(&mut s, Some(PlayerAction::Split), 10);
    assert_eq!(s.player_hands.len(), 2);
    assert_eq!(ranks(&s.player_hands[0].cards), vec![8, 3]);
    assert_eq!(ranks(&s.player_hands[1].cards), vec![8, 2]);
    assert_eq!(s.total_bets, vec![10, 10]);
    assert_eq!(s.active_hand, 0);
    // the first hand stands: play moves to the second one
    player_turn(&mut s, Some(PlayerAction::Stand), 10);
    assert_eq!(s.active_hand, 1);
    assert_eq!(s.phase, BlackjackPhase::PlayerTurn);
}

#[test]
fn split_needs_equal_values() {
    let mut s = playing(&[8, 9], &[9, 8], &[3, 2], 10);
    player_turn(&mut s, Some(PlayerAction::Split), 100);
    assert_eq!(s.player_hands.len(), 1);
    // ten-valued cards of different ranks can be split
    let mut s = playing(&[10, 13], &[9, 8], &[3, 2], 10);
    player_turn(&mut s, Some(PlayerAction::Split), 100);
    assert_eq!(s.player_hands.len(), 2);
}

#[test]
fn a_bust_hand_passes_the_turn_whatever_is_pressed() {
    let mut s = playing(&[10, 8], &[9, 8], &[], 10);
    s.player_hands[0].cards.push(c(9));
    player_turn(&mut s, Some(PlayerAction::Hit), 100);
    assert_eq!(s.player_hands[0].cards.len(), 3);
    assert_eq!(s.phase, BlackjackPhase::DealerTurn);
}

#[test]
fn advance_skips_finished_hands() {
    let mut s = playing(&[10, 8], &[9, 8], &[], 10);
    let mut stood = hand(&[9, 9]);
    stood.stood = true;
    s.player_hands.push(stood);
    s.player_hands.push(hand(&[10, 10, 5]));
    s.player_hands.push(hand(&[4, 4]));
    s.total_bets = vec![10, 10, 10, 10];
    advance_hand(&mut s);
    assert_eq!(s.active_hand, 3);
    assert_eq!(s.phase, BlackjackPhase::PlayerTurn);
    advance_hand(&mut s);
    assert_eq!(s.active_hand, 3);
    assert_eq!(s.phase, BlackjackPhase::DealerTurn);
}

#[test]
fn dealer_hits_below_17_and_stands_on_17() {
    let mut s = playing(&[10, 8], &[10, 2], &[3, 2, 9], 10);
    play_dealer(&mut s);
    assert_eq!(ranks(&s.dealer_hand.cards), vec![10, 2, 3, 2]);
    let mut s = playing(&[10, 8], &[10, 7], &[3], 10);
    play_dealer(&mut s);
    assert_eq!(ranks(&s.dealer_hand.cards), vec![10, 7]);
}

#[test]
fn dealer_does_not_draw_when_every_hand_is_bust() {
    let mut s = playing(&[10, 8, 9], &[10, 2], &[3, 2, 9], 10);
    play_dealer(&mut s);
    assert_eq!(ranks(&s.dealer_hand.cards), vec![10, 2]);
    assert_eq!(s.shoe.len(), 23);
}

#[test]
fn settlement_pays_wins_blackjacks_and_takes_losses() {
    let mut s = playing(&[10, 9], &[10, 8], &[], 10);
    s.player_hands.push(hand(&[1, 13]));
    s.player_hands.push(hand(&[10, 7]));
    s.player_hands.push(hand(&[10, 8]));
    s.player_hands.push(hand(&[10, 8, 5]));
    s.total_bets = vec![10, 10, 4, 7, 3];
    let net = resolve_hands(&mut s);
    assert_eq!(
        s.results,
        vec![
            HandResult::Win,
            HandResult::Blackjack,
            HandResult::Lose,
            HandResult::Push,
            HandResult::Lose
        ]
    );
    assert_eq!(net, 10 + 15 - 4 + 0 - 3);
}

#[test]
fn dealer_blackjack_beats_twenty_one_but_ties_a_blackjack() {
    let mut s = playing(&[10, 5, 6], &[1, 12], &[], 10);
    s.player_hands.push(hand(&[1, 10]));
    s.total_bets = vec![10, 10];
    let net = resolve_hands(&mut s);
    assert_eq!(s.results, vec![HandResult::Lose, HandResult::Push]);
    assert_eq!(net, -10);
}

#[test]
fn a_busting_dealer_pays_every_standing_hand() {
    let mut s = playing(&[10, 2], &[10, 6], &[13], 8);
    s.phase = BlackjackPhase::DealerTurn;
    let net = settle_round(&mut s);
    assert_eq!(s.results, vec![HandResult::Win]);
    assert_eq!(net, Some(8));
    assert_eq!(s.phase, BlackjackPhase::Result);
    play_again(&mut s);
    assert_eq!(s.phase, BlackjackPhase::Betting);
}

#[test]
fn odd_blackjack_payouts_round_down() {
    let mut s = playing(&[1, 13], &[10, 8], &[], 5);
    let net = resolve_hands(&mut s);
    assert_eq!(net, 7);
}

#[test]
fn round_gold_moves_from_opponent_to_player() {
    let mut gold = vec![100, 40, 70];
    transfer_round_gold(&mut gold, 0, 2, 15);
    assert_eq!(gold, vec![115, 40, 55]);
    assert_eq!(gold.iter().sum::<i32>(), 210);

    let mut gold = vec![100, 40, 70];
    transfer_round_gold(&mut gold, 0, 1, -30);
    assert_eq!(gold, vec![70, 70, 70]);

    // A missing opponent treasury: only the player's town changes.
    let mut gold = vec![100, 40];
    transfer_round_gold(&mut gold, 0, 5, 15);
    assert_eq!(gold, vec![115, 40]);

    // The same town on both sides ends where it started.
    let mut gold = vec![100];
    transfer_round_gold(&mut gold, 0, 0, 15);
    assert_eq!(gold, vec![100]);
}

#[test]
fn settling_refuses_a_round_whose_gold_overflows() {
    // Two winning hands staking more than i32::MAX / 2 each: the net leaves i32.
    let mut s = playing(&[10, 9], &[10, 6], &[13], 1);
    s.player_hands.push(hand(&[10, 9]));
    let big = i32::MAX / 2 + 10;
    s.total_bets = vec![big, big];
    s.phase = BlackjackPhase::DealerTurn;
    assert_eq!(settle_round(&mut s), None);
    assert_eq!(s.phase, BlackjackPhase::DealerTurn);
    assert_eq!(ranks(&s.dealer_hand.cards), vec![10, 6, 13]);
}

#[test]
fn advancing_keeps_the_phase_while_a_hand_is_left() {
    let mut s = playing(&[10, 2], &[10, 6], &[], 5);
    s.player_hands.push(hand(&[9, 9]));
    s.total_bets = vec![5, 5];
    s.phase = BlackjackPhase::Betting;
    advance_hand(&mut s);
    assert_eq!(s.active_hand, 1);
    assert_eq!(s.phase, BlackjackPhase::Betting);
    advance_hand(&mut s);
    assert_eq!(s.active_hand, 1);
    assert_eq!(s.phase, BlackjackPhase::DealerTurn);
}

#[test]
fn a_hand_without_its_own_stake_settles_at_the_base_bet() {
    let mut s = playing(&[10, 9], &[10, 6], &[13], 8);
    s.player_hands.push(hand(&[10, 8]));
    s.total_bets = vec![5];
    assert_eq!((hand_stake(&s, 0), hand_stake(&s, 1)), (5, 8));
    s.phase = BlackjackPhase::DealerTurn;
    // The dealer busts on 26: both hands win, the second at the base bet.
    assert_eq!(settle_round(&mut s), Some(5 + 8));
    assert_eq!(s.phase, BlackjackPhase::Result);
    assert_eq!(hand_net(HandResult::Blackjack, 7), 10);
    assert_eq!(hand_net(HandResult::Blackjack, -7), -10);
    assert_eq!(hand_net(HandResult::Lose, 7), -7);
    assert_eq!(hand_net(HandResult::Win, 7), 7);
    assert_eq!(hand_net(HandResult::Push, 7), 0);
}
