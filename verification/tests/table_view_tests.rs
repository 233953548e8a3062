use endless_ui::blackjack::{BlackjackPhase, BlackjackState, HandResult};
use endless_ui::cards::{Card, Hand};
use endless_ui::table_view::{
    ai_opponents, default_opponent, hand_heading, hand_label, outcome_tone, HandLabel,
    OutcomeTone,
};

fn c(rank: u8) -> Card {
    Card { suit: 3, rank }
}

#[test]
fn hand_labels() {
    assert_eq!(hand_label(&[c(12), c(1)], true), HandLabel::Showing(10));
    assert_eq!(hand_label(&[], true), HandLabel::Showing(0));
    assert_eq!(
        hand_label(&[c(1), c(6)], false),
        HandLabel::Total { value: 17, soft: true, bust: false }
    );
    assert_eq!(
        hand_label(&[c(10), c(6), c(9)], false),
        HandLabel::Total { value: 25, soft: false, bust: true }
    );
}

#[test]
fn outcome_tones() {
    assert_eq!(outcome_tone(&vec![HandResult::Win]), OutcomeTone::Good);
    assert_eq!(outcome_tone(&vec![HandResult::Blackjack, HandResult::Push]), OutcomeTone::Good);
    assert_eq!(outcome_tone(&vec![HandResult::Lose]), OutcomeTone::Bad);
    assert_eq!(outcome_tone(&vec![HandResult::Win, HandResult::Lose]), OutcomeTone::Mixed);
    assert_eq!(outcome_tone(&vec![HandResult::Push]), OutcomeTone::Mixed);
    assert_eq!(outcome_tone(&vec![]), OutcomeTone::Mixed);
}

#[test]
fn headings_number_split_hands() {
    let mut s = BlackjackState::default();
    s.player_hands = vec![Hand::default()];
    assert_eq!(hand_heading(&s, 0), None);
    s.player_hands.push(Hand::default());
    s.phase = BlackjackPhase::PlayerTurn;
    s.active_hand = 1;
    assert_eq!(hand_heading(&s, 0), Some((1, false)));
    assert_eq!(hand_heading(&s, 1), Some((2, true)));
    s.phase = BlackjackPhase::Result;
    assert_eq!(hand_heading(&s, 1), Some((2, false)));
}

#[test]
fn opponents_are_the_ai_towns() {
    let towns = vec![0, 2, -1, 1, 3];
    let ai = ai_opponents(&towns);
    assert_eq!(ai, vec![(1, 2), (3, 1), (4, 3)]);
    let mut s = BlackjackState::default();
    s.opponent_faction = -1;
    default_opponent(&mut s, &ai, -1);
    assert_eq!((s.opponent_faction, s.opponent_town_idx), (2, 1));
    default_opponent(&mut s, &vec![(4, 3)], -1);
    assert_eq!((s.opponent_faction, s.opponent_town_idx), (2, 1));
}
