use endless_ui::betting::{all_in_amount, check_bet, parse_bet, place_bet, BetCheck};
use endless_ui::blackjack::{BlackjackPhase, BlackjackState};
use endless_ui::cards::Card;

#[test]
fn bet_box_reads_trimmed_integers() {
    assert_eq!(parse_bet("25"), 25);
    assert_eq!(parse_bet("  25 \t"), 25);
    assert_eq!(parse_bet("+7"), 7);
    assert_eq!(parse_bet("-5"), -5);
    assert_eq!(parse_bet("\u{3000}12\u{a0}"), 12);
    assert_eq!(parse_bet("2147483647"), 2147483647);
    assert_eq!(parse_bet("-2147483648"), -2147483648);
}

#[test]
fn bet_box_reads_zero_for_anything_else() {
    assert_eq!(parse_bet(""), 0);
    assert_eq!(parse_bet("   "), 0);
    assert_eq!(parse_bet("abc"), 0);
    assert_eq!(parse_bet("1 2"), 0);
    assert_eq!(parse_bet("+"), 0);
    assert_eq!(parse_bet("-"), 0);
    assert_eq!(parse_bet("+-3"), 0);
    assert_eq!(parse_bet("2147483648"), 0);
    assert_eq!(parse_bet("99999999999999999999"), 0);
    assert_eq!(parse_bet("12x"), 0);
}

#[test]
fn bet_box_agrees_with_std() {
    for s in [
        "0", "007", " 42", "4 2", "-0", "+0", "1e3", "\n-13\n", "٣", "12345678901", "-2147483649",
        "\u{85}5", "\u{200b}5",
    ] {
        assert_eq!(parse_bet(s), s.trim().parse::<i32>().unwrap_or(0), "input {s:?}");
    }
}

#[test]
fn bets_are_checked_against_both_purses() {
    assert_eq!(check_bet(10, 20, 30), BetCheck::Ready);
    assert_eq!(check_bet(0, 20, 30), BetCheck::NoBet);
    assert_eq!(check_bet(-4, 20, 30), BetCheck::NoBet);
    assert_eq!(check_bet(25, 20, 30), BetCheck::NotEnoughGold);
    assert_eq!(check_bet(25, 26, 24), BetCheck::OpponentShort);
    assert_eq!(check_bet(20, 20, 20), BetCheck::Ready);
    assert_eq!(all_in_amount(50, 30), 30);
    assert_eq!(all_in_amount(30, 50), 30);
}

#[test]
fn deal_button_places_the_typed_bet() {
    let mut s = BlackjackState::default();
    s.bet_input = " 15 ".to_string();
    s.shoe = (0..20).map(|_| Card { suit: 0, rank: 9 }).collect();
    assert!(place_bet(&mut s, 100, 100));
    assert_eq!(s.bet, 15);
    assert_eq!(s.total_bets, vec![15]);
    assert_eq!(s.player_hands[0].cards.len(), 2);
    assert_eq!(s.phase, BlackjackPhase::PlayerTurn);
}

#[test]
fn deal_button_does_nothing_on_a_bad_bet() {
    let mut s = BlackjackState::default();
    s.bet_input = "500".to_string();
    assert!(!place_bet(&mut s, 100, 1000));
    assert_eq!(s.phase, BlackjackPhase::Betting);
    assert_eq!(s.bet, 0);
    assert!(s.player_hands.is_empty());
}
