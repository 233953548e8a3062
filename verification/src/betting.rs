//! The betting screen of the blackjack table: reading the typed bet,
//! checking it against both purses, and dealing.

use vstd::prelude::*;

use crate::blackjack::{BlackjackState, dealt_round, deal};
use crate::text::{spec_trim, trim_range};

verus! {

/// An ASCII decimal digit.
pub open spec fn is_digit(c: char) -> bool {
    48 <= (c as u32) <= 57
}

/// Decimal value of a string of digits.
pub open spec fn digits_value(d: Seq<char>) -> int
    decreases d.len(),
{
    if d.len() == 0 {
        0
    } else {
        10 * digits_value(d.drop_last()) + ((d.last() as u32) - 48)
    }
}

/// Length of a leading `+` or `-` sign.
pub open spec fn sign_len(t: Seq<char>) -> int {
    if t.len() > 0 && (t[0] == '-' || t[0] == '+') {
        1
    } else {
        0
    }
}

/// `i32::from_str`: an optional `+` or `-`, then one or more ASCII digits,
/// with a value inside the `i32` range; anything else is an error (`None`).
pub open spec fn spec_parse_i32(t: Seq<char>) -> Option<i32> {
    let body = t.skip(sign_len(t));
    let neg = t.len() > 0 && t[0] == '-';
    if body.len() == 0 || !(forall|i: int| 0 <= i < body.len() ==> is_digit(#[trigger] body[i])) {
        None
    } else {
        let v = if neg {
            -digits_value(body)
        } else {
            digits_value(body)
        };
        if i32::MIN <= v <= i32::MAX {
            Some(v as i32)
        } else {
            None
        }
    }
}

/// The bet typed in the bet box: the trimmed text read as an `i32`, or 0
/// when it is not one.
pub open spec fn spec_bet_amount(input: Seq<char>) -> i32 {
    match spec_parse_i32(spec_trim(input)) {
        Some(v) => v,
        None => 0,
    }
}

proof fn lemma_digits_value_nonneg(d: Seq<char>)
    requires
        forall|i: int| 0 <= i < d.len() ==> is_digit(#[trigger] d[i]),
    ensures
        digits_value(d) >= 0,
    decreases d.len(),
{
    if d.len() > 0 {
        lemma_digits_value_nonneg(d.drop_last());
    }
}

proof fn lemma_digits_value_prefix(d: Seq<char>, k: int)
    requires
        0 <= k <= d.len(),
        forall|i: int| 0 <= i < d.len() ==> is_digit(#[trigger] d[i]),
    ensures
        digits_value(d.take(k)) <= digits_value(d),
    decreases d.len() - k,
{
    if k < d.len() {
        lemma_digits_value_prefix(d, k + 1);
        assert(d.take(k + 1).drop_last() =~= d.take(k));
        lemma_digits_value_nonneg(d.take(k));
    } else {
        assert(d.take(k) =~= d);
    }
}

/// Reads the bet box: `input.trim().parse::<i32>()`, or 0 when that fails.
pub fn parse_bet(input: &str) -> (bet: i32)
    ensures
        bet == spec_bet_amount(input@),
{
    let ghost s = input@;
    let (a, b) = trim_range(input);
    let ghost t = s.subrange(a as int, b as int);
    assert(t == spec_trim(s));
    if a == b {
        return 0;
    }
    let first = input.get_char(a);
    let neg = first == '-';
    let start: usize = if first == '-' || first == '+' {
        a + 1
    } else {
        a
    };
    assert(t[0] == first);
    assert(sign_len(t) == start - a);
    let ghost body = t.skip(sign_len(t));
    assert(body =~= s.subrange(start as int, b as int));
    if start == b {
        return 0;
    }
    let mut acc: i64 = 0;
    let mut j: usize = start;
    while j < b
        invariant
            s == input@,
            a <= start <= j <= b <= s.len(),
            body == s.subrange(start as int, b as int),
            t == spec_trim(s),
            body == t.skip(sign_len(t)),
            forall|i: int| start <= i < j ==> is_digit(#[trigger] s[i]),
            acc == digits_value(s.subrange(start as int, j as int)),
            0 <= acc <= 2147483648,
        decreases b - j,
    {
        let c = input.get_char(j);
        let u = c as u32;
        assert(c == s[j as int]);
        if u < 48 || u > 57 {
            proof {
                assert(body[j - start] == s[j as int]);
                assert(!is_digit(body[j - start]));
                assert(!(forall|i: int| 0 <= i < body.len() ==> is_digit(#[trigger] body[i])));
                assert(spec_parse_i32(t) is None);
            }
            return 0;
        }
        proof {
            assert(s.subrange(start as int, j + 1).drop_last() =~= s.subrange(start as int, j as int));
            assert(s.subrange(start as int, j + 1).last() == c);
        }
        acc = acc * 10 + (u - 48) as i64;
        assert(acc == digits_value(s.subrange(start as int, j + 1)));
        if acc > 2147483648 {
            proof {
                assert(body.take(j + 1 - start) =~= s.subrange(start as int, j + 1));
                if forall|i: int| 0 <= i < body.len() ==> is_digit(#[trigger] body[i]) {
                    lemma_digits_value_prefix(body, j + 1 - start);
                    assert(digits_value(body) > 2147483648);
                }
                assert(spec_parse_i32(t) is None);
            }
            return 0;
        }
        j = j + 1;
    }
    proof {
        assert(s.subrange(start as int, j as int) =~= body);
        assert forall|i: int| 0 <= i < body.len() implies is_digit(#[trigger] body[i]) by {
            assert(body[i] == s[start + i]);
        }
    }
    if neg {
        if acc <= 2147483648 {
            (-acc) as i32
        } else {
            0
        }
    } else {
        if acc <= 2147483647 {
            acc as i32
        } else {
            0
        }
    }
}

/// Verdict on a bet before dealing.
#[derive(Clone, Copy, Debug, PartialEq, Eq, Structural)]
pub enum BetCheck {
    /// The bet can be dealt.
    Ready,
    /// No positive bet entered; nothing to report.
    NoBet,
    /// "Not enough gold!"
    NotEnoughGold,
    /// "Opponent doesn't have enough gold!"
    OpponentShort,
}

/// Checks a bet against the player's and the opponent's gold.
pub fn check_bet(bet: i32, player_gold: i32, opponent_gold: i32) -> (r: BetCheck)
    ensures
        (r == BetCheck::Ready) == (1 <= bet && bet <= player_gold && bet <= opponent_gold),
        (r == BetCheck::NoBet) == (bet < 1),
        (r == BetCheck::NotEnoughGold) == (bet >= 1 && bet > player_gold),
        (r == BetCheck::OpponentShort) == (bet >= 1 && bet <= player_gold && bet > opponent_gold),
{
    if bet < 1 {
        BetCheck::NoBet
    } else if bet > player_gold {
        BetCheck::NotEnoughGold
    } else if bet > opponent_gold {
        BetCheck::OpponentShort
    } else {
        BetCheck::Ready
    }
}

/// The "All-in" bet: as much as both sides can cover.
pub fn all_in_amount(player_gold: i32, opponent_gold: i32) -> (a: i32)
    ensures
        a == (if player_gold <= opponent_gold {
            player_gold
        } else {
            opponent_gold
        }),
{
    if player_gold <= opponent_gold {
        player_gold
    } else {
        opponent_gold
    }
}

/// The DEAL button: when the typed bet is positive and both sides can cover
/// it, the bet is placed and a round is dealt. Returns whether it was.
pub fn place_bet(state: &mut BlackjackState, player_gold: i32, opponent_gold: i32) -> (dealt: bool)
    ensures
        dealt == {
            let bet = spec_bet_amount(old(state).bet_input@);
            1 <= bet && bet <= player_gold && bet <= opponent_gold
        },
        dealt ==> final(state).bet == spec_bet_amount(old(state).bet_input@) && dealt_round(
            old(state),
            final(state),
        ) && final(state).wf(),
        !dealt ==> *final(state) == *old(state),
{
    let bet = parse_bet(state.bet_input.as_str());
    match check_bet(bet, player_gold, opponent_gold) {
        BetCheck::Ready => {
            state.bet = bet;
            deal(state);
            true
        },
        _ => false,
    }
}

} // verus!
