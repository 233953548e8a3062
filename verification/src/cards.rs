//! Playing cards and blackjack hand arithmetic.

use vstd::prelude::*;

verus! {

/// A playing card: `suit` 0-3 (spades, hearts, diamonds, clubs) and
/// `rank` 1-13 (Ace through King).
#[derive(Clone, Copy, Debug)]
pub struct Card {
    pub suit: u8,
    pub rank: u8,
}

/// Blackjack value of a card: court cards and tens count 10, everything
/// else counts its rank (an Ace counts 1 here; see `spec_hand_value`).
pub open spec fn spec_card_value(c: Card) -> nat {
    if c.rank >= 10 {
        10
    } else {
        c.rank as nat
    }
}

/// Label printed in the corner of a card of the given rank.
pub open spec fn spec_rank_str(rank: u8) -> Seq<char> {
    if rank == 1 {
        "A"@
    } else if rank == 2 {
        "2"@
    } else if rank == 3 {
        "3"@
    } else if rank == 4 {
        "4"@
    } else if rank == 5 {
        "5"@
    } else if rank == 6 {
        "6"@
    } else if rank == 7 {
        "7"@
    } else if rank == 8 {
        "8"@
    } else if rank == 9 {
        "9"@
    } else if rank == 10 {
        "10"@
    } else if rank == 11 {
        "J"@
    } else if rank == 12 {
        "Q"@
    } else if rank == 13 {
        "K"@
    } else {
        "?"@
    }
}

/// Suit symbol of a card: spades, hearts, diamonds, and clubs for any other suit.
pub open spec fn spec_suit_str(suit: u8) -> Seq<char> {
    if suit == 0 {
        "\u{2660}"@
    } else if suit == 1 {
        "\u{2665}"@
    } else if suit == 2 {
        "\u{2666}"@
    } else {
        "\u{2663}"@
    }
}

impl Card {
    /// Blackjack value of the card (Ace = 1, 10/J/Q/K = 10).
    pub fn value(self) -> (v: u8)
        ensures
            v == spec_card_value(self),
            v <= 10,
    {
        if self.rank >= 10 {
            10
        } else {
            self.rank
        }
    }

    /// Rank label ("A", "2", ..., "10", "J", "Q", "K", or "?").
    pub fn rank_str(self) -> (s: &'static str)
        ensures
            s@ == spec_rank_str(self.rank),
    {
        match self.rank {
            1 => "A",
            2 => "2",
            3 => "3",
            4 => "4",
            5 => "5",
            6 => "6",
            7 => "7",
            8 => "8",
            9 => "9",
            10 => "10",
            11 => "J",
            12 => "Q",
            13 => "K",
            _ => "?",
        }
    }

    /// Suit symbol of the card.
    pub fn suit_char(self) -> (s: &'static str)
        ensures
            s@ == spec_suit_str(self.suit),
    {
        match self.suit {
            0 => "\u{2660}",
            1 => "\u{2665}",
            2 => "\u{2666}",
            _ => "\u{2663}",
        }
    }

    /// Hearts and diamonds are printed in red.
    pub fn is_red(self) -> (b: bool)
        ensures
            b == (self.suit == 1 || self.suit == 2),
    {
        self.suit == 1 || self.suit == 2
    }
}

/// One hand of cards on the table.
#[derive(Clone, Debug)]
pub struct Hand {
    pub cards: Vec<Card>,
    pub stood: bool,
    pub doubled: bool,
}

impl Default for Hand {
    fn default() -> (h: Self)
        ensures
            h.cards@ == Seq::<Card>::empty(),
            !h.stood,
            !h.doubled,
    {
        Hand { cards: Vec::new(), stood: false, doubled: false }
    }
}

/// Sum of the card values, every Ace counted as 1.
pub open spec fn hard_total(cards: Seq<Card>) -> nat
    decreases cards.len(),
{
    if cards.len() == 0 {
        0
    } else {
        hard_total(cards.drop_last()) + spec_card_value(cards.last())
    }
}

/// The hand holds at least one Ace.
pub open spec fn has_ace(cards: Seq<Card>) -> bool {
    exists|i: int| 0 <= i < cards.len() && #[trigger] cards[i].rank == 1
}

/// One Ace of the hand can count 11 without going over 21.
pub open spec fn is_soft(cards: Seq<Card>) -> bool {
    has_ace(cards) && hard_total(cards) + 10 <= 21
}

/// Best blackjack total of a hand.
pub open spec fn spec_hand_value(cards: Seq<Card>) -> nat {
    if is_soft(cards) {
        hard_total(cards) + 10
    } else {
        hard_total(cards)
    }
}

/// Exactly two cards totalling 21.
pub open spec fn spec_is_blackjack(cards: Seq<Card>) -> bool {
    cards.len() == 2 && spec_hand_value(cards) == 21
}

/// The byte-wide running sums of `hand_value` stay in range for this hand.
pub open spec fn hand_value_fits(cards: Seq<Card>) -> bool {
    hard_total(cards) <= 255 && (has_ace(cards) ==> hard_total(cards) <= 245)
}

/// Every card is worth at most 10.
pub proof fn lemma_hard_total_bound(cards: Seq<Card>)
    ensures
        hard_total(cards) <= 10 * cards.len(),
    decreases cards.len(),
{
    if cards.len() > 0 {
        lemma_hard_total_bound(cards.drop_last());
    }
}

/// Adding cards never lowers the hard total.
pub proof fn lemma_hard_total_prefix(cards: Seq<Card>, k: int)
    requires
        0 <= k <= cards.len(),
    ensures
        hard_total(cards.take(k)) <= hard_total(cards),
    decreases cards.len() - k,
{
    if k < cards.len() {
        lemma_hard_total_prefix(cards, k + 1);
        assert(cards.take(k + 1).drop_last() =~= cards.take(k));
    } else {
        assert(cards.take(k) =~= cards);
    }
}

/// Hard total of a hand after one more card.
pub proof fn lemma_hard_total_push(cards: Seq<Card>, c: Card)
    ensures
        hard_total(cards.push(c)) == hard_total(cards) + spec_card_value(c),
        has_ace(cards.push(c)) == (has_ace(cards) || c.rank == 1),
{
    assert(cards.push(c).drop_last() =~= cards);
    if has_ace(cards) {
        let i = choose|i: int| 0 <= i < cards.len() && #[trigger] cards[i].rank == 1;
        assert(cards.push(c)[i].rank == 1);
    }
    if c.rank == 1 {
        assert(cards.push(c)[cards.len() as int].rank == 1);
    }
    if has_ace(cards.push(c)) && c.rank != 1 {
        let i = choose|i: int| 0 <= i < cards.push(c).len() && #[trigger] cards.push(c)[i].rank == 1;
        assert(cards[i].rank == 1);
    }
}

/// Blackjack total of a hand and whether it is soft (an Ace counted as 11).
pub fn hand_value(cards: &[Card]) -> (r: (u8, bool))
    requires
        hand_value_fits(cards@),
    ensures
        r.0 == spec_hand_value(cards@),
        r.1 == is_soft(cards@),
{
    let mut hard: u8 = 0;
    let mut ace = false;
    let mut i: usize = 0;
    while i < cards.len()
        invariant
            i <= cards@.len(),
            hand_value_fits(cards@),
            hard == hard_total(cards@.take(i as int)),
            ace == has_ace(cards@.take(i as int)),
        decreases cards@.len() - i,
    {
        let c = cards[i];
        proof {
            assert(cards@.take(i as int).push(c) =~= cards@.take(i + 1));
            lemma_hard_total_push(cards@.take(i as int), c);
            lemma_hard_total_prefix(cards@, i + 1);
        }
        hard = hard + c.value();
        if c.rank == 1 {
            ace = true;
        }
        i = i + 1;
    }
    proof {
        assert(cards@.take(i as int) =~= cards@);
    }
    if ace && hard + 10 <= 21 {
        (hard + 10, true)
    } else {
        (hard, false)
    }
}

/// Two cards totalling 21: an Ace and a ten-valued card.
pub fn is_blackjack(cards: &[Card]) -> (b: bool)
    ensures
        b == spec_is_blackjack(cards@),
{
    if cards.len() == 2 {
        proof {
            lemma_hard_total_bound(cards@);
        }
        hand_value(cards).0 == 21
    } else {
        false
    }
}

} // verus!
