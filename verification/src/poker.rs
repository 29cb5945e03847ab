//! Poker hands of five cards: what a hand is worth, and which of two hands wins.
use crate::text::{chars_of, push_char};
use vstd::prelude::*;
use vstd::string::StringExecFns;

verus! {

/// A card. Cards are ordered from the numbers up to the ace.
#[derive(PartialEq, Eq, Copy, Clone, Hash, Ord, PartialOrd, Debug, Structural)]
pub enum Card {
    Numeric(u8),
    Jack,
    Queen,
    King,
    Ace,
}

/// What a hand is worth, from the least to the most.
#[derive(Copy, Clone, Debug, Eq, PartialEq, Ord, PartialOrd, Structural)]
pub enum HandValue {
    /// All five cards are different.
    HighCard,
    /// There is exactly one pair of equal cards.
    OnePair,
    /// There are two pairs of equal cards.
    TwoPairs,
    /// There are three equal cards.
    ThreeOfAKind,
    /// There are three equal cards and a pair of others.
    FullHouse,
    /// There are four equal cards.
    FourOfAKind,
    /// All five cards are equal.
    FiveOfAKind,
}

/// A hand of five cards, together with what it is worth. Hands are ordered
/// by their worth first and then card by card, from the left.
#[derive(Debug, Eq, PartialEq, Ord, PartialOrd)]
pub struct Hand {
    value: HandValue,
    cards: [Card; 5],
}

/// The place of a card among all cards: the larger, the higher the card.
pub open spec fn card_key(c: Card) -> int {
    match c {
        Card::Numeric(n) => n as int,
        Card::Jack => 256,
        Card::Queen => 257,
        Card::King => 258,
        Card::Ace => 259,
    }
}

/// The place of a worth among all worths.
pub open spec fn value_key(v: HandValue) -> int {
    match v {
        HandValue::HighCard => 0,
        HandValue::OnePair => 1,
        HandValue::TwoPairs => 2,
        HandValue::ThreeOfAKind => 3,
        HandValue::FullHouse => 4,
        HandValue::FourOfAKind => 5,
        HandValue::FiveOfAKind => 6,
    }
}

/// The number of positions `j` with `i < j < n` at which the same card
/// lies as at position `i`.
pub open spec fn twins_after(cards: Seq<Card>, i: int, n: int) -> nat
    decreases n - i,
{
    if n <= i + 1 {
        0
    } else {
        twins_after(cards, i, n - 1) + if cards[n - 1] == cards[i] {
            1nat
        } else {
            0nat
        }
    }
}

/// The number of pairs of positions `i < j`, with `i < n`, at which the same
/// card lies.
pub open spec fn equal_pairs(cards: Seq<Card>, n: int) -> nat
    decreases n,
{
    if n <= 0 {
        0
    } else {
        equal_pairs(cards, n - 1) + twins_after(cards, n - 1, cards.len() as int)
    }
}

/// What five cards are worth. The worth follows from the number of pairs
/// of equal cards among them: none when all differ, one for a pair, two for
/// two pairs, three for three of a kind, four for a full house, six for four
/// of a kind and ten when all are equal.
pub open spec fn hand_value(cards: Seq<Card>) -> HandValue {
    let pairs = equal_pairs(cards, cards.len() as int);
    if pairs == 0 {
        HandValue::HighCard
    } else if pairs == 1 {
        HandValue::OnePair
    } else if pairs == 2 {
        HandValue::TwoPairs
    } else if pairs == 3 {
        HandValue::ThreeOfAKind
    } else if pairs == 4 {
        HandValue::FullHouse
    } else if pairs <= 6 {
        HandValue::FourOfAKind
    } else {
        HandValue::FiveOfAKind
    }
}

/// How the cards `a` stand to the cards `b` from position `i` on: -1, 0 or
/// 1, decided by the first position at which they differ.
pub open spec fn cards_order(a: Seq<Card>, b: Seq<Card>, i: int) -> int
    decreases a.len() - i,
{
    if i >= a.len() || i >= b.len() {
        0
    } else if card_key(a[i]) < card_key(b[i]) {
        -1
    } else if card_key(a[i]) > card_key(b[i]) {
        1
    } else {
        cards_order(a, b, i + 1)
    }
}

/// The card that `c` stands for.
pub open spec fn card_of(c: char) -> Option<Card> {
    if c == 'A' {
        Some(Card::Ace)
    } else if c == 'K' {
        Some(Card::King)
    } else if c == 'Q' {
        Some(Card::Queen)
    } else if c == 'J' {
        Some(Card::Jack)
    } else if c == 'T' {
        Some(Card::Numeric(10))
    } else if '2' <= c <= '9' {
        Some(Card::Numeric((c as u32 - 48) as u8))
    } else {
        None
    }
}

/// The card that `c` stands for.
fn parse_card(c: char) -> (card: Option<Card>)
    ensures
        card == card_of(c),
{
    let u: u32 = c as u32;
    if u == 65 {
        Some(Card::Ace)
    } else if u == 75 {
        Some(Card::King)
    } else if u == 81 {
        Some(Card::Queen)
    } else if u == 74 {
        Some(Card::Jack)
    } else if u == 84 {
        Some(Card::Numeric(10))
    } else if 50 <= u && u <= 57 {
        Some(Card::Numeric((u - 48) as u8))
    } else {
        None
    }
}

/// The place of a card among all cards.
fn key_of(c: Card) -> (k: u16)
    ensures
        k == card_key(c),
{
    match c {
        Card::Numeric(n) => n as u16,
        Card::Jack => 256,
        Card::Queen => 257,
        Card::King => 258,
        Card::Ace => 259,
    }
}

/// The place of a worth among all worths.
fn rank_of(v: HandValue) -> (k: u8)
    ensures
        k == value_key(v),
{
    match v {
        HandValue::HighCard => 0,
        HandValue::OnePair => 1,
        HandValue::TwoPairs => 2,
        HandValue::ThreeOfAKind => 3,
        HandValue::FullHouse => 4,
        HandValue::FourOfAKind => 5,
        HandValue::FiveOfAKind => 6,
    }
}

/// What five cards are worth.
pub fn value_of(cards: &[Card; 5]) -> (v: HandValue)
    ensures
        v == hand_value(cards@),
{
    let mut pairs: u8 = 0;
    let mut i: usize = 0;
    while i < 5
        invariant
            i <= 5,
            cards@.len() == 5,
            pairs == equal_pairs(cards@, i as int),
            pairs <= 4 * i,
        decreases 5 - i,
    {
        let mut twins: u8 = 0;
        let mut j: usize = i + 1;
        while j < 5
            invariant
                i < j <= 5,
                cards@.len() == 5,
                twins == twins_after(cards@, i as int, j as int),
                twins <= j - i - 1,
            decreases 5 - j,
        {
            if cards[j] == cards[i] {
                twins = twins + 1;
            }
            j = j + 1;
        }
        pairs = pairs + twins;
        i = i + 1;
    }
    if pairs == 0 {
        HandValue::HighCard
    } else if pairs == 1 {
        HandValue::OnePair
    } else if pairs == 2 {
        HandValue::TwoPairs
    } else if pairs == 3 {
        HandValue::ThreeOfAKind
    } else if pairs == 4 {
        HandValue::FullHouse
    } else if pairs <= 6 {
        HandValue::FourOfAKind
    } else {
        HandValue::FiveOfAKind
    }
}

impl Hand {
    /// The cards, from the left.
    pub closed spec fn cards(&self) -> Seq<Card> {
        self.cards@
    }

    /// The hand's invariant: it knows what its cards are worth.
    pub closed spec fn wf(&self) -> bool {
        self.value == hand_value(self.cards@)
    }

    /// How this hand stands to `other`: -1 where it loses, 1 where it
    /// wins, 0 where the two are equal. The worth decides, then the first
    /// position at which the cards differ.
    pub open spec fn order(&self, other: &Hand) -> int {
        if value_key(hand_value(self.cards())) < value_key(hand_value(other.cards())) {
            -1
        } else if value_key(hand_value(self.cards())) > value_key(hand_value(other.cards())) {
            1
        } else {
            cards_order(self.cards(), other.cards(), 0)
        }
    }

    /// The hand with these cards.
    pub fn new(cards: [Card; 5]) -> (hand: Hand)
        ensures
            hand.wf(),
            hand.cards() == cards@,
    {
        Hand { value: value_of(&cards), cards }
    }

    /// What the hand is worth.
    pub fn value(&self) -> (v: HandValue)
        requires
            self.wf(),
        ensures
            v == hand_value(self.cards()),
    {
        self.value
    }

    /// How this hand stands to `other`.
    pub fn compare(&self, other: &Hand) -> (r: i8)
        requires
            self.wf(),
            other.wf(),
        ensures
            r == self.order(other),
    {
        let a = rank_of(self.value);
        let b = rank_of(other.value);
        if a < b {
            return -1;
        }
        if a > b {
            return 1;
        }
        let mut i: usize = 0;
        while i < 5
            invariant
                i <= 5,
                self.cards@.len() == 5,
                other.cards@.len() == 5,
                self.order(other) == cards_order(self.cards@, other.cards@, 0),
                cards_order(self.cards@, other.cards@, 0) == cards_order(
                    self.cards@,
                    other.cards@,
                    i as int,
                ),
            decreases 5 - i,
        {
            let x = key_of(self.cards[i]);
            let y = key_of(other.cards[i]);
            if x < y {
                return -1;
            }
            if x > y {
                return 1;
            }
            i = i + 1;
        }
        0
    }

    /// Reads a hand from five characters: `2` to `9`, `T` for ten, `J`,
    /// `Q`, `K` and `A`.
    pub fn parse(input: &str) -> (res: Result<Hand, String>)
        ensures
            match res {
                Ok(hand) => hand.wf() && input@.len() == 5 && forall|i: int|
                    0 <= i < 5 ==> card_of(input@[i]) == Some(#[trigger] hand.cards()[i]),
                Err(_) => input@.len() != 5 || exists|i: int|
                    0 <= i < input@.len() && card_of(#[trigger] input@[i]) is None,
            },
    {
        let chars = chars_of(input);
        if chars.len() != 5 {
            return Err(String::from_str("Wrong hand length. It has to contain exactly 5 cards"));
        }
        let mut cards: [Card; 5] = [Card::Ace, Card::Ace, Card::Ace, Card::Ace, Card::Ace];
        let mut i: usize = 0;
        while i < 5
            invariant
                i <= 5,
                chars@ == input@,
                chars@.len() == 5,
                forall|k: int| 0 <= k < i ==> card_of(chars@[k]) == Some(#[trigger] cards@[k]),
            decreases 5 - i,
        {
            let c = chars[i];
            match parse_card(c) {
                Some(card) => {
                    cards[i] = card;
                },
                None => {
                    let mut msg = if c == '0' || c == '1' {
                        String::from_str("Invalid card value ")
                    } else {
                        String::from_str("Invalid card ")
                    };
                    push_char(&mut msg, c);
                    assert(card_of(input@[i as int]) is None);
                    return Err(msg);
                },
            }
            i = i + 1;
        }
        Ok(Hand::new(cards))
    }
}

} // verus!
