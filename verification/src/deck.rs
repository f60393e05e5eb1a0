//! Decks of cards: the three ways to build one, shuffling and appending.

use vstd::prelude::*;
use rand::seq::SliceRandom;
use rand::thread_rng;
use crate::card::{Card, CardSuit, CardValue};

verus! {

/// An ordered pile of cards.
#[derive(Debug, Clone, PartialEq)]
pub struct Deck {
    /// The cards in the deck, first card first.
    pub cards: Vec<Card>,
}

impl View for Deck {
    type V = Seq<Card>;

    open spec fn view(&self) -> Seq<Card> {
        self.cards@
    }
}

/// The thirteen cards of one suit, king first and ace last.
pub open spec fn suit_run(suit: CardSuit) -> Seq<Card> {
    Seq::new(13, |k: int| Card { value: CardValue::of_number(13 - k), suit })
}

/// The one-suit deck: four runs of the same suit.
pub open spec fn one_suit_deck(suit: CardSuit) -> Seq<Card> {
    Seq::new(52, |i: int| Card { value: CardValue::of_number(13 - i % 13), suit })
}

/// The two-suit deck: a run of the first suit, a run of the second, and both
/// once more.
pub open spec fn two_suit_deck(suit1: CardSuit, suit2: CardSuit) -> Seq<Card> {
    Seq::new(
        52,
        |i: int|
            Card {
                value: CardValue::of_number(13 - i % 13),
                suit: if (i / 13) % 2 == 0 {
                    suit1
                } else {
                    suit2
                },
            },
    )
}

/// The conventional deck: one run of each suit, in the order of the suits.
pub open spec fn standard_deck() -> Seq<Card> {
    Seq::new(
        52,
        |i: int|
            Card { value: CardValue::of_number(13 - i % 13), suit: CardSuit::of_index(i / 13) },
    )
}

/// The place of a card in the conventional deck.
pub open spec fn standard_index(c: Card) -> int {
    c.suit.index() * 13 + (13 - c.value.number())
}

/// `SliceRandom::shuffle` of rand, driven by `thread_rng()`, reorders the slice
/// in place by swapping pairs of its elements; which order comes out is left to
/// chance, so the contract claims only that the same cards are there, each as
/// often as before. Not proved here. The generator stops the program where the
/// system cannot seed it.
#[verifier::external_body]
fn shuffle_cards(cards: &mut Vec<Card>)
    ensures
        final(cards)@.to_multiset() == old(cards)@.to_multiset(),
{
    cards.shuffle(&mut thread_rng());
}

/// Appends the thirteen cards of a suit, king first.
fn push_suit(cards: &mut Vec<Card>, suit: CardSuit)
    ensures
        final(cards)@ == old(cards)@ + suit_run(suit),
{
    let values = CardValue::all();
    let mut k: usize = 0;
    while k < 13
        invariant
            k <= 13,
            forall|i: int| 0 <= i < 13 ==> (#[trigger] values@[i]).number() == 13 - i,
            cards@ == old(cards)@ + suit_run(suit).take(k as int),
        decreases 13 - k,
    {
        let value = values[k];
        cards.push(Card { value, suit });
        assert(suit_run(suit).take(k as int).push(Card { value, suit }) =~= suit_run(suit).take(
            k as int + 1,
        ));
        k += 1;
    }
}

impl Deck {
    /// The conventional 52-card deck with all four suits.
    pub fn new() -> (deck: Deck)
        ensures
            deck@ == standard_deck(),
    {
        let suits = CardSuit::all();
        let mut cards: Vec<Card> = Vec::with_capacity(52);
        let mut s: usize = 0;
        while s < 4
            invariant
                s <= 4,
                forall|i: int| 0 <= i < 4 ==> (#[trigger] suits@[i]).index() == i,
                cards@ =~= standard_deck().take(13 * s as int),
            decreases 4 - s,
        {
            let suit = suits[s];
            push_suit(&mut cards, suit);
            s += 1;
        }
        Deck { cards }
    }

    /// A 52-card deck of a single suit: four runs of that suit.
    pub fn from_suit(suit: CardSuit) -> (deck: Deck)
        ensures
            deck@ == one_suit_deck(suit),
            deck@.len() == 52,
            forall|i: int| 0 <= i < 52 ==> (#[trigger] deck@[i]).suit == suit,
    {
        let mut cards: Vec<Card> = Vec::with_capacity(52);
        let mut rep: usize = 0;
        while rep < 4
            invariant
                rep <= 4,
                cards@ =~= one_suit_deck(suit).take(13 * rep as int),
            decreases 4 - rep,
        {
            push_suit(&mut cards, suit);
            rep += 1;
        }
        Deck { cards }
    }

    /// A 52-card deck of two suits: a run of the first, a run of the second,
    /// and both once more.
    pub fn from_suits(suit1: CardSuit, suit2: CardSuit) -> (deck: Deck)
        ensures
            deck@ == two_suit_deck(suit1, suit2),
    {
        let mut cards: Vec<Card> = Vec::with_capacity(52);
        let mut rep: usize = 0;
        while rep < 2
            invariant
                rep <= 2,
                cards@ =~= two_suit_deck(suit1, suit2).take(26 * rep as int),
            decreases 2 - rep,
        {
            push_suit(&mut cards, suit1);
            push_suit(&mut cards, suit2);
            rep += 1;
        }
        Deck { cards }
    }

    /// Puts the cards in a random order. The deck holds the same cards
    /// afterwards, each as often as before.
    pub fn shuffle(&mut self)
        ensures
            final(self)@.to_multiset() == old(self)@.to_multiset(),
            final(self)@.len() == old(self)@.len(),
    {
        let ghost before = self.cards@;
        shuffle_cards(&mut self.cards);
        proof {
            before.to_multiset_ensures();
            self.cards@.to_multiset_ensures();
        }
    }

    /// Moves every card of `other` to the end of this deck, in order, and
    /// leaves `other` empty.
    pub fn append(&mut self, other: &mut Deck)
        ensures
            final(self)@ == old(self)@ + old(other)@,
            final(self)@.len() == old(self)@.len() + old(other)@.len(),
            final(other)@.len() == 0,
    {
        self.cards.append(&mut other.cards);
    }

    /// Merges the cards of `deck2` into this deck, after the cards it holds.
    pub fn combine(&mut self, deck2: Deck)
        ensures
            final(self)@ == old(self)@ + deck2@,
            final(self)@.len() == old(self)@.len() + deck2@.len(),
    {
        let mut moved = deck2;
        self.append(&mut moved);
    }
}

impl Default for Deck {
    fn default() -> (deck: Deck)
        ensures
            deck@ == standard_deck(),
    {
        Deck::new()
    }
}

/// The conventional deck holds every pair of a rank and a suit exactly once:
/// each card has its one place among the 52, and each place holds the card
/// that belongs there.
pub proof fn lemma_standard_deck_complete(c: Card, i: int)
    ensures
        standard_deck().len() == 52,
        0 <= standard_index(c) < 52,
        standard_deck()[standard_index(c)] == c,
        0 <= i < 52 && standard_deck()[i] == c ==> i == standard_index(c),
{
}

/// A one-suit deck holds 52 cards, none of another suit, and each rank four
/// times: once in each run of thirteen.
pub proof fn lemma_one_suit_deck(suit: CardSuit, value: CardValue, i: int)
    ensures
        one_suit_deck(suit).len() == 52,
        0 <= i < 52 ==> one_suit_deck(suit)[i].suit == suit,
        0 <= i < 52 ==> (one_suit_deck(suit)[i].value == value <==> i % 13 == 13 - value.number()),
{
}

/// A two-suit deck holds 52 cards in four runs of thirteen: the first and the
/// third run are of the first suit, the second and the fourth of the second,
/// and each run goes from the king down to the ace.
pub proof fn lemma_two_suit_deck(suit1: CardSuit, suit2: CardSuit, i: int)
    requires
        0 <= i < 52,
    ensures
        two_suit_deck(suit1, suit2).len() == 52,
        0 <= i < 13 || 26 <= i < 39 ==> two_suit_deck(suit1, suit2)[i].suit == suit1,
        13 <= i < 26 || 39 <= i < 52 ==> two_suit_deck(suit1, suit2)[i].suit == suit2,
        two_suit_deck(suit1, suit2)[i].value.number() == 13 - i % 13,
{
}

} // verus!
