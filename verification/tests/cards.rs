use spidertaire::{Card, CardSuit, CardValue, Deck, InvalidRank};

fn ranks() -> Vec<CardValue> {
    CardValue::all().to_vec()
}

#[test]
fn all_ranks_descend_from_king_to_ace() {
    let all = CardValue::all();
    assert_eq!(all.len(), 13);
    assert_eq!(all[0], CardValue::K);
    assert_eq!(all[3], CardValue::Ten);
    assert_eq!(all[12], CardValue::A);
    for (i, r) in all.iter().enumerate() {
        assert_eq!(u8::from(*r), 13 - i as u8);
    }
}

#[test]
fn previous_of_king_is_none_and_of_seven_is_eight() {
    assert_eq!(CardValue::K.previous(), None);
    assert_eq!(CardValue::Seven.previous(), Some(CardValue::Eight));
    assert_eq!(CardValue::A.previous(), Some(CardValue::Two));
}

#[test]
fn next_of_ace_is_none_and_of_seven_is_six() {
    assert_eq!(CardValue::A.next(), None);
    assert_eq!(CardValue::Seven.next(), Some(CardValue::Six));
    assert_eq!(CardValue::K.next(), Some(CardValue::Q));
}

#[test]
fn steps_round_trip_for_every_rank() {
    for r in ranks() {
        match r.next() {
            Some(lower) => assert_eq!(lower.previous(), Some(r)),
            None => assert_eq!(r, CardValue::A),
        }
        match r.previous() {
            Some(higher) => assert_eq!(higher.next(), Some(r)),
            None => assert_eq!(r, CardValue::K),
        }
    }
}

#[test]
fn rank_numbers() {
    let value: u8 = CardValue::K.into();
    assert_eq!(value, 13);
    let value: u8 = CardValue::A.into();
    assert_eq!(value, 1);
    let value: u8 = CardValue::Ten.into();
    assert_eq!(value, 10);
}

#[test]
fn rank_from_number() {
    assert_eq!(CardValue::try_from(13), Ok(CardValue::K));
    assert_eq!(CardValue::try_from(1), Ok(CardValue::A));
    assert_eq!(CardValue::try_from(11), Ok(CardValue::J));
    assert!(CardValue::try_from(100).is_err());
    assert_eq!(CardValue::try_from(0), Err(InvalidRank { value: 0 }));
    assert_eq!(CardValue::try_from(14), Err(InvalidRank { value: 14 }));
    assert_eq!(CardValue::try_from(100), Err(InvalidRank { value: 100 }));
}

#[test]
fn rank_number_round_trip() {
    for r in ranks() {
        assert_eq!(CardValue::try_from(u8::from(r)), Ok(r));
    }
    for n in 1u8..=13 {
        assert_eq!(u8::from(CardValue::try_from(n).unwrap()), n);
    }
    for n in 14u8..=255 {
        assert_eq!(CardValue::try_from(n), Err(InvalidRank { value: n }));
    }
}

#[test]
fn invalid_rank_message_names_the_number() {
    assert_eq!(InvalidRank { value: 100 }.message(), "Unexpected card value: 100");
    assert_eq!(InvalidRank { value: 0 }.message(), "Unexpected card value: 0");
    assert_eq!(InvalidRank { value: 14 }.message(), "Unexpected card value: 14");
    assert_eq!(InvalidRank { value: 255 }.message(), "Unexpected card value: 255");
    assert_eq!(InvalidRank { value: 107 }.message(), "Unexpected card value: 107");
}

#[test]
fn rank_labels() {
    let labels: Vec<&str> = CardValue::all().iter().map(|r| r.as_str()).collect();
    assert_eq!(
        labels,
        vec!["K", "Q", "J", "10", "9", "8", "7", "6", "5", "4", "3", "2", "A"]
    );
}

#[test]
fn suits_and_glyphs() {
    assert_eq!(
        CardSuit::all(),
        [CardSuit::Hearts, CardSuit::Diamonds, CardSuit::Clubs, CardSuit::Spades]
    );
    assert_eq!(CardSuit::Hearts.as_str(), "\u{2665}");
    assert_eq!(CardSuit::Diamonds.as_str(), "\u{2666}");
    assert_eq!(CardSuit::Clubs.as_str(), "\u{2663}");
    assert_eq!(CardSuit::Spades.as_str(), "\u{2660}");
}

#[test]
fn red_and_black_suits() {
    assert!(CardSuit::Hearts.is_red());
    assert!(CardSuit::Diamonds.is_red());
    assert!(!CardSuit::Clubs.is_red());
    assert!(!CardSuit::Spades.is_red());
}

#[test]
fn cards_are_equal_when_rank_and_suit_are() {
    let a = Card { value: CardValue::Nine, suit: CardSuit::Clubs };
    assert_eq!(a, Card { value: CardValue::Nine, suit: CardSuit::Clubs });
    assert_ne!(a, Card { value: CardValue::Nine, suit: CardSuit::Spades });
    assert_ne!(a, Card { value: CardValue::Eight, suit: CardSuit::Clubs });
}

#[test]
fn standard_deck_has_every_card_once() {
    let deck = Deck::new();
    assert_eq!(deck.cards.len(), 52);
    for suit in CardSuit::all() {
        for value in CardValue::all() {
            let card = Card { value, suit };
            assert_eq!(deck.cards.iter().filter(|c| **c == card).count(), 1);
        }
    }
    assert_eq!(deck.cards[0], Card { value: CardValue::K, suit: CardSuit::Hearts });
    assert_eq!(deck.cards[12], Card { value: CardValue::A, suit: CardSuit::Hearts });
    assert_eq!(deck.cards[13], Card { value: CardValue::K, suit: CardSuit::Diamonds });
    assert_eq!(deck.cards[30], Card { value: CardValue::Nine, suit: CardSuit::Clubs });
    assert_eq!(deck.cards[51], Card { value: CardValue::A, suit: CardSuit::Spades });
    assert_eq!(Deck::default(), deck);
}

#[test]
fn one_suit_deck_has_only_that_suit() {
    let deck = Deck::from_suit(CardSuit::Spades);
    assert_eq!(deck.cards.len(), 52);
    assert!(deck
        .cards
        .iter()
        .find(|card| card.suit == CardSuit::Hearts
            || card.suit == CardSuit::Diamonds
            || card.suit == CardSuit::Clubs)
        .is_none());
    for value in CardValue::all() {
        assert_eq!(deck.cards.iter().filter(|c| c.value == value).count(), 4);
    }
    for (i, card) in deck.cards.iter().enumerate() {
        assert_eq!(u8::from(card.value), 13 - (i % 13) as u8);
    }
}

#[test]
fn two_suit_deck_alternates_in_runs() {
    let deck = Deck::from_suits(CardSuit::Spades, CardSuit::Hearts);
    assert_eq!(deck.cards.len(), 52);
    assert!(deck
        .cards
        .iter()
        .find(|card| card.suit == CardSuit::Diamonds || card.suit == CardSuit::Clubs)
        .is_none());
    for (i, card) in deck.cards.iter().enumerate() {
        let suit = if (i / 13) % 2 == 0 { CardSuit::Spades } else { CardSuit::Hearts };
        assert_eq!(card.suit, suit);
        assert_eq!(u8::from(card.value), 13 - (i % 13) as u8);
    }
}

fn sorted_keys(deck: &Deck) -> Vec<(u8, &'static str)> {
    let mut keys: Vec<(u8, &'static str)> =
        deck.cards.iter().map(|c| (u8::from(c.value), c.suit.as_str())).collect();
    keys.sort();
    keys
}

#[test]
fn shuffle_changes_the_order() {
    let mut deck = Deck::new();
    deck.shuffle();
    assert!(deck != Deck::new());
    let shuffle1 = deck.clone();
    deck.shuffle();
    assert!(deck != shuffle1);
}

#[test]
fn shuffle_keeps_the_cards() {
    let mut deck = Deck::new();
    deck.combine(Deck::from_suit(CardSuit::Clubs));
    let before = sorted_keys(&deck);
    deck.shuffle();
    assert_eq!(deck.cards.len(), 104);
    assert_eq!(sorted_keys(&deck), before);
}

#[test]
fn combine_appends_in_order() {
    let mut deck = Deck::new();
    deck.combine(Deck::new());
    assert_eq!(deck.cards.len(), 104);
    let mut a = Deck::from_suit(CardSuit::Hearts);
    a.combine(Deck::from_suit(CardSuit::Clubs));
    assert_eq!(&a.cards[..52], &Deck::from_suit(CardSuit::Hearts).cards[..]);
    assert_eq!(&a.cards[52..], &Deck::from_suit(CardSuit::Clubs).cards[..]);
}

#[test]
fn append_empties_the_source() {
    let mut a = Deck { cards: vec![Card { value: CardValue::K, suit: CardSuit::Hearts }] };
    let mut b = Deck::from_suits(CardSuit::Clubs, CardSuit::Diamonds);
    let b_before = b.clone();
    a.append(&mut b);
    assert_eq!(a.cards.len(), 53);
    assert!(b.cards.is_empty());
    assert_eq!(a.cards[0], Card { value: CardValue::K, suit: CardSuit::Hearts });
    assert_eq!(&a.cards[1..], &b_before.cards[..]);
}
