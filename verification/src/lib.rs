//! Rules engine of a Spider-Solitaire-style card game: cards and decks, the
//! tableau, legal moves, move execution with cascade and reveal, and the
//! dealing of reserve groups.

pub mod card;
pub mod deck;
pub mod game;
pub mod tableau;

pub use card::{Card, CardSuit, CardValue, InvalidRank};
pub use deck::Deck;
pub use game::{Available, Difficulty, Game};
pub use tableau::{GridPosition, LegalMove, PlacedCard, Visibility};
