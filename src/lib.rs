//! A Klondike solitaire engine: cards, the stock and waste deck, the
//! tableau piles and foundations, a two-phase move between any two of them,
//! and a game that records every action so that each can be undone exactly.

pub mod board;
pub mod card;
pub mod containers;
pub mod deck;
pub mod expiry;
pub mod foundation;
pub mod game;
pub mod pile;
