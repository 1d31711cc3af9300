//! A turn-based accumulating-total card game ("ninety-nine") with verified
//! rules: the card model, the deck, the player policies, the round state
//! machine and the round-robin schedule of a tournament.

pub mod card;
pub mod deck;
pub mod player;
pub mod round;
pub mod tournament;
pub mod words;
