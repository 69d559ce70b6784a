//! Small games played in a channel.

pub mod russian_roulette;
pub mod wordle;
