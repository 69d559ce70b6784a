//! Ordis: the rules of a tabletop-RPG Discord bot (dice, colours, formulas,
//! spells, word games) as a verified library.

pub mod text;
pub mod common;
pub mod rpg;
pub mod dice;
pub mod llm;
pub mod games;
pub mod dictionary;
pub mod stat_puller;
pub mod voice;
pub mod bot;
pub mod admin;
