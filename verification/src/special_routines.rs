//! Special routines that scripts and the overworld call by name.
pub mod day_care;
pub mod day_care_withdrawal;
pub mod slot_machine;
pub mod slot_reel3;
pub mod card_flip;
pub mod memory_game;
pub mod battle_tower_opponent;
pub mod tokens;
pub mod bug_contest;
pub mod errors;
pub mod battle_tower;
pub mod checks;
pub mod ratings;
pub mod gifts;
pub mod happiness;
pub mod numbers;
pub mod unown;
pub mod lucky_number;
pub mod game_corner;
pub mod odd_egg;
pub mod buena;
pub mod roaming;
pub mod spawn_points;
pub mod catalog;
pub mod saved;
pub mod healing;
pub mod party_checks;
