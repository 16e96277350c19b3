//! Party Pokemon as the overworld step routines read and write them.
use vstd::prelude::*;
use crate::text::{copy_text, text_eq};

verus! {

pub const PARTY_LENGTH: usize = 6;

/// Species data the step routines read.
#[derive(Debug, PartialEq, Eq)]
pub struct PokemonSpecies {
    pub id: String,
    pub base_hp: u8,
    pub base_attack: u8,
    pub base_defense: u8,
    pub base_speed: u8,
    pub base_special_attack: u8,
    pub base_special_defense: u8,
}

/// Determinant values; the HP value is derived from the other four.
#[derive(Clone, Copy, Debug, PartialEq, Eq, Structural)]
pub struct Dv {
    pub attack: u8,
    pub defense: u8,
    pub speed: u8,
    pub special: u8,
}

/// Time of day a Pokemon was caught or hatched.
#[derive(Clone, Copy, Debug, PartialEq, Eq, Structural)]
pub enum TimeOfDay {
    Morning,
    Day,
    Night,
}

/// Caught-data byte fields.
#[derive(Clone, Copy, Debug, PartialEq, Eq, Structural)]
pub struct CaughtData {
    pub level: u8,
    pub time_of_day: Option<TimeOfDay>,
    pub original_trainer_gender: u8,
    pub location: u8,
}

/// The stats derived from species, level, DVs and stat experience.
#[derive(Clone, Copy, Debug, PartialEq, Eq, Structural)]
pub struct Stats {
    pub max_hp: u16,
    pub attack: u16,
    pub defense: u16,
    pub speed: u16,
    pub special_attack: u16,
    pub special_defense: u16,
}

/// A move a Pokemon knows, with its current PP and PP Ups.
#[derive(Debug, PartialEq, Eq)]
pub struct LearnedMove {
    pub name: String,
    pub current_pp: u8,
    pub pp_ups: u8,
}

/// A party Pokemon.
#[derive(Debug, PartialEq, Eq)]
pub struct Pokemon {
    pub species: PokemonSpecies,
    pub level: u8,
    pub dvs: Dv,
    pub hp_exp: u16,
    pub attack_exp: u16,
    pub defense_exp: u16,
    pub speed_exp: u16,
    pub special_exp: u16,
    pub is_egg: bool,
    pub nickname: String,
    pub happiness: u8,
    pub status: Option<String>,
    pub sleep_turns: u8,
    pub hp: u16,
    pub max_hp: u16,
    pub attack: u16,
    pub defense: u16,
    pub speed: u16,
    pub special_attack: u16,
    pub special_defense: u16,
    pub caught_data: Option<CaughtData>,
    pub original_trainer_id: u16,
    pub original_trainer_name: String,
    pub experience: i32,
    pub item: Option<String>,
    pub moves: Vec<LearnedMove>,
}

/// The most Pokemon a PC box holds.
pub const MAX_BOX_MONS: usize = 20;

/// A PC box: its slots, of which the first `count` are in use.
#[derive(Debug, PartialEq, Eq)]
pub struct PcBox {
    pub count: usize,
    pub pokemon: Vec<Option<Pokemon>>,
}

/// Six party slots.
#[derive(Debug, PartialEq, Eq)]
pub struct Party {
    pub pokemon: Vec<Option<Pokemon>>,
}

impl Party {
    /// An empty party of six slots.
    pub fn empty() -> (p: Self)
        ensures
            p.pokemon@.len() == PARTY_LENGTH,
            forall|i: int| 0 <= i < PARTY_LENGTH ==> p.pokemon@[i] is None,
    {
        let p = Party { pokemon: vec![None, None, None, None, None, None] };
        p
    }
}

/// The HP determinant value, built from the low bits of the other four.
pub open spec fn hp_dv(dvs: Dv) -> nat {
    ((dvs.attack % 2) * 8 + (dvs.defense % 2) * 4 + (dvs.speed % 2) * 2 + dvs.special % 2) as nat
}

/// The smallest root from `r` up whose square reaches `n`, capped at 255.
pub open spec fn stat_exp_root_from(n: nat, r: nat) -> nat
    decreases 255 - r,
{
    if r >= 255 || r * r >= n {
        r
    } else {
        stat_exp_root_from(n, r + 1)
    }
}

/// `min(255, ceil(sqrt(n)))`: the stat-experience bonus root.
pub open spec fn stat_exp_root(n: nat) -> nat {
    stat_exp_root_from(n, 0)
}

/// One non-HP stat.
pub open spec fn stat_value(base: nat, dv: nat, exp: nat, level: nat) -> nat {
    (((base + dv) * 2 + stat_exp_root(exp) / 4) * level) / 100 + 5
}

/// The HP stat.
pub open spec fn hp_value(base: nat, dv: nat, exp: nat, level: nat) -> nat {
    (((base + dv) * 2 + stat_exp_root(exp) / 4) * level) / 100 + level + 10
}

/// All stats, by the Gen II formula.
pub open spec fn stats_of(
    species: PokemonSpecies,
    level: u8,
    dvs: Dv,
    hp_exp: u16,
    attack_exp: u16,
    defense_exp: u16,
    speed_exp: u16,
    special_exp: u16,
) -> Stats {
    Stats {
        max_hp: hp_value(species.base_hp as nat, hp_dv(dvs), hp_exp as nat, level as nat) as u16,
        attack: stat_value(species.base_attack as nat, dvs.attack as nat, attack_exp as nat, level as nat) as u16,
        defense: stat_value(species.base_defense as nat, dvs.defense as nat, defense_exp as nat, level as nat) as u16,
        speed: stat_value(species.base_speed as nat, dvs.speed as nat, speed_exp as nat, level as nat) as u16,
        special_attack: stat_value(species.base_special_attack as nat, dvs.special as nat, special_exp as nat, level as nat) as u16,
        special_defense: stat_value(species.base_special_defense as nat, dvs.special as nat, special_exp as nat, level as nat) as u16,
    }
}

/// The stats a Pokemon should have for its species, level, DVs and stat experience.
pub open spec fn expected_stats(p: Pokemon) -> Stats {
    stats_of(p.species, p.level, p.dvs, p.hp_exp, p.attack_exp, p.defense_exp, p.speed_exp, p.special_exp)
}

fn stat_exp_root_exec(n: u16) -> (r: u32)
    ensures
        r == stat_exp_root(n as nat),
        r <= 255,
{
    let mut r: u32 = 0;
    while r < 255 && r * r < n as u32
        invariant
            r <= 255,
            r * r <= 65025,
            stat_exp_root(n as nat) == stat_exp_root_from(n as nat, r as nat),
        decreases 255 - r,
    {
        r += 1;
        proof {
            assert(r * r <= 65025) by (nonlinear_arith)
                requires
                    r <= 255,
            ;
        }
    }
    r
}

fn stat_exec(base: u8, dv: u8, exp: u16, level: u8) -> (v: u16)
    requires
        dv <= 255,
    ensures
        v == stat_value(base as nat, dv as nat, exp as nat, level as nat) as u16,
        stat_value(base as nat, dv as nat, exp as nat, level as nat) <= u16::MAX,
{
    let root = stat_exp_root_exec(exp);
    let core: u32 = ((base as u32) + (dv as u32)) * 2 + root / 4;
    proof {
        assert(core <= 1084);
        assert(core * (level as u32) <= 1084 * 255) by (nonlinear_arith)
            requires
                core <= 1084,
                level <= 255,
        ;
    }
    let v: u32 = (core * (level as u32)) / 100 + 5;
    v as u16
}

fn hp_exec(base: u8, dv: u8, exp: u16, level: u8) -> (v: u16)
    ensures
        v == hp_value(base as nat, dv as nat, exp as nat, level as nat) as u16,
        hp_value(base as nat, dv as nat, exp as nat, level as nat) <= u16::MAX,
{
    let root = stat_exp_root_exec(exp);
    let core: u32 = ((base as u32) + (dv as u32)) * 2 + root / 4;
    proof {
        assert(core * (level as u32) <= 1084 * 255) by (nonlinear_arith)
            requires
                core <= 1084,
                level <= 255,
        ;
    }
    let v: u32 = (core * (level as u32)) / 100 + (level as u32) + 10;
    v as u16
}

/// Stats by the Gen II formula, with stat experience rooted and capped at 255.
pub fn calculate_stats(
    species: &PokemonSpecies,
    level: u8,
    dvs: Dv,
    hp_exp: u16,
    attack_exp: u16,
    defense_exp: u16,
    speed_exp: u16,
    special_exp: u16,
) -> (s: Stats)
    ensures
        s == stats_of(*species, level, dvs, hp_exp, attack_exp, defense_exp, speed_exp, special_exp),
{
    let hp_dv: u8 = (dvs.attack % 2) * 8 + (dvs.defense % 2) * 4 + (dvs.speed % 2) * 2 + dvs.special % 2;
    Stats {
        max_hp: hp_exec(species.base_hp, hp_dv, hp_exp, level),
        attack: stat_exec(species.base_attack, dvs.attack, attack_exp, level),
        defense: stat_exec(species.base_defense, dvs.defense, defense_exp, level),
        speed: stat_exec(species.base_speed, dvs.speed, speed_exp, level),
        special_attack: stat_exec(species.base_special_attack, dvs.special, special_exp, level),
        special_defense: stat_exec(species.base_special_defense, dvs.special, special_exp, level),
    }
}

/// Whether a Pokemon's stored stats are those its species, level, DVs and stat experience give.
pub fn has_expected_stats(p: &Pokemon) -> (b: bool)
    ensures
        b == (p.max_hp == expected_stats(*p).max_hp && p.attack == expected_stats(*p).attack
            && p.defense == expected_stats(*p).defense && p.speed == expected_stats(*p).speed
            && p.special_attack == expected_stats(*p).special_attack && p.special_defense
            == expected_stats(*p).special_defense),
{
    let s = calculate_stats(
        &p.species,
        p.level,
        p.dvs,
        p.hp_exp,
        p.attack_exp,
        p.defense_exp,
        p.speed_exp,
        p.special_exp,
    );
    p.max_hp == s.max_hp && p.attack == s.attack && p.defense == s.defense && p.speed == s.speed
        && p.special_attack == s.special_attack && p.special_defense == s.special_defense
}

/// A species' name as shown in game: the five ids whose names hold characters
/// an identifier cannot are spelled out, every other id is its own name.
pub open spec fn species_display_name(id: Seq<char>) -> Seq<char> {
    if id == "FARFETCH_D"@ {
        "FARFETCH'D"@
    } else if id == "MR__MIME"@ {
        "MR.MIME"@
    } else if id == "HO_OH"@ {
        "HO-OH"@
    } else if id == "NIDORAN_F"@ {
        "NIDORAN\u{2640}"@
    } else if id == "NIDORAN_M"@ {
        "NIDORAN\u{2642}"@
    } else {
        id
    }
}

pub fn pokemon_species_display_name(id: &str) -> (name: String)
    ensures
        name@ == species_display_name(id@),
{
    if text_eq(id, "FARFETCH_D") {
        copy_text("FARFETCH'D")
    } else if text_eq(id, "MR__MIME") {
        copy_text("MR.MIME")
    } else if text_eq(id, "HO_OH") {
        copy_text("HO-OH")
    } else if text_eq(id, "NIDORAN_F") {
        copy_text("NIDORAN\u{2640}")
    } else if text_eq(id, "NIDORAN_M") {
        copy_text("NIDORAN\u{2642}")
    } else {
        copy_text(id)
    }
}

/// The name a step event reports: the nickname, or the species id when there is none.
pub open spec fn event_name(p: Pokemon) -> Seq<char> {
    if p.nickname@.len() > 0 {
        p.nickname@
    } else {
        p.species.id@
    }
}

pub fn pokemon_event_name(pokemon: &Pokemon) -> (name: String)
    ensures
        name@ == event_name(*pokemon),
{
    if !pokemon.nickname.as_str().is_empty() {
        pokemon.nickname.clone()
    } else {
        pokemon.species.id.clone()
    }
}

/// The name a Pokemon goes by: its nickname, or its species id when the nickname is blank.
pub fn pokemon_nickname_or_species(pokemon: &Pokemon) -> (name: String)
    ensures
        name@ == if crate::text::is_blank(pokemon.nickname@) { pokemon.species.id@ } else { pokemon.nickname@ },
{
    if crate::text::is_blank_text(pokemon.nickname.as_str()) {
        crate::text::copy_text(pokemon.species.id.as_str())
    } else {
        crate::text::copy_text(pokemon.nickname.as_str())
    }
}

/// Whether a Pokemon is of `species` and was caught by the player (same trainer id and name).
pub fn pokemon_matches_species_and_ot(pokemon: &Pokemon, species: &str, player_name: &str, player_id: u16) -> (b: bool)
    ensures
        b == (pokemon.species.id@ == species@ && pokemon.original_trainer_id == player_id
            && pokemon.original_trainer_name@ == player_name@),
{
    crate::text::text_eq(pokemon.species.id.as_str(), species) && pokemon.original_trainer_id == player_id
        && crate::text::text_eq(pokemon.original_trainer_name.as_str(), player_name)
}

} // verus!
