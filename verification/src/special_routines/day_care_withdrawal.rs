//! Taking a resident back from the Day-Care: it catches up on the levels its experience has
//! earned, learns the level-up moves of those levels, is healed, and joins the party for a fee.
use vstd::prelude::*;
use crate::ordered::TextMap;
use crate::pokemon::{calculate_stats, stats_of, CaughtData, LearnedMove, Party, Pokemon, PokemonSpecies};
use crate::special_routines::day_care::{day_care_level_from_experience, day_care_withdraw_fee, level_for_experience};
use crate::special_routines::errors::SpecialRoutineError;
use crate::special_routines::healing::{heal_pokemon, restored_move, restored_moves};
use crate::state::{party_species, species_list, DayCareInteractionState, DayCareResidentState, GameState};
use crate::text::{copy_text, message_with_text, text_eq};

verus! {

/// A known move as plain values: name, current PP, PP Ups.
pub open spec fn move_view(m: LearnedMove) -> (Seq<char>, u8, u8) {
    (m.name@, m.current_pp, m.pp_ups)
}

pub open spec fn move_views(ms: Seq<LearnedMove>) -> Seq<(Seq<char>, u8, u8)> {
    ms.map_values(|m: LearnedMove| move_view(m))
}

/// A learnset as plain values: (level, move id) in the order the data lists them.
pub open spec fn learnset_view(entries: Seq<(u8, String)>) -> Seq<(u8, Seq<char>)> {
    entries.map_values(|e: (u8, String)| (e.0, e.1@))
}

pub open spec fn knows_move(ms: Seq<(Seq<char>, u8, u8)>, id: Seq<char>) -> bool {
    exists|i: int| 0 <= i < ms.len() && (#[trigger] ms[i]).0 == id
}

/// One learnset entry applied to the known moves: a move of a level above the old level and
/// at most the new one, not yet known, is learned with the move data's PP (the first move is
/// forgotten when four are known); a move the move data lacks is an error naming it.
pub open spec fn learn_step(
    ms: Seq<(Seq<char>, u8, u8)>,
    entry: (u8, Seq<char>),
    previous: u8,
    level: u8,
    move_pp: Map<Seq<char>, u8>,
) -> Result<Seq<(Seq<char>, u8, u8)>, Seq<char>> {
    if entry.0 <= previous || entry.0 > level || knows_move(ms, entry.1) {
        Ok(ms)
    } else if !move_pp.contains_key(entry.1) {
        Err(entry.1)
    } else {
        let kept = if ms.len() == 4 { ms.drop_first() } else { ms };
        Ok(kept.push((entry.1, move_pp[entry.1], 0u8)))
    }
}

/// The learnset entries applied in order; the first missing move stops it.
pub open spec fn learned_moves(
    ms: Seq<(Seq<char>, u8, u8)>,
    entries: Seq<(u8, Seq<char>)>,
    previous: u8,
    level: u8,
    move_pp: Map<Seq<char>, u8>,
) -> Result<Seq<(Seq<char>, u8, u8)>, Seq<char>>
    decreases entries.len(),
{
    if entries.len() == 0 {
        Ok(ms)
    } else {
        match learned_moves(ms, entries.drop_last(), previous, level, move_pp) {
            Err(id) => Err(id),
            Ok(before) => learn_step(before, entries.last(), previous, level, move_pp),
        }
    }
}

/// Known moves with their PP restored from the move data, where it knows them.
pub open spec fn restore_views(ms: Seq<(Seq<char>, u8, u8)>, move_pp: Map<Seq<char>, u8>) -> Seq<(Seq<char>, u8, u8)> {
    ms.map_values(
        |m: (Seq<char>, u8, u8)|
            if move_pp.contains_key(m.0) {
                (m.0, move_pp[m.0], m.2)
            } else {
                m
            },
    )
}

/// The resident after catching up to `level`: the minimum experience of that level, the
/// stats of that level, full HP, no status, awake, and the given moves.
pub open spec fn withdrawn_pokemon(r: Pokemon, level: u8, experience: i32, moves: Vec<LearnedMove>) -> Pokemon {
    let s = stats_of(r.species, level, r.dvs, r.hp_exp, r.attack_exp, r.defense_exp, r.speed_exp, r.special_exp);
    Pokemon {
        level,
        experience,
        max_hp: s.max_hp,
        hp: s.max_hp,
        attack: s.attack,
        defense: s.defense,
        speed: s.speed,
        special_attack: s.special_attack,
        special_defense: s.special_defense,
        status: None,
        sleep_turns: 0,
        moves,
        ..r
    }
}

pub open spec fn caretaker_known(c: Seq<char>) -> bool {
    c == "man"@ || c == "lady"@
}

/// The resident slot a caretaker keeps.
pub open spec fn resident_of(s: GameState, c: Seq<char>) -> DayCareResidentState {
    if c == "man"@ {
        s.day_care.man
    } else {
        s.day_care.lady
    }
}

/// The other resident slot.
pub open spec fn other_resident_of(s: GameState, c: Seq<char>) -> DayCareResidentState {
    if c == "man"@ {
        s.day_care.lady
    } else {
        s.day_care.man
    }
}

/// The first empty party slot at or after `from`, if any.
pub open spec fn first_empty_from(party: Seq<Option<Pokemon>>, from: int) -> Option<int>
    decreases party.len() - from,
{
    if from >= party.len() || from < 0 {
        None
    } else if party[from] is None {
        Some(from)
    } else {
        first_empty_from(party, from + 1)
    }
}

pub open spec fn text_option(o: Option<String>) -> Option<Seq<char>> {
    match o {
        Some(s) => Some(s@),
        None => None,
    }
}

/// A withdrawal report with these plain values.
pub open spec fn reports(
    i: DayCareInteractionState,
    caretaker: Seq<char>,
    success: bool,
    pokemon: Option<Seq<char>>,
    level: Option<u8>,
    reason: Option<Seq<char>>,
) -> bool {
    &&& i.caretaker@ == caretaker
    &&& i.action@ == "withdraw"@
    &&& i.success == success
    &&& text_option(i.pokemon) == pokemon
    &&& i.level == level
    &&& text_option(i.reason) == reason
}

/// Everything outside the party, the money and the Day-Care is the same in `after`.
pub open spec fn same_outside_withdrawal(before: GameState, after: GameState) -> bool {
    &&& after.bag == before.bag
    &&& after.script_runtime == before.script_runtime
    &&& after.step_events == before.step_events
    &&& after.repel_steps_remaining == before.repel_steps_remaining
    &&& after.active_repel_item == before.active_repel_item
    &&& after.flags == before.flags
    &&& after.pokedex == before.pokedex
    &&& after.player_name == before.player_name
    &&& after.player_id == before.player_id
    &&& after.player_gender == before.player_gender
    &&& after.time_of_day == before.time_of_day
}

/// What withdrawing from `caretaker` does. An unknown caretaker is an error; a full party,
/// an empty slot or too little money is reported with nothing changed, as is a level-up move
/// the move data lacks, which is an error. Otherwise the caught-up resident takes the first
/// empty party slot, the fee is paid, the slot is emptied and made inactive, and breeding
/// stops: compatibility and the egg countdown drop to zero.
pub open spec fn withdraw_outcome(
    before: GameState,
    after: GameState,
    caretaker: Seq<char>,
    routine: Seq<char>,
    level_minimums: Seq<i32>,
    learnset: Seq<(u8, Seq<char>)>,
    move_pp: Map<Seq<char>, u8>,
    r: Result<DayCareInteractionState, SpecialRoutineError>,
) -> bool {
    let party = before.storage.party.pokemon@;
    let resident = resident_of(before, caretaker).pokemon;
    if !caretaker_known(caretaker) {
        &&& r matches Err(SpecialRoutineError::InvalidDayCareCaretaker { routine: rr, caretaker: cc })
        &&& rr@ == routine && cc@ == caretaker
        &&& after == before
    } else if first_empty_from(party, 0) is None {
        &&& r matches Ok(i) && reports(i, caretaker, false, match resident {
            Some(p) => Some(p.species.id@),
            None => None,
        }, match resident {
            Some(p) => Some(p.level),
            None => None,
        }, Some("party_full"@))
        &&& after == before
    } else {
        match resident {
            None => {
                &&& r matches Ok(i) && reports(i, caretaker, false, None, None, Some("empty"@))
                &&& after == before
            },
            Some(p) => {
                let level = level_for_experience(p.experience, level_minimums, 2);
                match learned_moves(move_views(p.moves@), learnset, p.level, level as u8, move_pp) {
                    Err(id) => {
                        &&& r matches Err(SpecialRoutineError::InvalidState { routine: rr, message: m })
                        &&& rr@ == routine
                        &&& m@ == "day-care learned move "@ + id + " is missing from the move catalog"@
                        &&& after == before
                    },
                    Ok(ms) => {
                        let fee = 100 + 100 * (if level > p.level { level - p.level } else { 0 });
                        if before.money < fee {
                            &&& r matches Ok(i) && reports(
                                i,
                                caretaker,
                                false,
                                Some(p.species.id@),
                                Some(level as u8),
                                Some("not_enough_money"@),
                            )
                            &&& after == before
                        } else {
                            let k = first_empty_from(party, 0)->0;
                            &&& r matches Ok(i) && reports(i, caretaker, true, Some(p.species.id@), Some(level as u8), None)
                            &&& after.money == before.money - fee
                            &&& after.storage.party.pokemon@.len() == party.len()
                            &&& forall|j: int| 0 <= j < party.len() && j != k ==> after.storage.party.pokemon@[j] == party[j]
                            &&& after.storage.party.pokemon@[k] matches Some(q)
                                && q == withdrawn_pokemon(p, level as u8, level_minimums[level], q.moves)
                                && move_views(q.moves@) == restore_views(ms, move_pp)
                            &&& species_list(after.party@) == party_species(after.storage.party.pokemon@)
                            &&& resident_of(after, caretaker).pokemon is None
                            &&& !resident_of(after, caretaker).active
                            &&& other_resident_of(after, caretaker) == other_resident_of(before, caretaker)
                            &&& after.day_care.compatibility_score == 0
                            &&& after.day_care.steps_until_next_egg == 0
                            &&& after.day_care.egg_present == before.day_care.egg_present
                            &&& same_outside_withdrawal(before, after)
                        }
                    },
                }
            },
        }
    }
}

fn copy_option_text(o: &Option<String>) -> (r: Option<String>)
    ensures
        r == *o,
{
    match o {
        Some(s) => Some(s.clone()),
        None => None,
    }
}

/// A copy of a list of known moves.
pub fn copy_moves(moves: &Vec<LearnedMove>) -> (r: Vec<LearnedMove>)
    ensures
        r@ == moves@,
{
    let mut r: Vec<LearnedMove> = Vec::new();
    let mut i: usize = 0;
    while i < moves.len()
        invariant
            i <= moves@.len(),
            r@ == moves@.take(i as int),
        decreases moves.len() - i,
    {
        let m = &moves[i];
        r.push(LearnedMove { name: m.name.clone(), current_pp: m.current_pp, pp_ups: m.pp_ups });
        proof {
            assert(moves@.take(i + 1) =~= moves@.take(i as int).push(moves@[i as int]));
        }
        i += 1;
    }
    proof {
        assert(moves@.take(moves@.len() as int) =~= moves@);
    }
    r
}

/// A copy of a Pokemon: equal in every field, its moves equal move for move.
pub fn copy_pokemon(p: &Pokemon) -> (q: Pokemon)
    ensures
        q == (Pokemon { moves: q.moves, ..*p }),
        q.moves@ == p.moves@,
{
    Pokemon {
        species: PokemonSpecies {
            id: p.species.id.clone(),
            base_hp: p.species.base_hp,
            base_attack: p.species.base_attack,
            base_defense: p.species.base_defense,
            base_speed: p.species.base_speed,
            base_special_attack: p.species.base_special_attack,
            base_special_defense: p.species.base_special_defense,
        },
        level: p.level,
        dvs: p.dvs,
        hp_exp: p.hp_exp,
        attack_exp: p.attack_exp,
        defense_exp: p.defense_exp,
        speed_exp: p.speed_exp,
        special_exp: p.special_exp,
        is_egg: p.is_egg,
        nickname: p.nickname.clone(),
        happiness: p.happiness,
        status: copy_option_text(&p.status),
        sleep_turns: p.sleep_turns,
        hp: p.hp,
        max_hp: p.max_hp,
        attack: p.attack,
        defense: p.defense,
        speed: p.speed,
        special_attack: p.special_attack,
        special_defense: p.special_defense,
        caught_data: p.caught_data,
        original_trainer_id: p.original_trainer_id,
        original_trainer_name: p.original_trainer_name.clone(),
        experience: p.experience,
        item: copy_option_text(&p.item),
        moves: copy_moves(&p.moves),
    }
}

fn knows_move_exec(moves: &Vec<LearnedMove>, id: &str) -> (b: bool)
    ensures
        b == knows_move(move_views(moves@), id@),
{
    let mut i: usize = 0;
    while i < moves.len()
        invariant
            i <= moves@.len(),
            forall|j: int| 0 <= j < i ==> moves@[j].name@ != id@,
        decreases moves.len() - i,
    {
        if text_eq(moves[i].name.as_str(), id) {
            proof {
                assert(move_views(moves@)[i as int].0 == id@);
            }
            return true;
        }
        i += 1;
    }
    proof {
        if knows_move(move_views(moves@), id@) {
            let j = choose|j: int| 0 <= j < move_views(moves@).len() && (#[trigger] move_views(moves@)[j]).0 == id@;
            assert(moves@[j].name@ == id@);
        }
    }
    false
}

fn first_empty_slot(party: &Party) -> (k: Option<usize>)
    ensures
        match k {
            Some(k) => first_empty_from(party.pokemon@, 0) == Some(k as int),
            None => first_empty_from(party.pokemon@, 0) is None,
        },
{
    let mut i: usize = 0;
    while i < party.pokemon.len()
        invariant
            i <= party.pokemon@.len(),
            first_empty_from(party.pokemon@, 0) == first_empty_from(party.pokemon@, i as int),
        decreases party.pokemon.len() - i,
    {
        if party.pokemon[i].is_none() {
            return Some(i);
        }
        i += 1;
    }
    None
}

fn report(
    caretaker: &str,
    success: bool,
    pokemon: Option<String>,
    level: Option<u8>,
    reason: Option<&str>,
) -> (i: DayCareInteractionState)
    ensures
        reports(i, caretaker@, success, text_option(pokemon), level, match reason {
            Some(s) => Some(s@),
            None => None,
        }),
{
    DayCareInteractionState {
        caretaker: copy_text(caretaker),
        action: copy_text("withdraw"),
        success,
        pokemon,
        level,
        reason: match reason {
            Some(s) => Some(copy_text(s)),
            None => None,
        },
    }
}

proof fn lemma_restored_views(ms: Seq<LearnedMove>, move_pp: Map<Seq<char>, u8>)
    ensures
        move_views(restored_moves(ms, move_pp)) == restore_views(move_views(ms), move_pp),
{
    assert(move_views(restored_moves(ms, move_pp)) =~= restore_views(move_views(ms), move_pp));
}

/// Withdraws the resident that `caretaker` keeps.
pub fn day_care_withdraw(
    state: &mut GameState,
    routine: &str,
    caretaker: &str,
    level_minimums: &[i32],
    learnset: &Vec<(u8, String)>,
    move_pp: &TextMap<u8>,
) -> (r: Result<DayCareInteractionState, SpecialRoutineError>)
    requires
        level_minimums@.len() > 100,
    ensures
        withdraw_outcome(
            *old(state),
            *final(state),
            caretaker@,
            routine@,
            level_minimums@,
            learnset_view(learnset@),
            move_pp.view(),
            r,
        ),
{
    proof {
        reveal_strlit("man");
        reveal_strlit("lady");
    }
    let is_man = text_eq(caretaker, "man");
    if !is_man && !text_eq(caretaker, "lady") {
        return Err(
            SpecialRoutineError::InvalidDayCareCaretaker { routine: copy_text(routine), caretaker: copy_text(caretaker) },
        );
    }
    let slot = first_empty_slot(&state.storage.party);
    let resident: &DayCareResidentState = if is_man {
        &state.day_care.man
    } else {
        &state.day_care.lady
    };
    let k = match slot {
        None => {
            let (species, level) = match &resident.pokemon {
                Some(p) => (Some(copy_text(p.species.id.as_str())), Some(p.level)),
                None => (None, None),
            };
            return Ok(report(caretaker, false, species, level, Some("party_full")));
        },
        Some(k) => k,
    };
    proof {
        lemma_first_empty_in_range(state.storage.party.pokemon@, 0);
    }
    let resident_pokemon: &Pokemon = match &resident.pokemon {
        None => {
            return Ok(report(caretaker, false, None, None, Some("empty")));
        },
        Some(p) => p,
    };
    let ghost p0 = *resident_pokemon;
    let ghost entries = learnset_view(learnset@);
    let mut pokemon = copy_pokemon(resident_pokemon);
    let previous_level = pokemon.level;
    let level = day_care_level_from_experience(&pokemon, level_minimums);
    let minimum_experience = level_minimums[level as usize];
    let mut i: usize = 0;
    proof {
        assert(entries.take(0) =~= Seq::<(u8, Seq<char>)>::empty());
    }
    while i < learnset.len()
        invariant
            i <= learnset@.len(),
            entries == learnset_view(learnset@),
            pokemon == (Pokemon { moves: pokemon.moves, ..p0 }),
            previous_level == p0.level,
            *state == *old(state),
            resident_of(*old(state), caretaker@).pokemon == Some(p0),
            caretaker_known(caretaker@),
            first_empty_from(old(state).storage.party.pokemon@, 0) == Some(k as int),
            level == level_for_experience(p0.experience, level_minimums@, 2),
            learned_moves(move_views(p0.moves@), entries.take(i as int), previous_level, level, move_pp.view())
                == Ok::<Seq<(Seq<char>, u8, u8)>, Seq<char>>(move_views(pokemon.moves@)),
        decreases learnset.len() - i,
    {
        let learn_level = learnset[i].0;
        let move_id = &learnset[i].1;
        proof {
            assert(entries.take(i + 1).drop_last() =~= entries.take(i as int));
            assert(entries.take(i + 1).last() == (learn_level, move_id@));
        }
        if learn_level <= previous_level || learn_level > level || knows_move_exec(&pokemon.moves, move_id.as_str()) {
        } else {
            let pp = match move_pp.get(move_id.as_str()) {
                None => {
                    proof {
                        assert(learn_step(move_views(pokemon.moves@), (learn_level, move_id@), previous_level, level, move_pp.view())
                            == Err::<Seq<(Seq<char>, u8, u8)>, Seq<char>>(move_id@));
                        assert(learned_moves(move_views(p0.moves@), entries.take(i + 1), previous_level, level, move_pp.view())
                            == Err::<Seq<(Seq<char>, u8, u8)>, Seq<char>>(move_id@));
                        lemma_learned_error_stays(
                            move_views(p0.moves@),
                            entries,
                            i + 1,
                            previous_level,
                            level,
                            move_pp.view(),
                        );
                    }
                    let message = message_with_text(
                        "day-care learned move ",
                        move_id.as_str(),
                        " is missing from the move catalog",
                    );
                    return Err(SpecialRoutineError::InvalidState { routine: copy_text(routine), message });
                },
                Some(pp) => *pp,
            };
            let ghost before_moves = move_views(pokemon.moves@);
            if pokemon.moves.len() == 4 {
                pokemon.moves.remove(0);
                proof {
                    assert(move_views(pokemon.moves@) =~= before_moves.drop_first());
                }
            }
            let ghost kept = move_views(pokemon.moves@);
            pokemon.moves.push(LearnedMove { name: copy_text(move_id.as_str()), current_pp: pp, pp_ups: 0 });
            proof {
                assert(move_views(pokemon.moves@) =~= kept.push((move_id@, pp, 0u8)));
            }
        }
        i += 1;
    }
    proof {
        assert(entries.take(learnset@.len() as int) =~= entries);
    }
    let ghost learned = move_views(pokemon.moves@);
    let stats = calculate_stats(
        &pokemon.species,
        level,
        pokemon.dvs,
        pokemon.hp_exp,
        pokemon.attack_exp,
        pokemon.defense_exp,
        pokemon.speed_exp,
        pokemon.special_exp,
    );
    pokemon.level = level;
    pokemon.experience = minimum_experience;
    pokemon.max_hp = stats.max_hp;
    pokemon.attack = stats.attack;
    pokemon.defense = stats.defense;
    pokemon.speed = stats.speed;
    pokemon.special_attack = stats.special_attack;
    pokemon.special_defense = stats.special_defense;
    let ghost before_heal = pokemon.moves@;
    heal_pokemon(&mut pokemon, move_pp);
    pokemon.sleep_turns = 0;
    proof {
        lemma_restored_views(before_heal, move_pp.view());
    }
    let fee = day_care_withdraw_fee(previous_level, level);
    if state.money < fee {
        return Ok(
            report(caretaker, false, Some(copy_text(pokemon.species.id.as_str())), Some(level), Some("not_enough_money")),
        );
    }
    let species = copy_text(pokemon.species.id.as_str());
    let ghost q = pokemon;
    state.storage.party.pokemon.set(k, Some(pokemon));
    state.money = state.money - fee;
    if is_man {
        state.day_care.man.pokemon = None;
    } else {
        state.day_care.lady.pokemon = None;
    }
    state.sync_party_from_storage();
    if is_man {
        state.day_care.man.active = false;
    } else {
        state.day_care.lady.active = false;
    }
    state.day_care.compatibility_score = 0;
    state.day_care.steps_until_next_egg = 0;
    Ok(report(caretaker, true, Some(species), Some(level), None))
}

proof fn lemma_first_empty_in_range(party: Seq<Option<Pokemon>>, from: int)
    requires
        first_empty_from(party, from) is Some,
    ensures
        0 <= first_empty_from(party, from)->0 < party.len(),
        party[first_empty_from(party, from)->0] is None,
    decreases party.len() - from,
{
    if from >= 0 && from < party.len() && party[from] is Some {
        lemma_first_empty_in_range(party, from + 1);
    }
}

/// Once the fold meets an error, every longer prefix gives that error.
proof fn lemma_learned_error_stays(
    ms: Seq<(Seq<char>, u8, u8)>,
    entries: Seq<(u8, Seq<char>)>,
    n: int,
    previous: u8,
    level: u8,
    move_pp: Map<Seq<char>, u8>,
)
    requires
        0 <= n <= entries.len(),
        learned_moves(ms, entries.take(n), previous, level, move_pp) is Err,
    ensures
        learned_moves(ms, entries, previous, level, move_pp) == learned_moves(ms, entries.take(n), previous, level, move_pp),
    decreases entries.len() - n,
{
    if n < entries.len() {
        assert(entries.take(n + 1).drop_last() =~= entries.take(n));
        lemma_learned_error_stays(ms, entries, n + 1, previous, level, move_pp);
    } else {
        assert(entries.take(n) =~= entries);
    }
}

} // verus!
