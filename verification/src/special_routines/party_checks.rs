//! The scripts' questions about the party and the PC: is some Pokemon above a level, happy
//! enough, of a species, the player's own; what the lead Pokemon is.
use vstd::prelude::*;
use crate::pokemon::{pokemon_matches_species_and_ot, pokemon_nickname_or_species, Party, PcBox, Pokemon, MAX_BOX_MONS};
use crate::special_routines::checks::{first_error, lemma_first_error_stays};
use crate::special_routines::errors::SpecialRoutineError;
use crate::special_routines::lucky_number::box_slots;
use crate::text::{copy_text, is_blank, text_eq};

verus! {

/// The species of the first slot whose Pokemon passes `test`, among the first `n` slots.
pub open spec fn first_species_where(slots: Seq<Option<Pokemon>>, test: spec_fn(Pokemon) -> bool) -> spec_fn(int) -> Option<
    Seq<char>,
> {
    |i: int|
        match slots[i] {
            Some(p) => if test(p) {
                Some(p.species.id@)
            } else {
                None
            },
            None => None,
        }
}

/// Some slot holds a Pokemon that passes `test`.
pub open spec fn some_slot(slots: Seq<Option<Pokemon>>, test: spec_fn(Pokemon) -> bool) -> bool {
    exists|i: int| 0 <= i < slots.len() && #[trigger] slot_passes(slots[i], test)
}

pub open spec fn slot_passes(slot: Option<Pokemon>, test: spec_fn(Pokemon) -> bool) -> bool {
    match slot {
        Some(p) => test(p),
        None => false,
    }
}

/// Whether a Pokemon is hatched and above `level`.
pub open spec fn above_level(level: u8) -> spec_fn(Pokemon) -> bool {
    |p: Pokemon| !p.is_egg && p.level > level
}

/// Whether a Pokemon is hatched and at least `happiness` happy.
pub open spec fn happy_enough(happiness: u8) -> spec_fn(Pokemon) -> bool {
    |p: Pokemon| !p.is_egg && p.happiness >= happiness
}

/// Whether a Pokemon is of `species` and was caught by the player.
pub open spec fn players_own(species: Seq<char>, player_name: Seq<char>, player_id: u16) -> spec_fn(Pokemon) -> bool {
    |p: Pokemon| p.species.id@ == species && p.original_trainer_id == player_id && p.original_trainer_name@ == player_name
}

/// Whether a Pokemon is of `species`.
pub open spec fn of_species(species: Seq<char>) -> spec_fn(Pokemon) -> bool {
    |p: Pokemon| p.species.id@ == species
}

/// The species of the party's first hatched Pokemon above `level`, if any.
pub fn find_party_mon_above_level(party: &Party, level: u8) -> (r: Option<String>)
    ensures
        match first_error(first_species_where(party.pokemon@, above_level(level)), party.pokemon@.len() as int) {
            Some(s) => r matches Some(x) && x@ == s,
            None => r is None,
        },
{
    let ghost f = first_species_where(party.pokemon@, above_level(level));
    let mut i: usize = 0;
    while i < party.pokemon.len()
        invariant
            f == first_species_where(party.pokemon@, above_level(level)),
            i <= party.pokemon@.len(),
            first_error(f, i as int) is None,
        decreases party.pokemon.len() - i,
    {
        if let Some(p) = &party.pokemon[i] {
            if !p.is_egg && p.level > level {
                proof {
                    assert(f(i as int) == Some(p.species.id@));
                    lemma_first_error_stays(f, i + 1, party.pokemon@.len() as int);
                }
                return Some(copy_text(p.species.id.as_str()));
            }
        }
        i += 1;
    }
    None
}

/// The species of the party's first hatched Pokemon at least `happiness` happy, if any.
pub fn find_party_mon_at_least_that_happy(party: &Party, happiness: u8) -> (r: Option<String>)
    ensures
        match first_error(first_species_where(party.pokemon@, happy_enough(happiness)), party.pokemon@.len() as int) {
            Some(s) => r matches Some(x) && x@ == s,
            None => r is None,
        },
{
    let ghost f = first_species_where(party.pokemon@, happy_enough(happiness));
    let mut i: usize = 0;
    while i < party.pokemon.len()
        invariant
            f == first_species_where(party.pokemon@, happy_enough(happiness)),
            i <= party.pokemon@.len(),
            first_error(f, i as int) is None,
        decreases party.pokemon.len() - i,
    {
        if let Some(p) = &party.pokemon[i] {
            if !p.is_egg && p.happiness >= happiness {
                proof {
                    assert(f(i as int) == Some(p.species.id@));
                    lemma_first_error_stays(f, i + 1, party.pokemon@.len() as int);
                }
                return Some(copy_text(p.species.id.as_str()));
            }
        }
        i += 1;
    }
    None
}

fn slots_hold(slots: &Vec<Option<Pokemon>>, limit: usize, species: &str, player: Option<(&str, u16)>) -> (b: bool)
    ensures
        b == some_slot(
            if limit < slots@.len() {
                slots@.take(limit as int)
            } else {
                slots@
            },
            match player {
                Some((name, id)) => players_own(species@, name@, id),
                None => of_species(species@),
            },
        ),
{
    let n = if limit < slots.len() {
        limit
    } else {
        slots.len()
    };
    let ghost used = slots@.take(n as int);
    let ghost test = match player {
        Some((name, id)) => players_own(species@, name@, id),
        None => of_species(species@),
    };
    let mut i: usize = 0;
    while i < n
        invariant
            n <= slots@.len(),
            n == (if limit < slots@.len() { limit } else { slots@.len() as usize }),
            used == slots@.take(n as int),
            test == (match player {
                Some((name, id)) => players_own(species@, name@, id),
                None => of_species(species@),
            }),
            i <= n,
            forall|k: int| 0 <= k < i ==> !slot_passes(#[trigger] used[k], test),
        decreases n - i,
    {
        if let Some(p) = &slots[i] {
            let hit = match player {
                Some((name, id)) => pokemon_matches_species_and_ot(p, species, name, id),
                None => text_eq(p.species.id.as_str(), species),
            };
            if hit {
                proof {
                    assert(slot_passes(used[i as int], test));
                    if limit < slots@.len() {
                        assert(used =~= slots@.take(limit as int));
                    } else {
                        assert(used =~= slots@);
                    }
                }
                return true;
            }
        }
        i += 1;
    }
    proof {
        if limit < slots@.len() {
            assert(used =~= slots@.take(limit as int));
        } else {
            assert(used =~= slots@);
        }
    }
    false
}

/// Whether the party holds a Pokemon of `species`.
pub fn find_party_mon_that_species(party: &Party, species: &str) -> (b: bool)
    ensures
        b == some_slot(party.pokemon@, of_species(species@)),
{
    let b = slots_hold(&party.pokemon, party.pokemon.len(), species, None);
    proof {
        assert(party.pokemon@.take(party.pokemon@.len() as int) =~= party.pokemon@);
    }
    b
}

/// Whether the party holds a Pokemon of `species` that the player caught.
pub fn find_party_mon_that_species_your_trainer_id(party: &Party, species: &str, player_name: &str, player_id: u16) -> (b:
    bool)
    ensures
        b == some_slot(party.pokemon@, players_own(species@, player_name@, player_id)),
{
    slots_hold(&party.pokemon, party.pokemon.len(), species, Some((player_name, player_id)))
}

pub open spec fn overfull_box_checks(boxes: Seq<PcBox>) -> spec_fn(int) -> Option<int> {
    |j: int|
        if boxes[j].count > MAX_BOX_MONS {
            Some(j)
        } else {
            None
        }
}

/// Whether a box among the first `n` holds one of the player's own Pokemon of `species`.
pub open spec fn boxes_hold(boxes: Seq<PcBox>, n: int, test: spec_fn(Pokemon) -> bool) -> bool {
    exists|j: int| 0 <= j < n && #[trigger] some_slot(box_slots(boxes[j]), test)
}

/// The answer of a search of the party, then of the boxes in order, for a Pokemon that
/// passes `test`: `Some(true)` when found, `Some(false)` when not, and `None` when a box it
/// reached claims more Pokemon than a box holds (the error then names the first such box).
pub open spec fn storage_search(party: Seq<Option<Pokemon>>, boxes: Seq<PcBox>, test: spec_fn(Pokemon) -> bool) -> Option<
    bool,
> {
    if some_slot(party, test) {
        Some(true)
    } else {
        storage_search_boxes(boxes, test, 0)
    }
}

pub open spec fn storage_search_boxes(boxes: Seq<PcBox>, test: spec_fn(Pokemon) -> bool, j: int) -> Option<bool>
    decreases boxes.len() - j,
{
    if j >= boxes.len() {
        Some(false)
    } else if boxes[j].count > MAX_BOX_MONS {
        None
    } else if some_slot(box_slots(boxes[j]), test) {
        Some(true)
    } else {
        storage_search_boxes(boxes, test, j + 1)
    }
}

/// The first box, searching from `j`, that the search stops at because it is overfull.
pub open spec fn first_overfull_from(boxes: Seq<PcBox>, test: spec_fn(Pokemon) -> bool, j: int) -> int
    decreases boxes.len() - j,
{
    if j >= boxes.len() || boxes[j].count > MAX_BOX_MONS {
        j
    } else if some_slot(box_slots(boxes[j]), test) {
        j
    } else {
        first_overfull_from(boxes, test, j + 1)
    }
}

/// What the ownership search answers for `species`: whether it was found, or the first
/// overfull box that stopped the search, with its index and count.
pub open spec fn owns_species_answer(
    party: Seq<Option<Pokemon>>,
    boxes: Seq<PcBox>,
    species: Seq<char>,
    player_name: Seq<char>,
    player_id: u16,
    routine: Seq<char>,
    r: Result<bool, SpecialRoutineError>,
) -> bool {
    match storage_search(party, boxes, players_own(species, player_name, player_id)) {
        Some(b) => r == Ok::<bool, SpecialRoutineError>(b),
        None => {
            let j = first_overfull_from(boxes, players_own(species, player_name, player_id), 0);
            r matches Err(SpecialRoutineError::InvalidPcBoxCount { routine: rr, box_index: bi, count: c }) && rr@
                == routine && bi == j && c == boxes[j].count
        },
    }
}

/// Whether the player owns a Pokemon of `species` caught by the player, in the party or in
/// a PC box; a box that claims more Pokemon than a box holds stops the search with an error.
pub fn storage_owns_species_with_ot(
    party: &Party,
    pc_boxes: &Vec<PcBox>,
    species: &str,
    player_name: &str,
    player_id: u16,
    routine: &str,
) -> (r: Result<bool, SpecialRoutineError>)
    ensures
        owns_species_answer(party.pokemon@, pc_boxes@, species@, player_name@, player_id, routine@, r),
{
    let ghost test = players_own(species@, player_name@, player_id);
    if slots_hold(&party.pokemon, party.pokemon.len(), species, Some((player_name, player_id))) {
        proof {
            assert(party.pokemon@.take(party.pokemon@.len() as int) =~= party.pokemon@);
        }
        return Ok(true);
    }
    proof {
        assert(party.pokemon@.take(party.pokemon@.len() as int) =~= party.pokemon@);
    }
    let mut j: usize = 0;
    while j < pc_boxes.len()
        invariant
            test == players_own(species@, player_name@, player_id),
            !some_slot(party.pokemon@, test),
            j <= pc_boxes@.len(),
            storage_search(party.pokemon@, pc_boxes@, test) == storage_search_boxes(pc_boxes@, test, j as int),
            first_overfull_from(pc_boxes@, test, 0) == first_overfull_from(pc_boxes@, test, j as int),
        decreases pc_boxes.len() - j,
    {
        let b = &pc_boxes[j];
        if b.count > MAX_BOX_MONS {
            return Err(SpecialRoutineError::InvalidPcBoxCount { routine: copy_text(routine), box_index: j, count: b.count });
        }
        if slots_hold(&b.pokemon, b.count, species, Some((player_name, player_id))) {
            return Ok(true);
        }
        j += 1;
    }
    Ok(false)
}

/// Whether the player owns each of the three legendary beasts; the first one missing, if
/// any.
pub fn beasts_check(party: &Party, pc_boxes: &Vec<PcBox>, player_name: &str, player_id: u16, routine: &str) -> (r: Result<
    Option<&'static str>,
    SpecialRoutineError,
>)
    ensures
        ({
            let ans = |s: Seq<char>, x: Result<bool, SpecialRoutineError>|
                owns_species_answer(party.pokemon@, pc_boxes@, s, player_name@, player_id, routine@, x);
            let ok = Ok::<bool, SpecialRoutineError>(true);
            let no = Ok::<bool, SpecialRoutineError>(false);
            match r {
                Ok(None) => ans("RAIKOU"@, ok) && ans("ENTEI"@, ok) && ans("SUICUNE"@, ok),
                Ok(Some(missing)) => (missing@ == "RAIKOU"@ && ans("RAIKOU"@, no)) || (missing@ == "ENTEI"@ && ans(
                    "RAIKOU"@,
                    ok,
                ) && ans("ENTEI"@, no)) || (missing@ == "SUICUNE"@ && ans("RAIKOU"@, ok) && ans("ENTEI"@, ok) && ans(
                    "SUICUNE"@,
                    no,
                )),
                Err(e) => ans("RAIKOU"@, Err(e)) || (ans("RAIKOU"@, ok) && ans("ENTEI"@, Err(e))) || (ans("RAIKOU"@, ok)
                    && ans("ENTEI"@, ok) && ans("SUICUNE"@, Err(e))),
            }
        }),
{
    match storage_owns_species_with_ot(party, pc_boxes, "RAIKOU", player_name, player_id, routine) {
        Err(e) => return Err(e),
        Ok(false) => return Ok(Some("RAIKOU")),
        Ok(true) => {},
    }
    match storage_owns_species_with_ot(party, pc_boxes, "ENTEI", player_name, player_id, routine) {
        Err(e) => return Err(e),
        Ok(false) => return Ok(Some("ENTEI")),
        Ok(true) => {},
    }
    match storage_owns_species_with_ot(party, pc_boxes, "SUICUNE", player_name, player_id, routine) {
        Err(e) => Err(e),
        Ok(false) => Ok(Some("SUICUNE")),
        Ok(true) => Ok(None),
    }
}

/// A slot holds a hatched Pokemon.
pub open spec fn hatched(slot: Option<Pokemon>) -> bool {
    match slot {
        Some(p) => !p.is_egg,
        None => false,
    }
}

/// The name a Pokemon is called by: its nickname, or its species when it has none.
pub open spec fn shown_name(p: Pokemon) -> Seq<char> {
    if is_blank(p.nickname@) {
        p.species.id@
    } else {
        p.nickname@
    }
}

/// The lead Pokemon's happiness, with its slot, species and name: the lead is the first
/// hatched Pokemon of the party.
pub fn get_first_pokemon_happiness(party: &Party, routine: &str) -> (r: Result<(usize, String, String, u8), SpecialRoutineError>)
    ensures
        match r {
            Ok((slot, species, name, happiness)) => {
                &&& slot < party.pokemon@.len()
                &&& hatched(party.pokemon@[slot as int])
                &&& forall|k: int| 0 <= k < slot ==> !hatched(#[trigger] party.pokemon@[k])
                &&& species@ == party.pokemon@[slot as int]->0.species.id@
                &&& name@ == shown_name(party.pokemon@[slot as int]->0)
                &&& happiness == party.pokemon@[slot as int]->0.happiness
            },
            Err(e) => (forall|k: int| 0 <= k < party.pokemon@.len() ==> !hatched(#[trigger] party.pokemon@[k])) && (e matches SpecialRoutineError::NoNonEggPartyPokemon { routine: rr } && rr@ == routine@),
        },
{
    let mut i: usize = 0;
    while i < party.pokemon.len()
        invariant
            i <= party.pokemon@.len(),
            forall|k: int| 0 <= k < i ==> !hatched(#[trigger] party.pokemon@[k]),
        decreases party.pokemon.len() - i,
    {
        if let Some(p) = &party.pokemon[i] {
            if !p.is_egg {
                return Ok((i, copy_text(p.species.id.as_str()), pokemon_nickname_or_species(p), p.happiness));
            }
        }
        i += 1;
    }
    Err(SpecialRoutineError::NoNonEggPartyPokemon { routine: copy_text(routine) })
}

/// Whether the first party slot holds an egg, with the species the party list shows (`EGG`
/// for an egg) and its name.
pub fn check_first_mon_is_egg(party: &Party, routine: &str) -> (r: Result<(String, String, bool), SpecialRoutineError>)
    requires
        party.pokemon@.len() > 0,
    ensures
        match party.pokemon@[0] {
            None => r matches Err(SpecialRoutineError::EmptyParty { routine: rr }) && rr@ == routine@,
            Some(p) => r matches Ok((species, name, is_egg)) && is_egg == p.is_egg && species@ == (if p.is_egg {
                "EGG"@
            } else {
                p.species.id@
            }) && name@ == (if is_blank(p.nickname@) {
                p.species.id@
            } else {
                p.nickname@
            }),
        },
{
    match &party.pokemon[0] {
        None => Err(SpecialRoutineError::EmptyParty { routine: copy_text(routine) }),
        Some(p) => {
            let species = if p.is_egg {
                copy_text("EGG")
            } else {
                copy_text(p.species.id.as_str())
            };
            Ok((species, pokemon_nickname_or_species(p), p.is_egg))
        },
    }
}

} // verus!
