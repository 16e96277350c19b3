//! Healing a party: full HP, no status, and each known move back to the PP the move data gives.
use vstd::prelude::*;
use crate::ordered::TextMap;
use crate::pokemon::{LearnedMove, Party, Pokemon};

verus! {

/// A move with its PP restored to the move data's PP, when the data knows the move.
pub open spec fn restored_move(m: LearnedMove, move_pp: Map<Seq<char>, u8>) -> LearnedMove {
    if move_pp.contains_key(m.name@) {
        LearnedMove { current_pp: move_pp[m.name@], ..m }
    } else {
        m
    }
}

/// Every move with its PP restored.
pub open spec fn restored_moves(moves: Seq<LearnedMove>, move_pp: Map<Seq<char>, u8>) -> Seq<LearnedMove> {
    moves.map_values(|m: LearnedMove| restored_move(m, move_pp))
}

/// The Pokemon healed: full HP, no status, its moves restored.
pub open spec fn healed(p: Pokemon, moves: Vec<LearnedMove>) -> Pokemon {
    Pokemon { hp: p.max_hp, status: None, moves: moves, ..p }
}

/// Healing changes something: HP, status, or some move's PP.
pub open spec fn needs_healing(p: Pokemon, move_pp: Map<Seq<char>, u8>) -> bool {
    ||| p.hp != p.max_hp
    ||| p.status is Some
    ||| exists|i: int|
        0 <= i < p.moves@.len() && move_pp.contains_key(#[trigger] p.moves@[i].name@) && p.moves@[i].current_pp
            != move_pp[p.moves@[i].name@]
}

/// Heals a Pokemon; the result says whether anything changed.
pub fn heal_pokemon(pokemon: &mut Pokemon, move_pp: &TextMap<u8>) -> (changed: bool)
    ensures
        final(pokemon).moves@ == restored_moves(old(pokemon).moves@, move_pp.view()),
        *final(pokemon) == healed(*old(pokemon), final(pokemon).moves),
        changed == needs_healing(*old(pokemon), move_pp.view()),
{
    let ghost before = pokemon.moves@;
    let mut changed = false;
    if pokemon.hp != pokemon.max_hp {
        pokemon.hp = pokemon.max_hp;
        changed = true;
    }
    if pokemon.status.is_some() {
        pokemon.status = None;
        changed = true;
    }
    let ghost changed_before = changed;
    let mut moves: Vec<LearnedMove> = Vec::new();
    std::mem::swap(&mut moves, &mut pokemon.moves);
    let mut i: usize = 0;
    while i < moves.len()
        invariant
            moves@.len() == before.len(),
            i <= before.len(),
            forall|k: int| 0 <= k < i ==> #[trigger] moves@[k] == restored_move(before[k], move_pp.view()),
            forall|k: int| i <= k < before.len() ==> #[trigger] moves@[k] == before[k],
            changed == (changed_before || exists|k: int|
                0 <= k < i && move_pp.view().contains_key(#[trigger] before[k].name@) && before[k].current_pp
                    != move_pp.view()[before[k].name@]),
        decreases moves.len() - i,
    {
        let mut m = moves.remove(i);
        match move_pp.get(m.name.as_str()) {
            Some(pp) => {
                if m.current_pp != *pp {
                    m.current_pp = *pp;
                    changed = true;
                }
            },
            None => {},
        }
        moves.insert(i, m);
        proof {
            if changed && !changed_before {
                if move_pp.view().contains_key(before[i as int].name@) && before[i as int].current_pp
                    != move_pp.view()[before[i as int].name@] {
                    assert(0 <= i < i + 1);
                }
            }
        }
        i += 1;
    }
    pokemon.moves = moves;
    proof {
        assert(pokemon.moves@ =~= restored_moves(before, move_pp.view()));
    }
    changed
}

/// Heals every hatched Pokemon in the party; the result lists, in order, the slots where
/// healing changed something.
pub fn heal_party(party: &mut Party, move_pp: &TextMap<u8>) -> (healed_slots: Vec<usize>)
    ensures
        final(party).pokemon@.len() == old(party).pokemon@.len(),
        forall|i: int|
            0 <= i < old(party).pokemon@.len() ==> match #[trigger] old(party).pokemon@[i] {
                Some(p) => if p.is_egg {
                    final(party).pokemon@[i] == Some(p)
                } else {
                    final(party).pokemon@[i] matches Some(q) && q == healed(p, q.moves) && q.moves@ == restored_moves(
                        p.moves@,
                        move_pp.view(),
                    )
                },
                None => final(party).pokemon@[i] is None,
            },
        forall|k: int| 0 <= k < healed_slots@.len() ==> #[trigger] healed_slots@[k] < old(party).pokemon@.len(),
        forall|k: int, l: int| 0 <= k < l < healed_slots@.len() ==> healed_slots@[k] < healed_slots@[l],
        forall|i: int|
            0 <= i < old(party).pokemon@.len() ==> (healed_slots@.contains(i as usize) <==> (#[trigger] old(
                party,
            ).pokemon@[i] matches Some(p) && !p.is_egg && needs_healing(p, move_pp.view()))),
{
    let ghost before = party.pokemon@;
    let mut healed_slots: Vec<usize> = Vec::new();
    let mut i: usize = 0;
    while i < party.pokemon.len()
        invariant
            party.pokemon@.len() == before.len(),
            i <= before.len(),
            forall|k: int| i <= k < before.len() ==> #[trigger] party.pokemon@[k] == before[k],
            forall|k: int|
                0 <= k < i ==> match #[trigger] before[k] {
                    Some(p) => if p.is_egg {
                        party.pokemon@[k] == Some(p)
                    } else {
                        party.pokemon@[k] matches Some(q) && q == healed(p, q.moves) && q.moves@ == restored_moves(
                            p.moves@,
                            move_pp.view(),
                        )
                    },
                    None => party.pokemon@[k] is None,
                },
            forall|k: int| 0 <= k < healed_slots@.len() ==> #[trigger] healed_slots@[k] < i,
            forall|k: int, l: int| 0 <= k < l < healed_slots@.len() ==> healed_slots@[k] < healed_slots@[l],
            forall|k: int|
                0 <= k < i ==> (healed_slots@.contains(k as usize) <==> (#[trigger] before[k] matches Some(p) && !p.is_egg
                    && needs_healing(p, move_pp.view()))),
        decreases party.pokemon.len() - i,
    {
        let mut slot = party.pokemon.remove(i);
        let mut changed = false;
        match slot {
            Some(ref mut p) => {
                if !p.is_egg {
                    changed = heal_pokemon(p, move_pp);
                }
            },
            None => {},
        }
        party.pokemon.insert(i, slot);
        let ghost old_slots = healed_slots@;
        if changed {
            healed_slots.push(i);
        }
        proof {
            assert forall|k: int|
                0 <= k < i + 1 implies (healed_slots@.contains(k as usize) <==> (#[trigger] before[k] matches Some(p)
                && !p.is_egg && needs_healing(p, move_pp.view()))) by {
                if k < i {
                    if healed_slots@.contains(k as usize) {
                        let j = choose|j: int| 0 <= j < healed_slots@.len() && healed_slots@[j] == k as usize;
                        if changed && j == old_slots.len() {
                            assert(healed_slots@[j] == i);
                        } else {
                            assert(old_slots[j] == k as usize);
                        }
                    }
                    if old_slots.contains(k as usize) {
                        let j = choose|j: int| 0 <= j < old_slots.len() && old_slots[j] == k as usize;
                        assert(healed_slots@[j] == k as usize);
                    }
                } else {
                    if changed {
                        assert(healed_slots@[old_slots.len() as int] == i);
                    } else {
                        if healed_slots@.contains(k as usize) {
                            let j = choose|j: int| 0 <= j < healed_slots@.len() && healed_slots@[j] == k as usize;
                            assert(old_slots[j] < i);
                        }
                    }
                }
            }
        }
        i += 1;
    }
    healed_slots
}

} // verus!
