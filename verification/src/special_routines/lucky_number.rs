//! The Lucky Number Show: how many trailing digits of a trainer id match the week's number,
//! which prize tier that earns, and which Pokemon wins.
use vstd::prelude::*;
use crate::pokemon::{Party, PcBox, Pokemon, MAX_BOX_MONS};
use crate::special_routines::checks::{first_error, lemma_first_error_stays};
use crate::special_routines::errors::SpecialRoutineError;
use crate::text::{copy_text, text_chars, text_from_chars};

verus! {

/// Where the winning Pokemon was found.
#[derive(Clone, Copy, Debug, PartialEq, Eq, Structural)]
pub enum LuckyNumberWinnerSource {
    Party,
    Pc,
}

pub open spec fn pow10(k: nat) -> nat
    decreases k,
{
    if k == 0 { 1 } else { 10 * pow10((k - 1) as nat) }
}

/// Decimal digit `k` of `n`, counting from the right.
pub open spec fn digit_from_right(n: nat, k: nat) -> nat {
    (n / pow10(k)) % 10
}

/// How many of the five digits, from the right, `a` and `b` share before the first that differs.
pub open spec fn shared_suffix(a: nat, b: nat, k: nat) -> nat
    decreases 5 - k,
{
    if k >= 5 || digit_from_right(a, k) != digit_from_right(b, k) {
        0
    } else {
        1 + shared_suffix(a, b, k + 1)
    }
}

/// The number of trailing digits that the five-digit forms of the trainer id and the lucky
/// number share.
pub fn lucky_number_suffix_match_len(trainer_id: u16, lucky_number: u16) -> (n: u8)
    ensures
        n == shared_suffix(trainer_id as nat, lucky_number as nat, 0),
{
    let mut k: u8 = 0;
    let mut d: u32 = 1;
    while k < 5 && (trainer_id as u32 / d) % 10 == (lucky_number as u32 / d) % 10
        invariant
            k <= 5,
            k < 5 ==> d == pow10(k as nat),
            1 <= d <= 10000,
            shared_suffix(trainer_id as nat, lucky_number as nat, 0) == k + shared_suffix(
                trainer_id as nat,
                lucky_number as nat,
                k as nat,
            ),
        decreases 5 - k,
    {
        proof {
            assert(pow10((k + 1) as nat) == 10 * pow10(k as nat));
            assert(pow10(1) == 10);
            assert(pow10(2) == 100);
            assert(pow10(3) == 1000);
            assert(pow10(4) == 10000);
        }
        if k < 4 {
            d = d * 10;
        }
        k += 1;
    }
    proof {
        if k < 5 {
            assert(shared_suffix(trainer_id as nat, lucky_number as nat, k as nat) == 0);
        }
    }
    k
}

/// The prize tier of a match: 1 for all five digits, 2 for three or four, 3 for two, 0 for
/// fewer.
pub open spec fn tier_of(matched: nat) -> u8 {
    if matched >= 5 {
        1
    } else if matched >= 3 {
        2
    } else if matched == 2 {
        3
    } else {
        0
    }
}

/// The prize tier a trainer id earns against the lucky number.
pub fn lucky_number_tier(trainer_id: u16, lucky_number: u16) -> (t: u8)
    ensures
        t == tier_of(shared_suffix(trainer_id as nat, lucky_number as nat, 0)),
{
    let matched = lucky_number_suffix_match_len(trainer_id, lucky_number);
    if matched >= 5 {
        1
    } else if matched >= 3 {
        2
    } else if matched == 2 {
        3
    } else {
        0
    }
}

/// Whether a Pokemon is an egg.
pub fn pokemon_is_egg(pokemon: &Pokemon) -> (b: bool)
    ensures
        b == pokemon.is_egg,
{
    pokemon.is_egg
}

/// The best prize so far after one more Pokemon is considered: a hatched Pokemon with a species
/// whose tier is nonzero replaces the best when nothing has won yet, when its tier is better
/// (smaller), or when it ties a party winner from the PC.
pub open spec fn considered(
    p: Pokemon,
    source: LuckyNumberWinnerSource,
    lucky_number: u16,
    tier: u8,
    best_source: Option<LuckyNumberWinnerSource>,
) -> bool {
    let t = tier_of(shared_suffix(p.original_trainer_id as nat, lucky_number as nat, 0));
    &&& p.species.id@.len() != 0
    &&& !p.is_egg
    &&& t != 0
    &&& (tier == 0 || t < tier || (t == tier && best_source == Some(LuckyNumberWinnerSource::Party) && source
        == LuckyNumberWinnerSource::Pc))
}

/// Considers one Pokemon for the Lucky Number prize, updating the best tier, its source and
/// its species.
pub fn consider_lucky_number_match(
    pokemon: &Pokemon,
    source: LuckyNumberWinnerSource,
    lucky_number: u16,
    best_tier: &mut u8,
    best_source: &mut Option<LuckyNumberWinnerSource>,
    best_species: &mut Option<String>,
)
    ensures
        considered(*pokemon, source, lucky_number, *old(best_tier), *old(best_source)) ==> {
            &&& *final(best_tier) == tier_of(shared_suffix(pokemon.original_trainer_id as nat, lucky_number as nat, 0))
            &&& *final(best_source) == Some(source)
            &&& *final(best_species) matches Some(s) && s@ == pokemon.species.id@
        },
        !considered(*pokemon, source, lucky_number, *old(best_tier), *old(best_source)) ==> {
            &&& *final(best_tier) == *old(best_tier)
            &&& *final(best_source) == *old(best_source)
            &&& *final(best_species) == *old(best_species)
        },
{
    if pokemon.species.id.as_str().is_empty() || pokemon_is_egg(pokemon) {
        return;
    }
    let tier = lucky_number_tier(pokemon.original_trainer_id, lucky_number);
    if tier == 0 {
        return;
    }
    let party_best = match *best_source {
        Some(LuckyNumberWinnerSource::Party) => true,
        _ => false,
    };
    let from_pc = match source {
        LuckyNumberWinnerSource::Pc => true,
        LuckyNumberWinnerSource::Party => false,
    };
    if *best_tier == 0 || tier < *best_tier || (tier == *best_tier && party_best && from_pc) {
        *best_tier = tier;
        *best_source = Some(source);
        *best_species = Some(copy_text(pokemon.species.id.as_str()));
    }
}

/// The PC boxes in the order the show searches them: the current box (its number taken from
/// the low four bits), then every other box in order.
pub open spec fn box_order(box_count: nat, current: nat) -> Seq<usize> {
    seq![current as usize] + other_boxes(current, (box_count - 1) as nat)
}

/// The first `len` boxes other than `current`, in order.
pub open spec fn other_boxes(current: nat, len: nat) -> Seq<usize> {
    Seq::new(len, |i: int| if i < current { i as usize } else { (i + 1) as usize })
}

/// How many boxes other than `current` come before `index`.
pub open spec fn others_before(index: nat, current: nat) -> nat {
    if index <= current { index } else { (index - 1) as nat }
}

/// The PC boxes in search order; the current box must be one of them.
pub fn lucky_number_pc_box_order(box_count: usize, current_pc_box: usize, routine: &str) -> (r: Result<
    Vec<usize>,
    SpecialRoutineError,
>)
    ensures
        box_count == 0 ==> (r matches Ok(v) && v@.len() == 0),
        box_count > 0 ==> match r {
            Ok(v) => current_pc_box % 16 < box_count && v@ == box_order(box_count as nat, (current_pc_box % 16) as nat),
            Err(e) => current_pc_box % 16 >= box_count && (e matches SpecialRoutineError::InvalidCurrentPcBox {
                routine: rr,
                current_pc_box: c,
                box_count: b,
            } && rr@ == routine@ && c == current_pc_box && b == box_count),
        },
{
    if box_count == 0 {
        return Ok(Vec::new());
    }
    let current = current_pc_box % 16;
    if current >= box_count {
        return Err(SpecialRoutineError::InvalidCurrentPcBox { routine: copy_text(routine), current_pc_box, box_count });
    }
    let mut order: Vec<usize> = Vec::new();
    order.push(current);
    let mut index: usize = 0;
    while index < box_count
        invariant
            current < box_count,
            index <= box_count,
            order@ == seq![current] + other_boxes(current as nat, others_before(index as nat, current as nat)),
        decreases box_count - index,
    {
        if index != current {
            order.push(index);
            proof {
                assert(order@ =~= seq![current] + other_boxes(current as nat, others_before((index + 1) as nat, current as nat)));
            }
        } else {
            proof {
                assert(other_boxes(current as nat, others_before(index as nat, current as nat)) =~= other_boxes(
                    current as nat,
                    others_before((index + 1) as nat, current as nat),
                ));
            }
        }
        index += 1;
    }
    proof {
        assert(order@ =~= box_order(box_count as nat, current as nat));
    }
    Ok(order)
}


// ---- the weekly draw ----

/// The best prize so far: its tier (0 for none), where its Pokemon was found, and its species.
pub open spec fn lucky_step(
    best: (u8, Option<LuckyNumberWinnerSource>, Option<Seq<char>>),
    p: Pokemon,
    source: LuckyNumberWinnerSource,
    lucky_number: u16,
) -> (u8, Option<LuckyNumberWinnerSource>, Option<Seq<char>>) {
    if considered(p, source, lucky_number, best.0, best.1) {
        (tier_of(shared_suffix(p.original_trainer_id as nat, lucky_number as nat, 0)), Some(source), Some(p.species.id@))
    } else {
        best
    }
}

/// The best prize among the candidates, considered in order.
pub open spec fn lucky_fold(s: Seq<(Pokemon, LuckyNumberWinnerSource)>, lucky_number: u16) -> (
    u8,
    Option<LuckyNumberWinnerSource>,
    Option<Seq<char>>,
)
    decreases s.len(),
{
    if s.len() == 0 {
        (0, None, None)
    } else {
        lucky_step(lucky_fold(s.drop_last(), lucky_number), s.last().0, s.last().1, lucky_number)
    }
}

/// The Pokemon in the slots, in order, each with its source.
pub open spec fn slot_candidates(slots: Seq<Option<Pokemon>>, source: LuckyNumberWinnerSource) -> Seq<
    (Pokemon, LuckyNumberWinnerSource),
>
    decreases slots.len(),
{
    if slots.len() == 0 {
        seq![]
    } else {
        let rest = slot_candidates(slots.drop_last(), source);
        match slots.last() {
            Some(p) => rest.push((p, source)),
            None => rest,
        }
    }
}

/// The slots of a box in use.
pub open spec fn box_slots(b: PcBox) -> Seq<Option<Pokemon>> {
    if b.count < b.pokemon@.len() {
        b.pokemon@.take(b.count as int)
    } else {
        b.pokemon@
    }
}

/// The Pokemon of the first `n` boxes in search order.
pub open spec fn boxes_candidates(boxes: Seq<PcBox>, order: Seq<usize>, n: int) -> Seq<(Pokemon, LuckyNumberWinnerSource)>
    decreases n,
{
    if n <= 0 {
        seq![]
    } else {
        boxes_candidates(boxes, order, n - 1) + slot_candidates(box_slots(boxes[order[n - 1] as int]), LuckyNumberWinnerSource::Pc)
    }
}

/// The first box in search order that claims more Pokemon than a box holds.
pub open spec fn overfull_checks(boxes: Seq<PcBox>, order: Seq<usize>) -> spec_fn(int) -> Option<usize> {
    |j: int|
        if boxes[order[j] as int].count > MAX_BOX_MONS {
            Some(order[j])
        } else {
            None
        }
}

/// A species id with its underscores shown as spaces.
pub open spec fn spaced(s: Seq<char>) -> Seq<char> {
    s.map_values(|c: char| if c == '_' { ' ' } else { c })
}

/// The draw's outcome: the prize tier (0 for none), where the winning Pokemon was found, its
/// species id, that id with spaces for underscores, and the label of the matching message.
#[derive(Debug, PartialEq, Eq)]
pub struct LuckyNumberResult {
    pub tier: u8,
    pub source: Option<LuckyNumberWinnerSource>,
    pub species: Option<String>,
    pub shown_species: Option<String>,
    pub text_label: Option<String>,
}

fn spaced_text(s: &str) -> (r: String)
    ensures
        r@ == spaced(s@),
{
    let v = text_chars(s);
    let mut w: Vec<char> = Vec::new();
    let mut i: usize = 0;
    while i < v.len()
        invariant
            v@ == s@,
            i <= v@.len(),
            w@ == spaced(v@.take(i as int)),
        decreases v.len() - i,
    {
        w.push(if v[i] == '_' { ' ' } else { v[i] });
        proof {
            assert(w@ =~= spaced(v@.take(i + 1)));
        }
        i += 1;
    }
    proof {
        assert(v@.take(v@.len() as int) =~= v@);
    }
    text_from_chars(&w)
}

fn consider_slots(
    slots: &Vec<Option<Pokemon>>,
    limit: usize,
    source: LuckyNumberWinnerSource,
    lucky_number: u16,
    best_tier: &mut u8,
    best_source: &mut Option<LuckyNumberWinnerSource>,
    best_species: &mut Option<String>,
    Ghost(seen): Ghost<Seq<(Pokemon, LuckyNumberWinnerSource)>>,
) -> (after: Ghost<Seq<(Pokemon, LuckyNumberWinnerSource)>>)
    requires
        lucky_fold(seen, lucky_number) == (
            *old(best_tier),
            *old(best_source),
            match *old(best_species) {
                Some(s) => Some(s@),
                None => None,
            },
        ),
    ensures
        after@ == seen + slot_candidates(
            if limit < slots@.len() {
                slots@.take(limit as int)
            } else {
                slots@
            },
            source,
        ),
        lucky_fold(after@, lucky_number) == (
            *final(best_tier),
            *final(best_source),
            match *final(best_species) {
                Some(s) => Some(s@),
                None => None,
            },
        ),
{
    let n = if limit < slots.len() {
        limit
    } else {
        slots.len()
    };
    let ghost used = slots@.take(n as int);
    let ghost mut acc = seen;
    let mut i: usize = 0;
    while i < n
        invariant
            n <= slots@.len(),
            used == slots@.take(n as int),
            i <= n,
            acc == seen + slot_candidates(slots@.take(i as int), source),
            lucky_fold(acc, lucky_number) == (
                *best_tier,
                *best_source,
                match *best_species {
                    Some(s) => Some(s@),
                    None => None,
                },
            ),
        decreases n - i,
    {
        proof {
            assert(slots@.take(i + 1).drop_last() =~= slots@.take(i as int));
        }
        if let Some(p) = &slots[i] {
            consider_lucky_number_match(p, source, lucky_number, best_tier, best_source, best_species);
            proof {
                assert(acc.push((*p, source)).drop_last() =~= acc);
                acc = acc.push((*p, source));
                assert(acc =~= seen + slot_candidates(slots@.take(i + 1), source));
            }
        }
        i += 1;
    }
    proof {
        if limit < slots@.len() {
            assert(used =~= slots@.take(limit as int));
        } else {
            assert(used =~= slots@);
        }
    }
    Ghost(acc)
}

/// The weekly Lucky Number draw: every Pokemon of the party, then of the PC boxes in search
/// order, is held against the number, and the best tier wins; an earlier find keeps a tie,
/// but a PC find takes a tie from the party. With an empty party nothing wins.
pub fn check_for_lucky_number_winners(
    party: &Party,
    pc_boxes: &Vec<PcBox>,
    current_pc_box: usize,
    lucky_number: u16,
    routine: &str,
) -> (r: Result<LuckyNumberResult, SpecialRoutineError>)
    ensures
        if forall|i: int| 0 <= i < party.pokemon@.len() ==> party.pokemon@[i] is None {
            r matches Ok(x) && x.tier == 0 && x.source is None && x.species is None && x.shown_species is None
                && x.text_label is None
        } else if pc_boxes@.len() > 0 && current_pc_box % 16 >= pc_boxes@.len() {
            r matches Err(SpecialRoutineError::InvalidCurrentPcBox { routine: rr, current_pc_box: c, box_count: b })
                && rr@ == routine@ && c == current_pc_box && b == pc_boxes@.len()
        } else {
            let order = if pc_boxes@.len() == 0 {
                Seq::<usize>::empty()
            } else {
                box_order(pc_boxes@.len() as nat, (current_pc_box % 16) as nat)
            };
            match first_error(overfull_checks(pc_boxes@, order), order.len() as int) {
                Some(b) => r matches Err(SpecialRoutineError::InvalidPcBoxCount { routine: rr, box_index: bi, count: c })
                    && rr@ == routine@ && bi == b && c == pc_boxes@[b as int].count,
                None => {
                    let best = lucky_fold(
                        slot_candidates(party.pokemon@, LuckyNumberWinnerSource::Party) + boxes_candidates(
                            pc_boxes@,
                            order,
                            order.len() as int,
                        ),
                        lucky_number,
                    );
                    &&& r matches Ok(x) && x.tier == best.0 && x.source == best.1
                    &&& match best.2 {
                        Some(s) => (r->Ok_0.species matches Some(sp) && sp@ == s) && (r->Ok_0.shown_species matches Some(
                            sh,
                        ) && sh@ == spaced(s)),
                        None => r->Ok_0.species is None && r->Ok_0.shown_species is None,
                    }
                    &&& match best.1 {
                        Some(LuckyNumberWinnerSource::Party) => r->Ok_0.text_label matches Some(t) && t@
                            == "LuckyNumberMatchPartyText"@,
                        Some(LuckyNumberWinnerSource::Pc) => r->Ok_0.text_label matches Some(t) && t@
                            == "LuckyNumberMatchPCText"@,
                        None => r->Ok_0.text_label is None,
                    }
                },
            }
        },
{
    let mut filled = false;
    let mut i: usize = 0;
    while i < party.pokemon.len()
        invariant
            i <= party.pokemon@.len(),
            !filled ==> forall|k: int| 0 <= k < i ==> party.pokemon@[k] is None,
            filled ==> exists|k: int| 0 <= k < party.pokemon@.len() && party.pokemon@[k] is Some,
        decreases party.pokemon.len() - i,
    {
        if party.pokemon[i].is_some() {
            filled = true;
        }
        i += 1;
    }
    if !filled {
        return Ok(LuckyNumberResult { tier: 0, source: None, species: None, shown_species: None, text_label: None });
    }
    let order = match lucky_number_pc_box_order(pc_boxes.len(), current_pc_box, routine) {
        Ok(o) => o,
        Err(e) => return Err(e),
    };
    let mut best_tier: u8 = 0;
    let mut best_source: Option<LuckyNumberWinnerSource> = None;
    let mut best_species: Option<String> = None;
    let Ghost(party_seen) = consider_slots(
        &party.pokemon,
        party.pokemon.len(),
        LuckyNumberWinnerSource::Party,
        lucky_number,
        &mut best_tier,
        &mut best_source,
        &mut best_species,
        Ghost(Seq::empty()),
    );
    proof {
        assert(party.pokemon@.take(party.pokemon@.len() as int) =~= party.pokemon@);
        assert(party_seen =~= slot_candidates(party.pokemon@, LuckyNumberWinnerSource::Party));
    }
    let ghost f = overfull_checks(pc_boxes@, order@);
    let ghost mut seen = party_seen;
    let mut j: usize = 0;
    while j < order.len()
        invariant
            f == overfull_checks(pc_boxes@, order@),
            !(forall|i: int| 0 <= i < party.pokemon@.len() ==> party.pokemon@[i] is None),
            pc_boxes@.len() == 0 ==> order@.len() == 0,
            pc_boxes@.len() > 0 ==> current_pc_box % 16 < pc_boxes@.len() && order@ == box_order(
                pc_boxes@.len() as nat,
                (current_pc_box % 16) as nat,
            ),
            forall|k: int| 0 <= k < order@.len() ==> #[trigger] order@[k] < pc_boxes@.len(),
            j <= order@.len(),
            first_error(f, j as int) is None,
            seen == slot_candidates(party.pokemon@, LuckyNumberWinnerSource::Party) + boxes_candidates(
                pc_boxes@,
                order@,
                j as int,
            ),
            lucky_fold(seen, lucky_number) == (
                best_tier,
                best_source,
                match best_species {
                    Some(s) => Some(s@),
                    None => None,
                },
            ),
        decreases order.len() - j,
    {
        let b = order[j];
        let pc_box = &pc_boxes[b];
        if pc_box.count > MAX_BOX_MONS {
            proof {
                assert(f(j as int) == Some(b));
                lemma_first_error_stays(f, j + 1, order@.len() as int);
            }
            return Err(SpecialRoutineError::InvalidPcBoxCount { routine: copy_text(routine), box_index: b, count: pc_box.count });
        }
        let Ghost(next) = consider_slots(
            &pc_box.pokemon,
            pc_box.count,
            LuckyNumberWinnerSource::Pc,
            lucky_number,
            &mut best_tier,
            &mut best_source,
            &mut best_species,
            Ghost(seen),
        );
        proof {
            assert(next =~= slot_candidates(party.pokemon@, LuckyNumberWinnerSource::Party) + boxes_candidates(
                pc_boxes@,
                order@,
                j + 1,
            ));
            seen = next;
        }
        j += 1;
    }
    let text_label = match best_source {
        Some(LuckyNumberWinnerSource::Party) => Some(copy_text("LuckyNumberMatchPartyText")),
        Some(LuckyNumberWinnerSource::Pc) => Some(copy_text("LuckyNumberMatchPCText")),
        None => None,
    };
    let shown_species = match &best_species {
        Some(s) => Some(spaced_text(s.as_str())),
        None => None,
    };
    Ok(LuckyNumberResult { tier: best_tier, source: best_source, species: best_species, shown_species, text_label })
}

} // verus!
