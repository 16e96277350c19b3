//! The Day-Care counters that move on every overworld step.
use vstd::prelude::*;
use crate::pokemon::Pokemon;
use crate::state::{DayCareResidentState, DayCareState};

verus! {

/// The game's divider-driven random source. `random` hands back one byte, and is given the
/// carry flag that the calling routine leaves set.
pub trait DividerSource {
    fn random(&mut self, carry: bool) -> Result<u8, String>;
}

/// Why a Day-Care step failed.
#[derive(Debug, PartialEq, Eq)]
pub enum DayCareStepError {
    Divider(String),
}

/// The 24-bit experience the resident routine reads from a stored experience value.
pub open spec fn resident_experience(e: i32) -> u32 {
    (e as u32) & 0xff_ffff
}

/// Experience and carry after one Day-Care resident step of a resident below level 100:
/// the 24-bit experience goes up by one, unless its low word is `$ffff`, in which case
/// the high byte goes up by one (wrapping) and is capped at `$50`, the carry being cleared
/// exactly when the cap applies.
pub open spec fn resident_step_experience(e: i32) -> (i32, bool) {
    let x = resident_experience(e);
    if x & 0xffff != 0xffff {
        ((x + 1) as i32, true)
    } else {
        let high = crate::step_events::wrap_inc((x >> 16u32) as u8);
        if high < 0x50 {
            ((high as int * 65536) as i32, true)
        } else {
            ((0x50int * 65536) as i32, false)
        }
    }
}

/// The resident slot after one step, and the carry it leaves.
pub open spec fn resident_step(slot: Option<Pokemon>) -> (Option<Pokemon>, bool) {
    match slot {
        Some(p) => if p.level >= 100 {
            (slot, false)
        } else {
            let (e, carry) = resident_step_experience(p.experience);
            (Some(Pokemon { experience: e, ..p }), carry)
        },
        None => (None, false),
    }
}

/// One resident's experience step; returns the carry flag the routine leaves.
fn advance_day_care_resident_step(resident: &mut DayCareResidentState) -> (carry: bool)
    ensures
        final(resident).pokemon == resident_step(old(resident).pokemon).0,
        carry == resident_step(old(resident).pokemon).1,
{
    match &mut resident.pokemon {
        Some(pokemon) => {
            if pokemon.level >= 100 {
                return false;
            }
            let e: i32 = pokemon.experience;
            #[verifier::truncate]
            let experience: u32 = (e as u32) & 0x00ff_ffff;
            assert(experience <= 0xff_ffff) by (bit_vector)
                requires
                    experience == (e as u32) & 0x00ff_ffff,
            ;
            if experience & 0xffff != 0xffff {
                pokemon.experience = (experience + 1) as i32;
                return true;
            }
            assert((experience >> 16u32) <= 0xff) by (bit_vector)
                requires
                    experience <= 0xff_ffff,
            ;
            let shifted: u32 = experience >> 16u32;
            let high_byte: u8 = shifted as u8;
            let incremented_high: u8 = if high_byte == 255 { 0 } else { high_byte + 1 };
            let carry = incremented_high < 0x50;
            let stored_high: u8 = if carry { incremented_high } else { 0x50 };
            pokemon.experience = (stored_high as i32) * 65536;
            carry
        },
        None => false,
    }
}

/// The chance, out of 256, that a finished countdown leaves an egg, by compatibility.
pub open spec fn egg_threshold_spec(compatibility: u8) -> u8 {
    if compatibility == 0 || compatibility == 255 {
        0
    } else if compatibility >= 230 {
        80
    } else if compatibility >= 170 {
        40
    } else if compatibility >= 110 {
        30
    } else {
        10
    }
}

/// The egg chance of a compatibility score.
pub fn day_care_egg_threshold(compatibility: u8) -> (t: u8)
    ensures
        t == egg_threshold_spec(compatibility),
{
    if compatibility == 0 || compatibility == 255 {
        0
    } else if compatibility >= 230 {
        80
    } else if compatibility >= 170 {
        40
    } else if compatibility >= 110 {
        30
    } else {
        10
    }
}

/// Whether a roll of the random byte leaves an egg at this compatibility.
pub open spec fn egg_roll_succeeds(compatibility: u8, roll: u8) -> bool {
    egg_threshold_spec(compatibility) > 0 && roll < egg_threshold_spec(compatibility)
}

/// Decides, from the compatibility and the random roll, whether an egg appears.
pub fn day_care_egg_roll(compatibility: u8, roll: u8) -> (b: bool)
    ensures
        b == egg_roll_succeeds(compatibility, roll),
{
    let threshold = day_care_egg_threshold(compatibility);
    threshold > 0 && roll < threshold
}

/// The Day-Care state after one step, whatever the random source handed back.
/// Both residents gain their experience step; with a breeding pair (compatibility other
/// than 0 and 255) and no egg waiting, the egg countdown goes down by one; when it reaches
/// zero it is reloaded from the random source, and an egg appears only on a winning roll.
pub open spec fn day_care_step_done(d0: DayCareState, d: DayCareState, ok: bool) -> bool {
    let idle = d0.compatibility_score == 0 || d0.compatibility_score == 255 || d0.egg_present;
    let countdown = crate::step_events::wrap_dec(d0.steps_until_next_egg);
    &&& d.man.pokemon == resident_step(d0.man.pokemon).0
    &&& d.lady.pokemon == resident_step(d0.lady.pokemon).0
    &&& d.compatibility_score == d0.compatibility_score
    &&& (idle || countdown != 0) ==> ok
    &&& if idle {
        d.steps_until_next_egg == d0.steps_until_next_egg && d.egg_present == d0.egg_present
    } else if countdown != 0 {
        d.steps_until_next_egg == countdown && d.egg_present == d0.egg_present
    } else if !ok {
        d.egg_present == d0.egg_present
    } else {
        d.egg_present ==> exists|roll: u8| egg_roll_succeeds(d0.compatibility_score, roll)
    }
}

/// The Day-Care after its egg countdown runs out and is reloaded with `reload`: an egg
/// appears when `roll` wins at the pair's compatibility; nothing else changes.
pub open spec fn countdown_reloaded(d0: DayCareState, d: DayCareState, reload: u8, roll: u8) -> bool {
    d == (DayCareState {
        steps_until_next_egg: reload,
        egg_present: d0.egg_present || egg_roll_succeeds(d0.compatibility_score, roll),
        ..d0
    })
}

/// Reloads the egg countdown with the drawn `reload` and rolls for an egg with the drawn
/// `roll`.
pub fn reload_day_care_countdown(day_care: &mut DayCareState, reload: u8, roll: u8)
    ensures
        countdown_reloaded(*old(day_care), *final(day_care), reload, roll),
{
    day_care.steps_until_next_egg = reload;
    let compatibility = day_care.compatibility_score;
    if day_care_egg_roll(compatibility, roll) {
        day_care.egg_present = true;
    }
}

/// One Day-Care step at the overworld-step boundary.
pub fn advance_day_care_step<S: DividerSource>(day_care: &mut DayCareState, rng: &mut S) -> (r: Result<
    (),
    DayCareStepError,
>)
    ensures
        day_care_step_done(*old(day_care), *final(day_care), r is Ok),
{
    advance_day_care_resident_step(&mut day_care.man);
    let countdown_carry = advance_day_care_resident_step(&mut day_care.lady);
    if day_care.compatibility_score == 0 || day_care.compatibility_score == 255 || day_care.egg_present {
        return Ok(());
    }
    let countdown: u8 = if day_care.steps_until_next_egg == 0 {
        255
    } else {
        day_care.steps_until_next_egg - 1
    };
    day_care.steps_until_next_egg = countdown;
    if countdown != 0 {
        return Ok(());
    }
    let reload = match rng.random(countdown_carry) {
        Ok(v) => v,
        Err(message) => {
            return Err(DayCareStepError::Divider(message));
        },
    };
    let compatibility = day_care.compatibility_score;
    if day_care_egg_threshold(compatibility) == 0 {
        day_care.steps_until_next_egg = reload;
        return Ok(());
    }
    let roll = match rng.random(compatibility < 110) {
        Ok(v) => v,
        Err(message) => {
            day_care.steps_until_next_egg = reload;
            return Err(DayCareStepError::Divider(message));
        },
    };
    reload_day_care_countdown(day_care, reload, roll);
    Ok(())
}


// ---- withdrawing a resident ----

/// The level for `experience`, looking from level `from` up: one below the first level whose
/// minimum experience (`minimums[level]`) it has not reached, or 100.
pub open spec fn level_for_experience(experience: i32, minimums: Seq<i32>, from: int) -> int
    decreases 101 - from,
{
    if from > 100 {
        100
    } else if experience < minimums[from] {
        from - 1
    } else {
        level_for_experience(experience, minimums, from + 1)
    }
}

/// The level a resident has reached with its experience, given the minimum experience of each
/// level of its growth rate (`level_minimums[level]` for levels 2 to 100).
pub fn day_care_level_from_experience(pokemon: &Pokemon, level_minimums: &[i32]) -> (level: u8)
    requires
        level_minimums@.len() > 100,
    ensures
        level == level_for_experience(pokemon.experience, level_minimums@, 2),
        1 <= level <= 100,
{
    proof {
        lemma_level_for_experience_bounds(pokemon.experience, level_minimums@, 2);
    }
    let mut l: usize = 2;
    while l <= 100
        invariant
            2 <= l <= 101,
            level_minimums@.len() > 100,
            level_for_experience(pokemon.experience, level_minimums@, 2) == level_for_experience(
                pokemon.experience,
                level_minimums@,
                l as int,
            ),
            1 <= level_for_experience(pokemon.experience, level_minimums@, l as int) <= 100,
        decreases 101 - l,
    {
        if pokemon.experience < level_minimums[l] {
            return (l - 1) as u8;
        }
        proof {
            lemma_level_for_experience_bounds(pokemon.experience, level_minimums@, l + 1);
        }
        l += 1;
    }
    100
}

/// The level found from `from` up lies between `from - 1` and 100.
proof fn lemma_level_for_experience_bounds(experience: i32, minimums: Seq<i32>, from: int)
    requires
        2 <= from,
    ensures
        1 <= level_for_experience(experience, minimums, from) <= 100,
    decreases 101 - from,
{
    if from <= 100 && experience >= minimums[from] {
        lemma_level_for_experience_bounds(experience, minimums, from + 1);
    }
}

/// The Day-Care fee: 100 money, and 100 more for each level gained.
pub fn day_care_withdraw_fee(previous_level: u8, level: u8) -> (fee: u32)
    ensures
        fee == 100 + 100 * (if level > previous_level { level - previous_level } else { 0 }),
{
    let gained: u32 = if level > previous_level {
        (level - previous_level) as u32
    } else {
        0
    };
    100 + gained * 100
}

} // verus!
