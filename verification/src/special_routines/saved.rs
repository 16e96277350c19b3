//! Checks that a loaded save's special-routine state refers only to data the pack provides.
use vstd::prelude::*;
use crate::special_routines::errors::SpecialRoutineError;
use crate::text::{copy_text, text_eq};

verus! {

/// The Magikarp length record of a save.
#[derive(Debug, PartialEq, Eq)]
pub struct MagikarpRecordState {
    pub current_feet: u8,
    pub current_inches: u8,
    pub best_feet: u8,
    pub best_inches: u8,
    pub best_owner_name: String,
}

/// The save holds some Magikarp length.
pub open spec fn has_magikarp_record(r: MagikarpRecordState) -> bool {
    r.current_feet != 0 || r.current_inches != 0 || r.best_feet != 0 || r.best_inches != 0
        || r.best_owner_name@.len() != 0
}

/// A saved Magikarp record needs the pack's length table.
pub fn validate_saved_magikarp_record_references(record: &MagikarpRecordState, has_magikarp_lengths: bool) -> (r: Result<
    (),
    SpecialRoutineError,
>)
    ensures
        r is Err <==> has_magikarp_record(*record) && !has_magikarp_lengths,
        r is Err ==> r->Err_0 is SavedMagikarpRecordRequiresLengthDefinitions,
{
    let has_record = record.current_feet != 0 || record.current_inches != 0 || record.best_feet != 0
        || record.best_inches != 0 || !record.best_owner_name.as_str().is_empty();
    if has_record && !has_magikarp_lengths {
        return Err(SpecialRoutineError::SavedMagikarpRecordRequiresLengthDefinitions);
    }
    Ok(())
}

/// Pending battle types the engine starts itself, each with the routine that starts it.
pub open spec fn builtin_battle_routines() -> Seq<(Seq<char>, Seq<char>)> {
    seq![("BATTLETYPE_TRAINER_HOUSE"@, "TrainerHouse"@), ("BATTLETYPE_CELEBI"@, "CelebiShrineEvent"@)]
}

/// The pending battle types the engine starts itself, with the routines that start them.
pub fn saved_special_battle_type_builtin_routines() -> (v: Vec<(&'static str, &'static str)>)
    ensures
        v@.len() == builtin_battle_routines().len(),
        forall|i: int| 0 <= i < v@.len() ==> (#[trigger] v@[i]).0@ == builtin_battle_routines()[i].0 && v@[i].1@
            == builtin_battle_routines()[i].1,
{
    let mut v: Vec<(&'static str, &'static str)> = Vec::new();
    v.push(("BATTLETYPE_TRAINER_HOUSE", "TrainerHouse"));
    v.push(("BATTLETYPE_CELEBI", "CelebiShrineEvent"));
    v
}

/// The routine of the first built-in battle type equal to `battle_type`.
pub open spec fn builtin_battle_routine(battle_type: Seq<char>) -> Option<Seq<char>> {
    if battle_type == builtin_battle_routines()[0].0 {
        Some(builtin_battle_routines()[0].1)
    } else if battle_type == builtin_battle_routines()[1].0 {
        Some(builtin_battle_routines()[1].1)
    } else {
        None
    }
}

/// The routine that starts a built-in pending battle type.
pub fn saved_special_battle_type_builtin_routine(battle_type: &str) -> (r: Option<&'static str>)
    ensures
        match r {
            Some(routine) => builtin_battle_routine(battle_type@) == Some(routine@),
            None => builtin_battle_routine(battle_type@) is None,
        },
{
    let table = saved_special_battle_type_builtin_routines();
    proof {
        assert(builtin_battle_routines().len() == 2);
    }
    let mut i: usize = 0;
    while i < table.len()
        invariant
            table@.len() == builtin_battle_routines().len(),
            forall|k: int| 0 <= k < table@.len() ==> (#[trigger] table@[k]).0@ == builtin_battle_routines()[k].0
                && table@[k].1@ == builtin_battle_routines()[k].1,
            i <= table@.len(),
            forall|k: int| 0 <= k < i ==> battle_type@ != (#[trigger] table@[k]).0@,
        decreases table.len() - i,
    {
        let (candidate, routine) = table[i];
        if text_eq(candidate, battle_type) {
            proof {
                assert(candidate@ == builtin_battle_routines()[i as int].0);
                assert(routine@ == builtin_battle_routines()[i as int].1);
                if i == 1 {
                    assert(battle_type@ != table@[0].0@);
                }
            }
            return Some(routine);
        }
        i += 1;
    }
    proof {
        assert(battle_type@ != table@[0].0@);
        assert(battle_type@ != table@[1].0@);
    }
    None
}

/// A saved pending battle type must be one the compiled scripts start, or a built-in one
/// whose routine exists.
pub fn validate_saved_pending_special_battle_type<F, G>(
    battle_type: Option<&str>,
    scripted_battle_type_exists: F,
    special_routine_exists: G,
) -> (r: Result<(), SpecialRoutineError>) where F: Fn(&str) -> bool, G: Fn(&str) -> bool
    requires
        forall|s: &str| #[trigger] scripted_battle_type_exists.requires((s,)),
        forall|s: &str| #[trigger] special_routine_exists.requires((s,)),
    ensures
        battle_type is None ==> r is Ok,
        match r {
            Ok(()) => battle_type is None || call_ensures(scripted_battle_type_exists, (battle_type->0,), true) || (
            builtin_battle_routine(battle_type->0@) is Some && exists|routine: &str|
                routine@ == builtin_battle_routine(battle_type->0@)->0 && call_ensures(
                    special_routine_exists,
                    (routine,),
                    true,
                )),
            Err(e) => battle_type is Some && (e matches SpecialRoutineError::SavedPendingSpecialBattleTypeMissing {
                battle_type: b,
            } && b@ == battle_type->0@) && call_ensures(scripted_battle_type_exists, (battle_type->0,), false) && (
            builtin_battle_routine(battle_type->0@) is None || exists|routine: &str|
                routine@ == builtin_battle_routine(battle_type->0@)->0 && call_ensures(
                    special_routine_exists,
                    (routine,),
                    false,
                )),
        },
{
    let battle_type = match battle_type {
        Some(b) => b,
        None => {
            return Ok(());
        },
    };
    if scripted_battle_type_exists(battle_type) {
        return Ok(());
    }
    match saved_special_battle_type_builtin_routine(battle_type) {
        Some(routine) => {
            if special_routine_exists(routine) {
                return Ok(());
            }
        },
        None => {},
    }
    Err(SpecialRoutineError::SavedPendingSpecialBattleTypeMissing { battle_type: copy_text(battle_type) })
}

} // verus!
