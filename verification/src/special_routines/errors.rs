//! Why a special routine, or a saved state it reads, was refused.
use vstd::prelude::*;

verus! {

/// Why a special routine, or a saved state it reads, was refused.
#[derive(Debug, PartialEq, Eq)]
pub enum SpecialRoutineError {
    UnsupportedRoutine { routine: String },
    MissingDividerSource { routine: String },
    InactiveDeclaredRoutine { routine: String },
    InvalidState { routine: String, message: String },
    SavedPendingSpecialBattleTypeMissing { battle_type: String },
    UnknownMove { routine: String, party_slot: usize, move_id: String },
    EmptyParty { routine: String },
    NoNonEggPartyPokemon { routine: String },
    MissingSpeciesValue { routine: String },
    MissingScriptValue { routine: String, variable: String },
    MissingCurrentPartySpecies { routine: String },
    MissingCryMetadata { routine: String, species: String },
    UnknownSpecies { routine: String, species: String },
    InvalidNumericValue { routine: String, value: String },
    InvalidUnownPuzzleState { routine: String, message: String },
    InvalidCurrentPcBox { routine: String, current_pc_box: usize, box_count: usize },
    InvalidPcBoxCount { routine: String, box_index: usize, count: usize },
    EventFlag { routine: String, error: String },
    InvalidPartySlot { routine: String, party_slot: usize },
    InvalidMoveSlot { routine: String, party_slot: usize, move_slot: usize },
    CannotDeleteOnlyMove { routine: String, party_slot: usize },
    UnknownItem { routine: String, item_id: String },
    GiftPokemonBuild { routine: String, error: String },
    GiftStorageFull { routine: String, species: String },
    UnhandledBattleTowerAction { routine: String, action: String },
    MobilePasswordTooLong { routine: String },
    InvalidMobilePassword { routine: String },
    InvalidMobileBattleTimer { routine: String, value: String },
    InvalidDayCareCaretaker { routine: String, caretaker: String },
    MissingOddEggDefinitions { routine: String },
    InvalidOddEggTable { routine: String },
    MissingBuenaPasswordCategories { routine: String },
    InvalidBuenaPasswordCategoryIndex { routine: String, index: usize },
    InvalidBuenaPasswordOptionIndex { routine: String, index: usize },
    InvalidBuenaPasswordGuess { routine: String, guess: String },
    SavedBuenaPasswordCategoryIndexOutOfRange { index: usize },
    SavedBuenaPasswordMissingCategory { index: usize, category_id: String },
    SavedBuenaPasswordOptionIndexOutOfRange { index: usize, category_id: String },
    MissingBuenaPrizeDefinitions { routine: String },
    MissingKurtApricornRecipes { routine: String },
    MissingShuckieGift { routine: String },
    MissingDratiniMoveSets { routine: String },
    MissingBugContestConfig { routine: String },
    BugContestTimerNotStarted { routine: String },
    InvalidBugContestConfig { routine: String, message: String },
    MissingBattleTowerRules { routine: String },
    InvalidBattleTowerRules { routine: String, message: String },
    SavedBattleTowerMissingRules,
    SavedBattleTowerLevelGroupOutOfRange { level_group: u8, minimum: u8, maximum: u8 },
    SavedBattleTowerRecordTooLong { field: String, len: usize, max_len: usize },
    SavedBattleTowerEmptySelectedPartySlot { party_index: usize },
    SavedBattleTowerSelectedPartySlotOutOfRange { party_index: usize },
    SavedMagikarpRecordRequiresLengthDefinitions,
    InvalidBattleTowerLevelGroup { routine: String, level_group: u8, minimum: u8, maximum: u8 },
    MissingOakRatingTable { routine: String },
    InvalidOakRatingTable { routine: String, message: String },
    MissingMagikarpLengthTable { routine: String },
    InvalidMagikarpLengthTable { routine: String, message: String },
    MissingHappinessData { routine: String },
    InvalidHappinessData { routine: String, message: String },
    MissingRoamingPokemonDefinitions { routine: String },
    BattleTowerTrainerBuild { routine: String, trainer_id: String, error: String },
    MissingCallerId { routine: String },
    UnknownPhoneContact { routine: String, contact_id: String },
    MissingPhoneContactMap { routine: String, contact_id: String },
    MissingPhoneContactTrainer { routine: String, contact_id: String },
    MissingCallerWildEncounter { routine: String, map_name: String },
    MissingCallerGrassEncounter { routine: String, map_name: String },
    TooFewCallerGrassSlots { routine: String, map_name: String, expected: usize, found: usize },
    UnknownTrainer { routine: String, trainer_id: String },
    EmptyTrainerParty { routine: String, trainer_id: String },
}

} // verus!
