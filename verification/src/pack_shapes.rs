//! The shape pack data must have before the game reads it: each kind of special-routine and
//! mart data is checked as it is loaded, and the first problem found is reported.
use vstd::prelude::*;
use crate::ordered::{ByteMap, TextMap, TextSet};
use crate::shop::MartCatalog;
use crate::special_routines::checks::{first_error, lemma_first_error_stays};
use crate::special_routines::bug_contest::{
    encounter_problem_message, encounter_table_problem, validate_bug_contest_encounters, BugContestConfig,
    BugContestEncounterEntry,
};
use crate::special_routines::odd_egg::{lemma_probability_sum_grows, probability_sum, OddEggDefinition};
use crate::special_routines::happiness::{HappinessChangeEntry, HappinessData, HappinessServiceOutcome};
use crate::special_routines::buena::{
    is_known_buena_password_category_type, known_category_type, BuenaPasswordCategories, BuenaPasswordCategoryDefinition,
};
use crate::special_routines::gifts::{BuenaPrizeDefinitions, KurtApricornRecipes, ShuckieGiftDefinition};
use crate::special_routines::ratings::{MagikarpLengthEntry, OakRatingEntry};
use crate::special_routines::tokens::{is_exact_nonempty_special_value, require_special_text, require_special_token, SpecialValueError, SpecialValueErrorView};
use crate::text::{copy_text, is_exact_text, is_exact_token, is_exact_token_text, is_exact_value};

verus! {

/// The first problem found in a piece of pack data as it is loaded.
#[derive(Debug, PartialEq, Eq)]
pub enum PackShapeError {
    /// A named field is not an exact token or exact text.
    Value(SpecialValueError),
    ZeroParkBalls,
    ZeroContestTimer,
    ContestTimerSecondsOutOfRange { timer_seconds: u8 },
    ZeroSelectedContestantCount,
    SelectedContestantsExceedFlags { selected_contestant_count: usize, contestant_flag_count: usize },
    ContestantFlagNotExact { index: usize, flag: String },
    DuplicateContestantFlag { index: usize, flag: String },
    ContestEncounterTable { message: String },
    ContestEncounterLevelRange { species: String, min_level: u8, max_level: u8 },
    EmptyOakRatings,
    OakLimitNotIncreasing { index: usize },
    OddEggMoveCount { move_count: usize },
    OddEggMoveNotExact { index: usize, move_id: String },
    OddEggDvOutOfRange { index: usize, dv: u8 },
    ZeroOddEggProbability,
    OddEggLevelOutOfRange { level: u8 },
    NegativeOddEggExperience { experience: i32 },
    ZeroOddEggHatchCycles,
    EmptyOddEggDefinitions,
    OddEggProbabilityTotal { total_probability: u32 },
    ZeroMagikarpDivisor,
    WideMagikarpDivisor,
    MagikarpRowCount,
    MagikarpThresholdNotIncreasing { index: usize },
    EmptyHappinessChanges,
    EmptyHappinessServices,
    HappinessServiceWithoutOutcomes { routine: String },
    HappinessServiceUnknownChange { routine: String, change_code: u8 },
    DuplicateHappinessCodeName { change_code: u8, code: String },
    EmptyDratiniMoveSets,
    EmptyDratiniMoveSet { mode: u8 },
    LongDratiniMoveSet { mode: u8 },
    DratiniMoveNotExact { mode: u8, move_index: usize, move_id: String },
    ShuckieLevelOutOfRange { level: u8 },
    UnknownBuenaCategoryType { category_type: String },
    ZeroBuenaCategoryPoints,
    EmptyBuenaCategoryOptions,
    BuenaOptionNotExact { index: usize },
    EmptyBuenaOrder,
    EmptyBuenaCategories,
    DuplicateBuenaOrderId { id: String },
    BuenaOrderIdWithoutCategory { id: String },
    BuenaCategoryIdNotOrdered { id: String },
    EmptyKurtRecipes,
    EmptyBuenaPrizes,
    ZeroBuenaPrizeCost { item_id: String },
    MartIdNotExact { mart_id: String },
    MartItemIdNotExact { item_id: String },
}

/// A load problem with its texts as character sequences.
pub enum PackShapeErrorView {
    Value(SpecialValueErrorView),
    ZeroParkBalls,
    ZeroContestTimer,
    ContestTimerSecondsOutOfRange { timer_seconds: u8 },
    ZeroSelectedContestantCount,
    SelectedContestantsExceedFlags { selected_contestant_count: usize, contestant_flag_count: usize },
    ContestantFlagNotExact { index: usize, flag: Seq<char> },
    DuplicateContestantFlag { index: usize, flag: Seq<char> },
    ContestEncounterTable { message: Seq<char> },
    ContestEncounterLevelRange { species: Seq<char>, min_level: u8, max_level: u8 },
    EmptyOakRatings,
    OakLimitNotIncreasing { index: usize },
    OddEggMoveCount { move_count: usize },
    OddEggMoveNotExact { index: usize, move_id: Seq<char> },
    OddEggDvOutOfRange { index: usize, dv: u8 },
    ZeroOddEggProbability,
    OddEggLevelOutOfRange { level: u8 },
    NegativeOddEggExperience { experience: i32 },
    ZeroOddEggHatchCycles,
    EmptyOddEggDefinitions,
    OddEggProbabilityTotal { total_probability: u32 },
    ZeroMagikarpDivisor,
    WideMagikarpDivisor,
    MagikarpRowCount,
    MagikarpThresholdNotIncreasing { index: usize },
    EmptyHappinessChanges,
    EmptyHappinessServices,
    HappinessServiceWithoutOutcomes { routine: Seq<char> },
    HappinessServiceUnknownChange { routine: Seq<char>, change_code: u8 },
    DuplicateHappinessCodeName { change_code: u8, code: Seq<char> },
    EmptyDratiniMoveSets,
    EmptyDratiniMoveSet { mode: u8 },
    LongDratiniMoveSet { mode: u8 },
    DratiniMoveNotExact { mode: u8, move_index: usize, move_id: Seq<char> },
    ShuckieLevelOutOfRange { level: u8 },
    UnknownBuenaCategoryType { category_type: Seq<char> },
    ZeroBuenaCategoryPoints,
    EmptyBuenaCategoryOptions,
    BuenaOptionNotExact { index: usize },
    EmptyBuenaOrder,
    EmptyBuenaCategories,
    DuplicateBuenaOrderId { id: Seq<char> },
    BuenaOrderIdWithoutCategory { id: Seq<char> },
    BuenaCategoryIdNotOrdered { id: Seq<char> },
    EmptyKurtRecipes,
    EmptyBuenaPrizes,
    ZeroBuenaPrizeCost { item_id: Seq<char> },
    MartIdNotExact { mart_id: Seq<char> },
    MartItemIdNotExact { item_id: Seq<char> },
}

impl View for PackShapeError {
    type V = PackShapeErrorView;

    open spec fn view(&self) -> PackShapeErrorView {
        match self {
            PackShapeError::Value(e) => PackShapeErrorView::Value(e@),
            PackShapeError::ZeroParkBalls => PackShapeErrorView::ZeroParkBalls,
            PackShapeError::ZeroContestTimer => PackShapeErrorView::ZeroContestTimer,
            PackShapeError::ContestTimerSecondsOutOfRange { timer_seconds } => {
                PackShapeErrorView::ContestTimerSecondsOutOfRange { timer_seconds: *timer_seconds }
            },
            PackShapeError::ZeroSelectedContestantCount => PackShapeErrorView::ZeroSelectedContestantCount,
            PackShapeError::SelectedContestantsExceedFlags { selected_contestant_count, contestant_flag_count } => {
                PackShapeErrorView::SelectedContestantsExceedFlags {
                    selected_contestant_count: *selected_contestant_count,
                    contestant_flag_count: *contestant_flag_count,
                }
            },
            PackShapeError::ContestantFlagNotExact { index, flag } => {
                PackShapeErrorView::ContestantFlagNotExact { index: *index, flag: flag@ }
            },
            PackShapeError::DuplicateContestantFlag { index, flag } => {
                PackShapeErrorView::DuplicateContestantFlag { index: *index, flag: flag@ }
            },
            PackShapeError::ContestEncounterTable { message } => {
                PackShapeErrorView::ContestEncounterTable { message: message@ }
            },
            PackShapeError::ContestEncounterLevelRange { species, min_level, max_level } => {
                PackShapeErrorView::ContestEncounterLevelRange {
                    species: species@,
                    min_level: *min_level,
                    max_level: *max_level,
                }
            },
            PackShapeError::EmptyOakRatings => PackShapeErrorView::EmptyOakRatings,
            PackShapeError::OakLimitNotIncreasing { index } => PackShapeErrorView::OakLimitNotIncreasing {
                index: *index,
            },
            PackShapeError::OddEggMoveCount { move_count } => PackShapeErrorView::OddEggMoveCount {
                move_count: *move_count,
            },
            PackShapeError::OddEggMoveNotExact { index, move_id } => {
                PackShapeErrorView::OddEggMoveNotExact { index: *index, move_id: move_id@ }
            },
            PackShapeError::OddEggDvOutOfRange { index, dv } => PackShapeErrorView::OddEggDvOutOfRange {
                index: *index,
                dv: *dv,
            },
            PackShapeError::ZeroOddEggProbability => PackShapeErrorView::ZeroOddEggProbability,
            PackShapeError::OddEggLevelOutOfRange { level } => PackShapeErrorView::OddEggLevelOutOfRange {
                level: *level,
            },
            PackShapeError::NegativeOddEggExperience { experience } => {
                PackShapeErrorView::NegativeOddEggExperience { experience: *experience }
            },
            PackShapeError::ZeroOddEggHatchCycles => PackShapeErrorView::ZeroOddEggHatchCycles,
            PackShapeError::EmptyOddEggDefinitions => PackShapeErrorView::EmptyOddEggDefinitions,
            PackShapeError::OddEggProbabilityTotal { total_probability } => {
                PackShapeErrorView::OddEggProbabilityTotal { total_probability: *total_probability }
            },
            PackShapeError::ZeroMagikarpDivisor => PackShapeErrorView::ZeroMagikarpDivisor,
            PackShapeError::WideMagikarpDivisor => PackShapeErrorView::WideMagikarpDivisor,
            PackShapeError::MagikarpRowCount => PackShapeErrorView::MagikarpRowCount,
            PackShapeError::MagikarpThresholdNotIncreasing { index } => {
                PackShapeErrorView::MagikarpThresholdNotIncreasing { index: *index }
            },
            PackShapeError::EmptyHappinessChanges => PackShapeErrorView::EmptyHappinessChanges,
            PackShapeError::EmptyHappinessServices => PackShapeErrorView::EmptyHappinessServices,
            PackShapeError::HappinessServiceWithoutOutcomes { routine } => {
                PackShapeErrorView::HappinessServiceWithoutOutcomes { routine: routine@ }
            },
            PackShapeError::HappinessServiceUnknownChange { routine, change_code } => {
                PackShapeErrorView::HappinessServiceUnknownChange { routine: routine@, change_code: *change_code }
            },
            PackShapeError::DuplicateHappinessCodeName { change_code, code } => {
                PackShapeErrorView::DuplicateHappinessCodeName { change_code: *change_code, code: code@ }
            },
            PackShapeError::EmptyDratiniMoveSets => PackShapeErrorView::EmptyDratiniMoveSets,
            PackShapeError::EmptyDratiniMoveSet { mode } => PackShapeErrorView::EmptyDratiniMoveSet { mode: *mode },
            PackShapeError::LongDratiniMoveSet { mode } => PackShapeErrorView::LongDratiniMoveSet { mode: *mode },
            PackShapeError::DratiniMoveNotExact { mode, move_index, move_id } => {
                PackShapeErrorView::DratiniMoveNotExact { mode: *mode, move_index: *move_index, move_id: move_id@ }
            },
            PackShapeError::ShuckieLevelOutOfRange { level } => PackShapeErrorView::ShuckieLevelOutOfRange {
                level: *level,
            },
            PackShapeError::UnknownBuenaCategoryType { category_type } => {
                PackShapeErrorView::UnknownBuenaCategoryType { category_type: category_type@ }
            },
            PackShapeError::ZeroBuenaCategoryPoints => PackShapeErrorView::ZeroBuenaCategoryPoints,
            PackShapeError::EmptyBuenaCategoryOptions => PackShapeErrorView::EmptyBuenaCategoryOptions,
            PackShapeError::BuenaOptionNotExact { index } => PackShapeErrorView::BuenaOptionNotExact {
                index: *index,
            },
            PackShapeError::EmptyBuenaOrder => PackShapeErrorView::EmptyBuenaOrder,
            PackShapeError::EmptyBuenaCategories => PackShapeErrorView::EmptyBuenaCategories,
            PackShapeError::DuplicateBuenaOrderId { id } => PackShapeErrorView::DuplicateBuenaOrderId { id: id@ },
            PackShapeError::BuenaOrderIdWithoutCategory { id } => {
                PackShapeErrorView::BuenaOrderIdWithoutCategory { id: id@ }
            },
            PackShapeError::BuenaCategoryIdNotOrdered { id } => {
                PackShapeErrorView::BuenaCategoryIdNotOrdered { id: id@ }
            },
            PackShapeError::EmptyKurtRecipes => PackShapeErrorView::EmptyKurtRecipes,
            PackShapeError::EmptyBuenaPrizes => PackShapeErrorView::EmptyBuenaPrizes,
            PackShapeError::ZeroBuenaPrizeCost { item_id } => PackShapeErrorView::ZeroBuenaPrizeCost {
                item_id: item_id@,
            },
            PackShapeError::MartIdNotExact { mart_id } => PackShapeErrorView::MartIdNotExact { mart_id: mart_id@ },
            PackShapeError::MartItemIdNotExact { item_id } => PackShapeErrorView::MartItemIdNotExact {
                item_id: item_id@,
            },
        }
    }
}

/// The first of two checks that finds a problem.
pub open spec fn either(a: Option<PackShapeErrorView>, b: Option<PackShapeErrorView>) -> Option<PackShapeErrorView> {
    if a is Some {
        a
    } else {
        b
    }
}

/// The problem, if any, of a field that must be an exact token.
pub open spec fn token_problem(field: Seq<char>, value: Seq<char>) -> Option<PackShapeErrorView> {
    if is_exact_token(value) {
        None
    } else {
        Some(PackShapeErrorView::Value(SpecialValueErrorView::NotExactToken { field, value }))
    }
}

/// The problem, if any, of a field that must be exact text.
pub open spec fn text_problem(field: Seq<char>, value: Seq<char>) -> Option<PackShapeErrorView> {
    if is_exact_text(value) {
        None
    } else {
        Some(PackShapeErrorView::Value(SpecialValueErrorView::NotExactText { field, value }))
    }
}

/// A check's result reports exactly the expected first problem, or none.
pub open spec fn shape_reported(r: Result<(), PackShapeError>, expected: Option<PackShapeErrorView>) -> bool {
    match r {
        Ok(()) => expected is None,
        Err(e) => expected == Some(e@),
    }
}

fn check_token(field: &str, value: &str) -> (r: Result<(), PackShapeError>)
    ensures
        shape_reported(r, token_problem(field@, value@)),
{
    match require_special_token(field, value) {
        Ok(()) => Ok(()),
        Err(e) => Err(PackShapeError::Value(e)),
    }
}

fn check_text(field: &str, value: &str) -> (r: Result<(), PackShapeError>)
    ensures
        shape_reported(r, text_problem(field@, value@)),
{
    match require_special_text(field, value) {
        Ok(()) => Ok(()),
        Err(e) => Err(PackShapeError::Value(e)),
    }
}

// ---- Oak ratings ----

/// A rating's fanfare and text label must be exact tokens.
pub open spec fn oak_entry_problem(e: OakRatingEntry) -> Option<PackShapeErrorView> {
    either(
        token_problem("oak rating fanfare"@, e.fanfare@),
        token_problem("oak rating textLabel"@, e.text_label@),
    )
}

pub open spec fn oak_entry_checks(entries: Seq<OakRatingEntry>) -> spec_fn(int) -> Option<PackShapeErrorView> {
    |i: int| oak_entry_problem(entries[i])
}

pub open spec fn oak_order_checks(entries: Seq<OakRatingEntry>) -> spec_fn(int) -> Option<PackShapeErrorView> {
    |i: int|
        if 0 < i && entries[i].caught_count_limit <= entries[i - 1].caught_count_limit {
            Some(PackShapeErrorView::OakLimitNotIncreasing { index: i as usize })
        } else {
            None
        }
}

/// Each rating in turn, then: the table is not empty and its limits increase.
pub open spec fn oak_table_problem(entries: Seq<OakRatingEntry>) -> Option<PackShapeErrorView> {
    either(
        first_error(oak_entry_checks(entries), entries.len() as int),
        if entries.len() == 0 {
            Some(PackShapeErrorView::EmptyOakRatings)
        } else {
            first_error(oak_order_checks(entries), entries.len() as int)
        },
    )
}

pub fn check_oak_rating_entry_shape(entry: &OakRatingEntry) -> (r: Result<(), PackShapeError>)
    ensures
        shape_reported(r, oak_entry_problem(*entry)),
{
    match check_token("oak rating fanfare", entry.fanfare.as_str()) {
        Ok(()) => check_token("oak rating textLabel", entry.text_label.as_str()),
        Err(e) => Err(e),
    }
}

pub fn check_oak_rating_table_shape(entries: &[OakRatingEntry]) -> (r: Result<(), PackShapeError>)
    ensures
        shape_reported(r, oak_table_problem(entries@)),
{
    let ghost f = oak_entry_checks(entries@);
    let ghost g = oak_order_checks(entries@);
    let mut i: usize = 0;
    while i < entries.len()
        invariant
            f == oak_entry_checks(entries@),
            i <= entries@.len(),
            first_error(f, i as int) is None,
        decreases entries.len() - i,
    {
        match check_oak_rating_entry_shape(&entries[i]) {
            Ok(()) => {},
            Err(e) => {
                proof {
                    lemma_first_error_stays(f, i + 1, entries@.len() as int);
                }
                return Err(e);
            },
        }
        i += 1;
    }
    if entries.len() == 0 {
        return Err(PackShapeError::EmptyOakRatings);
    }
    let mut k: usize = 0;
    while k < entries.len()
        invariant
            f == oak_entry_checks(entries@),
            g == oak_order_checks(entries@),
            k <= entries@.len(),
            first_error(f, entries@.len() as int) is None,
            first_error(g, k as int) is None,
        decreases entries.len() - k,
    {
        if k > 0 && entries[k].caught_count_limit <= entries[k - 1].caught_count_limit {
            let e = PackShapeError::OakLimitNotIncreasing { index: k };
            proof {
                assert(g(k as int) == Some(e@));
                lemma_first_error_stays(g, k + 1, entries@.len() as int);
            }
            return Err(e);
        }
        k += 1;
    }
    Ok(())
}

// ---- Magikarp lengths ----

/// A length row as read: its divisor must be a nonzero byte.
pub fn magikarp_length_entry_from_raw(threshold: u16, divisor: u16) -> (r: Result<MagikarpLengthEntry, PackShapeError>)
    ensures
        match r {
            Ok(e) => 0 < divisor <= 255 && e.threshold == threshold && e.divisor == divisor,
            Err(e) => (divisor == 0 && e is ZeroMagikarpDivisor) || (divisor > 255 && e is WideMagikarpDivisor),
        },
{
    if divisor == 0 {
        return Err(PackShapeError::ZeroMagikarpDivisor);
    }
    if divisor > 255 {
        return Err(PackShapeError::WideMagikarpDivisor);
    }
    Ok(MagikarpLengthEntry { threshold, divisor: divisor as u8 })
}

pub open spec fn magikarp_divisor_checks(entries: Seq<MagikarpLengthEntry>) -> spec_fn(int) -> Option<PackShapeErrorView> {
    |i: int|
        if entries[i].divisor == 0 {
            Some(PackShapeErrorView::ZeroMagikarpDivisor)
        } else {
            None
        }
}

pub open spec fn magikarp_order_checks(entries: Seq<MagikarpLengthEntry>) -> spec_fn(int) -> Option<PackShapeErrorView> {
    |i: int|
        if 0 < i && entries[i].threshold <= entries[i - 1].threshold {
            Some(PackShapeErrorView::MagikarpThresholdNotIncreasing { index: i as usize })
        } else {
            None
        }
}

/// Each row's divisor is nonzero, then: fourteen rows whose thresholds increase.
pub open spec fn magikarp_table_problem(entries: Seq<MagikarpLengthEntry>) -> Option<PackShapeErrorView> {
    either(
        first_error(magikarp_divisor_checks(entries), entries.len() as int),
        if entries.len() != 14 {
            Some(PackShapeErrorView::MagikarpRowCount)
        } else {
            first_error(magikarp_order_checks(entries), 14)
        },
    )
}

pub fn check_magikarp_length_table_shape(entries: &[MagikarpLengthEntry]) -> (r: Result<(), PackShapeError>)
    ensures
        shape_reported(r, magikarp_table_problem(entries@)),
{
    let ghost f = magikarp_divisor_checks(entries@);
    let ghost g = magikarp_order_checks(entries@);
    let mut i: usize = 0;
    while i < entries.len()
        invariant
            f == magikarp_divisor_checks(entries@),
            i <= entries@.len(),
            first_error(f, i as int) is None,
        decreases entries.len() - i,
    {
        if entries[i].divisor == 0 {
            proof {
                assert(f(i as int) is Some);
                lemma_first_error_stays(f, i + 1, entries@.len() as int);
            }
            return Err(PackShapeError::ZeroMagikarpDivisor);
        }
        i += 1;
    }
    if entries.len() != 14 {
        return Err(PackShapeError::MagikarpRowCount);
    }
    let mut k: usize = 0;
    while k < 14
        invariant
            f == magikarp_divisor_checks(entries@),
            g == magikarp_order_checks(entries@),
            entries@.len() == 14,
            k <= 14,
            first_error(f, 14) is None,
            first_error(g, k as int) is None,
        decreases 14 - k,
    {
        if k > 0 && entries[k].threshold <= entries[k - 1].threshold {
            let e = PackShapeError::MagikarpThresholdNotIncreasing { index: k };
            proof {
                assert(g(k as int) == Some(e@));
                lemma_first_error_stays(g, k + 1, 14);
            }
            return Err(e);
        }
        k += 1;
    }
    Ok(())
}

// ---- Shuckie ----

/// Species, level 1 to 100, held item, nickname, trainer name and engine flag, in that order.
pub open spec fn shuckie_problem(g: ShuckieGiftDefinition) -> Option<PackShapeErrorView> {
    either(
        token_problem("shuckie species"@, g.species@),
        either(
            if g.level == 0 || g.level > 100 {
                Some(PackShapeErrorView::ShuckieLevelOutOfRange { level: g.level })
            } else {
                None
            },
            either(
                token_problem("shuckie heldItem"@, g.held_item@),
                either(
                    text_problem("shuckie nickname"@, g.nickname@),
                    either(
                        text_problem("shuckie originalTrainerName"@, g.original_trainer_name@),
                        token_problem("shuckie gotTodayEngineFlag"@, g.got_today_engine_flag@),
                    ),
                ),
            ),
        ),
    )
}

pub fn check_shuckie_gift_shape(gift: &ShuckieGiftDefinition) -> (r: Result<(), PackShapeError>)
    ensures
        shape_reported(r, shuckie_problem(*gift)),
{
    if let Err(e) = check_token("shuckie species", gift.species.as_str()) {
        return Err(e);
    }
    if gift.level == 0 || gift.level > 100 {
        return Err(PackShapeError::ShuckieLevelOutOfRange { level: gift.level });
    }
    if let Err(e) = check_token("shuckie heldItem", gift.held_item.as_str()) {
        return Err(e);
    }
    if let Err(e) = check_text("shuckie nickname", gift.nickname.as_str()) {
        return Err(e);
    }
    if let Err(e) = check_text("shuckie originalTrainerName", gift.original_trainer_name.as_str()) {
        return Err(e);
    }
    check_token("shuckie gotTodayEngineFlag", gift.got_today_engine_flag.as_str())
}

// ---- Kurt and Buena prizes ----

pub open spec fn kurt_recipe_checks(recipes: KurtApricornRecipes) -> spec_fn(int) -> Option<PackShapeErrorView> {
    |i: int|
        either(
            token_problem("Kurt apricorn recipe apricorn id"@, recipes.key_seq()[i]),
            token_problem("Kurt apricorn recipe ball id"@, recipes.value_seq()[i]@),
        )
}

/// The recipes are not empty, and each apricorn and ball, in apricorn order, is an exact token.
pub open spec fn kurt_recipes_problem(recipes: KurtApricornRecipes) -> Option<PackShapeErrorView> {
    if recipes.key_seq().len() == 0 {
        Some(PackShapeErrorView::EmptyKurtRecipes)
    } else {
        first_error(kurt_recipe_checks(recipes), recipes.key_seq().len() as int)
    }
}

pub fn check_kurt_apricorn_recipes_shape(recipes: &KurtApricornRecipes) -> (r: Result<(), PackShapeError>)
    ensures
        shape_reported(r, kurt_recipes_problem(*recipes)),
{
    let n = recipes.len();
    if n == 0 {
        return Err(PackShapeError::EmptyKurtRecipes);
    }
    let ghost f = kurt_recipe_checks(*recipes);
    let mut i: usize = 0;
    while i < n
        invariant
            f == kurt_recipe_checks(*recipes),
            n == recipes.key_seq().len(),
            n == recipes.value_seq().len(),
            i <= n,
            first_error(f, i as int) is None,
        decreases n - i,
    {
        let apricorn = recipes.key_at(i);
        let ball = recipes.value_at(i);
        let step = match check_token("Kurt apricorn recipe apricorn id", apricorn.as_str()) {
            Ok(()) => check_token("Kurt apricorn recipe ball id", ball.as_str()),
            Err(e) => Err(e),
        };
        if let Err(e) = step {
            proof {
                assert(f(i as int) == Some(e@));
                lemma_first_error_stays(f, i + 1, n as int);
            }
            return Err(e);
        }
        i += 1;
    }
    Ok(())
}

pub open spec fn buena_prize_checks(prizes: BuenaPrizeDefinitions) -> spec_fn(int) -> Option<PackShapeErrorView> {
    |i: int|
        either(
            token_problem("Buena prize item id"@, prizes.key_seq()[i]),
            if prizes.value_seq()[i] == 0 {
                Some(PackShapeErrorView::ZeroBuenaPrizeCost { item_id: prizes.key_seq()[i] })
            } else {
                None
            },
        )
}

/// The prizes are not empty, and each, in item order, names an exact token and costs something.
pub open spec fn buena_prizes_problem(prizes: BuenaPrizeDefinitions) -> Option<PackShapeErrorView> {
    if prizes.key_seq().len() == 0 {
        Some(PackShapeErrorView::EmptyBuenaPrizes)
    } else {
        first_error(buena_prize_checks(prizes), prizes.key_seq().len() as int)
    }
}

pub fn check_buena_prizes_shape(prizes: &BuenaPrizeDefinitions) -> (r: Result<(), PackShapeError>)
    ensures
        shape_reported(r, buena_prizes_problem(*prizes)),
{
    let n = prizes.len();
    if n == 0 {
        return Err(PackShapeError::EmptyBuenaPrizes);
    }
    let ghost f = buena_prize_checks(*prizes);
    let mut i: usize = 0;
    while i < n
        invariant
            f == buena_prize_checks(*prizes),
            n == prizes.key_seq().len(),
            n == prizes.value_seq().len(),
            i <= n,
            first_error(f, i as int) is None,
        decreases n - i,
    {
        let item_id = prizes.key_at(i);
        let cost = *prizes.value_at(i);
        let step = match check_token("Buena prize item id", item_id.as_str()) {
            Ok(()) => if cost == 0 {
                Err(PackShapeError::ZeroBuenaPrizeCost { item_id: copy_text(item_id.as_str()) })
            } else {
                Ok(())
            },
            Err(e) => Err(e),
        };
        if let Err(e) = step {
            proof {
                assert(f(i as int) == Some(e@));
                lemma_first_error_stays(f, i + 1, n as int);
            }
            return Err(e);
        }
        i += 1;
    }
    Ok(())
}

// ---- Mart catalog ----

pub open spec fn mart_item_checks(items: Seq<String>) -> spec_fn(int) -> Option<PackShapeErrorView> {
    |j: int|
        if is_exact_token(items[j]@) {
            None
        } else {
            Some(PackShapeErrorView::MartItemIdNotExact { item_id: items[j]@ })
        }
}

/// A mart's id, then each of its items in stock order, must be an exact token.
pub open spec fn mart_problem(mart_id: Seq<char>, items: Seq<String>) -> Option<PackShapeErrorView> {
    if !is_exact_token(mart_id) {
        Some(PackShapeErrorView::MartIdNotExact { mart_id })
    } else {
        first_error(mart_item_checks(items), items.len() as int)
    }
}

pub open spec fn mart_checks(catalog: MartCatalog) -> spec_fn(int) -> Option<PackShapeErrorView> {
    |i: int| mart_problem(catalog.0.key_seq()[i], catalog.0.value_seq()[i]@)
}

/// Each mart in id order.
pub open spec fn mart_catalog_problem(catalog: MartCatalog) -> Option<PackShapeErrorView> {
    first_error(mart_checks(catalog), catalog.0.key_seq().len() as int)
}

fn check_mart_shape(mart_id: &str, items: &Vec<String>) -> (r: Result<(), PackShapeError>)
    ensures
        shape_reported(r, mart_problem(mart_id@, items@)),
{
    if !is_exact_token_str(mart_id) {
        return Err(PackShapeError::MartIdNotExact { mart_id: copy_text(mart_id) });
    }
    let ghost f = mart_item_checks(items@);
    let mut j: usize = 0;
    while j < items.len()
        invariant
            f == mart_item_checks(items@),
            is_exact_token(mart_id@),
            j <= items@.len(),
            first_error(f, j as int) is None,
        decreases items.len() - j,
    {
        if !is_exact_token_str(items[j].as_str()) {
            let e = PackShapeError::MartItemIdNotExact { item_id: copy_text(items[j].as_str()) };
            proof {
                assert(f(j as int) == Some(e@));
                lemma_first_error_stays(f, j + 1, items@.len() as int);
            }
            return Err(e);
        }
        j += 1;
    }
    Ok(())
}

pub fn check_mart_catalog_shape(catalog: &MartCatalog) -> (r: Result<(), PackShapeError>)
    ensures
        shape_reported(r, mart_catalog_problem(*catalog)),
{
    let n = catalog.0.len();
    let ghost f = mart_checks(*catalog);
    let mut i: usize = 0;
    while i < n
        invariant
            f == mart_checks(*catalog),
            n == catalog.0.key_seq().len(),
            n == catalog.0.value_seq().len(),
            i <= n,
            first_error(f, i as int) is None,
        decreases n - i,
    {
        if let Err(e) = check_mart_shape(catalog.0.key_at(i).as_str(), catalog.0.value_at(i)) {
            proof {
                assert(f(i as int) == Some(e@));
                lemma_first_error_stays(f, i + 1, n as int);
            }
            return Err(e);
        }
        i += 1;
    }
    Ok(())
}

// ---- Odd Egg ----

pub open spec fn odd_egg_move_checks(moves: Seq<String>) -> spec_fn(int) -> Option<PackShapeErrorView> {
    |j: int|
        if is_exact_token(moves[j]@) {
            None
        } else {
            Some(PackShapeErrorView::OddEggMoveNotExact { index: j as usize, move_id: moves[j]@ })
        }
}

pub open spec fn odd_egg_dv_checks(dvs: Seq<u8>) -> spec_fn(int) -> Option<PackShapeErrorView> {
    |j: int|
        if dvs[j] > 15 {
            Some(PackShapeErrorView::OddEggDvOutOfRange { index: j as usize, dv: dvs[j] })
        } else {
            None
        }
}

/// Species, one to four exact moves, DVs of at most 15, a nonzero chance, level 1 to 100, a
/// nonnegative experience, nonzero hatch cycles, then the nickname and trainer name.
pub open spec fn odd_egg_definition_problem(d: OddEggDefinition) -> Option<PackShapeErrorView> {
    either(
        token_problem("odd egg species"@, d.species@),
        either(
            if d.moves@.len() == 0 || d.moves@.len() > 4 {
                Some(PackShapeErrorView::OddEggMoveCount { move_count: d.moves@.len() as usize })
            } else {
                first_error(odd_egg_move_checks(d.moves@), d.moves@.len() as int)
            },
            either(
                first_error(odd_egg_dv_checks(d.dvs@), 4),
                either(
                    if d.probability == 0 {
                        Some(PackShapeErrorView::ZeroOddEggProbability)
                    } else {
                        None
                    },
                    either(
                        if d.level == 0 || d.level > 100 {
                            Some(PackShapeErrorView::OddEggLevelOutOfRange { level: d.level })
                        } else {
                            None
                        },
                        either(
                            if d.experience < 0 {
                                Some(PackShapeErrorView::NegativeOddEggExperience { experience: d.experience })
                            } else {
                                None
                            },
                            either(
                                if d.hatch_cycles == 0 {
                                    Some(PackShapeErrorView::ZeroOddEggHatchCycles)
                                } else {
                                    None
                                },
                                either(
                                    text_problem("odd egg nickname"@, d.nickname@),
                                    text_problem("odd egg originalTrainerName"@, d.original_trainer_name@),
                                ),
                            ),
                        ),
                    ),
                ),
            ),
        ),
    )
}

fn check_odd_egg_moves(moves: &Vec<String>) -> (r: Result<(), PackShapeError>)
    ensures
        shape_reported(r, first_error(odd_egg_move_checks(moves@), moves@.len() as int)),
{
    let ghost f = odd_egg_move_checks(moves@);
    let mut j: usize = 0;
    while j < moves.len()
        invariant
            f == odd_egg_move_checks(moves@),
            j <= moves@.len(),
            first_error(f, j as int) is None,
        decreases moves.len() - j,
    {
        if !is_exact_token_str(moves[j].as_str()) {
            let e = PackShapeError::OddEggMoveNotExact { index: j, move_id: copy_text(moves[j].as_str()) };
            proof {
                assert(f(j as int) == Some(e@));
                lemma_first_error_stays(f, j + 1, moves@.len() as int);
            }
            return Err(e);
        }
        j += 1;
    }
    Ok(())
}

fn check_odd_egg_dvs(dvs: &[u8; 4]) -> (r: Result<(), PackShapeError>)
    ensures
        shape_reported(r, first_error(odd_egg_dv_checks(dvs@), 4)),
{
    let ghost f = odd_egg_dv_checks(dvs@);
    let mut j: usize = 0;
    while j < 4
        invariant
            f == odd_egg_dv_checks(dvs@),
            j <= 4,
            first_error(f, j as int) is None,
        decreases 4 - j,
    {
        if dvs[j] > 15 {
            let e = PackShapeError::OddEggDvOutOfRange { index: j, dv: dvs[j] };
            proof {
                assert(f(j as int) == Some(e@));
                lemma_first_error_stays(f, j + 1, 4);
            }
            return Err(e);
        }
        j += 1;
    }
    Ok(())
}

pub fn check_odd_egg_definition_shape(definition: &OddEggDefinition) -> (r: Result<(), PackShapeError>)
    ensures
        shape_reported(r, odd_egg_definition_problem(*definition)),
{
    if let Err(e) = check_token("odd egg species", definition.species.as_str()) {
        return Err(e);
    }
    if definition.moves.len() == 0 || definition.moves.len() > 4 {
        return Err(PackShapeError::OddEggMoveCount { move_count: definition.moves.len() });
    }
    if let Err(e) = check_odd_egg_moves(&definition.moves) {
        return Err(e);
    }
    if let Err(e) = check_odd_egg_dvs(&definition.dvs) {
        return Err(e);
    }
    if definition.probability == 0 {
        return Err(PackShapeError::ZeroOddEggProbability);
    }
    if definition.level == 0 || definition.level > 100 {
        return Err(PackShapeError::OddEggLevelOutOfRange { level: definition.level });
    }
    if definition.experience < 0 {
        return Err(PackShapeError::NegativeOddEggExperience { experience: definition.experience });
    }
    if definition.hatch_cycles == 0 {
        return Err(PackShapeError::ZeroOddEggHatchCycles);
    }
    if let Err(e) = check_text("odd egg nickname", definition.nickname.as_str()) {
        return Err(e);
    }
    check_text("odd egg originalTrainerName", definition.original_trainer_name.as_str())
}

pub open spec fn odd_egg_definition_checks(defs: Seq<OddEggDefinition>) -> spec_fn(int) -> Option<PackShapeErrorView> {
    |i: int| odd_egg_definition_problem(defs[i])
}

/// Each definition in turn, then: the table is not empty and its chances total 100.
pub open spec fn odd_egg_table_problem(defs: Seq<OddEggDefinition>) -> Option<PackShapeErrorView> {
    either(
        first_error(odd_egg_definition_checks(defs), defs.len() as int),
        if defs.len() == 0 {
            Some(PackShapeErrorView::EmptyOddEggDefinitions)
        } else if probability_sum(defs, defs.len() as int) != 100 {
            Some(
                PackShapeErrorView::OddEggProbabilityTotal {
                    total_probability: probability_sum(defs, defs.len() as int) as u32,
                },
            )
        } else {
            None
        },
    )
}

pub fn check_odd_egg_table_shape(definitions: &[OddEggDefinition]) -> (r: Result<(), PackShapeError>)
    requires
        probability_sum(definitions@, definitions@.len() as int) <= u32::MAX,
    ensures
        shape_reported(r, odd_egg_table_problem(definitions@)),
{
    let ghost defs = definitions@;
    let ghost f = odd_egg_definition_checks(defs);
    let mut i: usize = 0;
    while i < definitions.len()
        invariant
            defs == definitions@,
            f == odd_egg_definition_checks(defs),
            i <= defs.len(),
            first_error(f, i as int) is None,
        decreases definitions.len() - i,
    {
        if let Err(e) = check_odd_egg_definition_shape(&definitions[i]) {
            proof {
                lemma_first_error_stays(f, i + 1, defs.len() as int);
            }
            return Err(e);
        }
        i += 1;
    }
    if definitions.len() == 0 {
        return Err(PackShapeError::EmptyOddEggDefinitions);
    }
    let mut total: u32 = 0;
    let mut k: usize = 0;
    while k < definitions.len()
        invariant
            defs == definitions@,
            k <= defs.len(),
            probability_sum(defs, defs.len() as int) <= u32::MAX,
            total == probability_sum(defs, k as int),
        decreases definitions.len() - k,
    {
        proof {
            lemma_probability_sum_grows(defs, k + 1, defs.len() as int);
        }
        total = total + definitions[k].probability as u32;
        k += 1;
    }
    if total != 100 {
        return Err(PackShapeError::OddEggProbabilityTotal { total_probability: total });
    }
    Ok(())
}

// ---- Bug-Catching Contest ----

/// An encounter's species is an exact token and its levels run 1..=100 upward.
pub open spec fn contest_encounter_problem(e: BugContestEncounterEntry) -> Option<PackShapeErrorView> {
    either(
        token_problem("bug contest encounter species"@, e.species@),
        if e.min_level == 0 || e.min_level > e.max_level || e.max_level > 100 {
            Some(
                PackShapeErrorView::ContestEncounterLevelRange {
                    species: e.species@,
                    min_level: e.min_level,
                    max_level: e.max_level,
                },
            )
        } else {
            None
        },
    )
}

pub fn check_bug_contest_encounter_shape(entry: &BugContestEncounterEntry) -> (r: Result<(), PackShapeError>)
    ensures
        shape_reported(r, contest_encounter_problem(*entry)),
{
    if let Err(e) = check_token("bug contest encounter species", entry.species.as_str()) {
        return Err(e);
    }
    if entry.min_level == 0 || entry.min_level > entry.max_level || entry.max_level > 100 {
        return Err(
            PackShapeError::ContestEncounterLevelRange {
                species: copy_text(entry.species.as_str()),
                min_level: entry.min_level,
                max_level: entry.max_level,
            },
        );
    }
    Ok(())
}

/// Whether a flag equal to `c` comes before position `i`.
pub open spec fn flag_seen_before(flags: Seq<String>, i: int, c: Seq<char>) -> bool {
    exists|j: int| 0 <= j < i && #[trigger] flags[j]@ == c
}

pub open spec fn contest_flag_checks(flags: Seq<String>) -> spec_fn(int) -> Option<PackShapeErrorView> {
    |i: int|
        if !is_exact_token(flags[i]@) {
            Some(PackShapeErrorView::ContestantFlagNotExact { index: i as usize, flag: flags[i]@ })
        } else if flag_seen_before(flags, i, flags[i]@) {
            Some(PackShapeErrorView::DuplicateContestantFlag { index: i as usize, flag: flags[i]@ })
        } else {
            None
        }
}

pub open spec fn contest_encounter_checks(es: Seq<BugContestEncounterEntry>) -> spec_fn(int) -> Option<PackShapeErrorView> {
    |i: int| contest_encounter_problem(es[i])
}

/// The contest's settings: each encounter row, then nonzero park balls, a nonzero timer of
/// at most 59 seconds past the minute, a nonzero contestant count within the flags, exact
/// and distinct flags, and the encounter table's own shape.
pub open spec fn contest_config_problem(c: BugContestConfig) -> Option<PackShapeErrorView> {
    either(
        first_error(contest_encounter_checks(c.encounters@), c.encounters@.len() as int),
        if c.park_balls == 0 {
            Some(PackShapeErrorView::ZeroParkBalls)
        } else if c.timer_minutes == 0 && c.timer_seconds == 0 {
            Some(PackShapeErrorView::ZeroContestTimer)
        } else if c.timer_seconds > 59 {
            Some(PackShapeErrorView::ContestTimerSecondsOutOfRange { timer_seconds: c.timer_seconds })
        } else if c.selected_contestant_count == 0 {
            Some(PackShapeErrorView::ZeroSelectedContestantCount)
        } else if c.contestant_flags@.len() < c.selected_contestant_count {
            Some(
                PackShapeErrorView::SelectedContestantsExceedFlags {
                    selected_contestant_count: c.selected_contestant_count,
                    contestant_flag_count: c.contestant_flags@.len() as usize,
                },
            )
        } else {
            either(
                first_error(contest_flag_checks(c.contestant_flags@), c.contestant_flags@.len() as int),
                match encounter_table_problem(c.encounters@) {
                    Some(p) => Some(PackShapeErrorView::ContestEncounterTable { message: encounter_problem_message(p) }),
                    None => None,
                },
            )
        },
    )
}

fn check_contestant_flags(flags: &Vec<String>) -> (r: Result<(), PackShapeError>)
    ensures
        shape_reported(r, first_error(contest_flag_checks(flags@), flags@.len() as int)),
{
    let ghost f = contest_flag_checks(flags@);
    let mut seen = TextSet::new();
    let mut i: usize = 0;
    while i < flags.len()
        invariant
            f == contest_flag_checks(flags@),
            i <= flags@.len(),
            first_error(f, i as int) is None,
            forall|c: Seq<char>| #[trigger] seen.view().contains(c) == flag_seen_before(flags@, i as int, c),
        decreases flags.len() - i,
    {
        let flag = flags[i].as_str();
        if !is_exact_token_str(flag) {
            let e = PackShapeError::ContestantFlagNotExact { index: i, flag: copy_text(flag) };
            proof {
                assert(f(i as int) == Some(e@));
                lemma_first_error_stays(f, i + 1, flags@.len() as int);
            }
            return Err(e);
        }
        let added = seen.insert(copy_text(flag));
        if !added {
            let e = PackShapeError::DuplicateContestantFlag { index: i, flag: copy_text(flag) };
            proof {
                assert(flag_seen_before(flags@, i as int, flags@[i as int]@));
                assert(f(i as int) == Some(e@));
                lemma_first_error_stays(f, i + 1, flags@.len() as int);
            }
            return Err(e);
        }
        proof {
            assert(!flag_seen_before(flags@, i as int, flags@[i as int]@));
            assert(f(i as int) is None);
            assert forall|c: Seq<char>| #[trigger] seen.view().contains(c) == flag_seen_before(flags@, i + 1, c) by {
                if c == flags@[i as int]@ {
                    assert(flags@[i as int]@ == c);
                } else if flag_seen_before(flags@, i + 1, c) {
                    let j = choose|j: int| 0 <= j < i + 1 && #[trigger] flags@[j]@ == c;
                    assert(j < i);
                    assert(flag_seen_before(flags@, i as int, c));
                }
            }
        }
        i += 1;
    }
    Ok(())
}

pub fn check_bug_contest_config_shape(config: &BugContestConfig) -> (r: Result<(), PackShapeError>)
    ensures
        shape_reported(r, contest_config_problem(*config)),
{
    let ghost es = config.encounters@;
    let ghost f = contest_encounter_checks(es);
    let mut i: usize = 0;
    while i < config.encounters.len()
        invariant
            es == config.encounters@,
            f == contest_encounter_checks(es),
            i <= es.len(),
            first_error(f, i as int) is None,
        decreases config.encounters.len() - i,
    {
        if let Err(e) = check_bug_contest_encounter_shape(&config.encounters[i]) {
            proof {
                lemma_first_error_stays(f, i + 1, es.len() as int);
            }
            return Err(e);
        }
        i += 1;
    }
    if config.park_balls == 0 {
        return Err(PackShapeError::ZeroParkBalls);
    }
    if config.timer_minutes == 0 && config.timer_seconds == 0 {
        return Err(PackShapeError::ZeroContestTimer);
    }
    if config.timer_seconds > 59 {
        return Err(PackShapeError::ContestTimerSecondsOutOfRange { timer_seconds: config.timer_seconds });
    }
    if config.selected_contestant_count == 0 {
        return Err(PackShapeError::ZeroSelectedContestantCount);
    }
    if config.contestant_flags.len() < config.selected_contestant_count {
        return Err(
            PackShapeError::SelectedContestantsExceedFlags {
                selected_contestant_count: config.selected_contestant_count,
                contestant_flag_count: config.contestant_flags.len(),
            },
        );
    }
    if let Err(e) = check_contestant_flags(&config.contestant_flags) {
        return Err(e);
    }
    match validate_bug_contest_encounters(config.encounters.as_slice()) {
        Ok(()) => Ok(()),
        Err(message) => Err(PackShapeError::ContestEncounterTable { message }),
    }
}

// ---- Happiness ----

/// A change entry's code name is an exact token.
pub open spec fn happiness_entry_problem(e: HappinessChangeEntry) -> Option<PackShapeErrorView> {
    token_problem("happiness change code"@, e.code@)
}

pub fn check_happiness_change_entry_shape(entry: &HappinessChangeEntry) -> (r: Result<(), PackShapeError>)
    ensures
        shape_reported(r, happiness_entry_problem(*entry)),
{
    check_token("happiness change code", entry.code.as_str())
}

pub open spec fn happiness_entry_checks(changes: ByteMap<HappinessChangeEntry>) -> spec_fn(int) -> Option<PackShapeErrorView> {
    |k: int|
        match changes.slots()[k] {
            Some(e) => happiness_entry_problem(e),
            None => None,
        }
}

pub open spec fn outcome_checks(
    changes: ByteMap<HappinessChangeEntry>,
    routine: Seq<char>,
    outcomes: Seq<HappinessServiceOutcome>,
) -> spec_fn(int) -> Option<PackShapeErrorView> {
    |j: int|
        if changes.view().contains_key(outcomes[j].change_code) {
            None
        } else {
            Some(
                PackShapeErrorView::HappinessServiceUnknownChange {
                    routine,
                    change_code: outcomes[j].change_code,
                },
            )
        }
}

/// A service's routine is an exact token, and it has outcomes whose changes all exist.
pub open spec fn happiness_service_problem(
    changes: ByteMap<HappinessChangeEntry>,
    routine: Seq<char>,
    outcomes: Seq<HappinessServiceOutcome>,
) -> Option<PackShapeErrorView> {
    either(
        token_problem("happiness service routine"@, routine),
        if outcomes.len() == 0 {
            Some(PackShapeErrorView::HappinessServiceWithoutOutcomes { routine })
        } else {
            first_error(outcome_checks(changes, routine, outcomes), outcomes.len() as int)
        },
    )
}

pub open spec fn happiness_service_checks(data: HappinessData) -> spec_fn(int) -> Option<PackShapeErrorView> {
    |i: int| happiness_service_problem(data.changes, data.services.key_seq()[i], data.services.value_seq()[i]@)
}

/// The code name at change byte `k`, if there is a change there.
pub open spec fn code_at(changes: ByteMap<HappinessChangeEntry>, k: int) -> Option<Seq<char>> {
    match changes.slots()[k] {
        Some(e) => Some(e.code@),
        None => None,
    }
}

/// Whether a change byte below `k` has code name `c`.
pub open spec fn code_used_below(changes: ByteMap<HappinessChangeEntry>, k: int, c: Seq<char>) -> bool {
    exists|k2: int| 0 <= k2 < k && #[trigger] code_at(changes, k2) == Some(c)
}

pub open spec fn duplicate_code_checks(changes: ByteMap<HappinessChangeEntry>) -> spec_fn(int) -> Option<PackShapeErrorView> {
    |k: int|
        match changes.slots()[k] {
            Some(e) => if code_used_below(changes, k, e.code@) {
                Some(PackShapeErrorView::DuplicateHappinessCodeName { change_code: k as u8, code: e.code@ })
            } else {
                None
            },
            None => None,
        }
}

/// Each change entry, then: changes and services are not empty, each service in routine
/// order, and no two change bytes share a code name.
pub open spec fn happiness_data_problem(data: HappinessData) -> Option<PackShapeErrorView> {
    either(
        first_error(happiness_entry_checks(data.changes), 256),
        if data.changes.view().dom() == Set::<u8>::empty() {
            Some(PackShapeErrorView::EmptyHappinessChanges)
        } else if data.services.key_seq().len() == 0 {
            Some(PackShapeErrorView::EmptyHappinessServices)
        } else {
            either(
                first_error(happiness_service_checks(data), data.services.key_seq().len() as int),
                first_error(duplicate_code_checks(data.changes), 256),
            )
        },
    )
}

fn check_happiness_service(
    changes: &ByteMap<HappinessChangeEntry>,
    routine: &str,
    outcomes: &Vec<HappinessServiceOutcome>,
) -> (r: Result<(), PackShapeError>)
    ensures
        shape_reported(r, happiness_service_problem(*changes, routine@, outcomes@)),
{
    if let Err(e) = check_token("happiness service routine", routine) {
        return Err(e);
    }
    if outcomes.len() == 0 {
        return Err(PackShapeError::HappinessServiceWithoutOutcomes { routine: copy_text(routine) });
    }
    let ghost f = outcome_checks(*changes, routine@, outcomes@);
    let mut j: usize = 0;
    while j < outcomes.len()
        invariant
            f == outcome_checks(*changes, routine@, outcomes@),
            is_exact_token(routine@),
            outcomes@.len() > 0,
            j <= outcomes@.len(),
            first_error(f, j as int) is None,
        decreases outcomes.len() - j,
    {
        let code = outcomes[j].change_code;
        if !changes.contains_key(code) {
            let e = PackShapeError::HappinessServiceUnknownChange { routine: copy_text(routine), change_code: code };
            proof {
                assert(f(j as int) == Some(e@));
                lemma_first_error_stays(f, j + 1, outcomes@.len() as int);
            }
            return Err(e);
        }
        j += 1;
    }
    Ok(())
}

fn check_distinct_code_names(changes: &ByteMap<HappinessChangeEntry>) -> (r: Result<(), PackShapeError>)
    ensures
        shape_reported(r, first_error(duplicate_code_checks(*changes), 256)),
{
    let ghost f = duplicate_code_checks(*changes);
    let mut seen = TextSet::new();
    let mut k: usize = 0;
    while k < 256
        invariant
            f == duplicate_code_checks(*changes),
            k <= 256,
            first_error(f, k as int) is None,
            forall|c: Seq<char>| #[trigger] seen.view().contains(c) == code_used_below(*changes, k as int, c),
        decreases 256 - k,
    {
        match changes.get(k as u8) {
            Some(entry) => {
                let added = seen.insert(copy_text(entry.code.as_str()));
                if !added {
                    let e = PackShapeError::DuplicateHappinessCodeName {
                        change_code: k as u8,
                        code: copy_text(entry.code.as_str()),
                    };
                    proof {
                        assert(code_used_below(*changes, k as int, entry.code@));
                        assert(f(k as int) == Some(e@));
                        lemma_first_error_stays(f, k + 1, 256);
                    }
                    return Err(e);
                }
                proof {
                    assert(code_at(*changes, k as int) == Some(entry.code@));
                    assert(f(k as int) is None);
                    assert forall|c: Seq<char>| #[trigger] seen.view().contains(c) == code_used_below(
                        *changes,
                        k + 1,
                        c,
                    ) by {
                        if c == entry.code@ {
                            assert(code_at(*changes, k as int) == Some(c));
                        } else if code_used_below(*changes, k + 1, c) {
                            let k2 = choose|k2: int| 0 <= k2 < k + 1 && #[trigger] code_at(*changes, k2) == Some(c);
                            assert(k2 < k);
                        }
                    }
                }
            },
            None => {
                proof {
                    assert(f(k as int) is None);
                    assert forall|c: Seq<char>| #[trigger] seen.view().contains(c) == code_used_below(
                        *changes,
                        k + 1,
                        c,
                    ) by {
                        if code_used_below(*changes, k + 1, c) {
                            let k2 = choose|k2: int| 0 <= k2 < k + 1 && #[trigger] code_at(*changes, k2) == Some(c);
                            assert(k2 < k);
                        }
                    }
                }
            },
        }
        k += 1;
    }
    Ok(())
}

pub fn check_happiness_data_shape(data: &HappinessData) -> (r: Result<(), PackShapeError>)
    ensures
        shape_reported(r, happiness_data_problem(*data)),
{
    let ghost f = happiness_entry_checks(data.changes);
    let mut k: usize = 0;
    while k < 256
        invariant
            f == happiness_entry_checks(data.changes),
            k <= 256,
            first_error(f, k as int) is None,
        decreases 256 - k,
    {
        if let Some(entry) = data.changes.get(k as u8) {
            if let Err(e) = check_happiness_change_entry_shape(entry) {
                proof {
                    assert(f(k as int) == Some(e@));
                    lemma_first_error_stays(f, k + 1, 256);
                }
                return Err(e);
            }
        }
        k += 1;
    }
    if data.changes.is_empty() {
        return Err(PackShapeError::EmptyHappinessChanges);
    }
    let n = data.services.len();
    if n == 0 {
        return Err(PackShapeError::EmptyHappinessServices);
    }
    let ghost g = happiness_service_checks(*data);
    let mut i: usize = 0;
    while i < n
        invariant
            g == happiness_service_checks(*data),
            f == happiness_entry_checks(data.changes),
            first_error(f, 256) is None,
            data.changes.view().dom() != Set::<u8>::empty(),
            n == data.services.key_seq().len(),
            n == data.services.value_seq().len(),
            i <= n,
            first_error(g, i as int) is None,
        decreases n - i,
    {
        if let Err(e) = check_happiness_service(&data.changes, data.services.key_at(i).as_str(), data.services.value_at(i)) {
            proof {
                assert(g(i as int) == Some(e@));
                lemma_first_error_stays(g, i + 1, n as int);
            }
            return Err(e);
        }
        i += 1;
    }
    check_distinct_code_names(&data.changes)
}

// ---- Dratini ----

pub open spec fn dratini_move_checks(mode: u8, moves: Seq<String>) -> spec_fn(int) -> Option<PackShapeErrorView> {
    |j: int|
        if is_exact_token(moves[j]@) {
            None
        } else {
            Some(PackShapeErrorView::DratiniMoveNotExact { mode, move_index: j as usize, move_id: moves[j]@ })
        }
}

/// A mode's move set has one to four moves, each an exact token.
pub open spec fn dratini_set_problem(mode: u8, moves: Seq<String>) -> Option<PackShapeErrorView> {
    if moves.len() == 0 {
        Some(PackShapeErrorView::EmptyDratiniMoveSet { mode })
    } else if moves.len() > 4 {
        Some(PackShapeErrorView::LongDratiniMoveSet { mode })
    } else {
        first_error(dratini_move_checks(mode, moves), moves.len() as int)
    }
}

pub open spec fn dratini_set_checks(sets: ByteMap<Vec<String>>) -> spec_fn(int) -> Option<PackShapeErrorView> {
    |k: int|
        match sets.slots()[k] {
            Some(m) => dratini_set_problem(k as u8, m@),
            None => None,
        }
}

/// There is at least one move set, and each, in mode order, is well formed.
pub open spec fn dratini_sets_problem(sets: ByteMap<Vec<String>>) -> Option<PackShapeErrorView> {
    if sets.view().dom() == Set::<u8>::empty() {
        Some(PackShapeErrorView::EmptyDratiniMoveSets)
    } else {
        first_error(dratini_set_checks(sets), 256)
    }
}

fn check_dratini_set(mode: u8, moves: &Vec<String>) -> (r: Result<(), PackShapeError>)
    ensures
        shape_reported(r, dratini_set_problem(mode, moves@)),
{
    if moves.len() == 0 {
        return Err(PackShapeError::EmptyDratiniMoveSet { mode });
    }
    if moves.len() > 4 {
        return Err(PackShapeError::LongDratiniMoveSet { mode });
    }
    let ghost f = dratini_move_checks(mode, moves@);
    let mut j: usize = 0;
    while j < moves.len()
        invariant
            f == dratini_move_checks(mode, moves@),
            0 < moves@.len() <= 4,
            j <= moves@.len(),
            first_error(f, j as int) is None,
        decreases moves.len() - j,
    {
        if !is_exact_token_str(moves[j].as_str()) {
            let e = PackShapeError::DratiniMoveNotExact { mode, move_index: j, move_id: copy_text(moves[j].as_str()) };
            proof {
                assert(f(j as int) == Some(e@));
                lemma_first_error_stays(f, j + 1, moves@.len() as int);
            }
            return Err(e);
        }
        j += 1;
    }
    Ok(())
}

pub fn check_dratini_move_sets_shape(sets: &ByteMap<Vec<String>>) -> (r: Result<(), PackShapeError>)
    ensures
        shape_reported(r, dratini_sets_problem(*sets)),
{
    if sets.is_empty() {
        return Err(PackShapeError::EmptyDratiniMoveSets);
    }
    let ghost f = dratini_set_checks(*sets);
    let mut k: usize = 0;
    while k < 256
        invariant
            f == dratini_set_checks(*sets),
            sets.view().dom() != Set::<u8>::empty(),
            k <= 256,
            first_error(f, k as int) is None,
        decreases 256 - k,
    {
        if let Some(moves) = sets.get(k as u8) {
            if let Err(e) = check_dratini_set(k as u8, moves) {
                proof {
                    assert(f(k as int) == Some(e@));
                    lemma_first_error_stays(f, k + 1, 256);
                }
                return Err(e);
            }
        }
        k += 1;
    }
    Ok(())
}

// ---- Buena's password categories ----

pub open spec fn buena_option_checks(options: Seq<String>) -> spec_fn(int) -> Option<PackShapeErrorView> {
    |j: int|
        if is_exact_value(options[j]@) {
            None
        } else {
            Some(PackShapeErrorView::BuenaOptionNotExact { index: j as usize })
        }
}

/// A category's type is an exact, known type, its points are nonzero, and it has options,
/// each exact text.
pub open spec fn buena_category_problem(c: BuenaPasswordCategoryDefinition) -> Option<PackShapeErrorView> {
    either(
        token_problem("buena password categoryType"@, c.category_type@),
        if !known_category_type(c.category_type@) {
            Some(PackShapeErrorView::UnknownBuenaCategoryType { category_type: c.category_type@ })
        } else if c.points == 0 {
            Some(PackShapeErrorView::ZeroBuenaCategoryPoints)
        } else if c.options@.len() == 0 {
            Some(PackShapeErrorView::EmptyBuenaCategoryOptions)
        } else {
            first_error(buena_option_checks(c.options@), c.options@.len() as int)
        },
    )
}

pub fn check_buena_category_shape(category: &BuenaPasswordCategoryDefinition) -> (r: Result<(), PackShapeError>)
    ensures
        shape_reported(r, buena_category_problem(*category)),
{
    if let Err(e) = check_token("buena password categoryType", category.category_type.as_str()) {
        return Err(e);
    }
    if !is_known_buena_password_category_type(category.category_type.as_str()) {
        return Err(
            PackShapeError::UnknownBuenaCategoryType { category_type: copy_text(category.category_type.as_str()) },
        );
    }
    if category.points == 0 {
        return Err(PackShapeError::ZeroBuenaCategoryPoints);
    }
    if category.options.len() == 0 {
        return Err(PackShapeError::EmptyBuenaCategoryOptions);
    }
    let ghost f = buena_option_checks(category.options@);
    let mut j: usize = 0;
    while j < category.options.len()
        invariant
            f == buena_option_checks(category.options@),
            is_exact_token(category.category_type@),
            known_category_type(category.category_type@),
            category.points != 0,
            category.options@.len() > 0,
            j <= category.options@.len(),
            first_error(f, j as int) is None,
        decreases category.options.len() - j,
    {
        if !is_exact_nonempty_special_value(category.options[j].as_str()) {
            let e = PackShapeError::BuenaOptionNotExact { index: j };
            proof {
                assert(f(j as int) == Some(e@));
                lemma_first_error_stays(f, j + 1, category.options@.len() as int);
            }
            return Err(e);
        }
        j += 1;
    }
    Ok(())
}

/// Whether an order id equal to `c` comes before position `i`.
pub open spec fn order_id_before(order: Seq<String>, i: int, c: Seq<char>) -> bool {
    exists|j: int| 0 <= j < i && #[trigger] order[j]@ == c
}

pub open spec fn buena_order_checks(
    order: Seq<String>,
    categories: TextMap<BuenaPasswordCategoryDefinition>,
) -> spec_fn(int) -> Option<PackShapeErrorView> {
    |i: int|
        either(
            token_problem("buena password order id"@, order[i]@),
            if order_id_before(order, i, order[i]@) {
                Some(PackShapeErrorView::DuplicateBuenaOrderId { id: order[i]@ })
            } else if !categories.view().contains_key(order[i]@) {
                Some(PackShapeErrorView::BuenaOrderIdWithoutCategory { id: order[i]@ })
            } else {
                None
            },
        )
}

pub open spec fn buena_category_id_checks(
    order: Seq<String>,
    categories: TextMap<BuenaPasswordCategoryDefinition>,
) -> spec_fn(int) -> Option<PackShapeErrorView> {
    |i: int|
        either(
            token_problem("buena password category id"@, categories.key_seq()[i]),
            if order_id_before(order, order.len() as int, categories.key_seq()[i]) {
                None
            } else {
                Some(PackShapeErrorView::BuenaCategoryIdNotOrdered { id: categories.key_seq()[i] })
            },
        )
}

pub open spec fn buena_definition_checks(categories: TextMap<BuenaPasswordCategoryDefinition>) -> spec_fn(int) -> Option<
    PackShapeErrorView,
> {
    |i: int| buena_category_problem(categories.value_seq()[i])
}

/// Each category in id order, then: the order and the categories are not empty, each order
/// id is an exact token, distinct and names a category, and each category id is an exact
/// token that the order names.
pub open spec fn buena_categories_problem(cs: BuenaPasswordCategories) -> Option<PackShapeErrorView> {
    either(
        first_error(buena_definition_checks(cs.categories), cs.categories.key_seq().len() as int),
        if cs.order@.len() == 0 {
            Some(PackShapeErrorView::EmptyBuenaOrder)
        } else if cs.categories.key_seq().len() == 0 {
            Some(PackShapeErrorView::EmptyBuenaCategories)
        } else {
            either(
                first_error(buena_order_checks(cs.order@, cs.categories), cs.order@.len() as int),
                first_error(buena_category_id_checks(cs.order@, cs.categories), cs.categories.key_seq().len() as int),
            )
        },
    )
}

pub fn check_buena_password_categories_shape(cs: &BuenaPasswordCategories) -> (r: Result<(), PackShapeError>)
    ensures
        shape_reported(r, buena_categories_problem(*cs)),
{
    let n = cs.categories.len();
    let ghost f = buena_definition_checks(cs.categories);
    let mut i: usize = 0;
    while i < n
        invariant
            f == buena_definition_checks(cs.categories),
            n == cs.categories.key_seq().len(),
            n == cs.categories.value_seq().len(),
            i <= n,
            first_error(f, i as int) is None,
        decreases n - i,
    {
        if let Err(e) = check_buena_category_shape(cs.categories.value_at(i)) {
            proof {
                lemma_first_error_stays(f, i + 1, n as int);
            }
            return Err(e);
        }
        i += 1;
    }
    if cs.order.len() == 0 {
        return Err(PackShapeError::EmptyBuenaOrder);
    }
    if n == 0 {
        return Err(PackShapeError::EmptyBuenaCategories);
    }
    let ghost g = buena_order_checks(cs.order@, cs.categories);
    let mut seen = TextSet::new();
    let mut o: usize = 0;
    while o < cs.order.len()
        invariant
            g == buena_order_checks(cs.order@, cs.categories),
            f == buena_definition_checks(cs.categories),
            first_error(f, n as int) is None,
            n == cs.categories.key_seq().len(),
            n > 0,
            cs.order@.len() > 0,
            o <= cs.order@.len(),
            first_error(g, o as int) is None,
            forall|c: Seq<char>| #[trigger] seen.view().contains(c) == order_id_before(cs.order@, o as int, c),
        decreases cs.order.len() - o,
    {
        let id = cs.order[o].as_str();
        let step = match check_token("buena password order id", id) {
            Err(e) => Err(e),
            Ok(()) => {
                if seen.contains(id) {
                    Err(PackShapeError::DuplicateBuenaOrderId { id: copy_text(id) })
                } else if !cs.categories.contains_key(id) {
                    Err(PackShapeError::BuenaOrderIdWithoutCategory { id: copy_text(id) })
                } else {
                    Ok(())
                }
            },
        };
        if let Err(e) = step {
            proof {
                assert(g(o as int) == Some(e@));
                lemma_first_error_stays(g, o + 1, cs.order@.len() as int);
            }
            return Err(e);
        }
        seen.insert(copy_text(id));
        proof {
            assert(g(o as int) is None);
            assert forall|c: Seq<char>| #[trigger] seen.view().contains(c) == order_id_before(cs.order@, o + 1, c) by {
                if c == cs.order@[o as int]@ {
                    assert(cs.order@[o as int]@ == c);
                } else if order_id_before(cs.order@, o + 1, c) {
                    let j = choose|j: int| 0 <= j < o + 1 && #[trigger] cs.order@[j]@ == c;
                    assert(j < o);
                    assert(order_id_before(cs.order@, o as int, c));
                }
            }
        }
        o += 1;
    }
    let ghost h = buena_category_id_checks(cs.order@, cs.categories);
    let mut i2: usize = 0;
    while i2 < n
        invariant
            h == buena_category_id_checks(cs.order@, cs.categories),
            g == buena_order_checks(cs.order@, cs.categories),
            f == buena_definition_checks(cs.categories),
            first_error(f, n as int) is None,
            first_error(g, cs.order@.len() as int) is None,
            n == cs.categories.key_seq().len(),
            n > 0,
            cs.order@.len() > 0,
            i2 <= n,
            first_error(h, i2 as int) is None,
            forall|c: Seq<char>| #[trigger] seen.view().contains(c) == order_id_before(cs.order@, cs.order@.len() as int, c),
        decreases n - i2,
    {
        let id = cs.categories.key_at(i2).as_str();
        let step = match check_token("buena password category id", id) {
            Err(e) => Err(e),
            Ok(()) => if seen.contains(id) {
                Ok(())
            } else {
                Err(PackShapeError::BuenaCategoryIdNotOrdered { id: copy_text(id) })
            },
        };
        if let Err(e) = step {
            proof {
                assert(h(i2 as int) == Some(e@));
                lemma_first_error_stays(h, i2 + 1, n as int);
            }
            return Err(e);
        }
        i2 += 1;
    }
    Ok(())
}

fn is_exact_token_str(value: &str) -> (b: bool)
    ensures
        b == is_exact_token(value@),
{
    is_exact_token_text(value)
}

} // verus!
