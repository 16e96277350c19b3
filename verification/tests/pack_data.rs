use crystal_core::ordered::{ByteMap, TextMap, TextSet};
use crystal_core::special_routines::errors::SpecialRoutineError;
use crystal_core::special_routines::gifts::{
    buena_prize_definition_issues, dratini_move_set_issues, kurt_apricorn_recipe_issues, shuckie_gift_issues,
    BuenaPrizeDefinitionIssue, DratiniMoveSetIssue, KurtApricornRecipeIssue, ShuckieGiftDefinition, ShuckieGiftIssue,
};
use crystal_core::special_routines::happiness::{
    happiness_data_issues, HappinessChangeEntry, HappinessData, HappinessDataIssue, HappinessServiceOutcome,
};
use crystal_core::special_routines::ratings::{
    calculate_magikarp_length_from_dv_bytes, magikarp_length_table_issues, oak_rating_table_issues, MagikarpLengthEntry,
    MagikarpLengthTableIssue, OakRatingEntry, OakRatingTableIssue,
};
use crystal_core::pack_shapes::{check_magikarp_length_table_shape, check_oak_rating_table_shape, PackShapeError};
use crystal_core::special_routines::tokens::SpecialValueError;

fn set_of(values: &[&str]) -> TextSet {
    let mut set = TextSet::new();
    for value in values {
        set.insert(value.to_string());
    }
    set
}

fn crystal_lengths() -> Vec<MagikarpLengthEntry> {
    [
        (110, 1),
        (310, 2),
        (710, 4),
        (2710, 20),
        (7710, 50),
        (17710, 100),
        (32710, 150),
        (47710, 150),
        (57710, 100),
        (62710, 50),
        (64710, 20),
        (65210, 5),
        (65410, 2),
        (65510, 1),
    ]
    .iter()
    .map(|&(threshold, divisor)| MagikarpLengthEntry { threshold, divisor })
    .collect()
}

fn rating(limit: usize, fanfare: &str, text_label: &str) -> OakRatingEntry {
    OakRatingEntry { caught_count_limit: limit, fanfare: fanfare.to_string(), text_label: text_label.to_string() }
}

#[test]
fn magikarp_length_of_tiny_bytes_is_190_mm() {
    assert_eq!(calculate_magikarp_length_from_dv_bytes(0, 0, 0, &crystal_lengths(), "MagikarpLength"), Ok((0, 7)));
}

#[test]
fn magikarp_length_uses_the_first_row_above_the_high_byte() {
    // b = 1, c = 0: the row with threshold 710 (divisor 4) is the first above, giving 542 mm.
    assert_eq!(calculate_magikarp_length_from_dv_bytes(0x04, 0, 0, &crystal_lengths(), "MagikarpLength"), Ok((1, 9)));
    // The trainer id's high byte, rotated right once, is mixed into the first DV byte.
    assert_eq!(calculate_magikarp_length_from_dv_bytes(0, 0, 0x0200, &crystal_lengths(), "MagikarpLength"), Ok((1, 9)));
}

#[test]
fn magikarp_length_past_every_row_starts_at_1600_mm() {
    assert_eq!(calculate_magikarp_length_from_dv_bytes(0xff, 0xff, 0, &crystal_lengths(), "MagikarpLength"), Ok((5, 3)));
}

#[test]
fn magikarp_length_refuses_missing_or_malformed_tables() {
    assert_eq!(
        calculate_magikarp_length_from_dv_bytes(0, 0, 0, &[], "MagikarpLength"),
        Err(SpecialRoutineError::MissingMagikarpLengthTable { routine: "MagikarpLength".to_string() })
    );
    let mut short = crystal_lengths();
    short.pop();
    assert_eq!(
        calculate_magikarp_length_from_dv_bytes(0, 0, 0, &short, "MagikarpLength"),
        Err(SpecialRoutineError::InvalidMagikarpLengthTable {
            routine: "MagikarpLength".to_string(),
            message: "expected exactly 14 source rows, found 13".to_string(),
        })
    );
    let mut zero = crystal_lengths();
    zero[2].divisor = 0;
    assert_eq!(
        calculate_magikarp_length_from_dv_bytes(0, 0, 0, &zero, "MagikarpLength"),
        Err(SpecialRoutineError::InvalidMagikarpLengthTable {
            routine: "MagikarpLength".to_string(),
            message: "threshold 710 has zero divisor".to_string(),
        })
    );
    let mut unordered = crystal_lengths();
    unordered[3].threshold = 700;
    assert_eq!(
        calculate_magikarp_length_from_dv_bytes(0, 0, 0, &unordered, "MagikarpLength"),
        Err(SpecialRoutineError::InvalidMagikarpLengthTable {
            routine: "MagikarpLength".to_string(),
            message: "thresholds must be strictly increasing".to_string(),
        })
    );
}

#[test]
fn magikarp_table_issues_and_shape_agree_on_crystal_table() {
    assert_eq!(magikarp_length_table_issues(&crystal_lengths()), Vec::new());
    assert_eq!(check_magikarp_length_table_shape(&crystal_lengths()), Ok(()));
    let mut bad = crystal_lengths();
    bad[0].divisor = 0;
    bad[5].threshold = 7710;
    bad.pop();
    assert_eq!(
        magikarp_length_table_issues(&bad),
        vec![
            MagikarpLengthTableIssue::InvalidEntryCount { actual: 13 },
            MagikarpLengthTableIssue::InvalidDivisor { index: 0, threshold: 110 },
            MagikarpLengthTableIssue::InvalidThresholdOrder { index: 5, threshold: 7710, previous_threshold: 7710 },
        ]
    );
    assert_eq!(check_magikarp_length_table_shape(&bad), Err(PackShapeError::ZeroMagikarpDivisor));
}

#[test]
fn oak_rating_issues_cover_tokens_order_and_coverage() {
    let table = vec![rating(9, "SFX_DEX_FANFARE_LESS_THAN_20", "OakRating01"), rating(251, "SFX_DEX_FANFARE_230_PLUS", "OakRating19")];
    assert_eq!(oak_rating_table_issues(&table, 251), Vec::new());
    assert_eq!(check_oak_rating_table_shape(&table), Ok(()));
    let bad = vec![rating(9, "bad fanfare", "OakRating01"), rating(9, "SFX", " label"), rating(200, "SFX", "OakRating19")];
    assert_eq!(
        oak_rating_table_issues(&bad, 251),
        vec![
            OakRatingTableIssue::InvalidFanfare { index: 0, fanfare: "bad fanfare".to_string() },
            OakRatingTableIssue::InvalidTextLabel { index: 1, text_label: " label".to_string() },
            OakRatingTableIssue::InvalidOrder { index: 1, caught_count_limit: 9, previous_limit: 9 },
            OakRatingTableIssue::IncompleteCoverage { pokemon_count: 251, last_caught_count_limit: 200 },
        ]
    );
    assert_eq!(
        check_oak_rating_table_shape(&bad),
        Err(PackShapeError::Value(SpecialValueError::NotExactToken {
            field: "oak rating fanfare".to_string(),
            value: "bad fanfare".to_string(),
        }))
    );
    assert_eq!(check_oak_rating_table_shape(&[]), Err(PackShapeError::EmptyOakRatings));
    assert_eq!(oak_rating_table_issues(&[], 251), Vec::new());
}

#[test]
fn dratini_move_sets_need_known_exact_moves() {
    let mut sets: ByteMap<Vec<String>> = ByteMap::new();
    sets.insert(0, vec!["WRAP".to_string(), "THUNDER_WAVE".to_string()]);
    sets.insert(1, Vec::new());
    sets.insert(2, vec!["bad move".to_string(), "EXTREMESPEED".to_string()]);
    assert_eq!(
        dratini_move_set_issues(&sets, &set_of(&["WRAP", "THUNDER_WAVE"])),
        vec![
            DratiniMoveSetIssue::EmptyMoveSet { mode: 1 },
            DratiniMoveSetIssue::InvalidMove { mode: 2, move_index: 0, move_id: "bad move".to_string() },
            DratiniMoveSetIssue::UnknownMove { mode: 2, move_index: 1, move_id: "EXTREMESPEED".to_string() },
        ]
    );
}

#[test]
fn kurt_recipes_and_buena_prizes_need_known_items() {
    let mut recipes: TextMap<String> = TextMap::new();
    recipes.insert("BLK_APRICORN".to_string(), "HEAVY_BALL".to_string());
    recipes.insert("RED_APRICORN".to_string(), String::new());
    recipes.insert(String::new(), "LURE_BALL".to_string());
    let items = set_of(&["BLK_APRICORN", "HEAVY_BALL", "RED_APRICORN"]);
    assert_eq!(
        kurt_apricorn_recipe_issues(&recipes, &items),
        vec![
            KurtApricornRecipeIssue::EmptyApricorn { apricorn: String::new() },
            KurtApricornRecipeIssue::UnknownBall { apricorn: String::new(), ball: "LURE_BALL".to_string() },
            KurtApricornRecipeIssue::EmptyBall { apricorn: "RED_APRICORN".to_string() },
        ]
    );
    let mut prizes: TextMap<u8> = TextMap::new();
    prizes.insert("ULTRA_BALL".to_string(), 2);
    prizes.insert("NUGGET".to_string(), 0);
    assert_eq!(
        buena_prize_definition_issues(&prizes, &set_of(&["ULTRA_BALL"])),
        vec![
            BuenaPrizeDefinitionIssue::UnknownItem { item_id: "NUGGET".to_string() },
            BuenaPrizeDefinitionIssue::InvalidCost { item_id: "NUGGET".to_string() },
        ]
    );
}

#[test]
fn shuckie_gift_needs_known_species_item_flag_and_names() {
    let gift = ShuckieGiftDefinition {
        species: "SHUCKLE".to_string(),
        level: 15,
        held_item: "BERRY".to_string(),
        nickname: "SHUCKIE".to_string(),
        original_trainer_name: "KIRK".to_string(),
        original_trainer_id: 518,
        got_today_engine_flag: "ENGINE_SHUCKLE_GIVEN".to_string(),
    };
    let species = set_of(&["SHUCKLE"]);
    let items = set_of(&["BERRY"]);
    let flags = set_of(&["ENGINE_SHUCKLE_GIVEN"]);
    assert_eq!(shuckie_gift_issues(&gift, &species, &items, &flags), Vec::new());
    let bad = ShuckieGiftDefinition {
        species: " ".to_string(),
        level: 0,
        held_item: "bad item".to_string(),
        nickname: String::new(),
        got_today_engine_flag: "ENGINE_OTHER".to_string(),
        ..gift
    };
    assert_eq!(
        shuckie_gift_issues(&bad, &species, &items, &flags),
        vec![
            ShuckieGiftIssue::EmptySpecies,
            ShuckieGiftIssue::InvalidLevel,
            ShuckieGiftIssue::InvalidHeldItem { held_item: "bad item".to_string() },
            ShuckieGiftIssue::EmptyName,
            ShuckieGiftIssue::UnknownEngineFlag { engine_flag: "ENGINE_OTHER".to_string() },
        ]
    );
}

#[test]
fn happiness_data_needs_codes_services_and_known_changes() {
    let empty = HappinessData { changes: ByteMap::new(), services: TextMap::new() };
    assert_eq!(
        happiness_data_issues(&empty),
        vec![HappinessDataIssue::EmptyChanges, HappinessDataIssue::EmptyServices]
    );
    let mut changes: ByteMap<HappinessChangeEntry> = ByteMap::new();
    changes.insert(0, HappinessChangeEntry { code: "GAINED_LEVEL".to_string(), low: 5, mid: 3, high: 2 });
    changes.insert(1, HappinessChangeEntry { code: " ".to_string(), low: 1, mid: 1, high: 0 });
    changes.insert(2, HappinessChangeEntry { code: "GAINED_LEVEL".to_string(), low: 1, mid: 1, high: 0 });
    let mut services: TextMap<Vec<HappinessServiceOutcome>> = TextMap::new();
    services.insert(
        "HaircutBrother".to_string(),
        vec![
            HappinessServiceOutcome { roll_weight: 30, script_value: 2, change_code: 0 },
            HappinessServiceOutcome { roll_weight: 70, script_value: 3, change_code: 9 },
        ],
    );
    services.insert("Daisy".to_string(), Vec::new());
    let data = HappinessData { changes, services };
    assert_eq!(
        happiness_data_issues(&data),
        vec![
            HappinessDataIssue::EmptyChangeCode { change_code: 1 },
            HappinessDataIssue::DuplicateChangeCode { code: "GAINED_LEVEL".to_string(), change_code: 2 },
            HappinessDataIssue::EmptyServiceOutcomes { routine: "Daisy".to_string() },
            HappinessDataIssue::UnknownServiceChange { routine: "HaircutBrother".to_string(), change_code: 9 },
        ]
    );
}
