use crystal_core::ordered::{ByteMap, TextMap};
use crystal_core::pack_shapes::{
    check_bug_contest_config_shape, check_bug_contest_encounter_shape, check_buena_category_shape,
    check_buena_password_categories_shape, check_buena_prizes_shape, check_dratini_move_sets_shape,
    check_happiness_data_shape, check_kurt_apricorn_recipes_shape, check_magikarp_length_table_shape,
    check_mart_catalog_shape, check_odd_egg_definition_shape, check_odd_egg_table_shape, check_oak_rating_entry_shape,
    check_shuckie_gift_shape, magikarp_length_entry_from_raw, PackShapeError,
};
use crystal_core::shop::MartCatalog;
use crystal_core::special_routines::buena::{BuenaPasswordCategories, BuenaPasswordCategoryDefinition};
use crystal_core::special_routines::bug_contest::{BugContestConfig, BugContestEncounterEntry};
use crystal_core::special_routines::gifts::ShuckieGiftDefinition;
use crystal_core::special_routines::happiness::{HappinessChangeEntry, HappinessData, HappinessServiceOutcome};
use crystal_core::special_routines::odd_egg::OddEggDefinition;
use crystal_core::special_routines::ratings::{MagikarpLengthEntry, OakRatingEntry};
use crystal_core::special_routines::tokens::SpecialValueError;

fn token_error(field: &str, value: &str) -> PackShapeError {
    PackShapeError::Value(SpecialValueError::NotExactToken { field: field.to_string(), value: value.to_string() })
}

fn text_error(field: &str, value: &str) -> PackShapeError {
    PackShapeError::Value(SpecialValueError::NotExactText { field: field.to_string(), value: value.to_string() })
}

fn encounter(weight: u8, species: &str, min_level: u8, max_level: u8) -> BugContestEncounterEntry {
    BugContestEncounterEntry { weight, species: species.to_string(), min_level, max_level }
}

fn contest_config() -> BugContestConfig {
    let mut encounters: Vec<BugContestEncounterEntry> = (0..10).map(|_| encounter(10, "CATERPIE", 7, 18)).collect();
    encounters.push(encounter(255, "CATERPIE", 7, 18));
    BugContestConfig {
        park_balls: 20,
        timer_minutes: 20,
        timer_seconds: 0,
        selected_contestant_count: 2,
        contestant_flags: vec!["EVENT_BUG_CATCHING_CONTESTANT_1A".to_string(), "EVENT_BUG_CATCHING_CONTESTANT_2A".to_string()],
        encounters,
    }
}

fn odd_egg(species: &str, probability: u16) -> OddEggDefinition {
    OddEggDefinition {
        species: species.to_string(),
        moves: vec!["POUND".to_string(), "DIZZY_PUNCH".to_string()],
        original_trainer_id: 256,
        dvs: [0, 10, 10, 10],
        probability,
        level: 5,
        experience: 125,
        hatch_cycles: 20,
        nickname: "EGG".to_string(),
        original_trainer_name: "ODD".to_string(),
    }
}

fn happiness_data() -> HappinessData {
    let mut changes = ByteMap::new();
    changes.insert(0, HappinessChangeEntry { code: "HAPPINESS_GAINLEVEL".to_string(), low: 5, mid: 3, high: 2 });
    changes.insert(1, HappinessChangeEntry { code: "HAPPINESS_USEDITEM".to_string(), low: 5, mid: 3, high: 2 });
    let mut services = TextMap::new();
    services.insert(
        "HaircutBrother".to_string(),
        vec![HappinessServiceOutcome { roll_weight: 30, script_value: 2, change_code: 1 }],
    );
    HappinessData { changes, services }
}

fn buena_category(category_type: &str, points: u8, options: &[&str]) -> BuenaPasswordCategoryDefinition {
    BuenaPasswordCategoryDefinition {
        category_type: category_type.to_string(),
        points,
        options: options.iter().map(|o| o.to_string()).collect(),
    }
}

fn buena_categories(order: &[&str]) -> BuenaPasswordCategories {
    let mut categories = TextMap::new();
    categories.insert("BUENA_JOHTO_STARTERS".to_string(), buena_category("BUENA_MON", 10, &["CYNDAQUIL", "TOTODILE"]));
    categories.insert("BUENA_RADIO_SHOWS".to_string(), buena_category("BUENA_STRING", 7, &["POKEMON TALK"]));
    BuenaPasswordCategories { order: order.iter().map(|o| o.to_string()).collect(), categories }
}

#[test]
fn oak_rating_entry_needs_exact_fanfare_then_label() {
    let entry = OakRatingEntry { caught_count_limit: 9, fanfare: "SFX_DEX".to_string(), text_label: "bad label".to_string() };
    assert_eq!(check_oak_rating_entry_shape(&entry), Err(token_error("oak rating textLabel", "bad label")));
}

#[test]
fn magikarp_row_divisor_must_be_a_nonzero_byte() {
    assert_eq!(magikarp_length_entry_from_raw(110, 1), Ok(MagikarpLengthEntry { threshold: 110, divisor: 1 }));
    assert_eq!(magikarp_length_entry_from_raw(110, 0), Err(PackShapeError::ZeroMagikarpDivisor));
    assert_eq!(magikarp_length_entry_from_raw(110, 256), Err(PackShapeError::WideMagikarpDivisor));
}

#[test]
fn magikarp_table_needs_fourteen_increasing_rows() {
    let rows: Vec<MagikarpLengthEntry> = (0..14u16).map(|i| MagikarpLengthEntry { threshold: 100 + i, divisor: 1 }).collect();
    assert_eq!(check_magikarp_length_table_shape(&rows), Ok(()));
    assert_eq!(check_magikarp_length_table_shape(&rows[..13]), Err(PackShapeError::MagikarpRowCount));
    let mut flat = rows.clone();
    flat[4].threshold = flat[3].threshold;
    assert_eq!(
        check_magikarp_length_table_shape(&flat),
        Err(PackShapeError::MagikarpThresholdNotIncreasing { index: 4 })
    );
}

#[test]
fn shuckie_gift_checks_follow_field_order() {
    let gift = ShuckieGiftDefinition {
        species: "SHUCKLE".to_string(),
        level: 15,
        held_item: "BERRY".to_string(),
        nickname: "SHUCKIE".to_string(),
        original_trainer_name: "MANIA".to_string(),
        original_trainer_id: 518,
        got_today_engine_flag: "ENGINE_SHUCKLE_GIVEN".to_string(),
    };
    assert_eq!(check_shuckie_gift_shape(&gift), Ok(()));
    let mut bad = ShuckieGiftDefinition { level: 0, nickname: " SHUCKIE".to_string(), ..gift };
    assert_eq!(check_shuckie_gift_shape(&bad), Err(PackShapeError::ShuckieLevelOutOfRange { level: 0 }));
    bad.level = 15;
    assert_eq!(check_shuckie_gift_shape(&bad), Err(text_error("shuckie nickname", " SHUCKIE")));
}

#[test]
fn kurt_recipes_and_buena_prizes_need_entries() {
    assert_eq!(check_kurt_apricorn_recipes_shape(&TextMap::new()), Err(PackShapeError::EmptyKurtRecipes));
    let mut recipes = TextMap::new();
    recipes.insert("RED_APRICORN".to_string(), "LEVEL_BALL".to_string());
    assert_eq!(check_kurt_apricorn_recipes_shape(&recipes), Ok(()));
    recipes.insert("WHT_APRICORN".to_string(), "fast ball".to_string());
    assert_eq!(check_kurt_apricorn_recipes_shape(&recipes), Err(token_error("Kurt apricorn recipe ball id", "fast ball")));

    assert_eq!(check_buena_prizes_shape(&TextMap::new()), Err(PackShapeError::EmptyBuenaPrizes));
    let mut prizes = TextMap::new();
    prizes.insert("NUGGET".to_string(), 10u8);
    assert_eq!(check_buena_prizes_shape(&prizes), Ok(()));
    prizes.insert("BLUESKY_MAIL".to_string(), 0u8);
    assert_eq!(
        check_buena_prizes_shape(&prizes),
        Err(PackShapeError::ZeroBuenaPrizeCost { item_id: "BLUESKY_MAIL".to_string() })
    );
}

#[test]
fn mart_catalog_ids_and_items_must_be_exact_tokens() {
    let mut marts = TextMap::new();
    marts.insert("CHERRYGROVE".to_string(), vec!["POTION".to_string(), "POKE_BALL".to_string()]);
    assert_eq!(check_mart_catalog_shape(&MartCatalog(marts)), Ok(()));
    let mut marts = TextMap::new();
    marts.insert("CHERRYGROVE".to_string(), vec!["POTION".to_string(), "POKE BALL".to_string()]);
    assert_eq!(
        check_mart_catalog_shape(&MartCatalog(marts)),
        Err(PackShapeError::MartItemIdNotExact { item_id: "POKE BALL".to_string() })
    );
    let mut marts = TextMap::new();
    marts.insert("violet mart".to_string(), Vec::new());
    assert_eq!(
        check_mart_catalog_shape(&MartCatalog(marts)),
        Err(PackShapeError::MartIdNotExact { mart_id: "violet mart".to_string() })
    );
}

#[test]
fn odd_egg_definition_checks_follow_field_order() {
    assert_eq!(check_odd_egg_definition_shape(&odd_egg("PICHU", 8)), Ok(()));
    let mut egg = odd_egg("PICHU", 8);
    egg.moves = Vec::new();
    assert_eq!(check_odd_egg_definition_shape(&egg), Err(PackShapeError::OddEggMoveCount { move_count: 0 }));
    egg.moves = vec!["POUND".to_string(), "DIZZY PUNCH".to_string()];
    assert_eq!(
        check_odd_egg_definition_shape(&egg),
        Err(PackShapeError::OddEggMoveNotExact { index: 1, move_id: "DIZZY PUNCH".to_string() })
    );
    let mut egg = odd_egg("PICHU", 8);
    egg.dvs = [0, 16, 10, 10];
    assert_eq!(check_odd_egg_definition_shape(&egg), Err(PackShapeError::OddEggDvOutOfRange { index: 1, dv: 16 }));
    let mut egg = odd_egg("PICHU", 0);
    assert_eq!(check_odd_egg_definition_shape(&egg), Err(PackShapeError::ZeroOddEggProbability));
    egg.probability = 8;
    egg.level = 101;
    assert_eq!(check_odd_egg_definition_shape(&egg), Err(PackShapeError::OddEggLevelOutOfRange { level: 101 }));
    egg.level = 5;
    egg.experience = -1;
    assert_eq!(check_odd_egg_definition_shape(&egg), Err(PackShapeError::NegativeOddEggExperience { experience: -1 }));
    egg.experience = 125;
    egg.hatch_cycles = 0;
    assert_eq!(check_odd_egg_definition_shape(&egg), Err(PackShapeError::ZeroOddEggHatchCycles));
    egg.hatch_cycles = 20;
    egg.original_trainer_name = String::new();
    assert_eq!(check_odd_egg_definition_shape(&egg), Err(text_error("odd egg originalTrainerName", "")));
}

#[test]
fn odd_egg_table_chances_must_total_one_hundred() {
    assert_eq!(check_odd_egg_table_shape(&[]), Err(PackShapeError::EmptyOddEggDefinitions));
    assert_eq!(check_odd_egg_table_shape(&[odd_egg("PICHU", 60), odd_egg("CLEFFA", 40)]), Ok(()));
    assert_eq!(
        check_odd_egg_table_shape(&[odd_egg("PICHU", 60), odd_egg("CLEFFA", 30)]),
        Err(PackShapeError::OddEggProbabilityTotal { total_probability: 90 })
    );
    assert_eq!(
        check_odd_egg_table_shape(&[odd_egg("PICHU", 60), odd_egg("bad species", 30)]),
        Err(token_error("odd egg species", "bad species"))
    );
}

#[test]
fn bug_contest_encounter_needs_an_upward_level_range() {
    assert_eq!(check_bug_contest_encounter_shape(&encounter(10, "CATERPIE", 7, 18)), Ok(()));
    assert_eq!(
        check_bug_contest_encounter_shape(&encounter(10, "CATERPIE", 19, 18)),
        Err(PackShapeError::ContestEncounterLevelRange { species: "CATERPIE".to_string(), min_level: 19, max_level: 18 })
    );
}

#[test]
fn bug_contest_config_checks_follow_load_order() {
    assert_eq!(check_bug_contest_config_shape(&contest_config()), Ok(()));
    let mut c = contest_config();
    c.park_balls = 0;
    assert_eq!(check_bug_contest_config_shape(&c), Err(PackShapeError::ZeroParkBalls));
    let mut c = contest_config();
    c.timer_minutes = 0;
    assert_eq!(check_bug_contest_config_shape(&c), Err(PackShapeError::ZeroContestTimer));
    c.timer_seconds = 60;
    assert_eq!(
        check_bug_contest_config_shape(&c),
        Err(PackShapeError::ContestTimerSecondsOutOfRange { timer_seconds: 60 })
    );
    let mut c = contest_config();
    c.selected_contestant_count = 0;
    assert_eq!(check_bug_contest_config_shape(&c), Err(PackShapeError::ZeroSelectedContestantCount));
    c.selected_contestant_count = 3;
    assert_eq!(
        check_bug_contest_config_shape(&c),
        Err(PackShapeError::SelectedContestantsExceedFlags { selected_contestant_count: 3, contestant_flag_count: 2 })
    );
    let mut c = contest_config();
    c.contestant_flags[1] = c.contestant_flags[0].clone();
    assert_eq!(
        check_bug_contest_config_shape(&c),
        Err(PackShapeError::DuplicateContestantFlag {
            index: 1,
            flag: "EVENT_BUG_CATCHING_CONTESTANT_1A".to_string()
        })
    );
    c.contestant_flags[0] = "bad flag".to_string();
    assert_eq!(
        check_bug_contest_config_shape(&c),
        Err(PackShapeError::ContestantFlagNotExact { index: 0, flag: "bad flag".to_string() })
    );
    let mut c = contest_config();
    c.encounters.pop();
    assert_eq!(
        check_bug_contest_config_shape(&c),
        Err(PackShapeError::ContestEncounterTable {
            message: "bug contest encounters must contain 10 weighted rows plus one sentinel, found 10 rows".to_string()
        })
    );
    c.encounters[2].min_level = 0;
    assert_eq!(
        check_bug_contest_config_shape(&c),
        Err(PackShapeError::ContestEncounterLevelRange { species: "CATERPIE".to_string(), min_level: 0, max_level: 18 })
    );
}

#[test]
fn happiness_data_checks_changes_services_then_code_names() {
    assert_eq!(check_happiness_data_shape(&happiness_data()), Ok(()));
    let empty = HappinessData { changes: ByteMap::new(), services: TextMap::new() };
    assert_eq!(check_happiness_data_shape(&empty), Err(PackShapeError::EmptyHappinessChanges));
    let mut d = happiness_data();
    d.services = TextMap::new();
    assert_eq!(check_happiness_data_shape(&d), Err(PackShapeError::EmptyHappinessServices));
    let mut d = happiness_data();
    d.services.insert("Groomer".to_string(), Vec::new());
    assert_eq!(
        check_happiness_data_shape(&d),
        Err(PackShapeError::HappinessServiceWithoutOutcomes { routine: "Groomer".to_string() })
    );
    let mut d = happiness_data();
    d.services.insert("Groomer".to_string(), vec![HappinessServiceOutcome { roll_weight: 1, script_value: 1, change_code: 9 }]);
    assert_eq!(
        check_happiness_data_shape(&d),
        Err(PackShapeError::HappinessServiceUnknownChange { routine: "Groomer".to_string(), change_code: 9 })
    );
    let mut d = happiness_data();
    d.changes.insert(7, HappinessChangeEntry { code: "HAPPINESS_GAINLEVEL".to_string(), low: 1, mid: 1, high: 1 });
    assert_eq!(
        check_happiness_data_shape(&d),
        Err(PackShapeError::DuplicateHappinessCodeName { change_code: 7, code: "HAPPINESS_GAINLEVEL".to_string() })
    );
    d.changes.insert(3, HappinessChangeEntry { code: "bad code".to_string(), low: 1, mid: 1, high: 1 });
    assert_eq!(check_happiness_data_shape(&d), Err(token_error("happiness change code", "bad code")));
}

#[test]
fn dratini_move_sets_hold_one_to_four_exact_moves() {
    assert_eq!(check_dratini_move_sets_shape(&ByteMap::new()), Err(PackShapeError::EmptyDratiniMoveSets));
    let mut sets = ByteMap::new();
    sets.insert(0, vec!["WRAP".to_string(), "THUNDER_WAVE".to_string()]);
    assert_eq!(check_dratini_move_sets_shape(&sets), Ok(()));
    sets.insert(2, vec!["WRAP".to_string(), "extreme speed".to_string()]);
    assert_eq!(
        check_dratini_move_sets_shape(&sets),
        Err(PackShapeError::DratiniMoveNotExact { mode: 2, move_index: 1, move_id: "extreme speed".to_string() })
    );
    sets.insert(1, (0..5).map(|_| "WRAP".to_string()).collect());
    assert_eq!(check_dratini_move_sets_shape(&sets), Err(PackShapeError::LongDratiniMoveSet { mode: 1 }));
    sets.insert(0, Vec::new());
    assert_eq!(check_dratini_move_sets_shape(&sets), Err(PackShapeError::EmptyDratiniMoveSet { mode: 0 }));
}

#[test]
fn buena_category_definition_checks_type_points_and_options() {
    assert_eq!(check_buena_category_shape(&buena_category("BUENA_MON", 10, &["CYNDAQUIL"])), Ok(()));
    assert_eq!(
        check_buena_category_shape(&buena_category("BUENA_COLOR", 10, &["RED"])),
        Err(PackShapeError::UnknownBuenaCategoryType { category_type: "BUENA_COLOR".to_string() })
    );
    assert_eq!(
        check_buena_category_shape(&buena_category("BUENA_MON", 0, &["CYNDAQUIL"])),
        Err(PackShapeError::ZeroBuenaCategoryPoints)
    );
    assert_eq!(check_buena_category_shape(&buena_category("BUENA_MON", 10, &[])), Err(PackShapeError::EmptyBuenaCategoryOptions));
    assert_eq!(
        check_buena_category_shape(&buena_category("BUENA_MON", 10, &["CYNDAQUIL", " TOTODILE"])),
        Err(PackShapeError::BuenaOptionNotExact { index: 1 })
    );
}

#[test]
fn buena_order_and_categories_must_match_one_to_one() {
    assert_eq!(check_buena_password_categories_shape(&buena_categories(&["BUENA_RADIO_SHOWS", "BUENA_JOHTO_STARTERS"])), Ok(()));
    assert_eq!(check_buena_password_categories_shape(&buena_categories(&[])), Err(PackShapeError::EmptyBuenaOrder));
    assert_eq!(
        check_buena_password_categories_shape(&buena_categories(&["BUENA_RADIO_SHOWS", "BUENA_RADIO_SHOWS"])),
        Err(PackShapeError::DuplicateBuenaOrderId { id: "BUENA_RADIO_SHOWS".to_string() })
    );
    assert_eq!(
        check_buena_password_categories_shape(&buena_categories(&["BUENA_RADIO_SHOWS", "BUENA_TOWNS"])),
        Err(PackShapeError::BuenaOrderIdWithoutCategory { id: "BUENA_TOWNS".to_string() })
    );
    assert_eq!(
        check_buena_password_categories_shape(&buena_categories(&["BUENA_RADIO_SHOWS"])),
        Err(PackShapeError::BuenaCategoryIdNotOrdered { id: "BUENA_JOHTO_STARTERS".to_string() })
    );
    let mut empty = buena_categories(&["BUENA_RADIO_SHOWS"]);
    empty.categories = TextMap::new();
    assert_eq!(check_buena_password_categories_shape(&empty), Err(PackShapeError::EmptyBuenaCategories));
}
