use crystal_core::ordered::TextSet;
use crystal_core::special_routines::bug_contest::{
    bug_contest_config_issues, validate_bug_contest_encounters, BugContestConfig, BugContestConfigIssue,
    BugContestEncounterEntry,
};
use crystal_core::special_routines::catalog::{is_known_special_routine, special_routine_catalog_issues, SpecialRoutineCatalogIssue};
use crystal_core::special_routines::day_care::{
    advance_day_care_step, day_care_egg_roll, day_care_egg_threshold, DayCareStepError, DividerSource,
};
use crystal_core::special_routines::errors::SpecialRoutineError;
use crystal_core::special_routines::saved::{
    saved_special_battle_type_builtin_routine, saved_special_battle_type_builtin_routines,
    validate_saved_magikarp_record_references, validate_saved_pending_special_battle_type, MagikarpRecordState,
};
use crystal_core::special_routines::tokens::{
    is_exact_nonempty_special_token, is_exact_nonempty_special_value, require_special_text, require_special_token,
    SpecialValueError,
};
use crystal_core::state::{DayCareResidentState, DayCareState};

fn set_of(values: &[&str]) -> TextSet {
    let mut set = TextSet::new();
    for value in values {
        set.insert(value.to_string());
    }
    set
}

/// A divider that hands out the given bytes in order, then fails.
struct ScriptedDivider {
    bytes: Vec<u8>,
    carries: Vec<bool>,
}

impl DividerSource for ScriptedDivider {
    fn random(&mut self, carry: bool) -> Result<u8, String> {
        self.carries.push(carry);
        if self.bytes.is_empty() {
            Err("divider exhausted".to_string())
        } else {
            Ok(self.bytes.remove(0))
        }
    }
}

fn scripted(bytes: &[u8]) -> ScriptedDivider {
    ScriptedDivider { bytes: bytes.to_vec(), carries: Vec::new() }
}

fn breeding_day_care(compatibility: u8, steps_until_next_egg: u8) -> DayCareState {
    DayCareState {
        man: DayCareResidentState { pokemon: None, active: false },
        lady: DayCareResidentState { pokemon: None, active: false },
        compatibility_score: compatibility,
        egg_present: false,
        steps_until_next_egg,
    }
}

fn encounter(weight: u8, species: &str, min_level: u8, max_level: u8) -> BugContestEncounterEntry {
    BugContestEncounterEntry { weight, species: species.to_string(), min_level, max_level }
}

fn contest_table() -> Vec<BugContestEncounterEntry> {
    let mut rows: Vec<BugContestEncounterEntry> = (0..10).map(|_| encounter(10, "CATERPIE", 7, 18)).collect();
    rows.push(encounter(255, "CATERPIE", 7, 18));
    rows
}

fn contest_config() -> BugContestConfig {
    BugContestConfig {
        park_balls: 20,
        timer_minutes: 20,
        timer_seconds: 0,
        selected_contestant_count: 2,
        contestant_flags: vec!["EVENT_BUG_CATCHING_CONTESTANT_1A".to_string(), "EVENT_BUG_CATCHING_CONTESTANT_2A".to_string()],
        encounters: contest_table(),
    }
}

#[test]
fn special_tokens_are_exact_trimmed_identifiers() {
    assert!(is_exact_nonempty_special_token("HealParty"));
    assert!(is_exact_nonempty_special_token("EVENT_FLAG_1"));
    assert!(!is_exact_nonempty_special_token(""));
    assert!(!is_exact_nonempty_special_token(" HealParty"));
    assert!(!is_exact_nonempty_special_token("Heal-Party"));
    assert!(is_exact_nonempty_special_value("Hello there"));
    assert!(!is_exact_nonempty_special_value(""));
    assert_eq!(require_special_token("routine", "HealParty"), Ok(()));
    assert_eq!(
        require_special_token("routine", "Heal Party"),
        Err(SpecialValueError::NotExactToken { field: "routine".to_string(), value: "Heal Party".to_string() })
    );
    assert_eq!(
        require_special_text("name", " x"),
        Err(SpecialValueError::NotExactText { field: "name".to_string(), value: " x".to_string() })
    );
}

#[test]
fn bug_contest_table_of_ten_rows_and_sentinel_is_accepted() {
    assert_eq!(validate_bug_contest_encounters(&contest_table()), Ok(()));
    let flags = set_of(&["EVENT_BUG_CATCHING_CONTESTANT_1A", "EVENT_BUG_CATCHING_CONTESTANT_2A"]);
    assert_eq!(bug_contest_config_issues(&contest_config(), &flags), Vec::new());
}

#[test]
fn bug_contest_table_errors_name_the_first_problem() {
    let mut short = contest_table();
    short.pop();
    assert_eq!(
        validate_bug_contest_encounters(&short),
        Err("bug contest encounters must contain 10 weighted rows plus one sentinel, found 10 rows".to_string())
    );
    let mut sentinel = contest_table();
    sentinel[10].weight = 254;
    assert_eq!(
        validate_bug_contest_encounters(&sentinel),
        Err("bug contest final encounter weight must be the normalized -1 sentinel 255, found 254".to_string())
    );
    let mut zero = contest_table();
    zero[3].weight = 0;
    zero[5].weight = 255;
    assert_eq!(
        validate_bug_contest_encounters(&zero),
        Err("bug contest encounter weight at index 3 must be 1..=254, found 0".to_string())
    );
    let mut total = contest_table();
    total[0].weight = 9;
    assert_eq!(
        validate_bug_contest_encounters(&total),
        Err("bug contest ordinary encounter weights must total 100, found 99".to_string())
    );
}

#[test]
fn bug_contest_config_issues_follow_check_order() {
    let mut config = contest_config();
    config.park_balls = 0;
    config.timer_seconds = 60;
    config.selected_contestant_count = 3;
    config.contestant_flags = vec![
        "EVENT_A".to_string(),
        "bad flag".to_string(),
        "EVENT_A".to_string(),
    ];
    config.encounters[1].species = "UNOWN".to_string();
    config.encounters[2].min_level = 0;
    config.encounters[4].min_level = 20;
    config.encounters[4].max_level = 19;
    let flags = set_of(&["EVENT_B"]);
    assert_eq!(
        bug_contest_config_issues(&config, &flags),
        vec![
            BugContestConfigIssue::MissingParkBalls,
            BugContestConfigIssue::InvalidTimerSeconds { timer_seconds: 60 },
            BugContestConfigIssue::UnknownContestantFlag { index: 0, flag: "EVENT_A".to_string() },
            BugContestConfigIssue::InvalidContestantFlag { index: 1, flag: "bad flag".to_string() },
            BugContestConfigIssue::DuplicateContestantFlag { index: 2, flag: "EVENT_A".to_string() },
            BugContestConfigIssue::UnknownContestantFlag { index: 2, flag: "EVENT_A".to_string() },
            BugContestConfigIssue::UnsupportedEncounterSpecies { index: 1, species: "UNOWN".to_string() },
            BugContestConfigIssue::InvalidEncounterLevelRange { index: 2, min_level: 0, max_level: 18 },
            BugContestConfigIssue::InvalidEncounterLevelRange { index: 4, min_level: 20, max_level: 19 },
        ]
    );
}

#[test]
fn bug_contest_issue_reports_count_shortfall_and_broken_table() {
    let mut config = contest_config();
    config.selected_contestant_count = 0;
    config.encounters[0].weight = 11;
    let flags = set_of(&["EVENT_BUG_CATCHING_CONTESTANT_1A", "EVENT_BUG_CATCHING_CONTESTANT_2A"]);
    assert_eq!(
        bug_contest_config_issues(&config, &flags),
        vec![
            BugContestConfigIssue::MissingSelectedContestantCount,
            BugContestConfigIssue::InvalidEncounterTable {
                message: "bug contest ordinary encounter weights must total 100, found 101".to_string(),
            },
        ]
    );
    let mut config = contest_config();
    config.selected_contestant_count = 5;
    assert_eq!(
        bug_contest_config_issues(&config, &flags),
        vec![BugContestConfigIssue::SelectedContestantCountExceedsFlags {
            selected_contestant_count: 5,
            contestant_flag_count: 2,
        }]
    );
}

#[test]
fn known_routines_are_the_executable_and_inactive_ones() {
    assert!(is_known_special_routine("HealParty"));
    assert!(!is_known_special_routine("healparty"));
    assert!(!is_known_special_routine(""));
    let routines = set_of(&["", "Bad Name", "HealParty", "NoSuchRoutine"]);
    assert_eq!(
        special_routine_catalog_issues(&routines),
        vec![
            SpecialRoutineCatalogIssue::EmptyRoutine { routine: String::new() },
            SpecialRoutineCatalogIssue::InvalidRoutine { routine: "Bad Name".to_string() },
            SpecialRoutineCatalogIssue::UnknownRoutine { routine: "NoSuchRoutine".to_string() },
        ]
    );
}

#[test]
fn day_care_egg_thresholds_follow_compatibility_tiers() {
    assert_eq!(day_care_egg_threshold(0), 0);
    assert_eq!(day_care_egg_threshold(255), 0);
    assert_eq!(day_care_egg_threshold(254), 80);
    assert_eq!(day_care_egg_threshold(230), 80);
    assert_eq!(day_care_egg_threshold(229), 40);
    assert_eq!(day_care_egg_threshold(170), 40);
    assert_eq!(day_care_egg_threshold(169), 30);
    assert_eq!(day_care_egg_threshold(110), 30);
    assert_eq!(day_care_egg_threshold(109), 10);
    assert_eq!(day_care_egg_threshold(1), 10);
    assert!(day_care_egg_roll(230, 79));
    assert!(!day_care_egg_roll(230, 80));
    assert!(!day_care_egg_roll(0, 0));
}

#[test]
fn day_care_countdown_only_moves_for_a_breeding_pair_without_an_egg() {
    let mut idle = breeding_day_care(0, 5);
    let mut divider = scripted(&[]);
    assert_eq!(advance_day_care_step(&mut idle, &mut divider), Ok(()));
    assert_eq!(idle.steps_until_next_egg, 5);
    assert!(divider.carries.is_empty());

    let mut waiting = breeding_day_care(120, 5);
    waiting.egg_present = true;
    assert_eq!(advance_day_care_step(&mut waiting, &mut divider), Ok(()));
    assert_eq!(waiting.steps_until_next_egg, 5);

    let mut counting = breeding_day_care(120, 5);
    assert_eq!(advance_day_care_step(&mut counting, &mut divider), Ok(()));
    assert_eq!(counting.steps_until_next_egg, 4);
    assert!(!counting.egg_present);

    let mut wrapped = breeding_day_care(120, 0);
    assert_eq!(advance_day_care_step(&mut wrapped, &mut divider), Ok(()));
    assert_eq!(wrapped.steps_until_next_egg, 255);
}

#[test]
fn day_care_countdown_reload_and_egg_roll_use_the_divider() {
    let mut day_care = breeding_day_care(230, 1);
    let mut divider = scripted(&[200, 79]);
    assert_eq!(advance_day_care_step(&mut day_care, &mut divider), Ok(()));
    assert_eq!(day_care.steps_until_next_egg, 200);
    assert!(day_care.egg_present);
    assert_eq!(divider.carries, vec![false, false]);

    let mut day_care = breeding_day_care(100, 1);
    let mut divider = scripted(&[7, 10]);
    assert_eq!(advance_day_care_step(&mut day_care, &mut divider), Ok(()));
    assert_eq!(day_care.steps_until_next_egg, 7);
    assert!(!day_care.egg_present);
    assert_eq!(divider.carries, vec![false, true]);

    let mut day_care = breeding_day_care(100, 1);
    let mut divider = scripted(&[]);
    assert_eq!(
        advance_day_care_step(&mut day_care, &mut divider),
        Err(DayCareStepError::Divider("divider exhausted".to_string()))
    );
    assert!(!day_care.egg_present);
}

#[test]
fn saved_magikarp_record_needs_the_length_table() {
    let empty = MagikarpRecordState {
        current_feet: 0,
        current_inches: 0,
        best_feet: 0,
        best_inches: 0,
        best_owner_name: String::new(),
    };
    assert_eq!(validate_saved_magikarp_record_references(&empty, false), Ok(()));
    let record = MagikarpRecordState { best_owner_name: "GOLD".to_string(), ..empty };
    assert_eq!(
        validate_saved_magikarp_record_references(&record, false),
        Err(SpecialRoutineError::SavedMagikarpRecordRequiresLengthDefinitions)
    );
    assert_eq!(validate_saved_magikarp_record_references(&record, true), Ok(()));
}

#[test]
fn builtin_pending_battle_types_name_their_routines() {
    assert_eq!(
        saved_special_battle_type_builtin_routines(),
        vec![("BATTLETYPE_TRAINER_HOUSE", "TrainerHouse"), ("BATTLETYPE_CELEBI", "CelebiShrineEvent")]
    );
    assert_eq!(saved_special_battle_type_builtin_routine("BATTLETYPE_CELEBI"), Some("CelebiShrineEvent"));
    assert_eq!(saved_special_battle_type_builtin_routine("BATTLETYPE_NORMAL"), None);
}

#[test]
fn saved_pending_battle_type_must_be_scripted_or_builtin_with_its_routine() {
    assert_eq!(validate_saved_pending_special_battle_type(None, |_| false, |_| false), Ok(()));
    assert_eq!(
        validate_saved_pending_special_battle_type(Some("BATTLETYPE_SHINY"), |t| t == "BATTLETYPE_SHINY", |_| false),
        Ok(())
    );
    assert_eq!(
        validate_saved_pending_special_battle_type(Some("BATTLETYPE_CELEBI"), |_| false, |r| r == "CelebiShrineEvent"),
        Ok(())
    );
    assert_eq!(
        validate_saved_pending_special_battle_type(Some("BATTLETYPE_CELEBI"), |_| false, |_| false),
        Err(SpecialRoutineError::SavedPendingSpecialBattleTypeMissing { battle_type: "BATTLETYPE_CELEBI".to_string() })
    );
    assert_eq!(
        validate_saved_pending_special_battle_type(Some("BATTLETYPE_NORMAL"), |_| false, |_| true),
        Err(SpecialRoutineError::SavedPendingSpecialBattleTypeMissing { battle_type: "BATTLETYPE_NORMAL".to_string() })
    );
}
