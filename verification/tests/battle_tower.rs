use crystal_core::ordered::{TextMap, TextSet};
use crystal_core::pokemon::Party;
use crystal_core::special_routines::battle_tower::{
    battle_tower_rules_issues, decode_battle_tower_status, is_default_battle_tower_trainer_history,
    saved_battle_tower_state_is_active, validate_battle_tower_rules, validate_saved_battle_tower_state,
    BattleTowerBannedSpeciesRule, BattleTowerFailureTextField, BattleTowerMonDefinition, BattleTowerRules,
    BattleTowerRulesIssue, BattleTowerState, BattleTowerTrainerDefinition, MonRecordField, StatusProblem,
    TowerRulesShapeError, TowerTokenField,
};
use crystal_core::special_routines::errors::SpecialRoutineError;

fn set_of(values: &[&str]) -> TextSet {
    let mut set = TextSet::new();
    for value in values {
        set.insert(value.to_string());
    }
    set
}

fn mon() -> BattleTowerMonDefinition {
    BattleTowerMonDefinition {
        species: "PIKACHU".to_string(),
        item: Some("LIGHT_BALL".to_string()),
        moves: vec!["THUNDERBOLT".to_string(), "QUICK_ATTACK".to_string(), "NO_MOVE".to_string(), "NO_MOVE".to_string()],
        original_trainer_id: 0,
        experience: 125000,
        stat_exp: vec![0; 5],
        dvs: vec![0x0f, 0x0f, 0x0f, 0x0f],
        pp: vec![15, 30, 0, 0],
        happiness: 0,
        pokerus: vec![0, 0, 0],
        level: 50,
        status: vec![0, 0],
        stats: vec![100; 7],
        nickname: "PIKACHU".to_string(),
    }
}

fn rules() -> BattleTowerRules {
    let mut reward_item_values = TextMap::new();
    reward_item_values.insert("HP_UP".to_string(), 0x1a);
    reward_item_values.insert("PROTEIN".to_string(), 0x1b);
    reward_item_values.insert("NO_ITEM".to_string(), 0x00);
    BattleTowerRules {
        banned_species: TextMap::new(),
        required_party_count: 3,
        challenge_streak_length: 7,
        reward_candidates: vec!["HP_UP".to_string(), "PROTEIN".to_string()],
        excluded_reward_items: vec!["PROTEIN".to_string()],
        reward_quantity: 5,
        reward_failure_sentinel: "NO_ITEM".to_string(),
        reward_item_values,
        minimum_level_group: 1,
        maximum_level_group: 10,
        level_group_size: 10,
        party_count_failure_text: "BattleTowerPartyCountText".to_string(),
        duplicate_species_failure_text: "BattleTowerDuplicateSpeciesText".to_string(),
        duplicate_held_item_failure_text: "BattleTowerDuplicateItemText".to_string(),
        egg_failure_text: "BattleTowerEggText".to_string(),
        trainers: vec![BattleTowerTrainerDefinition {
            index: 0,
            trainer_class: "COOLTRAINERM".to_string(),
            name: "HANSON".to_string(),
            sprite_constant: "SPRITE_COOLTRAINER_M".to_string(),
            female: false,
        }],
        mon_groups: vec![vec![mon()]],
    }
}

fn fresh_tower() -> BattleTowerState {
    BattleTowerState {
        challenge_state: 0,
        beaten_trainers: 0,
        level_group: 0,
        reward_given: false,
        quick_saved: false,
        explanation_read: false,
        save_file_flags: 0,
        gs_ball_flag: false,
        record_state: 0,
        record_last_day: None,
        record_reset_counter: 0,
        leaderboard_acknowledged: false,
        loaded_trainer_id: None,
        selected_party_indexes: Vec::new(),
        mobile_flags: Vec::new(),
        trainer_history: vec![0xff; 7],
        record_streaks: Vec::new(),
        record_outcomes: Vec::new(),
        record_days: Vec::new(),
        reward_item: String::new(),
    }
}

#[test]
fn well_formed_tower_rules_load_and_have_no_issues() {
    let rules = rules();
    assert_eq!(rules.validate_shape(), Ok(()));
    assert_eq!(validate_battle_tower_rules(&rules, "BattleTowerAction"), Ok(()));
    assert_eq!(battle_tower_rules_issues(&rules, &set_of(&["PIKACHU"])), Vec::new());
}

#[test]
fn tower_rules_issues_report_counts_texts_and_banned_species() {
    let mut rules = rules();
    rules.required_party_count = 0;
    rules.level_group_size = 0;
    rules.maximum_level_group = 0;
    rules.trainers.clear();
    rules.mon_groups.push(Vec::new());
    rules.egg_failure_text = "egg text".to_string();
    rules.banned_species.insert("MEWTWO".to_string(), BattleTowerBannedSpeciesRule {});
    rules.banned_species.insert("bad id".to_string(), BattleTowerBannedSpeciesRule {});
    rules.banned_species.insert("MEW".to_string(), BattleTowerBannedSpeciesRule {});
    assert_eq!(
        battle_tower_rules_issues(&rules, &set_of(&["MEW"])),
        vec![
            BattleTowerRulesIssue::MissingRequiredPartyCount,
            BattleTowerRulesIssue::MissingLevelGroupSize,
            BattleTowerRulesIssue::InvalidLevelGroupRange,
            BattleTowerRulesIssue::MissingTrainerRoster,
            BattleTowerRulesIssue::MissingMonGroups,
            BattleTowerRulesIssue::InvalidFailureText {
                field: BattleTowerFailureTextField::Egg,
                text_id: "egg text".to_string(),
            },
            BattleTowerRulesIssue::UnknownBannedSpecies { species_id: "MEWTWO".to_string() },
            BattleTowerRulesIssue::InvalidBannedSpecies { species_id: "bad id".to_string() },
        ]
    );
    assert_eq!(BattleTowerFailureTextField::Egg.subject(), "battle_tower_rules:eggFailureText");
}

#[test]
fn tower_rules_shape_errors_come_in_loader_order() {
    let mut r = rules();
    r.required_party_count = 0;
    r.challenge_streak_length = 0;
    assert_eq!(r.validate_shape(), Err(TowerRulesShapeError::MissingRequiredPartyCount));
    let mut r = rules();
    r.reward_quantity = 0;
    assert_eq!(r.validate_shape(), Err(TowerRulesShapeError::MissingRewards));
    let mut r = rules();
    r.reward_failure_sentinel = " NO_ITEM".to_string();
    assert_eq!(
        r.validate_shape(),
        Err(TowerRulesShapeError::BadToken {
            field: TowerTokenField::RewardFailureSentinel,
            value: " NO_ITEM".to_string(),
        })
    );
    let mut r = rules();
    r.excluded_reward_items = vec!["HP_UP".to_string(), "PROTEIN".to_string()];
    assert_eq!(r.validate_shape(), Err(TowerRulesShapeError::EveryRewardExcluded));
    let mut r = rules();
    r.mon_groups[0][0].moves.pop();
    assert_eq!(
        r.validate_shape(),
        Err(TowerRulesShapeError::WrongRecordLength {
            group: 0,
            mon: 0,
            record: MonRecordField::Moves,
            expected: 4,
            actual: 3,
        })
    );
    let mut r = rules();
    r.mon_groups[0][0].status = vec![0x09, 0];
    assert_eq!(
        r.validate_shape(),
        Err(TowerRulesShapeError::InvalidStatus { group: 0, mon: 0, problem: StatusProblem::InvalidBits { raw: 0x09 } })
    );
}

#[test]
fn routine_side_tower_rule_check_names_the_routine_and_rule() {
    let mut r = rules();
    r.challenge_streak_length = 0;
    assert_eq!(
        validate_battle_tower_rules(&r, "BattleTowerAction"),
        Err(SpecialRoutineError::InvalidBattleTowerRules {
            routine: "BattleTowerAction".to_string(),
            message: "challengeStreakLength must be nonzero".to_string(),
        })
    );
    let mut r = rules();
    r.party_count_failure_text = " text".to_string();
    assert_eq!(
        validate_battle_tower_rules(&r, "BattleTowerAction"),
        Err(SpecialRoutineError::InvalidBattleTowerRules {
            routine: "BattleTowerAction".to_string(),
            message: "partyCountFailureText must be an exact nonempty text id".to_string(),
        })
    );
}

#[test]
fn stored_status_bytes_decode_to_one_status() {
    assert_eq!(decode_battle_tower_status(&[0, 0]), Ok((None, 0)));
    assert_eq!(decode_battle_tower_status(&[3, 0]), Ok((Some("SLEEP".to_string()), 3)));
    assert_eq!(decode_battle_tower_status(&[8, 0]), Ok((Some("POISON".to_string()), 0)));
    assert_eq!(decode_battle_tower_status(&[16, 0]), Ok((Some("BURN".to_string()), 0)));
    assert_eq!(decode_battle_tower_status(&[32, 0]), Ok((Some("FREEZE".to_string()), 0)));
    assert_eq!(decode_battle_tower_status(&[64, 0]), Ok((Some("PARALYSIS".to_string()), 0)));
    assert_eq!(decode_battle_tower_status(&[0]), Err(StatusProblem::WrongLength { len: 1 }));
    assert_eq!(decode_battle_tower_status(&[8, 1]), Err(StatusProblem::NonzeroPadding { byte: 1 }));
    assert_eq!(decode_battle_tower_status(&[24, 0]), Err(StatusProblem::InvalidBits { raw: 24 }));
    assert_eq!(decode_battle_tower_status(&[128, 0]), Err(StatusProblem::InvalidBits { raw: 128 }));
}

#[test]
fn fresh_tower_state_is_inactive_and_any_progress_makes_it_active() {
    assert!(is_default_battle_tower_trainer_history(&[0xff; 7]));
    assert!(!is_default_battle_tower_trainer_history(&[0xff; 6]));
    assert!(!is_default_battle_tower_trainer_history(&[0xff, 0xff, 0xff, 0, 0xff, 0xff, 0xff]));
    let fresh = fresh_tower();
    assert!(!saved_battle_tower_state_is_active(&fresh));
    let mut progressed = fresh_tower();
    progressed.beaten_trainers = 1;
    assert!(saved_battle_tower_state_is_active(&progressed));
    let mut history = fresh_tower();
    history.trainer_history = Vec::new();
    assert!(saved_battle_tower_state_is_active(&history));
}

#[test]
fn saved_tower_state_checks_rules_level_group_records_and_party_slots() {
    let party = Party::empty();
    assert_eq!(validate_saved_battle_tower_state(&fresh_tower(), &party, None), Ok(()));

    let mut active = fresh_tower();
    active.level_group = 3;
    assert_eq!(
        validate_saved_battle_tower_state(&active, &party, None),
        Err(SpecialRoutineError::SavedBattleTowerMissingRules)
    );
    let rules = rules();
    assert_eq!(validate_saved_battle_tower_state(&active, &party, Some(&rules)), Ok(()));

    let mut out_of_range = fresh_tower();
    out_of_range.level_group = 11;
    assert_eq!(
        validate_saved_battle_tower_state(&out_of_range, &party, Some(&rules)),
        Err(SpecialRoutineError::SavedBattleTowerLevelGroupOutOfRange { level_group: 11, minimum: 1, maximum: 10 })
    );

    let mut long_record = fresh_tower();
    long_record.record_days = vec![1; 8];
    assert_eq!(
        validate_saved_battle_tower_state(&long_record, &party, Some(&rules)),
        Err(SpecialRoutineError::SavedBattleTowerRecordTooLong {
            field: "battle_tower.record_days".to_string(),
            len: 8,
            max_len: 7,
        })
    );

    let mut selected = fresh_tower();
    selected.selected_party_indexes = vec![0];
    assert_eq!(
        validate_saved_battle_tower_state(&selected, &party, Some(&rules)),
        Err(SpecialRoutineError::SavedBattleTowerEmptySelectedPartySlot { party_index: 0 })
    );
    let mut beyond = fresh_tower();
    beyond.selected_party_indexes = vec![6];
    assert_eq!(
        validate_saved_battle_tower_state(&beyond, &party, Some(&rules)),
        Err(SpecialRoutineError::SavedBattleTowerSelectedPartySlotOutOfRange { party_index: 6 })
    );
}
