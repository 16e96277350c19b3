use crystal_core::ordered::{ByteMap, TextMap};
use crystal_core::pokemon::{Dv, Pokemon, PokemonSpecies};
use crystal_core::special_routines::battle_tower::{
    battle_tower_record_status, battle_tower_timer_expired, exact_battle_tower_level_group, record_battle_tower_run,
    BattleTowerRules,
    reset_battle_tower_trainer_records, BattleTowerState,
};
use crystal_core::special_routines::bug_contest::{bug_contest_dv_bonus, bug_contest_player_score};
use crystal_core::special_routines::day_care::DividerSource;
use crystal_core::special_routines::errors::SpecialRoutineError;
use crystal_core::special_routines::game_corner::{
    card_flip_identity, card_flip_payout, slot_advance_reel3_until_no_match, slot_attempt_skip_to_seven,
    slot_bias_for_roll, slot_check_all_three, slot_reel, slot_reel3_match, slot_stop_reel1, slot_stop_reel2,
    slot_symbol_name, slot_symbol_payout, slot_window, slot_windows, SlotStopMode, SlotStopResolution, SlotSymbol,
};
use crystal_core::special_routines::happiness::{
    apply_signed_happiness_delta, happiness_delta, happiness_service_outcomes, require_happiness_data,
    select_happiness_service_outcome, HappinessChangeEntry, HappinessData, HappinessServiceOutcome,
};
use crystal_core::special_routines::lucky_number::{
    consider_lucky_number_match, lucky_number_pc_box_order, lucky_number_suffix_match_len, lucky_number_tier,
    LuckyNumberWinnerSource,
};
use crystal_core::special_routines::odd_egg::{draw_odd_egg_index, validate_odd_egg_table, OddEggDefinition};
use crystal_core::special_routines::ratings::format_magikarp_length;

struct FixedRoll(u8);

impl DividerSource for FixedRoll {
    fn random(&mut self, _carry: bool) -> Result<u8, String> {
        Ok(self.0)
    }
}

fn pokemon(id: &str, original_trainer_id: u16) -> Pokemon {
    Pokemon {
        species: PokemonSpecies {
            id: id.to_string(),
            base_hp: 45,
            base_attack: 49,
            base_defense: 49,
            base_speed: 45,
            base_special_attack: 65,
            base_special_defense: 65,
        },
        level: 12,
        dvs: Dv { attack: 2, defense: 3, speed: 0, special: 2 },
        hp_exp: 0,
        attack_exp: 0,
        defense_exp: 0,
        speed_exp: 0,
        special_exp: 0,
        is_egg: false,
        nickname: String::new(),
        happiness: 70,
        status: None,
        sleep_turns: 0,
        hp: 100,
        max_hp: 300,
        attack: 260,
        defense: 10,
        speed: 20,
        special_attack: 30,
        special_defense: 40,
        caught_data: None,
        original_trainer_id,
        original_trainer_name: String::new(),
        experience: 0,
        item: Some("BERRY".to_string()),
        moves: Vec::new(),
    }
}

fn tower() -> BattleTowerState {
    BattleTowerState {
        challenge_state: 0,
        beaten_trainers: 4,
        level_group: 0,
        reward_given: false,
        quick_saved: false,
        explanation_read: false,
        save_file_flags: 0,
        gs_ball_flag: false,
        record_state: 0,
        record_last_day: None,
        record_reset_counter: 0,
        leaderboard_acknowledged: true,
        loaded_trainer_id: None,
        selected_party_indexes: Vec::new(),
        mobile_flags: Vec::new(),
        trainer_history: Vec::new(),
        record_streaks: vec![7, 3],
        record_outcomes: vec![true, false],
        record_days: vec![9, 8],
        reward_item: String::new(),
    }
}

fn odd_egg(probability: u16) -> OddEggDefinition {
    OddEggDefinition {
        species: "PICHU".to_string(),
        moves: vec!["THUNDERSHOCK".to_string()],
        original_trainer_id: 256,
        dvs: [0, 0, 0, 0],
        probability,
        level: 5,
        experience: 125,
        hatch_cycles: 20,
        nickname: "EGG".to_string(),
        original_trainer_name: "DAY-CARE".to_string(),
    }
}

#[test]
fn card_faces_name_species_and_level() {
    assert_eq!(card_flip_identity(0), ("PIKACHU", 1));
    assert_eq!(card_flip_identity(7), ("ODDISH", 2));
    assert_eq!(card_flip_identity(22), ("POLIWAG", 6));
}

#[test]
fn card_flip_bets_pay_by_how_narrow_they_are() {
    assert_eq!(card_flip_payout(0, 2, 0), 6);
    assert_eq!(card_flip_payout(0, 4, 0), 0);
    assert_eq!(card_flip_payout(0, 2, 1), 12);
    assert_eq!(card_flip_payout(0, 0, 2), 9);
    assert_eq!(card_flip_payout(0, 1, 2), 18);
    assert_eq!(card_flip_payout(0, 2, 2), 72);
    assert_eq!(card_flip_payout(23, 5, 7), 72);
    assert_eq!(card_flip_payout(23, 0, 6), 9);
    assert_eq!(card_flip_payout(23, 3, 7), 0);
}

#[test]
fn slot_symbols_have_names_and_payouts() {
    assert_eq!(slot_symbol_name(SlotSymbol::Seven), "SEVEN");
    assert_eq!(slot_symbol_payout(SlotSymbol::Seven), 300);
    assert_eq!(slot_symbol_payout(SlotSymbol::Cherry), 6);
    assert_eq!(slot_symbol_payout(SlotSymbol::Staryu), 15);
    assert_eq!(
        slot_window(&slot_reel(0), 14),
        [SlotSymbol::Squirtle, SlotSymbol::Seven, SlotSymbol::Cherry]
    );
}

#[test]
fn slot_lines_pay_the_last_matching_line() {
    let windows = slot_windows([0, 0, 0]);
    assert_eq!(slot_check_all_three(&windows, 3), (Some(SlotSymbol::Seven), vec!["top".to_string()]));
    assert_eq!(slot_check_all_three(&windows, 1), (None, Vec::new()));
    assert_eq!(slot_reel3_match([0, 0, 0], 3), Some(SlotSymbol::Seven));
    let mut offsets = [0, 0, 0];
    slot_advance_reel3_until_no_match(&mut offsets, 3);
    assert_eq!(offsets, [0, 0, 1]);
}

#[test]
fn slot_bias_rolls_follow_the_machine_tables() {
    assert_eq!(slot_bias_for_roll(2, true), Some(SlotSymbol::Seven));
    assert_eq!(slot_bias_for_roll(2, false), Some(SlotSymbol::Pokeball));
    assert_eq!(slot_bias_for_roll(48, false), Some(SlotSymbol::Cherry));
    assert_eq!(slot_bias_for_roll(49, false), None);
    assert_eq!(slot_bias_for_roll(80, true), Some(SlotSymbol::Cherry));
    assert_eq!(slot_bias_for_roll(81, true), None);
}

#[test]
fn slot_reels_slip_toward_the_bias() {
    assert_eq!(slot_stop_reel1(1, Some(SlotSymbol::Seven)), 3);
    assert_eq!(slot_stop_reel1(1, None), 1);
    assert_eq!(slot_attempt_skip_to_seven([0, 3, 0], 3), Some([0, 14, 0]));
    assert_eq!(slot_attempt_skip_to_seven([0, 3, 0], 1), None);
    let mut offsets = [0, 0, 0];
    assert_eq!(
        slot_stop_reel2(&mut offsets, Some(SlotSymbol::Cherry), 1, &mut FixedRoll(0)),
        Ok(SlotStopResolution::normal(0))
    );
    assert_eq!(offsets, [0, 1, 0]);
    let mut offsets = [0, 3, 0];
    assert_eq!(
        slot_stop_reel2(&mut offsets, None, 3, &mut FixedRoll(10)),
        Ok(SlotStopResolution { mode: SlotStopMode::SkipToSeven, animation_start_offset: 3, animation_count: 0 })
    );
    assert_eq!(offsets, [0, 14, 0]);
    let mut offsets = [0, 3, 0];
    assert_eq!(slot_stop_reel2(&mut offsets, None, 3, &mut FixedRoll(80)), Ok(SlotStopResolution::normal(3)));
    assert_eq!(offsets, [0, 3, 0]);
}

#[test]
fn lucky_number_tiers_count_matching_trailing_digits() {
    assert_eq!(lucky_number_suffix_match_len(12345, 12345), 5);
    assert_eq!(lucky_number_suffix_match_len(12345, 44345), 3);
    assert_eq!(lucky_number_suffix_match_len(12345, 12346), 0);
    assert_eq!(lucky_number_suffix_match_len(5, 105), 2);
    assert_eq!(lucky_number_tier(12345, 12345), 1);
    assert_eq!(lucky_number_tier(12345, 44345), 2);
    assert_eq!(lucky_number_tier(5, 105), 3);
    assert_eq!(lucky_number_tier(12345, 12346), 0);
}

#[test]
fn lucky_number_prefers_better_tiers_and_pc_on_ties() {
    let mut tier = 0;
    let mut source = None;
    let mut species = None;
    consider_lucky_number_match(&pokemon("PIDGEY", 11345), LuckyNumberWinnerSource::Party, 12345, &mut tier, &mut source, &mut species);
    assert_eq!((tier, source, species.clone()), (2, Some(LuckyNumberWinnerSource::Party), Some("PIDGEY".to_string())));
    consider_lucky_number_match(&pokemon("RATTATA", 44345), LuckyNumberWinnerSource::Pc, 12345, &mut tier, &mut source, &mut species);
    assert_eq!((tier, source, species.clone()), (2, Some(LuckyNumberWinnerSource::Pc), Some("RATTATA".to_string())));
    let mut egg = pokemon("TOGEPI", 12345);
    egg.is_egg = true;
    consider_lucky_number_match(&egg, LuckyNumberWinnerSource::Party, 12345, &mut tier, &mut source, &mut species);
    assert_eq!(tier, 2);
    consider_lucky_number_match(&pokemon("ABRA", 12345), LuckyNumberWinnerSource::Party, 12345, &mut tier, &mut source, &mut species);
    assert_eq!((tier, source, species), (1, Some(LuckyNumberWinnerSource::Party), Some("ABRA".to_string())));
}

#[test]
fn lucky_number_searches_the_current_box_first() {
    assert_eq!(lucky_number_pc_box_order(5, 3, "CheckForLuckyNumberWinners"), Ok(vec![3, 0, 1, 2, 4]));
    assert_eq!(lucky_number_pc_box_order(5, 19, "CheckForLuckyNumberWinners"), Ok(vec![3, 0, 1, 2, 4]));
    assert_eq!(lucky_number_pc_box_order(0, 7, "CheckForLuckyNumberWinners"), Ok(Vec::new()));
    assert_eq!(
        lucky_number_pc_box_order(2, 5, "CheckForLuckyNumberWinners"),
        Err(SpecialRoutineError::InvalidCurrentPcBox {
            routine: "CheckForLuckyNumberWinners".to_string(),
            current_pc_box: 5,
            box_count: 2,
        })
    );
}

#[test]
fn happiness_changes_depend_on_current_happiness() {
    let mut changes: ByteMap<HappinessChangeEntry> = ByteMap::new();
    changes.insert(0, HappinessChangeEntry { code: "GAINED_LEVEL".to_string(), low: 5, mid: 3, high: 2 });
    let mut services: TextMap<Vec<HappinessServiceOutcome>> = TextMap::new();
    services.insert(
        "HaircutBrother".to_string(),
        vec![
            HappinessServiceOutcome { roll_weight: 30, script_value: 2, change_code: 0 },
            HappinessServiceOutcome { roll_weight: 70, script_value: 3, change_code: 0 },
        ],
    );
    services.insert("Daisy".to_string(), Vec::new());
    let data = HappinessData { changes, services };
    assert_eq!(happiness_delta(&data, 0, 99, "R"), Ok(5));
    assert_eq!(happiness_delta(&data, 0, 100, "R"), Ok(3));
    assert_eq!(happiness_delta(&data, 0, 200, "R"), Ok(2));
    assert_eq!(
        happiness_delta(&data, 7, 10, "R"),
        Err(SpecialRoutineError::InvalidHappinessData { routine: "R".to_string(), message: "missing change code 7".to_string() })
    );
    assert_eq!(require_happiness_data(Some(&data), "R").map(|d| d.services.len()), Ok(2));
    assert_eq!(
        require_happiness_data(None, "R").map(|d| d.services.len()),
        Err(SpecialRoutineError::MissingHappinessData { routine: "R".to_string() })
    );
    let outcomes = happiness_service_outcomes(&data, "HaircutBrother").expect("outcomes");
    assert_eq!(select_happiness_service_outcome(outcomes, 29).script_value, 2);
    assert_eq!(select_happiness_service_outcome(outcomes, 30).script_value, 3);
    assert_eq!(select_happiness_service_outcome(outcomes, 200).script_value, 3);
    assert_eq!(
        happiness_service_outcomes(&data, "Daisy").map(|o| o.len()),
        Err(SpecialRoutineError::InvalidHappinessData {
            routine: "Daisy".to_string(),
            message: "service table Daisy has no outcomes".to_string(),
        })
    );
    assert_eq!(
        happiness_service_outcomes(&data, "Nobody").map(|o| o.len()),
        Err(SpecialRoutineError::InvalidHappinessData {
            routine: "Nobody".to_string(),
            message: "missing service table for Nobody".to_string(),
        })
    );
    assert_eq!(apply_signed_happiness_delta(250, 10), 255);
    assert_eq!(apply_signed_happiness_delta(5, -10), 0);
    assert_eq!(apply_signed_happiness_delta(100, -3), 97);
}

#[test]
fn tower_records_keep_the_newest_runs() {
    let mut t = tower();
    record_battle_tower_run(&mut t, 10, 9, true, 3);
    assert_eq!(t.record_streaks, vec![3, 7, 3]);
    assert_eq!(t.record_outcomes, vec![true, true, false]);
    assert_eq!(t.record_days, vec![10, 9, 8]);
    assert_eq!(t.record_state, 1);
    assert_eq!(t.record_last_day, Some(10));
    assert!(!t.leaderboard_acknowledged);
    record_battle_tower_run(&mut t, 11, 1, false, 2);
    assert_eq!(t.record_streaks, vec![1, 3]);
    reset_battle_tower_trainer_records(&mut t, 3);
    assert_eq!(t.beaten_trainers, 0);
    assert_eq!(t.trainer_history, vec![0xff, 0xff, 0xff]);
}

#[test]
fn tower_record_timer_runs_out_after_eight_days_or_two_resets() {
    let mut t = tower();
    t.record_state = 1;
    t.record_last_day = Some(250);
    assert!(battle_tower_timer_expired(&t, 2, 8));
    assert!(!battle_tower_timer_expired(&t, 1, 8));
    assert_eq!(battle_tower_record_status(&mut t, 1), 1);
    assert_eq!(battle_tower_record_status(&mut t, 2), 8);
    assert_eq!(t.record_state, 0);
    let mut reset = tower();
    reset.record_reset_counter = 2;
    assert!(battle_tower_timer_expired(&reset, 0, 8));
}

#[test]
fn tower_level_group_must_lie_in_the_rules_range() {
    let rules = BattleTowerRules {
        banned_species: TextMap::new(),
        required_party_count: 3,
        challenge_streak_length: 7,
        reward_candidates: Vec::new(),
        excluded_reward_items: Vec::new(),
        reward_quantity: 5,
        reward_failure_sentinel: "NO_ITEM".to_string(),
        reward_item_values: TextMap::new(),
        minimum_level_group: 1,
        maximum_level_group: 10,
        level_group_size: 10,
        party_count_failure_text: String::new(),
        duplicate_species_failure_text: String::new(),
        duplicate_held_item_failure_text: String::new(),
        egg_failure_text: String::new(),
        trainers: Vec::new(),
        mon_groups: Vec::new(),
    };
    let mut t = tower();
    t.level_group = 4;
    assert_eq!(exact_battle_tower_level_group(&t, &rules, "BattleTowerBattle"), Ok(4));
    t.level_group = 0;
    assert_eq!(
        exact_battle_tower_level_group(&t, &rules, "BattleTowerBattle"),
        Err(SpecialRoutineError::InvalidBattleTowerLevelGroup {
            routine: "BattleTowerBattle".to_string(),
            level_group: 0,
            minimum: 1,
            maximum: 10,
        })
    );
}

#[test]
fn odd_egg_draws_follow_running_chance_totals() {
    let table = vec![odd_egg(50), odd_egg(50)];
    assert_eq!(validate_odd_egg_table(&table, "GiveOddEgg"), Ok(()));
    assert_eq!(
        validate_odd_egg_table(&[], "GiveOddEgg"),
        Err(SpecialRoutineError::MissingOddEggDefinitions { routine: "GiveOddEgg".to_string() })
    );
    assert_eq!(
        validate_odd_egg_table(&[odd_egg(99)], "GiveOddEgg"),
        Err(SpecialRoutineError::InvalidOddEggTable { routine: "GiveOddEgg".to_string() })
    );
    assert_eq!(draw_odd_egg_index(&table, 0, "GiveOddEgg"), Ok(0));
    assert_eq!(draw_odd_egg_index(&table, 32767, "GiveOddEgg"), Ok(0));
    assert_eq!(draw_odd_egg_index(&table, 32768, "GiveOddEgg"), Ok(1));
    assert_eq!(draw_odd_egg_index(&table, 65535, "GiveOddEgg"), Ok(1));
    assert_eq!(
        draw_odd_egg_index(&[odd_egg(10)], 40000, "GiveOddEgg"),
        Err(SpecialRoutineError::InvalidOddEggTable { routine: "GiveOddEgg".to_string() })
    );
}

#[test]
fn contest_score_adds_stats_dv_bonus_hp_and_item() {
    assert_eq!(bug_contest_dv_bonus(0x23, 0x02), 28);
    assert_eq!(bug_contest_dv_bonus(0, 0), 0);
    assert_eq!(bug_contest_dv_bonus(0xff, 0xff), 29);
    assert_eq!(bug_contest_player_score(&pokemon("SCYTHER", 0)), 321);
    let mut plain = pokemon("SCYTHER", 0);
    plain.item = None;
    assert_eq!(bug_contest_player_score(&plain), 320);
}

#[test]
fn magikarp_lengths_print_in_feet_and_inches() {
    assert_eq!(format_magikarp_length(1, 9), "1'9\"");
    assert_eq!(format_magikarp_length(12, 0), "12'0\"");
}
