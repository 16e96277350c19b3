use crystal_core::items::{Bag, Item};
use crystal_core::ordered::{ByteMap, TextMap};
use crystal_core::pokemon::{CaughtData, Dv, LearnedMove, Party, PcBox, Pokemon, PokemonSpecies, TimeOfDay};
use crystal_core::special_routines::buena::{
    buenas_password_answer, buenas_password_category_roll, buenas_password_due, buenas_password_option_roll,
    judge_buenas_password_guess, set_buenas_password, BuenaPasswordCategories, BuenaPasswordCategoryDefinition,
    BuenasPasswordState,
};
use crystal_core::special_routines::healing::{heal_party, heal_pokemon};
use crystal_core::special_routines::party_checks::{
    beasts_check, check_first_mon_is_egg, find_party_mon_above_level, find_party_mon_at_least_that_happy,
    find_party_mon_that_species, find_party_mon_that_species_your_trainer_id, get_first_pokemon_happiness,
    storage_owns_species_with_ot,
};
use crystal_core::special_routines::lucky_number::{check_for_lucky_number_winners, LuckyNumberWinnerSource};
use crystal_core::special_routines::battle_tower::{
    battle_tower_action, battle_tower_battle, battle_tower_room_level_groups, BattleTowerBattleOutcome, battle_tower_room_menu, battle_tower_room_rejection,
    choose_battle_tower_reward, BattleTowerBannedSpeciesRule, BattleTowerMonDefinition, BattleTowerRoomMenuRejection,
    BattleTowerRules, BattleTowerState, BattleTowerTrainerDefinition,
};
use crystal_core::special_routines::bug_contest::{
    add_contestant_draw, check_party_full_after_contest, resolve_bug_contest_caught_mon, selected_contestant_flags,
    set_bug_contest_caught_data, BugContestCatchState, BugContestConfig,
    ContestCatchPlacement, CONTEST_BOXED_MON, CONTEST_CAUGHT_MON, CONTEST_NO_CATCH,
};
use crystal_core::special_routines::day_care::{day_care_level_from_experience, day_care_withdraw_fee};
use crystal_core::special_routines::errors::SpecialRoutineError;
use crystal_core::special_routines::game_corner::{
    game_corner_entry_refusal, take_card_flip_stake, GameCornerUnavailableReason,
};
use crystal_core::special_routines::gifts::{
    buena_prize, give_dratini, move_deletion, return_shuckie, select_apricorn_for_kurt, ShuckieGiftDefinition,
    SHUCKIE_FAINTED, SHUCKIE_HAPPY, SHUCKIE_REFUSED, SHUCKIE_RETURNED, SHUCKIE_WRONG_MON,
};
use crystal_core::special_routines::ratings::{
    check_magikarp_length, MagikarpLengthEntry, MAGIKARP_BEAT_RECORD, MAGIKARP_NOT_MAGIKARP, MAGIKARP_REFUSED,
    MAGIKARP_TOO_SHORT,
};
use crystal_core::special_routines::saved::MagikarpRecordState;

fn species(id: &str) -> PokemonSpecies {
    PokemonSpecies {
        id: id.to_string(),
        base_hp: 45,
        base_attack: 49,
        base_defense: 49,
        base_speed: 45,
        base_special_attack: 65,
        base_special_defense: 65,
    }
}

fn mon(id: &str, level: u8) -> Pokemon {
    Pokemon {
        species: species(id),
        level,
        dvs: Dv { attack: 0, defense: 0, speed: 0, special: 0 },
        hp_exp: 0,
        attack_exp: 0,
        defense_exp: 0,
        speed_exp: 0,
        special_exp: 0,
        is_egg: false,
        nickname: String::new(),
        happiness: 70,
        status: None,
        sleep_turns: 0,
        hp: 40,
        max_hp: 40,
        attack: 30,
        defense: 30,
        speed: 30,
        special_attack: 30,
        special_defense: 30,
        caught_data: None,
        original_trainer_id: 518,
        original_trainer_name: "MANIA".to_string(),
        experience: 0,
        item: None,
        moves: vec![
            LearnedMove { name: "TACKLE".to_string(), current_pp: 35, pp_ups: 0 },
            LearnedMove { name: "GROWL".to_string(), current_pp: 40, pp_ups: 0 },
        ],
    }
}

fn party_of(members: Vec<Pokemon>) -> Party {
    let mut pokemon: Vec<Option<Pokemon>> = members.into_iter().map(Some).collect();
    while pokemon.len() < 6 {
        pokemon.push(None);
    }
    Party { pokemon }
}

fn item(id: &str, pocket: &str) -> Item {
    Item { name: id.replace('_', " "), script_name: id.to_string(), price: 100, pocket: pocket.to_string() }
}

fn catalog() -> TextMap<Item> {
    let mut items = TextMap::new();
    for (id, pocket) in [("NUGGET", "ITEM"), ("RED_APRICORN", "ITEM"), ("COIN_CASE", "KEY_ITEM"), ("HP_UP", "ITEM"), ("PROTEIN", "ITEM")] {
        items.insert(id.to_string(), item(id, pocket));
    }
    items
}

fn crystal_lengths() -> Vec<MagikarpLengthEntry> {
    [(110, 1), (310, 2), (710, 4), (2710, 20), (7710, 50), (17710, 100), (32710, 150), (47710, 150), (57710, 100), (62710, 50), (64710, 20), (65210, 5), (65410, 2), (65510, 1)]
        .into_iter()
        .map(|(threshold, divisor)| MagikarpLengthEntry { threshold, divisor })
        .collect()
}

fn no_record() -> MagikarpRecordState {
    MagikarpRecordState { current_feet: 0, current_inches: 0, best_feet: 0, best_inches: 0, best_owner_name: String::new() }
}

fn tower_rules() -> BattleTowerRules {
    let mut reward_item_values = TextMap::new();
    reward_item_values.insert("HP_UP".to_string(), 0x1a);
    reward_item_values.insert("PROTEIN".to_string(), 0x1b);
    reward_item_values.insert("NO_ITEM".to_string(), 0x00);
    let mut banned_species = TextMap::new();
    banned_species.insert("MEWTWO".to_string(), BattleTowerBannedSpeciesRule {});
    BattleTowerRules {
        banned_species,
        required_party_count: 3,
        challenge_streak_length: 7,
        reward_candidates: vec!["HP_UP".to_string(), "PROTEIN".to_string()],
        excluded_reward_items: vec!["PROTEIN".to_string()],
        reward_quantity: 5,
        reward_failure_sentinel: "NO_ITEM".to_string(),
        reward_item_values,
        minimum_level_group: 1,
        maximum_level_group: 10,
        level_group_size: 10,
        party_count_failure_text: "BattleTowerPartyCountText".to_string(),
        duplicate_species_failure_text: "BattleTowerDuplicateSpeciesText".to_string(),
        duplicate_held_item_failure_text: "BattleTowerDuplicateItemText".to_string(),
        egg_failure_text: "BattleTowerEggText".to_string(),
        trainers: vec![BattleTowerTrainerDefinition {
            index: 0,
            trainer_class: "COOLTRAINERM".to_string(),
            name: "HANSON".to_string(),
            sprite_constant: "SPRITE_COOLTRAINER_M".to_string(),
            female: false,
        }],
        mon_groups: vec![vec![BattleTowerMonDefinition {
            species: "PIKACHU".to_string(),
            item: Some("LIGHT_BALL".to_string()),
            moves: vec!["THUNDERBOLT".to_string(), "NO_MOVE".to_string(), "NO_MOVE".to_string(), "NO_MOVE".to_string()],
            original_trainer_id: 0,
            experience: 125000,
            stat_exp: vec![0; 5],
            dvs: vec![0x0f, 0x0f, 0x0f, 0x0f],
            pp: vec![15, 0, 0, 0],
            happiness: 0,
            pokerus: vec![0, 0, 0],
            level: 50,
            status: vec![0, 0],
            stats: vec![100; 7],
            nickname: "PIKACHU".to_string(),
        }]],
    }
}

fn tower() -> BattleTowerState {
    BattleTowerState {
        challenge_state: 2,
        beaten_trainers: 3,
        level_group: 2,
        reward_given: false,
        quick_saved: false,
        explanation_read: false,
        save_file_flags: 0,
        gs_ball_flag: false,
        record_state: 0,
        record_last_day: None,
        record_reset_counter: 0,
        leaderboard_acknowledged: true,
        loaded_trainer_id: None,
        selected_party_indexes: Vec::new(),
        mobile_flags: Vec::new(),
        trainer_history: Vec::new(),
        record_streaks: Vec::new(),
        record_outcomes: Vec::new(),
        record_days: Vec::new(),
        reward_item: "HP_UP".to_string(),
    }
}

fn shuckie() -> ShuckieGiftDefinition {
    ShuckieGiftDefinition {
        species: "SHUCKLE".to_string(),
        level: 15,
        held_item: "BERRY".to_string(),
        nickname: "SHUCKIE".to_string(),
        original_trainer_name: "MANIA".to_string(),
        original_trainer_id: 518,
        got_today_engine_flag: "ENGINE_SHUCKLE_GIVEN".to_string(),
    }
}

#[test]
fn magikarp_guru_refuses_other_species_and_keeps_the_longest() {
    let lengths = crystal_lengths();
    let mut record = no_record();
    let none = check_magikarp_length(&mut record, None, 1234, &lengths, "CheckMagikarpLength").unwrap();
    assert_eq!(none.result, MAGIKARP_REFUSED);
    let goldeen = mon("GOLDEEN", 10);
    let other = check_magikarp_length(&mut record, Some((0, &goldeen)), 1234, &lengths, "CheckMagikarpLength").unwrap();
    assert_eq!((other.result, other.species.as_str()), (MAGIKARP_NOT_MAGIKARP, "GOLDEEN"));
    assert_eq!(record, no_record());

    let magikarp = mon("MAGIKARP", 10);
    let first = check_magikarp_length(&mut record, Some((1, &magikarp)), 1234, &lengths, "CheckMagikarpLength").unwrap();
    assert_eq!(first.result, MAGIKARP_BEAT_RECORD);
    assert_eq!((record.best_feet, record.best_inches), (first.feet, first.inches));
    assert_eq!(record.best_owner_name, "MANIA");
    let again = check_magikarp_length(&mut record, Some((1, &magikarp)), 1234, &lengths, "CheckMagikarpLength").unwrap();
    assert_eq!(again.result, MAGIKARP_TOO_SHORT);
    assert_eq!((again.feet, again.inches), (first.feet, first.inches));
}

#[test]
fn buena_prize_spends_points_only_when_the_prize_is_received() {
    let items = catalog();
    let mut prizes = TextMap::new();
    prizes.insert("NUGGET".to_string(), 10u8);
    let mut bag = Bag::new();
    let mut balance: u8 = 25;
    let x = buena_prize(&mut bag, &mut balance, &items, &prizes, "NUGGET", 2, "BuenaPrize").unwrap();
    assert!(x.received);
    assert_eq!((x.points_spent, x.balance, balance), (20, 5, 5));
    assert_eq!(bag.quantity(&item("NUGGET", "ITEM")), 2);
    let y = buena_prize(&mut bag, &mut balance, &items, &prizes, "NUGGET", 1, "BuenaPrize").unwrap();
    assert!(!y.received);
    assert_eq!((y.points_spent, y.balance, balance), (10, 5, 5));
    assert_eq!(
        buena_prize(&mut bag, &mut balance, &items, &prizes, "NUGGET", 30, "BuenaPrize"),
        Err(SpecialRoutineError::InvalidNumericValue { routine: "BuenaPrize".to_string(), value: "30".to_string() })
    );
    assert_eq!(
        buena_prize(&mut bag, &mut balance, &items, &prizes, "MOON_STONE", 1, "BuenaPrize"),
        Err(SpecialRoutineError::UnknownItem { routine: "BuenaPrize".to_string(), item_id: "MOON_STONE".to_string() })
    );
    assert_eq!(
        buena_prize(&mut bag, &mut balance, &items, &TextMap::new(), "NUGGET", 1, "BuenaPrize"),
        Err(SpecialRoutineError::MissingBuenaPrizeDefinitions { routine: "BuenaPrize".to_string() })
    );
}

#[test]
fn kurt_takes_apricorns_the_player_holds() {
    let items = catalog();
    let mut recipes = TextMap::new();
    recipes.insert("RED_APRICORN".to_string(), "LEVEL_BALL".to_string());
    let mut bag = Bag::new();
    bag.add_item(&item("RED_APRICORN", "ITEM"), 3).unwrap();
    assert_eq!(select_apricorn_for_kurt(&mut bag, &items, &recipes, None, 0, "SelectApricornForKurt"), Ok(None));
    assert_eq!(
        select_apricorn_for_kurt(&mut bag, &items, &recipes, Some("RED_APRICORN"), 5, "SelectApricornForKurt"),
        Ok(None)
    );
    assert_eq!(
        select_apricorn_for_kurt(&mut bag, &items, &recipes, Some("RED_APRICORN"), 2, "SelectApricornForKurt"),
        Ok(Some(("RED_APRICORN".to_string(), 2)))
    );
    assert_eq!(bag.quantity(&item("RED_APRICORN", "ITEM")), 1);
    assert_eq!(
        select_apricorn_for_kurt(&mut bag, &items, &TextMap::new(), Some("RED_APRICORN"), 1, "SelectApricornForKurt"),
        Err(SpecialRoutineError::MissingKurtApricornRecipes { routine: "SelectApricornForKurt".to_string() })
    );
}

#[test]
fn room_menu_offers_groups_and_rejects_strong_or_banned_parties() {
    let rules = tower_rules();
    assert_eq!(battle_tower_room_level_groups(&rules, false), vec![1, 2, 3, 4]);
    assert_eq!(battle_tower_room_level_groups(&rules, true), (1..=10).collect::<Vec<u8>>());
    let strong = party_of(vec![mon("PIKACHU", 35)]);
    assert_eq!(battle_tower_room_rejection(&strong, &rules, 3), Some(BattleTowerRoomMenuRejection::PartyMonTopsThisLevel));
    let banned = party_of(vec![mon("PIKACHU", 20), mon("MEWTWO", 20)]);
    assert_eq!(
        battle_tower_room_rejection(&banned, &rules, 3),
        Some(BattleTowerRoomMenuRejection::UberRestriction { species: "MEWTWO".to_string() })
    );
    assert_eq!(battle_tower_room_rejection(&banned, &rules, 7), None);
    let choice = battle_tower_room_menu(Some(&rules), false, &banned, Some(4), false, "BattleTowerRoomMenu").unwrap();
    assert_eq!(choice.level_groups, vec![1, 2, 3, 4]);
    assert_eq!(choice.rejection, Some(BattleTowerRoomMenuRejection::UberRestriction { species: "MEWTWO".to_string() }));
    assert_eq!(
        battle_tower_room_menu(Some(&rules), false, &banned, Some(5), false, "BattleTowerRoomMenu"),
        Err(SpecialRoutineError::InvalidState {
            routine: "BattleTowerRoomMenu".to_string(),
            message: "Battle Tower level group 5 is outside unlocked source options [1, 2, 3, 4]".to_string(),
        })
    );
    assert_eq!(
        battle_tower_room_menu(Some(&rules), false, &banned, Some(1), true, "BattleTowerRoomMenu"),
        Err(SpecialRoutineError::InvalidState {
            routine: "BattleTowerRoomMenu".to_string(),
            message: "Battle Tower room menu cannot select and cancel together".to_string(),
        })
    );
    assert_eq!(
        battle_tower_room_menu(None, false, &banned, None, false, "BattleTowerRoomMenu"),
        Err(SpecialRoutineError::MissingBattleTowerRules { routine: "BattleTowerRoomMenu".to_string() })
    );
}

#[test]
fn coin_games_need_coins_a_coin_case_and_a_stake() {
    let items = catalog();
    let mut bag = Bag::new();
    assert_eq!(game_corner_entry_refusal(&items, &bag, 0, true, "SlotMachine"), Ok(Some(GameCornerUnavailableReason::NoCoins)));
    assert_eq!(
        game_corner_entry_refusal(&items, &bag, 10, true, "SlotMachine"),
        Ok(Some(GameCornerUnavailableReason::MissingCoinCase))
    );
    assert_eq!(game_corner_entry_refusal(&items, &bag, 0, false, "SlotMachine"), Ok(None));
    bag.add_item(&item("COIN_CASE", "KEY_ITEM"), 1).unwrap();
    assert_eq!(game_corner_entry_refusal(&items, &bag, 10, true, "SlotMachine"), Ok(None));
    assert_eq!(
        game_corner_entry_refusal(&TextMap::new(), &bag, 10, true, "SlotMachine"),
        Err(SpecialRoutineError::UnknownItem { routine: "SlotMachine".to_string(), item_id: "COIN_CASE".to_string() })
    );
    assert_eq!(take_card_flip_stake(2), Err(GameCornerUnavailableReason::InsufficientStake));
    assert_eq!(take_card_flip_stake(10), Ok(7));
}

#[test]
fn shuckie_comes_back_only_when_healthy_and_not_too_attached() {
    let gift = shuckie();
    let mut shuckle = mon("SHUCKLE", 15);
    let mut party = party_of(vec![mon("PIKACHU", 20), shuckle.clone_for_test()]);
    let back = return_shuckie(&mut party, Some(&gift), Some(1), "ReturnShuckie").unwrap();
    assert_eq!((back.party_slot, back.result), (Some(1), SHUCKIE_RETURNED));
    assert!(party.pokemon[1].is_none());
    assert_eq!(party.pokemon.len(), 6);
    assert_eq!(return_shuckie(&mut party, Some(&gift), None, "ReturnShuckie").unwrap().result, SHUCKIE_REFUSED);
    assert_eq!(return_shuckie(&mut party, Some(&gift), Some(0), "ReturnShuckie").unwrap().result, SHUCKIE_WRONG_MON);
    shuckle.happiness = 150;
    let mut party = party_of(vec![shuckle.clone_for_test()]);
    assert_eq!(return_shuckie(&mut party, Some(&gift), Some(0), "ReturnShuckie").unwrap().result, SHUCKIE_HAPPY);
    shuckle.hp = 0;
    let mut party = party_of(vec![shuckle]);
    assert_eq!(return_shuckie(&mut party, Some(&gift), Some(0), "ReturnShuckie").unwrap().result, SHUCKIE_FAINTED);
    assert_eq!(
        return_shuckie(&mut party, None, Some(0), "ReturnShuckie"),
        Err(SpecialRoutineError::MissingShuckieGift { routine: "ReturnShuckie".to_string() })
    );
}

trait CloneForTest {
    fn clone_for_test(&self) -> Self;
}

impl CloneForTest for Pokemon {
    fn clone_for_test(&self) -> Self {
        let mut p = mon(&self.species.id, self.level);
        p.happiness = self.happiness;
        p.hp = self.hp;
        p
    }
}

#[test]
fn contest_catch_choice_and_placement() {
    let mut contest = BugContestCatchState { pending_caught_mon: None, caught_mon: Some(mon("CATERPIE", 8)) };
    assert_eq!(
        resolve_bug_contest_caught_mon(&mut contest, true),
        Err(SpecialRoutineError::InvalidState {
            routine: "BugContestSetCaughtContestMon".to_string(),
            message: "no pending caught Pokemon decision".to_string(),
        })
    );
    contest.pending_caught_mon = Some(mon("SCYTHER", 13));
    let kept = resolve_bug_contest_caught_mon(&mut contest, true).unwrap();
    assert_eq!((kept.kept, kept.species.as_str(), kept.script_value), (true, "SCYTHER", 0));
    assert_eq!(contest.caught_mon.as_ref().unwrap().species.id, "SCYTHER");
    assert!(contest.pending_caught_mon.is_none());

    let mut party = party_of(vec![mon("PIKACHU", 20)]);
    let (code, placement) =
        check_party_full_after_contest(&mut contest, &mut party, TimeOfDay::Day, 0, 0, 14, false, "CheckPartyFullAfterContest")
            .unwrap();
    assert_eq!((code, placement), (CONTEST_CAUGHT_MON, ContestCatchPlacement::Party { slot: 1 }));
    assert_eq!(
        party.pokemon[1].as_ref().unwrap().caught_data,
        Some(CaughtData { level: 13, time_of_day: Some(TimeOfDay::Day), original_trainer_gender: 0, location: 0x13 })
    );
    let (code, placement) =
        check_party_full_after_contest(&mut contest, &mut party, TimeOfDay::Day, 0, 0, 14, false, "CheckPartyFullAfterContest")
            .unwrap();
    assert_eq!((code, placement), (CONTEST_NO_CATCH, ContestCatchPlacement::NoCatch));

    let mut full = party_of((0..6).map(|_| mon("PIKACHU", 20)).collect());
    let mut contest = BugContestCatchState { pending_caught_mon: None, caught_mon: Some(mon("PINSIR", 14)) };
    let (code, placement) =
        check_party_full_after_contest(&mut contest, &mut full, TimeOfDay::Night, 1, 3, 14, true, "CheckPartyFullAfterContest")
            .unwrap();
    assert_eq!((code, placement), (CONTEST_BOXED_MON, ContestCatchPlacement::BoxFull));
    let mut stamped = mon("PINSIR", 14);
    set_bug_contest_caught_data(&mut stamped, TimeOfDay::Night, 1);
    assert_eq!(stamped.caught_data.unwrap().location, 0x13);
}

#[test]
fn day_care_level_follows_the_experience_table_and_fee_counts_levels() {
    let minimums: Vec<i32> = (0..=100).map(|level: i32| level * level * level).collect();
    let mut resident = mon("MARILL", 5);
    resident.experience = 1000;
    assert_eq!(day_care_level_from_experience(&resident, &minimums), 10);
    resident.experience = 999;
    assert_eq!(day_care_level_from_experience(&resident, &minimums), 9);
    resident.experience = 2_000_000;
    assert_eq!(day_care_level_from_experience(&resident, &minimums), 100);
    assert_eq!(day_care_withdraw_fee(5, 10), 600);
    assert_eq!(day_care_withdraw_fee(10, 10), 100);
}

#[test]
fn dratini_learns_its_mode_moves_and_deleter_forgets_one() {
    let mut move_pp = TextMap::new();
    move_pp.insert("WRAP".to_string(), 20u8);
    move_pp.insert("THUNDER_WAVE".to_string(), 20u8);
    move_pp.insert("EXTREMESPEED".to_string(), 5u8);
    let mut sets = ByteMap::new();
    sets.insert(0, vec!["WRAP".to_string(), "THUNDER_WAVE".to_string()]);
    sets.insert(1, vec!["EXTREMESPEED".to_string(), "HYPER_BEAM".to_string()]);
    let mut party = party_of(vec![mon("DRATINI", 15), mon("PIKACHU", 20), mon("DRATINI", 15)]);
    let gift = give_dratini(&mut party, &move_pp, &sets, 0, "GiveDratini").unwrap();
    assert_eq!((gift.party_slot, gift.learned), (Some(2), true));
    let moves = &party.pokemon[2].as_ref().unwrap().moves;
    assert_eq!(moves.len(), 2);
    assert_eq!((moves[1].name.as_str(), moves[1].current_pp, moves[1].pp_ups), ("THUNDER_WAVE", 20, 0));
    assert_eq!(party.pokemon[0].as_ref().unwrap().moves[0].name, "TACKLE");
    assert_eq!(
        give_dratini(&mut party, &move_pp, &sets, 1, "GiveDratini"),
        Err(SpecialRoutineError::UnknownMove { routine: "GiveDratini".to_string(), party_slot: 2, move_id: "HYPER_BEAM".to_string() })
    );
    assert!(!give_dratini(&mut party, &move_pp, &sets, 7, "GiveDratini").unwrap().learned);

    let deleted = move_deletion(&mut party, 1, 0, "MoveDeletion").unwrap();
    assert_eq!((deleted.species.as_str(), deleted.deleted_move.as_str(), deleted.remaining_moves), ("PIKACHU", "TACKLE", 1));
    assert_eq!(
        move_deletion(&mut party, 1, 0, "MoveDeletion"),
        Err(SpecialRoutineError::CannotDeleteOnlyMove { routine: "MoveDeletion".to_string(), party_slot: 1 })
    );
    assert_eq!(
        move_deletion(&mut party, 0, 5, "MoveDeletion"),
        Err(SpecialRoutineError::InvalidMoveSlot { routine: "MoveDeletion".to_string(), party_slot: 0, move_slot: 5 })
    );
    assert_eq!(
        move_deletion(&mut party, 4, 0, "MoveDeletion"),
        Err(SpecialRoutineError::InvalidPartySlot { routine: "MoveDeletion".to_string(), party_slot: 4 })
    );
}

#[test]
fn tower_actions_update_the_saved_challenge() {
    let rules = tower_rules();
    let items = catalog();
    let bag = Bag::new();
    let party = party_of(vec![mon("PIKACHU", 25)]);
    let mut variables: TextMap<String> = TextMap::new();
    variables.insert("battle_tower_mon_history".to_string(), "x".to_string());
    let mut t = tower();
    let r = battle_tower_action(&mut t, &mut variables, Some(&rules), &items, &bag, &party, 9, "BATTLETOWERACTION_SAVE_AND_QUIT", "BattleTowerAction").unwrap();
    assert_eq!((r.value.as_str(), r.truthy), ("1", true));
    assert_eq!((t.challenge_state, t.quick_saved, t.record_last_day, t.record_state), (1, true, Some(9), 1));
    let r = battle_tower_action(&mut t, &mut variables, Some(&rules), &items, &bag, &party, 9, "BATTLETOWERACTION_GET_CHALLENGE_STATE", "BattleTowerAction").unwrap();
    assert_eq!((r.value.as_str(), r.truthy), ("1", true));
    let r = battle_tower_action(&mut t, &mut variables, Some(&rules), &items, &bag, &party, 9, "BATTLETOWERACTION_LEVEL_CHECK", "BattleTowerAction").unwrap();
    assert_eq!((r.value.as_str(), r.truthy), ("25", true));
    let r = battle_tower_action(&mut t, &mut variables, Some(&rules), &items, &bag, &party, 9, "BATTLETOWERACTION_GIVEREWARD", "BattleTowerAction").unwrap();
    assert_eq!((r.value.as_str(), r.truthy), ("HP_UP", true));
    let r = battle_tower_action(&mut t, &mut variables, Some(&rules), &items, &bag, &party, 9, "BATTLETOWERACTION_UBERS_CHECK", "BattleTowerAction").unwrap();
    assert_eq!((r.value.as_str(), r.truthy), ("0", false));
    let r = battle_tower_action(&mut t, &mut variables, Some(&rules), &items, &bag, &party, 9, "BATTLETOWERACTION_1D", "BattleTowerAction").unwrap();
    assert!(r.truthy);
    assert_eq!((t.challenge_state, t.reward_given), (4, true));
    assert_eq!((t.record_streaks.clone(), t.record_outcomes.clone(), t.record_days.clone()), (vec![3], vec![true], vec![9]));
    let r = battle_tower_action(&mut t, &mut variables, Some(&rules), &items, &bag, &party, 9, "BATTLETOWERACTION_RESETDATA", "BattleTowerAction").unwrap();
    assert_eq!((r.value.as_str(), r.truthy), ("0", false));
    assert_eq!((t.challenge_state, t.beaten_trainers, t.level_group), (0, 0, 0));
    assert_eq!(t.trainer_history, vec![0xff; 7]);
    assert!(!variables.contains_key("battle_tower_mon_history"));
    assert_eq!(
        battle_tower_action(&mut t, &mut variables, Some(&rules), &items, &bag, &party, 9, "BATTLETOWERACTION_CHOOSEREWARD", "BattleTowerAction"),
        Err(SpecialRoutineError::MissingDividerSource { routine: "BattleTowerAction".to_string() })
    );
    assert_eq!(
        battle_tower_action(&mut t, &mut variables, Some(&rules), &items, &bag, &party, 9, "  ; comment", "BattleTowerAction"),
        Err(SpecialRoutineError::MissingScriptValue { routine: "BattleTowerAction".to_string(), variable: "_value action token".to_string() })
    );
    assert_eq!(
        battle_tower_action(&mut t, &mut variables, Some(&rules), &items, &bag, &party, 9, "BATTLETOWERACTION_99", "BattleTowerAction"),
        Err(SpecialRoutineError::UnhandledBattleTowerAction { routine: "BattleTowerAction".to_string(), action: "BATTLETOWERACTION_99".to_string() })
    );
    assert_eq!(
        battle_tower_action(&mut t, &mut variables, None, &items, &bag, &party, 9, "BATTLETOWERACTION_1C", "BattleTowerAction"),
        Err(SpecialRoutineError::MissingBattleTowerRules { routine: "BattleTowerAction".to_string() })
    );
}

#[test]
fn reward_draw_folds_past_the_last_candidate_and_skips_excluded_ones() {
    let rules = tower_rules();
    let mut t = tower();
    t.reward_item = String::new();
    assert_eq!(choose_battle_tower_reward(&mut t, Some(&rules), 1, "BattleTowerAction"), Ok(false));
    assert_eq!(t.reward_item, "");
    assert_eq!(choose_battle_tower_reward(&mut t, Some(&rules), 2, "BattleTowerAction"), Ok(true));
    assert_eq!((t.reward_item.as_str(), t.reward_given), ("HP_UP", false));
}

#[test]
fn healing_restores_hp_status_and_known_move_pp() {
    let mut move_pp = TextMap::new();
    move_pp.insert("TACKLE".to_string(), 35u8);
    let mut hurt = mon("PIKACHU", 20);
    hurt.hp = 3;
    hurt.status = Some("PSN".to_string());
    hurt.moves[0].current_pp = 1;
    hurt.moves[1].current_pp = 2;
    let mut egg = mon("TOGEPI", 5);
    egg.is_egg = true;
    egg.hp = 0;
    let mut party = party_of(vec![mon("RATTATA", 3), hurt, egg]);
    assert_eq!(heal_party(&mut party, &move_pp), vec![1]);
    let healed = party.pokemon[1].as_ref().unwrap();
    assert_eq!((healed.hp, healed.status.clone()), (40, None));
    assert_eq!((healed.moves[0].current_pp, healed.moves[1].current_pp), (35, 2));
    assert_eq!(party.pokemon[2].as_ref().unwrap().hp, 0);
    let mut fine = mon("RATTATA", 3);
    assert!(!heal_pokemon(&mut fine, &move_pp));
}

#[test]
fn tower_battle_counts_trainers_and_marks_a_finished_streak() {
    let rules = tower_rules();
    let move_pp: TextMap<u8> = TextMap::new();
    let mut party = party_of(vec![mon("PIKACHU", 25)]);
    let mut t = tower();
    t.quick_saved = true;
    assert_eq!(
        battle_tower_battle(&mut t, &mut party, Some(&rules), &move_pp, false, None, 9, "BattleTowerBattle"),
        Err(SpecialRoutineError::InvalidState {
            routine: "BattleTowerBattle".to_string(),
            message: "Battle Tower battle start requires a loaded Battle Tower opponent".to_string(),
        })
    );
    assert_eq!(
        battle_tower_battle(&mut t, &mut party, Some(&rules), &move_pp, true, None, 9, "BattleTowerBattle"),
        Ok(BattleTowerBattleOutcome::Started)
    );
    assert_eq!((t.challenge_state, t.beaten_trainers, t.quick_saved), (2, 4, false));
    t.beaten_trainers = 7;
    assert_eq!(
        battle_tower_battle(&mut t, &mut party, Some(&rules), &move_pp, true, Some("0"), 9, "BattleTowerBattle"),
        Ok(BattleTowerBattleOutcome::Finished { result_code: 0, beaten_trainers: 7, challenge_state: 3 })
    );
    assert_eq!(t.record_last_day, Some(9));
    assert_eq!(
        battle_tower_battle(&mut t, &mut party, Some(&rules), &move_pp, true, Some("2"), 9, "BattleTowerBattle"),
        Ok(BattleTowerBattleOutcome::Finished { result_code: 2, beaten_trainers: 7, challenge_state: 3 })
    );
    assert_eq!(
        battle_tower_battle(&mut t, &mut party, Some(&rules), &move_pp, true, Some("x"), 9, "BattleTowerBattle"),
        Err(SpecialRoutineError::InvalidNumericValue { routine: "BattleTowerBattle".to_string(), value: "x".to_string() })
    );
}

fn password_categories() -> BuenaPasswordCategories {
    let mut categories = TextMap::new();
    let mut order = Vec::new();
    for i in 0..11 {
        let id = format!("BUENA_CATEGORY_{}", i);
        categories.insert(
            id.clone(),
            BuenaPasswordCategoryDefinition {
                category_type: if i == 0 { "BUENA_STRING".to_string() } else { "BUENA_MON".to_string() },
                points: 5,
                options: vec![format!("OPTION_{}_A", i), format!("OPTION_{}_B", i), format!("OPTION_{}_C", i)],
            },
        );
        order.push(id);
    }
    BuenaPasswordCategories { order, categories }
}

#[test]
fn buenas_password_is_drawn_once_a_day_and_judges_guesses() {
    let categories = password_categories();
    let mut password = BuenasPasswordState { generated: false, category_index: 0, option_index: 0, generation_day: 0 };
    assert!(buenas_password_due(&password, 3));
    assert_eq!(buenas_password_category_roll(0x1b), None);
    assert_eq!(buenas_password_category_roll(0x13), Some(3));
    assert_eq!(buenas_password_option_roll(0x07), None);
    assert_eq!(buenas_password_option_roll(0x06), Some(2));
    assert_eq!(set_buenas_password(&mut password, &categories, 3, 2, 3, "BuenasPassword"), Ok(()));
    assert!(!buenas_password_due(&password, 3));
    assert!(buenas_password_due(&password, 4));
    assert_eq!(
        buenas_password_answer(&password, &categories, "BuenasPassword"),
        Ok(("BUENA_CATEGORY_3".to_string(), "OPTION_3_C".to_string()))
    );
    let category = categories.categories.get("BUENA_CATEGORY_3").unwrap();
    assert_eq!(judge_buenas_password_guess(category, "OPTION_3_C", Some("OPTION_3_C"), "BuenasPassword"), Ok(true));
    assert_eq!(judge_buenas_password_guess(category, "OPTION_3_C", Some("OPTION_3_A"), "BuenasPassword"), Ok(false));
    assert_eq!(judge_buenas_password_guess(category, "OPTION_3_C", None, "BuenasPassword"), Ok(false));
    assert_eq!(
        judge_buenas_password_guess(category, "OPTION_3_C", Some("OPTION 3"), "BuenasPassword"),
        Err(SpecialRoutineError::InvalidBuenaPasswordGuess { routine: "BuenasPassword".to_string(), guess: "OPTION 3".to_string() })
    );
    let mut short = password_categories();
    short.order.pop();
    assert_eq!(
        set_buenas_password(&mut password, &short, 3, 2, 5, "BuenasPassword"),
        Err(SpecialRoutineError::InvalidState {
            routine: "BuenasPassword".to_string(),
            message: "Buena password table must contain exactly 11 categories, found 10".to_string(),
        })
    );
}

#[test]
fn contestants_are_drawn_without_repeats_and_listed_in_order() {
    let mut chosen = Vec::new();
    add_contestant_draw(&mut chosen, 0xfa, 10);
    assert!(chosen.is_empty());
    add_contestant_draw(&mut chosen, 52, 10);
    add_contestant_draw(&mut chosen, 3, 10);
    add_contestant_draw(&mut chosen, 51, 10);
    assert_eq!(chosen, vec![2, 0]);
    let mut config = BugContestConfig {
        park_balls: 20,
        timer_minutes: 20,
        timer_seconds: 0,
        selected_contestant_count: 2,
        contestant_flags: (0..10).map(|i| format!("EVENT_CONTESTANT_{}", i)).collect(),
        encounters: Vec::new(),
    };
    assert_eq!(
        selected_contestant_flags(&config, &chosen, "SelectRandomBugContestContestants"),
        Ok(vec!["EVENT_CONTESTANT_0".to_string(), "EVENT_CONTESTANT_2".to_string()])
    );
    config.contestant_flags = (0..256).map(|i| format!("EVENT_CONTESTANT_{}", i)).collect();
    assert_eq!(
        selected_contestant_flags(&config, &chosen, "SelectRandomBugContestContestants"),
        Err(SpecialRoutineError::InvalidBugContestConfig {
            routine: "SelectRandomBugContestContestants".to_string(),
            message: "contestant_flags must contain at most 255 entries".to_string(),
        })
    );
}

#[test]
fn lucky_number_prefers_longer_matches_and_pc_ties() {
    let mut lucky = mon("MR__MIME", 20);
    lucky.original_trainer_id = 12345;
    let mut close = mon("PIKACHU", 20);
    close.original_trainer_id = 2345;
    let party = party_of(vec![close, mon("RATTATA", 3)]);
    let no_boxes: Vec<PcBox> = Vec::new();
    let r = check_for_lucky_number_winners(&party, &no_boxes, 0, 12345, "CheckForLuckyNumberWinners").unwrap();
    assert_eq!((r.tier, r.source, r.species.as_deref()), (2, Some(LuckyNumberWinnerSource::Party), Some("PIKACHU")));
    assert_eq!(r.text_label.as_deref(), Some("LuckyNumberMatchPartyText"));
    let boxes = vec![
        PcBox { count: 1, pokemon: vec![Some(lucky), None] },
        PcBox { count: 0, pokemon: Vec::new() },
    ];
    let r = check_for_lucky_number_winners(&party, &boxes, 0, 12345, "CheckForLuckyNumberWinners").unwrap();
    assert_eq!((r.tier, r.source), (1, Some(LuckyNumberWinnerSource::Pc)));
    assert_eq!((r.species.as_deref(), r.shown_species.as_deref()), (Some("MR__MIME"), Some("MR  MIME")));
    assert_eq!(r.text_label.as_deref(), Some("LuckyNumberMatchPCText"));
    assert_eq!(
        check_for_lucky_number_winners(&party, &boxes, 5, 12345, "CheckForLuckyNumberWinners"),
        Err(SpecialRoutineError::InvalidCurrentPcBox { routine: "CheckForLuckyNumberWinners".to_string(), current_pc_box: 5, box_count: 2 })
    );
    let overfull = vec![PcBox { count: 21, pokemon: Vec::new() }];
    assert_eq!(
        check_for_lucky_number_winners(&party, &overfull, 0, 12345, "CheckForLuckyNumberWinners"),
        Err(SpecialRoutineError::InvalidPcBoxCount { routine: "CheckForLuckyNumberWinners".to_string(), box_index: 0, count: 21 })
    );
    let empty = party_of(Vec::new());
    assert_eq!(check_for_lucky_number_winners(&empty, &overfull, 0, 12345, "CheckForLuckyNumberWinners").unwrap().tier, 0);
}

#[test]
fn party_questions_find_the_first_matching_pokemon() {
    let mut egg = mon("TOGEPI", 50);
    egg.is_egg = true;
    let mut happy = mon("PICHU", 5);
    happy.happiness = 200;
    happy.nickname = "SPARKY".to_string();
    let party = party_of(vec![egg, mon("RATTATA", 30), happy]);
    assert_eq!(find_party_mon_above_level(&party, 20).as_deref(), Some("RATTATA"));
    assert_eq!(find_party_mon_above_level(&party, 40), None);
    assert_eq!(find_party_mon_at_least_that_happy(&party, 150).as_deref(), Some("PICHU"));
    assert!(find_party_mon_that_species(&party, "PICHU"));
    assert!(!find_party_mon_that_species(&party, "MEW"));
    assert!(find_party_mon_that_species_your_trainer_id(&party, "PICHU", "MANIA", 518));
    assert!(!find_party_mon_that_species_your_trainer_id(&party, "PICHU", "GOLD", 518));
    assert_eq!(
        get_first_pokemon_happiness(&party, "GetFirstPokemonHappiness"),
        Ok((1, "RATTATA".to_string(), "RATTATA".to_string(), 70))
    );
    assert_eq!(check_first_mon_is_egg(&party, "CheckFirstMonIsEgg"), Ok(("EGG".to_string(), "TOGEPI".to_string(), true)));
    let empty = party_of(Vec::new());
    assert_eq!(
        check_first_mon_is_egg(&empty, "CheckFirstMonIsEgg"),
        Err(SpecialRoutineError::EmptyParty { routine: "CheckFirstMonIsEgg".to_string() })
    );
    assert_eq!(
        get_first_pokemon_happiness(&empty, "GetFirstPokemonHappiness"),
        Err(SpecialRoutineError::NoNonEggPartyPokemon { routine: "GetFirstPokemonHappiness".to_string() })
    );
}

#[test]
fn storage_search_covers_party_and_boxes() {
    let party = party_of(vec![mon("RAIKOU", 40)]);
    let boxes = vec![PcBox { count: 1, pokemon: vec![Some(mon("ENTEI", 40)), Some(mon("SUICUNE", 40))] }];
    assert_eq!(storage_owns_species_with_ot(&party, &boxes, "ENTEI", "MANIA", 518, "MonCheck"), Ok(true));
    assert_eq!(storage_owns_species_with_ot(&party, &boxes, "SUICUNE", "MANIA", 518, "MonCheck"), Ok(false));
    assert_eq!(beasts_check(&party, &boxes, "MANIA", 518, "BeastsCheck"), Ok(Some("SUICUNE")));
    let all = vec![PcBox { count: 2, pokemon: vec![Some(mon("ENTEI", 40)), Some(mon("SUICUNE", 40))] }];
    assert_eq!(beasts_check(&party, &all, "MANIA", 518, "BeastsCheck"), Ok(None));
    let overfull = vec![PcBox { count: 21, pokemon: Vec::new() }];
    assert_eq!(
        storage_owns_species_with_ot(&party, &overfull, "ENTEI", "MANIA", 518, "MonCheck"),
        Err(SpecialRoutineError::InvalidPcBoxCount { routine: "MonCheck".to_string(), box_index: 0, count: 21 })
    );
}
