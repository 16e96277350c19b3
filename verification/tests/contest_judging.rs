use crystal_core::ordered::{TextMap, TextSet};
use crystal_core::pokemon::{
    pokemon_matches_species_and_ot, pokemon_nickname_or_species, CaughtData, Dv, Party, Pokemon, PokemonSpecies, TimeOfDay,
};
use crystal_core::special_routines::battle_tower::{
    battle_tower_rule_failures, decode_battle_tower_caught_data, BattleTowerRules,
};
use crystal_core::special_routines::bug_contest::{
    bug_contest_judging, bug_contest_trainer_name, elapsed_bug_contest_time, insert_bug_contest_winner,
    require_bug_contest_config, BugContestCandidate, BugContestConfig, BugContestEncounterEntry, BugContestPlacement,
    ClockTime,
};
use crystal_core::special_routines::errors::SpecialRoutineError;
use crystal_core::special_routines::ratings::{oak_rating, OakRatingEntry};

fn member(id: &str, item: Option<&str>, is_egg: bool) -> Pokemon {
    Pokemon {
        species: PokemonSpecies {
            id: id.to_string(),
            base_hp: 45,
            base_attack: 49,
            base_defense: 49,
            base_speed: 45,
            base_special_attack: 65,
            base_special_defense: 65,
        },
        level: 30,
        dvs: Dv { attack: 0, defense: 0, speed: 0, special: 0 },
        hp_exp: 0,
        attack_exp: 0,
        defense_exp: 0,
        speed_exp: 0,
        special_exp: 0,
        is_egg,
        nickname: String::new(),
        happiness: 70,
        status: None,
        sleep_turns: 0,
        hp: 90,
        max_hp: 90,
        attack: 100,
        defense: 100,
        speed: 100,
        special_attack: 100,
        special_defense: 100,
        caught_data: None,
        original_trainer_id: 1234,
        original_trainer_name: "GOLD".to_string(),
        experience: 0,
        item: item.map(|i| i.to_string()),
        moves: Vec::new(),
    }
}

fn contest_config(flags: usize) -> BugContestConfig {
    let mut encounters: Vec<BugContestEncounterEntry> = (0..10)
        .map(|_| BugContestEncounterEntry { weight: 10, species: "CATERPIE".to_string(), min_level: 7, max_level: 18 })
        .collect();
    encounters.push(BugContestEncounterEntry { weight: 255, species: "CATERPIE".to_string(), min_level: 7, max_level: 18 });
    BugContestConfig {
        park_balls: 20,
        timer_minutes: 20,
        timer_seconds: 0,
        selected_contestant_count: 1,
        contestant_flags: (0..flags).map(|i| format!("EVENT_CONTESTANT_{i}")).collect(),
        encounters,
    }
}

fn tower_rules() -> BattleTowerRules {
    BattleTowerRules {
        banned_species: TextMap::new(),
        required_party_count: 3,
        challenge_streak_length: 7,
        reward_candidates: Vec::new(),
        excluded_reward_items: Vec::new(),
        reward_quantity: 1,
        reward_failure_sentinel: "NO_ITEM".to_string(),
        reward_item_values: TextMap::new(),
        minimum_level_group: 1,
        maximum_level_group: 10,
        level_group_size: 10,
        party_count_failure_text: "CountText".to_string(),
        duplicate_species_failure_text: "SpeciesText".to_string(),
        duplicate_held_item_failure_text: "ItemText".to_string(),
        egg_failure_text: "EggText".to_string(),
        trainers: Vec::new(),
        mon_groups: Vec::new(),
    }
}

fn party_of(members: Vec<Pokemon>) -> Party {
    let mut party = Party::empty();
    for (slot, pokemon) in members.into_iter().enumerate() {
        party.pokemon[slot] = Some(pokemon);
    }
    party
}

#[test]
fn contest_judging_ranks_contestants_by_their_draws() {
    let config = contest_config(10);
    let draws = vec![(0u8, 0u8); 10];
    let (rank, placements) =
        bug_contest_judging(Some(&config), &TextSet::new(), None, "GOLD", &draws, "BugContestJudging").expect("judging");
    assert_eq!(rank, 4);
    assert_eq!(
        placements,
        vec![
            BugContestPlacement {
                place: 1,
                winner_id: 7,
                trainer_name: "CAMPER BARRY".to_string(),
                species: "PINSIR".to_string(),
                score: 366,
                player: false,
            },
            BugContestPlacement {
                place: 2,
                winner_id: 4,
                trainer_name: "COOLTRAINER NICK".to_string(),
                species: "SCYTHER".to_string(),
                score: 357,
                player: false,
            },
            BugContestPlacement {
                place: 3,
                winner_id: 8,
                trainer_name: "PICNICKER CINDY".to_string(),
                species: "BUTTERFREE".to_string(),
                score: 341,
                player: false,
            },
        ]
    );
}

#[test]
fn contest_judging_places_a_strong_player_first() {
    let config = contest_config(10);
    let mut draws = vec![(0u8, 0u8); 10];
    draws[2] = (6, 0xff);
    let mut catch = member("SCYTHER", Some("BERRY"), false);
    catch.max_hp = 255;
    catch.attack = 255;
    let (rank, placements) =
        bug_contest_judging(Some(&config), &TextSet::new(), Some(&catch), "GOLD", &draws, "BugContestJudging")
            .expect("judging");
    assert_eq!(rank, 1);
    assert_eq!(placements[0].trainer_name, "GOLD");
    assert!(placements[0].player);
    assert_eq!(placements[1].winner_id, 4);
    assert_eq!(placements[1].species, "PINSIR");
    assert_eq!(placements[1].score, 375);
}

#[test]
fn contest_judging_needs_three_contestants_and_a_valid_config() {
    let config = contest_config(4);
    let mut selected = TextSet::new();
    selected.insert("EVENT_CONTESTANT_0".to_string());
    selected.insert("EVENT_CONTESTANT_1".to_string());
    assert_eq!(
        bug_contest_judging(Some(&config), &selected, None, "GOLD", &[(0, 0), (0, 0)], "BugContestJudging"),
        Err(SpecialRoutineError::InvalidState {
            routine: "BugContestJudging".to_string(),
            message: "Bug Contest judging requires three initialized winner slots".to_string(),
        })
    );
    assert_eq!(
        bug_contest_judging(None, &selected, None, "GOLD", &[], "BugContestJudging"),
        Err(SpecialRoutineError::MissingBugContestConfig { routine: "BugContestJudging".to_string() })
    );
}

#[test]
fn contest_config_checks_come_in_order() {
    let refused = |config: &BugContestConfig| match require_bug_contest_config(Some(config), "R") {
        Err(SpecialRoutineError::InvalidBugContestConfig { message, .. }) => message,
        other => panic!("unexpected {other:?}"),
    };
    let mut c = contest_config(2);
    c.park_balls = 0;
    assert_eq!(refused(&c), "park_balls must be positive");
    let mut c = contest_config(2);
    c.timer_seconds = 60;
    assert_eq!(refused(&c), "timer_seconds must be 0..=59, found 60");
    let mut c = contest_config(2);
    c.selected_contestant_count = 3;
    assert_eq!(refused(&c), "selected_contestant_count 3 exceeds 2 contestant flags");
    let mut c = contest_config(2);
    c.contestant_flags[1] = " EVENT".to_string();
    assert_eq!(refused(&c), "contestant_flags must be exact non-empty ids");
    let mut c = contest_config(2);
    c.contestant_flags[1] = c.contestant_flags[0].clone();
    assert_eq!(refused(&c), "contestant_flags must not contain duplicates");
    assert!(require_bug_contest_config(Some(&contest_config(2)), "R").is_ok());
}

#[test]
fn contest_winners_shift_down_for_a_better_score() {
    let candidate = |id: u8, score: u16| BugContestCandidate { winner_id: id, species: "X".to_string(), score };
    let mut winners = [candidate(2, 300), candidate(3, 200), candidate(4, 100)];
    insert_bug_contest_winner(&mut winners, candidate(5, 200));
    assert_eq!(winners, [candidate(2, 300), candidate(5, 200), candidate(3, 200)]);
    insert_bug_contest_winner(&mut winners, candidate(6, 50));
    assert_eq!(winners, [candidate(2, 300), candidate(5, 200), candidate(3, 200)]);
    assert_eq!(bug_contest_trainer_name(1, "GOLD"), "GOLD");
    assert_eq!(bug_contest_trainer_name(2, "GOLD"), "BUG CATCHER DON");
    assert_eq!(bug_contest_trainer_name(11, "GOLD"), "SCHOOLBOY KIPP");
    assert_eq!(bug_contest_trainer_name(0, "GOLD"), "BUG CATCHER DON");
}

#[test]
fn contest_clock_borrows_across_units() {
    let start = ClockTime { day: 0, hour: 23, minute: 59, second: 50 };
    let current = ClockTime { day: 1, hour: 0, minute: 0, second: 10 };
    assert_eq!(elapsed_bug_contest_time(start, current), (0, 0, 0, 20));
    let start = ClockTime { day: 139, hour: 10, minute: 0, second: 0 };
    let current = ClockTime { day: 0, hour: 10, minute: 20, second: 0 };
    assert_eq!(elapsed_bug_contest_time(start, current), (1, 0, 20, 0));
}

#[test]
fn tower_party_failures_follow_the_rules() {
    let rules = tower_rules();
    let good = party_of(vec![member("PIKACHU", Some("BERRY"), false), member("ABRA", None, false), member("ONIX", Some("NO_ITEM"), false)]);
    assert_eq!(battle_tower_rule_failures(&good, &rules), Vec::<String>::new());
    let bad = party_of(vec![
        member("PIKACHU", Some("BERRY"), false),
        member("PIKACHU", Some("BERRY"), false),
        member("TOGEPI", None, true),
        member("ABRA", None, false),
    ]);
    assert_eq!(
        battle_tower_rule_failures(&bad, &rules),
        vec!["CountText".to_string(), "SpeciesText".to_string(), "ItemText".to_string(), "EggText".to_string()]
    );
    let eggs = party_of(vec![
        member("TOGEPI", Some("BERRY"), true),
        member("TOGEPI", Some("BERRY"), true),
        member("ABRA", Some("NO_ITEM"), false),
    ]);
    assert_eq!(battle_tower_rule_failures(&eggs, &rules), vec!["EggText".to_string()]);
}

#[test]
fn tower_caught_data_unpacks_its_two_bytes() {
    assert_eq!(decode_battle_tower_caught_data(0, 0), None);
    assert_eq!(
        decode_battle_tower_caught_data(0x45, 0x85),
        Some(CaughtData { level: 5, time_of_day: Some(TimeOfDay::Morning), original_trainer_gender: 1, location: 5 })
    );
    assert_eq!(
        decode_battle_tower_caught_data(0x0a, 0),
        Some(CaughtData { level: 10, time_of_day: None, original_trainer_gender: 0, location: 0 })
    );
}

#[test]
fn oak_rating_picks_the_first_covering_entry() {
    let entry = |limit: usize, fanfare: &str, text: &str| OakRatingEntry {
        caught_count_limit: limit,
        fanfare: fanfare.to_string(),
        text_label: text.to_string(),
    };
    let table = vec![entry(9, "SFX_A", "OakRating01"), entry(251, "SFX_B", "OakRating19")];
    assert_eq!(oak_rating(&table, 5, "ProfOaksPCBoot").map(|e| e.caught_count_limit), Ok(9));
    assert_eq!(oak_rating(&table, 100, "ProfOaksPCBoot").map(|e| e.caught_count_limit), Ok(251));
    assert_eq!(
        oak_rating(&table, 300, "ProfOaksPCBoot").map(|e| e.caught_count_limit),
        Err(SpecialRoutineError::InvalidOakRatingTable {
            routine: "ProfOaksPCBoot".to_string(),
            message: "no rating covers caught count 300".to_string(),
        })
    );
    let unordered = vec![entry(9, "SFX_A", "OakRating01"), entry(9, "SFX_B", "OakRating19")];
    assert_eq!(
        oak_rating(&unordered, 100, "ProfOaksPCBoot").map(|e| e.caught_count_limit),
        Err(SpecialRoutineError::InvalidOakRatingTable {
            routine: "ProfOaksPCBoot".to_string(),
            message: "caughtCountLimit values must be strictly increasing".to_string(),
        })
    );
    let untrimmed = vec![entry(9, " SFX_A", "OakRating01")];
    assert_eq!(
        oak_rating(&untrimmed, 1, "ProfOaksPCBoot").map(|e| e.caught_count_limit),
        Err(SpecialRoutineError::InvalidOakRatingTable {
            routine: "ProfOaksPCBoot".to_string(),
            message: "entries must contain exact nonempty fanfare and text label ids".to_string(),
        })
    );
    assert_eq!(
        oak_rating(&[], 1, "ProfOaksPCBoot").map(|e| e.caught_count_limit),
        Err(SpecialRoutineError::MissingOakRatingTable { routine: "ProfOaksPCBoot".to_string() })
    );
}

#[test]
fn pokemon_names_and_owner_checks() {
    let mut p = member("PIKACHU", None, false);
    assert_eq!(pokemon_nickname_or_species(&p), "PIKACHU");
    p.nickname = "  ".to_string();
    assert_eq!(pokemon_nickname_or_species(&p), "PIKACHU");
    p.nickname = "SPARKY".to_string();
    assert_eq!(pokemon_nickname_or_species(&p), "SPARKY");
    assert!(pokemon_matches_species_and_ot(&p, "PIKACHU", "GOLD", 1234));
    assert!(!pokemon_matches_species_and_ot(&p, "PIKACHU", "SILVER", 1234));
    assert!(!pokemon_matches_species_and_ot(&p, "PIKACHU", "GOLD", 1235));
}
