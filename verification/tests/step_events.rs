use crystal_core::pokemon::{calculate_stats, has_expected_stats, CaughtData, Dv, Party, Pokemon, PokemonSpecies, TimeOfDay};
use crystal_core::special_routines::day_care::DividerSource;
use crystal_core::state::{GameState, StepEventCounters};
use crystal_core::step_events::{
    is_egg, process_egg_step, process_overworld_step, process_overworld_step_checked, process_step,
    process_step_checked, step_event_rules_issues, MovementMode, OverworldStepContext, PoisonDamageResult,
    StepEventError, StepEventResult, StepEventRules, StepEventRulesIssue,
};

/// A divider that has nothing to hand out; steps that need a random byte fail.
struct EmptyDivider;

impl DividerSource for EmptyDivider {
    fn random(&mut self, _carry: bool) -> Result<u8, String> {
        Err("divider exhausted".to_string())
    }
}

fn rules() -> StepEventRules {
    StepEventRules {
        poison_step_interval: 4,
        egg_step_trigger: 0x80,
        hatched_egg_happiness: 0x78,
        poison_status: "POISON".to_string(),
        egg_nickname: "EGG".to_string(),
        happiness_step_counter_mask: 1,
        happiness_step_counter_target: 0,
    }
}

fn normal_overworld_context() -> OverworldStepContext {
    OverworldStepContext { movement_mode: MovementMode::Normal, map_phone_service: 0 }
}

fn bike_context() -> OverworldStepContext {
    OverworldStepContext { movement_mode: MovementMode::Bike, map_phone_service: 0 }
}

fn run_overworld_step(state: &mut GameState, context: OverworldStepContext) -> StepEventResult {
    process_overworld_step(state, &rules(), Some(0), context, &mut EmptyDivider).expect("overworld step")
}

fn pokemon(id: &str) -> Pokemon {
    let species = PokemonSpecies {
        id: id.to_string(),
        base_hp: 45,
        base_attack: 49,
        base_defense: 49,
        base_speed: 45,
        base_special_attack: 65,
        base_special_defense: 65,
    };
    let dvs = Dv { attack: 1, defense: 2, speed: 3, special: 4 };
    let stats = calculate_stats(&species, 12, dvs, 0, 0, 0, 0, 0);
    Pokemon {
        species,
        level: 12,
        dvs,
        hp_exp: 0,
        attack_exp: 0,
        defense_exp: 0,
        speed_exp: 0,
        special_exp: 0,
        is_egg: false,
        nickname: String::new(),
        happiness: 70,
        status: None,
        sleep_turns: 0,
        hp: stats.max_hp,
        max_hp: stats.max_hp,
        attack: stats.attack,
        defense: stats.defense,
        speed: stats.speed,
        special_attack: stats.special_attack,
        special_defense: stats.special_defense,
        caught_data: None,
        original_trainer_id: 0,
        original_trainer_name: String::new(),
        experience: 0,
        item: None,
        moves: Vec::new(),
    }
}

fn party_with(entries: Vec<(usize, Pokemon)>) -> Party {
    let mut party = Party::empty();
    for (slot, pokemon) in entries {
        party.pokemon[slot] = Some(pokemon);
    }
    party
}

fn poisoned_oddish(hp: u16) -> Pokemon {
    let mut oddish = pokemon("ODDISH");
    oddish.hp = hp;
    oddish.status = Some(rules().poison_status);
    oddish
}

fn unset_rules() -> StepEventRules {
    StepEventRules::unset()
}

#[test]
fn bike_step_queues_shop_call_at_1024_and_clears_the_enable_flag() {
    let mut state = GameState::default();
    state.step_events.bike_step_count = 1023;
    state.flags.engine.set("STATUSFLAGS2_BIKE_SHOP_CALL_F", true);

    let result = run_overworld_step(&mut state, bike_context());

    assert_eq!(result, StepEventResult::nothing());
    assert_eq!(state.step_events.bike_step_count, 1024);
    assert_eq!(state.script_runtime.special_phone_call.as_deref(), Some("SPECIALCALL_BIKESHOP"));
    assert!(!state.flags.engine.is_set("STATUSFLAGS2_BIKE_SHOP_CALL_F"));
}

#[test]
fn bike_step_requires_enable_flag_exact_bike_state_and_phone_service() {
    for (flag, movement_mode, map_phone_service) in [
        (false, MovementMode::Bike, 0),
        (true, MovementMode::Normal, 0),
        (true, MovementMode::Skate, 0),
        (true, MovementMode::Bike, 0x10),
    ] {
        let mut state = GameState::default();
        state.step_events.bike_step_count = 99;
        state.flags.engine.set("STATUSFLAGS2_BIKE_SHOP_CALL_F", flag);

        run_overworld_step(&mut state, OverworldStepContext { movement_mode, map_phone_service });

        assert_eq!(state.step_events.bike_step_count, 99);
        assert!(state.script_runtime.special_phone_call.is_none());
    }
}

#[test]
fn bike_step_saturates_and_does_not_replace_an_existing_special_call() {
    let mut state = GameState::default();
    state.step_events.bike_step_count = u16::MAX;
    state.script_runtime.special_phone_call = Some("SPECIALCALL_POKERUS".to_string());
    state.flags.engine.set("STATUSFLAGS2_BIKE_SHOP_CALL_F", true);

    run_overworld_step(&mut state, bike_context());

    assert_eq!(state.step_events.bike_step_count, u16::MAX);
    assert_eq!(state.script_runtime.special_phone_call.as_deref(), Some("SPECIALCALL_POKERUS"));
    assert!(state.flags.engine.is_set("STATUSFLAGS2_BIKE_SHOP_CALL_F"));
}

#[test]
fn poison_faint_skips_bike_step_but_nonfatal_damage_does_not() {
    for (hp, expected_count) in [(1, 1023), (2, 1024)] {
        let mut state = GameState::default();
        state.storage.party.pokemon[0] = Some(poisoned_oddish(hp));
        state.step_events.poison_step_count = 3;
        state.step_events.bike_step_count = 1023;
        state.flags.engine.set("STATUSFLAGS2_BIKE_SHOP_CALL_F", true);

        let result = run_overworld_step(&mut state, bike_context());

        assert!(result.poison_result.is_some());
        assert_eq!(state.step_events.bike_step_count, expected_count);
    }
}

#[test]
fn step_event_rules_issues_validate_exact_pack_tokens() {
    assert_eq!(
        step_event_rules_issues(&unset_rules()),
        vec![
            StepEventRulesIssue::MissingPoisonStepInterval,
            StepEventRulesIssue::InvalidPoisonStatus { poison_status: String::new() },
            StepEventRulesIssue::InvalidEggNickname { egg_nickname: String::new() },
        ]
    );

    let rules = StepEventRules {
        poison_step_interval: 0,
        egg_step_trigger: 0x80,
        hatched_egg_happiness: 0x78,
        poison_status: "BAD POISON".to_string(),
        egg_nickname: " EGG".to_string(),
        happiness_step_counter_mask: 1,
        happiness_step_counter_target: 2,
    };
    assert_eq!(
        step_event_rules_issues(&rules),
        vec![
            StepEventRulesIssue::MissingPoisonStepInterval,
            StepEventRulesIssue::InvalidPoisonStatus { poison_status: "BAD POISON".to_string() },
            StepEventRulesIssue::InvalidEggNickname { egg_nickname: " EGG".to_string() },
            StepEventRulesIssue::HappinessTargetOutsideMask { target: 2, mask: 1 },
        ],
    );
}

#[test]
fn step_event_rules_issues_reject_reserved_pack_prefix_tokens() {
    let rules = StepEventRules {
        poison_step_interval: 4,
        egg_step_trigger: 0x80,
        hatched_egg_happiness: 0x78,
        poison_status: "fallback_poison".to_string(),
        egg_nickname: "legacy_egg".to_string(),
        happiness_step_counter_mask: 1,
        happiness_step_counter_target: 0,
    };

    assert_eq!(
        step_event_rules_issues(&rules),
        vec![
            StepEventRulesIssue::InvalidPoisonStatus { poison_status: "fallback_poison".to_string() },
            StepEventRulesIssue::InvalidEggNickname { egg_nickname: "legacy_egg".to_string() },
        ]
    );
}

#[test]
fn checked_step_processing_rejects_missing_or_invalid_rules_before_mutation() {
    let mut party = Party::empty();
    let mut counters = StepEventCounters::zero();
    assert_eq!(process_step_checked(&unset_rules(), &mut counters, &mut party), Err(StepEventError::MissingRules));
    assert_eq!(counters, StepEventCounters::zero());
    assert_eq!(party, Party::empty());

    let mut bad_rules = rules();
    bad_rules.poison_step_interval = 0;
    party = party_with(vec![(0, poisoned_oddish(3))]);
    let before_party = party_with(vec![(0, poisoned_oddish(3))]);
    assert_eq!(
        process_step_checked(&bad_rules, &mut counters, &mut party),
        Err(StepEventError::InvalidRules { issue: StepEventRulesIssue::MissingPoisonStepInterval })
    );
    assert_eq!(counters, StepEventCounters::zero());
    assert_eq!(party, before_party);
}

#[test]
fn poison_damage_applies_every_four_steps_to_exact_poison_status() {
    let mut party = party_with(vec![(0, poisoned_oddish(3))]);
    let mut counters = StepEventCounters::zero();

    for _ in 0..3 {
        assert_eq!(process_step(&rules(), &mut counters, &mut party).poison_result, None);
    }

    let result = process_step(&rules(), &mut counters, &mut party);
    assert_eq!(
        result.poison_result,
        Some(PoisonDamageResult { damaged_names: vec!["ODDISH".to_string()], fainted_names: Vec::new() })
    );
    assert_eq!(party.pokemon[0].as_ref().expect("pokemon").hp, 2);
    assert_eq!(counters.poison_step_count, 0);
}

#[test]
fn poison_status_is_exact_not_lowercase_or_alias_coerced() {
    let mut grimer = pokemon("GRIMER");
    grimer.hp = 4;
    grimer.status = Some("poison".to_string());
    let mut party = party_with(vec![(0, grimer)]);
    let mut counters = StepEventCounters { poison_step_count: 3, ..StepEventCounters::zero() };

    let result = process_step(&rules(), &mut counters, &mut party);
    assert_eq!(result.poison_result, None);
    assert_eq!(party.pokemon[0].as_ref().expect("pokemon").hp, 4);
}

#[test]
fn poison_faint_clears_status_and_reduces_happiness() {
    let mut oddish = poisoned_oddish(1);
    oddish.happiness = 210;
    let mut party = party_with(vec![(0, oddish)]);
    let mut counters = StepEventCounters { poison_step_count: 3, ..StepEventCounters::zero() };

    let result = process_step(&rules(), &mut counters, &mut party);
    assert_eq!(
        result.poison_result,
        Some(PoisonDamageResult { damaged_names: Vec::new(), fainted_names: vec!["ODDISH".to_string()] })
    );
    let pokemon = party.pokemon[0].as_ref().expect("pokemon");
    assert_eq!(pokemon.hp, 0);
    assert_eq!(pokemon.status, None);
    assert_eq!(pokemon.happiness, 200);
}

#[test]
fn egg_step_hatches_only_when_counter_decrements_to_zero() {
    let mut egg = pokemon("TOGEPI");
    egg.nickname = rules().egg_nickname;
    egg.is_egg = true;
    egg.happiness = 1;
    let mut party = party_with(vec![(0, egg)]);
    let mut counters = StepEventCounters { step_count: 0x7f, ..StepEventCounters::zero() };

    let result = process_step(&rules(), &mut counters, &mut party);
    assert_eq!(result.egg_hatched, true);
    assert_eq!(result.hatched_species, Some("TOGEPI".to_string()));
    assert_eq!(result.hatched_party_index, Some(0));
    let pokemon = party.pokemon[0].as_ref().expect("pokemon");
    assert_eq!(pokemon.nickname, "TOGEPI");
    assert_eq!(pokemon.happiness, rules().hatched_egg_happiness);
    assert_eq!(pokemon.status, None);
    assert!(has_expected_stats(pokemon), "exact hatch stats");
}

#[test]
fn abilities_do_not_change_crystals_one_byte_egg_cycle_decrement() {
    for _ability in ["FLAME_BODY", "MAGMA_ARMOR"] {
        let mut egg = pokemon("TOGEPI");
        egg.is_egg = true;
        egg.nickname = rules().egg_nickname;
        egg.happiness = 2;
        let accelerator = pokemon("MAGCARGO");
        let mut party = party_with(vec![(0, egg), (1, accelerator)]);

        let hatch = process_egg_step(&rules(), &mut party);

        assert_eq!(hatch, None);
        assert_eq!(party.pokemon[0].as_ref().unwrap().happiness, 1);
        assert!(party.pokemon[0].as_ref().unwrap().is_egg);
    }
}

#[test]
fn egg_hatch_initializes_the_exact_display_name_when_nickname_is_declined() {
    let mut egg = pokemon("FARFETCH_D");
    egg.is_egg = true;
    egg.nickname = rules().egg_nickname;
    egg.happiness = 1;
    let mut party = party_with(vec![(0, egg)]);
    let mut counters = StepEventCounters { step_count: 0x7f, ..StepEventCounters::zero() };

    let result = process_step(&rules(), &mut counters, &mut party);

    assert_eq!(result.hatched_species.as_deref(), Some("FARFETCH_D"));
    assert_eq!(party.pokemon[0].as_ref().expect("hatched Pokemon").nickname, "FARFETCH'D");
}

#[test]
fn egg_step_wraps_counter_and_processes_all_eggs() {
    let mut first = pokemon("TOGEPI");
    first.nickname = rules().egg_nickname;
    first.is_egg = true;
    first.happiness = 0;
    let mut second = pokemon("PICHU");
    second.nickname = rules().egg_nickname;
    second.is_egg = true;
    second.happiness = 2;
    let mut party = party_with(vec![(0, first), (1, second)]);
    let mut counters = StepEventCounters { step_count: 0x7f, ..StepEventCounters::zero() };

    let result = process_step(&rules(), &mut counters, &mut party);
    assert_eq!(result.egg_hatched, false);
    assert_eq!(party.pokemon[0].as_ref().expect("first").happiness, 0xff);
    assert_eq!(party.pokemon[1].as_ref().expect("second").happiness, 1);
}

#[test]
fn normal_pokemon_nicknamed_egg_is_not_treated_as_an_egg() {
    let mut normal = pokemon("TOGEPI");
    normal.nickname = rules().egg_nickname;
    normal.happiness = 50;
    assert!(!is_egg(&rules(), &normal));
}

#[test]
fn egg_hatch_skips_poison_in_count_step_ordering() {
    let mut egg = pokemon("TOGEPI");
    egg.nickname = rules().egg_nickname;
    egg.is_egg = true;
    egg.happiness = 1;
    let mut party = party_with(vec![(0, egg), (1, poisoned_oddish(3))]);
    let mut counters = StepEventCounters { step_count: 0x7f, poison_step_count: 3, ..StepEventCounters::zero() };

    let result = process_step(&rules(), &mut counters, &mut party);
    assert_eq!(result.egg_hatched, true);
    assert_eq!(result.poison_result, None);
    assert_eq!(party.pokemon[1].as_ref().expect("poisoned").hp, 3);
    assert_eq!(counters.poison_step_count, 4);
}

#[test]
fn happiness_step_runs_every_512_steps_and_skips_eggs() {
    let mut chikorita = pokemon("CHIKORITA");
    chikorita.happiness = 70;
    let mut egg = pokemon("TOGEPI");
    egg.nickname = rules().egg_nickname;
    egg.is_egg = true;
    egg.happiness = 70;
    let mut party = party_with(vec![(0, chikorita), (1, egg)]);
    let mut counters = StepEventCounters { step_count: 0xff, happiness_step_count: 1, ..StepEventCounters::zero() };

    let result = process_step(&rules(), &mut counters, &mut party);
    assert_eq!(result.happiness_changed, vec!["CHIKORITA".to_string()]);
    assert_eq!(party.pokemon[0].as_ref().expect("mon").happiness, 71);
    assert_eq!(party.pokemon[1].as_ref().expect("egg").happiness, 70);
}

#[test]
fn overworld_step_processes_party_events_repel_and_party_sync() {
    let mut state = GameState::default();
    state.storage.party.pokemon[0] = Some(poisoned_oddish(3));
    state.step_events.poison_step_count = 3;
    state.repel_steps_remaining = 1;
    state.active_repel_item = Some("REPEL".to_string());

    let result = process_overworld_step(&mut state, &rules(), Some(0), normal_overworld_context(), &mut EmptyDivider)
        .expect("overworld step");

    assert_eq!(result.poison_result, None);
    assert_eq!(state.storage.party.pokemon[0].as_ref().unwrap().hp, 3);
    assert_eq!(state.party[0].as_deref(), Some("ODDISH"));
    assert_eq!(state.repel_steps_remaining, 0);
    assert_eq!(state.active_repel_item, None);

    state.active_repel_item = Some("REPEL".to_string());
    let _ = process_overworld_step(&mut state, &rules(), Some(0), normal_overworld_context(), &mut EmptyDivider)
        .expect("overworld step");
    assert_eq!(state.repel_steps_remaining, 0);
    assert_eq!(state.active_repel_item, None);
}

fn hatch_state() -> GameState {
    let mut state = GameState::default();
    state.player_name = "KRIS".to_string();
    state.player_id = 0x1234;
    state.player_gender = 1;
    state.time_of_day = TimeOfDay::Night;
    state.step_events.step_count = 0x7f;
    let mut egg = pokemon("TOGEPI");
    egg.is_egg = true;
    egg.nickname = rules().egg_nickname;
    egg.status = None;
    egg.sleep_turns = 5;
    egg.happiness = 1;
    egg.original_trainer_name = "DAY_CARE".to_string();
    egg.original_trainer_id = 0xbeef;
    state.storage.party.pokemon[2] = Some(egg);
    state
}

#[test]
fn overworld_hatch_applies_exact_owner_caught_pokedex_and_story_state() {
    let mut state = hatch_state();

    let result = process_overworld_step(&mut state, &rules(), Some(0x2a), normal_overworld_context(), &mut EmptyDivider)
        .expect("overworld hatch");

    assert_eq!(result.hatched_species.as_deref(), Some("TOGEPI"));
    assert_eq!(result.hatched_party_index, Some(2));
    let hatched = state.storage.party.pokemon[2].as_ref().expect("hatched mon");
    assert!(!hatched.is_egg);
    assert_eq!(hatched.status, None);
    assert_eq!(hatched.sleep_turns, 0);
    assert_eq!(hatched.original_trainer_name, "KRIS");
    assert_eq!(hatched.original_trainer_id, 0x1234);
    assert_eq!(
        hatched.caught_data,
        Some(CaughtData { level: 1, time_of_day: Some(TimeOfDay::Night), original_trainer_gender: 1, location: 0x2a })
    );
    assert!(has_expected_stats(hatched), "exact hatch stats");
    assert!(state.pokedex.seen.contains("TOGEPI"));
    assert!(state.pokedex.caught.contains("TOGEPI"));
    assert!(state.flags.events.is_set("EVENT_TOGEPI_HATCHED"));
    assert_eq!(state.party[2].as_deref(), Some("TOGEPI"));
}

#[test]
fn overworld_step_rejects_caught_location_outside_crystal_field_before_mutation() {
    let mut state = GameState::default();
    let before = GameState::default();

    let error = process_overworld_step(&mut state, &rules(), Some(0x80), normal_overworld_context(), &mut EmptyDivider)
        .expect_err("seven-bit caught location must be enforced");

    assert_eq!(error, StepEventError::InvalidCaughtLocation { location: 0x80 });
    assert_eq!(state, before);
}

fn unlabelled_hatch_state() -> GameState {
    let mut state = GameState::default();
    state.step_events.step_count = 0x7f;
    let mut egg = pokemon("TOGEPI");
    egg.is_egg = true;
    egg.happiness = 1;
    state.storage.party.pokemon[0] = Some(egg);
    state
}

#[test]
fn overworld_hatch_requires_exact_map_landmark_before_decrementing_egg() {
    let mut state = unlabelled_hatch_state();
    let before = unlabelled_hatch_state();

    let error = process_overworld_step(&mut state, &rules(), None, normal_overworld_context(), &mut EmptyDivider)
        .expect_err("hatch must not invent a caught landmark");

    assert_eq!(error, StepEventError::MissingCaughtLocation);
    assert_eq!(state, before);
}

#[test]
fn checked_overworld_step_refuses_unset_rules_without_touching_state() {
    let mut state = hatch_state();
    let before = hatch_state();

    let error = process_overworld_step_checked(&mut state, &unset_rules(), Some(1), normal_overworld_context(), &mut EmptyDivider)
        .expect_err("rules are required");

    assert_eq!(error, StepEventError::MissingRules);
    assert_eq!(state, before);
}

#[test]
fn overworld_step_counts_down_repel_without_expiring_it() {
    let mut state = GameState::default();
    state.repel_steps_remaining = 5;
    state.active_repel_item = Some("SUPER_REPEL".to_string());

    let result = run_overworld_step(&mut state, normal_overworld_context());

    assert_eq!(result, StepEventResult::nothing());
    assert_eq!(state.repel_steps_remaining, 4);
    assert_eq!(state.active_repel_item.as_deref(), Some("SUPER_REPEL"));
    assert_eq!(state.step_events.step_count, 1);
}
