use crystal_core::ordered::TextMap;
use crystal_core::pokemon::{Dv, LearnedMove, Pokemon, PokemonSpecies};
use crystal_core::special_routines::catalog::{random_special_routine_refusal, special_routine_refusal};
use crystal_core::special_routines::day_care_withdrawal::day_care_withdraw;
use crystal_core::special_routines::errors::SpecialRoutineError;
use crystal_core::special_routines::game_corner::SlotSymbol;
use crystal_core::special_routines::slot_machine::{
    slot_machine_acknowledge, slot_machine_continue, slot_machine_enter, slot_machine_payout_frame, slot_machine_quit,
    slot_machine_resolve, slot_machine_start, SlotMachineEvent, SlotMachinePhase, SlotMachineState,
};
use crystal_core::state::GameState;

fn pidgey(experience: i32) -> Pokemon {
    Pokemon {
        species: PokemonSpecies {
            id: "PIDGEY".to_string(),
            base_hp: 45,
            base_attack: 49,
            base_defense: 49,
            base_speed: 45,
            base_special_attack: 65,
            base_special_defense: 65,
        },
        level: 5,
        dvs: Dv { attack: 0, defense: 0, speed: 0, special: 0 },
        hp_exp: 0,
        attack_exp: 0,
        defense_exp: 0,
        speed_exp: 0,
        special_exp: 0,
        is_egg: false,
        nickname: String::new(),
        happiness: 70,
        status: Some("PSN".to_string()),
        sleep_turns: 3,
        hp: 5,
        max_hp: 20,
        attack: 10,
        defense: 10,
        speed: 10,
        special_attack: 10,
        special_defense: 10,
        caught_data: None,
        original_trainer_id: 518,
        original_trainer_name: "MANIA".to_string(),
        experience,
        item: None,
        moves: vec![
            LearnedMove { name: "TACKLE".to_string(), current_pp: 1, pp_ups: 0 },
            LearnedMove { name: "GROWL".to_string(), current_pp: 40, pp_ups: 0 },
        ],
    }
}

fn cubic_minimums() -> Vec<i32> {
    (0..=100).map(|l: i32| l * l * l).collect()
}

fn learnset() -> Vec<(u8, String)> {
    vec![
        (3, "SAND_ATTACK".to_string()),
        (9, "GUST".to_string()),
        (7, "QUICK_ATTACK".to_string()),
        (15, "WING_ATTACK".to_string()),
    ]
}

fn move_pp() -> TextMap<u8> {
    let mut pp = TextMap::new();
    for (name, value) in [("TACKLE", 35u8), ("GROWL", 40), ("GUST", 35), ("QUICK_ATTACK", 30), ("SAND_ATTACK", 15)] {
        pp.insert(name.to_string(), value);
    }
    pp
}

fn day_care_state(money: u32) -> GameState {
    let mut state = GameState::new();
    state.money = money;
    state.day_care.man.pokemon = Some(pidgey(1000));
    state.day_care.man.active = true;
    state.day_care.compatibility_score = 70;
    state.day_care.steps_until_next_egg = 180;
    state
}

#[test]
fn withdrawal_catches_up_levels_learns_moves_heals_and_charges_per_level() {
    let mut state = day_care_state(1000);
    let report = day_care_withdraw(&mut state, "DayCareMan", "man", &cubic_minimums(), &learnset(), &move_pp()).unwrap();
    assert!(report.success);
    assert_eq!(report.action, "withdraw");
    assert_eq!(report.pokemon.as_deref(), Some("PIDGEY"));
    assert_eq!(report.level, Some(10));
    assert_eq!(report.reason, None);
    assert_eq!(state.money, 400);
    let withdrawn = state.storage.party.pokemon[0].as_ref().unwrap();
    assert_eq!(withdrawn.level, 10);
    assert_eq!(withdrawn.experience, 1000);
    assert_eq!(withdrawn.max_hp, 29);
    assert_eq!(withdrawn.hp, 29);
    assert_eq!(withdrawn.attack, 14);
    assert_eq!(withdrawn.status, None);
    assert_eq!(withdrawn.sleep_turns, 0);
    let names: Vec<&str> = withdrawn.moves.iter().map(|m| m.name.as_str()).collect();
    assert_eq!(names, vec!["TACKLE", "GROWL", "GUST", "QUICK_ATTACK"]);
    assert_eq!(withdrawn.moves[0].current_pp, 35);
    assert!(state.day_care.man.pokemon.is_none());
    assert!(!state.day_care.man.active);
    assert_eq!(state.day_care.compatibility_score, 0);
    assert_eq!(state.day_care.steps_until_next_egg, 0);
    assert_eq!(state.party[0].as_deref(), Some("PIDGEY"));
}

#[test]
fn withdrawal_forgets_the_first_move_when_four_are_known() {
    let mut state = day_care_state(1000);
    let resident = state.day_care.man.pokemon.as_mut().unwrap();
    resident.moves.push(LearnedMove { name: "SAND_ATTACK".to_string(), current_pp: 15, pp_ups: 0 });
    resident.moves.push(LearnedMove { name: "WHIRLWIND".to_string(), current_pp: 20, pp_ups: 0 });
    day_care_withdraw(&mut state, "DayCareMan", "man", &cubic_minimums(), &learnset(), &move_pp()).unwrap();
    let withdrawn = state.storage.party.pokemon[0].as_ref().unwrap();
    let names: Vec<&str> = withdrawn.moves.iter().map(|m| m.name.as_str()).collect();
    assert_eq!(names, vec!["SAND_ATTACK", "WHIRLWIND", "GUST", "QUICK_ATTACK"]);
}

#[test]
fn withdrawal_without_enough_money_changes_nothing() {
    let mut state = day_care_state(500);
    let report = day_care_withdraw(&mut state, "DayCareMan", "man", &cubic_minimums(), &learnset(), &move_pp()).unwrap();
    assert!(!report.success);
    assert_eq!(report.reason.as_deref(), Some("not_enough_money"));
    assert_eq!(report.level, Some(10));
    assert_eq!(state.money, 500);
    assert_eq!(state.day_care.man.pokemon.as_ref().unwrap().level, 5);
    assert!(state.storage.party.pokemon[0].is_none());
    assert_eq!(state.day_care.compatibility_score, 70);
}

#[test]
fn withdrawal_reports_full_party_empty_slot_and_unknown_caretaker() {
    let mut full = day_care_state(1000);
    for slot in full.storage.party.pokemon.iter_mut() {
        *slot = Some(pidgey(0));
    }
    let report = day_care_withdraw(&mut full, "DayCareMan", "man", &cubic_minimums(), &learnset(), &move_pp()).unwrap();
    assert_eq!(report.reason.as_deref(), Some("party_full"));
    assert_eq!(report.level, Some(5));
    assert!(full.day_care.man.pokemon.is_some());

    let mut state = day_care_state(1000);
    let report = day_care_withdraw(&mut state, "DayCareLady", "lady", &cubic_minimums(), &learnset(), &move_pp()).unwrap();
    assert_eq!(report.reason.as_deref(), Some("empty"));
    assert_eq!(report.pokemon, None);

    let error = day_care_withdraw(&mut state, "DayCareMan", "grandpa", &cubic_minimums(), &learnset(), &move_pp());
    assert_eq!(
        error,
        Err(SpecialRoutineError::InvalidDayCareCaretaker {
            routine: "DayCareMan".to_string(),
            caretaker: "grandpa".to_string(),
        })
    );
}

#[test]
fn withdrawal_refuses_a_move_the_move_data_lacks() {
    let mut state = day_care_state(1000);
    let mut pp = TextMap::new();
    pp.insert("TACKLE".to_string(), 35u8);
    let error = day_care_withdraw(&mut state, "DayCareMan", "man", &cubic_minimums(), &learnset(), &pp);
    assert_eq!(
        error,
        Err(SpecialRoutineError::InvalidState {
            routine: "DayCareMan".to_string(),
            message: "day-care learned move GUST is missing from the move catalog".to_string(),
        })
    );
    assert_eq!(state.money, 1000);
    assert!(state.day_care.man.pokemon.is_some());
}

#[test]
fn dispatcher_refusals_name_unknown_inactive_and_random_routines() {
    assert_eq!(special_routine_refusal("HealParty"), None);
    assert_eq!(special_routine_refusal("BattleTowerAction"), None);
    assert_eq!(
        special_routine_refusal("SlotMachine"),
        Some(SpecialRoutineError::MissingDividerSource { routine: "SlotMachine".to_string() })
    );
    assert_eq!(
        special_routine_refusal("Function11ac3e"),
        Some(SpecialRoutineError::InactiveDeclaredRoutine { routine: "Function11ac3e".to_string() })
    );
    assert_eq!(
        special_routine_refusal("NotARoutine"),
        Some(SpecialRoutineError::UnsupportedRoutine { routine: "NotARoutine".to_string() })
    );
    assert_eq!(random_special_routine_refusal("SlotMachine"), None);
    assert_eq!(random_special_routine_refusal("BattleTowerAction"), None);
    assert_eq!(
        random_special_routine_refusal("HealParty"),
        Some(SpecialRoutineError::UnsupportedRoutine { routine: "HealParty".to_string() })
    );
}

fn session(phase: SlotMachinePhase, payout_remaining: u16) -> SlotMachineState {
    SlotMachineState {
        phase,
        lucky: false,
        keep_seven_bias_chance: true,
        bet: 3,
        bias: None,
        offset0: 0,
        offset1: 0,
        offset2: 0,
        next_reel: 4,
        matched_symbol: None,
        payout_remaining,
    }
}

#[test]
fn slot_machine_enters_and_takes_only_bets_the_coins_cover() {
    let mut machine = None;
    assert_eq!(slot_machine_enter(&mut machine, 5, true, 0x15, "SlotMachine"), Ok(SlotMachineEvent::Entered { coins: 5 }));
    let entered = machine.unwrap();
    assert_eq!(entered.phase, SlotMachinePhase::Betting);
    assert!(entered.keep_seven_bias_chance);
    assert_eq!((entered.offset0, entered.offset1, entered.offset2), (14, 14, 14));
    assert!(slot_machine_enter(&mut machine, 5, true, 0, "SlotMachine").is_err());

    let mut coins: u16 = 2;
    let refused = slot_machine_start(&mut machine, &mut coins, 3, true, 0, "SlotMachine");
    assert_eq!(
        refused,
        Err(SpecialRoutineError::InvalidState {
            routine: "SlotMachine".to_string(),
            message: "slot machine bet 3 exceeds the current coin balance 2".to_string(),
        })
    );
    assert_eq!(coins, 2);
    assert_eq!(machine, Some(entered));
    let out_of_range = slot_machine_start(&mut machine, &mut coins, 4, true, 0, "SlotMachine");
    assert_eq!(
        out_of_range,
        Err(SpecialRoutineError::InvalidState {
            routine: "SlotMachine".to_string(),
            message: "slot machine bet must be between 1 and 3, found 4".to_string(),
        })
    );

    let started = slot_machine_start(&mut machine, &mut coins, 2, true, 1, "SlotMachine").unwrap();
    assert_eq!(
        started,
        SlotMachineEvent::Started { coins_before: 2, bet: 2, bias: Some(SlotSymbol::Seven), offsets: [14, 14, 14], coins: 0 }
    );
    assert_eq!(coins, 0);
    assert_eq!(machine.unwrap().phase, SlotMachinePhase::Spinning);
}

#[test]
fn slot_machine_pays_one_coin_a_frame_up_to_the_case_limit() {
    let mut machine = Some(session(SlotMachinePhase::Result, 2));
    let mut coins: u16 = 9998;
    assert_eq!(
        slot_machine_payout_frame(&mut machine, &mut coins, "SlotMachine"),
        Ok(SlotMachineEvent::Payout { coins_before: 9998, payout_remaining: 1, coins: 9999 })
    );
    assert_eq!(
        slot_machine_payout_frame(&mut machine, &mut coins, "SlotMachine"),
        Ok(SlotMachineEvent::Payout { coins_before: 9999, payout_remaining: 0, coins: 9999 })
    );
    assert!(slot_machine_payout_frame(&mut machine, &mut coins, "SlotMachine").is_err());
    assert_eq!(coins, 9999);
    assert_eq!(
        slot_machine_acknowledge(&mut machine, coins, "SlotMachine"),
        Ok(SlotMachineEvent::ResultAcknowledged { can_play_again: true, coins: 9999 })
    );
    assert_eq!(slot_machine_continue(&mut machine, coins, "SlotMachine"), Ok(SlotMachineEvent::ReplayAccepted { coins: 9999 }));
    assert_eq!(machine.unwrap().phase, SlotMachinePhase::Betting);
    assert_eq!(slot_machine_quit(&mut machine, coins, "SlotMachine"), Ok(SlotMachineEvent::Exited { coins: 9999 }));

    let mut spinning = Some(session(SlotMachinePhase::Spinning, 0));
    assert_eq!(
        slot_machine_quit(&mut spinning, 0, "SlotMachine"),
        Err(SpecialRoutineError::InvalidState {
            routine: "SlotMachine".to_string(),
            message: "SlotMachine quit is invalid during phase Spinning".to_string(),
        })
    );
    let mut none = None;
    assert_eq!(
        slot_machine_payout_frame(&mut none, &mut coins, "SlotMachine"),
        Err(SpecialRoutineError::MissingScriptValue { routine: "SlotMachine".to_string(), variable: "slot_machine".to_string() })
    );
}

#[test]
fn slot_machine_result_pays_sevens_across_the_middle_line() {
    let mut machine = Some(session(SlotMachinePhase::Spinning, 0));
    let result = slot_machine_resolve(&mut machine, 10, 0, "SlotMachine").unwrap();
    match result {
        SlotMachineEvent::Result { payout, matched_symbol, coins, .. } => {
            assert_eq!(coins, 10);
            assert_eq!(matched_symbol, machine.unwrap().matched_symbol);
            assert_eq!(payout, machine.unwrap().payout_remaining);
        },
        other => panic!("unexpected event {other:?}"),
    }
    assert_eq!(machine.unwrap().phase, SlotMachinePhase::Result);
    let mut early = Some(SlotMachineState { next_reel: 2, ..session(SlotMachinePhase::Spinning, 0) });
    assert!(slot_machine_resolve(&mut early, 10, 0, "SlotMachine").is_err());
}

use crystal_core::special_routines::card_flip::{
    card_flip_acknowledge, card_flip_continue, card_flip_payout_frame, card_flip_quit, card_flip_resume, card_flip_reveal,
    card_flip_start, CardFlipEvent, CardFlipPhase, CardFlipShortfall,
};

fn ordered_deck() -> Vec<u8> {
    (0..24).collect()
}

#[test]
fn card_flip_takes_the_stake_turns_a_card_and_pays_the_bet() {
    let mut game = None;
    let mut coins: u16 = 10;
    match card_flip_start(&mut game, &mut coins, ordered_deck(), "CardFlip").unwrap() {
        CardFlipEvent::Started { coins_before, deck, revealed, coins: after } => {
            assert_eq!(coins_before, 10);
            assert_eq!(deck, ordered_deck());
            assert_eq!(revealed, vec![false; 24]);
            assert_eq!(after, 7);
        },
        other => panic!("unexpected event {other:?}"),
    }
    assert_eq!(coins, 7);
    assert!(card_flip_start(&mut game, &mut coins, ordered_deck(), "CardFlip").is_err());

    // Round zero, first card: face 0 is a level-one Pikachu; column 0, rows 2-3 bet on levels one and two.
    match card_flip_reveal(&mut game, coins, 0, 0, 2, "CardFlip").unwrap() {
        CardFlipEvent::Revealed { card_index, card_level, payout, revealed, .. } => {
            assert_eq!(card_index, 0);
            assert_eq!(card_level, 1);
            assert_eq!(payout, 9);
            assert!(revealed[0]);
        },
        other => panic!("unexpected event {other:?}"),
    }
    assert_eq!(game.as_ref().unwrap().phase, CardFlipPhase::Result);
    assert!(card_flip_acknowledge(&mut game, coins, "CardFlip").is_err());
    for _ in 0..9 {
        card_flip_payout_frame(&mut game, &mut coins, "CardFlip").unwrap();
    }
    assert_eq!(coins, 16);
    assert!(card_flip_payout_frame(&mut game, &mut coins, "CardFlip").is_err());
    assert_eq!(card_flip_acknowledge(&mut game, coins, "CardFlip"), Ok(CardFlipEvent::ResultAcknowledged { coins: 16 }));
    assert!(matches!(card_flip_continue(&mut game, &mut coins, ordered_deck(), "CardFlip"), Ok(CardFlipEvent::Started { .. })));
    assert_eq!(coins, 13);
    assert_eq!(game.as_ref().unwrap().num_cards_played, 1);
    assert_eq!(
        card_flip_quit(&mut game, coins, "CardFlip"),
        Err(SpecialRoutineError::InvalidState {
            routine: "CardFlip".to_string(),
            message: "CardFlip quit is invalid during phase ChooseCard".to_string(),
        })
    );
}

#[test]
fn card_flip_reshuffles_after_twelve_rounds_and_ends_without_a_stake() {
    let mut game = None;
    let mut coins: u16 = 3;
    card_flip_start(&mut game, &mut coins, ordered_deck(), "CardFlip").unwrap();
    assert_eq!(coins, 0);
    {
        let g = game.as_mut().unwrap();
        g.phase = CardFlipPhase::PlayAgain;
        g.num_cards_played = 11;
        g.discard_pile[5] = true;
    }
    let reversed: Vec<u8> = (0..24).rev().collect();
    match card_flip_continue(&mut game, &mut coins, reversed.clone(), "CardFlip").unwrap() {
        CardFlipEvent::Shuffled { deck, revealed, coins: c } => {
            assert_eq!(deck, reversed);
            assert_eq!(revealed, vec![false; 24]);
            assert_eq!(c, 0);
        },
        other => panic!("unexpected event {other:?}"),
    }
    assert_eq!(game.as_ref().unwrap().num_cards_played, 0);
    assert_eq!(
        card_flip_resume(&mut game, &mut coins, "CardFlip"),
        Ok(CardFlipEvent::Unavailable { reason: CardFlipShortfall::InsufficientStake })
    );
    assert_eq!(game.as_ref().unwrap().phase, CardFlipPhase::Quit);
    assert_eq!(card_flip_quit(&mut game, coins, "CardFlip"), Ok(CardFlipEvent::Exited { coins: 0 }));
}

use crystal_core::items::{Bag, Item};
use crystal_core::special_routines::game_corner::GameCornerUnavailableReason;
use crystal_core::special_routines::memory_game::{
    advance_memory_game_frame, memory_game_service, MemoryGameButton, MemoryGameInput, MemoryGameOutcome, MemoryGamePhase,
    MemoryGameServiceOutcome,
};

fn coin_case_catalog() -> TextMap<Item> {
    let mut items = TextMap::new();
    items.insert(
        "COIN_CASE".to_string(),
        Item { name: "COIN CASE".to_string(), script_name: "COIN_CASE".to_string(), price: 0, pocket: "KEY_ITEM".to_string() },
    );
    items
}

fn memory_board() -> Vec<u8> {
    (0..45).map(|i: u8| (i % 8) + 1).collect()
}

#[test]
fn memory_game_turns_away_players_without_coins_or_case_and_enters_at_a_menu_row() {
    let items = coin_case_catalog();
    let mut bag = Bag::new();
    let mut game = None;
    let board = memory_board();
    assert_eq!(
        memory_game_service(&items, &bag, 0, &mut game, MemoryGameInput::Enter { menu_cursor_y: 1 }, &board, "MemoryGame"),
        Ok(MemoryGameServiceOutcome::Unavailable { reason: GameCornerUnavailableReason::NoCoins })
    );
    assert_eq!(
        memory_game_service(&items, &bag, 5, &mut game, MemoryGameInput::Enter { menu_cursor_y: 1 }, &board, "MemoryGame"),
        Ok(MemoryGameServiceOutcome::Unavailable { reason: GameCornerUnavailableReason::MissingCoinCase })
    );
    bag.add_item(items.get("COIN_CASE").unwrap(), 1).unwrap();
    assert_eq!(
        memory_game_service(&items, &bag, 5, &mut game, MemoryGameInput::Enter { menu_cursor_y: 4 }, &board, "MemoryGame"),
        Err(SpecialRoutineError::InvalidState {
            routine: "MemoryGame".to_string(),
            message: "MemoryGame wMenuCursorY must select source row 1..=3, found 4".to_string(),
        })
    );
    assert_eq!(
        memory_game_service(&items, &bag, 5, &mut game, MemoryGameInput::Enter { menu_cursor_y: 2 }, &board, "MemoryGame"),
        Ok(MemoryGameServiceOutcome::Entered)
    );
    let entered = game.as_ref().unwrap();
    assert_eq!(entered.phase, MemoryGamePhase::RestartGame);
    assert_eq!(entered.distribution, 1);
    assert!(memory_game_service(&items, &bag, 5, &mut game, MemoryGameInput::Enter { menu_cursor_y: 2 }, &board, "MemoryGame").is_err());
}

#[test]
fn memory_game_lays_out_the_board_grants_tries_and_clears_a_matched_pair() {
    let board = memory_board();
    let mut game = None;
    let items = coin_case_catalog();
    let mut bag = Bag::new();
    bag.add_item(items.get("COIN_CASE").unwrap(), 1).unwrap();
    memory_game_service(&items, &bag, 5, &mut game, MemoryGameInput::Enter { menu_cursor_y: 1 }, &board, "MemoryGame").unwrap();
    assert!(matches!(advance_memory_game_frame(&mut game, "MemoryGame", None, &board), Ok(MemoryGameOutcome::FrameAdvanced { .. })));
    assert_eq!(
        advance_memory_game_frame(&mut game, "MemoryGame", None, &board),
        Ok(MemoryGameOutcome::Started { board: board.clone(), tries_remaining: 0 })
    );
    for i in 0..45 {
        assert_eq!(
            advance_memory_game_frame(&mut game, "MemoryGame", None, &board),
            Ok(MemoryGameOutcome::CardPlaced { card_index: i, delay_frames: 3 })
        );
    }
    assert_eq!(
        advance_memory_game_frame(&mut game, "MemoryGame", None, &board),
        Ok(MemoryGameOutcome::CursorReady { cursor_index: 0, tries_remaining: 5 })
    );
    assert_eq!(
        advance_memory_game_frame(&mut game, "MemoryGame", Some(MemoryGameButton::A), &board),
        Ok(MemoryGameOutcome::TryStarted { tries_remaining: 4 })
    );
    // The A press chose the card under the cursor (index 0, card 1).
    assert_eq!(
        advance_memory_game_frame(&mut game, "MemoryGame", Some(MemoryGameButton::Right), &board),
        Ok(MemoryGameOutcome::FirstCardPicked { card_index: 0, symbol: 1, tries_remaining: 4 })
    );
    assert_eq!(game.as_ref().unwrap().cursor_index, 1);
    // Card 8 (index 8) also shows 1: move right seven more times, then press A.
    for _ in 0..7 {
        advance_memory_game_frame(&mut game, "MemoryGame", Some(MemoryGameButton::Right), &board).unwrap();
    }
    advance_memory_game_frame(&mut game, "MemoryGame", Some(MemoryGameButton::A), &board).unwrap();
    assert_eq!(
        advance_memory_game_frame(&mut game, "MemoryGame", None, &board),
        Ok(MemoryGameOutcome::PairRevealed {
            first_index: 0,
            first_symbol: 1,
            second_index: 8,
            second_symbol: 1,
            delay_frames: 63,
            tries_remaining: 4,
        })
    );
    for frames_remaining in (0..63).rev() {
        assert_eq!(
            advance_memory_game_frame(&mut game, "MemoryGame", None, &board),
            Ok(MemoryGameOutcome::DelayAdvanced { frames_remaining })
        );
    }
    assert_eq!(
        advance_memory_game_frame(&mut game, "MemoryGame", None, &board),
        Ok(MemoryGameOutcome::Pair { matched: true, symbol: Some(1), first_index: 0, second_index: 8, tries_remaining: 4 })
    );
    let after = game.as_ref().unwrap();
    assert_eq!(after.cards[0], 255);
    assert_eq!(after.cards[8], 255);
    assert_eq!(after.last_matches, [1, 0, 0, 0, 0]);
    assert_eq!(after.num_cards_matched, 2);
    let mut none = None;
    assert_eq!(
        advance_memory_game_frame(&mut none, "MemoryGame", None, &board),
        Err(SpecialRoutineError::InvalidState {
            routine: "MemoryGame".to_string(),
            message: "Memory Game has no active WRAM state".to_string(),
        })
    );
}

use crystal_core::special_routines::day_care::DividerSource;
use crystal_core::special_routines::game_corner::SlotStopMode;
use crystal_core::special_routines::slot_machine::{slot_machine_stop_reel, SlotStopError};

struct SameByte(u8);

impl DividerSource for SameByte {
    fn random(&mut self, _carry: bool) -> Result<u8, String> {
        Ok(self.0)
    }
}

#[test]
fn slot_machine_stops_the_reels_in_order() {
    let mut machine = Some(SlotMachineState { bet: 1, next_reel: 1, ..session(SlotMachinePhase::Spinning, 0) });
    let mut rng = SameByte(0xff);
    assert_eq!(
        slot_machine_stop_reel(&mut machine, 4, 2, [1, 1, 1], &mut rng, 0, 4, "SlotMachine"),
        Err(SlotStopError::Routine(SpecialRoutineError::InvalidState {
            routine: "SlotMachine".to_string(),
            message: "slot machine reel must be the next reel 1, found 2".to_string(),
        }))
    );
    assert_eq!(
        slot_machine_stop_reel(&mut machine, 4, 1, [15, 1, 1], &mut rng, 0, 4, "SlotMachine"),
        Err(SlotStopError::Routine(SpecialRoutineError::InvalidState {
            routine: "SlotMachine".to_string(),
            message: "SlotMachine stop offsets are outside the source reels".to_string(),
        }))
    );
    for reel in 1..=3u8 {
        assert_eq!(
            slot_machine_stop_reel(&mut machine, 4, reel, [1, 1, 1], &mut rng, 0, 4, "SlotMachine"),
            Ok(SlotMachineEvent::ReelStopped {
                reel,
                mode: SlotStopMode::Normal,
                animation_start_offset: 1,
                animation_count: 0,
                offsets: [1, 1, 1],
                coins: 4,
            })
        );
        assert_eq!(machine.unwrap().next_reel, reel + 1);
    }
    assert!(matches!(slot_machine_resolve(&mut machine, 4, 0, "SlotMachine"), Ok(SlotMachineEvent::Result { payout: 0, .. })));
}

use crystal_core::ordered::TextSet;
use crystal_core::special_routines::battle_tower::{
    BattleTowerBannedSpeciesRule, BattleTowerMonDefinition, BattleTowerRules, BattleTowerTrainerDefinition,
};
use crystal_core::special_routines::battle_tower_opponent::{
    check_battle_tower_opponent_tables, pick_battle_tower_mons, pick_battle_tower_trainer,
};

fn tower_mon(species: &str, item: Option<&str>) -> BattleTowerMonDefinition {
    BattleTowerMonDefinition {
        species: species.to_string(),
        item: item.map(|i| i.to_string()),
        moves: vec!["TACKLE".to_string(), "NO_MOVE".to_string(), "NO_MOVE".to_string(), "NO_MOVE".to_string()],
        original_trainer_id: 0,
        experience: 1000,
        stat_exp: vec![0; 5],
        dvs: vec![1, 2, 3, 4],
        pp: vec![35, 0, 0, 0],
        happiness: 0,
        pokerus: vec![0, 0, 0],
        level: 10,
        status: vec![0, 0],
        stats: vec![30; 7],
        nickname: species.to_string(),
    }
}

fn full_tower_rules() -> BattleTowerRules {
    let trainers = (0..70)
        .map(|index| BattleTowerTrainerDefinition {
            index,
            trainer_class: "COOLTRAINERM".to_string(),
            name: format!("TRAINER{index}"),
            sprite_constant: "SPRITE_COOLTRAINER_M".to_string(),
            female: false,
        })
        .collect();
    let group = (0..21).map(|i| tower_mon(&format!("MON{i}"), Some(&format!("ITEM{i}")))).collect();
    let mut banned_species = TextMap::new();
    banned_species.insert("MEWTWO".to_string(), BattleTowerBannedSpeciesRule {});
    BattleTowerRules {
        banned_species,
        required_party_count: 3,
        challenge_streak_length: 7,
        reward_candidates: vec!["HP_UP".to_string()],
        excluded_reward_items: vec![],
        reward_quantity: 5,
        reward_failure_sentinel: "NO_ITEM".to_string(),
        reward_item_values: TextMap::new(),
        minimum_level_group: 1,
        maximum_level_group: 10,
        level_group_size: 10,
        party_count_failure_text: "BattleTowerPartyCountText".to_string(),
        duplicate_species_failure_text: "BattleTowerDuplicateSpeciesText".to_string(),
        duplicate_held_item_failure_text: "BattleTowerDuplicateItemText".to_string(),
        egg_failure_text: "BattleTowerEggText".to_string(),
        trainers,
        mon_groups: vec![group],
    }
}

#[test]
fn opponent_tables_need_seventy_trainers_and_whole_groups_of_twenty_one() {
    let mut rules = full_tower_rules();
    assert_eq!(check_battle_tower_opponent_tables(&rules, 1, "LoadOpponentTrainerAndPokemonWithOTSprite"), Ok(()));
    assert_eq!(
        check_battle_tower_opponent_tables(&rules, 2, "R"),
        Err(SpecialRoutineError::BattleTowerTrainerBuild {
            routine: "R".to_string(),
            trainer_id: "group_1".to_string(),
            error: "compiled Battle Tower level group is missing".to_string(),
        })
    );
    rules.mon_groups[0][4].status = vec![0x89, 0];
    assert_eq!(
        check_battle_tower_opponent_tables(&rules, 1, "R"),
        Err(SpecialRoutineError::BattleTowerTrainerBuild {
            routine: "R".to_string(),
            trainer_id: "group_0".to_string(),
            error: "compiled Pokemon entry 4 status contains invalid status bit combination 0x89".to_string(),
        })
    );
    rules.mon_groups[0][2].pp = vec![1, 2, 3];
    assert_eq!(
        check_battle_tower_opponent_tables(&rules, 1, "R"),
        Err(SpecialRoutineError::BattleTowerTrainerBuild {
            routine: "R".to_string(),
            trainer_id: "group_0".to_string(),
            error: "compiled Pokemon entry 2 field pp must contain exactly 4 ASM record values, found 3".to_string(),
        })
    );
    rules.mon_groups[0].pop();
    assert_eq!(
        check_battle_tower_opponent_tables(&rules, 1, "R"),
        Err(SpecialRoutineError::BattleTowerTrainerBuild {
            routine: "R".to_string(),
            trainer_id: "group_0".to_string(),
            error: "compiled Battle Tower group must contain exactly 21 Pokemon, found 20".to_string(),
        })
    );
    rules.trainers.pop();
    assert_eq!(
        check_battle_tower_opponent_tables(&rules, 1, "R"),
        Err(SpecialRoutineError::InvalidBattleTowerRules {
            routine: "R".to_string(),
            message: "compiled Battle Tower trainer roster must contain exactly 70 entries, found 69".to_string(),
        })
    );
}

#[test]
fn opponent_draws_skip_out_of_range_sums_and_met_trainers() {
    // 10 + 120 = 130 -> low seven bits 2, already met; restart from 2: 2 + 3 = 5 -> new.
    assert_eq!(pick_battle_tower_trainer(&vec![2], 10, &vec![120, 3, 9]), Some((5, 2)));
    // 0 + 100 = 100 is out of range and kept: 100 + 200 = 300 -> 44 -> 44 & 0x7f = 44.
    assert_eq!(pick_battle_tower_trainer(&vec![], 0, &vec![100, 200]), Some((44, 2)));
    assert_eq!(pick_battle_tower_trainer(&vec![], 0, &vec![100]), None);

    let rules = full_tower_rules();
    let group = &rules.mon_groups[0];
    let none = TextSet::new();
    // Start 0: 0 + 3 = 3 -> MON3; then from register 3: 3 + 1 = 4 -> MON4; then 1 + 25 = 26 -> 26 & 31 = 26
    // is out of range and kept: 26 + 6 = 32 -> 0 -> MON0.
    assert_eq!(pick_battle_tower_mons(group, 3, &none, 0, &vec![3, 1, 25, 6]), Some((vec![3, 4, 0], 4)));
    let mut recent = TextSet::new();
    recent.insert("MON3".to_string());
    // MON3 was met recently: restart from register 3: 3 + 2 = 5 -> MON5.
    assert_eq!(pick_battle_tower_mons(group, 1, &recent, 0, &vec![3, 2]), Some((vec![5], 2)));
    assert_eq!(pick_battle_tower_mons(group, 2, &none, 0, &vec![3]), None);
}

use crystal_core::special_routines::slot_machine::{slot_machine, SlotMachineDraws, SlotMachineInput, SlotMachineServiceOutcome};

#[test]
fn slot_cabinet_turns_away_players_then_runs_the_pending_step() {
    let items = coin_case_catalog();
    let mut bag = Bag::new();
    let mut machine = None;
    let mut coins: u16 = 0;
    let mut rng = SameByte(0);
    let draws = SlotMachineDraws { enter: 0, bias: 0xff, resolve: 0, third_reel_roll: 0xff, golem_stride: 4 };
    let enter = Some(SlotMachineInput::Enter { lucky: false });
    assert_eq!(
        slot_machine(&items, &bag, &mut coins, &mut machine, enter, &mut rng, draws, "SlotMachine"),
        Ok(SlotMachineServiceOutcome::Unavailable { reason: GameCornerUnavailableReason::NoCoins })
    );
    coins = 3;
    assert_eq!(
        slot_machine(&items, &bag, &mut coins, &mut machine, enter, &mut rng, draws, "SlotMachine"),
        Ok(SlotMachineServiceOutcome::Unavailable { reason: GameCornerUnavailableReason::MissingCoinCase })
    );
    bag.add_item(items.get("COIN_CASE").unwrap(), 1).unwrap();
    assert_eq!(
        slot_machine(&items, &bag, &mut coins, &mut machine, enter, &mut rng, draws, "SlotMachine"),
        Ok(SlotMachineServiceOutcome::Event { event: SlotMachineEvent::Entered { coins: 3 } })
    );
    assert_eq!(
        slot_machine(&items, &bag, &mut coins, &mut machine, None, &mut rng, draws, "SlotMachine"),
        Err(SlotStopError::Routine(SpecialRoutineError::MissingScriptValue {
            routine: "SlotMachine".to_string(),
            variable: "pending_slot_machine_input".to_string(),
        }))
    );
    let start = Some(SlotMachineInput::Start { bet: 3, lucky: false });
    assert_eq!(
        slot_machine(&items, &bag, &mut coins, &mut machine, start, &mut rng, draws, "SlotMachine"),
        Ok(SlotMachineServiceOutcome::Event {
            event: SlotMachineEvent::Started { coins_before: 3, bet: 3, bias: None, offsets: [14, 14, 14], coins: 0 },
        })
    );
    assert_eq!(coins, 0);
    // Without coins the machine still takes steps other than entering.
    let stop = Some(SlotMachineInput::StopReel { reel: 1, offsets: [1, 1, 1] });
    assert!(matches!(
        slot_machine(&items, &bag, &mut coins, &mut machine, stop, &mut rng, draws, "SlotMachine"),
        Ok(SlotMachineServiceOutcome::Event { event: SlotMachineEvent::ReelStopped { reel: 1, .. } })
    ));
}

use crystal_core::special_routines::card_flip::{card_flip, CardFlipInput, CardFlipServiceOutcome};

#[test]
fn card_flip_table_turns_away_players_then_deals() {
    let items = coin_case_catalog();
    let mut bag = Bag::new();
    let mut game = None;
    let mut coins: u16 = 0;
    assert_eq!(
        card_flip(&items, &bag, &mut coins, &mut game, Some(CardFlipInput::Start), ordered_deck(), "CardFlip"),
        Ok(CardFlipServiceOutcome::Unavailable { reason: GameCornerUnavailableReason::NoCoins })
    );
    coins = 5;
    assert_eq!(
        card_flip(&items, &bag, &mut coins, &mut game, Some(CardFlipInput::Start), ordered_deck(), "CardFlip"),
        Ok(CardFlipServiceOutcome::Unavailable { reason: GameCornerUnavailableReason::MissingCoinCase })
    );
    bag.add_item(items.get("COIN_CASE").unwrap(), 1).unwrap();
    assert!(matches!(
        card_flip(&items, &bag, &mut coins, &mut game, Some(CardFlipInput::Start), ordered_deck(), "CardFlip"),
        Ok(CardFlipServiceOutcome::Event { event: CardFlipEvent::Started { coins: 2, .. } })
    ));
    assert_eq!(
        card_flip(&items, &bag, &mut coins, &mut game, None, ordered_deck(), "CardFlip"),
        Err(SpecialRoutineError::MissingScriptValue {
            routine: "CardFlip".to_string(),
            variable: "pending_card_flip_input".to_string(),
        })
    );
    let empty = TextMap::new();
    assert_eq!(
        card_flip(&empty, &bag, &mut coins, &mut game, Some(CardFlipInput::Quit), ordered_deck(), "CardFlip"),
        Err(SpecialRoutineError::UnknownItem { routine: "CardFlip".to_string(), item_id: "COIN_CASE".to_string() })
    );
}
