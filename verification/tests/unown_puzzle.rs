use crystal_core::ordered::TextMap;
use crystal_core::special_routines::errors::SpecialRoutineError;
use crystal_core::special_routines::numbers::{
    format_coins, format_money, is_exact_signed_decimal_token, is_exact_unsigned_decimal_token, parse_exact_i64_token,
    parse_exact_u16_token, parse_exact_u8_token, parse_exact_usize_token, parse_mobile_battle_timer,
    parse_selected_party_indexes, parse_u8_token,
};
use crystal_core::special_routines::unown::{
    encode_unown_layout, load_unown_puzzle_state, normalize_unown_puzzle_id, parse_unown_layout, store_unown_puzzle_state,
    unown_coords, unown_pick_up_piece, unown_place_piece, unown_puzzle_is_solved, unown_puzzle_layout_vec,
    unown_puzzle_variable_key, validate_unown_puzzle_state, UnownPuzzleState,
};

const TARGET: [[u8; 6]; 6] = [
    [0, 0, 0, 0, 0, 0],
    [0, 1, 2, 3, 4, 0],
    [0, 5, 6, 7, 8, 0],
    [0, 9, 10, 11, 12, 0],
    [0, 13, 14, 15, 16, 0],
    [0, 0, 0, 0, 0, 0],
];

const TARGET_TEXT: &str = "0,0,0,0,0,0;0,1,2,3,4,0;0,5,6,7,8,0;0,9,10,11,12,0;0,13,14,15,16,0;0,0,0,0,0,0";

fn numeric(routine: &str, value: &str) -> SpecialRoutineError {
    SpecialRoutineError::InvalidNumericValue { routine: routine.to_string(), value: value.to_string() }
}

fn puzzle_error(message: &str) -> SpecialRoutineError {
    SpecialRoutineError::InvalidUnownPuzzleState { routine: "UnownPuzzle".to_string(), message: message.to_string() }
}

#[test]
fn decimal_tokens_are_plain_ascii_digits() {
    assert!(is_exact_unsigned_decimal_token("0123"));
    assert!(!is_exact_unsigned_decimal_token(""));
    assert!(!is_exact_unsigned_decimal_token("+1"));
    assert!(!is_exact_unsigned_decimal_token("1a"));
    assert!(is_exact_signed_decimal_token("-12"));
    assert!(is_exact_signed_decimal_token("12"));
    assert!(!is_exact_signed_decimal_token("-"));
    assert!(!is_exact_signed_decimal_token("+1"));
}

#[test]
fn exact_numeric_tokens_parse_within_their_type() {
    assert_eq!(parse_exact_u8_token("R", "255", "x"), Ok(255));
    assert_eq!(parse_exact_u8_token("R", "00012", "x"), Ok(12));
    assert_eq!(parse_exact_u8_token("R", "256", "x"), Err(numeric("R", "x")));
    assert_eq!(parse_exact_u8_token("R", " 1", "x"), Err(numeric("R", "x")));
    assert_eq!(parse_exact_u16_token("R", "65535", "v"), Ok(65535));
    assert_eq!(parse_exact_u16_token("R", "65536", "v"), Err(numeric("R", "v")));
    assert_eq!(parse_exact_usize_token("R", "42", "v"), Ok(42));
    assert_eq!(parse_exact_usize_token("R", "", "v"), Err(numeric("R", "v")));
    assert_eq!(parse_exact_i64_token("R", "-9223372036854775808", "v"), Ok(i64::MIN));
    assert_eq!(parse_exact_i64_token("R", "9223372036854775807", "v"), Ok(i64::MAX));
    assert_eq!(parse_exact_i64_token("R", "9223372036854775808", "v"), Err(numeric("R", "v")));
    assert_eq!(parse_exact_i64_token("R", "-0", "v"), Ok(0));
    assert_eq!(parse_u8_token("R", "7"), Ok(7));
    assert_eq!(parse_u8_token("R", "x7"), Err(numeric("R", "x7")));
}

#[test]
fn party_index_lists_and_timers_split_on_commas() {
    assert_eq!(parse_selected_party_indexes("R", "0,2,5"), Ok(vec![0, 2, 5]));
    assert_eq!(parse_selected_party_indexes("R", "0,,1"), Err(numeric("R", "0,,1")));
    assert_eq!(parse_selected_party_indexes("R", ""), Err(numeric("R", "")));
    assert_eq!(parse_mobile_battle_timer("R", "1,2,3"), Ok([1, 2, 3]));
    assert_eq!(
        parse_mobile_battle_timer("R", "1,2"),
        Err(SpecialRoutineError::InvalidMobileBattleTimer { routine: "R".to_string(), value: "1,2".to_string() })
    );
    assert_eq!(parse_mobile_battle_timer("R", "1,300,x"), Err(numeric("R", "300")));
}

#[test]
fn money_and_coins_are_zero_padded() {
    assert_eq!(format_money(1234), "001234");
    assert_eq!(format_money(1234567), "1234567");
    assert_eq!(format_coins(50), "0050");
    assert_eq!(format_coins(12345), "12345");
}

#[test]
fn solved_layout_encodes_and_reads_back() {
    assert_eq!(encode_unown_layout(&TARGET), TARGET_TEXT);
    assert_eq!(parse_unown_layout("UnownPuzzle", TARGET_TEXT), Ok(TARGET));
    assert!(unown_puzzle_is_solved(&UnownPuzzleState { layout: TARGET, holding_piece: None }));
    assert!(!unown_puzzle_is_solved(&UnownPuzzleState { layout: TARGET, holding_piece: Some(1) }));
    let mut moved = TARGET;
    moved[1][1] = 0;
    moved[0][0] = 1;
    assert!(!unown_puzzle_is_solved(&UnownPuzzleState { layout: moved, holding_piece: None }));
    let rows = unown_puzzle_layout_vec(&TARGET);
    assert_eq!(rows[4], vec![0, 13, 14, 15, 16, 0]);
}

#[test]
fn malformed_layout_texts_are_refused_in_reading_order() {
    assert_eq!(parse_unown_layout("UnownPuzzle", "1;2"), Err(puzzle_error("layout must contain six rows")));
    assert_eq!(
        parse_unown_layout("UnownPuzzle", "0,0,0,0,0;0;0;0;0;0"),
        Err(puzzle_error("layout rows must contain six columns"))
    );
    let not_a_byte = "0,0,0,0,0,x;0,0,0,0,0,0;0,0,0,0,0,0;0,0,0,0,0,0;0,0,0,0,0,0;0,0,0,0,0,0";
    assert_eq!(parse_unown_layout("UnownPuzzle", not_a_byte), Err(numeric("UnownPuzzle", not_a_byte)));
    let too_big = "0,0,0,0,0,17;0,0,0,0,0,0;0,0,0,0,0,0;0,0,0,0,0,0;0,0,0,0,0,0;0,0,0,0,0,0";
    assert_eq!(
        parse_unown_layout("UnownPuzzle", too_big),
        Err(puzzle_error("layout entries must be 0 or between 1 and 16"))
    );
}

#[test]
fn puzzle_state_checks_find_repeats_and_bad_held_pieces() {
    assert_eq!(validate_unown_puzzle_state("UnownPuzzle", &TARGET, None), Ok(()));
    let mut repeated = TARGET;
    repeated[0][0] = 3;
    assert_eq!(
        validate_unown_puzzle_state("UnownPuzzle", &repeated, None),
        Err(puzzle_error("piece 3 appears more than once in the puzzle state"))
    );
    assert_eq!(
        validate_unown_puzzle_state("UnownPuzzle", &TARGET, Some(0)),
        Err(puzzle_error("holding_piece must be between 1 and 16"))
    );
    assert_eq!(
        validate_unown_puzzle_state("UnownPuzzle", &TARGET, Some(5)),
        Err(puzzle_error("held piece 5 also appears in the puzzle layout"))
    );
}

#[test]
fn picking_up_and_putting_back_restores_the_puzzle() {
    let mut puzzle = UnownPuzzleState { layout: TARGET, holding_piece: None };
    assert_eq!(unown_pick_up_piece(&mut puzzle, 1, 1, "UnownPuzzle"), Ok(()));
    assert_eq!(puzzle.holding_piece, Some(1));
    assert_eq!(puzzle.layout[1][1], 0);
    assert_eq!(
        unown_pick_up_piece(&mut puzzle, 2, 1, "UnownPuzzle"),
        Err(puzzle_error("cannot pick up a piece while already holding one"))
    );
    assert_eq!(
        unown_place_piece(&mut puzzle, 2, 1, "UnownPuzzle"),
        Err(puzzle_error("target coordinate is already occupied"))
    );
    assert_eq!(unown_place_piece(&mut puzzle, 1, 1, "UnownPuzzle"), Ok(()));
    assert_eq!(puzzle, UnownPuzzleState { layout: TARGET, holding_piece: None });
    assert_eq!(
        unown_place_piece(&mut puzzle, 0, 0, "UnownPuzzle"),
        Err(puzzle_error("no piece is currently held"))
    );
    assert_eq!(
        unown_pick_up_piece(&mut puzzle, 0, 0, "UnownPuzzle"),
        Err(puzzle_error("no piece present at that coordinate"))
    );
    assert_eq!(unown_coords(5, 5, "UnownPuzzle"), Ok((5, 5)));
    assert_eq!(
        unown_coords(6, 0, "UnownPuzzle"),
        Err(puzzle_error("coordinates must be inside the 6x6 puzzle grid"))
    );
}

#[test]
fn puzzle_ids_come_from_an_index_or_a_constant_name() {
    assert_eq!(normalize_unown_puzzle_id("2", "UnownPuzzle"), Ok("AERODACTYL".to_string()));
    assert_eq!(normalize_unown_puzzle_id(" unownpuzzle_ho_oh ", "UnownPuzzle"), Ok("HOOH".to_string()));
    assert_eq!(normalize_unown_puzzle_id("UNOWNPUZZLE_KABUTO", "UnownPuzzle"), Ok("KABUTO".to_string()));
    assert_eq!(normalize_unown_puzzle_id("7", "UnownPuzzle"), Err(puzzle_error("unknown puzzle id '7'")));
    assert_eq!(unown_puzzle_variable_key("unown_layout", "KABUTO"), "unown_layout_KABUTO");
}

#[test]
fn stored_puzzle_loads_back_and_clears_the_move() {
    let mut variables: TextMap<String> = TextMap::new();
    variables.insert("unown_action".to_string(), "pickup".to_string());
    variables.insert("unown_x".to_string(), "1".to_string());
    variables.insert("unown_y".to_string(), "1".to_string());
    assert_eq!(
        load_unown_puzzle_state(&variables, "UnownPuzzle", "KABUTO"),
        Err(puzzle_error("puzzle KABUTO has no active layout"))
    );
    let mut puzzle = UnownPuzzleState { layout: TARGET, holding_piece: None };
    unown_pick_up_piece(&mut puzzle, 1, 1, "UnownPuzzle").expect("pick up");
    store_unown_puzzle_state(&mut variables, "KABUTO", &puzzle);
    assert_eq!(variables.get("unown_holding_piece_KABUTO"), Some(&"1".to_string()));
    assert!(!variables.contains_key("unown_action"));
    assert!(!variables.contains_key("unown_x"));
    assert_eq!(load_unown_puzzle_state(&variables, "UnownPuzzle", "KABUTO"), Ok(puzzle));
    unown_place_piece(&mut puzzle, 1, 1, "UnownPuzzle").expect("place");
    store_unown_puzzle_state(&mut variables, "KABUTO", &puzzle);
    assert!(!variables.contains_key("unown_holding_piece_KABUTO"));
    assert_eq!(variables.get("unown_layout_KABUTO"), Some(&TARGET_TEXT.to_string()));
    assert_eq!(load_unown_puzzle_state(&variables, "UnownPuzzle", "KABUTO"), Ok(puzzle));
}
