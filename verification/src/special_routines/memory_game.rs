//! The Game Corner memory game, one frame at a time: laying out the board, granting tries,
//! picking two cards, pausing over them, clearing a matched pair, revealing the board when
//! the tries run out, and moving the cursor. The frame that lays out a new board takes the
//! board it draws as an argument.
use vstd::prelude::*;
use crate::items::{Bag, Item};
use crate::ordered::TextMap;
use crate::special_routines::errors::SpecialRoutineError;
use crate::special_routines::game_corner::{game_corner_entry_refusal, GameCornerUnavailableReason};
use crate::text::{copy_text, decimal_digits, message_with_number};

verus! {

/// The memory game's 45 cards, nine to a row.
pub const MEMORY_BOARD_LEN: usize = 45;

/// A card that has been matched and taken off the board.
pub const MEMORY_CARD_TAKEN: u8 = 255;

/// Frames the game pauses over a revealed pair.
pub const MEMORY_PICK_DELAY_FRAMES: u8 = 64;

/// Where a memory game stands.
#[derive(Clone, Copy, Debug, PartialEq, Eq, Structural)]
pub enum MemoryGamePhase {
    RestartGame,
    ResetBoard,
    InitBoardTilemapAndCursor,
    CheckTriesRemaining,
    PickCard1,
    PickCard2,
    DelayPickAgain,
    RevealAll,
    RevealAllAcknowledgement,
}

/// A button pressed on a frame.
#[derive(Clone, Copy, Debug, PartialEq, Eq, Structural)]
pub enum MemoryGameButton {
    A,
    B,
    Left,
    Right,
    Up,
    Down,
}

/// A memory game: the board, the phase, the card distribution, a frame counter, the tries
/// left, the matched cards in order, the picks of the current try, and the cursor.
#[derive(Debug, PartialEq, Eq)]
pub struct MemoryGameState {
    pub cards: Vec<u8>,
    pub phase: MemoryGamePhase,
    pub distribution: u8,
    pub counter: u8,
    pub number_tries_remaining: u8,
    pub last_matches: [u8; 5],
    pub num_cards_matched: u8,
    pub card1: Option<u8>,
    pub card1_location: Option<u8>,
    pub card2: Option<u8>,
    pub card2_location: Option<u8>,
    pub cursor_index: u8,
    pub cursor_active: bool,
    pub card_choice: u8,
    pub last_card_picked: u8,
}

/// A memory game as plain values.
pub struct MemoryGameView {
    pub cards: Seq<u8>,
    pub phase: MemoryGamePhase,
    pub distribution: u8,
    pub counter: u8,
    pub number_tries_remaining: u8,
    pub last_matches: Seq<u8>,
    pub num_cards_matched: u8,
    pub card1: Option<u8>,
    pub card1_location: Option<u8>,
    pub card2: Option<u8>,
    pub card2_location: Option<u8>,
    pub cursor_index: u8,
    pub cursor_active: bool,
    pub card_choice: u8,
    pub last_card_picked: u8,
}

impl View for MemoryGameState {
    type V = MemoryGameView;

    open spec fn view(&self) -> MemoryGameView {
        MemoryGameView {
            cards: self.cards@,
            phase: self.phase,
            distribution: self.distribution,
            counter: self.counter,
            number_tries_remaining: self.number_tries_remaining,
            last_matches: self.last_matches@,
            num_cards_matched: self.num_cards_matched,
            card1: self.card1,
            card1_location: self.card1_location,
            card2: self.card2,
            card2_location: self.card2_location,
            cursor_index: self.cursor_index,
            cursor_active: self.cursor_active,
            card_choice: self.card_choice,
            last_card_picked: self.last_card_picked,
        }
    }
}

/// What a frame reports; cards are named by their ids 1 to 8.
#[derive(Debug, PartialEq, Eq)]
pub enum MemoryGameOutcome {
    Started { board: Vec<u8>, tries_remaining: u8 },
    CardPlaced { card_index: usize, delay_frames: u8 },
    CursorReady { cursor_index: u8, tries_remaining: u8 },
    TryStarted { tries_remaining: u8 },
    RevealReady,
    CardRejected { pick: u8, card_index: usize, tries_remaining: u8 },
    FirstCardPicked { card_index: usize, symbol: u8, tries_remaining: u8 },
    PairRevealed {
        first_index: usize,
        first_symbol: u8,
        second_index: usize,
        second_symbol: u8,
        delay_frames: u8,
        tries_remaining: u8,
    },
    DelayAdvanced { frames_remaining: u8 },
    Pair { matched: bool, symbol: Option<u8>, first_index: usize, second_index: usize, tries_remaining: u8 },
    RoundEnded { remaining_cards: Vec<Option<u8>>, matched_symbols: Vec<u8> },
    FrameAdvanced { phase: MemoryGamePhase, cursor_index: u8 },
}

pub enum MemoryOutcomeView {
    Started { board: Seq<u8>, tries_remaining: u8 },
    CardPlaced { card_index: usize, delay_frames: u8 },
    CursorReady { cursor_index: u8, tries_remaining: u8 },
    TryStarted { tries_remaining: u8 },
    RevealReady,
    CardRejected { pick: u8, card_index: usize, tries_remaining: u8 },
    FirstCardPicked { card_index: usize, symbol: u8, tries_remaining: u8 },
    PairRevealed {
        first_index: usize,
        first_symbol: u8,
        second_index: usize,
        second_symbol: u8,
        delay_frames: u8,
        tries_remaining: u8,
    },
    DelayAdvanced { frames_remaining: u8 },
    Pair { matched: bool, symbol: Option<u8>, first_index: usize, second_index: usize, tries_remaining: u8 },
    RoundEnded { remaining_cards: Seq<Option<u8>>, matched_symbols: Seq<u8> },
    FrameAdvanced { phase: MemoryGamePhase, cursor_index: u8 },
}

impl View for MemoryGameOutcome {
    type V = MemoryOutcomeView;

    open spec fn view(&self) -> MemoryOutcomeView {
        match self {
            MemoryGameOutcome::Started { board, tries_remaining } => MemoryOutcomeView::Started {
                board: board@,
                tries_remaining: *tries_remaining,
            },
            MemoryGameOutcome::CardPlaced { card_index, delay_frames } => MemoryOutcomeView::CardPlaced {
                card_index: *card_index,
                delay_frames: *delay_frames,
            },
            MemoryGameOutcome::CursorReady { cursor_index, tries_remaining } => MemoryOutcomeView::CursorReady {
                cursor_index: *cursor_index,
                tries_remaining: *tries_remaining,
            },
            MemoryGameOutcome::TryStarted { tries_remaining } => MemoryOutcomeView::TryStarted {
                tries_remaining: *tries_remaining,
            },
            MemoryGameOutcome::RevealReady => MemoryOutcomeView::RevealReady,
            MemoryGameOutcome::CardRejected { pick, card_index, tries_remaining } => MemoryOutcomeView::CardRejected {
                pick: *pick,
                card_index: *card_index,
                tries_remaining: *tries_remaining,
            },
            MemoryGameOutcome::FirstCardPicked { card_index, symbol, tries_remaining } => {
                MemoryOutcomeView::FirstCardPicked {
                    card_index: *card_index,
                    symbol: *symbol,
                    tries_remaining: *tries_remaining,
                }
            },
            MemoryGameOutcome::PairRevealed {
                first_index,
                first_symbol,
                second_index,
                second_symbol,
                delay_frames,
                tries_remaining,
            } => MemoryOutcomeView::PairRevealed {
                first_index: *first_index,
                first_symbol: *first_symbol,
                second_index: *second_index,
                second_symbol: *second_symbol,
                delay_frames: *delay_frames,
                tries_remaining: *tries_remaining,
            },
            MemoryGameOutcome::DelayAdvanced { frames_remaining } => MemoryOutcomeView::DelayAdvanced {
                frames_remaining: *frames_remaining,
            },
            MemoryGameOutcome::Pair { matched, symbol, first_index, second_index, tries_remaining } => {
                MemoryOutcomeView::Pair {
                    matched: *matched,
                    symbol: *symbol,
                    first_index: *first_index,
                    second_index: *second_index,
                    tries_remaining: *tries_remaining,
                }
            },
            MemoryGameOutcome::RoundEnded { remaining_cards, matched_symbols } => MemoryOutcomeView::RoundEnded {
                remaining_cards: remaining_cards@,
                matched_symbols: matched_symbols@,
            },
            MemoryGameOutcome::FrameAdvanced { phase, cursor_index } => MemoryOutcomeView::FrameAdvanced {
                phase: *phase,
                cursor_index: *cursor_index,
            },
        }
    }
}

/// A card id the board can hold: 1 to 8, or taken.
pub open spec fn board_card(c: u8) -> bool {
    (1 <= c <= 8) || c == MEMORY_CARD_TAKEN
}

/// A game whose board, picks, history and cursor are all in range.
pub open spec fn memory_game_wf(g: MemoryGameView) -> bool {
    &&& g.cards.len() == MEMORY_BOARD_LEN
    &&& (g.phase != MemoryGamePhase::RestartGame && g.phase != MemoryGamePhase::ResetBoard) ==> forall|i: int|
        0 <= i < MEMORY_BOARD_LEN ==> board_card(#[trigger] g.cards[i])
    &&& forall|i: int| 0 <= i < 5 ==> #[trigger] g.last_matches[i] <= 8
    &&& g.cursor_index < MEMORY_BOARD_LEN
    &&& g.card_choice <= MEMORY_BOARD_LEN
    &&& g.num_cards_matched <= 90
    &&& (g.card1_location matches Some(l) ==> l < MEMORY_BOARD_LEN)
    &&& (g.card2_location matches Some(l) ==> l < MEMORY_BOARD_LEN)
    &&& (g.card1 matches Some(c) ==> 1 <= c <= 8)
    &&& (g.card2 matches Some(c) ==> 1 <= c <= 8)
    &&& (g.phase == MemoryGamePhase::PickCard2 ==> g.card1 is Some && g.card1_location is Some)
    &&& (g.phase == MemoryGamePhase::DelayPickAgain ==> g.card1 is Some && g.card1_location is Some && g.card2 is Some
        && g.card2_location is Some)
}

/// A freshly drawn board: 45 cards with ids 1 to 8.
pub open spec fn drawn_board(board: Seq<u8>) -> bool {
    board.len() == MEMORY_BOARD_LEN && forall|i: int| 0 <= i < MEMORY_BOARD_LEN ==> 1 <= #[trigger] board[i] <= 8
}

/// The index of the first free slot of the match history, if any.
pub open spec fn first_free_match(m: Seq<u8>, from: int) -> Option<int>
    decreases m.len() - from,
{
    if from < 0 || from >= m.len() {
        None
    } else if m[from] == 0 {
        Some(from)
    } else {
        first_free_match(m, from + 1)
    }
}

/// The last card still on the board, scanning from the end; 0 when none is.
pub open spec fn last_remaining(cards: Seq<u8>, n: int) -> u8
    decreases n,
{
    if n <= 0 {
        0
    } else if cards[n - 1] != MEMORY_CARD_TAKEN {
        cards[n - 1]
    } else {
        last_remaining(cards, n - 1)
    }
}

/// The matched cards of the history, up to its first free slot.
pub open spec fn matched_prefix(m: Seq<u8>, n: int) -> Seq<u8>
    decreases n,
{
    if n <= 0 {
        seq![]
    } else if matched_prefix(m, n - 1).len() < n - 1 {
        matched_prefix(m, n - 1)
    } else if m[n - 1] == 0 {
        matched_prefix(m, n - 1)
    } else {
        matched_prefix(m, n - 1).push(m[n - 1])
    }
}

/// The cards left on the board, a taken card as nothing.
pub open spec fn remaining_view(cards: Seq<u8>) -> Seq<Option<u8>> {
    cards.map_values(|c: u8| if c != MEMORY_CARD_TAKEN { Some(c) } else { None })
}

/// The pair shown at the end of the pause: a match takes both cards off the board and
/// records the card in the first free history slot; either way the picks are cleared and
/// the next try begins. A stored pair that does not stand on the board, or a full history,
/// is an error.
pub open spec fn resolve_pair(g: MemoryGameView) -> Result<(MemoryGameView, MemoryOutcomeView), Seq<char>> {
    let i1 = g.card1_location->0;
    let i2 = g.card2_location->0;
    let c1 = g.card1->0;
    let c2 = g.card2->0;
    if i1 == i2 || g.cards[i1 as int] != c1 || g.cards[i2 as int] != c2 || c1 == MEMORY_CARD_TAKEN || c2
        == MEMORY_CARD_TAKEN {
        Err("stored memory pair is not source-valid"@)
    } else if c1 == c2 && first_free_match(g.last_matches, 0) is None {
        Err("memory match history is full"@)
    } else {
        let matched = c1 == c2;
        let cleared = MemoryGameView {
            card1: None,
            card1_location: None,
            card2: None,
            card2_location: None,
            phase: MemoryGamePhase::CheckTriesRemaining,
            ..g
        };
        let next = if matched {
            MemoryGameView {
                cards: g.cards.update(i1 as int, MEMORY_CARD_TAKEN).update(i2 as int, MEMORY_CARD_TAKEN),
                last_matches: g.last_matches.update(first_free_match(g.last_matches, 0)->0, c1),
                num_cards_matched: (g.num_cards_matched + 2) as u8,
                last_card_picked: c1,
                ..cleared
            }
        } else {
            MemoryGameView { last_card_picked: 0, ..cleared }
        };
        Ok(
            (
                next,
                MemoryOutcomeView::Pair {
                    matched,
                    symbol: if matched { Some(c1) } else { None },
                    first_index: i1 as usize,
                    second_index: i2 as usize,
                    tries_remaining: g.number_tries_remaining,
                },
            ),
        )
    }
}

/// What a frame does before the cursor moves: the game after it, and what it reports if it
/// reports anything.
pub open spec fn phase_step(g: MemoryGameView, button: Option<MemoryGameButton>, board: Seq<u8>) -> Result<
    (MemoryGameView, Option<MemoryOutcomeView>),
    Seq<char>,
> {
    match g.phase {
        MemoryGamePhase::RestartGame => Ok((MemoryGameView { phase: MemoryGamePhase::ResetBoard, ..g }, None)),
        MemoryGamePhase::ResetBoard => Ok(
            (
                MemoryGameView {
                    cards: board,
                    phase: MemoryGamePhase::InitBoardTilemapAndCursor,
                    counter: 0,
                    number_tries_remaining: 0,
                    last_matches: seq![0u8, 0, 0, 0, 0],
                    num_cards_matched: 0,
                    card1: None,
                    card1_location: None,
                    card2: None,
                    card2_location: None,
                    cursor_index: 0,
                    cursor_active: false,
                    card_choice: 0,
                    last_card_picked: 0,
                    ..g
                },
                Some(MemoryOutcomeView::Started { board, tries_remaining: 0 }),
            ),
        ),
        MemoryGamePhase::InitBoardTilemapAndCursor => if g.counter < 45 {
            Ok(
                (
                    MemoryGameView { counter: (g.counter + 1) as u8, last_card_picked: 0, ..g },
                    Some(MemoryOutcomeView::CardPlaced { card_index: g.counter as usize, delay_frames: 3 }),
                ),
            )
        } else {
            Ok(
                (
                    MemoryGameView {
                        cursor_index: 0,
                        cursor_active: true,
                        number_tries_remaining: 5,
                        phase: MemoryGamePhase::CheckTriesRemaining,
                        ..g
                    },
                    Some(MemoryOutcomeView::CursorReady { cursor_index: 0, tries_remaining: 5 }),
                ),
            )
        },
        MemoryGamePhase::CheckTriesRemaining => if g.number_tries_remaining == 0 {
            Ok((MemoryGameView { phase: MemoryGamePhase::RevealAll, ..g }, Some(MemoryOutcomeView::RevealReady)))
        } else {
            Ok(
                (
                    MemoryGameView {
                        number_tries_remaining: (g.number_tries_remaining - 1) as u8,
                        card_choice: 0,
                        phase: MemoryGamePhase::PickCard1,
                        ..g
                    },
                    Some(MemoryOutcomeView::TryStarted { tries_remaining: (g.number_tries_remaining - 1) as u8 }),
                ),
            )
        },
        MemoryGamePhase::PickCard1 => if g.card_choice == 0 {
            Ok((g, None))
        } else {
            let index = (g.card_choice - 1) as int;
            let symbol = g.cards[index];
            if symbol == MEMORY_CARD_TAKEN {
                Ok(
                    (
                        g,
                        Some(
                            MemoryOutcomeView::CardRejected {
                                pick: 1,
                                card_index: index as usize,
                                tries_remaining: g.number_tries_remaining,
                            },
                        ),
                    ),
                )
            } else {
                Ok(
                    (
                        MemoryGameView {
                            last_card_picked: symbol,
                            card1: Some(symbol),
                            card1_location: Some(index as u8),
                            card_choice: 0,
                            phase: MemoryGamePhase::PickCard2,
                            ..g
                        },
                        Some(
                            MemoryOutcomeView::FirstCardPicked {
                                card_index: index as usize,
                                symbol,
                                tries_remaining: g.number_tries_remaining,
                            },
                        ),
                    ),
                )
            }
        },
        MemoryGamePhase::PickCard2 => if g.card_choice == 0 {
            Ok((g, None))
        } else {
            let index = (g.card_choice - 1) as int;
            if g.card1_location == Some((g.card_choice - 1) as u8) || g.cards[index] == MEMORY_CARD_TAKEN {
                Ok(
                    (
                        g,
                        Some(
                            MemoryOutcomeView::CardRejected {
                                pick: 2,
                                card_index: index as usize,
                                tries_remaining: g.number_tries_remaining,
                            },
                        ),
                    ),
                )
            } else {
                let second = g.cards[index];
                Ok(
                    (
                        MemoryGameView {
                            last_card_picked: second,
                            card2: Some(second),
                            card2_location: Some(index as u8),
                            counter: (MEMORY_PICK_DELAY_FRAMES - 1) as u8,
                            phase: MemoryGamePhase::DelayPickAgain,
                            ..g
                        },
                        Some(
                            MemoryOutcomeView::PairRevealed {
                                first_index: g.card1_location->0 as usize,
                                first_symbol: g.card1->0,
                                second_index: index as usize,
                                second_symbol: second,
                                delay_frames: (MEMORY_PICK_DELAY_FRAMES - 1) as u8,
                                tries_remaining: g.number_tries_remaining,
                            },
                        ),
                    ),
                )
            }
        },
        MemoryGamePhase::DelayPickAgain => if g.counter != 0 {
            Ok(
                (
                    MemoryGameView { counter: (g.counter - 1) as u8, ..g },
                    Some(MemoryOutcomeView::DelayAdvanced { frames_remaining: (g.counter - 1) as u8 }),
                ),
            )
        } else {
            match resolve_pair(g) {
                Err(m) => Err(m),
                Ok((next, outcome)) => Ok((next, Some(outcome))),
            }
        },
        MemoryGamePhase::RevealAll => if button == Some(MemoryGameButton::A) {
            Ok(
                (
                    MemoryGameView {
                        counter: 45,
                        last_card_picked: last_remaining(g.cards, g.cards.len() as int),
                        phase: MemoryGamePhase::RevealAllAcknowledgement,
                        ..g
                    },
                    Some(
                        MemoryOutcomeView::RoundEnded {
                            remaining_cards: remaining_view(g.cards),
                            matched_symbols: matched_prefix(g.last_matches, 5),
                        },
                    ),
                ),
            )
        } else {
            Ok((g, None))
        },
        MemoryGamePhase::RevealAllAcknowledgement => if button == Some(MemoryGameButton::A) || button == Some(
            MemoryGameButton::B,
        ) {
            Ok((MemoryGameView { phase: MemoryGamePhase::RestartGame, ..g }, None))
        } else {
            Ok((g, None))
        },
    }
}

/// Phases in which the cursor answers the buttons.
pub open spec fn cursor_phase(p: MemoryGamePhase) -> bool {
    p != MemoryGamePhase::RevealAll && p != MemoryGamePhase::RevealAllAcknowledgement
}

/// The cursor after a button: A chooses the card under it; the arrows move it within the
/// nine-by-five grid.
pub open spec fn cursor_moved(g: MemoryGameView, button: Option<MemoryGameButton>) -> MemoryGameView {
    match button {
        Some(MemoryGameButton::A) => MemoryGameView { card_choice: (g.cursor_index + 1) as u8, ..g },
        Some(MemoryGameButton::Left) => if g.cursor_index % 9 != 0 {
            MemoryGameView { cursor_index: (g.cursor_index - 1) as u8, ..g }
        } else {
            g
        },
        Some(MemoryGameButton::Right) => if g.cursor_index % 9 != 8 {
            MemoryGameView { cursor_index: (g.cursor_index + 1) as u8, ..g }
        } else {
            g
        },
        Some(MemoryGameButton::Up) => if g.cursor_index >= 9 {
            MemoryGameView { cursor_index: (g.cursor_index - 9) as u8, ..g }
        } else {
            g
        },
        Some(MemoryGameButton::Down) => if g.cursor_index < 36 {
            MemoryGameView { cursor_index: (g.cursor_index + 9) as u8, ..g }
        } else {
            g
        },
        _ => g,
    }
}

/// One whole frame: the phase's step, then the cursor while it is active, and the report,
/// which is the frame's phase and cursor when the step reports nothing.
pub open spec fn memory_frame(g: MemoryGameView, button: Option<MemoryGameButton>, board: Seq<u8>) -> Result<
    (MemoryGameView, MemoryOutcomeView),
    Seq<char>,
> {
    match phase_step(g, button, board) {
        Err(m) => Err(m),
        Ok((g1, outcome)) => {
            let g2 = if g1.cursor_active && cursor_phase(g1.phase) {
                cursor_moved(g1, button)
            } else {
                g1
            };
            Ok(
                (
                    g2,
                    match outcome {
                        Some(o) => o,
                        None => MemoryOutcomeView::FrameAdvanced { phase: g2.phase, cursor_index: g2.cursor_index },
                    },
                ),
            )
        },
    }
}

fn apply_cursor_input(game: &mut MemoryGameState, button: Option<MemoryGameButton>)
    requires
        old(game).cursor_index < MEMORY_BOARD_LEN,
    ensures
        final(game)@ == cursor_moved(old(game)@, button),
{
    match button {
        Some(MemoryGameButton::A) => {
            game.card_choice = game.cursor_index + 1;
        },
        Some(MemoryGameButton::Left) => {
            if game.cursor_index % 9 != 0 {
                game.cursor_index = game.cursor_index - 1;
            }
        },
        Some(MemoryGameButton::Right) => {
            if game.cursor_index % 9 != 8 {
                game.cursor_index = game.cursor_index + 1;
            }
        },
        Some(MemoryGameButton::Up) => {
            if game.cursor_index >= 9 {
                game.cursor_index = game.cursor_index - 9;
            }
        },
        Some(MemoryGameButton::Down) => {
            if game.cursor_index < 36 {
                game.cursor_index = game.cursor_index + 9;
            }
        },
        _ => {},
    }
}

fn copy_board(v: &Vec<u8>) -> (r: Vec<u8>)
    ensures
        r@ == v@,
{
    let mut r: Vec<u8> = Vec::new();
    let mut i: usize = 0;
    while i < v.len()
        invariant
            i <= v@.len(),
            r@ == v@.take(i as int),
        decreases v.len() - i,
    {
        r.push(v[i]);
        proof {
            assert(v@.take(i + 1) =~= v@.take(i as int).push(v@[i as int]));
        }
        i += 1;
    }
    proof {
        assert(v@.take(v@.len() as int) =~= v@);
    }
    r
}

fn first_free_match_exec(m: &[u8; 5]) -> (r: Option<usize>)
    ensures
        match r {
            Some(i) => first_free_match(m@, 0) == Some(i as int),
            None => first_free_match(m@, 0) is None,
        },
{
    let mut i: usize = 0;
    while i < 5
        invariant
            i <= 5,
            m@.len() == 5,
            first_free_match(m@, 0) == first_free_match(m@, i as int),
        decreases 5 - i,
    {
        if m[i] == 0 {
            return Some(i);
        }
        i += 1;
    }
    None
}

proof fn lemma_first_free_in_range(m: Seq<u8>, from: int)
    requires
        first_free_match(m, from) is Some,
    ensures
        0 <= first_free_match(m, from)->0 < m.len(),
    decreases m.len() - from,
{
    if from >= 0 && from < m.len() && m[from] != 0 {
        lemma_first_free_in_range(m, from + 1);
    }
}

fn last_remaining_exec(cards: &Vec<u8>) -> (c: u8)
    ensures
        c == last_remaining(cards@, cards@.len() as int),
{
    let mut n: usize = cards.len();
    while n > 0
        invariant
            n <= cards@.len(),
            last_remaining(cards@, cards@.len() as int) == last_remaining(cards@, n as int),
        decreases n,
    {
        if cards[n - 1] != MEMORY_CARD_TAKEN {
            return cards[n - 1];
        }
        n -= 1;
    }
    0
}

fn remaining_cards_exec(cards: &Vec<u8>) -> (r: Vec<Option<u8>>)
    ensures
        r@ == remaining_view(cards@),
{
    let mut r: Vec<Option<u8>> = Vec::new();
    let mut i: usize = 0;
    while i < cards.len()
        invariant
            i <= cards@.len(),
            r@ == remaining_view(cards@).take(i as int),
        decreases cards.len() - i,
    {
        let c = cards[i];
        r.push(if c != MEMORY_CARD_TAKEN { Some(c) } else { None });
        proof {
            assert(remaining_view(cards@).take(i + 1) =~= remaining_view(cards@).take(i as int).push(
                remaining_view(cards@)[i as int],
            ));
        }
        i += 1;
    }
    proof {
        assert(remaining_view(cards@).take(cards@.len() as int) =~= remaining_view(cards@));
    }
    r
}

fn matched_symbols_exec(m: &[u8; 5]) -> (r: Vec<u8>)
    ensures
        r@ == matched_prefix(m@, 5),
{
    let mut r: Vec<u8> = Vec::new();
    let mut i: usize = 0;
    let mut open = true;
    while i < 5
        invariant
            i <= 5,
            m@.len() == 5,
            r@ == matched_prefix(m@, i as int),
            open <==> r@.len() == i,
        decreases 5 - i,
    {
        let ghost before = r@;
        proof {
            lemma_matched_prefix_len(m@, i as int);
        }
        if open && m[i] != 0 {
            r.push(m[i]);
            proof {
                assert(matched_prefix(m@, i + 1) == before.push(m@[i as int]));
            }
        } else {
            open = false;
            proof {
                assert(matched_prefix(m@, i + 1) == before);
            }
        }
        i += 1;
    }
    r
}

proof fn lemma_matched_prefix_len(m: Seq<u8>, n: int)
    requires
        n >= 0,
    ensures
        matched_prefix(m, n).len() <= n,
    decreases n,
{
    if n > 0 {
        lemma_matched_prefix_len(m, n - 1);
    }
}

fn memory_error(routine: &str, message: &str) -> (r: Result<MemoryGameOutcome, SpecialRoutineError>)
    ensures
        r matches Err(SpecialRoutineError::InvalidState { routine: rr, message: m }) && rr@ == routine@ && m@
            == message@,
{
    Err(SpecialRoutineError::InvalidState { routine: copy_text(routine), message: copy_text(message) })
}

/// Advances the memory game by one frame. `board` is the board drawn for a new game; only
/// the frame that lays out the board reads it. A game that is not running is an error, as is
/// a stored pair that does not stand on the board or a full match history; an error changes
/// nothing.
#[verifier::rlimit(60)]
pub fn advance_memory_game_frame(
    game: &mut Option<MemoryGameState>,
    routine: &str,
    button: Option<MemoryGameButton>,
    board: &Vec<u8>,
) -> (r: Result<MemoryGameOutcome, SpecialRoutineError>)
    requires
        *old(game) matches Some(g) ==> memory_game_wf(g@),
        (*old(game) matches Some(g) && g.phase == MemoryGamePhase::ResetBoard) ==> drawn_board(board@),
    ensures
        match *old(game) {
            None => r matches Err(SpecialRoutineError::InvalidState { routine: rr, message: m }) && rr@ == routine@
                && m@ == "Memory Game has no active WRAM state"@ && *final(game) == *old(game),
            Some(g) => match memory_frame(g@, button, board@) {
                Err(message) => r matches Err(SpecialRoutineError::InvalidState { routine: rr, message: m }) && rr@
                    == routine@ && m@ == message && *final(game) == *old(game),
                Ok((next, outcome)) => (*final(game) matches Some(f) && f@ == next) && (r matches Ok(o) && o@ == outcome),
            },
        },
{
    let current = match game {
        None => {
            return memory_error(routine, "Memory Game has no active WRAM state");
        },
        Some(g) => g,
    };
    let ghost g0 = current@;
    let mut outcome: Option<MemoryGameOutcome> = None;
    match current.phase {
        MemoryGamePhase::RestartGame => {
            current.phase = MemoryGamePhase::ResetBoard;
        },
        MemoryGamePhase::ResetBoard => {
            current.cards = copy_board(board);
            current.phase = MemoryGamePhase::InitBoardTilemapAndCursor;
            current.counter = 0;
            current.number_tries_remaining = 0;
            current.last_matches = [0, 0, 0, 0, 0];
            current.num_cards_matched = 0;
            current.card1 = None;
            current.card1_location = None;
            current.card2 = None;
            current.card2_location = None;
            current.cursor_index = 0;
            current.cursor_active = false;
            current.card_choice = 0;
            current.last_card_picked = 0;
            proof {
                assert(current.last_matches@ =~= seq![0u8, 0, 0, 0, 0]);
            }
            outcome = Some(MemoryGameOutcome::Started { board: copy_board(board), tries_remaining: 0 });
        },
        MemoryGamePhase::InitBoardTilemapAndCursor => {
            if current.counter < 45 {
                let card_index = current.counter as usize;
                current.counter = current.counter + 1;
                current.last_card_picked = 0;
                outcome = Some(MemoryGameOutcome::CardPlaced { card_index, delay_frames: 3 });
            } else {
                current.cursor_index = 0;
                current.cursor_active = true;
                current.number_tries_remaining = 5;
                current.phase = MemoryGamePhase::CheckTriesRemaining;
                outcome = Some(MemoryGameOutcome::CursorReady { cursor_index: 0, tries_remaining: 5 });
            }
        },
        MemoryGamePhase::CheckTriesRemaining => {
            if current.number_tries_remaining == 0 {
                current.phase = MemoryGamePhase::RevealAll;
                outcome = Some(MemoryGameOutcome::RevealReady);
            } else {
                current.number_tries_remaining = current.number_tries_remaining - 1;
                current.card_choice = 0;
                current.phase = MemoryGamePhase::PickCard1;
                outcome = Some(MemoryGameOutcome::TryStarted { tries_remaining: current.number_tries_remaining });
            }
        },
        MemoryGamePhase::PickCard1 => {
            if current.card_choice != 0 {
                let card_index = (current.card_choice - 1) as usize;
                let symbol = current.cards[card_index];
                if symbol == MEMORY_CARD_TAKEN {
                    outcome = Some(
                        MemoryGameOutcome::CardRejected {
                            pick: 1,
                            card_index,
                            tries_remaining: current.number_tries_remaining,
                        },
                    );
                } else {
                    current.last_card_picked = symbol;
                    current.card1 = Some(symbol);
                    current.card1_location = Some(card_index as u8);
                    current.card_choice = 0;
                    current.phase = MemoryGamePhase::PickCard2;
                    outcome = Some(
                        MemoryGameOutcome::FirstCardPicked {
                            card_index,
                            symbol,
                            tries_remaining: current.number_tries_remaining,
                        },
                    );
                }
            }
        },
        MemoryGamePhase::PickCard2 => {
            if current.card_choice != 0 {
                let card_index = (current.card_choice - 1) as usize;
                if current.card1_location == Some(current.card_choice - 1) || current.cards[card_index]
                    == MEMORY_CARD_TAKEN {
                    outcome = Some(
                        MemoryGameOutcome::CardRejected {
                            pick: 2,
                            card_index,
                            tries_remaining: current.number_tries_remaining,
                        },
                    );
                } else {
                    let first_index = match current.card1_location {
                        Some(l) => l as usize,
                        None => 0,
                    };
                    let first_symbol = match current.card1 {
                        Some(c) => c,
                        None => 0,
                    };
                    let second_symbol = current.cards[card_index];
                    current.last_card_picked = second_symbol;
                    current.card2 = Some(second_symbol);
                    current.card2_location = Some(card_index as u8);
                    current.counter = MEMORY_PICK_DELAY_FRAMES - 1;
                    current.phase = MemoryGamePhase::DelayPickAgain;
                    outcome = Some(
                        MemoryGameOutcome::PairRevealed {
                            first_index,
                            first_symbol,
                            second_index: card_index,
                            second_symbol,
                            delay_frames: MEMORY_PICK_DELAY_FRAMES - 1,
                            tries_remaining: current.number_tries_remaining,
                        },
                    );
                }
            }
        },
        MemoryGamePhase::DelayPickAgain => {
            if current.counter != 0 {
                current.counter = current.counter - 1;
                outcome = Some(MemoryGameOutcome::DelayAdvanced { frames_remaining: current.counter });
            } else {
                let i1 = match current.card1_location {
                    Some(l) => l as usize,
                    None => 0,
                };
                let i2 = match current.card2_location {
                    Some(l) => l as usize,
                    None => 0,
                };
                let c1 = match current.card1 {
                    Some(c) => c,
                    None => 0,
                };
                let c2 = match current.card2 {
                    Some(c) => c,
                    None => 0,
                };
                if i1 == i2 || current.cards[i1] != c1 || current.cards[i2] != c2 || c1 == MEMORY_CARD_TAKEN || c2
                    == MEMORY_CARD_TAKEN {
                    return memory_error(routine, "stored memory pair is not source-valid");
                }
                let matched = c1 == c2;
                if matched {
                    let slot = match first_free_match_exec(&current.last_matches) {
                        None => {
                            return memory_error(routine, "memory match history is full");
                        },
                        Some(s) => s,
                    };
                    proof {
                        lemma_first_free_in_range(current.last_matches@, 0);
                    }
                    current.cards.set(i1, MEMORY_CARD_TAKEN);
                    current.cards.set(i2, MEMORY_CARD_TAKEN);
                    current.last_matches[slot] = c1;
                    current.num_cards_matched = current.num_cards_matched + 2;
                    current.last_card_picked = c1;
                } else {
                    current.last_card_picked = 0;
                }
                current.card1 = None;
                current.card1_location = None;
                current.card2 = None;
                current.card2_location = None;
                current.phase = MemoryGamePhase::CheckTriesRemaining;
                outcome = Some(
                    MemoryGameOutcome::Pair {
                        matched,
                        symbol: if matched {
                            Some(c1)
                        } else {
                            None
                        },
                        first_index: i1,
                        second_index: i2,
                        tries_remaining: current.number_tries_remaining,
                    },
                );
            }
        },
        MemoryGamePhase::RevealAll => {
            if button == Some(MemoryGameButton::A) {
                current.counter = 45;
                current.last_card_picked = last_remaining_exec(&current.cards);
                current.phase = MemoryGamePhase::RevealAllAcknowledgement;
                outcome = Some(
                    MemoryGameOutcome::RoundEnded {
                        remaining_cards: remaining_cards_exec(&current.cards),
                        matched_symbols: matched_symbols_exec(&current.last_matches),
                    },
                );
            }
        },
        MemoryGamePhase::RevealAllAcknowledgement => {
            if button == Some(MemoryGameButton::A) || button == Some(MemoryGameButton::B) {
                current.phase = MemoryGamePhase::RestartGame;
            }
        },
    }
    let cursor_phase_now = current.phase != MemoryGamePhase::RevealAll && current.phase
        != MemoryGamePhase::RevealAllAcknowledgement;
    if current.cursor_active && cursor_phase_now {
        apply_cursor_input(current, button);
    }
    match outcome {
        Some(o) => Ok(o),
        None => Ok(MemoryGameOutcome::FrameAdvanced { phase: current.phase, cursor_index: current.cursor_index }),
    }
}

/// What the memory-game service is asked to do.
#[derive(Clone, Copy, Debug, PartialEq, Eq, Structural)]
pub enum MemoryGameInput {
    Enter { menu_cursor_y: u8 },
    AdvanceFrame { button: Option<MemoryGameButton> },
}

/// What the memory-game service reports.
#[derive(Debug, PartialEq, Eq)]
pub enum MemoryGameServiceOutcome {
    Unavailable { reason: GameCornerUnavailableReason },
    Entered,
    Frame { outcome: MemoryGameOutcome },
}

/// A new game at the chosen menu row: a blank board waiting to be laid out.
pub open spec fn entered_game(g: MemoryGameView, menu_cursor_y: u8) -> bool {
    &&& g.cards == Seq::new(MEMORY_BOARD_LEN as nat, |i: int| 0u8)
    &&& g.phase == MemoryGamePhase::RestartGame
    &&& g.distribution == menu_cursor_y - 1
    &&& g.counter == 0
    &&& g.number_tries_remaining == 0
    &&& g.last_matches == seq![0u8, 0, 0, 0, 0]
    &&& g.num_cards_matched == 0
    &&& g.card1 is None && g.card1_location is None && g.card2 is None && g.card2_location is None
    &&& g.cursor_index == 0
    &&& !g.cursor_active
    &&& g.card_choice == 0
    &&& g.last_card_picked == 0
}

/// The memory game as a coin game: the pack must define the Coin Case, and a player without
/// coins or without a Coin Case is turned away, in that order. Otherwise a game is entered
/// at a menu row from 1 to 3 when none is running, or the running game advances one frame.
pub fn memory_game_service(
    item_catalog: &TextMap<Item>,
    bag: &Bag,
    coins: u16,
    game: &mut Option<MemoryGameState>,
    input: MemoryGameInput,
    board: &Vec<u8>,
    routine: &str,
) -> (r: Result<MemoryGameServiceOutcome, SpecialRoutineError>)
    requires
        *old(game) matches Some(g) ==> memory_game_wf(g@),
        (*old(game) matches Some(g) && g.phase == MemoryGamePhase::ResetBoard) ==> drawn_board(board@),
    ensures
        !item_catalog.view().contains_key("COIN_CASE"@) ==> (r matches Err(SpecialRoutineError::UnknownItem {
            routine: rr,
            item_id: i,
        }) && rr@ == routine@ && i@ == "COIN_CASE"@) && *final(game) == *old(game),
        item_catalog.view().contains_key("COIN_CASE"@) && coins == 0 ==> r == Ok::<
            MemoryGameServiceOutcome,
            SpecialRoutineError,
        >(MemoryGameServiceOutcome::Unavailable { reason: GameCornerUnavailableReason::NoCoins })
            && *final(game) == *old(game),
        item_catalog.view().contains_key("COIN_CASE"@) && coins != 0 && bag.qty(
            item_catalog.view()["COIN_CASE"@].pocket@,
            item_catalog.view()["COIN_CASE"@].script_name@,
        ) == 0 ==> r == Ok::<MemoryGameServiceOutcome, SpecialRoutineError>(
            MemoryGameServiceOutcome::Unavailable { reason: GameCornerUnavailableReason::MissingCoinCase },
        ) && *final(game) == *old(game),
        item_catalog.view().contains_key("COIN_CASE"@) && coins != 0 && bag.qty(
            item_catalog.view()["COIN_CASE"@].pocket@,
            item_catalog.view()["COIN_CASE"@].script_name@,
        ) != 0 ==> match input {
            MemoryGameInput::Enter { menu_cursor_y } => if old(game).is_some() {
                (r matches Err(SpecialRoutineError::InvalidState { routine: rr, message: m }) && rr@ == routine@ && m@
                    == "MemoryGame entry requires inactive source WRAM"@) && *final(game) == *old(game)
            } else if !(1 <= menu_cursor_y <= 3) {
                (r matches Err(SpecialRoutineError::InvalidState { routine: rr, message: m }) && rr@ == routine@ && m@
                    == "MemoryGame wMenuCursorY must select source row 1..=3, found "@ + decimal_digits(
                    menu_cursor_y as nat,
                )) && *final(game) == *old(game)
            } else {
                r == Ok::<MemoryGameServiceOutcome, SpecialRoutineError>(MemoryGameServiceOutcome::Entered) && (*final(game) matches Some(f) && entered_game(f@, menu_cursor_y))
            },
            MemoryGameInput::AdvanceFrame { button } => match *old(game) {
                None => (r matches Err(SpecialRoutineError::InvalidState { routine: rr, message: m }) && rr@ == routine@
                    && m@ == "Memory Game has no active WRAM state"@) && *final(game) == *old(game),
                Some(g) => match memory_frame(g@, button, board@) {
                    Err(message) => (r matches Err(SpecialRoutineError::InvalidState { routine: rr, message: m }) && rr@
                        == routine@ && m@ == message) && *final(game) == *old(game),
                    Ok((next, outcome)) => (*final(game) matches Some(f) && f@ == next) && (r matches Ok(
                        MemoryGameServiceOutcome::Frame { outcome: o },
                    ) && o@ == outcome),
                },
            },
        },
{
    match game_corner_entry_refusal(item_catalog, bag, coins, true, routine) {
        Err(e) => {
            return Err(e);
        },
        Ok(Some(reason)) => {
            return Ok(MemoryGameServiceOutcome::Unavailable { reason });
        },
        Ok(None) => {},
    }
    match input {
        MemoryGameInput::Enter { menu_cursor_y } => {
            if game.is_some() {
                return Err(
                    SpecialRoutineError::InvalidState {
                        routine: copy_text(routine),
                        message: copy_text("MemoryGame entry requires inactive source WRAM"),
                    },
                );
            }
            if menu_cursor_y < 1 || menu_cursor_y > 3 {
                proof {
                    reveal_strlit("");
                }
                let message = message_with_number(
                    "MemoryGame wMenuCursorY must select source row 1..=3, found ",
                    menu_cursor_y as u64,
                    "",
                );
                proof {
                    assert(message@ =~= "MemoryGame wMenuCursorY must select source row 1..=3, found "@ + decimal_digits(
                        menu_cursor_y as nat,
                    ));
                }
                return Err(SpecialRoutineError::InvalidState { routine: copy_text(routine), message });
            }
            let mut cards: Vec<u8> = Vec::new();
            let mut i: usize = 0;
            while i < MEMORY_BOARD_LEN
                invariant
                    i <= MEMORY_BOARD_LEN,
                    cards@ == Seq::new(i as nat, |j: int| 0u8),
                decreases MEMORY_BOARD_LEN - i,
            {
                cards.push(0);
                proof {
                    assert(cards@ =~= Seq::new((i + 1) as nat, |j: int| 0u8));
                }
                i += 1;
            }
            let fresh = MemoryGameState {
                cards,
                phase: MemoryGamePhase::RestartGame,
                distribution: menu_cursor_y - 1,
                counter: 0,
                number_tries_remaining: 0,
                last_matches: [0, 0, 0, 0, 0],
                num_cards_matched: 0,
                card1: None,
                card1_location: None,
                card2: None,
                card2_location: None,
                cursor_index: 0,
                cursor_active: false,
                card_choice: 0,
                last_card_picked: 0,
            };
            proof {
                assert(fresh.last_matches@ =~= seq![0u8, 0, 0, 0, 0]);
            }
            *game = Some(fresh);
            Ok(MemoryGameServiceOutcome::Entered)
        },
        MemoryGameInput::AdvanceFrame { button } => {
            match advance_memory_game_frame(game, routine, button, board) {
                Err(e) => Err(e),
                Ok(outcome) => Ok(MemoryGameServiceOutcome::Frame { outcome }),
            }
        },
    }
}

} // verus!
