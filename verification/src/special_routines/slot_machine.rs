//! The Game Corner slot machine between reel stops: entering the cabinet, placing a bet,
//! reading the result, paying it out coin by coin, and choosing to play again or leave.
//! Each step takes the random bytes it draws as arguments.
use vstd::prelude::*;
use crate::items::{Bag, Item};
use crate::ordered::TextMap;
use crate::special_routines::errors::SpecialRoutineError;
use crate::special_routines::game_corner::{game_corner_entry_refusal, GameCornerUnavailableReason};
use crate::special_routines::day_care::DividerSource;
use crate::special_routines::game_corner::{
    all_three_match, bias_for_roll, line_order, reel, reel1_stop, reel2_may_skip, reel2_stop, skip_to_seven,
    slot_bias_for_roll, slot_check_all_three, slot_reel, slot_stop_reel1, slot_stop_reel2, slot_symbol_payout,
    slot_window, string_views, symbol_payout, window, SlotStopMode, SlotStopResolution, SlotSymbol,
};
use crate::special_routines::slot_reel3::{reel3_settles, reel3_stop_result, slot_stop_reel3};
use crate::text::{copy_text, decimal_digits, message_with_number, message_with_text, text_chars, decimal_chars, text_from_chars};

verus! {

/// The most coins the Coin Case holds.
pub const GAME_CORNER_MAX_COINS: u16 = 9999;

/// Where a slot-machine session stands.
#[derive(Clone, Copy, Debug, PartialEq, Eq, Structural)]
pub enum SlotMachinePhase {
    Betting,
    Spinning,
    Result,
    PlayAgain,
    Quit,
}

/// The name a phase is reported under.
pub open spec fn phase_name(p: SlotMachinePhase) -> Seq<char> {
    match p {
        SlotMachinePhase::Betting => "Betting"@,
        SlotMachinePhase::Spinning => "Spinning"@,
        SlotMachinePhase::Result => "Result"@,
        SlotMachinePhase::PlayAgain => "PlayAgain"@,
        SlotMachinePhase::Quit => "Quit"@,
    }
}

fn slot_phase_name(p: SlotMachinePhase) -> (s: &'static str)
    ensures
        s@ == phase_name(p),
{
    match p {
        SlotMachinePhase::Betting => "Betting",
        SlotMachinePhase::Spinning => "Spinning",
        SlotMachinePhase::Result => "Result",
        SlotMachinePhase::PlayAgain => "PlayAgain",
        SlotMachinePhase::Quit => "Quit",
    }
}

/// A slot-machine session: its phase, its mode, the bet, the bias, the reel offsets, the next
/// reel to stop, and the result still being paid out.
#[derive(Clone, Copy, Debug, PartialEq, Eq, Structural)]
pub struct SlotMachineState {
    pub phase: SlotMachinePhase,
    pub lucky: bool,
    pub keep_seven_bias_chance: bool,
    pub bet: u8,
    pub bias: Option<SlotSymbol>,
    pub offset0: u8,
    pub offset1: u8,
    pub offset2: u8,
    pub next_reel: u8,
    pub matched_symbol: Option<SlotSymbol>,
    pub payout_remaining: u16,
}

/// What a step reports.
#[derive(Debug, PartialEq, Eq)]
pub enum SlotMachineEvent {
    Entered { coins: u16 },
    Started { coins_before: u16, bet: u8, bias: Option<SlotSymbol>, offsets: [u8; 3], coins: u16 },
    Result { payout: u16, matched_symbol: Option<SlotSymbol>, winning_lines: Vec<String>, coins: u16 },
    Payout { coins_before: u16, payout_remaining: u16, coins: u16 },
    ResultAcknowledged { can_play_again: bool, coins: u16 },
    ReplayAccepted { coins: u16 },
    Exited { coins: u16 },
    ReelStopped {
        reel: u8,
        mode: SlotStopMode,
        animation_start_offset: usize,
        animation_count: u8,
        offsets: [usize; 3],
        coins: u16,
    },
}

/// `r` is the invalid-state error of `routine` with `message`.
pub open spec fn invalid_state(r: Result<SlotMachineEvent, SpecialRoutineError>, routine: Seq<char>, message: Seq<char>) -> bool {
    r matches Err(SpecialRoutineError::InvalidState { routine: rr, message: m }) && rr@ == routine && m@ == message
}

/// `r` is the error for a step that needs a session when there is none.
pub open spec fn missing_session(r: Result<SlotMachineEvent, SpecialRoutineError>, routine: Seq<char>) -> bool {
    r matches Err(SpecialRoutineError::MissingScriptValue { routine: rr, variable: v }) && rr@ == routine && v@
        == "slot_machine"@
}

fn invalid(routine: &str, message: &str) -> (r: Result<SlotMachineEvent, SpecialRoutineError>)
    ensures
        invalid_state(r, routine@, message@),
{
    Err(SpecialRoutineError::InvalidState { routine: copy_text(routine), message: copy_text(message) })
}

fn missing(routine: &str) -> (r: Result<SlotMachineEvent, SpecialRoutineError>)
    ensures
        missing_session(r, routine@),
{
    Err(SpecialRoutineError::MissingScriptValue { routine: copy_text(routine), variable: copy_text("slot_machine") })
}

/// Coins after one paid-out coin: one more, capped at the Coin Case's limit.
pub open spec fn coin_added(coins: u16) -> u16 {
    if coins >= GAME_CORNER_MAX_COINS { GAME_CORNER_MAX_COINS } else { (coins + 1) as u16 }
}

pub open spec fn enter_outcome(before: Option<SlotMachineState>, after: Option<SlotMachineState>, coins: u16, lucky: bool, drawn: u8, routine: Seq<char>, r: Result<SlotMachineEvent, SpecialRoutineError>) -> bool {
    &&& (match before {
            Some(m) if m.phase != SlotMachinePhase::Quit => invalid_state(
                r,
                routine,
                "SlotMachine entry is only valid on cabinet entry"@,
            ) && after == before,
            _ => r == Ok::<SlotMachineEvent, SpecialRoutineError>(SlotMachineEvent::Entered { coins })
                && after == Some(
                SlotMachineState {
                    phase: SlotMachinePhase::Betting,
                    lucky,
                    keep_seven_bias_chance: drawn & 0x2a == 0,
                    bet: 0,
                    bias: None,
                    offset0: 14,
                    offset1: 14,
                    offset2: 14,
                    next_reel: 1,
                    matched_symbol: None,
                    payout_remaining: 0,
                },
            ),
        })
}

/// Entering the cabinet opens a betting session in the chosen mode, with the reels at their
/// last position; the drawn byte decides whether a seven bias may be kept after a win. A
/// session that is still open refuses entry.
pub fn slot_machine_enter(
    machine: &mut Option<SlotMachineState>,
    coins: u16,
    lucky: bool,
    drawn: u8,
    routine: &str,
) -> (r: Result<SlotMachineEvent, SpecialRoutineError>)
    ensures
        enter_outcome(*old(machine), *final(machine), coins, lucky, drawn, routine@, r),
{
    let current: Option<SlotMachineState> = *machine;
    if let Some(m) = current {
        if m.phase != SlotMachinePhase::Quit {
            return invalid(routine, "SlotMachine entry is only valid on cabinet entry");
        }
    }
    *machine = Some(
        SlotMachineState {
            phase: SlotMachinePhase::Betting,
            lucky,
            keep_seven_bias_chance: drawn & 0x2a == 0,
            bet: 0,
            bias: None,
            offset0: 14,
            offset1: 14,
            offset2: 14,
            next_reel: 1,
            matched_symbol: None,
            payout_remaining: 0,
        },
    );
    Ok(SlotMachineEvent::Entered { coins })
}

/// `prefix`, the digits of `a`, `middle`, then the digits of `b`.
fn message_with_two_numbers(prefix: &str, a: u64, middle: &str, b: u64) -> (s: String)
    ensures
        s@ == prefix@ + decimal_digits(a as nat) + middle@ + decimal_digits(b as nat),
{
    let mut v = text_chars(prefix);
    let mut da = decimal_chars(a);
    let mut m = text_chars(middle);
    let mut db = decimal_chars(b);
    v.append(&mut da);
    v.append(&mut m);
    v.append(&mut db);
    text_from_chars(&v)
}

/// The bias of a new spin: a seven bias is kept; otherwise the drawn byte decides it.
pub open spec fn start_bias(m: SlotMachineState, drawn: u8, lucky: bool) -> Option<SlotSymbol> {
    if m.bias == Some(SlotSymbol::Seven) {
        Some(SlotSymbol::Seven)
    } else {
        bias_for_roll(drawn, lucky)
    }
}

pub open spec fn start_outcome(before: Option<SlotMachineState>, after: Option<SlotMachineState>, coins_before: u16, coins_after: u16, bet: u8, lucky: bool, drawn: u8, routine: Seq<char>, r: Result<SlotMachineEvent, SpecialRoutineError>) -> bool {
    &&& (!(1 <= bet <= 3) ==> invalid_state(
            r,
            routine,
            "slot machine bet must be between 1 and 3, found "@ + decimal_digits(bet as nat),
        ) && after == before && coins_after == coins_before)
    &&& (1 <= bet <= 3 && coins_before < bet ==> invalid_state(
            r,
            routine,
            "slot machine bet "@ + decimal_digits(bet as nat) + " exceeds the current coin balance "@ + decimal_digits(
                coins_before as nat,
            ),
        ) && after == before && coins_after == coins_before)
    &&& (1 <= bet <= 3 && coins_before >= bet ==> match before {
            Some(m) if m.phase == SlotMachinePhase::Betting => if m.lucky != lucky {
                invalid_state(r, routine, "SlotMachine mode changed during one source session"@) && after
                    == before && coins_after == coins_before
            } else {
                &&& coins_after == coins_before - bet
                &&& after == Some(
                    SlotMachineState {
                        phase: SlotMachinePhase::Spinning,
                        bet,
                        bias: start_bias(m, drawn, lucky),
                        next_reel: 1,
                        matched_symbol: None,
                        payout_remaining: 0,
                        ..m
                    },
                )
                &&& r == Ok::<SlotMachineEvent, SpecialRoutineError>(
                    SlotMachineEvent::Started {
                        coins_before: coins_before,
                        bet,
                        bias: start_bias(m, drawn, lucky),
                        offsets: [m.offset0, m.offset1, m.offset2],
                        coins: (coins_before - bet) as u16,
                    },
                )
            },
            _ => invalid_state(r, routine, "SlotMachine start requires the source betting phase"@) && after
                == before && coins_after == coins_before,
        })
}

/// Placing a bet of one to three coins starts a spin: the bet is paid, the bias is set and
/// the reels wait for the first stop. A bet out of range, a bet the coins do not cover, a
/// session not at its betting prompt and a change of mode are refused in that order, with
/// nothing changed.
pub fn slot_machine_start(
    machine: &mut Option<SlotMachineState>,
    coins: &mut u16,
    bet: u8,
    lucky: bool,
    drawn: u8,
    routine: &str,
) -> (r: Result<SlotMachineEvent, SpecialRoutineError>)
    ensures
        start_outcome(*old(machine), *final(machine), *old(coins), *final(coins), bet, lucky, drawn, routine@, r),
{
    proof {
        reveal_strlit("");
    }
    if bet < 1 || bet > 3 {
        return Err(
            SpecialRoutineError::InvalidState {
                routine: copy_text(routine),
                message: message_with_number("slot machine bet must be between 1 and 3, found ", bet as u64, ""),
            },
        );
    }
    if *coins < bet as u16 {
        return Err(
            SpecialRoutineError::InvalidState {
                routine: copy_text(routine),
                message: message_with_two_numbers(
                    "slot machine bet ",
                    bet as u64,
                    " exceeds the current coin balance ",
                    *coins as u64,
                ),
            },
        );
    }
    let current: Option<SlotMachineState> = *machine;
    let m = match current {
        Some(m) => m,
        None => {
            return invalid(routine, "SlotMachine start requires the source betting phase");
        },
    };
    if m.phase != SlotMachinePhase::Betting {
        return invalid(routine, "SlotMachine start requires the source betting phase");
    }
    if m.lucky != lucky {
        return invalid(routine, "SlotMachine mode changed during one source session");
    }
    let bias = if m.bias == Some(SlotSymbol::Seven) {
        Some(SlotSymbol::Seven)
    } else {
        slot_bias_for_roll(drawn, lucky)
    };
    let coins_before = *coins;
    *coins = *coins - bet as u16;
    *machine = Some(
        SlotMachineState {
            phase: SlotMachinePhase::Spinning,
            bet,
            bias,
            next_reel: 1,
            matched_symbol: None,
            payout_remaining: 0,
            ..m
        },
    );
    Ok(
        SlotMachineEvent::Started {
            coins_before,
            bet,
            bias,
            offsets: [m.offset0, m.offset1, m.offset2],
            coins: *coins,
        },
    )
}

/// The symbol the stopped reels pay on, with the winning lines.
pub open spec fn spin_result(m: SlotMachineState) -> (Option<SlotSymbol>, Seq<Seq<char>>) {
    all_three_match(
        seq![
            window(reel(0), m.offset0 as int),
            window(reel(1), m.offset1 as int),
            window(reel(2), m.offset2 as int),
        ],
        m.bet,
        line_order(m.bet).len() as int,
    )
}

/// The payout of a result: the matched symbol's payout, or nothing.
pub open spec fn result_payout(matched: Option<SlotSymbol>) -> u16 {
    match matched {
        Some(s) => symbol_payout(s),
        None => 0,
    }
}

/// Whether a win on sevens clears the seven bias: the drawn byte, masked more tightly when
/// the bias may be kept, has a bit set.
pub open spec fn clears_seven_bias(matched: Option<SlotSymbol>, keep: bool, drawn: u8) -> bool {
    matched == Some(SlotSymbol::Seven) && (drawn & (if keep { 0x1cu8 } else { 0x14u8 })) != 0
}

pub open spec fn resolve_outcome(before: Option<SlotMachineState>, after: Option<SlotMachineState>, coins: u16, drawn: u8, routine: Seq<char>, r: Result<SlotMachineEvent, SpecialRoutineError>) -> bool {
    &&& (match before {
            None => missing_session(r, routine) && after == before,
            Some(m) => if m.phase != SlotMachinePhase::Spinning || m.next_reel != 4 {
                invalid_state(r, routine, "slot machine result requires all three reels to be stopped"@) && after == before
            } else {
                let (matched, lines) = spin_result(m);
                &&& r matches Ok(SlotMachineEvent::Result { payout, matched_symbol, winning_lines, coins: c })
                    && payout == result_payout(matched) && matched_symbol == matched && string_views(winning_lines@)
                    == lines && c == coins
                &&& after == Some(
                    SlotMachineState {
                        phase: SlotMachinePhase::Result,
                        bias: if clears_seven_bias(matched, m.keep_seven_bias_chance, drawn) {
                            None
                        } else {
                            m.bias
                        },
                        matched_symbol: matched,
                        payout_remaining: result_payout(matched),
                        ..m
                    },
                )
            },
        })
}

/// Reading the result once all three reels have stopped: the payout owed is set, and a win
/// on sevens may clear the seven bias.
pub fn slot_machine_resolve(
    machine: &mut Option<SlotMachineState>,
    coins: u16,
    drawn: u8,
    routine: &str,
) -> (r: Result<SlotMachineEvent, SpecialRoutineError>)
    ensures
        resolve_outcome(*old(machine), *final(machine), coins, drawn, routine@, r),
{
    let current: Option<SlotMachineState> = *machine;
    let m = match current {
        None => {
            return missing(routine);
        },
        Some(m) => m,
    };
    if m.phase != SlotMachinePhase::Spinning || m.next_reel != 4 {
        return invalid(routine, "slot machine result requires all three reels to be stopped");
    }
    let r0 = slot_reel(0);
    let r1 = slot_reel(1);
    let r2 = slot_reel(2);
    let w = [
        slot_window(&r0, m.offset0 as usize),
        slot_window(&r1, m.offset1 as usize),
        slot_window(&r2, m.offset2 as usize),
    ];
    let (matched, lines) = slot_check_all_three(&w, m.bet);
    proof {
        assert(seq![w@[0]@, w@[1]@, w@[2]@] =~= seq![
            window(reel(0), m.offset0 as int),
            window(reel(1), m.offset1 as int),
            window(reel(2), m.offset2 as int),
        ]);
    }
    let payout = match matched {
        Some(s) => slot_symbol_payout(s),
        None => 0,
    };
    let clear = matched == Some(SlotSymbol::Seven) && (drawn & (if m.keep_seven_bias_chance { 0x1cu8 } else { 0x14u8 }))
        != 0;
    *machine = Some(
        SlotMachineState {
            phase: SlotMachinePhase::Result,
            bias: if clear { None } else { m.bias },
            matched_symbol: matched,
            payout_remaining: payout,
            ..m
        },
    );
    Ok(SlotMachineEvent::Result { payout, matched_symbol: matched, winning_lines: lines, coins })
}

pub open spec fn payout_outcome(before: Option<SlotMachineState>, after: Option<SlotMachineState>, coins_before: u16, coins_after: u16, routine: Seq<char>, r: Result<SlotMachineEvent, SpecialRoutineError>) -> bool {
    &&& (match before {
            None => missing_session(r, routine) && after == before && coins_after == coins_before,
            Some(m) => if m.phase != SlotMachinePhase::Result || m.payout_remaining == 0 {
                invalid_state(r, routine, "slot machine payout frame requires a positive result payout"@) && after == before && coins_after == coins_before
            } else {
                &&& coins_after == coin_added(coins_before)
                &&& after == Some(SlotMachineState { payout_remaining: (m.payout_remaining - 1) as u16, ..m })
                &&& r == Ok::<SlotMachineEvent, SpecialRoutineError>(
                    SlotMachineEvent::Payout {
                        coins_before: coins_before,
                        payout_remaining: (m.payout_remaining - 1) as u16,
                        coins: coin_added(coins_before),
                    },
                )
            },
        })
}

/// One frame of paying out a result: one coin more, capped at the Coin Case's limit, and one
/// coin less owed. Only a result with coins still owed pays.
pub fn slot_machine_payout_frame(machine: &mut Option<SlotMachineState>, coins: &mut u16, routine: &str) -> (r: Result<
    SlotMachineEvent,
    SpecialRoutineError,
>)
    ensures
        payout_outcome(*old(machine), *final(machine), *old(coins), *final(coins), routine@, r),
{
    let current: Option<SlotMachineState> = *machine;
    let m = match current {
        None => {
            return missing(routine);
        },
        Some(m) => m,
    };
    if m.phase != SlotMachinePhase::Result || m.payout_remaining == 0 {
        return invalid(routine, "slot machine payout frame requires a positive result payout");
    }
    let coins_before = *coins;
    let remaining = m.payout_remaining - 1;
    *machine = Some(SlotMachineState { payout_remaining: remaining, ..m });
    *coins = if *coins >= GAME_CORNER_MAX_COINS {
        GAME_CORNER_MAX_COINS
    } else {
        *coins + 1
    };
    Ok(SlotMachineEvent::Payout { coins_before, payout_remaining: remaining, coins: *coins })
}

pub open spec fn acknowledge_outcome(before: Option<SlotMachineState>, after: Option<SlotMachineState>, coins: u16, routine: Seq<char>, r: Result<SlotMachineEvent, SpecialRoutineError>) -> bool {
    &&& (match before {
            None => missing_session(r, routine) && after == before,
            Some(m) => if m.phase != SlotMachinePhase::Result || m.payout_remaining != 0 {
                invalid_state(r, routine, "slot machine result cannot be acknowledged before payout completes"@)
                    && after == before
            } else {
                &&& after == Some(
                    SlotMachineState {
                        phase: if coins != 0 {
                            SlotMachinePhase::PlayAgain
                        } else {
                            SlotMachinePhase::Quit
                        },
                        ..m
                    },
                )
                &&& r == Ok::<SlotMachineEvent, SpecialRoutineError>(
                    SlotMachineEvent::ResultAcknowledged { can_play_again: coins != 0, coins },
                )
            },
        })
}

/// Acknowledging a fully paid result offers another game while the player has coins, and
/// ends the session otherwise.
pub fn slot_machine_acknowledge(machine: &mut Option<SlotMachineState>, coins: u16, routine: &str) -> (r: Result<
    SlotMachineEvent,
    SpecialRoutineError,
>)
    ensures
        acknowledge_outcome(*old(machine), *final(machine), coins, routine@, r),
{
    let current: Option<SlotMachineState> = *machine;
    let m = match current {
        None => {
            return missing(routine);
        },
        Some(m) => m,
    };
    if m.phase != SlotMachinePhase::Result || m.payout_remaining != 0 {
        return invalid(routine, "slot machine result cannot be acknowledged before payout completes");
    }
    let can_play_again = coins != 0;
    *machine = Some(
        SlotMachineState {
            phase: if can_play_again {
                SlotMachinePhase::PlayAgain
            } else {
                SlotMachinePhase::Quit
            },
            ..m
        },
    );
    Ok(SlotMachineEvent::ResultAcknowledged { can_play_again, coins })
}

pub open spec fn continue_outcome(before: Option<SlotMachineState>, after: Option<SlotMachineState>, coins: u16, routine: Seq<char>, r: Result<SlotMachineEvent, SpecialRoutineError>) -> bool {
    &&& (match before {
            None => missing_session(r, routine) && after == before,
            Some(m) => if m.phase != SlotMachinePhase::PlayAgain {
                invalid_state(r, routine, "SlotMachine continue requires the Play Again prompt"@) && after
                    == before
            } else {
                &&& after == Some(
                    SlotMachineState { phase: SlotMachinePhase::Betting, matched_symbol: None, ..m },
                )
                &&& r == Ok::<SlotMachineEvent, SpecialRoutineError>(SlotMachineEvent::ReplayAccepted { coins })
            },
        })
}

/// Playing again from the Play Again prompt returns to betting and forgets the last match.
pub fn slot_machine_continue(machine: &mut Option<SlotMachineState>, coins: u16, routine: &str) -> (r: Result<
    SlotMachineEvent,
    SpecialRoutineError,
>)
    ensures
        continue_outcome(*old(machine), *final(machine), coins, routine@, r),
{
    let current: Option<SlotMachineState> = *machine;
    let m = match current {
        None => {
            return missing(routine);
        },
        Some(m) => m,
    };
    if m.phase != SlotMachinePhase::PlayAgain {
        return invalid(routine, "SlotMachine continue requires the Play Again prompt");
    }
    *machine = Some(SlotMachineState { phase: SlotMachinePhase::Betting, matched_symbol: None, ..m });
    Ok(SlotMachineEvent::ReplayAccepted { coins })
}

pub open spec fn quit_outcome(before: Option<SlotMachineState>, after: Option<SlotMachineState>, coins: u16, routine: Seq<char>, r: Result<SlotMachineEvent, SpecialRoutineError>) -> bool {
    &&& (match before {
            None => missing_session(r, routine) && after == before,
            Some(m) => if m.phase != SlotMachinePhase::Betting && m.phase != SlotMachinePhase::PlayAgain && m.phase
                != SlotMachinePhase::Quit {
                invalid_state(r, routine, "SlotMachine quit is invalid during phase "@ + phase_name(m.phase))
                    && after == before
            } else {
                &&& after == Some(SlotMachineState { phase: SlotMachinePhase::Quit, ..m })
                &&& r == Ok::<SlotMachineEvent, SpecialRoutineError>(SlotMachineEvent::Exited { coins })
            },
        })
}

/// Leaving is allowed at the betting prompt, at the Play Again prompt, or once left.
pub fn slot_machine_quit(machine: &mut Option<SlotMachineState>, coins: u16, routine: &str) -> (r: Result<
    SlotMachineEvent,
    SpecialRoutineError,
>)
    ensures
        quit_outcome(*old(machine), *final(machine), coins, routine@, r),
{
    let current: Option<SlotMachineState> = *machine;
    let m = match current {
        None => {
            return missing(routine);
        },
        Some(m) => m,
    };
    if m.phase != SlotMachinePhase::Betting && m.phase != SlotMachinePhase::PlayAgain && m.phase != SlotMachinePhase::Quit {
        proof {
            reveal_strlit("");
        }
        let message = message_with_text("SlotMachine quit is invalid during phase ", slot_phase_name(m.phase), "");
        proof {
            assert(message@ =~= "SlotMachine quit is invalid during phase "@ + phase_name(m.phase));
        }
        return Err(SpecialRoutineError::InvalidState { routine: copy_text(routine), message });
    }
    *machine = Some(SlotMachineState { phase: SlotMachinePhase::Quit, ..m });
    Ok(SlotMachineEvent::Exited { coins })
}

/// Why a reel stop failed: the session refused it, or the random source failed.
#[derive(Debug, PartialEq, Eq)]
pub enum SlotStopError {
    Routine(SpecialRoutineError),
    Divider(String),
}

pub open spec fn stop_invalid(r: Result<SlotMachineEvent, SlotStopError>, routine: Seq<char>, message: Seq<char>) -> bool {
    r matches Err(SlotStopError::Routine(SpecialRoutineError::InvalidState { routine: rr, message: m })) && rr@ == routine
        && m@ == message
}


pub open spec fn stop_offsets(offsets: [u8; 3]) -> Seq<usize> {
    seq![offsets[0] as usize, offsets[1] as usize, offsets[2] as usize]
}

/// How the second reel may stop from `o`: a skip to sevens, or its plain stop.
pub open spec fn reel2_stopped(o: Seq<usize>, bias: Option<SlotSymbol>, bet: u8, after: Seq<usize>, res: SlotStopResolution) -> bool {
    &&& res.animation_start_offset == o[1]
    &&& res.animation_count == 0
    &&& (res.mode == SlotStopMode::SkipToSeven && reel2_may_skip(o, bias, bet) && skip_to_seven(o, bet) == Some(after))
        || (res.mode == SlotStopMode::Normal && after == o.update(1, reel2_stop(o[0] as int, o[1] as int, bias, bet, 4) as usize))
}

/// The session after a reel stops at `after`.
pub open spec fn after_stop(m: SlotMachineState, reel: u8, after: Seq<usize>) -> SlotMachineState {
    SlotMachineState {
        offset0: after[0] as u8,
        offset1: after[1] as u8,
        offset2: after[2] as u8,
        next_reel: (reel + 1) as u8,
        ..m
    }
}

pub open spec fn stopped_event(r: Result<SlotMachineEvent, SlotStopError>, reel: u8, after: Seq<usize>, res: SlotStopResolution, coins: u16) -> bool {
    r matches Ok(SlotMachineEvent::ReelStopped { reel: rl, mode, animation_start_offset, animation_count, offsets, coins: c })
        && rl == reel && mode == res.mode && animation_start_offset == res.animation_start_offset && animation_count
        == res.animation_count && offsets@ == after && c == coins
}

pub open spec fn stop_outcome(before: Option<SlotMachineState>, after: Option<SlotMachineState>, coins: u16, reel: u8, offsets: [u8; 3], third_reel_roll: u8, golem_stride: u8, routine: Seq<char>, r: Result<SlotMachineEvent, SlotStopError>) -> bool {
    &&& (!(offsets[0] < 15 && offsets[1] < 15 && offsets[2] < 15) ==> stop_invalid(
            r,
            routine,
            "SlotMachine stop offsets are outside the source reels"@,
        ) && after == before)
    &&& ((offsets[0] < 15 && offsets[1] < 15 && offsets[2] < 15) ==> match before {
            None => (r matches Err(SlotStopError::Routine(SpecialRoutineError::MissingScriptValue { routine: rr, variable: v }))
                && rr@ == routine && v@ == "slot_machine"@) && after == before,
            Some(m) => if m.phase != SlotMachinePhase::Spinning || reel != m.next_reel || !(1 <= reel <= 3) {
                stop_invalid(
                    r,
                    routine,
                    "slot machine reel must be the next reel "@ + decimal_digits(m.next_reel as nat) + ", found "@
                        + decimal_digits(reel as nat),
                ) && after == before
            } else if reel == 1 {
                let o = stop_offsets(offsets);
                let stopped = o.update(0, reel1_stop(o[0] as int, m.bias, 4) as usize);
                let res = SlotStopResolution { mode: SlotStopMode::Normal, animation_start_offset: o[0], animation_count: 0 };
                stopped_event(r, reel, stopped, res, coins) && after == Some(after_stop(m, reel, stopped))
            } else if reel == 2 {
                let o = stop_offsets(offsets);
                match r {
                    Err(e) => e is Divider && reel2_may_skip(o, m.bias, m.bet) && after == before,
                    Ok(SlotMachineEvent::ReelStopped { reel: rl, mode, animation_start_offset, animation_count, offsets: landed, coins: c }) => {
                        &&& rl == reel && c == coins
                        &&& reel2_stopped(
                            o,
                            m.bias,
                            m.bet,
                            landed@,
                            SlotStopResolution { mode, animation_start_offset, animation_count },
                        )
                        &&& after == Some(after_stop(m, reel, landed@))
                    },
                    _ => false,
                }
            } else {
                let o = stop_offsets(offsets);
                let (stopped, res) = reel3_stop_result(o, m.bias, m.bet, third_reel_roll, golem_stride);
                stopped_event(r, reel, stopped, res, coins) && after == Some(after_stop(m, reel, stopped))
            },
        })
}

/// Stopping the next reel at the positions the player stopped them: the first reel slips to
/// its bias, the second may skip to sevens (drawing from the random source) or slips to line
/// up the bias, and the third stops as `third_reel_roll` chooses, a Golem without a seven
/// bias bumping it by `golem_stride`. The positions must lie on the reels and the reel must
/// be the next one of a spinning machine.
pub fn slot_machine_stop_reel<S: DividerSource>(
    machine: &mut Option<SlotMachineState>,
    coins: u16,
    reel: u8,
    offsets: [u8; 3],
    rng: &mut S,
    third_reel_roll: u8,
    golem_stride: u8,
    routine: &str,
) -> (r: Result<SlotMachineEvent, SlotStopError>)
    requires
        (reel == 3 && offsets[0] < 15 && offsets[1] < 15 && offsets[2] < 15 && (*old(machine) matches Some(m)
            && m.phase == SlotMachinePhase::Spinning && m.next_reel == 3)) ==> reel3_settles(
            stop_offsets(offsets),
            (*old(machine))->0.bias,
            (*old(machine))->0.bet,
            third_reel_roll,
            golem_stride,
        ),
    ensures
        stop_outcome(*old(machine), *final(machine), coins, reel, offsets, third_reel_roll, golem_stride, routine@, r),
{
    if offsets[0] >= 15 || offsets[1] >= 15 || offsets[2] >= 15 {
        return Err(
            SlotStopError::Routine(
                SpecialRoutineError::InvalidState {
                    routine: copy_text(routine),
                    message: copy_text("SlotMachine stop offsets are outside the source reels"),
                },
            ),
        );
    }
    let current: Option<SlotMachineState> = *machine;
    let m = match current {
        None => {
            return Err(
                SlotStopError::Routine(
                    SpecialRoutineError::MissingScriptValue {
                        routine: copy_text(routine),
                        variable: copy_text("slot_machine"),
                    },
                ),
            );
        },
        Some(m) => m,
    };
    if m.phase != SlotMachinePhase::Spinning || reel != m.next_reel || reel < 1 || reel > 3 {
        let message = message_with_two_numbers(
            "slot machine reel must be the next reel ",
            m.next_reel as u64,
            ", found ",
            reel as u64,
        );
        return Err(SlotStopError::Routine(SpecialRoutineError::InvalidState { routine: copy_text(routine), message }));
    }
    let mut resolved: [usize; 3] = [offsets[0] as usize, offsets[1] as usize, offsets[2] as usize];
    proof {
        assert(resolved@ =~= stop_offsets(offsets));
    }
    let resolution = if reel == 1 {
        let animation_start_offset = resolved[0];
        resolved[0] = slot_stop_reel1(resolved[0], m.bias);
        SlotStopResolution { mode: SlotStopMode::Normal, animation_start_offset, animation_count: 0 }
    } else if reel == 2 {
        match slot_stop_reel2(&mut resolved, m.bias, m.bet, rng) {
            Ok(res) => res,
            Err(e) => {
                return Err(SlotStopError::Divider(e));
            },
        }
    } else {
        slot_stop_reel3(&mut resolved, m.bias, m.bet, third_reel_roll, golem_stride)
    };
    proof {
        assert(resolved@[0] < 15 && resolved@[1] < 15 && resolved@[2] < 15) by {
            if reel == 1 {
                lemma_reel1_stop_on_reel(offsets[0] as int, m.bias, 4);
            }
        }
    }
    *machine = Some(
        SlotMachineState {
            offset0: resolved[0] as u8,
            offset1: resolved[1] as u8,
            offset2: resolved[2] as u8,
            next_reel: reel + 1,
            ..m
        },
    );
    Ok(
        SlotMachineEvent::ReelStopped {
            reel,
            mode: resolution.mode,
            animation_start_offset: resolution.animation_start_offset,
            animation_count: resolution.animation_count,
            offsets: resolved,
            coins,
        },
    )
}

proof fn lemma_reel1_stop_on_reel(offset: int, bias: Option<SlotSymbol>, counter: nat)
    requires
        0 <= offset < 15,
    ensures
        0 <= reel1_stop(offset, bias, counter) < 15,
    decreases counter,
{
    match bias {
        None => {},
        Some(b) => {
            if counter > 0 {
                lemma_reel1_stop_on_reel((offset + 1) % 15, bias, (counter - 1) as nat);
            }
        },
    }
}

/// What the player does at the cabinet.
#[derive(Clone, Copy, Debug, PartialEq, Eq)]
pub enum SlotMachineInput {
    Enter { lucky: bool },
    Start { bet: u8, lucky: bool },
    StopReel { reel: u8, offsets: [u8; 3] },
    ResolveResult,
    PayoutFrame,
    AcknowledgeResult,
    Continue,
    Quit,
}

/// The bytes drawn from the random source for a step: on entry, for a new bias, when a win
/// on sevens may clear the bias, to choose how the third reel stops, and the Golem's stride.
#[derive(Clone, Copy, Debug, PartialEq, Eq, Structural)]
pub struct SlotMachineDraws {
    pub enter: u8,
    pub bias: u8,
    pub resolve: u8,
    pub third_reel_roll: u8,
    pub golem_stride: u8,
}

/// What the cabinet reports: the game turned the player away, or a step's report.
#[derive(Debug, PartialEq, Eq)]
pub enum SlotMachineServiceOutcome {
    Unavailable { reason: GameCornerUnavailableReason },
    Event { event: SlotMachineEvent },
}

/// The cabinet's result `r2` is the step's result `r`.
pub open spec fn lifted(r2: Result<SlotMachineServiceOutcome, SlotStopError>, r: Result<SlotMachineEvent, SpecialRoutineError>) -> bool {
    match r {
        Ok(e) => r2 == Ok::<SlotMachineServiceOutcome, SlotStopError>(SlotMachineServiceOutcome::Event { event: e }),
        Err(e) => r2 == Err::<SlotMachineServiceOutcome, SlotStopError>(SlotStopError::Routine(e)),
    }
}

pub open spec fn stop_lifted(r2: Result<SlotMachineServiceOutcome, SlotStopError>, r: Result<SlotMachineEvent, SlotStopError>) -> bool {
    match r {
        Ok(e) => r2 == Ok::<SlotMachineServiceOutcome, SlotStopError>(SlotMachineServiceOutcome::Event { event: e }),
        Err(e) => r2 == Err::<SlotMachineServiceOutcome, SlotStopError>(e),
    }
}

/// Whether the player is entering the cabinet.
pub open spec fn entering(input: Option<SlotMachineInput>) -> bool {
    input matches Some(SlotMachineInput::Enter { .. })
}

/// The slot machine: the pack must define the Coin Case, and a player entering without coins
/// or without a Coin Case is turned away, in that order, with nothing changed. Otherwise the
/// pending input is carried out by its step, with the drawn bytes it needs.
pub fn slot_machine<S: DividerSource>(
    item_catalog: &TextMap<Item>,
    bag: &Bag,
    coins: &mut u16,
    machine: &mut Option<SlotMachineState>,
    input: Option<SlotMachineInput>,
    rng: &mut S,
    draws: SlotMachineDraws,
    routine: &str,
) -> (r: Result<SlotMachineServiceOutcome, SlotStopError>)
    requires
        match input {
            Some(SlotMachineInput::StopReel { reel, offsets }) => (reel == 3 && offsets[0] < 15 && offsets[1] < 15
                && offsets[2] < 15 && (*old(machine) matches Some(m) && m.phase == SlotMachinePhase::Spinning
                && m.next_reel == 3)) ==> reel3_settles(
                stop_offsets(offsets),
                (*old(machine))->0.bias,
                (*old(machine))->0.bet,
                draws.third_reel_roll,
                draws.golem_stride,
            ),
            _ => true,
        },
    ensures
        !item_catalog.view().contains_key("COIN_CASE"@) ==> (r matches Err(
            SlotStopError::Routine(SpecialRoutineError::UnknownItem { routine: rr, item_id: i }),
        ) && rr@ == routine@ && i@ == "COIN_CASE"@) && *final(machine) == *old(machine) && *final(coins) == *old(
            coins,
        ),
        item_catalog.view().contains_key("COIN_CASE"@) && entering(input) && *old(coins) == 0 ==> r == Ok::<
            SlotMachineServiceOutcome,
            SlotStopError,
        >(SlotMachineServiceOutcome::Unavailable { reason: GameCornerUnavailableReason::NoCoins }) && *final(machine)
            == *old(machine) && *final(coins) == *old(coins),
        item_catalog.view().contains_key("COIN_CASE"@) && entering(input) && *old(coins) != 0 && bag.qty(
            item_catalog.view()["COIN_CASE"@].pocket@,
            item_catalog.view()["COIN_CASE"@].script_name@,
        ) == 0 ==> r == Ok::<SlotMachineServiceOutcome, SlotStopError>(
            SlotMachineServiceOutcome::Unavailable { reason: GameCornerUnavailableReason::MissingCoinCase },
        ) && *final(machine) == *old(machine) && *final(coins) == *old(coins),
        item_catalog.view().contains_key("COIN_CASE"@) && !(entering(input) && (*old(coins) == 0 || bag.qty(
            item_catalog.view()["COIN_CASE"@].pocket@,
            item_catalog.view()["COIN_CASE"@].script_name@,
        ) == 0)) ==> match input {
            None => (r matches Err(
                SlotStopError::Routine(SpecialRoutineError::MissingScriptValue { routine: rr, variable: v }),
            ) && rr@ == routine@ && v@ == "pending_slot_machine_input"@) && *final(machine) == *old(machine)
                && *final(coins) == *old(coins),
            Some(SlotMachineInput::Enter { lucky }) => (exists|x: Result<SlotMachineEvent, SpecialRoutineError>|
                lifted(r, x) && enter_outcome(*old(machine), *final(machine), *old(coins), lucky, draws.enter, routine@, x))
                && *final(coins) == *old(coins),
            Some(SlotMachineInput::Start { bet, lucky }) => exists|x: Result<SlotMachineEvent, SpecialRoutineError>|
                lifted(r, x) && start_outcome(
                    *old(machine),
                    *final(machine),
                    *old(coins),
                    *final(coins),
                    bet,
                    lucky,
                    draws.bias,
                    routine@,
                    x,
                ),
            Some(SlotMachineInput::StopReel { reel, offsets }) => (exists|x: Result<SlotMachineEvent, SlotStopError>|
                stop_lifted(r, x) && stop_outcome(
                    *old(machine),
                    *final(machine),
                    *old(coins),
                    reel,
                    offsets,
                    draws.third_reel_roll,
                    draws.golem_stride,
                    routine@,
                    x,
                )) && *final(coins) == *old(coins),
            Some(SlotMachineInput::ResolveResult) => (exists|x: Result<SlotMachineEvent, SpecialRoutineError>|
                lifted(r, x) && resolve_outcome(*old(machine), *final(machine), *old(coins), draws.resolve, routine@, x))
                && *final(coins) == *old(coins),
            Some(SlotMachineInput::PayoutFrame) => exists|x: Result<SlotMachineEvent, SpecialRoutineError>|
                lifted(r, x) && payout_outcome(*old(machine), *final(machine), *old(coins), *final(coins), routine@, x),
            Some(SlotMachineInput::AcknowledgeResult) => (exists|x: Result<SlotMachineEvent, SpecialRoutineError>|
                lifted(r, x) && acknowledge_outcome(*old(machine), *final(machine), *old(coins), routine@, x))
                && *final(coins) == *old(coins),
            Some(SlotMachineInput::Continue) => (exists|x: Result<SlotMachineEvent, SpecialRoutineError>|
                lifted(r, x) && continue_outcome(*old(machine), *final(machine), *old(coins), routine@, x))
                && *final(coins) == *old(coins),
            Some(SlotMachineInput::Quit) => (exists|x: Result<SlotMachineEvent, SpecialRoutineError>|
                lifted(r, x) && quit_outcome(*old(machine), *final(machine), *old(coins), routine@, x))
                && *final(coins) == *old(coins),
        },
{
    let is_entering = match input {
        Some(SlotMachineInput::Enter { .. }) => true,
        _ => false,
    };
    match game_corner_entry_refusal(item_catalog, bag, *coins, is_entering, routine) {
        Err(e) => {
            return Err(SlotStopError::Routine(e));
        },
        Ok(Some(reason)) => {
            return Ok(SlotMachineServiceOutcome::Unavailable { reason });
        },
        Ok(None) => {},
    }
    let step = match input {
        None => {
            return Err(
                SlotStopError::Routine(
                    SpecialRoutineError::MissingScriptValue {
                        routine: copy_text(routine),
                        variable: copy_text("pending_slot_machine_input"),
                    },
                ),
            );
        },
        Some(i) => i,
    };
    let result = match step {
        SlotMachineInput::Enter { lucky } => slot_machine_enter(machine, *coins, lucky, draws.enter, routine),
        SlotMachineInput::Start { bet, lucky } => slot_machine_start(machine, coins, bet, lucky, draws.bias, routine),
        SlotMachineInput::StopReel { reel, offsets } => {
            let stopped = slot_machine_stop_reel(
                machine,
                *coins,
                reel,
                offsets,
                rng,
                draws.third_reel_roll,
                draws.golem_stride,
                routine,
            );
            let ghost stop_result = stopped;
            let out = match stopped {
                Ok(event) => Ok(SlotMachineServiceOutcome::Event { event }),
                Err(e) => Err(e),
            };
            proof {
                assert(stop_lifted(out, stop_result));
            }
            return out;
        },
        SlotMachineInput::ResolveResult => slot_machine_resolve(machine, *coins, draws.resolve, routine),
        SlotMachineInput::PayoutFrame => slot_machine_payout_frame(machine, coins, routine),
        SlotMachineInput::AcknowledgeResult => slot_machine_acknowledge(machine, *coins, routine),
        SlotMachineInput::Continue => slot_machine_continue(machine, *coins, routine),
        SlotMachineInput::Quit => slot_machine_quit(machine, *coins, routine),
    };
    let ghost step_result = result;
    let lifted_result = match result {
        Ok(event) => Ok(SlotMachineServiceOutcome::Event { event }),
        Err(e) => Err(SlotStopError::Routine(e)),
    };
    proof {
        assert(lifted(lifted_result, step_result));
    }
    lifted_result
}

} // verus!
