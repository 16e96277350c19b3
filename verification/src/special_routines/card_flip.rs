//! The Game Corner card-flip game as a session: paying the stake, turning a card over and
//! paying the bet on it coin by coin, reshuffling after twelve rounds, and leaving. A step
//! that shuffles takes the shuffled deck it draws as an argument.
use vstd::prelude::*;
use crate::items::{Bag, Item};
use crate::ordered::TextMap;
use crate::special_routines::errors::SpecialRoutineError;
use crate::special_routines::game_corner::{game_corner_entry_refusal, GameCornerUnavailableReason};
use crate::special_routines::game_corner::{card_flip_identity, card_flip_payout, card_payout, card_species};
use crate::special_routines::slot_machine::{coin_added, GAME_CORNER_MAX_COINS};
use crate::text::{copy_text, decimal_digits, message_with_text, text_chars, decimal_chars, text_from_chars};

verus! {

/// Where a card-flip session stands.
#[derive(Clone, Copy, Debug, PartialEq, Eq, Structural)]
pub enum CardFlipPhase {
    ChooseCard,
    Result,
    PlayAgain,
    Shuffled,
    Quit,
}

pub open spec fn card_phase_name(p: CardFlipPhase) -> Seq<char> {
    match p {
        CardFlipPhase::ChooseCard => "ChooseCard"@,
        CardFlipPhase::Result => "Result"@,
        CardFlipPhase::PlayAgain => "PlayAgain"@,
        CardFlipPhase::Shuffled => "Shuffled"@,
        CardFlipPhase::Quit => "Quit"@,
    }
}

fn card_flip_phase_name(p: CardFlipPhase) -> (s: &'static str)
    ensures
        s@ == card_phase_name(p),
{
    match p {
        CardFlipPhase::ChooseCard => "ChooseCard",
        CardFlipPhase::Result => "Result",
        CardFlipPhase::PlayAgain => "PlayAgain",
        CardFlipPhase::Shuffled => "Shuffled",
        CardFlipPhase::Quit => "Quit",
    }
}

/// A card-flip session: the deck (card faces in play order), which faces have been turned,
/// the phase, the rounds played since the shuffle, the last choice, and the payout owed.
#[derive(Debug, PartialEq, Eq)]
pub struct CardFlipState {
    pub deck: Vec<u8>,
    pub discard_pile: Vec<bool>,
    pub phase: CardFlipPhase,
    pub num_cards_played: u8,
    pub which_card: u8,
    pub cursor_x: u8,
    pub cursor_y: u8,
    pub face_up_card: Option<u8>,
    pub payout_remaining: u16,
}

/// A session whose deck and discard pile hold the 24 faces and which has rounds left.
pub open spec fn card_flip_wf(g: CardFlipState) -> bool {
    &&& g.deck@.len() == 24
    &&& g.discard_pile@.len() == 24
    &&& g.num_cards_played < 12
    &&& forall|i: int| 0 <= i < 24 ==> #[trigger] g.deck@[i] < 24
}

/// Why a card-flip step stopped short of play.
#[derive(Clone, Copy, Debug, PartialEq, Eq, Structural)]
pub enum CardFlipShortfall {
    InsufficientStake,
}

/// What a step reports.
#[derive(Debug, PartialEq, Eq)]
pub enum CardFlipEvent {
    Started { coins_before: u16, deck: Vec<u8>, revealed: Vec<bool>, coins: u16 },
    Unavailable { reason: CardFlipShortfall },
    Shuffled { deck: Vec<u8>, revealed: Vec<bool>, coins: u16 },
    Revealed {
        coins_before: u16,
        card_index: usize,
        card_name: String,
        card_level: u8,
        payout: u16,
        deck: Vec<u8>,
        revealed: Vec<bool>,
        coins: u16,
    },
    Payout { coins_before: u16, payout_remaining: u16, coins: u16 },
    ResultAcknowledged { coins: u16 },
    Exited { coins: u16 },
}

pub open spec fn card_invalid(r: Result<CardFlipEvent, SpecialRoutineError>, routine: Seq<char>, message: Seq<char>) -> bool {
    r matches Err(SpecialRoutineError::InvalidState { routine: rr, message: m }) && rr@ == routine && m@ == message
}

pub open spec fn no_session_message() -> Seq<char> {
    "CardFlip has no active WRAM state"@
}

fn card_error(routine: &str, message: &str) -> (r: Result<CardFlipEvent, SpecialRoutineError>)
    ensures
        card_invalid(r, routine@, message@),
{
    Err(SpecialRoutineError::InvalidState { routine: copy_text(routine), message: copy_text(message) })
}

fn phase_error(routine: &str, prefix: &str, phase: CardFlipPhase) -> (r: Result<CardFlipEvent, SpecialRoutineError>)
    ensures
        card_invalid(r, routine@, prefix@ + card_phase_name(phase)),
{
    proof {
        reveal_strlit("");
    }
    let message = message_with_text(prefix, card_flip_phase_name(phase), "");
    proof {
        assert(message@ =~= prefix@ + card_phase_name(phase));
    }
    Err(SpecialRoutineError::InvalidState { routine: copy_text(routine), message })
}

fn copy_bytes(v: &Vec<u8>) -> (r: Vec<u8>)
    ensures
        r@ == v@,
{
    let mut r: Vec<u8> = Vec::new();
    let mut i: usize = 0;
    while i < v.len()
        invariant
            i <= v@.len(),
            r@ == v@.take(i as int),
        decreases v.len() - i,
    {
        r.push(v[i]);
        proof {
            assert(v@.take(i + 1) =~= v@.take(i as int).push(v@[i as int]));
        }
        i += 1;
    }
    proof {
        assert(v@.take(v@.len() as int) =~= v@);
    }
    r
}

fn copy_flags(v: &Vec<bool>) -> (r: Vec<bool>)
    ensures
        r@ == v@,
{
    let mut r: Vec<bool> = Vec::new();
    let mut i: usize = 0;
    while i < v.len()
        invariant
            i <= v@.len(),
            r@ == v@.take(i as int),
        decreases v.len() - i,
    {
        r.push(v[i]);
        proof {
            assert(v@.take(i + 1) =~= v@.take(i as int).push(v@[i as int]));
        }
        i += 1;
    }
    proof {
        assert(v@.take(v@.len() as int) =~= v@);
    }
    r
}

/// The stake of a round: with fewer than three coins the session ends and the game is
/// unavailable; otherwise three coins are paid and a card may be chosen.
pub open spec fn stake_taken(
    before: CardFlipState,
    after: Option<CardFlipState>,
    coins_before: u16,
    coins: u16,
    coins_after: u16,
    r: Result<CardFlipEvent, SpecialRoutineError>,
) -> bool {
    if coins < 3 {
        &&& after == Some(CardFlipState { phase: CardFlipPhase::Quit, ..before })
        &&& coins_after == coins
        &&& r == Ok::<CardFlipEvent, SpecialRoutineError>(
            CardFlipEvent::Unavailable { reason: CardFlipShortfall::InsufficientStake },
        )
    } else {
        &&& after == Some(CardFlipState { phase: CardFlipPhase::ChooseCard, payout_remaining: 0, ..before })
        &&& coins_after == coins - 3
        &&& r matches Ok(CardFlipEvent::Started { coins_before: cb, deck, revealed, coins: c }) && cb == coins_before
            && deck@ == before.deck@ && revealed@ == before.discard_pile@ && c == coins - 3
    }
}

fn take_stake(game: &mut Option<CardFlipState>, coins: &mut u16, coins_before: u16) -> (r: Result<
    CardFlipEvent,
    SpecialRoutineError,
>)
    requires
        *old(game) is Some,
    ensures
        stake_taken((*old(game))->0, *final(game), coins_before, *old(coins), *final(coins), r),
{
    if *coins < 3 {
        if let Some(g) = game {
            g.phase = CardFlipPhase::Quit;
        }
        return Ok(CardFlipEvent::Unavailable { reason: CardFlipShortfall::InsufficientStake });
    }
    *coins = *coins - 3;
    let mut deck: Vec<u8> = Vec::new();
    let mut revealed: Vec<bool> = Vec::new();
    if let Some(g) = game {
        g.phase = CardFlipPhase::ChooseCard;
        g.payout_remaining = 0;
        deck = copy_bytes(&g.deck);
        revealed = copy_flags(&g.discard_pile);
    }
    Ok(CardFlipEvent::Started { coins_before, deck, revealed, coins: *coins })
}

/// A fresh session on the shuffled deck: nothing turned, the cursor in the middle.
pub open spec fn fresh_session(g: CardFlipState, deck: Seq<u8>) -> bool {
    &&& g.deck@ == deck
    &&& g.discard_pile@ == Seq::new(24, |i: int| false)
    &&& g.phase == CardFlipPhase::ChooseCard
    &&& g.num_cards_played == 0
    &&& g.which_card == 0
    &&& g.cursor_x == 2
    &&& g.cursor_y == 2
    &&& g.face_up_card is None
    &&& g.payout_remaining == 0
}

pub open spec fn card_start_outcome(before: Option<CardFlipState>, after: Option<CardFlipState>, coins_before: u16, coins_after: u16, shuffled: Seq<u8>, routine: Seq<char>, r: Result<CardFlipEvent, SpecialRoutineError>) -> bool {
    &&& (match before {
            Some(g) if g.phase != CardFlipPhase::Quit => card_invalid(r, routine, "CardFlip start is only valid on entry"@)
                && after == before && coins_after == coins_before,
            _ => exists|fresh: CardFlipState|
                fresh_session(fresh, shuffled) && stake_taken(fresh, after, coins_before, coins_before, coins_after, r),
        })
}

/// Starting the game opens a session on the shuffled deck and takes the stake of the first
/// round. A session still open refuses it.
pub fn card_flip_start(game: &mut Option<CardFlipState>, coins: &mut u16, shuffled: Vec<u8>, routine: &str) -> (r: Result<
    CardFlipEvent,
    SpecialRoutineError,
>)
    ensures
        card_start_outcome(*old(game), *final(game), *old(coins), *final(coins), shuffled@, routine@, r),
{
    let open = match game {
        Some(g) => g.phase != CardFlipPhase::Quit,
        None => false,
    };
    if open {
        return card_error(routine, "CardFlip start is only valid on entry");
    }
    let ghost shuffled_view = shuffled@;
    let fresh = CardFlipState {
        deck: shuffled,
        discard_pile: vec![false, false, false, false, false, false, false, false, false, false, false, false,
            false, false, false, false, false, false, false, false, false, false, false, false],
        phase: CardFlipPhase::ChooseCard,
        num_cards_played: 0,
        which_card: 0,
        cursor_x: 2,
        cursor_y: 2,
        face_up_card: None,
        payout_remaining: 0,
    };
    proof {
        assert(fresh.discard_pile@ =~= Seq::new(24, |i: int| false));
    }
    let ghost fresh_ghost = fresh;
    proof {
        assert(fresh_session(fresh_ghost, shuffled_view));
    }
    *game = Some(fresh);
    let coins_before = *coins;
    let r = take_stake(game, coins, coins_before);
    proof {
        assert(stake_taken(fresh_ghost, *game, coins_before, coins_before, *coins, r));
    }
    r
}

pub open spec fn card_continue_outcome(before: Option<CardFlipState>, after: Option<CardFlipState>, coins_before: u16, coins_after: u16, shuffled: Seq<u8>, routine: Seq<char>, r: Result<CardFlipEvent, SpecialRoutineError>) -> bool {
    &&& (match before {
            None => card_invalid(r, routine, no_session_message()) && after == before && coins_after
                == coins_before,
            Some(g) => if g.phase != CardFlipPhase::PlayAgain {
                card_invalid(r, routine, "CardFlip continue is invalid during phase "@ + card_phase_name(g.phase))
                    && after == before && coins_after == coins_before
            } else if g.num_cards_played + 1 == 12 {
                &&& coins_after == coins_before
                &&& after matches Some(f) && f.deck@ == shuffled && f.discard_pile@ == Seq::new(
                    g.discard_pile@.len(),
                    |i: int| false,
                ) && f == (CardFlipState {
                    deck: f.deck,
                    discard_pile: f.discard_pile,
                    num_cards_played: 0,
                    phase: CardFlipPhase::Shuffled,
                    payout_remaining: 0,
                    ..g
                })
                &&& r matches Ok(CardFlipEvent::Shuffled { deck, revealed, coins: c }) && deck@ == shuffled
                    && revealed@ == Seq::new(g.discard_pile@.len(), |i: int| false) && c == coins_before
            } else {
                stake_taken(
                    CardFlipState { num_cards_played: (g.num_cards_played + 1) as u8, ..g },
                    after,
                    coins_before,
                    coins_before,
                    coins_after,
                    r,
                )
            },
        })
}

/// Playing again after a round counts it; after the twelfth round the shuffled deck replaces
/// the old one, nothing is turned and the session waits to resume, otherwise the next stake
/// is taken.
pub fn card_flip_continue(game: &mut Option<CardFlipState>, coins: &mut u16, shuffled: Vec<u8>, routine: &str) -> (r: Result<
    CardFlipEvent,
    SpecialRoutineError,
>)
    requires
        *old(game) matches Some(g) ==> g.num_cards_played < 12,
    ensures
        card_continue_outcome(*old(game), *final(game), *old(coins), *final(coins), shuffled@, routine@, r),
{
    let (phase, played) = match game {
        None => {
            return card_error(routine, "CardFlip has no active WRAM state");
        },
        Some(g) => (g.phase, g.num_cards_played),
    };
    if phase != CardFlipPhase::PlayAgain {
        return phase_error(routine, "CardFlip continue is invalid during phase ", phase);
    }
    let coins_before = *coins;
    if played + 1 == 12 {
        let mut deck: Vec<u8> = Vec::new();
        let mut revealed: Vec<bool> = Vec::new();
        if let Some(g) = game {
            let n = g.discard_pile.len();
            let mut cleared: Vec<bool> = Vec::new();
            let mut i: usize = 0;
            while i < n
                invariant
                    i <= n,
                    cleared@ == Seq::new(i as nat, |j: int| false),
                decreases n - i,
            {
                cleared.push(false);
                proof {
                    assert(cleared@ =~= Seq::new((i + 1) as nat, |j: int| false));
                }
                i += 1;
            }
            deck = copy_bytes(&shuffled);
            revealed = copy_flags(&cleared);
            g.deck = shuffled;
            g.discard_pile = cleared;
            g.num_cards_played = 0;
            g.phase = CardFlipPhase::Shuffled;
            g.payout_remaining = 0;
        }
        return Ok(CardFlipEvent::Shuffled { deck, revealed, coins: *coins });
    }
    if let Some(g) = game {
        g.num_cards_played = played + 1;
    }
    take_stake(game, coins, coins_before)
}

pub open spec fn card_resume_outcome(before: Option<CardFlipState>, after: Option<CardFlipState>, coins_before: u16, coins_after: u16, routine: Seq<char>, r: Result<CardFlipEvent, SpecialRoutineError>) -> bool {
    &&& (match before {
            None => card_invalid(r, routine, no_session_message()) && after == before && coins_after
                == coins_before,
            Some(g) => if g.phase != CardFlipPhase::Shuffled {
                card_invalid(r, routine, "CardFlip shuffle resume is invalid during phase "@ + card_phase_name(g.phase))
                    && after == before && coins_after == coins_before
            } else {
                stake_taken(
                    CardFlipState { phase: CardFlipPhase::ChooseCard, ..g },
                    after,
                    coins_before,
                    coins_before,
                    coins_after,
                    r,
                )
            },
        })
}

/// Resuming after a reshuffle returns to choosing a card and takes the next stake.
pub fn card_flip_resume(game: &mut Option<CardFlipState>, coins: &mut u16, routine: &str) -> (r: Result<
    CardFlipEvent,
    SpecialRoutineError,
>)
    ensures
        card_resume_outcome(*old(game), *final(game), *old(coins), *final(coins), routine@, r),
{
    let phase = match game {
        None => {
            return card_error(routine, "CardFlip has no active WRAM state");
        },
        Some(g) => g.phase,
    };
    if phase != CardFlipPhase::Shuffled {
        return phase_error(routine, "CardFlip shuffle resume is invalid during phase ", phase);
    }
    if let Some(g) = game {
        g.phase = CardFlipPhase::ChooseCard;
    }
    let coins_before = *coins;
    take_stake(game, coins, coins_before)
}

pub open spec fn card_reveal_outcome(before: Option<CardFlipState>, after: Option<CardFlipState>, coins: u16, which_card: u8, cursor_x: u8, cursor_y: u8, routine: Seq<char>, r: Result<CardFlipEvent, SpecialRoutineError>) -> bool {
    &&& (match before {
            None => card_invalid(r, routine, no_session_message()) && after == before,
            Some(g) => if g.phase != CardFlipPhase::ChooseCard {
                card_invalid(r, routine, "CardFlip reveal is invalid during phase "@ + card_phase_name(g.phase))
                    && after == before
            } else if which_card > 1 || cursor_x >= 6 || cursor_y >= 8 {
                card_invalid(r, routine, "CardFlip selection is outside the source card/bet grids"@) && after
                    == before
            } else {
                let index = g.num_cards_played * 2 + which_card;
                let face = g.deck@[index];
                if g.discard_pile@[face as int] {
                    card_invalid(
                        r,
                        routine,
                        "CardFlip deck index "@ + decimal_digits(index as nat) + " resolves to discarded face "@
                            + decimal_digits(face as nat),
                    ) && after == before
                } else {
                    let payout = card_payout(face, cursor_x as int, cursor_y as int);
                    &&& after matches Some(f) && f.discard_pile@ == g.discard_pile@.update(face as int, true)
                        && f == (CardFlipState {
                        discard_pile: f.discard_pile,
                        which_card,
                        cursor_x,
                        cursor_y,
                        face_up_card: Some(face),
                        payout_remaining: payout,
                        phase: CardFlipPhase::Result,
                        ..g
                    })
                    &&& r matches Ok(
                        CardFlipEvent::Revealed {
                            coins_before: cb,
                            card_index,
                            card_name,
                            card_level,
                            payout: p,
                            deck,
                            revealed,
                            coins: c,
                        },
                    ) && cb == coins && card_index == index && card_name@ == card_species(face) && card_level == face / 4
                        + 1 && p == payout && deck@ == g.deck@ && revealed@ == g.discard_pile@.update(face as int, true)
                        && c == coins
                }
            },
        })
}

/// Turning over the chosen card of this round: its face is marked turned, the bet at the
/// cursor is scored against it, and the payout is owed. The choice must lie on the grids, and
/// a face already turned is refused.
pub fn card_flip_reveal(
    game: &mut Option<CardFlipState>,
    coins: u16,
    which_card: u8,
    cursor_x: u8,
    cursor_y: u8,
    routine: &str,
) -> (r: Result<CardFlipEvent, SpecialRoutineError>)
    requires
        *old(game) matches Some(g) ==> card_flip_wf(g),
    ensures
        card_reveal_outcome(*old(game), *final(game), coins, which_card, cursor_x, cursor_y, routine@, r),
{
    let (phase, played) = match game {
        None => {
            return card_error(routine, "CardFlip has no active WRAM state");
        },
        Some(g) => (g.phase, g.num_cards_played),
    };
    if phase != CardFlipPhase::ChooseCard {
        return phase_error(routine, "CardFlip reveal is invalid during phase ", phase);
    }
    if which_card > 1 || cursor_x >= 6 || cursor_y >= 8 {
        return card_error(routine, "CardFlip selection is outside the source card/bet grids");
    }
    let card_index = (played as usize) * 2 + (which_card as usize);
    let mut result: Result<CardFlipEvent, SpecialRoutineError> = card_error(routine, "");
    if let Some(g) = game {
        let face = g.deck[card_index];
        if g.discard_pile[face as usize] {
            let mut v = text_chars("CardFlip deck index ");
            let mut d1 = decimal_chars(card_index as u64);
            let mut m = text_chars(" resolves to discarded face ");
            let mut d2 = decimal_chars(face as u64);
            v.append(&mut d1);
            v.append(&mut m);
            v.append(&mut d2);
            let message = text_from_chars(&v);
            return Err(SpecialRoutineError::InvalidState { routine: copy_text(routine), message });
        }
        g.discard_pile.set(face as usize, true);
        g.which_card = which_card;
        g.cursor_x = cursor_x;
        g.cursor_y = cursor_y;
        g.face_up_card = Some(face);
        let (card_name, card_level) = card_flip_identity(face);
        let payout = card_flip_payout(face, cursor_x as usize, cursor_y as usize);
        g.payout_remaining = payout;
        g.phase = CardFlipPhase::Result;
        result = Ok(
            CardFlipEvent::Revealed {
                coins_before: coins,
                card_index,
                card_name: copy_text(card_name),
                card_level,
                payout,
                deck: copy_bytes(&g.deck),
                revealed: copy_flags(&g.discard_pile),
                coins,
            },
        );
    }
    result
}

pub open spec fn card_payout_outcome(before: Option<CardFlipState>, after: Option<CardFlipState>, coins_before: u16, coins_after: u16, routine: Seq<char>, r: Result<CardFlipEvent, SpecialRoutineError>) -> bool {
    &&& (match before {
            None => card_invalid(r, routine, no_session_message()) && after == before && coins_after
                == coins_before,
            Some(g) => if g.phase != CardFlipPhase::Result || g.payout_remaining == 0 {
                card_invalid(r, routine, "CardFlip payout frame requires a positive result payout"@) && after
                    == before && coins_after == coins_before
            } else {
                &&& coins_after == coin_added(coins_before)
                &&& after == Some(CardFlipState { payout_remaining: (g.payout_remaining - 1) as u16, ..g })
                &&& r == Ok::<CardFlipEvent, SpecialRoutineError>(
                    CardFlipEvent::Payout {
                        coins_before: coins_before,
                        payout_remaining: (g.payout_remaining - 1) as u16,
                        coins: coin_added(coins_before),
                    },
                )
            },
        })
}

/// One frame of paying out a round: one coin more, capped at the Coin Case's limit, and one
/// coin less owed. Only a result with coins still owed pays.
pub fn card_flip_payout_frame(game: &mut Option<CardFlipState>, coins: &mut u16, routine: &str) -> (r: Result<
    CardFlipEvent,
    SpecialRoutineError,
>)
    ensures
        card_payout_outcome(*old(game), *final(game), *old(coins), *final(coins), routine@, r),
{
    let (phase, remaining) = match game {
        None => {
            return card_error(routine, "CardFlip has no active WRAM state");
        },
        Some(g) => (g.phase, g.payout_remaining),
    };
    if phase != CardFlipPhase::Result || remaining == 0 {
        return card_error(routine, "CardFlip payout frame requires a positive result payout");
    }
    if let Some(g) = game {
        g.payout_remaining = remaining - 1;
    }
    let coins_before = *coins;
    *coins = if *coins >= GAME_CORNER_MAX_COINS {
        GAME_CORNER_MAX_COINS
    } else {
        *coins + 1
    };
    Ok(CardFlipEvent::Payout { coins_before, payout_remaining: remaining - 1, coins: *coins })
}

pub open spec fn card_acknowledge_outcome(before: Option<CardFlipState>, after: Option<CardFlipState>, coins: u16, routine: Seq<char>, r: Result<CardFlipEvent, SpecialRoutineError>) -> bool {
    &&& (match before {
            None => card_invalid(r, routine, no_session_message()) && after == before,
            Some(g) => if g.phase != CardFlipPhase::Result || g.payout_remaining != 0 {
                card_invalid(r, routine, "CardFlip result cannot be acknowledged before payout completes"@)
                    && after == before
            } else {
                &&& after == Some(CardFlipState { phase: CardFlipPhase::PlayAgain, ..g })
                &&& r == Ok::<CardFlipEvent, SpecialRoutineError>(CardFlipEvent::ResultAcknowledged { coins })
            },
        })
}

/// Acknowledging a fully paid round brings up the Play Again prompt.
pub fn card_flip_acknowledge(game: &mut Option<CardFlipState>, coins: u16, routine: &str) -> (r: Result<
    CardFlipEvent,
    SpecialRoutineError,
>)
    ensures
        card_acknowledge_outcome(*old(game), *final(game), coins, routine@, r),
{
    let (phase, remaining) = match game {
        None => {
            return card_error(routine, "CardFlip has no active WRAM state");
        },
        Some(g) => (g.phase, g.payout_remaining),
    };
    if phase != CardFlipPhase::Result || remaining != 0 {
        return card_error(routine, "CardFlip result cannot be acknowledged before payout completes");
    }
    if let Some(g) = game {
        g.phase = CardFlipPhase::PlayAgain;
    }
    Ok(CardFlipEvent::ResultAcknowledged { coins })
}

pub open spec fn card_quit_outcome(before: Option<CardFlipState>, after: Option<CardFlipState>, coins: u16, routine: Seq<char>, r: Result<CardFlipEvent, SpecialRoutineError>) -> bool {
    &&& (match before {
            None => card_invalid(r, routine, no_session_message()) && after == before,
            Some(g) => if g.phase != CardFlipPhase::PlayAgain && g.phase != CardFlipPhase::Quit {
                card_invalid(r, routine, "CardFlip quit is invalid during phase "@ + card_phase_name(g.phase))
                    && after == before
            } else {
                &&& after == Some(CardFlipState { phase: CardFlipPhase::Quit, ..g })
                &&& r == Ok::<CardFlipEvent, SpecialRoutineError>(CardFlipEvent::Exited { coins })
            },
        })
}

/// Leaving is allowed at the Play Again prompt or once left.
pub fn card_flip_quit(game: &mut Option<CardFlipState>, coins: u16, routine: &str) -> (r: Result<
    CardFlipEvent,
    SpecialRoutineError,
>)
    ensures
        card_quit_outcome(*old(game), *final(game), coins, routine@, r),
{
    let phase = match game {
        None => {
            return card_error(routine, "CardFlip has no active WRAM state");
        },
        Some(g) => g.phase,
    };
    if phase != CardFlipPhase::PlayAgain && phase != CardFlipPhase::Quit {
        return phase_error(routine, "CardFlip quit is invalid during phase ", phase);
    }
    if let Some(g) = game {
        g.phase = CardFlipPhase::Quit;
    }
    Ok(CardFlipEvent::Exited { coins })
}

/// What the player does at the card-flip table.
#[derive(Clone, Copy, Debug, PartialEq, Eq, Structural)]
pub enum CardFlipInput {
    Start,
    Continue,
    ResumeAfterShuffle,
    Reveal { which_card: u8, cursor_x: u8, cursor_y: u8 },
    PayoutFrame,
    AcknowledgeResult,
    Quit,
}

/// What the table reports: the game turned the player away, or a step's report.
#[derive(Debug, PartialEq, Eq)]
pub enum CardFlipServiceOutcome {
    Unavailable { reason: GameCornerUnavailableReason },
    Event { event: CardFlipEvent },
}

/// The table's result `r2` is the step's result `r`.
pub open spec fn card_lifted(r2: Result<CardFlipServiceOutcome, SpecialRoutineError>, r: Result<CardFlipEvent, SpecialRoutineError>) -> bool {
    match r {
        Ok(e) => r2 == Ok::<CardFlipServiceOutcome, SpecialRoutineError>(CardFlipServiceOutcome::Event { event: e }),
        Err(e) => r2 == Err::<CardFlipServiceOutcome, SpecialRoutineError>(e),
    }
}

/// The card-flip game: the pack must define the Coin Case, and a player starting without coins
/// or without a Coin Case is turned away, in that order, with nothing changed. Otherwise the
/// pending input is carried out by its step; a step that shuffles takes the shuffled deck.
pub fn card_flip(
    item_catalog: &TextMap<Item>,
    bag: &Bag,
    coins: &mut u16,
    game: &mut Option<CardFlipState>,
    input: Option<CardFlipInput>,
    shuffled: Vec<u8>,
    routine: &str,
) -> (r: Result<CardFlipServiceOutcome, SpecialRoutineError>)
    requires
        input matches Some(CardFlipInput::Reveal { .. }) ==> (*old(game) matches Some(g) ==> card_flip_wf(g)),
        input == Some(CardFlipInput::Continue) ==> (*old(game) matches Some(g) ==> g.num_cards_played < 12),
    ensures
        !item_catalog.view().contains_key("COIN_CASE"@) ==> (r matches Err(SpecialRoutineError::UnknownItem {
            routine: rr,
            item_id: i,
        }) && rr@ == routine@ && i@ == "COIN_CASE"@) && *final(game) == *old(game) && *final(coins) == *old(coins),
        item_catalog.view().contains_key("COIN_CASE"@) && input == Some(CardFlipInput::Start) && *old(coins) == 0 ==> r
            == Ok::<CardFlipServiceOutcome, SpecialRoutineError>(
            CardFlipServiceOutcome::Unavailable { reason: GameCornerUnavailableReason::NoCoins },
        ) && *final(game) == *old(game) && *final(coins) == *old(coins),
        item_catalog.view().contains_key("COIN_CASE"@) && input == Some(CardFlipInput::Start) && *old(coins) != 0
            && bag.qty(item_catalog.view()["COIN_CASE"@].pocket@, item_catalog.view()["COIN_CASE"@].script_name@) == 0
            ==> r == Ok::<CardFlipServiceOutcome, SpecialRoutineError>(
            CardFlipServiceOutcome::Unavailable { reason: GameCornerUnavailableReason::MissingCoinCase },
        ) && *final(game) == *old(game) && *final(coins) == *old(coins),
        item_catalog.view().contains_key("COIN_CASE"@) && !(input == Some(CardFlipInput::Start) && (*old(coins) == 0
            || bag.qty(item_catalog.view()["COIN_CASE"@].pocket@, item_catalog.view()["COIN_CASE"@].script_name@) == 0))
            ==> match input {
            None => (r matches Err(SpecialRoutineError::MissingScriptValue { routine: rr, variable: v }) && rr@
                == routine@ && v@ == "pending_card_flip_input"@) && *final(game) == *old(game) && *final(coins)
                == *old(coins),
            Some(CardFlipInput::Start) => exists|x: Result<CardFlipEvent, SpecialRoutineError>|
                card_lifted(r, x) && card_start_outcome(*old(game), *final(game), *old(coins), *final(coins), shuffled@, routine@, x),
            Some(CardFlipInput::Continue) => exists|x: Result<CardFlipEvent, SpecialRoutineError>|
                card_lifted(r, x) && card_continue_outcome(
                    *old(game),
                    *final(game),
                    *old(coins),
                    *final(coins),
                    shuffled@,
                    routine@,
                    x,
                ),
            Some(CardFlipInput::ResumeAfterShuffle) => exists|x: Result<CardFlipEvent, SpecialRoutineError>|
                card_lifted(r, x) && card_resume_outcome(*old(game), *final(game), *old(coins), *final(coins), routine@, x),
            Some(CardFlipInput::Reveal { which_card, cursor_x, cursor_y }) => (exists|x: Result<CardFlipEvent, SpecialRoutineError>|
                card_lifted(r, x) && card_reveal_outcome(
                    *old(game),
                    *final(game),
                    *old(coins),
                    which_card,
                    cursor_x,
                    cursor_y,
                    routine@,
                    x,
                )) && *final(coins) == *old(coins),
            Some(CardFlipInput::PayoutFrame) => exists|x: Result<CardFlipEvent, SpecialRoutineError>|
                card_lifted(r, x) && card_payout_outcome(*old(game), *final(game), *old(coins), *final(coins), routine@, x),
            Some(CardFlipInput::AcknowledgeResult) => (exists|x: Result<CardFlipEvent, SpecialRoutineError>|
                card_lifted(r, x) && card_acknowledge_outcome(*old(game), *final(game), *old(coins), routine@, x))
                && *final(coins) == *old(coins),
            Some(CardFlipInput::Quit) => (exists|x: Result<CardFlipEvent, SpecialRoutineError>|
                card_lifted(r, x) && card_quit_outcome(*old(game), *final(game), *old(coins), routine@, x))
                && *final(coins) == *old(coins),
        },
{
    let starting = input == Some(CardFlipInput::Start);
    match game_corner_entry_refusal(item_catalog, bag, *coins, starting, routine) {
        Err(e) => {
            return Err(e);
        },
        Ok(Some(reason)) => {
            return Ok(CardFlipServiceOutcome::Unavailable { reason });
        },
        Ok(None) => {},
    }
    let step = match input {
        None => {
            return Err(
                SpecialRoutineError::MissingScriptValue {
                    routine: copy_text(routine),
                    variable: copy_text("pending_card_flip_input"),
                },
            );
        },
        Some(i) => i,
    };
    let result = match step {
        CardFlipInput::Start => card_flip_start(game, coins, shuffled, routine),
        CardFlipInput::Continue => card_flip_continue(game, coins, shuffled, routine),
        CardFlipInput::ResumeAfterShuffle => card_flip_resume(game, coins, routine),
        CardFlipInput::Reveal { which_card, cursor_x, cursor_y } => card_flip_reveal(
            game,
            *coins,
            which_card,
            cursor_x,
            cursor_y,
            routine,
        ),
        CardFlipInput::PayoutFrame => card_flip_payout_frame(game, coins, routine),
        CardFlipInput::AcknowledgeResult => card_flip_acknowledge(game, *coins, routine),
        CardFlipInput::Quit => card_flip_quit(game, *coins, routine),
    };
    let ghost step_result = result;
    let out = match result {
        Ok(event) => Ok(CardFlipServiceOutcome::Event { event }),
        Err(e) => Err(e),
    };
    proof {
        assert(card_lifted(out, step_result));
    }
    out
}

} // verus!
