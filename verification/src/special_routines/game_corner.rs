//! Game Corner rules: the card-flip game's cards and payouts, and the slot machine's reels,
//! pay lines and reel-stopping rules.
use vstd::prelude::*;
use crate::special_routines::day_care::DividerSource;
use crate::items::{Bag, Item};
use crate::ordered::TextMap;
use crate::special_routines::errors::SpecialRoutineError;
use crate::text::{copy_text, text_eq};

verus! {

// ---- card flip ----

/// The species of a card face: its low two bits.
pub open spec fn card_species(face: u8) -> Seq<char> {
    let s = face % 4;
    if s == 0 {
        "PIKACHU"@
    } else if s == 1 {
        "JIGGLYPUFF"@
    } else if s == 2 {
        "POLIWAG"@
    } else {
        "ODDISH"@
    }
}

/// The species and level of a card face: the level is the rest of the face, plus one.
pub fn card_flip_identity(face: u8) -> (r: (&'static str, u8))
    ensures
        r.0@ == card_species(face),
        r.1 == face / 4 + 1,
{
    let bits = face & 3;
    assert(face & 3 == face % 4) by (bit_vector);
    assert(face >> 2 == face / 4) by (bit_vector);
    let species = if bits == 0 {
        "PIKACHU"
    } else if bits == 1 {
        "JIGGLYPUFF"
    } else if bits == 2 {
        "POLIWAG"
    } else {
        "ODDISH"
    };
    (species, (face >> 2) + 1)
}

/// The payout of a card-flip bet at the cursor for a face: a species pair (columns 2-3 or
/// 4-5 of the top row) pays 6, one species (row 1) 12, a level pair (column 0) 9, one level
/// (column 1) 18, one card 72, anything else 0.
pub open spec fn card_payout(face: u8, x: int, y: int) -> u16 {
    let species = (face % 4) as int;
    let level = (face / 4 + 1) as int;
    if (x == 2 || x == 3) && y == 0 && species < 2 {
        6
    } else if (x == 4 || x == 5) && y == 0 && species >= 2 {
        6
    } else if 2 <= x <= 5 && y == 1 && species == x - 2 {
        12
    } else if x == 0 && (y == 2 || y == 3) && level <= 2 {
        9
    } else if x == 0 && (y == 4 || y == 5) && 3 <= level <= 4 {
        9
    } else if x == 0 && (y == 6 || y == 7) && level >= 5 {
        9
    } else if x == 1 && 2 <= y <= 7 && level == y - 1 {
        18
    } else if 2 <= x <= 5 && 2 <= y <= 7 && species == x - 2 && level == y - 1 {
        72
    } else {
        0
    }
}

/// What a card-flip bet at the cursor pays for the card that was drawn.
pub fn card_flip_payout(face: u8, cursor_x: usize, cursor_y: usize) -> (p: u16)
    ensures
        p == card_payout(face, cursor_x as int, cursor_y as int),
{
    assert(face & 3 == face % 4) by (bit_vector);
    assert(face >> 2 == face / 4) by (bit_vector);
    let species: usize = (face & 3) as usize;
    let level: usize = ((face >> 2) + 1) as usize;
    if (cursor_x == 2 || cursor_x == 3) && cursor_y == 0 && species < 2 {
        6
    } else if (cursor_x == 4 || cursor_x == 5) && cursor_y == 0 && species >= 2 {
        6
    } else if 2 <= cursor_x && cursor_x <= 5 && cursor_y == 1 && species == cursor_x - 2 {
        12
    } else if cursor_x == 0 && (cursor_y == 2 || cursor_y == 3) && level <= 2 {
        9
    } else if cursor_x == 0 && (cursor_y == 4 || cursor_y == 5) && 3 <= level && level <= 4 {
        9
    } else if cursor_x == 0 && (cursor_y == 6 || cursor_y == 7) && level >= 5 {
        9
    } else if cursor_x == 1 && 2 <= cursor_y && cursor_y <= 7 && level == cursor_y - 1 {
        18
    } else if 2 <= cursor_x && cursor_x <= 5 && 2 <= cursor_y && cursor_y <= 7 && species == cursor_x - 2 && level
        == cursor_y - 1 {
        72
    } else {
        0
    }
}

// ---- slot machine ----

/// A slot machine symbol.
#[derive(Clone, Copy, Debug, PartialEq, Eq, Structural)]
pub enum SlotSymbol {
    Seven,
    Pokeball,
    Cherry,
    Pikachu,
    Squirtle,
    Staryu,
}

/// Positions on each reel.
pub const SLOT_REEL_LENGTH: usize = 15;

/// The name a symbol is reported under.
pub open spec fn symbol_name(s: SlotSymbol) -> Seq<char> {
    match s {
        SlotSymbol::Seven => "SEVEN"@,
        SlotSymbol::Pokeball => "POKEBALL"@,
        SlotSymbol::Cherry => "CHERRY"@,
        SlotSymbol::Pikachu => "PIKACHU"@,
        SlotSymbol::Squirtle => "SQUIRTLE"@,
        SlotSymbol::Staryu => "STARYU"@,
    }
}

pub fn slot_symbol_name(symbol: SlotSymbol) -> (s: &'static str)
    ensures
        s@ == symbol_name(symbol),
{
    match symbol {
        SlotSymbol::Seven => "SEVEN",
        SlotSymbol::Pokeball => "POKEBALL",
        SlotSymbol::Cherry => "CHERRY",
        SlotSymbol::Pikachu => "PIKACHU",
        SlotSymbol::Squirtle => "SQUIRTLE",
        SlotSymbol::Staryu => "STARYU",
    }
}

/// The coins three of a symbol on a pay line win.
pub open spec fn symbol_payout(s: SlotSymbol) -> u16 {
    match s {
        SlotSymbol::Seven => 300,
        SlotSymbol::Pokeball => 50,
        SlotSymbol::Cherry => 6,
        SlotSymbol::Pikachu => 8,
        SlotSymbol::Squirtle => 10,
        SlotSymbol::Staryu => 15,
    }
}

pub fn slot_symbol_payout(symbol: SlotSymbol) -> (p: u16)
    ensures
        p == symbol_payout(symbol),
{
    match symbol {
        SlotSymbol::Seven => 300,
        SlotSymbol::Pokeball => 50,
        SlotSymbol::Cherry => 6,
        SlotSymbol::Pikachu => 8,
        SlotSymbol::Squirtle => 10,
        SlotSymbol::Staryu => 15,
    }
}

/// The symbols of reel `k` (0, 1 or 2), in order.
pub open spec fn reel(k: int) -> Seq<SlotSymbol> {
    if k == 0 {
        seq![
            SlotSymbol::Seven,
            SlotSymbol::Cherry,
            SlotSymbol::Staryu,
            SlotSymbol::Pikachu,
            SlotSymbol::Squirtle,
            SlotSymbol::Seven,
            SlotSymbol::Cherry,
            SlotSymbol::Staryu,
            SlotSymbol::Pikachu,
            SlotSymbol::Squirtle,
            SlotSymbol::Pokeball,
            SlotSymbol::Cherry,
            SlotSymbol::Staryu,
            SlotSymbol::Pikachu,
            SlotSymbol::Squirtle,
        ]
    } else if k == 1 {
        seq![
            SlotSymbol::Seven,
            SlotSymbol::Pikachu,
            SlotSymbol::Cherry,
            SlotSymbol::Squirtle,
            SlotSymbol::Staryu,
            SlotSymbol::Pokeball,
            SlotSymbol::Pikachu,
            SlotSymbol::Cherry,
            SlotSymbol::Squirtle,
            SlotSymbol::Staryu,
            SlotSymbol::Pokeball,
            SlotSymbol::Pikachu,
            SlotSymbol::Cherry,
            SlotSymbol::Squirtle,
            SlotSymbol::Staryu,
        ]
    } else {
        seq![
            SlotSymbol::Seven,
            SlotSymbol::Pikachu,
            SlotSymbol::Cherry,
            SlotSymbol::Squirtle,
            SlotSymbol::Staryu,
            SlotSymbol::Pikachu,
            SlotSymbol::Cherry,
            SlotSymbol::Squirtle,
            SlotSymbol::Staryu,
            SlotSymbol::Pikachu,
            SlotSymbol::Pokeball,
            SlotSymbol::Cherry,
            SlotSymbol::Squirtle,
            SlotSymbol::Staryu,
            SlotSymbol::Pikachu,
        ]
    }
}

/// The symbols of reel `k`.
pub fn slot_reel(k: usize) -> (r: [SlotSymbol; 15])
    requires
        k < 3,
    ensures
        r@ == reel(k as int),
{
    let r = if k == 0 {
        [
            SlotSymbol::Seven,
            SlotSymbol::Cherry,
            SlotSymbol::Staryu,
            SlotSymbol::Pikachu,
            SlotSymbol::Squirtle,
            SlotSymbol::Seven,
            SlotSymbol::Cherry,
            SlotSymbol::Staryu,
            SlotSymbol::Pikachu,
            SlotSymbol::Squirtle,
            SlotSymbol::Pokeball,
            SlotSymbol::Cherry,
            SlotSymbol::Staryu,
            SlotSymbol::Pikachu,
            SlotSymbol::Squirtle,
        ]
    } else if k == 1 {
        [
            SlotSymbol::Seven,
            SlotSymbol::Pikachu,
            SlotSymbol::Cherry,
            SlotSymbol::Squirtle,
            SlotSymbol::Staryu,
            SlotSymbol::Pokeball,
            SlotSymbol::Pikachu,
            SlotSymbol::Cherry,
            SlotSymbol::Squirtle,
            SlotSymbol::Staryu,
            SlotSymbol::Pokeball,
            SlotSymbol::Pikachu,
            SlotSymbol::Cherry,
            SlotSymbol::Squirtle,
            SlotSymbol::Staryu,
        ]
    } else {
        [
            SlotSymbol::Seven,
            SlotSymbol::Pikachu,
            SlotSymbol::Cherry,
            SlotSymbol::Squirtle,
            SlotSymbol::Staryu,
            SlotSymbol::Pikachu,
            SlotSymbol::Cherry,
            SlotSymbol::Squirtle,
            SlotSymbol::Staryu,
            SlotSymbol::Pikachu,
            SlotSymbol::Pokeball,
            SlotSymbol::Cherry,
            SlotSymbol::Squirtle,
            SlotSymbol::Staryu,
            SlotSymbol::Pikachu,
        ]
    };
    proof {
        assert(r@ =~= reel(k as int));
    }
    r
}

/// The three symbols a reel shows from `offset`: top, middle, bottom.
pub open spec fn window(r: Seq<SlotSymbol>, offset: int) -> Seq<SlotSymbol> {
    seq![r[offset % 15], r[(offset + 1) % 15], r[(offset + 2) % 15]]
}

pub fn slot_window(reel: &[SlotSymbol; 15], offset: usize) -> (w: [SlotSymbol; 3])
    requires
        offset + 2 <= usize::MAX,
    ensures
        w@ == window(reel@, offset as int),
{
    let w = [reel[offset % 15], reel[(offset + 1) % 15], reel[(offset + 2) % 15]];
    proof {
        assert(w@ =~= window(reel@, offset as int));
    }
    w
}

/// The three windows the reels show at `offsets`.
pub open spec fn windows(offsets: Seq<usize>) -> Seq<Seq<SlotSymbol>> {
    seq![window(reel(0), offsets[0] as int), window(reel(1), offsets[1] as int), window(reel(2), offsets[2] as int)]
}

pub fn slot_windows(offsets: [usize; 3]) -> (w: [[SlotSymbol; 3]; 3])
    requires
        forall|k: int| 0 <= k < 3 ==> offsets@[k] < 15,
    ensures
        forall|k: int| 0 <= k < 3 ==> (#[trigger] w@[k])@ == windows(offsets@)[k],
{
    let r0 = slot_reel(0);
    let r1 = slot_reel(1);
    let r2 = slot_reel(2);
    [slot_window(&r0, offsets[0]), slot_window(&r1, offsets[1]), slot_window(&r2, offsets[2])]
}

/// `offset` moved `step` positions along the reel.
pub fn slot_advance(offset: usize, step: usize) -> (r: usize)
    requires
        offset + step <= usize::MAX,
    ensures
        r == (offset + step) % 15,
{
    (offset + step) % 15
}

/// The pay lines a bet plays, in the order they are checked.
pub open spec fn line_order(bet: u8) -> Seq<Seq<char>> {
    if bet == 1 {
        seq!["middle"@]
    } else if bet == 2 {
        seq!["bottom"@, "top"@, "middle"@]
    } else {
        seq!["diagonal_up"@, "diagonal_down"@, "bottom"@, "top"@, "middle"@]
    }
}

pub fn slot_line_order(bet: u8) -> (lines: Vec<&'static str>)
    ensures
        lines@.len() == line_order(bet).len(),
        forall|i: int| 0 <= i < lines@.len() ==> (#[trigger] lines@[i])@ == line_order(bet)[i],
{
    let mut lines: Vec<&'static str> = Vec::new();
    if bet == 1 {
        lines.push("middle");
    } else if bet == 2 {
        lines.push("bottom");
        lines.push("top");
        lines.push("middle");
    } else {
        lines.push("diagonal_up");
        lines.push("diagonal_down");
        lines.push("bottom");
        lines.push("top");
        lines.push("middle");
    }
    lines
}

/// The row each reel contributes to a pay line: 0 top, 1 middle, 2 bottom.
pub open spec fn line_row(line: Seq<char>, reel: int) -> int {
    if line == "middle"@ {
        1
    } else if line == "top"@ {
        0
    } else if line == "bottom"@ {
        2
    } else if line == "diagonal_up"@ {
        2 - reel
    } else {
        reel
    }
}

/// One of the five pay lines.
pub open spec fn known_line(line: Seq<char>) -> bool {
    line == "middle"@ || line == "top"@ || line == "bottom"@ || line == "diagonal_up"@ || line == "diagonal_down"@
}

fn line_row_of(line: &str, reel: usize) -> (row: usize)
    requires
        known_line(line@),
        reel < 3,
    ensures
        row == line_row(line@, reel as int),
        row < 3,
{
    if text_eq(line, "middle") {
        1
    } else if text_eq(line, "top") {
        0
    } else if text_eq(line, "bottom") {
        2
    } else if text_eq(line, "diagonal_up") {
        2 - reel
    } else {
        reel
    }
}

/// The three symbols on a pay line.
pub fn slot_line_symbols(windows: &[[SlotSymbol; 3]; 3], line: &str) -> (s: [SlotSymbol; 3])
    requires
        known_line(line@),
    ensures
        forall|k: int| 0 <= k < 3 ==> #[trigger] s@[k] == windows@[k]@[line_row(line@, k)],
{
    let s = [
        windows[0][line_row_of(line, 0)],
        windows[1][line_row_of(line, 1)],
        windows[2][line_row_of(line, 2)],
    ];
    s
}

/// The symbol of the last line, among the first `n` of the bet's lines, on which the first two
/// reels agree, and whether any such line shows sevens.
pub open spec fn first_two_match(w: Seq<Seq<SlotSymbol>>, bet: u8, n: int) -> (Option<SlotSymbol>, bool)
    decreases n,
{
    if n <= 0 {
        (None, false)
    } else {
        let prev = first_two_match(w, bet, n - 1);
        let line = line_order(bet)[n - 1];
        let a = w[0][line_row(line, 0)];
        let b = w[1][line_row(line, 1)];
        if a == b {
            (Some(a), prev.1 || a == SlotSymbol::Seven)
        } else {
            prev
        }
    }
}

/// Which symbol the first two reels line up on, the last matching line winning, and whether
/// a line of sevens is among the matches.
pub fn slot_check_first_two(windows: &[[SlotSymbol; 3]; 2], bet: u8) -> (r: (Option<SlotSymbol>, bool))
    ensures
        r == first_two_match(seq![windows@[0]@, windows@[1]@], bet, line_order(bet).len() as int),
{
    let ghost w = seq![windows@[0]@, windows@[1]@];
    let lines = slot_line_order(bet);
    let mut matched_symbol: Option<SlotSymbol> = None;
    let mut saw_seven = false;
    let mut i: usize = 0;
    while i < lines.len()
        invariant
            w == seq![windows@[0]@, windows@[1]@],
            lines@.len() == line_order(bet).len(),
            forall|j: int| 0 <= j < lines@.len() ==> (#[trigger] lines@[j])@ == line_order(bet)[j],
            i <= lines@.len(),
            (matched_symbol, saw_seven) == first_two_match(w, bet, i as int),
        decreases lines.len() - i,
    {
        let line = lines[i];
        proof {
            assert(line@ == line_order(bet)[i as int]);
            reveal_strlit("middle");
            reveal_strlit("top");
            reveal_strlit("bottom");
            reveal_strlit("diagonal_up");
            reveal_strlit("diagonal_down");
            assert(known_line(line@));
        }
        let first = windows[0][line_row_of(line, 0)];
        let second = windows[1][line_row_of(line, 1)];
        if first == second {
            matched_symbol = Some(first);
            saw_seven = saw_seven || first == SlotSymbol::Seven;
        }
        i += 1;
    }
    (matched_symbol, saw_seven)
}

/// The symbol of the last of the first `n` of the bet's lines that shows three of a kind, and
/// the names of all such lines in order.
pub open spec fn all_three_match(w: Seq<Seq<SlotSymbol>>, bet: u8, n: int) -> (Option<SlotSymbol>, Seq<Seq<char>>)
    decreases n,
{
    if n <= 0 {
        (None, seq![])
    } else {
        let prev = all_three_match(w, bet, n - 1);
        let line = line_order(bet)[n - 1];
        let a = w[0][line_row(line, 0)];
        let b = w[1][line_row(line, 1)];
        let c = w[2][line_row(line, 2)];
        if a == b && b == c {
            (Some(a), prev.1.push(line))
        } else {
            prev
        }
    }
}

pub open spec fn string_views(v: Seq<String>) -> Seq<Seq<char>> {
    v.map_values(|s: String| s@)
}

/// The symbol the reels pay on, the last winning line deciding, and the winning lines.
pub fn slot_check_all_three(windows: &[[SlotSymbol; 3]; 3], bet: u8) -> (r: (Option<SlotSymbol>, Vec<String>))
    ensures
        r.0 == all_three_match(seq![windows@[0]@, windows@[1]@, windows@[2]@], bet, line_order(bet).len() as int).0,
        string_views(r.1@) == all_three_match(
            seq![windows@[0]@, windows@[1]@, windows@[2]@],
            bet,
            line_order(bet).len() as int,
        ).1,
{
    let ghost w = seq![windows@[0]@, windows@[1]@, windows@[2]@];
    let lines = slot_line_order(bet);
    let mut matched_symbol: Option<SlotSymbol> = None;
    let mut winning_lines: Vec<String> = Vec::new();
    let mut i: usize = 0;
    while i < lines.len()
        invariant
            w == seq![windows@[0]@, windows@[1]@, windows@[2]@],
            lines@.len() == line_order(bet).len(),
            forall|j: int| 0 <= j < lines@.len() ==> (#[trigger] lines@[j])@ == line_order(bet)[j],
            i <= lines@.len(),
            matched_symbol == all_three_match(w, bet, i as int).0,
            string_views(winning_lines@) == all_three_match(w, bet, i as int).1,
        decreases lines.len() - i,
    {
        let line = lines[i];
        proof {
            assert(line@ == line_order(bet)[i as int]);
            reveal_strlit("middle");
            reveal_strlit("top");
            reveal_strlit("bottom");
            reveal_strlit("diagonal_up");
            reveal_strlit("diagonal_down");
            assert(known_line(line@));
        }
        let symbols = slot_line_symbols(windows, line);
        if symbols[0] == symbols[1] && symbols[1] == symbols[2] {
            matched_symbol = Some(symbols[0]);
            let ghost before = winning_lines@;
            winning_lines.push(crate::text::copy_text(line));
            proof {
                assert(string_views(winning_lines@) =~= string_views(before).push(line@));
            }
        }
        i += 1;
    }
    (matched_symbol, winning_lines)
}

/// Whether a window shows `s`.
pub open spec fn shows(w: Seq<SlotSymbol>, s: SlotSymbol) -> bool {
    w[0] == s || w[1] == s || w[2] == s
}

fn window_shows(w: &[SlotSymbol; 3], s: SlotSymbol) -> (b: bool)
    ensures
        b == shows(w@, s),
{
    w[0] == s || w[1] == s || w[2] == s
}

/// Where the first reel stops for a bias: with no bias where it is; otherwise it moves on, at
/// most `counter` positions, until its window shows the bias.
pub open spec fn reel1_stop(offset: int, bias: Option<SlotSymbol>, counter: nat) -> int
    decreases counter,
{
    match bias {
        None => offset,
        Some(b) => if counter == 0 || shows(window(reel(0), offset), b) {
            offset
        } else {
            reel1_stop((offset + 1) % 15, bias, (counter - 1) as nat)
        },
    }
}

/// Stops the first reel: with a bias it slips up to four positions to show the biased symbol.
pub fn slot_stop_reel1(offset: usize, bias: Option<SlotSymbol>) -> (r: usize)
    requires
        offset + 2 <= usize::MAX,
    ensures
        r == reel1_stop(offset as int, bias, 4),
{
    let b = match bias {
        None => {
            return offset;
        },
        Some(b) => b,
    };
    let reel0 = slot_reel(0);
    let mut offset = offset;
    let mut counter: u8 = 4;
    let ghost start = offset;
    while counter > 0
        invariant_except_break
            counter <= 4,
            offset + 2 <= usize::MAX,
            reel0@ == reel(0),
            bias == Some(b),
            reel1_stop(start as int, bias, 4) == reel1_stop(offset as int, bias, counter as nat),
        ensures
            reel1_stop(start as int, bias, 4) == offset,
        decreases counter,
    {
        let w = slot_window(&reel0, offset);
        if window_shows(&w, b) {
            break;
        }
        offset = slot_advance(offset, 1);
        counter -= 1;
    }
    offset
}

/// The first of `tries` positions of the second reel, starting at `offset_two`, at which the
/// first two reels line up sevens.
pub open spec fn seven_search(first: Seq<SlotSymbol>, offset_two: int, bet: u8, tries: nat) -> Option<int>
    decreases tries,
{
    if tries == 0 {
        None
    } else if first_two_match(seq![first, window(reel(1), offset_two)], bet, line_order(bet).len() as int).1 {
        Some(offset_two)
    } else {
        seven_search(first, (offset_two + 1) % 15, bet, (tries - 1) as nat)
    }
}

proof fn lemma_seven_search_in_reel(first: Seq<SlotSymbol>, offset_two: int, bet: u8, tries: nat)
    requires
        0 <= offset_two < 15,
    ensures
        seven_search(first, offset_two, bet, tries) matches Some(o) ==> 0 <= o < 15,
    decreases tries,
{
    if tries > 0 {
        lemma_seven_search_in_reel(first, (offset_two + 1) % 15, bet, (tries - 1) as nat);
    }
}

/// The offsets with the second reel moved to line up sevens with the first, if the first
/// reel shows a seven and a position within two turns of the second reel does.
pub open spec fn skip_to_seven(offsets: Seq<usize>, bet: u8) -> Option<Seq<usize>> {
    let first = window(reel(0), offsets[0] as int);
    if !shows(first, SlotSymbol::Seven) {
        None
    } else {
        match seven_search(first, offsets[1] as int, bet, 30) {
            Some(o) => Some(offsets.update(1, o as usize)),
            None => None,
        }
    }
}

/// Tries to line up sevens on the first two reels by turning the second.
pub fn slot_attempt_skip_to_seven(offsets: [usize; 3], bet: u8) -> (r: Option<[usize; 3]>)
    requires
        forall|k: int| 0 <= k < 3 ==> offsets@[k] < 15,
    ensures
        match r {
            Some(o) => skip_to_seven(offsets@, bet) == Some(o@),
            None => skip_to_seven(offsets@, bet) is None,
        },
{
    let reel0 = slot_reel(0);
    let reel1 = slot_reel(1);
    let first_window = slot_window(&reel0, offsets[0]);
    if !window_shows(&first_window, SlotSymbol::Seven) {
        return None;
    }
    let mut offset_two = offsets[1];
    let mut tries: u8 = 30;
    while tries > 0
        invariant
            tries <= 30,
            offset_two < 15,
            reel1@ == reel(1),
            first_window@ == window(reel(0), offsets@[0] as int),
            shows(first_window@, SlotSymbol::Seven),
            seven_search(first_window@, offsets@[1] as int, bet, 30) == seven_search(
                first_window@,
                offset_two as int,
                bet,
                tries as nat,
            ),
        decreases tries,
    {
        let second = slot_window(&reel1, offset_two);
        let pair = [first_window, second];
        let (_, saw_seven) = slot_check_first_two(&pair, bet);
        proof {
            assert(pair@[0] == first_window);
            assert(pair@[1] == second);
            assert(seq![pair@[0]@, pair@[1]@] =~= seq![first_window@, window(reel(1), offset_two as int)]);
        }
        if saw_seven {
            let found = [offsets[0], offset_two, offsets[2]];
            proof {
                assert(seven_search(first_window@, offset_two as int, bet, tries as nat) == Some(offset_two as int));
                assert(shows(window(reel(0), offsets@[0] as int), SlotSymbol::Seven));
                assert(skip_to_seven(offsets@, bet) == Some(offsets@.update(1, offset_two)));
                assert(found@ =~= offsets@.update(1, offset_two));
            }
            return Some(found);
        }
        offset_two = slot_advance(offset_two, 1);
        tries -= 1;
    }
    None
}

/// The bias a roll gives a new spin: lucky machines favour the better symbols.
pub open spec fn bias_for_roll(roll: u8, lucky: bool) -> Option<SlotSymbol> {
    if lucky {
        if roll <= 2 {
            Some(SlotSymbol::Seven)
        } else if roll <= 3 {
            Some(SlotSymbol::Pokeball)
        } else if roll <= 8 {
            Some(SlotSymbol::Staryu)
        } else if roll <= 16 {
            Some(SlotSymbol::Squirtle)
        } else if roll <= 30 {
            Some(SlotSymbol::Pikachu)
        } else if roll <= 80 {
            Some(SlotSymbol::Cherry)
        } else {
            None
        }
    } else {
        if roll <= 1 {
            Some(SlotSymbol::Seven)
        } else if roll <= 3 {
            Some(SlotSymbol::Pokeball)
        } else if roll <= 10 {
            Some(SlotSymbol::Staryu)
        } else if roll <= 20 {
            Some(SlotSymbol::Squirtle)
        } else if roll <= 40 {
            Some(SlotSymbol::Pikachu)
        } else if roll <= 48 {
            Some(SlotSymbol::Cherry)
        } else {
            None
        }
    }
}

/// The bias a random byte gives a spin.
pub fn slot_bias_for_roll(roll: u8, lucky: bool) -> (b: Option<SlotSymbol>)
    ensures
        b == bias_for_roll(roll, lucky),
{
    let thresholds: [u8; 6] = if lucky {
        [2, 3, 8, 16, 30, 80]
    } else {
        [1, 3, 10, 20, 40, 48]
    };
    let symbols: [SlotSymbol; 6] = [
        SlotSymbol::Seven,
        SlotSymbol::Pokeball,
        SlotSymbol::Staryu,
        SlotSymbol::Squirtle,
        SlotSymbol::Pikachu,
        SlotSymbol::Cherry,
    ];
    let mut i: usize = 0;
    while i < 6
        invariant
            i <= 6,
            thresholds@ == (if lucky { seq![2u8, 3, 8, 16, 30, 80] } else { seq![1u8, 3, 10, 20, 40, 48] }),
            symbols@ == seq![
                SlotSymbol::Seven,
                SlotSymbol::Pokeball,
                SlotSymbol::Staryu,
                SlotSymbol::Squirtle,
                SlotSymbol::Pikachu,
                SlotSymbol::Cherry,
            ],
            forall|k: int| 0 <= k < i ==> roll > #[trigger] thresholds@[k],
        decreases 6 - i,
    {
        if roll <= thresholds[i] {
            return Some(symbols[i]);
        }
        i += 1;
    }
    None
}

/// Draws the bias of a new spin from the random source; whatever byte the source gives, the
/// bias is the one that byte gives.
pub fn slot_bias<S: DividerSource>(rng: &mut S, lucky: bool) -> (r: Result<Option<SlotSymbol>, String>)
    ensures
        r matches Ok(b) ==> exists|roll: u8| b == #[trigger] bias_for_roll(roll, lucky),
{
    match rng.random(false) {
        Ok(roll) => Ok(slot_bias_for_roll(roll, lucky)),
        Err(e) => Err(e),
    }
}

/// How a reel came to rest.
#[derive(Clone, Copy, Debug, PartialEq, Eq, Structural)]
pub enum SlotStopMode {
    Normal,
    SkipToSeven,
    Slow,
    Golem,
    Chansey,
}

impl SlotStopMode {
    /// The name a stop mode is reported under.
    pub fn name(self) -> (s: &'static str)
        ensures
            s@ == match self {
                SlotStopMode::Normal => "normal"@,
                SlotStopMode::SkipToSeven => "skip_to_seven"@,
                SlotStopMode::Slow => "slow"@,
                SlotStopMode::Golem => "golem"@,
                SlotStopMode::Chansey => "chansey"@,
            },
    {
        match self {
            SlotStopMode::Normal => "normal",
            SlotStopMode::SkipToSeven => "skip_to_seven",
            SlotStopMode::Slow => "slow",
            SlotStopMode::Golem => "golem",
            SlotStopMode::Chansey => "chansey",
        }
    }
}

/// How a reel came to rest, where its stopping animation starts, and how long it runs.
#[derive(Clone, Copy, Debug, PartialEq, Eq, Structural)]
pub struct SlotStopResolution {
    pub mode: SlotStopMode,
    pub animation_start_offset: usize,
    pub animation_count: u8,
}

impl SlotStopResolution {
    /// An ordinary stop whose animation starts at `offset`.
    pub fn normal(offset: usize) -> (r: Self)
        ensures
            r == (SlotStopResolution { mode: SlotStopMode::Normal, animation_start_offset: offset, animation_count: 0 }),
    {
        SlotStopResolution { mode: SlotStopMode::Normal, animation_start_offset: offset, animation_count: 0 }
    }
}

/// Where the second reel stops without skipping: it moves on, at most `counter` positions,
/// until the first two reels line up the biased symbol; with no bias it stays.
pub open spec fn reel2_stop(o0: int, o1: int, bias: Option<SlotSymbol>, bet: u8, counter: nat) -> int
    decreases counter,
{
    let m = first_two_match(seq![window(reel(0), o0), window(reel(1), o1)], bet, line_order(bet).len() as int).0;
    if (m is Some && m == bias) || bias is None || counter == 0 {
        o1
    } else {
        reel2_stop(o0, (o1 + 1) % 15, bias, bet, (counter - 1) as nat)
    }
}

/// The second reel may skip to sevens: at least two lines are played, the bias is none or a
/// seven, and the first reel shows a seven.
pub open spec fn reel2_may_skip(offsets: Seq<usize>, bias: Option<SlotSymbol>, bet: u8) -> bool {
    bet >= 2 && (bias is None || bias == Some(SlotSymbol::Seven)) && shows(window(reel(0), offsets[0] as int), SlotSymbol::Seven)
}

/// Stops the second reel. When it may skip to sevens, a random byte below 80 makes it try;
/// otherwise it slips up to four positions to line up the bias with the first reel.
pub fn slot_stop_reel2<S: DividerSource>(offsets: &mut [usize; 3], bias: Option<SlotSymbol>, bet: u8, rng: &mut S) -> (r: Result<
    SlotStopResolution,
    String,
>)
    requires
        forall|k: int| 0 <= k < 3 ==> old(offsets)@[k] < 15,
    ensures
        forall|k: int| 0 <= k < 3 ==> final(offsets)@[k] < 15,
        match r {
            Ok(res) => {
                &&& res.animation_start_offset == old(offsets)@[1]
                &&& res.animation_count == 0
                &&& (res.mode == SlotStopMode::SkipToSeven && reel2_may_skip(old(offsets)@, bias, bet) && skip_to_seven(
                    old(offsets)@,
                    bet,
                ) == Some(final(offsets)@)) || (res.mode == SlotStopMode::Normal && final(offsets)@ == old(offsets)@.update(
                    1,
                    reel2_stop(old(offsets)@[0] as int, old(offsets)@[1] as int, bias, bet, 4) as usize,
                ))
            },
            Err(_) => reel2_may_skip(old(offsets)@, bias, bet) && final(offsets)@ == old(offsets)@,
        },
{
    let animation_start_offset = offsets[1];
    let reel0 = slot_reel(0);
    let reel1 = slot_reel(1);
    let bias_allows_skip = match bias {
        None => true,
        Some(SlotSymbol::Seven) => true,
        Some(_) => false,
    };
    if bet >= 2 && bias_allows_skip {
        let first = slot_window(&reel0, offsets[0]);
        if window_shows(&first, SlotSymbol::Seven) {
            let roll = rng.random(false)?;
            if roll < 80 {
                match slot_attempt_skip_to_seven(*offsets, bet) {
                    Some(aligned) => {
                        proof {
                            lemma_seven_search_in_reel(first@, offsets@[1] as int, bet, 30);
                            assert(aligned@ == offsets@.update(1, aligned@[1]));
                        }
                        *offsets = aligned;
                        return Ok(
                            SlotStopResolution {
                                mode: SlotStopMode::SkipToSeven,
                                animation_start_offset,
                                animation_count: 0,
                            },
                        );
                    },
                    None => {},
                }
            }
        }
    }
    let ghost o0 = offsets@[0] as int;
    let ghost goal = reel2_stop(o0, offsets@[1] as int, bias, bet, 4);
    let mut counter: u8 = 4;
    loop
        invariant
            counter <= 4,
            offsets@.len() == 3,
            old(offsets)@.len() == 3,
            forall|k: int| 0 <= k < 3 ==> offsets@[k] < 15,
            offsets@[0] as int == o0,
            offsets@[0] == old(offsets)@[0],
            offsets@[2] == old(offsets)@[2],
            reel0@ == reel(0),
            reel1@ == reel(1),
            goal == reel2_stop(o0, offsets@[1] as int, bias, bet, counter as nat),
            goal == reel2_stop(old(offsets)@[0] as int, old(offsets)@[1] as int, bias, bet, 4),
            offsets@[1] < 15,
            animation_start_offset == old(offsets)@[1],
        decreases counter,
    {
        let w0 = slot_window(&reel0, offsets[0]);
        let w1 = slot_window(&reel1, offsets[1]);
        let pair = [w0, w1];
        let (matched_symbol, _) = slot_check_first_two(&pair, bet);
        proof {
            assert(pair@[0] == w0);
            assert(pair@[1] == w1);
            assert(seq![pair@[0]@, pair@[1]@] =~= seq![window(reel(0), o0), window(reel(1), offsets@[1] as int)]);
        }
        proof {
            assert(matched_symbol == first_two_match(
                seq![window(reel(0), o0), window(reel(1), offsets@[1] as int)],
                bet,
                line_order(bet).len() as int,
            ).0);
        }
        if (matched_symbol.is_some() && matched_symbol == bias) || bias.is_none() || counter == 0 {
            proof {
                assert(reel2_stop(o0, offsets@[1] as int, bias, bet, counter as nat) == offsets@[1] as int);
                assert(goal == offsets@[1] as int);
                assert(offsets@ =~= old(offsets)@.update(1, goal as usize));
            }
            let res = SlotStopResolution::normal(animation_start_offset);
            proof {
                assert(res.mode == SlotStopMode::Normal);
                assert(res.animation_start_offset == old(offsets)@[1]);
            }
            return Ok(res);
        }
        let next = slot_advance(offsets[1], 1);
        offsets[1] = next;
        counter -= 1;
    }
}

/// The symbol the reels pay on at `offsets`, if any.
#[verifier::opaque]
pub open spec fn reel3_match(offsets: Seq<usize>, bet: u8) -> Option<SlotSymbol> {
    all_three_match(windows(offsets), bet, line_order(bet).len() as int).0
}

pub fn slot_reel3_match(offsets: [usize; 3], bet: u8) -> (m: Option<SlotSymbol>)
    requires
        forall|k: int| 0 <= k < 3 ==> offsets@[k] < 15,
    ensures
        m == reel3_match(offsets@, bet),
{
    let w = slot_windows(offsets);
    proof {
        reveal(reel3_match);
        assert(seq![w@[0]@, w@[1]@, w@[2]@] =~= windows(offsets@));
    }
    slot_check_all_three(&w, bet).0
}

/// The third reel's offset after turning it, at most `steps` positions, until the reels pay
/// on nothing.
pub open spec fn until_no_match(offsets: Seq<usize>, bet: u8, steps: nat) -> usize
    decreases steps,
{
    if steps == 0 || reel3_match(offsets, bet) is None {
        offsets[2]
    } else {
        until_no_match(offsets.update(2, ((offsets[2] + 1) % 15) as usize), bet, (steps - 1) as nat)
    }
}

/// Some position of the third reel, within one turn, pays on nothing.
pub open spec fn third_reel_can_miss(offsets: Seq<usize>, bet: u8) -> bool {
    exists|k: int| 0 <= k < 15 && #[trigger] reel3_match(offsets.update(2, ((offsets[2] + k) % 15) as usize), bet) is None
}

/// Turning the third reel either finds a position that pays on nothing, or every position
/// it passed paid on something.
proof fn lemma_until_no_match(o: Seq<usize>, bet: u8, steps: nat)
    requires
        o.len() == 3,
        o[2] < 15,
    ensures
        reel3_match(o.update(2, until_no_match(o, bet, steps)), bet) is None || forall|j: int|
            0 <= j < steps ==> #[trigger] reel3_match(o.update(2, ((o[2] + j) % 15) as usize), bet) is Some,
    decreases steps,
{
    if steps > 0 && reel3_match(o, bet) is Some {
        let next = o.update(2, ((o[2] + 1) % 15) as usize);
        lemma_until_no_match(next, bet, (steps - 1) as nat);
        assert(until_no_match(o, bet, steps) == until_no_match(next, bet, (steps - 1) as nat));
        assert(next.update(2, until_no_match(next, bet, (steps - 1) as nat)) =~= o.update(2, until_no_match(o, bet, steps)));
        if reel3_match(o.update(2, until_no_match(o, bet, steps)), bet) is Some {
            assert forall|j: int| 0 <= j < steps implies #[trigger] reel3_match(
                o.update(2, ((o[2] + j) % 15) as usize),
                bet,
            ) is Some by {
                if j == 0 {
                    assert(o.update(2, ((o[2] + j) % 15) as usize) =~= o);
                } else {
                    assert((next[2] + (j - 1)) % 15 == (o[2] + j) % 15);
                    assert(next.update(2, ((next[2] + (j - 1)) % 15) as usize) =~= o.update(2, ((o[2] + j) % 15) as usize));
                    assert(reel3_match(next.update(2, ((next[2] + (j - 1)) % 15) as usize), bet) is Some);
                }
            }
        }
    } else {
        assert(o.update(2, o[2]) =~= o);
    }
}

/// Turns the third reel until the reels pay on nothing.
#[verifier::rlimit(30)]
pub fn slot_advance_reel3_until_no_match(offsets: &mut [usize; 3], bet: u8)
    requires
        forall|k: int| 0 <= k < 3 ==> old(offsets)@[k] < 15,
        third_reel_can_miss(old(offsets)@, bet),
    ensures
        final(offsets)@ == old(offsets)@.update(2, until_no_match(old(offsets)@, bet, 15)),
        reel3_match(final(offsets)@, bet) is None,
{
    let ghost start = offsets@;
    proof {
        lemma_until_no_match(start, bet, 15);
        if reel3_match(start.update(2, until_no_match(start, bet, 15)), bet) is Some {
            let k = choose|k: int| 0 <= k < 15 && #[trigger] reel3_match(start.update(2, ((start[2] + k) % 15) as usize), bet)
                is None;
            assert(reel3_match(start.update(2, ((start[2] + k) % 15) as usize), bet) is Some);
        }
    }
    let mut steps: u8 = 15;
    while steps > 0
        invariant
            steps <= 15,
            start.len() == 3,
            start == old(offsets)@,
            offsets@.len() == 3,
            forall|k: int| 0 <= k < 3 ==> offsets@[k] < 15,
            offsets@ == start.update(2, ((start[2] + (15 - steps)) % 15) as usize),
            until_no_match(start, bet, 15) == until_no_match(offsets@, bet, steps as nat),
            reel3_match(start.update(2, until_no_match(start, bet, 15)), bet) is None,
        decreases steps,
    {
        if slot_reel3_match(*offsets, bet).is_none() {
            proof {
                assert(until_no_match(offsets@, bet, steps as nat) == offsets@[2]);
                assert(offsets@ =~= start.update(2, offsets@[2]));
            }
            return;
        }
        let ghost before = offsets@;
        let next = slot_advance(offsets[2], 1);
        offsets[2] = next;
        proof {
            assert(offsets@ =~= before.update(2, ((before[2] + 1) % 15) as usize));
            assert(until_no_match(before, bet, steps as nat) == until_no_match(offsets@, bet, (steps - 1) as nat));
            assert((start[2] + (15 - steps)) % 15 + 1 == start[2] + (15 - steps) + 1 - 15 * ((start[2] + (15 - steps)) / 15));
            assert(offsets@ =~= start.update(2, ((start[2] + (15 - (steps - 1))) % 15) as usize));
        }
        steps -= 1;
    }
}


// ---- entering a coin game ----

/// Why a coin game will not start.
#[derive(Clone, Copy, Debug, PartialEq, Eq, Structural)]
pub enum GameCornerUnavailableReason {
    NoCoins,
    InsufficientStake,
    MissingCoinCase,
}

/// Whether a coin game turns the player away: when the game is being entered, the player
/// needs some coins and a Coin Case in the bag. The pack must define the Coin Case.
pub fn game_corner_entry_refusal(
    item_catalog: &TextMap<Item>,
    bag: &Bag,
    coins: u16,
    entering: bool,
    routine: &str,
) -> (r: Result<Option<GameCornerUnavailableReason>, SpecialRoutineError>)
    ensures
        !item_catalog.view().contains_key("COIN_CASE"@) ==> (r matches Err(SpecialRoutineError::UnknownItem {
            routine: rr,
            item_id: i,
        }) && rr@ == routine@ && i@ == "COIN_CASE"@),
        item_catalog.view().contains_key("COIN_CASE"@) ==> {
            let case = item_catalog.view()["COIN_CASE"@];
            r == Ok::<Option<GameCornerUnavailableReason>, SpecialRoutineError>(
                if entering && coins == 0 {
                    Some(GameCornerUnavailableReason::NoCoins)
                } else if entering && bag.qty(case.pocket@, case.script_name@) == 0 {
                    Some(GameCornerUnavailableReason::MissingCoinCase)
                } else {
                    None
                },
            )
        },
{
    let case = match item_catalog.get("COIN_CASE") {
        Some(c) => c,
        None => return Err(SpecialRoutineError::UnknownItem { routine: copy_text(routine), item_id: copy_text("COIN_CASE") }),
    };
    if entering && coins == 0 {
        return Ok(Some(GameCornerUnavailableReason::NoCoins));
    }
    if entering && bag.quantity(case) == 0 {
        return Ok(Some(GameCornerUnavailableReason::MissingCoinCase));
    }
    Ok(None)
}

/// Card Flip's stake of three coins: the coins left after paying, or the reason the player
/// cannot pay.
pub fn take_card_flip_stake(coins: u16) -> (r: Result<u16, GameCornerUnavailableReason>)
    ensures
        coins < 3 ==> r == Err::<u16, GameCornerUnavailableReason>(GameCornerUnavailableReason::InsufficientStake),
        coins >= 3 ==> r == Ok::<u16, GameCornerUnavailableReason>((coins - 3) as u16),
{
    if coins < 3 {
        Err(GameCornerUnavailableReason::InsufficientStake)
    } else {
        Ok(coins - 3)
    }
}

} // verus!
