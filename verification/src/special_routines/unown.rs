//! The Ruins of Alph sliding puzzle: its saved layout text, its checks, and the moves of
//! picking a piece up and putting it down.
use vstd::prelude::*;
use crate::ordered::TextMap;
use crate::special_routines::checks::{first_error, lemma_first_error_stays};
use crate::special_routines::errors::SpecialRoutineError;
use crate::special_routines::numbers::{bounded_value, numeric_error, read_bounded};
use crate::text::{
    ascii_upper_chars, ascii_upper_text, char_views, chars_eq_text, copy_text, decimal_chars, decimal_digits, is_digit,
    join_text, lemma_decimal_digits_read_back, message_with_number, split_chars, split_text, text_chars, text_from_chars,
    trim_chars, trim_text,
};

verus! {

/// A puzzle: six rows of six cells, 0 for an empty cell and 1..=16 for a piece, and the piece
/// in hand, if any.
#[derive(Clone, Copy, Debug, PartialEq, Eq)]
pub struct UnownPuzzleState {
    pub layout: [[u8; 6]; 6],
    pub holding_piece: Option<u8>,
}

/// The cell at column `x` of row `y`.
pub open spec fn cell(l: [[u8; 6]; 6], y: int, x: int) -> u8 {
    l@[y]@[x]
}

/// The solved picture: pieces 1..=16 in a four-by-four block inside an empty border.
pub open spec fn target_cell(y: int, x: int) -> u8 {
    if 1 <= y <= 4 && 1 <= x <= 4 {
        ((y - 1) * 4 + x) as u8
    } else {
        0
    }
}

/// The puzzle ids, in the order a numeric puzzle value names them.
pub open spec fn puzzle_ids() -> Seq<Seq<char>> {
    seq!["KABUTO"@, "OMANYTE"@, "AERODACTYL"@, "HOOH"@]
}

/// The puzzle id a numeric puzzle value names.
pub fn unown_puzzle_id(index: usize) -> (r: Option<&'static str>)
    ensures
        match r {
            Some(id) => index < 4 && id@ == puzzle_ids()[index as int],
            None => index >= 4,
        },
{
    if index == 0 {
        Some("KABUTO")
    } else if index == 1 {
        Some("OMANYTE")
    } else if index == 2 {
        Some("AERODACTYL")
    } else if index == 3 {
        Some("HOOH")
    } else {
        None
    }
}

/// The puzzle id a puzzle script value names: a number 0..=3 in id order, or, after trimming
/// and ASCII upper-casing, one of the `UNOWNPUZZLE_` constants.
pub open spec fn named_puzzle_id(raw: Seq<char>) -> Option<Seq<char>> {
    let by_index: Option<Seq<char>> = match bounded_value(raw, usize::MAX as int) {
        Some(i) => if i < 4 {
            Some(puzzle_ids()[i])
        } else {
            None
        },
        None => None,
    };
    let token = ascii_upper_text(trim_text(raw));
    if by_index is Some {
        by_index
    } else if token == "UNOWNPUZZLE_KABUTO"@ {
        Some("KABUTO"@)
    } else if token == "UNOWNPUZZLE_OMANYTE"@ {
        Some("OMANYTE"@)
    } else if token == "UNOWNPUZZLE_AERODACTYL"@ {
        Some("AERODACTYL"@)
    } else if token == "UNOWNPUZZLE_HO_OH"@ {
        Some("HOOH"@)
    } else {
        None
    }
}

/// The puzzle id the script value `raw_value` names; an unknown value is refused with the
/// value quoted.
pub fn normalize_unown_puzzle_id(raw_value: &str, routine: &str) -> (r: Result<String, SpecialRoutineError>)
    ensures
        match r {
            Ok(id) => named_puzzle_id(raw_value@) == Some(id@),
            Err(e) => named_puzzle_id(raw_value@) is None && (e matches SpecialRoutineError::InvalidUnownPuzzleState {
                routine: rr,
                message: m,
            } && rr@ == routine@ && m@ == "unknown puzzle id '"@ + raw_value@ + "'"@),
        },
{
    let chars = text_chars(raw_value);
    proof {
        assert(chars@.skip(0) =~= raw_value@);
    }
    match read_bounded(&chars, 0, usize::MAX as u64) {
        Some(index) => {
            if index < 4 {
                match unown_puzzle_id(index as usize) {
                    Some(id) => {
                        return Ok(copy_text(id));
                    },
                    None => {},
                }
            }
        },
        None => {},
    }
    let trimmed = trim_chars(&chars);
    let token = ascii_upper_chars(&trimmed);
    if chars_eq_text(&token, "UNOWNPUZZLE_KABUTO") {
        Ok(copy_text("KABUTO"))
    } else if chars_eq_text(&token, "UNOWNPUZZLE_OMANYTE") {
        Ok(copy_text("OMANYTE"))
    } else if chars_eq_text(&token, "UNOWNPUZZLE_AERODACTYL") {
        Ok(copy_text("AERODACTYL"))
    } else if chars_eq_text(&token, "UNOWNPUZZLE_HO_OH") {
        Ok(copy_text("HOOH"))
    } else {
        let mut v = text_chars("unknown puzzle id '");
        let mut body = text_chars(raw_value);
        v.append(&mut body);
        v.push('\'');
        let message = text_from_chars(&v);
        proof {
            reveal_strlit("'");
            assert(message@ =~= "unknown puzzle id '"@ + raw_value@ + "'"@);
        }
        Err(SpecialRoutineError::InvalidUnownPuzzleState { routine: copy_text(routine), message })
    }
}

/// The name of a script variable that belongs to one puzzle: `base`, `_`, then the id.
pub fn unown_puzzle_variable_key(base_name: &str, puzzle_id: &str) -> (key: String)
    ensures
        key@ == base_name@ + seq!['_'] + puzzle_id@,
{
    let mut v = text_chars(base_name);
    v.push('_');
    let mut t = text_chars(puzzle_id);
    v.append(&mut t);
    text_from_chars(&v)
}

/// The layout as six rows of six cells.
pub fn unown_puzzle_layout_vec(layout: &[[u8; 6]; 6]) -> (rows: Vec<Vec<u8>>)
    ensures
        rows@.len() == 6,
        forall|y: int| 0 <= y < 6 ==> (#[trigger] rows@[y])@ == layout@[y]@,
{
    let mut rows: Vec<Vec<u8>> = Vec::new();
    let mut y: usize = 0;
    while y < 6
        invariant
            y <= 6,
            rows@.len() == y,
            forall|k: int| 0 <= k < y ==> (#[trigger] rows@[k])@ == layout@[k]@,
        decreases 6 - y,
    {
        let row = layout[y];
        let mut r: Vec<u8> = Vec::new();
        let mut x: usize = 0;
        while x < 6
            invariant
                x <= 6,
                row == layout@[y as int],
                r@ == row@.take(x as int),
            decreases 6 - x,
        {
            r.push(row[x]);
            proof {
                assert(r@ =~= row@.take(x + 1));
            }
            x += 1;
        }
        proof {
            assert(row@.take(6) =~= row@);
        }
        rows.push(r);
        y += 1;
    }
    rows
}

// ---- the layout as text ----

/// The cells of row `y`, as decimal text.
pub open spec fn row_cells(l: [[u8; 6]; 6], y: int) -> Seq<Seq<char>> {
    Seq::new(6, |x: int| decimal_digits(cell(l, y, x) as nat))
}

/// The rows of a layout, each its cells joined by `,`.
pub open spec fn layout_rows(l: [[u8; 6]; 6]) -> Seq<Seq<char>> {
    Seq::new(6, |y: int| join_text(row_cells(l, y), ','))
}

/// The saved text of a layout: rows joined by `;`.
pub open spec fn encoded_layout(l: [[u8; 6]; 6]) -> Seq<char> {
    join_text(layout_rows(l), ';')
}

proof fn lemma_join_take(parts: Seq<Seq<char>>, sep: char, k: int)
    requires
        1 <= k < parts.len(),
    ensures
        join_text(parts.take(k + 1), sep) == join_text(parts.take(k), sep).push(sep) + parts[k],
{
    assert(parts.take(k + 1).drop_last() =~= parts.take(k));
    assert(parts.take(k + 1).last() == parts[k]);
}

proof fn lemma_join_take_one(parts: Seq<Seq<char>>, sep: char)
    requires
        1 <= parts.len(),
    ensures
        join_text(parts.take(1), sep) == parts[0],
{
    assert(parts.take(1).len() == 1);
    assert(parts.take(1)[0] == parts[0]);
}

fn encode_row(row: [u8; 6], out: &mut Vec<char>, Ghost(cells): Ghost<Seq<Seq<char>>>)
    requires
        cells == Seq::new(6, |x: int| decimal_digits(row@[x] as nat)),
    ensures
        final(out)@ == old(out)@ + join_text(cells, ','),
{
    let ghost start = out@;
    let mut x: usize = 0;
    while x < 6
        invariant
            x <= 6,
            cells == Seq::new(6, |k: int| decimal_digits(row@[k] as nat)),
            x == 0 ==> out@ == start,
            x > 0 ==> out@ == start + join_text(cells.take(x as int), ','),
        decreases 6 - x,
    {
        if x > 0 {
            out.push(',');
        }
        let mut d = decimal_chars(row[x] as u64);
        let ghost before = out@;
        out.append(&mut d);
        proof {
            if x == 0 {
                lemma_join_take_one(cells, ',');
                assert(out@ =~= start + join_text(cells.take(1), ','));
            } else {
                lemma_join_take(cells, ',', x as int);
                assert(out@ =~= start + join_text(cells.take(x + 1), ','));
            }
        }
        x += 1;
    }
    proof {
        assert(cells.take(6) =~= cells);
    }
}

/// The layout as saved: each row's cells in decimal joined by `,`, the rows joined by `;`.
pub fn encode_unown_layout(layout: &[[u8; 6]; 6]) -> (s: String)
    ensures
        s@ == encoded_layout(*layout),
{
    let ghost rows = layout_rows(*layout);
    let mut out: Vec<char> = Vec::new();
    let mut y: usize = 0;
    while y < 6
        invariant
            y <= 6,
            rows == layout_rows(*layout),
            y == 0 ==> out@ == Seq::<char>::empty(),
            y > 0 ==> out@ == join_text(rows.take(y as int), ';'),
        decreases 6 - y,
    {
        if y > 0 {
            out.push(';');
        }
        let row = layout[y];
        proof {
            assert(row_cells(*layout, y as int) =~= Seq::new(6, |x: int| decimal_digits(row@[x] as nat)));
        }
        encode_row(row, &mut out, Ghost(row_cells(*layout, y as int)));
        proof {
            assert(rows[y as int] == join_text(row_cells(*layout, y as int), ','));
            if y == 0 {
                lemma_join_take_one(rows, ';');
                assert(out@ =~= join_text(rows.take(1), ';'));
            } else {
                lemma_join_take(rows, ';', y as int);
                assert(out@ =~= join_text(rows.take(y + 1), ';'));
            }
        }
        y += 1;
    }
    proof {
        assert(rows.take(6) =~= rows);
    }
    text_from_chars(&out)
}

/// What is wrong with a saved layout text.
#[derive(Clone, Copy, Debug, PartialEq, Eq, Structural)]
pub enum LayoutProblem {
    RowCount,
    ColumnCount,
    NotAByte,
    PieceOutOfRange,
}

pub open spec fn cell_problem(c: Seq<char>) -> Option<LayoutProblem> {
    match bounded_value(c, 255) {
        None => Some(LayoutProblem::NotAByte),
        Some(v) => if v > 16 {
            Some(LayoutProblem::PieceOutOfRange)
        } else {
            None
        },
    }
}

pub open spec fn cell_checks(cells: Seq<Seq<char>>) -> spec_fn(int) -> Option<LayoutProblem> {
    |x: int| cell_problem(cells[x])
}

pub open spec fn row_problem(r: Seq<char>) -> Option<LayoutProblem> {
    let cells = split_text(r, ',');
    if cells.len() != 6 {
        Some(LayoutProblem::ColumnCount)
    } else {
        first_error(cell_checks(cells), 6)
    }
}

pub open spec fn row_checks(rows: Seq<Seq<char>>) -> spec_fn(int) -> Option<LayoutProblem> {
    |y: int| row_problem(rows[y])
}

/// The first problem of a saved layout text, reading rows and then cells in order.
pub open spec fn layout_problem(raw: Seq<char>) -> Option<LayoutProblem> {
    let rows = split_text(raw, ';');
    if rows.len() != 6 {
        Some(LayoutProblem::RowCount)
    } else {
        first_error(row_checks(rows), 6)
    }
}

/// The text of cell `x` of row `y` of a saved layout text.
pub open spec fn raw_cell(raw: Seq<char>, y: int, x: int) -> Seq<char> {
    split_text(split_text(raw, ';')[y], ',')[x]
}

/// The error a routine gives for a layout problem.
pub open spec fn layout_error(e: SpecialRoutineError, p: LayoutProblem, routine: Seq<char>, raw: Seq<char>) -> bool {
    match p {
        LayoutProblem::NotAByte => numeric_error(e, routine, raw),
        _ => e matches SpecialRoutineError::InvalidUnownPuzzleState { routine: r, message: m } && r@ == routine
            && m@ == match p {
            LayoutProblem::RowCount => "layout must contain six rows"@,
            LayoutProblem::ColumnCount => "layout rows must contain six columns"@,
            _ => "layout entries must be 0 or between 1 and 16"@,
        },
    }
}

fn puzzle_error(routine: &str, message: &str) -> (e: SpecialRoutineError)
    ensures
        e matches SpecialRoutineError::InvalidUnownPuzzleState { routine: r, message: m } && r@ == routine@ && m@
            == message@,
{
    SpecialRoutineError::InvalidUnownPuzzleState { routine: copy_text(routine), message: copy_text(message) }
}

/// Reads the cell text `c` as a piece: a byte of at most 16.
fn read_cell(c: &Vec<char>) -> (r: Result<u8, LayoutProblem>)
    ensures
        match r {
            Ok(v) => cell_problem(c@) is None && bounded_value(c@, 255) == Some(v as int),
            Err(p) => cell_problem(c@) == Some(p) && p != LayoutProblem::RowCount,
        },
{
    proof {
        assert(c@.skip(0) =~= c@);
    }
    match read_bounded(c, 0, 255) {
        Some(v) => {
            if v > 16 {
                Err(LayoutProblem::PieceOutOfRange)
            } else {
                Ok(v as u8)
            }
        },
        None => Err(LayoutProblem::NotAByte),
    }
}

/// Reads one row's text into its six cells.
fn read_row(r: &Vec<char>) -> (res: Result<[u8; 6], LayoutProblem>)
    ensures
        match res {
            Ok(row) => row_problem(r@) is None && forall|x: int|
                0 <= x < 6 ==> bounded_value(#[trigger] split_text(r@, ',')[x], 255) == Some(row@[x] as int),
            Err(p) => row_problem(r@) == Some(p) && p != LayoutProblem::RowCount,
        },
{
    let cells = split_chars(r, ',');
    let ghost cv = split_text(r@, ',');
    if cells.len() != 6 {
        return Err(LayoutProblem::ColumnCount);
    }
    let ghost f = cell_checks(cv);
    let mut row: [u8; 6] = [0u8; 6];
    let mut x: usize = 0;
    while x < 6
        invariant
            char_views(cells@) == cv,
            cv == split_text(r@, ','),
            cells@.len() == 6,
            f == cell_checks(cv),
            x <= 6,
            first_error(f, x as int) is None,
            forall|k: int| 0 <= k < x ==> bounded_value(#[trigger] cv[k], 255) == Some(row@[k] as int),
        decreases 6 - x,
    {
        proof {
            assert(cells@[x as int]@ == cv[x as int]);
        }
        match read_cell(&cells[x]) {
            Ok(v) => {
                row[x] = v;
            },
            Err(p) => {
                proof {
                    assert(f(x as int) == Some(p));
                    lemma_first_error_stays(f, x + 1, 6);
                }
                return Err(p);
            },
        }
        x += 1;
    }
    Ok(row)
}

/// Reads a saved layout text: six rows split by `;`, six cells each split by `,`, every cell
/// a decimal byte of at most 16. A cell that is not a byte is reported with the whole text.
pub fn parse_unown_layout(routine: &str, raw: &str) -> (r: Result<[[u8; 6]; 6], SpecialRoutineError>)
    ensures
        match r {
            Ok(l) => layout_problem(raw@) is None && forall|y: int, x: int|
                0 <= y < 6 && 0 <= x < 6 ==> bounded_value(#[trigger] raw_cell(raw@, y, x), 255) == Some(
                    cell(l, y, x) as int,
                ),
            Err(e) => layout_problem(raw@) matches Some(p) && layout_error(e, p, routine@, raw@),
        },
{
    let chars = text_chars(raw);
    let rows = split_chars(&chars, ';');
    let ghost rv = split_text(raw@, ';');
    if rows.len() != 6 {
        return Err(puzzle_error(routine, "layout must contain six rows"));
    }
    let ghost f = row_checks(rv);
    let mut layout: [[u8; 6]; 6] = [[0u8; 6]; 6];
    let mut y: usize = 0;
    while y < 6
        invariant
            char_views(rows@) == rv,
            rv == split_text(raw@, ';'),
            rows@.len() == 6,
            f == row_checks(rv),
            y <= 6,
            first_error(f, y as int) is None,
            forall|k: int, x: int|
                0 <= k < y && 0 <= x < 6 ==> bounded_value(#[trigger] raw_cell(raw@, k, x), 255) == Some(
                    cell(layout, k, x) as int,
                ),
        decreases 6 - y,
    {
        proof {
            assert(rows@[y as int]@ == rv[y as int]);
        }
        match read_row(&rows[y]) {
            Ok(row) => {
                let ghost before = layout;
                layout[y] = row;
                proof {
                    assert forall|k: int, x: int| 0 <= k < y + 1 && 0 <= x < 6 implies bounded_value(
                        #[trigger] raw_cell(raw@, k, x),
                        255,
                    ) == Some(cell(layout, k, x) as int) by {
                        if k < y {
                            assert(layout@[k] == before@[k]);
                        } else {
                            assert(layout@[k] == row);
                            assert(raw_cell(raw@, k, x) == split_text(rv[k], ',')[x]);
                        }
                    }
                }
            },
            Err(p) => {
                proof {
                    assert(f(y as int) == Some(p));
                    lemma_first_error_stays(f, y + 1, 6);
                }
                if p == LayoutProblem::NotAByte {
                    return Err(SpecialRoutineError::InvalidNumericValue {
                        routine: copy_text(routine),
                        value: copy_text(raw),
                    });
                } else if p == LayoutProblem::ColumnCount {
                    return Err(puzzle_error(routine, "layout rows must contain six columns"));
                } else {
                    return Err(puzzle_error(routine, "layout entries must be 0 or between 1 and 16"));
                }
            },
        }
        y += 1;
    }
    Ok(layout)
}

// ---- the puzzle's own checks and moves ----

/// The cells in reading order: row by row, left to right.
pub open spec fn flat_cells(l: [[u8; 6]; 6]) -> Seq<u8> {
    Seq::new(36, |i: int| cell(l, i / 6, i % 6))
}

/// Cell `i` holds a piece that an earlier cell holds too.
pub open spec fn repeated_at(c: Seq<u8>, i: int) -> bool {
    c[i] != 0 && exists|j: int| 0 <= j < i && c[j] == c[i]
}

pub open spec fn repeat_checks(c: Seq<u8>) -> spec_fn(int) -> Option<u8> {
    |i: int| if repeated_at(c, i) { Some(c[i]) } else { None }
}

/// The message a puzzle state is refused with, if any: the first piece that appears twice,
/// then a held piece outside 1..=16 or also in the layout.
pub open spec fn puzzle_state_message(l: [[u8; 6]; 6], holding_piece: Option<u8>) -> Option<Seq<char>> {
    let c = flat_cells(l);
    match first_error(repeat_checks(c), 36) {
        Some(v) => Some("piece "@ + decimal_digits(v as nat) + " appears more than once in the puzzle state"@),
        None => match holding_piece {
            Some(p) => if p < 1 || p > 16 {
                Some("holding_piece must be between 1 and 16"@)
            } else if c.contains(p) {
                Some("held piece "@ + decimal_digits(p as nat) + " also appears in the puzzle layout"@)
            } else {
                None
            },
            None => None,
        },
    }
}

/// Every cell is empty or a piece.
pub open spec fn cells_in_range(l: [[u8; 6]; 6]) -> bool {
    forall|y: int, x: int| 0 <= y < 6 && 0 <= x < 6 ==> #[trigger] cell(l, y, x) <= 16
}

/// No piece appears twice in the layout, and the held piece, if any, is a piece that is not
/// in the layout.
pub fn validate_unown_puzzle_state(routine: &str, layout: &[[u8; 6]; 6], holding_piece: Option<u8>) -> (r: Result<
    (),
    SpecialRoutineError,
>)
    requires
        cells_in_range(*layout),
    ensures
        match r {
            Ok(()) => puzzle_state_message(*layout, holding_piece) is None,
            Err(e) => puzzle_state_message(*layout, holding_piece) matches Some(m) && (e matches SpecialRoutineError::InvalidUnownPuzzleState {
                routine: rr,
                message: mm,
            } && rr@ == routine@ && mm@ == m),
        },
{
    let ghost c = flat_cells(*layout);
    let ghost f = repeat_checks(c);
    let mut seen: [bool; 17] = [false; 17];
    let mut k: usize = 0;
    while k < 36
        invariant
            k <= 36,
            cells_in_range(*layout),
            c == flat_cells(*layout),
            f == repeat_checks(c),
            first_error(f, k as int) is None,
            forall|v: int| 1 <= v <= 16 ==> (#[trigger] seen@[v] <==> exists|j: int| 0 <= j < k && c[j] == v),
        decreases 36 - k,
    {
        let v = layout[k / 6][k % 6];
        proof {
            assert(c[k as int] == v);
            assert(cell(*layout, (k / 6) as int, (k % 6) as int) <= 16);
        }
        if v != 0 {
            if seen[v as usize] {
                proof {
                    let j = choose|j: int| 0 <= j < k && c[j] == v;
                    assert(repeated_at(c, k as int));
                    assert(f(k as int) == Some(v));
                    lemma_first_error_stays(f, k + 1, 36);
                }
                let message = message_with_number("piece ", v as u64, " appears more than once in the puzzle state");
                return Err(puzzle_error(routine, message.as_str()));
            }
            seen[v as usize] = true;
            proof {
                assert(!repeated_at(c, k as int));
                assert forall|w: int| 1 <= w <= 16 implies (#[trigger] seen@[w] <==> exists|j: int|
                    0 <= j < k + 1 && c[j] == w) by {
                    if w == v {
                        assert(c[k as int] == w);
                    } else if exists|j: int| 0 <= j < k + 1 && c[j] == w {
                        let j = choose|j: int| 0 <= j < k + 1 && c[j] == w;
                        assert(j != k);
                    }
                }
            }
        } else {
            proof {
                assert(!repeated_at(c, k as int));
                assert forall|w: int| 1 <= w <= 16 implies (#[trigger] seen@[w] <==> exists|j: int|
                    0 <= j < k + 1 && c[j] == w) by {
                    if exists|j: int| 0 <= j < k + 1 && c[j] == w {
                        let j = choose|j: int| 0 <= j < k + 1 && c[j] == w;
                        assert(j != k);
                    }
                }
            }
        }
        k += 1;
    }
    match holding_piece {
        Some(piece) => {
            if piece < 1 || piece > 16 {
                return Err(puzzle_error(routine, "holding_piece must be between 1 and 16"));
            }
            if seen[piece as usize] {
                proof {
                    let j = choose|j: int| 0 <= j < 36 && c[j] == piece;
                    assert(c.contains(piece));
                }
                let message = message_with_number("held piece ", piece as u64, " also appears in the puzzle layout");
                return Err(puzzle_error(routine, message.as_str()));
            }
            proof {
                if c.contains(piece) {
                    let j = choose|j: int| 0 <= j < c.len() && c[j] == piece;
                    assert(seen@[piece as int]);
                }
            }
        },
        None => {},
    }
    Ok(())
}

/// The puzzle is solved: no piece in hand, and every cell as in the solved picture.
pub open spec fn puzzle_solved(p: UnownPuzzleState) -> bool {
    p.holding_piece is None && forall|y: int, x: int| 0 <= y < 6 && 0 <= x < 6 ==> #[trigger] cell(p.layout, y, x)
        == target_cell(y, x)
}

fn target_cell_value(y: usize, x: usize) -> (v: u8)
    requires
        y < 6,
        x < 6,
    ensures
        v == target_cell(y as int, x as int),
{
    if 1 <= y && y <= 4 && 1 <= x && x <= 4 {
        ((y - 1) * 4 + x) as u8
    } else {
        0
    }
}

/// Whether the puzzle is solved.
pub fn unown_puzzle_is_solved(puzzle: &UnownPuzzleState) -> (b: bool)
    ensures
        b == puzzle_solved(*puzzle),
{
    if puzzle.holding_piece.is_some() {
        return false;
    }
    let mut y: usize = 0;
    while y < 6
        invariant
            y <= 6,
            puzzle.holding_piece is None,
            forall|j: int, x: int| 0 <= j < y && 0 <= x < 6 ==> #[trigger] cell(puzzle.layout, j, x) == target_cell(j, x),
        decreases 6 - y,
    {
        let mut x: usize = 0;
        while x < 6
            invariant
                y < 6,
                x <= 6,
                puzzle.holding_piece is None,
                forall|j: int, i: int| 0 <= j < y && 0 <= i < 6 ==> #[trigger] cell(puzzle.layout, j, i) == target_cell(j, i),
                forall|i: int| 0 <= i < x ==> #[trigger] cell(puzzle.layout, y as int, i) == target_cell(y as int, i),
            decreases 6 - x,
        {
            if puzzle.layout[y][x] != target_cell_value(y, x) {
                proof {
                    assert(cell(puzzle.layout, y as int, x as int) != target_cell(y as int, x as int));
                }
                return false;
            }
            x += 1;
        }
        y += 1;
    }
    true
}

/// The coordinates a move names must lie inside the grid.
pub fn unown_coords(x: usize, y: usize, routine: &str) -> (r: Result<(usize, usize), SpecialRoutineError>)
    ensures
        match r {
            Ok(c) => x < 6 && y < 6 && c == (x, y),
            Err(e) => !(x < 6 && y < 6) && (e matches SpecialRoutineError::InvalidUnownPuzzleState {
                routine: rr,
                message: m,
            } && rr@ == routine@ && m@ == "coordinates must be inside the 6x6 puzzle grid"@),
        },
{
    if x >= 6 || y >= 6 {
        return Err(puzzle_error(routine, "coordinates must be inside the 6x6 puzzle grid"));
    }
    Ok((x, y))
}

/// `after` is `before` with cell (`y`, `x`) set to `v` and the held piece set to `held`.
pub open spec fn moved(before: UnownPuzzleState, after: UnownPuzzleState, y: int, x: int, v: u8, held: Option<u8>) -> bool {
    &&& after.holding_piece == held
    &&& forall|j: int, i: int|
        0 <= j < 6 && 0 <= i < 6 ==> #[trigger] cell(after.layout, j, i) == if j == y && i == x {
            v
        } else {
            cell(before.layout, j, i)
        }
}

/// The message of a refused pick-up, if it is refused.
pub open spec fn pick_up_message(p: UnownPuzzleState, y: int, x: int) -> Option<Seq<char>> {
    if p.holding_piece is Some {
        Some("cannot pick up a piece while already holding one"@)
    } else if cell(p.layout, y, x) == 0 {
        Some("no piece present at that coordinate"@)
    } else {
        None
    }
}

/// The message of a refused placement, if it is refused.
pub open spec fn place_message(p: UnownPuzzleState, y: int, x: int) -> Option<Seq<char>> {
    if p.holding_piece is None {
        Some("no piece is currently held"@)
    } else if cell(p.layout, y, x) != 0 {
        Some("target coordinate is already occupied"@)
    } else {
        None
    }
}

/// A refused move leaves the puzzle as it was and names the routine and the reason.
pub open spec fn refused_move(
    before: UnownPuzzleState,
    after: UnownPuzzleState,
    r: Result<(), SpecialRoutineError>,
    message: Option<Seq<char>>,
    routine: Seq<char>,
) -> bool {
    match r {
        Ok(()) => message is None,
        Err(e) => after == before && (message matches Some(m) && (e matches SpecialRoutineError::InvalidUnownPuzzleState {
            routine: rr,
            message: mm,
        } && rr@ == routine && mm@ == m)),
    }
}

/// What picking up at (`x`, `y`) does: refused with the first reason that applies, or the
/// cell empties and its piece is held.
pub open spec fn pick_up_outcome(
    before: UnownPuzzleState,
    after: UnownPuzzleState,
    y: int,
    x: int,
    r: Result<(), SpecialRoutineError>,
    routine: Seq<char>,
) -> bool {
    &&& refused_move(before, after, r, pick_up_message(before, y, x), routine)
    &&& r is Ok ==> moved(before, after, y, x, 0, Some(cell(before.layout, y, x)))
}

/// What putting down at (`x`, `y`) does: refused with the first reason that applies, or the
/// cell takes the held piece and the hand empties.
pub open spec fn place_outcome(
    before: UnownPuzzleState,
    after: UnownPuzzleState,
    y: int,
    x: int,
    r: Result<(), SpecialRoutineError>,
    routine: Seq<char>,
) -> bool {
    &&& refused_move(before, after, r, place_message(before, y, x), routine)
    &&& r is Ok ==> moved(before, after, y, x, before.holding_piece->0, None)
}

/// Picks up the piece at (`x`, `y`): the cell empties and the piece is held.
pub fn unown_pick_up_piece(puzzle: &mut UnownPuzzleState, x: usize, y: usize, routine: &str) -> (r: Result<
    (),
    SpecialRoutineError,
>)
    requires
        x < 6,
        y < 6,
    ensures
        pick_up_outcome(*old(puzzle), *final(puzzle), y as int, x as int, r, routine@),
{
    if puzzle.holding_piece.is_some() {
        return Err(puzzle_error(routine, "cannot pick up a piece while already holding one"));
    }
    let piece = puzzle.layout[y][x];
    if piece == 0 {
        return Err(puzzle_error(routine, "no piece present at that coordinate"));
    }
    let mut row = puzzle.layout[y];
    row[x] = 0;
    puzzle.layout[y] = row;
    puzzle.holding_piece = Some(piece);
    Ok(())
}

/// Puts the held piece down at (`x`, `y`): the cell takes the piece and the hand empties.
pub fn unown_place_piece(puzzle: &mut UnownPuzzleState, x: usize, y: usize, routine: &str) -> (r: Result<
    (),
    SpecialRoutineError,
>)
    requires
        x < 6,
        y < 6,
    ensures
        place_outcome(*old(puzzle), *final(puzzle), y as int, x as int, r, routine@),
{
    let piece = match puzzle.holding_piece {
        Some(p) => p,
        None => {
            return Err(puzzle_error(routine, "no piece is currently held"));
        },
    };
    if puzzle.layout[y][x] != 0 {
        return Err(puzzle_error(routine, "target coordinate is already occupied"));
    }
    let mut row = puzzle.layout[y];
    row[x] = piece;
    puzzle.layout[y] = row;
    puzzle.holding_piece = None;
    Ok(())
}

/// The layout a saved layout text reads as, when it has no problem.
pub open spec fn layout_read_as(raw: Seq<char>, l: [[u8; 6]; 6]) -> bool {
    &&& layout_problem(raw) is None
    &&& forall|y: int, x: int|
        0 <= y < 6 && 0 <= x < 6 ==> bounded_value(#[trigger] raw_cell(raw, y, x), 255) == Some(cell(l, y, x) as int)
}

/// Whether the saved values of a puzzle load: a layout text with no problem, a held piece
/// that is a byte if one is saved, and a state that passes the puzzle checks.
pub open spec fn puzzle_loads(
    raw_layout: Option<Seq<char>>,
    raw_holding_piece: Option<Seq<char>>,
    p: UnownPuzzleState,
) -> bool {
    &&& raw_layout matches Some(rl) && layout_read_as(rl, p.layout)
    &&& match raw_holding_piece {
        Some(h) => p.holding_piece matches Some(v) && bounded_value(h, 255) == Some(v as int),
        None => p.holding_piece is None,
    }
    &&& puzzle_state_message(p.layout, p.holding_piece) is None
}

/// Loads a puzzle from its saved values: the layout text, and the held piece's text if one
/// is saved. Refused when there is no layout, when the layout or the held piece cannot be
/// read, and when the state fails the puzzle checks.
fn load_unown_puzzle_values(
    raw_layout: Option<&str>,
    raw_holding_piece: Option<&str>,
    routine: &str,
    puzzle_id: &str,
) -> (r: Result<UnownPuzzleState, SpecialRoutineError>)
    ensures
        match r {
            Ok(p) => puzzle_loads(
                match raw_layout {
                    Some(x) => Some(x@),
                    None => None,
                },
                match raw_holding_piece {
                    Some(x) => Some(x@),
                    None => None,
                },
                p,
            ),
            Err(e) => match raw_layout {
                None => e matches SpecialRoutineError::InvalidUnownPuzzleState { routine: rr, message: m } && rr@
                    == routine@ && m@ == "puzzle "@ + puzzle_id@ + " has no active layout"@,
                Some(rl) => (layout_problem(rl@) matches Some(pp) && layout_error(e, pp, routine@, rl@)) || (
                layout_problem(rl@) is None && match raw_holding_piece {
                    Some(h) => bounded_value(h@, 255) is None && numeric_error(e, routine@, h@),
                    None => false,
                }) || exists|l: [[u8; 6]; 6], held: Option<u8>|
                    layout_read_as(rl@, l) && match raw_holding_piece {
                        Some(h) => held matches Some(v) && bounded_value(h@, 255) == Some(v as int),
                        None => held is None,
                    } && (#[trigger] puzzle_state_message(l, held) matches Some(m) && (e matches SpecialRoutineError::InvalidUnownPuzzleState {
                        routine: rr,
                        message: mm,
                    } && rr@ == routine@ && mm@ == m)),
            },
        },
{
    let raw = match raw_layout {
        Some(raw) => raw,
        None => {
            let mut v = text_chars("puzzle ");
            let mut id = text_chars(puzzle_id);
            let mut tail = text_chars(" has no active layout");
            v.append(&mut id);
            v.append(&mut tail);
            let message = text_from_chars(&v);
            return Err(SpecialRoutineError::InvalidUnownPuzzleState { routine: copy_text(routine), message });
        },
    };
    let layout = parse_unown_layout(routine, raw)?;
    let holding_piece: Option<u8> = match raw_holding_piece {
        Some(h) => {
            let chars = text_chars(h);
            proof {
                assert(chars@.skip(0) =~= h@);
            }
            match read_bounded(&chars, 0, 255) {
                Some(v) => Some(v as u8),
                None => {
                    return Err(SpecialRoutineError::InvalidNumericValue { routine: copy_text(routine), value: copy_text(h) });
                },
            }
        },
        None => None,
    };
    proof {
        assert(layout_read_as(raw@, layout));
        assert forall|y: int, x: int| 0 <= y < 6 && 0 <= x < 6 implies #[trigger] cell(layout, y, x) <= 16 by {
            assert(bounded_value(raw_cell(raw@, y, x), 255) == Some(cell(layout, y, x) as int));
            lemma_layout_cells_are_pieces(raw@, y, x);
        }
    }
    match validate_unown_puzzle_state(routine, &layout, holding_piece) {
        Ok(()) => {},
        Err(e) => {
            return Err(e);
        },
    }
    Ok(UnownPuzzleState { layout, holding_piece })
}

/// The script variable that holds a puzzle's layout text.
pub open spec fn layout_key(puzzle_id: Seq<char>) -> Seq<char> {
    "unown_layout"@ + seq!['_'] + puzzle_id
}

/// The script variable that holds a puzzle's held piece.
pub open spec fn holding_key(puzzle_id: Seq<char>) -> Seq<char> {
    "unown_holding_piece"@ + seq!['_'] + puzzle_id
}

/// The text a script variable holds, if it is set.
pub open spec fn variable_text(variables: Map<Seq<char>, String>, key: Seq<char>) -> Option<Seq<char>> {
    if variables.contains_key(key) {
        Some(variables[key]@)
    } else {
        None
    }
}

/// The outcome of loading a puzzle from the texts its variables hold.
pub open spec fn load_outcome(
    raw_layout: Option<Seq<char>>,
    raw_holding_piece: Option<Seq<char>>,
    routine: Seq<char>,
    puzzle_id: Seq<char>,
    r: Result<UnownPuzzleState, SpecialRoutineError>,
) -> bool {
    match r {
        Ok(p) => puzzle_loads(raw_layout, raw_holding_piece, p),
        Err(e) => match raw_layout {
            None => e matches SpecialRoutineError::InvalidUnownPuzzleState { routine: rr, message: m } && rr@ == routine
                && m@ == "puzzle "@ + puzzle_id + " has no active layout"@,
            Some(rl) => (layout_problem(rl) matches Some(pp) && layout_error(e, pp, routine, rl)) || (layout_problem(
                rl,
            ) is None && match raw_holding_piece {
                Some(h) => bounded_value(h, 255) is None && numeric_error(e, routine, h),
                None => false,
            }) || exists|l: [[u8; 6]; 6], held: Option<u8>|
                layout_read_as(rl, l) && match raw_holding_piece {
                    Some(h) => held matches Some(v) && bounded_value(h, 255) == Some(v as int),
                    None => held is None,
                } && (#[trigger] puzzle_state_message(l, held) matches Some(m) && (e matches SpecialRoutineError::InvalidUnownPuzzleState {
                    routine: rr,
                    message: mm,
                } && rr@ == routine && mm@ == m)),
        },
    }
}

/// Loads a puzzle from the script variables: its layout text and, if set, its held piece.
pub fn load_unown_puzzle_state(variables: &TextMap<String>, routine: &str, puzzle_id: &str) -> (r: Result<
    UnownPuzzleState,
    SpecialRoutineError,
>)
    ensures
        load_outcome(
            variable_text(variables.view(), layout_key(puzzle_id@)),
            variable_text(variables.view(), holding_key(puzzle_id@)),
            routine@,
            puzzle_id@,
            r,
        ),
{
    let lk = unown_puzzle_variable_key("unown_layout", puzzle_id);
    let hk = unown_puzzle_variable_key("unown_holding_piece", puzzle_id);
    let raw_layout: Option<&str> = match variables.get(lk.as_str()) {
        Some(v) => Some(v.as_str()),
        None => None,
    };
    let raw_holding: Option<&str> = match variables.get(hk.as_str()) {
        Some(v) => Some(v.as_str()),
        None => None,
    };
    load_unown_puzzle_values(raw_layout, raw_holding, routine, puzzle_id)
}

/// The variables after a puzzle is stored: its layout text, its held piece set or cleared,
/// and the move's action and coordinates cleared.
pub open spec fn stored_variables(
    variables: Map<Seq<char>, String>,
    puzzle_id: Seq<char>,
    puzzle: UnownPuzzleState,
    layout_text: String,
    held_text: String,
) -> bool {
    &&& layout_text@ == encoded_layout(puzzle.layout)
    &&& (puzzle.holding_piece matches Some(v) ==> held_text@ == decimal_digits(v as nat))
    &&& variables == match puzzle.holding_piece {
        Some(_) => variables_with(variables, puzzle_id, layout_text, Some(held_text)),
        None => variables_with(variables, puzzle_id, layout_text, None),
    }
}

pub open spec fn variables_with(
    before: Map<Seq<char>, String>,
    puzzle_id: Seq<char>,
    layout_text: String,
    held_text: Option<String>,
) -> Map<Seq<char>, String> {
    let with_layout = before.insert(layout_key(puzzle_id), layout_text);
    let with_held = match held_text {
        Some(t) => with_layout.insert(holding_key(puzzle_id), t),
        None => with_layout.remove(holding_key(puzzle_id)),
    };
    with_held.remove("unown_action"@).remove("unown_x"@).remove("unown_y"@)
}

/// Stores a puzzle in the script variables: the layout text, the held piece (or its removal),
/// and the clearing of the move's action and coordinates.
pub fn store_unown_puzzle_state(variables: &mut TextMap<String>, puzzle_id: &str, puzzle: &UnownPuzzleState)
    ensures
        exists|layout_text: String, held_text: String|
            #![trigger variables_with(old(variables).view(), puzzle_id@, layout_text, Some(held_text))]
            layout_text@ == encoded_layout(puzzle.layout) && (puzzle.holding_piece matches Some(v) ==> held_text@
                == decimal_digits(v as nat)) && final(variables).view() == match puzzle.holding_piece {
                Some(_) => variables_with(old(variables).view(), puzzle_id@, layout_text, Some(held_text)),
                None => variables_with(old(variables).view(), puzzle_id@, layout_text, None),
            },
{
    let ghost before = variables.view();
    let lk = unown_puzzle_variable_key("unown_layout", puzzle_id);
    let layout_text = encode_unown_layout(&puzzle.layout);
    let ghost lt = layout_text;
    variables.insert(lk, layout_text);
    let hk = unown_puzzle_variable_key("unown_holding_piece", puzzle_id);
    let ghost mut ht: String = arbitrary();
    match puzzle.holding_piece {
        Some(piece) => {
            let digits = decimal_chars(piece as u64);
            let t = text_from_chars(&digits);
            proof {
                ht = t;
            }
            variables.insert(hk, t);
        },
        None => {
            variables.remove(hk.as_str());
        },
    }
    variables.remove("unown_action");
    variables.remove("unown_x");
    variables.remove("unown_y");
    proof {
        match puzzle.holding_piece {
            Some(_) => {
                assert(variables.view() =~= variables_with(before, puzzle_id@, lt, Some(ht)));
            },
            None => {
                assert(variables.view() =~= variables_with(before, puzzle_id@, lt, None));
            },
        }
        assert(variables_with(before, puzzle_id@, lt, Some(ht)) == variables_with(before, puzzle_id@, lt, Some(ht)));
    }
}

/// A cell of a layout text with no problem reads as a piece.
proof fn lemma_layout_cells_are_pieces(raw: Seq<char>, y: int, x: int)
    requires
        layout_problem(raw) is None,
        0 <= y < 6,
        0 <= x < 6,
    ensures
        bounded_value(raw_cell(raw, y, x), 255) matches Some(v) && v <= 16,
{
    let rows = split_text(raw, ';');
    crate::special_routines::checks::lemma_first_error_none(row_checks(rows), 6);
    assert(row_checks(rows)(y) is None);
    let cells = split_text(rows[y], ',');
    crate::special_routines::checks::lemma_first_error_none(cell_checks(cells), 6);
    assert(cell_checks(cells)(x) is None);
}

/// Every character of pieces joined by `sep` is `sep` or a digit, when the pieces are digits.
proof fn lemma_join_digits(parts: Seq<Seq<char>>, sep: char)
    requires
        forall|i: int| 0 <= i < parts.len() ==> crate::text::all_digits(#[trigger] parts[i]),
    ensures
        forall|k: int|
            0 <= k < join_text(parts, sep).len() ==> #[trigger] join_text(parts, sep)[k] == sep || is_digit(
                join_text(parts, sep)[k],
            ),
    decreases parts.len(),
{
    if parts.len() > 1 {
        let init = parts.drop_last();
        assert forall|i: int| 0 <= i < init.len() implies crate::text::all_digits(#[trigger] init[i]) by {
            assert(init[i] == parts[i]);
        }
        lemma_join_digits(init, sep);
        let j = join_text(init, sep);
        let whole = join_text(parts, sep);
        assert(whole == j.push(sep) + parts.last());
        assert(crate::text::all_digits(parts[parts.len() - 1]));
        assert forall|k: int| 0 <= k < whole.len() implies #[trigger] whole[k] == sep || is_digit(whole[k]) by {
            if k < j.len() {
                assert(whole[k] == j[k]);
            } else if k == j.len() {
                assert(whole[k] == sep);
            } else {
                assert(whole[k] == parts.last()[k - j.len() - 1]);
            }
        }
    } else if parts.len() == 1 {
        assert(crate::text::all_digits(parts[0]));
    }
}

/// The cell texts of row `y` of a layout's saved text are the decimal digits of its cells.
pub proof fn lemma_encoded_row_cells(l: [[u8; 6]; 6], y: int)
    requires
        0 <= y < 6,
    ensures
        split_text(split_text(encoded_layout(l), ';')[y], ',') == row_cells(l, y),
        split_text(encoded_layout(l), ';') == layout_rows(l),
{
    let rows = layout_rows(l);
    assert forall|r: int| 0 <= r < 6 implies !(#[trigger] rows[r]).contains(';') by {
        let cells = row_cells(l, r);
        assert forall|i: int| 0 <= i < cells.len() implies crate::text::all_digits(#[trigger] cells[i]) by {
            lemma_decimal_digits_read_back(cell(l, r, i) as nat);
        }
        lemma_join_digits(cells, ',');
        if rows[r].contains(';') {
            let k = choose|k: int| 0 <= k < rows[r].len() && rows[r][k] == ';';
            assert(rows[r][k] == ',' || is_digit(rows[r][k]));
        }
    }
    crate::text::lemma_split_join(rows, ';');
    let cells = row_cells(l, y);
    assert forall|i: int| 0 <= i < cells.len() implies !(#[trigger] cells[i]).contains(',') by {
        lemma_decimal_digits_read_back(cell(l, y, i) as nat);
        if cells[i].contains(',') {
            let k = choose|k: int| 0 <= k < cells[i].len() && cells[i][k] == ',';
            assert(is_digit(cells[i][k]));
        }
    }
    crate::text::lemma_split_join(cells, ',');
}

/// The cell text of a cell value reads back as that value.
pub proof fn lemma_cell_reads_back(v: u8)
    ensures
        bounded_value(decimal_digits(v as nat), 255) == Some(v as int),
{
    lemma_decimal_digits_read_back(v as nat);
}

} // verus!
