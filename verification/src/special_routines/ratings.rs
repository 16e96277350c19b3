//! Professor Oak's Pokedex ratings and the Magikarp length table.
use vstd::prelude::*;
use crate::special_routines::checks::concat_issues;
use crate::special_routines::tokens::is_exact_nonempty_special_token;
use crate::special_routines::checks::{first_error, lemma_first_error_stays};
use crate::special_routines::errors::SpecialRoutineError;
use crate::pokemon::Pokemon;
use crate::special_routines::saved::MagikarpRecordState;
use crate::text::{
    copy_text, decimal_chars, decimal_digits, is_blank, is_blank_text, is_exact_token, is_trimmed, is_trimmed_text,
    message_with_number, text_eq, text_from_chars,
};

verus! {

/// One rating: Pokedex counts up to `caught_count_limit` get this fanfare and text.
#[derive(Debug, PartialEq, Eq)]
pub struct OakRatingEntry {
    pub caught_count_limit: usize,
    pub fanfare: String,
    pub text_label: String,
}

/// The ratings in ascending limit order.
#[derive(Debug, PartialEq, Eq)]
pub struct OakRatingTable(pub Vec<OakRatingEntry>);

/// A problem with the rating table.
#[derive(Debug, PartialEq, Eq)]
pub enum OakRatingTableIssue {
    InvalidFanfare { index: usize, fanfare: String },
    InvalidTextLabel { index: usize, text_label: String },
    InvalidOrder { index: usize, caught_count_limit: usize, previous_limit: usize },
    IncompleteCoverage { pokemon_count: usize, last_caught_count_limit: usize },
}

pub enum OakRatingTableIssueView {
    InvalidFanfare { index: usize, fanfare: Seq<char> },
    InvalidTextLabel { index: usize, text_label: Seq<char> },
    InvalidOrder { index: usize, caught_count_limit: usize, previous_limit: usize },
    IncompleteCoverage { pokemon_count: usize, last_caught_count_limit: usize },
}

impl View for OakRatingTableIssue {
    type V = OakRatingTableIssueView;

    open spec fn view(&self) -> OakRatingTableIssueView {
        match self {
            OakRatingTableIssue::InvalidFanfare { index, fanfare } => OakRatingTableIssueView::InvalidFanfare {
                index: *index,
                fanfare: fanfare@,
            },
            OakRatingTableIssue::InvalidTextLabel { index, text_label } => OakRatingTableIssueView::InvalidTextLabel {
                index: *index,
                text_label: text_label@,
            },
            OakRatingTableIssue::InvalidOrder { index, caught_count_limit, previous_limit } => {
                OakRatingTableIssueView::InvalidOrder {
                    index: *index,
                    caught_count_limit: *caught_count_limit,
                    previous_limit: *previous_limit,
                }
            },
            OakRatingTableIssue::IncompleteCoverage { pokemon_count, last_caught_count_limit } => {
                OakRatingTableIssueView::IncompleteCoverage {
                    pokemon_count: *pokemon_count,
                    last_caught_count_limit: *last_caught_count_limit,
                }
            },
        }
    }
}

pub open spec fn oak_issue_views(v: Seq<OakRatingTableIssue>) -> Seq<OakRatingTableIssueView> {
    v.map_values(|i: OakRatingTableIssue| i@)
}

/// The issues of rating `i`: malformed fanfare or text, or a limit not above the one before.
pub open spec fn oak_entry_issues(entries: Seq<OakRatingEntry>, i: int) -> Seq<OakRatingTableIssueView> {
    let e = entries[i];
    let a: Seq<OakRatingTableIssueView> = if !is_exact_token(e.fanfare@) {
        seq![OakRatingTableIssueView::InvalidFanfare { index: i as usize, fanfare: e.fanfare@ }]
    } else {
        seq![]
    };
    let b: Seq<OakRatingTableIssueView> = if !is_exact_token(e.text_label@) {
        seq![OakRatingTableIssueView::InvalidTextLabel { index: i as usize, text_label: e.text_label@ }]
    } else {
        seq![]
    };
    let c: Seq<OakRatingTableIssueView> = if i > 0 && e.caught_count_limit <= entries[i - 1].caught_count_limit {
        seq![OakRatingTableIssueView::InvalidOrder {
            index: i as usize,
            caught_count_limit: e.caught_count_limit,
            previous_limit: entries[i - 1].caught_count_limit,
        }]
    } else {
        seq![]
    };
    a + b + c
}

pub open spec fn oak_entry_checks(entries: Seq<OakRatingEntry>) -> spec_fn(int) -> Seq<OakRatingTableIssueView> {
    |i: int| oak_entry_issues(entries, i)
}

/// Every issue of the rating table, then whether the last limit falls short of the Pokedex.
pub open spec fn oak_issue_list(entries: Seq<OakRatingEntry>, pokemon_count: usize) -> Seq<OakRatingTableIssueView> {
    let tail: Seq<OakRatingTableIssueView> = if entries.len() > 0 && pokemon_count > 0
        && entries.last().caught_count_limit < pokemon_count {
        seq![OakRatingTableIssueView::IncompleteCoverage {
            pokemon_count,
            last_caught_count_limit: entries.last().caught_count_limit,
        }]
    } else {
        seq![]
    };
    concat_issues(oak_entry_checks(entries), entries.len() as int) + tail
}

/// Every problem with the rating table: malformed fanfares and texts, limits that do not
/// increase, and a last limit below the number of Pokemon.
pub fn oak_rating_table_issues(entries: &[OakRatingEntry], pokemon_count: usize) -> (issues: Vec<
    OakRatingTableIssue,
>)
    ensures
        oak_issue_views(issues@) == oak_issue_list(entries@, pokemon_count),
{
    let mut issues: Vec<OakRatingTableIssue> = Vec::new();
    let ghost f = oak_entry_checks(entries@);
    let n = entries.len();
    let mut i: usize = 0;
    while i < n
        invariant
            n == entries@.len(),
            f == oak_entry_checks(entries@),
            i <= n,
            oak_issue_views(issues@) == concat_issues(f, i as int),
        decreases n - i,
    {
        let ghost before = oak_issue_views(issues@);
        let e = &entries[i];
        if !is_exact_nonempty_special_token(e.fanfare.as_str()) {
            issues.push(OakRatingTableIssue::InvalidFanfare { index: i, fanfare: copy_text(e.fanfare.as_str()) });
        }
        if !is_exact_nonempty_special_token(e.text_label.as_str()) {
            issues.push(OakRatingTableIssue::InvalidTextLabel { index: i, text_label: copy_text(e.text_label.as_str()) });
        }
        if i > 0 && e.caught_count_limit <= entries[i - 1].caught_count_limit {
            issues.push(
                OakRatingTableIssue::InvalidOrder {
                    index: i,
                    caught_count_limit: e.caught_count_limit,
                    previous_limit: entries[i - 1].caught_count_limit,
                },
            );
        }
        proof {
            assert(oak_issue_views(issues@) =~= before + f(i as int));
        }
        i += 1;
    }
    let ghost body = oak_issue_views(issues@);
    if n > 0 && pokemon_count > 0 && entries[n - 1].caught_count_limit < pokemon_count {
        issues.push(
            OakRatingTableIssue::IncompleteCoverage {
                pokemon_count,
                last_caught_count_limit: entries[n - 1].caught_count_limit,
            },
        );
    }
    proof {
        assert(oak_issue_views(issues@) =~= oak_issue_list(entries@, pokemon_count));
    }
    issues
}

/// An entry a routine can use: fanfare and text label nonblank and trimmed.
pub open spec fn oak_entry_usable(e: OakRatingEntry) -> bool {
    !is_blank(e.fanfare@) && is_trimmed(e.fanfare@) && !is_blank(e.text_label@) && is_trimmed(e.text_label@)
}

/// The entry that rates `caught` Pokemon, reading the table from entry `k`: the first whose
/// limit covers the count, unless an entry on the way is unusable or out of order.
pub open spec fn oak_pick(es: Seq<OakRatingEntry>, caught: usize, k: int) -> Result<int, Seq<char>>
    decreases es.len() - k,
{
    if k >= es.len() || k < 0 {
        Err("no rating covers caught count "@ + decimal_digits(caught as nat))
    } else if !oak_entry_usable(es[k]) {
        Err("entries must contain exact nonempty fanfare and text label ids"@)
    } else if k > 0 && es[k].caught_count_limit <= es[k - 1].caught_count_limit {
        Err("caughtCountLimit values must be strictly increasing"@)
    } else if caught <= es[k].caught_count_limit {
        Ok(k)
    } else {
        oak_pick(es, caught, k + 1)
    }
}

/// The rating for `caught_count` Pokemon caught.
pub fn oak_rating<'a>(oak_ratings: &'a [OakRatingEntry], caught_count: usize, routine: &str) -> (r: Result<
    &'a OakRatingEntry,
    SpecialRoutineError,
>)
    ensures
        oak_ratings@.len() == 0 ==> (r matches Err(SpecialRoutineError::MissingOakRatingTable { routine: rr })
            && rr@ == routine@),
        oak_ratings@.len() > 0 ==> match r {
            Ok(e) => oak_pick(oak_ratings@, caught_count, 0) matches Ok(k) && *e == oak_ratings@[k],
            Err(err) => oak_pick(oak_ratings@, caught_count, 0) matches Err(m) && (err matches SpecialRoutineError::InvalidOakRatingTable {
                routine: rr,
                message: mm,
            } && rr@ == routine@ && mm@ == m),
        },
{
    if oak_ratings.len() == 0 {
        return Err(SpecialRoutineError::MissingOakRatingTable { routine: copy_text(routine) });
    }
    let mut k: usize = 0;
    while k < oak_ratings.len()
        invariant
            k <= oak_ratings@.len(),
            oak_pick(oak_ratings@, caught_count, 0) == oak_pick(oak_ratings@, caught_count, k as int),
        decreases oak_ratings.len() - k,
    {
        let entry = &oak_ratings[k];
        if is_blank_text(entry.fanfare.as_str()) || !is_trimmed_text(entry.fanfare.as_str()) || is_blank_text(
            entry.text_label.as_str(),
        ) || !is_trimmed_text(entry.text_label.as_str()) {
            return Err(SpecialRoutineError::InvalidOakRatingTable {
                routine: copy_text(routine),
                message: copy_text("entries must contain exact nonempty fanfare and text label ids"),
            });
        }
        if k > 0 && entry.caught_count_limit <= oak_ratings[k - 1].caught_count_limit {
            return Err(SpecialRoutineError::InvalidOakRatingTable {
                routine: copy_text(routine),
                message: copy_text("caughtCountLimit values must be strictly increasing"),
            });
        }
        if caught_count <= entry.caught_count_limit {
            return Ok(entry);
        }
        k += 1;
    }
    let message = message_with_number("no rating covers caught count ", caught_count as u64, "");
    proof {
        assert(""@ =~= Seq::<char>::empty()) by {
            reveal_strlit("");
        }
        assert(message@ =~= "no rating covers caught count "@ + decimal_digits(caught_count as nat));
    }
    Err(SpecialRoutineError::InvalidOakRatingTable { routine: copy_text(routine), message })
}


// ---- Magikarp lengths ----

/// One row of the Magikarp length table.
#[derive(Clone, Copy, Debug, PartialEq, Eq, Structural)]
pub struct MagikarpLengthEntry {
    pub threshold: u16,
    pub divisor: u8,
}

/// The fourteen rows of the Magikarp length table.
#[derive(Debug, PartialEq, Eq)]
pub struct MagikarpLengthTable(pub Vec<MagikarpLengthEntry>);

/// A problem with the Magikarp length table.
#[derive(Clone, Copy, Debug, PartialEq, Eq, Structural)]
pub enum MagikarpLengthTableIssue {
    InvalidEntryCount { actual: usize },
    InvalidDivisor { index: usize, threshold: u16 },
    InvalidThresholdOrder { index: usize, threshold: u16, previous_threshold: u16 },
}

pub open spec fn magikarp_entry_issues(entries: Seq<MagikarpLengthEntry>, i: int) -> Seq<MagikarpLengthTableIssue> {
    let e = entries[i];
    let a: Seq<MagikarpLengthTableIssue> = if e.divisor == 0 {
        seq![MagikarpLengthTableIssue::InvalidDivisor { index: i as usize, threshold: e.threshold }]
    } else {
        seq![]
    };
    let b: Seq<MagikarpLengthTableIssue> = if i > 0 && e.threshold <= entries[i - 1].threshold {
        seq![MagikarpLengthTableIssue::InvalidThresholdOrder {
            index: i as usize,
            threshold: e.threshold,
            previous_threshold: entries[i - 1].threshold,
        }]
    } else {
        seq![]
    };
    a + b
}

pub open spec fn magikarp_entry_checks(entries: Seq<MagikarpLengthEntry>) -> spec_fn(int) -> Seq<MagikarpLengthTableIssue> {
    |i: int| magikarp_entry_issues(entries, i)
}

pub open spec fn magikarp_issue_list(entries: Seq<MagikarpLengthEntry>) -> Seq<MagikarpLengthTableIssue> {
    let head: Seq<MagikarpLengthTableIssue> = if entries.len() != 14 {
        seq![MagikarpLengthTableIssue::InvalidEntryCount { actual: entries.len() as usize }]
    } else {
        seq![]
    };
    head + concat_issues(magikarp_entry_checks(entries), entries.len() as int)
}

/// Every problem with the Magikarp length table: not fourteen rows, a zero divisor, or a
/// threshold not above the one before.
pub fn magikarp_length_table_issues(entries: &[MagikarpLengthEntry]) -> (issues: Vec<MagikarpLengthTableIssue>)
    ensures
        issues@ == magikarp_issue_list(entries@),
{
    let mut issues: Vec<MagikarpLengthTableIssue> = Vec::new();
    if entries.len() != 14 {
        issues.push(MagikarpLengthTableIssue::InvalidEntryCount { actual: entries.len() });
    }
    let ghost head = issues@;
    let ghost f = magikarp_entry_checks(entries@);
    let n = entries.len();
    let mut i: usize = 0;
    while i < n
        invariant
            n == entries@.len(),
            f == magikarp_entry_checks(entries@),
            i <= n,
            issues@ == head + concat_issues(f, i as int),
        decreases n - i,
    {
        let ghost before = issues@;
        let e = entries[i];
        if e.divisor == 0 {
            issues.push(MagikarpLengthTableIssue::InvalidDivisor { index: i, threshold: e.threshold });
        }
        if i > 0 && e.threshold <= entries[i - 1].threshold {
            issues.push(
                MagikarpLengthTableIssue::InvalidThresholdOrder {
                    index: i,
                    threshold: e.threshold,
                    previous_threshold: entries[i - 1].threshold,
                },
            );
        }
        proof {
            assert(issues@ =~= before + f(i as int));
            assert(head + concat_issues(f, i + 1) =~= head + concat_issues(f, i as int) + f(i as int));
        }
        i += 1;
    }
    proof {
        assert(issues@ =~= magikarp_issue_list(entries@));
    }
    issues
}



/// The message of a table with the wrong number of rows.
pub open spec fn row_count_message(n: nat) -> Seq<char> {
    "expected exactly 14 source rows, found "@ + decimal_digits(n)
}

/// The message of a row with a zero divisor.
pub open spec fn zero_divisor_message(threshold: u16) -> Seq<char> {
    "threshold "@ + decimal_digits(threshold as nat) + " has zero divisor"@
}

pub open spec fn order_message() -> Seq<char> {
    "thresholds must be strictly increasing"@
}

/// Check `i` of the routine's table check: a nonzero divisor, then a threshold above the last.
pub open spec fn length_row_checks(entries: Seq<MagikarpLengthEntry>) -> spec_fn(int) -> Option<Seq<char>> {
    |i: int|
        if entries[i].divisor == 0 {
            Some(zero_divisor_message(entries[i].threshold))
        } else if i > 0 && entries[i].threshold <= entries[i - 1].threshold {
            Some(order_message())
        } else {
            None
        }
}

/// Why a routine cannot use the length table: `None` with no message when it is missing,
/// `Some(message)` when it is malformed.
pub open spec fn length_table_error(entries: Seq<MagikarpLengthEntry>) -> Option<Option<Seq<char>>> {
    if entries.len() == 0 {
        Some(None)
    } else if entries.len() != 14 {
        Some(Some(row_count_message(entries.len())))
    } else {
        match first_error(length_row_checks(entries), 14) {
            Some(m) => Some(Some(m)),
            None => None,
        }
    }
}

/// The routine-side error for a length table: missing, or malformed with a message.
pub open spec fn length_error_matches(e: SpecialRoutineError, routine: Seq<char>, expected: Option<Seq<char>>) -> bool {
    match expected {
        None => e matches SpecialRoutineError::MissingMagikarpLengthTable { routine: r } && r@ == routine,
        Some(m) => e matches SpecialRoutineError::InvalidMagikarpLengthTable { routine: r, message: msg }
            && r@ == routine && msg@ == m,
    }
}


/// A routine needs the fourteen-row length table with nonzero divisors and increasing thresholds.
fn require_magikarp_lengths(magikarp_lengths: &[MagikarpLengthEntry], routine: &str) -> (r: Result<
    (),
    SpecialRoutineError,
>)
    ensures
        match r {
            Ok(()) => length_table_error(magikarp_lengths@) is None,
            Err(e) => length_table_error(magikarp_lengths@) matches Some(expected) && length_error_matches(
                e,
                routine@,
                expected,
            ),
        },
{
    if magikarp_lengths.len() == 0 {
        return Err(SpecialRoutineError::MissingMagikarpLengthTable { routine: copy_text(routine) });
    }
    if magikarp_lengths.len() != 14 {
        let message = message_with_number("expected exactly 14 source rows, found ", magikarp_lengths.len() as u64, "");
        proof {
            assert(""@ =~= Seq::<char>::empty()) by {
                reveal_strlit("");
            }
            assert(message@ =~= row_count_message(magikarp_lengths@.len()));
        }
        return Err(SpecialRoutineError::InvalidMagikarpLengthTable { routine: copy_text(routine), message });
    }
    let ghost f = length_row_checks(magikarp_lengths@);
    let mut i: usize = 0;
    while i < 14
        invariant
            magikarp_lengths@.len() == 14,
            f == length_row_checks(magikarp_lengths@),
            i <= 14,
            first_error(f, i as int) is None,
        decreases 14 - i,
    {
        let entry = magikarp_lengths[i];
        if entry.divisor == 0 {
            let message = message_with_number("threshold ", entry.threshold as u64, " has zero divisor");
            proof {
                assert(f(i as int) == Some(zero_divisor_message(entry.threshold)));
                lemma_first_error_stays(f, i + 1, 14);
            }
            return Err(SpecialRoutineError::InvalidMagikarpLengthTable { routine: copy_text(routine), message });
        }
        if i > 0 && entry.threshold <= magikarp_lengths[i - 1].threshold {
            let message = copy_text("thresholds must be strictly increasing");
            proof {
                assert(f(i as int) == Some(order_message()));
                lemma_first_error_stays(f, i + 1, 14);
            }
            return Err(SpecialRoutineError::InvalidMagikarpLengthTable { routine: copy_text(routine), message });
        }
        i += 1;
    }
    Ok(())
}

/// A byte rotated right by one bit.
pub open spec fn rotr1(v: u8) -> u8 {
    (v / 2 + (v % 2) * 128) as u8
}

/// A byte rotated right by `count` bits.
pub open spec fn rotr(v: u8, count: nat) -> u8
    decreases count,
{
    if count == 0 { v } else { rotr1(rotr(v, (count - 1) as nat)) }
}

fn rotate_right_u8(value: u8, count: u8) -> (r: u8)
    ensures
        r == rotr(value, count as nat),
{
    let mut rotated = value;
    let mut k: u8 = 0;
    while k < count
        invariant
            k <= count,
            rotated == rotr(value, k as nat),
        decreases count - k,
    {
        rotated = rotated / 2 + (rotated % 2) * 128;
        k += 1;
    }
    rotated
}

/// Check `k`: the first row whose threshold's high byte is above `b`.
pub open spec fn threshold_row_checks(entries: Seq<MagikarpLengthEntry>, b: u8) -> spec_fn(int) -> Option<int> {
    |k: int| if b < entries[k].threshold / 256 { Some(k) } else { None }
}

pub open spec fn wrap_u16(x: int) -> u16 {
    (if x < 0 { x + 65536 } else if x >= 65536 { x - 65536 } else { x }) as u16
}

/// The length in millimetres the game computes from the DV bytes and trainer id.
pub open spec fn magikarp_length_mm(dv0: u8, dv1: u8, trainer_id: u16, entries: Seq<MagikarpLengthEntry>) -> u16 {
    let id_high = rotr((trainer_id / 256) as u8, 1);
    let id_low = rotr((trainer_id % 256) as u8, 1);
    let b = rotr(dv0, 2) ^ id_high;
    let c = rotr(dv1, 2) ^ id_low;
    let bc = b * 256 + c;
    if b == 0 && c < 10 {
        (c + 190) as u16
    } else {
        match first_error(threshold_row_checks(entries, b), entries.len() as int) {
            Some(k) => (((wrap_u16(bc - entries[k].threshold) as int / entries[k].divisor as int) % 256) + 100 * (2 + k)) as u16,
            None => wrap_u16(1600 + wrap_u16(bc - entries[entries.len() - 1].threshold)),
        }
    }
}

/// Feet and inches of a length in millimetres, with the inch count rounded down.
pub open spec fn feet_and_inches(mm: u16) -> (u8, u8) {
    let inches = (mm * 10) / 254;
    ((inches / 12) as u8, (inches % 12) as u8)
}

/// The Magikarp length, in feet and inches, for two DV bytes and a trainer id, using the
/// pack's length table.
pub fn calculate_magikarp_length_from_dv_bytes(
    dv0: u8,
    dv1: u8,
    trainer_id: u16,
    magikarp_lengths: &[MagikarpLengthEntry],
    routine: &str,
) -> (r: Result<(u8, u8), SpecialRoutineError>)
    ensures
        match r {
            Ok(length) => length_table_error(magikarp_lengths@) is None && length == feet_and_inches(
                magikarp_length_mm(dv0, dv1, trainer_id, magikarp_lengths@),
            ),
            Err(e) => length_table_error(magikarp_lengths@) matches Some(expected) && length_error_matches(
                e,
                routine@,
                expected,
            ),
        },
{
    require_magikarp_lengths(magikarp_lengths, routine)?;
    let id_high = rotate_right_u8((trainer_id / 256) as u8, 1);
    let id_low = rotate_right_u8((trainer_id % 256) as u8, 1);
    let b = rotate_right_u8(dv0, 2) ^ id_high;
    let c = rotate_right_u8(dv1, 2) ^ id_low;
    let bc: u16 = (b as u16) * 256 + (c as u16);
    let length_mm: u16 = if b == 0 && c < 10 {
        (c as u16) + 190
    } else {
        let ghost f = threshold_row_checks(magikarp_lengths@, b);
        let n = magikarp_lengths.len();
        let mut k: usize = 0;
        let mut resolved: Option<u16> = None;
        while k < n
            invariant_except_break
                resolved is None,
            invariant
                n == magikarp_lengths@.len(),
                n == 14,
                f == threshold_row_checks(magikarp_lengths@, b),
                k <= n,
                first_error(f, k as int) is None,
                length_table_error(magikarp_lengths@) is None,
                bc == b * 256 + c,
            ensures
                match resolved {
                    Some(v) => first_error(f, n as int) matches Some(j) && v == (((wrap_u16(
                        bc - magikarp_lengths@[j].threshold,
                    ) as int / magikarp_lengths@[j].divisor as int) % 256) + 100 * (2 + j)) as u16,
                    None => first_error(f, n as int) is None,
                },
            decreases n - k,
        {
            let entry = magikarp_lengths[k];
            if b < (entry.threshold / 256) as u8 {
                proof {
                    assert(f(k as int) == Some(k as int));
                    lemma_first_error_stays(f, k + 1, n as int);
                    assert(entry.divisor != 0) by {
                        if entry.divisor == 0 {
                            assert(length_row_checks(magikarp_lengths@)(k as int) is Some);
                            lemma_no_first_error_means_each_passes(length_row_checks(magikarp_lengths@), 14, k as int);
                        }
                    }
                }
                let delta: u16 = if bc >= entry.threshold {
                    bc - entry.threshold
                } else {
                    ((bc as u32 + 65536) - entry.threshold as u32) as u16
                };
                let quotient: u16 = (delta / (entry.divisor as u16)) % 256;
                resolved = Some(quotient + 100 * (2 + k as u16));
                break;
            }
            k += 1;
        }
        match resolved {
            Some(v) => v,
            None => {
                let last = magikarp_lengths[n - 1].threshold;
                let delta: u16 = if bc >= last {
                    bc - last
                } else {
                    ((bc as u32 + 65536) - last as u32) as u16
                };
                let total: u32 = 1600u32 + delta as u32;
                if total >= 65536 { (total - 65536) as u16 } else { total as u16 }
            },
        }
    };
    let total_inches: u32 = ((length_mm as u32) * 10) / 254;
    Ok(((total_inches / 12) as u8, (total_inches % 12) as u8))
}

/// When no check among `0..n` fails, each of them passes.
proof fn lemma_no_first_error_means_each_passes(f: spec_fn(int) -> Option<Seq<char>>, n: int, k: int)
    requires
        0 <= k < n,
        first_error(f, n) is None,
    ensures
        f(k) is None,
    decreases n,
{
    if k < n - 1 {
        lemma_no_first_error_means_each_passes(f, n - 1, k);
    }
}

/// A DV byte: the first DV in the high nibble, the second in the low one.
pub open spec fn dv_byte(high: u8, low: u8) -> u8 {
    ((high % 16) * 16 + low % 16) as u8
}

pub(crate) fn dv_byte_of(high: u8, low: u8) -> (b: u8)
    ensures
        b == dv_byte(high, low),
{
    let b = ((high & 0x0f) << 4) | (low & 0x0f);
    assert(((high & 0x0f) << 4) | (low & 0x0f) == ((high % 16) * 16 + low % 16) as u8) by (bit_vector);
    b
}

/// The Magikarp length of a Pokemon, from its attack/defense and speed/special DV bytes.
pub fn calculate_magikarp_length(
    pokemon: &Pokemon,
    trainer_id: u16,
    magikarp_lengths: &[MagikarpLengthEntry],
    routine: &str,
) -> (r: Result<(u8, u8), SpecialRoutineError>)
    ensures
        match r {
            Ok(length) => length_table_error(magikarp_lengths@) is None && length == feet_and_inches(
                magikarp_length_mm(
                    dv_byte(pokemon.dvs.attack, pokemon.dvs.defense),
                    dv_byte(pokemon.dvs.speed, pokemon.dvs.special),
                    trainer_id,
                    magikarp_lengths@,
                ),
            ),
            Err(e) => length_table_error(magikarp_lengths@) matches Some(expected) && length_error_matches(
                e,
                routine@,
                expected,
            ),
        },
{
    let dv0 = dv_byte_of(pokemon.dvs.attack, pokemon.dvs.defense);
    let dv1 = dv_byte_of(pokemon.dvs.speed, pokemon.dvs.special);
    calculate_magikarp_length_from_dv_bytes(dv0, dv1, trainer_id, magikarp_lengths, routine)
}

/// A length as the game prints it: feet, `'`, inches, `"`.
pub fn format_magikarp_length(feet: u8, inches: u8) -> (s: String)
    ensures
        s@ == decimal_digits(feet as nat) + seq!['\''] + decimal_digits(inches as nat) + seq!['"'],
{
    let mut v = decimal_chars(feet as u64);
    v.push('\'');
    let mut i = decimal_chars(inches as u64);
    v.append(&mut i);
    v.push('"');
    text_from_chars(&v)
}


// ---- the Magikarp length contest ----

/// The guru's answers: the shown Pokemon is no Magikarp, the player showed none, it is no
/// longer than the record, or it beats the record.
pub const MAGIKARP_NOT_MAGIKARP: u8 = 0;

pub const MAGIKARP_REFUSED: u8 = 1;

pub const MAGIKARP_TOO_SHORT: u8 = 2;

pub const MAGIKARP_BEAT_RECORD: u8 = 3;

/// A length in feet and inches beats another.
pub open spec fn longer_than(feet: u8, inches: u8, other_feet: u8, other_inches: u8) -> bool {
    feet > other_feet || (feet == other_feet && inches > other_inches)
}

/// What the guru measured and said.
#[derive(Debug, PartialEq, Eq)]
pub struct MagikarpLengthCheck {
    pub party_slot: usize,
    pub species: String,
    pub feet: u8,
    pub inches: u8,
    pub result: u8,
}

/// The guru measures the Pokemon the player shows (`None` when the player shows none): a
/// Magikarp's length becomes the current length, and a length beyond the record becomes the
/// record, held by the Pokemon's trainer.
pub fn check_magikarp_length(
    record: &mut MagikarpRecordState,
    shown: Option<(usize, &Pokemon)>,
    player_id: u16,
    magikarp_lengths: &[MagikarpLengthEntry],
    routine: &str,
) -> (r: Result<MagikarpLengthCheck, SpecialRoutineError>)
    ensures
        !longer_than(old(record).best_feet, old(record).best_inches, final(record).best_feet, final(record).best_inches),
        match shown {
            None => r matches Ok(c) && c.party_slot == 0 && c.species@ == Seq::<char>::empty() && c.feet == 0
                && c.inches == 0 && c.result == MAGIKARP_REFUSED && *final(record) == *old(record),
            Some((slot, p)) => if p.species.id@ != "MAGIKARP"@ {
                r matches Ok(c) && c.party_slot == slot && c.species@ == p.species.id@ && c.feet == 0 && c.inches == 0
                    && c.result == MAGIKARP_NOT_MAGIKARP && *final(record) == *old(record)
            } else {
                match length_table_error(magikarp_lengths@) {
                    Some(expected) => r matches Err(e) && length_error_matches(e, routine@, expected)
                        && *final(record) == *old(record),
                    None => {
                        let length = feet_and_inches(
                            magikarp_length_mm(
                                dv_byte(p.dvs.attack, p.dvs.defense),
                                dv_byte(p.dvs.speed, p.dvs.special),
                                player_id,
                                magikarp_lengths@,
                            ),
                        );
                        &&& r matches Ok(c) && c.party_slot == slot && c.species@ == p.species.id@ && c.feet == length.0
                            && c.inches == length.1
                        &&& final(record).current_feet == length.0
                        &&& final(record).current_inches == length.1
                        &&& if longer_than(length.0, length.1, old(record).best_feet, old(record).best_inches) {
                            &&& r->Ok_0.result == MAGIKARP_BEAT_RECORD
                            &&& final(record).best_feet == length.0
                            &&& final(record).best_inches == length.1
                            &&& final(record).best_owner_name@ == p.original_trainer_name@
                        } else {
                            &&& r->Ok_0.result == MAGIKARP_TOO_SHORT
                            &&& final(record).best_feet == old(record).best_feet
                            &&& final(record).best_inches == old(record).best_inches
                            &&& final(record).best_owner_name == old(record).best_owner_name
                        }
                    },
                }
            },
        },
{
    let (party_slot, pokemon) = match shown {
        None => {
            return Ok(
                MagikarpLengthCheck {
                    party_slot: 0,
                    species: String::new(),
                    feet: 0,
                    inches: 0,
                    result: MAGIKARP_REFUSED,
                },
            );
        },
        Some(s) => s,
    };
    if !text_eq(pokemon.species.id.as_str(), "MAGIKARP") {
        return Ok(
            MagikarpLengthCheck {
                party_slot,
                species: copy_text(pokemon.species.id.as_str()),
                feet: 0,
                inches: 0,
                result: MAGIKARP_NOT_MAGIKARP,
            },
        );
    }
    let (feet, inches) = match calculate_magikarp_length(pokemon, player_id, magikarp_lengths, routine) {
        Ok(length) => length,
        Err(e) => return Err(e),
    };
    record.current_feet = feet;
    record.current_inches = inches;
    let result = if feet > record.best_feet || (feet == record.best_feet && inches > record.best_inches) {
        record.best_feet = feet;
        record.best_inches = inches;
        record.best_owner_name = copy_text(pokemon.original_trainer_name.as_str());
        MAGIKARP_BEAT_RECORD
    } else {
        MAGIKARP_TOO_SHORT
    };
    Ok(MagikarpLengthCheck { party_slot, species: copy_text(pokemon.species.id.as_str()), feet, inches, result })
}

} // verus!
