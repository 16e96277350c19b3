//! The Bug-Catching Contest configuration and its checks.
use vstd::prelude::*;
use crate::ordered::TextSet;
use crate::pokemon::{CaughtData, Party, Pokemon, TimeOfDay};
use crate::special_routines::ratings::{dv_byte, dv_byte_of};
use crate::special_routines::tokens::is_exact_nonempty_special_token;
use crate::special_routines::battle_tower::views_of;
use crate::special_routines::errors::SpecialRoutineError;
use crate::text::{
    copy_text, decimal_chars, decimal_digits, is_blank, is_blank_text, is_exact_token, is_trimmed, is_trimmed_text,
    message_with_number, text_chars, text_eq, text_from_chars,
};

verus! {

/// One row of the contest's encounter table.
#[derive(Debug, PartialEq, Eq)]
pub struct BugContestEncounterEntry {
    pub weight: u8,
    pub species: String,
    pub min_level: u8,
    pub max_level: u8,
}

/// The contest's balls, timer, contestants and encounter table.
#[derive(Debug, PartialEq, Eq)]
pub struct BugContestConfig {
    pub park_balls: u8,
    pub timer_minutes: u8,
    pub timer_seconds: u8,
    pub selected_contestant_count: usize,
    pub contestant_flags: Vec<String>,
    pub encounters: Vec<BugContestEncounterEntry>,
}

/// What is wrong with the shape of the encounter table.
#[derive(Clone, Copy, Debug, PartialEq, Eq, Structural)]
pub enum EncounterTableProblem {
    /// Not ten weighted rows and the sentinel.
    WrongRowCount { rows: usize },
    /// The last row's weight is not the normalized `-1` sentinel, 255.
    BadSentinelWeight { weight: u8 },
    /// An ordinary row's weight is outside 1..=254.
    BadWeight { index: usize, weight: u8 },
    /// The ordinary weights do not total 100.
    WrongTotal { total: u16 },
}

pub open spec fn encounter_weights(es: Seq<BugContestEncounterEntry>) -> Seq<u8> {
    es.map_values(|e: BugContestEncounterEntry| e.weight)
}

pub open spec fn bad_weight(w: u8) -> bool {
    w == 0 || w == 255
}

/// The first of the first `n` weights that is out of range.
pub open spec fn first_bad_weight(ws: Seq<u8>, n: int) -> Option<int>
    decreases n,
{
    if n <= 0 {
        None
    } else {
        match first_bad_weight(ws, n - 1) {
            Some(j) => Some(j),
            None => if bad_weight(ws[n - 1]) { Some(n - 1) } else { None },
        }
    }
}

pub open spec fn weight_sum(ws: Seq<u8>, n: int) -> int
    decreases n,
{
    if n <= 0 { 0 } else { weight_sum(ws, n - 1) + ws[n - 1] }
}

/// The first problem of the encounter table, if any.
pub open spec fn encounter_table_problem(es: Seq<BugContestEncounterEntry>) -> Option<EncounterTableProblem> {
    let ws = encounter_weights(es);
    if es.len() != 11 {
        Some(EncounterTableProblem::WrongRowCount { rows: es.len() as usize })
    } else if ws[10] != 255 {
        Some(EncounterTableProblem::BadSentinelWeight { weight: ws[10] })
    } else if first_bad_weight(ws, 10) is Some {
        let j = first_bad_weight(ws, 10)->0;
        Some(EncounterTableProblem::BadWeight { index: j as usize, weight: ws[j] })
    } else if weight_sum(ws, 10) != 100 {
        Some(EncounterTableProblem::WrongTotal { total: weight_sum(ws, 10) as u16 })
    } else {
        None
    }
}

proof fn lemma_weight_sum_bounds(ws: Seq<u8>, n: int)
    requires
        0 <= n <= ws.len(),
    ensures
        0 <= weight_sum(ws, n) <= 255 * n,
    decreases n,
{
    if n > 0 {
        lemma_weight_sum_bounds(ws, n - 1);
    }
}

/// The first problem of the encounter table: not eleven rows, a last row that is not the
/// sentinel, an ordinary weight outside 1..=254, or ordinary weights not totalling 100.
fn find_encounter_table_problem(encounters: &[BugContestEncounterEntry]) -> (r: Result<
    (),
    EncounterTableProblem,
>)
    ensures
        match r {
            Ok(()) => encounter_table_problem(encounters@) is None,
            Err(p) => encounter_table_problem(encounters@) == Some(p),
        },
{
    let ghost ws = encounter_weights(encounters@);
    if encounters.len() != 11 {
        return Err(EncounterTableProblem::WrongRowCount { rows: encounters.len() });
    }
    if encounters[10].weight != 255 {
        return Err(EncounterTableProblem::BadSentinelWeight { weight: encounters[10].weight });
    }
    let mut total: u16 = 0;
    let mut index: usize = 0;
    while index < 10
        invariant
            encounters@.len() == 11,
            ws == encounter_weights(encounters@),
            ws[10] == 255,
            index <= 10,
            first_bad_weight(ws, index as int) is None,
            total == weight_sum(ws, index as int),
        decreases 10 - index,
    {
        proof {
            lemma_weight_sum_bounds(ws, index as int);
        }
        let w = encounters[index].weight;
        if w == 0 || w == 255 {
            proof {
                assert(ws[index as int] == w);
                assert(first_bad_weight(ws, index + 1) == Some(index as int));
                lemma_first_bad_stays(ws, index + 1, 10);
            }
            return Err(EncounterTableProblem::BadWeight { index, weight: w });
        }
        total = total + w as u16;
        index += 1;
    }
    if total != 100 {
        return Err(EncounterTableProblem::WrongTotal { total });
    }
    Ok(())
}

/// The message the table check gives for a problem.
pub open spec fn encounter_problem_message(p: EncounterTableProblem) -> Seq<char> {
    match p {
        EncounterTableProblem::WrongRowCount { rows } => "bug contest encounters must contain 10 weighted rows plus one sentinel, found "@
            + decimal_digits(rows as nat) + " rows"@,
        EncounterTableProblem::BadSentinelWeight { weight } => "bug contest final encounter weight must be the normalized -1 sentinel 255, found "@
            + decimal_digits(weight as nat),
        EncounterTableProblem::BadWeight { index, weight } => "bug contest encounter weight at index "@ + decimal_digits(
            index as nat,
        ) + " must be 1..=254, found "@ + decimal_digits(weight as nat),
        EncounterTableProblem::WrongTotal { total } => "bug contest ordinary encounter weights must total 100, found "@
            + decimal_digits(total as nat),
    }
}

fn append_text(v: &mut Vec<char>, s: &str)
    ensures
        final(v)@ == old(v)@ + s@,
{
    let mut t = text_chars(s);
    v.append(&mut t);
}

fn append_number(v: &mut Vec<char>, n: u64)
    ensures
        final(v)@ == old(v)@ + decimal_digits(n as nat),
{
    let mut t = decimal_chars(n);
    v.append(&mut t);
}

fn encounter_problem_text(p: EncounterTableProblem) -> (s: String)
    ensures
        s@ == encounter_problem_message(p),
{
    let mut v: Vec<char> = Vec::new();
    match p {
        EncounterTableProblem::WrongRowCount { rows } => {
            append_text(&mut v, "bug contest encounters must contain 10 weighted rows plus one sentinel, found ");
            append_number(&mut v, rows as u64);
            append_text(&mut v, " rows");
        },
        EncounterTableProblem::BadSentinelWeight { weight } => {
            append_text(&mut v, "bug contest final encounter weight must be the normalized -1 sentinel 255, found ");
            append_number(&mut v, weight as u64);
        },
        EncounterTableProblem::BadWeight { index, weight } => {
            append_text(&mut v, "bug contest encounter weight at index ");
            append_number(&mut v, index as u64);
            append_text(&mut v, " must be 1..=254, found ");
            append_number(&mut v, weight as u64);
        },
        EncounterTableProblem::WrongTotal { total } => {
            append_text(&mut v, "bug contest ordinary encounter weights must total 100, found ");
            append_number(&mut v, total as u64);
        },
    }
    proof {
        assert(v@ =~= encounter_problem_message(p));
    }
    text_from_chars(&v)
}

/// The encounter table holds ten weighted rows totalling 100 and a final sentinel row; the
/// error is the message of the first problem.
pub fn validate_bug_contest_encounters(encounters: &[BugContestEncounterEntry]) -> (r: Result<(), String>)
    ensures
        match r {
            Ok(()) => encounter_table_problem(encounters@) is None,
            Err(m) => encounter_table_problem(encounters@) matches Some(p) && m@ == encounter_problem_message(p),
        },
{
    match find_encounter_table_problem(encounters) {
        Ok(()) => Ok(()),
        Err(p) => Err(encounter_problem_text(p)),
    }
}

/// Once a bad weight is found, a longer prefix finds the same one.
proof fn lemma_first_bad_stays(ws: Seq<u8>, n: int, m: int)
    requires
        0 <= n <= m,
        first_bad_weight(ws, n) is Some,
    ensures
        first_bad_weight(ws, m) == first_bad_weight(ws, n),
    decreases m - n,
{
    if m > n {
        lemma_first_bad_stays(ws, n, m - 1);
    }
}

/// A problem with the contest configuration.
#[derive(Debug, PartialEq, Eq)]
pub enum BugContestConfigIssue {
    MissingParkBalls,
    InvalidTimerSeconds { timer_seconds: u8 },
    MissingSelectedContestantCount,
    SelectedContestantCountExceedsFlags { selected_contestant_count: usize, contestant_flag_count: usize },
    InvalidContestantFlag { index: usize, flag: String },
    DuplicateContestantFlag { index: usize, flag: String },
    UnknownContestantFlag { index: usize, flag: String },
    InvalidEncounterTable { message: String },
    InvalidEncounterSpecies { index: usize, species: String },
    UnsupportedEncounterSpecies { index: usize, species: String },
    InvalidEncounterLevelRange { index: usize, min_level: u8, max_level: u8 },
}

/// A contest issue with its texts as character sequences.
pub enum BugContestConfigIssueView {
    MissingParkBalls,
    InvalidTimerSeconds { timer_seconds: u8 },
    MissingSelectedContestantCount,
    SelectedContestantCountExceedsFlags { selected_contestant_count: usize, contestant_flag_count: usize },
    InvalidContestantFlag { index: usize, flag: Seq<char> },
    DuplicateContestantFlag { index: usize, flag: Seq<char> },
    UnknownContestantFlag { index: usize, flag: Seq<char> },
    InvalidEncounterTable { message: Seq<char> },
    InvalidEncounterSpecies { index: usize, species: Seq<char> },
    UnsupportedEncounterSpecies { index: usize, species: Seq<char> },
    InvalidEncounterLevelRange { index: usize, min_level: u8, max_level: u8 },
}

impl View for BugContestConfigIssue {
    type V = BugContestConfigIssueView;

    open spec fn view(&self) -> BugContestConfigIssueView {
        match self {
            BugContestConfigIssue::MissingParkBalls => BugContestConfigIssueView::MissingParkBalls,
            BugContestConfigIssue::InvalidTimerSeconds { timer_seconds } => {
                BugContestConfigIssueView::InvalidTimerSeconds { timer_seconds: *timer_seconds }
            },
            BugContestConfigIssue::MissingSelectedContestantCount => {
                BugContestConfigIssueView::MissingSelectedContestantCount
            },
            BugContestConfigIssue::SelectedContestantCountExceedsFlags {
                selected_contestant_count,
                contestant_flag_count,
            } => BugContestConfigIssueView::SelectedContestantCountExceedsFlags {
                selected_contestant_count: *selected_contestant_count,
                contestant_flag_count: *contestant_flag_count,
            },
            BugContestConfigIssue::InvalidContestantFlag { index, flag } => {
                BugContestConfigIssueView::InvalidContestantFlag { index: *index, flag: flag@ }
            },
            BugContestConfigIssue::DuplicateContestantFlag { index, flag } => {
                BugContestConfigIssueView::DuplicateContestantFlag { index: *index, flag: flag@ }
            },
            BugContestConfigIssue::UnknownContestantFlag { index, flag } => {
                BugContestConfigIssueView::UnknownContestantFlag { index: *index, flag: flag@ }
            },
            BugContestConfigIssue::InvalidEncounterTable { message } => {
                BugContestConfigIssueView::InvalidEncounterTable { message: message@ }
            },
            BugContestConfigIssue::InvalidEncounterSpecies { index, species } => {
                BugContestConfigIssueView::InvalidEncounterSpecies { index: *index, species: species@ }
            },
            BugContestConfigIssue::UnsupportedEncounterSpecies { index, species } => {
                BugContestConfigIssueView::UnsupportedEncounterSpecies { index: *index, species: species@ }
            },
            BugContestConfigIssue::InvalidEncounterLevelRange { index, min_level, max_level } => {
                BugContestConfigIssueView::InvalidEncounterLevelRange {
                    index: *index,
                    min_level: *min_level,
                    max_level: *max_level,
                }
            },
        }
    }
}

pub open spec fn contest_issue_views(v: Seq<BugContestConfigIssue>) -> Seq<BugContestConfigIssueView> {
    v.map_values(|i: BugContestConfigIssue| i@)
}

/// Flag `j` is a valid flag that already occurred among the valid flags before it.
pub open spec fn flag_seen_before(flags: Seq<Seq<char>>, j: int) -> bool {
    exists|k: int| 0 <= k < j && is_exact_token(flags[k]) && flags[k] == flags[j]
}

/// The issues of contestant flag `j`.
pub open spec fn flag_issues(flags: Seq<Seq<char>>, known: Set<Seq<char>>, j: int) -> Seq<BugContestConfigIssueView> {
    let f = flags[j];
    if !is_exact_token(f) {
        seq![BugContestConfigIssueView::InvalidContestantFlag { index: j as usize, flag: f }]
    } else {
        let dup: Seq<BugContestConfigIssueView> = if flag_seen_before(flags, j) {
            seq![BugContestConfigIssueView::DuplicateContestantFlag { index: j as usize, flag: f }]
        } else {
            seq![]
        };
        let unknown: Seq<BugContestConfigIssueView> = if !known.contains(f) {
            seq![BugContestConfigIssueView::UnknownContestantFlag { index: j as usize, flag: f }]
        } else {
            seq![]
        };
        dup + unknown
    }
}

pub open spec fn flags_issues(flags: Seq<Seq<char>>, known: Set<Seq<char>>, n: int) -> Seq<BugContestConfigIssueView>
    decreases n,
{
    if n <= 0 { seq![] } else { flags_issues(flags, known, n - 1) + flag_issues(flags, known, n - 1) }
}

/// The issues of encounter row `j`.
pub open spec fn encounter_issues(e: BugContestEncounterEntry, j: int) -> Seq<BugContestConfigIssueView> {
    let a: Seq<BugContestConfigIssueView> = if !is_exact_token(e.species@) {
        seq![BugContestConfigIssueView::InvalidEncounterSpecies { index: j as usize, species: e.species@ }]
    } else {
        seq![]
    };
    let b: Seq<BugContestConfigIssueView> = if e.species@ == "UNOWN"@ {
        seq![BugContestConfigIssueView::UnsupportedEncounterSpecies { index: j as usize, species: e.species@ }]
    } else {
        seq![]
    };
    let c: Seq<BugContestConfigIssueView> = if e.min_level == 0 || e.min_level > e.max_level || e.max_level > 100 {
        seq![BugContestConfigIssueView::InvalidEncounterLevelRange {
            index: j as usize,
            min_level: e.min_level,
            max_level: e.max_level,
        }]
    } else {
        seq![]
    };
    a + b + c
}

pub open spec fn encounters_issues(es: Seq<BugContestEncounterEntry>, n: int) -> Seq<BugContestConfigIssueView>
    decreases n,
{
    if n <= 0 { seq![] } else { encounters_issues(es, n - 1) + encounter_issues(es[n - 1], n - 1) }
}

pub open spec fn flag_texts(v: Seq<String>) -> Seq<Seq<char>> {
    v.map_values(|s: String| s@)
}

/// The issues of the balls, timer and contestant count.
pub open spec fn contest_head_list(c: BugContestConfig) -> Seq<BugContestConfigIssueView> {
    let a: Seq<BugContestConfigIssueView> = if c.park_balls == 0 {
        seq![BugContestConfigIssueView::MissingParkBalls]
    } else {
        seq![]
    };
    let b: Seq<BugContestConfigIssueView> = if c.timer_seconds > 59 {
        seq![BugContestConfigIssueView::InvalidTimerSeconds { timer_seconds: c.timer_seconds }]
    } else {
        seq![]
    };
    let d: Seq<BugContestConfigIssueView> = if c.selected_contestant_count == 0 {
        seq![BugContestConfigIssueView::MissingSelectedContestantCount]
    } else {
        seq![]
    };
    let e: Seq<BugContestConfigIssueView> = if c.contestant_flags@.len() < c.selected_contestant_count {
        seq![BugContestConfigIssueView::SelectedContestantCountExceedsFlags {
            selected_contestant_count: c.selected_contestant_count,
            contestant_flag_count: c.contestant_flags@.len() as usize,
        }]
    } else {
        seq![]
    };
    a + b + d + e
}

/// The issue of the encounter table's shape, if any.
pub open spec fn contest_table_list(c: BugContestConfig) -> Seq<BugContestConfigIssueView> {
    match encounter_table_problem(c.encounters@) {
        Some(p) => seq![BugContestConfigIssueView::InvalidEncounterTable { message: encounter_problem_message(p) }],
        None => seq![],
    }
}

/// Every issue of a contest configuration, in the order the checks run.
pub open spec fn contest_issue_list(c: BugContestConfig, known: Set<Seq<char>>) -> Seq<BugContestConfigIssueView> {
    let flags = flag_texts(c.contestant_flags@);
    contest_head_list(c) + flags_issues(flags, known, flags.len() as int) + contest_table_list(c)
        + encounters_issues(c.encounters@, c.encounters@.len() as int)
}

fn contest_head_issues(config: &BugContestConfig) -> (issues: Vec<BugContestConfigIssue>)
    ensures
        contest_issue_views(issues@) == contest_head_list(*config),
{
    let mut issues: Vec<BugContestConfigIssue> = Vec::new();
    if config.park_balls == 0 {
        issues.push(BugContestConfigIssue::MissingParkBalls);
    }
    if config.timer_seconds > 59 {
        issues.push(BugContestConfigIssue::InvalidTimerSeconds { timer_seconds: config.timer_seconds });
    }
    if config.selected_contestant_count == 0 {
        issues.push(BugContestConfigIssue::MissingSelectedContestantCount);
    }
    if config.contestant_flags.len() < config.selected_contestant_count {
        issues.push(
            BugContestConfigIssue::SelectedContestantCountExceedsFlags {
                selected_contestant_count: config.selected_contestant_count,
                contestant_flag_count: config.contestant_flags.len(),
            },
        );
    }
    proof {
        assert(contest_issue_views(issues@) =~= contest_head_list(*config));
    }
    issues
}

/// The issues of the contestant flags, in order.
fn contestant_flag_issues(config: &BugContestConfig, event_flags: &TextSet) -> (issues: Vec<BugContestConfigIssue>)
    ensures
        contest_issue_views(issues@) == flags_issues(
            flag_texts(config.contestant_flags@),
            event_flags.view(),
            config.contestant_flags@.len() as int,
        ),
{
    let mut issues: Vec<BugContestConfigIssue> = Vec::new();
    let ghost flags = flag_texts(config.contestant_flags@);
    let ghost known = event_flags.view();
    let mut seen = TextSet::new();
    let n = config.contestant_flags.len();
    let mut index: usize = 0;
    while index < n
        invariant
            n == config.contestant_flags@.len(),
            flags == flag_texts(config.contestant_flags@),
            known == event_flags.view(),
            index <= n,
            contest_issue_views(issues@) == flags_issues(flags, known, index as int),
            forall|f: Seq<char>| #[trigger] seen.view().contains(f) <==> exists|k: int|
                0 <= k < index && is_exact_token(flags[k]) && flags[k] == f,
        decreases n - index,
    {
        let flag = &config.contestant_flags[index];
        let ghost before = contest_issue_views(issues@);
        proof {
            assert(flags[index as int] == flag@);
        }
        if !is_exact_nonempty_special_token(flag.as_str()) {
            issues.push(BugContestConfigIssue::InvalidContestantFlag { index, flag: copy_text(flag.as_str()) });
        } else {
            let fresh = seen.insert(copy_text(flag.as_str()));
            proof {
                assert(fresh == !flag_seen_before(flags, index as int));
            }
            if !fresh {
                issues.push(BugContestConfigIssue::DuplicateContestantFlag { index, flag: copy_text(flag.as_str()) });
            }
            if !event_flags.contains(flag.as_str()) {
                issues.push(BugContestConfigIssue::UnknownContestantFlag { index, flag: copy_text(flag.as_str()) });
            }
        }
        proof {
            assert(contest_issue_views(issues@) =~= before + flag_issues(flags, known, index as int));
            assert forall|f: Seq<char>| #[trigger] seen.view().contains(f) <==> exists|k: int|
                0 <= k < index + 1 && is_exact_token(flags[k]) && flags[k] == f by {
                if exists|k: int| 0 <= k < index + 1 && is_exact_token(flags[k]) && flags[k] == f {
                    let k = choose|k: int| 0 <= k < index + 1 && is_exact_token(flags[k]) && flags[k] == f;
                    if k < index {
                        assert(exists|k2: int| 0 <= k2 < index && is_exact_token(flags[k2]) && flags[k2] == f);
                    }
                }
            }
        }
        index += 1;
    }
    issues
}

/// The issues of the encounter rows, in order.
fn encounter_row_issues(encounters: &Vec<BugContestEncounterEntry>) -> (issues: Vec<BugContestConfigIssue>)
    ensures
        contest_issue_views(issues@) == encounters_issues(encounters@, encounters@.len() as int),
{
    let mut issues: Vec<BugContestConfigIssue> = Vec::new();
    let ghost es = encounters@;
    let m = encounters.len();
    let mut j: usize = 0;
    while j < m
        invariant
            m == es.len(),
            es == encounters@,
            j <= m,
            contest_issue_views(issues@) == encounters_issues(es, j as int),
        decreases m - j,
    {
        let e = &encounters[j];
        let ghost before = contest_issue_views(issues@);
        if !is_exact_nonempty_special_token(e.species.as_str()) {
            issues.push(BugContestConfigIssue::InvalidEncounterSpecies { index: j, species: copy_text(e.species.as_str()) });
        }
        if text_eq(e.species.as_str(), "UNOWN") {
            issues.push(
                BugContestConfigIssue::UnsupportedEncounterSpecies { index: j, species: copy_text(e.species.as_str()) },
            );
        }
        if e.min_level == 0 || e.min_level > e.max_level || e.max_level > 100 {
            issues.push(
                BugContestConfigIssue::InvalidEncounterLevelRange {
                    index: j,
                    min_level: e.min_level,
                    max_level: e.max_level,
                },
            );
        }
        proof {
            assert(contest_issue_views(issues@) =~= before + encounter_issues(es[j as int], j as int));
        }
        j += 1;
    }
    issues
}

/// Every problem with the contest configuration: balls, timer, contestant count and flags
/// (malformed, repeated or not an event flag), the encounter table and each encounter row.
pub fn bug_contest_config_issues(config: &BugContestConfig, event_flags: &TextSet) -> (issues: Vec<
    BugContestConfigIssue,
>)
    ensures
        contest_issue_views(issues@) == contest_issue_list(*config, event_flags.view()),
{
    let mut issues = contest_head_issues(config);
    let ghost head = issues@;
    let mut flag_part = contestant_flag_issues(config, event_flags);
    let ghost fp = flag_part@;
    issues.append(&mut flag_part);
    let mut table_part: Vec<BugContestConfigIssue> = Vec::new();
    match validate_bug_contest_encounters(&config.encounters) {
        Ok(()) => {},
        Err(message) => {
            table_part.push(BugContestConfigIssue::InvalidEncounterTable { message });
        },
    }
    let ghost tp = table_part@;
    issues.append(&mut table_part);
    let mut row_part = encounter_row_issues(&config.encounters);
    let ghost rp = row_part@;
    issues.append(&mut row_part);
    proof {
        assert(issues@ == head + fp + tp + rp);
        assert(contest_issue_views(issues@) =~= contest_issue_views(head) + contest_issue_views(fp)
            + contest_issue_views(tp) + contest_issue_views(rp));
        assert(contest_issue_views(tp) =~= contest_table_list(*config));
        assert(contest_issue_views(issues@) =~= contest_issue_list(*config, event_flags.view()));
    }
    issues
}

// ---- judging ----

/// The contest's DV bonus from the two DV bytes: bit 1 and bit 5 of each byte, weighted
/// 16 and 8 for the first byte and 4 and 1 for the second.
pub open spec fn dv_bonus(byte_0: u8, byte_1: u8) -> u8 {
    (16 * ((byte_0 / 2) % 2) + 8 * ((byte_0 / 32) % 2) + 4 * ((byte_1 / 2) % 2) + (byte_1 / 32) % 2) as u8
}

/// The DV bonus the contest judge adds to a Pokemon's score.
pub fn bug_contest_dv_bonus(byte_0: u8, byte_1: u8) -> (b: u8)
    ensures
        b == dv_bonus(byte_0, byte_1),
{
    assert(byte_0 & 0x02 <= 2) by (bit_vector);
    let c: u8 = (byte_0 & 0x02) * 4;
    let rot0: u8 = (byte_0 << 4) | (byte_0 >> 4);
    assert(rot0 & 0x02 <= 2) by (bit_vector);
    let d: u8 = (rot0 & 0x02) * 2 + c;
    let c1: u8 = byte_1 & 0x02;
    assert(c1 <= 2) by (bit_vector)
        requires
            c1 == byte_1 & 0x02,
    ;
    let rot1: u8 = (byte_1 << 4) | (byte_1 >> 4);
    assert((rot1 & 0x02) >> 1 <= 1) by (bit_vector);
    let b: u8 = ((rot1 & 0x02) >> 1) + c1 + c1 + d + d;
    assert(b == dv_bonus(byte_0, byte_1)) by (bit_vector)
        requires
            c == (byte_0 & 0x02) * 4,
            rot0 == (byte_0 << 4) | (byte_0 >> 4),
            d == (rot0 & 0x02) * 2 + c,
            c1 == byte_1 & 0x02,
            rot1 == (byte_1 << 4) | (byte_1 >> 4),
            b == ((rot1 & 0x02) >> 1) + c1 + c1 + d + d,
    ;
    b
}

/// The contest score of the player's Pokemon: four times the low byte of its maximum HP, the
/// low bytes of its other five stats, the DV bonus, an eighth of the low byte of its current
/// HP, and one for a held item.
pub open spec fn contest_score(p: Pokemon) -> int {
    4 * (p.max_hp % 256) + p.attack % 256 + p.defense % 256 + p.speed % 256 + p.special_attack % 256
        + p.special_defense % 256 + dv_bonus(dv_byte(p.dvs.attack, p.dvs.defense), dv_byte(p.dvs.speed, p.dvs.special))
        + (p.hp % 256) / 8 + if p.item is Some { 1int } else { 0int }
}

/// The score the contest judge gives the player's Pokemon.
pub fn bug_contest_player_score(pokemon: &Pokemon) -> (score: u16)
    ensures
        score == contest_score(*pokemon),
{
    let dv_byte_0 = dv_byte_of(pokemon.dvs.attack, pokemon.dvs.defense);
    let dv_byte_1 = dv_byte_of(pokemon.dvs.speed, pokemon.dvs.special);
    let bonus = bug_contest_dv_bonus(dv_byte_0, dv_byte_1);
    let max_hp_low: u16 = pokemon.max_hp % 256;
    let mut score: u16 = max_hp_low * 4;
    score = score + pokemon.attack % 256;
    score = score + pokemon.defense % 256;
    score = score + pokemon.speed % 256;
    score = score + pokemon.special_attack % 256;
    score = score + pokemon.special_defense % 256;
    score = score + bonus as u16;
    score = score + (pokemon.hp % 256) / 8;
    if pokemon.item.is_some() {
        score = score + 1;
    }
    score
}

// ---- running the contest ----

/// A flag that is not blank and has no surrounding whitespace.
pub open spec fn exact_flag(f: Seq<char>) -> bool {
    !is_blank(f) && is_trimmed(f)
}

/// Two contestant flags are equal.
pub open spec fn flags_repeat(flags: Seq<String>) -> bool {
    exists|i: int, j: int| 0 <= i < j < flags.len() && #[trigger] flags[i]@ == #[trigger] flags[j]@
}

/// The message a routine refuses a configuration with, if any, in the order it checks.
pub open spec fn config_refusal(c: BugContestConfig) -> Option<Seq<char>> {
    if c.park_balls == 0 {
        Some("park_balls must be positive"@)
    } else if c.timer_seconds > 59 {
        Some("timer_seconds must be 0..=59, found "@ + decimal_digits(c.timer_seconds as nat))
    } else if c.selected_contestant_count == 0 {
        Some("selected_contestant_count must be positive"@)
    } else if c.contestant_flags@.len() < c.selected_contestant_count {
        Some("selected_contestant_count "@ + decimal_digits(c.selected_contestant_count as nat) + " exceeds "@
            + decimal_digits(c.contestant_flags@.len()) + " contestant flags"@)
    } else if exists|i: int| 0 <= i < c.contestant_flags@.len() && !exact_flag(#[trigger] c.contestant_flags@[i]@) {
        Some("contestant_flags must be exact non-empty ids"@)
    } else if flags_repeat(c.contestant_flags@) {
        Some("contestant_flags must not contain duplicates"@)
    } else {
        None
    }
}

fn invalid_contest_config(routine: &str, message: String) -> (e: SpecialRoutineError)
    ensures
        e matches SpecialRoutineError::InvalidBugContestConfig { routine: r, message: m } && r@ == routine@ && m@
            == message@,
{
    SpecialRoutineError::InvalidBugContestConfig { routine: copy_text(routine), message }
}

/// A contest routine needs a configuration that passes its checks.
pub fn require_bug_contest_config<'a>(bug_contest_config: Option<&'a BugContestConfig>, routine: &str) -> (r: Result<
    &'a BugContestConfig,
    SpecialRoutineError,
>)
    ensures
        match bug_contest_config {
            None => r matches Err(SpecialRoutineError::MissingBugContestConfig { routine: rr }) && rr@ == routine@,
            Some(c) => match r {
                Ok(x) => x == c && config_refusal(*c) is None,
                Err(e) => config_refusal(*c) matches Some(m) && (e matches SpecialRoutineError::InvalidBugContestConfig {
                    routine: rr,
                    message: mm,
                } && rr@ == routine@ && mm@ == m),
            },
        },
{
    let config = match bug_contest_config {
        Some(c) => c,
        None => {
            return Err(SpecialRoutineError::MissingBugContestConfig { routine: copy_text(routine) });
        },
    };
    if config.park_balls == 0 {
        return Err(invalid_contest_config(routine, copy_text("park_balls must be positive")));
    }
    if config.timer_seconds > 59 {
        let message = message_with_number("timer_seconds must be 0..=59, found ", config.timer_seconds as u64, "");
        proof {
            assert(""@ =~= Seq::<char>::empty()) by {
                reveal_strlit("");
            }
            assert(message@ =~= "timer_seconds must be 0..=59, found "@ + decimal_digits(config.timer_seconds as nat));
        }
        return Err(invalid_contest_config(routine, message));
    }
    if config.selected_contestant_count == 0 {
        return Err(invalid_contest_config(routine, copy_text("selected_contestant_count must be positive")));
    }
    if config.contestant_flags.len() < config.selected_contestant_count {
        let mut v = text_chars("selected_contestant_count ");
        let mut a = decimal_chars(config.selected_contestant_count as u64);
        let mut b = text_chars(" exceeds ");
        let mut c = decimal_chars(config.contestant_flags.len() as u64);
        let mut d = text_chars(" contestant flags");
        v.append(&mut a);
        v.append(&mut b);
        v.append(&mut c);
        v.append(&mut d);
        let message = text_from_chars(&v);
        return Err(invalid_contest_config(routine, message));
    }
    let n = config.contestant_flags.len();
    let mut i: usize = 0;
    while i < n
        invariant
            bug_contest_config == Some(config),
            config.park_balls != 0,
            config.timer_seconds <= 59,
            config.selected_contestant_count != 0,
            config.contestant_flags@.len() >= config.selected_contestant_count,
            n == config.contestant_flags@.len(),
            i <= n,
            forall|k: int| 0 <= k < i ==> exact_flag(#[trigger] config.contestant_flags@[k]@),
        decreases n - i,
    {
        let flag = config.contestant_flags[i].as_str();
        if is_blank_text(flag) || !is_trimmed_text(flag) {
            proof {
                assert(!exact_flag(config.contestant_flags@[i as int]@));
            }
            return Err(invalid_contest_config(routine, copy_text("contestant_flags must be exact non-empty ids")));
        }
        i += 1;
    }
    let mut seen = TextSet::new();
    let mut i: usize = 0;
    while i < n
        invariant
            bug_contest_config == Some(config),
            config.park_balls != 0,
            config.timer_seconds <= 59,
            config.selected_contestant_count != 0,
            config.contestant_flags@.len() >= config.selected_contestant_count,
            n == config.contestant_flags@.len(),
            i <= n,
            forall|k: int| 0 <= k < n ==> exact_flag(#[trigger] config.contestant_flags@[k]@),
            forall|k: int, j: int| 0 <= k < j < i ==> #[trigger] config.contestant_flags@[k]@ != #[trigger] config.contestant_flags@[j]@,
            forall|f: Seq<char>| seen@.contains(f) <==> exists|k: int| 0 <= k < i && #[trigger] config.contestant_flags@[k]@ == f,
        decreases n - i,
    {
        let added = seen.insert(copy_text(config.contestant_flags[i].as_str()));
        if !added {
            proof {
                let k = choose|k: int| 0 <= k < i && #[trigger] config.contestant_flags@[k]@ == config.contestant_flags@[i as int]@;
                assert(flags_repeat(config.contestant_flags@));
            }
            return Err(invalid_contest_config(routine, copy_text("contestant_flags must not contain duplicates")));
        }
        i += 1;
    }
    Ok(config)
}

/// A time on the contest clock.
#[derive(Clone, Copy, Debug, PartialEq, Eq, Structural)]
pub struct ClockTime {
    pub day: u8,
    pub hour: u8,
    pub minute: u8,
    pub second: u8,
}

/// The time from `start` to `current` as days (modulo 140), hours, minutes and seconds,
/// borrowing from each larger unit as a clock subtraction does.
pub open spec fn elapsed_time(start: ClockTime, current: ClockTime) -> (u8, u8, u8, u8) {
    let s = current.second - start.second;
    let (seconds, b1) = if s < 0 { (s + 60, 1int) } else { (s, 0int) };
    let m = current.minute - start.minute - b1;
    let (minutes, b2) = if m < 0 { (m + 60, 1int) } else { (m, 0int) };
    let h = current.hour - start.hour - b2;
    let (hours, b3) = if h < 0 { (h + 24, 1int) } else { (h, 0int) };
    let days = (current.day - start.day - b3) % 140;
    (days as u8, hours as u8, minutes as u8, seconds as u8)
}

/// The time elapsed on the contest clock.
pub fn elapsed_bug_contest_time(start: ClockTime, current: ClockTime) -> (r: (u8, u8, u8, u8))
    ensures
        r == elapsed_time(start, current),
{
    let mut seconds: i16 = current.second as i16 - start.second as i16;
    let mut borrow: i16 = 0;
    if seconds < 0 {
        seconds += 60;
        borrow = 1;
    }
    let mut minutes: i16 = current.minute as i16 - start.minute as i16 - borrow;
    borrow = 0;
    if minutes < 0 {
        minutes += 60;
        borrow = 1;
    }
    let mut hours: i16 = current.hour as i16 - start.hour as i16 - borrow;
    borrow = 0;
    if hours < 0 {
        hours += 24;
        borrow = 1;
    }
    let d: i16 = current.day as i16 - start.day as i16 - borrow;
    let days: i16 = if d % 140 < 0 { d % 140 + 140 } else { d % 140 };
    proof {
        assert(days == (current.day - start.day - borrow) % 140);
    }
    (days as u8, hours as u8, minutes as u8, seconds as u8)
}

/// A contestant in the judging: who (1 for the player, 2 and up for the others, 0 for an
/// empty slot), with which species, and the score.
#[derive(Clone, Debug, PartialEq, Eq)]
pub struct BugContestCandidate {
    pub winner_id: u8,
    pub species: String,
    pub score: u16,
}

/// A candidate as plain values: who, which species, what score.
pub open spec fn candidate_view(c: BugContestCandidate) -> (u8, Seq<char>, u16) {
    (c.winner_id, c.species@, c.score)
}

pub open spec fn winners_view(w: Seq<BugContestCandidate>) -> Seq<(u8, Seq<char>, u16)> {
    w.map_values(|c: BugContestCandidate| candidate_view(c))
}

/// The winners after a candidate is judged: it takes the first place whose score it reaches,
/// the places below move down, and the last is dropped.
pub open spec fn placed(w: Seq<(u8, Seq<char>, u16)>, c: (u8, Seq<char>, u16)) -> Seq<(u8, Seq<char>, u16)> {
    if c.2 >= w[0].2 {
        seq![c, w[0], w[1]]
    } else if c.2 >= w[1].2 {
        seq![w[0], c, w[1]]
    } else if c.2 >= w[2].2 {
        seq![w[0], w[1], c]
    } else {
        w
    }
}

fn copy_candidate(c: &BugContestCandidate) -> (r: BugContestCandidate)
    ensures
        candidate_view(r) == candidate_view(*c),
{
    BugContestCandidate { winner_id: c.winner_id, species: copy_text(c.species.as_str()), score: c.score }
}

/// Places a candidate among the three winners.
pub fn insert_bug_contest_winner(winners: &mut [BugContestCandidate; 3], candidate: BugContestCandidate)
    ensures
        winners_view(final(winners)@) == placed(winners_view(old(winners)@), candidate_view(candidate)),
{
    let ghost cv = candidate_view(candidate);
    if candidate.score >= winners[0].score {
        let first = copy_candidate(&winners[0]);
        let second = copy_candidate(&winners[1]);
        *winners = [candidate, first, second];
    } else if candidate.score >= winners[1].score {
        let first = copy_candidate(&winners[0]);
        let second = copy_candidate(&winners[1]);
        *winners = [first, candidate, second];
    } else if candidate.score >= winners[2].score {
        let first = copy_candidate(&winners[0]);
        let second = copy_candidate(&winners[1]);
        *winners = [first, second, candidate];
    }
    proof {
        assert(winners_view(winners@) =~= placed(winners_view(old(winners)@), cv));
    }
}

/// The names of the contest's other contestants, by position.
pub open spec fn contestant_names() -> Seq<Seq<char>> {
    seq![
        "BUG CATCHER DON"@,
        "BUG CATCHER ED"@,
        "COOLTRAINER NICK"@,
        "POKEFAN WILLIAM"@,
        "BUG CATCHER BENNY"@,
        "CAMPER BARRY"@,
        "PICNICKER CINDY"@,
        "BUG CATCHER JOSH"@,
        "YOUNGSTER SAMUEL"@,
        "SCHOOLBOY KIPP"@,
    ]
}

fn contestant_name(index: usize) -> (s: &'static str)
    requires
        index < 10,
    ensures
        s@ == contestant_names()[index as int],
{
    if index == 0 {
        "BUG CATCHER DON"
    } else if index == 1 {
        "BUG CATCHER ED"
    } else if index == 2 {
        "COOLTRAINER NICK"
    } else if index == 3 {
        "POKEFAN WILLIAM"
    } else if index == 4 {
        "BUG CATCHER BENNY"
    } else if index == 5 {
        "CAMPER BARRY"
    } else if index == 6 {
        "PICNICKER CINDY"
    } else if index == 7 {
        "BUG CATCHER JOSH"
    } else if index == 8 {
        "YOUNGSTER SAMUEL"
    } else {
        "SCHOOLBOY KIPP"
    }
}

/// The name a winner is announced under: the player's own, or the contestant's.
pub fn bug_contest_trainer_name(winner_id: u8, player_name: &str) -> (name: String)
    requires
        winner_id <= 11,
    ensures
        winner_id == 1 ==> name@ == player_name@,
        winner_id != 1 ==> name@ == contestant_names()[if winner_id >= 2 { winner_id - 2 } else { 0 }],
{
    if winner_id == 1 {
        return copy_text(player_name);
    }
    let index: usize = if winner_id >= 2 { (winner_id - 2) as usize } else { 0 };
    copy_text(contestant_name(index))
}

/// One place of the judging as announced.
#[derive(Clone, Debug, PartialEq, Eq)]
pub struct BugContestPlacement {
    pub place: u8,
    pub winner_id: u8,
    pub trainer_name: String,
    pub species: String,
    pub score: u16,
    pub player: bool,
}

/// The species and base score of each of a contestant's three possible catches.
pub open spec fn contestant_catches(index: int) -> Seq<(Seq<char>, u16)> {
    if index == 0 {
        seq![("KAKUNA"@, 300u16), ("METAPOD"@, 285u16), ("CATERPIE"@, 226u16)]
    } else if index == 1 {
        seq![("BUTTERFREE"@, 286u16), ("BUTTERFREE"@, 251u16), ("CATERPIE"@, 237u16)]
    } else if index == 2 {
        seq![("SCYTHER"@, 357u16), ("BUTTERFREE"@, 349u16), ("PINSIR"@, 368u16)]
    } else if index == 3 {
        seq![("PINSIR"@, 332u16), ("BUTTERFREE"@, 324u16), ("VENONAT"@, 321u16)]
    } else if index == 4 {
        seq![("BUTTERFREE"@, 318u16), ("WEEDLE"@, 295u16), ("CATERPIE"@, 285u16)]
    } else if index == 5 {
        seq![("PINSIR"@, 366u16), ("VENONAT"@, 329u16), ("KAKUNA"@, 314u16)]
    } else if index == 6 {
        seq![("BUTTERFREE"@, 341u16), ("METAPOD"@, 301u16), ("CATERPIE"@, 264u16)]
    } else if index == 7 {
        seq![("SCYTHER"@, 326u16), ("BUTTERFREE"@, 292u16), ("METAPOD"@, 282u16)]
    } else if index == 8 {
        seq![("WEEDLE"@, 270u16), ("PINSIR"@, 282u16), ("CATERPIE"@, 251u16)]
    } else {
        seq![("VENONAT"@, 267u16), ("PARAS"@, 254u16), ("KAKUNA"@, 259u16)]
    }
}

fn contestant_catch(index: usize, placement: usize) -> (r: (&'static str, u16))
    requires
        index < 10,
        placement < 3,
    ensures
        r.0@ == contestant_catches(index as int)[placement as int].0,
        r.1 == contestant_catches(index as int)[placement as int].1,
{
    let table: [(&'static str, u16); 3] = if index == 0 {
        [("KAKUNA", 300), ("METAPOD", 285), ("CATERPIE", 226)]
    } else if index == 1 {
        [("BUTTERFREE", 286), ("BUTTERFREE", 251), ("CATERPIE", 237)]
    } else if index == 2 {
        [("SCYTHER", 357), ("BUTTERFREE", 349), ("PINSIR", 368)]
    } else if index == 3 {
        [("PINSIR", 332), ("BUTTERFREE", 324), ("VENONAT", 321)]
    } else if index == 4 {
        [("BUTTERFREE", 318), ("WEEDLE", 295), ("CATERPIE", 285)]
    } else if index == 5 {
        [("PINSIR", 366), ("VENONAT", 329), ("KAKUNA", 314)]
    } else if index == 6 {
        [("BUTTERFREE", 341), ("METAPOD", 301), ("CATERPIE", 264)]
    } else if index == 7 {
        [("SCYTHER", 326), ("BUTTERFREE", 292), ("METAPOD", 282)]
    } else if index == 8 {
        [("WEEDLE", 270), ("PINSIR", 282), ("CATERPIE", 251)]
    } else {
        [("VENONAT", 267), ("PARAS", 254), ("KAKUNA", 259)]
    };
    table[placement]
}

/// Contestant `index` takes part: it has a flag, and that flag is not among the flags of the
/// contestants the player met.
pub open spec fn contestant_active(flags: Seq<String>, selected: Set<Seq<char>>, index: int) -> bool {
    index < flags.len() && !selected.contains(flags[index]@)
}

/// How many of the first `n` contestants take part.
pub open spec fn active_before(flags: Seq<String>, selected: Set<Seq<char>>, n: int) -> nat
    decreases n,
{
    if n <= 0 {
        0
    } else {
        active_before(flags, selected, n - 1) + if contestant_active(flags, selected, n - 1) { 1nat } else { 0nat }
    }
}

/// The winners after the first `n` contestants are judged, each taking part with its draw:
/// the low two bits of the first byte pick its catch, the low three of the second add to the
/// catch's score.
pub open spec fn judged(flags: Seq<String>, selected: Set<Seq<char>>, draws: Seq<(u8, u8)>, n: int) -> Seq<
    (u8, Seq<char>, u16),
>
    decreases n,
{
    if n <= 0 {
        seq![(0u8, Seq::<char>::empty(), 0u16), (0u8, Seq::<char>::empty(), 0u16), (0u8, Seq::<char>::empty(), 0u16)]
    } else {
        let w = judged(flags, selected, draws, n - 1);
        if contestant_active(flags, selected, n - 1) {
            let d = draws[active_before(flags, selected, n - 1) as int];
            let catch = contestant_catches(n - 1)[(d.0 % 4) as int];
            let total = catch.1 + d.1 % 8;
            let score = if total > 65535 { 65535u16 } else { total as u16 };
            placed(w, ((n + 1) as u8, catch.0, score))
        } else {
            w
        }
    }
}

/// The player's entry: its caught Pokemon's species and score, or nothing and 0.
pub open spec fn player_entry(caught_mon: Option<Pokemon>) -> (u8, Seq<char>, u16) {
    match caught_mon {
        Some(p) => (1u8, p.species.id@, contest_score(p) as u16),
        None => (1u8, Seq::<char>::empty(), 0u16),
    }
}

/// The final standings: the contestants, then the player.
pub open spec fn standings(
    flags: Seq<String>,
    selected: Set<Seq<char>>,
    draws: Seq<(u8, u8)>,
    caught_mon: Option<Pokemon>,
) -> Seq<(u8, Seq<char>, u16)> {
    placed(judged(flags, selected, draws, 10), player_entry(caught_mon))
}

/// The player's place, 1 to 3, or 4 when the player is not among the winners.
pub open spec fn player_rank(w: Seq<(u8, Seq<char>, u16)>) -> u8 {
    if w[0].0 == 1 {
        1
    } else if w[1].0 == 1 {
        2
    } else if w[2].0 == 1 {
        3
    } else {
        4
    }
}

/// The placement announced for a winner.
pub open spec fn placement_of(place: u8, w: (u8, Seq<char>, u16), player_name: Seq<char>) -> (u8, u8, Seq<char>, Seq<char>, u16, bool) {
    (
        place,
        w.0,
        if w.0 == 1 { player_name } else { contestant_names()[if w.0 >= 2 { w.0 - 2 } else { 0 }] },
        w.1,
        w.2,
        w.0 == 1,
    )
}

pub open spec fn placement_view(p: BugContestPlacement) -> (u8, u8, Seq<char>, Seq<char>, u16, bool) {
    (p.place, p.winner_id, p.trainer_name@, p.species@, p.score, p.player)
}

/// The error judging gives without three contestants or without three filled places.
pub open spec fn judging_refused(e: SpecialRoutineError, routine: Seq<char>) -> bool {
    e matches SpecialRoutineError::InvalidState { routine: r, message: m } && r@ == routine && m@
        == "Bug Contest judging requires three initialized winner slots"@
}

/// Judges the contest: every contestant that takes part enters with its catch and score
/// from its draw, then the player with the caught Pokemon; the result is the player's rank
/// and the three placements. Judging needs at least three contestants and three filled
/// places.
pub fn bug_contest_judging(
    bug_contest_config: Option<&BugContestConfig>,
    selected_contestant_flags: &TextSet,
    caught_mon: Option<&Pokemon>,
    player_name: &str,
    draws: &[(u8, u8)],
    routine: &str,
) -> (r: Result<(u8, Vec<BugContestPlacement>), SpecialRoutineError>)
    requires
        bug_contest_config matches Some(c) ==> draws@.len() >= active_before(
            c.contestant_flags@,
            selected_contestant_flags@,
            10,
        ),
        forall|i: int| 0 <= i < draws@.len() ==> (#[trigger] draws@[i]).0 % 4 != 3,
    ensures
        bug_contest_config is None ==> (r matches Err(SpecialRoutineError::MissingBugContestConfig { routine: rr })
            && rr@ == routine@),
        bug_contest_config matches Some(c) ==> {
            let flags = c.contestant_flags@;
            let sel = selected_contestant_flags@;
            let cm = match caught_mon {
                Some(p) => Some(*p),
                None => None,
            };
            let w = standings(flags, sel, draws@, cm);
            match r {
                Ok((rank, placements)) => {
                    &&& config_refusal(*c) is None
                    &&& active_before(flags, sel, 10) >= 3
                    &&& w[0].0 != 0 && w[1].0 != 0 && w[2].0 != 0
                    &&& rank == player_rank(w)
                    &&& placements@.len() == 3
                    &&& forall|k: int| 0 <= k < 3 ==> placement_view(#[trigger] placements@[k]) == placement_of(
                        (k + 1) as u8,
                        w[k],
                        player_name@,
                    )
                },
                Err(e) => (config_refusal(*c) matches Some(m) && (e matches SpecialRoutineError::InvalidBugContestConfig {
                    routine: rr,
                    message: mm,
                } && rr@ == routine@ && mm@ == m)) || (config_refusal(*c) is None && (active_before(flags, sel, 10) < 3
                    || w[0].0 == 0 || w[1].0 == 0 || w[2].0 == 0) && judging_refused(e, routine@)),
            }
        },
{
    let config = require_bug_contest_config(bug_contest_config, routine)?;
    let ghost flags = config.contestant_flags@;
    let ghost sel = selected_contestant_flags@;
    let mut active: usize = 0;
    let mut idx: usize = 0;
    while idx < 10
        invariant
            idx <= 10,
            flags == config.contestant_flags@,
            sel == selected_contestant_flags@,
            active == active_before(flags, sel, idx as int),
            active <= idx,
        decreases 10 - idx,
    {
        if idx < config.contestant_flags.len() && !selected_contestant_flags.contains(
            config.contestant_flags[idx].as_str(),
        ) {
            active += 1;
        }
        idx += 1;
    }
    if active < 3 {
        return Err(SpecialRoutineError::InvalidState {
            routine: copy_text(routine),
            message: copy_text("Bug Contest judging requires three initialized winner slots"),
        });
    }
    let mut winners: [BugContestCandidate; 3] = [
        BugContestCandidate { winner_id: 0, species: String::new(), score: 0 },
        BugContestCandidate { winner_id: 0, species: String::new(), score: 0 },
        BugContestCandidate { winner_id: 0, species: String::new(), score: 0 },
    ];
    proof {
        assert(winners_view(winners@) =~= judged(flags, sel, draws@, 0));
    }
    let mut used: usize = 0;
    let mut idx: usize = 0;
    while idx < 10
        invariant
            idx <= 10,
            flags == config.contestant_flags@,
            sel == selected_contestant_flags@,
            draws@.len() >= active_before(flags, sel, 10),
            forall|i: int| 0 <= i < draws@.len() ==> (#[trigger] draws@[i]).0 % 4 != 3,
            used == active_before(flags, sel, idx as int),
            winners_view(winners@) == judged(flags, sel, draws@, idx as int),
            forall|k: int| 0 <= k < 3 ==> (#[trigger] winners@[k]).winner_id <= 11 && winners@[k].winner_id != 1,
        decreases 10 - idx,
    {
        proof {
            lemma_active_before_grows(flags, sel, idx + 1, 10);
        }
        if idx < config.contestant_flags.len() && !selected_contestant_flags.contains(
            config.contestant_flags[idx].as_str(),
        ) {
            let d = draws[used];
            let placement: usize = (d.0 % 4) as usize;
            let perturbation: u16 = (d.1 % 8) as u16;
            let (species, base) = contestant_catch(idx, placement);
            let score: u16 = if base as u32 + perturbation as u32 > 65535 { 65535 } else { base + perturbation };
            let candidate = BugContestCandidate { winner_id: (idx + 2) as u8, species: copy_text(species), score };
            insert_bug_contest_winner(&mut winners, candidate);
            used += 1;
        }
        idx += 1;
    }
    let (player_species, player_score) = match caught_mon {
        Some(p) => (copy_text(p.species.id.as_str()), bug_contest_player_score(p)),
        None => (String::new(), 0u16),
    };
    proof {
        reveal_strlit("");
    }
    insert_bug_contest_winner(&mut winners, BugContestCandidate { winner_id: 1, species: player_species, score: player_score });
    if winners[0].winner_id == 0 || winners[1].winner_id == 0 || winners[2].winner_id == 0 {
        return Err(SpecialRoutineError::InvalidState {
            routine: copy_text(routine),
            message: copy_text("Bug Contest judging requires three initialized winner slots"),
        });
    }
    let rank: u8 = if winners[0].winner_id == 1 {
        1
    } else if winners[1].winner_id == 1 {
        2
    } else if winners[2].winner_id == 1 {
        3
    } else {
        4
    };
    let mut placements: Vec<BugContestPlacement> = Vec::new();
    let mut k: usize = 0;
    while k < 3
        invariant
            k <= 3,
            placements@.len() == k,
            forall|j: int| 0 <= j < 3 ==> (#[trigger] winners@[j]).winner_id <= 11,
            forall|j: int| 0 <= j < k ==> placement_view(#[trigger] placements@[j]) == placement_of(
                (j + 1) as u8,
                candidate_view(winners@[j]),
                player_name@,
            ),
        decreases 3 - k,
    {
        let w = &winners[k];
        let name = bug_contest_trainer_name(w.winner_id, player_name);
        placements.push(BugContestPlacement {
            place: (k + 1) as u8,
            winner_id: w.winner_id,
            trainer_name: name,
            species: copy_text(w.species.as_str()),
            score: w.score,
            player: w.winner_id == 1,
        });
        k += 1;
    }
    Ok((rank, placements))
}

proof fn lemma_active_before_grows(flags: Seq<String>, selected: Set<Seq<char>>, n: int, m: int)
    requires
        0 <= n <= m,
    ensures
        active_before(flags, selected, n) <= active_before(flags, selected, m),
    decreases m - n,
{
    if m > n {
        lemma_active_before_grows(flags, selected, n, m - 1);
    }
}


// ---- the contest catch ----

/// The Pokemon the player caught in the contest, and one caught since that waits for the
/// player to choose between the two.
#[derive(Debug, PartialEq, Eq)]
pub struct BugContestCatchState {
    pub pending_caught_mon: Option<Pokemon>,
    pub caught_mon: Option<Pokemon>,
}

/// The player's choice between the kept catch and a new one.
#[derive(Debug, PartialEq, Eq)]
pub struct BugContestCaughtMonResolution {
    pub kept: bool,
    pub species: String,
    pub script_value: u8,
}

/// The player keeps the new catch (`keep_new`) or the old one; the pending catch is gone
/// either way, and the script reads 0 when the new one was kept.
pub fn resolve_bug_contest_caught_mon(contest: &mut BugContestCatchState, keep_new: bool) -> (r: Result<
    BugContestCaughtMonResolution,
    SpecialRoutineError,
>)
    ensures
        match old(contest).pending_caught_mon {
            None => (r matches Err(SpecialRoutineError::InvalidState { routine: rr, message: m }) && rr@
                == "BugContestSetCaughtContestMon"@ && m@ == "no pending caught Pokemon decision"@) && *final(contest)
                == *old(contest),
            Some(p) => {
                &&& r matches Ok(x) && x.kept == keep_new && x.species@ == p.species.id@ && x.script_value == (if keep_new {
                    0u8
                } else {
                    1u8
                })
                &&& final(contest).pending_caught_mon is None
                &&& final(contest).caught_mon == if keep_new {
                    Some(p)
                } else {
                    old(contest).caught_mon
                }
            },
        },
{
    let pending = match contest.pending_caught_mon.take() {
        Some(p) => p,
        None => {
            return Err(
                SpecialRoutineError::InvalidState {
                    routine: copy_text("BugContestSetCaughtContestMon"),
                    message: copy_text("no pending caught Pokemon decision"),
                },
            );
        },
    };
    let species = copy_text(pending.species.id.as_str());
    if keep_new {
        contest.caught_mon = Some(pending);
    }
    Ok(BugContestCaughtMonResolution { kept: keep_new, species, script_value: if keep_new { 0 } else { 1 } })
}

/// The National Park caught data a contest Pokemon is stamped with.
pub open spec fn contest_caught_data(level: u8, time_of_day: TimeOfDay, player_gender: u8) -> CaughtData {
    CaughtData { level: level & 0x3f, time_of_day: Some(time_of_day), original_trainer_gender: player_gender, location: 0x13 }
}

/// Stamps a contest Pokemon with National Park caught data.
pub fn set_bug_contest_caught_data(pokemon: &mut Pokemon, time_of_day: TimeOfDay, player_gender: u8)
    ensures
        *final(pokemon) == (Pokemon {
            caught_data: Some(contest_caught_data(old(pokemon).level, time_of_day, player_gender)),
            ..*old(pokemon)
        }),
{
    pokemon.caught_data = Some(
        CaughtData { level: pokemon.level & 0x3f, time_of_day: Some(time_of_day), original_trainer_gender: player_gender, location: 0x13 },
    );
}

/// What the contest's end script reads: the catch joined the party, went to the PC, or there
/// was none.
pub const CONTEST_CAUGHT_MON: u8 = 0;

pub const CONTEST_BOXED_MON: u8 = 1;

pub const CONTEST_NO_CATCH: u8 = 2;

/// Where the contest catch went.
#[derive(Debug, PartialEq, Eq)]
pub enum ContestCatchPlacement {
    NoCatch,
    /// It joined the party in this slot.
    Party { slot: usize },
    /// It goes to the current PC box, stamped.
    Boxed { pokemon: Pokemon },
    /// The current box is full: it is lost, and the box's first Pokemon gets the stamp.
    BoxFull,
}

fn open_slot(party: &Party) -> (r: Option<usize>)
    ensures
        match r {
            Some(i) => i < party.pokemon@.len() && party.pokemon@[i as int] is None && forall|j: int|
                0 <= j < i ==> party.pokemon@[j] is Some,
            None => forall|j: int| 0 <= j < party.pokemon@.len() ==> party.pokemon@[j] is Some,
        },
{
    let mut i: usize = 0;
    while i < party.pokemon.len()
        invariant
            i <= party.pokemon@.len(),
            forall|j: int| 0 <= j < i ==> party.pokemon@[j] is Some,
        decreases party.pokemon.len() - i,
    {
        if party.pokemon[i].is_none() {
            return Some(i);
        }
        i += 1;
    }
    None
}

/// At the contest's end the catch, stamped with National Park caught data, joins the first
/// empty party slot; with a full party it goes to the current PC box, unless that box is
/// full. The script reads the matching code.
pub fn check_party_full_after_contest(
    contest: &mut BugContestCatchState,
    party: &mut Party,
    time_of_day: TimeOfDay,
    player_gender: u8,
    current_pc_box: usize,
    box_count: usize,
    current_box_full: bool,
    routine: &str,
) -> (r: Result<(u8, ContestCatchPlacement), SpecialRoutineError>)
    ensures
        match old(contest).caught_mon {
            None => r == Ok::<(u8, ContestCatchPlacement), SpecialRoutineError>((CONTEST_NO_CATCH, ContestCatchPlacement::NoCatch))
                && final(contest).pending_caught_mon is None && final(contest).caught_mon is None && *final(party)
                == *old(party),
            Some(p) => {
                let stamped = Pokemon {
                    caught_data: Some(contest_caught_data(p.level, time_of_day, player_gender)),
                    ..p
                };
                if exists|i: int| 0 <= i < old(party).pokemon@.len() && old(party).pokemon@[i] is None {
                    &&& r matches Ok((code, ContestCatchPlacement::Party { slot })) && code == CONTEST_CAUGHT_MON
                        && slot < old(party).pokemon@.len() && old(party).pokemon@[slot as int] is None
                        && (forall|j: int| 0 <= j < slot ==> old(party).pokemon@[j] is Some)
                        && final(party).pokemon@ == old(party).pokemon@.update(slot as int, Some(stamped))
                    &&& final(contest).caught_mon is None
                    &&& final(contest).pending_caught_mon == old(contest).pending_caught_mon
                } else if current_pc_box >= box_count {
                    (r matches Err(SpecialRoutineError::InvalidCurrentPcBox { routine: rr, current_pc_box: c, box_count: b })
                        && rr@ == routine@ && c == current_pc_box && b == box_count) && *final(party) == *old(party)
                        && final(contest).caught_mon is None
                } else {
                    &&& r == Ok::<(u8, ContestCatchPlacement), SpecialRoutineError>(
                        (
                            CONTEST_BOXED_MON,
                            if current_box_full {
                                ContestCatchPlacement::BoxFull
                            } else {
                                ContestCatchPlacement::Boxed { pokemon: stamped }
                            },
                        ),
                    )
                    &&& *final(party) == *old(party)
                    &&& final(contest).caught_mon is None
                    &&& final(contest).pending_caught_mon == old(contest).pending_caught_mon
                }
            },
        },
{
    let mut caught = match contest.caught_mon.take() {
        Some(p) => p,
        None => {
            contest.pending_caught_mon = None;
            return Ok((CONTEST_NO_CATCH, ContestCatchPlacement::NoCatch));
        },
    };
    match open_slot(party) {
        Some(slot) => {
            set_bug_contest_caught_data(&mut caught, time_of_day, player_gender);
            party.pokemon.set(slot, Some(caught));
            Ok((CONTEST_CAUGHT_MON, ContestCatchPlacement::Party { slot }))
        },
        None => {
            if current_pc_box >= box_count {
                return Err(
                    SpecialRoutineError::InvalidCurrentPcBox { routine: copy_text(routine), current_pc_box, box_count },
                );
            }
            if current_box_full {
                Ok((CONTEST_BOXED_MON, ContestCatchPlacement::BoxFull))
            } else {
                set_bug_contest_caught_data(&mut caught, time_of_day, player_gender);
                Ok((CONTEST_BOXED_MON, ContestCatchPlacement::Boxed { pokemon: caught }))
            }
        },
    }
}


// ---- picking the other contestants ----

/// The contestant a draw byte picks among `count`: bytes at or past the largest multiple of
/// `255 / count` that fits are redrawn; the rest divide down to a contestant.
pub open spec fn contestant_for_draw(sample: u8, count: u8) -> Option<int> {
    let width: int = 255int / (count as int);
    if sample >= width * count {
        None
    } else {
        Some((sample as int) / width)
    }
}

/// One draw of the contestant picking: a byte that picks a contestant not yet picked adds it.
pub fn add_contestant_draw(chosen: &mut Vec<usize>, sample: u8, contestant_count: u8)
    requires
        contestant_count > 0,
    ensures
        match contestant_for_draw(sample, contestant_count) {
            Some(c) => if old(chosen)@.contains(c as usize) {
                final(chosen)@ == old(chosen)@
            } else {
                final(chosen)@ == old(chosen)@.push(c as usize)
            },
            None => final(chosen)@ == old(chosen)@,
        },
        forall|k: int| 0 <= k < final(chosen)@.len() ==> (#[trigger] final(chosen)@[k] < contestant_count
            || k < old(chosen)@.len()),
{
    let width: u8 = 255 / contestant_count;
    assert(width * contestant_count <= 255) by (nonlinear_arith)
        requires
            width == 255int / (contestant_count as int),
            contestant_count > 0,
    ;
    let limit: u8 = width * contestant_count;
    if sample >= limit {
        return;
    }
    let c: usize = (sample / width) as usize;
    assert(sample / width < contestant_count) by (nonlinear_arith)
        requires
            width == 255int / (contestant_count as int),
            contestant_count > 0,
            sample < width * contestant_count,
    ;
    assert(contestant_for_draw(sample, contestant_count) == Some(c as int));
    let mut k: usize = 0;
    while k < chosen.len()
        invariant
            k <= chosen@.len(),
            chosen@ == old(chosen)@,
            contestant_for_draw(sample, contestant_count) == Some(c as int),
            c < contestant_count,
            forall|j: int| 0 <= j < k ==> chosen@[j] != c,
        decreases chosen.len() - k,
    {
        if chosen[k] == c {
            assert(chosen@.contains(c));
            return;
        }
        k += 1;
    }
    chosen.push(c);
}

/// The picked contestants' flags in contestant order; the contest has at most 255
/// contestants.
pub fn selected_contestant_flags(config: &BugContestConfig, chosen: &[usize], routine: &str) -> (r: Result<
    Vec<String>,
    SpecialRoutineError,
>)
    ensures
        config.contestant_flags@.len() > 255 ==> (r matches Err(SpecialRoutineError::InvalidBugContestConfig {
            routine: rr,
            message: m,
        }) && rr@ == routine@ && m@ == "contestant_flags must contain at most 255 entries"@),
        config.contestant_flags@.len() <= 255 ==> (r matches Ok(flags) && views_of(flags@) == picked_flags(
            config.contestant_flags@,
            chosen@,
            config.contestant_flags@.len() as int,
        )),
{
    let n = config.contestant_flags.len();
    if n > 255 {
        return Err(
            SpecialRoutineError::InvalidBugContestConfig {
                routine: copy_text(routine),
                message: copy_text("contestant_flags must contain at most 255 entries"),
            },
        );
    }
    let mut flags: Vec<String> = Vec::new();
    let mut i: usize = 0;
    while i < n
        invariant
            n == config.contestant_flags@.len(),
            i <= n,
            views_of(flags@) == picked_flags(config.contestant_flags@, chosen@, i as int),
        decreases n - i,
    {
        let mut picked = false;
        let mut k: usize = 0;
        while k < chosen.len()
            invariant
                k <= chosen@.len(),
                picked == chosen@.take(k as int).contains(i),
            decreases chosen.len() - k,
        {
            let ghost before = picked;
            if chosen[k] == i {
                picked = true;
            }
            proof {
                let t = chosen@.take(k + 1);
                assert(t =~= chosen@.take(k as int).push(chosen@[k as int]));
                if chosen@[k as int] == i {
                    assert(t[k as int] == i);
                } else if t.contains(i) {
                    let j = choose|j: int| 0 <= j < t.len() && t[j] == i;
                    assert(chosen@.take(k as int)[j] == i);
                } else if before {
                    let j = choose|j: int| 0 <= j < k && chosen@.take(k as int)[j] == i;
                    assert(t[j] == i);
                }
            }
            k += 1;
        }
        proof {
            assert(chosen@.take(chosen@.len() as int) =~= chosen@);
        }
        if picked {
            flags.push(copy_text(config.contestant_flags[i].as_str()));
        }
        proof {
            assert(views_of(flags@) =~= picked_flags(config.contestant_flags@, chosen@, i + 1));
        }
        i += 1;
    }
    Ok(flags)
}

/// The flags at the picked positions among the first `n`, in position order.
pub open spec fn picked_flags(flags: Seq<String>, chosen: Seq<usize>, n: int) -> Seq<Seq<char>>
    decreases n,
{
    if n <= 0 {
        seq![]
    } else if chosen.contains((n - 1) as usize) {
        picked_flags(flags, chosen, n - 1).push(flags[n - 1]@)
    } else {
        picked_flags(flags, chosen, n - 1)
    }
}

} // verus!
