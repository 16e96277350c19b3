//! The Odd Egg definitions the Day-Care man can hand out.
use vstd::prelude::*;
use crate::ordered::TextSet;
use crate::special_routines::errors::SpecialRoutineError;
use crate::special_routines::checks::concat_issues;
use crate::special_routines::tokens::is_exact_nonempty_special_token;
use crate::text::{copy_text, is_blank, is_blank_text, is_exact_token, is_trimmed, is_trimmed_text};

verus! {

/// One possible Odd Egg, with its chance out of 100.
#[derive(Debug, PartialEq, Eq)]
pub struct OddEggDefinition {
    pub species: String,
    pub moves: Vec<String>,
    pub original_trainer_id: u16,
    pub dvs: [u8; 4],
    pub probability: u16,
    pub level: u8,
    pub experience: i32,
    pub hatch_cycles: u8,
    pub nickname: String,
    pub original_trainer_name: String,
}

#[derive(Debug, PartialEq, Eq)]
pub struct OddEggDefinitionTable(pub Vec<OddEggDefinition>);

/// A problem with the Odd Egg definitions.
#[derive(Debug, PartialEq, Eq)]
pub enum OddEggDefinitionIssue {
    InvalidProbabilityTotal { total_probability: u32 },
    InvalidSpecies { index: usize, species_id: String },
    UnknownSpecies { index: usize, species_id: String },
    InvalidMoveCount { index: usize, move_count: usize },
    InvalidMove { index: usize, move_index: usize, move_id: String },
    UnknownMove { index: usize, move_index: usize, move_id: String },
    InvalidProbability { index: usize },
    InvalidLevel { index: usize, level: u8 },
    InvalidNickname { index: usize, nickname: String },
    InvalidOriginalTrainerName { index: usize, original_trainer_name: String },
}

pub enum OddEggDefinitionIssueView {
    InvalidProbabilityTotal { total_probability: u32 },
    InvalidSpecies { index: usize, species_id: Seq<char> },
    UnknownSpecies { index: usize, species_id: Seq<char> },
    InvalidMoveCount { index: usize, move_count: usize },
    InvalidMove { index: usize, move_index: usize, move_id: Seq<char> },
    UnknownMove { index: usize, move_index: usize, move_id: Seq<char> },
    InvalidProbability { index: usize },
    InvalidLevel { index: usize, level: u8 },
    InvalidNickname { index: usize, nickname: Seq<char> },
    InvalidOriginalTrainerName { index: usize, original_trainer_name: Seq<char> },
}

impl View for OddEggDefinitionIssue {
    type V = OddEggDefinitionIssueView;

    open spec fn view(&self) -> OddEggDefinitionIssueView {
        match self {
            OddEggDefinitionIssue::InvalidProbabilityTotal { total_probability } => {
                OddEggDefinitionIssueView::InvalidProbabilityTotal { total_probability: *total_probability }
            },
            OddEggDefinitionIssue::InvalidSpecies { index, species_id } => OddEggDefinitionIssueView::InvalidSpecies {
                index: *index,
                species_id: species_id@,
            },
            OddEggDefinitionIssue::UnknownSpecies { index, species_id } => OddEggDefinitionIssueView::UnknownSpecies {
                index: *index,
                species_id: species_id@,
            },
            OddEggDefinitionIssue::InvalidMoveCount { index, move_count } => {
                OddEggDefinitionIssueView::InvalidMoveCount { index: *index, move_count: *move_count }
            },
            OddEggDefinitionIssue::InvalidMove { index, move_index, move_id } => OddEggDefinitionIssueView::InvalidMove {
                index: *index,
                move_index: *move_index,
                move_id: move_id@,
            },
            OddEggDefinitionIssue::UnknownMove { index, move_index, move_id } => OddEggDefinitionIssueView::UnknownMove {
                index: *index,
                move_index: *move_index,
                move_id: move_id@,
            },
            OddEggDefinitionIssue::InvalidProbability { index } => OddEggDefinitionIssueView::InvalidProbability {
                index: *index,
            },
            OddEggDefinitionIssue::InvalidLevel { index, level } => OddEggDefinitionIssueView::InvalidLevel {
                index: *index,
                level: *level,
            },
            OddEggDefinitionIssue::InvalidNickname { index, nickname } => OddEggDefinitionIssueView::InvalidNickname {
                index: *index,
                nickname: nickname@,
            },
            OddEggDefinitionIssue::InvalidOriginalTrainerName { index, original_trainer_name } => {
                OddEggDefinitionIssueView::InvalidOriginalTrainerName {
                    index: *index,
                    original_trainer_name: original_trainer_name@,
                }
            },
        }
    }
}

pub open spec fn egg_issue_views(v: Seq<OddEggDefinitionIssue>) -> Seq<OddEggDefinitionIssueView> {
    v.map_values(|i: OddEggDefinitionIssue| i@)
}

/// The sum of the first `n` probabilities.
pub open spec fn probability_sum(defs: Seq<OddEggDefinition>, n: int) -> int
    decreases n,
{
    if n <= 0 { 0 } else { probability_sum(defs, n - 1) + defs[n - 1].probability }
}

pub open spec fn egg_move_checks(index: int, moves: Seq<String>, known: Set<Seq<char>>) -> spec_fn(int) -> Seq<
    OddEggDefinitionIssueView,
> {
    |j: int|
        if !is_exact_token(moves[j]@) {
            seq![OddEggDefinitionIssueView::InvalidMove { index: index as usize, move_index: j as usize, move_id: moves[j]@ }]
        } else if !known.contains(moves[j]@) {
            seq![OddEggDefinitionIssueView::UnknownMove { index: index as usize, move_index: j as usize, move_id: moves[j]@ }]
        } else {
            seq![]
        }
}

/// A name must be nonblank and trimmed.
pub open spec fn name_ok(s: Seq<char>) -> bool {
    !is_blank(s) && is_trimmed(s)
}

pub open spec fn egg_head_issues(i: int, d: OddEggDefinition, species: Set<Seq<char>>) -> Seq<OddEggDefinitionIssueView> {
    let a: Seq<OddEggDefinitionIssueView> = if !is_exact_token(d.species@) {
        seq![OddEggDefinitionIssueView::InvalidSpecies { index: i as usize, species_id: d.species@ }]
    } else if !species.contains(d.species@) {
        seq![OddEggDefinitionIssueView::UnknownSpecies { index: i as usize, species_id: d.species@ }]
    } else {
        seq![]
    };
    let b: Seq<OddEggDefinitionIssueView> = if d.moves@.len() == 0 || d.moves@.len() > 4 {
        seq![OddEggDefinitionIssueView::InvalidMoveCount { index: i as usize, move_count: d.moves@.len() as usize }]
    } else {
        seq![]
    };
    a + b
}

pub open spec fn egg_tail_issues(i: int, d: OddEggDefinition) -> Seq<OddEggDefinitionIssueView> {
    let c: Seq<OddEggDefinitionIssueView> = if d.probability == 0 {
        seq![OddEggDefinitionIssueView::InvalidProbability { index: i as usize }]
    } else {
        seq![]
    };
    let e: Seq<OddEggDefinitionIssueView> = if d.level == 0 || d.level > 100 {
        seq![OddEggDefinitionIssueView::InvalidLevel { index: i as usize, level: d.level }]
    } else {
        seq![]
    };
    let f: Seq<OddEggDefinitionIssueView> = if !name_ok(d.nickname@) {
        seq![OddEggDefinitionIssueView::InvalidNickname { index: i as usize, nickname: d.nickname@ }]
    } else {
        seq![]
    };
    let g: Seq<OddEggDefinitionIssueView> = if !name_ok(d.original_trainer_name@) {
        seq![OddEggDefinitionIssueView::InvalidOriginalTrainerName {
            index: i as usize,
            original_trainer_name: d.original_trainer_name@,
        }]
    } else {
        seq![]
    };
    c + e + f + g
}

/// The issues of definition `i`, in the order the checks run.
pub open spec fn egg_definition_issues(i: int, d: OddEggDefinition, species: Set<Seq<char>>, moves: Set<Seq<char>>) -> Seq<
    OddEggDefinitionIssueView,
> {
    egg_head_issues(i, d, species) + concat_issues(egg_move_checks(i, d.moves@, moves), d.moves@.len() as int)
        + egg_tail_issues(i, d)
}

pub open spec fn egg_definition_checks(defs: Seq<OddEggDefinition>, species: Set<Seq<char>>, moves: Set<Seq<char>>) -> spec_fn(
    int,
) -> Seq<OddEggDefinitionIssueView> {
    |i: int| egg_definition_issues(i, defs[i], species, moves)
}

/// Every issue of the definitions: a probability total other than 100, then each definition's.
pub open spec fn egg_issue_list(defs: Seq<OddEggDefinition>, species: Set<Seq<char>>, moves: Set<Seq<char>>) -> Seq<
    OddEggDefinitionIssueView,
> {
    let total: Seq<OddEggDefinitionIssueView> = if defs.len() > 0 && probability_sum(defs, defs.len() as int) != 100 {
        seq![OddEggDefinitionIssueView::InvalidProbabilityTotal {
            total_probability: probability_sum(defs, defs.len() as int) as u32,
        }]
    } else {
        seq![]
    };
    total + concat_issues(egg_definition_checks(defs, species, moves), defs.len() as int)
}

fn egg_head_issue_list(index: usize, d: &OddEggDefinition, species_ids: &TextSet) -> (issues: Vec<OddEggDefinitionIssue>)
    ensures
        egg_issue_views(issues@) == egg_head_issues(index as int, *d, species_ids.view()),
{
    let mut issues: Vec<OddEggDefinitionIssue> = Vec::new();
    if !is_exact_nonempty_special_token(d.species.as_str()) {
        issues.push(OddEggDefinitionIssue::InvalidSpecies { index, species_id: copy_text(d.species.as_str()) });
    } else if !species_ids.contains(d.species.as_str()) {
        issues.push(OddEggDefinitionIssue::UnknownSpecies { index, species_id: copy_text(d.species.as_str()) });
    }
    if d.moves.len() == 0 || d.moves.len() > 4 {
        issues.push(OddEggDefinitionIssue::InvalidMoveCount { index, move_count: d.moves.len() });
    }
    proof {
        assert(egg_issue_views(issues@) =~= egg_head_issues(index as int, *d, species_ids.view()));
    }
    issues
}

fn egg_move_issue_list(index: usize, d: &OddEggDefinition, move_ids: &TextSet) -> (issues: Vec<OddEggDefinitionIssue>)
    ensures
        egg_issue_views(issues@) == concat_issues(egg_move_checks(index as int, d.moves@, move_ids.view()), d.moves@.len() as int),
{
    let mut issues: Vec<OddEggDefinitionIssue> = Vec::new();
    let ghost f = egg_move_checks(index as int, d.moves@, move_ids.view());
    let mut j: usize = 0;
    while j < d.moves.len()
        invariant
            j <= d.moves@.len(),
            f == egg_move_checks(index as int, d.moves@, move_ids.view()),
            egg_issue_views(issues@) == concat_issues(f, j as int),
        decreases d.moves.len() - j,
    {
        let ghost before = egg_issue_views(issues@);
        let m = &d.moves[j];
        if !is_exact_nonempty_special_token(m.as_str()) {
            issues.push(OddEggDefinitionIssue::InvalidMove { index, move_index: j, move_id: copy_text(m.as_str()) });
        } else if !move_ids.contains(m.as_str()) {
            issues.push(OddEggDefinitionIssue::UnknownMove { index, move_index: j, move_id: copy_text(m.as_str()) });
        }
        proof {
            assert(egg_issue_views(issues@) =~= before + f(j as int));
        }
        j += 1;
    }
    issues
}

fn name_is_ok(s: &String) -> (b: bool)
    ensures
        b == name_ok(s@),
{
    !is_blank_text(s.as_str()) && is_trimmed_text(s.as_str())
}

fn egg_tail_issue_list(index: usize, d: &OddEggDefinition) -> (issues: Vec<OddEggDefinitionIssue>)
    ensures
        egg_issue_views(issues@) == egg_tail_issues(index as int, *d),
{
    let mut issues: Vec<OddEggDefinitionIssue> = Vec::new();
    if d.probability == 0 {
        issues.push(OddEggDefinitionIssue::InvalidProbability { index });
    }
    if d.level == 0 || d.level > 100 {
        issues.push(OddEggDefinitionIssue::InvalidLevel { index, level: d.level });
    }
    if !name_is_ok(&d.nickname) {
        issues.push(OddEggDefinitionIssue::InvalidNickname { index, nickname: copy_text(d.nickname.as_str()) });
    }
    if !name_is_ok(&d.original_trainer_name) {
        issues.push(
            OddEggDefinitionIssue::InvalidOriginalTrainerName {
                index,
                original_trainer_name: copy_text(d.original_trainer_name.as_str()),
            },
        );
    }
    proof {
        assert(egg_issue_views(issues@) =~= egg_tail_issues(index as int, *d));
    }
    issues
}

/// The sum of the probabilities.
fn total_probability(definitions: &[OddEggDefinition]) -> (total: u32)
    requires
        probability_sum(definitions@, definitions@.len() as int) <= u32::MAX,
    ensures
        total == probability_sum(definitions@, definitions@.len() as int),
{
    let mut total: u32 = 0;
    let mut i: usize = 0;
    while i < definitions.len()
        invariant
            i <= definitions@.len(),
            total == probability_sum(definitions@, i as int),
            probability_sum(definitions@, definitions@.len() as int) <= u32::MAX,
        decreases definitions.len() - i,
    {
        proof {
            lemma_probability_sum_grows(definitions@, i + 1, definitions@.len() as int);
        }
        total = total + definitions[i].probability as u32;
        i += 1;
    }
    total
}

/// The running total of chances never shrinks.
pub proof fn lemma_probability_sum_grows(defs: Seq<OddEggDefinition>, n: int, m: int)
    requires
        0 <= n <= m <= defs.len(),
    ensures
        probability_sum(defs, n) <= probability_sum(defs, m),
    decreases m - n,
{
    if m > n {
        lemma_probability_sum_grows(defs, n, m - 1);
    }
}

/// Every problem with the Odd Egg definitions: chances that do not total 100, and for each
/// definition a malformed or unknown species or move, a move count outside 1..=4, a zero
/// chance, a level outside 1..=100, and a blank or untrimmed name.
pub fn odd_egg_definition_issues(definitions: &[OddEggDefinition], species_ids: &TextSet, move_ids: &TextSet) -> (issues:
    Vec<OddEggDefinitionIssue>)
    requires
        probability_sum(definitions@, definitions@.len() as int) <= u32::MAX,
    ensures
        egg_issue_views(issues@) == egg_issue_list(definitions@, species_ids.view(), move_ids.view()),
{
    let mut issues: Vec<OddEggDefinitionIssue> = Vec::new();
    if definitions.len() > 0 {
        let total = total_probability(definitions);
        if total != 100 {
            issues.push(OddEggDefinitionIssue::InvalidProbabilityTotal { total_probability: total });
        }
    }
    let ghost head = egg_issue_views(issues@);
    let ghost f = egg_definition_checks(definitions@, species_ids.view(), move_ids.view());
    let n = definitions.len();
    let mut i: usize = 0;
    while i < n
        invariant
            n == definitions@.len(),
            f == egg_definition_checks(definitions@, species_ids.view(), move_ids.view()),
            i <= n,
            egg_issue_views(issues@) == head + concat_issues(f, i as int),
        decreases n - i,
    {
        let d = &definitions[i];
        let ghost before = issues@;
        let mut a = egg_head_issue_list(i, d, species_ids);
        let ghost av = a@;
        let mut b = egg_move_issue_list(i, d, move_ids);
        let ghost bv = b@;
        let mut c = egg_tail_issue_list(i, d);
        let ghost cv = c@;
        issues.append(&mut a);
        issues.append(&mut b);
        issues.append(&mut c);
        proof {
            assert(issues@ == before + av + bv + cv);
            assert(egg_issue_views(issues@) =~= egg_issue_views(before) + egg_issue_views(av) + egg_issue_views(bv)
                + egg_issue_views(cv));
            assert(head + concat_issues(f, i + 1) =~= head + concat_issues(f, i as int) + f(i as int));
        }
        i += 1;
    }
    proof {
        assert(egg_issue_views(issues@) =~= egg_issue_list(definitions@, species_ids.view(), move_ids.view()));
    }
    issues
}

// ---- drawing an egg ----

/// A routine that hands out an Odd Egg needs definitions whose chances total 100.
pub fn validate_odd_egg_table(odd_egg_definitions: &[OddEggDefinition], routine: &str) -> (r: Result<
    (),
    SpecialRoutineError,
>)
    requires
        probability_sum(odd_egg_definitions@, odd_egg_definitions@.len() as int) <= u32::MAX,
    ensures
        odd_egg_definitions@.len() == 0 ==> (r matches Err(SpecialRoutineError::MissingOddEggDefinitions { routine: rr })
            && rr@ == routine@),
        odd_egg_definitions@.len() > 0 ==> match r {
            Ok(()) => probability_sum(odd_egg_definitions@, odd_egg_definitions@.len() as int) == 100,
            Err(e) => probability_sum(odd_egg_definitions@, odd_egg_definitions@.len() as int) != 100 && (e matches SpecialRoutineError::InvalidOddEggTable {
                routine: rr,
            } && rr@ == routine@),
        },
{
    if odd_egg_definitions.len() == 0 {
        return Err(SpecialRoutineError::MissingOddEggDefinitions { routine: copy_text(routine) });
    }
    let ghost defs = odd_egg_definitions@;
    let mut total: u32 = 0;
    let mut i: usize = 0;
    while i < odd_egg_definitions.len()
        invariant
            defs == odd_egg_definitions@,
            i <= defs.len(),
            probability_sum(defs, defs.len() as int) <= u32::MAX,
            total == probability_sum(defs, i as int),
        decreases odd_egg_definitions.len() - i,
    {
        proof {
            lemma_probability_sum_grows(defs, i + 1, defs.len() as int);
        }
        total = total + odd_egg_definitions[i].probability as u32;
        i += 1;
    }
    if total != 100 {
        return Err(SpecialRoutineError::InvalidOddEggTable { routine: copy_text(routine) });
    }
    Ok(())
}

/// The definition a random word draws: the first whose running chance total, scaled to
/// `$ffff` over 100, is at least the word.
pub open spec fn first_drawn(defs: Seq<OddEggDefinition>, word: u16, n: int) -> Option<int>
    decreases n,
{
    if n <= 0 {
        None
    } else {
        match first_drawn(defs, word, n - 1) {
            Some(i) => Some(i),
            None => if word <= (probability_sum(defs, n) * 0xffff) / 100 {
                Some(n - 1)
            } else {
                None
            },
        }
    }
}

/// Draws an Odd Egg with a random word; a word beyond every running total is refused.
pub fn draw_odd_egg_index(odd_egg_definitions: &[OddEggDefinition], random_word: u16, routine: &str) -> (r: Result<
    usize,
    SpecialRoutineError,
>)
    requires
        probability_sum(odd_egg_definitions@, odd_egg_definitions@.len() as int) * 0xffff <= u32::MAX,
    ensures
        match r {
            Ok(i) => first_drawn(odd_egg_definitions@, random_word, odd_egg_definitions@.len() as int) == Some(i as int),
            Err(e) => first_drawn(odd_egg_definitions@, random_word, odd_egg_definitions@.len() as int) is None && (e matches SpecialRoutineError::InvalidOddEggTable {
                routine: rr,
            } && rr@ == routine@),
        },
{
    let ghost defs = odd_egg_definitions@;
    let ghost n = defs.len() as int;
    let mut cumulative: u32 = 0;
    let mut index: usize = 0;
    while index < odd_egg_definitions.len()
        invariant
            defs == odd_egg_definitions@,
            n == defs.len(),
            index <= n,
            probability_sum(defs, n) * 0xffff <= u32::MAX,
            cumulative == probability_sum(defs, index as int),
            first_drawn(defs, random_word, index as int) is None,
        decreases odd_egg_definitions.len() - index,
    {
        proof {
            lemma_probability_sum_grows(defs, index + 1, n);
            assert(probability_sum(defs, index + 1) * 0xffff <= probability_sum(defs, n) * 0xffff) by (nonlinear_arith)
                requires
                    probability_sum(defs, index + 1) <= probability_sum(defs, n),
            ;
        }
        cumulative = cumulative + odd_egg_definitions[index].probability as u32;
        let threshold = (cumulative * 0xffff) / 100;
        if random_word as u32 <= threshold {
            proof {
                lemma_first_drawn_stays(defs, random_word, index + 1, n);
            }
            return Ok(index);
        }
        index += 1;
    }
    Err(SpecialRoutineError::InvalidOddEggTable { routine: copy_text(routine) })
}

proof fn lemma_first_drawn_stays(defs: Seq<OddEggDefinition>, word: u16, n: int, m: int)
    requires
        0 <= n <= m,
        first_drawn(defs, word, n) is Some,
    ensures
        first_drawn(defs, word, m) == first_drawn(defs, word, n),
    decreases m - n,
{
    if m > n {
        lemma_first_drawn_stays(defs, word, n, m - 1);
    }
}

} // verus!
