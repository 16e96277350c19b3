//! Battle Tower rules, their checks, and the checks on a saved Battle Tower state.
use vstd::prelude::*;
use crate::items::{Bag, Item};
use crate::ordered::{TextMap, TextSet};
use crate::pokemon::{CaughtData, Party, Pokemon, TimeOfDay};
use crate::special_routines::checks::{first_error, lemma_first_error_stays};
use crate::special_routines::errors::SpecialRoutineError;
use crate::special_routines::healing::{heal_party, healed, restored_moves};
use crate::special_routines::numbers::{bounded_value, numeric_error, parse_exact_u8_token};
use crate::special_routines::tokens::is_exact_nonempty_special_token;
use crate::text::{
    copy_text, decimal_chars, decimal_digits, decimal_text, is_blank, is_blank_text, is_exact_token, is_trimmed, is_trimmed_text, text_chars,
    text_eq, text_from_chars, trim_start, is_unicode_whitespace_char,
};

verus! {

/// A species the Battle Tower refuses; the rule carries no data of its own.
#[derive(Clone, Copy, Debug, PartialEq, Eq, Structural)]
pub struct BattleTowerBannedSpeciesRule {}

/// One trainer of the Battle Tower roster.
#[derive(Debug, PartialEq, Eq)]
pub struct BattleTowerTrainerDefinition {
    pub index: usize,
    pub trainer_class: String,
    pub name: String,
    pub sprite_constant: String,
    pub female: bool,
}

/// One Pokemon record of a Battle Tower group, laid out as the game's records are.
#[derive(Debug, PartialEq, Eq)]
pub struct BattleTowerMonDefinition {
    pub species: String,
    pub item: Option<String>,
    pub moves: Vec<String>,
    pub original_trainer_id: u16,
    pub experience: u32,
    pub stat_exp: Vec<u16>,
    pub dvs: Vec<u8>,
    pub pp: Vec<u8>,
    pub happiness: u8,
    pub pokerus: Vec<u8>,
    pub level: u8,
    pub status: Vec<u8>,
    pub stats: Vec<u16>,
    pub nickname: String,
}

/// The pack's Battle Tower rules.
#[derive(Debug, PartialEq, Eq)]
pub struct BattleTowerRules {
    pub banned_species: TextMap<BattleTowerBannedSpeciesRule>,
    pub required_party_count: usize,
    pub challenge_streak_length: u8,
    pub reward_candidates: Vec<String>,
    pub excluded_reward_items: Vec<String>,
    pub reward_quantity: u16,
    pub reward_failure_sentinel: String,
    pub reward_item_values: TextMap<u8>,
    pub minimum_level_group: u8,
    pub maximum_level_group: u8,
    pub level_group_size: u8,
    pub party_count_failure_text: String,
    pub duplicate_species_failure_text: String,
    pub duplicate_held_item_failure_text: String,
    pub egg_failure_text: String,
    pub trainers: Vec<BattleTowerTrainerDefinition>,
    pub mon_groups: Vec<Vec<BattleTowerMonDefinition>>,
}

/// Which failure text of the rules.
#[derive(Clone, Copy, Debug, PartialEq, Eq, Structural)]
pub enum BattleTowerFailureTextField {
    PartyCount,
    DuplicateSpecies,
    DuplicateHeldItem,
    Egg,
}

pub open spec fn failure_text_subject(field: BattleTowerFailureTextField) -> Seq<char> {
    match field {
        BattleTowerFailureTextField::PartyCount => "battle_tower_rules:partyCountFailureText"@,
        BattleTowerFailureTextField::DuplicateSpecies => "battle_tower_rules:duplicateSpeciesFailureText"@,
        BattleTowerFailureTextField::DuplicateHeldItem => "battle_tower_rules:duplicateHeldItemFailureText"@,
        BattleTowerFailureTextField::Egg => "battle_tower_rules:eggFailureText"@,
    }
}

impl BattleTowerFailureTextField {
    /// The name under which the text is looked up.
    pub fn subject(self) -> (s: &'static str)
        ensures
            s@ == failure_text_subject(self),
    {
        match self {
            BattleTowerFailureTextField::PartyCount => "battle_tower_rules:partyCountFailureText",
            BattleTowerFailureTextField::DuplicateSpecies => "battle_tower_rules:duplicateSpeciesFailureText",
            BattleTowerFailureTextField::DuplicateHeldItem => "battle_tower_rules:duplicateHeldItemFailureText",
            BattleTowerFailureTextField::Egg => "battle_tower_rules:eggFailureText",
        }
    }
}

/// A problem with the Battle Tower rules.
#[derive(Debug, PartialEq, Eq)]
pub enum BattleTowerRulesIssue {
    MissingRequiredPartyCount,
    MissingChallengeStreakLength,
    MissingLevelGroupSize,
    InvalidLevelGroupRange,
    MissingTrainerRoster,
    MissingMonGroups,
    InvalidFailureText { field: BattleTowerFailureTextField, text_id: String },
    InvalidBannedSpecies { species_id: String },
    UnknownBannedSpecies { species_id: String },
}

pub enum BattleTowerRulesIssueView {
    MissingRequiredPartyCount,
    MissingChallengeStreakLength,
    MissingLevelGroupSize,
    InvalidLevelGroupRange,
    MissingTrainerRoster,
    MissingMonGroups,
    InvalidFailureText { field: BattleTowerFailureTextField, text_id: Seq<char> },
    InvalidBannedSpecies { species_id: Seq<char> },
    UnknownBannedSpecies { species_id: Seq<char> },
}

impl View for BattleTowerRulesIssue {
    type V = BattleTowerRulesIssueView;

    open spec fn view(&self) -> BattleTowerRulesIssueView {
        match self {
            BattleTowerRulesIssue::MissingRequiredPartyCount => BattleTowerRulesIssueView::MissingRequiredPartyCount,
            BattleTowerRulesIssue::MissingChallengeStreakLength => {
                BattleTowerRulesIssueView::MissingChallengeStreakLength
            },
            BattleTowerRulesIssue::MissingLevelGroupSize => BattleTowerRulesIssueView::MissingLevelGroupSize,
            BattleTowerRulesIssue::InvalidLevelGroupRange => BattleTowerRulesIssueView::InvalidLevelGroupRange,
            BattleTowerRulesIssue::MissingTrainerRoster => BattleTowerRulesIssueView::MissingTrainerRoster,
            BattleTowerRulesIssue::MissingMonGroups => BattleTowerRulesIssueView::MissingMonGroups,
            BattleTowerRulesIssue::InvalidFailureText { field, text_id } => {
                BattleTowerRulesIssueView::InvalidFailureText { field: *field, text_id: text_id@ }
            },
            BattleTowerRulesIssue::InvalidBannedSpecies { species_id } => {
                BattleTowerRulesIssueView::InvalidBannedSpecies { species_id: species_id@ }
            },
            BattleTowerRulesIssue::UnknownBannedSpecies { species_id } => {
                BattleTowerRulesIssueView::UnknownBannedSpecies { species_id: species_id@ }
            },
        }
    }
}

pub open spec fn tower_issue_views(v: Seq<BattleTowerRulesIssue>) -> Seq<BattleTowerRulesIssueView> {
    v.map_values(|i: BattleTowerRulesIssue| i@)
}

/// Some Pokemon group is empty, or there are none.
pub open spec fn mon_groups_missing(groups: Seq<Vec<BattleTowerMonDefinition>>) -> bool {
    groups.len() == 0 || exists|g: int| 0 <= g < groups.len() && #[trigger] groups[g]@.len() == 0
}

pub open spec fn failure_text_issue(field: BattleTowerFailureTextField, text: Seq<char>) -> Seq<
    BattleTowerRulesIssueView,
> {
    if is_exact_token(text) {
        seq![]
    } else {
        seq![BattleTowerRulesIssueView::InvalidFailureText { field, text_id: text }]
    }
}

/// The issues of the counts, ranges, roster and groups.
pub open spec fn tower_count_list(rules: BattleTowerRules) -> Seq<BattleTowerRulesIssueView> {
    let a: Seq<BattleTowerRulesIssueView> = if rules.required_party_count == 0 {
        seq![BattleTowerRulesIssueView::MissingRequiredPartyCount]
    } else {
        seq![]
    };
    let b: Seq<BattleTowerRulesIssueView> = if rules.challenge_streak_length == 0 {
        seq![BattleTowerRulesIssueView::MissingChallengeStreakLength]
    } else {
        seq![]
    };
    let c: Seq<BattleTowerRulesIssueView> = if rules.level_group_size == 0 {
        seq![BattleTowerRulesIssueView::MissingLevelGroupSize]
    } else {
        seq![]
    };
    let d: Seq<BattleTowerRulesIssueView> = if rules.minimum_level_group == 0 || rules.maximum_level_group
        < rules.minimum_level_group {
        seq![BattleTowerRulesIssueView::InvalidLevelGroupRange]
    } else {
        seq![]
    };
    let e: Seq<BattleTowerRulesIssueView> = if rules.trainers@.len() == 0 {
        seq![BattleTowerRulesIssueView::MissingTrainerRoster]
    } else {
        seq![]
    };
    let f: Seq<BattleTowerRulesIssueView> = if mon_groups_missing(rules.mon_groups@) {
        seq![BattleTowerRulesIssueView::MissingMonGroups]
    } else {
        seq![]
    };
    a + b + c + d + e + f
}

/// The issues of the counts, ranges, roster, groups and failure texts.
pub open spec fn tower_head_list(rules: BattleTowerRules) -> Seq<BattleTowerRulesIssueView> {
    tower_count_list(rules) + failure_text_issue(BattleTowerFailureTextField::PartyCount, rules.party_count_failure_text@)
        + failure_text_issue(BattleTowerFailureTextField::DuplicateSpecies, rules.duplicate_species_failure_text@)
        + failure_text_issue(BattleTowerFailureTextField::DuplicateHeldItem, rules.duplicate_held_item_failure_text@)
        + failure_text_issue(BattleTowerFailureTextField::Egg, rules.egg_failure_text@)
}

pub open spec fn banned_species_issue(id: Seq<char>, species: Set<Seq<char>>) -> Seq<BattleTowerRulesIssueView> {
    if !is_exact_token(id) {
        seq![BattleTowerRulesIssueView::InvalidBannedSpecies { species_id: id }]
    } else if !species.contains(id) {
        seq![BattleTowerRulesIssueView::UnknownBannedSpecies { species_id: id }]
    } else {
        seq![]
    }
}

/// The issues of the first `n` banned species, in key order.
pub open spec fn banned_species_issues(ids: Seq<Seq<char>>, species: Set<Seq<char>>, n: int) -> Seq<
    BattleTowerRulesIssueView,
>
    decreases n,
{
    if n <= 0 {
        seq![]
    } else {
        banned_species_issues(ids, species, n - 1) + banned_species_issue(ids[n - 1], species)
    }
}

/// Every issue of the rules, in the order the checks run.
pub open spec fn tower_issue_list(rules: BattleTowerRules, species: Set<Seq<char>>) -> Seq<BattleTowerRulesIssueView> {
    let ids = rules.banned_species.key_seq();
    tower_head_list(rules) + banned_species_issues(ids, species, ids.len() as int)
}

fn push_failure_text_issue(
    issues: &mut Vec<BattleTowerRulesIssue>,
    field: BattleTowerFailureTextField,
    text: &String,
)
    ensures
        tower_issue_views(final(issues)@) == tower_issue_views(old(issues)@) + failure_text_issue(field, text@),
{
    let ghost before = issues@;
    if !is_exact_nonempty_special_token(text.as_str()) {
        issues.push(BattleTowerRulesIssue::InvalidFailureText { field, text_id: copy_text(text.as_str()) });
    }
    proof {
        assert(tower_issue_views(issues@) =~= tower_issue_views(before) + failure_text_issue(field, text@));
    }
}

fn mon_groups_are_missing(groups: &Vec<Vec<BattleTowerMonDefinition>>) -> (b: bool)
    ensures
        b == mon_groups_missing(groups@),
{
    if groups.len() == 0 {
        return true;
    }
    let mut g: usize = 0;
    while g < groups.len()
        invariant
            g <= groups@.len(),
            forall|k: int| 0 <= k < g ==> #[trigger] groups@[k]@.len() != 0,
        decreases groups.len() - g,
    {
        if groups[g].len() == 0 {
            return true;
        }
        g += 1;
    }
    false
}

fn tower_count_issues(rules: &BattleTowerRules) -> (issues: Vec<BattleTowerRulesIssue>)
    ensures
        tower_issue_views(issues@) == tower_count_list(*rules),
{
    let mut issues: Vec<BattleTowerRulesIssue> = Vec::new();
    if rules.required_party_count == 0 {
        issues.push(BattleTowerRulesIssue::MissingRequiredPartyCount);
    }
    if rules.challenge_streak_length == 0 {
        issues.push(BattleTowerRulesIssue::MissingChallengeStreakLength);
    }
    if rules.level_group_size == 0 {
        issues.push(BattleTowerRulesIssue::MissingLevelGroupSize);
    }
    if rules.minimum_level_group == 0 || rules.maximum_level_group < rules.minimum_level_group {
        issues.push(BattleTowerRulesIssue::InvalidLevelGroupRange);
    }
    if rules.trainers.len() == 0 {
        issues.push(BattleTowerRulesIssue::MissingTrainerRoster);
    }
    if mon_groups_are_missing(&rules.mon_groups) {
        issues.push(BattleTowerRulesIssue::MissingMonGroups);
    }
    proof {
        assert(tower_issue_views(issues@) =~= tower_count_list(*rules));
    }
    issues
}

fn tower_head_issues(rules: &BattleTowerRules) -> (issues: Vec<BattleTowerRulesIssue>)
    ensures
        tower_issue_views(issues@) == tower_head_list(*rules),
{
    let mut issues = tower_count_issues(rules);
    push_failure_text_issue(&mut issues, BattleTowerFailureTextField::PartyCount, &rules.party_count_failure_text);
    push_failure_text_issue(
        &mut issues,
        BattleTowerFailureTextField::DuplicateSpecies,
        &rules.duplicate_species_failure_text,
    );
    push_failure_text_issue(
        &mut issues,
        BattleTowerFailureTextField::DuplicateHeldItem,
        &rules.duplicate_held_item_failure_text,
    );
    push_failure_text_issue(&mut issues, BattleTowerFailureTextField::Egg, &rules.egg_failure_text);
    proof {
        assert(tower_issue_views(issues@) =~= tower_head_list(*rules));
    }
    issues
}

/// Every problem with the Battle Tower rules: zero counts, a bad level-group range, an empty
/// roster or Pokemon group, malformed failure texts, and banned species that are malformed or
/// not species of the pack.
pub fn battle_tower_rules_issues(rules: &BattleTowerRules, species_ids: &TextSet) -> (issues: Vec<
    BattleTowerRulesIssue,
>)
    ensures
        tower_issue_views(issues@) == tower_issue_list(*rules, species_ids.view()),
{
    let mut issues = tower_head_issues(rules);
    let ghost head = tower_issue_views(issues@);
    let ghost ids = rules.banned_species.key_seq();
    let n = rules.banned_species.len();
    let mut i: usize = 0;
    while i < n
        invariant
            n == ids.len(),
            ids == rules.banned_species.key_seq(),
            i <= n,
            tower_issue_views(issues@) == head + banned_species_issues(ids, species_ids.view(), i as int),
        decreases n - i,
    {
        let id = rules.banned_species.key_at(i);
        let ghost before = tower_issue_views(issues@);
        if !is_exact_nonempty_special_token(id.as_str()) {
            issues.push(BattleTowerRulesIssue::InvalidBannedSpecies { species_id: copy_text(id.as_str()) });
        } else if !species_ids.contains(id.as_str()) {
            issues.push(BattleTowerRulesIssue::UnknownBannedSpecies { species_id: copy_text(id.as_str()) });
        }
        proof {
            assert(tower_issue_views(issues@) =~= before + banned_species_issue(ids[i as int], species_ids.view()));
        }
        i += 1;
    }
    issues
}

/// The trainer history a fresh save holds: seven `$ff` bytes.
pub open spec fn default_trainer_history(h: Seq<u8>) -> bool {
    h.len() == 7 && forall|i: int| 0 <= i < 7 ==> #[trigger] h[i] == 0xff
}

/// Whether the trainer history is the one a fresh save holds.
pub fn is_default_battle_tower_trainer_history(trainer_history: &[u8]) -> (b: bool)
    ensures
        b == default_trainer_history(trainer_history@),
{
    if trainer_history.len() != 7 {
        return false;
    }
    let mut i: usize = 0;
    while i < 7
        invariant
            trainer_history@.len() == 7,
            i <= 7,
            forall|k: int| 0 <= k < i ==> #[trigger] trainer_history@[k] == 0xff,
        decreases 7 - i,
    {
        if trainer_history[i] != 0xff {
            return false;
        }
        i += 1;
    }
    true
}

/// The saved Battle Tower progress.
#[derive(Debug, PartialEq, Eq)]
pub struct BattleTowerState {
    pub challenge_state: u8,
    pub beaten_trainers: u8,
    pub level_group: u8,
    pub reward_given: bool,
    pub quick_saved: bool,
    pub explanation_read: bool,
    pub save_file_flags: u8,
    pub gs_ball_flag: bool,
    pub record_state: u8,
    pub record_last_day: Option<u8>,
    pub record_reset_counter: u8,
    pub leaderboard_acknowledged: bool,
    pub loaded_trainer_id: Option<String>,
    pub selected_party_indexes: Vec<usize>,
    pub mobile_flags: Vec<u8>,
    pub trainer_history: Vec<u8>,
    pub record_streaks: Vec<u8>,
    pub record_outcomes: Vec<bool>,
    pub record_days: Vec<u8>,
    pub reward_item: String,
}

/// A saved state differs in some field from a fresh save.
pub open spec fn tower_active(t: BattleTowerState) -> bool {
    ||| t.challenge_state != 0
    ||| t.beaten_trainers != 0
    ||| t.level_group != 0
    ||| t.reward_given
    ||| t.quick_saved
    ||| t.explanation_read
    ||| t.save_file_flags != 0
    ||| t.gs_ball_flag
    ||| t.record_state != 0
    ||| t.record_last_day is Some
    ||| t.record_reset_counter != 0
    ||| t.leaderboard_acknowledged
    ||| t.loaded_trainer_id is Some
    ||| t.selected_party_indexes@.len() != 0
    ||| t.mobile_flags@.len() != 0
    ||| !default_trainer_history(t.trainer_history@)
    ||| t.record_streaks@.len() != 0
    ||| t.record_outcomes@.len() != 0
    ||| t.record_days@.len() != 0
}

/// Whether the saved Battle Tower state holds any progress.
pub fn saved_battle_tower_state_is_active(tower: &BattleTowerState) -> (b: bool)
    ensures
        b == tower_active(*tower),
{
    tower.challenge_state != 0 || tower.beaten_trainers != 0 || tower.level_group != 0 || tower.reward_given
        || tower.quick_saved || tower.explanation_read || tower.save_file_flags != 0 || tower.gs_ball_flag
        || tower.record_state != 0 || tower.record_last_day.is_some() || tower.record_reset_counter != 0
        || tower.leaderboard_acknowledged || tower.loaded_trainer_id.is_some()
        || tower.selected_party_indexes.len() != 0 || tower.mobile_flags.len() != 0
        || !is_default_battle_tower_trainer_history(tower.trainer_history.as_slice())
        || tower.record_streaks.len() != 0 || tower.record_outcomes.len() != 0 || tower.record_days.len() != 0
}

/// The level group the tower is at, which must lie in the rules' range.
pub fn exact_battle_tower_level_group(tower: &BattleTowerState, rules: &BattleTowerRules, routine: &str) -> (r: Result<
    u8,
    SpecialRoutineError,
>)
    ensures
        match r {
            Ok(g) => g == tower.level_group && rules.minimum_level_group <= g <= rules.maximum_level_group,
            Err(e) => !(rules.minimum_level_group <= tower.level_group <= rules.maximum_level_group) && (e matches SpecialRoutineError::InvalidBattleTowerLevelGroup {
                routine: rr,
                level_group: g,
                minimum: lo,
                maximum: hi,
            } && rr@ == routine@ && g == tower.level_group && lo == rules.minimum_level_group && hi
                == rules.maximum_level_group),
        },
{
    let level_group = tower.level_group;
    if level_group < rules.minimum_level_group || level_group > rules.maximum_level_group {
        return Err(SpecialRoutineError::InvalidBattleTowerLevelGroup {
            routine: copy_text(routine),
            level_group,
            minimum: rules.minimum_level_group,
            maximum: rules.maximum_level_group,
        });
    }
    Ok(level_group)
}

/// `a - b` on day counters, wrapping around 256.
pub open spec fn days_between(a: u8, b: u8) -> u8 {
    (if a >= b { a - b } else { a - b + 256 }) as u8
}

/// The record timer has run out: the record was reset twice, or at least `max_days` days have
/// passed since it was last written.
pub open spec fn timer_expired(tower: BattleTowerState, current_day: u8, max_days: u8) -> bool {
    tower.record_reset_counter >= 2 || (tower.record_last_day matches Some(last) && days_between(current_day, last)
        >= max_days)
}

/// Whether the tower's record timer has run out on `current_day`.
pub fn battle_tower_timer_expired(tower: &BattleTowerState, current_day: u8, max_days: u8) -> (b: bool)
    ensures
        b == timer_expired(*tower, current_day, max_days),
{
    if tower.record_reset_counter >= 2 {
        return true;
    }
    match tower.record_last_day {
        None => false,
        Some(last_day) => current_day.wrapping_sub(last_day) >= max_days,
    }
}

/// The record status a routine reads: the saved status, or 8 when a record is kept and its
/// timer (eight days) has run out, in which case the saved status is cleared.
pub fn battle_tower_record_status(tower: &mut BattleTowerState, current_day: u8) -> (status: u8)
    ensures
        old(tower).record_state != 0 && timer_expired(*old(tower), current_day, 8) ==> status == 8
            && *final(tower) == (BattleTowerState { record_state: 0, ..*old(tower) }),
        !(old(tower).record_state != 0 && timer_expired(*old(tower), current_day, 8)) ==> status
            == old(tower).record_state && *final(tower) == *old(tower),
{
    let mut status = tower.record_state;
    if status != 0 && battle_tower_timer_expired(tower, current_day, 8) {
        status = 8;
        tower.record_state = 0;
    }
    status
}

/// The trainer records of a fresh challenge: nobody beaten, and `challenge_streak_length`
/// empty (`$ff`) history entries.
pub fn reset_battle_tower_trainer_records(tower: &mut BattleTowerState, challenge_streak_length: u8)
    ensures
        final(tower).beaten_trainers == 0,
        final(tower).trainer_history@ == Seq::new(challenge_streak_length as nat, |i: int| 0xffu8),
        *final(tower) == (BattleTowerState {
            beaten_trainers: 0,
            trainer_history: final(tower).trainer_history,
            ..*old(tower)
        }),
{
    let mut history: Vec<u8> = Vec::new();
    let mut i: u8 = 0;
    while i < challenge_streak_length
        invariant
            i <= challenge_streak_length,
            history@ == Seq::new(i as nat, |k: int| 0xffu8),
        decreases challenge_streak_length - i,
    {
        history.push(0xff);
        i += 1;
        proof {
            assert(history@ =~= Seq::new(i as nat, |k: int| 0xffu8));
        }
    }
    tower.beaten_trainers = 0;
    tower.trainer_history = history;
}

/// `s` with `x` in front, cut to its first `n` entries.
pub open spec fn newest_first<T>(s: Seq<T>, x: T, n: nat) -> Seq<T> {
    let t = seq![x] + s;
    if t.len() > n { t.take(n as int) } else { t }
}

fn push_front_truncated<T>(v: &mut Vec<T>, x: T, n: usize)
    ensures
        final(v)@ == newest_first(old(v)@, x, n as nat),
{
    v.insert(0, x);
    proof {
        assert(v@ =~= seq![x] + old(v)@);
    }
    v.truncate(n);
}

/// Records a finished run: its streak (capped at the challenge length), its outcome and the
/// day go in front of the records, which keep the newest `challenge_streak_length`; the record
/// is then marked kept on `current_day`, its reset counter cleared and the leaderboard not yet
/// seen.
pub fn record_battle_tower_run(
    tower: &mut BattleTowerState,
    current_day: u8,
    beaten: u8,
    success: bool,
    challenge_streak_length: u8,
)
    ensures
        final(tower).record_streaks@ == newest_first(
            old(tower).record_streaks@,
            if beaten < challenge_streak_length { beaten } else { challenge_streak_length },
            challenge_streak_length as nat,
        ),
        final(tower).record_outcomes@ == newest_first(old(tower).record_outcomes@, success, challenge_streak_length as nat),
        final(tower).record_days@ == newest_first(old(tower).record_days@, current_day, challenge_streak_length as nat),
        *final(tower) == (BattleTowerState {
            record_streaks: final(tower).record_streaks,
            record_outcomes: final(tower).record_outcomes,
            record_days: final(tower).record_days,
            record_state: 1,
            record_last_day: Some(current_day),
            record_reset_counter: 0,
            leaderboard_acknowledged: false,
            ..*old(tower)
        }),
{
    let streak = if beaten < challenge_streak_length { beaten } else { challenge_streak_length };
    let n = challenge_streak_length as usize;
    push_front_truncated(&mut tower.record_streaks, streak, n);
    push_front_truncated(&mut tower.record_outcomes, success, n);
    push_front_truncated(&mut tower.record_days, current_day, n);
    tower.record_state = 1;
    tower.record_last_day = Some(current_day);
    tower.record_reset_counter = 0;
    tower.leaderboard_acknowledged = false;
}

/// The caught data a Battle Tower record's two bytes hold: none when both are zero; else the
/// level in the low six bits and the time of day in the top two of the first byte, the
/// trainer's gender in the top bit and the location in the low seven of the second.
pub open spec fn caught_data_of(level_time: u8, gender_location: u8) -> Option<CaughtData> {
    if level_time == 0 && gender_location == 0 {
        None
    } else {
        let t = level_time / 64;
        Some(
            CaughtData {
                level: level_time % 64,
                time_of_day: if t == 0 {
                    None
                } else if t == 1 {
                    Some(TimeOfDay::Morning)
                } else if t == 2 {
                    Some(TimeOfDay::Day)
                } else {
                    Some(TimeOfDay::Night)
                },
                original_trainer_gender: gender_location / 128,
                location: gender_location % 128,
            },
        )
    }
}

/// Decodes the caught data of a Battle Tower record.
pub fn decode_battle_tower_caught_data(level_time: u8, gender_location: u8) -> (r: Option<CaughtData>)
    ensures
        r == caught_data_of(level_time, gender_location),
{
    if level_time == 0 && gender_location == 0 {
        return None;
    }
    let t = level_time >> 6;
    assert(level_time >> 6 == level_time / 64) by (bit_vector);
    assert(level_time & 0x3f == level_time % 64) by (bit_vector);
    assert(gender_location >> 7 == gender_location / 128) by (bit_vector);
    assert(gender_location & 0x7f == gender_location % 128) by (bit_vector);
    let time_of_day = if t == 0 {
        None
    } else if t == 1 {
        Some(TimeOfDay::Morning)
    } else if t == 2 {
        Some(TimeOfDay::Day)
    } else {
        Some(TimeOfDay::Night)
    };
    Some(
        CaughtData {
            level: level_time & 0x3f,
            time_of_day,
            original_trainer_gender: gender_location >> 7,
            location: gender_location & 0x7f,
        },
    )
}

// ---- checking a party against the rules ----

/// The Pokemon in the party's slots, in slot order.
pub open spec fn party_members(slots: Seq<Option<Pokemon>>) -> Seq<Pokemon>
    decreases slots.len(),
{
    if slots.len() == 0 {
        seq![]
    } else {
        match slots.last() {
            Some(p) => party_members(slots.drop_last()).push(p),
            None => party_members(slots.drop_last()),
        }
    }
}

/// Two hatched members share a species.
pub open spec fn repeats_species(m: Seq<Pokemon>) -> bool {
    exists|i: int, j: int|
        0 <= i < j < m.len() && !m[i].is_egg && !m[j].is_egg && #[trigger] m[i].species.id@ == #[trigger] m[j].species.id@
}

/// The item a member holds, as far as the duplicate-item rule counts it: eggs and `NO_ITEM`
/// count as holding nothing.
pub open spec fn counted_item(p: Pokemon) -> Option<Seq<char>> {
    if p.is_egg {
        None
    } else {
        match p.item {
            Some(i) => if i@ == "NO_ITEM"@ {
                None
            } else {
                Some(i@)
            },
            None => None,
        }
    }
}

/// Two members hold the same counted item.
pub open spec fn repeats_item(m: Seq<Pokemon>) -> bool {
    exists|i: int, j: int|
        0 <= i < j < m.len() && counted_item(m[i]) is Some && #[trigger] counted_item(m[i]) == #[trigger] counted_item(
            m[j],
        )
}

/// Some member is an egg.
pub open spec fn has_egg(m: Seq<Pokemon>) -> bool {
    exists|i: int| 0 <= i < m.len() && (#[trigger] m[i]).is_egg
}

/// The failure texts of a party against the rules, in the order they are checked: the wrong
/// number of Pokemon, a repeated species, a repeated held item, an egg.
pub open spec fn rule_failures(slots: Seq<Option<Pokemon>>, rules: BattleTowerRules) -> Seq<Seq<char>> {
    let m = party_members(slots);
    let a: Seq<Seq<char>> = if m.len() != rules.required_party_count { seq![rules.party_count_failure_text@] } else { seq![] };
    let b: Seq<Seq<char>> = if repeats_species(m) { seq![rules.duplicate_species_failure_text@] } else { seq![] };
    let c: Seq<Seq<char>> = if repeats_item(m) { seq![rules.duplicate_held_item_failure_text@] } else { seq![] };
    let d: Seq<Seq<char>> = if has_egg(m) { seq![rules.egg_failure_text@] } else { seq![] };
    a + b + c + d
}

fn party_member_list(party: &Party) -> (m: Vec<&Pokemon>)
    ensures
        m@.len() == party_members(party.pokemon@).len(),
        forall|i: int| 0 <= i < m@.len() ==> *#[trigger] m@[i] == party_members(party.pokemon@)[i],
{
    let mut m: Vec<&Pokemon> = Vec::new();
    let mut i: usize = 0;
    while i < party.pokemon.len()
        invariant
            i <= party.pokemon@.len(),
            m@.len() == party_members(party.pokemon@.take(i as int)).len(),
            forall|k: int| 0 <= k < m@.len() ==> *#[trigger] m@[k] == party_members(party.pokemon@.take(i as int))[k],
        decreases party.pokemon.len() - i,
    {
        proof {
            assert(party.pokemon@.take(i + 1).drop_last() =~= party.pokemon@.take(i as int));
        }
        match &party.pokemon[i] {
            Some(p) => {
                m.push(p);
            },
            None => {},
        }
        i += 1;
    }
    proof {
        assert(party.pokemon@.take(party.pokemon@.len() as int) =~= party.pokemon@);
    }
    m
}

fn counted_item_of(p: &Pokemon) -> (r: Option<&str>)
    ensures
        match r {
            Some(s) => counted_item(*p) == Some(s@),
            None => counted_item(*p) is None,
        },
{
    if p.is_egg {
        return None;
    }
    match &p.item {
        Some(item) => {
            if text_eq(item.as_str(), "NO_ITEM") {
                None
            } else {
                Some(item.as_str())
            }
        },
        None => None,
    }
}

/// The failure texts of the party against the Battle Tower rules.
pub fn battle_tower_rule_failures(party: &Party, rules: &BattleTowerRules) -> (failures: Vec<String>)
    ensures
        failures@.map_values(|s: String| s@) == rule_failures(party.pokemon@, *rules),
{
    let members = party_member_list(party);
    let ghost m = party_members(party.pokemon@);
    let n = members.len();
    let mut failures: Vec<String> = Vec::new();
    if n != rules.required_party_count {
        failures.push(copy_text(rules.party_count_failure_text.as_str()));
    }
    let mut species = TextSet::new();
    let mut repeated = false;
    let mut i: usize = 0;
    while i < n
        invariant_except_break
            !repeated,
            forall|k: int, j: int|
                0 <= k < j < i && !m[k].is_egg && !m[j].is_egg ==> #[trigger] m[k].species.id@ != #[trigger] m[j].species.id@,
            forall|s: Seq<char>| species@.contains(s) <==> exists|k: int| 0 <= k < i && !m[k].is_egg && #[trigger] m[k].species.id@ == s,
        invariant
            n == members@.len(),
            m == party_members(party.pokemon@),
            m.len() == n,
            forall|k: int| 0 <= k < members@.len() ==> *#[trigger] members@[k] == m[k],
            i <= n,
        ensures
            repeated == repeats_species(m),
        decreases n - i,
    {
        let p = members[i];
        if !p.is_egg {
            let added = species.insert(copy_text(p.species.id.as_str()));
            if !added {
                proof {
                    let k = choose|k: int| 0 <= k < i && !m[k].is_egg && #[trigger] m[k].species.id@ == p.species.id@;
                    assert(m[k].species.id@ == m[i as int].species.id@);
                }
                repeated = true;
                break;
            }
        }
        i += 1;
    }
    let ghost before_b = failures@;
    if repeated {
        failures.push(copy_text(rules.duplicate_species_failure_text.as_str()));
    }
    let mut items = TextSet::new();
    let mut repeated_item = false;
    let mut i: usize = 0;
    while i < n
        invariant_except_break
            !repeated_item,
            forall|k: int, j: int|
                0 <= k < j < i && counted_item(m[k]) is Some ==> #[trigger] counted_item(m[k]) != #[trigger] counted_item(m[j]),
            forall|s: Seq<char>| items@.contains(s) <==> exists|k: int| 0 <= k < i && #[trigger] counted_item(m[k]) == Some(s),
        invariant
            n == members@.len(),
            m == party_members(party.pokemon@),
            m.len() == n,
            forall|k: int| 0 <= k < members@.len() ==> *#[trigger] members@[k] == m[k],
            i <= n,
        ensures
            repeated_item == repeats_item(m),
        decreases n - i,
    {
        let p = members[i];
        match counted_item_of(p) {
            Some(item) => {
                let added = items.insert(copy_text(item));
                if !added {
                    proof {
                        let k = choose|k: int| 0 <= k < i && #[trigger] counted_item(m[k]) == Some(item@);
                        assert(counted_item(m[k]) == counted_item(m[i as int]));
                    }
                    repeated_item = true;
                    break;
                }
            },
            None => {},
        }
        i += 1;
    }
    if repeated_item {
        failures.push(copy_text(rules.duplicate_held_item_failure_text.as_str()));
    }
    let mut egg = false;
    let mut i: usize = 0;
    while i < n
        invariant
            n == members@.len(),
            m == party_members(party.pokemon@),
            m.len() == n,
            forall|k: int| 0 <= k < members@.len() ==> *#[trigger] members@[k] == m[k],
            i <= n,
            egg <==> exists|k: int| 0 <= k < i && (#[trigger] m[k]).is_egg,
        decreases n - i,
    {
        if members[i].is_egg {
            egg = true;
        }
        i += 1;
    }
    if egg {
        failures.push(copy_text(rules.egg_failure_text.as_str()));
    }
    proof {
        assert(failures@.map_values(|s: String| s@) =~= rule_failures(party.pokemon@, *rules));
    }
    failures
}

/// A saved record may not be longer than the challenge streak.
fn validate_saved_battle_tower_record_len(field: &str, len: usize, challenge_streak_length: u8) -> (r: Result<
    (),
    SpecialRoutineError,
>)
    ensures
        r is Ok <==> len <= challenge_streak_length,
        r matches Err(e) ==> (e matches SpecialRoutineError::SavedBattleTowerRecordTooLong { field: f, len: l, max_len: m }
            && f@ == field@ && l == len && m == challenge_streak_length),
{
    let max_len = challenge_streak_length as usize;
    if len > max_len {
        return Err(SpecialRoutineError::SavedBattleTowerRecordTooLong { field: copy_text(field), len, max_len });
    }
    Ok(())
}

/// The error a saved Battle Tower state gives, in the order the checks run.
pub enum SavedTowerErrorView {
    MissingRules,
    LevelGroupOutOfRange { level_group: u8, minimum: u8, maximum: u8 },
    RecordTooLong { field: Seq<char>, len: usize, max_len: usize },
    EmptySelectedPartySlot { party_index: usize },
    SelectedPartySlotOutOfRange { party_index: usize },
}

pub open spec fn saved_tower_error_view(e: SpecialRoutineError) -> Option<SavedTowerErrorView> {
    match e {
        SpecialRoutineError::SavedBattleTowerMissingRules => Some(SavedTowerErrorView::MissingRules),
        SpecialRoutineError::SavedBattleTowerLevelGroupOutOfRange { level_group, minimum, maximum } => {
            Some(SavedTowerErrorView::LevelGroupOutOfRange { level_group, minimum, maximum })
        },
        SpecialRoutineError::SavedBattleTowerRecordTooLong { field, len, max_len } => {
            Some(SavedTowerErrorView::RecordTooLong { field: field@, len, max_len })
        },
        SpecialRoutineError::SavedBattleTowerEmptySelectedPartySlot { party_index } => {
            Some(SavedTowerErrorView::EmptySelectedPartySlot { party_index })
        },
        SpecialRoutineError::SavedBattleTowerSelectedPartySlotOutOfRange { party_index } => {
            Some(SavedTowerErrorView::SelectedPartySlotOutOfRange { party_index })
        },
        _ => None,
    }
}

/// The first selected party index that does not name an occupied slot, with why.
pub open spec fn selected_slot_error(
    indexes: Seq<usize>,
    party: Seq<Option<crate::pokemon::Pokemon>>,
    n: int,
) -> Option<SavedTowerErrorView>
    decreases n,
{
    if n <= 0 {
        None
    } else {
        match selected_slot_error(indexes, party, n - 1) {
            Some(e) => Some(e),
            None => {
                let i = indexes[n - 1];
                if i >= party.len() {
                    Some(SavedTowerErrorView::SelectedPartySlotOutOfRange { party_index: i })
                } else if party[i as int] is None {
                    Some(SavedTowerErrorView::EmptySelectedPartySlot { party_index: i })
                } else {
                    None
                }
            },
        }
    }
}

pub open spec fn record_too_long(field: Seq<char>, len: nat, max: u8) -> Option<SavedTowerErrorView> {
    if len > max {
        Some(SavedTowerErrorView::RecordTooLong { field, len: len as usize, max_len: max as usize })
    } else {
        None
    }
}

/// The error of a saved Battle Tower state against the party and the rules, if any.
pub open spec fn saved_tower_error(
    tower: BattleTowerState,
    party: Seq<Option<crate::pokemon::Pokemon>>,
    rules: Option<BattleTowerRules>,
) -> Option<SavedTowerErrorView> {
    let slots = selected_slot_error(tower.selected_party_indexes@, party, tower.selected_party_indexes@.len() as int);
    if !tower_active(tower) {
        slots
    } else {
        match rules {
            None => Some(SavedTowerErrorView::MissingRules),
            Some(r) => {
                let streak = r.challenge_streak_length;
                if tower.level_group != 0 && (tower.level_group < r.minimum_level_group || tower.level_group
                    > r.maximum_level_group) {
                    Some(SavedTowerErrorView::LevelGroupOutOfRange {
                        level_group: tower.level_group,
                        minimum: r.minimum_level_group,
                        maximum: r.maximum_level_group,
                    })
                } else if record_too_long("battle_tower.trainer_history"@, tower.trainer_history@.len(), streak) is Some {
                    record_too_long("battle_tower.trainer_history"@, tower.trainer_history@.len(), streak)
                } else if record_too_long("battle_tower.record_streaks"@, tower.record_streaks@.len(), streak) is Some {
                    record_too_long("battle_tower.record_streaks"@, tower.record_streaks@.len(), streak)
                } else if record_too_long("battle_tower.record_outcomes"@, tower.record_outcomes@.len(), streak) is Some {
                    record_too_long("battle_tower.record_outcomes"@, tower.record_outcomes@.len(), streak)
                } else if record_too_long("battle_tower.record_days"@, tower.record_days@.len(), streak) is Some {
                    record_too_long("battle_tower.record_days"@, tower.record_days@.len(), streak)
                } else {
                    slots
                }
            },
        }
    }
}

/// A saved Battle Tower state with progress needs rules, a level group in the rules' range and
/// records no longer than the challenge streak; every selected party index must name an
/// occupied slot.
pub fn validate_saved_battle_tower_state(
    tower: &BattleTowerState,
    party: &Party,
    rules: Option<&BattleTowerRules>,
) -> (r: Result<(), SpecialRoutineError>)
    ensures
        match r {
            Ok(()) => saved_tower_error(*tower, party.pokemon@, match rules {
                Some(x) => Some(*x),
                None => None,
            }) is None,
            Err(e) => saved_tower_error(*tower, party.pokemon@, match rules {
                Some(x) => Some(*x),
                None => None,
            }) is Some && saved_tower_error(*tower, party.pokemon@, match rules {
                Some(x) => Some(*x),
                None => None,
            }) == saved_tower_error_view(e),
        },
{
    let ghost rules_opt = match rules {
        Some(x) => Some(*x),
        None => None,
    };
    if saved_battle_tower_state_is_active(tower) {
        let rules = match rules {
            Some(r) => r,
            None => {
                return Err(SpecialRoutineError::SavedBattleTowerMissingRules);
            },
        };
        if tower.level_group != 0 && (tower.level_group < rules.minimum_level_group || tower.level_group
            > rules.maximum_level_group) {
            return Err(
                SpecialRoutineError::SavedBattleTowerLevelGroupOutOfRange {
                    level_group: tower.level_group,
                    minimum: rules.minimum_level_group,
                    maximum: rules.maximum_level_group,
                },
            );
        }
        validate_saved_battle_tower_record_len(
            "battle_tower.trainer_history",
            tower.trainer_history.len(),
            rules.challenge_streak_length,
        )?;
        validate_saved_battle_tower_record_len(
            "battle_tower.record_streaks",
            tower.record_streaks.len(),
            rules.challenge_streak_length,
        )?;
        validate_saved_battle_tower_record_len(
            "battle_tower.record_outcomes",
            tower.record_outcomes.len(),
            rules.challenge_streak_length,
        )?;
        validate_saved_battle_tower_record_len(
            "battle_tower.record_days",
            tower.record_days.len(),
            rules.challenge_streak_length,
        )?;
    }
    let ghost indexes = tower.selected_party_indexes@;
    let n = tower.selected_party_indexes.len();
    let mut k: usize = 0;
    while k < n
        invariant
            n == indexes.len(),
            indexes == tower.selected_party_indexes@,
            k <= n,
            selected_slot_error(indexes, party.pokemon@, k as int) is None,
            saved_tower_error(*tower, party.pokemon@, rules_opt) == selected_slot_error(indexes, party.pokemon@, n as int),
            rules_opt == match rules {
                Some(x) => Some(*x),
                None => None,
            },
        decreases n - k,
    {
        let party_index = tower.selected_party_indexes[k];
        if party_index >= party.pokemon.len() {
            proof {
                assert(indexes[k as int] == party_index);
                assert(selected_slot_error(indexes, party.pokemon@, k + 1) == Some(
                    SavedTowerErrorView::SelectedPartySlotOutOfRange { party_index },
                ));
                lemma_slot_error_stays(indexes, party.pokemon@, k + 1, n as int);
            }
            return Err(SpecialRoutineError::SavedBattleTowerSelectedPartySlotOutOfRange { party_index });
        }
        if party.pokemon[party_index].is_none() {
            proof {
                assert(indexes[k as int] == party_index);
                assert(selected_slot_error(indexes, party.pokemon@, k + 1) == Some(
                    SavedTowerErrorView::EmptySelectedPartySlot { party_index },
                ));
                lemma_slot_error_stays(indexes, party.pokemon@, k + 1, n as int);
            }
            return Err(SpecialRoutineError::SavedBattleTowerEmptySelectedPartySlot { party_index });
        }
        k += 1;
    }
    Ok(())
}

proof fn lemma_slot_error_stays(
    indexes: Seq<usize>,
    party: Seq<Option<crate::pokemon::Pokemon>>,
    n: int,
    m: int,
)
    requires
        0 <= n <= m,
        selected_slot_error(indexes, party, n) is Some,
    ensures
        selected_slot_error(indexes, party, m) == selected_slot_error(indexes, party, n),
    decreases m - n,
{
    if m > n {
        lemma_slot_error_stays(indexes, party, n, m - 1);
    }
}


// ---- the shape of the rules as a pack provides them ----

/// What is wrong with a stored two-byte status record.
#[derive(Clone, Copy, Debug, PartialEq, Eq, Structural)]
pub enum StatusProblem {
    WrongLength { len: usize },
    NonzeroPadding { byte: u8 },
    InvalidBits { raw: u8 },
}

/// Whether a status byte is valid: no high bit, sleep turns and a lasting status not both set,
/// and at most one lasting status.
pub open spec fn status_byte_valid(raw: u8) -> bool {
    let sleep = raw % 8;
    let lasting = raw - sleep;
    &&& raw < 128
    &&& (sleep == 0 || lasting == 0)
    &&& (lasting == 0 || lasting == 8 || lasting == 16 || lasting == 32 || lasting == 64)
}

pub open spec fn status_problem(st: Seq<u8>) -> Option<StatusProblem> {
    if st.len() != 2 {
        Some(StatusProblem::WrongLength { len: st.len() as usize })
    } else if st[1] != 0 {
        Some(StatusProblem::NonzeroPadding { byte: st[1] })
    } else if !status_byte_valid(st[0]) {
        Some(StatusProblem::InvalidBits { raw: st[0] })
    } else {
        None
    }
}

/// The status a valid status byte names.
pub open spec fn status_name(raw: u8) -> Option<Seq<char>> {
    let sleep = raw % 8;
    let lasting = raw - sleep;
    if sleep != 0 {
        Some("SLEEP"@)
    } else if lasting == 8 {
        Some("POISON"@)
    } else if lasting == 16 {
        Some("BURN"@)
    } else if lasting == 32 {
        Some("FREEZE"@)
    } else if lasting == 64 {
        Some("PARALYSIS"@)
    } else {
        None
    }
}

/// Decodes a stored status record into the status and its sleep turns.
pub fn decode_battle_tower_status(status: &[u8]) -> (r: Result<(Option<String>, u8), StatusProblem>)
    ensures
        match r {
            Ok((name, turns)) => {
                &&& status_problem(status@) is None
                &&& turns == status@[0] % 8
                &&& match name {
                    Some(n) => status_name(status@[0]) == Some(n@),
                    None => status_name(status@[0]) is None,
                }
            },
            Err(p) => status_problem(status@) == Some(p),
        },
{
    if status.len() != 2 {
        return Err(StatusProblem::WrongLength { len: status.len() });
    }
    if status[1] != 0 {
        return Err(StatusProblem::NonzeroPadding { byte: status[1] });
    }
    let raw = status[0];
    if raw >= 128 {
        return Err(StatusProblem::InvalidBits { raw });
    }
    let sleep_turns = raw % 8;
    let lasting = raw - sleep_turns;
    if (sleep_turns != 0 && lasting != 0) || !(lasting == 0 || lasting == 8 || lasting == 16 || lasting == 32
        || lasting == 64) {
        return Err(StatusProblem::InvalidBits { raw });
    }
    if sleep_turns != 0 {
        return Ok((Some(copy_text("SLEEP")), sleep_turns));
    }
    let name = if lasting == 8 {
        Some(copy_text("POISON"))
    } else if lasting == 16 {
        Some(copy_text("BURN"))
    } else if lasting == 32 {
        Some(copy_text("FREEZE"))
    } else if lasting == 64 {
        Some(copy_text("PARALYSIS"))
    } else {
        None
    };
    Ok((name, 0))
}

/// Which text of the rules broke the token rule.
#[derive(Clone, Copy, Debug, PartialEq, Eq, Structural)]
pub enum TowerTokenField {
    RewardFailureSentinel,
    RewardCandidate,
    ExcludedReward,
    PartyCountFailureText,
    DuplicateSpeciesFailureText,
    DuplicateHeldItemFailureText,
    EggFailureText,
    BannedSpeciesKey,
    PokemonSpecies,
    PokemonItem,
    PokemonMove,
}

/// Which fixed-length record of a Battle Tower Pokemon.
#[derive(Clone, Copy, Debug, PartialEq, Eq, Structural)]
pub enum MonRecordField {
    Moves,
    StatExp,
    Dvs,
    Pp,
    Pokerus,
    Status,
    Stats,
}

/// Why a pack's Battle Tower rules cannot be loaded.
#[derive(Debug, PartialEq, Eq)]
pub enum TowerRulesShapeError {
    MissingRequiredPartyCount,
    MissingChallengeStreakLength,
    MissingRewards,
    BadToken { field: TowerTokenField, value: String },
    MissingRewardItemValue { item_id: String },
    DuplicateRewardItemValues,
    DuplicateRewardCandidate { item_id: String },
    ExcludedRewardNotCandidate { item_id: String },
    EveryRewardExcluded,
    MissingLevelGroupSize,
    InvalidLevelGroupRange,
    MissingTrainerRoster,
    MissingMonGroups,
    WrongRecordLength { group: usize, mon: usize, record: MonRecordField, expected: usize, actual: usize },
    DvOutOfRange { group: usize, mon: usize },
    InvalidLevel { group: usize, mon: usize },
    ExperienceTooLarge { group: usize, mon: usize },
    InvalidStatus { group: usize, mon: usize, problem: StatusProblem },
}

pub enum TowerRulesShapeErrorView {
    MissingRequiredPartyCount,
    MissingChallengeStreakLength,
    MissingRewards,
    BadToken { field: TowerTokenField, value: Seq<char> },
    MissingRewardItemValue { item_id: Seq<char> },
    DuplicateRewardItemValues,
    DuplicateRewardCandidate { item_id: Seq<char> },
    ExcludedRewardNotCandidate { item_id: Seq<char> },
    EveryRewardExcluded,
    MissingLevelGroupSize,
    InvalidLevelGroupRange,
    MissingTrainerRoster,
    MissingMonGroups,
    WrongRecordLength { group: usize, mon: usize, record: MonRecordField, expected: usize, actual: usize },
    DvOutOfRange { group: usize, mon: usize },
    InvalidLevel { group: usize, mon: usize },
    ExperienceTooLarge { group: usize, mon: usize },
    InvalidStatus { group: usize, mon: usize, problem: StatusProblem },
}

impl View for TowerRulesShapeError {
    type V = TowerRulesShapeErrorView;

    open spec fn view(&self) -> TowerRulesShapeErrorView {
        match self {
            TowerRulesShapeError::MissingRequiredPartyCount => TowerRulesShapeErrorView::MissingRequiredPartyCount,
            TowerRulesShapeError::MissingChallengeStreakLength => {
                TowerRulesShapeErrorView::MissingChallengeStreakLength
            },
            TowerRulesShapeError::MissingRewards => TowerRulesShapeErrorView::MissingRewards,
            TowerRulesShapeError::BadToken { field, value } => TowerRulesShapeErrorView::BadToken {
                field: *field,
                value: value@,
            },
            TowerRulesShapeError::MissingRewardItemValue { item_id } => {
                TowerRulesShapeErrorView::MissingRewardItemValue { item_id: item_id@ }
            },
            TowerRulesShapeError::DuplicateRewardItemValues => TowerRulesShapeErrorView::DuplicateRewardItemValues,
            TowerRulesShapeError::DuplicateRewardCandidate { item_id } => {
                TowerRulesShapeErrorView::DuplicateRewardCandidate { item_id: item_id@ }
            },
            TowerRulesShapeError::ExcludedRewardNotCandidate { item_id } => {
                TowerRulesShapeErrorView::ExcludedRewardNotCandidate { item_id: item_id@ }
            },
            TowerRulesShapeError::EveryRewardExcluded => TowerRulesShapeErrorView::EveryRewardExcluded,
            TowerRulesShapeError::MissingLevelGroupSize => TowerRulesShapeErrorView::MissingLevelGroupSize,
            TowerRulesShapeError::InvalidLevelGroupRange => TowerRulesShapeErrorView::InvalidLevelGroupRange,
            TowerRulesShapeError::MissingTrainerRoster => TowerRulesShapeErrorView::MissingTrainerRoster,
            TowerRulesShapeError::MissingMonGroups => TowerRulesShapeErrorView::MissingMonGroups,
            TowerRulesShapeError::WrongRecordLength { group, mon, record, expected, actual } => {
                TowerRulesShapeErrorView::WrongRecordLength {
                    group: *group,
                    mon: *mon,
                    record: *record,
                    expected: *expected,
                    actual: *actual,
                }
            },
            TowerRulesShapeError::DvOutOfRange { group, mon } => TowerRulesShapeErrorView::DvOutOfRange {
                group: *group,
                mon: *mon,
            },
            TowerRulesShapeError::InvalidLevel { group, mon } => TowerRulesShapeErrorView::InvalidLevel {
                group: *group,
                mon: *mon,
            },
            TowerRulesShapeError::ExperienceTooLarge { group, mon } => TowerRulesShapeErrorView::ExperienceTooLarge {
                group: *group,
                mon: *mon,
            },
            TowerRulesShapeError::InvalidStatus { group, mon, problem } => TowerRulesShapeErrorView::InvalidStatus {
                group: *group,
                mon: *mon,
                problem: *problem,
            },
        }
    }
}

pub open spec fn or_else(a: Option<TowerRulesShapeErrorView>, b: Option<TowerRulesShapeErrorView>) -> Option<
    TowerRulesShapeErrorView,
> {
    if a is Some { a } else { b }
}

pub open spec fn shape_of(r: Result<(), TowerRulesShapeError>) -> Option<TowerRulesShapeErrorView> {
    match r {
        Ok(()) => None,
        Err(e) => Some(e@),
    }
}

pub open spec fn token_error(field: TowerTokenField, value: Seq<char>) -> Option<TowerRulesShapeErrorView> {
    if is_exact_token(value) {
        None
    } else {
        Some(TowerRulesShapeErrorView::BadToken { field, value })
    }
}

pub open spec fn views_of(v: Seq<String>) -> Seq<Seq<char>> {
    v.map_values(|s: String| s@)
}

/// Check `i`: the `i`th reward candidate, or past them the failure sentinel, has an item value.
pub open spec fn reward_value_checks(r: BattleTowerRules) -> spec_fn(int) -> Option<TowerRulesShapeErrorView> {
    |i: int|
        {
            let cands = views_of(r.reward_candidates@);
            let id = if i < cands.len() { cands[i] } else { r.reward_failure_sentinel@ };
            if r.reward_item_values.view().dom().contains(id) {
                None
            } else {
                Some(TowerRulesShapeErrorView::MissingRewardItemValue { item_id: id })
            }
        }
}

/// The first reward candidate, or else the failure sentinel, that has no item value.
pub open spec fn reward_value_error(r: BattleTowerRules) -> Option<TowerRulesShapeErrorView> {
    first_error(reward_value_checks(r), r.reward_candidates@.len() + 1int)
}

/// No two reward items share an item byte.
pub open spec fn reward_values_unique(values: Seq<u8>) -> bool {
    forall|i: int, j: int| 0 <= i < j < values.len() ==> values[i] != values[j]
}

pub open spec fn candidate_checks(cands: Seq<Seq<char>>) -> spec_fn(int) -> Option<TowerRulesShapeErrorView> {
    |i: int| candidate_error(cands, i)
}

pub open spec fn excluded_checks(cands: Seq<Seq<char>>, excluded: Seq<Seq<char>>) -> spec_fn(int) -> Option<
    TowerRulesShapeErrorView,
> {
    |i: int| excluded_error(cands, excluded, i)
}

pub open spec fn token_checks(field: TowerTokenField, values: Seq<Seq<char>>) -> spec_fn(int) -> Option<
    TowerRulesShapeErrorView,
> {
    |i: int| token_error(field, values[i])
}

pub open spec fn candidate_error(cands: Seq<Seq<char>>, i: int) -> Option<TowerRulesShapeErrorView> {
    if !is_exact_token(cands[i]) {
        Some(TowerRulesShapeErrorView::BadToken { field: TowerTokenField::RewardCandidate, value: cands[i] })
    } else if cands.take(i).contains(cands[i]) {
        Some(TowerRulesShapeErrorView::DuplicateRewardCandidate { item_id: cands[i] })
    } else {
        None
    }
}

pub open spec fn excluded_error(cands: Seq<Seq<char>>, excluded: Seq<Seq<char>>, i: int) -> Option<
    TowerRulesShapeErrorView,
> {
    if !is_exact_token(excluded[i]) {
        Some(TowerRulesShapeErrorView::BadToken { field: TowerTokenField::ExcludedReward, value: excluded[i] })
    } else if !cands.contains(excluded[i]) {
        Some(TowerRulesShapeErrorView::ExcludedRewardNotCandidate { item_id: excluded[i] })
    } else {
        None
    }
}

/// The reward table's errors, in the order they are checked.
pub open spec fn reward_error(r: BattleTowerRules) -> Option<TowerRulesShapeErrorView> {
    let cands = views_of(r.reward_candidates@);
    let excluded = views_of(r.excluded_reward_items@);
    or_else(
        reward_value_error(r),
        or_else(
            if reward_values_unique(r.reward_item_values.value_seq()) {
                None
            } else {
                Some(TowerRulesShapeErrorView::DuplicateRewardItemValues)
            },
            or_else(
                first_error(candidate_checks(cands), cands.len() as int),
                or_else(
                    first_error(excluded_checks(cands, excluded), excluded.len() as int),
                    if forall|i: int| 0 <= i < cands.len() ==> #[trigger] excluded.contains(cands[i]) {
                        Some(TowerRulesShapeErrorView::EveryRewardExcluded)
                    } else {
                        None
                    },
                ),
            ),
        ),
    )
}

pub open spec fn record_len_error(group: int, mon: int, record: MonRecordField, actual: nat, expected: nat) -> Option<
    TowerRulesShapeErrorView,
> {
    if actual == expected {
        None
    } else {
        Some(TowerRulesShapeErrorView::WrongRecordLength {
            group: group as usize,
            mon: mon as usize,
            record,
            expected: expected as usize,
            actual: actual as usize,
        })
    }
}

/// The first record of a Pokemon whose length is wrong.
pub open spec fn mon_record_error(group: int, mon: int, m: BattleTowerMonDefinition) -> Option<TowerRulesShapeErrorView> {
    or_else(
        record_len_error(group, mon, MonRecordField::Moves, m.moves@.len(), 4),
        or_else(
            record_len_error(group, mon, MonRecordField::StatExp, m.stat_exp@.len(), 5),
            or_else(
                record_len_error(group, mon, MonRecordField::Dvs, m.dvs@.len(), 4),
                or_else(
                    record_len_error(group, mon, MonRecordField::Pp, m.pp@.len(), 4),
                    or_else(
                        record_len_error(group, mon, MonRecordField::Pokerus, m.pokerus@.len(), 3),
                        or_else(
                            record_len_error(group, mon, MonRecordField::Status, m.status@.len(), 2),
                            record_len_error(group, mon, MonRecordField::Stats, m.stats@.len(), 7),
                        ),
                    ),
                ),
            ),
        ),
    )
}

/// The first error of one Battle Tower Pokemon, in the order it is checked.
pub open spec fn mon_error(group: int, mon: int, m: BattleTowerMonDefinition) -> Option<TowerRulesShapeErrorView> {
    let moves = views_of(m.moves@);
    or_else(
        mon_record_error(group, mon, m),
        or_else(
            if exists|i: int| 0 <= i < m.dvs@.len() && #[trigger] m.dvs@[i] > 0x0f {
                Some(TowerRulesShapeErrorView::DvOutOfRange { group: group as usize, mon: mon as usize })
            } else {
                None
            },
            or_else(
                token_error(TowerTokenField::PokemonSpecies, m.species@),
                or_else(
                    match m.item {
                        Some(item) => token_error(TowerTokenField::PokemonItem, item@),
                        None => None,
                    },
                    or_else(
                        first_error(token_checks(TowerTokenField::PokemonMove, moves), moves.len() as int),
                        or_else(
                            if m.level == 0 || m.level > 100 {
                                Some(TowerRulesShapeErrorView::InvalidLevel { group: group as usize, mon: mon as usize })
                            } else {
                                None
                            },
                            or_else(
                                if m.experience > 0xff_ffff {
                                    Some(TowerRulesShapeErrorView::ExperienceTooLarge {
                                        group: group as usize,
                                        mon: mon as usize,
                                    })
                                } else {
                                    None
                                },
                                match status_problem(m.status@) {
                                    Some(p) => Some(TowerRulesShapeErrorView::InvalidStatus {
                                        group: group as usize,
                                        mon: mon as usize,
                                        problem: p,
                                    }),
                                    None => None,
                                },
                            ),
                        ),
                    ),
                ),
            ),
        ),
    )
}

pub open spec fn mon_checks(group: int, g: Seq<BattleTowerMonDefinition>) -> spec_fn(int) -> Option<
    TowerRulesShapeErrorView,
> {
    |m: int| mon_error(group, m, g[m])
}

pub open spec fn group_error(group: int, g: Seq<BattleTowerMonDefinition>) -> Option<TowerRulesShapeErrorView> {
    first_error(mon_checks(group, g), g.len() as int)
}

pub open spec fn group_checks(groups: Seq<Vec<BattleTowerMonDefinition>>) -> spec_fn(int) -> Option<
    TowerRulesShapeErrorView,
> {
    |g: int| group_error(g, groups[g]@)
}

pub open spec fn groups_error(groups: Seq<Vec<BattleTowerMonDefinition>>) -> Option<TowerRulesShapeErrorView> {
    first_error(group_checks(groups), groups.len() as int)
}

/// The failure texts' and banned species' token errors.
pub open spec fn text_error(r: BattleTowerRules) -> Option<TowerRulesShapeErrorView> {
    let keys = r.banned_species.key_seq();
    or_else(
        token_error(TowerTokenField::PartyCountFailureText, r.party_count_failure_text@),
        or_else(
            token_error(TowerTokenField::DuplicateSpeciesFailureText, r.duplicate_species_failure_text@),
            or_else(
                token_error(TowerTokenField::DuplicateHeldItemFailureText, r.duplicate_held_item_failure_text@),
                or_else(
                    token_error(TowerTokenField::EggFailureText, r.egg_failure_text@),
                    first_error(token_checks(TowerTokenField::BannedSpeciesKey, keys), keys.len() as int),
                ),
            ),
        ),
    )
}

/// The first reason the rules cannot be loaded, in the order the loader checks.
pub open spec fn tower_shape_error(r: BattleTowerRules) -> Option<TowerRulesShapeErrorView> {
    if r.required_party_count == 0 {
        Some(TowerRulesShapeErrorView::MissingRequiredPartyCount)
    } else if r.challenge_streak_length == 0 {
        Some(TowerRulesShapeErrorView::MissingChallengeStreakLength)
    } else if r.reward_candidates@.len() == 0 || r.reward_quantity == 0 {
        Some(TowerRulesShapeErrorView::MissingRewards)
    } else if token_error(TowerTokenField::RewardFailureSentinel, r.reward_failure_sentinel@) is Some {
        token_error(TowerTokenField::RewardFailureSentinel, r.reward_failure_sentinel@)
    } else if reward_error(r) is Some {
        reward_error(r)
    } else if r.level_group_size == 0 {
        Some(TowerRulesShapeErrorView::MissingLevelGroupSize)
    } else if r.minimum_level_group == 0 || r.maximum_level_group < r.minimum_level_group {
        Some(TowerRulesShapeErrorView::InvalidLevelGroupRange)
    } else if text_error(r) is Some {
        text_error(r)
    } else if r.trainers@.len() == 0 {
        Some(TowerRulesShapeErrorView::MissingTrainerRoster)
    } else if mon_groups_missing(r.mon_groups@) {
        Some(TowerRulesShapeErrorView::MissingMonGroups)
    } else {
        groups_error(r.mon_groups@)
    }
}

fn check_token(field: TowerTokenField, value: &str) -> (r: Result<(), TowerRulesShapeError>)
    ensures
        shape_of(r) == token_error(field, value@),
{
    if is_exact_nonempty_special_token(value) {
        Ok(())
    } else {
        Err(TowerRulesShapeError::BadToken { field, value: copy_text(value) })
    }
}

/// Checks each text of `values` against the token rule, in order.
fn check_tokens(field: TowerTokenField, values: &Vec<String>) -> (r: Result<(), TowerRulesShapeError>)
    ensures
        shape_of(r) == first_error(token_checks(field, views_of(values@)), values@.len() as int),
{
    let ghost vs = views_of(values@);
    let n = values.len();
    let mut i: usize = 0;
    while i < n
        invariant
            n == values@.len(),
            vs == views_of(values@),
            i <= n,
            first_error(token_checks(field, vs), i as int) is None,
        decreases n - i,
    {
        let r = check_token(field, values[i].as_str());
        if r.is_err() {
            proof {
                assert(token_checks(field, vs)(i as int) == shape_of(r));
                lemma_first_error_stays(token_checks(field, vs), i + 1, n as int);
            }
            return r;
        }
        i += 1;
    }
    Ok(())
}

/// Whether `v` holds the text `x`.
fn texts_contain(v: &Vec<String>, x: &str) -> (b: bool)
    ensures
        b == views_of(v@).contains(x@),
{
    let mut i: usize = 0;
    while i < v.len()
        invariant
            i <= v@.len(),
            forall|k: int| 0 <= k < i ==> views_of(v@)[k] != x@,
        decreases v.len() - i,
    {
        if crate::text::text_eq(v[i].as_str(), x) {
            proof {
                assert(views_of(v@)[i as int] == x@);
            }
            return true;
        }
        i += 1;
    }
    false
}

fn check_reward_values(rules: &BattleTowerRules) -> (r: Result<(), TowerRulesShapeError>)
    ensures
        shape_of(r) == reward_value_error(*rules),
{
    let ghost f = reward_value_checks(*rules);
    let n = rules.reward_candidates.len();
    let mut i: usize = 0;
    while i < n
        invariant
            n == rules.reward_candidates@.len(),
            f == reward_value_checks(*rules),
            i <= n,
            first_error(f, i as int) is None,
        decreases n - i,
    {
        let id = &rules.reward_candidates[i];
        if !rules.reward_item_values.contains_key(id.as_str()) {
            proof {
                assert(views_of(rules.reward_candidates@)[i as int] == id@);
                assert(f(i as int) == Some(TowerRulesShapeErrorView::MissingRewardItemValue { item_id: id@ }));
                lemma_first_error_stays(f, i + 1, n + 1);
            }
            return Err(TowerRulesShapeError::MissingRewardItemValue { item_id: copy_text(id.as_str()) });
        }
        proof {
            assert(views_of(rules.reward_candidates@)[i as int] == id@);
        }
        i += 1;
    }
    if !rules.reward_item_values.contains_key(rules.reward_failure_sentinel.as_str()) {
        return Err(
            TowerRulesShapeError::MissingRewardItemValue { item_id: copy_text(rules.reward_failure_sentinel.as_str()) },
        );
    }
    Ok(())
}

fn reward_values_are_unique(values: &TextMap<u8>) -> (b: bool)
    ensures
        b == reward_values_unique(values.value_seq()),
{
    let n = values.len();
    let mut i: usize = 0;
    while i < n
        invariant
            n == values.value_seq().len(),
            n == values.key_seq().len(),
            i <= n,
            forall|a: int, c: int| 0 <= a < c < values.value_seq().len() && a < i ==> values.value_seq()[a]
                != values.value_seq()[c],
        decreases n - i,
    {
        let mut j: usize = i + 1;
        while j < n
            invariant
                n == values.value_seq().len(),
                n == values.key_seq().len(),
                i < n,
                i + 1 <= j <= n,
                forall|a: int, c: int| 0 <= a < c < values.value_seq().len() && a < i ==> values.value_seq()[a]
                    != values.value_seq()[c],
                forall|c: int| i < c < j ==> values.value_seq()[i as int] != values.value_seq()[c],
            decreases n - j,
        {
            if *values.value_at(i) == *values.value_at(j) {
                return false;
            }
            j += 1;
        }
        i += 1;
    }
    true
}

/// Checks the candidates' tokens and repeats; on success hands back the candidate set.
fn check_reward_candidates(rules: &BattleTowerRules) -> (r: Result<TextSet, TowerRulesShapeError>)
    ensures
        match r {
            Ok(set) => first_error(candidate_checks(views_of(rules.reward_candidates@)), rules.reward_candidates@.len() as int) is None
                && forall|x: Seq<char>| #[trigger] set.view().contains(x) <==> views_of(rules.reward_candidates@).contains(x),
            Err(e) => first_error(candidate_checks(views_of(rules.reward_candidates@)), rules.reward_candidates@.len() as int)
                == Some(e@),
        },
{
    let ghost cands = views_of(rules.reward_candidates@);
    let mut seen = TextSet::new();
    let n = rules.reward_candidates.len();
    let mut i: usize = 0;
    while i < n
        invariant
            n == rules.reward_candidates@.len(),
            cands == views_of(rules.reward_candidates@),
            i <= n,
            first_error(candidate_checks(cands), i as int) is None,
            forall|x: Seq<char>| #[trigger] seen.view().contains(x) <==> cands.take(i as int).contains(x),
        decreases n - i,
    {
        let id = &rules.reward_candidates[i];
        proof {
            assert(cands[i as int] == id@);
        }
        if !is_exact_nonempty_special_token(id.as_str()) {
            proof {
                lemma_first_error_stays(candidate_checks(cands), i + 1, n as int);
            }
            return Err(TowerRulesShapeError::BadToken { field: TowerTokenField::RewardCandidate, value: copy_text(id.as_str()) });
        }
        let ghost old_seen = seen.view();
        let fresh = seen.insert(copy_text(id.as_str()));
        if !fresh {
            proof {
                assert(cands.take(i as int).contains(cands[i as int]));
                lemma_first_error_stays(candidate_checks(cands), i + 1, n as int);
            }
            return Err(TowerRulesShapeError::DuplicateRewardCandidate { item_id: copy_text(id.as_str()) });
        }
        proof {
            assert(seen.view() == old_seen.insert(id@));
            assert forall|x: Seq<char>| #[trigger] seen.view().contains(x) <==> cands.take(i + 1).contains(x) by {
                if cands.take(i + 1).contains(x) {
                    let k = choose|k: int| 0 <= k < i + 1 && #[trigger] cands.take(i + 1)[k] == x;
                    if k < i {
                        assert(cands.take(i as int)[k] == x);
                        assert(cands.take(i as int).contains(x));
                    } else {
                        assert(x == id@);
                    }
                }
                if seen.view().contains(x) {
                    if x == id@ {
                        assert(cands.take(i + 1)[i as int] == x);
                    } else {
                        assert(old_seen.contains(x));
                        assert(cands.take(i as int).contains(x));
                        let k = choose|k: int| 0 <= k < i && #[trigger] cands.take(i as int)[k] == x;
                        assert(cands.take(i + 1)[k] == x);
                    }
                }
            }
        }
        i += 1;
    }
    proof {
        assert(cands.take(n as int) =~= cands);
    }
    Ok(seen)
}

fn check_excluded_rewards(rules: &BattleTowerRules, candidates: &TextSet) -> (r: Result<(), TowerRulesShapeError>)
    requires
        forall|x: Seq<char>| #[trigger] candidates.view().contains(x) <==> views_of(rules.reward_candidates@).contains(x),
    ensures
        shape_of(r) == first_error(
            excluded_checks(views_of(rules.reward_candidates@), views_of(rules.excluded_reward_items@)),
            rules.excluded_reward_items@.len() as int,
        ),
{
    let ghost f = excluded_checks(views_of(rules.reward_candidates@), views_of(rules.excluded_reward_items@));
    let n = rules.excluded_reward_items.len();
    let mut i: usize = 0;
    while i < n
        invariant
            n == rules.excluded_reward_items@.len(),
            f == excluded_checks(views_of(rules.reward_candidates@), views_of(rules.excluded_reward_items@)),
            forall|x: Seq<char>| #[trigger] candidates.view().contains(x) <==> views_of(rules.reward_candidates@).contains(x),
            i <= n,
            first_error(f, i as int) is None,
        decreases n - i,
    {
        let id = &rules.excluded_reward_items[i];
        proof {
            assert(views_of(rules.excluded_reward_items@)[i as int] == id@);
        }
        if !is_exact_nonempty_special_token(id.as_str()) {
            proof {
                lemma_first_error_stays(f, i + 1, n as int);
            }
            return Err(TowerRulesShapeError::BadToken { field: TowerTokenField::ExcludedReward, value: copy_text(id.as_str()) });
        }
        if !candidates.contains(id.as_str()) {
            proof {
                lemma_first_error_stays(f, i + 1, n as int);
            }
            return Err(TowerRulesShapeError::ExcludedRewardNotCandidate { item_id: copy_text(id.as_str()) });
        }
        i += 1;
    }
    Ok(())
}

fn every_reward_excluded(rules: &BattleTowerRules) -> (b: bool)
    ensures
        b == forall|i: int| 0 <= i < rules.reward_candidates@.len() ==> #[trigger] views_of(rules.excluded_reward_items@).contains(
            views_of(rules.reward_candidates@)[i],
        ),
{
    let n = rules.reward_candidates.len();
    let mut i: usize = 0;
    while i < n
        invariant
            n == rules.reward_candidates@.len(),
            i <= n,
            forall|k: int| 0 <= k < i ==> #[trigger] views_of(rules.excluded_reward_items@).contains(
                views_of(rules.reward_candidates@)[k],
            ),
        decreases n - i,
    {
        if !texts_contain(&rules.excluded_reward_items, rules.reward_candidates[i].as_str()) {
            proof {
                assert(views_of(rules.reward_candidates@)[i as int] == rules.reward_candidates@[i as int]@);
            }
            return false;
        }
        i += 1;
    }
    true
}

fn check_rewards(rules: &BattleTowerRules) -> (r: Result<(), TowerRulesShapeError>)
    ensures
        shape_of(r) == reward_error(*rules),
{
    check_reward_values(rules)?;
    if !reward_values_are_unique(&rules.reward_item_values) {
        return Err(TowerRulesShapeError::DuplicateRewardItemValues);
    }
    let candidates = check_reward_candidates(rules)?;
    check_excluded_rewards(rules, &candidates)?;
    if every_reward_excluded(rules) {
        return Err(TowerRulesShapeError::EveryRewardExcluded);
    }
    Ok(())
}


fn check_record_len(group: usize, mon: usize, record: MonRecordField, actual: usize, expected: usize) -> (r: Result<
    (),
    TowerRulesShapeError,
>)
    ensures
        shape_of(r) == record_len_error(group as int, mon as int, record, actual as nat, expected as nat),
{
    if actual == expected {
        Ok(())
    } else {
        Err(TowerRulesShapeError::WrongRecordLength { group, mon, record, expected, actual })
    }
}

fn check_mon_records(group: usize, mon: usize, m: &BattleTowerMonDefinition) -> (r: Result<(), TowerRulesShapeError>)
    ensures
        shape_of(r) == mon_record_error(group as int, mon as int, *m),
{
    check_record_len(group, mon, MonRecordField::Moves, m.moves.len(), 4)?;
    check_record_len(group, mon, MonRecordField::StatExp, m.stat_exp.len(), 5)?;
    check_record_len(group, mon, MonRecordField::Dvs, m.dvs.len(), 4)?;
    check_record_len(group, mon, MonRecordField::Pp, m.pp.len(), 4)?;
    check_record_len(group, mon, MonRecordField::Pokerus, m.pokerus.len(), 3)?;
    check_record_len(group, mon, MonRecordField::Status, m.status.len(), 2)?;
    check_record_len(group, mon, MonRecordField::Stats, m.stats.len(), 7)
}

fn dvs_in_range(dvs: &Vec<u8>) -> (b: bool)
    ensures
        b == !exists|i: int| 0 <= i < dvs@.len() && #[trigger] dvs@[i] > 0x0f,
{
    let mut i: usize = 0;
    while i < dvs.len()
        invariant
            i <= dvs@.len(),
            forall|k: int| 0 <= k < i ==> #[trigger] dvs@[k] <= 0x0f,
        decreases dvs.len() - i,
    {
        if dvs[i] > 0x0f {
            return false;
        }
        i += 1;
    }
    true
}

/// The checks of one Battle Tower Pokemon, in the loader's order.
fn check_mon(group: usize, mon: usize, m: &BattleTowerMonDefinition) -> (r: Result<(), TowerRulesShapeError>)
    ensures
        shape_of(r) == mon_error(group as int, mon as int, *m),
{
    check_mon_records(group, mon, m)?;
    if !dvs_in_range(&m.dvs) {
        return Err(TowerRulesShapeError::DvOutOfRange { group, mon });
    }
    check_token(TowerTokenField::PokemonSpecies, m.species.as_str())?;
    match &m.item {
        Some(item) => {
            check_token(TowerTokenField::PokemonItem, item.as_str())?;
        },
        None => {},
    }
    check_tokens(TowerTokenField::PokemonMove, &m.moves)?;
    if m.level == 0 || m.level > 100 {
        return Err(TowerRulesShapeError::InvalidLevel { group, mon });
    }
    if m.experience > 0x00ff_ffff {
        return Err(TowerRulesShapeError::ExperienceTooLarge { group, mon });
    }
    match decode_battle_tower_status(m.status.as_slice()) {
        Ok(_) => Ok(()),
        Err(problem) => Err(TowerRulesShapeError::InvalidStatus { group, mon, problem }),
    }
}

fn check_group(group: usize, g: &Vec<BattleTowerMonDefinition>) -> (r: Result<(), TowerRulesShapeError>)
    ensures
        shape_of(r) == group_error(group as int, g@),
{
    let ghost f = mon_checks(group as int, g@);
    let n = g.len();
    let mut m: usize = 0;
    while m < n
        invariant
            n == g@.len(),
            f == mon_checks(group as int, g@),
            m <= n,
            first_error(f, m as int) is None,
        decreases n - m,
    {
        let r = check_mon(group, m, &g[m]);
        if r.is_err() {
            proof {
                assert(f(m as int) == shape_of(r));
                lemma_first_error_stays(f, m + 1, n as int);
            }
            return r;
        }
        m += 1;
    }
    Ok(())
}

fn check_groups(groups: &Vec<Vec<BattleTowerMonDefinition>>) -> (r: Result<(), TowerRulesShapeError>)
    ensures
        shape_of(r) == groups_error(groups@),
{
    let ghost f = group_checks(groups@);
    let n = groups.len();
    let mut g: usize = 0;
    while g < n
        invariant
            n == groups@.len(),
            f == group_checks(groups@),
            g <= n,
            first_error(f, g as int) is None,
        decreases n - g,
    {
        let r = check_group(g, &groups[g]);
        if r.is_err() {
            proof {
                assert(f(g as int) == shape_of(r));
                lemma_first_error_stays(f, g + 1, n as int);
            }
            return r;
        }
        g += 1;
    }
    Ok(())
}

fn check_texts(rules: &BattleTowerRules) -> (r: Result<(), TowerRulesShapeError>)
    ensures
        shape_of(r) == text_error(*rules),
{
    check_token(TowerTokenField::PartyCountFailureText, rules.party_count_failure_text.as_str())?;
    check_token(TowerTokenField::DuplicateSpeciesFailureText, rules.duplicate_species_failure_text.as_str())?;
    check_token(TowerTokenField::DuplicateHeldItemFailureText, rules.duplicate_held_item_failure_text.as_str())?;
    check_token(TowerTokenField::EggFailureText, rules.egg_failure_text.as_str())?;
    let ghost keys = rules.banned_species.key_seq();
    let ghost f = token_checks(TowerTokenField::BannedSpeciesKey, keys);
    let n = rules.banned_species.len();
    let mut i: usize = 0;
    while i < n
        invariant
            n == keys.len(),
            keys == rules.banned_species.key_seq(),
            f == token_checks(TowerTokenField::BannedSpeciesKey, keys),
            token_error(TowerTokenField::PartyCountFailureText, rules.party_count_failure_text@) is None,
            token_error(TowerTokenField::DuplicateSpeciesFailureText, rules.duplicate_species_failure_text@) is None,
            token_error(TowerTokenField::DuplicateHeldItemFailureText, rules.duplicate_held_item_failure_text@) is None,
            token_error(TowerTokenField::EggFailureText, rules.egg_failure_text@) is None,
            i <= n,
            first_error(f, i as int) is None,
        decreases n - i,
    {
        let r = check_token(TowerTokenField::BannedSpeciesKey, rules.banned_species.key_at(i).as_str());
        if r.is_err() {
            proof {
                assert(f(i as int) == shape_of(r));
                lemma_first_error_stays(f, i + 1, n as int);
            }
            return r;
        }
        i += 1;
    }
    Ok(())
}

impl BattleTowerRules {
    /// The loader's checks on the rules a pack provides: nonzero counts, a reward table whose
    /// items all have distinct item bytes and whose candidates are distinct tokens not all
    /// excluded, an ordered level-group range, token texts and banned species, a roster, and
    /// nonempty Pokemon groups whose records have the game's lengths and values.
    pub fn validate_shape(&self) -> (r: Result<(), TowerRulesShapeError>)
        ensures
            shape_of(r) == tower_shape_error(*self),
    {
        if self.required_party_count == 0 {
            return Err(TowerRulesShapeError::MissingRequiredPartyCount);
        }
        if self.challenge_streak_length == 0 {
            return Err(TowerRulesShapeError::MissingChallengeStreakLength);
        }
        if self.reward_candidates.len() == 0 || self.reward_quantity == 0 {
            return Err(TowerRulesShapeError::MissingRewards);
        }
        check_token(TowerTokenField::RewardFailureSentinel, self.reward_failure_sentinel.as_str())?;
        check_rewards(self)?;
        if self.level_group_size == 0 {
            return Err(TowerRulesShapeError::MissingLevelGroupSize);
        }
        if self.minimum_level_group == 0 || self.maximum_level_group < self.minimum_level_group {
            return Err(TowerRulesShapeError::InvalidLevelGroupRange);
        }
        check_texts(self)?;
        if self.trainers.len() == 0 {
            return Err(TowerRulesShapeError::MissingTrainerRoster);
        }
        if mon_groups_are_missing(&self.mon_groups) {
            return Err(TowerRulesShapeError::MissingMonGroups);
        }
        check_groups(&self.mon_groups)
    }
}


// ---- the routine-side rule check ----

/// A text id must be nonblank and trimmed.
pub open spec fn text_id_ok(s: Seq<char>) -> bool {
    !is_blank(s) && is_trimmed(s)
}

/// The message a routine gives for rules it cannot use, in the order it checks them.
pub open spec fn tower_rules_message(r: BattleTowerRules) -> Option<Seq<char>> {
    let cands = views_of(r.reward_candidates@);
    let excluded = views_of(r.excluded_reward_items@);
    if r.required_party_count == 0 {
        Some("requiredPartyCount must be nonzero"@)
    } else if r.challenge_streak_length == 0 {
        Some("challengeStreakLength must be nonzero"@)
    } else if r.reward_candidates@.len() == 0 || r.reward_quantity == 0 {
        Some("rewardCandidates and rewardQuantity must be nonzero"@)
    } else if !is_exact_token(r.reward_failure_sentinel@) {
        Some("rewardFailureSentinel must be an exact item id"@)
    } else if reward_value_error(r) is Some || !reward_values_unique(r.reward_item_values.value_seq()) {
        Some("rewardItemValues must cover rewards and the sentinel with unique bytes"@)
    } else if first_error(candidate_checks(cands), cands.len() as int) is Some {
        Some("rewardCandidates must contain unique exact item ids"@)
    } else if first_error(excluded_checks(cands, excluded), excluded.len() as int) is Some || (forall|i: int|
        0 <= i < cands.len() ==> #[trigger] excluded.contains(cands[i])) {
        Some("excludedRewardItems must be exact candidate ids and leave a reward"@)
    } else if r.level_group_size == 0 {
        Some("levelGroupSize must be nonzero"@)
    } else if r.minimum_level_group == 0 || r.maximum_level_group < r.minimum_level_group {
        Some("level group range must be nonzero and ordered"@)
    } else if !text_id_ok(r.party_count_failure_text@) {
        Some("partyCountFailureText must be an exact nonempty text id"@)
    } else if !text_id_ok(r.duplicate_species_failure_text@) {
        Some("duplicateSpeciesFailureText must be an exact nonempty text id"@)
    } else if !text_id_ok(r.duplicate_held_item_failure_text@) {
        Some("duplicateHeldItemFailureText must be an exact nonempty text id"@)
    } else if !text_id_ok(r.egg_failure_text@) {
        Some("eggFailureText must be an exact nonempty text id"@)
    } else {
        None
    }
}

fn text_id_is_ok(s: &String) -> (b: bool)
    ensures
        b == text_id_ok(s@),
{
    !is_blank_text(s.as_str()) && is_trimmed_text(s.as_str())
}

fn rules_refused(routine: &str, message: &str) -> (e: SpecialRoutineError)
    ensures
        e matches SpecialRoutineError::InvalidBattleTowerRules { routine: r, message: m } && r@ == routine@ && m@
            == message@,
{
    SpecialRoutineError::InvalidBattleTowerRules { routine: copy_text(routine), message: copy_text(message) }
}

/// The checks a Battle Tower routine makes on the rules before it uses them; the error
/// names the routine and the first rule that fails.
pub fn validate_battle_tower_rules(rules: &BattleTowerRules, routine: &str) -> (r: Result<(), SpecialRoutineError>)
    ensures
        match r {
            Ok(()) => tower_rules_message(*rules) is None,
            Err(e) => tower_rules_message(*rules) matches Some(m) && (e matches SpecialRoutineError::InvalidBattleTowerRules {
                routine: rr,
                message: mm,
            } && rr@ == routine@ && mm@ == m),
        },
{
    if rules.required_party_count == 0 {
        return Err(rules_refused(routine, "requiredPartyCount must be nonzero"));
    }
    if rules.challenge_streak_length == 0 {
        return Err(rules_refused(routine, "challengeStreakLength must be nonzero"));
    }
    if rules.reward_candidates.len() == 0 || rules.reward_quantity == 0 {
        return Err(rules_refused(routine, "rewardCandidates and rewardQuantity must be nonzero"));
    }
    if !is_exact_nonempty_special_token(rules.reward_failure_sentinel.as_str()) {
        return Err(rules_refused(routine, "rewardFailureSentinel must be an exact item id"));
    }
    if check_reward_values(rules).is_err() || !reward_values_are_unique(&rules.reward_item_values) {
        return Err(rules_refused(routine, "rewardItemValues must cover rewards and the sentinel with unique bytes"));
    }
    let candidates = match check_reward_candidates(rules) {
        Ok(set) => set,
        Err(_) => {
            return Err(rules_refused(routine, "rewardCandidates must contain unique exact item ids"));
        },
    };
    if check_excluded_rewards(rules, &candidates).is_err() || every_reward_excluded(rules) {
        return Err(rules_refused(routine, "excludedRewardItems must be exact candidate ids and leave a reward"));
    }
    if rules.level_group_size == 0 {
        return Err(rules_refused(routine, "levelGroupSize must be nonzero"));
    }
    if rules.minimum_level_group == 0 || rules.maximum_level_group < rules.minimum_level_group {
        return Err(rules_refused(routine, "level group range must be nonzero and ordered"));
    }
    if !text_id_is_ok(&rules.party_count_failure_text) {
        return Err(rules_refused(routine, "partyCountFailureText must be an exact nonempty text id"));
    }
    if !text_id_is_ok(&rules.duplicate_species_failure_text) {
        return Err(rules_refused(routine, "duplicateSpeciesFailureText must be an exact nonempty text id"));
    }
    if !text_id_is_ok(&rules.duplicate_held_item_failure_text) {
        return Err(rules_refused(routine, "duplicateHeldItemFailureText must be an exact nonempty text id"));
    }
    if !text_id_is_ok(&rules.egg_failure_text) {
        return Err(rules_refused(routine, "eggFailureText must be an exact nonempty text id"));
    }
    Ok(())
}


// ---- the room menu ----

/// Why the room menu turns down a level group.
#[derive(Debug, PartialEq, Eq)]
pub enum BattleTowerRoomMenuRejection {
    PartyMonTopsThisLevel,
    UberRestriction { species: String },
}

/// The level groups `low..=high`.
pub open spec fn level_group_range(low: u8, high: u8) -> Seq<u8> {
    Seq::new(if high >= low { (high - low + 1) as nat } else { 0 }, |i: int| (low + i) as u8)
}

/// The highest group the menu offers: the rules' maximum, but at most 4 before the Hall of Fame.
pub open spec fn highest_level_group(rules: BattleTowerRules, hall_of_fame: bool) -> u8 {
    if hall_of_fame || rules.maximum_level_group <= 4 {
        rules.maximum_level_group
    } else {
        4
    }
}

/// Numbers as a list prints them: `[1, 2, 3]`.
pub open spec fn number_list_text(s: Seq<u8>) -> Seq<char> {
    "["@ + joined_numbers(s) + "]"@
}

pub open spec fn joined_numbers(s: Seq<u8>) -> Seq<char>
    decreases s.len(),
{
    if s.len() == 0 {
        Seq::empty()
    } else if s.len() == 1 {
        decimal_digits(s[0] as nat)
    } else {
        joined_numbers(s.drop_last()) + ", "@ + decimal_digits(s.last() as nat)
    }
}

/// The party's first Pokemon under level 70 whose species the rules ban.
pub open spec fn uber_checks(party: Seq<Option<Pokemon>>, rules: BattleTowerRules) -> spec_fn(int) -> Option<Seq<char>> {
    |i: int|
        match party[i] {
            Some(p) => if p.level < 70 && rules.banned_species.view().contains_key(p.species.id@) {
                Some(p.species.id@)
            } else {
                None
            },
            None => None,
        }
}

/// A party slot holds a Pokemon above the level cap.
pub open spec fn slot_tops_level(slot: Option<Pokemon>, cap: int) -> bool {
    match slot {
        Some(p) => p.level > cap,
        None => false,
    }
}

/// Some party Pokemon is above the level cap.
pub open spec fn party_tops_level(party: Seq<Option<Pokemon>>, cap: int) -> bool {
    exists|i: int| 0 <= i < party.len() && slot_tops_level(#[trigger] party[i], cap)
}

/// The group's level cap: the group times the group size, at most 255.
pub open spec fn room_level_cap(rules: BattleTowerRules, group: u8) -> int {
    if group * rules.level_group_size > 255 {
        255
    } else {
        group * rules.level_group_size
    }
}

/// Why the menu would turn down `group` for this party, if it would.
pub open spec fn room_rejection(party: Seq<Option<Pokemon>>, rules: BattleTowerRules, group: u8) -> Option<
    Option<Seq<char>>,
> {
    let cap = room_level_cap(rules, group);
    if party_tops_level(party, cap) {
        Some(None)
    } else if cap < 70 {
        match first_error(uber_checks(party, rules), party.len() as int) {
            Some(species) => Some(Some(species)),
            None => None,
        }
    } else {
        None
    }
}

/// What the room menu did: the groups it offered, the player's pick or cancel, and why it
/// turned the pick down, if it did. A menu with neither pick nor cancel is being opened, and
/// resets the streak's beaten-trainer count.
#[derive(Debug, PartialEq, Eq)]
pub struct BattleTowerRoomChoice {
    pub level_groups: Vec<u8>,
    pub selection: Option<u8>,
    pub rejection: Option<BattleTowerRoomMenuRejection>,
    pub cancelled: bool,
}

fn number_list(groups: &Vec<u8>) -> (s: String)
    ensures
        s@ == number_list_text(groups@),
{
    let mut v: Vec<char> = Vec::new();
    v.push('[');
    proof {
        reveal_strlit("[");
        assert(joined_numbers(groups@.take(0)) =~= Seq::<char>::empty());
        assert(v@ =~= "["@ + joined_numbers(groups@.take(0)));
    }
    let mut i: usize = 0;
    while i < groups.len()
        invariant
            i <= groups@.len(),
            v@ == "["@ + joined_numbers(groups@.take(i as int)),
        decreases groups.len() - i,
    {
        proof {
            reveal_strlit("[");
            assert(groups@.take(i + 1).drop_last() =~= groups@.take(i as int));
        }
        if i > 0 {
            v.push(',');
            v.push(' ');
        }
        let mut d = decimal_chars(groups[i] as u64);
        v.append(&mut d);
        proof {
            reveal_strlit(", ");
            assert(v@ =~= "["@ + joined_numbers(groups@.take(i + 1)));
        }
        i += 1;
    }
    v.push(']');
    proof {
        reveal_strlit("]");
        assert(groups@.take(groups@.len() as int) =~= groups@);
        assert(v@ =~= number_list_text(groups@));
    }
    text_from_chars(&v)
}

/// The level groups the menu offers, in order.
pub fn battle_tower_room_level_groups(rules: &BattleTowerRules, hall_of_fame: bool) -> (groups: Vec<u8>)
    ensures
        groups@ == level_group_range(rules.minimum_level_group, highest_level_group(*rules, hall_of_fame)),
{
    let high = if hall_of_fame || rules.maximum_level_group <= 4 {
        rules.maximum_level_group
    } else {
        4
    };
    let low = rules.minimum_level_group;
    let mut groups: Vec<u8> = Vec::new();
    if high < low {
        proof {
            assert(groups@ =~= level_group_range(low, high));
        }
        return groups;
    }
    let mut g: u16 = low as u16;
    while g <= high as u16
        invariant
            low <= high,
            low <= g <= high + 1,
            groups@ =~= level_group_range(low, high).take(g - low),
        decreases high + 1 - g,
    {
        groups.push(g as u8);
        proof {
            assert(groups@ =~= level_group_range(low, high).take(g + 1 - low));
        }
        g = g + 1;
    }
    proof {
        assert(level_group_range(low, high).take(high + 1 - low) =~= level_group_range(low, high));
    }
    groups
}

/// Why the menu turns down `group` for this party, if it does.
pub fn battle_tower_room_rejection(party: &Party, rules: &BattleTowerRules, group: u8) -> (r: Option<
    BattleTowerRoomMenuRejection,
>)
    ensures
        match room_rejection(party.pokemon@, *rules, group) {
            None => r is None,
            Some(None) => r == Some(BattleTowerRoomMenuRejection::PartyMonTopsThisLevel),
            Some(Some(species)) => r matches Some(BattleTowerRoomMenuRejection::UberRestriction { species: s })
                && s@ == species,
        },
{
    let size = rules.level_group_size;
    proof {
        assert(group * size <= 255 * 255) by (nonlinear_arith)
            requires
                group <= 255,
                size <= 255,
        ;
    }
    let product: u16 = group as u16 * size as u16;
    let cap: u8 = if product > 255 {
        255
    } else {
        product as u8
    };
    let ghost ps = party.pokemon@;
    let mut i: usize = 0;
    while i < party.pokemon.len()
        invariant
            ps == party.pokemon@,
            i <= ps.len(),
            cap == room_level_cap(*rules, group),
            forall|k: int| 0 <= k < i ==> !slot_tops_level(#[trigger] ps[k], cap as int),
        decreases party.pokemon.len() - i,
    {
        if let Some(p) = &party.pokemon[i] {
            if p.level > cap {
                return Some(BattleTowerRoomMenuRejection::PartyMonTopsThisLevel);
            }
        }
        i += 1;
    }
    if cap >= 70 {
        return None;
    }
    let ghost f = uber_checks(ps, *rules);
    let mut j: usize = 0;
    while j < party.pokemon.len()
        invariant
            ps == party.pokemon@,
            f == uber_checks(ps, *rules),
            cap == room_level_cap(*rules, group),
            cap < 70,
            !party_tops_level(ps, cap as int),
            j <= ps.len(),
            first_error(f, j as int) is None,
        decreases party.pokemon.len() - j,
    {
        if let Some(p) = &party.pokemon[j] {
            if p.level < 70 && rules.banned_species.contains_key(p.species.id.as_str()) {
                proof {
                    assert(f(j as int) == Some(p.species.id@));
                    lemma_first_error_stays(f, j + 1, ps.len() as int);
                }
                return Some(BattleTowerRoomMenuRejection::UberRestriction { species: copy_text(p.species.id.as_str()) });
            }
        }
        j += 1;
    }
    None
}

/// The room menu, given the player's pick (`selection`) or cancel: the rules must be present
/// and sound, a pick and a cancel cannot come together, and a pick must be one of the
/// offered groups.
pub fn battle_tower_room_menu(
    rules: Option<&BattleTowerRules>,
    hall_of_fame: bool,
    party: &Party,
    selection: Option<u8>,
    cancelled: bool,
    routine: &str,
) -> (r: Result<BattleTowerRoomChoice, SpecialRoutineError>)
    ensures
        match rules {
            None => r matches Err(SpecialRoutineError::MissingBattleTowerRules { routine: rr }) && rr@ == routine@,
            Some(rules) => match tower_rules_message(*rules) {
                Some(m) => r matches Err(SpecialRoutineError::InvalidBattleTowerRules { routine: rr, message: mm })
                    && rr@ == routine@ && mm@ == m,
                None => {
                    let groups = level_group_range(rules.minimum_level_group, highest_level_group(*rules, hall_of_fame));
                    if selection is Some && cancelled {
                        r matches Err(SpecialRoutineError::InvalidState { routine: rr, message: mm }) && rr@ == routine@
                            && mm@ == "Battle Tower room menu cannot select and cancel together"@
                    } else if selection matches Some(g) && !groups.contains(g) {
                        r matches Err(SpecialRoutineError::InvalidState { routine: rr, message: mm }) && rr@ == routine@
                            && mm@ == "Battle Tower level group "@ + decimal_digits(selection->0 as nat)
                            + " is outside unlocked source options "@ + number_list_text(groups)
                    } else {
                        &&& r matches Ok(c) && c.level_groups@ == groups && c.selection == selection && c.cancelled
                            == cancelled
                        &&& match selection {
                            Some(g) => match room_rejection(party.pokemon@, *rules, g) {
                                None => r->Ok_0.rejection is None,
                                Some(None) => r->Ok_0.rejection == Some(
                                    BattleTowerRoomMenuRejection::PartyMonTopsThisLevel,
                                ),
                                Some(Some(species)) => r->Ok_0.rejection matches Some(
                                    BattleTowerRoomMenuRejection::UberRestriction { species: s },
                                ) && s@ == species,
                            },
                            None => r->Ok_0.rejection is None,
                        }
                    }
                },
            },
        },
{
    let rules = match rules {
        Some(r) => r,
        None => return Err(SpecialRoutineError::MissingBattleTowerRules { routine: copy_text(routine) }),
    };
    if let Err(e) = validate_battle_tower_rules(rules, routine) {
        return Err(e);
    }
    let level_groups = battle_tower_room_level_groups(rules, hall_of_fame);
    if selection.is_some() && cancelled {
        return Err(
            SpecialRoutineError::InvalidState {
                routine: copy_text(routine),
                message: copy_text("Battle Tower room menu cannot select and cancel together"),
            },
        );
    }
    let rejection = match selection {
        None => None,
        Some(g) => {
            let mut found = false;
            let mut k: usize = 0;
            while k < level_groups.len()
                invariant
                    k <= level_groups@.len(),
                    found == (exists|m: int| 0 <= m < k && level_groups@[m] == g),
                decreases level_groups.len() - k,
            {
                if level_groups[k] == g {
                    found = true;
                }
                k += 1;
            }
            if !found {
                proof {
                    assert(!level_groups@.contains(g));
                }
                let mut v = text_chars("Battle Tower level group ");
                let mut d = decimal_chars(g as u64);
                let mut t = text_chars(" is outside unlocked source options ");
                let list = number_list(&level_groups);
                let mut u = text_chars(list.as_str());
                v.append(&mut d);
                v.append(&mut t);
                v.append(&mut u);
                return Err(SpecialRoutineError::InvalidState { routine: copy_text(routine), message: text_from_chars(&v) });
            }
            proof {
                let m = choose|m: int| 0 <= m < level_groups@.len() && level_groups@[m] == g;
                assert(level_groups@.contains(g));
            }
            battle_tower_room_rejection(party, rules, g)
        },
    };
    Ok(BattleTowerRoomChoice { level_groups, selection, rejection, cancelled })
}


// ---- the tower's actions ----

/// The challenge states a save can be in.
pub const BATTLETOWER_NO_CHALLENGE: u8 = 0;

pub const BATTLETOWER_SAVED_AND_LEFT: u8 = 1;

pub const BATTLETOWER_WON_CHALLENGE: u8 = 3;

pub const BATTLETOWER_RECEIVED_REWARD: u8 = 4;

/// The save-file flag bits: the save is the player's, and the explanation was read.
pub const SAVE_FILE_FLAG_YOURS: u8 = 0x1;

pub const SAVE_FILE_FLAG_EXPLANATION: u8 = 0x2;

/// The value an action leaves for the script, and whether it counts as true.
#[derive(Debug, PartialEq, Eq)]
pub struct BattleTowerActionResult {
    pub value: String,
    pub truthy: bool,
}

/// The tower with its beaten-trainer count held to the two digits the script shows.
pub open spec fn beaten_synced(t: BattleTowerState) -> BattleTowerState {
    BattleTowerState { beaten_trainers: if t.beaten_trainers > 99 { 99 } else { t.beaten_trainers }, ..t }
}

/// A flag as the script reads it.
pub open spec fn bool_text(b: bool) -> Seq<char> {
    if b {
        "1"@
    } else {
        "0"@
    }
}

/// The record state, marked kept.
pub open spec fn kept_record_state(x: u8) -> u8 {
    if x >= 1 {
        x
    } else {
        1
    }
}

/// The actions that need no rules: the tower after the action, the script's value and
/// whether it is true; `None` for the other actions.
pub open spec fn simple_tower_action(action: Seq<char>, t: BattleTowerState, day: u8) -> Option<
    (BattleTowerState, Seq<char>, bool),
> {
    if action == "BATTLETOWERACTION_CHECKSAVEFILEISYOURS"@ || action == "BATTLETOWERACTION_15"@ {
        Some((BattleTowerState { save_file_flags: t.save_file_flags | SAVE_FILE_FLAG_YOURS, ..t }, "1"@, true))
    } else if action == "BATTLETOWERACTION_CHECK_EXPLANATION_READ"@ {
        Some((t, bool_text(t.explanation_read), t.explanation_read))
    } else if action == "BATTLETOWERACTION_SET_EXPLANATION_READ"@ {
        Some(
            (
                BattleTowerState {
                    explanation_read: true,
                    save_file_flags: t.save_file_flags | SAVE_FILE_FLAG_EXPLANATION,
                    ..t
                },
                "1"@,
                true,
            ),
        )
    } else if action == "BATTLETOWERACTION_GET_CHALLENGE_STATE"@ {
        Some((beaten_synced(t), decimal_digits(t.challenge_state as nat), t.challenge_state != BATTLETOWER_NO_CHALLENGE))
    } else if action == "BATTLETOWERACTION_SAVELEVELGROUP"@ || action == "BATTLETOWERACTION_LOADLEVELGROUP"@ || action
        == "BATTLETOWERACTION_SAVEOPTIONS"@ || action == "BATTLETOWERACTION_0A"@ {
        Some((t, "1"@, true))
    } else if action == "BATTLETOWERACTION_SAVE_AND_QUIT"@ {
        Some(
            (
                beaten_synced(
                    BattleTowerState {
                        challenge_state: BATTLETOWER_SAVED_AND_LEFT,
                        quick_saved: true,
                        record_last_day: Some(day),
                        record_state: kept_record_state(t.record_state),
                        ..t
                    },
                ),
                "1"@,
                true,
            ),
        )
    } else if action == "BATTLETOWERACTION_CHALLENGECANCELED"@ {
        Some(
            (
                BattleTowerState {
                    challenge_state: BATTLETOWER_NO_CHALLENGE,
                    quick_saved: false,
                    reward_given: false,
                    beaten_trainers: 0,
                    ..t
                },
                "1"@,
                true,
            ),
        )
    } else if action == "BATTLETOWERACTION_06"@ {
        Some(
            (
                BattleTowerState { quick_saved: false, record_state: 0, record_last_day: None, record_reset_counter: 0, ..t },
                "1"@,
                true,
            ),
        )
    } else if action == "BATTLETOWERACTION_GSBALL"@ {
        if t.gs_ball_flag {
            Some((t, decimal_digits(11), true))
        } else {
            Some((t, decimal_digits(0), false))
        }
    } else if action == "BATTLETOWERACTION_05"@ {
        if t.record_state != 0 && timer_expired(t, day, 8) {
            Some((BattleTowerState { record_state: 0, ..t }, decimal_digits(8), true))
        } else {
            Some((t, decimal_digits(t.record_state as nat), t.record_state != 0))
        }
    } else if action == "BATTLETOWERACTION_11"@ {
        Some((BattleTowerState { leaderboard_acknowledged: false, ..t }, "0"@, false))
    } else if action == "BATTLETOWERACTION_12"@ {
        Some((BattleTowerState { leaderboard_acknowledged: true, ..t }, "1"@, true))
    } else if action == "BATTLETOWERACTION_13"@ {
        Some((t, bool_text(t.leaderboard_acknowledged), t.leaderboard_acknowledged))
    } else if action == "BATTLETOWERACTION_14"@ {
        let yours = t.save_file_flags & SAVE_FILE_FLAG_YOURS != 0;
        Some((t, bool_text(yours), yours))
    } else if action == "BATTLETOWERACTION_16"@ {
        Some((BattleTowerState { record_last_day: Some(day), record_reset_counter: 0, ..t }, "1"@, true))
    } else if action == "BATTLETOWERACTION_17"@ {
        if timer_expired(t, day, 11) {
            Some((BattleTowerState { record_last_day: None, record_reset_counter: 0, ..t }, "1"@, true))
        } else {
            Some((t, "0"@, false))
        }
    } else {
        None
    }
}

fn sync_beaten_count(tower: &mut BattleTowerState)
    ensures
        *final(tower) == beaten_synced(*old(tower)),
{
    if tower.beaten_trainers > 99 {
        tower.beaten_trainers = 99;
    }
}

fn flag_result(b: bool) -> (r: BattleTowerActionResult)
    ensures
        r.value@ == bool_text(b),
        r.truthy == b,
{
    if b {
        BattleTowerActionResult { value: copy_text("1"), truthy: true }
    } else {
        BattleTowerActionResult { value: copy_text("0"), truthy: false }
    }
}

fn number_result(n: u8, truthy: bool) -> (r: BattleTowerActionResult)
    ensures
        r.value@ == decimal_digits(n as nat),
        r.truthy == truthy,
{
    BattleTowerActionResult { value: decimal_text(n as u64), truthy }
}

/// Carries out an action that needs no rules; `None`, with the tower unchanged, for any other.
fn simple_battle_tower_action(tower: &mut BattleTowerState, action: &str, current_day: u8) -> (r: Option<
    BattleTowerActionResult,
>)
    ensures
        match simple_tower_action(action@, *old(tower), current_day) {
            None => r is None && *final(tower) == *old(tower),
            Some((t, value, truthy)) => r matches Some(x) && x.value@ == value && x.truthy == truthy && *final(tower)
                == t,
        },
{
    if text_eq(action, "BATTLETOWERACTION_CHECKSAVEFILEISYOURS") || text_eq(action, "BATTLETOWERACTION_15") {
        tower.save_file_flags = tower.save_file_flags | SAVE_FILE_FLAG_YOURS;
        return Some(flag_result(true));
    }
    if text_eq(action, "BATTLETOWERACTION_CHECK_EXPLANATION_READ") {
        return Some(flag_result(tower.explanation_read));
    }
    if text_eq(action, "BATTLETOWERACTION_SET_EXPLANATION_READ") {
        tower.explanation_read = true;
        tower.save_file_flags = tower.save_file_flags | SAVE_FILE_FLAG_EXPLANATION;
        return Some(flag_result(true));
    }
    if text_eq(action, "BATTLETOWERACTION_GET_CHALLENGE_STATE") {
        let state = tower.challenge_state;
        sync_beaten_count(tower);
        return Some(number_result(state, state != BATTLETOWER_NO_CHALLENGE));
    }
    if text_eq(action, "BATTLETOWERACTION_SAVELEVELGROUP") || text_eq(action, "BATTLETOWERACTION_LOADLEVELGROUP")
        || text_eq(action, "BATTLETOWERACTION_SAVEOPTIONS") || text_eq(action, "BATTLETOWERACTION_0A") {
        return Some(flag_result(true));
    }
    if text_eq(action, "BATTLETOWERACTION_SAVE_AND_QUIT") {
        tower.challenge_state = BATTLETOWER_SAVED_AND_LEFT;
        tower.quick_saved = true;
        tower.record_last_day = Some(current_day);
        if tower.record_state < 1 {
            tower.record_state = 1;
        }
        sync_beaten_count(tower);
        return Some(flag_result(true));
    }
    if text_eq(action, "BATTLETOWERACTION_CHALLENGECANCELED") {
        tower.challenge_state = BATTLETOWER_NO_CHALLENGE;
        tower.quick_saved = false;
        tower.reward_given = false;
        tower.beaten_trainers = 0;
        return Some(flag_result(true));
    }
    if text_eq(action, "BATTLETOWERACTION_06") {
        tower.quick_saved = false;
        tower.record_state = 0;
        tower.record_last_day = None;
        tower.record_reset_counter = 0;
        return Some(flag_result(true));
    }
    if text_eq(action, "BATTLETOWERACTION_GSBALL") {
        if tower.gs_ball_flag {
            return Some(number_result(11, true));
        }
        return Some(number_result(0, false));
    }
    if text_eq(action, "BATTLETOWERACTION_05") {
        let status = battle_tower_record_status(tower, current_day);
        return Some(number_result(status, status != 0));
    }
    if text_eq(action, "BATTLETOWERACTION_11") {
        tower.leaderboard_acknowledged = false;
        return Some(flag_result(false));
    }
    if text_eq(action, "BATTLETOWERACTION_12") {
        tower.leaderboard_acknowledged = true;
        return Some(flag_result(true));
    }
    if text_eq(action, "BATTLETOWERACTION_13") {
        return Some(flag_result(tower.leaderboard_acknowledged));
    }
    if text_eq(action, "BATTLETOWERACTION_14") {
        return Some(flag_result(tower.save_file_flags & SAVE_FILE_FLAG_YOURS != 0));
    }
    if text_eq(action, "BATTLETOWERACTION_16") {
        tower.record_last_day = Some(current_day);
        tower.record_reset_counter = 0;
        return Some(flag_result(true));
    }
    if text_eq(action, "BATTLETOWERACTION_17") {
        let expired = battle_tower_timer_expired(tower, current_day, 11);
        if expired {
            tower.record_last_day = None;
            tower.record_reset_counter = 0;
        }
        return Some(flag_result(expired));
    }
    None
}


/// The actions that read the rules.
pub open spec fn rules_action(action: Seq<char>) -> bool {
    ||| action == "BATTLETOWERACTION_RESETDATA"@
    ||| action == "BATTLETOWERACTION_1C"@
    ||| action == "BATTLETOWERACTION_GIVEREWARD"@
    ||| action == "BATTLETOWERACTION_1D"@
    ||| action == "BATTLETOWERACTION_LEVEL_CHECK"@
    ||| action == "BATTLETOWERACTION_UBERS_CHECK"@
}

/// The action text, once its leading whitespace is skipped, starts with `;`.
pub open spec fn starts_with_comment(s: Seq<char>) -> bool {
    trim_start(s).len() > 0 && trim_start(s)[0] == ';'
}

fn comment_first(value: &str) -> (b: bool)
    ensures
        b == starts_with_comment(value@),
{
    let s = text_chars(value);
    let n = s.len();
    let mut a: usize = 0;
    proof {
        assert(s@.skip(0) =~= s@);
    }
    while a < n && is_unicode_whitespace_char(s[a])
        invariant
            n == s@.len(),
            s@ == value@,
            a <= n,
            trim_start(s@) == trim_start(s@.skip(a as int)),
        decreases n - a,
    {
        proof {
            assert(s@.skip(a + 1) =~= s@.skip(a as int).drop_first());
        }
        a += 1;
    }
    proof {
        if a < n {
            assert(s@.skip(a as int)[0] == s@[a as int]);
        }
    }
    a < n && s[a] == ';'
}

/// The highest level in the party, if it has any Pokemon.
pub open spec fn party_max_level(slots: Seq<Option<Pokemon>>) -> Option<u8>
    decreases slots.len(),
{
    if slots.len() == 0 {
        None
    } else {
        let rest = party_max_level(slots.drop_last());
        match slots.last() {
            Some(p) => match rest {
                Some(m) => Some(if p.level > m { p.level } else { m }),
                None => Some(p.level),
            },
            None => rest,
        }
    }
}

/// Some party Pokemon's species is banned.
pub open spec fn party_has_banned(slots: Seq<Option<Pokemon>>, rules: BattleTowerRules) -> bool {
    exists|i: int| 0 <= i < slots.len() && #[trigger] slot_banned(slots[i], rules)
}

pub open spec fn slot_banned(slot: Option<Pokemon>, rules: BattleTowerRules) -> bool {
    match slot {
        Some(p) => rules.banned_species.view().contains_key(p.species.id@),
        None => false,
    }
}

/// The reward a won challenge hands out, and whether the bag has room for it: the saved
/// reward, or the rules' failure sentinel when it does not fit.
pub open spec fn reward_offer(rules: BattleTowerRules, item: Item, bag: Bag, reward: Seq<char>) -> (Seq<char>, bool) {
    if bag.fits(item, rules.reward_quantity as nat) {
        (reward, true)
    } else {
        (rules.reward_failure_sentinel@, false)
    }
}

fn highest_party_level(party: &Party) -> (r: Option<u8>)
    ensures
        r == party_max_level(party.pokemon@),
{
    let mut best: Option<u8> = None;
    let mut i: usize = 0;
    while i < party.pokemon.len()
        invariant
            i <= party.pokemon@.len(),
            best == party_max_level(party.pokemon@.take(i as int)),
        decreases party.pokemon.len() - i,
    {
        proof {
            assert(party.pokemon@.take(i + 1).drop_last() =~= party.pokemon@.take(i as int));
        }
        if let Some(p) = &party.pokemon[i] {
            best = match best {
                Some(m) => Some(if p.level > m { p.level } else { m }),
                None => Some(p.level),
            };
        }
        i += 1;
    }
    proof {
        assert(party.pokemon@.take(party.pokemon@.len() as int) =~= party.pokemon@);
    }
    best
}

fn party_holds_banned(party: &Party, rules: &BattleTowerRules) -> (b: bool)
    ensures
        b == party_has_banned(party.pokemon@, *rules),
{
    let mut i: usize = 0;
    while i < party.pokemon.len()
        invariant
            i <= party.pokemon@.len(),
            forall|k: int| 0 <= k < i ==> !slot_banned(#[trigger] party.pokemon@[k], *rules),
        decreases party.pokemon.len() - i,
    {
        if let Some(p) = &party.pokemon[i] {
            if rules.banned_species.contains_key(p.species.id.as_str()) {
                assert(slot_banned(party.pokemon@[i as int], *rules));
                return true;
            }
        }
        i += 1;
    }
    false
}

fn has_empty_banned_key(rules: &BattleTowerRules) -> (b: bool)
    ensures
        b == rules.banned_species.key_seq().contains(Seq::<char>::empty()),
{
    let n = rules.banned_species.len();
    let mut i: usize = 0;
    while i < n
        invariant
            n == rules.banned_species.key_seq().len(),
            i <= n,
            forall|k: int| 0 <= k < i ==> rules.banned_species.key_seq()[k] != Seq::<char>::empty(),
        decreases n - i,
    {
        proof {
            reveal_strlit("");
            assert(""@ =~= Seq::<char>::empty());
        }
        if text_eq(rules.banned_species.key_at(i).as_str(), "") {
            proof {
                reveal_strlit("");
                assert(rules.banned_species.key_seq()[i as int] =~= Seq::<char>::empty());
            }
            return true;
        }
        i += 1;
    }
    false
}

fn text_listed(list: &Vec<String>, value: &str) -> (b: bool)
    ensures
        b == views_of(list@).contains(value@),
{
    let mut i: usize = 0;
    while i < list.len()
        invariant
            i <= list@.len(),
            forall|k: int| 0 <= k < i ==> list@[k]@ != value@,
        decreases list.len() - i,
    {
        if text_eq(list[i].as_str(), value) {
            assert(views_of(list@)[i as int] == value@);
            return true;
        }
        i += 1;
    }
    proof {
        if views_of(list@).contains(value@) {
            let k = choose|k: int| 0 <= k < views_of(list@).len() && views_of(list@)[k] == value@;
            assert(list@[k]@ == value@);
        }
    }
    false
}

/// The reward draw is an action of its own: neither a rule-free action nor one that reads the rules.
proof fn lemma_choose_reward_stands_apart(t: BattleTowerState, d: u8)
    ensures
        simple_tower_action("BATTLETOWERACTION_CHOOSEREWARD"@, t, d) is None,
        !rules_action("BATTLETOWERACTION_CHOOSEREWARD"@),
{
    reveal_strlit("BATTLETOWERACTION_CHOOSEREWARD");
    reveal_strlit("BATTLETOWERACTION_RESETDATA");
    assert("BATTLETOWERACTION_CHOOSEREWARD"@[18] != "BATTLETOWERACTION_RESETDATA"@[18]);
    reveal_strlit("BATTLETOWERACTION_1C");
    assert("BATTLETOWERACTION_CHOOSEREWARD"@[18] != "BATTLETOWERACTION_1C"@[18]);
    reveal_strlit("BATTLETOWERACTION_GIVEREWARD");
    assert("BATTLETOWERACTION_CHOOSEREWARD"@[18] != "BATTLETOWERACTION_GIVEREWARD"@[18]);
    reveal_strlit("BATTLETOWERACTION_1D");
    assert("BATTLETOWERACTION_CHOOSEREWARD"@[18] != "BATTLETOWERACTION_1D"@[18]);
    reveal_strlit("BATTLETOWERACTION_LEVEL_CHECK");
    assert("BATTLETOWERACTION_CHOOSEREWARD"@[18] != "BATTLETOWERACTION_LEVEL_CHECK"@[18]);
    reveal_strlit("BATTLETOWERACTION_UBERS_CHECK");
    assert("BATTLETOWERACTION_CHOOSEREWARD"@[18] != "BATTLETOWERACTION_UBERS_CHECK"@[18]);
    reveal_strlit("BATTLETOWERACTION_CHECKSAVEFILEISYOURS");
    assert("BATTLETOWERACTION_CHOOSEREWARD"@[20] != "BATTLETOWERACTION_CHECKSAVEFILEISYOURS"@[20]);
    reveal_strlit("BATTLETOWERACTION_15");
    assert("BATTLETOWERACTION_CHOOSEREWARD"@[18] != "BATTLETOWERACTION_15"@[18]);
    reveal_strlit("BATTLETOWERACTION_CHECK_EXPLANATION_READ");
    assert("BATTLETOWERACTION_CHOOSEREWARD"@[20] != "BATTLETOWERACTION_CHECK_EXPLANATION_READ"@[20]);
    reveal_strlit("BATTLETOWERACTION_SET_EXPLANATION_READ");
    assert("BATTLETOWERACTION_CHOOSEREWARD"@[18] != "BATTLETOWERACTION_SET_EXPLANATION_READ"@[18]);
    reveal_strlit("BATTLETOWERACTION_GET_CHALLENGE_STATE");
    assert("BATTLETOWERACTION_CHOOSEREWARD"@[18] != "BATTLETOWERACTION_GET_CHALLENGE_STATE"@[18]);
    reveal_strlit("BATTLETOWERACTION_SAVELEVELGROUP");
    assert("BATTLETOWERACTION_CHOOSEREWARD"@[18] != "BATTLETOWERACTION_SAVELEVELGROUP"@[18]);
    reveal_strlit("BATTLETOWERACTION_LOADLEVELGROUP");
    assert("BATTLETOWERACTION_CHOOSEREWARD"@[18] != "BATTLETOWERACTION_LOADLEVELGROUP"@[18]);
    reveal_strlit("BATTLETOWERACTION_SAVEOPTIONS");
    assert("BATTLETOWERACTION_CHOOSEREWARD"@[18] != "BATTLETOWERACTION_SAVEOPTIONS"@[18]);
    reveal_strlit("BATTLETOWERACTION_0A");
    assert("BATTLETOWERACTION_CHOOSEREWARD"@[18] != "BATTLETOWERACTION_0A"@[18]);
    reveal_strlit("BATTLETOWERACTION_SAVE_AND_QUIT");
    assert("BATTLETOWERACTION_CHOOSEREWARD"@[18] != "BATTLETOWERACTION_SAVE_AND_QUIT"@[18]);
    reveal_strlit("BATTLETOWERACTION_CHALLENGECANCELED");
    assert("BATTLETOWERACTION_CHOOSEREWARD"@[20] != "BATTLETOWERACTION_CHALLENGECANCELED"@[20]);
    reveal_strlit("BATTLETOWERACTION_06");
    assert("BATTLETOWERACTION_CHOOSEREWARD"@[18] != "BATTLETOWERACTION_06"@[18]);
    reveal_strlit("BATTLETOWERACTION_GSBALL");
    assert("BATTLETOWERACTION_CHOOSEREWARD"@[18] != "BATTLETOWERACTION_GSBALL"@[18]);
    reveal_strlit("BATTLETOWERACTION_05");
    assert("BATTLETOWERACTION_CHOOSEREWARD"@[18] != "BATTLETOWERACTION_05"@[18]);
    reveal_strlit("BATTLETOWERACTION_11");
    assert("BATTLETOWERACTION_CHOOSEREWARD"@[18] != "BATTLETOWERACTION_11"@[18]);
    reveal_strlit("BATTLETOWERACTION_12");
    assert("BATTLETOWERACTION_CHOOSEREWARD"@[18] != "BATTLETOWERACTION_12"@[18]);
    reveal_strlit("BATTLETOWERACTION_13");
    assert("BATTLETOWERACTION_CHOOSEREWARD"@[18] != "BATTLETOWERACTION_13"@[18]);
    reveal_strlit("BATTLETOWERACTION_14");
    assert("BATTLETOWERACTION_CHOOSEREWARD"@[18] != "BATTLETOWERACTION_14"@[18]);
    reveal_strlit("BATTLETOWERACTION_16");
    assert("BATTLETOWERACTION_CHOOSEREWARD"@[18] != "BATTLETOWERACTION_16"@[18]);
    reveal_strlit("BATTLETOWERACTION_17");
    assert("BATTLETOWERACTION_CHOOSEREWARD"@[18] != "BATTLETOWERACTION_17"@[18]);
}

/// Carries out a Battle Tower action the script names: the raw action must be an exact
/// token; the reward draw needs a divider and is refused here; the actions that read the
/// rules need sound rules. Every refusal leaves the tower and the variables unchanged.
pub fn battle_tower_action(
    tower: &mut BattleTowerState,
    variables: &mut TextMap<String>,
    battle_tower_rules: Option<&BattleTowerRules>,
    item_catalog: &TextMap<Item>,
    bag: &Bag,
    party: &Party,
    current_day: u8,
    raw_action: &str,
    routine: &str,
) -> (r: Result<BattleTowerActionResult, SpecialRoutineError>)
    requires
        raw_action@ == "BATTLETOWERACTION_LEVEL_CHECK"@ ==> match battle_tower_rules {
            Some(rules) => tower_rules_message(*rules) is None && rules.minimum_level_group <= old(tower).level_group
                <= rules.maximum_level_group ==> old(tower).level_group * rules.level_group_size <= 255,
            None => true,
        },
    ensures
        r is Err ==> *final(tower) == *old(tower) && *final(variables) == *old(variables),
        raw_action@ != "BATTLETOWERACTION_RESETDATA"@ ==> *final(variables) == *old(variables),
        !is_exact_token(raw_action@) ==> if is_blank(raw_action@) || starts_with_comment(raw_action@) {
            r matches Err(SpecialRoutineError::MissingScriptValue { routine: rr, variable: v }) && rr@ == routine@ && v@
                == "_value action token"@
        } else {
            r matches Err(SpecialRoutineError::UnhandledBattleTowerAction { routine: rr, action: a }) && rr@ == routine@
                && a@ == raw_action@
        },
        is_exact_token(raw_action@) && raw_action@ == "BATTLETOWERACTION_CHOOSEREWARD"@ ==> (r matches Err(
            SpecialRoutineError::MissingDividerSource { routine: rr },
        ) && rr@ == routine@),
        is_exact_token(raw_action@) ==> match simple_tower_action(raw_action@, *old(tower), current_day) {
            Some((t, value, truthy)) => r matches Ok(x) && x.value@ == value && x.truthy == truthy && *final(tower) == t,
            None => true,
        },
        is_exact_token(raw_action@) && raw_action@ != "BATTLETOWERACTION_CHOOSEREWARD"@ && simple_tower_action(
            raw_action@,
            *old(tower),
            current_day,
        ) is None && !rules_action(raw_action@) ==> (r matches Err(SpecialRoutineError::UnhandledBattleTowerAction {
            routine: rr,
            action: a,
        }) && rr@ == routine@ && a@ == raw_action@),
        is_exact_token(raw_action@) && rules_action(raw_action@) ==> match battle_tower_rules {
            None => r matches Err(SpecialRoutineError::MissingBattleTowerRules { routine: rr }) && rr@ == routine@,
            Some(rules) => {
            let banned_key_empty = raw_action@ == "BATTLETOWERACTION_UBERS_CHECK"@
                && rules.banned_species.key_seq().contains(Seq::<char>::empty());
            if banned_key_empty {
                r matches Err(SpecialRoutineError::InvalidBattleTowerRules { routine: rr, message: m }) && rr@
                    == routine@ && m@ == "bannedSpecies entries must be non-empty exact species ids"@
            } else if tower_rules_message(*rules) is Some {
                r matches Err(SpecialRoutineError::InvalidBattleTowerRules { routine: rr, message: m }) && rr@
                    == routine@ && Some(m@) == tower_rules_message(*rules)
            } else if raw_action@ == "BATTLETOWERACTION_RESETDATA"@ {
                &&& r matches Ok(x) && x.value@ == "0"@ && !x.truthy
                &&& final(tower).trainer_history@ == Seq::new(rules.challenge_streak_length as nat, |i: int| 0xffu8)
                &&& *final(tower) == (BattleTowerState {
                    beaten_trainers: 0,
                    trainer_history: final(tower).trainer_history,
                    challenge_state: BATTLETOWER_NO_CHALLENGE,
                    reward_given: false,
                    quick_saved: false,
                    record_state: 0,
                    record_reset_counter: 0,
                    record_last_day: None,
                    level_group: 0,
                    ..*old(tower)
                })
                &&& final(variables).view() == old(variables).view().remove("battle_tower_mon_history"@)
            } else if raw_action@ == "BATTLETOWERACTION_1C"@ {
                r matches Ok(x) && x.value@ == "1"@ && x.truthy && *final(tower) == beaten_synced(
                    BattleTowerState {
                        challenge_state: BATTLETOWER_WON_CHALLENGE,
                        reward_given: false,
                        record_last_day: Some(current_day),
                        record_state: kept_record_state(old(tower).record_state),
                        ..*old(tower)
                    },
                )
            } else if raw_action@ == "BATTLETOWERACTION_GIVEREWARD"@ {
                let reward = old(tower).reward_item@;
                &&& *final(tower) == *old(tower)
                &&& if !views_of(rules.reward_candidates@).contains(reward) || views_of(
                    rules.excluded_reward_items@,
                ).contains(reward) {
                    r matches Err(SpecialRoutineError::InvalidState { routine: rr, message: m }) && rr@ == routine@
                        && m@ == "saved Battle Tower reward "@ + reward + " is not a selectable source candidate"@
                } else if !item_catalog.view().contains_key(reward) {
                    r matches Err(SpecialRoutineError::UnknownItem { routine: rr, item_id: i }) && rr@ == routine@ && i@
                        == reward
                } else {
                    let offer = reward_offer(*rules, item_catalog.view()[reward], *bag, reward);
                    r matches Ok(x) && x.value@ == offer.0 && x.truthy == offer.1
                }
            } else if raw_action@ == "BATTLETOWERACTION_1D"@ {
                let beaten = old(tower).beaten_trainers;
                let n = rules.challenge_streak_length;
                &&& r matches Ok(x) && x.value@ == "1"@ && x.truthy
                &&& final(tower).record_streaks@ == newest_first(
                    old(tower).record_streaks@,
                    if beaten < n { beaten } else { n },
                    n as nat,
                )
                &&& final(tower).record_outcomes@ == newest_first(old(tower).record_outcomes@, true, n as nat)
                &&& final(tower).record_days@ == newest_first(old(tower).record_days@, current_day, n as nat)
                &&& *final(tower) == beaten_synced(
                    BattleTowerState {
                        challenge_state: BATTLETOWER_RECEIVED_REWARD,
                        reward_given: true,
                        record_streaks: final(tower).record_streaks,
                        record_outcomes: final(tower).record_outcomes,
                        record_days: final(tower).record_days,
                        record_state: 1,
                        record_last_day: Some(current_day),
                        record_reset_counter: 0,
                        leaderboard_acknowledged: false,
                        ..*old(tower)
                    },
                )
            } else if raw_action@ == "BATTLETOWERACTION_LEVEL_CHECK"@ {
                let g = old(tower).level_group;
                &&& *final(tower) == *old(tower)
                &&& if !(rules.minimum_level_group <= g <= rules.maximum_level_group) {
                    r matches Err(SpecialRoutineError::InvalidBattleTowerLevelGroup { routine: rr, .. }) && rr@ == routine@
                } else {
                    match party_max_level(party.pokemon@) {
                        None => r matches Err(SpecialRoutineError::EmptyParty { routine: rr }) && rr@ == routine@,
                        Some(highest) => if highest > g * rules.level_group_size {
                            r matches Ok(x) && x.value@ == decimal_digits(highest as nat) && x.truthy
                        } else {
                            r matches Ok(x) && x.value@ == "0"@ && !x.truthy
                        },
                    }
                }
            } else {
                let banned = party_has_banned(party.pokemon@, *rules);
                r matches Ok(x) && x.value@ == bool_text(banned) && x.truthy == banned && *final(tower) == *old(tower)
            }
            },
        },
{
    if !is_exact_nonempty_special_token(raw_action) {
        if is_blank_text(raw_action) || comment_first(raw_action) {
            return Err(
                SpecialRoutineError::MissingScriptValue {
                    routine: copy_text(routine),
                    variable: copy_text("_value action token"),
                },
            );
        }
        return Err(SpecialRoutineError::UnhandledBattleTowerAction { routine: copy_text(routine), action: copy_text(raw_action) });
    }
    if text_eq(raw_action, "BATTLETOWERACTION_CHOOSEREWARD") {
        proof {
            lemma_choose_reward_stands_apart(*old(tower), current_day);
        }
        return Err(SpecialRoutineError::MissingDividerSource { routine: copy_text(routine) });
    }
    let is_rules_action = text_eq(raw_action, "BATTLETOWERACTION_RESETDATA") || text_eq(raw_action, "BATTLETOWERACTION_1C")
        || text_eq(raw_action, "BATTLETOWERACTION_GIVEREWARD") || text_eq(raw_action, "BATTLETOWERACTION_1D") || text_eq(
        raw_action,
        "BATTLETOWERACTION_LEVEL_CHECK",
    ) || text_eq(raw_action, "BATTLETOWERACTION_UBERS_CHECK");
    if !is_rules_action {
        proof {
            reveal_strlit("BATTLETOWERACTION_RESETDATA");
            reveal_strlit("BATTLETOWERACTION_1C");
            reveal_strlit("BATTLETOWERACTION_GIVEREWARD");
            reveal_strlit("BATTLETOWERACTION_1D");
            reveal_strlit("BATTLETOWERACTION_LEVEL_CHECK");
            reveal_strlit("BATTLETOWERACTION_UBERS_CHECK");
        }
        return match simple_battle_tower_action(tower, raw_action, current_day) {
            Some(x) => Ok(x),
            None => Err(
                SpecialRoutineError::UnhandledBattleTowerAction { routine: copy_text(routine), action: copy_text(raw_action) },
            ),
        };
    }
    proof {
        assert(simple_tower_action(raw_action@, *old(tower), current_day) is None) by {
            reveal_strlit("BATTLETOWERACTION_RESETDATA");
            reveal_strlit("BATTLETOWERACTION_1C");
            reveal_strlit("BATTLETOWERACTION_GIVEREWARD");
            reveal_strlit("BATTLETOWERACTION_1D");
            reveal_strlit("BATTLETOWERACTION_LEVEL_CHECK");
            reveal_strlit("BATTLETOWERACTION_UBERS_CHECK");
            reveal_strlit("BATTLETOWERACTION_CHECKSAVEFILEISYOURS");
            reveal_strlit("BATTLETOWERACTION_15");
            reveal_strlit("BATTLETOWERACTION_CHECK_EXPLANATION_READ");
            reveal_strlit("BATTLETOWERACTION_SET_EXPLANATION_READ");
            reveal_strlit("BATTLETOWERACTION_GET_CHALLENGE_STATE");
            reveal_strlit("BATTLETOWERACTION_SAVELEVELGROUP");
            reveal_strlit("BATTLETOWERACTION_LOADLEVELGROUP");
            reveal_strlit("BATTLETOWERACTION_SAVEOPTIONS");
            reveal_strlit("BATTLETOWERACTION_0A");
            reveal_strlit("BATTLETOWERACTION_SAVE_AND_QUIT");
            reveal_strlit("BATTLETOWERACTION_CHALLENGECANCELED");
            reveal_strlit("BATTLETOWERACTION_06");
            reveal_strlit("BATTLETOWERACTION_GSBALL");
            reveal_strlit("BATTLETOWERACTION_05");
            reveal_strlit("BATTLETOWERACTION_11");
            reveal_strlit("BATTLETOWERACTION_12");
            reveal_strlit("BATTLETOWERACTION_13");
            reveal_strlit("BATTLETOWERACTION_14");
            reveal_strlit("BATTLETOWERACTION_16");
            reveal_strlit("BATTLETOWERACTION_17");
        }
    }
    let rules = match battle_tower_rules {
        Some(r) => r,
        None => return Err(SpecialRoutineError::MissingBattleTowerRules { routine: copy_text(routine) }),
    };
    let ubers = text_eq(raw_action, "BATTLETOWERACTION_UBERS_CHECK");
    if ubers && has_empty_banned_key(rules) {
        return Err(
            SpecialRoutineError::InvalidBattleTowerRules {
                routine: copy_text(routine),
                message: copy_text("bannedSpecies entries must be non-empty exact species ids"),
            },
        );
    }
    if let Err(e) = validate_battle_tower_rules(rules, routine) {
        return Err(e);
    }
    if text_eq(raw_action, "BATTLETOWERACTION_RESETDATA") {
        reset_battle_tower_trainer_records(tower, rules.challenge_streak_length);
        tower.challenge_state = BATTLETOWER_NO_CHALLENGE;
        tower.reward_given = false;
        tower.quick_saved = false;
        tower.record_state = 0;
        tower.record_reset_counter = 0;
        tower.record_last_day = None;
        tower.level_group = 0;
        variables.remove("battle_tower_mon_history");
        return Ok(flag_result(false));
    }
    if text_eq(raw_action, "BATTLETOWERACTION_1C") {
        tower.challenge_state = BATTLETOWER_WON_CHALLENGE;
        tower.reward_given = false;
        tower.record_last_day = Some(current_day);
        if tower.record_state < 1 {
            tower.record_state = 1;
        }
        sync_beaten_count(tower);
        return Ok(flag_result(true));
    }
    if text_eq(raw_action, "BATTLETOWERACTION_GIVEREWARD") {
        let reward = tower.reward_item.as_str();
        if !text_listed(&rules.reward_candidates, reward) || text_listed(&rules.excluded_reward_items, reward) {
            let mut v = text_chars("saved Battle Tower reward ");
            let mut w = text_chars(reward);
            let mut t = text_chars(" is not a selectable source candidate");
            v.append(&mut w);
            v.append(&mut t);
            return Err(SpecialRoutineError::InvalidState { routine: copy_text(routine), message: text_from_chars(&v) });
        }
        let item = match item_catalog.get(reward) {
            Some(i) => i,
            None => return Err(SpecialRoutineError::UnknownItem { routine: copy_text(routine), item_id: copy_text(reward) }),
        };
        if bag.can_add_item(item, rules.reward_quantity) {
            return Ok(BattleTowerActionResult { value: copy_text(reward), truthy: true });
        }
        return Ok(BattleTowerActionResult { value: copy_text(rules.reward_failure_sentinel.as_str()), truthy: false });
    }
    if text_eq(raw_action, "BATTLETOWERACTION_1D") {
        tower.challenge_state = BATTLETOWER_RECEIVED_REWARD;
        tower.reward_given = true;
        let beaten = tower.beaten_trainers;
        record_battle_tower_run(tower, current_day, beaten, true, rules.challenge_streak_length);
        sync_beaten_count(tower);
        return Ok(flag_result(true));
    }
    if text_eq(raw_action, "BATTLETOWERACTION_LEVEL_CHECK") {
        let group = match exact_battle_tower_level_group(tower, rules, routine) {
            Ok(g) => g,
            Err(e) => return Err(e),
        };
        let cap: u8 = group * rules.level_group_size;
        return match highest_party_level(party) {
            None => Err(SpecialRoutineError::EmptyParty { routine: copy_text(routine) }),
            Some(highest) => if highest > cap {
                Ok(number_result(highest, true))
            } else {
                Ok(flag_result(false))
            },
        };
    }
    let banned = party_holds_banned(party, rules);
    Ok(flag_result(banned))
}


// ---- drawing the reward ----

/// The least power of two from `p` up, doubling, that reaches `n`.
pub open spec fn power_of_two_reaching(n: nat, p: nat) -> nat
    decreases (if p < n { n - p } else { 0 }),
    when p > 0
{
    if p >= n {
        p
    } else {
        power_of_two_reaching(n, 2 * p)
    }
}

/// The candidate a draw byte picks: the byte masked to the candidate count's power of two,
/// folded back once when it lands past the last candidate.
pub open spec fn reward_draw_index(count: nat, roll: u8) -> int {
    let masked = (roll & ((power_of_two_reaching(count, 1) - 1) as u8)) as int;
    if masked >= count {
        masked - count
    } else {
        masked
    }
}

/// `power_of_two_reaching` climbs by doubling, stays below twice `n`, and is a power of two
/// up to 256.
proof fn lemma_power_of_two_reaching(n: nat, p: nat)
    requires
        0 < n <= 256,
        p == 1 || p == 2 || p == 4 || p == 8 || p == 16 || p == 32 || p == 64 || p == 128 || p == 256,
        p < 2 * n,
    ensures
        n <= power_of_two_reaching(n, p) < 2 * n,
        power_of_two_reaching(n, p) == 1 || power_of_two_reaching(n, p) == 2 || power_of_two_reaching(n, p) == 4
            || power_of_two_reaching(n, p) == 8 || power_of_two_reaching(n, p) == 16 || power_of_two_reaching(n, p) == 32
            || power_of_two_reaching(n, p) == 64 || power_of_two_reaching(n, p) == 128 || power_of_two_reaching(n, p)
            == 256,
    decreases (if p < n { n - p } else { 0 }),
{
    if p < n {
        lemma_power_of_two_reaching(n, 2 * p);
    }
}

/// One draw of the won challenge's reward: the rules must be sound and hold at most 256
/// candidates; a draw that lands on an excluded candidate is turned down (`false`) and the
/// tower is unchanged, and an accepted draw becomes the reward still to be given.
pub fn choose_battle_tower_reward(
    tower: &mut BattleTowerState,
    rules: Option<&BattleTowerRules>,
    roll: u8,
    routine: &str,
) -> (r: Result<bool, SpecialRoutineError>)
    ensures
        !(r == Ok::<bool, SpecialRoutineError>(true)) ==> *final(tower) == *old(tower),
        match rules {
            None => r matches Err(SpecialRoutineError::MissingBattleTowerRules { routine: rr }) && rr@ == routine@,
            Some(rules) => if tower_rules_message(*rules) is Some {
                r matches Err(SpecialRoutineError::InvalidBattleTowerRules { routine: rr, message: m }) && rr@ == routine@
                    && Some(m@) == tower_rules_message(*rules)
            } else if rules.reward_candidates@.len() > 256 {
                r matches Err(SpecialRoutineError::InvalidBattleTowerRules { routine: rr, message: m }) && rr@ == routine@
                    && m@ == "rewardCandidates exceeds the source byte table"@
            } else {
                let i = reward_draw_index(rules.reward_candidates@.len(), roll);
                let candidate = rules.reward_candidates@[i]@;
                &&& 0 <= i < rules.reward_candidates@.len()
                &&& if views_of(rules.excluded_reward_items@).contains(candidate) {
                    r == Ok::<bool, SpecialRoutineError>(false)
                } else {
                    &&& r == Ok::<bool, SpecialRoutineError>(true)
                    &&& final(tower).reward_item@ == candidate
                    &&& *final(tower) == (BattleTowerState {
                        reward_item: final(tower).reward_item,
                        reward_given: false,
                        ..*old(tower)
                    })
                }
            },
        },
{
    let rules = match rules {
        Some(r) => r,
        None => return Err(SpecialRoutineError::MissingBattleTowerRules { routine: copy_text(routine) }),
    };
    if let Err(e) = validate_battle_tower_rules(rules, routine) {
        return Err(e);
    }
    let count = rules.reward_candidates.len();
    if count > 256 {
        return Err(
            SpecialRoutineError::InvalidBattleTowerRules {
                routine: copy_text(routine),
                message: copy_text("rewardCandidates exceeds the source byte table"),
            },
        );
    }
    let mut p: usize = 1;
    proof {
        lemma_power_of_two_reaching(count as nat, 1);
    }
    while p < count
        invariant
            0 < count <= 256,
            p == 1 || p == 2 || p == 4 || p == 8 || p == 16 || p == 32 || p == 64 || p == 128 || p == 256,
            p < 2 * count,
            power_of_two_reaching(count as nat, p as nat) == power_of_two_reaching(count as nat, 1),
        decreases 512 - p,
    {
        p = p * 2;
    }
    proof {
        lemma_power_of_two_reaching(count as nat, p as nat);
    }
    let mask: u8 = (p - 1) as u8;
    let masked: u8 = roll & mask;
    assert(roll & mask <= mask) by (bit_vector);
    let index: usize = if masked as usize >= count {
        masked as usize - count
    } else {
        masked as usize
    };
    let candidate = rules.reward_candidates[index].as_str();
    if text_listed(&rules.excluded_reward_items, candidate) {
        return Ok(false);
    }
    tower.reward_item = copy_text(candidate);
    tower.reward_given = false;
    Ok(true)
}


// ---- the tower battle ----

pub const BATTLETOWER_CHALLENGE_IN_PROGRESS: u8 = 2;

/// What the battle routine did: it started a battle, or it closed one with the battle's
/// result code and the challenge's count and state after it.
#[derive(Debug, PartialEq, Eq)]
pub enum BattleTowerBattleOutcome {
    Started,
    Finished { result_code: u8, beaten_trainers: u8, challenge_state: u8 },
}

/// The party after the tower heals it: each hatched Pokemon healed, eggs untouched.
pub open spec fn party_healed(before: Seq<Option<Pokemon>>, after: Seq<Option<Pokemon>>, move_pp: Map<Seq<char>, u8>) -> bool {
    &&& after.len() == before.len()
    &&& forall|i: int|
        0 <= i < before.len() ==> match #[trigger] before[i] {
            Some(p) => if p.is_egg {
                after[i] == Some(p)
            } else {
                after[i] matches Some(q) && q == healed(p, q.moves) && q.moves@ == restored_moves(p.moves@, move_pp)
            },
            None => after[i] is None,
        }
}

/// The tower battle routine. Without a battle result (`raw_result` is `None`) it starts the
/// battle against the loaded tower opponent: the challenge is in progress, one more trainer
/// counts as met (at most the streak length), the party is healed and the quick save is gone.
/// With a result it closes the battle: the party is healed and the quick save gone; a win
/// (result 0) keeps the challenge in progress, or marks it won on `current_day` once the
/// streak is complete.
pub fn battle_tower_battle(
    tower: &mut BattleTowerState,
    party: &mut Party,
    battle_tower_rules: Option<&BattleTowerRules>,
    move_pp: &TextMap<u8>,
    tower_opponent_loaded: bool,
    raw_result: Option<&str>,
    current_day: u8,
    routine: &str,
) -> (r: Result<BattleTowerBattleOutcome, SpecialRoutineError>)
    ensures
        match raw_result {
            None => if !tower_opponent_loaded {
                (r matches Err(SpecialRoutineError::InvalidState { routine: rr, message: m }) && rr@ == routine@ && m@
                    == "Battle Tower battle start requires a loaded Battle Tower opponent"@) && *final(tower) == *old(tower) && *final(party) == *old(party)
            } else {
                match battle_tower_rules {
                    None => (r matches Err(SpecialRoutineError::MissingBattleTowerRules { routine: rr }) && rr@
                        == routine@) && *final(tower) == *old(tower) && *final(party) == *old(party),
                    Some(rules) => match tower_rules_message(*rules) {
                        Some(m) => (r matches Err(SpecialRoutineError::InvalidBattleTowerRules { routine: rr, message: mm })
                            && rr@ == routine@ && mm@ == m) && *final(tower) == *old(tower) && *final(party) == *old(party),
                        None => {
                            let met = if old(tower).beaten_trainers + 1 > rules.challenge_streak_length {
                                rules.challenge_streak_length
                            } else {
                                (old(tower).beaten_trainers + 1) as u8
                            };
                            &&& r == Ok::<BattleTowerBattleOutcome, SpecialRoutineError>(BattleTowerBattleOutcome::Started)
                            &&& *final(tower) == beaten_synced(
                                BattleTowerState {
                                    challenge_state: BATTLETOWER_CHALLENGE_IN_PROGRESS,
                                    beaten_trainers: met,
                                    quick_saved: false,
                                    ..*old(tower)
                                },
                            )
                            &&& party_healed(old(party).pokemon@, final(party).pokemon@, move_pp.view())
                        },
                    },
                }
            },
            Some(raw) => match bounded_value(raw@, 255) {
                None => (r matches Err(e) && numeric_error(e, routine@, raw@)) && *final(tower) == *old(tower) && *final(party) == *old(party),
                Some(code) => {
                    &&& party_healed(old(party).pokemon@, final(party).pokemon@, move_pp.view())
                    &&& if code != 0 {
                        &&& *final(tower) == (BattleTowerState { quick_saved: false, ..*old(tower) })
                        &&& r == Ok::<BattleTowerBattleOutcome, SpecialRoutineError>(
                            BattleTowerBattleOutcome::Finished {
                                result_code: code as u8,
                                beaten_trainers: old(tower).beaten_trainers,
                                challenge_state: old(tower).challenge_state,
                            },
                        )
                    } else {
                        match battle_tower_rules {
                            None => (r matches Err(SpecialRoutineError::MissingBattleTowerRules { routine: rr }) && rr@
                                == routine@) && *final(tower) == (BattleTowerState { quick_saved: false, ..*old(tower) }),
                            Some(rules) => match tower_rules_message(*rules) {
                                Some(m) => (r matches Err(
                                    SpecialRoutineError::InvalidBattleTowerRules { routine: rr, message: mm },
                                ) && rr@ == routine@ && mm@ == m) && *final(tower) == (BattleTowerState {
                                    quick_saved: false,
                                    ..*old(tower)
                                }),
                                None => {
                                    let complete = old(tower).beaten_trainers >= rules.challenge_streak_length;
                                    let t = beaten_synced(
                                        BattleTowerState {
                                            quick_saved: false,
                                            challenge_state: if complete {
                                                BATTLETOWER_WON_CHALLENGE
                                            } else {
                                                BATTLETOWER_CHALLENGE_IN_PROGRESS
                                            },
                                            record_state: kept_record_state(old(tower).record_state),
                                            record_last_day: if complete {
                                                Some(current_day)
                                            } else {
                                                old(tower).record_last_day
                                            },
                                            ..*old(tower)
                                        },
                                    );
                                    &&& *final(tower) == t
                                    &&& r == Ok::<BattleTowerBattleOutcome, SpecialRoutineError>(
                                        BattleTowerBattleOutcome::Finished {
                                            result_code: 0,
                                            beaten_trainers: t.beaten_trainers,
                                            challenge_state: t.challenge_state,
                                        },
                                    )
                                },
                            },
                        }
                    }
                },
            },
        },
{
    let raw = match raw_result {
        None => {
            if !tower_opponent_loaded {
                return Err(
                    SpecialRoutineError::InvalidState {
                        routine: copy_text(routine),
                        message: copy_text("Battle Tower battle start requires a loaded Battle Tower opponent"),
                    },
                );
            }
            let rules = match battle_tower_rules {
                Some(r) => r,
                None => return Err(SpecialRoutineError::MissingBattleTowerRules { routine: copy_text(routine) }),
            };
            if let Err(e) = validate_battle_tower_rules(rules, routine) {
                return Err(e);
            }
            tower.challenge_state = BATTLETOWER_CHALLENGE_IN_PROGRESS;
            let met: u8 = if tower.beaten_trainers as u16 + 1 > rules.challenge_streak_length as u16 {
                rules.challenge_streak_length
            } else {
                tower.beaten_trainers + 1
            };
            tower.beaten_trainers = met;
            sync_beaten_count(tower);
            let _healed = heal_party(party, move_pp);
            tower.quick_saved = false;
            return Ok(BattleTowerBattleOutcome::Started);
        },
        Some(raw) => raw,
    };
    let code = match parse_exact_u8_token(routine, raw, raw) {
        Ok(c) => c,
        Err(e) => return Err(e),
    };
    let _healed = heal_party(party, move_pp);
    tower.quick_saved = false;
    if code != 0 {
        return Ok(
            BattleTowerBattleOutcome::Finished {
                result_code: code,
                beaten_trainers: tower.beaten_trainers,
                challenge_state: tower.challenge_state,
            },
        );
    }
    let rules = match battle_tower_rules {
        Some(r) => r,
        None => return Err(SpecialRoutineError::MissingBattleTowerRules { routine: copy_text(routine) }),
    };
    if let Err(e) = validate_battle_tower_rules(rules, routine) {
        return Err(e);
    }
    tower.challenge_state = BATTLETOWER_CHALLENGE_IN_PROGRESS;
    if tower.record_state < 1 {
        tower.record_state = 1;
    }
    if tower.beaten_trainers >= rules.challenge_streak_length {
        tower.challenge_state = BATTLETOWER_WON_CHALLENGE;
        tower.record_last_day = Some(current_day);
    }
    sync_beaten_count(tower);
    Ok(
        BattleTowerBattleOutcome::Finished {
            result_code: 0,
            beaten_trainers: tower.beaten_trainers,
            challenge_state: tower.challenge_state,
        },
    )
}

} // verus!
