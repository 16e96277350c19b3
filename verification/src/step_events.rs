//! What one overworld step does to the party: poison damage every few steps,
//! egg cycles, happiness every 512 steps, the Bike Shop call and Day-Care upkeep.
use vstd::prelude::*;
use crate::pokemon::{
    calculate_stats, CaughtData, event_name, expected_stats, pokemon_event_name, pokemon_species_display_name,
    species_display_name, Party, Pokemon,
};
use crate::state::{Flags, GameState, StepEventCounters};
use crate::special_routines::day_care::{advance_day_care_step, day_care_step_done, DayCareStepError, DividerSource};
use crate::text::{text_eq, copy_text, has_reserved_prefix, is_exact_token, is_exact_token_text};

verus! {

/// The pack's step-event constants.
#[derive(Debug, PartialEq, Eq)]
pub struct StepEventRules {
    pub poison_step_interval: u8,
    pub egg_step_trigger: u8,
    pub hatched_egg_happiness: u8,
    pub poison_status: String,
    pub egg_nickname: String,
    pub happiness_step_counter_mask: u8,
    pub happiness_step_counter_target: u8,
}

impl StepEventRules {
    /// Rules that a pack did not provide: every number zero, every text empty.
    pub open spec fn is_unset(&self) -> bool {
        &&& self.poison_step_interval == 0
        &&& self.egg_step_trigger == 0
        &&& self.hatched_egg_happiness == 0
        &&& self.poison_status@.len() == 0
        &&& self.egg_nickname@.len() == 0
        &&& self.happiness_step_counter_mask == 0
        &&& self.happiness_step_counter_target == 0
    }

    pub fn unset() -> (r: Self)
        ensures
            r.is_unset(),
    {
        StepEventRules {
            poison_step_interval: 0,
            egg_step_trigger: 0,
            hatched_egg_happiness: 0,
            poison_status: String::new(),
            egg_nickname: String::new(),
            happiness_step_counter_mask: 0,
            happiness_step_counter_target: 0,
        }
    }

    /// The first issue of the rules, if any.
    pub fn validate_shape(&self) -> (r: Result<(), StepEventRulesIssue>)
        ensures
            match r {
                Ok(()) => step_rules_issue_list(*self).len() == 0,
                Err(issue) => step_rules_issue_list(*self).len() > 0 && issue@ == step_rules_issue_list(*self)[0],
            },
    {
        let mut issues = step_event_rules_issues(self);
        if issues.len() > 0 {
            let first = issues.remove(0);
            Err(first)
        } else {
            Ok(())
        }
    }
}

impl Default for StepEventRules {
    fn default() -> (r: Self)
        ensures
            r.is_unset(),
    {
        StepEventRules::unset()
    }
}

/// A problem with the pack's step-event rules.
#[derive(Debug, PartialEq, Eq)]
pub enum StepEventRulesIssue {
    MissingPoisonStepInterval,
    InvalidPoisonStatus { poison_status: String },
    InvalidEggNickname { egg_nickname: String },
    HappinessTargetOutsideMask { target: u8, mask: u8 },
}

pub enum StepEventRulesIssueView {
    MissingPoisonStepInterval,
    InvalidPoisonStatus { poison_status: Seq<char> },
    InvalidEggNickname { egg_nickname: Seq<char> },
    HappinessTargetOutsideMask { target: u8, mask: u8 },
}

impl View for StepEventRulesIssue {
    type V = StepEventRulesIssueView;

    open spec fn view(&self) -> StepEventRulesIssueView {
        match self {
            StepEventRulesIssue::MissingPoisonStepInterval => StepEventRulesIssueView::MissingPoisonStepInterval,
            StepEventRulesIssue::InvalidPoisonStatus { poison_status } => StepEventRulesIssueView::InvalidPoisonStatus {
                poison_status: poison_status@,
            },
            StepEventRulesIssue::InvalidEggNickname { egg_nickname } => StepEventRulesIssueView::InvalidEggNickname {
                egg_nickname: egg_nickname@,
            },
            StepEventRulesIssue::HappinessTargetOutsideMask { target, mask } =>
                StepEventRulesIssueView::HappinessTargetOutsideMask { target: *target, mask: *mask },
        }
    }
}

/// Why a step could not be processed.
#[derive(Debug, PartialEq, Eq)]
pub enum StepEventError {
    MissingRules,
    InvalidRules { issue: StepEventRulesIssue },
    DayCareExperience { message: String },
    DayCareDivider { message: String },
    InvalidCaughtLocation { location: u16 },
    MissingCaughtLocation,
}

/// The issues of the rules, in the order they are checked.
pub open spec fn step_rules_issue_list(rules: StepEventRules) -> Seq<StepEventRulesIssueView> {
    let a: Seq<StepEventRulesIssueView> = if rules.poison_step_interval == 0 {
        seq![StepEventRulesIssueView::MissingPoisonStepInterval]
    } else {
        seq![]
    };
    let b: Seq<StepEventRulesIssueView> = if !is_exact_token(rules.poison_status@) {
        seq![StepEventRulesIssueView::InvalidPoisonStatus { poison_status: rules.poison_status@ }]
    } else {
        seq![]
    };
    let c: Seq<StepEventRulesIssueView> = if !is_exact_token(rules.egg_nickname@) {
        seq![StepEventRulesIssueView::InvalidEggNickname { egg_nickname: rules.egg_nickname@ }]
    } else {
        seq![]
    };
    let d: Seq<StepEventRulesIssueView> = if rules.happiness_step_counter_target > rules.happiness_step_counter_mask {
        seq![StepEventRulesIssueView::HappinessTargetOutsideMask {
            target: rules.happiness_step_counter_target,
            mask: rules.happiness_step_counter_mask,
        }]
    } else {
        seq![]
    };
    a + b + c + d
}

pub open spec fn step_issue_views(v: Seq<StepEventRulesIssue>) -> Seq<StepEventRulesIssueView> {
    v.map_values(|i: StepEventRulesIssue| i@)
}

/// Every problem with the rules: a zero poison interval, malformed status or nickname tokens,
/// and a happiness target the mask cannot reach.
pub fn step_event_rules_issues(rules: &StepEventRules) -> (issues: Vec<StepEventRulesIssue>)
    ensures
        step_issue_views(issues@) == step_rules_issue_list(*rules),
{
    let mut issues: Vec<StepEventRulesIssue> = Vec::new();
    if rules.poison_step_interval == 0 {
        issues.push(StepEventRulesIssue::MissingPoisonStepInterval);
    }
    if !is_exact_step_event_token(rules.poison_status.as_str()) {
        issues.push(StepEventRulesIssue::InvalidPoisonStatus { poison_status: rules.poison_status.clone() });
    }
    if !is_exact_step_event_token(rules.egg_nickname.as_str()) {
        issues.push(StepEventRulesIssue::InvalidEggNickname { egg_nickname: rules.egg_nickname.clone() });
    }
    if rules.happiness_step_counter_target > rules.happiness_step_counter_mask {
        issues.push(
            StepEventRulesIssue::HappinessTargetOutsideMask {
                target: rules.happiness_step_counter_target,
                mask: rules.happiness_step_counter_mask,
            },
        );
    }
    proof {
        assert(step_issue_views(issues@) =~= step_rules_issue_list(*rules));
    }
    issues
}

/// The error checked rules give: missing when unset, else the first issue.
pub open spec fn rules_error(rules: StepEventRules) -> Option<StepEventErrorView> {
    if rules.is_unset() {
        Some(StepEventErrorView::MissingRules)
    } else if step_rules_issue_list(rules).len() > 0 {
        Some(StepEventErrorView::InvalidRules { issue: step_rules_issue_list(rules)[0] })
    } else {
        None
    }
}

pub enum StepEventErrorView {
    MissingRules,
    InvalidRules { issue: StepEventRulesIssueView },
    DayCareExperience { message: Seq<char> },
    DayCareDivider { message: Seq<char> },
    InvalidCaughtLocation { location: u16 },
    MissingCaughtLocation,
}

impl View for StepEventError {
    type V = StepEventErrorView;

    open spec fn view(&self) -> StepEventErrorView {
        match self {
            StepEventError::MissingRules => StepEventErrorView::MissingRules,
            StepEventError::InvalidRules { issue } => StepEventErrorView::InvalidRules { issue: issue@ },
            StepEventError::DayCareExperience { message } => StepEventErrorView::DayCareExperience {
                message: message@,
            },
            StepEventError::DayCareDivider { message } => StepEventErrorView::DayCareDivider {
                message: message@,
            },
            StepEventError::InvalidCaughtLocation { location } => StepEventErrorView::InvalidCaughtLocation {
                location: *location,
            },
            StepEventError::MissingCaughtLocation => StepEventErrorView::MissingCaughtLocation,
        }
    }
}

pub open spec fn step_error_of<T>(r: Result<T, StepEventError>) -> Option<StepEventErrorView> {
    match r {
        Ok(_) => None,
        Err(e) => Some(e@),
    }
}

fn rules_are_unset(rules: &StepEventRules) -> (b: bool)
    ensures
        b == rules.is_unset(),
{
    rules.poison_step_interval == 0 && rules.egg_step_trigger == 0 && rules.hatched_egg_happiness == 0
        && rules.poison_status.as_str().is_empty() && rules.egg_nickname.as_str().is_empty()
        && rules.happiness_step_counter_mask == 0 && rules.happiness_step_counter_target == 0
}

/// Rules must be provided and free of issues.
pub fn require_step_event_rules(rules: &StepEventRules) -> (r: Result<(), StepEventError>)
    ensures
        step_error_of(r) == rules_error(*rules),
{
    if rules_are_unset(rules) {
        return Err(StepEventError::MissingRules);
    }
    let mut issues = step_event_rules_issues(rules);
    if issues.len() > 0 {
        let issue = issues.remove(0);
        return Err(StepEventError::InvalidRules { issue });
    }
    Ok(())
}

fn is_exact_step_event_token(value: &str) -> (b: bool)
    ensures
        b == is_exact_token(value@),
{
    is_exact_token_text(value)
}

/// Whether a step-event token starts with a reserved word in any ASCII case.
pub fn has_reserved_pack_prefix(value: &str) -> (b: bool)
    ensures
        b == has_reserved_prefix(value@),
{
    crate::text::has_reserved_pack_prefix(value)
}

/// The movement state the Bike Shop call checks.
#[derive(Clone, Copy, Debug, PartialEq, Eq, Structural)]
pub enum MovementMode {
    Normal,
    Bike,
    Skate,
    Surf,
}

/// Map facts an overworld step needs.
#[derive(Clone, Copy, Debug, PartialEq, Eq, Structural)]
pub struct OverworldStepContext {
    pub movement_mode: MovementMode,
    /// Packed map palette byte; its high nibble is the map's phone service.
    pub map_phone_service: u8,
}

/// What a step did.
#[derive(Debug, PartialEq, Eq)]
pub struct StepEventResult {
    pub repel_expired: Option<String>,
    pub egg_hatched: bool,
    pub hatched_species: Option<String>,
    pub hatched_party_index: Option<usize>,
    pub poison_result: Option<PoisonDamageResult>,
    pub happiness_changed: Vec<String>,
}

impl StepEventResult {
    pub fn nothing() -> (r: Self)
        ensures
            r.repel_expired is None && !r.egg_hatched && r.hatched_species is None
                && r.hatched_party_index is None && r.poison_result is None
                && r.happiness_changed@.len() == 0,
    {
        StepEventResult {
            repel_expired: None,
            egg_hatched: false,
            hatched_species: None,
            hatched_party_index: None,
            poison_result: None,
            happiness_changed: Vec::new(),
        }
    }
}

/// The egg that hatched.
#[derive(Debug, PartialEq, Eq)]
pub struct EggHatchResult {
    pub party_index: usize,
    pub species_id: String,
}

/// Who poison damaged and who fainted from it.
#[derive(Debug, PartialEq, Eq)]
pub struct PoisonDamageResult {
    pub damaged_names: Vec<String>,
    pub fainted_names: Vec<String>,
}

pub open spec fn texts(v: Vec<String>) -> Seq<Seq<char>> {
    v@.map_values(|s: String| s@)
}

/// A one-byte counter after `inc`.
pub open spec fn wrap_inc(x: u8) -> u8 {
    if x == 255 { 0 } else { (x + 1) as u8 }
}

/// A one-byte counter after `dec`.
pub open spec fn wrap_dec(x: u8) -> u8 {
    if x == 0 { 255 } else { (x - 1) as u8 }
}

fn wrapping_inc(x: u8) -> (y: u8)
    ensures
        y == wrap_inc(x),
{
    if x == 255 { 0 } else { x + 1 }
}

fn wrapping_dec(x: u8) -> (y: u8)
    ensures
        y == wrap_dec(x),
{
    if x == 0 { 255 } else { x - 1 }
}

pub open spec fn poisoned(rules: StepEventRules, p: Pokemon) -> bool {
    p.status matches Some(s) && s@ == rules.poison_status@
}

/// Status equals the pack's poison status exactly.
pub fn is_poisoned(rules: &StepEventRules, pokemon: &Pokemon) -> (b: bool)
    ensures
        b == poisoned(*rules, *pokemon),
{
    match &pokemon.status {
        Some(s) => crate::text::text_eq(s.as_str(), rules.poison_status.as_str()),
        None => false,
    }
}

/// Egg identity is the egg flag alone.
pub fn is_egg(rules: &StepEventRules, pokemon: &Pokemon) -> (b: bool)
    ensures
        b == pokemon.is_egg,
{
    pokemon.is_egg
}

// ---- happiness ----

/// A Pokemon one happiness point happier, up to 255.
pub open spec fn happier(p: Pokemon) -> Pokemon {
    Pokemon { happiness: if p.happiness == 255 { 255 } else { (p.happiness + 1) as u8 }, ..p }
}

pub open spec fn happiness_slot(slot: Option<Pokemon>) -> Option<Pokemon> {
    match slot {
        Some(p) => if p.is_egg { slot } else { Some(happier(p)) },
        None => None,
    }
}

/// Names of the non-egg Pokemon whose happiness can still rise, in slot order.
pub open spec fn happiness_names(party: Seq<Option<Pokemon>>) -> Seq<Seq<char>>
    decreases party.len(),
{
    if party.len() == 0 {
        seq![]
    } else {
        let rest = happiness_names(party.drop_last());
        match party.last() {
            Some(p) => if !p.is_egg && p.happiness < 255 {
                rest.push(event_name(p))
            } else {
                rest
            },
            None => rest,
        }
    }
}

pub open spec fn happiness_counter_after(rules: StepEventRules, c: u8) -> u8 {
    wrap_inc(c) & rules.happiness_step_counter_mask
}

/// Every 512 steps (as the pack's mask and target say), raises the happiness of non-egg party Pokemon.
pub fn apply_happiness_step(
    rules: &StepEventRules,
    counters: &mut StepEventCounters,
    party: &mut Party,
) -> (changed: Vec<String>)
    ensures
        final(counters).happiness_step_count == happiness_counter_after(*rules, old(counters).happiness_step_count),
        final(counters).step_count == old(counters).step_count,
        final(counters).poison_step_count == old(counters).poison_step_count,
        final(counters).bike_step_count == old(counters).bike_step_count,
        if final(counters).happiness_step_count != rules.happiness_step_counter_target {
            changed@.len() == 0 && *final(party) == *old(party)
        } else {
            final(party).pokemon@ == old(party).pokemon@.map_values(|s: Option<Pokemon>| happiness_slot(s))
                && texts(changed) == happiness_names(old(party).pokemon@)
        },
{
    let next = wrapping_inc(counters.happiness_step_count) & rules.happiness_step_counter_mask;
    counters.happiness_step_count = next;
    if counters.happiness_step_count != rules.happiness_step_counter_target {
        return Vec::new();
    }
    let mut changed: Vec<String> = Vec::new();
    let ghost before = party.pokemon@;
    let n = party.pokemon.len();
    let mut i: usize = 0;
    while i < n
        invariant
            n == before.len(),
            i <= n,
            party.pokemon@.len() == n,
            forall|j: int| 0 <= j < i ==> party.pokemon@[j] == happiness_slot(before[j]),
            forall|j: int| i <= j < n ==> party.pokemon@[j] == before[j],
            texts(changed) == happiness_names(before.take(i as int)),
        decreases n - i,
    {
        proof {
            assert(before.take(i + 1).drop_last() =~= before.take(i as int));
        }
        let slot = &mut party.pokemon[i];
        match slot {
            Some(pokemon) => {
                if !pokemon.is_egg {
                    let before_happiness = pokemon.happiness;
                    pokemon.happiness = if pokemon.happiness == 255 { 255 } else { pokemon.happiness + 1 };
                    if pokemon.happiness != before_happiness {
                        changed.push(pokemon_event_name(pokemon));
                    }
                }
            },
            None => {},
        }
        proof {
            assert(texts(changed) =~= happiness_names(before.take(i + 1)));
        }
        i += 1;
    }
    proof {
        assert(before.take(n as int) =~= before);
        assert(party.pokemon@ =~= before.map_values(|s: Option<Pokemon>| happiness_slot(s)));
    }
    changed
}

// ---- eggs ----

/// An egg whose counter runs out on this step.
pub open spec fn hatches(slot: Option<Pokemon>) -> bool {
    slot matches Some(p) && p.is_egg && p.happiness == 1
}

/// An egg one cycle on; other slots as they were.
pub open spec fn egg_cycle_slot(slot: Option<Pokemon>) -> Option<Pokemon> {
    match slot {
        Some(p) => if p.is_egg { Some(Pokemon { happiness: wrap_dec(p.happiness), ..p }) } else { slot },
        None => None,
    }
}

/// `h` is the first slot whose egg hatches.
pub open spec fn first_hatch(party: Seq<Option<Pokemon>>, h: int) -> bool {
    &&& 0 <= h < party.len()
    &&& hatches(party[h])
    &&& forall|j: int| 0 <= j < h ==> !hatches(#[trigger] party[j])
}

pub open spec fn any_hatch(party: Seq<Option<Pokemon>>) -> bool {
    exists|j: int| 0 <= j < party.len() && hatches(#[trigger] party[j])
}

/// `p` is the Pokemon that hatches from `egg`: named after its species, with the pack's
/// hatch happiness, no status, full HP and the stats its data gives.
pub open spec fn hatched_from(rules: StepEventRules, egg: Pokemon, p: Pokemon) -> bool {
    &&& hatched_core(rules, egg, p)
    &&& p.caught_data == egg.caught_data
    &&& p.original_trainer_id == egg.original_trainer_id
    &&& p.original_trainer_name == egg.original_trainer_name
}

/// The hatch rules, caught data and trainer ownership aside.
pub open spec fn hatched_core(rules: StepEventRules, egg: Pokemon, p: Pokemon) -> bool {
    let s = expected_stats(egg);
    &&& p.species == egg.species
    &&& p.level == egg.level
    &&& p.dvs == egg.dvs
    &&& p.hp_exp == egg.hp_exp
    &&& p.attack_exp == egg.attack_exp
    &&& p.defense_exp == egg.defense_exp
    &&& p.speed_exp == egg.speed_exp
    &&& p.special_exp == egg.special_exp
    &&& !p.is_egg
    &&& p.nickname@ == species_display_name(egg.species.id@)
    &&& p.happiness == rules.hatched_egg_happiness
    &&& p.status is None
    &&& p.sleep_turns == 0
    &&& p.max_hp == s.max_hp
    &&& p.hp == s.max_hp
    &&& p.attack == s.attack
    &&& p.defense == s.defense
    &&& p.speed == s.speed
    &&& p.special_attack == s.special_attack
    &&& p.special_defense == s.special_defense
    &&& p.experience == egg.experience
    &&& p.item == egg.item
}

/// The party after one egg cycle, with the egg in slot `h` (if any) hatching.
pub open spec fn egg_step_done(
    rules: StepEventRules,
    before: Seq<Option<Pokemon>>,
    after: Seq<Option<Pokemon>>,
    hatched: Option<int>,
) -> bool {
    egg_step_done_stamped(rules, before, after, hatched, None)
}

/// The hatched Pokemon as it stands after the step: plain, or stamped with the
/// caught data and trainer ownership of an overworld hatch.
pub open spec fn hatch_result_ok(
    rules: StepEventRules,
    egg: Pokemon,
    p: Pokemon,
    stamp: Option<(CaughtData, u16, Seq<char>)>,
) -> bool {
    match stamp {
        None => hatched_from(rules, egg, p),
        Some((caught, id, name)) => hatched_core(rules, egg, p) && p.caught_data == Some(caught)
            && p.original_trainer_id == id && p.original_trainer_name@ == name,
    }
}

pub open spec fn egg_step_done_stamped(
    rules: StepEventRules,
    before: Seq<Option<Pokemon>>,
    after: Seq<Option<Pokemon>>,
    hatched: Option<int>,
    stamp: Option<(CaughtData, u16, Seq<char>)>,
) -> bool {
    &&& after.len() == before.len()
    &&& match hatched {
        Some(h) => {
            &&& first_hatch(before, h)
            &&& forall|j: int| 0 <= j < h ==> after[j] == egg_cycle_slot(#[trigger] before[j])
            &&& forall|j: int| h < j < before.len() ==> after[j] == #[trigger] before[j]
            &&& after[h] matches Some(p) && hatch_result_ok(rules, before[h]->0, p, stamp)
        },
        None => !any_hatch(before) && after == before.map_values(|s: Option<Pokemon>| egg_cycle_slot(s)),
    }
}

fn hatch(rules: &StepEventRules, pokemon: &mut Pokemon)
    requires
        old(pokemon).is_egg,
    ensures
        hatched_from(*rules, *old(pokemon), *final(pokemon)),
{
    let stats = calculate_stats(
        &pokemon.species,
        pokemon.level,
        pokemon.dvs,
        pokemon.hp_exp,
        pokemon.attack_exp,
        pokemon.defense_exp,
        pokemon.speed_exp,
        pokemon.special_exp,
    );
    pokemon.is_egg = false;
    pokemon.nickname = pokemon_species_display_name(pokemon.species.id.as_str());
    pokemon.happiness = rules.hatched_egg_happiness;
    pokemon.status = None;
    pokemon.sleep_turns = 0;
    pokemon.max_hp = stats.max_hp;
    pokemon.hp = stats.max_hp;
    pokemon.attack = stats.attack;
    pokemon.defense = stats.defense;
    pokemon.speed = stats.speed;
    pokemon.special_attack = stats.special_attack;
    pokemon.special_defense = stats.special_defense;
}

/// Counts down every egg in slot order; the first egg to reach zero hatches and ends the step.
pub fn process_egg_step(rules: &StepEventRules, party: &mut Party) -> (r: Option<EggHatchResult>)
    ensures
        egg_step_done(
            *rules,
            old(party).pokemon@,
            final(party).pokemon@,
            match r {
                Some(h) => Some(h.party_index as int),
                None => None,
            },
        ),
        r matches Some(h) ==> h.species_id@ == old(party).pokemon@[h.party_index as int]->0.species.id@,
{
    let ghost before = party.pokemon@;
    let n = party.pokemon.len();
    let mut i: usize = 0;
    while i < n
        invariant
            before == old(party).pokemon@,
            n == before.len(),
            i <= n,
            party.pokemon@.len() == n,
            forall|j: int| 0 <= j < i ==> !hatches(#[trigger] before[j]),
            forall|j: int| 0 <= j < i ==> party.pokemon@[j] == egg_cycle_slot(#[trigger] before[j]),
            forall|j: int| i <= j < n ==> party.pokemon@[j] == before[j],
        decreases n - i,
    {
        let hatching = match &mut party.pokemon[i] {
            Some(pokemon) => {
                if is_egg(rules, pokemon) {
                    pokemon.happiness = wrapping_dec(pokemon.happiness);
                    pokemon.happiness == 0
                } else {
                    false
                }
            },
            None => false,
        };
        if hatching {
            let ghost counted = party.pokemon@;
            proof {
                assert(first_hatch(before, i as int));
                assert(counted[i as int] == egg_cycle_slot(before[i as int]));
            }
            let species_id = match &party.pokemon[i] {
                Some(pokemon) => pokemon.species.id.clone(),
                None => String::new(),
            };
            match &mut party.pokemon[i] {
                Some(pokemon) => {
                    hatch(rules, pokemon);
                },
                None => {},
            }
            proof {
                assert(forall|j: int| 0 <= j < n && j != i ==> party.pokemon@[j] == counted[j]);
                assert(party.pokemon@[i as int] matches Some(p) && hatched_from(*rules, before[i as int]->0, p));
                assert(species_id@ == before[i as int]->0.species.id@);
                assert(forall|j: int| 0 <= j < i ==> party.pokemon@[j] == egg_cycle_slot(#[trigger] before[j]));
                assert(forall|j: int| i < j < before.len() ==> party.pokemon@[j] == #[trigger] before[j]);
                assert(egg_step_done(*rules, before, party.pokemon@, Some(i as int)));
            }
            return Some(EggHatchResult { party_index: i, species_id });
        }
        i += 1;
    }
    proof {
        assert(party.pokemon@ =~= before.map_values(|s: Option<Pokemon>| egg_cycle_slot(s)));
        assert(!any_hatch(before));
    }
    None
}

// ---- poison ----

pub open spec fn poison_hits(rules: StepEventRules, slot: Option<Pokemon>) -> bool {
    slot matches Some(p) && poisoned(rules, p) && p.hp > 0
}

/// One point of poison damage; a Pokemon brought to 0 HP loses its status.
pub open spec fn poison_damaged_slot(rules: StepEventRules, slot: Option<Pokemon>) -> Option<Pokemon> {
    match slot {
        Some(p) => if poisoned(rules, p) && p.hp > 0 {
            if p.hp == 1 {
                Some(Pokemon { hp: 0, status: None, ..p })
            } else {
                Some(Pokemon { hp: (p.hp - 1) as u16, ..p })
            }
        } else {
            slot
        },
        None => None,
    }
}

pub open spec fn faint_happiness_delta(h: u8) -> u8 {
    if h < 200 { 5 } else { 10 }
}

pub open spec fn faint_happiness(h: u8) -> u8 {
    if h < faint_happiness_delta(h) { 0 } else { (h - faint_happiness_delta(h)) as u8 }
}

/// Poison damage, and a happiness drop for a Pokemon that faints from it.
pub open spec fn poison_step_slot(rules: StepEventRules, slot: Option<Pokemon>) -> Option<Pokemon> {
    match slot {
        Some(p) => if poisoned(rules, p) && p.hp == 1 {
            Some(Pokemon { hp: 0, status: None, happiness: faint_happiness(p.happiness), ..p })
        } else {
            poison_damaged_slot(rules, slot)
        },
        None => None,
    }
}

/// Names of the poisoned Pokemon that take damage and stay standing.
pub open spec fn damaged_names(rules: StepEventRules, party: Seq<Option<Pokemon>>) -> Seq<Seq<char>>
    decreases party.len(),
{
    if party.len() == 0 {
        seq![]
    } else {
        let rest = damaged_names(rules, party.drop_last());
        match party.last() {
            Some(p) => if poisoned(rules, p) && p.hp > 1 { rest.push(event_name(p)) } else { rest },
            None => rest,
        }
    }
}

/// Names of the poisoned Pokemon that faint.
pub open spec fn fainted_names(rules: StepEventRules, party: Seq<Option<Pokemon>>) -> Seq<Seq<char>>
    decreases party.len(),
{
    if party.len() == 0 {
        seq![]
    } else {
        let rest = fainted_names(rules, party.drop_last());
        match party.last() {
            Some(p) => if poisoned(rules, p) && p.hp == 1 { rest.push(event_name(p)) } else { rest },
            None => rest,
        }
    }
}

/// Deals one point of poison damage to every poisoned, standing party Pokemon.
pub fn apply_poison_to_party(rules: &StepEventRules, party: &mut Party) -> (result: PoisonDamageResult)
    ensures
        final(party).pokemon@ == old(party).pokemon@.map_values(
            |s: Option<Pokemon>| poison_damaged_slot(*rules, s),
        ),
        texts(result.damaged_names) == damaged_names(*rules, old(party).pokemon@),
        texts(result.fainted_names) == fainted_names(*rules, old(party).pokemon@),
{
    let mut result = PoisonDamageResult { damaged_names: Vec::new(), fainted_names: Vec::new() };
    let ghost before = party.pokemon@;
    let n = party.pokemon.len();
    let mut i: usize = 0;
    while i < n
        invariant
            n == before.len(),
            i <= n,
            party.pokemon@.len() == n,
            forall|j: int| 0 <= j < i ==> party.pokemon@[j] == poison_damaged_slot(*rules, before[j]),
            forall|j: int| i <= j < n ==> party.pokemon@[j] == before[j],
            texts(result.damaged_names) == damaged_names(*rules, before.take(i as int)),
            texts(result.fainted_names) == fainted_names(*rules, before.take(i as int)),
        decreases n - i,
    {
        proof {
            assert(before.take(i + 1).drop_last() =~= before.take(i as int));
        }
        let slot = &mut party.pokemon[i];
        match slot {
            Some(pokemon) => {
                if is_poisoned(rules, pokemon) && pokemon.hp != 0 {
                    pokemon.hp = pokemon.hp - 1;
                    if pokemon.hp == 0 {
                        pokemon.status = None;
                        result.fainted_names.push(pokemon_event_name(pokemon));
                    } else {
                        result.damaged_names.push(pokemon_event_name(pokemon));
                    }
                }
            },
            None => {},
        }
        proof {
            assert(texts(result.damaged_names) =~= damaged_names(*rules, before.take(i + 1)));
            assert(texts(result.fainted_names) =~= fainted_names(*rules, before.take(i + 1)));
        }
        i += 1;
    }
    proof {
        assert(before.take(n as int) =~= before);
        assert(party.pokemon@ =~= before.map_values(|s: Option<Pokemon>| poison_damaged_slot(*rules, s)));
    }
    result
}

fn poison_faint_happiness_delta(happiness: u8) -> (d: u8)
    ensures
        d == faint_happiness_delta(happiness),
{
    if happiness < 200 { 5 } else { 10 }
}

/// `j` appears among the first `k` entries of `list`.
pub open spec fn listed_before(list: Seq<usize>, k: int, j: int) -> bool {
    exists|m: int| 0 <= m < k && list[m] == j
}

/// Lowers the happiness of each listed Pokemon that is now at 0 HP.
fn apply_poison_faint_happiness(party: &mut Party, poisoned_before_step: Vec<usize>)
    requires
        poisoned_before_step@.no_duplicates(),
        forall|k: int| 0 <= k < poisoned_before_step@.len() ==> #[trigger] poisoned_before_step@[k] < old(party).pokemon@.len(),
    ensures
        final(party).pokemon@.len() == old(party).pokemon@.len(),
        forall|j: int|
            0 <= j < old(party).pokemon@.len() ==> #[trigger] final(party).pokemon@[j] == (match old(party).pokemon@[j] {
                Some(p) => if listed_before(poisoned_before_step@, poisoned_before_step@.len() as int, j) && p.hp == 0 {
                    Some(Pokemon { happiness: faint_happiness(p.happiness), ..p })
                } else {
                    Some(p)
                },
                None => None,
            }),
{
    let ghost before = party.pokemon@;
    let ghost list = poisoned_before_step@;
    let mut k: usize = 0;
    while k < poisoned_before_step.len()
        invariant
            list == poisoned_before_step@,
            k <= list.len(),
            list.no_duplicates(),
            forall|m: int| 0 <= m < list.len() ==> #[trigger] list[m] < before.len(),
            party.pokemon@.len() == before.len(),
            forall|j: int|
                0 <= j < before.len() ==> #[trigger] party.pokemon@[j] == (match before[j] {
                    Some(p) => if listed_before(list, k as int, j) && p.hp == 0 {
                        Some(Pokemon { happiness: faint_happiness(p.happiness), ..p })
                    } else {
                        Some(p)
                    },
                    None => None,
                }),
        decreases list.len() - k,
    {
        let index = poisoned_before_step[k];
        proof {
            assert(!listed_before(list, k as int, index as int)) by {
                if listed_before(list, k as int, index as int) {
                    let m = choose|m: int| 0 <= m < k && list[m] == index;
                    assert(list[m] == list[k as int]);
                }
            }
            assert(listed_before(list, k + 1, index as int)) by {
                assert(list[k as int] == index);
            }
            assert forall|j: int| 0 <= j < before.len() && j != index implies #[trigger] listed_before(list, k + 1, j)
                == listed_before(list, k as int, j) by {
                if listed_before(list, k + 1, j) {
                    let m = choose|m: int| 0 <= m < k + 1 && list[m] == j;
                    assert(m != k);
                }
            }
        }
        match &mut party.pokemon[index] {
            Some(pokemon) => {
                if pokemon.hp == 0 {
                    let delta = poison_faint_happiness_delta(pokemon.happiness);
                    pokemon.happiness = if pokemon.happiness < delta { 0 } else { pokemon.happiness - delta };
                }
            },
            None => {},
        }
        k += 1;
    }
}

pub open spec fn poison_view(r: Option<PoisonDamageResult>) -> Option<(Seq<Seq<char>>, Seq<Seq<char>>)> {
    match r {
        Some(x) => Some((texts(x.damaged_names), texts(x.fainted_names))),
        None => None,
    }
}

/// The poison phase of a step, from counter and party before to counter, party and report after.
pub open spec fn poison_step_done(
    rules: StepEventRules,
    counter_before: u8,
    before: Seq<Option<Pokemon>>,
    counter_after: u8,
    after: Seq<Option<Pokemon>>,
    report: Option<(Seq<Seq<char>>, Seq<Seq<char>>)>,
) -> bool {
    if counter_before < rules.poison_step_interval {
        counter_after == counter_before && after == before && report is None
    } else {
        let damaged = damaged_names(rules, before);
        let fainted = fainted_names(rules, before);
        &&& counter_after == 0
        &&& after == before.map_values(|s: Option<Pokemon>| poison_step_slot(rules, s))
        &&& report == (if damaged.len() == 0 && fainted.len() == 0 {
            None
        } else {
            Some((damaged, fainted))
        })
    }
}

/// Every `poison_step_interval` steps, poison damages the party; fainting costs happiness.
pub fn process_poison_step(
    rules: &StepEventRules,
    counters: &mut StepEventCounters,
    party: &mut Party,
) -> (r: Option<PoisonDamageResult>)
    ensures
        poison_step_done(
            *rules,
            old(counters).poison_step_count,
            old(party).pokemon@,
            final(counters).poison_step_count,
            final(party).pokemon@,
            poison_view(r),
        ),
        final(counters).step_count == old(counters).step_count,
        final(counters).happiness_step_count == old(counters).happiness_step_count,
        final(counters).bike_step_count == old(counters).bike_step_count,
{
    if counters.poison_step_count < rules.poison_step_interval {
        return None;
    }
    counters.poison_step_count = 0;
    let ghost before = party.pokemon@;
    let mut poisoned_before_step: Vec<usize> = Vec::new();
    let n = party.pokemon.len();
    let mut i: usize = 0;
    while i < n
        invariant
            n == before.len(),
            party.pokemon@ == before,
            i <= n,
            poisoned_before_step@.no_duplicates(),
            forall|k: int| 0 <= k < poisoned_before_step@.len() ==> #[trigger] poisoned_before_step@[k] < i,
            forall|j: int| 0 <= j < i ==> (listed_before(poisoned_before_step@, poisoned_before_step@.len() as int, j) <==> poison_hits(*rules, #[trigger] before[j])),
        decreases n - i,
    {
        let hit = match &party.pokemon[i] {
            Some(pokemon) => is_poisoned(rules, pokemon) && pokemon.hp > 0,
            None => false,
        };
        let ghost old_list = poisoned_before_step@;
        if hit {
            poisoned_before_step.push(i);
        }
        proof {
            let l = poisoned_before_step@;
            assert forall|j: int| 0 <= j < i + 1 implies (listed_before(l, l.len() as int, j) <==> poison_hits(*rules, #[trigger] before[j])) by {
                if listed_before(l, l.len() as int, j) {
                    let m = choose|m: int| 0 <= m < l.len() && l[m] == j;
                    if m < old_list.len() {
                        assert(listed_before(old_list, old_list.len() as int, j));
                    }
                }
                if j < i && listed_before(old_list, old_list.len() as int, j) {
                    let m = choose|m: int| 0 <= m < old_list.len() && old_list[m] == j;
                    assert(l[m] == j);
                }
                if j == i && hit {
                    assert(l[old_list.len() as int] == i);
                }
                if j == i && listed_before(l, l.len() as int, j) {
                    let m = choose|m: int| 0 <= m < l.len() && l[m] == j;
                    if m < old_list.len() {
                        assert(old_list[m] < i);
                    }
                }
            }
            if hit {
                assert forall|a: int, b: int| 0 <= a < l.len() && 0 <= b < l.len() && a != b implies l[a] != l[b] by {
                    if a < old_list.len() && b < old_list.len() {
                    } else if a < old_list.len() {
                        assert(old_list[a] < i);
                    } else if b < old_list.len() {
                        assert(old_list[b] < i);
                    }
                }
            }
        }
        i += 1;
    }
    let ghost listed = poisoned_before_step@;
    let mut result = apply_poison_to_party(rules, party);
    let ghost damaged = party.pokemon@;
    apply_poison_faint_happiness(party, poisoned_before_step);
    proof {
        assert forall|j: int| 0 <= j < n implies #[trigger] party.pokemon@[j] == poison_step_slot(*rules, before[j]) by {
            assert(listed_before(listed, listed.len() as int, j) <==> poison_hits(*rules, before[j]));
            assert(damaged[j] == poison_damaged_slot(*rules, before[j]));
        }
        assert(party.pokemon@ =~= before.map_values(|s: Option<Pokemon>| poison_step_slot(*rules, s)));
    }
    if result.damaged_names.len() == 0 && result.fainted_names.len() == 0 {
        None
    } else {
        Some(result)
    }
}

// ---- one step ----

/// The step counter and happiness phase of one step: the counters, the party and the
/// names of the Pokemon whose happiness rose.
pub open spec fn counted_step(rules: StepEventRules, c0: StepEventCounters) -> (u8, u8, u8, bool) {
    let step = wrap_inc(c0.step_count);
    let poison = wrap_inc(c0.poison_step_count);
    let hc = if step == 0 { happiness_counter_after(rules, c0.happiness_step_count) } else { c0.happiness_step_count };
    let happy = step == 0 && hc == rules.happiness_step_counter_target;
    (step, poison, hc, happy)
}

pub open spec fn happiness_phase_party(rules: StepEventRules, c0: StepEventCounters, p0: Seq<Option<Pokemon>>) -> Seq<Option<Pokemon>> {
    if counted_step(rules, c0).3 { p0.map_values(|s: Option<Pokemon>| happiness_slot(s)) } else { p0 }
}

pub open spec fn happiness_phase_names(rules: StepEventRules, c0: StepEventCounters, p0: Seq<Option<Pokemon>>) -> Seq<Seq<char>> {
    if counted_step(rules, c0).3 { happiness_names(p0) } else { seq![] }
}

/// What one party step does: count, maybe raise happiness, cycle eggs on the trigger step
/// (a hatch ends the step), otherwise apply poison.
pub open spec fn step_done(
    rules: StepEventRules,
    c0: StepEventCounters,
    p0: Seq<Option<Pokemon>>,
    c: StepEventCounters,
    p: Seq<Option<Pokemon>>,
    r: StepEventResult,
) -> bool {
    step_done_stamped(rules, c0, p0, c, p, r, None)
}

pub open spec fn step_done_stamped(
    rules: StepEventRules,
    c0: StepEventCounters,
    p0: Seq<Option<Pokemon>>,
    c: StepEventCounters,
    p: Seq<Option<Pokemon>>,
    r: StepEventResult,
    stamp: Option<(CaughtData, u16, Seq<char>)>,
) -> bool {
    let (step, poison, hc, happy) = counted_step(rules, c0);
    let p1 = happiness_phase_party(rules, c0, p0);
    let egg_turn = step == rules.egg_step_trigger;
    &&& c.step_count == step
    &&& c.happiness_step_count == hc
    &&& texts(r.happiness_changed) == happiness_phase_names(rules, c0, p0)
    &&& r.repel_expired is None
    &&& if egg_turn && any_hatch(p1) {
        &&& r.egg_hatched
        &&& r.hatched_party_index matches Some(h) && egg_step_done_stamped(rules, p1, p, Some(h as int), stamp)
        &&& r.hatched_species matches Some(sp) && sp@ == p1[r.hatched_party_index->0 as int]->0.species.id@
        &&& r.poison_result is None
        &&& c.poison_step_count == poison
    } else {
        let p2 = if egg_turn { p1.map_values(|s: Option<Pokemon>| egg_cycle_slot(s)) } else { p1 };
        &&& !r.egg_hatched
        &&& r.hatched_party_index is None
        &&& r.hatched_species is None
        &&& poison_step_done(rules, poison, p2, c.poison_step_count, p, poison_view(r.poison_result))
    }
}

proof fn lemma_first_hatch_is_a_hatch(party: Seq<Option<Pokemon>>, h: int)
    requires
        first_hatch(party, h),
    ensures
        any_hatch(party),
{
    assert(hatches(party[h]));
}

/// One step of the party's step events.
pub fn process_step(rules: &StepEventRules, counters: &mut StepEventCounters, party: &mut Party) -> (r:
    StepEventResult)
    ensures
        step_done(*rules, *old(counters), old(party).pokemon@, *final(counters), final(party).pokemon@, r),
        final(counters).bike_step_count == old(counters).bike_step_count,
{
    counters.poison_step_count = wrapping_inc(counters.poison_step_count);
    counters.step_count = wrapping_inc(counters.step_count);
    let mut happiness_changed: Vec<String> = Vec::new();
    if counters.step_count == 0 {
        happiness_changed = apply_happiness_step(rules, counters, party);
    }
    let ghost p1 = party.pokemon@;
    proof {
        let c0 = *old(counters);
        assert(p1 == happiness_phase_party(*rules, c0, old(party).pokemon@));
        assert(texts(happiness_changed) =~= happiness_phase_names(*rules, c0, old(party).pokemon@));
        assert(counters.happiness_step_count == counted_step(*rules, c0).2);
        assert(counters.step_count == counted_step(*rules, c0).0);
        assert(counters.poison_step_count == counted_step(*rules, c0).1);
    }
    if counters.step_count == rules.egg_step_trigger {
        match process_egg_step(rules, party) {
            Some(hatch) => {
                proof {
                    lemma_first_hatch_is_a_hatch(p1, hatch.party_index as int);
                }
                return StepEventResult {
                    repel_expired: None,
                    egg_hatched: true,
                    hatched_species: Some(hatch.species_id),
                    hatched_party_index: Some(hatch.party_index),
                    poison_result: None,
                    happiness_changed,
                };
            },
            None => {},
        }
    }
    let poison_result = process_poison_step(rules, counters, party);
    StepEventResult {
        repel_expired: None,
        egg_hatched: false,
        hatched_species: None,
        hatched_party_index: None,
        poison_result,
        happiness_changed,
    }
}

/// One step, after checking that the rules are present and valid.
pub fn process_step_checked(
    rules: &StepEventRules,
    counters: &mut StepEventCounters,
    party: &mut Party,
) -> (r: Result<StepEventResult, StepEventError>)
    ensures
        step_error_of(r) == rules_error(*rules),
        r is Err ==> *final(counters) == *old(counters) && *final(party) == *old(party),
        r matches Ok(res) ==> step_done(*rules, *old(counters), old(party).pokemon@, *final(counters), final(party).pokemon@, res),
        final(counters).bike_step_count == old(counters).bike_step_count,
{
    require_step_event_rules(rules)?;
    Ok(process_step(rules, counters, party))
}


// ---- the Bike Shop call ----

/// The Bike Shop counter, call and flag after one bike step: while the Bike Shop call is
/// armed, biking on a map without phone service counts the step (the word sticks at `$ffff`);
/// from the 1024th step on, unless a special call is already waiting, the Bike Shop calls and
/// disarms itself.
pub open spec fn bike_step_done(
    armed0: Set<Seq<char>>,
    call0: Option<String>,
    bike0: u16,
    context: OverworldStepContext,
    armed: Set<Seq<char>>,
    call: Option<String>,
    bike: u16,
) -> bool {
    let flag = "STATUSFLAGS2_BIKE_SHOP_CALL_F"@;
    if !armed0.contains(flag) || context.movement_mode != MovementMode::Bike || context.map_phone_service >= 16 {
        armed == armed0 && call == call0 && bike == bike0
    } else {
        let counted: u16 = if bike0 == 65535 { 65535 } else { (bike0 + 1) as u16 };
        &&& bike == counted
        &&& if counted >= 1024 && call0 is None {
            call matches Some(c) && c@ == "SPECIALCALL_BIKESHOP"@ && armed == armed0.remove(flag)
        } else {
            call == call0 && armed == armed0
        }
    }
}

/// Counts a bike step toward the Bike Shop's phone call.
fn process_bike_step(state: &mut GameState, context: OverworldStepContext)
    ensures
        bike_step_done(
            old(state).flags.engine@,
            old(state).script_runtime.special_phone_call,
            old(state).step_events.bike_step_count,
            context,
            final(state).flags.engine@,
            final(state).script_runtime.special_phone_call,
            final(state).step_events.bike_step_count,
        ),
        *final(state) == (GameState {
            step_events: StepEventCounters {
                bike_step_count: final(state).step_events.bike_step_count,
                ..old(state).step_events
            },
            script_runtime: crate::state::ScriptRuntime {
                special_phone_call: final(state).script_runtime.special_phone_call,
                ..old(state).script_runtime
            },
            flags: Flags { engine: final(state).flags.engine, events: old(state).flags.events },
            ..*old(state)
        }),
{
    let armed = state.flags.engine.is_set("STATUSFLAGS2_BIKE_SHOP_CALL_F");
    if !armed || context.movement_mode != MovementMode::Bike || context.map_phone_service >= 16 {
        return;
    }
    let bike = state.step_events.bike_step_count;
    state.step_events.bike_step_count = if bike == 65535 { 65535 } else { bike + 1 };
    if state.step_events.bike_step_count < 1024 || state.script_runtime.special_phone_call.is_some() {
        return;
    }
    state.script_runtime.special_phone_call = Some(copy_text("SPECIALCALL_BIKESHOP"));
    state.flags.engine.set("STATUSFLAGS2_BIKE_SHOP_CALL_F", false);
}

// ---- the overworld step ----

/// The caught data, trainer id and trainer name an overworld hatch stamps on the Pokemon.
pub open spec fn hatch_stamp(s0: GameState, location: u16) -> (CaughtData, u16, Seq<char>) {
    (
        CaughtData {
            level: 1,
            time_of_day: Some(s0.time_of_day),
            original_trainer_gender: s0.player_gender,
            location: location as u8,
        },
        s0.player_id,
        s0.player_name@,
    )
}

/// An egg will hatch on this step: no repel runs out first, the egg trigger comes up and an
/// egg's counter is at one.
pub open spec fn hatch_ready(rules: StepEventRules, s0: GameState) -> bool {
    &&& s0.repel_steps_remaining != 1
    &&& wrap_inc(s0.step_events.step_count) == rules.egg_step_trigger
    &&& any_hatch(s0.storage.party.pokemon@)
}

/// The counters after the step-count phase.
pub open spec fn counted_counters(rules: StepEventRules, c0: StepEventCounters) -> StepEventCounters {
    StepEventCounters {
        step_count: counted_step(rules, c0).0,
        poison_step_count: counted_step(rules, c0).1,
        happiness_step_count: counted_step(rules, c0).2,
        bike_step_count: c0.bike_step_count,
    }
}

/// What an overworld step does to the game state and what it reports.
pub open spec fn overworld_step_done(
    rules: StepEventRules,
    s0: GameState,
    caught_location: Option<u16>,
    context: OverworldStepContext,
    s: GameState,
    r: Result<StepEventResult, StepEventError>,
) -> bool {
    let c0 = s0.step_events;
    let p0 = s0.storage.party.pokemon@;
    let step = counted_step(rules, c0).0;
    let poison = counted_step(rules, c0).1;
    let p1 = happiness_phase_party(rules, c0, p0);
    let names = happiness_phase_names(rules, c0, p0);
    let egg_turn = step == rules.egg_step_trigger;
    let repel = if s0.repel_steps_remaining > 0 { (s0.repel_steps_remaining - 1) as u8 } else { 0u8 };
    let active = if s0.repel_steps_remaining <= 1 { None } else { s0.active_repel_item };
    if caught_location is Some && caught_location->0 > 0x7f {
        step_error_of(r) == Some(StepEventErrorView::InvalidCaughtLocation { location: caught_location->0 })
            && s == s0
    } else if hatch_ready(rules, s0) && caught_location is None {
        step_error_of(r) == Some(StepEventErrorView::MissingCaughtLocation) && s == s0
    } else if s0.repel_steps_remaining == 1 && s0.active_repel_item is Some {
        &&& match r {
            Ok(res) => res.repel_expired == s0.active_repel_item && !res.egg_hatched
                && res.hatched_species is None && res.hatched_party_index is None
                && res.poison_result is None && res.happiness_changed@.len() == 0,
            Err(_) => false,
        }
        &&& s == GameState { repel_steps_remaining: 0, active_repel_item: None, party: s.party, ..s0 }
        &&& s.synced_from(s)
    } else if egg_turn && any_hatch(p1) {
        &&& match r {
            Ok(res) => match (res.hatched_party_index, res.hatched_species) {
                (Some(h), Some(sp)) => {
                    &&& res.repel_expired is None && res.egg_hatched && res.poison_result is None
                    &&& texts(res.happiness_changed) == names
                    &&& sp@ == p1[h as int]->0.species.id@
                    &&& egg_step_done_stamped(rules, p1, s.storage.party.pokemon@, Some(h as int),
                        Some(hatch_stamp(s0, caught_location->0)))
                    &&& s.pokedex.seen@ == s0.pokedex.seen@.insert(sp@)
                    &&& s.pokedex.caught@ == s0.pokedex.caught@.insert(sp@)
                    &&& s.flags.events@ == (if sp@ == "TOGEPI"@ {
                        s0.flags.events@.insert("EVENT_TOGEPI_HATCHED"@)
                    } else {
                        s0.flags.events@
                    })
                },
                _ => false,
            },
            Err(_) => false,
        }
        &&& s == GameState {
            step_events: counted_counters(rules, c0),
            storage: s.storage,
            party: s.party,
            repel_steps_remaining: repel,
            active_repel_item: active,
            pokedex: s.pokedex,
            flags: Flags { engine: s0.flags.engine, events: s.flags.events },
            ..s0
        }
        &&& s.synced_from(s)
    } else {
        let p2 = if egg_turn { p1.map_values(|slot: Option<Pokemon>| egg_cycle_slot(slot)) } else { p1 };
        &&& day_care_step_done(s0.day_care, s.day_care, r is Ok)
        &&& match r {
            Err(e) => {
                &&& e is DayCareDivider
                &&& s.storage.party.pokemon@ == p2
                &&& s == GameState {
                    step_events: counted_counters(rules, c0),
                    storage: s.storage,
                    repel_steps_remaining: repel,
                    active_repel_item: active,
                    day_care: s.day_care,
                    ..s0
                }
            },
            Ok(res) => {
                let fainted = res.poison_result matches Some(pr) && pr.fainted_names@.len() > 0;
                &&& res.repel_expired is None && !res.egg_hatched && res.hatched_species is None
                &&& res.hatched_party_index is None
                &&& texts(res.happiness_changed) == names
                &&& poison_step_done(rules, poison, p2, s.step_events.poison_step_count,
                    s.storage.party.pokemon@, poison_view(res.poison_result))
                &&& s.step_events.step_count == step
                &&& s.step_events.happiness_step_count == counted_step(rules, c0).2
                &&& if fainted {
                    s.step_events.bike_step_count == c0.bike_step_count
                        && s.script_runtime == s0.script_runtime && s.flags == s0.flags
                } else {
                    bike_step_done(s0.flags.engine@, s0.script_runtime.special_phone_call,
                        c0.bike_step_count, context, s.flags.engine@,
                        s.script_runtime.special_phone_call, s.step_events.bike_step_count)
                }
                &&& s == GameState {
                    step_events: s.step_events,
                    script_runtime: crate::state::ScriptRuntime {
                        special_phone_call: s.script_runtime.special_phone_call,
                        ..s0.script_runtime
                    },
                    flags: Flags { engine: s.flags.engine, events: s0.flags.events },
                    storage: s.storage,
                    party: s.party,
                    repel_steps_remaining: repel,
                    active_repel_item: active,
                    day_care: s.day_care,
                    ..s0
                }
                &&& s.synced_from(s)
            },
        }
    }
}

proof fn lemma_happiness_phase_keeps_eggs(rules: StepEventRules, c0: StepEventCounters, p0: Seq<Option<Pokemon>>)
    ensures
        any_hatch(happiness_phase_party(rules, c0, p0)) == any_hatch(p0),
        happiness_phase_party(rules, c0, p0).len() == p0.len(),
{
    let p1 = happiness_phase_party(rules, c0, p0);
    if counted_step(rules, c0).3 {
        assert forall|j: int| 0 <= j < p0.len() implies hatches(#[trigger] p1[j]) == hatches(p0[j]) by {
            assert(p1[j] == happiness_slot(p0[j]));
        }
        if any_hatch(p0) {
            let j = choose|j: int| 0 <= j < p0.len() && hatches(#[trigger] p0[j]);
            assert(hatches(p1[j]));
        }
        if any_hatch(p1) {
            let j = choose|j: int| 0 <= j < p1.len() && hatches(#[trigger] p1[j]);
            assert(hatches(p0[j]));
        }
    }
}

/// One overworld step: repel upkeep, the step counters, happiness, egg cycles (a hatch is
/// stamped with the map's landmark and the player as trainer), Day-Care upkeep, poison and
/// the Bike Shop call.
pub fn process_overworld_step<S: DividerSource>(
    state: &mut GameState,
    rules: &StepEventRules,
    caught_location: Option<u16>,
    context: OverworldStepContext,
    rng: &mut S,
) -> (r: Result<StepEventResult, StepEventError>)
    requires
        !(old(state).repel_steps_remaining == 1 && old(state).active_repel_item is None
            && wrap_inc(old(state).step_events.step_count) == rules.egg_step_trigger
            && any_hatch(old(state).storage.party.pokemon@) && caught_location is None),
    ensures
        overworld_step_done(*rules, *old(state), caught_location, context, *final(state), r),
{
    let ghost s0 = *state;
    match caught_location {
        Some(location) => {
            if location > 0x7f {
                return Err(StepEventError::InvalidCaughtLocation { location });
            }
        },
        None => {},
    }
    let hatch_ready_on_this_step = state.repel_steps_remaining != 1
        && wrapping_inc(state.step_events.step_count) == rules.egg_step_trigger
        && party_has_hatching_egg(&state.storage.party);
    if hatch_ready_on_this_step && caught_location.is_none() {
        return Err(StepEventError::MissingCaughtLocation);
    }
    if state.repel_steps_remaining > 0 {
        let expired = state.tick_repel_step_after_movement();
        match expired {
            Some(item_id) => {
                state.sync_party_from_storage();
                return Ok(StepEventResult {
                    repel_expired: Some(item_id),
                    egg_hatched: false,
                    hatched_species: None,
                    hatched_party_index: None,
                    poison_result: None,
                    happiness_changed: Vec::new(),
                });
            },
            None => {},
        }
    } else {
        state.active_repel_item = None;
    }
    state.step_events.poison_step_count = wrapping_inc(state.step_events.poison_step_count);
    state.step_events.step_count = wrapping_inc(state.step_events.step_count);
    let mut happiness_changed: Vec<String> = Vec::new();
    if state.step_events.step_count == 0 {
        happiness_changed = apply_happiness_step(rules, &mut state.step_events, &mut state.storage.party);
    }
    let ghost p1 = state.storage.party.pokemon@;
    proof {
        let c0 = s0.step_events;
        lemma_happiness_phase_keeps_eggs(*rules, c0, s0.storage.party.pokemon@);
        assert(p1 == happiness_phase_party(*rules, c0, s0.storage.party.pokemon@));
        assert(texts(happiness_changed) =~= happiness_phase_names(*rules, c0, s0.storage.party.pokemon@));
        assert(state.step_events == counted_counters(*rules, c0));
    }
    if state.step_events.step_count == rules.egg_step_trigger {
        match process_egg_step(rules, &mut state.storage.party) {
            Some(hatch) => {
                proof {
                    lemma_first_hatch_is_a_hatch(p1, hatch.party_index as int);
                }
                let location = caught_location.unwrap();
                let time_of_day = state.time_of_day;
                let gender = state.player_gender;
                let trainer_id = state.player_id;
                let trainer_name = copy_text(state.player_name.as_str());
                let index = hatch.party_index;
                let ghost hatched_party = state.storage.party.pokemon@;
                match &mut state.storage.party.pokemon[index] {
                    Some(pokemon) => {
                        pokemon.caught_data = Some(CaughtData {
                            level: 1,
                            time_of_day: Some(time_of_day),
                            original_trainer_gender: gender,
                            location: location as u8,
                        });
                        pokemon.original_trainer_id = trainer_id;
                        pokemon.original_trainer_name = trainer_name;
                    },
                    None => {},
                }
                proof {
                    let stamped = state.storage.party.pokemon@;
                    assert(forall|j: int| 0 <= j < stamped.len() && j != index ==> stamped[j] == hatched_party[j]);
                    assert(egg_step_done_stamped(*rules, p1, stamped, Some(index as int),
                        Some(hatch_stamp(s0, location))));
                }
                state.pokedex.record_caught_species(hatch.species_id.as_str());
                if text_eq(hatch.species_id.as_str(), "TOGEPI") {
                    state.flags.events.set("EVENT_TOGEPI_HATCHED", true);
                }
                state.sync_party_from_storage();
                return Ok(StepEventResult {
                    repel_expired: None,
                    egg_hatched: true,
                    hatched_species: Some(hatch.species_id),
                    hatched_party_index: Some(hatch.party_index),
                    poison_result: None,
                    happiness_changed,
                });
            },
            None => {},
        }
    }
    match advance_day_care_step(&mut state.day_care, rng) {
        Ok(()) => {},
        Err(DayCareStepError::Divider(message)) => {
            return Err(StepEventError::DayCareDivider { message });
        },
    }
    let poison_result = process_poison_step(rules, &mut state.step_events, &mut state.storage.party);
    let poison_fainted = match &poison_result {
        Some(result) => result.fainted_names.len() > 0,
        None => false,
    };
    if !poison_fainted {
        process_bike_step(state, context);
    }
    let result = StepEventResult {
        repel_expired: None,
        egg_hatched: false,
        hatched_species: None,
        hatched_party_index: None,
        poison_result,
        happiness_changed,
    };
    state.sync_party_from_storage();
    Ok(result)
}

/// Whether some party egg's counter is at one.
fn party_has_hatching_egg(party: &Party) -> (b: bool)
    ensures
        b == any_hatch(party.pokemon@),
{
    let n = party.pokemon.len();
    let mut i: usize = 0;
    while i < n
        invariant
            n == party.pokemon@.len(),
            i <= n,
            forall|j: int| 0 <= j < i ==> !hatches(#[trigger] party.pokemon@[j]),
        decreases n - i,
    {
        match &party.pokemon[i] {
            Some(p) => {
                if p.is_egg && p.happiness == 1 {
                    assert(hatches(party.pokemon@[i as int]));
                    return true;
                }
            },
            None => {},
        }
        i += 1;
    }
    false
}

/// One overworld step, after checking that the rules are present and valid.
pub fn process_overworld_step_checked<S: DividerSource>(
    state: &mut GameState,
    rules: &StepEventRules,
    caught_location: Option<u16>,
    context: OverworldStepContext,
    rng: &mut S,
) -> (r: Result<StepEventResult, StepEventError>)
    requires
        rules_error(*rules) is None ==> !(old(state).repel_steps_remaining == 1 && old(state).active_repel_item is None
            && wrap_inc(old(state).step_events.step_count) == rules.egg_step_trigger
            && any_hatch(old(state).storage.party.pokemon@) && caught_location is None),
    ensures
        rules_error(*rules) matches Some(e) ==> step_error_of(r) == Some(e) && *final(state) == *old(state),
        rules_error(*rules) is None ==> overworld_step_done(*rules, *old(state), caught_location, context,
            *final(state), r),
{
    require_step_event_rules(rules)?;
    process_overworld_step(state, rules, caught_location, context, rng)
}

} // verus!
