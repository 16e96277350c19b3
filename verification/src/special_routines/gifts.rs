//! Gift and prize data of the pack: Dratini's move sets, Kurt's apricorn recipes, the
//! Buena prizes and Shuckie.
use vstd::prelude::*;
use crate::ordered::{ByteMap, TextMap, TextSet};
use crate::special_routines::battle_tower::views_of;
use crate::special_routines::checks::{concat_issues, first_error, lemma_first_error_stays};
use crate::special_routines::tokens::is_exact_nonempty_special_token;
use crate::items::{Bag, Item};
use crate::pokemon::{LearnedMove, Party, Pokemon};
use crate::special_routines::errors::SpecialRoutineError;
use crate::special_routines::numbers::{invalid_numeric_value, numeric_error};
use crate::text::{copy_text, decimal_digits, decimal_text, is_blank, is_blank_text, is_exact_token, text_eq};

verus! {

// ---- Dratini ----

/// The moves of each Dratini mode, by mode byte.
pub type DratiniMoveSets = ByteMap<Vec<String>>;

/// The pack's Dratini move sets.
#[derive(Debug, PartialEq, Eq)]
pub struct DratiniMoveSetTable(pub DratiniMoveSets);

/// A problem with a Dratini move set.
#[derive(Debug, PartialEq, Eq)]
pub enum DratiniMoveSetIssue {
    EmptyMoveSet { mode: u8 },
    InvalidMove { mode: u8, move_index: usize, move_id: String },
    UnknownMove { mode: u8, move_index: usize, move_id: String },
}

pub enum DratiniMoveSetIssueView {
    EmptyMoveSet { mode: u8 },
    InvalidMove { mode: u8, move_index: usize, move_id: Seq<char> },
    UnknownMove { mode: u8, move_index: usize, move_id: Seq<char> },
}

impl View for DratiniMoveSetIssue {
    type V = DratiniMoveSetIssueView;

    open spec fn view(&self) -> DratiniMoveSetIssueView {
        match self {
            DratiniMoveSetIssue::EmptyMoveSet { mode } => DratiniMoveSetIssueView::EmptyMoveSet { mode: *mode },
            DratiniMoveSetIssue::InvalidMove { mode, move_index, move_id } => DratiniMoveSetIssueView::InvalidMove {
                mode: *mode,
                move_index: *move_index,
                move_id: move_id@,
            },
            DratiniMoveSetIssue::UnknownMove { mode, move_index, move_id } => DratiniMoveSetIssueView::UnknownMove {
                mode: *mode,
                move_index: *move_index,
                move_id: move_id@,
            },
        }
    }
}

pub open spec fn dratini_issue_views(v: Seq<DratiniMoveSetIssue>) -> Seq<DratiniMoveSetIssueView> {
    v.map_values(|i: DratiniMoveSetIssue| i@)
}

pub open spec fn dratini_move_issue(mode: u8, moves: Seq<String>, known: Set<Seq<char>>, j: int) -> Seq<
    DratiniMoveSetIssueView,
> {
    let m = moves[j]@;
    if !is_exact_token(m) {
        seq![DratiniMoveSetIssueView::InvalidMove { mode, move_index: j as usize, move_id: m }]
    } else if !known.contains(m) {
        seq![DratiniMoveSetIssueView::UnknownMove { mode, move_index: j as usize, move_id: m }]
    } else {
        seq![]
    }
}

pub open spec fn dratini_move_checks(mode: u8, moves: Seq<String>, known: Set<Seq<char>>) -> spec_fn(int) -> Seq<
    DratiniMoveSetIssueView,
> {
    |j: int| dratini_move_issue(mode, moves, known, j)
}

/// The issues of mode `k`, if the table has a move set there.
pub open spec fn dratini_mode_issues(sets: Seq<Option<Vec<String>>>, known: Set<Seq<char>>, k: int) -> Seq<
    DratiniMoveSetIssueView,
> {
    match sets[k] {
        Some(moves) => {
            let head: Seq<DratiniMoveSetIssueView> = if moves@.len() == 0 {
                seq![DratiniMoveSetIssueView::EmptyMoveSet { mode: k as u8 }]
            } else {
                seq![]
            };
            head + concat_issues(dratini_move_checks(k as u8, moves@, known), moves@.len() as int)
        },
        None => seq![],
    }
}

pub open spec fn dratini_mode_checks(sets: Seq<Option<Vec<String>>>, known: Set<Seq<char>>) -> spec_fn(int) -> Seq<
    DratiniMoveSetIssueView,
> {
    |k: int| dratini_mode_issues(sets, known, k)
}

fn dratini_set_issues(mode: u8, moves: &Vec<String>, move_ids: &TextSet) -> (issues: Vec<DratiniMoveSetIssue>)
    ensures
        dratini_issue_views(issues@) == (if moves@.len() == 0 {
            seq![DratiniMoveSetIssueView::EmptyMoveSet { mode }]
        } else {
            Seq::<DratiniMoveSetIssueView>::empty()
        }) + concat_issues(dratini_move_checks(mode, moves@, move_ids.view()), moves@.len() as int),
{
    let mut issues: Vec<DratiniMoveSetIssue> = Vec::new();
    if moves.len() == 0 {
        issues.push(DratiniMoveSetIssue::EmptyMoveSet { mode });
    }
    let ghost head = dratini_issue_views(issues@);
    let ghost f = dratini_move_checks(mode, moves@, move_ids.view());
    let mut j: usize = 0;
    while j < moves.len()
        invariant
            j <= moves@.len(),
            f == dratini_move_checks(mode, moves@, move_ids.view()),
            dratini_issue_views(issues@) == head + concat_issues(f, j as int),
        decreases moves.len() - j,
    {
        let ghost before = dratini_issue_views(issues@);
        let m = &moves[j];
        if !is_exact_nonempty_special_token(m.as_str()) {
            issues.push(DratiniMoveSetIssue::InvalidMove { mode, move_index: j, move_id: copy_text(m.as_str()) });
        } else if !move_ids.contains(m.as_str()) {
            issues.push(DratiniMoveSetIssue::UnknownMove { mode, move_index: j, move_id: copy_text(m.as_str()) });
        }
        proof {
            assert(dratini_issue_views(issues@) =~= before + f(j as int));
            assert(head + concat_issues(f, j + 1) =~= head + concat_issues(f, j as int) + f(j as int));
        }
        j += 1;
    }
    proof {
        if moves@.len() == 0 {
            assert(head =~= seq![DratiniMoveSetIssueView::EmptyMoveSet { mode }]);
        } else {
            assert(head =~= Seq::<DratiniMoveSetIssueView>::empty());
        }
    }
    issues
}

/// Every problem with the Dratini move sets, by ascending mode: an empty set, and moves that
/// are malformed or not moves of the pack.
pub fn dratini_move_set_issues(move_sets: &DratiniMoveSets, move_ids: &TextSet) -> (issues: Vec<
    DratiniMoveSetIssue,
>)
    ensures
        dratini_issue_views(issues@) == concat_issues(dratini_mode_checks(move_sets.slots(), move_ids.view()), 256),
{
    let mut issues: Vec<DratiniMoveSetIssue> = Vec::new();
    let ghost f = dratini_mode_checks(move_sets.slots(), move_ids.view());
    let mut k: usize = 0;
    while k < 256
        invariant
            k <= 256,
            f == dratini_mode_checks(move_sets.slots(), move_ids.view()),
            dratini_issue_views(issues@) == concat_issues(f, k as int),
        decreases 256 - k,
    {
        let ghost before = issues@;
        match move_sets.get(k as u8) {
            Some(moves) => {
                let mut part = dratini_set_issues(k as u8, moves, move_ids);
                let ghost p = part@;
                issues.append(&mut part);
                proof {
                    assert(issues@ == before + p);
                    assert(dratini_issue_views(issues@) =~= dratini_issue_views(before) + dratini_issue_views(p));
                }
            },
            None => {},
        }
        proof {
            assert(dratini_issue_views(issues@) =~= concat_issues(f, k as int) + f(k as int));
        }
        k += 1;
    }
    issues
}

// ---- Kurt ----

/// Kurt's recipes: apricorn item to ball item.
pub type KurtApricornRecipes = TextMap<String>;

#[derive(Debug, PartialEq, Eq)]
pub struct KurtApricornRecipeTable(pub KurtApricornRecipes);

/// A problem with one of Kurt's recipes.
#[derive(Debug, PartialEq, Eq)]
pub enum KurtApricornRecipeIssue {
    EmptyApricorn { apricorn: String },
    InvalidApricorn { apricorn: String },
    UnknownApricorn { apricorn: String },
    EmptyBall { apricorn: String },
    InvalidBall { apricorn: String, ball: String },
    UnknownBall { apricorn: String, ball: String },
}

pub enum KurtApricornRecipeIssueView {
    EmptyApricorn { apricorn: Seq<char> },
    InvalidApricorn { apricorn: Seq<char> },
    UnknownApricorn { apricorn: Seq<char> },
    EmptyBall { apricorn: Seq<char> },
    InvalidBall { apricorn: Seq<char>, ball: Seq<char> },
    UnknownBall { apricorn: Seq<char>, ball: Seq<char> },
}

impl View for KurtApricornRecipeIssue {
    type V = KurtApricornRecipeIssueView;

    open spec fn view(&self) -> KurtApricornRecipeIssueView {
        match self {
            KurtApricornRecipeIssue::EmptyApricorn { apricorn } => KurtApricornRecipeIssueView::EmptyApricorn {
                apricorn: apricorn@,
            },
            KurtApricornRecipeIssue::InvalidApricorn { apricorn } => KurtApricornRecipeIssueView::InvalidApricorn {
                apricorn: apricorn@,
            },
            KurtApricornRecipeIssue::UnknownApricorn { apricorn } => KurtApricornRecipeIssueView::UnknownApricorn {
                apricorn: apricorn@,
            },
            KurtApricornRecipeIssue::EmptyBall { apricorn } => KurtApricornRecipeIssueView::EmptyBall {
                apricorn: apricorn@,
            },
            KurtApricornRecipeIssue::InvalidBall { apricorn, ball } => KurtApricornRecipeIssueView::InvalidBall {
                apricorn: apricorn@,
                ball: ball@,
            },
            KurtApricornRecipeIssue::UnknownBall { apricorn, ball } => KurtApricornRecipeIssueView::UnknownBall {
                apricorn: apricorn@,
                ball: ball@,
            },
        }
    }
}

pub open spec fn kurt_issue_views(v: Seq<KurtApricornRecipeIssue>) -> Seq<KurtApricornRecipeIssueView> {
    v.map_values(|i: KurtApricornRecipeIssue| i@)
}

pub open spec fn kurt_recipe_issues(apricorn: Seq<char>, ball: Seq<char>, items: Set<Seq<char>>) -> Seq<
    KurtApricornRecipeIssueView,
> {
    let a: Seq<KurtApricornRecipeIssueView> = if apricorn.len() == 0 {
        seq![KurtApricornRecipeIssueView::EmptyApricorn { apricorn }]
    } else if !is_exact_token(apricorn) {
        seq![KurtApricornRecipeIssueView::InvalidApricorn { apricorn }]
    } else if !items.contains(apricorn) {
        seq![KurtApricornRecipeIssueView::UnknownApricorn { apricorn }]
    } else {
        seq![]
    };
    let b: Seq<KurtApricornRecipeIssueView> = if ball.len() == 0 {
        seq![KurtApricornRecipeIssueView::EmptyBall { apricorn }]
    } else if !is_exact_token(ball) {
        seq![KurtApricornRecipeIssueView::InvalidBall { apricorn, ball }]
    } else if !items.contains(ball) {
        seq![KurtApricornRecipeIssueView::UnknownBall { apricorn, ball }]
    } else {
        seq![]
    };
    a + b
}

pub open spec fn kurt_recipe_checks(recipes: KurtApricornRecipes, items: Set<Seq<char>>) -> spec_fn(int) -> Seq<
    KurtApricornRecipeIssueView,
> {
    |i: int| kurt_recipe_issues(recipes.key_seq()[i], recipes.value_seq()[i]@, items)
}

/// Every problem with Kurt's recipes, by apricorn: empty, malformed or unknown apricorns and balls.
pub fn kurt_apricorn_recipe_issues(recipes: &KurtApricornRecipes, item_ids: &TextSet) -> (issues: Vec<
    KurtApricornRecipeIssue,
>)
    ensures
        kurt_issue_views(issues@) == concat_issues(kurt_recipe_checks(*recipes, item_ids.view()), recipes.key_seq().len() as int),
{
    let mut issues: Vec<KurtApricornRecipeIssue> = Vec::new();
    let ghost f = kurt_recipe_checks(*recipes, item_ids.view());
    let n = recipes.len();
    let mut i: usize = 0;
    while i < n
        invariant
            n == recipes.key_seq().len(),
            n == recipes.value_seq().len(),
            f == kurt_recipe_checks(*recipes, item_ids.view()),
            i <= n,
            kurt_issue_views(issues@) == concat_issues(f, i as int),
        decreases n - i,
    {
        let ghost before = kurt_issue_views(issues@);
        let apricorn = recipes.key_at(i);
        let ball = recipes.value_at(i);
        if apricorn.as_str().is_empty() {
            issues.push(KurtApricornRecipeIssue::EmptyApricorn { apricorn: copy_text(apricorn.as_str()) });
        } else if !is_exact_nonempty_special_token(apricorn.as_str()) {
            issues.push(KurtApricornRecipeIssue::InvalidApricorn { apricorn: copy_text(apricorn.as_str()) });
        } else if !item_ids.contains(apricorn.as_str()) {
            issues.push(KurtApricornRecipeIssue::UnknownApricorn { apricorn: copy_text(apricorn.as_str()) });
        }
        if ball.as_str().is_empty() {
            issues.push(KurtApricornRecipeIssue::EmptyBall { apricorn: copy_text(apricorn.as_str()) });
        } else if !is_exact_nonempty_special_token(ball.as_str()) {
            issues.push(
                KurtApricornRecipeIssue::InvalidBall {
                    apricorn: copy_text(apricorn.as_str()),
                    ball: copy_text(ball.as_str()),
                },
            );
        } else if !item_ids.contains(ball.as_str()) {
            issues.push(
                KurtApricornRecipeIssue::UnknownBall {
                    apricorn: copy_text(apricorn.as_str()),
                    ball: copy_text(ball.as_str()),
                },
            );
        }
        proof {
            assert(kurt_issue_views(issues@) =~= before + f(i as int));
        }
        i += 1;
    }
    issues
}

// ---- Buena prizes ----

/// Buena's prizes: item to point cost.
pub type BuenaPrizeDefinitions = TextMap<u8>;

#[derive(Debug, PartialEq, Eq)]
pub struct BuenaPrizeDefinitionTable(pub BuenaPrizeDefinitions);

/// A problem with one of Buena's prizes.
#[derive(Debug, PartialEq, Eq)]
pub enum BuenaPrizeDefinitionIssue {
    EmptyItem { item_id: String },
    InvalidItem { item_id: String },
    UnknownItem { item_id: String },
    InvalidCost { item_id: String },
}

pub enum BuenaPrizeDefinitionIssueView {
    EmptyItem { item_id: Seq<char> },
    InvalidItem { item_id: Seq<char> },
    UnknownItem { item_id: Seq<char> },
    InvalidCost { item_id: Seq<char> },
}

impl View for BuenaPrizeDefinitionIssue {
    type V = BuenaPrizeDefinitionIssueView;

    open spec fn view(&self) -> BuenaPrizeDefinitionIssueView {
        match self {
            BuenaPrizeDefinitionIssue::EmptyItem { item_id } => BuenaPrizeDefinitionIssueView::EmptyItem {
                item_id: item_id@,
            },
            BuenaPrizeDefinitionIssue::InvalidItem { item_id } => BuenaPrizeDefinitionIssueView::InvalidItem {
                item_id: item_id@,
            },
            BuenaPrizeDefinitionIssue::UnknownItem { item_id } => BuenaPrizeDefinitionIssueView::UnknownItem {
                item_id: item_id@,
            },
            BuenaPrizeDefinitionIssue::InvalidCost { item_id } => BuenaPrizeDefinitionIssueView::InvalidCost {
                item_id: item_id@,
            },
        }
    }
}

pub open spec fn prize_issue_views(v: Seq<BuenaPrizeDefinitionIssue>) -> Seq<BuenaPrizeDefinitionIssueView> {
    v.map_values(|i: BuenaPrizeDefinitionIssue| i@)
}

pub open spec fn prize_issues(item: Seq<char>, cost: u8, items: Set<Seq<char>>) -> Seq<BuenaPrizeDefinitionIssueView> {
    let a: Seq<BuenaPrizeDefinitionIssueView> = if item.len() == 0 {
        seq![BuenaPrizeDefinitionIssueView::EmptyItem { item_id: item }]
    } else if !is_exact_token(item) {
        seq![BuenaPrizeDefinitionIssueView::InvalidItem { item_id: item }]
    } else if !items.contains(item) {
        seq![BuenaPrizeDefinitionIssueView::UnknownItem { item_id: item }]
    } else {
        seq![]
    };
    let b: Seq<BuenaPrizeDefinitionIssueView> = if cost == 0 {
        seq![BuenaPrizeDefinitionIssueView::InvalidCost { item_id: item }]
    } else {
        seq![]
    };
    a + b
}

pub open spec fn prize_checks(prizes: BuenaPrizeDefinitions, items: Set<Seq<char>>) -> spec_fn(int) -> Seq<
    BuenaPrizeDefinitionIssueView,
> {
    |i: int| prize_issues(prizes.key_seq()[i], prizes.value_seq()[i], items)
}

/// Every problem with Buena's prizes, by item: empty, malformed or unknown items, and zero costs.
pub fn buena_prize_definition_issues(prizes: &BuenaPrizeDefinitions, item_ids: &TextSet) -> (issues: Vec<
    BuenaPrizeDefinitionIssue,
>)
    ensures
        prize_issue_views(issues@) == concat_issues(prize_checks(*prizes, item_ids.view()), prizes.key_seq().len() as int),
{
    let mut issues: Vec<BuenaPrizeDefinitionIssue> = Vec::new();
    let ghost f = prize_checks(*prizes, item_ids.view());
    let n = prizes.len();
    let mut i: usize = 0;
    while i < n
        invariant
            n == prizes.key_seq().len(),
            n == prizes.value_seq().len(),
            f == prize_checks(*prizes, item_ids.view()),
            i <= n,
            prize_issue_views(issues@) == concat_issues(f, i as int),
        decreases n - i,
    {
        let ghost before = prize_issue_views(issues@);
        let item = prizes.key_at(i);
        let cost = *prizes.value_at(i);
        if item.as_str().is_empty() {
            issues.push(BuenaPrizeDefinitionIssue::EmptyItem { item_id: copy_text(item.as_str()) });
        } else if !is_exact_nonempty_special_token(item.as_str()) {
            issues.push(BuenaPrizeDefinitionIssue::InvalidItem { item_id: copy_text(item.as_str()) });
        } else if !item_ids.contains(item.as_str()) {
            issues.push(BuenaPrizeDefinitionIssue::UnknownItem { item_id: copy_text(item.as_str()) });
        }
        if cost == 0 {
            issues.push(BuenaPrizeDefinitionIssue::InvalidCost { item_id: copy_text(item.as_str()) });
        }
        proof {
            assert(prize_issue_views(issues@) =~= before + f(i as int));
        }
        i += 1;
    }
    issues
}

// ---- Shuckie ----

/// The Shuckle a Cianwood resident lends the player.
#[derive(Debug, PartialEq, Eq)]
pub struct ShuckieGiftDefinition {
    pub species: String,
    pub level: u8,
    pub held_item: String,
    pub nickname: String,
    pub original_trainer_name: String,
    pub original_trainer_id: u16,
    pub got_today_engine_flag: String,
}

/// A problem with the Shuckie gift.
#[derive(Debug, PartialEq, Eq)]
pub enum ShuckieGiftIssue {
    EmptySpecies,
    InvalidSpecies { species: String },
    UnknownSpecies { species: String },
    InvalidLevel,
    EmptyHeldItem,
    InvalidHeldItem { held_item: String },
    UnknownHeldItem { held_item: String },
    EmptyName,
    EmptyEngineFlag,
    InvalidEngineFlag { engine_flag: String },
    UnknownEngineFlag { engine_flag: String },
}

pub enum ShuckieGiftIssueView {
    EmptySpecies,
    InvalidSpecies { species: Seq<char> },
    UnknownSpecies { species: Seq<char> },
    InvalidLevel,
    EmptyHeldItem,
    InvalidHeldItem { held_item: Seq<char> },
    UnknownHeldItem { held_item: Seq<char> },
    EmptyName,
    EmptyEngineFlag,
    InvalidEngineFlag { engine_flag: Seq<char> },
    UnknownEngineFlag { engine_flag: Seq<char> },
}

impl View for ShuckieGiftIssue {
    type V = ShuckieGiftIssueView;

    open spec fn view(&self) -> ShuckieGiftIssueView {
        match self {
            ShuckieGiftIssue::EmptySpecies => ShuckieGiftIssueView::EmptySpecies,
            ShuckieGiftIssue::InvalidSpecies { species } => ShuckieGiftIssueView::InvalidSpecies { species: species@ },
            ShuckieGiftIssue::UnknownSpecies { species } => ShuckieGiftIssueView::UnknownSpecies { species: species@ },
            ShuckieGiftIssue::InvalidLevel => ShuckieGiftIssueView::InvalidLevel,
            ShuckieGiftIssue::EmptyHeldItem => ShuckieGiftIssueView::EmptyHeldItem,
            ShuckieGiftIssue::InvalidHeldItem { held_item } => ShuckieGiftIssueView::InvalidHeldItem {
                held_item: held_item@,
            },
            ShuckieGiftIssue::UnknownHeldItem { held_item } => ShuckieGiftIssueView::UnknownHeldItem {
                held_item: held_item@,
            },
            ShuckieGiftIssue::EmptyName => ShuckieGiftIssueView::EmptyName,
            ShuckieGiftIssue::EmptyEngineFlag => ShuckieGiftIssueView::EmptyEngineFlag,
            ShuckieGiftIssue::InvalidEngineFlag { engine_flag } => ShuckieGiftIssueView::InvalidEngineFlag {
                engine_flag: engine_flag@,
            },
            ShuckieGiftIssue::UnknownEngineFlag { engine_flag } => ShuckieGiftIssueView::UnknownEngineFlag {
                engine_flag: engine_flag@,
            },
        }
    }
}

pub open spec fn shuckie_issue_views(v: Seq<ShuckieGiftIssue>) -> Seq<ShuckieGiftIssueView> {
    v.map_values(|i: ShuckieGiftIssue| i@)
}

pub open spec fn shuckie_species_part(g: ShuckieGiftDefinition, species: Set<Seq<char>>) -> Seq<ShuckieGiftIssueView> {
    if is_blank(g.species@) {
        seq![ShuckieGiftIssueView::EmptySpecies]
    } else if !is_exact_token(g.species@) {
        seq![ShuckieGiftIssueView::InvalidSpecies { species: g.species@ }]
    } else if !species.contains(g.species@) {
        seq![ShuckieGiftIssueView::UnknownSpecies { species: g.species@ }]
    } else {
        seq![]
    }
}

pub open spec fn shuckie_item_part(g: ShuckieGiftDefinition, items: Set<Seq<char>>) -> Seq<ShuckieGiftIssueView> {
    if is_blank(g.held_item@) {
        seq![ShuckieGiftIssueView::EmptyHeldItem]
    } else if !is_exact_token(g.held_item@) {
        seq![ShuckieGiftIssueView::InvalidHeldItem { held_item: g.held_item@ }]
    } else if !items.contains(g.held_item@) {
        seq![ShuckieGiftIssueView::UnknownHeldItem { held_item: g.held_item@ }]
    } else {
        seq![]
    }
}

pub open spec fn shuckie_flag_part(g: ShuckieGiftDefinition, engine_flags: Set<Seq<char>>) -> Seq<ShuckieGiftIssueView> {
    if is_blank(g.got_today_engine_flag@) {
        seq![ShuckieGiftIssueView::EmptyEngineFlag]
    } else if !is_exact_token(g.got_today_engine_flag@) {
        seq![ShuckieGiftIssueView::InvalidEngineFlag { engine_flag: g.got_today_engine_flag@ }]
    } else if !engine_flags.contains(g.got_today_engine_flag@) {
        seq![ShuckieGiftIssueView::UnknownEngineFlag { engine_flag: g.got_today_engine_flag@ }]
    } else {
        seq![]
    }
}

/// Every issue of the gift, in the order the checks run.
pub open spec fn shuckie_issue_list(
    g: ShuckieGiftDefinition,
    species: Set<Seq<char>>,
    items: Set<Seq<char>>,
    engine_flags: Set<Seq<char>>,
) -> Seq<ShuckieGiftIssueView> {
    let b: Seq<ShuckieGiftIssueView> = if g.level == 0 { seq![ShuckieGiftIssueView::InvalidLevel] } else { seq![] };
    let d: Seq<ShuckieGiftIssueView> = if is_blank(g.nickname@) || is_blank(g.original_trainer_name@) {
        seq![ShuckieGiftIssueView::EmptyName]
    } else {
        seq![]
    };
    shuckie_species_part(g, species) + b + shuckie_item_part(g, items) + d + shuckie_flag_part(g, engine_flags)
}

fn shuckie_species_issues(gift: &ShuckieGiftDefinition, species_ids: &TextSet) -> (issues: Vec<ShuckieGiftIssue>)
    ensures
        shuckie_issue_views(issues@) == shuckie_species_part(*gift, species_ids.view()),
{
    let mut issues: Vec<ShuckieGiftIssue> = Vec::new();
    if is_blank_text(gift.species.as_str()) {
        issues.push(ShuckieGiftIssue::EmptySpecies);
    } else if !is_exact_nonempty_special_token(gift.species.as_str()) {
        issues.push(ShuckieGiftIssue::InvalidSpecies { species: copy_text(gift.species.as_str()) });
    } else if !species_ids.contains(gift.species.as_str()) {
        issues.push(ShuckieGiftIssue::UnknownSpecies { species: copy_text(gift.species.as_str()) });
    }
    proof {
        assert(shuckie_issue_views(issues@) =~= shuckie_species_part(*gift, species_ids.view()));
    }
    issues
}

fn shuckie_item_issues(gift: &ShuckieGiftDefinition, item_ids: &TextSet) -> (issues: Vec<ShuckieGiftIssue>)
    ensures
        shuckie_issue_views(issues@) == shuckie_item_part(*gift, item_ids.view()),
{
    let mut issues: Vec<ShuckieGiftIssue> = Vec::new();
    if is_blank_text(gift.held_item.as_str()) {
        issues.push(ShuckieGiftIssue::EmptyHeldItem);
    } else if !is_exact_nonempty_special_token(gift.held_item.as_str()) {
        issues.push(ShuckieGiftIssue::InvalidHeldItem { held_item: copy_text(gift.held_item.as_str()) });
    } else if !item_ids.contains(gift.held_item.as_str()) {
        issues.push(ShuckieGiftIssue::UnknownHeldItem { held_item: copy_text(gift.held_item.as_str()) });
    }
    proof {
        assert(shuckie_issue_views(issues@) =~= shuckie_item_part(*gift, item_ids.view()));
    }
    issues
}

fn shuckie_flag_issues(gift: &ShuckieGiftDefinition, engine_flags: &TextSet) -> (issues: Vec<ShuckieGiftIssue>)
    ensures
        shuckie_issue_views(issues@) == shuckie_flag_part(*gift, engine_flags.view()),
{
    let mut issues: Vec<ShuckieGiftIssue> = Vec::new();
    if is_blank_text(gift.got_today_engine_flag.as_str()) {
        issues.push(ShuckieGiftIssue::EmptyEngineFlag);
    } else if !is_exact_nonempty_special_token(gift.got_today_engine_flag.as_str()) {
        issues.push(ShuckieGiftIssue::InvalidEngineFlag { engine_flag: copy_text(gift.got_today_engine_flag.as_str()) });
    } else if !engine_flags.contains(gift.got_today_engine_flag.as_str()) {
        issues.push(ShuckieGiftIssue::UnknownEngineFlag { engine_flag: copy_text(gift.got_today_engine_flag.as_str()) });
    }
    proof {
        assert(shuckie_issue_views(issues@) =~= shuckie_flag_part(*gift, engine_flags.view()));
    }
    issues
}

/// Every problem with the Shuckie gift: a blank, malformed or unknown species, held item or
/// engine flag, a zero level, or a blank name.
pub fn shuckie_gift_issues(
    gift: &ShuckieGiftDefinition,
    species_ids: &TextSet,
    item_ids: &TextSet,
    engine_flags: &TextSet,
) -> (issues: Vec<ShuckieGiftIssue>)
    ensures
        shuckie_issue_views(issues@) == shuckie_issue_list(
            *gift,
            species_ids.view(),
            item_ids.view(),
            engine_flags.view(),
        ),
{
    let mut issues = shuckie_species_issues(gift, species_ids);
    let ghost a = issues@;
    let mut level_part: Vec<ShuckieGiftIssue> = Vec::new();
    if gift.level == 0 {
        level_part.push(ShuckieGiftIssue::InvalidLevel);
    }
    let ghost b = level_part@;
    issues.append(&mut level_part);
    let mut item_part = shuckie_item_issues(gift, item_ids);
    let ghost c = item_part@;
    issues.append(&mut item_part);
    let mut name_part: Vec<ShuckieGiftIssue> = Vec::new();
    if is_blank_text(gift.nickname.as_str()) || is_blank_text(gift.original_trainer_name.as_str()) {
        name_part.push(ShuckieGiftIssue::EmptyName);
    }
    let ghost d = name_part@;
    issues.append(&mut name_part);
    let mut flag_part = shuckie_flag_issues(gift, engine_flags);
    let ghost e = flag_part@;
    issues.append(&mut flag_part);
    proof {
        assert(issues@ == a + b + c + d + e);
        assert(shuckie_issue_views(issues@) =~= shuckie_issue_views(a) + shuckie_issue_views(b) + shuckie_issue_views(c)
            + shuckie_issue_views(d) + shuckie_issue_views(e));
        assert(shuckie_issue_views(issues@) =~= shuckie_issue_list(
            *gift,
            species_ids.view(),
            item_ids.view(),
            engine_flags.view(),
        ));
    }
    issues
}


// ---- exchanges ----

/// What Buena's prize counter did with the player's request.
#[derive(Debug, PartialEq, Eq)]
pub struct BuenaPrizeExchange {
    pub item_id: String,
    pub quantity: u16,
    pub points_spent: u8,
    pub balance: u8,
    pub received: bool,
}

/// The points a prize costs for a quantity, as the counter multiplies them: the quantity
/// is taken as one byte, and a product beyond a byte is refused.
pub open spec fn prize_points(cost: u8, quantity: u16) -> int {
    cost * (quantity as u8)
}

/// The player trades Blue Card points for `quantity` of the prize `selected`: refused, with
/// nothing changed, when the points do not cover it or the bag has no room; otherwise the
/// prize goes into the bag and the points leave the balance.
pub fn buena_prize(
    bag: &mut Bag,
    blue_card_balance: &mut u8,
    item_catalog: &TextMap<Item>,
    buena_prizes: &BuenaPrizeDefinitions,
    selected: &str,
    quantity: u16,
    routine: &str,
) -> (r: Result<BuenaPrizeExchange, SpecialRoutineError>)
    ensures
        !(r matches Ok(x) && x.received) ==> *final(bag) == *old(bag) && *final(blue_card_balance) == *old(
            blue_card_balance,
        ),
        buena_prizes.key_seq().len() == 0 ==> (r matches Err(SpecialRoutineError::MissingBuenaPrizeDefinitions {
            routine: rr,
        }) && rr@ == routine@),
        buena_prizes.key_seq().len() > 0 && !buena_prizes.view().contains_key(selected@) ==> (r matches Err(
            SpecialRoutineError::UnknownItem { routine: rr, item_id: i },
        ) && rr@ == routine@ && i@ == selected@),
        buena_prizes.key_seq().len() > 0 && buena_prizes.view().contains_key(selected@) ==> {
            let points = prize_points(buena_prizes.view()[selected@], quantity);
            if points > 255 {
                r matches Err(e) && numeric_error(e, routine@, decimal_digits(quantity as nat))
            } else if points > *old(blue_card_balance) {
                r matches Ok(x) && !x.received && x.item_id@ == selected@ && x.quantity == quantity && x.points_spent
                    == points && x.balance == *old(blue_card_balance)
            } else if !item_catalog.view().contains_key(selected@) {
                r matches Err(SpecialRoutineError::UnknownItem { routine: rr, item_id: i }) && rr@ == routine@
                    && i@ == selected@
            } else if quantity == 0 {
                r matches Err(SpecialRoutineError::GiftPokemonBuild { routine: rr, .. }) && rr@ == routine@
            } else {
                let item = item_catalog.view()[selected@];
                &&& r matches Ok(x) && x.item_id@ == selected@ && x.quantity == quantity && x.points_spent == points
                    && x.balance == *final(blue_card_balance)
                &&& if old(bag).fits(item, quantity as nat) {
                    &&& r->Ok_0.received
                    &&& final(bag).view() == old(bag).with_qty(
                        item.pocket@,
                        item.script_name@,
                        (old(bag).qty(item.pocket@, item.script_name@) + quantity) as u16,
                    )
                    &&& *final(blue_card_balance) == *old(blue_card_balance) - points
                } else {
                    !r->Ok_0.received
                }
            }
        },
{
    if buena_prizes.is_empty() {
        return Err(SpecialRoutineError::MissingBuenaPrizeDefinitions { routine: copy_text(routine) });
    }
    let cost = match buena_prizes.get(selected) {
        Some(c) => *c,
        None => return Err(SpecialRoutineError::UnknownItem { routine: copy_text(routine), item_id: copy_text(selected) }),
    };
    let points_spent = match cost.checked_mul(quantity as u8) {
        Some(p) => p,
        None => {
            let value = decimal_text(quantity as u64);
            return Err(invalid_numeric_value(routine, value.as_str()));
        },
    };
    if points_spent > *blue_card_balance {
        return Ok(
            BuenaPrizeExchange {
                item_id: copy_text(selected),
                quantity,
                points_spent,
                balance: *blue_card_balance,
                received: false,
            },
        );
    }
    let item = match item_catalog.get(selected) {
        Some(i) => i,
        None => return Err(SpecialRoutineError::UnknownItem { routine: copy_text(routine), item_id: copy_text(selected) }),
    };
    let received = match bag.add_item(item, quantity) {
        Ok(added) => added,
        Err(error) => return Err(SpecialRoutineError::GiftPokemonBuild { routine: copy_text(routine), error }),
    };
    if received {
        *blue_card_balance = *blue_card_balance - points_spent;
    }
    Ok(BuenaPrizeExchange { item_id: copy_text(selected), quantity, points_spent, balance: *blue_card_balance, received })
}

/// Kurt takes `quantity` of the apricorn the player chose (`None` when the player chose
/// none); the result names what he took, or `None` when the player chose nothing or holds
/// too few.
pub fn select_apricorn_for_kurt(
    bag: &mut Bag,
    item_catalog: &TextMap<Item>,
    recipes: &KurtApricornRecipes,
    selected: Option<&str>,
    quantity: u16,
    routine: &str,
) -> (r: Result<Option<(String, u16)>, SpecialRoutineError>)
    ensures
        !(r matches Ok(Some(_))) ==> *final(bag) == *old(bag),
        recipes.key_seq().len() == 0 ==> (r matches Err(SpecialRoutineError::MissingKurtApricornRecipes { routine: rr })
            && rr@ == routine@),
        recipes.key_seq().len() > 0 ==> match selected {
            None => r == Ok::<Option<(String, u16)>, SpecialRoutineError>(None),
            Some(a) => if !recipes.view().contains_key(a@) || !item_catalog.view().contains_key(a@) {
                r matches Err(SpecialRoutineError::UnknownItem { routine: rr, item_id: i }) && rr@ == routine@ && i@
                    == a@
            } else if quantity == 0 {
                r matches Err(SpecialRoutineError::GiftPokemonBuild { routine: rr, .. }) && rr@ == routine@
            } else {
                let item = item_catalog.view()[a@];
                if quantity <= old(bag).qty(item.pocket@, item.script_name@) {
                    &&& r matches Ok(Some((taken, q))) && taken@ == a@ && q == quantity
                    &&& final(bag).view() == old(bag).with_qty(
                        item.pocket@,
                        item.script_name@,
                        (old(bag).qty(item.pocket@, item.script_name@) - quantity) as u16,
                    )
                } else {
                    r == Ok::<Option<(String, u16)>, SpecialRoutineError>(None)
                }
            }
        },
{
    if recipes.is_empty() {
        return Err(SpecialRoutineError::MissingKurtApricornRecipes { routine: copy_text(routine) });
    }
    let apricorn = match selected {
        None => return Ok(None),
        Some(a) => a,
    };
    if !recipes.contains_key(apricorn) {
        return Err(SpecialRoutineError::UnknownItem { routine: copy_text(routine), item_id: copy_text(apricorn) });
    }
    let item = match item_catalog.get(apricorn) {
        Some(i) => i,
        None => return Err(SpecialRoutineError::UnknownItem { routine: copy_text(routine), item_id: copy_text(apricorn) }),
    };
    match bag.remove_item(item, quantity) {
        Ok(true) => Ok(Some((copy_text(apricorn), quantity))),
        Ok(false) => Ok(None),
        Err(error) => Err(SpecialRoutineError::GiftPokemonBuild { routine: copy_text(routine), error }),
    }
}


// ---- Shuckie's return ----

/// What the lender says when the player brings a Pokemon back: it is the wrong Pokemon,
/// the player refuses, it is returned, it is too happy to part with, or it has fainted.
pub const SHUCKIE_WRONG_MON: u8 = 0;

pub const SHUCKIE_REFUSED: u8 = 1;

pub const SHUCKIE_RETURNED: u8 = 2;

pub const SHUCKIE_HAPPY: u8 = 3;

pub const SHUCKIE_FAINTED: u8 = 4;

/// The lender's verdict on a Pokemon the player offers back.
pub open spec fn shuckie_verdict(gift: ShuckieGiftDefinition, p: Pokemon) -> u8 {
    if p.species.id@ != gift.species@ || p.original_trainer_id != gift.original_trainer_id
        || p.original_trainer_name@ != gift.original_trainer_name@ {
        SHUCKIE_WRONG_MON
    } else if p.hp == 0 {
        SHUCKIE_FAINTED
    } else if p.happiness >= 150 {
        SHUCKIE_HAPPY
    } else {
        SHUCKIE_RETURNED
    }
}

/// The outcome of offering a Pokemon back: the slot offered (`None` when the player chose
/// none), the species found there, and the lender's verdict.
#[derive(Debug, PartialEq, Eq)]
pub struct ShuckieReturn {
    pub party_slot: Option<usize>,
    pub species: Option<String>,
    pub result: u8,
}

/// The player offers the Pokemon in `selection` back to Shuckie's lender; a Pokemon that is
/// the lent Shuckle, awake and not too attached leaves the party, the slots after it moving
/// up one.
pub fn return_shuckie(
    party: &mut Party,
    shuckie_gift: Option<&ShuckieGiftDefinition>,
    selection: Option<usize>,
    routine: &str,
) -> (r: Result<ShuckieReturn, SpecialRoutineError>)
    ensures
        !(r matches Ok(x) && x.result == SHUCKIE_RETURNED) ==> *final(party) == *old(party),
        match shuckie_gift {
            None => r matches Err(SpecialRoutineError::MissingShuckieGift { routine: rr }) && rr@ == routine@,
            Some(gift) => match selection {
                None => r matches Ok(x) && x.party_slot is None && x.species is None && x.result == SHUCKIE_REFUSED,
                Some(slot) => if slot >= old(party).pokemon@.len() || old(party).pokemon@[slot as int] is None {
                    r matches Ok(x) && x.party_slot == Some(slot) && x.species is None && x.result == SHUCKIE_REFUSED
                } else {
                    let p = old(party).pokemon@[slot as int]->0;
                    &&& r matches Ok(x) && x.party_slot == Some(slot) && x.result == shuckie_verdict(*gift, p)
                    &&& r->Ok_0.species matches Some(sp) && sp@ == p.species.id@
                    &&& shuckie_verdict(*gift, p) == SHUCKIE_RETURNED ==> final(party).pokemon@ == old(
                        party,
                    ).pokemon@.remove(slot as int).push(None)
                }
            },
        },
{
    let gift = match shuckie_gift {
        Some(g) => g,
        None => return Err(SpecialRoutineError::MissingShuckieGift { routine: copy_text(routine) }),
    };
    let slot = match selection {
        None => return Ok(ShuckieReturn { party_slot: None, species: None, result: SHUCKIE_REFUSED }),
        Some(s) => s,
    };
    if slot >= party.pokemon.len() {
        return Ok(ShuckieReturn { party_slot: Some(slot), species: None, result: SHUCKIE_REFUSED });
    }
    let result = match &party.pokemon[slot] {
        None => {
            return Ok(ShuckieReturn { party_slot: Some(slot), species: None, result: SHUCKIE_REFUSED });
        },
        Some(p) => {
            let species = copy_text(p.species.id.as_str());
            let result = if !text_eq(p.species.id.as_str(), gift.species.as_str()) || p.original_trainer_id
                != gift.original_trainer_id || !text_eq(
                p.original_trainer_name.as_str(),
                gift.original_trainer_name.as_str(),
            ) {
                SHUCKIE_WRONG_MON
            } else if p.hp == 0 {
                SHUCKIE_FAINTED
            } else if p.happiness >= 150 {
                SHUCKIE_HAPPY
            } else {
                SHUCKIE_RETURNED
            };
            ShuckieReturn { party_slot: Some(slot), species: Some(species), result }
        },
    };
    if result.result == SHUCKIE_RETURNED {
        let _returned = party.pokemon.remove(slot);
        party.pokemon.push(None);
    }
    Ok(result)
}


// ---- Dratini's moves ----

/// The last party slot that holds a Dratini, among the first `n`.
pub open spec fn last_dratini_slot(slots: Seq<Option<Pokemon>>, n: int) -> Option<int>
    decreases n,
{
    if n <= 0 {
        None
    } else if slots[n - 1] matches Some(p) && p.species.id@ == "DRATINI"@ {
        Some(n - 1)
    } else {
        last_dratini_slot(slots, n - 1)
    }
}

/// The last Dratini slot holds a Dratini.
proof fn lemma_last_dratini_is_dratini(slots: Seq<Option<Pokemon>>, n: int)
    requires
        n <= slots.len(),
    ensures
        last_dratini_slot(slots, n) matches Some(i) ==> 0 <= i < n && (slots[i] matches Some(p) && p.species.id@
            == "DRATINI"@),
    decreases n,
{
    if n > 0 && !(slots[n - 1] matches Some(p) && p.species.id@ == "DRATINI"@) {
        lemma_last_dratini_is_dratini(slots, n - 1);
    }
}

/// The moves a mode teaches, each at full PP and without PP Ups.
pub open spec fn taught_moves(names: Seq<String>, move_pp: Map<Seq<char>, u8>, learned: Seq<LearnedMove>) -> bool {
    &&& learned.len() == names.len()
    &&& forall|i: int|
        0 <= i < names.len() ==> (#[trigger] learned[i]).name@ == names[i]@ && learned[i].current_pp
            == move_pp[names[i]@] && learned[i].pp_ups == 0
}

/// The first move of a mode's set that the move data lacks.
pub open spec fn unknown_move_checks(names: Seq<String>, move_pp: Map<Seq<char>, u8>) -> spec_fn(int) -> Option<Seq<char>> {
    |i: int|
        if move_pp.contains_key(names[i]@) {
            None
        } else {
            Some(names[i]@)
        }
}

/// What the Dratini gift did: the slot of the Dratini taught, the mode, the moves taught.
#[derive(Debug, PartialEq, Eq)]
pub struct DratiniGift {
    pub party_slot: Option<usize>,
    pub mode: u8,
    pub move_names: Vec<String>,
    pub learned: bool,
}

fn copy_texts(v: &Vec<String>) -> (r: Vec<String>)
    ensures
        r@.len() == v@.len(),
        forall|i: int| 0 <= i < v@.len() ==> (#[trigger] r@[i])@ == v@[i]@,
{
    let mut r: Vec<String> = Vec::new();
    let mut i: usize = 0;
    while i < v.len()
        invariant
            i <= v@.len(),
            r@.len() == i,
            forall|k: int| 0 <= k < i ==> (#[trigger] r@[k])@ == v@[k]@,
        decreases v.len() - i,
    {
        r.push(copy_text(v[i].as_str()));
        i += 1;
    }
    r
}

/// The Dragon Shrine's elder teaches the party's last Dratini the moves of `mode`, each at
/// the PP the move data gives (`move_pp`); a mode without a set, or a party without a Dratini,
/// teaches nothing.
pub fn give_dratini(
    party: &mut Party,
    move_pp: &TextMap<u8>,
    move_sets: &DratiniMoveSets,
    mode: u8,
    routine: &str,
) -> (r: Result<DratiniGift, SpecialRoutineError>)
    ensures
        !(r matches Ok(g) && g.learned) ==> *final(party) == *old(party),
        move_sets.view().dom() == Set::<u8>::empty() ==> (r matches Err(SpecialRoutineError::MissingDratiniMoveSets {
            routine: rr,
        }) && rr@ == routine@),
        move_sets.view().dom() != Set::<u8>::empty() ==> if !move_sets.view().contains_key(mode) {
            r matches Ok(g) && g.party_slot is None && g.mode == mode && g.move_names@.len() == 0 && !g.learned
        } else {
            let names = move_sets.view()[mode]@;
            match last_dratini_slot(old(party).pokemon@, old(party).pokemon@.len() as int) {
                None => r matches Ok(g) && g.party_slot is None && g.mode == mode && g.move_names@.len() == 0
                    && !g.learned,
                Some(slot) => match first_error(unknown_move_checks(names, move_pp.view()), names.len() as int) {
                    Some(m) => r matches Err(SpecialRoutineError::UnknownMove { routine: rr, party_slot: ps, move_id: mm })
                        && rr@ == routine@ && ps == slot && mm@ == m,
                    None => {
                        &&& r matches Ok(g) && g.party_slot == Some(slot as usize) && g.mode == mode && g.learned
                            && views_of(g.move_names@) == views_of(names)
                        &&& final(party).pokemon@.len() == old(party).pokemon@.len()
                        &&& forall|i: int|
                            0 <= i < old(party).pokemon@.len() && i != slot ==> final(party).pokemon@[i] == old(
                                party,
                            ).pokemon@[i]
                        &&& final(party).pokemon@[slot] matches Some(p) && taught_moves(names, move_pp.view(), p.moves@)
                            && p == (Pokemon { moves: p.moves, ..old(party).pokemon@[slot]->0 })
                    },
                },
            }
        },
{
    if move_sets.is_empty() {
        return Err(SpecialRoutineError::MissingDratiniMoveSets { routine: copy_text(routine) });
    }
    let names = match move_sets.get(mode) {
        Some(n) => n,
        None => return Ok(DratiniGift { party_slot: None, mode, move_names: Vec::new(), learned: false }),
    };
    let ghost slots = party.pokemon@;
    let mut k: usize = party.pokemon.len();
    let mut found: Option<usize> = None;
    while k > 0 && found.is_none()
        invariant
            slots == party.pokemon@,
            k <= slots.len(),
            found is None ==> last_dratini_slot(slots, slots.len() as int) == last_dratini_slot(slots, k as int),
            found matches Some(f) ==> last_dratini_slot(slots, slots.len() as int) == Some(f as int) && f < slots.len(),
        decreases k,
    {
        let is_dratini = match &party.pokemon[k - 1] {
            Some(p) => text_eq(p.species.id.as_str(), "DRATINI"),
            None => false,
        };
        if is_dratini {
            found = Some(k - 1);
        }
        k -= 1;
    }
    let slot = match found {
        Some(f) => f,
        None => {
            proof {
                assert(last_dratini_slot(slots, 0) is None);
            }
            return Ok(DratiniGift { party_slot: None, mode, move_names: Vec::new(), learned: false });
        },
    };
    let ghost f = unknown_move_checks(names@, move_pp.view());
    let mut learned: Vec<LearnedMove> = Vec::new();
    let mut i: usize = 0;
    while i < names.len()
        invariant
            f == unknown_move_checks(names@, move_pp.view()),
            move_sets.view().dom() != Set::<u8>::empty(),
            move_sets.view().contains_key(mode),
            *names == move_sets.view()[mode],
            slots == party.pokemon@,
            slot < slots.len(),
            last_dratini_slot(slots, slots.len() as int) == Some(slot as int),
            i <= names@.len(),
            first_error(f, i as int) is None,
            learned@.len() == i,
            forall|j: int|
                0 <= j < i ==> (#[trigger] learned@[j]).name@ == names@[j]@ && learned@[j].current_pp == move_pp.view()[names@[j]@]
                    && learned@[j].pp_ups == 0,
        decreases names.len() - i,
    {
        let name = names[i].as_str();
        match move_pp.get(name) {
            Some(pp) => {
                learned.push(LearnedMove { name: copy_text(name), current_pp: *pp, pp_ups: 0 });
            },
            None => {
                proof {
                    assert(f(i as int) == Some(names@[i as int]@));
                    lemma_first_error_stays(f, i + 1, names@.len() as int);
                }
                return Err(SpecialRoutineError::UnknownMove { routine: copy_text(routine), party_slot: slot, move_id: copy_text(name) });
            },
        }
        i += 1;
    }
    let move_names = copy_texts(names);
    proof {
        lemma_last_dratini_is_dratini(slots, slots.len() as int);
    }
    let old_slot = party.pokemon.remove(slot);
    let new_slot = match old_slot {
        Some(p) => Some(Pokemon { moves: learned, ..p }),
        None => None,
    };
    party.pokemon.insert(slot, new_slot);
    proof {
        assert(party.pokemon@ =~= slots.update(slot as int, party.pokemon@[slot as int]));
        assert(views_of(move_names@) =~= views_of(names@));
    }
    Ok(DratiniGift { party_slot: Some(slot), mode, move_names, learned: true })
}

// ---- the Move Deleter ----

/// What the Move Deleter did: the slot, its species (`EGG` for an egg), the move forgotten
/// (empty for an egg) and how many moves remain.
#[derive(Debug, PartialEq, Eq)]
pub struct MoveDeletion {
    pub party_slot: usize,
    pub species: String,
    pub deleted_move: String,
    pub remaining_moves: usize,
}

/// The Move Deleter makes the Pokemon in `party_slot` forget the move in `move_slot`; an egg
/// is left as it is, and a Pokemon's only move cannot be forgotten.
pub fn move_deletion(party: &mut Party, party_slot: usize, move_slot: usize, routine: &str) -> (r: Result<
    MoveDeletion,
    SpecialRoutineError,
>)
    ensures
        r is Err ==> *final(party) == *old(party),
        if party_slot >= old(party).pokemon@.len() || old(party).pokemon@[party_slot as int] is None {
            r matches Err(SpecialRoutineError::InvalidPartySlot { routine: rr, party_slot: ps }) && rr@ == routine@ && ps
                == party_slot
        } else {
            let p = old(party).pokemon@[party_slot as int]->0;
            if p.is_egg {
                r matches Ok(d) && d.party_slot == party_slot && d.species@ == "EGG"@ && d.deleted_move@.len() == 0
                    && d.remaining_moves == p.moves@.len() && *final(party) == *old(party)
            } else if p.moves@.len() <= 1 {
                r matches Err(SpecialRoutineError::CannotDeleteOnlyMove { routine: rr, party_slot: ps }) && rr@ == routine@
                    && ps == party_slot
            } else if move_slot >= p.moves@.len() {
                r matches Err(SpecialRoutineError::InvalidMoveSlot { routine: rr, party_slot: ps, move_slot: ms })
                    && rr@ == routine@ && ps == party_slot && ms == move_slot
            } else {
                &&& r matches Ok(d) && d.party_slot == party_slot && d.species@ == p.species.id@ && d.deleted_move@
                    == p.moves@[move_slot as int].name@ && d.remaining_moves == p.moves@.len() - 1
                &&& final(party).pokemon@ == old(party).pokemon@.update(
                    party_slot as int,
                    Some(Pokemon { moves: final(party).pokemon@[party_slot as int]->0.moves, ..p }),
                )
                &&& final(party).pokemon@[party_slot as int]->0.moves@ == p.moves@.remove(move_slot as int)
            }
        },
{
    if party_slot >= party.pokemon.len() || party.pokemon[party_slot].is_none() {
        return Err(SpecialRoutineError::InvalidPartySlot { routine: copy_text(routine), party_slot });
    }
    let (is_egg, move_count) = match &party.pokemon[party_slot] {
        Some(p) => (p.is_egg, p.moves.len()),
        None => (false, 0),
    };
    if is_egg {
        return Ok(MoveDeletion { party_slot, species: copy_text("EGG"), deleted_move: String::new(), remaining_moves: move_count });
    }
    if move_count <= 1 {
        return Err(SpecialRoutineError::CannotDeleteOnlyMove { routine: copy_text(routine), party_slot });
    }
    if move_slot >= move_count {
        return Err(SpecialRoutineError::InvalidMoveSlot { routine: copy_text(routine), party_slot, move_slot });
    }
    let mut slot = party.pokemon.remove(party_slot);
    let mut result = MoveDeletion { party_slot, species: String::new(), deleted_move: String::new(), remaining_moves: 0 };
    match slot {
        Some(ref mut p) => {
            let forgotten = p.moves.remove(move_slot);
            result = MoveDeletion {
                party_slot,
                species: copy_text(p.species.id.as_str()),
                deleted_move: forgotten.name,
                remaining_moves: p.moves.len(),
            };
        },
        None => {},
    }
    party.pokemon.insert(party_slot, slot);
    Ok(result)
}

} // verus!
