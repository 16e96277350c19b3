//! Buena's password categories and the checks on a saved password.
use vstd::prelude::*;
use crate::ordered::{TextMap, TextSet};
use crate::special_routines::checks::concat_issues;
use crate::special_routines::errors::SpecialRoutineError;
use crate::special_routines::tokens::{is_exact_nonempty_special_token, is_exact_nonempty_special_value};
use crate::text::{copy_text, decimal_digits, is_exact_token, is_exact_value, message_with_number, text_eq};

verus! {

pub const BUENA_PASSWORD_CATEGORY_MON: &'static str = "BUENA_MON";

pub const BUENA_PASSWORD_CATEGORY_ITEM: &'static str = "BUENA_ITEM";

pub const BUENA_PASSWORD_CATEGORY_MOVE: &'static str = "BUENA_MOVE";

pub const BUENA_PASSWORD_CATEGORY_STRING: &'static str = "BUENA_STRING";

/// The four kinds of password category.
pub open spec fn known_category_type(t: Seq<char>) -> bool {
    t == "BUENA_MON"@ || t == "BUENA_ITEM"@ || t == "BUENA_MOVE"@ || t == "BUENA_STRING"@
}

/// Whether `category_type` is one of the four kinds of password category.
pub fn is_known_buena_password_category_type(category_type: &str) -> (b: bool)
    ensures
        b == known_category_type(category_type@),
{
    text_eq(category_type, "BUENA_MON") || text_eq(category_type, "BUENA_ITEM") || text_eq(category_type, "BUENA_MOVE")
        || text_eq(category_type, "BUENA_STRING")
}

/// One password category: its kind, its points, and the passwords it offers.
#[derive(Debug, PartialEq, Eq)]
pub struct BuenaPasswordCategoryDefinition {
    pub category_type: String,
    pub points: u8,
    pub options: Vec<String>,
}

/// The categories, and the order in which Buena's show picks them.
#[derive(Debug, PartialEq, Eq)]
pub struct BuenaPasswordCategories {
    pub order: Vec<String>,
    pub categories: TextMap<BuenaPasswordCategoryDefinition>,
}

/// A problem with the password categories.
#[derive(Debug, PartialEq, Eq)]
pub enum BuenaPasswordCategoryIssue {
    EmptyId { id: String },
    InvalidId { id: String },
    UnknownOrderedId { id: String },
    DuplicateOrderedId { id: String },
    InvalidCategoryType { id: String, category_type: String },
    UnknownCategoryType { id: String, category_type: String },
    InvalidPoints { id: String },
    EmptyOptions { id: String },
    EmptyOption { id: String, option_index: usize },
    InvalidOption { id: String, option_index: usize, option: String },
    UnknownSpecies { id: String, option_index: usize, species: String },
    UnknownItem { id: String, option_index: usize, item_id: String },
    UnknownMove { id: String, option_index: usize, move_id: String },
}

pub enum BuenaPasswordCategoryIssueView {
    EmptyId { id: Seq<char> },
    InvalidId { id: Seq<char> },
    UnknownOrderedId { id: Seq<char> },
    DuplicateOrderedId { id: Seq<char> },
    InvalidCategoryType { id: Seq<char>, category_type: Seq<char> },
    UnknownCategoryType { id: Seq<char>, category_type: Seq<char> },
    InvalidPoints { id: Seq<char> },
    EmptyOptions { id: Seq<char> },
    EmptyOption { id: Seq<char>, option_index: usize },
    InvalidOption { id: Seq<char>, option_index: usize, option: Seq<char> },
    UnknownSpecies { id: Seq<char>, option_index: usize, species: Seq<char> },
    UnknownItem { id: Seq<char>, option_index: usize, item_id: Seq<char> },
    UnknownMove { id: Seq<char>, option_index: usize, move_id: Seq<char> },
}

impl View for BuenaPasswordCategoryIssue {
    type V = BuenaPasswordCategoryIssueView;

    open spec fn view(&self) -> BuenaPasswordCategoryIssueView {
        match self {
            BuenaPasswordCategoryIssue::EmptyId { id } => BuenaPasswordCategoryIssueView::EmptyId { id: id@ },
            BuenaPasswordCategoryIssue::InvalidId { id } => BuenaPasswordCategoryIssueView::InvalidId { id: id@ },
            BuenaPasswordCategoryIssue::UnknownOrderedId { id } => BuenaPasswordCategoryIssueView::UnknownOrderedId {
                id: id@,
            },
            BuenaPasswordCategoryIssue::DuplicateOrderedId { id } => BuenaPasswordCategoryIssueView::DuplicateOrderedId {
                id: id@,
            },
            BuenaPasswordCategoryIssue::InvalidCategoryType { id, category_type } => {
                BuenaPasswordCategoryIssueView::InvalidCategoryType { id: id@, category_type: category_type@ }
            },
            BuenaPasswordCategoryIssue::UnknownCategoryType { id, category_type } => {
                BuenaPasswordCategoryIssueView::UnknownCategoryType { id: id@, category_type: category_type@ }
            },
            BuenaPasswordCategoryIssue::InvalidPoints { id } => BuenaPasswordCategoryIssueView::InvalidPoints { id: id@ },
            BuenaPasswordCategoryIssue::EmptyOptions { id } => BuenaPasswordCategoryIssueView::EmptyOptions { id: id@ },
            BuenaPasswordCategoryIssue::EmptyOption { id, option_index } => BuenaPasswordCategoryIssueView::EmptyOption {
                id: id@,
                option_index: *option_index,
            },
            BuenaPasswordCategoryIssue::InvalidOption { id, option_index, option } => {
                BuenaPasswordCategoryIssueView::InvalidOption { id: id@, option_index: *option_index, option: option@ }
            },
            BuenaPasswordCategoryIssue::UnknownSpecies { id, option_index, species } => {
                BuenaPasswordCategoryIssueView::UnknownSpecies { id: id@, option_index: *option_index, species: species@ }
            },
            BuenaPasswordCategoryIssue::UnknownItem { id, option_index, item_id } => {
                BuenaPasswordCategoryIssueView::UnknownItem { id: id@, option_index: *option_index, item_id: item_id@ }
            },
            BuenaPasswordCategoryIssue::UnknownMove { id, option_index, move_id } => {
                BuenaPasswordCategoryIssueView::UnknownMove { id: id@, option_index: *option_index, move_id: move_id@ }
            },
        }
    }
}

pub open spec fn buena_issue_views(v: Seq<BuenaPasswordCategoryIssue>) -> Seq<BuenaPasswordCategoryIssueView> {
    v.map_values(|i: BuenaPasswordCategoryIssue| i@)
}

pub open spec fn texts_of(v: Seq<String>) -> Seq<Seq<char>> {
    v.map_values(|s: String| s@)
}

/// The issue of order entry `i`: empty, malformed, repeated, or naming no category.
pub open spec fn order_issue(order: Seq<Seq<char>>, ids: Set<Seq<char>>, i: int) -> Seq<BuenaPasswordCategoryIssueView> {
    let id = order[i];
    if id.len() == 0 {
        seq![BuenaPasswordCategoryIssueView::EmptyId { id }]
    } else if !is_exact_token(id) {
        seq![BuenaPasswordCategoryIssueView::InvalidId { id }]
    } else if order.take(i).contains(id) {
        seq![BuenaPasswordCategoryIssueView::DuplicateOrderedId { id }]
    } else if !ids.contains(id) {
        seq![BuenaPasswordCategoryIssueView::UnknownOrderedId { id }]
    } else {
        seq![]
    }
}

pub open spec fn order_checks(order: Seq<Seq<char>>, ids: Set<Seq<char>>) -> spec_fn(int) -> Seq<
    BuenaPasswordCategoryIssueView,
> {
    |i: int| order_issue(order, ids, i)
}

/// The well-formed ids the order names.
pub open spec fn ordered_ids(order: Seq<Seq<char>>) -> Set<Seq<char>> {
    Set::new(|x: Seq<char>| is_exact_token(x) && order.contains(x))
}

/// The reference sets an option of each kind is checked against.
pub struct BuenaKnown {
    pub species: Set<Seq<char>>,
    pub items: Set<Seq<char>>,
    pub moves: Set<Seq<char>>,
}

/// The issue of option `j` of a category of kind `kind`.
pub open spec fn option_issue(id: Seq<char>, kind: Seq<char>, option: Seq<char>, j: int, known: BuenaKnown) -> Seq<
    BuenaPasswordCategoryIssueView,
> {
    let valid = if kind == "BUENA_STRING"@ { is_exact_value(option) } else { is_exact_token(option) };
    if option.len() == 0 {
        seq![BuenaPasswordCategoryIssueView::EmptyOption { id, option_index: j as usize }]
    } else if !valid {
        seq![BuenaPasswordCategoryIssueView::InvalidOption { id, option_index: j as usize, option }]
    } else if kind == "BUENA_MON"@ && !known.species.contains(option) {
        seq![BuenaPasswordCategoryIssueView::UnknownSpecies { id, option_index: j as usize, species: option }]
    } else if kind == "BUENA_ITEM"@ && !known.items.contains(option) {
        seq![BuenaPasswordCategoryIssueView::UnknownItem { id, option_index: j as usize, item_id: option }]
    } else if kind == "BUENA_MOVE"@ && !known.moves.contains(option) {
        seq![BuenaPasswordCategoryIssueView::UnknownMove { id, option_index: j as usize, move_id: option }]
    } else {
        seq![]
    }
}

pub open spec fn option_checks(id: Seq<char>, kind: Seq<char>, options: Seq<Seq<char>>, known: BuenaKnown) -> spec_fn(
    int,
) -> Seq<BuenaPasswordCategoryIssueView> {
    |j: int| option_issue(id, kind, options[j], j, known)
}

/// The issues of one category, before its options.
pub open spec fn category_head_issues(
    id: Seq<char>,
    c: BuenaPasswordCategoryDefinition,
    ordered: Set<Seq<char>>,
) -> Seq<BuenaPasswordCategoryIssueView> {
    let a: Seq<BuenaPasswordCategoryIssueView> = if id.len() == 0 {
        seq![BuenaPasswordCategoryIssueView::EmptyId { id }]
    } else if !is_exact_token(id) {
        seq![BuenaPasswordCategoryIssueView::InvalidId { id }]
    } else {
        seq![]
    };
    let b: Seq<BuenaPasswordCategoryIssueView> = if !ordered.contains(id) {
        seq![BuenaPasswordCategoryIssueView::UnknownOrderedId { id }]
    } else {
        seq![]
    };
    let t: Seq<BuenaPasswordCategoryIssueView> = if !is_exact_token(c.category_type@) {
        seq![BuenaPasswordCategoryIssueView::InvalidCategoryType { id, category_type: c.category_type@ }]
    } else if !known_category_type(c.category_type@) {
        seq![BuenaPasswordCategoryIssueView::UnknownCategoryType { id, category_type: c.category_type@ }]
    } else {
        seq![]
    };
    let p: Seq<BuenaPasswordCategoryIssueView> = if c.points == 0 {
        seq![BuenaPasswordCategoryIssueView::InvalidPoints { id }]
    } else {
        seq![]
    };
    let o: Seq<BuenaPasswordCategoryIssueView> = if c.options@.len() == 0 {
        seq![BuenaPasswordCategoryIssueView::EmptyOptions { id }]
    } else {
        seq![]
    };
    a + b + t + p + o
}

pub open spec fn category_issues(
    id: Seq<char>,
    c: BuenaPasswordCategoryDefinition,
    ordered: Set<Seq<char>>,
    known: BuenaKnown,
) -> Seq<BuenaPasswordCategoryIssueView> {
    let options = texts_of(c.options@);
    category_head_issues(id, c, ordered) + concat_issues(
        option_checks(id, c.category_type@, options, known),
        options.len() as int,
    )
}

pub open spec fn category_checks(cats: TextMap<BuenaPasswordCategoryDefinition>, ordered: Set<Seq<char>>, known: BuenaKnown) -> spec_fn(
    int,
) -> Seq<BuenaPasswordCategoryIssueView> {
    |i: int| category_issues(cats.key_seq()[i], cats.value_seq()[i], ordered, known)
}

/// Every issue of the password categories: first the order, then each category by id.
pub open spec fn buena_issue_list(catalog: BuenaPasswordCategories, known: BuenaKnown) -> Seq<BuenaPasswordCategoryIssueView> {
    let order = texts_of(catalog.order@);
    concat_issues(order_checks(order, catalog.categories.view().dom()), order.len() as int) + concat_issues(
        category_checks(catalog.categories, ordered_ids(order), known),
        catalog.categories.key_seq().len() as int,
    )
}

fn order_issue_list(catalog: &BuenaPasswordCategories) -> (r: (Vec<BuenaPasswordCategoryIssue>, TextSet))
    ensures
        buena_issue_views(r.0@) == concat_issues(
            order_checks(texts_of(catalog.order@), catalog.categories.view().dom()),
            catalog.order@.len() as int,
        ),
        r.1.view() == ordered_ids(texts_of(catalog.order@)),
{
    let mut issues: Vec<BuenaPasswordCategoryIssue> = Vec::new();
    let ghost order = texts_of(catalog.order@);
    let ghost f = order_checks(order, catalog.categories.view().dom());
    let mut seen = TextSet::new();
    let n = catalog.order.len();
    let mut i: usize = 0;
    while i < n
        invariant
            n == order.len(),
            order == texts_of(catalog.order@),
            f == order_checks(order, catalog.categories.view().dom()),
            i <= n,
            buena_issue_views(issues@) == concat_issues(f, i as int),
            forall|x: Seq<char>| #[trigger] seen.view().contains(x) <==> (is_exact_token(x) && order.take(i as int).contains(x)),
        decreases n - i,
    {
        let ghost before = buena_issue_views(issues@);
        let ghost old_seen = seen.view();
        let id = &catalog.order[i];
        proof {
            assert(order[i as int] == id@);
            assert(order.take(i + 1) =~= order.take(i as int).push(id@));
        }
        if id.as_str().is_empty() {
            issues.push(BuenaPasswordCategoryIssue::EmptyId { id: copy_text(id.as_str()) });
        } else if !is_exact_nonempty_special_token(id.as_str()) {
            issues.push(BuenaPasswordCategoryIssue::InvalidId { id: copy_text(id.as_str()) });
        } else if !seen.insert(copy_text(id.as_str())) {
            issues.push(BuenaPasswordCategoryIssue::DuplicateOrderedId { id: copy_text(id.as_str()) });
        } else if !catalog.categories.contains_key(id.as_str()) {
            issues.push(BuenaPasswordCategoryIssue::UnknownOrderedId { id: copy_text(id.as_str()) });
        }
        proof {
            assert(buena_issue_views(issues@) =~= before + f(i as int));
            assert forall|x: Seq<char>| #[trigger] seen.view().contains(x) <==> (is_exact_token(x) && order.take(i + 1).contains(x)) by {
                if order.take(i + 1).contains(x) {
                    let k = choose|k: int| 0 <= k < i + 1 && #[trigger] order.take(i + 1)[k] == x;
                    if k < i {
                        assert(order.take(i as int)[k] == x);
                    }
                }
                if order.take(i as int).contains(x) {
                    let k = choose|k: int| 0 <= k < i && #[trigger] order.take(i as int)[k] == x;
                    assert(order.take(i + 1)[k] == x);
                }
                if x == id@ {
                    assert(order.take(i + 1)[i as int] == x);
                }
            }
        }
        i += 1;
    }
    proof {
        assert(order.take(n as int) =~= order);
        assert(seen.view() =~= ordered_ids(order));
    }
    (issues, seen)
}

fn option_issue_list(
    id: &String,
    category: &BuenaPasswordCategoryDefinition,
    species_ids: &TextSet,
    item_ids: &TextSet,
    move_ids: &TextSet,
) -> (issues: Vec<BuenaPasswordCategoryIssue>)
    ensures
        buena_issue_views(issues@) == concat_issues(
            option_checks(
                id@,
                category.category_type@,
                texts_of(category.options@),
                BuenaKnown { species: species_ids.view(), items: item_ids.view(), moves: move_ids.view() },
            ),
            category.options@.len() as int,
        ),
{
    let mut issues: Vec<BuenaPasswordCategoryIssue> = Vec::new();
    let ghost known = BuenaKnown { species: species_ids.view(), items: item_ids.view(), moves: move_ids.view() };
    let ghost f = option_checks(id@, category.category_type@, texts_of(category.options@), known);
    let is_string = text_eq(category.category_type.as_str(), "BUENA_STRING");
    let is_mon = text_eq(category.category_type.as_str(), "BUENA_MON");
    let is_item = text_eq(category.category_type.as_str(), "BUENA_ITEM");
    let is_move = text_eq(category.category_type.as_str(), "BUENA_MOVE");
    let mut j: usize = 0;
    while j < category.options.len()
        invariant
            j <= category.options@.len(),
            known == (BuenaKnown { species: species_ids.view(), items: item_ids.view(), moves: move_ids.view() }),
            f == option_checks(id@, category.category_type@, texts_of(category.options@), known),
            is_string == (category.category_type@ == "BUENA_STRING"@),
            is_mon == (category.category_type@ == "BUENA_MON"@),
            is_item == (category.category_type@ == "BUENA_ITEM"@),
            is_move == (category.category_type@ == "BUENA_MOVE"@),
            buena_issue_views(issues@) == concat_issues(f, j as int),
        decreases category.options.len() - j,
    {
        let ghost before = buena_issue_views(issues@);
        let option = &category.options[j];
        proof {
            assert(texts_of(category.options@)[j as int] == option@);
        }
        let valid = if is_string {
            is_exact_nonempty_special_value(option.as_str())
        } else {
            is_exact_nonempty_special_token(option.as_str())
        };
        if option.as_str().is_empty() {
            issues.push(BuenaPasswordCategoryIssue::EmptyOption { id: copy_text(id.as_str()), option_index: j });
        } else if !valid {
            issues.push(
                BuenaPasswordCategoryIssue::InvalidOption {
                    id: copy_text(id.as_str()),
                    option_index: j,
                    option: copy_text(option.as_str()),
                },
            );
        } else if is_mon && !species_ids.contains(option.as_str()) {
            issues.push(
                BuenaPasswordCategoryIssue::UnknownSpecies {
                    id: copy_text(id.as_str()),
                    option_index: j,
                    species: copy_text(option.as_str()),
                },
            );
        } else if is_item && !item_ids.contains(option.as_str()) {
            issues.push(
                BuenaPasswordCategoryIssue::UnknownItem {
                    id: copy_text(id.as_str()),
                    option_index: j,
                    item_id: copy_text(option.as_str()),
                },
            );
        } else if is_move && !move_ids.contains(option.as_str()) {
            issues.push(
                BuenaPasswordCategoryIssue::UnknownMove {
                    id: copy_text(id.as_str()),
                    option_index: j,
                    move_id: copy_text(option.as_str()),
                },
            );
        }
        proof {
            assert(buena_issue_views(issues@) =~= before + f(j as int));
        }
        j += 1;
    }
    issues
}

#[verifier::spinoff_prover]
fn category_head_issue_list(id: &String, category: &BuenaPasswordCategoryDefinition, ordered: &TextSet) -> (issues: Vec<
    BuenaPasswordCategoryIssue,
>)
    ensures
        buena_issue_views(issues@) == category_head_issues(id@, *category, ordered.view()),
{
    let mut issues: Vec<BuenaPasswordCategoryIssue> = Vec::new();
    if id.as_str().is_empty() {
        issues.push(BuenaPasswordCategoryIssue::EmptyId { id: copy_text(id.as_str()) });
    } else if !is_exact_nonempty_special_token(id.as_str()) {
        issues.push(BuenaPasswordCategoryIssue::InvalidId { id: copy_text(id.as_str()) });
    }
    if !ordered.contains(id.as_str()) {
        issues.push(BuenaPasswordCategoryIssue::UnknownOrderedId { id: copy_text(id.as_str()) });
    }
    let ghost ab = buena_issue_views(issues@);
    let mut rest: Vec<BuenaPasswordCategoryIssue> = Vec::new();
    if !is_exact_nonempty_special_token(category.category_type.as_str()) {
        rest.push(
            BuenaPasswordCategoryIssue::InvalidCategoryType {
                id: copy_text(id.as_str()),
                category_type: copy_text(category.category_type.as_str()),
            },
        );
    } else if !is_known_buena_password_category_type(category.category_type.as_str()) {
        rest.push(
            BuenaPasswordCategoryIssue::UnknownCategoryType {
                id: copy_text(id.as_str()),
                category_type: copy_text(category.category_type.as_str()),
            },
        );
    }
    if category.points == 0 {
        rest.push(BuenaPasswordCategoryIssue::InvalidPoints { id: copy_text(id.as_str()) });
    }
    if category.options.len() == 0 {
        rest.push(BuenaPasswordCategoryIssue::EmptyOptions { id: copy_text(id.as_str()) });
    }
    let ghost r = rest@;
    let ghost a = issues@;
    issues.append(&mut rest);
    proof {
        assert(buena_issue_views(issues@) =~= buena_issue_views(a) + buena_issue_views(r));
        assert(buena_issue_views(issues@) =~= category_head_issues(id@, *category, ordered.view()));
    }
    issues
}

/// Every problem with the password categories: order ids that are empty, malformed,
/// repeated or name no category; categories whose ids are empty, malformed or missing from
/// the order; unknown or malformed kinds; zero points; no options; and options that are
/// empty, malformed, or not a species, item or move of the pack as the kind asks.
pub fn buena_password_category_issues(
    catalog: &BuenaPasswordCategories,
    species_ids: &TextSet,
    item_ids: &TextSet,
    move_ids: &TextSet,
) -> (issues: Vec<BuenaPasswordCategoryIssue>)
    ensures
        buena_issue_views(issues@) == buena_issue_list(
            *catalog,
            BuenaKnown { species: species_ids.view(), items: item_ids.view(), moves: move_ids.view() },
        ),
{
    let (mut issues, ordered) = order_issue_list(catalog);
    let ghost known = BuenaKnown { species: species_ids.view(), items: item_ids.view(), moves: move_ids.view() };
    let ghost head = buena_issue_views(issues@);
    let ghost f = category_checks(catalog.categories, ordered.view(), known);
    let n = catalog.categories.len();
    let mut i: usize = 0;
    while i < n
        invariant
            n == catalog.categories.key_seq().len(),
            n == catalog.categories.value_seq().len(),
            known == (BuenaKnown { species: species_ids.view(), items: item_ids.view(), moves: move_ids.view() }),
            f == category_checks(catalog.categories, ordered.view(), known),
            i <= n,
            buena_issue_views(issues@) == head + concat_issues(f, i as int),
        decreases n - i,
    {
        let id = catalog.categories.key_at(i);
        let category = catalog.categories.value_at(i);
        let ghost before = issues@;
        let mut a = category_head_issue_list(id, category, &ordered);
        let ghost av = a@;
        let mut b = option_issue_list(id, category, species_ids, item_ids, move_ids);
        let ghost bv = b@;
        issues.append(&mut a);
        issues.append(&mut b);
        proof {
            assert(issues@ == before + av + bv);
            assert(buena_issue_views(issues@) =~= buena_issue_views(before) + buena_issue_views(av) + buena_issue_views(bv));
            assert(head + concat_issues(f, i + 1) =~= head + concat_issues(f, i as int) + f(i as int));
        }
        i += 1;
    }
    issues
}

/// The Buena password a save has picked: its category and option, by position.
#[derive(Clone, Copy, Debug, PartialEq, Eq, Structural)]
pub struct BuenasPasswordState {
    pub generated: bool,
    pub category_index: usize,
    pub option_index: usize,
    pub generation_day: u8,
}

/// The error a saved password gives against the categories, if any.
pub enum SavedPasswordErrorView {
    CategoryIndexOutOfRange { index: usize },
    MissingCategory { index: usize, category_id: Seq<char> },
    OptionIndexOutOfRange { index: usize, category_id: Seq<char> },
}

pub open spec fn saved_password_error(p: BuenasPasswordState, c: BuenaPasswordCategories) -> Option<SavedPasswordErrorView> {
    if !p.generated {
        None
    } else if p.category_index >= c.order@.len() {
        Some(SavedPasswordErrorView::CategoryIndexOutOfRange { index: p.category_index })
    } else {
        let id = c.order@[p.category_index as int]@;
        if !c.categories.view().contains_key(id) {
            Some(SavedPasswordErrorView::MissingCategory { index: p.category_index, category_id: id })
        } else if p.option_index >= c.categories.view()[id].options@.len() {
            Some(SavedPasswordErrorView::OptionIndexOutOfRange { index: p.option_index, category_id: id })
        } else {
            None
        }
    }
}

pub open spec fn saved_password_error_view(e: SpecialRoutineError) -> Option<SavedPasswordErrorView> {
    match e {
        SpecialRoutineError::SavedBuenaPasswordCategoryIndexOutOfRange { index } => Some(
            SavedPasswordErrorView::CategoryIndexOutOfRange { index },
        ),
        SpecialRoutineError::SavedBuenaPasswordMissingCategory { index, category_id } => Some(
            SavedPasswordErrorView::MissingCategory { index, category_id: category_id@ },
        ),
        SpecialRoutineError::SavedBuenaPasswordOptionIndexOutOfRange { index, category_id } => Some(
            SavedPasswordErrorView::OptionIndexOutOfRange { index, category_id: category_id@ },
        ),
        _ => None,
    }
}

/// A generated password must name an ordered category that exists and one of its options.
pub fn validate_saved_buena_password_references(
    password: &BuenasPasswordState,
    categories: &BuenaPasswordCategories,
) -> (r: Result<(), SpecialRoutineError>)
    ensures
        match r {
            Ok(()) => saved_password_error(*password, *categories) is None,
            Err(e) => saved_password_error(*password, *categories) is Some && saved_password_error(*password, *categories)
                == saved_password_error_view(e),
        },
{
    if !password.generated {
        return Ok(());
    }
    if password.category_index >= categories.order.len() {
        return Err(SpecialRoutineError::SavedBuenaPasswordCategoryIndexOutOfRange { index: password.category_index });
    }
    let category_id = &categories.order[password.category_index];
    match categories.categories.get(category_id.as_str()) {
        None => Err(
            SpecialRoutineError::SavedBuenaPasswordMissingCategory {
                index: password.category_index,
                category_id: copy_text(category_id.as_str()),
            },
        ),
        Some(category) => {
            if password.option_index >= category.options.len() {
                Err(
                    SpecialRoutineError::SavedBuenaPasswordOptionIndexOutOfRange {
                        index: password.option_index,
                        category_id: copy_text(category_id.as_str()),
                    },
                )
            } else {
                Ok(())
            }
        },
    }
}


// ---- today's password ----

/// Whether today's password still has to be drawn: none was drawn, or it was drawn on
/// another day.
pub fn buenas_password_due(password: &BuenasPasswordState, current_day: u8) -> (b: bool)
    ensures
        b == (!password.generated || password.generation_day != current_day),
{
    !password.generated || password.generation_day != current_day
}

/// The category a draw byte picks: its low four bits, when they name one of the eleven
/// categories; otherwise the draw is repeated.
pub fn buenas_password_category_roll(roll: u8) -> (r: Option<usize>)
    ensures
        r == (if roll % 16 < 11 { Some((roll % 16) as usize) } else { None::<usize> }),
{
    let c = roll & 0x0f;
    assert(roll & 0x0f == roll % 16) by (bit_vector);
    if c < 11 {
        Some(c as usize)
    } else {
        None
    }
}

/// The option a draw byte picks: its low two bits, when they name one of the three options;
/// otherwise the draw is repeated.
pub fn buenas_password_option_roll(roll: u8) -> (r: Option<usize>)
    ensures
        r == (if roll % 4 < 3 { Some((roll % 4) as usize) } else { None::<usize> }),
{
    let c = roll & 0x03;
    assert(roll & 0x03 == roll % 4) by (bit_vector);
    if c < 3 {
        Some(c as usize)
    } else {
        None
    }
}

/// The message of a password table without eleven categories.
pub open spec fn category_count_message(n: nat) -> Seq<char> {
    "Buena password table must contain exactly 11 categories, found "@ + decimal_digits(n)
}

/// Records today's drawn password after checking the table: there are categories, eleven of
/// them in the order, and the drawn one exists with three options.
pub fn set_buenas_password(
    password: &mut BuenasPasswordState,
    categories: &BuenaPasswordCategories,
    category_index: usize,
    option_index: usize,
    current_day: u8,
    routine: &str,
) -> (r: Result<(), SpecialRoutineError>)
    ensures
        r is Err ==> *final(password) == *old(password),
        if categories.order@.len() == 0 || categories.categories.key_seq().len() == 0 {
            r matches Err(SpecialRoutineError::MissingBuenaPasswordCategories { routine: rr }) && rr@ == routine@
        } else if categories.order@.len() != 11 {
            r matches Err(SpecialRoutineError::InvalidState { routine: rr, message: m }) && rr@ == routine@ && m@
                == category_count_message(categories.order@.len())
        } else if category_index >= 11 || !categories.categories.view().contains_key(
            categories.order@[category_index as int]@,
        ) || categories.categories.view()[categories.order@[category_index as int]@].options@.len() != 3 {
            r matches Err(SpecialRoutineError::InvalidBuenaPasswordCategoryIndex { routine: rr, index: i }) && rr@
                == routine@ && i == category_index
        } else {
            r is Ok && *final(password) == BuenasPasswordState {
                generated: true,
                category_index,
                option_index,
                generation_day: current_day,
            }
        },
{
    if categories.order.len() == 0 || categories.categories.is_empty() {
        return Err(SpecialRoutineError::MissingBuenaPasswordCategories { routine: copy_text(routine) });
    }
    if categories.order.len() != 11 {
        let message = message_with_number(
            "Buena password table must contain exactly 11 categories, found ",
            categories.order.len() as u64,
            "",
        );
        proof {
            reveal_strlit("");
            assert(message@ =~= category_count_message(categories.order@.len()));
        }
        return Err(SpecialRoutineError::InvalidState { routine: copy_text(routine), message });
    }
    if category_index >= 11 {
        return Err(SpecialRoutineError::InvalidBuenaPasswordCategoryIndex { routine: copy_text(routine), index: category_index });
    }
    let category = match categories.categories.get(categories.order[category_index].as_str()) {
        Some(c) => c,
        None => return Err(
            SpecialRoutineError::InvalidBuenaPasswordCategoryIndex { routine: copy_text(routine), index: category_index },
        ),
    };
    if category.options.len() != 3 {
        return Err(SpecialRoutineError::InvalidBuenaPasswordCategoryIndex { routine: copy_text(routine), index: category_index });
    }
    *password = BuenasPasswordState { generated: true, category_index, option_index, generation_day: current_day };
    Ok(())
}

/// Today's password: its category's id and the correct option.
pub fn buenas_password_answer(password: &BuenasPasswordState, categories: &BuenaPasswordCategories, routine: &str) -> (r:
    Result<(String, String), SpecialRoutineError>)
    ensures
        if password.category_index >= categories.order@.len() || !categories.categories.view().contains_key(
            categories.order@[password.category_index as int]@,
        ) {
            r matches Err(SpecialRoutineError::InvalidBuenaPasswordCategoryIndex { routine: rr, index: i }) && rr@
                == routine@ && i == password.category_index
        } else {
            let c = categories.categories.view()[categories.order@[password.category_index as int]@];
            if password.option_index >= c.options@.len() {
                r matches Err(SpecialRoutineError::InvalidBuenaPasswordOptionIndex { routine: rr, index: i }) && rr@
                    == routine@ && i == password.option_index
            } else {
                r matches Ok((id, correct)) && id@ == categories.order@[password.category_index as int]@ && correct@
                    == c.options@[password.option_index as int]@
            }
        },
{
    if password.category_index >= categories.order.len() {
        return Err(
            SpecialRoutineError::InvalidBuenaPasswordCategoryIndex { routine: copy_text(routine), index: password.category_index },
        );
    }
    let id = categories.order[password.category_index].as_str();
    let category = match categories.categories.get(id) {
        Some(c) => c,
        None => return Err(
            SpecialRoutineError::InvalidBuenaPasswordCategoryIndex { routine: copy_text(routine), index: password.category_index },
        ),
    };
    if password.option_index >= category.options.len() {
        return Err(
            SpecialRoutineError::InvalidBuenaPasswordOptionIndex { routine: copy_text(routine), index: password.option_index },
        );
    }
    Ok((copy_text(id), copy_text(category.options[password.option_index].as_str())))
}

/// Judges the player's guess against the correct option: a guess must be exact text for a
/// category of strings and an exact token otherwise; no guess never matches.
pub fn judge_buenas_password_guess(
    category: &BuenaPasswordCategoryDefinition,
    correct: &str,
    guess: Option<&str>,
    routine: &str,
) -> (r: Result<bool, SpecialRoutineError>)
    ensures
        match guess {
            None => r == Ok::<bool, SpecialRoutineError>(false),
            Some(g) => if !(if category.category_type@ == "BUENA_STRING"@ {
                is_exact_value(g@)
            } else {
                is_exact_token(g@)
            }) {
                r matches Err(SpecialRoutineError::InvalidBuenaPasswordGuess { routine: rr, guess: gg }) && rr@ == routine@
                    && gg@ == g@
            } else {
                r == Ok::<bool, SpecialRoutineError>(g@ == correct@)
            },
        },
{
    let g = match guess {
        None => return Ok(false),
        Some(g) => g,
    };
    let exact = if text_eq(category.category_type.as_str(), "BUENA_STRING") {
        is_exact_nonempty_special_value(g)
    } else {
        is_exact_nonempty_special_token(g)
    };
    if !exact {
        return Err(SpecialRoutineError::InvalidBuenaPasswordGuess { routine: copy_text(routine), guess: copy_text(g) });
    }
    Ok(text_eq(g, correct))
}

} // verus!
