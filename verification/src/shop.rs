//! Marts: the catalog of what each mart sells, the script command that opens a
//! shop, and buying and selling against the player's money and bag.
use vstd::prelude::*;
use crate::items::{Bag, Item, MAX_ITEM_STACK};
use crate::ordered::TextMap;
use crate::state::{CurrencyCatalog, GameState, ScriptShopRequest, ScriptShopRuntimeEvent};
use crate::text::{decimal_chars, decimal_digits, text_from_chars, zero_padded, 
    copy_text, is_blank, is_blank_text, is_exact_graphic_token, is_exact_graphic_token_text,
    is_exact_lower_token, is_exact_lower_token_text, is_exact_token, is_exact_token_text,
    has_reserved_prefix, has_reserved_pack_prefix as text_has_reserved_pack_prefix, text_eq,
};

verus! {

pub const PRICE_DIGITS: usize = 6;

pub const CANCEL_ITEM_ID: &'static str = "CANCEL";

pub const MART_MENU_PAGE_SIZE: usize = 4;

/// Script commands that open a shop.
pub fn script_shop_commands() -> (v: Vec<&'static str>)
    ensures
        v@.len() == 1,
        v@[0]@ == "pokemart"@,
{
    vec!["pokemart"]
}

/// Mart types that sell a catalog inventory.
pub fn script_shop_standard_mart_types() -> (v: Vec<&'static str>)
    ensures
        v@.len() == 3,
        v@[0]@ == "MARTTYPE_STANDARD"@,
        v@[1]@ == "MARTTYPE_PHARMACY"@,
        v@[2]@ == "MARTTYPE_BITTER"@,
{
    vec!["MARTTYPE_STANDARD", "MARTTYPE_PHARMACY", "MARTTYPE_BITTER"]
}

/// Mart types that may use the explicit mart id `0`.
pub fn script_shop_zero_mart_types() -> (v: Vec<&'static str>)
    ensures
        v@.len() == 2,
        v@[0]@ == "MARTTYPE_BARGAIN"@,
        v@[1]@ == "MARTTYPE_ROOFTOP"@,
{
    vec!["MARTTYPE_BARGAIN", "MARTTYPE_ROOFTOP"]
}

pub open spec fn is_standard_mart_type(t: Seq<char>) -> bool {
    t == "MARTTYPE_STANDARD"@ || t == "MARTTYPE_PHARMACY"@ || t == "MARTTYPE_BITTER"@
}

pub open spec fn is_zero_mart_type(t: Seq<char>) -> bool {
    t == "MARTTYPE_BARGAIN"@ || t == "MARTTYPE_ROOFTOP"@
}

pub fn is_known_script_shop_command(command: &str) -> (b: bool)
    ensures
        b == (command@ == "pokemart"@),
{
    text_eq(command, "pokemart")
}

pub fn is_known_script_mart_type(mart_type: &str) -> (b: bool)
    ensures
        b == (is_standard_mart_type(mart_type@) || is_zero_mart_type(mart_type@)),
{
    text_eq(mart_type, "MARTTYPE_STANDARD") || text_eq(mart_type, "MARTTYPE_PHARMACY") || text_eq(
        mart_type,
        "MARTTYPE_BITTER",
    ) || is_zero_mart_type_text(mart_type)
}

fn is_zero_mart_type_text(mart_type: &str) -> (b: bool)
    ensures
        b == is_zero_mart_type(mart_type@),
{
    text_eq(mart_type, "MARTTYPE_BARGAIN") || text_eq(mart_type, "MARTTYPE_ROOFTOP")
}

/// A `pokemart` script command as compiled from a map script.
#[derive(Debug, PartialEq, Eq)]
pub struct ScriptShopCommand {
    pub command: String,
    pub mart_type: String,
    pub mart_id: String,
    pub source_script: String,
    pub command_index: usize,
}

/// Mart id to the exact item ids it sells, in mart id order.
#[derive(Debug, PartialEq, Eq)]
pub struct MartCatalog(pub TextMap<Vec<String>>);

pub open spec fn texts(v: Vec<String>) -> Seq<Seq<char>> {
    v@.map_values(|s: String| s@)
}

impl MartCatalog {
    /// The item ids a mart sells.
    pub open spec fn ids_of(&self, mart_id: Seq<char>) -> Seq<Seq<char>> {
        texts(self.0.view()[mart_id])
    }

    pub fn empty() -> (c: Self)
        ensures
            c.0.view().dom() == Set::<Seq<char>>::empty(),
            c.0.key_seq().len() == 0,
    {
        let c = MartCatalog(TextMap::new());
        proof {
            assert(c.0.view().dom() =~= Set::<Seq<char>>::empty());
        }
        c
    }

    pub fn inventory_ids(&self, mart_id: &str) -> (r: Result<&[String], ShopError>)
        ensures
            match r {
                Ok(ids) => self.0.view().contains_key(mart_id@) && ids@ == self.0.view()[mart_id@]@,
                Err(e) => !self.0.view().contains_key(mart_id@) && e@ == (ShopErrorView::UnknownMart {
                    mart_id: mart_id@,
                }),
            },
    {
        match self.0.get(mart_id) {
            Some(ids) => Ok(ids.as_slice()),
            None => Err(ShopError::UnknownMart { mart_id: copy_text(mart_id) }),
        }
    }
}

/// A problem found in a mart catalog.
#[derive(Debug, PartialEq, Eq)]
pub enum MartCatalogIssue {
    EmptyMartId { mart_id: String },
    InvalidMartId { mart_id: String },
    InvalidItem { mart_id: String, item_id: String },
    UnknownItem { mart_id: String, item_id: String },
}

pub enum MartCatalogIssueView {
    EmptyMartId { mart_id: Seq<char> },
    InvalidMartId { mart_id: Seq<char> },
    InvalidItem { mart_id: Seq<char>, item_id: Seq<char> },
    UnknownItem { mart_id: Seq<char>, item_id: Seq<char> },
}

impl View for MartCatalogIssue {
    type V = MartCatalogIssueView;

    open spec fn view(&self) -> MartCatalogIssueView {
        match self {
            MartCatalogIssue::EmptyMartId { mart_id } => MartCatalogIssueView::EmptyMartId {
                mart_id: mart_id@,
            },
            MartCatalogIssue::InvalidMartId { mart_id } => MartCatalogIssueView::InvalidMartId {
                mart_id: mart_id@,
            },
            MartCatalogIssue::InvalidItem { mart_id, item_id } => MartCatalogIssueView::InvalidItem {
                mart_id: mart_id@,
                item_id: item_id@,
            },
            MartCatalogIssue::UnknownItem { mart_id, item_id } => MartCatalogIssueView::UnknownItem {
                mart_id: mart_id@,
                item_id: item_id@,
            },
        }
    }
}

pub open spec fn mart_issue_views(v: Seq<MartCatalogIssue>) -> Seq<MartCatalogIssueView> {
    v.map_values(|i: MartCatalogIssue| i@)
}

/// Issues of one mart's item list.
pub open spec fn mart_item_issues(
    mart_id: Seq<char>,
    ids: Seq<Seq<char>>,
    known: Set<Seq<char>>,
) -> Seq<MartCatalogIssueView>
    decreases ids.len(),
{
    if ids.len() == 0 {
        seq![]
    } else {
        let id = ids.last();
        let rest = mart_item_issues(mart_id, ids.drop_last(), known);
        if !is_exact_token(id) {
            rest.push(MartCatalogIssueView::InvalidItem { mart_id, item_id: id })
        } else if !known.contains(id) {
            rest.push(MartCatalogIssueView::UnknownItem { mart_id, item_id: id })
        } else {
            rest
        }
    }
}

/// Issues of one mart: its id, then its items.
pub open spec fn mart_entry_issues(
    mart_id: Seq<char>,
    ids: Seq<Seq<char>>,
    known: Set<Seq<char>>,
) -> Seq<MartCatalogIssueView> {
    let head: Seq<MartCatalogIssueView> = if is_blank(mart_id) {
        seq![MartCatalogIssueView::EmptyMartId { mart_id }]
    } else if !is_exact_token(mart_id) {
        seq![MartCatalogIssueView::InvalidMartId { mart_id }]
    } else {
        seq![]
    };
    head + mart_item_issues(mart_id, ids, known)
}

/// Issues of the first `n` marts, in mart id order.
pub open spec fn mart_catalog_issue_list(
    catalog: MartCatalog,
    known: Set<Seq<char>>,
    n: int,
) -> Seq<MartCatalogIssueView>
    decreases n,
{
    if n <= 0 {
        seq![]
    } else {
        mart_catalog_issue_list(catalog, known, n - 1) + mart_entry_issues(
            catalog.0.key_seq()[n - 1],
            texts(catalog.0.value_seq()[n - 1]),
            known,
        )
    }
}

/// Every mart id and item id that is malformed, and every item the items do not define.
pub fn mart_catalog_issues(catalog: &MartCatalog, items: &TextMap<Item>) -> (issues: Vec<
    MartCatalogIssue,
>)
    ensures
        mart_issue_views(issues@) == mart_catalog_issue_list(
            *catalog,
            items.view().dom(),
            catalog.0.key_seq().len() as int,
        ),
{
    let mut issues: Vec<MartCatalogIssue> = Vec::new();
    let n = catalog.0.len();
    let mut m: usize = 0;
    while m < n
        invariant
            n == catalog.0.key_seq().len(),
            n == catalog.0.value_seq().len(),
            m <= n,
            mart_issue_views(issues@) == mart_catalog_issue_list(*catalog, items.view().dom(), m as int),
        decreases n - m,
    {
        let mart_id = catalog.0.key_at(m);
        let ids = catalog.0.value_at(m);
        let ghost before = mart_issue_views(issues@);
        if is_blank_text(mart_id.as_str()) {
            issues.push(MartCatalogIssue::EmptyMartId { mart_id: mart_id.clone() });
        } else if !is_exact_shop_token(mart_id.as_str()) {
            issues.push(MartCatalogIssue::InvalidMartId { mart_id: mart_id.clone() });
        }
        let ghost after_head = mart_issue_views(issues@);
        proof {
            let head: Seq<MartCatalogIssueView> = if is_blank(mart_id@) {
                seq![MartCatalogIssueView::EmptyMartId { mart_id: mart_id@ }]
            } else if !is_exact_token(mart_id@) {
                seq![MartCatalogIssueView::InvalidMartId { mart_id: mart_id@ }]
            } else {
                seq![]
            };
            assert(after_head =~= before + head);
        }
        let mut k: usize = 0;
        while k < ids.len()
            invariant
                k <= ids@.len(),
                mart_issue_views(issues@) == after_head + mart_item_issues(
                    mart_id@,
                    texts(*ids).take(k as int),
                    items.view().dom(),
                ),
            decreases ids.len() - k,
        {
            let item_id = &ids[k];
            let ghost prev = issues@;
            proof {
                assert(texts(*ids).take(k + 1).drop_last() =~= texts(*ids).take(k as int));
                assert(texts(*ids).take(k + 1).last() == item_id@);
            }
            let ghost rest = mart_item_issues(mart_id@, texts(*ids).take(k as int), items.view().dom());
            if !is_exact_shop_token(item_id.as_str()) {
                issues.push(
                    MartCatalogIssue::InvalidItem { mart_id: mart_id.clone(), item_id: item_id.clone() },
                );
                proof {
                    assert(mart_item_issues(mart_id@, texts(*ids).take(k + 1), items.view().dom())
                        == rest.push(MartCatalogIssueView::InvalidItem { mart_id: mart_id@, item_id: item_id@ }));
                    assert(mart_issue_views(issues@) =~= mart_issue_views(prev).push(MartCatalogIssueView::InvalidItem { mart_id: mart_id@, item_id: item_id@ }));
                }
            } else if !items.contains_key(item_id.as_str()) {
                issues.push(
                    MartCatalogIssue::UnknownItem { mart_id: mart_id.clone(), item_id: item_id.clone() },
                );
                proof {
                    assert(mart_item_issues(mart_id@, texts(*ids).take(k + 1), items.view().dom())
                        == rest.push(MartCatalogIssueView::UnknownItem { mart_id: mart_id@, item_id: item_id@ }));
                    assert(mart_issue_views(issues@) =~= mart_issue_views(prev).push(MartCatalogIssueView::UnknownItem { mart_id: mart_id@, item_id: item_id@ }));
                }
            }
            proof {
                assert(mart_issue_views(issues@) =~= after_head + mart_item_issues(
                    mart_id@,
                    texts(*ids).take(k + 1),
                    items.view().dom(),
                ));
            }
            k += 1;
        }
        proof {
            assert(texts(*ids).take(ids@.len() as int) =~= texts(*ids));
            assert(mart_issue_views(issues@) =~= mart_catalog_issue_list(
                *catalog,
                items.view().dom(),
                m + 1,
            ));
        }
        m += 1;
    }
    issues
}

/// An item offered by a mart menu.
#[derive(Debug, PartialEq, Eq)]
pub struct MartItem {
    pub identifier: String,
    pub display_name: String,
    pub price: u32,
}

/// What a purchase or sale did.
#[derive(Debug, PartialEq, Eq)]
pub struct ShopResult {
    pub success: bool,
    pub message: String,
    pub credited: u32,
}

/// The shop a script command opened.
#[derive(Debug, PartialEq, Eq)]
pub struct ScriptShopOutcome {
    pub mart_type: String,
    pub mart_id: String,
    pub inventory: Vec<String>,
    pub source_script: String,
    pub command_index: usize,
}

/// Why a shop operation was refused.
#[derive(Debug, PartialEq, Eq)]
pub enum ShopError {
    UnknownMart { mart_id: String },
    UnknownMartItem { mart_id: String, item_id: String },
    UnknownItem { item_id: String },
    MissingActiveScriptShop,
    MissingActiveSellShop,
    ItemNotSoldByActiveScriptShop { mart_id: String, item_id: String },
    InvalidItemId { item_id: String },
    InvalidQuantity,
    InvalidCommand { command: String },
    UnknownCommand { command: String },
    QuantityTooLarge { quantity: u32 },
    UnknownMartType { mart_type: String },
    InvalidMartType { mart_type: String },
    InvalidMartId { mart_id: String },
    InvalidSourceScript { source_script: String },
    InvalidZeroMart { mart_type: String },
    MissingCurrencyLimit { constant: String },
    Bag { message: String },
}

pub enum ShopErrorView {
    UnknownMart { mart_id: Seq<char> },
    UnknownMartItem { mart_id: Seq<char>, item_id: Seq<char> },
    UnknownItem { item_id: Seq<char> },
    MissingActiveScriptShop,
    MissingActiveSellShop,
    ItemNotSoldByActiveScriptShop { mart_id: Seq<char>, item_id: Seq<char> },
    InvalidItemId { item_id: Seq<char> },
    InvalidQuantity,
    InvalidCommand { command: Seq<char> },
    UnknownCommand { command: Seq<char> },
    QuantityTooLarge { quantity: u32 },
    UnknownMartType { mart_type: Seq<char> },
    InvalidMartType { mart_type: Seq<char> },
    InvalidMartId { mart_id: Seq<char> },
    InvalidSourceScript { source_script: Seq<char> },
    InvalidZeroMart { mart_type: Seq<char> },
    MissingCurrencyLimit { constant: Seq<char> },
    Bag { message: Seq<char> },
}

impl View for ShopError {
    type V = ShopErrorView;

    open spec fn view(&self) -> ShopErrorView {
        match self {
            ShopError::UnknownMart { mart_id } => ShopErrorView::UnknownMart { mart_id: mart_id@ },
            ShopError::UnknownMartItem { mart_id, item_id } => ShopErrorView::UnknownMartItem {
                mart_id: mart_id@,
                item_id: item_id@,
            },
            ShopError::UnknownItem { item_id } => ShopErrorView::UnknownItem { item_id: item_id@ },
            ShopError::MissingActiveScriptShop => ShopErrorView::MissingActiveScriptShop,
            ShopError::MissingActiveSellShop => ShopErrorView::MissingActiveSellShop,
            ShopError::ItemNotSoldByActiveScriptShop { mart_id, item_id } =>
                ShopErrorView::ItemNotSoldByActiveScriptShop { mart_id: mart_id@, item_id: item_id@ },
            ShopError::InvalidItemId { item_id } => ShopErrorView::InvalidItemId { item_id: item_id@ },
            ShopError::InvalidQuantity => ShopErrorView::InvalidQuantity,
            ShopError::InvalidCommand { command } => ShopErrorView::InvalidCommand { command: command@ },
            ShopError::UnknownCommand { command } => ShopErrorView::UnknownCommand { command: command@ },
            ShopError::QuantityTooLarge { quantity } => ShopErrorView::QuantityTooLarge {
                quantity: *quantity,
            },
            ShopError::UnknownMartType { mart_type } => ShopErrorView::UnknownMartType {
                mart_type: mart_type@,
            },
            ShopError::InvalidMartType { mart_type } => ShopErrorView::InvalidMartType {
                mart_type: mart_type@,
            },
            ShopError::InvalidMartId { mart_id } => ShopErrorView::InvalidMartId { mart_id: mart_id@ },
            ShopError::InvalidSourceScript { source_script } => ShopErrorView::InvalidSourceScript {
                source_script: source_script@,
            },
            ShopError::InvalidZeroMart { mart_type } => ShopErrorView::InvalidZeroMart {
                mart_type: mart_type@,
            },
            ShopError::MissingCurrencyLimit { constant } => ShopErrorView::MissingCurrencyLimit {
                constant: constant@,
            },
            ShopError::Bag { message } => ShopErrorView::Bag { message: message@ },
        }
    }
}

/// The error a result carries, by view.
pub open spec fn shop_error_of<T>(r: Result<T, ShopError>) -> Option<ShopErrorView> {
    match r {
        Ok(_) => None,
        Err(e) => Some(e@),
    }
}

pub open spec fn command_token_error(command: Seq<char>) -> Option<ShopErrorView> {
    if !is_exact_lower_token(command) {
        Some(ShopErrorView::InvalidCommand { command })
    } else if command != "pokemart"@ {
        Some(ShopErrorView::UnknownCommand { command })
    } else {
        None
    }
}

pub open spec fn source_script_error(source_script: Seq<char>) -> Option<ShopErrorView> {
    if is_exact_graphic_token(source_script) {
        None
    } else {
        Some(ShopErrorView::InvalidSourceScript { source_script })
    }
}

pub open spec fn mart_type_error(mart_type: Seq<char>) -> Option<ShopErrorView> {
    if !is_exact_token(mart_type) {
        Some(ShopErrorView::InvalidMartType { mart_type })
    } else if is_standard_mart_type(mart_type) || is_zero_mart_type(mart_type) {
        None
    } else {
        Some(ShopErrorView::UnknownMartType { mart_type })
    }
}

pub open spec fn zero_mart_error(mart_type: Seq<char>) -> Option<ShopErrorView> {
    if is_zero_mart_type(mart_type) {
        None
    } else {
        Some(ShopErrorView::InvalidZeroMart { mart_type })
    }
}

/// The shape checks every command must pass, whatever the catalog holds.
pub open spec fn shop_command_shape_error(command: ScriptShopCommand) -> Option<ShopErrorView> {
    if command_token_error(command.command@) is Some {
        command_token_error(command.command@)
    } else if source_script_error(command.source_script@) is Some {
        source_script_error(command.source_script@)
    } else if mart_type_error(command.mart_type@) is Some {
        mart_type_error(command.mart_type@)
    } else if command.mart_id@ == "0"@ {
        zero_mart_error(command.mart_type@)
    } else {
        None
    }
}

/// The first reason a command cannot open a shop from `marts`, if any.
pub open spec fn shop_command_error(marts: Set<Seq<char>>, command: ScriptShopCommand) -> Option<
    ShopErrorView,
> {
    if shop_command_shape_error(command) is Some {
        shop_command_shape_error(command)
    } else if command.mart_id@ == "0"@ {
        None
    } else if !is_exact_token(command.mart_id@) {
        Some(ShopErrorView::InvalidMartId { mart_id: command.mart_id@ })
    } else if !marts.contains(command.mart_id@) {
        Some(ShopErrorView::UnknownMart { mart_id: command.mart_id@ })
    } else {
        None
    }
}

/// A problem with a script shop command, at its place in the scripts.
#[derive(Debug, PartialEq, Eq)]
pub struct ScriptShopCommandIssue {
    pub source_script: String,
    pub command_index: usize,
    pub error: ShopError,
}

/// Errors the catalog check reports for a command (those that concern the command itself).
pub open spec fn is_command_issue(e: ShopErrorView) -> bool {
    ||| e is InvalidMartType
    ||| e is InvalidCommand
    ||| e is UnknownCommand
    ||| e is UnknownMartType
    ||| e is InvalidMartId
    ||| e is InvalidSourceScript
    ||| e is InvalidZeroMart
    ||| e is UnknownMart
}

/// The commands among the first `n` that have an issue, with their issue.
pub open spec fn command_issue_list(
    marts: Set<Seq<char>>,
    commands: Seq<ScriptShopCommand>,
    n: int,
) -> Seq<(Seq<char>, usize, ShopErrorView)>
    decreases n,
{
    if n <= 0 {
        seq![]
    } else {
        let c = commands[n - 1];
        let rest = command_issue_list(marts, commands, n - 1);
        match shop_command_error(marts, c) {
            Some(e) => if is_command_issue(e) {
                rest.push((c.source_script@, c.command_index, e))
            } else {
                rest
            },
            None => rest,
        }
    }
}

pub open spec fn command_issue_views(v: Seq<ScriptShopCommandIssue>) -> Seq<
    (Seq<char>, usize, ShopErrorView),
> {
    v.map_values(|i: ScriptShopCommandIssue| (i.source_script@, i.command_index, i.error@))
}

/// Every command that cannot open a shop from `catalog`, in command order.
pub fn script_shop_command_issues(
    catalog: &MartCatalog,
    commands: &[ScriptShopCommand],
) -> (issues: Vec<ScriptShopCommandIssue>)
    ensures
        command_issue_views(issues@) == command_issue_list(
            catalog.0.view().dom(),
            commands@,
            commands@.len() as int,
        ),
{
    let mut issues: Vec<ScriptShopCommandIssue> = Vec::new();
    let mut i: usize = 0;
    while i < commands.len()
        invariant
            i <= commands@.len(),
            command_issue_views(issues@) == command_issue_list(
                catalog.0.view().dom(),
                commands@,
                i as int,
            ),
        decreases commands.len() - i,
    {
        let command = &commands[i];
        match validate_script_shop_command(catalog, command) {
            Err(error) => {
                if is_command_issue_exec(&error) {
                    issues.push(
                        ScriptShopCommandIssue {
                            source_script: command.source_script.clone(),
                            command_index: command.command_index,
                            error,
                        },
                    );
                }
            },
            Ok(()) => {},
        }
        proof {
            assert(command_issue_views(issues@) =~= command_issue_list(
                catalog.0.view().dom(),
                commands@,
                i + 1,
            ));
        }
        i += 1;
    }
    issues
}

fn is_command_issue_exec(error: &ShopError) -> (b: bool)
    ensures
        b == is_command_issue(error@),
{
    match error {
        ShopError::InvalidMartType { .. } | ShopError::InvalidCommand { .. }
        | ShopError::UnknownCommand { .. } | ShopError::UnknownMartType { .. }
        | ShopError::InvalidMartId { .. } | ShopError::InvalidSourceScript { .. }
        | ShopError::InvalidZeroMart { .. } | ShopError::UnknownMart { .. } => true,
        _ => false,
    }
}

/// The checks a command must pass before the catalog is consulted.
pub fn validate_script_shop_command_shape(command: &ScriptShopCommand) -> (r: Result<(), ShopError>)
    ensures
        shop_error_of(r) == shop_command_shape_error(*command),
{
    validate_script_shop_command_token(command.command.as_str())?;
    validate_script_shop_source_script(command.source_script.as_str())?;
    validate_script_mart_type(command.mart_type.as_str())?;
    if text_eq(command.mart_id.as_str(), "0") {
        validate_zero_mart(command.mart_type.as_str())?;
    }
    Ok(())
}

/// Checks a command against the catalog without opening a shop.
pub fn validate_script_shop_command(catalog: &MartCatalog, command: &ScriptShopCommand) -> (r:
    Result<(), ShopError>)
    ensures
        shop_error_of(r) == shop_command_error(catalog.0.view().dom(), *command),
{
    validate_script_shop_command_token(command.command.as_str())?;
    validate_script_shop_source_script(command.source_script.as_str())?;
    validate_script_mart_type(command.mart_type.as_str())?;
    if text_eq(command.mart_id.as_str(), "0") {
        validate_zero_mart(command.mart_type.as_str())
    } else if !is_exact_shop_token(command.mart_id.as_str()) {
        Err(ShopError::InvalidMartId { mart_id: command.mart_id.clone() })
    } else {
        match catalog.inventory_ids(command.mart_id.as_str()) {
            Ok(_) => Ok(()),
            Err(e) => Err(e),
        }
    }
}

fn validate_script_mart_type(mart_type: &str) -> (r: Result<(), ShopError>)
    ensures
        shop_error_of(r) == mart_type_error(mart_type@),
{
    if !is_exact_shop_token(mart_type) {
        Err(ShopError::InvalidMartType { mart_type: copy_text(mart_type) })
    } else if is_known_script_mart_type(mart_type) {
        Ok(())
    } else {
        Err(ShopError::UnknownMartType { mart_type: copy_text(mart_type) })
    }
}

fn validate_script_shop_command_token(command: &str) -> (r: Result<(), ShopError>)
    ensures
        shop_error_of(r) == command_token_error(command@),
{
    if !is_exact_script_shop_command_token(command) {
        Err(ShopError::InvalidCommand { command: copy_text(command) })
    } else if is_known_script_shop_command(command) {
        Ok(())
    } else {
        Err(ShopError::UnknownCommand { command: copy_text(command) })
    }
}

fn is_exact_script_shop_command_token(value: &str) -> (b: bool)
    ensures
        b == is_exact_lower_token(value@),
{
    is_exact_lower_token_text(value)
}

fn is_exact_shop_token(value: &str) -> (b: bool)
    ensures
        b == is_exact_token(value@),
{
    is_exact_token_text(value)
}

fn is_exact_script_shop_label_token(value: &str) -> (b: bool)
    ensures
        b == is_exact_graphic_token(value@),
{
    is_exact_graphic_token_text(value)
}

fn validate_script_shop_source_script(source_script: &str) -> (r: Result<(), ShopError>)
    ensures
        shop_error_of(r) == source_script_error(source_script@),
{
    if is_exact_script_shop_label_token(source_script) {
        Ok(())
    } else {
        Err(ShopError::InvalidSourceScript { source_script: copy_text(source_script) })
    }
}

/// Whether a shop token starts with a reserved word in any ASCII case.
pub fn has_reserved_pack_prefix(value: &str) -> (b: bool)
    ensures
        b == has_reserved_prefix(value@),
{
    text_has_reserved_pack_prefix(value)
}

fn validate_zero_mart(mart_type: &str) -> (r: Result<(), ShopError>)
    ensures
        shop_error_of(r) == zero_mart_error(mart_type@),
{
    if is_zero_mart_type_text(mart_type) {
        Ok(())
    } else {
        Err(ShopError::InvalidZeroMart { mart_type: copy_text(mart_type) })
    }
}

/// Every item of `ids` is defined.
pub open spec fn all_items_known(ids: Seq<Seq<char>>, items: Map<Seq<char>, Item>) -> bool {
    forall|j: int| 0 <= j < ids.len() ==> items.contains_key(#[trigger] ids[j])
}

/// `i` is the first position of `ids` whose item is not defined.
pub open spec fn first_unknown_item(ids: Seq<Seq<char>>, items: Map<Seq<char>, Item>, i: int) -> bool {
    &&& 0 <= i < ids.len()
    &&& !items.contains_key(ids[i])
    &&& forall|j: int| 0 <= j < i ==> items.contains_key(#[trigger] ids[j])
}

/// The menu entries for `ids`: exact script name, display name and price.
pub open spec fn menu_matches(menu: Seq<MartItem>, ids: Seq<Seq<char>>, items: Map<Seq<char>, Item>) -> bool {
    &&& menu.len() == ids.len()
    &&& forall|j: int|
        0 <= j < ids.len() ==> {
            &&& (#[trigger] menu[j]).identifier@ == items[ids[j]].script_name@
            &&& menu[j].display_name@ == items[ids[j]].name@
            &&& menu[j].price == items[ids[j]].price as u32
        }
}

/// The items a mart sells, in catalog order.
pub fn load_inventory(catalog: &MartCatalog, items: &TextMap<Item>, mart_id: &str) -> (r: Result<
    Vec<MartItem>,
    ShopError,
>)
    ensures
        match r {
            Ok(menu) => catalog.0.view().contains_key(mart_id@) && all_items_known(
                catalog.ids_of(mart_id@),
                items.view(),
            ) && menu_matches(menu@, catalog.ids_of(mart_id@), items.view()),
            Err(e) => if !catalog.0.view().contains_key(mart_id@) {
                e@ == (ShopErrorView::UnknownMart { mart_id: mart_id@ })
            } else {
                exists|i: int|
                    first_unknown_item(catalog.ids_of(mart_id@), items.view(), i) && e@
                        == (ShopErrorView::UnknownMartItem {
                        mart_id: mart_id@,
                        item_id: catalog.ids_of(mart_id@)[i],
                    })
            },
        },
{
    let ids = catalog.inventory_ids(mart_id)?;
    let ghost id_views = catalog.ids_of(mart_id@);
    let mut inventory: Vec<MartItem> = Vec::new();
    let mut i: usize = 0;
    while i < ids.len()
        invariant
            i <= ids@.len(),
            id_views == ids@.map_values(|s: String| s@),
            catalog.0.view().contains_key(mart_id@),
            id_views == catalog.ids_of(mart_id@),
            forall|j: int| 0 <= j < i ==> items.view().contains_key(#[trigger] id_views[j]),
            menu_matches(inventory@, id_views.take(i as int), items.view()),
        decreases ids.len() - i,
    {
        let item_id = &ids[i];
        match items.get(item_id.as_str()) {
            Some(item) => {
                inventory.push(
                    MartItem {
                        identifier: item.script_name.clone(),
                        display_name: item.name.clone(),
                        price: item.price as u32,
                    },
                );
            },
            None => {
                let e = ShopError::UnknownMartItem { mart_id: copy_text(mart_id), item_id: item_id.clone() };
                proof {
                    assert(id_views[i as int] == item_id@);
                    assert(first_unknown_item(id_views, items.view(), i as int));
                    assert(e@ == (ShopErrorView::UnknownMartItem { mart_id: mart_id@, item_id: id_views[i as int] }));
                    assert(catalog.0.view().contains_key(mart_id@));
                    assert(id_views == catalog.ids_of(mart_id@));
                    assert(exists|i: int|
                    first_unknown_item(catalog.ids_of(mart_id@), items.view(), i) && e@
                        == (ShopErrorView::UnknownMartItem {
                        mart_id: mart_id@,
                        item_id: catalog.ids_of(mart_id@)[i],
                    }));
                }
                return Err(e);
            },
        }
        i += 1;
    }
    proof {
        assert(id_views.take(ids@.len() as int) =~= id_views);
    }
    Ok(inventory)
}

/// The buy menu: the mart's items followed by the cancel entry.
pub fn build_buy_menu(catalog: &MartCatalog, items: &TextMap<Item>, mart_id: &str) -> (r: Result<
    Vec<MartItem>,
    ShopError,
>)
    ensures
        match r {
            Ok(menu) => catalog.0.view().contains_key(mart_id@) && all_items_known(
                catalog.ids_of(mart_id@),
                items.view(),
            ) && menu@.len() == catalog.ids_of(mart_id@).len() + 1 && menu_matches(
                menu@.drop_last(),
                catalog.ids_of(mart_id@),
                items.view(),
            ) && menu@.last().identifier@ == CANCEL_ITEM_ID@ && menu@.last().display_name@
                == CANCEL_ITEM_ID@ && menu@.last().price == 0,
            Err(e) => if !catalog.0.view().contains_key(mart_id@) {
                e@ == (ShopErrorView::UnknownMart { mart_id: mart_id@ })
            } else {
                exists|i: int|
                    first_unknown_item(catalog.ids_of(mart_id@), items.view(), i) && e@
                        == (ShopErrorView::UnknownMartItem {
                        mart_id: mart_id@,
                        item_id: catalog.ids_of(mart_id@)[i],
                    })
            },
        },
{
    let mut inventory = load_inventory(catalog, items, mart_id)?;
    let ghost before = inventory@;
    inventory.push(
        MartItem {
            identifier: copy_text(CANCEL_ITEM_ID),
            display_name: copy_text(CANCEL_ITEM_ID),
            price: 0,
        },
    );
    proof {
        assert(inventory@.drop_last() =~= before);
    }
    Ok(inventory)
}

/// The exact item ids of the menu.
fn menu_identifiers(menu: Vec<MartItem>) -> (ids: Vec<String>)
    ensures
        ids@.len() == menu@.len(),
        forall|j: int| 0 <= j < menu@.len() ==> (#[trigger] ids@[j])@ == menu@[j].identifier@,
{
    let mut ids: Vec<String> = Vec::new();
    let mut i: usize = 0;
    while i < menu.len()
        invariant
            i <= menu@.len(),
            ids@.len() == i,
            forall|j: int| 0 <= j < i ==> (#[trigger] ids@[j])@ == menu@[j].identifier@,
        decreases menu.len() - i,
    {
        ids.push(menu[i].identifier.clone());
        i += 1;
    }
    ids
}

fn copy_texts(v: &Vec<String>) -> (r: Vec<String>)
    ensures
        texts(r) == texts(*v),
{
    let r = v.clone();
    proof {
        assert(texts(r) =~= texts(*v));
    }
    r
}

/// The script names of the items a mart sells.
pub open spec fn inventory_names(ids: Seq<Seq<char>>, items: Map<Seq<char>, Item>) -> Seq<Seq<char>> {
    ids.map_values(|id: Seq<char>| items[id].script_name@)
}

/// Opens the shop a script command names: sets it as the active shop and records it.
pub fn apply_script_shop_command(
    state: &mut GameState,
    catalog: &MartCatalog,
    items: &TextMap<Item>,
    command: ScriptShopCommand,
) -> (r: Result<ScriptShopOutcome, ShopError>)
    ensures
        ({
            let err = shop_command_error(catalog.0.view().dom(), command);
            let zero = command.mart_id@ == "0"@;
            let ids = catalog.ids_of(command.mart_id@);
            if err is Some {
                shop_error_of(r) == err && *final(state) == *old(state)
            } else if !zero && !all_items_known(ids, items.view()) {
                *final(state) == *old(state) && exists|i: int|
                    first_unknown_item(ids, items.view(), i) && shop_error_of(r) == Some(
                        ShopErrorView::UnknownMartItem { mart_id: command.mart_id@, item_id: ids[i] },
                    )
            } else {
                let inventory = if zero { Seq::<Seq<char>>::empty() } else { inventory_names(ids, items.view()) };
                &&& r matches Ok(outcome) && outcome.mart_type@ == command.mart_type@
                    && outcome.mart_id@ == command.mart_id@ && texts(outcome.inventory) == inventory
                    && outcome.source_script@ == command.source_script@ && outcome.command_index
                    == command.command_index
                &&& final(state).script_runtime.pending_shop matches Some(shop) && shop.mart_type@
                    == command.mart_type@ && shop.mart_id@ == command.mart_id@ && texts(shop.inventory)
                    == inventory && shop.source_script@ == command.source_script@
                    && shop.command_index == command.command_index
                &&& final(state).script_runtime.shop_events@.len() == old(state).script_runtime.shop_events@.len() + 1
                &&& final(state).script_runtime.shop_events@.drop_last() == old(state).script_runtime.shop_events@
                &&& final(state).script_runtime.shop_events@.last().mart_type@ == command.mart_type@
                &&& final(state).script_runtime.shop_events@.last().mart_id@ == command.mart_id@
                &&& texts(final(state).script_runtime.shop_events@.last().inventory) == inventory
                &&& final(state).script_runtime.shop_events@.last().source_script@ == command.source_script@
                &&& final(state).script_runtime.shop_events@.last().command_index == command.command_index
                &&& final(state).script_runtime.special_phone_call == old(state).script_runtime.special_phone_call
                &&& final(state).money == old(state).money
                &&& final(state).bag == old(state).bag
                &&& final(state).step_events == old(state).step_events
                &&& final(state).storage == old(state).storage
                &&& final(state).party == old(state).party
                &&& final(state).flags == old(state).flags
                &&& final(state).pokedex == old(state).pokedex
                &&& final(state).day_care == old(state).day_care
                &&& final(state).repel_steps_remaining == old(state).repel_steps_remaining
                &&& final(state).active_repel_item == old(state).active_repel_item
                &&& final(state).player_name == old(state).player_name
                &&& final(state).player_id == old(state).player_id
                &&& final(state).player_gender == old(state).player_gender
                &&& final(state).time_of_day == old(state).time_of_day
            }
        }),
{
    validate_script_shop_command(catalog, &command)?;
    let inventory: Vec<String> = if text_eq(command.mart_id.as_str(), "0") {
        validate_zero_mart(command.mart_type.as_str())?;
        Vec::new()
    } else {
        let menu = load_inventory(catalog, items, command.mart_id.as_str())?;
        let ids = menu_identifiers(menu);
        proof {
            let idv = catalog.ids_of(command.mart_id@);
            assert(texts(ids) =~= inventory_names(idv, items.view()));
        }
        ids
    };
    proof {
        if command.mart_id@ == "0"@ {
            assert(texts(inventory) =~= Seq::<Seq<char>>::empty());
        }
    }
    state.script_runtime.pending_shop = Some(
        ScriptShopRequest {
            mart_type: command.mart_type.clone(),
            mart_id: command.mart_id.clone(),
            inventory: copy_texts(&inventory),
            source_script: command.source_script.clone(),
            command_index: command.command_index,
        },
    );
    state.script_runtime.shop_events.push(
        ScriptShopRuntimeEvent {
            mart_type: command.mart_type.clone(),
            mart_id: command.mart_id.clone(),
            inventory: copy_texts(&inventory),
            source_script: command.source_script.clone(),
            command_index: command.command_index,
        },
    );
    Ok(
        ScriptShopOutcome {
            mart_type: command.mart_type,
            mart_id: command.mart_id,
            inventory,
            source_script: command.source_script,
            command_index: command.command_index,
        },
    )
}

/// A price as the shop shows it: the yen sign and at least six digits.
pub open spec fn price_text(value: nat) -> Seq<char> {
    seq!['\u{a5}'] + zero_padded(decimal_digits(value), PRICE_DIGITS as nat)
}

/// `¥` followed by `value` in at least six zero-padded digits.
pub fn format_price(value: u32) -> (s: String)
    ensures
        s@ == price_text(value as nat),
{
    let digits = decimal_chars(value as u64);
    let mut out: Vec<char> = vec!['\u{a5}'];
    let mut pad: usize = 0;
    let need: usize = if digits.len() < PRICE_DIGITS { PRICE_DIGITS - digits.len() } else { 0 };
    while pad < need
        invariant
            pad <= need,
            out@ == seq!['\u{a5}'] + Seq::new(pad as nat, |i: int| '0'),
        decreases need - pad,
    {
        out.push('0');
        pad += 1;
        proof {
            assert(out@ =~= seq!['\u{a5}'] + Seq::new(pad as nat, |i: int| '0'));
        }
    }
    let mut k: usize = 0;
    let ghost padded = out@;
    while k < digits.len()
        invariant
            k <= digits@.len(),
            out@ == padded + digits@.take(k as int),
        decreases digits.len() - k,
    {
        out.push(digits[k]);
        k += 1;
        proof {
            assert(out@ =~= padded + digits@.take(k as int));
        }
    }
    proof {
        assert(digits@.take(digits@.len() as int) =~= digits@);
        assert(out@ =~= price_text(value as nat));
    }
    text_from_chars(&out)
}

fn validate_shop_item_id(item_id: &str) -> (r: Result<(), ShopError>)
    ensures
        shop_error_of(r) == (if is_exact_token(item_id@) {
            None
        } else {
            Some(ShopErrorView::InvalidItemId { item_id: item_id@ })
        }),
{
    if is_exact_shop_token(item_id) {
        Ok(())
    } else {
        Err(ShopError::InvalidItemId { item_id: copy_text(item_id) })
    }
}

fn shop_money_cap(currency_constants: &CurrencyCatalog) -> (r: Result<u32, ShopError>)
    ensures
        match r {
            Ok(v) => currency_constants.0.view().contains_key("MAX_MONEY"@) && v
                == currency_constants.0.view()["MAX_MONEY"@],
            Err(e) => !currency_constants.0.view().contains_key("MAX_MONEY"@) && e@
                == (ShopErrorView::MissingCurrencyLimit { constant: "MAX_MONEY"@ }),
        },
{
    match currency_constants.get("MAX_MONEY") {
        Some(v) => Ok(v),
        None => Err(ShopError::MissingCurrencyLimit { constant: copy_text("MAX_MONEY") }),
    }
}

/// The texts of a shop inventory.
pub open spec fn shop_sells(shop: ScriptShopRequest, item_id: Seq<char>) -> bool {
    texts(shop.inventory).contains(item_id)
}

/// Checks that the active shop sells `item_id`.
pub fn require_active_shop_item(state: &GameState, item_id: &str) -> (r: Result<(), ShopError>)
    ensures
        shop_error_of(r) == (if !is_exact_token(item_id@) {
            Some(ShopErrorView::InvalidItemId { item_id: item_id@ })
        } else {
            match state.script_runtime.pending_shop {
                None => Some(ShopErrorView::MissingActiveScriptShop),
                Some(shop) => if shop_sells(shop, item_id@) {
                    None
                } else {
                    Some(ShopErrorView::ItemNotSoldByActiveScriptShop {
                        mart_id: shop.mart_id@,
                        item_id: item_id@,
                    })
                },
            }
        }),
{
    validate_shop_item_id(item_id)?;
    let shop = match state.script_runtime.pending_shop.as_ref() {
        Some(shop) => shop,
        None => {
            return Err(ShopError::MissingActiveScriptShop);
        },
    };
    let mut i: usize = 0;
    while i < shop.inventory.len()
        invariant
            i <= shop.inventory@.len(),
            state.script_runtime.pending_shop == Some(*shop),
            is_exact_token(item_id@),
            forall|j: int| 0 <= j < i ==> shop.inventory@[j]@ != item_id@,
        decreases shop.inventory.len() - i,
    {
        if text_eq(shop.inventory[i].as_str(), item_id) {
            proof {
                assert(texts(shop.inventory)[i as int] == item_id@);
                assert(texts(shop.inventory).contains(item_id@));
            }
            return Ok(());
        }
        i += 1;
    }
    proof {
        if texts(shop.inventory).contains(item_id@) {
            let j = choose|j: int| 0 <= j < texts(shop.inventory).len() && texts(shop.inventory)[j] == item_id@;
            assert(shop.inventory@[j]@ == item_id@);
        }
    }
    Err(ShopError::ItemNotSoldByActiveScriptShop { mart_id: shop.mart_id.clone(), item_id: copy_text(item_id) })
}

/// Closes the active shop and hands it back.
pub fn close_active_shop(state: &mut GameState) -> (r: Result<ScriptShopRequest, ShopError>)
    ensures
        match old(state).script_runtime.pending_shop {
            Some(shop) => r == Ok::<ScriptShopRequest, ShopError>(shop)
                && final(state).script_runtime.pending_shop is None,
            None => r matches Err(e) && e@ == ShopErrorView::MissingActiveScriptShop,
        },
        final(state).script_runtime.pending_shop is None,
        final(state).script_runtime.shop_events == old(state).script_runtime.shop_events,
        final(state).script_runtime.special_phone_call == old(state).script_runtime.special_phone_call,
        final(state).money == old(state).money,
        final(state).bag == old(state).bag,
        old(state).same_outside_money_bag_runtime(&*final(state)),
{
    match state.script_runtime.pending_shop.take() {
        Some(shop) => Ok(shop),
        None => Err(ShopError::MissingActiveScriptShop),
    }
}

/// The largest quantity, at most `m`, of which all fit in the bag; 0 if none does.
pub open spec fn largest_fitting(bag: Bag, item: Item, m: nat) -> nat
    decreases m,
{
    if m == 0 {
        0
    } else if bag.fits(item, m) {
        m
    } else {
        largest_fitting(bag, item, (m - 1) as nat)
    }
}

/// Units affordable with `money`, capped at one stack.
pub open spec fn buy_cap(money: u32, price: u16) -> nat {
    let affordable = money / (price as u32);
    if affordable < MAX_ITEM_STACK as u32 { affordable as nat } else { MAX_ITEM_STACK as nat }
}

/// The most units of `item` the player can afford and carry, at most one stack.
pub fn max_buy_quantity(state: &GameState, item: &Item) -> (q: u16)
    ensures
        q == (if item.price == 0 { 0 } else { largest_fitting(state.bag, *item, buy_cap(state.money, item.price)) }),
{
    if item.price == 0 {
        return 0;
    }
    let affordable = state.money / (item.price as u32);
    let maximum: u16 = if affordable < MAX_ITEM_STACK as u32 { affordable as u16 } else { MAX_ITEM_STACK };
    let mut quantity: u16 = maximum;
    while quantity > 0
        invariant
            item.price != 0,
            quantity <= maximum,
            maximum as nat == buy_cap(state.money, item.price),
            largest_fitting(state.bag, *item, maximum as nat) == largest_fitting(state.bag, *item, quantity as nat),
        decreases quantity,
    {
        let mut bag = state.bag.duplicate();
        let ghost copy = bag;
        let added = bag.add_item(item, quantity);
        match added {
            Ok(true) => {
                proof {
                    assert(copy.fits(*item, quantity as nat));
                    assert(state.bag.fits(*item, quantity as nat));
                    assert(largest_fitting(state.bag, *item, quantity as nat) == quantity as nat);
                }
                return quantity;
            },
            _ => {
                proof {
                    assert(!copy.fits(*item, quantity as nat));
                    assert(!state.bag.fits(*item, quantity as nat));
                }
            },
        }
        quantity = quantity - 1;
    }
    0
}

/// Buys from the active shop, which must sell the item.
pub fn buy_active_shop_item(
    state: &mut GameState,
    items: &TextMap<Item>,
    item_id: &str,
    quantity: u16,
) -> (r: Result<ShopResult, ShopError>)
    ensures
        ({
            let pre = shop_error_of(Err::<(), ShopError>(ShopError::InvalidQuantity));
            let gate: Option<ShopErrorView> = if !is_exact_token(item_id@) {
                Some(ShopErrorView::InvalidItemId { item_id: item_id@ })
            } else {
                match old(state).script_runtime.pending_shop {
                    None => Some(ShopErrorView::MissingActiveScriptShop),
                    Some(shop) => if shop_sells(shop, item_id@) {
                        None
                    } else {
                        Some(ShopErrorView::ItemNotSoldByActiveScriptShop {
                            mart_id: shop.mart_id@,
                            item_id: item_id@,
                        })
                    },
                }
            };
            if gate is Some {
                shop_error_of(r) == gate && *final(state) == *old(state)
            } else {
                buy_outcome(*old(state), *final(state), items.view(), item_id@, quantity, r)
            }
        }),
{
    require_active_shop_item(state, item_id)?;
    buy_item(state, items, item_id, quantity)
}

/// What buying `quantity` of `item_id` does to the state and returns.
pub open spec fn buy_outcome(
    before: GameState,
    after: GameState,
    items: Map<Seq<char>, Item>,
    item_id: Seq<char>,
    quantity: u16,
    r: Result<ShopResult, ShopError>,
) -> bool {
    if quantity == 0 {
        shop_error_of(r) == Some(ShopErrorView::InvalidQuantity) && after == before
    } else if !is_exact_token(item_id) {
        shop_error_of(r) == Some(ShopErrorView::InvalidItemId { item_id }) && after == before
    } else if !items.contains_key(item_id) {
        shop_error_of(r) == Some(ShopErrorView::UnknownItem { item_id }) && after == before
    } else {
        let item = items[item_id];
        let cost = item.price as nat * quantity as nat;
        if cost > before.money {
            &&& r matches Ok(res) && !res.success && res.message@ == "You don't have enough money."@
                && res.credited == 0
            &&& after == before
        } else if !before.bag.fits(item, quantity as nat) {
            &&& r matches Ok(res) && !res.success && res.message@ == "Your Pack is full."@
                && res.credited == 0
            &&& after == before
        } else {
            &&& r matches Ok(res) && res.success && res.message@ == price_text(cost) && res.credited == cost
            &&& after.money == before.money - cost
            &&& after.bag@ == before.bag.with_qty(
                item.pocket@,
                item.script_name@,
                (before.bag.qty(item.pocket@, item.script_name@) + quantity) as u16,
            )
            &&& before.same_but_money_and_bag(&after)
        }
    }
}

/// Buys `quantity` units: pays the price if the player can afford it and the pack has room.
pub fn buy_item(state: &mut GameState, items: &TextMap<Item>, item_id: &str, quantity: u16) -> (r:
    Result<ShopResult, ShopError>)
    ensures
        buy_outcome(*old(state), *final(state), items.view(), item_id@, quantity, r),
{
    if quantity == 0 {
        return Err(ShopError::InvalidQuantity);
    }
    validate_shop_item_id(item_id)?;
    let item = match items.get(item_id) {
        Some(item) => item,
        None => {
            return Err(ShopError::UnknownItem { item_id: copy_text(item_id) });
        },
    };
    proof {
        let p = item.price as u32;
        let q = quantity as u32;
        assert(p * q <= 65535 * 65535) by (nonlinear_arith)
            requires
                p <= 65535,
                q <= 65535,
        ;
    }
    let total_cost: u32 = (item.price as u32) * (quantity as u32);
    if total_cost > state.money {
        return Ok(
            ShopResult {
                success: false,
                message: copy_text("You don't have enough money."),
                credited: 0,
            },
        );
    }
    let added = match state.bag.add_item(item, quantity) {
        Ok(added) => added,
        Err(message) => {
            return Err(ShopError::Bag { message });
        },
    };
    if !added {
        return Ok(
            ShopResult { success: false, message: copy_text("Your Pack is full."), credited: 0 },
        );
    }
    state.money = state.money - total_cost;
    Ok(ShopResult { success: true, message: format_price(total_cost), credited: total_cost })
}

/// What selling `quantity` of `item_id` does to the state and returns.
pub open spec fn sell_outcome(
    before: GameState,
    after: GameState,
    items: Map<Seq<char>, Item>,
    currency: Map<Seq<char>, u32>,
    item_id: Seq<char>,
    quantity: u16,
    r: Result<ShopResult, ShopError>,
) -> bool {
    if quantity == 0 {
        shop_error_of(r) == Some(ShopErrorView::InvalidQuantity) && after == before
    } else if !is_exact_token(item_id) {
        shop_error_of(r) == Some(ShopErrorView::InvalidItemId { item_id }) && after == before
    } else if !items.contains_key(item_id) {
        shop_error_of(r) == Some(ShopErrorView::UnknownItem { item_id }) && after == before
    } else {
        let item = items[item_id];
        let sell_price = item.price / 2;
        let held = before.bag.qty(item.pocket@, item.script_name@);
        if sell_price == 0 {
            &&& r matches Ok(res) && !res.success && res.message@
                == "We can't offer anything for that item."@ && res.credited == 0
            &&& after == before
        } else if held < quantity {
            &&& r matches Ok(res) && !res.success && res.message@
                == "Looks like you don't have that many."@ && res.credited == 0
            &&& after == before
        } else if !currency.contains_key("MAX_MONEY"@) {
            shop_error_of(r) == Some(ShopErrorView::MissingCurrencyLimit { constant: "MAX_MONEY"@ })
                && after == before
        } else {
            let payout = sell_price as nat * quantity as nat;
            let raised: int = if before.money + payout > u32::MAX { u32::MAX as int } else { before.money + payout };
            let capped: int = if raised < currency["MAX_MONEY"@] { raised } else { currency["MAX_MONEY"@] as int };
            &&& r matches Ok(res) && res.success && res.message@ == price_text(payout)
                && res.credited == capped - before.money
            &&& after.money == capped
            &&& after.bag@ == before.bag.with_qty(item.pocket@, item.script_name@, (held - quantity) as u16)
            &&& before.same_but_money_and_bag(&after)
        }
    }
}

/// Whether a sale of `quantity` of `item_id` reaches the payout step with money above the cap.
pub open spec fn sale_overpays_cap(
    state: GameState,
    items: Map<Seq<char>, Item>,
    currency: Map<Seq<char>, u32>,
    item_id: Seq<char>,
    quantity: u16,
) -> bool {
    &&& quantity > 0
    &&& is_exact_token(item_id)
    &&& items.contains_key(item_id)
    &&& items[item_id].price / 2 > 0
    &&& state.bag.qty(items[item_id].pocket@, items[item_id].script_name@) >= quantity
    &&& currency.contains_key("MAX_MONEY"@)
    &&& state.money > currency["MAX_MONEY"@]
}

/// Sells to the active shop.
pub fn sell_active_shop_item(
    state: &mut GameState,
    items: &TextMap<Item>,
    currency_constants: &CurrencyCatalog,
    item_id: &str,
    quantity: u16,
) -> (r: Result<ShopResult, ShopError>)
    requires
        !sale_overpays_cap(*old(state), items.view(), currency_constants.0.view(), item_id@, quantity),
    ensures
        if !is_exact_token(item_id@) {
            shop_error_of(r) == Some(ShopErrorView::InvalidItemId { item_id: item_id@ })
                && *final(state) == *old(state)
        } else if old(state).script_runtime.pending_shop is None {
            shop_error_of(r) == Some(ShopErrorView::MissingActiveSellShop) && *final(state) == *old(state)
        } else {
            sell_outcome(*old(state), *final(state), items.view(), currency_constants.0.view(), item_id@, quantity, r)
        },
{
    validate_shop_item_id(item_id)?;
    if state.script_runtime.pending_shop.is_none() {
        return Err(ShopError::MissingActiveSellShop);
    }
    sell_item(state, items, currency_constants, item_id, quantity)
}

/// Sells `quantity` units at half price, crediting money up to the pack's `MAX_MONEY`.
pub fn sell_item(
    state: &mut GameState,
    items: &TextMap<Item>,
    currency_constants: &CurrencyCatalog,
    item_id: &str,
    quantity: u16,
) -> (r: Result<ShopResult, ShopError>)
    requires
        !sale_overpays_cap(*old(state), items.view(), currency_constants.0.view(), item_id@, quantity),
    ensures
        sell_outcome(*old(state), *final(state), items.view(), currency_constants.0.view(), item_id@, quantity, r),
{
    if quantity == 0 {
        return Err(ShopError::InvalidQuantity);
    }
    validate_shop_item_id(item_id)?;
    let item = match items.get(item_id) {
        Some(item) => item,
        None => {
            return Err(ShopError::UnknownItem { item_id: copy_text(item_id) });
        },
    };
    let sell_price: u32 = (item.price / 2) as u32;
    if sell_price == 0 {
        return Ok(
            ShopResult {
                success: false,
                message: copy_text("We can't offer anything for that item."),
                credited: 0,
            },
        );
    }
    if state.bag.quantity(item) < quantity {
        return Ok(
            ShopResult {
                success: false,
                message: copy_text("Looks like you don't have that many."),
                credited: 0,
            },
        );
    }
    let max_money = shop_money_cap(currency_constants)?;
    let removed = match state.bag.remove_item(item, quantity) {
        Ok(removed) => removed,
        Err(message) => {
            return Err(ShopError::Bag { message });
        },
    };
    if !removed {
        return Ok(
            ShopResult {
                success: false,
                message: copy_text("Looks like you don't have that many."),
                credited: 0,
            },
        );
    }
    proof {
        let q = quantity as u32;
        assert(sell_price * q <= 32767 * 65535) by (nonlinear_arith)
            requires
                sell_price <= 32767,
                q <= 65535,
        ;
    }
    let payout: u32 = sell_price * (quantity as u32);
    let starting_money = state.money;
    let raised = state.money.saturating_add(payout);
    state.money = if raised < max_money { raised } else { max_money };
    Ok(ShopResult { success: true, message: format_price(payout), credited: state.money - starting_money })
}

/// Moving the mart menu cursor.
#[derive(Clone, Copy, Debug, PartialEq, Eq, Structural)]
pub enum SelectionDirection {
    Up,
    Down,
}

/// The cursor after one move, clamped to the list.
pub open spec fn moved_selection(selection: usize, total_items: usize, direction: SelectionDirection) -> int {
    match direction {
        SelectionDirection::Up => if selection == 0 { 0 } else { selection - 1 },
        SelectionDirection::Down => if selection + 1 < total_items - 1 { selection + 1 } else { total_items - 1 },
    }
}

/// The window start that keeps `selection` inside a four-row page.
pub open spec fn scrolled_window(selection: int, scroll: usize) -> int {
    if selection < scroll {
        selection
    } else if selection >= scroll + MART_MENU_PAGE_SIZE {
        selection - MART_MENU_PAGE_SIZE + 1
    } else {
        scroll as int
    }
}

/// Moves the mart menu cursor and scrolls its four-row window to keep it visible.
pub fn paginate_selection(
    selection: usize,
    scroll: usize,
    total_items: usize,
    direction: SelectionDirection,
) -> (r: (usize, usize))
    requires
        total_items > 0 && direction == SelectionDirection::Down ==> selection < usize::MAX,
        total_items > 0 && moved_selection(selection, total_items, direction) >= scroll
            ==> scroll + MART_MENU_PAGE_SIZE <= usize::MAX,
    ensures
        total_items == 0 ==> r == (0usize, 0usize),
        total_items > 0 ==> r.0 == moved_selection(selection, total_items, direction) && r.1
            == scrolled_window(moved_selection(selection, total_items, direction), scroll),
{
    if total_items == 0 {
        return (0, 0);
    }
    let selection = match direction {
        SelectionDirection::Up => selection.saturating_sub(1),
        SelectionDirection::Down => {
            let next = selection + 1;
            if next < total_items - 1 { next } else { total_items - 1 }
        },
    };
    let scroll = if selection < scroll {
        selection
    } else if selection >= scroll + MART_MENU_PAGE_SIZE {
        selection - MART_MENU_PAGE_SIZE + 1
    } else {
        scroll
    };
    (selection, scroll)
}

} // verus!
