use crystal_core::items::{item_pocket, Item, ITEM_POCKET_CAPACITY};
use crystal_core::ordered::TextMap;
use crystal_core::shop::{
    apply_script_shop_command, build_buy_menu, buy_active_shop_item, buy_item, close_active_shop,
    format_price, is_known_script_mart_type, is_known_script_shop_command, load_inventory,
    mart_catalog_issues, max_buy_quantity, paginate_selection, script_shop_command_issues,
    script_shop_commands, script_shop_standard_mart_types, script_shop_zero_mart_types, sell_active_shop_item,
    sell_item, validate_script_shop_command, MartCatalog, MartCatalogIssue, ScriptShopCommand,
    ScriptShopCommandIssue, ScriptShopOutcome, SelectionDirection, ShopError, ShopResult, CANCEL_ITEM_ID,
};
use crystal_core::state::{CurrencyCatalog, GameState, ScriptShopRequest};

fn item(id: &str, price: u16, pocket: String) -> Item {
    Item { name: id.replace('_', " "), script_name: id.to_string(), price, pocket }
}

fn items() -> TextMap<Item> {
    let mut m = TextMap::new();
    m.insert("POKE_BALL".to_string(), item("POKE_BALL", 200, item_pocket("BALL")));
    m.insert("POTION".to_string(), item("POTION", 300, item_pocket("ITEM")));
    m.insert("RARE_CANDY".to_string(), item("RARE_CANDY", 1000, item_pocket("ITEM")));
    m
}

fn catalog(entries: &[(&str, &[&str])]) -> MartCatalog {
    let mut m = TextMap::new();
    for (mart, ids) in entries {
        m.insert(mart.to_string(), ids.iter().map(|id| id.to_string()).collect());
    }
    MartCatalog(m)
}

fn shop_command(mart_type: &str, mart_id: &str) -> ScriptShopCommand {
    ScriptShopCommand {
        command: "pokemart".to_string(),
        mart_type: mart_type.to_string(),
        mart_id: mart_id.to_string(),
        source_script: "ShopScript".to_string(),
        command_index: 11,
    }
}

fn shop_command_with_command(command: &str, mart_type: &str, mart_id: &str) -> ScriptShopCommand {
    ScriptShopCommand {
        command: command.to_string(),
        mart_type: mart_type.to_string(),
        mart_id: mart_id.to_string(),
        source_script: "ShopScript".to_string(),
        command_index: 11,
    }
}

fn currency_constants(max_money: u32) -> CurrencyCatalog {
    let mut m = TextMap::new();
    m.insert("MAX_MONEY".to_string(), max_money);
    CurrencyCatalog(m)
}

fn get<'a>(items: &'a TextMap<Item>, id: &str) -> &'a Item {
    items.get(id).expect("item")
}

fn state_with_money(money: u32) -> GameState {
    GameState { money, ..GameState::default() }
}

fn request(mart_id: &str, inventory: &[&str], source_script: &str, command_index: usize) -> ScriptShopRequest {
    ScriptShopRequest {
        mart_type: "MARTTYPE_STANDARD".to_string(),
        mart_id: mart_id.to_string(),
        inventory: inventory.iter().map(|s| s.to_string()).collect(),
        source_script: source_script.to_string(),
        command_index,
    }
}

#[test]
fn mart_catalog_issues_reject_empty_ids_invalid_items_and_unknown_exact_items_without_pocket_enums() {
    let catalog = catalog(&[
        ("", &["POTION"]),
        (" CHERRYGROVE_MART", &["POTION"]),
        ("CHERRYGROVE MART", &["POTION"]),
        ("CHERRYGROVE_MART", &["POTION", "RARE CANDY", "potion", "BATTLE_PASS"]),
    ]);
    let mut items = items();
    items.insert("BATTLE_PASS".to_string(), item("BATTLE_PASS", 100, item_pocket("BATTLE_PASS")));

    assert_eq!(
        mart_catalog_issues(&catalog, &items),
        vec![
            MartCatalogIssue::EmptyMartId { mart_id: String::new() },
            MartCatalogIssue::InvalidMartId { mart_id: " CHERRYGROVE_MART".to_string() },
            MartCatalogIssue::InvalidMartId { mart_id: "CHERRYGROVE MART".to_string() },
            MartCatalogIssue::InvalidItem { mart_id: "CHERRYGROVE_MART".to_string(), item_id: "RARE CANDY".to_string() },
            MartCatalogIssue::UnknownItem { mart_id: "CHERRYGROVE_MART".to_string(), item_id: "potion".to_string() },
        ]
    );
}

#[test]
fn mart_catalog_accepts_pack_defined_item_pockets_without_coercion() {
    let catalog = catalog(&[("MOD_MART", &["BATTLE_PASS"])]);
    let mut items = TextMap::new();
    items.insert("BATTLE_PASS".to_string(), item("BATTLE_PASS", 100, item_pocket("BATTLE_PASS")));

    assert_eq!(mart_catalog_issues(&catalog, &items), Vec::new());
}

#[test]
fn exported_shop_command_and_mart_type_sets_are_exact() {
    assert!(script_shop_commands().contains(&"pokemart"));
    assert!(script_shop_standard_mart_types().contains(&"MARTTYPE_STANDARD"));
    assert!(script_shop_standard_mart_types().contains(&"MARTTYPE_BITTER"));
    assert!(script_shop_zero_mart_types().contains(&"MARTTYPE_BARGAIN"));
    assert!(script_shop_zero_mart_types().contains(&"MARTTYPE_ROOFTOP"));
    assert!(is_known_script_shop_command("pokemart"));
    assert!(is_known_script_mart_type("MARTTYPE_PHARMACY"));
    assert!(!is_known_script_shop_command("PokeMart"));
    assert!(!is_known_script_mart_type("marttype_standard"));
}

#[test]
fn load_inventory_uses_exact_mart_and_item_ids_without_aliasing() {
    let catalog = catalog(&[("MartCherrygroveDex", &["POKE_BALL", "POTION"])]);
    let items = items();

    let inventory = load_inventory(&catalog, &items, "MartCherrygroveDex").expect("inventory");
    assert_eq!(inventory.iter().map(|item| item.identifier.as_str()).collect::<Vec<_>>(), vec!["POKE_BALL", "POTION"]);
    assert_eq!(
        load_inventory(&catalog, &items, "MART_CHERRYGROVE_DEX"),
        Err(ShopError::UnknownMart { mart_id: "MART_CHERRYGROVE_DEX".to_string() })
    );
}

#[test]
fn mart_references_to_missing_items_are_errors_not_zero_price_entries() {
    let catalog = catalog(&[("MartBroken", &["potion"])]);

    assert_eq!(
        load_inventory(&catalog, &items(), "MartBroken"),
        Err(ShopError::UnknownMartItem { mart_id: "MartBroken".to_string(), item_id: "potion".to_string() })
    );
}

#[test]
fn build_buy_menu_appends_cancel_command() {
    let catalog = catalog(&[("Mart", &["POTION"])]);

    let menu = build_buy_menu(&catalog, &items(), "Mart").expect("menu");

    assert_eq!(menu[1].identifier, CANCEL_ITEM_ID);
}

#[test]
fn applies_script_shop_command_with_exact_mart_inventory() {
    let catalog = catalog(&[("MartCherrygroveDex", &["POKE_BALL", "POTION"])]);
    let items = items();
    let mut state = GameState::default();

    let outcome = apply_script_shop_command(
        &mut state,
        &catalog,
        &items,
        shop_command("MARTTYPE_STANDARD", "MartCherrygroveDex"),
    )
    .expect("apply shop");

    assert_eq!(
        outcome,
        ScriptShopOutcome {
            mart_type: "MARTTYPE_STANDARD".to_string(),
            mart_id: "MartCherrygroveDex".to_string(),
            inventory: vec!["POKE_BALL".to_string(), "POTION".to_string()],
            source_script: "ShopScript".to_string(),
            command_index: 11,
        }
    );
    assert_eq!(
        state.script_runtime.pending_shop,
        Some(request("MartCherrygroveDex", &["POKE_BALL", "POTION"], "ShopScript", 11))
    );
    assert_eq!(state.script_runtime.shop_events.len(), 1);
}

#[test]
fn invalid_script_shop_source_does_not_mutate_runtime_state() {
    let catalog = catalog(&[("MartCherrygroveDex", &["POKE_BALL", "POTION"])]);
    let items = items();
    let mut state = GameState::default();
    state.script_runtime.pending_shop = Some(request("PreviousMart", &["POTION"], "PreviousScript", 1));
    let mut command = shop_command("MARTTYPE_STANDARD", "MartCherrygroveDex");
    command.source_script = "fallback_script".to_string();

    assert_eq!(
        apply_script_shop_command(&mut state, &catalog, &items, command),
        Err(ShopError::InvalidSourceScript { source_script: "fallback_script".to_string() })
    );
    assert!(state.script_runtime.shop_events.is_empty());
    assert_eq!(state.script_runtime.pending_shop, Some(request("PreviousMart", &["POTION"], "PreviousScript", 1)));
}

#[test]
fn applies_zero_mart_only_for_exact_rooftop_or_bargain_types() {
    let catalog = MartCatalog::empty();
    let items = items();
    let mut state = GameState::default();

    let rooftop = apply_script_shop_command(&mut state, &catalog, &items, shop_command("MARTTYPE_ROOFTOP", "0"))
        .expect("rooftop zero mart");
    assert!(rooftop.inventory.is_empty());
    assert_eq!(state.script_runtime.pending_shop.as_ref().map(|shop| shop.mart_id.as_str()), Some("0"));

    let error = apply_script_shop_command(&mut state, &catalog, &items, shop_command("MARTTYPE_STANDARD", "0"))
        .expect_err("standard zero mart rejected");
    assert_eq!(error, ShopError::InvalidZeroMart { mart_type: "MARTTYPE_STANDARD".to_string() });
}

#[test]
fn validates_script_shop_command_without_mutating_runtime_state() {
    let catalog = catalog(&[("MART_CHERRYGROVE", &["POTION"])]);

    validate_script_shop_command(&catalog, &shop_command("MARTTYPE_STANDARD", "MART_CHERRYGROVE"))
        .expect("known mart is valid");
    validate_script_shop_command(&catalog, &shop_command("MARTTYPE_ROOFTOP", "0")).expect("zero rooftop mart is valid");

    assert_eq!(
        validate_script_shop_command(&catalog, &shop_command("marttype_standard", "MART")),
        Err(ShopError::UnknownMartType { mart_type: "marttype_standard".to_string() })
    );
    assert_eq!(
        validate_script_shop_command(&catalog, &shop_command(" MARTTYPE_STANDARD", "MART")),
        Err(ShopError::InvalidMartType { mart_type: " MARTTYPE_STANDARD".to_string() })
    );
    assert_eq!(
        validate_script_shop_command(&catalog, &shop_command("MARTTYPE STANDARD", "MART")),
        Err(ShopError::InvalidMartType { mart_type: "MARTTYPE STANDARD".to_string() })
    );
    assert_eq!(
        validate_script_shop_command(&catalog, &shop_command("MARTTYPE_STANDARD", "0")),
        Err(ShopError::InvalidZeroMart { mart_type: "MARTTYPE_STANDARD".to_string() })
    );
    assert_eq!(
        validate_script_shop_command(&catalog, &shop_command("MARTTYPE_STANDARD", "mart")),
        Err(ShopError::UnknownMart { mart_id: "mart".to_string() })
    );
    assert_eq!(
        validate_script_shop_command(&catalog, &shop_command("MARTTYPE_STANDARD", " MART")),
        Err(ShopError::InvalidMartId { mart_id: " MART".to_string() })
    );
    assert_eq!(
        validate_script_shop_command(&catalog, &shop_command("MARTTYPE_STANDARD", "MA RT")),
        Err(ShopError::InvalidMartId { mart_id: "MA RT".to_string() })
    );
    assert_eq!(
        validate_script_shop_command(&catalog, &shop_command_with_command("PokeMart", "MARTTYPE_STANDARD", "MART")),
        Err(ShopError::InvalidCommand { command: "PokeMart".to_string() })
    );
    assert_eq!(
        validate_script_shop_command(&catalog, &shop_command_with_command("sellmart", "MARTTYPE_STANDARD", "MART")),
        Err(ShopError::UnknownCommand { command: "sellmart".to_string() })
    );
}

#[test]
fn script_shop_command_issues_preserve_exact_source_positions() {
    let catalog = catalog(&[("MART_CHERRYGROVE", &["POTION"])]);
    let commands = vec![
        shop_command("MARTTYPE_STANDARD", "MART_CHERRYGROVE"),
        shop_command_with_command("PokeMart", "MARTTYPE_STANDARD", "MART_CHERRYGROVE"),
        shop_command_with_command("sellmart", "MARTTYPE_STANDARD", "MART_CHERRYGROVE"),
        shop_command("marttype_standard", "MART_CHERRYGROVE"),
        shop_command(" MARTTYPE_STANDARD", "MART_CHERRYGROVE"),
        shop_command("MARTTYPE_STANDARD", "0"),
        shop_command("MARTTYPE_STANDARD", "mart_cherrygrove"),
        shop_command("MARTTYPE_STANDARD", " MART_CHERRYGROVE"),
    ];
    let issue = |error: ShopError| ScriptShopCommandIssue {
        source_script: "ShopScript".to_string(),
        command_index: 11,
        error,
    };

    assert_eq!(
        script_shop_command_issues(&catalog, &commands),
        vec![
            issue(ShopError::InvalidCommand { command: "PokeMart".to_string() }),
            issue(ShopError::UnknownCommand { command: "sellmart".to_string() }),
            issue(ShopError::UnknownMartType { mart_type: "marttype_standard".to_string() }),
            issue(ShopError::InvalidMartType { mart_type: " MARTTYPE_STANDARD".to_string() }),
            issue(ShopError::InvalidZeroMart { mart_type: "MARTTYPE_STANDARD".to_string() }),
            issue(ShopError::UnknownMart { mart_id: "mart_cherrygrove".to_string() }),
            issue(ShopError::InvalidMartId { mart_id: " MART_CHERRYGROVE".to_string() }),
        ]
    );
}

#[test]
fn invalid_script_shop_command_does_not_mutate_runtime_state() {
    let catalog = catalog(&[("Mart", &["POTION"])]);
    let items = items();
    let mut state = GameState::default();

    assert_eq!(
        apply_script_shop_command(&mut state, &catalog, &items, shop_command("marttype_standard", "Mart")),
        Err(ShopError::UnknownMartType { mart_type: "marttype_standard".to_string() })
    );
    assert_eq!(
        apply_script_shop_command(&mut state, &catalog, &items, shop_command("MARTTYPE_STANDARD", "mart")),
        Err(ShopError::UnknownMart { mart_id: "mart".to_string() })
    );
    assert_eq!(state.script_runtime.pending_shop, None);
    assert!(state.script_runtime.shop_events.is_empty());
}

#[test]
fn buying_items_spends_money_and_uses_bag_capacity() {
    let mut state = state_with_money(1000);
    let items = items();

    let result = buy_item(&mut state, &items, "POTION", 2).expect("buy");

    assert_eq!(result, ShopResult { success: true, message: "¥000600".to_string(), credited: 600 });
    assert_eq!(state.money, 400);
    assert_eq!(state.bag.quantity(get(&items, "POTION")), 2);

    let denied = buy_item(&mut state, &items, "POTION", 2).expect("insufficient funds");
    assert!(!denied.success);
    assert_eq!(state.money, 400);
    assert_eq!(state.bag.quantity(get(&items, "POTION")), 2);
}

#[test]
fn active_shop_buy_uses_pending_exact_inventory_and_can_close() {
    let catalog = catalog(&[("MartCherrygroveDex", &["POKE_BALL"])]);
    let items = items();
    let mut state = state_with_money(1000);
    apply_script_shop_command(&mut state, &catalog, &items, shop_command("MARTTYPE_STANDARD", "MartCherrygroveDex"))
        .expect("open shop");

    let result = buy_active_shop_item(&mut state, &items, "POKE_BALL", 2).expect("active shop buy");

    assert!(result.success);
    assert_eq!(state.money, 600);
    assert_eq!(state.bag.quantity(get(&items, "POKE_BALL")), 2);
    assert_eq!(
        buy_active_shop_item(&mut state, &items, "POTION", 1),
        Err(ShopError::ItemNotSoldByActiveScriptShop {
            mart_id: "MartCherrygroveDex".to_string(),
            item_id: "POTION".to_string(),
        })
    );

    let closed = close_active_shop(&mut state).expect("close shop");
    assert_eq!(closed.mart_id, "MartCherrygroveDex");
    assert_eq!(state.script_runtime.pending_shop, None);
    assert_eq!(buy_active_shop_item(&mut state, &items, "POKE_BALL", 1), Err(ShopError::MissingActiveScriptShop));
}

#[test]
fn buying_rejects_malformed_item_id_before_state_change() {
    let mut state = state_with_money(1000);
    let items = items();

    assert_eq!(
        buy_item(&mut state, &items, "PO TION", 1),
        Err(ShopError::InvalidItemId { item_id: "PO TION".to_string() })
    );
    assert_eq!(state.money, 1000);
    assert_eq!(state.bag.quantity(get(&items, "POTION")), 0);
}

#[test]
fn max_buy_quantity_respects_money_and_available_stack_space() {
    let mut state = state_with_money(1000);
    let potion = item("POTION", 10, item_pocket("ITEM"));
    for index in 0..ITEM_POCKET_CAPACITY {
        let filler = item(&format!("DUMMY_ITEM_{index}"), 1, item_pocket("ITEM"));
        state.bag.add_item(&filler, 1).expect("add filler");
    }
    assert_eq!(max_buy_quantity(&state, &potion), 0);

    let mut stocked = state_with_money(1000);
    stocked.bag.add_item(&potion, 98).expect("add potion");
    assert_eq!(max_buy_quantity(&stocked, &potion), 99);
}

#[test]
fn buying_and_selling_pack_defined_pocket_items_uses_exact_pocket_data() {
    let currency_constants = currency_constants(999_999);
    let mut state = state_with_money(1000);
    let battle_pass = item("BATTLE_PASS", 100, item_pocket("BATTLE_PASS"));
    let mut items = TextMap::new();
    items.insert("BATTLE_PASS".to_string(), item("BATTLE_PASS", 100, item_pocket("BATTLE_PASS")));

    assert_eq!(max_buy_quantity(&state, &battle_pass), 10);
    let bought = buy_item(&mut state, &items, "BATTLE_PASS", 2).expect("buy custom item");
    assert!(bought.success);
    assert_eq!(state.money, 800);
    assert_eq!(state.bag.quantity(&battle_pass), 2);
    assert_eq!(state.bag.pocket_quantity("BATTLE_PASS", "BATTLE_PASS"), 2);

    let sold = sell_item(&mut state, &items, &currency_constants, "BATTLE_PASS", 1).expect("sell custom item");
    assert!(sold.success);
    assert_eq!(sold.credited, 50);
    assert_eq!(state.money, 850);
    assert_eq!(state.bag.quantity(&battle_pass), 1);
}

#[test]
fn selling_items_credits_half_price_and_caps_money() {
    let max_money = 999_999;
    let currency_constants = currency_constants(max_money);
    let mut state = state_with_money(max_money - 100);
    let items = items();
    state.bag.add_item(get(&items, "RARE_CANDY"), 1).expect("add item");

    let result = sell_item(&mut state, &items, &currency_constants, "RARE_CANDY", 1).expect("sell");

    assert_eq!(state.money, max_money);
    assert_eq!(result.credited, 100);
    assert_eq!(result.message, "¥000500");
    assert_eq!(state.bag.quantity(get(&items, "RARE_CANDY")), 0);
}

#[test]
fn selling_requires_pack_max_money_without_removing_item() {
    let mut state = state_with_money(500);
    let items = items();
    state.bag.add_item(get(&items, "RARE_CANDY"), 1).expect("add item");

    assert_eq!(
        sell_item(&mut state, &items, &CurrencyCatalog(TextMap::new()), "RARE_CANDY", 1),
        Err(ShopError::MissingCurrencyLimit { constant: "MAX_MONEY".to_string() })
    );
    assert_eq!(state.money, 500);
    assert_eq!(state.bag.quantity(get(&items, "RARE_CANDY")), 1);
}

#[test]
fn selling_rejects_malformed_item_id_before_state_change() {
    let currency_constants = currency_constants(999_999);
    let mut state = state_with_money(500);
    let items = items();
    state.bag.add_item(get(&items, "RARE_CANDY"), 1).expect("add item");

    assert_eq!(
        sell_item(&mut state, &items, &currency_constants, "RARE CANDY", 1),
        Err(ShopError::InvalidItemId { item_id: "RARE CANDY".to_string() })
    );
    assert_eq!(state.money, 500);
    assert_eq!(state.bag.quantity(get(&items, "RARE_CANDY")), 1);
}

#[test]
fn active_shop_sell_requires_open_shop_before_mutating_bag_or_money() {
    let currency_constants = currency_constants(999_999);
    let mut state = state_with_money(500);
    let items = items();
    state.bag.add_item(get(&items, "RARE_CANDY"), 1).expect("add item");

    assert_eq!(
        sell_active_shop_item(&mut state, &items, &currency_constants, "RARE_CANDY", 1),
        Err(ShopError::MissingActiveSellShop)
    );
    assert_eq!(state.money, 500);
    assert_eq!(state.bag.quantity(get(&items, "RARE_CANDY")), 1);

    state.script_runtime.pending_shop = Some(request("MART_CHERRYGROVE", &["POTION"], "ShopScript", 11));
    let result = sell_active_shop_item(&mut state, &items, &currency_constants, "RARE_CANDY", 1).expect("active shop sell");

    assert!(result.success);
    assert_eq!(result.credited, 500);
    assert_eq!(state.money, 1000);
    assert_eq!(state.bag.quantity(get(&items, "RARE_CANDY")), 0);
}

#[test]
fn selling_rejects_unowned_or_valueless_items_without_state_change() {
    let currency_constants = currency_constants(999_999);
    let mut state = state_with_money(500);
    let mut items = items();
    items.insert("FREEBIE".to_string(), item("FREEBIE", 1, item_pocket("ITEM")));

    let unowned = sell_item(&mut state, &items, &currency_constants, "POTION", 1).expect("sell unowned");
    assert!(!unowned.success);
    assert_eq!(state.money, 500);

    state.bag.add_item(get(&items, "FREEBIE"), 1).expect("add freebie");
    let valueless = sell_item(&mut state, &items, &currency_constants, "FREEBIE", 1).expect("sell valueless");
    assert!(!valueless.success);
    assert_eq!(state.money, 500);
    assert_eq!(state.bag.quantity(get(&items, "FREEBIE")), 1);
}

#[test]
fn pagination_matches_four_item_mart_window() {
    assert_eq!(paginate_selection(3, 0, 8, SelectionDirection::Down), (4, 1));
    assert_eq!(paginate_selection(1, 2, 8, SelectionDirection::Up), (0, 0));
}

#[test]
fn format_price_pads_to_six_digits_after_the_yen_sign() {
    assert_eq!(format_price(0), "¥000000");
    assert_eq!(format_price(600), "¥000600");
    assert_eq!(format_price(1_234_567), "¥1234567");
}

#[test]
fn pagination_keeps_cursor_inside_list_and_window() {
    assert_eq!(paginate_selection(7, 4, 8, SelectionDirection::Down), (7, 4));
    assert_eq!(paginate_selection(0, 0, 8, SelectionDirection::Up), (0, 0));
    assert_eq!(paginate_selection(5, 5, 0, SelectionDirection::Down), (0, 0));
}
