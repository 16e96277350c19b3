//! Properties that hold across the library's operations, each proved from the operations'
//! own contracts.
use vstd::prelude::*;
use crate::items::Item;
use crate::pokemon::{LearnedMove, Pokemon};
use crate::special_routines::healing::{healed, needs_healing, restored_move, restored_moves};
use crate::shop::{buy_outcome, moved_selection, price_text, scrolled_window, sell_outcome, MART_MENU_PAGE_SIZE, ShopError, ShopResult};
use crate::special_routines::battle_tower::{
    banned_species_issue, banned_species_issues, saved_tower_error, token_checks, tower_active, tower_issue_list,
    tower_shape_error, BattleTowerRules, BattleTowerRulesIssueView, BattleTowerState, TowerTokenField,
};
use crate::special_routines::checks::{concat_issues, first_error, lemma_concat_issues_empty, lemma_first_error_none};
use crate::special_routines::ratings::{length_row_checks, length_table_error, magikarp_entry_checks, magikarp_issue_list, MagikarpLengthEntry};
use crate::special_routines::spawn_points::{parse_u16, unsigned_digits};
use crate::shop::{buy_cap, largest_fitting, mart_catalog_issue_list, mart_entry_issues, mart_item_issues, all_items_known, texts, MartCatalog};
use crate::step_events::{
    counted_step, egg_cycle_slot, happiness_phase_party, happiness_slot, overworld_step_done, poison_step_done,
    step_done, OverworldStepContext, StepEventError, StepEventResult, StepEventRules,
};
use crate::state::StepEventCounters;
use crate::text::is_exact_token;
use crate::state::GameState;
use crate::step_events::{poison_step_slot, wrap_dec, wrap_inc};
use crate::text::{decimal_digits, decimal_value, lemma_decimal_digits_read_back, lemma_leading_zeros_read_back};
use crate::special_routines::numbers::bounded_value;
use crate::special_routines::unown::{
    cell, cell_checks, cells_in_range, encoded_layout, flat_cells, layout_problem, layout_rows, lemma_cell_reads_back,
    lemma_encoded_row_cells, load_outcome, layout_key, holding_key, layout_read_as, pick_up_outcome, place_outcome,
    puzzle_state_message, raw_cell, repeat_checks, repeated_at, row_cells, row_checks, variable_text, variables_with,
    UnownPuzzleState,
};
use crate::special_routines::errors::SpecialRoutineError;
use crate::special_routines::battle_tower::{newest_first, simple_tower_action, BATTLETOWER_SAVED_AND_LEFT};
use crate::special_routines::game_corner::card_payout;
use crate::special_routines::lucky_number::{shared_suffix, tier_of};
use crate::special_routines::odd_egg::{first_drawn, probability_sum, OddEggDefinition};
use crate::text::zero_padded;

verus! {

/// A purchase that is refused, or that the player cannot complete, leaves the game state as
/// it was.
pub proof fn refused_purchase_changes_nothing(
    before: GameState,
    after: GameState,
    items: Map<Seq<char>, Item>,
    item_id: Seq<char>,
    quantity: u16,
    r: Result<ShopResult, ShopError>,
)
    requires
        buy_outcome(before, after, items, item_id, quantity, r),
        r is Err || (r matches Ok(res) && !res.success),
    ensures
        after == before,
{
}

/// A sale that is refused, or that the shop cannot complete, leaves the game state as it was.
pub proof fn refused_sale_changes_nothing(
    before: GameState,
    after: GameState,
    items: Map<Seq<char>, Item>,
    currency: Map<Seq<char>, u32>,
    item_id: Seq<char>,
    quantity: u16,
    r: Result<ShopResult, ShopError>,
)
    requires
        sell_outcome(before, after, items, currency, item_id, quantity, r),
        r is Err || (r matches Ok(res) && !res.success),
    ensures
        after == before,
{
}

/// A completed purchase takes exactly the price of the units from the player's money and
/// puts exactly those units in the bag.
pub proof fn purchase_moves_price_into_bag(
    before: GameState,
    after: GameState,
    items: Map<Seq<char>, Item>,
    item_id: Seq<char>,
    quantity: u16,
    res: ShopResult,
)
    requires
        buy_outcome(before, after, items, item_id, quantity, Ok(res)),
        res.success,
    ensures
        items.contains_key(item_id),
        res.credited == items[item_id].price * quantity,
        after.money + res.credited == before.money,
        after.bag.qty(items[item_id].pocket@, items[item_id].script_name@) == before.bag.qty(
            items[item_id].pocket@,
            items[item_id].script_name@,
        ) + quantity,
{
}

/// Selling the units just bought, when the money cap does not bind, gives back half their
/// price per unit (rounded down) and leaves the bag holding what it held before the purchase.
pub proof fn buying_then_selling_refunds_half_the_price(
    s0: GameState,
    s1: GameState,
    s2: GameState,
    items: Map<Seq<char>, Item>,
    currency: Map<Seq<char>, u32>,
    item_id: Seq<char>,
    quantity: u16,
    bought: ShopResult,
    r: Result<ShopResult, ShopError>,
)
    requires
        buy_outcome(s0, s1, items, item_id, quantity, Ok(bought)),
        bought.success,
        sell_outcome(s1, s2, items, currency, item_id, quantity, r),
        items[item_id].price / 2 > 0,
        currency.contains_key("MAX_MONEY"@),
        s0.money <= currency["MAX_MONEY"@],
    ensures
        r matches Ok(sold) && sold.success,
        s2.money == s0.money - items[item_id].price * quantity + (items[item_id].price / 2) * quantity,
        s2.bag.qty(items[item_id].pocket@, items[item_id].script_name@) == s0.bag.qty(
            items[item_id].pocket@,
            items[item_id].script_name@,
        ),
{
    let item = items[item_id];
    assert(s1.bag.qty(item.pocket@, item.script_name@) == s0.bag.qty(item.pocket@, item.script_name@) + quantity);
    assert((item.price / 2) * quantity <= item.price * quantity) by (nonlinear_arith)
        requires
            item.price / 2 <= item.price,
    ;
}

/// Moving a mart cursor that is on the list keeps it on the list and inside the four-row
/// window it scrolls.
pub proof fn mart_cursor_stays_in_list_and_window(
    selection: usize,
    scroll: usize,
    total_items: usize,
    direction: crate::shop::SelectionDirection,
)
    requires
        selection < total_items,
    ensures
        0 <= moved_selection(selection, total_items, direction) < total_items,
        0 <= scrolled_window(moved_selection(selection, total_items, direction), scroll),
        scrolled_window(moved_selection(selection, total_items, direction), scroll) <= moved_selection(
            selection,
            total_items,
            direction,
        ) < scrolled_window(moved_selection(selection, total_items, direction), scroll) + MART_MENU_PAGE_SIZE,
{
}

/// A shown price starts with the yen sign and has at least six digits after it, and those
/// digits read back as the price.
pub proof fn shown_price_reads_back(value: u32)
    ensures
        price_text(value as nat).len() >= 7,
        price_text(value as nat)[0] == '\u{a5}',
        decimal_value(price_text(value as nat).drop_first()) == value,
{
    let digits = decimal_digits(value as nat);
    lemma_decimal_digits_read_back(value as nat);
    if digits.len() < crate::shop::PRICE_DIGITS {
        let k = (crate::shop::PRICE_DIGITS - digits.len()) as nat;
        assert(price_text(value as nat).drop_first() =~= Seq::new(k, |i: int| '0') + digits);
        lemma_leading_zeros_read_back(k, digits);
    } else {
        assert(price_text(value as nat).drop_first() =~= digits);
    }
}

/// A one-byte step counter counted up and then down, or down and then up, is where it started.
pub proof fn step_counter_round_trip(x: u8)
    ensures
        wrap_dec(wrap_inc(x)) == x,
        wrap_inc(wrap_dec(x)) == x,
{
}

/// Poison never heals: a slot keeps its Pokemon's species and its HP does not rise.
pub proof fn poison_never_heals(rules: crate::step_events::StepEventRules, slot: Option<Pokemon>)
    ensures
        (slot is None) == (poison_step_slot(rules, slot) is None),
        slot matches Some(p) ==> poison_step_slot(rules, slot)->0.hp <= p.hp
            && poison_step_slot(rules, slot)->0.species == p.species,
{
}

/// A Battle Tower save with no progress is valid whatever rules the pack provides, or none.
pub proof fn fresh_tower_save_needs_no_rules(
    tower: BattleTowerState,
    party: Seq<Option<Pokemon>>,
    rules: Option<BattleTowerRules>,
)
    requires
        !tower_active(tower),
    ensures
        saved_tower_error(tower, party, rules) is None,
{
    assert(tower.selected_party_indexes@.len() == 0);
}


proof fn lemma_banned_issues_are_unknown(ids: Seq<Seq<char>>, species: Set<Seq<char>>, n: int)
    requires
        0 <= n <= ids.len(),
        forall|i: int| 0 <= i < ids.len() ==> is_exact_token(#[trigger] ids[i]),
    ensures
        forall|k: int| 0 <= k < banned_species_issues(ids, species, n).len() ==> #[trigger] banned_species_issues(
            ids,
            species,
            n,
        )[k] is UnknownBannedSpecies,
    decreases n,
{
    if n > 0 {
        lemma_banned_issues_are_unknown(ids, species, n - 1);
        let prev = banned_species_issues(ids, species, n - 1);
        let last = banned_species_issue(ids[n - 1], species);
        assert forall|k: int| 0 <= k < banned_species_issues(ids, species, n).len() implies #[trigger] banned_species_issues(
            ids,
            species,
            n,
        )[k] is UnknownBannedSpecies by {
            if k < prev.len() {
                assert(banned_species_issues(ids, species, n)[k] == prev[k]);
            } else {
                assert(banned_species_issues(ids, species, n)[k] == last[k - prev.len()]);
            }
        }
    }
}

/// Battle Tower rules that pass the loader's checks have no issue but banned species that
/// are not species of the pack.
pub proof fn loadable_tower_rules_only_miss_species(rules: BattleTowerRules, species: Set<Seq<char>>)
    requires
        tower_shape_error(rules) is None,
    ensures
        forall|k: int| 0 <= k < tower_issue_list(rules, species).len() ==> #[trigger] tower_issue_list(
            rules,
            species,
        )[k] is UnknownBannedSpecies,
{
    let keys = rules.banned_species.key_seq();
    let f = token_checks(TowerTokenField::BannedSpeciesKey, keys);
    lemma_first_error_none(f, keys.len() as int);
    assert forall|i: int| 0 <= i < keys.len() implies is_exact_token(#[trigger] keys[i]) by {
        assert(f(i) is None);
    }
    lemma_banned_issues_are_unknown(keys, species, keys.len() as int);
    let head = crate::special_routines::battle_tower::tower_head_list(rules);
    assert(head.len() == 0);
    assert(tower_issue_list(rules, species) =~= banned_species_issues(keys, species, keys.len() as int));
}

proof fn lemma_banned_issues_empty_when_known(ids: Seq<Seq<char>>, species: Set<Seq<char>>, n: int)
    requires
        0 <= n <= ids.len(),
        forall|i: int| 0 <= i < ids.len() ==> is_exact_token(#[trigger] ids[i]) && species.contains(ids[i]),
    ensures
        banned_species_issues(ids, species, n).len() == 0,
    decreases n,
{
    if n > 0 {
        lemma_banned_issues_empty_when_known(ids, species, n - 1);
        assert(is_exact_token(ids[n - 1]) && species.contains(ids[n - 1]));
    }
}

/// Battle Tower rules that pass the loader's checks, checked against a species list that
/// holds every banned species, have no issue at all.
pub proof fn loadable_tower_rules_with_known_bans_have_no_issue(rules: BattleTowerRules, species: Set<Seq<char>>)
    requires
        tower_shape_error(rules) is None,
        forall|k: Seq<char>| #[trigger] rules.banned_species.view().contains_key(k) ==> species.contains(k),
    ensures
        tower_issue_list(rules, species).len() == 0,
{
    let keys = rules.banned_species.key_seq();
    let f = token_checks(TowerTokenField::BannedSpeciesKey, keys);
    lemma_first_error_none(f, keys.len() as int);
    assert forall|i: int| 0 <= i < keys.len() implies is_exact_token(#[trigger] keys[i]) && species.contains(keys[i]) by {
        assert(f(i) is None);
        assert(keys.contains(keys[i]));
        assert(rules.banned_species.view().contains_key(keys[i]));
    }
    lemma_banned_issues_empty_when_known(keys, species, keys.len() as int);
    let head = crate::special_routines::battle_tower::tower_head_list(rules);
    assert(head.len() == 0);
    assert(tower_issue_list(rules, species) =~= banned_species_issues(keys, species, keys.len() as int));
}

/// Every Pokemon of Battle Tower rules that pass the loader's checks has whole records (four
/// moves, five stat experiences, four DVs, four PP, three Pokerus bytes, two status bytes
/// and seven stats), DVs that fit a nibble, a level from 1 to 100 and at most 24 bits of
/// experience.
pub proof fn loadable_tower_rules_have_whole_pokemon(rules: BattleTowerRules, g: int, m: int)
    requires
        tower_shape_error(rules) is None,
        0 <= g < rules.mon_groups@.len(),
        0 <= m < rules.mon_groups@[g]@.len(),
    ensures
        ({
            let mon = rules.mon_groups@[g]@[m];
            &&& mon.moves@.len() == 4
            &&& mon.stat_exp@.len() == 5
            &&& mon.dvs@.len() == 4
            &&& mon.pp@.len() == 4
            &&& mon.pokerus@.len() == 3
            &&& mon.status@.len() == 2
            &&& mon.stats@.len() == 7
            &&& forall|i: int| 0 <= i < 4 ==> #[trigger] mon.dvs@[i] <= 0x0f
            &&& 1 <= mon.level <= 100
            &&& mon.experience <= 0xff_ffff
        }),
{
    let groups = rules.mon_groups@;
    let gc = crate::special_routines::battle_tower::group_checks(groups);
    lemma_first_error_none(gc, groups.len() as int);
    assert(gc(g) is None);
    let group = groups[g]@;
    let mc = crate::special_routines::battle_tower::mon_checks(g, group);
    lemma_first_error_none(mc, group.len() as int);
    assert(mc(m) is None);
    let mon = group[m];
    assert(crate::special_routines::battle_tower::mon_error(g, m, mon) is None);
    assert forall|i: int| 0 <= i < 4 implies #[trigger] mon.dvs@[i] <= 0x0f by {
        if mon.dvs@[i] > 0x0f {
            assert(exists|j: int| 0 <= j < mon.dvs@.len() && #[trigger] mon.dvs@[j] > 0x0f);
        }
    }
}

proof fn lemma_issue_free_items_known(mart_id: Seq<char>, ids: Seq<Seq<char>>, known: Set<Seq<char>>)
    requires
        mart_item_issues(mart_id, ids, known).len() == 0,
    ensures
        forall|j: int| 0 <= j < ids.len() ==> known.contains(#[trigger] ids[j]),
    decreases ids.len(),
{
    if ids.len() > 0 {
        let rest = mart_item_issues(mart_id, ids.drop_last(), known);
        assert(rest.len() <= mart_item_issues(mart_id, ids, known).len());
        lemma_issue_free_items_known(mart_id, ids.drop_last(), known);
        assert forall|j: int| 0 <= j < ids.len() implies known.contains(#[trigger] ids[j]) by {
            if j < ids.len() - 1 {
                assert(ids.drop_last()[j] == ids[j]);
            }
        }
    }
}

proof fn lemma_issue_free_catalog_entries(catalog: MartCatalog, known: Set<Seq<char>>, n: int, j: int)
    requires
        0 <= j < n,
        mart_catalog_issue_list(catalog, known, n).len() == 0,
    ensures
        mart_entry_issues(catalog.0.key_seq()[j], texts(catalog.0.value_seq()[j]), known).len() == 0,
    decreases n,
{
    if j < n - 1 {
        lemma_issue_free_catalog_entries(catalog, known, n - 1, j);
    }
}

/// A mart catalog in which the issue check finds nothing lets every mart it lists load its
/// inventory: every item a mart sells is an item of the pack.
pub proof fn issue_free_catalog_serves_every_mart(
    catalog: MartCatalog,
    items: Map<Seq<char>, Item>,
    mart_id: Seq<char>,
)
    requires
        mart_catalog_issue_list(catalog, items.dom(), catalog.0.key_seq().len() as int).len() == 0,
        catalog.0.view().contains_key(mart_id),
    ensures
        all_items_known(catalog.ids_of(mart_id), items),
{
    catalog.0.lemma_view_reads(mart_id);
    let j = catalog.0.key_seq().index_of(mart_id);
    lemma_issue_free_catalog_entries(catalog, items.dom(), catalog.0.key_seq().len() as int, j);
    let ids = texts(catalog.0.value_seq()[j]);
    let head_and_items = mart_entry_issues(mart_id, ids, items.dom());
    lemma_issue_free_items_known(mart_id, ids, items.dom());
    assert(catalog.ids_of(mart_id) == ids);
}

/// A Magikarp routine accepts a length table exactly when the table check finds no issue in it.
pub proof fn length_table_accepted_iff_issue_free(entries: Seq<MagikarpLengthEntry>)
    ensures
        (length_table_error(entries) is None) == (magikarp_issue_list(entries).len() == 0),
{
    let f = length_row_checks(entries);
    let g = magikarp_entry_checks(entries);
    lemma_concat_issues_empty(g, entries.len() as int);
    if entries.len() == 14 {
        lemma_first_error_none(f, 14);
        assert forall|i: int| 0 <= i < 14 implies (#[trigger] f(i) is None) == (g(i).len() == 0) by {
        }
        if length_table_error(entries) is None {
            assert forall|i: int| 0 <= i < 14 implies #[trigger] g(i).len() == 0 by {
                assert(f(i) is None);
            }
        }
        if magikarp_issue_list(entries).len() == 0 {
            assert(magikarp_issue_list(entries) =~= concat_issues(g, 14));
            assert forall|i: int| 0 <= i < 14 implies #[trigger] f(i) is None by {
                assert(g(i).len() == 0);
            }
        }
    } else {
        assert(magikarp_issue_list(entries).len() >= 1);
    }
}

/// A spawn-point key written as the decimal digits of an identifier reads back as that
/// identifier.
pub proof fn spawn_key_of_identifier_reads_back(identifier: u16)
    ensures
        parse_u16(decimal_digits(identifier as nat)) == Some(identifier),
{
    let d = decimal_digits(identifier as nat);
    lemma_decimal_digits_read_back(identifier as nat);
    assert(crate::text::is_digit(d[0]));
    assert(unsigned_digits(d) == d);
}

/// One party step keeps the party's six slots: no slot appears or disappears.
pub proof fn party_step_keeps_party_size(
    rules: StepEventRules,
    c0: StepEventCounters,
    p0: Seq<Option<Pokemon>>,
    c: StepEventCounters,
    p: Seq<Option<Pokemon>>,
    r: StepEventResult,
)
    requires
        step_done(rules, c0, p0, c, p, r),
    ensures
        p.len() == p0.len(),
{
    let p1 = happiness_phase_party(rules, c0, p0);
    assert(p1.len() == p0.len());
    let p2 = p1.map_values(|s: Option<Pokemon>| egg_cycle_slot(s));
    assert(p2.len() == p1.len());
}

/// One overworld step keeps the party's slots, whatever it reports.
pub proof fn overworld_step_keeps_party_size(
    rules: StepEventRules,
    s0: GameState,
    caught_location: Option<u16>,
    context: OverworldStepContext,
    s: GameState,
    r: Result<StepEventResult, StepEventError>,
)
    requires
        overworld_step_done(rules, s0, caught_location, context, s, r),
    ensures
        s.storage.party.pokemon@.len() == s0.storage.party.pokemon@.len(),
{
    let p0 = s0.storage.party.pokemon@;
    let p1 = happiness_phase_party(rules, s0.step_events, p0);
    assert(p1.len() == p0.len());
    let p2 = p1.map_values(|slot: Option<Pokemon>| egg_cycle_slot(slot));
    assert(p2.len() == p1.len());
}

proof fn lemma_largest_fitting(bag: crate::items::Bag, item: Item, m: nat)
    ensures
        largest_fitting(bag, item, m) <= m,
        largest_fitting(bag, item, m) > 0 ==> bag.fits(item, largest_fitting(bag, item, m)),
    decreases m,
{
    if m > 0 && !bag.fits(item, m) {
        lemma_largest_fitting(bag, item, (m - 1) as nat);
    }
}

/// The quantity the shop offers as the most the player can buy can be bought: the purchase
/// goes through.
pub proof fn offered_quantity_can_be_bought(
    before: GameState,
    after: GameState,
    items: Map<Seq<char>, Item>,
    item_id: Seq<char>,
    r: Result<ShopResult, ShopError>,
)
    requires
        items.contains_key(item_id),
        is_exact_token(item_id),
        items[item_id].price > 0,
        largest_fitting(before.bag, items[item_id], buy_cap(before.money, items[item_id].price)) > 0,
        buy_outcome(
            before,
            after,
            items,
            item_id,
            largest_fitting(before.bag, items[item_id], buy_cap(before.money, items[item_id].price)) as u16,
            r,
        ),
    ensures
        r matches Ok(res) && res.success,
{
    let item = items[item_id];
    let cap = buy_cap(before.money, item.price);
    let q = largest_fitting(before.bag, item, cap);
    lemma_largest_fitting(before.bag, item, cap);
    assert(cap <= 99);
    assert(q as u16 == q);
    let price = item.price as nat;
    let money = before.money as nat;
    assert(cap <= money / price);
    assert(price * q <= price * cap) by (nonlinear_arith)
        requires
            q <= cap,
    ;
    assert(price * cap <= money) by (nonlinear_arith)
        requires
            cap <= money / price,
            price > 0,
    ;
}
/// A puzzle layout whose cells are all empty or pieces (at most 16) is read back from its
/// saved text unchanged: the text has no problem, and each cell reads as its value.
pub proof fn saved_unown_layout_reads_back(l: [[u8; 6]; 6])
    requires
        forall|y: int, x: int| 0 <= y < 6 && 0 <= x < 6 ==> #[trigger] cell(l, y, x) <= 16,
    ensures
        layout_problem(encoded_layout(l)) is None,
        forall|y: int, x: int|
            0 <= y < 6 && 0 <= x < 6 ==> bounded_value(#[trigger] raw_cell(encoded_layout(l), y, x), 255) == Some(
                cell(l, y, x) as int,
            ),
{
    let raw = encoded_layout(l);
    lemma_encoded_row_cells(l, 0);
    let rows = layout_rows(l);
    assert forall|y: int, x: int| 0 <= y < 6 && 0 <= x < 6 implies bounded_value(
        #[trigger] raw_cell(raw, y, x),
        255,
    ) == Some(cell(l, y, x) as int) by {
        lemma_encoded_row_cells(l, y);
        lemma_cell_reads_back(cell(l, y, x));
    }
    assert forall|y: int| 0 <= y < 6 implies #[trigger] row_checks(rows)(y) is None by {
        lemma_encoded_row_cells(l, y);
        let cells = row_cells(l, y);
        assert forall|x: int| 0 <= x < 6 implies #[trigger] cell_checks(cells)(x) is None by {
            lemma_cell_reads_back(cell(l, y, x));
        }
        lemma_first_error_none(cell_checks(cells), 6);
    }
    lemma_first_error_none(row_checks(rows), 6);
}

/// Picking a piece up and putting it back down at the same cell gives back the puzzle as it
/// was: both moves succeed, the hand is empty again and every cell holds what it held.
pub proof fn picking_up_and_putting_back_restores_the_puzzle(
    p0: UnownPuzzleState,
    p1: UnownPuzzleState,
    p2: UnownPuzzleState,
    y: int,
    x: int,
    r1: Result<(), SpecialRoutineError>,
    r2: Result<(), SpecialRoutineError>,
    routine: Seq<char>,
)
    requires
        0 <= y < 6,
        0 <= x < 6,
        pick_up_outcome(p0, p1, y, x, r1, routine),
        place_outcome(p1, p2, y, x, r2, routine),
        r1 is Ok,
    ensures
        r2 is Ok,
        p2.holding_piece == p0.holding_piece,
        forall|j: int, i: int| 0 <= j < 6 && 0 <= i < 6 ==> #[trigger] cell(p2.layout, j, i) == cell(p0.layout, j, i),
{
    assert(cell(p1.layout, y, x) == 0);
}

/// A well-formed puzzle: cells empty or pieces, no piece twice, and a held piece that is a
/// piece and not in the layout.
pub open spec fn puzzle_valid(p: UnownPuzzleState) -> bool {
    cells_in_range(p.layout) && puzzle_state_message(p.layout, p.holding_piece) is None
}

proof fn lemma_no_repeats(c: Seq<u8>)
    requires
        c.len() == 36,
    ensures
        first_error(repeat_checks(c), 36) is None <==> forall|i: int, j: int|
            0 <= j < i < 36 && c[i] != 0 ==> #[trigger] c[j] != #[trigger] c[i],
{
    lemma_first_error_none(repeat_checks(c), 36);
    if first_error(repeat_checks(c), 36) is None {
        assert forall|i: int, j: int| 0 <= j < i < 36 && c[i] != 0 implies #[trigger] c[j] != #[trigger] c[i] by {
            assert(repeat_checks(c)(i) is None);
        }
    } else {
        let i = choose|i: int| 0 <= i < 36 && !(#[trigger] repeat_checks(c)(i) is None);
        assert(repeated_at(c, i));
    }
}

proof fn lemma_flat_index(y: int, x: int)
    requires
        0 <= y < 6,
        0 <= x < 6,
    ensures
        0 <= y * 6 + x < 36,
        (y * 6 + x) / 6 == y,
        (y * 6 + x) % 6 == x,
{
}

/// Moves keep a puzzle well formed: from a well-formed puzzle, a pick-up or a placement that
/// succeeds leaves a well-formed puzzle.
pub proof fn puzzle_moves_keep_it_valid(
    before: UnownPuzzleState,
    after: UnownPuzzleState,
    y: int,
    x: int,
    r: Result<(), SpecialRoutineError>,
    routine: Seq<char>,
    picking_up: bool,
)
    requires
        0 <= y < 6,
        0 <= x < 6,
        puzzle_valid(before),
        picking_up ==> pick_up_outcome(before, after, y, x, r, routine),
        !picking_up ==> place_outcome(before, after, y, x, r, routine),
        r is Ok,
    ensures
        puzzle_valid(after),
{
    let c0 = flat_cells(before.layout);
    let c1 = flat_cells(after.layout);
    let k = y * 6 + x;
    lemma_flat_index(y, x);
    lemma_no_repeats(c0);
    lemma_no_repeats(c1);
    assert(c0[k] == cell(before.layout, y, x));
    assert forall|i: int| 0 <= i < 36 && i != k implies #[trigger] c1[i] == c0[i] by {
        assert(i == (i / 6) * 6 + i % 6);
        assert(c1[i] == cell(after.layout, i / 6, i % 6));
        assert(c0[i] == cell(before.layout, i / 6, i % 6));
    }
    assert(c1[k] == cell(after.layout, y, x));
    assert(cells_in_range(after.layout)) by {
        assert forall|j: int, i: int| 0 <= j < 6 && 0 <= i < 6 implies #[trigger] cell(after.layout, j, i) <= 16 by {
            assert(cell(before.layout, j, i) <= 16);
            if !picking_up && j == y && i == x {
                assert(before.holding_piece is Some);
            }
        }
    }
    if picking_up {
        let v = c0[k];
        assert(v != 0);
        assert(after.holding_piece == Some(v));
        assert forall|i: int, j: int| 0 <= j < i < 36 && c1[i] != 0 implies #[trigger] c1[j] != #[trigger] c1[i] by {
            if i != k && j != k {
                assert(c0[j] != c0[i]);
            }
        }
        assert(!c1.contains(v)) by {
            if c1.contains(v) {
                let i = choose|i: int| 0 <= i < c1.len() && c1[i] == v;
                assert(i != k);
                if i < k {
                    assert(c0[i] != c0[k]);
                } else {
                    assert(c0[k] != c0[i]);
                }
            }
        }
        assert(cell(before.layout, y, x) <= 16);
    } else {
        let v = before.holding_piece->0;
        assert(1 <= v <= 16);
        assert(!c0.contains(v));
        assert(c1[k] == v);
        assert(after.holding_piece is None);
        assert forall|i: int, j: int| 0 <= j < i < 36 && c1[i] != 0 implies #[trigger] c1[j] != #[trigger] c1[i] by {
            if i == k {
                if c1[j] == c1[i] {
                    assert(c0[j] == v);
                }
            } else if j == k {
                if c1[j] == c1[i] {
                    assert(c0[i] == v);
                }
            } else {
                assert(c0[j] != c0[i]);
            }
        }
    }
}

proof fn lemma_puzzle_keys_distinct(puzzle_id: Seq<char>)
    ensures
        layout_key(puzzle_id) != holding_key(puzzle_id),
        layout_key(puzzle_id) != "unown_action"@,
        layout_key(puzzle_id) != "unown_x"@,
        layout_key(puzzle_id) != "unown_y"@,
        holding_key(puzzle_id) != "unown_action"@,
        holding_key(puzzle_id) != "unown_x"@,
        holding_key(puzzle_id) != "unown_y"@,
{
    reveal_strlit("unown_layout");
    reveal_strlit("unown_holding_piece");
    reveal_strlit("unown_action");
    reveal_strlit("unown_x");
    reveal_strlit("unown_y");
    let lk = layout_key(puzzle_id);
    let hk = holding_key(puzzle_id);
    assert(lk[6] == 'l');
    assert(hk[6] == 'h');
    assert("unown_action"@[6] == 'a');
    assert("unown_x"@[6] == 'x');
    assert("unown_y"@[6] == 'y');
}

/// A well-formed puzzle stored in the script variables loads back unchanged: the load
/// succeeds, with the same held piece and the same piece in every cell.
pub proof fn stored_unown_puzzle_loads_back(
    before: Map<Seq<char>, String>,
    after: Map<Seq<char>, String>,
    puzzle_id: Seq<char>,
    puzzle: UnownPuzzleState,
    layout_text: String,
    held_text: String,
    routine: Seq<char>,
    r: Result<UnownPuzzleState, SpecialRoutineError>,
)
    requires
        puzzle_valid(puzzle),
        layout_text@ == encoded_layout(puzzle.layout),
        puzzle.holding_piece matches Some(v) ==> held_text@ == decimal_digits(v as nat),
        after == match puzzle.holding_piece {
            Some(_) => variables_with(before, puzzle_id, layout_text, Some(held_text)),
            None => variables_with(before, puzzle_id, layout_text, None),
        },
        load_outcome(
            variable_text(after, layout_key(puzzle_id)),
            variable_text(after, holding_key(puzzle_id)),
            routine,
            puzzle_id,
            r,
        ),
    ensures
        r matches Ok(q) && q.holding_piece == puzzle.holding_piece && forall|y: int, x: int|
            0 <= y < 6 && 0 <= x < 6 ==> #[trigger] cell(q.layout, y, x) == cell(puzzle.layout, y, x),
{
    lemma_puzzle_keys_distinct(puzzle_id);
    let lk = layout_key(puzzle_id);
    let hk = holding_key(puzzle_id);
    assert(variable_text(after, lk) == Some(encoded_layout(puzzle.layout)));
    match puzzle.holding_piece {
        Some(v) => {
            assert(variable_text(after, hk) == Some(decimal_digits(v as nat)));
            lemma_cell_reads_back(v);
        },
        None => {
            assert(variable_text(after, hk) is None);
        },
    }
    let raw = encoded_layout(puzzle.layout);
    saved_unown_layout_reads_back(puzzle.layout);
    assert(layout_read_as(raw, puzzle.layout));
    assert forall|l: [[u8; 6]; 6], held: Option<u8>|
        layout_read_as(raw, l) && match variable_text(after, hk) {
            Some(h) => held matches Some(v) && bounded_value(h, 255) == Some(v as int),
            None => held is None,
        } implies #[trigger] puzzle_state_message(l, held) is None by {
        assert forall|y: int, x: int| 0 <= y < 6 && 0 <= x < 6 implies #[trigger] cell(l, y, x) == cell(puzzle.layout, y, x) by {
            assert(bounded_value(raw_cell(raw, y, x), 255) == Some(cell(l, y, x) as int));
        }
        assert(flat_cells(l) =~= flat_cells(puzzle.layout));
        assert(held == puzzle.holding_piece);
    }
    match r {
        Ok(q) => {
            assert forall|y: int, x: int| 0 <= y < 6 && 0 <= x < 6 implies #[trigger] cell(q.layout, y, x) == cell(
                puzzle.layout,
                y,
                x,
            ) by {
                assert(bounded_value(raw_cell(raw, y, x), 255) == Some(cell(q.layout, y, x) as int));
            }
        },
        Err(e) => {
            assert(false);
        },
    }
}

/// Every trainer id wins the top Lucky Number prize against itself, and matching is
/// symmetric: the id and the number can trade places.
pub proof fn lucky_number_matches_itself_and_both_ways(a: u16, b: u16)
    ensures
        tier_of(shared_suffix(a as nat, a as nat, 0)) == 1,
        shared_suffix(a as nat, b as nat, 0) == shared_suffix(b as nat, a as nat, 0),
{
    assert(shared_suffix(a as nat, a as nat, 5) == 0);
    assert(shared_suffix(a as nat, a as nat, 4) == 1);
    assert(shared_suffix(a as nat, a as nat, 3) == 2);
    assert(shared_suffix(a as nat, a as nat, 2) == 3);
    assert(shared_suffix(a as nat, a as nat, 1) == 4);
    assert(shared_suffix(a as nat, a as nat, 0) == 5);
    assert(shared_suffix(a as nat, b as nat, 5) == 0 && shared_suffix(b as nat, a as nat, 5) == 0);
    assert(shared_suffix(a as nat, b as nat, 4) == shared_suffix(b as nat, a as nat, 4));
    assert(shared_suffix(a as nat, b as nat, 3) == shared_suffix(b as nat, a as nat, 3));
    assert(shared_suffix(a as nat, b as nat, 2) == shared_suffix(b as nat, a as nat, 2));
    assert(shared_suffix(a as nat, b as nat, 1) == shared_suffix(b as nat, a as nat, 1));
}

/// Recording a run never leaves a record longer than the challenge streak, so a saved state
/// written by it passes the saved-record length checks.
pub proof fn recorded_runs_fit_the_streak(
    before: BattleTowerState,
    after: BattleTowerState,
    current_day: u8,
    beaten: u8,
    success: bool,
    n: u8,
)
    requires
        after.record_streaks@ == newest_first(
            before.record_streaks@,
            if beaten < n { beaten } else { n },
            n as nat,
        ),
        after.record_outcomes@ == newest_first(before.record_outcomes@, success, n as nat),
        after.record_days@ == newest_first(before.record_days@, current_day, n as nat),
    ensures
        after.record_streaks@.len() <= n,
        after.record_outcomes@.len() <= n,
        after.record_days@.len() <= n,
{
}

/// With chances that total 100, every random word draws an egg: the last running total,
/// scaled to the word range, covers every word.
pub proof fn full_odd_egg_table_always_draws(defs: Seq<OddEggDefinition>, word: u16)
    requires
        defs.len() > 0,
        probability_sum(defs, defs.len() as int) == 100,
    ensures
        first_drawn(defs, word, defs.len() as int) is Some,
{
    let n = defs.len() as int;
    assert((probability_sum(defs, n) * 0xffff) / 100 == 0xffff);
    if first_drawn(defs, word, n - 1) is None {
        assert(word <= (probability_sum(defs, n) * 0xffff) / 100);
    }
}

/// Zero-padded digits of a value read back as the value: what the coin and money displays
/// print is the number they were given.
pub proof fn padded_number_reads_back(v: u16, width: nat)
    ensures
        decimal_value(zero_padded(decimal_digits(v as nat), width)) == v,
{
    lemma_decimal_digits_read_back(v as nat);
    let d = decimal_digits(v as nat);
    if d.len() < width {
        lemma_leading_zeros_read_back((width - d.len()) as nat, d);
    }
}

/// A bet on a single card pays 72 on that card's own cell: its species column and level row.
pub proof fn single_card_bet_pays_on_its_card(face: u8)
    requires
        face < 24,
    ensures
        card_payout(face, (face % 4 + 2) as int, (face / 4 + 2) as int) == 72,
{
}


/// Healing is done once: a Pokemon the party heal has healed needs no more healing.
pub proof fn healed_pokemon_needs_no_more_healing(p: Pokemon, moves: Vec<LearnedMove>, move_pp: Map<Seq<char>, u8>)
    requires
        moves@ == restored_moves(p.moves@, move_pp),
    ensures
        !needs_healing(healed(p, moves), move_pp),
{
    let q = healed(p, moves);
    assert forall|i: int|
        0 <= i < q.moves@.len() && move_pp.contains_key(#[trigger] q.moves@[i].name@) implies q.moves@[i].current_pp
        == move_pp[q.moves@[i].name@] by {
        assert(q.moves@[i] == restored_move(p.moves@[i], move_pp));
    }
}

/// What a save-and-quit records, the challenge-state query reads back: the challenge is
/// saved and left, and the query answers 1.
pub proof fn saved_challenge_reads_back(t: BattleTowerState, day: u8)
    ensures
        simple_tower_action("BATTLETOWERACTION_SAVE_AND_QUIT"@, t, day) matches Some((after, _, _))
            && simple_tower_action("BATTLETOWERACTION_GET_CHALLENGE_STATE"@, after, day) matches Some((_, value, truthy))
            && value == decimal_digits(BATTLETOWER_SAVED_AND_LEFT as nat) && truthy,
{
    reveal_strlit("BATTLETOWERACTION_SAVE_AND_QUIT");
    reveal_strlit("BATTLETOWERACTION_GET_CHALLENGE_STATE");
    reveal_strlit("BATTLETOWERACTION_CHECKSAVEFILEISYOURS");
    reveal_strlit("BATTLETOWERACTION_15");
    reveal_strlit("BATTLETOWERACTION_CHECK_EXPLANATION_READ");
    reveal_strlit("BATTLETOWERACTION_SET_EXPLANATION_READ");
    reveal_strlit("BATTLETOWERACTION_SAVELEVELGROUP");
    reveal_strlit("BATTLETOWERACTION_LOADLEVELGROUP");
    reveal_strlit("BATTLETOWERACTION_SAVEOPTIONS");
    reveal_strlit("BATTLETOWERACTION_0A");
    assert("BATTLETOWERACTION_SAVE_AND_QUIT"@[18] != "BATTLETOWERACTION_CHECKSAVEFILEISYOURS"@[18]);
    assert("BATTLETOWERACTION_SAVE_AND_QUIT"@[18] != "BATTLETOWERACTION_15"@[18]);
    assert("BATTLETOWERACTION_SAVE_AND_QUIT"@[18] != "BATTLETOWERACTION_CHECK_EXPLANATION_READ"@[18]);
    assert("BATTLETOWERACTION_SAVE_AND_QUIT"@[20] != "BATTLETOWERACTION_SET_EXPLANATION_READ"@[20]);
    assert("BATTLETOWERACTION_SAVE_AND_QUIT"@[18] != "BATTLETOWERACTION_GET_CHALLENGE_STATE"@[18]);
    assert("BATTLETOWERACTION_SAVE_AND_QUIT"@[22] != "BATTLETOWERACTION_SAVELEVELGROUP"@[22]);
    assert("BATTLETOWERACTION_SAVE_AND_QUIT"@[18] != "BATTLETOWERACTION_LOADLEVELGROUP"@[18]);
    assert("BATTLETOWERACTION_SAVE_AND_QUIT"@[22] != "BATTLETOWERACTION_SAVEOPTIONS"@[22]);
    assert("BATTLETOWERACTION_SAVE_AND_QUIT"@[18] != "BATTLETOWERACTION_0A"@[18]);
    assert("BATTLETOWERACTION_GET_CHALLENGE_STATE"@[18] != "BATTLETOWERACTION_CHECKSAVEFILEISYOURS"@[18]);
    assert("BATTLETOWERACTION_GET_CHALLENGE_STATE"@[18] != "BATTLETOWERACTION_15"@[18]);
    assert("BATTLETOWERACTION_GET_CHALLENGE_STATE"@[18] != "BATTLETOWERACTION_CHECK_EXPLANATION_READ"@[18]);
    assert("BATTLETOWERACTION_GET_CHALLENGE_STATE"@[18] != "BATTLETOWERACTION_SET_EXPLANATION_READ"@[18]);
}

} // verus!
