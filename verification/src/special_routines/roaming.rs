//! The roaming legendary beasts: where they start and the routes they roam.
use vstd::prelude::*;
use crate::ordered::TextSet;
use crate::special_routines::checks::concat_issues;
use crate::special_routines::tokens::is_exact_nonempty_special_token;
use crate::text::{copy_text, is_exact_token};

verus! {

pub const ROAMING_POKEMON_SLOT_COUNT: usize = 3;

pub const ROAMING_POKEMON_ROUTE_COUNT: usize = 16;

/// A map, by group and number.
#[derive(Clone, Copy, Debug, PartialEq, Eq, Structural)]
pub struct RoamingMapLocation {
    pub map_group: u8,
    pub map_number: u8,
}

/// The write that starts one roaming slot.
#[derive(Debug, PartialEq, Eq)]
pub struct RoamingPokemonInitWrite {
    pub slot: u8,
    pub species: String,
    pub level: u8,
    pub map_group: u8,
    pub map_number: u8,
    pub hp: u8,
}

/// One route a roamer can stand on, and the routes it can move to from there.
#[derive(Debug, PartialEq, Eq)]
pub struct RoamingPokemonRoute {
    pub map_group: u8,
    pub map_number: u8,
    pub connections: Vec<RoamingMapLocation>,
}

/// The roaming data of the pack.
#[derive(Debug, PartialEq, Eq)]
pub struct RoamingPokemonCatalog {
    pub slot_count: u8,
    pub inactive_map: RoamingMapLocation,
    pub init_writes: Vec<RoamingPokemonInitWrite>,
    pub routes: Vec<RoamingPokemonRoute>,
    pub jump_mask: u8,
}

/// The first init write of `slot`, if any.
pub open spec fn first_init_write(writes: Seq<RoamingPokemonInitWrite>, slot: int) -> Option<int> {
    if exists|i: int| 0 <= i < writes.len() && #[trigger] writes[i].slot == slot {
        Some(choose|i: int| 0 <= i < writes.len() && #[trigger] writes[i].slot == slot && forall|j: int| 0 <= j < i ==> writes[j].slot != slot)
    } else {
        None
    }
}

impl RoamingPokemonCatalog {
    /// A catalog with no init writes and no routes.
    pub fn is_empty(&self) -> (b: bool)
        ensures
            b == (self.init_writes@.len() == 0 && self.routes@.len() == 0),
    {
        self.init_writes.len() == 0 && self.routes.len() == 0
    }

    /// The first init write for `slot`.
    pub fn init_write(&self, slot: usize) -> (r: Option<&RoamingPokemonInitWrite>)
        ensures
            match r {
                Some(w) => exists|i: int| 0 <= i < self.init_writes@.len() && self.init_writes@[i] == *w && w.slot == slot
                    && forall|j: int| 0 <= j < i ==> #[trigger] self.init_writes@[j].slot != slot,
                None => forall|i: int| 0 <= i < self.init_writes@.len() ==> #[trigger] self.init_writes@[i].slot != slot,
            },
    {
        let mut i: usize = 0;
        while i < self.init_writes.len()
            invariant
                i <= self.init_writes@.len(),
                forall|j: int| 0 <= j < i ==> #[trigger] self.init_writes@[j].slot != slot,
            decreases self.init_writes.len() - i,
        {
            if self.init_writes[i].slot as usize == slot {
                return Some(&self.init_writes[i]);
            }
            i += 1;
        }
        None
    }
}

/// A problem with the roaming data.
#[derive(Debug, PartialEq, Eq)]
pub enum RoamingPokemonCatalogIssue {
    InvalidSlotCount { slot_count: u8 },
    InvalidInactiveMap,
    InactiveMapCollision,
    InvalidInitWriteOrder,
    InvalidInitSpecies { slot: u8, species: String },
    UnknownInitSpecies { slot: u8, species: String },
    InvalidInitLevel { slot: u8, level: u8 },
    InvalidInitMap { slot: u8, map_group: u8, map_number: u8 },
    UnknownInitRoute { slot: u8, map_group: u8, map_number: u8 },
    InvalidInitHp { slot: u8, hp: u8 },
    InvalidRouteCount { count: usize },
    InvalidRouteMap { index: usize, map_group: u8, map_number: u8 },
    InvalidConnectionCount { index: usize, count: usize },
    InvalidConnectionMap { index: usize, connection: usize, map_group: u8, map_number: u8 },
    DuplicateConnection { index: usize, map_group: u8, map_number: u8 },
    UnknownConnectionTarget { index: usize, map_group: u8, map_number: u8 },
    InvalidJumpMask { jump_mask: u8 },
}

pub enum RoamingIssueView {
    InvalidSlotCount { slot_count: u8 },
    InvalidInactiveMap,
    InactiveMapCollision,
    InvalidInitWriteOrder,
    InvalidInitSpecies { slot: u8, species: Seq<char> },
    UnknownInitSpecies { slot: u8, species: Seq<char> },
    InvalidInitLevel { slot: u8, level: u8 },
    InvalidInitMap { slot: u8, map_group: u8, map_number: u8 },
    UnknownInitRoute { slot: u8, map_group: u8, map_number: u8 },
    InvalidInitHp { slot: u8, hp: u8 },
    InvalidRouteCount { count: usize },
    InvalidRouteMap { index: usize, map_group: u8, map_number: u8 },
    InvalidConnectionCount { index: usize, count: usize },
    InvalidConnectionMap { index: usize, connection: usize, map_group: u8, map_number: u8 },
    DuplicateConnection { index: usize, map_group: u8, map_number: u8 },
    UnknownConnectionTarget { index: usize, map_group: u8, map_number: u8 },
    InvalidJumpMask { jump_mask: u8 },
}

impl View for RoamingPokemonCatalogIssue {
    type V = RoamingIssueView;

    open spec fn view(&self) -> RoamingIssueView {
        match *self {
            RoamingPokemonCatalogIssue::InvalidSlotCount { slot_count } => RoamingIssueView::InvalidSlotCount { slot_count },
            RoamingPokemonCatalogIssue::InvalidInactiveMap => RoamingIssueView::InvalidInactiveMap,
            RoamingPokemonCatalogIssue::InactiveMapCollision => RoamingIssueView::InactiveMapCollision,
            RoamingPokemonCatalogIssue::InvalidInitWriteOrder => RoamingIssueView::InvalidInitWriteOrder,
            RoamingPokemonCatalogIssue::InvalidInitSpecies { slot, species } => RoamingIssueView::InvalidInitSpecies {
                slot,
                species: species@,
            },
            RoamingPokemonCatalogIssue::UnknownInitSpecies { slot, species } => RoamingIssueView::UnknownInitSpecies {
                slot,
                species: species@,
            },
            RoamingPokemonCatalogIssue::InvalidInitLevel { slot, level } => RoamingIssueView::InvalidInitLevel { slot, level },
            RoamingPokemonCatalogIssue::InvalidInitMap { slot, map_group, map_number } => RoamingIssueView::InvalidInitMap {
                slot,
                map_group,
                map_number,
            },
            RoamingPokemonCatalogIssue::UnknownInitRoute { slot, map_group, map_number } => {
                RoamingIssueView::UnknownInitRoute { slot, map_group, map_number }
            },
            RoamingPokemonCatalogIssue::InvalidInitHp { slot, hp } => RoamingIssueView::InvalidInitHp { slot, hp },
            RoamingPokemonCatalogIssue::InvalidRouteCount { count } => RoamingIssueView::InvalidRouteCount { count },
            RoamingPokemonCatalogIssue::InvalidRouteMap { index, map_group, map_number } => {
                RoamingIssueView::InvalidRouteMap { index, map_group, map_number }
            },
            RoamingPokemonCatalogIssue::InvalidConnectionCount { index, count } => {
                RoamingIssueView::InvalidConnectionCount { index, count }
            },
            RoamingPokemonCatalogIssue::InvalidConnectionMap { index, connection, map_group, map_number } => {
                RoamingIssueView::InvalidConnectionMap { index, connection, map_group, map_number }
            },
            RoamingPokemonCatalogIssue::DuplicateConnection { index, map_group, map_number } => {
                RoamingIssueView::DuplicateConnection { index, map_group, map_number }
            },
            RoamingPokemonCatalogIssue::UnknownConnectionTarget { index, map_group, map_number } => {
                RoamingIssueView::UnknownConnectionTarget { index, map_group, map_number }
            },
            RoamingPokemonCatalogIssue::InvalidJumpMask { jump_mask } => RoamingIssueView::InvalidJumpMask { jump_mask },
        }
    }
}

pub open spec fn roaming_issue_views(v: Seq<RoamingPokemonCatalogIssue>) -> Seq<RoamingIssueView> {
    v.map_values(|i: RoamingPokemonCatalogIssue| i@)
}

/// Route `i` has a valid map that no earlier valid route has.
pub open spec fn valid_map(g: u8, n: u8) -> bool {
    g != 0 && n != 0
}

/// The maps of the routes that are route origins: valid maps, each counted once.
pub open spec fn route_origin(routes: Seq<RoamingPokemonRoute>, g: u8, n: u8) -> bool {
    valid_map(g, n) && exists|i: int| 0 <= i < routes.len() && #[trigger] routes[i].map_group == g && routes[i].map_number == n
}

/// Some earlier route in `0..i` has the valid map `(g, n)`.
pub open spec fn origin_before(routes: Seq<RoamingPokemonRoute>, i: int, g: u8, n: u8) -> bool {
    valid_map(g, n) && exists|k: int| 0 <= k < i && #[trigger] routes[k].map_group == g && routes[k].map_number == n
}

pub open spec fn inactive_collides(c: RoamingPokemonCatalog) -> bool {
    let g = c.inactive_map.map_group;
    ||| exists|i: int| 0 <= i < c.init_writes@.len() && #[trigger] c.init_writes@[i].map_group == g
    ||| exists|i: int| 0 <= i < c.routes@.len() && #[trigger] c.routes@[i].map_group == g
    ||| exists|i: int, j: int|
        0 <= i < c.routes@.len() && 0 <= j < c.routes@[i].connections@.len()
            && #[trigger] c.routes@[i].connections@[j].map_group == g
}

/// The catalog-wide issues of the slot count and the inactive map.
pub open spec fn roaming_map_head_list(c: RoamingPokemonCatalog) -> Seq<RoamingIssueView> {
    let a: Seq<RoamingIssueView> = if c.slot_count != 3 {
        seq![RoamingIssueView::InvalidSlotCount { slot_count: c.slot_count }]
    } else {
        seq![]
    };
    let b: Seq<RoamingIssueView> = if !valid_map(c.inactive_map.map_group, c.inactive_map.map_number) {
        seq![RoamingIssueView::InvalidInactiveMap]
    } else {
        seq![]
    };
    let d: Seq<RoamingIssueView> = if inactive_collides(c) { seq![RoamingIssueView::InactiveMapCollision] } else { seq![] };
    a + b + d
}

/// The catalog-wide issues of the init order, the route count and the jump mask.
pub open spec fn roaming_count_head_list(c: RoamingPokemonCatalog) -> Seq<RoamingIssueView> {
    let e: Seq<RoamingIssueView> = if c.init_writes@.len() != 2 || c.init_writes@[0].slot != 0 || c.init_writes@[1].slot
        != 1 {
        seq![RoamingIssueView::InvalidInitWriteOrder]
    } else {
        seq![]
    };
    let f: Seq<RoamingIssueView> = if c.routes@.len() != 16 {
        seq![RoamingIssueView::InvalidRouteCount { count: c.routes@.len() as usize }]
    } else {
        seq![]
    };
    let g: Seq<RoamingIssueView> = if c.jump_mask != 15 {
        seq![RoamingIssueView::InvalidJumpMask { jump_mask: c.jump_mask }]
    } else {
        seq![]
    };
    e + f + g
}

/// The catalog-wide issues.
pub open spec fn roaming_head_list(c: RoamingPokemonCatalog) -> Seq<RoamingIssueView> {
    roaming_map_head_list(c) + roaming_count_head_list(c)
}

pub open spec fn connection_issue(i: int, conns: Seq<RoamingMapLocation>, j: int) -> Seq<RoamingIssueView> {
    let t = conns[j];
    let a: Seq<RoamingIssueView> = if !valid_map(t.map_group, t.map_number) {
        seq![RoamingIssueView::InvalidConnectionMap {
            index: i as usize,
            connection: j as usize,
            map_group: t.map_group,
            map_number: t.map_number,
        }]
    } else {
        seq![]
    };
    let b: Seq<RoamingIssueView> = if conns.take(j).contains(t) {
        seq![RoamingIssueView::DuplicateConnection { index: i as usize, map_group: t.map_group, map_number: t.map_number }]
    } else {
        seq![]
    };
    a + b
}

pub open spec fn connection_checks(i: int, conns: Seq<RoamingMapLocation>) -> spec_fn(int) -> Seq<RoamingIssueView> {
    |j: int| connection_issue(i, conns, j)
}

/// The issues of route `i`: an invalid or repeated map, a connection count outside 1..=4,
/// and invalid or repeated connections.
pub open spec fn route_issues(routes: Seq<RoamingPokemonRoute>, i: int) -> Seq<RoamingIssueView> {
    let r = routes[i];
    let conns = r.connections@;
    let a: Seq<RoamingIssueView> = if !valid_map(r.map_group, r.map_number) || origin_before(
        routes,
        i,
        r.map_group,
        r.map_number,
    ) {
        seq![RoamingIssueView::InvalidRouteMap { index: i as usize, map_group: r.map_group, map_number: r.map_number }]
    } else {
        seq![]
    };
    let b: Seq<RoamingIssueView> = if conns.len() < 1 || conns.len() > 4 {
        seq![RoamingIssueView::InvalidConnectionCount { index: i as usize, count: conns.len() as usize }]
    } else {
        seq![]
    };
    a + b + concat_issues(connection_checks(i, conns), conns.len() as int)
}

pub open spec fn route_checks(routes: Seq<RoamingPokemonRoute>) -> spec_fn(int) -> Seq<RoamingIssueView> {
    |i: int| route_issues(routes, i)
}

pub open spec fn init_route_checks(c: RoamingPokemonCatalog) -> spec_fn(int) -> Seq<RoamingIssueView> {
    |i: int|
        {
            let w = c.init_writes@[i];
            if route_origin(c.routes@, w.map_group, w.map_number) {
                seq![]
            } else {
                seq![RoamingIssueView::UnknownInitRoute { slot: w.slot, map_group: w.map_group, map_number: w.map_number }]
            }
        }
}

pub open spec fn target_checks(routes: Seq<RoamingPokemonRoute>, i: int) -> spec_fn(int) -> Seq<RoamingIssueView> {
    |j: int|
        {
            let t = routes[i].connections@[j];
            if route_origin(routes, t.map_group, t.map_number) {
                seq![]
            } else {
                seq![RoamingIssueView::UnknownConnectionTarget {
                    index: i as usize,
                    map_group: t.map_group,
                    map_number: t.map_number,
                }]
            }
        }
}

pub open spec fn route_target_checks(routes: Seq<RoamingPokemonRoute>) -> spec_fn(int) -> Seq<RoamingIssueView> {
    |i: int| concat_issues(target_checks(routes, i), routes[i].connections@.len() as int)
}

/// Every shape issue of the roaming data, in the order the checks run.
pub open spec fn roaming_shape_list(c: RoamingPokemonCatalog) -> Seq<RoamingIssueView> {
    roaming_head_list(c) + concat_issues(route_checks(c.routes@), c.routes@.len() as int) + concat_issues(
        init_route_checks(c),
        c.init_writes@.len() as int,
    ) + concat_issues(route_target_checks(c.routes@), c.routes@.len() as int)
}

fn inactive_map_collides(catalog: &RoamingPokemonCatalog) -> (b: bool)
    ensures
        b == inactive_collides(*catalog),
{
    let g = catalog.inactive_map.map_group;
    let mut i: usize = 0;
    while i < catalog.init_writes.len()
        invariant
            g == catalog.inactive_map.map_group,
            i <= catalog.init_writes@.len(),
            forall|k: int| 0 <= k < i ==> #[trigger] catalog.init_writes@[k].map_group != g,
        decreases catalog.init_writes.len() - i,
    {
        if catalog.init_writes[i].map_group == g {
            return true;
        }
        i += 1;
    }
    let mut r: usize = 0;
    while r < catalog.routes.len()
        invariant
            g == catalog.inactive_map.map_group,
            r <= catalog.routes@.len(),
            forall|k: int| 0 <= k < catalog.init_writes@.len() ==> #[trigger] catalog.init_writes@[k].map_group != g,
            forall|k: int| 0 <= k < r ==> #[trigger] catalog.routes@[k].map_group != g,
            forall|k: int, j: int|
                0 <= k < r && 0 <= j < catalog.routes@[k].connections@.len() ==> #[trigger] catalog.routes@[k].connections@[j].map_group
                    != g,
        decreases catalog.routes.len() - r,
    {
        let route = &catalog.routes[r];
        if route.map_group == g {
            return true;
        }
        let mut j: usize = 0;
        while j < route.connections.len()
            invariant
                r < catalog.routes@.len(),
                route == catalog.routes@[r as int],
                g == catalog.inactive_map.map_group,
                j <= route.connections@.len(),
                forall|m: int| 0 <= m < j ==> #[trigger] route.connections@[m].map_group != g,
            decreases route.connections.len() - j,
        {
            if route.connections[j].map_group == g {
                proof {
                    assert(catalog.routes@[r as int].connections@[j as int].map_group == g);
                }
                return true;
            }
            j += 1;
        }
        r += 1;
    }
    false
}

fn roaming_map_head_issues(catalog: &RoamingPokemonCatalog) -> (issues: Vec<RoamingPokemonCatalogIssue>)
    ensures
        roaming_issue_views(issues@) == roaming_map_head_list(*catalog),
{
    let mut issues: Vec<RoamingPokemonCatalogIssue> = Vec::new();
    if catalog.slot_count as usize != ROAMING_POKEMON_SLOT_COUNT {
        issues.push(RoamingPokemonCatalogIssue::InvalidSlotCount { slot_count: catalog.slot_count });
    }
    if catalog.inactive_map.map_group == 0 || catalog.inactive_map.map_number == 0 {
        issues.push(RoamingPokemonCatalogIssue::InvalidInactiveMap);
    }
    if inactive_map_collides(catalog) {
        issues.push(RoamingPokemonCatalogIssue::InactiveMapCollision);
    }
    proof {
        assert(roaming_issue_views(issues@) =~= roaming_map_head_list(*catalog));
    }
    issues
}

fn roaming_count_head_issues(catalog: &RoamingPokemonCatalog) -> (rest: Vec<RoamingPokemonCatalogIssue>)
    ensures
        roaming_issue_views(rest@) == roaming_count_head_list(*catalog),
{
    let mut rest: Vec<RoamingPokemonCatalogIssue> = Vec::new();
    if catalog.init_writes.len() != 2 || catalog.init_writes[0].slot != 0 || catalog.init_writes[1].slot != 1 {
        rest.push(RoamingPokemonCatalogIssue::InvalidInitWriteOrder);
    }
    if catalog.routes.len() != ROAMING_POKEMON_ROUTE_COUNT {
        rest.push(RoamingPokemonCatalogIssue::InvalidRouteCount { count: catalog.routes.len() });
    }
    if catalog.jump_mask != 15 {
        rest.push(RoamingPokemonCatalogIssue::InvalidJumpMask { jump_mask: catalog.jump_mask });
    }
    proof {
        assert(roaming_issue_views(rest@) =~= roaming_count_head_list(*catalog));
    }
    rest
}

fn roaming_head_issues(catalog: &RoamingPokemonCatalog) -> (issues: Vec<RoamingPokemonCatalogIssue>)
    ensures
        roaming_issue_views(issues@) == roaming_head_list(*catalog),
{
    let mut issues = roaming_map_head_issues(catalog);
    let ghost first = issues@;
    let mut rest = roaming_count_head_issues(catalog);
    let ghost second = rest@;
    issues.append(&mut rest);
    proof {
        assert(roaming_issue_views(issues@) =~= roaming_issue_views(first) + roaming_issue_views(second));
    }
    issues
}

fn locations_contain(v: &Vec<RoamingMapLocation>, n: usize, t: RoamingMapLocation) -> (b: bool)
    requires
        n <= v@.len(),
    ensures
        b == v@.take(n as int).contains(t),
{
    let mut k: usize = 0;
    while k < n
        invariant
            n <= v@.len(),
            k <= n,
            forall|m: int| 0 <= m < k ==> v@[m] != t,
        decreases n - k,
    {
        if v[k] == t {
            proof {
                assert(v@.take(n as int)[k as int] == t);
            }
            return true;
        }
        k += 1;
    }
    proof {
        assert forall|m: int| 0 <= m < n implies v@.take(n as int)[m] != t by {
            assert(v@.take(n as int)[m] == v@[m]);
        }
    }
    false
}

/// Whether some route in `0..n` has the valid map `(g, n)`.
fn route_map_before(routes: &Vec<RoamingPokemonRoute>, n: usize, g: u8, m: u8) -> (b: bool)
    requires
        n <= routes@.len(),
    ensures
        b == origin_before(routes@, n as int, g, m),
{
    if g == 0 || m == 0 {
        return false;
    }
    let mut k: usize = 0;
    while k < n
        invariant
            n <= routes@.len(),
            g != 0 && m != 0,
            k <= n,
            forall|q: int| 0 <= q < k ==> !(#[trigger] routes@[q].map_group == g && routes@[q].map_number == m),
        decreases n - k,
    {
        if routes[k].map_group == g && routes[k].map_number == m {
            proof {
                assert(routes@[k as int].map_group == g && routes@[k as int].map_number == m);
            }
            return true;
        }
        k += 1;
    }
    false
}

fn route_issue_list(routes: &Vec<RoamingPokemonRoute>, i: usize) -> (issues: Vec<RoamingPokemonCatalogIssue>)
    requires
        i < routes@.len(),
    ensures
        roaming_issue_views(issues@) == route_issues(routes@, i as int),
{
    let mut issues: Vec<RoamingPokemonCatalogIssue> = Vec::new();
    let route = &routes[i];
    if route.map_group == 0 || route.map_number == 0 || route_map_before(routes, i, route.map_group, route.map_number) {
        issues.push(
            RoamingPokemonCatalogIssue::InvalidRouteMap {
                index: i,
                map_group: route.map_group,
                map_number: route.map_number,
            },
        );
    }
    if route.connections.len() < 1 || route.connections.len() > 4 {
        issues.push(RoamingPokemonCatalogIssue::InvalidConnectionCount { index: i, count: route.connections.len() });
    }
    let ghost head = roaming_issue_views(issues@);
    let ghost conns = route.connections@;
    let ghost f = connection_checks(i as int, conns);
    let mut j: usize = 0;
    while j < route.connections.len()
        invariant
            conns == route.connections@,
            route == routes@[i as int],
            f == connection_checks(i as int, conns),
            j <= conns.len(),
            roaming_issue_views(issues@) == head + concat_issues(f, j as int),
        decreases route.connections.len() - j,
    {
        let ghost before = roaming_issue_views(issues@);
        let t = route.connections[j];
        if t.map_group == 0 || t.map_number == 0 {
            issues.push(
                RoamingPokemonCatalogIssue::InvalidConnectionMap {
                    index: i,
                    connection: j,
                    map_group: t.map_group,
                    map_number: t.map_number,
                },
            );
        }
        if locations_contain(&route.connections, j, t) {
            issues.push(
                RoamingPokemonCatalogIssue::DuplicateConnection {
                    index: i,
                    map_group: t.map_group,
                    map_number: t.map_number,
                },
            );
        }
        proof {
            assert(roaming_issue_views(issues@) =~= before + f(j as int));
            assert(head + concat_issues(f, j + 1) =~= head + concat_issues(f, j as int) + f(j as int));
        }
        j += 1;
    }
    proof {
        assert(roaming_issue_views(issues@) =~= route_issues(routes@, i as int));
    }
    issues
}

/// Whether `(g, m)` is a route origin.
fn is_route_origin(routes: &Vec<RoamingPokemonRoute>, g: u8, m: u8) -> (b: bool)
    ensures
        b == route_origin(routes@, g, m),
{
    route_map_before(routes, routes.len(), g, m)
}

/// Every shape problem with the roaming data: the slot count, the inactive map and its
/// collisions, the init order, the route count, the jump mask, each route's map and
/// connections, init writes off the routes, and connections to maps that are not routes.
pub fn roaming_pokemon_catalog_shape_issues(catalog: &RoamingPokemonCatalog) -> (issues: Vec<RoamingPokemonCatalogIssue>)
    ensures
        roaming_issue_views(issues@) == roaming_shape_list(*catalog),
{
    let mut issues = roaming_head_issues(catalog);
    let ghost head = roaming_issue_views(issues@);
    let ghost routes = catalog.routes@;
    let ghost f = route_checks(routes);
    let n = catalog.routes.len();
    let mut i: usize = 0;
    while i < n
        invariant
            n == routes.len(),
            routes == catalog.routes@,
            f == route_checks(routes),
            i <= n,
            roaming_issue_views(issues@) == head + concat_issues(f, i as int),
        decreases n - i,
    {
        let ghost before = issues@;
        let mut part = route_issue_list(&catalog.routes, i);
        let ghost p = part@;
        issues.append(&mut part);
        proof {
            assert(roaming_issue_views(issues@) =~= roaming_issue_views(before) + roaming_issue_views(p));
            assert(head + concat_issues(f, i + 1) =~= head + concat_issues(f, i as int) + f(i as int));
        }
        i += 1;
    }
    let ghost mid = roaming_issue_views(issues@);
    let ghost g = init_route_checks(*catalog);
    let w = catalog.init_writes.len();
    let mut k: usize = 0;
    while k < w
        invariant
            w == catalog.init_writes@.len(),
            g == init_route_checks(*catalog),
            k <= w,
            roaming_issue_views(issues@) == mid + concat_issues(g, k as int),
        decreases w - k,
    {
        let ghost before = roaming_issue_views(issues@);
        let write = &catalog.init_writes[k];
        if !is_route_origin(&catalog.routes, write.map_group, write.map_number) {
            issues.push(
                RoamingPokemonCatalogIssue::UnknownInitRoute {
                    slot: write.slot,
                    map_group: write.map_group,
                    map_number: write.map_number,
                },
            );
        }
        proof {
            assert(roaming_issue_views(issues@) =~= before + g(k as int));
            assert(mid + concat_issues(g, k + 1) =~= mid + concat_issues(g, k as int) + g(k as int));
        }
        k += 1;
    }
    let ghost late = roaming_issue_views(issues@);
    let ghost h = route_target_checks(routes);
    let mut r: usize = 0;
    while r < n
        invariant
            n == routes.len(),
            routes == catalog.routes@,
            h == route_target_checks(routes),
            r <= n,
            roaming_issue_views(issues@) == late + concat_issues(h, r as int),
        decreases n - r,
    {
        let ghost before = roaming_issue_views(issues@);
        let ghost t = target_checks(routes, r as int);
        let route = &catalog.routes[r];
        let mut j: usize = 0;
        while j < route.connections.len()
            invariant
                routes == catalog.routes@,
                route == routes[r as int],
                t == target_checks(routes, r as int),
                j <= route.connections@.len(),
                roaming_issue_views(issues@) == before + concat_issues(t, j as int),
            decreases route.connections.len() - j,
        {
            let ghost inner = roaming_issue_views(issues@);
            let target = route.connections[j];
            if !is_route_origin(&catalog.routes, target.map_group, target.map_number) {
                issues.push(
                    RoamingPokemonCatalogIssue::UnknownConnectionTarget {
                        index: r,
                        map_group: target.map_group,
                        map_number: target.map_number,
                    },
                );
            }
            proof {
                assert(roaming_issue_views(issues@) =~= inner + t(j as int));
                assert(before + concat_issues(t, j + 1) =~= before + concat_issues(t, j as int) + t(j as int));
            }
            j += 1;
        }
        proof {
            assert(h(r as int) == concat_issues(t, route.connections@.len() as int));
            assert(late + concat_issues(h, r + 1) =~= late + concat_issues(h, r as int) + h(r as int));
        }
        r += 1;
    }
    proof {
        assert(roaming_issue_views(issues@) =~= roaming_shape_list(*catalog));
    }
    issues
}

/// The issues of init write `i` against the species of the pack.
pub open spec fn init_write_issues(w: RoamingPokemonInitWrite, species: Set<Seq<char>>) -> Seq<RoamingIssueView> {
    let a: Seq<RoamingIssueView> = if !is_exact_token(w.species@) {
        seq![RoamingIssueView::InvalidInitSpecies { slot: w.slot, species: w.species@ }]
    } else if !species.contains(w.species@) {
        seq![RoamingIssueView::UnknownInitSpecies { slot: w.slot, species: w.species@ }]
    } else {
        seq![]
    };
    let b: Seq<RoamingIssueView> = if w.level < 1 || w.level > 100 {
        seq![RoamingIssueView::InvalidInitLevel { slot: w.slot, level: w.level }]
    } else {
        seq![]
    };
    let c: Seq<RoamingIssueView> = if !valid_map(w.map_group, w.map_number) {
        seq![RoamingIssueView::InvalidInitMap { slot: w.slot, map_group: w.map_group, map_number: w.map_number }]
    } else {
        seq![]
    };
    let d: Seq<RoamingIssueView> = if w.hp != 0 {
        seq![RoamingIssueView::InvalidInitHp { slot: w.slot, hp: w.hp }]
    } else {
        seq![]
    };
    a + b + c + d
}

pub open spec fn init_write_checks(c: RoamingPokemonCatalog, species: Set<Seq<char>>) -> spec_fn(int) -> Seq<RoamingIssueView> {
    |i: int| init_write_issues(c.init_writes@[i], species)
}

fn init_write_issue_list(write: &RoamingPokemonInitWrite, species_ids: &TextSet) -> (issues: Vec<RoamingPokemonCatalogIssue>)
    ensures
        roaming_issue_views(issues@) == init_write_issues(*write, species_ids.view()),
{
    let mut issues: Vec<RoamingPokemonCatalogIssue> = Vec::new();
    if !is_exact_nonempty_special_token(write.species.as_str()) {
        issues.push(
            RoamingPokemonCatalogIssue::InvalidInitSpecies { slot: write.slot, species: copy_text(write.species.as_str()) },
        );
    } else if !species_ids.contains(write.species.as_str()) {
        issues.push(
            RoamingPokemonCatalogIssue::UnknownInitSpecies { slot: write.slot, species: copy_text(write.species.as_str()) },
        );
    }
    if write.level < 1 || write.level > 100 {
        issues.push(RoamingPokemonCatalogIssue::InvalidInitLevel { slot: write.slot, level: write.level });
    }
    if write.map_group == 0 || write.map_number == 0 {
        issues.push(
            RoamingPokemonCatalogIssue::InvalidInitMap {
                slot: write.slot,
                map_group: write.map_group,
                map_number: write.map_number,
            },
        );
    }
    if write.hp != 0 {
        issues.push(RoamingPokemonCatalogIssue::InvalidInitHp { slot: write.slot, hp: write.hp });
    }
    proof {
        assert(roaming_issue_views(issues@) =~= init_write_issues(*write, species_ids.view()));
    }
    issues
}

/// Every problem with the roaming data: the shape issues, then each init write's species,
/// level, map and hp.
pub fn roaming_pokemon_catalog_issues(catalog: &RoamingPokemonCatalog, species_ids: &TextSet) -> (issues: Vec<
    RoamingPokemonCatalogIssue,
>)
    ensures
        roaming_issue_views(issues@) == roaming_shape_list(*catalog) + concat_issues(
            init_write_checks(*catalog, species_ids.view()),
            catalog.init_writes@.len() as int,
        ),
{
    let mut issues = roaming_pokemon_catalog_shape_issues(catalog);
    let ghost head = roaming_issue_views(issues@);
    let ghost f = init_write_checks(*catalog, species_ids.view());
    let w = catalog.init_writes.len();
    let mut k: usize = 0;
    while k < w
        invariant
            w == catalog.init_writes@.len(),
            f == init_write_checks(*catalog, species_ids.view()),
            k <= w,
            roaming_issue_views(issues@) == head + concat_issues(f, k as int),
        decreases w - k,
    {
        let ghost before = roaming_issue_views(issues@);
        let ghost bv = issues@;
        let mut part = init_write_issue_list(&catalog.init_writes[k], species_ids);
        let ghost p = part@;
        issues.append(&mut part);
        proof {
            assert(roaming_issue_views(issues@) =~= roaming_issue_views(bv) + roaming_issue_views(p));
        }
        proof {
            assert(roaming_issue_views(issues@) =~= before + f(k as int));
            assert(head + concat_issues(f, k + 1) =~= head + concat_issues(f, k as int) + f(k as int));
        }
        k += 1;
    }
    issues
}

} // verus!
