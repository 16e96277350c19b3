//! The spawn points that warps and flying land on, and their checks.
use vstd::prelude::*;
use crate::ordered::TextMap;
use crate::special_routines::checks::concat_issues;
use crate::special_routines::tokens::is_exact_nonempty_special_token;
use crate::text::{
    all_digits, copy_text, decimal_value, is_digit, is_exact_token, lemma_decimal_value_grows, text_chars, text_eq,
};

verus! {

/// Tiles per metatile side.
pub const METATILE_WIDTH: i16 = 2;

/// A tile of a map.
#[derive(Clone, Copy, Debug, PartialEq, Eq, Structural)]
pub struct TilePosition {
    pub x: i16,
    pub y: i16,
}

impl TilePosition {
    pub fn new(x: i16, y: i16) -> (t: Self)
        ensures
            t == (TilePosition { x, y }),
    {
        TilePosition { x, y }
    }
}

/// A spawn point: its map, and its tile both as a tile and as metatile plus subtile.
#[derive(Debug, PartialEq, Eq)]
pub struct RuntimeSpawnPointRef {
    pub identifier: u16,
    pub map_constant: String,
    pub map_name: String,
    pub group_id: i16,
    pub map_id: i16,
    pub tile_x: i16,
    pub tile_y: i16,
    pub group_name: String,
    pub metatile_x: i16,
    pub metatile_y: i16,
    pub subtile_x: i16,
    pub subtile_y: i16,
}

/// Both subtiles lie inside a metatile.
pub open spec fn subtiles_valid(s: RuntimeSpawnPointRef) -> bool {
    0 <= s.subtile_x < METATILE_WIDTH && 0 <= s.subtile_y < METATILE_WIDTH
}

pub open spec fn fits_i16(v: int) -> bool {
    i16::MIN <= v <= i16::MAX
}

/// The tile the metatile and subtile name, when the subtiles are valid and it fits a tile.
pub open spec fn expected_tile(s: RuntimeSpawnPointRef) -> Option<TilePosition> {
    let x = s.metatile_x * METATILE_WIDTH + s.subtile_x;
    let y = s.metatile_y * METATILE_WIDTH + s.subtile_y;
    if subtiles_valid(s) && fits_i16(x) && fits_i16(y) {
        Some(TilePosition { x: x as i16, y: y as i16 })
    } else {
        None
    }
}

/// Whether both subtiles lie inside a metatile.
pub fn runtime_spawn_subtiles_are_valid(spawn: &RuntimeSpawnPointRef) -> (b: bool)
    ensures
        b == subtiles_valid(*spawn),
{
    0 <= spawn.subtile_x && spawn.subtile_x < METATILE_WIDTH && 0 <= spawn.subtile_y && spawn.subtile_y < METATILE_WIDTH
}

/// The tile the spawn point's metatile and subtile name, if they are valid and it fits.
pub fn checked_runtime_spawn_expected_tile(spawn: &RuntimeSpawnPointRef) -> (r: Option<TilePosition>)
    ensures
        r == expected_tile(*spawn),
{
    if !runtime_spawn_subtiles_are_valid(spawn) {
        return None;
    }
    let x: i32 = (spawn.metatile_x as i32) * (METATILE_WIDTH as i32) + (spawn.subtile_x as i32);
    let y: i32 = (spawn.metatile_y as i32) * (METATILE_WIDTH as i32) + (spawn.subtile_y as i32);
    if x < -32768 || x > 32767 || y < -32768 || y > 32767 {
        return None;
    }
    Some(TilePosition::new(x as i16, y as i16))
}

/// The tile a spawn point names; the caller guarantees it is well formed.
pub fn runtime_spawn_expected_tile(spawn: &RuntimeSpawnPointRef) -> (t: TilePosition)
    requires
        expected_tile(*spawn) is Some,
    ensures
        expected_tile(*spawn) == Some(t),
{
    match checked_runtime_spawn_expected_tile(spawn) {
        Some(t) => t,
        None => TilePosition::new(0, 0),
    }
}

/// A spawn point for a tile at or past the map's origin, split into metatile and subtile.
pub fn runtime_spawn_point_from_runtime_tile(
    identifier: u16,
    map_constant: String,
    map_name: String,
    group_id: i16,
    map_id: i16,
    group_name: String,
    tile: TilePosition,
) -> (r: Option<RuntimeSpawnPointRef>)
    ensures
        match r {
            Some(s) => {
                &&& tile.x >= 0 && tile.y >= 0
                &&& s.identifier == identifier && s.map_constant == map_constant && s.map_name == map_name
                &&& s.group_id == group_id && s.map_id == map_id && s.group_name == group_name
                &&& s.tile_x == tile.x && s.tile_y == tile.y
                &&& s.metatile_x == tile.x / METATILE_WIDTH && s.subtile_x == tile.x % METATILE_WIDTH
                &&& s.metatile_y == tile.y / METATILE_WIDTH && s.subtile_y == tile.y % METATILE_WIDTH
                &&& expected_tile(s) == Some(tile)
            },
            None => tile.x < 0 || tile.y < 0,
        },
{
    if tile.x < 0 || tile.y < 0 {
        return None;
    }
    let spawn = RuntimeSpawnPointRef {
        identifier,
        map_constant,
        map_name,
        group_id,
        map_id,
        tile_x: tile.x,
        tile_y: tile.y,
        group_name,
        metatile_x: tile.x / METATILE_WIDTH,
        metatile_y: tile.y / METATILE_WIDTH,
        subtile_x: tile.x % METATILE_WIDTH,
        subtile_y: tile.y % METATILE_WIDTH,
    };
    match checked_runtime_spawn_expected_tile(&spawn) {
        Some(t) => {
            if t == tile {
                Some(spawn)
            } else {
                None
            }
        },
        None => None,
    }
}

// ---- reading a decimal identifier ----

/// The text after an optional leading `+`.
pub open spec fn unsigned_digits(s: Seq<char>) -> Seq<char> {
    if s.len() > 0 && s[0] == '+' { s.drop_first() } else { s }
}

/// What `str::parse::<u16>` gives: an optional `+`, then one or more digits whose value fits.
pub open spec fn parse_u16(s: Seq<char>) -> Option<u16> {
    let d = unsigned_digits(s);
    if d.len() == 0 || !all_digits(d) {
        None
    } else if decimal_value(d) > 65535 {
        None
    } else {
        Some(decimal_value(d) as u16)
    }
}

/// Reads `key` as `str::parse::<u16>` does.
pub fn parse_decimal_u16(key: &str) -> (r: Option<u16>)
    ensures
        r == parse_u16(key@),
{
    let chars = text_chars(key);
    let start: usize = if chars.len() > 0 && chars[0] == '+' { 1 } else { 0 };
    let ghost d = unsigned_digits(key@);
    proof {
        assert(d =~= chars@.skip(start as int));
    }
    if start >= chars.len() {
        return None;
    }
    let mut value: u32 = 0;
    let mut i: usize = start;
    while i < chars.len()
        invariant
            start <= i <= chars@.len(),
            start < chars@.len(),
            chars@ == key@,
            d == unsigned_digits(key@),
            start == (if key@.len() > 0 && key@[0] == '+' { 1usize } else { 0usize }),
            d == chars@.skip(start as int),
            forall|k: int| 0 <= k < i - start ==> is_digit(#[trigger] d[k]),
            value == decimal_value(d.take(i - start)),
            value <= 65535,
        decreases chars.len() - i,
    {
        let c = chars[i];
        if !('0' <= c && c <= '9') {
            proof {
                assert(d[i - start] == c);
                assert(!is_digit(d[i - start]));
                assert(!all_digits(d));
                assert(parse_u16(key@) is None);
            }
            return None;
        }
        proof {
            assert(d.take(i - start + 1).drop_last() =~= d.take(i - start));
            assert(d.take(i - start + 1).last() == c);
        }
        let digit: u32 = (c as u32) - ('0' as u32);
        let next: u32 = value * 10 + digit;
        if next > 65535 {
            proof {
                assert forall|k: int| 0 <= k < i - start + 1 implies is_digit(#[trigger] d[k]) by {
                    if k == i - start {
                        assert(d[k] == c);
                    }
                }
                assert(decimal_value(d.take(i - start + 1)) == decimal_value(d.take(i - start)) * 10 + (c as int - '0' as int));
                assert(decimal_value(d.take(i - start + 1)) == next);
                if all_digits(d) {
                    lemma_decimal_value_grows(d, i - start + 1);
                    assert(decimal_value(d) > 65535);
                }
                assert(parse_u16(key@) is None);
            }
            return None;
        }
        value = next;
        i += 1;
    }
    proof {
        assert(d.take(d.len() as int) =~= d);
    }
    Some(value as u16)
}

// ---- the catalog check ----

/// A problem with a spawn point.
#[derive(Debug, PartialEq, Eq)]
pub enum RuntimeSpawnPointCatalogIssue {
    IdentifierMismatch { key: String, identifier: u16 },
    MapMismatch { key: String, map_name: String, metadata_name: String },
    UnknownMap { key: String, map_constant: String },
    InvalidSpawnPoint { key: String },
    CoordinateMismatch { key: String, tile_x: i16, tile_y: i16, expected_tile_x: i16, expected_tile_y: i16 },
    CoordinateOverflow { key: String, metatile_x: i16, metatile_y: i16, subtile_x: i16, subtile_y: i16 },
    InvalidSubtile { key: String, subtile_x: i16, subtile_y: i16, metatile_width: i16 },
    DuplicateMapBinding { key: String, existing_key: String, group_id: i16, map_id: i16 },
}

pub enum SpawnIssueView {
    IdentifierMismatch { key: Seq<char>, identifier: u16 },
    MapMismatch { key: Seq<char>, map_name: Seq<char>, metadata_name: Seq<char> },
    UnknownMap { key: Seq<char>, map_constant: Seq<char> },
    InvalidSpawnPoint { key: Seq<char> },
    CoordinateMismatch { key: Seq<char>, tile_x: i16, tile_y: i16, expected_tile_x: i16, expected_tile_y: i16 },
    CoordinateOverflow { key: Seq<char>, metatile_x: i16, metatile_y: i16, subtile_x: i16, subtile_y: i16 },
    InvalidSubtile { key: Seq<char>, subtile_x: i16, subtile_y: i16, metatile_width: i16 },
    DuplicateMapBinding { key: Seq<char>, existing_key: Seq<char>, group_id: i16, map_id: i16 },
}

impl View for RuntimeSpawnPointCatalogIssue {
    type V = SpawnIssueView;

    open spec fn view(&self) -> SpawnIssueView {
        match self {
            RuntimeSpawnPointCatalogIssue::IdentifierMismatch { key, identifier } => SpawnIssueView::IdentifierMismatch {
                key: key@,
                identifier: *identifier,
            },
            RuntimeSpawnPointCatalogIssue::MapMismatch { key, map_name, metadata_name } => SpawnIssueView::MapMismatch {
                key: key@,
                map_name: map_name@,
                metadata_name: metadata_name@,
            },
            RuntimeSpawnPointCatalogIssue::UnknownMap { key, map_constant } => SpawnIssueView::UnknownMap {
                key: key@,
                map_constant: map_constant@,
            },
            RuntimeSpawnPointCatalogIssue::InvalidSpawnPoint { key } => SpawnIssueView::InvalidSpawnPoint { key: key@ },
            RuntimeSpawnPointCatalogIssue::CoordinateMismatch { key, tile_x, tile_y, expected_tile_x, expected_tile_y } => {
                SpawnIssueView::CoordinateMismatch {
                    key: key@,
                    tile_x: *tile_x,
                    tile_y: *tile_y,
                    expected_tile_x: *expected_tile_x,
                    expected_tile_y: *expected_tile_y,
                }
            },
            RuntimeSpawnPointCatalogIssue::CoordinateOverflow { key, metatile_x, metatile_y, subtile_x, subtile_y } => {
                SpawnIssueView::CoordinateOverflow {
                    key: key@,
                    metatile_x: *metatile_x,
                    metatile_y: *metatile_y,
                    subtile_x: *subtile_x,
                    subtile_y: *subtile_y,
                }
            },
            RuntimeSpawnPointCatalogIssue::InvalidSubtile { key, subtile_x, subtile_y, metatile_width } => {
                SpawnIssueView::InvalidSubtile {
                    key: key@,
                    subtile_x: *subtile_x,
                    subtile_y: *subtile_y,
                    metatile_width: *metatile_width,
                }
            },
            RuntimeSpawnPointCatalogIssue::DuplicateMapBinding { key, existing_key, group_id, map_id } => {
                SpawnIssueView::DuplicateMapBinding {
                    key: key@,
                    existing_key: existing_key@,
                    group_id: *group_id,
                    map_id: *map_id,
                }
            },
        }
    }
}

pub open spec fn spawn_issue_views(v: Seq<RuntimeSpawnPointCatalogIssue>) -> Seq<SpawnIssueView> {
    v.map_values(|i: RuntimeSpawnPointCatalogIssue| i@)
}

/// A spawn point whose key, map constant, map name or group name breaks the token rule.
pub open spec fn spawn_invalid(key: Seq<char>, s: RuntimeSpawnPointRef) -> bool {
    !is_exact_token(key) || !is_exact_token(s.map_constant@) || !is_exact_token(s.map_name@) || !is_exact_token(
        s.group_name@,
    )
}

/// The last valid spawn point among the first `n` bound to the map `(g, m)`.
pub open spec fn last_binding(points: TextMap<RuntimeSpawnPointRef>, n: int, g: i16, m: i16) -> Option<int>
    decreases n,
{
    if n <= 0 {
        None
    } else {
        let s = points.value_seq()[n - 1];
        if !spawn_invalid(points.key_seq()[n - 1], s) && s.group_id == g && s.map_id == m {
            Some(n - 1)
        } else {
            last_binding(points, n - 1, g, m)
        }
    }
}

pub open spec fn tile_issues(key: Seq<char>, s: RuntimeSpawnPointRef) -> Seq<SpawnIssueView> {
    if !subtiles_valid(s) {
        seq![SpawnIssueView::InvalidSubtile {
            key,
            subtile_x: s.subtile_x,
            subtile_y: s.subtile_y,
            metatile_width: METATILE_WIDTH,
        }]
    } else {
        match expected_tile(s) {
            Some(t) => if s.tile_x != t.x || s.tile_y != t.y {
                seq![SpawnIssueView::CoordinateMismatch {
                    key,
                    tile_x: s.tile_x,
                    tile_y: s.tile_y,
                    expected_tile_x: t.x,
                    expected_tile_y: t.y,
                }]
            } else {
                seq![]
            },
            None => seq![SpawnIssueView::CoordinateOverflow {
                key,
                metatile_x: s.metatile_x,
                metatile_y: s.metatile_y,
                subtile_x: s.subtile_x,
                subtile_y: s.subtile_y,
            }],
        }
    }
}

pub open spec fn map_issues(key: Seq<char>, s: RuntimeSpawnPointRef, names: Map<Seq<char>, String>) -> Seq<SpawnIssueView> {
    if is_exact_token(s.map_constant@) && s.map_constant@ != "N_A"@ {
        if names.contains_key(s.map_constant@) {
            if names[s.map_constant@]@ == s.map_name@ {
                seq![]
            } else {
                seq![SpawnIssueView::MapMismatch { key, map_name: s.map_name@, metadata_name: names[s.map_constant@]@ }]
            }
        } else {
            seq![SpawnIssueView::UnknownMap { key, map_constant: s.map_constant@ }]
        }
    } else {
        seq![]
    }
}

/// The issues of spawn point `i`, in the order the checks run.
pub open spec fn spawn_issues(points: TextMap<RuntimeSpawnPointRef>, names: Map<Seq<char>, String>, i: int) -> Seq<
    SpawnIssueView,
> {
    let key = points.key_seq()[i];
    let s = points.value_seq()[i];
    let a: Seq<SpawnIssueView> = if spawn_invalid(key, s) {
        seq![SpawnIssueView::InvalidSpawnPoint { key }]
    } else {
        seq![]
    };
    let c: Seq<SpawnIssueView> = if parse_u16(key) != Some(s.identifier) {
        seq![SpawnIssueView::IdentifierMismatch { key, identifier: s.identifier }]
    } else {
        seq![]
    };
    let e: Seq<SpawnIssueView> = if !spawn_invalid(key, s) && last_binding(points, i, s.group_id, s.map_id) is Some {
        seq![SpawnIssueView::DuplicateMapBinding {
            key,
            existing_key: points.key_seq()[last_binding(points, i, s.group_id, s.map_id)->0],
            group_id: s.group_id,
            map_id: s.map_id,
        }]
    } else {
        seq![]
    };
    a + tile_issues(key, s) + c + map_issues(key, s, names) + e
}

pub open spec fn spawn_checks(points: TextMap<RuntimeSpawnPointRef>, names: Map<Seq<char>, String>) -> spec_fn(int) -> Seq<
    SpawnIssueView,
> {
    |i: int| spawn_issues(points, names, i)
}

fn spawn_is_invalid(key: &String, s: &RuntimeSpawnPointRef) -> (b: bool)
    ensures
        b == spawn_invalid(key@, *s),
{
    !is_exact_nonempty_special_token(key.as_str()) || !is_exact_nonempty_special_token(s.map_constant.as_str())
        || !is_exact_nonempty_special_token(s.map_name.as_str()) || !is_exact_nonempty_special_token(s.group_name.as_str())
}

fn find_last_binding(points: &TextMap<RuntimeSpawnPointRef>, n: usize, g: i16, m: i16) -> (r: Option<usize>)
    requires
        n <= points.key_seq().len(),
    ensures
        match r {
            Some(j) => last_binding(*points, n as int, g, m) == Some(j as int) && j < n,
            None => last_binding(*points, n as int, g, m) is None,
        },
{
    let total = points.len();
    let mut k: usize = n;
    while k > 0
        invariant
            total == points.key_seq().len(),
            total == points.value_seq().len(),
            k <= n <= total,
            last_binding(*points, n as int, g, m) == last_binding(*points, k as int, g, m),
        decreases k,
    {
        let s = points.value_at(k - 1);
        if !spawn_is_invalid(points.key_at(k - 1), s) && s.group_id == g && s.map_id == m {
            return Some(k - 1);
        }
        k -= 1;
    }
    None
}

fn tile_issue_list(key: &String, s: &RuntimeSpawnPointRef) -> (issues: Vec<RuntimeSpawnPointCatalogIssue>)
    ensures
        spawn_issue_views(issues@) == tile_issues(key@, *s),
{
    let mut issues: Vec<RuntimeSpawnPointCatalogIssue> = Vec::new();
    if !runtime_spawn_subtiles_are_valid(s) {
        issues.push(
            RuntimeSpawnPointCatalogIssue::InvalidSubtile {
                key: copy_text(key.as_str()),
                subtile_x: s.subtile_x,
                subtile_y: s.subtile_y,
                metatile_width: METATILE_WIDTH,
            },
        );
    } else {
        match checked_runtime_spawn_expected_tile(s) {
            Some(t) => {
                if s.tile_x != t.x || s.tile_y != t.y {
                    issues.push(
                        RuntimeSpawnPointCatalogIssue::CoordinateMismatch {
                            key: copy_text(key.as_str()),
                            tile_x: s.tile_x,
                            tile_y: s.tile_y,
                            expected_tile_x: t.x,
                            expected_tile_y: t.y,
                        },
                    );
                }
            },
            None => {
                issues.push(
                    RuntimeSpawnPointCatalogIssue::CoordinateOverflow {
                        key: copy_text(key.as_str()),
                        metatile_x: s.metatile_x,
                        metatile_y: s.metatile_y,
                        subtile_x: s.subtile_x,
                        subtile_y: s.subtile_y,
                    },
                );
            },
        }
    }
    proof {
        assert(spawn_issue_views(issues@) =~= tile_issues(key@, *s));
    }
    issues
}

fn map_issue_list(key: &String, s: &RuntimeSpawnPointRef, names: &TextMap<String>) -> (issues: Vec<RuntimeSpawnPointCatalogIssue>)
    ensures
        spawn_issue_views(issues@) == map_issues(key@, *s, names.view()),
{
    let mut issues: Vec<RuntimeSpawnPointCatalogIssue> = Vec::new();
    if is_exact_nonempty_special_token(s.map_constant.as_str()) && !text_eq(s.map_constant.as_str(), "N_A") {
        match names.get(s.map_constant.as_str()) {
            Some(metadata_name) => {
                if !text_eq(metadata_name.as_str(), s.map_name.as_str()) {
                    issues.push(
                        RuntimeSpawnPointCatalogIssue::MapMismatch {
                            key: copy_text(key.as_str()),
                            map_name: copy_text(s.map_name.as_str()),
                            metadata_name: copy_text(metadata_name.as_str()),
                        },
                    );
                }
            },
            None => {
                issues.push(
                    RuntimeSpawnPointCatalogIssue::UnknownMap {
                        key: copy_text(key.as_str()),
                        map_constant: copy_text(s.map_constant.as_str()),
                    },
                );
            },
        }
    }
    proof {
        assert(spawn_issue_views(issues@) =~= map_issues(key@, *s, names.view()));
    }
    issues
}

fn spawn_issue_list(points: &TextMap<RuntimeSpawnPointRef>, names: &TextMap<String>, i: usize) -> (issues: Vec<
    RuntimeSpawnPointCatalogIssue,
>)
    requires
        i < points.key_seq().len(),
    ensures
        spawn_issue_views(issues@) == spawn_issues(*points, names.view(), i as int),
{
    let n = points.len();
    let key = points.key_at(i);
    let s = points.value_at(i);
    let invalid = spawn_is_invalid(key, s);
    let mut issues: Vec<RuntimeSpawnPointCatalogIssue> = Vec::new();
    if invalid {
        issues.push(RuntimeSpawnPointCatalogIssue::InvalidSpawnPoint { key: copy_text(key.as_str()) });
    }
    let ghost a = issues@;
    let mut tiles = tile_issue_list(key, s);
    let ghost b = tiles@;
    issues.append(&mut tiles);
    let mut ident: Vec<RuntimeSpawnPointCatalogIssue> = Vec::new();
    let parsed = parse_decimal_u16(key.as_str());
    let matches_id = match parsed {
        Some(v) => v == s.identifier,
        None => false,
    };
    if !matches_id {
        ident.push(RuntimeSpawnPointCatalogIssue::IdentifierMismatch { key: copy_text(key.as_str()), identifier: s.identifier });
    }
    let ghost c = ident@;
    issues.append(&mut ident);
    let mut maps = map_issue_list(key, s, names);
    let ghost d = maps@;
    issues.append(&mut maps);
    let mut dup: Vec<RuntimeSpawnPointCatalogIssue> = Vec::new();
    if !invalid {
        match find_last_binding(points, i, s.group_id, s.map_id) {
            Some(j) => {
                dup.push(
                    RuntimeSpawnPointCatalogIssue::DuplicateMapBinding {
                        key: copy_text(key.as_str()),
                        existing_key: copy_text(points.key_at(j).as_str()),
                        group_id: s.group_id,
                        map_id: s.map_id,
                    },
                );
            },
            None => {},
        }
    }
    let ghost e = dup@;
    issues.append(&mut dup);
    proof {
        assert(issues@ == a + b + c + d + e);
        assert(spawn_issue_views(issues@) =~= spawn_issue_views(a) + spawn_issue_views(b) + spawn_issue_views(c)
            + spawn_issue_views(d) + spawn_issue_views(e));
        assert(spawn_issue_views(issues@) =~= spawn_issues(*points, names.view(), i as int));
    }
    issues
}

/// Every problem with the spawn points, by key: malformed names, bad subtiles or tiles that
/// disagree with the metatile, a key that is not the identifier, a map constant whose map
/// name disagrees with the runtime metadata or is unknown, and a map already bound by an
/// earlier spawn point.
pub fn runtime_spawn_point_catalog_issues(
    spawn_points: &TextMap<RuntimeSpawnPointRef>,
    runtime_map_names: &TextMap<String>,
) -> (issues: Vec<RuntimeSpawnPointCatalogIssue>)
    ensures
        spawn_issue_views(issues@) == concat_issues(
            spawn_checks(*spawn_points, runtime_map_names.view()),
            spawn_points.key_seq().len() as int,
        ),
{
    let mut issues: Vec<RuntimeSpawnPointCatalogIssue> = Vec::new();
    let ghost f = spawn_checks(*spawn_points, runtime_map_names.view());
    let n = spawn_points.len();
    let mut i: usize = 0;
    while i < n
        invariant
            n == spawn_points.key_seq().len(),
            f == spawn_checks(*spawn_points, runtime_map_names.view()),
            i <= n,
            spawn_issue_views(issues@) == concat_issues(f, i as int),
        decreases n - i,
    {
        let ghost before = issues@;
        let mut part = spawn_issue_list(spawn_points, runtime_map_names, i);
        let ghost p = part@;
        issues.append(&mut part);
        proof {
            assert(spawn_issue_views(issues@) =~= spawn_issue_views(before) + spawn_issue_views(p));
        }
        i += 1;
    }
    issues
}

} // verus!
