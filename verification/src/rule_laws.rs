//! Laws that pin the game's rules to their numbers: each follows from an operation's contract
//! and states, over all inputs, what the operation does in the game's own terms.
use vstd::prelude::*;
use crate::shop::{moved_selection, scrolled_window, SelectionDirection};
use crate::special_routines::day_care::countdown_reloaded;
use crate::special_routines::lucky_number::{digit_from_right, pow10, shared_suffix, tier_of};
use crate::special_routines::ratings::{magikarp_length_mm, rotr, rotr1, MagikarpLengthEntry};
use crate::state::DayCareState;
use crate::step_events::{poison_step_done, poisoned, StepEventRules};
use crate::pokemon::Pokemon;

verus! {

// ---- the Day-Care egg ----

/// When the egg countdown is reloaded, an egg appears exactly when the roll is under the
/// pair's chance: 80 from compatibility 230, 40 from 170, 30 from 110 and 10 below, and never
/// at compatibility 0 or 255. The countdown takes the reloaded value and nothing else changes.
pub proof fn egg_appears_exactly_on_winning_rolls(d0: DayCareState, d: DayCareState, reload: u8, roll: u8)
    requires
        countdown_reloaded(d0, d, reload, roll),
        !d0.egg_present,
    ensures
        d.steps_until_next_egg == reload,
        d.man == d0.man,
        d.lady == d0.lady,
        d.compatibility_score == d0.compatibility_score,
        d.egg_present <==> ({
            let c = d0.compatibility_score;
            &&& c != 0
            &&& c != 255
            &&& ((c >= 230 && roll < 80) || (170 <= c < 230 && roll < 40) || (110 <= c < 170 && roll < 30) || (c < 110
                && roll < 10))
        }),
{
}

// ---- the Lucky Number prize ----

proof fn lemma_pow10_positive(k: nat)
    ensures
        pow10(k) > 0,
    decreases k,
{
    if k > 0 {
        lemma_pow10_positive((k - 1) as nat);
    }
}

/// The shared run of trailing digits from digit `j` reaches `m` exactly when digits `j` to
/// `j + m - 1` all agree.
proof fn lemma_suffix_run(a: nat, b: nat, j: nat, m: nat)
    requires
        j + m <= 5,
    ensures
        shared_suffix(a, b, j) >= m <==> forall|i: nat| j <= i < j + m ==> digit_from_right(a, i) == digit_from_right(b, i),
    decreases m,
{
    if m > 0 {
        lemma_suffix_run(a, b, j + 1, (m - 1) as nat);
        if shared_suffix(a, b, j) >= m {
            assert forall|i: nat| j <= i < j + m implies digit_from_right(a, i) == digit_from_right(b, i) by {
                if i > j {
                    assert(j + 1 <= i < j + 1 + (m - 1) as nat);
                }
            }
        }
        if forall|i: nat| j <= i < j + m ==> digit_from_right(a, i) == digit_from_right(b, i) {
            assert(digit_from_right(a, j) == digit_from_right(b, j));
            assert forall|i: nat| j + 1 <= i < j + 1 + (m - 1) as nat implies digit_from_right(a, i) == digit_from_right(b, i) by {
                assert(j <= i < j + m);
            }
        }
    }
}

proof fn lemma_unique_split(p: int, da: int, la: int, db: int, lb: int)
    requires
        p > 0,
        0 <= la < p,
        0 <= lb < p,
        p * da + la == p * db + lb,
    ensures
        da == db,
        la == lb,
{
    if da < db {
        assert(p * db >= p * (da + 1)) by (nonlinear_arith)
            requires
                p > 0,
                da < db,
        ;
        assert(p * (da + 1) == p * da + p) by (nonlinear_arith);
    } else if db < da {
        assert(p * da >= p * (db + 1)) by (nonlinear_arith)
            requires
                p > 0,
                db < da,
        ;
        assert(p * (db + 1) == p * db + p) by (nonlinear_arith);
    }
}

/// The first `k` digits from the right agree exactly when the numbers agree modulo `10^k`.
proof fn lemma_digits_mod(a: nat, b: nat, k: nat)
    ensures
        (forall|i: nat| i < k ==> digit_from_right(a, i) == digit_from_right(b, i)) <==> a % pow10(k) == b % pow10(k),
    decreases k,
{
    if k > 0 {
        let k1 = (k - 1) as nat;
        lemma_digits_mod(a, b, k1);
        lemma_pow10_positive(k1);
        let p = pow10(k1);
        assert(pow10(k) == p * 10);
        vstd::arithmetic::div_mod::lemma_mod_breakdown(a as int, p as int, 10);
        vstd::arithmetic::div_mod::lemma_mod_breakdown(b as int, p as int, 10);
        let da = ((a / p) % 10) as int;
        let db = ((b / p) % 10) as int;
        assert(a % pow10(k) == p * da + a % p);
        assert(b % pow10(k) == p * db + b % p);
        if a % pow10(k) == b % pow10(k) {
            lemma_unique_split(p as int, da, (a % p) as int, db, (b % p) as int);
            assert forall|i: nat| i < k implies digit_from_right(a, i) == digit_from_right(b, i) by {
                if i == k1 {
                    assert(digit_from_right(a, i) == da);
                }
            }
        }
        if forall|i: nat| i < k ==> digit_from_right(a, i) == digit_from_right(b, i) {
            assert forall|i: nat| i < k1 implies digit_from_right(a, i) == digit_from_right(b, i) by {
                assert(i < k);
            }
            assert(digit_from_right(a, k1) == digit_from_right(b, k1));
        }
    }
}

/// Two numbers share at least `k` trailing digits exactly when they agree modulo `10^k`.
proof fn lemma_suffix_mod(a: nat, b: nat, k: nat)
    requires
        k <= 5,
    ensures
        shared_suffix(a, b, 0) >= k <==> a % pow10(k) == b % pow10(k),
{
    lemma_suffix_run(a, b, 0, k);
    lemma_digits_mod(a, b, k);
    if shared_suffix(a, b, 0) >= k {
        assert forall|i: nat| i < k implies digit_from_right(a, i) == digit_from_right(b, i) by {
            assert(0 <= i < 0 + k);
        }
    }
    if a % pow10(k) == b % pow10(k) {
        assert forall|i: nat| 0 <= i < 0 + k implies digit_from_right(a, i) == digit_from_right(b, i) by {
            assert(i < k);
        }
    }
}

/// The Lucky Number prize goes by how many trailing digits the trainer id shares with the
/// week's number: first prize when the whole id matches, second when the last three digits
/// match but not the whole id, third when exactly the last two match, and none when the last
/// two differ.
pub proof fn lucky_prize_follows_trailing_digits(trainer_id: u16, lucky_number: u16, tier: u8)
    requires
        tier == tier_of(shared_suffix(trainer_id as nat, lucky_number as nat, 0)),
    ensures
        tier == 1 <==> trainer_id == lucky_number,
        tier == 2 <==> trainer_id != lucky_number && trainer_id % 1000 == lucky_number % 1000,
        tier == 3 <==> trainer_id % 1000 != lucky_number % 1000 && trainer_id % 100 == lucky_number % 100,
        tier == 0 <==> trainer_id % 100 != lucky_number % 100,
{
    let a = trainer_id as nat;
    let b = lucky_number as nat;
    assert(pow10(2) == 100) by {
        reveal_with_fuel(pow10, 3);
    }
    assert(pow10(3) == 1000) by {
        reveal_with_fuel(pow10, 4);
    }
    assert(pow10(5) == 100000) by {
        reveal_with_fuel(pow10, 6);
    }
    lemma_suffix_mod(a, b, 2);
    lemma_suffix_mod(a, b, 3);
    lemma_suffix_mod(a, b, 5);
    assert(a % 100000 == a);
    assert(b % 100000 == b);
}

// ---- the Magikarp length ----

/// A byte rotated left by one bit.
pub open spec fn rotl1(v: u8) -> u8 {
    ((v % 128) * 2 + v / 128) as u8
}

/// The low byte of the trainer id mixes into the length exactly as the second DV byte does:
/// moving the id's low byte, rotated left by one bit, into the second DV byte leaves the
/// length unchanged. So the trainer id's low byte counts, and only through that mix.
pub proof fn magikarp_trainer_low_byte_mixes_with_second_dv(
    dv0: u8,
    dv1: u8,
    trainer_id: u16,
    table: Seq<MagikarpLengthEntry>,
)
    ensures
        magikarp_length_mm(dv0, dv1, trainer_id, table) == magikarp_length_mm(
            dv0,
            dv1 ^ rotl1((trainer_id % 256) as u8),
            (trainer_id - trainer_id % 256) as u16,
            table,
        ),
{
    let lo = (trainer_id % 256) as u8;
    let moved = dv1 ^ rotl1(lo);
    let cleared = (trainer_id - trainer_id % 256) as u16;
    assert(cleared / 256 == trainer_id / 256);
    assert(cleared % 256 == 0);
    reveal_with_fuel(rotr, 3);
    assert(rotr((cleared % 256) as u8, 1) == 0) by {
        assert(rotr1(0) == 0);
    }
    assert(rotr(moved, 2) == rotr1(rotr1(moved)));
    assert(rotr(dv1, 2) == rotr1(rotr1(dv1)));
    assert(rotr(lo, 1) == rotr1(lo));
    assert(rotr1(rotr1(dv1 ^ rotl1(lo))) == rotr1(rotr1(dv1)) ^ rotr1(lo)) by (bit_vector);
    assert((rotr(dv1, 2) ^ rotr(lo, 1)) == (rotr(moved, 2) ^ 0u8)) by {
        assert(rotr(moved, 2) ^ 0u8 == rotr(moved, 2)) by (bit_vector);
    }
}

/// The high byte of the trainer id mixes into the length exactly as the first DV byte does.
pub proof fn magikarp_trainer_high_byte_mixes_with_first_dv(
    dv0: u8,
    dv1: u8,
    trainer_id: u16,
    table: Seq<MagikarpLengthEntry>,
)
    ensures
        magikarp_length_mm(dv0, dv1, trainer_id, table) == magikarp_length_mm(
            dv0 ^ rotl1((trainer_id / 256) as u8),
            dv1,
            trainer_id % 256,
            table,
        ),
{
    let hi = (trainer_id / 256) as u8;
    let moved = dv0 ^ rotl1(hi);
    reveal_with_fuel(rotr, 3);
    assert(rotr(((trainer_id % 256) / 256) as u8, 1) == 0) by {
        assert(rotr1(0) == 0);
    }
    assert(rotr(moved, 2) == rotr1(rotr1(moved)));
    assert(rotr(dv0, 2) == rotr1(rotr1(dv0)));
    assert(rotr(hi, 1) == rotr1(hi));
    assert(rotr1(rotr1(dv0 ^ rotl1(hi))) == rotr1(rotr1(dv0)) ^ rotr1(hi)) by (bit_vector);
    assert((rotr(dv0, 2) ^ rotr(hi, 1)) == (rotr(moved, 2) ^ 0u8)) by {
        assert(rotr(moved, 2) ^ 0u8 == rotr(moved, 2)) by (bit_vector);
    }
}

// ---- poison in the field ----

/// When poison strikes, a poisoned Pokemon at 1 HP faints: it drops to 0 HP, loses its
/// status, and loses 5 happiness (down to no lower than 0) below 200, or 10 from 200 up. A
/// poisoned Pokemon with more HP loses one HP and keeps its happiness.
pub proof fn poison_faint_costs_five_or_ten_happiness(
    rules: StepEventRules,
    counter_before: u8,
    before: Seq<Option<Pokemon>>,
    counter_after: u8,
    after: Seq<Option<Pokemon>>,
    report: Option<(Seq<Seq<char>>, Seq<Seq<char>>)>,
    i: int,
)
    requires
        poison_step_done(rules, counter_before, before, counter_after, after, report),
        counter_before >= rules.poison_step_interval,
        0 <= i < before.len(),
        before[i] matches Some(p) && poisoned(rules, p) && p.hp >= 1,
    ensures
        ({
            let p = before[i]->0;
            after[i] matches Some(q) && if p.hp == 1 {
                &&& q.hp == 0
                &&& q.status is None
                &&& q.happiness == (if p.happiness < 200 {
                    if p.happiness < 5 { 0 } else { p.happiness - 5 }
                } else {
                    p.happiness - 10
                })
            } else {
                &&& q.hp == p.hp - 1
                &&& q.status == p.status
                &&& q.happiness == p.happiness
            }
        }),
{
}

// ---- the mart menu ----

pub open spec fn distance(a: int, b: int) -> int {
    if a < b { b - a } else { a - b }
}

/// Moving the mart cursor moves it one row, never past the first or last item, and the
/// four-row window moves as little as it can while still showing the cursor: it stays put
/// when the cursor is still on it, and otherwise starts or ends at the cursor.
pub proof fn mart_window_moves_as_little_as_it_can(
    selection: usize,
    scroll: usize,
    total_items: usize,
    direction: SelectionDirection,
    cursor: usize,
    window: usize,
)
    requires
        total_items > 0,
        cursor == moved_selection(selection, total_items, direction),
        window == scrolled_window(moved_selection(selection, total_items, direction), scroll),
    ensures
        direction == SelectionDirection::Up ==> cursor == (if selection == 0 { 0 } else { selection - 1 }),
        direction == SelectionDirection::Down ==> cursor == (if selection + 1 < total_items { selection + 1 } else {
            total_items - 1
        }),
        window <= cursor < window + 4,
        forall|w: int| 0 <= w <= cursor < w + 4 ==> distance(window as int, scroll as int) <= distance(w, scroll as int),
{
}

} // verus!
