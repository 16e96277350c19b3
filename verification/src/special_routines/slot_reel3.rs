//! Stopping the slot machine's third reel. Once the first two reels line up with a seven,
//! a drawn byte chooses how the third reel stops: at once, slowly, with a Golem bumping it,
//! or with a Chansey dragging it round to a seven. Each way turns the reel until a position
//! that settles it; the contracts ask that such a position exists on the reel.
use vstd::prelude::*;
use crate::special_routines::game_corner::{
    first_two_match, line_order, reel, reel3_match, slot_advance_reel3_until_no_match, slot_check_first_two, slot_reel,
    slot_reel3_match, slot_window, third_reel_can_miss, until_no_match, window, SlotStopMode, SlotStopResolution,
    SlotSymbol,
};

verus! {

/// The first index from `j`, within `fuel` indexes, at which `pred` holds; `j + fuel` when none
/// does.
pub open spec fn first_from(pred: spec_fn(int) -> bool, j: int, fuel: nat) -> int
    decreases fuel,
{
    if fuel == 0 || pred(j) {
        j
    } else {
        first_from(pred, j + 1, (fuel - 1) as nat)
    }
}

proof fn lemma_first_from(pred: spec_fn(int) -> bool, j: int, fuel: nat)
    ensures
        j <= first_from(pred, j, fuel) <= j + fuel,
        first_from(pred, j, fuel) < j + fuel ==> pred(first_from(pred, j, fuel)),
        forall|i: int| j <= i < first_from(pred, j, fuel) ==> !#[trigger] pred(i),
    decreases fuel,
{
    if fuel > 0 && !pred(j) {
        lemma_first_from(pred, j + 1, (fuel - 1) as nat);
    }
}

/// Some position of the third reel makes the reels pay on `target`.
pub open spec fn reel3_can_show(o: Seq<usize>, bet: u8, target: Option<SlotSymbol>) -> bool {
    exists|p: int| 0 <= p < 15 && #[trigger] reel3_match(o.update(2, p as usize), bet) == target
}

/// The third reel's match at position `p`.
pub open spec fn match_at(o: Seq<usize>, bet: u8, p: int) -> Option<SlotSymbol> {
    reel3_match(o.update(2, (p % 15) as usize), bet)
}

/// Any residue is reached from any start within one turn.
proof fn lemma_reach(base: int, p: int)
    requires
        base >= 0,
        0 <= p < 15,
    ensures
        ((p - base % 15 + 15) % 15) < 15,
        (base + (p - base % 15 + 15) % 15) % 15 == p,
{
}

/// Rotating the reel reaches every position within one turn.
proof fn lemma_show_from(o: Seq<usize>, bet: u8, target: Option<SlotSymbol>, base: int)
    requires
        reel3_can_show(o, bet, target),
        base >= 0,
    ensures
        exists|k: int| 0 <= k < 15 && #[trigger] match_at(o, bet, base + k) == target,
{
    let p = choose|p: int| 0 <= p < 15 && #[trigger] reel3_match(o.update(2, p as usize), bet) == target;
    lemma_reach(base, p);
    let k = (p - base % 15 + 15) % 15;
    assert(match_at(o, bet, base + k) == target);
}

/// Where the plain stop settles, counted in positions turned: on the bias when it shows, or,
/// when nothing pays, at once without a bias or after four positions with one.
pub open spec fn stop_pred(o: Seq<usize>, bias: Option<SlotSymbol>, bet: u8) -> spec_fn(int) -> bool {
    |j: int|
        {
            let m = match_at(o, bet, o[2] + j);
            (m is Some && m == bias) || (m is None && (bias is None || j >= 4))
        }
}

/// The plain stop of the third reel.
#[verifier::rlimit(40)]
pub fn slot_apply_reel3_stop(offsets: &mut [usize; 3], bias: Option<SlotSymbol>, bet: u8)
    requires
        forall|k: int| 0 <= k < 3 ==> old(offsets)@[k] < 15,
        reel3_can_show(old(offsets)@, bet, None),
    ensures
        final(offsets)@ == old(offsets)@.update(
            2,
            ((old(offsets)@[2] + first_from(stop_pred(old(offsets)@, bias, bet), 0, 19)) % 15) as usize,
        ),
        first_from(stop_pred(old(offsets)@, bias, bet), 0, 19) < 19,
{
    let ghost o = offsets@;
    let ghost pred = stop_pred(o, bias, bet);
    proof {
        lemma_first_from(pred, 0, 19);
    }
    let start = offsets[2];
    let mut j: usize = 0;
    while j < 19
        invariant
            j <= 19,
            o == old(offsets)@,
            offsets@ == o,
            start == o[2],
            o.len() == 3,
            forall|k: int| 0 <= k < 3 ==> o[k] < 15,
            pred == stop_pred(o, bias, bet),
            forall|i: int| 0 <= i < j ==> !#[trigger] pred(i),
            reel3_can_show(o, bet, None),
        decreases 19 - j,
    {
        let p = (start + j) % 15;
        let cur: [usize; 3] = [offsets[0], offsets[1], p];
        proof {
            assert(cur@ =~= o.update(2, p));
            assert(((o[2] + j) % 15) as usize == p);
        }
        let m = slot_reel3_match(cur, bet);
        let stop = match m {
            Some(s) => bias == Some(s),
            None => bias.is_none() || j >= 4,
        };
        if stop {
            proof {
                assert(pred(j as int));
                lemma_first_from(pred, 0, 19);
                assert(first_from(pred, 0, 19) == j) by {
                    if first_from(pred, 0, 19) < j {
                        assert(!pred(first_from(pred, 0, 19)));
                    }
                }
            }
            offsets[2] = p;
            proof {
                assert(offsets@ =~= o.update(2, p));
            }
            return;
        }
        j += 1;
    }
    proof {
        lemma_show_from(o, bet, None, o[2] as int);
        let k = choose|k: int| 0 <= k < 15 && #[trigger] match_at(o, bet, o[2] + k) == None::<SlotSymbol>;
        let jj = if k >= 4 { k } else { k + 15 };
        assert(match_at(o, bet, o[2] + jj) == match_at(o, bet, o[2] + k));
        assert(pred(jj));
    }
}

/// The target of the slow stop: a seven when the bias is seven, otherwise a miss.
pub open spec fn slow_target(bias: Option<SlotSymbol>) -> Option<SlotSymbol> {
    if bias == Some(SlotSymbol::Seven) {
        Some(SlotSymbol::Seven)
    } else {
        None
    }
}

pub open spec fn slow_pred(o: Seq<usize>, bias: Option<SlotSymbol>, bet: u8) -> spec_fn(int) -> bool {
    |j: int| match_at(o, bet, o[2] + j) == slow_target(bias)
}

/// The slow stop: the reel turns at least seventeen positions, then stops on its target.
#[verifier::rlimit(40)]
pub fn slot_apply_reel3_slow(offsets: &mut [usize; 3], bias: Option<SlotSymbol>, bet: u8) -> (count: u8)
    requires
        forall|k: int| 0 <= k < 3 ==> old(offsets)@[k] < 15,
        reel3_can_show(old(offsets)@, bet, slow_target(bias)),
    ensures
        count == first_from(slow_pred(old(offsets)@, bias, bet), 17, 15),
        17 <= count < 32,
        final(offsets)@ == old(offsets)@.update(2, ((old(offsets)@[2] + count) % 15) as usize),
{
    let ghost o = offsets@;
    let ghost pred = slow_pred(o, bias, bet);
    let target = if bias == Some(SlotSymbol::Seven) {
        Some(SlotSymbol::Seven)
    } else {
        None
    };
    let start = offsets[2];
    let mut j: usize = 17;
    proof {
        lemma_first_from(pred, 17, 15);
    }
    while j < 32
        invariant
            17 <= j <= 32,
            o == old(offsets)@,
            offsets@ == o,
            start == o[2],
            o.len() == 3,
            forall|k: int| 0 <= k < 3 ==> o[k] < 15,
            pred == slow_pred(o, bias, bet),
            target == slow_target(bias),
            forall|i: int| 17 <= i < j ==> !#[trigger] pred(i),
            reel3_can_show(o, bet, slow_target(bias)),
        decreases 32 - j,
    {
        let p = (start + j) % 15;
        let cur: [usize; 3] = [offsets[0], offsets[1], p];
        proof {
            assert(cur@ =~= o.update(2, p));
            assert(((o[2] + j) % 15) as usize == p);
        }
        if slot_reel3_match(cur, bet) == target {
            proof {
                assert(pred(j as int));
                lemma_first_from(pred, 17, 15);
                assert(first_from(pred, 17, 15) == j) by {
                    if first_from(pred, 17, 15) < j {
                        assert(!pred(first_from(pred, 17, 15)));
                    }
                }
            }
            offsets[2] = p;
            proof {
                assert(offsets@ =~= o.update(2, p));
            }
            return j as u8;
        }
        j += 1;
    }
    proof {
        lemma_show_from(o, bet, slow_target(bias), o[2] + 17);
        let k = choose|k: int| 0 <= k < 15 && #[trigger] match_at(o, bet, o[2] + 17 + k) == slow_target(bias);
        assert(pred(17 + k));
    }
    32
}

pub open spec fn seven_pred(o: Seq<usize>, bet: u8) -> spec_fn(int) -> bool {
    |j: int| match_at(o, bet, o[2] + j) == Some(SlotSymbol::Seven)
}

/// The Golem turns the reel one position at a time until it pays on sevens.
#[verifier::rlimit(40)]
pub fn slot_apply_reel3_golem_to_seven(offsets: &mut [usize; 3], bet: u8) -> (count: u8)
    requires
        forall|k: int| 0 <= k < 3 ==> old(offsets)@[k] < 15,
        reel3_can_show(old(offsets)@, bet, Some(SlotSymbol::Seven)),
    ensures
        count == first_from(seven_pred(old(offsets)@, bet), 1, 15),
        1 <= count < 16,
        final(offsets)@ == old(offsets)@.update(2, ((old(offsets)@[2] + count) % 15) as usize),
{
    let ghost o = offsets@;
    let ghost pred = seven_pred(o, bet);
    let start = offsets[2];
    let mut j: usize = 1;
    proof {
        lemma_first_from(pred, 1, 15);
    }
    while j < 16
        invariant
            1 <= j <= 16,
            o == old(offsets)@,
            offsets@ == o,
            start == o[2],
            o.len() == 3,
            forall|k: int| 0 <= k < 3 ==> o[k] < 15,
            pred == seven_pred(o, bet),
            forall|i: int| 1 <= i < j ==> !#[trigger] pred(i),
            reel3_can_show(o, bet, Some(SlotSymbol::Seven)),
        decreases 16 - j,
    {
        let p = (start + j) % 15;
        let cur: [usize; 3] = [offsets[0], offsets[1], p];
        proof {
            assert(cur@ =~= o.update(2, p));
            assert(((o[2] + j) % 15) as usize == p);
        }
        if slot_reel3_match(cur, bet) == Some(SlotSymbol::Seven) {
            proof {
                assert(pred(j as int));
                lemma_first_from(pred, 1, 15);
                assert(first_from(pred, 1, 15) == j) by {
                    if first_from(pred, 1, 15) < j {
                        assert(!pred(first_from(pred, 1, 15)));
                    }
                }
            }
            offsets[2] = p;
            proof {
                assert(offsets@ =~= o.update(2, p));
            }
            return j as u8;
        }
        j += 1;
    }
    proof {
        lemma_show_from(o, bet, Some(SlotSymbol::Seven), o[2] + 1);
        let k = choose|k: int| 0 <= k < 15 && #[trigger] match_at(o, bet, o[2] + 1 + k) == Some(SlotSymbol::Seven);
        assert(pred(1 + k));
    }
    16
}

pub open spec fn chansey_pred(o: Seq<usize>, bet: u8) -> spec_fn(int) -> bool {
    |j: int| match_at(o, bet, o[2] + 2 * j) == Some(SlotSymbol::Seven)
}

pub open spec fn chansey_pos(base: int, j: int) -> int {
    (base + 2 * j) % 15
}

/// Every position is two steps times some count from 1 to 15 away.
proof fn lemma_chansey_reach(base: int, p: int)
    requires
        base >= 0,
        0 <= p < 15,
    ensures
        exists|j: int| 1 <= j <= 15 && #[trigger] chansey_pos(base, j) == p,
{
    let r = (p - base % 15 + 15) % 15;
    let j = if r == 0 {
        15
    } else if r % 2 == 0 {
        r / 2
    } else {
        (r + 15) / 2
    };
    assert(chansey_pos(base, j) == p);
}

/// The Chansey drags the reel seventeen positions at a time until it pays on sevens.
#[verifier::rlimit(50)]
pub fn slot_apply_reel3_chansey(offsets: &mut [usize; 3], bet: u8) -> (count: u8)
    requires
        forall|k: int| 0 <= k < 3 ==> old(offsets)@[k] < 15,
        reel3_can_show(old(offsets)@, bet, Some(SlotSymbol::Seven)),
    ensures
        count == first_from(chansey_pred(old(offsets)@, bet), 1, 15),
        1 <= count < 16,
        final(offsets)@ == old(offsets)@.update(2, ((old(offsets)@[2] + 17 * count) % 15) as usize),
{
    let ghost o = offsets@;
    let ghost pred = chansey_pred(o, bet);
    let start = offsets[2];
    let mut j: usize = 1;
    proof {
        lemma_first_from(pred, 1, 15);
    }
    while j < 16
        invariant
            1 <= j <= 16,
            o == old(offsets)@,
            offsets@ == o,
            start == o[2],
            o.len() == 3,
            forall|k: int| 0 <= k < 3 ==> o[k] < 15,
            pred == chansey_pred(o, bet),
            forall|i: int| 1 <= i < j ==> !#[trigger] pred(i),
            reel3_can_show(o, bet, Some(SlotSymbol::Seven)),
        decreases 16 - j,
    {
        let p = (start + 17 * j) % 15;
        let cur: [usize; 3] = [offsets[0], offsets[1], p];
        proof {
            assert(cur@ =~= o.update(2, p));
            assert(start + 17 * j == (start + 2 * j) + 15 * j);
            vstd::arithmetic::div_mod::lemma_mod_multiples_vanish(j as int, (start + 2 * j) as int, 15);
            assert(((o[2] + 2 * j) % 15) as usize == p);
        }
        if slot_reel3_match(cur, bet) == Some(SlotSymbol::Seven) {
            proof {
                assert(pred(j as int));
                lemma_first_from(pred, 1, 15);
                assert(first_from(pred, 1, 15) == j) by {
                    if first_from(pred, 1, 15) < j {
                        assert(!pred(first_from(pred, 1, 15)));
                    }
                }
            }
            offsets[2] = p;
            proof {
                assert(offsets@ =~= o.update(2, p));
            }
            return j as u8;
        }
        j += 1;
    }
    proof {
        let p = choose|p: int| 0 <= p < 15 && #[trigger] reel3_match(o.update(2, p as usize), bet) == Some(
            SlotSymbol::Seven,
        );
        lemma_chansey_reach(o[2] as int, p);
        let jj = choose|jj: int| 1 <= jj <= 15 && #[trigger] chansey_pos(o[2] as int, jj) == p;
        assert(match_at(o, bet, o[2] + 2 * jj) == reel3_match(o.update(2, p as usize), bet));
        assert(pred(jj));
    }
    16
}

/// Where the Golem's simulated bump lands after `k` more steps from a stride of `stride`.
pub open spec fn golem_sim(start: int, stride: int, k: nat) -> int
    decreases k,
{
    if k == 0 {
        (start + stride) % 15
    } else {
        (golem_sim(start, stride, (k - 1) as nat) + stride + k) % 15
    }
}

pub open spec fn golem_pred(o: Seq<usize>, bet: u8, stride: u8) -> spec_fn(int) -> bool {
    |k: int| match_at(o, bet, golem_sim(o[2] as int, stride as int, k as nat)) is None
}

/// The Golem bumps the reel by growing strides from the drawn stride until a bump would land
/// on a position that pays on nothing; the reel then turns the total count of bumps and
/// stride from where it started.
#[verifier::rlimit(40)]
pub fn slot_apply_reel3_golem(offsets: &mut [usize; 3], bet: u8, stride: u8) -> (count: u8)
    requires
        forall|k: int| 0 <= k < 3 ==> old(offsets)@[k] < 15,
        4 <= stride <= 7,
        exists|k: int| 0 <= k < 30 && #[trigger] golem_pred(old(offsets)@, bet, stride)(k),
    ensures
        count == stride + first_from(golem_pred(old(offsets)@, bet, stride), 0, 30) + 1,
        count < 38,
        final(offsets)@ == old(offsets)@.update(2, ((old(offsets)@[2] + count) % 15) as usize),
{
    let ghost o = offsets@;
    let ghost pred = golem_pred(o, bet, stride);
    let initial = offsets[2];
    let mut sim: usize = initial;
    let mut count: u8 = stride;
    let mut k: usize = 0;
    proof {
        lemma_first_from(pred, 0, 30);
    }
    while k < 30
        invariant
            k <= 30,
            o == old(offsets)@,
            offsets@ == o,
            initial == o[2],
            o.len() == 3,
            forall|q: int| 0 <= q < 3 ==> o[q] < 15,
            4 <= stride <= 7,
            pred == golem_pred(o, bet, stride),
            count == stride + k,
            sim < 15,
            k == 0 ==> sim == initial,
            k > 0 ==> sim == golem_sim(o[2] as int, stride as int, (k - 1) as nat),
            forall|i: int| 0 <= i < k ==> !#[trigger] pred(i),
            exists|q: int| 0 <= q < 30 && #[trigger] pred(q),
        decreases 30 - k,
    {
        let step = count as usize;
        count = count + 1;
        sim = (sim + step) % 15;
        proof {
            if k == 0 {
                assert(sim == golem_sim(o[2] as int, stride as int, 0));
            } else {
                assert(sim == golem_sim(o[2] as int, stride as int, k as nat));
            }
        }
        let cur: [usize; 3] = [offsets[0], offsets[1], sim];
        proof {
            assert(cur@ =~= o.update(2, sim));
            assert(sim % 15 == sim);
        }
        if slot_reel3_match(cur, bet).is_none() {
            proof {
                assert(pred(k as int));
                lemma_first_from(pred, 0, 30);
                assert(first_from(pred, 0, 30) == k) by {
                    if first_from(pred, 0, 30) < k {
                        assert(!pred(first_from(pred, 0, 30)));
                    }
                }
            }
            let landed = (initial + count as usize) % 15;
            offsets[2] = landed;
            proof {
                assert(offsets@ =~= o.update(2, landed));
            }
            return count;
        }
        k += 1;
    }
    proof {
        let q = choose|q: int| 0 <= q < 30 && #[trigger] pred(q);
        assert(!pred(q));
    }
    count
}

/// Whether the first two reels line up, with a line of sevens among their matches.
pub open spec fn first_two_seven(o: Seq<usize>, bet: u8) -> bool {
    let r = first_two_match(
        seq![window(reel(0), o[0] as int), window(reel(1), o[1] as int)],
        bet,
        line_order(bet).len() as int,
    );
    r.0 is Some && r.1
}

/// How the drawn byte stops the third reel after the first two line up with sevens: with a
/// seven bias 71% plain, then slow, Golem and Chansey; otherwise 63% plain, then slow and Golem.
pub open spec fn third_reel_mode(bias: Option<SlotSymbol>, roll: u8) -> SlotStopMode {
    if bias == Some(SlotSymbol::Seven) {
        if roll >= 0xb4 {
            SlotStopMode::Normal
        } else if roll >= 0x78 {
            SlotStopMode::Slow
        } else if roll >= 0x3c {
            SlotStopMode::Golem
        } else {
            SlotStopMode::Chansey
        }
    } else {
        if roll >= 0xa0 {
            SlotStopMode::Normal
        } else if roll >= 0x50 {
            SlotStopMode::Slow
        } else {
            SlotStopMode::Golem
        }
    }
}

/// The offsets once the third reel has turned off every paying position.
pub open spec fn missed(o: Seq<usize>, bet: u8) -> Seq<usize> {
    o.update(2, until_no_match(o, bet, 15))
}

/// The third reel has somewhere to settle however it is stopped: some position pays on
/// nothing; a slow stop can reach its target; a Golem or Chansey on a seven bias can reach a
/// seven; and a Golem without one has a stride from 4 to 7 whose bumps land on a miss within
/// thirty.
pub open spec fn reel3_settles(o: Seq<usize>, bias: Option<SlotSymbol>, bet: u8, roll: u8, stride: u8) -> bool {
    &&& reel3_can_show(o, bet, None)
    &&& first_two_seven(o, bet) ==> match third_reel_mode(bias, roll) {
        SlotStopMode::Slow => reel3_can_show(o, bet, slow_target(bias)),
        SlotStopMode::Golem => if bias == Some(SlotSymbol::Seven) {
            reel3_can_show(o, bet, Some(SlotSymbol::Seven))
        } else {
            4 <= stride <= 7 && exists|k: int| 0 <= k < 30 && #[trigger] golem_pred(missed(o, bet), bet, stride)(k)
        },
        SlotStopMode::Chansey => reel3_can_show(o, bet, Some(SlotSymbol::Seven)),
        _ => true,
    }
}

/// Where the third reel stops and how.
pub open spec fn reel3_stop_result(o: Seq<usize>, bias: Option<SlotSymbol>, bet: u8, roll: u8, stride: u8) -> (
    Seq<usize>,
    SlotStopResolution,
) {
    let plain = (
        o.update(2, ((o[2] + first_from(stop_pred(o, bias, bet), 0, 19)) % 15) as usize),
        SlotStopResolution { mode: SlotStopMode::Normal, animation_start_offset: o[2], animation_count: 0 },
    );
    if !first_two_seven(o, bet) {
        plain
    } else {
        let m = missed(o, bet);
        match third_reel_mode(bias, roll) {
            SlotStopMode::Slow => {
                let count = first_from(slow_pred(m, bias, bet), 17, 15);
                (
                    m.update(2, ((m[2] + count) % 15) as usize),
                    SlotStopResolution { mode: SlotStopMode::Slow, animation_start_offset: m[2], animation_count: count as u8 },
                )
            },
            SlotStopMode::Golem => {
                let count = if bias == Some(SlotSymbol::Seven) {
                    first_from(seven_pred(m, bet), 1, 15)
                } else {
                    stride + first_from(golem_pred(m, bet, stride), 0, 30) + 1
                };
                (
                    m.update(2, ((m[2] + count) % 15) as usize),
                    SlotStopResolution { mode: SlotStopMode::Golem, animation_start_offset: m[2], animation_count: count as u8 },
                )
            },
            SlotStopMode::Chansey => {
                let count = first_from(chansey_pred(m, bet), 1, 15);
                (
                    m.update(2, ((m[2] + 17 * count) % 15) as usize),
                    SlotStopResolution {
                        mode: SlotStopMode::Chansey,
                        animation_start_offset: m[2],
                        animation_count: count as u8,
                    },
                )
            },
            _ => plain,
        }
    }
}

proof fn lemma_until_no_match_on_reel(o: Seq<usize>, bet: u8, steps: nat)
    requires
        o.len() == 3,
        o[2] < 15,
    ensures
        until_no_match(o, bet, steps) < 15,
    decreases steps,
{
    if steps > 0 && reel3_match(o, bet) is Some {
        lemma_until_no_match_on_reel(o.update(2, ((o[2] + 1) % 15) as usize), bet, (steps - 1) as nat);
    }
}

proof fn lemma_show_any_third(o: Seq<usize>, m: Seq<usize>, bet: u8, target: Option<SlotSymbol>)
    requires
        reel3_can_show(o, bet, target),
        o.len() == 3,
        m.len() == 3,
        m[0] == o[0],
        m[1] == o[1],
    ensures
        reel3_can_show(m, bet, target),
{
    let p = choose|p: int| 0 <= p < 15 && #[trigger] reel3_match(o.update(2, p as usize), bet) == target;
    assert(m.update(2, p as usize) =~= o.update(2, p as usize));
    assert(reel3_match(m.update(2, p as usize), bet) == target);
}

/// Stops the third reel, given the byte drawn to choose how and the Golem's drawn stride.
#[verifier::rlimit(40)]
pub fn slot_stop_reel3(offsets: &mut [usize; 3], bias: Option<SlotSymbol>, bet: u8, roll: u8, stride: u8) -> (r:
    SlotStopResolution)
    requires
        forall|k: int| 0 <= k < 3 ==> old(offsets)@[k] < 15,
        reel3_settles(old(offsets)@, bias, bet, roll, stride),
    ensures
        (final(offsets)@, r) == reel3_stop_result(old(offsets)@, bias, bet, roll, stride),
        forall|k: int| 0 <= k < 3 ==> final(offsets)@[k] < 15,
{
    let ghost o = offsets@;
    let r0 = slot_reel(0);
    let r1 = slot_reel(1);
    let w0 = slot_window(&r0, offsets[0]);
    let w1 = slot_window(&r1, offsets[1]);
    let pair = [w0, w1];
    let (matched, saw_seven) = slot_check_first_two(&pair, bet);
    proof {
        assert(seq![pair@[0]@, pair@[1]@] =~= seq![window(reel(0), o[0] as int), window(reel(1), o[1] as int)]);
    }
    let mode = if matched.is_none() || !saw_seven {
        SlotStopMode::Normal
    } else if bias == Some(SlotSymbol::Seven) {
        if roll >= 0xb4 {
            SlotStopMode::Normal
        } else if roll >= 0x78 {
            SlotStopMode::Slow
        } else if roll >= 0x3c {
            SlotStopMode::Golem
        } else {
            SlotStopMode::Chansey
        }
    } else if roll >= 0xa0 {
        SlotStopMode::Normal
    } else if roll >= 0x50 {
        SlotStopMode::Slow
    } else {
        SlotStopMode::Golem
    };
    proof {
        if mode != SlotStopMode::Normal {
            assert(first_two_seven(o, bet));
            assert(mode == third_reel_mode(bias, roll));
        } else {
            assert(!first_two_seven(o, bet) || third_reel_mode(bias, roll) == SlotStopMode::Normal);
        }
    }
    if mode == SlotStopMode::Normal {
        let animation_start_offset = offsets[2];
        slot_apply_reel3_stop(offsets, bias, bet);
        proof {
            lemma_first_from(stop_pred(o, bias, bet), 0, 19);
        }
        return SlotStopResolution { mode: SlotStopMode::Normal, animation_start_offset, animation_count: 0 };
    }
    proof {
        lemma_show_from(o, bet, None, o[2] as int);
        let k = choose|k: int| 0 <= k < 15 && #[trigger] match_at(o, bet, o[2] + k) == None::<SlotSymbol>;
        assert(reel3_match(o.update(2, ((o[2] + k) % 15) as usize), bet) is None);
        assert(third_reel_can_miss(o, bet));
    }
    slot_advance_reel3_until_no_match(offsets, bet);
    let ghost m = offsets@;
    proof {
        assert(m == missed(o, bet));
        lemma_until_no_match_on_reel(o, bet, 15);
        assert(m.len() == 3 && m[0] == o[0] && m[1] == o[1] && m[2] < 15);
    }
    let animation_start_offset = offsets[2];
    if mode == SlotStopMode::Slow {
        proof {
            lemma_show_any_third(o, m, bet, slow_target(bias));
        }
        let count = slot_apply_reel3_slow(offsets, bias, bet);
        return SlotStopResolution { mode: SlotStopMode::Slow, animation_start_offset, animation_count: count };
    }
    if mode == SlotStopMode::Chansey {
        proof {
            lemma_show_any_third(o, m, bet, Some(SlotSymbol::Seven));
        }
        let count = slot_apply_reel3_chansey(offsets, bet);
        return SlotStopResolution { mode: SlotStopMode::Chansey, animation_start_offset, animation_count: count };
    }
    if bias == Some(SlotSymbol::Seven) {
        proof {
            lemma_show_any_third(o, m, bet, Some(SlotSymbol::Seven));
        }
        let count = slot_apply_reel3_golem_to_seven(offsets, bet);
        return SlotStopResolution { mode: SlotStopMode::Golem, animation_start_offset, animation_count: count };
    }
    let count = slot_apply_reel3_golem(offsets, bet, stride);
    SlotStopResolution { mode: SlotStopMode::Golem, animation_start_offset, animation_count: count }
}

} // verus!
