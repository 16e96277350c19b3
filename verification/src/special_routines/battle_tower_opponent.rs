//! Choosing the Battle Tower's next opponent: the compiled tables it draws from must hold the
//! game's 70 trainers and 21 Pokemon per level group, each Pokemon record whole; a trainer
//! not yet met in this challenge is drawn, then the team, avoiding repeated species or held
//! items and the species met recently. The draws are the successive values of the random
//! source's adding register, given as arguments.
use vstd::prelude::*;
use crate::ordered::TextSet;
use crate::special_routines::battle_tower::{
    decode_battle_tower_status, status_problem, BattleTowerMonDefinition, BattleTowerRules, StatusProblem,
};
use crate::special_routines::checks::{first_error, lemma_first_error_none, lemma_first_error_stays};
use crate::special_routines::errors::SpecialRoutineError;
use crate::text::{copy_text, decimal_chars, decimal_digits, text_chars, text_eq, text_from_chars};

verus! {

/// The number of Battle Tower trainers.
pub const UNIQUE_TRAINERS: usize = 70;

/// The number of Pokemon in each Battle Tower level group.
pub const UNIQUE_MONS: usize = 21;

/// A problem with the compiled tables, as plain values.
pub enum OpponentTableError {
    Build { trainer_id: Seq<char>, error: Seq<char> },
    Rules { message: Seq<char> },
}

/// The level group the challenge draws from.
pub open spec fn group_index(rules: BattleTowerRules, level_group: u8) -> nat {
    if level_group > rules.minimum_level_group {
        (level_group - rules.minimum_level_group) as nat
    } else {
        0
    }
}

pub open spec fn group_id(g: nat) -> Seq<char> {
    "group_"@ + decimal_digits(g)
}

pub open spec fn hex_digit(d: nat) -> char {
    if d < 10 {
        (('0' as u8) + d) as char
    } else {
        (('a' as u8) + (d - 10)) as char
    }
}

/// A byte as `0x` and two lowercase hex digits.
pub open spec fn hex_byte(b: u8) -> Seq<char> {
    seq!['0', 'x', hex_digit((b / 16) as nat), hex_digit((b % 16) as nat)]
}

pub open spec fn status_problem_text(p: StatusProblem) -> Seq<char> {
    match p {
        StatusProblem::WrongLength { len } => "must contain exactly two ASM record bytes, found "@ + decimal_digits(
            len as nat,
        ),
        StatusProblem::NonzeroPadding { byte } => "has nonzero reserved padding byte "@ + hex_byte(byte),
        StatusProblem::InvalidBits { raw } => "contains invalid status bit combination "@ + hex_byte(raw),
    }
}

pub open spec fn field_error(g: nat, mon: int, field: Seq<char>, actual: nat, expected: nat) -> Option<
    OpponentTableError,
> {
    if actual == expected {
        None
    } else {
        Some(
            OpponentTableError::Build {
                trainer_id: group_id(g),
                error: "compiled Pokemon entry "@ + decimal_digits(mon as nat) + " field "@ + field
                    + " must contain exactly "@ + decimal_digits(expected) + " ASM record values, found "@
                    + decimal_digits(actual),
            },
        )
    }
}

pub open spec fn or_next(a: Option<OpponentTableError>, b: Option<OpponentTableError>) -> Option<OpponentTableError> {
    if a is Some {
        a
    } else {
        b
    }
}

/// The first problem of one Pokemon record: a record of the wrong length, in the order moves,
/// stat experience, DVs, PP, Pokerus, status and stats; a DV above a nibble; a bad status.
pub open spec fn mon_table_error(g: nat, mon: int, m: BattleTowerMonDefinition) -> Option<OpponentTableError> {
    or_next(
        field_error(g, mon, "moves"@, m.moves@.len(), 4),
        or_next(
            field_error(g, mon, "statExp"@, m.stat_exp@.len(), 5),
            or_next(
                field_error(g, mon, "dvs"@, m.dvs@.len(), 4),
                or_next(
                    field_error(g, mon, "pp"@, m.pp@.len(), 4),
                    or_next(
                        field_error(g, mon, "pokerus"@, m.pokerus@.len(), 3),
                        or_next(
                            field_error(g, mon, "status"@, m.status@.len(), 2),
                            or_next(
                                field_error(g, mon, "stats"@, m.stats@.len(), 7),
                                or_next(
                                    if exists|i: int| 0 <= i < m.dvs@.len() && #[trigger] m.dvs@[i] > 0x0f {
                                        Some(
                                            OpponentTableError::Build {
                                                trainer_id: group_id(g),
                                                error: "compiled Pokemon entry "@ + decimal_digits(mon as nat)
                                                    + " has a DV outside nibble range"@,
                                            },
                                        )
                                    } else {
                                        None
                                    },
                                    match status_problem(m.status@) {
                                        Some(p) => Some(
                                            OpponentTableError::Build {
                                                trainer_id: group_id(g),
                                                error: "compiled Pokemon entry "@ + decimal_digits(mon as nat)
                                                    + " status "@ + status_problem_text(p),
                                            },
                                        ),
                                        None => None,
                                    },
                                ),
                            ),
                        ),
                    ),
                ),
            ),
        ),
    )
}

pub open spec fn mon_table_checks(g: nat, group: Seq<BattleTowerMonDefinition>) -> spec_fn(int) -> Option<
    OpponentTableError,
> {
    |i: int| mon_table_error(g, i, group[i])
}

/// The first problem of the tables the opponent is drawn from: the challenge's level group is
/// missing, the roster does not hold exactly 70 trainers, the group does not hold exactly 21
/// Pokemon, or one of its records is broken.
pub open spec fn opponent_table_error(rules: BattleTowerRules, level_group: u8) -> Option<OpponentTableError> {
    let g = group_index(rules, level_group);
    if g >= rules.mon_groups@.len() {
        Some(OpponentTableError::Build { trainer_id: group_id(g), error: "compiled Battle Tower level group is missing"@ })
    } else if rules.trainers@.len() != UNIQUE_TRAINERS {
        Some(
            OpponentTableError::Rules {
                message: "compiled Battle Tower trainer roster must contain exactly 70 entries, found "@
                    + decimal_digits(rules.trainers@.len()),
            },
        )
    } else if rules.mon_groups@[g as int]@.len() != UNIQUE_MONS {
        Some(
            OpponentTableError::Build {
                trainer_id: group_id(g),
                error: "compiled Battle Tower group must contain exactly 21 Pokemon, found "@ + decimal_digits(
                    rules.mon_groups@[g as int]@.len(),
                ),
            },
        )
    } else {
        let group = rules.mon_groups@[g as int]@;
        first_error(mon_table_checks(g, group), group.len() as int)
    }
}

/// The problem an error stands for, naming `routine`.
pub open spec fn table_error_of(e: SpecialRoutineError, routine: Seq<char>) -> Option<OpponentTableError> {
    match e {
        SpecialRoutineError::BattleTowerTrainerBuild { routine: r, trainer_id, error } => if r@ == routine {
            Some(OpponentTableError::Build { trainer_id: trainer_id@, error: error@ })
        } else {
            None
        },
        SpecialRoutineError::InvalidBattleTowerRules { routine: r, message } => if r@ == routine {
            Some(OpponentTableError::Rules { message: message@ })
        } else {
            None
        },
        _ => None,
    }
}

fn hex_char(d: u8) -> (c: char)
    requires
        d < 16,
    ensures
        c == hex_digit(d as nat),
{
    if d < 10 {
        (('0' as u8) + d) as char
    } else {
        (('a' as u8) + (d - 10)) as char
    }
}

fn push_all(v: &mut Vec<char>, s: &str)
    ensures
        final(v)@ == old(v)@ + s@,
{
    let mut t = text_chars(s);
    v.append(&mut t);
}

fn push_number(v: &mut Vec<char>, n: u64)
    ensures
        final(v)@ == old(v)@ + decimal_digits(n as nat),
{
    let mut t = decimal_chars(n);
    v.append(&mut t);
}

fn push_hex(v: &mut Vec<char>, b: u8)
    ensures
        final(v)@ == old(v)@ + hex_byte(b),
{
    let ghost before = v@;
    v.push('0');
    v.push('x');
    v.push(hex_char(b / 16));
    v.push(hex_char(b % 16));
    proof {
        assert(v@ =~= before + hex_byte(b));
    }
}

fn build_error(routine: &str, g: usize, error: Vec<char>) -> (r: SpecialRoutineError)
    ensures
        table_error_of(r, routine@) == Some(OpponentTableError::Build { trainer_id: group_id(g as nat), error: error@ }),
{
    let mut id = text_chars("group_");
    push_number(&mut id, g as u64);
    SpecialRoutineError::BattleTowerTrainerBuild {
        routine: copy_text(routine),
        trainer_id: text_from_chars(&id),
        error: text_from_chars(&error),
    }
}

fn check_field(routine: &str, g: usize, mon: usize, field: &str, actual: usize, expected: usize) -> (r: Result<
    (),
    SpecialRoutineError,
>)
    ensures
        match r {
            Ok(()) => field_error(g as nat, mon as int, field@, actual as nat, expected as nat) is None,
            Err(e) => field_error(g as nat, mon as int, field@, actual as nat, expected as nat) is Some && table_error_of(
                e,
                routine@,
            ) == field_error(g as nat, mon as int, field@, actual as nat, expected as nat),
        },
{
    if actual == expected {
        return Ok(());
    }
    let mut v = text_chars("compiled Pokemon entry ");
    push_number(&mut v, mon as u64);
    push_all(&mut v, " field ");
    push_all(&mut v, field);
    push_all(&mut v, " must contain exactly ");
    push_number(&mut v, expected as u64);
    push_all(&mut v, " ASM record values, found ");
    push_number(&mut v, actual as u64);
    Err(build_error(routine, g, v))
}

fn dvs_in_nibble(dvs: &Vec<u8>) -> (b: bool)
    ensures
        b == !(exists|i: int| 0 <= i < dvs@.len() && #[trigger] dvs@[i] > 0x0f),
{
    let mut i: usize = 0;
    while i < dvs.len()
        invariant
            i <= dvs@.len(),
            forall|j: int| 0 <= j < i ==> dvs@[j] <= 0x0f,
        decreases dvs.len() - i,
    {
        if dvs[i] > 0x0f {
            return false;
        }
        i += 1;
    }
    true
}

fn check_mon(routine: &str, g: usize, mon: usize, m: &BattleTowerMonDefinition) -> (r: Result<(), SpecialRoutineError>)
    ensures
        match r {
            Ok(()) => mon_table_error(g as nat, mon as int, *m) is None,
            Err(e) => mon_table_error(g as nat, mon as int, *m) is Some && table_error_of(e, routine@) == mon_table_error(
                g as nat,
                mon as int,
                *m,
            ),
        },
{
    check_field(routine, g, mon, "moves", m.moves.len(), 4)?;
    check_field(routine, g, mon, "statExp", m.stat_exp.len(), 5)?;
    check_field(routine, g, mon, "dvs", m.dvs.len(), 4)?;
    check_field(routine, g, mon, "pp", m.pp.len(), 4)?;
    check_field(routine, g, mon, "pokerus", m.pokerus.len(), 3)?;
    check_field(routine, g, mon, "status", m.status.len(), 2)?;
    check_field(routine, g, mon, "stats", m.stats.len(), 7)?;
    if !dvs_in_nibble(&m.dvs) {
        let mut v = text_chars("compiled Pokemon entry ");
        push_number(&mut v, mon as u64);
        push_all(&mut v, " has a DV outside nibble range");
        proof {
            assert(v@ =~= "compiled Pokemon entry "@ + decimal_digits(mon as nat) + " has a DV outside nibble range"@);
        }
        return Err(build_error(routine, g, v));
    }
    match decode_battle_tower_status(m.status.as_slice()) {
        Ok(_) => Ok(()),
        Err(p) => {
            let mut v = text_chars("compiled Pokemon entry ");
            push_number(&mut v, mon as u64);
            push_all(&mut v, " status ");
            match p {
                StatusProblem::WrongLength { len } => {
                    push_all(&mut v, "must contain exactly two ASM record bytes, found ");
                    push_number(&mut v, len as u64);
                },
                StatusProblem::NonzeroPadding { byte } => {
                    push_all(&mut v, "has nonzero reserved padding byte ");
                    push_hex(&mut v, byte);
                },
                StatusProblem::InvalidBits { raw } => {
                    push_all(&mut v, "contains invalid status bit combination ");
                    push_hex(&mut v, raw);
                },
            }
            proof {
                assert(v@ =~= "compiled Pokemon entry "@ + decimal_digits(mon as nat) + " status "@ + status_problem_text(p));
            }
            Err(build_error(routine, g, v))
        },
    }
}

/// Checks the tables the next opponent is drawn from.
pub fn check_battle_tower_opponent_tables(rules: &BattleTowerRules, level_group: u8, routine: &str) -> (r: Result<
    (),
    SpecialRoutineError,
>)
    ensures
        match r {
            Ok(()) => opponent_table_error(*rules, level_group) is None,
            Err(e) => opponent_table_error(*rules, level_group) is Some && table_error_of(e, routine@)
                == opponent_table_error(*rules, level_group),
        },
{
    let g: usize = if level_group > rules.minimum_level_group {
        (level_group - rules.minimum_level_group) as usize
    } else {
        0
    };
    if g >= rules.mon_groups.len() {
        return Err(build_error(routine, g, text_chars("compiled Battle Tower level group is missing")));
    }
    if rules.trainers.len() != UNIQUE_TRAINERS {
        let mut v = text_chars("compiled Battle Tower trainer roster must contain exactly 70 entries, found ");
        push_number(&mut v, rules.trainers.len() as u64);
        return Err(SpecialRoutineError::InvalidBattleTowerRules { routine: copy_text(routine), message: text_from_chars(&v) });
    }
    let group = &rules.mon_groups[g];
    if group.len() != UNIQUE_MONS {
        let mut v = text_chars("compiled Battle Tower group must contain exactly 21 Pokemon, found ");
        push_number(&mut v, group.len() as u64);
        return Err(build_error(routine, g, v));
    }
    let ghost f = mon_table_checks(g as nat, group@);
    let mut i: usize = 0;
    while i < group.len()
        invariant
            i <= group@.len(),
            group@ == rules.mon_groups@[g as int]@,
            g as nat == group_index(*rules, level_group),
            g < rules.mon_groups@.len(),
            rules.trainers@.len() == UNIQUE_TRAINERS,
            group@.len() == UNIQUE_MONS,
            f == mon_table_checks(g as nat, group@),
            first_error(f, i as int) is None,
        decreases group.len() - i,
    {
        match check_mon(routine, g, i, &group[i]) {
            Ok(()) => {},
            Err(e) => {
                proof {
                    assert(first_error(f, i + 1) == f(i as int));
                    lemma_first_error_stays(f, i + 1, group@.len() as int);
                }
                return Err(e);
            },
        }
        i += 1;
    }
    Ok(())
}

/// The trainer drawn from the register values `adds`, starting from `acc`: each draw adds the
/// register to the running sum; a sum whose low seven bits name no trainer is kept and
/// retried, a trainer already met restarts from its index, and the first new trainer is the
/// pick, with the number of draws it took. None when the draws run out first.
pub open spec fn trainer_pick(history: Seq<u8>, acc: u8, adds: Seq<u8>, i: int) -> Option<(u8, int)>
    decreases adds.len() - i,
{
    if i < 0 || i >= adds.len() {
        None
    } else {
        let sum = ((adds[i] + acc) % 256) as u8;
        let candidate = sum % 128;
        if candidate >= UNIQUE_TRAINERS {
            trainer_pick(history, sum, adds, i + 1)
        } else if history.contains(candidate) {
            trainer_pick(history, candidate, adds, i + 1)
        } else {
            Some((candidate, i + 1))
        }
    }
}

/// Draws the next trainer of the challenge from the adding register's successive values.
pub fn pick_battle_tower_trainer(history: &Vec<u8>, start_add: u8, adds: &Vec<u8>) -> (r: Option<(u8, usize)>)
    ensures
        match r {
            Some((t, used)) => trainer_pick(history@, start_add, adds@, 0) == Some((t, used as int)),
            None => trainer_pick(history@, start_add, adds@, 0) is None,
        },
{
    let mut acc: u8 = start_add;
    let mut i: usize = 0;
    while i < adds.len()
        invariant
            i <= adds@.len(),
            trainer_pick(history@, start_add, adds@, 0) == trainer_pick(history@, acc, adds@, i as int),
        decreases adds.len() - i,
    {
        let sum = adds[i].wrapping_add(acc);
        let candidate = sum & 0x7f;
        proof {
            assert(sum & 0x7f == sum % 128) by (bit_vector);
            assert(sum == ((adds@[i as int] + acc) % 256) as u8);
        }
        if (candidate as usize) >= UNIQUE_TRAINERS {
            acc = sum;
        } else {
            let mut seen = false;
            let mut j: usize = 0;
            while j < history.len()
                invariant
                    j <= history@.len(),
                    seen <==> exists|k: int| 0 <= k < j && history@[k] == candidate,
                decreases history.len() - j,
            {
                if history[j] == candidate {
                    seen = true;
                }
                j += 1;
            }
            proof {
                assert(seen <==> history@.contains(candidate));
            }
            if !seen {
                return Some((candidate, i + 1));
            }
            acc = candidate;
        }
        i += 1;
    }
    None
}

pub open spec fn item_view(o: Option<String>) -> Option<Seq<char>> {
    match o {
        Some(s) => Some(s@),
        None => None,
    }
}

/// A candidate is turned down when the team already has its species or its held item (two
/// Pokemon holding nothing count as the same item), or when its species was met recently.
pub open spec fn mon_rejected(group: Seq<BattleTowerMonDefinition>, selected: Seq<usize>, recent: Set<Seq<char>>, c: int) -> bool {
    ||| exists|k: int|
        0 <= k < selected.len() && (group[#[trigger] selected[k] as int].species@ == group[c].species@ || item_view(
            group[selected[k] as int].item,
        ) == item_view(group[c].item))
    ||| recent.contains(group[c].species@)
}

/// One team member drawn from the register values `adds` from index `i`, the running sum
/// starting at `acc`: a sum whose low five bits name no Pokemon of the group is kept and
/// retried; a turned-down candidate restarts from the register's value; the first accepted
/// candidate is the pick, with the index of the next draw.
pub open spec fn mon_pick_one(
    group: Seq<BattleTowerMonDefinition>,
    selected: Seq<usize>,
    recent: Set<Seq<char>>,
    acc: u8,
    adds: Seq<u8>,
    i: int,
) -> Option<(int, int)>
    decreases adds.len() - i,
{
    if i < 0 || i >= adds.len() {
        None
    } else {
        let sum = ((adds[i] + acc) % 256) as u8;
        let c = (sum % 32) as int;
        if c >= UNIQUE_MONS {
            mon_pick_one(group, selected, recent, sum, adds, i + 1)
        } else if mon_rejected(group, selected, recent, c) {
            mon_pick_one(group, selected, recent, adds[i], adds, i + 1)
        } else {
            Some((c, i + 1))
        }
    }
}

/// The first `n` team members drawn in turn, each starting from the register's current value,
/// with the index of the next draw.
pub open spec fn mon_picks(
    group: Seq<BattleTowerMonDefinition>,
    recent: Set<Seq<char>>,
    start_add: u8,
    adds: Seq<u8>,
    n: nat,
) -> Option<(Seq<usize>, int)>
    decreases n,
{
    if n == 0 {
        Some((seq![], 0))
    } else {
        match mon_picks(group, recent, start_add, adds, (n - 1) as nat) {
            None => None,
            Some((selected, i)) => {
                let acc = if i == 0 { start_add } else { adds[i - 1] };
                match mon_pick_one(group, selected, recent, acc, adds, i) {
                    None => None,
                    Some((c, j)) => Some((selected.push(c as usize), j)),
                }
            },
        }
    }
}

fn rejected_exec(group: &Vec<BattleTowerMonDefinition>, selected: &Vec<usize>, recent: &TextSet, c: usize) -> (b: bool)
    requires
        c < group@.len(),
        forall|k: int| 0 <= k < selected@.len() ==> #[trigger] selected@[k] < group@.len(),
    ensures
        b == mon_rejected(group@, selected@, recent.view(), c as int),
{
    let candidate = &group[c];
    let mut k: usize = 0;
    while k < selected.len()
        invariant
            k <= selected@.len(),
            c < group@.len(),
            candidate == group@[c as int],
            forall|q: int| 0 <= q < selected@.len() ==> #[trigger] selected@[q] < group@.len(),
            forall|q: int|
                0 <= q < k ==> !(group@[#[trigger] selected@[q] as int].species@ == candidate.species@ || item_view(
                    group@[selected@[q] as int].item,
                ) == item_view(candidate.item)),
        decreases selected.len() - k,
    {
        let chosen = &group[selected[k]];
        let same_item = match (&chosen.item, &candidate.item) {
            (Some(a), Some(b)) => text_eq(a.as_str(), b.as_str()),
            (None, None) => true,
            _ => false,
        };
        if text_eq(chosen.species.as_str(), candidate.species.as_str()) || same_item {
            proof {
                assert(group@[selected@[k as int] as int].species@ == candidate.species@ || item_view(
                    group@[selected@[k as int] as int].item,
                ) == item_view(candidate.item));
            }
            return true;
        }
        k += 1;
    }
    recent.contains(candidate.species.as_str())
}

/// Draws the opponent's team of `required` Pokemon from the register's successive values.
pub fn pick_battle_tower_mons(
    group: &Vec<BattleTowerMonDefinition>,
    required: usize,
    recent_species: &TextSet,
    start_add: u8,
    adds: &Vec<u8>,
) -> (r: Option<(Vec<usize>, usize)>)
    requires
        group@.len() == UNIQUE_MONS,
    ensures
        match r {
            Some((picked, used)) => mon_picks(group@, recent_species.view(), start_add, adds@, required as nat) == Some(
                (picked@, used as int),
            ),
            None => mon_picks(group@, recent_species.view(), start_add, adds@, required as nat) is None,
        },
{
    let mut selected: Vec<usize> = Vec::new();
    let mut i: usize = 0;
    proof {
        lemma_picks_none_stays(group@, recent_species.view(), start_add, adds@, 0, required as nat);
    }
    while selected.len() < required
        invariant
            group@.len() == UNIQUE_MONS,
            selected@.len() <= required,
            i <= adds@.len(),
            forall|k: int| 0 <= k < selected@.len() ==> #[trigger] selected@[k] < UNIQUE_MONS,
            mon_picks(group@, recent_species.view(), start_add, adds@, selected@.len() as nat) == Some(
                (selected@, i as int),
            ),
        decreases adds.len() - i + required - selected.len(),
    {
        let ghost n = selected@.len();
        let mut acc: u8 = if i == 0 {
            start_add
        } else {
            adds[i - 1]
        };
        let ghost acc0 = acc;
        let ghost i0 = i as int;
        let mut pick: Option<usize> = None;
        while i < adds.len()
            invariant_except_break
                pick is None,
                mon_pick_one(group@, selected@, recent_species.view(), acc0, adds@, i0) == mon_pick_one(
                    group@,
                    selected@,
                    recent_species.view(),
                    acc,
                    adds@,
                    i as int,
                ),
            invariant
                group@.len() == UNIQUE_MONS,
                i0 <= i <= adds@.len(),
                forall|k: int| 0 <= k < selected@.len() ==> #[trigger] selected@[k] < UNIQUE_MONS,
            ensures
                pick is None ==> mon_pick_one(group@, selected@, recent_species.view(), acc0, adds@, i0) is None,
                pick matches Some(c) ==> c < UNIQUE_MONS && mon_pick_one(group@, selected@, recent_species.view(), acc0, adds@, i0)
                    == Some((c as int, i as int)),
            decreases adds.len() - i,
        {
            let sum = adds[i].wrapping_add(acc);
            let c = sum & 0x1f;
            proof {
                assert(sum & 0x1f == sum % 32) by (bit_vector);
                assert(sum == ((adds@[i as int] + acc) % 256) as u8);
            }
            if (c as usize) >= UNIQUE_MONS {
                acc = sum;
                i += 1;
            } else if rejected_exec(group, &selected, recent_species, c as usize) {
                acc = adds[i];
                i += 1;
            } else {
                i += 1;
                pick = Some(c as usize);
                break;
            }
        }
        match pick {
            None => {
                proof {
                    assert(mon_pick_one(group@, selected@, recent_species.view(), acc0, adds@, i0) is None);
                    assert(mon_picks(group@, recent_species.view(), start_add, adds@, (n + 1) as nat) is None);
                    lemma_picks_none_stays(group@, recent_species.view(), start_add, adds@, (n + 1) as nat, required as nat);
                }
                return None;
            },
            Some(c) => {
                selected.push(c);
                proof {
                    assert(mon_picks(group@, recent_species.view(), start_add, adds@, (n + 1) as nat) == Some(
                        (selected@, i as int),
                    ));
                }
            },
        }
    }
    Some((selected, i))
}

proof fn lemma_picks_none_stays(
    group: Seq<BattleTowerMonDefinition>,
    recent: Set<Seq<char>>,
    start_add: u8,
    adds: Seq<u8>,
    n: nat,
    m: nat,
)
    ensures
        n <= m && mon_picks(group, recent, start_add, adds, n) is None ==> mon_picks(group, recent, start_add, adds, m) is None,
    decreases m,
{
    if n < m {
        lemma_picks_none_stays(group, recent, start_add, adds, n, (m - 1) as nat);
    }
}

} // verus!
