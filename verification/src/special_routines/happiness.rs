//! The pack's happiness changes and the services that apply them.
use vstd::prelude::*;
use crate::ordered::{ByteMap, TextMap, TextSet};
use crate::special_routines::checks::concat_issues;
use crate::special_routines::tokens::is_exact_nonempty_special_token;
use crate::special_routines::errors::SpecialRoutineError;
use crate::text::{copy_text, decimal_digits, is_blank, is_blank_text, is_exact_token, message_with_number, text_chars, text_from_chars};

verus! {

/// How much one kind of event changes happiness, at low, middle and high happiness.
#[derive(Debug, PartialEq, Eq)]
pub struct HappinessChangeEntry {
    pub code: String,
    pub low: i16,
    pub mid: i16,
    pub high: i16,
}

/// One outcome of a happiness service (a haircut, a grooming): its roll weight, the value the
/// script reads, and the change it applies.
#[derive(Clone, Copy, Debug, PartialEq, Eq, Structural)]
pub struct HappinessServiceOutcome {
    pub roll_weight: u8,
    pub script_value: u8,
    pub change_code: u8,
}

/// Happiness changes by change byte, and the outcomes of each service routine.
#[derive(Debug, PartialEq, Eq)]
pub struct HappinessData {
    pub changes: ByteMap<HappinessChangeEntry>,
    pub services: TextMap<Vec<HappinessServiceOutcome>>,
}

/// A problem with the happiness data.
#[derive(Debug, PartialEq, Eq)]
pub enum HappinessDataIssue {
    EmptyChanges,
    EmptyChangeCode { change_code: u8 },
    InvalidChangeCode { code: String, change_code: u8 },
    DuplicateChangeCode { code: String, change_code: u8 },
    EmptyServices,
    EmptyServiceRoutine { routine: String },
    InvalidServiceRoutine { routine: String },
    EmptyServiceOutcomes { routine: String },
    UnknownServiceChange { routine: String, change_code: u8 },
}

pub enum HappinessDataIssueView {
    EmptyChanges,
    EmptyChangeCode { change_code: u8 },
    InvalidChangeCode { code: Seq<char>, change_code: u8 },
    DuplicateChangeCode { code: Seq<char>, change_code: u8 },
    EmptyServices,
    EmptyServiceRoutine { routine: Seq<char> },
    InvalidServiceRoutine { routine: Seq<char> },
    EmptyServiceOutcomes { routine: Seq<char> },
    UnknownServiceChange { routine: Seq<char>, change_code: u8 },
}

impl View for HappinessDataIssue {
    type V = HappinessDataIssueView;

    open spec fn view(&self) -> HappinessDataIssueView {
        match self {
            HappinessDataIssue::EmptyChanges => HappinessDataIssueView::EmptyChanges,
            HappinessDataIssue::EmptyChangeCode { change_code } => HappinessDataIssueView::EmptyChangeCode {
                change_code: *change_code,
            },
            HappinessDataIssue::InvalidChangeCode { code, change_code } => HappinessDataIssueView::InvalidChangeCode {
                code: code@,
                change_code: *change_code,
            },
            HappinessDataIssue::DuplicateChangeCode { code, change_code } => {
                HappinessDataIssueView::DuplicateChangeCode { code: code@, change_code: *change_code }
            },
            HappinessDataIssue::EmptyServices => HappinessDataIssueView::EmptyServices,
            HappinessDataIssue::EmptyServiceRoutine { routine } => HappinessDataIssueView::EmptyServiceRoutine {
                routine: routine@,
            },
            HappinessDataIssue::InvalidServiceRoutine { routine } => HappinessDataIssueView::InvalidServiceRoutine {
                routine: routine@,
            },
            HappinessDataIssue::EmptyServiceOutcomes { routine } => HappinessDataIssueView::EmptyServiceOutcomes {
                routine: routine@,
            },
            HappinessDataIssue::UnknownServiceChange { routine, change_code } => {
                HappinessDataIssueView::UnknownServiceChange { routine: routine@, change_code: *change_code }
            },
        }
    }
}

pub open spec fn happiness_issue_views(v: Seq<HappinessDataIssue>) -> Seq<HappinessDataIssueView> {
    v.map_values(|i: HappinessDataIssue| i@)
}

/// Some change below byte `k` has the code `code`.
pub open spec fn code_used_before(slots: Seq<Option<HappinessChangeEntry>>, k: int, code: Seq<char>) -> bool {
    exists|j: int| 0 <= j < k && #[trigger] slots[j] is Some && slots[j]->0.code@ == code
}

/// The issues of the change at byte `k`, if any: a blank or malformed code, or a code an
/// earlier change already uses.
pub open spec fn change_issues(slots: Seq<Option<HappinessChangeEntry>>, k: int) -> Seq<HappinessDataIssueView> {
    match slots[k] {
        Some(e) => {
            let a: Seq<HappinessDataIssueView> = if is_blank(e.code@) {
                seq![HappinessDataIssueView::EmptyChangeCode { change_code: k as u8 }]
            } else if !is_exact_token(e.code@) {
                seq![HappinessDataIssueView::InvalidChangeCode { code: e.code@, change_code: k as u8 }]
            } else {
                seq![]
            };
            let b: Seq<HappinessDataIssueView> = if code_used_before(slots, k, e.code@) {
                seq![HappinessDataIssueView::DuplicateChangeCode { code: e.code@, change_code: k as u8 }]
            } else {
                seq![]
            };
            a + b
        },
        None => seq![],
    }
}

pub open spec fn change_checks(slots: Seq<Option<HappinessChangeEntry>>) -> spec_fn(int) -> Seq<HappinessDataIssueView> {
    |k: int| change_issues(slots, k)
}

pub open spec fn outcome_checks(routine: Seq<char>, outcomes: Seq<HappinessServiceOutcome>, changes: Set<u8>) -> spec_fn(
    int,
) -> Seq<HappinessDataIssueView> {
    |j: int|
        if changes.contains(outcomes[j].change_code) {
            seq![]
        } else {
            seq![HappinessDataIssueView::UnknownServiceChange { routine, change_code: outcomes[j].change_code }]
        }
}

/// The issues of one service: a blank or malformed routine, no outcomes, and outcomes whose
/// change the data does not define.
pub open spec fn service_issues(routine: Seq<char>, outcomes: Seq<HappinessServiceOutcome>, changes: Set<u8>) -> Seq<
    HappinessDataIssueView,
> {
    let a: Seq<HappinessDataIssueView> = if is_blank(routine) {
        seq![HappinessDataIssueView::EmptyServiceRoutine { routine }]
    } else if !is_exact_token(routine) {
        seq![HappinessDataIssueView::InvalidServiceRoutine { routine }]
    } else {
        seq![]
    };
    let b: Seq<HappinessDataIssueView> = if outcomes.len() == 0 {
        seq![HappinessDataIssueView::EmptyServiceOutcomes { routine }]
    } else {
        seq![]
    };
    a + b + concat_issues(outcome_checks(routine, outcomes, changes), outcomes.len() as int)
}

pub open spec fn service_checks(data: HappinessData) -> spec_fn(int) -> Seq<HappinessDataIssueView> {
    |i: int| service_issues(data.services.key_seq()[i], data.services.value_seq()[i]@, data.changes.view().dom())
}

/// Every issue of the happiness data, in the order the checks run.
pub open spec fn happiness_issue_list(data: HappinessData) -> Seq<HappinessDataIssueView> {
    let a: Seq<HappinessDataIssueView> = if data.changes.view().dom() == Set::<u8>::empty() {
        seq![HappinessDataIssueView::EmptyChanges]
    } else {
        seq![]
    };
    let b: Seq<HappinessDataIssueView> = if data.services.key_seq().len() == 0 {
        seq![HappinessDataIssueView::EmptyServices]
    } else {
        seq![]
    };
    a + concat_issues(change_checks(data.changes.slots()), 256) + b + concat_issues(
        service_checks(data),
        data.services.key_seq().len() as int,
    )
}

fn change_code_issues(data: &HappinessData) -> (issues: Vec<HappinessDataIssue>)
    ensures
        happiness_issue_views(issues@) == concat_issues(change_checks(data.changes.slots()), 256),
{
    let mut issues: Vec<HappinessDataIssue> = Vec::new();
    let ghost slots = data.changes.slots();
    let ghost f = change_checks(slots);
    let mut seen = TextSet::new();
    let mut k: usize = 0;
    while k < 256
        invariant
            k <= 256,
            slots == data.changes.slots(),
            f == change_checks(slots),
            happiness_issue_views(issues@) == concat_issues(f, k as int),
            forall|x: Seq<char>| #[trigger] seen.view().contains(x) <==> code_used_before(slots, k as int, x),
        decreases 256 - k,
    {
        let ghost before = happiness_issue_views(issues@);
        let ghost old_seen = seen.view();
        match data.changes.get(k as u8) {
            Some(entry) => {
                let code = k as u8;
                if is_blank_text(entry.code.as_str()) {
                    issues.push(HappinessDataIssue::EmptyChangeCode { change_code: code });
                } else if !is_exact_nonempty_special_token(entry.code.as_str()) {
                    issues.push(HappinessDataIssue::InvalidChangeCode { code: copy_text(entry.code.as_str()), change_code: code });
                }
                let fresh = seen.insert(copy_text(entry.code.as_str()));
                if !fresh {
                    issues.push(HappinessDataIssue::DuplicateChangeCode { code: copy_text(entry.code.as_str()), change_code: code });
                }
                proof {
                    assert(slots[k as int] == Some(*entry));
                    assert forall|x: Seq<char>| #[trigger] seen.view().contains(x) <==> code_used_before(
                        slots,
                        k + 1,
                        x,
                    ) by {
                        if code_used_before(slots, k + 1, x) {
                            let j = choose|j: int| 0 <= j < k + 1 && #[trigger] slots[j] is Some && slots[j]->0.code@ == x;
                            if j < k {
                                assert(code_used_before(slots, k as int, x));
                            }
                        }
                        if old_seen.contains(x) {
                            let j = choose|j: int| 0 <= j < k && #[trigger] slots[j] is Some && slots[j]->0.code@ == x;
                            assert(slots[j] is Some && slots[j]->0.code@ == x);
                        }
                        if x == entry.code@ {
                            assert(slots[k as int] is Some && slots[k as int]->0.code@ == x);
                        }
                    }
                }
            },
            None => {
                proof {
                    assert forall|x: Seq<char>| #[trigger] seen.view().contains(x) <==> code_used_before(
                        slots,
                        k + 1,
                        x,
                    ) by {
                        if code_used_before(slots, k + 1, x) {
                            let j = choose|j: int| 0 <= j < k + 1 && #[trigger] slots[j] is Some && slots[j]->0.code@ == x;
                            assert(j < k);
                            assert(code_used_before(slots, k as int, x));
                        }
                        if old_seen.contains(x) {
                            let j = choose|j: int| 0 <= j < k && #[trigger] slots[j] is Some && slots[j]->0.code@ == x;
                            assert(slots[j] is Some && slots[j]->0.code@ == x);
                        }
                    }
                }
            },
        }
        proof {
            assert(happiness_issue_views(issues@) =~= concat_issues(f, k as int) + f(k as int));
        }
        k += 1;
    }
    issues
}

fn service_issue_list(routine: &String, outcomes: &Vec<HappinessServiceOutcome>, changes: &ByteMap<HappinessChangeEntry>) -> (issues: Vec<
    HappinessDataIssue,
>)
    ensures
        happiness_issue_views(issues@) == service_issues(routine@, outcomes@, changes.view().dom()),
{
    let mut issues: Vec<HappinessDataIssue> = Vec::new();
    if is_blank_text(routine.as_str()) {
        issues.push(HappinessDataIssue::EmptyServiceRoutine { routine: copy_text(routine.as_str()) });
    } else if !is_exact_nonempty_special_token(routine.as_str()) {
        issues.push(HappinessDataIssue::InvalidServiceRoutine { routine: copy_text(routine.as_str()) });
    }
    if outcomes.len() == 0 {
        issues.push(HappinessDataIssue::EmptyServiceOutcomes { routine: copy_text(routine.as_str()) });
    }
    let ghost head = happiness_issue_views(issues@);
    let ghost f = outcome_checks(routine@, outcomes@, changes.view().dom());
    let mut j: usize = 0;
    while j < outcomes.len()
        invariant
            j <= outcomes@.len(),
            f == outcome_checks(routine@, outcomes@, changes.view().dom()),
            happiness_issue_views(issues@) == head + concat_issues(f, j as int),
        decreases outcomes.len() - j,
    {
        let ghost before = happiness_issue_views(issues@);
        let code = outcomes[j].change_code;
        if !changes.contains_key(code) {
            issues.push(HappinessDataIssue::UnknownServiceChange { routine: copy_text(routine.as_str()), change_code: code });
        }
        proof {
            assert(happiness_issue_views(issues@) =~= before + f(j as int));
            assert(head + concat_issues(f, j + 1) =~= head + concat_issues(f, j as int) + f(j as int));
        }
        j += 1;
    }
    proof {
        assert(happiness_issue_views(issues@) =~= service_issues(routine@, outcomes@, changes.view().dom()));
    }
    issues
}

/// Every problem with the happiness data: no changes, blank, malformed or repeated change
/// codes, no services, blank or malformed service routines, services without outcomes, and
/// outcomes naming a change the data does not define.
pub fn happiness_data_issues(data: &HappinessData) -> (issues: Vec<HappinessDataIssue>)
    ensures
        happiness_issue_views(issues@) == happiness_issue_list(*data),
{
    let mut issues: Vec<HappinessDataIssue> = Vec::new();
    if data.changes.is_empty() {
        issues.push(HappinessDataIssue::EmptyChanges);
    }
    let ghost a = issues@;
    let mut changes_part = change_code_issues(data);
    let ghost c = changes_part@;
    issues.append(&mut changes_part);
    let mut services_head: Vec<HappinessDataIssue> = Vec::new();
    if data.services.is_empty() {
        services_head.push(HappinessDataIssue::EmptyServices);
    }
    let ghost b = services_head@;
    issues.append(&mut services_head);
    let ghost upto = issues@;
    let ghost f = service_checks(*data);
    let n = data.services.len();
    let mut i: usize = 0;
    while i < n
        invariant
            n == data.services.key_seq().len(),
            n == data.services.value_seq().len(),
            f == service_checks(*data),
            i <= n,
            happiness_issue_views(issues@) == happiness_issue_views(upto) + concat_issues(f, i as int),
        decreases n - i,
    {
        let ghost before = issues@;
        let mut part = service_issue_list(data.services.key_at(i), data.services.value_at(i), &data.changes);
        let ghost p = part@;
        issues.append(&mut part);
        proof {
            assert(issues@ == before + p);
            assert(happiness_issue_views(issues@) =~= happiness_issue_views(before) + happiness_issue_views(p));
            assert(happiness_issue_views(upto) + concat_issues(f, i + 1) =~= happiness_issue_views(upto) + concat_issues(
                f,
                i as int,
            ) + f(i as int));
        }
        i += 1;
    }
    proof {
        assert(upto == a + c + b);
        assert(happiness_issue_views(upto) =~= happiness_issue_views(a) + happiness_issue_views(c) + happiness_issue_views(b));
        assert(happiness_issue_views(issues@) =~= happiness_issue_list(*data));
    }
    issues
}


// ---- applying the data ----

fn invalid_happiness_data(routine: &str, message: String) -> (e: SpecialRoutineError)
    ensures
        e matches SpecialRoutineError::InvalidHappinessData { routine: r, message: m } && r@ == routine@ && m@
            == message@,
{
    SpecialRoutineError::InvalidHappinessData { routine: copy_text(routine), message }
}

/// The change a happiness event makes: the low column below 100 happiness, the middle one
/// below 200, and the high one from 200.
pub open spec fn change_for(entry: HappinessChangeEntry, happiness: u8) -> i16 {
    if happiness < 100 {
        entry.low
    } else if happiness < 200 {
        entry.mid
    } else {
        entry.high
    }
}

/// The change that the event `change_code` makes at `happiness`; an undefined code is refused.
pub fn happiness_delta(happiness_data: &HappinessData, change_code: u8, happiness: u8, routine: &str) -> (r: Result<
    i16,
    SpecialRoutineError,
>)
    ensures
        match r {
            Ok(d) => happiness_data.changes.view().contains_key(change_code) && d == change_for(
                happiness_data.changes.view()[change_code],
                happiness,
            ),
            Err(e) => !happiness_data.changes.view().contains_key(change_code) && (e matches SpecialRoutineError::InvalidHappinessData {
                routine: rr,
                message: m,
            } && rr@ == routine@ && m@ == "missing change code "@ + decimal_digits(change_code as nat)),
        },
{
    match happiness_data.changes.get(change_code) {
        Some(entry) => {
            if happiness < 100 {
                Ok(entry.low)
            } else if happiness < 200 {
                Ok(entry.mid)
            } else {
                Ok(entry.high)
            }
        },
        None => {
            let message = message_with_number("missing change code ", change_code as u64, "");
            proof {
                assert(""@ =~= Seq::<char>::empty()) by {
                    reveal_strlit("");
                }
                assert(message@ =~= "missing change code "@ + decimal_digits(change_code as nat));
            }
            Err(invalid_happiness_data(routine, message))
        },
    }
}

/// A routine that applies happiness changes needs the data, with changes and services.
pub fn require_happiness_data<'a>(happiness_data: Option<&'a HappinessData>, routine: &str) -> (r: Result<
    &'a HappinessData,
    SpecialRoutineError,
>)
    ensures
        match happiness_data {
            None => r matches Err(SpecialRoutineError::MissingHappinessData { routine: rr }) && rr@ == routine@,
            Some(d) => match r {
                Ok(x) => x == d && d.changes.view().dom() != Set::<u8>::empty() && d.services.key_seq().len() != 0,
                Err(e) => (e matches SpecialRoutineError::InvalidHappinessData { routine: rr, message: m } && rr@
                    == routine@ && if d.changes.view().dom() == Set::<u8>::empty() {
                    m@ == "changes must not be empty"@
                } else {
                    d.services.key_seq().len() == 0 && m@ == "services must not be empty"@
                }),
            },
        },
{
    let data = match happiness_data {
        Some(d) => d,
        None => {
            return Err(SpecialRoutineError::MissingHappinessData { routine: copy_text(routine) });
        },
    };
    if data.changes.is_empty() {
        return Err(invalid_happiness_data(routine, copy_text("changes must not be empty")));
    }
    if data.services.is_empty() {
        return Err(invalid_happiness_data(routine, copy_text("services must not be empty")));
    }
    Ok(data)
}

/// The outcomes of the service `routine`; a missing or empty table is refused.
pub fn happiness_service_outcomes<'a>(happiness_data: &'a HappinessData, routine: &str) -> (r: Result<
    &'a [HappinessServiceOutcome],
    SpecialRoutineError,
>)
    ensures
        match r {
            Ok(t) => happiness_data.services.view().contains_key(routine@) && t@ == happiness_data.services.view()[routine@]@
                && t@.len() > 0,
            Err(e) => e matches SpecialRoutineError::InvalidHappinessData { routine: rr, message: m } && rr@ == routine@
                && if !happiness_data.services.view().contains_key(routine@) {
                m@ == "missing service table for "@ + routine@
            } else {
                happiness_data.services.view()[routine@]@.len() == 0 && m@ == "service table "@ + routine@
                    + " has no outcomes"@
            },
        },
{
    let table = match happiness_data.services.get(routine) {
        Some(t) => t,
        None => {
            let mut v = text_chars("missing service table for ");
            let mut r = text_chars(routine);
            v.append(&mut r);
            return Err(invalid_happiness_data(routine, text_from_chars(&v)));
        },
    };
    if table.len() == 0 {
        let mut v = text_chars("service table ");
        let mut r = text_chars(routine);
        let mut tail = text_chars(" has no outcomes");
        v.append(&mut r);
        v.append(&mut tail);
        return Err(invalid_happiness_data(routine, text_from_chars(&v)));
    }
    Ok(table.as_slice())
}

/// `a - b` wrapping around 256.
pub open spec fn wrapping_sub_u8(a: u8, b: u8) -> u8 {
    (if a >= b { a - b } else { a - b + 256 }) as u8
}

/// The outcome a roll picks: walking the outcomes in order, the first whose weight exceeds
/// what is left of the roll, the weights taken off as it goes (wrapping); the last outcome if
/// none does.
pub open spec fn picked_outcome(outcomes: Seq<HappinessServiceOutcome>, remaining: u8, i: int) -> HappinessServiceOutcome
    decreases outcomes.len() - i,
{
    if i >= outcomes.len() - 1 {
        outcomes.last()
    } else if remaining < outcomes[i].roll_weight {
        outcomes[i]
    } else {
        picked_outcome(outcomes, wrapping_sub_u8(remaining, outcomes[i].roll_weight), i + 1)
    }
}

/// Picks a service outcome with a random byte.
pub fn select_happiness_service_outcome(outcomes: &[HappinessServiceOutcome], roll: u8) -> (o: HappinessServiceOutcome)
    requires
        outcomes@.len() > 0,
    ensures
        o == picked_outcome(outcomes@, roll, 0),
{
    let mut remaining = roll;
    let mut i: usize = 0;
    while i < outcomes.len() - 1
        invariant
            outcomes@.len() > 0,
            i < outcomes@.len(),
            picked_outcome(outcomes@, roll, 0) == picked_outcome(outcomes@, remaining, i as int),
        decreases outcomes.len() - i,
    {
        let outcome = outcomes[i];
        if remaining < outcome.roll_weight {
            return outcome;
        }
        remaining = if remaining >= outcome.roll_weight {
            remaining - outcome.roll_weight
        } else {
            ((remaining as u16 + 256) - outcome.roll_weight as u16) as u8
        };
        i += 1;
    }
    outcomes[outcomes.len() - 1]
}

/// `value` changed by `delta`, kept within 0..=255.
pub open spec fn clamped_happiness(value: u8, delta: i16) -> u8 {
    let v = value + delta;
    (if v < 0 { 0 } else if v > 255 { 255 } else { v }) as u8
}

/// Applies a signed change to a happiness value, staying within 0..=255.
pub fn apply_signed_happiness_delta(value: u8, delta: i16) -> (r: u8)
    ensures
        r == clamped_happiness(value, delta),
{
    let v: i32 = value as i32 + delta as i32;
    if v < 0 {
        0
    } else if v > 255 {
        255
    } else {
        v as u8
    }
}
} // verus!
