//! Reading the decimal numbers that script values and saved records hold: exact tokens of
//! ASCII digits, with a leading `-` only where a signed value is read.
use vstd::prelude::*;
use crate::ordered::TextMap;
use crate::special_routines::errors::SpecialRoutineError;
use crate::text::{
    all_digits, char_views, copy_text, decimal_digits, decimal_value, is_digit, lemma_decimal_value_grows, split_chars,
    split_text, text_chars, text_from_chars, zero_padded, zero_padded_decimal,
};

verus! {

/// One or more ASCII digits.
pub open spec fn unsigned_token(s: Seq<char>) -> bool {
    s.len() > 0 && all_digits(s)
}

/// One or more ASCII digits, after an optional leading `-`.
pub open spec fn signed_token(s: Seq<char>) -> bool {
    if s.len() > 0 && s[0] == '-' {
        unsigned_token(s.drop_first())
    } else {
        unsigned_token(s)
    }
}

/// The value of an unsigned token, when it is at most `max`.
pub open spec fn bounded_value(s: Seq<char>, max: int) -> Option<int> {
    if unsigned_token(s) && decimal_value(s) <= max {
        Some(decimal_value(s))
    } else {
        None
    }
}

/// The value of a signed token, when it fits an `i64`.
pub open spec fn signed_value(s: Seq<char>) -> Option<int> {
    if s.len() > 0 && s[0] == '-' {
        match bounded_value(s.drop_first(), 0x8000_0000_0000_0000) {
            Some(m) => Some(-m),
            None => None,
        }
    } else {
        bounded_value(s, 0x7fff_ffff_ffff_ffff)
    }
}

/// The error a numeric read gives: the routine, and the value it reports.
pub open spec fn numeric_error(e: SpecialRoutineError, routine: Seq<char>, value: Seq<char>) -> bool {
    e matches SpecialRoutineError::InvalidNumericValue { routine: r, value: v } && r@ == routine && v@ == value
}

fn chars_are_unsigned_token(chars: &Vec<char>, start: usize) -> (b: bool)
    requires
        start <= chars@.len(),
    ensures
        b == unsigned_token(chars@.skip(start as int)),
{
    let ghost d = chars@.skip(start as int);
    if start >= chars.len() {
        return false;
    }
    let mut i: usize = start;
    while i < chars.len()
        invariant
            start <= i <= chars@.len(),
            d == chars@.skip(start as int),
            forall|k: int| 0 <= k < i - start ==> is_digit(#[trigger] d[k]),
        decreases chars.len() - i,
    {
        let c = chars[i];
        if !('0' <= c && c <= '9') {
            proof {
                assert(d[i - start] == c);
            }
            return false;
        }
        i += 1;
    }
    true
}

/// Whether `token` is one or more ASCII digits.
pub fn is_exact_unsigned_decimal_token(token: &str) -> (b: bool)
    ensures
        b == unsigned_token(token@),
{
    let chars = text_chars(token);
    proof {
        assert(chars@.skip(0) =~= chars@);
    }
    chars_are_unsigned_token(&chars, 0)
}

/// Whether `token` is one or more ASCII digits after an optional `-`.
pub fn is_exact_signed_decimal_token(token: &str) -> (b: bool)
    ensures
        b == signed_token(token@),
{
    let chars = text_chars(token);
    if chars.len() > 0 && chars[0] == '-' {
        proof {
            assert(chars@.skip(1) =~= token@.drop_first());
        }
        chars_are_unsigned_token(&chars, 1)
    } else {
        proof {
            assert(chars@.skip(0) =~= chars@);
        }
        chars_are_unsigned_token(&chars, 0)
    }
}

/// The value of the digits from `start` on, when they are an unsigned token of at most `max`.
pub(crate) fn read_bounded(chars: &Vec<char>, start: usize, max: u64) -> (r: Option<u64>)
    requires
        start <= chars@.len(),
    ensures
        match r {
            Some(v) => bounded_value(chars@.skip(start as int), max as int) == Some(v as int),
            None => bounded_value(chars@.skip(start as int), max as int) is None,
        },
{
    let ghost d = chars@.skip(start as int);
    if start >= chars.len() {
        return None;
    }
    let mut value: u128 = 0;
    let mut i: usize = start;
    while i < chars.len()
        invariant
            start <= i <= chars@.len(),
            start < chars@.len(),
            d == chars@.skip(start as int),
            forall|k: int| 0 <= k < i - start ==> is_digit(#[trigger] d[k]),
            value == decimal_value(d.take(i - start)),
            value <= max,
        decreases chars.len() - i,
    {
        let c = chars[i];
        if !('0' <= c && c <= '9') {
            proof {
                assert(d[i - start] == c);
                assert(!all_digits(d));
            }
            return None;
        }
        proof {
            assert(d.take(i - start + 1).drop_last() =~= d.take(i - start));
            assert(d.take(i - start + 1).last() == c);
        }
        let digit: u128 = ((c as u32) - ('0' as u32)) as u128;
        value = value * 10 + digit;
        if value > max as u128 {
            proof {
                assert forall|k: int| 0 <= k < i - start + 1 implies is_digit(#[trigger] d[k]) by {
                    if k == i - start {
                        assert(d[k] == c);
                    }
                }
                assert(decimal_value(d.take(i - start + 1)) == value);
                if all_digits(d) {
                    lemma_decimal_value_grows(d, i - start + 1);
                }
            }
            return None;
        }
        i += 1;
    }
    proof {
        assert(d.take(d.len() as int) =~= d);
        assert(all_digits(d));
    }
    Some(value as u64)
}

/// The error of a numeric value a routine cannot read.
pub fn invalid_numeric_value(routine: &str, value: &str) -> (e: SpecialRoutineError)
    ensures
        numeric_error(e, routine@, value@),
{
    SpecialRoutineError::InvalidNumericValue { routine: copy_text(routine), value: copy_text(value) }
}

/// Reads `token` as a `usize`; the error reports `error_value`.
pub fn parse_exact_usize_token(routine: &str, token: &str, error_value: &str) -> (r: Result<usize, SpecialRoutineError>)
    ensures
        match r {
            Ok(v) => bounded_value(token@, usize::MAX as int) == Some(v as int),
            Err(e) => bounded_value(token@, usize::MAX as int) is None && numeric_error(e, routine@, error_value@),
        },
{
    let chars = text_chars(token);
    proof {
        assert(chars@.skip(0) =~= token@);
    }
    match read_bounded(&chars, 0, usize::MAX as u64) {
        Some(v) => Ok(v as usize),
        None => Err(invalid_numeric_value(routine, error_value)),
    }
}

/// Reads `token` as a `u8`; the error reports `error_value`.
pub fn parse_exact_u8_token(routine: &str, token: &str, error_value: &str) -> (r: Result<u8, SpecialRoutineError>)
    ensures
        match r {
            Ok(v) => bounded_value(token@, 255) == Some(v as int),
            Err(e) => bounded_value(token@, 255) is None && numeric_error(e, routine@, error_value@),
        },
{
    let chars = text_chars(token);
    proof {
        assert(chars@.skip(0) =~= token@);
    }
    match read_bounded(&chars, 0, 255) {
        Some(v) => Ok(v as u8),
        None => Err(invalid_numeric_value(routine, error_value)),
    }
}

/// Reads `token` as a `u16`; the error reports `error_value`.
pub fn parse_exact_u16_token(routine: &str, token: &str, error_value: &str) -> (r: Result<u16, SpecialRoutineError>)
    ensures
        match r {
            Ok(v) => bounded_value(token@, 65535) == Some(v as int),
            Err(e) => bounded_value(token@, 65535) is None && numeric_error(e, routine@, error_value@),
        },
{
    let chars = text_chars(token);
    proof {
        assert(chars@.skip(0) =~= token@);
    }
    match read_bounded(&chars, 0, 65535) {
        Some(v) => Ok(v as u16),
        None => Err(invalid_numeric_value(routine, error_value)),
    }
}

/// Reads `token` as an `i64`, with an optional leading `-`; the error reports `error_value`.
pub fn parse_exact_i64_token(routine: &str, token: &str, error_value: &str) -> (r: Result<i64, SpecialRoutineError>)
    ensures
        match r {
            Ok(v) => signed_value(token@) == Some(v as int),
            Err(e) => signed_value(token@) is None && numeric_error(e, routine@, error_value@),
        },
{
    let chars = text_chars(token);
    if chars.len() > 0 && chars[0] == '-' {
        proof {
            assert(chars@.skip(1) =~= token@.drop_first());
        }
        match read_bounded(&chars, 1, 0x8000_0000_0000_0000) {
            Some(m) => {
                if m == 0x8000_0000_0000_0000 {
                    Ok(i64::MIN)
                } else {
                    Ok(-(m as i64))
                }
            },
            None => Err(invalid_numeric_value(routine, error_value)),
        }
    } else {
        proof {
            assert(chars@.skip(0) =~= token@);
        }
        match read_bounded(&chars, 0, 0x7fff_ffff_ffff_ffff) {
            Some(v) => Ok(v as i64),
            None => Err(invalid_numeric_value(routine, error_value)),
        }
    }
}

/// Reads `raw` as a `u8`; the error reports `raw`.
pub fn parse_u8_token(routine: &str, raw: &str) -> (r: Result<u8, SpecialRoutineError>)
    ensures
        match r {
            Ok(v) => bounded_value(raw@, 255) == Some(v as int),
            Err(e) => bounded_value(raw@, 255) is None && numeric_error(e, routine@, raw@),
        },
{
    parse_exact_u8_token(routine, raw, raw)
}

/// Reads comma-separated party indexes; the error reports the whole of `raw`.
pub fn parse_selected_party_indexes(routine: &str, raw: &str) -> (r: Result<Vec<usize>, SpecialRoutineError>)
    ensures
        match r {
            Ok(v) => v@.len() == split_text(raw@, ',').len() && forall|i: int|
                0 <= i < v@.len() ==> bounded_value(#[trigger] split_text(raw@, ',')[i], usize::MAX as int) == Some(
                    v@[i] as int,
                ),
            Err(e) => (exists|i: int|
                0 <= i < split_text(raw@, ',').len() && bounded_value(
                    #[trigger] split_text(raw@, ',')[i],
                    usize::MAX as int,
                ) is None) && numeric_error(e, routine@, raw@),
        },
{
    let chars = text_chars(raw);
    let parts = split_chars(&chars, ',');
    let ghost pv = split_text(raw@, ',');
    let mut values: Vec<usize> = Vec::new();
    let mut i: usize = 0;
    while i < parts.len()
        invariant
            char_views(parts@) == pv,
            pv == split_text(raw@, ','),
            i <= parts@.len(),
            values@.len() == i,
            forall|k: int| 0 <= k < i ==> bounded_value(#[trigger] pv[k], usize::MAX as int) == Some(values@[k] as int),
        decreases parts.len() - i,
    {
        proof {
            assert(parts@[i as int]@.skip(0) =~= pv[i as int]);
        }
        match read_bounded(&parts[i], 0, usize::MAX as u64) {
            Some(v) => {
                values.push(v as usize);
            },
            None => {
                return Err(invalid_numeric_value(routine, raw));
            },
        }
        i += 1;
    }
    Ok(values)
}

/// Reads the three comma-separated bytes of a mobile battle timer; a piece that is not a
/// byte is reported by itself.
pub fn parse_mobile_battle_timer(routine: &str, raw: &str) -> (r: Result<[u8; 3], SpecialRoutineError>)
    ensures
        split_text(raw@, ',').len() != 3 ==> (r matches Err(SpecialRoutineError::InvalidMobileBattleTimer {
            routine: rr,
            value: v,
        }) && rr@ == routine@ && v@ == raw@),
        split_text(raw@, ',').len() == 3 ==> match r {
            Ok(t) => forall|i: int| 0 <= i < 3 ==> bounded_value(#[trigger] split_text(raw@, ',')[i], 255) == Some(t@[i] as int),
            Err(e) => exists|i: int|
                0 <= i < 3 && bounded_value(#[trigger] split_text(raw@, ',')[i], 255) is None && numeric_error(
                    e,
                    routine@,
                    split_text(raw@, ',')[i],
                ) && forall|k: int| 0 <= k < i ==> bounded_value(#[trigger] split_text(raw@, ',')[k], 255) is Some,
        },
{
    let chars = text_chars(raw);
    let parts = split_chars(&chars, ',');
    let ghost pv = split_text(raw@, ',');
    if parts.len() != 3 {
        return Err(SpecialRoutineError::InvalidMobileBattleTimer { routine: copy_text(routine), value: copy_text(raw) });
    }
    let mut timer: [u8; 3] = [0u8; 3];
    let mut i: usize = 0;
    while i < 3
        invariant
            char_views(parts@) == pv,
            pv == split_text(raw@, ','),
            parts@.len() == 3,
            i <= 3,
            forall|k: int| 0 <= k < i ==> bounded_value(#[trigger] pv[k], 255) == Some(timer@[k] as int),
        decreases 3 - i,
    {
        proof {
            assert(parts@[i as int]@.skip(0) =~= pv[i as int]);
        }
        match read_bounded(&parts[i], 0, 255) {
            Some(v) => {
                timer[i] = v as u8;
            },
            None => {
                let piece = text_from_chars(&parts[i]);
                return Err(invalid_numeric_value(routine, piece.as_str()));
            },
        }
        i += 1;
    }
    Ok(timer)
}

/// Money as the game prints it: at least six digits, zero-padded.
pub fn format_money(value: u32) -> (s: String)
    ensures
        s@ == zero_padded(decimal_digits(value as nat), 6),
{
    zero_padded_decimal(value as u64, 6)
}

/// Coins as the game prints them: at least four digits, zero-padded.
pub fn format_coins(value: u16) -> (s: String)
    ensures
        s@ == zero_padded(decimal_digits(value as nat), 4),
{
    zero_padded_decimal(value as u64, 4)
}


// ---- script variables ----

/// The text of a script variable a routine needs; a missing variable is an error naming it.
pub fn required_string_script_variable<'a>(variables: &'a TextMap<String>, routine: &str, variable: &str) -> (r: Result<
    &'a String,
    SpecialRoutineError,
>)
    ensures
        variables.view().contains_key(variable@) ==> r == Ok::<&String, SpecialRoutineError>(&variables.view()[variable@]),
        !variables.view().contains_key(variable@) ==> (r matches Err(SpecialRoutineError::MissingScriptValue {
            routine: rr,
            variable: v,
        }) && rr@ == routine@ && v@ == variable@),
{
    match variables.get(variable) {
        Some(v) => Ok(v),
        None => Err(SpecialRoutineError::MissingScriptValue { routine: copy_text(routine), variable: copy_text(variable) }),
    }
}

/// A script variable a routine needs, read as a `usize`; an unreadable value is an error
/// that reports it.
pub fn required_usize_script_variable(variables: &TextMap<String>, routine: &str, variable: &str) -> (r: Result<
    usize,
    SpecialRoutineError,
>)
    ensures
        !variables.view().contains_key(variable@) ==> (r matches Err(SpecialRoutineError::MissingScriptValue {
            routine: rr,
            variable: v,
        }) && rr@ == routine@ && v@ == variable@),
        variables.view().contains_key(variable@) ==> {
            let text = variables.view()[variable@]@;
            match r {
                Ok(n) => bounded_value(text, usize::MAX as int) == Some(n as int),
                Err(e) => bounded_value(text, usize::MAX as int) is None && numeric_error(e, routine@, text),
            }
        },
{
    match required_string_script_variable(variables, routine, variable) {
        Ok(raw) => parse_exact_usize_token(routine, raw.as_str(), raw.as_str()),
        Err(e) => Err(e),
    }
}

} // verus!
