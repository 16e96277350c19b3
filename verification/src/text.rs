//! Character classes and the exact-token rules that every pack identifier obeys.
use vstd::prelude::*;

verus! {

/// ASCII letters and digits.
pub open spec fn is_ascii_alnum(c: char) -> bool {
    ('0' <= c && c <= '9') || ('A' <= c && c <= 'Z') || ('a' <= c && c <= 'z')
}

/// Characters allowed in an exact pack token: ASCII letters, digits and `_`.
pub open spec fn is_token_char(c: char) -> bool {
    is_ascii_alnum(c) || c == '_'
}

pub open spec fn is_ascii_lower(c: char) -> bool {
    'a' <= c && c <= 'z'
}

/// Visible ASCII, `!` through `~`.
pub open spec fn is_ascii_graphic(c: char) -> bool {
    '!' <= c && c <= '~'
}

/// The Unicode `White_Space` property, which `str::trim` strips.
pub open spec fn is_unicode_whitespace(c: char) -> bool {
    ||| ('\u{9}' <= c && c <= '\u{d}')
    ||| c == ' '
    ||| c == '\u{85}'
    ||| c == '\u{a0}'
    ||| c == '\u{1680}'
    ||| ('\u{2000}' <= c && c <= '\u{200a}')
    ||| c == '\u{2028}'
    ||| c == '\u{2029}'
    ||| c == '\u{202f}'
    ||| c == '\u{205f}'
    ||| c == '\u{3000}'
}

/// The Unicode general category `Cc`.
pub open spec fn is_control(c: char) -> bool {
    c <= '\u{1f}' || ('\u{7f}' <= c && c <= '\u{9f}')
}

/// `c` equals the lowercase ASCII letter `lower` up to ASCII case.
pub open spec fn ascii_ci_eq(c: char, lower: char) -> bool {
    c == lower || (c as u32) + 32 == (lower as u32)
}

pub open spec fn starts_with_ci(s: Seq<char>, lower_prefix: Seq<char>) -> bool {
    &&& lower_prefix.len() <= s.len()
    &&& forall|i: int| 0 <= i < lower_prefix.len() ==> ascii_ci_eq(s[i], lower_prefix[i])
}

pub open spec fn fallback_word() -> Seq<char> {
    seq!['f', 'a', 'l', 'l', 'b', 'a', 'c', 'k']
}

pub open spec fn legacy_word() -> Seq<char> {
    seq!['l', 'e', 'g', 'a', 'c', 'y']
}

/// Pack identifiers may not start, in any ASCII case, with `fallback` or `legacy`.
pub open spec fn has_reserved_prefix(s: Seq<char>) -> bool {
    starts_with_ci(s, fallback_word()) || starts_with_ci(s, legacy_word())
}

/// `s.trim() == s`: no whitespace at either end.
pub open spec fn is_trimmed(s: Seq<char>) -> bool {
    s.len() == 0 || (!is_unicode_whitespace(s[0]) && !is_unicode_whitespace(s.last()))
}

/// `s.trim().is_empty()`: nothing but whitespace.
pub open spec fn is_blank(s: Seq<char>) -> bool {
    forall|i: int| 0 <= i < s.len() ==> is_unicode_whitespace(#[trigger] s[i])
}

pub open spec fn all_token_chars(s: Seq<char>) -> bool {
    forall|i: int| 0 <= i < s.len() ==> is_token_char(#[trigger] s[i])
}

pub open spec fn all_lower_chars(s: Seq<char>) -> bool {
    forall|i: int| 0 <= i < s.len() ==> is_ascii_lower(#[trigger] s[i])
}

pub open spec fn all_graphic_chars(s: Seq<char>) -> bool {
    forall|i: int| 0 <= i < s.len() ==> is_ascii_graphic(#[trigger] s[i])
}

pub open spec fn has_control_char(s: Seq<char>) -> bool {
    exists|i: int| 0 <= i < s.len() && is_control(#[trigger] s[i])
}

/// A nonempty, trimmed, unreserved identifier of ASCII letters, digits and `_`.
pub open spec fn is_exact_token(s: Seq<char>) -> bool {
    &&& s.len() > 0
    &&& is_trimmed(s)
    &&& !has_reserved_prefix(s)
    &&& all_token_chars(s)
}

/// A nonempty, trimmed, unreserved identifier of lowercase ASCII letters.
pub open spec fn is_exact_lower_token(s: Seq<char>) -> bool {
    &&& s.len() > 0
    &&& is_trimmed(s)
    &&& !has_reserved_prefix(s)
    &&& all_lower_chars(s)
}

/// A nonempty, trimmed, unreserved label of visible ASCII.
pub open spec fn is_exact_graphic_token(s: Seq<char>) -> bool {
    &&& s.len() > 0
    &&& is_trimmed(s)
    &&& !has_reserved_prefix(s)
    &&& all_graphic_chars(s)
}

/// Nonempty, trimmed text without control characters.
pub open spec fn is_exact_text(s: Seq<char>) -> bool {
    &&& s.len() > 0
    &&& is_trimmed(s)
    &&& !has_control_char(s)
}

/// Exact text that is also not reserved.
pub open spec fn is_exact_value(s: Seq<char>) -> bool {
    is_exact_text(s) && !has_reserved_prefix(s)
}

pub fn is_unicode_whitespace_char(c: char) -> (b: bool)
    ensures
        b == is_unicode_whitespace(c),
{
    ('\u{9}' <= c && c <= '\u{d}') || c == ' ' || c == '\u{85}' || c == '\u{a0}' || c
        == '\u{1680}' || ('\u{2000}' <= c && c <= '\u{200a}') || c == '\u{2028}' || c
        == '\u{2029}' || c == '\u{202f}' || c == '\u{205f}' || c == '\u{3000}'
}

pub fn is_control_char(c: char) -> (b: bool)
    ensures
        b == is_control(c),
{
    c <= '\u{1f}' || ('\u{7f}' <= c && c <= '\u{9f}')
}

pub fn is_token_char_exec(c: char) -> (b: bool)
    ensures
        b == is_token_char(c),
{
    ('0' <= c && c <= '9') || ('A' <= c && c <= 'Z') || ('a' <= c && c <= 'z') || c == '_'
}

/// The characters of `s`, in order.
pub fn text_chars(s: &str) -> (v: Vec<char>)
    ensures
        v@ == s@,
{
    let mut v: Vec<char> = Vec::new();
    for c in it: s.chars()
        invariant
            v@ == it.seq().take(it.index() as int),
    {
        v.push(c);
    }
    v
}

/// Text equality by characters.
pub fn text_eq(a: &str, b: &str) -> (r: bool)
    ensures
        r == (a@ == b@),
{
    let x = text_chars(a);
    let y = text_chars(b);
    if x.len() != y.len() {
        return false;
    }
    let mut i: usize = 0;
    while i < x.len()
        invariant
            x@ == a@,
            y@ == b@,
            x.len() == y.len(),
            i <= x.len(),
            forall|j: int| 0 <= j < i ==> x@[j] == y@[j],
        decreases x.len() - i,
    {
        if x[i] != y[i] {
            return false;
        }
        i += 1;
    }
    assert(x@ =~= y@);
    true
}

fn starts_with_ci_chars(s: &Vec<char>, lower_prefix: &Vec<char>) -> (r: bool)
    requires
        forall|i: int| 0 <= i < lower_prefix@.len() ==> 'a' <= #[trigger] lower_prefix@[i] && lower_prefix@[i] <= 'z',
    ensures
        r == starts_with_ci(s@, lower_prefix@),
{
    if lower_prefix.len() > s.len() {
        return false;
    }
    let mut i: usize = 0;
    while i < lower_prefix.len()
        invariant
            lower_prefix.len() <= s.len(),
            i <= lower_prefix.len(),
            forall|k: int| 0 <= k < lower_prefix@.len() ==> 'a' <= #[trigger] lower_prefix@[k] && lower_prefix@[k] <= 'z',
            forall|j: int| 0 <= j < i ==> ascii_ci_eq(s@[j], lower_prefix@[j]),
        decreases lower_prefix.len() - i,
    {
        let c = s[i];
        let l = lower_prefix[i];
        if !(c == l || (c as u32) == (l as u32) - 32) {
            return false;
        }
        i += 1;
    }
    true
}

fn fallback_chars() -> (v: Vec<char>)
    ensures
        v@ == fallback_word(),
{
    let v = vec!['f', 'a', 'l', 'l', 'b', 'a', 'c', 'k'];
    assert(v@ =~= fallback_word());
    v
}

fn legacy_chars() -> (v: Vec<char>)
    ensures
        v@ == legacy_word(),
{
    let v = vec!['l', 'e', 'g', 'a', 'c', 'y'];
    assert(v@ =~= legacy_word());
    v
}

pub fn has_reserved_prefix_chars(s: &Vec<char>) -> (r: bool)
    ensures
        r == has_reserved_prefix(s@),
{
    let f = fallback_chars();
    let l = legacy_chars();
    starts_with_ci_chars(s, &f) || starts_with_ci_chars(s, &l)
}

/// `value.to_ascii_lowercase()` starts with `fallback` or `legacy`.
pub fn has_reserved_pack_prefix(value: &str) -> (r: bool)
    ensures
        r == has_reserved_prefix(value@),
{
    let v = text_chars(value);
    has_reserved_prefix_chars(&v)
}

pub fn is_trimmed_chars(s: &Vec<char>) -> (r: bool)
    ensures
        r == is_trimmed(s@),
{
    if s.len() == 0 {
        return true;
    }
    !is_unicode_whitespace_char(s[0]) && !is_unicode_whitespace_char(s[s.len() - 1])
}

/// `value.trim() == value`.
pub fn is_trimmed_text(value: &str) -> (r: bool)
    ensures
        r == is_trimmed(value@),
{
    let v = text_chars(value);
    is_trimmed_chars(&v)
}

/// `value.trim().is_empty()`.
pub fn is_blank_text(value: &str) -> (r: bool)
    ensures
        r == is_blank(value@),
{
    let v = text_chars(value);
    let mut i: usize = 0;
    while i < v.len()
        invariant
            v@ == value@,
            i <= v.len(),
            forall|j: int| 0 <= j < i ==> is_unicode_whitespace(#[trigger] v@[j]),
        decreases v.len() - i,
    {
        if !is_unicode_whitespace_char(v[i]) {
            return false;
        }
        i += 1;
    }
    true
}

fn all_token_chars_exec(s: &Vec<char>) -> (r: bool)
    ensures
        r == all_token_chars(s@),
{
    let mut i: usize = 0;
    while i < s.len()
        invariant
            i <= s.len(),
            forall|j: int| 0 <= j < i ==> is_token_char(#[trigger] s@[j]),
        decreases s.len() - i,
    {
        if !is_token_char_exec(s[i]) {
            return false;
        }
        i += 1;
    }
    true
}

fn all_lower_chars_exec(s: &Vec<char>) -> (r: bool)
    ensures
        r == all_lower_chars(s@),
{
    let mut i: usize = 0;
    while i < s.len()
        invariant
            i <= s.len(),
            forall|j: int| 0 <= j < i ==> is_ascii_lower(#[trigger] s@[j]),
        decreases s.len() - i,
    {
        let c = s[i];
        if !('a' <= c && c <= 'z') {
            return false;
        }
        i += 1;
    }
    true
}

fn all_graphic_chars_exec(s: &Vec<char>) -> (r: bool)
    ensures
        r == all_graphic_chars(s@),
{
    let mut i: usize = 0;
    while i < s.len()
        invariant
            i <= s.len(),
            forall|j: int| 0 <= j < i ==> is_ascii_graphic(#[trigger] s@[j]),
        decreases s.len() - i,
    {
        let c = s[i];
        if !('!' <= c && c <= '~') {
            return false;
        }
        i += 1;
    }
    true
}

fn has_control_char_exec(s: &Vec<char>) -> (r: bool)
    ensures
        r == has_control_char(s@),
{
    let mut i: usize = 0;
    while i < s.len()
        invariant
            i <= s.len(),
            forall|j: int| 0 <= j < i ==> !is_control(#[trigger] s@[j]),
        decreases s.len() - i,
    {
        if is_control_char(s[i]) {
            return true;
        }
        i += 1;
    }
    false
}

/// Exact token check shared by every pack identifier.
pub fn is_exact_token_text(value: &str) -> (r: bool)
    ensures
        r == is_exact_token(value@),
{
    let v = text_chars(value);
    v.len() > 0 && is_trimmed_chars(&v) && !has_reserved_prefix_chars(&v) && all_token_chars_exec(
        &v,
    )
}

pub fn is_exact_lower_token_text(value: &str) -> (r: bool)
    ensures
        r == is_exact_lower_token(value@),
{
    let v = text_chars(value);
    v.len() > 0 && is_trimmed_chars(&v) && !has_reserved_prefix_chars(&v) && all_lower_chars_exec(
        &v,
    )
}

pub fn is_exact_graphic_token_text(value: &str) -> (r: bool)
    ensures
        r == is_exact_graphic_token(value@),
{
    let v = text_chars(value);
    v.len() > 0 && is_trimmed_chars(&v) && !has_reserved_prefix_chars(&v)
        && all_graphic_chars_exec(&v)
}

pub fn is_exact_text_text(value: &str) -> (r: bool)
    ensures
        r == is_exact_text(value@),
{
    let v = text_chars(value);
    v.len() > 0 && is_trimmed_chars(&v) && !has_control_char_exec(&v)
}

pub fn is_exact_value_text(value: &str) -> (r: bool)
    ensures
        r == is_exact_value(value@),
{
    let v = text_chars(value);
    v.len() > 0 && is_trimmed_chars(&v) && !has_control_char_exec(&v)
        && !has_reserved_prefix_chars(&v)
}

/// An owned copy of `s`.
pub fn copy_text(s: &str) -> (r: String)
    ensures
        r@ == s@,
{
    s.to_owned()
}

pub open spec fn digit_char(d: nat) -> char {
    (d + 48) as char
}

/// Decimal digits of `n`, most significant first, without leading zeros.
pub open spec fn decimal_digits(n: nat) -> Seq<char>
    decreases n,
{
    if n < 10 {
        seq![digit_char(n)]
    } else {
        decimal_digits(n / 10).push(digit_char(n % 10))
    }
}

fn digit_of(d: u64) -> (c: char)
    requires
        d < 10,
    ensures
        c == digit_char(d as nat),
{
    let b: u8 = (d as u8) + 48u8;
    b as char
}

pub fn decimal_chars(n: u64) -> (v: Vec<char>)
    ensures
        v@ == decimal_digits(n as nat),
    decreases n,
{
    if n < 10 {
        let v = vec![digit_of(n)];
        v
    } else {
        let mut v = decimal_chars(n / 10);
        v.push(digit_of(n % 10));
        v
    }
}

/// Builds a `String` from characters with `String::from_iter`; the contract
/// claims the string holds exactly those characters, in order.
#[verifier::external_body]
pub(crate) fn text_from_chars(chars: &Vec<char>) -> (s: String)
    ensures
        s@ == chars@,
{
    String::from_iter(chars.iter())
}

/// The decimal digits of `n` as text.
pub fn decimal_text(n: u64) -> (s: String)
    ensures
        s@ == decimal_digits(n as nat),
{
    let v = decimal_chars(n);
    text_from_chars(&v)
}

/// `prefix`, the decimal digits of `n`, then `suffix`.
pub fn message_with_number(prefix: &str, n: u64, suffix: &str) -> (s: String)
    ensures
        s@ == prefix@ + decimal_digits(n as nat) + suffix@,
{
    let mut v = text_chars(prefix);
    let mut d = decimal_chars(n);
    let mut t = text_chars(suffix);
    v.append(&mut d);
    v.append(&mut t);
    text_from_chars(&v)
}

/// `prefix`, `middle`, then `suffix`.
pub fn message_with_text(prefix: &str, middle: &str, suffix: &str) -> (s: String)
    ensures
        s@ == prefix@ + middle@ + suffix@,
{
    let mut v = text_chars(prefix);
    let mut m = text_chars(middle);
    let mut t = text_chars(suffix);
    v.append(&mut m);
    v.append(&mut t);
    text_from_chars(&v)
}

/// `s` with zeros in front up to `width` characters.
pub open spec fn zero_padded(s: Seq<char>, width: nat) -> Seq<char> {
    if s.len() >= width {
        s
    } else {
        Seq::new((width - s.len()) as nat, |i: int| '0') + s
    }
}

/// The decimal digits of `value`, with zeros in front up to `width` characters.
pub fn zero_padded_decimal(value: u64, width: usize) -> (s: String)
    ensures
        s@ == zero_padded(decimal_digits(value as nat), width as nat),
{
    let digits = decimal_chars(value);
    let mut out: Vec<char> = Vec::new();
    let need: usize = if digits.len() < width { width - digits.len() } else { 0 };
    let mut pad: usize = 0;
    while pad < need
        invariant
            pad <= need,
            out@ == Seq::new(pad as nat, |i: int| '0'),
        decreases need - pad,
    {
        out.push('0');
        pad += 1;
        proof {
            assert(out@ =~= Seq::new(pad as nat, |i: int| '0'));
        }
    }
    let mut d = digits;
    let ghost dv = d@;
    out.append(&mut d);
    proof {
        assert(out@ =~= zero_padded(decimal_digits(value as nat), width as nat));
    }
    text_from_chars(&out)
}

pub open spec fn is_digit(c: char) -> bool {
    '0' <= c && c <= '9'
}

pub open spec fn decimal_value(d: Seq<char>) -> int
    decreases d.len(),
{
    if d.len() == 0 {
        0
    } else {
        decimal_value(d.drop_last()) * 10 + (d.last() as int - '0' as int)
    }
}


/// The digits of `n` are digits, and read back as `n`.
pub proof fn lemma_decimal_digits_read_back(n: nat)
    ensures
        decimal_value(decimal_digits(n)) == n,
        forall|i: int| 0 <= i < decimal_digits(n).len() ==> is_digit(#[trigger] decimal_digits(n)[i]),
        decimal_digits(n).len() > 0,
    decreases n,
{
    if n < 10 {
        let d = decimal_digits(n);
        assert(d.drop_last() =~= Seq::<char>::empty());
        assert(d.last() == digit_char(n));
        assert(digit_char(n) as int == n + 48);
        assert('0' as int == 48);
        assert(decimal_value(Seq::<char>::empty()) == 0);
        assert(decimal_value(d) == decimal_value(d.drop_last()) * 10 + (d.last() as int - '0' as int));
    } else {
        lemma_decimal_digits_read_back(n / 10);
        let d = decimal_digits(n);
        assert(d.drop_last() =~= decimal_digits(n / 10));
        assert(d.last() == digit_char(n % 10));
        assert(digit_char(n % 10) as int == n % 10 + 48);
        assert('0' as int == 48);
        assert(n == (n / 10) * 10 + n % 10);
        assert(decimal_value(d) == decimal_value(d.drop_last()) * 10 + (d.last() as int - '0' as int));
        assert forall|i: int| 0 <= i < d.len() implies is_digit(#[trigger] d[i]) by {
            if i < d.len() - 1 {
                assert(d[i] == decimal_digits(n / 10)[i]);
            }
        }
    }
}

/// Zeros in front of a number's digits do not change the number.
pub proof fn lemma_leading_zeros_read_back(k: nat, s: Seq<char>)
    ensures
        decimal_value(Seq::new(k, |i: int| '0') + s) == decimal_value(s),
    decreases s.len(), k,
{
    let zeros = Seq::new(k, |i: int| '0');
    if s.len() == 0 {
        assert(zeros + s =~= zeros);
        if k > 0 {
            assert(zeros.drop_last() =~= Seq::new((k - 1) as nat, |i: int| '0'));
            assert(Seq::new((k - 1) as nat, |i: int| '0') + s =~= Seq::new((k - 1) as nat, |i: int| '0'));
            lemma_leading_zeros_read_back((k - 1) as nat, s);
        }
    } else {
        assert((zeros + s).drop_last() =~= zeros + s.drop_last());
        lemma_leading_zeros_read_back(k, s.drop_last());
    }
}

/// Every character is an ASCII digit.
pub open spec fn all_digits(d: Seq<char>) -> bool {
    forall|i: int| 0 <= i < d.len() ==> is_digit(#[trigger] d[i])
}

/// A run of digits reads as a value of at least zero.
pub proof fn lemma_decimal_value_nonneg(d: Seq<char>)
    requires
        forall|i: int| 0 <= i < d.len() ==> is_digit(#[trigger] d[i]),
    ensures
        decimal_value(d) >= 0,
    decreases d.len(),
{
    if d.len() > 0 {
        let e = d.drop_last();
        assert forall|i: int| 0 <= i < e.len() implies is_digit(#[trigger] e[i]) by {
            assert(e[i] == d[i]);
        }
        lemma_decimal_value_nonneg(e);
    }
}

/// A prefix of a run of digits reads as no more than the whole run.
pub proof fn lemma_decimal_value_grows(d: Seq<char>, n: int)
    requires
        0 <= n <= d.len(),
        forall|i: int| 0 <= i < d.len() ==> is_digit(#[trigger] d[i]),
    ensures
        0 <= decimal_value(d.take(n)) <= decimal_value(d),
    decreases d.len() - n,
{
    if n < d.len() {
        assert(d.take(d.len() as int) =~= d);
        let e = d.drop_last();
        assert(e.take(n) =~= d.take(n));
        assert forall|i: int| 0 <= i < e.len() implies is_digit(#[trigger] e[i]) by {
            assert(e[i] == d[i]);
        }
        lemma_decimal_value_grows(e, n);
        lemma_decimal_value_nonneg(e);
    } else {
        assert(d.take(n) =~= d);
        lemma_decimal_value_nonneg(d);
    }
}

// ---- trimming and case ----

/// `s` without its leading whitespace.
pub open spec fn trim_start(s: Seq<char>) -> Seq<char>
    decreases s.len(),
{
    if s.len() > 0 && is_unicode_whitespace(s[0]) {
        trim_start(s.drop_first())
    } else {
        s
    }
}

/// `s` without its trailing whitespace.
pub open spec fn trim_end(s: Seq<char>) -> Seq<char>
    decreases s.len(),
{
    if s.len() > 0 && is_unicode_whitespace(s.last()) {
        trim_end(s.drop_last())
    } else {
        s
    }
}

/// `s` without leading or trailing whitespace, as `str::trim` leaves it.
pub open spec fn trim_text(s: Seq<char>) -> Seq<char> {
    trim_end(trim_start(s))
}

/// `c` with an ASCII lowercase letter made uppercase.
pub open spec fn ascii_upper(c: char) -> char {
    if 'a' <= c && c <= 'z' {
        ((c as int) - 32) as char
    } else {
        c
    }
}

/// `s` as `str::to_ascii_uppercase` leaves it.
pub open spec fn ascii_upper_text(s: Seq<char>) -> Seq<char> {
    s.map_values(|c: char| ascii_upper(c))
}

/// The characters of `s` without leading or trailing whitespace.
pub fn trim_chars(s: &Vec<char>) -> (t: Vec<char>)
    ensures
        t@ == trim_text(s@),
{
    let n = s.len();
    let mut a: usize = 0;
    proof {
        assert(s@.skip(0) =~= s@);
    }
    while a < n && is_unicode_whitespace_char(s[a])
        invariant
            n == s@.len(),
            a <= n,
            trim_start(s@) == trim_start(s@.skip(a as int)),
        decreases n - a,
    {
        proof {
            assert(s@.skip(a + 1) =~= s@.skip(a as int).drop_first());
        }
        a += 1;
    }
    let ghost mid = s@.skip(a as int);
    proof {
        if a < n {
            assert(mid[0] == s@[a as int]);
        } else {
            assert(mid.len() == 0);
        }
        assert(trim_start(s@) == mid);
    }
    let mut b: usize = n;
    proof {
        assert(mid.take(b - a) =~= mid);
    }
    while b > a && is_unicode_whitespace_char(s[b - 1])
        invariant
            n == s@.len(),
            a <= b <= n,
            mid == s@.skip(a as int),
            trim_end(mid) == trim_end(mid.take(b - a)),
        decreases b - a,
    {
        proof {
            assert(mid.take(b - a - 1) =~= mid.take(b - a).drop_last());
            assert(mid.take(b - a).last() == s@[b - 1]);
        }
        b -= 1;
    }
    proof {
        assert(mid.take(mid.len() as int) =~= mid);
        if b > a {
            assert(mid.take(b - a).last() == s@[b - 1]);
        }
        assert(trim_end(mid.take(b - a)) == mid.take(b - a));
    }
    let mut t: Vec<char> = Vec::new();
    let mut i: usize = a;
    while i < b
        invariant
            a <= i <= b <= n,
            n == s@.len(),
            mid == s@.skip(a as int),
            t@ == mid.take(i - a),
        decreases b - i,
    {
        t.push(s[i]);
        proof {
            assert(t@ =~= mid.take(i - a + 1));
        }
        i += 1;
    }
    t
}

/// The characters of `s` with ASCII lowercase letters made uppercase.
pub fn ascii_upper_chars(s: &Vec<char>) -> (t: Vec<char>)
    ensures
        t@ == ascii_upper_text(s@),
{
    let mut t: Vec<char> = Vec::new();
    let mut i: usize = 0;
    while i < s.len()
        invariant
            i <= s@.len(),
            t@ == ascii_upper_text(s@.take(i as int)),
        decreases s.len() - i,
    {
        let c = s[i];
        let u = if 'a' <= c && c <= 'z' {
            (((c as u32) - 32) as u8) as char
        } else {
            c
        };
        t.push(u);
        proof {
            assert(ascii_upper_text(s@.take(i + 1)) =~= ascii_upper_text(s@.take(i as int)).push(ascii_upper(c)));
        }
        i += 1;
    }
    proof {
        assert(s@.take(s@.len() as int) =~= s@);
    }
    t
}

/// Character sequences compared for equality with a text.
pub fn chars_eq_text(a: &Vec<char>, b: &str) -> (r: bool)
    ensures
        r == (a@ == b@),
{
    let bc = text_chars(b);
    if a.len() != bc.len() {
        return false;
    }
    let mut i: usize = 0;
    while i < a.len()
        invariant
            a@.len() == bc@.len(),
            bc@ == b@,
            i <= a@.len(),
            forall|k: int| 0 <= k < i ==> a@[k] == bc@[k],
        decreases a.len() - i,
    {
        if a[i] != bc[i] {
            return false;
        }
        i += 1;
    }
    proof {
        assert(a@ =~= bc@);
    }
    true
}

// ---- splitting on a separator ----

/// The pieces of `s` between occurrences of `sep`, as `str::split` yields them: one more
/// piece than there are separators, empty pieces included.
pub open spec fn split_text(s: Seq<char>, sep: char) -> Seq<Seq<char>>
    decreases s.len(),
{
    if s.len() == 0 {
        seq![Seq::<char>::empty()]
    } else {
        let p = split_text(s.drop_last(), sep);
        if s.last() == sep {
            p.push(Seq::<char>::empty())
        } else {
            p.update(p.len() - 1, p.last().push(s.last()))
        }
    }
}

/// There is always at least one piece.
pub proof fn lemma_split_nonempty(s: Seq<char>, sep: char)
    ensures
        split_text(s, sep).len() >= 1,
    decreases s.len(),
{
    if s.len() > 0 {
        lemma_split_nonempty(s.drop_last(), sep);
    }
}

pub open spec fn char_views(parts: Seq<Vec<char>>) -> Seq<Seq<char>> {
    parts.map_values(|p: Vec<char>| p@)
}

/// The pieces of `chars` between occurrences of `sep`.
pub fn split_chars(chars: &Vec<char>, sep: char) -> (parts: Vec<Vec<char>>)
    ensures
        char_views(parts@) == split_text(chars@, sep),
{
    let mut done: Vec<Vec<char>> = Vec::new();
    let mut cur: Vec<char> = Vec::new();
    let mut i: usize = 0;
    while i < chars.len()
        invariant
            i <= chars@.len(),
            char_views(done@).push(cur@) == split_text(chars@.take(i as int), sep),
        decreases chars.len() - i,
    {
        let c = chars[i];
        proof {
            lemma_split_nonempty(chars@.take(i as int), sep);
            assert(chars@.take(i + 1).drop_last() =~= chars@.take(i as int));
            assert(chars@.take(i + 1).last() == c);
        }
        let ghost before = char_views(done@);
        let ghost old_cur = cur@;
        if c == sep {
            let finished = cur;
            done.push(finished);
            cur = Vec::new();
            proof {
                assert(char_views(done@) =~= before.push(old_cur));
                assert(char_views(done@).push(cur@) =~= split_text(chars@.take(i + 1), sep));
            }
        } else {
            cur.push(c);
            proof {
                assert(char_views(done@) =~= before);
                assert(char_views(done@).push(cur@) =~= split_text(chars@.take(i + 1), sep));
            }
        }
        i += 1;
    }
    proof {
        assert(chars@.take(chars@.len() as int) =~= chars@);
    }
    let ghost before = char_views(done@);
    let last = cur;
    done.push(last);
    proof {
        assert(char_views(done@) =~= before.push(last@));
    }
    done
}

/// Pieces joined with `sep` between them.
pub open spec fn join_text(parts: Seq<Seq<char>>, sep: char) -> Seq<char>
    decreases parts.len(),
{
    if parts.len() <= 1 {
        if parts.len() == 1 { parts[0] } else { Seq::<char>::empty() }
    } else {
        join_text(parts.drop_last(), sep).push(sep) + parts.last()
    }
}

/// Appending text without the separator extends the last piece.
pub proof fn lemma_split_append(a: Seq<char>, b: Seq<char>, sep: char)
    requires
        !b.contains(sep),
    ensures
        split_text(a + b, sep) == split_text(a, sep).update(
            split_text(a, sep).len() - 1,
            split_text(a, sep).last() + b,
        ),
    decreases b.len(),
{
    lemma_split_nonempty(a, sep);
    if b.len() == 0 {
        assert(a + b =~= a);
        assert(split_text(a, sep).last() + b =~= split_text(a, sep).last());
        assert(split_text(a, sep).update(split_text(a, sep).len() - 1, split_text(a, sep).last() + b)
            =~= split_text(a, sep));
    } else {
        let b0 = b.drop_last();
        assert(!b0.contains(sep)) by {
            if b0.contains(sep) {
                let k = choose|k: int| 0 <= k < b0.len() && b0[k] == sep;
                assert(b[k] == sep);
            }
        }
        lemma_split_append(a, b0, sep);
        assert((a + b).drop_last() =~= a + b0);
        assert((a + b).last() == b.last());
        assert(b.last() != sep) by {
            assert(b[b.len() - 1] == b.last());
        }
        lemma_split_nonempty(a + b0, sep);
        assert(split_text(a, sep).last() + b0 + seq![b.last()] =~= split_text(a, sep).last() + b);
        assert((split_text(a, sep).last() + b0).push(b.last()) =~= split_text(a, sep).last() + b);
        assert(split_text(a + b, sep) =~= split_text(a, sep).update(
            split_text(a, sep).len() - 1,
            split_text(a, sep).last() + b,
        ));
    }
}

/// Splitting joined pieces that hold no separator gives the pieces back.
pub proof fn lemma_split_join(parts: Seq<Seq<char>>, sep: char)
    requires
        parts.len() >= 1,
        forall|i: int| 0 <= i < parts.len() ==> !(#[trigger] parts[i]).contains(sep),
    ensures
        split_text(join_text(parts, sep), sep) == parts,
    decreases parts.len(),
{
    if parts.len() == 1 {
        let e = Seq::<char>::empty();
        lemma_split_append(e, parts[0], sep);
        assert(e + parts[0] =~= parts[0]);
        assert(split_text(e, sep) =~= seq![e]);
        assert(e + parts[0] =~= parts[0]);
        assert(split_text(join_text(parts, sep), sep) =~= parts);
    } else {
        let init = parts.drop_last();
        assert forall|i: int| 0 <= i < init.len() implies !(#[trigger] init[i]).contains(sep) by {
            assert(init[i] == parts[i]);
        }
        lemma_split_join(init, sep);
        let j = join_text(init, sep);
        let js = j.push(sep);
        assert(js.drop_last() =~= j);
        assert(js.last() == sep);
        assert(split_text(js, sep) =~= init.push(Seq::<char>::empty()));
        assert(!parts.last().contains(sep)) by {
            assert(parts[parts.len() - 1] == parts.last());
        }
        lemma_split_append(js, parts.last(), sep);
        assert(Seq::<char>::empty() + parts.last() =~= parts.last());
        assert(split_text(join_text(parts, sep), sep) =~= parts);
    }
}
} // verus!
