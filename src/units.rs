//! Numbers, durations, sizes and bit rates as the encoder prints them.
//!
//! A number is a plain decimal (`12`, `1.5`, `.5`, `3.`) held exactly as a
//! mantissa and a count of fraction digits. Normalised values are whole
//! numbers: durations in microseconds, sizes in bytes, rates in thousandths
//! (a bit rate of 1.5 kbit/s is 1500). A conversion rounds half up, and a
//! value that does not fit in `u64` is not recognised.
use vstd::prelude::*;
use crate::text::{
    chars_of, digit_value, eq_text, is_digit, lower, occurs_at, occurs_at_exec, sub_chars, to_lower,
    trim, trim_chars,
};

verus! {

/// The number `mantissa / 10^scale`.
#[derive(Debug, Clone, Copy, PartialEq, Eq)]
pub struct Decimal {
    pub mantissa: u64,
    pub scale: u32,
}

/// The largest count of fraction digits that a `Decimal` holds.
pub const MAX_SCALE: u32 = 19;

impl Decimal {
    pub open spec fn wf(self) -> bool {
        self.scale <= MAX_SCALE
    }

    /// The number zero.
    pub open spec fn zero() -> Decimal {
        Decimal { mantissa: 0, scale: 0 }
    }
}

/// The decimal, or zero where there is none.
pub open spec fn dec_or_zero(o: Option<Decimal>) -> Decimal {
    match o {
        Some(d) => d,
        None => Decimal::zero(),
    }
}

pub fn dec_or_zero_exec(o: Option<Decimal>) -> (r: Decimal)
    ensures
        r == dec_or_zero(o),
{
    match o {
        Some(d) => d,
        None => Decimal { mantissa: 0, scale: 0 },
    }
}

pub open spec fn pow10(n: nat) -> nat
    decreases n,
{
    if n == 0 {
        1
    } else {
        10 * pow10((n - 1) as nat)
    }
}

pub open spec fn is_number_char(c: char) -> bool {
    is_digit(c) || c == '.'
}

pub open spec fn dot_count(s: Seq<char>) -> nat
    decreases s.len(),
{
    if s.len() == 0 {
        0
    } else {
        dot_count(s.drop_last()) + if s.last() == '.' { 1nat } else { 0nat }
    }
}

/// The digits of `s` read as one integer, the dots left out.
pub open spec fn mantissa_of(s: Seq<char>) -> nat
    decreases s.len(),
{
    if s.len() == 0 {
        0
    } else if s.last() == '.' {
        mantissa_of(s.drop_last())
    } else {
        mantissa_of(s.drop_last()) * 10 + digit_value(s.last())
    }
}

/// The number of characters after the dot.
pub open spec fn frac_len(s: Seq<char>) -> nat
    decreases s.len(),
{
    if s.len() == 0 || s.last() == '.' {
        0
    } else if dot_count(s.drop_last()) > 0 {
        frac_len(s.drop_last()) + 1
    } else {
        0
    }
}

/// Digits with at most one dot among them, and at least one digit.
pub open spec fn is_number_text(s: Seq<char>) -> bool {
    &&& forall|i: int| 0 <= i < s.len() ==> is_number_char(#[trigger] s[i])
    &&& dot_count(s) <= 1
    &&& exists|i: int| 0 <= i < s.len() && is_digit(#[trigger] s[i])
}

/// The decimal that `s` writes, where it is one and fits.
pub open spec fn decimal_of(s: Seq<char>) -> Option<Decimal> {
    if is_number_text(s) && mantissa_of(s) <= u64::MAX && frac_len(s) <= MAX_SCALE {
        Some(Decimal { mantissa: mantissa_of(s) as u64, scale: frac_len(s) as u32 })
    } else {
        None
    }
}

/// `d * k`, rounded half up to a whole number.
pub open spec fn round_scaled(d: Decimal, k: nat) -> nat {
    ((d.mantissa * k + pow10(d.scale as nat) / 2) / (pow10(d.scale as nat) as int)) as nat
}

/// `round_scaled` where the result fits in `u64`.
pub open spec fn scaled_u64(d: Decimal, k: nat) -> Option<u64> {
    if round_scaled(d, k) <= u64::MAX {
        Some(round_scaled(d, k) as u64)
    } else {
        None
    }
}

pub proof fn lemma_pow10_mono(a: nat, b: nat)
    requires
        a <= b,
    ensures
        1 <= pow10(a) <= pow10(b),
    decreases b,
{
    if b > a {
        lemma_pow10_mono(a, (b - 1) as nat);
    } else if a > 0 {
        lemma_pow10_mono((a - 1) as nat, (a - 1) as nat);
    }
}

pub proof fn lemma_mantissa_mono(s: Seq<char>, j: int, k: int)
    requires
        0 <= j <= k <= s.len(),
    ensures
        mantissa_of(s.subrange(0, j)) <= mantissa_of(s.subrange(0, k)),
    decreases k - j,
{
    if j < k {
        lemma_mantissa_mono(s, j, k - 1);
        assert(s.subrange(0, k).drop_last() =~= s.subrange(0, k - 1));
    }
}

/// `10^n` for a count of fraction digits.
pub fn pow10_exec(n: u32) -> (r: u64)
    requires
        n <= MAX_SCALE,
    ensures
        r == pow10(n as nat),
        r >= 1,
{
    let mut p: u64 = 1;
    let mut i: u32 = 0;
    proof {
        lemma_pow10_mono(0, MAX_SCALE as nat);
        reveal_with_fuel(pow10, 20);
        assert(pow10(19) == 10000000000000000000nat);
    }
    while i < n
        invariant
            i <= n <= MAX_SCALE,
            p == pow10(i as nat),
            pow10(MAX_SCALE as nat) == 10000000000000000000nat,
        decreases n - i,
    {
        proof {
            lemma_pow10_mono((i + 1) as nat, MAX_SCALE as nat);
        }
        p = p * 10;
        i = i + 1;
    }
    proof {
        lemma_pow10_mono(0, n as nat);
    }
    p
}

/// `d * k` rounded half up, where it fits in `u64`.
pub fn scale_round(d: Decimal, k: u64) -> (r: Option<u64>)
    requires
        d.wf(),
        k <= 0x1_0000_0000_0000,
    ensures
        r == scaled_u64(d, k as nat),
{
    let p = pow10_exec(d.scale);
    let m = d.mantissa as u128;
    assert(m * (k as u128) <= 0xffff_ffff_ffff_ffffu128 * 0x1_0000_0000_0000u128)
        by (nonlinear_arith)
        requires
            m <= 0xffff_ffff_ffff_ffffu128,
            k <= 0x1_0000_0000_0000,
    ;
    let prod = m * (k as u128);
    let v = (prod + (p as u128) / 2) / (p as u128);
    if v <= u64::MAX as u128 {
        Some(v as u64)
    } else {
        None
    }
}

/// The decimal that `s` writes, where it is one and fits.
pub fn parse_decimal(s: &[char]) -> (r: Option<Decimal>)
    ensures
        r == decimal_of(s@),
        r matches Some(d) ==> d.wf(),
{
    let mut m: u64 = 0;
    let mut dots: usize = 0;
    let mut frac: usize = 0;
    let mut digit_seen = false;
    let mut i: usize = 0;
    while i < s.len()
        invariant
            i <= s.len(),
            m as nat == mantissa_of(s@.subrange(0, i as int)),
            dots as nat == dot_count(s@.subrange(0, i as int)),
            frac as nat == frac_len(s@.subrange(0, i as int)),
            dots <= i,
            frac <= i,
            digit_seen == exists|j: int| 0 <= j < i && is_digit(#[trigger] s@[j]),
            forall|j: int| 0 <= j < i ==> is_number_char(#[trigger] s@[j]),
        decreases s.len() - i,
    {
        let c = s[i];
        let ghost pre = s@.subrange(0, i as int);
        let ghost next = s@.subrange(0, i + 1);
        assert(next.drop_last() =~= pre);
        if c == '.' {
            dots = dots + 1;
            frac = 0;
        } else if '0' <= c && c <= '9' {
            let dv = (c as u32 - '0' as u32) as u64;
            if m > (u64::MAX - dv) / 10 {
                proof {
                    lemma_mantissa_mono(s@, i + 1, s.len() as int);
                    assert(s@.subrange(0, s.len() as int) =~= s@);
                }
                return None;
            }
            m = m * 10 + dv;
            frac = if dots > 0 { frac + 1 } else { 0 };
            digit_seen = true;
        } else {
            assert(!is_number_text(s@)) by {
                assert(!is_number_char(s@[i as int]));
            }
            return None;
        }
        i = i + 1;
    }
    assert(s@.subrange(0, s.len() as int) =~= s@);
    if dots <= 1 && digit_seen && frac <= MAX_SCALE as usize {
        Some(Decimal { mantissa: m, scale: frac as u32 })
    } else {
        None
    }
}

/// The pieces of `s` between colons, as `str::split(':')` gives them.
pub open spec fn split_colon(s: Seq<char>) -> Seq<Seq<char>>
    decreases s.len(),
{
    if s.len() == 0 {
        seq![Seq::empty()]
    } else {
        let p = split_colon(s.drop_last());
        if s.last() == ':' {
            p.push(Seq::empty())
        } else {
            p.update(p.len() - 1, p.last().push(s.last()))
        }
    }
}

pub proof fn lemma_split_colon_len(s: Seq<char>)
    ensures
        split_colon(s).len() >= 1,
    decreases s.len(),
{
    if s.len() > 0 {
        lemma_split_colon_len(s.drop_last());
    }
}

/// One colon-separated piece of a time, in microseconds for a unit of `k` of them.
pub open spec fn part_micros(p: Seq<char>, k: nat) -> Option<nat> {
    match decimal_of(p) {
        Some(d) => Some(round_scaled(d, k)),
        None => None,
    }
}

pub open spec fn add_opt(a: Option<nat>, b: Option<nat>) -> Option<nat> {
    match (a, b) {
        (Some(x), Some(y)) => Some(x + y),
        _ => None,
    }
}

pub const MICROS_PER_SECOND: u64 = 1_000_000;

pub const MICROS_PER_MINUTE: u64 = 60_000_000;

pub const MICROS_PER_HOUR: u64 = 3_600_000_000;

/// A time written `SS`, `MM:SS` or `HH:MM:SS`, each piece a plain decimal,
/// in whole microseconds: each piece is rounded on its own. More than three
/// pieces is no time.
pub open spec fn time_micros(s: Seq<char>) -> Option<u64> {
    let p = split_colon(s);
    let total = if p.len() > 3 {
        None
    } else if p.len() == 1 {
        part_micros(p[0], MICROS_PER_SECOND as nat)
    } else if p.len() == 2 {
        add_opt(part_micros(p[0], MICROS_PER_MINUTE as nat), part_micros(p[1], MICROS_PER_SECOND as nat))
    } else {
        add_opt(
            add_opt(part_micros(p[0], MICROS_PER_HOUR as nat), part_micros(p[1], MICROS_PER_MINUTE as nat)),
            part_micros(p[2], MICROS_PER_SECOND as nat),
        )
    };
    match total {
        Some(t) => if t <= u64::MAX {
            Some(t as u64)
        } else {
            None
        },
        None => None,
    }
}

/// The colon-separated pieces of `s`.
fn split_colon_exec(s: &[char]) -> (r: Vec<Vec<char>>)
    ensures
        r.len() == split_colon(s@).len(),
        forall|j: int| 0 <= j < r.len() ==> (#[trigger] r[j])@ == split_colon(s@)[j],
{
    let mut parts: Vec<Vec<char>> = Vec::new();
    let mut cur: Vec<char> = Vec::new();
    let mut i: usize = 0;
    while i < s.len()
        invariant
            i <= s.len(),
            parts.len() + 1 == split_colon(s@.subrange(0, i as int)).len(),
            forall|j: int|
                0 <= j < parts.len() ==> (#[trigger] parts[j])@ == split_colon(
                    s@.subrange(0, i as int),
                )[j],
            cur@ == split_colon(s@.subrange(0, i as int)).last(),
        decreases s.len() - i,
    {
        let ghost pre = s@.subrange(0, i as int);
        assert(s@.subrange(0, i + 1).drop_last() =~= pre);
        let c = s[i];
        if c == ':' {
            parts.push(cur);
            cur = Vec::new();
        } else {
            cur.push(c);
        }
        i = i + 1;
    }
    assert(s@.subrange(0, s.len() as int) =~= s@);
    parts.push(cur);
    parts
}

/// One piece of a time in microseconds, where it is a number and fits.
fn part_micros_exec(p: &[char], k: u64) -> (r: Option<u64>)
    requires
        k <= MICROS_PER_HOUR,
    ensures
        r matches Some(v) ==> part_micros(p@, k as nat) == Some(v as nat),
        r is None ==> match part_micros(p@, k as nat) {
            Some(t) => t > u64::MAX,
            None => true,
        },
{
    match parse_decimal(p) {
        Some(d) => scale_round(d, k),
        None => None,
    }
}

/// A time written `[[HH:]MM:]SS[.fraction]`, in microseconds.
pub fn parse_ffmpeg_time(value: &str) -> (r: Option<u64>)
    ensures
        r == time_micros(value@),
{
    let s = chars_of(value);
    time_from_chars(s.as_slice())
}

pub fn time_from_chars(s: &[char]) -> (r: Option<u64>)
    ensures
        r == time_micros(s@),
{
    let parts = split_colon_exec(s);
    proof {
        lemma_split_colon_len(s@);
    }
    if parts.len() == 1 {
        part_micros_exec(parts[0].as_slice(), MICROS_PER_SECOND)
    } else if parts.len() == 2 {
        let m = match part_micros_exec(parts[0].as_slice(), MICROS_PER_MINUTE) {
            Some(v) => v,
            None => return None,
        };
        let sec = match part_micros_exec(parts[1].as_slice(), MICROS_PER_SECOND) {
            Some(v) => v,
            None => return None,
        };
        m.checked_add(sec)
    } else if parts.len() > 3 {
        None
    } else {
        let h = match part_micros_exec(parts[0].as_slice(), MICROS_PER_HOUR) {
            Some(v) => v,
            None => return None,
        };
        let m = match part_micros_exec(parts[1].as_slice(), MICROS_PER_MINUTE) {
            Some(v) => v,
            None => return None,
        };
        let sec = match part_micros_exec(parts[2].as_slice(), MICROS_PER_SECOND) {
            Some(v) => v,
            None => return None,
        };
        match h.checked_add(m) {
            Some(hm) => hm.checked_add(sec),
            None => None,
        }
    }
}

/// An unsigned integer as `str::parse::<u64>` reads it: an optional `+`
/// and then only digits.
pub open spec fn all_digits(d: Seq<char>) -> bool {
    forall|i: int| 0 <= i < d.len() ==> is_digit(#[trigger] d[i])
}

/// `s` without one leading `+`.
pub open spec fn unsigned_part(s: Seq<char>) -> Seq<char> {
    if s.len() > 0 && s[0] == '+' {
        s.drop_first()
    } else {
        s
    }
}

/// An unsigned integer as `str::parse::<u64>` reads it: an optional `+`
/// and then only digits.
pub open spec fn u64_of(s: Seq<char>) -> Option<u64> {
    let d = unsigned_part(s);
    if d.len() > 0 && all_digits(d) && mantissa_of(d) <= u64::MAX {
        Some(mantissa_of(d) as u64)
    } else {
        None
    }
}

pub fn parse_u64(s: &[char]) -> (r: Option<u64>)
    ensures
        r == u64_of(s@),
{
    let start: usize = if s.len() > 0 && s[0] == '+' {
        1
    } else {
        0
    };
    let ghost d = s@.subrange(start as int, s@.len() as int);
    assert(d =~= unsigned_part(s@));
    if start >= s.len() {
        return None;
    }
    let mut m: u64 = 0;
    let mut i: usize = start;
    while i < s.len()
        invariant
            start <= i <= s.len(),
            d == s@.subrange(start as int, s@.len() as int),
            d == unsigned_part(s@),
            m as nat == mantissa_of(d.subrange(0, i - start)),
            forall|j: int| 0 <= j < i - start ==> is_digit(#[trigger] d[j]),
        decreases s.len() - i,
    {
        let c = s[i];
        assert(d.subrange(0, i - start + 1).drop_last() =~= d.subrange(0, i - start));
        if '0' <= c && c <= '9' {
            let dv = (c as u32 - '0' as u32) as u64;
            if m > (u64::MAX - dv) / 10 {
                proof {
                    let n = d.subrange(0, i - start + 1);
                    assert(n.last() == c);
                    assert(mantissa_of(n) == m * 10 + dv);
                    lemma_mantissa_mono(d, i - start + 1, d.len() as int);
                    assert(d.subrange(0, d.len() as int) =~= d);
                }
                return None;
            }
            m = m * 10 + dv;
        } else {
            assert(d[i - start] == c);
            assert(!is_digit(d[i - start]));
            assert(!all_digits(d));
            assert(u64_of(s@) is None);
            return None;
        }
        i = i + 1;
    }
    assert(d.subrange(0, d.len() as int) =~= d);
    Some(m)
}

/// Bytes in one of a size unit (already lower-cased and trimmed): decimal
/// for `k`, `m`, `g`, `t`, binary for `ki`, `mi`, `gi`, `ti`.
pub open spec fn size_multiplier(u: Seq<char>) -> Option<nat> {
    if u == "b"@ || u == "bytes"@ {
        Some(1)
    } else if u == "kb"@ {
        Some(1000)
    } else if u == "kib"@ {
        Some(1024)
    } else if u == "mb"@ {
        Some(1_000_000)
    } else if u == "mib"@ {
        Some(1_048_576)
    } else if u == "gb"@ {
        Some(1_000_000_000)
    } else if u == "gib"@ {
        Some(1_073_741_824)
    } else if u == "tb"@ {
        Some(1_000_000_000_000)
    } else if u == "tib"@ {
        Some(1_099_511_627_776)
    } else {
        None
    }
}

/// `value` of `unit` in bytes; the unit is read without regard to case.
pub open spec fn size_bytes(value: Decimal, unit: Seq<char>) -> Option<u64> {
    match size_multiplier(lower(trim(unit))) {
        Some(k) => scaled_u64(value, k),
        None => None,
    }
}

/// A size with its unit, in bytes.
pub fn parse_size_to_bytes(value: Decimal, unit: &str) -> (r: Option<u64>)
    requires
        value.wf(),
    ensures
        r == size_bytes(value, unit@),
{
    let u0 = chars_of(unit);
    size_from_chars(value, u0.as_slice())
}

pub fn size_from_chars(value: Decimal, unit: &[char]) -> (r: Option<u64>)
    requires
        value.wf(),
    ensures
        r == size_bytes(value, unit@),
{
    let t = trim_chars(unit);
    let u = to_lower(t.as_slice());
    let us = u.as_slice();
    let k: u64 = if eq_text(us, "b") || eq_text(us, "bytes") {
        1
    } else if eq_text(us, "kb") {
        1000
    } else if eq_text(us, "kib") {
        1024
    } else if eq_text(us, "mb") {
        1_000_000
    } else if eq_text(us, "mib") {
        1_048_576
    } else if eq_text(us, "gb") {
        1_000_000_000
    } else if eq_text(us, "gib") {
        1_073_741_824
    } else if eq_text(us, "tb") {
        1_000_000_000_000
    } else if eq_text(us, "tib") {
        1_099_511_627_776
    } else {
        return None;
    };
    scale_round(value, k)
}

/// kbit/s in one of a rate unit (already lower-cased and trimmed): the
/// unit is told by its start, `kbit`, `mbit` or `gbit`.
pub open spec fn bitrate_multiplier(u: Seq<char>) -> Option<nat> {
    if occurs_at(u, 0, "kbit"@) {
        Some(1)
    } else if occurs_at(u, 0, "mbit"@) {
        Some(1000)
    } else if occurs_at(u, 0, "gbit"@) {
        Some(1_000_000)
    } else {
        None
    }
}

/// `d` times the whole number `k`, exactly: the mantissa times `k` with the
/// same fraction digits, where that mantissa fits.
pub open spec fn times_exact(d: Decimal, k: nat) -> Option<Decimal> {
    if d.mantissa * k <= u64::MAX {
        Some(Decimal { mantissa: (d.mantissa * k) as u64, scale: d.scale })
    } else {
        None
    }
}

pub fn times_exact_exec(d: Decimal, k: u64) -> (r: Option<Decimal>)
    ensures
        r == times_exact(d, k as nat),
{
    match d.mantissa.checked_mul(k) {
        Some(m) => Some(Decimal { mantissa: m, scale: d.scale }),
        None => None,
    }
}

/// `value` of `unit` in kbit/s, exactly.
pub open spec fn bitrate_kbps(value: Decimal, unit: Seq<char>) -> Option<Decimal> {
    match bitrate_multiplier(lower(trim(unit))) {
        Some(k) => times_exact(value, k),
        None => None,
    }
}

/// A bit rate with its unit, in kbit/s. Nothing is rounded: the result is
/// the value's mantissa times the unit's factor with the value's fraction
/// digits, so dividing it by the factor gives the value back, and a rate in
/// kbit/s comes back as it is.
pub fn parse_bitrate_to_kbps(value: Decimal, unit: &str) -> (r: Option<Decimal>)
    requires
        value.wf(),
    ensures
        r == bitrate_kbps(value, unit@),
        r matches Some(d) ==> d.wf() && d.scale == value.scale && d.mantissa == value.mantissa
            * bitrate_multiplier(lower(trim(unit@)))->0,
        bitrate_multiplier(lower(trim(unit@))) == Some(1nat) ==> r == Some(value),
        bitrate_multiplier(lower(trim(unit@))) matches Some(k) && value.mantissa * k <= u64::MAX
            ==> r is Some,
{
    let u0 = chars_of(unit);
    bitrate_from_chars(value, u0.as_slice())
}

pub fn bitrate_from_chars(value: Decimal, unit: &[char]) -> (r: Option<Decimal>)
    requires
        value.wf(),
    ensures
        r == bitrate_kbps(value, unit@),
        r matches Some(d) ==> d.wf(),
{
    let t = trim_chars(unit);
    let u = to_lower(t.as_slice());
    let kbit = chars_of("kbit");
    let mbit = chars_of("mbit");
    let gbit = chars_of("gbit");
    let k: u64 = if occurs_at_exec(u.as_slice(), 0, kbit.as_slice()) {
        1
    } else if occurs_at_exec(u.as_slice(), 0, mbit.as_slice()) {
        1000
    } else if occurs_at_exec(u.as_slice(), 0, gbit.as_slice()) {
        1_000_000
    } else {
        return None;
    };
    times_exact_exec(value, k)
}

/// How many characters at the start of `s` are digits or dots.
pub open spec fn number_prefix_len(s: Seq<char>) -> nat
    decreases s.len(),
{
    if s.len() > 0 && is_number_char(s[0]) {
        number_prefix_len(s.drop_first()) + 1
    } else {
        0
    }
}

/// `value` cut into its number and its unit, where both are there.
pub open spec fn number_unit_of(value: Seq<char>) -> Option<(Seq<char>, Seq<char>)> {
    let t = trim(value);
    let k = number_prefix_len(t);
    if 0 < k < t.len() {
        Some((t.subrange(0, k as int), trim(t.subrange(k as int, t.len() as int))))
    } else {
        None
    }
}

/// Cuts a value such as `1500.5kbits/s` into its number and its unit.
pub fn split_number_unit(value: &str) -> (r: Option<(String, String)>)
    ensures
        match number_unit_of(value@) {
            Some((n, u)) => r matches Some((rn, ru)) && rn@ == n && ru@ == u,
            None => r is None,
        },
{
    let v = chars_of(value);
    let t = trim_chars(v.as_slice());
    let mut k: usize = 0;
    assert(t@.subrange(0, t@.len() as int) =~= t@);
    while k < t.len() && (('0' <= t[k] && t[k] <= '9') || t[k] == '.')
        invariant
            k <= t.len(),
            number_prefix_len(t@) == k + number_prefix_len(t@.subrange(k as int, t@.len() as int)),
        decreases t.len() - k,
    {
        assert(t@.subrange(k as int, t@.len() as int).drop_first() =~= t@.subrange(
            k + 1,
            t@.len() as int,
        ));
        k = k + 1;
    }
    if k == 0 || k >= t.len() {
        return None;
    }
    let num = sub_chars(t.as_slice(), 0, k);
    let rest = sub_chars(t.as_slice(), k, t.len());
    let unit = trim_chars(rest.as_slice());
    Some((crate::text::string_of(num.as_slice()), crate::text::string_of(unit.as_slice())))
}

/// Normalising loses nothing where the value is whole in the new unit:
/// the result, scaled back by the value's fraction digits, is the mantissa
/// times the unit's factor, so dividing it by the factor gives the value back.
pub proof fn lemma_unit_round_trip(d: Decimal, k: nat)
    requires
        (d.mantissa * k) % (pow10(d.scale as nat) as int) == 0,
    ensures
        round_scaled(d, k) * pow10(d.scale as nat) == d.mantissa * k,
{
    let p = pow10(d.scale as nat) as int;
    lemma_pow10_mono(0, d.scale as nat);
    let x = d.mantissa * k;
    let q = x / p;
    vstd::arithmetic::div_mod::lemma_fundamental_div_mod(x, p);
    assert(x == p * q);
    assert((x + p / 2) / p == q) by {
        vstd::arithmetic::div_mod::lemma_div_multiples_vanish_fancy(q, p / 2, p);
    }
    assert(round_scaled(d, k) == q);
    assert(q * p == x) by (nonlinear_arith)
        requires
            x == p * q,
    ;
}

/// A size whose value is whole in bytes normalises exactly: the bytes,
/// divided by the unit's factor, give the value back.
pub proof fn lemma_size_round_trip(value: Decimal, unit: Seq<char>)
    requires
        value.wf(),
        size_multiplier(lower(trim(unit))) is Some,
        (value.mantissa * size_multiplier(lower(trim(unit)))->0) % (pow10(value.scale as nat) as int)
            == 0,
        value.mantissa * size_multiplier(lower(trim(unit)))->0 <= u64::MAX,
    ensures
        size_bytes(value, unit) matches Some(r) && r * pow10(value.scale as nat) == value.mantissa
            * size_multiplier(lower(trim(unit)))->0,
{
    let k = size_multiplier(lower(trim(unit)))->0;
    let p = pow10(value.scale as nat) as int;
    lemma_unit_round_trip(value, k);
    lemma_pow10_mono(0, value.scale as nat);
    assert(round_scaled(value, k) <= value.mantissa * k) by (nonlinear_arith)
        requires
            round_scaled(value, k) * p == value.mantissa * k,
            p >= 1,
    ;
}

} // verus!
