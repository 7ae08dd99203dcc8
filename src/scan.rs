//! Finding `key=value` fragments in a line.
//!
//! A fragment is a key (such as `frame=`), optional white space, and a value
//! whose shape depends on the key. A key counts only where it starts a token,
//! at the start of the line or after white space, so `size=` is not found in
//! `Lsize=`. A line is searched from the left, and the first position where
//! the whole fragment stands is the one that counts. Runs of characters are
//! taken greedily.
use vstd::prelude::*;
use crate::text::{chars_of, is_ascii_letter, is_digit, is_ws, is_ws_char, occurs_at, occurs_at_exec};

verus! {

/// The classes of characters that make up values.
#[derive(Debug, Clone, Copy, PartialEq, Eq)]
pub enum CharClass {
    Space,
    Digit,
    /// Letters, for size units such as `kB`.
    Letter,
    /// Letters and `/`, for rate units such as `kbits/s`.
    RateUnit,
    /// Digits, `:` and `.`, for times such as `00:01:02.50`.
    Clock,
    /// Anything but `,`.
    NotComma,
    /// Anything but `'`.
    NotQuote,
}

pub open spec fn in_class(cl: CharClass, c: char) -> bool {
    match cl {
        CharClass::Space => is_ws(c),
        CharClass::Digit => is_digit(c),
        CharClass::Letter => is_ascii_letter(c),
        CharClass::RateUnit => is_ascii_letter(c) || c == '/',
        CharClass::Clock => is_digit(c) || c == ':' || c == '.',
        CharClass::NotComma => c != ',',
        CharClass::NotQuote => c != '\'',
    }
}

pub fn in_class_exec(cl: CharClass, c: char) -> (r: bool)
    ensures
        r == in_class(cl, c),
{
    match cl {
        CharClass::Space => is_ws_char(c),
        CharClass::Digit => '0' <= c && c <= '9',
        CharClass::Letter => ('A' <= c && c <= 'Z') || ('a' <= c && c <= 'z'),
        CharClass::RateUnit => ('A' <= c && c <= 'Z') || ('a' <= c && c <= 'z') || c == '/',
        CharClass::Clock => ('0' <= c && c <= '9') || c == ':' || c == '.',
        CharClass::NotComma => c != ',',
        CharClass::NotQuote => c != '\'',
    }
}

/// How many characters of class `cl` stand in a row in `s` from index `i`.
pub open spec fn run_len(s: Seq<char>, i: int, cl: CharClass) -> nat
    decreases s.len() - i,
{
    if 0 <= i < s.len() && in_class(cl, s[i]) {
        run_len(s, i + 1, cl) + 1
    } else {
        0
    }
}

pub proof fn lemma_run_chars(s: Seq<char>, i: int, cl: CharClass)
    requires
        0 <= i,
    ensures
        i + run_len(s, i, cl) <= s.len() || run_len(s, i, cl) == 0,
        forall|k: int| i <= k < i + run_len(s, i, cl) ==> k < s.len() && #[trigger] in_class(cl, s[k]),
    decreases s.len() - i,
{
    if 0 <= i < s.len() && in_class(cl, s[i]) {
        lemma_run_chars(s, i + 1, cl);
    }
}

/// Where the run of class `cl` that starts at `i` ends.
pub fn run_end(s: &[char], i: usize, cl: CharClass) -> (r: usize)
    requires
        i <= s.len(),
    ensures
        r == i + run_len(s@, i as int, cl),
        r <= s.len(),
{
    let mut k: usize = i;
    while k < s.len() && in_class_exec(cl, s[k])
        invariant
            i <= k <= s.len(),
            run_len(s@, i as int, cl) == (k - i) + run_len(s@, k as int, cl),
        decreases s.len() - k,
    {
        k = k + 1;
    }
    k
}

/// The end of the number that starts at `j`, taken greedily: digits, then
/// a dot and digits where digits follow the dot.
pub open spec fn number_end(s: Seq<char>, j: int) -> Option<int> {
    let a = j + run_len(s, j, CharClass::Digit);
    let b = run_len(s, a + 1, CharClass::Digit);
    if a < s.len() && s[a] == '.' && b > 0 {
        Some(a + 1 + b)
    } else if a > j {
        Some(a)
    } else {
        None
    }
}

pub fn number_end_exec(s: &[char], j: usize) -> (r: Option<usize>)
    requires
        j <= s.len(),
    ensures
        match number_end(s@, j as int) {
            Some(e) => r == Some(e as usize) && j < e <= s.len(),
            None => r is None,
        },
{
    let a = run_end(s, j, CharClass::Digit);
    if a < s.len() && s[a] == '.' {
        let b = run_end(s, a + 1, CharClass::Digit);
        if b > a + 1 {
            return Some(b);
        }
    }
    if a > j {
        Some(a)
    } else {
        None
    }
}

/// The shapes of value that follow a key.
#[derive(Debug, Clone, Copy, PartialEq, Eq)]
pub enum ValueKind {
    /// One or more digits (`frame=  120`).
    Count,
    /// A number (`fps=29.97`).
    Number,
    /// A number followed at once by `x` (`speed=1.5x`).
    Speed,
    /// Digits, colons and dots (`time=00:00:04.00`).
    Clock,
    /// A number, optional space, and a unit of letters and `/` (`bitrate=900.1kbits/s`).
    Rate,
    /// A number, optional space, and a unit of letters (`size=256kB`).
    Size,
    /// A number, optional space, and `kb/s` (`bitrate: 1205 kb/s`).
    Kbps,
}

/// Where a fragment's value stands: the value from `.0` up to `.1`, its
/// unit (for `Rate` and `Size`) from `.2` up to `.3`.
pub type Span4 = (int, int, int, int);

/// The value of a fragment whose key ends just before `j`.
pub open spec fn value_at(s: Seq<char>, j: int, kind: ValueKind) -> Option<Span4> {
    let v = j + run_len(s, j, CharClass::Space);
    match kind {
        ValueKind::Count => {
            let e = v + run_len(s, v, CharClass::Digit);
            if e > v {
                Some((v, e, e, e))
            } else {
                None
            }
        },
        ValueKind::Clock => {
            let e = v + run_len(s, v, CharClass::Clock);
            if e > v {
                Some((v, e, e, e))
            } else {
                None
            }
        },
        ValueKind::Number => match number_end(s, v) {
            Some(e) => Some((v, e, e, e)),
            None => None,
        },
        ValueKind::Speed => match number_end(s, v) {
            Some(e) => if e < s.len() && s[e] == 'x' {
                Some((v, e, e, e))
            } else {
                None
            },
            None => None,
        },
        ValueKind::Rate => match number_end(s, v) {
            Some(e) => {
                let u = e + run_len(s, e, CharClass::Space);
                let n = run_len(s, u, CharClass::RateUnit);
                if n > 0 {
                    Some((v, e, u, u + n))
                } else {
                    None
                }
            },
            None => None,
        },
        ValueKind::Size => match number_end(s, v) {
            Some(e) => {
                let u = e + run_len(s, e, CharClass::Space);
                let n = run_len(s, u, CharClass::Letter);
                if n > 0 {
                    Some((v, e, u, u + n))
                } else {
                    None
                }
            },
            None => None,
        },
        ValueKind::Kbps => match number_end(s, v) {
            Some(e) => if occurs_at(s, e + run_len(s, e, CharClass::Space), "kb/s"@) {
                Some((v, e, e, e))
            } else {
                None
            },
            None => None,
        },
    }
}

/// Index `i` starts a token of `s`: it is the first index or follows white space.
pub open spec fn token_start(s: Seq<char>, i: int) -> bool {
    i == 0 || (0 < i <= s.len() && is_ws(s[i - 1]))
}

/// The fragment `key` + value, where it stands at index `i` as a token.
pub open spec fn fragment_at(s: Seq<char>, i: int, key: Seq<char>, kind: ValueKind) -> Option<
    Span4,
> {
    if token_start(s, i) && occurs_at(s, i, key) {
        value_at(s, i + key.len(), kind)
    } else {
        None
    }
}

/// The leftmost fragment `key` + value at or after index `from`.
pub open spec fn first_fragment(s: Seq<char>, key: Seq<char>, kind: ValueKind, from: int) -> Option<
    Span4,
>
    decreases s.len() - from,
{
    if from < 0 || from >= s.len() {
        None
    } else {
        match fragment_at(s, from, key, kind) {
            Some(c) => Some(c),
            None => first_fragment(s, key, kind, from + 1),
        }
    }
}

/// The leftmost fragment `key` + value in `s`.
pub open spec fn find_fragment(s: Seq<char>, key: Seq<char>, kind: ValueKind) -> Option<Span4> {
    first_fragment(s, key, kind, 0)
}

/// Where a fragment's value (and unit) stand in a line.
#[derive(Debug, Clone, Copy, PartialEq, Eq)]
pub struct Capture {
    pub start: usize,
    pub end: usize,
    pub unit_start: usize,
    pub unit_end: usize,
}

impl Capture {
    pub open spec fn span(self) -> Span4 {
        (self.start as int, self.end as int, self.unit_start as int, self.unit_end as int)
    }

    pub open spec fn within(self, n: int) -> bool {
        self.start <= self.end <= self.unit_start <= self.unit_end <= n
    }
}

pub open spec fn captured(r: Option<Capture>, c: Option<Span4>, n: int) -> bool {
    match c {
        Some(sp) => r matches Some(x) && x.span() == sp && x.within(n),
        None => r is None,
    }
}

pub fn value_at_exec(s: &[char], j: usize, kind: ValueKind) -> (r: Option<Capture>)
    requires
        j <= s.len(),
    ensures
        captured(r, value_at(s@, j as int, kind), s.len() as int),
{
    let v = run_end(s, j, CharClass::Space);
    match kind {
        ValueKind::Count => {
            let e = run_end(s, v, CharClass::Digit);
            if e > v {
                Some(Capture { start: v, end: e, unit_start: e, unit_end: e })
            } else {
                None
            }
        },
        ValueKind::Clock => {
            let e = run_end(s, v, CharClass::Clock);
            if e > v {
                Some(Capture { start: v, end: e, unit_start: e, unit_end: e })
            } else {
                None
            }
        },
        ValueKind::Number => match number_end_exec(s, v) {
            Some(e) => Some(Capture { start: v, end: e, unit_start: e, unit_end: e }),
            None => None,
        },
        ValueKind::Speed => match number_end_exec(s, v) {
            Some(e) => if e < s.len() && s[e] == 'x' {
                Some(Capture { start: v, end: e, unit_start: e, unit_end: e })
            } else {
                None
            },
            None => None,
        },
        ValueKind::Rate => match number_end_exec(s, v) {
            Some(e) => {
                let u = run_end(s, e, CharClass::Space);
                let n = run_end(s, u, CharClass::RateUnit);
                if n > u {
                    Some(Capture { start: v, end: e, unit_start: u, unit_end: n })
                } else {
                    None
                }
            },
            None => None,
        },
        ValueKind::Size => match number_end_exec(s, v) {
            Some(e) => {
                let u = run_end(s, e, CharClass::Space);
                let n = run_end(s, u, CharClass::Letter);
                if n > u {
                    Some(Capture { start: v, end: e, unit_start: u, unit_end: n })
                } else {
                    None
                }
            },
            None => None,
        },
        ValueKind::Kbps => match number_end_exec(s, v) {
            Some(e) => {
                let u = run_end(s, e, CharClass::Space);
                let k = chars_of("kb/s");
                if occurs_at_exec(s, u, k.as_slice()) {
                    Some(Capture { start: v, end: e, unit_start: e, unit_end: e })
                } else {
                    None
                }
            },
            None => None,
        },
    }
}

/// The leftmost fragment `key` + value in `s`.
pub fn find_fragment_exec(s: &[char], key: &str, kind: ValueKind) -> (r: Option<Capture>)
    ensures
        captured(r, find_fragment(s@, key@, kind), s.len() as int),
{
    let k = chars_of(key);
    let mut i: usize = 0;
    while i < s.len()
        invariant
            i <= s.len(),
            k@ == key@,
            find_fragment(s@, key@, kind) == first_fragment(s@, key@, kind, i as int),
        decreases s.len() - i,
    {
        let at_token = i == 0 || is_ws_char(s[i - 1]);
        if at_token && occurs_at_exec(s, i, k.as_slice()) {
            let r = value_at_exec(s, i + k.len(), kind);
            if r.is_some() {
                return r;
            }
        }
        i = i + 1;
    }
    None
}

} // verus!
