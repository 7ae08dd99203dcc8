//! Progress samples, from a free-text status line or from the
//! machine-readable `key=value` protocol.
use vstd::prelude::*;
use crate::scan::{find_fragment, find_fragment_exec, ValueKind};
use crate::text::{chars_of, eq_text, index_of, index_of_exec, sub_chars, trim, trim_chars};
use crate::units::{
    bitrate_from_chars, bitrate_kbps, decimal_of, number_unit_of, parse_decimal, parse_u64,
    size_bytes, size_from_chars, split_number_unit, time_from_chars, time_micros, u64_of,
    bitrate_multiplier, dec_or_zero, dec_or_zero_exec, Decimal,
};
use crate::text::lower;

verus! {

/// One progress sample. Frame rate, bit rate (in kbit/s) and speed (a
/// multiple of real time) are the exact decimals the encoder printed.
#[derive(Debug, Clone, Copy, PartialEq, Eq)]
pub struct FfmpegProgress {
    pub frame: u64,
    pub fps: Decimal,
    pub time_us: u64,
    pub bitrate_kbps: Decimal,
    pub speed: Decimal,
    pub size_bytes: u64,
}

/// Progress fields seen so far, each where it was found.
#[derive(Debug, Clone, Copy, PartialEq, Eq)]
pub struct ProgressAccumulator {
    pub frame: Option<u64>,
    pub fps: Option<Decimal>,
    pub time_us: Option<u64>,
    pub bitrate_kbps: Option<Decimal>,
    pub speed: Option<Decimal>,
    pub size_bytes: Option<u64>,
    /// The time came from `out_time_us` or `out_time_ms`, which a later
    /// textual `out_time` does not replace.
    pub time_exact: bool,
}

pub open spec fn or_zero(v: Option<u64>) -> u64 {
    match v {
        Some(x) => x,
        None => 0,
    }
}

pub fn or_zero_exec(v: Option<u64>) -> (r: u64)
    ensures
        r == or_zero(v),
{
    match v {
        Some(x) => x,
        None => 0,
    }
}

impl ProgressAccumulator {
    pub open spec fn empty() -> ProgressAccumulator {
        ProgressAccumulator {
            frame: None,
            fps: None,
            time_us: None,
            bitrate_kbps: None,
            speed: None,
            size_bytes: None,
            time_exact: false,
        }
    }

    /// No field was found.
    pub open spec fn is_blank(self) -> bool {
        self.frame is None && self.fps is None && self.time_us is None && self.bitrate_kbps is None
            && self.speed is None && self.size_bytes is None
    }

    /// The sample these fields make, missing ones as zero; none where no field was found.
    pub open spec fn sample(self) -> Option<FfmpegProgress> {
        if self.is_blank() {
            None
        } else {
            Some(
                FfmpegProgress {
                    frame: or_zero(self.frame),
                    fps: dec_or_zero(self.fps),
                    time_us: or_zero(self.time_us),
                    bitrate_kbps: dec_or_zero(self.bitrate_kbps),
                    speed: dec_or_zero(self.speed),
                    size_bytes: or_zero(self.size_bytes),
                },
            )
        }
    }

    pub fn new() -> (r: ProgressAccumulator)
        ensures
            r == ProgressAccumulator::empty(),
    {
        ProgressAccumulator {
            frame: None,
            fps: None,
            time_us: None,
            bitrate_kbps: None,
            speed: None,
            size_bytes: None,
            time_exact: false,
        }
    }

    pub fn to_progress(&self) -> (r: Option<FfmpegProgress>)
        ensures
            r == self.sample(),
    {
        if self.frame.is_none() && self.fps.is_none() && self.time_us.is_none()
            && self.bitrate_kbps.is_none() && self.speed.is_none() && self.size_bytes.is_none() {
            return None;
        }
        Some(
            FfmpegProgress {
                frame: or_zero_exec(self.frame),
                fps: dec_or_zero_exec(self.fps),
                time_us: or_zero_exec(self.time_us),
                bitrate_kbps: dec_or_zero_exec(self.bitrate_kbps),
                speed: dec_or_zero_exec(self.speed),
                size_bytes: or_zero_exec(self.size_bytes),
            },
        )
    }

    pub fn reset(&mut self)
        ensures
            *final(self) == ProgressAccumulator::empty(),
    {
        *self = ProgressAccumulator::new();
    }
}

/// The text of `s` from `a` up to `b`.
pub open spec fn cut(s: Seq<char>, a: int, b: int) -> Seq<char> {
    s.subrange(a, b)
}

/// `key` followed by digits, read as an integer.
pub open spec fn count_field(s: Seq<char>, key: Seq<char>) -> Option<u64> {
    match find_fragment(s, key, ValueKind::Count) {
        Some(c) => u64_of(cut(s, c.0, c.1)),
        None => None,
    }
}

/// `key` followed by a number (`Number`) or a number and `x` (`Speed`).
pub open spec fn number_field(s: Seq<char>, key: Seq<char>, kind: ValueKind) -> Option<Decimal> {
    match find_fragment(s, key, kind) {
        Some(c) => decimal_of(cut(s, c.0, c.1)),
        None => None,
    }
}

/// `key` followed by a time, in microseconds.
pub open spec fn time_field(s: Seq<char>, key: Seq<char>) -> Option<u64> {
    match find_fragment(s, key, ValueKind::Clock) {
        Some(c) => time_micros(cut(s, c.0, c.1)),
        None => None,
    }
}

/// `key` followed by a bit rate, in kbit/s.
pub open spec fn rate_field(s: Seq<char>, key: Seq<char>) -> Option<Decimal> {
    match find_fragment(s, key, ValueKind::Rate) {
        Some(c) => match decimal_of(cut(s, c.0, c.1)) {
            Some(d) => bitrate_kbps(d, cut(s, c.2, c.3)),
            None => None,
        },
        None => None,
    }
}

/// `key` followed by a size, in bytes.
pub open spec fn size_field(s: Seq<char>, key: Seq<char>) -> Option<u64> {
    match find_fragment(s, key, ValueKind::Size) {
        Some(c) => match decimal_of(cut(s, c.0, c.1)) {
            Some(d) => size_bytes(d, cut(s, c.2, c.3)),
            None => None,
        },
        None => None,
    }
}

pub fn count_field_exec(s: &[char], key: &str) -> (r: Option<u64>)
    ensures
        r == count_field(s@, key@),
{
    match find_fragment_exec(s, key, ValueKind::Count) {
        Some(c) => {
            let t = sub_chars(s, c.start, c.end);
            parse_u64(t.as_slice())
        },
        None => None,
    }
}

pub fn number_field_exec(s: &[char], key: &str, kind: ValueKind) -> (r: Option<Decimal>)
    ensures
        r == number_field(s@, key@, kind),
        r matches Some(d) ==> d.wf(),
{
    match find_fragment_exec(s, key, kind) {
        Some(c) => {
            let t = sub_chars(s, c.start, c.end);
            parse_decimal(t.as_slice())
        },
        None => None,
    }
}

pub fn time_field_exec(s: &[char], key: &str) -> (r: Option<u64>)
    ensures
        r == time_field(s@, key@),
{
    match find_fragment_exec(s, key, ValueKind::Clock) {
        Some(c) => {
            let t = sub_chars(s, c.start, c.end);
            time_from_chars(t.as_slice())
        },
        None => None,
    }
}

pub fn rate_field_exec(s: &[char], key: &str) -> (r: Option<Decimal>)
    ensures
        r == rate_field(s@, key@),
{
    match find_fragment_exec(s, key, ValueKind::Rate) {
        Some(c) => {
            let t = sub_chars(s, c.start, c.end);
            match parse_decimal(t.as_slice()) {
                Some(d) => {
                    let u = sub_chars(s, c.unit_start, c.unit_end);
                    bitrate_from_chars(d, u.as_slice())
                },
                None => None,
            }
        },
        None => None,
    }
}

pub fn size_field_exec(s: &[char], key: &str) -> (r: Option<u64>)
    ensures
        r == size_field(s@, key@),
{
    match find_fragment_exec(s, key, ValueKind::Size) {
        Some(c) => {
            let t = sub_chars(s, c.start, c.end);
            match parse_decimal(t.as_slice()) {
                Some(d) => {
                    let u = sub_chars(s, c.unit_start, c.unit_end);
                    size_from_chars(d, u.as_slice())
                },
                None => None,
            }
        },
        None => None,
    }
}

/// The fields of a free-text status line such as
/// `frame=  100 fps=25 size=256kB time=00:00:04.00 bitrate=1000.0kbits/s speed=2x`.
pub open spec fn line_fields(s: Seq<char>) -> ProgressAccumulator {
    ProgressAccumulator {
        frame: count_field(s, "frame="@),
        fps: number_field(s, "fps="@, ValueKind::Number),
        time_us: time_field(s, "time="@),
        bitrate_kbps: rate_field(s, "bitrate="@),
        speed: number_field(s, "speed="@, ValueKind::Speed),
        size_bytes: size_field(s, "size="@),
        time_exact: false,
    }
}

/// The sample of a free-text status line, where it names any progress field.
pub open spec fn progress_of_line(s: Seq<char>) -> Option<FfmpegProgress> {
    line_fields(s).sample()
}

pub fn line_fields_exec(s: &[char]) -> (r: ProgressAccumulator)
    ensures
        r == line_fields(s@),
{
    ProgressAccumulator {
        frame: count_field_exec(s, "frame="),
        fps: number_field_exec(s, "fps=", ValueKind::Number),
        time_us: time_field_exec(s, "time="),
        bitrate_kbps: rate_field_exec(s, "bitrate="),
        speed: number_field_exec(s, "speed=", ValueKind::Speed),
        size_bytes: size_field_exec(s, "size="),
        time_exact: false,
    }
}

/// Reads a free-text status line; nothing where it names no progress field.
pub fn parse_progress_line(line: &str) -> (r: Option<FfmpegProgress>)
    ensures
        r == progress_of_line(line@),
{
    let s = chars_of(line);
    let f = line_fields_exec(s.as_slice());
    f.to_progress()
}

/// `s` without the `x`s at its end.
pub open spec fn trim_x_end(s: Seq<char>) -> Seq<char>
    decreases s.len(),
{
    if s.len() > 0 && s.last() == 'x' {
        trim_x_end(s.drop_last())
    } else {
        s
    }
}

impl ProgressAccumulator {
    /// The fields after one `key=value` line of the progress protocol.
    /// A value that does not read leaves its field absent, but for
    /// `bitrate`, `out_time_ms` and `out_time_us`, which then change nothing.
    pub open spec fn with_kv(self, key: Seq<char>, value: Seq<char>) -> ProgressAccumulator {
        let v = trim(value);
        if key == "frame"@ {
            ProgressAccumulator { frame: u64_of(v), ..self }
        } else if key == "fps"@ {
            ProgressAccumulator { fps: decimal_of(v), ..self }
        } else if key == "bitrate"@ {
            match number_unit_of(value) {
                Some((n, u)) => match decimal_of(n) {
                    Some(d) => ProgressAccumulator {
                        bitrate_kbps: bitrate_kbps(d, u),
                        ..self
                    },
                    None => self,
                },
                None => self,
            }
        } else if key == "speed"@ {
            ProgressAccumulator { speed: decimal_of(trim_x_end(v)), ..self }
        } else if key == "total_size"@ || key == "size"@ {
            ProgressAccumulator { size_bytes: u64_of(v), ..self }
        } else if key == "out_time"@ {
            if self.time_exact {
                self
            } else {
                ProgressAccumulator { time_us: time_micros(v), ..self }
            }
        } else if key == "out_time_ms"@ || key == "out_time_us"@ {
            match u64_of(v) {
                Some(t) => ProgressAccumulator { time_us: Some(t), time_exact: true, ..self },
                None => self,
            }
        } else {
            self
        }
    }

    /// Takes one `key=value` pair of the progress protocol.
    pub fn set_kv(&mut self, key: &str, value: &str)
        ensures
            *final(self) == old(self).with_kv(key@, value@),
    {
        let k = chars_of(key);
        let ks = k.as_slice();
        let v0 = chars_of(value);
        let v = trim_chars(v0.as_slice());
        if eq_text(ks, "frame") {
            self.frame = parse_u64(v.as_slice());
        } else if eq_text(ks, "fps") {
            self.fps = parse_decimal(v.as_slice());
        } else if eq_text(ks, "bitrate") {
            if let Some((num, unit)) = split_number_unit(value) {
                let n = chars_of(num.as_str());
                if let Some(d) = parse_decimal(n.as_slice()) {
                    let u = chars_of(unit.as_str());
                    self.bitrate_kbps = bitrate_from_chars(d, u.as_slice());
                }
            }
        } else if eq_text(ks, "speed") {
            let mut e: usize = v.len();
            assert(v@.subrange(0, e as int) =~= v@);
            while e > 0 && v[e - 1] == 'x'
                invariant
                    e <= v.len(),
                    trim_x_end(v@) == trim_x_end(v@.subrange(0, e as int)),
                decreases e,
            {
                assert(v@.subrange(0, e as int).drop_last() =~= v@.subrange(0, e - 1));
                e = e - 1;
            }
            let t = sub_chars(v.as_slice(), 0, e);
            self.speed = parse_decimal(t.as_slice());
        } else if eq_text(ks, "total_size") || eq_text(ks, "size") {
            self.size_bytes = parse_u64(v.as_slice());
        } else if eq_text(ks, "out_time") {
            if !self.time_exact {
                self.time_us = time_from_chars(v.as_slice());
            }
        } else if eq_text(ks, "out_time_ms") || eq_text(ks, "out_time_us") {
            if let Some(t) = parse_u64(v.as_slice()) {
                self.time_us = Some(t);
                self.time_exact = true;
            }
        }
    }
}

/// One line of the progress protocol: a `progress=...` line hands out the
/// sample gathered so far and starts a new one; another `key=value` line
/// adds to it; a line without `=` is read as a free-text status line.
pub open spec fn kv_step(acc: ProgressAccumulator, line: Seq<char>) -> (
    ProgressAccumulator,
    Option<FfmpegProgress>,
) {
    let t = trim(line);
    if t.len() == 0 {
        (acc, None)
    } else {
        match index_of(t, '=') {
            Some(p) => {
                let key = t.subrange(0, p);
                let value = t.subrange(p + 1, t.len() as int);
                if key == "progress"@ {
                    (ProgressAccumulator::empty(), acc.sample())
                } else {
                    (acc.with_kv(trim(key), trim(value)), None)
                }
            },
            None => (acc, progress_of_line(t)),
        }
    }
}

/// Reads one line of the machine-readable progress stream into `acc`.
pub fn parse_progress_kv_line(line: &str, acc: &mut ProgressAccumulator) -> (r: Option<
    FfmpegProgress,
>)
    ensures
        (*final(acc), r) == kv_step(*old(acc), line@),
{
    let l = chars_of(line);
    let t = trim_chars(l.as_slice());
    if t.len() == 0 {
        return None;
    }
    match index_of_exec(t.as_slice(), '=') {
        Some(p) => {
            let key = sub_chars(t.as_slice(), 0, p);
            let value = sub_chars(t.as_slice(), p + 1, t.len());
            if eq_text(key.as_slice(), "progress") {
                let r = acc.to_progress();
                acc.reset();
                r
            } else {
                let k = trim_chars(key.as_slice());
                let v = trim_chars(value.as_slice());
                let ks = crate::text::string_of(k.as_slice());
                let vs = crate::text::string_of(v.as_slice());
                acc.set_kv(ks.as_str(), vs.as_str());
                None
            }
        },
        None => {
            let f = line_fields_exec(t.as_slice());
            f.to_progress()
        },
    }
}

/// A `bitrate=<number><unit>` pair of the progress protocol records the
/// rate exactly, whatever its fraction digits: the recorded kbit/s have the
/// number's fraction digits and its mantissa times the unit's factor, so
/// dividing by the factor gives the number back.
pub proof fn lemma_kv_bitrate_round_trip(acc: ProgressAccumulator, value: Seq<char>)
    requires
        number_unit_of(value) is Some,
        decimal_of((number_unit_of(value)->0).0) is Some,
        bitrate_multiplier(lower(trim((number_unit_of(value)->0).1))) is Some,
        decimal_of((number_unit_of(value)->0).0)->0.mantissa * bitrate_multiplier(
            lower(trim((number_unit_of(value)->0).1)),
        )->0 <= u64::MAX,
    ensures
        ({
            let d = decimal_of((number_unit_of(value)->0).0)->0;
            let k = bitrate_multiplier(lower(trim((number_unit_of(value)->0).1)))->0;
            acc.with_kv("bitrate"@, value).bitrate_kbps matches Some(r) && r.scale == d.scale
                && r.mantissa == d.mantissa * k
        }),
{
    let d = decimal_of((number_unit_of(value)->0).0)->0;
    let u = (number_unit_of(value)->0).1;
    reveal_strlit("bitrate");
    reveal_strlit("frame");
    reveal_strlit("fps");
    assert("bitrate"@ != "frame"@) by {
        assert("bitrate"@.len() != "frame"@.len());
    }
    assert("bitrate"@ != "fps"@) by {
        assert("bitrate"@.len() != "fps"@.len());
    }
    assert(acc.with_kv("bitrate"@, value).bitrate_kbps == bitrate_kbps(d, u));
}

} // verus!
