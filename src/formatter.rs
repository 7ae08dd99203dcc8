//! One-line texts for the session history.
use vstd::prelude::*;
use crate::metadata::{InputInfo, OutputInfo};
use crate::progress::FfmpegProgress;
use crate::summary::EncodeSummary;
use crate::text::{chars_of, string_of};
use crate::units::{pow10, round_scaled, Decimal};

verus! {

pub open spec fn digit_char(d: nat) -> char {
    ((d % 10) + 48) as char
}

/// `n` in decimal digits.
pub open spec fn decimal(n: nat) -> Seq<char>
    decreases n,
{
    if n < 10 {
        seq![digit_char(n)]
    } else {
        decimal(n / 10).push(digit_char(n % 10))
    }
}

/// `n` in at least two decimal digits.
pub open spec fn pad2(n: nat) -> Seq<char> {
    if n < 10 {
        seq!['0', digit_char(n)]
    } else {
        decimal(n)
    }
}

/// `n` hundredths as `I.FF`.
pub open spec fn fixed2(n: nat) -> Seq<char> {
    decimal(n / 100) + seq!['.'] + pad2(n % 100)
}

/// `n` tenths as `I.F`.
pub open spec fn fixed1(n: nat) -> Seq<char> {
    decimal(n / 10) + seq!['.', digit_char(n % 10)]
}

/// `num / den` rounded half up.
pub open spec fn div_round(num: nat, den: nat) -> nat {
    if den == 0 {
        0
    } else {
        (num + den / 2) / den
    }
}

/// Appends the decimal digits of `n` to `out`.
pub fn push_decimal(out: &mut Vec<char>, n: u128)
    ensures
        final(out)@ == old(out)@ + decimal(n as nat),
    decreases n,
{
    if n >= 10 {
        push_decimal(out, n / 10);
    }
    let d = (n % 10) as u8;
    out.push((d + 48) as char);
    proof {
        if n >= 10 {
            assert(decimal(n as nat) == decimal((n / 10) as nat).push(digit_char((n % 10) as nat)));
        }
    }
    assert(final(out)@ =~= old(out)@ + decimal(n as nat));
}

pub fn push_pad2(out: &mut Vec<char>, n: u128)
    ensures
        final(out)@ == old(out)@ + pad2(n as nat),
{
    if n < 10 {
        out.push('0');
    }
    push_decimal(out, n);
    assert(final(out)@ =~= old(out)@ + pad2(n as nat));
}

pub fn push_text(out: &mut Vec<char>, t: &str)
    ensures
        final(out)@ == old(out)@ + t@,
{
    let c = chars_of(t);
    push_chars(out, c.as_slice());
}

pub fn push_chars(out: &mut Vec<char>, c: &[char])
    ensures
        final(out)@ == old(out)@ + c@,
{
    let ghost start = out@;
    let mut i: usize = 0;
    while i < c.len()
        invariant
            i <= c.len(),
            out@ == start + c@.subrange(0, i as int),
        decreases c.len() - i,
    {
        out.push(c[i]);
        i = i + 1;
        assert(out@ =~= start + c@.subrange(0, i as int));
    }
    assert(c@.subrange(0, c.len() as int) =~= c@);
}

pub fn push_fixed2(out: &mut Vec<char>, n: u128)
    ensures
        final(out)@ == old(out)@ + fixed2(n as nat),
{
    let ghost start = out@;
    push_decimal(out, n / 100);
    out.push('.');
    push_pad2(out, n % 100);
    assert(out@ =~= start + fixed2(n as nat));
}

pub fn push_fixed1(out: &mut Vec<char>, n: u128)
    ensures
        final(out)@ == old(out)@ + fixed1(n as nat),
{
    let ghost start = out@;
    push_decimal(out, n / 10);
    out.push('.');
    out.push(((n % 10) as u8 + 48) as char);
    assert(out@ =~= start + fixed1(n as nat));
}

/// A duration in whole seconds as `HH:MM:SS`.
pub open spec fn duration_text(us: nat) -> Seq<char> {
    let secs = us / 1_000_000;
    pad2(secs / 3600) + seq![':'] + pad2((secs % 3600) / 60) + seq![':'] + pad2(secs % 60)
}

/// Writes a duration given in microseconds as `HH:MM:SS`, fractions of a second dropped.
pub fn format_duration(duration_us: u64) -> (r: String)
    ensures
        r@ == duration_text(duration_us as nat),
{
    let secs = duration_us / 1_000_000;
    let mut out: Vec<char> = Vec::new();
    push_pad2(&mut out, (secs / 3600) as u128);
    out.push(':');
    push_pad2(&mut out, ((secs % 3600) / 60) as u128);
    out.push(':');
    push_pad2(&mut out, (secs % 60) as u128);
    assert(out@ =~= duration_text(duration_us as nat));
    string_of(out.as_slice())
}

pub const KIB: u64 = 1024;

pub const MIB: u64 = 1_048_576;

pub const GIB: u64 = 1_073_741_824;

/// A byte count with two decimals in the largest binary unit that it
/// reaches (`1.50 MB`), or as whole bytes below one KB (`512 B`).
pub open spec fn bytes_text(b: nat) -> Seq<char> {
    if b >= GIB {
        fixed2(div_round(b * 100, GIB as nat)) + " GB"@
    } else if b >= MIB {
        fixed2(div_round(b * 100, MIB as nat)) + " MB"@
    } else if b >= KIB {
        fixed2(div_round(b * 100, KIB as nat)) + " KB"@
    } else {
        decimal(b) + " B"@
    }
}

pub fn format_bytes(bytes: u64) -> (r: String)
    ensures
        r@ == bytes_text(bytes as nat),
{
    let mut out: Vec<char> = Vec::new();
    let (unit, name) = if bytes >= GIB {
        (GIB, " GB")
    } else if bytes >= MIB {
        (MIB, " MB")
    } else if bytes >= KIB {
        (KIB, " KB")
    } else {
        (1, " B")
    };
    if unit == 1 {
        push_decimal(&mut out, bytes as u128);
    } else {
        let h = ((bytes as u128 * 100 + (unit / 2) as u128) / unit as u128) as u64;
        assert(h == div_round(bytes as nat * 100, unit as nat));
        push_fixed2(&mut out, h as u128);
    }
    push_text(&mut out, name);
    string_of(out.as_slice())
}

pub open spec fn text_or(o: Option<Seq<char>>, dflt: Seq<char>) -> Seq<char> {
    match o {
        Some(t) => t,
        None => dflt,
    }
}

pub open spec fn nonempty_or(t: Seq<char>, dflt: Seq<char>) -> Seq<char> {
    if t.len() == 0 {
        dflt
    } else {
        t
    }
}

/// `WxH`, or `unknown` where either is zero.
pub open spec fn resolution_text(w: u32, h: u32) -> Seq<char> {
    if w > 0 && h > 0 {
        decimal(w as nat) + seq!['x'] + decimal(h as nat)
    } else {
        "unknown"@
    }
}

/// `Output : <path> (<container>/<codec> <resolution>)`, with `output` for
/// an unknown path and `unknown` for any other unknown part.
pub open spec fn output_line_text(
    path: Seq<char>,
    container: Seq<char>,
    codec: Seq<char>,
    w: u32,
    h: u32,
) -> Seq<char> {
    "Output : "@ + nonempty_or(path, "output"@) + " ("@ + nonempty_or(container, "unknown"@)
        + "/"@ + nonempty_or(codec, "unknown"@) + " "@ + resolution_text(w, h) + ")"@
}

fn push_resolution(out: &mut Vec<char>, w: u32, h: u32)
    ensures
        final(out)@ == old(out)@ + resolution_text(w, h),
{
    let ghost start = out@;
    if w > 0 && h > 0 {
        push_decimal(out, w as u128);
        out.push('x');
        push_decimal(out, h as u128);
        assert(out@ =~= start + resolution_text(w, h));
    } else {
        push_text(out, "unknown");
    }
}

fn push_or(out: &mut Vec<char>, t: &str, dflt: &str)
    ensures
        final(out)@ == old(out)@ + nonempty_or(t@, dflt@),
{
    let c = chars_of(t);
    if c.len() == 0 {
        push_text(out, dflt);
    } else {
        push_chars(out, c.as_slice());
    }
}

pub fn format_output_line(info: &OutputInfo) -> (r: String)
    ensures
        r@ == output_line_text(info.path@, info.container@, info.codec@, info.width, info.height),
{
    let mut out: Vec<char> = Vec::new();
    push_text(&mut out, "Output : ");
    push_or(&mut out, info.path.as_str(), "output");
    push_text(&mut out, " (");
    push_or(&mut out, info.container.as_str(), "unknown");
    push_text(&mut out, "/");
    push_or(&mut out, info.codec.as_str(), "unknown");
    push_text(&mut out, " ");
    push_resolution(&mut out, info.width, info.height);
    push_text(&mut out, ")");
    assert(out@ =~= output_line_text(info.path@, info.container@, info.codec@, info.width, info.height));
    string_of(out.as_slice())
}

/// The frame rate with two decimals (`F.FFfps`), or `unknown fps`.
pub open spec fn fps_text(fps: Decimal) -> Seq<char> {
    if fps.mantissa > 0 {
        fixed2(round_scaled(fps, 100)) + "fps"@
    } else {
        "unknown fps"@
    }
}

/// A bit rate with one decimal (`R.R kb/s`), or `unknown`.
pub open spec fn kbps_text(b: Option<Decimal>) -> Seq<char> {
    match b {
        Some(d) => fixed1(round_scaled(d, 10)) + " kb/s"@,
        None => "unknown"@,
    }
}

/// `10^n` for up to 22 digits.
fn pow10_wide(n: u32) -> (r: u128)
    requires
        n <= 22,
    ensures
        r == pow10(n as nat),
{
    let mut p: u128 = 1;
    let mut i: u32 = 0;
    proof {
        reveal_with_fuel(pow10, 23);
        crate::units::lemma_pow10_mono(0, 22);
    }
    while i < n
        invariant
            i <= n <= 22,
            p == pow10(i as nat),
            pow10(22) == 10000000000000000000000nat,
        decreases n - i,
    {
        proof {
            crate::units::lemma_pow10_mono((i + 1) as nat, 22);
        }
        p = p * 10;
        i = i + 1;
    }
    p
}

/// `d * k` rounded half up, for display, whatever the fraction digits.
fn round_wide(d: Decimal, k: u64) -> (r: u128)
    requires
        1 <= k <= 1000,
    ensures
        r == round_scaled(d, k as nat),
{
    let m = d.mantissa as u128;
    assert(m * (k as u128) <= 0xffff_ffff_ffff_ffffu128 * 1000) by (nonlinear_arith)
        requires
            m <= 0xffff_ffff_ffff_ffffu128,
            k <= 1000,
    ;
    let x = m * (k as u128);
    if d.scale > 22 {
        proof {
            reveal_with_fuel(pow10, 24);
            assert(pow10(23) == 100000000000000000000000nat);
            crate::units::lemma_pow10_mono(23, d.scale as nat);
            let p = pow10(d.scale as nat);
            assert(x + p / 2 < p);
            assert((x + p / 2) / (p as int) == 0) by {
                vstd::arithmetic::div_mod::lemma_basic_div((x + p / 2) as int, p as int);
            }
        }
        return 0;
    }
    let p = pow10_wide(d.scale);
    proof {
        reveal_with_fuel(pow10, 23);
        crate::units::lemma_pow10_mono(d.scale as nat, 22);
        crate::units::lemma_pow10_mono(0, d.scale as nat);
    }
    (x + p / 2) / p
}

pub open spec fn opt_duration_text(d: Option<u64>) -> Seq<char> {
    match d {
        Some(us) => duration_text(us as nat),
        None => "--:--:--"@,
    }
}

/// `Input  : <path> (<container>/<codec> <resolution> @ <fps>, duration=<d>, bitrate=<b>)`.
pub open spec fn input_line_text(info: crate::metadata::InputModel) -> Seq<char> {
    "Input  : "@ + text_or(info.path, "unknown"@) + " ("@ + text_or(info.container, "unknown"@)
        + "/"@ + nonempty_or(info.codec, "unknown"@) + " "@ + resolution_text(info.width, info.height)
        + " @ "@ + fps_text(info.fps) + ", duration="@ + opt_duration_text(info.duration_us)
        + ", bitrate="@ + kbps_text(info.bitrate_kbps) + ")"@
}

fn push_opt(out: &mut Vec<char>, t: &Option<String>, dflt: &str)
    ensures
        final(out)@ == old(out)@ + text_or(crate::metadata::opt_text(*t), dflt@),
{
    match t {
        Some(s) => {
            let c = chars_of(s.as_str());
            push_chars(out, c.as_slice());
        },
        None => push_text(out, dflt),
    }
}

fn push_fps(out: &mut Vec<char>, fps: Decimal)
    ensures
        final(out)@ == old(out)@ + fps_text(fps),
{
    let ghost start = out@;
    if fps.mantissa > 0 {
        push_fixed2(out, round_wide(fps, 100));
        push_text(out, "fps");
        assert(out@ =~= start + fps_text(fps));
    } else {
        push_text(out, "unknown fps");
    }
}

fn push_kbps(out: &mut Vec<char>, b: Option<Decimal>)
    ensures
        final(out)@ == old(out)@ + kbps_text(b),
{
    let ghost start = out@;
    match b {
        Some(d) => {
            push_fixed1(out, round_wide(d, 10));
            push_text(out, " kb/s");
            assert(out@ =~= start + kbps_text(b));
        },
        None => push_text(out, "unknown"),
    }
}

fn push_opt_duration(out: &mut Vec<char>, d: Option<u64>)
    ensures
        final(out)@ == old(out)@ + opt_duration_text(d),
{
    match d {
        Some(us) => {
            let t = format_duration(us);
            let c = chars_of(t.as_str());
            push_chars(out, c.as_slice());
        },
        None => push_text(out, "--:--:--"),
    }
}

pub fn format_input_line(info: &InputInfo) -> (r: String)
    ensures
        r@ == input_line_text(info@),
{
    let mut out: Vec<char> = Vec::new();
    push_text(&mut out, "Input  : ");
    push_opt(&mut out, &info.path, "unknown");
    push_text(&mut out, " (");
    push_opt(&mut out, &info.container, "unknown");
    push_text(&mut out, "/");
    push_or(&mut out, info.codec.as_str(), "unknown");
    push_text(&mut out, " ");
    push_resolution(&mut out, info.width, info.height);
    push_text(&mut out, " @ ");
    push_fps(&mut out, info.fps);
    push_text(&mut out, ", duration=");
    push_opt_duration(&mut out, info.duration_us);
    push_text(&mut out, ", bitrate=");
    push_kbps(&mut out, info.bitrate_kbps);
    push_text(&mut out, ")");
    assert(out@ =~= input_line_text(info@));
    string_of(out.as_slice())
}

/// `Final  : size=<bytes> avg_bitrate=<R.R kbps|unknown> duration=<HH:MM:SS>`.
pub open spec fn summary_line_text(s: EncodeSummary) -> Seq<char> {
    "Final  : size="@ + bytes_text(s.final_size_bytes as nat) + " avg_bitrate="@ + (if s.avg_bitrate_kbps.mantissa
        > 0 {
        fixed1(round_scaled(s.avg_bitrate_kbps, 10)) + " kbps"@
    } else {
        "unknown"@
    }) + " duration="@ + duration_text(s.duration_us as nat)
}

pub fn format_summary_line(summary: &EncodeSummary) -> (r: String)
    ensures
        r@ == summary_line_text(*summary),
{
    let mut out: Vec<char> = Vec::new();
    push_text(&mut out, "Final  : size=");
    let size = format_bytes(summary.final_size_bytes);
    let sc = chars_of(size.as_str());
    push_chars(&mut out, sc.as_slice());
    push_text(&mut out, " avg_bitrate=");
    if summary.avg_bitrate_kbps.mantissa > 0 {
        push_fixed1(&mut out, round_wide(summary.avg_bitrate_kbps, 10));
        push_text(&mut out, " kbps");
    } else {
        push_text(&mut out, "unknown");
    }
    push_text(&mut out, " duration=");
    let d = format_duration(summary.duration_us);
    let dc = chars_of(d.as_str());
    push_chars(&mut out, dc.as_slice());
    assert(out@ =~= summary_line_text(*summary));
    string_of(out.as_slice())
}

/// Trailing zeros of a fraction's digits dropped.
pub open spec fn strip_zeros(t: Seq<char>) -> Seq<char>
    decreases t.len(),
{
    if t.len() > 0 && t.last() == '0' {
        strip_zeros(t.drop_last())
    } else {
        t
    }
}

/// Thousandths written as short as they read: `2`, `1.5`, `0.125`.
pub open spec fn milli_text(m: nat) -> Seq<char> {
    let frac = strip_zeros(pad2((m % 1000) / 10).push(digit_char(m % 10)));
    if m % 1000 == 0 {
        decimal(m / 1000)
    } else {
        decimal(m / 1000) + seq!['.'] + frac
    }
}

/// The digits of `m % 1000` thousandths, trailing zeros dropped.
fn milli_fraction(m: u128) -> (r: Vec<char>)
    ensures
        r@ == strip_zeros(pad2((m as nat % 1000) / 10).push(digit_char(m as nat % 10))),
{
    let mut f: Vec<char> = Vec::new();
    push_pad2(&mut f, (m % 1000) / 10);
    f.push(((m % 10) as u8 + 48) as char);
    assert(f@ =~= pad2((m as nat % 1000) / 10).push(digit_char(m as nat % 10)));
    let mut e: usize = f.len();
    assert(f@.subrange(0, e as int) =~= f@);
    while e > 0 && f[e - 1] == '0'
        invariant
            e <= f.len(),
            strip_zeros(f@) == strip_zeros(f@.subrange(0, e as int)),
        decreases e,
    {
        assert(f@.subrange(0, e as int).drop_last() =~= f@.subrange(0, e - 1));
        e = e - 1;
    }
    crate::text::sub_chars(f.as_slice(), 0, e)
}

fn push_milli(out: &mut Vec<char>, m: u128)
    ensures
        final(out)@ == old(out)@ + milli_text(m as nat),
{
    let ghost start = out@;
    push_decimal(out, m / 1000);
    if m % 1000 != 0 {
        out.push('.');
        let f = milli_fraction(m);
        push_chars(out, f.as_slice());
    }
    assert(out@ =~= start + milli_text(m as nat));
}

/// `progress: time=<elapsed>/<total> frame=<n> speed=<s>x`, where the sample has moved.
pub open spec fn progress_line_text(p: FfmpegProgress, total_us: Option<u64>) -> Option<Seq<char>> {
    if p.frame == 0 && p.speed.mantissa == 0 && p.time_us == 0 {
        None
    } else {
        Some(
            "progress: time="@ + duration_text(p.time_us as nat) + "/"@ + opt_duration_text(total_us)
                + " frame="@ + decimal(p.frame as nat) + " speed="@ + milli_text(
                round_scaled(p.speed, 1000),
            ) + "x"@,
        )
    }
}

pub fn format_progress_line(update: &FfmpegProgress, total_us: Option<u64>) -> (r: Option<String>)
    ensures
        match progress_line_text(*update, total_us) {
            Some(t) => r matches Some(s) && s@ == t,
            None => r is None,
        },
{
    if update.frame == 0 && update.speed.mantissa == 0 && update.time_us == 0 {
        return None;
    }
    let mut out: Vec<char> = Vec::new();
    push_text(&mut out, "progress: time=");
    let e = format_duration(update.time_us);
    let ec = chars_of(e.as_str());
    push_chars(&mut out, ec.as_slice());
    push_text(&mut out, "/");
    push_opt_duration(&mut out, total_us);
    push_text(&mut out, " frame=");
    push_decimal(&mut out, update.frame as u128);
    push_text(&mut out, " speed=");
    push_milli(&mut out, round_wide(update.speed, 1000));
    push_text(&mut out, "x");
    assert(out@ =~= progress_line_text(*update, total_us).unwrap());
    Some(string_of(out.as_slice()))
}

/// The header's progress text: `time=<elapsed> frame=<n> speed=<s>x`, or blanks.
pub open spec fn header_progress_text(p: Option<FfmpegProgress>) -> Seq<char> {
    match p {
        Some(u) => "time="@ + duration_text(u.time_us as nat) + " frame="@ + decimal(u.frame as nat)
            + " speed="@ + milli_text(round_scaled(u.speed, 1000)) + "x"@,
        None => "time=--:--:-- frame= speed="@,
    }
}

pub fn format_header_progress(p: Option<FfmpegProgress>) -> (r: String)
    ensures
        r@ == header_progress_text(p),
{
    match p {
        Some(u) => {
            let mut out: Vec<char> = Vec::new();
            push_text(&mut out, "time=");
            let d = format_duration(u.time_us);
            let dc = chars_of(d.as_str());
            push_chars(&mut out, dc.as_slice());
            push_text(&mut out, " frame=");
            push_decimal(&mut out, u.frame as u128);
            push_text(&mut out, " speed=");
            push_milli(&mut out, round_wide(u.speed, 1000));
            push_text(&mut out, "x");
            assert(out@ =~= header_progress_text(p));
            string_of(out.as_slice())
        },
        None => "time=--:--:-- frame= speed=".to_owned(),
    }
}

/// The cells of a progress bar `w` wide: `=` before the head, `>` at it
/// (where it is inside the bar), blanks after.
pub open spec fn bar_cells(w: nat, head: nat) -> Seq<char> {
    Seq::new(w, |i: int| if i < head { '=' } else if i == head { '>' } else { ' ' })
}

/// A progress bar at least ten cells wide, in brackets. Idle, it is blank;
/// with a known total it is filled in proportion to the elapsed time
/// (rounded, at most full); otherwise its head moves one cell per tick.
pub open spec fn progress_bar_text(
    running: bool,
    elapsed_us: Option<u64>,
    total_us: Option<u64>,
    tick: u64,
    width: usize,
) -> Seq<char> {
    let w: nat = if width > 10 { width as nat } else { 10 };
    let cells = if !running {
        Seq::new(w, |i: int| ' ')
    } else if elapsed_us is Some && total_us is Some && total_us->0 > 0 {
        let f = div_round(elapsed_us->0 as nat * w, total_us->0 as nat);
        bar_cells(w, if f > w { w } else { f })
    } else {
        bar_cells(w, tick as nat % w)
    };
    seq!['['] + cells + seq![']']
}

pub fn render_progress_bar(
    running: bool,
    elapsed_us: Option<u64>,
    total_us: Option<u64>,
    tick: u64,
    width: usize,
) -> (r: String)
    ensures
        r@ == progress_bar_text(running, elapsed_us, total_us, tick, width),
{
    let w: usize = if width > 10 {
        width
    } else {
        10
    };
    let head: usize = if !running {
        0
    } else {
        match (elapsed_us, total_us) {
            (Some(e), Some(t)) if t > 0 => {
                assert(e as u128 * w as u128 <= 0xffff_ffff_ffff_ffffu128 * 0xffff_ffff_ffff_ffffu128)
                    by (nonlinear_arith)
                    requires
                        e <= 0xffff_ffff_ffff_ffffu128,
                        w <= 0xffff_ffff_ffff_ffffu128,
                ;
                let prod = e as u128 * w as u128;
                let f = (prod + (t / 2) as u128) / t as u128;
                if f > w as u128 {
                    w
                } else {
                    f as usize
                }
            },
            _ => (tick % w as u64) as usize,
        }
    };
    let ghost cells = if !running {
        Seq::new(w as nat, |i: int| ' ')
    } else {
        bar_cells(w as nat, head as nat)
    };
    let mut out: Vec<char> = Vec::new();
    out.push('[');
    let mut i: usize = 0;
    while i < w
        invariant
            i <= w,
            out@ == seq!['['] + cells.subrange(0, i as int),
            cells.len() == w,
            cells == (if !running {
                Seq::new(w as nat, |i: int| ' ')
            } else {
                bar_cells(w as nat, head as nat)
            }),
        decreases w - i,
    {
        let c = if !running {
            ' '
        } else if i < head {
            '='
        } else if i == head {
            '>'
        } else {
            ' '
        };
        out.push(c);
        i = i + 1;
        assert(out@ =~= seq!['['] + cells.subrange(0, i as int));
    }
    out.push(']');
    assert(cells.subrange(0, w as int) =~= cells);
    assert(out@ =~= progress_bar_text(running, elapsed_us, total_us, tick, width));
    string_of(out.as_slice())
}

} // verus!
