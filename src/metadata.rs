//! Input and output descriptions from the encoder's stream listing.
//!
//! The listing opens an input block with `Input #0, mov,mp4, from 'in.mp4':`
//! and an output block with `Output #0, mp4, to 'out.mp4':`; inside a block,
//! `Duration:` and `Stream #0:0 ... Video: h264, ..., 1920x1080, 25 fps` lines
//! describe the streams.
use vstd::prelude::*;
use crate::units::{dec_or_zero, dec_or_zero_exec, decimal_of, parse_decimal, Decimal};
use crate::scan::{find_fragment, find_fragment_exec, number_end, number_end_exec, run_end, run_len, CharClass, ValueKind};
use crate::text::{chars_of, index_of, occurs_at, occurs_at_exec, string_of, sub_chars, trim, trim_chars};
use crate::units::{all_digits, mantissa_of, pow10, time_from_chars, time_micros};

verus! {

/// Where the text after `word` + digits + `,` starts, for a line that
/// begins with a block header such as `Input #0,`.
pub open spec fn header_start(s: Seq<char>, word: Seq<char>) -> Option<int> {
    if occurs_at(s, 0, word) {
        let a = word.len() as int;
        let d = run_len(s, a, CharClass::Digit);
        if d > 0 && a + d < s.len() && s[a + d] == ',' {
            Some(a + d + 1)
        } else {
            None
        }
    } else {
        None
    }
}

/// At `e`: `,`, optional space, `lit` (`from '` or `to '`), a path without
/// quotes, and a closing quote; gives where the path stands.
pub open spec fn tail_at(s: Seq<char>, e: int, lit: Seq<char>) -> Option<(int, int)> {
    if 0 <= e < s.len() && s[e] == ',' {
        let w = e + 1 + run_len(s, e + 1, CharClass::Space);
        if occurs_at(s, w, lit) {
            let a = w + lit.len();
            let n = run_len(s, a, CharClass::NotQuote);
            if n > 0 && a + n < s.len() && s[a + n] == '\'' {
                Some((a, a + n))
            } else {
                None
            }
        } else {
            None
        }
    } else {
        None
    }
}

/// The rightmost `tail_at` at an index from `lo` up to `e`.
pub open spec fn last_tail(s: Seq<char>, lit: Seq<char>, lo: int, e: int) -> Option<(int, int, int)>
    decreases e - lo + 1,
{
    if e < lo {
        None
    } else {
        match tail_at(s, e, lit) {
            Some(t) => Some((e, t.0, t.1)),
            None => last_tail(s, lit, lo, e - 1),
        }
    }
}

/// The container and path of an input header line
/// `Input #N, <container>, from '<path>'`; the container runs to the last
/// `, from '` that a quoted path follows.
pub open spec fn input_header(s: Seq<char>) -> Option<(Seq<char>, Seq<char>)> {
    match header_start(s, "Input #"@) {
        Some(p0) => match last_tail(s, "from '"@, p0 + 1, s.len() - 1) {
            Some(t) => Some((trim(s.subrange(p0, t.0)), trim(s.subrange(t.1, t.2)))),
            None => None,
        },
        None => None,
    }
}

/// The container and path of an output header line
/// `Output #N, <container>, to '<path>'`; the container holds no comma.
pub open spec fn output_header(s: Seq<char>) -> Option<(Seq<char>, Seq<char>)> {
    match header_start(s, "Output #"@) {
        Some(p0) => match index_of(s.subrange(p0, s.len() as int), ',') {
            Some(k) => if k > 0 {
                match tail_at(s, p0 + k, "to '"@) {
                    Some(t) => Some((trim(s.subrange(p0, p0 + k)), trim(s.subrange(t.0, t.1)))),
                    None => None,
                }
            } else {
                None
            },
            None => None,
        },
        None => None,
    }
}

pub fn header_start_exec(s: &[char], word: &str) -> (r: Option<usize>)
    ensures
        match r {
            Some(p) => header_start(s@, word@) == Some(p as int) && 0 < p <= s.len(),
            None => header_start(s@, word@) is None,
        },
{
    let w = chars_of(word);
    if !occurs_at_exec(s, 0, w.as_slice()) {
        return None;
    }
    let a = w.len();
    let e = run_end(s, a, CharClass::Digit);
    if e > a && e < s.len() && s[e] == ',' {
        Some(e + 1)
    } else {
        None
    }
}

pub fn tail_at_exec(s: &[char], e: usize, lit: &[char]) -> (r: Option<(usize, usize)>)
    ensures
        match r {
            Some(t) => tail_at(s@, e as int, lit@) == Some((t.0 as int, t.1 as int)) && t.0 <= t.1
                <= s.len(),
            None => tail_at(s@, e as int, lit@) is None,
        },
{
    if e >= s.len() || s[e] != ',' {
        return None;
    }
    let w = run_end(s, e + 1, CharClass::Space);
    if !occurs_at_exec(s, w, lit) {
        return None;
    }
    let a = w + lit.len();
    let b = run_end(s, a, CharClass::NotQuote);
    if b > a && b < s.len() && s[b] == '\'' {
        Some((a, b))
    } else {
        None
    }
}

/// The container and path of an input header line.
pub fn input_header_exec(s: &[char]) -> (r: Option<(Vec<char>, Vec<char>)>)
    ensures
        match input_header(s@) {
            Some((c, p)) => r matches Some((rc, rp)) && rc@ == c && rp@ == p,
            None => r is None,
        },
{
    let p0 = match header_start_exec(s, "Input #") {
        Some(p) => p,
        None => return None,
    };
    let lit = chars_of("from '");
    let mut e: usize = s.len();
    while e > p0 && e - p0 > 1
        invariant
            0 < p0 <= s.len(),
            e <= s.len(),
            lit@ == "from '"@,
            header_start(s@, "Input #"@) == Some(p0 as int),
            last_tail(s@, lit@, p0 + 1, s.len() - 1) == last_tail(s@, lit@, p0 + 1, e - 1),
        decreases e,
    {
        let c = e - 1;
        if let Some((a, b)) = tail_at_exec(s, c, lit.as_slice()) {
            assert(last_tail(s@, lit@, p0 + 1, c as int) == Some((c as int, a as int, b as int)));
            let container = sub_chars(s, p0, c);
            let path = sub_chars(s, a, b);
            return Some((trim_chars(container.as_slice()), trim_chars(path.as_slice())));
        }
        e = c;
    }
    None
}

/// The container and path of an output header line.
pub fn output_header_exec(s: &[char]) -> (r: Option<(Vec<char>, Vec<char>)>)
    ensures
        match output_header(s@) {
            Some((c, p)) => r matches Some((rc, rp)) && rc@ == c && rp@ == p,
            None => r is None,
        },
{
    let p0 = match header_start_exec(s, "Output #") {
        Some(p) => p,
        None => return None,
    };
    let rest = sub_chars(s, p0, s.len());
    let k = match crate::text::index_of_exec(rest.as_slice(), ',') {
        Some(k) => k,
        None => return None,
    };
    if k == 0 {
        return None;
    }
    let lit = chars_of("to '");
    match tail_at_exec(s, p0 + k, lit.as_slice()) {
        Some((a, b)) => {
            let container = sub_chars(s, p0, p0 + k);
            let path = sub_chars(s, a, b);
            Some((trim_chars(container.as_slice()), trim_chars(path.as_slice())))
        },
        None => None,
    }
}

/// Where `Stream #N:M` stands at `i`, the index after it.
pub open spec fn stream_end(s: Seq<char>, i: int) -> Option<int> {
    if occurs_at(s, i, "Stream #"@) {
        let a = i + 8;
        let d1 = run_len(s, a, CharClass::Digit);
        if d1 > 0 && a + d1 < s.len() && s[a + d1] == ':' {
            let d2 = run_len(s, a + d1 + 1, CharClass::Digit);
            if d2 > 0 {
                Some(a + d1 + 1 + d2)
            } else {
                None
            }
        } else {
            None
        }
    } else {
        None
    }
}

/// Where `Video:` stands at `v` with something but a comma after it: the
/// codec text from `.0` up to the next comma `.1`.
pub open spec fn video_at(s: Seq<char>, v: int) -> Option<(int, int)> {
    if occurs_at(s, v, "Video:"@) {
        let w = v + 6;
        if w < s.len() && s[w] != ',' {
            Some((w, w + run_len(s, w, CharClass::NotComma)))
        } else {
            None
        }
    } else {
        None
    }
}

/// The rightmost `video_at` at an index from `lo` up to `v`.
pub open spec fn last_video(s: Seq<char>, lo: int, v: int) -> Option<(int, int)>
    decreases v - lo + 1,
{
    if v < lo {
        None
    } else {
        match video_at(s, v) {
            Some(t) => Some(t),
            None => last_video(s, lo, v - 1),
        }
    }
}

/// The leftmost `Stream #N:M` at or after `from` that a `Video:` follows,
/// with the codec span of the last such `Video:`.
pub open spec fn first_stream_video(s: Seq<char>, from: int) -> Option<(int, int)>
    decreases s.len() - from,
{
    if from < 0 || from >= s.len() {
        None
    } else {
        match stream_end(s, from) {
            Some(q) => match last_video(s, q, s.len() - 1) {
                Some(t) => Some(t),
                None => first_stream_video(s, from + 1),
            },
            None => first_stream_video(s, from + 1),
        }
    }
}

/// The video codec that a stream line names.
pub open spec fn video_codec(s: Seq<char>) -> Option<Seq<char>> {
    match first_stream_video(s, 0) {
        Some(t) => Some(trim(s.subrange(t.0, t.1))),
        None => None,
    }
}

pub fn stream_end_exec(s: &[char], i: usize, lit: &[char]) -> (r: Option<usize>)
    requires
        lit@ == "Stream #"@,
    ensures
        match r {
            Some(q) => stream_end(s@, i as int) == Some(q as int) && i < q <= s.len(),
            None => stream_end(s@, i as int) is None,
        },
{
    if !occurs_at_exec(s, i, lit) {
        return None;
    }
    proof {
        reveal_strlit("Stream #");
        assert(lit@.len() == 8);
    }
    assert(i + 8 <= s.len());
    let a = i + 8;
    let b = run_end(s, a, CharClass::Digit);
    if b > a && b < s.len() && s[b] == ':' {
        let c = run_end(s, b + 1, CharClass::Digit);
        if c > b + 1 {
            return Some(c);
        }
    }
    None
}

pub fn last_video_exec(s: &[char], lo: usize, lit: &[char]) -> (r: Option<(usize, usize)>)
    requires
        lit@ == "Video:"@,
        lo <= s.len(),
    ensures
        match r {
            Some(t) => last_video(s@, lo as int, s.len() - 1) == Some((t.0 as int, t.1 as int))
                && t.0 <= t.1 <= s.len(),
            None => last_video(s@, lo as int, s.len() - 1) is None,
        },
{
    proof {
        reveal_strlit("Video:");
        assert(lit@.len() == 6);
    }
    let mut v: usize = s.len();
    while v > lo
        invariant
            lo <= v <= s.len(),
            lit@ == "Video:"@,
            lit@.len() == 6,
            last_video(s@, lo as int, s.len() - 1) == last_video(s@, lo as int, v - 1),
        decreases v,
    {
        let c = v - 1;
        if occurs_at_exec(s, c, lit) {
            let w = c + 6;
            if w < s.len() && s[w] != ',' {
                let e = run_end(s, w, CharClass::NotComma);
                return Some((w, e));
            }
        }
        v = c;
    }
    None
}

/// The video codec that a stream line names.
pub fn video_codec_exec(s: &[char]) -> (r: Option<Vec<char>>)
    ensures
        match video_codec(s@) {
            Some(c) => r matches Some(rc) && rc@ == c,
            None => r is None,
        },
{
    let stream = chars_of("Stream #");
    let video = chars_of("Video:");
    let mut i: usize = 0;
    while i < s.len()
        invariant
            i <= s.len(),
            stream@ == "Stream #"@,
            video@ == "Video:"@,
            first_stream_video(s@, 0) == first_stream_video(s@, i as int),
        decreases s.len() - i,
    {
        if let Some(q) = stream_end_exec(s, i, stream.as_slice()) {
            if let Some((a, b)) = last_video_exec(s, q, video.as_slice()) {
                let t = sub_chars(s, a, b);
                return Some(trim_chars(t.as_slice()));
            }
        }
        i = i + 1;
    }
    None
}

/// `WxH` at `i`: two to five digits, `x`, and two or more digits of which
/// the first five count.
pub open spec fn resolution_at(s: Seq<char>, i: int) -> Option<(int, int, int, int)> {
    let l1 = run_len(s, i, CharClass::Digit);
    if 2 <= l1 <= 5 && i + l1 < s.len() && s[i + l1] == 'x' {
        let j = i + l1 + 1;
        let l2 = run_len(s, j, CharClass::Digit);
        if l2 >= 2 {
            Some((i, i + l1, j, j + if l2 > 5 { 5 } else { l2 }))
        } else {
            None
        }
    } else {
        None
    }
}

pub open spec fn first_resolution(s: Seq<char>, from: int) -> Option<(int, int, int, int)>
    decreases s.len() - from,
{
    if from < 0 || from >= s.len() {
        None
    } else {
        match resolution_at(s, from) {
            Some(t) => Some(t),
            None => first_resolution(s, from + 1),
        }
    }
}

/// The leftmost `WxH` of a line, as width and height.
pub open spec fn resolution_of(s: Seq<char>) -> Option<(u32, u32)> {
    match first_resolution(s, 0) {
        Some(t) => Some(
            (
                mantissa_of(s.subrange(t.0, t.1)) as u32,
                mantissa_of(s.subrange(t.2, t.3)) as u32,
            ),
        ),
        None => None,
    }
}

pub proof fn lemma_digits_below(s: Seq<char>)
    requires
        all_digits(s),
    ensures
        mantissa_of(s) < pow10(s.len()),
    decreases s.len(),
{
    if s.len() > 0 {
        assert(all_digits(s.drop_last()));
        lemma_digits_below(s.drop_last());
        assert(crate::text::is_digit(s[s.len() - 1]));
    }
}

/// A run of at most five digits as a number.
fn small_number(s: &[char], a: usize, b: usize) -> (r: u32)
    requires
        a <= b <= s.len(),
        b - a <= 5,
        all_digits(s@.subrange(a as int, b as int)),
    ensures
        r as nat == mantissa_of(s@.subrange(a as int, b as int)),
{
    let ghost t = s@.subrange(a as int, b as int);
    let mut v: u32 = 0;
    let mut i: usize = a;
    proof {
        reveal_with_fuel(pow10, 6);
    }
    while i < b
        invariant
            a <= i <= b <= s.len(),
            b - a <= 5,
            t == s@.subrange(a as int, b as int),
            all_digits(t),
            v as nat == mantissa_of(t.subrange(0, i - a)),
            pow10(5) == 100000,
        decreases b - i,
    {
        let ghost u = t.subrange(0, i - a + 1);
        assert(u.drop_last() =~= t.subrange(0, i - a));
        assert(crate::text::is_digit(t[i - a]));
        proof {
            assert(all_digits(u));
            lemma_digits_below(u);
            crate::units::lemma_pow10_mono(u.len(), 5);
        }
        v = v * 10 + (s[i] as u32 - '0' as u32);
        i = i + 1;
    }
    assert(t.subrange(0, b - a) =~= t);
    v
}

/// The leftmost `WxH` of a line, as width and height.
pub fn resolution_exec(s: &[char]) -> (r: Option<(u32, u32)>)
    ensures
        r == resolution_of(s@),
{
    let mut i: usize = 0;
    while i < s.len()
        invariant
            i <= s.len(),
            first_resolution(s@, 0) == first_resolution(s@, i as int),
        decreases s.len() - i,
    {
        let e1 = run_end(s, i, CharClass::Digit);
        if e1 - i >= 2 && e1 - i <= 5 && e1 < s.len() && s[e1] == 'x' {
            let j = e1 + 1;
            let e2 = run_end(s, j, CharClass::Digit);
            if e2 - j >= 2 {
                let e = if e2 - j > 5 {
                    j + 5
                } else {
                    e2
                };
                proof {
                    lemma_run_digits(s@, i as int, e1 as int);
                    lemma_run_digits(s@, j as int, e as int);
                }
                let w = small_number(s, i, e1);
                let h = small_number(s, j, e);
                return Some((w, h));
            }
        }
        i = i + 1;
    }
    None
}

/// The characters of a digit run are digits.
pub proof fn lemma_run_digits(s: Seq<char>, i: int, e: int)
    requires
        0 <= i <= e <= i + run_len(s, i, CharClass::Digit),
        i <= s.len(),
    ensures
        e <= s.len(),
        all_digits(s.subrange(i, e)),
{
    crate::scan::lemma_run_chars(s, i, CharClass::Digit);
    assert forall|k: int| 0 <= k < e - i implies crate::text::is_digit(
        #[trigger] s.subrange(i, e)[k],
    ) by {
        assert(crate::scan::in_class(CharClass::Digit, s[i + k]));
    }
    if e > i {
        assert(i <= e - 1 < i + run_len(s, i, CharClass::Digit));
    }
}

/// A number followed by optional space and `fps`, at `i`.
pub open spec fn fps_at(s: Seq<char>, i: int) -> Option<(int, int)> {
    match number_end(s, i) {
        Some(e) => if occurs_at(s, e + run_len(s, e, CharClass::Space), "fps"@) {
            Some((i, e))
        } else {
            None
        },
        None => None,
    }
}

pub open spec fn first_fps(s: Seq<char>, from: int) -> Option<(int, int)>
    decreases s.len() - from,
{
    if from < 0 || from >= s.len() {
        None
    } else {
        match fps_at(s, from) {
            Some(t) => Some(t),
            None => first_fps(s, from + 1),
        }
    }
}

/// The leftmost `N fps` of a line, as the decimal it writes.
pub open spec fn fps_of(s: Seq<char>) -> Option<Decimal> {
    match first_fps(s, 0) {
        Some(t) => decimal_of(s.subrange(t.0, t.1)),
        None => None,
    }
}

pub fn fps_exec(s: &[char]) -> (r: Option<Decimal>)
    ensures
        r == fps_of(s@),
{
    let lit = chars_of("fps");
    let mut i: usize = 0;
    while i < s.len()
        invariant
            i <= s.len(),
            lit@ == "fps"@,
            first_fps(s@, 0) == first_fps(s@, i as int),
        decreases s.len() - i,
    {
        if let Some(e) = number_end_exec(s, i) {
            let w = run_end(s, e, CharClass::Space);
            if occurs_at_exec(s, w, lit.as_slice()) {
                let t = sub_chars(s, i, e);
                return parse_decimal(t.as_slice());
            }
        }
        i = i + 1;
    }
    None
}

/// What a stream line of an input block says of the input.
#[derive(Debug, Clone, PartialEq)]
pub struct InputInfo {
    pub width: u32,
    pub height: u32,
    /// Frames per second, as printed.
    pub fps: Decimal,
    pub codec: String,
    pub duration_us: Option<u64>,
    pub container: Option<String>,
    pub path: Option<String>,
    /// kbit/s, as printed.
    pub bitrate_kbps: Option<Decimal>,
}

/// An `InputInfo` with its texts as character sequences.
pub struct InputModel {
    pub width: u32,
    pub height: u32,
    pub fps: Decimal,
    pub codec: Seq<char>,
    pub duration_us: Option<u64>,
    pub container: Option<Seq<char>>,
    pub path: Option<Seq<char>>,
    pub bitrate_kbps: Option<Decimal>,
}

pub open spec fn opt_text(o: Option<String>) -> Option<Seq<char>> {
    match o {
        Some(s) => Some(s@),
        None => None,
    }
}

impl View for InputInfo {
    type V = InputModel;

    open spec fn view(&self) -> InputModel {
        InputModel {
            width: self.width,
            height: self.height,
            fps: self.fps,
            codec: self.codec@,
            duration_us: self.duration_us,
            container: opt_text(self.container),
            path: opt_text(self.path),
            bitrate_kbps: self.bitrate_kbps,
        }
    }
}

/// What the first video stream line of an output block says of the output.
#[derive(Debug, Clone, PartialEq)]
pub struct OutputInfo {
    pub container: String,
    pub codec: String,
    pub width: u32,
    pub height: u32,
    pub path: String,
}

/// An `OutputInfo` with its texts as character sequences.
pub struct OutputModel {
    pub container: Seq<char>,
    pub codec: Seq<char>,
    pub width: u32,
    pub height: u32,
    pub path: Seq<char>,
}

impl View for OutputInfo {
    type V = OutputModel;

    open spec fn view(&self) -> OutputModel {
        OutputModel {
            container: self.container@,
            codec: self.codec@,
            width: self.width,
            height: self.height,
            path: self.path@,
        }
    }
}

pub open spec fn opt_input(o: Option<InputInfo>) -> Option<InputModel> {
    match o {
        Some(i) => Some(i@),
        None => None,
    }
}

pub open spec fn opt_output(o: Option<OutputInfo>) -> Option<OutputModel> {
    match o {
        Some(i) => Some(i@),
        None => None,
    }
}

/// The block of the listing that the parser is in.
#[derive(Debug, Clone, Copy, PartialEq, Eq)]
pub enum MetadataSection {
    Input,
    Output,
    Other,
}

/// The parser's state: what the open input and output headers gave and
/// whether the input block has been described yet.
pub struct MetadataState {
    pub in_duration: Option<u64>,
    pub in_container: Option<Seq<char>>,
    pub in_path: Option<Seq<char>>,
    pub in_bitrate: Option<Decimal>,
    pub input_emitted: bool,
    pub out_container: Option<Seq<char>>,
    pub out_path: Option<Seq<char>>,
    pub section: MetadataSection,
}

impl MetadataState {
    pub open spec fn initial() -> MetadataState {
        MetadataState {
            in_duration: None,
            in_container: None,
            in_path: None,
            in_bitrate: None,
            input_emitted: false,
            out_container: None,
            out_path: None,
            section: MetadataSection::Other,
        }
    }
}

pub open spec fn text_or_empty(o: Option<Seq<char>>) -> Seq<char> {
    match o {
        Some(t) => t,
        None => Seq::empty(),
    }
}

/// The description of the open input block, with what a stream line gave;
/// none where nothing at all is known of it.
pub open spec fn build_input(
    m: MetadataState,
    codec: Option<Seq<char>>,
    width: u32,
    height: u32,
    fps: Decimal,
) -> Option<InputModel> {
    if codec is None && width == 0 && height == 0 && fps.mantissa == 0 && m.in_container is None
        && m.in_path is None && m.in_duration is None && m.in_bitrate is None {
        None
    } else {
        Some(
            InputModel {
                width,
                height,
                fps,
                codec: text_or_empty(codec),
                duration_us: m.in_duration,
                container: m.in_container,
                path: m.in_path,
                bitrate_kbps: m.in_bitrate,
            },
        )
    }
}

pub open spec fn res_or_zero(r: Option<(u32, u32)>) -> (u32, u32) {
    match r {
        Some(wh) => wh,
        None => (0, 0),
    }
}

/// One line through `parse_input_line`: the new state and the input described, if any.
///
/// An input header opens a block and describes nothing. An output header
/// closes it, describing the input if nothing did yet. Inside an input
/// block a `Duration:` line records the duration and bit rate, and the first
/// line with a video codec, a resolution or a frame rate describes the input.
#[verifier::opaque]
pub open spec fn input_step(m: MetadataState, s: Seq<char>) -> (MetadataState, Option<InputModel>) {
    match input_header(s) {
        Some((c, p)) => (
            MetadataState {
                in_container: Some(c),
                in_path: Some(p),
                in_duration: None,
                in_bitrate: None,
                input_emitted: false,
                section: MetadataSection::Input,
                ..m
            },
            None,
        ),
        None => match output_header(s) {
            Some((c, p)) => {
                let m1 = MetadataState {
                    out_container: Some(c),
                    out_path: Some(p),
                    section: MetadataSection::Output,
                    ..m
                };
                if !m.input_emitted {
                    match build_input(m, None, 0, 0, Decimal::zero()) {
                        Some(info) => (MetadataState { input_emitted: true, ..m1 }, Some(info)),
                        None => (m1, None),
                    }
                } else {
                    (m1, None)
                }
            },
            None => if !(m.section is Input) {
                (m, None)
            } else {
                match find_fragment(s, "Duration:"@, ValueKind::Clock) {
                    Some(d) => {
                        let m1 = MetadataState {
                            in_duration: time_micros(s.subrange(d.0, d.1)),
                            ..m
                        };
                        match find_fragment(s, "bitrate:"@, ValueKind::Kbps) {
                            Some(b) => (
                                MetadataState { in_bitrate: decimal_of(s.subrange(b.0, b.1)), ..m1 },
                                None,
                            ),
                            None => (m1, None),
                        }
                    },
                    None => if m.input_emitted {
                        (m, None)
                    } else {
                        let codec = video_codec(s);
                        let wh = res_or_zero(resolution_of(s));
                        let fps = dec_or_zero(fps_of(s));
                        if codec is None && wh.0 == 0 && wh.1 == 0 && fps.mantissa == 0 {
                            (m, None)
                        } else {
                            match build_input(m, codec, wh.0, wh.1, fps) {
                                Some(info) => (MetadataState { input_emitted: true, ..m }, Some(info)),
                                None => (m, None),
                            }
                        }
                    },
                }
            },
        },
    }
}

/// One line through `parse_output_line`: the new state and the output described, if any.
///
/// An output header opens a block and records its container and path; the
/// first video stream line of the block then describes the output, once.
pub open spec fn output_step(m: MetadataState, s: Seq<char>) -> (MetadataState, Option<OutputModel>) {
    match output_header(s) {
        Some((c, p)) => (
            MetadataState {
                out_container: Some(c),
                out_path: Some(p),
                section: MetadataSection::Output,
                ..m
            },
            None,
        ),
        None => if !(m.section is Output) || m.out_container is None {
            (m, None)
        } else {
            match video_codec(s) {
                Some(codec) => {
                    let wh = res_or_zero(resolution_of(s));
                    (
                        MetadataState { out_container: None, out_path: None, ..m },
                        Some(
                            OutputModel {
                                container: text_or_empty(m.out_container),
                                codec,
                                width: wh.0,
                                height: wh.1,
                                path: text_or_empty(m.out_path),
                            },
                        ),
                    )
                },
                None => (m, None),
            }
        },
    }
}

fn clone_text(o: &Option<String>) -> (r: Option<String>)
    ensures
        opt_text(r) == opt_text(*o),
{
    match o {
        Some(s) => Some(s.clone()),
        None => None,
    }
}

/// Follows the stream listing line by line; see `input_step` and `output_step`.
pub struct MetadataParser {
    pending_input_duration: Option<u64>,
    pending_input_container: Option<String>,
    pending_input_path: Option<String>,
    pending_input_bitrate_kbps: Option<Decimal>,
    input_emitted: bool,
    pending_output_container: Option<String>,
    pending_output_path: Option<String>,
    section: MetadataSection,
}

impl View for MetadataParser {
    type V = MetadataState;

    closed spec fn view(&self) -> MetadataState {
        MetadataState {
            in_duration: self.pending_input_duration,
            in_container: opt_text(self.pending_input_container),
            in_path: opt_text(self.pending_input_path),
            in_bitrate: self.pending_input_bitrate_kbps,
            input_emitted: self.input_emitted,
            out_container: opt_text(self.pending_output_container),
            out_path: opt_text(self.pending_output_path),
            section: self.section,
        }
    }
}

impl MetadataParser {
    pub fn new() -> (r: MetadataParser)
        ensures
            r@ == MetadataState::initial(),
    {
        MetadataParser {
            pending_input_duration: None,
            pending_input_container: None,
            pending_input_path: None,
            pending_input_bitrate_kbps: None,
            input_emitted: false,
            pending_output_container: None,
            pending_output_path: None,
            section: MetadataSection::Other,
        }
    }

    fn build_input_info(&self, codec: Option<Vec<char>>, width: u32, height: u32, fps: Decimal) -> (r:
        Option<InputInfo>)
        ensures
            opt_input(r) == build_input(
                self@,
                match codec {
                    Some(c) => Some(c@),
                    None => None,
                },
                width,
                height,
                fps,
            ),
    {
        if codec.is_none() && width == 0 && height == 0 && fps.mantissa == 0
            && self.pending_input_container.is_none() && self.pending_input_path.is_none()
            && self.pending_input_duration.is_none() && self.pending_input_bitrate_kbps.is_none() {
            return None;
        }
        let codec_text = match codec {
            Some(c) => string_of(c.as_slice()),
            None => String::new(),
        };
        Some(
            InputInfo {
                width,
                height,
                fps,
                codec: codec_text,
                duration_us: self.pending_input_duration,
                container: clone_text(&self.pending_input_container),
                path: clone_text(&self.pending_input_path),
                bitrate_kbps: self.pending_input_bitrate_kbps,
            },
        )
    }

    /// Follows the input blocks of the listing; see `input_step`.
    pub fn parse_input_line(&mut self, line: &str) -> (r: Option<InputInfo>)
        ensures
            (final(self)@, opt_input(r)) == input_step(old(self)@, line@),
    {
        proof {
            reveal(input_step);
        }
        let s = chars_of(line);
        let sl = s.as_slice();
        if let Some((c, p)) = input_header_exec(sl) {
            self.pending_input_container = Some(string_of(c.as_slice()));
            self.pending_input_path = Some(string_of(p.as_slice()));
            self.pending_input_duration = None;
            self.pending_input_bitrate_kbps = None;
            self.input_emitted = false;
            self.section = MetadataSection::Input;
            return None;
        }
        if let Some((c, p)) = output_header_exec(sl) {
            let info = if !self.input_emitted {
                self.build_input_info(None, 0, 0, Decimal { mantissa: 0, scale: 0 })
            } else {
                None
            };
            self.pending_output_container = Some(string_of(c.as_slice()));
            self.pending_output_path = Some(string_of(p.as_slice()));
            self.section = MetadataSection::Output;
            if info.is_some() {
                self.input_emitted = true;
            }
            return info;
        }
        if !matches!(self.section, MetadataSection::Input) {
            return None;
        }
        if let Some(d) = find_fragment_exec(sl, "Duration:", ValueKind::Clock) {
            let t = sub_chars(sl, d.start, d.end);
            self.pending_input_duration = time_from_chars(t.as_slice());
            if let Some(b) = find_fragment_exec(sl, "bitrate:", ValueKind::Kbps) {
                let v = sub_chars(sl, b.start, b.end);
                self.pending_input_bitrate_kbps = parse_decimal(v.as_slice());
            }
            return None;
        }
        if self.input_emitted {
            return None;
        }
        let codec = video_codec_exec(sl);
        let (width, height) = match resolution_exec(sl) {
            Some(wh) => wh,
            None => (0, 0),
        };
        let fps = dec_or_zero_exec(fps_exec(sl));
        if codec.is_none() && width == 0 && height == 0 && fps.mantissa == 0 {
            return None;
        }
        let info = self.build_input_info(codec, width, height, fps);
        if info.is_some() {
            self.input_emitted = true;
        }
        info
    }

    /// Follows the output blocks of the listing; see `output_step`.
    pub fn parse_output_line(&mut self, line: &str) -> (r: Option<OutputInfo>)
        ensures
            (final(self)@, opt_output(r)) == output_step(old(self)@, line@),
    {
        let s = chars_of(line);
        let sl = s.as_slice();
        if let Some((c, p)) = output_header_exec(sl) {
            self.pending_output_container = Some(string_of(c.as_slice()));
            self.pending_output_path = Some(string_of(p.as_slice()));
            self.section = MetadataSection::Output;
            return None;
        }
        if !matches!(self.section, MetadataSection::Output) || self.pending_output_container.is_none() {
            return None;
        }
        let codec = match video_codec_exec(sl) {
            Some(c) => c,
            None => return None,
        };
        let (width, height) = match resolution_exec(sl) {
            Some(wh) => wh,
            None => (0, 0),
        };
        let container = match self.pending_output_container.take() {
            Some(c) => c,
            None => String::new(),
        };
        let path = match self.pending_output_path.take() {
            Some(p) => p,
            None => String::new(),
        };
        Some(OutputInfo { container, codec: string_of(codec.as_slice()), width, height, path })
    }
}

/// Lines through `parse_input_line` from state `m`: the final state and how
/// many input descriptions came out.
pub open spec fn run_input(m: MetadataState, lines: Seq<Seq<char>>) -> (MetadataState, nat)
    decreases lines.len(),
{
    if lines.len() == 0 {
        (m, 0)
    } else {
        let st = input_step(m, lines[0]);
        let rest = run_input(st.0, lines.drop_first());
        (rest.0, rest.1 + if st.1 is Some { 1nat } else { 0nat })
    }
}

/// A line that is neither an input nor an output header.
pub open spec fn is_block_line(s: Seq<char>) -> bool {
    input_header(s) is None && output_header(s) is None
}

proof fn lemma_block_line_step(m0: MetadataState, b: Seq<char>)
    requires
        m0.section is Input,
        m0.in_container is Some,
        is_block_line(b),
    ensures
        input_step(m0, b).0.section is Input,
        input_step(m0, b).0.in_container is Some,
        input_step(m0, b).1 is Some ==> !m0.input_emitted && input_step(m0, b).0.input_emitted,
        input_step(m0, b).1 is None ==> input_step(m0, b).0.input_emitted == m0.input_emitted,
        input_step(m0, b).0.in_container == m0.in_container,
        input_step(m0, b).0.in_path == m0.in_path,
        input_step(m0, b).1 matches Some(info) ==> info.container == m0.in_container && info.path
            == m0.in_path,
{
    reveal(input_step);
}

proof fn lemma_output_closes(m0: MetadataState, o: Seq<char>)
    requires
        m0.in_container is Some,
        output_header(o) is Some,
    ensures
        (input_step(m0, o).1 is Some) == !m0.input_emitted,
        !m0.input_emitted ==> ({
            let info = input_step(m0, o).1;
            info is Some && info->0.width == 0 && info->0.height == 0 && info->0.fps == Decimal::zero()
                && info->0.codec.len() == 0
        }),
        input_step(m0, o).1 matches Some(info) ==> info.container == m0.in_container && info.path
            == m0.in_path,
{
    reveal(input_step);
    reveal_strlit("Input #");
    reveal_strlit("Output #");
    assert(input_header(o) is None) by {
        if input_header(o) is Some {
            assert(o[0] == "Input #"@[0]);
            assert(o[0] == "Output #"@[0]);
        }
    }
}

proof fn lemma_header_opens(m: MetadataState, h: Seq<char>)
    requires
        input_header(h) is Some,
    ensures
        input_step(m, h).0.section is Input,
        input_step(m, h).0.in_container == Some((input_header(h)->0).0),
        input_step(m, h).0.in_path == Some((input_header(h)->0).1),
        !input_step(m, h).0.input_emitted,
        input_step(m, h).1 is None,
{
    reveal(input_step);
}

#[verifier::rlimit(50)]
proof fn lemma_block_body(m0: MetadataState, body: Seq<Seq<char>>, o: Seq<char>)
    requires
        m0.section is Input,
        m0.in_container is Some,
        forall|i: int| 0 <= i < body.len() ==> is_block_line(#[trigger] body[i]),
        output_header(o) is Some,
    ensures
        run_input(m0, body + seq![o]).1 == (if m0.input_emitted {
            0nat
        } else {
            1nat
        }),
        run_input(m0, body).1 <= (if m0.input_emitted {
            0nat
        } else {
            1nat
        }),
        run_input(m0, body).1 == 0 && !m0.input_emitted ==> ({
            let info = input_step(run_input(m0, body).0, o).1;
            info is Some && info->0.width == 0 && info->0.height == 0 && info->0.fps == Decimal::zero()
                && info->0.codec.len() == 0
        }),
    decreases body.len(),
{
    if body.len() == 0 {
        assert(body + seq![o] =~= seq![o]);
        assert(seq![o].drop_first() =~= Seq::<Seq<char>>::empty());
        assert(body =~= Seq::<Seq<char>>::empty());
        lemma_output_closes(m0, o);
        let st = input_step(m0, o);
        assert(run_input(st.0, Seq::<Seq<char>>::empty()) == (st.0, 0nat));
        assert(run_input(m0, seq![o]).1 == (if st.1 is Some {
            1nat
        } else {
            0nat
        }));
    } else {
        let b = body[0];
        assert(is_block_line(b));
        lemma_block_line_step(m0, b);
        let st = input_step(m0, b);
        let rest = body.drop_first();
        assert forall|i: int| 0 <= i < rest.len() implies is_block_line(#[trigger] rest[i]) by {
            assert(rest[i] == body[i + 1]);
        }
        assert((body + seq![o]).drop_first() =~= rest + seq![o]);
        assert((body + seq![o])[0] == b);
        lemma_block_body(st.0, rest, o);
        assert(run_input(m0, body + seq![o]).1 == run_input(st.0, rest + seq![o]).1 + (if st.1 is Some {
            1nat
        } else {
            0nat
        }));
        assert(run_input(m0, body).1 == run_input(st.0, rest).1 + (if st.1 is Some {
            1nat
        } else {
            0nat
        }));
    }
}

/// An input block yields exactly one input description, however many lines
/// it holds, once an output header closes it: the first line that says
/// anything of the input describes it, and where none did the output header
/// does, with no codec, resolution or frame rate. Before it closes, a block
/// yields at most one.
pub proof fn lemma_one_input_per_block(
    m: MetadataState,
    header: Seq<char>,
    body: Seq<Seq<char>>,
    out_header: Seq<char>,
)
    requires
        input_header(header) is Some,
        forall|i: int| 0 <= i < body.len() ==> is_block_line(#[trigger] body[i]),
        output_header(out_header) is Some,
    ensures
        run_input(m, seq![header] + body + seq![out_header]).1 == 1,
        run_input(m, seq![header] + body).1 <= 1,
        run_input(input_step(m, header).0, body).1 == 0 ==> ({
            let info = input_step(run_input(input_step(m, header).0, body).0, out_header).1;
            info is Some && info->0.width == 0 && info->0.height == 0 && info->0.fps == Decimal::zero()
                && info->0.codec.len() == 0
        }),
{
    let m0 = input_step(m, header).0;
    lemma_header_opens(m, header);
    lemma_block_body(m0, body, out_header);
    assert((seq![header] + body + seq![out_header]).drop_first() =~= body + seq![out_header]);
    assert((seq![header] + body + seq![out_header])[0] == header);
    assert((seq![header] + body).drop_first() =~= body);
    assert((seq![header] + body)[0] == header);
    assert(run_input(m, seq![header] + body + seq![out_header]).1 == run_input(
        m0,
        body + seq![out_header],
    ).1);
    assert(run_input(m, seq![header] + body).1 == run_input(m0, body).1);
}

proof fn lemma_block_keeps_header(m0: MetadataState, body: Seq<Seq<char>>)
    requires
        m0.section is Input,
        m0.in_container is Some,
        forall|i: int| 0 <= i < body.len() ==> is_block_line(#[trigger] body[i]),
    ensures
        run_input(m0, body).0.section is Input,
        run_input(m0, body).0.in_container == m0.in_container,
        run_input(m0, body).0.in_path == m0.in_path,
    decreases body.len(),
{
    if body.len() > 0 {
        let b = body[0];
        assert(is_block_line(b));
        lemma_block_line_step(m0, b);
        let rest = body.drop_first();
        assert forall|i: int| 0 <= i < rest.len() implies is_block_line(#[trigger] rest[i]) by {
            assert(rest[i] == body[i + 1]);
        }
        lemma_block_keeps_header(input_step(m0, b).0, rest);
    }
}

/// Every input description that a block yields, from one of its lines or
/// from the output header that closes it, carries the container and path
/// of the block's header.
pub proof fn lemma_block_description_carries_header(
    m: MetadataState,
    header: Seq<char>,
    body: Seq<Seq<char>>,
    line: Seq<char>,
)
    requires
        input_header(header) is Some,
        forall|i: int| 0 <= i < body.len() ==> is_block_line(#[trigger] body[i]),
        is_block_line(line) || output_header(line) is Some,
    ensures
        input_step(run_input(input_step(m, header).0, body).0, line).1 matches Some(info)
            ==> info.container == Some((input_header(header)->0).0) && info.path == Some(
            (input_header(header)->0).1,
        ),
{
    let m0 = input_step(m, header).0;
    lemma_header_opens(m, header);
    lemma_block_keeps_header(m0, body);
    let st = run_input(m0, body).0;
    if is_block_line(line) {
        lemma_block_line_step(st, line);
    } else {
        lemma_output_closes(st, line);
    }
}

} // verus!
