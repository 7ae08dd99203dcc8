//! The events of an encode, and the classification of other log lines.
//!
//! Classification is a best-effort heuristic: the encoder has no structured
//! log levels, so a line is judged by the words it holds.
use vstd::prelude::*;
use crate::metadata::{InputInfo, InputModel, OutputInfo, OutputModel};
use crate::progress::{progress_of_line, FfmpegProgress};
use crate::summary::{summary_of, EncodeSummary};
use crate::units::time_micros;
use crate::text::{chars_of, has_text, has_text_exec, lower, occurs_at, starts_with_text, to_lower, trim, trim_chars};

verus! {

#[derive(Debug, Clone, Copy, PartialEq, Eq)]
pub enum LogLevel {
    Progress,
    Input,
    Output,
    Summary,
    Warning,
    Error,
    Prompt,
    Noise,
}

/// One event of an encode.
#[derive(Debug, Clone, PartialEq)]
pub enum FfmpegEvent {
    Progress(FfmpegProgress),
    Input(InputInfo),
    Output(OutputInfo),
    Summary(EncodeSummary),
    Error(String),
    Prompt(String),
}

/// An event with its texts as character sequences.
pub enum EventModel {
    Progress(FfmpegProgress),
    Input(InputModel),
    Output(OutputModel),
    Summary(EncodeSummary),
    Error(Seq<char>),
    Prompt(Seq<char>),
}

impl View for FfmpegEvent {
    type V = EventModel;

    open spec fn view(&self) -> EventModel {
        match self {
            FfmpegEvent::Progress(p) => EventModel::Progress(*p),
            FfmpegEvent::Input(i) => EventModel::Input(i@),
            FfmpegEvent::Output(o) => EventModel::Output(o@),
            FfmpegEvent::Summary(s) => EventModel::Summary(*s),
            FfmpegEvent::Error(t) => EventModel::Error(t@),
            FfmpegEvent::Prompt(t) => EventModel::Prompt(t@),
        }
    }
}

pub open spec fn opt_event(e: Option<FfmpegEvent>) -> Option<EventModel> {
    match e {
        Some(x) => Some(x@),
        None => None,
    }
}

/// Version, build and library banner lines (lower-cased).
pub open spec fn is_banner(lo: Seq<char>) -> bool {
    occurs_at(lo, 0, "ffmpeg version"@) || occurs_at(lo, 0, "built with"@) || occurs_at(
        lo,
        0,
        "configuration:"@,
    ) || occurs_at(lo, 0, "libavutil"@) || occurs_at(lo, 0, "libavcodec"@) || occurs_at(
        lo,
        0,
        "libavformat"@,
    ) || occurs_at(lo, 0, "libavdevice"@) || occurs_at(lo, 0, "libavfilter"@) || occurs_at(
        lo,
        0,
        "libswscale"@,
    ) || occurs_at(lo, 0, "libswresample"@) || occurs_at(lo, 0, "libpostproc"@) || occurs_at(
        lo,
        0,
        "cpu capabilities"@,
    ) || occurs_at(lo, 0, "using cpu capabilities"@)
}

/// Encoder statistics and CPU feature lines (lower-cased).
pub open spec fn is_codec_chatter(lo: Seq<char>) -> bool {
    has_text(lo, "x264 [info]:"@) || has_text(lo, "x265 [info]:"@) || has_text(lo, "cabac"@)
        || has_text(lo, "qp"@) || has_text(lo, "mb "@) || has_text(lo, "psy"@) || has_text(
        lo,
        "sse2"@,
    ) || has_text(lo, "sse4"@) || has_text(lo, "avx"@) || has_text(lo, "mmx"@) || has_text(
        lo,
        "cpu flags"@,
    ) || has_text(lo, "profile high"@)
}

pub open spec fn is_failure(lo: Seq<char>) -> bool {
    has_text(lo, "error"@) || has_text(lo, "invalid"@) || has_text(lo, "no such file"@)
}

pub open spec fn is_warning(lo: Seq<char>) -> bool {
    has_text(lo, "warning"@) || has_text(lo, "deprecated"@)
}

/// A request to confirm overwriting a file.
pub open spec fn is_prompt(t: Seq<char>) -> bool {
    has_text(t, "Overwrite"@) && has_text(t, "[y/N]"@)
}

/// The class of a log line, by the first rule that holds of the trimmed line:
/// empty; an input or output header; progress (`frame=` and `time=`); the
/// summary (`Lsize=` and `bitrate=`); an overwrite prompt; then, ignoring
/// case, banners and codec chatter, failures, warnings; anything else is noise.
pub open spec fn classify(line: Seq<char>) -> LogLevel {
    let t = trim(line);
    let lo = lower(t);
    if t.len() == 0 {
        LogLevel::Noise
    } else if occurs_at(t, 0, "Input #"@) {
        LogLevel::Input
    } else if occurs_at(t, 0, "Output #"@) {
        LogLevel::Output
    } else if has_text(t, "frame="@) && has_text(t, "time="@) {
        LogLevel::Progress
    } else if has_text(t, "Lsize="@) && has_text(t, "bitrate="@) {
        LogLevel::Summary
    } else if is_prompt(t) {
        LogLevel::Prompt
    } else if is_banner(lo) || is_codec_chatter(lo) {
        LogLevel::Noise
    } else if is_failure(lo) {
        LogLevel::Error
    } else if is_warning(lo) {
        LogLevel::Warning
    } else {
        LogLevel::Noise
    }
}

fn is_banner_exec(lo: &[char]) -> (r: bool)
    ensures
        r == is_banner(lo@),
{
    starts_with_text(lo, "ffmpeg version") || starts_with_text(lo, "built with")
        || starts_with_text(lo, "configuration:") || starts_with_text(lo, "libavutil")
        || starts_with_text(lo, "libavcodec") || starts_with_text(lo, "libavformat")
        || starts_with_text(lo, "libavdevice") || starts_with_text(lo, "libavfilter")
        || starts_with_text(lo, "libswscale") || starts_with_text(lo, "libswresample")
        || starts_with_text(lo, "libpostproc") || starts_with_text(lo, "cpu capabilities")
        || starts_with_text(lo, "using cpu capabilities")
}

fn is_codec_chatter_exec(lo: &[char]) -> (r: bool)
    ensures
        r == is_codec_chatter(lo@),
{
    has_text_exec(lo, "x264 [info]:") || has_text_exec(lo, "x265 [info]:") || has_text_exec(
        lo,
        "cabac",
    ) || has_text_exec(lo, "qp") || has_text_exec(lo, "mb ") || has_text_exec(lo, "psy")
        || has_text_exec(lo, "sse2") || has_text_exec(lo, "sse4") || has_text_exec(lo, "avx")
        || has_text_exec(lo, "mmx") || has_text_exec(lo, "cpu flags") || has_text_exec(
        lo,
        "profile high",
    )
}

/// Classifies a log line that no parser took; see `classify`.
pub fn classify_log_line(line: &str) -> (r: LogLevel)
    ensures
        r == classify(line@),
{
    let l = chars_of(line);
    let t = trim_chars(l.as_slice());
    let ts = t.as_slice();
    if t.len() == 0 {
        return LogLevel::Noise;
    }
    if starts_with_text(ts, "Input #") {
        return LogLevel::Input;
    }
    if starts_with_text(ts, "Output #") {
        return LogLevel::Output;
    }
    if has_text_exec(ts, "frame=") && has_text_exec(ts, "time=") {
        return LogLevel::Progress;
    }
    if has_text_exec(ts, "Lsize=") && has_text_exec(ts, "bitrate=") {
        return LogLevel::Summary;
    }
    if has_text_exec(ts, "Overwrite") && has_text_exec(ts, "[y/N]") {
        return LogLevel::Prompt;
    }
    let lo = to_lower(ts);
    let los = lo.as_slice();
    if is_banner_exec(los) || is_codec_chatter_exec(los) {
        return LogLevel::Noise;
    }
    if has_text_exec(los, "error") || has_text_exec(los, "invalid") || has_text_exec(
        los,
        "no such file",
    ) {
        return LogLevel::Error;
    }
    if has_text_exec(los, "warning") || has_text_exec(los, "deprecated") {
        return LogLevel::Warning;
    }
    LogLevel::Noise
}

/// A line that names no header, progress, summary or prompt token, and
/// that no failure or warning word marks, is noise.
pub proof fn lemma_unrecognised_line_is_noise(line: Seq<char>)
    requires
        !occurs_at(trim(line), 0, "Input #"@),
        !occurs_at(trim(line), 0, "Output #"@),
        !has_text(trim(line), "frame="@),
        !has_text(trim(line), "Lsize="@),
        !is_prompt(trim(line)),
        !is_failure(lower(trim(line))),
        !is_warning(lower(trim(line))),
    ensures
        classify(line) == LogLevel::Noise,
{
}

/// The stateless parsers depend on the line alone: the same line read
/// twice gives the same result each time.
pub proof fn lemma_stateless_parsers_repeatable(a: Seq<char>, b: Seq<char>)
    requires
        a == b,
    ensures
        progress_of_line(a) == progress_of_line(b),
        summary_of(a) == summary_of(b),
        classify(a) == classify(b),
        time_micros(a) == time_micros(b),
{
}

} // verus!
