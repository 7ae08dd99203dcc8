//! The merge point of an encode: every line read from the child's streams
//! passes through here, in the order it arrived, and comes out as at most
//! one event.
//!
//! Lines of the two streams are merged as they arrive; within one stream
//! their order is kept, across streams it is whatever the readers deliver.
use vstd::prelude::*;
use crate::event::{classify, classify_log_line, opt_event, EventModel, FfmpegEvent, LogLevel};
use crate::metadata::{input_step, output_step, MetadataParser, MetadataState};
use crate::progress::{kv_step, parse_progress_kv_line, parse_progress_line, progress_of_line, ProgressAccumulator};
use crate::summary::{parse_summary_line, summary_of};
use crate::text::{chars_of, eq_text, has_text, has_text_exec, occurs_at, starts_with_text, string_of};

verus! {

/// Which of the child's output streams a line came from.
#[derive(Debug, Clone, Copy, PartialEq, Eq)]
pub enum StreamKind {
    /// The auxiliary stream, read only when machine-readable progress goes there.
    Stdout,
    /// The diagnostic stream.
    Stderr,
}

/// The state of the merge point: the metadata parser, the progress
/// protocol's fields, and whether an error event has gone out.
pub struct EventPipeline {
    pub metadata: MetadataParser,
    pub progress: ProgressAccumulator,
    pub error_seen: bool,
}

/// One line through the merge point: the new parser states and the event, if any.
///
/// A line of the auxiliary stream feeds the progress protocol. A line of the
/// diagnostic stream goes to the first of these that takes it: the progress
/// line parser, the input metadata parser, the output metadata parser, the
/// summary parser; otherwise it becomes an error or a prompt event if it
/// classifies so, and nothing else.
pub open spec fn pipeline_step(
    meta: MetadataState,
    acc: ProgressAccumulator,
    stream: StreamKind,
    line: Seq<char>,
) -> (MetadataState, ProgressAccumulator, Option<EventModel>) {
    match stream {
        StreamKind::Stdout => {
            let k = kv_step(acc, line);
            (
                meta,
                k.0,
                match k.1 {
                    Some(p) => Some(EventModel::Progress(p)),
                    None => None,
                },
            )
        },
        StreamKind::Stderr => match progress_of_line(line) {
            Some(p) => (meta, acc, Some(EventModel::Progress(p))),
            None => {
                let i = input_step(meta, line);
                match i.1 {
                    Some(info) => (i.0, acc, Some(EventModel::Input(info))),
                    None => {
                        let o = output_step(i.0, line);
                        match o.1 {
                            Some(info) => (o.0, acc, Some(EventModel::Output(info))),
                            None => match summary_of(line) {
                                Some(sm) => (o.0, acc, Some(EventModel::Summary(sm))),
                                None => (
                                    o.0,
                                    acc,
                                    match classify(line) {
                                        LogLevel::Error => Some(EventModel::Error(line)),
                                        LogLevel::Prompt => Some(EventModel::Prompt(line)),
                                        _ => None,
                                    },
                                ),
                            },
                        }
                    },
                }
            },
        },
    }
}

impl EventPipeline {
    pub open spec fn state(&self) -> (MetadataState, ProgressAccumulator) {
        (self.metadata@, self.progress)
    }

    pub fn new() -> (r: EventPipeline)
        ensures
            r.state() == (MetadataState::initial(), ProgressAccumulator::empty()),
            !r.error_seen,
    {
        EventPipeline {
            metadata: MetadataParser::new(),
            progress: ProgressAccumulator::new(),
            error_seen: false,
        }
    }

    /// Takes one line of the child's output; see `pipeline_step`.
    pub fn handle_line(&mut self, stream: StreamKind, line: &str) -> (r: Option<FfmpegEvent>)
        ensures
            ({
                let st = pipeline_step(old(self).metadata@, old(self).progress, stream, line@);
                final(self).metadata@ == st.0 && final(self).progress == st.1 && opt_event(r)
                    == st.2
            }),
            final(self).error_seen == (old(self).error_seen || r matches Some(FfmpegEvent::Error(_))),
    {
        let r = self.route_line(stream, line);
        if let Some(FfmpegEvent::Error(_)) = &r {
            self.error_seen = true;
        }
        r
    }

    fn route_line(&mut self, stream: StreamKind, line: &str) -> (r: Option<FfmpegEvent>)
        ensures
            ({
                let st = pipeline_step(old(self).metadata@, old(self).progress, stream, line@);
                final(self).metadata@ == st.0 && final(self).progress == st.1 && opt_event(r)
                    == st.2
            }),
            final(self).error_seen == old(self).error_seen,
    {
        match stream {
            StreamKind::Stdout => match parse_progress_kv_line(line, &mut self.progress) {
                Some(p) => Some(FfmpegEvent::Progress(p)),
                None => None,
            },
            StreamKind::Stderr => {
                if let Some(p) = parse_progress_line(line) {
                    return Some(FfmpegEvent::Progress(p));
                }
                if let Some(info) = self.metadata.parse_input_line(line) {
                    return Some(FfmpegEvent::Input(info));
                }
                if let Some(info) = self.metadata.parse_output_line(line) {
                    return Some(FfmpegEvent::Output(info));
                }
                if let Some(sm) = parse_summary_line(line) {
                    return Some(FfmpegEvent::Summary(sm));
                }
                match classify_log_line(line) {
                    LogLevel::Error => Some(FfmpegEvent::Error(line.to_owned())),
                    LogLevel::Prompt => Some(FfmpegEvent::Prompt(line.to_owned())),
                    _ => None,
                }
            },
        }
    }
}

pub open spec fn arg_views(args: Seq<String>) -> Seq<Seq<char>> {
    args.map_values(|a: String| a@)
}

/// The arguments send machine-readable progress to the auxiliary stream:
/// `-progress=...pipe:1...`, or `-progress` followed by `pipe:1...`.
pub open spec fn requests_progress_pipe(args: Seq<Seq<char>>) -> bool {
    (exists|i: int|
        0 <= i < args.len() && occurs_at(#[trigger] args[i], 0, "-progress="@) && has_text(
            args[i],
            "pipe:1"@,
        )) || (exists|i: int|
        0 <= i < args.len() - 1 && #[trigger] args[i] == "-progress"@ && occurs_at(
            args[i + 1],
            0,
            "pipe:1"@,
        ))
}

/// Do the arguments ask for machine-readable progress on the auxiliary stream?
pub fn has_progress_stdout(args: &[String]) -> (r: bool)
    ensures
        r == requests_progress_pipe(arg_views(args@)),
{
    let ghost v = arg_views(args@);
    let mut i: usize = 0;
    while i < args.len()
        invariant
            i <= args.len(),
            v == arg_views(args@),
            v.len() == args.len(),
            forall|j: int|
                0 <= j < i ==> !(occurs_at(#[trigger] v[j], 0, "-progress="@) && has_text(
                    v[j],
                    "pipe:1"@,
                )),
        decreases args.len() - i,
    {
        let a = chars_of(args[i].as_str());
        if starts_with_text(a.as_slice(), "-progress=") && has_text_exec(a.as_slice(), "pipe:1") {
            assert(v[i as int] == a@);
            return true;
        }
        i = i + 1;
    }
    let mut k: usize = 0;
    while args.len() > 1 && k < args.len() - 1
        invariant
            k <= args.len(),
            v == arg_views(args@),
            v.len() == args.len(),
            forall|j: int| 0 <= j < v.len() ==> !(occurs_at(#[trigger] v[j], 0, "-progress="@) && has_text(
                    v[j],
                    "pipe:1"@,
                )),
            forall|j: int|
                0 <= j < k && j < v.len() - 1 ==> !(#[trigger] v[j] == "-progress"@ && occurs_at(
                    v[j + 1],
                    0,
                    "pipe:1"@,
                )),
        decreases args.len() - k,
    {
        let a = chars_of(args[k].as_str());
        let b = chars_of(args[k + 1].as_str());
        if eq_text(a.as_slice(), "-progress") && starts_with_text(b.as_slice(), "pipe:1") {
            assert(v[k as int] == a@ && v[k + 1] == b@);
            return true;
        }
        k = k + 1;
    }
    false
}

/// The closing event of an encode whose process ended: an error naming the
/// exit status where the process failed and no error event went out before;
/// nothing otherwise.
pub fn exit_event(success: bool, error_seen: bool, status: &str) -> (r: Option<FfmpegEvent>)
    ensures
        success || error_seen ==> r is None,
        !success && !error_seen ==> opt_event(r) == Some(
            EventModel::Error("ffmpeg exited with status "@ + status@),
        ),
{
    if success || error_seen {
        return None;
    }
    let mut t = chars_of("ffmpeg exited with status ");
    let s = chars_of(status);
    let ghost t0 = t@;
    let mut i: usize = 0;
    while i < s.len()
        invariant
            i <= s.len(),
            t@ == t0 + s@.subrange(0, i as int),
        decreases s.len() - i,
    {
        t.push(s[i]);
        i = i + 1;
        assert(t@ =~= t0 + s@.subrange(0, i as int));
    }
    assert(s@.subrange(0, s.len() as int) =~= s@);
    Some(FfmpegEvent::Error(string_of(t.as_slice())))
}

} // verus!
