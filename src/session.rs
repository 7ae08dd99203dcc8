//! Jobs and the interactive session that runs them one at a time.
use vstd::prelude::*;
use crate::event::{EventModel, FfmpegEvent};
use crate::metadata::{opt_input, opt_output, opt_text, InputInfo, InputModel, OutputInfo, OutputModel};
use crate::progress::FfmpegProgress;
use crate::summary::EncodeSummary;
use crate::runner::arg_views;
use crate::command::{command_args, encode_args_to_command, probe_args_to_command, Commands, PRESETS};
use crate::formatter::{
    decimal, format_input_line, format_output_line, format_progress_line, format_summary_line,
    input_line_text, output_line_text, progress_line_text, push_chars, push_decimal, push_text,
    summary_line_text,
};
use crate::text::{lower, to_lower};
use crate::text::{chars_of, index_of, index_of_exec, occurs_at, occurs_at_exec, string_of, sub_chars, trim, trim_chars};
use crate::units::{decimal_of, parse_decimal, scale_round, scaled_u64, time_from_chars, time_micros, MICROS_PER_SECOND};

verus! {

#[derive(Debug, Clone, Copy, PartialEq, Eq)]
pub enum JobStatus {
    Pending,
    Running,
    Finished,
    Failed,
    AwaitingConfirmation,
}

/// `std::time::Instant`, carried as it is: a job holds when it started and ended.
#[verifier::external_type_specification]
#[verifier::external_body]
pub struct ExInstant(std::time::Instant);

/// One encode, with when it started and ended.
#[derive(Debug, Clone)]
pub struct Job {
    pub id: u64,
    pub status: JobStatus,
    pub started_at: Option<std::time::Instant>,
    pub ended_at: Option<std::time::Instant>,
}

/// Whether an encode's event stream held an error.
pub struct JobOutcome {
    pub had_error: bool,
}

impl JobOutcome {
    pub fn new() -> (r: JobOutcome)
        ensures
            !r.had_error,
    {
        JobOutcome { had_error: false }
    }

    /// Notes one event of the stream.
    pub fn observe(&mut self, event: &FfmpegEvent)
        ensures
            final(self).had_error == (old(self).had_error || event@ is Error),
    {
        if let FfmpegEvent::Error(_) = event {
            self.had_error = true;
        }
    }

    /// The job's status once its stream has closed: failed if any event
    /// was an error, finished otherwise.
    pub fn status(&self) -> (r: JobStatus)
        ensures
            r == (if self.had_error {
                JobStatus::Failed
            } else {
                JobStatus::Finished
            }),
    {
        if self.had_error {
            JobStatus::Failed
        } else {
            JobStatus::Finished
        }
    }
}

/// The status of a job whose whole event stream was `events`.
pub fn final_status(events: &[FfmpegEvent]) -> (r: JobStatus)
    ensures
        r == (if exists|i: int| 0 <= i < events@.len() && (#[trigger] events@[i])@ is Error {
            JobStatus::Failed
        } else {
            JobStatus::Finished
        }),
{
    let mut outcome = JobOutcome::new();
    let mut i: usize = 0;
    while i < events.len()
        invariant
            i <= events.len(),
            outcome.had_error == exists|j: int| 0 <= j < i && (#[trigger] events@[j])@ is Error,
        decreases events.len() - i,
    {
        outcome.observe(&events[i]);
        i = i + 1;
    }
    outcome.status()
}

/// The words of a shell-quoted line, or the text of the error that stops
/// splitting it.
pub uninterp spec fn shell_words_of(s: Seq<char>) -> Result<Seq<Seq<char>>, Seq<char>>;

/// Relies on `shell_words::split`: splits a line into words as a POSIX
/// shell would, or fails (on an unclosed quote) with its error's text.
#[verifier::external_body]
fn split_shell_words(s: &str) -> (r: Result<Vec<String>, String>)
    ensures
        match r {
            Ok(v) => shell_words_of(s@) == Ok::<Seq<Seq<char>>, Seq<char>>(arg_views(v@)),
            Err(e) => shell_words_of(s@) == Err::<Seq<Seq<char>>, Seq<char>>(e@),
        },
{
    shell_words::split(s).map_err(|e| e.to_string())
}

/// A number of seconds, in microseconds.
pub open spec fn seconds_micros(v: Seq<char>) -> Option<u64> {
    match decimal_of(v) {
        Some(d) => scaled_u64(d, MICROS_PER_SECOND as nat),
        None => None,
    }
}

/// `v` up to its first colon.
pub open spec fn before_colon(v: Seq<char>) -> Seq<char> {
    match index_of(v, ':') {
        Some(k) => v.subrange(0, k),
        None => v,
    }
}

/// The first index at or after `from` where `lit` stands in `s`.
pub open spec fn find_text(s: Seq<char>, lit: Seq<char>, from: int) -> Option<int>
    decreases s.len() + 1 - from,
{
    if from < 0 || from + lit.len() > s.len() {
        None
    } else if occurs_at(s, from, lit) {
        Some(from)
    } else {
        find_text(s, lit, from + 1)
    }
}

/// The duration an argument list sets, looked for from argument `idx` on:
/// `-t` followed by seconds or a time, or an argument holding
/// `duration=<seconds>` (up to a colon).
pub open spec fn duration_from(args: Seq<Seq<char>>, idx: int) -> Option<u64>
    decreases args.len() - idx,
{
    if idx < 0 || idx >= args.len() {
        None
    } else {
        let a = args[idx];
        let from_t = if a == "-t"@ && idx + 1 < args.len() {
            match seconds_micros(args[idx + 1]) {
                Some(us) => Some(us),
                None => time_micros(args[idx + 1]),
            }
        } else {
            None
        };
        let from_filter = match find_text(a, "duration="@, 0) {
            Some(p) => seconds_micros(before_colon(a.subrange(p + 9, a.len() as int))),
            None => None,
        };
        if from_t is Some {
            from_t
        } else if from_filter is Some {
            from_filter
        } else {
            duration_from(args, idx + 1)
        }
    }
}

fn seconds_micros_exec(v: &[char]) -> (r: Option<u64>)
    ensures
        r == seconds_micros(v@),
{
    match parse_decimal(v) {
        Some(d) => scale_round(d, MICROS_PER_SECOND),
        None => None,
    }
}

fn find_text_exec(s: &[char], lit: &str) -> (r: Option<usize>)
    ensures
        match r {
            Some(p) => find_text(s@, lit@, 0) == Some(p as int) && p + lit@.len() <= s.len(),
            None => find_text(s@, lit@, 0) is None,
        },
{
    let l = chars_of(lit);
    let mut i: usize = 0;
    while i <= s.len() && l.len() <= s.len() - i
        invariant
            l@ == lit@,
            find_text(s@, lit@, 0) == find_text(s@, lit@, i as int),
        decreases s.len() + 1 - i,
    {
        if occurs_at_exec(s, i, l.as_slice()) {
            return Some(i);
        }
        if i == s.len() {
            assert(find_text(s@, lit@, i + 1) is None);
            return None;
        }
        i = i + 1;
    }
    None
}

/// The duration that an argument list sets; see `duration_from`.
pub fn parse_duration_from_args(args: &[String]) -> (r: Option<u64>)
    ensures
        r == duration_from(arg_views(args@), 0),
{
    let ghost v = arg_views(args@);
    let mut idx: usize = 0;
    while idx < args.len()
        invariant
            idx <= args.len(),
            v == arg_views(args@),
            v.len() == args.len(),
            duration_from(v, 0) == duration_from(v, idx as int),
        decreases args.len() - idx,
    {
        let a = chars_of(args[idx].as_str());
        assert(a@ == v[idx as int]);
        if crate::text::eq_text(a.as_slice(), "-t") && idx + 1 < args.len() {
            let n = chars_of(args[idx + 1].as_str());
            assert(n@ == v[idx + 1]);
            if let Some(us) = seconds_micros_exec(n.as_slice()) {
                return Some(us);
            }
            if let Some(us) = time_from_chars(n.as_slice()) {
                return Some(us);
            }
        }
        if let Some(p) = find_text_exec(a.as_slice(), "duration=") {
            proof {
                reveal_strlit("duration=");
            }
            let rest = sub_chars(a.as_slice(), p + 9, a.len());
            let value = match index_of_exec(rest.as_slice(), ':') {
                Some(k) => sub_chars(rest.as_slice(), 0, k),
                None => rest,
            };
            if let Some(us) = seconds_micros_exec(value.as_slice()) {
                return Some(us);
            }
        }
        idx = idx + 1;
    }
    None
}

/// Batch-file reading: the commands gathered so far, and the command still
/// open. A line ending in `\` continues on the next; `#` lines are comments.
pub open spec fn flw_step(st: (Seq<Seq<char>>, Seq<char>), line: Seq<char>) -> (
    Seq<Seq<char>>,
    Seq<char>,
) {
    let t = trim(line);
    if t.len() == 0 && st.1.len() == 0 {
        st
    } else if occurs_at(t, 0, "#"@) {
        st
    } else if t.len() > 0 && t.last() == '\\' {
        (st.0, st.1 + trim(t.drop_last()) + " "@)
    } else {
        let cur = st.1 + t;
        if cur.len() > 0 {
            (st.0.push(cur), Seq::empty())
        } else {
            (st.0, cur)
        }
    }
}

pub open spec fn flw_state(lines: Seq<Seq<char>>) -> (Seq<Seq<char>>, Seq<char>)
    decreases lines.len(),
{
    if lines.len() == 0 {
        (Seq::empty(), Seq::empty())
    } else {
        flw_step(flw_state(lines.drop_last()), lines.last())
    }
}

/// The commands of a batch file whose lines are `lines`.
pub open spec fn flw_commands(lines: Seq<Seq<char>>) -> Seq<Seq<char>> {
    let st = flw_state(lines);
    if st.1.len() > 0 {
        st.0.push(st.1)
    } else {
        st.0
    }
}

/// The commands of a batch file, from its lines; see `flw_step`.
pub fn parse_flw_lines(lines: &[String]) -> (r: Vec<String>)
    ensures
        arg_views(r@) == flw_commands(arg_views(lines@)),
{
    let ghost v = arg_views(lines@);
    let mut commands: Vec<String> = Vec::new();
    let mut current: Vec<char> = Vec::new();
    let mut i: usize = 0;
    while i < lines.len()
        invariant
            i <= lines.len(),
            v == arg_views(lines@),
            v.len() == lines.len(),
            (arg_views(commands@), current@) == flw_state(v.subrange(0, i as int)),
        decreases lines.len() - i,
    {
        assert(v.subrange(0, i + 1).drop_last() =~= v.subrange(0, i as int));
        let l = chars_of(lines[i].as_str());
        assert(l@ == v[i as int]);
        let t = trim_chars(l.as_slice());
        let ghost before = arg_views(commands@);
        let ghost cur0 = current@;
        if t.len() == 0 && current.len() == 0 {
        } else if t.len() > 0 && t[0] == '#' {
            proof {
                reveal_strlit("#");
            }
            assert(occurs_at(t@, 0, "#"@)) by {
                assert(t@.subrange(0, 1) =~= "#"@);
            }
        } else if t.len() > 0 && t[t.len() - 1] == '\\' {
            proof {
                reveal_strlit("#");
                reveal_strlit(" ");
                assert(!occurs_at(t@, 0, "#"@)) by {
                    if occurs_at(t@, 0, "#"@) {
                        assert(t@.subrange(0, 1)[0] == "#"@[0]);
                    }
                }
            }
            let body = sub_chars(t.as_slice(), 0, t.len() - 1);
            assert(body@ =~= t@.drop_last());
            let bt = trim_chars(body.as_slice());
            crate::formatter::push_chars(&mut current, bt.as_slice());
            current.push(' ');
            assert(current@ =~= cur0 + trim(t@.drop_last()) + " "@);
        } else {
            proof {
                reveal_strlit("#");
                if occurs_at(t@, 0, "#"@) {
                    assert(t@.subrange(0, 1)[0] == "#"@[0]);
                }
            }
            crate::formatter::push_chars(&mut current, t.as_slice());
            if current.len() > 0 {
                commands.push(string_of(current.as_slice()));
                assert(arg_views(commands@) =~= before.push(current@));
                current = Vec::new();
            }
        }
        i = i + 1;
    }
    assert(v.subrange(0, lines.len() as int) =~= v);
    if current.len() > 0 {
        let ghost before = arg_views(commands@);
        commands.push(string_of(current.as_slice()));
        assert(arg_views(commands@) =~= before.push(current@));
    }
    commands
}

/// The most lines that the session history keeps.
pub const MAX_HISTORY: usize = 500;

/// The history line that stands for a divider between commands.
pub const DIVIDER_MARKER: &'static str = "<divider>";

/// `h` with `l` appended, the oldest lines dropped beyond `MAX_HISTORY`.
pub open spec fn capped_push(h: Seq<Seq<char>>, l: Seq<char>) -> Seq<Seq<char>> {
    if h.len() >= MAX_HISTORY {
        h.subrange(h.len() - (MAX_HISTORY - 1), h.len() as int).push(l)
    } else {
        h.push(l)
    }
}

/// The interactive session: its history, the job it runs and the jobs queued.
pub struct Session {
    pub input: String,
    pub history: Vec<String>,
    pub progress: Option<FfmpegProgress>,
    pub input_info: Option<InputInfo>,
    pub output_info: Option<OutputInfo>,
    pub summary: Option<EncodeSummary>,
    pub job_status: Option<JobStatus>,
    pub last_error: Option<String>,
    pub should_quit: bool,
    pub job_running: bool,
    /// How many lines up from the newest the history view is scrolled.
    pub scroll_offset: usize,
    pub view_lines: usize,
    pub tick: u64,
    pub duration_us: Option<u64>,
    pub last_progress_line: Option<String>,
    pub progress_log_counter: u64,
    pub job_queue: Vec<String>,
}

/// A `Session` with its texts as character sequences.
pub struct SessionModel {
    pub input: Seq<char>,
    pub history: Seq<Seq<char>>,
    pub progress: Option<FfmpegProgress>,
    pub input_info: Option<InputModel>,
    pub output_info: Option<OutputModel>,
    pub summary: Option<EncodeSummary>,
    pub job_status: Option<JobStatus>,
    pub last_error: Option<Seq<char>>,
    pub should_quit: bool,
    pub job_running: bool,
    pub scroll_offset: usize,
    pub view_lines: usize,
    pub tick: u64,
    pub duration_us: Option<u64>,
    pub last_progress_line: Option<Seq<char>>,
    pub progress_log_counter: u64,
    pub job_queue: Seq<Seq<char>>,
}

impl View for Session {
    type V = SessionModel;

    open spec fn view(&self) -> SessionModel {
        SessionModel {
            input: self.input@,
            history: arg_views(self.history@),
            progress: self.progress,
            input_info: opt_input(self.input_info),
            output_info: opt_output(self.output_info),
            summary: self.summary,
            job_status: self.job_status,
            last_error: opt_text(self.last_error),
            should_quit: self.should_quit,
            job_running: self.job_running,
            scroll_offset: self.scroll_offset,
            view_lines: self.view_lines,
            tick: self.tick,
            duration_us: self.duration_us,
            last_progress_line: opt_text(self.last_progress_line),
            progress_log_counter: self.progress_log_counter,
            job_queue: arg_views(self.job_queue@),
        }
    }
}

impl SessionModel {
    /// How far the history view can scroll up.
    pub open spec fn max_scroll(self) -> nat {
        if self.history.len() > self.view_lines {
            (self.history.len() - self.view_lines) as nat
        } else {
            0
        }
    }

    /// The scroll offset brought back within range.
    pub open spec fn clamped(self) -> SessionModel {
        if self.scroll_offset > self.max_scroll() {
            SessionModel { scroll_offset: self.max_scroll() as usize, ..self }
        } else {
            self
        }
    }

    /// One line appended to the history.
    pub open spec fn pushed(self, l: Seq<char>) -> SessionModel {
        SessionModel { history: capped_push(self.history, l), ..self }.clamped()
    }

    /// Lines appended to the history in order.
    pub open spec fn pushed_all(self, ls: Seq<Seq<char>>) -> SessionModel
        decreases ls.len(),
    {
        if ls.len() == 0 {
            self
        } else {
            self.pushed_all(ls.drop_last()).pushed(ls.last())
        }
    }
}

pub open spec fn str_views(v: Seq<&str>) -> Seq<Seq<char>> {
    v.map_values(|t: &str| t@)
}

impl Session {
    pub fn max_scroll(&self) -> (r: usize)
        ensures
            r == self@.max_scroll(),
    {
        if self.history.len() > self.view_lines {
            self.history.len() - self.view_lines
        } else {
            0
        }
    }

    pub fn clamp_scroll(&mut self)
        ensures
            final(self)@ == old(self)@.clamped(),
    {
        let max_scroll = self.max_scroll();
        if self.scroll_offset > max_scroll {
            self.scroll_offset = max_scroll;
        }
    }

    /// Appends a line to the history, dropping the oldest beyond `MAX_HISTORY`.
    pub fn push_history(&mut self, line: String)
        ensures
            final(self)@ == old(self)@.pushed(line@),
    {
        let n = self.history.len();
        if n >= MAX_HISTORY {
            let mut kept: Vec<String> = Vec::new();
            let mut i: usize = n - (MAX_HISTORY - 1);
            let ghost start = i as int;
            while i < n
                invariant
                    start <= i <= n,
                    n >= MAX_HISTORY,
                    n == self.history.len(),
                    start == n - (MAX_HISTORY - 1),
                    arg_views(kept@) == arg_views(self.history@).subrange(start, i as int),
                decreases n - i,
            {
                let ghost prev = arg_views(kept@);
                kept.push(self.history[i].clone());
                assert(arg_views(kept@) =~= prev.push(self.history@[i as int]@));
                i = i + 1;
                assert(arg_views(kept@) =~= arg_views(self.history@).subrange(start, i as int));
            }
            self.history = kept;
        }
        let ghost before = arg_views(self.history@);
        self.history.push(line);
        assert(arg_views(self.history@) =~= before.push(line@));
        self.clamp_scroll();
    }

    /// Appends lines to the history in order.
    pub fn push_all(&mut self, lines: &[&str])
        ensures
            final(self)@ == old(self)@.pushed_all(str_views(lines@)),
    {
        let mut i: usize = 0;
        while i < lines.len()
            invariant
                i <= lines.len(),
                self@ == old(self)@.pushed_all(str_views(lines@.subrange(0, i as int))),
            decreases lines.len() - i,
        {
            assert(str_views(lines@.subrange(0, i + 1)).drop_last() =~= str_views(
                lines@.subrange(0, i as int),
            ));
            self.push_history(lines[i].to_owned());
            i = i + 1;
        }
        assert(lines@.subrange(0, lines.len() as int) =~= lines@);
    }

    pub fn set_view_lines(&mut self, lines: usize)
        ensures
            final(self)@ == (SessionModel {
                view_lines: if lines > 1 {
                    lines
                } else {
                    1
                },
                ..old(self)@
            }).clamped(),
    {
        self.view_lines = if lines > 1 {
            lines
        } else {
            1
        };
        self.clamp_scroll();
    }

    /// Scrolls towards older lines, no further than the oldest.
    pub fn scroll_up(&mut self, lines: usize)
        ensures
            final(self)@ == (SessionModel {
                scroll_offset: if old(self).scroll_offset + lines > old(self)@.max_scroll() {
                    old(self)@.max_scroll() as usize
                } else {
                    (old(self).scroll_offset + lines) as usize
                },
                ..old(self)@
            }),
    {
        let max_scroll = self.max_scroll();
        if self.scroll_offset >= max_scroll || lines >= max_scroll - self.scroll_offset {
            self.scroll_offset = max_scroll;
        } else {
            self.scroll_offset = self.scroll_offset + lines;
        }
    }

    /// Scrolls towards newer lines, no further than the newest.
    pub fn scroll_down(&mut self, lines: usize)
        ensures
            final(self)@ == (SessionModel {
                scroll_offset: if old(self).scroll_offset > lines {
                    (old(self).scroll_offset - lines) as usize
                } else {
                    0
                },
                ..old(self)@
            }),
    {
        self.scroll_offset = if self.scroll_offset > lines {
            self.scroll_offset - lines
        } else {
            0
        };
    }

    pub fn scroll_top(&mut self)
        ensures
            final(self)@ == (SessionModel {
                scroll_offset: old(self)@.max_scroll() as usize,
                ..old(self)@
            }),
    {
        self.scroll_offset = self.max_scroll();
    }

    pub fn scroll_bottom(&mut self)
        ensures
            final(self)@ == (SessionModel { scroll_offset: 0, ..old(self)@ }),
    {
        self.scroll_offset = 0;
    }
}

/// What the caller is to do after a session line.
#[derive(Debug)]
pub enum SessionAction {
    Nothing,
    Quit,
    /// Read the batch file at this path, then report with `batch_loaded` or `batch_failed`.
    LoadBatch(String),
    /// Start the encoder with these arguments.
    Spawn(Vec<String>),
    /// Parse this line as a command, then hand the result to `run_command`.
    ParseCommand(String),
}

pub enum ActionModel {
    Nothing,
    Quit,
    LoadBatch(Seq<char>),
    Spawn(Seq<Seq<char>>),
    ParseCommand(Seq<char>),
}

impl View for SessionAction {
    type V = ActionModel;

    open spec fn view(&self) -> ActionModel {
        match self {
            SessionAction::Nothing => ActionModel::Nothing,
            SessionAction::Quit => ActionModel::Quit,
            SessionAction::LoadBatch(p) => ActionModel::LoadBatch(p@),
            SessionAction::Spawn(a) => ActionModel::Spawn(arg_views(a@)),
            SessionAction::ParseCommand(l) => ActionModel::ParseCommand(l@),
        }
    }
}

/// `a` followed by `b`.
pub fn concat(a: &str, b: &str) -> (r: String)
    ensures
        r@ == a@ + b@,
{
    let mut out: Vec<char> = Vec::new();
    push_text(&mut out, a);
    push_text(&mut out, b);
    assert(out@ =~= a@ + b@);
    string_of(out.as_slice())
}

/// The name of a status, as the history shows it.
pub open spec fn status_text(s: JobStatus) -> Seq<char> {
    match s {
        JobStatus::Pending => "Pending"@,
        JobStatus::Running => "Running"@,
        JobStatus::Finished => "Finished"@,
        JobStatus::Failed => "Failed"@,
        JobStatus::AwaitingConfirmation => "AwaitingConfirmation"@,
    }
}

pub fn status_name(s: JobStatus) -> (r: &'static str)
    ensures
        r@ == status_text(s),
{
    match s {
        JobStatus::Pending => "Pending",
        JobStatus::Running => "Running",
        JobStatus::Finished => "Finished",
        JobStatus::Failed => "Failed",
        JobStatus::AwaitingConfirmation => "AwaitingConfirmation",
    }
}

pub const WELCOME: &'static str = "Welcome to ffx. Type 'help' for commands.";

pub const BUSY: &'static str = "A job is already running. Please wait for it to finish.";

pub const CONFIRM_HINT: &'static str = ">> Press 'y' to confirm or 'n' to abort.";

pub const HELP_LINES: [&'static str; 7] = [
    "Commands:",
    "  encode -i <input> -o <output> [--vcodec ...] [--acodec ...] [--preset ...]",
    "  probe -i <input>",
    "  presets",
    "  ffmpeg <args...>",
    "  batch <file.flw>",
    "  clear / exit",
];

pub open spec fn help_lines() -> Seq<Seq<char>> {
    str_views(HELP_LINES@)
}

pub open spec fn preset_lines() -> Seq<Seq<char>> {
    str_views(PRESETS@)
}

/// The session state of a job being started, with the duration its arguments set.
pub open spec fn started(m: SessionModel, duration: Option<u64>) -> SessionModel {
    SessionModel {
        duration_us: duration,
        job_running: true,
        job_status: Some(JobStatus::Running),
        progress: None,
        last_progress_line: None,
        last_error: None,
        ..m
    }
}

/// The history line that reports a count of jobs loaded.
pub open spec fn loaded_text(n: nat, from: Seq<char>) -> Seq<char> {
    "Loaded "@ + decimal(n) + from
}

/// The split arguments of an `ffmpeg` line: with words, the encoder starts
/// with them; with none, or with the error that stopped the split, the
/// history says so.
pub open spec fn ffmpeg_spec(m: SessionModel, words: Result<Seq<Seq<char>>, Seq<char>>) -> (
    SessionModel,
    ActionModel,
) {
    match words {
        Ok(w) => if w.len() == 0 {
            (m.pushed("error: ffmpeg requires arguments"@), ActionModel::Nothing)
        } else {
            (started(m, duration_from(w, 0)), ActionModel::Spawn(w))
        },
        Err(e) => (m.pushed("error: "@ + e), ActionModel::Nothing),
    }
}

pub open spec fn words_view(words: Result<Vec<String>, String>) -> Result<Seq<Seq<char>>, Seq<char>> {
    match words {
        Ok(v) => Ok(arg_views(v@)),
        Err(e) => Err(e@),
    }
}

/// One session line: the new state and what the caller is to do.
///
/// The line is trimmed and echoed after a divider. `quit`/`exit` end the
/// session, `clear` empties the history, `help` and `presets` list, and
/// `batch <file>` asks for a batch file (all but `batch` ignoring case).
/// Other lines wait while a job runs. `ffmpeg <args>` starts the encoder with
/// the shell-split arguments; anything else is to be parsed as a command.
pub open spec fn handle_spec(m: SessionModel, line: Seq<char>) -> (SessionModel, ActionModel) {
    let t = trim(line);
    let lo = lower(t);
    let m0 = if m.history.len() > 0 {
        m.pushed(DIVIDER_MARKER@)
    } else {
        m
    };
    let m1 = m0.pushed(">> "@ + t);
    if lo == "quit"@ || lo == "exit"@ {
        (SessionModel { should_quit: true, ..m1 }, ActionModel::Quit)
    } else if lo == "clear"@ {
        (SessionModel { history: Seq::empty(), scroll_offset: 0, ..m1 }, ActionModel::Nothing)
    } else if lo == "help"@ {
        (m1.pushed_all(help_lines()), ActionModel::Nothing)
    } else if occurs_at(t, 0, "batch "@) {
        (m1, ActionModel::LoadBatch(trim(t.subrange(6, t.len() as int))))
    } else if lo == "presets"@ {
        (m1.pushed_all(preset_lines()), ActionModel::Nothing)
    } else if m.job_running {
        (m1.pushed(BUSY@), ActionModel::Nothing)
    } else if occurs_at(t, 0, "ffmpeg "@) {
        ffmpeg_spec(m1, shell_words_of(t.subrange(7, t.len() as int)))
    } else {
        (m1, ActionModel::ParseCommand(t))
    }
}

/// A parsed command: `encode` and `probe` start the encoder, `presets`
/// lists, and a parse error is reported.
pub open spec fn command_spec(m: SessionModel, parsed: Result<Commands, String>) -> (
    SessionModel,
    ActionModel,
) {
    match parsed {
        Ok(Commands::Encode(a)) => {
            let extra = arg_views(a.extra_args@);
            (
                started(m, duration_from(extra, 0)),
                ActionModel::Spawn(
                    command_args(
                        arg_views(a.inputs@),
                        opt_text(a.video_codec),
                        opt_text(a.audio_codec),
                        opt_text(a.preset),
                        extra,
                        a.output@,
                    ),
                ),
            )
        },
        Ok(Commands::Probe(a)) => (
            started(m, duration_from(seq!["-f"@, "null"@], 0)),
            ActionModel::Spawn(
                command_args(seq![a.input@], None, None, None, seq!["-f"@, "null"@], "-"@),
            ),
        ),
        Ok(Commands::Presets) => (m.pushed_all(preset_lines()), ActionModel::Nothing),
        Err(e) => (m.pushed("error: "@ + e@), ActionModel::Nothing),
    }
}

/// The session after one event of the running job.
///
/// Every 25th progress line that has moved goes to the history; input,
/// output and summary descriptions go there at once; an error fails the job;
/// a prompt waits for an answer.
pub open spec fn event_spec(m: SessionModel, e: EventModel) -> SessionModel {
    match e {
        EventModel::Progress(p) => {
            let m1 = SessionModel { progress: Some(p), ..m };
            match progress_line_text(p, m.duration_us) {
                Some(l) => {
                    let c = if m.progress_log_counter == u64::MAX {
                        0
                    } else {
                        (m.progress_log_counter + 1) as u64
                    };
                    let m2 = SessionModel {
                        last_progress_line: Some(l),
                        progress_log_counter: c,
                        ..m1
                    };
                    if c % 25 == 0 {
                        m2.pushed(l)
                    } else {
                        m2
                    }
                },
                None => m1,
            }
        },
        EventModel::Input(i) => SessionModel {
            input_info: Some(i),
            duration_us: if i.duration_us is Some {
                i.duration_us
            } else {
                m.duration_us
            },
            ..m
        }.pushed(input_line_text(i)),
        EventModel::Output(o) => SessionModel { output_info: Some(o), ..m }.pushed(
            output_line_text(o.path, o.container, o.codec, o.width, o.height),
        ),
        EventModel::Summary(sm) => SessionModel { summary: Some(sm), ..m }.pushed(
            summary_line_text(sm),
        ),
        EventModel::Error(t) => SessionModel {
            last_error: Some(t),
            job_status: Some(JobStatus::Failed),
            ..m
        }.pushed("error: "@ + t),
        EventModel::Prompt(t) => SessionModel {
            job_status: Some(JobStatus::AwaitingConfirmation),
            ..m
        }.pushed("PROMPT: "@ + t).pushed(CONFIRM_HINT@),
    }
}

impl Session {
    /// A session with the welcome line, and the batch queue it starts with.
    pub fn new(queue: Vec<String>) -> (r: Session)
        ensures
            r@ == (SessionModel {
                input: Seq::empty(),
                history: if queue@.len() > 0 {
                    seq![WELCOME@, loaded_text(queue@.len() as nat, " jobs from batch file."@)]
                } else {
                    seq![WELCOME@]
                },
                progress: None,
                input_info: None,
                output_info: None,
                summary: None,
                job_status: None,
                last_error: None,
                should_quit: false,
                job_running: false,
                scroll_offset: 0,
                view_lines: 1,
                tick: 0,
                duration_us: None,
                last_progress_line: None,
                progress_log_counter: 0,
                job_queue: arg_views(queue@),
            }),
    {
        let mut history: Vec<String> = Vec::new();
        history.push(WELCOME.to_owned());
        if queue.len() > 0 {
            let mut out: Vec<char> = Vec::new();
            push_text(&mut out, "Loaded ");
            push_decimal(&mut out, queue.len() as u128);
            push_text(&mut out, " jobs from batch file.");
            assert(out@ =~= loaded_text(queue@.len() as nat, " jobs from batch file."@));
            history.push(string_of(out.as_slice()));
        }
        let r = Session {
            input: String::new(),
            history,
            progress: None,
            input_info: None,
            output_info: None,
            summary: None,
            job_status: None,
            last_error: None,
            should_quit: false,
            job_running: false,
            scroll_offset: 0,
            view_lines: 1,
            tick: 0,
            duration_us: None,
            last_progress_line: None,
            progress_log_counter: 0,
            job_queue: queue,
        };
        assert(r@.history =~= (if queue@.len() > 0 {
            seq![WELCOME@, loaded_text(queue@.len() as nat, " jobs from batch file."@)]
        } else {
            seq![WELCOME@]
        }));
        r
    }

    /// Takes one event of the running job; see `event_spec`.
    pub fn apply_event(&mut self, event: FfmpegEvent)
        ensures
            final(self)@ == event_spec(old(self)@, event@),
    {
        match event {
            FfmpegEvent::Progress(update) => {
                self.progress = Some(update);
                if let Some(line) = format_progress_line(&update, self.duration_us) {
                    self.last_progress_line = Some(line.clone());
                    self.progress_log_counter = if self.progress_log_counter == u64::MAX {
                        0
                    } else {
                        self.progress_log_counter + 1
                    };
                    if self.progress_log_counter % 25 == 0 {
                        self.push_history(line);
                    }
                }
            },
            FfmpegEvent::Input(info) => {
                let text = format_input_line(&info);
                if info.duration_us.is_some() {
                    self.duration_us = info.duration_us;
                }
                self.input_info = Some(info);
                self.push_history(text);
            },
            FfmpegEvent::Output(info) => {
                let text = format_output_line(&info);
                self.output_info = Some(info);
                self.push_history(text);
            },
            FfmpegEvent::Summary(summary) => {
                let text = format_summary_line(&summary);
                self.summary = Some(summary);
                self.push_history(text);
            },
            FfmpegEvent::Error(message) => {
                let text = concat("error: ", message.as_str());
                self.last_error = Some(message);
                self.job_status = Some(JobStatus::Failed);
                self.push_history(text);
            },
            FfmpegEvent::Prompt(message) => {
                self.job_status = Some(JobStatus::AwaitingConfirmation);
                self.push_history(concat("PROMPT: ", message.as_str()));
                self.push_history(CONFIRM_HINT.to_owned());
            },
        }
    }
}

impl Session {
    /// Marks a job started, with the duration its arguments set.
    fn start_job(&mut self, duration: Option<u64>)
        ensures
            final(self)@ == started(old(self)@, duration),
    {
        self.duration_us = duration;
        self.job_running = true;
        self.job_status = Some(JobStatus::Running);
        self.progress = None;
        self.last_progress_line = None;
        self.last_error = None;
    }

    /// Takes one session line; see `handle_spec`.
    pub fn handle_line(&mut self, line: &str) -> (r: SessionAction)
        ensures
            (final(self)@, r@) == handle_spec(old(self)@, line@),
    {
        let l = chars_of(line);
        let t = trim_chars(l.as_slice());
        let ts = t.as_slice();
        let trimmed = string_of(ts);
        if self.history.len() > 0 {
            self.push_history(DIVIDER_MARKER.to_owned());
        }
        self.push_history(concat(">> ", trimmed.as_str()));
        let lo = to_lower(ts);
        let los = lo.as_slice();
        if crate::text::eq_text(los, "quit") || crate::text::eq_text(los, "exit") {
            self.should_quit = true;
            return SessionAction::Quit;
        }
        if crate::text::eq_text(los, "clear") {
            self.history = Vec::new();
            self.scroll_bottom();
            assert(arg_views(self.history@) =~= Seq::<Seq<char>>::empty());
            return SessionAction::Nothing;
        }
        if crate::text::eq_text(los, "help") {
            self.push_all(&HELP_LINES);
            return SessionAction::Nothing;
        }
        if crate::text::starts_with_text(ts, "batch ") {
            proof {
                reveal_strlit("batch ");
            }
            let rest = sub_chars(ts, 6, t.len());
            let path = trim_chars(rest.as_slice());
            return SessionAction::LoadBatch(string_of(path.as_slice()));
        }
        if crate::text::eq_text(los, "presets") {
            self.push_all(&PRESETS);
            return SessionAction::Nothing;
        }
        if self.job_running {
            self.push_history(BUSY.to_owned());
            return SessionAction::Nothing;
        }
        if crate::text::starts_with_text(ts, "ffmpeg ") {
            proof {
                reveal_strlit("ffmpeg ");
            }
            let rest = sub_chars(ts, 7, t.len());
            let rest_text = string_of(rest.as_slice());
            return self.start_ffmpeg(split_shell_words(rest_text.as_str()));
        }
        SessionAction::ParseCommand(trimmed)
    }

    /// Takes the split arguments of an `ffmpeg` line; see `ffmpeg_spec`.
    pub fn start_ffmpeg(&mut self, words: Result<Vec<String>, String>) -> (r: SessionAction)
        ensures
            (final(self)@, r@) == ffmpeg_spec(old(self)@, words_view(words)),
    {
        match words {
            Ok(args) => {
                if args.len() == 0 {
                    self.push_history("error: ffmpeg requires arguments".to_owned());
                    return SessionAction::Nothing;
                }
                let duration = parse_duration_from_args(args.as_slice());
                self.start_job(duration);
                SessionAction::Spawn(args)
            },
            Err(err) => {
                self.push_history(concat("error: ", err.as_str()));
                SessionAction::Nothing
            },
        }
    }

    /// Takes the parse of a line that `handle_line` passed on; see `command_spec`.
    pub fn run_command(&mut self, parsed: Result<Commands, String>) -> (r: SessionAction)
        ensures
            (final(self)@, r@) == command_spec(old(self)@, parsed),
    {
        match parsed {
            Ok(Commands::Encode(args)) => {
                let cmd = encode_args_to_command(args);
                let duration = parse_duration_from_args(cmd.extra_args.as_slice());
                self.start_job(duration);
                SessionAction::Spawn(cmd.to_args())
            },
            Ok(Commands::Probe(args)) => {
                let cmd = probe_args_to_command(args);
                let duration = parse_duration_from_args(cmd.extra_args.as_slice());
                self.start_job(duration);
                SessionAction::Spawn(cmd.to_args())
            },
            Ok(Commands::Presets) => {
                self.push_all(&PRESETS);
                SessionAction::Nothing
            },
            Err(err) => {
                self.push_history(concat("error: ", err.as_str()));
                SessionAction::Nothing
            },
        }
    }

    /// Answers a pending overwrite prompt: the job runs on, and the text to
    /// write to the child's input (`y` or `n` and a newline) is handed out.
    /// Without a pending prompt nothing changes.
    pub fn answer_prompt(&mut self, yes: bool) -> (r: Option<String>)
        ensures
            old(self).job_status == Some(JobStatus::AwaitingConfirmation) ==> ({
                &&& r matches Some(t) && t@ == (if yes { "y\n"@ } else { "n\n"@ })
                &&& final(self)@ == (SessionModel {
                    job_status: Some(JobStatus::Running),
                    ..old(self)@
                }).pushed(if yes { ">> Sent: y"@ } else { ">> Sent: n"@ })
            }),
            old(self).job_status != Some(JobStatus::AwaitingConfirmation) ==> (r is None
                && final(self)@ == old(self)@),
    {
        match self.job_status {
            Some(JobStatus::AwaitingConfirmation) => {
                self.job_status = Some(JobStatus::Running);
                if yes {
                    self.push_history(">> Sent: y".to_owned());
                    Some("y\n".to_owned())
                } else {
                    self.push_history(">> Sent: n".to_owned());
                    Some("n\n".to_owned())
                }
            },
            _ => None,
        }
    }

    /// Records the end of the running job.
    pub fn update_job(&mut self, status: JobStatus)
        ensures
            final(self)@ == (SessionModel {
                job_running: false,
                job_status: Some(status),
                ..old(self)@
            }).pushed("Job finished: "@ + status_text(status)),
    {
        self.job_running = false;
        self.job_status = Some(status);
        self.push_history(concat("Job finished: ", status_name(status)));
    }

    /// The next queued command, taken off the queue, where no job runs or
    /// waits for an answer.
    pub fn next_job(&mut self) -> (r: Option<String>)
        ensures
            (!old(self).job_running && old(self).job_status != Some(
                JobStatus::AwaitingConfirmation,
            ) && old(self)@.job_queue.len() > 0) ==> (r matches Some(c) && c@
                == old(self)@.job_queue[0] && final(self)@ == (SessionModel {
                job_queue: old(self)@.job_queue.drop_first(),
                ..old(self)@
            })),
            !(!old(self).job_running && old(self).job_status != Some(
                JobStatus::AwaitingConfirmation,
            ) && old(self)@.job_queue.len() > 0) ==> (r is None && final(self)@ == old(self)@),
    {
        let waiting = match self.job_status {
            Some(JobStatus::AwaitingConfirmation) => true,
            _ => false,
        };
        if self.job_running || waiting || self.job_queue.len() == 0 {
            return None;
        }
        let ghost q = arg_views(self.job_queue@);
        let c = self.job_queue.remove(0);
        assert(arg_views(self.job_queue@) =~= q.drop_first());
        Some(c)
    }

    /// Reports a batch file read: its commands join the queue.
    pub fn batch_loaded(&mut self, path: &str, commands: Vec<String>)
        ensures
            final(self)@ == (SessionModel {
                job_queue: old(self)@.job_queue + arg_views(commands@),
                ..old(self)@
            }).pushed(loaded_text(commands@.len() as nat, " jobs from '"@ + path@ + "'."@)),
    {
        let mut out: Vec<char> = Vec::new();
        push_text(&mut out, "Loaded ");
        push_decimal(&mut out, commands.len() as u128);
        push_text(&mut out, " jobs from '");
        push_text(&mut out, path);
        push_text(&mut out, "'.");
        assert(out@ =~= loaded_text(commands@.len() as nat, " jobs from '"@ + path@ + "'."@));
        let ghost q = arg_views(self.job_queue@);
        let mut i: usize = 0;
        while i < commands.len()
            invariant
                i <= commands.len(),
                arg_views(self.job_queue@) == q + arg_views(commands@.subrange(0, i as int)),
                self@ == (SessionModel {
                    job_queue: q + arg_views(commands@.subrange(0, i as int)),
                    ..old(self)@
                }),
            decreases commands.len() - i,
        {
            let ghost prev = arg_views(self.job_queue@);
            self.job_queue.push(commands[i].clone());
            assert(arg_views(self.job_queue@) =~= prev.push(commands@[i as int]@));
            assert(arg_views(commands@.subrange(0, i + 1)) =~= arg_views(
                commands@.subrange(0, i as int),
            ).push(commands@[i as int]@));
            i = i + 1;
            assert(arg_views(self.job_queue@) =~= q + arg_views(commands@.subrange(0, i as int)));
        }
        assert(commands@.subrange(0, commands.len() as int) =~= commands@);
        self.push_history(string_of(out.as_slice()));
    }

    /// Reports a batch file that could not be read.
    pub fn batch_failed(&mut self, message: &str)
        ensures
            final(self)@ == old(self)@.pushed("error reading batch file: "@ + message@),
    {
        self.push_history(concat("error reading batch file: ", message));
    }

    /// The typed line, trimmed, where it holds anything; the input is cleared.
    pub fn submit_input(&mut self) -> (r: Option<String>)
        ensures
            final(self)@ == (SessionModel { input: Seq::empty(), ..old(self)@ }),
            trim(old(self)@.input).len() > 0 ==> (r matches Some(t) && t@ == trim(old(self)@.input)),
            trim(old(self)@.input).len() == 0 ==> r is None,
    {
        let c = chars_of(self.input.as_str());
        let t = trim_chars(c.as_slice());
        self.input = String::new();
        if t.len() == 0 {
            None
        } else {
            Some(string_of(t.as_slice()))
        }
    }
}

/// The status that the header shows.
pub open spec fn status_label_text(s: Option<JobStatus>) -> Seq<char> {
    match s {
        Some(JobStatus::Pending) => "Pending"@,
        Some(JobStatus::Running) => "Running"@,
        Some(JobStatus::Finished) => "Finished"@,
        Some(JobStatus::Failed) => "Failed"@,
        Some(JobStatus::AwaitingConfirmation) => "Awaiting Confirmation"@,
        None => "Idle"@,
    }
}

pub fn status_label(s: Option<JobStatus>) -> (r: &'static str)
    ensures
        r@ == status_label_text(s),
{
    match s {
        Some(JobStatus::Pending) => "Pending",
        Some(JobStatus::Running) => "Running",
        Some(JobStatus::Finished) => "Finished",
        Some(JobStatus::Failed) => "Failed",
        Some(JobStatus::AwaitingConfirmation) => "Awaiting Confirmation",
        None => "Idle",
    }
}

impl Session {
    /// The history lines that a pane `height` rows high shows, framed by a
    /// border row above and below: from `.0` up to `.1`, ending
    /// `scroll_offset` lines above the newest.
    pub fn history_window(&self, height: usize) -> (r: (usize, usize))
        ensures
            ({
                let rows: int = if height > 3 {
                    height - 2
                } else {
                    1
                };
                let n = self.history@.len() as int;
                let end: int = if n > self.scroll_offset {
                    n - self.scroll_offset
                } else {
                    0
                };
                r.1 == end && r.0 == (if end > rows {
                    end - rows
                } else {
                    0
                })
            }),
            r.0 <= r.1 <= self.history@.len(),
    {
        let rows: usize = if height > 3 {
            height - 2
        } else {
            1
        };
        let n = self.history.len();
        let end = if n > self.scroll_offset {
            n - self.scroll_offset
        } else {
            0
        };
        let start = if end > rows {
            end - rows
        } else {
            0
        };
        (start, end)
    }
}

} // verus!
