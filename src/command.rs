//! Encoder invocations and the commands that build them.
use vstd::prelude::*;
use crate::metadata::opt_text;
use crate::runner::arg_views;

verus! {

/// One invocation of the encoder.
#[derive(Debug, Clone)]
pub struct FfmpegCommand {
    pub inputs: Vec<String>,
    pub output: String,
    pub video_codec: Option<String>,
    pub audio_codec: Option<String>,
    pub preset: Option<String>,
    pub extra_args: Vec<String>,
}

/// `flag x` for each `x` of `xs`, in order.
pub open spec fn flag_pairs(flag: Seq<char>, xs: Seq<Seq<char>>) -> Seq<Seq<char>>
    decreases xs.len(),
{
    if xs.len() == 0 {
        Seq::empty()
    } else {
        flag_pairs(flag, xs.drop_last()) + seq![flag, xs.last()]
    }
}

/// `flag v` where there is a `v`.
pub open spec fn opt_pair(flag: Seq<char>, v: Option<Seq<char>>) -> Seq<Seq<char>> {
    match v {
        Some(x) => seq![flag, x],
        None => Seq::empty(),
    }
}

/// The argument list: `-i` and each input, the video codec (`-c:v`), the
/// audio codec (`-c:a`) and the preset (`-preset`) where set, the extra
/// arguments as given, and the output last.
pub open spec fn command_args(
    inputs: Seq<Seq<char>>,
    video: Option<Seq<char>>,
    audio: Option<Seq<char>>,
    preset: Option<Seq<char>>,
    extra: Seq<Seq<char>>,
    output: Seq<char>,
) -> Seq<Seq<char>> {
    flag_pairs("-i"@, inputs) + opt_pair("-c:v"@, video) + opt_pair("-c:a"@, audio) + opt_pair(
        "-preset"@,
        preset,
    ) + extra + seq![output]
}

fn push_arg(args: &mut Vec<String>, a: String)
    ensures
        arg_views(final(args)@) == arg_views(old(args)@).push(a@),
{
    args.push(a);
    assert(arg_views(args@) =~= arg_views(old(args)@).push(a@));
}

fn push_opt_pair(args: &mut Vec<String>, flag: &str, v: &Option<String>)
    ensures
        arg_views(final(args)@) == arg_views(old(args)@) + opt_pair(flag@, opt_text(*v)),
{
    match v {
        Some(x) => {
            push_arg(args, flag.to_owned());
            push_arg(args, x.clone());
            assert(arg_views(args@) =~= arg_views(old(args)@) + opt_pair(flag@, opt_text(*v)));
        },
        None => {
            assert(arg_views(args@) =~= arg_views(old(args)@) + opt_pair(flag@, opt_text(*v)));
        },
    }
}

impl FfmpegCommand {
    /// The argument list handed to the encoder; see `command_args`.
    pub fn to_args(&self) -> (r: Vec<String>)
        ensures
            arg_views(r@) == command_args(
                arg_views(self.inputs@),
                opt_text(self.video_codec),
                opt_text(self.audio_codec),
                opt_text(self.preset),
                arg_views(self.extra_args@),
                self.output@,
            ),
    {
        let mut args: Vec<String> = Vec::new();
        let mut i: usize = 0;
        while i < self.inputs.len()
            invariant
                i <= self.inputs.len(),
                arg_views(args@) == flag_pairs("-i"@, arg_views(self.inputs@.subrange(0, i as int))),
            decreases self.inputs.len() - i,
        {
            let ghost before = arg_views(args@);
            push_arg(&mut args, "-i".to_owned());
            push_arg(&mut args, self.inputs[i].clone());
            assert(arg_views(self.inputs@.subrange(0, i + 1)).drop_last() =~= arg_views(
                self.inputs@.subrange(0, i as int),
            ));
            assert(arg_views(args@) =~= before + seq!["-i"@, self.inputs@[i as int]@]);
            i = i + 1;
        }
        assert(self.inputs@.subrange(0, self.inputs.len() as int) =~= self.inputs@);
        push_opt_pair(&mut args, "-c:v", &self.video_codec);
        push_opt_pair(&mut args, "-c:a", &self.audio_codec);
        push_opt_pair(&mut args, "-preset", &self.preset);
        let ghost before_extra = arg_views(args@);
        let mut k: usize = 0;
        while k < self.extra_args.len()
            invariant
                k <= self.extra_args.len(),
                arg_views(args@) == before_extra + arg_views(self.extra_args@.subrange(0, k as int)),
            decreases self.extra_args.len() - k,
        {
            push_arg(&mut args, self.extra_args[k].clone());
            k = k + 1;
            assert(arg_views(args@) =~= before_extra + arg_views(self.extra_args@.subrange(0, k as int)));
        }
        assert(self.extra_args@.subrange(0, self.extra_args.len() as int) =~= self.extra_args@);
        push_arg(&mut args, self.output.clone());
        assert(arg_views(args@) =~= command_args(
            arg_views(self.inputs@),
            opt_text(self.video_codec),
            opt_text(self.audio_codec),
            opt_text(self.preset),
            arg_views(self.extra_args@),
            self.output@,
        ));
        args
    }
}

/// The arguments of the `encode` command.
#[derive(Debug)]
pub struct EncodeArgs {
    pub inputs: Vec<String>,
    pub output: String,
    pub video_codec: Option<String>,
    pub audio_codec: Option<String>,
    pub preset: Option<String>,
    pub extra_args: Vec<String>,
}

/// The arguments of the `probe` command.
#[derive(Debug)]
pub struct ProbeArgs {
    pub input: String,
}

/// The commands of a session line.
#[derive(Debug)]
pub enum Commands {
    Encode(EncodeArgs),
    Probe(ProbeArgs),
    Presets,
}

/// A parsed session line.
#[derive(Debug)]
pub struct Cli {
    pub command: Commands,
}

/// The encoder presets that `presets` lists.
pub const PRESETS: [&'static str; 10] = [
    "ultrafast",
    "superfast",
    "veryfast",
    "faster",
    "fast",
    "medium",
    "slow",
    "slower",
    "veryslow",
    "placebo",
];

/// The invocation that `encode` asks for: its arguments, field for field.
pub fn encode_args_to_command(args: EncodeArgs) -> (r: FfmpegCommand)
    ensures
        r.inputs == args.inputs,
        r.output == args.output,
        r.video_codec == args.video_codec,
        r.audio_codec == args.audio_codec,
        r.preset == args.preset,
        r.extra_args == args.extra_args,
{
    FfmpegCommand {
        inputs: args.inputs,
        output: args.output,
        video_codec: args.video_codec,
        audio_codec: args.audio_codec,
        preset: args.preset,
        extra_args: args.extra_args,
    }
}

/// The invocation that `probe` asks for: decode the input into the null
/// muxer (`-i <input> -f null -`).
pub fn probe_args_to_command(args: ProbeArgs) -> (r: FfmpegCommand)
    ensures
        arg_views(r.inputs@) == seq![args.input@],
        r.output@ == "-"@,
        r.video_codec is None,
        r.audio_codec is None,
        r.preset is None,
        arg_views(r.extra_args@) == seq!["-f"@, "null"@],
{
    let mut inputs: Vec<String> = Vec::new();
    push_arg(&mut inputs, args.input);
    let mut extra_args: Vec<String> = Vec::new();
    push_arg(&mut extra_args, "-f".to_owned());
    push_arg(&mut extra_args, "null".to_owned());
    assert(arg_views(inputs@) =~= seq![args.input@]);
    assert(arg_views(extra_args@) =~= seq!["-f"@, "null"@]);
    FfmpegCommand {
        inputs,
        output: "-".to_owned(),
        video_codec: None,
        audio_codec: None,
        preset: None,
        extra_args,
    }
}

/// What can go wrong with an encode or a command.
#[derive(Debug, Clone, PartialEq, Eq)]
pub enum FfxError {
    /// The encoder could not be found.
    BinaryNotFound,
    /// The encoder ran and failed, or its output could not be captured.
    ProcessFailed { exit_code: Option<i32>, stderr: String },
    /// A command line did not parse.
    InvalidCommand { message: String },
}

} // verus!
