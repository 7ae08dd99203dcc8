use ffx::command::{
    encode_args_to_command, probe_args_to_command, Commands, EncodeArgs, FfmpegCommand, ProbeArgs,
};
use ffx::event::FfmpegEvent;
use ffx::formatter::{
    format_bytes, format_duration, format_input_line, format_output_line, format_progress_line,
    format_summary_line,
};
use ffx::metadata::{InputInfo, OutputInfo};
use ffx::progress::FfmpegProgress;
use ffx::session::{
    final_status, parse_duration_from_args, parse_flw_lines, JobStatus, Session, SessionAction,
};
use ffx::summary::EncodeSummary;
use ffx::units::Decimal;

fn dec(mantissa: u64, scale: u32) -> Decimal {
    Decimal { mantissa, scale }
}

fn strings(v: &[&str]) -> Vec<String> {
    v.iter().map(|s| s.to_string()).collect()
}

#[test]
fn prompt_answer_is_forwarded() {
    let mut s = Session::new(Vec::new());
    s.apply_event(FfmpegEvent::Prompt("Overwrite file.mp4? [y/N]".to_string()));
    assert_eq!(s.job_status, Some(JobStatus::AwaitingConfirmation));
    assert_eq!(s.history.last().unwrap(), ">> Press 'y' to confirm or 'n' to abort.");
    assert_eq!(s.answer_prompt(true), Some("y\n".to_string()));
    assert_eq!(s.job_status, Some(JobStatus::Running));
    assert_eq!(s.history.last().unwrap(), ">> Sent: y");
    assert_eq!(s.answer_prompt(false), None);
}

#[test]
fn queued_jobs_wait_for_an_answer() {
    let mut s = Session::new(strings(&["ffmpeg -i a.mp4 b.mp4"]));
    assert_eq!(s.history[1], "Loaded 1 jobs from batch file.");
    s.apply_event(FfmpegEvent::Prompt("Overwrite? [y/N]".to_string()));
    assert_eq!(s.next_job(), None);
    s.answer_prompt(false);
    assert_eq!(s.next_job(), Some("ffmpeg -i a.mp4 b.mp4".to_string()));
    assert!(s.job_queue.is_empty());
}

#[test]
fn ffmpeg_line_spawns_with_shell_words() {
    let mut s = Session::new(Vec::new());
    match s.handle_line("  ffmpeg -i 'my file.mp4' -t 30 out.mp4 ") {
        SessionAction::Spawn(args) => {
            assert_eq!(args, strings(&["-i", "my file.mp4", "-t", "30", "out.mp4"]))
        }
        other => panic!("unexpected {:?}", other),
    }
    assert!(s.job_running);
    assert_eq!(s.duration_us, Some(30_000_000));
    assert_eq!(s.job_status, Some(JobStatus::Running));
    let n = s.history.len();
    assert_eq!(s.history[n - 2], "<divider>");
    assert_eq!(s.history[n - 1], ">> ffmpeg -i 'my file.mp4' -t 30 out.mp4");
    match s.handle_line("ffmpeg -i x y") {
        SessionAction::Nothing => {}
        other => panic!("unexpected {:?}", other),
    }
    assert_eq!(
        s.history.last().unwrap(),
        "A job is already running. Please wait for it to finish."
    );
}

#[test]
fn ffmpeg_line_with_open_quote_is_an_error() {
    let mut s = Session::new(Vec::new());
    match s.handle_line("ffmpeg -i 'oops") {
        SessionAction::Nothing => {}
        other => panic!("unexpected {:?}", other),
    }
    assert_eq!(s.history.last().unwrap(), "error: missing closing quote");
    assert!(!s.job_running);
}

#[test]
fn session_commands() {
    let mut s = Session::new(Vec::new());
    assert!(matches!(s.handle_line("HELP"), SessionAction::Nothing));
    assert_eq!(s.history.last().unwrap(), "  clear / exit");
    assert!(matches!(s.handle_line("presets"), SessionAction::Nothing));
    assert_eq!(s.history.last().unwrap(), "placebo");
    match s.handle_line("batch  jobs.flw ") {
        SessionAction::LoadBatch(p) => assert_eq!(p, "jobs.flw"),
        other => panic!("unexpected {:?}", other),
    }
    s.batch_loaded("jobs.flw", strings(&["a", "b"]));
    assert_eq!(s.history.last().unwrap(), "Loaded 2 jobs from 'jobs.flw'.");
    assert_eq!(s.job_queue, strings(&["a", "b"]));
    match s.handle_line("encode -i a.mp4 -o b.mp4") {
        SessionAction::ParseCommand(l) => assert_eq!(l, "encode -i a.mp4 -o b.mp4"),
        other => panic!("unexpected {:?}", other),
    }
    assert!(matches!(s.handle_line("clear"), SessionAction::Nothing));
    assert!(s.history.is_empty());
    assert!(matches!(s.handle_line("Exit"), SessionAction::Quit));
    assert!(s.should_quit);
}

#[test]
fn parsed_commands_start_jobs() {
    let mut s = Session::new(Vec::new());
    let args = EncodeArgs {
        inputs: strings(&["a.mp4"]),
        output: "b.mp4".to_string(),
        video_codec: Some("libx264".to_string()),
        audio_codec: None,
        preset: Some("fast".to_string()),
        extra_args: strings(&["-t", "00:01:00"]),
    };
    match s.run_command(Ok(Commands::Encode(args))) {
        SessionAction::Spawn(a) => assert_eq!(
            a,
            strings(&["-i", "a.mp4", "-c:v", "libx264", "-preset", "fast", "-t", "00:01:00", "b.mp4"])
        ),
        other => panic!("unexpected {:?}", other),
    }
    assert_eq!(s.duration_us, Some(60_000_000));
    let mut s = Session::new(Vec::new());
    match s.run_command(Ok(Commands::Probe(ProbeArgs { input: "in.mkv".to_string() }))) {
        SessionAction::Spawn(a) => assert_eq!(a, strings(&["-i", "in.mkv", "-f", "null", "-"])),
        other => panic!("unexpected {:?}", other),
    }
    assert!(matches!(s.run_command(Err("bad".to_string())), SessionAction::Nothing));
    assert_eq!(s.history.last().unwrap(), "error: bad");
}

#[test]
fn events_update_the_session() {
    let mut s = Session::new(Vec::new());
    s.apply_event(FfmpegEvent::Input(InputInfo {
        width: 640,
        height: 480,
        fps: dec(25, 0),
        codec: "h264".to_string(),
        duration_us: Some(10_000_000),
        container: Some("mp4".to_string()),
        path: Some("a.mp4".to_string()),
        bitrate_kbps: Some(dec(123_456, 2)),
    }));
    assert_eq!(s.duration_us, Some(10_000_000));
    assert_eq!(
        s.history.last().unwrap(),
        "Input  : a.mp4 (mp4/h264 640x480 @ 25.00fps, duration=00:00:10, bitrate=1234.6 kb/s)"
    );
    for _ in 0..25 {
        s.apply_event(FfmpegEvent::Progress(FfmpegProgress {
            frame: 10,
            fps: dec(0, 0),
            time_us: 1_000_000,
            bitrate_kbps: dec(0, 0),
            speed: dec(15, 1),
            size_bytes: 0,
        }));
    }
    assert_eq!(
        s.history.last().unwrap(),
        "progress: time=00:00:01/00:00:10 frame=10 speed=1.5x"
    );
    s.apply_event(FfmpegEvent::Error("boom".to_string()));
    assert_eq!(s.job_status, Some(JobStatus::Failed));
    assert_eq!(s.history.last().unwrap(), "error: boom");
    s.update_job(JobStatus::Failed);
    assert_eq!(s.history.last().unwrap(), "Job finished: Failed");
    assert!(!s.job_running);
}

#[test]
fn history_keeps_the_newest_lines() {
    let mut s = Session::new(Vec::new());
    for i in 0..600 {
        s.push_history(format!("line {i}"));
    }
    assert_eq!(s.history.len(), 500);
    assert_eq!(s.history[0], "line 100");
    assert_eq!(s.history[499], "line 599");
    s.set_view_lines(10);
    s.scroll_up(1000);
    assert_eq!(s.scroll_offset, 490);
    s.scroll_down(5);
    assert_eq!(s.scroll_offset, 485);
    s.scroll_bottom();
    assert_eq!(s.scroll_offset, 0);
    s.scroll_top();
    assert_eq!(s.scroll_offset, 490);
}

#[test]
fn job_status_from_events() {
    assert_eq!(final_status(&[]), JobStatus::Finished);
    let events = vec![
        FfmpegEvent::Prompt("Overwrite? [y/N]".to_string()),
        FfmpegEvent::Error("x".to_string()),
    ];
    assert_eq!(final_status(&events), JobStatus::Failed);
}

#[test]
fn durations_from_arguments() {
    assert_eq!(parse_duration_from_args(&strings(&["-t", "30"])), Some(30_000_000));
    assert_eq!(parse_duration_from_args(&strings(&["-t", "1.5"])), Some(1_500_000));
    assert_eq!(parse_duration_from_args(&strings(&["-t", "00:01:00"])), Some(60_000_000));
    assert_eq!(
        parse_duration_from_args(&strings(&["-f", "lavfi", "-i", "testsrc=duration=5:size=1280x720"])),
        Some(5_000_000)
    );
    assert_eq!(parse_duration_from_args(&strings(&["-i", "a.mp4"])), None);
}

#[test]
fn batch_lines_join_continuations() {
    let lines = strings(&[
        "# a comment",
        "ffmpeg -i a.mp4 \\",
        "   -c:v libx264 b.mp4",
        "",
        "",
        "encode -i c.mp4 -o d.mp4",
        "probe -i e.mp4 \\",
    ]);
    assert_eq!(
        parse_flw_lines(&lines),
        strings(&[
            "ffmpeg -i a.mp4 -c:v libx264 b.mp4",
            "encode -i c.mp4 -o d.mp4",
            "probe -i e.mp4 ",
        ])
    );
}

#[test]
fn command_arguments_in_order() {
    let cmd = FfmpegCommand {
        inputs: strings(&["a.mp4", "b.wav"]),
        output: "out.mkv".to_string(),
        video_codec: None,
        audio_codec: Some("aac".to_string()),
        preset: None,
        extra_args: strings(&["-shortest"]),
    };
    assert_eq!(
        cmd.to_args(),
        strings(&["-i", "a.mp4", "-i", "b.wav", "-c:a", "aac", "-shortest", "out.mkv"])
    );
    let c = encode_args_to_command(EncodeArgs {
        inputs: strings(&["x"]),
        output: "y".to_string(),
        video_codec: None,
        audio_codec: None,
        preset: None,
        extra_args: Vec::new(),
    });
    assert_eq!(c.to_args(), strings(&["-i", "x", "y"]));
    let p = probe_args_to_command(ProbeArgs { input: "z".to_string() });
    assert_eq!(p.output, "-");
    assert_eq!(p.extra_args, strings(&["-f", "null"]));
}

#[test]
fn formatted_lines() {
    assert_eq!(format_duration(3_723_000_000), "01:02:03");
    assert_eq!(format_duration(0), "00:00:00");
    assert_eq!(format_duration(360_000_000_000), "100:00:00");
    assert_eq!(format_bytes(512), "512 B");
    assert_eq!(format_bytes(1536), "1.50 KB");
    assert_eq!(format_bytes(10_485_760), "10.00 MB");
    assert_eq!(format_bytes(3_221_225_472), "3.00 GB");
    assert_eq!(
        format_output_line(&OutputInfo {
            container: String::new(),
            codec: "h264".to_string(),
            width: 0,
            height: 720,
            path: String::new(),
        }),
        "Output : output (unknown/h264 unknown)"
    );
    assert_eq!(
        format_input_line(&InputInfo {
            width: 0,
            height: 0,
            fps: dec(0, 0),
            codec: String::new(),
            duration_us: None,
            container: None,
            path: None,
            bitrate_kbps: None,
        }),
        "Input  : unknown (unknown/unknown unknown @ unknown fps, duration=--:--:--, bitrate=unknown)"
    );
    assert_eq!(
        format_summary_line(&EncodeSummary {
            final_size_bytes: 2048,
            duration_us: 61_000_000,
            avg_bitrate_kbps: dec(1398, 1),
        }),
        "Final  : size=2.00 KB avg_bitrate=139.8 kbps duration=00:01:01"
    );
    let still = FfmpegProgress {
        frame: 0,
        fps: dec(0, 0),
        time_us: 0,
        bitrate_kbps: dec(0, 0),
        speed: dec(0, 0),
        size_bytes: 0,
    };
    assert_eq!(format_progress_line(&still, None), None);
    let moving = FfmpegProgress { frame: 3, speed: dec(2, 0), ..still };
    assert_eq!(
        format_progress_line(&moving, None),
        Some("progress: time=00:00:00/--:--:-- frame=3 speed=2x".to_string())
    );
}

#[test]
fn split_ffmpeg_arguments_start_a_job() {
    let mut s = Session::new(Vec::new());
    match s.start_ffmpeg(Ok(strings(&["-i", "a.mp4", "-t", "2", "b.mp4"]))) {
        SessionAction::Spawn(a) => assert_eq!(a, strings(&["-i", "a.mp4", "-t", "2", "b.mp4"])),
        other => panic!("unexpected {:?}", other),
    }
    assert_eq!(s.duration_us, Some(2_000_000));
    assert!(s.job_running);
    let mut s = Session::new(Vec::new());
    assert!(matches!(s.start_ffmpeg(Ok(Vec::new())), SessionAction::Nothing));
    assert_eq!(s.history.last().unwrap(), "error: ffmpeg requires arguments");
    assert!(matches!(s.start_ffmpeg(Err("missing closing quote".to_string())), SessionAction::Nothing));
    assert_eq!(s.history.last().unwrap(), "error: missing closing quote");
    assert!(!s.job_running);
}
