use ffx::event::{classify_log_line, FfmpegEvent, LogLevel};
use ffx::metadata::MetadataParser;
use ffx::progress::{parse_progress_kv_line, parse_progress_line, ProgressAccumulator};
use ffx::reader::{split_lines, LineSplitter};
use ffx::runner::{exit_event, has_progress_stdout, EventPipeline, StreamKind};
use ffx::summary::parse_summary_line;
use ffx::units::{
    parse_bitrate_to_kbps, parse_ffmpeg_time, parse_size_to_bytes, split_number_unit, Decimal,
};

fn dec(mantissa: u64, scale: u32) -> Decimal {
    Decimal { mantissa, scale }
}

fn strings(v: &[&str]) -> Vec<String> {
    v.iter().map(|s| s.to_string()).collect()
}

#[test]
fn progress_line_parses_every_field() {
    let p = parse_progress_line(
        "frame=100 fps=25 time=00:00:04.00 bitrate=1000.0kbits/s speed=2.0x size=256kB",
    )
    .unwrap();
    assert_eq!(p.frame, 100);
    assert_eq!(p.fps, dec(25, 0));
    assert_eq!(p.time_us, 4_000_000);
    assert_eq!(p.bitrate_kbps, dec(10_000, 1));
    assert_eq!(p.speed, dec(20, 1));
    assert_eq!(p.size_bytes, 256_000);
}

#[test]
fn progress_line_with_padding_and_missing_fields() {
    let p = parse_progress_line("frame=  120 fps= 29.97 q=28.0 time=00:01:02.50").unwrap();
    assert_eq!(p.frame, 120);
    assert_eq!(p.fps, dec(2997, 2));
    assert_eq!(p.time_us, 62_500_000);
    assert_eq!(p.bitrate_kbps, dec(0, 0));
    assert_eq!(p.speed, dec(0, 0));
    assert_eq!(p.size_bytes, 0);
}

#[test]
fn progress_line_without_fields_gives_nothing() {
    assert!(parse_progress_line("Press [q] to stop, [?] for help").is_none());
    assert!(parse_progress_line("").is_none());
}

#[test]
fn stateless_parsers_repeat() {
    let line = "frame=7 fps=3 time=00:00:01.00 bitrate=12kbits/s speed=1x size=1kB";
    assert_eq!(parse_progress_line(line), parse_progress_line(line));
    let s = "Lsize=10kB time=00:00:02.00 bitrate=40kbits/s";
    assert_eq!(parse_summary_line(s), parse_summary_line(s));
    assert_eq!(classify_log_line(s), classify_log_line(s));
}

#[test]
fn bitrate_units_normalise_to_kbps() {
    assert_eq!(parse_bitrate_to_kbps(dec(2000, 0), "kbit/s"), Some(dec(2000, 0)));
    assert_eq!(parse_bitrate_to_kbps(dec(15, 1), "Mbit/s"), Some(dec(15_000, 1)));
    assert_eq!(parse_bitrate_to_kbps(dec(2, 0), "gbits/s"), Some(dec(2_000_000, 0)));
    assert_eq!(parse_bitrate_to_kbps(dec(1, 0), "bit/s"), None);
    assert_eq!(parse_bitrate_to_kbps(dec(u64::MAX, 0), "Gbit/s"), None);
}

#[test]
fn bitrate_round_trip_is_exact() {
    assert_eq!(parse_bitrate_to_kbps(dec(1, 4), "kbit/s"), Some(dec(1, 4)));
    assert_eq!(parse_bitrate_to_kbps(dec(12345, 4), "kbits/s"), Some(dec(12345, 4)));
    let k = parse_bitrate_to_kbps(dec(12345, 4), "Mbit/s").unwrap();
    assert_eq!((k.mantissa / 1000, k.mantissa % 1000, k.scale), (12345, 0, 4));
    let p = parse_progress_line("bitrate=0.0001kbits/s").unwrap();
    assert_eq!(p.bitrate_kbps, dec(1, 4));
}

#[test]
fn size_units_normalise_to_bytes() {
    assert_eq!(parse_size_to_bytes(Decimal { mantissa: 10, scale: 0 }, "MiB"), Some(10_485_760));
    assert_eq!(parse_size_to_bytes(Decimal { mantissa: 256, scale: 0 }, "kB"), Some(256_000));
    assert_eq!(parse_size_to_bytes(Decimal { mantissa: 15, scale: 1 }, "KiB"), Some(1_536));
    assert_eq!(parse_size_to_bytes(Decimal { mantissa: 3, scale: 0 }, " bytes "), Some(3));
    assert_eq!(parse_size_to_bytes(Decimal { mantissa: 1, scale: 0 }, "TiB"), Some(1_099_511_627_776));
    assert_eq!(parse_size_to_bytes(Decimal { mantissa: 1, scale: 0 }, "parsecs"), None);
}

#[test]
fn times_read_in_three_forms() {
    assert_eq!(parse_ffmpeg_time("90"), Some(90_000_000));
    assert_eq!(parse_ffmpeg_time("1:30"), Some(90_000_000));
    assert_eq!(parse_ffmpeg_time("01:02:03.5"), Some(3_723_500_000));
    assert_eq!(parse_ffmpeg_time("00:00:00.000001"), Some(1));
    assert_eq!(parse_ffmpeg_time("abc"), None);
    assert_eq!(parse_ffmpeg_time(""), None);
    assert_eq!(parse_ffmpeg_time("1::2"), None);
    assert_eq!(parse_ffmpeg_time("1:2:3:4"), None);
}

#[test]
fn number_and_unit_split() {
    assert_eq!(
        split_number_unit(" 1500.5kbits/s "),
        Some(("1500.5".to_string(), "kbits/s".to_string()))
    );
    assert_eq!(split_number_unit("12 MB"), Some(("12".to_string(), "MB".to_string())));
    assert_eq!(split_number_unit("N/A"), None);
    assert_eq!(split_number_unit("123"), None);
}

#[test]
fn progress_protocol_flushes_on_sentinel() {
    let mut acc = ProgressAccumulator::new();
    assert!(parse_progress_kv_line("frame=10", &mut acc).is_none());
    assert!(parse_progress_kv_line("fps=30.0", &mut acc).is_none());
    assert!(parse_progress_kv_line("bitrate=1.5Mbit/s", &mut acc).is_none());
    assert!(parse_progress_kv_line("total_size=2048", &mut acc).is_none());
    assert!(parse_progress_kv_line("out_time_us=1500000", &mut acc).is_none());
    assert!(parse_progress_kv_line("out_time=00:00:09.00", &mut acc).is_none());
    assert!(parse_progress_kv_line("speed=1.25x", &mut acc).is_none());
    let p = parse_progress_kv_line("progress=continue", &mut acc).unwrap();
    assert_eq!(p.frame, 10);
    assert_eq!(p.fps, dec(300, 1));
    assert_eq!(p.bitrate_kbps, dec(15_000, 1));
    assert_eq!(p.size_bytes, 2048);
    assert_eq!(p.time_us, 1_500_000);
    assert_eq!(p.speed, dec(125, 2));
    assert!(parse_progress_kv_line("progress=end", &mut acc).is_none());
}

#[test]
fn progress_protocol_text_time_when_alone() {
    let mut acc = ProgressAccumulator::new();
    assert!(parse_progress_kv_line("out_time=00:00:09.00", &mut acc).is_none());
    let p = parse_progress_kv_line("progress=end", &mut acc).unwrap();
    assert_eq!(p.time_us, 9_000_000);
}

#[test]
fn summary_line_parses() {
    let s = parse_summary_line(
        "video:900kB audio:100kB subtitle:0kB other streams:0kB global headers:0kB muxing overhead: 2.4% Lsize=    1024kB time=00:01:00.00 bitrate= 139.8kbits/s speed=10x",
    )
    .unwrap();
    assert_eq!(s.final_size_bytes, 1_024_000);
    assert_eq!(s.duration_us, 60_000_000);
    assert_eq!(s.avg_bitrate_kbps, dec(1398, 1));
    assert!(parse_summary_line("nothing here").is_none());
}

#[test]
fn audio_only_input_is_described_at_output_header() {
    let mut m = MetadataParser::new();
    assert!(m.parse_input_line("Input #0, mp3, from 'song.mp3':").is_none());
    assert!(m
        .parse_input_line("  Duration: 00:01:00.00, start: 0.000000, bitrate: 128 kb/s")
        .is_none());
    assert!(m
        .parse_input_line("    Stream #0:0: Audio: mp3, 44100 Hz, stereo, fltp, 128 kb/s")
        .is_none());
    let info = m.parse_input_line("Output #0, mp4, to 'out.mp4':").unwrap();
    assert_eq!(info.width, 0);
    assert_eq!(info.height, 0);
    assert_eq!(info.fps, dec(0, 0));
    assert_eq!(info.codec, "");
    assert_eq!(info.duration_us, Some(60_000_000));
    assert_eq!(info.container, Some("mp3".to_string()));
    assert_eq!(info.path, Some("song.mp3".to_string()));
    assert_eq!(info.bitrate_kbps, Some(dec(128, 0)));
}

#[test]
fn video_input_is_described_once() {
    let mut m = MetadataParser::new();
    assert!(m
        .parse_input_line("Input #0, mov,mp4,m4a,3gp,3g2,mj2, from 'in.mp4':")
        .is_none());
    assert!(m
        .parse_input_line("  Duration: 00:00:10.00, start: 0.000000, bitrate: 5120 kb/s")
        .is_none());
    let info = m
        .parse_input_line("    Stream #0:0(und): Video: h264 (High), yuv420p, 1920x1080, 5000 kb/s, 25 fps, 25 tbr")
        .unwrap();
    assert_eq!(info.codec, "h264 (High)");
    assert_eq!((info.width, info.height), (1920, 1080));
    assert_eq!(info.fps, dec(25, 0));
    assert_eq!(info.container, Some("mov,mp4,m4a,3gp,3g2,mj2".to_string()));
    assert_eq!(info.path, Some("in.mp4".to_string()));
    assert!(m
        .parse_input_line("    Stream #0:1(und): Video: h264 (Main), yuv420p, 640x360, 30 fps")
        .is_none());
    assert!(m.parse_input_line("Output #0, mp4, to 'out.mp4':").is_none());
}

#[test]
fn output_is_described_once_per_block() {
    let mut m = MetadataParser::new();
    assert!(m.parse_output_line("Output #0, mp4, to 'out.mp4':").is_none());
    let o = m
        .parse_output_line("    Stream #0:0: Video: h264 (libx264), yuv420p, 1280x720, q=2-31, 25 fps")
        .unwrap();
    assert_eq!(o.container, "mp4");
    assert_eq!(o.codec, "h264 (libx264)");
    assert_eq!((o.width, o.height), (1280, 720));
    assert_eq!(o.path, "out.mp4");
    assert!(m
        .parse_output_line("    Stream #0:1: Video: mjpeg, yuvj420p, 320x240")
        .is_none());
}

#[test]
fn classifier_rules() {
    assert_eq!(classify_log_line(""), LogLevel::Noise);
    assert_eq!(classify_log_line("   "), LogLevel::Noise);
    assert_eq!(classify_log_line("Input #0, mp4, from 'a.mp4':"), LogLevel::Input);
    assert_eq!(classify_log_line("Output #0, mp4, to 'b.mp4':"), LogLevel::Output);
    assert_eq!(classify_log_line("frame=1 time=00:00:00.04"), LogLevel::Progress);
    assert_eq!(classify_log_line("Lsize=1kB time=1 bitrate=1kbits/s"), LogLevel::Summary);
    assert_eq!(classify_log_line("ffmpeg version 6.0 Copyright"), LogLevel::Noise);
    assert_eq!(classify_log_line("[libx264 @ 0x1] using cpu capabilities: MMX2 SSE2Fast"), LogLevel::Noise);
    assert_eq!(classify_log_line("in.mp4: No such file or directory"), LogLevel::Error);
    assert_eq!(classify_log_line("Invalid argument"), LogLevel::Error);
    assert_eq!(classify_log_line("Warning: something odd"), LogLevel::Warning);
    assert_eq!(classify_log_line("this option is Deprecated"), LogLevel::Warning);
}

#[test]
fn unrecognised_line_is_noise() {
    assert_eq!(classify_log_line("Press [q] to stop, [?] for help"), LogLevel::Noise);
    assert_eq!(classify_log_line("Stream mapping:"), LogLevel::Noise);
}

#[test]
fn overwrite_question_is_a_prompt() {
    assert_eq!(classify_log_line("Overwrite file.mp4? [y/N]"), LogLevel::Prompt);
    assert_eq!(
        classify_log_line("File 'out.mp4' already exists. Overwrite? [y/N]"),
        LogLevel::Prompt
    );
}

#[test]
fn malformed_bytes_still_make_a_line() {
    assert_eq!(split_lines(b"ab\xffc"), strings(&["ab\u{FFFD}c"]));
    assert_eq!(split_lines(b"ab\xffc\r\n"), strings(&["ab\u{FFFD}c"]));
    assert_eq!(split_lines(b"\xff"), strings(&["\u{FFFD}"]));
}

#[test]
fn lines_split_on_both_terminators() {
    assert_eq!(
        split_lines(b"one\r\rtwo\nthree\r\n\nfour"),
        strings(&["one", "two", "three", "four"])
    );
    assert!(split_lines(b"\r\n\r\n").is_empty());
    let mut sp = LineSplitter::new();
    assert!(sp.push_byte(b'x').is_none());
    assert_eq!(sp.push_byte(b'\r'), Some("x".to_string()));
    assert!(sp.push_byte(b'\n').is_none());
    assert!(sp.push_byte(b'y').is_none());
    assert_eq!(sp.finish(), Some("y".to_string()));
}

#[test]
fn progress_pipe_detection() {
    assert!(has_progress_stdout(&strings(&["-i", "a", "-progress", "pipe:1", "b"])));
    assert!(has_progress_stdout(&strings(&["-progress=pipe:1"])));
    assert!(!has_progress_stdout(&strings(&["-progress", "out.txt"])));
    assert!(!has_progress_stdout(&strings(&[])));
}

#[test]
fn pipeline_routes_lines() {
    let mut p = EventPipeline::new();
    match p.handle_line(StreamKind::Stderr, "frame=5 fps=1 time=00:00:01.00") {
        Some(FfmpegEvent::Progress(s)) => assert_eq!(s.frame, 5),
        other => panic!("unexpected {:?}", other),
    }
    assert!(p.handle_line(StreamKind::Stderr, "Input #0, wav, from 'a.wav':").is_none());
    match p.handle_line(StreamKind::Stderr, "Output #0, mp3, to 'b.mp3':") {
        Some(FfmpegEvent::Input(i)) => assert_eq!(i.path, Some("a.wav".to_string())),
        other => panic!("unexpected {:?}", other),
    }
    match p.handle_line(StreamKind::Stderr, "Overwrite file.mp4? [y/N]") {
        Some(FfmpegEvent::Prompt(t)) => assert_eq!(t, "Overwrite file.mp4? [y/N]"),
        other => panic!("unexpected {:?}", other),
    }
    assert!(!p.error_seen);
    match p.handle_line(StreamKind::Stderr, "a.wav: Invalid data found") {
        Some(FfmpegEvent::Error(t)) => assert_eq!(t, "a.wav: Invalid data found"),
        other => panic!("unexpected {:?}", other),
    }
    assert!(p.error_seen);
    assert!(p.handle_line(StreamKind::Stderr, "Stream mapping:").is_none());
    assert!(p.handle_line(StreamKind::Stdout, "frame=3").is_none());
    match p.handle_line(StreamKind::Stdout, "progress=continue") {
        Some(FfmpegEvent::Progress(s)) => assert_eq!(s.frame, 3),
        other => panic!("unexpected {:?}", other),
    }
}

#[test]
fn exit_status_event() {
    assert!(exit_event(true, false, "exit status: 0").is_none());
    assert!(exit_event(false, true, "exit status: 1").is_none());
    assert_eq!(
        exit_event(false, false, "exit status: 1"),
        Some(FfmpegEvent::Error("ffmpeg exited with status exit status: 1".to_string()))
    );
}

#[test]
fn progress_keys_count_only_as_whole_tokens() {
    assert!(parse_progress_line("Lsize=1024kB").is_none());
    assert!(parse_progress_line("out_time=00:00:01.00").is_none());
    let p = parse_progress_line("Lsize=1024kB size=2kB").unwrap();
    assert_eq!(p.size_bytes, 2_000);
    let s = parse_summary_line("Lsize=1024kB").unwrap();
    assert_eq!(s.final_size_bytes, 1_024_000);
}
