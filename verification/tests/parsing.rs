use mediaconv::diag::{
    extract_audio_codec_from_line, extract_bitrate_from_line, extract_duration_from_line,
    extract_video_info_from_line, parse_duration, parse_media_info,
};
use mediaconv::num::{format_milli, parse_milli, parse_u32, parse_u64, u64_to_string};
use mediaconv::progress::parse_progress_line;

#[test]
fn duration_line_parses_to_ninety_seconds() {
    let line = "  Duration: 00:01:30.00, start: 0.000000, bitrate: 128 kb/s";
    let d = extract_duration_from_line(line).expect("duration text");
    assert_eq!(d, "00:01:30.00");
    assert_eq!(parse_duration(&d), Some(90_000));
    assert_eq!(parse_duration(&d).unwrap() as f64 / 1000.0, 90.0);
}

#[test]
fn duration_without_comma_is_absent() {
    assert_eq!(extract_duration_from_line("  Duration: 00:01:30.00"), None);
    assert_eq!(extract_duration_from_line("nothing here"), None);
}

#[test]
fn malformed_clock_strings_parse_to_nothing() {
    assert_eq!(parse_duration("00:01"), None);
    assert_eq!(parse_duration("aa:bb:cc"), None);
    assert_eq!(parse_duration("1:2:3:4"), None);
    assert_eq!(parse_duration(""), None);
}

#[test]
fn fractional_seconds_keep_their_milliseconds() {
    assert_eq!(parse_duration("00:00:01.5"), Some(1_500));
    assert_eq!(parse_duration("01:02:03.004"), Some(3_723_004));
}

#[test]
fn video_line_yields_codec_resolution_and_fps() {
    let line = "  Stream #0:0: Video: h264 (High), yuv420p, 1920x1080, 29.97 fps, 30 tbr";
    let (codec, w, h, fps) = extract_video_info_from_line(line).expect("video info");
    assert_eq!(codec, "h264");
    assert_eq!(w, Some(1920));
    assert_eq!(h, Some(1080));
    assert_eq!(fps, Some(29_970));
}

#[test]
fn fps_token_is_not_mistaken_for_a_resolution() {
    // 29.97 holds a dot and x-less digits; only 1920x1080 qualifies
    let line = "Stream #0:0: Video: vp9, 640x480 [SAR 1:1], 29.97 fps";
    let (_, w, h, _) = extract_video_info_from_line(line).expect("video info");
    assert_eq!((w, h), (Some(640), Some(480)));
}

#[test]
fn rate_tokens_with_at_or_dot_are_excluded() {
    let line = "Stream: Video: h264, 1920x1080@60, 25 fps";
    let (_, w, h, fps) = extract_video_info_from_line(line).expect("video info");
    // the only x-token holds an @, so no resolution is taken
    assert_eq!((w, h), (None, None));
    assert_eq!(fps, Some(25_000));
}

#[test]
fn video_line_without_codec_terminator_yields_nothing() {
    assert_eq!(extract_video_info_from_line("Video: h264").map(|t| t.0), None);
}

#[test]
fn audio_line_yields_its_codec() {
    let line = "  Stream #0:1: Audio: aac (LC), 44100 Hz, stereo";
    assert_eq!(extract_audio_codec_from_line(line), Some("aac".to_string()));
    assert_eq!(extract_audio_codec_from_line("no audio marker"), None);
}

#[test]
fn bitrate_line_yields_the_token_verbatim() {
    let line = "  Duration: 00:01:30.00, start: 0.000000, bitrate: 128 kb/s";
    assert_eq!(extract_bitrate_from_line(line), Some("128".to_string()));
    assert_eq!(extract_bitrate_from_line("bitrate: 128"), None);
}

#[test]
fn whole_capture_fills_the_record() {
    let text = "Input #0, mov,mp4, from 'in.mp4':\n  Duration: 00:01:30.00, start: 0.000000, bitrate: 128 kb/s\n  Stream #0:0: Video: h264 (High), yuv420p, 1280x720, 30 fps\n  Stream #0:1: Audio: aac (LC), 44100 Hz\n";
    let m = parse_media_info(text);
    assert_eq!(m.duration_ms, Some(90_000));
    assert_eq!(m.width, Some(1280));
    assert_eq!(m.height, Some(720));
    assert_eq!(m.video_codec, Some("h264".to_string()));
    assert_eq!(m.audio_codec, Some("aac".to_string()));
    assert_eq!(m.bitrate, Some("128".to_string()));
    assert_eq!(m.fps_milli, Some(30_000));
    assert_eq!(m.file_size, None);
}

#[test]
fn later_lines_overwrite_earlier_fields() {
    let text = "Duration: 00:00:10.00, x\nDuration: 00:00:20.00, x\n";
    assert_eq!(parse_media_info(text).duration_ms, Some(20_000));
}

#[test]
fn empty_capture_yields_an_empty_record() {
    let m = parse_media_info("");
    assert_eq!(m.duration_ms, None);
    assert_eq!(m.video_codec, None);
}

#[test]
fn progress_line_with_half_the_time_elapsed_is_fifty_percent() {
    let line = "frame=120 fps=30.0 out_time_us=5000000 progress=continue";
    let p = parse_progress_line(line, Some(10_000)).expect("progress event");
    assert_eq!(p.frame, Some(120));
    assert_eq!(p.fps_milli, Some(30_000));
    assert_eq!(p.out_time_us, Some(5_000_000));
    assert_eq!(p.progress, Some("continue".to_string()));
    assert_eq!(p.percent_milli, Some(50_000));
    assert_eq!(p.percent_milli.unwrap() as f64 / 1000.0, 50.0);
}

#[test]
fn lines_without_frame_or_phase_yield_no_event() {
    assert!(parse_progress_line("fps=30.0 bitrate=100k", Some(10_000)).is_none());
    assert!(parse_progress_line("", None).is_none());
    assert!(parse_progress_line("out_time_us=5000000 speed=1.5x", Some(10_000)).is_none());
}

#[test]
fn phase_token_alone_is_enough_for_an_event() {
    let p = parse_progress_line("progress=end", None).expect("event");
    assert_eq!(p.progress, Some("end".to_string()));
    assert_eq!(p.frame, None);
    assert_eq!(p.percent_milli, None);
}

#[test]
fn speed_suffix_is_stripped_before_the_parse() {
    let p = parse_progress_line("frame=1 speed=2.5x", None).expect("event");
    assert_eq!(p.speed_milli, Some(2_500));
}

#[test]
fn unparsable_speed_leaves_the_field_unset() {
    let p = parse_progress_line("frame=1 speed=N/A", None).expect("event");
    assert_eq!(p.speed_milli, None);
}

#[test]
fn unknown_keys_are_ignored() {
    let p = parse_progress_line("frame=7 stream_0_0_q=29.0 drop_frames=0", None).expect("event");
    assert_eq!(p.frame, Some(7));
    assert_eq!(p.total_size, None);
}

#[test]
fn percentage_is_clamped_to_one_hundred() {
    let line = "out_time_us=25000000 progress=continue";
    let p = parse_progress_line(line, Some(10_000)).expect("event");
    assert_eq!(p.percent_milli, Some(100_000));
}

#[test]
fn percentage_needs_both_time_and_duration() {
    let p = parse_progress_line("out_time_us=5000000 progress=continue", None).expect("event");
    assert_eq!(p.percent_milli, None);
    let q = parse_progress_line("progress=continue", Some(10_000)).expect("event");
    assert_eq!(q.percent_milli, None);
}

#[test]
fn bitrate_and_size_tokens_are_kept() {
    let p = parse_progress_line("frame=2 bitrate=615.1kbits/s total_size=262144", None)
        .expect("event");
    assert_eq!(p.bitrate, Some("615.1kbits/s".to_string()));
    assert_eq!(p.total_size, Some(262_144));
}

#[test]
fn carriage_return_line_endings_are_handled() {
    let text = "Input #0\r\n  Duration: 00:00:10.00, start\r\n";
    assert_eq!(parse_media_info(text).duration_ms, Some(10_000));
}

#[test]
fn an_unreadable_later_duration_overwrites_with_absence() {
    let text = "Duration: 00:00:10.00, x\nDuration: N/A, y\n";
    assert_eq!(parse_media_info(text).duration_ms, None);
}

#[test]
fn a_zero_total_duration_counts_as_complete() {
    let p = parse_progress_line("out_time_us=0 progress=end", Some(0)).expect("event");
    assert_eq!(p.percent_milli, Some(100_000));
}

#[test]
fn the_elapsed_time_must_precede_the_phase_token() {
    // tokens fold in order: a phase token sees only what came before it
    let p = parse_progress_line("progress=continue out_time_us=5000000", Some(10_000))
        .expect("event");
    assert_eq!(p.out_time_us, Some(5_000_000));
    assert_eq!(p.percent_milli, None);
}

#[test]
fn numerals_parse_and_format_both_ways() {
    assert_eq!(parse_u64("0"), Some(0));
    assert_eq!(parse_u64("18446744073709551615"), Some(u64::MAX));
    assert_eq!(parse_u64("18446744073709551616"), None);
    assert_eq!(parse_u64("12a"), None);
    assert_eq!(parse_u32("4294967295"), Some(u32::MAX));
    assert_eq!(parse_u32("4294967296"), None);
    assert_eq!(parse_milli("2.5"), Some(2_500));
    assert_eq!(parse_milli("30.0"), Some(30_000));
    assert_eq!(parse_milli(".5"), Some(500));
    assert_eq!(parse_milli("5."), Some(5_000));
    assert_eq!(parse_milli("."), None);
    assert_eq!(parse_milli("0.9999"), Some(999));
    assert_eq!(u64_to_string(0), "0");
    assert_eq!(u64_to_string(90), "90");
    assert_eq!(format_milli(90_000), "90");
    assert_eq!(format_milli(2_500), "2.5");
    assert_eq!(format_milli(2_050), "2.05");
    assert_eq!(format_milli(2_005), "2.005");
}
