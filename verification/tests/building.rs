use mediaconv::command::{
    build_conversion_args, build_webp_default_args, crf_value, extension_of, get_supported_formats,
    is_image_format, is_image_request, needs_source_duration, progress_reference_duration,
    speed_factor, ConversionRequest,
};
use mediaconv::probe::select_stream_dimensions;
use mediaconv::session::{classify_completion, ConversionError, SessionGuard};

fn video_request(format: &str) -> ConversionRequest {
    ConversionRequest {
        input_path: "in.avi".to_string(),
        output_path: format!("out.{}", format),
        format: format.to_string(),
        quality: None,
        width: None,
        height: None,
        duration_ms: None,
        duration_mode: None,
        fps_milli: None,
        disable_audio: None,
    }
}

fn arg_pair(args: &[String], flag: &str) -> Option<String> {
    args.iter()
        .position(|a| a == flag)
        .map(|i| args[i + 1].clone())
}

#[test]
fn quality_tiers_map_to_fixed_rate_factors() {
    assert_eq!(crf_value(&Some("low".to_string())), "28");
    assert_eq!(crf_value(&Some("medium".to_string())), "23");
    assert_eq!(crf_value(&Some("high".to_string())), "18");
    assert_eq!(crf_value(&Some("30".to_string())), "30");
    assert_eq!(crf_value(&Some("nonsense".to_string())), "23");
    assert_eq!(crf_value(&Some("999".to_string())), "23");
    assert_eq!(crf_value(&None), "23");
}

#[test]
fn quality_reaches_the_argument_list() {
    for (tier, crf) in [("low", "28"), ("medium", "23"), ("high", "18")] {
        let mut req = video_request("mp4");
        req.quality = Some(tier.to_string());
        let args = build_conversion_args(&req, None);
        assert_eq!(arg_pair(&args, "-crf").as_deref(), Some(crf));
    }
}

#[test]
fn default_format_takes_the_full_h264_path() {
    let args = build_conversion_args(&video_request("mp4"), None);
    let expect: Vec<&str> = vec![
        "-i", "in.avi", "-y", "-c:v", "libx264", "-crf", "23", "-preset", "medium", "-progress",
        "pipe:1", "out.mp4",
    ];
    assert_eq!(args, expect);
}

#[test]
fn vp9_format_runs_in_pure_quality_mode() {
    let args = build_conversion_args(&video_request("webm"), None);
    assert_eq!(arg_pair(&args, "-c:v").as_deref(), Some("libvpx-vp9"));
    assert_eq!(arg_pair(&args, "-b:v").as_deref(), Some("0"));
    assert!(!args.contains(&"-preset".to_string()));
}

#[test]
fn other_containers_take_h264_without_a_preset() {
    for f in ["avi", "mov", "mkv", "unknown"] {
        let args = build_conversion_args(&video_request(f), None);
        assert_eq!(arg_pair(&args, "-c:v").as_deref(), Some("libx264"));
        assert!(!args.contains(&"-preset".to_string()));
    }
}

#[test]
fn trim_mode_emits_a_literal_time_limit() {
    let mut req = video_request("mp4");
    req.duration_ms = Some(90_000);
    let args = build_conversion_args(&req, None);
    assert_eq!(arg_pair(&args, "-t").as_deref(), Some("90"));

    req.duration_mode = Some("unrecognized".to_string());
    let args = build_conversion_args(&req, None);
    assert_eq!(arg_pair(&args, "-t").as_deref(), Some("90"));
}

#[test]
fn compressing_ten_seconds_into_five_doubles_the_speed() {
    assert_eq!(speed_factor(10_000, 5_000), 2_000);
    let mut req = video_request("mp4");
    req.duration_ms = Some(5_000);
    req.duration_mode = Some("compress".to_string());
    let args = build_conversion_args(&req, Some(10_000));
    assert_eq!(arg_pair(&args, "-filter:v").as_deref(), Some("setpts=PTS/2"));
    assert_eq!(arg_pair(&args, "-filter:a").as_deref(), Some("atempo=2"));
    assert!(!args.contains(&"-t".to_string()));
}

#[test]
fn compress_mode_without_a_source_duration_adds_nothing() {
    let mut req = video_request("mp4");
    req.duration_ms = Some(5_000);
    req.duration_mode = Some("compress".to_string());
    let args = build_conversion_args(&req, None);
    assert!(!args.contains(&"-filter:v".to_string()));
    assert!(!args.contains(&"-filter:a".to_string()));
    assert!(!args.contains(&"-t".to_string()));
    assert_eq!(
        args,
        vec!["-i", "in.avi", "-y", "-c:v", "libx264", "-crf", "23", "-preset", "medium",
            "-progress", "pipe:1", "out.mp4"]
    );
}

#[test]
fn compress_mode_combines_scaling_with_the_retiming_filter() {
    let mut req = video_request("mp4");
    req.duration_ms = Some(5_000);
    req.duration_mode = Some("compress".to_string());
    req.width = Some(640);
    req.height = Some(480);
    let args = build_conversion_args(&req, Some(10_000));
    assert_eq!(
        arg_pair(&args, "-filter:v").as_deref(),
        Some("scale=640:480,setpts=PTS/2")
    );
}

#[test]
fn extreme_speed_factors_strip_the_audio() {
    let mut req = video_request("mp4");
    req.duration_ms = Some(1_000);
    req.duration_mode = Some("compress".to_string());
    let args = build_conversion_args(&req, Some(10_000));
    assert!(args.contains(&"-an".to_string()));
    assert!(!args.contains(&"-filter:a".to_string()));

    // factor of one half still lies inside the tolerable window
    assert_eq!(speed_factor(5_000, 10_000), 500);
    let args = build_conversion_args(&req, Some(500));
    assert_eq!(arg_pair(&args, "-filter:a").as_deref(), Some("atempo=0.5"));
}

#[test]
fn plain_scaling_applies_only_without_a_duration() {
    let mut req = video_request("mp4");
    req.width = Some(1280);
    req.height = Some(720);
    let args = build_conversion_args(&req, None);
    assert_eq!(arg_pair(&args, "-vf").as_deref(), Some("scale=1280:720"));

    req.duration_ms = Some(2_000);
    let args = build_conversion_args(&req, None);
    assert!(!args.contains(&"-vf".to_string()));
}

#[test]
fn frame_rate_and_audio_toggle_emit_their_flags() {
    let mut req = video_request("mp4");
    req.fps_milli = Some(29_970);
    req.disable_audio = Some(true);
    let args = build_conversion_args(&req, None);
    assert_eq!(arg_pair(&args, "-r").as_deref(), Some("29.97"));
    assert!(args.contains(&"-an".to_string()));
}

#[test]
fn png_to_ico_without_dimensions_scales_to_thirty_two() {
    let req = ConversionRequest {
        input_path: "icon.png".to_string(),
        output_path: "icon.ico".to_string(),
        format: "ico".to_string(),
        quality: None,
        width: None,
        height: None,
        duration_ms: Some(5_000),
        duration_mode: Some("trim".to_string()),
        fps_milli: Some(30_000),
        disable_audio: None,
    };
    assert!(is_image_request(&req));
    let args = build_conversion_args(&req, None);
    assert_eq!(
        args,
        vec!["-i", "icon.png", "-vf", "scale=32:32", "-c:v", "png", "-y", "icon.ico"]
    );
    // the video-path duration and frame-rate branches are never entered
    assert!(!args.contains(&"-t".to_string()));
    assert!(!args.contains(&"-r".to_string()));
    assert!(!args.contains(&"-progress".to_string()));
}

#[test]
fn ico_with_explicit_dimensions_keeps_them() {
    let mut req = video_request("ico");
    req.input_path = "a.bmp".to_string();
    req.output_path = "a.ico".to_string();
    req.width = Some(64);
    req.height = Some(64);
    let args = build_conversion_args(&req, None);
    assert_eq!(arg_pair(&args, "-vf").as_deref(), Some("scale=64:64"));
    assert_eq!(arg_pair(&args, "-c:v").as_deref(), Some("png"));
}

#[test]
fn webp_image_output_sets_an_explicit_quality() {
    let mut req = video_request("webp");
    req.input_path = "photo.JPG".to_string();
    req.output_path = "photo.webp".to_string();
    req.quality = Some("high".to_string());
    let args = build_conversion_args(&req, None);
    assert_eq!(arg_pair(&args, "-c:v").as_deref(), Some("libwebp"));
    assert_eq!(arg_pair(&args, "-quality").as_deref(), Some("95"));

    req.quality = None;
    let args = build_conversion_args(&req, None);
    assert_eq!(arg_pair(&args, "-quality").as_deref(), Some("80"));
}

#[test]
fn other_image_pairs_only_scale_when_asked() {
    let mut req = video_request("jpg");
    req.input_path = "a.png".to_string();
    req.output_path = "b.jpg".to_string();
    let args = build_conversion_args(&req, None);
    assert_eq!(args, vec!["-i", "a.png", "-y", "b.jpg"]);

    req.width = Some(100);
    req.height = Some(50);
    let args = build_conversion_args(&req, None);
    assert_eq!(
        args,
        vec!["-i", "a.png", "-vf", "scale=100:50", "-y", "b.jpg"]
    );
}

#[test]
fn a_video_output_from_an_image_is_no_image_pair() {
    let mut req = video_request("mp4");
    req.input_path = "a.png".to_string();
    req.output_path = "b.mp4".to_string();
    assert!(!is_image_request(&req));
    let args = build_conversion_args(&req, None);
    assert!(args.contains(&"-progress".to_string()));
}

#[test]
fn the_default_webp_conversion_uses_the_fixed_arguments() {
    let args = build_webp_default_args("pic.png", "/downloads/pic.webp");
    assert_eq!(
        args,
        vec!["-i", "pic.png", "-c:v", "libwebp", "-quality", "80", "-y", "/downloads/pic.webp"]
    );
}

#[test]
fn extensions_come_from_the_file_name_alone() {
    assert_eq!(extension_of("dir/clip.mp4"), "mp4");
    assert_eq!(extension_of("C:\\Users\\me\\clip.PNG"), "PNG");
    assert_eq!(extension_of("archive.tar.gz"), "gz");
    assert_eq!(extension_of("dir.d/noext"), "");
    assert_eq!(extension_of(".hidden"), "");
    assert!(is_image_format("PNG"));
    assert!(is_image_format("jpeg"));
    assert!(!is_image_format("mp4"));
}

#[test]
fn only_compress_requests_need_a_source_probe() {
    let mut req = video_request("mp4");
    assert!(!needs_source_duration(&req));
    req.duration_ms = Some(5_000);
    assert!(!needs_source_duration(&req));
    req.duration_mode = Some("compress".to_string());
    assert!(needs_source_duration(&req));
}

#[test]
fn trim_mode_supplies_the_progress_reference_itself() {
    let mut req = video_request("mp4");
    req.duration_ms = Some(5_000);
    req.duration_mode = Some("trim".to_string());
    assert_eq!(progress_reference_duration(&req, Some(99_000)), Some(5_000));
    req.duration_mode = None;
    assert_eq!(progress_reference_duration(&req, Some(99_000)), Some(99_000));
    assert_eq!(progress_reference_duration(&req, None), None);
}

#[test]
fn the_format_surface_is_complete_and_ordered() {
    let formats = get_supported_formats();
    assert_eq!(formats.len(), 23);
    assert_eq!(formats[0], "mp4");
    assert!(formats.contains(&"webm"));
    assert!(formats.contains(&"flac"));
    assert!(formats.contains(&"ico"));
}

#[test]
fn a_second_request_while_busy_is_refused_without_state_change() {
    let mut guard = SessionGuard::new();
    assert!(guard.begin_conversion().is_ok());
    assert!(guard.is_converting());
    assert_eq!(guard.begin_conversion(), Err(ConversionError::Busy));
    assert!(guard.is_converting());
}

#[test]
fn the_guard_is_released_on_every_exit_path() {
    let mut guard = SessionGuard::new();
    assert!(guard.begin_conversion().is_ok());
    guard.finish_conversion();
    assert!(!guard.is_converting());
    // and a new conversion may start afterwards
    assert!(guard.begin_conversion().is_ok());
    guard.finish_conversion();
    assert!(!guard.is_converting());
}

#[test]
fn a_new_conversion_resets_the_cancellation_flag() {
    let mut guard = SessionGuard::new();
    assert!(guard.cancel_conversion().is_ok());
    assert!(guard.cancellation_requested());
    assert!(guard.begin_conversion().is_ok());
    assert!(!guard.cancellation_requested());
}

#[test]
fn cancellation_discards_the_output_even_on_a_zero_exit() {
    let mut guard = SessionGuard::new();
    assert!(guard.begin_conversion().is_ok());
    assert!(guard.cancel_conversion().is_ok());
    let d = classify_completion(guard.cancellation_requested(), true, Some(0), Some(4096));
    assert!(d.delete_output);
    assert_eq!(d.outcome, Err(ConversionError::Cancelled));
    guard.finish_conversion();
    assert!(!guard.is_converting());
}

#[test]
fn a_nonzero_exit_is_a_command_failure_with_its_code() {
    let d = classify_completion(false, false, Some(1), None);
    assert!(!d.delete_output);
    assert_eq!(
        d.outcome,
        Err(ConversionError::CommandFailed { exit_code: Some(1) })
    );
}

#[test]
fn a_missing_or_empty_output_fails_despite_success() {
    let missing = classify_completion(false, true, Some(0), None);
    assert_eq!(missing.outcome, Err(ConversionError::OutputMissing));
    let empty = classify_completion(false, true, Some(0), Some(0));
    assert_eq!(empty.outcome, Err(ConversionError::OutputEmpty));
    let good = classify_completion(false, true, Some(0), Some(1));
    assert_eq!(good.outcome, Ok(()));
    assert!(!good.delete_output);
}

#[test]
fn the_first_stream_with_both_dimensions_wins() {
    let streams = vec![(None, Some(5)), (Some(1920), Some(1080)), (Some(1), Some(1))];
    assert_eq!(select_stream_dimensions(&streams), Some((1920, 1080)));
    assert_eq!(select_stream_dimensions(&vec![]), None);
    assert_eq!(select_stream_dimensions(&vec![(Some(2), None)]), None);
}
