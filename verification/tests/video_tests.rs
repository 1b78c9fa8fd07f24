use mk_screens::settings::Settings;
use mk_screens::util::Dimensions;
use mk_screens::video::capture_dims;
use mk_screens::video::find_best_stream;
use mk_screens::video::resolve_duration;
use mk_screens::video::schedule_captures;
use mk_screens::video::ProbeInfo;
use mk_screens::video::StreamMeta;
use mk_screens::video::VidInfo;
use mk_screens::Error;

fn sheet_settings(columns: u32, rows: u32, width: u32, skip: u32, scale_up: bool) -> Settings {
    Settings {
        keep_files: false,
        force: false,
        unwrap_errors: false,
        verbose: false,
        scale_up,
        synchronous: false,
        fix_times: false,
        allow_links: false,
        save_failures_to_ignore: false,
        width,
        columns,
        rows,
        skip,
        threads: None,
        out_dir: String::from("screens"),
        input: Vec::new(),
    }
}

fn stream(index: usize, is_video: bool, duration: i64, width: u32, height: u32) -> StreamMeta {
    StreamMeta {
        index,
        is_video,
        duration,
        frames: 250,
        width,
        height,
        coded_width: width,
        coded_height: height,
        pixel_format: String::from("yuv420p"),
        time_base_num: 1,
        time_base_den: 25,
        sar_num: 0,
        sar_den: 1,
        frame_rate: Some((25, 1)),
    }
}

#[test]
fn test_schedule_six_captures_ascend_within_bounds() {
    let duration: i64 = 100_000;
    let times = schedule_captures(duration, 6, 5);
    assert_eq!(times.len(), 6);
    assert_eq!(times, vec![5_000, 20_666, 36_332, 51_998, 67_664, 83_330]);
    for w in times.windows(2) {
        assert!(w[0] <= w[1]);
    }
    for t in &times {
        assert!(*t >= duration / 20);
        assert!(*t < duration * 99 / 100);
    }
}

#[test]
fn test_schedule_zero_duration_is_empty() {
    assert!(schedule_captures(0, 6, 5).is_empty());
    assert!(schedule_captures(-10, 6, 5).is_empty());
}

#[test]
fn test_schedule_tiny_duration() {
    let times = schedule_captures(1, 4, 5);
    assert_eq!(times, vec![0, 0, 0, 0]);
}

#[test]
fn test_resolve_duration_prefers_primary() {
    assert_eq!(resolve_duration(7, &vec![1, 2]), 7);
}

#[test]
fn test_resolve_duration_falls_back_to_audio_stream() {
    assert_eq!(resolve_duration(0, &vec![0, 10_000_000]), 10_000_000);
}

#[test]
fn test_resolve_duration_no_positive_stream() {
    assert_eq!(resolve_duration(0, &vec![0, -1]), 0);
    assert_eq!(resolve_duration(-3, &Vec::new()), -3);
}

#[test]
fn test_capture_dims_clamps_to_narrow_source() {
    let s = sheet_settings(12, 12, 3840, 5, false);
    let dims = capture_dims(&s, Dimensions(200, 150));
    assert_eq!(dims.as_tuple(), (200, 150));
}

#[test]
fn test_capture_dims_scale_up() {
    let s = sheet_settings(12, 12, 3840, 5, true);
    let dims = capture_dims(&s, Dimensions(200, 150));
    assert_eq!(dims.as_tuple(), (316, 237));
}

#[test]
fn test_capture_dims_wide_source() {
    let s = sheet_settings(12, 12, 3840, 5, false);
    let dims = capture_dims(&s, Dimensions(1920, 1080));
    assert_eq!(dims.as_tuple(), (316, 177));
}

#[test]
fn test_find_best_stream_picks_first_video() {
    let streams = vec![stream(0, false, 10, 0, 0), stream(1, true, 0, 1920, 1080)];
    assert_eq!(find_best_stream(&streams, "a.mkv").unwrap(), 1);
}

#[test]
fn test_find_best_stream_no_video() {
    let streams = vec![stream(0, false, 10, 0, 0)];
    let err = find_best_stream(&streams, "a.mkv").unwrap_err();
    assert!(matches!(err, Error::NoVideoStream { path } if path == "a.mkv"));
}

#[test]
fn test_vidinfo_duration_fallback() {
    let s = sheet_settings(3, 2, 960, 5, false);
    let probe = ProbeInfo {
        container_duration: 0,
        streams: vec![stream(0, true, 0, 1920, 1080), stream(1, false, 10_000_000, 0, 0)],
    };
    let info = VidInfo::new(&s, "movie.mkv", &probe).unwrap();
    assert_eq!(info.duration, 10_000_000);
    assert_eq!(info.video_stream_idx, 0);
    assert_eq!(info.width(), 1920);
    assert_eq!(info.height(), 1080);
    assert_eq!(info.img_file_name(), "movie.mkv.jpg");
}

#[test]
fn test_vidinfo_capture_times() {
    let s = sheet_settings(3, 2, 960, 5, false);
    let probe = ProbeInfo {
        container_duration: 10_000_000,
        streams: vec![stream(0, true, 10_000_000, 1920, 1080)],
    };
    let info = VidInfo::new(&s, "movie.mkv", &probe).unwrap();
    let times = info.generate_capture_times(&s);
    assert_eq!(times.len(), 7);
    assert_eq!(times[0], 500_000);
    for w in times.windows(2) {
        assert!(w[0] <= w[1]);
    }
    for t in &times {
        assert!(*t >= 0 && *t < 10_000_000);
    }
}

#[test]
fn test_vidinfo_rejects_no_video_stream() {
    let s = sheet_settings(3, 2, 960, 5, false);
    let probe = ProbeInfo { container_duration: 10, streams: vec![stream(0, false, 10, 0, 0)] };
    let err = VidInfo::new(&s, "audio.mp3", &probe).unwrap_err();
    assert!(matches!(err, Error::NoVideoStream { .. }));
}

#[test]
fn test_vidinfo_rejects_zero_width_stream() {
    let s = sheet_settings(3, 2, 960, 5, false);
    let probe = ProbeInfo { container_duration: 10, streams: vec![stream(0, true, 10, 0, 0)] };
    let err = VidInfo::new(&s, "odd.mkv", &probe).unwrap_err();
    assert!(matches!(err, Error::CorruptStream { path } if path == "odd.mkv"));
}

#[test]
fn test_screencap_rejects_short_buffer() {
    let s = sheet_settings(3, 2, 960, 5, false);
    let probe = ProbeInfo {
        container_duration: 10_000_000,
        streams: vec![stream(0, true, 10_000_000, 1920, 1080)],
    };
    let info = mk_screens::video::VidInfo::new(&s, "movie.mkv", &probe).unwrap();
    let short = vec![0u8; 5];
    let err = mk_screens::screencaps::ScreenCap::new(7, &info, Dimensions(2, 2), short)
        .unwrap_err();
    assert!(matches!(err, Error::DecodeFailure { timestamp: 7, .. }));
    let exact = vec![9u8; 12];
    let cap = mk_screens::screencaps::ScreenCap::new(7, &info, Dimensions(2, 2), exact).unwrap();
    assert_eq!(cap.timestamp, 7);
    assert_eq!(cap.image().width, 2);
}

#[test]
fn test_packet_wanted_and_actual_size() {
    let s = sheet_settings(3, 2, 960, 5, false);
    let probe = ProbeInfo {
        container_duration: 10_000_000,
        streams: vec![stream(0, false, 0, 0, 0), stream(1, true, 10_000_000, 1920, 1080)],
    };
    let info = VidInfo::new(&s, "movie.mkv", &probe).unwrap();
    assert!(info.packet_wanted(1));
    assert!(!info.packet_wanted(0));
    let actual = info.get_actual_size(954, 177);
    assert_eq!(actual.as_tuple(), (318, 177));
    assert_eq!(info.seek_window(42), (42, 10_000_000));
}
