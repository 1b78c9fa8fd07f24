use mk_screens::error::Error;
use mk_screens::process::batch_result;
use mk_screens::process::dispatch_mode;
use mk_screens::process::missing_file_outcome;
use mk_screens::process::progress_bar_length;
use mk_screens::process::DispatchMode;
use mk_screens::screencaps::collect_captures;
use mk_screens::screencaps::image_link_target;
use mk_screens::screencaps::job_step;
use mk_screens::screencaps::FrameImage;
use mk_screens::screencaps::JobAction;
use mk_screens::screencaps::JobEvent;
use mk_screens::screencaps::JobOutcome;
use mk_screens::screencaps::JobPhase;
use mk_screens::screencaps::ScreenCap;
use mk_screens::settings::Settings;
use mk_screens::util::Dimensions;

fn job_settings(allow_links: bool, synchronous: bool, unwrap_errors: bool) -> Settings {
    Settings {
        keep_files: false,
        force: false,
        unwrap_errors,
        verbose: false,
        scale_up: false,
        synchronous,
        fix_times: false,
        allow_links,
        save_failures_to_ignore: false,
        width: 3840,
        columns: 3,
        rows: 2,
        skip: 5,
        threads: None,
        out_dir: String::from("screens"),
        input: Vec::new(),
    }
}

fn sample(timestamp: i64, value: u8) -> ScreenCap {
    ScreenCap {
        timestamp,
        dimensions: Dimensions(2, 2),
        pixel_format: String::from("yuv420p"),
        image: FrameImage { width: 2, height: 2, data: vec![value; 12] },
    }
}

fn decode_error(timestamp: i64) -> Error {
    Error::DecodeFailure { path: String::from("movie.mkv"), timestamp }
}

#[test]
fn test_one_failed_sample_fails_the_job() {
    let results: Vec<Result<ScreenCap, Error>> = vec![
        Ok(sample(0, 1)),
        Ok(sample(10, 2)),
        Ok(sample(20, 3)),
        Err(decode_error(30)),
        Ok(sample(40, 5)),
        Ok(sample(50, 6)),
    ];
    let r = collect_captures(results);
    assert!(matches!(r, Err(Error::DecodeFailure { timestamp: 30, .. })));
}

#[test]
fn test_all_samples_collected_in_order() {
    let results: Vec<Result<ScreenCap, Error>> =
        vec![Ok(sample(0, 1)), Ok(sample(10, 2)), Ok(sample(20, 3))];
    let caps = collect_captures(results).unwrap();
    assert_eq!(caps.len(), 3);
    assert_eq!(caps[0].timestamp, 0);
    assert_eq!(caps[2].timestamp, 20);
}

#[test]
fn test_link_shortcut_goes_straight_to_linked() {
    let (phase, action) = job_step(
        JobPhase::Opened,
        JobEvent::LinkFound { target: String::from("/real/screens/movie.mkv.jpg") },
    );
    assert!(matches!(phase, JobPhase::LinkedEquivalent));
    assert!(matches!(action, JobAction::EmitLink { target } if target == "/real/screens/movie.mkv.jpg"));
    // The linked job still has its output's modified time synchronized.
    let (phase, action) = job_step(phase, JobEvent::LinkEmitted);
    assert!(matches!(phase, JobPhase::LinkedEquivalent));
    assert!(matches!(action, JobAction::SyncTimes));
}

#[test]
fn test_empty_schedule_fails_cleanly() {
    let (phase, action) = job_step(JobPhase::Opened, JobEvent::TimesReady { count: 0 });
    assert!(matches!(phase, JobPhase::Failed));
    assert!(matches!(action, JobAction::Abort));
}

#[test]
fn test_job_walks_to_saved() {
    let (p, a) = job_step(JobPhase::Opened, JobEvent::NoLink);
    assert!(matches!(p, JobPhase::Opened));
    assert!(matches!(a, JobAction::Schedule));
    let (p, a) = job_step(p, JobEvent::TimesReady { count: 2 });
    assert!(matches!(p, JobPhase::Scheduled { total: 2 }));
    assert!(matches!(a, JobAction::ExtractNext));
    let (p, a) = job_step(p, JobEvent::FrameOk);
    assert!(matches!(p, JobPhase::Extracting { total: 2, done: 1 }));
    assert!(matches!(a, JobAction::ExtractNext));
    let (p, a) = job_step(p, JobEvent::FrameOk);
    assert!(matches!(p, JobPhase::Composing { total: 2 }));
    assert!(matches!(a, JobAction::Compose));
    let (p, a) = job_step(p, JobEvent::Composed);
    assert!(matches!(p, JobPhase::Composing { .. }));
    assert!(matches!(a, JobAction::Save));
    let (p, a) = job_step(p, JobEvent::SaveOk);
    assert!(matches!(p, JobPhase::Saved));
    assert!(matches!(a, JobAction::SyncTimes));
}

#[test]
fn test_failed_sample_aborts_without_save() {
    let (p, a) = job_step(
        JobPhase::Extracting { total: 6, done: 3 },
        JobEvent::FrameFailed,
    );
    assert!(matches!(p, JobPhase::Failed));
    assert!(matches!(a, JobAction::Abort));
    let (p, a) = job_step(p, JobEvent::SaveOk);
    assert!(matches!(p, JobPhase::Failed));
    assert!(matches!(a, JobAction::Abort));
}

#[test]
fn test_image_link_target_built_from_canonical_path() {
    let s = job_settings(true, false, false);
    let target = image_link_target(
        &s,
        true,
        &Some(String::from("/real/dir/movie.mkv")),
        "/links/movie.mkv",
    );
    assert_eq!(target.unwrap(), "/real/dir/screens/movie.mkv.jpg");
}

#[test]
fn test_image_link_target_requires_link_following() {
    let no_links = job_settings(false, false, false);
    assert!(image_link_target(&no_links, true, &Some(String::from("/a/b")), "/l/b").is_none());
    let links = job_settings(true, false, false);
    assert!(image_link_target(&links, false, &Some(String::from("/a/b")), "/l/b").is_none());
    assert!(image_link_target(&links, true, &None, "/l/b").is_none());
}

#[test]
fn test_dispatch_mode() {
    assert_eq!(dispatch_mode(&job_settings(false, true, false)), DispatchMode::Synchronous);
    assert_eq!(dispatch_mode(&job_settings(false, false, false)), DispatchMode::Parallel);
}

#[test]
fn test_progress_bar_length() {
    assert_eq!(progress_bar_length(&job_settings(false, false, false)), 9);
}

#[test]
fn test_missing_file_outcome() {
    let outcome = missing_file_outcome("gone.mkv");
    assert!(matches!(
        outcome,
        JobOutcome::Failed { error: Error::MissingFile { path } } if path == "gone.mkv"
    ));
}

#[test]
fn test_batch_result_isolates_failures() {
    let outcomes = vec![
        JobOutcome::Saved { output: String::from("a.jpg") },
        JobOutcome::Failed { error: decode_error(5) },
        JobOutcome::LinkedEquivalent { target: String::from("t.jpg") },
    ];
    assert_eq!(batch_result(&outcomes, false), None);
    assert_eq!(batch_result(&outcomes, true), Some(1));
}

#[test]
fn test_batch_result_all_good() {
    let outcomes = vec![JobOutcome::Saved { output: String::from("a.jpg") }];
    assert_eq!(batch_result(&outcomes, true), None);
}
