use mk_screens::files::get_file_stem;
use mk_screens::files::get_filename;
use mk_screens::files::img_file_name;
use mk_screens::files::mime_filter;
use mk_screens::files::FileInfo;
use mk_screens::files::FileInfoMap;
use mk_screens::files::FileRecord;
use mk_screens::settings::Cli;
use mk_screens::settings::Settings;

fn plain_settings(force: bool) -> Settings {
    Settings {
        keep_files: false,
        force,
        unwrap_errors: false,
        verbose: false,
        scale_up: false,
        synchronous: false,
        fix_times: false,
        allow_links: false,
        save_failures_to_ignore: false,
        width: 3840,
        columns: 12,
        rows: 12,
        skip: 5,
        threads: None,
        out_dir: String::from("screens"),
        input: vec![String::from(".")],
    }
}

fn record(path: &str, mtime: i64) -> FileRecord {
    FileRecord { path: String::from(path), mtime }
}

#[test]
fn test_img_file_name() {
    assert_eq!(img_file_name("./test/test1.txt"), "test1.txt.jpg");
    assert_eq!(img_file_name("test1.txt"), "test1.txt.jpg");
    assert_eq!(img_file_name("/test/test1.txt"), "test1.txt.jpg");
}

#[test]
fn test_mime_filter() {
    let test_vec_1 = vec!["file1.txt", "file2.html", "file3.txt"];
    let results_1 = test_vec_1.iter().filter(|p| mime_filter("text", p)).count();
    assert_eq!(results_1, 3);
    let test_vec_2 = vec!["file1.mp3", "file2.mp4", "file3.exe"];
    let results_2 = test_vec_2.iter().filter(|p| mime_filter("text", p)).count();
    assert_eq!(results_2, 0);
    let test_vec_3 = vec!["file1.mp3", "file2.txt", "file3.exe"];
    let results_3 = test_vec_3.iter().filter(|p| mime_filter("text", p)).count();
    assert_eq!(results_3, 1);
}

#[test]
fn test_mime_filter_video() {
    assert!(mime_filter("video", "clip.mp4"));
    assert!(!mime_filter("video", "notes.txt"));
}

#[test]
fn test_get_filename() {
    assert_eq!(get_filename("/a/b/c.mkv"), "c.mkv");
    assert_eq!(get_filename("c.mkv"), "c.mkv");
    assert_eq!(get_filename("./rel/path.avi"), "path.avi");
}

#[test]
fn test_get_filename_corners() {
    assert_eq!(get_filename("a/b/"), "b");
    assert_eq!(get_filename("a//"), "a");
    assert_eq!(get_filename("a/."), "a");
    assert_eq!(get_filename("a/./"), "a");
    assert_eq!(get_filename("a/./."), "a");
    assert_eq!(get_filename("a."), "a.");
    assert_eq!(get_filename("/"), "INVALID NAME");
    assert_eq!(get_filename(""), "INVALID NAME");
    assert_eq!(get_filename("."), "INVALID NAME");
    assert_eq!(get_filename(".."), "INVALID NAME");
    assert_eq!(get_filename("a/.."), "INVALID NAME");
    assert_eq!(get_filename("a/../"), "INVALID NAME");
}

#[test]
fn test_get_file_stem_corners() {
    assert_eq!(get_file_stem("a/b.txt/"), "b");
    assert_eq!(get_file_stem("a/b.txt/."), "b");
    assert_eq!(get_file_stem(".."), "INVALID NAME");
    assert_eq!(get_file_stem("dir/"), "dir");
}

#[test]
fn test_get_file_stem() {
    assert_eq!(get_file_stem("/a/b/video.mkv.jpg"), "video.mkv");
    assert_eq!(get_file_stem("archive.tar.gz"), "archive.tar");
    assert_eq!(get_file_stem(".bashrc"), ".bashrc");
    assert_eq!(get_file_stem("noext"), "noext");
}

#[test]
fn test_should_generate_screens() {
    let s = plain_settings(false);
    let fresh = FileInfo::for_video(&s, record("a.mkv", 100), Some(record("a.mkv.jpg", 200)));
    assert!(!fresh.should_generate_screens());
    let stale = FileInfo::for_video(&s, record("a.mkv", 300), Some(record("a.mkv.jpg", 200)));
    assert!(stale.should_generate_screens());
    let missing = FileInfo::for_video(&s, record("a.mkv", 300), None);
    assert!(missing.should_generate_screens());
}

#[test]
fn test_force_drops_existing_screens() {
    let s = plain_settings(true);
    let info = FileInfo::for_video(&s, record("a.mkv", 100), Some(record("a.mkv.jpg", 200)));
    assert!(info.screens().is_none());
    assert!(info.should_generate_screens());
}

#[test]
fn test_sync_mtimes_matches_source() {
    let s = plain_settings(false);
    let mut info = FileInfo::for_video(&s, record("a.mkv", 300), Some(record("a.mkv.jpg", 200)));
    assert!(info.sync_mtimes());
    assert_eq!(info.screens().as_ref().unwrap().mtime, 300);
    assert_eq!(info.video().as_ref().unwrap().mtime, 300);
    assert!(!info.sync_mtimes());
}

#[test]
fn test_sync_mtimes_needs_both_files() {
    let s = plain_settings(false);
    let mut only_video = FileInfo::for_video(&s, record("a.mkv", 300), None);
    assert!(!only_video.sync_mtimes());
}

#[test]
fn test_find_video_file() {
    let videos = vec![record("/in/a.mkv", 1), record("/in/b.mp4", 2)];
    let hit = FileInfo::find_video_file(&videos, "/out/b.mp4.jpg");
    assert_eq!(hit.unwrap().path, "/in/b.mp4");
    let miss = FileInfo::find_video_file(&videos, "/out/c.avi.jpg");
    assert!(miss.is_none());
}

#[test]
fn test_file_info_map_process_list() {
    let s = plain_settings(false);
    let mut map = FileInfoMap::new(&s);
    map.add_video(record("/in/a.mkv", 300), Some(record("/out/a.mkv.jpg", 200)));
    map.add_video(record("/in/b.mp4", 100), Some(record("/out/b.mp4.jpg", 200)));
    map.add_video(record("/in/c.avi", 50), None);
    let to_process = map.get_videos_to_process();
    assert_eq!(to_process, vec![String::from("/in/a.mkv"), String::from("/in/c.avi")]);
}

#[test]
fn test_file_info_map_orphans() {
    let s = plain_settings(false);
    let videos = vec![record("/in/a.mkv", 1)];
    let mut map = FileInfoMap::new(&s);
    map.add_video(record("/in/a.mkv", 1), None);
    map.add_screencap(record("/out/a.mkv.jpg", 2), &videos);
    map.add_screencap(record("/out/gone.avi.jpg", 3), &videos);
    let orphans = map.get_screens_to_delete();
    assert_eq!(orphans, vec![String::from("/out/gone.avi.jpg")]);
}

#[test]
fn test_file_info_map_never_duplicates_a_name() {
    // Two videos sharing a file name fold into one entry, so the batch
    // never runs two jobs that would write the same sheet.
    let s = plain_settings(false);
    let mut map = FileInfoMap::new(&s);
    map.add_video(record("/in/a.mkv", 300), None);
    map.add_video(record("/elsewhere/a.mkv", 400), None);
    let to_process = map.get_videos_to_process();
    assert_eq!(to_process, vec![String::from("/elsewhere/a.mkv")]);
}

#[test]
fn test_file_info_map_remove() {
    let s = plain_settings(false);
    let mut map = FileInfoMap::new(&s);
    map.add_video(record("/in/a.mkv", 300), None);
    map.remove("a.mkv");
    assert!(map.get_videos_to_process().is_empty());
}

#[test]
fn test_file_info_map_fix_times() {
    let s = plain_settings(false);
    let mut map = FileInfoMap::new(&s);
    map.add_video(record("/in/a.mkv", 300), Some(record("/out/a.mkv.jpg", 200)));
    map.add_video(record("/in/b.mp4", 100), Some(record("/out/b.mp4.jpg", 100)));
    assert_eq!(map.fix_times(), 1);
    assert_eq!(map.fix_times(), 0);
}

#[test]
fn test_cli_defaults_flow_into_settings() {
    let cli = Cli {
        keep_files: false,
        force: false,
        unwrap_errors: false,
        verbose: false,
        scale_up: false,
        synchronous: false,
        fix_times: false,
        allow_links: false,
        save_failures_to_ignore: false,
        width: None,
        columns: None,
        rows: None,
        skip: None,
        threads: None,
        config: None,
        out_dir: None,
        input: vec![String::from(".")],
    };
    let s = Settings::load(&cli, &Vec::new());
    assert_eq!(s.width(), 3840);
    assert_eq!(s.columns(), 12);
    assert_eq!(s.rows(), 12);
    assert_eq!(s.skip(), 5);
    assert_eq!(s.out_dir(), "screens");
    assert_eq!(s.num_captures(), 145);
    assert!(!s.force());
    assert!(s.is_valid());
}
