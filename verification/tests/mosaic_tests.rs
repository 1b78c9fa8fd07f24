use mk_screens::screencaps::cell_position;
use mk_screens::screencaps::compose;
use mk_screens::screencaps::FrameImage;
use mk_screens::screencaps::MosaicCanvas;
use mk_screens::screencaps::ScreenCap;
use mk_screens::settings::Settings;
use mk_screens::util::Dimensions;

fn grid_settings(columns: u32, rows: u32) -> Settings {
    Settings {
        keep_files: false,
        force: false,
        unwrap_errors: false,
        verbose: false,
        scale_up: false,
        synchronous: false,
        fix_times: false,
        allow_links: false,
        save_failures_to_ignore: false,
        width: 3840,
        columns,
        rows,
        skip: 5,
        threads: None,
        out_dir: String::from("screens"),
        input: Vec::new(),
    }
}

fn flat_cap(timestamp: i64, w: u32, h: u32, value: u8) -> ScreenCap {
    ScreenCap {
        timestamp,
        dimensions: Dimensions(w, h),
        pixel_format: String::from("yuv420p"),
        image: FrameImage { width: w, height: h, data: vec![value; (3 * w * h) as usize] },
    }
}

fn canvas_byte(canvas: &MosaicCanvas, x: u32, y: u32, ch: u32) -> u8 {
    canvas.data[(3 * (y * canvas.width + x) + ch) as usize]
}

#[test]
fn test_canvas_starts_black() {
    let canvas = MosaicCanvas::new(4, 3);
    assert_eq!(canvas.width, 4);
    assert_eq!(canvas.height, 3);
    assert_eq!(canvas.data.len(), 36);
    assert!(canvas.data.iter().all(|b| *b == 0));
}

#[test]
fn test_cell_position_row_major() {
    assert_eq!(cell_position(0, 3, 10, 6), (1, 1));
    assert_eq!(cell_position(1, 3, 10, 6), (13, 1));
    assert_eq!(cell_position(2, 3, 10, 6), (25, 1));
    assert_eq!(cell_position(3, 3, 10, 6), (1, 9));
    assert_eq!(cell_position(4, 3, 10, 6), (13, 9));
}

#[test]
fn test_from_raw_checks_length() {
    assert!(FrameImage::from_raw(2, 2, vec![0u8; 11]).is_none());
    let img = FrameImage::from_raw(2, 2, vec![7u8; 14]).unwrap();
    assert_eq!(img.data.len(), 12);
}

#[test]
fn test_compose_places_thumbnails() {
    let s = grid_settings(2, 1);
    let caps = vec![flat_cap(0, 4, 2, 10), flat_cap(100, 4, 2, 20)];
    let canvas = compose(&s, &Dimensions(4, 2), &caps);
    assert_eq!(canvas.width, 8);
    assert_eq!(canvas.height, 4);
    // Cell 0 sits at (1, 1) and fits fully.
    assert_eq!(canvas_byte(&canvas, 1, 1, 0), 10);
    assert_eq!(canvas_byte(&canvas, 4, 2, 2), 10);
    // Cell 1 starts at x = 7; only its first column fits the canvas.
    assert_eq!(canvas_byte(&canvas, 7, 1, 0), 20);
    // The margin and the gutter stay black.
    assert_eq!(canvas_byte(&canvas, 0, 0, 0), 0);
    assert_eq!(canvas_byte(&canvas, 5, 1, 0), 0);
    assert_eq!(canvas_byte(&canvas, 6, 1, 0), 0);
}

#[test]
fn test_compose_is_deterministic() {
    let s = grid_settings(3, 2);
    let caps1 = vec![flat_cap(0, 5, 3, 1), flat_cap(1, 5, 3, 2), flat_cap(2, 5, 3, 3)];
    let caps2 = vec![flat_cap(0, 5, 3, 1), flat_cap(1, 5, 3, 2), flat_cap(2, 5, 3, 3)];
    let a = compose(&s, &Dimensions(5, 3), &caps1);
    let b = compose(&s, &Dimensions(5, 3), &caps2);
    assert_eq!(a.data, b.data);
}

#[test]
fn test_compose_extra_capture_is_clipped_away() {
    // One more capture than the grid has cells: it lands below the last row
    // and leaves no trace on the canvas.
    let s = grid_settings(1, 1);
    let with_extra = vec![flat_cap(0, 2, 2, 9), flat_cap(1, 2, 2, 50)];
    let without = vec![flat_cap(0, 2, 2, 9)];
    let a = compose(&s, &Dimensions(2, 2), &with_extra);
    let b = compose(&s, &Dimensions(2, 2), &without);
    assert_eq!(a.data, b.data);
}

#[test]
fn test_thumbnail_scales_to_cell() {
    // A 4x4 capture whose cell is 2x2: the scaled pixels must come back at
    // exactly the cell size.
    let cap = ScreenCap {
        timestamp: 0,
        dimensions: Dimensions(2, 2),
        pixel_format: String::from("yuv420p"),
        image: FrameImage { width: 4, height: 4, data: vec![200; 48] },
    };
    let thumb = cap.thumbnail();
    assert_eq!(thumb.width, 2);
    assert_eq!(thumb.height, 2);
    assert_eq!(thumb.data.len(), 12);
    // A uniform source scales to a uniform thumbnail.
    assert!(thumb.data.iter().all(|b| *b == 200));
}

#[test]
fn test_screencap_accessors() {
    let cap = flat_cap(0, 4, 2, 10);
    assert_eq!(cap.width(), 4);
    assert_eq!(cap.height(), 2);
    assert_eq!(cap.image().data.len(), 24);
}
