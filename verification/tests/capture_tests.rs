use screensnap::capture::{bgra_to_rgba, capture_origin, select_screen, settle_full_capture,
    settle_window_capture, CaptureError, DisplayRegion, ScreenshotManager, WindowBounds};
use screensnap::cell::StateCell;
use screensnap::window_finder::{parse_window_bounds, parse_window_titles, BoundsError};

#[test]
fn bgra_reorders_to_rgba() {
    let bgra = [10u8, 20, 30, 40, 50, 60, 70, 80];
    let rgba = bgra_to_rgba(&bgra);
    assert_eq!(rgba, vec![30, 20, 10, 40, 70, 60, 50, 80]);
}

#[test]
fn trailing_fragment_is_dropped() {
    let bgra = [1u8, 2, 3, 4, 5, 6];
    assert_eq!(bgra_to_rgba(&bgra), vec![3, 2, 1, 4]);
}

#[test]
fn stored_frame_is_normalized_and_encodable() {
    let mut mgr = ScreenshotManager::new().unwrap();
    assert!(mgr.get_current_image().is_none());
    assert_eq!(mgr.get_current_image_data(), Err(CaptureError::NoImage));
    // A 2x1 frame: blue-ish pixel then red-ish pixel, in BGRA order.
    let bgra = [200u8, 0, 0, 255, 0, 0, 200, 255];
    mgr.store_frame(2, 1, &bgra).unwrap();
    let img = mgr.get_current_image().unwrap();
    assert_eq!((img.width, img.height), (2, 1));
    assert_eq!(img.rgba, vec![0, 0, 200, 255, 200, 0, 0, 255]);
    let png = mgr.get_current_image_data().unwrap();
    assert_eq!(&png[..8], &[137u8, 80, 78, 71, 13, 10, 26, 10]);
}

#[test]
fn short_buffer_is_refused() {
    let mut mgr = ScreenshotManager::new().unwrap();
    let bgra = [1u8, 2, 3, 4];
    assert_eq!(mgr.store_frame(2, 1, &bgra), Err(CaptureError::BadBuffer));
    assert!(mgr.get_current_image().is_none());
}

#[test]
fn screen_containing_the_window_is_selected() {
    let displays = vec![
        DisplayRegion { x: 0, y: 0, width: 1920, height: 1080 },
        DisplayRegion { x: 1920, y: 0, width: 1280, height: 1024 },
    ];
    let on_second = WindowBounds { x: 2000, y: 100, width: 300, height: 200 };
    assert_eq!(select_screen(&on_second, &displays), 1);
    let on_first = WindowBounds { x: 10, y: 10, width: 100, height: 100 };
    assert_eq!(select_screen(&on_first, &displays), 0);
    // A window on no screen falls back to the first.
    let nowhere = WindowBounds { x: -5000, y: 0, width: 10, height: 10 };
    assert_eq!(select_screen(&nowhere, &displays), 0);
}

#[test]
fn capture_origin_is_clamped_at_the_screen_edge() {
    let d = DisplayRegion { x: 1920, y: 0, width: 1280, height: 1024 };
    let b = WindowBounds { x: 1900, y: 50, width: 100, height: 100 };
    assert_eq!(capture_origin(&b, &d), (0, 50));
    let inside = WindowBounds { x: 2000, y: 100, width: 100, height: 100 };
    assert_eq!(capture_origin(&inside, &d), (80, 100));
}

#[test]
fn full_capture_outcome_is_published_once() {
    let mut cell = StateCell::new();
    assert!(settle_full_capture(&mut cell, Some(vec![7, 8])));
    assert_eq!(cell.image_data, vec![7, 8]);
    assert!(!cell.texture_loaded);
    let before = cell.image_data.clone();
    assert!(!settle_full_capture(&mut cell, None));
    assert_eq!(cell.image_data, before);
}

#[test]
fn failed_window_capture_falls_back_to_the_full_screen_image() {
    let mut cell = StateCell::new();
    // The named window was not found; the full-screen capture succeeded.
    let wrote = settle_window_capture(&mut cell, None, Some(vec![1, 2, 3]));
    assert!(wrote);
    assert_eq!(cell.image_data, vec![1, 2, 3]);
}

#[test]
fn window_capture_wins_over_fallback() {
    let mut cell = StateCell::new();
    let wrote = settle_window_capture(&mut cell, Some(vec![4]), None);
    assert!(wrote);
    assert_eq!(cell.image_data, vec![4]);
    // Both attempts failing leaves the cell untouched.
    let mut other = StateCell::new();
    assert!(!settle_window_capture(&mut other, None, None));
    assert!(other.image_data.is_empty());
}

#[test]
fn window_titles_come_from_quoted_lines() {
    let output = b"xwininfo: Root window id\n  1 child:\n  0x1 \"Terminal - bash\": (\"x\" \"y\")\n  0x2 \"\": nothing\n  0x3 (has no name): ()\n  0x4 \"Editor\"\n";
    let titles = parse_window_titles(output);
    assert_eq!(
        titles,
        vec![b"Terminal - bash\": (\"x\" \"y".to_vec(), b"Editor".to_vec()]
    );
}

#[test]
fn window_bounds_come_from_labelled_lines() {
    let output = b"xwininfo: Window id: 0x1 \"Editor\"\n  Absolute upper-left X:  100\n  Absolute upper-left Y:  -20\n  Width: 800\n  Height: 600\n  Depth: 24\n";
    let b = parse_window_bounds(output).unwrap();
    assert_eq!((b.x, b.y, b.width, b.height), (100, -20, 800, 600));
}

#[test]
fn missing_window_has_zero_dimensions() {
    let output = b"xwininfo: error: No window with name foo exists\n";
    assert_eq!(parse_window_bounds(output), Err(BoundsError::NotFound));
}

#[test]
fn unreadable_coordinate_is_an_error() {
    let output = b"  Width: eight hundred\n  Height: 600\n";
    assert_eq!(parse_window_bounds(output), Err(BoundsError::BadNumber));
}
