use overlay_select::error::OverlayError;
use overlay_select::geometry::SelectionRect;
use overlay_select::pixel::Rgba;
use overlay_select::snapshot::{capture_all, Monitor, Snapshot};

/// A grid whose pixel at (x, y) is (x, y, x + y, 255).
fn grid(width: u32, height: u32) -> Snapshot {
    let mut data = Vec::new();
    for y in 0..height {
        for x in 0..width {
            data.push(x as u8);
            data.push(y as u8);
            data.push((x + y) as u8);
            data.push(255);
        }
    }
    Snapshot::new(width, height, data).unwrap()
}

fn monitor(id: u32, width: u32, height: u32) -> Monitor {
    Monitor { id, x: 0, y: 0, width, height }
}

fn rect(x: i32, y: i32, width: u32, height: u32) -> SelectionRect {
    SelectionRect { x, y, width, height }
}

#[test]
fn snapshot_wants_four_bytes_per_pixel() {
    assert!(Snapshot::new(2, 3, vec![0; 24]).is_some());
    assert!(Snapshot::new(2, 3, vec![0; 23]).is_none());
    assert!(Snapshot::new(2, 3, vec![0; 25]).is_none());
    assert!(Snapshot::new(0, 0, Vec::new()).is_some());
    assert!(Snapshot::new(0, 5, Vec::new()).is_some());
    assert!(Snapshot::new(u32::MAX, u32::MAX, Vec::new()).is_none());
}

#[test]
fn snapshot_keeps_what_it_was_given() {
    let data: Vec<u8> = (0..32).collect();
    let s = Snapshot::new(4, 2, data.clone()).unwrap();
    assert_eq!(s.width(), 4);
    assert_eq!(s.height(), 2);
    assert_eq!(s.bytes(), &data);
}

#[test]
fn snapshot_reads_pixels_row_by_row() {
    let s = grid(5, 4);
    assert_eq!(s.get_pixel(0, 0), Some(Rgba { r: 0, g: 0, b: 0, a: 255 }));
    assert_eq!(s.get_pixel(4, 0), Some(Rgba { r: 4, g: 0, b: 4, a: 255 }));
    assert_eq!(s.get_pixel(2, 3), Some(Rgba { r: 2, g: 3, b: 5, a: 255 }));
    assert_eq!(s.pixel_at(4, 3), Rgba { r: 4, g: 3, b: 7, a: 255 });
    assert_eq!(s.get_pixel(5, 0), None);
    assert_eq!(s.get_pixel(0, 4), None);
}

#[test]
fn crop_copies_the_pixels_under_the_rectangle() {
    let s = grid(6, 5);
    let c = s.crop(rect(2, 1, 3, 2)).unwrap();
    assert_eq!(c.width(), 3);
    assert_eq!(c.height(), 2);
    let expected: Vec<u8> = vec![
        2, 1, 3, 255, 3, 1, 4, 255, 4, 1, 5, 255,
        2, 2, 4, 255, 3, 2, 5, 255, 4, 2, 6, 255,
    ];
    assert_eq!(c.bytes(), &expected);
}

#[test]
fn crop_agrees_with_the_image_crate() {
    let s = grid(9, 7);
    let source = image::RgbaImage::from_raw(9, 7, s.bytes().clone()).unwrap();
    for &(x, y, w, h) in [(0u32, 0u32, 9u32, 7u32), (3, 2, 4, 4), (8, 6, 1, 1), (0, 6, 9, 1)].iter() {
        let c = s.crop(rect(x as i32, y as i32, w, h)).unwrap();
        let theirs = image::imageops::crop_imm(&source, x, y, w, h).to_image();
        assert_eq!(c.width(), theirs.width());
        assert_eq!(c.height(), theirs.height());
        assert_eq!(c.bytes(), theirs.as_raw());
    }
}

#[test]
fn crop_cuts_off_what_reaches_past_the_edges() {
    let s = grid(4, 4);
    let c = s.crop(rect(-2, 2, 4, 10)).unwrap();
    assert_eq!(c.width(), 2);
    assert_eq!(c.height(), 2);
    assert_eq!(c.get_pixel(0, 0), s.get_pixel(0, 2));
    assert_eq!(c.get_pixel(1, 1), s.get_pixel(1, 3));
    let whole = s.crop(rect(i32::MIN, i32::MIN, u32::MAX, u32::MAX)).unwrap();
    assert_eq!(whole.bytes(), s.bytes());
}

#[test]
fn crop_of_a_rectangle_outside_is_nothing() {
    let s = grid(4, 4);
    assert!(s.crop(rect(4, 0, 1, 1)).is_none());
    assert!(s.crop(rect(0, 4, 1, 1)).is_none());
    assert!(s.crop(rect(-1, 0, 1, 1)).is_none());
    assert!(grid(0, 0).crop(rect(0, 0, 1, 1)).is_none());
}

#[test]
fn crop_leaves_the_snapshot_as_it_was() {
    let s = grid(4, 4);
    let before = s.bytes().clone();
    let _ = s.crop(rect(1, 1, 2, 2));
    assert_eq!(s.bytes(), &before);
}

#[test]
fn capture_all_keeps_the_order_of_the_displays() {
    let monitors = vec![monitor(0, 2, 1), monitor(1, 3, 1)];
    let out = capture_all(&monitors, vec![Some(grid(2, 1)), Some(grid(3, 1))]);
    let snapshots = out.ok().unwrap();
    assert_eq!(snapshots.len(), 2);
    assert_eq!(snapshots[0].width(), 2);
    assert_eq!(snapshots[1].width(), 3);
}

#[test]
fn capture_all_fails_when_one_capture_failed() {
    let monitors = vec![monitor(0, 2, 1), monitor(1, 3, 1), monitor(2, 1, 1)];
    let out = capture_all(&monitors, vec![Some(grid(2, 1)), None, Some(grid(1, 1))]);
    assert_eq!(out.err(), Some(OverlayError::StartupFailure));
}

#[test]
fn capture_all_fails_on_a_missing_or_extra_capture() {
    let monitors = vec![monitor(0, 2, 1), monitor(1, 3, 1)];
    assert_eq!(capture_all(&monitors, vec![Some(grid(2, 1))]).err(), Some(OverlayError::StartupFailure));
    let three = vec![Some(grid(2, 1)), Some(grid(3, 1)), Some(grid(1, 1))];
    assert_eq!(capture_all(&monitors, three).err(), Some(OverlayError::StartupFailure));
}

#[test]
fn capture_all_of_no_displays_is_empty() {
    let out = capture_all(&Vec::new(), Vec::new());
    assert_eq!(out.ok().map(|v| v.len()), Some(0));
}

#[test]
fn error_messages_name_the_failure() {
    assert_eq!(OverlayError::StartupFailure.message(), "could not list or capture the displays");
    assert_eq!(OverlayError::SurfaceFailure.message(), "could not create or present an overlay window");
    assert_eq!(OverlayError::RecognitionFailure.message(), "text recognition failed");
    assert_eq!(OverlayError::ClipboardFailure.message(), "could not write to the clipboard");
}
