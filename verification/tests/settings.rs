use overlay_select::settings::{clipboard_attempts, recognition_settings};

#[test]
fn recognition_reads_one_block_of_vertical_japanese() {
    let settings = recognition_settings();
    assert_eq!(settings.language, "jpn_vert");
    assert_eq!(settings.dpi, 150);
    assert_eq!(settings.page_segmentation, 5);
    assert_eq!(settings.engine_mode, 3);
}

#[test]
fn clipboard_is_tried_ten_times() {
    assert_eq!(clipboard_attempts(), 10);
}
