use siliconsneaker2::config::WindowConfig;

#[test]
fn default_window() {
    let c = WindowConfig::default();
    assert_eq!((c.width, c.height), (800, 600));
    assert_eq!((c.main_split, c.left_frame_split, c.right_frame_split, c.units_index), (200, 200, 200, 0));
}
