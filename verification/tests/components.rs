use apipost_ui::components::{method_bg_color, method_color, method_index, status_color};

#[test]
fn method_colours() {
    assert_eq!(method_color("get"), 0x22c55e);
    assert_eq!(method_color("Post"), 0xf59e0b);
    assert_eq!(method_color("PUT"), 0x3b82f6);
    assert_eq!(method_color("delete"), 0xef4444);
    assert_eq!(method_color("PATCH"), 0x8b5cf6);
    assert_eq!(method_color("head"), 0x6b7280);
    assert_eq!(method_color("options"), 0x06b6d4);
    assert_eq!(method_color("BREW"), 0x6b7280);
    assert_eq!(method_bg_color("get"), 0x22c55e20);
    assert_eq!(method_bg_color("options"), 0x06b6d420);
    assert_eq!(method_bg_color("x"), 0x6b728020);
}

#[test]
fn status_colours() {
    assert_eq!(status_color(200), 0x22c55e);
    assert_eq!(status_color(299), 0x22c55e);
    assert_eq!(status_color(301), 0xf59e0b);
    assert_eq!(status_color(404), 0xf97316);
    assert_eq!(status_color(503), 0xef4444);
    assert_eq!(status_color(600), 0x6b7280);
    assert_eq!(status_color(100), 0x6b7280);
}

#[test]
fn method_positions() {
    assert_eq!(method_index("get"), 0);
    assert_eq!(method_index("delete"), 3);
    assert_eq!(method_index("Options"), 6);
    assert_eq!(method_index("TRACE"), 0);
    assert_eq!(method_index("straße"), 0);
}
