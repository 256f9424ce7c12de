use mswm::bar::{draw_top_bar, BarPaint};
use mswm::geometry::Rectangle;

fn paint_with(width: u16, text: &[u8]) -> BarPaint {
    BarPaint {
        fill: Rectangle { x: 0, y: 0, width, height: 20 },
        fill_color: 0xff224488,
        text_color: 0xfffafafa,
        text_background: 0xff224488,
        text_x: 4,
        text_y: 16,
        text: text.to_vec(),
    }
}

#[test]
fn bar_shows_the_default_label_without_focus() {
    assert_eq!(draw_top_bar(320, None, None), paint_with(320, b"MSWM"));
    assert_eq!(draw_top_bar(320, None, Some(b"stale".to_vec())), paint_with(320, b"MSWM"));
}

#[test]
fn bar_shows_the_title_of_the_focused_window() {
    assert_eq!(draw_top_bar(1024, Some(10), Some(b"xterm".to_vec())), paint_with(1024, b"xterm"));
    assert_eq!(draw_top_bar(1024, Some(10), Some(Vec::new())), paint_with(1024, b""));
}

#[test]
fn bar_shows_the_default_label_where_the_title_is_unknown() {
    assert_eq!(draw_top_bar(0, Some(10), None), paint_with(0, b"MSWM"));
}

#[test]
fn bar_cuts_long_titles() {
    let long: Vec<u8> = (0..300u32).map(|k| b'a' + (k % 26) as u8).collect();
    let paint = draw_top_bar(640, Some(10), Some(long.clone()));
    assert_eq!(paint.text, long[..255].to_vec());
    let exact: Vec<u8> = long[..255].to_vec();
    assert_eq!(draw_top_bar(640, Some(10), Some(exact.clone())).text, exact);
}

#[test]
fn bar_passes_any_bytes() {
    let bytes = vec![0xffu8, 0x00, 0xc3, 0x28];
    assert_eq!(draw_top_bar(640, Some(10), Some(bytes.clone())).text, bytes);
}
