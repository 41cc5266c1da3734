use hdr_screenshot::selection::{
    highlight_rect, hiword, loword, overlay_step, selection_rect, DragState, HighlightRect,
    OverlayAction, SelectionRect, VK_ESCAPE, WM_ERASEBKGND, WM_KEYDOWN, WM_LBUTTONDOWN,
    WM_LBUTTONUP, WM_MOUSEMOVE, WM_PAINT, WM_RBUTTONDOWN,
};

fn point(x: i16, y: i16) -> isize {
    ((((y as u16) as u32) << 16) | ((x as u16) as u32)) as isize
}

fn rect_tuple(r: Option<SelectionRect>) -> Option<(u32, u32, u32, u32)> {
    r.map(|r| (r.x, r.y, r.w, r.h))
}

#[test]
fn words_decode_positive_coordinates() {
    assert_eq!(loword(point(100, 200)), 100);
    assert_eq!(hiword(point(100, 200)), 200);
    assert_eq!(loword(0x0001_0002), 2);
    assert_eq!(hiword(0x0001_0002), 1);
}

#[test]
fn words_decode_negative_coordinates() {
    assert_eq!(loword(point(-5, 7)), -5);
    assert_eq!(hiword(point(-5, 7)), 7);
    assert_eq!(hiword(point(3, -32768)), -32768);
    assert_eq!(loword(0xFFFF), -1);
    assert_eq!(loword(0x8000), -32768);
    assert_eq!(loword(0x7FFF), 32767);
}

#[test]
fn words_round_trip_every_coordinate() {
    for v in [i16::MIN, -1000, -1, 0, 1, 1919, 1080, i16::MAX] {
        assert_eq!(loword(point(v, 0)), v as i32);
        assert_eq!(hiword(point(0, v)), v as i32);
    }
}

#[test]
fn drag_and_release_confirms_selection() {
    let s = DragState::idle();
    let (s, a) = overlay_step(s, WM_LBUTTONDOWN, 0, point(10, 20));
    assert_eq!(a, OverlayAction::BeginCapture);
    assert!(s.dragging);
    assert_eq!((s.start_x, s.start_y, s.cur_x, s.cur_y), (10, 20, 10, 20));
    let (s, a) = overlay_step(s, WM_MOUSEMOVE, 0, point(50, 60));
    assert_eq!(a, OverlayAction::Redraw);
    assert_eq!((s.start_x, s.start_y, s.cur_x, s.cur_y), (10, 20, 50, 60));
    let (s, a) = overlay_step(s, WM_LBUTTONUP, 0, point(110, 80));
    assert_eq!(a, OverlayAction::Finish);
    assert!(!s.dragging);
    assert!(s.confirmed);
    assert_eq!(rect_tuple(selection_rect(&s, 1920, 1080)), Some((10, 20, 100, 60)));
}

#[test]
fn drag_up_and_left_orders_corners() {
    let s = DragState::idle();
    let (s, _) = overlay_step(s, WM_LBUTTONDOWN, 0, point(300, 200));
    let (s, _) = overlay_step(s, WM_LBUTTONUP, 0, point(100, 50));
    assert_eq!(rect_tuple(selection_rect(&s, 1920, 1080)), Some((100, 50, 200, 150)));
}

#[test]
fn move_without_drag_is_ignored() {
    let s = DragState::idle();
    let (s2, a) = overlay_step(s, WM_MOUSEMOVE, 0, point(5, 5));
    assert_eq!(a, OverlayAction::Ignore);
    assert_eq!(s2, s);
    let (s3, a) = overlay_step(s, WM_LBUTTONUP, 0, point(5, 5));
    assert_eq!(a, OverlayAction::Ignore);
    assert_eq!(s3, s);
}

#[test]
fn right_click_and_escape_cancel() {
    let s = DragState::idle();
    let (s, _) = overlay_step(s, WM_LBUTTONDOWN, 0, point(10, 10));
    let (s, _) = overlay_step(s, WM_MOUSEMOVE, 0, point(400, 400));
    let (c, a) = overlay_step(s, WM_RBUTTONDOWN, 0, 0);
    assert_eq!(a, OverlayAction::Finish);
    assert_eq!(c, s);
    assert!(selection_rect(&c, 1920, 1080).is_none());
    let (e, a) = overlay_step(s, WM_KEYDOWN, VK_ESCAPE, 0);
    assert_eq!(a, OverlayAction::Finish);
    assert!(selection_rect(&e, 1920, 1080).is_none());
    let (k, a) = overlay_step(s, WM_KEYDOWN, 0x41, 0);
    assert_eq!(a, OverlayAction::Ignore);
    assert_eq!(k, s);
}

#[test]
fn paint_erase_and_other_messages() {
    let s = DragState::idle();
    assert_eq!(overlay_step(s, WM_PAINT, 0, 0).1, OverlayAction::Paint);
    assert_eq!(overlay_step(s, WM_ERASEBKGND, 0, 0).1, OverlayAction::SkipErase);
    assert_eq!(overlay_step(s, 0x0001, 0, 0).1, OverlayAction::DefaultHandling);
}

#[test]
fn tiny_selection_counts_as_none() {
    let s = DragState { dragging: false, start_x: 10, start_y: 10, cur_x: 12, cur_y: 50, confirmed: true };
    assert!(selection_rect(&s, 1920, 1080).is_none());
    let s = DragState { dragging: false, start_x: 10, start_y: 10, cur_x: 13, cur_y: 13, confirmed: true };
    assert_eq!(rect_tuple(selection_rect(&s, 1920, 1080)), Some((10, 10, 3, 3)));
}

#[test]
fn selection_is_clamped_to_screen() {
    let s = DragState { dragging: false, start_x: -40, start_y: -10, cur_x: 5000, cur_y: 3000, confirmed: true };
    assert_eq!(rect_tuple(selection_rect(&s, 1920, 1080)), Some((0, 0, 1920, 1080)));
}

#[test]
fn selection_left_of_screen_wraps_as_unsigned() {
    let s = DragState { dragging: false, start_x: -5, start_y: 10, cur_x: -3, cur_y: 100, confirmed: true };
    assert_eq!(rect_tuple(selection_rect(&s, 1920, 1080)), Some((0, 10, 4294967293, 90)));
}

#[test]
fn unconfirmed_state_selects_nothing() {
    let s = DragState { dragging: true, start_x: 0, start_y: 0, cur_x: 500, cur_y: 500, confirmed: false };
    assert!(selection_rect(&s, 1920, 1080).is_none());
}

#[test]
fn highlight_only_while_dragging_or_confirmed() {
    let idle = DragState { dragging: false, start_x: 1, start_y: 2, cur_x: 30, cur_y: 40, confirmed: false };
    assert_eq!(highlight_rect(&idle), None);
    let drag = DragState { dragging: true, ..idle };
    assert_eq!(
        highlight_rect(&drag),
        Some(HighlightRect { left: 1, top: 2, right: 30, bottom: 40 })
    );
    let back = DragState { dragging: true, start_x: 30, start_y: 40, cur_x: 1, cur_y: 2, confirmed: false };
    assert_eq!(
        highlight_rect(&back),
        Some(HighlightRect { left: 1, top: 2, right: 30, bottom: 40 })
    );
    let flat = DragState { dragging: true, start_x: 5, start_y: 2, cur_x: 5, cur_y: 40, confirmed: false };
    assert_eq!(highlight_rect(&flat), None);
}
