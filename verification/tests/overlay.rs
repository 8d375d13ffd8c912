use pathwarp::overlay::{
    has_overlay_styles, overlay_ex_style, subclass_reply, OverlayWindow, MA_NOACTIVATE, WM_MOUSEACTIVATE,
    WS_EX_NOACTIVATE, WS_EX_TOOLWINDOW, WS_EX_TOPMOST,
};

#[test]
fn overlay_declines_mouse_activation() {
    let styled = overlay_ex_style(0x0004_0118).expect("styles must be written");
    assert!(
        styled & WS_EX_NOACTIVATE != 0,
        "WS_EX_NOACTIVATE must be present after apply_overlay_ex_styles"
    );
    assert_eq!(
        subclass_reply(WM_MOUSEACTIVATE),
        Some(MA_NOACTIVATE),
        "subclass must answer WM_MOUSEACTIVATE with MA_NOACTIVATE"
    );
    assert_eq!(subclass_reply(0x0201), None);
}

#[test]
fn styles_already_present_are_not_rewritten() {
    let all = WS_EX_NOACTIVATE | WS_EX_TOOLWINDOW | WS_EX_TOPMOST;
    assert_eq!(overlay_ex_style(all | 0x100), None);
    assert_eq!(overlay_ex_style(0x0004_0118), Some(0x0804_0198));
}

#[test]
fn zero_handle_is_a_noop() {
    let mut w = OverlayWindow::new(0);
    assert!(!w.styling_due(0));
    assert_eq!(w.adopt_frame_hwnd(0), 0);
    assert_eq!(w.adopt_frame_hwnd(77), 77);
    assert_eq!(w.adopt_frame_hwnd(99), 77);
}

#[test]
fn styles_are_reasserted_every_frame_and_setup_runs_once() {
    let mut w = OverlayWindow::new(5);
    assert!(w.styling_due(5));
    assert!(w.record_styling(true));
    assert!(w.setup_done());
    // Later frames still re-assert the styles, but never repeat the setup.
    assert!(w.styling_due(5));
    assert!(!w.record_styling(true));
    assert!(w.styling_due(5));
    assert!(!w.record_styling(false));
    assert!(w.setup_done());
}

#[test]
fn failed_styling_defers_setup() {
    let mut w = OverlayWindow::new(5);
    assert!(w.styling_due(5));
    assert!(!w.record_styling(false));
    assert!(!w.setup_done());
    assert!(w.styling_due(5));
    assert!(w.record_styling(true));
}

#[test]
fn overlay_styles_are_checked_on_readback() {
    let all = WS_EX_NOACTIVATE | WS_EX_TOOLWINDOW | WS_EX_TOPMOST;
    assert!(has_overlay_styles(all));
    assert!(has_overlay_styles(all | 0x0004_0000));
    assert!(!has_overlay_styles(WS_EX_TOOLWINDOW | WS_EX_TOPMOST));
    assert!(!has_overlay_styles(0));
}
