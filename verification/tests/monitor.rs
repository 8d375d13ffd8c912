use pathwarp::monitor::{
    dialog_info_from_rect, effective_dpi, has_file_dialog_signature, is_dialog_class,
    DialogTracker, TrackerAction, IDLE_POLL_INTERVAL_MS, TRACKING_POLL_INTERVAL_MS,
};
use pathwarp::types::DialogInfo;

fn info(hwnd: isize) -> DialogInfo {
    DialogInfo {
        hwnd,
        x: 1,
        y: 2,
        width: 3,
        height: 4,
        dpi: 96,
    }
}

#[test]
fn dialog_class_is_exact() {
    assert!(is_dialog_class("#32770"));
    assert!(!is_dialog_class("#327700"));
    assert!(!is_dialog_class("CabinetWClass"));
}

#[test]
fn signature_needs_structure() {
    assert!(has_file_dialog_signature("", true, true, false, false));
    assert!(has_file_dialog_signature("", false, true, true, false));
    assert!(has_file_dialog_signature("", false, true, false, true));
    assert!(!has_file_dialog_signature("", true, false, false, false));
    assert!(has_file_dialog_signature("Open File", true, false, false, false));
    assert!(has_file_dialog_signature("另存为", false, false, true, false));
    assert!(has_file_dialog_signature("SELECT a folder", false, false, false, true));
    assert!(!has_file_dialog_signature("Open File", false, false, false, false));
    assert!(!has_file_dialog_signature("Warning", true, false, false, false));
}

#[test]
fn dpi_defaults_to_96() {
    assert_eq!(effective_dpi(0), 96);
    assert_eq!(effective_dpi(144), 144);
}

#[test]
fn rect_to_dialog_info() {
    assert_eq!(
        dialog_info_from_rect(7, 10, 20, 110, 220, 120),
        DialogInfo {
            hwnd: 7,
            x: 10,
            y: 20,
            width: 100,
            height: 200,
            dpi: 120,
        }
    );
}

#[test]
fn tracker_reports_foreground_dialog() {
    let mut t = DialogTracker::new();
    assert_eq!(t.poll_interval_ms(), IDLE_POLL_INTERVAL_MS);
    assert_eq!(t.observe_active(None), TrackerAction::Wait);
    assert_eq!(
        t.observe_active(Some(info(5))),
        TrackerAction::Report(Some(info(5)))
    );
    assert_eq!(t.tracked_hwnd(), 5);
    assert_eq!(t.poll_interval_ms(), TRACKING_POLL_INTERVAL_MS);
}

#[test]
fn tracker_confirms_loss_after_three_polls() {
    let mut t = DialogTracker::new();
    t.observe_active(Some(info(5)));
    for _ in 0..2 {
        assert_eq!(t.observe_active(None), TrackerAction::ProbeByHandle(5));
        assert_eq!(t.observe_by_handle(None), TrackerAction::ProbeAny);
        assert_eq!(t.observe_any(None), TrackerAction::Wait);
    }
    assert_eq!(t.observe_active(None), TrackerAction::ProbeByHandle(5));
    assert_eq!(t.observe_by_handle(None), TrackerAction::ProbeAny);
    assert_eq!(t.observe_any(None), TrackerAction::Report(None));
    assert_eq!(t.tracked_hwnd(), 0);
    assert_eq!(t.observe_active(None), TrackerAction::Wait);
}

#[test]
fn tracker_follows_recreated_dialog() {
    let mut t = DialogTracker::new();
    t.observe_active(Some(info(5)));
    t.observe_active(None);
    t.observe_by_handle(None);
    assert_eq!(t.observe_any(None), TrackerAction::Wait);
    assert_eq!(t.observe_active(None), TrackerAction::ProbeByHandle(5));
    assert_eq!(
        t.observe_by_handle(Some(info(5))),
        TrackerAction::Report(Some(info(5)))
    );
    t.observe_active(None);
    t.observe_by_handle(None);
    assert_eq!(
        t.observe_any(Some(info(9))),
        TrackerAction::Report(Some(info(9)))
    );
    assert_eq!(t.tracked_hwnd(), 9);
}

/// One whole poll with the given probe results; the report sent, if any.
fn poll(
    t: &mut DialogTracker,
    active: Option<DialogInfo>,
    by_handle: Option<DialogInfo>,
    any: Option<DialogInfo>,
) -> Option<Option<DialogInfo>> {
    let mut action = t.observe_active(active);
    if let TrackerAction::ProbeByHandle(_) = action {
        action = t.observe_by_handle(by_handle);
    }
    if let TrackerAction::ProbeAny = action {
        action = t.observe_any(any);
    }
    match action {
        TrackerAction::Report(r) => Some(r),
        _ => None,
    }
}

#[test]
fn a_run_reports_a_loss_once_and_only_the_foreground_restarts() {
    let mut t = DialogTracker::new();
    // While nothing is followed, the other probes cannot start following.
    assert_eq!(poll(&mut t, None, Some(info(3)), Some(info(4))), None);
    assert_eq!(t.tracked_hwnd(), 0);
    assert_eq!(poll(&mut t, Some(info(5)), None, None), Some(Some(info(5))));
    assert_eq!(poll(&mut t, None, None, None), None);
    assert_eq!(poll(&mut t, None, None, Some(info(6))), Some(Some(info(6))));
    let mut reports = Vec::new();
    for _ in 0..10 {
        reports.push(poll(&mut t, None, None, None));
    }
    assert_eq!(reports[0], None);
    assert_eq!(reports[1], None);
    assert_eq!(reports[2], Some(None));
    assert!(reports[3..].iter().all(|r| r.is_none()));
    assert_eq!(t.tracked_hwnd(), 0);
}
