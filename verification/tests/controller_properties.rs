use pathwarp::controller::{Controller, Effect, Env, Event};
use pathwarp::types::{DialogInfo, KeyAction};

fn dialog(hwnd: isize, dpi: u32) -> DialogInfo {
    DialogInfo {
        hwnd,
        x: -50,
        y: 10,
        width: 800,
        height: 500,
        dpi,
    }
}

fn env(now_ms: u64, fg: isize) -> Env {
    Env {
        now: now_ms * 1_000_000,
        foreground_hwnd: fg,
    }
}

/// Replays the hook gate as the host holds it.
fn gate_before_each_inject(start: bool, fx: &[Effect]) -> Vec<bool> {
    let mut gate = start;
    let mut seen = Vec::new();
    for e in fx {
        match e {
            Effect::SetHookActive(b) => gate = *b,
            Effect::Inject { .. } => seen.push(gate),
            _ => {}
        }
    }
    seen
}

#[test]
fn dock_height_scales_with_dpi() {
    let mut c = Controller::new();
    let fx = c.step(env(0, 3), Event::DialogUpdate(Some(dialog(3, 144))));
    assert!(fx.contains(&Effect::Dock {
        x: -50,
        y: 510,
        width: 800,
        height: 210,
    }));
    let mut c = Controller::new();
    let fx = c.step(env(0, 3), Event::DialogUpdate(Some(dialog(3, u32::MAX))));
    assert!(fx.contains(&Effect::Dock {
        x: -50,
        y: 510,
        width: 800,
        height: 44_739_242,
    }));
}

#[test]
fn effects_order_on_first_dock() {
    let mut c = Controller::new();
    let fx = c.step(env(0, 3), Event::DialogUpdate(Some(dialog(3, 96))));
    assert_eq!(
        fx,
        vec![
            Effect::RefreshPaths,
            Effect::Dock {
                x: -50,
                y: 510,
                width: 800,
                height: 140,
            },
            Effect::SetHookActive(true),
        ]
    );
    assert!(c.needs_tick());
}

#[test]
fn hook_is_off_at_every_injection() {
    let mut c = Controller::new();
    c.step(env(0, 3), Event::DialogUpdate(Some(dialog(3, 96))));
    c.set_paths(vec!["A".into(), "B".into()]);
    let fx = c.step(env(1, 3), Event::Key(KeyAction::Enter));
    assert_eq!(gate_before_each_inject(true, &fx), vec![false]);
    let fx = c.step(env(2, 3), Event::ItemDoubleClicked(1));
    assert_eq!(gate_before_each_inject(true, &fx), vec![false]);
    assert_eq!(
        fx,
        vec![
            Effect::SetHookActive(false),
            Effect::Inject {
                hwnd: 3,
                path: "B".to_string(),
            },
            Effect::SetHookActive(true),
        ]
    );
}

#[test]
fn enter_without_paths_injects_nothing() {
    let mut c = Controller::new();
    c.step(env(0, 3), Event::DialogUpdate(Some(dialog(3, 96))));
    let fx = c.step(env(1, 3), Event::Key(KeyAction::Enter));
    assert!(fx.is_empty());
    assert!(c.is_visible());
}

#[test]
fn enter_without_dialog_injects_nothing() {
    let mut c = Controller::new();
    c.set_paths(vec!["A".into()]);
    let fx = c.step(env(1, 3), Event::Key(KeyAction::Enter));
    assert!(fx.is_empty());
    assert!(!c.needs_tick());
}

#[test]
fn backspace_undoes_typing() {
    let mut c = Controller::new();
    c.step(env(0, 3), Event::DialogUpdate(Some(dialog(3, 96))));
    c.step(env(1, 3), Event::Key(KeyAction::Char('g')));
    c.step(env(2, 3), Event::Key(KeyAction::Char('a')));
    assert_eq!(c.query(), "ga");
    c.step(env(3, 3), Event::Key(KeyAction::Backspace));
    assert_eq!(c.query(), "g");
    c.step(env(4, 3), Event::Key(KeyAction::Backspace));
    c.step(env(5, 3), Event::Key(KeyAction::Backspace));
    assert_eq!(c.query(), "");
}

#[test]
fn selection_stays_in_range_of_filtered_list() {
    let mut c = Controller::new();
    c.step(env(0, 3), Event::DialogUpdate(Some(dialog(3, 96))));
    c.set_paths(vec!["C:\\Alpha".into(), "C:\\Beta".into(), "C:\\Gamma".into()]);
    c.step(env(1, 3), Event::ItemClicked(99));
    assert_eq!(c.selected_index(), 2);
    c.step(env(2, 3), Event::Key(KeyAction::Down));
    assert_eq!(c.selected_index(), 2);
    c.step(env(3, 3), Event::Key(KeyAction::Char('b')));
    assert_eq!(c.filtered_paths(), vec!["C:\\Beta".to_string()]);
    assert_eq!(c.selected_index(), 0);
    c.step(env(4, 3), Event::Key(KeyAction::Char('z')));
    assert!(c.filtered_paths().is_empty());
    assert_eq!(c.selected_index(), 0);
    c.step(env(5, 3), Event::Key(KeyAction::Up));
    assert_eq!(c.selected_index(), 0);
    c.set_paths(Vec::new());
    assert_eq!(c.selected_index(), 0);
}

#[test]
fn dialog_none_within_grace_keeps_session() {
    let mut c = Controller::new();
    c.step(env(0, 3), Event::DialogUpdate(Some(dialog(3, 96))));
    c.step(env(10, 3), Event::Key(KeyAction::Char('x')));
    c.step(env(20, 3), Event::DialogUpdate(None));
    let fx = c.step(env(139, 3), Event::Tick);
    assert!(fx.is_empty());
    assert_eq!(c.query(), "x");
    assert!(c.is_visible());
    c.step(env(100, 3), Event::DialogUpdate(Some(dialog(3, 96))));
    let fx = c.step(env(500, 3), Event::Tick);
    assert!(fx.is_empty());
    assert!(c.is_visible());
}

#[test]
fn suppressed_dialog_report_gives_no_effect() {
    let mut c = Controller::new();
    c.step(env(0, 3), Event::DialogUpdate(Some(dialog(3, 96))));
    c.step(env(1, 3), Event::Key(KeyAction::Escape));
    for t in 2..6 {
        let fx = c.step(env(t, 3), Event::DialogUpdate(Some(dialog(3, 96))));
        assert!(fx.is_empty());
        assert!(!c.is_visible());
    }
}

#[test]
fn clock_going_backwards_counts_as_no_time() {
    let mut c = Controller::new();
    c.step(env(1000, 3), Event::DialogUpdate(Some(dialog(3, 96))));
    c.step(env(1000, 4), Event::Tick);
    let fx = c.step(env(10, 4), Event::Tick);
    assert!(fx.is_empty());
    assert!(c.is_visible());
}

#[test]
fn default_equals_new() {
    let c = Controller::default();
    assert!(!c.is_visible());
    assert_eq!(c.query(), "");
    assert_eq!(c.selected_index(), 0);
    assert!(c.filtered_paths().is_empty());
}

#[test]
fn overflowing_dialog_is_refused_only_where_it_would_dock() {
    let mut tall = dialog(9, 96);
    tall.y = i32::MAX - 10;
    tall.height = 100;
    let mut c = Controller::new();
    // A reported dialog that is not in the foreground is shown for the grace.
    assert!(!c.accepts(env(0, 1), Event::DialogUpdate(Some(tall))));
    c.step(env(0, 1), Event::DialogUpdate(Some(dialog(9, 96))));
    let fx = c.step(env(1000, 1), Event::Tick);
    assert!(fx.iter().any(|e| matches!(e, Effect::Park)));
    // Out of the foreground past the grace, it is not docked: accepted.
    assert!(c.accepts(env(1000, 1), Event::DialogUpdate(Some(tall))));
    let fx = c.step(env(1000, 1), Event::DialogUpdate(Some(tall)));
    assert!(fx.iter().all(|e| !matches!(e, Effect::Dock { .. })));
    // Once it is the foreground window, the step would dock below it: refused.
    assert!(!c.accepts(env(1010, 9), Event::Tick));
    assert!(!c.accepts(env(1010, 9), Event::DialogUpdate(Some(tall))));
    // A dialog that fits is accepted in the foreground.
    assert!(c.accepts(env(1010, 9), Event::DialogUpdate(Some(dialog(9, 96)))));
    // After ESC nothing docks, so the step is accepted.
    assert!(c.accepts(env(1010, 9), Event::Key(KeyAction::Escape)));
}
