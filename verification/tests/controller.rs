use pathwarp::controller::{Controller, Effect, Env, Event};
use pathwarp::types::{DialogInfo, KeyAction};

fn dialog(hwnd: isize) -> DialogInfo {
    DialogInfo {
        hwnd,
        x: 100,
        y: 200,
        width: 600,
        height: 400,
        dpi: 96,
    }
}

fn has_dock(fx: &[Effect]) -> bool {
    fx.iter().any(|e| matches!(e, Effect::Dock { .. }))
}

fn has_park(fx: &[Effect]) -> bool {
    fx.iter().any(|e| matches!(e, Effect::Park))
}

fn hook_set(fx: &[Effect]) -> Option<bool> {
    fx.iter().rev().find_map(|e| match e {
        Effect::SetHookActive(v) => Some(*v),
        _ => None,
    })
}

fn inject_path(fx: &[Effect]) -> Option<String> {
    fx.iter().find_map(|e| match e {
        Effect::Inject { path, .. } => Some(path.clone()),
        _ => None,
    })
}

/// A monotonic clock reading to start from.
fn base() -> u64 {
    5_000_000_000
}

/// Milliseconds in the controller's nanosecond clock.
fn ms(n: u64) -> u64 {
    n * 1_000_000
}

/// Brings the controller to the docked state for `hwnd`; returns the start time.
fn dock_at(c: &mut Controller, hwnd: isize) -> u64 {
    let t = base();
    let fx = c.step(
        Env {
            now: t,
            foreground_hwnd: hwnd,
        },
        Event::DialogUpdate(Some(dialog(hwnd))),
    );
    assert!(has_dock(&fx), "expected initial dock");
    t
}

#[test]
fn dialog_appears_docks_activates_hook_refreshes() {
    let mut c = Controller::new();
    let t = base();
    let fx = c.step(
        Env {
            now: t,
            foreground_hwnd: 1,
        },
        Event::DialogUpdate(Some(dialog(1))),
    );
    assert!(has_dock(&fx));
    assert_eq!(hook_set(&fx), Some(true));
    assert!(fx.contains(&Effect::RefreshPaths));
    assert!(fx.contains(&Effect::Dock {
        x: 100,
        y: 600,
        width: 600,
        height: 140,
    }));
}

#[test]
fn transient_foreground_loss_under_grace_does_not_park() {
    let mut c = Controller::new();
    let t = dock_at(&mut c, 1);
    let fx = c.step(
        Env {
            now: t + ms(50),
            foreground_hwnd: 999,
        },
        Event::Tick,
    );
    assert!(!has_park(&fx), "must not park within foreground grace");
    let fx = c.step(
        Env {
            now: t + ms(100),
            foreground_hwnd: 1,
        },
        Event::Tick,
    );
    assert!(!has_park(&fx));
    assert!(c.is_visible());
}

#[test]
fn sustained_foreground_loss_parks_and_deactivates_hook() {
    let mut c = Controller::new();
    let t = dock_at(&mut c, 1);
    let fx = c.step(
        Env {
            now: t + ms(10),
            foreground_hwnd: 999,
        },
        Event::Tick,
    );
    assert!(!has_park(&fx));
    let fx = c.step(
        Env {
            now: t + ms(200),
            foreground_hwnd: 999,
        },
        Event::Tick,
    );
    assert!(has_park(&fx));
    assert_eq!(hook_set(&fx), Some(false));
    assert!(!c.is_visible());
}

#[test]
fn foreground_returns_after_park_redocks() {
    let mut c = Controller::new();
    let t = dock_at(&mut c, 1);
    c.step(
        Env {
            now: t + ms(10),
            foreground_hwnd: 999,
        },
        Event::Tick,
    );
    c.step(
        Env {
            now: t + ms(200),
            foreground_hwnd: 999,
        },
        Event::Tick,
    );
    assert!(!c.is_visible());
    let fx = c.step(
        Env {
            now: t + ms(300),
            foreground_hwnd: 1,
        },
        Event::Tick,
    );
    assert!(has_dock(&fx));
    assert_eq!(hook_set(&fx), Some(true));
}

#[test]
fn escape_parks_and_suppresses_same_dialog() {
    let mut c = Controller::new();
    let t = dock_at(&mut c, 1);
    let fx = c.step(
        Env {
            now: t + ms(10),
            foreground_hwnd: 1,
        },
        Event::Key(KeyAction::Escape),
    );
    assert!(has_park(&fx));
    assert_eq!(hook_set(&fx), Some(false));
    let fx = c.step(
        Env {
            now: t + ms(20),
            foreground_hwnd: 1,
        },
        Event::DialogUpdate(Some(dialog(1))),
    );
    assert!(!has_dock(&fx), "suppressed dialog must not re-dock");
}

#[test]
fn switching_dialog_releases_suppression() {
    let mut c = Controller::new();
    let t = dock_at(&mut c, 1);
    c.step(
        Env {
            now: t,
            foreground_hwnd: 1,
        },
        Event::Key(KeyAction::Escape),
    );
    let fx = c.step(
        Env {
            now: t + ms(5),
            foreground_hwnd: 2,
        },
        Event::DialogUpdate(Some(dialog(2))),
    );
    assert!(has_dock(&fx));
}

#[test]
fn dialog_none_after_grace_parks_and_clears() {
    let mut c = Controller::new();
    let t = dock_at(&mut c, 1);
    c.set_paths(vec!["C:\\Work".into()]);
    c.step(
        Env {
            now: t,
            foreground_hwnd: 1,
        },
        Event::Key(KeyAction::Char('w')),
    );
    c.step(
        Env {
            now: t + ms(10),
            foreground_hwnd: 1,
        },
        Event::DialogUpdate(None),
    );
    let fx = c.step(
        Env {
            now: t + ms(150),
            foreground_hwnd: 1,
        },
        Event::Tick,
    );
    assert!(has_park(&fx));
    assert_eq!(c.query(), "");
    assert!(!c.is_visible());
}

#[test]
fn close_then_reopen_redocks() {
    let mut c = Controller::new();
    let t = dock_at(&mut c, 1);
    c.step(
        Env {
            now: t,
            foreground_hwnd: 1,
        },
        Event::DialogUpdate(None),
    );
    c.step(
        Env {
            now: t + ms(150),
            foreground_hwnd: 1,
        },
        Event::Tick,
    );
    assert!(!c.is_visible());
    let fx = c.step(
        Env {
            now: t + ms(300),
            foreground_hwnd: 7,
        },
        Event::DialogUpdate(Some(dialog(7))),
    );
    assert!(has_dock(&fx));
    assert!(fx.contains(&Effect::RefreshPaths));
}

#[test]
fn typing_and_backspace_update_query() {
    let mut c = Controller::new();
    let t = dock_at(&mut c, 1);
    c.set_paths(vec!["C:\\Work".into(), "D:\\Games".into()]);
    let env = Env {
        now: t,
        foreground_hwnd: 1,
    };
    c.step(env, Event::Key(KeyAction::Char('w')));
    assert_eq!(c.query(), "w");
    assert_eq!(c.filtered_paths(), vec!["C:\\Work".to_string()]);
    c.step(env, Event::Key(KeyAction::Backspace));
    assert_eq!(c.query(), "");
    assert_eq!(c.filtered_paths().len(), 2);
}

#[test]
fn enter_injects_selected_path_and_stays_docked() {
    let mut c = Controller::new();
    let t = dock_at(&mut c, 1);
    c.set_paths(vec!["C:\\Work".into(), "D:\\Games".into()]);
    let env = Env {
        now: t,
        foreground_hwnd: 1,
    };
    c.step(env, Event::Key(KeyAction::Down));
    let fx = c.step(env, Event::Key(KeyAction::Enter));
    let hook_idx = fx.iter().position(|e| e == &Effect::SetHookActive(false));
    let inject_idx = fx.iter().position(|e| matches!(e, Effect::Inject { .. }));
    assert!(hook_idx.is_some() && inject_idx.is_some());
    assert!(hook_idx < inject_idx, "hook must be disabled before inject");
    assert_eq!(inject_path(&fx).as_deref(), Some("D:\\Games"));
    assert!(!has_park(&fx), "overlay must stay docked after injection");
    assert!(c.is_visible());
    assert_eq!(
        hook_set(&fx),
        Some(true),
        "hook must be re-enabled after inject"
    );
}

#[test]
fn double_click_injects_single_click_does_not() {
    let mut c = Controller::new();
    let t = dock_at(&mut c, 1);
    c.set_paths(vec!["C:\\Work".into(), "D:\\Games".into()]);
    let env = Env {
        now: t,
        foreground_hwnd: 1,
    };
    let fx = c.step(env, Event::ItemClicked(1));
    assert!(inject_path(&fx).is_none());
    assert!(!has_park(&fx));
    assert_eq!(c.selected_index(), 1);
    let fx = c.step(env, Event::ItemDoubleClicked(0));
    assert_eq!(inject_path(&fx).as_deref(), Some("C:\\Work"));
    assert!(!has_park(&fx), "overlay must stay docked after injection");
    assert!(c.is_visible());
}

#[test]
fn dialog_move_redocks_but_identical_update_is_deduped() {
    let mut c = Controller::new();
    let t = dock_at(&mut c, 1);
    let fx = c.step(
        Env {
            now: t + ms(5),
            foreground_hwnd: 1,
        },
        Event::DialogUpdate(Some(dialog(1))),
    );
    assert!(!has_dock(&fx), "identical geometry must not re-dock");
    let mut moved = dialog(1);
    moved.x = 150;
    let fx = c.step(
        Env {
            now: t + ms(10),
            foreground_hwnd: 1,
        },
        Event::DialogUpdate(Some(moved)),
    );
    assert!(fx.contains(&Effect::Dock {
        x: 150,
        y: 600,
        width: 600,
        height: 140,
    }));
}

#[test]
fn confirm_injects_but_keeps_overlay_docked() {
    let mut c = Controller::new();
    let t = dock_at(&mut c, 1);
    c.set_paths(vec!["C:\\Work".into(), "D:\\Games".into()]);
    let env = Env {
        now: t,
        foreground_hwnd: 1,
    };
    let fx = c.step(env, Event::ItemDoubleClicked(1));
    assert_eq!(inject_path(&fx).as_deref(), Some("D:\\Games"));
    assert!(!has_park(&fx), "overlay must stay docked after injection");
    assert!(c.is_visible());
    let fx = c.step(env, Event::Key(KeyAction::Enter));
    assert!(
        inject_path(&fx).is_some(),
        "session must remain active so another item can be injected"
    );
    assert!(!has_park(&fx));
    assert!(c.is_visible());
}

#[test]
fn overlay_follows_active_dialog_when_multiple_open() {
    let mut c = Controller::new();
    let t = base();
    let fx = c.step(
        Env {
            now: t,
            foreground_hwnd: 1,
        },
        Event::DialogUpdate(Some(dialog(1))),
    );
    assert!(fx.contains(&Effect::Dock {
        x: 100,
        y: 600,
        width: 600,
        height: 140,
    }));
    let mut b = dialog(2);
    b.x = 900;
    b.y = 100;
    let fx = c.step(
        Env {
            now: t + ms(8),
            foreground_hwnd: 2,
        },
        Event::DialogUpdate(Some(b)),
    );
    assert!(fx.contains(&Effect::Dock {
        x: 900,
        y: 500,
        width: 600,
        height: 140,
    }));
    assert!(fx.contains(&Effect::RefreshPaths));
    assert!(c.is_visible());
}
