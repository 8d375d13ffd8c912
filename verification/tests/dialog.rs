use pathwarp::dialog::{
    check_injection_target, confirm_button_score, filename_edit_score, plan_injection,
    ConfirmStep, ControlKind, InjectTargetError, InjectionPlan, UiaCandidate,
};

fn cand(kind: ControlKind, id: &str, name: &str) -> UiaCandidate {
    UiaCandidate {
        kind,
        automation_id: id.to_string(),
        name: name.to_string(),
    }
}

#[test]
fn injection_refuses_zero_handle_and_blank_path() {
    assert_eq!(
        check_injection_target(0, "C:\\Work"),
        Err(InjectTargetError::InvalidDialogHandle)
    );
    assert_eq!(
        check_injection_target(42, "  \t"),
        Err(InjectTargetError::EmptyPath)
    );
    assert_eq!(check_injection_target(42, ""), Err(InjectTargetError::EmptyPath));
    assert_eq!(check_injection_target(42, " C:\\Work "), Ok(()));
}

#[test]
fn edit_scores() {
    assert_eq!(filename_edit_score("1148", "whatever"), 100);
    assert_eq!(filename_edit_score("1001", ""), 90);
    assert_eq!(filename_edit_score("", "File name:"), 80);
    assert_eq!(filename_edit_score("x", "文件名(N):"), 80);
    assert_eq!(filename_edit_score("41477", "Address"), 1);
}

#[test]
fn button_scores() {
    assert_eq!(confirm_button_score("1", "Cancel"), 100);
    assert_eq!(confirm_button_score("2", "&Open"), 80);
    assert_eq!(confirm_button_score("", "保存(S)"), 80);
    assert_eq!(confirm_button_score("", "SAVE"), 80);
    assert_eq!(confirm_button_score("2", "Cancel"), i32::MIN + 1);
}

#[test]
fn plan_picks_best_edit_and_button() {
    let cands = vec![
        cand(ControlKind::Edit, "41477", "Address"),
        cand(ControlKind::Button, "2", "Cancel"),
        cand(ControlKind::Edit, "1148", "File name:"),
        cand(ControlKind::Other, "1", "Open"),
        cand(ControlKind::Button, "1", "Open"),
        cand(ControlKind::Edit, "1148", "File name:"),
    ];
    assert_eq!(
        plan_injection(&cands),
        Some(InjectionPlan {
            edit: 2,
            confirm: ConfirmStep::InvokeButton(4),
        })
    );
}

#[test]
fn plan_presses_enter_without_a_good_button() {
    let cands = vec![
        cand(ControlKind::Button, "2", "Cancel"),
        cand(ControlKind::Edit, "", "Search"),
    ];
    assert_eq!(
        plan_injection(&cands),
        Some(InjectionPlan {
            edit: 1,
            confirm: ConfirmStep::PressEnter,
        })
    );
    let only_edit = vec![cand(ControlKind::Edit, "1001", "")];
    assert_eq!(
        plan_injection(&only_edit),
        Some(InjectionPlan {
            edit: 0,
            confirm: ConfirmStep::PressEnter,
        })
    );
}

#[test]
fn plan_fails_without_edit() {
    let cands = vec![cand(ControlKind::Button, "1", "Open")];
    assert_eq!(plan_injection(&cands), None);
    assert_eq!(plan_injection(&Vec::new()), None);
}
