//! Properties of the controller's transition [`step_model`], proved for every
//! state that satisfies the invariant.

use vstd::prelude::*;
use crate::controller::{
    dock_rect, effect_views, elapsed, event_ok, initial_model, step_model, ControllerModel,
    EffectView, Env, Event, Rect, FG_LOST_GRACE_NANOS, HIDE_GRACE_NANOS,
};
use crate::types::{DialogInfo, KeyAction};
use crate::window::normalized;

verus! {

/// The hook gate as the host holds it after performing `fx`, starting from `start`.
pub open spec fn gate_after(start: bool, fx: Seq<EffectView>) -> bool
    decreases fx.len(),
{
    if fx.len() == 0 {
        start
    } else {
        match fx.last() {
            EffectView::SetHookActive(b) => b,
            _ => gate_after(start, fx.drop_last()),
        }
    }
}

/// Where the host's overlay is docked after performing `fx` (`None` = parked).
pub open spec fn placement_after(start: Option<Rect>, fx: Seq<EffectView>) -> Option<Rect>
    decreases fx.len(),
{
    if fx.len() == 0 {
        start
    } else {
        match fx.last() {
            EffectView::Dock { x, y, width, height } => Some((x, y, width, height)),
            EffectView::Park => None,
            _ => placement_after(start, fx.drop_last()),
        }
    }
}

/// `fx` holds a docking effect.
pub open spec fn has_dock(fx: Seq<EffectView>) -> bool {
    exists|i: int| 0 <= i < fx.len() && fx[i] is Dock
}

/// `fx` holds a park effect.
pub open spec fn has_park(fx: Seq<EffectView>) -> bool {
    exists|i: int| 0 <= i < fx.len() && fx[i] is Park
}

/// `fx` holds an injection.
pub open spec fn has_inject(fx: Seq<EffectView>) -> bool {
    exists|i: int| 0 <= i < fx.len() && fx[i] is Inject
}

proof fn lemma_gate_after_concat(start: bool, a: Seq<EffectView>, b: Seq<EffectView>)
    ensures
        gate_after(start, a + b) == gate_after(gate_after(start, a), b),
    decreases b.len(),
{
    if b.len() == 0 {
        assert(a + b =~= a);
    } else {
        assert((a + b).drop_last() =~= a + b.drop_last());
        assert((a + b).last() == b.last());
        lemma_gate_after_concat(start, a, b.drop_last());
    }
}

proof fn lemma_placement_after_concat(start: Option<Rect>, a: Seq<EffectView>, b: Seq<EffectView>)
    ensures
        placement_after(start, a + b) == placement_after(placement_after(start, a), b),
    decreases b.len(),
{
    if b.len() == 0 {
        assert(a + b =~= a);
    } else {
        assert((a + b).drop_last() =~= a + b.drop_last());
        assert((a + b).last() == b.last());
        lemma_placement_after_concat(start, a, b.drop_last());
    }
}

proof fn lemma_handle_consistent(m: ControllerModel, env: Env, event: Event)
    requires
        m.wf(),
        event_ok(m, env, event),
    ensures
        m.handle(env, event).0.consistent(),
        m.handle(env, event).0.last_dock == m.last_dock,
        m.handle(env, event).0.visible == m.visible,
{
    reveal_with_fuel(Seq::filter, 1);
}

proof fn lemma_reconcile_wf(m: ControllerModel, env: Env)
    requires
        m.consistent(),
    ensures
        m.reconcile(env).0.wf(),
{
}

/// Every step keeps the invariant: the hook gate is on exactly while the
/// overlay is visible, a visible overlay is docked at its target's geometry,
/// and the selection stays in range of the filtered list.
pub proof fn lemma_step_preserves_wf(m: ControllerModel, env: Env, event: Event)
    requires
        m.wf(),
        event_ok(m, env, event),
    ensures
        step_model(m, env, event).0.wf(),
{
    lemma_handle_consistent(m, env, event);
    lemma_reconcile_wf(m.handle(env, event).0, env);
}

proof fn lemma_handle_sync(m: ControllerModel, env: Env, event: Event)
    ensures
        gate_after(m.hook_active, m.handle(env, event).1) == m.handle(env, event).0.hook_active,
        placement_after(m.last_dock, m.handle(env, event).1) == m.handle(env, event).0.last_dock,
        forall|i: int|
            0 <= i < m.handle(env, event).1.len() && (#[trigger] m.handle(env, event).1[i]) is Inject
                ==> !gate_after(m.hook_active, m.handle(env, event).1.take(i)),
{
    let fx = m.handle(env, event).1;
    reveal_with_fuel(gate_after, 3);
    reveal_with_fuel(placement_after, 3);
    assert forall|i: int| 0 <= i < fx.len() && (#[trigger] fx[i]) is Inject implies !gate_after(
        m.hook_active,
        fx.take(i),
    ) by {
        if fx.len() == 2 {
            assert(i == 1);
            assert(fx.take(i) =~= seq![EffectView::SetHookActive(false)]);
            assert(fx.take(i).drop_last() =~= Seq::<EffectView>::empty());
        } else {
            assert(i == 0);
            assert(fx.take(i) =~= Seq::<EffectView>::empty());
        }
    }
}

proof fn lemma_reconcile_sync(m: ControllerModel, env: Env)
    requires
        m.consistent(),
    ensures
        gate_after(m.hook_active, m.reconcile(env).1) == m.reconcile(env).0.hook_active,
        placement_after(m.last_dock, m.reconcile(env).1) == m.reconcile(env).0.last_dock,
        forall|i: int|
            0 <= i < m.reconcile(env).1.len() ==> !(#[trigger] m.reconcile(env).1[i] is Inject),
{
    let (m1, fx1) = m.flush_refresh();
    let m2 = m1.expire_pending_none(env.now);
    let (m3, desired) = m2.track_foreground(env);
    let (m4, fx2) = m3.converge(desired);
    reveal_with_fuel(gate_after, 3);
    reveal_with_fuel(placement_after, 3);
    lemma_gate_after_concat(m.hook_active, fx1, fx2);
    lemma_placement_after_concat(m.last_dock, fx1, fx2);
    if desired && m3.target_dialog is Some {
        let g = dock_rect(m3.target_dialog->0);
        let dock_fx = if !m3.visible || m3.last_dock != Some(g) {
            seq![EffectView::Dock { x: g.0, y: g.1, width: g.2, height: g.3 }]
        } else {
            Seq::empty()
        };
        let hook_fx = if !m3.hook_active {
            seq![EffectView::SetHookActive(true)]
        } else {
            Seq::empty()
        };
        lemma_gate_after_concat(m3.hook_active, dock_fx, hook_fx);
        lemma_placement_after_concat(m3.last_dock, dock_fx, hook_fx);
    }
    let fx = m.reconcile(env).1;
    assert(fx == fx1 + fx2);
    assert forall|i: int| 0 <= i < fx.len() implies !(#[trigger] fx[i] is Inject) by {
        if i < fx1.len() {
            assert(fx[i] == fx1[i]);
        } else {
            assert(fx[i] == fx2[i - fx1.len()]);
        }
    }
}

/// The host stays in sync with the controller: performing a step's effects in
/// order leaves the host's hook gate and the overlay's placement exactly as the
/// controller records them. This is what makes the docking de-duplication sound.
pub proof fn lemma_effects_keep_host_in_sync(m: ControllerModel, env: Env, event: Event)
    requires
        m.wf(),
        event_ok(m, env, event),
    ensures
        gate_after(m.hook_active, step_model(m, env, event).1) == step_model(m, env, event).0.hook_active,
        placement_after(m.last_dock, step_model(m, env, event).1) == step_model(m, env, event).0.last_dock,
{
    let (m1, fx1) = m.handle(env, event);
    lemma_handle_consistent(m, env, event);
    lemma_handle_sync(m, env, event);
    lemma_reconcile_sync(m1, env);
    let fx2 = m1.reconcile(env).1;
    lemma_gate_after_concat(m.hook_active, fx1, fx2);
    lemma_placement_after_concat(m.last_dock, fx1, fx2);
}

/// The keyboard hook never intercepts keys while a path is injected: at every
/// `Inject` effect of a step, the host's hook gate (after the effects before it)
/// is off.
pub proof fn lemma_hook_off_during_injection(m: ControllerModel, env: Env, event: Event)
    requires
        m.wf(),
        event_ok(m, env, event),
    ensures
        forall|i: int|
            0 <= i < step_model(m, env, event).1.len() && (#[trigger] step_model(m, env, event).1[i]) is Inject
                ==> !gate_after(m.hook_active, step_model(m, env, event).1.take(i)),
{
    let (m1, fx1) = m.handle(env, event);
    lemma_handle_consistent(m, env, event);
    lemma_handle_sync(m, env, event);
    lemma_reconcile_sync(m1, env);
    let fx2 = m1.reconcile(env).1;
    let fx = step_model(m, env, event).1;
    assert(fx == fx1 + fx2);
    assert forall|i: int| 0 <= i < fx.len() && (#[trigger] fx[i]) is Inject implies !gate_after(
        m.hook_active,
        fx.take(i),
    ) by {
        if i < fx1.len() {
            assert(fx[i] == fx1[i]);
            assert(fx.take(i) =~= fx1.take(i));
        } else {
            assert(fx[i] == fx2[i - fx1.len()]);
        }
    }
}

/// A dialog report that is not suppressed, with that dialog in the foreground,
/// docks the overlay below it and turns the hook on. A new session (another
/// dialog handle) also refreshes the paths and resets the query and selection.
/// A `Dock` is emitted exactly when the overlay was hidden or its rectangle
/// changes, so an identical report re-docks nothing and a moved dialog re-docks.
pub proof fn lemma_dialog_update_docks(m: ControllerModel, env: Env, info: DialogInfo)
    requires
        m.wf(),
        event_ok(m, env, Event::DialogUpdate(Some(info))),
        m.user_hidden_hwnd != Some(info.hwnd),
        env.foreground_hwnd == info.hwnd,
    ensures
        ({
            let (m2, fx) = step_model(m, env, Event::DialogUpdate(Some(info)));
            let g = dock_rect(info);
            &&& m2.visible && m2.hook_active
            &&& m2.target_dialog == Some(info)
            &&& m2.user_hidden_hwnd is None
            &&& m2.last_dock == Some(g)
            &&& !has_park(fx) && !has_inject(fx)
            &&& (has_dock(fx) <==> !(m.visible && m.last_dock == Some(g)))
            &&& (has_dock(fx) ==> fx.contains(
                EffectView::Dock { x: g.0, y: g.1, width: g.2, height: g.3 },
            ))
            &&& (fx.contains(EffectView::SetHookActive(true)) <==> !m.hook_active)
            &&& (m.session_hwnd != Some(info.hwnd) ==> fx.contains(EffectView::RefreshPaths)
                && m2.query.len() == 0 && m2.selected == 0)
        }),
{
    let (m2, fx) = step_model(m, env, Event::DialogUpdate(Some(info)));
    let m1 = m.on_dialog_update(Some(info), env.now);
    let (ma, fxa) = m1.flush_refresh();
    let g = dock_rect(info);
    let dock = EffectView::Dock { x: g.0, y: g.1, width: g.2, height: g.3 };
    let dock_fx = if !m.visible || m.last_dock != Some(g) { seq![dock] } else { Seq::empty() };
    let hook_fx = if !m.hook_active {
        seq![EffectView::SetHookActive(true)]
    } else {
        Seq::empty()
    };
    assert(fx =~= Seq::<EffectView>::empty() + (fxa + (dock_fx + hook_fx)));
    if has_park(fx) || has_inject(fx) {
        let i = choose|i: int| 0 <= i < fx.len() && (fx[i] is Park || fx[i] is Inject);
        if i < fxa.len() {
            assert(fx[i] == fxa[i]);
        } else if i < fxa.len() + dock_fx.len() {
            assert(fx[i] == dock_fx[i - fxa.len()]);
        } else {
            assert(fx[i] == hook_fx[i - fxa.len() - dock_fx.len()]);
        }
    }
    if has_dock(fx) {
        let i = choose|i: int| 0 <= i < fx.len() && fx[i] is Dock;
        if i < fxa.len() {
            assert(fx[i] == fxa[i]);
        } else if i < fxa.len() + dock_fx.len() {
            assert(fx[i] == dock_fx[i - fxa.len()]);
        } else {
            assert(fx[i] == hook_fx[i - fxa.len() - dock_fx.len()]);
        }
        assert(fx[i] == dock);
    }
    if !(m.visible && m.last_dock == Some(g)) {
        assert(fx[fxa.len() as int] == dock);
    }
    if !m.hook_active {
        assert(fx[(fxa.len() + dock_fx.len()) as int] == EffectView::SetHookActive(true));
    }
    if fx.contains(EffectView::SetHookActive(true)) {
        let i = choose|i: int| 0 <= i < fx.len() && fx[i] == EffectView::SetHookActive(true);
        if i < fxa.len() {
            assert(fx[i] == fxa[i]);
        } else if i < fxa.len() + dock_fx.len() {
            assert(fx[i] == dock_fx[i - fxa.len()]);
        } else {
            assert(fx[i] == hook_fx[i - fxa.len() - dock_fx.len()]);
        }
    }
    if m.session_hwnd != Some(info.hwnd) {
        assert(fx[0] == EffectView::RefreshPaths);
    }
}

/// A report of the dialog that ESC suppressed changes nothing visible: no
/// effect at all, the overlay stays hidden and the suppression stays.
pub proof fn lemma_suppressed_dialog_stays_hidden(m: ControllerModel, env: Env, info: DialogInfo)
    requires
        m.wf(),
        m.user_hidden_hwnd == Some(info.hwnd),
    ensures
        ({
            let (m2, fx) = step_model(m, env, Event::DialogUpdate(Some(info)));
            &&& fx.len() == 0
            &&& !m2.visible
            &&& m2.user_hidden_hwnd == Some(info.hwnd)
        }),
{
    assert(step_model(m, env, Event::DialogUpdate(Some(info))).1 =~= Seq::<EffectView>::empty());
}

/// ESC on the docked overlay disables the hook, then parks, and suppresses the
/// current dialog's session.
pub proof fn lemma_escape_parks_and_suppresses(m: ControllerModel, env: Env)
    requires
        m.wf(),
        m.visible,
    ensures
        ({
            let (m2, fx) = step_model(m, env, Event::Key(KeyAction::Escape));
            &&& fx == seq![EffectView::SetHookActive(false), EffectView::Park]
            &&& !m2.visible && !m2.hook_active
            &&& m2.user_hidden_hwnd == Some(m.target_dialog->0.hwnd)
            &&& m2.target_dialog is None
            &&& m2.query.len() == 0
        }),
{
    assert(step_model(m, env, Event::Key(KeyAction::Escape)).1 =~= seq![
        EffectView::SetHookActive(false),
        EffectView::Park,
    ]);
}

/// Confirming (Enter) while the target dialog is in the foreground and no hide
/// is pending injects the selected path into that dialog with the hook off
/// (turned off just before when it was on) and on again just after; the overlay
/// ends up docked and the session stays active, so another item can be injected.
pub proof fn lemma_enter_injects_and_stays_docked(m: ControllerModel, env: Env)
    requires
        m.wf(),
        m.target_dialog is Some,
        env.foreground_hwnd == m.target_dialog->0.hwnd,
        m.pending_none_since is None,
        m.selected_path() is Some,
    ensures
        ({
            let (m2, fx) = step_model(m, env, Event::Key(KeyAction::Enter));
            let d = m.target_dialog->0;
            let g = dock_rect(d);
            let inject = EffectView::Inject { hwnd: d.hwnd, path: m.selected_path()->0 };
            &&& fx == if m.visible {
                seq![EffectView::SetHookActive(false), inject, EffectView::SetHookActive(true)]
            } else {
                seq![
                    inject,
                    EffectView::Dock { x: g.0, y: g.1, width: g.2, height: g.3 },
                    EffectView::SetHookActive(true),
                ]
            }
            &&& m2.visible && m2.hook_active
            &&& m2.target_dialog == m.target_dialog
            &&& m2.user_hidden_hwnd is None
        }),
{
    let fx = step_model(m, env, Event::Key(KeyAction::Enter)).1;
    let d = m.target_dialog->0;
    let g = dock_rect(d);
    let inject = EffectView::Inject { hwnd: d.hwnd, path: m.selected_path()->0 };
    if m.visible {
        assert(fx =~= seq![
            EffectView::SetHookActive(false),
            inject,
            EffectView::SetHookActive(true),
        ]);
    } else {
        assert(fx =~= seq![
            inject,
            EffectView::Dock { x: g.0, y: g.1, width: g.2, height: g.3 },
            EffectView::SetHookActive(true),
        ]);
    }
}

/// A single click on filtered item `index` only selects it; a double click
/// selects it and, under the same conditions as Enter, injects that item with
/// the hook off and leaves the overlay docked with the hook on.
pub proof fn lemma_clicks_select_and_double_click_injects(m: ControllerModel, env: Env, index: usize)
    requires
        m.wf(),
        m.target_dialog is Some,
        env.foreground_hwnd == m.target_dialog->0.hwnd,
        m.pending_none_since is None,
        index < m.filtered().len(),
    ensures
        ({
            let (m2, fx) = step_model(m, env, Event::ItemClicked(index));
            &&& m2.selected == index
            &&& !has_inject(fx) && !has_park(fx)
            &&& m2.visible
        }),
        ({
            let (m2, fx) = step_model(m, env, Event::ItemDoubleClicked(index));
            let d = m.target_dialog->0;
            let g = dock_rect(d);
            let inject = EffectView::Inject { hwnd: d.hwnd, path: m.filtered()[index as int] };
            &&& m2.selected == index
            &&& fx == if m.visible {
                seq![EffectView::SetHookActive(false), inject, EffectView::SetHookActive(true)]
            } else {
                seq![
                    inject,
                    EffectView::Dock { x: g.0, y: g.1, width: g.2, height: g.3 },
                    EffectView::SetHookActive(true),
                ]
            }
            &&& m2.visible && m2.hook_active
        }),
{
    let d = m.target_dialog->0;
    let g = dock_rect(d);
    let fx1 = step_model(m, env, Event::ItemClicked(index)).1;
    if m.visible {
        assert(fx1 =~= Seq::<EffectView>::empty());
    } else {
        assert(fx1 =~= seq![
            EffectView::Dock { x: g.0, y: g.1, width: g.2, height: g.3 },
            EffectView::SetHookActive(true),
        ]);
    }
    let fx2 = step_model(m, env, Event::ItemDoubleClicked(index)).1;
    let inject = EffectView::Inject { hwnd: d.hwnd, path: m.filtered()[index as int] };
    if m.visible {
        assert(fx2 =~= seq![
            EffectView::SetHookActive(false),
            inject,
            EffectView::SetHookActive(true),
        ]);
    } else {
        assert(fx2 =~= seq![
            inject,
            EffectView::Dock { x: g.0, y: g.1, width: g.2, height: g.3 },
            EffectView::SetHookActive(true),
        ]);
    }
}

/// Without a dialog and without a pending hide, a heartbeat changes nothing and
/// asks for nothing, so the host may stop repainting while idle.
pub proof fn lemma_idle_tick_is_noop(m: ControllerModel, env: Env)
    requires
        m.wf(),
        m.target_dialog is None,
        m.pending_none_since is None,
    ensures
        step_model(m, env, Event::Tick) == (m, Seq::<EffectView>::empty()),
{
    assert(step_model(m, env, Event::Tick).1 =~= Seq::<EffectView>::empty());
}

/// Losing the foreground for less than the grace keeps the overlay docked with
/// no effect; once the loss has lasted the grace, the hook is disabled and the
/// overlay parks while the dialog stays tracked; when the dialog is in the
/// foreground again, the overlay docks again.
pub proof fn lemma_foreground_grace(m: ControllerModel, env: Env)
    requires
        m.wf(),
        m.target_dialog is Some,
        m.pending_none_since is None,
    ensures
        ({
            let (m2, fx) = step_model(m, env, Event::Tick);
            let d = m.target_dialog->0;
            let g = dock_rect(d);
            &&& (m.visible && env.foreground_hwnd != d.hwnd && (m.fg_lost_since is None
                || elapsed(env.now, m.fg_lost_since->0) < FG_LOST_GRACE_NANOS)) ==> fx.len() == 0
                && m2.visible
            &&& (m.visible && env.foreground_hwnd != d.hwnd && m.fg_lost_since is Some && elapsed(
                env.now,
                m.fg_lost_since->0,
            ) >= FG_LOST_GRACE_NANOS) ==> fx == seq![
                EffectView::SetHookActive(false),
                EffectView::Park,
            ] && !m2.visible && m2.target_dialog == m.target_dialog
            &&& (!m.visible && env.foreground_hwnd == d.hwnd) ==> fx == seq![
                EffectView::Dock { x: g.0, y: g.1, width: g.2, height: g.3 },
                EffectView::SetHookActive(true),
            ] && m2.visible
        }),
{
    let fx = step_model(m, env, Event::Tick).1;
    let d = m.target_dialog->0;
    let g = dock_rect(d);
    if m.visible && env.foreground_hwnd != d.hwnd {
        assert(fx =~= Seq::<EffectView>::empty() || fx =~= seq![
            EffectView::SetHookActive(false),
            EffectView::Park,
        ]);
    }
    if !m.visible && env.foreground_hwnd == d.hwnd {
        assert(fx =~= seq![
            EffectView::Dock { x: g.0, y: g.1, width: g.2, height: g.3 },
            EffectView::SetHookActive(true),
        ]);
    }
}

/// After `DialogUpdate(None)`, the session survives until the hide grace has
/// passed; then it ends: the dialog, query and suppression are cleared and a
/// visible overlay turns the hook off and parks.
pub proof fn lemma_hide_grace(m: ControllerModel, env: Env)
    requires
        m.wf(),
        m.pending_none_since is Some,
    ensures
        ({
            let (m2, fx) = step_model(m, env, Event::Tick);
            let waited = elapsed(env.now, m.pending_none_since->0);
            &&& waited < HIDE_GRACE_NANOS ==> m2.target_dialog == m.target_dialog && m2.query
                == m.query && m2.pending_none_since == m.pending_none_since
            &&& waited >= HIDE_GRACE_NANOS ==> {
                &&& m2.target_dialog is None && m2.session_hwnd is None
                &&& m2.user_hidden_hwnd is None
                &&& m2.query.len() == 0 && m2.selected == 0
                &&& !m2.visible
                &&& fx == if m.visible {
                    seq![EffectView::SetHookActive(false), EffectView::Park]
                } else {
                    Seq::empty()
                }
            }
        }),
{
    let fx = step_model(m, env, Event::Tick).1;
    if elapsed(env.now, m.pending_none_since->0) >= HIDE_GRACE_NANOS {
        if m.visible {
            assert(fx =~= seq![EffectView::SetHookActive(false), EffectView::Park]);
        } else {
            assert(fx =~= Seq::<EffectView>::empty());
        }
    }
}

/// Typing a character and then Backspace gives back the query (when no hide is
/// pending, so the session cannot end in between).
pub proof fn lemma_backspace_undoes_typing(m: ControllerModel, env1: Env, env2: Env, c: char)
    requires
        m.wf(),
        m.pending_none_since is None,
    ensures
        ({
            let m1 = step_model(m, env1, Event::Key(KeyAction::Char(c))).0;
            let m2 = step_model(m1, env2, Event::Key(KeyAction::Backspace)).0;
            &&& m1.query == m.query.push(c)
            &&& m2.query == m.query
        }),
{
    assert(m.query.push(c).drop_last() =~= m.query);
}

/// A click selects the clicked filtered item, clamped to the last one.
pub proof fn lemma_click_selects(m: ControllerModel, env: Env, index: usize)
    requires
        m.wf(),
        m.pending_none_since is None,
    ensures
        step_model(m, env, Event::ItemClicked(index)).0.selected == normalized(
            index as int,
            m.filtered().len() as int,
        ),
        !has_inject(step_model(m, env, Event::ItemClicked(index)).1),
{
    let (m2, fx) = step_model(m, env, Event::ItemClicked(index));
    if has_inject(fx) {
        let i = choose|i: int| 0 <= i < fx.len() && fx[i] is Inject;
        lemma_reconcile_sync(m.select_filtered(index as int), env);
        assert(fx == Seq::<EffectView>::empty() + m.select_filtered(index as int).reconcile(env).1);
    }
}

/// The placement effects of `fx`, performed from placement `start`, are
/// meaningful: a `Park` only while docked, a `Dock` only when it moves or shows
/// the overlay. From the parked state this means: the first placement effect is
/// a `Dock`, a `Park` never follows a `Park`, and two `Dock`s in a row differ.
pub open spec fn placement_ok(start: Option<Rect>, fx: Seq<EffectView>) -> bool
    decreases fx.len(),
{
    if fx.len() == 0 {
        true
    } else {
        let prev = placement_after(start, fx.drop_last());
        placement_ok(start, fx.drop_last()) && match fx.last() {
            EffectView::Dock { x, y, width, height } => prev != Some((x, y, width, height)),
            EffectView::Park => prev is Some,
            _ => true,
        }
    }
}

proof fn lemma_placement_ok_concat(start: Option<Rect>, a: Seq<EffectView>, b: Seq<EffectView>)
    ensures
        placement_ok(start, a + b) == (placement_ok(start, a) && placement_ok(
            placement_after(start, a),
            b,
        )),
    decreases b.len(),
{
    if b.len() == 0 {
        assert(a + b =~= a);
    } else {
        assert((a + b).drop_last() =~= a + b.drop_last());
        assert((a + b).last() == b.last());
        lemma_placement_ok_concat(start, a, b.drop_last());
        lemma_placement_after_concat(start, a, b.drop_last());
    }
}

/// Effects with no `Dock` or `Park` keep any placement and are meaningful.
proof fn lemma_no_placement_effects(start: Option<Rect>, fx: Seq<EffectView>)
    requires
        forall|i: int| 0 <= i < fx.len() ==> !(#[trigger] fx[i] is Dock) && !(fx[i] is Park),
    ensures
        placement_ok(start, fx),
        placement_after(start, fx) == start,
    decreases fx.len(),
{
    if fx.len() > 0 {
        assert forall|i: int| 0 <= i < fx.drop_last().len() implies !(
        #[trigger] fx.drop_last()[i] is Dock) && !(fx.drop_last()[i] is Park) by {
            assert(fx.drop_last()[i] == fx[i]);
        }
        lemma_no_placement_effects(start, fx.drop_last());
    }
}

/// Every step's placement effects are meaningful, starting from where the
/// overlay is.
pub proof fn lemma_step_placement_ok(m: ControllerModel, env: Env, event: Event)
    requires
        m.wf(),
        event_ok(m, env, event),
    ensures
        placement_ok(m.last_dock, step_model(m, env, event).1),
{
    let (m1, fx1) = m.handle(env, event);
    lemma_handle_consistent(m, env, event);
    assert forall|i: int| 0 <= i < fx1.len() implies !(#[trigger] fx1[i] is Dock) && !(
    fx1[i] is Park) by {
        if fx1.len() == 2 {
            assert(i == 0 || i == 1);
        }
    }
    lemma_no_placement_effects(m.last_dock, fx1);
    let (ma, fxa) = m1.flush_refresh();
    let mb = ma.expire_pending_none(env.now);
    let (mc, desired) = mb.track_foreground(env);
    let (md, fxb) = mc.converge(desired);
    assert forall|i: int| 0 <= i < fxa.len() implies !(#[trigger] fxa[i] is Dock) && !(
    fxa[i] is Park) by {}
    lemma_no_placement_effects(m.last_dock, fxa);
    reveal_with_fuel(placement_ok, 3);
    reveal_with_fuel(placement_after, 3);
    if desired && mc.target_dialog is Some {
        let g = dock_rect(mc.target_dialog->0);
        let dock_fx = if !mc.visible || mc.last_dock != Some(g) {
            seq![EffectView::Dock { x: g.0, y: g.1, width: g.2, height: g.3 }]
        } else {
            Seq::empty()
        };
        let hook_fx = if !mc.hook_active {
            seq![EffectView::SetHookActive(true)]
        } else {
            Seq::empty()
        };
        lemma_placement_ok_concat(m.last_dock, dock_fx, hook_fx);
        lemma_placement_after_concat(m.last_dock, dock_fx, hook_fx);
    }
    lemma_placement_ok_concat(m.last_dock, fxa, fxb);
    assert(m1.reconcile(env).1 == fxa + fxb);
    lemma_placement_ok_concat(m.last_dock, fx1, fxa + fxb);
}

/// One call on the controller: a step, or a new path list.
pub enum Call {
    Step(Env, Event),
    SetPaths(Seq<Seq<char>>),
}

/// The state and effects of one call.
pub open spec fn apply_call(m: ControllerModel, call: Call) -> (ControllerModel, Seq<EffectView>) {
    match call {
        Call::Step(env, event) => step_model(m, env, event),
        Call::SetPaths(paths) => (
            ControllerModel { paths, ..m }.clamp_selection(),
            Seq::empty(),
        ),
    }
}

/// The state after `calls` from `m`, and all effects returned, in order.
pub open spec fn run_from(m: ControllerModel, calls: Seq<Call>) -> (ControllerModel, Seq<
    EffectView,
>)
    decreases calls.len(),
{
    if calls.len() == 0 {
        (m, Seq::empty())
    } else {
        let (m1, fx) = apply_call(m, calls[0]);
        let (m2, rest) = run_from(m1, calls.drop_first());
        (m2, fx + rest)
    }
}

/// Every step of `calls` from `m` is one that `step` accepts in its state.
pub open spec fn accepted(m: ControllerModel, calls: Seq<Call>) -> bool
    decreases calls.len(),
{
    if calls.len() == 0 {
        true
    } else {
        let ok = match calls[0] {
            Call::Step(env, event) => event_ok(m, env, event),
            Call::SetPaths(_) => true,
        };
        ok && accepted(apply_call(m, calls[0]).0, calls.drop_first())
    }
}

proof fn lemma_call_history(m: ControllerModel, calls: Seq<Call>)
    requires
        m.wf(),
        accepted(m, calls),
    ensures
        ({
            let (m2, h) = run_from(m, calls);
            &&& m2.wf()
            &&& gate_after(m.hook_active, h) == m2.hook_active
            &&& placement_after(m.last_dock, h) == m2.last_dock
            &&& placement_ok(m.last_dock, h)
            &&& forall|j: int|
                0 <= j < h.len() && (#[trigger] h[j]) is Inject ==> !gate_after(
                    m.hook_active,
                    h.take(j),
                )
        }),
    decreases calls.len(),
{
    if calls.len() > 0 {
        let (m1, fx) = apply_call(m, calls[0]);
        let (m2, rest) = run_from(m1, calls.drop_first());
        let h = fx + rest;
        match calls[0] {
            Call::Step(env, event) => {
                lemma_step_preserves_wf(m, env, event);
                lemma_effects_keep_host_in_sync(m, env, event);
                lemma_step_placement_ok(m, env, event);
                lemma_hook_off_during_injection(m, env, event);
            },
            Call::SetPaths(paths) => {
                reveal_with_fuel(gate_after, 1);
                reveal_with_fuel(placement_after, 1);
                reveal_with_fuel(placement_ok, 1);
                assert(fx =~= Seq::<EffectView>::empty());
            },
        }
        lemma_call_history(m1, calls.drop_first());
        lemma_gate_after_concat(m.hook_active, fx, rest);
        lemma_placement_after_concat(m.last_dock, fx, rest);
        lemma_placement_ok_concat(m.last_dock, fx, rest);
        assert forall|j: int| 0 <= j < h.len() && (#[trigger] h[j]) is Inject implies !gate_after(
            m.hook_active,
            h.take(j),
        ) by {
            if j < fx.len() {
                assert(h.take(j) =~= fx.take(j));
                assert(h[j] == fx[j]);
            } else {
                let k = j - fx.len();
                assert(h[j] == rest[k]);
                assert(h.take(j) =~= fx + rest.take(k));
                lemma_gate_after_concat(m.hook_active, fx, rest.take(k));
            }
        }
    }
}

/// Over any history of accepted calls from a new controller, with `h` all the
/// effects it returned in order: the keyboard hook is off at every injection
/// (turned off before it, or never on); the host's hook is on exactly while
/// the overlay is docked; and the `Dock`/`Park` effects form a meaningful
/// sequence (the first is a `Dock`, a `Park` never follows a `Park`, two
/// `Dock`s in a row carry different rectangles) that ends docked exactly when
/// the controller reports the overlay visible.
pub proof fn lemma_history_from_new(calls: Seq<Call>)
    requires
        accepted(initial_model(), calls),
    ensures
        ({
            let (m, h) = run_from(initial_model(), calls);
            &&& m.wf()
            &&& forall|j: int|
                0 <= j < h.len() && (#[trigger] h[j]) is Inject ==> !gate_after(false, h.take(j))
            &&& gate_after(false, h) == m.visible
            &&& placement_ok(None, h)
            &&& (placement_after(None, h) is Some) == m.visible
            &&& placement_after(None, h) == m.last_dock
        }),
{
    reveal_with_fuel(Seq::filter, 1);
    assert(initial_model().wf());
    lemma_call_history(initial_model(), calls);
}

/// The state and the effects after a history depend on the history alone:
/// time and the foreground window enter only through each step's `Env`, so two
/// controllers given the same calls agree on everything they report.
pub proof fn lemma_same_history_same_run(calls1: Seq<Call>, calls2: Seq<Call>)
    requires
        calls1 == calls2,
    ensures
        run_from(initial_model(), calls1) == run_from(initial_model(), calls2),
{
}

/// A step that can release ESC's suppression of dialog `h`: a report of another
/// dialog, a second ESC (it suppresses the current target, and there is none),
/// or the end of the session once `DialogUpdate(None)` has waited out the grace.
pub open spec fn releases_suppression(m: ControllerModel, env: Env, event: Event) -> bool {
    match event {
        Event::DialogUpdate(Some(d)) => m.user_hidden_hwnd != Some(d.hwnd),
        Event::Key(KeyAction::Escape) => true,
        _ => match m.handle(env, event).0.pending_none_since {
            Some(since) => elapsed(env.now, since) >= HIDE_GRACE_NANOS,
            None => false,
        },
    }
}

/// The calls from `m` never release the suppression.
pub open spec fn keeps_suppression(m: ControllerModel, calls: Seq<Call>) -> bool
    decreases calls.len(),
{
    if calls.len() == 0 {
        true
    } else {
        let ok = match calls[0] {
            Call::Step(env, event) => event_ok(m, env, event) && !releases_suppression(m, env, event),
            Call::SetPaths(_) => true,
        };
        ok && keeps_suppression(apply_call(m, calls[0]).0, calls.drop_first())
    }
}

proof fn lemma_suppressed_step(m: ControllerModel, env: Env, event: Event)
    requires
        m.wf(),
        m.user_hidden_hwnd is Some,
        event_ok(m, env, event),
        !releases_suppression(m, env, event),
    ensures
        step_model(m, env, event).1.len() == 0,
        step_model(m, env, event).0.user_hidden_hwnd == m.user_hidden_hwnd,
        !step_model(m, env, event).0.visible,
{
    assert(step_model(m, env, event).1 =~= Seq::<EffectView>::empty());
}

/// After ESC suppressed dialog `h`, as long as no step releases it (see
/// [`releases_suppression`]), no step emits any effect (so no `Dock` and no
/// `Inject`), the overlay stays hidden and `h` stays suppressed. A report of
/// another dialog, or the end of the session, releases it, after which `h`
/// docks again when reported in the foreground (see `lemma_dialog_update_docks`).
pub proof fn lemma_suppression_holds(m: ControllerModel, h: isize, calls: Seq<Call>)
    requires
        m.wf(),
        m.user_hidden_hwnd == Some(h),
        keeps_suppression(m, calls),
    ensures
        run_from(m, calls).1.len() == 0,
        run_from(m, calls).0.user_hidden_hwnd == Some(h),
        !run_from(m, calls).0.visible,
        run_from(m, calls).0.wf(),
    decreases calls.len(),
{
    if calls.len() > 0 {
        let (m1, fx) = apply_call(m, calls[0]);
        match calls[0] {
            Call::Step(env, event) => {
                lemma_suppressed_step(m, env, event);
                lemma_step_preserves_wf(m, env, event);
            },
            Call::SetPaths(_) => {},
        }
        lemma_suppression_holds(m1, h, calls.drop_first());
        assert(fx + run_from(m1, calls.drop_first()).1 =~= Seq::<EffectView>::empty());
    }
}

/// Enter without a target dialog, or without a selected path, does what a
/// heartbeat does: no injection, no hook change, the same state. A double click
/// then only selects, as a single click does.
pub proof fn lemma_confirm_without_target_or_path(m: ControllerModel, env: Env, index: usize)
    requires
        m.wf(),
        m.target_dialog is None || m.select_filtered(index as int).selected_path() is None,
        m.target_dialog is None || m.selected_path() is None,
    ensures
        step_model(m, env, Event::Key(KeyAction::Enter)) == step_model(m, env, Event::Tick),
        step_model(m, env, Event::ItemDoubleClicked(index)) == step_model(
            m,
            env,
            Event::ItemClicked(index),
        ),
{
    assert(step_model(m, env, Event::Key(KeyAction::Enter)).1 =~= step_model(
        m,
        env,
        Event::Tick,
    ).1);
    assert(step_model(m, env, Event::ItemDoubleClicked(index)).1 =~= step_model(
        m,
        env,
        Event::ItemClicked(index),
    ).1);
}

/// A report of the dialog that the session already follows (and that ESC did
/// not suppress) keeps what the user typed and selected and asks for no path
/// refresh: the monitor reports the same dialog on every poll, and only a new
/// dialog handle starts a new session.
pub proof fn lemma_same_dialog_report_keeps_query(m: ControllerModel, env: Env, info: DialogInfo)
    requires
        m.wf(),
        m.session_hwnd == Some(info.hwnd),
        m.user_hidden_hwnd != Some(info.hwnd),
    ensures
        ({
            let (m2, fx) = step_model(m, env, Event::DialogUpdate(Some(info)));
            &&& m2.query == m.query
            &&& m2.selected == m.selected
            &&& m2.paths == m.paths
            &&& m2.session_hwnd == Some(info.hwnd)
            &&& forall|k: int| 0 <= k < fx.len() ==> fx[k] != EffectView::RefreshPaths
        }),
{
    let (m1, fx1) = m.handle(env, Event::DialogUpdate(Some(info)));
    assert(fx1.len() == 0);
    assert(!m1.pending_refresh);
    let (m2, fx2) = m1.reconcile(env);
    let (m3, fx3) = m1.flush_refresh();
    assert(fx3.len() == 0);
    let m4 = m3.expire_pending_none(env.now);
    let (m5, desired) = m4.track_foreground(env);
    let (m6, fx6) = m5.converge(desired);
    assert forall|k: int| 0 <= k < fx2.len() implies fx2[k] != EffectView::RefreshPaths by {
        assert(fx2 == fx3 + fx6);
        assert(fx2[k] == fx6[k]);
    }
    assert(step_model(m, env, Event::DialogUpdate(Some(info))).1 == fx1 + fx2);
    assert(fx1 + fx2 =~= fx2);
}

/// Up moves the selection one item up and Down one item down, within the
/// filtered list, from the selection brought into range; neither changes the
/// query or the list. No other effect or change happens while no hide is pending.
pub proof fn lemma_arrows_move_one_item(m: ControllerModel, env: Env)
    requires
        m.wf(),
        m.pending_none_since is None,
    ensures
        ({
            let len = m.filtered().len() as int;
            let cur = if len == 0 { 0 } else if m.selected < len { m.selected } else { len - 1 };
            let up = step_model(m, env, Event::Key(KeyAction::Up)).0;
            let down = step_model(m, env, Event::Key(KeyAction::Down)).0;
            &&& up.selected == (if cur > 0 { cur - 1 } else { 0 })
            &&& down.selected == (if len == 0 { 0 } else if cur + 1 < len { cur + 1 } else { len - 1 })
            &&& up.query == m.query && down.query == m.query
        }),
{
}

} // verus!
