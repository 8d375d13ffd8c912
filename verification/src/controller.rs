//! The overlay controller: a pure state machine that owns every show/hide,
//! docking, injection, hook-gating, debounce and suppression decision.
//!
//! `step(env, event)` returns the effects that the host must perform. Time and
//! the foreground window come in through [`Env`], so every timing rule is
//! deterministic. The specification of `step` is the model transition
//! [`step_model`] over [`ControllerModel`].

use vstd::prelude::*;
use crate::text::{pop_char, push_char};
use crate::types::{DialogInfo, KeyAction};
use crate::window::{
    filter_paths, filtered_paths, matching_path_count, moved_selection, normalized, views,
};

verus! {

/// Logical height of the overlay in pixels (scaled by the dialog's DPI).
pub const OVERLAY_HEIGHT_LOGICAL: u32 = 140;

/// Physical gap between the dialog's lower edge and the overlay.
pub const OVERLAY_GAP: i32 = 0;

/// Debounce after `DialogUpdate(None)` before the session ends (120 ms).
pub const HIDE_GRACE_NANOS: u64 = 120_000_000;

/// Grace after the target dialog loses the foreground before the overlay is
/// parked (150 ms).
pub const FG_LOST_GRACE_NANOS: u64 = 150_000_000;

/// The outside world at one `step`: a monotonic clock reading in nanoseconds
/// and the current foreground window.
#[derive(Debug, Clone, Copy)]
pub struct Env {
    pub now: u64,
    pub foreground_hwnd: isize,
}

/// One external event fed to the controller.
#[derive(Debug, Clone, Copy)]
pub enum Event {
    /// Dialog state from the monitor (`Some` = appeared/updated, `None` = maybe gone).
    DialogUpdate(Option<DialogInfo>),
    /// An input intent from the keyboard hook.
    Key(KeyAction),
    /// A list item was clicked (index into the filtered list).
    ItemClicked(usize),
    /// A list item was double-clicked.
    ItemDoubleClicked(usize),
    /// A heartbeat without external input, to advance the timers.
    Tick,
}

/// An effect that the controller asks the host to perform.
#[derive(Debug, Clone, PartialEq, Eq)]
pub enum Effect {
    /// Dock the overlay at this rectangle (physical pixels) and show it without activating it.
    Dock { x: i32, y: i32, width: i32, height: i32 },
    /// Hide the overlay (move it off-screen).
    Park,
    /// Inject `path` into the dialog `hwnd` and confirm.
    Inject { hwnd: isize, path: String },
    /// Turn the keyboard hook's interception on or off.
    SetHookActive(bool),
    /// Re-read the list of open Explorer paths.
    RefreshPaths,
}

/// The mathematical form of an [`Effect`].
pub enum EffectView {
    Dock { x: i32, y: i32, width: i32, height: i32 },
    Park,
    Inject { hwnd: isize, path: Seq<char> },
    SetHookActive(bool),
    RefreshPaths,
}

impl View for Effect {
    type V = EffectView;

    open spec fn view(&self) -> EffectView {
        match self {
            Effect::Dock { x, y, width, height } => EffectView::Dock {
                x: *x,
                y: *y,
                width: *width,
                height: *height,
            },
            Effect::Park => EffectView::Park,
            Effect::Inject { hwnd, path } => EffectView::Inject { hwnd: *hwnd, path: path@ },
            Effect::SetHookActive(b) => EffectView::SetHookActive(*b),
            Effect::RefreshPaths => EffectView::RefreshPaths,
        }
    }
}

/// The views of a sequence of effects.
pub open spec fn effect_views(fx: Seq<Effect>) -> Seq<EffectView> {
    fx.map_values(|e: Effect| e@)
}

/// The docking rectangle `(x, y, width, height)` computed from a dialog.
pub type Rect = (i32, i32, i32, i32);

/// The abstract state of the controller.
pub struct ControllerModel {
    pub target_dialog: Option<DialogInfo>,
    pub session_hwnd: Option<isize>,
    pub pending_none_since: Option<u64>,
    pub fg_lost_since: Option<u64>,
    pub user_hidden_hwnd: Option<isize>,
    pub visible: bool,
    pub hook_active: bool,
    pub last_dock: Option<Rect>,
    pub pending_refresh: bool,
    pub paths: Seq<Seq<char>>,
    pub query: Seq<char>,
    pub selected: int,
}

/// Overlay height for a dialog DPI: 140 logical pixels scaled by `dpi / 96`,
/// the product saturating at `u32::MAX`.
pub open spec fn dock_height(dpi: u32) -> int {
    let product = OVERLAY_HEIGHT_LOGICAL * dpi;
    let scaled = if product > u32::MAX { u32::MAX as int } else { product };
    scaled / 96
}

/// The dialog's lower edge fits in an `i32`.
pub open spec fn geometry_fits(d: DialogInfo) -> bool {
    i32::MIN <= d.y + d.height + OVERLAY_GAP <= i32::MAX
}

/// Docking rectangle: directly below the dialog, same x and width, DPI-scaled height.
pub open spec fn dock_rect(d: DialogInfo) -> Rect {
    (d.x, (d.y + d.height + OVERLAY_GAP) as i32, d.width, dock_height(d.dpi) as i32)
}

/// Time from `since` to `now`, zero when `since` is later.
pub open spec fn elapsed(now: u64, since: u64) -> int {
    if now >= since { now - since } else { 0 }
}

/// A selection index is in range of a list of `len` items (0 when empty).
pub open spec fn selection_in_range(selected: int, len: int) -> bool {
    if len == 0 { selected == 0 } else { 0 <= selected < len }
}

impl ControllerModel {
    /// The paths that the current query keeps.
    pub open spec fn filtered(self) -> Seq<Seq<char>> {
        filter_paths(self.paths, self.query)
    }

    /// The path under the selection, if the selection points into the filtered list.
    pub open spec fn selected_path(self) -> Option<Seq<char>> {
        if 0 <= self.selected < self.filtered().len() {
            Some(self.filtered()[self.selected])
        } else {
            None
        }
    }

    /// Facts that hold between the handlers of one step.
    pub open spec fn consistent(self) -> bool {
        &&& self.hook_active ==> self.visible
        &&& !self.visible ==> self.last_dock is None
        &&& (self.target_dialog matches Some(d) ==> self.session_hwnd == Some(d.hwnd))
        &&& self.user_hidden_hwnd is Some ==> self.target_dialog is None && self.session_hwnd is None
        &&& selection_in_range(self.selected, self.filtered().len() as int)
    }

    /// The invariant that holds whenever the controller is at rest: the hook gate
    /// is on exactly while the overlay is visible, a visible overlay is docked at
    /// its target's geometry, no refresh is pending, and the selection is in range.
    pub open spec fn wf(self) -> bool {
        &&& self.consistent()
        &&& self.hook_active == self.visible
        &&& (self.visible ==> self.target_dialog is Some && self.last_dock == Some(
            dock_rect(self.target_dialog->0),
        ))
        &&& !self.pending_refresh
    }

    /// The session ends: everything is cleared and suppression is released.
    pub open spec fn end_session(self) -> ControllerModel {
        ControllerModel {
            target_dialog: None,
            session_hwnd: None,
            pending_none_since: None,
            fg_lost_since: None,
            user_hidden_hwnd: None,
            query: Seq::empty(),
            selected: 0,
            ..self
        }
    }

    /// ESC: the current dialog's session is suppressed and the overlay will hide.
    pub open spec fn suppress_current_session(self) -> ControllerModel {
        ControllerModel {
            user_hidden_hwnd: match self.target_dialog {
                Some(d) => Some(d.hwnd),
                None => None,
            },
            target_dialog: None,
            session_hwnd: None,
            pending_none_since: None,
            fg_lost_since: None,
            query: Seq::empty(),
            selected: 0,
            ..self
        }
    }

    /// The selection brought into range of the filtered list.
    pub open spec fn clamp_selection(self) -> ControllerModel {
        ControllerModel { selected: normalized(self.selected, self.filtered().len() as int), ..self }
    }

    /// The selection moved up or down within the filtered list.
    pub open spec fn move_selection(self, up: bool, down: bool) -> ControllerModel {
        ControllerModel {
            selected: moved_selection(self.selected, self.filtered().len() as int, up, down),
            ..self
        }
    }

    /// A click selects filtered item `index` (clamped to the list).
    pub open spec fn select_filtered(self, index: int) -> ControllerModel {
        ControllerModel { selected: normalized(index, self.filtered().len() as int), ..self }
    }

    /// A dialog report from the monitor.
    pub open spec fn on_dialog_update(self, update: Option<DialogInfo>, now: u64) -> ControllerModel {
        match update {
            Some(info) => {
                if self.user_hidden_hwnd == Some(info.hwnd) {
                    ControllerModel { target_dialog: None, pending_none_since: None, ..self }
                } else {
                    let m = ControllerModel {
                        user_hidden_hwnd: None,
                        target_dialog: Some(info),
                        pending_none_since: None,
                        ..self
                    };
                    if self.session_hwnd != Some(info.hwnd) {
                        ControllerModel {
                            session_hwnd: Some(info.hwnd),
                            query: Seq::empty(),
                            selected: 0,
                            pending_refresh: true,
                            ..m
                        }
                    } else {
                        m
                    }
                }
            },
            None => {
                if self.pending_none_since is None {
                    ControllerModel { pending_none_since: Some(now), ..self }
                } else {
                    self
                }
            },
        }
    }

    /// Confirm: with a target dialog and a selected path, turn the hook gate off
    /// (if it is on) and then inject the path. The overlay stays docked.
    pub open spec fn confirm(self) -> (ControllerModel, Seq<EffectView>) {
        match self.target_dialog {
            None => (self, Seq::empty()),
            Some(d) => match self.selected_path() {
                None => (self, Seq::empty()),
                Some(path) => {
                    let inject = EffectView::Inject { hwnd: d.hwnd, path };
                    if self.hook_active {
                        (
                            ControllerModel { hook_active: false, ..self },
                            seq![EffectView::SetHookActive(false), inject],
                        )
                    } else {
                        (self, seq![inject])
                    }
                },
            },
        }
    }

    /// A key intent.
    pub open spec fn on_key(self, key: KeyAction) -> (ControllerModel, Seq<EffectView>) {
        match key {
            KeyAction::Char(c) => (
                ControllerModel { query: self.query.push(c), ..self }.clamp_selection(),
                Seq::empty(),
            ),
            KeyAction::Backspace => (
                ControllerModel {
                    query: if self.query.len() > 0 { self.query.drop_last() } else { self.query },
                    ..self
                }.clamp_selection(),
                Seq::empty(),
            ),
            KeyAction::Up => (self.move_selection(true, false), Seq::empty()),
            KeyAction::Down => (self.move_selection(false, true), Seq::empty()),
            KeyAction::Enter => self.confirm(),
            KeyAction::Escape => (self.suppress_current_session(), Seq::empty()),
        }
    }

    /// The pending refresh is issued.
    pub open spec fn flush_refresh(self) -> (ControllerModel, Seq<EffectView>) {
        if self.pending_refresh {
            (ControllerModel { pending_refresh: false, ..self }, seq![EffectView::RefreshPaths])
        } else {
            (self, Seq::empty())
        }
    }

    /// The session ends once `DialogUpdate(None)` has been outstanding for the hide grace.
    pub open spec fn expire_pending_none(self, now: u64) -> ControllerModel {
        match self.pending_none_since {
            Some(since) => if elapsed(now, since) >= HIDE_GRACE_NANOS {
                self.end_session()
            } else {
                self
            },
            None => self,
        }
    }

    /// Foreground bookkeeping and whether the overlay should be visible: a target
    /// exists and either it is the foreground window, or it lost the foreground
    /// less than the grace ago.
    pub open spec fn track_foreground(self, env: Env) -> (ControllerModel, bool) {
        match self.target_dialog {
            None => (self, false),
            Some(d) => if env.foreground_hwnd == d.hwnd {
                (ControllerModel { fg_lost_since: None, ..self }, true)
            } else {
                let since = match self.fg_lost_since {
                    Some(s) => s,
                    None => env.now,
                };
                (
                    ControllerModel { fg_lost_since: Some(since), ..self },
                    elapsed(env.now, since) < FG_LOST_GRACE_NANOS,
                )
            },
        }
    }

    /// Visibility converges on `desired`: dock (only when the rectangle changed
    /// or the overlay was hidden) and enable the hook, or disable the hook and park.
    pub open spec fn converge(self, desired: bool) -> (ControllerModel, Seq<EffectView>) {
        if desired && self.target_dialog is Some {
            let g = dock_rect(self.target_dialog->0);
            let dock_fx = if !self.visible || self.last_dock != Some(g) {
                seq![EffectView::Dock { x: g.0, y: g.1, width: g.2, height: g.3 }]
            } else {
                Seq::empty()
            };
            let hook_fx = if !self.hook_active {
                seq![EffectView::SetHookActive(true)]
            } else {
                Seq::empty()
            };
            (
                ControllerModel { last_dock: Some(g), hook_active: true, visible: true, ..self },
                dock_fx + hook_fx,
            )
        } else if !desired && self.visible {
            let hook_fx = if self.hook_active {
                seq![EffectView::SetHookActive(false)]
            } else {
                Seq::empty()
            };
            (
                ControllerModel { hook_active: false, visible: false, last_dock: None, ..self },
                hook_fx.push(EffectView::Park),
            )
        } else {
            (self, Seq::empty())
        }
    }

    /// The end of every step: refresh, debounce, foreground tracking, convergence.
    pub open spec fn reconcile(self, env: Env) -> (ControllerModel, Seq<EffectView>) {
        let (m1, fx1) = self.flush_refresh();
        let m2 = m1.expire_pending_none(env.now);
        let (m3, desired) = m2.track_foreground(env);
        let (m4, fx2) = m3.converge(desired);
        (m4, fx1 + fx2)
    }

    /// The dialog below which reconciliation docks the overlay, if it docks.
    pub open spec fn docks_below(self, env: Env) -> Option<DialogInfo> {
        let m2 = self.flush_refresh().0.expire_pending_none(env.now);
        let (m3, desired) = m2.track_foreground(env);
        if desired {
            m3.target_dialog
        } else {
            None
        }
    }

    /// The handler part of a step, before reconciliation.
    pub open spec fn handle(self, env: Env, event: Event) -> (ControllerModel, Seq<EffectView>) {
        match event {
            Event::DialogUpdate(update) => (self.on_dialog_update(update, env.now), Seq::empty()),
            Event::Key(key) => self.on_key(key),
            Event::ItemClicked(index) => (self.select_filtered(index as int), Seq::empty()),
            Event::ItemDoubleClicked(index) => self.select_filtered(index as int).confirm(),
            Event::Tick => (self, Seq::empty()),
        }
    }
}

/// The controller's transition: the handler for the event, then reconciliation.
pub open spec fn step_model(m: ControllerModel, env: Env, event: Event) -> (
    ControllerModel,
    Seq<EffectView>,
) {
    let (m1, fx1) = m.handle(env, event);
    let (m2, fx2) = m1.reconcile(env);
    (m2, fx1 + fx2)
}

/// Events that the controller accepts in state `m` under `env`: when the step
/// docks the overlay below a dialog, that dialog's lower edge (`y + height`)
/// fits in `i32`.
pub open spec fn event_ok(m: ControllerModel, env: Env, event: Event) -> bool {
    match m.handle(env, event).0.docks_below(env) {
        Some(d) => geometry_fits(d),
        None => true,
    }
}

/// The initial state: no dialog, hidden, no paths, empty query.
pub open spec fn initial_model() -> ControllerModel {
    ControllerModel {
        target_dialog: None,
        session_hwnd: None,
        pending_none_since: None,
        fg_lost_since: None,
        user_hidden_hwnd: None,
        visible: false,
        hook_active: false,
        last_dock: None,
        pending_refresh: false,
        paths: Seq::empty(),
        query: Seq::empty(),
        selected: 0,
    }
}

pub struct Controller {
    target_dialog: Option<DialogInfo>,
    session_hwnd: Option<isize>,
    pending_none_since: Option<u64>,
    fg_lost_since: Option<u64>,
    /// The dialog suppressed by ESC, so the same session is not brought back at once.
    user_hidden_hwnd: Option<isize>,
    visible: bool,
    hook_active: bool,
    last_dock: Option<(i32, i32, i32, i32)>,
    /// A new session asks for one `RefreshPaths` in the next reconcile.
    pending_refresh: bool,
    paths: Vec<String>,
    query: String,
    selected: usize,
}

impl View for Controller {
    type V = ControllerModel;

    closed spec fn view(&self) -> ControllerModel {
        ControllerModel {
            target_dialog: self.target_dialog,
            session_hwnd: self.session_hwnd,
            pending_none_since: self.pending_none_since,
            fg_lost_since: self.fg_lost_since,
            user_hidden_hwnd: self.user_hidden_hwnd,
            visible: self.visible,
            hook_active: self.hook_active,
            last_dock: self.last_dock,
            pending_refresh: self.pending_refresh,
            paths: views(self.paths@),
            query: self.query@,
            selected: self.selected as int,
        }
    }
}

proof fn lemma_push_effect(fx: Seq<Effect>, e: Effect)
    ensures
        effect_views(fx.push(e)) == effect_views(fx).push(e@),
{
    assert(effect_views(fx.push(e)) =~= effect_views(fx).push(e@));
}

proof fn lemma_filter_empty(query: Seq<char>)
    ensures
        filter_paths(Seq::empty(), query).len() == 0,
{
    reveal_with_fuel(Seq::filter, 1);
}

fn push_effect(fx: &mut Vec<Effect>, e: Effect)
    ensures
        effect_views(final(fx)@) == effect_views(old(fx)@).push(e@),
{
    let ghost before = fx@;
    fx.push(e);
    proof {
        lemma_push_effect(before, e);
    }
}

/// The docking rectangle for a dialog: directly below it, same x and width,
/// height 140 logical pixels scaled by the dialog's DPI.
pub fn dock_geometry(dialog: &DialogInfo) -> (r: (i32, i32, i32, i32))
    requires
        geometry_fits(*dialog),
    ensures
        r == dock_rect(*dialog),
{
    let product: u64 = (OVERLAY_HEIGHT_LOGICAL as u64) * (dialog.dpi as u64);
    let saturated: u32 = if product > 0xffff_ffff {
        0xffff_ffff
    } else {
        product as u32
    };
    let scaled: u32 = saturated / 96;
    let height: i32 = if scaled <= 0x7fff_ffff {
        scaled as i32
    } else {
        OVERLAY_HEIGHT_LOGICAL as i32
    };
    assert(scaled <= 0x7fff_ffff) by {
        assert(scaled <= u32::MAX / 96);
    }
    (dialog.x, dialog.y + dialog.height + OVERLAY_GAP, dialog.width, height)
}

impl Default for Controller {
    fn default() -> (c: Self)
        ensures
            c@ == initial_model(),
            c@.wf(),
    {
        Controller::new()
    }
}

impl Controller {
    /// A fresh controller: no dialog, hidden, no paths, empty query.
    pub fn new() -> (c: Self)
        ensures
            c@ == initial_model(),
            c@.wf(),
    {
        let c = Controller {
            target_dialog: None,
            session_hwnd: None,
            pending_none_since: None,
            fg_lost_since: None,
            user_hidden_hwnd: None,
            visible: false,
            hook_active: false,
            last_dock: None,
            pending_refresh: false,
            paths: Vec::new(),
            query: String::new(),
            selected: 0,
        };
        proof {
            assert(views(c.paths@) =~= Seq::<Seq<char>>::empty());
            lemma_filter_empty(c.query@);
        }
        c
    }

    /// The current search query.
    pub fn query(&self) -> (r: &str)
        ensures
            r@ == self@.query,
    {
        self.query.as_str()
    }

    /// The selected index into the filtered list.
    pub fn selected_index(&self) -> (r: usize)
        ensures
            r == self@.selected,
    {
        self.selected
    }

    /// Whether the overlay is shown (docked).
    pub fn is_visible(&self) -> (r: bool)
        ensures
            r == self@.visible,
    {
        self.visible
    }

    /// A session is in progress (a target dialog, or a pending hide): the host
    /// should keep sending heartbeats to advance the timers.
    pub fn needs_tick(&self) -> (r: bool)
        ensures
            r == (self@.target_dialog is Some || self@.pending_none_since is Some),
    {
        self.target_dialog.is_some() || self.pending_none_since.is_some()
    }

    /// The paths that the query keeps, compared case-insensitively, in order.
    pub fn filtered_paths(&self) -> (r: Vec<String>)
        ensures
            views(r@) == self@.filtered(),
    {
        filtered_paths(self.paths.as_slice(), self.query.as_str())
    }

    /// Replaces the path list (after `RefreshPaths`) and clamps the selection.
    pub fn set_paths(&mut self, paths: Vec<String>)
        requires
            old(self)@.wf(),
        ensures
            final(self)@ == (ControllerModel { paths: views(paths@), ..old(self)@ }).clamp_selection(),
            final(self)@.wf(),
    {
        self.paths = paths;
        self.clamp_selection();
    }

    /// Whether `step` accepts `event` now under `env`: when the step docks the
    /// overlay below a dialog, that dialog's lower edge (`y + height`) must fit
    /// in `i32`.
    pub fn accepts(&self, env: Env, event: Event) -> (r: bool)
        ensures
            r == event_ok(self@, env, event),
    {
        let (target, pending, fg_lost) = match event {
            Event::DialogUpdate(Some(info)) => {
                if self.user_hidden_hwnd == Some(info.hwnd) {
                    (None, None, self.fg_lost_since)
                } else {
                    (Some(info), None, self.fg_lost_since)
                }
            },
            Event::DialogUpdate(None) => {
                let pending = match self.pending_none_since {
                    Some(since) => Some(since),
                    None => Some(env.now),
                };
                (self.target_dialog, pending, self.fg_lost_since)
            },
            Event::Key(KeyAction::Escape) => (None, None, None),
            _ => (self.target_dialog, self.pending_none_since, self.fg_lost_since),
        };
        let target = match pending {
            Some(since) => {
                let waited = if env.now >= since { env.now - since } else { 0 };
                if waited >= HIDE_GRACE_NANOS {
                    None
                } else {
                    target
                }
            },
            None => target,
        };
        match target {
            None => true,
            Some(d) => {
                let desired = if env.foreground_hwnd == d.hwnd {
                    true
                } else {
                    let since = match fg_lost {
                        Some(s) => s,
                        None => env.now,
                    };
                    let waited = if env.now >= since { env.now - since } else { 0 };
                    waited < FG_LOST_GRACE_NANOS
                };
                if desired {
                    let bottom: i64 = (d.y as i64) + (d.height as i64);
                    -0x8000_0000i64 <= bottom && bottom <= 0x7fff_ffffi64
                } else {
                    true
                }
            },
        }
    }

    /// Feeds one event; returns the effects for the host, in order.
    pub fn step(&mut self, env: Env, event: Event) -> (fx: Vec<Effect>)
        requires
            old(self)@.wf(),
            event_ok(old(self)@, env, event),
        ensures
            (final(self)@, effect_views(fx@)) == step_model(old(self)@, env, event),
            final(self)@.wf(),
    {
        let mut fx: Vec<Effect> = Vec::new();
        proof {
            assert(effect_views(fx@) =~= Seq::<EffectView>::empty());
        }
        match event {
            Event::DialogUpdate(update) => self.on_dialog_update(update, &env),
            Event::Key(key) => self.on_key(key, &mut fx),
            Event::ItemClicked(index) => self.select_filtered(index),
            Event::ItemDoubleClicked(index) => {
                self.select_filtered(index);
                self.confirm(&mut fx);
            },
            Event::Tick => {},
        }
        self.reconcile(&env, &mut fx);
        fx
    }

    fn on_dialog_update(&mut self, update: Option<DialogInfo>, env: &Env)
        requires
            old(self)@.consistent(),
        ensures
            final(self)@ == old(self)@.on_dialog_update(update, env.now),
            final(self)@.consistent(),
    {
        match update {
            Some(info) => {
                if self.user_hidden_hwnd == Some(info.hwnd) {
                    self.target_dialog = None;
                    self.pending_none_since = None;
                    return;
                }
                if self.user_hidden_hwnd.is_some() {
                    self.user_hidden_hwnd = None;
                }
                self.target_dialog = Some(info);
                self.pending_none_since = None;
                if self.session_hwnd != Some(info.hwnd) {
                    self.session_hwnd = Some(info.hwnd);
                    self.query = String::new();
                    self.selected = 0;
                    self.pending_refresh = true;
                }
            },
            None => {
                if self.pending_none_since.is_none() {
                    self.pending_none_since = Some(env.now);
                }
            },
        }
    }

    fn on_key(&mut self, key: KeyAction, fx: &mut Vec<Effect>)
        requires
            old(self)@.consistent(),
        ensures
            (final(self)@, effect_views(final(fx)@)) == ({
                let (m, e) = old(self)@.on_key(key);
                (m, effect_views(old(fx)@) + e)
            }),
            final(self)@.consistent(),
    {
        proof {
            assert(effect_views(fx@) + Seq::<EffectView>::empty() =~= effect_views(fx@));
        }
        match key {
            KeyAction::Char(c) => {
                push_char(&mut self.query, c);
                self.clamp_selection();
            },
            KeyAction::Backspace => {
                let _ = pop_char(&mut self.query);
                self.clamp_selection();
            },
            KeyAction::Up => self.move_selection(true, false),
            KeyAction::Down => self.move_selection(false, true),
            KeyAction::Enter => self.confirm(fx),
            KeyAction::Escape => self.suppress_current_session(),
        }
    }

    /// Confirm: turn the hook gate off first (so that no key is swallowed during
    /// the synchronous injection), then inject the selected path. The overlay stays
    /// docked; the same step's reconcile turns the hook back on.
    fn confirm(&mut self, fx: &mut Vec<Effect>)
        requires
            old(self)@.consistent(),
        ensures
            (final(self)@, effect_views(final(fx)@)) == ({
                let (m, e) = old(self)@.confirm();
                (m, effect_views(old(fx)@) + e)
            }),
            final(self)@.consistent(),
    {
        let dialog = match self.target_dialog {
            Some(d) => d,
            None => {
                assert(effect_views(fx@) + Seq::<EffectView>::empty() =~= effect_views(fx@));
                return;
            },
        };
        let path = match self.selected_path() {
            Some(p) => p,
            None => {
                assert(effect_views(fx@) + Seq::<EffectView>::empty() =~= effect_views(fx@));
                return;
            },
        };
        let ghost start = effect_views(fx@);
        let ghost inject = EffectView::Inject { hwnd: dialog.hwnd, path: path@ };
        if self.hook_active {
            push_effect(fx, Effect::SetHookActive(false));
            self.hook_active = false;
            push_effect(fx, Effect::Inject { hwnd: dialog.hwnd, path });
            assert(effect_views(fx@) =~= start + seq![EffectView::SetHookActive(false), inject]);
        } else {
            push_effect(fx, Effect::Inject { hwnd: dialog.hwnd, path });
            assert(effect_views(fx@) =~= start + seq![inject]);
        }
    }

    /// ESC: suppress the current dialog's session and hide the overlay.
    fn suppress_current_session(&mut self)
        requires
            old(self)@.consistent(),
        ensures
            final(self)@ == old(self)@.suppress_current_session(),
            final(self)@.consistent(),
    {
        self.user_hidden_hwnd = match self.target_dialog {
            Some(d) => Some(d.hwnd),
            None => None,
        };
        self.target_dialog = None;
        self.session_hwnd = None;
        self.pending_none_since = None;
        self.fg_lost_since = None;
        self.query = String::new();
        self.selected = 0;
        proof {
            let f = final(self)@.filtered();
            assert(selection_in_range(0int, f.len() as int));
        }
    }

    /// The session is over (the dialog is gone past the debounce): clear
    /// everything and release the suppression.
    fn end_session(&mut self)
        ensures
            final(self)@ == old(self)@.end_session(),
    {
        self.target_dialog = None;
        self.session_hwnd = None;
        self.pending_none_since = None;
        self.fg_lost_since = None;
        self.user_hidden_hwnd = None;
        self.query = String::new();
        self.selected = 0;
    }

    fn reconcile(&mut self, env: &Env, fx: &mut Vec<Effect>)
        requires
            old(self)@.consistent(),
            old(self)@.docks_below(*env) matches Some(d) ==> geometry_fits(d),
        ensures
            (final(self)@, effect_views(final(fx)@)) == ({
                let (m, e) = old(self)@.reconcile(*env);
                (m, effect_views(old(fx)@) + e)
            }),
            final(self)@.wf(),
    {
        let ghost start = effect_views(fx@);
        let ghost m0 = self@;
        // A new session asked for one refresh of the path list.
        if self.pending_refresh {
            self.pending_refresh = false;
            push_effect(fx, Effect::RefreshPaths);
        }
        let ghost (m1, fx1) = m0.flush_refresh();
        assert(self@ == m1);
        assert(effect_views(fx@) =~= start + fx1);
        // Advance the `DialogUpdate(None)` debounce.
        if let Some(since) = self.pending_none_since {
            let waited = if env.now >= since { env.now - since } else { 0 };
            if waited >= HIDE_GRACE_NANOS {
                self.end_session();
            }
        }
        let ghost m2 = m1.expire_pending_none(env.now);
        assert(self@ == m2);
        // Desired visibility: a target exists and it is in the foreground, or it
        // lost the foreground less than the grace ago.
        let desired_visible = match self.target_dialog {
            None => false,
            Some(dialog) => {
                if env.foreground_hwnd == dialog.hwnd {
                    self.fg_lost_since = None;
                    true
                } else {
                    let since = match self.fg_lost_since {
                        Some(s) => s,
                        None => env.now,
                    };
                    self.fg_lost_since = Some(since);
                    let waited = if env.now >= since { env.now - since } else { 0 };
                    waited < FG_LOST_GRACE_NANOS
                }
            },
        };
        let ghost (m3, desired) = m2.track_foreground(*env);
        assert(self@ == m3 && desired_visible == desired);
        let ghost mid = effect_views(fx@);
        if desired_visible {
            if let Some(dialog) = self.target_dialog {
                let geom = dock_geometry(&dialog);
                if !self.visible || self.last_dock != Some(geom) {
                    push_effect(
                        fx,
                        Effect::Dock { x: geom.0, y: geom.1, width: geom.2, height: geom.3 },
                    );
                    self.last_dock = Some(geom);
                }
                if !self.hook_active {
                    push_effect(fx, Effect::SetHookActive(true));
                    self.hook_active = true;
                }
                self.visible = true;
            }
        } else if self.visible {
            if self.hook_active {
                push_effect(fx, Effect::SetHookActive(false));
                self.hook_active = false;
            }
            push_effect(fx, Effect::Park);
            self.visible = false;
            self.last_dock = None;
        }
        let ghost (m4, fx2) = m3.converge(desired);
        assert(effect_views(fx@) =~= mid + fx2);
        assert(self@ == m4);
        assert(effect_views(fx@) =~= start + (fx1 + fx2));
    }

    /// The selected path of the filtered list, if the selection points into it.
    fn selected_path(&self) -> (r: Option<String>)
        ensures
            match r {
                Some(p) => self@.selected_path() == Some(p@),
                None => self@.selected_path() is None,
            },
    {
        let filtered = self.filtered_paths();
        if self.selected < filtered.len() {
            Some(filtered[self.selected].clone())
        } else {
            None
        }
    }

    /// The number of paths that the query keeps.
    fn filtered_len(&self) -> (r: usize)
        ensures
            r == self@.filtered().len(),
    {
        matching_path_count(self.paths.as_slice(), self.query.as_str())
    }

    fn clamp_selection(&mut self)
        ensures
            final(self)@ == old(self)@.clamp_selection(),
            selection_in_range(final(self)@.selected, final(self)@.filtered().len() as int),
    {
        let len = self.filtered_len();
        self.selected = if len == 0 {
            0
        } else if self.selected < len - 1 {
            self.selected
        } else {
            len - 1
        };
    }

    fn move_selection(&mut self, up: bool, down: bool)
        ensures
            final(self)@ == old(self)@.move_selection(up, down),
            selection_in_range(final(self)@.selected, final(self)@.filtered().len() as int),
    {
        let len = self.filtered_len();
        self.clamp_selection();
        if up {
            self.selected = if self.selected > 0 { self.selected - 1 } else { 0 };
        }
        if down && len > 0 {
            self.selected = if self.selected + 1 < len - 1 { self.selected + 1 } else { len - 1 };
        }
    }

    fn select_filtered(&mut self, index: usize)
        ensures
            final(self)@ == old(self)@.select_filtered(index as int),
            selection_in_range(final(self)@.selected, final(self)@.filtered().len() as int),
    {
        let len = self.filtered_len();
        if len == 0 {
            self.selected = 0;
        } else {
            self.selected = if index < len - 1 { index } else { len - 1 };
        }
    }
}

} // verus!
