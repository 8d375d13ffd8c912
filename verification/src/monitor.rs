//! File dialog detection: which windows count as file dialogs, their geometry,
//! and the tracker that decides what the monitor reports on each poll.

use vstd::prelude::*;
use crate::text::{chars_equal, chars_of, contains_chars, is_substring, lowercase, lowered_chars};
pub use crate::types::DialogInfo;

verus! {

/// Poll interval while no dialog is followed, in milliseconds.
pub const IDLE_POLL_INTERVAL_MS: u64 = 30;

/// Poll interval while a dialog is followed, in milliseconds.
pub const TRACKING_POLL_INTERVAL_MS: u64 = 8;

/// Consecutive polls without any dialog before the followed dialog counts as lost.
pub const LOST_CONFIRM_TICKS: u8 = 3;

/// The window class of common dialogs, `#32770`.
pub open spec fn dialog_class() -> Seq<char> {
    seq!['#', '3', '2', '7', '7', '0']
}

/// Whether a window class is the common dialog class `#32770`.
pub fn is_dialog_class(class_name: &str) -> (r: bool)
    ensures
        r == (class_name@ == dialog_class()),
{
    let c = chars_of(class_name);
    let expected: [char; 6] = ['#', '3', '2', '7', '7', '0'];
    assert(expected@ =~= dialog_class());
    chars_equal(c.as_slice(), &expected)
}

/// A title that reads like a file dialog's: it holds 打开, 保存, 另存为 or 选择,
/// or, ignoring case, open, save or select.
pub open spec fn title_looks_like_file_dialog(title: Seq<char>) -> bool {
    let lower = lowercase(title);
    ||| is_substring(seq!['\u{6253}', '\u{5f00}'], title)
    ||| is_substring(seq!['\u{4fdd}', '\u{5b58}'], title)
    ||| is_substring(seq!['\u{53e6}', '\u{5b58}', '\u{4e3a}'], title)
    ||| is_substring(seq!['\u{9009}', '\u{62e9}'], title)
    ||| is_substring(seq!['o', 'p', 'e', 'n'], lower)
    ||| is_substring(seq!['s', 'a', 'v', 'e'], lower)
    ||| is_substring(seq!['s', 'e', 'l', 'e', 'c', 't'], lower)
}

/// A `#32770` window is taken for a file dialog when its children show a file
/// browser surface (a combo box with a DirectUI/shell/DUI view, or DirectUI with
/// a shell or DUI view), or when its title reads like a file dialog's and it has
/// at least one of those children. Generic message boxes have neither.
pub open spec fn file_dialog_signature(
    title: Seq<char>,
    has_combo: bool,
    has_directui: bool,
    has_shell_view: bool,
    has_dui_view: bool,
) -> bool {
    let strong = (has_combo && (has_directui || has_shell_view || has_dui_view)) || (has_directui
        && has_shell_view) || (has_directui && has_dui_view);
    strong || (title_looks_like_file_dialog(title) && (has_combo || has_directui || has_shell_view
        || has_dui_view))
}

fn title_looks_like_file_dialog_exec(title: &str) -> (r: bool)
    ensures
        r == title_looks_like_file_dialog(title@),
{
    let t = chars_of(title);
    let lower = lowered_chars(title);
    let open_zh: [char; 2] = ['\u{6253}', '\u{5f00}'];
    let save_zh: [char; 2] = ['\u{4fdd}', '\u{5b58}'];
    let save_as_zh: [char; 3] = ['\u{53e6}', '\u{5b58}', '\u{4e3a}'];
    let select_zh: [char; 2] = ['\u{9009}', '\u{62e9}'];
    let open_en: [char; 4] = ['o', 'p', 'e', 'n'];
    let save_en: [char; 4] = ['s', 'a', 'v', 'e'];
    let select_en: [char; 6] = ['s', 'e', 'l', 'e', 'c', 't'];
    assert(open_zh@ =~= seq!['\u{6253}', '\u{5f00}']);
    assert(save_zh@ =~= seq!['\u{4fdd}', '\u{5b58}']);
    assert(save_as_zh@ =~= seq!['\u{53e6}', '\u{5b58}', '\u{4e3a}']);
    assert(select_zh@ =~= seq!['\u{9009}', '\u{62e9}']);
    assert(open_en@ =~= seq!['o', 'p', 'e', 'n']);
    assert(save_en@ =~= seq!['s', 'a', 'v', 'e']);
    assert(select_en@ =~= seq!['s', 'e', 'l', 'e', 'c', 't']);
    contains_chars(t.as_slice(), &open_zh) || contains_chars(t.as_slice(), &save_zh)
        || contains_chars(t.as_slice(), &save_as_zh) || contains_chars(t.as_slice(), &select_zh)
        || contains_chars(lower.as_slice(), &open_en) || contains_chars(lower.as_slice(), &save_en)
        || contains_chars(lower.as_slice(), &select_en)
}

/// Whether a `#32770` window with this title and these child classes is a file dialog.
pub fn has_file_dialog_signature(
    title: &str,
    has_combo: bool,
    has_directui: bool,
    has_shell_view: bool,
    has_dui_view: bool,
) -> (r: bool)
    ensures
        r == file_dialog_signature(title@, has_combo, has_directui, has_shell_view, has_dui_view),
{
    let title_looks = title_looks_like_file_dialog_exec(title);
    let has_strong_structure = (has_combo && (has_directui || has_shell_view || has_dui_view))
        || (has_directui && has_shell_view) || (has_directui && has_dui_view);
    has_strong_structure || (title_looks && (has_combo || has_directui || has_shell_view
        || has_dui_view))
}

/// The DPI of a window: the reported value, or 96 when the system reports 0.
pub fn effective_dpi(reported: u32) -> (r: u32)
    ensures
        r == (if reported == 0 { 96 } else { reported }),
{
    if reported == 0 {
        96
    } else {
        reported
    }
}

/// A dialog's geometry from its bounding rectangle.
pub fn dialog_info_from_rect(hwnd: isize, left: i32, top: i32, right: i32, bottom: i32, dpi: u32) -> (r:
    DialogInfo)
    requires
        i32::MIN <= right - left <= i32::MAX,
        i32::MIN <= bottom - top <= i32::MAX,
    ensures
        r == (DialogInfo { hwnd, x: left, y: top, width: (right - left) as i32, height: (bottom - top) as i32, dpi }),
{
    DialogInfo { hwnd, x: left, y: top, width: right - left, height: bottom - top, dpi }
}

/// What the monitor loop does next in one poll.
#[derive(Debug, Clone, Copy, PartialEq, Eq)]
pub enum TrackerAction {
    /// Send this report to the controller (and request a repaint).
    Report(Option<DialogInfo>),
    /// Look up the followed dialog by its handle, then call `observe_by_handle`.
    ProbeByHandle(isize),
    /// Search all top-level windows for a file dialog, then call `observe_any`.
    ProbeAny,
    /// Nothing to report in this poll.
    Wait,
}

/// The abstract state of the tracker: the followed dialog handle (0 = none) and
/// the number of consecutive polls that found no dialog.
pub struct TrackerModel {
    pub last_hwnd: isize,
    pub lost_ticks: int,
}

impl TrackerModel {
    /// The tracker's invariant: the lost count stays below the confirmation count.
    pub open spec fn wf(self) -> bool {
        0 <= self.lost_ticks < LOST_CONFIRM_TICKS
    }

    /// The foreground dialog (if any) was observed.
    pub open spec fn observe_active(self, current: Option<DialogInfo>) -> (TrackerModel, TrackerAction) {
        match current {
            Some(info) => (
                TrackerModel { last_hwnd: info.hwnd, lost_ticks: 0 },
                TrackerAction::Report(Some(info)),
            ),
            None => if self.last_hwnd != 0 {
                (self, TrackerAction::ProbeByHandle(self.last_hwnd))
            } else {
                (self, TrackerAction::Wait)
            },
        }
    }

    /// The followed dialog was looked up by its handle.
    pub open spec fn observe_by_handle(self, found: Option<DialogInfo>) -> (TrackerModel, TrackerAction) {
        match found {
            Some(info) => (TrackerModel { lost_ticks: 0, ..self }, TrackerAction::Report(Some(info))),
            None => (self, TrackerAction::ProbeAny),
        }
    }

    /// All windows were searched for a file dialog.
    pub open spec fn observe_any(self, found: Option<DialogInfo>) -> (TrackerModel, TrackerAction) {
        match found {
            Some(info) => (
                TrackerModel { last_hwnd: info.hwnd, lost_ticks: 0 },
                TrackerAction::Report(Some(info)),
            ),
            None => if self.lost_ticks + 1 >= LOST_CONFIRM_TICKS {
                (TrackerModel { last_hwnd: 0, lost_ticks: 0 }, TrackerAction::Report(None))
            } else {
                (TrackerModel { lost_ticks: self.lost_ticks + 1, ..self }, TrackerAction::Wait)
            },
        }
    }

    /// One whole poll, given what each probe would find (a probe that the
    /// tracker does not ask for is not consulted); returns the report sent, if any.
    pub open spec fn poll(
        self,
        active: Option<DialogInfo>,
        by_handle: Option<DialogInfo>,
        any: Option<DialogInfo>,
    ) -> (TrackerModel, Option<Option<DialogInfo>>) {
        let (s1, a1) = self.observe_active(active);
        let (s2, a2) = match a1 {
            TrackerAction::ProbeByHandle(_) => s1.observe_by_handle(by_handle),
            _ => (s1, a1),
        };
        let (s3, a3) = match a2 {
            TrackerAction::ProbeAny => s2.observe_any(any),
            _ => (s2, a2),
        };
        match a3 {
            TrackerAction::Report(r) => (s3, Some(r)),
            _ => (s3, None),
        }
    }
}

/// The monitor's decisions: which dialog it follows and when a lost dialog is
/// reported. New dialogs are taken only from the foreground; a followed dialog is
/// followed by its handle, then by a search of all windows (dialog handles are
/// recreated in open/save transitions), and is reported lost only after
/// [`LOST_CONFIRM_TICKS`] consecutive polls find nothing.
pub struct DialogTracker {
    last_hwnd: isize,
    lost_ticks: u8,
}

impl View for DialogTracker {
    type V = TrackerModel;

    closed spec fn view(&self) -> TrackerModel {
        TrackerModel { last_hwnd: self.last_hwnd, lost_ticks: self.lost_ticks as int }
    }
}

impl DialogTracker {
    /// A tracker that follows no dialog.
    pub fn new() -> (t: Self)
        ensures
            t@ == (TrackerModel { last_hwnd: 0, lost_ticks: 0 }),
            t@.wf(),
    {
        DialogTracker { last_hwnd: 0, lost_ticks: 0 }
    }

    /// The handle of the followed dialog (0 when none).
    pub fn tracked_hwnd(&self) -> (r: isize)
        ensures
            r == self@.last_hwnd,
    {
        self.last_hwnd
    }

    /// Poll faster while a dialog is followed.
    pub fn poll_interval_ms(&self) -> (r: u64)
        ensures
            r == (if self@.last_hwnd != 0 { TRACKING_POLL_INTERVAL_MS } else { IDLE_POLL_INTERVAL_MS }),
    {
        if self.last_hwnd != 0 {
            TRACKING_POLL_INTERVAL_MS
        } else {
            IDLE_POLL_INTERVAL_MS
        }
    }

    /// First step of a poll: the file dialog in the foreground, if any.
    pub fn observe_active(&mut self, current: Option<DialogInfo>) -> (action: TrackerAction)
        requires
            old(self)@.wf(),
        ensures
            (final(self)@, action) == old(self)@.observe_active(current),
            final(self)@.wf(),
    {
        match current {
            Some(info) => {
                self.lost_ticks = 0;
                self.last_hwnd = info.hwnd;
                TrackerAction::Report(Some(info))
            },
            None => {
                if self.last_hwnd != 0 {
                    TrackerAction::ProbeByHandle(self.last_hwnd)
                } else {
                    TrackerAction::Wait
                }
            },
        }
    }

    /// After `ProbeByHandle`: the followed dialog looked up by its handle.
    pub fn observe_by_handle(&mut self, found: Option<DialogInfo>) -> (action: TrackerAction)
        requires
            old(self)@.wf(),
        ensures
            (final(self)@, action) == old(self)@.observe_by_handle(found),
            final(self)@.wf(),
    {
        match found {
            Some(info) => {
                self.lost_ticks = 0;
                TrackerAction::Report(Some(info))
            },
            None => TrackerAction::ProbeAny,
        }
    }

    /// After `ProbeAny`: a file dialog found among all windows, if any.
    pub fn observe_any(&mut self, found: Option<DialogInfo>) -> (action: TrackerAction)
        requires
            old(self)@.wf(),
        ensures
            (final(self)@, action) == old(self)@.observe_any(found),
            final(self)@.wf(),
    {
        match found {
            Some(info) => {
                self.last_hwnd = info.hwnd;
                self.lost_ticks = 0;
                TrackerAction::Report(Some(info))
            },
            None => {
                self.lost_ticks = self.lost_ticks + 1;
                if self.lost_ticks >= LOST_CONFIRM_TICKS {
                    self.last_hwnd = 0;
                    self.lost_ticks = 0;
                    TrackerAction::Report(None)
                } else {
                    TrackerAction::Wait
                }
            },
        }
    }
}

/// A followed dialog is reported lost only after three consecutive polls in
/// which no probe finds a dialog: the first two polls report nothing, the third
/// reports `None` and the tracker follows nothing afterwards.
pub proof fn lemma_lost_only_after_confirmation(s: TrackerModel)
    requires
        s.wf(),
        s.last_hwnd != 0,
        s.lost_ticks == 0,
    ensures
        ({
            let (s1, r1) = s.poll(None, None, None);
            let (s2, r2) = s1.poll(None, None, None);
            let (s3, r3) = s2.poll(None, None, None);
            &&& r1 is None && r2 is None
            &&& r3 == Some(None::<DialogInfo>)
            &&& s3.last_hwnd == 0 && s3.wf()
        }),
{
}

/// Any poll that finds a dialog reports it and restarts the lost count; a poll
/// keeps the invariant.
pub proof fn lemma_found_dialog_resets(
    s: TrackerModel,
    active: Option<DialogInfo>,
    by_handle: Option<DialogInfo>,
    any: Option<DialogInfo>,
)
    requires
        s.wf(),
    ensures
        s.poll(active, by_handle, any).0.wf(),
        active matches Some(info) ==> s.poll(active, by_handle, any) == (
            TrackerModel { last_hwnd: info.hwnd, lost_ticks: 0 },
            Some(Some(info)),
        ),
        s.poll(active, by_handle, any).1 matches Some(Some(_)) ==> s.poll(
            active,
            by_handle,
            any,
        ).0.lost_ticks == 0,
        s.last_hwnd == 0 && active is None ==> s.poll(active, by_handle, any) == (s, None::<
            Option<DialogInfo>,
        >),
{
}

/// What the three probes of one poll would find: the foreground file dialog,
/// the followed dialog looked up by its handle, and a search of all windows.
pub type PollInputs = (Option<DialogInfo>, Option<DialogInfo>, Option<DialogInfo>);

/// No probe of the poll finds a dialog.
pub open spec fn finds_nothing(p: PollInputs) -> bool {
    p.0 is None && p.1 is None && p.2 is None
}

/// The tracker after the first `n` polls of a run from `s`.
pub open spec fn state_after(s: TrackerModel, polls: Seq<PollInputs>, n: nat) -> TrackerModel
    decreases n,
{
    if n == 0 || n > polls.len() {
        s
    } else {
        let p = polls[n - 1];
        state_after(s, polls, (n - 1) as nat).poll(p.0, p.1, p.2).0
    }
}

/// The report sent by poll `k` of a run from `s` (`None` when it sends none).
pub open spec fn report_at(s: TrackerModel, polls: Seq<PollInputs>, k: int) -> Option<
    Option<DialogInfo>,
> {
    let p = polls[k];
    state_after(s, polls, k as nat).poll(p.0, p.1, p.2).1
}

/// The tracker of a new monitor.
pub open spec fn new_tracker() -> TrackerModel {
    TrackerModel { last_hwnd: 0, lost_ticks: 0 }
}

proof fn lemma_run_invariant(polls: Seq<PollInputs>, n: nat)
    requires
        n <= polls.len(),
    ensures
        ({
            let s = state_after(new_tracker(), polls, n);
            &&& s.wf()
            &&& s.lost_ticks <= n
            &&& forall|j: int| n - s.lost_ticks <= j < n ==> finds_nothing(#[trigger] polls[j])
            &&& s.last_hwnd == 0 ==> s.lost_ticks == 0
        }),
    decreases n,
{
    if n > 0 {
        lemma_run_invariant(polls, (n - 1) as nat);
        let s = state_after(new_tracker(), polls, (n - 1) as nat);
        let p = polls[n - 1];
        assert(state_after(new_tracker(), polls, n) == s.poll(p.0, p.1, p.2).0);
    }
}

/// Over any run of polls of a new monitor, with each poll's probe results taken
/// as inputs: a lost dialog (`None`) is reported only by a poll that followed a
/// dialog and whose two previous polls also found nothing with any probe, after
/// which no dialog is followed; while no dialog is followed, a poll whose
/// foreground probe finds nothing reports nothing and changes nothing (only the
/// foreground can start following a dialog); and a dialog found by any probe is
/// reported.
pub proof fn lemma_monitor_run(polls: Seq<PollInputs>, k: int)
    requires
        0 <= k < polls.len(),
    ensures
        ({
            let s = state_after(new_tracker(), polls, k as nat);
            let p = polls[k];
            let next = state_after(new_tracker(), polls, (k + 1) as nat);
            &&& report_at(new_tracker(), polls, k) == Some(None::<DialogInfo>) ==> {
                &&& s.last_hwnd != 0
                &&& k >= 2
                &&& finds_nothing(polls[k - 2]) && finds_nothing(polls[k - 1]) && finds_nothing(p)
                &&& next.last_hwnd == 0
            }
            &&& s.last_hwnd == 0 && p.0 is None ==> report_at(new_tracker(), polls, k) is None
                && next == s
            &&& p.0 matches Some(info) ==> report_at(new_tracker(), polls, k) == Some(Some(info))
                && next.last_hwnd == info.hwnd
            &&& s.last_hwnd != 0 && (p.1 is Some || p.2 is Some) ==> report_at(
                new_tracker(),
                polls,
                k,
            ) is Some && report_at(new_tracker(), polls, k)->0 is Some
        }),
{
    lemma_run_invariant(polls, k as nat);
    let s = state_after(new_tracker(), polls, k as nat);
    let p = polls[k];
    assert(state_after(new_tracker(), polls, (k + 1) as nat) == s.poll(p.0, p.1, p.2).0);
}

/// Between two reports of a lost dialog, some poll reports a found one: a lost
/// dialog is reported once, and then only after a dialog was followed again.
pub proof fn lemma_lost_reported_once(polls: Seq<PollInputs>, k1: int, k2: int)
    requires
        0 <= k1 < k2 < polls.len(),
        report_at(new_tracker(), polls, k1) == Some(None::<DialogInfo>),
        report_at(new_tracker(), polls, k2) == Some(None::<DialogInfo>),
    ensures
        exists|j: int| k1 < j < k2 && (#[trigger] report_at(new_tracker(), polls, j)) matches Some(
            Some(_),
        ),
{
    if !(exists|j: int| k1 < j < k2 && (#[trigger] report_at(new_tracker(), polls, j)) matches Some(
        Some(_),
    )) {
        lemma_monitor_run(polls, k1);
        lemma_untracked_until_found(polls, k1 + 1, k2);
        lemma_monitor_run(polls, k2);
    }
}

proof fn lemma_untracked_until_found(polls: Seq<PollInputs>, from: int, to: int)
    requires
        0 < from <= to <= polls.len(),
        state_after(new_tracker(), polls, from as nat).last_hwnd == 0,
        forall|j: int| from <= j < to ==> !((#[trigger] report_at(new_tracker(), polls, j)) matches Some(
            Some(_),
        )),
    ensures
        state_after(new_tracker(), polls, to as nat).last_hwnd == 0,
    decreases to - from,
{
    if from < to {
        let s = state_after(new_tracker(), polls, from as nat);
        let p = polls[from];
        assert(state_after(new_tracker(), polls, (from + 1) as nat) == s.poll(p.0, p.1, p.2).0);
        assert(!(report_at(new_tracker(), polls, from) matches Some(Some(_))));
        lemma_untracked_until_found(polls, from + 1, to);
    }
}

/// A `#32770` window with at least one file-browser child is taken for a file
/// dialog when its title holds 打开, 保存, 另存为 or 选择, or, ignoring case, "open",
/// "save" or "select"; a combo box with a DirectUI, shell or DUI view, or
/// DirectUI with a shell or DUI view, is enough whatever the title; a window
/// with none of those children never is.
pub proof fn lemma_file_dialog_signature(
    title: Seq<char>,
    has_combo: bool,
    has_directui: bool,
    has_shell_view: bool,
    has_dui_view: bool,
)
    ensures
        ({
            let lower = lowercase(title);
            let keyword = is_substring(seq!['\u{6253}', '\u{5f00}'], title) || is_substring(
                seq!['\u{4fdd}', '\u{5b58}'],
                title,
            ) || is_substring(seq!['\u{53e6}', '\u{5b58}', '\u{4e3a}'], title) || is_substring(
                seq!['\u{9009}', '\u{62e9}'],
                title,
            ) || is_substring(seq!['o', 'p', 'e', 'n'], lower) || is_substring(
                seq!['s', 'a', 'v', 'e'],
                lower,
            ) || is_substring(seq!['s', 'e', 'l', 'e', 'c', 't'], lower);
            let any_child = has_combo || has_directui || has_shell_view || has_dui_view;
            let strong = (has_combo && (has_directui || has_shell_view || has_dui_view)) || (
            has_directui && (has_shell_view || has_dui_view));
            &&& keyword && any_child ==> file_dialog_signature(
                title,
                has_combo,
                has_directui,
                has_shell_view,
                has_dui_view,
            )
            &&& strong ==> file_dialog_signature(
                title,
                has_combo,
                has_directui,
                has_shell_view,
                has_dui_view,
            )
            &&& !any_child ==> !file_dialog_signature(
                title,
                has_combo,
                has_directui,
                has_shell_view,
                has_dui_view,
            )
            &&& !keyword && !strong ==> !file_dialog_signature(
                title,
                has_combo,
                has_directui,
                has_shell_view,
                has_dui_view,
            )
        }),
{
}

} // verus!
