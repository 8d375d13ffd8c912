//! The overlay's own window: its extended styles, how it answers mouse
//! activation, and the one-time setup of the native window.

use vstd::prelude::*;

verus! {

/// `WS_EX_TOPMOST`.
pub const WS_EX_TOPMOST: isize = 0x0000_0008;
/// `WS_EX_TOOLWINDOW` (no taskbar button).
pub const WS_EX_TOOLWINDOW: isize = 0x0000_0080;
/// `WS_EX_NOACTIVATE` (clicks never activate the window).
pub const WS_EX_NOACTIVATE: isize = 0x0800_0000;
/// The extended styles the overlay must carry.
pub const OVERLAY_EX_STYLES: isize = 0x0800_0088;
/// `WM_MOUSEACTIVATE`.
pub const WM_MOUSEACTIVATE: u32 = 0x0021;
/// `MA_NOACTIVATE`.
pub const MA_NOACTIVATE: isize = 3;
/// Off-screen coordinate used to park the overlay (where minimized windows go).
pub const OFFSCREEN: i32 = -32000;

/// The extended style to write, if any: `None` when `current` already has all
/// overlay styles (nothing is written), else `current` with them added.
pub fn overlay_ex_style(current: isize) -> (r: Option<isize>)
    ensures
        (current & OVERLAY_EX_STYLES) == OVERLAY_EX_STYLES ==> r is None,
        (current & OVERLAY_EX_STYLES) != OVERLAY_EX_STYLES ==> r == Some(current | OVERLAY_EX_STYLES),
        r matches Some(v) ==> (v & OVERLAY_EX_STYLES) == OVERLAY_EX_STYLES && (v & current) == current,
{
    if current & OVERLAY_EX_STYLES == OVERLAY_EX_STYLES {
        None
    } else {
        let v = current | OVERLAY_EX_STYLES;
        assert((v & 0x0800_0088isize) == 0x0800_0088isize && (v & current) == current) by (bit_vector)
            requires
                v == current | 0x0800_0088isize,
        ;
        Some(v)
    }
}

/// The overlay's styles hold the three flags it needs.
pub proof fn lemma_overlay_styles_are_the_three_flags()
    ensures
        OVERLAY_EX_STYLES == WS_EX_NOACTIVATE | WS_EX_TOOLWINDOW | WS_EX_TOPMOST,
{
    assert(0x0800_0088isize == 0x0800_0000isize | 0x0000_0080isize | 0x0000_0008isize) by (bit_vector);
}

/// How the overlay's subclassed window procedure answers a message: mouse
/// activation is refused with `MA_NOACTIVATE`; `None` hands every other message
/// to the default procedure.
pub fn subclass_reply(msg: u32) -> (r: Option<isize>)
    ensures
        msg == WM_MOUSEACTIVATE ==> r == Some(MA_NOACTIVATE),
        msg != WM_MOUSEACTIVATE ==> r is None,
{
    if msg == WM_MOUSEACTIVATE {
        Some(MA_NOACTIVATE)
    } else {
        None
    }
}

/// Whether an extended style read back from the window carries every overlay
/// style.
pub fn has_overlay_styles(style: isize) -> (r: bool)
    ensures
        r == ((style & OVERLAY_EX_STYLES) == OVERLAY_EX_STYLES),
{
    style & OVERLAY_EX_STYLES == OVERLAY_EX_STYLES
}

/// The abstract state of the overlay window: its handle, and whether the
/// one-time setup (subclass and initial park) has been done.
pub struct OverlayWindowModel {
    pub hwnd: isize,
    pub setup_done: bool,
}

/// Whether the one-time subclass and initial park are due after a frame whose
/// style write left the styles in place (`applied`) or not.
pub open spec fn setup_due(m: OverlayWindowModel, applied: bool) -> bool {
    applied && !m.setup_done
}

/// The setup state after a frame's style write.
pub open spec fn after_styling(m: OverlayWindowModel, applied: bool) -> OverlayWindowModel {
    OverlayWindowModel { setup_done: m.setup_done || applied, ..m }
}

/// How many of the frames, whose style writes gave `applied` in turn, did the
/// one-time setup.
pub open spec fn setups(m: OverlayWindowModel, applied: Seq<bool>) -> nat
    decreases applied.len(),
{
    if applied.len() == 0 {
        0
    } else {
        (if setup_due(m, applied[0]) { 1nat } else { 0nat }) + setups(
            after_styling(m, applied[0]),
            applied.drop_first(),
        )
    }
}

/// Over any run of frames, the subclass and initial park happen at most once,
/// and never again once done; the styles themselves are written on each frame.
pub proof fn lemma_setup_at_most_once(m: OverlayWindowModel, applied: Seq<bool>)
    ensures
        setups(m, applied) <= 1,
        m.setup_done ==> setups(m, applied) == 0,
    decreases applied.len(),
{
    if applied.len() > 0 {
        let m1 = after_styling(m, applied[0]);
        lemma_setup_at_most_once(m1, applied.drop_first());
    }
}

/// The overlay's native window handle (0 until known) and whether its
/// subclass and initial park have been done. The extended styles themselves
/// are re-asserted on every frame, since the windowing layer may rewrite them.
pub struct OverlayWindow {
    hwnd: isize,
    setup_done: bool,
}

impl View for OverlayWindow {
    type V = OverlayWindowModel;

    closed spec fn view(&self) -> OverlayWindowModel {
        OverlayWindowModel { hwnd: self.hwnd, setup_done: self.setup_done }
    }
}

impl OverlayWindow {
    /// Setup state for a window handle taken at creation (0 if not known yet).
    pub fn new(hwnd: isize) -> (w: Self)
        ensures
            w@ == (OverlayWindowModel { hwnd, setup_done: false }),
    {
        OverlayWindow { hwnd, setup_done: false }
    }

    /// The overlay's window handle (0 while unknown).
    pub fn hwnd(&self) -> (r: isize)
        ensures
            r == self@.hwnd,
    {
        self.hwnd
    }

    /// Whether the subclass and initial park have been done.
    pub fn setup_done(&self) -> (r: bool)
        ensures
            r == self@.setup_done,
    {
        self.setup_done
    }

    /// Takes the frame's window handle when none is known yet; returns the handle in use.
    pub fn adopt_frame_hwnd(&mut self, frame_hwnd: isize) -> (r: isize)
        ensures
            final(self)@.setup_done == old(self)@.setup_done,
            final(self)@.hwnd == (if old(self)@.hwnd == 0 { frame_hwnd } else { old(self)@.hwnd }),
            r == final(self)@.hwnd,
    {
        if self.hwnd == 0 {
            self.hwnd = frame_hwnd;
        }
        self.hwnd
    }

    /// Records `hwnd` as the overlay's handle and tells whether the styles are
    /// to be asserted on this frame: on every frame with a non-zero handle
    /// (writing them is idempotent), whatever was done before.
    pub fn styling_due(&mut self, hwnd: isize) -> (r: bool)
        ensures
            final(self)@ == (OverlayWindowModel { hwnd, ..old(self)@ }),
            r == (hwnd != 0),
    {
        self.hwnd = hwnd;
        hwnd != 0
    }

    /// Records whether the styles are in place after this frame's write, and
    /// tells whether the one-time subclass and initial park are due now: only
    /// when the styles are in place and that setup has not been done yet.
    pub fn record_styling(&mut self, applied: bool) -> (setup: bool)
        ensures
            setup == setup_due(old(self)@, applied),
            final(self)@ == after_styling(old(self)@, applied),
    {
        let setup = applied && !self.setup_done;
        if applied {
            self.setup_done = true;
        }
        setup
    }
}

} // verus!
