//! The launcher window's state: which panel is active, which entries are
//! selected, when it shows and hides, and which library game an index names.
use vstd::prelude::*;
use crate::gameinput::GamepadEvents;

verus! {

/// The two columns of the launcher.
#[derive(Clone, Copy, Debug, PartialEq, Eq, Structural)]
pub enum Panel {
    Windows,
    Steam,
}

/// The launcher's state apart from the data it shows and the window system.
#[derive(Clone, Copy, Debug, PartialEq, Eq, Structural)]
pub struct LauncherApp {
    pub visible: bool,
    pub initialized: bool,
    pub windowed: bool,
    pub active_panel: Panel,
    pub selected_steam: usize,
    pub selected_window: usize,
    pub scroll_to_steam: bool,
    pub scroll_to_window: bool,
    /// The process suspended when the launcher was shown, resumed on hide.
    pub suspended_pid: Option<u32>,
    pub steam_len: usize,
    pub epic_len: usize,
    pub gog_len: usize,
    pub windows_len: usize,
}

/// How long after showing the launcher the hotkey cannot hide it again.
pub const DEBOUNCE_NANOS: u128 = 500_000_000;

/// A selection lies in its list, or is 0 when the list is empty.
pub open spec fn selection_ok(sel: int, len: int) -> bool {
    if len == 0 {
        sel == 0
    } else {
        0 <= sel < len
    }
}

/// The keys of the keyboard fallback pressed in a frame.
#[derive(Clone, Copy, Debug, PartialEq, Eq, Structural)]
pub struct KeyPresses {
    pub left: bool,
    pub right: bool,
    pub up: bool,
    pub down: bool,
    pub enter: bool,
}

/// What the hotkey does.
#[derive(Clone, Copy, Debug, PartialEq, Eq, Structural)]
pub enum ComboAction {
    Show,
    Hide,
    Nothing,
}

/// A library entry: index into the Steam, Epic or GOG list.
#[derive(Clone, Copy, Debug, PartialEq, Eq, Structural)]
pub enum LibraryEntry {
    Steam(usize),
    Epic(usize),
    Gog(usize),
}

pub open spec fn sat(a: int, b: int) -> int {
    if a >= b {
        a - b
    } else {
        0
    }
}

/// The entry at a library index, following `launch_library_game`: Steam
/// games first, then Epic, then GOG.
pub open spec fn entry_at(idx: int, s: int, e: int, g: int) -> Option<LibraryEntry> {
    if idx < s {
        Some(LibraryEntry::Steam(idx as usize))
    } else if sat(idx, s) < e {
        Some(LibraryEntry::Epic(sat(idx, s) as usize))
    } else if sat(idx, s + e) < g {
        Some(LibraryEntry::Gog(sat(idx, s + e) as usize))
    } else {
        None
    }
}

/// The hotkey was pressed: show a hidden launcher; hide a visible one unless
/// it was shown less than the debounce time ago.
pub open spec fn combo_action(presses: u32, visible: bool, debounce_elapsed: bool) -> ComboAction {
    if presses == 0 {
        ComboAction::Nothing
    } else if !visible {
        ComboAction::Show
    } else if debounce_elapsed {
        ComboAction::Hide
    } else {
        ComboAction::Nothing
    }
}

/// The debounce time has passed since the launcher was shown (always, when
/// it was not shown); `elapsed_nanos` is the time since it was shown.
pub fn debounce_elapsed(elapsed_nanos: Option<u128>) -> (r: bool)
    ensures
        r == match elapsed_nanos {
            Some(n) => n >= DEBOUNCE_NANOS,
            None => true,
        },
{
    match elapsed_nanos {
        Some(n) => n >= DEBOUNCE_NANOS,
        None => true,
    }
}

/// What the hotkey does this frame.
pub fn on_combo(presses: u32, visible: bool, debounce_elapsed: bool) -> (r: ComboAction)
    ensures
        r == combo_action(presses, visible, debounce_elapsed),
{
    if presses == 0 {
        ComboAction::Nothing
    } else if !visible {
        ComboAction::Show
    } else if debounce_elapsed {
        ComboAction::Hide
    } else {
        ComboAction::Nothing
    }
}

/// The launcher after it is shown: visible, remembering the process newly
/// suspended for it (else the one it remembered).
pub open spec fn shown_state(a: LauncherApp, newly_suspended: Option<u32>) -> LauncherApp {
    LauncherApp {
        visible: true,
        suspended_pid: match newly_suspended {
            Some(p) => Some(p),
            None => a.suspended_pid,
        },
        ..a
    }
}

/// The launcher after it is hidden: invisible, remembering no suspended
/// process.
pub open spec fn hidden_state(a: LauncherApp) -> LauncherApp {
    LauncherApp { visible: false, suspended_pid: None, ..a }
}

/// The launcher after a refresh with new list sizes: each selection is
/// clamped to the last entry of its list (0 when the list is empty).
pub open spec fn refresh_state(a: LauncherApp, s: usize, e: usize, g: usize, w: usize) -> LauncherApp {
    let last = sat(s + e + g, 1);
    let lastw = sat(w as int, 1);
    LauncherApp {
        steam_len: s,
        epic_len: e,
        gog_len: g,
        windows_len: w,
        selected_steam: if a.selected_steam > last { last as usize } else { a.selected_steam },
        selected_window: if a.selected_window > lastw { lastw as usize } else { a.selected_window },
        ..a
    }
}

/// The launcher after one up/down move in its active panel, within its
/// list; a move asks the panel to scroll to the selection.
pub open spec fn nav_state(a: LauncherApp, up: bool, down: bool) -> LauncherApp {
    match a.active_panel {
        Panel::Steam => if a.steam_len + a.epic_len + a.gog_len > 0 {
            let len = a.steam_len + a.epic_len + a.gog_len;
            let m1 = up && a.selected_steam > 0;
            let s1: int = if m1 { a.selected_steam - 1 } else { a.selected_steam as int };
            let m2 = down && s1 + 1 < len;
            LauncherApp {
                selected_steam: (if m2 { s1 + 1 } else { s1 }) as usize,
                scroll_to_steam: a.scroll_to_steam || m1 || m2,
                ..a
            }
        } else {
            a
        },
        Panel::Windows => if a.windows_len > 0 {
            let m1 = up && a.selected_window > 0;
            let s1: int = if m1 { a.selected_window - 1 } else { a.selected_window as int };
            let m2 = down && s1 + 1 < a.windows_len;
            LauncherApp {
                selected_window: (if m2 { s1 + 1 } else { s1 }) as usize,
                scroll_to_window: a.scroll_to_window || m1 || m2,
                ..a
            }
        } else {
            a
        },
    }
}

/// The launcher with the panel a left/right press picks (right wins).
pub open spec fn panel_state(a: LauncherApp, left: bool, right: bool) -> LauncherApp {
    LauncherApp {
        active_panel: if right {
            Panel::Steam
        } else if left {
            Panel::Windows
        } else {
            a.active_panel
        },
        ..a
    }
}

/// The launcher after a frame's gamepad presses.
pub open spec fn pad_state(a: LauncherApp, pad: GamepadEvents) -> LauncherApp {
    nav_state(panel_state(a, pad.dpad_left > 0, pad.dpad_right > 0), pad.dpad_up > 0, pad.dpad_down > 0)
}

/// The library index A asks to launch, given the launcher after the presses.
pub open spec fn pad_launch(a: LauncherApp, pad: GamepadEvents) -> Option<usize> {
    if pad.a > 0 && a.active_panel == Panel::Steam {
        Some(a.selected_steam)
    } else {
        None
    }
}

/// The launcher after a frame's arrow keys.
pub open spec fn keys_state(a: LauncherApp, keys: KeyPresses) -> LauncherApp {
    nav_state(panel_state(a, keys.left, keys.right), keys.up, keys.down)
}

/// The library index Enter asks to launch, given the launcher after the keys.
pub open spec fn keys_launch(a: LauncherApp, keys: KeyPresses) -> Option<usize> {
    if keys.enter && a.active_panel == Panel::Steam && a.steam_len + a.epic_len + a.gog_len > 0 {
        Some(a.selected_steam)
    } else {
        None
    }
}

/// The launcher after the mouse selections of a frame; a window resumed
/// explicitly is no longer resumed on hide.
pub open spec fn clicks_state(
    a: LauncherApp,
    switch_panel: Option<Panel>,
    select_steam: Option<usize>,
    select_window: Option<usize>,
    resume_pid: Option<u32>,
) -> LauncherApp {
    LauncherApp {
        active_panel: match switch_panel {
            Some(p) => p,
            None => a.active_panel,
        },
        selected_steam: match select_steam {
            Some(i) => i,
            None => a.selected_steam,
        },
        selected_window: match select_window {
            Some(i) => i,
            None => a.selected_window,
        },
        suspended_pid: if resume_pid is Some && a.suspended_pid == resume_pid {
            None
        } else {
            a.suspended_pid
        },
        ..a
    }
}

/// One step of a frame of the launcher window.
pub enum FrameStep {
    Initialized,
    Refresh(usize, usize, usize, usize),
    Shown(Option<u32>),
    Hidden,
    Restored(bool, bool),
    Pad(GamepadEvents),
    Keys(KeyPresses),
    Clicks(Option<Panel>, Option<usize>, Option<usize>, Option<u32>),
}

/// The step can be taken: list sizes that fit, clicks inside the lists.
pub open spec fn step_ok(a: LauncherApp, st: FrameStep) -> bool {
    match st {
        FrameStep::Refresh(s, e, g, _w) => s + e + g <= usize::MAX,
        FrameStep::Clicks(_p, ss, sw, _r) => (ss matches Some(i) ==> i < a.lib_len()) && (sw matches Some(
            i,
        ) ==> i < a.windows_len),
        _ => true,
    }
}

/// The launcher after a step.
pub open spec fn apply_step(a: LauncherApp, st: FrameStep) -> LauncherApp {
    match st {
        FrameStep::Initialized => LauncherApp { initialized: true, ..a },
        FrameStep::Refresh(s, e, g, w) => refresh_state(a, s, e, g, w),
        FrameStep::Shown(p) => shown_state(a, p),
        FrameStep::Hidden => hidden_state(a),
        FrameStep::Restored(m, h) => if !m && !a.visible && !h {
            LauncherApp { visible: true, ..a }
        } else {
            a
        },
        FrameStep::Pad(pad) => pad_state(a, pad),
        FrameStep::Keys(k) => keys_state(a, k),
        FrameStep::Clicks(p, ss, sw, r) => clicks_state(a, p, ss, sw, r),
    }
}

/// The launcher after a sequence of steps.
pub open spec fn run_steps(a: LauncherApp, steps: Seq<FrameStep>) -> LauncherApp
    decreases steps.len(),
{
    if steps.len() == 0 {
        a
    } else {
        apply_step(run_steps(a, steps.drop_last()), steps.last())
    }
}

/// Every step of the sequence can be taken when its turn comes.
pub open spec fn steps_ok(a: LauncherApp, steps: Seq<FrameStep>) -> bool
    decreases steps.len(),
{
    if steps.len() == 0 {
        true
    } else {
        steps_ok(a, steps.drop_last()) && step_ok(run_steps(a, steps.drop_last()), steps.last())
    }
}

impl LauncherApp {
    /// The library size fits in a `usize`.
    pub open spec fn sizes_fit(&self) -> bool {
        self.steam_len + self.epic_len + self.gog_len <= usize::MAX
    }

    /// The selections lie in their lists, and the library size fits.
    pub open spec fn wf(&self) -> bool {
        &&& self.steam_len + self.epic_len + self.gog_len <= usize::MAX
        &&& selection_ok(self.selected_steam as int, self.steam_len + self.epic_len + self.gog_len)
        &&& selection_ok(self.selected_window as int, self.windows_len as int)
    }

    pub open spec fn lib_len(&self) -> int {
        self.steam_len + self.epic_len + self.gog_len
    }

    /// A launcher with empty lists, visible at once in windowed mode.
    pub fn new(windowed: bool) -> (r: Self)
        ensures
            r.wf(),
            r.visible == windowed,
            r.windowed == windowed,
            !r.initialized,
            r.active_panel == Panel::Steam,
            r.selected_steam == 0 && r.selected_window == 0,
            !r.scroll_to_steam && !r.scroll_to_window,
            r.suspended_pid is None,
            r.lib_len() == 0 && r.windows_len == 0,
    {
        LauncherApp {
            visible: windowed,
            initialized: false,
            windowed,
            active_panel: Panel::Steam,
            selected_steam: 0,
            selected_window: 0,
            scroll_to_steam: false,
            scroll_to_window: false,
            suspended_pid: None,
            steam_len: 0,
            epic_len: 0,
            gog_len: 0,
            windows_len: 0,
        }
    }

    /// Number of games in the library (Steam, Epic and GOG together).
    pub fn library_len(&self) -> (r: usize)
        requires
            self.sizes_fit(),
        ensures
            r == self.lib_len(),
    {
        self.steam_len + self.epic_len + self.gog_len
    }

    /// New list sizes after a refresh; each selection is clamped to the last
    /// entry of its list (0 when the list is empty).
    pub fn refresh(&mut self, steam_len: usize, epic_len: usize, gog_len: usize, windows_len: usize)
        requires
            steam_len + epic_len + gog_len <= usize::MAX,
        ensures
            final(self).wf(),
            *final(self) == refresh_state(*old(self), steam_len, epic_len, gog_len, windows_len),
    {
        self.steam_len = steam_len;
        self.epic_len = epic_len;
        self.gog_len = gog_len;
        self.windows_len = windows_len;
        let lib = steam_len + epic_len + gog_len;
        let last = lib.saturating_sub(1);
        if self.selected_steam > last {
            self.selected_steam = last;
        }
        let lastw = windows_len.saturating_sub(1);
        if self.selected_window > lastw {
            self.selected_window = lastw;
        }
    }

    /// The launcher is shown; `newly_suspended` is the foreground process
    /// that was suspended for it, if any.
    pub fn mark_shown(&mut self, newly_suspended: Option<u32>)
        requires
            old(self).sizes_fit(),
        ensures
            final(self).sizes_fit(),
            old(self).wf() ==> final(self).wf(),
            *final(self) == shown_state(*old(self), newly_suspended),
    {
        match newly_suspended {
            Some(p) => {
                self.suspended_pid = Some(p);
            },
            None => {},
        }
        self.visible = true;
    }

    /// The launcher is hidden; returns the suspended process to resume.
    pub fn mark_hidden(&mut self) -> (r: Option<u32>)
        requires
            old(self).sizes_fit(),
        ensures
            final(self).sizes_fit(),
            old(self).wf() ==> final(self).wf(),
            *final(self) == hidden_state(*old(self)),
            r == old(self).suspended_pid,
    {
        self.visible = false;
        let r = self.suspended_pid;
        self.suspended_pid = None;
        r
    }

    /// Moves the selection of the active panel one step up or down, within
    /// its list.
    fn navigate(&mut self, up: bool, down: bool)
        requires
            old(self).sizes_fit(),
        ensures
            final(self).sizes_fit(),
            old(self).wf() ==> final(self).wf(),
            *final(self) == nav_state(*old(self), up, down),
    {
        let lib = self.library_len();
        match self.active_panel {
            Panel::Steam => {
                if lib > 0 {
                    if up && self.selected_steam > 0 {
                        self.selected_steam = self.selected_steam - 1;
                        self.scroll_to_steam = true;
                    }
                    if down && self.selected_steam < lib - 1 {
                        self.selected_steam = self.selected_steam + 1;
                        self.scroll_to_steam = true;
                    }
                }
            },
            Panel::Windows => {
                if self.windows_len > 0 {
                    if up && self.selected_window > 0 {
                        self.selected_window = self.selected_window - 1;
                        self.scroll_to_window = true;
                    }
                    if down && self.selected_window < self.windows_len - 1 {
                        self.selected_window = self.selected_window + 1;
                        self.scroll_to_window = true;
                    }
                }
            },
        }
    }

    /// Gamepad input of a visible launcher: D-pad left/right picks the
    /// panel, up/down moves its selection, and A on the library asks to
    /// launch the selected game (the returned index).
    pub fn apply_pad(&mut self, pad: &GamepadEvents) -> (r: Option<usize>)
        requires
            old(self).sizes_fit(),
        ensures
            final(self).sizes_fit(),
            old(self).wf() ==> final(self).wf(),
            *final(self) == pad_state(*old(self), *pad),
            r == pad_launch(*final(self), *pad),
    {
        if pad.dpad_left > 0 {
            self.active_panel = Panel::Windows;
        }
        if pad.dpad_right > 0 {
            self.active_panel = Panel::Steam;
        }
        self.navigate(pad.dpad_up > 0, pad.dpad_down > 0);
        match self.active_panel {
            Panel::Steam => if pad.a > 0 {
                Some(self.selected_steam)
            } else {
                None
            },
            Panel::Windows => None,
        }
    }

    /// Keyboard input of a visible launcher: arrows pick the panel and move
    /// the selection; Enter on a non-empty library asks to launch the
    /// selected game (the returned index).
    pub fn apply_keys(&mut self, keys: &KeyPresses) -> (r: Option<usize>)
        requires
            old(self).sizes_fit(),
        ensures
            final(self).sizes_fit(),
            old(self).wf() ==> final(self).wf(),
            *final(self) == keys_state(*old(self), *keys),
            r == keys_launch(*final(self), *keys),
    {
        if keys.left {
            self.active_panel = Panel::Windows;
        }
        if keys.right {
            self.active_panel = Panel::Steam;
        }
        self.navigate(keys.up, keys.down);
        let lib = self.library_len();
        match self.active_panel {
            Panel::Steam => if keys.enter && lib > 0 {
                Some(self.selected_steam)
            } else {
                None
            },
            Panel::Windows => None,
        }
    }

    /// The input of a visible launcher in one frame: the gamepad first; if A
    /// asks to launch, the keys are not read; otherwise the keys. Returns the
    /// library index to launch, if any.
    pub fn frame_input(&mut self, pad: &GamepadEvents, keys: &KeyPresses) -> (r: Option<usize>)
        requires
            old(self).sizes_fit(),
        ensures
            final(self).sizes_fit(),
            old(self).wf() ==> final(self).wf(),
            ({
                let a1 = pad_state(*old(self), *pad);
                if pad_launch(a1, *pad) is Some {
                    *final(self) == a1 && r == pad_launch(a1, *pad)
                } else {
                    *final(self) == keys_state(a1, *keys) && r == keys_launch(keys_state(a1, *keys), *keys)
                }
            }),
    {
        match self.apply_pad(pad) {
            Some(i) => Some(i),
            None => self.apply_keys(keys),
        }
    }

    /// Selections made with the mouse: a panel, a library entry, a window;
    /// `resume_pid` is a window whose process is resumed explicitly, which
    /// the launcher then no longer resumes on hide.
    pub fn apply_clicks(
        &mut self,
        switch_panel: Option<Panel>,
        select_steam: Option<usize>,
        select_window: Option<usize>,
        resume_pid: Option<u32>,
    )
        requires
            old(self).sizes_fit(),
        ensures
            final(self).sizes_fit(),
            old(self).wf() && (select_steam matches Some(i) ==> i < old(self).lib_len()) && (
            select_window matches Some(i) ==> i < old(self).windows_len) ==> final(self).wf(),
            *final(self) == clicks_state(*old(self), switch_panel, select_steam, select_window, resume_pid),
    {
        match switch_panel {
            Some(p) => {
                self.active_panel = p;
            },
            None => {},
        }
        match select_steam {
            Some(i) => {
                self.selected_steam = i;
            },
            None => {},
        }
        match select_window {
            Some(i) => {
                self.selected_window = i;
            },
            None => {},
        }
        match resume_pid {
            Some(pid) => {
                if self.suspended_pid == Some(pid) {
                    self.suspended_pid = None;
                }
            },
            None => {},
        }
    }

    /// Start of a frame: the first frame marks the launcher initialized and
    /// returns true (the caller then registers its repaint hook and, unless
    /// windowed, minimizes the window and ends the frame).
    pub fn mark_initialized(&mut self) -> (first: bool)
        ensures
            first == !old(self).initialized,
            *final(self) == (LauncherApp { initialized: true, ..*old(self) }),
    {
        let first = !self.initialized;
        self.initialized = true;
        first
    }

    /// The window was found restored (e.g. from the taskbar) while the
    /// launcher thought it hidden: it becomes visible, and the caller restarts
    /// the debounce clock and refreshes the lists (returns true). A launcher
    /// hidden during this frame is not restored, on purpose: the window state
    /// read in the same frame predates the hide, and restoring then would
    /// undo the hide the user asked for.
    pub fn sync_restored(&mut self, minimized: bool, hidden_this_frame: bool) -> (changed: bool)
        ensures
            changed == (!minimized && !old(self).visible && !hidden_this_frame),
            *final(self) == (if changed {
                LauncherApp { visible: true, ..*old(self) }
            } else {
                *old(self)
            }),
    {
        if !minimized && !self.visible && !hidden_this_frame {
            self.visible = true;
            true
        } else {
            false
        }
    }

    /// The game a library index names.
    pub fn library_entry(&self, idx: usize) -> (r: Option<LibraryEntry>)
        requires
            self.sizes_fit(),
        ensures
            r == entry_at(idx as int, self.steam_len as int, self.epic_len as int, self.gog_len as int),
    {
        if idx < self.steam_len {
            return Some(LibraryEntry::Steam(idx));
        }
        let epic_idx = idx.saturating_sub(self.steam_len);
        if epic_idx < self.epic_len {
            return Some(LibraryEntry::Epic(epic_idx));
        }
        let gog_idx = idx.saturating_sub(self.steam_len + self.epic_len);
        if gog_idx < self.gog_len {
            return Some(LibraryEntry::Gog(gog_idx));
        }
        None
    }
}

/// Showing the launcher and hiding it keeps it well formed; the process
/// suspended when it was shown is the one handed back for resuming when it
/// is hidden, after which none is remembered.
pub proof fn law_hide_resumes_what_show_suspended(a: LauncherApp, pid: u32)
    ensures
        a.wf() ==> shown_state(a, Some(pid)).wf() && hidden_state(shown_state(a, Some(pid))).wf(),
        shown_state(a, Some(pid)).suspended_pid == Some(pid),
        !hidden_state(shown_state(a, Some(pid))).visible,
        hidden_state(shown_state(a, Some(pid))).suspended_pid is None,
{
}

/// Library indices name the Steam games first, then the Epic games, then
/// the GOG games, each once; indices past the library name nothing.
pub proof fn law_library_entries_partition(s: usize, e: usize, g: usize, idx: usize)
    requires
        s + e + g <= usize::MAX,
    ensures
        idx < s ==> entry_at(idx as int, s as int, e as int, g as int) == Some(LibraryEntry::Steam(idx)),
        s <= idx < s + e ==> entry_at(idx as int, s as int, e as int, g as int) == Some(LibraryEntry::Epic((idx - s) as usize)),
        s + e <= idx < s + e + g ==> entry_at(idx as int, s as int, e as int, g as int) == Some(LibraryEntry::Gog((idx - s - e) as usize)),
        s + e + g <= idx ==> entry_at(idx as int, s as int, e as int, g as int) is None,
{
}

/// The process to suspend when the launcher is shown: the owner of the
/// foreground window, unless there is none or it is the launcher itself.
pub fn pid_to_suspend(foreground: Option<u32>, own_pid: u32) -> (r: Option<u32>)
    ensures
        r == (match foreground {
            Some(p) => if p != own_pid {
                Some(p)
            } else {
                None
            },
            None => None,
        }),
{
    match foreground {
        Some(p) => if p != own_pid {
            Some(p)
        } else {
            None
        },
        None => None,
    }
}

proof fn lemma_step_keeps_wf(a: LauncherApp, st: FrameStep)
    requires
        a.wf(),
        step_ok(a, st),
    ensures
        apply_step(a, st).wf(),
{
}

/// Whatever steps a frame takes (refreshes, showing, hiding, gamepad, keys
/// and clicks, in any order and number), both selections stay inside their
/// lists.
pub proof fn law_frame_keeps_selections_in_range(a: LauncherApp, steps: Seq<FrameStep>)
    requires
        a.wf(),
        steps_ok(a, steps),
    ensures
        run_steps(a, steps).wf(),
    decreases steps.len(),
{
    if steps.len() > 0 {
        law_frame_keeps_selections_in_range(a, steps.drop_last());
        lemma_step_keeps_wf(run_steps(a, steps.drop_last()), steps.last());
    }
}

/// Up and down move the selection of whichever panel is active by one,
/// within its list, and leave the other panel's selection alone.
pub proof fn law_navigation_moves_the_active_selection(a: LauncherApp)
    ensures
        a.active_panel == Panel::Windows && a.windows_len > 0 && a.selected_window > 0 ==> nav_state(a, true, false).selected_window == a.selected_window - 1,
        a.active_panel == Panel::Windows && a.windows_len > 0 && a.selected_window + 1 < a.windows_len ==> nav_state(a, false, true).selected_window == a.selected_window + 1,
        a.active_panel == Panel::Windows && a.selected_window == 0 ==> nav_state(a, true, false).selected_window == 0,
        a.active_panel == Panel::Windows ==> nav_state(a, true, false).selected_steam == a.selected_steam && nav_state(a, false, true).selected_steam == a.selected_steam,
        a.active_panel == Panel::Steam && a.steam_len + a.epic_len + a.gog_len > 0 && a.selected_steam > 0 ==> nav_state(a, true, false).selected_steam == a.selected_steam - 1,
        a.active_panel == Panel::Steam && a.sizes_fit() && a.selected_steam + 1 < a.steam_len + a.epic_len + a.gog_len ==> nav_state(a, false, true).selected_steam == a.selected_steam + 1,
        a.active_panel == Panel::Steam && a.selected_steam == 0 ==> nav_state(a, true, false).selected_steam == 0,
        a.active_panel == Panel::Steam ==> nav_state(a, true, false).selected_window == a.selected_window && nav_state(a, false, true).selected_window == a.selected_window,
        nav_state(a, true, false).active_panel == a.active_panel,
{
}

/// A gamepad frame with only D-pad up (or down) pressed moves the active
/// panel's selection up (or down) by one within its list; D-pad left picks
/// the window list and right the library.
pub proof fn law_dpad_moves_the_selection(a: LauncherApp, pad: GamepadEvents)
    ensures
        pad.dpad_left == 0 && pad.dpad_right == 0 && pad.dpad_up > 0 && pad.dpad_down == 0 && a.active_panel == Panel::Windows
            && a.windows_len > 0 && a.selected_window > 0 ==> pad_state(a, pad).selected_window == a.selected_window - 1,
        pad.dpad_left == 0 && pad.dpad_right == 0 && pad.dpad_up == 0 && pad.dpad_down > 0 && a.active_panel == Panel::Windows
            && a.selected_window + 1 < a.windows_len ==> pad_state(a, pad).selected_window == a.selected_window + 1,
        pad.dpad_left == 0 && pad.dpad_right == 0 && pad.dpad_up > 0 && pad.dpad_down == 0 && a.active_panel == Panel::Steam
            && a.selected_steam > 0 && a.steam_len + a.epic_len + a.gog_len > 0 ==> pad_state(a, pad).selected_steam == a.selected_steam - 1,
        pad.dpad_left == 0 && pad.dpad_right == 0 && pad.dpad_up == 0 && pad.dpad_down > 0 && a.active_panel == Panel::Steam
            && a.sizes_fit() && a.selected_steam + 1 < a.steam_len + a.epic_len + a.gog_len ==> pad_state(a, pad).selected_steam == a.selected_steam + 1,
        pad.dpad_left > 0 && pad.dpad_right == 0 ==> pad_state(a, pad).active_panel == Panel::Windows,
        pad.dpad_right > 0 ==> pad_state(a, pad).active_panel == Panel::Steam,
{
}

} // verus!
