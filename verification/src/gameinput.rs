//! Gamepad input: success of a GameInput call, rising-edge detection of the
//! Guide button and of XInput buttons and the View+B combo, and the counters
//! of presses that the UI drains each frame.
use vstd::prelude::*;

verus! {

/// The Guide system button in GameInput's system-button mask.
pub const GUIDE: u32 = 0x0000_0001;

/// XInput button bits (`XINPUT_GAMEPAD_*`).
pub const XINPUT_DPAD_UP: u32 = 0x0001;
pub const XINPUT_DPAD_DOWN: u32 = 0x0002;
pub const XINPUT_DPAD_LEFT: u32 = 0x0004;
pub const XINPUT_DPAD_RIGHT: u32 = 0x0008;
pub const XINPUT_BACK: u32 = 0x0020;
pub const XINPUT_A: u32 = 0x1000;
pub const XINPUT_B: u32 = 0x2000;
pub const XINPUT_X: u32 = 0x4000;

/// The launcher's hotkey: View (Back) and B held together.
pub const COMBO_MASK: u32 = XINPUT_BACK | XINPUT_B;

/// Rising-edge counts for each button of interest, drained each frame. A
/// value above zero means the button was pressed at least once since the
/// last drain.
#[derive(Clone, Copy, Debug, PartialEq, Eq, Structural)]
pub struct GamepadEvents {
    pub dpad_up: u32,
    pub dpad_down: u32,
    pub dpad_left: u32,
    pub dpad_right: u32,
    pub a: u32,
    pub x: u32,
}

impl Default for GamepadEvents {
    fn default() -> (r: Self)
        ensures
            r.dpad_up == 0 && r.dpad_down == 0 && r.dpad_left == 0 && r.dpad_right == 0 && r.a == 0
                && r.x == 0,
    {
        GamepadEvents { dpad_up: 0, dpad_down: 0, dpad_left: 0, dpad_right: 0, a: 0, x: 0 }
    }
}

/// An HRESULT reports success when it is not negative.
pub fn succeeded(hr: i32) -> (r: bool)
    ensures
        r == (hr >= 0),
{
    hr >= 0
}

/// The Guide button went down between two system-button readings.
pub fn guide_rising_edge(current_buttons: u32, previous_buttons: u32) -> (r: bool)
    ensures
        r == (current_buttons & GUIDE != 0 && previous_buttons & GUIDE == 0),
{
    current_buttons & GUIDE != 0 && previous_buttons & GUIDE == 0
}

/// The buttons that went down in one poll.
#[derive(Clone, Copy, Debug, PartialEq, Eq, Structural)]
pub struct PadEdges {
    pub combo_fired: bool,
    pub dpad_up: bool,
    pub dpad_down: bool,
    pub dpad_left: bool,
    pub dpad_right: bool,
    pub a: bool,
    pub x: bool,
}

/// What the poller remembers between polls.
#[derive(Clone, Copy, Debug, PartialEq, Eq, Structural)]
pub struct PadTracker {
    pub prev_buttons: u32,
    pub prev_combo_held: bool,
}

pub open spec fn rose(prev: u32, now: u32, mask: u32) -> bool {
    (now & !prev) & mask != 0
}

pub open spec fn combo_held(buttons: u32) -> bool {
    buttons & COMBO_MASK == COMBO_MASK
}

/// What the poller remembers after a poll.
pub open spec fn tracker_after(buttons: u32) -> PadTracker {
    PadTracker { prev_buttons: buttons, prev_combo_held: combo_held(buttons) }
}

/// The presses a poll detects.
pub open spec fn edges_of(t: PadTracker, buttons: u32) -> PadEdges {
    PadEdges {
        combo_fired: combo_held(buttons) && !t.prev_combo_held,
        dpad_up: rose(t.prev_buttons, buttons, XINPUT_DPAD_UP),
        dpad_down: rose(t.prev_buttons, buttons, XINPUT_DPAD_DOWN),
        dpad_left: rose(t.prev_buttons, buttons, XINPUT_DPAD_LEFT),
        dpad_right: rose(t.prev_buttons, buttons, XINPUT_DPAD_RIGHT),
        a: rose(t.prev_buttons, buttons, XINPUT_A),
        x: rose(t.prev_buttons, buttons, XINPUT_X),
    }
}

impl PadTracker {
    /// No button held.
    pub fn new() -> (r: Self)
        ensures
            r.prev_buttons == 0 && !r.prev_combo_held,
    {
        PadTracker { prev_buttons: 0, prev_combo_held: false }
    }

    /// One poll with the buttons now held: each button of interest fires
    /// when it is held now and was not at the previous poll; the combo fires
    /// when View and B are both held now and were not both held before.
    pub fn step(&mut self, buttons: u32) -> (r: PadEdges)
        ensures
            *final(self) == tracker_after(buttons),
            r == edges_of(*old(self), buttons),
    {
        let prev = self.prev_buttons;
        self.prev_buttons = buttons;
        let rising = buttons & !prev;
        let held = buttons & COMBO_MASK == COMBO_MASK;
        let prev_held = self.prev_combo_held;
        self.prev_combo_held = held;
        PadEdges {
            combo_fired: held && !prev_held,
            dpad_up: rising & XINPUT_DPAD_UP != 0,
            dpad_down: rising & XINPUT_DPAD_DOWN != 0,
            dpad_left: rising & XINPUT_DPAD_LEFT != 0,
            dpad_right: rising & XINPUT_DPAD_RIGHT != 0,
            a: rising & XINPUT_A != 0,
            x: rising & XINPUT_X != 0,
        }
    }
}

/// Press counters shared between the poller and the UI.
#[derive(Clone, Copy, Debug, PartialEq, Eq, Structural)]
pub struct PressCounters {
    pub guide: u32,
    pub combo: u32,
    pub dpad_up: u32,
    pub dpad_down: u32,
    pub dpad_left: u32,
    pub dpad_right: u32,
    pub a: u32,
    pub x: u32,
}

pub open spec fn bump(c: u32, fired: bool) -> u32 {
    if fired {
        ((c + 1) % 0x1_0000_0000) as u32
    } else {
        c
    }
}

fn bump_exec(c: u32, fired: bool) -> (r: u32)
    ensures
        r == bump(c, fired),
{
    if fired {
        c.wrapping_add(1)
    } else {
        c
    }
}

impl PressCounters {
    /// All counters at zero.
    pub fn new() -> (r: Self)
        ensures
            r.guide == 0 && r.combo == 0 && r.dpad_up == 0 && r.dpad_down == 0 && r.dpad_left == 0
                && r.dpad_right == 0 && r.a == 0 && r.x == 0,
    {
        PressCounters { guide: 0, combo: 0, dpad_up: 0, dpad_down: 0, dpad_left: 0, dpad_right: 0, a: 0, x: 0 }
    }

    /// Counts one Guide press (wrapping like an atomic add).
    pub fn record_guide(&mut self)
        ensures
            final(self).guide == bump(old(self).guide, true),
            final(self).combo == old(self).combo,
            final(self).dpad_up == old(self).dpad_up,
            final(self).dpad_down == old(self).dpad_down,
            final(self).dpad_left == old(self).dpad_left,
            final(self).dpad_right == old(self).dpad_right,
            final(self).a == old(self).a,
            final(self).x == old(self).x,
    {
        self.guide = bump_exec(self.guide, true);
    }

    /// Counts the presses of one poll.
    pub fn record(&mut self, e: &PadEdges)
        ensures
            final(self).guide == old(self).guide,
            final(self).combo == bump(old(self).combo, e.combo_fired),
            final(self).dpad_up == bump(old(self).dpad_up, e.dpad_up),
            final(self).dpad_down == bump(old(self).dpad_down, e.dpad_down),
            final(self).dpad_left == bump(old(self).dpad_left, e.dpad_left),
            final(self).dpad_right == bump(old(self).dpad_right, e.dpad_right),
            final(self).a == bump(old(self).a, e.a),
            final(self).x == bump(old(self).x, e.x),
    {
        self.combo = bump_exec(self.combo, e.combo_fired);
        self.dpad_up = bump_exec(self.dpad_up, e.dpad_up);
        self.dpad_down = bump_exec(self.dpad_down, e.dpad_down);
        self.dpad_left = bump_exec(self.dpad_left, e.dpad_left);
        self.dpad_right = bump_exec(self.dpad_right, e.dpad_right);
        self.a = bump_exec(self.a, e.a);
        self.x = bump_exec(self.x, e.x);
    }

    /// Guide presses since the last drain; the counter restarts at zero.
    pub fn drain_guide_presses(&mut self) -> (r: u32)
        ensures
            r == old(self).guide,
            final(self).guide == 0,
            final(self).combo == old(self).combo,
            final(self).dpad_up == old(self).dpad_up,
            final(self).dpad_down == old(self).dpad_down,
            final(self).dpad_left == old(self).dpad_left,
            final(self).dpad_right == old(self).dpad_right,
            final(self).a == old(self).a,
            final(self).x == old(self).x,
    {
        let r = self.guide;
        self.guide = 0;
        r
    }

    /// Combo presses since the last drain; the counter restarts at zero.
    pub fn drain_combo_presses(&mut self) -> (r: u32)
        ensures
            r == old(self).combo,
            final(self).combo == 0,
            final(self).guide == old(self).guide,
            final(self).dpad_up == old(self).dpad_up,
            final(self).dpad_down == old(self).dpad_down,
            final(self).dpad_left == old(self).dpad_left,
            final(self).dpad_right == old(self).dpad_right,
            final(self).a == old(self).a,
            final(self).x == old(self).x,
    {
        let r = self.combo;
        self.combo = 0;
        r
    }

    /// The button presses since the last drain; those counters restart at
    /// zero.
    pub fn drain_gamepad_events(&mut self) -> (r: GamepadEvents)
        ensures
            r.dpad_up == old(self).dpad_up && r.dpad_down == old(self).dpad_down && r.dpad_left
                == old(self).dpad_left && r.dpad_right == old(self).dpad_right && r.a == old(self).a
                && r.x == old(self).x,
            final(self).dpad_up == 0 && final(self).dpad_down == 0 && final(self).dpad_left == 0
                && final(self).dpad_right == 0 && final(self).a == 0 && final(self).x == 0,
            final(self).guide == old(self).guide,
            final(self).combo == old(self).combo,
    {
        let r = GamepadEvents {
            dpad_up: self.dpad_up,
            dpad_down: self.dpad_down,
            dpad_left: self.dpad_left,
            dpad_right: self.dpad_right,
            a: self.a,
            x: self.x,
        };
        self.dpad_up = 0;
        self.dpad_down = 0;
        self.dpad_left = 0;
        self.dpad_right = 0;
        self.a = 0;
        self.x = 0;
        r
    }
}

/// Holding the combo fires it once: it fires at the poll where View and B
/// become held together and not again while both stay held; likewise a
/// button held through two polls does not fire at the second.
pub proof fn law_combo_fires_once_per_press(t: PadTracker, b1: u32, b2: u32, mask: u32)
    ensures
        combo_held(b1) && !t.prev_combo_held ==> edges_of(t, b1).combo_fired,
        combo_held(b1) && combo_held(b2) ==> !edges_of(tracker_after(b1), b2).combo_fired,
        b1 & mask == mask ==> !rose(tracker_after(b1).prev_buttons, b2, mask),
{
    assert(b1 & mask == mask ==> (b2 & !b1) & mask == 0) by (bit_vector);
}

/// Each detected press is the rising edge of its own button: the flag is
/// set exactly when that button's bit (D-pad up 0x0001, down 0x0002, left
/// 0x0004, right 0x0008, A 0x1000, X 0x4000) is held now and was not held
/// at the previous poll; the hotkey fires exactly when Back (0x0020) and B
/// (0x2000) are both held now and were not both held before.
pub proof fn law_each_flag_is_its_buttons_rising_edge(t: PadTracker, b: u32)
    ensures
        edges_of(t, b).dpad_up <==> (b & !t.prev_buttons) & 0x0001u32 != 0,
        edges_of(t, b).dpad_down <==> (b & !t.prev_buttons) & 0x0002u32 != 0,
        edges_of(t, b).dpad_left <==> (b & !t.prev_buttons) & 0x0004u32 != 0,
        edges_of(t, b).dpad_right <==> (b & !t.prev_buttons) & 0x0008u32 != 0,
        edges_of(t, b).a <==> (b & !t.prev_buttons) & 0x1000u32 != 0,
        edges_of(t, b).x <==> (b & !t.prev_buttons) & 0x4000u32 != 0,
        edges_of(t, b).combo_fired <==> (b & 0x2020u32 == 0x2020u32 && !t.prev_combo_held),
        tracker_after(b).prev_buttons == b,
        tracker_after(b).prev_combo_held <==> b & 0x2020u32 == 0x2020u32,
{
    assert(0x0020u32 | 0x2000u32 == 0x2020u32) by (bit_vector);
}

} // verus!
