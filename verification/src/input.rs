//! Pointer-capture pipeline: normalized input events, the tracked pointer
//! state, and edge-crossing detection.
//!
//! The physical device is polled outside the library; each raw sample is
//! handed in as a [`RawInputEvent`] and yields at most one normalized
//! [`InputEvent`]. Edge detection is applied independently per axis: a sample
//! that pushes the clamped position across the configured threshold emits an
//! [`InputEvent::EdgeCrossed`] *instead of* a plain move.

use vstd::prelude::*;

verus! {

// Linux input event codes for the relative axes the pipeline understands.
pub const REL_X: u16 = 0;

pub const REL_Y: u16 = 1;

pub const REL_HWHEEL: u16 = 6;

pub const REL_WHEEL: u16 = 8;

// Linux input event codes for pointer buttons. The generic mouse button code
// is the same code as the left button, so one constant covers both.
pub const BTN_LEFT: u16 = 272;

pub const BTN_RIGHT: u16 = 273;

pub const BTN_MIDDLE: u16 = 274;

pub const BTN_SIDE: u16 = 275;

pub const BTN_EXTRA: u16 = 276;

/// Logical pointer buttons.
#[derive(Clone, Copy, Debug, PartialEq, Eq)]
pub enum MouseButton {
    Left,
    Right,
    Middle,
    Back,
    Forward,
}

/// The screen edge crossed by a pointer movement.
#[derive(Clone, Copy, Debug, PartialEq, Eq)]
pub enum ScreenEdge {
    Left,
    Right,
    Top,
    Bottom,
}

/// Pressed-state of the tracked pointer buttons.
#[derive(Clone, Copy, Debug, PartialEq, Eq)]
pub struct MouseButtons {
    pub left: bool,
    pub right: bool,
    pub middle: bool,
}

impl Default for MouseButtons {
    fn default() -> (r: Self)
        ensures
            !r.left,
            !r.right,
            !r.middle,
    {
        MouseButtons { left: false, right: false, middle: false }
    }
}

/// A normalized event emitted by the capture pipeline.
#[derive(Clone, Copy, Debug, PartialEq, Eq)]
pub enum InputEvent {
    MouseMove { delta_x: i32, delta_y: i32 },
    MouseButton { button: MouseButton, pressed: bool },
    MouseWheel { delta: i32, horizontal: bool },
    KeyPress { key_code: u32, pressed: bool },
    EdgeCrossed { edge: ScreenEdge, position: (u32, u32) },
}

/// A raw sample read from the physical device, reduced to plain values:
/// a relative-axis delta, a key/button transition, or anything else.
#[derive(Clone, Copy, Debug, PartialEq, Eq)]
pub enum RawInputEvent {
    RelAxis { axis: u16, value: i32 },
    Key { code: u16, value: i32 },
    Other,
}

/// The pointer position and button state, clamped to the screen.
#[derive(Clone, Copy, Debug, PartialEq, Eq)]
pub struct MouseState {
    pub x: u32,
    pub y: u32,
    pub buttons: MouseButtons,
    pub screen_width: u32,
    pub screen_height: u32,
}

impl MouseState {
    /// The position is inside `[0, screen_width] x [0, screen_height]`.
    pub open spec fn wf(&self) -> bool {
        self.x <= self.screen_width && self.y <= self.screen_height
    }
}

/// A coordinate after applying a delta, clamped to `[0, dim]`.
pub open spec fn clamp_coord(pos: int, delta: int, dim: int) -> int {
    if pos + delta < 0 {
        0
    } else if pos + delta > dim {
        dim
    } else {
        pos + delta
    }
}

/// The sample moved the coordinate from at-or-beyond the threshold to inside
/// it: the pointer pushed against the low (left or top) edge.
pub open spec fn crosses_low_edge(old_pos: int, new_pos: int, threshold: int) -> bool {
    old_pos >= threshold && new_pos < threshold
}

/// The sample moved the coordinate across `dim - threshold` from below: the
/// pointer pushed against the high (right or bottom) edge.
pub open spec fn crosses_high_edge(old_pos: int, new_pos: int, dim: int, threshold: int) -> bool {
    old_pos <= dim - threshold && new_pos > dim - threshold
}

/// A valid edge threshold leaves the two opposing edge regions disjoint:
/// `0 <= threshold < min(width, height) / 2`.
pub open spec fn threshold_ok(threshold: u32, width: u32, height: u32) -> bool {
    2 * (threshold as int) < width as int && 2 * (threshold as int) < height as int
}

/// The one event emitted for a horizontal axis sample.
pub open spec fn x_axis_event(s: MouseState, delta: i32, threshold: u32) -> InputEvent {
    let new_x = clamp_coord(s.x as int, delta as int, s.screen_width as int);
    if crosses_low_edge(s.x as int, new_x, threshold as int) {
        InputEvent::EdgeCrossed { edge: ScreenEdge::Left, position: (0u32, s.y) }
    } else if crosses_high_edge(s.x as int, new_x, s.screen_width as int, threshold as int) {
        InputEvent::EdgeCrossed { edge: ScreenEdge::Right, position: (s.screen_width, s.y) }
    } else {
        InputEvent::MouseMove { delta_x: delta, delta_y: 0 }
    }
}

/// The one event emitted for a vertical axis sample.
pub open spec fn y_axis_event(s: MouseState, delta: i32, threshold: u32) -> InputEvent {
    let new_y = clamp_coord(s.y as int, delta as int, s.screen_height as int);
    if crosses_low_edge(s.y as int, new_y, threshold as int) {
        InputEvent::EdgeCrossed { edge: ScreenEdge::Top, position: (s.x, 0u32) }
    } else if crosses_high_edge(s.y as int, new_y, s.screen_height as int, threshold as int) {
        InputEvent::EdgeCrossed { edge: ScreenEdge::Bottom, position: (s.x, s.screen_height) }
    } else {
        InputEvent::MouseMove { delta_x: 0, delta_y: delta }
    }
}

/// The fixed mapping from physical button codes to logical buttons.
pub open spec fn button_for_code(code: u16) -> Option<MouseButton> {
    if code == BTN_LEFT {
        Some(MouseButton::Left)
    } else if code == BTN_RIGHT {
        Some(MouseButton::Right)
    } else if code == BTN_MIDDLE {
        Some(MouseButton::Middle)
    } else if code == BTN_SIDE {
        Some(MouseButton::Back)
    } else if code == BTN_EXTRA {
        Some(MouseButton::Forward)
    } else {
        None
    }
}

/// The tracked button set after a button transition. Only the left, right and
/// middle buttons are tracked in the pointer state; back and forward are
/// forwarded as events without being tracked.
pub open spec fn buttons_after(b: MouseButtons, button: MouseButton, pressed: bool) -> MouseButtons {
    match button {
        MouseButton::Left => MouseButtons { left: pressed, ..b },
        MouseButton::Right => MouseButtons { right: pressed, ..b },
        MouseButton::Middle => MouseButtons { middle: pressed, ..b },
        MouseButton::Back => b,
        MouseButton::Forward => b,
    }
}

/// Checks the documented threshold bound: opposing edge conditions must not
/// be simultaneously satisfiable, so a threshold at or above half the smaller
/// screen dimension is rejected as an unsupported configuration.
pub fn validate_edge_threshold(threshold: u32, width: u32, height: u32) -> (r: bool)
    ensures
        r == threshold_ok(threshold, width, height),
{
    2 * (threshold as u64) < (width as u64) && 2 * (threshold as u64) < (height as u64)
}

/// With a valid threshold, a single axis sample can cross at most one of the
/// two opposing edges.
pub proof fn lemma_edge_conditions_exclusive(old_pos: int, new_pos: int, dim: int, threshold: int)
    requires
        2 * threshold < dim,
    ensures
        !(crosses_low_edge(old_pos, new_pos, threshold) && crosses_high_edge(
            old_pos,
            new_pos,
            dim,
            threshold,
        )),
{
}

/// Position reached by folding a sequence of deltas into a clamped coordinate.
pub open spec fn fold_deltas(pos: int, deltas: Seq<int>, dim: int) -> int
    decreases deltas.len(),
{
    if deltas.len() == 0 {
        pos
    } else {
        fold_deltas(clamp_coord(pos, deltas[0], dim), deltas.drop_first(), dim)
    }
}

/// Clamping invariant: for every sequence of pointer deltas, the resulting
/// coordinate stays within `[0, dim]`.
pub proof fn lemma_deltas_stay_clamped(pos: int, deltas: Seq<int>, dim: int)
    requires
        0 <= pos <= dim,
    ensures
        0 <= fold_deltas(pos, deltas, dim) <= dim,
    decreases deltas.len(),
{
    if deltas.len() > 0 {
        lemma_deltas_stay_clamped(clamp_coord(pos, deltas[0], dim), deltas.drop_first(), dim);
    }
}

/// Exactly one event is emitted for an axis sample, and it is an edge
/// crossing precisely when the sample crosses the threshold boundary —
/// an edge crossing is never accompanied by a plain move for the same sample.
pub proof fn lemma_one_event_per_axis_sample(s: MouseState, delta: i32, threshold: u32)
    ensures
        ({
            let new_x = clamp_coord(s.x as int, delta as int, s.screen_width as int);
            let e = x_axis_event(s, delta, threshold);
            &&& (e is EdgeCrossed <==> crosses_low_edge(s.x as int, new_x, threshold as int)
                || crosses_high_edge(s.x as int, new_x, s.screen_width as int, threshold as int))
            &&& (e is MouseMove <==> !(crosses_low_edge(s.x as int, new_x, threshold as int)
                || crosses_high_edge(s.x as int, new_x, s.screen_width as int, threshold as int)))
        }),
        ({
            let new_y = clamp_coord(s.y as int, delta as int, s.screen_height as int);
            let e = y_axis_event(s, delta, threshold);
            &&& (e is EdgeCrossed <==> crosses_low_edge(s.y as int, new_y, threshold as int)
                || crosses_high_edge(s.y as int, new_y, s.screen_height as int, threshold as int))
            &&& (e is MouseMove <==> !(crosses_low_edge(s.y as int, new_y, threshold as int)
                || crosses_high_edge(s.y as int, new_y, s.screen_height as int, threshold as int)))
        }),
{
}

/// Maps a physical button code to the logical button set, per the fixed
/// mapping table.
pub fn map_button(code: u16) -> (r: Option<MouseButton>)
    ensures
        r == button_for_code(code),
{
    if code == BTN_LEFT {
        Some(MouseButton::Left)
    } else if code == BTN_RIGHT {
        Some(MouseButton::Right)
    } else if code == BTN_MIDDLE {
        Some(MouseButton::Middle)
    } else if code == BTN_SIDE {
        Some(MouseButton::Back)
    } else if code == BTN_EXTRA {
        Some(MouseButton::Forward)
    } else {
        None
    }
}

/// Describes one enumerated input device: whether it reports relative motion
/// and whether it has a primary button.
#[derive(Clone, Copy, Debug, PartialEq, Eq)]
pub struct DeviceCaps {
    pub supports_relative: bool,
    pub has_primary_button: bool,
}

/// Selects the capture device: the first enumerated device that reports both
/// relative motion and a primary button; `None` disables capture.
pub fn select_pointer_device(devices: &Vec<DeviceCaps>) -> (r: Option<usize>)
    ensures
        match r {
            Some(i) => {
                &&& i < devices@.len()
                &&& devices@[i as int].supports_relative
                &&& devices@[i as int].has_primary_button
                &&& forall|j: int|
                    0 <= j < i ==> !(#[trigger] devices@[j].supports_relative
                        && devices@[j].has_primary_button)
            },
            None => forall|j: int|
                0 <= j < devices@.len() ==> !(#[trigger] devices@[j].supports_relative
                    && devices@[j].has_primary_button),
        },
{
    let mut i: usize = 0;
    while i < devices.len()
        invariant
            i <= devices@.len(),
            forall|j: int|
                0 <= j < i ==> !(#[trigger] devices@[j].supports_relative
                    && devices@[j].has_primary_button),
        decreases devices@.len() - i,
    {
        let d = devices[i];
        if d.supports_relative && d.has_primary_button {
            return Some(i);
        }
        i = i + 1;
    }
    None
}

/// The verified core of the capture engine: pointer state plus the configured
/// edge threshold. Device polling and the outgoing event channel live with
/// the caller; the engine turns each raw sample into at most one event.
pub struct InputManager {
    pub state: MouseState,
    pub edge_threshold: u32,
}

impl InputManager {
    /// The pointer state is clamped and the threshold is valid for the screen.
    pub open spec fn wf(&self) -> bool {
        self.state.wf() && threshold_ok(
            self.edge_threshold,
            self.state.screen_width,
            self.state.screen_height,
        )
    }

    /// Fresh engine: pointer at the origin, no buttons pressed.
    pub fn new(config: &crate::config::Config, screen_width: u32, screen_height: u32) -> (r: Self)
        requires
            threshold_ok(config.host.display_edge_threshold, screen_width, screen_height),
        ensures
            r.wf(),
            r.state.x == 0,
            r.state.y == 0,
            !r.state.buttons.left,
            !r.state.buttons.right,
            !r.state.buttons.middle,
            r.state.screen_width == screen_width,
            r.state.screen_height == screen_height,
            r.edge_threshold == config.host.display_edge_threshold,
    {
        InputManager {
            state: MouseState {
                x: 0,
                y: 0,
                buttons: MouseButtons::default(),
                screen_width,
                screen_height,
            },
            edge_threshold: config.host.display_edge_threshold,
        }
    }

    /// A read-only snapshot of the pointer state.
    pub fn get_mouse_state(&self) -> (r: MouseState)
        ensures
            r == self.state,
    {
        self.state
    }

    /// Processes one raw sample: updates the pointer state and returns the
    /// one normalized event for the sample, or `None` for samples the
    /// pipeline does not handle. An edge crossing takes strict priority over
    /// a plain move for the same axis delta.
    pub fn process_event(&mut self, ev: RawInputEvent) -> (r: Option<InputEvent>)
        requires
            old(self).wf(),
        ensures
            final(self).wf(),
            final(self).edge_threshold == old(self).edge_threshold,
            final(self).state.screen_width == old(self).state.screen_width,
            final(self).state.screen_height == old(self).state.screen_height,
            match ev {
                RawInputEvent::RelAxis { axis, value } => {
                    if axis == REL_X {
                        &&& final(self).state.x as int == clamp_coord(
                            old(self).state.x as int,
                            value as int,
                            old(self).state.screen_width as int,
                        )
                        &&& final(self).state.y == old(self).state.y
                        &&& final(self).state.buttons == old(self).state.buttons
                        &&& r == Some(x_axis_event(old(self).state, value, old(self).edge_threshold))
                    } else if axis == REL_Y {
                        &&& final(self).state.y as int == clamp_coord(
                            old(self).state.y as int,
                            value as int,
                            old(self).state.screen_height as int,
                        )
                        &&& final(self).state.x == old(self).state.x
                        &&& final(self).state.buttons == old(self).state.buttons
                        &&& r == Some(y_axis_event(old(self).state, value, old(self).edge_threshold))
                    } else if axis == REL_WHEEL {
                        &&& *final(self) == *old(self)
                        &&& r == Some(InputEvent::MouseWheel { delta: value, horizontal: false })
                    } else if axis == REL_HWHEEL {
                        &&& *final(self) == *old(self)
                        &&& r == Some(InputEvent::MouseWheel { delta: value, horizontal: true })
                    } else {
                        &&& *final(self) == *old(self)
                        &&& r is None
                    }
                },
                RawInputEvent::Key { code, value } => match button_for_code(code) {
                    Some(button) => {
                        &&& final(self).state.buttons == buttons_after(
                            old(self).state.buttons,
                            button,
                            value != 0,
                        )
                        &&& final(self).state.x == old(self).state.x
                        &&& final(self).state.y == old(self).state.y
                        &&& r == Some(InputEvent::MouseButton { button, pressed: value != 0 })
                    },
                    None => {
                        &&& *final(self) == *old(self)
                        &&& r is None
                    },
                },
                RawInputEvent::Other => {
                    &&& *final(self) == *old(self)
                    &&& r is None
                },
            },
    {
        match ev {
            RawInputEvent::RelAxis { axis, value } => {
                if axis == REL_X {
                    let old_x = self.state.x;
                    let width = self.state.screen_width;
                    let moved: i64 = old_x as i64 + value as i64;
                    let new_x: u32 = if moved < 0 {
                        0
                    } else if moved > width as i64 {
                        width
                    } else {
                        moved as u32
                    };
                    self.state.x = new_x;
                    let t = self.edge_threshold;
                    if old_x >= t && new_x < t {
                        Some(
                            InputEvent::EdgeCrossed {
                                edge: ScreenEdge::Left,
                                position: (0, self.state.y),
                            },
                        )
                    } else if old_x <= width - t && new_x > width - t {
                        Some(
                            InputEvent::EdgeCrossed {
                                edge: ScreenEdge::Right,
                                position: (width, self.state.y),
                            },
                        )
                    } else {
                        Some(InputEvent::MouseMove { delta_x: value, delta_y: 0 })
                    }
                } else if axis == REL_Y {
                    let old_y = self.state.y;
                    let height = self.state.screen_height;
                    let moved: i64 = old_y as i64 + value as i64;
                    let new_y: u32 = if moved < 0 {
                        0
                    } else if moved > height as i64 {
                        height
                    } else {
                        moved as u32
                    };
                    self.state.y = new_y;
                    let t = self.edge_threshold;
                    if old_y >= t && new_y < t {
                        Some(
                            InputEvent::EdgeCrossed {
                                edge: ScreenEdge::Top,
                                position: (self.state.x, 0),
                            },
                        )
                    } else if old_y <= height - t && new_y > height - t {
                        Some(
                            InputEvent::EdgeCrossed {
                                edge: ScreenEdge::Bottom,
                                position: (self.state.x, height),
                            },
                        )
                    } else {
                        Some(InputEvent::MouseMove { delta_x: 0, delta_y: value })
                    }
                } else if axis == REL_WHEEL {
                    Some(InputEvent::MouseWheel { delta: value, horizontal: false })
                } else if axis == REL_HWHEEL {
                    Some(InputEvent::MouseWheel { delta: value, horizontal: true })
                } else {
                    None
                }
            },
            RawInputEvent::Key { code, value } => {
                match map_button(code) {
                    Some(button) => {
                        let pressed = value != 0;
                        match button {
                            MouseButton::Left => {
                                self.state.buttons.left = pressed;
                            },
                            MouseButton::Right => {
                                self.state.buttons.right = pressed;
                            },
                            MouseButton::Middle => {
                                self.state.buttons.middle = pressed;
                            },
                            MouseButton::Back => {},
                            MouseButton::Forward => {},
                        }
                        Some(InputEvent::MouseButton { button, pressed })
                    },
                    None => None,
                }
            },
            RawInputEvent::Other => None,
        }
    }
}

} // verus!
