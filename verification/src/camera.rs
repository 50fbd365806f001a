//! The mouse-button state of the orbit camera and the decisions it drives:
//! which drag a cursor move performs, and when the drag anchor jumps to the
//! cursor. The camera's geometry itself is floating point and lives with the
//! renderer.

use vstd::prelude::*;

verus! {

/// The mouse buttons the camera listens to.
#[derive(Clone, Copy, Debug, PartialEq, Eq, Structural)]
pub enum MouseButtonKind {
    Left,
    Middle,
    Other,
}

/// What a cursor move does to the camera.
#[derive(Clone, Copy, Debug, PartialEq, Eq, Structural)]
pub enum DragMode {
    /// Orbit around the target (left button held).
    Rotate,
    /// Move the target in the view plane (middle button held, left not).
    Pan,
    /// Nothing.
    Idle,
}

/// The button flags of the orbit camera.
#[derive(Clone, Copy, Debug, PartialEq, Eq, Structural)]
pub struct OrbitButtons {
    /// The left button is held.
    pub pressed: bool,
    /// A button changed since the last cursor move, so the next cursor move
    /// starts a new drag from where the cursor is.
    pub just_pressed: bool,
    /// The middle button is held.
    pub middle_pressed: bool,
    /// Kept for a separate middle-button anchor; no event sets it.
    pub middle_just_pressed: bool,
}

impl OrbitButtons {
    /// No button held.
    pub open spec fn released() -> OrbitButtons {
        OrbitButtons {
            pressed: false,
            just_pressed: false,
            middle_pressed: false,
            middle_just_pressed: false,
        }
    }

    /// The flags after `button` went down (`is_pressed`) or up.
    pub open spec fn after_button(self, button: MouseButtonKind, is_pressed: bool) -> OrbitButtons {
        match button {
            MouseButtonKind::Left => OrbitButtons {
                pressed: is_pressed,
                just_pressed: is_pressed,
                ..self
            },
            MouseButtonKind::Middle => OrbitButtons {
                middle_pressed: is_pressed,
                just_pressed: is_pressed,
                ..self
            },
            MouseButtonKind::Other => self,
        }
    }

    /// The flags after a cursor move: no anchor jump is pending any more.
    pub open spec fn after_cursor(self) -> OrbitButtons {
        OrbitButtons { just_pressed: false, ..self }
    }

    /// The drag that a cursor move performs: rotation while the left button is
    /// held, panning while only the middle one is.
    pub open spec fn drag(self) -> DragMode {
        if self.pressed {
            DragMode::Rotate
        } else if self.middle_pressed {
            DragMode::Pan
        } else {
            DragMode::Idle
        }
    }

    /// No button held.
    pub fn new() -> (b: OrbitButtons)
        ensures
            b == OrbitButtons::released(),
    {
        OrbitButtons {
            pressed: false,
            just_pressed: false,
            middle_pressed: false,
            middle_just_pressed: false,
        }
    }

    /// Records that `button` went down (`is_pressed`) or up.
    pub fn button_input(&mut self, button: MouseButtonKind, is_pressed: bool)
        ensures
            *final(self) == old(self).after_button(button, is_pressed),
            button == MouseButtonKind::Other ==> *final(self) == *old(self),
            button == MouseButtonKind::Left ==> final(self).pressed == is_pressed
                && final(self).just_pressed == is_pressed && final(self).middle_pressed == old(
                self,
            ).middle_pressed,
            button == MouseButtonKind::Middle ==> final(self).middle_pressed == is_pressed
                && final(self).just_pressed == is_pressed && final(self).pressed == old(
                self,
            ).pressed,
            final(self).middle_just_pressed == old(self).middle_just_pressed,
    {
        match button {
            MouseButtonKind::Left => {
                self.just_pressed = is_pressed;
                self.pressed = is_pressed;
            },
            MouseButtonKind::Middle => {
                self.just_pressed = is_pressed;
                self.middle_pressed = is_pressed;
            },
            MouseButtonKind::Other => {},
        }
    }

    /// Records a cursor move. Returns whether the drag anchor must first jump
    /// to the cursor (a button changed since the last cursor move); after the
    /// call no jump is pending.
    pub fn cursor_moved(&mut self) -> (reset_anchor: bool)
        ensures
            reset_anchor == old(self).just_pressed,
            *final(self) == old(self).after_cursor(),
            !final(self).just_pressed,
            final(self).pressed == old(self).pressed,
            final(self).middle_pressed == old(self).middle_pressed,
            final(self).middle_just_pressed == old(self).middle_just_pressed,
    {
        let reset_anchor = self.just_pressed;
        self.just_pressed = false;
        reset_anchor
    }

    /// The drag that a cursor move performs now.
    pub fn drag_mode(&self) -> (d: DragMode)
        ensures
            d == self.drag(),
    {
        if self.pressed {
            DragMode::Rotate
        } else if self.middle_pressed {
            DragMode::Pan
        } else {
            DragMode::Idle
        }
    }
}

/// A button other than left or middle changes no flag, pressed or released.
/// Each of the left and middle buttons sets only its own held flag and the
/// pending anchor jump; no button sets `middle_just_pressed`.
pub proof fn lemma_button_changes_only_its_flags(b: OrbitButtons, is_pressed: bool)
    ensures
        b.after_button(MouseButtonKind::Other, is_pressed) == b,
        b.after_button(MouseButtonKind::Left, is_pressed).pressed == is_pressed,
        b.after_button(MouseButtonKind::Left, is_pressed).just_pressed == is_pressed,
        b.after_button(MouseButtonKind::Left, is_pressed).middle_pressed == b.middle_pressed,
        b.after_button(MouseButtonKind::Left, is_pressed).middle_just_pressed == b.middle_just_pressed,
        b.after_button(MouseButtonKind::Middle, is_pressed).middle_pressed == is_pressed,
        b.after_button(MouseButtonKind::Middle, is_pressed).just_pressed == is_pressed,
        b.after_button(MouseButtonKind::Middle, is_pressed).pressed == b.pressed,
        b.after_button(MouseButtonKind::Middle, is_pressed).middle_just_pressed
            == b.middle_just_pressed,
{
}

/// A cursor move clears the pending anchor jump and touches nothing else: the
/// held buttons stay held.
pub proof fn lemma_cursor_changes_only_pending_jump(b: OrbitButtons)
    ensures
        !b.after_cursor().just_pressed,
        b.after_cursor().pressed == b.pressed,
        b.after_cursor().middle_pressed == b.middle_pressed,
        b.after_cursor().middle_just_pressed == b.middle_just_pressed,
{
}

/// A button press makes the next cursor move jump the anchor to the cursor,
/// and only that one: the move after it finds no jump pending. Releasing a
/// button leaves no jump pending.
pub proof fn lemma_anchor_jumps_once(b: OrbitButtons, button: MouseButtonKind)
    requires
        button != MouseButtonKind::Other,
    ensures
        b.after_button(button, true).just_pressed,
        !b.after_button(button, true).after_cursor().just_pressed,
        !b.after_button(button, false).just_pressed,
{
}

/// Holding the left button rotates, whatever the middle button does; the
/// middle button alone pans; a cursor move does not change the drag.
pub proof fn lemma_drag_follows_buttons(b: OrbitButtons, is_pressed: bool)
    ensures
        b.after_button(MouseButtonKind::Left, true).drag() == DragMode::Rotate,
        b.after_button(MouseButtonKind::Left, true).after_button(MouseButtonKind::Middle, is_pressed).drag()
            == DragMode::Rotate,
        !b.pressed ==> b.after_button(MouseButtonKind::Middle, true).drag() == DragMode::Pan,
        b.after_button(MouseButtonKind::Left, false).after_button(MouseButtonKind::Middle, false).drag()
            == DragMode::Idle,
        b.after_cursor().drag() == b.drag(),
{
}

} // verus!
