//! Pointer and keyboard input state handed to widgets each frame.

use vstd::prelude::*;

verus! {

/// How many times each mouse button has been clicked in a row while it is
/// held down (0 when the button is up).
#[derive(Clone, Copy, Debug, Default, PartialEq, Eq, Structural)]
pub struct MouseButtonState {
    pub left_click_count: u8,
    pub right_click_count: u8,
    pub middle_click_count: u8,
}

impl MouseButtonState {
    /// Whether the left button is down.
    pub fn is_left_down(&self) -> (r: bool)
        ensures
            r == (self.left_click_count > 0),
    {
        self.left_click_count > 0
    }

    /// Whether the right button is down.
    pub fn is_right_down(&self) -> (r: bool)
        ensures
            r == (self.right_click_count > 0),
    {
        self.right_click_count > 0
    }

    /// Whether the middle button is down.
    pub fn is_middle_down(&self) -> (r: bool)
        ensures
            r == (self.middle_click_count > 0),
    {
        self.middle_click_count > 0
    }
}

/// A mouse button.
#[derive(Clone, Copy, Debug, PartialEq, Eq, Structural)]
pub enum MouseButton {
    Left,
    Right,
    Middle,
    Back,
    Forward,
    Other(u16),
}

impl MouseButtonState {
    /// Record the click count of an event of `button` (0 for a release):
    /// the left, right and middle buttons are tracked and give true; other
    /// buttons change nothing and give false.
    pub fn record(&mut self, button: MouseButton, count: u8) -> (r: bool)
        ensures
            r == (button == MouseButton::Left || button == MouseButton::Right || button
                == MouseButton::Middle),
            button == MouseButton::Left ==> *final(self) == (MouseButtonState {
                left_click_count: count,
                ..*old(self)
            }),
            button == MouseButton::Right ==> *final(self) == (MouseButtonState {
                right_click_count: count,
                ..*old(self)
            }),
            button == MouseButton::Middle ==> *final(self) == (MouseButtonState {
                middle_click_count: count,
                ..*old(self)
            }),
            !r ==> *final(self) == *old(self),
    {
        match button {
            MouseButton::Left => {
                self.left_click_count = count;
                true
            },
            MouseButton::Right => {
                self.right_click_count = count;
                true
            },
            MouseButton::Middle => {
                self.middle_click_count = count;
                true
            },
            _ => false,
        }
    }
}

/// Whether a key or button went down or up.
#[derive(Clone, Copy, Debug, PartialEq, Eq, Structural)]
pub enum ElementState {
    Pressed,
    Released,
}

impl ElementState {
    /// Whether this is a press.
    pub fn is_pressed(&self) -> (r: bool)
        ensures
            r == (*self == ElementState::Pressed),
    {
        match self {
            ElementState::Pressed => true,
            ElementState::Released => false,
        }
    }

    /// Whether this is a release.
    pub fn is_released(&self) -> (r: bool)
        ensures
            r == (*self == ElementState::Released),
    {
        match self {
            ElementState::Pressed => false,
            ElementState::Released => true,
        }
    }
}

/// Counts consecutive clicks of one button to recognise double (and
/// triple, ...) clicks.
///
/// Where the pointer is, which button was pressed and when are measured by
/// the caller; this keeps the count.
#[derive(Clone, Copy, Debug, Default, PartialEq, Eq, Structural)]
pub struct ClickCounter {
    pub last_click_count: u8,
}

impl ClickCounter {
    /// Record a button event and return the click count it produces: 0 for
    /// a release (which changes nothing); for a press, one more than the
    /// previous count when it continues the previous click (same button,
    /// within the slop rectangle and the click interval), otherwise 1.
    pub fn on_click(
        &mut self,
        pressed: bool,
        same_button: bool,
        within_slop: bool,
        within_interval: bool,
    ) -> (r: u8)
        requires
            pressed && same_button && within_slop && within_interval ==> old(
                self,
            ).last_click_count < u8::MAX,
        ensures
            !pressed ==> r == 0 && *final(self) == *old(self),
            pressed && same_button && within_slop && within_interval ==> r
                == old(self).last_click_count + 1,
            pressed && !(same_button && within_slop && within_interval) ==> r == 1,
            pressed ==> final(self).last_click_count == r,
    {
        if !pressed {
            return 0;
        }
        if !within_slop || !within_interval || !same_button {
            self.last_click_count = 0;
        }
        self.last_click_count = self.last_click_count + 1;
        self.last_click_count
    }

    /// Forget the click sequence (the next press counts as a first click).
    pub fn on_activate(&mut self)
        ensures
            final(self).last_click_count == 0,
    {
        self.last_click_count = 0;
    }
}

} // verus!
