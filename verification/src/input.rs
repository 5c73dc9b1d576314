//! Button and d-pad state, modelled as bit sets.
//!
//! A [`ButtonSet`] is a bit mask over the six device buttons; a
//! [`ButtonState`] carries the three sets the host reports each frame:
//! buttons held, buttons just pressed, and buttons just released.

use vstd::prelude::*;

verus! {

/// One of the device's buttons.
#[derive(Debug, Copy, Clone, Eq, PartialEq, Structural)]
pub enum Button {
    Left,
    Right,
    Up,
    Down,
    A,
    B,
}

/// The bit each button occupies in a [`ButtonSet`] mask.
pub open spec fn button_mask(button: Button) -> u8 {
    match button {
        Button::Left => 0x01,
        Button::Right => 0x02,
        Button::Up => 0x04,
        Button::Down => 0x08,
        Button::B => 0x10,
        Button::A => 0x20,
    }
}

/// A set of buttons, stored as a bit mask.
#[derive(Debug, Copy, Clone, Default, Eq, PartialEq, Structural)]
pub struct ButtonSet(pub u8);

impl ButtonSet {
    /// Whether `button` is in the set.
    pub open spec fn contains_spec(self, button: Button) -> bool {
        self.0 & button_mask(button) != 0
    }

    /// The d-pad direction the set stands for: x grows rightward, y grows
    /// downward, and opposite held directions cancel out.
    pub open spec fn d_pad_spec(self) -> (int, int) {
        (
            (if self.contains_spec(Button::Right) {
                1int
            } else {
                0int
            }) - (if self.contains_spec(Button::Left) {
                1int
            } else {
                0int
            }),
            (if self.contains_spec(Button::Down) {
                1int
            } else {
                0int
            }) - (if self.contains_spec(Button::Up) {
                1int
            } else {
                0int
            }),
        )
    }

    /// The empty set.
    pub fn new() -> (r: Self)
        ensures
            r.0 == 0,
    {
        ButtonSet(0)
    }

    /// The set with `button` added.
    pub fn with(self, button: Button) -> (r: Self)
        ensures
            r.0 == self.0 | button_mask(button),
            r.contains_spec(button),
            forall|b: Button| self.contains_spec(b) ==> r.contains_spec(b),
    {
        let mask = match button {
            Button::Left => 0x01u8,
            Button::Right => 0x02,
            Button::Up => 0x04,
            Button::Down => 0x08,
            Button::B => 0x10,
            Button::A => 0x20,
        };
        proof {
            assert forall|b: Button| self.contains_spec(b) implies (ButtonSet(
                self.0 | mask,
            )).contains_spec(b) by {
                let bits = self.0;
                let bm = button_mask(b);
                assert(bits & bm != 0 ==> (bits | mask) & bm != 0) by (bit_vector);
            }
            let bits = self.0;
            assert((bits | mask) & mask != 0) by (bit_vector)
                requires
                    mask == 0x01u8 || mask == 0x02u8 || mask == 0x04u8 || mask == 0x08u8 || mask
                        == 0x10u8 || mask == 0x20u8,
            ;
        }
        ButtonSet(self.0 | mask)
    }

    /// Returns true if the given button is in the set.
    pub fn contains(self, button: Button) -> (r: bool)
        ensures
            r == self.contains_spec(button),
    {
        let mask = match button {
            Button::Left => 0x01u8,
            Button::Right => 0x02,
            Button::Up => 0x04,
            Button::Down => 0x08,
            Button::B => 0x10,
            Button::A => 0x20,
        };
        self.0 & mask != 0
    }

    /// Returns true if any of the given buttons is in the set.
    pub fn contains_any(self, buttons: ButtonSet) -> (r: bool)
        ensures
            r == (self.0 & buttons.0 != 0),
    {
        self.0 & buttons.0 > 0
    }

    /// The d-pad buttons of the set as a 2-D direction, the screen's axes:
    /// x grows rightward, y grows downward. Opposite held directions
    /// cancel out.
    pub fn d_pad(self) -> (r: [i8; 2])
        ensures
            r@[0] == self.d_pad_spec().0,
            r@[1] == self.d_pad_spec().1,
    {
        let mut x: i8 = 0;
        let mut y: i8 = 0;
        if self.contains(Button::Up) {
            y = y - 1;
        }
        if self.contains(Button::Down) {
            y = y + 1;
        }
        if self.contains(Button::Left) {
            x = x - 1;
        }
        if self.contains(Button::Right) {
            x = x + 1;
        }
        [x, y]
    }
}

impl From<Button> for ButtonSet {
    /// The singleton set holding just `value`.
    fn from(value: Button) -> (r: Self) {
        ButtonSet(match value {
            Button::Left => 0x01u8,
            Button::Right => 0x02,
            Button::Up => 0x04,
            Button::Down => 0x08,
            Button::B => 0x10,
            Button::A => 0x20,
        })
    }
}

impl vstd::std_specs::convert::FromSpecImpl<Button> for ButtonSet {
    open spec fn obeys_from_spec() -> bool {
        true
    }

    open spec fn from_spec(v: Button) -> ButtonSet {
        ButtonSet(button_mask(v))
    }
}

/// The button state of one frame.
#[derive(Debug, Copy, Clone, Eq, PartialEq, Structural)]
pub struct ButtonState {
    /// Buttons currently being pressed.
    pub current: ButtonSet,
    /// Buttons that have just started to be pressed: not pressed last
    /// frame, pressed now.
    pub pushed: ButtonSet,
    /// Buttons that have just been released: pressed last frame, no
    /// longer pressed.
    pub released: ButtonSet,
}

impl ButtonState {
    /// Returns true if the given button is currently pressed.
    pub fn is_pressed(self, button: Button) -> (r: bool)
        ensures
            r == self.current.contains_spec(button),
    {
        self.current.contains(button)
    }

    /// Returns true if the given button has just started to be pressed.
    pub fn is_just_pressed(self, button: Button) -> (r: bool)
        ensures
            r == self.pushed.contains_spec(button),
    {
        self.pushed.contains(button)
    }

    /// Returns true if the given button has just been released.
    pub fn is_just_released(self, button: Button) -> (r: bool)
        ensures
            r == self.released.contains_spec(button),
    {
        self.released.contains(button)
    }

    /// Returns true if any of the given buttons is currently pressed.
    pub fn is_any_pressed(&self, buttons: ButtonSet) -> (r: bool)
        ensures
            r == (self.current.0 & buttons.0 != 0),
    {
        self.current.contains_any(buttons)
    }

    /// Returns true if any of the given buttons was just pressed.
    pub fn is_any_just_pressed(&self, buttons: ButtonSet) -> (r: bool)
        ensures
            r == (self.pushed.0 & buttons.0 != 0),
    {
        self.pushed.contains_any(buttons)
    }

    /// Returns true if any of the given buttons was just released.
    pub fn is_any_just_released(&self, buttons: ButtonSet) -> (r: bool)
        ensures
            r == (self.released.0 & buttons.0 != 0),
    {
        self.released.contains_any(buttons)
    }

    /// The currently pressed d-pad buttons as a 2-D direction.
    pub fn d_pad(self) -> (r: [i8; 2])
        ensures
            r@[0] == self.current.d_pad_spec().0,
            r@[1] == self.current.d_pad_spec().1,
    {
        self.current.d_pad()
    }

    /// The just-pressed d-pad buttons as a 2-D direction.
    pub fn d_pad_just_pressed(self) -> (r: [i8; 2])
        ensures
            r@[0] == self.pushed.d_pad_spec().0,
            r@[1] == self.pushed.d_pad_spec().1,
    {
        self.pushed.d_pad()
    }

    /// The just-released d-pad buttons as a 2-D direction.
    pub fn d_pad_just_released(self) -> (r: [i8; 2])
        ensures
            r@[0] == self.released.d_pad_spec().0,
            r@[1] == self.released.d_pad_spec().1,
    {
        self.released.d_pad()
    }
}

} // verus!
