//! The input report of a Stadia controller.
use vstd::prelude::*;

verus! {

/// The bits of the d-pad field that carry a direction.
pub const DPAD_BITS: u8 = 0b111;

/// The bits of the button field that carry a button: the low seven and the
/// high eight.
pub const BUTTON_BITS: u16 = 0xff7f;

/// The direction of the d-pad, as the low three bits of its field.
#[derive(Clone, Copy, PartialEq, Eq, Debug, Structural)]
pub struct DPadState {
    pub bits: u8,
}

impl DPadState {
    /// Keeps the bits that stand for a direction and drops the rest.
    pub fn from_bits_truncate(bits: u8) -> (r: DPadState)
        ensures
            r.bits == bits & DPAD_BITS,
    {
        DPadState { bits: bits & DPAD_BITS }
    }
}

/// The pressed buttons, one bit each.
#[derive(Clone, Copy, PartialEq, Eq, Debug, Structural)]
pub struct GameButtons {
    pub bits: u16,
}

impl GameButtons {
    /// Keeps the bits that stand for a button and drops the rest.
    pub fn from_bits_truncate(bits: u16) -> (r: GameButtons)
        ensures
            r.bits == bits & BUTTON_BITS,
    {
        GameButtons { bits: bits & BUTTON_BITS }
    }
}

/// The state of the controller that one input report gives.
#[derive(Clone, Copy, Debug)]
pub struct StadiaState {
    pub dpad: DPadState,
    pub game_buttons: GameButtons,
    pub left_stick_position: (u8, u8),
    pub right_stick_position: (u8, u8),
    pub l2_position: u8,
    pub r2_position: u8,
}

/// The output report that sets the rumble motors: report id 5, then the
/// left intensity twice and the right intensity twice.
pub fn rumble_report(left: u8, right: u8) -> (r: Vec<u8>)
    ensures
        r@ == seq![0x05u8, left, left, right, right],
{
    let r: Vec<u8> = vec![0x05, left, left, right, right];
    assert(r@ =~= seq![0x05u8, left, left, right, right]);
    r
}

/// The button field of a report: byte 2 high, byte 3 low.
pub open spec fn button_field(input: Seq<u8>) -> u16 {
    ((input[2] as u16) << 8u16) | (input[3] as u16)
}

impl StadiaState {
    /// Reads a report: byte 1 is the d-pad, bytes 2 and 3 the buttons, 4 to 7
    /// the sticks, 8 and 9 the triggers.
    pub fn new(input: Vec<u8>) -> (r: StadiaState)
        requires
            input@.len() >= 10,
        ensures
            r.dpad.bits == input@[1] & DPAD_BITS,
            r.game_buttons.bits == button_field(input@) & BUTTON_BITS,
            r.left_stick_position == (input@[4], input@[5]),
            r.right_stick_position == (input@[6], input@[7]),
            r.l2_position == input@[8],
            r.r2_position == input@[9],
    {
        StadiaState {
            dpad: DPadState::from_bits_truncate(input[1]),
            game_buttons: GameButtons::from_bits_truncate(
                ((input[2] as u16) << 8u16) | input[3] as u16,
            ),
            left_stick_position: (input[4], input[5]),
            right_stick_position: (input[6], input[7]),
            l2_position: input[8],
            r2_position: input[9],
        }
    }

    /// Rumble each side as hard as its shoulder trigger is pressed.
    pub fn rumble_report(&self) -> (r: Vec<u8>)
        ensures
            r@ == seq![0x05u8, self.l2_position, self.l2_position, self.r2_position, self.r2_position],
    {
        rumble_report(self.l2_position, self.r2_position)
    }
}

} // verus!
