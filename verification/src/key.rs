//! Key codes and the physical modifier keys.

use vstd::prelude::*;

verus! {

/// A key, identified by its scancode.
#[derive(Clone, Copy, Debug, PartialEq, Eq, Hash, Structural)]
pub struct Key(pub u16);

pub const KEY_RESERVED: u16 = 0;
pub const KEY_LEFTCTRL: u16 = 29;
pub const KEY_A: u16 = 30;
pub const KEY_LEFTSHIFT: u16 = 42;
pub const KEY_Z: u16 = 44;
pub const KEY_RIGHTSHIFT: u16 = 54;
pub const KEY_LEFTALT: u16 = 56;
pub const KEY_SPACE: u16 = 57;
pub const KEY_RIGHTCTRL: u16 = 97;
pub const KEY_RIGHTALT: u16 = 100;
pub const KEY_LEFTMETA: u16 = 125;
pub const KEY_RIGHTMETA: u16 = 126;
pub const BTN_LEFT: u16 = 0x110;
pub const BTN_TOOL_PEN: u16 = 0x140;
pub const BTN_TOUCH: u16 = 0x14a;
pub const BTN_TRIGGER_HAPPY40: u16 = 0x2e7;

/// First code of the synthetic keys that stand for pointer motion: axis `a`
/// moving in the positive direction is key `DISGUISED_EVENT_OFFSETTER + 2a`,
/// in the negative direction `DISGUISED_EVENT_OFFSETTER + 2a + 1`.
pub const DISGUISED_EVENT_OFFSETTER: u16 = 59974;

/// Highest relative axis that has synthetic keys.
pub const MAX_DISGUISED_AXIS: u16 = 12;

/// Whether `code` is one of the eight physical modifier keys.
pub open spec fn is_modifier_code(code: u16) -> bool {
    code == KEY_LEFTSHIFT || code == KEY_RIGHTSHIFT || code == KEY_LEFTCTRL || code
        == KEY_RIGHTCTRL || code == KEY_LEFTALT || code == KEY_RIGHTALT || code == KEY_LEFTMETA
        || code == KEY_RIGHTMETA
}

impl Key {
    pub fn new(code: u16) -> (key: Key)
        ensures
            key == Key(code),
    {
        Key(code)
    }

    pub fn code(self) -> (code: u16)
        ensures
            code == self.0,
    {
        self.0
    }

    /// A physical modifier key: either side of Shift, Control, Alt or Super.
    pub open spec fn is_modifier(self) -> bool {
        is_modifier_code(self.0)
    }

    #[verifier::when_used_as_spec(is_modifier)]
    pub fn is_modifier_key(self) -> (b: bool)
        ensures
            b == self.is_modifier(),
    {
        let c: u16 = self.0;
        c == KEY_LEFTSHIFT || c == KEY_RIGHTSHIFT || c == KEY_LEFTCTRL || c == KEY_RIGHTCTRL || c
            == KEY_LEFTALT || c == KEY_RIGHTALT || c == KEY_LEFTMETA || c == KEY_RIGHTMETA
    }

    /// A synthetic key that stands for pointer motion.
    pub open spec fn is_disguised(self) -> bool {
        self.0 >= DISGUISED_EVENT_OFFSETTER
    }
}

/// The synthetic key codes lie above every scancode of the kernel and none
/// of them overflows sixteen bits.
pub proof fn lemma_disguised_codes_fit(axis: u16)
    requires
        axis <= MAX_DISGUISED_AXIS,
    ensures
        0x2e7 < DISGUISED_EVENT_OFFSETTER,
        DISGUISED_EVENT_OFFSETTER <= u16::MAX - 25,
        DISGUISED_EVENT_OFFSETTER + 2 * axis + 1 <= u16::MAX,
        BTN_TRIGGER_HAPPY40 < DISGUISED_EVENT_OFFSETTER + 2 * axis,
{
}

} // verus!
