//! Input events as the translator receives them.

use vstd::prelude::*;
use crate::key::Key;

verus! {

/// What happened to a key.
#[derive(Clone, Copy, Debug, PartialEq, Eq, Structural)]
pub enum KeyValue {
    Release,
    Press,
    Repeat,
}

impl KeyValue {
    /// The value as the kernel writes it: 0 release, 1 press, 2 repeat.
    pub open spec fn number(self) -> int {
        match self {
            KeyValue::Release => 0,
            KeyValue::Press => 1,
            KeyValue::Repeat => 2,
        }
    }

    pub fn to_i32(self) -> (n: i32)
        ensures
            n == self.number(),
    {
        match self {
            KeyValue::Release => 0,
            KeyValue::Press => 1,
            KeyValue::Repeat => 2,
        }
    }

    /// Reads the kernel's value; anything but 0, 1 and 2 is no key value.
    pub fn from_i32(n: i32) -> (value: Option<KeyValue>)
        ensures
            match value {
                Some(v) => v.number() == n,
                None => n < 0 || n > 2,
            },
    {
        if n == 0 {
            Some(KeyValue::Release)
        } else if n == 1 {
            Some(KeyValue::Press)
        } else if n == 2 {
            Some(KeyValue::Repeat)
        } else {
            None
        }
    }
}

/// A key going down, up, or repeating.
#[derive(Clone, Copy, Debug, PartialEq, Eq, Structural)]
pub struct KeyEvent {
    pub key: Key,
    pub value: KeyValue,
}

impl KeyEvent {
    pub fn new(key: Key, value: KeyValue) -> (event: KeyEvent)
        ensures
            event == (KeyEvent { key, value }),
    {
        KeyEvent { key, value }
    }

    pub fn code(&self) -> (code: u16)
        ensures
            code == self.key.0,
    {
        self.key.0
    }

    pub fn value(&self) -> (value: i32)
        ensures
            value == self.value.number(),
    {
        self.value.to_i32()
    }
}

/// Motion along a relative axis.
#[derive(Clone, Copy, Debug, PartialEq, Eq, Structural)]
pub struct RelativeEvent {
    pub code: u16,
    pub value: i32,
}

impl RelativeEvent {
    pub fn new_with(code: u16, value: i32) -> (event: RelativeEvent)
        ensures
            event == (RelativeEvent { code, value }),
    {
        RelativeEvent { code, value }
    }
}

pub const EV_SYN: u16 = 0;
pub const EV_KEY: u16 = 1;
pub const EV_REL: u16 = 2;

/// An event as the kernel reads and writes it: its type, its code and its
/// value.
#[derive(Clone, Copy, Debug, PartialEq, Eq, Structural)]
pub struct InputEvent {
    pub event_type: u16,
    pub code: u16,
    pub value: i32,
}

/// What the main loop feeds to the translator.
#[derive(Clone, Copy, Debug, PartialEq, Eq, Structural)]
pub enum Event {
    KeyEvent(KeyEvent),
    RelativeEvent(RelativeEvent),
    /// An event of another type (synchronisation, absolute axes, ...), which
    /// the translator forwards untouched.
    OtherEvents(InputEvent),
    /// The prefix timer has expired.
    OverrideTimeout,
}

impl InputEvent {
    pub fn new(event_type: u16, code: u16, value: i32) -> (event: InputEvent)
        ensures
            event == (InputEvent { event_type, code, value }),
    {
        InputEvent { event_type, code, value }
    }
}

impl Event {
    /// What an event read from a device is to the translator: a key event
    /// if its type is `EV_KEY` and its value one of release, press and
    /// repeat; motion if its type is `EV_REL`; else an event to forward.
    pub open spec fn of_input(event: InputEvent) -> Event {
        if event.event_type == EV_KEY && 0 <= event.value <= 2 {
            Event::KeyEvent(
                KeyEvent {
                    key: Key(event.code),
                    value: if event.value == 0 {
                        KeyValue::Release
                    } else if event.value == 1 {
                        KeyValue::Press
                    } else {
                        KeyValue::Repeat
                    },
                },
            )
        } else if event.event_type == EV_REL {
            Event::RelativeEvent(RelativeEvent { code: event.code, value: event.value })
        } else {
            Event::OtherEvents(event)
        }
    }

    /// Sorts an event read from a device.
    pub fn new(event: InputEvent) -> (sorted: Event)
        ensures
            sorted == Event::of_input(event),
    {
        if event.event_type == EV_KEY {
            match KeyValue::from_i32(event.value) {
                Some(value) => {
                    return Event::KeyEvent(KeyEvent { key: Key(event.code), value });
                },
                None => {},
            }
        }
        if event.event_type == EV_REL {
            Event::RelativeEvent(RelativeEvent { code: event.code, value: event.value })
        } else {
            Event::OtherEvents(event)
        }
    }
}

} // verus!
