//! Chords: a key together with the modifiers that must be held.

use vstd::prelude::*;
use crate::key::{
    Key, KEY_LEFTALT, KEY_LEFTCTRL, KEY_LEFTMETA, KEY_LEFTSHIFT, KEY_RIGHTALT, KEY_RIGHTCTRL,
    KEY_RIGHTMETA, KEY_RIGHTSHIFT,
};

verus! {

/// Which of the two keys of a modifier is meant.
#[derive(Clone, Copy, Debug, PartialEq, Eq, Hash, Structural)]
pub enum Side {
    Left,
    Right,
    Either,
}

/// A modifier as a chord names it.
#[derive(Clone, Copy, Debug, PartialEq, Eq, Hash, Structural)]
pub enum Modifier {
    Shift(Side),
    Control(Side),
    Alt(Side),
    Super(Side),
    /// A key that the configuration declares to act as a modifier.
    Key(Key),
}

/// Whether a modifier of side `side`, whose keys are `left` and `right`,
/// is satisfied by `key`.
pub open spec fn side_accepts(side: Side, left: u16, right: u16, key: Key) -> bool {
    (side != Side::Right && key.0 == left) || (side != Side::Left && key.0 == right)
}

fn side_accepts_key(side: Side, left: u16, right: u16, key: Key) -> (b: bool)
    ensures
        b == side_accepts(side, left, right, key),
{
    let on_left: bool = match side {
        Side::Right => false,
        _ => key.0 == left,
    };
    let on_right: bool = match side {
        Side::Left => false,
        _ => key.0 == right,
    };
    on_left || on_right
}

impl Modifier {
    /// Whether holding `key` satisfies this modifier.
    pub open spec fn accepts(self, key: Key) -> bool {
        match self {
            Modifier::Shift(s) => side_accepts(s, KEY_LEFTSHIFT, KEY_RIGHTSHIFT, key),
            Modifier::Control(s) => side_accepts(s, KEY_LEFTCTRL, KEY_RIGHTCTRL, key),
            Modifier::Alt(s) => side_accepts(s, KEY_LEFTALT, KEY_RIGHTALT, key),
            Modifier::Super(s) => side_accepts(s, KEY_LEFTMETA, KEY_RIGHTMETA, key),
            Modifier::Key(k) => key == k,
        }
    }

    #[verifier::when_used_as_spec(accepts)]
    pub fn accepts_key(self, key: Key) -> (b: bool)
        ensures
            b == self.accepts(key),
    {
        match self {
            Modifier::Shift(s) => side_accepts_key(s, KEY_LEFTSHIFT, KEY_RIGHTSHIFT, key),
            Modifier::Control(s) => side_accepts_key(s, KEY_LEFTCTRL, KEY_RIGHTCTRL, key),
            Modifier::Alt(s) => side_accepts_key(s, KEY_LEFTALT, KEY_RIGHTALT, key),
            Modifier::Super(s) => side_accepts_key(s, KEY_LEFTMETA, KEY_RIGHTMETA, key),
            Modifier::Key(k) => key == k,
        }
    }

    /// The key to press when the modifier is wanted and not held: the right
    /// key if the chord asks for the right side, the left key otherwise.
    pub open spec fn default_key(self) -> Key {
        match self {
            Modifier::Shift(s) => Key(if s == Side::Right { KEY_RIGHTSHIFT } else { KEY_LEFTSHIFT }),
            Modifier::Control(s) => Key(if s == Side::Right { KEY_RIGHTCTRL } else { KEY_LEFTCTRL }),
            Modifier::Alt(s) => Key(if s == Side::Right { KEY_RIGHTALT } else { KEY_LEFTALT }),
            Modifier::Super(s) => Key(if s == Side::Right { KEY_RIGHTMETA } else { KEY_LEFTMETA }),
            Modifier::Key(k) => k,
        }
    }

    #[verifier::when_used_as_spec(default_key)]
    pub fn key_to_press(self) -> (key: Key)
        ensures
            key == self.default_key(),
            self.accepts(key),
    {
        match self {
            Modifier::Shift(s) => Key(
                match s {
                    Side::Right => KEY_RIGHTSHIFT,
                    _ => KEY_LEFTSHIFT,
                },
            ),
            Modifier::Control(s) => Key(
                match s {
                    Side::Right => KEY_RIGHTCTRL,
                    _ => KEY_LEFTCTRL,
                },
            ),
            Modifier::Alt(s) => Key(
                match s {
                    Side::Right => KEY_RIGHTALT,
                    _ => KEY_LEFTALT,
                },
            ),
            Modifier::Super(s) => Key(
                match s {
                    Side::Right => KEY_RIGHTMETA,
                    _ => KEY_LEFTMETA,
                },
            ),
            Modifier::Key(k) => k,
        }
    }
}

/// A key with the modifiers that are to be held with it.
#[derive(Debug)]
pub struct KeyPress {
    pub key: Key,
    pub modifiers: Vec<Modifier>,
}

/// The mathematical value of a [`KeyPress`].
pub struct KeyPressView {
    pub key: Key,
    pub modifiers: Seq<Modifier>,
}

impl View for KeyPress {
    type V = KeyPressView;

    open spec fn view(&self) -> KeyPressView {
        KeyPressView { key: self.key, modifiers: self.modifiers@ }
    }
}

/// A copy of a list of modifiers.
pub fn clone_modifiers(modifiers: &Vec<Modifier>) -> (copy: Vec<Modifier>)
    ensures
        copy@ == modifiers@,
{
    let mut copy: Vec<Modifier> = Vec::new();
    let mut i: usize = 0;
    while i < modifiers.len()
        invariant
            i <= modifiers.len(),
            copy@ == modifiers@.take(i as int),
        decreases modifiers.len() - i,
    {
        copy.push(modifiers[i]);
        i += 1;
    }
    copy
}

impl Clone for KeyPress {
    fn clone(&self) -> (copy: KeyPress)
        ensures
            copy@ == self@,
    {
        KeyPress { key: self.key, modifiers: clone_modifiers(&self.modifiers) }
    }
}

impl KeyPress {
    pub fn new(key: Key, modifiers: Vec<Modifier>) -> (chord: KeyPress)
        ensures
            chord@ == (KeyPressView { key, modifiers: modifiers@ }),
    {
        KeyPress { key, modifiers }
    }

    /// Whether two chords name the same key and the same modifiers in the
    /// same order.
    pub fn same(&self, other: &KeyPress) -> (eq: bool)
        ensures
            eq == (self@ == other@),
    {
        if self.key != other.key || self.modifiers.len() != other.modifiers.len() {
            return false;
        }
        let mut i: usize = 0;
        while i < self.modifiers.len()
            invariant
                i <= self.modifiers.len(),
                self.modifiers.len() == other.modifiers.len(),
                forall|k: int| 0 <= k < i ==> self.modifiers@[k] == other.modifiers@[k],
            decreases self.modifiers.len() - i,
        {
            if self.modifiers[i] != other.modifiers[i] {
                return false;
            }
            i += 1;
        }
        assert(self.modifiers@ =~= other.modifiers@);
        true
    }
}

/// Whether some key of `pressed` satisfies `modifier`.
pub open spec fn modifier_held(modifier: Modifier, pressed: Seq<Key>) -> bool {
    exists|i: int| 0 <= i < pressed.len() && modifier.accepts(#[trigger] pressed[i])
}

/// Whether some modifier of `required` is satisfied by `key`.
pub open spec fn named_by(required: Seq<Modifier>, key: Key) -> bool {
    exists|j: int| 0 <= j < required.len() && (#[trigger] required[j]).accepts(key)
}

/// The keys of `pressed` that no modifier of `required` accepts, in the
/// order of `pressed`.
pub open spec fn extra_modifiers(pressed: Seq<Key>, required: Seq<Modifier>) -> Seq<Key>
    decreases pressed.len(),
{
    if pressed.len() == 0 {
        Seq::empty()
    } else {
        let rest = extra_modifiers(pressed.drop_last(), required);
        if named_by(required, pressed.last()) {
            rest
        } else {
            rest.push(pressed.last())
        }
    }
}

/// The keys to press so that every modifier of `required` is satisfied: for
/// each modifier that no key of `pressed` satisfies its default key, in the
/// order of `required`, each key once.
pub open spec fn missing_modifiers(pressed: Seq<Key>, required: Seq<Modifier>) -> Seq<Key>
    decreases required.len(),
{
    if required.len() == 0 {
        Seq::empty()
    } else {
        let rest = missing_modifiers(pressed, required.drop_last());
        let key = required.last().default_key();
        if modifier_held(required.last(), pressed) || rest.contains(key) {
            rest
        } else {
            rest.push(key)
        }
    }
}

/// The physical modifier keys among `keys` that are not in `kept`, in the
/// order of `keys`.
pub open spec fn emitted_modifiers(keys: Seq<Key>, kept: Seq<Key>) -> Seq<Key>
    decreases keys.len(),
{
    if keys.len() == 0 {
        Seq::empty()
    } else {
        let rest = emitted_modifiers(keys.drop_last(), kept);
        if keys.last().is_modifier() && !kept.contains(keys.last()) {
            rest.push(keys.last())
        } else {
            rest
        }
    }
}

/// Whether `keys` holds `key`.
pub fn has_key(keys: &Vec<Key>, key: Key) -> (found: bool)
    ensures
        found == keys@.contains(key),
{
    let mut i: usize = 0;
    while i < keys.len()
        invariant
            i <= keys.len(),
            forall|k: int| 0 <= k < i ==> keys@[k] != key,
        decreases keys.len() - i,
    {
        if keys[i] == key {
            return true;
        }
        i += 1;
    }
    false
}

/// Whether a held key satisfies `modifier`.
pub fn is_held(modifier: Modifier, pressed: &Vec<Key>) -> (held: bool)
    ensures
        held == modifier_held(modifier, pressed@),
{
    let mut i: usize = 0;
    while i < pressed.len()
        invariant
            i <= pressed.len(),
            forall|k: int| 0 <= k < i ==> !modifier.accepts(pressed@[k]),
        decreases pressed.len() - i,
    {
        if modifier.accepts_key(pressed[i]) {
            return true;
        }
        i += 1;
    }
    false
}

/// Whether a modifier of `required` is satisfied by `key`.
pub fn is_named(required: &Vec<Modifier>, key: Key) -> (named: bool)
    ensures
        named == named_by(required@, key),
{
    let mut j: usize = 0;
    while j < required.len()
        invariant
            j <= required.len(),
            forall|k: int| 0 <= k < j ==> !required@[k].accepts(key),
        decreases required.len() - j,
    {
        if required[j].accepts_key(key) {
            return true;
        }
        j += 1;
    }
    false
}

/// Compares the held keys with the modifiers of a chord: the held keys that
/// the chord does not name, and the keys that would have to be pressed to
/// satisfy it.
pub fn diff_modifiers(pressed: &Vec<Key>, required: &Vec<Modifier>) -> (diff: (Vec<Key>, Vec<Key>))
    ensures
        diff.0@ == extra_modifiers(pressed@, required@),
        diff.1@ == missing_modifiers(pressed@, required@),
{
    let mut extra: Vec<Key> = Vec::new();
    let mut i: usize = 0;
    while i < pressed.len()
        invariant
            i <= pressed.len(),
            extra@ == extra_modifiers(pressed@.take(i as int), required@),
        decreases pressed.len() - i,
    {
        assert(pressed@.take(i + 1).drop_last() =~= pressed@.take(i as int));
        if !is_named(required, pressed[i]) {
            extra.push(pressed[i]);
        }
        i += 1;
    }
    assert(pressed@.take(pressed.len() as int) =~= pressed@);
    let mut missing: Vec<Key> = Vec::new();
    let mut j: usize = 0;
    while j < required.len()
        invariant
            j <= required.len(),
            missing@ == missing_modifiers(pressed@, required@.take(j as int)),
        decreases required.len() - j,
    {
        assert(required@.take(j + 1).drop_last() =~= required@.take(j as int));
        let key: Key = required[j].key_to_press();
        if !is_held(required[j], pressed) && !has_key(&missing, key) {
            missing.push(key);
        }
        j += 1;
    }
    assert(required@.take(required.len() as int) =~= required@);
    (extra, missing)
}

/// The physical modifier keys among `keys` that `kept` does not hold.
pub fn modifiers_to_emit(keys: &Vec<Key>, kept: &Vec<Key>) -> (emitted: Vec<Key>)
    ensures
        emitted@ == emitted_modifiers(keys@, kept@),
{
    let mut emitted: Vec<Key> = Vec::new();
    let mut i: usize = 0;
    while i < keys.len()
        invariant
            i <= keys.len(),
            emitted@ == emitted_modifiers(keys@.take(i as int), kept@),
        decreases keys.len() - i,
    {
        assert(keys@.take(i + 1).drop_last() =~= keys@.take(i as int));
        if keys[i].is_modifier_key() && !has_key(kept, keys[i]) {
            emitted.push(keys[i]);
        }
        i += 1;
    }
    assert(keys@.take(keys.len() as int) =~= keys@);
    emitted
}

} // verus!
