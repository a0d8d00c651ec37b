//! The translator's state as a mathematical value.

use vstd::prelude::*;
use crate::config::keymap::OverrideEntryView;
use crate::event::KeyValue;
use crate::key::Key;

verus! {

/// How long a prefix chord waits for its next key, in milliseconds.
pub const OVERRIDE_TIMEOUT_MS: u64 = 1000;

/// What the main loop is to do with the one-shot timer of the prefix state.
#[derive(Clone, Copy, Debug, PartialEq, Eq, Structural)]
pub enum TimerRequest {
    /// Start the timer anew, to expire after this many milliseconds.
    Arm(u64),
    /// Stop the timer.
    Disarm,
}

/// A key with two purposes that is down: what it stands for while held
/// together with another key, what it stands for when tapped alone, and
/// whether its press is still withheld because it is not yet known which of
/// the two it is.
#[derive(Clone, Copy, Debug, PartialEq, Eq, Structural)]
pub struct MultiPurposeKeyState {
    pub key: Key,
    pub held: Key,
    pub alone: Key,
    pub delayed: bool,
}

/// The state of the translator between two events.
pub struct HandlerView {
    /// The modifier keys that are held, physical and virtual, in the order
    /// in which they went down.
    pub modifiers: Seq<Key>,
    /// For each key that is down, the key that its press was turned into.
    pub pressed_keys: Map<u16, Key>,
    /// The keys with two purposes that are down, in the order in which they
    /// went down.
    pub multi_purpose_keys: Seq<MultiPurposeKeyState>,
    /// The nested remaps of the prefix state, empty when no prefix is
    /// pending.
    pub override_remaps: Seq<Map<u16, Seq<OverrideEntryView>>>,
    /// The key that opened the prefix state and is replayed when the prefix
    /// leads nowhere.
    pub override_timeout_key: Option<Key>,
    /// What the main loop has to do with the timer, if anything.
    pub timer: Option<TimerRequest>,
    pub mode: Seq<char>,
    pub mark_set: bool,
    pub escape_next_key: bool,
    /// Milliseconds to wait around the restoring of modifiers.
    pub keypress_delay: u64,
}

/// No two of `states` belong to the same key.
pub open spec fn distinct_multi_purpose(states: Seq<MultiPurposeKeyState>) -> bool {
    forall|i: int, j: int|
        0 <= i < j < states.len() ==> (#[trigger] states[i]).key != (#[trigger] states[j]).key
}

/// `keys` without every occurrence of `key`.
pub open spec fn without_key(keys: Seq<Key>, key: Key) -> Seq<Key>
    decreases keys.len(),
{
    if keys.len() == 0 {
        Seq::empty()
    } else if keys.last() == key {
        without_key(keys.drop_last(), key)
    } else {
        without_key(keys.drop_last(), key).push(keys.last())
    }
}

/// The held modifiers after `value` has happened to the modifier `key`: a
/// press adds the key unless it is there, a release removes it, a repeat
/// changes nothing.
pub open spec fn track_modifier(modifiers: Seq<Key>, key: Key, value: KeyValue) -> Seq<Key> {
    match value {
        KeyValue::Press => if modifiers.contains(key) {
            modifiers
        } else {
            modifiers.push(key)
        },
        KeyValue::Release => without_key(modifiers, key),
        KeyValue::Repeat => modifiers,
    }
}

impl HandlerView {
    /// The state of a translator that has seen no event.
    pub open spec fn initial(mode: Seq<char>, keypress_delay: u64) -> HandlerView {
        HandlerView {
            modifiers: Seq::empty(),
            pressed_keys: Map::empty(),
            multi_purpose_keys: Seq::empty(),
            override_remaps: Seq::empty(),
            override_timeout_key: None,
            timer: None,
            mode,
            mark_set: false,
            escape_next_key: false,
            keypress_delay,
        }
    }

    /// No key is listed twice among the held modifiers, nor among the keys
    /// with two purposes that are down.
    pub open spec fn wf(self) -> bool {
        &&& self.modifiers.no_duplicates()
        &&& distinct_multi_purpose(self.multi_purpose_keys)
    }

    /// The state after `value` has happened to the modifier `key`.
    pub open spec fn with_modifier(self, key: Key, value: KeyValue) -> HandlerView {
        HandlerView { modifiers: track_modifier(self.modifiers, key, value), ..self }
    }

    /// The state after the prefix state has been left: no nested remap, no
    /// key to replay, and the timer to be stopped.
    pub open spec fn without_override(self) -> HandlerView {
        HandlerView {
            override_remaps: Seq::empty(),
            override_timeout_key: None,
            timer: Some(TimerRequest::Disarm),
            ..self
        }
    }
}

/// Removing a key keeps the others in place and leaves no duplicate behind.
pub proof fn lemma_without_key(keys: Seq<Key>, key: Key)
    ensures
        !without_key(keys, key).contains(key),
        forall|k: Key| k != key ==> (without_key(keys, key).contains(k) <==> keys.contains(k)),
        keys.no_duplicates() ==> without_key(keys, key).no_duplicates(),
        without_key(keys, key).len() <= keys.len(),
    decreases keys.len(),
{
    if keys.len() > 0 {
        let rest = keys.drop_last();
        lemma_without_key(rest, key);
        let r = without_key(rest, key);
        assert(keys =~= rest.push(keys.last()));
        assert forall|k: Key| k != key implies (without_key(keys, key).contains(k)
            <==> keys.contains(k)) by {
            if keys.contains(k) {
                let i = choose|i: int| 0 <= i < keys.len() && keys[i] == k;
                if i < rest.len() {
                    assert(rest.contains(k));
                    let j = choose|j: int| 0 <= j < r.len() && r[j] == k;
                    if keys.last() != key {
                        assert(r.push(keys.last())[j] == k);
                    }
                } else {
                    assert(r.push(k)[r.len() as int] == k);
                }
            }
            if without_key(keys, key).contains(k) {
                let w = without_key(keys, key);
                let j = choose|j: int| 0 <= j < w.len() && w[j] == k;
                if keys.last() == key || j != r.len() {
                    assert(rest.contains(k));
                }
            }
        }
        if keys.no_duplicates() && keys.last() != key {
            assert(!rest.contains(keys.last()));
        }
    }
}

/// Tracking a modifier keeps the list of held modifiers free of duplicates.
pub proof fn lemma_track_modifier_wf(modifiers: Seq<Key>, key: Key, value: KeyValue)
    requires
        modifiers.no_duplicates(),
    ensures
        track_modifier(modifiers, key, value).no_duplicates(),
{
    lemma_without_key(modifiers, key);
}

} // verus!
