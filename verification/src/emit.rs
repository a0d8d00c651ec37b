//! Emitting a chord downstream while other modifiers are held.

use vstd::prelude::*;
use crate::action::{key_action, key_actions, Action, ActionView};
use crate::config::key_press::{
    diff_modifiers, emitted_modifiers, extra_modifiers, missing_modifiers, modifiers_to_emit,
    KeyPress, KeyPressView,
};
use crate::event::{KeyEvent, KeyValue};
use crate::key::Key;
use crate::text::{lemma_views_push, views};

verus! {

/// The held physical modifier keys that are released while `chord` is
/// emitted: those that the chord does not name, but for the keys of `kept`.
pub open spec fn shadowed_keys(pressed: Seq<Key>, chord: KeyPressView, kept: Seq<Key>) -> Seq<Key> {
    emitted_modifiers(extra_modifiers(pressed, chord.modifiers), kept)
}

/// The physical modifier keys that are pressed while `chord` is emitted:
/// one for each modifier of the chord that is not held.
pub open spec fn augmented_keys(pressed: Seq<Key>, chord: KeyPressView) -> Seq<Key> {
    emitted_modifiers(missing_modifiers(pressed, chord.modifiers), Seq::empty())
}

/// The actions that emit `chord` while `pressed` is held.  The modifiers
/// that the chord needs go down, the held ones that it does not name go up,
/// the key is pressed and released; after a delay the released modifiers go
/// down again, and after another delay the added ones go up.
pub open spec fn chord_actions(
    pressed: Seq<Key>,
    chord: KeyPressView,
    kept: Seq<Key>,
    delay: u64,
) -> Seq<ActionView> {
    let shadowed = shadowed_keys(pressed, chord, kept);
    let augmented = augmented_keys(pressed, chord);
    key_actions(augmented, KeyValue::Press) + key_actions(shadowed, KeyValue::Release) + seq![
        key_action(chord.key, KeyValue::Press),
        key_action(chord.key, KeyValue::Release),
        ActionView::Delay(delay),
    ] + key_actions(shadowed, KeyValue::Press) + seq![ActionView::Delay(delay)] + key_actions(
        augmented,
        KeyValue::Release,
    )
}

/// Appends an action.
pub fn send_action(actions: &mut Vec<Action>, action: Action)
    ensures
        views(final(actions)@) == views(old(actions)@).push(action@),
{
    proof {
        lemma_views_push(actions@, action);
    }
    actions.push(action);
}

/// Appends the action that writes `value` for `key`.
pub fn send_key(actions: &mut Vec<Action>, key: Key, value: KeyValue)
    ensures
        views(final(actions)@) == views(old(actions)@).push(key_action(key, value)),
{
    send_action(actions, Action::KeyEvent(KeyEvent { key, value }));
}

/// Appends, for each of `keys` in order, the action that writes `value`.
pub fn send_keys(actions: &mut Vec<Action>, keys: &Vec<Key>, value: KeyValue)
    ensures
        views(final(actions)@) == views(old(actions)@) + key_actions(keys@, value),
{
    let mut i: usize = 0;
    while i < keys.len()
        invariant
            i <= keys.len(),
            views(actions@) == views(old(actions)@) + key_actions(keys@.take(i as int), value),
        decreases keys.len() - i,
    {
        send_key(actions, keys[i], value);
        i += 1;
    }
}

/// Appends the actions that emit `chord` while `pressed` is held, leaving
/// the keys of `kept` alone.
pub fn send_key_press_and_release(
    actions: &mut Vec<Action>,
    pressed: &Vec<Key>,
    chord: &KeyPress,
    kept: &Vec<Key>,
    delay: u64,
)
    ensures
        views(final(actions)@) == views(old(actions)@) + chord_actions(
            pressed@,
            chord@,
            kept@,
            delay,
        ),
{
    let (extra, missing) = diff_modifiers(pressed, &chord.modifiers);
    let shadowed: Vec<Key> = modifiers_to_emit(&extra, kept);
    let nothing: Vec<Key> = Vec::new();
    let augmented: Vec<Key> = modifiers_to_emit(&missing, &nothing);
    send_keys(actions, &augmented, KeyValue::Press);
    send_keys(actions, &shadowed, KeyValue::Release);
    send_key(actions, chord.key, KeyValue::Press);
    send_key(actions, chord.key, KeyValue::Release);
    send_action(actions, Action::Delay(delay));
    send_keys(actions, &shadowed, KeyValue::Press);
    send_action(actions, Action::Delay(delay));
    send_keys(actions, &augmented, KeyValue::Release);
}

/// How often `key` is pressed in `actions`, less how often it is released.
pub open spec fn balance(actions: Seq<ActionView>, key: Key) -> int
    decreases actions.len(),
{
    if actions.len() == 0 {
        0
    } else {
        balance(actions.drop_last(), key) + match actions.last() {
            ActionView::KeyEvent(e) => if e.key != key {
                0int
            } else {
                match e.value {
                    KeyValue::Press => 1int,
                    KeyValue::Release => -1int,
                    KeyValue::Repeat => 0int,
                }
            },
            _ => 0int,
        }
    }
}

/// The balance of two lists of actions, one after the other, is the sum of
/// their balances.
pub proof fn lemma_balance_concat(a: Seq<ActionView>, b: Seq<ActionView>, key: Key)
    ensures
        balance(a + b, key) == balance(a, key) + balance(b, key),
    decreases b.len(),
{
    if b.len() > 0 {
        assert((a + b).drop_last() =~= a + b.drop_last());
        lemma_balance_concat(a, b.drop_last(), key);
    }
}

/// Pressing a list of keys and releasing the same list cancel out.
pub proof fn lemma_balance_press_release(keys: Seq<Key>, key: Key)
    ensures
        balance(key_actions(keys, KeyValue::Press), key) + balance(
            key_actions(keys, KeyValue::Release),
            key,
        ) == 0,
    decreases keys.len(),
{
    if keys.len() > 0 {
        lemma_balance_press_release(keys.drop_last(), key);
        assert(key_actions(keys, KeyValue::Press).drop_last() =~= key_actions(
            keys.drop_last(),
            KeyValue::Press,
        ));
        assert(key_actions(keys, KeyValue::Release).drop_last() =~= key_actions(
            keys.drop_last(),
            KeyValue::Release,
        ));
    }
}

/// Emitting a chord releases every key as often as it presses it.
pub proof fn lemma_chord_balanced(
    pressed: Seq<Key>,
    chord: KeyPressView,
    kept: Seq<Key>,
    delay: u64,
    key: Key,
)
    ensures
        balance(chord_actions(pressed, chord, kept, delay), key) == 0,
{
    let shadowed = shadowed_keys(pressed, chord, kept);
    let augmented = augmented_keys(pressed, chord);
    let a1 = key_actions(augmented, KeyValue::Press);
    let a2 = key_actions(shadowed, KeyValue::Release);
    let a3 = seq![
        key_action(chord.key, KeyValue::Press),
        key_action(chord.key, KeyValue::Release),
        ActionView::Delay(delay),
    ];
    let a4 = key_actions(shadowed, KeyValue::Press);
    let a5 = seq![ActionView::Delay(delay)];
    let a6 = key_actions(augmented, KeyValue::Release);
    lemma_balance_concat(a1, a2, key);
    lemma_balance_concat(a1 + a2, a3, key);
    lemma_balance_concat(a1 + a2 + a3, a4, key);
    lemma_balance_concat(a1 + a2 + a3 + a4, a5, key);
    lemma_balance_concat(a1 + a2 + a3 + a4 + a5, a6, key);
    lemma_balance_press_release(shadowed, key);
    lemma_balance_press_release(augmented, key);
    assert(balance(a5, key) == 0) by {
        reveal_with_fuel(balance, 2);
    }
    assert(balance(a3, key) == 0) by {
        reveal_with_fuel(balance, 4);
    }
}

/// The keys that are down downstream after `actions`, if the keys of `down`
/// were down before.
pub open spec fn held_after(down: Set<Key>, actions: Seq<ActionView>) -> Set<Key>
    decreases actions.len(),
{
    if actions.len() == 0 {
        down
    } else {
        let before = held_after(down, actions.drop_last());
        match actions.last() {
            ActionView::KeyEvent(e) => match e.value {
                KeyValue::Press => before.insert(e.key),
                KeyValue::Release => before.remove(e.key),
                KeyValue::Repeat => before,
            },
            _ => before,
        }
    }
}

/// No action of `actions` presses a physical modifier key that is down
/// downstream when the action is carried out, if the keys of `down` were
/// down before.
pub open spec fn no_repress(down: Set<Key>, actions: Seq<ActionView>) -> bool
    decreases actions.len(),
{
    actions.len() == 0 || (no_repress(down, actions.drop_last()) && match actions.last() {
        ActionView::KeyEvent(e) => !(e.value == KeyValue::Press && e.key.is_modifier()
            && held_after(down, actions.drop_last()).contains(e.key)),
        _ => true,
    })
}

/// What is down after two lists of actions is what is down after the second
/// when it starts from what is down after the first; and neither presses a
/// modifier again exactly when the two together do not.
pub proof fn lemma_downstream_concat(down: Set<Key>, a: Seq<ActionView>, b: Seq<ActionView>)
    ensures
        held_after(down, a + b) == held_after(held_after(down, a), b),
        no_repress(down, a + b) == (no_repress(down, a) && no_repress(held_after(down, a), b)),
    decreases b.len(),
{
    if b.len() > 0 {
        assert((a + b).drop_last() =~= a + b.drop_last());
        lemma_downstream_concat(down, a, b.drop_last());
    }
}

/// Pressing keys of which none is down and none is listed twice presses no
/// modifier again, and afterwards they are down as well.
pub proof fn lemma_press_keys(down: Set<Key>, keys: Seq<Key>)
    requires
        keys.no_duplicates(),
        forall|i: int| 0 <= i < keys.len() ==> !down.contains(#[trigger] keys[i]),
    ensures
        no_repress(down, key_actions(keys, KeyValue::Press)),
        forall|k: Key|
            #[trigger] held_after(down, key_actions(keys, KeyValue::Press)).contains(k) <==> (
            down.contains(k) || keys.contains(k)),
    decreases keys.len(),
{
    let all = key_actions(keys, KeyValue::Press);
    if keys.len() > 0 {
        let rest = keys.drop_last();
        assert(all.drop_last() =~= key_actions(rest, KeyValue::Press));
        lemma_press_keys(down, rest);
        let before = held_after(down, key_actions(rest, KeyValue::Press));
        assert(!before.contains(keys.last())) by {
            if rest.contains(keys.last()) {
                let i = choose|i: int| 0 <= i < rest.len() && rest[i] == keys.last();
            }
        }
        assert forall|k: Key| held_after(down, all).contains(k) <==> (down.contains(k)
            || keys.contains(k)) by {
            if keys.contains(k) {
                let i = choose|i: int| 0 <= i < keys.len() && keys[i] == k;
                if i < rest.len() {
                    assert(rest[i] == k);
                }
            }
        }
    }
}

/// Releasing keys presses no modifier, and afterwards none of them is down.
pub proof fn lemma_release_keys(down: Set<Key>, keys: Seq<Key>)
    ensures
        no_repress(down, key_actions(keys, KeyValue::Release)),
        forall|k: Key|
            #[trigger] held_after(down, key_actions(keys, KeyValue::Release)).contains(k) <==> (
            down.contains(k) && !keys.contains(k)),
    decreases keys.len(),
{
    let all = key_actions(keys, KeyValue::Release);
    if keys.len() > 0 {
        let rest = keys.drop_last();
        assert(all.drop_last() =~= key_actions(rest, KeyValue::Release));
        lemma_release_keys(down, rest);
        let before = held_after(down, key_actions(rest, KeyValue::Release));
        assert forall|k: Key| held_after(down, all).contains(k) <==> (down.contains(k)
            && !keys.contains(k)) by {
            if keys.contains(k) {
                let i = choose|i: int| 0 <= i < keys.len() && keys[i] == k;
                if i < rest.len() {
                    assert(rest[i] == k);
                }
            }
        }
    }
}

/// The keys that a chord toggles are physical modifier keys of the list
/// they are taken from, none of them in `kept`, and none listed twice if
/// none is in that list.
pub proof fn lemma_emitted_modifiers(keys: Seq<Key>, kept: Seq<Key>)
    ensures
        forall|k: Key|
            #[trigger] emitted_modifiers(keys, kept).contains(k) <==> (keys.contains(k)
                && k.is_modifier() && !kept.contains(k)),
        keys.no_duplicates() ==> emitted_modifiers(keys, kept).no_duplicates(),
    decreases keys.len(),
{
    let all = emitted_modifiers(keys, kept);
    if keys.len() > 0 {
        let rest = keys.drop_last();
        let r = emitted_modifiers(rest, kept);
        lemma_emitted_modifiers(rest, kept);
        assert forall|k: Key| #[trigger] all.contains(k) <==> (keys.contains(k) && k.is_modifier()
            && !kept.contains(k)) by {
            if keys.contains(k) {
                let i = choose|i: int| 0 <= i < keys.len() && keys[i] == k;
                if i < rest.len() {
                    assert(rest[i] == k);
                } else if k.is_modifier() && !kept.contains(k) {
                    assert(all[all.len() - 1] == k);
                }
            }
            if rest.contains(k) {
                let i = choose|i: int| 0 <= i < rest.len() && rest[i] == k;
            }
            if r.contains(k) {
                let i = choose|i: int| 0 <= i < r.len() && r[i] == k;
                assert(all[i] == k);
            }
        }
        if keys.no_duplicates() {
            assert(!r.contains(keys.last()));
        }
    }
}

/// The held keys that a chord does not name are held keys, and none is
/// listed twice if no held key is.
pub proof fn lemma_extra_modifiers(pressed: Seq<Key>, required: Seq<crate::config::key_press::Modifier>)
    ensures
        forall|k: Key|
            #[trigger] extra_modifiers(pressed, required).contains(k) ==> pressed.contains(k),
        pressed.no_duplicates() ==> extra_modifiers(pressed, required).no_duplicates(),
    decreases pressed.len(),
{
    let all = extra_modifiers(pressed, required);
    if pressed.len() > 0 {
        let rest = pressed.drop_last();
        let r = extra_modifiers(rest, required);
        lemma_extra_modifiers(rest, required);
        assert forall|k: Key| all.contains(k) implies pressed.contains(k) by {
            let i = choose|i: int| 0 <= i < all.len() && all[i] == k;
            if i < r.len() {
                assert(r.contains(k));
            }
        }
        if pressed.no_duplicates() {
            assert(!rest.contains(pressed.last()));
            assert(!r.contains(pressed.last()));
        }
    }
}

/// Emitting a chord whose key is no modifier never presses a modifier that
/// is down, and leaves downstream exactly the modifiers down that were down
/// before: those it releases it presses again, and those it presses it
/// releases.  This holds where downstream the physical modifier keys that
/// are down are those that the translator has as held.
pub proof fn lemma_chord_never_represses(
    pressed: Seq<Key>,
    chord: KeyPressView,
    kept: Seq<Key>,
    delay: u64,
    down: Set<Key>,
)
    requires
        pressed.no_duplicates(),
        forall|k: Key| k.is_modifier() ==> (down.contains(k) <==> pressed.contains(k)),
        !chord.key.is_modifier(),
    ensures
        no_repress(down, chord_actions(pressed, chord, kept, delay)),
        forall|k: Key|
            k.is_modifier() ==> (held_after(
                down,
                chord_actions(pressed, chord, kept, delay),
            ).contains(k) <==> down.contains(k)),
{
    let shadowed = shadowed_keys(pressed, chord, kept);
    let augmented = augmented_keys(pressed, chord);
    let extra = extra_modifiers(pressed, chord.modifiers);
    let missing = missing_modifiers(pressed, chord.modifiers);
    let a1 = key_actions(augmented, KeyValue::Press);
    let a2 = key_actions(shadowed, KeyValue::Release);
    let a3 = seq![
        key_action(chord.key, KeyValue::Press),
        key_action(chord.key, KeyValue::Release),
        ActionView::Delay(delay),
    ];
    let a4 = key_actions(shadowed, KeyValue::Press);
    let a5 = seq![ActionView::Delay(delay)];
    let a6 = key_actions(augmented, KeyValue::Release);
    crate::resolve::lemma_no_missing(pressed, chord.modifiers);
    lemma_extra_modifiers(pressed, chord.modifiers);
    lemma_emitted_modifiers(extra, kept);
    lemma_emitted_modifiers(missing, Seq::empty());
    let d1 = held_after(down, a1);
    let d2 = held_after(d1, a2);
    let d3 = held_after(d2, a3);
    let d4 = held_after(d3, a4);
    let d5 = held_after(d4, a5);
    assert forall|i: int| 0 <= i < augmented.len() implies !down.contains(
        #[trigger] augmented[i],
    ) by {
        let k = augmented[i];
        assert(augmented.contains(k));
    }
    lemma_press_keys(down, augmented);
    lemma_release_keys(d1, shadowed);
    assert(d3 =~= d2.insert(chord.key).remove(chord.key) && no_repress(d2, a3)) by {
        reveal_with_fuel(held_after, 4);
        reveal_with_fuel(no_repress, 4);
    }
    lemma_press_keys(d3, shadowed);
    assert(d5 == d4 && no_repress(d4, a5)) by {
        reveal_with_fuel(held_after, 2);
        reveal_with_fuel(no_repress, 2);
    }
    lemma_release_keys(d5, augmented);
    lemma_downstream_concat(down, a1, a2);
    lemma_downstream_concat(down, a1 + a2, a3);
    lemma_downstream_concat(down, a1 + a2 + a3, a4);
    lemma_downstream_concat(down, a1 + a2 + a3 + a4, a5);
    lemma_downstream_concat(down, a1 + a2 + a3 + a4 + a5, a6);
}

} // verus!
