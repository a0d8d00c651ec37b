//! The translation of events into actions, as a function on mathematical
//! values.  The translator in `event_handler` computes exactly this.

use vstd::prelude::*;
use crate::action::{key_action, ActionView};
use crate::config::key_press::{extra_modifiers, modifier_held, KeyPressView, Modifier, Side};
use crate::config::keymap::{
    entries_at, override_entries, BindingView, KeymapEntryView, OverrideEntryView,
};
use crate::config::keymap_action::KeymapActionView;
use crate::config::modmap::{modmap_action, ModmapActionView};
use crate::config::ConfigView;
use crate::emit::chord_actions;
use crate::event::{Event, KeyEvent, KeyValue, RelativeEvent};
use crate::key::{Key, DISGUISED_EVENT_OFFSETTER, MAX_DISGUISED_AXIS};
use crate::resolve::{select, unfiltered, Situation};
use crate::state::{HandlerView, MultiPurposeKeyState, TimerRequest, OVERRIDE_TIMEOUT_MS};

verus! {

/// The chord that `WithMark` emits: `chord` itself, or `chord` with Shift
/// while the mark is set and no Shift key is held.
pub open spec fn with_mark(st: HandlerView, chord: KeyPressView) -> KeyPressView {
    if st.mark_set && !modifier_held(Modifier::Shift(Side::Either), st.modifiers) {
        KeyPressView {
            key: chord.key,
            modifiers: chord.modifiers.push(Modifier::Shift(Side::Either)),
        }
    } else {
        chord
    }
}

/// The override table of a nested remap: under each key of a binding the
/// entries of the bindings with that key, in order.
pub open spec fn override_table(remap: Seq<BindingView>, exact_match: bool) -> Map<
    u16,
    Seq<OverrideEntryView>,
> {
    Map::new(
        |key: u16| override_entries(remap, exact_match, key).len() > 0,
        |key: u16| override_entries(remap, exact_match, key),
    )
}

/// The state after a nested remap has been opened by `key`.  Its table
/// joins those that are open; if none was, `key` becomes the key to replay
/// and the timer is to be started.
pub open spec fn with_override(
    st: HandlerView,
    table: Map<u16, Seq<OverrideEntryView>>,
    key: Key,
) -> HandlerView {
    if st.override_remaps.len() == 0 {
        HandlerView {
            override_remaps: st.override_remaps.push(table),
            override_timeout_key: Some(key),
            timer: Some(TimerRequest::Arm(OVERRIDE_TIMEOUT_MS)),
            ..st
        }
    } else {
        HandlerView { override_remaps: st.override_remaps.push(table), ..st }
    }
}

/// What one action of an entry does: the state after it and the actions it
/// emits.  `key` is the key that made the entry fire, `kept` the held
/// modifiers that a chord must leave alone, `exact_match` what a nested
/// remap hands on to its entries.  A `Remap` whose index is out of range
/// does nothing.
pub open spec fn run_action(
    st: HandlerView,
    cfg: ConfigView,
    action: KeymapActionView,
    kept: Seq<Key>,
    key: Key,
    exact_match: bool,
) -> (HandlerView, Seq<ActionView>) {
    match action {
        KeymapActionView::KeyPressAndRelease(chord) => (
            st,
            chord_actions(st.modifiers, chord, kept, st.keypress_delay),
        ),
        KeymapActionView::Remap(index) => if 0 <= index < cfg.remaps.len() {
            (
                with_override(st, override_table(cfg.remaps[index], exact_match), key),
                Seq::empty(),
            )
        } else {
            (st, Seq::empty())
        },
        KeymapActionView::Launch(command) => (st, seq![ActionView::Command(command)]),
        KeymapActionView::SetMode(mode) => (HandlerView { mode, ..st }, Seq::empty()),
        KeymapActionView::SetMark(set) => (HandlerView { mark_set: set, ..st }, Seq::empty()),
        KeymapActionView::WithMark(chord) => (
            st,
            chord_actions(st.modifiers, with_mark(st, chord), kept, st.keypress_delay),
        ),
        KeymapActionView::EscapeNextKey(escape) => (
            HandlerView { escape_next_key: escape, ..st },
            Seq::empty(),
        ),
    }
}

/// What a list of actions does, one after the other.
pub open spec fn run_actions(
    st: HandlerView,
    cfg: ConfigView,
    actions: Seq<KeymapActionView>,
    kept: Seq<Key>,
    key: Key,
    exact_match: bool,
) -> (HandlerView, Seq<ActionView>)
    decreases actions.len(),
{
    if actions.len() == 0 {
        (st, Seq::empty())
    } else {
        let (s1, a1) = run_actions(st, cfg, actions.drop_last(), kept, key, exact_match);
        let (s2, a2) = run_action(s1, cfg, actions.last(), kept, key, exact_match);
        (s2, a1 + a2)
    }
}

/// What the entries `entries[fired[0]]`, `entries[fired[1]]`, ... do, one
/// after the other.  Each leaves alone the held modifiers that its own
/// chord does not name.
pub open spec fn run_entries(
    st: HandlerView,
    cfg: ConfigView,
    entries: Seq<KeymapEntryView>,
    fired: Seq<int>,
    key: Key,
) -> (HandlerView, Seq<ActionView>)
    decreases fired.len(),
{
    if fired.len() == 0 {
        (st, Seq::empty())
    } else {
        let (s1, a1) = run_entries(st, cfg, entries, fired.drop_last(), key);
        let entry = entries[fired.last()];
        let (s2, a2) = run_actions(
            s1,
            cfg,
            entry.actions,
            extra_modifiers(s1.modifiers, entry.modifiers),
            key,
            entry.exact_match,
        );
        (s2, a1 + a2)
    }
}

/// The entries that the open nested remaps hold for `key`: those of each
/// table in the order in which the tables were opened.
pub open spec fn override_candidates(
    overrides: Seq<Map<u16, Seq<OverrideEntryView>>>,
    key: u16,
) -> Seq<KeymapEntryView>
    decreases overrides.len(),
{
    if overrides.len() == 0 {
        Seq::empty()
    } else {
        override_candidates(overrides.drop_last(), key) + entries_at(
            overrides.last(),
            key,
        ).map_values(|e: OverrideEntryView| unfiltered(e))
    }
}

/// A press and a release of `key`, or nothing where there is no key.
pub open spec fn replay_actions(key: Option<Key>) -> Seq<ActionView> {
    match key {
        Some(k) => seq![key_action(k, KeyValue::Press), key_action(k, KeyValue::Release)],
        None => Seq::empty(),
    }
}

/// What the lookup of a key depends on, taken from the state.
pub open spec fn situation(st: HandlerView, application: Option<Seq<char>>) -> Situation {
    Situation { pressed: st.modifiers, mode: st.mode, application }
}

/// Resolves the press of `key` against the keymap table.  `before` is what
/// has been emitted for the press so far.  The result says whether an entry
/// fired.
pub open spec fn resolve_in_table(
    st: HandlerView,
    cfg: ConfigView,
    key: Key,
    application: Option<Seq<char>>,
    before: Seq<ActionView>,
) -> (HandlerView, Seq<ActionView>, bool) {
    let entries = entries_at(cfg.keymap_table, key.0);
    let fired = select(entries, situation(st, application));
    if fired.len() > 0 {
        let (s, a) = run_entries(st, cfg, entries, fired, key);
        (s, before + a, true)
    } else {
        (st, before, false)
    }
}

/// Resolves the press of the key `key`, which is no modifier.
///
/// While nested remaps are open they are asked first, and closed.  If they
/// hold entries for the key and one fires, it runs.  If they hold entries
/// and none fires, the prefix is dropped and the keymap table is asked.  If
/// they hold no entry for the key, the key that opened them is replayed and
/// the keymap table is asked.  The result says whether an entry fired.
pub open spec fn resolve_press(
    st: HandlerView,
    cfg: ConfigView,
    key: Key,
    application: Option<Seq<char>>,
) -> (HandlerView, Seq<ActionView>, bool) {
    if st.override_remaps.len() > 0 {
        let candidates = override_candidates(st.override_remaps, key.0);
        let closed = st.without_override();
        if candidates.len() > 0 {
            let fired = select(candidates, situation(st, application));
            if fired.len() > 0 {
                let (s, a) = run_entries(closed, cfg, candidates, fired, key);
                (s, a, true)
            } else {
                resolve_in_table(closed, cfg, key, application, Seq::empty())
            }
        } else {
            resolve_in_table(
                closed,
                cfg,
                key,
                application,
                replay_actions(st.override_timeout_key),
            )
        }
    } else {
        resolve_in_table(st, cfg, key, application, Seq::empty())
    }
}

/// Handles one key event that the modmap pass has produced for `event`.
///
/// A virtual modifier is tracked and swallowed.  A physical modifier is
/// tracked and written.  The press of another key is written untranslated
/// if the escape is set, which clears it; else it is resolved, and written
/// only if no entry fires.  Everything else is written as it is.  A
/// synthetic key that stands for pointer motion is never written: where it
/// would be, the result says so instead.
pub open spec fn step_pair(
    st: HandlerView,
    cfg: ConfigView,
    key: Key,
    value: KeyValue,
    event: KeyEvent,
    application: Option<Seq<char>>,
) -> (HandlerView, Seq<ActionView>, bool) {
    if cfg.virtual_modifiers.contains(key) {
        (st.with_modifier(key, value), Seq::empty(), false)
    } else {
        let (s, a, handled) = if key.is_modifier() {
            (st.with_modifier(key, value), Seq::<ActionView>::empty(), false)
        } else if value == KeyValue::Press {
            if st.escape_next_key {
                (HandlerView { escape_next_key: false, ..st }, Seq::<ActionView>::empty(), false)
            } else {
                resolve_press(st, cfg, key, application)
            }
        } else {
            (st, Seq::<ActionView>::empty(), false)
        };
        if handled {
            (s, a, false)
        } else if key.is_disguised() && key == event.key && value == event.value {
            (s, a, true)
        } else {
            (s, a.push(key_action(key, value)), false)
        }
    }
}

/// Handles the key events that the modmap pass has produced for `event`,
/// one after the other.  The flag says whether one of them was a synthetic
/// key that passed untranslated.
pub open spec fn step_pairs(
    st: HandlerView,
    cfg: ConfigView,
    pairs: Seq<(Key, KeyValue)>,
    event: KeyEvent,
    application: Option<Seq<char>>,
) -> (HandlerView, Seq<ActionView>, bool)
    decreases pairs.len(),
{
    if pairs.len() == 0 {
        (st, Seq::empty(), false)
    } else {
        let (s1, a1, f1) = step_pairs(st, cfg, pairs.drop_last(), event, application);
        let (s2, a2, f2) = step_pair(s1, cfg, pairs.last().0, pairs.last().1, event, application);
        (s2, a1 + a2, f1 || f2)
    }
}

/// The index of the first of `states[from..]` that belongs to `key`, or the
/// length of `states` if none does.
pub open spec fn multi_purpose_index(states: Seq<MultiPurposeKeyState>, key: Key, from: int) -> int
    decreases states.len() - from,
{
    if from >= states.len() {
        states.len() as int
    } else if states[from].key == key {
        from
    } else {
        multi_purpose_index(states, key, from + 1)
    }
}

/// `states` without those that belong to `key`.
pub open spec fn without_multi_purpose(states: Seq<MultiPurposeKeyState>, key: Key) -> Seq<
    MultiPurposeKeyState,
>
    decreases states.len(),
{
    if states.len() == 0 {
        Seq::empty()
    } else if states.last().key == key {
        without_multi_purpose(states.drop_last(), key)
    } else {
        without_multi_purpose(states.drop_last(), key).push(states.last())
    }
}

/// What an event of a key with two purposes becomes.  Its press is
/// withheld.  Its repeat repeats what it is held as, once that has been
/// pressed.  Its release releases what it is held as if that has been
/// pressed, and else taps what it is alone.  An event of a key that is not
/// known to be down stays as it is.
pub open spec fn multi_purpose_step(
    st: HandlerView,
    event: KeyEvent,
    held: Key,
    alone: Key,
) -> (HandlerView, Seq<(Key, KeyValue)>) {
    let i = multi_purpose_index(st.multi_purpose_keys, event.key, 0);
    match event.value {
        KeyValue::Press => (
            HandlerView {
                multi_purpose_keys: without_multi_purpose(st.multi_purpose_keys, event.key).push(
                    MultiPurposeKeyState { key: event.key, held, alone, delayed: true },
                ),
                ..st
            },
            Seq::empty(),
        ),
        KeyValue::Repeat => if i < st.multi_purpose_keys.len() {
            (
                st,
                if st.multi_purpose_keys[i].delayed {
                    Seq::empty()
                } else {
                    seq![(st.multi_purpose_keys[i].held, KeyValue::Repeat)]
                },
            )
        } else {
            (st, seq![(event.key, event.value)])
        },
        KeyValue::Release => if i < st.multi_purpose_keys.len() {
            (
                HandlerView {
                    multi_purpose_keys: without_multi_purpose(st.multi_purpose_keys, event.key),
                    ..st
                },
                if st.multi_purpose_keys[i].delayed {
                    seq![
                        (st.multi_purpose_keys[i].alone, KeyValue::Press),
                        (st.multi_purpose_keys[i].alone, KeyValue::Release),
                    ]
                } else {
                    seq![(st.multi_purpose_keys[i].held, KeyValue::Release)]
                },
            )
        } else {
            (st, seq![(event.key, event.value)])
        },
    }
}

/// The modmap pass: what `event` becomes.  A key that no modmap binds stays
/// as it is.  A key bound to keys becomes one event of each.  A key with
/// two purposes becomes what `multi_purpose_step` says.  A key with hooks
/// runs the hook of a press or of a release, and stays as it is.
pub open spec fn apply_modmap(
    st: HandlerView,
    cfg: ConfigView,
    event: KeyEvent,
    application: Option<Seq<char>>,
) -> (HandlerView, Seq<ActionView>, Seq<(Key, KeyValue)>) {
    match modmap_action(cfg.modmap, event.key, application) {
        None => (st, Seq::empty(), seq![(event.key, event.value)]),
        Some(ModmapActionView::Keys(keys)) => (
            st,
            Seq::empty(),
            Seq::new(keys.len(), |i: int| (keys[i], event.value)),
        ),
        Some(ModmapActionView::MultiPurposeKey { held, alone }) => {
            let (s, pairs) = multi_purpose_step(st, event, held, alone);
            (s, Seq::empty(), pairs)
        },
        Some(ModmapActionView::PressReleaseKey { press, release }) => {
            let (s, a) = match event.value {
                KeyValue::Press => run_actions(st, cfg, press, Seq::empty(), event.key, false),
                KeyValue::Release => run_actions(
                    st,
                    cfg,
                    release,
                    Seq::empty(),
                    event.key,
                    false,
                ),
                KeyValue::Repeat => (st, Seq::empty()),
            };
            (s, a, seq![(event.key, event.value)])
        },
    }
}

/// Whether one of `pairs` is a press.
pub open spec fn has_press(pairs: Seq<(Key, KeyValue)>) -> bool {
    exists|i: int| 0 <= i < pairs.len() && (#[trigger] pairs[i]).1 == KeyValue::Press
}

/// What the keys with two purposes whose press is withheld are held as, in
/// the order in which the keys went down.
pub open spec fn forced_keys(states: Seq<MultiPurposeKeyState>) -> Seq<Key>
    decreases states.len(),
{
    if states.len() == 0 {
        Seq::empty()
    } else if states.last().delayed {
        forced_keys(states.drop_last()).push(states.last().held)
    } else {
        forced_keys(states.drop_last())
    }
}

/// `states` with no press withheld any longer.
pub open spec fn all_held(states: Seq<MultiPurposeKeyState>) -> Seq<MultiPurposeKeyState> {
    states.map_values(|s: MultiPurposeKeyState| MultiPurposeKeyState { delayed: false, ..s })
}

/// `pairs` without the presses of the keys of `forced`.
pub open spec fn unforced(pairs: Seq<(Key, KeyValue)>, forced: Seq<Key>) -> Seq<(Key, KeyValue)>
    decreases pairs.len(),
{
    if pairs.len() == 0 {
        Seq::empty()
    } else if pairs.last().1 == KeyValue::Press && forced.contains(pairs.last().0) {
        unforced(pairs.drop_last(), forced)
    } else {
        unforced(pairs.drop_last(), forced).push(pairs.last())
    }
}

/// The presses of `keys`, in order.
pub open spec fn presses(keys: Seq<Key>) -> Seq<(Key, KeyValue)> {
    Seq::new(keys.len(), |i: int| (keys[i], KeyValue::Press))
}

/// Decides the keys with two purposes that are down when another key is
/// pressed: each whose press is withheld is now held, and what it is held
/// as is pressed before the other key, which is not pressed again if it is
/// the same.
pub open spec fn flush_delayed(st: HandlerView, pairs: Seq<(Key, KeyValue)>) -> (
    HandlerView,
    Seq<(Key, KeyValue)>,
) {
    if st.multi_purpose_keys.len() > 0 && has_press(pairs) {
        let forced = forced_keys(st.multi_purpose_keys);
        (
            HandlerView { multi_purpose_keys: all_held(st.multi_purpose_keys), ..st },
            presses(forced) + unforced(pairs, forced),
        )
    } else {
        (st, pairs)
    }
}

/// Keeps the record of what each key that is down was turned into, so that
/// its repeat and its release become those of the same key even if the
/// modmaps have meanwhile come to apply differently.  Only a key that the
/// modmap pass turned into one event is recorded.
pub open spec fn maintain_pressed_keys(
    st: HandlerView,
    event: KeyEvent,
    pairs: Seq<(Key, KeyValue)>,
) -> (HandlerView, Seq<(Key, KeyValue)>) {
    if pairs.len() != 1 {
        (st, pairs)
    } else {
        match event.value {
            KeyValue::Press => (
                HandlerView {
                    pressed_keys: st.pressed_keys.insert(event.key.0, pairs[0].0),
                    ..st
                },
                pairs,
            ),
            KeyValue::Repeat => (
                st,
                if st.pressed_keys.contains_key(event.key.0) {
                    seq![(st.pressed_keys[event.key.0], event.value)]
                } else {
                    pairs
                },
            ),
            KeyValue::Release => (
                HandlerView { pressed_keys: st.pressed_keys.remove(event.key.0), ..st },
                if st.pressed_keys.contains_key(event.key.0) {
                    seq![(st.pressed_keys[event.key.0], event.value)]
                } else {
                    pairs
                },
            ),
        }
    }
}

/// Translates one key event.  The flag says whether the event was a
/// synthetic key that passed untranslated.
pub open spec fn step_key(
    st: HandlerView,
    cfg: ConfigView,
    event: KeyEvent,
    application: Option<Seq<char>>,
) -> (HandlerView, Seq<ActionView>, bool) {
    let (s1, a1, pairs) = apply_modmap(st, cfg, event, application);
    let (s2, kept_pairs) = maintain_pressed_keys(s1, event, pairs);
    let (s3, flushed_pairs) = flush_delayed(s2, kept_pairs);
    let (s4, a4, unchanged) = step_pairs(s3, cfg, flushed_pairs, event, application);
    (s4, a1 + a4, unchanged)
}

/// The synthetic key that stands for motion along an axis: an even code for
/// motion in the positive direction (or none), the next odd code for motion
/// in the negative direction.
pub open spec fn disguised_key(event: RelativeEvent) -> Key {
    Key(
        (DISGUISED_EVENT_OFFSETTER + 2 * event.code + if event.value < 0 {
            1int
        } else {
            0int
        }) as u16,
    )
}

/// Translates motion along a relative axis: the state after it, the actions
/// it emits, and the motion that is left to write.  The motion is handled
/// as a press and a release of its synthetic key.  If the press passes
/// untranslated the motion itself is left to write.  An axis without
/// synthetic keys is left to write as it is.
pub open spec fn step_relative(
    st: HandlerView,
    cfg: ConfigView,
    event: RelativeEvent,
    application: Option<Seq<char>>,
) -> (HandlerView, Seq<ActionView>, Seq<RelativeEvent>) {
    if event.code > MAX_DISGUISED_AXIS {
        (st, Seq::empty(), seq![event])
    } else {
        let key = disguised_key(event);
        let (s1, a1, unchanged) = step_key(
            st,
            cfg,
            KeyEvent { key, value: KeyValue::Press },
            application,
        );
        let (s2, a2, _) = step_key(s1, cfg, KeyEvent { key, value: KeyValue::Release }, application);
        (
            s2,
            a1 + a2,
            if unchanged {
                seq![event]
            } else {
                Seq::empty()
            },
        )
    }
}

/// What the expiry of the prefix timer does: the key that opened the prefix
/// state is replayed and the state is left.
pub open spec fn step_timeout(st: HandlerView) -> (HandlerView, Seq<ActionView>) {
    (st.without_override(), replay_actions(st.override_timeout_key))
}

/// Translates one event: the state after it, the actions it emits, and the
/// pointer motion that is left to write.
pub open spec fn step(
    st: HandlerView,
    cfg: ConfigView,
    event: Event,
    application: Option<Seq<char>>,
) -> (HandlerView, Seq<ActionView>, Seq<RelativeEvent>) {
    match event {
        Event::KeyEvent(e) => {
            let (s, a, _) = step_key(st, cfg, e, application);
            (s, a, Seq::empty())
        },
        Event::RelativeEvent(e) => step_relative(st, cfg, e, application),
        Event::OtherEvents(e) => (st, seq![ActionView::InputEvent(e)], Seq::empty()),
        Event::OverrideTimeout => {
            let (s, a) = step_timeout(st);
            (s, a, Seq::empty())
        },
    }
}

/// Translates a list of events, `applications[i]` having the focus when
/// `events[i]` is handled.
pub open spec fn run_events(
    st: HandlerView,
    cfg: ConfigView,
    events: Seq<Event>,
    applications: Seq<Option<Seq<char>>>,
) -> (HandlerView, Seq<ActionView>, Seq<RelativeEvent>)
    decreases events.len(),
{
    if events.len() == 0 {
        (st, Seq::empty(), Seq::empty())
    } else {
        let (s1, a1, m1) = run_events(st, cfg, events.drop_last(), applications, );
        let (s2, a2, m2) = step(
            s1,
            cfg,
            events.last(),
            applications[events.len() - 1],
        );
        (s2, a1 + a2, m1 + m2)
    }
}

/// The one action that writes the pointer motion left over, if any is.
pub open spec fn flush_motion(motion: Seq<RelativeEvent>) -> Seq<ActionView> {
    if motion.len() > 0 {
        seq![ActionView::MouseMovementEventCollection(motion)]
    } else {
        Seq::empty()
    }
}

/// One invocation of the translator: the state after `events` and the
/// actions for them.  All pointer motion that passes untranslated is
/// written by one action, the last.
pub open spec fn translate(
    st: HandlerView,
    cfg: ConfigView,
    events: Seq<Event>,
    applications: Seq<Option<Seq<char>>>,
) -> (HandlerView, Seq<ActionView>) {
    let (s, a, m) = run_events(st, cfg, events, applications);
    (s, a + flush_motion(m))
}

} // verus!
