//! What holds of every translation.

use vstd::prelude::*;
use crate::action::{key_action, ActionView};
use crate::config::keymap::{entries_at, KeymapEntryView};
use crate::config::keymap_action::KeymapActionView;
use crate::config::modmap::{modmap_action, ModmapActionView};
use crate::config::ConfigView;
use crate::emit::{balance, lemma_balance_concat, lemma_chord_balanced};
use crate::event::{Event, KeyEvent, KeyValue, RelativeEvent};
use crate::key::Key;
use crate::resolve::select;
use crate::state::{
    distinct_multi_purpose, lemma_track_modifier_wf, HandlerView, MultiPurposeKeyState,
};
use crate::translate::{
    apply_modmap, flush_delayed, without_multi_purpose, maintain_pressed_keys, resolve_press,
    run_action, run_actions, run_entries, run_events, situation, step_key, step_pairs, translate,
    with_mark,
};

verus! {

/// What an action of an entry emits releases every key as often as it
/// presses it, and the action leaves the held modifiers as they are.
pub proof fn lemma_run_action_balanced(
    st: HandlerView,
    cfg: ConfigView,
    action: KeymapActionView,
    kept: Seq<Key>,
    key: Key,
    exact_match: bool,
    of: Key,
)
    ensures
        balance(run_action(st, cfg, action, kept, key, exact_match).1, of) == 0,
        run_action(st, cfg, action, kept, key, exact_match).0.modifiers == st.modifiers,
        run_action(st, cfg, action, kept, key, exact_match).0.pressed_keys == st.pressed_keys,
        run_action(st, cfg, action, kept, key, exact_match).0.multi_purpose_keys
            == st.multi_purpose_keys,
{
    match action {
        KeymapActionView::KeyPressAndRelease(chord) => {
            lemma_chord_balanced(st.modifiers, chord, kept, st.keypress_delay, of);
        },
        KeymapActionView::WithMark(chord) => {
            lemma_chord_balanced(st.modifiers, with_mark(st, chord), kept, st.keypress_delay, of);
        },
        KeymapActionView::Launch(command) => {
            reveal_with_fuel(balance, 2);
        },
        _ => {},
    }
}

/// What the actions of an entry emit releases every key as often as it
/// presses it, and they leave the held modifiers as they are.
pub proof fn lemma_run_actions_balanced(
    st: HandlerView,
    cfg: ConfigView,
    actions: Seq<KeymapActionView>,
    kept: Seq<Key>,
    key: Key,
    exact_match: bool,
    of: Key,
)
    ensures
        balance(run_actions(st, cfg, actions, kept, key, exact_match).1, of) == 0,
        run_actions(st, cfg, actions, kept, key, exact_match).0.modifiers == st.modifiers,
        run_actions(st, cfg, actions, kept, key, exact_match).0.pressed_keys == st.pressed_keys,
        run_actions(st, cfg, actions, kept, key, exact_match).0.multi_purpose_keys
            == st.multi_purpose_keys,
    decreases actions.len(),
{
    if actions.len() > 0 {
        lemma_run_actions_balanced(st, cfg, actions.drop_last(), kept, key, exact_match, of);
        let first = run_actions(st, cfg, actions.drop_last(), kept, key, exact_match);
        lemma_run_action_balanced(first.0, cfg, actions.last(), kept, key, exact_match, of);
        let second = run_action(first.0, cfg, actions.last(), kept, key, exact_match);
        lemma_balance_concat(first.1, second.1, of);
    }
}

/// Whatever entries fire, what they emit releases every key as often as it
/// presses it, and they leave the held modifiers as they are.
pub proof fn lemma_run_entries_balanced(
    st: HandlerView,
    cfg: ConfigView,
    entries: Seq<KeymapEntryView>,
    fired: Seq<int>,
    key: Key,
    of: Key,
)
    ensures
        balance(run_entries(st, cfg, entries, fired, key).1, of) == 0,
        run_entries(st, cfg, entries, fired, key).0.modifiers == st.modifiers,
        run_entries(st, cfg, entries, fired, key).0.pressed_keys == st.pressed_keys,
        run_entries(st, cfg, entries, fired, key).0.multi_purpose_keys == st.multi_purpose_keys,
    decreases fired.len(),
{
    if fired.len() > 0 {
        lemma_run_entries_balanced(st, cfg, entries, fired.drop_last(), key, of);
        let first = run_entries(st, cfg, entries, fired.drop_last(), key);
        let entry = entries[fired.last()];
        let kept = crate::config::key_press::extra_modifiers(first.0.modifiers, entry.modifiers);
        lemma_run_actions_balanced(first.0, cfg, entry.actions, kept, key, entry.exact_match, of);
        let second = run_actions(first.0, cfg, entry.actions, kept, key, entry.exact_match);
        lemma_balance_concat(first.1, second.1, of);
    }
}

/// Resolving a press leaves the held modifiers and the record of the keys
/// that are down as they are.
pub proof fn lemma_resolve_keeps_modifiers(
    st: HandlerView,
    cfg: ConfigView,
    key: Key,
    application: Option<Seq<char>>,
)
    ensures
        resolve_press(st, cfg, key, application).0.modifiers == st.modifiers,
        resolve_press(st, cfg, key, application).0.pressed_keys == st.pressed_keys,
        resolve_press(st, cfg, key, application).0.multi_purpose_keys == st.multi_purpose_keys,
{
    let closed = st.without_override();
    let candidates = crate::translate::override_candidates(st.override_remaps, key.0);
    lemma_run_entries_balanced(
        closed,
        cfg,
        candidates,
        select(candidates, situation(st, application)),
        key,
        key,
    );
    let entries = entries_at(cfg.keymap_table, key.0);
    lemma_run_entries_balanced(
        closed,
        cfg,
        entries,
        select(entries, situation(closed, application)),
        key,
        key,
    );
    lemma_run_entries_balanced(
        st,
        cfg,
        entries,
        select(entries, situation(st, application)),
        key,
        key,
    );
}

/// Handling the key events of one event keeps the lists of the state free
/// of duplicates.
pub proof fn lemma_step_pairs_wf(
    st: HandlerView,
    cfg: ConfigView,
    pairs: Seq<(Key, KeyValue)>,
    event: KeyEvent,
    application: Option<Seq<char>>,
)
    requires
        st.wf(),
    ensures
        step_pairs(st, cfg, pairs, event, application).0.wf(),
    decreases pairs.len(),
{
    if pairs.len() > 0 {
        lemma_step_pairs_wf(st, cfg, pairs.drop_last(), event, application);
        let s1 = step_pairs(st, cfg, pairs.drop_last(), event, application).0;
        lemma_track_modifier_wf(s1.modifiers, pairs.last().0, pairs.last().1);
        lemma_resolve_keeps_modifiers(s1, cfg, pairs.last().0, application);
    }
}

/// Dropping the states of a key leaves no state of the key, keeps the
/// others in their order, and keeps the keys distinct.
pub proof fn lemma_without_multi_purpose(states: Seq<MultiPurposeKeyState>, key: Key)
    ensures
        forall|i: int|
            0 <= i < without_multi_purpose(states, key).len() ==> (#[trigger] without_multi_purpose(
                states,
                key,
            )[i]).key != key && states.contains(without_multi_purpose(states, key)[i]),
        distinct_multi_purpose(states) ==> distinct_multi_purpose(
            without_multi_purpose(states, key),
        ),
    decreases states.len(),
{
    if states.len() > 0 {
        let rest = states.drop_last();
        lemma_without_multi_purpose(rest, key);
        let r = without_multi_purpose(rest, key);
        let all = without_multi_purpose(states, key);
    }
}

/// The modmap pass and what follows it before the key events are handled
/// keep the keys with two purposes distinct.
pub proof fn lemma_modmap_pass_wf(
    st: HandlerView,
    cfg: ConfigView,
    event: KeyEvent,
    application: Option<Seq<char>>,
)
    requires
        st.wf(),
    ensures
        flush_delayed(
            maintain_pressed_keys(
                apply_modmap(st, cfg, event, application).0,
                event,
                apply_modmap(st, cfg, event, application).2,
            ).0,
            maintain_pressed_keys(
                apply_modmap(st, cfg, event, application).0,
                event,
                apply_modmap(st, cfg, event, application).2,
            ).1,
        ).0.wf(),
{
    match modmap_action(cfg.modmap, event.key, application) {
        Some(ModmapActionView::PressReleaseKey { press, release }) => {
            lemma_run_actions_balanced(st, cfg, press, Seq::empty(), event.key, false, event.key);
            lemma_run_actions_balanced(st, cfg, release, Seq::empty(), event.key, false, event.key);
        },
        Some(ModmapActionView::MultiPurposeKey { held, alone }) => {
            lemma_without_multi_purpose(st.multi_purpose_keys, event.key);
        },
        _ => {},
    }
}

/// Translating a key event keeps the lists of the state free of
/// duplicates.
pub proof fn lemma_step_key_wf(
    st: HandlerView,
    cfg: ConfigView,
    event: KeyEvent,
    application: Option<Seq<char>>,
)
    requires
        st.wf(),
    ensures
        step_key(st, cfg, event, application).0.wf(),
{
    let (s1, a1, pairs) = apply_modmap(st, cfg, event, application);
    let (s2, kept_pairs) = maintain_pressed_keys(s1, event, pairs);
    let (s3, flushed_pairs) = flush_delayed(s2, kept_pairs);
    lemma_modmap_pass_wf(st, cfg, event, application);
    lemma_step_pairs_wf(s3, cfg, flushed_pairs, event, application);
}

/// The translator never lists a held modifier twice, nor a key with two
/// purposes that is down: translating events keeps the lists of the state
/// free of duplicates.
pub proof fn lemma_translate_wf(
    st: HandlerView,
    cfg: ConfigView,
    events: Seq<Event>,
    applications: Seq<Option<Seq<char>>>,
)
    requires
        st.wf(),
    ensures
        run_events(st, cfg, events, applications).0.wf(),
        translate(st, cfg, events, applications).0.wf(),
    decreases events.len(),
{
    if events.len() > 0 {
        lemma_translate_wf(st, cfg, events.drop_last(), applications);
        let s1 = run_events(st, cfg, events.drop_last(), applications).0;
        let application = applications[events.len() - 1];
        match events.last() {
            Event::KeyEvent(e) => {
                lemma_step_key_wf(s1, cfg, e, application);
            },
            Event::RelativeEvent(e) => {
                let key = crate::translate::disguised_key(e);
                let press = KeyEvent { key, value: KeyValue::Press };
                lemma_step_key_wf(s1, cfg, press, application);
                let s2 = step_key(s1, cfg, press, application).0;
                lemma_step_key_wf(s2, cfg, KeyEvent { key, value: KeyValue::Release }, application);
            },
            _ => {},
        }
    }
}

/// A key that nothing is bound to passes as it is.  Where no modmap applies
/// to the key of an event, the key is no virtual modifier and no synthetic
/// key, it went down as itself if it is down, no key with two purposes is
/// down, and its press fires no entry
/// (no prefix is pending and the keymap table lets none fire, or the escape
/// is set), the event is translated into the one action that writes it.
pub proof fn lemma_unbound_key_passes(
    st: HandlerView,
    cfg: ConfigView,
    event: KeyEvent,
    application: Option<Seq<char>>,
)
    requires
        modmap_action(cfg.modmap, event.key, application) is None,
        !cfg.virtual_modifiers.contains(event.key),
        !event.key.is_disguised(),
        st.pressed_keys.contains_key(event.key.0) ==> st.pressed_keys[event.key.0] == event.key,
        st.multi_purpose_keys.len() == 0,
        event.value == KeyValue::Press && !event.key.is_modifier() && !st.escape_next_key ==> {
            &&& st.override_remaps.len() == 0
            &&& select(entries_at(cfg.keymap_table, event.key.0), situation(st, application)).len()
                == 0
        },
    ensures
        step_key(st, cfg, event, application).1 == seq![key_action(event.key, event.value)],
{
    let pairs = seq![(event.key, event.value)];
    reveal_with_fuel(step_pairs, 2);
}

/// Whether an action writes pointer motion.
pub open spec fn is_motion(action: ActionView) -> bool {
    action is MouseMovementEventCollection
}

/// Whether no action of a list writes pointer motion.
pub open spec fn no_motion(actions: Seq<ActionView>) -> bool {
    forall|i: int| 0 <= i < actions.len() ==> !is_motion(#[trigger] actions[i])
}

/// What the actions of an entry emit writes no pointer motion.
pub proof fn lemma_run_actions_no_motion(
    st: HandlerView,
    cfg: ConfigView,
    actions: Seq<KeymapActionView>,
    kept: Seq<Key>,
    key: Key,
    exact_match: bool,
)
    ensures
        no_motion(run_actions(st, cfg, actions, kept, key, exact_match).1),
    decreases actions.len(),
{
    if actions.len() > 0 {
        lemma_run_actions_no_motion(st, cfg, actions.drop_last(), kept, key, exact_match);
    }
}

/// What the entries that fire emit writes no pointer motion.
pub proof fn lemma_run_entries_no_motion(
    st: HandlerView,
    cfg: ConfigView,
    entries: Seq<KeymapEntryView>,
    fired: Seq<int>,
    key: Key,
)
    ensures
        no_motion(run_entries(st, cfg, entries, fired, key).1),
    decreases fired.len(),
{
    if fired.len() > 0 {
        lemma_run_entries_no_motion(st, cfg, entries, fired.drop_last(), key);
        let first = run_entries(st, cfg, entries, fired.drop_last(), key);
        let entry = entries[fired.last()];
        lemma_run_actions_no_motion(
            first.0,
            cfg,
            entry.actions,
            crate::config::key_press::extra_modifiers(first.0.modifiers, entry.modifiers),
            key,
            entry.exact_match,
        );
    }
}

/// Resolving a press writes no pointer motion.
pub proof fn lemma_resolve_no_motion(
    st: HandlerView,
    cfg: ConfigView,
    key: Key,
    application: Option<Seq<char>>,
)
    ensures
        no_motion(resolve_press(st, cfg, key, application).1),
{
    let closed = st.without_override();
    let candidates = crate::translate::override_candidates(st.override_remaps, key.0);
    lemma_run_entries_no_motion(
        closed,
        cfg,
        candidates,
        select(candidates, situation(st, application)),
        key,
    );
    let entries = entries_at(cfg.keymap_table, key.0);
    lemma_run_entries_no_motion(
        closed,
        cfg,
        entries,
        select(entries, situation(closed, application)),
        key,
    );
    lemma_run_entries_no_motion(st, cfg, entries, select(entries, situation(st, application)), key);
}

/// Handling the key events of one event writes no pointer motion.
pub proof fn lemma_step_pairs_no_motion(
    st: HandlerView,
    cfg: ConfigView,
    pairs: Seq<(Key, KeyValue)>,
    event: KeyEvent,
    application: Option<Seq<char>>,
)
    ensures
        no_motion(step_pairs(st, cfg, pairs, event, application).1),
    decreases pairs.len(),
{
    if pairs.len() > 0 {
        lemma_step_pairs_no_motion(st, cfg, pairs.drop_last(), event, application);
        let s1 = step_pairs(st, cfg, pairs.drop_last(), event, application).0;
        lemma_resolve_no_motion(s1, cfg, pairs.last().0, application);
    }
}

/// Translating a key event writes no pointer motion.
pub proof fn lemma_step_key_no_motion(
    st: HandlerView,
    cfg: ConfigView,
    event: KeyEvent,
    application: Option<Seq<char>>,
)
    ensures
        no_motion(step_key(st, cfg, event, application).1),
{
    let (s1, a1, pairs) = apply_modmap(st, cfg, event, application);
    match modmap_action(cfg.modmap, event.key, application) {
        Some(ModmapActionView::PressReleaseKey { press, release }) => {
            lemma_run_actions_no_motion(st, cfg, press, Seq::empty(), event.key, false);
            lemma_run_actions_no_motion(st, cfg, release, Seq::empty(), event.key, false);
        },
        _ => {},
    }
    let (s2, kept_pairs) = maintain_pressed_keys(s1, event, pairs);
    let (s3, flushed_pairs) = flush_delayed(s2, kept_pairs);
    lemma_step_pairs_no_motion(s3, cfg, flushed_pairs, event, application);
}

/// Before the pointer motion is flushed no action writes any.
pub proof fn lemma_run_events_no_motion(
    st: HandlerView,
    cfg: ConfigView,
    events: Seq<Event>,
    applications: Seq<Option<Seq<char>>>,
)
    ensures
        no_motion(run_events(st, cfg, events, applications).1),
    decreases events.len(),
{
    if events.len() > 0 {
        lemma_run_events_no_motion(st, cfg, events.drop_last(), applications);
        let s1 = run_events(st, cfg, events.drop_last(), applications).0;
        let application = applications[events.len() - 1];
        match events.last() {
            Event::KeyEvent(e) => {
                lemma_step_key_no_motion(s1, cfg, e, application);
            },
            Event::RelativeEvent(e) => {
                let key = crate::translate::disguised_key(e);
                let press = KeyEvent { key, value: KeyValue::Press };
                lemma_step_key_no_motion(s1, cfg, press, application);
                let s2 = step_key(s1, cfg, press, application).0;
                lemma_step_key_no_motion(
                    s2,
                    cfg,
                    KeyEvent { key, value: KeyValue::Release },
                    application,
                );
            },
            _ => {},
        }
    }
}

/// All pointer motion of one invocation is written in one burst: of the
/// actions of an invocation only the last can write pointer motion, and it
/// does if and only if some motion passed untranslated, in which case it
/// writes all of it in the order in which it came.
pub proof fn lemma_motion_in_one_burst(
    st: HandlerView,
    cfg: ConfigView,
    events: Seq<Event>,
    applications: Seq<Option<Seq<char>>>,
)
    ensures
        forall|i: int|
            0 <= i < translate(st, cfg, events, applications).1.len() - 1 ==> !is_motion(
                #[trigger] translate(st, cfg, events, applications).1[i],
            ),
        run_events(st, cfg, events, applications).2.len() > 0 ==> translate(
            st,
            cfg,
            events,
            applications,
        ).1.last() == ActionView::MouseMovementEventCollection(
            run_events(st, cfg, events, applications).2,
        ),
        run_events(st, cfg, events, applications).2.len() == 0 ==> no_motion(
            translate(st, cfg, events, applications).1,
        ),
{
    lemma_run_events_no_motion(st, cfg, events, applications);
}

/// A virtual modifier is consumed: an event of a key that the configuration
/// declares a virtual modifier, and that no modmap applies to, emits
/// nothing, and the key is tracked as any modifier is.
pub proof fn lemma_virtual_modifier_consumed(
    st: HandlerView,
    cfg: ConfigView,
    event: KeyEvent,
    application: Option<Seq<char>>,
)
    requires
        modmap_action(cfg.modmap, event.key, application) is None,
        cfg.virtual_modifiers.contains(event.key),
        st.pressed_keys.contains_key(event.key.0) ==> st.pressed_keys[event.key.0] == event.key,
        st.multi_purpose_keys.len() == 0,
    ensures
        step_key(st, cfg, event, application).1 == Seq::<ActionView>::empty(),
        step_key(st, cfg, event, application).0.modifiers == crate::state::track_modifier(
            st.modifiers,
            event.key,
            event.value,
        ),
{
    let pairs = seq![(event.key, event.value)];
    reveal_with_fuel(step_pairs, 2);
}

/// Handling the key events of an event leaves the record of the keys that
/// are down as it is.
pub proof fn lemma_step_pairs_keep_record(
    st: HandlerView,
    cfg: ConfigView,
    pairs: Seq<(Key, KeyValue)>,
    event: KeyEvent,
    application: Option<Seq<char>>,
)
    ensures
        step_pairs(st, cfg, pairs, event, application).0.pressed_keys == st.pressed_keys,
    decreases pairs.len(),
{
    if pairs.len() > 0 {
        lemma_step_pairs_keep_record(st, cfg, pairs.drop_last(), event, application);
        let s1 = step_pairs(st, cfg, pairs.drop_last(), event, application).0;
        lemma_resolve_keeps_modifiers(s1, cfg, pairs.last().0, application);
    }
}

/// A press is recorded: where the modmap pass turns the press of a key into
/// the press of one key, that key is recorded as what the key went down as.
pub proof fn lemma_press_is_recorded(
    st: HandlerView,
    cfg: ConfigView,
    event: KeyEvent,
    application: Option<Seq<char>>,
)
    requires
        event.value == KeyValue::Press,
        apply_modmap(st, cfg, event, application).2.len() == 1,
    ensures
        step_key(st, cfg, event, application).0.pressed_keys.contains_key(event.key.0),
        step_key(st, cfg, event, application).0.pressed_keys[event.key.0] == apply_modmap(
            st,
            cfg,
            event,
            application,
        ).2[0].0,
{
    let (s1, a1, pairs) = apply_modmap(st, cfg, event, application);
    let (s2, kept_pairs) = maintain_pressed_keys(s1, event, pairs);
    let (s3, flushed_pairs) = flush_delayed(s2, kept_pairs);
    lemma_step_pairs_keep_record(s3, cfg, flushed_pairs, event, application);
}

/// A key goes up as what it went down as.  Where a key is recorded as having
/// gone down as some key, and no modmap applies to it any longer, its
/// release is translated into the release of the recorded key, and the
/// record is dropped.  This holds where the recorded key is no virtual
/// modifier and no synthetic key, and no key with two purposes is down.
pub proof fn lemma_release_follows_press(
    st: HandlerView,
    cfg: ConfigView,
    event: KeyEvent,
    application: Option<Seq<char>>,
)
    requires
        event.value == KeyValue::Release,
        st.pressed_keys.contains_key(event.key.0),
        modmap_action(cfg.modmap, event.key, application) is None,
        !cfg.virtual_modifiers.contains(st.pressed_keys[event.key.0]),
        !st.pressed_keys[event.key.0].is_disguised(),
        st.multi_purpose_keys.len() == 0,
    ensures
        step_key(st, cfg, event, application).1 == seq![
            key_action(st.pressed_keys[event.key.0], KeyValue::Release),
        ],
        !step_key(st, cfg, event, application).0.pressed_keys.contains_key(event.key.0),
{
    let pairs = seq![(event.key, event.value)];
    let (s2, kept_pairs) = maintain_pressed_keys(st, event, pairs);
    reveal_with_fuel(step_pairs, 2);
    lemma_step_pairs_keep_record(s2, cfg, kept_pairs, event, application);
}

} // verus!
