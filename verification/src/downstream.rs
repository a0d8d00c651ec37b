//! The modifiers that are down downstream are those that the translator
//! has as held.

use vstd::prelude::*;
use crate::action::{key_action, ActionView};
use crate::config::key_press::extra_modifiers;
use crate::config::keymap::{
    entries_at, entries_of_keymap, keymap_entries, override_entries, Binding, BindingView,
    KeymapEntryView, KeymapView, OverrideEntryView,
};
use crate::config::keymap_action::{KeymapAction, KeymapActionView};
use crate::config::modmap::{
    lemma_binding_index, lemma_modmap_index, modmap_action, modmap_index, ModmapAction,
    ModmapActionView, ModmapBinding, ModmapBindingView,
};
use crate::config::{Config, ConfigView, Remap};
use crate::text::views;
use crate::emit::{
    held_after, lemma_chord_never_represses, lemma_downstream_concat, no_repress,
};
use crate::event::{Event, KeyEvent, KeyValue};
use crate::key::Key;
use crate::resolve::{lemma_pass_sound, select};
use crate::state::{lemma_without_key, track_modifier, HandlerView};
use crate::translate::{
    apply_modmap, disguised_key, flush_delayed, flush_motion, maintain_pressed_keys,
    override_candidates, override_table, replay_actions, resolve_press, run_action, run_actions,
    run_entries, run_events, situation, step, step_key, step_pair, step_pairs, translate,
    with_mark,
};

verus! {

/// Whether an action emits no chord whose key is a physical modifier key.
pub open spec fn plain_action(action: KeymapActionView) -> bool {
    match action {
        KeymapActionView::KeyPressAndRelease(chord) => !chord.key.is_modifier(),
        KeymapActionView::WithMark(chord) => !chord.key.is_modifier(),
        _ => true,
    }
}

/// Whether no action of a list emits a chord whose key is a physical
/// modifier key.
pub open spec fn plain_actions(actions: Seq<KeymapActionView>) -> bool {
    forall|i: int| 0 <= i < actions.len() ==> plain_action(#[trigger] actions[i])
}

/// Whether the actions of a hook are plain and open no nested remap.
pub open spec fn plain_hook(actions: Seq<KeymapActionView>) -> bool {
    forall|i: int|
        0 <= i < actions.len() ==> plain_action(#[trigger] actions[i]) && !(actions[i] is Remap)
}

/// Whether the actions of all of `entries` are plain.
pub open spec fn plain_entries(entries: Seq<KeymapEntryView>) -> bool {
    forall|i: int| 0 <= i < entries.len() ==> plain_actions((#[trigger] entries[i]).actions)
}

/// Whether the actions of all of `bindings` are plain.
pub open spec fn plain_bindings(bindings: Seq<BindingView>) -> bool {
    forall|j: int| 0 <= j < bindings.len() ==> plain_actions((#[trigger] bindings[j]).actions)
}

/// Whether the actions of all entries of an override table are plain.
pub open spec fn plain_table(table: Map<u16, Seq<OverrideEntryView>>) -> bool {
    forall|key: u16, i: int|
        table.contains_key(key) && 0 <= i < table[key].len() ==> plain_actions(
            (#[trigger] table[key][i]).actions,
        )
}

/// Whether a configuration emits no chord whose key is a physical modifier
/// key, opens no nested remap from a hook of a modmap, and declares no
/// physical modifier key a virtual modifier.
pub open spec fn plain_config(cfg: ConfigView) -> bool {
    &&& forall|key: u16| plain_entries(#[trigger] entries_at(cfg.keymap_table, key))
    &&& forall|r: int| 0 <= r < cfg.remaps.len() ==> plain_bindings(#[trigger] cfg.remaps[r])
    &&& forall|m: int, j: int|
        0 <= m < cfg.modmap.len() && 0 <= j < cfg.modmap[m].remap.len() ==> match (
        #[trigger] cfg.modmap[m].remap[j]).action {
            ModmapActionView::PressReleaseKey { press, release } => plain_hook(press)
                && plain_hook(release),
            _ => true,
        }
    &&& forall|i: int|
        0 <= i < cfg.virtual_modifiers.len() ==> !(#[trigger] cfg.virtual_modifiers[i]).is_modifier()
}

/// Whether the open nested remaps of a state are plain and the key that
/// would be replayed is no physical modifier key.
pub open spec fn plain_state(st: HandlerView) -> bool {
    &&& forall|t: int|
        0 <= t < st.override_remaps.len() ==> plain_table(#[trigger] st.override_remaps[t])
    &&& st.override_timeout_key matches Some(k) ==> !k.is_modifier()
}

/// Whether the physical modifier keys that are down downstream are those
/// that the translator has as held.
pub open spec fn agrees(down: Set<Key>, st: HandlerView) -> bool {
    forall|k: Key| k.is_modifier() ==> (down.contains(k) <==> st.modifiers.contains(k))
}

/// The entries that a plain nested remap contributes are plain.
pub proof fn lemma_override_entries_plain(remap: Seq<BindingView>, exact_match: bool, key: u16)
    requires
        plain_bindings(remap),
    ensures
        forall|i: int|
            0 <= i < override_entries(remap, exact_match, key).len() ==> plain_actions(
                (#[trigger] override_entries(remap, exact_match, key)[i]).actions,
            ),
    decreases remap.len(),
{
    if remap.len() > 0 {
        let rest = remap.drop_last();
        lemma_override_entries_plain(rest, exact_match, key);
        let before = override_entries(rest, exact_match, key);
    }
}

/// The override table of a plain nested remap is plain.
pub proof fn lemma_override_table_plain(remap: Seq<BindingView>, exact_match: bool)
    requires
        plain_bindings(remap),
    ensures
        plain_table(override_table(remap, exact_match)),
{
    let table = override_table(remap, exact_match);
    assert forall|key: u16, i: int|
        table.contains_key(key) && 0 <= i < table[key].len() implies plain_actions(
        (#[trigger] table[key][i]).actions,
    ) by {
        lemma_override_entries_plain(remap, exact_match, key);
    }
}

/// The entries that plain open nested remaps hold for a key are plain.
pub proof fn lemma_override_candidates_plain(
    overrides: Seq<Map<u16, Seq<OverrideEntryView>>>,
    key: u16,
)
    requires
        forall|t: int| 0 <= t < overrides.len() ==> plain_table(#[trigger] overrides[t]),
    ensures
        plain_entries(override_candidates(overrides, key)),
    decreases overrides.len(),
{
    if overrides.len() > 0 {
        let rest = overrides.drop_last();
        lemma_override_candidates_plain(rest, key);
    }
}

/// One plain action keeps downstream and translator in agreement, presses no
/// modifier that is down, and keeps the state plain.
pub proof fn lemma_run_action_agrees(
    st: HandlerView,
    cfg: ConfigView,
    action: KeymapActionView,
    kept: Seq<Key>,
    key: Key,
    exact_match: bool,
    down: Set<Key>,
)
    requires
        st.modifiers.no_duplicates(),
        plain_config(cfg),
        plain_state(st),
        plain_action(action),
        agrees(down, st),
        !key.is_modifier() || !(action is Remap),
    ensures
        no_repress(down, run_action(st, cfg, action, kept, key, exact_match).1),
        agrees(
            held_after(down, run_action(st, cfg, action, kept, key, exact_match).1),
            run_action(st, cfg, action, kept, key, exact_match).0,
        ),
        plain_state(run_action(st, cfg, action, kept, key, exact_match).0),
        run_action(st, cfg, action, kept, key, exact_match).0.modifiers == st.modifiers,
{
    match action {
        KeymapActionView::KeyPressAndRelease(chord) => {
            lemma_chord_never_represses(st.modifiers, chord, kept, st.keypress_delay, down);
        },
        KeymapActionView::WithMark(chord) => {
            lemma_chord_never_represses(
                st.modifiers,
                with_mark(st, chord),
                kept,
                st.keypress_delay,
                down,
            );
        },
        KeymapActionView::Launch(command) => {
            reveal_with_fuel(held_after, 2);
            reveal_with_fuel(no_repress, 2);
        },
        KeymapActionView::Remap(index) => {
            if 0 <= index < cfg.remaps.len() {
                lemma_override_table_plain(cfg.remaps[index], exact_match);
            }
        },
        _ => {},
    }
}

/// Plain actions keep downstream and translator in agreement, press no
/// modifier that is down, and keep the state plain.
pub proof fn lemma_run_actions_agree(
    st: HandlerView,
    cfg: ConfigView,
    actions: Seq<KeymapActionView>,
    kept: Seq<Key>,
    key: Key,
    exact_match: bool,
    down: Set<Key>,
)
    requires
        st.modifiers.no_duplicates(),
        plain_config(cfg),
        plain_state(st),
        plain_actions(actions),
        agrees(down, st),
        !key.is_modifier() || plain_hook(actions),
    ensures
        no_repress(down, run_actions(st, cfg, actions, kept, key, exact_match).1),
        agrees(
            held_after(down, run_actions(st, cfg, actions, kept, key, exact_match).1),
            run_actions(st, cfg, actions, kept, key, exact_match).0,
        ),
        plain_state(run_actions(st, cfg, actions, kept, key, exact_match).0),
        run_actions(st, cfg, actions, kept, key, exact_match).0.modifiers == st.modifiers,
    decreases actions.len(),
{
    if actions.len() > 0 {
        let rest = actions.drop_last();
        lemma_run_actions_agree(st, cfg, rest, kept, key, exact_match, down);
        let first = run_actions(st, cfg, rest, kept, key, exact_match);
        lemma_run_action_agrees(
            first.0,
            cfg,
            actions.last(),
            kept,
            key,
            exact_match,
            held_after(down, first.1),
        );
        let second = run_action(first.0, cfg, actions.last(), kept, key, exact_match);
        lemma_downstream_concat(down, first.1, second.1);
    }
}

/// Entries with plain actions, fired by a key that is no modifier, keep
/// downstream and translator in agreement, press no modifier that is down,
/// and keep the state plain.
pub proof fn lemma_run_entries_agree(
    st: HandlerView,
    cfg: ConfigView,
    entries: Seq<KeymapEntryView>,
    fired: Seq<int>,
    key: Key,
    down: Set<Key>,
)
    requires
        st.modifiers.no_duplicates(),
        plain_config(cfg),
        plain_state(st),
        plain_entries(entries),
        forall|k: int| 0 <= k < fired.len() ==> 0 <= #[trigger] fired[k] < entries.len(),
        agrees(down, st),
        !key.is_modifier(),
    ensures
        no_repress(down, run_entries(st, cfg, entries, fired, key).1),
        agrees(
            held_after(down, run_entries(st, cfg, entries, fired, key).1),
            run_entries(st, cfg, entries, fired, key).0,
        ),
        plain_state(run_entries(st, cfg, entries, fired, key).0),
        run_entries(st, cfg, entries, fired, key).0.modifiers == st.modifiers,
    decreases fired.len(),
{
    if fired.len() > 0 {
        let rest = fired.drop_last();
        lemma_run_entries_agree(st, cfg, entries, rest, key, down);
        let first = run_entries(st, cfg, entries, rest, key);
        let entry = entries[fired.last()];
        let kept = extra_modifiers(first.0.modifiers, entry.modifiers);
        lemma_run_actions_agree(
            first.0,
            cfg,
            entry.actions,
            kept,
            key,
            entry.exact_match,
            held_after(down, first.1),
        );
        let second = run_actions(first.0, cfg, entry.actions, kept, key, entry.exact_match);
        lemma_downstream_concat(down, first.1, second.1);
    }
}

/// What `select` yields are indices of entries.
pub proof fn lemma_select_in_range(entries: Seq<KeymapEntryView>, s: crate::resolve::Situation)
    ensures
        forall|k: int|
            0 <= k < select(entries, s).len() ==> 0 <= #[trigger] select(entries, s)[k]
                < entries.len(),
{
    lemma_pass_sound(entries, s, true, 0, false);
    lemma_pass_sound(entries, s, false, 0, false);
}

/// A press and a release of a key that is no modifier change nothing about
/// the modifiers downstream.
pub proof fn lemma_replay_agrees(key: Option<Key>, down: Set<Key>)
    requires
        key matches Some(k) ==> !k.is_modifier(),
    ensures
        no_repress(down, replay_actions(key)),
        forall|k: Key|
            k.is_modifier() ==> (held_after(down, replay_actions(key)).contains(k)
                <==> down.contains(k)),
{
    reveal_with_fuel(held_after, 3);
    reveal_with_fuel(no_repress, 3);
}

/// Resolving the press of a key that is no modifier keeps downstream and
/// translator in agreement and keeps the state plain.
pub proof fn lemma_resolve_agrees(
    st: HandlerView,
    cfg: ConfigView,
    key: Key,
    application: Option<Seq<char>>,
    down: Set<Key>,
)
    requires
        st.wf(),
        plain_config(cfg),
        plain_state(st),
        agrees(down, st),
        !key.is_modifier(),
    ensures
        agrees(
            held_after(down, resolve_press(st, cfg, key, application).1),
            resolve_press(st, cfg, key, application).0,
        ),
        plain_state(resolve_press(st, cfg, key, application).0),
        resolve_press(st, cfg, key, application).0.modifiers == st.modifiers,
{
    let closed = st.without_override();
    let candidates = override_candidates(st.override_remaps, key.0);
    lemma_override_candidates_plain(st.override_remaps, key.0);
    lemma_select_in_range(candidates, situation(st, application));
    lemma_run_entries_agree(
        closed,
        cfg,
        candidates,
        select(candidates, situation(st, application)),
        key,
        down,
    );
    let entries = entries_at(cfg.keymap_table, key.0);
    lemma_select_in_range(entries, situation(st, application));
    lemma_select_in_range(entries, situation(closed, application));
    lemma_run_entries_agree(st, cfg, entries, select(entries, situation(st, application)), key, down);
    lemma_run_entries_agree(
        closed,
        cfg,
        entries,
        select(entries, situation(closed, application)),
        key,
        down,
    );
    let replay = replay_actions(st.override_timeout_key);
    lemma_replay_agrees(st.override_timeout_key, down);
    let after_replay = held_after(down, replay);
    lemma_run_entries_agree(
        closed,
        cfg,
        entries,
        select(entries, situation(closed, application)),
        key,
        after_replay,
    );
    let ran = run_entries(
        closed,
        cfg,
        entries,
        select(entries, situation(closed, application)),
        key,
    );
    lemma_downstream_concat(down, replay, ran.1);
}

/// Handling one key event of an event keeps downstream and translator in
/// agreement and keeps the state plain and free of duplicates.
pub proof fn lemma_step_pair_agrees(
    st: HandlerView,
    cfg: ConfigView,
    key: Key,
    value: KeyValue,
    event: KeyEvent,
    application: Option<Seq<char>>,
    down: Set<Key>,
)
    requires
        st.wf(),
        plain_config(cfg),
        plain_state(st),
        agrees(down, st),
    ensures
        agrees(
            held_after(down, step_pair(st, cfg, key, value, event, application).1),
            step_pair(st, cfg, key, value, event, application).0,
        ),
        plain_state(step_pair(st, cfg, key, value, event, application).0),
        step_pair(st, cfg, key, value, event, application).0.wf(),
{
    let result = step_pair(st, cfg, key, value, event, application);
    lemma_without_key(st.modifiers, key);
    crate::laws::lemma_resolve_keeps_modifiers(st, cfg, key, application);
    if cfg.virtual_modifiers.contains(key) {
        assert forall|k: Key| k.is_modifier() implies (down.contains(k)
            <==> result.0.modifiers.contains(k)) by {
            lemma_track_contains(st.modifiers, key, value, k);
        }
    } else if key.is_modifier() {
        reveal_with_fuel(held_after, 2);
        assert forall|k: Key| k.is_modifier() implies (held_after(down, result.1).contains(k)
            <==> result.0.modifiers.contains(k)) by {
            lemma_track_contains(st.modifiers, key, value, k);
        }
    } else {
        let (s, a, handled) = if value == KeyValue::Press {
            if st.escape_next_key {
                (HandlerView { escape_next_key: false, ..st }, Seq::<ActionView>::empty(), false)
            } else {
                resolve_press(st, cfg, key, application)
            }
        } else {
            (st, Seq::<ActionView>::empty(), false)
        };
        if value == KeyValue::Press && !st.escape_next_key {
            lemma_resolve_agrees(st, cfg, key, application, down);
        }
        if !handled && !(key.is_disguised() && key == event.key && value == event.value) {
            let last = seq![key_action(key, value)];
            lemma_downstream_concat(down, a, last);
            reveal_with_fuel(held_after, 2);
        }
    }
}

/// What tracking a modifier does to the held keys: a press adds the key, a
/// release removes it, and nothing else changes.
pub proof fn lemma_track_contains(modifiers: Seq<Key>, key: Key, value: KeyValue, k: Key)
    ensures
        track_modifier(modifiers, key, value).contains(k) <==> match value {
            KeyValue::Press => modifiers.contains(k) || k == key,
            KeyValue::Release => modifiers.contains(k) && k != key,
            KeyValue::Repeat => modifiers.contains(k),
        },
{
    lemma_without_key(modifiers, key);
    match value {
        KeyValue::Press => {
            if !modifiers.contains(key) {
                let pushed = modifiers.push(key);
                if modifiers.contains(k) {
                    let i = choose|i: int| 0 <= i < modifiers.len() && modifiers[i] == k;
                    assert(pushed[i] == k);
                }
                if k == key {
                    assert(pushed[modifiers.len() as int] == k);
                }
            }
        },
        _ => {},
    }
}

/// Handling the key events of an event keeps downstream and translator in
/// agreement and keeps the state plain and free of duplicates.
pub proof fn lemma_step_pairs_agree(
    st: HandlerView,
    cfg: ConfigView,
    pairs: Seq<(Key, KeyValue)>,
    event: KeyEvent,
    application: Option<Seq<char>>,
    down: Set<Key>,
)
    requires
        st.wf(),
        plain_config(cfg),
        plain_state(st),
        agrees(down, st),
    ensures
        agrees(
            held_after(down, step_pairs(st, cfg, pairs, event, application).1),
            step_pairs(st, cfg, pairs, event, application).0,
        ),
        plain_state(step_pairs(st, cfg, pairs, event, application).0),
        step_pairs(st, cfg, pairs, event, application).0.wf(),
    decreases pairs.len(),
{
    if pairs.len() > 0 {
        lemma_step_pairs_agree(st, cfg, pairs.drop_last(), event, application, down);
        let first = step_pairs(st, cfg, pairs.drop_last(), event, application);
        let mid = held_after(down, first.1);
        lemma_step_pair_agrees(first.0, cfg, pairs.last().0, pairs.last().1, event, application, mid);
        let second = step_pair(first.0, cfg, pairs.last().0, pairs.last().1, event, application);
        lemma_downstream_concat(down, first.1, second.1);
    }
}

/// The action that the modmaps have for a key is one of a binding of a
/// modmap.
pub proof fn lemma_modmap_action_is_bound(
    cfg: ConfigView,
    key: Key,
    application: Option<Seq<char>>,
)
    ensures
        modmap_action(cfg.modmap, key, application) matches Some(action) ==> exists|
            m: int,
            j: int,
        |
            0 <= m < cfg.modmap.len() && 0 <= j < cfg.modmap[m].remap.len() && (
            #[trigger] cfg.modmap[m].remap[j]).action == action,
{
    lemma_modmap_index(cfg.modmap, key, application, 0);
    let m = modmap_index(cfg.modmap, key, application, 0);
    if m < cfg.modmap.len() {
        lemma_binding_index(cfg.modmap[m].remap, key, 0);
    }
}

/// Translating a key event keeps downstream and translator in agreement
/// and keeps the state plain and free of duplicates.
pub proof fn lemma_step_key_agrees(
    st: HandlerView,
    cfg: ConfigView,
    event: KeyEvent,
    application: Option<Seq<char>>,
    down: Set<Key>,
)
    requires
        st.wf(),
        plain_config(cfg),
        plain_state(st),
        agrees(down, st),
    ensures
        agrees(
            held_after(down, step_key(st, cfg, event, application).1),
            step_key(st, cfg, event, application).0,
        ),
        plain_state(step_key(st, cfg, event, application).0),
        step_key(st, cfg, event, application).0.wf(),
{
    let (s1, a1, pairs) = apply_modmap(st, cfg, event, application);
    lemma_modmap_action_is_bound(cfg, event.key, application);
    match modmap_action(cfg.modmap, event.key, application) {
        Some(ModmapActionView::PressReleaseKey { press, release }) => {
            lemma_run_actions_agree(st, cfg, press, Seq::empty(), event.key, false, down);
            lemma_run_actions_agree(st, cfg, release, Seq::empty(), event.key, false, down);
        },
        _ => {},
    }
    let (s2, kept_pairs) = maintain_pressed_keys(s1, event, pairs);
    let (s3, flushed_pairs) = flush_delayed(s2, kept_pairs);
    crate::laws::lemma_modmap_pass_wf(st, cfg, event, application);
    lemma_step_pairs_agree(s3, cfg, flushed_pairs, event, application, held_after(down, a1));
    let last = step_pairs(s3, cfg, flushed_pairs, event, application);
    lemma_downstream_concat(down, a1, last.1);
}

/// The modifiers that are down downstream are always those that the
/// translator has as held.  If they are before a list of events is
/// translated, they are after the actions for it have been carried out.
/// This holds of a plain configuration; it is kept by every event, together
/// with the state being plain and listing no held modifier twice.
pub proof fn lemma_downstream_modifiers_agree(
    st: HandlerView,
    cfg: ConfigView,
    events: Seq<Event>,
    applications: Seq<Option<Seq<char>>>,
    down: Set<Key>,
)
    requires
        st.wf(),
        plain_config(cfg),
        plain_state(st),
        agrees(down, st),
    ensures
        agrees(
            held_after(down, run_events(st, cfg, events, applications).1),
            run_events(st, cfg, events, applications).0,
        ),
        agrees(
            held_after(down, translate(st, cfg, events, applications).1),
            translate(st, cfg, events, applications).0,
        ),
        plain_state(translate(st, cfg, events, applications).0),
        translate(st, cfg, events, applications).0.wf(),
    decreases events.len(),
{
    reveal_with_fuel(held_after, 2);
    if events.len() > 0 {
        lemma_downstream_modifiers_agree(st, cfg, events.drop_last(), applications, down);
        let first = run_events(st, cfg, events.drop_last(), applications);
        let mid = held_after(down, first.1);
        let application = applications[events.len() - 1];
        let second = step(first.0, cfg, events.last(), application);
        match events.last() {
            Event::KeyEvent(e) => {
                lemma_step_key_agrees(first.0, cfg, e, application, mid);
            },
            Event::RelativeEvent(e) => {
                if e.code <= crate::key::MAX_DISGUISED_AXIS {
                    let key = disguised_key(e);
                    let press = KeyEvent { key, value: KeyValue::Press };
                    let release = KeyEvent { key, value: KeyValue::Release };
                    lemma_step_key_agrees(first.0, cfg, press, application, mid);
                    let s1 = step_key(first.0, cfg, press, application);
                    lemma_step_key_agrees(s1.0, cfg, release, application, held_after(mid, s1.1));
                    let s2 = step_key(s1.0, cfg, release, application);
                    lemma_downstream_concat(mid, s1.1, s2.1);
                }
            },
            Event::OtherEvents(_) => {},
            Event::OverrideTimeout => {
                lemma_replay_agrees(first.0.override_timeout_key, mid);
            },
        }
        lemma_downstream_concat(down, first.1, second.1);
    }
    let all = run_events(st, cfg, events, applications);
    let flushed = flush_motion(all.2);
    lemma_downstream_concat(down, all.1, flushed);
}

/// A translator that has seen no event agrees with a downstream on which no
/// key is down, and its state is plain.
pub proof fn lemma_initial_state_agrees(mode: Seq<char>, keypress_delay: u64)
    ensures
        HandlerView::initial(mode, keypress_delay).wf(),
        plain_state(HandlerView::initial(mode, keypress_delay)),
        agrees(Set::empty(), HandlerView::initial(mode, keypress_delay)),
{
}

/// Whether the hooks of the bindings of a modmap are plain.
pub open spec fn plain_modmap_bindings(bindings: Seq<ModmapBindingView>) -> bool {
    forall|j: int|
        0 <= j < bindings.len() ==> match (#[trigger] bindings[j]).action {
            ModmapActionView::PressReleaseKey { press, release } => plain_hook(press)
                && plain_hook(release),
            _ => true,
        }
}

/// Whether a configuration is plain as it is written: its keymaps, its
/// nested remaps and the hooks of its modmaps emit no chord whose key is a
/// physical modifier key, the hooks open no nested remap, and no physical
/// modifier key is declared a virtual modifier.
pub open spec fn plainly_written(cfg: ConfigView) -> bool {
    &&& forall|k: int| 0 <= k < cfg.keymap.len() ==> plain_bindings((#[trigger] cfg.keymap[k]).remap)
    &&& forall|r: int| 0 <= r < cfg.remaps.len() ==> plain_bindings(#[trigger] cfg.remaps[r])
    &&& forall|m: int|
        0 <= m < cfg.modmap.len() ==> plain_modmap_bindings((#[trigger] cfg.modmap[m]).remap)
    &&& forall|i: int|
        0 <= i < cfg.virtual_modifiers.len() ==> !(#[trigger] cfg.virtual_modifiers[i]).is_modifier()
}

/// The entries that the plain bindings of a keymap contribute are plain.
pub proof fn lemma_entries_of_keymap_plain(keymap: KeymapView, n: int, key: u16)
    requires
        plain_bindings(keymap.remap),
        n <= keymap.remap.len(),
    ensures
        plain_entries(entries_of_keymap(keymap, n, key)),
    decreases n,
{
    if n > 0 {
        lemma_entries_of_keymap_plain(keymap, n - 1, key);
    }
}

/// The entries of keymaps whose bindings are plain are plain.
pub proof fn lemma_keymap_entries_plain(keymaps: Seq<KeymapView>, key: u16)
    requires
        forall|k: int| 0 <= k < keymaps.len() ==> plain_bindings((#[trigger] keymaps[k]).remap),
    ensures
        plain_entries(keymap_entries(keymaps, key)),
    decreases keymaps.len(),
{
    if keymaps.len() > 0 {
        let rest = keymaps.drop_last();
        lemma_keymap_entries_plain(rest, key);
        let last = keymaps.last();
        lemma_entries_of_keymap_plain(last, last.remap.len() as int, key);
    }
}

/// A configuration that is plain as it is written, and whose table holds
/// the entries of its keymaps, is plain.
pub proof fn lemma_plainly_written_is_plain(cfg: ConfigView)
    requires
        plainly_written(cfg),
        cfg.indexed(),
    ensures
        plain_config(cfg),
{
    assert forall|key: u16| plain_entries(#[trigger] entries_at(cfg.keymap_table, key)) by {
        lemma_keymap_entries_plain(cfg.keymap, key);
    }
    assert forall|m: int, j: int|
        0 <= m < cfg.modmap.len() && 0 <= j < cfg.modmap[m].remap.len() implies match (
    #[trigger] cfg.modmap[m].remap[j]).action {
        ModmapActionView::PressReleaseKey { press, release } => plain_hook(press) && plain_hook(
            release,
        ),
        _ => true,
    } by {}
}

/// Whether no action of a list emits a chord whose key is a physical
/// modifier key; with `hook`, also whether none opens a nested remap.
fn actions_are_plain(actions: &Vec<KeymapAction>, hook: bool) -> (plain: bool)
    ensures
        plain == if hook {
            plain_hook(views(actions@))
        } else {
            plain_actions(views(actions@))
        },
{
    let mut i: usize = 0;
    while i < actions.len()
        invariant
            i <= actions.len(),
            forall|k: int|
                0 <= k < i ==> plain_action(#[trigger] views(actions@)[k]) && (hook ==> !(views(
                    actions@,
                )[k] is Remap)),
        decreases actions.len() - i,
    {
        assert(views(actions@)[i as int] == actions@[i as int]@);
        let plain: bool = match &actions[i] {
            KeymapAction::KeyPressAndRelease(chord) => !chord.key.is_modifier_key(),
            KeymapAction::WithMark(chord) => !chord.key.is_modifier_key(),
            KeymapAction::Remap(_) => !hook,
            _ => true,
        };
        if !plain {
            return false;
        }
        i += 1;
    }
    true
}

fn bindings_are_plain(bindings: &Vec<Binding>) -> (plain: bool)
    ensures
        plain == plain_bindings(views(bindings@)),
{
    let mut j: usize = 0;
    while j < bindings.len()
        invariant
            j <= bindings.len(),
            forall|k: int| 0 <= k < j ==> plain_actions((#[trigger] views(bindings@)[k]).actions),
        decreases bindings.len() - j,
    {
        assert(views(bindings@)[j as int] == bindings@[j as int]@);
        if !actions_are_plain(&bindings[j].actions, false) {
            return false;
        }
        j += 1;
    }
    true
}

fn modmap_bindings_are_plain(bindings: &Vec<ModmapBinding>) -> (plain: bool)
    ensures
        plain == plain_modmap_bindings(views(bindings@)),
{
    let mut j: usize = 0;
    while j < bindings.len()
        invariant
            j <= bindings.len(),
            forall|k: int|
                0 <= k < j ==> match (#[trigger] views(bindings@)[k]).action {
                    ModmapActionView::PressReleaseKey { press, release } => plain_hook(press)
                        && plain_hook(release),
                    _ => true,
                },
        decreases bindings.len() - j,
    {
        assert(views(bindings@)[j as int] == bindings@[j as int]@);
        let plain: bool = match &bindings[j].action {
            ModmapAction::PressReleaseKey { press, release } => actions_are_plain(press, true)
                && actions_are_plain(release, true),
            _ => true,
        };
        if !plain {
            return false;
        }
        j += 1;
    }
    true
}

/// Whether a configuration is plain as it is written.  Of such a
/// configuration, once its table is built, the modifiers that are down
/// downstream stay those that the translator has as held.
pub fn is_plainly_written(config: &Config) -> (plain: bool)
    ensures
        plain == plainly_written(config@),
{
    let mut k: usize = 0;
    while k < config.keymap.len()
        invariant
            k <= config.keymap.len(),
            forall|i: int| 0 <= i < k ==> plain_bindings((#[trigger] config@.keymap[i]).remap),
        decreases config.keymap.len() - k,
    {
        assert(config@.keymap[k as int] == config.keymap@[k as int]@);
        if !bindings_are_plain(&config.keymap[k].remap) {
            return false;
        }
        k += 1;
    }
    let mut r: usize = 0;
    while r < config.remaps.len()
        invariant
            r <= config.remaps.len(),
            forall|i: int| 0 <= i < r ==> plain_bindings(#[trigger] config@.remaps[i]),
        decreases config.remaps.len() - r,
    {
        assert(config@.remaps[r as int] == config.remaps@[r as int]@);
        if !bindings_are_plain(&config.remaps[r].remap) {
            return false;
        }
        r += 1;
    }
    let mut m: usize = 0;
    while m < config.modmap.len()
        invariant
            m <= config.modmap.len(),
            forall|i: int|
                0 <= i < m ==> plain_modmap_bindings((#[trigger] config@.modmap[i]).remap),
        decreases config.modmap.len() - m,
    {
        assert(config@.modmap[m as int] == config.modmap@[m as int]@);
        if !modmap_bindings_are_plain(&config.modmap[m].remap) {
            return false;
        }
        m += 1;
    }
    let mut v: usize = 0;
    while v < config.virtual_modifiers.len()
        invariant
            v <= config.virtual_modifiers.len(),
            forall|i: int| 0 <= i < v ==> !(#[trigger] config@.virtual_modifiers[i]).is_modifier(),
        decreases config.virtual_modifiers.len() - v,
    {
        if config.virtual_modifiers[v].is_modifier_key() {
            assert(config@.virtual_modifiers[v as int].is_modifier());
            return false;
        }
        v += 1;
    }
    true
}

} // verus!
