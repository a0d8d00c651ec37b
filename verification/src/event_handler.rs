//! The translator: the state machine that turns events into actions.

use std::collections::HashMap;
use vstd::prelude::*;
use crate::action::{key_actions, Action, ActionView};
use crate::config::application::{optional_string, Application};
use crate::config::key_press::{
    clone_modifiers, diff_modifiers, emitted_modifiers, has_key, is_held, modifiers_to_emit,
    KeyPress, Modifier, Side,
};
use crate::config::keymap::{
    build_override_table, entries_at, table_view, KeymapEntry, OverrideEntry, OverrideEntryView,
};
use crate::config::keymap_action::KeymapAction;
use crate::config::modmap::{find_modmap, ModmapAction};
use crate::config::Config;
use crate::client::WMClient;
use crate::emit::{send_action, send_key, send_key_press_and_release, send_keys};
use crate::event::{Event, KeyEvent, KeyValue, RelativeEvent};
use crate::key::{Key, DISGUISED_EVENT_OFFSETTER, MAX_DISGUISED_AXIS};
use crate::resolve::{indices, select_candidates, unfiltered, Candidate};
use crate::state::{
    without_key, HandlerView, MultiPurposeKeyState, TimerRequest, OVERRIDE_TIMEOUT_MS,
};
use crate::text::{clone_strings, lemma_views_push, views};
use crate::translate::{
    all_held, apply_modmap, flush_delayed, flush_motion, forced_keys, has_press,
    maintain_pressed_keys, multi_purpose_index, multi_purpose_step, override_candidates,
    override_table, presses, replay_actions, resolve_in_table, resolve_press, run_action,
    run_actions, run_entries, run_events, step, step_key, step_pair, step_pairs, step_relative,
    step_timeout, translate, unforced, with_mark, without_multi_purpose,
};

verus! {

/// The translator.  It lives as long as the process; the configuration is
/// handed to it with each event.
pub struct EventHandler {
    modifiers: Vec<Key>,
    pressed_keys: HashMap<u16, Key>,
    multi_purpose_keys: Vec<MultiPurposeKeyState>,
    override_remaps: Vec<HashMap<u16, Vec<OverrideEntry>>>,
    override_timeout_key: Option<Key>,
    timer: Option<TimerRequest>,
    mode: String,
    mark_set: bool,
    escape_next_key: bool,
    keypress_delay: u64,
}

/// The mathematical values of a list of override tables.
pub open spec fn tables_view(tables: Seq<HashMap<u16, Vec<OverrideEntry>>>) -> Seq<
    Map<u16, Seq<OverrideEntryView>>,
> {
    Seq::new(tables.len(), |i: int| table_view(tables[i]@))
}

impl View for EventHandler {
    type V = HandlerView;

    closed spec fn view(&self) -> HandlerView {
        HandlerView {
            modifiers: self.modifiers@,
            pressed_keys: self.pressed_keys@,
            multi_purpose_keys: self.multi_purpose_keys@,
            override_remaps: tables_view(self.override_remaps@),
            override_timeout_key: self.override_timeout_key,
            timer: self.timer,
            mode: self.mode@,
            mark_set: self.mark_set,
            escape_next_key: self.escape_next_key,
            keypress_delay: self.keypress_delay,
        }
    }
}

/// `keys` without `key`.
fn remove_key(keys: &Vec<Key>, key: Key) -> (rest: Vec<Key>)
    ensures
        rest@ == without_key(keys@, key),
{
    let mut rest: Vec<Key> = Vec::new();
    let mut i: usize = 0;
    while i < keys.len()
        invariant
            i <= keys.len(),
            rest@ == without_key(keys@.take(i as int), key),
        decreases keys.len() - i,
    {
        assert(keys@.take(i + 1).drop_last() =~= keys@.take(i as int));
        if keys[i] != key {
            rest.push(keys[i]);
        }
        i += 1;
    }
    assert(keys@.take(keys.len() as int) =~= keys@);
    rest
}

/// The entries of a keymap table as candidates.
fn table_candidates<'a>(entries: &'a Vec<KeymapEntry>) -> (candidates: Vec<Candidate<'a>>)
    ensures
        views(candidates@) == views(entries@),
{
    let mut candidates: Vec<Candidate<'a>> = Vec::new();
    let mut i: usize = 0;
    while i < entries.len()
        invariant
            i <= entries.len(),
            candidates.len() == i,
            forall|k: int| 0 <= k < i ==> candidates@[k]@ == entries@[k]@,
        decreases entries.len() - i,
    {
        let entry: &'a KeymapEntry = &entries[i];
        candidates.push(
            Candidate {
                actions: &entry.actions,
                modifiers: &entry.modifiers,
                application: &entry.application,
                mode: &entry.mode,
                exact_match: entry.exact_match,
            },
        );
        i += 1;
    }
    candidates
}

/// The entries that the open nested remaps hold for `key`, as candidates.
fn open_candidates<'a>(
    overrides: &'a Vec<HashMap<u16, Vec<OverrideEntry>>>,
    key: u16,
    no_application: &'a Option<Application>,
    no_mode: &'a Option<Vec<String>>,
) -> (candidates: Vec<Candidate<'a>>)
    requires
        *no_application is None,
        *no_mode is None,
    ensures
        views(candidates@) == override_candidates(tables_view(overrides@), key),
{
    broadcast use vstd::std_specs::hash::group_hash_axioms;

    let ghost tables = tables_view(overrides@);
    let mut candidates: Vec<Candidate<'a>> = Vec::new();
    let mut t: usize = 0;
    while t < overrides.len()
        invariant
            t <= overrides.len(),
            tables == tables_view(overrides@),
            *no_application is None,
            *no_mode is None,
            views(candidates@) == override_candidates(tables.take(t as int), key),
        decreases overrides.len() - t,
    {
        let ghost done = views(candidates@);
        let ghost these = entries_at(tables[t as int], key);
        assert(tables.take(t + 1).drop_last() =~= tables.take(t as int));
        match overrides[t].get(&key) {
            Some(entries) => {
                let mut i: usize = 0;
                while i < entries.len()
                    invariant
                        i <= entries.len(),
                        these == views(entries@),
                        *no_application is None,
                        *no_mode is None,
                        views(candidates@) == done + these.take(i as int).map_values(
                            |e: OverrideEntryView| unfiltered(e),
                        ),
                    decreases entries.len() - i,
                {
                    let entry: &'a OverrideEntry = &entries[i];
                    let candidate = Candidate {
                        actions: &entry.actions,
                        modifiers: &entry.modifiers,
                        application: no_application,
                        mode: no_mode,
                        exact_match: entry.exact_match,
                    };
                    proof {
                        lemma_views_push(candidates@, candidate);
                    }
                    candidates.push(candidate);
                    i += 1;
                }
            },
            None => {},
        }
        t += 1;
    }
    assert(tables.take(overrides.len() as int) =~= tables);
    candidates
}

/// The first of `states` that belongs to `key`.
fn find_multi_purpose(states: &Vec<MultiPurposeKeyState>, key: Key) -> (found: Option<usize>)
    ensures
        match found {
            Some(i) => i < states.len() && i == multi_purpose_index(states@, key, 0),
            None => multi_purpose_index(states@, key, 0) == states.len(),
        },
{
    let mut i: usize = 0;
    while i < states.len()
        invariant
            i <= states.len(),
            multi_purpose_index(states@, key, 0) == multi_purpose_index(states@, key, i as int),
        decreases states.len() - i,
    {
        if states[i].key == key {
            return Some(i);
        }
        i += 1;
    }
    None
}

/// `states` without those that belong to `key`.
fn remove_multi_purpose(states: &Vec<MultiPurposeKeyState>, key: Key) -> (rest: Vec<
    MultiPurposeKeyState,
>)
    ensures
        rest@ == without_multi_purpose(states@, key),
{
    let mut rest: Vec<MultiPurposeKeyState> = Vec::new();
    let mut i: usize = 0;
    while i < states.len()
        invariant
            i <= states.len(),
            rest@ == without_multi_purpose(states@.take(i as int), key),
        decreases states.len() - i,
    {
        assert(states@.take(i + 1).drop_last() =~= states@.take(i as int));
        if states[i].key != key {
            rest.push(states[i]);
        }
        i += 1;
    }
    assert(states@.take(states.len() as int) =~= states@);
    rest
}

/// Whether one of `pairs` is a press.
fn any_press(pairs: &Vec<(Key, KeyValue)>) -> (b: bool)
    ensures
        b == has_press(pairs@),
{
    let mut i: usize = 0;
    while i < pairs.len()
        invariant
            i <= pairs.len(),
            forall|k: int| 0 <= k < i ==> (#[trigger] pairs@[k]).1 != KeyValue::Press,
        decreases pairs.len() - i,
    {
        if pairs[i].1 == KeyValue::Press {
            return true;
        }
        i += 1;
    }
    false
}

/// `pairs` without the presses of the keys of `forced`.
fn drop_forced(pairs: &Vec<(Key, KeyValue)>, forced: &Vec<Key>) -> (rest: Vec<(Key, KeyValue)>)
    ensures
        rest@ == unforced(pairs@, forced@),
{
    let mut rest: Vec<(Key, KeyValue)> = Vec::new();
    let mut i: usize = 0;
    while i < pairs.len()
        invariant
            i <= pairs.len(),
            rest@ == unforced(pairs@.take(i as int), forced@),
        decreases pairs.len() - i,
    {
        assert(pairs@.take(i + 1).drop_last() =~= pairs@.take(i as int));
        let pair: (Key, KeyValue) = pairs[i];
        if !(pair.1 == KeyValue::Press && has_key(forced, pair.0)) {
            rest.push(pair);
        }
        i += 1;
    }
    assert(pairs@.take(pairs.len() as int) =~= pairs@);
    rest
}

/// Marks every key with two purposes as held and tells what those whose
/// press was withheld are held as.
fn force_held(states: &Vec<MultiPurposeKeyState>) -> (forced: (Vec<MultiPurposeKeyState>, Vec<Key>))
    ensures
        forced.0@ == all_held(states@),
        forced.1@ == forced_keys(states@),
{
    let mut held: Vec<MultiPurposeKeyState> = Vec::new();
    let mut keys: Vec<Key> = Vec::new();
    let mut i: usize = 0;
    while i < states.len()
        invariant
            i <= states.len(),
            held@ == all_held(states@.take(i as int)),
            keys@ == forced_keys(states@.take(i as int)),
        decreases states.len() - i,
    {
        assert(states@.take(i + 1).drop_last() =~= states@.take(i as int));
        let state: MultiPurposeKeyState = states[i];
        if state.delayed {
            keys.push(state.held);
        }
        held.push(
            MultiPurposeKeyState {
                key: state.key,
                held: state.held,
                alone: state.alone,
                delayed: false,
            },
        );
        i += 1;
    }
    assert(states@.take(states.len() as int) =~= states@);
    (held, keys)
}

impl EventHandler {
    /// A translator that has seen no event, in the mode `mode`.
    pub fn new(mode: &str, keypress_delay: u64) -> (handler: EventHandler)
        ensures
            handler@ == HandlerView::initial(mode@, keypress_delay),
    {
        let handler = EventHandler {
            modifiers: Vec::new(),
            pressed_keys: HashMap::new(),
            multi_purpose_keys: Vec::new(),
            override_remaps: Vec::new(),
            override_timeout_key: None,
            timer: None,
            mode: mode.to_owned(),
            mark_set: false,
            escape_next_key: false,
            keypress_delay,
        };
        assert(handler@.override_remaps =~= Seq::empty());
        handler
    }

    fn update_modifier(&mut self, key: Key, value: KeyValue)
        ensures
            final(self)@ == old(self)@.with_modifier(key, value),
    {
        match value {
            KeyValue::Press => {
                if !has_key(&self.modifiers, key) {
                    self.modifiers.push(key);
                }
            },
            KeyValue::Release => {
                self.modifiers = remove_key(&self.modifiers, key);
            },
            KeyValue::Repeat => {},
        }
    }

    fn remove_override(&mut self)
        ensures
            final(self)@ == old(self)@.without_override(),
    {
        self.override_remaps = Vec::new();
        self.override_timeout_key = None;
        self.timer = Some(TimerRequest::Disarm);
        assert(self@.override_remaps =~= Seq::empty());
    }

    fn chord_with_mark(&self, chord: &KeyPress) -> (marked: KeyPress)
        ensures
            marked@ == with_mark(self@, chord@),
    {
        let mut modifiers: Vec<Modifier> = clone_modifiers(&chord.modifiers);
        if self.mark_set && !is_held(Modifier::Shift(Side::Either), &self.modifiers) {
            modifiers.push(Modifier::Shift(Side::Either));
        }
        KeyPress { key: chord.key, modifiers }
    }

    fn dispatch_action(
        &mut self,
        action: &KeymapAction,
        kept: &Vec<Key>,
        key: Key,
        exact_match: bool,
        config: &Config,
        actions: &mut Vec<Action>,
    )
        ensures
            final(self)@ == run_action(old(self)@, config@, action@, kept@, key, exact_match).0,
            views(final(actions)@) == views(old(actions)@) + run_action(
                old(self)@,
                config@,
                action@,
                kept@,
                key,
                exact_match,
            ).1,
    {
        match action {
            KeymapAction::KeyPressAndRelease(chord) => {
                send_key_press_and_release(
                    actions,
                    &self.modifiers,
                    chord,
                    kept,
                    self.keypress_delay,
                );
            },
            KeymapAction::Remap(index) => {
                if *index < config.remaps.len() {
                    let table = build_override_table(&config.remaps[*index].remap, exact_match);
                    assert(table_view(table@) =~= override_table(
                        config@.remaps[*index as int],
                        exact_match,
                    )) by {
                        let spec_table = override_table(config@.remaps[*index as int], exact_match);
                        assert forall|k: u16| table_view(table@).contains_key(k) implies #[trigger] table_view(table@)[k]
                            == spec_table[k] by {
                            assert(entries_at(table_view(table@), k) == table_view(table@)[k]);
                        }
                    }
                    let ghost old_tables = tables_view(self.override_remaps@);
                    if self.override_remaps.len() == 0 {
                        self.override_timeout_key = Some(key);
                        self.timer = Some(TimerRequest::Arm(OVERRIDE_TIMEOUT_MS));
                    }
                    self.override_remaps.push(table);
                    assert(tables_view(self.override_remaps@) =~= old_tables.push(
                        table_view(table@),
                    ));
                }
            },
            KeymapAction::Launch(command) => {
                send_action(actions, Action::Command(clone_strings(command)));
            },
            KeymapAction::SetMode(mode) => {
                self.mode = mode.clone();
            },
            KeymapAction::SetMark(set) => {
                self.mark_set = *set;
            },
            KeymapAction::WithMark(chord) => {
                let marked = self.chord_with_mark(chord);
                send_key_press_and_release(
                    actions,
                    &self.modifiers,
                    &marked,
                    kept,
                    self.keypress_delay,
                );
            },
            KeymapAction::EscapeNextKey(escape) => {
                self.escape_next_key = *escape;
            },
        }
    }

    fn dispatch_actions(
        &mut self,
        list: &Vec<KeymapAction>,
        kept: &Vec<Key>,
        key: Key,
        exact_match: bool,
        config: &Config,
        actions: &mut Vec<Action>,
    )
        ensures
            final(self)@ == run_actions(
                old(self)@,
                config@,
                views(list@),
                kept@,
                key,
                exact_match,
            ).0,
            views(final(actions)@) == views(old(actions)@) + run_actions(
                old(self)@,
                config@,
                views(list@),
                kept@,
                key,
                exact_match,
            ).1,
    {
        let ghost start = views(actions@);
        let ghost all = views(list@);
        let mut i: usize = 0;
        while i < list.len()
            invariant
                i <= list.len(),
                all == views(list@),
                self@ == run_actions(
                    old(self)@,
                    config@,
                    all.take(i as int),
                    kept@,
                    key,
                    exact_match,
                ).0,
                views(actions@) == start + run_actions(
                    old(self)@,
                    config@,
                    all.take(i as int),
                    kept@,
                    key,
                    exact_match,
                ).1,
            decreases list.len() - i,
        {
            assert(all.take(i + 1).drop_last() =~= all.take(i as int));
            self.dispatch_action(&list[i], kept, key, exact_match, config, actions);
            i += 1;
        }
        assert(all.take(list.len() as int) =~= all);
    }

    fn dispatch_entries(
        &mut self,
        candidates: &Vec<Candidate>,
        fired: &Vec<usize>,
        key: Key,
        config: &Config,
        actions: &mut Vec<Action>,
    )
        requires
            forall|k: int| 0 <= k < fired.len() ==> fired@[k] < candidates.len(),
        ensures
            final(self)@ == run_entries(
                old(self)@,
                config@,
                views(candidates@),
                indices(fired@),
                key,
            ).0,
            views(final(actions)@) == views(old(actions)@) + run_entries(
                old(self)@,
                config@,
                views(candidates@),
                indices(fired@),
                key,
            ).1,
    {
        let ghost start = views(actions@);
        let ghost entries = views(candidates@);
        let ghost all = indices(fired@);
        let mut i: usize = 0;
        while i < fired.len()
            invariant
                i <= fired.len(),
                entries == views(candidates@),
                all == indices(fired@),
                forall|k: int| 0 <= k < fired.len() ==> fired@[k] < candidates.len(),
                self@ == run_entries(old(self)@, config@, entries, all.take(i as int), key).0,
                views(actions@) == start + run_entries(
                    old(self)@,
                    config@,
                    entries,
                    all.take(i as int),
                    key,
                ).1,
            decreases fired.len() - i,
        {
            assert(all.take(i + 1).drop_last() =~= all.take(i as int));
            let candidate: &Candidate = &candidates[fired[i]];
            let (kept, _) = diff_modifiers(&self.modifiers, candidate.modifiers);
            self.dispatch_actions(
                candidate.actions,
                &kept,
                key,
                candidate.exact_match,
                config,
                actions,
            );
            i += 1;
        }
        assert(all.take(fired.len() as int) =~= all);
    }

    fn find_in_table(
        &mut self,
        key: Key,
        config: &Config,
        application: &Option<String>,
        actions: &mut Vec<Action>,
        Ghost(before): Ghost<Seq<ActionView>>,
        Ghost(start): Ghost<Seq<ActionView>>,
    ) -> (handled: bool)
        requires
            views(old(actions)@) == start + before,
        ensures
            final(self)@ == resolve_in_table(
                old(self)@,
                config@,
                key,
                optional_string(*application),
                before,
            ).0,
            views(final(actions)@) == start + resolve_in_table(
                old(self)@,
                config@,
                key,
                optional_string(*application),
                before,
            ).1,
            handled == resolve_in_table(
                old(self)@,
                config@,
                key,
                optional_string(*application),
                before,
            ).2,
    {
        broadcast use vstd::std_specs::hash::group_hash_axioms;

        match config.keymap_table.get(&key.0) {
            Some(entries) => {
                let candidates = table_candidates(entries);
                let fired = select_candidates(
                    &candidates,
                    &self.modifiers,
                    &self.mode,
                    application,
                );
                if fired.len() > 0 {
                    self.dispatch_entries(&candidates, &fired, key, config, actions);
                    true
                } else {
                    false
                }
            },
            None => {
                false
            },
        }
    }

    fn find_keymap(
        &mut self,
        key: Key,
        config: &Config,
        application: &Option<String>,
        actions: &mut Vec<Action>,
    ) -> (handled: bool)
        ensures
            final(self)@ == resolve_press(
                old(self)@,
                config@,
                key,
                optional_string(*application),
            ).0,
            views(final(actions)@) == views(old(actions)@) + resolve_press(
                old(self)@,
                config@,
                key,
                optional_string(*application),
            ).1,
            handled == resolve_press(old(self)@, config@, key, optional_string(*application)).2,
    {
        let ghost start = views(actions@);
        if self.override_remaps.len() > 0 {
            let mut overrides: Vec<HashMap<u16, Vec<OverrideEntry>>> = Vec::new();
            std::mem::swap(&mut self.override_remaps, &mut overrides);
            let timeout_key: Option<Key> = self.override_timeout_key;
            let fired: Vec<usize>;
            let no_application: Option<Application> = None;
            let no_mode: Option<Vec<String>> = None;
            let candidates = open_candidates(&overrides, key.0, &no_application, &no_mode);
            fired = select_candidates(&candidates, &self.modifiers, &self.mode, application);
            self.override_timeout_key = None;
            self.timer = Some(TimerRequest::Disarm);
            assert(self@.override_remaps =~= Seq::empty());
            if candidates.len() > 0 {
                if fired.len() > 0 {
                    self.dispatch_entries(&candidates, &fired, key, config, actions);
                    true
                } else {
                    self.find_in_table(
                        key,
                        config,
                        application,
                        actions,
                        Ghost(Seq::empty()),
                        Ghost(start),
                    )
                }
            } else {
                match timeout_key {
                    Some(k) => {
                        send_key(actions, k, KeyValue::Press);
                        send_key(actions, k, KeyValue::Release);
                    },
                    None => {},
                }
                assert(views(actions@) =~= start + replay_actions(timeout_key));
                self.find_in_table(
                    key,
                    config,
                    application,
                    actions,
                    Ghost(replay_actions(timeout_key)),
                    Ghost(start),
                )
            }
        } else {
            self.find_in_table(key, config, application, actions, Ghost(Seq::empty()), Ghost(start))
        }
    }

    fn on_pair(
        &mut self,
        key: Key,
        value: KeyValue,
        event: &KeyEvent,
        config: &Config,
        application: &Option<String>,
        actions: &mut Vec<Action>,
    ) -> (unchanged: bool)
        ensures
            final(self)@ == step_pair(
                old(self)@,
                config@,
                key,
                value,
                *event,
                optional_string(*application),
            ).0,
            views(final(actions)@) == views(old(actions)@) + step_pair(
                old(self)@,
                config@,
                key,
                value,
                *event,
                optional_string(*application),
            ).1,
            unchanged == step_pair(
                old(self)@,
                config@,
                key,
                value,
                *event,
                optional_string(*application),
            ).2,
    {
        if has_key(&config.virtual_modifiers, key) {
            self.update_modifier(key, value);
            return false;
        }
        let mut handled: bool = false;
        if key.is_modifier_key() {
            self.update_modifier(key, value);
        } else if value == KeyValue::Press {
            if self.escape_next_key {
                self.escape_next_key = false;
            } else {
                handled = self.find_keymap(key, config, application, actions);
            }
        }
        if handled {
            return false;
        }
        if key.0 >= DISGUISED_EVENT_OFFSETTER && key == event.key && value == event.value {
            return true;
        }
        send_key(actions, key, value);
        false
    }

    fn on_pairs(
        &mut self,
        pairs: &Vec<(Key, KeyValue)>,
        event: &KeyEvent,
        config: &Config,
        application: &Option<String>,
        actions: &mut Vec<Action>,
    ) -> (unchanged: bool)
        ensures
            final(self)@ == step_pairs(
                old(self)@,
                config@,
                pairs@,
                *event,
                optional_string(*application),
            ).0,
            views(final(actions)@) == views(old(actions)@) + step_pairs(
                old(self)@,
                config@,
                pairs@,
                *event,
                optional_string(*application),
            ).1,
            unchanged == step_pairs(
                old(self)@,
                config@,
                pairs@,
                *event,
                optional_string(*application),
            ).2,
    {
        let ghost start = views(actions@);
        let ghost app = optional_string(*application);
        let mut unchanged: bool = false;
        let mut i: usize = 0;
        while i < pairs.len()
            invariant
                i <= pairs.len(),
                app == optional_string(*application),
                self@ == step_pairs(old(self)@, config@, pairs@.take(i as int), *event, app).0,
                views(actions@) == start + step_pairs(
                    old(self)@,
                    config@,
                    pairs@.take(i as int),
                    *event,
                    app,
                ).1,
                unchanged == step_pairs(old(self)@, config@, pairs@.take(i as int), *event, app).2,
            decreases pairs.len() - i,
        {
            assert(pairs@.take(i + 1).drop_last() =~= pairs@.take(i as int));
            let pair: (Key, KeyValue) = pairs[i];
            let flag = self.on_pair(pair.0, pair.1, event, config, application, actions);
            unchanged = unchanged || flag;
            i += 1;
        }
        assert(pairs@.take(pairs.len() as int) =~= pairs@);
        unchanged
    }

    fn multi_purpose(&mut self, event: &KeyEvent, held: Key, alone: Key) -> (pairs: Vec<
        (Key, KeyValue),
    >)
        ensures
            final(self)@ == multi_purpose_step(old(self)@, *event, held, alone).0,
            pairs@ == multi_purpose_step(old(self)@, *event, held, alone).1,
    {
        let mut pairs: Vec<(Key, KeyValue)> = Vec::new();
        let found: Option<usize> = find_multi_purpose(&self.multi_purpose_keys, event.key);
        match event.value {
            KeyValue::Press => {
                let mut states = remove_multi_purpose(&self.multi_purpose_keys, event.key);
                states.push(MultiPurposeKeyState { key: event.key, held, alone, delayed: true });
                self.multi_purpose_keys = states;
            },
            KeyValue::Repeat => {
                match found {
                    Some(i) => {
                        let state: MultiPurposeKeyState = self.multi_purpose_keys[i];
                        if !state.delayed {
                            pairs.push((state.held, KeyValue::Repeat));
                        }
                    },
                    None => {
                        pairs.push((event.key, event.value));
                    },
                }
            },
            KeyValue::Release => {
                match found {
                    Some(i) => {
                        let state: MultiPurposeKeyState = self.multi_purpose_keys[i];
                        self.multi_purpose_keys = remove_multi_purpose(
                            &self.multi_purpose_keys,
                            event.key,
                        );
                        if state.delayed {
                            pairs.push((state.alone, KeyValue::Press));
                            pairs.push((state.alone, KeyValue::Release));
                        } else {
                            pairs.push((state.held, KeyValue::Release));
                        }
                    },
                    None => {
                        pairs.push((event.key, event.value));
                    },
                }
            },
        }
        pairs
    }

    fn flush_timeout_keys(&mut self, pairs: Vec<(Key, KeyValue)>) -> (flushed: Vec<(Key, KeyValue)>)
        ensures
            final(self)@ == flush_delayed(old(self)@, pairs@).0,
            flushed@ == flush_delayed(old(self)@, pairs@).1,
    {
        if self.multi_purpose_keys.len() == 0 || !any_press(&pairs) {
            return pairs;
        }
        let (held, forced) = force_held(&self.multi_purpose_keys);
        self.multi_purpose_keys = held;
        let rest = drop_forced(&pairs, &forced);
        let mut flushed: Vec<(Key, KeyValue)> = Vec::new();
        let mut i: usize = 0;
        while i < forced.len()
            invariant
                i <= forced.len(),
                flushed.len() == i,
                forall|k: int| 0 <= k < i ==> flushed@[k] == (forced@[k], KeyValue::Press),
            decreases forced.len() - i,
        {
            flushed.push((forced[i], KeyValue::Press));
            i += 1;
        }
        let mut j: usize = 0;
        while j < rest.len()
            invariant
                j <= rest.len(),
                flushed@ == presses(forced@) + rest@.take(j as int),
            decreases rest.len() - j,
        {
            flushed.push(rest[j]);
            j += 1;
        }
        flushed
    }

    fn dispatch_keys(
        &mut self,
        event: &KeyEvent,
        config: &Config,
        application: &Option<String>,
        actions: &mut Vec<Action>,
    ) -> (pairs: Vec<(Key, KeyValue)>)
        ensures
            final(self)@ == apply_modmap(
                old(self)@,
                config@,
                *event,
                optional_string(*application),
            ).0,
            views(final(actions)@) == views(old(actions)@) + apply_modmap(
                old(self)@,
                config@,
                *event,
                optional_string(*application),
            ).1,
            pairs@ == apply_modmap(old(self)@, config@, *event, optional_string(*application)).2,
    {
        let mut pairs: Vec<(Key, KeyValue)> = Vec::new();
        match find_modmap(&config.modmap, event.key, application) {
            None => {
                pairs.push((event.key, event.value));
            },
            Some(ModmapAction::Keys(keys)) => {
                let mut i: usize = 0;
                while i < keys.len()
                    invariant
                        i <= keys.len(),
                        pairs.len() == i,
                        forall|k: int| 0 <= k < i ==> pairs@[k] == (keys@[k], event.value),
                    decreases keys.len() - i,
                {
                    pairs.push((keys[i], event.value));
                    i += 1;
                }
            },
            Some(ModmapAction::MultiPurposeKey { held, alone }) => {
                pairs = self.multi_purpose(event, *held, *alone);
            },
            Some(ModmapAction::PressReleaseKey { press, release }) => {
                let nothing: Vec<Key> = Vec::new();
                match event.value {
                    KeyValue::Press => {
                        self.dispatch_actions(press, &nothing, event.key, false, config, actions);
                    },
                    KeyValue::Release => {
                        self.dispatch_actions(release, &nothing, event.key, false, config, actions);
                    },
                    KeyValue::Repeat => {},
                }
                pairs.push((event.key, event.value));
            },
        }
        pairs
    }

    fn maintain_pressed_keys(&mut self, event: &KeyEvent, pairs: Vec<(Key, KeyValue)>) -> (kept: Vec<
        (Key, KeyValue),
    >)
        ensures
            final(self)@ == maintain_pressed_keys(old(self)@, *event, pairs@).0,
            kept@ == maintain_pressed_keys(old(self)@, *event, pairs@).1,
    {
        broadcast use vstd::std_specs::hash::group_hash_axioms;

        if pairs.len() != 1 {
            return pairs;
        }
        match event.value {
            KeyValue::Press => {
                self.pressed_keys.insert(event.key.0, pairs[0].0);
                pairs
            },
            KeyValue::Repeat => {
                match self.pressed_keys.get(&event.key.0) {
                    Some(recorded) => {
                        let mut kept: Vec<(Key, KeyValue)> = Vec::new();
                        kept.push((*recorded, event.value));
                        kept
                    },
                    None => pairs,
                }
            },
            KeyValue::Release => {
                match self.pressed_keys.remove(&event.key.0) {
                    Some(recorded) => {
                        let mut kept: Vec<(Key, KeyValue)> = Vec::new();
                        kept.push((recorded, event.value));
                        kept
                    },
                    None => {
                        pairs
                    },
                }
            },
        }
    }

    fn on_key_event(
        &mut self,
        event: &KeyEvent,
        config: &Config,
        application: &Option<String>,
        actions: &mut Vec<Action>,
    ) -> (unchanged: bool)
        ensures
            final(self)@ == step_key(old(self)@, config@, *event, optional_string(*application)).0,
            views(final(actions)@) == views(old(actions)@) + step_key(
                old(self)@,
                config@,
                *event,
                optional_string(*application),
            ).1,
            unchanged == step_key(old(self)@, config@, *event, optional_string(*application)).2,
    {
        let pairs = self.dispatch_keys(event, config, application, actions);
        let pairs = self.maintain_pressed_keys(event, pairs);
        let pairs = self.flush_timeout_keys(pairs);
        let unchanged = self.on_pairs(&pairs, event, config, application, actions);
        unchanged
    }

    fn on_relative_event(
        &mut self,
        event: &RelativeEvent,
        config: &Config,
        application: &Option<String>,
        actions: &mut Vec<Action>,
        motion: &mut Vec<RelativeEvent>,
    )
        ensures
            final(self)@ == step_relative(
                old(self)@,
                config@,
                *event,
                optional_string(*application),
            ).0,
            views(final(actions)@) == views(old(actions)@) + step_relative(
                old(self)@,
                config@,
                *event,
                optional_string(*application),
            ).1,
            final(motion)@ == old(motion)@ + step_relative(
                old(self)@,
                config@,
                *event,
                optional_string(*application),
            ).2,
    {
        if event.code > MAX_DISGUISED_AXIS {
            motion.push(*event);
            return ;
        }
        let code: u16 = if event.value < 0 {
            DISGUISED_EVENT_OFFSETTER + 2 * event.code + 1
        } else {
            DISGUISED_EVENT_OFFSETTER + 2 * event.code
        };
        let key = Key(code);
        let press = KeyEvent { key, value: KeyValue::Press };
        let release = KeyEvent { key, value: KeyValue::Release };
        let unchanged = self.on_key_event(&press, config, application, actions);
        let _ = self.on_key_event(&release, config, application, actions);
        if unchanged {
            motion.push(*event);
        }
    }

    fn replay_override(&mut self, actions: &mut Vec<Action>)
        ensures
            final(self)@ == step_timeout(old(self)@).0,
            views(final(actions)@) == views(old(actions)@) + step_timeout(old(self)@).1,
    {
        match self.override_timeout_key {
            Some(k) => {
                send_key(actions, k, KeyValue::Press);
                send_key(actions, k, KeyValue::Release);
            },
            None => {},
        }
        self.remove_override();
    }

    fn on_event(
        &mut self,
        event: &Event,
        config: &Config,
        application: &Option<String>,
        actions: &mut Vec<Action>,
        motion: &mut Vec<RelativeEvent>,
    )
        ensures
            final(self)@ == step(old(self)@, config@, *event, optional_string(*application)).0,
            views(final(actions)@) == views(old(actions)@) + step(
                old(self)@,
                config@,
                *event,
                optional_string(*application),
            ).1,
            final(motion)@ == old(motion)@ + step(
                old(self)@,
                config@,
                *event,
                optional_string(*application),
            ).2,
    {
        match event {
            Event::KeyEvent(e) => {
                let _ = self.on_key_event(e, config, application, actions);
            },
            Event::RelativeEvent(e) => {
                self.on_relative_event(e, config, application, actions, motion);
            },
            Event::OtherEvents(e) => {
                send_action(actions, Action::InputEvent(*e));
            },
            Event::OverrideTimeout => {
                self.replay_override(actions);
            },
        }
    }

    /// Translates `events` while `application` has the focus, and returns
    /// the actions for them.  This is one invocation of the translator: all
    /// pointer motion that passes untranslated is written by one action, the
    /// last.
    pub fn on_events_in(
        &mut self,
        events: &Vec<Event>,
        config: &Config,
        application: &Option<String>,
    ) -> (actions: Vec<Action>)
        ensures
            final(self)@ == translate(
                old(self)@,
                config@,
                events@,
                constant_focus(events@.len(), optional_string(*application)),
            ).0,
            views(actions@) == translate(
                old(self)@,
                config@,
                events@,
                constant_focus(events@.len(), optional_string(*application)),
            ).1,
    {
        let ghost app = optional_string(*application);
        let ghost focus = constant_focus(events@.len(), app);
        let mut actions: Vec<Action> = Vec::new();
        let mut motion: Vec<RelativeEvent> = Vec::new();
        let mut i: usize = 0;
        while i < events.len()
            invariant
                i <= events.len(),
                app == optional_string(*application),
                focus == constant_focus(events@.len(), app),
                self@ == run_events(old(self)@, config@, events@.take(i as int), focus).0,
                views(actions@) == run_events(old(self)@, config@, events@.take(i as int), focus).1,
                motion@ == run_events(old(self)@, config@, events@.take(i as int), focus).2,
            decreases events.len() - i,
        {
            assert(events@.take(i + 1).drop_last() =~= events@.take(i as int));
            self.on_event(&events[i], config, application, &mut actions, &mut motion);
            i += 1;
        }
        assert(events@.take(events.len() as int) =~= events@);
        flush(&mut actions, motion);
        actions
    }

    /// Translates `events`, asking `client` for the focused application
    /// before each key event and each motion, and returns the actions for
    /// them.  Whatever the client answers, the result is the translation of
    /// the events under some list of focused applications, one for each
    /// event.  An application is named only for a key event or a motion, and
    /// only by a client that is supported.
    pub fn on_events(&mut self, events: &Vec<Event>, config: &Config, client: &mut WMClient) -> (actions:
        Vec<Action>)
        ensures
            exists|focus: Seq<Option<Seq<char>>>|
                focus.len() == events@.len() && final(self)@ == (#[trigger] translate(
                    old(self)@,
                    config@,
                    events@,
                    focus,
                )).0 && views(actions@) == translate(old(self)@, config@, events@, focus).1
                    && asked_focus(events@, focus, final(client).known_support()),
            old(client).known_support() is Some ==> final(client).known_support() == old(
                client,
            ).known_support(),
    {
        let ghost mut focus: Seq<Option<Seq<char>>> = Seq::empty();
        let mut actions: Vec<Action> = Vec::new();
        let mut motion: Vec<RelativeEvent> = Vec::new();
        let mut i: usize = 0;
        while i < events.len()
            invariant
                i <= events.len(),
                focus.len() == i,
                asked_focus(events@.take(i as int), focus, client.known_support()),
                old(client).known_support() is Some ==> client.known_support() == old(
                    client,
                ).known_support(),
                self@ == run_events(old(self)@, config@, events@.take(i as int), focus).0,
                views(actions@) == run_events(old(self)@, config@, events@.take(i as int), focus).1,
                motion@ == run_events(old(self)@, config@, events@.take(i as int), focus).2,
            decreases events.len() - i,
        {
            let application: Option<String> = match &events[i] {
                Event::KeyEvent(_) => client.current_application(),
                Event::RelativeEvent(_) => client.current_application(),
                _ => None,
            };
            proof {
                let longer = focus.push(optional_string(application));
                lemma_focus_beyond(old(self)@, config@, events@.take(i as int), focus, longer);
                assert forall|k: int| 0 <= k < longer.len() && (#[trigger] longer[k]) is Some implies (
                events@.take(i + 1)[k] is KeyEvent || events@.take(i + 1)[k] is RelativeEvent)
                    && client.known_support() == Some(true) by {}
                focus = longer;
            }
            assert(events@.take(i + 1).drop_last() =~= events@.take(i as int));
            self.on_event(&events[i], config, &application, &mut actions, &mut motion);
            i += 1;
        }
        assert(events@.take(events.len() as int) =~= events@);
        flush(&mut actions, motion);
        assert(views(actions@) == translate(old(self)@, config@, events@, focus).1);
        actions
    }

    /// Handles the expiry of the prefix timer: the key that opened the
    /// prefix state is replayed as a press and a release, and the state is
    /// left.
    pub fn timeout_override(&mut self) -> (actions: Vec<Action>)
        ensures
            final(self)@ == step_timeout(old(self)@).0,
            views(actions@) == step_timeout(old(self)@).1,
    {
        let mut actions: Vec<Action> = Vec::new();
        self.replay_override(&mut actions);
        actions
    }

    /// Adapts the translator to a configuration that has been loaded anew.
    /// The held modifiers stay.  A pending prefix is closed and the key that
    /// opened it is replayed, the mode becomes the default mode and the
    /// delay that of the configuration.
    pub fn on_config_reload(&mut self, config: &Config) -> (actions: Vec<Action>)
        ensures
            final(self)@ == (HandlerView {
                mode: config@.default_mode,
                keypress_delay: config@.keypress_delay_ms,
                ..old(self)@.without_override()
            }),
            views(actions@) == replay_actions(old(self)@.override_timeout_key),
    {
        let actions = self.timeout_override();
        self.mode = config.default_mode.clone();
        self.keypress_delay = config.keypress_delay_ms;
        actions
    }

    /// What the main loop is to do with the prefix timer since it last
    /// asked.  Asking clears the request.
    pub fn take_timer_request(&mut self) -> (request: Option<TimerRequest>)
        ensures
            request == old(self)@.timer,
            final(self)@ == (HandlerView { timer: None, ..old(self)@ }),
    {
        let request = self.timer;
        self.timer = None;
        request
    }

    /// The releases that bring the output back to rest: one for each held
    /// physical modifier key that is no virtual modifier of `config`, in the
    /// order in which they went down.
    pub fn terminal_releases(&self, config: &Config) -> (actions: Vec<Action>)
        ensures
            views(actions@) == key_actions(
                emitted_modifiers(self@.modifiers, config@.virtual_modifiers),
                KeyValue::Release,
            ),
    {
        let keys = modifiers_to_emit(&self.modifiers, &config.virtual_modifiers);
        let mut actions: Vec<Action> = Vec::new();
        send_keys(&mut actions, &keys, KeyValue::Release);
        actions
    }

    /// The active mode.
    pub fn mode(&self) -> (mode: &String)
        ensures
            mode@ == self@.mode,
    {
        &self.mode
    }

    /// Whether the mark is set.
    pub fn mark_set(&self) -> (set: bool)
        ensures
            set == self@.mark_set,
    {
        self.mark_set
    }

    /// Whether the next key will pass untranslated.
    pub fn escape_next_key(&self) -> (escape: bool)
        ensures
            escape == self@.escape_next_key,
    {
        self.escape_next_key
    }

    /// The held modifier keys, in the order in which they went down.
    pub fn pressed_modifiers(&self) -> (keys: &Vec<Key>)
        ensures
            keys@ == self@.modifiers,
    {
        &self.modifiers
    }

    /// Whether a prefix chord is waiting for its next key.
    pub fn in_prefix(&self) -> (pending: bool)
        ensures
            pending == (self@.override_remaps.len() > 0),
    {
        self.override_remaps.len() > 0
    }

    /// The key that is replayed if the pending prefix leads nowhere.
    pub fn override_timeout_key(&self) -> (key: Option<Key>)
        ensures
            key == self@.override_timeout_key,
    {
        self.override_timeout_key
    }
}

/// Whether `focus` names an application only for a key event or a motion
/// of `events`, and only if the client is known to be supported.
pub open spec fn asked_focus(
    events: Seq<Event>,
    focus: Seq<Option<Seq<char>>>,
    support: Option<bool>,
) -> bool {
    forall|k: int|
        0 <= k < focus.len() && (#[trigger] focus[k]) is Some ==> (events[k] is KeyEvent
            || events[k] is RelativeEvent) && support == Some(true)
}

/// The focus of `n` events that are handled while one application has it.
pub open spec fn constant_focus(n: nat, application: Option<Seq<char>>) -> Seq<Option<Seq<char>>> {
    Seq::new(n, |i: int| application)
}

/// The translation of a list of events asks only for the focus of those
/// events: two lists of focused applications that agree on them give the
/// same translation.
pub proof fn lemma_focus_beyond(
    st: HandlerView,
    cfg: crate::config::ConfigView,
    events: Seq<Event>,
    focus: Seq<Option<Seq<char>>>,
    other: Seq<Option<Seq<char>>>,
)
    requires
        forall|i: int| 0 <= i < events.len() ==> focus[i] == other[i],
    ensures
        run_events(st, cfg, events, focus) == run_events(st, cfg, events, other),
    decreases events.len(),
{
    if events.len() > 0 {
        lemma_focus_beyond(st, cfg, events.drop_last(), focus, other);
    }
}

/// Appends the one action that writes the pointer motion left over.
fn flush(actions: &mut Vec<Action>, motion: Vec<RelativeEvent>)
    ensures
        views(final(actions)@) == views(old(actions)@) + flush_motion(motion@),
{
    if motion.len() > 0 {
        send_action(actions, Action::MouseMovementEventCollection(motion));
    }
}

} // verus!
