//! Keymaps, and the tables that index their entries by trigger key.

use std::collections::HashMap;
use vstd::prelude::*;
use crate::config::application::{
    clone_optional_application, clone_optional_strings, optional_application, optional_strings,
    Application, ApplicationView,
};
use crate::config::key_press::{clone_modifiers, KeyPress, KeyPressView, Modifier};
use crate::config::keymap_action::{clone_actions, KeymapAction, KeymapActionView};
use crate::text::views;

verus! {

/// A chord and what it triggers.
#[derive(Debug)]
pub struct Binding {
    pub key_press: KeyPress,
    pub actions: Vec<KeymapAction>,
}

/// The mathematical value of a [`Binding`].
pub struct BindingView {
    pub key_press: KeyPressView,
    pub actions: Seq<KeymapActionView>,
}

impl View for Binding {
    type V = BindingView;

    open spec fn view(&self) -> BindingView {
        BindingView { key_press: self.key_press@, actions: views(self.actions@) }
    }
}

/// The index of the first of `bindings[from..]` whose chord is `chord`, or
/// the length of `bindings` if there is none.
pub open spec fn chord_index(bindings: Seq<BindingView>, chord: KeyPressView, from: int) -> int
    decreases bindings.len() - from,
{
    if from >= bindings.len() {
        bindings.len() as int
    } else if bindings[from].key_press == chord {
        from
    } else {
        chord_index(bindings, chord, from + 1)
    }
}

/// `bindings` with `binding` bound as well: in the place of the first
/// binding of the same chord if there is one, else at the end.
pub open spec fn bound(bindings: Seq<BindingView>, binding: BindingView) -> Seq<BindingView> {
    let i = chord_index(bindings, binding.key_press, 0);
    if i < bindings.len() {
        bindings.update(i, binding)
    } else {
        bindings.push(binding)
    }
}

/// No two of `bindings` have the same chord, modifiers in the same order.
pub open spec fn distinct_chords(bindings: Seq<BindingView>) -> bool {
    forall|i: int, j: int|
        0 <= i < j < bindings.len() ==> (#[trigger] bindings[i]).key_press != (
        #[trigger] bindings[j]).key_press
}

/// The first binding of a chord stands at or behind `from`, and no binding
/// between `from` and it has the chord.
pub proof fn lemma_chord_index(bindings: Seq<BindingView>, chord: KeyPressView, from: int)
    requires
        0 <= from,
    ensures
        from <= chord_index(bindings, chord, from) || chord_index(bindings, chord, from)
            == bindings.len(),
        chord_index(bindings, chord, from) <= bindings.len(),
        chord_index(bindings, chord, from) < bindings.len() ==> bindings[chord_index(
            bindings,
            chord,
            from,
        )].key_press == chord,
        forall|k: int|
            from <= k < chord_index(bindings, chord, from) ==> (#[trigger] bindings[k]).key_press
                != chord,
    decreases bindings.len() - from,
{
    if from < bindings.len() && bindings[from].key_press != chord {
        lemma_chord_index(bindings, chord, from + 1);
    }
}

/// Binding a chord keeps the chords distinct.
pub proof fn lemma_bound_distinct(bindings: Seq<BindingView>, binding: BindingView)
    requires
        distinct_chords(bindings),
    ensures
        distinct_chords(bound(bindings, binding)),
{
    lemma_chord_index(bindings, binding.key_press, 0);
}

/// Binds a chord: the binding takes the place of the first binding of the
/// same chord, or, if there is none, is appended.
pub fn bind(bindings: &mut Vec<Binding>, binding: Binding)
    ensures
        views(final(bindings)@) == bound(views(old(bindings)@), binding@),
{
    let ghost all = views(bindings@);
    let mut i: usize = 0;
    while i < bindings.len()
        invariant
            i <= bindings.len(),
            all == views(bindings@),
            bindings@ == old(bindings)@,
            chord_index(all, binding@.key_press, 0) == chord_index(
                all,
                binding@.key_press,
                i as int,
            ),
        decreases bindings.len() - i,
    {
        if bindings[i].key_press.same(&binding.key_press) {
            bindings[i] = binding;
            return ;
        }
        i += 1;
    }
    proof {
        crate::text::lemma_views_push(bindings@, binding);
    }
    bindings.push(binding);
}

/// A keymap as the configuration declares it: bindings that share a name
/// and the filters under which they apply.  Of two bindings with the same
/// chord the earlier one is found first.
#[derive(Debug)]
pub struct Keymap {
    pub name: String,
    pub remap: Vec<Binding>,
    pub application: Option<Application>,
    pub mode: Option<Vec<String>>,
    /// Whether the bindings fire only when no modifier is held beyond those
    /// of the chord.
    pub exact_match: bool,
}

/// The mathematical value of a [`Keymap`].
pub struct KeymapView {
    pub name: Seq<char>,
    pub remap: Seq<BindingView>,
    pub application: Option<ApplicationView>,
    pub mode: Option<Seq<Seq<char>>>,
    pub exact_match: bool,
}

impl View for Keymap {
    type V = KeymapView;

    open spec fn view(&self) -> KeymapView {
        KeymapView {
            name: self.name@,
            remap: views(self.remap@),
            application: optional_application(self.application),
            mode: optional_strings(self.mode),
            exact_match: self.exact_match,
        }
    }
}

/// A binding as the lookup sees it: what it does, the modifiers of its
/// chord, and the filters of the keymap it comes from.
#[derive(Debug)]
pub struct KeymapEntry {
    pub actions: Vec<KeymapAction>,
    pub modifiers: Vec<Modifier>,
    pub application: Option<Application>,
    pub mode: Option<Vec<String>>,
    pub exact_match: bool,
}

/// The mathematical value of a [`KeymapEntry`].
pub struct KeymapEntryView {
    pub actions: Seq<KeymapActionView>,
    pub modifiers: Seq<Modifier>,
    pub application: Option<ApplicationView>,
    pub mode: Option<Seq<Seq<char>>>,
    pub exact_match: bool,
}

impl View for KeymapEntry {
    type V = KeymapEntryView;

    open spec fn view(&self) -> KeymapEntryView {
        KeymapEntryView {
            actions: views(self.actions@),
            modifiers: self.modifiers@,
            application: optional_application(self.application),
            mode: optional_strings(self.mode),
            exact_match: self.exact_match,
        }
    }
}

/// A binding of a nested remap as the lookup sees it.
#[derive(Debug)]
pub struct OverrideEntry {
    pub actions: Vec<KeymapAction>,
    pub modifiers: Vec<Modifier>,
    pub exact_match: bool,
}

/// The mathematical value of an [`OverrideEntry`].
pub struct OverrideEntryView {
    pub actions: Seq<KeymapActionView>,
    pub modifiers: Seq<Modifier>,
    pub exact_match: bool,
}

impl View for OverrideEntry {
    type V = OverrideEntryView;

    open spec fn view(&self) -> OverrideEntryView {
        OverrideEntryView {
            actions: views(self.actions@),
            modifiers: self.modifiers@,
            exact_match: self.exact_match,
        }
    }
}

/// The entries that a table holds for `key`: none where the key is absent.
pub open spec fn entries_at<E>(table: Map<u16, Seq<E>>, key: u16) -> Seq<E> {
    if table.contains_key(key) {
        table[key]
    } else {
        Seq::empty()
    }
}

/// The mathematical value of a table from key codes to lists of entries.
pub open spec fn table_view<T: View>(table: Map<u16, Vec<T>>) -> Map<u16, Seq<T::V>> {
    Map::new(|key: u16| table.contains_key(key), |key: u16| views(table[key]@))
}

/// The entry that `binding` contributes when it stands in `keymap`.
pub open spec fn keymap_entry(keymap: KeymapView, binding: BindingView) -> KeymapEntryView {
    KeymapEntryView {
        actions: binding.actions,
        modifiers: binding.key_press.modifiers,
        application: keymap.application,
        mode: keymap.mode,
        exact_match: keymap.exact_match,
    }
}

/// The entries that the first `n` bindings of `keymap` contribute for `key`.
pub open spec fn entries_of_keymap(keymap: KeymapView, n: int, key: u16) -> Seq<KeymapEntryView>
    decreases n,
{
    if n <= 0 {
        Seq::empty()
    } else {
        let rest = entries_of_keymap(keymap, n - 1, key);
        if keymap.remap[n - 1].key_press.key.0 == key {
            rest.push(keymap_entry(keymap, keymap.remap[n - 1]))
        } else {
            rest
        }
    }
}

/// The entries for `key` of a list of keymaps: those of each keymap in
/// turn, within a keymap in the order of its bindings.
pub open spec fn keymap_entries(keymaps: Seq<KeymapView>, key: u16) -> Seq<KeymapEntryView>
    decreases keymaps.len(),
{
    if keymaps.len() == 0 {
        Seq::empty()
    } else {
        keymap_entries(keymaps.drop_last(), key) + entries_of_keymap(
            keymaps.last(),
            keymaps.last().remap.len() as int,
            key,
        )
    }
}

/// The entry that `binding` contributes to an override table.
pub open spec fn override_entry(binding: BindingView, exact_match: bool) -> OverrideEntryView {
    OverrideEntryView {
        actions: binding.actions,
        modifiers: binding.key_press.modifiers,
        exact_match,
    }
}

/// The entries for `key` of a nested remap, in the order of its bindings.
pub open spec fn override_entries(remap: Seq<BindingView>, exact_match: bool, key: u16) -> Seq<
    OverrideEntryView,
>
    decreases remap.len(),
{
    if remap.len() == 0 {
        Seq::empty()
    } else {
        let rest = override_entries(remap.drop_last(), exact_match, key);
        if remap.last().key_press.key.0 == key {
            rest.push(override_entry(remap.last(), exact_match))
        } else {
            rest
        }
    }
}

/// Appends `entry` to the list that `table` holds for `key`.
fn push_entry<T: View>(table: &mut HashMap<u16, Vec<T>>, key: u16, entry: T)
    ensures
        forall|k: u16|
            entries_at(table_view(final(table)@), k) == if k == key {
                entries_at(table_view(old(table)@), k).push(entry@)
            } else {
                entries_at(table_view(old(table)@), k)
            },
        forall|k: u16|
            final(table)@.contains_key(k) <==> (k == key || old(table)@.contains_key(k)),
{
    broadcast use vstd::std_specs::hash::group_hash_axioms;

    let mut entries: Vec<T> = match table.remove(&key) {
        Some(entries) => entries,
        None => Vec::new(),
    };
    let ghost before = entries@;
    entries.push(entry);
    proof {
        crate::text::lemma_views_push(before, entry);
    }
    table.insert(key, entries);
}

/// Indexes the bindings of `keymaps` by the key of their chord.  Under each
/// key stand the entries of all bindings with that key, in the order of the
/// keymaps and, within a keymap, of its bindings; a key of no binding is
/// absent.
pub fn build_keymap_table(keymaps: &Vec<Keymap>) -> (table: HashMap<u16, Vec<KeymapEntry>>)
    ensures
        forall|key: u16|
            entries_at(table_view(table@), key) == keymap_entries(views(keymaps@), key),
        forall|key: u16|
            table@.contains_key(key) <==> keymap_entries(views(keymaps@), key).len() > 0,
{
    let mut table: HashMap<u16, Vec<KeymapEntry>> = HashMap::new();
    let mut i: usize = 0;
    while i < keymaps.len()
        invariant
            i <= keymaps.len(),
            forall|key: u16|
                entries_at(table_view(table@), key) == keymap_entries(
                    views(keymaps@).take(i as int),
                    key,
                ),
            forall|key: u16|
                table@.contains_key(key) <==> keymap_entries(
                    views(keymaps@).take(i as int),
                    key,
                ).len() > 0,
        decreases keymaps.len() - i,
    {
        let keymap: &Keymap = &keymaps[i];
        let ghost done = views(keymaps@).take(i as int);
        let mut j: usize = 0;
        while j < keymap.remap.len()
            invariant
                j <= keymap.remap.len(),
                forall|key: u16|
                    entries_at(table_view(table@), key) == keymap_entries(done, key)
                        + entries_of_keymap(keymap@, j as int, key),
                forall|key: u16|
                    table@.contains_key(key) <==> (keymap_entries(done, key) + entries_of_keymap(
                        keymap@,
                        j as int,
                        key,
                    )).len() > 0,
            decreases keymap.remap.len() - j,
        {
            let binding: &Binding = &keymap.remap[j];
            let entry = KeymapEntry {
                actions: clone_actions(&binding.actions),
                modifiers: clone_modifiers(&binding.key_press.modifiers),
                application: clone_optional_application(&keymap.application),
                mode: clone_optional_strings(&keymap.mode),
                exact_match: keymap.exact_match,
            };
            push_entry(&mut table, binding.key_press.key.0, entry);
            j += 1;
        }
        proof {
            let next = views(keymaps@).take(i + 1);
            assert(next.drop_last() =~= done);
        }
        i += 1;
    }
    assert(views(keymaps@).take(keymaps.len() as int) =~= views(keymaps@));
    table
}

/// Indexes the bindings of a nested remap by the key of their chord, each
/// entry carrying `exact_match`.  Under each key stand the entries of the
/// bindings with that key, in their order; a key of no binding is absent.
pub fn build_override_table(remap: &Vec<Binding>, exact_match: bool) -> (table: HashMap<
    u16,
    Vec<OverrideEntry>,
>)
    ensures
        forall|key: u16|
            entries_at(table_view(table@), key) == override_entries(
                views(remap@),
                exact_match,
                key,
            ),
        forall|key: u16|
            table@.contains_key(key) <==> override_entries(views(remap@), exact_match, key).len()
                > 0,
{
    let mut table: HashMap<u16, Vec<OverrideEntry>> = HashMap::new();
    let mut j: usize = 0;
    while j < remap.len()
        invariant
            j <= remap.len(),
            forall|key: u16|
                entries_at(table_view(table@), key) == override_entries(
                    views(remap@).take(j as int),
                    exact_match,
                    key,
                ),
            forall|key: u16|
                table@.contains_key(key) <==> override_entries(
                    views(remap@).take(j as int),
                    exact_match,
                    key,
                ).len() > 0,
        decreases remap.len() - j,
    {
        let binding: &Binding = &remap[j];
        let entry = OverrideEntry {
            actions: clone_actions(&binding.actions),
            modifiers: clone_modifiers(&binding.key_press.modifiers),
            exact_match,
        };
        proof {
            let next = views(remap@).take(j + 1);
            assert(next.drop_last() =~= views(remap@).take(j as int));
        }
        push_entry(&mut table, binding.key_press.key.0, entry);
        j += 1;
    }
    assert(views(remap@).take(remap.len() as int) =~= views(remap@));
    table
}

} // verus!
