//! The configuration as the file writes it, and its compilation into the
//! form that the translator reads.
//!
//! In the file a chord is text and a nested remap stands where it is used.
//! In the compiled form a chord is a key with modifiers, and the nested
//! remaps stand in one list, to which an action refers by index.

use vstd::prelude::*;
use crate::config::application::{
    clone_optional_application, clone_optional_strings, optional_application, optional_strings,
    Application,
};
use crate::config::chord::{chord_named, parse_key_press, ConfigError, ConfigErrorView};
use crate::config::key_name::{key_named, parse_key};
use crate::config::key_press::KeyPress;
use crate::config::keymap::{
    bind, bound, distinct_chords, lemma_bound_distinct, Binding, BindingView, Keymap, KeymapView,
};
use crate::config::keymap_action::{KeymapAction, KeymapActionView};
use crate::config::modmap::{
    bind_key, distinct_keys, key_bound, lemma_key_bound_distinct, Modmap, ModmapAction,
    ModmapActionView, ModmapBinding, ModmapBindingView, ModmapView,
};
use crate::config::{Config, Remap};
use crate::key::Key;
use crate::text::{clone_strings, lemma_views_push, views};

verus! {

/// An action as the file writes it.
#[derive(Debug)]
pub enum ActionTree {
    /// A chord to emit, such as `C-right`.
    KeyPress(String),
    /// A nested remap: the bindings for the key that follows.
    Remap(Vec<BindingTree>),
    Launch(Vec<String>),
    SetMode(String),
    SetMark(bool),
    /// A chord to emit with Shift while the mark is set.
    WithMark(String),
    EscapeNextKey(bool),
}

/// A chord and what it triggers, as the file writes them.
#[derive(Debug)]
pub struct BindingTree {
    pub chord: String,
    pub actions: Vec<ActionTree>,
}

/// A keymap as the file writes it.
#[derive(Debug)]
pub struct KeymapTree {
    pub name: String,
    pub remap: Vec<BindingTree>,
    pub application: Option<Application>,
    pub mode: Option<Vec<String>>,
    pub exact_match: bool,
}

/// What a modmap does with a key, as the file writes it.
#[derive(Debug)]
pub enum ModmapActionTree {
    Keys(Vec<String>),
    MultiPurposeKey { held: String, alone: String },
    PressReleaseKey { press: Vec<ActionTree>, release: Vec<ActionTree> },
}

/// A key and what a modmap does with it, as the file writes them.
#[derive(Debug)]
pub struct ModmapBindingTree {
    pub key: String,
    pub action: ModmapActionTree,
}

/// A modmap as the file writes it.
#[derive(Debug)]
pub struct ModmapTree {
    pub name: String,
    pub remap: Vec<ModmapBindingTree>,
    pub application: Option<Application>,
}

/// The configuration as the file writes it.
#[derive(Debug)]
pub struct ConfigTree {
    pub modmap: Vec<ModmapTree>,
    pub keymap: Vec<KeymapTree>,
    pub default_mode: String,
    pub keypress_delay_ms: u64,
    pub virtual_modifiers: Vec<String>,
}

/// The list of nested remaps while it is built.
pub type Arena = Seq<Seq<BindingView>>;

/// The compiled form of an action, and the nested remaps after it.  The
/// bindings of a nested remap are compiled first; then the remap joins the
/// list, and the action refers to it by its index there.
pub open spec fn compiled_action(tree: ActionTree, arena: Arena) -> Result<
    (KeymapActionView, Arena),
    ConfigErrorView,
>
    decreases tree, 0nat,
{
    match tree {
        ActionTree::KeyPress(chord) => match chord_named(chord@) {
            Ok(c) => Ok((KeymapActionView::KeyPressAndRelease(c), arena)),
            Err(e) => Err(e),
        },
        ActionTree::Remap(bindings) => match compiled_bindings(
            bindings,
            bindings.len() as nat,
            arena,
        ) {
            Ok((compiled, after)) => Ok(
                (KeymapActionView::Remap(after.len() as int), after.push(compiled)),
            ),
            Err(e) => Err(e),
        },
        ActionTree::Launch(command) => Ok((KeymapActionView::Launch(views(command@)), arena)),
        ActionTree::SetMode(mode) => Ok((KeymapActionView::SetMode(mode@), arena)),
        ActionTree::SetMark(set) => Ok((KeymapActionView::SetMark(set), arena)),
        ActionTree::WithMark(chord) => match chord_named(chord@) {
            Ok(c) => Ok((KeymapActionView::WithMark(c), arena)),
            Err(e) => Err(e),
        },
        ActionTree::EscapeNextKey(escape) => Ok((KeymapActionView::EscapeNextKey(escape), arena)),
    }
}

/// The compiled form of the first `n` of `trees`, and the nested remaps
/// after them; or what is wrong with the first of them that is wrong.
pub open spec fn compiled_actions(trees: Vec<ActionTree>, n: nat, arena: Arena) -> Result<
    (Seq<KeymapActionView>, Arena),
    ConfigErrorView,
>
    decreases trees, n,
{
    if n == 0 || n > trees.len() {
        Ok((Seq::empty(), arena))
    } else {
        match compiled_actions(trees, (n - 1) as nat, arena) {
            Err(e) => Err(e),
            Ok((actions, a1)) => {
                proof {
                    vstd::std_specs::vec::axiom_vec_index_decreases(trees, n - 1);
                }
                match compiled_action(trees[n - 1], a1) {
                    Err(e) => Err(e),
                    Ok((action, a2)) => Ok((actions.push(action), a2)),
                }
            },
        }
    }
}

/// The compiled form of the first `n` of `bindings`, and the nested remaps
/// after them; or what is wrong with the first of them that is wrong.  Of a
/// binding the chord is compiled before the actions.  A binding takes the
/// place of an earlier binding of the same chord.
pub open spec fn compiled_bindings(bindings: Vec<BindingTree>, n: nat, arena: Arena) -> Result<
    (Seq<BindingView>, Arena),
    ConfigErrorView,
>
    decreases bindings, n,
{
    if n == 0 || n > bindings.len() {
        Ok((Seq::empty(), arena))
    } else {
        match compiled_bindings(bindings, (n - 1) as nat, arena) {
            Err(e) => Err(e),
            Ok((compiled, a1)) => match chord_named(bindings[n - 1].chord@) {
                Err(e) => Err(e),
                Ok(key_press) => {
                    proof {
                        vstd::std_specs::vec::axiom_vec_index_decreases(bindings, n - 1);
                    }
                    match compiled_actions(
                        bindings[n - 1].actions,
                        bindings[n - 1].actions.len() as nat,
                        a1,
                    ) {
                        Err(e) => Err(e),
                        Ok((actions, a2)) => Ok(
                            (bound(compiled, BindingView { key_press, actions }), a2),
                        ),
                    }
                },
            },
        }
    }
}

/// The compiled form of a keymap, and the nested remaps after it.
pub open spec fn compiled_keymap(tree: KeymapTree, arena: Arena) -> Result<
    (KeymapView, Arena),
    ConfigErrorView,
> {
    match compiled_bindings(tree.remap, tree.remap.len() as nat, arena) {
        Err(e) => Err(e),
        Ok((remap, after)) => Ok(
            (
                KeymapView {
                    name: tree.name@,
                    remap,
                    application: optional_application(tree.application),
                    mode: optional_strings(tree.mode),
                    exact_match: tree.exact_match,
                },
                after,
            ),
        ),
    }
}

/// The compiled form of the first `n` of `keymaps`, and the nested remaps
/// after them; or what is wrong with the first of them that is wrong.
pub open spec fn compiled_keymaps(keymaps: Seq<KeymapTree>, n: nat, arena: Arena) -> Result<
    (Seq<KeymapView>, Arena),
    ConfigErrorView,
>
    decreases n,
{
    if n == 0 {
        Ok((Seq::empty(), arena))
    } else {
        match compiled_keymaps(keymaps, (n - 1) as nat, arena) {
            Err(e) => Err(e),
            Ok((compiled, a1)) => match compiled_keymap(keymaps[n - 1], a1) {
                Err(e) => Err(e),
                Ok((keymap, a2)) => Ok((compiled.push(keymap), a2)),
            },
        }
    }
}

/// The keys that the first `n` of `names` name, or the first of them that
/// names none.
pub open spec fn compiled_keys(names: Seq<String>, n: nat) -> Result<Seq<Key>, ConfigErrorView>
    decreases n,
{
    if n == 0 {
        Ok(Seq::empty())
    } else {
        match compiled_keys(names, (n - 1) as nat) {
            Err(e) => Err(e),
            Ok(keys) => match key_named(names[n - 1]@) {
                Some(key) => Ok(keys.push(key)),
                None => Err(ConfigErrorView::UnknownKey(names[n - 1]@)),
            },
        }
    }
}

/// The key that `name` names, or the error that it names none.
pub open spec fn compiled_key(name: Seq<char>) -> Result<Key, ConfigErrorView> {
    match key_named(name) {
        Some(key) => Ok(key),
        None => Err(ConfigErrorView::UnknownKey(name)),
    }
}

/// The compiled form of what a modmap does with a key, and the nested
/// remaps after it.  Of two keys `held` is compiled before `alone`, of two
/// hooks `press` before `release`.
pub open spec fn compiled_modmap_action(tree: ModmapActionTree, arena: Arena) -> Result<
    (ModmapActionView, Arena),
    ConfigErrorView,
> {
    match tree {
        ModmapActionTree::Keys(names) => match compiled_keys(names@, names.len() as nat) {
            Err(e) => Err(e),
            Ok(keys) => Ok((ModmapActionView::Keys(keys), arena)),
        },
        ModmapActionTree::MultiPurposeKey { held, alone } => match compiled_key(held@) {
            Err(e) => Err(e),
            Ok(h) => match compiled_key(alone@) {
                Err(e) => Err(e),
                Ok(a) => Ok((ModmapActionView::MultiPurposeKey { held: h, alone: a }, arena)),
            },
        },
        ModmapActionTree::PressReleaseKey { press, release } => match compiled_actions(
            press,
            press.len() as nat,
            arena,
        ) {
            Err(e) => Err(e),
            Ok((p, a1)) => match compiled_actions(release, release.len() as nat, a1) {
                Err(e) => Err(e),
                Ok((r, a2)) => Ok((ModmapActionView::PressReleaseKey { press: p, release: r }, a2)),
            },
        },
    }
}

/// The compiled form of the first `n` bindings of a modmap, and the nested
/// remaps after them.  Of a binding the key is compiled before the action.
/// A binding takes the place of an earlier binding of the same key.
pub open spec fn compiled_modmap_bindings(
    bindings: Seq<ModmapBindingTree>,
    n: nat,
    arena: Arena,
) -> Result<(Seq<ModmapBindingView>, Arena), ConfigErrorView>
    decreases n,
{
    if n == 0 {
        Ok((Seq::empty(), arena))
    } else {
        match compiled_modmap_bindings(bindings, (n - 1) as nat, arena) {
            Err(e) => Err(e),
            Ok((compiled, a1)) => match compiled_key(bindings[n - 1].key@) {
                Err(e) => Err(e),
                Ok(key) => match compiled_modmap_action(bindings[n - 1].action, a1) {
                    Err(e) => Err(e),
                    Ok((action, a2)) => Ok(
                        (key_bound(compiled, ModmapBindingView { key, action }), a2),
                    ),
                },
            },
        }
    }
}

/// The compiled form of the first `n` of `modmaps`, and the nested remaps
/// after them.
pub open spec fn compiled_modmaps(modmaps: Seq<ModmapTree>, n: nat, arena: Arena) -> Result<
    (Seq<ModmapView>, Arena),
    ConfigErrorView,
>
    decreases n,
{
    if n == 0 {
        Ok((Seq::empty(), arena))
    } else {
        match compiled_modmaps(modmaps, (n - 1) as nat, arena) {
            Err(e) => Err(e),
            Ok((compiled, a1)) => match compiled_modmap_bindings(
                modmaps[n - 1].remap@,
                modmaps[n - 1].remap.len() as nat,
                a1,
            ) {
                Err(e) => Err(e),
                Ok((remap, a2)) => Ok(
                    (
                        compiled.push(
                            ModmapView {
                                name: modmaps[n - 1].name@,
                                remap,
                                application: optional_application(modmaps[n - 1].application),
                            },
                        ),
                        a2,
                    ),
                ),
            },
        }
    }
}

/// What the compilation of a configuration yields.
pub struct Compiled {
    pub modmap: Seq<ModmapView>,
    pub keymap: Seq<KeymapView>,
    pub remaps: Arena,
    pub virtual_modifiers: Seq<Key>,
}

/// The compiled form of a configuration, or what is wrong with the first
/// part of it that is wrong: the modmaps are compiled first, then the
/// keymaps, then the virtual modifiers.
pub open spec fn compiled_config(tree: ConfigTree) -> Result<Compiled, ConfigErrorView> {
    match compiled_modmaps(tree.modmap@, tree.modmap.len() as nat, Seq::empty()) {
        Err(e) => Err(e),
        Ok((modmap, a1)) => match compiled_keymaps(tree.keymap@, tree.keymap.len() as nat, a1) {
            Err(e) => Err(e),
            Ok((keymap, remaps)) => match compiled_keys(
                tree.virtual_modifiers@,
                tree.virtual_modifiers.len() as nat,
            ) {
                Err(e) => Err(e),
                Ok(virtual_modifiers) => Ok(Compiled { modmap, keymap, remaps, virtual_modifiers }),
            },
        },
    }
}

fn compile_action(tree: &ActionTree, remaps: &mut Vec<Remap>) -> (result: Result<
    KeymapAction,
    ConfigError,
>)
    ensures
        match result {
            Ok(action) => compiled_action(*tree, views(old(remaps)@)) == Ok::<
                (KeymapActionView, Arena),
                ConfigErrorView,
            >((action@, views(final(remaps)@))),
            Err(e) => compiled_action(*tree, views(old(remaps)@)) == Err::<
                (KeymapActionView, Arena),
                ConfigErrorView,
            >(e@),
        },
    decreases tree,
{
    match tree {
        ActionTree::KeyPress(chord) => match parse_key_press(chord.as_str()) {
            Ok(c) => Ok(KeymapAction::KeyPressAndRelease(c)),
            Err(e) => Err(e),
        },
        ActionTree::Remap(bindings) => match compile_bindings(bindings, remaps) {
            Ok(compiled) => {
                let index: usize = remaps.len();
                proof {
                    lemma_views_push(remaps@, Remap { remap: compiled });
                }
                remaps.push(Remap { remap: compiled });
                Ok(KeymapAction::Remap(index))
            },
            Err(e) => Err(e),
        },
        ActionTree::Launch(command) => Ok(KeymapAction::Launch(clone_strings(command))),
        ActionTree::SetMode(mode) => Ok(KeymapAction::SetMode(mode.clone())),
        ActionTree::SetMark(set) => Ok(KeymapAction::SetMark(*set)),
        ActionTree::WithMark(chord) => match parse_key_press(chord.as_str()) {
            Ok(c) => Ok(KeymapAction::WithMark(c)),
            Err(e) => Err(e),
        },
        ActionTree::EscapeNextKey(escape) => Ok(KeymapAction::EscapeNextKey(*escape)),
    }
}

fn compile_actions(trees: &Vec<ActionTree>, remaps: &mut Vec<Remap>) -> (result: Result<
    Vec<KeymapAction>,
    ConfigError,
>)
    ensures
        match result {
            Ok(actions) => compiled_actions(*trees, trees.len() as nat, views(old(remaps)@))
                == Ok::<(Seq<KeymapActionView>, Arena), ConfigErrorView>(
                (views(actions@), views(final(remaps)@)),
            ),
            Err(e) => compiled_actions(*trees, trees.len() as nat, views(old(remaps)@)) == Err::<
                (Seq<KeymapActionView>, Arena),
                ConfigErrorView,
            >(e@),
        },
    decreases trees,
{
    let ghost start = views(remaps@);
    let mut actions: Vec<KeymapAction> = Vec::new();
    let mut i: usize = 0;
    assert(views(actions@) =~= Seq::empty());
    while i < trees.len()
        invariant
            i <= trees.len(),
            start == views(old(remaps)@),
            compiled_actions(*trees, i as nat, start) == Ok::<
                (Seq<KeymapActionView>, Arena),
                ConfigErrorView,
            >((views(actions@), views(remaps@))),
        decreases trees.len() - i,
    {
        proof {
            vstd::std_specs::vec::axiom_vec_index_decreases(*trees, i as int);
        }
        match compile_action(&trees[i], remaps) {
            Ok(action) => {
                proof {
                    lemma_views_push(actions@, action);
                }
                actions.push(action);
            },
            Err(e) => {
                proof {
                    lemma_compiled_actions_fail(*trees, i as nat, trees.len() as nat, start);
                }
                return Err(e);
            },
        }
        i += 1;
    }
    Ok(actions)
}

fn compile_bindings(bindings: &Vec<BindingTree>, remaps: &mut Vec<Remap>) -> (result: Result<
    Vec<Binding>,
    ConfigError,
>)
    ensures
        match result {
            Ok(compiled) => compiled_bindings(
                *bindings,
                bindings.len() as nat,
                views(old(remaps)@),
            ) == Ok::<(Seq<BindingView>, Arena), ConfigErrorView>(
                (views(compiled@), views(final(remaps)@)),
            ),
            Err(e) => compiled_bindings(*bindings, bindings.len() as nat, views(old(remaps)@))
                == Err::<(Seq<BindingView>, Arena), ConfigErrorView>(e@),
        },
    decreases bindings,
{
    let ghost start = views(remaps@);
    let mut compiled: Vec<Binding> = Vec::new();
    let mut i: usize = 0;
    assert(views(compiled@) =~= Seq::empty());
    while i < bindings.len()
        invariant
            i <= bindings.len(),
            start == views(old(remaps)@),
            compiled_bindings(*bindings, i as nat, start) == Ok::<
                (Seq<BindingView>, Arena),
                ConfigErrorView,
            >((views(compiled@), views(remaps@))),
        decreases bindings.len() - i,
    {
        proof {
            vstd::std_specs::vec::axiom_vec_index_decreases(*bindings, i as int);
        }
        let key_press: KeyPress = match parse_key_press(bindings[i].chord.as_str()) {
            Ok(c) => c,
            Err(e) => {
                proof {
                    lemma_compiled_bindings_fail(*bindings, i as nat, bindings.len() as nat, start);
                }
                return Err(e);
            },
        };
        match compile_actions(&bindings[i].actions, remaps) {
            Ok(actions) => {
                bind(&mut compiled, Binding { key_press, actions });
            },
            Err(e) => {
                proof {
                    lemma_compiled_bindings_fail(*bindings, i as nat, bindings.len() as nat, start);
                }
                return Err(e);
            },
        }
        i += 1;
    }
    Ok(compiled)
}

/// Where the compilation of a list of actions fails at one action, it
/// fails with the same error for every longer part of the list.
pub proof fn lemma_compiled_actions_fail(trees: Vec<ActionTree>, i: nat, n: nat, arena: Arena)
    requires
        i < n <= trees.len(),
        compiled_actions(trees, i, arena) is Ok,
        compiled_action(trees[i as int], compiled_actions(trees, i, arena)->Ok_0.1) is Err,
    ensures
        compiled_actions(trees, n, arena) == Err::<(Seq<KeymapActionView>, Arena), ConfigErrorView>(
            compiled_action(trees[i as int], compiled_actions(trees, i, arena)->Ok_0.1)->Err_0,
        ),
    decreases n,
{
    if n > i + 1 {
        lemma_compiled_actions_fail(trees, i, (n - 1) as nat, arena);
    }
}

/// Where the compilation of a list of bindings fails at one binding, it
/// fails with the same error for every longer part of the list.
pub proof fn lemma_compiled_bindings_fail(bindings: Vec<BindingTree>, i: nat, n: nat, arena: Arena)
    requires
        i < n <= bindings.len(),
        compiled_bindings(bindings, i, arena) is Ok,
        compiled_bindings(bindings, i + 1, arena) is Err,
    ensures
        compiled_bindings(bindings, n, arena) == compiled_bindings(bindings, i + 1, arena),
    decreases n,
{
    if n > i + 1 {
        lemma_compiled_bindings_fail(bindings, i, (n - 1) as nat, arena);
    }
}

fn compile_keymap(tree: &KeymapTree, remaps: &mut Vec<Remap>) -> (result: Result<
    Keymap,
    ConfigError,
>)
    ensures
        match result {
            Ok(keymap) => compiled_keymap(*tree, views(old(remaps)@)) == Ok::<
                (KeymapView, Arena),
                ConfigErrorView,
            >((keymap@, views(final(remaps)@))),
            Err(e) => compiled_keymap(*tree, views(old(remaps)@)) == Err::<
                (KeymapView, Arena),
                ConfigErrorView,
            >(e@),
        },
{
    match compile_bindings(&tree.remap, remaps) {
        Ok(remap) => Ok(
            Keymap {
                name: tree.name.clone(),
                remap,
                application: clone_optional_application(&tree.application),
                mode: clone_optional_strings(&tree.mode),
                exact_match: tree.exact_match,
            },
        ),
        Err(e) => Err(e),
    }
}

fn compile_keymaps(keymaps: &Vec<KeymapTree>, remaps: &mut Vec<Remap>) -> (result: Result<
    Vec<Keymap>,
    ConfigError,
>)
    ensures
        match result {
            Ok(compiled) => compiled_keymaps(keymaps@, keymaps.len() as nat, views(old(remaps)@))
                == Ok::<(Seq<KeymapView>, Arena), ConfigErrorView>(
                (views(compiled@), views(final(remaps)@)),
            ),
            Err(e) => compiled_keymaps(keymaps@, keymaps.len() as nat, views(old(remaps)@))
                == Err::<(Seq<KeymapView>, Arena), ConfigErrorView>(e@),
        },
{
    let ghost start = views(remaps@);
    let mut compiled: Vec<Keymap> = Vec::new();
    let mut i: usize = 0;
    assert(views(compiled@) =~= Seq::empty());
    while i < keymaps.len()
        invariant
            i <= keymaps.len(),
            start == views(old(remaps)@),
            compiled_keymaps(keymaps@, i as nat, start) == Ok::<
                (Seq<KeymapView>, Arena),
                ConfigErrorView,
            >((views(compiled@), views(remaps@))),
        decreases keymaps.len() - i,
    {
        match compile_keymap(&keymaps[i], remaps) {
            Ok(keymap) => {
                proof {
                    lemma_views_push(compiled@, keymap);
                }
                compiled.push(keymap);
            },
            Err(e) => {
                proof {
                    lemma_compiled_keymaps_fail(keymaps@, i as nat, keymaps.len() as nat, start);
                }
                return Err(e);
            },
        }
        i += 1;
    }
    Ok(compiled)
}

/// Where the compilation of a list of keymaps fails at one keymap, it fails
/// with the same error for every longer part of the list.
pub proof fn lemma_compiled_keymaps_fail(keymaps: Seq<KeymapTree>, i: nat, n: nat, arena: Arena)
    requires
        i < n,
        compiled_keymaps(keymaps, i + 1, arena) is Err,
    ensures
        compiled_keymaps(keymaps, n, arena) == compiled_keymaps(keymaps, i + 1, arena),
    decreases n,
{
    if n > i + 1 {
        lemma_compiled_keymaps_fail(keymaps, i, (n - 1) as nat, arena);
    }
}

/// The key that `name` names, or the error that it names none.
pub fn compile_key(name: &String) -> (result: Result<Key, ConfigError>)
    ensures
        match result {
            Ok(key) => compiled_key(name@) == Ok::<Key, ConfigErrorView>(key),
            Err(e) => compiled_key(name@) == Err::<Key, ConfigErrorView>(e@),
        },
{
    match parse_key(name.as_str()) {
        Some(key) => Ok(key),
        None => Err(ConfigError::UnknownKey(name.clone())),
    }
}

/// The keys that `names` name, or the error that one of them names none.
pub fn compile_keys(names: &Vec<String>) -> (result: Result<Vec<Key>, ConfigError>)
    ensures
        match result {
            Ok(keys) => compiled_keys(names@, names.len() as nat) == Ok::<
                Seq<Key>,
                ConfigErrorView,
            >(keys@),
            Err(e) => compiled_keys(names@, names.len() as nat) == Err::<Seq<Key>, ConfigErrorView>(
                e@,
            ),
        },
{
    let mut keys: Vec<Key> = Vec::new();
    let mut i: usize = 0;
    while i < names.len()
        invariant
            i <= names.len(),
            compiled_keys(names@, i as nat) == Ok::<Seq<Key>, ConfigErrorView>(keys@),
        decreases names.len() - i,
    {
        match compile_key(&names[i]) {
            Ok(key) => {
                keys.push(key);
            },
            Err(e) => {
                proof {
                    lemma_compiled_keys_fail(names@, i as nat, names.len() as nat);
                }
                return Err(e);
            },
        }
        i += 1;
    }
    Ok(keys)
}

/// Where a list of names fails to name keys at one name, it fails with the
/// same error for every longer part of the list.
pub proof fn lemma_compiled_keys_fail(names: Seq<String>, i: nat, n: nat)
    requires
        i < n,
        compiled_keys(names, i + 1) is Err,
    ensures
        compiled_keys(names, n) == compiled_keys(names, i + 1),
    decreases n,
{
    if n > i + 1 {
        lemma_compiled_keys_fail(names, i, (n - 1) as nat);
    }
}

fn compile_modmap_action(tree: &ModmapActionTree, remaps: &mut Vec<Remap>) -> (result: Result<
    ModmapAction,
    ConfigError,
>)
    ensures
        match result {
            Ok(action) => compiled_modmap_action(*tree, views(old(remaps)@)) == Ok::<
                (ModmapActionView, Arena),
                ConfigErrorView,
            >((action@, views(final(remaps)@))),
            Err(e) => compiled_modmap_action(*tree, views(old(remaps)@)) == Err::<
                (ModmapActionView, Arena),
                ConfigErrorView,
            >(e@),
        },
{
    match tree {
        ModmapActionTree::Keys(names) => match compile_keys(names) {
            Ok(keys) => Ok(ModmapAction::Keys(keys)),
            Err(e) => Err(e),
        },
        ModmapActionTree::MultiPurposeKey { held, alone } => match compile_key(held) {
            Err(e) => Err(e),
            Ok(h) => match compile_key(alone) {
                Err(e) => Err(e),
                Ok(a) => Ok(ModmapAction::MultiPurposeKey { held: h, alone: a }),
            },
        },
        ModmapActionTree::PressReleaseKey { press, release } => match compile_actions(
            press,
            remaps,
        ) {
            Err(e) => Err(e),
            Ok(p) => match compile_actions(release, remaps) {
                Err(e) => Err(e),
                Ok(r) => Ok(ModmapAction::PressReleaseKey { press: p, release: r }),
            },
        },
    }
}

fn compile_modmap_bindings(bindings: &Vec<ModmapBindingTree>, remaps: &mut Vec<Remap>) -> (result:
    Result<Vec<ModmapBinding>, ConfigError>)
    ensures
        match result {
            Ok(compiled) => compiled_modmap_bindings(
                bindings@,
                bindings.len() as nat,
                views(old(remaps)@),
            ) == Ok::<(Seq<ModmapBindingView>, Arena), ConfigErrorView>(
                (views(compiled@), views(final(remaps)@)),
            ),
            Err(e) => compiled_modmap_bindings(
                bindings@,
                bindings.len() as nat,
                views(old(remaps)@),
            ) == Err::<(Seq<ModmapBindingView>, Arena), ConfigErrorView>(e@),
        },
{
    let ghost start = views(remaps@);
    let mut compiled: Vec<ModmapBinding> = Vec::new();
    let mut i: usize = 0;
    assert(views(compiled@) =~= Seq::empty());
    while i < bindings.len()
        invariant
            i <= bindings.len(),
            start == views(old(remaps)@),
            compiled_modmap_bindings(bindings@, i as nat, start) == Ok::<
                (Seq<ModmapBindingView>, Arena),
                ConfigErrorView,
            >((views(compiled@), views(remaps@))),
        decreases bindings.len() - i,
    {
        let key: Key = match compile_key(&bindings[i].key) {
            Ok(key) => key,
            Err(e) => {
                proof {
                    lemma_compiled_modmap_bindings_fail(
                        bindings@,
                        i as nat,
                        bindings.len() as nat,
                        start,
                    );
                }
                return Err(e);
            },
        };
        match compile_modmap_action(&bindings[i].action, remaps) {
            Ok(action) => {
                bind_key(&mut compiled, ModmapBinding { key, action });
            },
            Err(e) => {
                proof {
                    lemma_compiled_modmap_bindings_fail(
                        bindings@,
                        i as nat,
                        bindings.len() as nat,
                        start,
                    );
                }
                return Err(e);
            },
        }
        i += 1;
    }
    Ok(compiled)
}

/// Where the compilation of the bindings of a modmap fails at one binding,
/// it fails with the same error for every longer part of the list.
pub proof fn lemma_compiled_modmap_bindings_fail(
    bindings: Seq<ModmapBindingTree>,
    i: nat,
    n: nat,
    arena: Arena,
)
    requires
        i < n,
        compiled_modmap_bindings(bindings, i + 1, arena) is Err,
    ensures
        compiled_modmap_bindings(bindings, n, arena) == compiled_modmap_bindings(
            bindings,
            i + 1,
            arena,
        ),
    decreases n,
{
    if n > i + 1 {
        lemma_compiled_modmap_bindings_fail(bindings, i, (n - 1) as nat, arena);
    }
}

fn compile_modmaps(modmaps: &Vec<ModmapTree>, remaps: &mut Vec<Remap>) -> (result: Result<
    Vec<Modmap>,
    ConfigError,
>)
    ensures
        match result {
            Ok(compiled) => compiled_modmaps(modmaps@, modmaps.len() as nat, views(old(remaps)@))
                == Ok::<(Seq<ModmapView>, Arena), ConfigErrorView>(
                (views(compiled@), views(final(remaps)@)),
            ),
            Err(e) => compiled_modmaps(modmaps@, modmaps.len() as nat, views(old(remaps)@))
                == Err::<(Seq<ModmapView>, Arena), ConfigErrorView>(e@),
        },
{
    let ghost start = views(remaps@);
    let mut compiled: Vec<Modmap> = Vec::new();
    let mut i: usize = 0;
    assert(views(compiled@) =~= Seq::empty());
    while i < modmaps.len()
        invariant
            i <= modmaps.len(),
            start == views(old(remaps)@),
            compiled_modmaps(modmaps@, i as nat, start) == Ok::<
                (Seq<ModmapView>, Arena),
                ConfigErrorView,
            >((views(compiled@), views(remaps@))),
        decreases modmaps.len() - i,
    {
        match compile_modmap_bindings(&modmaps[i].remap, remaps) {
            Ok(remap) => {
                let modmap = Modmap {
                    name: modmaps[i].name.clone(),
                    remap,
                    application: clone_optional_application(&modmaps[i].application),
                };
                proof {
                    lemma_views_push(compiled@, modmap);
                }
                compiled.push(modmap);
            },
            Err(e) => {
                proof {
                    lemma_compiled_modmaps_fail(modmaps@, i as nat, modmaps.len() as nat, start);
                }
                return Err(e);
            },
        }
        i += 1;
    }
    Ok(compiled)
}

/// Where the compilation of a list of modmaps fails at one modmap, it fails
/// with the same error for every longer part of the list.
pub proof fn lemma_compiled_modmaps_fail(modmaps: Seq<ModmapTree>, i: nat, n: nat, arena: Arena)
    requires
        i < n,
        compiled_modmaps(modmaps, i + 1, arena) is Err,
    ensures
        compiled_modmaps(modmaps, n, arena) == compiled_modmaps(modmaps, i + 1, arena),
    decreases n,
{
    if n > i + 1 {
        lemma_compiled_modmaps_fail(modmaps, i, (n - 1) as nat, arena);
    }
}

/// Compiles a configuration.  It succeeds if and only if every chord and
/// every key name of the configuration names something; else it reports the
/// first that does not.  In the compiled configuration the table is built,
/// every nested remap refers only to nested remaps before it, and no chord
/// or key is bound twice in one place.
pub fn compile_config(tree: &ConfigTree) -> (result: Result<Config, ConfigError>)
    ensures
        match result {
            Ok(config) => {
                &&& compiled_config(*tree) is Ok
                &&& config@.modmap == compiled_config(*tree)->Ok_0.modmap
                &&& config@.keymap == compiled_config(*tree)->Ok_0.keymap
                &&& config@.remaps == compiled_config(*tree)->Ok_0.remaps
                &&& config@.virtual_modifiers == compiled_config(*tree)->Ok_0.virtual_modifiers
                &&& config@.default_mode == tree.default_mode@
                &&& config@.keypress_delay_ms == tree.keypress_delay_ms
                &&& config@.modify_time is None
                &&& config@.indexed()
                &&& config_closed(config@.modmap, config@.keymap, config@.remaps)
                &&& config_distinct(config@.modmap, config@.keymap, config@.remaps)
            },
            Err(e) => compiled_config(*tree) == Err::<Compiled, ConfigErrorView>(e@),
        },
{
    let mut remaps: Vec<Remap> = Vec::new();
    assert(views(remaps@) =~= Seq::empty());
    proof {
        lemma_compiled_config_closed(*tree);
        lemma_compiled_config_distinct(*tree);
    }
    let modmap: Vec<Modmap> = match compile_modmaps(&tree.modmap, &mut remaps) {
        Ok(modmap) => modmap,
        Err(e) => {
            return Err(e);
        },
    };
    let keymap: Vec<Keymap> = match compile_keymaps(&tree.keymap, &mut remaps) {
        Ok(keymap) => keymap,
        Err(e) => {
            return Err(e);
        },
    };
    let virtual_modifiers: Vec<Key> = match compile_keys(&tree.virtual_modifiers) {
        Ok(keys) => keys,
        Err(e) => {
            return Err(e);
        },
    };
    Ok(
        Config::new(
            modmap,
            keymap,
            remaps,
            tree.default_mode.clone(),
            tree.keypress_delay_ms,
            virtual_modifiers,
        ),
    )
}

/// Whether every nested remap that `actions` open has an index below
/// `bound`.
pub open spec fn actions_refer_below(actions: Seq<KeymapActionView>, bound: int) -> bool {
    forall|i: int|
        0 <= i < actions.len() && (#[trigger] actions[i]) is Remap ==> 0 <= actions[i]->Remap_0
            < bound
}

/// Whether every nested remap that the actions of `bindings` open has an
/// index below `bound`.
pub open spec fn bindings_refer_below(bindings: Seq<BindingView>, bound: int) -> bool {
    forall|j: int|
        0 <= j < bindings.len() ==> actions_refer_below((#[trigger] bindings[j]).actions, bound)
}

/// Whether every nested remap opens only nested remaps that stand before
/// it in the list.  Then every chain of prefixes ends.
pub open spec fn arena_closed(arena: Arena) -> bool {
    forall|r: int| 0 <= r < arena.len() ==> bindings_refer_below(#[trigger] arena[r], r)
}

/// Whether `after` begins with `arena`.
pub open spec fn extends(after: Arena, arena: Arena) -> bool {
    after.len() >= arena.len() && after.subrange(0, arena.len() as int) == arena
}

/// Compiling an action keeps the list of nested remaps closed and only
/// adds to it, and the action opens no nested remap beyond it.
pub proof fn lemma_compiled_action_closed(tree: ActionTree, arena: Arena)
    requires
        arena_closed(arena),
    ensures
        compiled_action(tree, arena) matches Ok((action, after)) ==> {
            &&& arena_closed(after)
            &&& extends(after, arena)
            &&& actions_refer_below(seq![action], after.len() as int)
        },
    decreases tree, 0nat,
{
    match tree {
        ActionTree::Remap(bindings) => {
            lemma_compiled_bindings_closed(bindings, bindings.len() as nat, arena);
            if let Ok((compiled, after)) = compiled_bindings(bindings, bindings.len() as nat, arena) {
                let last = after.push(compiled);
                assert(last.subrange(0, arena.len() as int) =~= after.subrange(
                    0,
                    arena.len() as int,
                ));
            }
        },
        _ => {
            assert(arena.subrange(0, arena.len() as int) =~= arena);
        },
    }
}

/// Compiling actions keeps the list of nested remaps closed and only adds
/// to it, and the actions open no nested remap beyond it.
pub proof fn lemma_compiled_actions_closed(trees: Vec<ActionTree>, n: nat, arena: Arena)
    requires
        arena_closed(arena),
    ensures
        compiled_actions(trees, n, arena) matches Ok((actions, after)) ==> {
            &&& arena_closed(after)
            &&& extends(after, arena)
            &&& actions_refer_below(actions, after.len() as int)
        },
    decreases trees, n,
{
    if n == 0 || n > trees.len() {
        assert(arena.subrange(0, arena.len() as int) =~= arena);
    } else {
        lemma_compiled_actions_closed(trees, (n - 1) as nat, arena);
        if let Ok((actions, a1)) = compiled_actions(trees, (n - 1) as nat, arena) {
            vstd::std_specs::vec::axiom_vec_index_decreases(trees, n - 1);
            lemma_compiled_action_closed(trees[n - 1], a1);
            if let Ok((action, a2)) = compiled_action(trees[n - 1], a1) {
                assert(a2.subrange(0, arena.len() as int) =~= a1.subrange(0, arena.len() as int));
            }
        }
    }
}

/// Compiling bindings keeps the list of nested remaps closed and only adds
/// to it, and the bindings open no nested remap beyond it.
pub proof fn lemma_compiled_bindings_closed(bindings: Vec<BindingTree>, n: nat, arena: Arena)
    requires
        arena_closed(arena),
    ensures
        compiled_bindings(bindings, n, arena) matches Ok((compiled, after)) ==> {
            &&& arena_closed(after)
            &&& extends(after, arena)
            &&& bindings_refer_below(compiled, after.len() as int)
        },
    decreases bindings, n,
{
    if n == 0 || n > bindings.len() {
        assert(arena.subrange(0, arena.len() as int) =~= arena);
    } else {
        lemma_compiled_bindings_closed(bindings, (n - 1) as nat, arena);
        if let Ok((compiled, a1)) = compiled_bindings(bindings, (n - 1) as nat, arena) {
            if let Ok(key_press) = chord_named(bindings[n - 1].chord@) {
                vstd::std_specs::vec::axiom_vec_index_decreases(bindings, n - 1);
                let trees = bindings[n - 1].actions;
                lemma_compiled_actions_closed(trees, trees.len() as nat, a1);
                if let Ok((actions, a2)) = compiled_actions(trees, trees.len() as nat, a1) {
                    assert(a2.subrange(0, arena.len() as int) =~= a1.subrange(
                        0,
                        arena.len() as int,
                    ));
                    crate::config::keymap::lemma_chord_index(compiled, key_press, 0);
                }
            }
        }
    }
}

/// Whether every nested remap that the bindings of `keymaps` open has an
/// index below `bound`.
pub open spec fn keymaps_refer_below(keymaps: Seq<KeymapView>, bound: int) -> bool {
    forall|k: int|
        0 <= k < keymaps.len() ==> bindings_refer_below((#[trigger] keymaps[k]).remap, bound)
}

/// Whether every nested remap that the hooks of `action` open has an index
/// below `bound`.
pub open spec fn modmap_action_refers_below(action: ModmapActionView, bound: int) -> bool {
    match action {
        ModmapActionView::PressReleaseKey { press, release } => actions_refer_below(press, bound)
            && actions_refer_below(release, bound),
        _ => true,
    }
}

/// Whether every nested remap that the hooks of `bindings` open has an
/// index below `bound`.
pub open spec fn modmap_bindings_refer_below(bindings: Seq<ModmapBindingView>, bound: int) -> bool {
    forall|j: int|
        0 <= j < bindings.len() ==> modmap_action_refers_below(
            (#[trigger] bindings[j]).action,
            bound,
        )
}

/// Whether every nested remap that the hooks of `modmaps` open has an index
/// below `bound`.
pub open spec fn modmaps_refer_below(modmaps: Seq<ModmapView>, bound: int) -> bool {
    forall|m: int|
        0 <= m < modmaps.len() ==> modmap_bindings_refer_below(
            (#[trigger] modmaps[m]).remap,
            bound,
        )
}

/// Whether a configuration refers only to nested remaps that it has, and
/// each of its nested remaps only to nested remaps that stand before it.
pub open spec fn config_closed(
    modmap: Seq<ModmapView>,
    keymap: Seq<KeymapView>,
    remaps: Arena,
) -> bool {
    &&& arena_closed(remaps)
    &&& keymaps_refer_below(keymap, remaps.len() as int)
    &&& modmaps_refer_below(modmap, remaps.len() as int)
}

/// Compiling keymaps keeps the list of nested remaps closed and only adds
/// to it, and the keymaps open no nested remap beyond it.
pub proof fn lemma_compiled_keymaps_closed(keymaps: Seq<KeymapTree>, n: nat, arena: Arena)
    requires
        arena_closed(arena),
    ensures
        compiled_keymaps(keymaps, n, arena) matches Ok((compiled, after)) ==> {
            &&& arena_closed(after)
            &&& extends(after, arena)
            &&& keymaps_refer_below(compiled, after.len() as int)
        },
    decreases n,
{
    if n == 0 {
        assert(arena.subrange(0, arena.len() as int) =~= arena);
    } else {
        lemma_compiled_keymaps_closed(keymaps, (n - 1) as nat, arena);
        if let Ok((compiled, a1)) = compiled_keymaps(keymaps, (n - 1) as nat, arena) {
            let tree = keymaps[n - 1];
            lemma_compiled_bindings_closed(tree.remap, tree.remap.len() as nat, a1);
            if let Ok((keymap, a2)) = compiled_keymap(tree, a1) {
                assert(a2.subrange(0, arena.len() as int) =~= a1.subrange(0, arena.len() as int));
            }
        }
    }
}

/// Compiling the bindings of a modmap keeps the list of nested remaps
/// closed and only adds to it, and the hooks open no nested remap beyond
/// it.
pub proof fn lemma_compiled_modmap_bindings_closed(
    bindings: Seq<ModmapBindingTree>,
    n: nat,
    arena: Arena,
)
    requires
        arena_closed(arena),
    ensures
        compiled_modmap_bindings(bindings, n, arena) matches Ok((compiled, after)) ==> {
            &&& arena_closed(after)
            &&& extends(after, arena)
            &&& modmap_bindings_refer_below(compiled, after.len() as int)
        },
    decreases n,
{
    if n == 0 {
        assert(arena.subrange(0, arena.len() as int) =~= arena);
    } else {
        lemma_compiled_modmap_bindings_closed(bindings, (n - 1) as nat, arena);
        if let Ok((compiled, a1)) = compiled_modmap_bindings(bindings, (n - 1) as nat, arena) {
            if let Ok(key) = compiled_key(bindings[n - 1].key@) {
                match bindings[n - 1].action {
                    ModmapActionTree::PressReleaseKey { press, release } => {
                        lemma_compiled_actions_closed(press, press.len() as nat, a1);
                        if let Ok((p, b1)) = compiled_actions(press, press.len() as nat, a1) {
                            lemma_compiled_actions_closed(release, release.len() as nat, b1);
                        }
                    },
                    _ => {},
                }
                if let Ok((action, a2)) = compiled_modmap_action(bindings[n - 1].action, a1) {
                    assert(a2.subrange(0, arena.len() as int) =~= a1.subrange(
                        0,
                        arena.len() as int,
                    ));
                    crate::config::modmap::lemma_binding_index(compiled, key, 0);
                }
            }
        }
    }
}

/// Compiling modmaps keeps the list of nested remaps closed and only adds
/// to it, and the hooks open no nested remap beyond it.
pub proof fn lemma_compiled_modmaps_closed(modmaps: Seq<ModmapTree>, n: nat, arena: Arena)
    requires
        arena_closed(arena),
    ensures
        compiled_modmaps(modmaps, n, arena) matches Ok((compiled, after)) ==> {
            &&& arena_closed(after)
            &&& extends(after, arena)
            &&& modmaps_refer_below(compiled, after.len() as int)
        },
    decreases n,
{
    if n == 0 {
        assert(arena.subrange(0, arena.len() as int) =~= arena);
    } else {
        lemma_compiled_modmaps_closed(modmaps, (n - 1) as nat, arena);
        if let Ok((compiled, a1)) = compiled_modmaps(modmaps, (n - 1) as nat, arena) {
            let tree = modmaps[n - 1];
            lemma_compiled_modmap_bindings_closed(tree.remap@, tree.remap.len() as nat, a1);
            if let Ok((remap, a2)) = compiled_modmap_bindings(
                tree.remap@,
                tree.remap.len() as nat,
                a1,
            ) {
                assert(a2.subrange(0, arena.len() as int) =~= a1.subrange(0, arena.len() as int));
            }
        }
    }
}

/// A compiled configuration is closed: it refers only to nested remaps that
/// it has, and each nested remap only to nested remaps that stand before
/// it.
pub proof fn lemma_compiled_config_closed(tree: ConfigTree)
    ensures
        compiled_config(tree) matches Ok(c) ==> config_closed(c.modmap, c.keymap, c.remaps),
{
    let empty: Arena = Seq::empty();
    lemma_compiled_modmaps_closed(tree.modmap@, tree.modmap.len() as nat, empty);
    if let Ok((modmap, a1)) = compiled_modmaps(tree.modmap@, tree.modmap.len() as nat, empty) {
        lemma_compiled_keymaps_closed(tree.keymap@, tree.keymap.len() as nat, a1);
    }
}

/// Whether no nested remap of a list binds a chord twice.
pub open spec fn arena_distinct(arena: Arena) -> bool {
    forall|r: int| 0 <= r < arena.len() ==> distinct_chords(#[trigger] arena[r])
}

/// Whether a configuration binds no chord twice in one keymap or nested
/// remap, and no key twice in one modmap.
pub open spec fn config_distinct(
    modmap: Seq<ModmapView>,
    keymap: Seq<KeymapView>,
    remaps: Arena,
) -> bool {
    &&& arena_distinct(remaps)
    &&& forall|k: int| 0 <= k < keymap.len() ==> distinct_chords((#[trigger] keymap[k]).remap)
    &&& forall|m: int| 0 <= m < modmap.len() ==> distinct_keys((#[trigger] modmap[m]).remap)
}

/// Compiling an action adds only nested remaps that bind no chord twice.
pub proof fn lemma_compiled_action_distinct(tree: ActionTree, arena: Arena)
    requires
        arena_distinct(arena),
    ensures
        compiled_action(tree, arena) matches Ok((action, after)) ==> arena_distinct(after),
    decreases tree, 0nat,
{
    match tree {
        ActionTree::Remap(bindings) => {
            lemma_compiled_bindings_distinct(bindings, bindings.len() as nat, arena);
        },
        _ => {},
    }
}

/// Compiling actions adds only nested remaps that bind no chord twice.
pub proof fn lemma_compiled_actions_distinct(trees: Vec<ActionTree>, n: nat, arena: Arena)
    requires
        arena_distinct(arena),
    ensures
        compiled_actions(trees, n, arena) matches Ok((actions, after)) ==> arena_distinct(after),
    decreases trees, n,
{
    if !(n == 0 || n > trees.len()) {
        lemma_compiled_actions_distinct(trees, (n - 1) as nat, arena);
        if let Ok((actions, a1)) = compiled_actions(trees, (n - 1) as nat, arena) {
            vstd::std_specs::vec::axiom_vec_index_decreases(trees, n - 1);
            lemma_compiled_action_distinct(trees[n - 1], a1);
        }
    }
}

/// Compiled bindings bind no chord twice, and compiling them adds only
/// nested remaps that bind no chord twice.
pub proof fn lemma_compiled_bindings_distinct(bindings: Vec<BindingTree>, n: nat, arena: Arena)
    requires
        arena_distinct(arena),
    ensures
        compiled_bindings(bindings, n, arena) matches Ok((compiled, after)) ==> arena_distinct(
            after,
        ) && distinct_chords(compiled),
    decreases bindings, n,
{
    if !(n == 0 || n > bindings.len()) {
        lemma_compiled_bindings_distinct(bindings, (n - 1) as nat, arena);
        if let Ok((compiled, a1)) = compiled_bindings(bindings, (n - 1) as nat, arena) {
            if let Ok(key_press) = chord_named(bindings[n - 1].chord@) {
                vstd::std_specs::vec::axiom_vec_index_decreases(bindings, n - 1);
                let trees = bindings[n - 1].actions;
                lemma_compiled_actions_distinct(trees, trees.len() as nat, a1);
                if let Ok((actions, a2)) = compiled_actions(trees, trees.len() as nat, a1) {
                    lemma_bound_distinct(compiled, BindingView { key_press, actions });
                }
            }
        }
    }
}

/// Compiled keymaps bind no chord twice.
pub proof fn lemma_compiled_keymaps_distinct(keymaps: Seq<KeymapTree>, n: nat, arena: Arena)
    requires
        arena_distinct(arena),
    ensures
        compiled_keymaps(keymaps, n, arena) matches Ok((compiled, after)) ==> {
            &&& arena_distinct(after)
            &&& forall|k: int|
                0 <= k < compiled.len() ==> distinct_chords((#[trigger] compiled[k]).remap)
        },
    decreases n,
{
    if n > 0 {
        lemma_compiled_keymaps_distinct(keymaps, (n - 1) as nat, arena);
        if let Ok((compiled, a1)) = compiled_keymaps(keymaps, (n - 1) as nat, arena) {
            let tree = keymaps[n - 1];
            lemma_compiled_bindings_distinct(tree.remap, tree.remap.len() as nat, a1);
        }
    }
}

/// The compiled bindings of a modmap bind no key twice.
pub proof fn lemma_compiled_modmap_bindings_distinct(
    bindings: Seq<ModmapBindingTree>,
    n: nat,
    arena: Arena,
)
    requires
        arena_distinct(arena),
    ensures
        compiled_modmap_bindings(bindings, n, arena) matches Ok((compiled, after))
            ==> arena_distinct(after) && distinct_keys(compiled),
    decreases n,
{
    if n > 0 {
        lemma_compiled_modmap_bindings_distinct(bindings, (n - 1) as nat, arena);
        if let Ok((compiled, a1)) = compiled_modmap_bindings(bindings, (n - 1) as nat, arena) {
            if let Ok(key) = compiled_key(bindings[n - 1].key@) {
                match bindings[n - 1].action {
                    ModmapActionTree::PressReleaseKey { press, release } => {
                        lemma_compiled_actions_distinct(press, press.len() as nat, a1);
                        if let Ok((p, b1)) = compiled_actions(press, press.len() as nat, a1) {
                            lemma_compiled_actions_distinct(release, release.len() as nat, b1);
                        }
                    },
                    _ => {},
                }
                if let Ok((action, a2)) = compiled_modmap_action(bindings[n - 1].action, a1) {
                    lemma_key_bound_distinct(compiled, ModmapBindingView { key, action });
                }
            }
        }
    }
}

/// Compiled modmaps bind no key twice.
pub proof fn lemma_compiled_modmaps_distinct(modmaps: Seq<ModmapTree>, n: nat, arena: Arena)
    requires
        arena_distinct(arena),
    ensures
        compiled_modmaps(modmaps, n, arena) matches Ok((compiled, after)) ==> {
            &&& arena_distinct(after)
            &&& forall|m: int|
                0 <= m < compiled.len() ==> distinct_keys((#[trigger] compiled[m]).remap)
        },
    decreases n,
{
    if n > 0 {
        lemma_compiled_modmaps_distinct(modmaps, (n - 1) as nat, arena);
        if let Ok((compiled, a1)) = compiled_modmaps(modmaps, (n - 1) as nat, arena) {
            let tree = modmaps[n - 1];
            lemma_compiled_modmap_bindings_distinct(tree.remap@, tree.remap.len() as nat, a1);
            if let Ok((remap, a2)) = compiled_modmap_bindings(
                tree.remap@,
                tree.remap.len() as nat,
                a1,
            ) {
                let modmap = ModmapView {
                    name: tree.name@,
                    remap,
                    application: optional_application(tree.application),
                };
            }
        }
    }
}

/// A compiled configuration binds no chord twice in one keymap or nested
/// remap, and no key twice in one modmap.
pub proof fn lemma_compiled_config_distinct(tree: ConfigTree)
    ensures
        compiled_config(tree) matches Ok(c) ==> config_distinct(c.modmap, c.keymap, c.remaps),
{
    let empty: Arena = Seq::empty();
    lemma_compiled_modmaps_distinct(tree.modmap@, tree.modmap.len() as nat, empty);
    if let Ok((modmap, a1)) = compiled_modmaps(tree.modmap@, tree.modmap.len() as nat, empty) {
        lemma_compiled_keymaps_distinct(tree.keymap@, tree.keymap.len() as nat, a1);
    }
}

} // verus!
