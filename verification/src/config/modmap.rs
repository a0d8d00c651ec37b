//! Modmaps: substitutions of single keys, applied before chords are
//! resolved.

use vstd::prelude::*;
use crate::config::application::{
    match_application, optional_application, optional_string, application_passes, Application,
    ApplicationView,
};
use crate::config::keymap_action::{KeymapAction, KeymapActionView};
use crate::key::Key;
use crate::text::views;

verus! {

/// What a modmap does with a key.
#[derive(Debug)]
pub enum ModmapAction {
    /// The key is replaced by these keys: each event of the key becomes one
    /// event of each of them, in order.
    Keys(Vec<Key>),
    /// The key has two purposes: it is `held` while it is down together with
    /// another key, and `alone` when it is tapped by itself.
    MultiPurposeKey { held: Key, alone: Key },
    /// The key stays as it is; `press` runs before its press is handled and
    /// `release` before its release.
    PressReleaseKey { press: Vec<KeymapAction>, release: Vec<KeymapAction> },
}

/// The mathematical value of a [`ModmapAction`].
pub enum ModmapActionView {
    Keys(Seq<Key>),
    MultiPurposeKey { held: Key, alone: Key },
    PressReleaseKey { press: Seq<KeymapActionView>, release: Seq<KeymapActionView> },
}

impl View for ModmapAction {
    type V = ModmapActionView;

    open spec fn view(&self) -> ModmapActionView {
        match self {
            ModmapAction::Keys(keys) => ModmapActionView::Keys(keys@),
            ModmapAction::MultiPurposeKey { held, alone } => ModmapActionView::MultiPurposeKey {
                held: *held,
                alone: *alone,
            },
            ModmapAction::PressReleaseKey { press, release } => ModmapActionView::PressReleaseKey {
                press: views(press@),
                release: views(release@),
            },
        }
    }
}

/// A key and what a modmap does with it.
#[derive(Debug)]
pub struct ModmapBinding {
    pub key: Key,
    pub action: ModmapAction,
}

/// The mathematical value of a [`ModmapBinding`].
pub struct ModmapBindingView {
    pub key: Key,
    pub action: ModmapActionView,
}

impl View for ModmapBinding {
    type V = ModmapBindingView;

    open spec fn view(&self) -> ModmapBindingView {
        ModmapBindingView { key: self.key, action: self.action@ }
    }
}

/// A modmap as the configuration declares it.  Of two bindings of the same
/// key the earlier one counts.
#[derive(Debug)]
pub struct Modmap {
    pub name: String,
    pub remap: Vec<ModmapBinding>,
    pub application: Option<Application>,
}

/// The mathematical value of a [`Modmap`].
pub struct ModmapView {
    pub name: Seq<char>,
    pub remap: Seq<ModmapBindingView>,
    pub application: Option<ApplicationView>,
}

impl View for Modmap {
    type V = ModmapView;

    open spec fn view(&self) -> ModmapView {
        ModmapView {
            name: self.name@,
            remap: views(self.remap@),
            application: optional_application(self.application),
        }
    }
}

/// The index of the first binding of `key` among `remap[from..]`, or the
/// length of `remap` if there is none.
pub open spec fn binding_index(remap: Seq<ModmapBindingView>, key: Key, from: int) -> int
    decreases remap.len() - from,
{
    if from >= remap.len() {
        remap.len() as int
    } else if remap[from].key == key {
        from
    } else {
        binding_index(remap, key, from + 1)
    }
}

/// `bindings` with `binding` bound as well: in the place of the first
/// binding of the same key if there is one, else at the end.
pub open spec fn key_bound(bindings: Seq<ModmapBindingView>, binding: ModmapBindingView) -> Seq<
    ModmapBindingView,
> {
    let i = binding_index(bindings, binding.key, 0);
    if i < bindings.len() {
        bindings.update(i, binding)
    } else {
        bindings.push(binding)
    }
}

/// No two of `bindings` bind the same key.
pub open spec fn distinct_keys(bindings: Seq<ModmapBindingView>) -> bool {
    forall|i: int, j: int|
        0 <= i < j < bindings.len() ==> (#[trigger] bindings[i]).key != (#[trigger] bindings[j]).key
}

/// The first binding of a key stands at or behind `from`, and no binding
/// between `from` and it binds the key.
pub proof fn lemma_binding_index(bindings: Seq<ModmapBindingView>, key: Key, from: int)
    requires
        0 <= from,
    ensures
        from <= binding_index(bindings, key, from) || binding_index(bindings, key, from)
            == bindings.len(),
        binding_index(bindings, key, from) <= bindings.len(),
        binding_index(bindings, key, from) < bindings.len() ==> bindings[binding_index(
            bindings,
            key,
            from,
        )].key == key,
        forall|k: int|
            from <= k < binding_index(bindings, key, from) ==> (#[trigger] bindings[k]).key != key,
    decreases bindings.len() - from,
{
    if from < bindings.len() && bindings[from].key != key {
        lemma_binding_index(bindings, key, from + 1);
    }
}

/// Binding a key keeps the keys distinct.
pub proof fn lemma_key_bound_distinct(bindings: Seq<ModmapBindingView>, binding: ModmapBindingView)
    requires
        distinct_keys(bindings),
    ensures
        distinct_keys(key_bound(bindings, binding)),
{
    lemma_binding_index(bindings, binding.key, 0);
}

/// Binds a key: the binding takes the place of the first binding of the
/// same key, or, if there is none, is appended.
pub fn bind_key(bindings: &mut Vec<ModmapBinding>, binding: ModmapBinding)
    ensures
        views(final(bindings)@) == key_bound(views(old(bindings)@), binding@),
{
    match find_binding(bindings, binding.key) {
        Some(i) => {
            bindings[i] = binding;
        },
        None => {
            proof {
                crate::text::lemma_views_push(bindings@, binding);
            }
            bindings.push(binding);
        },
    }
}

/// Whether `modmap` applies to `key` while `application` has the focus: it
/// binds the key and its application filter passes.
pub open spec fn modmap_applies(modmap: ModmapView, key: Key, application: Option<Seq<char>>) -> bool {
    binding_index(modmap.remap, key, 0) < modmap.remap.len() && application_passes(
        modmap.application,
        application,
    )
}

/// The index of the first modmap among `modmaps[from..]` that applies to
/// `key`, or the length of `modmaps` if none does.
pub open spec fn modmap_index(
    modmaps: Seq<ModmapView>,
    key: Key,
    application: Option<Seq<char>>,
    from: int,
) -> int
    decreases modmaps.len() - from,
{
    if from >= modmaps.len() {
        modmaps.len() as int
    } else if modmap_applies(modmaps[from], key, application) {
        from
    } else {
        modmap_index(modmaps, key, application, from + 1)
    }
}

/// The first modmap that applies stands at or behind `from`, and it applies.
pub proof fn lemma_modmap_index(
    modmaps: Seq<ModmapView>,
    key: Key,
    application: Option<Seq<char>>,
    from: int,
)
    requires
        0 <= from,
    ensures
        from <= modmap_index(modmaps, key, application, from) || modmap_index(
            modmaps,
            key,
            application,
            from,
        ) == modmaps.len(),
        modmap_index(modmaps, key, application, from) < modmaps.len() ==> modmap_applies(
            modmaps[modmap_index(modmaps, key, application, from)],
            key,
            application,
        ),
    decreases modmaps.len() - from,
{
    if from < modmaps.len() && !modmap_applies(modmaps[from], key, application) {
        lemma_modmap_index(modmaps, key, application, from + 1);
    }
}

/// What the modmaps do with `key`: the action of the first binding of the
/// key in the first modmap that applies, if any modmap applies.
pub open spec fn modmap_action(
    modmaps: Seq<ModmapView>,
    key: Key,
    application: Option<Seq<char>>,
) -> Option<ModmapActionView> {
    let m = modmap_index(modmaps, key, application, 0);
    if m < modmaps.len() {
        Some(modmaps[m].remap[binding_index(modmaps[m].remap, key, 0)].action)
    } else {
        None
    }
}

/// The first binding of `key` in `remap`, if there is one.
pub fn find_binding(remap: &Vec<ModmapBinding>, key: Key) -> (found: Option<usize>)
    ensures
        match found {
            Some(i) => i < remap.len() && i == binding_index(views(remap@), key, 0),
            None => binding_index(views(remap@), key, 0) == remap.len(),
        },
{
    let mut i: usize = 0;
    while i < remap.len()
        invariant
            i <= remap.len(),
            binding_index(views(remap@), key, 0) == binding_index(views(remap@), key, i as int),
        decreases remap.len() - i,
    {
        if remap[i].key == key {
            return Some(i);
        }
        i += 1;
    }
    None
}

/// What the modmaps do with `key` while `application` has the focus.
pub fn find_modmap<'a>(modmaps: &'a Vec<Modmap>, key: Key, application: &Option<String>) -> (found:
    Option<&'a ModmapAction>)
    ensures
        match found {
            Some(action) => modmap_action(views(modmaps@), key, optional_string(*application))
                == Some(action@),
            None => modmap_action(views(modmaps@), key, optional_string(*application)) is None,
        },
{
    let ghost app = optional_string(*application);
    let mut m: usize = 0;
    while m < modmaps.len()
        invariant
            m <= modmaps.len(),
            app == optional_string(*application),
            modmap_index(views(modmaps@), key, app, 0) == modmap_index(
                views(modmaps@),
                key,
                app,
                m as int,
            ),
        decreases modmaps.len() - m,
    {
        let modmap: &Modmap = &modmaps[m];
        match find_binding(&modmap.remap, key) {
            Some(i) => {
                if match_application(&modmap.application, application) {
                    return Some(&modmap.remap[i].action);
                }
            },
            None => {},
        }
        m += 1;
    }
    None
}

} // verus!
