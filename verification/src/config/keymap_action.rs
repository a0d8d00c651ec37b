//! What a keymap entry does when it fires.

use vstd::prelude::*;
use crate::config::key_press::{KeyPress, KeyPressView};
use crate::text::{clone_strings, views};

verus! {

/// One step of the reaction to a chord.
#[derive(Debug)]
pub enum KeymapAction {
    /// Emit a chord: press and release its key with its modifiers held.
    KeyPressAndRelease(KeyPress),
    /// Wait for the next key and resolve it against the nested remap with
    /// this index in the configuration's list of nested remaps.
    Remap(usize),
    /// Start a process.
    Launch(Vec<String>),
    /// Switch to the named mode.
    SetMode(String),
    /// Set or clear the mark.
    SetMark(bool),
    /// Emit a chord, with Shift added while the mark is set.
    WithMark(KeyPress),
    /// Let the next key pass untranslated, or withdraw that.
    EscapeNextKey(bool),
}

/// The mathematical value of a [`KeymapAction`].
pub enum KeymapActionView {
    KeyPressAndRelease(KeyPressView),
    Remap(int),
    Launch(Seq<Seq<char>>),
    SetMode(Seq<char>),
    SetMark(bool),
    WithMark(KeyPressView),
    EscapeNextKey(bool),
}

impl View for KeymapAction {
    type V = KeymapActionView;

    open spec fn view(&self) -> KeymapActionView {
        match self {
            KeymapAction::KeyPressAndRelease(k) => KeymapActionView::KeyPressAndRelease(k@),
            KeymapAction::Remap(i) => KeymapActionView::Remap(*i as int),
            KeymapAction::Launch(c) => KeymapActionView::Launch(views(c@)),
            KeymapAction::SetMode(m) => KeymapActionView::SetMode(m@),
            KeymapAction::SetMark(b) => KeymapActionView::SetMark(*b),
            KeymapAction::WithMark(k) => KeymapActionView::WithMark(k@),
            KeymapAction::EscapeNextKey(b) => KeymapActionView::EscapeNextKey(*b),
        }
    }
}

impl Clone for KeymapAction {
    fn clone(&self) -> (copy: KeymapAction)
        ensures
            copy@ == self@,
    {
        match self {
            KeymapAction::KeyPressAndRelease(k) => KeymapAction::KeyPressAndRelease(k.clone()),
            KeymapAction::Remap(i) => KeymapAction::Remap(*i),
            KeymapAction::Launch(c) => KeymapAction::Launch(clone_strings(c)),
            KeymapAction::SetMode(m) => KeymapAction::SetMode(m.clone()),
            KeymapAction::SetMark(b) => KeymapAction::SetMark(*b),
            KeymapAction::WithMark(k) => KeymapAction::WithMark(k.clone()),
            KeymapAction::EscapeNextKey(b) => KeymapAction::EscapeNextKey(*b),
        }
    }
}

/// Whether a list of actions only opens nested remaps: it is not empty and
/// each of its actions is a `Remap`.
pub open spec fn is_remap(actions: Seq<KeymapActionView>) -> bool {
    actions.len() > 0 && forall|i: int| 0 <= i < actions.len() ==> #[trigger] actions[i] is Remap
}

/// Whether a list of actions only opens nested remaps.
pub fn only_remaps(actions: &Vec<KeymapAction>) -> (b: bool)
    ensures
        b == is_remap(views(actions@)),
{
    if actions.len() == 0 {
        return false;
    }
    let mut i: usize = 0;
    while i < actions.len()
        invariant
            i <= actions.len(),
            forall|k: int| 0 <= k < i ==> #[trigger] views(actions@)[k] is Remap,
        decreases actions.len() - i,
    {
        match &actions[i] {
            KeymapAction::Remap(_) => {},
            _ => {
                assert(!(views(actions@)[i as int] is Remap));
                return false;
            },
        }
        i += 1;
    }
    true
}

/// A copy of a list of actions.
pub fn clone_actions(actions: &Vec<KeymapAction>) -> (copy: Vec<KeymapAction>)
    ensures
        views(copy@) == views(actions@),
{
    let mut copy: Vec<KeymapAction> = Vec::new();
    let mut i: usize = 0;
    while i < actions.len()
        invariant
            i <= actions.len(),
            copy.len() == i,
            forall|k: int| 0 <= k < i ==> copy@[k]@ == actions@[k]@,
        decreases actions.len() - i,
    {
        copy.push(actions[i].clone());
        i += 1;
    }
    copy
}

} // verus!
