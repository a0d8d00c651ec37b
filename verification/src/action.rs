//! What the translator asks the output device to do.

use vstd::prelude::*;
use crate::event::{KeyEvent, KeyValue, InputEvent, RelativeEvent};
use crate::key::Key;
use crate::text::{same_strings, views};

verus! {

/// One step for the output dispatcher.  A list of actions is carried out in
/// order.
#[derive(Debug)]
pub enum Action {
    /// Write a key event.
    KeyEvent(KeyEvent),
    /// Write all of these pointer motions in one submission, so that no
    /// synchronisation event falls between them.
    MouseMovementEventCollection(Vec<RelativeEvent>),
    /// Forward an event of another type.
    InputEvent(InputEvent),
    /// Start a detached process.
    Command(Vec<String>),
    /// Wait for this many milliseconds before the next action.
    Delay(u64),
}

/// The mathematical value of an [`Action`].
pub enum ActionView {
    KeyEvent(KeyEvent),
    MouseMovementEventCollection(Seq<RelativeEvent>),
    InputEvent(InputEvent),
    Command(Seq<Seq<char>>),
    Delay(u64),
}

impl View for Action {
    type V = ActionView;

    open spec fn view(&self) -> ActionView {
        match self {
            Action::KeyEvent(e) => ActionView::KeyEvent(*e),
            Action::MouseMovementEventCollection(m) => ActionView::MouseMovementEventCollection(
                m@,
            ),
            Action::InputEvent(e) => ActionView::InputEvent(*e),
            Action::Command(c) => ActionView::Command(views(c@)),
            Action::Delay(ms) => ActionView::Delay(*ms),
        }
    }
}

/// The action that writes `value` for `key`.
pub open spec fn key_action(key: Key, value: KeyValue) -> ActionView {
    ActionView::KeyEvent(KeyEvent { key, value })
}

/// One action for each of `keys`, in order, each writing `value`.
pub open spec fn key_actions(keys: Seq<Key>, value: KeyValue) -> Seq<ActionView> {
    Seq::new(keys.len(), |i: int| key_action(keys[i], value))
}

fn same_motions(a: &Vec<RelativeEvent>, b: &Vec<RelativeEvent>) -> (eq: bool)
    ensures
        eq == (a@ == b@),
{
    if a.len() != b.len() {
        return false;
    }
    let mut i: usize = 0;
    while i < a.len()
        invariant
            i <= a.len(),
            a.len() == b.len(),
            forall|k: int| 0 <= k < i ==> a@[k] == b@[k],
        decreases a.len() - i,
    {
        if a[i] != b[i] {
            return false;
        }
        i += 1;
    }
    assert(a@ =~= b@);
    true
}

impl Action {
    /// Whether two actions are the same action.
    pub fn same(&self, other: &Action) -> (eq: bool)
        ensures
            eq == (self@ == other@),
    {
        match (self, other) {
            (Action::KeyEvent(a), Action::KeyEvent(b)) => *a == *b,
            (
                Action::MouseMovementEventCollection(a),
                Action::MouseMovementEventCollection(b),
            ) => same_motions(a, b),
            (Action::InputEvent(a), Action::InputEvent(b)) => *a == *b,
            (Action::Command(a), Action::Command(b)) => same_strings(a, b),
            (Action::Delay(a), Action::Delay(b)) => *a == *b,
            _ => false,
        }
    }
}

/// Whether two lists of actions are the same, action by action.
pub fn same_actions(a: &Vec<Action>, b: &Vec<Action>) -> (eq: bool)
    ensures
        eq == (views(a@) == views(b@)),
{
    if a.len() != b.len() {
        assert(views(a@).len() != views(b@).len());
        return false;
    }
    let mut i: usize = 0;
    while i < a.len()
        invariant
            i <= a.len(),
            a.len() == b.len(),
            forall|k: int| 0 <= k < i ==> a@[k]@ == b@[k]@,
        decreases a.len() - i,
    {
        if !a[i].same(&b[i]) {
            assert(views(a@)[i as int] != views(b@)[i as int]);
            return false;
        }
        i += 1;
    }
    assert(views(a@) =~= views(b@));
    true
}

} // verus!
