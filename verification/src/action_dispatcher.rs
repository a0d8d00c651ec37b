//! What the output dispatcher does for each action.

use vstd::prelude::*;
use crate::action::{Action, ActionView};
use crate::event::{InputEvent, RelativeEvent, EV_KEY, EV_REL};
use crate::text::views;

verus! {

/// What carrying out one action comes to.
#[derive(Debug)]
pub enum Effect {
    /// Write these events to the virtual device in one submission.  The
    /// device ends each submission with a synchronisation event of its own.
    Emit(Vec<InputEvent>),
    /// Sleep for this many milliseconds.
    Sleep(u64),
    /// Start this command as a detached process.
    Launch(Vec<String>),
}

/// The mathematical value of an [`Effect`].
pub enum EffectView {
    Emit(Seq<InputEvent>),
    Sleep(u64),
    Launch(Seq<Seq<char>>),
}

impl View for Effect {
    type V = EffectView;

    open spec fn view(&self) -> EffectView {
        match self {
            Effect::Emit(events) => EffectView::Emit(events@),
            Effect::Sleep(ms) => EffectView::Sleep(*ms),
            Effect::Launch(command) => EffectView::Launch(views(command@)),
        }
    }
}

/// Motion as the device is to be told of it.
pub open spec fn motion_event(event: RelativeEvent) -> InputEvent {
    InputEvent { event_type: EV_REL, code: event.code, value: event.value }
}

/// What carrying out `action` comes to.  A key event is one submission of
/// one event.  The motions of a collection are one submission, in their
/// order, so that nothing separates them.  A forwarded event is one
/// submission.  A delay is a sleep and a command a launch.
pub open spec fn effect_of(action: ActionView) -> EffectView {
    match action {
        ActionView::KeyEvent(e) => EffectView::Emit(
            seq![InputEvent { event_type: EV_KEY, code: e.key.0, value: e.value.number() as i32 }],
        ),
        ActionView::MouseMovementEventCollection(motion) => EffectView::Emit(
            motion.map_values(|e: RelativeEvent| motion_event(e)),
        ),
        ActionView::InputEvent(e) => EffectView::Emit(seq![e]),
        ActionView::Command(command) => EffectView::Launch(command),
        ActionView::Delay(ms) => EffectView::Sleep(ms),
    }
}

/// What the output dispatcher is to do for `action`.
pub fn on_action(action: Action) -> (effect: Effect)
    ensures
        effect@ == effect_of(action@),
{
    match action {
        Action::KeyEvent(e) => {
            let mut events: Vec<InputEvent> = Vec::new();
            events.push(InputEvent { event_type: EV_KEY, code: e.key.0, value: e.value.to_i32() });
            Effect::Emit(events)
        },
        Action::MouseMovementEventCollection(motion) => {
            let mut events: Vec<InputEvent> = Vec::new();
            let mut i: usize = 0;
            while i < motion.len()
                invariant
                    i <= motion.len(),
                    events.len() == i,
                    forall|k: int| 0 <= k < i ==> events@[k] == motion_event(motion@[k]),
                decreases motion.len() - i,
            {
                let e: RelativeEvent = motion[i];
                events.push(InputEvent { event_type: EV_REL, code: e.code, value: e.value });
                i += 1;
            }
            assert(events@ =~= motion@.map_values(|e: RelativeEvent| motion_event(e)));
            Effect::Emit(events)
        },
        Action::InputEvent(e) => {
            let mut events: Vec<InputEvent> = Vec::new();
            events.push(e);
            Effect::Emit(events)
        },
        Action::Command(command) => Effect::Launch(command),
        Action::Delay(ms) => Effect::Sleep(ms),
    }
}

} // verus!
