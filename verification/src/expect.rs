//! Comparing a translation with the actions that are expected of it.

use vstd::prelude::*;
use crate::action::{same_actions, Action, ActionView};
use crate::config::application::optional_string;
use crate::config::{Config, ConfigView};
use crate::event::Event;
use crate::event_handler::{constant_focus, EventHandler};
use crate::state::HandlerView;
use crate::text::views;
use crate::translate::translate;

verus! {

/// The actions that a fresh translator, in the mode `default` and without
/// delay, emits for `events` while `application` has the focus.
pub open spec fn fresh_actions(
    cfg: ConfigView,
    application: Option<Seq<char>>,
    events: Seq<Event>,
) -> Seq<ActionView> {
    translate(
        HandlerView::initial("default"@, 0),
        cfg,
        events,
        constant_focus(events.len(), application),
    ).1
}

/// Whether a fresh translator turns `events` into exactly `actions` while no
/// application is known to have the focus.
pub fn assert_actions(config: &Config, events: Vec<Event>, actions: Vec<Action>) -> (ok: bool)
    ensures
        ok == (fresh_actions(config@, None, events@) == views(actions@)),
{
    assert_actions_with_current_application(config, None, events, actions)
}

/// Whether a fresh translator turns `events` into exactly `actions` while
/// `current_application` has the focus.
pub fn assert_actions_with_current_application(
    config: &Config,
    current_application: Option<String>,
    events: Vec<Event>,
    actions: Vec<Action>,
) -> (ok: bool)
    ensures
        ok == (fresh_actions(config@, optional_string(current_application), events@) == views(
            actions@,
        )),
{
    let mut event_handler = EventHandler::new("default", 0);
    let actual: Vec<Action> = event_handler.on_events_in(&events, config, &current_application);
    same_actions(&actions, &actual)
}

} // verus!
