use xremap::action::{same_actions, Action};
use xremap::action_dispatcher::{on_action, Effect};
use xremap::event::{Event, InputEvent, KeyEvent, KeyValue, RelativeEvent, EV_KEY, EV_REL, EV_SYN};
use xremap::key::Key;
use xremap::main_loop::{on_config_event, on_fetch_error, should_reload, FetchFailure, ENODEV};
use xremap::text::{chars_of, contains, same_strings, same_text, starts_with};

#[test]
fn events_are_sorted_by_type() {
    assert_eq!(
        Event::new(InputEvent::new(EV_KEY, 30, 1)),
        Event::KeyEvent(KeyEvent::new(Key::new(30), KeyValue::Press))
    );
    assert_eq!(
        Event::new(InputEvent::new(EV_KEY, 30, 0)),
        Event::KeyEvent(KeyEvent::new(Key::new(30), KeyValue::Release))
    );
    assert_eq!(
        Event::new(InputEvent::new(EV_KEY, 30, 2)),
        Event::KeyEvent(KeyEvent::new(Key::new(30), KeyValue::Repeat))
    );
    assert_eq!(
        Event::new(InputEvent::new(EV_KEY, 30, 3)),
        Event::OtherEvents(InputEvent::new(EV_KEY, 30, 3))
    );
    assert_eq!(
        Event::new(InputEvent::new(EV_KEY, 30, -1)),
        Event::OtherEvents(InputEvent::new(EV_KEY, 30, -1))
    );
    assert_eq!(
        Event::new(InputEvent::new(EV_REL, 1, -7)),
        Event::RelativeEvent(RelativeEvent::new_with(1, -7))
    );
    assert_eq!(
        Event::new(InputEvent::new(EV_SYN, 0, 0)),
        Event::OtherEvents(InputEvent::new(EV_SYN, 0, 0))
    );
    assert_eq!(Event::new(InputEvent::new(3, 0, 100)), Event::OtherEvents(InputEvent::new(3, 0, 100)));
    assert_eq!(EV_KEY, evdev::EventType::KEY.0);
    assert_eq!(EV_REL, evdev::EventType::RELATIVE.0);
    assert_eq!(EV_SYN, evdev::EventType::SYNCHRONIZATION.0);
}

#[test]
fn key_values() {
    assert_eq!(KeyValue::from_i32(0), Some(KeyValue::Release));
    assert_eq!(KeyValue::from_i32(1), Some(KeyValue::Press));
    assert_eq!(KeyValue::from_i32(2), Some(KeyValue::Repeat));
    assert_eq!(KeyValue::from_i32(3), None);
    assert_eq!(KeyValue::from_i32(-1), None);
    for v in [KeyValue::Release, KeyValue::Press, KeyValue::Repeat] {
        assert_eq!(KeyValue::from_i32(v.to_i32()), Some(v));
    }
    let e = KeyEvent::new(Key::new(44), KeyValue::Repeat);
    assert_eq!((e.code(), e.value()), (44, 2));
}

fn emitted(effect: Effect) -> Vec<InputEvent> {
    match effect {
        Effect::Emit(events) => events,
        other => panic!("{:?}", other),
    }
}

#[test]
fn effects_of_actions() {
    assert_eq!(
        emitted(on_action(Action::KeyEvent(KeyEvent::new(Key::new(30), KeyValue::Press)))),
        vec![InputEvent::new(EV_KEY, 30, 1)]
    );
    assert_eq!(
        emitted(on_action(Action::KeyEvent(KeyEvent::new(Key::new(31), KeyValue::Release)))),
        vec![InputEvent::new(EV_KEY, 31, 0)]
    );
    assert_eq!(
        emitted(on_action(Action::KeyEvent(KeyEvent::new(Key::new(32), KeyValue::Repeat)))),
        vec![InputEvent::new(EV_KEY, 32, 2)]
    );
    // The motions of a collection are one submission, with nothing between them.
    assert_eq!(
        emitted(on_action(Action::MouseMovementEventCollection(vec![
            RelativeEvent::new_with(0, 1),
            RelativeEvent::new_with(1, -1),
        ]))),
        vec![InputEvent::new(EV_REL, 0, 1), InputEvent::new(EV_REL, 1, -1)]
    );
    assert_eq!(emitted(on_action(Action::MouseMovementEventCollection(vec![]))), vec![]);
    assert_eq!(
        emitted(on_action(Action::InputEvent(InputEvent::new(4, 4, 458756)))),
        vec![InputEvent::new(4, 4, 458756)]
    );
    assert!(matches!(on_action(Action::Delay(12)), Effect::Sleep(12)));
    match on_action(Action::Command(vec![String::from("sh"), String::from("-c")])) {
        Effect::Launch(command) => assert_eq!(command, vec!["sh", "-c"]),
        other => panic!("{:?}", other),
    }
}

#[test]
fn actions_compared() {
    let a = |k: u16| Action::KeyEvent(KeyEvent::new(Key::new(k), KeyValue::Press));
    assert!(a(1).same(&a(1)));
    assert!(!a(1).same(&a(2)));
    assert!(!a(1).same(&Action::KeyEvent(KeyEvent::new(Key::new(1), KeyValue::Release))));
    assert!(!a(1).same(&Action::Delay(1)));
    assert!(Action::Delay(1).same(&Action::Delay(1)));
    assert!(!Action::Delay(1).same(&Action::Delay(2)));
    assert!(Action::Command(vec![String::from("x")]).same(&Action::Command(vec![String::from("x")])));
    assert!(!Action::Command(vec![String::from("x")]).same(&Action::Command(vec![])));
    assert!(Action::MouseMovementEventCollection(vec![RelativeEvent::new_with(0, 1)])
        .same(&Action::MouseMovementEventCollection(vec![RelativeEvent::new_with(0, 1)])));
    assert!(!Action::MouseMovementEventCollection(vec![RelativeEvent::new_with(0, 1)])
        .same(&Action::MouseMovementEventCollection(vec![RelativeEvent::new_with(0, 2)])));
    assert!(Action::InputEvent(InputEvent::new(0, 0, 0)).same(&Action::InputEvent(InputEvent::new(0, 0, 0))));
    assert!(same_actions(&vec![], &vec![]));
    assert!(same_actions(&vec![a(1), Action::Delay(0)], &vec![a(1), Action::Delay(0)]));
    assert!(!same_actions(&vec![a(1), Action::Delay(0)], &vec![a(1)]));
    assert!(!same_actions(&vec![a(1), Action::Delay(0)], &vec![Action::Delay(0), a(1)]));
}

#[test]
fn decisions_of_the_main_loop() {
    assert_eq!(ENODEV, nix::libc::ENODEV);
    assert_eq!(on_fetch_error(Some(ENODEV)), FetchFailure::DeviceGone);
    assert_eq!(on_fetch_error(Some(5)), FetchFailure::Fatal);
    assert_eq!(on_fetch_error(None), FetchFailure::Fatal);
    assert!(on_config_event(Some("config.yml"), false, "config.yml"));
    assert!(!on_config_event(Some("other.yml"), false, "config.yml"));
    assert!(on_config_event(Some("other.yml"), true, "config.yml"));
    assert!(on_config_event(None, true, "config.yml"));
    assert!(!on_config_event(None, false, "config.yml"));
    assert!(!should_reload(Some(5), Some(5)));
    assert!(should_reload(Some(5), Some(6)));
    assert!(should_reload(None, Some(6)));
    assert!(should_reload(Some(5), None));
    assert!(should_reload(None, None));
}

#[test]
fn text() {
    assert_eq!(chars_of("héllo"), vec!['h', 'é', 'l', 'l', 'o']);
    assert_eq!(chars_of(""), Vec::<char>::new());
    assert!(starts_with("event12", "event"));
    assert!(starts_with("event", "event"));
    assert!(starts_with("event", ""));
    assert!(!starts_with("even", "event"));
    assert!(!starts_with("xevent", "event"));
    assert!(contains("keyboard", "board"));
    assert!(contains("keyboard", "key"));
    assert!(contains("keyboard", "keyboard"));
    assert!(contains("keyboard", ""));
    assert!(contains("", ""));
    assert!(contains("aab", "ab"));
    assert!(!contains("keyboard", "boards"));
    assert!(!contains("", "a"));
    assert!(!contains("abc", "ac"));
    assert!(same_text("abc", "abc") && !same_text("abc", "abd") && !same_text("abc", "ab"));
    assert!(same_strings(&vec![String::from("a")], &vec![String::from("a")]));
    assert!(!same_strings(&vec![String::from("a")], &vec![String::from("b")]));
    assert!(!same_strings(&vec![String::from("a")], &vec![]));
}
