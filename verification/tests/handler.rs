use evdev::Key as EvKey;
use xremap::action::{same_actions, Action};
use xremap::client::{Client, WMClient};
use xremap::config::tree::{
    compile_config, ActionTree, BindingTree, ConfigTree, KeymapTree, ModmapActionTree,
    ModmapBindingTree, ModmapTree,
};
use xremap::config::application::Application;
use xremap::config::Config;
use xremap::event::{Event, InputEvent, KeyEvent, KeyValue, RelativeEvent, EV_SYN};
use xremap::event_handler::EventHandler;
use xremap::key::Key;
use xremap::state::TimerRequest;

fn key(k: EvKey) -> Key {
    Key::new(k.code())
}

fn press(k: EvKey) -> Event {
    Event::KeyEvent(KeyEvent::new(key(k), KeyValue::Press))
}

fn release(k: EvKey) -> Event {
    Event::KeyEvent(KeyEvent::new(key(k), KeyValue::Release))
}

fn repeat(k: EvKey) -> Event {
    Event::KeyEvent(KeyEvent::new(key(k), KeyValue::Repeat))
}

fn pressed(k: EvKey) -> Action {
    Action::KeyEvent(KeyEvent::new(key(k), KeyValue::Press))
}

fn released(k: EvKey) -> Action {
    Action::KeyEvent(KeyEvent::new(key(k), KeyValue::Release))
}

fn repeated(k: EvKey) -> Action {
    Action::KeyEvent(KeyEvent::new(key(k), KeyValue::Repeat))
}

fn chord(text: &str) -> ActionTree {
    ActionTree::KeyPress(String::from(text))
}

fn bind(text: &str, actions: Vec<ActionTree>) -> BindingTree {
    BindingTree { chord: String::from(text), actions }
}

fn keymap(remap: Vec<BindingTree>) -> KeymapTree {
    KeymapTree { name: String::new(), remap, application: None, mode: None, exact_match: false }
}

fn tree(modmap: Vec<ModmapTree>, keymap: Vec<KeymapTree>) -> ConfigTree {
    ConfigTree {
        modmap,
        keymap,
        default_mode: String::from("default"),
        keypress_delay_ms: 0,
        virtual_modifiers: vec![],
    }
}

fn compile(tree: ConfigTree) -> Config {
    match compile_config(&tree) {
        Ok(config) => config,
        Err(e) => panic!("{}", e.message()),
    }
}

fn modmap(bindings: Vec<(&str, ModmapActionTree)>) -> ModmapTree {
    ModmapTree {
        name: String::new(),
        remap: bindings
            .into_iter()
            .map(|(k, action)| ModmapBindingTree { key: String::from(k), action })
            .collect(),
        application: None,
    }
}

fn run(handler: &mut EventHandler, config: &Config, events: Vec<Event>) -> Vec<Action> {
    handler.on_events_in(&events, config, &None)
}

fn expect(actual: Vec<Action>, expected: Vec<Action>) {
    assert_eq!(format!("{:?}", expected), format!("{:?}", actual));
    assert!(same_actions(&expected, &actual));
}

#[test]
fn unbound_keys_pass_as_they_are() {
    let config = compile(tree(vec![], vec![keymap(vec![bind("C-x", vec![chord("y")])])]));
    let mut handler = EventHandler::new("default", 0);
    expect(
        run(
            &mut handler,
            &config,
            vec![
                press(EvKey::KEY_Q),
                repeat(EvKey::KEY_Q),
                release(EvKey::KEY_Q),
                press(EvKey::KEY_X),
                release(EvKey::KEY_X),
                press(EvKey::KEY_LEFTSHIFT),
                release(EvKey::KEY_LEFTSHIFT),
            ],
        ),
        vec![
            pressed(EvKey::KEY_Q),
            repeated(EvKey::KEY_Q),
            released(EvKey::KEY_Q),
            pressed(EvKey::KEY_X),
            released(EvKey::KEY_X),
            pressed(EvKey::KEY_LEFTSHIFT),
            released(EvKey::KEY_LEFTSHIFT),
        ],
    );
}

#[test]
fn modifiers_are_tracked_once_and_in_order() {
    let config = compile(tree(vec![], vec![]));
    let mut handler = EventHandler::new("default", 0);
    run(
        &mut handler,
        &config,
        vec![
            press(EvKey::KEY_LEFTALT),
            press(EvKey::KEY_RIGHTSHIFT),
            press(EvKey::KEY_LEFTALT),
            repeat(EvKey::KEY_LEFTALT),
        ],
    );
    assert_eq!(
        handler.pressed_modifiers(),
        &vec![key(EvKey::KEY_LEFTALT), key(EvKey::KEY_RIGHTSHIFT)]
    );
    run(&mut handler, &config, vec![release(EvKey::KEY_LEFTALT)]);
    assert_eq!(handler.pressed_modifiers(), &vec![key(EvKey::KEY_RIGHTSHIFT)]);
    run(&mut handler, &config, vec![release(EvKey::KEY_RIGHTSHIFT), release(EvKey::KEY_A)]);
    assert!(handler.pressed_modifiers().is_empty());
}

#[test]
fn earlier_entry_wins() {
    let config = compile(tree(
        vec![],
        vec![
            keymap(vec![bind("a", vec![chord("b")])]),
            keymap(vec![bind("a", vec![chord("c")])]),
        ],
    ));
    let mut handler = EventHandler::new("default", 0);
    expect(
        run(&mut handler, &config, vec![press(EvKey::KEY_A)]),
        vec![
            pressed(EvKey::KEY_B),
            released(EvKey::KEY_B),
            Action::Delay(0),
            Action::Delay(0),
        ],
    );
}

#[test]
fn exact_pass_comes_before_loose_pass() {
    // The second entry matches exactly, the first only loosely: the second fires.
    let config = compile(tree(
        vec![],
        vec![
            keymap(vec![bind("a", vec![chord("b")])]),
            keymap(vec![bind("Shift-a", vec![chord("c")])]),
        ],
    ));
    let mut handler = EventHandler::new("default", 0);
    expect(
        run(&mut handler, &config, vec![press(EvKey::KEY_LEFTSHIFT), press(EvKey::KEY_A)]),
        vec![
            pressed(EvKey::KEY_LEFTSHIFT),
            released(EvKey::KEY_LEFTSHIFT),
            pressed(EvKey::KEY_C),
            released(EvKey::KEY_C),
            Action::Delay(0),
            pressed(EvKey::KEY_LEFTSHIFT),
            Action::Delay(0),
        ],
    );
}

#[test]
fn exact_entry_never_fires_with_extra_modifier() {
    let config = compile(tree(
        vec![],
        vec![KeymapTree {
            name: String::new(),
            remap: vec![bind("a", vec![chord("b")])],
            application: None,
            mode: None,
            exact_match: true,
        }],
    ));
    let mut handler = EventHandler::new("default", 0);
    expect(
        run(&mut handler, &config, vec![press(EvKey::KEY_LEFTCTRL), press(EvKey::KEY_A)]),
        vec![pressed(EvKey::KEY_LEFTCTRL), pressed(EvKey::KEY_A)],
    );
    let mut handler = EventHandler::new("default", 0);
    expect(
        run(&mut handler, &config, vec![press(EvKey::KEY_A)]),
        vec![
            pressed(EvKey::KEY_B),
            released(EvKey::KEY_B),
            Action::Delay(0),
            Action::Delay(0),
        ],
    );
}

#[test]
fn side_specific_modifiers() {
    let config = compile(tree(
        vec![],
        vec![keymap(vec![
            bind("C_R-a", vec![chord("x")]),
            bind("C_L-a", vec![chord("Shift_R-y")]),
        ])],
    ));
    let mut handler = EventHandler::new("default", 0);
    expect(
        run(&mut handler, &config, vec![press(EvKey::KEY_RIGHTCTRL), press(EvKey::KEY_A)]),
        vec![
            pressed(EvKey::KEY_RIGHTCTRL),
            released(EvKey::KEY_RIGHTCTRL),
            pressed(EvKey::KEY_X),
            released(EvKey::KEY_X),
            Action::Delay(0),
            pressed(EvKey::KEY_RIGHTCTRL),
            Action::Delay(0),
        ],
    );
    let mut handler = EventHandler::new("default", 0);
    expect(
        run(&mut handler, &config, vec![press(EvKey::KEY_LEFTCTRL), press(EvKey::KEY_A)]),
        vec![
            pressed(EvKey::KEY_LEFTCTRL),
            pressed(EvKey::KEY_RIGHTSHIFT),
            released(EvKey::KEY_LEFTCTRL),
            pressed(EvKey::KEY_Y),
            released(EvKey::KEY_Y),
            Action::Delay(0),
            pressed(EvKey::KEY_LEFTCTRL),
            Action::Delay(0),
            released(EvKey::KEY_RIGHTSHIFT),
        ],
    );
}

#[test]
fn held_side_is_kept_and_left_is_the_default() {
    let config = compile(tree(vec![], vec![keymap(vec![bind("a", vec![chord("C-b")])])]));
    // Right control is held: the chord finds its modifier satisfied.
    let mut handler = EventHandler::new("default", 0);
    expect(
        run(&mut handler, &config, vec![press(EvKey::KEY_RIGHTCTRL), press(EvKey::KEY_A)]),
        vec![
            pressed(EvKey::KEY_RIGHTCTRL),
            pressed(EvKey::KEY_B),
            released(EvKey::KEY_B),
            Action::Delay(0),
            Action::Delay(0),
        ],
    );
    // Nothing is held: the left key is pressed.
    let mut handler = EventHandler::new("default", 0);
    expect(
        run(&mut handler, &config, vec![press(EvKey::KEY_A)]),
        vec![
            pressed(EvKey::KEY_LEFTCTRL),
            pressed(EvKey::KEY_B),
            released(EvKey::KEY_B),
            Action::Delay(0),
            Action::Delay(0),
            released(EvKey::KEY_LEFTCTRL),
        ],
    );
}

#[test]
fn a_modifier_named_twice_is_pressed_once() {
    let config = compile(tree(vec![], vec![keymap(vec![bind("a", vec![chord("C-C_L-b")])])]));
    let mut handler = EventHandler::new("default", 0);
    expect(
        run(&mut handler, &config, vec![press(EvKey::KEY_A)]),
        vec![
            pressed(EvKey::KEY_LEFTCTRL),
            pressed(EvKey::KEY_B),
            released(EvKey::KEY_B),
            Action::Delay(0),
            Action::Delay(0),
            released(EvKey::KEY_LEFTCTRL),
        ],
    );
}

#[test]
fn keypress_delay_is_used() {
    let config = compile(tree(vec![], vec![keymap(vec![bind("M-f", vec![chord("C-right")])])]));
    let mut handler = EventHandler::new("default", 7);
    expect(
        run(&mut handler, &config, vec![press(EvKey::KEY_LEFTALT), press(EvKey::KEY_F)]),
        vec![
            pressed(EvKey::KEY_LEFTALT),
            pressed(EvKey::KEY_LEFTCTRL),
            released(EvKey::KEY_LEFTALT),
            pressed(EvKey::KEY_RIGHT),
            released(EvKey::KEY_RIGHT),
            Action::Delay(7),
            pressed(EvKey::KEY_LEFTALT),
            Action::Delay(7),
            released(EvKey::KEY_LEFTCTRL),
        ],
    );
}

#[test]
fn sequence_of_chords() {
    let config =
        compile(tree(vec![], vec![keymap(vec![bind("a", vec![chord("b"), chord("C-c")])])]));
    let mut handler = EventHandler::new("default", 0);
    expect(
        run(&mut handler, &config, vec![press(EvKey::KEY_A)]),
        vec![
            pressed(EvKey::KEY_B),
            released(EvKey::KEY_B),
            Action::Delay(0),
            Action::Delay(0),
            pressed(EvKey::KEY_LEFTCTRL),
            pressed(EvKey::KEY_C),
            released(EvKey::KEY_C),
            Action::Delay(0),
            Action::Delay(0),
            released(EvKey::KEY_LEFTCTRL),
        ],
    );
}

#[test]
fn launch_emits_a_command() {
    let config = compile(tree(
        vec![],
        vec![keymap(vec![bind(
            "Super-t",
            vec![ActionTree::Launch(vec![String::from("term"), String::from("-e")])],
        )])],
    ));
    let mut handler = EventHandler::new("default", 0);
    expect(
        run(&mut handler, &config, vec![press(EvKey::KEY_LEFTMETA), press(EvKey::KEY_T)]),
        vec![
            pressed(EvKey::KEY_LEFTMETA),
            Action::Command(vec![String::from("term"), String::from("-e")]),
        ],
    );
}

#[test]
fn set_mode_gates_entries() {
    let config = compile(tree(
        vec![],
        vec![
            KeymapTree {
                name: String::new(),
                remap: vec![bind("j", vec![chord("down")])],
                application: None,
                mode: Some(vec![String::from("normal")]),
                exact_match: false,
            },
            keymap(vec![
                bind("esc", vec![ActionTree::SetMode(String::from("normal"))]),
                bind("i", vec![ActionTree::SetMode(String::from("default"))]),
            ]),
        ],
    ));
    let mut handler = EventHandler::new("default", 0);
    assert_eq!(handler.mode(), "default");
    expect(run(&mut handler, &config, vec![press(EvKey::KEY_J)]), vec![pressed(EvKey::KEY_J)]);
    expect(run(&mut handler, &config, vec![press(EvKey::KEY_ESC)]), vec![]);
    assert_eq!(handler.mode(), "normal");
    expect(
        run(&mut handler, &config, vec![press(EvKey::KEY_J)]),
        vec![
            pressed(EvKey::KEY_DOWN),
            released(EvKey::KEY_DOWN),
            Action::Delay(0),
            Action::Delay(0),
        ],
    );
    expect(run(&mut handler, &config, vec![press(EvKey::KEY_I)]), vec![]);
    assert_eq!(handler.mode(), "default");
    expect(run(&mut handler, &config, vec![press(EvKey::KEY_J)]), vec![pressed(EvKey::KEY_J)]);
}

#[test]
fn mark_adds_shift() {
    let config = compile(tree(
        vec![],
        vec![keymap(vec![
            bind("C-space", vec![ActionTree::SetMark(true)]),
            bind("C-g", vec![ActionTree::SetMark(false)]),
            bind("C-f", vec![ActionTree::WithMark(String::from("right"))]),
        ])],
    ));
    let mut handler = EventHandler::new("default", 0);
    run(&mut handler, &config, vec![press(EvKey::KEY_LEFTCTRL)]);
    assert!(!handler.mark_set());
    expect(
        run(&mut handler, &config, vec![press(EvKey::KEY_F)]),
        vec![
            released(EvKey::KEY_LEFTCTRL),
            pressed(EvKey::KEY_RIGHT),
            released(EvKey::KEY_RIGHT),
            Action::Delay(0),
            pressed(EvKey::KEY_LEFTCTRL),
            Action::Delay(0),
        ],
    );
    expect(run(&mut handler, &config, vec![press(EvKey::KEY_SPACE)]), vec![]);
    assert!(handler.mark_set());
    expect(
        run(&mut handler, &config, vec![press(EvKey::KEY_F)]),
        vec![
            pressed(EvKey::KEY_LEFTSHIFT),
            released(EvKey::KEY_LEFTCTRL),
            pressed(EvKey::KEY_RIGHT),
            released(EvKey::KEY_RIGHT),
            Action::Delay(0),
            pressed(EvKey::KEY_LEFTCTRL),
            Action::Delay(0),
            released(EvKey::KEY_LEFTSHIFT),
        ],
    );
    expect(run(&mut handler, &config, vec![press(EvKey::KEY_G)]), vec![]);
    assert!(!handler.mark_set());
}

#[test]
fn mark_persists_through_a_macro() {
    let config = compile(tree(
        vec![],
        vec![keymap(vec![bind(
            "a",
            vec![ActionTree::SetMark(true), chord("C-b"), ActionTree::WithMark(String::from("c"))],
        )])],
    ));
    let mut handler = EventHandler::new("default", 0);
    expect(
        run(&mut handler, &config, vec![press(EvKey::KEY_A)]),
        vec![
            pressed(EvKey::KEY_LEFTCTRL),
            pressed(EvKey::KEY_B),
            released(EvKey::KEY_B),
            Action::Delay(0),
            Action::Delay(0),
            released(EvKey::KEY_LEFTCTRL),
            pressed(EvKey::KEY_LEFTSHIFT),
            pressed(EvKey::KEY_C),
            released(EvKey::KEY_C),
            Action::Delay(0),
            Action::Delay(0),
            released(EvKey::KEY_LEFTSHIFT),
        ],
    );
    assert!(handler.mark_set());
}

#[test]
fn escape_next_key_bypasses_translation_once() {
    let config = compile(tree(
        vec![],
        vec![keymap(vec![
            bind("C-q", vec![ActionTree::EscapeNextKey(true)]),
            bind("a", vec![chord("b")]),
        ])],
    ));
    let mut handler = EventHandler::new("default", 0);
    run(&mut handler, &config, vec![press(EvKey::KEY_LEFTCTRL), press(EvKey::KEY_Q)]);
    assert!(handler.escape_next_key());
    // Releases and modifiers do not use the escape up.
    expect(
        run(&mut handler, &config, vec![release(EvKey::KEY_Q), release(EvKey::KEY_LEFTCTRL)]),
        vec![released(EvKey::KEY_Q), released(EvKey::KEY_LEFTCTRL)],
    );
    assert!(handler.escape_next_key());
    expect(run(&mut handler, &config, vec![press(EvKey::KEY_A)]), vec![pressed(EvKey::KEY_A)]);
    assert!(!handler.escape_next_key());
    expect(
        run(&mut handler, &config, vec![release(EvKey::KEY_A), press(EvKey::KEY_A)]),
        vec![
            released(EvKey::KEY_A),
            pressed(EvKey::KEY_B),
            released(EvKey::KEY_B),
            Action::Delay(0),
            Action::Delay(0),
        ],
    );
}

#[test]
fn virtual_modifier_is_consumed_and_tracked() {
    let mut t = tree(vec![], vec![keymap(vec![bind("capslock-i", vec![chord("up")])])]);
    t.virtual_modifiers = vec![String::from("CapsLock")];
    let config = compile(t);
    let mut handler = EventHandler::new("default", 0);
    expect(run(&mut handler, &config, vec![press(EvKey::KEY_CAPSLOCK)]), vec![]);
    assert_eq!(handler.pressed_modifiers(), &vec![key(EvKey::KEY_CAPSLOCK)]);
    expect(
        run(&mut handler, &config, vec![press(EvKey::KEY_I)]),
        vec![
            pressed(EvKey::KEY_UP),
            released(EvKey::KEY_UP),
            Action::Delay(0),
            Action::Delay(0),
        ],
    );
    expect(
        run(&mut handler, &config, vec![release(EvKey::KEY_I), release(EvKey::KEY_CAPSLOCK)]),
        vec![released(EvKey::KEY_I)],
    );
    assert!(handler.pressed_modifiers().is_empty());
    expect(run(&mut handler, &config, vec![press(EvKey::KEY_I)]), vec![pressed(EvKey::KEY_I)]);
}

#[test]
fn modmap_to_modifier_is_tracked_in_new_identity() {
    let config = compile(tree(
        vec![modmap(vec![("capslock", ModmapActionTree::Keys(vec![String::from("ctrl_l")]))])],
        vec![keymap(vec![bind("C-a", vec![chord("home")])])],
    ));
    let mut handler = EventHandler::new("default", 0);
    expect(
        run(&mut handler, &config, vec![press(EvKey::KEY_CAPSLOCK)]),
        vec![pressed(EvKey::KEY_LEFTCTRL)],
    );
    assert_eq!(handler.pressed_modifiers(), &vec![key(EvKey::KEY_LEFTCTRL)]);
    expect(
        run(&mut handler, &config, vec![press(EvKey::KEY_A)]),
        vec![
            released(EvKey::KEY_LEFTCTRL),
            pressed(EvKey::KEY_HOME),
            released(EvKey::KEY_HOME),
            Action::Delay(0),
            pressed(EvKey::KEY_LEFTCTRL),
            Action::Delay(0),
        ],
    );
    expect(
        run(&mut handler, &config, vec![release(EvKey::KEY_CAPSLOCK)]),
        vec![released(EvKey::KEY_LEFTCTRL)],
    );
    assert!(handler.pressed_modifiers().is_empty());
}

#[test]
fn modmap_to_several_keys() {
    let config = compile(tree(
        vec![modmap(vec![(
            "a",
            ModmapActionTree::Keys(vec![String::from("b"), String::from("c")]),
        )])],
        vec![],
    ));
    let mut handler = EventHandler::new("default", 0);
    expect(
        run(&mut handler, &config, vec![press(EvKey::KEY_A), release(EvKey::KEY_A)]),
        vec![
            pressed(EvKey::KEY_B),
            pressed(EvKey::KEY_C),
            released(EvKey::KEY_B),
            released(EvKey::KEY_C),
        ],
    );
}

#[test]
fn release_follows_the_press_when_the_modmap_stops_applying() {
    let config = compile(tree(
        vec![ModmapTree {
            name: String::new(),
            remap: vec![ModmapBindingTree {
                key: String::from("a"),
                action: ModmapActionTree::Keys(vec![String::from("b")]),
            }],
            application: Some(Application { only: Some(vec![String::from("term")]), not: None }),
        }],
        vec![],
    ));
    let mut handler = EventHandler::new("default", 0);
    let term = Some(String::from("term"));
    expect(
        handler.on_events_in(&vec![press(EvKey::KEY_A)], &config, &term),
        vec![pressed(EvKey::KEY_B)],
    );
    // The focus has moved on; the key that went down as B goes up as B.
    expect(
        handler.on_events_in(&vec![repeat(EvKey::KEY_A), release(EvKey::KEY_A)], &config, &None),
        vec![repeated(EvKey::KEY_B), released(EvKey::KEY_B)],
    );
    expect(
        handler.on_events_in(&vec![press(EvKey::KEY_A), release(EvKey::KEY_A)], &config, &None),
        vec![pressed(EvKey::KEY_A), released(EvKey::KEY_A)],
    );
}

#[test]
fn application_not_filter() {
    let config = compile(tree(
        vec![],
        vec![KeymapTree {
            name: String::new(),
            remap: vec![bind("a", vec![chord("b")])],
            application: Some(Application { only: None, not: Some(vec![String::from("term")]) }),
            mode: None,
            exact_match: false,
        }],
    ));
    let remapped = vec![
        pressed(EvKey::KEY_B),
        released(EvKey::KEY_B),
        Action::Delay(0),
        Action::Delay(0),
    ];
    let mut handler = EventHandler::new("default", 0);
    expect(
        handler.on_events_in(&vec![press(EvKey::KEY_A)], &config, &Some(String::from("term"))),
        vec![pressed(EvKey::KEY_A)],
    );
    expect(
        handler.on_events_in(&vec![press(EvKey::KEY_A)], &config, &Some(String::from("web"))),
        vec![
            pressed(EvKey::KEY_B),
            released(EvKey::KEY_B),
            Action::Delay(0),
            Action::Delay(0),
        ],
    );
    expect(handler.on_events_in(&vec![press(EvKey::KEY_A)], &config, &None), remapped);
}

#[test]
fn press_and_release_hooks_run_before_the_key() {
    let config = compile(tree(
        vec![modmap(vec![(
            "a",
            ModmapActionTree::PressReleaseKey {
                press: vec![ActionTree::Launch(vec![String::from("down")])],
                release: vec![ActionTree::Launch(vec![String::from("up")])],
            },
        )])],
        vec![],
    ));
    let mut handler = EventHandler::new("default", 0);
    expect(
        run(
            &mut handler,
            &config,
            vec![press(EvKey::KEY_A), repeat(EvKey::KEY_A), release(EvKey::KEY_A)],
        ),
        vec![
            Action::Command(vec![String::from("down")]),
            pressed(EvKey::KEY_A),
            repeated(EvKey::KEY_A),
            Action::Command(vec![String::from("up")]),
            released(EvKey::KEY_A),
        ],
    );
}

fn caps_as_ctrl_or_esc() -> Config {
    compile(tree(
        vec![modmap(vec![(
            "capslock",
            ModmapActionTree::MultiPurposeKey {
                held: String::from("ctrl_l"),
                alone: String::from("esc"),
            },
        )])],
        vec![],
    ))
}

#[test]
fn multi_purpose_key_alone() {
    let config = caps_as_ctrl_or_esc();
    let mut handler = EventHandler::new("default", 0);
    expect(run(&mut handler, &config, vec![press(EvKey::KEY_CAPSLOCK)]), vec![]);
    expect(run(&mut handler, &config, vec![repeat(EvKey::KEY_CAPSLOCK)]), vec![]);
    expect(
        run(&mut handler, &config, vec![release(EvKey::KEY_CAPSLOCK)]),
        vec![pressed(EvKey::KEY_ESC), released(EvKey::KEY_ESC)],
    );
    assert!(handler.pressed_modifiers().is_empty());
}

#[test]
fn multi_purpose_key_held() {
    let config = caps_as_ctrl_or_esc();
    let mut handler = EventHandler::new("default", 0);
    expect(run(&mut handler, &config, vec![press(EvKey::KEY_CAPSLOCK)]), vec![]);
    expect(
        run(&mut handler, &config, vec![press(EvKey::KEY_A)]),
        vec![pressed(EvKey::KEY_LEFTCTRL), pressed(EvKey::KEY_A)],
    );
    assert_eq!(handler.pressed_modifiers(), &vec![key(EvKey::KEY_LEFTCTRL)]);
    expect(
        run(&mut handler, &config, vec![repeat(EvKey::KEY_CAPSLOCK)]),
        vec![repeated(EvKey::KEY_LEFTCTRL)],
    );
    expect(
        run(&mut handler, &config, vec![release(EvKey::KEY_A), release(EvKey::KEY_CAPSLOCK)]),
        vec![released(EvKey::KEY_A), released(EvKey::KEY_LEFTCTRL)],
    );
    assert!(handler.pressed_modifiers().is_empty());
}

#[test]
fn multi_purpose_key_forced_by_its_own_held_key() {
    // Pressing the key that the withheld key is held as does not press it twice.
    let config = caps_as_ctrl_or_esc();
    let mut handler = EventHandler::new("default", 0);
    expect(
        run(&mut handler, &config, vec![press(EvKey::KEY_CAPSLOCK), press(EvKey::KEY_LEFTCTRL)]),
        vec![pressed(EvKey::KEY_LEFTCTRL)],
    );
}

#[test]
fn prefix_arms_the_timer_and_a_hit_disarms_it() {
    let config = compile(tree(
        vec![],
        vec![keymap(vec![bind("C-x", vec![ActionTree::Remap(vec![bind("h", vec![chord("C-a")])])])])],
    ));
    let mut handler = EventHandler::new("default", 0);
    assert_eq!(handler.take_timer_request(), None);
    expect(
        run(&mut handler, &config, vec![press(EvKey::KEY_LEFTCTRL), press(EvKey::KEY_X)]),
        vec![pressed(EvKey::KEY_LEFTCTRL)],
    );
    assert!(handler.in_prefix());
    assert_eq!(handler.override_timeout_key(), Some(key(EvKey::KEY_X)));
    assert_eq!(handler.take_timer_request(), Some(TimerRequest::Arm(1000)));
    assert_eq!(handler.take_timer_request(), None);
    expect(
        run(&mut handler, &config, vec![release(EvKey::KEY_X), press(EvKey::KEY_H)]),
        vec![
            released(EvKey::KEY_X),
            pressed(EvKey::KEY_A),
            released(EvKey::KEY_A),
            Action::Delay(0),
            Action::Delay(0),
        ],
    );
    assert!(!handler.in_prefix());
    assert_eq!(handler.override_timeout_key(), None);
    assert_eq!(handler.take_timer_request(), Some(TimerRequest::Disarm));
}

#[test]
fn prefix_times_out_and_replays_its_key() {
    let config = compile(tree(
        vec![],
        vec![keymap(vec![bind("C-x", vec![ActionTree::Remap(vec![bind("h", vec![chord("C-a")])])])])],
    ));
    let mut handler = EventHandler::new("default", 0);
    run(&mut handler, &config, vec![press(EvKey::KEY_LEFTCTRL), press(EvKey::KEY_X)]);
    expect(handler.timeout_override(), vec![pressed(EvKey::KEY_X), released(EvKey::KEY_X)]);
    assert!(!handler.in_prefix());
    assert_eq!(handler.take_timer_request(), Some(TimerRequest::Disarm));
    // Without a prefix the timer does nothing but stop.
    expect(handler.timeout_override(), vec![]);
    // The same through the event of the timer.
    run(&mut handler, &config, vec![press(EvKey::KEY_X)]);
    expect(
        run(&mut handler, &config, vec![Event::OverrideTimeout]),
        vec![pressed(EvKey::KEY_X), released(EvKey::KEY_X)],
    );
}

#[test]
fn key_outside_the_prefix_replays_the_prefix_key() {
    let config = compile(tree(
        vec![],
        vec![keymap(vec![
            bind("C-x", vec![ActionTree::Remap(vec![bind("h", vec![chord("C-a")])])]),
            bind("z", vec![chord("y")]),
        ])],
    ));
    let mut handler = EventHandler::new("default", 0);
    run(
        &mut handler,
        &config,
        vec![
            press(EvKey::KEY_LEFTCTRL),
            press(EvKey::KEY_X),
            release(EvKey::KEY_X),
            release(EvKey::KEY_LEFTCTRL),
        ],
    );
    // Q is not in the nested remap: X is replayed and Q passes.
    expect(
        run(&mut handler, &config, vec![press(EvKey::KEY_Q)]),
        vec![pressed(EvKey::KEY_X), released(EvKey::KEY_X), pressed(EvKey::KEY_Q)],
    );
    assert!(!handler.in_prefix());
    // Z is not in the nested remap either, and the keymap has it.
    run(
        &mut handler,
        &config,
        vec![
            press(EvKey::KEY_LEFTCTRL),
            press(EvKey::KEY_X),
            release(EvKey::KEY_X),
            release(EvKey::KEY_LEFTCTRL),
        ],
    );
    expect(
        run(&mut handler, &config, vec![press(EvKey::KEY_Z)]),
        vec![
            pressed(EvKey::KEY_X),
            released(EvKey::KEY_X),
            pressed(EvKey::KEY_Y),
            released(EvKey::KEY_Y),
            Action::Delay(0),
            Action::Delay(0),
        ],
    );
}

#[test]
fn nested_prefixes() {
    let config = compile(tree(
        vec![],
        vec![keymap(vec![bind(
            "C-x",
            vec![ActionTree::Remap(vec![bind(
                "r",
                vec![ActionTree::Remap(vec![bind("t", vec![chord("f5")])])],
            )])],
        )])],
    ));
    let mut handler = EventHandler::new("default", 0);
    run(
        &mut handler,
        &config,
        vec![
            press(EvKey::KEY_LEFTCTRL),
            press(EvKey::KEY_X),
            release(EvKey::KEY_X),
            release(EvKey::KEY_LEFTCTRL),
        ],
    );
    expect(run(&mut handler, &config, vec![press(EvKey::KEY_R)]), vec![]);
    assert!(handler.in_prefix());
    assert_eq!(handler.override_timeout_key(), Some(key(EvKey::KEY_R)));
    expect(
        run(&mut handler, &config, vec![release(EvKey::KEY_R), press(EvKey::KEY_T)]),
        vec![
            released(EvKey::KEY_R),
            pressed(EvKey::KEY_F5),
            released(EvKey::KEY_F5),
            Action::Delay(0),
            Action::Delay(0),
        ],
    );
    assert!(!handler.in_prefix());
}

#[test]
fn config_reload_resets_mode_and_prefix_and_keeps_modifiers() {
    let config = compile(tree(
        vec![],
        vec![keymap(vec![
            bind("C-x", vec![ActionTree::Remap(vec![bind("h", vec![chord("C-a")])])]),
            bind("C-n", vec![ActionTree::SetMode(String::from("normal"))]),
        ])],
    ));
    let mut other = tree(vec![], vec![]);
    other.keypress_delay_ms = 3;
    other.default_mode = String::from("start");
    let reloaded = compile(other);
    let mut handler = EventHandler::new("default", 0);
    run(
        &mut handler,
        &config,
        vec![press(EvKey::KEY_LEFTCTRL), press(EvKey::KEY_N), press(EvKey::KEY_X)],
    );
    assert_eq!(handler.mode(), "normal");
    assert!(handler.in_prefix());
    expect(
        handler.on_config_reload(&reloaded),
        vec![pressed(EvKey::KEY_X), released(EvKey::KEY_X)],
    );
    assert_eq!(handler.mode(), "start");
    assert!(!handler.in_prefix());
    assert_eq!(handler.pressed_modifiers(), &vec![key(EvKey::KEY_LEFTCTRL)]);
    expect(handler.on_config_reload(&reloaded), vec![]);
}

#[test]
fn terminal_releases_cover_held_physical_modifiers() {
    let mut t = tree(vec![], vec![]);
    t.virtual_modifiers = vec![String::from("capslock")];
    let config = compile(t);
    let mut handler = EventHandler::new("default", 0);
    expect(handler.terminal_releases(&config), vec![]);
    run(
        &mut handler,
        &config,
        vec![
            press(EvKey::KEY_RIGHTALT),
            press(EvKey::KEY_CAPSLOCK),
            press(EvKey::KEY_LEFTSHIFT),
            press(EvKey::KEY_A),
        ],
    );
    expect(
        handler.terminal_releases(&config),
        vec![released(EvKey::KEY_RIGHTALT), released(EvKey::KEY_LEFTSHIFT)],
    );
}

#[test]
fn motion_is_flushed_last_in_one_action() {
    let config = compile(tree(vec![], vec![]));
    let mut handler = EventHandler::new("default", 0);
    let syn = InputEvent::new(EV_SYN, 0, 0);
    expect(
        run(
            &mut handler,
            &config,
            vec![
                Event::RelativeEvent(RelativeEvent::new_with(0, 5)),
                press(EvKey::KEY_A),
                Event::RelativeEvent(RelativeEvent::new_with(1, -3)),
                Event::OtherEvents(syn),
                Event::RelativeEvent(RelativeEvent::new_with(8, 1)),
                Event::RelativeEvent(RelativeEvent::new_with(13, 2)),
                Event::RelativeEvent(RelativeEvent::new_with(0, 0)),
            ],
        ),
        vec![
            pressed(EvKey::KEY_A),
            Action::InputEvent(syn),
            Action::MouseMovementEventCollection(vec![
                RelativeEvent::new_with(0, 5),
                RelativeEvent::new_with(1, -3),
                RelativeEvent::new_with(8, 1),
                RelativeEvent::new_with(13, 2),
                RelativeEvent::new_with(0, 0),
            ]),
        ],
    );
    // Nothing is left for the next invocation.
    expect(run(&mut handler, &config, vec![press(EvKey::KEY_B)]), vec![pressed(EvKey::KEY_B)]);
}

#[test]
fn negative_motion_has_its_own_key() {
    let config = compile(tree(
        vec![],
        vec![keymap(vec![
            bind("XLEFTCURSOR", vec![chord("left")]),
            bind("XUPSCROLL", vec![chord("pageup")]),
            bind("XHIRES_LEFTSCROLL", vec![chord("home")]),
        ])],
    ));
    let tap = |k: EvKey| {
        vec![pressed(k), released(k), Action::Delay(0), Action::Delay(0)]
    };
    let mut handler = EventHandler::new("default", 0);
    expect(
        run(&mut handler, &config, vec![Event::RelativeEvent(RelativeEvent::new_with(0, -4))]),
        tap(EvKey::KEY_LEFT),
    );
    expect(
        run(&mut handler, &config, vec![Event::RelativeEvent(RelativeEvent::new_with(0, 4))]),
        vec![Action::MouseMovementEventCollection(vec![RelativeEvent::new_with(0, 4)])],
    );
    expect(
        run(&mut handler, &config, vec![Event::RelativeEvent(RelativeEvent::new_with(8, 1))]),
        tap(EvKey::KEY_PAGEUP),
    );
    expect(
        run(&mut handler, &config, vec![Event::RelativeEvent(RelativeEvent::new_with(12, -1))]),
        tap(EvKey::KEY_HOME),
    );
}

struct CountingClient {
    supported: bool,
    asked: std::rc::Rc<std::cell::Cell<u32>>,
}

impl Client for CountingClient {
    fn supported(&mut self) -> bool {
        self.supported
    }

    fn current_application(&mut self) -> Option<String> {
        self.asked.set(self.asked.get() + 1);
        Some(String::from("web"))
    }
}

#[test]
fn unsupported_client_is_never_asked() {
    let asked = std::rc::Rc::new(std::cell::Cell::new(0));
    let mut client =
        WMClient::new("counting", Box::new(CountingClient { supported: false, asked: asked.clone() }));
    assert_eq!(client.name(), "counting");
    assert_eq!(client.current_application(), None);
    assert!(!client.is_supported());
    assert_eq!(client.current_application(), None);
    assert_eq!(asked.get(), 0);
}

#[test]
fn supported_client_is_asked_for_keys_and_motion_only() {
    let asked = std::rc::Rc::new(std::cell::Cell::new(0));
    let mut client =
        WMClient::new("counting", Box::new(CountingClient { supported: true, asked: asked.clone() }));
    let config = compile(tree(
        vec![],
        vec![KeymapTree {
            name: String::new(),
            remap: vec![bind("a", vec![chord("b")])],
            application: Some(Application { only: Some(vec![String::from("web")]), not: None }),
            mode: None,
            exact_match: false,
        }],
    ));
    let mut handler = EventHandler::new("default", 0);
    let actions = handler.on_events(
        &vec![
            Event::OtherEvents(InputEvent::new(EV_SYN, 0, 0)),
            press(EvKey::KEY_A),
            Event::OverrideTimeout,
            Event::RelativeEvent(RelativeEvent::new_with(0, 1)),
        ],
        &config,
        &mut client,
    );
    assert_eq!(asked.get(), 2);
    assert!(client.is_supported());
    expect(
        actions,
        vec![
            Action::InputEvent(InputEvent::new(EV_SYN, 0, 0)),
            pressed(EvKey::KEY_B),
            released(EvKey::KEY_B),
            Action::Delay(0),
            Action::Delay(0),
            Action::MouseMovementEventCollection(vec![RelativeEvent::new_with(0, 1)]),
        ],
    );
}

fn balance(actions: &Vec<Action>, k: Key) -> i64 {
    let mut n = 0;
    for action in actions {
        if let Action::KeyEvent(e) = action {
            if e.key == k {
                match e.value {
                    KeyValue::Press => n += 1,
                    KeyValue::Release => n -= 1,
                    KeyValue::Repeat => {}
                }
            }
        }
    }
    n
}

#[test]
fn chords_release_what_they_press() {
    let config = compile(tree(
        vec![],
        vec![keymap(vec![
            bind("M-f", vec![chord("C-Shift-right"), chord("Super-C_R-a")]),
            bind("g", vec![ActionTree::WithMark(String::from("M-b")), chord("leftctrl")]),
        ])],
    ));
    for held in [vec![], vec![EvKey::KEY_LEFTALT], vec![EvKey::KEY_LEFTALT, EvKey::KEY_RIGHTCTRL]] {
        for trigger in [EvKey::KEY_F, EvKey::KEY_G] {
            let mut handler = EventHandler::new("default", 0);
            run(&mut handler, &config, held.iter().map(|k| press(*k)).collect());
            let actions = run(&mut handler, &config, vec![press(trigger)]);
            if !(trigger == EvKey::KEY_F && held.is_empty()) {
                assert!(actions.len() > 1);
            }
            if actions.len() > 1 {
                for code in 0..0x300u16 {
                    assert_eq!(balance(&actions, Key::new(code)), 0);
                }
            }
        }
    }
}

#[test]
fn chords_never_press_a_held_modifier() {
    let config = compile(tree(
        vec![],
        vec![keymap(vec![bind("a", vec![chord("C-M-Shift-Super-x"), chord("C_R-Shift_R-y")])])],
    ));
    let all = [
        EvKey::KEY_LEFTSHIFT,
        EvKey::KEY_RIGHTSHIFT,
        EvKey::KEY_LEFTCTRL,
        EvKey::KEY_RIGHTCTRL,
        EvKey::KEY_LEFTALT,
        EvKey::KEY_RIGHTALT,
        EvKey::KEY_LEFTMETA,
        EvKey::KEY_RIGHTMETA,
    ];
    for mask in 0..256u32 {
        let held: Vec<EvKey> =
            all.iter().enumerate().filter(|(i, _)| mask & (1 << i) != 0).map(|(_, k)| *k).collect();
        let mut handler = EventHandler::new("default", 0);
        run(&mut handler, &config, held.iter().map(|k| press(*k)).collect());
        let mut down: Vec<Key> = held.iter().map(|k| key(*k)).collect();
        let before = down.clone();
        for action in run(&mut handler, &config, vec![press(EvKey::KEY_A)]) {
            if let Action::KeyEvent(e) = action {
                match e.value {
                    KeyValue::Press => {
                        assert!(!down.contains(&e.key), "pressed twice: {:?}", e.key);
                        down.push(e.key);
                    }
                    KeyValue::Release => down.retain(|k| *k != e.key),
                    KeyValue::Repeat => {}
                }
            }
        }
        down.sort_by_key(|k| k.code());
        let mut before = before;
        before.sort_by_key(|k| k.code());
        assert_eq!(down, before);
    }
}
