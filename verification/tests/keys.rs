use evdev::Key as EvKey;
use xremap::config::chord::{parse_key_press, parse_modifier, ConfigError};
use xremap::config::key_name::parse_key;
use xremap::config::key_press::{Modifier, Side};
use xremap::key::{
    Key, BTN_LEFT, BTN_TOOL_PEN, BTN_TOUCH, BTN_TRIGGER_HAPPY40, DISGUISED_EVENT_OFFSETTER, KEY_A,
    KEY_LEFTALT, KEY_LEFTCTRL, KEY_LEFTMETA, KEY_LEFTSHIFT, KEY_RESERVED, KEY_RIGHTALT,
    KEY_RIGHTCTRL, KEY_RIGHTMETA, KEY_RIGHTSHIFT, KEY_SPACE, KEY_Z,
};

#[test]
fn key_codes_agree_with_evdev() {
    assert_eq!(KEY_RESERVED, EvKey::KEY_RESERVED.code());
    assert_eq!(KEY_A, EvKey::KEY_A.code());
    assert_eq!(KEY_Z, EvKey::KEY_Z.code());
    assert_eq!(KEY_SPACE, EvKey::KEY_SPACE.code());
    assert_eq!(KEY_LEFTSHIFT, EvKey::KEY_LEFTSHIFT.code());
    assert_eq!(KEY_RIGHTSHIFT, EvKey::KEY_RIGHTSHIFT.code());
    assert_eq!(KEY_LEFTCTRL, EvKey::KEY_LEFTCTRL.code());
    assert_eq!(KEY_RIGHTCTRL, EvKey::KEY_RIGHTCTRL.code());
    assert_eq!(KEY_LEFTALT, EvKey::KEY_LEFTALT.code());
    assert_eq!(KEY_RIGHTALT, EvKey::KEY_RIGHTALT.code());
    assert_eq!(KEY_LEFTMETA, EvKey::KEY_LEFTMETA.code());
    assert_eq!(KEY_RIGHTMETA, EvKey::KEY_RIGHTMETA.code());
    assert_eq!(BTN_LEFT, EvKey::BTN_LEFT.code());
    assert_eq!(BTN_TOOL_PEN, EvKey::BTN_TOOL_PEN.code());
    assert_eq!(BTN_TOUCH, EvKey::BTN_TOUCH.code());
    assert_eq!(BTN_TRIGGER_HAPPY40, EvKey::BTN_TRIGGER_HAPPY40.code());
}

#[test]
fn modifier_keys_are_the_eight_physical_ones() {
    let modifiers = [
        KEY_LEFTSHIFT,
        KEY_RIGHTSHIFT,
        KEY_LEFTCTRL,
        KEY_RIGHTCTRL,
        KEY_LEFTALT,
        KEY_RIGHTALT,
        KEY_LEFTMETA,
        KEY_RIGHTMETA,
    ];
    for code in 0..=u16::MAX {
        assert_eq!(Key::new(code).is_modifier_key(), modifiers.contains(&code));
    }
}

#[test]
fn parse_key_knows_evdev_names() {
    assert_eq!(parse_key("KEY_A"), Some(Key::new(EvKey::KEY_A.code())));
    assert_eq!(parse_key("a"), Some(Key::new(EvKey::KEY_A.code())));
    assert_eq!(parse_key("A"), Some(Key::new(EvKey::KEY_A.code())));
    assert_eq!(parse_key("f1"), Some(Key::new(EvKey::KEY_F1.code())));
    assert_eq!(parse_key("leftctrl"), Some(Key::new(EvKey::KEY_LEFTCTRL.code())));
    assert_eq!(parse_key("btn_left"), Some(Key::new(EvKey::BTN_LEFT.code())));
    assert_eq!(parse_key("CapsLock"), Some(Key::new(EvKey::KEY_CAPSLOCK.code())));
}

#[test]
fn parse_key_knows_its_own_names() {
    assert_eq!(parse_key("shift_r"), Some(Key::new(KEY_RIGHTSHIFT)));
    assert_eq!(parse_key("Ctrl_L"), Some(Key::new(KEY_LEFTCTRL)));
    assert_eq!(parse_key("CONTROL_R"), Some(Key::new(KEY_RIGHTCTRL)));
    assert_eq!(parse_key("alt_l"), Some(Key::new(KEY_LEFTALT)));
    assert_eq!(parse_key("super_r"), Some(Key::new(KEY_RIGHTMETA)));
    assert_eq!(parse_key("win_l"), Some(Key::new(KEY_LEFTMETA)));
    assert_eq!(parse_key("XRIGHTCURSOR"), Some(Key::new(DISGUISED_EVENT_OFFSETTER)));
    assert_eq!(parse_key("xleftcursor"), Some(Key::new(DISGUISED_EVENT_OFFSETTER + 1)));
    assert_eq!(parse_key("XUPSCROLL"), Some(Key::new(DISGUISED_EVENT_OFFSETTER + 16)));
    assert_eq!(parse_key("XDOWNSCROLL"), Some(Key::new(DISGUISED_EVENT_OFFSETTER + 17)));
    assert_eq!(parse_key("XHIRES_LEFTSCROLL"), Some(Key::new(DISGUISED_EVENT_OFFSETTER + 25)));
}

#[test]
fn parse_key_rejects_what_is_no_key() {
    assert_eq!(parse_key("foobar"), None);
    assert_eq!(parse_key(""), None);
    assert_eq!(parse_key("KEY_"), None);
    assert_eq!(parse_key("XNOSUCHCURSOR"), None);
}

#[test]
fn parse_modifier_knows_names_and_sides() {
    assert_eq!(parse_modifier("C"), Some(Modifier::Control(Side::Either)));
    assert_eq!(parse_modifier("ctrl"), Some(Modifier::Control(Side::Either)));
    assert_eq!(parse_modifier("Control"), Some(Modifier::Control(Side::Either)));
    assert_eq!(parse_modifier("C_L"), Some(Modifier::Control(Side::Left)));
    assert_eq!(parse_modifier("c_r"), Some(Modifier::Control(Side::Right)));
    assert_eq!(parse_modifier("M"), Some(Modifier::Alt(Side::Either)));
    assert_eq!(parse_modifier("alt_r"), Some(Modifier::Alt(Side::Right)));
    assert_eq!(parse_modifier("Shift"), Some(Modifier::Shift(Side::Either)));
    assert_eq!(parse_modifier("shift_l"), Some(Modifier::Shift(Side::Left)));
    assert_eq!(parse_modifier("Super"), Some(Modifier::Super(Side::Either)));
    assert_eq!(parse_modifier("win"), Some(Modifier::Super(Side::Either)));
    assert_eq!(parse_modifier("windows_r"), Some(Modifier::Super(Side::Right)));
    assert_eq!(
        parse_modifier("capslock"),
        Some(Modifier::Key(Key::new(EvKey::KEY_CAPSLOCK.code())))
    );
    assert_eq!(parse_modifier("nothing"), None);
}

fn chord(input: &str) -> (Key, Vec<Modifier>) {
    match parse_key_press(input) {
        Ok(chord) => (chord.key, chord.modifiers),
        Err(e) => panic!("{}", e.message()),
    }
}

fn chord_error(input: &str) -> String {
    match parse_key_press(input) {
        Ok(_) => panic!("{} is a chord", input),
        Err(e) => e.message(),
    }
}

#[test]
fn parse_key_press_reads_chords() {
    assert_eq!(chord("a"), (Key::new(EvKey::KEY_A.code()), vec![]));
    assert_eq!(
        chord("C-x"),
        (Key::new(EvKey::KEY_X.code()), vec![Modifier::Control(Side::Either)])
    );
    assert_eq!(
        chord("C-M-f"),
        (
            Key::new(EvKey::KEY_F.code()),
            vec![Modifier::Control(Side::Either), Modifier::Alt(Side::Either)]
        )
    );
    assert_eq!(
        chord("m-c-F"),
        (
            Key::new(EvKey::KEY_F.code()),
            vec![Modifier::Alt(Side::Either), Modifier::Control(Side::Either)]
        )
    );
    assert_eq!(
        chord("Super-Shift-right"),
        (
            Key::new(EvKey::KEY_RIGHT.code()),
            vec![Modifier::Super(Side::Either), Modifier::Shift(Side::Either)]
        )
    );
    assert_eq!(
        chord("C_L-C_R-leftctrl"),
        (
            Key::new(EvKey::KEY_LEFTCTRL.code()),
            vec![Modifier::Control(Side::Left), Modifier::Control(Side::Right)]
        )
    );
    assert_eq!(
        chord("capslock-i"),
        (
            Key::new(EvKey::KEY_I.code()),
            vec![Modifier::Key(Key::new(EvKey::KEY_CAPSLOCK.code()))]
        )
    );
    assert_eq!(chord("XRIGHTCURSOR"), (Key::new(DISGUISED_EVENT_OFFSETTER), vec![]));
}

#[test]
fn parse_key_press_reports_what_is_wrong() {
    assert_eq!(chord_error(""), "malformed chord ''");
    assert_eq!(chord_error("C-"), "malformed chord 'C-'");
    assert_eq!(chord_error("C-M-"), "malformed chord 'C-M-'");
    assert_eq!(chord_error("bogus-"), "malformed chord 'bogus-'");
    assert_eq!(chord_error("C-nokey"), "unknown key 'nokey'");
    assert_eq!(chord_error("foo-a"), "unknown key 'foo'");
    assert_eq!(chord_error("C-foo-bar-a"), "unknown key 'foo'");
    assert_eq!(chord_error("C--a"), "unknown key ''");
    assert!(matches!(parse_key_press("C-"), Err(ConfigError::MalformedChord(_))));
    assert!(matches!(parse_key_press("C-zz"), Err(ConfigError::UnknownKey(_))));
}
