//! Key names as the configuration writes them.

use std::str::FromStr;
use vstd::prelude::*;
use crate::key::{
    Key, DISGUISED_EVENT_OFFSETTER, KEY_LEFTALT, KEY_LEFTCTRL, KEY_LEFTMETA, KEY_LEFTSHIFT,
    KEY_RIGHTALT, KEY_RIGHTCTRL, KEY_RIGHTMETA, KEY_RIGHTSHIFT,
};
use crate::text::{chars_of, same_chars};

verus! {

/// The code of the key that the evdev crate knows under `name`, if it knows
/// one.
pub uninterp spec fn evdev_key_code(name: Seq<char>) -> Option<u16>;

/// `text` with every character in upper case, as the standard library
/// converts it.
pub uninterp spec fn uppercase(text: Seq<char>) -> Seq<char>;

/// Looks a key up by the name that the evdev crate has for it, such as
/// `KEY_A`: `evdev::Key::from_str`, which finds the name in the crate's
/// table of scancodes or fails.  The contract names the result.
#[verifier::external_body]
pub(crate) fn key_code(name: &str) -> (code: Option<u16>)
    ensures
        code == evdev_key_code(name@),
{
    match evdev::Key::from_str(name) {
        Ok(key) => Some(key.code()),
        Err(_) => None,
    }
}

/// The name under which the evdev crate prints the key with the code
/// `code`.
pub uninterp spec fn evdev_key_name(code: u16) -> Seq<char>;

/// The name of a key as the evdev crate prints it: the `Debug` form of
/// `evdev::Key::new(code)`, which is the name in the crate's table of
/// scancodes, or a text that says that the key is unknown.  The contract
/// names the result.
#[verifier::external_body]
pub(crate) fn key_name(code: u16) -> (name: String)
    ensures
        name@ == evdev_key_name(code),
{
    format!("{:?}", evdev::Key::new(code))
}

/// `str::to_uppercase` of the standard library.  The contract names the
/// result.
#[verifier::external_body]
pub(crate) fn to_uppercase(text: &str) -> (upper: String)
    ensures
        upper@ == uppercase(text@),
{
    text.to_uppercase()
}

/// The names of the keys that stand for pointer motion.  The key at index
/// `i` has the code `DISGUISED_EVENT_OFFSETTER + i`: two names for each
/// relative axis, first the positive direction, then the negative one.
pub open spec fn relative_key_names() -> Seq<Seq<char>> {
    seq![
        "XRIGHTCURSOR"@,
        "XLEFTCURSOR"@,
        "XDOWNCURSOR"@,
        "XUPCURSOR"@,
        "XREL_Z_AXIS_1"@,
        "XREL_Z_AXIS_2"@,
        "XREL_RX_AXIS_1"@,
        "XREL_RX_AXIS_2"@,
        "XREL_RY_AXIS_1"@,
        "XREL_RY_AXIS_2"@,
        "XREL_RZ_AXIS_1"@,
        "XREL_RZ_AXIS_2"@,
        "XRIGHTSCROLL"@,
        "XLEFTSCROLL"@,
        "XREL_DIAL_1"@,
        "XREL_DIAL_2"@,
        "XUPSCROLL"@,
        "XDOWNSCROLL"@,
        "XREL_MISC_1"@,
        "XREL_MISC_2"@,
        "XREL_RESERVED_1"@,
        "XREL_RESERVED_2"@,
        "XHIRES_UPSCROLL"@,
        "XHIRES_DOWNSCROLL"@,
        "XHIRES_RIGHTSCROLL"@,
        "XHIRES_LEFTSCROLL"@,
    ]
}

/// The names under which the configuration knows the two keys of each
/// modifier, with the code of the key.
pub open spec fn modifier_key_names() -> Seq<(Seq<char>, u16)> {
    seq![
        ("SHIFT_R"@, KEY_RIGHTSHIFT),
        ("SHIFT_L"@, KEY_LEFTSHIFT),
        ("CONTROL_R"@, KEY_RIGHTCTRL),
        ("CONTROL_L"@, KEY_LEFTCTRL),
        ("CTRL_R"@, KEY_RIGHTCTRL),
        ("CTRL_L"@, KEY_LEFTCTRL),
        ("ALT_R"@, KEY_RIGHTALT),
        ("ALT_L"@, KEY_LEFTALT),
        ("SUPER_R"@, KEY_RIGHTMETA),
        ("SUPER_L"@, KEY_LEFTMETA),
        ("WIN_R"@, KEY_RIGHTMETA),
        ("WIN_L"@, KEY_LEFTMETA),
    ]
}

/// The index of the first entry of `names[from..]` that is `name`, or the
/// length of `names` if there is none.
pub open spec fn name_index(names: Seq<Seq<char>>, name: Seq<char>, from: int) -> int
    decreases names.len() - from,
{
    if from >= names.len() {
        names.len() as int
    } else if names[from] == name {
        from
    } else {
        name_index(names, name, from + 1)
    }
}

/// The names of a table of names and codes.
pub open spec fn names_of(table: Seq<(Seq<char>, u16)>) -> Seq<Seq<char>> {
    table.map_values(|entry: (Seq<char>, u16)| entry.0)
}

/// The key that the configuration's own names give to `name`, which is in
/// upper case: a key of a modifier, or a key that stands for pointer motion.
pub open spec fn alias_key(name: Seq<char>) -> Option<Key> {
    let m = name_index(names_of(modifier_key_names()), name, 0);
    let r = name_index(relative_key_names(), name, 0);
    if m < modifier_key_names().len() {
        Some(Key(modifier_key_names()[m].1))
    } else if r < relative_key_names().len() {
        Some(Key((DISGUISED_EVENT_OFFSETTER + r) as u16))
    } else {
        None
    }
}

/// The key that `name`, which is in upper case, stands for, given what the
/// evdev crate makes of the name (`direct`) and of the name behind `KEY_`
/// (`prefixed`): the first of the two that is a key, else the key that the
/// configuration's own names give it.
pub open spec fn key_of_lookups(name: Seq<char>, direct: Option<u16>, prefixed: Option<u16>) -> Option<
    Key,
> {
    match direct {
        Some(code) => Some(Key(code)),
        None => match prefixed {
            Some(code) => Some(Key(code)),
            None => alias_key(name),
        },
    }
}

/// The key that the configuration means by `input`.  Case does not matter.
/// The name is one that the evdev crate knows, with or without its
/// `KEY_`, or one of the configuration's own names.
pub open spec fn key_named(input: Seq<char>) -> Option<Key> {
    let name = uppercase(input);
    key_of_lookups(name, evdev_key_code(name), evdev_key_code("KEY_"@ + name))
}

fn relative_names() -> (names: Vec<&'static str>)
    ensures
        names@.map_values(|s: &'static str| s@) == relative_key_names(),
{
    let mut names: Vec<&'static str> = Vec::new();
    names.push("XRIGHTCURSOR");
    names.push("XLEFTCURSOR");
    names.push("XDOWNCURSOR");
    names.push("XUPCURSOR");
    names.push("XREL_Z_AXIS_1");
    names.push("XREL_Z_AXIS_2");
    names.push("XREL_RX_AXIS_1");
    names.push("XREL_RX_AXIS_2");
    names.push("XREL_RY_AXIS_1");
    names.push("XREL_RY_AXIS_2");
    names.push("XREL_RZ_AXIS_1");
    names.push("XREL_RZ_AXIS_2");
    names.push("XRIGHTSCROLL");
    names.push("XLEFTSCROLL");
    names.push("XREL_DIAL_1");
    names.push("XREL_DIAL_2");
    names.push("XUPSCROLL");
    names.push("XDOWNSCROLL");
    names.push("XREL_MISC_1");
    names.push("XREL_MISC_2");
    names.push("XREL_RESERVED_1");
    names.push("XREL_RESERVED_2");
    names.push("XHIRES_UPSCROLL");
    names.push("XHIRES_DOWNSCROLL");
    names.push("XHIRES_RIGHTSCROLL");
    names.push("XHIRES_LEFTSCROLL");
    names
}

fn modifier_names() -> (table: (Vec<&'static str>, Vec<u16>))
    ensures
        table.0.len() == table.1.len(),
        table.0@.map_values(|s: &'static str| s@) == names_of(modifier_key_names()),
        table.1@ == modifier_key_names().map_values(|entry: (Seq<char>, u16)| entry.1),
{
    let mut names: Vec<&'static str> = Vec::new();
    let mut codes: Vec<u16> = Vec::new();
    names.push("SHIFT_R");
    codes.push(KEY_RIGHTSHIFT);
    names.push("SHIFT_L");
    codes.push(KEY_LEFTSHIFT);
    names.push("CONTROL_R");
    codes.push(KEY_RIGHTCTRL);
    names.push("CONTROL_L");
    codes.push(KEY_LEFTCTRL);
    names.push("CTRL_R");
    codes.push(KEY_RIGHTCTRL);
    names.push("CTRL_L");
    codes.push(KEY_LEFTCTRL);
    names.push("ALT_R");
    codes.push(KEY_RIGHTALT);
    names.push("ALT_L");
    codes.push(KEY_LEFTALT);
    names.push("SUPER_R");
    codes.push(KEY_RIGHTMETA);
    names.push("SUPER_L");
    codes.push(KEY_LEFTMETA);
    names.push("WIN_R");
    codes.push(KEY_RIGHTMETA);
    names.push("WIN_L");
    codes.push(KEY_LEFTMETA);
    (names, codes)
}

/// The index of the first of `names` that is `name`.
pub fn find_name(names: &Vec<&'static str>, name: &str) -> (found: Option<usize>)
    ensures
        match found {
            Some(i) => i < names.len() && i == name_index(
                names@.map_values(|s: &'static str| s@),
                name@,
                0,
            ),
            None => name_index(names@.map_values(|s: &'static str| s@), name@, 0) == names.len(),
        },
{
    let ghost all = names@.map_values(|s: &'static str| s@);
    let wanted: Vec<char> = chars_of(name);
    let mut i: usize = 0;
    while i < names.len()
        invariant
            i <= names.len(),
            wanted@ == name@,
            all == names@.map_values(|s: &'static str| s@),
            name_index(all, name@, 0) == name_index(all, name@, i as int),
        decreases names.len() - i,
    {
        let candidate: Vec<char> = chars_of(names[i]);
        if same_chars(&candidate, &wanted) {
            return Some(i);
        }
        i += 1;
    }
    None
}

/// The key that the configuration's own names give to `name`.
pub fn find_alias(name: &str) -> (key: Option<Key>)
    ensures
        key == alias_key(name@),
{
    let (names, codes) = modifier_names();
    match find_name(&names, name) {
        Some(m) => {
            return Some(Key(codes[m]));
        },
        None => {},
    }
    let relative = relative_names();
    match find_name(&relative, name) {
        Some(r) => {
            let offset: u16 = r as u16;
            Some(Key(DISGUISED_EVENT_OFFSETTER + offset))
        },
        None => None,
    }
}

/// The key that `name`, which is in upper case, stands for, given what the
/// evdev crate makes of the name and of the name behind `KEY_`.
pub fn key_from_lookups(name: &str, direct: Option<u16>, prefixed: Option<u16>) -> (key: Option<Key>)
    ensures
        key == key_of_lookups(name@, direct, prefixed),
{
    match direct {
        Some(code) => Some(Key(code)),
        None => match prefixed {
            Some(code) => Some(Key(code)),
            None => find_alias(name),
        },
    }
}

/// The key that the configuration means by `input`, if it names one.
pub fn parse_key(input: &str) -> (key: Option<Key>)
    ensures
        key == key_named(input@),
{
    let name: String = to_uppercase(input);
    let direct: Option<u16> = key_code(name.as_str());
    let prefixed_name: String = "KEY_".to_owned().concat(name.as_str());
    let prefixed: Option<u16> = key_code(prefixed_name.as_str());
    key_from_lookups(name.as_str(), direct, prefixed)
}

} // verus!
