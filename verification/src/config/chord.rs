//! Chords as the configuration writes them, such as `C-M-f`.

use vstd::prelude::*;
use vstd::string::StrSliceExecFns;
use crate::config::key_name::{
    find_name, key_named, name_index, parse_key, to_uppercase, uppercase,
};
use crate::config::key_press::{KeyPress, KeyPressView, Modifier, Side};
use crate::key::Key;
use crate::text::chars_of;

verus! {

/// What is wrong with a configuration.
#[derive(Debug)]
pub enum ConfigError {
    /// The chord ends where its key should stand.
    MalformedChord(String),
    /// The name is not the name of a key.
    UnknownKey(String),
}

/// The mathematical value of a [`ConfigError`].
pub enum ConfigErrorView {
    MalformedChord(Seq<char>),
    UnknownKey(Seq<char>),
}

impl View for ConfigError {
    type V = ConfigErrorView;

    open spec fn view(&self) -> ConfigErrorView {
        match self {
            ConfigError::MalformedChord(chord) => ConfigErrorView::MalformedChord(chord@),
            ConfigError::UnknownKey(name) => ConfigErrorView::UnknownKey(name@),
        }
    }
}

impl ConfigError {
    /// The message for the user.
    pub fn message(&self) -> (text: String)
        ensures
            text@ == match self@ {
                ConfigErrorView::MalformedChord(chord) => "malformed chord '"@ + chord + "'"@,
                ConfigErrorView::UnknownKey(name) => "unknown key '"@ + name + "'"@,
            },
    {
        match self {
            ConfigError::MalformedChord(chord) => "malformed chord '".to_owned().concat(
                chord.as_str(),
            ).concat("'"),
            ConfigError::UnknownKey(name) => "unknown key '".to_owned().concat(
                name.as_str(),
            ).concat("'"),
        }
    }
}

/// The names of the modifiers, in upper case.  A name without a side means
/// either key; `_L` and `_R` mean the left and the right one.
pub open spec fn modifier_names() -> Seq<Seq<char>> {
    seq![
        "SHIFT"@,
        "SHIFT_L"@,
        "SHIFT_R"@,
        "C"@,
        "C_L"@,
        "C_R"@,
        "CTRL"@,
        "CTRL_L"@,
        "CTRL_R"@,
        "CONTROL"@,
        "CONTROL_L"@,
        "CONTROL_R"@,
        "M"@,
        "M_L"@,
        "M_R"@,
        "ALT"@,
        "ALT_L"@,
        "ALT_R"@,
        "SUPER"@,
        "SUPER_L"@,
        "SUPER_R"@,
        "WIN"@,
        "WIN_L"@,
        "WIN_R"@,
        "WINDOWS"@,
        "WINDOWS_L"@,
        "WINDOWS_R"@,
    ]
}

/// The modifiers that the names of `modifier_names` stand for, in the same
/// order.
pub open spec fn named_modifiers() -> Seq<Modifier> {
    seq![
        Modifier::Shift(Side::Either),
        Modifier::Shift(Side::Left),
        Modifier::Shift(Side::Right),
        Modifier::Control(Side::Either),
        Modifier::Control(Side::Left),
        Modifier::Control(Side::Right),
        Modifier::Control(Side::Either),
        Modifier::Control(Side::Left),
        Modifier::Control(Side::Right),
        Modifier::Control(Side::Either),
        Modifier::Control(Side::Left),
        Modifier::Control(Side::Right),
        Modifier::Alt(Side::Either),
        Modifier::Alt(Side::Left),
        Modifier::Alt(Side::Right),
        Modifier::Alt(Side::Either),
        Modifier::Alt(Side::Left),
        Modifier::Alt(Side::Right),
        Modifier::Super(Side::Either),
        Modifier::Super(Side::Left),
        Modifier::Super(Side::Right),
        Modifier::Super(Side::Either),
        Modifier::Super(Side::Left),
        Modifier::Super(Side::Right),
        Modifier::Super(Side::Either),
        Modifier::Super(Side::Left),
        Modifier::Super(Side::Right),
    ]
}

/// The modifier that `part` means, given the key that it names if it names
/// one (`key`) and `name`, which is `part` in upper case: the modifier of
/// that name, else the key as a modifier.
pub open spec fn modifier_of_lookups(name: Seq<char>, key: Option<Key>) -> Option<Modifier> {
    let i = name_index(modifier_names(), name, 0);
    if i < modifier_names().len() {
        Some(named_modifiers()[i])
    } else {
        match key {
            Some(k) => Some(Modifier::Key(k)),
            None => None,
        }
    }
}

/// The modifier that the part `part` of a chord means.  Case does not
/// matter.
pub open spec fn modifier_named(part: Seq<char>) -> Option<Modifier> {
    modifier_of_lookups(uppercase(part), key_named(part))
}

/// The parts of the first `n` characters of `text` that a dash ends, and
/// where the part begins that no dash has ended yet.
pub open spec fn split_at_dashes(text: Seq<char>, n: int) -> (Seq<Seq<char>>, int)
    decreases n,
{
    if n <= 0 {
        (Seq::empty(), 0)
    } else {
        let (parts, start) = split_at_dashes(text, n - 1);
        if text[n - 1] == '-' {
            (parts.push(text.subrange(start, n - 1)), n)
        } else {
            (parts, start)
        }
    }
}

/// The modifiers that the first `n` of `parts` mean, or the first part
/// among them that means none.
pub open spec fn modifiers_named(parts: Seq<Seq<char>>, n: int) -> Result<Seq<Modifier>, Seq<char>>
    decreases n,
{
    if n <= 0 {
        Ok(Seq::empty())
    } else {
        match modifiers_named(parts, n - 1) {
            Err(part) => Err(part),
            Ok(modifiers) => match modifier_named(parts[n - 1]) {
                Some(modifier) => Ok(modifiers.push(modifier)),
                None => Err(parts[n - 1]),
            },
        }
    }
}

/// The chord that the configuration means by `input`.  Dashes divide the
/// input into parts.  The last part names the key and must not be empty;
/// each part before it names a modifier.  The first part that names nothing
/// is reported.
pub open spec fn chord_named(input: Seq<char>) -> Result<KeyPressView, ConfigErrorView> {
    let (parts, start) = split_at_dashes(input, input.len() as int);
    let last = input.subrange(start, input.len() as int);
    if last.len() == 0 {
        Err(ConfigErrorView::MalformedChord(input))
    } else {
        match modifiers_named(parts, parts.len() as int) {
            Err(part) => Err(ConfigErrorView::UnknownKey(part)),
            Ok(modifiers) => match key_named(last) {
                Some(key) => Ok(KeyPressView { key, modifiers }),
                None => Err(ConfigErrorView::UnknownKey(last)),
            },
        }
    }
}

fn modifier_table() -> (table: (Vec<&'static str>, Vec<Modifier>))
    ensures
        table.0.len() == table.1.len(),
        table.0@.map_values(|s: &'static str| s@) == modifier_names(),
        table.1@ == named_modifiers(),
{
    let mut names: Vec<&'static str> = Vec::new();
    let mut modifiers: Vec<Modifier> = Vec::new();
    names.push("SHIFT");
    modifiers.push(Modifier::Shift(Side::Either));
    names.push("SHIFT_L");
    modifiers.push(Modifier::Shift(Side::Left));
    names.push("SHIFT_R");
    modifiers.push(Modifier::Shift(Side::Right));
    names.push("C");
    modifiers.push(Modifier::Control(Side::Either));
    names.push("C_L");
    modifiers.push(Modifier::Control(Side::Left));
    names.push("C_R");
    modifiers.push(Modifier::Control(Side::Right));
    names.push("CTRL");
    modifiers.push(Modifier::Control(Side::Either));
    names.push("CTRL_L");
    modifiers.push(Modifier::Control(Side::Left));
    names.push("CTRL_R");
    modifiers.push(Modifier::Control(Side::Right));
    names.push("CONTROL");
    modifiers.push(Modifier::Control(Side::Either));
    names.push("CONTROL_L");
    modifiers.push(Modifier::Control(Side::Left));
    names.push("CONTROL_R");
    modifiers.push(Modifier::Control(Side::Right));
    names.push("M");
    modifiers.push(Modifier::Alt(Side::Either));
    names.push("M_L");
    modifiers.push(Modifier::Alt(Side::Left));
    names.push("M_R");
    modifiers.push(Modifier::Alt(Side::Right));
    names.push("ALT");
    modifiers.push(Modifier::Alt(Side::Either));
    names.push("ALT_L");
    modifiers.push(Modifier::Alt(Side::Left));
    names.push("ALT_R");
    modifiers.push(Modifier::Alt(Side::Right));
    names.push("SUPER");
    modifiers.push(Modifier::Super(Side::Either));
    names.push("SUPER_L");
    modifiers.push(Modifier::Super(Side::Left));
    names.push("SUPER_R");
    modifiers.push(Modifier::Super(Side::Right));
    names.push("WIN");
    modifiers.push(Modifier::Super(Side::Either));
    names.push("WIN_L");
    modifiers.push(Modifier::Super(Side::Left));
    names.push("WIN_R");
    modifiers.push(Modifier::Super(Side::Right));
    names.push("WINDOWS");
    modifiers.push(Modifier::Super(Side::Either));
    names.push("WINDOWS_L");
    modifiers.push(Modifier::Super(Side::Left));
    names.push("WINDOWS_R");
    modifiers.push(Modifier::Super(Side::Right));
    (names, modifiers)
}

/// The modifier that a part of a chord means, given the part in upper case
/// and the key that the part names if it names one.
pub fn modifier_from_lookups(name: &str, key: Option<Key>) -> (modifier: Option<Modifier>)
    ensures
        modifier == modifier_of_lookups(name@, key),
{
    let (names, modifiers) = modifier_table();
    match find_name(&names, name) {
        Some(i) => Some(modifiers[i]),
        None => match key {
            Some(k) => Some(Modifier::Key(k)),
            None => None,
        },
    }
}

/// The modifier that the part `part` of a chord means, if it means one.
pub fn parse_modifier(part: &str) -> (modifier: Option<Modifier>)
    ensures
        modifier == modifier_named(part@),
{
    let name: String = to_uppercase(part);
    let key: Option<Key> = parse_key(part);
    modifier_from_lookups(name.as_str(), key)
}

/// Where the parts of `text` that a dash ends begin and end, and where the
/// last part begins.
fn split_chord(text: &Vec<char>) -> (split: (Vec<(usize, usize)>, usize))
    ensures
        split.0.len() == split_at_dashes(text@, text.len() as int).0.len(),
        forall|k: int|
            0 <= k < split.0.len() ==> (#[trigger] split.0@[k]).0 <= split.0@[k].1 <= text.len()
                && text@.subrange(split.0@[k].0 as int, split.0@[k].1 as int) == split_at_dashes(
                text@,
                text.len() as int,
            ).0[k],
        split.1 == split_at_dashes(text@, text.len() as int).1,
        split.1 <= text.len(),
{
    let mut ranges: Vec<(usize, usize)> = Vec::new();
    let mut start: usize = 0;
    let mut i: usize = 0;
    while i < text.len()
        invariant
            i <= text.len(),
            start <= i,
            start == split_at_dashes(text@, i as int).1,
            ranges.len() == split_at_dashes(text@, i as int).0.len(),
            forall|k: int|
                0 <= k < ranges.len() ==> (#[trigger] ranges@[k]).0 <= ranges@[k].1 <= text.len()
                    && text@.subrange(ranges@[k].0 as int, ranges@[k].1 as int) == split_at_dashes(
                    text@,
                    i as int,
                ).0[k],
        decreases text.len() - i,
    {
        if text[i] == '-' {
            ranges.push((start, i));
            start = i + 1;
        }
        i += 1;
    }
    (ranges, start)
}

/// The chord that the configuration means by `input`, or what is wrong
/// with it.
pub fn parse_key_press(input: &str) -> (chord: Result<KeyPress, ConfigError>)
    ensures
        match chord {
            Ok(c) => chord_named(input@) == Ok::<KeyPressView, ConfigErrorView>(c@),
            Err(e) => chord_named(input@) == Err::<KeyPressView, ConfigErrorView>(e@),
        },
{
    let text: Vec<char> = chars_of(input);
    let (ranges, start) = split_chord(&text);
    let ghost parts = split_at_dashes(input@, input@.len() as int).0;
    if start == text.len() {
        return Err(ConfigError::MalformedChord(input.to_owned()));
    }
    let mut modifiers: Vec<Modifier> = Vec::new();
    let mut k: usize = 0;
    while k < ranges.len()
        invariant
            k <= ranges.len(),
            text@ == input@,
            start < text.len(),
            start == split_at_dashes(input@, input@.len() as int).1,
            parts == split_at_dashes(input@, input@.len() as int).0,
            ranges.len() == parts.len(),
            forall|j: int|
                0 <= j < ranges.len() ==> (#[trigger] ranges@[j]).0 <= ranges@[j].1 <= text.len()
                    && text@.subrange(ranges@[j].0 as int, ranges@[j].1 as int) == parts[j],
            modifiers_named(parts, k as int) == Ok::<Seq<Modifier>, Seq<char>>(modifiers@),
        decreases ranges.len() - k,
    {
        let range: (usize, usize) = ranges[k];
        let part: &str = input.substring_char(range.0, range.1);
        match parse_modifier(part) {
            Some(modifier) => {
                modifiers.push(modifier);
            },
            None => {
                proof {
                    lemma_modifiers_named_fail(parts, k as int, parts.len() as int);
                }
                return Err(ConfigError::UnknownKey(part.to_owned()));
            },
        }
        k += 1;
    }
    let last: &str = input.substring_char(start, text.len());
    match parse_key(last) {
        Some(key) => Ok(KeyPress { key, modifiers }),
        None => Err(ConfigError::UnknownKey(last.to_owned())),
    }
}

/// When the modifiers cannot be told of the first parts, they cannot be
/// told of more parts either, and the same part is reported.
pub proof fn lemma_modifiers_named_fail(parts: Seq<Seq<char>>, k: int, n: int)
    requires
        0 <= k < n,
        modifiers_named(parts, k) is Ok,
        modifier_named(parts[k]) is None,
    ensures
        modifiers_named(parts, n) == Err::<Seq<Modifier>, Seq<char>>(parts[k]),
    decreases n - k,
{
    if n > k + 1 {
        lemma_modifiers_named_fail(parts, k, n - 1);
    }
}

} // verus!
