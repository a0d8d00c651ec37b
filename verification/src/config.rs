//! The declarative configuration that drives the translation.

use std::collections::HashMap;
use vstd::prelude::*;
use crate::config::keymap::{
    build_keymap_table, entries_at, keymap_entries, table_view, Binding, BindingView, Keymap,
    KeymapEntry, KeymapEntryView, KeymapView,
};
use crate::config::modmap::{Modmap, ModmapView};
use crate::key::Key;
use crate::text::views;

pub mod key_name;
pub mod key_press;
pub mod chord;
pub mod application;
pub mod keymap_action;
pub mod keymap;
pub mod modmap;
pub mod tree;

verus! {

/// A nested remap: the bindings that apply to the key after a prefix chord.
#[derive(Debug)]
pub struct Remap {
    pub remap: Vec<Binding>,
}

impl View for Remap {
    type V = Seq<BindingView>;

    open spec fn view(&self) -> Seq<BindingView> {
        views(self.remap@)
    }
}

/// Everything that the configuration file declares.  It does not change
/// between two reloads.
pub struct Config {
    pub modmap: Vec<Modmap>,
    pub keymap: Vec<Keymap>,
    /// The nested remaps, which the actions of `keymap` and of each other
    /// refer to by index.
    pub remaps: Vec<Remap>,
    pub default_mode: String,
    /// Milliseconds to wait around the restoring of modifiers.
    pub keypress_delay_ms: u64,
    /// Keys that count as modifiers and are never written to the output.
    pub virtual_modifiers: Vec<Key>,
    /// The entries of `keymap`, indexed by the key of their chord.
    pub keymap_table: HashMap<u16, Vec<KeymapEntry>>,
    /// When the file was last modified, in milliseconds since the epoch.
    pub modify_time: Option<u64>,
}

/// The mathematical value of a [`Config`].
pub struct ConfigView {
    pub modmap: Seq<ModmapView>,
    pub keymap: Seq<KeymapView>,
    pub remaps: Seq<Seq<BindingView>>,
    pub default_mode: Seq<char>,
    pub keypress_delay_ms: u64,
    pub virtual_modifiers: Seq<Key>,
    pub keymap_table: Map<u16, Seq<KeymapEntryView>>,
    pub modify_time: Option<u64>,
}

impl View for Config {
    type V = ConfigView;

    open spec fn view(&self) -> ConfigView {
        ConfigView {
            modmap: views(self.modmap@),
            keymap: views(self.keymap@),
            remaps: views(self.remaps@),
            default_mode: self.default_mode@,
            keypress_delay_ms: self.keypress_delay_ms,
            virtual_modifiers: self.virtual_modifiers@,
            keymap_table: table_view(self.keymap_table@),
            modify_time: self.modify_time,
        }
    }
}

impl ConfigView {
    /// Whether the table holds, for every key, the entries of the keymaps
    /// for that key in their order.
    pub open spec fn indexed(self) -> bool {
        forall|key: u16| entries_at(self.keymap_table, key) == keymap_entries(self.keymap, key)
    }
}

impl Config {
    /// A configuration of the given parts, with its table built.
    pub fn new(
        modmap: Vec<Modmap>,
        keymap: Vec<Keymap>,
        remaps: Vec<Remap>,
        default_mode: String,
        keypress_delay_ms: u64,
        virtual_modifiers: Vec<Key>,
    ) -> (config: Config)
        ensures
            config@.modmap == views(modmap@),
            config@.keymap == views(keymap@),
            config@.remaps == views(remaps@),
            config@.default_mode == default_mode@,
            config@.keypress_delay_ms == keypress_delay_ms,
            config@.virtual_modifiers == virtual_modifiers@,
            config@.modify_time is None,
            config@.indexed(),
    {
        let keymap_table = build_keymap_table(&keymap);
        Config {
            modmap,
            keymap,
            remaps,
            default_mode,
            keypress_delay_ms,
            virtual_modifiers,
            keymap_table,
            modify_time: None,
        }
    }
}

} // verus!
