use evdev::Key as EvKey;
use xremap::config::application::{match_application, match_mode, Application};
use xremap::config::chord::ConfigError;
use xremap::config::key_press::{diff_modifiers, KeyPress, Modifier, Side};
use xremap::config::keymap::{build_keymap_table, build_override_table, Binding, Keymap};
use xremap::config::keymap_action::{only_remaps, KeymapAction};
use xremap::config::tree::{
    compile_config, compile_key, compile_keys, ActionTree, BindingTree, ConfigTree, KeymapTree,
    ModmapActionTree, ModmapBindingTree, ModmapTree,
};
use xremap::config::modmap::ModmapAction;
use xremap::downstream::is_plainly_written;
use xremap::key::Key;

fn key(k: EvKey) -> Key {
    Key::new(k.code())
}

fn chord(modifiers: Vec<Modifier>, k: EvKey) -> KeyPress {
    KeyPress::new(key(k), modifiers)
}

fn emit(k: EvKey) -> Vec<KeymapAction> {
    vec![KeymapAction::KeyPressAndRelease(chord(vec![], k))]
}

fn emitted(action: &KeymapAction) -> Key {
    match action {
        KeymapAction::KeyPressAndRelease(c) => c.key,
        other => panic!("{:?}", other),
    }
}

#[test]
fn keymap_table_keeps_insertion_order() {
    let keymaps = vec![
        Keymap {
            name: String::from("first"),
            remap: vec![
                Binding { key_press: chord(vec![], EvKey::KEY_A), actions: emit(EvKey::KEY_1) },
                Binding { key_press: chord(vec![], EvKey::KEY_B), actions: emit(EvKey::KEY_2) },
                Binding {
                    key_press: chord(vec![Modifier::Control(Side::Either)], EvKey::KEY_A),
                    actions: emit(EvKey::KEY_3),
                },
            ],
            application: Some(Application { only: Some(vec![String::from("web")]), not: None }),
            mode: Some(vec![String::from("normal")]),
            exact_match: true,
        },
        Keymap {
            name: String::from("second"),
            remap: vec![Binding {
                key_press: chord(vec![Modifier::Alt(Side::Left)], EvKey::KEY_A),
                actions: emit(EvKey::KEY_4),
            }],
            application: None,
            mode: None,
            exact_match: false,
        },
    ];
    let table = build_keymap_table(&keymaps);
    assert_eq!(table.len(), 2);
    let a = &table[&EvKey::KEY_A.code()];
    assert_eq!(a.len(), 3);
    assert_eq!(emitted(&a[0].actions[0]), key(EvKey::KEY_1));
    assert_eq!(emitted(&a[1].actions[0]), key(EvKey::KEY_3));
    assert_eq!(emitted(&a[2].actions[0]), key(EvKey::KEY_4));
    assert_eq!(a[0].modifiers, vec![]);
    assert_eq!(a[1].modifiers, vec![Modifier::Control(Side::Either)]);
    assert_eq!(a[2].modifiers, vec![Modifier::Alt(Side::Left)]);
    assert!(a[0].exact_match && a[1].exact_match && !a[2].exact_match);
    assert_eq!(a[0].mode, Some(vec![String::from("normal")]));
    assert_eq!(a[2].mode, None);
    assert_eq!(a[1].application.as_ref().unwrap().only, Some(vec![String::from("web")]));
    assert!(a[2].application.is_none());
    let b = &table[&EvKey::KEY_B.code()];
    assert_eq!(b.len(), 1);
    assert_eq!(emitted(&b[0].actions[0]), key(EvKey::KEY_2));
    assert!(!table.contains_key(&EvKey::KEY_C.code()));
    assert!(build_keymap_table(&vec![]).is_empty());
}

#[test]
fn override_table_keeps_insertion_order() {
    let remap = vec![
        Binding { key_press: chord(vec![], EvKey::KEY_H), actions: emit(EvKey::KEY_1) },
        Binding { key_press: chord(vec![], EvKey::KEY_K), actions: emit(EvKey::KEY_2) },
        Binding {
            key_press: chord(vec![Modifier::Shift(Side::Either)], EvKey::KEY_H),
            actions: emit(EvKey::KEY_3),
        },
    ];
    for exact in [true, false] {
        let table = build_override_table(&remap, exact);
        assert_eq!(table.len(), 2);
        let h = &table[&EvKey::KEY_H.code()];
        assert_eq!(h.len(), 2);
        assert_eq!(emitted(&h[0].actions[0]), key(EvKey::KEY_1));
        assert_eq!(emitted(&h[1].actions[0]), key(EvKey::KEY_3));
        assert_eq!(h[1].modifiers, vec![Modifier::Shift(Side::Either)]);
        assert!(h.iter().all(|e| e.exact_match == exact));
        assert_eq!(table[&EvKey::KEY_K.code()].len(), 1);
    }
    assert!(build_override_table(&vec![], true).is_empty());
}

#[test]
fn modifiers_compared_with_held_keys() {
    let held = vec![key(EvKey::KEY_RIGHTSHIFT), key(EvKey::KEY_LEFTALT), key(EvKey::KEY_CAPSLOCK)];
    let (extra, missing) = diff_modifiers(
        &held,
        &vec![
            Modifier::Shift(Side::Either),
            Modifier::Control(Side::Either),
            Modifier::Alt(Side::Right),
            Modifier::Control(Side::Left),
            Modifier::Super(Side::Right),
        ],
    );
    assert_eq!(extra, vec![key(EvKey::KEY_LEFTALT), key(EvKey::KEY_CAPSLOCK)]);
    assert_eq!(
        missing,
        vec![key(EvKey::KEY_LEFTCTRL), key(EvKey::KEY_RIGHTALT), key(EvKey::KEY_RIGHTMETA)]
    );
    let (extra, missing) = diff_modifiers(
        &held,
        &vec![
            Modifier::Key(key(EvKey::KEY_CAPSLOCK)),
            Modifier::Shift(Side::Right),
            Modifier::Alt(Side::Left),
        ],
    );
    assert!(extra.is_empty() && missing.is_empty());
    let (extra, missing) = diff_modifiers(&vec![], &vec![]);
    assert!(extra.is_empty() && missing.is_empty());
    assert!(Modifier::Shift(Side::Left).accepts_key(key(EvKey::KEY_LEFTSHIFT)));
    assert!(!Modifier::Shift(Side::Left).accepts_key(key(EvKey::KEY_RIGHTSHIFT)));
    assert!(Modifier::Super(Side::Either).accepts_key(key(EvKey::KEY_RIGHTMETA)));
    assert!(!Modifier::Super(Side::Either).accepts_key(key(EvKey::KEY_RIGHTALT)));
    assert_eq!(Modifier::Alt(Side::Right).key_to_press(), key(EvKey::KEY_RIGHTALT));
    assert_eq!(Modifier::Alt(Side::Either).key_to_press(), key(EvKey::KEY_LEFTALT));
    assert_eq!(Modifier::Key(key(EvKey::KEY_F1)).key_to_press(), key(EvKey::KEY_F1));
}

#[test]
fn filters() {
    let only = Some(Application { only: Some(vec![String::from("a"), String::from("b")]), not: None });
    let not = Some(Application { only: None, not: Some(vec![String::from("a")]) });
    let both = Some(Application { only: Some(vec![String::from("a")]), not: Some(vec![String::from("a")]) });
    let neither = Some(Application { only: None, not: None });
    let a = Some(String::from("a"));
    let c = Some(String::from("c"));
    assert!(match_application(&None, &a) && match_application(&None, &None));
    assert!(match_application(&only, &a) && !match_application(&only, &c));
    assert!(!match_application(&only, &None));
    assert!(!match_application(&not, &a) && match_application(&not, &c));
    assert!(match_application(&not, &None));
    assert!(match_application(&both, &a) && !match_application(&both, &c));
    assert!(!match_application(&neither, &a) && !match_application(&neither, &None));
    assert!(match_mode(&None, &String::from("x")));
    assert!(match_mode(&Some(vec![String::from("x"), String::from("y")]), &String::from("y")));
    assert!(!match_mode(&Some(vec![String::from("x")]), &String::from("y")));
    assert!(!match_mode(&Some(vec![]), &String::from("y")));
}

#[test]
fn lists_that_only_open_remaps() {
    assert!(!only_remaps(&vec![]));
    assert!(only_remaps(&vec![KeymapAction::Remap(0)]));
    assert!(only_remaps(&vec![KeymapAction::Remap(0), KeymapAction::Remap(3)]));
    assert!(!only_remaps(&vec![KeymapAction::Remap(0), KeymapAction::SetMark(true)]));
    assert!(!only_remaps(&emit(EvKey::KEY_A)));
}

fn bind(text: &str, actions: Vec<ActionTree>) -> BindingTree {
    BindingTree { chord: String::from(text), actions }
}

fn keymap(remap: Vec<BindingTree>) -> KeymapTree {
    KeymapTree { name: String::from("k"), remap, application: None, mode: None, exact_match: false }
}

fn tree(modmap: Vec<ModmapTree>, keymap: Vec<KeymapTree>, virtual_modifiers: Vec<&str>) -> ConfigTree {
    ConfigTree {
        modmap,
        keymap,
        default_mode: String::from("default"),
        keypress_delay_ms: 2,
        virtual_modifiers: virtual_modifiers.into_iter().map(String::from).collect(),
    }
}

fn remap_index(action: &KeymapAction) -> usize {
    match action {
        KeymapAction::Remap(i) => *i,
        other => panic!("{:?}", other),
    }
}

#[test]
fn nested_remaps_are_listed_inner_first() {
    let config = compile_config(&tree(
        vec![ModmapTree {
            name: String::from("m"),
            remap: vec![ModmapBindingTree {
                key: String::from("f1"),
                action: ModmapActionTree::PressReleaseKey {
                    press: vec![ActionTree::Remap(vec![bind("a", vec![])])],
                    release: vec![],
                },
            }],
            application: None,
        }],
        vec![
            keymap(vec![
                bind(
                    "C-x",
                    vec![ActionTree::Remap(vec![
                        bind("r", vec![ActionTree::Remap(vec![bind("t", vec![])])]),
                        bind("s", vec![ActionTree::Remap(vec![bind("u", vec![])])]),
                    ])],
                ),
                bind("C-y", vec![ActionTree::Remap(vec![])]),
            ]),
        ],
        vec!["capslock"],
    ))
    .unwrap();
    assert_eq!(config.remaps.len(), 5);
    assert_eq!(config.default_mode, "default");
    assert_eq!(config.keypress_delay_ms, 2);
    assert_eq!(config.virtual_modifiers, vec![key(EvKey::KEY_CAPSLOCK)]);
    assert_eq!(config.modify_time, None);
    // The remap of the modmap comes first.
    match &config.modmap[0].remap[0].action {
        ModmapAction::PressReleaseKey { press, release } => {
            assert_eq!(remap_index(&press[0]), 0);
            assert!(release.is_empty());
        }
        other => panic!("{:?}", other),
    }
    assert_eq!(config.remaps[0].remap[0].key_press.key, key(EvKey::KEY_A));
    // Then the two inner remaps of C-x, then the remap of C-x itself, then that of C-y.
    assert_eq!(config.remaps[1].remap[0].key_press.key, key(EvKey::KEY_T));
    assert_eq!(config.remaps[2].remap[0].key_press.key, key(EvKey::KEY_U));
    assert_eq!(config.remaps[3].remap.len(), 2);
    assert_eq!(remap_index(&config.remaps[3].remap[0].actions[0]), 1);
    assert_eq!(remap_index(&config.remaps[3].remap[1].actions[0]), 2);
    assert!(config.remaps[4].remap.is_empty());
    assert_eq!(remap_index(&config.keymap[0].remap[0].actions[0]), 3);
    assert_eq!(remap_index(&config.keymap[0].remap[1].actions[0]), 4);
    // Every nested remap refers only to earlier ones.
    for (r, remap) in config.remaps.iter().enumerate() {
        for binding in &remap.remap {
            for action in &binding.actions {
                if let KeymapAction::Remap(i) = action {
                    assert!(*i < r);
                }
            }
        }
    }
    // The table is built.
    assert_eq!(config.keymap_table[&EvKey::KEY_X.code()].len(), 1);
    assert_eq!(config.keymap_table[&EvKey::KEY_Y.code()].len(), 1);
    assert_eq!(config.keymap_table.len(), 2);
}

fn error(tree: ConfigTree) -> String {
    match compile_config(&tree) {
        Ok(_) => panic!("compiled"),
        Err(e) => e.message(),
    }
}

#[test]
fn first_error_is_reported() {
    assert_eq!(error(tree(vec![], vec![keymap(vec![bind("C-", vec![])])], vec![])), "malformed chord 'C-'");
    assert_eq!(
        error(tree(vec![], vec![keymap(vec![bind("a", vec![ActionTree::KeyPress(String::from("C-nokey"))])])], vec![])),
        "unknown key 'nokey'"
    );
    assert_eq!(
        error(tree(
            vec![],
            vec![keymap(vec![
                bind("a", vec![ActionTree::Remap(vec![bind("x", vec![ActionTree::WithMark(String::from("bad1"))])])]),
                bind("bad2", vec![]),
            ])],
            vec!["bad3"],
        )),
        "unknown key 'bad1'"
    );
    assert_eq!(
        error(tree(
            vec![],
            vec![keymap(vec![bind("bad2", vec![ActionTree::KeyPress(String::from("bad1"))])])],
            vec!["bad3"],
        )),
        "unknown key 'bad2'"
    );
    assert_eq!(error(tree(vec![], vec![], vec!["a", "bad3", "bad4"])), "unknown key 'bad3'");
    let modmap = |action: ModmapActionTree| ModmapTree {
        name: String::new(),
        remap: vec![ModmapBindingTree { key: String::from("a"), action }],
        application: None,
    };
    assert_eq!(
        error(tree(
            vec![modmap(ModmapActionTree::Keys(vec![String::from("b"), String::from("bad5")]))],
            vec![keymap(vec![bind("bad2", vec![])])],
            vec![],
        )),
        "unknown key 'bad5'"
    );
    assert_eq!(
        error(tree(
            vec![modmap(ModmapActionTree::MultiPurposeKey { held: String::from("bad6"), alone: String::from("bad7") })],
            vec![],
            vec![],
        )),
        "unknown key 'bad6'"
    );
    assert_eq!(
        error(tree(
            vec![modmap(ModmapActionTree::MultiPurposeKey { held: String::from("a"), alone: String::from("bad7") })],
            vec![],
            vec![],
        )),
        "unknown key 'bad7'"
    );
    assert_eq!(
        error(tree(
            vec![ModmapTree {
                name: String::new(),
                remap: vec![ModmapBindingTree { key: String::from("bad8"), action: ModmapActionTree::Keys(vec![String::from("bad9")]) }],
                application: None,
            }],
            vec![],
            vec![],
        )),
        "unknown key 'bad8'"
    );
    assert_eq!(
        error(tree(
            vec![modmap(ModmapActionTree::PressReleaseKey {
                press: vec![],
                release: vec![ActionTree::KeyPress(String::from("-"))],
            })],
            vec![],
            vec![],
        )),
        "malformed chord '-'"
    );
}

#[test]
fn keys_by_name() {
    assert_eq!(compile_key(&String::from("esc")).unwrap(), key(EvKey::KEY_ESC));
    assert!(matches!(compile_key(&String::from("C-a")), Err(ConfigError::UnknownKey(_))));
    assert_eq!(
        compile_keys(&vec![String::from("a"), String::from("CTRL_L")]).unwrap(),
        vec![key(EvKey::KEY_A), key(EvKey::KEY_LEFTCTRL)]
    );
    assert_eq!(compile_keys(&vec![]).unwrap(), vec![]);
    assert_eq!(
        compile_keys(&vec![String::from("a"), String::from("zzz"), String::from("yyy")])
            .unwrap_err()
            .message(),
        "unknown key 'zzz'"
    );
}

#[test]
fn empty_configuration() {
    let config = compile_config(&tree(vec![], vec![], vec![])).unwrap();
    assert!(config.modmap.is_empty() && config.keymap.is_empty() && config.remaps.is_empty());
    assert!(config.keymap_table.is_empty());
}

#[test]
fn a_later_binding_replaces_an_earlier_one_of_the_same_chord() {
    let config = compile_config(&tree(
        vec![ModmapTree {
            name: String::new(),
            remap: vec![
                ModmapBindingTree { key: String::from("a"), action: ModmapActionTree::Keys(vec![String::from("b")]) },
                ModmapBindingTree { key: String::from("x"), action: ModmapActionTree::Keys(vec![String::from("y")]) },
                ModmapBindingTree { key: String::from("KEY_A"), action: ModmapActionTree::Keys(vec![String::from("c")]) },
            ],
            application: None,
        }],
        vec![keymap(vec![
            bind("C-a", vec![ActionTree::KeyPress(String::from("1"))]),
            bind("M-C-a", vec![ActionTree::KeyPress(String::from("2"))]),
            bind("ctrl-A", vec![ActionTree::KeyPress(String::from("3"))]),
            bind("C-M-a", vec![ActionTree::KeyPress(String::from("4"))]),
        ])],
        vec![],
    ))
    .unwrap();
    let remap = &config.keymap[0].remap;
    assert_eq!(remap.len(), 3);
    assert_eq!(emitted(&remap[0].actions[0]), key(EvKey::KEY_3));
    assert_eq!(emitted(&remap[1].actions[0]), key(EvKey::KEY_2));
    assert_eq!(emitted(&remap[2].actions[0]), key(EvKey::KEY_4));
    let modmap = &config.modmap[0].remap;
    assert_eq!(modmap.len(), 2);
    assert_eq!(modmap[0].key, key(EvKey::KEY_A));
    match &modmap[0].action {
        ModmapAction::Keys(keys) => assert_eq!(keys, &vec![key(EvKey::KEY_C)]),
        other => panic!("{:?}", other),
    }
    assert_eq!(modmap[1].key, key(EvKey::KEY_X));
}

#[test]
fn plain_configurations() {
    let plain = |t: ConfigTree| is_plainly_written(&compile_config(&t).unwrap());
    assert!(plain(tree(vec![], vec![], vec![])));
    assert!(plain(tree(
        vec![],
        vec![keymap(vec![bind(
            "C-x",
            vec![
                ActionTree::KeyPress(String::from("C-M-a")),
                ActionTree::WithMark(String::from("right")),
                ActionTree::Remap(vec![bind("h", vec![ActionTree::KeyPress(String::from("Shift-b"))])]),
                ActionTree::Launch(vec![]),
            ],
        )])],
        vec!["capslock"],
    )));
    // A chord whose key is a modifier key.
    assert!(!plain(tree(
        vec![],
        vec![keymap(vec![bind("a", vec![ActionTree::KeyPress(String::from("leftctrl"))])])],
        vec![],
    )));
    assert!(!plain(tree(
        vec![],
        vec![keymap(vec![bind("a", vec![ActionTree::WithMark(String::from("C-shift_r"))])])],
        vec![],
    )));
    // The same inside a nested remap.
    assert!(!plain(tree(
        vec![],
        vec![keymap(vec![bind(
            "a",
            vec![ActionTree::Remap(vec![bind("b", vec![ActionTree::KeyPress(String::from("alt_l"))])])],
        )])],
        vec![],
    )));
    // A physical modifier key as a virtual modifier.
    assert!(!plain(tree(vec![], vec![], vec!["a", "leftmeta"])));
    // Hooks that open a nested remap, or emit a modifier key.
    let hook = |press: Vec<ActionTree>, release: Vec<ActionTree>| {
        tree(
            vec![ModmapTree {
                name: String::new(),
                remap: vec![
                    ModmapBindingTree { key: String::from("b"), action: ModmapActionTree::Keys(vec![String::from("leftctrl")]) },
                    ModmapBindingTree { key: String::from("a"), action: ModmapActionTree::PressReleaseKey { press, release } },
                ],
                application: None,
            }],
            vec![],
            vec![],
        )
    };
    assert!(plain(hook(vec![ActionTree::KeyPress(String::from("C-x"))], vec![ActionTree::SetMark(true)])));
    assert!(!plain(hook(vec![ActionTree::Remap(vec![])], vec![])));
    assert!(!plain(hook(vec![], vec![ActionTree::KeyPress(String::from("leftshift"))])));
}
