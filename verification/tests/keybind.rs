use mswm::keybind::{
    modifier_for, modifier_mask, Command, KeyBind, KeyBindHandler, KeyHandler, Modifier,
};
use mswm::layout::LayoutKind;
use mswm::keymap::{init_keymap, Keymap};

fn symbols() -> Vec<(u32, String)> {
    vec![
        (0x61, "a".to_string()),
        (0x41, "A".to_string()),
        (0x63, "c".to_string()),
        (0x43, "C".to_string()),
        (0xff0d, "Return".to_string()),
        (0, "NoSymbol".to_string()),
        (0x66, "f".to_string()),
    ]
}

fn keymap() -> Keymap {
    init_keymap(8, 2, &symbols())
}

#[test]
fn keymap_numbers_the_keys_from_the_first_keycode() {
    let keymap = keymap();
    assert_eq!(keymap.get("a"), Some(8));
    assert_eq!(keymap.get("A"), Some(8));
    assert_eq!(keymap.get("c"), Some(9));
    assert_eq!(keymap.get("C"), Some(9));
    assert_eq!(keymap.get("Return"), Some(10));
}

#[test]
fn keymap_skips_empty_symbols_and_incomplete_groups() {
    let keymap = keymap();
    assert_eq!(keymap.get("NoSymbol"), None);
    // The seventh symbol has no partner: it belongs to no key code.
    assert_eq!(keymap.get("f"), None);
    assert_eq!(keymap.get("b"), None);
    assert_eq!(keymap.get(""), None);
}

#[test]
fn keymap_later_symbol_wins() {
    let symbols = vec![(0x61, "a".to_string()), (0x62, "b".to_string()), (0x61, "a".to_string())];
    let keymap = init_keymap(20, 1, &symbols);
    assert_eq!(keymap.get("a"), Some(22));
    assert_eq!(keymap.get("b"), Some(21));
}

#[test]
fn keymap_insert_replaces() {
    let mut keymap = Keymap::new();
    assert_eq!(keymap.get("x"), None);
    keymap.insert("x".to_string(), 5);
    keymap.insert("y".to_string(), 6);
    keymap.insert("x".to_string(), 7);
    assert_eq!(keymap.get("x"), Some(7));
    assert_eq!(keymap.get("y"), Some(6));
}

#[test]
fn keymap_reaches_the_largest_keycode() {
    let symbols: Vec<(u32, String)> = (0..65281u32).map(|k| (1, format!("k{}", k))).collect();
    let keymap = init_keymap(255, 1, &symbols);
    assert_eq!(keymap.get("k0"), Some(255));
    assert_eq!(keymap.get("k65280"), Some(65535));
}

#[test]
fn modifier_names() {
    assert_eq!(modifier_for("SHIFT"), Some(Modifier::Shift));
    assert_eq!(modifier_for("LOCK"), Some(Modifier::Lock));
    assert_eq!(modifier_for("CONTROL"), Some(Modifier::Control));
    assert_eq!(modifier_for("M1"), Some(Modifier::M1));
    assert_eq!(modifier_for("M2"), Some(Modifier::M2));
    assert_eq!(modifier_for("M3"), Some(Modifier::M3));
    assert_eq!(modifier_for("M4"), Some(Modifier::M4));
    assert_eq!(modifier_for("M5"), Some(Modifier::M5));
    assert_eq!(modifier_for("ANY"), Some(Modifier::Any));
    assert_eq!(modifier_for("shift"), None);
    assert_eq!(modifier_for("M6"), None);
    assert_eq!(modifier_for(""), None);
}

#[test]
fn modifier_bits_are_those_of_the_protocol() {
    assert_eq!(modifier_mask(Modifier::Shift), 0x0001);
    assert_eq!(modifier_mask(Modifier::Lock), 0x0002);
    assert_eq!(modifier_mask(Modifier::Control), 0x0004);
    assert_eq!(modifier_mask(Modifier::M1), 0x0008);
    assert_eq!(modifier_mask(Modifier::M2), 0x0010);
    assert_eq!(modifier_mask(Modifier::M3), 0x0020);
    assert_eq!(modifier_mask(Modifier::M4), 0x0040);
    assert_eq!(modifier_mask(Modifier::M5), 0x0080);
    assert_eq!(modifier_mask(Modifier::Any), 0x8000);
}

#[test]
fn chord_with_modifiers_and_key() {
    let keymap = keymap();
    assert_eq!(KeyBind::parse("M4+SHIFT+c", &keymap), Some(KeyBind { mask: 0x41, key: 9 }));
    assert_eq!(KeyBind::parse("M4+SHIFT+Return", &keymap), Some(KeyBind { mask: 0x41, key: 10 }));
    assert_eq!(KeyBind::parse("a", &keymap), Some(KeyBind { mask: 0, key: 8 }));
    assert_eq!(KeyBind::parse("c+M4", &keymap), Some(KeyBind { mask: 0x40, key: 9 }));
}

#[test]
fn chord_modifier_bits() {
    let keymap = keymap();
    let bits = [
        ("SHIFT", 0x0001u16),
        ("LOCK", 0x0002),
        ("CONTROL", 0x0004),
        ("M1", 0x0008),
        ("M2", 0x0010),
        ("M3", 0x0020),
        ("M4", 0x0040),
        ("M5", 0x0080),
        ("ANY", 0x8000),
    ];
    for (name, bit) in bits {
        assert_eq!(KeyBind::parse(name, &keymap), Some(KeyBind { mask: bit, key: 0 }));
    }
    assert_eq!(
        KeyBind::parse("SHIFT+LOCK+CONTROL+M1+M2+M3+M4+M5+ANY+a", &keymap),
        Some(KeyBind { mask: 0x80ff, key: 8 })
    );
    assert_eq!(KeyBind::parse("M4+M4+a", &keymap), Some(KeyBind { mask: 0x40, key: 8 }));
}

#[test]
fn chord_last_key_counts() {
    let keymap = keymap();
    assert_eq!(KeyBind::parse("a+c", &keymap), Some(KeyBind { mask: 0, key: 9 }));
}

#[test]
fn chord_with_unknown_key_is_refused() {
    let keymap = keymap();
    assert_eq!(KeyBind::parse("M4+q", &keymap), None);
    assert_eq!(KeyBind::parse("q+M4+a", &keymap), None);
    assert_eq!(KeyBind::parse("", &keymap), None);
    assert_eq!(KeyBind::parse("M4+", &keymap), None);
    assert_eq!(KeyBind::parse("+a", &keymap), None);
    assert_eq!(KeyBind::parse("m4+a", &keymap), None);
}

#[test]
fn chord_of_non_ascii_text() {
    let mut keymap = keymap();
    keymap.insert("ä".to_string(), 30);
    assert_eq!(KeyBind::parse("M4+ä", &keymap), Some(KeyBind { mask: 0x40, key: 30 }));
    assert_eq!(KeyBind::parse("ä+SHIFT", &keymap), Some(KeyBind { mask: 1, key: 30 }));
}

#[test]
fn handler_resolves_bound_keys() {
    let keymap = keymap();
    let handler = KeyBindHandler::new(
        &keymap,
        vec![
            ("M4+a", Command::ApplyLayout(LayoutKind::Fibonacci)),
            ("M4+c", Command::ApplyLayout(LayoutKind::Tree)),
            ("M4+SHIFT+c", Command::StackInc),
            ("M4+SHIFT+Return", Command::Spawn("xterm".to_string())),
        ],
    )
    .unwrap();
    assert_eq!(
        handler.handle_key_bind(0x40, 8),
        Some(&Command::ApplyLayout(LayoutKind::Fibonacci))
    );
    assert_eq!(handler.handle_key_bind(0x40, 9), Some(&Command::ApplyLayout(LayoutKind::Tree)));
    assert_eq!(handler.handle_key_bind(0x41, 9), Some(&Command::StackInc));
    assert_eq!(handler.handle_key_bind(0x41, 10), Some(&Command::Spawn("xterm".to_string())));
    assert_eq!(handler.handle_key_bind(0x41, 8), None);
    assert_eq!(handler.handle_key_bind(0, 8), None);
    assert_eq!(
        handler.grab_keys(),
        vec![
            KeyBind { mask: 0x40, key: 8 },
            KeyBind { mask: 0x40, key: 9 },
            KeyBind { mask: 0x41, key: 9 },
            KeyBind { mask: 0x41, key: 10 },
        ]
    );
}

#[test]
fn handler_later_chord_for_a_key_wins() {
    let keymap = keymap();
    let handler = KeyBindHandler::new(
        &keymap,
        vec![("M4+a", 1u8), ("SHIFT+a", 2u8), ("a+M4", 3u8)],
    )
    .unwrap();
    assert_eq!(handler.get(KeyBind { mask: 0x40, key: 8 }), Some(&3));
    assert_eq!(handler.get(KeyBind { mask: 1, key: 8 }), Some(&2));
    assert_eq!(handler.keys(), vec![KeyBind { mask: 0x40, key: 8 }, KeyBind { mask: 1, key: 8 }]);
}

#[test]
fn handler_refuses_an_unknown_chord() {
    let keymap = keymap();
    assert!(KeyBindHandler::new(&keymap, vec![("M4+a", 1u8), ("M4+q", 2u8)]).is_none());
    assert!(KeyBindHandler::new(&keymap, vec![("M4+q", 1u8), ("M4+a", 2u8)]).is_none());
    let empty = KeyBindHandler::<u8>::new(&keymap, vec![]).unwrap();
    assert_eq!(empty.keys(), vec![]);
}

#[test]
fn handler_bind_replaces() {
    let mut handler: KeyBindHandler<u8> = KeyBindHandler::empty();
    let bind = KeyBind { mask: 0x40, key: 38 };
    assert_eq!(handler.get(bind), None);
    handler.bind(bind, 1);
    handler.bind(KeyBind { mask: 0x40, key: 39 }, 2);
    handler.bind(bind, 3);
    assert_eq!(handler.get(bind), Some(&3));
    assert_eq!(handler.keys(), vec![bind, KeyBind { mask: 0x40, key: 39 }]);
}
