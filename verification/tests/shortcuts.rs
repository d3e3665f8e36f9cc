use rustcast::keys::{code_to_keycode, keycode_to_name, str_to_keycode, Code};
use rustcast::shortcut::{
    Modifiers, Physical, Shortcut, CAPS_LOCK, COMMAND, CONTROL, FUNCTION, OPTION, SHIFT,
};
use rustcast::text::{join_with_plus, same, split_str, trim, white_space};

const NONE: Modifiers = Modifiers { logo: false, alt: false, control: false, shift: false };

#[test]
fn recorded_shortcut_uses_config_format() -> Result<(), String> {
    let shortcut = Shortcut::from_iced(
        Physical::Code(Code::KeyK),
        Modifiers { logo: true, shift: true, ..NONE },
    )
    .ok_or_else(|| "modified shortcut should be recorded".to_string())?;

    assert_eq!(shortcut.to_config_string(), "cmd+shift+k");
    assert_eq!(shortcut.display_string(), "⌘⇧K");
    Ok(())
}

#[test]
fn recorded_shortcut_requires_a_modifier() {
    assert!(Shortcut::from_iced(Physical::Code(Code::KeyK), NONE).is_none());
}

#[test]
fn unidentified_and_unmapped_keys_are_not_recorded() {
    let held = Modifiers { logo: true, ..NONE };
    assert!(Shortcut::from_iced(Physical::Unidentified, held).is_none());
    assert!(Shortcut::from_iced(Physical::Code(Code::Other), held).is_none());
}

#[test]
fn every_recorded_modifier_sets_its_flag() {
    let key = Physical::Code(Code::Enter);
    let one = |modifiers| Shortcut::from_iced(key, modifiers).unwrap();
    assert_eq!(one(Modifiers { logo: true, ..NONE }), Shortcut::new(Some(0x24), Some(1 << 20)));
    assert_eq!(one(Modifiers { alt: true, ..NONE }), Shortcut::new(Some(0x24), Some(1 << 19)));
    assert_eq!(one(Modifiers { control: true, ..NONE }), Shortcut::new(Some(0x24), Some(1 << 18)));
    assert_eq!(one(Modifiers { shift: true, ..NONE }), Shortcut::new(Some(0x24), Some(1 << 17)));
}

#[test]
fn parse_reads_keys_and_modifiers() {
    assert_eq!(
        Shortcut::parse("cmd+shift+k"),
        Ok(Shortcut::new(Some(0x28), Some(COMMAND | SHIFT)))
    );
    assert_eq!(
        Shortcut::parse("option+control+fn+f5"),
        Ok(Shortcut::new(Some(0x60), Some(OPTION | CONTROL | FUNCTION)))
    );
    assert_eq!(Shortcut::parse("space"), Ok(Shortcut::new(Some(0x31), None)));
    assert_eq!(Shortcut::parse("alt"), Ok(Shortcut::new(None, Some(OPTION))));
    assert_eq!(Shortcut::parse("super+`"), Ok(Shortcut::new(Some(0x32), Some(COMMAND))));
}

#[test]
fn caps_lock_alone_is_no_modifier() {
    assert_eq!(Shortcut::parse("capslock+a"), Ok(Shortcut::new(Some(0x00), None)));
    assert_eq!(
        Shortcut::parse("caps lock+shift+a"),
        Ok(Shortcut::new(Some(0x00), Some(CAPS_LOCK | SHIFT)))
    );
}

#[test]
fn parse_ignores_case_space_and_order() {
    let expected = Ok(Shortcut::new(Some(0x28), Some(COMMAND | SHIFT)));
    assert_eq!(Shortcut::parse(" Shift + CMD +\tK "), expected);
    assert_eq!(Shortcut::parse("k+shift+command"), expected);
    assert_eq!(Shortcut::parse("cmd+cmd+shift+k"), expected);
}

#[test]
fn parse_lowers_letters_outside_ascii() {
    // The Kelvin sign is a capital letter whose small one is `k`.
    assert_eq!(
        Shortcut::parse("cmd+\u{212a}"),
        Ok(Shortcut::new(Some(0x28), Some(COMMAND)))
    );
    assert_eq!(
        Shortcut::parse("cmd+Ä"),
        Err("Unknown key: 'ä'".to_string())
    );
}

#[test]
fn parse_rejects_unknown_keys() {
    assert_eq!(Shortcut::parse("cmd+Foo"), Err("Unknown key: 'foo'".to_string()));
    assert_eq!(Shortcut::parse(""), Err("Unknown key: ''".to_string()));
    assert_eq!(Shortcut::parse("cmd+"), Err("Unknown key: ''".to_string()));
    assert_eq!(Shortcut::parse("foo+a"), Err("Unknown key: 'foo'".to_string()));
}

#[test]
fn parse_rejects_more_than_one_key() {
    assert_eq!(
        Shortcut::parse("cmd+A+b"),
        Err("Multiple keys specified: 'cmd+A+b'".to_string())
    );
    assert_eq!(
        Shortcut::parse("a+foo"),
        Err("Multiple keys specified: 'a+foo'".to_string())
    );
}

#[test]
fn config_strings_read_back() {
    let mut kept = 0;
    for code in 0..=u16::MAX {
        if keycode_to_name(code).is_none() {
            continue;
        }
        for flags in 1..16usize {
            let shortcut = Shortcut::new(Some(code), Some(flags << 17));
            assert_eq!(Shortcut::parse(&shortcut.to_config_string()), Ok(shortcut));
            kept += 1;
        }
        let plain = Shortcut::new(Some(code), None);
        assert_eq!(Shortcut::parse(&plain.to_config_string()), Ok(plain));
    }
    assert_eq!(kept, 72 * 15);
}

#[test]
fn other_shortcuts_do_not_read_back() {
    for shortcut in [
        Shortcut::new(None, None),
        Shortcut::new(Some(0x28), Some(0)),
        Shortcut::new(Some(0x28), Some(FUNCTION | COMMAND)),
        Shortcut::new(Some(0x7f), Some(COMMAND)),
    ] {
        assert_ne!(Shortcut::parse(&shortcut.to_config_string()), Ok(shortcut));
    }
}

#[test]
fn display_string_shows_symbols() {
    let show = |s: &str| Shortcut::parse(s).unwrap().display_string();
    assert_eq!(show("cmd+option+ctrl+shift+a"), "⌘⌥⌃⇧A");
    assert_eq!(show("return"), "↩");
    assert_eq!(show("space"), "Space");
    assert_eq!(show("delete"), "⌫");
    assert_eq!(show("escape"), "⎋");
    assert_eq!(show("left"), "←");
    assert_eq!(show("right"), "→");
    assert_eq!(show("down"), "↓");
    assert_eq!(show("up"), "↑");
    assert_eq!(show("f12"), "f12");
    assert_eq!(show("cmd+1"), "⌘1");
    assert_eq!(show("tab"), "tab");
    assert_eq!(Shortcut::new(None, Some(COMMAND | CAPS_LOCK)).display_string(), "⌘");
    assert_eq!(Shortcut::new(Some(0x7f), None).display_string(), "");
}

#[test]
fn key_names_and_codes_agree() {
    let mut names = 0;
    for code in 0..=u16::MAX {
        if let Some(name) = keycode_to_name(code) {
            assert_eq!(str_to_keycode(name), Ok(code));
            assert_eq!(str_to_keycode(&name.to_uppercase()), Ok(code));
            names += 1;
        }
    }
    assert_eq!(names, 72);
    assert_eq!(keycode_to_name(0x2a), Some("\\"));
    assert_eq!(keycode_to_name(0x0a), None);
}

#[test]
fn keys_have_other_names_too() {
    assert_eq!(str_to_keycode("enter"), Ok(0x24));
    assert_eq!(str_to_keycode("backspace"), Ok(0x33));
    assert_eq!(str_to_keycode("Esc"), Ok(0x35));
    assert_eq!(str_to_keycode("arrowleft"), Ok(0x7b));
    assert_eq!(str_to_keycode("minus"), Ok(0x1b));
    assert_eq!(str_to_keycode("grave"), Ok(0x32));
    assert_eq!(str_to_keycode("backquote"), Ok(0x32));
    assert_eq!(str_to_keycode("Nope"), Err("Unknown key: 'Nope'".to_string()));
}

#[test]
fn positions_have_named_codes() {
    for (position, name) in [
        (Code::KeyA, "a"),
        (Code::Digit5, "5"),
        (Code::Digit6, "6"),
        (Code::Backspace, "delete"),
        (Code::ArrowUp, "up"),
        (Code::PageDown, "pagedown"),
        (Code::F10, "f10"),
        (Code::Backquote, "`"),
        (Code::Slash, "/"),
    ] {
        assert_eq!(code_to_keycode(position).and_then(keycode_to_name), Some(name));
    }
    assert_eq!(code_to_keycode(Code::Other), None);
}

#[test]
fn white_space_is_that_of_the_standard_library() {
    for code in 0..=0x10ffffu32 {
        if let Some(c) = char::from_u32(code) {
            assert_eq!(white_space(c), c.is_whitespace(), "{:x}", code);
        }
    }
}

#[test]
fn strings_are_cut_as_the_standard_library_cuts_them() {
    for s in ["", "+", "a", "a+b", "+a++b+", " a + \u{3000}b\u{a0} ", "ä+⌘"] {
        let expected: Vec<&str> = s.split('+').collect();
        assert_eq!(split_str(s, '+'), expected);
        assert_eq!(join_with_plus(&expected), s);
        assert_eq!(trim(s), s.trim());
        assert!(same(s, s));
        assert!(!same(s, "something else"));
    }
    assert!(!same("ab", "ac"));
}

#[test]
fn recorded_shortcuts_read_back() {
    let positions = [
        Code::KeyA, Code::KeyS, Code::KeyM, Code::Digit0, Code::Digit9, Code::Enter, Code::Tab,
        Code::Space, Code::Backspace, Code::Escape, Code::ArrowLeft, Code::Home, Code::End,
        Code::PageUp, Code::F1, Code::F12, Code::Minus, Code::Equal, Code::BracketLeft,
        Code::BracketRight, Code::Backslash, Code::Semicolon, Code::Quote, Code::Comma,
        Code::Period, Code::Slash,
    ];
    let mut seen = vec![];
    for position in positions {
        for bits in 1..16u8 {
            let modifiers = Modifiers {
                logo: bits & 1 != 0,
                alt: bits & 2 != 0,
                control: bits & 4 != 0,
                shift: bits & 8 != 0,
            };
            let recorded = Shortcut::from_iced(Physical::Code(position), modifiers).unwrap();
            assert_eq!(Shortcut::parse(&recorded.to_config_string()), Ok(recorded.clone()));
            assert!(!seen.contains(&recorded));
            seen.push(recorded);
        }
    }
}

#[test]
fn case_and_space_do_not_matter_beside_other_letters() {
    let expected = Ok(Shortcut::new(Some(0x28), Some(COMMAND | SHIFT)));
    assert_eq!(Shortcut::parse("cmd+shift+\u{212a}"), expected);
    assert_eq!(Shortcut::parse(" CMD +Shift+ \u{212a}\t"), expected);
    assert!(Shortcut::parse("cmd+ä").is_err());
    assert!(Shortcut::parse("CMD + ä").is_err());
    assert_eq!(Shortcut::parse("cmd+äb"), Err("Unknown key: 'äb'".to_string()));
    assert_eq!(Shortcut::parse("Cmd + ÄB "), Err("Unknown key: 'äb'".to_string()));
}
