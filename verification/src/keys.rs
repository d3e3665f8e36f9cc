//! Virtual key codes: the name of each key in a configuration file, and the key
//! code of each physical key.

use crate::text;
use vstd::prelude::*;
use vstd::string::*;

verus! {

/// The position of a key on the keyboard. `Other` stands for every position
/// that has no key code here.
#[derive(Debug, Clone, Copy, PartialEq, Eq, Hash)]
pub enum Code {
    KeyA,
    KeyS,
    KeyD,
    KeyF,
    KeyH,
    KeyG,
    KeyZ,
    KeyX,
    KeyC,
    KeyV,
    KeyB,
    KeyQ,
    KeyW,
    KeyE,
    KeyR,
    KeyY,
    KeyT,
    KeyO,
    KeyU,
    KeyI,
    KeyP,
    KeyL,
    KeyJ,
    KeyK,
    KeyN,
    KeyM,
    Digit1,
    Digit2,
    Digit3,
    Digit4,
    Digit5,
    Digit6,
    Digit7,
    Digit8,
    Digit9,
    Digit0,
    Enter,
    Tab,
    Space,
    Backspace,
    Escape,
    ArrowLeft,
    ArrowRight,
    ArrowDown,
    ArrowUp,
    Home,
    End,
    PageUp,
    PageDown,
    F1,
    F2,
    F3,
    F4,
    F5,
    F6,
    F7,
    F8,
    F9,
    F10,
    F11,
    F12,
    Minus,
    Equal,
    BracketLeft,
    BracketRight,
    Backslash,
    Semicolon,
    Quote,
    Backquote,
    Comma,
    Period,
    Slash,
    Other,
}

/// The key code of a key's position.
pub open spec fn position_code(code: Code) -> Option<u16> {
    match code {
        Code::KeyA => Some(0x00),
        Code::KeyS => Some(0x01),
        Code::KeyD => Some(0x02),
        Code::KeyF => Some(0x03),
        Code::KeyH => Some(0x04),
        Code::KeyG => Some(0x05),
        Code::KeyZ => Some(0x06),
        Code::KeyX => Some(0x07),
        Code::KeyC => Some(0x08),
        Code::KeyV => Some(0x09),
        Code::KeyB => Some(0x0b),
        Code::KeyQ => Some(0x0c),
        Code::KeyW => Some(0x0d),
        Code::KeyE => Some(0x0e),
        Code::KeyR => Some(0x0f),
        Code::KeyY => Some(0x10),
        Code::KeyT => Some(0x11),
        Code::KeyO => Some(0x1f),
        Code::KeyU => Some(0x20),
        Code::KeyI => Some(0x22),
        Code::KeyP => Some(0x23),
        Code::KeyL => Some(0x25),
        Code::KeyJ => Some(0x26),
        Code::KeyK => Some(0x28),
        Code::KeyN => Some(0x2d),
        Code::KeyM => Some(0x2e),
        Code::Digit1 => Some(0x12),
        Code::Digit2 => Some(0x13),
        Code::Digit3 => Some(0x14),
        Code::Digit4 => Some(0x15),
        Code::Digit5 => Some(0x17),
        Code::Digit6 => Some(0x16),
        Code::Digit7 => Some(0x1a),
        Code::Digit8 => Some(0x1c),
        Code::Digit9 => Some(0x19),
        Code::Digit0 => Some(0x1d),
        Code::Enter => Some(0x24),
        Code::Tab => Some(0x30),
        Code::Space => Some(0x31),
        Code::Backspace => Some(0x33),
        Code::Escape => Some(0x35),
        Code::ArrowLeft => Some(0x7b),
        Code::ArrowRight => Some(0x7c),
        Code::ArrowDown => Some(0x7d),
        Code::ArrowUp => Some(0x7e),
        Code::Home => Some(0x73),
        Code::End => Some(0x77),
        Code::PageUp => Some(0x74),
        Code::PageDown => Some(0x79),
        Code::F1 => Some(0x7a),
        Code::F2 => Some(0x78),
        Code::F3 => Some(0x63),
        Code::F4 => Some(0x76),
        Code::F5 => Some(0x60),
        Code::F6 => Some(0x61),
        Code::F7 => Some(0x62),
        Code::F8 => Some(0x64),
        Code::F9 => Some(0x65),
        Code::F10 => Some(0x6d),
        Code::F11 => Some(0x67),
        Code::F12 => Some(0x6f),
        Code::Minus => Some(0x1b),
        Code::Equal => Some(0x18),
        Code::BracketLeft => Some(0x21),
        Code::BracketRight => Some(0x1e),
        Code::Backslash => Some(0x2a),
        Code::Semicolon => Some(0x29),
        Code::Quote => Some(0x27),
        Code::Backquote => Some(0x32),
        Code::Comma => Some(0x2b),
        Code::Period => Some(0x2f),
        Code::Slash => Some(0x2c),
        Code::Other => None,
    }
}

/// The key code of a key's position; `None` where the position has none.
pub fn code_to_keycode(code: Code) -> (r: Option<u16>)
    ensures
        r == position_code(code),
{
    match code {
        Code::KeyA => Some(0x00),
        Code::KeyS => Some(0x01),
        Code::KeyD => Some(0x02),
        Code::KeyF => Some(0x03),
        Code::KeyH => Some(0x04),
        Code::KeyG => Some(0x05),
        Code::KeyZ => Some(0x06),
        Code::KeyX => Some(0x07),
        Code::KeyC => Some(0x08),
        Code::KeyV => Some(0x09),
        Code::KeyB => Some(0x0b),
        Code::KeyQ => Some(0x0c),
        Code::KeyW => Some(0x0d),
        Code::KeyE => Some(0x0e),
        Code::KeyR => Some(0x0f),
        Code::KeyY => Some(0x10),
        Code::KeyT => Some(0x11),
        Code::KeyO => Some(0x1f),
        Code::KeyU => Some(0x20),
        Code::KeyI => Some(0x22),
        Code::KeyP => Some(0x23),
        Code::KeyL => Some(0x25),
        Code::KeyJ => Some(0x26),
        Code::KeyK => Some(0x28),
        Code::KeyN => Some(0x2d),
        Code::KeyM => Some(0x2e),
        Code::Digit1 => Some(0x12),
        Code::Digit2 => Some(0x13),
        Code::Digit3 => Some(0x14),
        Code::Digit4 => Some(0x15),
        Code::Digit5 => Some(0x17),
        Code::Digit6 => Some(0x16),
        Code::Digit7 => Some(0x1a),
        Code::Digit8 => Some(0x1c),
        Code::Digit9 => Some(0x19),
        Code::Digit0 => Some(0x1d),
        Code::Enter => Some(0x24),
        Code::Tab => Some(0x30),
        Code::Space => Some(0x31),
        Code::Backspace => Some(0x33),
        Code::Escape => Some(0x35),
        Code::ArrowLeft => Some(0x7b),
        Code::ArrowRight => Some(0x7c),
        Code::ArrowDown => Some(0x7d),
        Code::ArrowUp => Some(0x7e),
        Code::Home => Some(0x73),
        Code::End => Some(0x77),
        Code::PageUp => Some(0x74),
        Code::PageDown => Some(0x79),
        Code::F1 => Some(0x7a),
        Code::F2 => Some(0x78),
        Code::F3 => Some(0x63),
        Code::F4 => Some(0x76),
        Code::F5 => Some(0x60),
        Code::F6 => Some(0x61),
        Code::F7 => Some(0x62),
        Code::F8 => Some(0x64),
        Code::F9 => Some(0x65),
        Code::F10 => Some(0x6d),
        Code::F11 => Some(0x67),
        Code::F12 => Some(0x6f),
        Code::Minus => Some(0x1b),
        Code::Equal => Some(0x18),
        Code::BracketLeft => Some(0x21),
        Code::BracketRight => Some(0x1e),
        Code::Backslash => Some(0x2a),
        Code::Semicolon => Some(0x29),
        Code::Quote => Some(0x27),
        Code::Backquote => Some(0x32),
        Code::Comma => Some(0x2b),
        Code::Period => Some(0x2f),
        Code::Slash => Some(0x2c),
        Code::Other => None,
    }
}

/// The name of the key with the given key code.
pub open spec fn key_name(code: u16) -> Option<Seq<char>> {
    match code {
        0x00 => Some("a"@),
        0x01 => Some("s"@),
        0x02 => Some("d"@),
        0x03 => Some("f"@),
        0x04 => Some("h"@),
        0x05 => Some("g"@),
        0x06 => Some("z"@),
        0x07 => Some("x"@),
        0x08 => Some("c"@),
        0x09 => Some("v"@),
        0x0b => Some("b"@),
        0x0c => Some("q"@),
        0x0d => Some("w"@),
        0x0e => Some("e"@),
        0x0f => Some("r"@),
        0x10 => Some("y"@),
        0x11 => Some("t"@),
        0x1f => Some("o"@),
        0x20 => Some("u"@),
        0x22 => Some("i"@),
        0x23 => Some("p"@),
        0x25 => Some("l"@),
        0x26 => Some("j"@),
        0x28 => Some("k"@),
        0x2d => Some("n"@),
        0x2e => Some("m"@),
        0x12 => Some("1"@),
        0x13 => Some("2"@),
        0x14 => Some("3"@),
        0x15 => Some("4"@),
        0x17 => Some("5"@),
        0x16 => Some("6"@),
        0x1a => Some("7"@),
        0x1c => Some("8"@),
        0x19 => Some("9"@),
        0x1d => Some("0"@),
        0x24 => Some("return"@),
        0x30 => Some("tab"@),
        0x31 => Some("space"@),
        0x33 => Some("delete"@),
        0x35 => Some("escape"@),
        0x7b => Some("left"@),
        0x7c => Some("right"@),
        0x7d => Some("down"@),
        0x7e => Some("up"@),
        0x73 => Some("home"@),
        0x77 => Some("end"@),
        0x74 => Some("pageup"@),
        0x79 => Some("pagedown"@),
        0x7a => Some("f1"@),
        0x78 => Some("f2"@),
        0x63 => Some("f3"@),
        0x76 => Some("f4"@),
        0x60 => Some("f5"@),
        0x61 => Some("f6"@),
        0x62 => Some("f7"@),
        0x64 => Some("f8"@),
        0x65 => Some("f9"@),
        0x6d => Some("f10"@),
        0x67 => Some("f11"@),
        0x6f => Some("f12"@),
        0x1b => Some("-"@),
        0x18 => Some("="@),
        0x21 => Some("["@),
        0x1e => Some("]"@),
        0x2a => Some("\\"@),
        0x29 => Some(";"@),
        0x27 => Some("'"@),
        0x32 => Some("`"@),
        0x2b => Some(","@),
        0x2f => Some("."@),
        0x2c => Some("/"@),
        _ => None,
    }
}

/// The name of the key with the given key code; `None` where the code is not one
/// of a known key.
pub fn keycode_to_name(code: u16) -> (name: Option<&'static str>)
    ensures
        match name {
            Some(n) => key_name(code) == Some(n@),
            None => key_name(code) is None,
        },
{
    match code {
        0x00 => Some("a"),
        0x01 => Some("s"),
        0x02 => Some("d"),
        0x03 => Some("f"),
        0x04 => Some("h"),
        0x05 => Some("g"),
        0x06 => Some("z"),
        0x07 => Some("x"),
        0x08 => Some("c"),
        0x09 => Some("v"),
        0x0b => Some("b"),
        0x0c => Some("q"),
        0x0d => Some("w"),
        0x0e => Some("e"),
        0x0f => Some("r"),
        0x10 => Some("y"),
        0x11 => Some("t"),
        0x1f => Some("o"),
        0x20 => Some("u"),
        0x22 => Some("i"),
        0x23 => Some("p"),
        0x25 => Some("l"),
        0x26 => Some("j"),
        0x28 => Some("k"),
        0x2d => Some("n"),
        0x2e => Some("m"),
        0x12 => Some("1"),
        0x13 => Some("2"),
        0x14 => Some("3"),
        0x15 => Some("4"),
        0x17 => Some("5"),
        0x16 => Some("6"),
        0x1a => Some("7"),
        0x1c => Some("8"),
        0x19 => Some("9"),
        0x1d => Some("0"),
        0x24 => Some("return"),
        0x30 => Some("tab"),
        0x31 => Some("space"),
        0x33 => Some("delete"),
        0x35 => Some("escape"),
        0x7b => Some("left"),
        0x7c => Some("right"),
        0x7d => Some("down"),
        0x7e => Some("up"),
        0x73 => Some("home"),
        0x77 => Some("end"),
        0x74 => Some("pageup"),
        0x79 => Some("pagedown"),
        0x7a => Some("f1"),
        0x78 => Some("f2"),
        0x63 => Some("f3"),
        0x76 => Some("f4"),
        0x60 => Some("f5"),
        0x61 => Some("f6"),
        0x62 => Some("f7"),
        0x64 => Some("f8"),
        0x65 => Some("f9"),
        0x6d => Some("f10"),
        0x67 => Some("f11"),
        0x6f => Some("f12"),
        0x1b => Some("-"),
        0x18 => Some("="),
        0x21 => Some("["),
        0x1e => Some("]"),
        0x2a => Some("\\"),
        0x29 => Some(";"),
        0x27 => Some("'"),
        0x32 => Some("`"),
        0x2b => Some(","),
        0x2f => Some("."),
        0x2c => Some("/"),
        _ => None,
    }
}

/// The key code of a key that is named by one character.
pub open spec fn char_key_code(c: char) -> Option<u16> {
    match c {
        'a' => Some(0x00),
        's' => Some(0x01),
        'd' => Some(0x02),
        'f' => Some(0x03),
        'h' => Some(0x04),
        'g' => Some(0x05),
        'z' => Some(0x06),
        'x' => Some(0x07),
        'c' => Some(0x08),
        'v' => Some(0x09),
        'b' => Some(0x0b),
        'q' => Some(0x0c),
        'w' => Some(0x0d),
        'e' => Some(0x0e),
        'r' => Some(0x0f),
        'y' => Some(0x10),
        't' => Some(0x11),
        'o' => Some(0x1f),
        'u' => Some(0x20),
        'i' => Some(0x22),
        'p' => Some(0x23),
        'l' => Some(0x25),
        'j' => Some(0x26),
        'k' => Some(0x28),
        'n' => Some(0x2d),
        'm' => Some(0x2e),
        '1' => Some(0x12),
        '2' => Some(0x13),
        '3' => Some(0x14),
        '4' => Some(0x15),
        '5' => Some(0x17),
        '6' => Some(0x16),
        '7' => Some(0x1a),
        '8' => Some(0x1c),
        '9' => Some(0x19),
        '0' => Some(0x1d),
        '-' => Some(0x1b),
        '=' => Some(0x18),
        '[' => Some(0x21),
        ']' => Some(0x1e),
        '\\' => Some(0x2a),
        ';' => Some(0x29),
        '\'' => Some(0x27),
        '`' => Some(0x32),
        ',' => Some(0x2b),
        '.' => Some(0x2f),
        '/' => Some(0x2c),
        _ => None,
    }
}

/// The key code of a key that is named by a word.
pub open spec fn word_key_code(name: Seq<char>) -> Option<u16> {
    if name == "return"@ || name == "enter"@ {
        Some(0x24)
    } else if name == "tab"@ {
        Some(0x30)
    } else if name == "space"@ {
        Some(0x31)
    } else if name == "delete"@ || name == "backspace"@ {
        Some(0x33)
    } else if name == "escape"@ || name == "esc"@ {
        Some(0x35)
    } else if name == "left"@ || name == "arrowleft"@ {
        Some(0x7b)
    } else if name == "right"@ || name == "arrowright"@ {
        Some(0x7c)
    } else if name == "down"@ || name == "arrowdown"@ {
        Some(0x7d)
    } else if name == "up"@ || name == "arrowup"@ {
        Some(0x7e)
    } else if name == "home"@ {
        Some(0x73)
    } else if name == "end"@ {
        Some(0x77)
    } else if name == "pageup"@ {
        Some(0x74)
    } else if name == "pagedown"@ {
        Some(0x79)
    } else if name == "f1"@ {
        Some(0x7a)
    } else if name == "f2"@ {
        Some(0x78)
    } else if name == "f3"@ {
        Some(0x63)
    } else if name == "f4"@ {
        Some(0x76)
    } else if name == "f5"@ {
        Some(0x60)
    } else if name == "f6"@ {
        Some(0x61)
    } else if name == "f7"@ {
        Some(0x62)
    } else if name == "f8"@ {
        Some(0x64)
    } else if name == "f9"@ {
        Some(0x65)
    } else if name == "f10"@ {
        Some(0x6d)
    } else if name == "f11"@ {
        Some(0x67)
    } else if name == "f12"@ {
        Some(0x6f)
    } else if name == "minus"@ {
        Some(0x1b)
    } else if name == "equal"@ {
        Some(0x18)
    } else if name == "bracketleft"@ {
        Some(0x21)
    } else if name == "bracketright"@ {
        Some(0x1e)
    } else if name == "backslash"@ {
        Some(0x2a)
    } else if name == "semicolon"@ {
        Some(0x29)
    } else if name == "quote"@ {
        Some(0x27)
    } else if name == "backquote"@ || name == "grave"@ {
        Some(0x32)
    } else if name == "comma"@ {
        Some(0x2b)
    } else if name == "period"@ {
        Some(0x2f)
    } else if name == "slash"@ {
        Some(0x2c)
    } else {
        None
    }
}

/// The key code that a lowercase name stands for.
pub open spec fn key_code(name: Seq<char>) -> Option<u16> {
    if name.len() == 1 {
        char_key_code(name[0])
    } else {
        word_key_code(name)
    }
}

/// What is said of a name that no key has.
pub open spec fn unknown_key_message(name: Seq<char>) -> Seq<char> {
    "Unknown key: '"@ + name + "'"@
}

fn char_to_keycode(c: char) -> (code: Option<u16>)
    ensures
        code == char_key_code(c),
{
    match c {
        'a' => Some(0x00),
        's' => Some(0x01),
        'd' => Some(0x02),
        'f' => Some(0x03),
        'h' => Some(0x04),
        'g' => Some(0x05),
        'z' => Some(0x06),
        'x' => Some(0x07),
        'c' => Some(0x08),
        'v' => Some(0x09),
        'b' => Some(0x0b),
        'q' => Some(0x0c),
        'w' => Some(0x0d),
        'e' => Some(0x0e),
        'r' => Some(0x0f),
        'y' => Some(0x10),
        't' => Some(0x11),
        'o' => Some(0x1f),
        'u' => Some(0x20),
        'i' => Some(0x22),
        'p' => Some(0x23),
        'l' => Some(0x25),
        'j' => Some(0x26),
        'k' => Some(0x28),
        'n' => Some(0x2d),
        'm' => Some(0x2e),
        '1' => Some(0x12),
        '2' => Some(0x13),
        '3' => Some(0x14),
        '4' => Some(0x15),
        '5' => Some(0x17),
        '6' => Some(0x16),
        '7' => Some(0x1a),
        '8' => Some(0x1c),
        '9' => Some(0x19),
        '0' => Some(0x1d),
        '-' => Some(0x1b),
        '=' => Some(0x18),
        '[' => Some(0x21),
        ']' => Some(0x1e),
        '\\' => Some(0x2a),
        ';' => Some(0x29),
        '\'' => Some(0x27),
        '`' => Some(0x32),
        ',' => Some(0x2b),
        '.' => Some(0x2f),
        '/' => Some(0x2c),
        _ => None,
    }
}

fn word_to_keycode(name: &str) -> (code: Option<u16>)
    ensures
        code == word_key_code(name@),
{
    if text::same(name, "return") || text::same(name, "enter") {
        Some(0x24)
    } else if text::same(name, "tab") {
        Some(0x30)
    } else if text::same(name, "space") {
        Some(0x31)
    } else if text::same(name, "delete") || text::same(name, "backspace") {
        Some(0x33)
    } else if text::same(name, "escape") || text::same(name, "esc") {
        Some(0x35)
    } else if text::same(name, "left") || text::same(name, "arrowleft") {
        Some(0x7b)
    } else if text::same(name, "right") || text::same(name, "arrowright") {
        Some(0x7c)
    } else if text::same(name, "down") || text::same(name, "arrowdown") {
        Some(0x7d)
    } else if text::same(name, "up") || text::same(name, "arrowup") {
        Some(0x7e)
    } else if text::same(name, "home") {
        Some(0x73)
    } else if text::same(name, "end") {
        Some(0x77)
    } else if text::same(name, "pageup") {
        Some(0x74)
    } else if text::same(name, "pagedown") {
        Some(0x79)
    } else if text::same(name, "f1") {
        Some(0x7a)
    } else if text::same(name, "f2") {
        Some(0x78)
    } else if text::same(name, "f3") {
        Some(0x63)
    } else if text::same(name, "f4") {
        Some(0x76)
    } else if text::same(name, "f5") {
        Some(0x60)
    } else if text::same(name, "f6") {
        Some(0x61)
    } else if text::same(name, "f7") {
        Some(0x62)
    } else if text::same(name, "f8") {
        Some(0x64)
    } else if text::same(name, "f9") {
        Some(0x65)
    } else if text::same(name, "f10") {
        Some(0x6d)
    } else if text::same(name, "f11") {
        Some(0x67)
    } else if text::same(name, "f12") {
        Some(0x6f)
    } else if text::same(name, "minus") {
        Some(0x1b)
    } else if text::same(name, "equal") {
        Some(0x18)
    } else if text::same(name, "bracketleft") {
        Some(0x21)
    } else if text::same(name, "bracketright") {
        Some(0x1e)
    } else if text::same(name, "backslash") {
        Some(0x2a)
    } else if text::same(name, "semicolon") {
        Some(0x29)
    } else if text::same(name, "quote") {
        Some(0x27)
    } else if text::same(name, "backquote") || text::same(name, "grave") {
        Some(0x32)
    } else if text::same(name, "comma") {
        Some(0x2b)
    } else if text::same(name, "period") {
        Some(0x2f)
    } else if text::same(name, "slash") {
        Some(0x2c)
    } else {
        None
    }
}

/// The key code that a name stands for, in any mix of upper and lower case; an
/// error that quotes the name where no key has it.
pub fn str_to_keycode(s: &str) -> (code: Result<u16, String>)
    ensures
        match code {
            Ok(c) => key_code(text::lowercase(s@)) == Some(c),
            Err(message) => {
                &&& key_code(text::lowercase(s@)) is None
                &&& message@ == unknown_key_message(s@)
            },
        },
{
    let lower: String = s.to_lowercase();
    let chars = text::chars_of(lower.as_str());
    let found: Option<u16> = if chars.len() == 1 {
        char_to_keycode(chars[0])
    } else {
        word_to_keycode(lower.as_str())
    };
    match found {
        Some(code) => Ok(code),
        None => {
            let mut message: String = String::new();
            message.append("Unknown key: '");
            message.append(s);
            message.append("'");
            assert(message@ == unknown_key_message(s@));
            Err(message)
        },
    }
}

/// A name made of lowercase letters, digits and symbols other than '+', so that
/// it stands in a shortcut as it is.
pub open spec fn is_plain_name(name: Seq<char>) -> bool {
    name.len() > 0 && forall|i: int| 0 <= i < name.len() ==> text::is_plain(#[trigger] name[i])
}

/// The characters of every word that names a key.
pub proof fn lemma_words()
    ensures
        "return"@.len() == 6,
        "return"@[0] == 'r',
        "return"@[1] == 'e',
        "return"@[2] == 't',
        "return"@[3] == 'u',
        "return"@[4] == 'r',
        "return"@[5] == 'n',
        "enter"@.len() == 5,
        "enter"@[0] == 'e',
        "enter"@[1] == 'n',
        "enter"@[2] == 't',
        "enter"@[3] == 'e',
        "enter"@[4] == 'r',
        "tab"@.len() == 3,
        "tab"@[0] == 't',
        "tab"@[1] == 'a',
        "tab"@[2] == 'b',
        "space"@.len() == 5,
        "space"@[0] == 's',
        "space"@[1] == 'p',
        "space"@[2] == 'a',
        "space"@[3] == 'c',
        "space"@[4] == 'e',
        "delete"@.len() == 6,
        "delete"@[0] == 'd',
        "delete"@[1] == 'e',
        "delete"@[2] == 'l',
        "delete"@[3] == 'e',
        "delete"@[4] == 't',
        "delete"@[5] == 'e',
        "backspace"@.len() == 9,
        "backspace"@[0] == 'b',
        "backspace"@[1] == 'a',
        "backspace"@[2] == 'c',
        "backspace"@[3] == 'k',
        "backspace"@[4] == 's',
        "backspace"@[5] == 'p',
        "backspace"@[6] == 'a',
        "backspace"@[7] == 'c',
        "backspace"@[8] == 'e',
        "escape"@.len() == 6,
        "escape"@[0] == 'e',
        "escape"@[1] == 's',
        "escape"@[2] == 'c',
        "escape"@[3] == 'a',
        "escape"@[4] == 'p',
        "escape"@[5] == 'e',
        "esc"@.len() == 3,
        "esc"@[0] == 'e',
        "esc"@[1] == 's',
        "esc"@[2] == 'c',
        "left"@.len() == 4,
        "left"@[0] == 'l',
        "left"@[1] == 'e',
        "left"@[2] == 'f',
        "left"@[3] == 't',
        "arrowleft"@.len() == 9,
        "arrowleft"@[0] == 'a',
        "arrowleft"@[1] == 'r',
        "arrowleft"@[2] == 'r',
        "arrowleft"@[3] == 'o',
        "arrowleft"@[4] == 'w',
        "arrowleft"@[5] == 'l',
        "arrowleft"@[6] == 'e',
        "arrowleft"@[7] == 'f',
        "arrowleft"@[8] == 't',
        "right"@.len() == 5,
        "right"@[0] == 'r',
        "right"@[1] == 'i',
        "right"@[2] == 'g',
        "right"@[3] == 'h',
        "right"@[4] == 't',
        "arrowright"@.len() == 10,
        "arrowright"@[0] == 'a',
        "arrowright"@[1] == 'r',
        "arrowright"@[2] == 'r',
        "arrowright"@[3] == 'o',
        "arrowright"@[4] == 'w',
        "arrowright"@[5] == 'r',
        "arrowright"@[6] == 'i',
        "arrowright"@[7] == 'g',
        "arrowright"@[8] == 'h',
        "arrowright"@[9] == 't',
        "down"@.len() == 4,
        "down"@[0] == 'd',
        "down"@[1] == 'o',
        "down"@[2] == 'w',
        "down"@[3] == 'n',
        "arrowdown"@.len() == 9,
        "arrowdown"@[0] == 'a',
        "arrowdown"@[1] == 'r',
        "arrowdown"@[2] == 'r',
        "arrowdown"@[3] == 'o',
        "arrowdown"@[4] == 'w',
        "arrowdown"@[5] == 'd',
        "arrowdown"@[6] == 'o',
        "arrowdown"@[7] == 'w',
        "arrowdown"@[8] == 'n',
        "up"@.len() == 2,
        "up"@[0] == 'u',
        "up"@[1] == 'p',
        "arrowup"@.len() == 7,
        "arrowup"@[0] == 'a',
        "arrowup"@[1] == 'r',
        "arrowup"@[2] == 'r',
        "arrowup"@[3] == 'o',
        "arrowup"@[4] == 'w',
        "arrowup"@[5] == 'u',
        "arrowup"@[6] == 'p',
        "home"@.len() == 4,
        "home"@[0] == 'h',
        "home"@[1] == 'o',
        "home"@[2] == 'm',
        "home"@[3] == 'e',
        "end"@.len() == 3,
        "end"@[0] == 'e',
        "end"@[1] == 'n',
        "end"@[2] == 'd',
        "pageup"@.len() == 6,
        "pageup"@[0] == 'p',
        "pageup"@[1] == 'a',
        "pageup"@[2] == 'g',
        "pageup"@[3] == 'e',
        "pageup"@[4] == 'u',
        "pageup"@[5] == 'p',
        "pagedown"@.len() == 8,
        "pagedown"@[0] == 'p',
        "pagedown"@[1] == 'a',
        "pagedown"@[2] == 'g',
        "pagedown"@[3] == 'e',
        "pagedown"@[4] == 'd',
        "pagedown"@[5] == 'o',
        "pagedown"@[6] == 'w',
        "pagedown"@[7] == 'n',
        "f1"@.len() == 2,
        "f1"@[0] == 'f',
        "f1"@[1] == '1',
        "f2"@.len() == 2,
        "f2"@[0] == 'f',
        "f2"@[1] == '2',
        "f3"@.len() == 2,
        "f3"@[0] == 'f',
        "f3"@[1] == '3',
        "f4"@.len() == 2,
        "f4"@[0] == 'f',
        "f4"@[1] == '4',
        "f5"@.len() == 2,
        "f5"@[0] == 'f',
        "f5"@[1] == '5',
        "f6"@.len() == 2,
        "f6"@[0] == 'f',
        "f6"@[1] == '6',
        "f7"@.len() == 2,
        "f7"@[0] == 'f',
        "f7"@[1] == '7',
        "f8"@.len() == 2,
        "f8"@[0] == 'f',
        "f8"@[1] == '8',
        "f9"@.len() == 2,
        "f9"@[0] == 'f',
        "f9"@[1] == '9',
        "f10"@.len() == 3,
        "f10"@[0] == 'f',
        "f10"@[1] == '1',
        "f10"@[2] == '0',
        "f11"@.len() == 3,
        "f11"@[0] == 'f',
        "f11"@[1] == '1',
        "f11"@[2] == '1',
        "f12"@.len() == 3,
        "f12"@[0] == 'f',
        "f12"@[1] == '1',
        "f12"@[2] == '2',
        "minus"@.len() == 5,
        "minus"@[0] == 'm',
        "minus"@[1] == 'i',
        "minus"@[2] == 'n',
        "minus"@[3] == 'u',
        "minus"@[4] == 's',
        "equal"@.len() == 5,
        "equal"@[0] == 'e',
        "equal"@[1] == 'q',
        "equal"@[2] == 'u',
        "equal"@[3] == 'a',
        "equal"@[4] == 'l',
        "bracketleft"@.len() == 11,
        "bracketleft"@[0] == 'b',
        "bracketleft"@[1] == 'r',
        "bracketleft"@[2] == 'a',
        "bracketleft"@[3] == 'c',
        "bracketleft"@[4] == 'k',
        "bracketleft"@[5] == 'e',
        "bracketleft"@[6] == 't',
        "bracketleft"@[7] == 'l',
        "bracketleft"@[8] == 'e',
        "bracketleft"@[9] == 'f',
        "bracketleft"@[10] == 't',
        "bracketright"@.len() == 12,
        "bracketright"@[0] == 'b',
        "bracketright"@[1] == 'r',
        "bracketright"@[2] == 'a',
        "bracketright"@[3] == 'c',
        "bracketright"@[4] == 'k',
        "bracketright"@[5] == 'e',
        "bracketright"@[6] == 't',
        "bracketright"@[7] == 'r',
        "bracketright"@[8] == 'i',
        "bracketright"@[9] == 'g',
        "bracketright"@[10] == 'h',
        "bracketright"@[11] == 't',
        "backslash"@.len() == 9,
        "backslash"@[0] == 'b',
        "backslash"@[1] == 'a',
        "backslash"@[2] == 'c',
        "backslash"@[3] == 'k',
        "backslash"@[4] == 's',
        "backslash"@[5] == 'l',
        "backslash"@[6] == 'a',
        "backslash"@[7] == 's',
        "backslash"@[8] == 'h',
        "semicolon"@.len() == 9,
        "semicolon"@[0] == 's',
        "semicolon"@[1] == 'e',
        "semicolon"@[2] == 'm',
        "semicolon"@[3] == 'i',
        "semicolon"@[4] == 'c',
        "semicolon"@[5] == 'o',
        "semicolon"@[6] == 'l',
        "semicolon"@[7] == 'o',
        "semicolon"@[8] == 'n',
        "quote"@.len() == 5,
        "quote"@[0] == 'q',
        "quote"@[1] == 'u',
        "quote"@[2] == 'o',
        "quote"@[3] == 't',
        "quote"@[4] == 'e',
        "backquote"@.len() == 9,
        "backquote"@[0] == 'b',
        "backquote"@[1] == 'a',
        "backquote"@[2] == 'c',
        "backquote"@[3] == 'k',
        "backquote"@[4] == 'q',
        "backquote"@[5] == 'u',
        "backquote"@[6] == 'o',
        "backquote"@[7] == 't',
        "backquote"@[8] == 'e',
        "grave"@.len() == 5,
        "grave"@[0] == 'g',
        "grave"@[1] == 'r',
        "grave"@[2] == 'a',
        "grave"@[3] == 'v',
        "grave"@[4] == 'e',
        "comma"@.len() == 5,
        "comma"@[0] == 'c',
        "comma"@[1] == 'o',
        "comma"@[2] == 'm',
        "comma"@[3] == 'm',
        "comma"@[4] == 'a',
        "period"@.len() == 6,
        "period"@[0] == 'p',
        "period"@[1] == 'e',
        "period"@[2] == 'r',
        "period"@[3] == 'i',
        "period"@[4] == 'o',
        "period"@[5] == 'd',
        "slash"@.len() == 5,
        "slash"@[0] == 's',
        "slash"@[1] == 'l',
        "slash"@[2] == 'a',
        "slash"@[3] == 's',
        "slash"@[4] == 'h',
{
    reveal_strlit("return");
    reveal_strlit("enter");
    reveal_strlit("tab");
    reveal_strlit("space");
    reveal_strlit("delete");
    reveal_strlit("backspace");
    reveal_strlit("escape");
    reveal_strlit("esc");
    reveal_strlit("left");
    reveal_strlit("arrowleft");
    reveal_strlit("right");
    reveal_strlit("arrowright");
    reveal_strlit("down");
    reveal_strlit("arrowdown");
    reveal_strlit("up");
    reveal_strlit("arrowup");
    reveal_strlit("home");
    reveal_strlit("end");
    reveal_strlit("pageup");
    reveal_strlit("pagedown");
    reveal_strlit("f1");
    reveal_strlit("f2");
    reveal_strlit("f3");
    reveal_strlit("f4");
    reveal_strlit("f5");
    reveal_strlit("f6");
    reveal_strlit("f7");
    reveal_strlit("f8");
    reveal_strlit("f9");
    reveal_strlit("f10");
    reveal_strlit("f11");
    reveal_strlit("f12");
    reveal_strlit("minus");
    reveal_strlit("equal");
    reveal_strlit("bracketleft");
    reveal_strlit("bracketright");
    reveal_strlit("backslash");
    reveal_strlit("semicolon");
    reveal_strlit("quote");
    reveal_strlit("backquote");
    reveal_strlit("grave");
    reveal_strlit("comma");
    reveal_strlit("period");
    reveal_strlit("slash");
}

/// Every key code with a name is the key code that the name stands for, and the
/// name is a plain one.
pub proof fn key_names_read_back(code: u16)
    requires
        key_name(code) is Some,
    ensures
        key_code(key_name(code)->0) == Some(code),
        is_plain_name(key_name(code)->0),
{
    lemma_words();
    match code {
        0x00 => {
            reveal_strlit("a");
            assert("a"@[0] == 'a');
        },
        0x01 => {
            reveal_strlit("s");
            assert("s"@[0] == 's');
        },
        0x02 => {
            reveal_strlit("d");
            assert("d"@[0] == 'd');
        },
        0x03 => {
            reveal_strlit("f");
            assert("f"@[0] == 'f');
        },
        0x04 => {
            reveal_strlit("h");
            assert("h"@[0] == 'h');
        },
        0x05 => {
            reveal_strlit("g");
            assert("g"@[0] == 'g');
        },
        0x06 => {
            reveal_strlit("z");
            assert("z"@[0] == 'z');
        },
        0x07 => {
            reveal_strlit("x");
            assert("x"@[0] == 'x');
        },
        0x08 => {
            reveal_strlit("c");
            assert("c"@[0] == 'c');
        },
        0x09 => {
            reveal_strlit("v");
            assert("v"@[0] == 'v');
        },
        0x0b => {
            reveal_strlit("b");
            assert("b"@[0] == 'b');
        },
        0x0c => {
            reveal_strlit("q");
            assert("q"@[0] == 'q');
        },
        0x0d => {
            reveal_strlit("w");
            assert("w"@[0] == 'w');
        },
        0x0e => {
            reveal_strlit("e");
            assert("e"@[0] == 'e');
        },
        0x0f => {
            reveal_strlit("r");
            assert("r"@[0] == 'r');
        },
        0x10 => {
            reveal_strlit("y");
            assert("y"@[0] == 'y');
        },
        0x11 => {
            reveal_strlit("t");
            assert("t"@[0] == 't');
        },
        0x1f => {
            reveal_strlit("o");
            assert("o"@[0] == 'o');
        },
        0x20 => {
            reveal_strlit("u");
            assert("u"@[0] == 'u');
        },
        0x22 => {
            reveal_strlit("i");
            assert("i"@[0] == 'i');
        },
        0x23 => {
            reveal_strlit("p");
            assert("p"@[0] == 'p');
        },
        0x25 => {
            reveal_strlit("l");
            assert("l"@[0] == 'l');
        },
        0x26 => {
            reveal_strlit("j");
            assert("j"@[0] == 'j');
        },
        0x28 => {
            reveal_strlit("k");
            assert("k"@[0] == 'k');
        },
        0x2d => {
            reveal_strlit("n");
            assert("n"@[0] == 'n');
        },
        0x2e => {
            reveal_strlit("m");
            assert("m"@[0] == 'm');
        },
        0x12 => {
            reveal_strlit("1");
            assert("1"@[0] == '1');
        },
        0x13 => {
            reveal_strlit("2");
            assert("2"@[0] == '2');
        },
        0x14 => {
            reveal_strlit("3");
            assert("3"@[0] == '3');
        },
        0x15 => {
            reveal_strlit("4");
            assert("4"@[0] == '4');
        },
        0x17 => {
            reveal_strlit("5");
            assert("5"@[0] == '5');
        },
        0x16 => {
            reveal_strlit("6");
            assert("6"@[0] == '6');
        },
        0x1a => {
            reveal_strlit("7");
            assert("7"@[0] == '7');
        },
        0x1c => {
            reveal_strlit("8");
            assert("8"@[0] == '8');
        },
        0x19 => {
            reveal_strlit("9");
            assert("9"@[0] == '9');
        },
        0x1d => {
            reveal_strlit("0");
            assert("0"@[0] == '0');
        },
        0x1b => {
            reveal_strlit("-");
            assert("-"@[0] == '-');
        },
        0x18 => {
            reveal_strlit("=");
            assert("="@[0] == '=');
        },
        0x21 => {
            reveal_strlit("[");
            assert("["@[0] == '[');
        },
        0x1e => {
            reveal_strlit("]");
            assert("]"@[0] == ']');
        },
        0x2a => {
            reveal_strlit("\\");
            assert("\\"@[0] == '\\');
        },
        0x29 => {
            reveal_strlit(";");
            assert(";"@[0] == ';');
        },
        0x27 => {
            reveal_strlit("'");
            assert("'"@[0] == '\'');
        },
        0x32 => {
            reveal_strlit("`");
            assert("`"@[0] == '`');
        },
        0x2b => {
            reveal_strlit(",");
            assert(","@[0] == ',');
        },
        0x2f => {
            reveal_strlit(".");
            assert("."@[0] == '.');
        },
        0x2c => {
            reveal_strlit("/");
            assert("/"@[0] == '/');
        },
        _ => {},
    }
}

/// No two key codes have one name.
pub proof fn key_names_are_distinct(a: u16, b: u16)
    requires
        key_name(a) is Some,
        key_name(a) == key_name(b),
    ensures
        a == b,
{
    key_names_read_back(a);
    key_names_read_back(b);
}

/// The key code of every position has a name.
pub proof fn positions_are_named(code: Code)
    requires
        position_code(code) is Some,
    ensures
        key_name(position_code(code)->0) is Some,
{
}

/// No two positions have one key code.
pub proof fn position_codes_are_distinct(a: Code, b: Code)
    requires
        position_code(a) is Some,
        position_code(a) == position_code(b),
    ensures
        a == b,
{
}

/// Every key with a name has a position: a key that can be read from a
/// configuration can be pressed.
pub proof fn named_keys_have_a_position(code: u16)
    requires
        key_name(code) is Some,
    ensures
        exists|position: Code| position_code(position) == Some(code),
{
    match code {
        0x00 => {
            assert(position_code(Code::KeyA) == Some(code));
        },
        0x01 => {
            assert(position_code(Code::KeyS) == Some(code));
        },
        0x02 => {
            assert(position_code(Code::KeyD) == Some(code));
        },
        0x03 => {
            assert(position_code(Code::KeyF) == Some(code));
        },
        0x04 => {
            assert(position_code(Code::KeyH) == Some(code));
        },
        0x05 => {
            assert(position_code(Code::KeyG) == Some(code));
        },
        0x06 => {
            assert(position_code(Code::KeyZ) == Some(code));
        },
        0x07 => {
            assert(position_code(Code::KeyX) == Some(code));
        },
        0x08 => {
            assert(position_code(Code::KeyC) == Some(code));
        },
        0x09 => {
            assert(position_code(Code::KeyV) == Some(code));
        },
        0x0b => {
            assert(position_code(Code::KeyB) == Some(code));
        },
        0x0c => {
            assert(position_code(Code::KeyQ) == Some(code));
        },
        0x0d => {
            assert(position_code(Code::KeyW) == Some(code));
        },
        0x0e => {
            assert(position_code(Code::KeyE) == Some(code));
        },
        0x0f => {
            assert(position_code(Code::KeyR) == Some(code));
        },
        0x10 => {
            assert(position_code(Code::KeyY) == Some(code));
        },
        0x11 => {
            assert(position_code(Code::KeyT) == Some(code));
        },
        0x1f => {
            assert(position_code(Code::KeyO) == Some(code));
        },
        0x20 => {
            assert(position_code(Code::KeyU) == Some(code));
        },
        0x22 => {
            assert(position_code(Code::KeyI) == Some(code));
        },
        0x23 => {
            assert(position_code(Code::KeyP) == Some(code));
        },
        0x25 => {
            assert(position_code(Code::KeyL) == Some(code));
        },
        0x26 => {
            assert(position_code(Code::KeyJ) == Some(code));
        },
        0x28 => {
            assert(position_code(Code::KeyK) == Some(code));
        },
        0x2d => {
            assert(position_code(Code::KeyN) == Some(code));
        },
        0x2e => {
            assert(position_code(Code::KeyM) == Some(code));
        },
        0x12 => {
            assert(position_code(Code::Digit1) == Some(code));
        },
        0x13 => {
            assert(position_code(Code::Digit2) == Some(code));
        },
        0x14 => {
            assert(position_code(Code::Digit3) == Some(code));
        },
        0x15 => {
            assert(position_code(Code::Digit4) == Some(code));
        },
        0x17 => {
            assert(position_code(Code::Digit5) == Some(code));
        },
        0x16 => {
            assert(position_code(Code::Digit6) == Some(code));
        },
        0x1a => {
            assert(position_code(Code::Digit7) == Some(code));
        },
        0x1c => {
            assert(position_code(Code::Digit8) == Some(code));
        },
        0x19 => {
            assert(position_code(Code::Digit9) == Some(code));
        },
        0x1d => {
            assert(position_code(Code::Digit0) == Some(code));
        },
        0x24 => {
            assert(position_code(Code::Enter) == Some(code));
        },
        0x30 => {
            assert(position_code(Code::Tab) == Some(code));
        },
        0x31 => {
            assert(position_code(Code::Space) == Some(code));
        },
        0x33 => {
            assert(position_code(Code::Backspace) == Some(code));
        },
        0x35 => {
            assert(position_code(Code::Escape) == Some(code));
        },
        0x7b => {
            assert(position_code(Code::ArrowLeft) == Some(code));
        },
        0x7c => {
            assert(position_code(Code::ArrowRight) == Some(code));
        },
        0x7d => {
            assert(position_code(Code::ArrowDown) == Some(code));
        },
        0x7e => {
            assert(position_code(Code::ArrowUp) == Some(code));
        },
        0x73 => {
            assert(position_code(Code::Home) == Some(code));
        },
        0x77 => {
            assert(position_code(Code::End) == Some(code));
        },
        0x74 => {
            assert(position_code(Code::PageUp) == Some(code));
        },
        0x79 => {
            assert(position_code(Code::PageDown) == Some(code));
        },
        0x7a => {
            assert(position_code(Code::F1) == Some(code));
        },
        0x78 => {
            assert(position_code(Code::F2) == Some(code));
        },
        0x63 => {
            assert(position_code(Code::F3) == Some(code));
        },
        0x76 => {
            assert(position_code(Code::F4) == Some(code));
        },
        0x60 => {
            assert(position_code(Code::F5) == Some(code));
        },
        0x61 => {
            assert(position_code(Code::F6) == Some(code));
        },
        0x62 => {
            assert(position_code(Code::F7) == Some(code));
        },
        0x64 => {
            assert(position_code(Code::F8) == Some(code));
        },
        0x65 => {
            assert(position_code(Code::F9) == Some(code));
        },
        0x6d => {
            assert(position_code(Code::F10) == Some(code));
        },
        0x67 => {
            assert(position_code(Code::F11) == Some(code));
        },
        0x6f => {
            assert(position_code(Code::F12) == Some(code));
        },
        0x1b => {
            assert(position_code(Code::Minus) == Some(code));
        },
        0x18 => {
            assert(position_code(Code::Equal) == Some(code));
        },
        0x21 => {
            assert(position_code(Code::BracketLeft) == Some(code));
        },
        0x1e => {
            assert(position_code(Code::BracketRight) == Some(code));
        },
        0x2a => {
            assert(position_code(Code::Backslash) == Some(code));
        },
        0x29 => {
            assert(position_code(Code::Semicolon) == Some(code));
        },
        0x27 => {
            assert(position_code(Code::Quote) == Some(code));
        },
        0x32 => {
            assert(position_code(Code::Backquote) == Some(code));
        },
        0x2b => {
            assert(position_code(Code::Comma) == Some(code));
        },
        0x2f => {
            assert(position_code(Code::Period) == Some(code));
        },
        0x2c => {
            assert(position_code(Code::Slash) == Some(code));
        },
        _ => {},
    }
}

} // verus!
