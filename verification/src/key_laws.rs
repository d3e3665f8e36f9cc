//! What holds of the names and the codes of keys: each key by itself.

use crate::keys;
use crate::keys::Code;
use crate::shortcut;
use crate::shortcut::Shortcut;
use vstd::prelude::*;
use vstd::string::*;

verus! {

/// Which key codes a name of one character stands for: those of the letters, the
/// digits and the symbols of the keyboard, and no other.
pub proof fn characters_name_keys(c: char, code: u16)
    ensures
        keys::key_code(seq![c]) == Some(code) <==> {
            ||| c == 'a' && code == 0x00
            ||| c == 's' && code == 0x01
            ||| c == 'd' && code == 0x02
            ||| c == 'f' && code == 0x03
            ||| c == 'h' && code == 0x04
            ||| c == 'g' && code == 0x05
            ||| c == 'z' && code == 0x06
            ||| c == 'x' && code == 0x07
            ||| c == 'c' && code == 0x08
            ||| c == 'v' && code == 0x09
            ||| c == 'b' && code == 0x0b
            ||| c == 'q' && code == 0x0c
            ||| c == 'w' && code == 0x0d
            ||| c == 'e' && code == 0x0e
            ||| c == 'r' && code == 0x0f
            ||| c == 'y' && code == 0x10
            ||| c == 't' && code == 0x11
            ||| c == 'o' && code == 0x1f
            ||| c == 'u' && code == 0x20
            ||| c == 'i' && code == 0x22
            ||| c == 'p' && code == 0x23
            ||| c == 'l' && code == 0x25
            ||| c == 'j' && code == 0x26
            ||| c == 'k' && code == 0x28
            ||| c == 'n' && code == 0x2d
            ||| c == 'm' && code == 0x2e
            ||| c == '1' && code == 0x12
            ||| c == '2' && code == 0x13
            ||| c == '3' && code == 0x14
            ||| c == '4' && code == 0x15
            ||| c == '5' && code == 0x17
            ||| c == '6' && code == 0x16
            ||| c == '7' && code == 0x1a
            ||| c == '8' && code == 0x1c
            ||| c == '9' && code == 0x19
            ||| c == '0' && code == 0x1d
            ||| c == '-' && code == 0x1b
            ||| c == '=' && code == 0x18
            ||| c == '[' && code == 0x21
            ||| c == ']' && code == 0x1e
            ||| c == '\\' && code == 0x2a
            ||| c == ';' && code == 0x29
            ||| c == '\'' && code == 0x27
            ||| c == '`' && code == 0x32
            ||| c == ',' && code == 0x2b
            ||| c == '.' && code == 0x2f
            ||| c == '/' && code == 0x2c
        },
{
}

/// Which key codes a name of more than one character, or of none, stands for.
pub proof fn words_name_keys(name: Seq<char>, code: u16)
    requires
        name.len() != 1,
    ensures
        keys::key_code(name) == Some(code) <==> {
            ||| name == "return"@ && code == 0x24
            ||| name == "enter"@ && code == 0x24
            ||| name == "tab"@ && code == 0x30
            ||| name == "space"@ && code == 0x31
            ||| name == "delete"@ && code == 0x33
            ||| name == "backspace"@ && code == 0x33
            ||| name == "escape"@ && code == 0x35
            ||| name == "esc"@ && code == 0x35
            ||| name == "left"@ && code == 0x7b
            ||| name == "arrowleft"@ && code == 0x7b
            ||| name == "right"@ && code == 0x7c
            ||| name == "arrowright"@ && code == 0x7c
            ||| name == "down"@ && code == 0x7d
            ||| name == "arrowdown"@ && code == 0x7d
            ||| name == "up"@ && code == 0x7e
            ||| name == "arrowup"@ && code == 0x7e
            ||| name == "home"@ && code == 0x73
            ||| name == "end"@ && code == 0x77
            ||| name == "pageup"@ && code == 0x74
            ||| name == "pagedown"@ && code == 0x79
            ||| name == "f1"@ && code == 0x7a
            ||| name == "f2"@ && code == 0x78
            ||| name == "f3"@ && code == 0x63
            ||| name == "f4"@ && code == 0x76
            ||| name == "f5"@ && code == 0x60
            ||| name == "f6"@ && code == 0x61
            ||| name == "f7"@ && code == 0x62
            ||| name == "f8"@ && code == 0x64
            ||| name == "f9"@ && code == 0x65
            ||| name == "f10"@ && code == 0x6d
            ||| name == "f11"@ && code == 0x67
            ||| name == "f12"@ && code == 0x6f
            ||| name == "minus"@ && code == 0x1b
            ||| name == "equal"@ && code == 0x18
            ||| name == "bracketleft"@ && code == 0x21
            ||| name == "bracketright"@ && code == 0x1e
            ||| name == "backslash"@ && code == 0x2a
            ||| name == "semicolon"@ && code == 0x29
            ||| name == "quote"@ && code == 0x27
            ||| name == "backquote"@ && code == 0x32
            ||| name == "grave"@ && code == 0x32
            ||| name == "comma"@ && code == 0x2b
            ||| name == "period"@ && code == 0x2f
            ||| name == "slash"@ && code == 0x2c
        },
{
    keys::lemma_words();
}

/// The name of every key in a configuration; other key codes have none.
pub proof fn keys_have_their_names(code: u16, name: Seq<char>)
    ensures
        keys::key_name(code) == Some(name) <==> {
            ||| code == 0x00 && name == "a"@
            ||| code == 0x01 && name == "s"@
            ||| code == 0x02 && name == "d"@
            ||| code == 0x03 && name == "f"@
            ||| code == 0x04 && name == "h"@
            ||| code == 0x05 && name == "g"@
            ||| code == 0x06 && name == "z"@
            ||| code == 0x07 && name == "x"@
            ||| code == 0x08 && name == "c"@
            ||| code == 0x09 && name == "v"@
            ||| code == 0x0b && name == "b"@
            ||| code == 0x0c && name == "q"@
            ||| code == 0x0d && name == "w"@
            ||| code == 0x0e && name == "e"@
            ||| code == 0x0f && name == "r"@
            ||| code == 0x10 && name == "y"@
            ||| code == 0x11 && name == "t"@
            ||| code == 0x1f && name == "o"@
            ||| code == 0x20 && name == "u"@
            ||| code == 0x22 && name == "i"@
            ||| code == 0x23 && name == "p"@
            ||| code == 0x25 && name == "l"@
            ||| code == 0x26 && name == "j"@
            ||| code == 0x28 && name == "k"@
            ||| code == 0x2d && name == "n"@
            ||| code == 0x2e && name == "m"@
            ||| code == 0x12 && name == "1"@
            ||| code == 0x13 && name == "2"@
            ||| code == 0x14 && name == "3"@
            ||| code == 0x15 && name == "4"@
            ||| code == 0x17 && name == "5"@
            ||| code == 0x16 && name == "6"@
            ||| code == 0x1a && name == "7"@
            ||| code == 0x1c && name == "8"@
            ||| code == 0x19 && name == "9"@
            ||| code == 0x1d && name == "0"@
            ||| code == 0x24 && name == "return"@
            ||| code == 0x30 && name == "tab"@
            ||| code == 0x31 && name == "space"@
            ||| code == 0x33 && name == "delete"@
            ||| code == 0x35 && name == "escape"@
            ||| code == 0x7b && name == "left"@
            ||| code == 0x7c && name == "right"@
            ||| code == 0x7d && name == "down"@
            ||| code == 0x7e && name == "up"@
            ||| code == 0x73 && name == "home"@
            ||| code == 0x77 && name == "end"@
            ||| code == 0x74 && name == "pageup"@
            ||| code == 0x79 && name == "pagedown"@
            ||| code == 0x7a && name == "f1"@
            ||| code == 0x78 && name == "f2"@
            ||| code == 0x63 && name == "f3"@
            ||| code == 0x76 && name == "f4"@
            ||| code == 0x60 && name == "f5"@
            ||| code == 0x61 && name == "f6"@
            ||| code == 0x62 && name == "f7"@
            ||| code == 0x64 && name == "f8"@
            ||| code == 0x65 && name == "f9"@
            ||| code == 0x6d && name == "f10"@
            ||| code == 0x67 && name == "f11"@
            ||| code == 0x6f && name == "f12"@
            ||| code == 0x1b && name == "-"@
            ||| code == 0x18 && name == "="@
            ||| code == 0x21 && name == "["@
            ||| code == 0x1e && name == "]"@
            ||| code == 0x2a && name == "\\"@
            ||| code == 0x29 && name == ";"@
            ||| code == 0x27 && name == "'"@
            ||| code == 0x32 && name == "`"@
            ||| code == 0x2b && name == ","@
            ||| code == 0x2f && name == "."@
            ||| code == 0x2c && name == "/"@
        },
{
}

/// The key code of every position; `Other` has none.
pub proof fn positions_have_their_codes(position: Code, code: u16)
    ensures
        keys::position_code(position) == Some(code) <==> {
            ||| position is KeyA && code == 0x00
            ||| position is KeyS && code == 0x01
            ||| position is KeyD && code == 0x02
            ||| position is KeyF && code == 0x03
            ||| position is KeyH && code == 0x04
            ||| position is KeyG && code == 0x05
            ||| position is KeyZ && code == 0x06
            ||| position is KeyX && code == 0x07
            ||| position is KeyC && code == 0x08
            ||| position is KeyV && code == 0x09
            ||| position is KeyB && code == 0x0b
            ||| position is KeyQ && code == 0x0c
            ||| position is KeyW && code == 0x0d
            ||| position is KeyE && code == 0x0e
            ||| position is KeyR && code == 0x0f
            ||| position is KeyY && code == 0x10
            ||| position is KeyT && code == 0x11
            ||| position is KeyO && code == 0x1f
            ||| position is KeyU && code == 0x20
            ||| position is KeyI && code == 0x22
            ||| position is KeyP && code == 0x23
            ||| position is KeyL && code == 0x25
            ||| position is KeyJ && code == 0x26
            ||| position is KeyK && code == 0x28
            ||| position is KeyN && code == 0x2d
            ||| position is KeyM && code == 0x2e
            ||| position is Digit1 && code == 0x12
            ||| position is Digit2 && code == 0x13
            ||| position is Digit3 && code == 0x14
            ||| position is Digit4 && code == 0x15
            ||| position is Digit5 && code == 0x17
            ||| position is Digit6 && code == 0x16
            ||| position is Digit7 && code == 0x1a
            ||| position is Digit8 && code == 0x1c
            ||| position is Digit9 && code == 0x19
            ||| position is Digit0 && code == 0x1d
            ||| position is Enter && code == 0x24
            ||| position is Tab && code == 0x30
            ||| position is Space && code == 0x31
            ||| position is Backspace && code == 0x33
            ||| position is Escape && code == 0x35
            ||| position is ArrowLeft && code == 0x7b
            ||| position is ArrowRight && code == 0x7c
            ||| position is ArrowDown && code == 0x7d
            ||| position is ArrowUp && code == 0x7e
            ||| position is Home && code == 0x73
            ||| position is End && code == 0x77
            ||| position is PageUp && code == 0x74
            ||| position is PageDown && code == 0x79
            ||| position is F1 && code == 0x7a
            ||| position is F2 && code == 0x78
            ||| position is F3 && code == 0x63
            ||| position is F4 && code == 0x76
            ||| position is F5 && code == 0x60
            ||| position is F6 && code == 0x61
            ||| position is F7 && code == 0x62
            ||| position is F8 && code == 0x64
            ||| position is F9 && code == 0x65
            ||| position is F10 && code == 0x6d
            ||| position is F11 && code == 0x67
            ||| position is F12 && code == 0x6f
            ||| position is Minus && code == 0x1b
            ||| position is Equal && code == 0x18
            ||| position is BracketLeft && code == 0x21
            ||| position is BracketRight && code == 0x1e
            ||| position is Backslash && code == 0x2a
            ||| position is Semicolon && code == 0x29
            ||| position is Quote && code == 0x27
            ||| position is Backquote && code == 0x32
            ||| position is Comma && code == 0x2b
            ||| position is Period && code == 0x2f
            ||| position is Slash && code == 0x2c
        },
{
}

/// How every key is shown: letters as capitals, some keys by a symbol, the others
/// by their name, and keys without a name not at all.
pub proof fn keys_are_shown(code: u16, shown: Seq<char>)
    ensures
        (Shortcut { key_code: Some(code), mods: None }).shown() == shown && keys::key_name(
            code,
        ) is Some <==> {
            ||| code == 0x00 && shown == "A"@
            ||| code == 0x01 && shown == "S"@
            ||| code == 0x02 && shown == "D"@
            ||| code == 0x03 && shown == "F"@
            ||| code == 0x04 && shown == "H"@
            ||| code == 0x05 && shown == "G"@
            ||| code == 0x06 && shown == "Z"@
            ||| code == 0x07 && shown == "X"@
            ||| code == 0x08 && shown == "C"@
            ||| code == 0x09 && shown == "V"@
            ||| code == 0x0b && shown == "B"@
            ||| code == 0x0c && shown == "Q"@
            ||| code == 0x0d && shown == "W"@
            ||| code == 0x0e && shown == "E"@
            ||| code == 0x0f && shown == "R"@
            ||| code == 0x10 && shown == "Y"@
            ||| code == 0x11 && shown == "T"@
            ||| code == 0x1f && shown == "O"@
            ||| code == 0x20 && shown == "U"@
            ||| code == 0x22 && shown == "I"@
            ||| code == 0x23 && shown == "P"@
            ||| code == 0x25 && shown == "L"@
            ||| code == 0x26 && shown == "J"@
            ||| code == 0x28 && shown == "K"@
            ||| code == 0x2d && shown == "N"@
            ||| code == 0x2e && shown == "M"@
            ||| code == 0x12 && shown == "1"@
            ||| code == 0x13 && shown == "2"@
            ||| code == 0x14 && shown == "3"@
            ||| code == 0x15 && shown == "4"@
            ||| code == 0x17 && shown == "5"@
            ||| code == 0x16 && shown == "6"@
            ||| code == 0x1a && shown == "7"@
            ||| code == 0x1c && shown == "8"@
            ||| code == 0x19 && shown == "9"@
            ||| code == 0x1d && shown == "0"@
            ||| code == 0x24 && shown == "↩"@
            ||| code == 0x30 && shown == "tab"@
            ||| code == 0x31 && shown == "Space"@
            ||| code == 0x33 && shown == "⌫"@
            ||| code == 0x35 && shown == "⎋"@
            ||| code == 0x7b && shown == "←"@
            ||| code == 0x7c && shown == "→"@
            ||| code == 0x7d && shown == "↓"@
            ||| code == 0x7e && shown == "↑"@
            ||| code == 0x73 && shown == "home"@
            ||| code == 0x77 && shown == "end"@
            ||| code == 0x74 && shown == "pageup"@
            ||| code == 0x79 && shown == "pagedown"@
            ||| code == 0x7a && shown == "f1"@
            ||| code == 0x78 && shown == "f2"@
            ||| code == 0x63 && shown == "f3"@
            ||| code == 0x76 && shown == "f4"@
            ||| code == 0x60 && shown == "f5"@
            ||| code == 0x61 && shown == "f6"@
            ||| code == 0x62 && shown == "f7"@
            ||| code == 0x64 && shown == "f8"@
            ||| code == 0x65 && shown == "f9"@
            ||| code == 0x6d && shown == "f10"@
            ||| code == 0x67 && shown == "f11"@
            ||| code == 0x6f && shown == "f12"@
            ||| code == 0x1b && shown == "-"@
            ||| code == 0x18 && shown == "="@
            ||| code == 0x21 && shown == "["@
            ||| code == 0x1e && shown == "]"@
            ||| code == 0x2a && shown == "\\"@
            ||| code == 0x29 && shown == ";"@
            ||| code == 0x27 && shown == "'"@
            ||| code == 0x32 && shown == "`"@
            ||| code == 0x2b && shown == ","@
            ||| code == 0x2f && shown == "."@
            ||| code == 0x2c && shown == "/"@
        },
        keys::key_name(code) is None ==> (Shortcut { key_code: Some(code), mods: None }).shown()
            == Seq::<char>::empty(),
{
    keys::lemma_words();
    let key = Shortcut { key_code: Some(code), mods: None };
    assert(forall|flag: usize| 0usize & flag == 0) by (bit_vector);
    assert(shortcut::shown_modifiers(0) == Seq::<char>::empty());
    assert(key.shown() == (match keys::key_name(code) {
        Some(name) => shortcut::shown_key(name),
        None => Seq::empty(),
    }));
    match code {
        0x00 => {
            reveal_strlit("a");
            reveal_strlit("A");
            assert("a"@ == seq!['a']);
            assert("A"@ == seq!['A']);
        },
        0x01 => {
            reveal_strlit("s");
            reveal_strlit("S");
            assert("s"@ == seq!['s']);
            assert("S"@ == seq!['S']);
        },
        0x02 => {
            reveal_strlit("d");
            reveal_strlit("D");
            assert("d"@ == seq!['d']);
            assert("D"@ == seq!['D']);
        },
        0x03 => {
            reveal_strlit("f");
            reveal_strlit("F");
            assert("f"@ == seq!['f']);
            assert("F"@ == seq!['F']);
        },
        0x04 => {
            reveal_strlit("h");
            reveal_strlit("H");
            assert("h"@ == seq!['h']);
            assert("H"@ == seq!['H']);
        },
        0x05 => {
            reveal_strlit("g");
            reveal_strlit("G");
            assert("g"@ == seq!['g']);
            assert("G"@ == seq!['G']);
        },
        0x06 => {
            reveal_strlit("z");
            reveal_strlit("Z");
            assert("z"@ == seq!['z']);
            assert("Z"@ == seq!['Z']);
        },
        0x07 => {
            reveal_strlit("x");
            reveal_strlit("X");
            assert("x"@ == seq!['x']);
            assert("X"@ == seq!['X']);
        },
        0x08 => {
            reveal_strlit("c");
            reveal_strlit("C");
            assert("c"@ == seq!['c']);
            assert("C"@ == seq!['C']);
        },
        0x09 => {
            reveal_strlit("v");
            reveal_strlit("V");
            assert("v"@ == seq!['v']);
            assert("V"@ == seq!['V']);
        },
        0x0b => {
            reveal_strlit("b");
            reveal_strlit("B");
            assert("b"@ == seq!['b']);
            assert("B"@ == seq!['B']);
        },
        0x0c => {
            reveal_strlit("q");
            reveal_strlit("Q");
            assert("q"@ == seq!['q']);
            assert("Q"@ == seq!['Q']);
        },
        0x0d => {
            reveal_strlit("w");
            reveal_strlit("W");
            assert("w"@ == seq!['w']);
            assert("W"@ == seq!['W']);
        },
        0x0e => {
            reveal_strlit("e");
            reveal_strlit("E");
            assert("e"@ == seq!['e']);
            assert("E"@ == seq!['E']);
        },
        0x0f => {
            reveal_strlit("r");
            reveal_strlit("R");
            assert("r"@ == seq!['r']);
            assert("R"@ == seq!['R']);
        },
        0x10 => {
            reveal_strlit("y");
            reveal_strlit("Y");
            assert("y"@ == seq!['y']);
            assert("Y"@ == seq!['Y']);
        },
        0x11 => {
            reveal_strlit("t");
            reveal_strlit("T");
            assert("t"@ == seq!['t']);
            assert("T"@ == seq!['T']);
        },
        0x1f => {
            reveal_strlit("o");
            reveal_strlit("O");
            assert("o"@ == seq!['o']);
            assert("O"@ == seq!['O']);
        },
        0x20 => {
            reveal_strlit("u");
            reveal_strlit("U");
            assert("u"@ == seq!['u']);
            assert("U"@ == seq!['U']);
        },
        0x22 => {
            reveal_strlit("i");
            reveal_strlit("I");
            assert("i"@ == seq!['i']);
            assert("I"@ == seq!['I']);
        },
        0x23 => {
            reveal_strlit("p");
            reveal_strlit("P");
            assert("p"@ == seq!['p']);
            assert("P"@ == seq!['P']);
        },
        0x25 => {
            reveal_strlit("l");
            reveal_strlit("L");
            assert("l"@ == seq!['l']);
            assert("L"@ == seq!['L']);
        },
        0x26 => {
            reveal_strlit("j");
            reveal_strlit("J");
            assert("j"@ == seq!['j']);
            assert("J"@ == seq!['J']);
        },
        0x28 => {
            reveal_strlit("k");
            reveal_strlit("K");
            assert("k"@ == seq!['k']);
            assert("K"@ == seq!['K']);
        },
        0x2d => {
            reveal_strlit("n");
            reveal_strlit("N");
            assert("n"@ == seq!['n']);
            assert("N"@ == seq!['N']);
        },
        0x2e => {
            reveal_strlit("m");
            reveal_strlit("M");
            assert("m"@ == seq!['m']);
            assert("M"@ == seq!['M']);
        },
        0x12 => {
            reveal_strlit("1");
            assert("1"@ == seq!['1']);
        },
        0x13 => {
            reveal_strlit("2");
            assert("2"@ == seq!['2']);
        },
        0x14 => {
            reveal_strlit("3");
            assert("3"@ == seq!['3']);
        },
        0x15 => {
            reveal_strlit("4");
            assert("4"@ == seq!['4']);
        },
        0x17 => {
            reveal_strlit("5");
            assert("5"@ == seq!['5']);
        },
        0x16 => {
            reveal_strlit("6");
            assert("6"@ == seq!['6']);
        },
        0x1a => {
            reveal_strlit("7");
            assert("7"@ == seq!['7']);
        },
        0x1c => {
            reveal_strlit("8");
            assert("8"@ == seq!['8']);
        },
        0x19 => {
            reveal_strlit("9");
            assert("9"@ == seq!['9']);
        },
        0x1d => {
            reveal_strlit("0");
            assert("0"@ == seq!['0']);
        },
        0x24 => {
            reveal_strlit("↩");
            assert("↩"@.len() == 1);
            assert("↩"@[0] == '↩');
        },
        0x31 => {
            reveal_strlit("Space");
            assert("Space"@.len() == 5);
        },
        0x33 => {
            reveal_strlit("⌫");
            assert("⌫"@.len() == 1);
            assert("⌫"@[0] == '⌫');
        },
        0x35 => {
            reveal_strlit("⎋");
            assert("⎋"@.len() == 1);
            assert("⎋"@[0] == '⎋');
        },
        0x7b => {
            reveal_strlit("←");
            assert("←"@.len() == 1);
            assert("←"@[0] == '←');
        },
        0x7c => {
            reveal_strlit("→");
            assert("→"@.len() == 1);
            assert("→"@[0] == '→');
        },
        0x7d => {
            reveal_strlit("↓");
            assert("↓"@.len() == 1);
            assert("↓"@[0] == '↓');
        },
        0x7e => {
            reveal_strlit("↑");
            assert("↑"@.len() == 1);
            assert("↑"@[0] == '↑');
        },
        0x1b => {
            reveal_strlit("-");
            assert("-"@ == seq!['-']);
        },
        0x18 => {
            reveal_strlit("=");
            assert("="@ == seq!['=']);
        },
        0x21 => {
            reveal_strlit("[");
            assert("["@ == seq!['[']);
        },
        0x1e => {
            reveal_strlit("]");
            assert("]"@ == seq![']']);
        },
        0x2a => {
            reveal_strlit("\\");
            assert("\\"@ == seq!['\\']);
        },
        0x29 => {
            reveal_strlit(";");
            assert(";"@ == seq![';']);
        },
        0x27 => {
            reveal_strlit("'");
            assert("'"@ == seq!['\'']);
        },
        0x32 => {
            reveal_strlit("`");
            assert("`"@ == seq!['`']);
        },
        0x2b => {
            reveal_strlit(",");
            assert(","@ == seq![',']);
        },
        0x2f => {
            reveal_strlit(".");
            assert("."@ == seq!['.']);
        },
        0x2c => {
            reveal_strlit("/");
            assert("/"@ == seq!['/']);
        },
        _ => {},
    }
}

/// What is said of a name that no key has, and of a string that names more than one
/// key, quotes it as it is.
pub proof fn errors_quote_what_is_wrong(name: Seq<char>)
    ensures
        keys::unknown_key_message(name) == "Unknown key: '"@ + name + "'"@,
        shortcut::multiple_keys_message(name) == "Multiple keys specified: '"@ + name + "'"@,
{
}

} // verus!
