//! Keyboard shortcuts: reading them from a configuration, writing them back,
//! showing them, and recording them from the keyboard.

use crate::keys;
use crate::keys::Code;
use crate::text;
use vstd::prelude::*;
use vstd::string::*;

verus! {

/// The flag of the caps lock key in `Shortcut::mods`.
pub const CAPS_LOCK: usize = 0x1_0000;

/// The flag of the shift keys in `Shortcut::mods`.
pub const SHIFT: usize = 0x2_0000;

/// The flag of the control keys in `Shortcut::mods`.
pub const CONTROL: usize = 0x4_0000;

/// The flag of the option keys in `Shortcut::mods`.
pub const OPTION: usize = 0x8_0000;

/// The flag of the command keys in `Shortcut::mods`.
pub const COMMAND: usize = 0x10_0000;

/// The flag of the function key in `Shortcut::mods`.
pub const FUNCTION: usize = 0x80_0000;

/// A key together with the modifier keys that are held down with it.
#[derive(Debug, Clone, PartialEq, Eq, Hash, Structural)]
pub struct Shortcut {
    /// The virtual key code.
    pub key_code: Option<u16>,
    /// The flags of the modifier keys.
    pub mods: Option<usize>,
}

/// A physical key as the window system reports it.
#[derive(Debug, Clone, Copy, PartialEq, Eq, Hash)]
pub enum Physical {
    /// A key at a known position.
    Code(Code),
    /// A key that has no known position.
    Unidentified,
}

/// The modifier keys that the window system reports as held down.
#[derive(Debug, Clone, Copy, PartialEq, Eq, Hash)]
pub struct Modifiers {
    pub logo: bool,
    pub alt: bool,
    pub control: bool,
    pub shift: bool,
}

/// The flag of the modifier key with the given name.
pub open spec fn modifier_flag(name: Seq<char>) -> Option<usize> {
    if name == "cmd"@ || name == "command"@ || name == "super"@ {
        Some(COMMAND)
    } else if name == "opt"@ || name == "option"@ || name == "alt"@ {
        Some(OPTION)
    } else if name == "capslock"@ || name == "caps"@ || name == "caps lock"@ {
        Some(CAPS_LOCK)
    } else if name == "ctrl"@ || name == "control"@ {
        Some(CONTROL)
    } else if name == "shift"@ {
        Some(SHIFT)
    } else if name == "fn"@ || name == "function"@ {
        Some(FUNCTION)
    } else {
        None
    }
}

fn str_to_modifier(name: &str) -> (flag: Option<usize>)
    ensures
        flag == modifier_flag(name@),
{
    if text::same(name, "cmd") || text::same(name, "command") || text::same(name, "super") {
        Some(COMMAND)
    } else if text::same(name, "opt") || text::same(name, "option") || text::same(name, "alt") {
        Some(OPTION)
    } else if text::same(name, "capslock") || text::same(name, "caps") || text::same(
        name,
        "caps lock",
    ) {
        Some(CAPS_LOCK)
    } else if text::same(name, "ctrl") || text::same(name, "control") {
        Some(CONTROL)
    } else if text::same(name, "shift") {
        Some(SHIFT)
    } else if text::same(name, "fn") || text::same(name, "function") {
        Some(FUNCTION)
    } else {
        None
    }
}

/// The names in a shortcut: its parts between the plus signs, without the white
/// space around them, in lower case.
pub open spec fn names_of(s: Seq<char>) -> Seq<Seq<char>> {
    text::split(s, '+').map_values(|part: Seq<char>| text::lowercase(text::trimmed(part)))
}

/// The names that are not those of a modifier key.
pub open spec fn keys_of(names: Seq<Seq<char>>) -> Seq<Seq<char>> {
    names.filter(|name: Seq<char>| modifier_flag(name) is None)
}

/// The flags of all the modifier keys that are named, taken together.
pub open spec fn flags_of(names: Seq<Seq<char>>) -> usize
    decreases names.len(),
{
    if names.len() == 0 {
        0
    } else {
        match modifier_flag(names.last()) {
            Some(flag) => flags_of(names.drop_last()) | flag,
            None => flags_of(names.drop_last()),
        }
    }
}

/// Whether a name is that of a modifier key that makes a shortcut a modified one.
/// Caps lock does not.
pub open spec fn is_held(name: Seq<char>) -> bool {
    modifier_flag(name) is Some && modifier_flag(name) != Some(CAPS_LOCK)
}

/// Whether a modifier key other than caps lock is named.
pub open spec fn has_modifiers(names: Seq<Seq<char>>) -> bool {
    exists|i: int| 0 <= i < names.len() && is_held(#[trigger] names[i])
}

/// What is said of a shortcut that names more than one key.
pub open spec fn multiple_keys_message(s: Seq<char>) -> Seq<char> {
    "Multiple keys specified: '"@ + s + "'"@
}

/// What a string says as a shortcut: the shortcut, or what is wrong with it.
pub open spec fn parsed(s: Seq<char>) -> Result<Shortcut, Seq<char>> {
    let names = names_of(s);
    let keys = keys_of(names);
    if keys.len() > 0 && keys::key_code(text::lowercase(keys[0])) is None {
        Err(keys::unknown_key_message(keys[0]))
    } else if keys.len() > 1 {
        Err(multiple_keys_message(s))
    } else {
        Ok(
            Shortcut {
                key_code: if keys.len() > 0 {
                    keys::key_code(text::lowercase(keys[0]))
                } else {
                    None
                },
                mods: if has_modifiers(names) {
                    Some(flags_of(names))
                } else {
                    None
                },
            },
        )
    }
}

/// The flags of the modifier keys that are held down.
pub open spec fn held_flags(modifiers: Modifiers) -> usize {
    (if modifiers.logo {
        COMMAND
    } else {
        0
    }) | (if modifiers.alt {
        OPTION
    } else {
        0
    }) | (if modifiers.control {
        CONTROL
    } else {
        0
    }) | (if modifiers.shift {
        SHIFT
    } else {
        0
    })
}

/// The shortcut that is recorded when a key is pressed: none for a key without a
/// key code, and none without a modifier key.
pub open spec fn recorded(physical_key: Physical, modifiers: Modifiers) -> Option<Shortcut> {
    match physical_key {
        Physical::Unidentified => None,
        Physical::Code(code) => match keys::position_code(code) {
            None => None,
            Some(key_code) => if modifiers.logo || modifiers.alt || modifiers.control
                || modifiers.shift {
                Some(
                    Shortcut { key_code: Some(key_code), mods: Some(held_flags(modifiers)) },
                )
            } else {
                None
            },
        },
    }
}

/// The list with `name` at its end where `flag` is among the flags.
pub open spec fn with_modifier(
    parts: Seq<Seq<char>>,
    mods: usize,
    flag: usize,
    name: Seq<char>,
) -> Seq<Seq<char>> {
    if mods & flag != 0 {
        parts.push(name)
    } else {
        parts
    }
}

/// The names of the modifier keys of a shortcut as a configuration has them.
pub open spec fn modifier_names(mods: usize) -> Seq<Seq<char>> {
    let command = with_modifier(Seq::empty(), mods, COMMAND, "cmd"@);
    let option = with_modifier(command, mods, OPTION, "option"@);
    let control = with_modifier(option, mods, CONTROL, "ctrl"@);
    with_modifier(control, mods, SHIFT, "shift"@)
}

/// `symbol` where `flag` is among the flags, else nothing.
pub open spec fn modifier_symbol(mods: usize, flag: usize, symbol: Seq<char>) -> Seq<char> {
    if mods & flag != 0 {
        symbol
    } else {
        Seq::empty()
    }
}

/// How the modifier keys of a shortcut are shown.
pub open spec fn shown_modifiers(mods: usize) -> Seq<char> {
    modifier_symbol(mods, COMMAND, "⌘"@) + modifier_symbol(mods, OPTION, "⌥"@)
        + modifier_symbol(mods, CONTROL, "⌃"@) + modifier_symbol(mods, SHIFT, "⇧"@)
}

/// The symbol of a key with the given name; the name itself where it has none.
pub open spec fn key_symbol(name: Seq<char>) -> Seq<char> {
    if name == "return"@ {
        "↩"@
    } else if name == "space"@ {
        "Space"@
    } else if name == "delete"@ {
        "⌫"@
    } else if name == "escape"@ {
        "⎋"@
    } else if name == "left"@ {
        "←"@
    } else if name == "right"@ {
        "→"@
    } else if name == "down"@ {
        "↓"@
    } else if name == "up"@ {
        "↑"@
    } else {
        name
    }
}

/// The ASCII letters.
pub open spec fn is_letter(c: char) -> bool {
    'a' <= c <= 'z' || 'A' <= c <= 'Z'
}

/// How a key with the given name is shown: by its symbol, in upper case where
/// that is one letter.
pub open spec fn shown_key(name: Seq<char>) -> Seq<char> {
    let symbol = key_symbol(name);
    if symbol.len() == 1 && is_letter(symbol[0]) {
        seq![text::ascii_uppercase(symbol[0])]
    } else {
        symbol
    }
}

fn name_to_symbol<'a>(name: &'a str) -> (symbol: &'a str)
    ensures
        symbol@ == key_symbol(name@),
{
    if text::same(name, "return") {
        "↩"
    } else if text::same(name, "space") {
        "Space"
    } else if text::same(name, "delete") {
        "⌫"
    } else if text::same(name, "escape") {
        "⎋"
    } else if text::same(name, "left") {
        "←"
    } else if text::same(name, "right") {
        "→"
    } else if text::same(name, "down") {
        "↓"
    } else if text::same(name, "up") {
        "↑"
    } else {
        name
    }
}

impl Shortcut {
    /// How the shortcut is shown.
    pub open spec fn shown(self) -> Seq<char> {
        shown_modifiers(self.flags()) + match self.name() {
            Some(name) => shown_key(name),
            None => Seq::empty(),
        }
    }

    /// The flags of the modifier keys; none where there are no modifier keys.
    pub open spec fn flags(self) -> usize {
        match self.mods {
            Some(mods) => mods,
            None => 0,
        }
    }

    /// The name of the key; `None` where there is no key, or none with a name.
    pub open spec fn name(self) -> Option<Seq<char>> {
        match self.key_code {
            Some(code) => keys::key_name(code),
            None => None,
        }
    }

    /// The names of a shortcut as a configuration has them.
    pub open spec fn config_parts(self) -> Seq<Seq<char>> {
        match self.name() {
            Some(name) => modifier_names(self.flags()).push(name),
            None => modifier_names(self.flags()),
        }
    }

    /// A shortcut with the given key code and modifier flags.
    pub fn new(key_code: Option<u16>, mods: Option<usize>) -> (shortcut: Self)
        ensures
            shortcut == (Shortcut { key_code, mods }),
    {
        Self { key_code, mods }
    }

    /// Reads a shortcut such as `cmd+shift+k`.
    pub fn parse(s: &str) -> (shortcut: Result<Shortcut, String>)
        ensures
            match shortcut {
                Ok(value) => parsed(s@) == Ok::<Shortcut, Seq<char>>(value),
                Err(message) => parsed(s@) == Err::<Shortcut, Seq<char>>(message@),
            },
    {
        let parts = text::split_str(s, '+');
        let mut mods: usize = 0;
        let mut has_mods: bool = false;
        let mut key: Option<String> = None;
        let mut more_keys: bool = false;
        let ghost names = names_of(s@);
        let mut i: usize = 0;
        reveal(Seq::filter);
        while i < parts.len()
            invariant
                text::views(parts@) == text::split(s@, '+'),
                names == names_of(s@),
                i <= parts@.len() == names.len(),
                mods == flags_of(names.take(i as int)),
                has_mods == has_modifiers(names.take(i as int)),
                match key {
                    Some(k) => {
                        &&& keys_of(names.take(i as int)).len() > 0
                        &&& keys_of(names.take(i as int))[0] == k@
                    },
                    None => keys_of(names.take(i as int)).len() == 0,
                },
                more_keys == (keys_of(names.take(i as int)).len() > 1),
            decreases parts@.len() - i,
        {
            let name: String = text::trim(parts[i]).to_lowercase();
            let ghost before = names.take(i as int);
            let ghost now = names.take(i + 1);
            assert(text::views(parts@)[i as int] == parts@[i as int]@);
            assert(name@ == names[i as int]);
            assert(now.drop_last() == before);
            assert(now == before.push(name@));
            proof {
                reveal(Seq::filter);
                lemma_has_modifiers_push(before, name@);
            }
            match str_to_modifier(name.as_str()) {
                Some(flag) => {
                    mods = mods | flag;
                    if flag != CAPS_LOCK {
                        has_mods = true;
                    }
                },
                None => {
                    if key.is_some() {
                        more_keys = true;
                    } else {
                        key = Some(name);
                    }
                },
            }
            i = i + 1;
        }
        assert(names.take(i as int) == names);
        let key_code: Option<u16> = match key {
            Some(name) => match keys::str_to_keycode(name.as_str()) {
                Ok(code) => Some(code),
                Err(message) => {
                    return Err(message);
                },
            },
            None => None,
        };
        if more_keys {
            let mut message: String = String::new();
            message.append("Multiple keys specified: '");
            message.append(s);
            message.append("'");
            assert(message@ == multiple_keys_message(s@));
            return Err(message);
        }
        Ok(
            Shortcut::new(
                key_code,
                if has_mods {
                    Some(mods)
                } else {
                    None
                },
            ),
        )
    }

    /// The shortcut that is recorded when a key is pressed while modifier keys are
    /// held down.
    pub fn from_iced(physical_key: Physical, modifiers: Modifiers) -> (shortcut: Option<Self>)
        ensures
            shortcut == recorded(physical_key, modifiers),
    {
        let code: Code = match physical_key {
            Physical::Code(code) => code,
            Physical::Unidentified => {
                return None;
            },
        };
        let key_code: u16 = match keys::code_to_keycode(code) {
            Some(key_code) => key_code,
            None => {
                return None;
            },
        };
        let mut mods: usize = 0;
        if modifiers.logo {
            mods = mods | COMMAND;
        }
        if modifiers.alt {
            mods = mods | OPTION;
        }
        if modifiers.control {
            mods = mods | CONTROL;
        }
        if modifiers.shift {
            mods = mods | SHIFT;
        }
        proof {
            lemma_held_flags(modifiers, mods);
        }
        if mods == 0 {
            return None;
        }
        Some(Self::new(Some(key_code), Some(mods)))
    }

    /// The shortcut as a configuration has it.
    pub fn to_config_string(&self) -> (config: String)
        ensures
            config@ == text::joined(self.config_parts(), '+'),
    {
        let mut parts: Vec<&str> = Vec::new();
        let mods: usize = match self.mods {
            Some(mods) => mods,
            None => 0,
        };
        assert(text::views(parts@) == Seq::<Seq<char>>::empty());
        if mods & COMMAND != 0 {
            push_part(&mut parts, "cmd");
        }
        if mods & OPTION != 0 {
            push_part(&mut parts, "option");
        }
        if mods & CONTROL != 0 {
            push_part(&mut parts, "ctrl");
        }
        if mods & SHIFT != 0 {
            push_part(&mut parts, "shift");
        }
        if let Some(code) = self.key_code {
            if let Some(name) = keys::keycode_to_name(code) {
                push_part(&mut parts, name);
            }
        }
        text::join_with_plus(&parts)
    }

    /// The shortcut as it is shown to the user.
    pub fn display_string(&self) -> (display: String)
        ensures
            display@ == self.shown(),
    {
        let mut display: String = String::new();
        let mods: usize = match self.mods {
            Some(mods) => mods,
            None => 0,
        };
        if mods & COMMAND != 0 {
            display.append("⌘");
        }
        assert(display@ == modifier_symbol(mods, COMMAND, "⌘"@));
        let ghost command = display@;
        if mods & OPTION != 0 {
            display.append("⌥");
        }
        assert(display@ == command + modifier_symbol(mods, OPTION, "⌥"@));
        let ghost option = display@;
        if mods & CONTROL != 0 {
            display.append("⌃");
        }
        assert(display@ == option + modifier_symbol(mods, CONTROL, "⌃"@));
        let ghost control = display@;
        if mods & SHIFT != 0 {
            display.append("⇧");
        }
        assert(display@ == control + modifier_symbol(mods, SHIFT, "⇧"@));
        assert(display@ == shown_modifiers(mods));
        if let Some(code) = self.key_code {
            if let Some(name) = keys::keycode_to_name(code) {
                let key: &str = name_to_symbol(name);
                let chars = text::chars_of(key);
                if chars.len() == 1 && (('a' <= chars[0] && chars[0] <= 'z') || ('A' <= chars[0]
                    && chars[0] <= 'Z')) {
                    let upper: String = key.to_ascii_uppercase();
                    assert(upper@ == shown_key(name@));
                    display.append(upper.as_str());
                } else {
                    display.append(key);
                }
                return display;
            }
        }
        assert(display@ == self.shown());
        display
    }
}

fn push_part<'a>(parts: &mut Vec<&'a str>, part: &'a str)
    ensures
        text::views(final(parts)@) == text::views(old(parts)@).push(part@),
{
    parts.push(part);
    assert(text::views(parts@) == text::views(old(parts)@).push(part@));
}

/// One more name adds the modifiers that it names.
pub proof fn lemma_has_modifiers_push(names: Seq<Seq<char>>, name: Seq<char>)
    ensures
        has_modifiers(names.push(name)) == (has_modifiers(names) || is_held(name)),
{
    let longer = names.push(name);
    if has_modifiers(names) {
        let i = choose|i: int| 0 <= i < names.len() && is_held(#[trigger] names[i]);
        assert(longer[i] == names[i]);
    }
    if is_held(name) {
        assert(longer[names.len() as int] == name);
    }
    if has_modifiers(longer) {
        let i = choose|i: int| 0 <= i < longer.len() && is_held(#[trigger] longer[i]);
        if i < names.len() {
            assert(longer[i] == names[i]);
        }
    }
}

proof fn lemma_held_flags(modifiers: Modifiers, mods: usize)
    requires
        mods == ({
            let a: usize = if modifiers.logo {
                0 | COMMAND
            } else {
                0
            };
            let b: usize = if modifiers.alt {
                a | OPTION
            } else {
                a
            };
            let c: usize = if modifiers.control {
                b | CONTROL
            } else {
                b
            };
            if modifiers.shift {
                c | SHIFT
            } else {
                c
            }
        }),
    ensures
        mods == held_flags(modifiers),
        mods == 0 <==> !(modifiers.logo || modifiers.alt || modifiers.control || modifiers.shift),
{
    let logo = modifiers.logo;
    let alt = modifiers.alt;
    let control = modifiers.control;
    let shift = modifiers.shift;
    assert({
        let a: usize = if logo {
            0usize | 0x10_0000usize
        } else {
            0
        };
        let b: usize = if alt {
            a | 0x8_0000usize
        } else {
            a
        };
        let c: usize = if control {
            b | 0x4_0000usize
        } else {
            b
        };
        let d: usize = if shift {
            c | 0x2_0000usize
        } else {
            c
        };
        &&& d == (if logo {
            0x10_0000usize
        } else {
            0
        }) | (if alt {
            0x8_0000usize
        } else {
            0
        }) | (if control {
            0x4_0000usize
        } else {
            0
        }) | (if shift {
            0x2_0000usize
        } else {
            0
        })
        &&& (d == 0 <==> !(logo || alt || control || shift))
    }) by (bit_vector);
}

} // verus!
