//! What holds of shortcuts as a whole.

use crate::keys;
use crate::shortcut;
use crate::shortcut::{
    Modifiers, Physical, Shortcut, CAPS_LOCK, COMMAND, CONTROL, FUNCTION, OPTION, SHIFT,
};
use crate::text;
use vstd::prelude::*;
use vstd::string::*;
use vstd::utf8::*;

verus! {

/// The modifier flags that a configuration keeps.
pub open spec fn config_flags() -> usize {
    COMMAND | OPTION | CONTROL | SHIFT
}

/// The shortcuts that a configuration keeps whole: the key, where there is one,
/// has a name; the modifier flags, where there are any, are not all clear and
/// name no key but command, option, control and shift; and there is a key or a
/// modifier.
pub open spec fn has_config(shortcut: Shortcut) -> bool {
    &&& shortcut.key_code is Some ==> shortcut.name() is Some
    &&& match shortcut.mods {
        Some(mods) => mods != 0 && mods & !config_flags() == 0,
        None => shortcut.key_code is Some,
    }
}

proof fn lemma_modifier_words()
    ensures
        shortcut::modifier_flag("cmd"@) == Some(COMMAND),
        shortcut::modifier_flag("option"@) == Some(OPTION),
        shortcut::modifier_flag("ctrl"@) == Some(CONTROL),
        shortcut::modifier_flag("shift"@) == Some(SHIFT),
        keys::is_plain_name("cmd"@),
        keys::is_plain_name("option"@),
        keys::is_plain_name("ctrl"@),
        keys::is_plain_name("shift"@),
{
    reveal_strlit("cmd");
    reveal_strlit("command");
    reveal_strlit("super");
    reveal_strlit("opt");
    reveal_strlit("option");
    reveal_strlit("alt");
    reveal_strlit("capslock");
    reveal_strlit("caps");
    reveal_strlit("caps lock");
    reveal_strlit("ctrl");
    reveal_strlit("control");
    reveal_strlit("shift");
    assert("cmd"@[0] == 'c');
    assert("option"@[0] == 'o');
    assert("ctrl"@[0] == 'c' && "ctrl"@[1] == 't');
    assert("shift"@[0] == 's' && "shift"@[1] == 'h');
    assert("command"@[0] == 'c');
    assert("super"@[0] == 's' && "super"@[1] == 'u');
    assert("capslock"@[0] == 'c');
    assert("caps"@[0] == 'c' && "caps"@[1] == 'a');
    assert("control"@[0] == 'c');
}

/// No key has the name of a modifier key.
pub proof fn key_names_are_no_modifiers(code: u16)
    requires
        keys::key_name(code) is Some,
    ensures
        shortcut::modifier_flag(keys::key_name(code)->0) is None,
{
    let name = keys::key_name(code)->0;
    keys::key_names_read_back(code);
    keys::lemma_words();
    reveal_strlit("cmd");
    reveal_strlit("command");
    reveal_strlit("super");
    reveal_strlit("opt");
    reveal_strlit("option");
    reveal_strlit("alt");
    reveal_strlit("capslock");
    reveal_strlit("caps");
    reveal_strlit("caps lock");
    reveal_strlit("ctrl");
    reveal_strlit("control");
    reveal_strlit("shift");
    reveal_strlit("fn");
    reveal_strlit("function");
    assert("cmd"@[0] == 'c' && "cmd"@[1] == 'm');
    assert("command"@[0] == 'c' && "command"@[1] == 'o');
    assert("super"@[0] == 's' && "super"@[1] == 'u');
    assert("opt"@[0] == 'o');
    assert("option"@[0] == 'o');
    assert("alt"@[0] == 'a' && "alt"@[1] == 'l');
    assert("capslock"@[0] == 'c' && "capslock"@[1] == 'a');
    assert("caps"@[0] == 'c' && "caps"@[1] == 'a');
    assert("caps lock"@[0] == 'c' && "caps lock"@[1] == 'a');
    assert("ctrl"@[0] == 'c' && "ctrl"@[1] == 't');
    assert("control"@[0] == 'c' && "control"@[1] == 'o');
    assert("shift"@[0] == 's' && "shift"@[1] == 'h');
    assert("fn"@[0] == 'f' && "fn"@[1] == 'n');
    assert("function"@[0] == 'f' && "function"@[1] == 'u');
}

proof fn lemma_plain_names_stay(parts: Seq<Seq<char>>)
    requires
        parts.len() > 0,
        forall|i: int| 0 <= i < parts.len() ==> keys::is_plain_name(#[trigger] parts[i]),
    ensures
        shortcut::names_of(text::joined(parts, '+')) == parts,
{
    assert forall|i: int| 0 <= i < parts.len() implies !#[trigger] parts[i].contains('+') by {
        text::plain_strings_stay(parts[i]);
    }
    text::split_of_joined(parts, '+');
    let names = shortcut::names_of(text::joined(parts, '+'));
    assert forall|i: int| 0 <= i < parts.len() implies names[i] == parts[i] by {
        assert(keys::is_plain_name(parts[i]));
        text::plain_strings_stay(parts[i]);
    }
    assert(names == parts);
}

proof fn lemma_with_modifier(
    parts: Seq<Seq<char>>,
    mods: usize,
    flag: usize,
    name: Seq<char>,
)
    requires
        shortcut::modifier_flag(name) == Some(flag),
        flag != CAPS_LOCK,
        keys::is_plain_name(name),
        forall|i: int| 0 <= i < parts.len() ==> keys::is_plain_name(#[trigger] parts[i]),
    ensures
        ({
            let longer = shortcut::with_modifier(parts, mods, flag, name);
            &&& shortcut::flags_of(longer) == shortcut::flags_of(parts) | (if mods & flag != 0 {
                flag
            } else {
                0
            })
            &&& shortcut::has_modifiers(longer) == (shortcut::has_modifiers(parts) || mods & flag != 0)
            &&& shortcut::keys_of(longer) == shortcut::keys_of(parts)
            &&& forall|i: int| 0 <= i < longer.len() ==> keys::is_plain_name(#[trigger] longer[i])
        }),
{
    let longer = parts.push(name);
    assert(longer.drop_last() == parts);
    reveal(Seq::filter);
    shortcut::lemma_has_modifiers_push(parts, name);
    let flags = shortcut::flags_of(parts);
    assert(flags | 0 == flags) by (bit_vector);
}

proof fn lemma_modifier_names(mods: usize)
    ensures
        ({
            let names = shortcut::modifier_names(mods);
            &&& shortcut::flags_of(names) == mods & config_flags()
            &&& shortcut::has_modifiers(names) == (mods & config_flags() != 0)
            &&& shortcut::keys_of(names) == Seq::<Seq<char>>::empty()
            &&& forall|i: int| 0 <= i < names.len() ==> keys::is_plain_name(#[trigger] names[i])
        }),
{
    lemma_modifier_words();
    reveal(Seq::filter);
    let none = Seq::<Seq<char>>::empty();
    let command = shortcut::with_modifier(none, mods, COMMAND, "cmd"@);
    let option = shortcut::with_modifier(command, mods, OPTION, "option"@);
    let control = shortcut::with_modifier(option, mods, CONTROL, "ctrl"@);
    lemma_with_modifier(none, mods, COMMAND, "cmd"@);
    lemma_with_modifier(command, mods, OPTION, "option"@);
    lemma_with_modifier(option, mods, CONTROL, "ctrl"@);
    lemma_with_modifier(control, mods, SHIFT, "shift"@);
    assert({
        let all = 0x10_0000usize | 0x8_0000usize | 0x4_0000usize | 0x2_0000usize;
        &&& (0usize | (if mods & 0x10_0000usize != 0 {
            0x10_0000usize
        } else {
            0
        }) | (if mods & 0x8_0000usize != 0 {
            0x8_0000usize
        } else {
            0
        }) | (if mods & 0x4_0000usize != 0 {
            0x4_0000usize
        } else {
            0
        }) | (if mods & 0x2_0000usize != 0 {
            0x2_0000usize
        } else {
            0
        })) == mods & all
        &&& (mods & all != 0) == (mods & 0x10_0000usize != 0 || mods & 0x8_0000usize != 0 || mods
            & 0x4_0000usize != 0 || mods & 0x2_0000usize != 0)
    }) by (bit_vector);
}

/// Reading a shortcut undoes writing it: what a configuration says of a shortcut
/// that it keeps whole reads as that shortcut.
pub proof fn config_reads_back(shortcut: Shortcut)
    requires
        has_config(shortcut),
    ensures
        shortcut::parsed(text::joined(shortcut.config_parts(), '+')) == Ok::<Shortcut, Seq<char>>(shortcut),
{
    let mods = shortcut.flags();
    let names = shortcut::modifier_names(mods);
    let parts = shortcut.config_parts();
    lemma_modifier_names(mods);
    assert({
        let all = 0x10_0000usize | 0x8_0000usize | 0x4_0000usize | 0x2_0000usize;
        mods & !all == 0 ==> mods & all == mods
    }) by (bit_vector);
    assert(0usize & !config_flags() == 0) by (bit_vector);
    reveal(Seq::filter);
    match shortcut.name() {
        Some(name) => {
            let code = shortcut.key_code->0;
            keys::key_names_read_back(code);
            key_names_are_no_modifiers(code);
            text::plain_strings_stay(name);
            shortcut::lemma_has_modifiers_push(names, name);
            assert(parts.drop_last() == names);
            assert(shortcut::keys_of(parts) == seq![name]);
        },
        None => {
            if names.len() == 0 {
                assert(shortcut::flags_of(names) == 0);
            }
        },
    }
    lemma_plain_names_stay(parts);
}

/// A shortcut that is recorded from the keyboard is written to a configuration
/// in such a way that it reads back.
pub proof fn recorded_shortcut_reads_back(physical_key: Physical, modifiers: Modifiers)
    requires
        shortcut::recorded(physical_key, modifiers) is Some,
    ensures
        ({
            let kept = shortcut::recorded(physical_key, modifiers)->0;
            shortcut::parsed(text::joined(kept.config_parts(), '+')) == Ok::<Shortcut, Seq<char>>(
                kept,
            )
        }),
{
    let kept = shortcut::recorded(physical_key, modifiers)->0;
    keys::positions_are_named(physical_key->Code_0);
    let logo = modifiers.logo;
    let alt = modifiers.alt;
    let control = modifiers.control;
    let shift = modifiers.shift;
    assert({
        let flags = (if logo {
            0x10_0000usize
        } else {
            0
        }) | (if alt {
            0x8_0000usize
        } else {
            0
        }) | (if control {
            0x4_0000usize
        } else {
            0
        }) | (if shift {
            0x2_0000usize
        } else {
            0
        });
        &&& flags & !(0x10_0000usize | 0x8_0000usize | 0x4_0000usize | 0x2_0000usize) == 0
        &&& (logo || alt || control || shift) ==> flags != 0
    }) by (bit_vector);
    config_reads_back(kept);
}

/// A shortcut that a configuration does not keep whole reads back as another
/// one, or as none.
pub proof fn other_shortcuts_do_not_read_back(shortcut: Shortcut)
    requires
        !has_config(shortcut),
    ensures
        shortcut::parsed(text::joined(shortcut.config_parts(), '+')) != Ok::<Shortcut, Seq<char>>(shortcut),
{
    let mods = shortcut.flags();
    let names = shortcut::modifier_names(mods);
    let parts = shortcut.config_parts();
    lemma_modifier_names(mods);
    assert({
        let all = 0x10_0000usize | 0x8_0000usize | 0x4_0000usize | 0x2_0000usize;
        mods & all == mods ==> mods & !all == 0
    }) by (bit_vector);
    assert(forall|flag: usize| 0usize & flag == 0) by (bit_vector);
    reveal(Seq::filter);
    match shortcut.name() {
        Some(name) => {
            let code = shortcut.key_code->0;
            keys::key_names_read_back(code);
            key_names_are_no_modifiers(code);
            shortcut::lemma_has_modifiers_push(names, name);
            assert(parts.drop_last() == names);
            lemma_plain_names_stay(parts);
        },
        None => {
            if names.len() == 0 {
                lemma_empty_string();
            } else {
                lemma_plain_names_stay(parts);
            }
        },
    }
}

proof fn lemma_empty_string()
    ensures
        shortcut::parsed(Seq::empty()) is Err,
{
    let none = Seq::<char>::empty();
    text::plain_strings_stay(none);
    assert(shortcut::names_of(none) == seq![none]);
    lemma_modifier_words();
    lemma_no_modifier_is_empty();
    keys::lemma_words();
    reveal(Seq::filter);
    assert(seq![none].drop_last() == Seq::<Seq<char>>::empty());
    assert(shortcut::keys_of(seq![none]) == seq![none]);
}

proof fn lemma_no_modifier_is_empty()
    ensures
        shortcut::modifier_flag(Seq::empty()) is None,
{
    reveal_strlit("cmd");
    reveal_strlit("command");
    reveal_strlit("super");
    reveal_strlit("opt");
    reveal_strlit("option");
    reveal_strlit("alt");
    reveal_strlit("capslock");
    reveal_strlit("caps");
    reveal_strlit("caps lock");
    reveal_strlit("ctrl");
    reveal_strlit("control");
    reveal_strlit("shift");
    reveal_strlit("fn");
    reveal_strlit("function");
    assert("cmd"@.len() > 0 && "command"@.len() > 0 && "super"@.len() > 0 && "opt"@.len() > 0
        && "option"@.len() > 0 && "alt"@.len() > 0 && "capslock"@.len() > 0 && "caps"@.len() > 0
        && "caps lock"@.len() > 0 && "ctrl"@.len() > 0 && "control"@.len() > 0 && "shift"@.len() > 0
        && "fn"@.len() > 0 && "function"@.len() > 0);
}

/// The flags that a modifier key can have.
pub open spec fn is_flag(flag: usize) -> bool {
    flag == CAPS_LOCK || flag == SHIFT || flag == CONTROL || flag == OPTION || flag == COMMAND
        || flag == FUNCTION
}

/// Whether a modifier key with the given flag is named.
pub open spec fn names_flag(names: Seq<Seq<char>>, flag: usize) -> bool {
    exists|i: int| 0 <= i < names.len() && shortcut::modifier_flag(#[trigger] names[i]) == Some(flag)
}

/// The flags of a list of names are those of the modifier keys that it names,
/// and no others.
pub proof fn flags_are_those_named(names: Seq<Seq<char>>, flag: usize)
    requires
        is_flag(flag),
    ensures
        (shortcut::flags_of(names) & flag != 0) == names_flag(names, flag),
        shortcut::flags_of(names) & !(CAPS_LOCK | SHIFT | CONTROL | OPTION | COMMAND | FUNCTION) == 0,
    decreases names.len(),
{
    if names.len() == 0 {
        assert(0usize & flag == 0) by (bit_vector);
        assert(0usize & !(0x1_0000usize | 0x2_0000usize | 0x4_0000usize | 0x8_0000usize
            | 0x10_0000usize | 0x80_0000usize) == 0) by (bit_vector);
    } else {
        let shorter = names.drop_last();
        flags_are_those_named(shorter, flag);
        let before = shortcut::flags_of(shorter);
        if names_flag(shorter, flag) {
            let i = choose|i: int|
                0 <= i < shorter.len() && shortcut::modifier_flag(#[trigger] shorter[i]) == Some(flag);
            assert(names[i] == shorter[i]);
        }
        if names_flag(names, flag) {
            let i = choose|i: int|
                0 <= i < names.len() && shortcut::modifier_flag(#[trigger] names[i]) == Some(flag);
            if i < shorter.len() {
                assert(names[i] == shorter[i]);
            }
        }
        assert(names.last() == names[names.len() - 1]);
        if let Some(added) = shortcut::modifier_flag(names.last()) {
            assert({
                &&& ((before | added) & flag != 0) == (before & flag != 0 || added == flag)
                &&& (before | added) & !(0x1_0000usize | 0x2_0000usize | 0x4_0000usize
                    | 0x8_0000usize | 0x10_0000usize | 0x80_0000usize) == 0
            }) by (bit_vector)
                requires
                    flag == 0x1_0000usize || flag == 0x2_0000usize || flag == 0x4_0000usize || flag
                        == 0x8_0000usize || flag == 0x10_0000usize || flag == 0x80_0000usize,
                    added == 0x1_0000usize || added == 0x2_0000usize || added == 0x4_0000usize
                        || added == 0x8_0000usize || added == 0x10_0000usize || added
                        == 0x80_0000usize,
                    before & !(0x1_0000usize | 0x2_0000usize | 0x4_0000usize | 0x8_0000usize
                        | 0x10_0000usize | 0x80_0000usize) == 0,
            ;
        }
    }
}

proof fn lemma_flags_of_same_names(a: Seq<Seq<char>>, b: Seq<Seq<char>>)
    requires
        forall|name: Seq<char>| a.contains(name) == b.contains(name),
    ensures
        shortcut::flags_of(a) == shortcut::flags_of(b),
        shortcut::has_modifiers(a) == shortcut::has_modifiers(b),
{
    assert forall|flag: usize| is_flag(flag) implies (#[trigger] (shortcut::flags_of(a) & flag) != 0) == (
    shortcut::flags_of(b) & flag != 0) by {
        flags_are_those_named(a, flag);
        flags_are_those_named(b, flag);
        if names_flag(a, flag) {
            let i = choose|i: int|
                0 <= i < a.len() && shortcut::modifier_flag(#[trigger] a[i]) == Some(flag);
            assert(a.contains(a[i]));
            let j = choose|j: int| 0 <= j < b.len() && b[j] == a[i];
            assert(shortcut::modifier_flag(b[j]) == Some(flag));
        }
        if names_flag(b, flag) {
            let i = choose|i: int|
                0 <= i < b.len() && shortcut::modifier_flag(#[trigger] b[i]) == Some(flag);
            assert(b.contains(b[i]));
            let j = choose|j: int| 0 <= j < a.len() && a[j] == b[i];
            assert(shortcut::modifier_flag(a[j]) == Some(flag));
        }
    }
    flags_are_those_named(a, SHIFT);
    flags_are_those_named(b, SHIFT);
    let x = shortcut::flags_of(a);
    let y = shortcut::flags_of(b);
    assert(is_flag(CAPS_LOCK) && is_flag(SHIFT) && is_flag(CONTROL) && is_flag(OPTION) && is_flag(
        COMMAND,
    ) && is_flag(FUNCTION));
    assert((x & CAPS_LOCK != 0) == (y & CAPS_LOCK != 0));
    assert((x & SHIFT != 0) == (y & SHIFT != 0));
    assert((x & CONTROL != 0) == (y & CONTROL != 0));
    assert((x & OPTION != 0) == (y & OPTION != 0));
    assert((x & COMMAND != 0) == (y & COMMAND != 0));
    assert((x & FUNCTION != 0) == (y & FUNCTION != 0));
    assert(x == y) by (bit_vector)
        requires
            (x & 0x1_0000usize != 0) == (y & 0x1_0000usize != 0),
            (x & 0x2_0000usize != 0) == (y & 0x2_0000usize != 0),
            (x & 0x4_0000usize != 0) == (y & 0x4_0000usize != 0),
            (x & 0x8_0000usize != 0) == (y & 0x8_0000usize != 0),
            (x & 0x10_0000usize != 0) == (y & 0x10_0000usize != 0),
            (x & 0x80_0000usize != 0) == (y & 0x80_0000usize != 0),
            x & !(0x1_0000usize | 0x2_0000usize | 0x4_0000usize | 0x8_0000usize | 0x10_0000usize
                | 0x80_0000usize) == 0,
            y & !(0x1_0000usize | 0x2_0000usize | 0x4_0000usize | 0x8_0000usize | 0x10_0000usize
                | 0x80_0000usize) == 0,
    ;
    if shortcut::has_modifiers(a) {
        let i = choose|i: int| 0 <= i < a.len() && shortcut::is_held(#[trigger] a[i]);
        assert(a.contains(a[i]));
        let j = choose|j: int| 0 <= j < b.len() && b[j] == a[i];
        assert(shortcut::is_held(b[j]));
    }
    if shortcut::has_modifiers(b) {
        let i = choose|i: int| 0 <= i < b.len() && shortcut::is_held(#[trigger] b[i]);
        assert(b.contains(b[i]));
        let j = choose|j: int| 0 <= j < a.len() && a[j] == b[i];
        assert(shortcut::is_held(a[j]));
    }
}

proof fn lemma_keys_count(names: Seq<Seq<char>>, name: Seq<char>)
    ensures
        shortcut::keys_of(names).to_multiset().count(name) == (if shortcut::modifier_flag(name) is None {
            names.to_multiset().count(name)
        } else {
            0
        }),
    decreases names.len(),
{
    reveal(Seq::filter);
    broadcast use vstd::seq_lib::group_to_multiset_ensures;

    if names.len() > 0 {
        let shorter = names.drop_last();
        lemma_keys_count(shorter, name);
        assert(names == shorter.push(names.last()));
    }
}

/// The order in which the parts of a shortcut stand does not matter: two strings
/// with the same names, each as often, say the same shortcut, or both say none.
pub proof fn order_does_not_matter(a: Seq<char>, b: Seq<char>)
    requires
        shortcut::names_of(a).to_multiset() == shortcut::names_of(b).to_multiset(),
    ensures
        shortcut::parsed(a) is Ok == shortcut::parsed(b) is Ok,
        shortcut::parsed(a) is Ok ==> shortcut::parsed(a) == shortcut::parsed(b),
{
    broadcast use vstd::seq_lib::group_to_multiset_ensures;

    let x = shortcut::names_of(a);
    let y = shortcut::names_of(b);
    let keys_x = shortcut::keys_of(x);
    let keys_y = shortcut::keys_of(y);
    assert forall|name: Seq<char>| x.contains(name) == y.contains(name) by {
        assert(x.to_multiset().count(name) == y.to_multiset().count(name));
    }
    lemma_flags_of_same_names(x, y);
    assert forall|name: Seq<char>|
        keys_x.to_multiset().count(name) == keys_y.to_multiset().count(name) by {
        lemma_keys_count(x, name);
        lemma_keys_count(y, name);
    }
    assert(keys_x.to_multiset() =~= keys_y.to_multiset());
    assert(keys_x.to_multiset().len() == keys_x.len());
    assert(keys_y.to_multiset().len() == keys_y.len());
    if keys_x.len() == 1 {
        assert(keys_x.contains(keys_x[0]));
        assert(keys_y.to_multiset().count(keys_x[0]) > 0);
        assert(keys_y.contains(keys_x[0]));
        assert(keys_x[0] == keys_y[0]);
    }
}

proof fn lemma_lowercase_parts(s: Seq<char>)
    requires
        is_ascii_chars(s),
    ensures
        text::split(text::lowercase(s), '+') == text::split(s, '+').map_values(
            |part: Seq<char>| text::lowercase(part),
        ),
        forall|i: int|
            0 <= i < text::split(s, '+').len() ==> is_ascii_chars(#[trigger] text::split(s, '+')[i]),
    decreases s.len(),
{
    let lower = text::lowercase(s);
    let lowercase = |part: Seq<char>| text::lowercase(part);
    if s.len() == 0 {
        let none = Seq::<char>::empty();
        assert(lower == none);
        assert(text::lowercase(none) == none);
        assert(text::split(s, '+').map_values(lowercase) == seq![none]);
    } else {
        let shorter = s.drop_last();
        lemma_lowercase_parts(shorter);
        text::joined_of_split(shorter, '+');
        let before = text::split(shorter, '+');
        let parts = text::split(s, '+');
        assert(lower.drop_last() == text::lowercase(shorter));
        if s.last() == '+' {
            assert(text::lowercase(Seq::<char>::empty()) == Seq::<char>::empty());
            assert(parts.map_values(lowercase) == before.map_values(lowercase).push(Seq::empty()));
        } else {
            let last = before.last().push(s.last());
            assert(is_ascii_chars(before[before.len() - 1]));
            assert(text::lowercase(last) == text::lowercase(before.last()).push(lower.last()));
            assert(parts.map_values(lowercase) == before.map_values(lowercase).drop_last().push(
                text::lowercase(last),
            ));
        }
    }
}

proof fn lemma_lowercase_trimmed_start(s: Seq<char>)
    requires
        is_ascii_chars(s),
    ensures
        text::trimmed_start(text::lowercase(s)) == text::lowercase(text::trimmed_start(s)),
        is_ascii_chars(text::trimmed_start(s)),
    decreases s.len(),
{
    if s.len() > 0 && text::is_white_space(s.first()) {
        lemma_lowercase_trimmed_start(s.drop_first());
        assert(text::lowercase(s).drop_first() == text::lowercase(s.drop_first()));
    }
}

proof fn lemma_lowercase_trimmed_end(s: Seq<char>)
    requires
        is_ascii_chars(s),
    ensures
        text::trimmed_end(text::lowercase(s)) == text::lowercase(text::trimmed_end(s)),
        is_ascii_chars(text::trimmed_end(s)),
    decreases s.len(),
{
    if s.len() > 0 && text::is_white_space(s.last()) {
        lemma_lowercase_trimmed_end(s.drop_last());
        assert(text::lowercase(s).drop_last() == text::lowercase(s.drop_last()));
    }
}

proof fn lemma_lowercase_names(s: Seq<char>)
    requires
        is_ascii_chars(s),
    ensures
        shortcut::names_of(text::lowercase(s)) == shortcut::names_of(s),
{
    lemma_lowercase_parts(s);
    let parts = text::split(s, '+');
    let names = shortcut::names_of(s);
    let lower = shortcut::names_of(text::lowercase(s));
    assert forall|i: int| 0 <= i < parts.len() implies lower[i] == names[i] by {
        assert(is_ascii_chars(parts[i]));
        lemma_lowercase_trimmed_start(parts[i]);
        lemma_lowercase_trimmed_end(text::trimmed_start(parts[i]));
        assert(text::lowercase(names[i]) == names[i]);
    }
    assert(lower == names);
}

/// Case does not matter: two ASCII strings that differ only in the case of their
/// letters say the same shortcut, or both say none.
pub proof fn case_does_not_matter(a: Seq<char>, b: Seq<char>)
    requires
        is_ascii_chars(a),
        is_ascii_chars(b),
        text::lowercase(a) == text::lowercase(b),
    ensures
        shortcut::parsed(a) is Ok == shortcut::parsed(b) is Ok,
        shortcut::parsed(a) is Ok ==> shortcut::parsed(a) == shortcut::parsed(b),
{
    lemma_lowercase_names(a);
    lemma_lowercase_names(b);
}

/// Whether two parts of a shortcut are the same but for the white space round them
/// and the case of their letters: without the white space, they have one lowercase
/// form.
pub open spec fn same_part(a: Seq<char>, b: Seq<char>) -> bool {
    text::lowercase(text::trimmed(a)) == text::lowercase(text::trimmed(b))
}

/// Neither case nor white space round the parts matters: two strings whose parts
/// are the same but for these, one by one, say the same shortcut, or both say
/// none.
pub proof fn case_and_space_do_not_matter(a: Seq<char>, b: Seq<char>)
    requires
        text::split(a, '+').len() == text::split(b, '+').len(),
        forall|i: int|
            0 <= i < text::split(a, '+').len() ==> same_part(
                #[trigger] text::split(a, '+')[i],
                text::split(b, '+')[i],
            ),
    ensures
        shortcut::parsed(a) is Ok == shortcut::parsed(b) is Ok,
        shortcut::parsed(a) is Ok ==> shortcut::parsed(a) == shortcut::parsed(b),
{
    let x = text::split(a, '+');
    let y = text::split(b, '+');
    assert forall|i: int| 0 <= i < x.len() implies shortcut::names_of(a)[i] == shortcut::names_of(
        b,
    )[i] by {
        assert(same_part(x[i], y[i]));
    }
    assert(shortcut::names_of(a) == shortcut::names_of(b));
}

/// Parts that differ only in white space at their ends, and parts of ASCII
/// characters that differ only in that and in the case of their letters, are the
/// same part.
pub proof fn parts_with_other_case_or_space_are_the_same(
    before: Seq<char>,
    a: Seq<char>,
    after: Seq<char>,
    b: Seq<char>,
)
    requires
        is_blank(before),
        is_blank(after),
        a == b || (is_ascii_chars(a) && is_ascii_chars(b) && text::lowercase(a)
            == text::lowercase(b)),
    ensures
        same_part(padded(before, a, after), b),
{
    lemma_padding_is_trimmed(before, a, after);
    if a != b {
        lemma_lowercase_trimmed_start(a);
        lemma_lowercase_trimmed_end(text::trimmed_start(a));
        lemma_lowercase_trimmed_start(b);
        lemma_lowercase_trimmed_end(text::trimmed_start(b));
    }
}

/// Whether a string is white space and nothing else.
pub open spec fn is_blank(s: Seq<char>) -> bool {
    forall|i: int| 0 <= i < s.len() ==> text::is_white_space(#[trigger] s[i])
}

/// A string with something before and something behind it.
pub open spec fn padded(before: Seq<char>, s: Seq<char>, after: Seq<char>) -> Seq<char> {
    before + s + after
}

proof fn lemma_trim_blank_start(before: Seq<char>, s: Seq<char>)
    requires
        is_blank(before),
    ensures
        text::trimmed_start(before + s) == text::trimmed_start(s),
    decreases before.len(),
{
    if before.len() == 0 {
        assert(before + s == s);
    } else {
        let rest = before.drop_first();
        assert(text::is_white_space(before[0]));
        assert forall|i: int| 0 <= i < rest.len() implies text::is_white_space(
            #[trigger] rest[i],
        ) by {
            assert(rest[i] == before[i + 1]);
        }
        lemma_trim_blank_start(rest, s);
        assert((before + s).drop_first() == rest + s);
    }
}

proof fn lemma_trim_blank_end(s: Seq<char>, after: Seq<char>)
    requires
        is_blank(after),
    ensures
        text::trimmed_end(s + after) == text::trimmed_end(s),
    decreases after.len(),
{
    if after.len() == 0 {
        assert(s + after == s);
    } else {
        let rest = after.drop_last();
        assert(text::is_white_space(after[after.len() - 1]));
        assert forall|i: int| 0 <= i < rest.len() implies text::is_white_space(
            #[trigger] rest[i],
        ) by {
            assert(rest[i] == after[i]);
        }
        lemma_trim_blank_end(s, rest);
        assert((s + after).drop_last() == s + rest);
    }
}

proof fn lemma_trim_start_before_blank(s: Seq<char>, after: Seq<char>)
    requires
        is_blank(after),
    ensures
        text::trimmed_end(text::trimmed_start(s + after)) == text::trimmed(s),
    decreases s.len(),
{
    if s.len() == 0 {
        let none = Seq::<char>::empty();
        assert(s + after == after + none);
        lemma_trim_blank_start(after, none);
        assert(s == none);
    } else if text::is_white_space(s[0]) {
        let rest = s.drop_first();
        assert((s + after).drop_first() == rest + after);
        lemma_trim_start_before_blank(rest, after);
    } else {
        assert((s + after).first() == s[0]);
        lemma_trim_blank_end(s, after);
    }
}

proof fn lemma_padding_is_trimmed(before: Seq<char>, s: Seq<char>, after: Seq<char>)
    requires
        is_blank(before),
        is_blank(after),
    ensures
        text::trimmed(padded(before, s, after)) == text::trimmed(s),
{
    assert(padded(before, s, after) == before + (s + after));
    lemma_trim_blank_start(before, s + after);
    lemma_trim_start_before_blank(s, after);
}

/// White space round the parts of a shortcut does not matter: parts with white
/// space before and behind them say the same shortcut as the parts alone, or both
/// say none.
pub proof fn space_does_not_matter(
    before: Seq<Seq<char>>,
    parts: Seq<Seq<char>>,
    after: Seq<Seq<char>>,
    spaced: Seq<Seq<char>>,
)
    requires
        parts.len() > 0,
        before.len() == parts.len(),
        after.len() == parts.len(),
        spaced.len() == parts.len(),
        forall|i: int| 0 <= i < parts.len() ==> !#[trigger] parts[i].contains('+'),
        forall|i: int|
            0 <= i < parts.len() ==> {
                &&& is_blank(before[i])
                &&& is_blank(after[i])
                &&& #[trigger] spaced[i] == padded(before[i], parts[i], after[i])
            },
    ensures
        shortcut::parsed(text::joined(spaced, '+')) is Ok == shortcut::parsed(
            text::joined(parts, '+'),
        ) is Ok,
        shortcut::parsed(text::joined(parts, '+')) is Ok ==> shortcut::parsed(
            text::joined(spaced, '+'),
        ) == shortcut::parsed(text::joined(parts, '+')),
{
    assert forall|i: int| 0 <= i < spaced.len() implies !#[trigger] spaced[i].contains('+') by {
        let part = parts[i];
        assert(!part.contains('+'));
        assert forall|j: int| 0 <= j < spaced[i].len() implies spaced[i][j] != '+' by {
            if j < before[i].len() {
                assert(text::is_white_space(before[i][j]));
            } else if j < before[i].len() + part.len() {
                assert(part.contains(part[j - before[i].len()]));
            } else {
                assert(text::is_white_space(after[i][j - before[i].len() - part.len()]));
            }
        }
    }
    text::split_of_joined(parts, '+');
    text::split_of_joined(spaced, '+');
    let names = shortcut::names_of(text::joined(parts, '+'));
    let same = shortcut::names_of(text::joined(spaced, '+'));
    assert forall|i: int| 0 <= i < parts.len() implies same[i] == names[i] by {
        assert(spaced[i] == padded(before[i], parts[i], after[i]));
        lemma_padding_is_trimmed(before[i], parts[i], after[i]);
    }
    assert(same == names);
}

/// The words for the command key.
pub open spec fn says_command(word: Seq<char>) -> bool {
    word == "cmd"@ || word == "command"@ || word == "super"@
}

/// The words for the option key.
pub open spec fn says_option(word: Seq<char>) -> bool {
    word == "opt"@ || word == "option"@ || word == "alt"@
}

/// The words for the caps lock key.
pub open spec fn says_caps_lock(word: Seq<char>) -> bool {
    word == "capslock"@ || word == "caps"@ || word == "caps lock"@
}

/// The words for the control key.
pub open spec fn says_control(word: Seq<char>) -> bool {
    word == "ctrl"@ || word == "control"@
}

/// The words for the shift key.
pub open spec fn says_shift(word: Seq<char>) -> bool {
    word == "shift"@
}

/// The words for the function key.
pub open spec fn says_function(word: Seq<char>) -> bool {
    word == "fn"@ || word == "function"@
}

/// The words for a modifier key.
pub open spec fn says_modifier(word: Seq<char>) -> bool {
    says_command(word) || says_option(word) || says_caps_lock(word) || says_control(word)
        || says_shift(word) || says_function(word)
}

/// A part of a shortcut as it is compared with the words for keys: without the white
/// space round it, in lower case.
pub open spec fn word_at(s: Seq<char>, i: int) -> Seq<char> {
    text::lowercase(text::trimmed(text::split(s, '+')[i]))
}

proof fn lemma_words_differ()
    ensures
        forall|word: Seq<char>|
            #![trigger shortcut::modifier_flag(word)]
            {
                &&& shortcut::modifier_flag(word) == Some(0x10_0000usize) <==> says_command(word)
                &&& shortcut::modifier_flag(word) == Some(0x8_0000usize) <==> says_option(word)
                &&& shortcut::modifier_flag(word) == Some(0x4_0000usize) <==> says_control(word)
                &&& shortcut::modifier_flag(word) == Some(0x2_0000usize) <==> says_shift(word)
                &&& shortcut::modifier_flag(word) == Some(0x1_0000usize) <==> says_caps_lock(word)
                &&& shortcut::modifier_flag(word) == Some(0x80_0000usize) <==> says_function(word)
                &&& shortcut::modifier_flag(word) is Some <==> says_modifier(word)
            },
{
    reveal_strlit("cmd");
    reveal_strlit("command");
    reveal_strlit("super");
    reveal_strlit("opt");
    reveal_strlit("option");
    reveal_strlit("alt");
    reveal_strlit("capslock");
    reveal_strlit("caps");
    reveal_strlit("caps lock");
    reveal_strlit("ctrl");
    reveal_strlit("control");
    reveal_strlit("shift");
    reveal_strlit("fn");
    reveal_strlit("function");
    assert("cmd"@.len() == 3 && "cmd"@[0] == 'c' && "cmd"@[1] == 'm' && "cmd"@[2] == 'd');
    assert("command"@.len() == 7 && "command"@[0] == 'c' && "command"@[1] == 'o' && "command"@[2] == 'm');
    assert("super"@.len() == 5 && "super"@[0] == 's' && "super"@[1] == 'u' && "super"@[2] == 'p');
    assert("opt"@.len() == 3 && "opt"@[0] == 'o' && "opt"@[1] == 'p' && "opt"@[2] == 't');
    assert("option"@.len() == 6 && "option"@[0] == 'o' && "option"@[1] == 'p' && "option"@[2] == 't');
    assert("alt"@.len() == 3 && "alt"@[0] == 'a' && "alt"@[1] == 'l' && "alt"@[2] == 't');
    assert("capslock"@.len() == 8 && "capslock"@[0] == 'c' && "capslock"@[1] == 'a' && "capslock"@[2] == 'p');
    assert("caps"@.len() == 4 && "caps"@[0] == 'c' && "caps"@[1] == 'a' && "caps"@[2] == 'p');
    assert("caps lock"@.len() == 9 && "caps lock"@[0] == 'c' && "caps lock"@[1] == 'a' && "caps lock"@[2] == 'p');
    assert("ctrl"@.len() == 4 && "ctrl"@[0] == 'c' && "ctrl"@[1] == 't' && "ctrl"@[2] == 'r');
    assert("control"@.len() == 7 && "control"@[0] == 'c' && "control"@[1] == 'o' && "control"@[2] == 'n');
    assert("shift"@.len() == 5 && "shift"@[0] == 's' && "shift"@[1] == 'h' && "shift"@[2] == 'i');
    assert("fn"@.len() == 2 && "fn"@[0] == 'f' && "fn"@[1] == 'n');
    assert("function"@.len() == 8 && "function"@[0] == 'f' && "function"@[1] == 'u' && "function"@[2] == 'n');
}

/// What a string of one part says: a word for a modifier key says that modifier and
/// no key, though caps lock by itself says nothing; a word for a key says that key
/// and no modifier; any other word is an error that quotes it.
pub proof fn one_word_says_one_key(s: Seq<char>)
    requires
        !s.contains('+'),
    ensures
        ({
            let word = text::lowercase(text::trimmed(s));
            let said = shortcut::parsed(s);
            let modifier = |flag: usize|
                Ok::<Shortcut, Seq<char>>(Shortcut { key_code: None, mods: Some(flag) });
            &&& said == modifier(0x10_0000) <==> says_command(word)
            &&& said == modifier(0x8_0000) <==> says_option(word)
            &&& said == modifier(0x4_0000) <==> says_control(word)
            &&& said == modifier(0x2_0000) <==> says_shift(word)
            &&& said == modifier(0x80_0000) <==> says_function(word)
            &&& said == Ok::<Shortcut, Seq<char>>(Shortcut { key_code: None, mods: None })
                <==> says_caps_lock(word)
            &&& !says_modifier(word) ==> match keys::key_code(text::lowercase(word)) {
                Some(code) => said == Ok::<Shortcut, Seq<char>>(
                    Shortcut { key_code: Some(code), mods: None },
                ),
                None => said == Err::<Shortcut, Seq<char>>("Unknown key: '"@ + word + "'"@),
            }
        }),
{
    let word = text::lowercase(text::trimmed(s));
    let names = shortcut::names_of(s);
    let none = Seq::<Seq<char>>::empty();
    lemma_words_differ();
    text::joined_of_split(s, '+');
    let parts = text::split(s, '+');
    if parts.len() > 1 {
        lemma_joined_holds_separator(parts);
    }
    assert(parts == seq![s]);
    assert(names == seq![word]);
    assert(names.drop_last() == none);
    reveal(Seq::filter);
    assert(shortcut::flags_of(none) == 0);
    assert(shortcut::keys_of(none) == none);
    assert(names == none.push(word));
    shortcut::lemma_has_modifiers_push(none, word);
    assert(!shortcut::has_modifiers(none));
    if let Some(flag) = shortcut::modifier_flag(word) {
        assert(0usize | flag == flag) by (bit_vector);
        assert(shortcut::keys_of(names) == none);
    } else {
        assert(shortcut::keys_of(names) == seq![word]);
    }
}

proof fn lemma_joined_holds_separator(parts: Seq<Seq<char>>)
    requires
        parts.len() > 1,
    ensures
        text::joined(parts, '+').contains('+'),
{
    let before = text::joined(parts.drop_last(), '+');
    assert(text::joined(parts, '+')[before.len() as int] == '+');
}

/// What a string says is what its parts say. The modifiers are exactly those that a
/// part is a word for; there are some where a part is a word for one other than caps
/// lock. The key is that of the only part that is no word for a modifier; there is
/// none where every part is one.
pub proof fn parts_say_the_shortcut(s: Seq<char>)
    requires
        shortcut::parsed(s) is Ok,
    ensures
        ({
            let said = shortcut::parsed(s)->Ok_0;
            let n = text::split(s, '+').len();
            &&& said.mods is Some <==> exists|i: int|
                0 <= i < n && says_modifier(#[trigger] word_at(s, i)) && !says_caps_lock(
                    word_at(s, i),
                )
            &&& said.mods matches Some(mods) ==> {
                &&& mods & 0x10_0000 != 0 <==> exists|i: int|
                    0 <= i < n && says_command(#[trigger] word_at(s, i))
                &&& mods & 0x8_0000 != 0 <==> exists|i: int|
                    0 <= i < n && says_option(#[trigger] word_at(s, i))
                &&& mods & 0x4_0000 != 0 <==> exists|i: int|
                    0 <= i < n && says_control(#[trigger] word_at(s, i))
                &&& mods & 0x2_0000 != 0 <==> exists|i: int|
                    0 <= i < n && says_shift(#[trigger] word_at(s, i))
                &&& mods & 0x1_0000 != 0 <==> exists|i: int|
                    0 <= i < n && says_caps_lock(#[trigger] word_at(s, i))
                &&& mods & 0x80_0000 != 0 <==> exists|i: int|
                    0 <= i < n && says_function(#[trigger] word_at(s, i))
                &&& mods & !0x9f_0000usize == 0
            }
            &&& match said.key_code {
                None => forall|i: int| 0 <= i < n ==> says_modifier(#[trigger] word_at(s, i)),
                Some(code) => exists|i: int|
                    {
                        &&& 0 <= i < n
                        &&& !says_modifier(#[trigger] word_at(s, i))
                        &&& keys::key_code(text::lowercase(word_at(s, i))) == Some(code)
                        &&& forall|j: int|
                            0 <= j < n && j != i ==> says_modifier(#[trigger] word_at(s, j))
                    },
            }
        }),
{
    let names = shortcut::names_of(s);
    let said = shortcut::parsed(s)->Ok_0;
    let n = text::split(s, '+').len();
    lemma_words_differ();
    assert forall|i: int| 0 <= i < n implies #[trigger] names[i] == word_at(s, i) by {}
    lemma_flag_word(s, 0x10_0000);
    lemma_flag_word(s, 0x8_0000);
    lemma_flag_word(s, 0x4_0000);
    lemma_flag_word(s, 0x2_0000);
    lemma_flag_word(s, 0x1_0000);
    lemma_flag_word(s, 0x80_0000);
    let flags = shortcut::flags_of(names);
    flags_are_those_named(names, SHIFT);
    assert(flags & !(0x1_0000usize | 0x2_0000usize | 0x4_0000usize | 0x8_0000usize | 0x10_0000usize
        | 0x80_0000usize) == 0 ==> flags & !0x9f_0000usize == 0) by (bit_vector);
    if shortcut::has_modifiers(names) {
        let i = choose|i: int| 0 <= i < names.len() && shortcut::is_held(#[trigger] names[i]);
        assert(says_modifier(word_at(s, i)) && !says_caps_lock(word_at(s, i)));
    }
    if exists|i: int|
        0 <= i < n && says_modifier(#[trigger] word_at(s, i)) && !says_caps_lock(word_at(s, i)) {
        let i = choose|i: int|
            0 <= i < n && says_modifier(#[trigger] word_at(s, i)) && !says_caps_lock(word_at(s, i));
        assert(names[i] == word_at(s, i));
        assert(shortcut::is_held(names[i]));
    }
    lemma_only_key(names);
    assert forall|i: int| 0 <= i < n implies says_modifier(#[trigger] word_at(s, i)) == (
    shortcut::modifier_flag(names[i]) is Some) by {
        assert(names[i] == word_at(s, i));
    }
    if shortcut::keys_of(names).len() == 0 {
        assert forall|i: int| 0 <= i < n implies says_modifier(#[trigger] word_at(s, i)) by {
            assert(shortcut::modifier_flag(names[i]) is Some);
        }
    } else {
        let i = choose|i: int|
            {
                &&& 0 <= i < names.len()
                &&& shortcut::modifier_flag(#[trigger] names[i]) is None
                &&& names[i] == shortcut::keys_of(names)[0]
                &&& forall|j: int|
                    0 <= j < names.len() && j != i ==> shortcut::modifier_flag(#[trigger] names[j]) is Some
            };
        assert(names[i] == word_at(s, i));
        assert forall|j: int| 0 <= j < n && j != i implies says_modifier(
            #[trigger] word_at(s, j),
        ) by {
            assert(shortcut::modifier_flag(names[j]) is Some);
        }
    }
}

proof fn lemma_flag_word(s: Seq<char>, flag: usize)
    requires
        is_flag(flag),
    ensures
        (shortcut::flags_of(shortcut::names_of(s)) & flag != 0) == exists|i: int|
            0 <= i < text::split(s, '+').len() && shortcut::modifier_flag(
                #[trigger] word_at(s, i),
            ) == Some(flag),
{
    let names = shortcut::names_of(s);
    flags_are_those_named(names, flag);
    if names_flag(names, flag) {
        let i = choose|i: int|
            0 <= i < names.len() && shortcut::modifier_flag(#[trigger] names[i]) == Some(flag);
        assert(names[i] == word_at(s, i));
    }
    if exists|i: int|
        0 <= i < text::split(s, '+').len() && shortcut::modifier_flag(#[trigger] word_at(s, i))
            == Some(flag) {
        let i = choose|i: int|
            0 <= i < text::split(s, '+').len() && shortcut::modifier_flag(#[trigger] word_at(s, i))
                == Some(flag);
        assert(names[i] == word_at(s, i));
    }
}

proof fn lemma_only_key(names: Seq<Seq<char>>)
    ensures
        shortcut::keys_of(names).len() == 0 ==> forall|i: int|
            0 <= i < names.len() ==> shortcut::modifier_flag(#[trigger] names[i]) is Some,
        shortcut::keys_of(names).len() == 1 ==> exists|i: int|
            {
                &&& 0 <= i < names.len()
                &&& shortcut::modifier_flag(#[trigger] names[i]) is None
                &&& names[i] == shortcut::keys_of(names)[0]
                &&& forall|j: int|
                    0 <= j < names.len() && j != i ==> shortcut::modifier_flag(#[trigger] names[j]) is Some
            },
        shortcut::keys_of(names).len() > 0 ==> exists|i: int|
            {
                &&& 0 <= i < names.len()
                &&& shortcut::modifier_flag(#[trigger] names[i]) is None
                &&& names[i] == shortcut::keys_of(names)[0]
                &&& forall|j: int|
                    0 <= j < i ==> shortcut::modifier_flag(#[trigger] names[j]) is Some
            },
        shortcut::keys_of(names).len() > 1 ==> exists|i: int, j: int|
            0 <= i < j < names.len() && shortcut::modifier_flag(#[trigger] names[i]) is None
                && shortcut::modifier_flag(#[trigger] names[j]) is None,
    decreases names.len(),
{
    reveal(Seq::filter);
    if names.len() > 0 {
        let shorter = names.drop_last();
        let last = names.len() - 1;
        lemma_only_key(shorter);
        let before = shortcut::keys_of(shorter);
        assert(names[last] == names.last());
        assert forall|i: int| 0 <= i < last implies #[trigger] names[i] == shorter[i] by {}
        if before.len() > 0 {
            let i = choose|i: int|
                {
                    &&& 0 <= i < shorter.len()
                    &&& shortcut::modifier_flag(#[trigger] shorter[i]) is None
                    &&& shorter[i] == before[0]
                    &&& forall|j: int|
                        0 <= j < i ==> shortcut::modifier_flag(#[trigger] shorter[j]) is Some
                };
            assert(names[i] == before[0]);
            assert forall|j: int| 0 <= j < i implies shortcut::modifier_flag(
                #[trigger] names[j],
            ) is Some by {
                assert(names[j] == shorter[j]);
            }
            if shortcut::modifier_flag(names.last()) is None {
                assert(shortcut::modifier_flag(names[i]) is None && shortcut::modifier_flag(
                    names[last],
                ) is None);
            }
        }
        if before.len() == 1 {
            let i = choose|i: int|
                {
                    &&& 0 <= i < shorter.len()
                    &&& shortcut::modifier_flag(#[trigger] shorter[i]) is None
                    &&& shorter[i] == before[0]
                    &&& forall|j: int|
                        0 <= j < shorter.len() && j != i ==> shortcut::modifier_flag(
                            #[trigger] shorter[j],
                        ) is Some
                };
            assert(names[i] == before[0]);
            assert forall|j: int| 0 <= j < last && j != i implies shortcut::modifier_flag(
                #[trigger] names[j],
            ) is Some by {
                assert(names[j] == shorter[j]);
            }
        }
        if before.len() > 1 {
            let (i, j) = choose|i: int, j: int|
                0 <= i < j < shorter.len() && shortcut::modifier_flag(#[trigger] shorter[i]) is None
                    && shortcut::modifier_flag(#[trigger] shorter[j]) is None;
            assert(names[i] == shorter[i] && names[j] == shorter[j]);
        }
        if before.len() == 0 {
            assert forall|j: int| 0 <= j < last implies shortcut::modifier_flag(
                #[trigger] names[j],
            ) is Some by {
                assert(names[j] == shorter[j]);
            }
            if shortcut::modifier_flag(names.last()) is None {
                assert(shortcut::keys_of(names)[0] == names[last]);
            }
        }
    }
}

/// Whether a part is the first that is no word for a modifier.
pub open spec fn is_first_key(s: Seq<char>, i: int) -> bool {
    &&& 0 <= i < text::split(s, '+').len()
    &&& !says_modifier(word_at(s, i))
    &&& forall|j: int| 0 <= j < i ==> says_modifier(#[trigger] word_at(s, j))
}

/// When a string says no shortcut: where the first part that is no word for a
/// modifier names no key, which the error then quotes, or else where there is a
/// second such part, and then the error quotes the whole string.
pub proof fn parts_say_what_is_wrong(s: Seq<char>)
    ensures
        ({
            let n = text::split(s, '+').len();
            &&& forall|i: int|
                #![trigger is_first_key(s, i)]
                is_first_key(s, i) && keys::key_code(text::lowercase(word_at(s, i))) is None
                    ==> shortcut::parsed(s) == Err::<Shortcut, Seq<char>>(
                    "Unknown key: '"@ + word_at(s, i) + "'"@,
                )
            &&& forall|i: int, k: int|
                #![trigger is_first_key(s, i), word_at(s, k)]
                is_first_key(s, i) && keys::key_code(text::lowercase(word_at(s, i))) is Some && i < k < n
                    && !says_modifier(word_at(s, k)) ==> shortcut::parsed(s) == Err::<
                    Shortcut,
                    Seq<char>,
                >("Multiple keys specified: '"@ + s + "'"@)
            &&& shortcut::parsed(s) is Err ==> exists|i: int|
                {
                    &&& #[trigger] is_first_key(s, i)
                    &&& keys::key_code(text::lowercase(word_at(s, i))) is None || exists|k: int|
                        i < k < n && !says_modifier(#[trigger] word_at(s, k))
                }
        }),
{
    let n = text::split(s, '+').len();
    let names = shortcut::names_of(s);
    let found = shortcut::keys_of(names);
    lemma_words_differ();
    lemma_only_key(names);
    assert forall|i: int| 0 <= i < n implies #[trigger] names[i] == word_at(s, i) by {}
    if found.len() > 0 {
        let f = choose|i: int|
            {
                &&& 0 <= i < names.len()
                &&& shortcut::modifier_flag(#[trigger] names[i]) is None
                &&& names[i] == found[0]
                &&& forall|j: int|
                    0 <= j < i ==> shortcut::modifier_flag(#[trigger] names[j]) is Some
            };
        assert(names[f] == word_at(s, f));
        assert forall|j: int| 0 <= j < f implies says_modifier(#[trigger] word_at(s, j)) by {
            assert(shortcut::modifier_flag(names[j]) is Some);
        }
        assert(is_first_key(s, f));
        assert forall|i: int| #[trigger] is_first_key(s, i) implies i == f by {
            if i < f {
                assert(says_modifier(word_at(s, i)));
            }
            if f < i {
                assert(says_modifier(word_at(s, f)));
            }
        }
        if found.len() == 1 {
            let o = choose|i: int|
                {
                    &&& 0 <= i < names.len()
                    &&& shortcut::modifier_flag(#[trigger] names[i]) is None
                    &&& names[i] == found[0]
                    &&& forall|j: int|
                        0 <= j < names.len() && j != i ==> shortcut::modifier_flag(
                            #[trigger] names[j],
                        ) is Some
                };
            assert(o == f) by {
                assert(shortcut::modifier_flag(names[f]) is None);
            }
            assert forall|k: int| f < k < n implies says_modifier(#[trigger] word_at(s, k)) by {
                assert(shortcut::modifier_flag(names[k]) is Some);
            }
        } else {
            let (a, b) = choose|i: int, j: int|
                0 <= i < j < names.len() && shortcut::modifier_flag(#[trigger] names[i]) is None
                    && shortcut::modifier_flag(#[trigger] names[j]) is None;
            assert(f <= a) by {
                if a < f {
                    assert(shortcut::modifier_flag(names[a]) is Some);
                }
            }
            assert(names[b] == word_at(s, b));
            assert(f < b < n && !says_modifier(word_at(s, b)));
        }
    } else {
        assert forall|i: int| 0 <= i < n implies says_modifier(#[trigger] word_at(s, i)) by {
            assert(shortcut::modifier_flag(names[i]) is Some);
        }
    }
}

/// What is recorded when a key is pressed: nothing for a key without a code or
/// without a modifier key held down, else the code of the key with the flags of
/// exactly the modifier keys that are held down.
pub proof fn recorded_is_what_is_held(physical_key: Physical, modifiers: Modifiers)
    ensures
        ({
            let held = modifiers.logo || modifiers.alt || modifiers.control || modifiers.shift;
            match shortcut::recorded(physical_key, modifiers) {
                None => !held || physical_key is Unidentified || keys::position_code(
                    physical_key->Code_0,
                ) is None,
                Some(kept) => {
                    &&& held && physical_key is Code
                    &&& kept.key_code is Some
                    &&& kept.key_code == keys::position_code(physical_key->Code_0)
                    &&& kept.mods matches Some(mods) && {
                        &&& mods & 0x10_0000 != 0 <==> modifiers.logo
                        &&& mods & 0x8_0000 != 0 <==> modifiers.alt
                        &&& mods & 0x4_0000 != 0 <==> modifiers.control
                        &&& mods & 0x2_0000 != 0 <==> modifiers.shift
                        &&& mods & !0x1e_0000usize == 0
                    }
                },
            }
        }),
{
    let logo = modifiers.logo;
    let alt = modifiers.alt;
    let control = modifiers.control;
    let shift = modifiers.shift;
    assert({
        let flags = (if logo {
            0x10_0000usize
        } else {
            0
        }) | (if alt {
            0x8_0000usize
        } else {
            0
        }) | (if control {
            0x4_0000usize
        } else {
            0
        }) | (if shift {
            0x2_0000usize
        } else {
            0
        });
        &&& flags & 0x10_0000 != 0 <==> logo
        &&& flags & 0x8_0000 != 0 <==> alt
        &&& flags & 0x4_0000 != 0 <==> control
        &&& flags & 0x2_0000 != 0 <==> shift
        &&& flags & !0x1e_0000usize == 0
    }) by (bit_vector);
}

/// A text where a flag is set, else nothing.
pub open spec fn where_set(mods: Option<usize>, flag: usize, text: Seq<char>) -> Seq<char> {
    if mods is Some && mods->0 & flag != 0 {
        text
    } else {
        Seq::empty()
    }
}

/// Strings, each with a separator behind it.
spec fn ended(parts: Seq<Seq<char>>) -> Seq<char>
    decreases parts.len(),
{
    if parts.len() == 0 {
        Seq::empty()
    } else {
        ended(parts.drop_last()) + parts.last() + seq!['+']
    }
}

proof fn lemma_ended(parts: Seq<Seq<char>>)
    ensures
        parts.len() > 0 ==> text::joined(parts, '+') + seq!['+'] == ended(parts),
    decreases parts.len(),
{
    if parts.len() == 1 {
        assert(ended(parts.drop_last()) == Seq::<char>::empty());
        assert(ended(parts) == parts[0] + seq!['+']);
    } else if parts.len() > 1 {
        let shorter = parts.drop_last();
        lemma_ended(shorter);
        assert(parts == shorter.push(parts.last()));
        text::joining_puts_strings_in_a_row(shorter, parts.last(), '+');
    }
}

proof fn lemma_ended_with(
    parts: Seq<Seq<char>>,
    mods: Option<usize>,
    flag: usize,
    name: Seq<char>,
    whole: Seq<char>,
)
    requires
        whole == name + seq!['+'],
        mods is None ==> 0usize & flag == 0,
    ensures
        ended(
            shortcut::with_modifier(
                parts,
                match mods {
                    Some(mods) => mods,
                    None => 0,
                },
                flag,
                name,
            ),
        ) == ended(parts) + where_set(mods, flag, whole),
{
    assert(parts.push(name).drop_last() == parts);
    assert(ended(parts) + name + seq!['+'] == ended(parts) + whole);
    assert(ended(parts) + Seq::<char>::empty() == ended(parts));
}

/// What a configuration says of a shortcut: the words of its modifier keys in the
/// order command, option, control and shift, and behind them the name of its key,
/// with a plus sign between any two. Without a key that has a name the plus sign
/// behind the last modifier is missing, and without modifiers there is nothing.
pub proof fn config_names_modifiers_and_key(shortcut: Shortcut)
    ensures
        ({
            let config = text::joined(shortcut.config_parts(), '+');
            let modifiers = where_set(shortcut.mods, 0x10_0000, "cmd+"@) + where_set(
                shortcut.mods,
                0x8_0000,
                "option+"@,
            ) + where_set(shortcut.mods, 0x4_0000, "ctrl+"@) + where_set(
                shortcut.mods,
                0x2_0000,
                "shift+"@,
            );
            if shortcut.key_code is Some && keys::key_name(shortcut.key_code->0) is Some {
                config == modifiers + keys::key_name(shortcut.key_code->0)->0
            } else if modifiers.len() > 0 {
                config + seq!['+'] == modifiers
            } else {
                config == Seq::<char>::empty()
            }
        }),
{
    let mods = shortcut.mods;
    let flags = shortcut.flags();
    let none = Seq::<Seq<char>>::empty();
    let a = shortcut::with_modifier(none, flags, COMMAND, "cmd"@);
    let b = shortcut::with_modifier(a, flags, OPTION, "option"@);
    let c = shortcut::with_modifier(b, flags, CONTROL, "ctrl"@);
    let d = shortcut::with_modifier(c, flags, SHIFT, "shift"@);
    assert(forall|flag: usize| 0usize & flag == 0) by (bit_vector);
    lemma_words_with_plus();
    lemma_ended_with(none, mods, COMMAND, "cmd"@, "cmd+"@);
    lemma_ended_with(a, mods, OPTION, "option"@, "option+"@);
    lemma_ended_with(b, mods, CONTROL, "ctrl"@, "ctrl+"@);
    lemma_ended_with(c, mods, SHIFT, "shift"@, "shift+"@);
    let modifiers = where_set(mods, 0x10_0000, "cmd+"@) + where_set(mods, 0x8_0000, "option+"@)
        + where_set(mods, 0x4_0000, "ctrl+"@) + where_set(mods, 0x2_0000, "shift+"@);
    assert(ended(none) + where_set(mods, 0x10_0000, "cmd+"@) == where_set(
        mods,
        0x10_0000,
        "cmd+"@,
    ));
    assert(ended(d) == modifiers);
    lemma_ended(d);
    lemma_ended_is_empty(d);
    match shortcut.name() {
        Some(name) => {
            text::joining_puts_strings_in_a_row(d, name, '+');
            if d.len() == 0 {
                assert(d.push(name) == seq![name]);
                assert(modifiers + name == name);
            }
        },
        None => {},
    }
}

proof fn lemma_ended_is_empty(parts: Seq<Seq<char>>)
    ensures
        ended(parts).len() == 0 <==> parts.len() == 0,
{
}

proof fn lemma_words_with_plus()
    ensures
        "cmd+"@ == "cmd"@ + seq!['+'],
        "option+"@ == "option"@ + seq!['+'],
        "ctrl+"@ == "ctrl"@ + seq!['+'],
        "shift+"@ == "shift"@ + seq!['+'],
{
    reveal_strlit("cmd");
    reveal_strlit("cmd+");
    reveal_strlit("option");
    reveal_strlit("option+");
    reveal_strlit("ctrl");
    reveal_strlit("ctrl+");
    reveal_strlit("shift");
    reveal_strlit("shift+");
    assert("cmd+"@ =~= "cmd"@ + seq!['+']);
    assert("option+"@ =~= "option"@ + seq!['+']);
    assert("ctrl+"@ =~= "ctrl"@ + seq!['+']);
    assert("shift+"@ =~= "shift"@ + seq!['+']);
}

/// What is shown of a shortcut: first the symbols of exactly its modifier keys, in
/// the order command, option, control and shift, whatever the key; behind them what
/// is shown of the key alone.
pub proof fn modifiers_are_shown_before_the_key(shortcut: Shortcut)
    ensures
        shortcut.shown() == where_set(shortcut.mods, 0x10_0000, "⌘"@) + where_set(
            shortcut.mods,
            0x8_0000,
            "⌥"@,
        ) + where_set(shortcut.mods, 0x4_0000, "⌃"@) + where_set(shortcut.mods, 0x2_0000, "⇧"@)
            + (Shortcut { key_code: shortcut.key_code, mods: None }).shown(),
        shortcut.key_code is None ==> (Shortcut {
            key_code: shortcut.key_code,
            mods: None,
        }).shown() == Seq::<char>::empty(),
{
    let key = Shortcut { key_code: shortcut.key_code, mods: None };
    assert(forall|flag: usize| 0usize & flag == 0) by (bit_vector);
    assert(shortcut::shown_modifiers(0) == Seq::<char>::empty());
    assert(key.shown() == (match shortcut.name() {
        Some(name) => shortcut::shown_key(name),
        None => Seq::empty(),
    }));
}

/// Two shortcuts that differ in one of the modifiers command, option, control and
/// shift, and have one key, are shown differently.
pub proof fn other_modifiers_are_shown_differently(a: Shortcut, b: Shortcut, flag: usize)
    requires
        a.key_code == b.key_code,
        flag == 0x10_0000 || flag == 0x8_0000 || flag == 0x4_0000 || flag == 0x2_0000,
        (a.mods is Some && a.mods->0 & flag != 0) != (b.mods is Some && b.mods->0 & flag != 0),
    ensures
        a.shown() != b.shown(),
{
    modifiers_are_shown_before_the_key(a);
    modifiers_are_shown_before_the_key(b);
    let key = (Shortcut { key_code: a.key_code, mods: None }).shown();
    reveal_strlit("⌘");
    reveal_strlit("⌥");
    reveal_strlit("⌃");
    reveal_strlit("⇧");
    assert("⌘"@ =~= seq!['⌘'] && "⌥"@ =~= seq!['⌥'] && "⌃"@ =~= seq!['⌃'] && "⇧"@ =~= seq!['⇧']);
    let x = shown_before_key(a.mods);
    let y = shown_before_key(b.mods);
    assert(a.shown() == x + key);
    assert(b.shown() == y + key);
    if a.shown() == b.shown() {
        assert(x.len() == y.len());
        assert((x + key).take(x.len() as int) == x);
        assert((y + key).take(y.len() as int) == y);
        lemma_symbols_tell_modifiers(a.mods);
        lemma_symbols_tell_modifiers(b.mods);
        assert(false);
    }
}

spec fn shown_before_key(mods: Option<usize>) -> Seq<char> {
    where_set(mods, 0x10_0000, "⌘"@) + where_set(mods, 0x8_0000, "⌥"@) + where_set(
        mods,
        0x4_0000,
        "⌃"@,
    ) + where_set(mods, 0x2_0000, "⇧"@)
}

proof fn lemma_symbols_tell_modifiers(mods: Option<usize>)
    ensures
        shown_before_key(mods).contains('⌘') <==> where_set(mods, 0x10_0000, "⌘"@).len() > 0,
        shown_before_key(mods).contains('⌥') <==> where_set(mods, 0x8_0000, "⌥"@).len() > 0,
        shown_before_key(mods).contains('⌃') <==> where_set(mods, 0x4_0000, "⌃"@).len() > 0,
        shown_before_key(mods).contains('⇧') <==> where_set(mods, 0x2_0000, "⇧"@).len() > 0,
{
    reveal_strlit("⌘");
    reveal_strlit("⌥");
    reveal_strlit("⌃");
    reveal_strlit("⇧");
    assert("⌘"@ =~= seq!['⌘'] && "⌥"@ =~= seq!['⌥'] && "⌃"@ =~= seq!['⌃'] && "⇧"@ =~= seq!['⇧']);
    let a = where_set(mods, 0x10_0000, "⌘"@);
    let b = where_set(mods, 0x8_0000, "⌥"@);
    let c = where_set(mods, 0x4_0000, "⌃"@);
    let d = where_set(mods, 0x2_0000, "⇧"@);
    let all = shown_before_key(mods);
    if a.len() > 0 {
        assert(all[0] == '⌘');
    }
    if b.len() > 0 {
        assert(all[a.len() as int] == '⌥');
    }
    if c.len() > 0 {
        assert(all[(a + b).len() as int] == '⌃');
    }
    if d.len() > 0 {
        assert(all[(a + b + c).len() as int] == '⇧');
    }
}

} // verus!
