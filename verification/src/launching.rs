//! Listening for shortcuts: which keyboard events say which shortcut, and what
//! becomes of an event.

use crate::keys;
use crate::message::Message;
use crate::shortcut;
use crate::shortcut::{
    Modifiers, Physical, Shortcut, CAPS_LOCK, COMMAND, CONTROL, FUNCTION, OPTION, SHIFT,
};
use vstd::prelude::*;

verus! {

/// The type of an event for a key that goes down.
pub const KEY_DOWN: u32 = 10;

/// The type of an event for a modifier key that goes down or up.
pub const FLAGS_CHANGED: u32 = 12;

/// The flag of an event while caps lock is on.
pub const MASK_ALPHA_SHIFT: u64 = 0x1_0000;

/// The flag of an event while a shift key is held down.
pub const MASK_SHIFT: u64 = 0x2_0000;

/// The flag of an event while a control key is held down.
pub const MASK_CONTROL: u64 = 0x4_0000;

/// The flag of an event while an option key is held down.
pub const MASK_ALTERNATE: u64 = 0x8_0000;

/// The flag of an event while a command key is held down.
pub const MASK_COMMAND: u64 = 0x10_0000;

/// The flag of an event while the function key is held down.
pub const MASK_SECONDARY_FN: u64 = 0x80_0000;

/// A keyboard event as the event tap hands it over.
#[derive(Debug, Clone, Copy, PartialEq, Eq, Hash)]
pub struct KeyboardEvent {
    /// The type of the event.
    pub event_type: u32,
    /// The key code field of the event.
    pub key_code: i64,
    /// The flags of the event.
    pub flags: u64,
}

/// What the event tap works with: the shortcuts that are listened for.
#[derive(Debug)]
pub struct CallbackData {
    pub targets: Vec<Shortcut>,
}

/// What an event tap is made with.
#[derive(Debug)]
pub struct EventTapPlan {
    /// The types of the events that the tap is to see, one bit for each.
    pub events_of_interest: u64,
    /// What the tap works with.
    pub callback_data: CallbackData,
}

/// What becomes of an event.
#[derive(Debug, PartialEq, Eq)]
pub enum EventReply {
    /// The event goes on to where it was meant for.
    PassOn,
    /// The event stops here, and the launcher gets the message.
    Swallow(Message),
}

/// `flag` where all of `mask` is among the flags of an event, else nothing.
pub open spec fn flag_where(flags: u64, mask: u64, flag: usize) -> usize {
    if flags & mask == mask {
        flag
    } else {
        0
    }
}

/// The modifier flags that the flags of an event stand for.
pub open spec fn event_mods(flags: u64) -> usize {
    flag_where(flags, MASK_COMMAND, COMMAND) | flag_where(flags, MASK_ALTERNATE, OPTION)
        | flag_where(flags, MASK_CONTROL, CONTROL) | flag_where(flags, MASK_SHIFT, SHIFT)
        | flag_where(flags, MASK_ALPHA_SHIFT, CAPS_LOCK) | flag_where(
        flags,
        MASK_SECONDARY_FN,
        FUNCTION,
    )
}

/// The event flag and the modifier flag of the modifier key with the given key
/// code.
pub open spec fn own_flags(key_code: u16) -> Option<(u64, usize)> {
    match key_code {
        56 | 60 => Some((MASK_SHIFT, SHIFT)),
        59 | 62 => Some((MASK_CONTROL, CONTROL)),
        58 | 61 => Some((MASK_ALTERNATE, OPTION)),
        55 | 54 => Some((MASK_COMMAND, COMMAND)),
        63 => Some((MASK_SECONDARY_FN, FUNCTION)),
        57 => Some((MASK_ALPHA_SHIFT, CAPS_LOCK)),
        _ => None,
    }
}

/// The shortcut of a key with the given modifier flags; clear flags are none.
pub open spec fn shortcut_with(key_code: u16, mods: usize) -> Shortcut {
    Shortcut {
        key_code: Some(key_code),
        mods: if mods != 0 {
            Some(mods)
        } else {
            None
        },
    }
}

/// The key code of an event: the low 16 bits of its key code field.
pub open spec fn event_key_code(event: KeyboardEvent) -> u16 {
    (event.key_code as int % 0x1_0000) as u16
}

/// The shortcut that an event says. A key that goes down says itself with the
/// modifier keys that are held down; a modifier key that goes down says itself
/// with the others. No other event says one.
pub open spec fn event_shortcut(event: KeyboardEvent) -> Option<Shortcut> {
    let key_code = event_key_code(event);
    if event.event_type == KEY_DOWN {
        Some(shortcut_with(key_code, event_mods(event.flags)))
    } else if event.event_type == FLAGS_CHANGED {
        match own_flags(key_code) {
            Some((mask, flag)) => if event.flags & mask == mask {
                Some(shortcut_with(key_code, event_mods(event.flags) & !flag))
            } else {
                None
            },
            None => None,
        }
    } else {
        None
    }
}

/// What becomes of an event, given the shortcuts that are listened for.
pub open spec fn reply_to(targets: Seq<Shortcut>, event: KeyboardEvent) -> EventReply {
    match event_shortcut(event) {
        Some(said) => if targets.contains(said) {
            EventReply::Swallow(Message::KeyPressed(said))
        } else {
            EventReply::PassOn
        },
        None => EventReply::PassOn,
    }
}

/// The bit of an event type among the types that an event tap is to see.
pub open spec fn event_bit(event_type: u32) -> u64 {
    1u64 << (event_type as u64)
}

fn flag_if(flags: u64, mask: u64, flag: usize) -> (r: usize)
    ensures
        r == flag_where(flags, mask, flag),
{
    if flags & mask == mask {
        flag
    } else {
        0
    }
}

fn mods_of(flags: u64) -> (mods: usize)
    ensures
        mods == event_mods(flags),
{
    flag_if(flags, MASK_COMMAND, COMMAND) | flag_if(flags, MASK_ALTERNATE, OPTION) | flag_if(
        flags,
        MASK_CONTROL,
        CONTROL,
    ) | flag_if(flags, MASK_SHIFT, SHIFT) | flag_if(flags, MASK_ALPHA_SHIFT, CAPS_LOCK) | flag_if(
        flags,
        MASK_SECONDARY_FN,
        FUNCTION,
    )
}

fn own_flags_of(key_code: u16) -> (own: Option<(u64, usize)>)
    ensures
        own == own_flags(key_code),
{
    match key_code {
        56 | 60 => Some((MASK_SHIFT, SHIFT)),
        59 | 62 => Some((MASK_CONTROL, CONTROL)),
        58 | 61 => Some((MASK_ALTERNATE, OPTION)),
        55 | 54 => Some((MASK_COMMAND, COMMAND)),
        63 => Some((MASK_SECONDARY_FN, FUNCTION)),
        57 => Some((MASK_ALPHA_SHIFT, CAPS_LOCK)),
        _ => None,
    }
}

fn make_shortcut(key_code: u16, mods: usize) -> (said: Shortcut)
    ensures
        said == shortcut_with(key_code, mods),
{
    Shortcut::new(
        Some(key_code),
        if mods != 0 {
            Some(mods)
        } else {
            None
        },
    )
}

/// The shortcut that an event says.
pub fn shortcut_of_event(event: &KeyboardEvent) -> (said: Option<Shortcut>)
    ensures
        said == event_shortcut(*event),
{
    let field: i64 = event.key_code;
    let key_code: u16 = field as u16;
    proof {
        lemma_low_bits(field);
    }
    let mods: usize = mods_of(event.flags);
    if event.event_type == KEY_DOWN {
        Some(make_shortcut(key_code, mods))
    } else if event.event_type == FLAGS_CHANGED {
        match own_flags_of(key_code) {
            Some((mask, flag)) => {
                if event.flags & mask == mask {
                    Some(make_shortcut(key_code, mods & !flag))
                } else {
                    None
                }
            },
            None => None,
        }
    } else {
        None
    }
}

fn contains(targets: &Vec<Shortcut>, said: &Shortcut) -> (found: bool)
    ensures
        found == targets@.contains(*said),
{
    let mut i: usize = 0;
    while i < targets.len()
        invariant
            i <= targets@.len(),
            forall|j: int| 0 <= j < i ==> targets@[j] != *said,
        decreases targets@.len() - i,
    {
        if targets[i] == *said {
            return true;
        }
        i = i + 1;
    }
    false
}

/// Decides what becomes of an event: one that says a shortcut that is listened
/// for stops here and is reported, every other one goes on.
pub fn keyboard_event_callback(data: &CallbackData, event: &KeyboardEvent) -> (reply: EventReply)
    ensures
        reply == reply_to(data.targets@, *event),
{
    match shortcut_of_event(event) {
        Some(said) => {
            if contains(&data.targets, &said) {
                EventReply::Swallow(Message::KeyPressed(said))
            } else {
                EventReply::PassOn
            }
        },
        None => EventReply::PassOn,
    }
}

/// What an event tap that listens for the given shortcuts is made with.
pub fn global_handler(targets: Vec<Shortcut>) -> (plan: EventTapPlan)
    ensures
        plan.events_of_interest == event_bit(KEY_DOWN) | event_bit(FLAGS_CHANGED),
        plan.callback_data.targets == targets,
{
    EventTapPlan {
        events_of_interest: (1u64 << (KEY_DOWN as u64)) | (1u64 << (FLAGS_CHANGED as u64)),
        callback_data: CallbackData { targets },
    }
}

proof fn lemma_low_bits(field: i64)
    ensures
        field as u16 == (field as int % 0x1_0000) as u16,
{
    assert(field as u16 == (field % 0x1_0000i64) as u16) by (bit_vector);
}

/// An event tap sees the events that can say a shortcut and no others.
pub proof fn tap_sees_what_can_say_a_shortcut(event: KeyboardEvent)
    requires
        event.event_type < 64,
    ensures
        ((event_bit(KEY_DOWN) | event_bit(FLAGS_CHANGED)) & event_bit(event.event_type) != 0) == (
        event.event_type == KEY_DOWN || event.event_type == FLAGS_CHANGED),
        event_shortcut(event) is Some ==> (event_bit(KEY_DOWN) | event_bit(FLAGS_CHANGED))
            & event_bit(event.event_type) != 0,
{
    let t = event.event_type;
    assert(((1u64 << 10u64) | (1u64 << 12u64)) & (1u64 << (t as u64)) != 0 <==> (t == 10 || t
        == 12)) by (bit_vector)
        requires
            t < 64,
    ;
}

/// A shortcut that was recorded is the one that pressing its keys says: the key
/// goes down while the recorded modifier keys, and no others, are held down.
pub proof fn pressing_a_recorded_shortcut_says_it(
    physical_key: Physical,
    modifiers: Modifiers,
    event: KeyboardEvent,
)
    requires
        shortcut::recorded(physical_key, modifiers) is Some,
        event.event_type == KEY_DOWN,
        Some(event_key_code(event)) == keys::position_code(physical_key->Code_0),
        (event.flags & MASK_COMMAND == MASK_COMMAND) == modifiers.logo,
        (event.flags & MASK_ALTERNATE == MASK_ALTERNATE) == modifiers.alt,
        (event.flags & MASK_CONTROL == MASK_CONTROL) == modifiers.control,
        (event.flags & MASK_SHIFT == MASK_SHIFT) == modifiers.shift,
        event.flags & MASK_ALPHA_SHIFT != MASK_ALPHA_SHIFT,
        event.flags & MASK_SECONDARY_FN != MASK_SECONDARY_FN,
    ensures
        event_shortcut(event) == shortcut::recorded(physical_key, modifiers),
{
    let mods = shortcut::held_flags(modifiers);
    assert(mods | 0 | 0 == mods) by (bit_vector);
    let logo = modifiers.logo;
    let alt = modifiers.alt;
    let control = modifiers.control;
    let shift = modifiers.shift;
    assert((logo || alt || control || shift) ==> (if logo {
        0x10_0000usize
    } else {
        0
    }) | (if alt {
        0x8_0000usize
    } else {
        0
    }) | (if control {
        0x4_0000usize
    } else {
        0
    }) | (if shift {
        0x2_0000usize
    } else {
        0
    }) != 0) by (bit_vector);
}

/// Whether all of a mask is among the flags of an event.
pub open spec fn is_down(event: KeyboardEvent, mask: u64) -> bool {
    event.flags & mask == mask
}

/// Whether an event is for a modifier key with one of the two given key codes.
pub open spec fn is_change_of(event: KeyboardEvent, left: int, right: int) -> bool {
    event.event_type == 12 && (event.key_code as int % 0x1_0000 == left || event.key_code as int
        % 0x1_0000 == right)
}

/// Which events say a shortcut, and which: a key that goes down, and a modifier key
/// that is down then. The key is the one of the event. The modifiers are exactly
/// those that are down, but for the one of the modifier key itself; clear flags are
/// none.
pub proof fn events_say_key_and_modifiers(event: KeyboardEvent)
    ensures
        event_shortcut(event) is Some <==> {
            ||| event.event_type == 10
            ||| is_change_of(event, 56, 60) && is_down(event, 0x2_0000)
            ||| is_change_of(event, 59, 62) && is_down(event, 0x4_0000)
            ||| is_change_of(event, 58, 61) && is_down(event, 0x8_0000)
            ||| is_change_of(event, 55, 54) && is_down(event, 0x10_0000)
            ||| is_change_of(event, 63, 63) && is_down(event, 0x80_0000)
            ||| is_change_of(event, 57, 57) && is_down(event, 0x1_0000)
        },
        event_shortcut(event) matches Some(said) ==> {
            let mods = if said.mods is Some {
                said.mods->0
            } else {
                0
            };
            &&& said.key_code is Some && said.key_code->0 == event.key_code as int % 0x1_0000
            &&& said.mods != Some(0usize)
            &&& mods & 0x10_0000 != 0 <==> is_down(event, 0x10_0000) && !is_change_of(event, 55, 54)
            &&& mods & 0x8_0000 != 0 <==> is_down(event, 0x8_0000) && !is_change_of(event, 58, 61)
            &&& mods & 0x4_0000 != 0 <==> is_down(event, 0x4_0000) && !is_change_of(event, 59, 62)
            &&& mods & 0x2_0000 != 0 <==> is_down(event, 0x2_0000) && !is_change_of(event, 56, 60)
            &&& mods & 0x1_0000 != 0 <==> is_down(event, 0x1_0000) && !is_change_of(event, 57, 57)
            &&& mods & 0x80_0000 != 0 <==> is_down(event, 0x80_0000) && !is_change_of(event, 63, 63)
            &&& mods & !0x9f_0000usize == 0
        },
{
    let key_code = event_key_code(event);
    let mods = event_mods(event.flags);
    lemma_event_mods(event.flags);
    assert(forall|flag: usize| 0usize & flag == 0) by (bit_vector);
    if let Some((mask, flag)) = own_flags(key_code) {
        lemma_without_flag(mods, flag);
    }
}

proof fn lemma_event_mods(flags: u64)
    ensures
        ({
            let mods = event_mods(flags);
            &&& mods & 0x10_0000 != 0 <==> flags & 0x10_0000 == 0x10_0000
            &&& mods & 0x8_0000 != 0 <==> flags & 0x8_0000 == 0x8_0000
            &&& mods & 0x4_0000 != 0 <==> flags & 0x4_0000 == 0x4_0000
            &&& mods & 0x2_0000 != 0 <==> flags & 0x2_0000 == 0x2_0000
            &&& mods & 0x1_0000 != 0 <==> flags & 0x1_0000 == 0x1_0000
            &&& mods & 0x80_0000 != 0 <==> flags & 0x80_0000 == 0x80_0000
            &&& mods & !0x9f_0000usize == 0
        }),
{
    let a = flags & 0x10_0000 == 0x10_0000;
    let b = flags & 0x8_0000 == 0x8_0000;
    let c = flags & 0x4_0000 == 0x4_0000;
    let d = flags & 0x2_0000 == 0x2_0000;
    let e = flags & 0x1_0000 == 0x1_0000;
    let f = flags & 0x80_0000 == 0x80_0000;
    assert({
        let mods = (if a {
            0x10_0000usize
        } else {
            0
        }) | (if b {
            0x8_0000usize
        } else {
            0
        }) | (if c {
            0x4_0000usize
        } else {
            0
        }) | (if d {
            0x2_0000usize
        } else {
            0
        }) | (if e {
            0x1_0000usize
        } else {
            0
        }) | (if f {
            0x80_0000usize
        } else {
            0
        });
        &&& mods & 0x10_0000 != 0 <==> a
        &&& mods & 0x8_0000 != 0 <==> b
        &&& mods & 0x4_0000 != 0 <==> c
        &&& mods & 0x2_0000 != 0 <==> d
        &&& mods & 0x1_0000 != 0 <==> e
        &&& mods & 0x80_0000 != 0 <==> f
        &&& mods & !0x9f_0000usize == 0
    }) by (bit_vector);
}

proof fn lemma_without_flag(mods: usize, flag: usize)
    requires
        flag == 0x1_0000 || flag == 0x2_0000 || flag == 0x4_0000 || flag == 0x8_0000 || flag
            == 0x10_0000 || flag == 0x80_0000,
        mods & !0x9f_0000usize == 0,
    ensures
        ({
            let less = mods & !flag;
            &&& less & 0x10_0000 != 0 <==> mods & 0x10_0000 != 0 && flag != 0x10_0000
            &&& less & 0x8_0000 != 0 <==> mods & 0x8_0000 != 0 && flag != 0x8_0000
            &&& less & 0x4_0000 != 0 <==> mods & 0x4_0000 != 0 && flag != 0x4_0000
            &&& less & 0x2_0000 != 0 <==> mods & 0x2_0000 != 0 && flag != 0x2_0000
            &&& less & 0x1_0000 != 0 <==> mods & 0x1_0000 != 0 && flag != 0x1_0000
            &&& less & 0x80_0000 != 0 <==> mods & 0x80_0000 != 0 && flag != 0x80_0000
            &&& less & !0x9f_0000usize == 0
        }),
{
    assert({
        let less = mods & !flag;
        &&& less & 0x10_0000 != 0 <==> mods & 0x10_0000 != 0 && flag != 0x10_0000
        &&& less & 0x8_0000 != 0 <==> mods & 0x8_0000 != 0 && flag != 0x8_0000
        &&& less & 0x4_0000 != 0 <==> mods & 0x4_0000 != 0 && flag != 0x4_0000
        &&& less & 0x2_0000 != 0 <==> mods & 0x2_0000 != 0 && flag != 0x2_0000
        &&& less & 0x1_0000 != 0 <==> mods & 0x1_0000 != 0 && flag != 0x1_0000
        &&& less & 0x80_0000 != 0 <==> mods & 0x80_0000 != 0 && flag != 0x80_0000
        &&& less & !0x9f_0000usize == 0
    }) by (bit_vector)
        requires
            flag == 0x1_0000 || flag == 0x2_0000 || flag == 0x4_0000 || flag == 0x8_0000 || flag
                == 0x10_0000 || flag == 0x80_0000,
            mods & !0x9f_0000usize == 0,
    ;
}

/// An event that says one of the shortcuts that are listened for, wherever that
/// stands among them, is swallowed, and what is reported is the shortcut that the
/// event says. Every other event goes on.
pub proof fn what_is_said_is_reported(targets: Seq<Shortcut>, event: KeyboardEvent)
    ensures
        event_shortcut(event) matches Some(said) ==> (forall|i: int|
            0 <= i < targets.len() && #[trigger] targets[i] == said ==> reply_to(targets, event)
                == EventReply::Swallow(Message::KeyPressed(said))),
        event_shortcut(event) is None ==> reply_to(targets, event) == EventReply::PassOn,
        event_shortcut(event) matches Some(said) ==> (forall|i: int|
            0 <= i < targets.len() ==> #[trigger] targets[i] != said) ==> reply_to(targets, event)
            == EventReply::PassOn,
        reply_to(targets, event) is Swallow ==> event_shortcut(event) is Some && reply_to(
            targets,
            event,
        ) == EventReply::Swallow(Message::KeyPressed(event_shortcut(event)->0)) && targets.contains(
            event_shortcut(event)->0,
        ),
{
}

/// The bits of the event types that an event tap is to see are the tenth and the
/// twelfth.
pub proof fn tap_mask_has_two_bits()
    ensures
        event_bit(KEY_DOWN) | event_bit(FLAGS_CHANGED) == 0x1400,
{
    assert((1u64 << 10u64) | (1u64 << 12u64) == 0x1400u64) by (bit_vector);
}

} // verus!
