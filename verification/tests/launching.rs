use rustcast::launching::{
    global_handler, keyboard_event_callback, shortcut_of_event, CallbackData, EventReply,
    KeyboardEvent, FLAGS_CHANGED, KEY_DOWN, MASK_ALPHA_SHIFT, MASK_ALTERNATE, MASK_COMMAND,
    MASK_CONTROL, MASK_SECONDARY_FN, MASK_SHIFT,
};
use rustcast::keys::Code;
use rustcast::message::Message;
use rustcast::shortcut::{
    Modifiers, Physical, Shortcut, CAPS_LOCK, COMMAND, CONTROL, FUNCTION, OPTION, SHIFT,
};

fn event(event_type: u32, key_code: i64, flags: u64) -> KeyboardEvent {
    KeyboardEvent { event_type, key_code, flags }
}

#[test]
fn key_down_says_key_and_modifiers() {
    assert_eq!(
        shortcut_of_event(&event(KEY_DOWN, 0x28, MASK_COMMAND | MASK_SHIFT | 0x100)),
        Some(Shortcut::new(Some(0x28), Some(COMMAND | SHIFT)))
    );
    assert_eq!(
        shortcut_of_event(&event(KEY_DOWN, 0x28, 0)),
        Some(Shortcut::new(Some(0x28), None))
    );
    let all = MASK_COMMAND
        | MASK_ALTERNATE
        | MASK_CONTROL
        | MASK_SHIFT
        | MASK_ALPHA_SHIFT
        | MASK_SECONDARY_FN;
    assert_eq!(
        shortcut_of_event(&event(KEY_DOWN, 0, all)),
        Some(Shortcut::new(
            Some(0),
            Some(COMMAND | OPTION | CONTROL | SHIFT | CAPS_LOCK | FUNCTION)
        ))
    );
}

#[test]
fn key_codes_are_cut_to_sixteen_bits() {
    assert_eq!(
        shortcut_of_event(&event(KEY_DOWN, 0x1_0028, 0)),
        Some(Shortcut::new(Some(0x28), None))
    );
    assert_eq!(
        shortcut_of_event(&event(KEY_DOWN, -1, 0)),
        Some(Shortcut::new(Some(0xffff), None))
    );
}

#[test]
fn a_modifier_key_that_goes_down_says_itself() {
    for (codes, mask) in [
        ([56, 60], MASK_SHIFT),
        ([59, 62], MASK_CONTROL),
        ([58, 61], MASK_ALTERNATE),
        ([55, 54], MASK_COMMAND),
        ([63, 63], MASK_SECONDARY_FN),
        ([57, 57], MASK_ALPHA_SHIFT),
    ] {
        for code in codes {
            assert_eq!(
                shortcut_of_event(&event(FLAGS_CHANGED, code, mask)),
                Some(Shortcut::new(Some(code as u16), None))
            );
            assert_eq!(shortcut_of_event(&event(FLAGS_CHANGED, code, 0)), None);
        }
    }
    assert_eq!(
        shortcut_of_event(&event(FLAGS_CHANGED, 56, MASK_SHIFT | MASK_COMMAND)),
        Some(Shortcut::new(Some(56), Some(COMMAND)))
    );
    assert_eq!(shortcut_of_event(&event(FLAGS_CHANGED, 0x28, MASK_SHIFT)), None);
}

#[test]
fn other_events_say_nothing() {
    assert_eq!(shortcut_of_event(&event(11, 0x28, MASK_COMMAND)), None);
}

#[test]
fn only_targets_are_swallowed() {
    let target = Shortcut::new(Some(0x28), Some(COMMAND | SHIFT));
    let data = CallbackData { targets: vec![Shortcut::new(Some(1), None), target.clone()] };
    assert_eq!(
        keyboard_event_callback(&data, &event(KEY_DOWN, 0x28, MASK_COMMAND | MASK_SHIFT)),
        EventReply::Swallow(Message::KeyPressed(target))
    );
    assert_eq!(
        keyboard_event_callback(&data, &event(KEY_DOWN, 0x28, MASK_COMMAND)),
        EventReply::PassOn
    );
    assert_eq!(
        keyboard_event_callback(&data, &event(11, 0x28, MASK_COMMAND | MASK_SHIFT)),
        EventReply::PassOn
    );
}

#[test]
fn a_recorded_shortcut_is_said_when_pressed() {
    let modifiers = Modifiers { logo: true, alt: true, control: false, shift: false };
    let recorded = Shortcut::from_iced(Physical::Code(Code::KeyP), modifiers);
    assert_eq!(
        shortcut_of_event(&event(KEY_DOWN, 0x23, MASK_COMMAND | MASK_ALTERNATE)),
        recorded
    );
}

#[test]
fn the_tap_sees_keys_and_flags() {
    let targets = vec![Shortcut::new(Some(1), None)];
    let plan = global_handler(targets.clone());
    assert_eq!(plan.events_of_interest, 0x1400);
    assert_eq!(plan.callback_data.targets, targets);
}
