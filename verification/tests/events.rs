use rustcast::events::{
    closed_message, hotkey_message, key_message, shortcut_message, window_message, Key, Modifiers,
    WindowEvent,
};
use rustcast::message::{ArrowKey, Message, Move, Page};

const NONE: Modifiers =
    Modifiers { shift: false, control: false, alt: false, logo: false, command: false };

fn logo() -> Modifiers {
    Modifiers { logo: true, command: true, ..NONE }
}

fn control() -> Modifiers {
    Modifiers { control: true, ..NONE }
}

fn chr(text: &str) -> Key {
    Key::Character(text.to_string())
}

fn key(key: Key, modifiers: Modifiers) -> Option<Message<u64>> {
    key_message(key, modifiers)
}

#[test]
fn shortcuts_are_told() {
    assert!(matches!(shortcut_message(Key::Escape, NONE, 7), Some(Message::EscKeyPressed(7))));
    assert!(matches!(
        shortcut_message(chr(","), logo(), 7),
        Some(Message::SwitchToPage(Page::Settings))
    ));
    assert!(shortcut_message(chr(","), NONE, 7).is_none());
    assert!(shortcut_message(chr(","), Modifiers { shift: true, ..logo() }, 7).is_none());
    assert!(shortcut_message(chr("."), logo(), 7).is_none());
    assert!(shortcut_message(chr(",,"), logo(), 7).is_none());
    assert!(shortcut_message(Key::Enter, logo(), 7).is_none());
}

#[test]
fn keys_move_the_focus() {
    assert!(matches!(key(Key::ArrowUp, NONE), Some(Message::ChangeFocus(ArrowKey::Up, 1))));
    assert!(matches!(key(Key::ArrowDown, NONE), Some(Message::ChangeFocus(ArrowKey::Down, 1))));
    assert!(matches!(key(Key::ArrowLeft, NONE), Some(Message::ChangeFocus(ArrowKey::Left, 1))));
    assert!(matches!(key(Key::ArrowRight, NONE), Some(Message::ChangeFocus(ArrowKey::Right, 1))));
    assert!(matches!(key(chr("p"), control()), Some(Message::ChangeFocus(ArrowKey::Up, 1))));
    assert!(matches!(key(chr("n"), control()), Some(Message::ChangeFocus(ArrowKey::Down, 1))));
}

#[test]
fn other_keys_are_told() {
    assert!(matches!(key(chr("r"), logo()), Some(Message::ReloadConfig)));
    assert!(matches!(key(Key::Enter, NONE), Some(Message::OpenFocused)));
    assert!(matches!(key(Key::Backspace, NONE), Some(Message::FocusTextInput(Move::Back))));
    for (text, modifiers) in [("r", NONE), ("p", NONE), ("n", logo()), ("x", control()), ("é", NONE)] {
        match key(chr(text), modifiers) {
            Some(Message::FocusTextInput(Move::Forwards(typed))) => assert_eq!(typed, text),
            other => panic!("{other:?}"),
        }
    }
    assert!(key(Key::Escape, NONE).is_none());
    assert!(key(Key::Other, logo()).is_none());
}

#[test]
fn focus_changes_are_told() {
    assert!(matches!(
        window_message(false, 3, WindowEvent::Focused),
        Some(Message::WindowFocusChanged(3, true))
    ));
    assert!(matches!(
        window_message(true, 3, WindowEvent::Unfocused),
        Some(Message::WindowFocusChanged(3, false))
    ));
    assert!(window_message(false, 3, WindowEvent::Unfocused).is_none());
    assert!(window_message(true, 3, WindowEvent::Other).is_none());
}

#[test]
fn hotkeys_are_told_when_they_go_down() {
    let down: Option<Message<u64>> = hotkey_message(42, true);
    assert!(matches!(down, Some(Message::KeyPressed(42))));
    let up: Option<Message<u64>> = hotkey_message(42, false);
    assert!(up.is_none());
}

#[test]
fn a_closed_window_is_hidden() {
    assert!(matches!(closed_message(9), Message::HideWindow(9)));
}
