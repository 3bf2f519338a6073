//! What the window is told when keys are pressed and windows change.
use vstd::prelude::*;

use crate::message::{ArrowKey, Message, Move, Page};

verus! {

/// A key, as far as the window tells it apart.
#[derive(Debug)]
pub enum Key {
    Escape,
    ArrowUp,
    ArrowLeft,
    ArrowRight,
    ArrowDown,
    Enter,
    Backspace,
    /// A key that writes this text.
    Character(String),
    /// Any other key.
    Other,
}

/// The keys that are held down while another is pressed.
#[derive(Clone, Copy, Debug, PartialEq, Eq, Structural)]
pub struct Modifiers {
    pub shift: bool,
    pub control: bool,
    pub alt: bool,
    pub logo: bool,
    /// The key that the system has for commands, which is one of the others.
    pub command: bool,
}

impl Modifiers {
    /// The logo key and no other.
    pub open spec fn is_only_logo(self) -> bool {
        self.logo && !self.shift && !self.control && !self.alt
    }

    /// Tells whether the logo key is held down and no other.
    pub fn only_logo(&self) -> (r: bool)
        ensures
            r == self.is_only_logo(),
    {
        self.logo && !self.shift && !self.control && !self.alt
    }
}

/// `text` is the character `c` alone.
pub open spec fn writes(text: String, c: char) -> bool {
    text@ == seq![c]
}

/// Tells whether `text` is the character `c` alone.
fn is_char(text: &String, c: char) -> (r: bool)
    ensures
        r == writes(*text, c),
{
    let chars = crate::text::to_chars(text.as_str());
    let r = chars.len() == 1 && chars[0] == c;
    assert(r ==> chars@ =~= seq![c]);
    r
}

/// What the window is told of a key wherever it is pressed in the window `id`.
pub open spec fn shortcut<W>(key: Key, modifiers: Modifiers, id: W) -> Option<Message<W>> {
    match key {
        Key::Escape => Some(Message::EscKeyPressed(id)),
        Key::Character(text) => if modifiers.is_only_logo() && writes(text, ',') {
            Some(Message::SwitchToPage(Page::Settings))
        } else {
            None
        },
        _ => None,
    }
}

/// What the window is told of a key that was pressed in the window `id`, whatever had the focus.
pub fn shortcut_message<W>(key: Key, modifiers: Modifiers, id: W) -> (r: Option<Message<W>>)
    ensures
        r == shortcut(key, modifiers, id),
{
    match key {
        Key::Escape => Some(Message::EscKeyPressed(id)),
        Key::Character(text) => if modifiers.only_logo() && is_char(&text, ',') {
            Some(Message::SwitchToPage(Page::Settings))
        } else {
            None
        },
        _ => None,
    }
}

/// What the window is told of a key that nothing else took.
pub open spec fn key_news<W>(key: Key, modifiers: Modifiers) -> Option<Message<W>> {
    match key {
        Key::ArrowUp => Some(Message::ChangeFocus(ArrowKey::Up, 1)),
        Key::ArrowLeft => Some(Message::ChangeFocus(ArrowKey::Left, 1)),
        Key::ArrowRight => Some(Message::ChangeFocus(ArrowKey::Right, 1)),
        Key::ArrowDown => Some(Message::ChangeFocus(ArrowKey::Down, 1)),
        Key::Character(text) => Some(
            if modifiers.command && writes(text, 'r') {
                Message::ReloadConfig
            } else if modifiers.control && writes(text, 'p') {
                Message::ChangeFocus(ArrowKey::Up, 1)
            } else if modifiers.control && writes(text, 'n') {
                Message::ChangeFocus(ArrowKey::Down, 1)
            } else {
                Message::FocusTextInput(Move::Forwards(text))
            },
        ),
        Key::Enter => Some(Message::OpenFocused),
        Key::Backspace => Some(Message::FocusTextInput(Move::Back)),
        Key::Escape | Key::Other => None,
    }
}

/// What the window is told of a key that nothing else took.
pub fn key_message<W>(key: Key, modifiers: Modifiers) -> (r: Option<Message<W>>)
    ensures
        r == key_news::<W>(key, modifiers),
{
    match key {
        Key::ArrowUp => Some(Message::ChangeFocus(ArrowKey::Up, 1)),
        Key::ArrowLeft => Some(Message::ChangeFocus(ArrowKey::Left, 1)),
        Key::ArrowRight => Some(Message::ChangeFocus(ArrowKey::Right, 1)),
        Key::ArrowDown => Some(Message::ChangeFocus(ArrowKey::Down, 1)),
        Key::Character(text) => if modifiers.command && is_char(&text, 'r') {
            Some(Message::ReloadConfig)
        } else if modifiers.control && is_char(&text, 'p') {
            Some(Message::ChangeFocus(ArrowKey::Up, 1))
        } else if modifiers.control && is_char(&text, 'n') {
            Some(Message::ChangeFocus(ArrowKey::Down, 1))
        } else {
            Some(Message::FocusTextInput(Move::Forwards(text)))
        },
        Key::Enter => Some(Message::OpenFocused),
        Key::Backspace => Some(Message::FocusTextInput(Move::Back)),
        Key::Escape | Key::Other => None,
    }
}

/// What happens to a window, as far as it is told of it.
#[derive(Clone, Copy, Debug, PartialEq, Eq, Structural)]
pub enum WindowEvent {
    Focused,
    Unfocused,
    /// Anything else.
    Other,
}

/// What the window is told when `event` happens to the window `id`, `focused` being whether it had
/// the focus.
pub open spec fn window_news<W>(focused: bool, id: W, event: WindowEvent) -> Option<Message<W>> {
    match event {
        WindowEvent::Focused => Some(Message::WindowFocusChanged(id, true)),
        WindowEvent::Unfocused => if focused {
            Some(Message::WindowFocusChanged(id, false))
        } else {
            None
        },
        WindowEvent::Other => None,
    }
}

/// What the window is told when `event` happens to the window `id`, `focused` being whether it had
/// the focus.
pub fn window_message<W>(focused: bool, id: W, event: WindowEvent) -> (r: Option<Message<W>>)
    ensures
        r == window_news(focused, id, event),
{
    match event {
        WindowEvent::Focused => Some(Message::WindowFocusChanged(id, true)),
        WindowEvent::Unfocused => if focused {
            Some(Message::WindowFocusChanged(id, false))
        } else {
            None
        },
        WindowEvent::Other => None,
    }
}

/// What the window is told when the window `id` has closed.
pub fn closed_message<W>(id: W) -> (r: Message<W>)
    ensures
        r == Message::HideWindow(id),
{
    Message::HideWindow(id)
}

/// What the window is told of the hotkey `id`, `pressed` being whether it went down.
pub fn hotkey_message<W>(id: u32, pressed: bool) -> (r: Option<Message<W>>)
    ensures
        r == if pressed {
            Some(Message::<W>::KeyPressed(id))
        } else {
            None
        },
{
    if pressed {
        Some(Message::KeyPressed(id))
    } else {
        None
    }
}

/// The escape key is all that closes a window from the keyboard, and the comma with the logo key
/// alone is all that leads to the settings. No other key is a shortcut.
pub proof fn escape_and_settings_are_the_shortcuts<W>(
    key: Key,
    modifiers: Modifiers,
    id: W,
    r: Option<Message<W>>,
)
    requires
        call_ensures(shortcut_message::<W>, (key, modifiers, id), r),
    ensures
        key is Escape ==> r == Some(Message::EscKeyPressed(id)),
        r matches Some(Message::EscKeyPressed(_)) ==> key is Escape,
        r matches Some(Message::SwitchToPage(_)) <==> (key matches Key::Character(text) && text@
            == seq![',']) && modifiers.logo && !modifiers.shift && !modifiers.control
            && !modifiers.alt,
        r matches Some(Message::SwitchToPage(page)) ==> page == Page::Settings,
        r is None || r->0 is EscKeyPressed || r->0 is SwitchToPage,
{
}

/// Each arrow key moves the focus by one its own way, and control with p and n do as up and down.
/// Command with r reads the config again, enter opens, and backspace and every other text go to the
/// text input, the text unchanged. Escape and other keys do nothing.
pub proof fn every_key_has_its_use<W>(key: Key, modifiers: Modifiers, r: Option<Message<W>>)
    requires
        call_ensures(key_message::<W>, (key, modifiers), r),
    ensures
        r is None <==> key is Escape || key is Other,
        r == Some(Message::<W>::OpenFocused) <==> key is Enter,
        r == Some(Message::<W>::FocusTextInput(Move::Back)) <==> key is Backspace,
        r == Some(Message::<W>::ChangeFocus(ArrowKey::Left, 1)) <==> key is ArrowLeft,
        r == Some(Message::<W>::ChangeFocus(ArrowKey::Right, 1)) <==> key is ArrowRight,
        r == Some(Message::<W>::ChangeFocus(ArrowKey::Up, 1)) <==> key is ArrowUp || (
        key matches Key::Character(text) && text@ == seq!['p'] && modifiers.control),
        r == Some(Message::<W>::ChangeFocus(ArrowKey::Down, 1)) <==> key is ArrowDown || (
        key matches Key::Character(text) && text@ == seq!['n'] && modifiers.control),
        r == Some(Message::<W>::ReloadConfig) <==> (key matches Key::Character(text) && text@
            == seq!['r'] && modifiers.command),
        key matches Key::Character(text) ==> (r == Some(
            Message::<W>::FocusTextInput(Move::Forwards(text)),
        ) <==> !(modifiers.command && text@ == seq!['r']) && !(modifiers.control && (text@
            == seq!['p'] || text@ == seq!['n']))),
{
    assert(seq!['p'][0] != seq!['r'][0]);
    assert(seq!['n'][0] != seq!['r'][0]);
    assert(seq!['p'][0] != seq!['n'][0]);
}

/// A window that wins the focus is always told, one that loses it exactly where it had it, and
/// nothing else that happens is told.
pub proof fn windows_are_told_of_their_focus<W>(
    focused: bool,
    id: W,
    event: WindowEvent,
    r: Option<Message<W>>,
)
    requires
        call_ensures(window_message::<W>, (focused, id, event), r),
    ensures
        r == Some(Message::WindowFocusChanged(id, true)) <==> event is Focused,
        r == Some(Message::WindowFocusChanged(id, false)) <==> event is Unfocused && focused,
        r is Some ==> r->0 == Message::WindowFocusChanged(id, event is Focused),
        r is None <==> event is Other || event is Unfocused && !focused,
{
}

/// A window that closes is hidden. A hotkey counts when it goes down, and not when it comes up.
pub proof fn closed_windows_are_hidden_and_hotkeys_count_once<W>(
    id: W,
    closed: Message<W>,
    hotkey: u32,
    pressed: bool,
    told: Option<Message<W>>,
)
    requires
        call_ensures(closed_message::<W>, (id,), closed),
        call_ensures(hotkey_message::<W>, (hotkey, pressed), told),
    ensures
        closed == Message::HideWindow(id),
        pressed ==> told == Some(Message::<W>::KeyPressed(hotkey)),
        !pressed ==> told is None,
{
}


} // verus!
