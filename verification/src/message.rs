//! What the window is told, and the plain values that it is told with.
use vstd::prelude::*;

use crate::apps::App;
use crate::clipboard::ClipBoardContentType;
use crate::icons::RgbaImage;

verus! {

/// The pages of the window.
#[derive(Clone, Copy, Debug, PartialEq, Eq, Structural)]
pub enum Page {
    /// The search for apps.
    Main,
    /// What was copied.
    ClipboardHistory,
    /// The search for emojis.
    EmojiSearch,
    /// The settings.
    Settings,
}

/// The direction of an arrow key.
#[derive(Clone, Copy, Debug, PartialEq, Eq, Structural)]
pub enum ArrowKey {
    Up,
    Down,
    Left,
    Right,
}

/// Where the text input is taken up again.
#[derive(Clone, Debug)]
pub enum Move {
    /// One character back.
    Back,
    /// Behind this text.
    Forwards(String),
}

/// A change to a list.
#[derive(Clone, Debug)]
pub enum Editable<T> {
    /// A new item.
    Create(T),
}

/// What the window is told. `W` is what the host tells its windows apart by.
#[derive(Clone, Debug)]
pub enum Message<W> {
    /// The escape key was pressed in this window.
    EscKeyPressed(W),
    /// This page is to be shown.
    SwitchToPage(Page),
    /// The focus moves this many entries.
    ChangeFocus(ArrowKey, u32),
    /// The config is to be read again.
    ReloadConfig,
    /// The text input takes the focus.
    FocusTextInput(Move),
    /// The entry in focus is to be opened.
    OpenFocused,
    /// This window is to be hidden.
    HideWindow(W),
    /// This window won the focus, or lost it.
    WindowFocusChanged(W, bool),
    /// The hotkey of this number was pressed.
    KeyPressed(u32),
    /// The clipboard history changes.
    EditClipboardHistory(Editable<ClipBoardContentType>),
    /// A file search found these.
    FileSearchResult(Vec<App>),
    /// What a file search found before no longer counts.
    FileSearchClear,
    /// The icons of what a file search found, each with its place in the results.
    FileSearchIcons(Vec<(usize, RgbaImage)>),
    /// The apps are to be indexed again.
    UpdateApps,
    /// There is another release than the one that is running.
    UpdateAvailable,
    /// The rankings are to be saved.
    SaveRanking,
}

} // verus!
