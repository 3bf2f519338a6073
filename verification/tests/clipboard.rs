use rustcast::clipboard::{
    clipboard_content, clipboard_view, ClipBoardContentType, ClipboardWatcher, ImageData, Viewport,
};
use rustcast::message::{Editable, Message};

fn text(value: &str) -> Option<ClipBoardContentType> {
    Some(ClipBoardContentType::Text(value.to_string()))
}

fn picture(width: usize, height: usize, bytes: Vec<u8>) -> ImageData {
    ImageData { width, height, bytes }
}

fn news(watcher: &mut ClipboardWatcher, now: Option<ClipBoardContentType>) -> Option<ClipBoardContentType> {
    let message: Option<Message<u64>> = watcher.observe(now);
    match message {
        None => None,
        Some(Message::EditClipboardHistory(Editable::Create(content))) => Some(content),
        Some(other) => panic!("{other:?}"),
    }
}

#[test]
fn pictures_come_before_texts_and_blank_texts_do_not_count() {
    let image = picture(1, 1, vec![1, 2, 3, 4]);
    let found = clipboard_content(Some(image), Some("text".to_string()));
    assert!(matches!(found, Some(ClipBoardContentType::Image(_))));
    assert!(clipboard_content(None, Some("text".to_string())) == text("text"));
    assert!(clipboard_content(None, Some(" text\n".to_string())) == text(" text\n"));
    assert!(clipboard_content(None, Some(" \n\t".to_string())).is_none());
    assert!(clipboard_content(None, Some(String::new())).is_none());
    assert!(clipboard_content(None, None).is_none());
}

#[test]
fn contents_are_compared_by_what_they_hold() {
    let image = |w: usize, bytes: Vec<u8>| ClipBoardContentType::Image(picture(w, 1, bytes));
    assert!(image(1, vec![1]) == image(1, vec![1]));
    assert!(image(1, vec![1]) != image(1, vec![2]));
    assert!(image(1, vec![1]) != image(2, vec![1]));
    assert!(image(1, vec![1]) != image(1, vec![1, 1]));
    assert!(text("a") != text("b"));
    assert!(text("a").unwrap() != image(1, vec![1]));
}

#[test]
fn history_gets_what_is_copied_once() {
    let mut watcher = ClipboardWatcher::new();
    assert!(news(&mut watcher, None).is_none());
    assert!(news(&mut watcher, text("a")) == text("a"));
    assert!(news(&mut watcher, text("a")).is_none());
    assert!(news(&mut watcher, None).is_none());
    assert!(news(&mut watcher, text("a")).is_none());
    assert!(news(&mut watcher, text("b")) == text("b"));
    assert!(news(&mut watcher, text("a")) == text("a"));
    let image = ClipBoardContentType::Image(picture(1, 1, vec![0, 0, 0, 0]));
    assert!(news(&mut watcher, Some(image.clone())) == Some(image.clone()));
    assert!(news(&mut watcher, Some(image)).is_none());
}

#[test]
fn history_page_shows_the_entry_in_focus() {
    let history = vec![
        ClipBoardContentType::Text("first".to_string()),
        ClipBoardContentType::Image(picture(2, 1, vec![1, 2, 3, 4, 5, 6, 7, 8])),
    ];
    let view = clipboard_view(&history, 0);
    assert!(matches!(view.viewport, Viewport::Text(shown) if shown == "first"));
    assert_eq!(view.rows, [0, 1]);
    match clipboard_view(&history, 1).viewport {
        Viewport::Image(shown) => {
            assert_eq!((shown.width, shown.height), (2, 1));
            assert_eq!(shown.pixels, [1, 2, 3, 4, 5, 6, 7, 8]);
        }
        other => panic!("{other:?}"),
    }
    assert!(matches!(clipboard_view(&history, 2).viewport, Viewport::Empty));
    let empty = clipboard_view(&vec![], 0);
    assert!(matches!(empty.viewport, Viewport::Empty));
    assert!(empty.rows.is_empty());
}
