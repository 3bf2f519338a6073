//! The clipboard: what is on it, what the history learns of it, and what the history page shows.
use vstd::prelude::*;

use crate::icons::RgbaImage;
use crate::message::{Editable, Message};
use crate::text::{blank, is_blank};

verus! {

/// A picture on the clipboard, four bytes for each pixel.
#[derive(Clone, Debug)]
pub struct ImageData {
    pub width: usize,
    pub height: usize,
    pub bytes: Vec<u8>,
}

/// What can be copied.
#[derive(Debug)]
pub enum ClipBoardContentType {
    Text(String),
    Image(ImageData),
}

/// What was copied, by its characters or its pixels.
pub enum Content {
    Text(Seq<char>),
    Image(usize, usize, Seq<u8>),
}

impl View for ClipBoardContentType {
    type V = Content;

    open spec fn view(&self) -> Content {
        match *self {
            ClipBoardContentType::Text(text) => Content::Text(text@),
            ClipBoardContentType::Image(image) => Content::Image(
                image.width,
                image.height,
                image.bytes@,
            ),
        }
    }
}

/// What may have been copied, by its characters or its pixels.
pub open spec fn contents(content: Option<ClipBoardContentType>) -> Option<Content> {
    match content {
        Some(found) => Some(found@),
        None => None,
    }
}

impl Clone for ClipBoardContentType {
    /// A copy of the content.
    fn clone(&self) -> (r: Self)
        ensures
            r@ == self@,
    {
        match self {
            ClipBoardContentType::Text(text) => ClipBoardContentType::Text(text.clone()),
            ClipBoardContentType::Image(image) => ClipBoardContentType::Image(
                ImageData {
                    width: image.width,
                    height: image.height,
                    bytes: copy_bytes(&image.bytes),
                },
            ),
        }
    }
}

/// A copy of `bytes`.
fn copy_bytes(bytes: &Vec<u8>) -> (r: Vec<u8>)
    ensures
        r@ == bytes@,
{
    let r = bytes.clone();
    assert(r@ =~= bytes@);
    r
}

/// Tells whether two sequences hold the same bytes.
fn same_bytes(a: &Vec<u8>, b: &Vec<u8>) -> (r: bool)
    ensures
        r == (a@ == b@),
{
    if a.len() != b.len() {
        return false;
    }
    for i in 0..a.len()
        invariant
            a.len() == b.len(),
            forall|j: int| 0 <= j < i ==> a@[j] == b@[j],
    {
        if a[i] != b[i] {
            return false;
        }
    }
    assert(a@ =~= b@);
    true
}

impl PartialEq for ClipBoardContentType {
    /// Tells whether the same text or the same picture was copied.
    fn eq(&self, other: &Self) -> (r: bool) {
        match (self, other) {
            (ClipBoardContentType::Text(a), ClipBoardContentType::Text(b)) => *a == *b,
            (ClipBoardContentType::Image(a), ClipBoardContentType::Image(b)) => a.width == b.width
                && a.height == b.height && same_bytes(&a.bytes, &b.bytes),
            _ => false,
        }
    }
}

impl vstd::std_specs::cmp::PartialEqSpecImpl for ClipBoardContentType {
    open spec fn obeys_eq_spec() -> bool {
        true
    }

    open spec fn eq_spec(&self, other: &Self) -> bool {
        self@ == other@
    }
}

/// What is on the clipboard: its picture, else its text unless that is blank.
pub open spec fn on_clipboard(image: Option<ImageData>, text: Option<String>) -> Option<Content> {
    match (image, text) {
        (Some(data), _) => Some(Content::Image(data.width, data.height, data.bytes@)),
        (None, Some(found)) => if blank(found@) {
            None
        } else {
            Some(Content::Text(found@))
        },
        (None, None) => None,
    }
}

/// What is on the clipboard, from the picture and the text that it gives.
pub fn clipboard_content(image: Option<ImageData>, text: Option<String>) -> (r: Option<
    ClipBoardContentType,
>)
    ensures
        contents(r) == on_clipboard(image, text),
{
    if let Some(data) = image {
        return Some(ClipBoardContentType::Image(data));
    }
    if let Some(found) = text {
        if !is_blank(found.as_str()) {
            return Some(ClipBoardContentType::Text(found));
        }
    }
    None
}

/// Watches the clipboard for something new.
#[derive(Debug)]
pub struct ClipboardWatcher {
    previous: Option<ClipBoardContentType>,
}

impl View for ClipboardWatcher {
    type V = Option<Content>;

    /// What was last found new.
    closed spec fn view(&self) -> Option<Content> {
        contents(self.previous)
    }
}

/// `now` is something, and not what was last found new.
pub open spec fn is_new(previous: Option<Content>, now: Option<Content>) -> bool {
    now is Some && now != previous
}

/// What was last found new once `now` has been seen.
pub open spec fn last_new(previous: Option<Content>, now: Option<Content>) -> Option<Content> {
    if is_new(previous, now) {
        now
    } else {
        previous
    }
}

impl ClipboardWatcher {
    /// A watcher that has seen nothing.
    pub fn new() -> (r: Self)
        ensures
            r@ is None,
    {
        ClipboardWatcher { previous: None }
    }

    /// Sees what is on the clipboard, and gives the message that adds it to the history if it is
    /// new.
    pub fn observe<W>(&mut self, now: Option<ClipBoardContentType>) -> (r: Option<Message<W>>)
        ensures
            final(self)@ == last_new(old(self)@, contents(now)),
            r is Some <==> is_new(old(self)@, contents(now)),
            r matches Some(message) ==> message matches Message::EditClipboardHistory(
                Editable::Create(content),
            ) && Some(content@) == contents(now),
    {
        if let Some(content) = now {
            let seen = match &self.previous {
                Some(previous) => *previous == content,
                None => false,
            };
            if !seen {
                let message: Message<W> = Message::EditClipboardHistory(
                    Editable::Create(content.clone()),
                );
                self.previous = Some(content);
                return Some(message);
            }
        }
        None
    }
}

/// What was last found new once all of `seen` has been seen, one behind the other.
pub open spec fn last_new_of(seen: Seq<Option<Content>>) -> Option<Content>
    decreases seen.len(),
{
    if seen.len() == 0 {
        None
    } else {
        last_new(last_new_of(seen.drop_last()), seen.last())
    }
}

/// What is added to the history while `seen` is seen, one behind the other.
pub open spec fn added(seen: Seq<Option<Content>>) -> Seq<Content>
    decreases seen.len(),
{
    if seen.len() == 0 {
        seq![]
    } else if is_new(last_new_of(seen.drop_last()), seen.last()) {
        added(seen.drop_last()).push(seen.last().unwrap())
    } else {
        added(seen.drop_last())
    }
}

/// What there was to see, leaving out an empty clipboard.
pub open spec fn present(seen: Seq<Option<Content>>) -> Seq<Content>
    decreases seen.len(),
{
    if seen.len() == 0 {
        seq![]
    } else {
        match seen.last() {
            Some(content) => present(seen.drop_last()).push(content),
            None => present(seen.drop_last()),
        }
    }
}

/// `items` without those that repeat the one before them.
pub open spec fn without_repeats(items: Seq<Content>) -> Seq<Content>
    decreases items.len(),
{
    if items.len() <= 1 {
        items
    } else if items[items.len() - 2] == items.last() {
        without_repeats(items.drop_last())
    } else {
        without_repeats(items.drop_last()).push(items.last())
    }
}

/// The history gets everything that is copied, in order, and leaves out only what repeats the
/// content before it; an empty clipboard in between changes nothing.
pub proof fn history_gets_what_is_copied(seen: Seq<Option<Content>>)
    ensures
        added(seen) == without_repeats(present(seen)),
        forall|i: int|
            0 <= i < added(seen).len() - 1 ==> (#[trigger] added(seen)[i]) != added(seen)[i + 1],
        added(seen).len() > 0 ==> last_new_of(seen) == Some(added(seen).last()),
        added(seen).len() == 0 ==> last_new_of(seen) is None,
        last_new_of(seen) == if present(seen).len() > 0 {
            Some(present(seen).last())
        } else {
            None
        },
    decreases seen.len(),
{
    if seen.len() > 0 {
        let rest = seen.drop_last();
        history_gets_what_is_copied(rest);
        if let Some(content) = seen.last() {
            assert(present(seen).drop_last() == present(rest));
            if present(rest).len() > 0 {
                assert(present(seen)[present(seen).len() - 2] == present(rest).last());
            } else {
                assert(added(rest) =~= Seq::<Content>::empty());
                assert(added(seen) =~= present(seen));
            }
        }
    }
}

/// What the larger part of the history page shows.
#[derive(Debug)]
pub enum Viewport {
    /// A text.
    Text(String),
    /// A picture.
    Image(RgbaImage),
    /// Nothing.
    Empty,
}

/// The history page.
#[derive(Debug)]
pub struct ClipboardView {
    /// What is in focus.
    pub viewport: Viewport,
    /// The number that each entry of the list is drawn with.
    pub rows: Vec<u32>,
}

/// `viewport` shows the entry in focus, or nothing where there is no such entry.
pub open spec fn shows_focus(
    viewport: Viewport,
    history: Seq<ClipBoardContentType>,
    focussed_id: u32,
) -> bool {
    if focussed_id < history.len() {
        match history[focussed_id as int] {
            ClipBoardContentType::Text(text) => viewport matches Viewport::Text(shown)
                && shown@ == text@,
            ClipBoardContentType::Image(image) => viewport matches Viewport::Image(shown)
                && shown@ == (image.width as u32, image.height as u32, image.bytes@),
        }
    } else {
        viewport is Empty
    }
}

/// The history page for `clipboard_content`, with the entry `focussed_id` in focus.
pub fn clipboard_view(
    clipboard_content: &Vec<ClipBoardContentType>,
    focussed_id: u32,
) -> (r: ClipboardView)
    ensures
        shows_focus(r.viewport, clipboard_content@, focussed_id),
        r.rows.len() == clipboard_content.len(),
        forall|i: int| 0 <= i < r.rows.len() ==> #[trigger] r.rows@[i] == i as u32,
{
    let viewport = if (focussed_id as usize) < clipboard_content.len() {
        match &clipboard_content[focussed_id as usize] {
            ClipBoardContentType::Text(text) => Viewport::Text(text.clone()),
            ClipBoardContentType::Image(image) => Viewport::Image(
                RgbaImage {
                    width: #[verifier::truncate] (image.width as u32),
                    height: #[verifier::truncate] (image.height as u32),
                    pixels: copy_bytes(&image.bytes),
                },
            ),
        }
    } else {
        Viewport::Empty
    };
    let mut rows: Vec<u32> = Vec::new();
    for i in 0..clipboard_content.len()
        invariant
            rows.len() == i,
            forall|j: int| 0 <= j < i ==> #[trigger] rows@[j] == j as u32,
    {
        rows.push(#[verifier::truncate] (i as u32));
    }
    ClipboardView { viewport, rows }
}

/// A picture on the clipboard is what is found there, whatever the text. Without a picture the text
/// is found, unless it is blank. Nothing is found exactly where there is neither.
pub proof fn pictures_come_before_text(
    image: Option<ImageData>,
    text: Option<String>,
    r: Option<ClipBoardContentType>,
)
    requires
        call_ensures(clipboard_content, (image, text), r),
    ensures
        image matches Some(data) ==> r matches Some(ClipBoardContentType::Image(found))
            && found.width == data.width && found.height == data.height && found.bytes@
            == data.bytes@,
        image is None ==> match r {
            Some(ClipBoardContentType::Text(found)) => text matches Some(given) && found@ == given@
                && !blank(given@),
            Some(ClipBoardContentType::Image(_)) => false,
            None => text matches Some(given) ==> blank(given@),
        },
        r is None <==> image is None && (text matches Some(given) ==> blank(given@)),
{
    contents_are_told_apart(r->0, ClipBoardContentType::Image(image->0));
    contents_are_told_apart(r->0, ClipBoardContentType::Text(text->0));
}

/// Two contents count as one exactly where both are texts of the same characters, or both are
/// pictures of the same width, height and pixels.
pub proof fn contents_are_told_apart(a: ClipBoardContentType, b: ClipBoardContentType)
    ensures
        a@ == b@ <==> match (a, b) {
            (ClipBoardContentType::Text(x), ClipBoardContentType::Text(y)) => x@ == y@,
            (ClipBoardContentType::Image(x), ClipBoardContentType::Image(y)) => x.width == y.width
                && x.height == y.height && x.bytes@ == y.bytes@,
            _ => false,
        },
        contents(Some(a)) == Some(a@),
        contents(None) is None,
{
}

/// A watcher adds what it sees exactly where that is not what it added last, and then it is what
/// was added last. An empty clipboard changes nothing.
pub proof fn what_is_new_is_added<W>(
    watcher: &mut ClipboardWatcher,
    now: Option<ClipBoardContentType>,
    r: Option<Message<W>>,
)
    requires
        call_ensures(ClipboardWatcher::observe::<W>, (watcher, now), r),
    ensures
        now is None ==> r is None && final(watcher)@ == old(watcher)@,
        now matches Some(content) ==> final(watcher)@ == Some(content@),
        now matches Some(content) ==> (r is None <==> old(watcher)@ == Some(content@)),
        r matches Some(message) ==> now is Some && (message matches Message::EditClipboardHistory(
            Editable::Create(content),
        ) && content@ == now->0@),
{
}

/// A new watcher adds the first thing that it sees.
pub proof fn the_first_content_is_added<W>(
    start: ClipboardWatcher,
    watcher: &mut ClipboardWatcher,
    now: Option<ClipBoardContentType>,
    r: Option<Message<W>>,
)
    requires
        call_ensures(ClipboardWatcher::new, (), start),
        *old(watcher) == start,
        call_ensures(ClipboardWatcher::observe::<W>, (watcher, now), r),
    ensures
        r is Some <==> now is Some,
{
    what_is_new_is_added::<W>(watcher, now, r);
}

/// What there was to see is all that was not empty, in order.
pub proof fn only_an_empty_clipboard_is_left_out(seen: Seq<Option<Content>>)
    ensures
        present(seen) == seen.filter(|now: Option<Content>| now is Some).map_values(
            |now: Option<Content>| now->0,
        ),
    decreases seen.len(),
{
    reveal(Seq::filter);
    let some = |now: Option<Content>| now is Some;
    let inner = |now: Option<Content>| now->0;
    if seen.len() > 0 {
        only_an_empty_clipboard_is_left_out(seen.drop_last());
        let rest = seen.drop_last().filter(some);
        if seen.last() is Some {
            assert(rest.push(seen.last()).map_values(inner) =~= rest.map_values(inner).push(
                seen.last()->0,
            ));
        }
    }
    assert(present(seen) =~= seen.filter(some).map_values(inner));
}

/// Leaving out repeats leaves out an item exactly where it is the one before it.
pub proof fn only_repeats_are_left_out(items: Seq<Content>, item: Content)
    ensures
        without_repeats(items.push(item)) == if items.len() > 0 && items.last() == item {
            without_repeats(items)
        } else {
            without_repeats(items).push(item)
        },
        without_repeats(Seq::<Content>::empty()) == Seq::<Content>::empty(),
{
    let more = items.push(item);
    assert(more.drop_last() =~= items);
    if items.len() > 0 {
        assert(more[more.len() - 2] == items.last());
    } else {
        assert(without_repeats(more) =~= without_repeats(items).push(item));
    }
}

/// The history page shows the entry in focus as it was copied, a picture with its own size and
/// pixels, and nothing where there is no such entry. It lists every entry, numbered from zero.
pub proof fn the_history_page_shows_the_entry_in_focus(
    clipboard_content: &Vec<ClipBoardContentType>,
    focussed_id: u32,
    r: ClipboardView,
)
    requires
        call_ensures(clipboard_view, (clipboard_content, focussed_id), r),
    ensures
        r.viewport is Empty <==> focussed_id >= clipboard_content@.len(),
        focussed_id < clipboard_content@.len() ==> match clipboard_content@[focussed_id as int] {
            ClipBoardContentType::Text(text) => r.viewport matches Viewport::Text(shown) && shown@
                == text@,
            ClipBoardContentType::Image(image) => r.viewport matches Viewport::Image(shown)
                && shown.width == image.width as u32 && shown.height == image.height as u32
                && shown.pixels@ == image.bytes@,
        },
        r.rows@.len() == clipboard_content@.len(),
        forall|i: int| 0 <= i < r.rows@.len() && i <= u32::MAX ==> #[trigger] r.rows@[i] == i,
{
}


/// A copy of a content is the same text, or the same picture.
pub proof fn copies_of_contents_are_the_same(
    content: &ClipBoardContentType,
    copy: ClipBoardContentType,
)
    requires
        call_ensures(ClipBoardContentType::clone, (content,), copy),
    ensures
        match (*content, copy) {
            (ClipBoardContentType::Text(x), ClipBoardContentType::Text(y)) => x@ == y@,
            (ClipBoardContentType::Image(x), ClipBoardContentType::Image(y)) => x.width == y.width
                && x.height == y.height && x.bytes@ == y.bytes@,
            _ => false,
        },
{
    contents_are_told_apart(*content, copy);
}


} // verus!
