//! The window.
use vstd::prelude::*;

use crate::apps::{
    answers, found_names_continue_the_prefix, has_rank, lemma_best_of, name_matches, App, AppIndex,
};
use crate::clipboard::ClipBoardContentType;
use crate::message::Page;
use crate::ranking::is_top_of;
use crate::text::text_less;

verus! {

/// The number of apps that are shown before anything is searched.
pub const FREQUENT_RESULTS: usize = 5;

/// The window of the launcher. `T` is the host's theme, and `F` what it holds of another app.
#[derive(Clone, Debug)]
pub struct Tile<T, F> {
    /// How the window looks.
    pub theme: T,
    /// The entry that is selected.
    pub focus_id: u32,
    /// What is searched.
    pub query: String,
    /// The mode of the window.
    pub current_mode: String,
    /// Whether there is another release than the one that is running.
    pub update_available: bool,
    /// The rankings that were saved.
    pub ranking: Vec<(String, i32)>,
    /// What is searched, in lower case.
    pub query_lc: String,
    /// What the search found.
    pub results: Vec<App>,
    /// The apps.
    pub options: AppIndex,
    /// The emojis, as apps.
    pub emoji_apps: AppIndex,
    /// Whether the window can be seen.
    pub visible: bool,
    /// Whether the window has the focus.
    pub focused: bool,
    /// The app that had the focus before the window opened.
    pub frontmost: Option<F>,
    /// What was copied.
    pub clipboard_content: Vec<ClipBoardContentType>,
    /// The page that is shown.
    pub page: Page,
}

impl<T, F> Tile<T, F> {
    /// The apps that the page searches, in the order in which they are walked.
    pub open spec fn searched(self) -> Seq<App> {
        match self.page {
            Page::Main => self.options.entries(),
            Page::EmojiSearch => self.emoji_apps.entries(),
            _ => seq![],
        }
    }

    /// The apps that the page searches, by name.
    pub open spec fn searched_by_name(self) -> Map<Seq<char>, App> {
        match self.page {
            Page::Main => self.options@,
            Page::EmojiSearch => self.emoji_apps@,
            _ => Map::empty(),
        }
    }

    /// What the query finds on the page.
    pub open spec fn found(self) -> Seq<App> {
        self.searched().filter(answers(self.query_lc@))
    }

    /// The theme of the window.
    pub fn theme<W>(&self, _window: W) -> (r: Option<T>) where T: Clone
        ensures
            r is Some,
            cloned::<T>(self.theme, r->0),
    {
        Some(self.theme.clone())
    }

    /// Searches for what the query has become.
    pub fn handle_search_query_changed(&mut self)
        ensures
            searches(*old(self), *final(self)),
            final(self).results@.no_duplicates(),
            forall|app: App| #[trigger]
                final(self).results@.contains(app) <==> old(self).searched_by_name().contains_key(
                    app.search_name@,
                ) && old(self).searched_by_name()[app.search_name@] == app && name_matches(
                    app.search_name@,
                    old(self).query_lc@,
                ),
    {
        let query = self.query_lc.clone();
        let results = match self.page {
            Page::Main => self.options.search_prefix(query.as_str()),
            Page::EmojiSearch => self.emoji_apps.search_prefix(query.as_str()),
            _ => AppIndex::empty().search_prefix(query.as_str()),
        };
        self.results = results;
    }

    /// The apps that are used most.
    pub fn frequent_results(&self) -> (r: Vec<App>)
        ensures
            is_top_of(
                r@,
                self.options.entries().filter(has_rank()),
                FREQUENT_RESULTS as int,
            ),
    {
        self.options.top_ranked(FREQUENT_RESULTS)
    }

    /// Keeps the app that has the focus, to give it back later.
    pub fn capture_frontmost(&mut self, frontmost: Option<F>)
        ensures
            captures(*old(self), frontmost, *final(self)),
    {
        self.frontmost = frontmost;
    }

    /// The app that is to get the focus back, if one is kept. It is kept no longer.
    pub fn restore_frontmost(&mut self) -> (r: Option<F>)
        ensures
            restores(*old(self), r, *final(self)),
    {
        self.frontmost.take()
    }
}

/// `after` is `before` with what its query finds as results.
pub open spec fn searches<T, F>(before: Tile<T, F>, after: Tile<T, F>) -> bool {
    &&& after.results@ == before.found()
    &&& after == Tile { results: after.results, ..before }
}

/// `after` is `before` with `frontmost` kept as the app that had the focus.
pub open spec fn captures<T, F>(
    before: Tile<T, F>,
    frontmost: Option<F>,
    after: Tile<T, F>,
) -> bool {
    after == Tile { frontmost, ..before }
}

/// `given` is the app that `before` keeps, and `after` is `before` without it.
pub open spec fn restores<T, F>(
    before: Tile<T, F>,
    given: Option<F>,
    after: Tile<T, F>,
) -> bool {
    given == before.frontmost && after == Tile { frontmost: None, ..before }
}

/// Pages that do not search find nothing, whatever the query.
pub proof fn other_pages_find_nothing<T, F>(tile: Tile<T, F>)
    requires
        tile.page != Page::Main,
        tile.page != Page::EmojiSearch,
    ensures
        tile.found() == Seq::<App>::empty(),
{
    reveal(Seq::filter);
}

/// Searching again changes nothing: `handle_search_query_changed` leads from `start` to `once` and
/// then to `twice`, which finds the same and differs in nothing else.
pub proof fn searching_again_changes_nothing<T, F>(
    start: Tile<T, F>,
    once: Tile<T, F>,
    twice: Tile<T, F>,
)
    requires
        searches(start, once),
        searches(once, twice),
    ensures
        twice.results@ == once.results@,
        twice == (Tile { results: twice.results, ..once }),
        once.found() == start.found(),
{
}

/// When an app is kept and the kept one is given back twice, the first time gives the app that was
/// kept and the second time gives none, and nothing else of the window changes: `capture_frontmost`
/// leads from `start` to `kept`, and `restore_frontmost` to `given_back` and then to `end`.
pub proof fn kept_app_is_given_back_once<T, F>(
    start: Tile<T, F>,
    frontmost: Option<F>,
    kept: Tile<T, F>,
    first: Option<F>,
    given_back: Tile<T, F>,
    second: Option<F>,
    end: Tile<T, F>,
)
    requires
        captures(start, frontmost, kept),
        restores(kept, first, given_back),
        restores(given_back, second, end),
    ensures
        first == frontmost,
        second is None,
        given_back == (Tile { frontmost: None, ..start }),
        end == given_back,
{
}

/// The page alone decides which apps are searched: the main page searches all its apps, the emoji
/// page all emojis, and no other page anything. Whatever the query, it finds exactly those of them
/// whose name is the query with something, or nothing, behind it, each once, and the search changes
/// nothing of the window but its results.
pub proof fn a_page_searches_all_its_apps<T, F>(tile: &mut Tile<T, F>, r: ())
    requires
        call_ensures(Tile::<T, F>::handle_search_query_changed, (tile,), r),
    ensures
        old(tile).page == Page::Main ==> forall|app: App| #[trigger]
            final(tile).results@.contains(app) <==> old(tile).options@.contains_key(
                app.search_name@,
            ) && old(tile).options@[app.search_name@] == app && exists|behind: Seq<char>|
                app.search_name@ == #[trigger] (old(tile).query_lc@ + behind),
        old(tile).page == Page::EmojiSearch ==> forall|app: App| #[trigger]
            final(tile).results@.contains(app) <==> old(tile).emoji_apps@.contains_key(
                app.search_name@,
            ) && old(tile).emoji_apps@[app.search_name@] == app && exists|behind: Seq<char>|
                app.search_name@ == #[trigger] (old(tile).query_lc@ + behind),
        old(tile).page != Page::Main && old(tile).page != Page::EmojiSearch
            ==> final(tile).results@.len() == 0,
        final(tile).results@.no_duplicates(),
        *final(tile) == (Tile { results: final(tile).results, ..*old(tile) }),
{
    let query = old(tile).query_lc@;
    assert forall|name: Seq<char>| #[trigger]
        name_matches(name, query) <==> exists|behind: Seq<char>|
            name == #[trigger] (query + behind) by {
        found_names_continue_the_prefix(name, query);
    }
    if old(tile).page != Page::Main && old(tile).page != Page::EmojiSearch {
        if final(tile).results@.len() > 0 {
            assert(final(tile).results@.contains(final(tile).results@[0]));
        }
    }
}

/// The apps that are used most are the best five of all that rank above zero, however high: nothing
/// else is among them, none twice, and they stand from the highest ranking down, those of one
/// ranking by name. One that ranks above zero is left out only where there are five others, and
/// then by none that ranks below it.
pub proof fn the_most_used_apps_are_shown<T, F>(tile: &Tile<T, F>, r: Vec<App>)
    requires
        call_ensures(Tile::<T, F>::frequent_results, (tile,), r),
        tile.options.wf(),
    ensures
        r@.len() <= 5,
        r@.no_duplicates(),
        forall|app: App| #[trigger]
            r@.contains(app) ==> app.ranking > 0 && tile.options@.contains_key(app.search_name@)
                && tile.options@[app.search_name@] == app,
        forall|i: int, j: int|
            0 <= i < j < r@.len() ==> (#[trigger] r@[i]).ranking > (#[trigger] r@[j]).ranking
                || r@[i].ranking == r@[j].ranking && !text_less(
                r@[j].display_name@,
                r@[i].display_name@,
            ),
        forall|name: Seq<char>, i: int|
            #![trigger tile.options@.contains_key(name), r@[i]]
            tile.options@.contains_key(name) && tile.options@[name].ranking > 0 && !r@.contains(
                tile.options@[name],
            ) && 0 <= i < r@.len() ==> r@[i].ranking > tile.options@[name].ranking
                || r@[i].ranking == tile.options@[name].ranking && !text_less(
                tile.options@[name].display_name@,
                r@[i].display_name@,
            ),
        forall|name: Seq<char>| #[trigger]
            tile.options@.contains_key(name) && tile.options@[name].ranking > 0 ==> r@.contains(
                tile.options@[name],
            ) || r@.len() == 5,
        forall|name: Seq<char>| #[trigger]
            tile.options@.contains_key(name) && tile.options@[name].ranking > 0 ==> r@.len() > 0
                && r@[0].ranking >= tile.options@[name].ranking,
{
    lemma_best_of(r@, tile.options.entries(), FREQUENT_RESULTS as int);
}

/// Keeping an app changes nothing but the app that is kept, and giving it back gives that app and
/// changes nothing but that it is kept no longer.
pub proof fn only_the_kept_app_changes<T, F>(
    tile: &mut Tile<T, F>,
    frontmost: Option<F>,
    r: (),
    kept: &mut Tile<T, F>,
    given: Option<F>,
)
    requires
        call_ensures(Tile::<T, F>::capture_frontmost, (tile, frontmost), r),
        call_ensures(Tile::<T, F>::restore_frontmost, (kept,), given),
    ensures
        *final(tile) == (Tile { frontmost, ..*old(tile) }),
        given == old(kept).frontmost,
        *final(kept) == (Tile { frontmost: None, ..*old(kept) }),
{
}

/// The window always has a theme, which is a copy of its own.
pub proof fn the_window_has_its_theme<T: Clone, F, W>(tile: &Tile<T, F>, window: W, r: Option<T>)
    requires
        call_ensures(Tile::<T, F>::theme::<W>, (tile, window), r),
    ensures
        r matches Some(theme) && cloned::<T>(tile.theme, theme),
{
}


} // verus!
