use rustcast::apps::{App, AppIndex};
use rustcast::message::Page;
use rustcast::tile::Tile;

fn entry(name: &str, ranking: i32) -> App {
    App {
        ranking,
        display_name: name.to_string(),
        search_name: name.to_string(),
        details: 0,
    }
}

fn tile(page: Page, query: &str) -> Tile<String, u32> {
    Tile {
        theme: "dark".to_string(),
        focus_id: 0,
        query: query.to_string(),
        current_mode: "default".to_string(),
        update_available: false,
        ranking: vec![],
        query_lc: query.to_string(),
        results: vec![entry("left over", 0)],
        options: AppIndex::from_apps(vec![
            entry("smile", 1),
            entry("smart", 0),
            entry("b", 2),
            entry("c", 3),
            entry("d", 4),
            entry("e", 5),
            entry("f", 6),
        ]),
        emoji_apps: AppIndex::from_apps(vec![entry("big smile", 0)]),
        visible: true,
        focused: true,
        frontmost: None,
        clipboard_content: vec![],
        page,
    }
}

fn found(page: Page, query: &str) -> Vec<String> {
    let mut tile = tile(page, query);
    tile.handle_search_query_changed();
    let once: Vec<String> = tile.results.iter().map(|app| app.search_name.clone()).collect();
    tile.handle_search_query_changed();
    let twice: Vec<String> = tile.results.iter().map(|app| app.search_name.clone()).collect();
    assert_eq!(once, twice);
    assert_eq!(tile.query, query);
    let mut names = once;
    names.sort();
    names
}

#[test]
fn each_page_searches_its_own_apps() {
    assert_eq!(found(Page::Main, "sm"), ["smart", "smile"]);
    assert_eq!(found(Page::EmojiSearch, "big"), ["big smile"]);
    assert!(found(Page::EmojiSearch, "sm").is_empty());
    assert!(found(Page::Main, "big").is_empty());
    assert!(found(Page::Settings, "sm").is_empty());
    assert!(found(Page::ClipboardHistory, "").is_empty());
}

#[test]
fn five_apps_are_frequent() {
    let names: Vec<String> = tile(Page::Main, "")
        .frequent_results()
        .into_iter()
        .map(|app| app.search_name)
        .collect();
    assert_eq!(names, ["f", "e", "d", "c", "b"]);
}

#[test]
fn the_app_in_front_is_given_back_once() {
    let mut tile = tile(Page::Main, "");
    tile.capture_frontmost(Some(12));
    assert_eq!(tile.frontmost, Some(12));
    assert_eq!(tile.restore_frontmost(), Some(12));
    assert_eq!(tile.restore_frontmost(), None);
    assert_eq!(tile.frontmost, None);
    assert_eq!(tile.results.len(), 1);
}

#[test]
fn the_theme_is_that_of_the_window() {
    assert_eq!(tile(Page::Main, "").theme(1), Some("dark".to_string()));
}
