use rustcast::apps::{matches_name, App, AppIndex};

fn app(name: &str, ranking: i32, details: u64) -> App {
    App {
        ranking,
        display_name: name.to_uppercase(),
        search_name: name.to_string(),
        details,
    }
}

fn sorted_names(apps: &[App]) -> Vec<String> {
    let mut names: Vec<String> = apps.iter().map(|app| app.search_name.clone()).collect();
    names.sort();
    names
}

fn index() -> AppIndex {
    AppIndex::from_apps(vec![
        app("safari", 0, 1),
        app("visual studio code", 3, 2),
        app("system settings", 0, 3),
        app("xcode", 7, 4),
    ])
}

#[test]
fn names_match_at_their_start() {
    let names = ["", "a", "safari", "visual studio code", " code", "xcode", "äpfel und birnen", "a  b"];
    let prefixes = ["", " ", "a", "s", "saf", "code", "studio", "und", "ä", "b", "safari browser"];
    for name in names {
        for prefix in prefixes {
            assert_eq!(matches_name(name, prefix), name.starts_with(prefix), "{name:?} {prefix:?}");
        }
    }
    assert!(matches_name("visual studio code", "visual s"));
    assert!(!matches_name("visual studio code", "code"));
    assert!(!matches_name("b a", "a"));
}

#[test]
fn search_finds_exactly_the_matches() {
    let index = index();
    assert_eq!(sorted_names(&index.search_prefix("s")), ["safari", "system settings"]);
    assert_eq!(sorted_names(&index.search_prefix("visual")), ["visual studio code"]);
    assert!(index.search_prefix("code").is_empty());
    assert!(index.search_prefix("zzz").is_empty());
    let found = index.search_prefix("xcode");
    assert_eq!(found.len(), 1);
    assert_eq!(found[0].ranking, 7);
    assert_eq!(found[0].details, 4);
    assert_eq!(found[0].display_name, "XCODE");
}

#[test]
fn empty_search_finds_every_app() {
    assert_eq!(index().search_prefix("").len(), 4);
}

#[test]
fn typing_on_narrows_the_search() {
    let index = index();
    let query = "system settings";
    let mut before = index.search_prefix("").len();
    for end in 1..=query.len() {
        let now = index.search_prefix(&query[..end]).len();
        assert!(now <= before);
        before = now;
    }
    assert_eq!(before, 1);
}

#[test]
fn empty_index_finds_nothing() {
    let index = AppIndex::empty();
    assert!(index.search_prefix("").is_empty());
    assert!(index.get_rankings().is_empty());
    assert!(index.top_ranked(3).is_empty());
}

#[test]
fn last_app_of_a_name_is_indexed() {
    let index = AppIndex::from_apps(vec![app("mail", 1, 10), app("maps", 2, 11), app("mail", 5, 12)]);
    let found = index.search_prefix("mail");
    assert_eq!(found.len(), 1);
    assert_eq!(found[0].ranking, 5);
    assert_eq!(found[0].details, 12);
    assert_eq!(index.search_prefix("").len(), 2);
}

#[test]
fn update_ranking_counts_one_use() {
    let mut index = index();
    index.update_ranking("safari");
    index.update_ranking("xcode");
    index.update_ranking("xcode");
    index.update_ranking("nothing of this name");
    let mut rankings = index.get_rankings();
    rankings.sort();
    assert_eq!(
        rankings,
        vec![
            ("safari".to_string(), 1),
            ("visual studio code".to_string(), 3),
            ("xcode".to_string(), 9),
        ]
    );
    assert_eq!(index.search_prefix("xcode")[0].details, 4);
}

#[test]
fn set_ranking_gives_the_rank() {
    let mut index = index();
    index.set_ranking("safari", 40);
    index.set_ranking("xcode", -2);
    index.set_ranking("visual studio code", 0);
    index.set_ranking("nothing of this name", 8);
    assert_eq!(index.get_rankings(), vec![("safari".to_string(), 40)]);
    assert_eq!(index.search_prefix("xcode")[0].ranking, -2);
}

#[test]
fn later_ranking_counts() {
    let mut index = index();
    index.set_ranking("safari", 1);
    index.set_ranking("xcode", 2);
    index.set_ranking("safari", 3);
    assert_eq!(index.search_prefix("safari")[0].ranking, 3);
    assert_eq!(index.search_prefix("xcode")[0].ranking, 2);
}

#[test]
fn saved_rankings_come_back() {
    let saved = index().get_rankings();
    let mut fresh = AppIndex::from_apps(vec![
        app("xcode", 0, 4),
        app("safari", 0, 1),
        app("system settings", 0, 3),
        app("visual studio code", 0, 2),
    ]);
    for (name, rank) in &saved {
        fresh.set_ranking(name, *rank);
    }
    let mut expected = saved;
    expected.sort();
    let mut rankings = fresh.get_rankings();
    rankings.sort();
    assert_eq!(rankings, expected);
}

#[test]
fn copies_of_an_index_are_independent() {
    let mut first = index();
    let second = first.clone();
    first.set_ranking("safari", 9);
    assert_eq!(first.search_prefix("safari")[0].ranking, 9);
    assert_eq!(second.search_prefix("safari")[0].ranking, 0);
    assert_eq!(second.search_prefix("").len(), 4);
}
