use rustcast::apps::{App, AppIndex};
use rustcast::ranking::rank_order;
use std::cmp::Ordering;

fn ranked(search: &str, display: &str, ranking: i32) -> App {
    App {
        ranking,
        display_name: display.to_string(),
        search_name: search.to_string(),
        details: 0,
    }
}

#[test]
fn rank_order_is_by_ranking_then_name() {
    let names = ["", "a", "A", "ab", "b", "ä", "z", "日本", "\u{10ffff}", "\u{ffff}"];
    let rankings = [i32::MIN, -1, 0, 1, i32::MAX];
    for left_name in names {
        for right_name in names {
            for left_ranking in rankings {
                for right_ranking in rankings {
                    let left = ranked("l", left_name, left_ranking);
                    let right = ranked("r", right_name, right_ranking);
                    let expected = right
                        .ranking
                        .cmp(&left.ranking)
                        .then_with(|| left.display_name.cmp(&right.display_name));
                    assert_eq!(rank_order(&left, &right), expected);
                }
            }
        }
    }
    assert_eq!(rank_order(&ranked("l", "b", 2), &ranked("r", "a", 1)), Ordering::Less);
}

#[test]
fn top_ranked_sorts_and_cuts() {
    let index = AppIndex::from_apps(vec![
        ranked("one", "One", 1),
        ranked("never", "Never", 0),
        ranked("five b", "Five B", 5),
        ranked("five a", "Five A", 5),
        ranked("less", "Less", -3),
        ranked("nine", "Nine", 9),
    ]);
    let names = |limit: usize| -> Vec<String> {
        index.top_ranked(limit).into_iter().map(|app| app.display_name).collect()
    };
    assert_eq!(names(3), ["Nine", "Five A", "Five B"]);
    assert_eq!(names(10), ["Nine", "Five A", "Five B", "One"]);
    assert!(names(0).is_empty());
}

#[test]
fn many_apps_are_ranked() {
    let mut apps = Vec::new();
    for i in 0..5000i32 {
        apps.push(ranked(&format!("app {i}"), &format!("App {}", i % 7), (i * 7919) % 101 - 10));
    }
    let index = AppIndex::from_apps(apps.clone());
    let mut expected: Vec<App> = apps.into_iter().filter(|app| app.ranking > 0).collect();
    expected.sort_by(|left, right| {
        right.ranking.cmp(&left.ranking).then_with(|| left.display_name.cmp(&right.display_name))
    });
    let top = index.top_ranked(usize::MAX);
    assert_eq!(top.len(), expected.len());
    for (found, wanted) in top.iter().zip(&expected) {
        assert_eq!(found.ranking, wanted.ranking);
        assert_eq!(found.display_name, wanted.display_name);
        assert_eq!(found.search_name, wanted.search_name);
    }
}
