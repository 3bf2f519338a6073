use rustcast::apps::App;
use rustcast::file_search::{
    home_or_root, metadata_query_step, search_message, FileQuery, QueryAction, QueryEvent,
    QueryThreadMsg, ResultDrain,
};
use rustcast::icons::RgbaImage;
use rustcast::message::Message;

fn found(path: &str) -> Option<(String, App)> {
    Some((
        path.to_string(),
        App {
            ranking: 0,
            display_name: path.to_string(),
            search_name: path.to_string(),
            details: 0,
        },
    ))
}

fn names(apps: &[App]) -> Vec<String> {
    apps.iter().map(|app| app.search_name.clone()).collect()
}

fn drain(
    results: Vec<Option<(String, App)>>,
    max_results: u32,
    size: u32,
) -> (Vec<Vec<String>>, Vec<String>) {
    let mut drain = ResultDrain::new(results.len(), max_results, size);
    let mut results = results.into_iter();
    let mut batches = Vec::new();
    while let Some(index) = drain.next_index() {
        assert!(index < max_results as usize);
        if let Some(batch) = drain.accept(results.next().unwrap()) {
            batches.push(names(&batch));
        }
    }
    let (rest, paths) = drain.finish();
    if let Some(batch) = rest {
        batches.push(names(&batch));
    }
    (batches, paths)
}

#[test]
fn results_are_sent_in_batches() {
    let results = vec![found("a"), None, found("b"), found("c"), None, found("d"), found("e")];
    let (batches, paths) = drain(results, 100, 2);
    assert_eq!(batches, vec![vec!["a", "b"], vec!["c", "d"], vec!["e"]]);
    assert_eq!(paths, ["a", "b", "c", "d", "e"]);
}

#[test]
fn a_full_last_batch_leaves_no_rest() {
    let (batches, paths) = drain(vec![found("a"), found("b")], 100, 2);
    assert_eq!(batches, vec![vec!["a", "b"]]);
    assert_eq!(paths.len(), 2);
}

#[test]
fn no_more_than_the_limit_is_drained() {
    let (batches, paths) = drain(vec![found("a"), None, found("b"), found("c")], 3, 10);
    assert_eq!(batches, vec![vec!["a", "b"]]);
    assert_eq!(paths, ["a", "b"]);
    let (batches, paths) = drain(vec![found("a")], 0, 10);
    assert!(batches.is_empty());
    assert!(paths.is_empty());
}

#[test]
fn a_batch_size_of_zero_sends_at_every_step() {
    let (batches, paths) = drain(vec![found("a"), None, found("b")], 10, 0);
    assert_eq!(batches, vec![vec!["a"], vec![], vec!["b"]]);
    assert_eq!(paths, ["a", "b"]);
}

#[test]
fn thread_messages_are_passed_on() {
    let batch: Message<u64> = search_message(QueryThreadMsg::Batch(vec![found("a").unwrap().1]));
    assert!(matches!(batch, Message::FileSearchResult(apps) if apps.len() == 1));
    let clear: Message<u64> = search_message(QueryThreadMsg::Clear);
    assert!(matches!(clear, Message::FileSearchClear));
    let icon = RgbaImage { width: 1, height: 1, pixels: vec![1, 2, 3, 4] };
    let icons: Message<u64> = search_message(QueryThreadMsg::Icons(vec![(3, icon)]));
    assert!(matches!(icons, Message::FileSearchIcons(icons) if icons[0].0 == 3));
}

#[test]
fn home_falls_back_to_the_root() {
    assert_eq!(home_or_root(Some("/Users/me".to_string())), "/Users/me");
    assert_eq!(home_or_root(None), "/");
}

#[test]
fn results_are_sent_when_they_are_ready() {
    assert!(matches!(metadata_query_step(QueryEvent::Ticked, "/"), QueryAction::TakeFlag));
    let taken = |ready: bool| metadata_query_step(QueryEvent::FlagTaken { ready }, "/");
    assert!(matches!(taken(true), QueryAction::Count));
    assert!(matches!(taken(false), QueryAction::Poll));
    let counted = |results: usize| metadata_query_step(QueryEvent::Counted { results }, "/");
    assert!(matches!(counted(1), QueryAction::SendBatches));
    assert!(matches!(counted(0), QueryAction::Poll));
}

#[test]
fn icons_follow_the_batches_of_their_results() {
    let event = QueryEvent::BatchesSent { paths: vec!["/a".to_string(), "/b".to_string()] };
    match metadata_query_step(event, "/") {
        QueryAction::SendIcons(paths) => assert_eq!(paths, ["/a", "/b"]),
        other => panic!("{other:?}"),
    }
    assert!(matches!(metadata_query_step(QueryEvent::IconsSent, "/"), QueryAction::Poll));
}

fn asked(text: &str) -> FileQuery {
    FileQuery { search_text: text.to_string(), dirs: vec!["~/Desktop".to_string()] }
}

#[test]
fn a_new_query_is_cleared_then_started() {
    let poll = |changed: bool| metadata_query_step(QueryEvent::Polled { changed }, "/");
    assert!(matches!(poll(true), QueryAction::ReadQuery));
    assert!(matches!(poll(false), QueryAction::Check));
    let query = match metadata_query_step(QueryEvent::QueryRead(asked("ab c")), "/me") {
        QueryAction::ClearFlag(query) => query,
        other => panic!("{other:?}"),
    };
    let query = match metadata_query_step(QueryEvent::FlagCleared(query), "/me") {
        QueryAction::Stop(query) => query,
        other => panic!("{other:?}"),
    };
    let query = match metadata_query_step(QueryEvent::Stopped(query), "/me") {
        QueryAction::SendClear(query) => query,
        other => panic!("{other:?}"),
    };
    match metadata_query_step(QueryEvent::ClearSent(query), "/me") {
        QueryAction::Search(search) => {
            assert_eq!(search.pattern, "*ab*c*");
            assert_eq!(search.scopes, ["/me/Desktop"]);
        }
        other => panic!("{other:?}"),
    }
    assert!(matches!(metadata_query_step(QueryEvent::Searching, "/"), QueryAction::Check));
}

#[test]
fn short_queries_are_not_started() {
    let start = |text: &str| metadata_query_step(QueryEvent::ClearSent(asked(text)), "/me");
    assert!(matches!(start(""), QueryAction::Tick));
    assert!(matches!(start("a"), QueryAction::Tick));
    assert!(matches!(start("ab"), QueryAction::Search(_)));
    assert!(matches!(start("ß"), QueryAction::Search(_)));
}

#[test]
fn a_raised_flag_is_used_up() {
    let mut flag = true;
    let mut drains = 0;
    let mut polls = 0;
    let mut action = QueryAction::Tick;
    while polls < 3 {
        let event = match action {
            QueryAction::Tick => QueryEvent::Ticked,
            QueryAction::TakeFlag => QueryEvent::FlagTaken { ready: std::mem::take(&mut flag) },
            QueryAction::Count => QueryEvent::Counted { results: 4 },
            QueryAction::SendBatches => {
                drains += 1;
                QueryEvent::BatchesSent { paths: vec![] }
            }
            QueryAction::SendIcons(_) => QueryEvent::IconsSent,
            QueryAction::Poll => {
                polls += 1;
                QueryEvent::Polled { changed: false }
            }
            QueryAction::Check => QueryEvent::Checked { closed: false },
            other => panic!("{other:?}"),
        };
        action = metadata_query_step(event, "/");
    }
    assert_eq!(drains, 1);
}

#[test]
fn the_thread_ends_when_the_channel_is_closed() {
    let check = |closed: bool| metadata_query_step(QueryEvent::Checked { closed }, "/");
    assert!(matches!(check(true), QueryAction::Finish));
    assert!(matches!(check(false), QueryAction::Tick));
}
