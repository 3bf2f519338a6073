use rustcast::message::Message;
use rustcast::release::{
    check_release, judge_release, next_step, quoted_version, step_message, ReleaseCheck, Step,
    REST_SECS,
};

fn name(text: &str) -> Option<Option<String>> {
    Some(Some(text.to_string()))
}

fn another(check: ReleaseCheck) -> Option<String> {
    match check {
        ReleaseCheck::Another(name) => Some(name),
        _ => None,
    }
}

#[test]
fn versions_are_quoted() {
    assert_eq!(quoted_version(Some("v0.5.1")), "\"v0.5.1\"");
    assert_eq!(quoted_version(Some("")), "\"\"");
    assert_eq!(quoted_version(None), "\"\"");
}

#[test]
fn another_version_is_an_update() {
    let current = quoted_version(Some("v0.5.1"));
    let judge = |found: Option<Option<String>>| judge_release(found, &current);
    assert_eq!(another(judge(name("\"v0.6.0\""))), Some("\"v0.6.0\"".to_string()));
    assert_eq!(another(judge(name("\"v0.4.0\""))), Some("\"v0.4.0\"".to_string()));
    assert!(matches!(judge(name("\"0.6.0\"")), ReleaseCheck::Current));
    assert!(matches!(judge(name("null")), ReleaseCheck::Current));
    assert!(matches!(judge(name("")), ReleaseCheck::Current));
    assert!(matches!(judge(Some(None)), ReleaseCheck::Current));
    assert!(matches!(judge(None), ReleaseCheck::Unreadable));
}

#[test]
fn the_running_version_is_no_update() {
    let current = quoted_version(Some("v0.5.1"));
    assert!(matches!(judge_release(name("\"v0.5.1\""), &current), ReleaseCheck::Current));
    assert!(matches!(judge_release(name("\"v0.5.1\" \n"), &current), ReleaseCheck::Current));
}

#[test]
fn answers_are_read_as_json() {
    let current = quoted_version(Some("v0.5.1"));
    let check = |answer: &str| check_release(answer, &current);
    let found = another(check("{\"id\": 7, \"name\": \"v0.6.0\"}"));
    assert_eq!(found, Some("\"v0.6.0\"".to_string()));
    assert_eq!(another(check("{\"name\": \"\\u0076 0\"}")), Some("\"v 0\"".to_string()));
    assert!(matches!(check("{\"name\": \"v0.5.1\"}"), ReleaseCheck::Current));
    assert!(matches!(check("{\"name\": [\"v0.6.0\"]}"), ReleaseCheck::Current));
    assert!(matches!(check("{\"tag\": \"v0.6.0\"}"), ReleaseCheck::Current));
    assert!(matches!(check("[\"v0.6.0\"]"), ReleaseCheck::Current));
    assert!(matches!(check("<html>"), ReleaseCheck::Unreadable));
    assert!(matches!(check(""), ReleaseCheck::Unreadable));
}

#[test]
fn rounds_go_from_asking_to_asking() {
    let steps = |check: ReleaseCheck| {
        let mut steps = vec![Step::Ask];
        while steps.len() == 1 || steps.last() != Some(&Step::Ask) {
            steps.push(next_step(*steps.last().unwrap(), &check));
        }
        steps
    };
    let quiet = [
        Step::Ask,
        Step::RestBeforeSaving,
        Step::Save,
        Step::RestBeforeAsking,
        Step::Ask,
    ];
    assert_eq!(steps(ReleaseCheck::Current), quiet);
    assert_eq!(steps(ReleaseCheck::Unreadable), quiet);
    assert_eq!(
        steps(ReleaseCheck::Another("\"v1\"".to_string())),
        [
            Step::Ask,
            Step::Announce,
            Step::RestBeforeSaving,
            Step::Save,
            Step::RestBeforeAsking,
            Step::Ask,
        ]
    );
    assert_eq!(REST_SECS, 30);
}

#[test]
fn steps_tell_the_window() {
    let told = |step: Step| -> Option<Message<u64>> { step_message(step) };
    assert!(matches!(told(Step::Announce), Some(Message::UpdateAvailable)));
    assert!(matches!(told(Step::Save), Some(Message::SaveRanking)));
    assert!(told(Step::Ask).is_none());
    assert!(told(Step::RestBeforeSaving).is_none());
    assert!(told(Step::RestBeforeAsking).is_none());
}
