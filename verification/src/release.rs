//! Notices when another release is out.
use std::str::FromStr;
use vstd::prelude::*;

use crate::message::Message;
use crate::text::{occurs_at, occurs_here, same_chars, to_chars, trim_chars, trimmed};

verus! {

/// What a JSON text holds under `key`: nothing where the text is not JSON, else the text of the
/// member, if the text holds an object that has it.
pub uninterp spec fn json_member(text: Seq<char>, key: Seq<char>) -> Option<Option<Seq<char>>>;

/// What a member that may be missing reads.
pub open spec fn member_text(member: Option<Option<String>>) -> Option<Option<Seq<char>>> {
    match member {
        Some(Some(text)) => Some(Some(text@)),
        Some(None) => Some(None),
        None => None,
    }
}

/// `serde_json`'s `Value::from_str`, `Value::get` and `Value::to_string`: the text is parsed, the
/// member `key` is looked up and written as JSON again. Which texts are JSON, and how a member is
/// written, is left to the name `json_member`.
#[verifier::external_body]
fn read_json_member(text: &str, key: &str) -> (r: Option<Option<String>>)
    ensures
        member_text(r) == json_member(text@, key@),
{
    let value = serde_json::Value::from_str(text).ok()?;
    match value.get(key) {
        Some(member) => Some(Some(member.to_string())),
        None => Some(None),
    }
}

/// What is known of the latest release.
#[derive(Debug)]
pub enum ReleaseCheck {
    /// The answer could not be read.
    Unreadable,
    /// It is the one that is running, or has no name, or none of a release.
    Current,
    /// It is another one than the one that is running, older or newer, with this name in quotes.
    Another(String),
}

/// What is known of the latest release, its name by its characters.
pub enum Known {
    Unreadable,
    Current,
    Another(Seq<char>),
}

impl View for ReleaseCheck {
    type V = Known;

    open spec fn view(&self) -> Known {
        match *self {
            ReleaseCheck::Unreadable => Known::Unreadable,
            ReleaseCheck::Current => Known::Current,
            ReleaseCheck::Another(name) => Known::Another(name@),
        }
    }
}

/// `name`, in quotes, is that of a release other than `current`.
pub open spec fn is_other_release(name: Seq<char>, current: Seq<char>) -> bool {
    &&& trimmed(name) != current
    &&& name.len() > 0
    &&& occurs_at(name, seq!['"', 'v'], 0)
}

/// What is known of the latest release from its name, in quotes, if the answer could be read.
pub open spec fn release_check(name: Option<Option<Seq<char>>>, current: Seq<char>) -> Known {
    match name {
        None => Known::Unreadable,
        Some(None) => Known::Current,
        Some(Some(text)) => if is_other_release(text, current) {
            Known::Another(text)
        } else {
            Known::Current
        },
    }
}

/// The version that is running, in quotes. Where it is not known the quotes are empty.
pub fn quoted_version(version: Option<&str>) -> (r: String)
    ensures
        r@ == match version {
            Some(text) => seq!['"'] + text@ + seq!['"'],
            None => seq!['"', '"'],
        },
{
    let mut r = String::new();
    r.push('"');
    if let Some(text) = version {
        let chars = to_chars(text);
        for i in 0..chars.len()
            invariant
                r@ == seq!['"'] + chars@.take(i as int),
        {
            r.push(chars[i]);
        }
        assert(chars@.take(chars.len() as int) == text@);
    }
    r.push('"');
    r
}

/// What is known of the latest release, from its name in quotes.
pub fn judge_release(name: Option<Option<String>>, current_version: &str) -> (r: ReleaseCheck)
    ensures
        r@ == release_check(member_text(name), current_version@),
{
    match name {
        None => ReleaseCheck::Unreadable,
        Some(None) => ReleaseCheck::Current,
        Some(Some(text)) => {
            let chars = to_chars(text.as_str());
            let tag = vec!['"', 'v'];
            assert(tag@ == seq!['"', 'v']);
            if !same_chars(&trim_chars(&chars), &to_chars(current_version)) && chars.len() > 0
                && occurs_here(&chars, &tag, 0) {
                ReleaseCheck::Another(text)
            } else {
                ReleaseCheck::Current
            }
        },
    }
}

/// What is known of the latest release, from the answer that describes it.
pub fn check_release(answer: &str, current_version: &str) -> (r: ReleaseCheck)
    ensures
        r@ == release_check(
            json_member(answer@, seq!['n', 'a', 'm', 'e']),
            current_version@,
        ),
{
    proof {
        reveal_strlit("name");
        assert("name"@ =~= seq!['n', 'a', 'm', 'e']);
    }
    judge_release(read_json_member(answer, "name"), current_version)
}

/// A release of the version that is running is not an update.
pub proof fn running_version_is_no_update(version: Seq<char>)
    ensures
        release_check(
            Some(Some(seq!['"'] + version + seq!['"'])),
            seq!['"'] + version + seq!['"'],
        ) == Known::Current,
{
    let name = seq!['"'] + version + seq!['"'];
    assert(name[0] == '"');
    assert(name.last() == '"');
    reveal_with_fuel(crate::text::trimmed_start, 1);
    reveal_with_fuel(crate::text::trimmed_end, 1);
}

/// The seconds between two things that are done in a round.
pub const REST_SECS: u64 = 30;

/// What is done in a round, over and over.
#[derive(Clone, Copy, Debug, PartialEq, Eq, Structural)]
pub enum Step {
    /// Ask for the latest release.
    Ask,
    /// Tell the window of another one.
    Announce,
    /// Rest before the rankings are saved.
    RestBeforeSaving,
    /// Have the rankings saved.
    Save,
    /// Rest before the next round.
    RestBeforeAsking,
}

/// What is done after `done`, `check` being what was last known of the latest release.
pub open spec fn after(done: Step, check: Known) -> Step {
    match done {
        Step::Ask => if check is Another {
            Step::Announce
        } else {
            Step::RestBeforeSaving
        },
        Step::Announce => Step::RestBeforeSaving,
        Step::RestBeforeSaving => Step::Save,
        Step::Save => Step::RestBeforeAsking,
        Step::RestBeforeAsking => Step::Ask,
    }
}

/// What is done after `done`, `check` being what was last known of the latest release.
pub fn next_step(done: Step, check: &ReleaseCheck) -> (r: Step)
    ensures
        r == after(done, check@),
{
    match done {
        Step::Ask => match check {
            ReleaseCheck::Another(_) => Step::Announce,
            _ => Step::RestBeforeSaving,
        },
        Step::Announce => Step::RestBeforeSaving,
        Step::RestBeforeSaving => Step::Save,
        Step::Save => Step::RestBeforeAsking,
        Step::RestBeforeAsking => Step::Ask,
    }
}

/// What the window is told in `step`.
pub fn step_message<W>(step: Step) -> (r: Option<Message<W>>)
    ensures
        r == match step {
            Step::Announce => Some(Message::<W>::UpdateAvailable),
            Step::Save => Some(Message::<W>::SaveRanking),
            Step::Ask | Step::RestBeforeSaving | Step::RestBeforeAsking => None,
        },
{
    match step {
        Step::Announce => Some(Message::UpdateAvailable),
        Step::Save => Some(Message::SaveRanking),
        Step::Ask | Step::RestBeforeSaving | Step::RestBeforeAsking => None,
    }
}

/// The steps of a round whose answer is `check`, from asking to the next asking.
pub open spec fn round(check: Known) -> Seq<Step> {
    if check is Another {
        seq![
            Step::Ask,
            Step::Announce,
            Step::RestBeforeSaving,
            Step::Save,
            Step::RestBeforeAsking,
            Step::Ask,
        ]
    } else {
        seq![Step::Ask, Step::RestBeforeSaving, Step::Save, Step::RestBeforeAsking, Step::Ask]
    }
}

/// Whatever the answer, a round saves the rankings and comes back to asking, and it announces a
/// release exactly where the answer tells of another one.
pub proof fn rounds_save_and_ask_again(check: Known)
    ensures
        forall|i: int|
            0 <= i < round(check).len() - 1 ==> #[trigger] round(check)[i + 1] == after(
                round(check)[i],
                check,
            ),
        round(check).contains(Step::Save),
        round(check).contains(Step::Announce) <==> check is Another,
        round(check).last() == Step::Ask,
{
    if check is Another {
        assert(round(check)[1] == Step::Announce);
        assert(round(check)[3] == Step::Save);
    } else {
        assert(round(check)[2] == Step::Save);
    }
}

/// Another release is known exactly where the answer names one whose name starts with a v and is
/// not that of the version that is running, white space at its ends aside, and its name is kept as
/// it is. What could not be read is not taken for a release.
pub proof fn other_names_are_other_releases(
    name: Option<Option<String>>,
    current_version: &str,
    r: ReleaseCheck,
)
    requires
        call_ensures(judge_release, (name, current_version), r),
    ensures
        r is Unreadable <==> name is None,
        r is Another <==> (name matches Some(Some(text)) && text@.len() >= 2 && text@[0] == '"'
            && text@[1] == 'v' && trimmed(text@) != current_version@),
        r matches ReleaseCheck::Another(kept) ==> (name matches Some(Some(text)) && kept@ == text@),
{
    if let Some(Some(text)) = name {
        lemma_starts_with_v(text@);
    }
}

proof fn lemma_starts_with_v(text: Seq<char>)
    ensures
        occurs_at(text, seq!['"', 'v'], 0) <==> text.len() >= 2 && text[0] == '"' && text[1]
            == 'v',
{
    if text.len() >= 2 {
        let start = text.subrange(0, 2);
        assert(start[0] == text[0] && start[1] == text[1]);
        if text[0] == '"' && text[1] == 'v' {
            assert(start =~= seq!['"', 'v']);
        }
    }
}

/// The same holds of the name in an answer.
pub proof fn answers_are_judged_by_their_name(
    answer: &str,
    current_version: &str,
    name: Option<Option<String>>,
    judged: ReleaseCheck,
    r: ReleaseCheck,
)
    requires
        member_text(name) == json_member(answer@, seq!['n', 'a', 'm', 'e']),
        call_ensures(judge_release, (name, current_version), judged),
        call_ensures(check_release, (answer, current_version), r),
    ensures
        r@ == judged@,
        r is Unreadable <==> json_member(answer@, seq!['n', 'a', 'm', 'e']) is None,
        r is Another <==> judged is Another,
        r is Another ==> r->Another_0@ == judged->Another_0@,
{
}

/// A version is quoted by a quote on either side, and one that is not known by two quotes.
pub proof fn versions_are_quoted(version: Option<&str>, r: String)
    requires
        call_ensures(quoted_version, (version,), r),
    ensures
        r@.len() >= 2,
        r@[0] == '"',
        r@.last() == '"',
        r@.subrange(1, r@.len() - 1) == match version {
            Some(text) => text@,
            None => seq![],
        },
{
    if let Some(text) = version {
        assert(r@.subrange(1, r@.len() - 1) =~= text@);
    } else {
        assert(r@.subrange(1, r@.len() - 1) =~= Seq::<char>::empty());
    }
}

/// A release is announced right after asking, exactly where the answer tells of another one. The
/// rankings are saved after a rest, and after saving there is a rest before the next asking.
pub proof fn every_step_has_its_turn(done: Step, check: &ReleaseCheck, r: Step)
    requires
        call_ensures(next_step, (done, check), r),
    ensures
        r == Step::Announce <==> done == Step::Ask && check is Another,
        r == Step::RestBeforeSaving <==> done == Step::Announce || done == Step::Ask && !(
        check is Another),
        r == Step::Save <==> done == Step::RestBeforeSaving,
        r == Step::RestBeforeAsking <==> done == Step::Save,
        r == Step::Ask <==> done == Step::RestBeforeAsking,
{
}

/// The window is told of a release when one is announced and of the rankings when they are saved,
/// and of nothing else.
pub proof fn the_window_is_told_of_releases_and_rankings<W>(step: Step, r: Option<Message<W>>)
    requires
        call_ensures(step_message::<W>, (step,), r),
    ensures
        r == Some(Message::<W>::UpdateAvailable) <==> step == Step::Announce,
        r == Some(Message::<W>::SaveRanking) <==> step == Step::Save,
        r is Some ==> step == Step::Announce || step == Step::Save,
{
}


} // verus!
