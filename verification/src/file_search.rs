//! The file search: what its thread does next, and how its results reach the window.
use vstd::prelude::*;

use crate::apps::App;
use crate::batches::{bounded, concatenated, filled, lemma_concatenated_push};
use crate::icons::RgbaImage;
use crate::message::Message;
use crate::pattern::{
    a_search_looks_in_its_directories, configure_metadata_query, configures, expanded,
    search_pattern, MetadataSearch,
};
use crate::text::blank;

verus! {

/// A result of the query: its path and the app that it is shown as.
pub type Found = (String, App);

/// How far the results of a query are drained.
pub struct Drained {
    /// The place of the next result.
    pub index: int,
    /// The number of results to drain.
    pub limit: int,
    /// The number of apps in a batch.
    pub size: int,
    /// The apps that wait for their batch.
    pub batch: Seq<App>,
    /// The paths of the results that were accepted.
    pub paths: Seq<String>,
}

/// The start of a drain of `count` results.
pub open spec fn undrained(count: int, max_results: int, size: int) -> Drained {
    Drained {
        index: 0,
        limit: if count < max_results {
            count
        } else {
            max_results
        },
        size,
        batch: seq![],
        paths: seq![],
    }
}

/// The apps that wait once the next result is there.
pub open spec fn gathered(drain: Drained, found: Option<Found>) -> Seq<App> {
    match found {
        Some(result) => drain.batch.push(result.1),
        None => drain.batch,
    }
}

/// The batch goes out: it is full.
pub open spec fn flushes(drain: Drained, found: Option<Found>) -> bool {
    gathered(drain, found).len() >= drain.size
}

/// The drain once the next result is there.
pub open spec fn drained(drain: Drained, found: Option<Found>) -> Drained {
    Drained {
        index: drain.index + 1,
        batch: if flushes(drain, found) {
            seq![]
        } else {
            gathered(drain, found)
        },
        paths: match found {
            Some(result) => drain.paths.push(result.0),
            None => drain.paths,
        },
        ..drain
    }
}

/// The drain once all of `results` have come, one behind the other.
pub open spec fn drained_by(drain: Drained, results: Seq<Option<Found>>) -> Drained
    decreases results.len(),
{
    if results.len() == 0 {
        drain
    } else {
        drained(drained_by(drain, results.drop_last()), results.last())
    }
}

/// The batches that have gone out once all of `results` have come, one behind the other.
pub open spec fn flushed(drain: Drained, results: Seq<Option<Found>>) -> Seq<Seq<App>>
    decreases results.len(),
{
    if results.len() == 0 {
        seq![]
    } else {
        let before = drained_by(drain, results.drop_last());
        let batches = flushed(drain, results.drop_last());
        if flushes(before, results.last()) {
            batches.push(gathered(before, results.last()))
        } else {
            batches
        }
    }
}

/// The batches with the one that is left at the end, unless it is empty.
pub open spec fn with_rest(batches: Seq<Seq<App>>, rest: Seq<App>) -> Seq<Seq<App>> {
    if rest.len() > 0 {
        batches.push(rest)
    } else {
        batches
    }
}

/// The results that can be shown.
pub open spec fn accepted(results: Seq<Option<Found>>) -> Seq<Found>
    decreases results.len(),
{
    if results.len() == 0 {
        seq![]
    } else {
        match results.last() {
            Some(result) => accepted(results.drop_last()).push(result),
            None => accepted(results.drop_last()),
        }
    }
}

/// The apps of all results.
pub open spec fn found_apps(results: Seq<Found>) -> Seq<App> {
    results.map_values(|result: Found| result.1)
}

/// The paths of all results.
pub open spec fn found_paths(results: Seq<Found>) -> Seq<String> {
    results.map_values(|result: Found| result.0)
}

/// Whatever results come, the apps that are sent are those of the results that can be shown, in
/// order, and the paths that are kept are theirs. As many results are drained as there are, but no
/// more than `max_results`, and of those no more are shown. Where `size` is above zero, no batch is
/// empty or holds more than `size` apps, and all but the last hold as many.
pub proof fn results_go_out_in_order(
    count: int,
    max_results: int,
    size: int,
    results: Seq<Option<Found>>,
)
    ensures
        ({
            let start = undrained(count, max_results, size);
            let end = drained_by(start, results);
            let batches = with_rest(flushed(start, results), end.batch);
            &&& concatenated(batches) == found_apps(accepted(results))
            &&& end.paths == found_paths(accepted(results))
            &&& end.index == results.len()
            &&& size > 0 ==> bounded(batches, size) && filled(batches, size)
            &&& results.len() <= start.limit ==> accepted(results).len() <= max_results
            &&& end.limit <= count && end.limit <= max_results
            &&& end.limit == count || end.limit == max_results
        }),
{
    let start = undrained(count, max_results, size);
    let end = drained_by(start, results);
    let batches = flushed(start, results);
    lemma_results_go_out(start, results);
    lemma_concatenated_push(batches, end.batch);
    if end.batch.len() == 0 {
        assert(concatenated(batches) + end.batch =~= concatenated(batches));
    }
}

proof fn lemma_results_go_out(start: Drained, results: Seq<Option<Found>>)
    requires
        start.index == 0,
        start.batch.len() == 0,
        start.paths.len() == 0,
    ensures
        ({
            let end = drained_by(start, results);
            let batches = flushed(start, results);
            &&& concatenated(batches) + end.batch == found_apps(accepted(results))
            &&& end.paths == found_paths(accepted(results))
            &&& start.size > 0 ==> forall|i: int|
                0 <= i < batches.len() ==> (#[trigger] batches[i]).len() == start.size
            &&& end.index == results.len()
            &&& end.limit == start.limit
            &&& end.size == start.size
            &&& start.size > 0 ==> end.batch.len() < start.size
            &&& accepted(results).len() <= results.len()
        }),
    decreases results.len(),
{
    if results.len() > 0 {
        let rest = results.drop_last();
        lemma_results_go_out(start, rest);
        let before = drained_by(start, rest);
        let batch = gathered(before, results.last());
        lemma_concatenated_push(flushed(start, rest), batch);
        if let Some(result) = results.last() {
            assert(accepted(results) == accepted(rest).push(result));
            assert(found_apps(accepted(results)) =~= found_apps(accepted(rest)).push(result.1));
            assert(found_paths(accepted(results)) =~= found_paths(accepted(rest)).push(result.0));
        }
        assert(concatenated(flushed(start, rest)) + batch =~= found_apps(accepted(results)));
        assert(concatenated(flushed(start, results)) + drained_by(start, results).batch
            =~= found_apps(accepted(results)));
        assert(drained_by(start, results).paths =~= found_paths(accepted(results)));
    } else {
        assert(concatenated(flushed(start, results)) + start.batch =~= found_apps(
            accepted(results),
        ));
        assert(start.paths =~= found_paths(accepted(results)));
    }
}

/// Drains the results of a query, and hands them out in batches.
#[derive(Debug)]
pub struct ResultDrain {
    index: usize,
    limit: usize,
    size: u32,
    batch: Vec<App>,
    paths: Vec<String>,
}

impl View for ResultDrain {
    type V = Drained;

    closed spec fn view(&self) -> Drained {
        Drained {
            index: self.index as int,
            limit: self.limit as int,
            size: self.size as int,
            batch: self.batch@,
            paths: self.paths@,
        }
    }
}

impl ResultDrain {
    /// The drain has not passed its end, and its batch is not full.
    #[verifier::type_invariant]
    pub closed spec fn wf(self) -> bool {
        &&& self.index <= self.limit
        &&& self.batch.len() < self.size || self.batch.len() == 0
    }

    /// The start of a drain of `count` results, of which the first `max_results` are taken.
    pub fn new(count: usize, max_results: u32, size: u32) -> (r: Self)
        ensures
            r@ == undrained(count as int, max_results as int, size as int),
    {
        let limit: usize = if count < max_results as usize {
            count
        } else {
            max_results as usize
        };
        ResultDrain { index: 0, limit, size, batch: Vec::new(), paths: Vec::new() }
    }

    /// The place of the next result, unless all are drained.
    pub fn next_index(&self) -> (r: Option<usize>)
        ensures
            r is Some <==> self@.index < self@.limit,
            r matches Some(index) ==> index == self@.index,
    {
        if self.index < self.limit {
            Some(self.index)
        } else {
            None
        }
    }

    /// Takes the next result, or that it cannot be shown, and gives the batch that is to be sent.
    pub fn accept(&mut self, found: Option<Found>) -> (r: Option<Vec<App>>)
        requires
            old(self)@.index < old(self)@.limit,
        ensures
            final(self)@ == drained(old(self)@, found),
            r is Some <==> flushes(old(self)@, found),
            r matches Some(batch) ==> batch@ == gathered(old(self)@, found),
    {
        proof {
            use_type_invariant(&*self);
        }
        let mut batch: Vec<App> = Vec::new();
        let mut paths: Vec<String> = Vec::new();
        core::mem::swap(&mut batch, &mut self.batch);
        core::mem::swap(&mut paths, &mut self.paths);
        if let Some((path, app)) = found {
            batch.push(app);
            paths.push(path);
        }
        self.index = self.index + 1;
        self.paths = paths;
        if batch.len() as u32 >= self.size {
            Some(batch)
        } else {
            self.batch = batch;
            None
        }
    }

    /// Ends the drain: the batch that is left to be sent, unless it is empty, and the paths of the
    /// results that were accepted.
    pub fn finish(self) -> (r: (Option<Vec<App>>, Vec<String>))
        ensures
            r.0 is Some <==> self@.batch.len() > 0,
            r.0 matches Some(batch) ==> batch@ == self@.batch,
            r.1@ == self@.paths,
    {
        let batch = self.batch;
        let paths = self.paths;
        if batch.len() > 0 {
            (Some(batch), paths)
        } else {
            (None, paths)
        }
    }
}

/// What the thread of the query tells the window.
#[derive(Debug)]
pub enum QueryThreadMsg {
    /// Some results.
    Batch(Vec<App>),
    /// Earlier results no longer count.
    Clear,
    /// Some icons, each with its place in the results.
    Icons(Vec<(usize, RgbaImage)>),
}

/// The message that passes on what the thread of the query says.
pub fn search_message<W>(msg: QueryThreadMsg) -> (r: Message<W>)
    ensures
        r == match msg {
            QueryThreadMsg::Batch(apps) => Message::<W>::FileSearchResult(apps),
            QueryThreadMsg::Clear => Message::<W>::FileSearchClear,
            QueryThreadMsg::Icons(icons) => Message::<W>::FileSearchIcons(icons),
        },
{
    match msg {
        QueryThreadMsg::Batch(apps) => Message::FileSearchResult(apps),
        QueryThreadMsg::Clear => Message::FileSearchClear,
        QueryThreadMsg::Icons(icons) => Message::FileSearchIcons(icons),
    }
}

/// The home directory, or the root where it is not known.
pub fn home_or_root(home: Option<String>) -> (r: String)
    ensures
        match home {
            Some(dir) => r == dir,
            None => r@ == seq!['/'],
        },
{
    match home {
        Some(dir) => dir,
        None => {
            let mut root = String::new();
            root.push('/');
            assert(root@ == seq!['/']);
            root
        },
    }
}

/// What the window asks for.
#[derive(Clone, Debug)]
pub struct FileQuery {
    /// The text to look for.
    pub search_text: String,
    /// The directories to look in.
    pub dirs: Vec<String>,
}

/// What has just happened on the thread of the query.
#[derive(Debug)]
pub enum QueryEvent {
    /// The run loop has had its turn.
    Ticked,
    /// The flag has been taken down. `ready` says whether it was up.
    FlagTaken { ready: bool },
    /// The query has this many results.
    Counted { results: usize },
    /// The results have been sent. These are the paths of those that were accepted.
    BatchesSent { paths: Vec<String> },
    /// The icons of the results have been sent, or a new query has come.
    IconsSent,
    /// The window has been asked whether it has a new query.
    Polled { changed: bool },
    /// The new query has been read.
    QueryRead(FileQuery),
    /// The flag has been taken down for this query.
    FlagCleared(FileQuery),
    /// The old query has been stopped for this one.
    Stopped(FileQuery),
    /// The window has been told to forget the results of the query before this one.
    ClearSent(FileQuery),
    /// The new query is started.
    Searching,
    /// The channel to the window has been looked at.
    Checked { closed: bool },
}

/// What the thread of the query does next. The query raises a flag when it has gathered its
/// results.
#[derive(Debug)]
pub enum QueryAction {
    /// Give the run loop its turn.
    Tick,
    /// Take the flag down, and see whether it was up.
    TakeFlag,
    /// Count the results.
    Count,
    /// Send the results.
    SendBatches,
    /// Send the icons of the results at these paths.
    SendIcons(Vec<String>),
    /// Ask the window whether it has a new query.
    Poll,
    /// Read the new query.
    ReadQuery,
    /// Take the flag down, for this query.
    ClearFlag(FileQuery),
    /// Stop the old query, for this one.
    Stop(FileQuery),
    /// Tell the window to forget the results of the query before this one.
    SendClear(FileQuery),
    /// Start this query.
    Search(MetadataSearch),
    /// Look whether the channel to the window is closed.
    Check,
    /// Stop the query and end the thread.
    Finish,
}

/// A query of fewer bytes than this finds nothing.
pub const QUERY_MIN_LEN: usize = 2;

/// A query has fewer bytes than this.
pub const QUERY_MAX_LEN: usize = 1024;

/// The number of bytes of what `query` looks for.
pub open spec fn query_len(query: FileQuery) -> nat {
    vstd::utf8::encode_utf8(query.search_text@).len()
}

/// The thread can go on after `event`: a query that is long enough to be started is short enough,
/// and asks for some word.
pub open spec fn can_follow(event: QueryEvent, home_dir: Seq<char>) -> bool {
    event matches QueryEvent::ClearSent(query) ==> query_len(query) >= QUERY_MIN_LEN ==> {
        &&& query_len(query) < QUERY_MAX_LEN
        &&& !blank(query.search_text@)
        &&& home_dir.len() > 0
    }
}

/// `action` is what the thread does after `event`.
pub open spec fn follows(event: QueryEvent, home_dir: Seq<char>, action: QueryAction) -> bool {
    match event {
        QueryEvent::Ticked => action == QueryAction::TakeFlag,
        QueryEvent::FlagTaken { ready } => action == if ready {
            QueryAction::Count
        } else {
            QueryAction::Poll
        },
        QueryEvent::Counted { results } => action == if results > 0 {
            QueryAction::SendBatches
        } else {
            QueryAction::Poll
        },
        QueryEvent::BatchesSent { paths } => action == QueryAction::SendIcons(paths),
        QueryEvent::IconsSent => action == QueryAction::Poll,
        QueryEvent::Polled { changed } => action == if changed {
            QueryAction::ReadQuery
        } else {
            QueryAction::Check
        },
        QueryEvent::QueryRead(query) => action == QueryAction::ClearFlag(query),
        QueryEvent::FlagCleared(query) => action == QueryAction::Stop(query),
        QueryEvent::Stopped(query) => action == QueryAction::SendClear(query),
        QueryEvent::ClearSent(query) => if query_len(query) < QUERY_MIN_LEN {
            action == QueryAction::Tick
        } else {
            &&& action is Search
            &&& configures(action->Search_0, query.search_text@, query.dirs@, home_dir)
        },
        QueryEvent::Searching => action == QueryAction::Check,
        QueryEvent::Checked { closed } => action == if closed {
            QueryAction::Finish
        } else {
            QueryAction::Tick
        },
    }
}

/// What the thread of the query does after `event`.
pub fn metadata_query_step(event: QueryEvent, home_dir: &str) -> (r: QueryAction)
    requires
        can_follow(event, home_dir@),
    ensures
        follows(event, home_dir@, r),
{
    match event {
        QueryEvent::Ticked => QueryAction::TakeFlag,
        QueryEvent::FlagTaken { ready } => if ready {
            QueryAction::Count
        } else {
            QueryAction::Poll
        },
        QueryEvent::Counted { results } => if results > 0 {
            QueryAction::SendBatches
        } else {
            QueryAction::Poll
        },
        QueryEvent::BatchesSent { paths } => QueryAction::SendIcons(paths),
        QueryEvent::IconsSent => QueryAction::Poll,
        QueryEvent::Polled { changed } => if changed {
            QueryAction::ReadQuery
        } else {
            QueryAction::Check
        },
        QueryEvent::QueryRead(query) => QueryAction::ClearFlag(query),
        QueryEvent::FlagCleared(query) => QueryAction::Stop(query),
        QueryEvent::Stopped(query) => QueryAction::SendClear(query),
        QueryEvent::ClearSent(query) => {
            let text = query.search_text.as_str();
            if text.len() < QUERY_MIN_LEN {
                QueryAction::Tick
            } else {
                QueryAction::Search(configure_metadata_query(text, &query.dirs, home_dir))
            }
        },
        QueryEvent::Searching => QueryAction::Check,
        QueryEvent::Checked { closed } => if closed {
            QueryAction::Finish
        } else {
            QueryAction::Tick
        },
    }
}

/// `event` is what can happen while the thread does `action`.
pub open spec fn answers(event: QueryEvent, action: QueryAction) -> bool {
    match action {
        QueryAction::Tick => event is Ticked,
        QueryAction::TakeFlag => event is FlagTaken,
        QueryAction::Count => event is Counted,
        QueryAction::SendBatches => event is BatchesSent,
        QueryAction::SendIcons(_) => event is IconsSent,
        QueryAction::Poll => event is Polled,
        QueryAction::ReadQuery => event is QueryRead,
        QueryAction::ClearFlag(query) => event == QueryEvent::FlagCleared(query),
        QueryAction::Stop(query) => event == QueryEvent::Stopped(query),
        QueryAction::SendClear(query) => event == QueryEvent::ClearSent(query),
        QueryAction::Search(_) => event is Searching,
        QueryAction::Check => event is Checked,
        QueryAction::Finish => false,
    }
}

/// A run of the thread, as far as it has come.
pub struct Run {
    /// What the thread does, from its start.
    pub actions: Seq<QueryAction>,
    /// What happens while it does each of these but the last.
    pub events: Seq<QueryEvent>,
    /// Whether the flag is up when it begins each of these.
    pub flags: Seq<bool>,
    /// Whether the query raises the flag before the next one begins.
    pub raised: Seq<bool>,
}

/// The flag is taken down by `action`.
pub open spec fn lowers(action: QueryAction) -> bool {
    action is TakeFlag || action is ClearFlag
}

impl Run {
    /// The thread ticks first and goes on after each event.
    pub open spec fn goes_on(self, home_dir: Seq<char>) -> bool {
        &&& self.actions.len() == self.events.len() + 1
        &&& self.actions[0] is Tick
        &&& forall|i: int|
            0 <= i < self.events.len() ==> answers(#[trigger] self.events[i], self.actions[i])
                && follows(self.events[i], home_dir, self.actions[i + 1])
    }

    /// The flag is down at first, goes up when the query raises it, and goes down when the thread
    /// takes it down, which is also when the thread sees whether it was up.
    pub open spec fn keeps_flag(self) -> bool {
        &&& self.flags.len() == self.actions.len()
        &&& self.raised.len() == self.events.len()
        &&& !self.flags[0]
        &&& forall|i: int|
            0 <= i < self.events.len() ==> #[trigger] self.flags[i + 1] == (self.raised[i]
                || self.flags[i] && !lowers(self.actions[i]))
        &&& forall|i: int|
            0 <= i < self.events.len() && (#[trigger] self.actions[i]) is TakeFlag
                ==> self.events[i] == (QueryEvent::FlagTaken { ready: self.flags[i] })
    }

    /// The query raises the flag between the beginnings of two actions.
    pub open spec fn raises(self, from: int, to: int) -> bool {
        exists|k: int| from <= k < to && #[trigger] self.raised[k]
    }
}

/// However the thread runs, its actions come in order.
///
/// Results are sent only when the flag has just been found up and some results counted, and their
/// icons are sent next. For a new query the flag is taken down, the old query stopped and its
/// results cleared, one behind the other, and only then the new one started, with the text and the
/// directories that were read. The thread ends only when the channel to the window is closed, and
/// does nothing after that.
pub proof fn actions_come_in_order(run: Run, home_dir: Seq<char>, i: int)
    requires
        run.goes_on(home_dir),
        0 <= i < run.actions.len(),
    ensures
        run.actions[i] is SendBatches ==> {
            &&& i >= 3
            &&& run.actions[i - 3] is Tick
            &&& run.actions[i - 2] is TakeFlag
            &&& run.events[i - 2] == (QueryEvent::FlagTaken { ready: true })
            &&& run.actions[i - 1] is Count
            &&& run.events[i - 1] matches QueryEvent::Counted { results }
            &&& results > 0
        },
        run.actions[i] is SendBatches && i + 1 < run.actions.len() ==> {
            &&& run.events[i] matches QueryEvent::BatchesSent { paths }
            &&& run.actions[i + 1] == QueryAction::SendIcons(paths)
        },
        run.actions[i] is SendIcons ==> i > 0 && run.actions[i - 1] is SendBatches,
        run.actions[i] matches QueryAction::ClearFlag(query) ==> {
            &&& i >= 2
            &&& run.actions[i - 2] is Poll
            &&& run.events[i - 2] == (QueryEvent::Polled { changed: true })
            &&& run.actions[i - 1] is ReadQuery
            &&& run.events[i - 1] == QueryEvent::QueryRead(query)
        },
        run.actions[i] matches QueryAction::Stop(query) ==> i > 0 && run.actions[i - 1]
            == QueryAction::ClearFlag(query),
        run.actions[i] matches QueryAction::SendClear(query) ==> i > 0 && run.actions[i - 1]
            == QueryAction::Stop(query),
        run.actions[i] matches QueryAction::Search(search) ==> {
            &&& i > 0
            &&& run.actions[i - 1] matches QueryAction::SendClear(query)
            &&& configures(search, query.search_text@, query.dirs@, home_dir)
        },
        run.actions[i] is Finish ==> i == run.actions.len() - 1 && i > 0 && run.events[i - 1]
            == (QueryEvent::Checked { closed: true }),
{
    assert(forall|k: int|
        0 <= k < run.events.len() ==> answers(#[trigger] run.events[k], run.actions[k]));
    if i > 0 {
        let e = run.events[i - 1];
        assert(follows(e, home_dir, run.actions[i - 1 + 1]));
        if i > 1 {
            let e = run.events[i - 2];
            assert(follows(e, home_dir, run.actions[i - 2 + 1]));
            if i > 2 {
                let e = run.events[i - 3];
                assert(follows(e, home_dir, run.actions[i - 3 + 1]));
            }
        }
    }
    if i < run.events.len() {
        let e = run.events[i];
        assert(follows(e, home_dir, run.actions[i + 1]));
    }
}

/// Between two turns of the run loop the thread looks for a new query.
pub proof fn each_turn_is_followed_by_a_poll(run: Run, home_dir: Seq<char>, turn: int, next: int)
    requires
        run.goes_on(home_dir),
        0 <= turn < next < run.actions.len(),
        run.actions[turn] is Tick,
        run.actions[next] is Tick,
    ensures
        exists|k: int| turn < k < next && (#[trigger] run.actions[k]) is Poll,
{
    lemma_next_action(run, home_dir, turn);
    assert(run.actions[turn + 1] is TakeFlag);
    lemma_next_action(run, home_dir, turn + 1);
    if !(run.actions[turn + 2] is Poll) {
        assert(run.actions[turn + 2] is Count);
        lemma_next_action(run, home_dir, turn + 2);
        if !(run.actions[turn + 3] is Poll) {
            assert(run.actions[turn + 3] is SendBatches);
            lemma_next_action(run, home_dir, turn + 3);
            assert(run.actions[turn + 4] is SendIcons);
            lemma_next_action(run, home_dir, turn + 4);
            assert(run.actions[turn + 5] is Poll);
        }
    }
}

proof fn lemma_next_action(run: Run, home_dir: Seq<char>, i: int)
    requires
        run.goes_on(home_dir),
        0 <= i < run.events.len(),
    ensures
        answers(run.events[i], run.actions[i]),
        follows(run.events[i], home_dir, run.actions[i + 1]),
{
}

/// A flag that was taken down is up again only if the query has raised it since.
proof fn lemma_flag_was_raised(run: Run, from: int, to: int)
    requires
        run.keeps_flag(),
        run.actions.len() == run.events.len() + 1,
        0 <= from < to < run.actions.len(),
        lowers(run.actions[from]) || !run.flags[from],
        run.flags[to],
    ensures
        run.raises(from, to),
    decreases to - from,
{
    let last = to - 1;
    assert(run.flags[last + 1] == (run.raised[last] || run.flags[last] && !lowers(
        run.actions[last],
    )));
    if run.raised[last] {
        assert(run.raises(from, to));
    } else {
        assert(last > from);
        lemma_flag_was_raised(run, from, last);
        let k = choose|k: int| from <= k < last && #[trigger] run.raised[k];
        assert(run.raised[k]);
    }
}

/// Results are sent only when the query has raised the flag before.
pub proof fn results_need_a_raised_flag(run: Run, home_dir: Seq<char>, sent: int)
    requires
        run.goes_on(home_dir),
        run.keeps_flag(),
        0 <= sent < run.actions.len(),
        run.actions[sent] is SendBatches,
    ensures
        sent > 2,
        run.raises(0, sent - 2),
{
    lemma_flag_seen(run, home_dir, sent);
    lemma_flag_was_raised(run, 0, sent - 2);
}

/// Each time that the flag is raised leads to results being sent at most once: before results are
/// sent for the second of two times, the query has raised the flag again since it was taken down
/// for the first.
pub proof fn a_raised_flag_is_used_up(run: Run, home_dir: Seq<char>, first: int, second: int)
    requires
        run.goes_on(home_dir),
        run.keeps_flag(),
        0 <= first < second < run.actions.len(),
        run.actions[first] is SendBatches,
        run.actions[second] is SendBatches,
    ensures
        first > 2,
        run.actions[first - 2] is TakeFlag,
        run.raises(first - 2, second - 2),
{
    lemma_flag_seen(run, home_dir, first);
    lemma_flag_seen(run, home_dir, second);
    lemma_flag_was_raised(run, first - 2, second - 2);
}

/// What an old query gathered is not sent for a new one: once the flag is taken down for a new
/// query, results are sent only if the flag is raised after that.
pub proof fn a_cleared_flag_is_not_used(run: Run, home_dir: Seq<char>, cleared: int, sent: int)
    requires
        run.goes_on(home_dir),
        run.keeps_flag(),
        0 <= cleared < sent < run.actions.len(),
        run.actions[cleared] is ClearFlag,
        run.actions[sent] is SendBatches,
    ensures
        sent - 2 > cleared,
        run.raises(cleared, sent - 2),
{
    lemma_flag_seen(run, home_dir, sent);
    lemma_flag_was_raised(run, cleared, sent - 2);
}

/// When results are sent, the flag was up when it was last taken down.
proof fn lemma_flag_seen(run: Run, home_dir: Seq<char>, i: int)
    requires
        run.goes_on(home_dir),
        run.keeps_flag(),
        0 <= i < run.actions.len(),
        run.actions[i] is SendBatches,
    ensures
        i >= 3,
        run.actions[i - 2] is TakeFlag,
        run.actions[i - 1] is Count,
        run.flags[i - 2],
{
    actions_come_in_order(run, home_dir, i);
    assert(run.actions[i - 2] is TakeFlag);
}

/// Each event leads to its action, and each action comes from its event alone.
///
/// The flag is taken down after each turn of the run loop, and where it was up the results are
/// counted. Where there are any they are sent, then their icons, with the paths of the results.
/// Then, or where there is nothing to send, the window is asked for a new query. A new query is
/// read, and for it the flag is taken down, the old query stopped and its results cleared. It is
/// then started exactly where it has two bytes or more. The thread ends exactly where the channel
/// is closed.
pub proof fn every_event_leads_to_its_action(event: QueryEvent, home_dir: &str, r: QueryAction)
    requires
        call_ensures(metadata_query_step, (event, home_dir), r),
    ensures
        r is TakeFlag <==> event is Ticked,
        r is Count <==> event == (QueryEvent::FlagTaken { ready: true }),
        r is SendBatches <==> (event matches QueryEvent::Counted { results } && results > 0),
        r is SendIcons <==> event is BatchesSent,
        event matches QueryEvent::BatchesSent { paths } ==> r == QueryAction::SendIcons(paths),
        r is Poll <==> event is IconsSent || event == (QueryEvent::FlagTaken { ready: false })
            || event == (QueryEvent::Counted { results: 0 }),
        r is ReadQuery <==> event == (QueryEvent::Polled { changed: true }),
        r is ClearFlag <==> event is QueryRead,
        event matches QueryEvent::QueryRead(query) ==> r == QueryAction::ClearFlag(query),
        r is Stop <==> event is FlagCleared,
        event matches QueryEvent::FlagCleared(query) ==> r == QueryAction::Stop(query),
        r is SendClear <==> event is Stopped,
        event matches QueryEvent::Stopped(query) ==> r == QueryAction::SendClear(query),
        r is Search <==> (event matches QueryEvent::ClearSent(query) && vstd::utf8::encode_utf8(
            query.search_text@,
        ).len() >= 2),
        r is Tick <==> event == (QueryEvent::Checked { closed: false }) || (
        event matches QueryEvent::ClearSent(query) && vstd::utf8::encode_utf8(
            query.search_text@,
        ).len() < 2),
        r is Check <==> event is Searching || event == (QueryEvent::Polled { changed: false }),
        r is Finish <==> event == (QueryEvent::Checked { closed: true }),
{
}

/// Every query of two bytes or more is started, however long it is, once the results of the one
/// before it are cleared: with its own words as the pattern, and in its own directories, with the
/// home directory where a tilde stands. A shorter one is not started.
pub proof fn every_long_enough_query_is_started(
    query: FileQuery,
    home_dir: &str,
    r: QueryAction,
)
    requires
        call_ensures(metadata_query_step, (QueryEvent::ClearSent(query), home_dir), r),
    ensures
        vstd::utf8::encode_utf8(query.search_text@).len() >= 2 ==> {
            &&& r matches QueryAction::Search(search)
            &&& configures(search, query.search_text@, query.dirs@, home_dir@)
            &&& search.pattern@ == search_pattern(query.search_text@)
            &&& search.scopes@.len() == query.dirs@.len()
            &&& forall|i: int|
                0 <= i < query.dirs@.len() ==> (#[trigger] search.scopes@[i])@ == expanded(
                    query.dirs@[i]@,
                    home_dir@,
                )
            &&& forall|i: int|
                0 <= i < query.dirs@.len() && !query.dirs@[i]@.contains('~') ==> (
                #[trigger] search.scopes@[i])@ == query.dirs@[i]@
            &&& forall|i: int, a: Seq<char>, b: Seq<char>|
                0 <= i < query.dirs@.len() && query.dirs@[i]@ == a + seq!['~'] + b && !a.contains(
                    '~',
                ) && !b.contains('~') ==> (#[trigger] search.scopes@[i])@ == #[trigger] (a
                    + home_dir@ + b)
        },
        vstd::utf8::encode_utf8(query.search_text@).len() < 2 ==> r is Tick,
{
    if let QueryAction::Search(search) = r {
        a_search_looks_in_its_directories(
            search,
            query.search_text@,
            query.dirs@,
            home_dir@,
        );
    }
}

/// The thread can go on after every event. The one thing that it needs is that a query of two bytes
/// or more has fewer than 1024 and some word, and that there is a home directory.
pub proof fn every_event_is_taken(event: QueryEvent, home_dir: &str)
    requires
        event matches QueryEvent::ClearSent(query) ==> vstd::utf8::encode_utf8(
            query.search_text@,
        ).len() < 2 || vstd::utf8::encode_utf8(query.search_text@).len() < 1024 && !blank(
            query.search_text@,
        ) && home_dir@.len() > 0,
    ensures
        call_requires(metadata_query_step, (event, home_dir)),
{
}

/// However the thread runs, what happens is acted on.
///
/// A query that is read is searched for: the flag is taken down, the old query stopped and its
/// results cleared, and then the query is started if it has two bytes or more. Results that the
/// flag announces are sent, if there are any, and after them their icons. A new query that the
/// window has is read. The thread ends when the channel is closed, and goes on otherwise.
pub proof fn what_happens_is_acted_on(run: Run, home_dir: Seq<char>, i: int)
    requires
        run.goes_on(home_dir),
        0 <= i < run.events.len(),
    ensures
        run.events[i] matches QueryEvent::QueryRead(query) ==> {
            &&& run.actions[i + 1] == QueryAction::ClearFlag(query)
            &&& i + 2 < run.actions.len() ==> run.actions[i + 2] == QueryAction::Stop(query)
            &&& i + 3 < run.actions.len() ==> run.actions[i + 3] == QueryAction::SendClear(query)
            &&& i + 4 < run.actions.len() && vstd::utf8::encode_utf8(query.search_text@).len() >= 2
                ==> run.actions[i + 4] is Search && configures(
                run.actions[i + 4]->Search_0,
                query.search_text@,
                query.dirs@,
                home_dir,
            )
            &&& i + 4 < run.actions.len() && vstd::utf8::encode_utf8(query.search_text@).len() < 2
                ==> run.actions[i + 4] is Tick
        },
        run.actions[i] matches QueryAction::SendClear(query) ==> vstd::utf8::encode_utf8(
            query.search_text@,
        ).len() >= 2 ==> run.actions[i + 1] is Search && configures(
            run.actions[i + 1]->Search_0,
            query.search_text@,
            query.dirs@,
            home_dir,
        ),
        run.events[i] == (QueryEvent::FlagTaken { ready: true }) && i + 1 < run.events.len() ==> {
            &&& run.actions[i + 1] is Count
            &&& run.events[i + 1] matches QueryEvent::Counted { results }
            &&& results > 0 ==> run.actions[i + 2] is SendBatches
        },
        run.events[i] matches QueryEvent::BatchesSent { paths } ==> run.actions[i + 1]
            == QueryAction::SendIcons(paths),
        run.events[i] == (QueryEvent::Polled { changed: true }) ==> run.actions[i + 1] is ReadQuery,
        run.events[i] matches QueryEvent::Checked { closed } ==> (run.actions[i + 1] is Finish
            <==> closed),
{
    lemma_next_action(run, home_dir, i);
    if i + 1 < run.events.len() {
        lemma_next_action(run, home_dir, i + 1);
    }
    if i + 2 < run.events.len() {
        lemma_next_action(run, home_dir, i + 2);
    }
    if i + 3 < run.events.len() {
        lemma_next_action(run, home_dir, i + 3);
    }
}

/// A drain takes all results up to the maximum, and no more: having taken some, it asks for the
/// next exactly while there are results left and the maximum is not reached, and asks for them in
/// order. So when it asks for no more, it has taken as many as there are, or the maximum.
pub proof fn all_results_up_to_the_maximum_are_drained(
    count: usize,
    max_results: u32,
    size: u32,
    start: ResultDrain,
    results: Seq<Option<Found>>,
    now: &ResultDrain,
    next: Option<usize>,
)
    requires
        call_ensures(ResultDrain::new, (count, max_results, size), start),
        now@ == drained_by(start@, results),
        call_ensures(ResultDrain::next_index, (now,), next),
    ensures
        start@.index == 0,
        start@.limit <= count,
        start@.limit <= max_results,
        start@.limit == count || start@.limit == max_results,
        start@.size == size,
        start@.batch.len() == 0,
        start@.paths.len() == 0,
        now@.index == results.len(),
        next is Some <==> results.len() < count && results.len() < max_results,
        next matches Some(index) ==> index == results.len(),
{
    lemma_results_go_out(start@, results);
}

/// A result that is taken goes to the end of what waits, its path to the end of the paths, and one
/// that cannot be shown goes nowhere. Either way the drain is one result further. What waits is
/// handed out, whole, exactly where it is as much as a batch.
pub proof fn every_result_is_taken_in(
    drain: &mut ResultDrain,
    found: Option<Found>,
    r: Option<Vec<App>>,
)
    requires
        call_ensures(ResultDrain::accept, (drain, found), r),
    ensures
        final(drain)@.index == old(drain)@.index + 1,
        final(drain)@.limit == old(drain)@.limit,
        final(drain)@.size == old(drain)@.size,
        found matches Some(result) ==> final(drain)@.paths == old(drain)@.paths.push(result.0),
        found is None ==> final(drain)@.paths == old(drain)@.paths,
        ({
            let out = match r {
                Some(batch) => batch@,
                None => final(drain)@.batch,
            };
            &&& found matches Some(result) ==> out == old(drain)@.batch.push(result.1)
            &&& found is None ==> out == old(drain)@.batch
            &&& r is Some <==> out.len() >= old(drain)@.size
            &&& r is Some ==> final(drain)@.batch.len() == 0
        }),
{
}

/// At the end of a drain what still waits is handed out, and all paths are.
pub proof fn a_drain_leaves_nothing_behind(
    drain: ResultDrain,
    r: (Option<Vec<App>>, Vec<String>),
)
    requires
        call_ensures(ResultDrain::finish, (drain,), r),
    ensures
        r.1@ == drain@.paths,
        match r.0 {
            Some(batch) => batch@ == drain@.batch && batch@.len() > 0,
            None => drain@.batch.len() == 0,
        },
{
}

/// The results that are shown are all that can be, in order.
pub proof fn all_that_can_be_shown_is_shown(results: Seq<Option<Found>>)
    ensures
        accepted(results) == results.filter(|found: Option<Found>| found is Some).map_values(
            |found: Option<Found>| found->0,
        ),
        found_apps(accepted(results)).len() == accepted(results).len(),
        found_paths(accepted(results)).len() == accepted(results).len(),
        forall|i: int|
            0 <= i < accepted(results).len() ==> found_apps(accepted(results))[i] == (
            #[trigger] accepted(results)[i]).1 && found_paths(accepted(results))[i] == accepted(
                results,
            )[i].0,
    decreases results.len(),
{
    reveal(Seq::filter);
    let some = |found: Option<Found>| found is Some;
    let inner = |found: Option<Found>| found->0;
    if results.len() > 0 {
        all_that_can_be_shown_is_shown(results.drop_last());
        let rest = results.drop_last().filter(some);
        if results.last() is Some {
            assert(rest.push(results.last()).map_values(inner) =~= rest.map_values(inner).push(
                results.last()->0,
            ));
        }
    }
    assert(accepted(results) =~= results.filter(some).map_values(inner));
}

/// The last batch is the rest, unless there is none.
pub proof fn the_rest_is_the_last_batch(batches: Seq<Seq<App>>, rest: Seq<App>)
    ensures
        rest.len() > 0 ==> with_rest(batches, rest) == batches + seq![rest],
        rest.len() == 0 ==> with_rest(batches, rest) == batches,
{
    assert(batches.push(rest) =~= batches + seq![rest]);
}

/// What the thread of the query says reaches the window unchanged, under its own message, and where
/// no home directory is known the root stands in for it.
pub proof fn what_the_thread_says_reaches_the_window<W>(
    msg: QueryThreadMsg,
    told: Message<W>,
    home: Option<String>,
    dir: String,
)
    requires
        call_ensures(search_message::<W>, (msg,), told),
        call_ensures(home_or_root, (home,), dir),
    ensures
        msg matches QueryThreadMsg::Batch(apps) ==> told == Message::<W>::FileSearchResult(apps),
        msg is Clear <==> told is FileSearchClear,
        msg matches QueryThreadMsg::Icons(icons) ==> told == Message::<W>::FileSearchIcons(icons),
        home matches Some(known) ==> dir@ == known@,
        home is None ==> dir@ == seq!['/'],
        (home matches Some(known) ==> known@.len() > 0) ==> dir@.len() > 0,
{
}


} // verus!
