//! The apps that the launcher can find, and the index that it searches.
use vstd::prelude::*;

use crate::parallel::{par_rank, par_search};
use crate::ranking::{is_ranking_of, is_top_of, top_is_best};
use crate::text::{occurs_at, occurs_here, text_less, to_chars};

verus! {

/// One app, as far as the launcher decides by it.
#[derive(Debug)]
pub struct App {
    /// How often the app was opened, or the rank that it was given.
    pub ranking: i32,
    /// The name that the launcher shows.
    pub display_name: String,
    /// The name that the launcher searches, in lower case.
    pub search_name: String,
    /// Where the host keeps the app's command, description and icon.
    pub details: u64,
}

impl Clone for App {
    /// A copy of the app.
    fn clone(&self) -> (r: Self)
        ensures
            r == *self,
    {
        App {
            ranking: self.ranking,
            display_name: self.display_name.clone(),
            search_name: self.search_name.clone(),
            details: self.details,
        }
    }
}

/// `name` answers a search for `prefix`: it starts with it.
pub open spec fn name_matches(name: Seq<char>, prefix: Seq<char>) -> bool {
    occurs_at(name, prefix, 0)
}

/// The apps whose name answers a search for `prefix`.
pub open spec fn answers(prefix: Seq<char>) -> spec_fn(App) -> bool {
    |app: App| name_matches(app.search_name@, prefix)
}

/// The apps by name, the last one of each name counting.
pub open spec fn by_name(apps: Seq<App>) -> Map<Seq<char>, App>
    decreases apps.len(),
{
    if apps.len() == 0 {
        Map::empty()
    } else {
        by_name(apps.drop_last()).insert(apps.last().search_name@, apps.last())
    }
}

/// No two apps have one name.
pub open spec fn distinct_names(apps: Seq<App>) -> bool {
    forall|i: int, j: int|
        0 <= i < j < apps.len() ==> (#[trigger] apps[i]).search_name@ != (
        #[trigger] apps[j]).search_name@
}

/// The apps' names, in order.
pub open spec fn names(apps: Seq<App>) -> Seq<Seq<char>> {
    apps.map_values(|app: App| app.search_name@)
}

/// A name leads to an app exactly where an app has it.
pub proof fn lemma_by_name(apps: Seq<App>, name: Seq<char>)
    ensures
        by_name(apps).contains_key(name) <==> exists|i: int|
            0 <= i < apps.len() && (#[trigger] apps[i]).search_name@ == name,
        by_name(apps).contains_key(name) ==> by_name(apps)[name].search_name@ == name
            && apps.contains(by_name(apps)[name]),
    decreases apps.len(),
{
    if apps.len() > 0 {
        let rest = apps.drop_last();
        lemma_by_name(rest, name);
        if rest.contains(by_name(rest)[name]) {
            let i = rest.index_of(by_name(rest)[name]);
            assert(apps[i] == rest[i]);
        }
        assert(apps.last() == apps[apps.len() - 1]);
        if exists|i: int| 0 <= i < apps.len() && (#[trigger] apps[i]).search_name@ == name {
            let i = choose|i: int|
                0 <= i < apps.len() && (#[trigger] apps[i]).search_name@ == name;
            if i < rest.len() {
                assert(rest[i].search_name@ == name);
            }
        }
        if exists|i: int| 0 <= i < rest.len() && (#[trigger] rest[i]).search_name@ == name {
            let i = choose|i: int|
                0 <= i < rest.len() && (#[trigger] rest[i]).search_name@ == name;
            assert(apps[i].search_name@ == name);
        }
    }
}

/// Where no two apps have one name, each app stands under its name.
pub proof fn lemma_by_name_distinct(apps: Seq<App>, i: int)
    requires
        distinct_names(apps),
        0 <= i < apps.len(),
    ensures
        by_name(apps).contains_key(apps[i].search_name@),
        by_name(apps)[apps[i].search_name@] == apps[i],
{
    let name = apps[i].search_name@;
    lemma_by_name(apps, name);
    let k = apps.index_of(by_name(apps)[name]);
    assert(apps[k].search_name@ == name);
}

/// The apps of distinct names are those that their names lead to.
pub proof fn lemma_by_name_values(apps: Seq<App>, app: App)
    requires
        distinct_names(apps),
    ensures
        apps.contains(app) <==> by_name(apps).contains_key(app.search_name@)
            && by_name(apps)[app.search_name@] == app,
{
    lemma_by_name(apps, app.search_name@);
    if apps.contains(app) {
        lemma_by_name_distinct(apps, apps.index_of(app));
    }
}

proof fn lemma_by_name_update(apps: Seq<App>, i: int, app: App)
    requires
        distinct_names(apps),
        0 <= i < apps.len(),
        app.search_name@ == apps[i].search_name@,
    ensures
        distinct_names(apps.update(i, app)),
        by_name(apps.update(i, app)) == by_name(apps).insert(app.search_name@, app),
        names(apps.update(i, app)) == names(apps),
{
    let new = apps.update(i, app);
    assert(distinct_names(new));
    assert forall|name: Seq<char>| #[trigger]
        by_name(new).contains_key(name) <==> by_name(apps).insert(
            app.search_name@,
            app,
        ).contains_key(name) by {
        lemma_by_name(apps, name);
        lemma_by_name(new, name);
        lemma_by_name_distinct(new, i);
        if by_name(new).contains_key(name) && name != app.search_name@ {
            let k = choose|k: int| 0 <= k < new.len() && (#[trigger] new[k]).search_name@ == name;
            assert(apps[k].search_name@ == name);
        }
        if by_name(apps).contains_key(name) {
            let k = choose|k: int| 0 <= k < apps.len() && (#[trigger] apps[k]).search_name@ == name;
            assert(new[k].search_name@ == name);
        }
    }
    assert forall|name: Seq<char>| #[trigger] by_name(new).contains_key(name) implies by_name(
        new,
    )[name] == by_name(apps).insert(app.search_name@, app)[name] by {
        lemma_by_name(new, name);
        let k = choose|k: int| 0 <= k < new.len() && (#[trigger] new[k]).search_name@ == name;
        lemma_by_name_distinct(new, k);
        lemma_by_name_distinct(apps, k);
    }
    assert(by_name(new) =~= by_name(apps).insert(app.search_name@, app));
    assert(names(new) =~= names(apps));
}

/// Tells whether an app named `name` answers a search for `prefix`.
pub fn matches_name(name: &str, prefix: &str) -> (r: bool)
    ensures
        r == name_matches(name@, prefix@),
{
    let name_chars = to_chars(name);
    let prefix_chars = to_chars(prefix);
    occurs_here(&name_chars, &prefix_chars, 0)
}

/// `app`, if its name answers a search for `prefix`.
pub(crate) fn matching(app: &App, prefix: &str) -> (r: Option<App>)
    ensures
        r == if answers(prefix@)(*app) {
            Some(*app)
        } else {
            None
        },
{
    if matches_name(app.search_name.as_str(), prefix) {
        Some(app.clone())
    } else {
        None
    }
}

/// All the apps that the launcher can search, each under its search name.
#[derive(Debug)]
pub struct AppIndex {
    apps: Vec<App>,
}

impl View for AppIndex {
    type V = Map<Seq<char>, App>;

    open spec fn view(&self) -> Map<Seq<char>, App> {
        by_name(self.entries())
    }
}

impl AppIndex {
    /// The apps in the order in which the index walks them.
    pub closed spec fn entries(self) -> Seq<App> {
        self.apps@
    }

    /// No two apps have one search name.
    #[verifier::type_invariant]
    pub open spec fn wf(self) -> bool {
        distinct_names(self.entries())
    }

    /// An index without apps.
    pub fn empty() -> (r: AppIndex)
        ensures
            r.wf(),
            r.entries() == Seq::<App>::empty(),
            r@ == Map::<Seq<char>, App>::empty(),
    {
        AppIndex { apps: Vec::new() }
    }

    /// The index of the apps in `options`, the last one of each search name.
    pub fn from_apps(options: Vec<App>) -> (r: Self)
        ensures
            r.wf(),
            r@ == by_name(options@),
    {
        let ghost all = options@;
        let mut apps: Vec<App> = Vec::new();
        for app in it: options
            invariant
                it.seq() == all,
                distinct_names(apps@),
                by_name(apps@) == by_name(all.take(it.index() as int)),
        {
            proof {
                assert(all.take(it.index() + 1).drop_last() == all.take(it.index() as int));
            }
            let ghost before = apps@;
            match position_in(&apps, app.search_name.as_str()) {
                Some(i) => {
                    proof {
                        lemma_by_name_update(before, i as int, app);
                    }
                    apps.set(i, app);
                },
                None => {
                    apps.push(app);
                    assert(apps@.drop_last() == before);
                },
            }
        }
        assert(all.take(all.len() as int) == all);
        AppIndex { apps }
    }

    /// The apps whose name starts with `prefix`.
    pub fn search_prefix(&self, prefix: &str) -> (r: Vec<App>)
        ensures
            r@ == self.entries().filter(answers(prefix@)),
            r@.no_duplicates(),
            forall|app: App| #[trigger]
                r@.contains(app) <==> self@.contains_key(app.search_name@)
                    && self@[app.search_name@] == app && name_matches(
                    app.search_name@,
                    prefix@,
                ),
    {
        proof {
            use_type_invariant(self);
        }
        let r = par_search(&self.apps, prefix);
        proof {
            lemma_filter_entries(self.entries(), answers(prefix@));
        }
        r
    }

    /// Counts one more use of the app named `name`, if there is one.
    pub fn update_ranking(&mut self, name: &str)
        requires
            old(self)@.contains_key(name@) ==> old(self)@[name@].ranking < i32::MAX,
        ensures
            final(self).wf(),
            names(final(self).entries()) == names(old(self).entries()),
            final(self)@ == if old(self)@.contains_key(name@) {
                let app = old(self)@[name@];
                old(self)@.insert(name@, App { ranking: (app.ranking + 1) as i32, ..app })
            } else {
                old(self)@
            },
    {
        proof {
            use_type_invariant(&*self);
            lemma_by_name(self.entries(), name@);
        }
        if let Some(i) = position_in(&self.apps, name) {
            proof {
                lemma_by_name_distinct(self.entries(), i as int);
            }
            let ranking: i32 = self.apps[i].ranking + 1;
            self.rank_at(i, ranking);
        }
    }

    /// Gives the app named `name` the ranking `rank`, if there is one.
    pub fn set_ranking(&mut self, name: &str, rank: i32)
        ensures
            final(self).wf(),
            names(final(self).entries()) == names(old(self).entries()),
            final(self)@ == ranked_in(old(self)@, name@, rank),
    {
        proof {
            use_type_invariant(&*self);
            lemma_by_name(self.entries(), name@);
        }
        if let Some(i) = position_in(&self.apps, name) {
            proof {
                lemma_by_name_distinct(self.entries(), i as int);
            }
            self.rank_at(i, rank);
        }
    }

    /// Gives the app at position `i` the ranking `rank`.
    fn rank_at(&mut self, i: usize, rank: i32)
        requires
            i < old(self).entries().len(),
        ensures
            final(self).wf(),
            names(final(self).entries()) == names(old(self).entries()),
            ({
                let app = old(self).entries()[i as int];
                final(self)@ == old(self)@.insert(app.search_name@, App { ranking: rank, ..app })
            }),
    {
        proof {
            use_type_invariant(&*self);
        }
        let ghost before = self.entries();
        let mut apps: Vec<App> = Vec::new();
        core::mem::swap(&mut apps, &mut self.apps);
        let mut app = apps[i].clone();
        app.ranking = rank;
        proof {
            lemma_by_name_update(before, i as int, app);
        }
        apps.set(i, app);
        self.apps = apps;
    }

    /// The rankings above zero, each with the search name of its app.
    pub fn get_rankings(&self) -> (r: Vec<(String, i32)>)
        ensures
            distinct_pairs(r@),
            rankings(r@) == positive_rankings(self@),
    {
        proof {
            use_type_invariant(self);
        }
        let mut r: Vec<(String, i32)> = Vec::new();
        for i in 0..self.apps.len()
            invariant
                pairs_of(r@, self.apps@.take(i as int)),
        {
            proof {
                let now = self.apps@.take(i + 1);
                assert(now.drop_last() == self.apps@.take(i as int));
                reveal(Seq::filter);
            }
            if self.apps[i].ranking > 0 {
                r.push((self.apps[i].search_name.clone(), self.apps[i].ranking));
            }
        }
        proof {
            assert(self.apps@.take(self.apps@.len() as int) == self.apps@);
            lemma_pairs_of(r@, self.entries());
        }
        r
    }

    /// At most `limit` of the apps that rank above zero, in the order in which they are shown.
    pub fn top_ranked(&self, limit: usize) -> (r: Vec<App>)
        ensures
            is_top_of(r@, self.entries().filter(has_rank()), limit as int),
    {
        let mut ranked: Vec<App> = Vec::new();
        for i in 0..self.apps.len()
            invariant
                ranked@ == self.apps@.take(i as int).filter(has_rank()),
        {
            proof {
                assert(self.apps@.take(i + 1).drop_last() == self.apps@.take(i as int));
                reveal(Seq::filter);
            }
            if self.apps[i].ranking > 0 {
                ranked.push(self.apps[i].clone());
            }
        }
        assert(self.apps@.take(self.apps@.len() as int) == self.apps@);
        par_rank(&mut ranked);
        let ghost all = ranked@;
        ranked.truncate(limit);
        assert(is_ranking_of(all, self.entries().filter(has_rank())));
        assert(all.take(all.len() as int) == all);
        assert(is_top_of(ranked@, self.entries().filter(has_rank()), limit as int));
        ranked
    }
}

/// The apps that rank above zero.
pub open spec fn has_rank() -> spec_fn(App) -> bool {
    |app: App| app.ranking > 0
}

/// `index` with the ranking `rank` for the app named `name`, if there is one.
pub open spec fn ranked_in(index: Map<Seq<char>, App>, name: Seq<char>, rank: i32) -> Map<
    Seq<char>,
    App,
> {
    if index.contains_key(name) {
        index.insert(name, App { ranking: rank, ..index[name] })
    } else {
        index
    }
}

/// The rankings above zero, by name.
pub open spec fn positive_rankings(index: Map<Seq<char>, App>) -> Map<Seq<char>, i32> {
    Map::new(
        |name: Seq<char>| index.contains_key(name) && index[name].ranking > 0,
        |name: Seq<char>| index[name].ranking,
    )
}

/// No two pairs have one name.
pub open spec fn distinct_pairs(pairs: Seq<(String, i32)>) -> bool {
    forall|i: int, j: int|
        0 <= i < j < pairs.len() ==> (#[trigger] pairs[i]).0@ != (#[trigger] pairs[j]).0@
}

/// The rankings that pairs hold, by name, the last one of each name counting.
pub open spec fn rankings(pairs: Seq<(String, i32)>) -> Map<Seq<char>, i32>
    decreases pairs.len(),
{
    if pairs.len() == 0 {
        Map::empty()
    } else {
        rankings(pairs.drop_last()).insert(pairs.last().0@, pairs.last().1)
    }
}

/// The pairs are those of the apps that rank above zero.
spec fn pairs_of(pairs: Seq<(String, i32)>, apps: Seq<App>) -> bool {
    let kept = apps.filter(has_rank());
    &&& pairs.len() == kept.len()
    &&& forall|i: int|
        0 <= i < pairs.len() ==> (#[trigger] pairs[i]) == (kept[i].search_name, kept[i].ranking)
}

pub(crate) proof fn lemma_filter_within(apps: Seq<App>, keep: spec_fn(App) -> bool, app: App)
    ensures
        apps.filter(keep).contains(app) <==> apps.contains(app) && keep(app),
    decreases apps.len(),
{
    broadcast use vstd::seq_lib::group_filter_ensures;

    reveal(Seq::filter);
    let kept = apps.filter(keep);
    if apps.len() > 0 {
        let rest = apps.drop_last();
        lemma_filter_within(rest, keep, app);
        if kept.contains(app) {
            let i = kept.index_of(app);
            assert(keep(kept[i]));
            if i < rest.filter(keep).len() {
                assert(rest.filter(keep)[i] == app);
                assert(apps[rest.index_of(app)] == app);
            } else {
                assert(apps[apps.len() - 1] == app);
            }
        }
        if apps.contains(app) && keep(app) {
            let i = apps.index_of(app);
            assert(kept.contains(apps[i]));
        }
    }
}

proof fn lemma_filter_entries(apps: Seq<App>, keep: spec_fn(App) -> bool)
    requires
        distinct_names(apps),
    ensures
        distinct_names(apps.filter(keep)),
        apps.filter(keep).no_duplicates(),
        forall|app: App| #[trigger]
            apps.filter(keep).contains(app) <==> keep(app) && by_name(apps).contains_key(
                app.search_name@,
            ) && by_name(apps)[app.search_name@] == app,
{
    lemma_filter_distinct(apps, keep);
    assert forall|app: App| #[trigger]
        apps.filter(keep).contains(app) <==> keep(app) && by_name(apps).contains_key(
            app.search_name@,
        ) && by_name(apps)[app.search_name@] == app by {
        lemma_by_name_values(apps, app);
        lemma_filter_within(apps, keep, app);
    }
}

proof fn lemma_filter_distinct(apps: Seq<App>, keep: spec_fn(App) -> bool)
    requires
        distinct_names(apps),
    ensures
        distinct_names(apps.filter(keep)),
    decreases apps.len(),
{
    reveal(Seq::filter);
    if apps.len() > 0 {
        let rest = apps.drop_last();
        lemma_filter_distinct(rest, keep);
        assert forall|i: int| 0 <= i < rest.filter(keep).len() implies (#[trigger] rest.filter(
            keep,
        )[i]).search_name@ != apps.last().search_name@ by {
            let app = rest.filter(keep)[i];
            lemma_filter_within(rest, keep, app);
            let k = rest.index_of(app);
            assert(apps[k] == app);
        }
    }
}

proof fn lemma_rankings(pairs: Seq<(String, i32)>, name: Seq<char>)
    requires
        distinct_pairs(pairs),
    ensures
        rankings(pairs).contains_key(name) <==> exists|i: int|
            0 <= i < pairs.len() && (#[trigger] pairs[i]).0@ == name,
        forall|i: int|
            0 <= i < pairs.len() && (#[trigger] pairs[i]).0@ == name ==> rankings(pairs)[name]
                == pairs[i].1,
    decreases pairs.len(),
{
    if pairs.len() > 0 {
        let rest = pairs.drop_last();
        lemma_rankings(rest, name);
        assert(forall|i: int| 0 <= i < rest.len() ==> rest[i] == #[trigger] pairs[i]);
        assert(pairs.last() == pairs[pairs.len() - 1]);
    }
}

proof fn lemma_pairs_of(pairs: Seq<(String, i32)>, apps: Seq<App>)
    requires
        distinct_names(apps),
        pairs_of(pairs, apps),
    ensures
        distinct_pairs(pairs),
        rankings(pairs) == positive_rankings(by_name(apps)),
{
    let kept = apps.filter(has_rank());
    lemma_filter_entries(apps, has_rank());
    assert(distinct_pairs(pairs));
    assert forall|name: Seq<char>|
        rankings(pairs).contains_key(name) <==> #[trigger] positive_rankings(
            by_name(apps),
        ).contains_key(name) by {
        lemma_rankings(pairs, name);
        lemma_by_name(apps, name);
        if positive_rankings(by_name(apps)).contains_key(name) {
            let app = by_name(apps)[name];
            assert(kept.contains(app));
            let i = kept.index_of(app);
            assert(pairs[i].0@ == name);
        }
        if rankings(pairs).contains_key(name) {
            let i = choose|i: int| 0 <= i < pairs.len() && (#[trigger] pairs[i]).0@ == name;
            assert(kept.contains(kept[i]));
        }
    }
    assert forall|name: Seq<char>| #[trigger] rankings(pairs).contains_key(name) implies rankings(
        pairs,
    )[name] == positive_rankings(by_name(apps))[name] by {
        lemma_rankings(pairs, name);
        let i = choose|i: int| 0 <= i < pairs.len() && (#[trigger] pairs[i]).0@ == name;
        assert(kept.contains(kept[i]));
    }
    assert(rankings(pairs) =~= positive_rankings(by_name(apps)));
}

impl Clone for AppIndex {
    /// A copy of the index.
    fn clone(&self) -> (r: Self)
        ensures
            r.entries() == self.entries(),
    {
        proof {
            use_type_invariant(self);
        }
        let mut apps: Vec<App> = Vec::new();
        for i in 0..self.apps.len()
            invariant
                apps@ == self.apps@.take(i as int),
        {
            apps.push(self.apps[i].clone());
        }
        assert(self.apps@.take(self.apps@.len() as int) == self.apps@);
        AppIndex { apps }
    }
}

/// Where the first app named `name` stands.
fn position_in(apps: &Vec<App>, name: &str) -> (r: Option<usize>)
    ensures
        match r {
            Some(i) => i < apps.len() && apps@[i as int].search_name@ == name@,
            None => forall|i: int|
                0 <= i < apps.len() ==> (#[trigger] apps@[i]).search_name@ != name@,
        },
{
    let key = name.to_owned();
    for i in 0..apps.len()
        invariant
            key@ == name@,
            forall|j: int| 0 <= j < i ==> (#[trigger] apps@[j]).search_name@ != name@,
    {
        if apps[i].search_name == key {
            return Some(i);
        }
    }
    None
}

/// Of the apps of one name, the last one is indexed.
pub proof fn last_app_of_a_name_counts(apps: Seq<App>, i: int)
    requires
        0 <= i < apps.len(),
        forall|j: int|
            i < j < apps.len() ==> (#[trigger] apps[j]).search_name@ != apps[i].search_name@,
    ensures
        by_name(apps).contains_key(apps[i].search_name@),
        by_name(apps)[apps[i].search_name@] == apps[i],
    decreases apps.len(),
{
    if i < apps.len() - 1 {
        let rest = apps.drop_last();
        assert(apps[apps.len() - 1].search_name@ != apps[i].search_name@);
        assert forall|j: int| i < j < rest.len() implies (#[trigger] rest[j]).search_name@
            != rest[i].search_name@ by {
            assert(rest[j] == apps[j]);
        }
        last_app_of_a_name_counts(rest, i);
    }
}

/// Typing on narrows a search: what answers a longer prefix answers a shorter one.
pub proof fn longer_prefix_finds_less(name: Seq<char>, prefix: Seq<char>, more: Seq<char>)
    requires
        name_matches(name, prefix + more),
    ensures
        name_matches(name, prefix),
{
    let longer = prefix + more;
    assert(longer.take(prefix.len() as int) =~= prefix);
    assert(name.subrange(0, prefix.len() as int) =~= name.subrange(0, longer.len() as int).take(
        prefix.len() as int,
    ));
}

/// A search for nothing finds every app.
pub proof fn empty_prefix_finds_all(name: Seq<char>)
    ensures
        name_matches(name, seq![]),
{
    assert(name.subrange(0, 0) =~= Seq::<char>::empty());
    assert(occurs_at(name, seq![], 0));
}

/// A search finds a name exactly where the name is the prefix with something, or nothing, behind
/// it.
pub proof fn found_names_continue_the_prefix(name: Seq<char>, prefix: Seq<char>)
    ensures
        name_matches(name, prefix) <==> exists|behind: Seq<char>| name == #[trigger] (prefix
            + behind),
{
    if name_matches(name, prefix) {
        let behind = name.skip(prefix.len() as int);
        assert(name =~= name.subrange(0, prefix.len() as int) + behind);
        assert(name == prefix + behind);
    }
    if exists|behind: Seq<char>| name == #[trigger] (prefix + behind) {
        let behind = choose|behind: Seq<char>| name == #[trigger] (prefix + behind);
        assert((prefix + behind).subrange(0, prefix.len() as int) =~= prefix);
    }
}

/// `index` with each of the saved rankings given to its app.
pub open spec fn restored(index: Map<Seq<char>, App>, saved: Seq<(String, i32)>) -> Map<
    Seq<char>,
    App,
>
    decreases saved.len(),
{
    if saved.len() == 0 {
        index
    } else {
        ranked_in(restored(index, saved.drop_last()), saved.last().0@, saved.last().1)
    }
}

proof fn lemma_restored(index: Map<Seq<char>, App>, saved: Seq<(String, i32)>)
    ensures
        restored(index, saved).dom() == index.dom(),
        forall|name: Seq<char>| #[trigger]
            restored(index, saved).contains_key(name) ==> restored(index, saved)[name] == (App {
                ranking: if rankings(saved).contains_key(name) {
                    rankings(saved)[name]
                } else {
                    index[name].ranking
                },
                ..index[name]
            }),
    decreases saved.len(),
{
    if saved.len() > 0 {
        lemma_restored(index, saved.drop_last());
        assert(restored(index, saved).dom() =~= index.dom());
    }
}

/// Rankings survive being saved. Where `saved` are those of `old`, and `new` indexes apps of the
/// same names, none of them ranked, giving the saved rankings to `new` makes its rankings those of
/// `old`. It changes nothing but rankings, and nothing at all of an app without a saved one.
pub proof fn saved_rankings_come_back(
    old_index: Map<Seq<char>, App>,
    new_index: Map<Seq<char>, App>,
    saved: Seq<(String, i32)>,
)
    requires
        rankings(saved) == positive_rankings(old_index),
        new_index.dom() == old_index.dom(),
        forall|name: Seq<char>| #[trigger]
            new_index.contains_key(name) ==> new_index[name].ranking <= 0,
    ensures
        positive_rankings(restored(new_index, saved)) == positive_rankings(old_index),
        restored(new_index, saved).dom() == new_index.dom(),
        forall|name: Seq<char>| #[trigger]
            new_index.contains_key(name) ==> restored(new_index, saved)[name] == (App {
                ranking: restored(new_index, saved)[name].ranking,
                ..new_index[name]
            }),
        forall|name: Seq<char>| #[trigger]
            new_index.contains_key(name) && !rankings(saved).contains_key(name) ==> restored(
                new_index,
                saved,
            )[name] == new_index[name],
{
    lemma_restored(new_index, saved);
    let end = restored(new_index, saved);
    assert forall|name: Seq<char>| #[trigger]
        new_index.contains_key(name) implies end[name] == (App {
        ranking: end[name].ranking,
        ..new_index[name]
    }) by {
        assert(end.contains_key(name));
    }
    assert forall|name: Seq<char>| #[trigger]
        new_index.contains_key(name) && !rankings(saved).contains_key(name) implies end[name]
        == new_index[name] by {
        assert(end.contains_key(name));
    }
    assert(positive_rankings(end) =~= positive_rankings(old_index)) by {
        assert forall|name: Seq<char>| #[trigger]
            positive_rankings(end).contains_key(name) <==> positive_rankings(
                old_index,
            ).contains_key(name) by {
            assert(old_index.contains_key(name) <==> new_index.contains_key(name)) by {
                assert(old_index.dom().contains(name) <==> new_index.dom().contains(name));
            }
            assert(end.contains_key(name) <==> new_index.contains_key(name)) by {
                assert(end.dom().contains(name) <==> new_index.dom().contains(name));
            }
            assert(rankings(saved).contains_key(name) <==> positive_rankings(
                old_index,
            ).contains_key(name));
        }
        assert forall|name: Seq<char>| #[trigger]
            positive_rankings(end).contains_key(name) implies positive_rankings(end)[name]
            == positive_rankings(old_index)[name] by {
            assert(end.contains_key(name));
        }
    }
}

/// Of two rankings given to one app, the later counts, and rankings given to two apps do not
/// affect each other.
pub proof fn later_ranking_counts(
    index: Map<Seq<char>, App>,
    name: Seq<char>,
    other: Seq<char>,
    first: i32,
    second: i32,
)
    ensures
        ranked_in(ranked_in(index, name, first), name, second) == ranked_in(index, name, second),
        name != other ==> ranked_in(ranked_in(index, name, first), other, second) == ranked_in(
            ranked_in(index, other, second),
            name,
            first,
        ),
{
    assert(ranked_in(ranked_in(index, name, first), name, second) =~= ranked_in(
        index,
        name,
        second,
    ));
    if name != other {
        assert(ranked_in(ranked_in(index, name, first), other, second) =~= ranked_in(
            ranked_in(index, other, second),
            name,
            first,
        ));
    }
}

/// A search finds exactly the apps of the index whose name is the prefix with something, or
/// nothing, behind it, each of them once.
pub proof fn a_search_finds_every_app_of_the_prefix(index: &AppIndex, prefix: &str, r: Vec<App>)
    requires
        call_ensures(AppIndex::search_prefix, (index, prefix), r),
    ensures
        r@.no_duplicates(),
        forall|app: App| #[trigger]
            r@.contains(app) <==> index@.contains_key(app.search_name@)
                && index@[app.search_name@] == app && exists|behind: Seq<char>|
                app.search_name@ == #[trigger] (prefix@ + behind),
{
    assert forall|app: App| #[trigger]
        r@.contains(app) <==> index@.contains_key(app.search_name@) && index@[app.search_name@]
            == app && exists|behind: Seq<char>|
            app.search_name@ == #[trigger] (prefix@ + behind) by {
        found_names_continue_the_prefix(app.search_name@, prefix@);
    }
}

/// `matches_name` finds a name exactly where it is the prefix with something, or nothing, behind
/// it.
pub proof fn names_match_what_they_start_with(name: &str, prefix: &str, r: bool)
    requires
        call_ensures(matches_name, (name, prefix), r),
    ensures
        r <==> exists|behind: Seq<char>| name@ == #[trigger] (prefix@ + behind),
{
    found_names_continue_the_prefix(name@, prefix@);
}

/// An index holds the names of its apps and no others, and under each name the last app of that
/// name, unchanged.
pub proof fn an_index_holds_the_last_app_of_each_name(options: Vec<App>, r: AppIndex)
    requires
        call_ensures(AppIndex::from_apps, (options,), r),
    ensures
        forall|name: Seq<char>| #[trigger]
            r@.contains_key(name) <==> exists|i: int|
                0 <= i < options@.len() && (#[trigger] options@[i]).search_name@ == name,
        forall|i: int|
            0 <= i < options@.len() && (forall|j: int|
                i < j < options@.len() ==> (#[trigger] options@[j]).search_name@
                    != options@[i].search_name@) ==> r@[(
            #[trigger] options@[i]).search_name@] == options@[i],
{
    assert forall|name: Seq<char>| #[trigger]
        r@.contains_key(name) <==> exists|i: int|
            0 <= i < options@.len() && (#[trigger] options@[i]).search_name@ == name by {
        lemma_by_name(options@, name);
    }
    assert forall|i: int|
        0 <= i < options@.len() && (forall|j: int|
            i < j < options@.len() ==> (#[trigger] options@[j]).search_name@
                != options@[i].search_name@) implies r@[(#[trigger] options@[i]).search_name@]
        == options@[i] by {
        last_app_of_a_name_counts(options@, i);
    }
}

/// An index without apps holds no name, a copy of an index holds what the index holds, and a copy
/// of an app is the app.
pub proof fn copies_hold_the_same_apps(
    empty: AppIndex,
    index: &AppIndex,
    copy: AppIndex,
    app: &App,
    same: App,
)
    requires
        call_ensures(AppIndex::empty, (), empty),
        call_ensures(AppIndex::clone, (index,), copy),
        call_ensures(App::clone, (app,), same),
    ensures
        forall|name: Seq<char>| !(#[trigger] empty@.contains_key(name)),
        copy@ == index@,
        same == *app,
{
}

/// Each use of an app raises its ranking by one. No app comes or goes, and nothing else of any app
/// changes.
pub proof fn a_use_counts_one(index: &mut AppIndex, name: &str, r: ())
    requires
        call_ensures(AppIndex::update_ranking, (index, name), r),
        old(index)@.contains_key(name@) ==> old(index)@[name@].ranking < i32::MAX,
    ensures
        forall|other: Seq<char>| #[trigger]
            final(index)@.contains_key(other) <==> old(index)@.contains_key(other),
        forall|other: Seq<char>| #[trigger]
            final(index)@.contains_key(other) && other != name@ ==> final(index)@[other] == old(
                index,
            )@[other],
        old(index)@.contains_key(name@) ==> {
            let before = old(index)@[name@];
            let after = final(index)@[name@];
            &&& after.ranking == before.ranking + 1
            &&& after == (App { ranking: after.ranking, ..before })
        },
{
}

/// An app that is given a ranking has it, whatever it is. No app comes or goes, and nothing else of
/// any app changes.
pub proof fn a_given_ranking_is_kept(index: &mut AppIndex, name: &str, rank: i32, r: ())
    requires
        call_ensures(AppIndex::set_ranking, (index, name, rank), r),
    ensures
        forall|other: Seq<char>| #[trigger]
            final(index)@.contains_key(other) <==> old(index)@.contains_key(other),
        forall|other: Seq<char>| #[trigger]
            final(index)@.contains_key(other) && other != name@ ==> final(index)@[other] == old(
                index,
            )@[other],
        old(index)@.contains_key(name@) ==> {
            let before = old(index)@[name@];
            let after = final(index)@[name@];
            &&& after.ranking == rank
            &&& after == (App { ranking: rank, ..before })
        },
{
}

/// An app has a rank exactly where its ranking is above zero, however high it is: so it is among
/// those that are ranked, and its ranking among those that are saved.
pub proof fn every_ranking_above_zero_counts(
    apps: Seq<App>,
    app: App,
    index: Map<Seq<char>, App>,
    name: Seq<char>,
)
    ensures
        apps.filter(has_rank()).contains(app) <==> apps.contains(app) && app.ranking > 0,
        positive_rankings(index).contains_key(name) <==> index.contains_key(name)
            && index[name].ranking > 0,
        positive_rankings(index).contains_key(name) ==> positive_rankings(index)[name]
            == index[name].ranking,
{
    lemma_filter_within(apps, has_rank(), app);
}

/// The rankings to save are those of all apps that rank above zero, however high, and of no others,
/// one for each app.
pub proof fn every_ranking_above_zero_is_saved(index: &AppIndex, r: Vec<(String, i32)>)
    requires
        call_ensures(AppIndex::get_rankings, (index,), r),
    ensures
        forall|i: int|
            0 <= i < r@.len() ==> index@.contains_key((#[trigger] r@[i]).0@)
                && index@[r@[i].0@].ranking == r@[i].1 && r@[i].1 > 0,
        forall|name: Seq<char>| #[trigger]
            index@.contains_key(name) && index@[name].ranking > 0 ==> exists|i: int|
                0 <= i < r@.len() && (#[trigger] r@[i]).0@ == name && r@[i].1
                    == index@[name].ranking,
        forall|i: int, j: int|
            0 <= i < j < r@.len() ==> (#[trigger] r@[i]).0@ != (#[trigger] r@[j]).0@,
{
    assert forall|i: int| 0 <= i < r@.len() implies index@.contains_key((#[trigger] r@[i]).0@)
        && index@[r@[i].0@].ranking == r@[i].1 && r@[i].1 > 0 by {
        lemma_rankings(r@, r@[i].0@);
        assert(positive_rankings(index@).contains_key(r@[i].0@));
    }
    assert forall|name: Seq<char>| #[trigger]
        index@.contains_key(name) && index@[name].ranking > 0 implies exists|i: int|
        0 <= i < r@.len() && (#[trigger] r@[i]).0@ == name && r@[i].1 == index@[name].ranking by {
        lemma_rankings(r@, name);
        assert(positive_rankings(index@).contains_key(name));
        let i = choose|i: int| 0 <= i < r@.len() && (#[trigger] r@[i]).0@ == name;
        assert(r@[i].1 == index@[name].ranking);
    }
}

/// The apps at the top are the best of all that rank above zero, however high: nothing else is
/// among them, none twice, and they stand from the highest ranking down, those of one ranking by
/// name. One that ranks above zero is left out only where the limit is reached, and then by none
/// that ranks below it. So, unless the limit is zero, the first has the highest ranking of the
/// whole index.
pub proof fn the_top_is_the_best_of_the_index(index: &AppIndex, limit: usize, r: Vec<App>)
    requires
        call_ensures(AppIndex::top_ranked, (index, limit), r),
        index.wf(),
    ensures
        r@.len() <= limit,
        r@.no_duplicates(),
        forall|app: App| #[trigger]
            r@.contains(app) ==> app.ranking > 0 && index@.contains_key(app.search_name@)
                && index@[app.search_name@] == app,
        forall|i: int, j: int|
            0 <= i < j < r@.len() ==> (#[trigger] r@[i]).ranking > (#[trigger] r@[j]).ranking
                || r@[i].ranking == r@[j].ranking && !text_less(
                r@[j].display_name@,
                r@[i].display_name@,
            ),
        forall|name: Seq<char>, i: int|
            #![trigger index@.contains_key(name), r@[i]]
            index@.contains_key(name) && index@[name].ranking > 0 && !r@.contains(index@[name])
                && 0 <= i < r@.len() ==> r@[i].ranking > index@[name].ranking || r@[i].ranking
                == index@[name].ranking && !text_less(
                index@[name].display_name@,
                r@[i].display_name@,
            ),
        forall|name: Seq<char>| #[trigger]
            index@.contains_key(name) && index@[name].ranking > 0 ==> r@.contains(index@[name])
                || r@.len() == limit,
        forall|name: Seq<char>| #[trigger]
            index@.contains_key(name) && index@[name].ranking > 0 && limit > 0 ==> r@.len() > 0
                && r@[0].ranking >= index@[name].ranking,
{
    lemma_best_of(r@, index.entries(), limit as int);
}

/// `top` are the best of the apps with distinct names that rank above zero.
pub(crate) proof fn lemma_best_of(top: Seq<App>, apps: Seq<App>, limit: int)
    requires
        is_top_of(top, apps.filter(has_rank()), limit),
        distinct_names(apps),
        limit >= 0,
    ensures
        top.len() <= limit,
        top.no_duplicates(),
        forall|app: App| #[trigger]
            top.contains(app) ==> app.ranking > 0 && by_name(apps).contains_key(app.search_name@)
                && by_name(apps)[app.search_name@] == app,
        forall|i: int, j: int|
            0 <= i < j < top.len() ==> (#[trigger] top[i]).ranking > (#[trigger] top[j]).ranking
                || top[i].ranking == top[j].ranking && !text_less(
                top[j].display_name@,
                top[i].display_name@,
            ),
        forall|name: Seq<char>, i: int|
            #![trigger by_name(apps).contains_key(name), top[i]]
            by_name(apps).contains_key(name) && by_name(apps)[name].ranking > 0 && !top.contains(
                by_name(apps)[name],
            ) && 0 <= i < top.len() ==> top[i].ranking > by_name(apps)[name].ranking
                || top[i].ranking == by_name(apps)[name].ranking && !text_less(
                by_name(apps)[name].display_name@,
                top[i].display_name@,
            ),
        forall|name: Seq<char>| #[trigger]
            by_name(apps).contains_key(name) && by_name(apps)[name].ranking > 0 ==> top.contains(
                by_name(apps)[name],
            ) || top.len() == limit,
        forall|name: Seq<char>| #[trigger]
            by_name(apps).contains_key(name) && by_name(apps)[name].ranking > 0 && limit > 0
                ==> top.len() > 0 && top[0].ranking >= by_name(apps)[name].ranking,
{
    broadcast use vstd::seq_lib::group_to_multiset_ensures;

    let kept = apps.filter(has_rank());
    lemma_filter_entries(apps, has_rank());
    top_is_best(top, kept, limit);
    let ranked = choose|ranked: Seq<App>| #[trigger]
        is_ranking_of(ranked, kept) && top == ranked.take(
            if limit < ranked.len() {
                limit
            } else {
                ranked.len() as int
            },
        );
    assert(ranked.no_duplicates()) by {
        kept.lemma_multiset_has_no_duplicates();
        ranked.lemma_multiset_has_no_duplicates_conv();
    }
    assert(top.no_duplicates());
    assert forall|app: App| #[trigger] top.contains(app) implies app.ranking > 0 && by_name(
        apps,
    ).contains_key(app.search_name@) && by_name(apps)[app.search_name@] == app by {
        assert(kept.contains(app));
    }
    assert forall|name: Seq<char>, i: int|
        #![trigger by_name(apps).contains_key(name), top[i]]
        by_name(apps).contains_key(name) && by_name(apps)[name].ranking > 0 && !top.contains(
            by_name(apps)[name],
        ) && 0 <= i < top.len() implies top[i].ranking > by_name(apps)[name].ranking
        || top[i].ranking == by_name(apps)[name].ranking && !text_less(
        by_name(apps)[name].display_name@,
        top[i].display_name@,
    ) by {
        lemma_by_name(apps, name);
        assert(kept.contains(by_name(apps)[name]));
        assert(top.contains(top[i]));
    }
    assert forall|name: Seq<char>| #[trigger]
        by_name(apps).contains_key(name) && by_name(apps)[name].ranking > 0 implies top.contains(
        by_name(apps)[name],
    ) || top.len() == limit by {
        let app = by_name(apps)[name];
        lemma_by_name(apps, name);
        assert(kept.contains(app));
        if top.len() < limit {
            assert(ranked.len() == kept.len());
            assert(top =~= ranked);
            assert(kept.to_multiset().count(app) > 0);
            assert(top.contains(app));
        }
    }
    assert forall|name: Seq<char>| #[trigger]
        by_name(apps).contains_key(name) && by_name(apps)[name].ranking > 0 && limit
            > 0 implies top.len() > 0 && top[0].ranking >= by_name(apps)[name].ranking by {
        let app = by_name(apps)[name];
        if top.contains(app) {
            let i = top.index_of(app);
            assert(top[i] == app);
        }
    }
}

/// Giving an app a ranking changes that app's ranking and nothing else.
pub proof fn one_ranking_changes(
    index: Map<Seq<char>, App>,
    name: Seq<char>,
    rank: i32,
    other: Seq<char>,
)
    ensures
        ranked_in(index, name, rank).dom() == index.dom(),
        index.contains_key(name) ==> ranked_in(index, name, rank)[name] == (App {
            ranking: rank,
            ..index[name]
        }),
        other != name && index.contains_key(other) ==> ranked_in(index, name, rank)[other]
            == index[other],
{
    assert(ranked_in(index, name, rank).dom() =~= index.dom());
}

/// When saved rankings are given back, the last one that was saved for an app is the one that it
/// gets, and an app without one keeps its own.
pub proof fn the_last_saved_ranking_counts(
    index: Map<Seq<char>, App>,
    saved: Seq<(String, i32)>,
    name: Seq<char>,
)
    requires
        index.contains_key(name),
    ensures
        forall|i: int|
            0 <= i < saved.len() && (#[trigger] saved[i]).0@ == name && (forall|j: int|
                i < j < saved.len() ==> (#[trigger] saved[j]).0@ != name) ==> restored(
                index,
                saved,
            )[name] == (App { ranking: saved[i].1, ..index[name] }),
        (forall|i: int| 0 <= i < saved.len() ==> (#[trigger] saved[i]).0@ != name) ==> restored(
            index,
            saved,
        )[name] == index[name],
        restored(index, saved).dom() == index.dom(),
    decreases saved.len(),
{
    lemma_restored(index, saved);
    if saved.len() > 0 {
        let rest = saved.drop_last();
        the_last_saved_ranking_counts(index, rest, name);
        lemma_restored(index, rest);
        assert(forall|i: int| 0 <= i < rest.len() ==> rest[i] == #[trigger] saved[i]);
        assert(restored(index, rest).dom().contains(name));
        assert(saved.last() == saved[saved.len() - 1]);
        one_ranking_changes(restored(index, rest), saved.last().0@, saved.last().1, name);
    }
}


} // verus!
