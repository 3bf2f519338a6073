//! The order in which ranked apps are shown.
use core::cmp::Ordering;
use vstd::prelude::*;

use crate::apps::App;
use crate::text::{text_less, to_chars};

verus! {

/// `left` is shown before `right`: it ranks higher, or as high and its name comes first.
pub open spec fn ranks_before(left: App, right: App) -> bool {
    ||| left.ranking > right.ranking
    ||| left.ranking == right.ranking && text_less(left.display_name@, right.display_name@)
}

/// Nothing decides which of `left` and `right` is shown first.
pub open spec fn same_rank(left: App, right: App) -> bool {
    left.ranking == right.ranking && left.display_name@ == right.display_name@
}

/// The apps that tie with `app`.
pub open spec fn ties_with(app: App) -> spec_fn(App) -> bool {
    |other: App| same_rank(app, other)
}

/// No app is shown before one that ranks before it.
pub open spec fn is_ranked(apps: Seq<App>) -> bool {
    forall|i: int, j: int|
        0 <= i < j < apps.len() ==> !ranks_before(#[trigger] apps[j], #[trigger] apps[i])
}

/// `ranked` holds `apps` in the order in which they are shown, those that tie in their old order.
pub open spec fn is_ranking_of(ranked: Seq<App>, apps: Seq<App>) -> bool {
    &&& is_ranked(ranked)
    &&& ranked.to_multiset() == apps.to_multiset()
    &&& forall|app: App| #[trigger]
        ranked.filter(ties_with(app)) == apps.filter(ties_with(app))
}

/// `top` holds those of `apps` that are shown first, at most `limit` of them.
pub open spec fn is_top_of(top: Seq<App>, apps: Seq<App>, limit: int) -> bool {
    exists|ranked: Seq<App>| #[trigger]
        is_ranking_of(ranked, apps) && top == ranked.take(
            if limit < ranked.len() {
                limit
            } else {
                ranked.len() as int
            },
        )
}

/// No text comes before itself.
pub proof fn text_less_irreflexive(a: Seq<char>)
    ensures
        !text_less(a, a),
    decreases a.len(),
{
    if a.len() > 0 {
        text_less_irreflexive(a.drop_first());
    }
}

/// The order of texts is transitive.
pub proof fn text_less_transitive(a: Seq<char>, b: Seq<char>, c: Seq<char>)
    requires
        text_less(a, b),
        text_less(b, c),
    ensures
        text_less(a, c),
    decreases a.len(),
{
    if a.len() > 0 && a[0] == b[0] && b[0] == c[0] {
        text_less_transitive(a.drop_first(), b.drop_first(), c.drop_first());
    }
}

/// Of two texts that differ, one comes first.
pub proof fn text_less_total(a: Seq<char>, b: Seq<char>)
    ensures
        a == b || text_less(a, b) || text_less(b, a),
    decreases a.len(),
{
    if a.len() == 0 || b.len() == 0 {
        assert(a.len() == b.len() ==> a =~= b);
    } else if a[0] == b[0] {
        text_less_total(a.drop_first(), b.drop_first());
        if a.drop_first() == b.drop_first() {
            assert(a =~= seq![a[0]] + a.drop_first());
            assert(b =~= seq![b[0]] + b.drop_first());
        }
    }
}

/// Texts are ordered like words in a dictionary: where two first differ, the smaller character
/// comes first, and a text comes before one that continues it.
pub proof fn first_difference_decides(
    common: Seq<char>,
    x: char,
    a: Seq<char>,
    y: char,
    b: Seq<char>,
)
    ensures
        x < y ==> text_less(common + seq![x] + a, common + seq![y] + b),
        text_less(common, common + seq![x] + a),
    decreases common.len(),
{
    let left = common + seq![x] + a;
    let right = common + seq![y] + b;
    if common.len() > 0 {
        let rest = common.drop_first();
        first_difference_decides(rest, x, a, y, b);
        assert(left.drop_first() =~= rest + seq![x] + a);
        assert(right.drop_first() =~= rest + seq![y] + b);
    }
}

/// `rank_order` puts the app with the higher ranking first, then the one whose name comes first.
pub proof fn higher_rankings_come_first(left: App, right: App, r: Ordering)
    requires
        call_ensures(rank_order, (&left, &right), r),
    ensures
        r is Less <==> left.ranking > right.ranking || left.ranking == right.ranking && text_less(
            left.display_name@,
            right.display_name@,
        ),
        r is Equal <==> left.ranking == right.ranking && left.display_name@ == right.display_name@,
        r is Greater <==> left.ranking < right.ranking || left.ranking == right.ranking
            && text_less(right.display_name@, left.display_name@),
{
    ranks_before_is_an_order(left, right, left);
}

/// The order of apps is a strict weak order: of two apps exactly one of three holds, either is
/// shown first or they tie, and being shown first is transitive.
pub proof fn ranks_before_is_an_order(a: App, b: App, c: App)
    ensures
        same_rank(a, b) <==> !ranks_before(a, b) && !ranks_before(b, a),
        !(ranks_before(a, b) && ranks_before(b, a)),
        ranks_before(a, b) && ranks_before(b, c) ==> ranks_before(a, c),
        same_rank(a, b) && same_rank(b, c) ==> same_rank(a, c),
        same_rank(a, b) && ranks_before(b, c) ==> ranks_before(a, c),
        ranks_before(a, b) && same_rank(b, c) ==> ranks_before(a, c),
{
    let x = a.display_name@;
    let y = b.display_name@;
    let z = c.display_name@;
    text_less_irreflexive(x);
    text_less_total(x, y);
    if text_less(x, y) && text_less(y, x) {
        text_less_transitive(x, y, x);
    }
    if text_less(x, y) && text_less(y, z) {
        text_less_transitive(x, y, z);
    }
}

proof fn lemma_last_filtered(apps: Seq<App>, app: App)
    requires
        apps.len() > 0,
        same_rank(app, apps.last()),
    ensures
        apps.filter(ties_with(app)).len() > 0,
        apps.filter(ties_with(app)).last() == apps.last(),
{
    reveal(Seq::filter);
}

proof fn lemma_drop_last_filtered(ranked: Seq<App>, apps: Seq<App>, app: App)
    requires
        ranked.len() > 0,
        apps.len() > 0,
        ranked.last() == apps.last(),
        ranked.filter(ties_with(app)) == apps.filter(ties_with(app)),
    ensures
        ranked.drop_last().filter(ties_with(app)) == apps.drop_last().filter(ties_with(app)),
{
    reveal(Seq::filter);
    let a = ranked.drop_last().filter(ties_with(app));
    let b = apps.drop_last().filter(ties_with(app));
    if same_rank(app, apps.last()) {
        assert(a.push(apps.last()).drop_last() =~= a);
        assert(b.push(apps.last()).drop_last() =~= b);
    }
}

/// There is one way to show apps: two sequences that hold the same apps in the order in which they
/// are shown, those that tie in their old order, are the same.
pub proof fn ranking_is_unique(first: Seq<App>, second: Seq<App>, apps: Seq<App>)
    requires
        is_ranking_of(first, apps),
        is_ranking_of(second, apps),
    ensures
        first == second,
{
    assert forall|app: App| #[trigger] second.filter(ties_with(app)) == first.filter(
        ties_with(app),
    ) by {
        assert(first.filter(ties_with(app)) == apps.filter(ties_with(app)));
    }
    lemma_ranking_of_ranked(first, second);
}

proof fn lemma_ranking_of_ranked(first: Seq<App>, second: Seq<App>)
    requires
        is_ranked(first),
        is_ranking_of(second, first),
    ensures
        first == second,
    decreases first.len(),
{
    broadcast use vstd::seq_lib::group_to_multiset_ensures;

    assert(first.len() == first.to_multiset().len());
    assert(second.len() == second.to_multiset().len());
    if first.len() == 0 {
        assert(first =~= second);
    } else {
        let a = first.last();
        let b = second.last();
        assert(first.contains(a));
        assert(second.contains(b));
        assert(second.to_multiset().count(a) > 0);
        assert(first.to_multiset().count(b) > 0);
        assert(second.contains(a) && first.contains(b));
        let i = second.index_of(a);
        let j = first.index_of(b);
        assert(!ranks_before(b, a)) by {
            if i < second.len() - 1 {
                assert(!ranks_before(second[second.len() - 1], second[i]));
            } else {
                ranks_before_is_an_order(a, a, a);
            }
        }
        assert(!ranks_before(a, b)) by {
            if j < first.len() - 1 {
                assert(!ranks_before(first[first.len() - 1], first[j]));
            } else {
                ranks_before_is_an_order(b, b, b);
            }
        }
        ranks_before_is_an_order(a, b, a);
        ranks_before_is_an_order(a, a, a);
        lemma_last_filtered(first, a);
        lemma_last_filtered(second, a);
        assert(second.filter(ties_with(a)) == first.filter(ties_with(a)));
        assert(a == b);
        let x = first.drop_last();
        let y = second.drop_last();
        assert forall|app: App| #[trigger] y.filter(ties_with(app)) == x.filter(
            ties_with(app),
        ) by {
            assert(second.filter(ties_with(app)) == first.filter(ties_with(app)));
            lemma_drop_last_filtered(second, first, app);
        }
        assert(first =~= x.push(a));
        assert(second =~= y.push(a));
        assert(x.push(a).to_multiset() =~= x.to_multiset().insert(a));
        assert(y.push(a).to_multiset() =~= y.to_multiset().insert(a));
        assert(x.to_multiset() =~= x.to_multiset().insert(a).remove(a));
        assert(y.to_multiset() =~= y.to_multiset().insert(a).remove(a));
        lemma_ranking_of_ranked(x, y);
    }
}

/// What is shown first is the best there is: nothing is shown that is not there, the order is that
/// of the ranks, and no app that is left out ranks before one that is shown.
pub proof fn top_is_best(top: Seq<App>, apps: Seq<App>, limit: int)
    requires
        is_top_of(top, apps, limit),
        limit >= 0,
    ensures
        top.len() == if limit < apps.len() {
            limit
        } else {
            apps.len() as int
        },
        is_ranked(top),
        forall|app: App| #[trigger] top.contains(app) ==> apps.contains(app),
        forall|app: App, other: App| #[trigger]
            apps.contains(app) && !top.contains(app) && #[trigger] top.contains(other)
                ==> !ranks_before(app, other),
{
    broadcast use vstd::seq_lib::group_to_multiset_ensures;

    let ranked = choose|ranked: Seq<App>| #[trigger]
        is_ranking_of(ranked, apps) && top == ranked.take(
            if limit < ranked.len() {
                limit
            } else {
                ranked.len() as int
            },
        );
    assert(ranked.len() == ranked.to_multiset().len());
    assert(apps.len() == apps.to_multiset().len());
    assert forall|app: App| #[trigger] top.contains(app) implies apps.contains(app) by {
        let i = top.index_of(app);
        assert(ranked[i] == app);
        assert(ranked.contains(app));
        assert(apps.to_multiset().count(app) > 0);
    }
    assert forall|app: App, other: App| #[trigger]
        apps.contains(app) && !top.contains(app) && #[trigger] top.contains(
            other,
        ) implies !ranks_before(app, other) by {
        assert(ranked.to_multiset().count(app) > 0);
        assert(ranked.contains(app));
        let i = ranked.index_of(app);
        let j = top.index_of(other);
        assert(ranked[j] == other);
        if i < top.len() {
            assert(top[i] == app);
        }
        assert(!ranks_before(ranked[i], ranked[j]));
    }
}

/// Compares two texts by their characters' code points.
fn text_order(a: &str, b: &str) -> (r: Ordering)
    ensures
        match r {
            Ordering::Less => text_less(a@, b@),
            Ordering::Equal => a@ == b@,
            Ordering::Greater => text_less(b@, a@),
        },
{
    let x = to_chars(a);
    let y = to_chars(b);
    let mut i: usize = 0;
    proof {
        assert(a@.skip(0) == a@);
        assert(b@.skip(0) == b@);
        assert(a@.take(0) == b@.take(0));
    }
    while i < x.len() && i < y.len()
        invariant
            x@ == a@,
            y@ == b@,
            i <= x.len(),
            i <= y.len(),
            same_from(a@, b@, i),
        decreases x.len() - i,
    {
        if x[i] < y[i] {
            return Ordering::Less;
        }
        if y[i] < x[i] {
            return Ordering::Greater;
        }
        proof {
            lemma_same_from_step(a@, b@, i);
        }
        i = i + 1;
    }
    if i < y.len() {
        Ordering::Less
    } else if i < x.len() {
        Ordering::Greater
    } else {
        proof {
            lemma_same_to_end(a@, b@, i);
        }
        Ordering::Equal
    }
}

/// The texts agree before position `i`, and compare as what follows it does.
spec fn same_from(a: Seq<char>, b: Seq<char>, i: usize) -> bool {
    let p = i as int;
    &&& a.take(p) == b.take(p)
    &&& text_less(a, b) == text_less(a.skip(p), b.skip(p))
    &&& text_less(b, a) == text_less(b.skip(p), a.skip(p))
}

proof fn lemma_same_to_end(a: Seq<char>, b: Seq<char>, i: usize)
    requires
        same_from(a, b, i),
        i == a.len(),
        i == b.len(),
    ensures
        a == b,
{
    assert(a.take(i as int) == a);
    assert(b.take(i as int) == b);
}

proof fn lemma_same_from_step(a: Seq<char>, b: Seq<char>, i: usize)
    requires
        same_from(a, b, i),
        i < a.len(),
        i < b.len(),
        i < usize::MAX,
        a[i as int] == b[i as int],
    ensures
        same_from(a, b, (i + 1) as usize),
{
    let p = i as int;
    assert(a.skip(p).drop_first() == a.skip(p + 1));
    assert(b.skip(p).drop_first() == b.skip(p + 1));
    assert(a.take(p + 1) == a.take(p).push(a[p]));
    assert(b.take(p + 1) == b.take(p).push(b[p]));
}

/// Compares two apps by the order in which they are shown.
pub fn rank_order(left: &App, right: &App) -> (r: Ordering)
    ensures
        match r {
            Ordering::Less => ranks_before(*left, *right),
            Ordering::Equal => same_rank(*left, *right),
            Ordering::Greater => ranks_before(*right, *left),
        },
{
    if left.ranking > right.ranking {
        Ordering::Less
    } else if left.ranking < right.ranking {
        Ordering::Greater
    } else {
        text_order(left.display_name.as_str(), right.display_name.as_str())
    }
}

} // verus!
