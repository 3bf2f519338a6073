//! The work that rayon spreads over threads.
use rayon::iter::{IntoParallelRefIterator, ParallelIterator};
use rayon::slice::ParallelSliceMut;
use vstd::prelude::*;

use crate::apps::{answers, matching, App};
use crate::hot_reload::total;
use crate::ranking::{is_ranking_of, rank_order};

verus! {

/// `rayon`'s `par_iter`, `filter_map` and `collect` on a vector: each app goes through `matching`
/// once, and what comes back is collected in the order of the apps.
#[verifier::external_body]
pub(crate) fn par_search(apps: &Vec<App>, prefix: &str) -> (r: Vec<App>)
    ensures
        r@ == apps@.filter(answers(prefix@)),
{
    apps.par_iter().filter_map(|app| matching(app, prefix)).collect()
}

/// `rayon`'s `par_sort_by` with `rank_order`: a stable sort, so the same apps stand in the order
/// that `rank_order` gives, and those that it finds equal keep the order that they had.
#[verifier::external_body]
pub(crate) fn par_rank(apps: &mut Vec<App>)
    ensures
        is_ranking_of(final(apps)@, old(apps)@),
{
    apps.par_sort_by(|left, right| rank_order(left, right));
}

/// `rayon`'s `par_iter` and `sum` on a vector: the sum of the numbers in it.
#[verifier::external_body]
pub(crate) fn par_total(counts: &Vec<usize>) -> (r: usize)
    requires
        total(counts@) <= usize::MAX,
    ensures
        r == total(counts@),
{
    counts.par_iter().sum()
}

} // verus!
