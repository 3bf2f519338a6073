//! Notices when apps are installed or removed.
use vstd::prelude::*;

use crate::message::Message;
use crate::parallel::par_total;

verus! {

/// The sum of all counts.
pub open spec fn total(counts: Seq<usize>) -> nat
    decreases counts.len(),
{
    if counts.len() == 0 {
        0
    } else {
        total(counts.drop_last()) + counts.last() as nat
    }
}

/// What is known of an entry of a directory.
#[derive(Clone, Copy, Debug, PartialEq, Eq, Structural)]
pub enum Entry {
    /// It could not be read.
    Unreadable,
    /// It could be read, but not what it is.
    Unknown,
    /// It is a directory.
    Directory,
    /// It is something else.
    Other,
}

/// The number of directories among `entries`.
pub open spec fn directories(entries: Seq<Entry>) -> nat
    decreases entries.len(),
{
    if entries.len() == 0 {
        0
    } else if entries.last() == Entry::Directory {
        directories(entries.drop_last()) + 1
    } else {
        directories(entries.drop_last())
    }
}

/// The number of directories in a directory with these entries, none if it could not be read.
pub fn count_dirs_in_dir(entries: Option<Vec<Entry>>) -> (r: usize)
    ensures
        r == match entries {
            Some(found) => directories(found@),
            None => 0,
        },
{
    match entries {
        Some(found) => {
            let mut count: usize = 0;
            for i in 0..found.len()
                invariant
                    count == directories(found@.take(i as int)),
                    count <= i,
            {
                assert(found@.take(i + 1).drop_last() == found@.take(i as int));
                if found[i] == Entry::Directory {
                    count = count + 1;
                }
            }
            assert(found@.take(found.len() as int) == found@);
            count
        },
        None => 0,
    }
}

/// The number of directories in all directories, from the number in each.
pub fn total_files(counts: &Vec<usize>) -> (r: usize)
    requires
        total(counts@) <= usize::MAX,
    ensures
        r == total(counts@),
{
    par_total(counts)
}

/// Watches the number of apps.
#[derive(Debug)]
pub struct AppCountWatcher {
    total_files: usize,
}

impl View for AppCountWatcher {
    type V = usize;

    /// The number that was last seen.
    closed spec fn view(&self) -> usize {
        self.total_files
    }
}

impl AppCountWatcher {
    /// A watcher that starts from `total_files`.
    pub fn new(total_files: usize) -> (r: Self)
        ensures
            r@ == total_files,
    {
        AppCountWatcher { total_files }
    }

    /// Sees the number of apps, and gives the message that has them indexed again if it is not the
    /// one seen before.
    pub fn observe<W>(&mut self, current_total_files: usize) -> (r: Option<Message<W>>)
        ensures
            final(self)@ == current_total_files,
            r == if old(self)@ != current_total_files {
                Some(Message::<W>::UpdateApps)
            } else {
                None
            },
    {
        if self.total_files != current_total_files {
            self.total_files = current_total_files;
            Some(Message::UpdateApps)
        } else {
            None
        }
    }
}

/// A directory holds as many directories as there are among its entries, and none where it could
/// not be read.
pub proof fn every_directory_counts_once(entries: Option<Vec<Entry>>, r: usize)
    requires
        call_ensures(count_dirs_in_dir, (entries,), r),
    ensures
        entries is None ==> r == 0,
        entries matches Some(found) ==> r == found@.filter(
            |entry: Entry| entry is Directory,
        ).len(),
{
    if let Some(found) = entries {
        lemma_directories(found@);
    }
}

proof fn lemma_directories(entries: Seq<Entry>)
    ensures
        directories(entries) == entries.filter(|entry: Entry| entry is Directory).len(),
    decreases entries.len(),
{
    reveal(Seq::filter);
    if entries.len() > 0 {
        lemma_directories(entries.drop_last());
    }
}

/// Every count goes into the total, whole: the total of two runs of counts is the sum of theirs,
/// and that of one count is the count.
pub proof fn every_count_goes_into_the_total(a: Seq<usize>, b: Seq<usize>, n: usize)
    ensures
        total(a + b) == total(a) + total(b),
        total(seq![n]) == n,
        total(Seq::<usize>::empty()) == 0,
    decreases b.len(),
{
    reveal_with_fuel(total, 2);
    assert(seq![n].drop_last() =~= Seq::<usize>::empty());
    if b.len() == 0 {
        assert(a + b =~= a);
    } else {
        every_count_goes_into_the_total(a, b.drop_last(), n);
        assert((a + b).drop_last() =~= a + b.drop_last());
    }
}

/// What `total_files` gives is the total of its counts.
pub proof fn total_files_is_the_total(counts: &Vec<usize>, r: usize)
    requires
        call_ensures(total_files, (counts,), r),
    ensures
        r == counts@.fold_left(0int, |sum: int, count: usize| sum + count),
{
    lemma_total(counts@);
}

proof fn lemma_total(counts: Seq<usize>)
    ensures
        total(counts) == counts.fold_left(0int, |sum: int, count: usize| sum + count),
    decreases counts.len(),
{
    reveal_with_fuel(Seq::fold_left, 2);
    if counts.len() > 0 {
        lemma_total(counts.drop_last());
    }
}

/// A watcher has the apps indexed again exactly where their number is not the one that it saw last,
/// or started from, and then it is what it saw last.
pub proof fn a_changed_number_is_noticed_once<W>(
    start: usize,
    fresh: AppCountWatcher,
    watcher: &mut AppCountWatcher,
    again: &mut AppCountWatcher,
    current: usize,
    r: Option<Message<W>>,
    r_again: Option<Message<W>>,
)
    requires
        call_ensures(AppCountWatcher::new, (start,), fresh),
        call_ensures(AppCountWatcher::observe::<W>, (watcher, current), r),
        call_ensures(AppCountWatcher::observe::<W>, (again, current), r_again),
        *old(again) == *final(watcher),
    ensures
        fresh@ == start,
        old(watcher)@ != current ==> r == Some(Message::<W>::UpdateApps),
        old(watcher)@ == current ==> r is None,
        final(watcher)@ == current,
        r_again is None,
{
}


/// Counts whose total is a machine number can be summed.
pub proof fn every_total_that_fits_is_given(counts: &Vec<usize>)
    requires
        counts@.fold_left(0int, |sum: int, count: usize| sum + count) <= usize::MAX,
    ensures
        call_requires(total_files, (counts,)),
{
    lemma_total(counts@);
}


} // verus!
