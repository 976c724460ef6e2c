use vstd::prelude::*;

verus! {

/// One observed outcome during a run. Every removal attempt, failed path
/// lookup, unreadable traversal entry, or unsupported entry yields exactly
/// one event.
#[derive(Clone, Copy, PartialEq, Eq, Structural, Debug)]
pub enum Event {
    /// A regular file was removed.
    FileDeleted,
    /// A directory was removed (it was empty when attempted).
    DirDeleted,
    /// An input path did not exist.
    PathNotFound,
    /// Removing a regular file failed.
    FileRemovalFailed,
    /// Removing a directory failed (most often: it was not empty).
    DirRemovalFailed,
    /// An entry was neither a regular file nor a directory.
    UnsupportedEntryType,
    /// The traversal could not read an entry.
    TraversalReadError,
}

/// Every event except the two successful removals counts as an error.
pub open spec fn is_error_event(e: Event) -> bool {
    match e {
        Event::FileDeleted | Event::DirDeleted => false,
        _ => true,
    }
}

/// How many events of a run removed a regular file.
pub open spec fn files_in(s: Seq<Event>) -> int
    decreases s.len(),
{
    if s.len() == 0 {
        0
    } else {
        files_in(s.drop_last()) + (if s.last() is FileDeleted { 1int } else { 0int })
    }
}

/// How many events of a run removed a directory.
pub open spec fn dirs_in(s: Seq<Event>) -> int
    decreases s.len(),
{
    if s.len() == 0 {
        0
    } else {
        dirs_in(s.drop_last()) + (if s.last() is DirDeleted { 1int } else { 0int })
    }
}

/// How many events of a run were errors.
pub open spec fn errors_in(s: Seq<Event>) -> int
    decreases s.len(),
{
    if s.len() == 0 {
        0
    } else {
        errors_in(s.drop_last()) + (if is_error_event(s.last()) { 1int } else { 0int })
    }
}

/// Counting is additive across inputs: the totals of two event streams,
/// processed one after the other, are the sums of the streams' own totals.
/// Each input of a run therefore accumulates its counts into the shared
/// run totals, in the order the inputs were given.
pub proof fn lemma_counts_concat(a: Seq<Event>, b: Seq<Event>)
    ensures
        files_in(a + b) == files_in(a) + files_in(b),
        dirs_in(a + b) == dirs_in(a) + dirs_in(b),
        errors_in(a + b) == errors_in(a) + errors_in(b),
    decreases b.len(),
{
    if b.len() == 0 {
        assert(a + b =~= a);
    } else {
        lemma_counts_concat(a, b.drop_last());
        assert((a + b).drop_last() =~= a + b.drop_last());
        assert((a + b).last() == b.last());
    }
}

/// Each event counts towards exactly one of the three totals.
pub proof fn lemma_counts_partition(s: Seq<Event>)
    ensures
        files_in(s) + dirs_in(s) + errors_in(s) == s.len(),
    decreases s.len(),
{
    if s.len() > 0 {
        lemma_counts_partition(s.drop_last());
    }
}

/// The three run-scoped accumulators, as they are reported at the end of a
/// run: files deleted, directories deleted, and errors.
#[derive(Clone, Copy, PartialEq, Eq, Structural, Debug)]
pub struct Counters {
    pub deleted_files: u64,
    pub deleted_directories: u64,
    pub errors: u64,
}

impl Counters {
    /// The combined number of events recorded so far.
    pub open spec fn total(self) -> int {
        self.deleted_files + self.deleted_directories + self.errors
    }

    /// A fresh run starts with every counter at zero.
    pub fn new() -> (c: Self)
        ensures
            c.deleted_files == 0,
            c.deleted_directories == 0,
            c.errors == 0,
    {
        Counters { deleted_files: 0, deleted_directories: 0, errors: 0 }
    }

    /// Accounts for one event: exactly one counter goes up by one, and the
    /// other two keep their values.
    pub fn record(&mut self, e: Event)
        requires
            old(self).total() < u64::MAX,
        ensures
            final(self).deleted_files ==
                old(self).deleted_files + (if e is FileDeleted { 1int } else { 0int }),
            final(self).deleted_directories ==
                old(self).deleted_directories + (if e is DirDeleted { 1int } else { 0int }),
            final(self).errors ==
                old(self).errors + (if is_error_event(e) { 1int } else { 0int }),
    {
        match e {
            Event::FileDeleted => {
                self.deleted_files = self.deleted_files + 1;
            },
            Event::DirDeleted => {
                self.deleted_directories = self.deleted_directories + 1;
            },
            _ => {
                self.errors = self.errors + 1;
            },
        }
    }
}

/// Folds a whole run's events into the three totals: the counters are
/// exactly the number of file removals, directory removals, and errors
/// among the events, in any order of arrival.
pub fn tally(events: &Vec<Event>) -> (c: Counters)
    ensures
        c.deleted_files == files_in(events@),
        c.deleted_directories == dirs_in(events@),
        c.errors == errors_in(events@),
{
    let mut c = Counters::new();
    let mut i: usize = 0;
    while i < events.len()
        invariant
            0 <= i <= events@.len(),
            c.deleted_files == files_in(events@.take(i as int)),
            c.deleted_directories == dirs_in(events@.take(i as int)),
            c.errors == errors_in(events@.take(i as int)),
        decreases events@.len() - i,
    {
        proof {
            lemma_counts_partition(events@.take(i as int));
        }
        c.record(events[i]);
        proof {
            assert(events@.take(i + 1).drop_last() =~= events@.take(i as int));
            assert(events@.take(i + 1).last() == events@[i as int]);
        }
        i = i + 1;
    }
    proof {
        assert(events@.take(events@.len() as int) =~= events@);
    }
    c
}

} // verus!
