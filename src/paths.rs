//! The order in which a directory tree is searched for log files: breadth
//! first, the entries of each directory in sorted order. Reading the file
//! system is left to the caller, which hands over what it finds.
use std::collections::VecDeque;
use std::path::PathBuf;
use vstd::prelude::*;
use vstd::string::StringExecFns;

verus! {

/// `std::path::PathBuf`, carried through opaquely.
#[verifier::external_type_specification]
#[verifier::external_body]
pub struct ExPathBuf(PathBuf);

/// Relies on `<[PathBuf]>::sort_unstable`: the same paths, reordered.
#[verifier::external_body]
fn sort_paths(paths: &mut Vec<PathBuf>)
    ensures
        final(paths)@.to_multiset() == old(paths)@.to_multiset(),
        final(paths)@.len() == old(paths)@.len(),
{
    paths.sort_unstable()
}

/// The paths still to be examined, oldest first.
pub struct RecursiveDirectoryIterator {
    worklist: VecDeque<PathBuf>,
}

impl RecursiveDirectoryIterator {
    pub closed spec fn pending(&self) -> Seq<PathBuf> {
        self.worklist@
    }

    pub fn new(path: PathBuf) -> (r: RecursiveDirectoryIterator)
        ensures
            r.pending() == seq![path],
    {
        let mut worklist = VecDeque::new();
        worklist.push_back(path);
        RecursiveDirectoryIterator { worklist }
    }

    /// The oldest pending path, taken off the list.
    pub fn next_pending(&mut self) -> (r: Option<PathBuf>)
        ensures
            old(self).pending().len() == 0 ==> r is None && final(self).pending().len() == 0,
            old(self).pending().len() > 0 ==> r == Some(old(self).pending()[0])
                && final(self).pending() == old(self).pending().drop_first(),
    {
        self.worklist.pop_front()
    }

    /// Queues the entries of a directory, sorted, after the paths already
    /// pending.
    pub fn push_entries(&mut self, entries: Vec<PathBuf>)
        ensures
            final(self).pending().len() == old(self).pending().len() + entries@.len(),
            final(self).pending().subrange(0, old(self).pending().len() as int)
                == old(self).pending(),
            final(self).pending().subrange(
                old(self).pending().len() as int,
                final(self).pending().len() as int,
            ).to_multiset() == entries@.to_multiset(),
    {
        let mut entries = entries;
        sort_paths(&mut entries);
        let ghost sorted = entries@;
        let mut queued: VecDeque<PathBuf> = VecDeque::new();
        while entries.len() > 0
            invariant
                entries@.len() + queued@.len() == sorted.len(),
                entries@ == sorted.subrange(0, entries@.len() as int),
                queued@ == sorted.subrange(entries@.len() as int, sorted.len() as int),
            decreases entries@.len(),
        {
            let ghost n = entries@.len() as int;
            let p = entries.pop().unwrap();
            proof {
                assert(p == sorted[n - 1]);
            }
            queued.push_front(p);
            proof {
                assert(queued@ =~= sorted.subrange(n - 1, sorted.len() as int));
                assert(entries@ =~= sorted.subrange(0, n - 1));
            }
        }
        let ghost before = self.worklist@;
        self.worklist.append(&mut queued);
        proof {
            assert(sorted.subrange(0, sorted.len() as int) =~= sorted);
            assert(self.worklist@.subrange(0, before.len() as int) =~= before);
            assert(self.worklist@.subrange(before.len() as int, self.worklist@.len() as int)
                =~= sorted);
        }
    }
}

/// The search for log files: the paths of a tree whose extension is `txt`.
pub struct LogIterator {
    pub inner: RecursiveDirectoryIterator,
}

impl LogIterator {
    pub fn new(path: PathBuf) -> (r: LogIterator)
        ensures
            r.inner.pending() == seq![path],
    {
        LogIterator { inner: RecursiveDirectoryIterator::new(path) }
    }
}

/// A file with this extension may hold a binary log.
pub fn is_log_extension(extension: &str) -> (r: bool)
    ensures
        r == (extension@ == "txt"@),
{
    String::from_str(extension) == String::from_str("txt")
}

} // verus!
