use vstd::prelude::*;
use crate::model::Blob;

verus! {

/// The deletion stage's state. Deletions run sequentially over the selected
/// records, in their given order; a dry run issues none; the first failure
/// aborts the rest of the run, and nothing already deleted is rolled back.
pub struct Pruner {
    pub targets: Vec<Blob>,
    pub next: usize,
    pub aborted: bool,
    pub dry_run: bool,
}

impl Pruner {
    pub open spec fn wf(self) -> bool {
        self.next <= self.targets@.len()
    }

    /// The delete call the run owes next: none in dry-run mode, none after a
    /// failure, none once every record is done.
    pub open spec fn spec_next_target(self) -> Option<Blob> {
        if !self.dry_run && !self.aborted && self.next < self.targets@.len() {
            Some(self.targets@[self.next as int])
        } else {
            None
        }
    }

    /// Starts a run over the deletable records, in their given order.
    pub fn new(targets: Vec<Blob>, dry_run: bool) -> (r: Pruner)
        ensures
            r.wf(),
            r.targets@ == targets@,
            r.next == 0,
            !r.aborted,
            r.dry_run == dry_run,
    {
        Pruner { targets, next: 0, aborted: false, dry_run }
    }

    /// The record to issue a delete call for now; `None` where none is owed —
    /// always in a dry run, and always after a failure.
    pub fn next_target(&self) -> (r: Option<Blob>)
        ensures
            r == self.spec_next_target(),
            self.dry_run ==> r is None,
            self.aborted ==> r is None,
    {
        if !self.dry_run && !self.aborted && self.next < self.targets.len() {
            Some(self.targets[self.next])
        } else {
            None
        }
    }

    /// Records the issued call's outcome: success moves on to the next
    /// record; failure aborts the remaining deletions of this run.
    pub fn record_outcome(&mut self, ok: bool)
        requires
            old(self).wf(),
            old(self).spec_next_target() is Some,
        ensures
            final(self).wf(),
            final(self).targets@ == old(self).targets@,
            final(self).dry_run == old(self).dry_run,
            ok ==> final(self).next == old(self).next + 1 && !final(self).aborted,
            !ok ==> final(self).aborted && final(self).next == old(self).next,
    {
        if ok {
            let n = self.targets.len();
            proof {
                assert(self.next < n);
            }
            self.next = self.next + 1;
        } else {
            self.aborted = true;
        }
    }
}

/// After a failed deletion nothing further is issued: an aborted run owes no
/// delete call, so the records after the failing one are never attempted.
pub proof fn lemma_failure_halts(p: Pruner)
    ensures
        p.aborted ==> p.spec_next_target() is None,
{
}

/// A dry run issues no delete call, whatever its state.
pub proof fn lemma_dry_run_issues_nothing(p: Pruner)
    ensures
        p.dry_run ==> p.spec_next_target() is None,
{
}

/// Deletions are sequential and exhaustive: a live run that has completed k
/// deletions owes exactly the k-th record next — one call per deletable
/// record, in order — and owes nothing once every record is done.
pub proof fn lemma_sequential_deletion(p: Pruner)
    requires
        p.wf(),
        !p.dry_run,
        !p.aborted,
    ensures
        p.next < p.targets@.len() ==> p.spec_next_target() == Some(p.targets@[p.next as int]),
        p.next == p.targets@.len() ==> p.spec_next_target() is None,
{
}

} // verus!
