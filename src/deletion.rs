//! Bookkeeping of one deletion run: the snapshot of names to delete, the
//! position reached, and the two outcome lists.
use vstd::prelude::*;
use crate::state::names_of;

verus! {

/// What the caller does next in a deletion run.
#[derive(Debug)]
pub enum DeletionStep {
    /// Delete this repository remotely, then record the outcome.
    Delete(String),
    /// Rehearsal: pace a simulated deletion of this repository, then record
    /// a success.
    Rehearse(String),
    /// Every name has been attempted.
    Finished,
}

/// One deletion run. Every name is attempted once, in order; a failure does
/// not stop the run.
pub struct DeletionRun {
    pub names: Vec<String>,
    /// How many names have been attempted.
    pub position: usize,
    pub deleted: Vec<String>,
    /// Names whose deletion failed, with the reason.
    pub failed: Vec<(String, String)>,
}

/// The names of a list of failures.
pub open spec fn failed_names(f: Seq<(String, String)>) -> Seq<Seq<char>> {
    f.map_values(|p: (String, String)| p.0@)
}

impl DeletionRun {
    /// The outcome lists account for exactly the names attempted so far.
    pub open spec fn wf(&self) -> bool {
        &&& self.position <= self.names@.len()
        &&& self.deleted@.len() + self.failed@.len() == self.position
    }

    /// A run over `names`, nothing attempted yet.
    pub fn new(names: Vec<String>) -> (r: Self)
        ensures
            r.wf(),
            r.names@ == names@,
            r.position == 0,
            r.deleted@.len() == 0,
            r.failed@.len() == 0,
    {
        DeletionRun { names, position: 0, deleted: Vec::new(), failed: Vec::new() }
    }

    /// Records the outcome of the attempt on the current name and moves on.
    pub fn record(&mut self, outcome: Result<(), String>)
        requires
            old(self).wf(),
            old(self).position < old(self).names@.len(),
        ensures
            final(self).wf(),
            final(self).names@ == old(self).names@,
            final(self).position == old(self).position + 1,
            outcome is Ok ==> names_of(final(self).deleted@) == names_of(old(self).deleted@).push(old(self).names@[old(self).position as int]@)
                && final(self).failed@ == old(self).failed@,
            outcome is Err ==> final(self).deleted@ == old(self).deleted@
                && failed_names(final(self).failed@) == failed_names(old(self).failed@).push(old(self).names@[old(self).position as int]@)
                && final(self).failed@.last().1@ == outcome->Err_0@
                && final(self).failed@.drop_last() == old(self).failed@,
    {
        let n = self.names.len();
        let name = self.names[self.position].clone();
        match outcome {
            Ok(()) => {
                self.deleted.push(name);
                assert(names_of(self.deleted@) =~= names_of(old(self).deleted@).push(old(self).names@[old(self).position as int]@));
            },
            Err(reason) => {
                self.failed.push((name, reason));
                assert(failed_names(self.failed@) =~= failed_names(old(self).failed@).push(old(self).names@[old(self).position as int]@));
                assert(self.failed@.drop_last() =~= old(self).failed@);
            },
        }
        self.position = self.position + 1;
    }
}

} // verus!
