use crate::candidate::Candidate;
use concread::CowCell;
use std::sync::Arc;
use vstd::prelude::*;

verus! {

/// `concread::CowCell`, a cell that is read without blocking and written by
/// one writer at a time.
#[verifier::external_type_specification]
#[verifier::external_body]
#[verifier::reject_recursive_types(T)]
pub struct ExCowCell<T>(concread::CowCell<T>);

/// Calls `CowCell::new`.
#[verifier::external_body]
fn cell_new(value: Option<Candidate>) -> CowCell<Option<Candidate>> {
    CowCell::new(value)
}

/// Calls `CowCell::read` and copies the value out of the read transaction.
/// Which value that is depends on the commits of other threads, so nothing is
/// claimed about it.
#[verifier::external_body]
fn cell_read(cell: &CowCell<Option<Candidate>>) -> Option<Candidate> {
    (*cell.read()).clone()
}

/// Opens a write transaction with `CowCell::write`, replaces the value and
/// commits. Readers that began earlier keep the value they saw.
#[verifier::external_body]
fn cell_commit(cell: &CowCell<Option<Candidate>>, value: Option<Candidate>) {
    let mut txn = cell.write();
    txn.replace(value);
    txn.commit();
}

/// The best candidate found so far, readable by every worker without blocking
/// and written by the arbiter alone.
pub struct SharedBest {
    cell: CowCell<Option<Candidate>>,
}

impl SharedBest {
    /// A cell that holds no candidate yet.
    pub fn new() -> SharedBest {
        SharedBest { cell: cell_new(None) }
    }

    /// A snapshot of the best candidate: the value of one commit, whole.
    pub fn read(&self) -> Option<Candidate> {
        cell_read(&self.cell)
    }

    /// Publishes `candidate` as the new best.
    pub(crate) fn commit(&self, candidate: Candidate) {
        cell_commit(&self.cell, Some(candidate));
    }
}

/// Calls `Arc::clone`: one more handle on the same cell.
#[verifier::external_body]
pub(crate) fn share(cell: &Arc<SharedBest>) -> (handle: Arc<SharedBest>)
    ensures
        handle == *cell,
{
    Arc::clone(cell)
}

} // verus!
