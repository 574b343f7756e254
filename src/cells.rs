//! Shared cells: elements held behind reference-counted reader/writer locks,
//! so that a traversal and other code can reach the same element.
use std::rc::Rc;
use std::sync::RwLock;
use vstd::prelude::*;

verus! {

/// `std::sync::RwLock`, opaque to proofs: what it guards is not visible.
#[verifier::external_type_specification]
#[verifier::external_body]
#[verifier::reject_recursive_types(T)]
pub struct ExRwLock<T: ?Sized>(RwLock<T>);

/// A cell whose lock could not be taken for reading: it was poisoned, or a
/// writer held it.
#[derive(Clone, Copy, Debug, PartialEq, Eq, Structural)]
pub struct LockError {
    /// Position of the cell in the sequence.
    pub index: usize,
}

/// Relies on `std::sync::RwLock::new`: a fresh lock guarding `value`.
#[verifier::external_body]
fn new_lock<T>(value: T) -> RwLock<T> {
    RwLock::new(value)
}

/// Relies on `std::sync::RwLock::try_read`, which neither blocks nor panics:
/// a clone of the guarded value, or `None` when the lock is poisoned or held
/// by a writer.
#[verifier::external_body]
fn try_read_cell<T: Clone>(cell: &Rc<RwLock<T>>) -> Option<T> {
    match cell.try_read() {
        Ok(guard) => Some((*guard).clone()),
        Err(_) => None,
    }
}

/// Wraps each element, cloned, in a cell of its own, keeping order and length.
pub fn rwlockify<T: Clone>(items: &Vec<T>) -> (cells: Vec<Rc<RwLock<T>>>)
    ensures
        cells@.len() == items@.len(),
{
    let mut cells: Vec<Rc<RwLock<T>>> = Vec::new();
    let mut i: usize = 0;
    while i < items.len()
        invariant
            i <= items@.len(),
            cells@.len() == i,
        decreases items@.len() - i,
    {
        cells.push(Rc::new(new_lock(items[i].clone())));
        i = i + 1;
    }
    cells
}

/// Reads the current value out of each cell, in order. Fails at the first
/// cell whose lock cannot be taken for reading.
pub fn unrwlockify<T: Clone>(cells: &Vec<Rc<RwLock<T>>>) -> (r: Result<Vec<T>, LockError>)
    ensures
        r matches Ok(values) ==> values@.len() == cells@.len(),
        r matches Err(e) ==> e.index < cells@.len(),
{
    let mut reads: Vec<Option<T>> = Vec::new();
    let mut i: usize = 0;
    while i < cells.len()
        invariant
            i <= cells@.len(),
            reads@.len() == i,
        decreases cells@.len() - i,
    {
        reads.push(try_read_cell(&cells[i]));
        i = i + 1;
    }
    collect_reads(reads)
}

/// The values of `reads` if every read succeeded; otherwise the position of
/// the first read that failed.
pub fn collect_reads<T>(reads: Vec<Option<T>>) -> (r: Result<Vec<T>, LockError>)
    ensures
        match r {
            Ok(values) => {
                &&& values@.len() == reads@.len()
                &&& forall|i: int| 0 <= i < reads@.len() ==> #[trigger] reads@[i] == Some(values@[i])
            },
            Err(e) => {
                &&& e.index < reads@.len()
                &&& reads@[e.index as int] is None
                &&& forall|i: int| 0 <= i < e.index ==> #[trigger] reads@[i] is Some
            },
        },
{
    let ghost original = reads@;
    let mut pending = reads;
    let mut values: Vec<T> = Vec::new();
    let mut i: usize = 0;
    while i < pending.len()
        invariant
            i <= pending@.len(),
            original == reads@,
            pending@.len() == original.len(),
            values@.len() == i,
            forall|j: int| i <= j < original.len() ==> pending@[j] == original[j],
            forall|j: int| 0 <= j < i ==> original[j] == Some(#[trigger] values@[j]),
        decreases pending@.len() - i,
    {
        let ghost before = pending@[i as int];
        let read = pending[i].take();
        assert(read == before);
        match read {
            Some(v) => values.push(v),
            None => {
                assert(forall|j: int| 0 <= j < i ==> original[j] == Some(values@[j]));
                return Err(LockError { index: i });
            },
        }
        i = i + 1;
    }
    Ok(values)
}

} // verus!
