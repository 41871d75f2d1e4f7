//! A value behind a reader-writer lock of the standard library.
//!
//! Verus does not see inside a lock. What a reader finds there depends on
//! the writers that came before it, so the functions below promise nothing
//! about the values they hand out.

use std::sync::RwLock;
use vstd::prelude::*;

verus! {

/// `std::sync::RwLock`, a lock that admits many readers or one writer.
#[verifier::external_type_specification]
#[verifier::external_body]
#[verifier::reject_recursive_types(T)]
pub struct ExRwLock<T: ?Sized>(RwLock<T>);

/// `RwLock::new`: a lock that holds `value`.
#[verifier::external_body]
pub(crate) fn lock_new<T>(value: T) -> (lock: RwLock<T>) {
    RwLock::new(value)
}

/// `RwLock::read`, and a clone of what the guard gives access to: a copy of
/// the value that the lock holds at the time of the call. A lock that a
/// panicking writer left poisoned is read all the same.
#[verifier::external_body]
pub(crate) fn lock_read<T: Clone>(lock: &RwLock<T>) -> (value: T) {
    match lock.read() {
        Ok(guard) => guard.clone(),
        Err(poisoned) => poisoned.into_inner().clone(),
    }
}

/// `RwLock::write`, and an assignment through the guard: the lock holds
/// `value` from then on, until the next write. A lock that a panicking
/// writer left poisoned is written all the same.
#[verifier::external_body]
pub(crate) fn lock_write<T>(lock: &RwLock<T>, value: T) {
    match lock.write() {
        Ok(mut guard) => *guard = value,
        Err(poisoned) => *poisoned.into_inner() = value,
    }
}

} // verus!
