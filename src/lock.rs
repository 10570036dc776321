//! The reader/writer lock that guards each shard's table.
//!
//! Verus sees a lock's contents as opaque: another thread may change them at any time.
//! A critical section is therefore a closure that receives the table for the time the
//! lock is held; what the caller learns is that the closure ran on some table.

use vstd::prelude::*;

verus! {

#[verifier::external_type_specification]
#[verifier::external_body]
pub struct ExRawRwLock(parking_lot::RawRwLock);

#[verifier::external_type_specification]
#[verifier::external_body]
#[verifier::reject_recursive_types(R)]
#[verifier::reject_recursive_types(T)]
pub struct ExRwLock<R, T: ?Sized>(lock_api::RwLock<R, T>);

/// Relies on parking_lot's `RwLock::new`: a lock that holds `value`.
#[verifier::external_body]
pub(crate) fn new_lock<T>(value: T) -> (r: parking_lot::RwLock<T>) {
    parking_lot::RwLock::new(value)
}

/// Relies on parking_lot's `RwLock::write`: `f` runs once, with exclusive access to the
/// protected value, and its result is handed back.
#[verifier::external_body]
pub(crate) fn with_write<T, R, F: FnOnce(&mut T) -> R>(lock: &parking_lot::RwLock<T>, f: F) -> (r: R)
    requires
        forall|t: &mut T| #[trigger] f.requires((t,)),
    ensures
        exists|t: &mut T| #[trigger] f.ensures((t,), r),
{
    f(&mut *lock.write())
}

/// Relies on parking_lot's `RwLock::read`: `f` runs once, with shared access to the
/// protected value, and its result is handed back.
#[verifier::external_body]
pub(crate) fn with_read<T, R, F: FnOnce(&T) -> R>(lock: &parking_lot::RwLock<T>, f: F) -> (r: R)
    requires
        forall|t: &T| #[trigger] f.requires((t,)),
    ensures
        exists|t: &T| #[trigger] f.ensures((t,), r),
{
    f(&*lock.read())
}

} // verus!
