//! The lock that guards the start of the current period of the shared limiter.

use std::sync::LockResult;
use std::sync::Mutex;
use std::sync::MutexGuard;
use std::sync::PoisonError;
use vstd::prelude::*;

verus! {

/// `std::sync::Mutex`. Opaque to the proofs: what it holds is
/// written and read by other threads too.
#[verifier::external_type_specification]
#[verifier::external_body]
#[verifier::reject_recursive_types(T)]
pub struct ExMutex<T: ?Sized>(Mutex<T>);

/// `std::sync::MutexGuard`: the lock, held until the guard is dropped.
#[verifier::external_type_specification]
#[verifier::external_body]
#[verifier::reject_recursive_types(T)]
pub struct ExMutexGuard<'a, T: ?Sized + 'a>(MutexGuard<'a, T>);

/// `std::sync::PoisonError`: a lock that a thread left by panicking.
#[verifier::external_type_specification]
#[verifier::external_body]
#[verifier::reject_recursive_types(T)]
pub struct ExPoisonError<T>(PoisonError<T>);

/// `Mutex::new`: a lock that holds `value`. Nothing is stated of it, as
/// its contents are not visible to the proofs.
#[verifier::external_body]
pub(crate) fn new_lock(value: u128) -> Mutex<u128> {
    Mutex::new(value)
}

/// `Mutex::lock`: waits for the lock and holds it; the error says that a
/// thread panicked while it held the lock. Which of the two comes back
/// depends on other threads, so nothing is stated of it.
#[verifier::external_body]
pub(crate) fn lock_guarded(m: &Mutex<u128>) -> LockResult<MutexGuard<'_, u128>> {
    m.lock()
}

/// `PoisonError::into_inner`: the guard of a lock that a thread left by
/// panicking. Nothing is stated of it.
#[verifier::external_body]
pub(crate) fn poisoned_guard(e: PoisonError<MutexGuard<'_, u128>>) -> MutexGuard<'_, u128> {
    e.into_inner()
}

/// `Deref::deref` on the guard: the value that the held lock guards. What
/// another thread wrote there is not known here, so nothing is stated.
#[verifier::external_body]
pub(crate) fn read_guarded(guard: &MutexGuard<'_, u128>) -> u128 {
    **guard
}

/// `DerefMut::deref_mut` on the guard: writes `value` where the held lock
/// guards. Nothing is stated of the guard afterwards, as it is not read again
/// while it is held.
#[verifier::external_body]
pub(crate) fn write_guarded(guard: &mut MutexGuard<'_, u128>, value: u128) {
    **guard = value;
}

/// Waits for the lock and holds it. The library holds this lock only in code
/// that does not panic, so it is never poisoned by it; a lock poisoned all
/// the same is entered as it is.
pub(crate) fn acquire(m: &Mutex<u128>) -> MutexGuard<'_, u128> {
    match lock_guarded(m) {
        Ok(guard) => guard,
        Err(poisoned) => poisoned_guard(poisoned),
    }
}

} // verus!
