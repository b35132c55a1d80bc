//! A mutual-exclusion lock. Acquisition spins on an atomic flag (by way of
//! the verified reader-writer lock underneath) until the lock is free; the
//! holder receives the protected value and gives it back on unlock.

use vstd::prelude::*;

verus! {

use vstd::rwlock::RwLock;
use vstd::rwlock::RwLockPredicate;
use vstd::rwlock::WriteHandle;

/// The lock predicate: any value of the protected type may be stored.
pub struct AnyValue;

impl<T> RwLockPredicate<T> for AnyValue {
    open spec fn inv(self, v: T) -> bool {
        true
    }
}

/// A spin-based mutual-exclusion lock around one value.
pub struct SpinLock<T> {
    inner: RwLock<T, AnyValue>,
}

/// Witness that a [`SpinLock`] is held. The protected value travels with
/// the holder and comes back through [`SpinLockGuard::unlock`]; the lock
/// stays taken until then.
pub struct SpinLockGuard<'a, T> {
    handle: WriteHandle<'a, T, AnyValue>,
}

impl<T> SpinLock<T> {
    /// A free lock protecting `data`.
    pub fn new(data: T) -> (r: SpinLock<T>) {
        SpinLock { inner: RwLock::new(data, Ghost(AnyValue)) }
    }

    /// Takes the lock, spinning while another holder is inside, and hands
    /// out the protected value together with the guard that releases it.
    pub fn lock(&self) -> (r: (T, SpinLockGuard<'_, T>)) {
        let (v, handle) = self.inner.acquire_write();
        (v, SpinLockGuard { handle })
    }
}

impl<'a, T> SpinLockGuard<'a, T> {
    /// Releases the lock, storing `val` as the protected value.
    pub fn unlock(self, val: T) {
        self.handle.release_write(val);
    }
}

} // verus!
