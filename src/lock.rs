use vstd::prelude::*;

verus! {

#[verifier::external_type_specification]
#[verifier::external_body]
#[verifier::reject_recursive_types(T)]
pub struct ExMutex<T: ?Sized>(std::sync::Mutex<T>);

#[verifier::external_type_specification]
#[verifier::external_body]
#[verifier::reject_recursive_types(T)]
pub struct ExMutexGuard<'a, T: ?Sized + 'a>(std::sync::MutexGuard<'a, T>);

/// Relies on std::sync::Mutex::new: builds an unlocked mutex.
pub assume_specification<T>[ std::sync::Mutex::<T>::new ](t: T) -> std::sync::Mutex<T>;

/// An advisory lock. It guards a resource outside the in-memory hierarchy,
/// such as a file, not any value of this library: holding it only keeps
/// other holders of the same lock out.
pub struct QuickLock {
    mutex: std::sync::Mutex<()>,
}

/// Relies on std::sync::Mutex::lock: blocks the calling thread until the
/// lock is free, and frees it when the guard goes out of scope, on every
/// path. A holder that panicked does not keep the lock from being taken.
#[verifier::external_body]
fn acquire(mutex: &std::sync::Mutex<()>) -> std::sync::MutexGuard<'_, ()> {
    match mutex.lock() {
        Ok(guard) => guard,
        Err(poisoned) => poisoned.into_inner(),
    }
}

impl QuickLock {
    /// A free lock.
    pub fn new() -> QuickLock {
        QuickLock { mutex: std::sync::Mutex::new(()) }
    }

    /// Waits until the lock is free and takes it; it is released when the
    /// returned guard is dropped.
    pub fn lock(&self) -> std::sync::MutexGuard<'_, ()> {
        acquire(&self.mutex)
    }
}

} // verus!
