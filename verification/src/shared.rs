//! Handles by which a producer and any number of readers share one buffer.
//!
//! A handle is an `Arc<RwLock<LazyBytes>>`. What the lock holds at a given
//! moment depends on what other threads have done, so nothing is claimed of
//! it here: the functions below only move values in and out, and the code that
//! calls them is verified for whatever they return.

use crate::lazybytes::LazyBytes;
use std::sync::Arc;
use std::sync::RwLock;
use std::sync::TryLockError;
use vstd::prelude::*;

verus! {

#[verifier::external_type_specification]
#[verifier::external_body]
#[verifier::reject_recursive_types(T)]
pub struct ExRwLock<T: ?Sized>(std::sync::RwLock<T>);

/// A buffer shared between its writer and its readers.
pub type SharedBytes = Arc<RwLock<LazyBytes>>;

/// What a reader found when it looked at a shared buffer without waiting.
pub enum Glimpse {
    /// The lock was free: a copy of the buffer as it stood.
    Held(LazyBytes),
    /// The writer held the lock.
    Busy,
    /// A thread panicked while it held the lock.
    Poisoned,
}

/// `RwLock::new`: a lock that holds `value`.
#[verifier::external_body]
pub(crate) fn lock_new(value: LazyBytes) -> RwLock<LazyBytes> {
    RwLock::new(value)
}

/// `RwLock::try_read`: looks at the buffer if that is possible without
/// waiting. Nothing is claimed of what is found.
#[verifier::external_body]
pub(crate) fn glimpse(shared: &SharedBytes) -> Glimpse {
    match shared.try_read() {
        Ok(guard) => Glimpse::Held(
            LazyBytes { bytes: guard.bytes.clone(), completion: guard.completion },
        ),
        Err(TryLockError::WouldBlock) => Glimpse::Busy,
        Err(TryLockError::Poisoned(_)) => Glimpse::Poisoned,
    }
}

/// `RwLock::write`: waits for the lock and puts `value` in place of what it
/// held; `false` when the lock is poisoned, and then nothing was stored.
#[verifier::external_body]
pub(crate) fn store(shared: &SharedBytes, value: LazyBytes) -> bool {
    match shared.write() {
        Ok(mut guard) => {
            *guard = value;
            true
        },
        Err(_) => false,
    }
}

/// A fresh shared buffer that holds `value`.
pub(crate) fn share(value: LazyBytes) -> SharedBytes {
    Arc::new(lock_new(value))
}

} // verus!
