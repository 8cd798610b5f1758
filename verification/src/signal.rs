//! The shared termination signal: an atomic boolean behind an `Arc`,
//! readable and settable from any number of workers at once.
//!
//! Concurrent reads return whatever another worker may have stored, so
//! nothing is promised about the values here; every caller's contract
//! holds whatever a read returns.  At runtime the flag behaves as the
//! one-shot `Latch` models it: it starts clear, `set` only ever stores
//! true, and no operation stores false.

use vstd::prelude::*;
use core::sync::atomic::AtomicBool;
use core::sync::atomic::Ordering;
use std::sync::Arc;

verus! {

/// A shared one-shot termination flag.  Clones of a signal refer to the
/// same flag.
#[derive(Clone)]
pub struct SharedSignal {
    cell: Arc<AtomicBool>,
}

impl SharedSignal {
    /// A fresh signal, not yet raised.
    pub fn new() -> (r: SharedSignal) {
        SharedSignal { cell: Arc::new(AtomicBool::new(false)) }
    }

    /// Reads the flag; true means some worker has already won.
    pub fn read(&self) -> (r: bool) {
        self.cell.load(Ordering::Relaxed)
    }

    /// Attempts the clear-to-set transition; returns true exactly when
    /// this call saw the flag clear and raised it.
    pub fn try_set(&self) -> (r: bool) {
        match self.cell.compare_exchange(
            false,
            true,
            Ordering::Relaxed,
            Ordering::Relaxed,
        ) {
            Ok(_) => true,
            Err(_) => false,
        }
    }
}

} // verus!
