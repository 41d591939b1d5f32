//! The flag through which a user stops a goal loop.
use std::sync::atomic::AtomicBool;
use std::sync::Arc;
use vstd::prelude::*;

verus! {

/// A flag that is shared between its clones. Any thread that holds one may
/// raise it at any time, so which of its two values it reads as is not stated.
pub struct AbortFlag(Arc<AtomicBool>);

impl AbortFlag {
    /// The cell that holds the flag.
    pub closed spec fn cell(&self) -> AtomicBool {
        *self.0
    }

    /// A flag that is not raised: its cell is a new one that holds `false`.
    pub fn new() -> (flag: Self)
        ensures
            call_ensures(AtomicBool::new, (false,), flag.cell()),
    {
        AbortFlag(Arc::new(AtomicBool::new(false)))
    }

    /// Raises the flag, for all its clones and for good: stores `true` in its
    /// cell.
    pub fn raise(&self)
        ensures
            call_ensures(
                AtomicBool::store,
                (&self.cell(), true, std::sync::atomic::Ordering::SeqCst),
                (),
            ),
    {
        self.0.store(true, std::sync::atomic::Ordering::SeqCst);
    }

    /// Whether the flag was raised through this clone or another: what a load of
    /// its cell gives.
    pub fn is_raised(&self) -> (raised: bool)
        ensures
            call_ensures(
                AtomicBool::load,
                (&self.cell(), std::sync::atomic::Ordering::SeqCst),
                raised,
            ),
    {
        self.0.load(std::sync::atomic::Ordering::SeqCst)
    }
}

impl Default for AbortFlag {
    /// A flag that is not raised.
    fn default() -> (flag: Self)
        ensures
            call_ensures(AtomicBool::new, (false,), flag.cell()),
    {
        AbortFlag::new()
    }
}

impl Clone for AbortFlag {
    /// The same flag once more.
    fn clone(&self) -> (flag: Self)
        ensures
            flag == *self,
    {
        AbortFlag(self.0.clone())
    }
}

} // verus!
