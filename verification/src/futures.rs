//! A set of futures raced against each other.
use vstd::prelude::*;
use std::marker::PhantomData;

verus! {

/// Polls a set of futures in order and completes with the output of the first
/// one that is ready.
pub struct Race<Output, Futures> {
    futures: Futures,
    phantom: PhantomData<Output>,
}

impl<Output, Futures> Race<Output, Futures> {
    /// The raced futures.
    pub closed spec fn spec_futures(&self) -> Futures {
        self.futures
    }

    /// Races `futures`.
    pub fn new(futures: Futures) -> (r: Self)
        ensures
            r.spec_futures() == futures,
    {
        Race { futures, phantom: PhantomData }
    }

    /// The raced futures, for polling.
    pub fn into_futures(self) -> (r: Futures)
        ensures
            r == self.spec_futures(),
    {
        self.futures
    }
}

} // verus!
