use std::marker::PhantomData;
use vstd::prelude::*;

verus! {

/// A service whose requests are answered by the handler type `T` alone,
/// with no state of its own.
pub struct StatelessService<T> {
    phantom_handler: PhantomData<T>,
}

impl<T> StatelessService<T> {
    pub fn create() -> (r: StatelessService<T>) {
        StatelessService { phantom_handler: PhantomData }
    }
}

impl<T> Clone for StatelessService<T> {
    fn clone(&self) -> (r: Self) {
        StatelessService::create()
    }
}

/// A service that hands each request to a clone of its handler.
#[derive(Clone)]
pub struct StatefulService<T> {
    handler: T,
}

impl<T> StatefulService<T> {
    pub closed spec fn spec_handler(&self) -> T {
        self.handler
    }

    pub fn create(handler: T) -> (r: StatefulService<T>)
        ensures
            r.spec_handler() == handler,
    {
        StatefulService { handler: handler }
    }

    /// The handler that each request is given to.
    pub fn handler(&self) -> (r: &T)
        ensures
            *r == self.spec_handler(),
    {
        &self.handler
    }
}

} // verus!
