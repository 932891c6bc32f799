//! Configuration of the worker threads that handle network traffic.
use vstd::prelude::*;

verus! {

/// Builds a runtime: the name prefix of its worker threads and how many there are.
pub struct RuntimeBuilder {
    prefix: String,
    threads: usize,
}

impl RuntimeBuilder {
    /// The name prefix of the worker threads.
    pub closed spec fn spec_prefix(&self) -> Seq<char> {
        self.prefix@
    }

    /// The number of worker threads.
    pub closed spec fn spec_threads(&self) -> usize {
        self.threads
    }

    /// One worker thread, named `quic worker`.
    pub fn new() -> (r: RuntimeBuilder)
        ensures
            r.spec_prefix() == "quic worker"@,
            r.spec_threads() == 1,
    {
        RuntimeBuilder { prefix: "quic worker".to_owned(), threads: 1 }
    }

    /// Sets the name prefix of the worker threads.
    pub fn name(&mut self, name: String)
        ensures
            final(self).spec_prefix() == name@,
            final(self).spec_threads() == old(self).spec_threads(),
    {
        self.prefix = name;
    }

    /// Sets the number of worker threads.
    pub fn threads(&mut self, count: usize)
        ensures
            final(self).spec_threads() == count,
            final(self).spec_prefix() == old(self).spec_prefix(),
    {
        self.threads = count;
    }

    /// The name prefix of the worker threads.
    pub fn prefix(&self) -> (r: &str)
        ensures
            r@ == self.spec_prefix(),
    {
        self.prefix.as_str()
    }

    /// The number of worker threads.
    pub fn thread_count(&self) -> (r: usize)
        ensures
            r == self.spec_threads(),
    {
        self.threads
    }
}

} // verus!
