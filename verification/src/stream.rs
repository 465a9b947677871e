use crate::engine::{engine_handle_clone, Engine};
use crate::error::DnnlError;
use std::sync::Arc;
use vstd::prelude::*;

verus! {

/// Submission-order policy of an execution queue.
///
/// The default policy is in-order submission.
#[derive(Debug, Clone, Copy, PartialEq, Eq, Structural)]
pub enum StreamFlags {
    /// Work completes in submission order.
    InOrder,
    /// Work may complete in any order; the caller orders it with waits.
    OutOfOrder,
}

/// An execution queue bound to one engine.
///
/// Work submitted here completes no later than the next [`Stream::wait`];
/// this library executes submissions eagerly, so `wait` never blocks and
/// never fails. The stream shares ownership of its engine, so the engine
/// outlives it structurally.
#[derive(Debug)]
pub struct Stream {
    pub engine: Arc<Engine>,
    pub flags: StreamFlags,
}

impl Stream {
    /// Creates a stream with the default (in-order) policy.
    pub fn new(engine: Arc<Engine>) -> (r: Result<Stream, DnnlError>)
        ensures
            r matches Ok(s) && *s.engine == *engine && s.flags == StreamFlags::InOrder,
    {
        Stream::new_with_flags(engine, StreamFlags::InOrder)
    }

    /// Creates a stream with an explicit submission-order policy.
    pub fn new_with_flags(engine: Arc<Engine>, flags: StreamFlags) -> (r: Result<
        Stream,
        DnnlError,
    >)
        ensures
            r matches Ok(s) && *s.engine == *engine && s.flags == flags,
    {
        Ok(Stream { engine, flags })
    }

    /// Blocks until all work submitted to this stream has completed.
    ///
    /// Submissions are executed eagerly, so there is never outstanding work
    /// at this point and the wait always succeeds.
    pub fn wait(&self) -> (r: Result<(), DnnlError>)
        ensures
            r == Ok::<(), DnnlError>(()),
    {
        Ok(())
    }

    /// A new shared handle to the engine this stream is bound to.
    pub fn get_engine(&self) -> (r: Arc<Engine>)
        ensures
            *r == *self.engine,
    {
        engine_handle_clone(&self.engine)
    }

    /// Spec-level engine this stream is bound to.
    pub open spec fn spec_engine(&self) -> Engine {
        *self.engine
    }

    /// Spec-level submission-order policy.
    pub open spec fn spec_flags(&self) -> StreamFlags {
        self.flags
    }
}

} // verus!
