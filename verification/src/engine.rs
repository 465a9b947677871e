use crate::error::DnnlError;
use std::sync::Arc;
use vstd::prelude::*;

verus! {

/// Kind of compute device a handle refers to.
#[derive(Debug, Clone, Copy, PartialEq, Eq, Structural)]
pub enum EngineKind {
    /// An unspecified device.
    Any,
    /// A CPU device.
    Cpu,
    /// A GPU device.
    Gpu,
}

/// A handle to one compute device.
///
/// Every object built downstream of an engine (streams, bound memory,
/// primitive descriptors, primitives) stores a shared, reference-counted
/// `Arc<Engine>`, never a borrow, so the handle cannot be dropped before its
/// dependents: destruction order is enforced structurally.
#[derive(Debug, Clone, Copy, PartialEq, Eq, Structural)]
pub struct Engine {
    pub kind: EngineKind,
    pub index: usize,
}

/// Number of devices this library exposes for a kind: a single CPU device
/// and no GPU devices (no GPU runtime is wired in), while the unspecified
/// kind names no concrete device at all.
pub open spec fn spec_engine_count(kind: EngineKind) -> nat {
    match kind {
        EngineKind::Cpu => 1,
        EngineKind::Gpu => 0,
        EngineKind::Any => 0,
    }
}

impl Engine {
    /// Creates an engine of the given kind.
    ///
    /// Succeeds exactly when `index` names an existing device of that kind;
    /// otherwise reports invalid arguments.
    pub fn new(kind: EngineKind, index: usize) -> (r: Result<Arc<Engine>, DnnlError>)
        ensures
            index < spec_engine_count(kind) ==> (r matches Ok(e) && (*e).kind == kind && (
            *e).index == index),
            index >= spec_engine_count(kind) ==> r == Err::<Arc<Engine>, DnnlError>(
                DnnlError::InvalidArguments,
            ),
    {
        let count = Engine::get_count(kind);
        if index < count {
            Ok(Arc::new(Engine { kind, index }))
        } else {
            Err(DnnlError::InvalidArguments)
        }
    }

    /// Reports the kind of this engine.
    pub fn get_kind(&self) -> (r: Result<EngineKind, DnnlError>)
        ensures
            r == Ok::<EngineKind, DnnlError>(self.kind),
    {
        Ok(self.kind)
    }

    /// The index this engine was created with.
    pub fn get_index(&self) -> (r: usize)
        ensures
            r == self.index,
    {
        self.index
    }

    /// Number of available devices of a kind; zero for unsupported kinds,
    /// never an error.
    pub fn get_count(kind: EngineKind) -> (r: usize)
        ensures
            r == spec_engine_count(kind),
    {
        match kind {
            EngineKind::Cpu => 1,
            EngineKind::Gpu => 0,
            EngineKind::Any => 0,
        }
    }

    /// Spec-level kind of this engine.
    pub open spec fn spec_kind(&self) -> EngineKind {
        self.kind
    }

    /// Spec-level index of this engine.
    pub open spec fn spec_index(&self) -> usize {
        self.index
    }
}

/// Borrows the engine behind a shared handle.
///
/// Relies on `alloc::sync::Arc::as_ref`: returns a reference to the shared
/// value without affecting the reference count.
#[verifier::external_body]
pub fn engine_ref(e: &Arc<Engine>) -> (r: &Engine)
    ensures
        *r == **e,
{
    e.as_ref()
}

/// Clones a shared engine handle.
///
/// Relies on `alloc::sync::Arc::clone`: returns a second handle to the same
/// shared value, incrementing the reference count.
#[verifier::external_body]
pub fn engine_handle_clone(e: &Arc<Engine>) -> (r: Arc<Engine>)
    ensures
        *r == **e,
{
    Arc::clone(e)
}

} // verus!
